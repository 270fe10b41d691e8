//! Whole lines through the dispatcher: every command, its errors, and the
//! end-to-end scenarios a script runner would see.

use nudhi::action::{Action, DiagKind};
use nudhi::interp::{interpret_line, store_input};
use nudhi::store::Store;
use nudhi::value::Value;

fn run(line: &str, store: &mut Store) -> Action {
    interpret_line(line.as_bytes(), store)
}

#[test]
fn literal_assignment_reads_back() {
    let mut store = Store::new();
    assert_eq!(run("n = 42", &mut store), Action::Done);
    assert_eq!(store.get(b"n"), Some(&Value::Int(42)));
    assert_eq!(run("m = -7", &mut store), Action::Done);
    assert_eq!(store.get(b"m"), Some(&Value::Int(-7)));
}

#[test]
fn assignment_fallback_order() {
    let mut store = Store::new();
    // A right side that is no literal and no expression is stored as text.
    assert_eq!(run("n = hello", &mut store), Action::Done);
    assert_eq!(store.get(b"n"), Some(&Value::Str(b"hello".to_vec())));
    // A valid expression is stored as its number, never as text.
    assert_eq!(run("n = 3 + 4", &mut store), Action::Done);
    assert_eq!(store.get(b"n"), Some(&Value::Int(7)));
}

#[test]
fn assignment_division_by_zero_is_fatal() {
    let mut store = Store::new();
    assert_eq!(run("x = 10 / 0", &mut store), Action::Fatal);
    assert!(store.get(b"x").is_none());
}

#[test]
fn assignment_without_equals_is_reported() {
    let mut store = Store::new();
    assert_eq!(
        run("1 + 2", &mut store),
        Action::Report { kind: DiagKind::InvalidAssignment, subject: Vec::new() }
    );
}

#[test]
fn say_quoted_text() {
    let mut store = Store::new();
    assert_eq!(
        run("nudhi_say \"hello world\"", &mut store),
        Action::Say(b"hello world".to_vec())
    );
}

#[test]
fn say_variable_values() {
    let mut store = Store::new();
    store.set(b"i".to_vec(), Value::Int(-3));
    store.set(b"s".to_vec(), Value::Str(b"text".to_vec()));
    assert_eq!(run("nudhi_say i", &mut store), Action::Say(b"-3".to_vec()));
    assert_eq!(run("nudhi_say s", &mut store), Action::Say(b"text".to_vec()));
}

#[test]
fn say_errors() {
    let mut store = Store::new();
    assert_eq!(
        run("nudhi_say ghost", &mut store),
        Action::Report { kind: DiagKind::VarNotFound, subject: b"ghost".to_vec() }
    );
    assert_eq!(
        run("nudhi_say \"open", &mut store),
        Action::Report { kind: DiagKind::UnterminatedQuote, subject: Vec::new() }
    );
    assert_eq!(
        run("nudhi_say a b", &mut store),
        Action::Report { kind: DiagKind::SaySyntax, subject: Vec::new() }
    );
}

#[test]
fn scenario_arithmetic_then_say() {
    let mut store = Store::new();
    assert_eq!(run("v = 2 + 3", &mut store), Action::Done);
    assert_eq!(run("nudhi_say v", &mut store), Action::Say(b"5".to_vec()));
}

#[test]
fn scenario_case_change_then_say() {
    let mut store = Store::new();
    assert_eq!(run("name = hi", &mut store), Action::Done);
    assert_eq!(run("nudhi_change_case name upper", &mut store), Action::Done);
    assert_eq!(run("nudhi_say name", &mut store), Action::Say(b"HI".to_vec()));
}

#[test]
fn quoted_assignment_keeps_quotes_verbatim() {
    // The assignment stores the raw trimmed right side: quotes included.
    let mut store = Store::new();
    assert_eq!(run("name = \"hi\"", &mut store), Action::Done);
    assert_eq!(store.get(b"name"), Some(&Value::Str(b"\"hi\"".to_vec())));
}

#[test]
fn scenario_write_then_read_round_trip() {
    let mut store = Store::new();
    let written = match run("nudhi_write \"out.txt\" \"hello\"", &mut store) {
        Action::WriteFile { path, content } => {
            assert_eq!(path, b"out.txt".to_vec());
            content
        },
        other => panic!("expected a file write, got {:?}", other),
    };
    // The runner would write `written` to disk and read it back unchanged.
    match run("nudhi_read \"out.txt\" r", &mut store) {
        Action::ReadFile { path, name } => {
            assert_eq!(path, b"out.txt".to_vec());
            store.set(name, Value::Str(written));
        },
        other => panic!("expected a file read, got {:?}", other),
    }
    assert_eq!(run("nudhi_say r", &mut store), Action::Say(b"hello".to_vec()));
}

#[test]
fn change_case_upper_and_lower() {
    let mut store = Store::new();
    store.set(b"s".to_vec(), Value::Str(b"abc".to_vec()));
    assert_eq!(run("nudhi_change_case s upper", &mut store), Action::Done);
    assert_eq!(store.get(b"s"), Some(&Value::Str(b"ABC".to_vec())));
    // Applying upper again is idempotent.
    assert_eq!(run("nudhi_change_case s upper", &mut store), Action::Done);
    assert_eq!(store.get(b"s"), Some(&Value::Str(b"ABC".to_vec())));
    assert_eq!(run("nudhi_change_case s lower", &mut store), Action::Done);
    assert_eq!(store.get(b"s"), Some(&Value::Str(b"abc".to_vec())));
}

#[test]
fn change_case_on_int_reports_without_mutation() {
    let mut store = Store::new();
    store.set(b"n".to_vec(), Value::Int(5));
    assert_eq!(
        run("nudhi_change_case n upper", &mut store),
        Action::Report { kind: DiagKind::NotAString, subject: b"n".to_vec() }
    );
    assert_eq!(store.get(b"n"), Some(&Value::Int(5)));
}

#[test]
fn change_case_errors() {
    let mut store = Store::new();
    store.set(b"s".to_vec(), Value::Str(b"abc".to_vec()));
    assert_eq!(
        run("nudhi_change_case s sideways", &mut store),
        Action::Report { kind: DiagKind::BadCaseMode, subject: b"sideways".to_vec() }
    );
    assert_eq!(
        run("nudhi_change_case ghost upper", &mut store),
        Action::Report { kind: DiagKind::VarNotFound, subject: b"ghost".to_vec() }
    );
    assert_eq!(
        run("nudhi_change_case s", &mut store),
        Action::Report { kind: DiagKind::CaseSyntax, subject: Vec::new() }
    );
}

#[test]
fn unknown_command_never_aborts() {
    let mut store = Store::new();
    assert_eq!(
        run("warble", &mut store),
        Action::Report { kind: DiagKind::UnknownCommand, subject: b"warble".to_vec() }
    );
    // The next lines still execute normally.
    assert_eq!(run("v = 1 + 1", &mut store), Action::Done);
    assert_eq!(run("nudhi_say v", &mut store), Action::Say(b"2".to_vec()));
}

#[test]
fn missing_variable_never_aborts() {
    let mut store = Store::new();
    assert_eq!(
        run("nudhi_say ghost", &mut store),
        Action::Report { kind: DiagKind::VarNotFound, subject: b"ghost".to_vec() }
    );
    assert_eq!(run("v = 3", &mut store), Action::Done);
    assert_eq!(store.get(b"v"), Some(&Value::Int(3)));
}

#[test]
fn die_halts() {
    let mut store = Store::new();
    assert_eq!(run("nudhi_die", &mut store), Action::Halt);
}

#[test]
fn empty_line_is_skipped() {
    let mut store = Store::new();
    assert_eq!(run("   ", &mut store), Action::Done);
    assert_eq!(run("", &mut store), Action::Done);
}

#[test]
fn ask_prompts_and_stores_typed_input() {
    let mut store = Store::new();
    match run("nudhi_ask \"Your age?\" age", &mut store) {
        Action::Ask { prompt, name } => {
            assert_eq!(prompt, b"Your age?".to_vec());
            assert_eq!(name, b"age".to_vec());
            store_input(&mut store, name, b" 42 \n".as_slice());
        },
        other => panic!("expected a prompt, got {:?}", other),
    }
    assert_eq!(store.get(b"age"), Some(&Value::Int(42)));
    match run("nudhi_ask \"Name?\" who", &mut store) {
        Action::Ask { name, .. } => store_input(&mut store, name, b"Ada".as_slice()),
        other => panic!("expected a prompt, got {:?}", other),
    }
    assert_eq!(store.get(b"who"), Some(&Value::Str(b"Ada".to_vec())));
}

#[test]
fn ask_without_quote_is_reported() {
    let mut store = Store::new();
    assert_eq!(
        run("nudhi_ask age", &mut store),
        Action::Report { kind: DiagKind::MissingQuote, subject: Vec::new() }
    );
}

#[test]
fn do_runs_quoted_command() {
    let mut store = Store::new();
    assert_eq!(
        run("nudhi_do \"echo hi\"", &mut store),
        Action::Run(b"echo hi".to_vec())
    );
    assert_eq!(
        run("nudhi_do echo", &mut store),
        Action::Report { kind: DiagKind::MissingQuote, subject: Vec::new() }
    );
}

#[test]
fn write_with_variable_content() {
    let mut store = Store::new();
    store.set(b"v".to_vec(), Value::Int(7));
    assert_eq!(
        run("nudhi_write \"f.txt\" v", &mut store),
        Action::WriteFile { path: b"f.txt".to_vec(), content: b"7".to_vec() }
    );
    assert_eq!(
        run("nudhi_write \"f.txt\" ghost", &mut store),
        Action::Report { kind: DiagKind::VarNotFound, subject: b"ghost".to_vec() }
    );
}

#[test]
fn read_and_write_syntax_errors() {
    let mut store = Store::new();
    assert_eq!(
        run("nudhi_read \"f.txt\"", &mut store),
        Action::Report { kind: DiagKind::ReadSyntax, subject: Vec::new() }
    );
    assert_eq!(
        run("nudhi_read f.txt r", &mut store),
        Action::Report { kind: DiagKind::MissingQuote, subject: Vec::new() }
    );
    assert_eq!(
        run("nudhi_write \"f.txt\"", &mut store),
        Action::Report { kind: DiagKind::WriteSyntax, subject: Vec::new() }
    );
}

#[test]
fn assignment_accepts_function_form_expressions() {
    let mut store = Store::new();
    assert_eq!(run("r = sqrt 9", &mut store), Action::Done);
    assert_eq!(store.get(b"r"), Some(&Value::Int(3)));
    assert_eq!(run("a = 20", &mut store), Action::Done);
    assert_eq!(run("b = 22", &mut store), Action::Done);
    assert_eq!(run("sum = a + b", &mut store), Action::Done);
    assert_eq!(store.get(b"sum"), Some(&Value::Int(42)));
}

#[test]
fn say_prefers_quoted_text_over_tokens() {
    let mut store = Store::new();
    store.set(b"v".to_vec(), Value::Int(1));
    assert_eq!(run("nudhi_say \"x\" v", &mut store), Action::Say(b"x".to_vec()));
}

#[test]
fn write_content_is_one_token() {
    // The content argument is taken from the third whitespace token, so a
    // quoted text with a space never sees its closing quote.
    let mut store = Store::new();
    assert_eq!(
        run("nudhi_write \"f.txt\" \"two words\"", &mut store),
        Action::Report { kind: DiagKind::UnterminatedQuote, subject: Vec::new() }
    );
}

#[test]
fn overwriting_changes_value_kind() {
    let mut store = Store::new();
    assert_eq!(run("v = 1", &mut store), Action::Done);
    assert_eq!(run("v = words here", &mut store), Action::Done);
    assert_eq!(store.get(b"v"), Some(&Value::Str(b"words here".to_vec())));
}
