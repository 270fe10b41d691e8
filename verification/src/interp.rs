//! The line dispatcher and the remaining handlers. A script line is
//! trimmed, classified by its leading verb — or by assignment shape when
//! no verb matches — and handled: the store is updated where the line only
//! concerns variables, and an [`Action`] tells the caller which single
//! side effect, if any, the line asks for. An unrecognized line is a
//! reported diagnostic and never stops the run.

use vstd::prelude::*;
use crate::action::{Action, ActionModel, DiagKind};
use crate::bytes::{contains_byte, copy_bytes, find_byte, first_byte_idx, has_byte, last_byte_idx,
    rfind_byte, subvec, trim, trim_spec};
use crate::files::{nudhi_read, nudhi_write, read_spec, write_spec};
use crate::math::{evaluate_math, eval_spec, EvalOutcome};
use crate::numbers::parse_i32;
use crate::numbers::parse_i32_spec;
use crate::store::Store;
use crate::strings::{change_case_spec, nudhi_change_case};
use crate::tokens::{lemma_deep_view_elems, tokenize, tokens_of};
use crate::value::{render_value_spec, Value, ValueModel};
use crate::words::{kw_ask, kw_ask_bytes, kw_change_case, kw_change_case_bytes, kw_die,
    kw_die_bytes, kw_do, kw_do_bytes, kw_read, kw_read_bytes, kw_say, kw_say_bytes, kw_write,
    kw_write_bytes};

verus! {

/// What the print command does: a quoted text is printed as given; else a
/// single further token names a variable whose value is printed.
pub open spec fn say_spec(t: Seq<u8>, m: Map<Seq<u8>, ValueModel>) -> ActionModel {
    if has_byte(t, 34) {
        let fq = first_byte_idx(t, 34);
        let lq = last_byte_idx(t, 34);
        if fq != lq {
            ActionModel::Say(t.subrange(fq + 1, lq))
        } else {
            ActionModel::Report { kind: DiagKind::UnterminatedQuote, subject: Seq::empty() }
        }
    } else if tokens_of(t).len() == 2 {
        let name = tokens_of(t)[1];
        if m.contains_key(name) {
            ActionModel::Say(render_value_spec(m[name]))
        } else {
            ActionModel::Report { kind: DiagKind::VarNotFound, subject: name }
        }
    } else {
        ActionModel::Report { kind: DiagKind::SaySyntax, subject: Seq::empty() }
    }
}

/// Handles a trimmed print line against the current variables.
pub fn nudhi_say(t: &[u8], store: &Store) -> (r: Action)
    ensures
        r@ == say_spec(t@, store@),
{
    match find_byte(t, 34) {
        Some(fq) => match rfind_byte(t, 34) {
            None => {
                proof {
                    assert(false);
                }
                Action::Done
            },
            Some(lq) => {
                if fq != lq {
                    proof {
                        crate::bytes::lemma_first_byte_props(t@, 34);
                        crate::bytes::lemma_last_byte_props(t@, 34);
                        assert(fq < lq);
                    }
                    Action::Say(subvec(t, fq + 1, lq))
                } else {
                    Action::Report { kind: DiagKind::UnterminatedQuote, subject: Vec::new() }
                }
            },
        },
        None => {
            let toks = tokenize(t);
            proof {
                lemma_deep_view_elems(toks);
            }
            if toks.len() == 2 {
                let name = &toks[1];
                match store.get(name.as_slice()) {
                    Some(v) => Action::Say(v.render()),
                    None => {
                        let subject = copy_bytes(name.as_slice());
                        Action::Report { kind: DiagKind::VarNotFound, subject }
                    },
                }
            } else {
                Action::Report { kind: DiagKind::SaySyntax, subject: Vec::new() }
            }
        },
    }
}

/// What the prompt command asks for: print the quoted prompt, then read a
/// line and bind it, typed, to the name after the closing quote.
pub open spec fn ask_spec(t: Seq<u8>) -> ActionModel {
    if !has_byte(t, 34) {
        ActionModel::Report { kind: DiagKind::MissingQuote, subject: Seq::empty() }
    } else {
        let fq = first_byte_idx(t, 34);
        let lq = last_byte_idx(t, 34);
        if fq == lq {
            ActionModel::Report { kind: DiagKind::UnterminatedQuote, subject: Seq::empty() }
        } else {
            ActionModel::Ask {
                prompt: t.subrange(fq + 1, lq),
                name: trim_spec(t.subrange(lq + 1, t.len() as int)),
            }
        }
    }
}

/// Handles a trimmed prompt line.
pub fn nudhi_ask(t: &[u8]) -> (r: Action)
    ensures
        r@ == ask_spec(t@),
{
    match find_byte(t, 34) {
        None => Action::Report { kind: DiagKind::MissingQuote, subject: Vec::new() },
        Some(fq) => match rfind_byte(t, 34) {
            None => {
                proof {
                    assert(false);
                }
                Action::Done
            },
            Some(lq) => {
                if fq == lq {
                    Action::Report { kind: DiagKind::UnterminatedQuote, subject: Vec::new() }
                } else {
                    proof {
                        crate::bytes::lemma_first_byte_props(t@, 34);
                        crate::bytes::lemma_last_byte_props(t@, 34);
                        assert(fq < lq);
                    }
                    let n = t.len();
                    let prompt = subvec(t, fq + 1, lq);
                    let tail = subvec(t, lq + 1, n);
                    let name = trim(tail.as_slice());
                    Action::Ask { prompt, name }
                }
            },
        },
    }
}

/// What the shell command asks for: run the quoted text.
pub open spec fn do_spec(t: Seq<u8>) -> ActionModel {
    if !has_byte(t, 34) {
        ActionModel::Report { kind: DiagKind::MissingQuote, subject: Seq::empty() }
    } else {
        let fq = first_byte_idx(t, 34);
        let lq = last_byte_idx(t, 34);
        if fq == lq {
            ActionModel::Report { kind: DiagKind::UnterminatedQuote, subject: Seq::empty() }
        } else {
            ActionModel::Run(t.subrange(fq + 1, lq))
        }
    }
}

/// Handles a trimmed shell-command line.
pub fn nudhi_do(t: &[u8]) -> (r: Action)
    ensures
        r@ == do_spec(t@),
{
    match find_byte(t, 34) {
        None => Action::Report { kind: DiagKind::MissingQuote, subject: Vec::new() },
        Some(fq) => match rfind_byte(t, 34) {
            None => {
                proof {
                    assert(false);
                }
                Action::Done
            },
            Some(lq) => {
                if fq == lq {
                    Action::Report { kind: DiagKind::UnterminatedQuote, subject: Vec::new() }
                } else {
                    proof {
                        crate::bytes::lemma_first_byte_props(t@, 34);
                        crate::bytes::lemma_last_byte_props(t@, 34);
                        assert(fq < lq);
                    }
                    Action::Run(subvec(t, fq + 1, lq))
                }
            },
        },
    }
}

/// What an assignment does. The line is split at its first `=`; name and
/// right-hand side are trimmed. The right-hand side is resolved in order:
/// as an integer literal, else as an expression, else it is stored
/// verbatim as text. Division by zero inside the expression is fatal.
pub open spec fn set_spec(t: Seq<u8>, m: Map<Seq<u8>, ValueModel>) -> (
    Map<Seq<u8>, ValueModel>,
    ActionModel,
) {
    if !has_byte(t, 61) {
        (m, ActionModel::Report { kind: DiagKind::InvalidAssignment, subject: Seq::empty() })
    } else {
        let eq = first_byte_idx(t, 61);
        let name = trim_spec(t.take(eq));
        let rhs = trim_spec(t.skip(eq + 1));
        match parse_i32_spec(rhs) {
            Some(v) => (m.insert(name, ValueModel::Int(v as int)), ActionModel::Done),
            None => match eval_spec(rhs, m) {
                EvalOutcome::Num(v) => (
                    m.insert(name, ValueModel::Int(v as int)),
                    ActionModel::Done,
                ),
                EvalOutcome::DivByZero => (m, ActionModel::Fatal),
                EvalOutcome::Invalid => (
                    m.insert(name, ValueModel::Str(rhs)),
                    ActionModel::Done,
                ),
            },
        }
    }
}

/// Handles a trimmed assignment line against the store.
pub fn nudhi_set(t: &[u8], store: &mut Store) -> (r: Action)
    ensures
        final(store)@ == set_spec(t@, old(store)@).0,
        r@ == set_spec(t@, old(store)@).1,
{
    match find_byte(t, 61) {
        None => Action::Report { kind: DiagKind::InvalidAssignment, subject: Vec::new() },
        Some(eq) => {
            let n = t.len();
            let head = subvec(t, 0, eq);
            let name = trim(head.as_slice());
            let tail = subvec(t, eq + 1, n);
            let rhs = trim(tail.as_slice());
            proof {
                assert(t@.subrange(0, eq as int) =~= t@.take(eq as int));
                assert(t@.subrange(eq + 1, t@.len() as int) =~= t@.skip(eq + 1));
            }
            match parse_i32(rhs.as_slice()) {
                Some(v) => {
                    store.set(name, Value::Int(v));
                    Action::Done
                },
                None => match evaluate_math(rhs.as_slice(), store) {
                    EvalOutcome::Num(v) => {
                        store.set(name, Value::Int(v));
                        Action::Done
                    },
                    EvalOutcome::DivByZero => Action::Fatal,
                    EvalOutcome::Invalid => {
                        store.set(name, Value::Str(rhs));
                        Action::Done
                    },
                },
            }
        },
    }
}

/// How a line of interactive input is typed before it is bound: trimmed,
/// then an integer if it parses as one, else text.
pub open spec fn input_value_spec(raw: Seq<u8>) -> ValueModel {
    let t = trim_spec(raw);
    match parse_i32_spec(t) {
        Some(v) => ValueModel::Int(v as int),
        None => ValueModel::Str(t),
    }
}

/// Binds one line of interactive input under `name`, typed as
/// [`input_value_spec`] says.
pub fn store_input(store: &mut Store, name: Vec<u8>, raw: &[u8])
    ensures
        final(store)@ == old(store)@.insert(name@, input_value_spec(raw@)),
{
    let t = trim(raw);
    match parse_i32(t.as_slice()) {
        Some(v) => store.set(name, Value::Int(v)),
        None => store.set(name, Value::Str(t)),
    }
}

/// What one script line does to the store, and what it asks of the
/// caller: the dispatcher's whole behaviour.
pub open spec fn step_spec(line: Seq<u8>, m: Map<Seq<u8>, ValueModel>) -> (
    Map<Seq<u8>, ValueModel>,
    ActionModel,
) {
    let t = trim_spec(line);
    if t.len() == 0 {
        (m, ActionModel::Done)
    } else if kw_ask().is_prefix_of(t) {
        (m, ask_spec(t))
    } else if kw_change_case().is_prefix_of(t) {
        change_case_spec(t, m)
    } else if kw_do().is_prefix_of(t) {
        (m, do_spec(t))
    } else if kw_die().is_prefix_of(t) {
        (m, ActionModel::Halt)
    } else if kw_read().is_prefix_of(t) {
        (m, read_spec(t))
    } else if kw_say().is_prefix_of(t) {
        (m, say_spec(t, m))
    } else if kw_write().is_prefix_of(t) {
        (m, write_spec(t, m))
    } else if has_byte(t, 61) || has_byte(t, 43) || has_byte(t, 45) || has_byte(t, 42) || has_byte(
        t,
        47,
    ) {
        set_spec(t, m)
    } else {
        (m, ActionModel::Report { kind: DiagKind::UnknownCommand, subject: line })
    }
}

/// Dispatches one script line: trims it, routes it to its handler, and
/// returns the action the caller must perform.
pub fn interpret_line(line: &[u8], store: &mut Store) -> (r: Action)
    ensures
        final(store)@ == step_spec(line@, old(store)@).0,
        r@ == step_spec(line@, old(store)@).1,
{
    let t = trim(line);
    if t.len() == 0 {
        return Action::Done;
    }
    let ts = t.as_slice();
    let k_ask = kw_ask_bytes();
    if crate::bytes::starts_with(ts, k_ask.as_slice()) {
        return nudhi_ask(ts);
    }
    let k_cc = kw_change_case_bytes();
    if crate::bytes::starts_with(ts, k_cc.as_slice()) {
        return nudhi_change_case(ts, store);
    }
    let k_do = kw_do_bytes();
    if crate::bytes::starts_with(ts, k_do.as_slice()) {
        return nudhi_do(ts);
    }
    let k_die = kw_die_bytes();
    if crate::bytes::starts_with(ts, k_die.as_slice()) {
        return Action::Halt;
    }
    let k_read = kw_read_bytes();
    if crate::bytes::starts_with(ts, k_read.as_slice()) {
        return nudhi_read(ts);
    }
    let k_say = kw_say_bytes();
    if crate::bytes::starts_with(ts, k_say.as_slice()) {
        return nudhi_say(ts, store);
    }
    let k_write = kw_write_bytes();
    if crate::bytes::starts_with(ts, k_write.as_slice()) {
        return nudhi_write(ts, store);
    }
    if contains_byte(ts, 61) || contains_byte(ts, 43) || contains_byte(ts, 45) || contains_byte(
        ts,
        42,
    ) || contains_byte(ts, 47) {
        return nudhi_set(ts, store);
    }
    Action::Report { kind: DiagKind::UnknownCommand, subject: copy_bytes(line) }
}

/// A line without its one optional trailing carriage return.
pub open spec fn strip_cr(l: Seq<u8>) -> Seq<u8> {
    if l.len() > 0 && l.last() == 13 {
        l.drop_last()
    } else {
        l
    }
}

/// The lines of a script: split at each line feed, each line stripped of
/// one trailing carriage return, with no empty line after a final line
/// feed.
pub open spec fn lines_of(s: Seq<u8>) -> Seq<Seq<u8>>
    decreases s.len(),
    via lines_of_decreases
{
    if s.len() == 0 {
        Seq::empty()
    } else if has_byte(s, 10) {
        let i = first_byte_idx(s, 10);
        seq![strip_cr(s.take(i))] + lines_of(s.skip(i + 1))
    } else {
        seq![strip_cr(s)]
    }
}

#[via_fn]
proof fn lines_of_decreases(s: Seq<u8>) {
    if s.len() > 0 && has_byte(s, 10) {
        crate::bytes::lemma_first_byte_props(s, 10);
    }
}

/// At a line boundary, the line list is the line `s[i..j]` (stripped of a
/// trailing carriage return) followed by the lines of the rest.
proof fn lemma_lines_step(s: Seq<u8>, i: int, j: int)
    requires
        0 <= i <= j <= s.len(),
        i < s.len(),
        forall|k: int| i <= k < j ==> s[k] != 10,
        j == s.len() || s[j] == 10,
    ensures
        j < s.len() ==> lines_of(s.skip(i)) == seq![strip_cr(s.subrange(i, j))] + lines_of(
            s.skip(j + 1),
        ),
        j == s.len() ==> lines_of(s.skip(i)) == seq![strip_cr(s.subrange(i, j))],
{
    let t = s.skip(i);
    if j < s.len() {
        assert(t[j - i] == 10);
        crate::bytes::lemma_first_byte_idx(t, 10, j - i);
        assert(t.take(j - i) =~= s.subrange(i, j));
        assert(t.skip(j - i + 1) =~= s.skip(j + 1));
    } else {
        assert(forall|k: int| 0 <= k < t.len() ==> t[k] != 10);
        assert(t =~= s.subrange(i, j));
    }
}

/// Splits a whole script into its lines.
pub fn split_lines(source: &[u8]) -> (r: Vec<Vec<u8>>)
    ensures
        r.deep_view() == lines_of(source@),
{
    let n = source.len();
    let mut r: Vec<Vec<u8>> = Vec::new();
    let mut i: usize = 0;
    proof {
        assert(source@.skip(0) =~= source@);
        assert(r.deep_view() + lines_of(source@.skip(0)) =~= lines_of(source@));
    }
    while i < n
        invariant
            0 <= i <= n,
            n == source@.len(),
            r.deep_view() + lines_of(source@.skip(i as int)) == lines_of(source@),
        decreases n - i,
    {
        let mut j: usize = i;
        while j < n && source[j] != 10
            invariant
                i <= j <= n,
                n == source@.len(),
                forall|k: int| i <= k < j ==> source@[k] != 10,
            decreases n - j,
        {
            j = j + 1;
        }
        let mut end = j;
        if end > i && source[end - 1] == 13 {
            end = end - 1;
        }
        let line = subvec(source, i, end);
        let ghost prev = r.deep_view();
        proof {
            lemma_lines_step(source@, i as int, j as int);
            if j > i && source@[j - 1] == 13 {
                assert(strip_cr(source@.subrange(i as int, j as int)) =~= source@.subrange(
                    i as int,
                    j - 1,
                ));
            } else {
                assert(strip_cr(source@.subrange(i as int, j as int)) =~= source@.subrange(
                    i as int,
                    j as int,
                ));
            }
            assert(line@ == strip_cr(source@.subrange(i as int, j as int)));
        }
        r.push(line);
        proof {
            assert(r.deep_view() =~~= prev.push(line@));
        }
        if j < n {
            proof {
                assert(prev.push(line@) + lines_of(source@.skip(j + 1)) =~= prev + (seq![line@]
                    + lines_of(source@.skip(j + 1))));
            }
            i = j + 1;
        } else {
            proof {
                assert(lines_of(source@.skip(n as int)) =~= Seq::<Seq<u8>>::empty());
                assert(prev.push(line@) + Seq::<Seq<u8>>::empty() =~= prev + seq![line@]);
            }
            i = n;
        }
    }
    proof {
        assert(lines_of(source@.skip(n as int)) =~= Seq::<Seq<u8>>::empty());
        assert(r.deep_view() + Seq::<Seq<u8>>::empty() =~= r.deep_view());
    }
    r
}

} // verus!
