//! The language's general guarantees, stated and proved over the
//! dispatcher's own specifications.

use vstd::prelude::*;
use crate::action::{ActionModel, DiagKind};
use crate::bytes::{first_byte_idx, has_byte, trim_spec};
use crate::interp::{set_spec, step_spec};
use crate::math::{eval_spec, EvalOutcome};
use crate::numbers::parse_i32_spec;
use crate::strings::{change_case_spec, lemma_case_idempotent, lower_spec, upper_spec};
use crate::tokens::tokens_of;
use crate::value::{render_value_spec, ValueModel};
use crate::words::{kw_ask, kw_change_case, kw_die, kw_do, kw_read, kw_say, kw_write};

verus! {

/// Assigning an integer literal binds the name to exactly that integer:
/// reading the name back yields the literal's value.
pub proof fn lemma_literal_assignment(t: Seq<u8>, m: Map<Seq<u8>, ValueModel>, v: i32)
    requires
        has_byte(t, 61),
        parse_i32_spec(trim_spec(t.skip(first_byte_idx(t, 61) + 1))) == Some(v),
    ensures
        set_spec(t, m).0 == m.insert(
            trim_spec(t.take(first_byte_idx(t, 61))),
            ValueModel::Int(v as int),
        ),
        set_spec(t, m).0[trim_spec(t.take(first_byte_idx(t, 61)))] == ValueModel::Int(v as int),
        set_spec(t, m).1 == ActionModel::Done,
{
}

/// The assignment fallback order is load-bearing: a right-hand side that
/// is a literal or a valid expression is stored as an integer, never as
/// text; one that is neither is stored verbatim as text.
pub proof fn lemma_assignment_fallback(t: Seq<u8>, m: Map<Seq<u8>, ValueModel>)
    requires
        has_byte(t, 61),
    ensures
        ({
            let name = trim_spec(t.take(first_byte_idx(t, 61)));
            let rhs = trim_spec(t.skip(first_byte_idx(t, 61) + 1));
            &&& (parse_i32_spec(rhs) is None && eval_spec(rhs, m) == EvalOutcome::Invalid
                ==> set_spec(t, m).0[name] == ValueModel::Str(rhs))
            &&& (parse_i32_spec(rhs) is Some || eval_spec(rhs, m) is Num ==> set_spec(
                t,
                m,
            ).0[name] is Int)
        }),
{
}

/// Changing a variable's case twice with the same mode is the same as
/// changing it once: the second pass finds text that is already folded.
pub proof fn lemma_change_case_idempotent(name: Seq<u8>, s: Seq<u8>, m: Map<Seq<u8>, ValueModel>)
    ensures
        m.insert(name, ValueModel::Str(upper_spec(s))).insert(
            name,
            ValueModel::Str(upper_spec(upper_spec(s))),
        ) == m.insert(name, ValueModel::Str(upper_spec(s))),
        m.insert(name, ValueModel::Str(lower_spec(s))).insert(
            name,
            ValueModel::Str(lower_spec(lower_spec(s))),
        ) == m.insert(name, ValueModel::Str(lower_spec(s))),
{
    lemma_case_idempotent(s);
    assert(m.insert(name, ValueModel::Str(upper_spec(s))).insert(
        name,
        ValueModel::Str(upper_spec(s)),
    ) =~= m.insert(name, ValueModel::Str(upper_spec(s))));
    assert(m.insert(name, ValueModel::Str(lower_spec(s))).insert(
        name,
        ValueModel::Str(lower_spec(s)),
    ) =~= m.insert(name, ValueModel::Str(lower_spec(s))));
}

/// Changing the case of a variable that holds an integer is a reported
/// error and no binding moves.
pub proof fn lemma_case_change_int_unchanged(t: Seq<u8>, m: Map<Seq<u8>, ValueModel>)
    requires
        tokens_of(t).len() == 3,
        tokens_of(t)[0] == kw_change_case(),
        m.contains_key(tokens_of(t)[1]),
        m[tokens_of(t)[1]] is Int,
    ensures
        change_case_spec(t, m).0 == m,
        change_case_spec(t, m).1 == (ActionModel::Report {
            kind: DiagKind::NotAString,
            subject: tokens_of(t)[1],
        }),
{
}

/// Text bound from a file read is returned byte for byte: binding content
/// and rendering it back changes nothing.
pub proof fn lemma_content_round_trip(c: Seq<u8>, name: Seq<u8>, m: Map<Seq<u8>, ValueModel>)
    ensures
        m.insert(name, ValueModel::Str(c))[name] == ValueModel::Str(c),
        render_value_spec(ValueModel::Str(c)) == c,
{
}

/// A line whose outcome is a reported diagnostic leaves the store exactly
/// as it was: recoverable errors have no effect.
pub proof fn lemma_diagnostics_preserve_store(line: Seq<u8>, m: Map<Seq<u8>, ValueModel>)
    ensures
        step_spec(line, m).1 is Report ==> step_spec(line, m).0 == m,
{
}

/// An unrecognized line is only a diagnostic: the store is unchanged and
/// the run is neither halted nor failed, so later lines still execute.
pub proof fn lemma_unknown_command_is_harmless(line: Seq<u8>, m: Map<Seq<u8>, ValueModel>)
    requires
        trim_spec(line).len() > 0,
        !kw_ask().is_prefix_of(trim_spec(line)),
        !kw_change_case().is_prefix_of(trim_spec(line)),
        !kw_do().is_prefix_of(trim_spec(line)),
        !kw_die().is_prefix_of(trim_spec(line)),
        !kw_read().is_prefix_of(trim_spec(line)),
        !kw_say().is_prefix_of(trim_spec(line)),
        !kw_write().is_prefix_of(trim_spec(line)),
        !has_byte(trim_spec(line), 61),
        !has_byte(trim_spec(line), 43),
        !has_byte(trim_spec(line), 45),
        !has_byte(trim_spec(line), 42),
        !has_byte(trim_spec(line), 47),
    ensures
        step_spec(line, m).0 == m,
        step_spec(line, m).1 == (ActionModel::Report {
            kind: DiagKind::UnknownCommand,
            subject: line,
        }),
{
}

} // verus!
