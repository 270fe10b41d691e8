//! The case-change command: `nudhi_change_case name mode` turns the text
//! held by `name` to upper or lower case, letter by letter over the ASCII
//! alphabet. The target must currently hold text; any other mode, target
//! or shape is a reported, recoverable error that leaves the store as it
//! was.

use vstd::prelude::*;
use crate::action::{Action, ActionModel, DiagKind};
use crate::store::Store;
use crate::tokens::{lemma_deep_view_elems, tokenize, tokens_of};
use crate::value::{Value, ValueModel};
use crate::words::{kw_change_case, kw_change_case_bytes, kw_lower, kw_lower_bytes, kw_upper,
    kw_upper_bytes};

verus! {

/// One byte to upper case: a small letter loses 32, all else stays.
pub open spec fn upper_byte(b: u8) -> u8 {
    if 97 <= b && b <= 122 {
        (b - 32) as u8
    } else {
        b
    }
}

/// One byte to lower case: a capital letter gains 32, all else stays.
pub open spec fn lower_byte(b: u8) -> u8 {
    if 65 <= b && b <= 90 {
        (b + 32) as u8
    } else {
        b
    }
}

/// The text with every letter in upper case.
pub open spec fn upper_spec(s: Seq<u8>) -> Seq<u8> {
    s.map_values(|b: u8| upper_byte(b))
}

/// The text with every letter in lower case.
pub open spec fn lower_spec(s: Seq<u8>) -> Seq<u8> {
    s.map_values(|b: u8| lower_byte(b))
}

/// Changing case is idempotent: a second pass changes nothing.
pub proof fn lemma_case_idempotent(s: Seq<u8>)
    ensures
        upper_spec(upper_spec(s)) == upper_spec(s),
        lower_spec(lower_spec(s)) == lower_spec(s),
{
    assert(upper_spec(upper_spec(s)) =~= upper_spec(s));
    assert(lower_spec(lower_spec(s)) =~= lower_spec(s));
}

/// Copies `v` with every letter in upper case.
pub fn to_upper(v: &[u8]) -> (r: Vec<u8>)
    ensures
        r@ == upper_spec(v@),
{
    let n = v.len();
    let mut r: Vec<u8> = Vec::new();
    let mut k: usize = 0;
    while k < n
        invariant
            0 <= k <= n,
            n == v@.len(),
            r@ =~= upper_spec(v@.take(k as int)),
        decreases n - k,
    {
        let b = v[k];
        if 97 <= b && b <= 122 {
            r.push(b - 32);
        } else {
            r.push(b);
        }
        k = k + 1;
        proof {
            assert(r@ =~= upper_spec(v@.take(k as int)));
        }
    }
    proof {
        assert(v@.take(n as int) =~= v@);
    }
    r
}

/// Copies `v` with every letter in lower case.
pub fn to_lower(v: &[u8]) -> (r: Vec<u8>)
    ensures
        r@ == lower_spec(v@),
{
    let n = v.len();
    let mut r: Vec<u8> = Vec::new();
    let mut k: usize = 0;
    while k < n
        invariant
            0 <= k <= n,
            n == v@.len(),
            r@ =~= lower_spec(v@.take(k as int)),
        decreases n - k,
    {
        let b = v[k];
        if 65 <= b && b <= 90 {
            r.push(b + 32);
        } else {
            r.push(b);
        }
        k = k + 1;
        proof {
            assert(r@ =~= lower_spec(v@.take(k as int)));
        }
    }
    proof {
        assert(v@.take(n as int) =~= v@);
    }
    r
}

/// What the case-change command does to the store, and what it reports.
pub open spec fn change_case_spec(t: Seq<u8>, m: Map<Seq<u8>, ValueModel>) -> (
    Map<Seq<u8>, ValueModel>,
    ActionModel,
) {
    let toks = tokens_of(t);
    if toks.len() != 3 || toks[0] != kw_change_case() {
        (m, ActionModel::Report { kind: DiagKind::CaseSyntax, subject: Seq::empty() })
    } else {
        let name = toks[1];
        let mode = toks[2];
        if !m.contains_key(name) {
            (m, ActionModel::Report { kind: DiagKind::VarNotFound, subject: name })
        } else {
            match m[name] {
                ValueModel::Str(s) => if mode == kw_upper() {
                    (m.insert(name, ValueModel::Str(upper_spec(s))), ActionModel::Done)
                } else if mode == kw_lower() {
                    (m.insert(name, ValueModel::Str(lower_spec(s))), ActionModel::Done)
                } else {
                    (m, ActionModel::Report { kind: DiagKind::BadCaseMode, subject: mode })
                },
                ValueModel::Int(_) => (
                    m,
                    ActionModel::Report { kind: DiagKind::NotAString, subject: name },
                ),
            }
        }
    }
}

/// Handles a trimmed case-change line against the store.
pub fn nudhi_change_case(t: &[u8], store: &mut Store) -> (r: Action)
    ensures
        final(store)@ == change_case_spec(t@, old(store)@).0,
        r@ == change_case_spec(t@, old(store)@).1,
{
    let toks = tokenize(t);
    proof {
        lemma_deep_view_elems(toks);
    }
    let verb = kw_change_case_bytes();
    if toks.len() != 3 || !crate::bytes::bytes_eq(toks[0].as_slice(), verb.as_slice()) {
        return Action::Report { kind: DiagKind::CaseSyntax, subject: Vec::new() };
    }
    let name = &toks[1];
    let mode = &toks[2];
    let held = store.get(name.as_slice());
    match held {
        None => {
            let subject = crate::bytes::copy_bytes(name.as_slice());
            Action::Report { kind: DiagKind::VarNotFound, subject }
        },
        Some(v) => match v {
            Value::Str(s) => {
                let up = kw_upper_bytes();
                let lo = kw_lower_bytes();
                if crate::bytes::bytes_eq(mode.as_slice(), up.as_slice()) {
                    let changed = to_upper(s.as_slice());
                    let key = crate::bytes::copy_bytes(name.as_slice());
                    store.set(key, Value::Str(changed));
                    Action::Done
                } else if crate::bytes::bytes_eq(mode.as_slice(), lo.as_slice()) {
                    let changed = to_lower(s.as_slice());
                    let key = crate::bytes::copy_bytes(name.as_slice());
                    store.set(key, Value::Str(changed));
                    Action::Done
                } else {
                    let subject = crate::bytes::copy_bytes(mode.as_slice());
                    Action::Report { kind: DiagKind::BadCaseMode, subject }
                }
            },
            Value::Int(_) => {
                let subject = crate::bytes::copy_bytes(name.as_slice());
                Action::Report { kind: DiagKind::NotAString, subject }
            },
        },
    }
}

} // verus!
