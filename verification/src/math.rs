//! The expression evaluator. An expression is a whitespace-tokenized line
//! with one of two shapes: three tokens `left op right` with an operator
//! among `+ - * / ^ %`, or a function keyword (`pow`, `log`, `sqrt`, `ln`,
//! `abs`) followed by its operands. An operand is an integer literal or
//! the name of a variable currently holding an integer. Any other shape,
//! an unknown name, or a text-valued variable makes the evaluation
//! invalid; division or remainder by zero is the one fatal outcome.

use vstd::prelude::*;
use crate::arith::{
    div_trunc, ilog, iln, isqrt, ln_floor, log_floor, mod_trunc, pow_wrap, pow_wrap_spec,
    sqrt_floor, tdiv, tmod,
};
use crate::bytes::bytes_eq;
use crate::numbers::parse_i32_spec;
use crate::numbers::parse_i32;
use crate::store::Store;
use crate::tokens::{tokenize, tokens_of};
use crate::value::{Value, ValueModel};
use crate::words::{kw_abs, kw_abs_bytes, kw_ln, kw_ln_bytes, kw_log, kw_log_bytes, kw_pow,
    kw_pow_bytes, kw_sqrt, kw_sqrt_bytes};

verus! {

/// What evaluating an expression yields.
#[derive(Debug, Clone, Copy, PartialEq, Eq, Structural)]
pub enum EvalOutcome {
    /// The expression names this number.
    Num(i32),
    /// The text is not a valid expression; the caller falls back to its
    /// own handling.
    Invalid,
    /// Division or remainder by zero: a fatal condition, to be surfaced
    /// distinctly and to end the run.
    DivByZero,
}

/// How a single operand token resolves: as an integer literal, else as the
/// name of a variable that currently holds an integer.
pub open spec fn operand_spec(t: Seq<u8>, m: Map<Seq<u8>, ValueModel>) -> Option<i32> {
    match parse_i32_spec(t) {
        Some(v) => Some(v),
        None => if m.contains_key(t) {
            match m[t] {
                ValueModel::Int(n) => if i32::MIN <= n <= i32::MAX {
                    Some(n as i32)
                } else {
                    None
                },
                ValueModel::Str(_) => None,
            }
        } else {
            None
        },
    }
}

/// Whether a token is one of the six binary operators.
pub open spec fn is_op_token(t: Seq<u8>) -> bool {
    t.len() == 1 && (t[0] == 43 || t[0] == 45 || t[0] == 42 || t[0] == 47 || t[0] == 94 || t[0]
        == 37)
}

/// What a binary operator yields on two resolved operands. Addition,
/// subtraction, multiplication and exponentiation wrap; division and
/// remainder truncate toward zero and are fatal on a zero right operand;
/// a negative exponent is rejected.
pub open spec fn apply_op_spec(l: i32, op: u8, r: i32) -> EvalOutcome {
    if op == 43 {
        EvalOutcome::Num(vstd::wrapping::i32_specs::wrapping_add(l, r))
    } else if op == 45 {
        EvalOutcome::Num(vstd::wrapping::i32_specs::wrapping_sub(l, r))
    } else if op == 42 {
        EvalOutcome::Num(vstd::wrapping::i32_specs::wrapping_mul(l, r))
    } else if op == 47 {
        if r == 0 {
            EvalOutcome::DivByZero
        } else if l == i32::MIN && r == -1 {
            EvalOutcome::Num(i32::MIN)
        } else {
            EvalOutcome::Num(tdiv(l as int, r as int) as i32)
        }
    } else if op == 94 {
        if r < 0 {
            EvalOutcome::Invalid
        } else {
            EvalOutcome::Num(pow_wrap_spec(l, r as nat))
        }
    } else {
        // op == 37
        if r == 0 {
            EvalOutcome::DivByZero
        } else {
            EvalOutcome::Num(tmod(l as int, r as int) as i32)
        }
    }
}

/// What a token list evaluates to.
pub open spec fn eval_tokens_spec(toks: Seq<Seq<u8>>, m: Map<Seq<u8>, ValueModel>) -> EvalOutcome {
    if toks.len() == 3 && is_op_token(toks[1]) {
        match operand_spec(toks[0], m) {
            Some(l) => match operand_spec(toks[2], m) {
                Some(r) => apply_op_spec(l, toks[1][0], r),
                None => EvalOutcome::Invalid,
            },
            None => EvalOutcome::Invalid,
        }
    } else if toks.len() == 3 && toks[0] == kw_pow() {
        match operand_spec(toks[1], m) {
            Some(b) => match operand_spec(toks[2], m) {
                Some(e) => if e < 0 {
                    EvalOutcome::Invalid
                } else {
                    EvalOutcome::Num(pow_wrap_spec(b, e as nat))
                },
                None => EvalOutcome::Invalid,
            },
            None => EvalOutcome::Invalid,
        }
    } else if toks.len() == 3 && toks[0] == kw_log() {
        match operand_spec(toks[1], m) {
            Some(n) => match operand_spec(toks[2], m) {
                Some(b) => if n >= 1 && b >= 2 {
                    EvalOutcome::Num(log_floor(b as int, n as int) as i32)
                } else {
                    EvalOutcome::Invalid
                },
                None => EvalOutcome::Invalid,
            },
            None => EvalOutcome::Invalid,
        }
    } else if toks.len() == 2 && toks[0] == kw_sqrt() {
        match operand_spec(toks[1], m) {
            Some(n) => if n >= 0 {
                EvalOutcome::Num(sqrt_floor(n as int) as i32)
            } else {
                EvalOutcome::Invalid
            },
            None => EvalOutcome::Invalid,
        }
    } else if toks.len() == 2 && toks[0] == kw_ln() {
        match operand_spec(toks[1], m) {
            Some(n) => if n >= 1 {
                EvalOutcome::Num(ln_floor(n as int) as i32)
            } else {
                EvalOutcome::Invalid
            },
            None => EvalOutcome::Invalid,
        }
    } else if toks.len() == 2 && toks[0] == kw_abs() {
        match operand_spec(toks[1], m) {
            Some(n) => if n == i32::MIN {
                EvalOutcome::Num(i32::MIN)
            } else if n < 0 {
                EvalOutcome::Num((-(n as int)) as i32)
            } else {
                EvalOutcome::Num(n)
            },
            None => EvalOutcome::Invalid,
        }
    } else {
        EvalOutcome::Invalid
    }
}

/// What an expression evaluates to against the given variables.
pub open spec fn eval_spec(expr: Seq<u8>, m: Map<Seq<u8>, ValueModel>) -> EvalOutcome {
    eval_tokens_spec(tokens_of(expr), m)
}

/// Resolves one operand token: a literal, else a variable holding an
/// integer; anything else is `None`.
pub fn get_number_value(t: &Vec<u8>, store: &Store) -> (r: Option<i32>)
    ensures
        r == operand_spec(t@, store@),
{
    match parse_i32(t.as_slice()) {
        Some(v) => Some(v),
        None => match store.get(t.as_slice()) {
            Some(val) => match val {
                Value::Int(n) => Some(*n),
                Value::Str(_) => None,
            },
            None => None,
        },
    }
}

/// Applies one binary operator to two resolved operands.
fn apply_op(l: i32, op: u8, r: i32) -> (res: EvalOutcome)
    requires
        op == 43 || op == 45 || op == 42 || op == 47 || op == 94 || op == 37,
    ensures
        res == apply_op_spec(l, op, r),
{
    if op == 43 {
        EvalOutcome::Num(l.wrapping_add(r))
    } else if op == 45 {
        EvalOutcome::Num(l.wrapping_sub(r))
    } else if op == 42 {
        EvalOutcome::Num(l.wrapping_mul(r))
    } else if op == 47 {
        if r == 0 {
            EvalOutcome::DivByZero
        } else if l == i32::MIN && r == -1 {
            EvalOutcome::Num(i32::MIN)
        } else {
            EvalOutcome::Num(div_trunc(l, r))
        }
    } else if op == 94 {
        if r < 0 {
            EvalOutcome::Invalid
        } else {
            EvalOutcome::Num(pow_wrap(l, r))
        }
    } else {
        if r == 0 {
            EvalOutcome::DivByZero
        } else {
            EvalOutcome::Num(mod_trunc(l, r))
        }
    }
}

/// Evaluates an expression against the current variables.
pub fn evaluate_math(expr: &[u8], store: &Store) -> (r: EvalOutcome)
    ensures
        r == eval_spec(expr@, store@),
{
    let toks = tokenize(expr);
    let ghost spec_toks = tokens_of(expr@);
    proof {
        assert(toks@.len() == spec_toks.len());
        assert forall|i: int| 0 <= i < toks@.len() implies #[trigger] toks@[i]@ == spec_toks[i] by {
            assert(toks.deep_view()[i] == toks@[i].deep_view());
            assert(toks@[i].deep_view() =~= toks@[i]@);
        }
    }
    if toks.len() == 3 {
        let is_op = toks[1].len() == 1 && {
            let b = toks[1][0];
            b == 43 || b == 45 || b == 42 || b == 47 || b == 94 || b == 37
        };
        if is_op {
            let op = toks[1][0];
            match get_number_value(&toks[0], store) {
                Some(l) => match get_number_value(&toks[2], store) {
                    Some(r) => apply_op(l, op, r),
                    None => EvalOutcome::Invalid,
                },
                None => EvalOutcome::Invalid,
            }
        } else {
            let pw = kw_pow_bytes();
            let lg = kw_log_bytes();
            if bytes_eq(toks[0].as_slice(), pw.as_slice()) {
                match get_number_value(&toks[1], store) {
                    Some(b) => match get_number_value(&toks[2], store) {
                        Some(e) => if e < 0 {
                            EvalOutcome::Invalid
                        } else {
                            EvalOutcome::Num(pow_wrap(b, e))
                        },
                        None => EvalOutcome::Invalid,
                    },
                    None => EvalOutcome::Invalid,
                }
            } else if bytes_eq(toks[0].as_slice(), lg.as_slice()) {
                match get_number_value(&toks[1], store) {
                    Some(n) => match get_number_value(&toks[2], store) {
                        Some(b) => if n >= 1 && b >= 2 {
                            EvalOutcome::Num(ilog(n, b))
                        } else {
                            EvalOutcome::Invalid
                        },
                        None => EvalOutcome::Invalid,
                    },
                    None => EvalOutcome::Invalid,
                }
            } else {
                EvalOutcome::Invalid
            }
        }
    } else if toks.len() == 2 {
        let sq = kw_sqrt_bytes();
        let ln_ = kw_ln_bytes();
        let ab = kw_abs_bytes();
        if bytes_eq(toks[0].as_slice(), sq.as_slice()) {
            match get_number_value(&toks[1], store) {
                Some(n) => if n >= 0 {
                    EvalOutcome::Num(isqrt(n))
                } else {
                    EvalOutcome::Invalid
                },
                None => EvalOutcome::Invalid,
            }
        } else if bytes_eq(toks[0].as_slice(), ln_.as_slice()) {
            match get_number_value(&toks[1], store) {
                Some(n) => if n >= 1 {
                    EvalOutcome::Num(iln(n))
                } else {
                    EvalOutcome::Invalid
                },
                None => EvalOutcome::Invalid,
            }
        } else if bytes_eq(toks[0].as_slice(), ab.as_slice()) {
            match get_number_value(&toks[1], store) {
                Some(n) => if n == i32::MIN {
                    EvalOutcome::Num(i32::MIN)
                } else if n < 0 {
                    EvalOutcome::Num(-n)
                } else {
                    EvalOutcome::Num(n)
                },
                None => EvalOutcome::Invalid,
            }
        } else {
            EvalOutcome::Invalid
        }
    } else {
        EvalOutcome::Invalid
    }
}

} // verus!
