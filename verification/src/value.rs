//! The runtime value of a variable: a 32-bit signed integer or a byte
//! string. A value is viewed in contracts as a [`ValueModel`], and is
//! rendered as text exactly as the print and file-write commands show it.

use vstd::prelude::*;
use crate::bytes::subvec;
use crate::numbers::{render_i32, render_i32_spec};

verus! {

/// A variable's runtime value.
#[derive(Debug, PartialEq, Eq)]
pub enum Value {
    /// A 32-bit signed integer.
    Int(i32),
    /// A byte string.
    Str(Vec<u8>),
}

/// The mathematical shape of a [`Value`].
pub enum ValueModel {
    /// An integer value.
    Int(int),
    /// A text value.
    Str(Seq<u8>),
}

impl View for Value {
    type V = ValueModel;

    open spec fn view(&self) -> ValueModel {
        match self {
            Value::Int(n) => ValueModel::Int(*n as int),
            Value::Str(s) => ValueModel::Str(s@),
        }
    }
}

/// How a value is shown as text: an integer as its decimal digits, a byte
/// string as itself.
pub open spec fn render_value_spec(v: ValueModel) -> Seq<u8> {
    match v {
        ValueModel::Int(n) => render_i32_spec(n),
        ValueModel::Str(s) => s,
    }
}

impl Value {
    /// An identical copy of the value.
    pub fn duplicate(&self) -> (r: Value)
        ensures
            r@ == self@,
    {
        match self {
            Value::Int(n) => Value::Int(*n),
            Value::Str(s) => {
                let c = subvec(s.as_slice(), 0, s.len());
                proof {
                    assert(c@ =~= s@);
                }
                Value::Str(c)
            },
        }
    }

    /// The value rendered as text.
    pub fn render(&self) -> (r: Vec<u8>)
        ensures
            r@ == render_value_spec(self@),
    {
        match self {
            Value::Int(n) => render_i32(*n),
            Value::Str(s) => {
                let c = subvec(s.as_slice(), 0, s.len());
                proof {
                    assert(c@ =~= s@);
                }
                c
            },
        }
    }
}

} // verus!
