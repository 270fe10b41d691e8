//! The reserved words of the language, as byte sequences: the seven command
//! verbs, the evaluator's function keywords, and the two case modes.

use vstd::prelude::*;

verus! {

/// The bytes of `nudhi_ask`.
pub open spec fn kw_ask() -> Seq<u8> {
    seq![110u8, 117u8, 100u8, 104u8, 105u8, 95u8, 97u8, 115u8, 107u8]
}

/// Executable counterpart of [`kw_ask`]: the bytes of `nudhi_ask`.
pub fn kw_ask_bytes() -> (v: Vec<u8>)
    ensures
        v@ == kw_ask(),
{
    let v: Vec<u8> = vec![110u8, 117u8, 100u8, 104u8, 105u8, 95u8, 97u8, 115u8, 107u8];
    proof {
        assert(v@ =~= kw_ask());
    }
    v
}

/// The bytes of `nudhi_change_case`.
pub open spec fn kw_change_case() -> Seq<u8> {
    seq![110u8, 117u8, 100u8, 104u8, 105u8, 95u8, 99u8, 104u8, 97u8, 110u8, 103u8, 101u8, 95u8, 99u8, 97u8, 115u8, 101u8]
}

/// Executable counterpart of [`kw_change_case`]: the bytes of `nudhi_change_case`.
pub fn kw_change_case_bytes() -> (v: Vec<u8>)
    ensures
        v@ == kw_change_case(),
{
    let v: Vec<u8> = vec![110u8, 117u8, 100u8, 104u8, 105u8, 95u8, 99u8, 104u8, 97u8, 110u8, 103u8, 101u8, 95u8, 99u8, 97u8, 115u8, 101u8];
    proof {
        assert(v@ =~= kw_change_case());
    }
    v
}

/// The bytes of `nudhi_do`.
pub open spec fn kw_do() -> Seq<u8> {
    seq![110u8, 117u8, 100u8, 104u8, 105u8, 95u8, 100u8, 111u8]
}

/// Executable counterpart of [`kw_do`]: the bytes of `nudhi_do`.
pub fn kw_do_bytes() -> (v: Vec<u8>)
    ensures
        v@ == kw_do(),
{
    let v: Vec<u8> = vec![110u8, 117u8, 100u8, 104u8, 105u8, 95u8, 100u8, 111u8];
    proof {
        assert(v@ =~= kw_do());
    }
    v
}

/// The bytes of `nudhi_die`.
pub open spec fn kw_die() -> Seq<u8> {
    seq![110u8, 117u8, 100u8, 104u8, 105u8, 95u8, 100u8, 105u8, 101u8]
}

/// Executable counterpart of [`kw_die`]: the bytes of `nudhi_die`.
pub fn kw_die_bytes() -> (v: Vec<u8>)
    ensures
        v@ == kw_die(),
{
    let v: Vec<u8> = vec![110u8, 117u8, 100u8, 104u8, 105u8, 95u8, 100u8, 105u8, 101u8];
    proof {
        assert(v@ =~= kw_die());
    }
    v
}

/// The bytes of `nudhi_read`.
pub open spec fn kw_read() -> Seq<u8> {
    seq![110u8, 117u8, 100u8, 104u8, 105u8, 95u8, 114u8, 101u8, 97u8, 100u8]
}

/// Executable counterpart of [`kw_read`]: the bytes of `nudhi_read`.
pub fn kw_read_bytes() -> (v: Vec<u8>)
    ensures
        v@ == kw_read(),
{
    let v: Vec<u8> = vec![110u8, 117u8, 100u8, 104u8, 105u8, 95u8, 114u8, 101u8, 97u8, 100u8];
    proof {
        assert(v@ =~= kw_read());
    }
    v
}

/// The bytes of `nudhi_say`.
pub open spec fn kw_say() -> Seq<u8> {
    seq![110u8, 117u8, 100u8, 104u8, 105u8, 95u8, 115u8, 97u8, 121u8]
}

/// Executable counterpart of [`kw_say`]: the bytes of `nudhi_say`.
pub fn kw_say_bytes() -> (v: Vec<u8>)
    ensures
        v@ == kw_say(),
{
    let v: Vec<u8> = vec![110u8, 117u8, 100u8, 104u8, 105u8, 95u8, 115u8, 97u8, 121u8];
    proof {
        assert(v@ =~= kw_say());
    }
    v
}

/// The bytes of `nudhi_write`.
pub open spec fn kw_write() -> Seq<u8> {
    seq![110u8, 117u8, 100u8, 104u8, 105u8, 95u8, 119u8, 114u8, 105u8, 116u8, 101u8]
}

/// Executable counterpart of [`kw_write`]: the bytes of `nudhi_write`.
pub fn kw_write_bytes() -> (v: Vec<u8>)
    ensures
        v@ == kw_write(),
{
    let v: Vec<u8> = vec![110u8, 117u8, 100u8, 104u8, 105u8, 95u8, 119u8, 114u8, 105u8, 116u8, 101u8];
    proof {
        assert(v@ =~= kw_write());
    }
    v
}

/// The bytes of `pow`.
pub open spec fn kw_pow() -> Seq<u8> {
    seq![112u8, 111u8, 119u8]
}

/// Executable counterpart of [`kw_pow`]: the bytes of `pow`.
pub fn kw_pow_bytes() -> (v: Vec<u8>)
    ensures
        v@ == kw_pow(),
{
    let v: Vec<u8> = vec![112u8, 111u8, 119u8];
    proof {
        assert(v@ =~= kw_pow());
    }
    v
}

/// The bytes of `sqrt`.
pub open spec fn kw_sqrt() -> Seq<u8> {
    seq![115u8, 113u8, 114u8, 116u8]
}

/// Executable counterpart of [`kw_sqrt`]: the bytes of `sqrt`.
pub fn kw_sqrt_bytes() -> (v: Vec<u8>)
    ensures
        v@ == kw_sqrt(),
{
    let v: Vec<u8> = vec![115u8, 113u8, 114u8, 116u8];
    proof {
        assert(v@ =~= kw_sqrt());
    }
    v
}

/// The bytes of `log`.
pub open spec fn kw_log() -> Seq<u8> {
    seq![108u8, 111u8, 103u8]
}

/// Executable counterpart of [`kw_log`]: the bytes of `log`.
pub fn kw_log_bytes() -> (v: Vec<u8>)
    ensures
        v@ == kw_log(),
{
    let v: Vec<u8> = vec![108u8, 111u8, 103u8];
    proof {
        assert(v@ =~= kw_log());
    }
    v
}

/// The bytes of `ln`.
pub open spec fn kw_ln() -> Seq<u8> {
    seq![108u8, 110u8]
}

/// Executable counterpart of [`kw_ln`]: the bytes of `ln`.
pub fn kw_ln_bytes() -> (v: Vec<u8>)
    ensures
        v@ == kw_ln(),
{
    let v: Vec<u8> = vec![108u8, 110u8];
    proof {
        assert(v@ =~= kw_ln());
    }
    v
}

/// The bytes of `abs`.
pub open spec fn kw_abs() -> Seq<u8> {
    seq![97u8, 98u8, 115u8]
}

/// Executable counterpart of [`kw_abs`]: the bytes of `abs`.
pub fn kw_abs_bytes() -> (v: Vec<u8>)
    ensures
        v@ == kw_abs(),
{
    let v: Vec<u8> = vec![97u8, 98u8, 115u8];
    proof {
        assert(v@ =~= kw_abs());
    }
    v
}

/// The bytes of `upper`.
pub open spec fn kw_upper() -> Seq<u8> {
    seq![117u8, 112u8, 112u8, 101u8, 114u8]
}

/// Executable counterpart of [`kw_upper`]: the bytes of `upper`.
pub fn kw_upper_bytes() -> (v: Vec<u8>)
    ensures
        v@ == kw_upper(),
{
    let v: Vec<u8> = vec![117u8, 112u8, 112u8, 101u8, 114u8];
    proof {
        assert(v@ =~= kw_upper());
    }
    v
}

/// The bytes of `lower`.
pub open spec fn kw_lower() -> Seq<u8> {
    seq![108u8, 111u8, 119u8, 101u8, 114u8]
}

/// Executable counterpart of [`kw_lower`]: the bytes of `lower`.
pub fn kw_lower_bytes() -> (v: Vec<u8>)
    ensures
        v@ == kw_lower(),
{
    let v: Vec<u8> = vec![108u8, 111u8, 119u8, 101u8, 114u8];
    proof {
        assert(v@ =~= kw_lower());
    }
    v
}

} // verus!
