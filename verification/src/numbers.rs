//! Decimal literals: parsing a token as a 32-bit signed integer, with the
//! grammar of Rust's integer parser (an optional sign followed by one or
//! more digits, rejected when out of range), and rendering an integer back
//! as its canonical decimal text.

use vstd::prelude::*;

verus! {

/// Whether `b` is an ASCII decimal digit.
pub open spec fn is_digit(b: u8) -> bool {
    48 <= b && b <= 57
}

/// Whether every byte of `s` is a decimal digit.
pub open spec fn all_digits(s: Seq<u8>) -> bool {
    forall|k: int| 0 <= k < s.len() ==> is_digit(s[k])
}

/// The value of a digit string read as a decimal number.
pub open spec fn dec_val(s: Seq<u8>) -> int
    decreases s.len(),
{
    if s.len() == 0 {
        0
    } else {
        dec_val(s.drop_last()) * 10 + (s.last() - 48)
    }
}

/// The digits of a literal after its optional sign.
pub open spec fn literal_body(s: Seq<u8>) -> Seq<u8> {
    if s.len() > 0 && (s[0] == 43 || s[0] == 45) {
        s.drop_first()
    } else {
        s
    }
}

/// Whether a literal is negative, that is, begins with `-`.
pub open spec fn literal_negative(s: Seq<u8>) -> bool {
    s.len() > 0 && s[0] == 45
}

/// The signed value named by a well-formed literal.
pub open spec fn literal_value(s: Seq<u8>) -> int {
    if literal_negative(s) {
        -dec_val(literal_body(s))
    } else {
        dec_val(literal_body(s))
    }
}

/// Whether `s` is a well-formed decimal literal whose value fits in a
/// 32-bit signed integer.
pub open spec fn is_i32_literal(s: Seq<u8>) -> bool {
    &&& literal_body(s).len() > 0
    &&& all_digits(literal_body(s))
    &&& i32::MIN <= literal_value(s) <= i32::MAX
}

/// What parsing `s` as a 32-bit integer returns.
pub open spec fn parse_i32_spec(s: Seq<u8>) -> Option<i32> {
    if is_i32_literal(s) {
        Some(literal_value(s) as i32)
    } else {
        None
    }
}

/// A digit string's value does not shrink when digits are appended.
proof fn lemma_dec_val_bounds(s: Seq<u8>, m: int)
    requires
        all_digits(s),
        0 <= m <= s.len(),
    ensures
        0 <= dec_val(s.take(m)) <= dec_val(s),
    decreases s.len(),
{
    if s.len() == 0 {
        assert(s.take(m) =~= s);
    } else if m == s.len() {
        assert(s.take(m) =~= s);
        let d = s.drop_last();
        assert(all_digits(d));
        lemma_dec_val_bounds(d, d.len() as int);
        assert(dec_val(d) * 10 >= dec_val(d)) by (nonlinear_arith)
            requires dec_val(d) >= 0;
    } else {
        let d = s.drop_last();
        assert(all_digits(d));
        assert(s.take(m) =~= d.take(m));
        lemma_dec_val_bounds(d, m);
        assert(dec_val(d) * 10 >= dec_val(d)) by (nonlinear_arith)
            requires dec_val(d) >= 0;
    }
}

/// Reading one more digit multiplies the prefix value by ten and adds it.
proof fn lemma_dec_val_step(s: Seq<u8>, m: int)
    requires
        0 <= m < s.len(),
    ensures
        dec_val(s.take(m + 1)) == dec_val(s.take(m)) * 10 + (s[m] - 48),
{
    assert(s.take(m + 1).drop_last() =~= s.take(m));
    assert(s.take(m + 1).last() == s[m]);
}

/// Parses a token as a 32-bit signed integer.
pub fn parse_i32(v: &[u8]) -> (r: Option<i32>)
    ensures
        r == parse_i32_spec(v@),
{
    let n = v.len();
    let start: usize = if n > 0 && (v[0] == 43 || v[0] == 45) {
        1
    } else {
        0
    };
    let negative = n > 0 && v[0] == 45;
    proof {
        assert(literal_body(v@) =~= v@.skip(start as int));
        assert(negative == literal_negative(v@));
    }
    if n == start {
        proof {
            assert(literal_body(v@).len() == 0);
        }
        return None;
    }
    let ghost body = literal_body(v@);
    let mut acc: u64 = 0;
    let mut k: usize = start;
    while k < n
        invariant
            start <= k <= n,
            n == v@.len(),
            body == v@.skip(start as int),
            body == literal_body(v@),
            forall|t: int| 0 <= t < k - start ==> is_digit(body[t]),
            acc <= 0x8000_0000,
            acc as int == dec_val(body.take(k - start)),
        decreases n - k,
    {
        let b = v[k];
        proof {
            assert(body[k - start] == v@[k as int]);
        }
        if b < 48 || b > 57 {
            proof {
                assert(!is_digit(body[k - start]));
                assert(!all_digits(body));
                assert(!is_i32_literal(v@));
            }
            return None;
        }
        let d: u64 = (b - 48) as u64;
        proof {
            lemma_dec_val_step(body, k - start);
        }
        acc = acc * 10 + d;
        k = k + 1;
        if acc > 0x8000_0000 {
            // The digits already read name a value beyond the 32-bit range,
            // and further digits can only grow it.
            proof {
                if all_digits(body) {
                    lemma_dec_val_bounds(body, k - start);
                    assert(dec_val(body) >= acc as int);
                    assert(!is_i32_literal(v@));
                } else {
                    assert(!is_i32_literal(v@));
                }
            }
            return None;
        }
    }
    proof {
        assert(body.take(n - start) =~= body);
        assert(all_digits(body));
        assert(acc as int == dec_val(body));
    }
    if negative {
        if acc == 0x8000_0000 {
            Some(i32::MIN)
        } else {
            Some(-(acc as i32))
        }
    } else {
        if acc > 0x7fff_ffff {
            None
        } else {
            Some(acc as i32)
        }
    }
}

/// The canonical decimal digits of a non-negative number.
pub open spec fn dec_digits(n: nat) -> Seq<u8>
    decreases n,
{
    if n < 10 {
        seq![(48 + n) as u8]
    } else {
        dec_digits(n / 10).push((48 + n % 10) as u8)
    }
}

/// The canonical decimal text of an integer: a minus sign for a negative
/// number, then its digits without leading zeros.
pub open spec fn render_i32_spec(n: int) -> Seq<u8> {
    if n >= 0 {
        dec_digits(n as nat)
    } else {
        seq![45u8] + dec_digits((-n) as nat)
    }
}

/// Renders a non-negative number as decimal digits.
fn render_u32(n: u32) -> (r: Vec<u8>)
    ensures
        r@ == dec_digits(n as nat),
    decreases n,
{
    if n < 10 {
        let b: u8 = (48 + n) as u8;
        let r: Vec<u8> = vec![b];
        proof {
            assert(r@ =~= dec_digits(n as nat));
        }
        r
    } else {
        let mut r = render_u32(n / 10);
        r.push((48 + n % 10) as u8);
        r
    }
}

/// Renders an integer as its canonical decimal text.
pub fn render_i32(n: i32) -> (r: Vec<u8>)
    ensures
        r@ == render_i32_spec(n as int),
{
    if n >= 0 {
        render_u32(n as u32)
    } else {
        let m: i64 = -(n as i64);
        let mut r: Vec<u8> = vec![45u8];
        let ghost head = r@;
        let mut d = render_u32(m as u32);
        proof {
            assert(head =~= seq![45u8]);
        }
        r.append(&mut d);
        r
    }
}

} // verus!
