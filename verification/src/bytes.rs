//! Byte-level text primitives shared by every handler: whitespace
//! classification, trimming, whitespace tokenization, and quote location.

use vstd::prelude::*;

verus! {

/// The ASCII whitespace bytes recognized by the tokenizer: space and the
/// control characters tab through carriage return.
pub open spec fn is_ws(b: u8) -> bool {
    b == 32 || (9 <= b && b <= 13)
}

/// Executable counterpart of [`is_ws`].
pub fn is_ws_byte(b: u8) -> (r: bool)
    ensures
        r == is_ws(b),
{
    b == 32 || (9 <= b && b <= 13)
}

/// A sequence with its leading whitespace removed.
pub open spec fn trim_start_spec(s: Seq<u8>) -> Seq<u8>
    decreases s.len(),
{
    if s.len() > 0 && is_ws(s[0]) {
        trim_start_spec(s.drop_first())
    } else {
        s
    }
}

/// A sequence with its trailing whitespace removed.
pub open spec fn trim_end_spec(s: Seq<u8>) -> Seq<u8>
    decreases s.len(),
{
    if s.len() > 0 && is_ws(s.last()) {
        trim_end_spec(s.drop_last())
    } else {
        s
    }
}

/// A sequence with whitespace removed from both ends.
pub open spec fn trim_spec(s: Seq<u8>) -> Seq<u8> {
    trim_end_spec(trim_start_spec(s))
}

proof fn lemma_trim_start_range(s: Seq<u8>, i: int)
    requires
        0 <= i <= s.len(),
        forall|k: int| 0 <= k < i ==> is_ws(s[k]),
        i == s.len() || !is_ws(s[i]),
    ensures
        trim_start_spec(s) =~= s.subrange(i, s.len() as int),
    decreases i,
{
    if i == 0 {
        if s.len() > 0 && is_ws(s[0]) {
            assert(false);
        }
        assert(trim_start_spec(s) =~= s.subrange(0, s.len() as int));
    } else {
        assert(is_ws(s[0]));
        let t = s.drop_first();
        assert(forall|k: int| 0 <= k < i - 1 ==> is_ws(#[trigger] t[k]));
        lemma_trim_start_range(t, i - 1);
        assert(trim_start_spec(s) == trim_start_spec(t));
        assert(t.subrange(i - 1, t.len() as int) =~= s.subrange(i, s.len() as int));
    }
}

proof fn lemma_trim_end_range(s: Seq<u8>, j: int)
    requires
        0 <= j <= s.len(),
        forall|k: int| j <= k < s.len() ==> is_ws(s[k]),
        j == 0 || !is_ws(s[j - 1]),
    ensures
        trim_end_spec(s) =~= s.subrange(0, j),
    decreases s.len() - j,
{
    if j == s.len() {
        if s.len() > 0 && is_ws(s.last()) {
            assert(false);
        }
        assert(trim_end_spec(s) =~= s.subrange(0, j));
    } else {
        assert(is_ws(s.last()));
        let t = s.drop_last();
        assert(forall|k: int| j <= k < t.len() ==> is_ws(#[trigger] t[k]));
        lemma_trim_end_range(t, j);
        assert(trim_end_spec(s) == trim_end_spec(t));
        assert(t.subrange(0, j) =~= s.subrange(0, j));
    }
}

/// Copies `v[i..j]` into a fresh vector.
pub fn subvec(v: &[u8], i: usize, j: usize) -> (r: Vec<u8>)
    requires
        i <= j <= v@.len(),
    ensures
        r@ == v@.subrange(i as int, j as int),
{
    let mut r: Vec<u8> = Vec::new();
    let mut k: usize = i;
    while k < j
        invariant
            i <= k <= j <= v@.len(),
            r@ =~= v@.subrange(i as int, k as int),
        decreases j - k,
    {
        r.push(v[k]);
        k = k + 1;
        proof {
            assert(r@ =~= v@.subrange(i as int, k as int));
        }
    }
    proof {
        assert(r@ =~= v@.subrange(i as int, j as int));
    }
    r
}

/// Copies a byte slice into a fresh vector.
pub fn copy_bytes(v: &[u8]) -> (r: Vec<u8>)
    ensures
        r@ == v@,
{
    let r = subvec(v, 0, v.len());
    proof {
        assert(v@.subrange(0, v@.len() as int) =~= v@);
    }
    r
}

/// Removes leading and trailing whitespace.
pub fn trim(v: &[u8]) -> (r: Vec<u8>)
    ensures
        r@ == trim_spec(v@),
{
    let n = v.len();
    let mut i: usize = 0;
    while i < n && is_ws_byte(v[i])
        invariant
            0 <= i <= n,
            n == v@.len(),
            forall|k: int| 0 <= k < i ==> is_ws(v@[k]),
        decreases n - i,
    {
        i = i + 1;
    }
    proof {
        lemma_trim_start_range(v@, i as int);
    }
    let mut j: usize = n;
    while j > i && is_ws_byte(v[j - 1])
        invariant
            i <= j <= n,
            n == v@.len(),
            forall|k: int| j <= k < n ==> is_ws(v@[k]),
        decreases j,
    {
        j = j - 1;
    }
    let r = subvec(v, i, j);
    proof {
        let t = trim_start_spec(v@);
        assert(t =~= v@.subrange(i as int, n as int));
        if j == i {
            if t.len() > 0 && !is_ws(t[0]) {
                assert(!is_ws(v@[i as int]));
                assert(false);
            }
            lemma_trim_end_range(t, 0);
        } else {
            assert(!is_ws(v@[j - 1]));
            assert(forall|k: int| j - i <= k < t.len() ==> is_ws(#[trigger] t[k]));
            lemma_trim_end_range(t, j - i);
        }
        assert(trim_end_spec(t) =~= v@.subrange(i as int, j as int));
    }
    r
}

/// Whether `p` is a prefix of `s`.
pub fn starts_with(s: &[u8], p: &[u8]) -> (r: bool)
    ensures
        r == p@.is_prefix_of(s@),
{
    let np = p.len();
    if np > s.len() {
        proof {
            assert(!p@.is_prefix_of(s@));
        }
        return false;
    }
    let mut k: usize = 0;
    while k < np
        invariant
            0 <= k <= np,
            np == p@.len(),
            np <= s@.len(),
            forall|t: int| 0 <= t < k ==> s@[t] == p@[t],
        decreases np - k,
    {
        if s[k] != p[k] {
            proof {
                assert(!p@.is_prefix_of(s@));
            }
            return false;
        }
        k = k + 1;
    }
    proof {
        assert(p@ =~= s@.subrange(0, np as int));
    }
    true
}

/// Whether the two byte sequences are equal.
pub fn bytes_eq(a: &[u8], b: &[u8]) -> (r: bool)
    ensures
        r == (a@ == b@),
{
    if a.len() != b.len() {
        return false;
    }
    let n = a.len();
    let mut k: usize = 0;
    while k < n
        invariant
            0 <= k <= n,
            n == a@.len() == b@.len(),
            forall|t: int| 0 <= t < k ==> a@[t] == b@[t],
        decreases n - k,
    {
        if a[k] != b[k] {
            return false;
        }
        k = k + 1;
    }
    proof {
        assert(a@ =~= b@);
    }
    true
}

/// Whether some byte of `s` equals `b`.
pub open spec fn has_byte(s: Seq<u8>, b: u8) -> bool {
    exists|i: int| 0 <= i < s.len() && s[i] == b
}

/// Executable counterpart of [`has_byte`].
pub fn contains_byte(v: &[u8], b: u8) -> (r: bool)
    ensures
        r == has_byte(v@, b),
{
    let n = v.len();
    let mut k: usize = 0;
    while k < n
        invariant
            0 <= k <= n,
            n == v@.len(),
            forall|t: int| 0 <= t < k ==> v@[t] != b,
        decreases n - k,
    {
        if v[k] == b {
            return true;
        }
        k = k + 1;
    }
    false
}

/// Index of the first occurrence of `b` in `s`; meaningful only when
/// [`has_byte`] holds.
pub open spec fn first_byte_idx(s: Seq<u8>, b: u8) -> int
    decreases s.len(),
{
    if s.len() == 0 {
        0
    } else if s[0] == b {
        0
    } else {
        1 + first_byte_idx(s.drop_first(), b)
    }
}

/// Index of the last occurrence of `b` in `s`; meaningful only when
/// [`has_byte`] holds.
pub open spec fn last_byte_idx(s: Seq<u8>, b: u8) -> int
    decreases s.len(),
{
    if s.len() == 0 {
        -1
    } else if s.last() == b {
        s.len() - 1
    } else {
        last_byte_idx(s.drop_last(), b)
    }
}

pub proof fn lemma_first_byte_idx(s: Seq<u8>, b: u8, i: int)
    requires
        0 <= i < s.len(),
        s[i] == b,
        forall|k: int| 0 <= k < i ==> s[k] != b,
    ensures
        first_byte_idx(s, b) == i,
    decreases i,
{
    if i == 0 {
    } else {
        let t = s.drop_first();
        assert(forall|k: int| 0 <= k < i - 1 ==> #[trigger] t[k] != b);
        lemma_first_byte_idx(t, b, i - 1);
    }
}

pub proof fn lemma_last_byte_idx(s: Seq<u8>, b: u8, i: int)
    requires
        0 <= i < s.len(),
        s[i] == b,
        forall|k: int| i < k < s.len() ==> s[k] != b,
    ensures
        last_byte_idx(s, b) == i,
    decreases s.len() - i,
{
    if i == s.len() - 1 {
    } else {
        let t = s.drop_last();
        assert(s.last() != b);
        assert(forall|k: int| i < k < t.len() ==> #[trigger] t[k] != b);
        lemma_last_byte_idx(t, b, i);
    }
}

/// Where `b` occurs at all, its first index is a real index, carries `b`,
/// and nothing before it does.
pub proof fn lemma_first_byte_props(s: Seq<u8>, b: u8)
    requires
        has_byte(s, b),
    ensures
        0 <= first_byte_idx(s, b) < s.len(),
        s[first_byte_idx(s, b)] == b,
        forall|k: int| 0 <= k < first_byte_idx(s, b) ==> s[k] != b,
    decreases s.len(),
{
    if s[0] == b {
    } else {
        let i = choose|i: int| 0 <= i < s.len() && s[i] == b;
        let t = s.drop_first();
        assert(t[i - 1] == b);
        lemma_first_byte_props(t, b);
        assert forall|k: int| 0 <= k < first_byte_idx(s, b) implies s[k] != b by {
            if k >= 1 {
                assert(t[k - 1] != b);
            }
        }
    }
}

/// Where `b` occurs at all, its last index is a real index, carries `b`,
/// and nothing after it does.
pub proof fn lemma_last_byte_props(s: Seq<u8>, b: u8)
    requires
        has_byte(s, b),
    ensures
        0 <= last_byte_idx(s, b) < s.len(),
        s[last_byte_idx(s, b)] == b,
        forall|k: int| last_byte_idx(s, b) < k < s.len() ==> s[k] != b,
    decreases s.len(),
{
    if s.last() == b {
    } else {
        let i = choose|i: int| 0 <= i < s.len() && s[i] == b;
        let t = s.drop_last();
        assert(t[i] == b);
        lemma_last_byte_props(t, b);
        assert forall|k: int| last_byte_idx(s, b) < k < s.len() implies s[k] != b by {
            if k < s.len() - 1 {
                assert(t[k] != b);
            }
        }
    }
}

/// Index of the first occurrence of `b`, or `None` when `b` does not occur.
pub fn find_byte(v: &[u8], b: u8) -> (r: Option<usize>)
    ensures
        match r {
            Some(i) => has_byte(v@, b) && i == first_byte_idx(v@, b) && i < v@.len()
                && v@[i as int] == b,
            None => !has_byte(v@, b),
        },
{
    let n = v.len();
    let mut k: usize = 0;
    while k < n
        invariant
            0 <= k <= n,
            n == v@.len(),
            forall|t: int| 0 <= t < k ==> v@[t] != b,
        decreases n - k,
    {
        if v[k] == b {
            proof {
                lemma_first_byte_idx(v@, b, k as int);
            }
            return Some(k);
        }
        k = k + 1;
    }
    None
}

/// Index of the last occurrence of `b`, or `None` when `b` does not occur.
pub fn rfind_byte(v: &[u8], b: u8) -> (r: Option<usize>)
    ensures
        match r {
            Some(i) => has_byte(v@, b) && i == last_byte_idx(v@, b) && i < v@.len() && v@[i as int]
                == b,
            None => !has_byte(v@, b),
        },
{
    let n = v.len();
    let mut k: usize = n;
    while k > 0
        invariant
            0 <= k <= n,
            n == v@.len(),
            forall|t: int| k <= t < n ==> v@[t] != b,
        decreases k,
    {
        k = k - 1;
        if v[k] == b {
            proof {
                lemma_last_byte_idx(v@, b, k as int);
            }
            return Some(k);
        }
    }
    None
}

} // verus!
