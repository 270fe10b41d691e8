//! Whitespace tokenization: every handler splits its line into
//! whitespace-separated tokens with [`tokenize`].

use vstd::prelude::*;
use crate::bytes::{is_ws, is_ws_byte, subvec};

verus! {

/// The maximal run of non-whitespace bytes at the front of `s`.
pub open spec fn head_token(s: Seq<u8>) -> Seq<u8>
    decreases s.len(),
{
    if s.len() > 0 && !is_ws(s[0]) {
        seq![s[0]] + head_token(s.drop_first())
    } else {
        Seq::empty()
    }
}

/// The head token is never longer than the text it is taken from.
pub proof fn lemma_head_token_len(s: Seq<u8>)
    ensures
        head_token(s).len() <= s.len(),
    decreases s.len(),
{
    if s.len() > 0 && !is_ws(s[0]) {
        lemma_head_token_len(s.drop_first());
    }
}

/// The whitespace-separated tokens of `s`, in order.
pub open spec fn tokens_of(s: Seq<u8>) -> Seq<Seq<u8>>
    decreases s.len(),
    via tokens_of_decreases
{
    if s.len() == 0 {
        Seq::empty()
    } else if is_ws(s[0]) {
        tokens_of(s.drop_first())
    } else {
        seq![head_token(s)] + tokens_of(s.skip(head_token(s).len() as int))
    }
}

#[via_fn]
proof fn tokens_of_decreases(s: Seq<u8>) {
    if s.len() > 0 && !is_ws(s[0]) {
        lemma_head_token_len(s);
        assert(head_token(s).len() >= 1);
    }
}

/// The head token of a suffix that starts at a token boundary is exactly the
/// run of non-whitespace bytes `s[i..j]`.
pub proof fn lemma_token_segment(s: Seq<u8>, i: int, j: int)
    requires
        0 <= i <= j <= s.len(),
        forall|k: int| i <= k < j ==> !is_ws(s[k]),
        j == s.len() || is_ws(s[j]),
    ensures
        head_token(s.skip(i)) =~= s.subrange(i, j),
    decreases j - i,
{
    let t = s.skip(i);
    if i == j {
        if i < s.len() {
            assert(is_ws(t[0]));
        }
    } else {
        assert(!is_ws(t[0]));
        assert(t.drop_first() =~= s.skip(i + 1));
        lemma_token_segment(s, i + 1, j);
        assert(seq![s[i]] + s.subrange(i + 1, j) =~= s.subrange(i, j));
    }
}

/// Skipping one leading whitespace byte does not change the token list.
pub proof fn lemma_tokens_ws(s: Seq<u8>, i: int)
    requires
        0 <= i < s.len(),
        is_ws(s[i]),
    ensures
        tokens_of(s.skip(i)) == tokens_of(s.skip(i + 1)),
{
    let t = s.skip(i);
    assert(is_ws(t[0]));
    assert(t.drop_first() =~= s.skip(i + 1));
}

/// At a token boundary the token list is the token `s[i..j]` followed by the
/// tokens of the rest.
pub proof fn lemma_tokens_step(s: Seq<u8>, i: int, j: int)
    requires
        0 <= i < j <= s.len(),
        forall|k: int| i <= k < j ==> !is_ws(s[k]),
        j == s.len() || is_ws(s[j]),
    ensures
        tokens_of(s.skip(i)) == seq![s.subrange(i, j)] + tokens_of(s.skip(j)),
{
    let t = s.skip(i);
    assert(!is_ws(t[0]));
    lemma_token_segment(s, i, j);
    assert(head_token(t).len() == j - i);
    assert(t.skip(j - i) =~= s.skip(j));
    assert(tokens_of(t) == seq![head_token(t)] + tokens_of(t.skip(j - i)));
}

/// A vector of byte vectors, seen deeply, is its element views in order.
pub proof fn lemma_deep_view_elems(v: Vec<Vec<u8>>)
    ensures
        v.deep_view().len() == v@.len(),
        forall|i: int| 0 <= i < v@.len() ==> #[trigger] v.deep_view()[i] == v@[i]@,
{
    assert forall|i: int| 0 <= i < v@.len() implies #[trigger] v.deep_view()[i] == v@[i]@ by {
        assert(v.deep_view()[i] == v@[i].deep_view());
        assert(v@[i].deep_view() =~= v@[i]@);
    }
}

/// Splits `v` into its whitespace-separated tokens.
pub fn tokenize(v: &[u8]) -> (r: Vec<Vec<u8>>)
    ensures
        r.deep_view() == tokens_of(v@),
{
    let n = v.len();
    let mut r: Vec<Vec<u8>> = Vec::new();
    let mut i: usize = 0;
    proof {
        assert(v@.skip(0) =~= v@);
        assert(r.deep_view() + tokens_of(v@.skip(0)) =~= tokens_of(v@));
    }
    while i < n
        invariant
            0 <= i <= n,
            n == v@.len(),
            r.deep_view() + tokens_of(v@.skip(i as int)) == tokens_of(v@),
        decreases n - i,
    {
        if is_ws_byte(v[i]) {
            proof {
                lemma_tokens_ws(v@, i as int);
            }
            i = i + 1;
        } else {
            let mut j: usize = i + 1;
            while j < n && !is_ws_byte(v[j])
                invariant
                    i < j <= n,
                    n == v@.len(),
                    forall|k: int| i <= k < j ==> !is_ws(v@[k]),
                decreases n - j,
            {
                j = j + 1;
            }
            let tok = subvec(v, i, j);
            let ghost prev = r.deep_view();
            proof {
                lemma_tokens_step(v@, i as int, j as int);
            }
            r.push(tok);
            proof {
                assert(r.deep_view() =~~= prev.push(tok@));
                assert(prev.push(tok@) + tokens_of(v@.skip(j as int)) =~= prev + (seq![tok@]
                    + tokens_of(v@.skip(j as int))));
            }
            i = j;
        }
    }
    proof {
        assert(tokens_of(v@.skip(n as int)) =~= Seq::<Seq<u8>>::empty());
        assert(r.deep_view() + Seq::<Seq<u8>>::empty() =~= r.deep_view());
    }
    r
}

} // verus!
