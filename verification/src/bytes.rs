//! Positional matching of byte patterns inside a byte sequence.

use vstd::prelude::*;

verus! {

/// `pat` occurs in `s` starting at position `i`.
pub open spec fn matches_at(s: Seq<u8>, i: int, pat: Seq<u8>) -> bool {
    0 <= i && i + pat.len() <= s.len() && s.subrange(i, i + pat.len()) == pat
}

/// Matching a concatenation is matching both parts in turn.
pub proof fn lemma_matches_at_concat(s: Seq<u8>, i: int, a: Seq<u8>, b: Seq<u8>)
    ensures
        matches_at(s, i, a + b) <==> matches_at(s, i, a) && matches_at(s, i + a.len(), b),
{
    if matches_at(s, i, a + b) {
        let whole = s.subrange(i, i + a.len() + b.len());
        assert forall|k: int| 0 <= k < a.len() + b.len() implies s[i + k] == (a + b)[k] by {
            assert(whole[k] == s[i + k]);
        }
        assert(s.subrange(i, i + a.len()) =~= a);
        assert forall|k: int|
            0 <= k < b.len() implies s.subrange(i + a.len(), i + a.len() + b.len())[k] == b[k] by {
            assert(s[i + (a.len() + k)] == (a + b)[a.len() + k]);
        }
        assert(s.subrange(i + a.len(), i + a.len() + b.len()) =~= b);
    }
    if matches_at(s, i, a) && matches_at(s, i + a.len(), b) {
        assert forall|k: int| 0 <= k < a.len() implies s[i + k] == a[k] by {
            assert(s.subrange(i, i + a.len())[k] == s[i + k]);
        }
        assert forall|k: int| 0 <= k < b.len() implies s[i + a.len() + k] == b[k] by {
            assert(s.subrange(i + a.len(), i + a.len() + b.len())[k] == s[i + a.len() + k]);
        }
        assert(s.subrange(i, i + (a + b).len()) =~= a + b);
    }
}

/// Whether `pat` occurs in `s` at position `i`.
pub fn expect(s: &Vec<u8>, i: usize, pat: &Vec<u8>) -> (r: bool)
    requires
        i <= s@.len(),
    ensures
        r <==> matches_at(s@, i as int, pat@),
{
    if pat.len() > s.len() - i {
        return false;
    }
    let end = i + pat.len();
    let mut k: usize = 0;
    while k < pat.len()
        invariant
            0 <= k <= pat@.len(),
            end == i + pat@.len(),
            i + pat@.len() <= s@.len(),
            forall|j: int| 0 <= j < k ==> s@[i + j] == pat@[j],
        decreases pat@.len() - k,
    {
        if s[i + k] != pat[k] {
            proof {
                if matches_at(s@, i as int, pat@) {
                    assert(s@.subrange(i as int, i + pat@.len())[k as int] == s@[i + k]);
                }
            }
            return false;
        }
        k += 1;
    }
    proof {
        assert(s@.subrange(i as int, i + pat@.len()) =~= pat@);
    }
    true
}

} // verus!
