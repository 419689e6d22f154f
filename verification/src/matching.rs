//! Case-sensitive, codepoint-exact substring matching, shared by every query
//! that searches inside a record's fields, so that the two request surfaces
//! cannot diverge in their matching semantics.

use vstd::prelude::*;

verus! {

/// `pat` occurs contiguously somewhere inside `text` (the empty pattern
/// occurs in every text).
pub open spec fn is_substring(pat: Seq<char>, text: Seq<char>) -> bool {
    exists|k: int|
        0 <= k <= text.len() - pat.len() && #[trigger] text.subrange(k, k + pat.len() as int)
            == pat
}

/// The empty pattern is a substring of every text.
pub proof fn lemma_empty_is_substring(text: Seq<char>)
    ensures
        is_substring(Seq::<char>::empty(), text),
{
    let pat = Seq::<char>::empty();
    assert(text.subrange(0, 0 + pat.len() as int) =~= pat);
}

/// Whether `pat` matches the characters of `text` starting at position `k`.
fn matches_at(text: &str, pat: &str, k: usize, plen: usize) -> (r: bool)
    requires
        plen == pat@.len(),
        k + plen <= text@.len(),
        text@.len() <= usize::MAX,
    ensures
        r == (text@.subrange(k as int, k as int + plen as int) == pat@),
{
    let ghost window = text@.subrange(k as int, k as int + plen as int);
    let mut i: usize = 0;
    while i < plen
        invariant
            i <= plen,
            plen == pat@.len(),
            k + plen <= text@.len(),
            text@.len() <= usize::MAX,
            window == text@.subrange(k as int, k as int + plen as int),
            forall|j: int| 0 <= j < i ==> window[j] == pat@[j],
        decreases plen - i,
    {
        if text.get_char(k + i) != pat.get_char(i) {
            proof {
                assert(window[i as int] != pat@[i as int]);
            }
            return false;
        }
        i += 1;
    }
    proof {
        assert(window =~= pat@);
    }
    true
}

/// Whether `pat` occurs in `text` as a substring, scanning every starting
/// position from the left.
pub fn str_contains(text: &str, pat: &str) -> (r: bool)
    ensures
        r == is_substring(pat@, text@),
{
    let tlen = text.unicode_len();
    let plen = pat.unicode_len();
    if plen == 0 {
        proof {
            lemma_empty_is_substring(text@);
            assert(pat@ =~= Seq::<char>::empty());
        }
        return true;
    }
    if plen > tlen {
        return false;
    }
    let mut k: usize = 0;
    while k <= tlen - plen
        invariant
            tlen == text@.len(),
            plen == pat@.len(),
            0 < plen <= tlen,
            k <= tlen - plen + 1,
            forall|j: int|
                0 <= j < k ==> #[trigger] text@.subrange(j, j + plen as int) != pat@,
        decreases tlen - plen - k + 1,
    {
        if matches_at(text, pat, k, plen) {
            return true;
        }
        k += 1;
    }
    false
}

} // verus!
