//! Case folding and substring search over text: the folds are carried out
//! by the standard library and named here; the byte-level search is
//! verified against an exact containment predicate.

use vstd::prelude::*;
use vstd::string::StringSliceAdditionalSpecFns;

verus! {

/// What `str::to_lowercase` returns for a string: a function of the
/// characters alone.
pub uninterp spec fn lower_of(s: Seq<char>) -> Seq<char>;

/// What `str::to_uppercase` returns for a string: a function of the
/// characters alone.
pub uninterp spec fn upper_of(s: Seq<char>) -> Seq<char>;

/// Relies on str::to_lowercase: the lowercased text depends on the
/// argument's characters alone.
#[verifier::external_body]
pub(crate) fn lowercase(s: &str) -> (r: String)
    ensures
        r@ == lower_of(s@),
{
    s.to_lowercase()
}

/// Relies on str::to_uppercase: the uppercased text depends on the
/// argument's characters alone.
#[verifier::external_body]
pub(crate) fn uppercase(s: &str) -> (r: String)
    ensures
        r@ == upper_of(s@),
{
    s.to_uppercase()
}

/// Whether two pieces of text hold the same characters.
pub fn str_eq(a: &str, b: &str) -> (r: bool)
    ensures
        r == (a@ == b@),
{
    let owned_a: String = a.to_owned();
    let owned_b: String = b.to_owned();
    owned_a.eq(&owned_b)
}

/// The bytes of `pat` occur in `s` starting at `i`.
pub open spec fn sub_at(s: Seq<u8>, pat: Seq<u8>, i: int) -> bool {
    forall|k: int| 0 <= k < pat.len() ==> s[i + k] == pat[k]
}

/// The bytes of `pat` occur somewhere in `s`.
pub open spec fn contains_sub(s: Seq<u8>, pat: Seq<u8>) -> bool {
    exists|i: int| 0 <= i <= s.len() - pat.len() && #[trigger] sub_at(s, pat, i)
}

/// Whether the byte string `pat` occurs in `s`.
fn bytes_contain(s: &[u8], pat: &[u8]) -> (r: bool)
    ensures
        r == contains_sub(s@, pat@),
{
    let n = s.len();
    let m = pat.len();
    if m > n {
        proof {
            assert(!contains_sub(s@, pat@));
        }
        return false;
    }
    let mut i: usize = 0;
    while i <= n - m
        invariant
            n == s@.len(),
            m == pat@.len(),
            m <= n,
            0 <= i <= n - m + 1,
            forall|q: int| 0 <= q < i ==> !sub_at(s@, pat@, q),
        decreases n - m + 1 - i,
    {
        let mut k: usize = 0;
        let mut matched = true;
        while k < m
            invariant_except_break
                matched,
            invariant
                n == s@.len(),
                m == pat@.len(),
                m <= n,
                0 <= i <= n - m,
                0 <= k <= m,
                matched ==> forall|q: int| 0 <= q < k ==> s@[i + q] == pat@[q],
            ensures
                0 <= k <= m,
                matched ==> forall|q: int| 0 <= q < k ==> s@[i + q] == pat@[q],
                matched ==> k == m,
                !matched ==> !sub_at(s@, pat@, i as int),
            decreases m - k,
        {
            if s[i + k] != pat[k] {
                matched = false;
                proof {
                    assert(!sub_at(s@, pat@, i as int));
                }
                break ;
            }
            k += 1;
        }
        if matched {
            proof {
                assert(sub_at(s@, pat@, i as int));
            }
            return true;
        }
        i += 1;
    }
    proof {
        assert forall|q: int| 0 <= q <= s@.len() - pat@.len() implies !sub_at(s@, pat@, q) by {
            assert(q < i);
        }
    }
    false
}

/// Whether the byte encoding of `pat` occurs in the byte encoding of `s`.
pub fn str_contains(s: &str, pat: &str) -> (r: bool)
    ensures
        r == contains_sub(s.spec_bytes(), pat.spec_bytes()),
{
    bytes_contain(s.as_bytes(), pat.as_bytes())
}

} // verus!
