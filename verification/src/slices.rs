//! Small byte-slice utilities shared by the parsers and the routing helpers.

use vstd::prelude::*;

verus! {

/// Byte-for-byte equality of two slices.
pub fn slices_equal(a: &[u8], b: &[u8]) -> (r: bool)
    ensures
        r == (a@ == b@),
{
    if a.len() != b.len() {
        assert(a@ != b@);
        return false;
    }
    let mut i: usize = 0;
    while i < a.len()
        invariant
            i <= a@.len() == b@.len(),
            forall|j: int| 0 <= j < i ==> a@[j] == b@[j],
        decreases a@.len() - i,
    {
        if a[i] != b[i] {
            return false;
        }
        i = i + 1;
    }
    assert(a@ =~= b@);
    true
}

/// Whether `haystack` contains `needle` as a contiguous subsequence.
/// An empty needle is contained in everything.
pub open spec fn spec_contains_slice(haystack: Seq<u8>, needle: Seq<u8>) -> bool {
    exists|k: int|
        0 <= k && k + needle.len() <= haystack.len() && #[trigger] haystack.subrange(
            k,
            k + needle.len(),
        ) == needle
}

pub fn slice_contains(haystack: &[u8], needle: &[u8]) -> (r: bool)
    ensures
        r == spec_contains_slice(haystack@, needle@),
{
    if needle.len() > haystack.len() {
        assert(!spec_contains_slice(haystack@, needle@));
        return false;
    }
    let mut k: usize = 0;
    let last = haystack.len() - needle.len();
    while k <= last
        invariant
            haystack@.len() <= usize::MAX,
            needle@.len() <= haystack@.len(),
            last == haystack@.len() - needle@.len(),
            0 <= k <= last + 1,
            forall|t: int|
                0 <= t < k ==> #[trigger] haystack@.subrange(t, t + needle@.len()) != needle@,
        decreases last + 1 - k,
    {
        let mut j: usize = 0;
        let mut matches = true;
        while j < needle.len()
            invariant
                haystack@.len() <= usize::MAX,
                k + needle@.len() <= haystack@.len(),
                j <= needle@.len(),
                matches == (haystack@.subrange(k as int, k + j as int) =~= needle@.subrange(
                    0,
                    j as int,
                )),
            decreases needle@.len() - j,
        {
            let ghost pre = haystack@.subrange(k as int, k + j as int);
            if haystack[k + j] != needle[j] {
                matches = false;
                proof {
                    assert(haystack@.subrange(k as int, k + j + 1)[j as int] != needle@.subrange(
                        0,
                        j + 1,
                    )[j as int]);
                }
            } else {
                proof {
                    if matches {
                        assert(haystack@.subrange(k as int, k + j + 1) =~= pre.push(
                            haystack@[k + j],
                        ));
                        assert(needle@.subrange(0, j + 1) =~= needle@.subrange(0, j as int).push(
                            needle@[j as int],
                        ));
                    } else {
                        let ghost w = choose|t: int|
                            0 <= t < j && pre[t] != needle@.subrange(0, j as int)[t];
                        assert(haystack@.subrange(k as int, k + j + 1)[w] != needle@.subrange(
                            0,
                            j + 1,
                        )[w]);
                    }
                }
            }
            j = j + 1;
        }
        if matches {
            assert(haystack@.subrange(k as int, k + needle@.len()) =~= needle@.subrange(
                0,
                needle@.len() as int,
            ));
            assert(needle@.subrange(0, needle@.len() as int) =~= needle@);
            return true;
        }
        k = k + 1;
    }
    proof {
        if spec_contains_slice(haystack@, needle@) {
            let w = choose|t: int|
                0 <= t && t + needle@.len() <= haystack@.len() && #[trigger] haystack@.subrange(
                    t,
                    t + needle@.len(),
                ) == needle@;
            assert(w < k);
        }
    }
    false
}

} // verus!
