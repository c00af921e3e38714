use vstd::prelude::*;

verus! {

/// The needle occurs in the haystack starting at position `i`.
pub open spec fn match_at(hay: Seq<char>, needle: Seq<char>, i: int) -> bool {
    &&& 0 <= i
    &&& i + needle.len() <= hay.len()
    &&& hay.subrange(i, i + needle.len() as int) == needle
}

/// The needle occurs somewhere in the haystack.
pub open spec fn contains_text(hay: Seq<char>, needle: Seq<char>) -> bool {
    exists|i: int| match_at(hay, needle, i)
}

/// Whether `needle` occurs as a contiguous run of characters inside `hay`.
pub fn str_contains(hay: &str, needle: &str) -> (r: bool)
    ensures
        r == contains_text(hay@, needle@),
{
    let hay_len = hay.unicode_len();
    let needle_len = needle.unicode_len();
    if needle_len > hay_len {
        assert forall|p: int| !(#[trigger] match_at(hay@, needle@, p)) by {}
        return false;
    }
    let mut i: usize = 0;
    while i <= hay_len - needle_len
        invariant
            hay_len == hay@.len(),
            needle_len == needle@.len(),
            needle_len <= hay_len,
            0 <= i <= hay_len - needle_len + 1,
            forall|p: int| 0 <= p < i ==> !(#[trigger] match_at(hay@, needle@, p)),
        decreases hay_len - needle_len + 1 - i,
    {
        let mut j: usize = 0;
        while j < needle_len && hay.get_char(i + j) == needle.get_char(j)
            invariant
                hay_len == hay@.len(),
                needle_len == needle@.len(),
                i + needle_len <= hay_len,
                0 <= j <= needle_len,
                forall|k: int| 0 <= k < j ==> hay@[i + k] == needle@[k],
            decreases needle_len - j,
        {
            j += 1;
        }
        if j == needle_len {
            proof {
                assert(hay@.subrange(i as int, i + needle@.len()) =~= needle@);
                assert(match_at(hay@, needle@, i as int));
            }
            return true;
        }
        proof {
            assert(hay@.subrange(i as int, i + needle@.len())[j as int] == hay@[i + j]);
            assert(!match_at(hay@, needle@, i as int));
        }
        i += 1;
    }
    assert forall|p: int| !(#[trigger] match_at(hay@, needle@, p)) by {
        if 0 <= p && p + needle@.len() <= hay@.len() {
            assert(p < i);
        }
    }
    false
}

} // verus!
