//! Finding the first occurrence of a byte: shared by the sync `path,mode`
//! split and the `name:arg` split of OPEN payloads.

use vstd::prelude::*;

verus! {

/// `c` is the first occurrence of `b` in `s`.
pub open spec fn is_first_occ(s: Seq<u8>, b: u8, c: int) -> bool {
    &&& 0 <= c < s.len()
    &&& s[c] == b
    &&& forall|j: int| 0 <= j < c ==> s[j] != b
}

/// `s` holds `b` somewhere.
pub open spec fn has_byte(s: Seq<u8>, b: u8) -> bool {
    exists|c: int| is_first_occ(s, b, c)
}

/// The index of the first occurrence of `b` in `s`.
pub open spec fn first_occ(s: Seq<u8>, b: u8) -> int {
    choose|c: int| is_first_occ(s, b, c)
}

/// Finds the first occurrence of `b`, if any.
pub fn find_byte(s: &[u8], b: u8) -> (r: Option<usize>)
    ensures
        r is Some <==> has_byte(s@, b),
        r is Some ==> is_first_occ(s@, b, r->Some_0 as int) && r->Some_0 == first_occ(s@, b),
{
    let mut i: usize = 0;
    while i < s.len()
        invariant
            0 <= i <= s@.len(),
            forall|j: int| 0 <= j < i ==> #[trigger] s@[j] != b,
        decreases s@.len() - i,
    {
        if *vstd::slice::slice_index_get(s, i) == b {
            proof {
                assert(is_first_occ(s@, b, i as int));
                let c = first_occ(s@, b);
                assert(is_first_occ(s@, b, c));
                if c < i as int {
                    assert(s@[c] != b);
                }
                if c > i as int {
                    assert(s@[i as int] != b);
                }
            }
            return Some(i);
        }
        i = i + 1;
    }
    proof {
        assert forall|c: int| !is_first_occ(s@, b, c) by {
            if 0 <= c < s@.len() {
                assert(s@[c] != b);
            }
        }
    }
    None
}

} // verus!
