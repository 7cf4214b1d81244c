use vstd::prelude::*;
use crate::error::NulError;

verus! {

/// Whether `b` holds no zero byte before index `end`.
pub open spec fn nul_free_before(b: Seq<u8>, end: int) -> bool {
    forall|i: int| 0 <= i < end ==> b[i] != 0
}

/// What checking `b` as a C string gives: the length of the text before
/// the terminator, or why `b` is no C string. The first zero byte decides:
/// it must be the last byte.
pub open spec fn c_string_check(b: Seq<u8>) -> Result<usize, NulError> {
    if nul_free_before(b, b.len() as int) {
        Err(NulError::NotNulTerminated)
    } else {
        let p = choose|p: int| 0 <= p < b.len() && b[p] == 0 && nul_free_before(b, p);
        if p == b.len() - 1 {
            Ok(p as usize)
        } else {
            Err(NulError::InteriorNul { position: p as usize })
        }
    }
}

/// Checks that `buf` is a nul-terminated C string with no zero byte inside,
/// and gives the length of its text.
pub fn c_string_len(buf: &[u8]) -> (r: Result<usize, NulError>)
    ensures
        r == c_string_check(buf@),
{
    let mut i: usize = 0;
    while i < buf.len()
        invariant
            i <= buf@.len(),
            nul_free_before(buf@, i as int),
        decreases buf@.len() - i,
    {
        if buf[i] == 0 {
            let ghost p = choose|p: int| 0 <= p < buf@.len() && buf@[p] == 0 && nul_free_before(buf@, p);
            assert(0 <= i < buf@.len() && buf@[i as int] == 0 && nul_free_before(buf@, i as int));
            assert(p == i) by {
                if p < i {
                    assert(buf@[p] != 0);
                } else if p > i {
                    assert(buf@[i as int] != 0);
                }
            }
            if i + 1 == buf.len() {
                return Ok(i);
            } else {
                return Err(NulError::InteriorNul { position: i });
            }
        }
        i = i + 1;
    }
    Err(NulError::NotNulTerminated)
}

} // verus!
