//! Size rules at the boundary to the particle solver.
use vstd::prelude::*;

use crate::config::PARTICLE_MAX;

verus! {

/// How many particles a snapshot may copy into a buffer of `len` entries:
/// the buffer's length, at most `PARTICLE_MAX`.
pub fn snapshot_limit(len: usize) -> (n: i32)
    ensures
        n as int == if len < PARTICLE_MAX {
            len as int
        } else {
            PARTICLE_MAX as int
        },
{
    if len < PARTICLE_MAX {
        len as i32
    } else {
        PARTICLE_MAX as i32
    }
}

} // verus!
