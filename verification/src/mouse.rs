//! Demo pointer-report logic: the cursor offset bounces between `y` and
//! `-y` once per report.

use vstd::prelude::*;

verus! {

/// The next vertical offset of the bouncing demo cursor.
pub fn mouse_writer_step(y: i8) -> (next: i8)
    requires
        y != i8::MIN,
    ensures
        next as int == -(y as int),
{
    -y
}

} // verus!
