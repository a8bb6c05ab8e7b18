//! Arithmetic for a renderer that draws a value as a shape of matching size.
//!
//! Drawing itself is not done here: a renderer reads a snapshot of the store and
//! uses these functions to size what it draws.

use vstd::prelude::*;

verus! {

/// The lower end of `to`, plus `x` scaled by the width of `to` over the width of
/// `from`, rounded down.
pub open spec fn scaled(from: (u32, u32), to: (u32, u32), x: u8) -> int {
    to.0 + (x as int * (to.1 - to.0)) / (from.1 - from.0)
}

/// The number of arcs that stand for a level: none for zero, and otherwise one more
/// than the level's whole thirds of 127.
pub open spec fn arc_count(level: u8) -> int {
    if level == 0 {
        0
    } else {
        1 + (level as int * 3) / 127
    }
}

/// Maps `x` from a range as wide as `from` into the range `to`.
pub fn map_range(from: (u32, u32), to: (u32, u32), x: u8) -> (mapped: u32)
    requires
        from.0 < from.1,
        to.0 <= to.1,
        scaled(from, to, x) <= u32::MAX,
    ensures
        mapped as int == scaled(from, to, x),
{
    let width: u64 = (to.1 - to.0) as u64;
    let span: u64 = (from.1 - from.0) as u64;
    assert(x as int * width as int <= 255 * 0xFFFF_FFFF) by (nonlinear_arith)
        requires
            0 <= x as int <= 255,
            0 <= width as int <= 0xFFFF_FFFF,
    ;
    let offset: u64 = (x as u64 * width) / span;
    (to.0 as u64 + offset) as u32
}

/// The number of arcs to draw for a level.
pub fn level_to_arc_count(level: u8) -> (count: usize)
    ensures
        count as int == arc_count(level),
        count <= 7,
        level == 0 <==> count == 0,
{
    if level == 0 {
        0
    } else {
        1 + ((level as u16 * 3) / 127) as usize
    }
}

} // verus!
