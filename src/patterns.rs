use vstd::prelude::*;

verus! {

/// Whether the stripe or ring with integer index `cell` takes the first color
/// of its pattern: bands alternate, starting with the first color at zero.
pub open spec fn band_first(cell: int) -> bool {
    cell % 2 == 0
}

/// Whether the unit cube with integer corner `(cx, cy, cz)` of a checkers
/// pattern takes its first color: neighbouring cubes alternate.
pub open spec fn checkers_first(cx: int, cy: int, cz: int) -> bool {
    (cx + cy + cz) % 2 == 0
}

/// Whether the band with integer index `cell` takes the first color.
pub fn band_takes_first(cell: i64) -> (r: bool)
    ensures
        r == band_first(cell as int),
{
    cell % 2 == 0
}

/// Whether the checkers cube with integer corner `(cx, cy, cz)` takes the
/// first color.
pub fn checkers_takes_first(cx: i64, cy: i64, cz: i64) -> (r: bool)
    ensures
        r == checkers_first(cx as int, cy as int, cz as int),
{
    let parity = cx % 2 + cy % 2 + cz % 2;
    parity % 2 == 0
}

/// A checkers pattern changes color across every face of a cube: stepping one
/// cell along any single axis, in either direction, gives the other color.
pub proof fn checkers_alternate_per_axis(cx: int, cy: int, cz: int)
    ensures
        checkers_first(cx + 1, cy, cz) != checkers_first(cx, cy, cz),
        checkers_first(cx, cy + 1, cz) != checkers_first(cx, cy, cz),
        checkers_first(cx, cy, cz + 1) != checkers_first(cx, cy, cz),
        checkers_first(cx - 1, cy, cz) != checkers_first(cx, cy, cz),
        checkers_first(cx, cy - 1, cz) != checkers_first(cx, cy, cz),
        checkers_first(cx, cy, cz - 1) != checkers_first(cx, cy, cz),
{
}

} // verus!
