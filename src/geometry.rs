use vstd::prelude::*;

verus! {

/// An absolute position on the map.
#[derive(Debug, Clone, Copy, PartialEq, Eq, Structural)]
pub struct Location(pub i32, pub i32);

/// A step or offset between two positions.
#[derive(Debug, Clone, Copy, PartialEq, Eq, Structural)]
pub struct Direction(pub i32, pub i32);

/// A width and a height.
#[derive(Debug, Clone, Copy, PartialEq, Eq, Structural)]
pub struct Dimension(pub i32, pub i32);

/// Half of `n`, rounded toward zero as integer division does.
pub open spec fn half(n: int) -> int {
    if n >= 0 {
        n / 2
    } else {
        -((-n) / 2)
    }
}

/// Where `loc` lands in a view of size `target` centred on `focus`, before culling.
pub open spec fn view_coords(target: Dimension, loc: Location, focus: Location) -> (int, int) {
    (
        half(target.0 as int) + 1 + (loc.0 - focus.0),
        half(target.1 as int) + 1 + (loc.1 - focus.1),
    )
}

/// Projects a map position into a view of size `target` centred (one cell
/// off) on `focus`; positions outside `source` are culled.
pub fn translate(source: &Dimension, target: &Dimension, loc: &Location, focus: &Location) -> (r:
    Option<Location>)
    ensures
        ({
            let (vx, vy) = view_coords(*target, *loc, *focus);
            if 0 <= vx < source.0 && 0 <= vy < source.1 {
                r == Some(Location(vx as i32, vy as i32))
            } else {
                r is None
            }
        }),
{
    let center_x = (target.0 / 2) as i64 + 1;
    let center_y = (target.1 / 2) as i64 + 1;
    let view_x = center_x + (loc.0 as i64 - focus.0 as i64);
    let view_y = center_y + (loc.1 as i64 - focus.1 as i64);
    if view_x >= 0 && view_x < source.0 as i64 && view_y >= 0 && view_y < source.1 as i64 {
        Some(Location(view_x as i32, view_y as i32))
    } else {
        None
    }
}

} // verus!
