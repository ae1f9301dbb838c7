//! The geometry of the table, in table units.
//!
//! Every length is a whole number of units, measured from the top left
//! corner of the window. The tables below list what the set-up functions of
//! `PoolTable` derive from the dimension constants.

use vstd::prelude::*;
use crate::world::BodyKind;

verus! {

/// Radius of a ball.
pub const BALL_SIZE: u32 = 240;

/// Width of the cloth.
pub const WIDTH: u32 = 15440;

/// Height of the cloth.
pub const HEIGHT: u32 = 8000;

/// Distance from the top of the window to the wooden border.
pub const MARGIN_TOP: u32 = 3000;

/// Distance from the left of the window to the wooden border.
pub const MARGIN_LEFT: u32 = 2000;

/// Thickness of the wooden border.
pub const BORDER: u32 = 560;

/// Thickness of the cushion band.
pub const BAND: u32 = 160;

/// Radius of a pocket as it is drawn.
pub const HOLE_SIZE: u32 = 320;

/// Where the white ball is placed.
pub open spec fn white_spot() -> BodyKind {
    BodyKind::Ball { x: 6420, y: 7560, radius: 240 }
}

/// A ball is on the table while the horizontal coordinate of its centre is
/// strictly between zero and this limit: the right edge of the border.
pub open spec fn world_limit_x() -> int {
    18560
}

/// A ball is on the table while the vertical coordinate of its centre is
/// strictly between zero and this limit: the bottom edge of the border.
pub open spec fn world_limit_y() -> int {
    12120
}

/// The ten cushions: for each side of the table the outer band, then the
/// inner segments between the pockets. Top, left, bottom, right.
pub open spec fn bound_layout() -> Seq<BodyKind> {
    seq![
        BodyKind::Bound { center_x: 10440, center_y: 3400, half_width: 7880, half_height: 160 },
        BodyKind::Bound { center_x: 6540, center_y: 3640, half_width: 3420, half_height: 80 },
        BodyKind::Bound { center_x: 14340, center_y: 3640, half_width: 3420, half_height: 80 },
        BodyKind::Bound { center_x: 2400, center_y: 7720, half_width: 160, half_height: 4160 },
        BodyKind::Bound { center_x: 2640, center_y: 7720, half_width: 80, half_height: 3600 },
        BodyKind::Bound { center_x: 10440, center_y: 12040, half_width: 7880, half_height: 160 },
        BodyKind::Bound { center_x: 6540, center_y: 11800, half_width: 3420, half_height: 80 },
        BodyKind::Bound { center_x: 14340, center_y: 11800, half_width: 3420, half_height: 80 },
        BodyKind::Bound { center_x: 18480, center_y: 7720, half_width: 160, half_height: 4160 },
        BodyKind::Bound { center_x: 18240, center_y: 7720, half_width: 80, half_height: 3600 },
    ]
}

/// The six pocket sensors, clockwise from the top left corner.
pub open spec fn hole_layout() -> Seq<BodyKind> {
    seq![
        BodyKind::Hole { x: 2640, y: 3640, radius: 200 },
        BodyKind::Hole { x: 10440, y: 3640, radius: 200 },
        BodyKind::Hole { x: 18240, y: 3640, radius: 200 },
        BodyKind::Hole { x: 18200, y: 11760, radius: 200 },
        BodyKind::Hole { x: 10440, y: 11800, radius: 200 },
        BodyKind::Hole { x: 2640, y: 11800, radius: 200 },
    ]
}

/// The sixteen balls of a fresh rack in the order in which their bodies are
/// created: the white ball, then the triangle row by row from its apex.
pub open spec fn rack_layout() -> Seq<BodyKind> {
    seq![
        BodyKind::Ball { x: 6420, y: 7560, radius: 240 },
        BodyKind::Ball { x: 13180, y: 7560, radius: 240 },
        BodyKind::Ball { x: 13660, y: 7320, radius: 240 },
        BodyKind::Ball { x: 13660, y: 7800, radius: 240 },
        BodyKind::Ball { x: 14140, y: 7080, radius: 240 },
        BodyKind::Ball { x: 14140, y: 7560, radius: 240 },
        BodyKind::Ball { x: 14140, y: 8040, radius: 240 },
        BodyKind::Ball { x: 14620, y: 6840, radius: 240 },
        BodyKind::Ball { x: 14620, y: 7320, radius: 240 },
        BodyKind::Ball { x: 14620, y: 7800, radius: 240 },
        BodyKind::Ball { x: 14620, y: 8280, radius: 240 },
        BodyKind::Ball { x: 15100, y: 6600, radius: 240 },
        BodyKind::Ball { x: 15100, y: 7080, radius: 240 },
        BodyKind::Ball { x: 15100, y: 7560, radius: 240 },
        BodyKind::Ball { x: 15100, y: 8040, radius: 240 },
        BodyKind::Ball { x: 15100, y: 8520, radius: 240 },
    ]
}

/// For each place of the registry (white, eight, reds, yellows) the position
/// of that ball in `rack_layout`.
pub open spec fn rack_order() -> Seq<int> {
    seq![0, 5, 1, 2, 6, 7, 9, 13, 15, 3, 4, 8, 10, 11, 12, 14]
}

/// The order names a different body for every place.
pub proof fn lemma_rack_order()
    ensures
        rack_order().len() == 16,
        forall|slot: int| 0 <= slot < 16 ==> 0 <= #[trigger] rack_order()[slot] < 16,
        forall|a: int, b: int|
            0 <= a < 16 && 0 <= b < 16 && a != b ==> #[trigger] rack_order()[a]
                != #[trigger] rack_order()[b],
{
    let place = seq![0int, 2, 3, 9, 10, 1, 4, 5, 11, 6, 12, 13, 14, 7, 15, 8];
    assert forall|slot: int| 0 <= slot < 16 implies 0 <= #[trigger] rack_order()[slot] < 16
        && place[rack_order()[slot]] == slot by {}
}

} // verus!
