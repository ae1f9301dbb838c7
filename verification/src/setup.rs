//! Laying out the pockets and the cushions of the table.

use vstd::prelude::*;
use crate::layout::{
    bound_layout, hole_layout, BAND, BORDER, HEIGHT, HOLE_SIZE, MARGIN_LEFT, MARGIN_TOP, WIDTH,
};
use crate::table::PoolTable;

verus! {

impl PoolTable {
    /// Adds the ten cushions: for each side of the table the outer band and
    /// the inner segments that leave the pockets open.
    pub fn initialize_bounds(&mut self)
        requires
            old(self)@.wf(),
            old(self)@.world.next + 10 <= u64::MAX,
        ensures
            final(self)@ == old(self)@.add_bounds(bound_layout()),
            final(self)@.wf(),
    {
        let vertical_height: u32 = HEIGHT + 2 * BAND;
        let vertical_height_thin: u32 = HEIGHT - HOLE_SIZE - 3 * BAND;
        let horizontal_width: u32 = WIDTH + 2 * BAND;
        let horizontal_width_thin: u32 = horizontal_width - HOLE_SIZE - 2 * BAND;
        let half_horizontal_width_thin: u32 = (horizontal_width - 3 * HOLE_SIZE - 7 * BAND) / 2;

        let top: u32 = MARGIN_TOP + BORDER;
        let left: u32 = MARGIN_LEFT + BORDER;

        let half_band: u32 = BAND / 2;
        let half_vertical_height: u32 = vertical_height / 2;
        let half_horizontal_width: u32 = horizontal_width / 2;
        let half_half_horizontal_width_thin: u32 = half_horizontal_width_thin / 2;
        let half_vertical_height_thin: u32 = vertical_height_thin / 2;

        // top
        self.add_bound(left + half_horizontal_width, top - BAND, half_horizontal_width, BAND);
        self.add_bound(
            left + HOLE_SIZE + BAND * 3 / 2 + half_half_horizontal_width_thin,
            top + half_band,
            half_half_horizontal_width_thin,
            half_band,
        );
        self.add_bound(
            left + 2 * HOLE_SIZE + BAND * 11 / 2 + half_horizontal_width_thin
                + half_half_horizontal_width_thin,
            top + half_band,
            half_half_horizontal_width_thin,
            half_band,
        );

        // left
        self.add_bound(left - BAND, top + half_vertical_height, BAND, half_vertical_height);
        self.add_bound(
            left + half_band,
            top + HOLE_SIZE + BAND * 3 / 2 + half_vertical_height_thin,
            half_band,
            half_vertical_height_thin,
        );

        // bottom
        self.add_bound(
            left + half_horizontal_width,
            top + vertical_height + BAND,
            half_horizontal_width,
            BAND,
        );
        self.add_bound(
            left + HOLE_SIZE + BAND * 3 / 2 + half_half_horizontal_width_thin,
            top + vertical_height_thin + 2 * HOLE_SIZE + BAND * 5 / 2,
            half_half_horizontal_width_thin,
            half_band,
        );
        self.add_bound(
            left + 2 * HOLE_SIZE + BAND * 11 / 2 + half_horizontal_width_thin
                + half_half_horizontal_width_thin,
            top + vertical_height_thin + 2 * HOLE_SIZE + BAND * 5 / 2,
            half_half_horizontal_width_thin,
            half_band,
        );

        // right
        self.add_bound(
            left + horizontal_width + BAND,
            top + half_vertical_height,
            BAND,
            half_vertical_height,
        );
        self.add_bound(
            left + horizontal_width_thin + HOLE_SIZE + BAND * 3 / 2,
            top + HOLE_SIZE + BAND * 3 / 2 + half_vertical_height_thin,
            half_band,
            half_vertical_height_thin,
        );

        proof {
            let goal = old(self)@.add_bounds(bound_layout());
            assert(self@.world.bodies =~= goal.world.bodies);
            assert(self@.world.commands =~= goal.world.commands);
            assert(self@.bounds =~= goal.bounds);
        }
    }

    /// Adds the six pocket sensors, clockwise from the top left corner.
    pub fn initialize_holes(&mut self)
        requires
            old(self)@.wf(),
            old(self)@.world.next + 6 <= u64::MAX,
        ensures
            final(self)@ == old(self)@.add_holes(hole_layout()),
            final(self)@.wf(),
    {
        // top left
        self.add_hole(MARGIN_LEFT + BORDER + BAND / 2, MARGIN_TOP + BORDER + BAND / 2);
        // top
        self.add_hole(MARGIN_LEFT + BORDER + BAND + WIDTH / 2, MARGIN_TOP + BORDER + BAND / 2);
        // top right
        self.add_hole(
            MARGIN_LEFT + BORDER + BAND + WIDTH + BAND / 2,
            MARGIN_TOP + BORDER + BAND / 2,
        );
        // bottom right
        self.add_hole(
            MARGIN_LEFT + BORDER + BAND + WIDTH + BAND / 4,
            MARGIN_TOP + BORDER + HEIGHT + BAND * 5 / 4,
        );
        // bottom
        self.add_hole(
            MARGIN_LEFT + BORDER + BAND + WIDTH / 2,
            MARGIN_TOP + BORDER + HEIGHT + BAND * 3 / 2,
        );
        // bottom left
        self.add_hole(MARGIN_LEFT + BORDER + BAND / 2, MARGIN_TOP + BORDER + HEIGHT + BAND * 3 / 2);

        proof {
            let goal = old(self)@.add_holes(hole_layout());
            assert(self@.world.bodies =~= goal.world.bodies);
            assert(self@.world.commands =~= goal.world.commands);
            assert(self@.holes =~= goal.holes);
        }
    }

    /// Sets the table up: the pockets, the cushions, then the rack.
    pub fn initialize_world(&mut self)
        requires
            old(self)@.wf(),
            !old(self)@.racked(),
            old(self)@.world.next + 32 <= u64::MAX,
        ensures
            final(self)@ == old(self)@.add_holes(hole_layout()).add_bounds(bound_layout()).rack(),
            final(self)@.wf(),
    {
        self.initialize_holes();
        self.initialize_bounds();
        self.initialize_balls();
    }
}

} // verus!
