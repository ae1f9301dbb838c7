//! The drag that stands for the friction of the cloth.

use vstd::prelude::*;
use vstd::arithmetic::power2::lemma2_to64;
use crate::scalar::{units, Scalar};
use crate::world::{BodyHandle, Command, World};

verus! {

/// The bit pattern of the factor by which a ball's velocity is scaled to give
/// the drag on it: -0.86 in single precision.
pub const DRAG_FACTOR_BITS: u32 = 0xbf5c_28f6;

/// The drag model. On every step each ball in play is pushed against its own
/// motion, by a force in proportion to its velocity and its inertia.
#[derive(Clone, Copy, Debug, PartialEq, Eq, Structural)]
pub struct ZGravity {
    pub factor: Scalar,
}

impl ZGravity {
    /// The factor is a number strictly between zero and one in magnitude.
    pub open spec fn wf(self) -> bool {
        &&& !self.factor.nan()
        &&& 0 < self.factor.magnitude() < units(1)
    }

    /// The model with the factor the table was tuned with.
    pub open spec fn standard() -> ZGravity {
        ZGravity { factor: Scalar { bits: DRAG_FACTOR_BITS } }
    }

    /// The standard factor is negative and strictly inside the unit interval.
    pub proof fn lemma_standard()
        ensures
            ZGravity::standard().wf(),
            ZGravity::standard().factor.negative(),
    {
        let factor = ZGravity::standard().factor;
        let one = Scalar { bits: 0x3f80_0000 };
        lemma2_to64();
        one.lemma_whole_magnitude(1, 23);
        Scalar::lemma_magnitude_order(factor, one);
        Scalar::lemma_magnitude_order(factor, Scalar { bits: 0 });
    }

    pub fn new() -> (gravity: Self)
        ensures
            gravity == ZGravity::standard(),
            gravity.wf(),
    {
        proof {
            Self::lemma_standard();
        }
        ZGravity { factor: Scalar::from_bits(DRAG_FACTOR_BITS) }
    }

    /// Asks for the drag on `body`. A body that no longer exists is skipped.
    pub fn apply_force(&mut self, world: &mut World, body: BodyHandle)
        ensures
            *final(self) == *old(self),
            final(world)@ == old(world)@.record(
                body,
                Command::Drag { body, factor: old(self).factor },
            ),
    {
        world.drag(body, self.factor);
    }
}

} // verus!
