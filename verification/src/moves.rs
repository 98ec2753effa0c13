//! The moves a participant may choose in a round, and their fixed costs.

use vstd::prelude::*;

use crate::player::PlayerId;

verus! {

/// A participant's charge count is a small non-negative integer.
pub type Charges = u8;

/// One move, chosen secretly by a participant for one round. Attacking
/// moves carry the id of the participant they are aimed at.
#[derive(Clone, Copy, PartialEq, Eq, Structural, Debug)]
pub enum Move {
    Charge,
    Block,
    Kamehameha { target: PlayerId },
    Disk { target: PlayerId },
    SuperSaiyan,
    Reflect,
    SpecialBeam { target: PlayerId },
    SpiritBomb,
}

impl Move {
    /// The cost of a move is a pure function of its variant alone; an
    /// embedded target never changes it.
    pub open spec fn spec_cost(self) -> Charges {
        match self {
            Move::Charge => 0,
            Move::Block => 0,
            Move::Kamehameha { .. } => 1,
            Move::Disk { .. } => 2,
            Move::SuperSaiyan => 3,
            Move::Reflect => 4,
            Move::SpecialBeam { .. } => 5,
            Move::SpiritBomb => 7,
        }
    }

    /// How many charges the move deducts from the participant that chose it.
    pub fn cost(&self) -> (c: Charges)
        ensures
            c == self.spec_cost(),
    {
        match self {
            Move::Charge => 0,
            Move::Block => 0,
            Move::Kamehameha { .. } => 1,
            Move::Disk { .. } => 2,
            Move::SuperSaiyan => 3,
            Move::Reflect => 4,
            Move::SpecialBeam { .. } => 5,
            Move::SpiritBomb => 7,
        }
    }
}

} // verus!
