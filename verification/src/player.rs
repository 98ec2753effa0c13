//! Participants: identity, charge count, life-state, and the per-participant
//! state-transition rules (affordability, move completion, dying).

use vstd::prelude::*;

use crate::moves::{Charges, Move};

verus! {

/// A participant's identity, stable for the game's lifetime.
pub type PlayerId = u32;

/// Life-state of a participant. A `SuperSaiyan` participant holds one extra
/// life: a kill drops it back to `Alive` instead of `Dead`.
#[derive(Clone, Copy, PartialEq, Eq, Structural, Debug)]
pub enum PlayerState {
    Alive,
    SuperSaiyan,
    Dead,
}

/// One participant: identity, display name, charge count and life-state.
pub struct Player {
    pub id: PlayerId,
    pub nickname: String,
    pub charges: Charges,
    pub state: PlayerState,
}

impl Player {
    /// A dead participant's charges stay zeroed until it leaves play.
    pub open spec fn wf(self) -> bool {
        self.state is Dead ==> self.charges == 0
    }

    /// Whether the participant may choose this move: it must be able to pay
    /// the cost, a dead participant may choose nothing, and only an `Alive`
    /// participant may go `SuperSaiyan` (no re-boost while already boosted).
    pub open spec fn spec_can_do_move(self, choice: Move) -> bool {
        match choice {
            Move::SuperSaiyan => self.state is Alive && self.charges >= choice.spec_cost(),
            _ => !(self.state is Dead) && self.charges >= choice.spec_cost(),
        }
    }

    /// How many charges one `Charge` move gains for this participant.
    pub open spec fn spec_charge_gain(self) -> Charges {
        match self.state {
            PlayerState::Alive => 1,
            PlayerState::SuperSaiyan => 2,
            PlayerState::Dead => 0,
        }
    }

    /// The charge count after completing `choice`: the cost is deducted
    /// first, then a `Charge` move adds the state-dependent gain.
    pub open spec fn spec_charges_after_move(self, choice: Move) -> int {
        if choice is Charge {
            self.charges - choice.spec_cost() + self.spec_charge_gain()
        } else {
            self.charges - choice.spec_cost()
        }
    }

    /// The life-state after completing `choice`: only `SuperSaiyan` changes it.
    pub open spec fn spec_state_after_move(self, choice: Move) -> PlayerState {
        if choice is SuperSaiyan {
            PlayerState::SuperSaiyan
        } else {
            self.state
        }
    }

    /// The participant after completing `choice`.
    pub open spec fn spec_move_completed(self, choice: Move) -> Player {
        Player {
            charges: self.spec_charges_after_move(choice) as Charges,
            state: self.spec_state_after_move(choice),
            ..self
        }
    }

    /// The life-state a kill leaves behind: `SuperSaiyan` spends its extra
    /// life and drops to `Alive`; `Alive` dies; `Dead` stays dead.
    pub open spec fn spec_kill_state(self) -> PlayerState {
        match self.state {
            PlayerState::SuperSaiyan => PlayerState::Alive,
            PlayerState::Alive => PlayerState::Dead,
            PlayerState::Dead => PlayerState::Dead,
        }
    }

    /// The participant after a kill: charges are zeroed exactly when the
    /// kill leaves it dead, and kept otherwise.
    pub open spec fn spec_kill(self) -> Player {
        Player {
            state: self.spec_kill_state(),
            charges: if self.spec_kill_state() is Dead {
                0
            } else {
                self.charges
            },
            ..self
        }
    }

    pub open spec fn spec_is_dead(self) -> bool {
        self.state is Dead
    }

    /// A fresh participant: alive, with no charges.
    pub fn new(id: PlayerId, nickname: &str) -> (r: Player)
        ensures
            r.id == id,
            r.nickname@ == nickname@,
            r.charges == 0,
            r.state is Alive,
            r.wf(),
    {
        Player { id, nickname: nickname.to_owned(), charges: 0, state: PlayerState::Alive }
    }

    /// Affordability check the caller is expected to run before submitting a
    /// move; the round engine itself does not re-validate it.
    pub fn can_do_move(&self, choice: Move) -> (r: bool)
        ensures
            r == self.spec_can_do_move(choice),
    {
        match choice {
            Move::SuperSaiyan => self.state == PlayerState::Alive && self.has_charges_for(choice),
            _ => self.state != PlayerState::Dead && self.has_charges_for(choice),
        }
    }

    /// The completion effect of the participant's own chosen move, applied
    /// once per round before kill resolution: deduct the cost, then apply
    /// the variant's effect (`Charge` gains, `SuperSaiyan` boosts).
    pub fn move_completed(&self, choice: Move) -> (r: Player)
        requires
            choice.spec_cost() <= self.charges,
            self.spec_charges_after_move(choice) <= u8::MAX,
        ensures
            r == self.spec_move_completed(choice),
    {
        let after_deducted = self.deduct_charges(choice.cost());
        match choice {
            Move::Charge => self.charge(),
            Move::SuperSaiyan => Player { state: PlayerState::SuperSaiyan, ..after_deducted },
            _ => after_deducted,
        }
    }

    /// A kill decision from the round's resolution: a boosted participant
    /// spends its extra life, an alive one dies and loses its charges, and a
    /// dead one is left as it is.
    pub fn kill(&self) -> (r: Player)
        ensures
            r == self.spec_kill(),
    {
        let next_state = match self.state {
            PlayerState::SuperSaiyan => PlayerState::Alive,
            PlayerState::Alive => PlayerState::Dead,
            PlayerState::Dead => PlayerState::Dead,
        };

        Player {
            state: next_state,
            charges: if next_state == PlayerState::Dead {
                0
            } else {
                self.charges
            },
            id: self.id,
            nickname: self.nickname.clone(),
        }
    }

    pub fn is_dead(&self) -> (r: bool)
        ensures
            r == self.spec_is_dead(),
    {
        self.state == PlayerState::Dead
    }

    /// The `Charge` move's own effect: gain 1 charge while alive, 2 while
    /// boosted, none while dead.
    fn charge(&self) -> (r: Player)
        requires
            self.charges + self.spec_charge_gain() <= u8::MAX,
        ensures
            r == (Player {
                charges: (self.charges + self.spec_charge_gain()) as Charges,
                ..*self
            }),
    {
        let charge_ammount: Charges = match self.state {
            PlayerState::Alive => 1,
            PlayerState::SuperSaiyan => 2,
            PlayerState::Dead => 0,
        };

        Player {
            charges: self.charges + charge_ammount,
            id: self.id,
            nickname: self.nickname.clone(),
            state: self.state,
        }
    }

    fn has_charges_for(&self, choice: Move) -> (r: bool)
        ensures
            r == (self.charges >= choice.spec_cost()),
    {
        self.charges >= choice.cost()
    }

    fn deduct_charges(&self, ammount: Charges) -> (r: Player)
        requires
            ammount <= self.charges,
        ensures
            r == (Player { charges: (self.charges - ammount) as Charges, ..*self }),
    {
        Player {
            charges: self.charges - ammount,
            id: self.id,
            nickname: self.nickname.clone(),
            state: self.state,
        }
    }
}

/// The participant left after completing a whole sequence of moves in order.
pub open spec fn spec_moves_completed(p: Player, ms: Seq<Move>) -> Player
    decreases ms.len(),
{
    if ms.len() == 0 {
        p
    } else {
        spec_moves_completed(p.spec_move_completed(ms[0]), ms.subrange(1, ms.len() as int))
    }
}

/// Every move of the sequence, at the state it is completed in, passes the
/// affordability check and keeps the charge count within its machine bound.
pub open spec fn spec_moves_allowed(p: Player, ms: Seq<Move>) -> bool
    decreases ms.len(),
{
    ms.len() == 0 || {
        &&& p.spec_can_do_move(ms[0])
        &&& p.spec_charges_after_move(ms[0]) <= u8::MAX
        &&& spec_moves_allowed(p.spec_move_completed(ms[0]), ms.subrange(1, ms.len() as int))
    }
}

/// One completion step never clamps: if the move passes the affordability
/// check (and its gain fits the charge counter), the stored charge count is
/// exactly the old count minus the cost plus the `Charge` gain, and so never
/// goes negative.
pub proof fn lemma_completion_exact(p: Player, choice: Move)
    requires
        p.spec_can_do_move(choice),
        p.spec_charges_after_move(choice) <= u8::MAX,
    ensures
        0 <= p.spec_charges_after_move(choice),
        p.spec_move_completed(choice).charges == p.spec_charges_after_move(choice),
{
}

/// Charge counts stay non-negative across any sequence of completions whose
/// moves each pass the affordability check when they are made.
pub proof fn lemma_charges_never_negative(p: Player, ms: Seq<Move>)
    requires
        spec_moves_allowed(p, ms),
    ensures
        spec_moves_completed(p, ms).charges >= 0,
    decreases ms.len(),
{
    if ms.len() > 0 {
        lemma_completion_exact(p, ms[0]);
        lemma_charges_never_negative(p.spec_move_completed(ms[0]), ms.subrange(1, ms.len() as int));
    }
}

/// A boosted participant holds exactly one extra life: killing it leaves it
/// alive with its charges untouched, and killing it again leaves it dead
/// with no charges.
pub proof fn lemma_super_saiyan_extra_life(p: Player)
    requires
        p.state is SuperSaiyan,
    ensures
        p.spec_kill().state is Alive,
        p.spec_kill().charges == p.charges,
        p.spec_kill().spec_kill().state is Dead,
        p.spec_kill().spec_kill().charges == 0,
{
}

/// Killing a dead participant changes nothing: `kill` is idempotent once a
/// participant is dead.
pub proof fn lemma_kill_idempotent_on_dead(p: Player)
    requires
        p.spec_is_dead(),
        p.wf(),
    ensures
        p.spec_kill() == p,
{
}

impl Clone for Player {
    fn clone(&self) -> (r: Player)
        ensures
            r == self,
    {
        Player {
            id: self.id,
            nickname: self.nickname.clone(),
            charges: self.charges,
            state: self.state,
        }
    }
}

} // verus!
