//! The game: roster, game-state machine, and the round engine.

use vstd::prelude::*;

use crate::moves::Move;
use crate::player::{Player, PlayerId};

verus! {

/// A game's identity.
pub type GameId = u32;

/// The game-state machine: `Setup` before any round, `Playing` while rounds
/// are processed, `Ended` once exactly one participant is left alive.
#[derive(Clone, Copy, PartialEq, Eq, Structural, Debug)]
pub enum GameState {
    Setup,
    Playing,
    Ended { winner: PlayerId },
}

/// The outcome of resolving one participant's move against the round's full
/// move list: nobody dies, one participant dies, or everyone but the
/// attacker dies.
#[derive(Clone, Copy, PartialEq, Eq, Structural, Debug)]
pub enum MoveResult {
    NoKill,
    Kill(PlayerId),
    AllKill { attacker: PlayerId },
}

/// The round's move list: one entry per participant that submitted a move.
/// Its participant ids must be unique, so it denotes a map.
pub open spec fn spec_unique_ids(moves: Seq<(PlayerId, Move)>) -> bool {
    forall|i: int, j: int| 0 <= i < j < moves.len() ==> moves[i].0 != moves[j].0
}

/// Whether the move list holds an entry for `pid`.
pub open spec fn spec_has_entry(moves: Seq<(PlayerId, Move)>, pid: PlayerId) -> bool {
    exists|i: int| 0 <= i < moves.len() && moves[i].0 == pid
}

/// The move that `pid` submitted (meaningful only under `spec_has_entry`
/// and unique ids).
pub open spec fn spec_move_of(moves: Seq<(PlayerId, Move)>, pid: PlayerId) -> Move {
    let i = choose|i: int| 0 <= i < moves.len() && moves[i].0 == pid;
    moves[i].1
}

/// With unique ids, any entry of the move list is the entry that
/// `spec_move_of` reads.
pub proof fn lemma_move_of_entry(moves: Seq<(PlayerId, Move)>, i: int)
    requires
        spec_unique_ids(moves),
        0 <= i < moves.len(),
    ensures
        spec_has_entry(moves, moves[i].0),
        spec_move_of(moves, moves[i].0) == moves[i].1,
{
    let pid = moves[i].0;
    assert(spec_has_entry(moves, pid));
    let j = choose|j: int| 0 <= j < moves.len() && moves[j].0 == pid;
    if i < j {
        assert(moves[i].0 != moves[j].0);
    } else if j < i {
        assert(moves[j].0 != moves[i].0);
    }
}

/// Whether the target embedded in a move (if any) has its own entry in the
/// round's move list; the resolution rules look that entry up.
pub open spec fn spec_targets_present(m: Move, moves: Seq<(PlayerId, Move)>) -> bool {
    match m {
        Move::Kamehameha { target } => spec_has_entry(moves, target),
        Move::Disk { target } => spec_has_entry(moves, target),
        Move::SpecialBeam { target } => spec_has_entry(moves, target),
        _ => true,
    }
}

/// Resolution of a weak attack by `player` aimed at `target`, keyed by the
/// target's own chosen move. The target dies if it charged, boosted, or
/// attacked at the same tier elsewhere; a `Reflect` turns the attack back on
/// its source; a mutual same-tier clash cancels; a stronger attack or a
/// plain block rides the weak attack out.
pub open spec fn spec_weak_result(player: PlayerId, target: PlayerId, targets_move: Move) -> MoveResult {
    match targets_move {
        Move::Charge => MoveResult::Kill(target),
        Move::SuperSaiyan => MoveResult::Kill(target),
        Move::Reflect => MoveResult::Kill(player),
        Move::Kamehameha { target: aimed_at } => if aimed_at == player {
            MoveResult::NoKill
        } else {
            MoveResult::Kill(target)
        },
        _ => MoveResult::NoKill,
    }
}

/// Resolution of a medium attack: as the weak one, and the target also dies
/// if it answered with a strictly lower-tier attack.
pub open spec fn spec_medium_result(player: PlayerId, target: PlayerId, targets_move: Move) -> MoveResult {
    match targets_move {
        Move::Charge => MoveResult::Kill(target),
        Move::SuperSaiyan => MoveResult::Kill(target),
        Move::Reflect => MoveResult::Kill(player),
        Move::Kamehameha { .. } => MoveResult::Kill(target),
        Move::Disk { target: aimed_at } => if aimed_at == player {
            MoveResult::NoKill
        } else {
            MoveResult::Kill(target)
        },
        _ => MoveResult::NoKill,
    }
}

/// Resolution of a strong attack: as the medium one, and it also goes
/// through a plain `Block`.
pub open spec fn spec_strong_result(player: PlayerId, target: PlayerId, targets_move: Move) -> MoveResult {
    match targets_move {
        Move::Charge => MoveResult::Kill(target),
        Move::Block => MoveResult::Kill(target),
        Move::SuperSaiyan => MoveResult::Kill(target),
        Move::Reflect => MoveResult::Kill(player),
        Move::Kamehameha { .. } => MoveResult::Kill(target),
        Move::Disk { .. } => MoveResult::Kill(target),
        Move::SpecialBeam { target: aimed_at } => if aimed_at == player {
            MoveResult::NoKill
        } else {
            MoveResult::Kill(target)
        },
        _ => MoveResult::NoKill,
    }
}

/// Resolution of one participant's move against the round's full move list:
/// the three targeted attacks resolve against the target's own submitted
/// move, `SpiritBomb` kills everyone but its caster, and the defensive
/// moves kill nobody by themselves.
pub open spec fn spec_result_of(player: PlayerId, player_move: Move, moves: Seq<(PlayerId, Move)>) -> MoveResult {
    match player_move {
        Move::Kamehameha { target } => spec_weak_result(player, target, spec_move_of(moves, target)),
        Move::Disk { target } => spec_medium_result(player, target, spec_move_of(moves, target)),
        Move::SpecialBeam { target } => spec_strong_result(player, target, spec_move_of(moves, target)),
        Move::SpiritBomb => MoveResult::AllKill { attacker: player },
        _ => MoveResult::NoKill,
    }
}

/// Whether the move list's entry at index `i` resolves to a kill of `pid`:
/// a targeted kill names it, or an area kill comes from someone else.
pub open spec fn spec_entry_kills(moves: Seq<(PlayerId, Move)>, i: int, pid: PlayerId) -> bool {
    match spec_result_of(moves[i].0, moves[i].1, moves) {
        MoveResult::NoKill => false,
        MoveResult::Kill(t) => t == pid,
        MoveResult::AllKill { attacker } => attacker != pid,
    }
}

/// The round's kill set, as membership: `pid` dies this round if and only
/// if some submitted move resolves to a kill of it. The union is a set, so
/// being the prey of two attackers kills no harder than of one.
pub open spec fn spec_killed(moves: Seq<(PlayerId, Move)>, pid: PlayerId) -> bool {
    exists|i: int| 0 <= i < moves.len() && spec_entry_kills(moves, i, pid)
}

/// Whether the roster holds a participant with this id.
pub open spec fn spec_has_player(players: Seq<Player>, pid: PlayerId) -> bool {
    exists|i: int| 0 <= i < players.len() && players[i].id == pid
}

/// The roster participant with this id (meaningful only under
/// `spec_has_player` and unique roster ids).
pub open spec fn spec_player_of(players: Seq<Player>, pid: PlayerId) -> Player {
    let i = choose|i: int| 0 <= i < players.len() && players[i].id == pid;
    players[i]
}

/// With unique roster ids, any roster entry is the one that
/// `spec_player_of` reads.
pub proof fn lemma_player_of_entry(players: Seq<Player>, i: int)
    requires
        forall|k: int, j: int| 0 <= k < j < players.len() ==> players[k].id != players[j].id,
        0 <= i < players.len(),
    ensures
        spec_has_player(players, players[i].id),
        spec_player_of(players, players[i].id) == players[i],
{
    let pid = players[i].id;
    assert(spec_has_player(players, pid));
    let j = choose|j: int| 0 <= j < players.len() && players[j].id == pid;
    if i < j {
        assert(players[i].id != players[j].id);
    } else if j < i {
        assert(players[j].id != players[i].id);
    }
}

/// What one round does to one participant: first the completion effect of
/// its own submitted move (none if it submitted none), then a kill if the
/// round's kill set names it.
pub open spec fn spec_round_player(p: Player, moves: Seq<(PlayerId, Move)>) -> Player {
    let completed = if spec_has_entry(moves, p.id) {
        p.spec_move_completed(spec_move_of(moves, p.id))
    } else {
        p
    };
    if spec_killed(moves, p.id) {
        completed.spec_kill()
    } else {
        completed
    }
}

/// What one round does to the whole roster, participant by participant.
pub open spec fn spec_round_players(players: Seq<Player>, moves: Seq<(PlayerId, Move)>) -> Seq<Player> {
    Seq::new(players.len(), |i: int| spec_round_player(players[i], moves))
}

/// The ids of the roster participants that are not dead, in roster order.
pub open spec fn spec_alive_ids(players: Seq<Player>) -> Seq<PlayerId>
    decreases players.len(),
{
    if players.len() == 0 {
        Seq::empty()
    } else {
        let rest = spec_alive_ids(players.drop_last());
        if players.last().spec_is_dead() {
            rest
        } else {
            rest.push(players.last().id)
        }
    }
}

/// The winner, if the round just played left exactly one participant alive.
pub open spec fn spec_winner(players: Seq<Player>) -> Option<PlayerId> {
    if spec_alive_ids(players).len() == 1 {
        Some(spec_alive_ids(players)[0])
    } else {
        None
    }
}

/// Whether `ma` and `mb`, chosen by `a` and `b`, are attacks of the same
/// tier aimed at each other.
pub open spec fn spec_mutual_attacks(ma: Move, mb: Move, a: PlayerId, b: PlayerId) -> bool {
    ||| ma == (Move::Kamehameha { target: b }) && mb == (Move::Kamehameha { target: a })
    ||| ma == (Move::Disk { target: b }) && mb == (Move::Disk { target: a })
    ||| ma == (Move::SpecialBeam { target: b }) && mb == (Move::SpecialBeam { target: a })
}

/// Mutual identical-tier attacks aimed at each other cancel: both sides
/// resolve to no kill.
pub proof fn lemma_mutual_attacks_cancel(moves: Seq<(PlayerId, Move)>, a: PlayerId, b: PlayerId)
    requires
        spec_unique_ids(moves),
        spec_has_entry(moves, a),
        spec_has_entry(moves, b),
        spec_mutual_attacks(spec_move_of(moves, a), spec_move_of(moves, b), a, b),
    ensures
        spec_result_of(a, spec_move_of(moves, a), moves) is NoKill,
        spec_result_of(b, spec_move_of(moves, b), moves) is NoKill,
{
}

/// A `SpiritBomb` kills every other participant and never its caster,
/// provided the caster is the round's only `SpiritBomb` caster (two casters
/// would each fall inside the other's blast).
pub proof fn lemma_spirit_bomb_spares_only_caster(moves: Seq<(PlayerId, Move)>, a: PlayerId)
    requires
        spec_unique_ids(moves),
        spec_has_entry(moves, a),
        spec_move_of(moves, a) == Move::SpiritBomb,
        forall|i: int|
            0 <= i < moves.len() && (#[trigger] moves[i]).0 != a ==> moves[i].1
                != Move::SpiritBomb,
    ensures
        forall|pid: PlayerId| pid != a ==> spec_killed(moves, pid),
        !spec_killed(moves, a),
{
    let ai = choose|i: int| 0 <= i < moves.len() && moves[i].0 == a;
    lemma_move_of_entry(moves, ai);
    assert(spec_result_of(moves[ai].0, moves[ai].1, moves) == (MoveResult::AllKill {
        attacker: a,
    }));
    assert forall|pid: PlayerId| pid != a implies spec_killed(moves, pid) by {
        assert(spec_entry_kills(moves, ai, pid));
    }
    assert forall|i: int| 0 <= i < moves.len() implies !spec_entry_kills(moves, i, a) by {
        lemma_move_of_entry(moves, i);
        if moves[i].0 == a {
            assert(i == ai);
        } else {
            match moves[i].1 {
                Move::Kamehameha { target } => {
                    if target == a {
                        assert(spec_move_of(moves, target) == Move::SpiritBomb);
                    }
                },
                Move::Disk { target } => {
                    if target == a {
                        assert(spec_move_of(moves, target) == Move::SpiritBomb);
                    }
                },
                Move::SpecialBeam { target } => {
                    if target == a {
                        assert(spec_move_of(moves, target) == Move::SpiritBomb);
                    }
                },
                _ => {},
            }
        }
    }
}

/// A game: an id, the full roster (never shrinks; "dead" is a state, not
/// removal) and the current game-state.
pub struct Game {
    pub id: GameId,
    pub players: Vec<Player>,
    pub game_state: GameState,
}

impl Game {
    /// Roster ids are unique and every participant is well formed.
    pub open spec fn wf(self) -> bool {
        &&& forall|i: int, j: int|
            0 <= i < j < self.players@.len() ==> self.players@[i].id != self.players@[j].id
        &&& forall|i: int| 0 <= i < self.players@.len() ==> (#[trigger] self.players@[i]).wf()
    }

    /// A fresh game with an empty roster, still in setup.
    pub fn new(id: GameId) -> (r: Game)
        ensures
            r.id == id,
            r.players@ =~= Seq::<Player>::empty(),
            r.game_state is Setup,
            r.wf(),
    {
        Game { id, players: Vec::new(), game_state: GameState::Setup }
    }

    /// Add a participant to the roster, replacing any earlier participant
    /// with the same id, as a keyed map insertion would.
    pub fn add_player(self, player: Player) -> (r: Game)
        requires
            self.wf(),
            player.wf(),
        ensures
            r.id == self.id,
            r.game_state == self.game_state,
            r.wf(),
            spec_has_player(r.players@, player.id),
            spec_player_of(r.players@, player.id) == player,
            forall|pid: PlayerId|
                pid != player.id ==> (spec_has_player(r.players@, pid) <==> spec_has_player(
                    self.players@,
                    pid,
                )),
            forall|pid: PlayerId|
                pid != player.id && spec_has_player(self.players@, pid) ==> spec_player_of(
                    r.players@,
                    pid,
                ) == spec_player_of(self.players@, pid),
    {
        let mut game = self;
        let ghost old_players = game.players@;
        let mut i: usize = 0;
        #[verifier::loop_isolation(false)]
        while i < game.players.len()
            invariant
                game == self,
                0 <= i <= old_players.len(),
                forall|j: int| 0 <= j < i ==> old_players[j].id != player.id,
            decreases old_players.len() - i,
        {
            if game.players[i].id == player.id {
                game.players.set(i, player);
                proof {
                    Self::lemma_insert_at(old_players, game.players@, player, i as int);
                }
                return game;
            }
            i = i + 1;
        }
        game.players.push(player);
        proof {
            Self::lemma_insert_at(old_players, game.players@, player, old_players.len() as int);
        }
        game
    }

    /// After writing `player` at index `i` of a roster whose other entries
    /// are unchanged and whose earlier entries miss `player.id`, lookups see
    /// a keyed map insertion.
    proof fn lemma_insert_at(before: Seq<Player>, after: Seq<Player>, player: Player, i: int)
        requires
            forall|k: int, j: int| 0 <= k < j < before.len() ==> before[k].id != before[j].id,
            forall|k: int| 0 <= k < before.len() ==> (#[trigger] before[k]).wf(),
            player.wf(),
            0 <= i <= before.len(),
            after.len() == if i < before.len() {
                before.len()
            } else {
                before.len() + 1
            },
            after[i] == player,
            forall|k: int| 0 <= k < after.len() && k != i ==> after[k] == before[k],
            forall|k: int| 0 <= k < i ==> before[k].id != player.id,
            i < before.len() ==> before[i].id == player.id,
        ensures
            forall|k: int, j: int| 0 <= k < j < after.len() ==> after[k].id != after[j].id,
            forall|k: int| 0 <= k < after.len() ==> (#[trigger] after[k]).wf(),
            spec_has_player(after, player.id),
            spec_player_of(after, player.id) == player,
            forall|pid: PlayerId|
                pid != player.id ==> (spec_has_player(after, pid) <==> spec_has_player(
                    before,
                    pid,
                )),
            forall|pid: PlayerId|
                pid != player.id && spec_has_player(before, pid) ==> spec_player_of(after, pid)
                    == spec_player_of(before, pid),
    {
        assert forall|k: int, j: int| 0 <= k < j < after.len() implies after[k].id
            != after[j].id by {
            if k != i && j != i {
                assert(after[k] == before[k]);
                assert(after[j] == before[j]);
            }
        }
        lemma_player_of_entry(after, i);
        assert forall|pid: PlayerId| pid != player.id implies (spec_has_player(after, pid)
            <==> spec_has_player(before, pid)) by {
            if spec_has_player(after, pid) {
                let k = choose|k: int| 0 <= k < after.len() && after[k].id == pid;
                assert(k != i);
                assert(before[k].id == pid);
            }
            if spec_has_player(before, pid) {
                let k = choose|k: int| 0 <= k < before.len() && before[k].id == pid;
                assert(k != i);
                assert(after[k].id == pid);
            }
        }
        assert forall|pid: PlayerId|
            pid != player.id && spec_has_player(before, pid) implies spec_player_of(after, pid)
            == spec_player_of(before, pid) by {
            let k = choose|k: int| 0 <= k < before.len() && before[k].id == pid;
            assert(k != i);
            assert(after[k] == before[k]);
            lemma_player_of_entry(after, k);
            lemma_player_of_entry(before, k);
        }
    }

    /// Move the game out of setup. Starting an already-running game is an
    /// idempotent no-op; an ended game cannot be started again.
    pub fn start_game(self) -> (r: Game)
        requires
            !(self.game_state is Ended),
        ensures
            r.id == self.id,
            r.players@ == self.players@,
            r.game_state is Playing,
            self.wf() ==> r.wf(),
    {
        Game { game_state: GameState::Playing, ..self }
    }

    /// Play one atomic round from the submitted move list: apply each
    /// participant's completion effect, resolve the kill set against the
    /// submitted moves (never against post-completion state), apply the
    /// kills, and end the game if exactly one participant is left alive.
    ///
    /// The caller must pre-validate the moves: ids are unique, every
    /// embedded target has its own entry, and every submitting participant
    /// can pay its move (`can_do_move`); the engine does not re-validate.
    pub fn process_turn(self, moves: &Vec<(PlayerId, Move)>) -> (r: Game)
        requires
            self.wf(),
            self.game_state is Playing,
            spec_unique_ids(moves@),
            forall|i: int|
                0 <= i < moves@.len() ==> spec_targets_present((#[trigger] moves@[i]).1, moves@),
            forall|i: int|
                0 <= i < self.players@.len() && spec_has_entry(
                    moves@,
                    (#[trigger] self.players@[i]).id,
                ) ==> spec_move_of(moves@, self.players@[i].id).spec_cost()
                    <= self.players@[i].charges && self.players@[i].spec_charges_after_move(
                    spec_move_of(moves@, self.players@[i].id),
                ) <= u8::MAX,
        ensures
            r.id == self.id,
            r.players@ == spec_round_players(self.players@, moves@),
            r.game_state == (match spec_winner(r.players@) {
                Some(w) => (GameState::Ended { winner: w }),
                None => GameState::Playing,
            }),
            r.wf(),
    {
        let mut new_players: Vec<Player> = Vec::new();
        let mut i: usize = 0;
        #[verifier::loop_isolation(false)]
        while i < self.players.len()
            invariant
                0 <= i <= self.players@.len(),
                new_players@.len() == i,
                forall|j: int|
                    0 <= j < i ==> new_players@[j] == spec_round_player(
                        self.players@[j],
                        moves@,
                    ),
            decreases self.players@.len() - i,
        {
            let p = &self.players[i];
            let completed = match Self::lookup_move(moves, p.id) {
                Some(m) => p.move_completed(m),
                None => p.clone(),
            };
            let next = if Self::is_killed(p.id, moves) {
                completed.kill()
            } else {
                completed
            };
            new_players.push(next);
            i = i + 1;
        }
        assert(new_players@ =~= spec_round_players(self.players@, moves@));
        assert forall|j: int| 0 <= j < new_players@.len() implies (#[trigger] new_players@[j]).wf()
            && new_players@[j].id == self.players@[j].id by {
            Self::lemma_round_player_wf(self.players@[j], moves@);
        }
        let winner = Self::get_winner(&new_players);
        let game_state = match winner {
            Some(w) => GameState::Ended { winner: w },
            None => GameState::Playing,
        };
        Game { id: self.id, players: new_players, game_state }
    }

    /// One round keeps a well-formed participant well formed and never
    /// changes its id.
    proof fn lemma_round_player_wf(p: Player, moves: Seq<(PlayerId, Move)>)
        requires
            p.wf(),
            spec_has_entry(moves, p.id) ==> spec_move_of(moves, p.id).spec_cost() <= p.charges
                && p.spec_charges_after_move(spec_move_of(moves, p.id)) <= u8::MAX,
        ensures
            spec_round_player(p, moves).wf(),
            spec_round_player(p, moves).id == p.id,
    {
    }

    /// Resolve one participant's submitted move against the round's full
    /// move list, by the fixed priority table.
    pub fn result_of_player_move(
        player: PlayerId,
        player_move: Move,
        moves: &Vec<(PlayerId, Move)>,
    ) -> (r: MoveResult)
        requires
            spec_unique_ids(moves@),
            spec_targets_present(player_move, moves@),
        ensures
            r == spec_result_of(player, player_move, moves@),
    {
        match player_move {
            Move::Kamehameha { target } => {
                let targets_move = match Self::lookup_move(moves, target) {
                    Some(m) => m,
                    None => unreached(),
                };
                match targets_move {
                    Move::Charge => MoveResult::Kill(target),
                    Move::SuperSaiyan => MoveResult::Kill(target),
                    Move::Reflect => MoveResult::Kill(player),
                    Move::Kamehameha { target: aimed_at } => if aimed_at == player {
                        MoveResult::NoKill
                    } else {
                        MoveResult::Kill(target)
                    },
                    _ => MoveResult::NoKill,
                }
            },
            Move::Disk { target } => {
                let targets_move = match Self::lookup_move(moves, target) {
                    Some(m) => m,
                    None => unreached(),
                };
                match targets_move {
                    Move::Charge => MoveResult::Kill(target),
                    Move::SuperSaiyan => MoveResult::Kill(target),
                    Move::Reflect => MoveResult::Kill(player),
                    Move::Kamehameha { .. } => MoveResult::Kill(target),
                    Move::Disk { target: aimed_at } => if aimed_at == player {
                        MoveResult::NoKill
                    } else {
                        MoveResult::Kill(target)
                    },
                    _ => MoveResult::NoKill,
                }
            },
            Move::SpecialBeam { target } => {
                let targets_move = match Self::lookup_move(moves, target) {
                    Some(m) => m,
                    None => unreached(),
                };
                match targets_move {
                    Move::Charge => MoveResult::Kill(target),
                    Move::Block => MoveResult::Kill(target),
                    Move::SuperSaiyan => MoveResult::Kill(target),
                    Move::Reflect => MoveResult::Kill(player),
                    Move::Kamehameha { .. } => MoveResult::Kill(target),
                    Move::Disk { .. } => MoveResult::Kill(target),
                    Move::SpecialBeam { target: aimed_at } => if aimed_at == player {
                        MoveResult::NoKill
                    } else {
                        MoveResult::Kill(target)
                    },
                    _ => MoveResult::NoKill,
                }
            },
            Move::SpiritBomb => MoveResult::AllKill { attacker: player },
            _ => MoveResult::NoKill,
        }
    }

    /// Whether the round's kill set names `pid`: some submitted move
    /// resolves to a kill of it.
    fn is_killed(pid: PlayerId, moves: &Vec<(PlayerId, Move)>) -> (r: bool)
        requires
            spec_unique_ids(moves@),
            forall|i: int| 0 <= i < moves@.len() ==> spec_targets_present(
                (#[trigger] moves@[i]).1,
                moves@,
            ),
        ensures
            r == spec_killed(moves@, pid),
    {
        let mut i: usize = 0;
        while i < moves.len()
            invariant
                spec_unique_ids(moves@),
                forall|k: int| 0 <= k < moves@.len() ==> spec_targets_present(
                    (#[trigger] moves@[k]).1,
                    moves@,
                ),
                0 <= i <= moves@.len(),
                forall|j: int| 0 <= j < i ==> !spec_entry_kills(moves@, j, pid),
            decreases moves@.len() - i,
        {
            let entry = moves[i];
            let result = Self::result_of_player_move(entry.0, entry.1, moves);
            match result {
                MoveResult::NoKill => {},
                MoveResult::Kill(t) => {
                    if t == pid {
                        assert(spec_entry_kills(moves@, i as int, pid));
                        return true;
                    }
                },
                MoveResult::AllKill { attacker } => {
                    if attacker != pid {
                        assert(spec_entry_kills(moves@, i as int, pid));
                        return true;
                    }
                },
            }
            i = i + 1;
        }
        false
    }

    /// The sole survivor's id, if the roster holds exactly one participant
    /// that is not dead.
    fn get_winner(players: &Vec<Player>) -> (r: Option<PlayerId>)
        ensures
            r == spec_winner(players@),
    {
        let mut alive: Vec<PlayerId> = Vec::new();
        let mut i: usize = 0;
        while i < players.len()
            invariant
                0 <= i <= players@.len(),
                alive@ == spec_alive_ids(players@.subrange(0, i as int)),
            decreases players@.len() - i,
        {
            let ghost prefix = players@.subrange(0, i as int);
            if !players[i].is_dead() {
                alive.push(players[i].id);
            }
            proof {
                let next = players@.subrange(0, i + 1 as int);
                assert(next.drop_last() =~= prefix);
                assert(next.last() == players@[i as int]);
            }
            i = i + 1;
        }
        proof {
            assert(players@.subrange(0, players@.len() as int) =~= players@);
        }
        if alive.len() == 1 {
            Some(alive[0])
        } else {
            None
        }
    }

    /// The move that `pid` submitted this round, if it submitted one.
    fn lookup_move(moves: &Vec<(PlayerId, Move)>, pid: PlayerId) -> (r: Option<Move>)
        requires
            spec_unique_ids(moves@),
        ensures
            r matches Some(m) ==> spec_has_entry(moves@, pid) && m == spec_move_of(moves@, pid),
            r is None ==> !spec_has_entry(moves@, pid),
    {
        let mut i: usize = 0;
        while i < moves.len()
            invariant
                spec_unique_ids(moves@),
                0 <= i <= moves@.len(),
                forall|j: int| 0 <= j < i ==> moves@[j].0 != pid,
            decreases moves@.len() - i,
        {
            if moves[i].0 == pid {
                proof {
                    lemma_move_of_entry(moves@, i as int);
                }
                return Some(moves[i].1);
            }
            i = i + 1;
        }
        None
    }
}

} // verus!
