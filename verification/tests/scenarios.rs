use game::game::{Game, GameState, MoveResult};
use game::moves::Move;
use game::player::{Player, PlayerId, PlayerState};

fn roster_player(g: &Game, id: PlayerId) -> &Player {
    g.players.iter().find(|p| p.id == id).expect("roster holds the id")
}

fn all_charge(mut g: Game, ids: &[PlayerId], rounds: usize) -> Game {
    for _ in 0..rounds {
        let turn: Vec<(PlayerId, Move)> = ids.iter().map(|id| (*id, Move::Charge)).collect();
        g = g.process_turn(&turn);
    }
    g
}

#[test]
fn move_costs_are_fixed() {
    assert_eq!(Move::Charge.cost(), 0);
    assert_eq!(Move::Block.cost(), 0);
    assert_eq!(Move::Kamehameha { target: 9 }.cost(), 1);
    assert_eq!(Move::Disk { target: 9 }.cost(), 2);
    assert_eq!(Move::SuperSaiyan.cost(), 3);
    assert_eq!(Move::Reflect.cost(), 4);
    assert_eq!(Move::SpecialBeam { target: 9 }.cost(), 5);
    assert_eq!(Move::SpiritBomb.cost(), 7);
}

#[test]
fn kill_is_idempotent_on_dead() {
    let dead = Player::new(1, "Jonny").kill();
    assert_eq!(dead.state, PlayerState::Dead);
    let dead_again = dead.kill();
    assert_eq!(dead_again.state, dead.state);
    assert_eq!(dead_again.charges, dead.charges);
    assert_eq!(dead_again.id, dead.id);
}

#[test]
fn boosted_extra_life_then_death() {
    let mut player = Player::new(1, "Jonny");
    for _ in 0..3 {
        player = player.move_completed(Move::Charge);
    }
    player = player.move_completed(Move::Charge); // charges : 4
    player = player.move_completed(Move::SuperSaiyan); // charges : 1
    let once = player.kill();
    assert_eq!(once.state, PlayerState::Alive);
    assert_eq!(once.charges, 1); // charges kept through the extra life
    let twice = once.kill();
    assert_eq!(twice.state, PlayerState::Dead);
    assert_eq!(twice.charges, 0);
}

#[test]
fn cannot_reboost_while_boosted() {
    let mut player = Player::new(1, "Jonny");
    for _ in 0..6 {
        player = player.move_completed(Move::Charge);
    }
    assert!(player.can_do_move(Move::SuperSaiyan));
    player = player.move_completed(Move::SuperSaiyan); // charges : 3
    assert_eq!(player.state, PlayerState::SuperSaiyan);
    assert!(!player.can_do_move(Move::SuperSaiyan));
}

#[test]
fn attack_outcomes_follow_the_table() {
    let moves: Vec<(PlayerId, Move)> = vec![
        (1, Move::Kamehameha { target: 2 }),
        (2, Move::Block),
        (3, Move::Disk { target: 4 }),
        (4, Move::Kamehameha { target: 3 }),
        (5, Move::SpecialBeam { target: 2 }),
        (6, Move::Kamehameha { target: 4 }),
    ];
    // a plain block rides out a weak attack
    assert_eq!(
        Game::result_of_player_move(1, Move::Kamehameha { target: 2 }, &moves),
        MoveResult::NoKill
    );
    // a lower-tier answer dies to a medium attack, even aimed back
    assert_eq!(
        Game::result_of_player_move(3, Move::Disk { target: 4 }, &moves),
        MoveResult::Kill(4)
    );
    // a strictly higher-tier attack rides out a weak one
    assert_eq!(
        Game::result_of_player_move(4, Move::Kamehameha { target: 3 }, &moves),
        MoveResult::NoKill
    );
    // a strong attack goes through a block
    assert_eq!(
        Game::result_of_player_move(5, Move::SpecialBeam { target: 2 }, &moves),
        MoveResult::Kill(2)
    );
    // a same-tier clash aimed at a third party kills the actor's target
    assert_eq!(
        Game::result_of_player_move(6, Move::Kamehameha { target: 4 }, &moves),
        MoveResult::Kill(4)
    );
}

#[test]
fn mutual_same_tier_attacks_cancel() {
    let moves: Vec<(PlayerId, Move)> = vec![
        (1, Move::Kamehameha { target: 2 }),
        (2, Move::Kamehameha { target: 1 }),
    ];
    assert_eq!(
        Game::result_of_player_move(1, Move::Kamehameha { target: 2 }, &moves),
        MoveResult::NoKill
    );
    assert_eq!(
        Game::result_of_player_move(2, Move::Kamehameha { target: 1 }, &moves),
        MoveResult::NoKill
    );

    // end to end: nobody dies and the game keeps going
    let game = Game::new(1)
        .add_player(Player::new(1, "John"))
        .add_player(Player::new(2, "Mark"))
        .start_game();
    let game = all_charge(game, &[1, 2], 1);
    let game = game.process_turn(&moves);
    assert!(!roster_player(&game, 1).is_dead());
    assert!(!roster_player(&game, 2).is_dead());
    assert_eq!(game.game_state, GameState::Playing);
}

#[test]
fn spirit_bomb_kills_everyone_but_the_caster() {
    let game = Game::new(1)
        .add_player(Player::new(1, "John"))
        .add_player(Player::new(2, "Mark"))
        .add_player(Player::new(3, "Jonny"))
        .start_game();
    let game = all_charge(game, &[1, 2, 3], 7);
    let turn: Vec<(PlayerId, Move)> = vec![
        (1, Move::SpiritBomb),
        (2, Move::Charge),
        (3, Move::Charge),
    ];
    let game = game.process_turn(&turn);
    assert!(!roster_player(&game, 1).is_dead());
    assert!(roster_player(&game, 2).is_dead());
    assert!(roster_player(&game, 3).is_dead());
    assert_eq!(game.game_state, GameState::Ended { winner: 1 });
}

#[test]
fn two_spirit_bombs_leave_nobody_standing() {
    let game = Game::new(1)
        .add_player(Player::new(1, "John"))
        .add_player(Player::new(2, "Mark"))
        .start_game();
    let game = all_charge(game, &[1, 2], 7);
    let turn: Vec<(PlayerId, Move)> = vec![(1, Move::SpiritBomb), (2, Move::SpiritBomb)];
    let game = game.process_turn(&turn);
    assert!(roster_player(&game, 1).is_dead());
    assert!(roster_player(&game, 2).is_dead());
    // with no survivor there is no winner: the game stays open
    assert_eq!(game.game_state, GameState::Playing);
}

#[test]
fn charge_then_weak_attack_ends_the_game() {
    let a = Player::new(1, "John");
    let b = Player::new(2, "Mark");
    let game = Game::new(7).add_player(a).add_player(b).start_game();
    let turn1: Vec<(PlayerId, Move)> = vec![(1, Move::Charge), (2, Move::Charge)];
    let game = game.process_turn(&turn1);
    assert_eq!(roster_player(&game, 1).charges, 1);
    assert_eq!(roster_player(&game, 2).charges, 1);
    let turn2: Vec<(PlayerId, Move)> =
        vec![(1, Move::Kamehameha { target: 2 }), (2, Move::Charge)];
    let game = game.process_turn(&turn2);
    assert!(roster_player(&game, 2).is_dead());
    assert_eq!(game.game_state, GameState::Ended { winner: 1 });
}

#[test]
fn boost_spends_cost_and_extra_life_saves_from_weak_attack() {
    let game = Game::new(3)
        .add_player(Player::new(1, "John"))
        .add_player(Player::new(2, "Mark"))
        .add_player(Player::new(3, "Jonny"))
        .start_game();
    let game = all_charge(game, &[1, 2, 3], 3);
    assert_eq!(roster_player(&game, 1).charges, 3);
    assert_eq!(roster_player(&game, 2).charges, 3);
    assert_eq!(roster_player(&game, 3).charges, 3);

    let boost_turn: Vec<(PlayerId, Move)> =
        vec![(1, Move::SuperSaiyan), (2, Move::Charge), (3, Move::Charge)];
    let game = game.process_turn(&boost_turn);
    assert_eq!(roster_player(&game, 1).state, PlayerState::SuperSaiyan);
    assert_eq!(roster_player(&game, 1).charges, 0);

    let attack_turn: Vec<(PlayerId, Move)> = vec![
        (1, Move::Charge),
        (2, Move::Kamehameha { target: 1 }),
        (3, Move::Charge),
    ];
    let game = game.process_turn(&attack_turn);
    let a = roster_player(&game, 1);
    assert_eq!(a.state, PlayerState::Alive); // the extra life is consumed
    assert_eq!(a.charges, 2); // a boosted charge, kept through the kill
    assert_eq!(game.game_state, GameState::Playing);
}

#[test]
fn reflect_turns_a_medium_attack_on_its_source() {
    let game = Game::new(8)
        .add_player(Player::new(1, "John"))
        .add_player(Player::new(2, "Mark"))
        .start_game();
    let game = all_charge(game, &[1, 2], 4);
    let turn: Vec<(PlayerId, Move)> = vec![(1, Move::Disk { target: 2 }), (2, Move::Reflect)];
    let game = game.process_turn(&turn);
    assert!(roster_player(&game, 1).is_dead());
    let b = roster_player(&game, 2);
    assert_eq!(b.state, PlayerState::Alive);
    assert_eq!(b.charges, 0); // 4 charges spent on the reflect, untouched by the kill
    assert_eq!(game.game_state, GameState::Ended { winner: 2 });
}

#[test]
fn adding_a_player_twice_replaces_it() {
    let game = Game::new(5)
        .add_player(Player::new(1, "John"))
        .add_player(Player::new(1, "Mark"));
    assert_eq!(game.players.len(), 1);
    assert_eq!(roster_player(&game, 1).nickname, "Mark");
}

#[test]
fn starting_twice_is_idempotent() {
    let game = Game::new(6).add_player(Player::new(1, "John")).start_game().start_game();
    assert_eq!(game.game_state, GameState::Playing);
}
