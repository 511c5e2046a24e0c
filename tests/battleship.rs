use std::collections::HashMap;

use soroban_sdk::Env;
use zk_session_games::battleship::{
    BattleshipContract, Error, Game, GamePhase, ShipType, ShotResult,
};
use zk_session_games::player::PlayerId;

/// A session store, game hub and proof verifier around the contract logic,
/// as a deployment provides them. The verifier accepts a payload whose first
/// byte is 1.
struct Harness {
    env: Env,
    games: HashMap<u32, Game>,
    started: Vec<u32>,
    ended: Vec<(u32, bool)>,
}

fn player(tag: &str) -> PlayerId {
    let mut text = format!("GC{}", tag).into_bytes();
    text.resize(56, b'A');
    PlayerId::new(text)
}

fn setup_test() -> (Harness, PlayerId, PlayerId, [u8; 32], [u8; 32]) {
    let h = Harness { env: Env::default(), games: HashMap::new(), started: Vec::new(), ended: Vec::new() };
    (h, player("PLAYER1"), player("PLAYER2"), [11u8; 32], [22u8; 32])
}

fn valid_proof() -> Vec<u8> {
    vec![1u8]
}

fn invalid_proof() -> Vec<u8> {
    vec![0u8]
}

impl Harness {
    fn start_game(&mut self, id: u32, first: &PlayerId, second: &PlayerId, a: i128, b: i128) -> Result<(), Error> {
        let exists = self.games.contains_key(&id);
        let game = BattleshipContract::start_game(exists, first.clone(), second.clone(), a, b)?;
        self.started.push(id);
        self.games.insert(id, game);
        Ok(())
    }

    fn commit_board(&mut self, id: u32, p: &PlayerId, board: &[u8; 32]) -> Result<(), Error> {
        let game = self.games.get_mut(&id).ok_or(Error::GameNotFound)?;
        BattleshipContract::commit_board(game, p, *board)
    }

    fn fire(&mut self, id: u32, p: &PlayerId, x: u32, y: u32) -> Result<(), Error> {
        let game = self.games.get_mut(&id).ok_or(Error::GameNotFound)?;
        BattleshipContract::fire(game, p, x, y)
    }

    fn build_public_inputs_hash(
        &self,
        id: u32,
        defender: &PlayerId,
        shooter: &PlayerId,
        x: u32,
        y: u32,
        is_hit: bool,
        sunk_ship: u32,
        board: &[u8; 32],
    ) -> [u8; 32] {
        BattleshipContract::build_public_inputs_hash(
            &self.env, id, defender, shooter, x, y, is_hit, sunk_ship, board,
        )
    }

    fn resolve_shot(
        &mut self,
        id: u32,
        defender: &PlayerId,
        is_hit: bool,
        sunk_ship: u32,
        proof: &[u8],
        hash: &[u8; 32],
    ) -> Result<ShotResult, Error> {
        let game = self.games.get_mut(&id).ok_or(Error::GameNotFound)?;
        BattleshipContract::resolve_request(&self.env, game, id, defender, is_hit, sunk_ship, hash)?;
        let verdict = !proof.is_empty() && proof[0] == 1;
        let first = game.player1.clone();
        let result =
            BattleshipContract::resolve_shot(&self.env, game, id, defender, is_hit, sunk_ship, hash, verdict)?;
        if let Some(w) = &result.winner {
            self.ended.push((id, *w == first));
        }
        Ok(result)
    }

    fn resolve_pending(
        &mut self,
        id: u32,
        defender: &PlayerId,
        shooter: &PlayerId,
        x: u32,
        y: u32,
        is_hit: bool,
        sunk_ship: u32,
        board: &[u8; 32],
        proof: &[u8],
    ) {
        let hash = self.build_public_inputs_hash(id, defender, shooter, x, y, is_hit, sunk_ship, board);
        self.resolve_shot(id, defender, is_hit, sunk_ship, proof, &hash).unwrap();
    }

    fn get_game(&self, id: u32) -> Game {
        self.games.get(&id).cloned().unwrap()
    }

    fn in_progress(&mut self, id: u32, first: &PlayerId, second: &PlayerId, b1: &[u8; 32], b2: &[u8; 32]) {
        self.start_game(id, first, second, 1, 1).unwrap();
        self.commit_board(id, first, b1).unwrap();
        self.commit_board(id, second, b2).unwrap();
    }
}

#[test]
fn test_start_commit_fire_resolve_flow() {
    let (mut h, player1, player2, board1, board2) = setup_test();
    let session_id = 1u32;
    let points = 100_0000000;

    h.start_game(session_id, &player1, &player2, points, points).unwrap();
    assert!(h.started.contains(&session_id));

    let before = h.get_game(session_id);
    assert_eq!(before.phase, GamePhase::WaitingForBoards);

    h.commit_board(session_id, &player1, &board1).unwrap();
    h.commit_board(session_id, &player2, &board2).unwrap();

    let in_progress = h.get_game(session_id);
    assert_eq!(in_progress.phase, GamePhase::InProgress);
    assert_eq!(in_progress.turn, Some(player1.clone()));

    h.fire(session_id, &player1, 3, 7).unwrap();
    h.resolve_pending(session_id, &player2, &player1, 3, 7, true, 0, &board2, &valid_proof());

    let after = h.get_game(session_id);
    assert_eq!(after.hits_on_p2, 1);
    assert_eq!(after.turn, Some(player2));
    assert!(after.pending_shot.is_none());
}

#[test]
fn test_fire_requires_0_to_9_coordinates() {
    let (mut h, player1, player2, board1, board2) = setup_test();
    let session_id = 2u32;
    h.in_progress(session_id, &player1, &player2, &board1, &board2);

    let before = h.get_game(session_id);
    assert_eq!(h.fire(session_id, &player1, 10, 0), Err(Error::InvalidCoordinate));
    assert_eq!(h.fire(session_id, &player1, 0, 10), Err(Error::InvalidCoordinate));
    assert_eq!(h.get_game(session_id), before);
}

#[test]
fn test_anyone_can_resolve_with_valid_payload() {
    let (mut h, player1, player2, board1, board2) = setup_test();
    let session_id = 3u32;
    h.in_progress(session_id, &player1, &player2, &board1, &board2);
    h.fire(session_id, &player1, 0, 0).unwrap();

    let hash = h.build_public_inputs_hash(session_id, &player2, &player1, 0, 0, false, 0, &board2);
    // Resolution names no caller: whoever holds a valid proof may submit it.
    h.resolve_shot(session_id, &player2, false, 0, &valid_proof(), &hash).unwrap();

    let game = h.get_game(session_id);
    assert_eq!(game.turn, Some(player2));
}

#[test]
fn test_reject_invalid_hash_or_proof() {
    let (mut h, player1, player2, board1, board2) = setup_test();
    let session_id = 4u32;
    h.in_progress(session_id, &player1, &player2, &board1, &board2);
    h.fire(session_id, &player1, 1, 1).unwrap();

    let wrong_hash = [9u8; 32];
    let bad_hash_result = h.resolve_shot(session_id, &player2, true, 0, &valid_proof(), &wrong_hash);
    assert_eq!(bad_hash_result, Err(Error::InvalidPublicInputsHash));

    let valid_hash = h.build_public_inputs_hash(session_id, &player2, &player1, 1, 1, true, 0, &board2);
    let bad_proof_result = h.resolve_shot(session_id, &player2, true, 0, &invalid_proof(), &valid_hash);
    assert_eq!(bad_proof_result, Err(Error::InvalidProof));
}

#[test]
fn test_ship_sunk_cannot_be_reported_twice() {
    let (mut h, player1, player2, board1, board2) = setup_test();
    let session_id = 5u32;
    h.in_progress(session_id, &player1, &player2, &board1, &board2);

    h.fire(session_id, &player1, 2, 2).unwrap();
    h.resolve_pending(session_id, &player2, &player1, 2, 2, true, 5, &board2, &valid_proof());

    h.fire(session_id, &player2, 9, 9).unwrap();
    h.resolve_pending(session_id, &player1, &player2, 9, 9, false, 0, &board1, &valid_proof());

    h.fire(session_id, &player1, 2, 3).unwrap();
    let hash = h.build_public_inputs_hash(session_id, &player2, &player1, 2, 3, true, 5, &board2);
    let result = h.resolve_shot(session_id, &player2, true, 5, &valid_proof(), &hash);
    assert_eq!(result, Err(Error::ShipAlreadySunk));
}

#[test]
fn test_duplicate_coordinate_rejected_for_same_shooter() {
    let (mut h, player1, player2, board1, board2) = setup_test();
    let session_id = 6u32;
    h.in_progress(session_id, &player1, &player2, &board1, &board2);

    h.fire(session_id, &player1, 1, 1).unwrap();
    h.resolve_pending(session_id, &player2, &player1, 1, 1, false, 0, &board2, &valid_proof());

    h.fire(session_id, &player2, 0, 0).unwrap();
    h.resolve_pending(session_id, &player1, &player2, 0, 0, false, 0, &board1, &valid_proof());

    assert_eq!(h.fire(session_id, &player1, 1, 1), Err(Error::ShotAlreadyResolved));
}

#[test]
fn test_win_at_17_hits_ends_in_game_hub() {
    let (mut h, player1, player2, board1, board2) = setup_test();
    let session_id = 7u32;
    h.in_progress(session_id, &player1, &player2, &board1, &board2);

    let mut p2_index = 0u32;
    for i in 0..17u32 {
        let x1 = i % 10;
        let y1 = i / 10;
        h.fire(session_id, &player1, x1, y1).unwrap();
        h.resolve_pending(session_id, &player2, &player1, x1, y1, true, 0, &board2, &valid_proof());

        if i == 16 {
            break;
        }

        let x2 = 9 - (p2_index % 10);
        let y2 = 9 - (p2_index / 10);
        p2_index += 1;

        h.fire(session_id, &player2, x2, y2).unwrap();
        h.resolve_pending(session_id, &player1, &player2, x2, y2, false, 0, &board1, &valid_proof());
    }

    let game = h.get_game(session_id);
    assert_eq!(game.phase, GamePhase::Ended);
    assert_eq!(game.winner, Some(player1));
    assert_eq!(game.hits_on_p2, 17);
    assert_eq!(h.ended, vec![(session_id, true)]);
}

#[test]
fn test_rules_expose_standard_ship_sizes() {
    let rules = BattleshipContract::get_rules();
    assert_eq!(rules.board_size, 10);
    assert_eq!(rules.carrier_len, 5);
    assert_eq!(rules.battleship_len, 4);
    assert_eq!(rules.cruiser_len, 3);
    assert_eq!(rules.submarine_len, 3);
    assert_eq!(rules.destroyer_len, 2);
    assert_eq!(rules.total_ship_cells, 17);
}

#[test]
fn bitmap_population_counts_resolved_shots() {
    let (mut h, player1, player2, board1, board2) = setup_test();
    let id = 20u32;
    h.in_progress(id, &player1, &player2, &board1, &board2);
    let cells = [(0u32, 0u32), (9, 9), (4, 5), (7, 2)];
    for (k, (x, y)) in cells.iter().enumerate() {
        h.fire(id, &player1, *x, *y).unwrap();
        let g = h.get_game(id);
        assert_eq!(g.shots_p1_to_p2.count_ones() as usize, k);
        h.resolve_pending(id, &player2, &player1, *x, *y, k % 2 == 0, 0, &board2, &valid_proof());
        let g = h.get_game(id);
        assert_eq!(g.shots_p1_to_p2.count_ones() as usize, k + 1);
        assert_ne!(g.shots_p1_to_p2 & (1u128 << (y * 10 + x)), 0);
        assert_eq!(g.shots_p2_to_p1.count_ones() as usize, k);
        h.fire(id, &player2, *x, *y).unwrap();
        h.resolve_pending(id, &player1, &player2, *x, *y, false, 0, &board1, &valid_proof());
    }
    let g = h.get_game(id);
    assert_eq!(g.shots_p1_to_p2.count_ones(), 4);
    assert_eq!(g.shots_p2_to_p1.count_ones(), 4);
    assert_eq!(g.hits_on_p2, 2);
}

#[test]
fn resolved_cell_is_refused_for_the_same_shooter_only() {
    let (mut h, player1, player2, board1, board2) = setup_test();
    let id = 21u32;
    h.in_progress(id, &player1, &player2, &board1, &board2);
    h.fire(id, &player1, 5, 5).unwrap();
    h.resolve_pending(id, &player2, &player1, 5, 5, false, 0, &board2, &valid_proof());
    // The other player may still fire at the same cell of the other board.
    h.fire(id, &player2, 5, 5).unwrap();
    h.resolve_pending(id, &player1, &player2, 5, 5, false, 0, &board1, &valid_proof());
    let before = h.get_game(id);
    assert_eq!(h.fire(id, &player1, 5, 5), Err(Error::ShotAlreadyResolved));
    assert_eq!(h.get_game(id), before);
}

#[test]
fn ended_game_refuses_every_move() {
    let (mut h, player1, player2, board1, board2) = setup_test();
    let id = 22u32;
    h.in_progress(id, &player1, &player2, &board1, &board2);
    let mut g = h.get_game(id);
    g.hits_on_p2 = 16;
    h.games.insert(id, g);
    h.fire(id, &player1, 0, 0).unwrap();
    let hash = h.build_public_inputs_hash(id, &player2, &player1, 0, 0, true, 0, &board2);
    let r = h.resolve_shot(id, &player2, true, 0, &valid_proof(), &hash).unwrap();
    assert_eq!(r.winner, Some(player1.clone()));
    assert_eq!(r.next_turn, None);
    let g = h.get_game(id);
    assert_eq!(g.phase, GamePhase::Ended);
    assert_eq!(g.winner, Some(player1.clone()));
    assert_eq!(g.turn, None);
    assert_eq!(h.fire(id, &player2, 0, 0), Err(Error::GameAlreadyEnded));
    assert_eq!(h.commit_board(id, &player2, &board2), Err(Error::GameAlreadyEnded));
    assert_eq!(h.resolve_shot(id, &player1, false, 0, &valid_proof(), &hash), Err(Error::GameAlreadyEnded));
}

#[test]
fn shot_hash_known_answer() {
    let (h, player1, player2, _board1, board2) = setup_test();
    let hash = h.build_public_inputs_hash(1, &player2, &player1, 3, 7, true, 0, &board2);
    let expected = "74465e530b52e726a8f72b6d1d49e83c5905b6feaeb7a35e7449a244348b3853";
    let hex: String = hash.iter().map(|b| format!("{:02x}", b)).collect();
    assert_eq!(hex, expected);
}

#[test]
fn shot_preimage_layout() {
    let (_h, player1, player2, _board1, board2) = setup_test();
    let pre = BattleshipContract::shot_hash_preimage(0x01020304, &player2, &player1, 3, 7, true, 5, &board2);
    assert_eq!(&pre[0..4], &[1, 2, 3, 4]);
    assert_eq!(&pre[4..8], &[0, 0, 0, 3]);
    assert_eq!(&pre[8..12], &[0, 0, 0, 7]);
    assert_eq!(pre[12], 1);
    assert_eq!(&pre[13..17], &[0, 0, 0, 5]);
    assert_eq!(&pre[17..49], &board2);
    assert_eq!(&pre[49..105], player2.text.as_slice());
    assert_eq!(&pre[105..], player1.text.as_slice());
}

#[test]
fn shot_hash_changes_with_every_field() {
    let (h, first, second, b1, b2) = setup_test();
    let base = h.build_public_inputs_hash(1, &second, &first, 3, 7, true, 1, &b2);
    assert_eq!(base, h.build_public_inputs_hash(1, &second, &first, 3, 7, true, 1, &b2));
    let variants = [
        h.build_public_inputs_hash(2, &second, &first, 3, 7, true, 1, &b2),
        h.build_public_inputs_hash(1, &first, &first, 3, 7, true, 1, &b2),
        h.build_public_inputs_hash(1, &second, &second, 3, 7, true, 1, &b2),
        h.build_public_inputs_hash(1, &second, &first, 4, 7, true, 1, &b2),
        h.build_public_inputs_hash(1, &second, &first, 3, 8, true, 1, &b2),
        h.build_public_inputs_hash(1, &second, &first, 3, 7, false, 1, &b2),
        h.build_public_inputs_hash(1, &second, &first, 3, 7, true, 2, &b2),
        h.build_public_inputs_hash(1, &second, &first, 3, 7, true, 1, &b1),
    ];
    for v in variants.iter() {
        assert_ne!(*v, base);
    }
    let pre = BattleshipContract::shot_hash_preimage(1, &second, &first, 3, 7, true, 1, &b2);
    assert_ne!(&base[..], &pre[..32]);
}

#[test]
fn coordinate_bits_and_ship_codes() {
    assert_eq!(BattleshipContract::coord_to_bit(3, 7), Ok(1u128 << 73));
    assert_eq!(BattleshipContract::coord_to_bit(9, 9), Ok(1u128 << 99));
    assert_eq!(BattleshipContract::coord_to_bit(10, 9), Err(Error::InvalidCoordinate));
    assert_eq!(BattleshipContract::parse_ship_type(0), Ok(None));
    assert_eq!(BattleshipContract::parse_ship_type(1), Ok(Some(ShipType::Carrier)));
    assert_eq!(BattleshipContract::parse_ship_type(5), Ok(Some(ShipType::Destroyer)));
    assert_eq!(BattleshipContract::parse_ship_type(6), Err(Error::InvalidShipType));
    assert_eq!(BattleshipContract::ship_bit(ShipType::Carrier), 1);
    assert_eq!(BattleshipContract::ship_bit(ShipType::Cruiser), 4);
    assert_eq!(BattleshipContract::ship_bit(ShipType::Destroyer), 16);
}

#[test]
fn opponent_of_each_player() {
    let (mut h, first, second, _b1, _b2) = setup_test();
    h.start_game(30, &first, &second, 1, 1).unwrap();
    let g = h.get_game(30);
    assert_eq!(BattleshipContract::opponent(&g, &first), Ok(second.clone()));
    assert_eq!(BattleshipContract::opponent(&g, &second), Ok(first.clone()));
    assert_eq!(BattleshipContract::opponent(&g, &player("OTHER")), Err(Error::NotPlayer));
}

#[test]
fn session_setup_errors() {
    let (mut h, first, second, b1, b2) = setup_test();
    assert_eq!(h.start_game(40, &first, &first, 1, 1), Err(Error::SelfPlayNotAllowed));
    h.start_game(40, &first, &second, 1, 1).unwrap();
    assert_eq!(h.start_game(40, &first, &second, 1, 1), Err(Error::GameAlreadyExists));
    assert_eq!(h.commit_board(41, &first, &b1), Err(Error::GameNotFound));
    assert_eq!(h.commit_board(40, &player("OTHER"), &b1), Err(Error::NotPlayer));
    assert_eq!(h.fire(40, &first, 0, 0), Err(Error::InvalidPhase));
    h.commit_board(40, &first, &b1).unwrap();
    assert_eq!(h.commit_board(40, &first, &b2), Err(Error::BoardAlreadyCommitted));
    assert_eq!(h.get_game(40).phase, GamePhase::WaitingForBoards);
    h.commit_board(40, &second, &b2).unwrap();
    assert_eq!(h.commit_board(40, &second, &b2), Err(Error::InvalidPhase));
}

#[test]
fn move_errors() {
    let (mut h, first, second, b1, b2) = setup_test();
    let id = 50u32;
    h.in_progress(id, &first, &second, &b1, &b2);
    let hash = [0u8; 32];
    assert_eq!(h.resolve_shot(id, &second, false, 0, &valid_proof(), &hash), Err(Error::NoPendingShot));
    assert_eq!(h.fire(id, &second, 0, 0), Err(Error::NotYourTurn));
    h.fire(id, &first, 0, 0).unwrap();
    assert_eq!(h.fire(id, &first, 1, 0), Err(Error::PendingShotExists));
    assert_eq!(h.resolve_shot(id, &first, false, 0, &valid_proof(), &hash), Err(Error::InvalidDefender));
    assert_eq!(h.resolve_shot(id, &second, true, 9, &valid_proof(), &hash), Err(Error::InvalidShipType));
    assert_eq!(h.resolve_shot(id, &second, false, 3, &valid_proof(), &hash), Err(Error::InvalidSunkShip));
    let g = h.get_game(id);
    assert!(g.pending_shot.is_some());
    assert_eq!(g.shots_p1_to_p2, 0);
}

#[test]
fn last_result_is_shown_until_next_shot() {
    let (mut h, first, second, b1, b2) = setup_test();
    let id = 60u32;
    h.in_progress(id, &first, &second, &b1, &b2);
    h.fire(id, &first, 2, 2).unwrap();
    h.resolve_pending(id, &second, &first, 2, 2, true, 4, &b2, &valid_proof());
    let last = h.get_game(id).last_shot_result.unwrap();
    assert!(last.is_hit);
    assert_eq!(last.sunk_ship, Some(ShipType::Submarine));
    assert_eq!(last.next_turn, Some(second.clone()));
    assert_eq!(h.get_game(id).sunk_ships_on_p2, 8);
    h.fire(id, &second, 0, 0).unwrap();
    assert!(h.get_game(id).last_shot_result.is_none());
}

fn game_in_progress(first: &PlayerId, second: &PlayerId) -> Game {
    let mut g = BattleshipContract::start_game(false, first.clone(), second.clone(), 1, 1).unwrap();
    g.phase = GamePhase::InProgress;
    g.turn = Some(first.clone());
    g
}

#[test]
fn unreachable_guard_errors() {
    let (h, first, second, b1, _b2) = setup_test();
    // A session that started without the defender's board.
    let mut g = game_in_progress(&first, &second);
    g.board_commitment_p1 = Some(b1);
    BattleshipContract::fire(&mut g, &first, 0, 0).unwrap();
    let hash = [0u8; 32];
    assert_eq!(
        BattleshipContract::resolve_shot(&h.env, &mut g, 1, &second, false, 0, &hash, true),
        Err(Error::BoardNotCommitted)
    );
    // A defender whose hit counter is already at the cap.
    let mut g = game_in_progress(&first, &second);
    g.board_commitment_p1 = Some(b1);
    g.board_commitment_p2 = Some(b1);
    g.hits_on_p2 = 17;
    BattleshipContract::fire(&mut g, &first, 0, 0).unwrap();
    let expected = BattleshipContract::build_public_inputs_hash(&h.env, 1, &second, &first, 0, 0, true, 0, &b1);
    let before = g.clone();
    assert_eq!(
        BattleshipContract::resolve_with_expected_hash(&mut g, &second, true, 0, &expected, &expected, true),
        Err(Error::TooManyHits)
    );
    assert_eq!(g, before);
}

#[test]
fn resolution_with_given_expected_hash() {
    let (_h, first, second, b1, b2) = setup_test();
    let mut g = game_in_progress(&first, &second);
    g.board_commitment_p1 = Some(b1);
    g.board_commitment_p2 = Some(b2);
    BattleshipContract::fire(&mut g, &first, 4, 4).unwrap();
    let expected = [5u8; 32];
    assert_eq!(
        BattleshipContract::resolve_with_expected_hash(&mut g, &second, false, 0, &expected, &[6u8; 32], true),
        Err(Error::InvalidPublicInputsHash)
    );
    assert_eq!(
        BattleshipContract::resolve_with_expected_hash(&mut g, &second, false, 0, &expected, &expected, false),
        Err(Error::InvalidProof)
    );
    let r = BattleshipContract::resolve_with_expected_hash(&mut g, &second, false, 0, &expected, &expected, true)
        .unwrap();
    assert!(!r.is_hit);
    assert_eq!(r.next_turn, Some(second.clone()));
    assert_eq!(g.shots_p1_to_p2, 1u128 << 44);
    assert_eq!(g.turn, Some(second));
}

#[test]
fn hit_counters_stay_within_resolved_cells() {
    let (mut h, first, second, b1, b2) = setup_test();
    let id = 70u32;
    h.in_progress(id, &first, &second, &b1, &b2);
    for k in 0..5u32 {
        h.fire(id, &first, k, 0).unwrap();
        h.resolve_pending(id, &second, &first, k, 0, true, 0, &b2, &valid_proof());
        h.fire(id, &second, k, 9).unwrap();
        h.resolve_pending(id, &first, &second, k, 9, k % 2 == 0, 0, &b1, &valid_proof());
        let g = h.get_game(id);
        assert!(g.hits_on_p2 <= g.shots_p1_to_p2.count_ones());
        assert!(g.hits_on_p1 <= g.shots_p2_to_p1.count_ones());
        assert_eq!(g.hits_on_p2, k + 1);
        assert_eq!(g.hits_on_p1, k / 2 + 1);
    }
}
