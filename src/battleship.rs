use vstd::prelude::*;

use soroban_sdk::Env;

use crate::bytes::{append_bytes, bytes_equal, push_u32_be, u32_be};
use crate::hashing::{keccak256, keccak256_of};
use crate::player::{duplicate_opt, opt_view, PlayerId};

verus! {

pub const BOARD_SIZE: u32 = 10;
pub const TOTAL_SHIP_CELLS: u32 = 17;
pub const SHIP_CARRIER_LEN: u32 = 5;
pub const SHIP_BATTLESHIP_LEN: u32 = 4;
pub const SHIP_CRUISER_LEN: u32 = 3;
pub const SHIP_SUBMARINE_LEN: u32 = 3;
pub const SHIP_DESTROYER_LEN: u32 = 2;
/// Bytes of the fixed-width head of a shot's binding-hash preimage.
pub const SHOT_HEADER_BYTES: u32 = 17;

#[derive(Clone, Copy, Debug, PartialEq, Eq, Structural)]
pub enum Error {
    GameNotFound,
    GameAlreadyExists,
    NotPlayer,
    SelfPlayNotAllowed,
    GameAlreadyEnded,
    InvalidPhase,
    BoardAlreadyCommitted,
    BoardNotCommitted,
    NotYourTurn,
    PendingShotExists,
    NoPendingShot,
    InvalidCoordinate,
    ShotAlreadyResolved,
    InvalidDefender,
    InvalidShipType,
    InvalidSunkShip,
    ShipAlreadySunk,
    InvalidPublicInputsHash,
    InvalidProof,
    TooManyHits,
}

#[derive(Clone, Copy, Debug, PartialEq, Eq, Structural)]
pub enum GamePhase {
    WaitingForBoards,
    InProgress,
    Ended,
}

#[derive(Clone, Copy, Debug, PartialEq, Eq, Structural)]
pub enum ShipType {
    Carrier,
    Battleship,
    Cruiser,
    Submarine,
    Destroyer,
}

/// A shot waiting for its outcome to be proven.
#[derive(Clone, Debug, PartialEq, Eq)]
pub struct Shot {
    pub shooter: PlayerId,
    pub x: u32,
    pub y: u32,
}

/// The proven outcome of a shot.
#[derive(Clone, Debug, PartialEq, Eq)]
pub struct ShotResult {
    pub is_hit: bool,
    pub sunk_ship: Option<ShipType>,
    pub winner: Option<PlayerId>,
    pub next_turn: Option<PlayerId>,
}

#[derive(Clone, Copy, Debug, PartialEq, Eq, Structural)]
pub struct GameRules {
    pub board_size: u32,
    pub carrier_len: u32,
    pub battleship_len: u32,
    pub cruiser_len: u32,
    pub submarine_len: u32,
    pub destroyer_len: u32,
    pub total_ship_cells: u32,
}

/// One grid-game session. Each bitmap marks, at bit `y * 10 + x`, the cells
/// that one player has fired at and whose outcome was proven; each sunk mask
/// marks the ships of one board that were reported sunk.
#[derive(Clone, Debug, PartialEq, Eq)]
pub struct Game {
    pub player1: PlayerId,
    pub player2: PlayerId,
    pub player1_points: i128,
    pub player2_points: i128,
    pub phase: GamePhase,
    pub turn: Option<PlayerId>,
    pub board_commitment_p1: Option<[u8; 32]>,
    pub board_commitment_p2: Option<[u8; 32]>,
    pub pending_shot: Option<Shot>,
    pub shots_p1_to_p2: u128,
    pub shots_p2_to_p1: u128,
    pub hits_on_p1: u32,
    pub hits_on_p2: u32,
    pub sunk_ships_on_p1: u32,
    pub sunk_ships_on_p2: u32,
    pub winner: Option<PlayerId>,
    /// The outcome of the last resolved shot, until the next shot is fired.
    pub last_shot_result: Option<ShotResult>,
}

pub ghost struct ShotView {
    pub shooter: Seq<u8>,
    pub x: u32,
    pub y: u32,
}

pub ghost struct ShotResultView {
    pub is_hit: bool,
    pub sunk_ship: Option<ShipType>,
    pub winner: Option<Seq<u8>>,
    pub next_turn: Option<Seq<u8>>,
}

pub ghost struct GameView {
    pub player1: Seq<u8>,
    pub player2: Seq<u8>,
    pub player1_points: i128,
    pub player2_points: i128,
    pub phase: GamePhase,
    pub turn: Option<Seq<u8>>,
    pub board_commitment_p1: Option<[u8; 32]>,
    pub board_commitment_p2: Option<[u8; 32]>,
    pub pending_shot: Option<ShotView>,
    pub shots_p1_to_p2: u128,
    pub shots_p2_to_p1: u128,
    pub hits_on_p1: u32,
    pub hits_on_p2: u32,
    pub sunk_ships_on_p1: u32,
    pub sunk_ships_on_p2: u32,
    pub winner: Option<Seq<u8>>,
    pub last_shot_result: Option<ShotResultView>,
}

impl View for Shot {
    type V = ShotView;

    open spec fn view(&self) -> ShotView {
        ShotView { shooter: self.shooter@, x: self.x, y: self.y }
    }
}

impl View for ShotResult {
    type V = ShotResultView;

    open spec fn view(&self) -> ShotResultView {
        ShotResultView {
            is_hit: self.is_hit,
            sunk_ship: self.sunk_ship,
            winner: opt_view(self.winner),
            next_turn: opt_view(self.next_turn),
        }
    }
}

pub open spec fn shot_opt_view(s: Option<Shot>) -> Option<ShotView> {
    match s {
        Some(v) => Some(v@),
        None => None,
    }
}

pub open spec fn result_opt_view(s: Option<ShotResult>) -> Option<ShotResultView> {
    match s {
        Some(v) => Some(v@),
        None => None,
    }
}

impl View for Game {
    type V = GameView;

    open spec fn view(&self) -> GameView {
        GameView {
            player1: self.player1@,
            player2: self.player2@,
            player1_points: self.player1_points,
            player2_points: self.player2_points,
            phase: self.phase,
            turn: opt_view(self.turn),
            board_commitment_p1: self.board_commitment_p1,
            board_commitment_p2: self.board_commitment_p2,
            pending_shot: shot_opt_view(self.pending_shot),
            shots_p1_to_p2: self.shots_p1_to_p2,
            shots_p2_to_p1: self.shots_p2_to_p1,
            hits_on_p1: self.hits_on_p1,
            hits_on_p2: self.hits_on_p2,
            sunk_ships_on_p1: self.sunk_ships_on_p1,
            sunk_ships_on_p2: self.sunk_ships_on_p2,
            winner: opt_view(self.winner),
            last_shot_result: result_opt_view(self.last_shot_result),
        }
    }
}

impl GameView {
    /// The session's lasting invariant: the players differ; a game has a
    /// winner, one of the players, exactly when it has ended; a game in
    /// progress has both boards committed and a player to move, and only a
    /// game in progress has a turn or a pending shot; a pending shot is a
    /// player's, at a cell of the board; and each hit counter stays within the
    /// ship cells and within the cells resolved against that board.
    pub open spec fn wf(self) -> bool {
        &&& self.player1 != self.player2
        &&& (self.phase == GamePhase::Ended <==> self.winner is Some)
        &&& (self.winner matches Some(w) ==> w == self.player1 || w == self.player2)
        &&& (self.phase == GamePhase::InProgress ==> self.turn is Some
            && self.board_commitment_p1 is Some && self.board_commitment_p2 is Some)
        &&& (self.turn matches Some(t) ==> t == self.player1 || t == self.player2)
        &&& (self.phase != GamePhase::InProgress ==> self.turn is None && self.pending_shot is None)
        &&& (self.pending_shot matches Some(p) ==> on_board(p.x, p.y) && (p.shooter == self.player1
            || p.shooter == self.player2))
        &&& self.hits_on_p1 <= TOTAL_SHIP_CELLS
        &&& self.hits_on_p2 <= TOTAL_SHIP_CELLS
        &&& self.hits_on_p2 <= resolved_count(self.shots_p1_to_p2)
        &&& self.hits_on_p1 <= resolved_count(self.shots_p2_to_p1)
    }
}

/// The bit of cell (x, y) in a shot bitmap.
pub open spec fn coord_bit(x: u32, y: u32) -> u128 {
    1u128 << ((y * BOARD_SIZE + x) as u128)
}

pub open spec fn on_board(x: u32, y: u32) -> bool {
    x < BOARD_SIZE && y < BOARD_SIZE
}

/// The ship that a raw sunk-ship code names: 0 names none.
pub open spec fn ship_of(raw: u32) -> Result<Option<ShipType>, Error> {
    if raw == 0 {
        Ok(None)
    } else if raw == 1 {
        Ok(Some(ShipType::Carrier))
    } else if raw == 2 {
        Ok(Some(ShipType::Battleship))
    } else if raw == 3 {
        Ok(Some(ShipType::Cruiser))
    } else if raw == 4 {
        Ok(Some(ShipType::Submarine))
    } else if raw == 5 {
        Ok(Some(ShipType::Destroyer))
    } else {
        Err(Error::InvalidShipType)
    }
}

/// The bit of a ship in a sunk mask.
pub open spec fn ship_mask(s: ShipType) -> u32 {
    match s {
        ShipType::Carrier => 1,
        ShipType::Battleship => 2,
        ShipType::Cruiser => 4,
        ShipType::Submarine => 8,
        ShipType::Destroyer => 16,
    }
}

/// The player that `player` plays against.
pub open spec fn opponent_of(g: GameView, player: Seq<u8>) -> Result<Seq<u8>, Error> {
    if player == g.player1 {
        Ok(g.player2)
    } else if player == g.player2 {
        Ok(g.player1)
    } else {
        Err(Error::NotPlayer)
    }
}

/// The bitmap of the shots that `shooter` has had resolved.
pub open spec fn shots_of(g: GameView, shooter: Seq<u8>) -> u128 {
    if shooter == g.player1 {
        g.shots_p1_to_p2
    } else {
        g.shots_p2_to_p1
    }
}

pub open spec fn commitment_of(g: GameView, defender: Seq<u8>) -> Option<[u8; 32]> {
    if defender == g.player1 {
        g.board_commitment_p1
    } else {
        g.board_commitment_p2
    }
}

pub open spec fn hits_of(g: GameView, defender: Seq<u8>) -> u32 {
    if defender == g.player1 {
        g.hits_on_p1
    } else {
        g.hits_on_p2
    }
}

pub open spec fn sunk_of(g: GameView, defender: Seq<u8>) -> u32 {
    if defender == g.player1 {
        g.sunk_ships_on_p1
    } else {
        g.sunk_ships_on_p2
    }
}

/// The bytes hashed into a shot's binding hash: session id, x, y, hit flag
/// and sunk-ship code as a fixed-width big-endian head, then the board
/// commitment and the texts of the defender and of the shooter.
pub open spec fn shot_preimage(
    session_id: u32,
    defender: Seq<u8>,
    shooter: Seq<u8>,
    x: u32,
    y: u32,
    is_hit: bool,
    sunk_ship: u32,
    board_commitment: Seq<u8>,
) -> Seq<u8> {
    u32_be(session_id) + u32_be(x) + u32_be(y) + seq![if is_hit { 1u8 } else { 0u8 }] + u32_be(
        sunk_ship,
    ) + board_commitment + defender + shooter
}

/// The players' texts fit, with the rest of a preimage, in a host byte string.
pub open spec fn hash_fits(a: Seq<u8>, b: Seq<u8>) -> bool {
    SHOT_HEADER_BYTES + 32 + a.len() + b.len() <= u32::MAX
}

/// What creating a session answers.
pub open spec fn start_outcome(exists: bool, player1: Seq<u8>, player2: Seq<u8>) -> Result<(), Error> {
    if player1 == player2 {
        Err(Error::SelfPlayNotAllowed)
    } else if exists {
        Err(Error::GameAlreadyExists)
    } else {
        Ok(())
    }
}

/// A session whose boards are both committed starts, player one to move.
pub open spec fn start_if_ready(g: GameView) -> GameView {
    if g.board_commitment_p1 is Some && g.board_commitment_p2 is Some {
        GameView { phase: GamePhase::InProgress, turn: Some(g.player1), ..g }
    } else {
        g
    }
}

/// What committing a board does to a session.
pub open spec fn commit_outcome(g: GameView, player: Seq<u8>, c: [u8; 32]) -> Result<GameView, Error> {
    if g.phase == GamePhase::Ended {
        Err(Error::GameAlreadyEnded)
    } else if g.phase != GamePhase::WaitingForBoards {
        Err(Error::InvalidPhase)
    } else if player == g.player1 {
        if g.board_commitment_p1 is Some {
            Err(Error::BoardAlreadyCommitted)
        } else {
            Ok(start_if_ready(GameView { board_commitment_p1: Some(c), ..g }))
        }
    } else if player == g.player2 {
        if g.board_commitment_p2 is Some {
            Err(Error::BoardAlreadyCommitted)
        } else {
            Ok(start_if_ready(GameView { board_commitment_p2: Some(c), ..g }))
        }
    } else {
        Err(Error::NotPlayer)
    }
}

/// What firing at (x, y) does to a session.
pub open spec fn fire_outcome(g: GameView, shooter: Seq<u8>, x: u32, y: u32) -> Result<GameView, Error> {
    if g.phase == GamePhase::Ended {
        Err(Error::GameAlreadyEnded)
    } else if g.phase != GamePhase::InProgress {
        Err(Error::InvalidPhase)
    } else if g.pending_shot is Some {
        Err(Error::PendingShotExists)
    } else if g.turn is None {
        Err(Error::InvalidPhase)
    } else if shooter != g.turn->0 {
        Err(Error::NotYourTurn)
    } else if !on_board(x, y) {
        Err(Error::InvalidCoordinate)
    } else if shooter != g.player1 && shooter != g.player2 {
        Err(Error::NotPlayer)
    } else if shots_of(g, shooter) & coord_bit(x, y) != 0 {
        Err(Error::ShotAlreadyResolved)
    } else {
        Ok(
            GameView {
                pending_shot: Some(ShotView { shooter, x, y }),
                last_shot_result: None,
                ..g
            },
        )
    }
}

/// The checks of a resolution that come before its binding hash: the board
/// commitment that the proof must be bound to, or why there is none.
pub open spec fn resolve_precheck(g: GameView, defender: Seq<u8>, is_hit: bool, sunk_ship: u32) -> Result<
    [u8; 32],
    Error,
> {
    if g.phase == GamePhase::Ended {
        Err(Error::GameAlreadyEnded)
    } else if g.phase != GamePhase::InProgress {
        Err(Error::InvalidPhase)
    } else if g.pending_shot is None {
        Err(Error::NoPendingShot)
    } else {
        let p = g.pending_shot->0;
        match opponent_of(g, p.shooter) {
            Err(e) => Err(e),
            Ok(d) => if defender != d {
                Err(Error::InvalidDefender)
            } else {
                match ship_of(sunk_ship) {
                    Err(e) => Err(e),
                    Ok(ship) => if ship is Some && !is_hit {
                        Err(Error::InvalidSunkShip)
                    } else if !on_board(p.x, p.y) {
                        Err(Error::InvalidCoordinate)
                    } else if shots_of(g, p.shooter) & coord_bit(p.x, p.y) != 0 {
                        Err(Error::ShotAlreadyResolved)
                    } else {
                        match commitment_of(g, defender) {
                            None => Err(Error::BoardNotCommitted),
                            Some(c) => Ok(c),
                        }
                    },
                }
            },
        }
    }
}

/// The binding hash that a resolution of the pending shot must carry.
pub open spec fn expected_shot_hash(
    session_id: u32,
    g: GameView,
    defender: Seq<u8>,
    is_hit: bool,
    sunk_ship: u32,
) -> Seq<u8> {
    match (g.pending_shot, commitment_of(g, defender)) {
        (Some(p), Some(c)) => keccak256_of(
            shot_preimage(session_id, defender, p.shooter, p.x, p.y, is_hit, sunk_ship, c@),
        ),
        _ => Seq::empty(),
    }
}

/// What a resolution request answers before the proof is checked: the board
/// commitment to hand to the proof verifier with the binding hash.
pub open spec fn request_outcome(
    g: GameView,
    defender: Seq<u8>,
    is_hit: bool,
    sunk_ship: u32,
    expected_hash: Seq<u8>,
    given_hash: Seq<u8>,
) -> Result<[u8; 32], Error> {
    match resolve_precheck(g, defender, is_hit, sunk_ship) {
        Err(e) => Err(e),
        Ok(c) => if expected_hash != given_hash {
            Err(Error::InvalidPublicInputsHash)
        } else {
            Ok(c)
        },
    }
}

/// The session after the pending shot was proven, with the shot's result.
pub open spec fn apply_shot(g: GameView, defender: Seq<u8>, is_hit: bool, ship: Option<ShipType>) -> (
    GameView,
    ShotResultView,
) {
    let p = g.pending_shot->0;
    let bit = coord_bit(p.x, p.y);
    let g1 = if p.shooter == g.player1 {
        GameView { shots_p1_to_p2: g.shots_p1_to_p2 | bit, ..g }
    } else {
        GameView { shots_p2_to_p1: g.shots_p2_to_p1 | bit, ..g }
    };
    let g2 = if !is_hit {
        g1
    } else if defender == g.player1 {
        GameView { hits_on_p1: (g1.hits_on_p1 + 1) as u32, ..g1 }
    } else {
        GameView { hits_on_p2: (g1.hits_on_p2 + 1) as u32, ..g1 }
    };
    let g3 = match ship {
        None => g2,
        Some(s) => if defender == g.player1 {
            GameView { sunk_ships_on_p1: g2.sunk_ships_on_p1 | ship_mask(s), ..g2 }
        } else {
            GameView { sunk_ships_on_p2: g2.sunk_ships_on_p2 | ship_mask(s), ..g2 }
        },
    };
    if hits_of(g3, defender) >= TOTAL_SHIP_CELLS {
        let res = ShotResultView {
            is_hit,
            sunk_ship: ship,
            winner: Some(p.shooter),
            next_turn: None,
        };
        (
            GameView {
                phase: GamePhase::Ended,
                winner: Some(p.shooter),
                turn: None,
                pending_shot: None,
                last_shot_result: Some(res),
                ..g3
            },
            res,
        )
    } else {
        let res = ShotResultView { is_hit, sunk_ship: ship, winner: None, next_turn: Some(defender) };
        (
            GameView {
                turn: Some(defender),
                pending_shot: None,
                last_shot_result: Some(res),
                ..g3
            },
            res,
        )
    }
}

/// What resolving the pending shot does, given the hash the resolution must
/// carry, the hash it carries, and the proof verifier's verdict.
pub open spec fn resolve_outcome(
    g: GameView,
    defender: Seq<u8>,
    is_hit: bool,
    sunk_ship: u32,
    expected_hash: Seq<u8>,
    given_hash: Seq<u8>,
    proof_valid: bool,
) -> Result<(GameView, ShotResultView), Error> {
    match request_outcome(g, defender, is_hit, sunk_ship, expected_hash, given_hash) {
        Err(e) => Err(e),
        Ok(c) => if !proof_valid {
            Err(Error::InvalidProof)
        } else if is_hit && hits_of(g, defender) + 1 > TOTAL_SHIP_CELLS {
            Err(Error::TooManyHits)
        } else if ship_of(sunk_ship)->Ok_0 matches Some(s) && sunk_of(g, defender) & ship_mask(s) != 0 {
            Err(Error::ShipAlreadySunk)
        } else {
            Ok(apply_shot(g, defender, is_hit, ship_of(sunk_ship)->Ok_0))
        },
    }
}


/// A copy of a shot result.
pub fn copy_result(r: &ShotResult) -> (c: ShotResult)
    ensures
        c@ == r@,
{
    ShotResult {
        is_hit: r.is_hit,
        sunk_ship: r.sunk_ship,
        winner: duplicate_opt(&r.winner),
        next_turn: duplicate_opt(&r.next_turn),
    }
}

/// The grid-game contract's logic. Sessions are stored and the game hub and
/// proof verifier are called around it: a session is created only after the
/// hub was told, and a won session is saved only after the hub was told.
pub struct BattleshipContract;

impl BattleshipContract {
    /// A new session between two distinct players, waiting for both boards.
    /// `exists` tells whether the session id is already taken.
    pub fn start_game(
        exists: bool,
        player1: PlayerId,
        player2: PlayerId,
        player1_points: i128,
        player2_points: i128,
    ) -> (r: Result<Game, Error>)
        ensures
            match r {
                Ok(g) => start_outcome(exists, player1@, player2@) is Ok && g@ == (GameView {
                    player1: player1@,
                    player2: player2@,
                    player1_points,
                    player2_points,
                    phase: GamePhase::WaitingForBoards,
                    turn: None,
                    board_commitment_p1: None,
                    board_commitment_p2: None,
                    pending_shot: None,
                    shots_p1_to_p2: 0,
                    shots_p2_to_p1: 0,
                    hits_on_p1: 0,
                    hits_on_p2: 0,
                    sunk_ships_on_p1: 0,
                    sunk_ships_on_p2: 0,
                    winner: None,
                    last_shot_result: None,
                }) && g@.wf(),
                Err(e) => start_outcome(exists, player1@, player2@) == Err::<(), Error>(e),
            },
    {
        if player1.same_as(&player2) {
            return Err(Error::SelfPlayNotAllowed);
        }
        if exists {
            return Err(Error::GameAlreadyExists);
        }
        Ok(
            Game {
                player1,
                player2,
                player1_points,
                player2_points,
                phase: GamePhase::WaitingForBoards,
                turn: None,
                board_commitment_p1: None,
                board_commitment_p2: None,
                pending_shot: None,
                shots_p1_to_p2: 0,
                shots_p2_to_p1: 0,
                hits_on_p1: 0,
                hits_on_p2: 0,
                sunk_ships_on_p1: 0,
                sunk_ships_on_p2: 0,
                winner: None,
                last_shot_result: None,
            },
        )
    }

    /// Stores a player's board commitment; the second one starts the game
    /// with player one to move.
    pub fn commit_board(game: &mut Game, player: &PlayerId, board_commitment: [u8; 32]) -> (r:
        Result<(), Error>)
        ensures
            match r {
                Ok(()) => commit_outcome(old(game)@, player@, board_commitment) == Ok::<GameView, Error>(
                    final(game)@,
                ),
                Err(e) => commit_outcome(old(game)@, player@, board_commitment) == Err::<GameView, Error>(
                    e,
                ) && *final(game) == *old(game),
            },
            old(game)@.wf() ==> final(game)@.wf(),
    {
        if game.phase == GamePhase::Ended {
            return Err(Error::GameAlreadyEnded);
        }
        if game.phase != GamePhase::WaitingForBoards {
            return Err(Error::InvalidPhase);
        }
        if player.same_as(&game.player1) {
            if game.board_commitment_p1.is_some() {
                return Err(Error::BoardAlreadyCommitted);
            }
            game.board_commitment_p1 = Some(board_commitment);
        } else if player.same_as(&game.player2) {
            if game.board_commitment_p2.is_some() {
                return Err(Error::BoardAlreadyCommitted);
            }
            game.board_commitment_p2 = Some(board_commitment);
        } else {
            return Err(Error::NotPlayer);
        }
        if game.board_commitment_p1.is_some() && game.board_commitment_p2.is_some() {
            game.phase = GamePhase::InProgress;
            game.turn = Some(game.player1.duplicate());
        }
        Ok(())
    }

    /// Records a shot of the player whose turn it is at an unresolved cell,
    /// and clears the outcome of the previous shot.
    pub fn fire(game: &mut Game, shooter: &PlayerId, x: u32, y: u32) -> (r: Result<(), Error>)
        ensures
            match r {
                Ok(()) => fire_outcome(old(game)@, shooter@, x, y) == Ok::<GameView, Error>(final(game)@),
                Err(e) => fire_outcome(old(game)@, shooter@, x, y) == Err::<GameView, Error>(e)
                    && *final(game) == *old(game),
            },
            old(game)@.wf() ==> final(game)@.wf(),
    {
        if game.phase == GamePhase::Ended {
            return Err(Error::GameAlreadyEnded);
        }
        if game.phase != GamePhase::InProgress {
            return Err(Error::InvalidPhase);
        }
        if game.pending_shot.is_some() {
            return Err(Error::PendingShotExists);
        }
        let is_turn = match &game.turn {
            None => {
                return Err(Error::InvalidPhase);
            },
            Some(t) => shooter.same_as(t),
        };
        if !is_turn {
            return Err(Error::NotYourTurn);
        }
        let bit = match Self::coord_to_bit(x, y) {
            Ok(b) => b,
            Err(e) => return Err(e),
        };
        if shooter.same_as(&game.player1) {
            if game.shots_p1_to_p2 & bit != 0 {
                return Err(Error::ShotAlreadyResolved);
            }
        } else if shooter.same_as(&game.player2) {
            if game.shots_p2_to_p1 & bit != 0 {
                return Err(Error::ShotAlreadyResolved);
            }
        } else {
            return Err(Error::NotPlayer);
        }
        game.pending_shot = Some(Shot { shooter: shooter.duplicate(), x, y });
        game.last_shot_result = None;
        Ok(())
    }

    /// The bit of cell (x, y), for a cell on the board.
    pub fn coord_to_bit(x: u32, y: u32) -> (r: Result<u128, Error>)
        ensures
            r == if on_board(x, y) {
                Ok::<u128, Error>(coord_bit(x, y))
            } else {
                Err::<u128, Error>(Error::InvalidCoordinate)
            },
    {
        if x >= BOARD_SIZE || y >= BOARD_SIZE {
            return Err(Error::InvalidCoordinate);
        }
        let index = y * BOARD_SIZE + x;
        Ok(1u128 << (index as u128))
    }

    /// The ship named by a raw sunk-ship code.
    pub fn parse_ship_type(raw: u32) -> (r: Result<Option<ShipType>, Error>)
        ensures
            r == ship_of(raw),
    {
        match raw {
            0 => Ok(None),
            1 => Ok(Some(ShipType::Carrier)),
            2 => Ok(Some(ShipType::Battleship)),
            3 => Ok(Some(ShipType::Cruiser)),
            4 => Ok(Some(ShipType::Submarine)),
            5 => Ok(Some(ShipType::Destroyer)),
            _ => Err(Error::InvalidShipType),
        }
    }

    /// The bit of a ship in a sunk mask.
    pub fn ship_bit(ship: ShipType) -> (r: u32)
        ensures
            r == ship_mask(ship),
    {
        match ship {
            ShipType::Carrier => 1,
            ShipType::Battleship => 2,
            ShipType::Cruiser => 4,
            ShipType::Submarine => 8,
            ShipType::Destroyer => 16,
        }
    }

    /// The player that `player` plays against.
    pub fn opponent(game: &Game, player: &PlayerId) -> (r: Result<PlayerId, Error>)
        ensures
            match r {
                Ok(p) => opponent_of(game@, player@) == Ok::<Seq<u8>, Error>(p@),
                Err(e) => opponent_of(game@, player@) == Err::<Seq<u8>, Error>(e),
            },
    {
        if player.same_as(&game.player1) {
            Ok(game.player2.duplicate())
        } else if player.same_as(&game.player2) {
            Ok(game.player1.duplicate())
        } else {
            Err(Error::NotPlayer)
        }
    }

    pub fn get_rules() -> (r: GameRules)
        ensures
            r == (GameRules {
                board_size: 10,
                carrier_len: 5,
                battleship_len: 4,
                cruiser_len: 3,
                submarine_len: 3,
                destroyer_len: 2,
                total_ship_cells: 17,
            }),
    {
        GameRules {
            board_size: BOARD_SIZE,
            carrier_len: SHIP_CARRIER_LEN,
            battleship_len: SHIP_BATTLESHIP_LEN,
            cruiser_len: SHIP_CRUISER_LEN,
            submarine_len: SHIP_SUBMARINE_LEN,
            destroyer_len: SHIP_DESTROYER_LEN,
            total_ship_cells: TOTAL_SHIP_CELLS,
        }
    }

    /// The bytes that a shot's binding hash is computed over.
    pub fn shot_hash_preimage(
        session_id: u32,
        defender: &PlayerId,
        shooter: &PlayerId,
        x: u32,
        y: u32,
        is_hit: bool,
        sunk_ship: u32,
        board_commitment: &[u8; 32],
    ) -> (r: Vec<u8>)
        ensures
            r@ == shot_preimage(
                session_id,
                defender@,
                shooter@,
                x,
                y,
                is_hit,
                sunk_ship,
                board_commitment@,
            ),
    {
        let mut out: Vec<u8> = Vec::new();
        push_u32_be(&mut out, session_id);
        push_u32_be(&mut out, x);
        push_u32_be(&mut out, y);
        out.push(if is_hit { 1u8 } else { 0u8 });
        push_u32_be(&mut out, sunk_ship);
        append_bytes(&mut out, board_commitment.as_slice());
        append_bytes(&mut out, defender.text.as_slice());
        append_bytes(&mut out, shooter.text.as_slice());
        out
    }

    /// The binding hash that a proof of this shot outcome must carry: the
    /// Keccak-256 digest of the shot's preimage.
    pub fn build_public_inputs_hash(
        env: &Env,
        session_id: u32,
        defender: &PlayerId,
        shooter: &PlayerId,
        x: u32,
        y: u32,
        is_hit: bool,
        sunk_ship: u32,
        board_commitment: &[u8; 32],
    ) -> (r: [u8; 32])
        requires
            hash_fits(defender@, shooter@),
        ensures
            r@ == keccak256_of(
                shot_preimage(
                    session_id,
                    defender@,
                    shooter@,
                    x,
                    y,
                    is_hit,
                    sunk_ship,
                    board_commitment@,
                ),
            ),
    {
        let preimage = Self::shot_hash_preimage(
            session_id,
            defender,
            shooter,
            x,
            y,
            is_hit,
            sunk_ship,
            board_commitment,
        );
        keccak256(env, &preimage)
    }

    /// The checks of a resolution that come before its binding hash, with
    /// what the commit step needs: the defender's board commitment, the sunk
    /// ship, the bit of the pending cell and whether player one shot.
    fn precheck(game: &Game, defender: &PlayerId, is_hit: bool, sunk_ship: u32) -> (r: Result<
        ([u8; 32], Option<ShipType>, u128, bool),
        Error,
    >)
        ensures
            match r {
                Ok((c, ship, bit, by_p1)) => {
                    &&& resolve_precheck(game@, defender@, is_hit, sunk_ship) == Ok::<[u8; 32], Error>(c)
                    &&& ship_of(sunk_ship) == Ok::<Option<ShipType>, Error>(ship)
                    &&& game.pending_shot is Some
                    &&& bit == coord_bit(game@.pending_shot->0.x, game@.pending_shot->0.y)
                    &&& by_p1 == (game@.pending_shot->0.shooter == game@.player1)
                },
                Err(e) => resolve_precheck(game@, defender@, is_hit, sunk_ship) == Err::<[u8; 32], Error>(
                    e,
                ),
            },
    {
        if game.phase == GamePhase::Ended {
            return Err(Error::GameAlreadyEnded);
        }
        if game.phase != GamePhase::InProgress {
            return Err(Error::InvalidPhase);
        }
        let pending = match &game.pending_shot {
            Some(p) => p,
            None => return Err(Error::NoPendingShot),
        };
        let expected_defender = match Self::opponent(game, &pending.shooter) {
            Ok(d) => d,
            Err(e) => return Err(e),
        };
        if !defender.same_as(&expected_defender) {
            return Err(Error::InvalidDefender);
        }
        let ship = match Self::parse_ship_type(sunk_ship) {
            Ok(s) => s,
            Err(e) => return Err(e),
        };
        if ship.is_some() && !is_hit {
            return Err(Error::InvalidSunkShip);
        }
        let bit = match Self::coord_to_bit(pending.x, pending.y) {
            Ok(b) => b,
            Err(e) => return Err(e),
        };
        let by_p1 = pending.shooter.same_as(&game.player1);
        let shots = if by_p1 {
            game.shots_p1_to_p2
        } else {
            game.shots_p2_to_p1
        };
        if shots & bit != 0 {
            return Err(Error::ShotAlreadyResolved);
        }
        let commitment = if defender.same_as(&game.player1) {
            game.board_commitment_p1
        } else {
            game.board_commitment_p2
        };
        match commitment {
            Some(c) => Ok((c, ship, bit, by_p1)),
            None => Err(Error::BoardNotCommitted),
        }
    }

    /// Checks a resolution up to its binding hash; on success, the board
    /// commitment that the proof verifier is to check the proof against.
    pub fn resolve_request(
        env: &Env,
        game: &Game,
        session_id: u32,
        defender: &PlayerId,
        is_hit: bool,
        sunk_ship: u32,
        public_inputs_hash: &[u8; 32],
    ) -> (r: Result<[u8; 32], Error>)
        requires
            hash_fits(game@.player1, game@.player2),
        ensures
            r == request_outcome(
                game@,
                defender@,
                is_hit,
                sunk_ship,
                expected_shot_hash(session_id, game@, defender@, is_hit, sunk_ship),
                public_inputs_hash@,
            ),
    {
        let (commitment, _ship, _bit, _by_p1) = match Self::precheck(game, defender, is_hit, sunk_ship) {
            Ok(v) => v,
            Err(e) => return Err(e),
        };
        let expected = Self::pending_shot_hash(env, game, session_id, defender, is_hit, sunk_ship, &commitment);
        if !bytes_equal(expected.as_slice(), public_inputs_hash.as_slice()) {
            return Err(Error::InvalidPublicInputsHash);
        }
        Ok(commitment)
    }

    /// The binding hash of the pending shot, once the prechecks passed.
    fn pending_shot_hash(
        env: &Env,
        game: &Game,
        session_id: u32,
        defender: &PlayerId,
        is_hit: bool,
        sunk_ship: u32,
        commitment: &[u8; 32],
    ) -> (r: [u8; 32])
        requires
            hash_fits(game@.player1, game@.player2),
            resolve_precheck(game@, defender@, is_hit, sunk_ship) == Ok::<[u8; 32], Error>(*commitment),
        ensures
            r@ == expected_shot_hash(session_id, game@, defender@, is_hit, sunk_ship),
    {
        match &game.pending_shot {
            Some(p) => Self::build_public_inputs_hash(
                env,
                session_id,
                defender,
                &p.shooter,
                p.x,
                p.y,
                is_hit,
                sunk_ship,
                commitment,
            ),
            None => [0u8; 32],
        }
    }

    /// Resolves the pending shot given the binding hash it must carry
    /// (`expected_hash`), the one it carries, and the proof verifier's
    /// verdict on the proof. On success the cell is marked resolved for the
    /// shooter, a hit and a sunk ship are counted against the defender, and
    /// either the shooter wins (all ship cells hit) or the defender moves next.
    pub fn resolve_with_expected_hash(
        game: &mut Game,
        defender: &PlayerId,
        is_hit: bool,
        sunk_ship: u32,
        expected_hash: &[u8; 32],
        public_inputs_hash: &[u8; 32],
        proof_valid: bool,
    ) -> (r: Result<ShotResult, Error>)
        ensures
            match r {
                Ok(res) => resolve_outcome(
                    old(game)@,
                    defender@,
                    is_hit,
                    sunk_ship,
                    expected_hash@,
                    public_inputs_hash@,
                    proof_valid,
                ) == Ok::<(GameView, ShotResultView), Error>((final(game)@, res@)),
                Err(e) => resolve_outcome(
                    old(game)@,
                    defender@,
                    is_hit,
                    sunk_ship,
                    expected_hash@,
                    public_inputs_hash@,
                    proof_valid,
                ) == Err::<(GameView, ShotResultView), Error>(e) && *final(game) == *old(game),
            },
            old(game)@.wf() ==> final(game)@.wf(),
    {
        let (_commitment, ship, bit, by_p1) = match Self::precheck(game, defender, is_hit, sunk_ship) {
            Ok(v) => v,
            Err(e) => return Err(e),
        };
        if !bytes_equal(expected_hash.as_slice(), public_inputs_hash.as_slice()) {
            return Err(Error::InvalidPublicInputsHash);
        }
        if !proof_valid {
            return Err(Error::InvalidProof);
        }
        let defender_is_p1 = defender.same_as(&game.player1);
        if is_hit {
            let hits = if defender_is_p1 {
                game.hits_on_p1
            } else {
                game.hits_on_p2
            };
            if hits >= TOTAL_SHIP_CELLS {
                return Err(Error::TooManyHits);
            }
        }
        let mask: u32 = match ship {
            Some(s) => Self::ship_bit(s),
            None => 0,
        };
        if ship.is_some() {
            let sunk = if defender_is_p1 {
                game.sunk_ships_on_p1
            } else {
                game.sunk_ships_on_p2
            };
            if sunk & mask != 0 {
                return Err(Error::ShipAlreadySunk);
            }
        }
        let shooter = match &game.pending_shot {
            Some(p) => p.shooter.duplicate(),
            None => return Err(Error::NoPendingShot),
        };
        if by_p1 {
            game.shots_p1_to_p2 = game.shots_p1_to_p2 | bit;
        } else {
            game.shots_p2_to_p1 = game.shots_p2_to_p1 | bit;
        }
        if is_hit {
            if defender_is_p1 {
                game.hits_on_p1 = game.hits_on_p1 + 1;
            } else {
                game.hits_on_p2 = game.hits_on_p2 + 1;
            }
        }
        if ship.is_some() {
            if defender_is_p1 {
                game.sunk_ships_on_p1 = game.sunk_ships_on_p1 | mask;
            } else {
                game.sunk_ships_on_p2 = game.sunk_ships_on_p2 | mask;
            }
        }
        let defender_hits = if defender_is_p1 {
            game.hits_on_p1
        } else {
            game.hits_on_p2
        };
        let result = if defender_hits >= TOTAL_SHIP_CELLS {
            game.phase = GamePhase::Ended;
            game.winner = Some(shooter.duplicate());
            game.turn = None;
            ShotResult { is_hit, sunk_ship: ship, winner: Some(shooter), next_turn: None }
        } else {
            game.turn = Some(defender.duplicate());
            ShotResult { is_hit, sunk_ship: ship, winner: None, next_turn: Some(defender.duplicate()) }
        };
        game.pending_shot = None;
        game.last_shot_result = Some(copy_result(&result));
        proof {
            assert(resolve_outcome(
                old(game)@,
                defender@,
                is_hit,
                sunk_ship,
                expected_hash@,
                public_inputs_hash@,
                proof_valid,
            ) == Ok::<(GameView, ShotResultView), Error>((game@, result@)));
            if old(game)@.wf() {
                lemma_resolution_keeps_session_well_formed(
                    old(game)@,
                    defender@,
                    is_hit,
                    sunk_ship,
                    expected_hash@,
                    public_inputs_hash@,
                    proof_valid,
                );
            }
        }
        Ok(result)
    }

    /// Resolves the pending shot of a session: anyone may submit it, since the
    /// proof, not the caller, vouches for the outcome. The binding hash must
    /// be the one that `build_public_inputs_hash` gives for the pending shot,
    /// the claimed outcome and the defender's board commitment, and
    /// `proof_valid` is the verifier's verdict on the proof for that hash.
    pub fn resolve_shot(
        env: &Env,
        game: &mut Game,
        session_id: u32,
        defender: &PlayerId,
        is_hit: bool,
        sunk_ship: u32,
        public_inputs_hash: &[u8; 32],
        proof_valid: bool,
    ) -> (r: Result<ShotResult, Error>)
        requires
            hash_fits(old(game)@.player1, old(game)@.player2),
        ensures
            match r {
                Ok(res) => resolve_outcome(
                    old(game)@,
                    defender@,
                    is_hit,
                    sunk_ship,
                    expected_shot_hash(session_id, old(game)@, defender@, is_hit, sunk_ship),
                    public_inputs_hash@,
                    proof_valid,
                ) == Ok::<(GameView, ShotResultView), Error>((final(game)@, res@)),
                Err(e) => resolve_outcome(
                    old(game)@,
                    defender@,
                    is_hit,
                    sunk_ship,
                    expected_shot_hash(session_id, old(game)@, defender@, is_hit, sunk_ship),
                    public_inputs_hash@,
                    proof_valid,
                ) == Err::<(GameView, ShotResultView), Error>(e) && *final(game) == *old(game),
            },
            old(game)@.wf() ==> final(game)@.wf(),
    {
        let (commitment, _ship, _bit, _by_p1) = match Self::precheck(game, defender, is_hit, sunk_ship) {
            Ok(v) => v,
            Err(e) => return Err(e),
        };
        let expected = Self::pending_shot_hash(env, game, session_id, defender, is_hit, sunk_ship, &commitment);
        Self::resolve_with_expected_hash(
            game,
            defender,
            is_hit,
            sunk_ship,
            &expected,
            public_inputs_hash,
            proof_valid,
        )
    }
}

/// The index of cell (x, y) in a shot bitmap.
pub open spec fn cell_index(x: u32, y: u32) -> int {
    y * BOARD_SIZE + x
}

/// Whether cell `i` is marked in a shot bitmap.
pub open spec fn cell_marked(bits: u128, i: int) -> bool {
    (bits >> (i as u128)) & 1u128 == 1u128
}

/// The number of marked cells among the first `n` of a bitmap.
pub open spec fn marked_count(bits: u128, n: nat) -> nat
    decreases n,
{
    if n == 0 {
        0
    } else {
        marked_count(bits, (n - 1) as nat) + if cell_marked(bits, n - 1) {
            1nat
        } else {
            0nat
        }
    }
}

/// The number of cells of the board marked in a shot bitmap.
pub open spec fn resolved_count(bits: u128) -> nat {
    marked_count(bits, (BOARD_SIZE * BOARD_SIZE) as nat)
}

proof fn lemma_bit_facts(b: u128, k: u128)
    requires
        k < 128,
    ensures
        (b & (1u128 << k) != 0) == ((b >> k) & 1u128 == 1u128),
        forall|i: u128|
            i < 128 ==> ((((b | (1u128 << k)) >> i) & 1u128 == 1u128) == (i == k || (b >> i) & 1u128
                == 1u128)),
{
    assert((b & (1u128 << k) != 0) == ((b >> k) & 1u128 == 1u128)) by (bit_vector)
        requires
            k < 128,
    ;
    assert forall|i: u128| i < 128 implies ((((b | (1u128 << k)) >> i) & 1u128 == 1u128) == (i == k
        || (b >> i) & 1u128 == 1u128)) by {
        assert(i < 128 && k < 128 ==> ((((b | (1u128 << k)) >> i) & 1u128 == 1u128) == (i == k || (b
            >> i) & 1u128 == 1u128))) by (bit_vector);
    }
}

proof fn lemma_marked_count_insert(b: u128, k: int, n: nat)
    requires
        0 <= k < 128,
        n <= 128,
        !cell_marked(b, k),
    ensures
        marked_count(b | (1u128 << (k as u128)), n) == marked_count(b, n) + if k < n {
            1nat
        } else {
            0nat
        },
        forall|i: int| 0 <= i < 128 ==> cell_marked(b | (1u128 << (k as u128)), i) == (i == k
            || cell_marked(b, i)),
    decreases n,
{
    lemma_bit_facts(b, k as u128);
    assert forall|i: int| 0 <= i < 128 implies cell_marked(b | (1u128 << (k as u128)), i) == (i == k
        || cell_marked(b, i)) by {
        assert(((((b | (1u128 << (k as u128))) >> (i as u128)) & 1u128 == 1u128) == ((i as u128)
            == (k as u128) || (b >> (i as u128)) & 1u128 == 1u128)));
    }
    if n > 0 {
        lemma_marked_count_insert(b, k, (n - 1) as nat);
    }
}

/// A cell's bit in a bitmap is set exactly when the cell is marked there.
pub proof fn lemma_coord_bit_marks_cell(bits: u128, x: u32, y: u32)
    requires
        on_board(x, y),
    ensures
        (bits & coord_bit(x, y) != 0) == cell_marked(bits, cell_index(x, y)),
        forall|i: int| 0 <= i < 128 ==> cell_marked(bits | coord_bit(x, y), i) == (i == cell_index(x, y)
            || cell_marked(bits, i)),
{
    lemma_bit_facts(bits, (y * BOARD_SIZE + x) as u128);
    assert forall|i: int| 0 <= i < 128 implies cell_marked(bits | coord_bit(x, y), i) == (i
        == cell_index(x, y) || cell_marked(bits, i)) by {
        assert(((((bits | coord_bit(x, y)) >> (i as u128)) & 1u128 == 1u128) == ((i as u128) == ((y
            * BOARD_SIZE + x) as u128) || (bits >> (i as u128)) & 1u128 == 1u128)));
    }
}

/// Every proven shot marks exactly one new cell, the one it was fired at, in
/// the bitmap of its shooter, keeps every earlier mark, and leaves the other
/// bitmap as it was; the defender's hit counter grows by one exactly for a
/// hit. So the number of cells marked in a bitmap is at all times the number
/// of that shooter's shots that were resolved.
pub proof fn lemma_resolution_marks_one_cell(
    g: GameView,
    defender: Seq<u8>,
    is_hit: bool,
    sunk_ship: u32,
    expected_hash: Seq<u8>,
    given_hash: Seq<u8>,
    proof_valid: bool,
)
    requires
        g.wf(),
        resolve_outcome(g, defender, is_hit, sunk_ship, expected_hash, given_hash, proof_valid) is Ok,
    ensures
        ({
            let g2 = resolve_outcome(
                g,
                defender,
                is_hit,
                sunk_ship,
                expected_hash,
                given_hash,
                proof_valid,
            )->Ok_0.0;
            let p = g.pending_shot->0;
            let other = if p.shooter == g.player1 {
                g.player2
            } else {
                g.player1
            };
            &&& resolved_count(shots_of(g2, p.shooter)) == resolved_count(shots_of(g, p.shooter)) + 1
            &&& !cell_marked(shots_of(g, p.shooter), cell_index(p.x, p.y))
            &&& cell_marked(shots_of(g2, p.shooter), cell_index(p.x, p.y))
            &&& forall|i: int|
                0 <= i < 128 && cell_marked(shots_of(g, p.shooter), i) ==> cell_marked(
                    shots_of(g2, p.shooter),
                    i,
                )
            &&& shots_of(g2, other) == shots_of(g, other)
            &&& hits_of(g2, defender) == hits_of(g, defender) + if is_hit {
                1int
            } else {
                0int
            }
        }),
{
    let p = g.pending_shot->0;
    let b = shots_of(g, p.shooter);
    lemma_coord_bit_marks_cell(b, p.x, p.y);
    lemma_marked_count_insert(b, cell_index(p.x, p.y), (BOARD_SIZE * BOARD_SIZE) as nat);
}

proof fn lemma_empty_bitmap_count(n: nat)
    requires
        n <= 128,
    ensures
        marked_count(0u128, n) == 0,
    decreases n,
{
    if n > 0 {
        let i = (n - 1) as u128;
        assert(i < 128 ==> (0u128 >> i) & 1u128 == 0u128) by (bit_vector);
        lemma_empty_bitmap_count((n - 1) as nat);
    }
}

/// Only a proven shot marks cells: a new session has no cell marked, and
/// committing a board or firing a shot leaves both bitmaps as they were.
pub proof fn lemma_only_resolution_marks_cells(
    g: GameView,
    player: Seq<u8>,
    board_commitment: [u8; 32],
    x: u32,
    y: u32,
)
    ensures
        resolved_count(0u128) == 0,
        commit_outcome(g, player, board_commitment) matches Ok(g2) ==> g2.shots_p1_to_p2
            == g.shots_p1_to_p2 && g2.shots_p2_to_p1 == g.shots_p2_to_p1,
        fire_outcome(g, player, x, y) matches Ok(g2) ==> g2.shots_p1_to_p2 == g.shots_p1_to_p2
            && g2.shots_p2_to_p1 == g.shots_p2_to_p1,
{
    lemma_empty_bitmap_count((BOARD_SIZE * BOARD_SIZE) as nat);
}

/// A proven shot keeps the session well formed and decides how it goes on:
/// it ends, with the shooter as winner and no one to move, exactly when the
/// defender's hits reach the ship cells; otherwise the defender moves next.
/// Either way no shot is pending afterwards.
pub proof fn lemma_resolution_keeps_session_well_formed(
    g: GameView,
    defender: Seq<u8>,
    is_hit: bool,
    sunk_ship: u32,
    expected_hash: Seq<u8>,
    given_hash: Seq<u8>,
    proof_valid: bool,
)
    requires
        g.wf(),
        resolve_outcome(g, defender, is_hit, sunk_ship, expected_hash, given_hash, proof_valid) is Ok,
    ensures
        ({
            let (g2, res) = resolve_outcome(
                g,
                defender,
                is_hit,
                sunk_ship,
                expected_hash,
                given_hash,
                proof_valid,
            )->Ok_0;
            let shooter = g.pending_shot->0.shooter;
            &&& g2.wf()
            &&& g2.pending_shot is None
            &&& (g2.phase == GamePhase::Ended <==> hits_of(g2, defender) >= TOTAL_SHIP_CELLS)
            &&& (g2.phase == GamePhase::Ended ==> g2.winner == Some(shooter) && res.winner == Some(
                shooter,
            ) && g2.turn is None && res.next_turn is None)
            &&& (g2.phase != GamePhase::Ended ==> g2.phase == GamePhase::InProgress && g2.turn == Some(
                defender,
            ) && res.next_turn == Some(defender) && res.winner is None)
            &&& hits_of(g2, defender) <= TOTAL_SHIP_CELLS
            &&& hits_of(g2, defender) <= resolved_count(shots_of(g2, shooter))
        }),
{
    lemma_resolution_marks_one_cell(g, defender, is_hit, sunk_ship, expected_hash, given_hash, proof_valid);
}

/// A binding hash other than the one the pending shot calls for is refused
/// as such, whatever the proof verifier would say, once the checks before
/// the hash pass.
pub proof fn lemma_wrong_hash_refused(
    g: GameView,
    defender: Seq<u8>,
    is_hit: bool,
    sunk_ship: u32,
    expected_hash: Seq<u8>,
    given_hash: Seq<u8>,
    proof_valid: bool,
)
    requires
        resolve_precheck(g, defender, is_hit, sunk_ship) is Ok,
        expected_hash != given_hash,
    ensures
        resolve_outcome(g, defender, is_hit, sunk_ship, expected_hash, given_hash, proof_valid) == Err::<
            (GameView, ShotResultView),
            Error,
        >(Error::InvalidPublicInputsHash),
{
}

/// A ship already marked sunk on the defender's board cannot be reported
/// sunk again: a resolution that would otherwise succeed is refused, and
/// (by the operations' contracts) leaves the session as it was.
pub proof fn lemma_sunk_ship_reported_once(
    g: GameView,
    defender: Seq<u8>,
    sunk_ship: u32,
    expected_hash: Seq<u8>,
    given_hash: Seq<u8>,
)
    requires
        request_outcome(g, defender, true, sunk_ship, expected_hash, given_hash) is Ok,
        hits_of(g, defender) < TOTAL_SHIP_CELLS,
        1 <= sunk_ship <= 5,
        sunk_of(g, defender) & ship_mask(ship_of(sunk_ship)->Ok_0->0) != 0,
    ensures
        resolve_outcome(g, defender, true, sunk_ship, expected_hash, given_hash, true) == Err::<
            (GameView, ShotResultView),
            Error,
        >(Error::ShipAlreadySunk),
{
}

/// A cell once resolved for a shooter is never accepted again from that
/// shooter: firing at it is refused, and so is resolving a pending shot at it.
pub proof fn lemma_resolved_cell_refused(
    g: GameView,
    shooter: Seq<u8>,
    x: u32,
    y: u32,
    defender: Seq<u8>,
    is_hit: bool,
    sunk_ship: u32,
)
    requires
        on_board(x, y),
        shooter == g.player1 || shooter == g.player2,
        cell_marked(shots_of(g, shooter), cell_index(x, y)),
    ensures
        fire_outcome(g, shooter, x, y) is Err,
        g.phase == GamePhase::InProgress && g.pending_shot is None && g.turn == Some(shooter)
            ==> fire_outcome(g, shooter, x, y) == Err::<GameView, Error>(Error::ShotAlreadyResolved),
        g.pending_shot == Some(ShotView { shooter, x, y }) ==> resolve_precheck(
            g,
            defender,
            is_hit,
            sunk_ship,
        ) is Err,
        g.phase == GamePhase::InProgress && g.pending_shot == Some(ShotView { shooter, x, y })
            && opponent_of(g, shooter) == Ok::<Seq<u8>, Error>(defender) && ship_of(sunk_ship) is Ok
            && (ship_of(sunk_ship)->Ok_0 is Some ==> is_hit) ==> forall|
            expected_hash: Seq<u8>,
            given_hash: Seq<u8>,
            proof_valid: bool,
        |
            #[trigger] resolve_outcome(
                g,
                defender,
                is_hit,
                sunk_ship,
                expected_hash,
                given_hash,
                proof_valid,
            ) == Err::<(GameView, ShotResultView), Error>(Error::ShotAlreadyResolved),
{
    lemma_coord_bit_marks_cell(shots_of(g, shooter), x, y);
}

/// A well-formed session has a winner exactly when it has ended, every
/// operation keeps it so, and an ended session refuses every further
/// commitment, shot and resolution as already ended.
pub proof fn lemma_ended_session_is_final(
    g: GameView,
    player: Seq<u8>,
    board_commitment: [u8; 32],
    x: u32,
    y: u32,
    defender: Seq<u8>,
    is_hit: bool,
    sunk_ship: u32,
    expected_hash: Seq<u8>,
    given_hash: Seq<u8>,
    proof_valid: bool,
)
    requires
        g.wf(),
    ensures
        g.phase == GamePhase::Ended <==> g.winner is Some,
        commit_outcome(g, player, board_commitment) matches Ok(g2) ==> g2.wf(),
        fire_outcome(g, player, x, y) matches Ok(g2) ==> g2.wf(),
        resolve_outcome(g, defender, is_hit, sunk_ship, expected_hash, given_hash, proof_valid) matches Ok(
            (g2, _),
        ) ==> g2.wf() && (g2.phase == GamePhase::Ended ==> g2.winner == Some(g.pending_shot->0.shooter)),
        g.phase == GamePhase::Ended ==> commit_outcome(g, player, board_commitment) == Err::<
            GameView,
            Error,
        >(Error::GameAlreadyEnded),
        g.phase == GamePhase::Ended ==> fire_outcome(g, player, x, y) == Err::<GameView, Error>(
            Error::GameAlreadyEnded,
        ),
        g.phase == GamePhase::Ended ==> resolve_outcome(
            g,
            defender,
            is_hit,
            sunk_ship,
            expected_hash,
            given_hash,
            proof_valid,
        ) == Err::<(GameView, ShotResultView), Error>(Error::GameAlreadyEnded),
{
    if resolve_outcome(g, defender, is_hit, sunk_ship, expected_hash, given_hash, proof_valid) is Ok {
        lemma_resolution_keeps_session_well_formed(
            g,
            defender,
            is_hit,
            sunk_ship,
            expected_hash,
            given_hash,
            proof_valid,
        );
    }
}

/// The binding-hash preimage separates its fields: two preimages are equal
/// only when every field is, given defender texts of equal length (as
/// addresses' texts are, and as a change of any other single field keeps
/// them). The hash is a function of the preimage, so equal inputs give equal
/// hashes; a change of any single field changes what is hashed.
pub proof fn lemma_shot_preimage_separates_fields(
    session_id: u32,
    defender: Seq<u8>,
    shooter: Seq<u8>,
    x: u32,
    y: u32,
    is_hit: bool,
    sunk_ship: u32,
    board_commitment: Seq<u8>,
    session_id2: u32,
    defender2: Seq<u8>,
    shooter2: Seq<u8>,
    x2: u32,
    y2: u32,
    is_hit2: bool,
    sunk_ship2: u32,
    board_commitment2: Seq<u8>,
)
    requires
        board_commitment.len() == 32,
        board_commitment2.len() == 32,
        defender.len() == defender2.len(),
        shot_preimage(session_id, defender, shooter, x, y, is_hit, sunk_ship, board_commitment)
            == shot_preimage(
            session_id2,
            defender2,
            shooter2,
            x2,
            y2,
            is_hit2,
            sunk_ship2,
            board_commitment2,
        ),
    ensures
        session_id == session_id2,
        x == x2,
        y == y2,
        is_hit == is_hit2,
        sunk_ship == sunk_ship2,
        board_commitment == board_commitment2,
        defender == defender2,
        shooter == shooter2,
{
    let p = shot_preimage(session_id, defender, shooter, x, y, is_hit, sunk_ship, board_commitment);
    let q = shot_preimage(
        session_id2,
        defender2,
        shooter2,
        x2,
        y2,
        is_hit2,
        sunk_ship2,
        board_commitment2,
    );
    let dl = defender.len() as int;
    assert(p.subrange(0, 4) =~= u32_be(session_id));
    assert(q.subrange(0, 4) =~= u32_be(session_id2));
    assert(p.subrange(4, 8) =~= u32_be(x));
    assert(q.subrange(4, 8) =~= u32_be(x2));
    assert(p.subrange(8, 12) =~= u32_be(y));
    assert(q.subrange(8, 12) =~= u32_be(y2));
    assert(p[12] == if is_hit { 1u8 } else { 0u8 });
    assert(q[12] == if is_hit2 { 1u8 } else { 0u8 });
    assert(p.subrange(13, 17) =~= u32_be(sunk_ship));
    assert(q.subrange(13, 17) =~= u32_be(sunk_ship2));
    assert(p.subrange(17, 49) =~= board_commitment);
    assert(q.subrange(17, 49) =~= board_commitment2);
    assert(p.subrange(49, 49 + dl) =~= defender);
    assert(q.subrange(49, 49 + dl) =~= defender2);
    assert(p.subrange(49 + dl, p.len() as int) =~= shooter);
    assert(q.subrange(49 + dl, q.len() as int) =~= shooter2);
    crate::bytes::lemma_u32_be_injective(session_id, session_id2);
    crate::bytes::lemma_u32_be_injective(x, x2);
    crate::bytes::lemma_u32_be_injective(y, y2);
    crate::bytes::lemma_u32_be_injective(sunk_ship, sunk_ship2);
}

} // verus!
