use vstd::prelude::*;

use soroban_sdk::Env;

use crate::bytes::{append_bytes, bytes_equal, push_u32_be, u32_be};
use crate::hashing::{keccak256, keccak256_of};
use crate::player::{duplicate_opt, opt_view, PlayerId};

verus! {

pub const WORD_LENGTH: u32 = 5;
/// Letters are numbered 0 (A) to 25 (Z).
pub const ALPHABET_SIZE: u32 = 26;
pub const MAX_GUESSES: u32 = 6;
/// Bytes of the fixed-width head of a guess's binding-hash preimage.
pub const GUESS_HEADER_BYTES: u32 = 15;

#[derive(Clone, Copy, Debug, PartialEq, Eq, Structural)]
pub enum DomainError {
    GameNotFound,
    GameAlreadyExists,
    GameAlreadyEnded,
    InvalidPhase,
    NotPlayer,
    NotWordSetter,
    NotGuesser,
    SelfPlayNotAllowed,
    WordAlreadyCommitted,
    WordNotCommitted,
    InvalidLetterValue,
    PendingGuessExists,
    NoPendingGuess,
    MaxGuessesReached,
    InvalidFeedbackLength,
    InvalidFeedbackValue,
    InvalidPublicInputsHash,
    InvalidProof,
    /// A guess of these letters was already resolved in this session.
    GuessAlreadyResolved,
}

/// The feedback for one letter of a guess.
#[derive(Clone, Copy, Debug, PartialEq, Eq, Structural)]
pub enum FeedbackStatus {
    /// The letter is not in the word.
    Absent,
    /// The letter is in the word at another position.
    Present,
    /// The letter is at this position in the word.
    Correct,
}

/// The status that a feedback code stands for.
pub open spec fn status_of(v: u32) -> Result<FeedbackStatus, DomainError> {
    if v == 0 {
        Ok(FeedbackStatus::Absent)
    } else if v == 1 {
        Ok(FeedbackStatus::Present)
    } else if v == 2 {
        Ok(FeedbackStatus::Correct)
    } else {
        Err(DomainError::InvalidFeedbackValue)
    }
}

/// The code of a status.
pub open spec fn code_of(s: FeedbackStatus) -> u32 {
    match s {
        FeedbackStatus::Absent => 0,
        FeedbackStatus::Present => 1,
        FeedbackStatus::Correct => 2,
    }
}

impl FeedbackStatus {
    pub fn from_u32(value: u32) -> (r: Result<FeedbackStatus, DomainError>)
        ensures
            r == status_of(value),
    {
        match value {
            0 => Ok(FeedbackStatus::Absent),
            1 => Ok(FeedbackStatus::Present),
            2 => Ok(FeedbackStatus::Correct),
            _ => Err(DomainError::InvalidFeedbackValue),
        }
    }

    pub fn as_u32(&self) -> (r: u32)
        ensures
            r == code_of(*self),
    {
        match self {
            FeedbackStatus::Absent => 0,
            FeedbackStatus::Present => 1,
            FeedbackStatus::Correct => 2,
        }
    }
}

/// Why a list of feedback codes is not the feedback of a guess, if it is not.
pub open spec fn feedback_error(codes: Seq<u32>) -> Option<DomainError> {
    if codes.len() != WORD_LENGTH {
        Some(DomainError::InvalidFeedbackLength)
    } else if exists|i: int| 0 <= i < codes.len() && #[trigger] status_of(codes[i]) is Err {
        Some(DomainError::InvalidFeedbackValue)
    } else {
        None
    }
}

/// Every position of the feedback is correct.
pub open spec fn all_correct(statuses: Seq<FeedbackStatus>) -> bool {
    forall|i: int| 0 <= i < statuses.len() ==> #[trigger] statuses[i] == FeedbackStatus::Correct
}

/// The feedback for a whole guess, one status per letter.
#[derive(Clone, Debug)]
pub struct Feedback {
    statuses: [FeedbackStatus; 5],
}

impl View for Feedback {
    type V = Seq<FeedbackStatus>;

    closed spec fn view(&self) -> Seq<FeedbackStatus> {
        self.statuses@
    }
}

impl Feedback {
    /// The feedback that five codes stand for.
    pub fn from_vec(feedback: &Vec<u32>) -> (r: Result<Feedback, DomainError>)
        ensures
            match r {
                Ok(f) => feedback_error(feedback@) is None && f@.len() == WORD_LENGTH && forall|i: int|
                    0 <= i < WORD_LENGTH ==> status_of(#[trigger] feedback@[i]) == Ok::<
                        FeedbackStatus,
                        DomainError,
                    >(f@[i]),
                Err(e) => feedback_error(feedback@) == Some(e),
            },
    {
        if feedback.len() != WORD_LENGTH as usize {
            return Err(DomainError::InvalidFeedbackLength);
        }
        let mut statuses = [FeedbackStatus::Absent; 5];
        let mut i: usize = 0;
        while i < 5
            invariant
                feedback@.len() == 5,
                i <= 5,
                statuses@.len() == 5,
                forall|j: int| 0 <= j < i ==> status_of(#[trigger] feedback@[j]) == Ok::<
                    FeedbackStatus,
                    DomainError,
                >(statuses@[j]),
            decreases 5 - i,
        {
            match FeedbackStatus::from_u32(feedback[i]) {
                Ok(s) => {
                    statuses[i] = s;
                },
                Err(e) => {
                    assert(status_of(feedback@[i as int]) is Err);
                    return Err(e);
                },
            }
            i += 1;
        }
        assert(!exists|k: int| 0 <= k < feedback@.len() && #[trigger] status_of(feedback@[k]) is Err);
        Ok(Feedback { statuses })
    }

    /// The codes of the statuses.
    pub fn to_vec(&self) -> (r: Vec<u32>)
        ensures
            r@.len() == self@.len(),
            forall|i: int| 0 <= i < r@.len() ==> r@[i] == code_of(#[trigger] self@[i]),
    {
        let mut out: Vec<u32> = Vec::new();
        let mut i: usize = 0;
        while i < 5
            invariant
                i <= 5,
                self@.len() == 5,
                out@.len() == i,
                forall|j: int| 0 <= j < i ==> out@[j] == code_of(#[trigger] self@[j]),
            decreases 5 - i,
        {
            out.push(self.statuses[i].as_u32());
            i += 1;
        }
        out
    }

    pub fn statuses(&self) -> (r: &[FeedbackStatus; 5])
        ensures
            r@ == self@,
    {
        &self.statuses
    }

    /// Whether the guess was right at every position.
    pub fn is_all_correct(&self) -> (r: bool)
        ensures
            r == all_correct(self@),
    {
        let mut i: usize = 0;
        while i < 5
            invariant
                i <= 5,
                self@.len() == 5,
                forall|j: int| 0 <= j < i ==> #[trigger] self@[j] == FeedbackStatus::Correct,
            decreases 5 - i,
        {
            if self.statuses[i] != FeedbackStatus::Correct {
                return false;
            }
            i += 1;
        }
        true
    }

    /// The claimed correctness flag must say whether every position is correct.
    pub fn validate_correctness(&self, is_correct: bool) -> (r: Result<(), DomainError>)
        ensures
            r == if is_correct == all_correct(self@) {
                Ok::<(), DomainError>(())
            } else {
                Err::<(), DomainError>(DomainError::InvalidFeedbackValue)
            },
    {
        if is_correct != self.is_all_correct() {
            return Err(DomainError::InvalidFeedbackValue);
        }
        Ok(())
    }
}

/// Every letter is in the alphabet.
pub open spec fn letters_valid(letters: Seq<u8>) -> bool {
    forall|i: int| 0 <= i < letters.len() ==> #[trigger] letters[i] < ALPHABET_SIZE
}

fn check_letters(letters: &[u8; 5]) -> (r: Result<(), DomainError>)
    ensures
        r == if letters_valid(letters@) {
            Ok::<(), DomainError>(())
        } else {
            Err::<(), DomainError>(DomainError::InvalidLetterValue)
        },
{
    let mut i: usize = 0;
    while i < 5
        invariant
            i <= 5,
            letters@.len() == 5,
            forall|j: int| 0 <= j < i ==> #[trigger] letters@[j] < ALPHABET_SIZE,
        decreases 5 - i,
    {
        if letters[i] >= ALPHABET_SIZE as u8 {
            return Err(DomainError::InvalidLetterValue);
        }
        i += 1;
    }
    Ok(())
}

/// A secret word: five letters. Only its commitment is ever stored.
#[derive(Clone, Debug)]
pub struct Word {
    letters: [u8; 5],
}

impl View for Word {
    type V = Seq<u8>;

    closed spec fn view(&self) -> Seq<u8> {
        self.letters@
    }
}

impl Word {
    pub fn new(letters: [u8; 5]) -> (r: Result<Word, DomainError>)
        ensures
            match r {
                Ok(w) => letters_valid(letters@) && w@ == letters@,
                Err(e) => !letters_valid(letters@) && e == DomainError::InvalidLetterValue,
            },
    {
        match check_letters(&letters) {
            Ok(()) => Ok(Word { letters }),
            Err(e) => Err(e),
        }
    }

    pub fn letters(&self) -> (r: &[u8; 5])
        ensures
            r@ == self@,
    {
        &self.letters
    }
}

/// A guess: five letters.
#[derive(Clone, Debug)]
pub struct Guess {
    letters: [u8; 5],
}

impl View for Guess {
    type V = [u8; 5];

    closed spec fn view(&self) -> [u8; 5] {
        self.letters
    }
}

impl Guess {
    pub fn new(letters: [u8; 5]) -> (r: Result<Guess, DomainError>)
        ensures
            match r {
                Ok(g) => letters_valid(letters@) && g@ == letters,
                Err(e) => !letters_valid(letters@) && e == DomainError::InvalidLetterValue,
            },
    {
        match check_letters(&letters) {
            Ok(()) => Ok(Guess { letters }),
            Err(e) => Err(e),
        }
    }

    pub fn letters(&self) -> (r: &[u8; 5])
        ensures
            *r == self@,
    {
        &self.letters
    }

    pub fn to_array(&self) -> (r: [u8; 5])
        ensures
            r == self@,
    {
        self.letters
    }
}

#[derive(Clone, Copy, Debug, PartialEq, Eq, Structural)]
pub enum GamePhase {
    /// Waiting for the word setter to commit the word.
    WaitingForWord,
    InProgress,
    Ended,
}

#[derive(Clone, Copy, Debug, PartialEq, Eq, Structural)]
pub struct GameRules {
    pub word_length: u32,
    pub max_guesses: u32,
    pub alphabet_size: u32,
}

impl Default for GameRules {
    fn default() -> (r: GameRules)
        ensures
            r == (GameRules { word_length: 5, max_guesses: 6, alphabet_size: 26 }),
    {
        GameRules { word_length: WORD_LENGTH, max_guesses: MAX_GUESSES, alphabet_size: ALPHABET_SIZE }
    }
}

/// One word-game session, with the history of its resolved guesses.
#[derive(Clone, Debug, PartialEq, Eq)]
pub struct Game {
    pub word_setter: PlayerId,
    pub guesser: PlayerId,
    pub word_setter_points: i128,
    pub guesser_points: i128,
    pub phase: GamePhase,
    pub word_commitment: Option<[u8; 32]>,
    pub guess_count: u32,
    pub pending_guess: Option<[u8; 5]>,
    pub winner: Option<PlayerId>,
    pub guesses: Vec<[u8; 5]>,
    pub feedbacks: Vec<Vec<u32>>,
}

pub ghost struct GameView {
    pub word_setter: Seq<u8>,
    pub guesser: Seq<u8>,
    pub word_setter_points: i128,
    pub guesser_points: i128,
    pub phase: GamePhase,
    pub word_commitment: Option<[u8; 32]>,
    pub guess_count: u32,
    pub pending_guess: Option<[u8; 5]>,
    pub winner: Option<Seq<u8>>,
    pub guesses: Seq<[u8; 5]>,
    pub feedbacks: Seq<Seq<u32>>,
}

impl View for Game {
    type V = GameView;

    open spec fn view(&self) -> GameView {
        GameView {
            word_setter: self.word_setter@,
            guesser: self.guesser@,
            word_setter_points: self.word_setter_points,
            guesser_points: self.guesser_points,
            phase: self.phase,
            word_commitment: self.word_commitment,
            guess_count: self.guess_count,
            pending_guess: self.pending_guess,
            winner: opt_view(self.winner),
            guesses: self.guesses@,
            feedbacks: self.feedbacks@.map_values(|f: Vec<u32>| f@),
        }
    }
}

impl GameView {
    /// The session's lasting invariant: the players differ, a game has a
    /// winner exactly when it has ended, a game in progress has its word
    /// committed, and the guess count is the length of the history and never
    /// passes the limit.
    pub open spec fn wf(self) -> bool {
        &&& self.word_setter != self.guesser
        &&& (self.phase == GamePhase::Ended <==> self.winner is Some)
        &&& (self.phase == GamePhase::InProgress ==> self.word_commitment is Some)
        &&& self.guess_count <= MAX_GUESSES
        &&& self.guesses.len() == self.guess_count
        &&& self.feedbacks.len() == self.guess_count
    }
}

/// How a resolved guess leaves the game.
#[derive(Clone, Copy, Debug, PartialEq, Eq, Structural)]
pub enum GameOutcome {
    Continue,
    GuesserWins,
    /// The guesses ran out.
    WordSetterWins,
}

impl GameOutcome {
    pub fn is_game_over(&self) -> (r: bool)
        ensures
            r == (*self != GameOutcome::Continue),
    {
        match self {
            GameOutcome::Continue => false,
            _ => true,
        }
    }
}

/// What a resolved guess reports.
#[derive(Clone, Debug, PartialEq, Eq)]
pub struct GuessResult {
    /// Which guess this was, from 1.
    pub guess_number: u32,
    pub feedback: Vec<u32>,
    pub is_correct: bool,
    pub winner: Option<PlayerId>,
    pub game_ended: bool,
}

/// What committing the word does to a session.
pub open spec fn commit_word_outcome(g: GameView, player: Seq<u8>, c: [u8; 32]) -> Result<GameView, DomainError> {
    if g.phase == GamePhase::Ended {
        Err(DomainError::GameAlreadyEnded)
    } else if g.phase != GamePhase::WaitingForWord {
        Err(DomainError::InvalidPhase)
    } else if player != g.word_setter {
        Err(DomainError::NotWordSetter)
    } else if g.word_commitment is Some {
        Err(DomainError::WordAlreadyCommitted)
    } else {
        Ok(GameView { word_commitment: Some(c), phase: GamePhase::InProgress, ..g })
    }
}

/// A guess of these letters is in the history of resolved guesses.
pub open spec fn already_guessed(guesses: Seq<[u8; 5]>, letters: [u8; 5]) -> bool {
    exists|j: int| 0 <= j < guesses.len() && #[trigger] guesses[j]@ == letters@
}

/// Whether a guess of these letters was already resolved.
fn guessed_before(guesses: &Vec<[u8; 5]>, letters: &[u8; 5]) -> (r: bool)
    ensures
        r == already_guessed(guesses@, *letters),
{
    let mut i: usize = 0;
    while i < guesses.len()
        invariant
            i <= guesses@.len(),
            forall|j: int| 0 <= j < i ==> #[trigger] guesses@[j]@ != letters@,
        decreases guesses@.len() - i,
    {
        if bytes_equal(guesses[i].as_slice(), letters.as_slice()) {
            assert(guesses@[i as int]@ == letters@);
            return true;
        }
        i += 1;
    }
    false
}

/// What submitting a guess does to a session.
pub open spec fn submit_outcome(g: GameView, player: Seq<u8>, letters: [u8; 5]) -> Result<GameView, DomainError> {
    if g.phase == GamePhase::Ended {
        Err(DomainError::GameAlreadyEnded)
    } else if g.phase != GamePhase::InProgress {
        Err(DomainError::InvalidPhase)
    } else if player != g.guesser {
        Err(DomainError::NotGuesser)
    } else if g.pending_guess is Some {
        Err(DomainError::PendingGuessExists)
    } else if g.guess_count >= MAX_GUESSES {
        Err(DomainError::MaxGuessesReached)
    } else if already_guessed(g.guesses, letters) {
        Err(DomainError::GuessAlreadyResolved)
    } else {
        Ok(GameView { pending_guess: Some(letters), ..g })
    }
}

/// The session after its pending guess was resolved, and how it goes on.
pub open spec fn apply_guess(g: GameView, codes: Seq<u32>, is_correct: bool) -> (GameView, GameOutcome) {
    let count = (g.guess_count + 1) as u32;
    let g1 = GameView {
        guesses: g.guesses.push(g.pending_guess->0),
        feedbacks: g.feedbacks.push(codes),
        guess_count: count,
        pending_guess: None,
        ..g
    };
    if is_correct {
        (GameView { phase: GamePhase::Ended, winner: Some(g.guesser), ..g1 }, GameOutcome::GuesserWins)
    } else if count >= MAX_GUESSES {
        (
            GameView { phase: GamePhase::Ended, winner: Some(g.word_setter), ..g1 },
            GameOutcome::WordSetterWins,
        )
    } else {
        (g1, GameOutcome::Continue)
    }
}

/// What resolving the pending guess with proven feedback does to a session.
pub open spec fn resolve_guess_outcome(
    g: GameView,
    player: Seq<u8>,
    statuses: Seq<FeedbackStatus>,
    is_correct: bool,
) -> Result<(GameView, GameOutcome), DomainError> {
    if g.phase == GamePhase::Ended {
        Err(DomainError::GameAlreadyEnded)
    } else if g.phase != GamePhase::InProgress {
        Err(DomainError::InvalidPhase)
    } else if player != g.word_setter {
        Err(DomainError::NotWordSetter)
    } else if g.pending_guess is None {
        Err(DomainError::NoPendingGuess)
    } else if already_guessed(g.guesses, g.pending_guess->0) {
        Err(DomainError::GuessAlreadyResolved)
    } else if is_correct != all_correct(statuses) {
        Err(DomainError::InvalidFeedbackValue)
    } else if g.guess_count >= MAX_GUESSES {
        Err(DomainError::MaxGuessesReached)
    } else {
        Ok(apply_guess(g, statuses.map_values(|s: FeedbackStatus| code_of(s)), is_correct))
    }
}

fn copy_codes(v: &Vec<u32>) -> (r: Vec<u32>)
    ensures
        r@ == v@,
{
    let mut out: Vec<u32> = Vec::new();
    let mut i: usize = 0;
    while i < v.len()
        invariant
            i <= v@.len(),
            out@ == v@.subrange(0, i as int),
        decreases v@.len() - i,
    {
        out.push(v[i]);
        assert(v@.subrange(0, i + 1) == v@.subrange(0, i as int).push(v@[i as int]));
        i += 1;
    }
    assert(v@ == v@.subrange(0, v@.len() as int));
    out
}

impl Game {
    /// A new session waiting for the word, between two distinct players.
    pub fn new(word_setter: PlayerId, guesser: PlayerId, word_setter_points: i128, guesser_points: i128) -> (r:
        Result<Game, DomainError>)
        ensures
            match r {
                Ok(g) => word_setter@ != guesser@ && g@ == (GameView {
                    word_setter: word_setter@,
                    guesser: guesser@,
                    word_setter_points,
                    guesser_points,
                    phase: GamePhase::WaitingForWord,
                    word_commitment: None,
                    guess_count: 0,
                    pending_guess: None,
                    winner: None,
                    guesses: Seq::empty(),
                    feedbacks: Seq::empty(),
                }) && g@.wf(),
                Err(e) => word_setter@ == guesser@ && e == DomainError::SelfPlayNotAllowed,
            },
    {
        if word_setter.same_as(&guesser) {
            return Err(DomainError::SelfPlayNotAllowed);
        }
        let g = Game {
            word_setter,
            guesser,
            word_setter_points,
            guesser_points,
            phase: GamePhase::WaitingForWord,
            word_commitment: None,
            guess_count: 0,
            pending_guess: None,
            winner: None,
            guesses: Vec::new(),
            feedbacks: Vec::new(),
        };
        assert(g@.guesses =~= Seq::<[u8; 5]>::empty());
        assert(g@.feedbacks =~= Seq::<Seq<u32>>::empty());
        Ok(g)
    }

    /// The word setter commits the secret word, which starts the game.
    pub fn commit_word(&mut self, player: &PlayerId, commitment: [u8; 32]) -> (r: Result<(), DomainError>)
        ensures
            match r {
                Ok(()) => commit_word_outcome(old(self)@, player@, commitment) == Ok::<GameView, DomainError>(
                    final(self)@,
                ),
                Err(e) => commit_word_outcome(old(self)@, player@, commitment) == Err::<
                    GameView,
                    DomainError,
                >(e) && *final(self) == *old(self),
            },
            old(self)@.wf() ==> final(self)@.wf(),
    {
        if self.phase == GamePhase::Ended {
            return Err(DomainError::GameAlreadyEnded);
        }
        if self.phase != GamePhase::WaitingForWord {
            return Err(DomainError::InvalidPhase);
        }
        if !player.same_as(&self.word_setter) {
            return Err(DomainError::NotWordSetter);
        }
        if self.word_commitment.is_some() {
            return Err(DomainError::WordAlreadyCommitted);
        }
        self.word_commitment = Some(commitment);
        self.phase = GamePhase::InProgress;
        Ok(())
    }

    /// The guesser submits a guess while no other waits and guesses remain.
    pub fn submit_guess(&mut self, player: &PlayerId, guess: &Guess) -> (r: Result<(), DomainError>)
        ensures
            match r {
                Ok(()) => submit_outcome(old(self)@, player@, guess@) == Ok::<GameView, DomainError>(
                    final(self)@,
                ),
                Err(e) => submit_outcome(old(self)@, player@, guess@) == Err::<GameView, DomainError>(e)
                    && *final(self) == *old(self),
            },
            old(self)@.wf() ==> final(self)@.wf(),
    {
        if self.phase == GamePhase::Ended {
            return Err(DomainError::GameAlreadyEnded);
        }
        if self.phase != GamePhase::InProgress {
            return Err(DomainError::InvalidPhase);
        }
        if !player.same_as(&self.guesser) {
            return Err(DomainError::NotGuesser);
        }
        if self.pending_guess.is_some() {
            return Err(DomainError::PendingGuessExists);
        }
        if self.guess_count >= MAX_GUESSES {
            return Err(DomainError::MaxGuessesReached);
        }
        let letters = guess.to_array();
        if guessed_before(&self.guesses, &letters) {
            return Err(DomainError::GuessAlreadyResolved);
        }
        self.pending_guess = Some(letters);
        Ok(())
    }

    /// Records the proven feedback for the pending guess; a correct guess
    /// wins for the guesser, and the last allowed wrong one for the setter.
    pub fn resolve_guess(&mut self, player: &PlayerId, feedback: &Feedback, is_correct: bool) -> (r: Result<
        GameOutcome,
        DomainError,
    >)
        ensures
            match r {
                Ok(o) => resolve_guess_outcome(old(self)@, player@, feedback@, is_correct) == Ok::<
                    (GameView, GameOutcome),
                    DomainError,
                >((final(self)@, o)),
                Err(e) => resolve_guess_outcome(old(self)@, player@, feedback@, is_correct) == Err::<
                    (GameView, GameOutcome),
                    DomainError,
                >(e) && *final(self) == *old(self),
            },
            old(self)@.wf() ==> final(self)@.wf(),
    {
        if self.phase == GamePhase::Ended {
            return Err(DomainError::GameAlreadyEnded);
        }
        if self.phase != GamePhase::InProgress {
            return Err(DomainError::InvalidPhase);
        }
        if !player.same_as(&self.word_setter) {
            return Err(DomainError::NotWordSetter);
        }
        let letters = match self.pending_guess {
            Some(l) => l,
            None => return Err(DomainError::NoPendingGuess),
        };
        if guessed_before(&self.guesses, &letters) {
            return Err(DomainError::GuessAlreadyResolved);
        }
        if let Err(e) = feedback.validate_correctness(is_correct) {
            return Err(e);
        }
        if self.guess_count >= MAX_GUESSES {
            return Err(DomainError::MaxGuessesReached);
        }
        let codes = feedback.to_vec();
        proof {
            assert(codes@ =~= feedback@.map_values(|s: FeedbackStatus| code_of(s)));
        }
        let ghost old_feedbacks = self@.feedbacks;
        self.guesses.push(letters);
        self.feedbacks.push(codes);
        proof {
            assert(self.feedbacks@.map_values(|f: Vec<u32>| f@) =~= old_feedbacks.push(codes@));
        }
        self.guess_count = self.guess_count + 1;
        self.pending_guess = None;
        if is_correct {
            self.phase = GamePhase::Ended;
            self.winner = Some(self.guesser.duplicate());
            Ok(GameOutcome::GuesserWins)
        } else if self.guess_count >= MAX_GUESSES {
            self.phase = GamePhase::Ended;
            self.winner = Some(self.word_setter.duplicate());
            Ok(GameOutcome::WordSetterWins)
        } else {
            Ok(GameOutcome::Continue)
        }
    }

    /// Puts `feedback_vec` in place of the newest feedback of the history.
    pub fn record_feedback(&mut self, feedback_vec: Vec<u32>)
        ensures
            old(self)@.feedbacks.len() > 0 ==> final(self)@ == (GameView {
                feedbacks: old(self)@.feedbacks.update(old(self)@.feedbacks.len() - 1, feedback_vec@),
                ..old(self)@
            }),
            old(self)@.feedbacks.len() == 0 ==> *final(self) == *old(self),
    {
        let len = self.feedbacks.len();
        if len > 0 {
            let ghost old_feedbacks = self@.feedbacks;
            self.feedbacks.set(len - 1, feedback_vec);
            proof {
                assert(self.feedbacks@.map_values(|f: Vec<u32>| f@) =~= old_feedbacks.update(
                    len - 1,
                    feedback_vec@,
                ));
            }
        }
    }

    pub fn get_word_commitment(&self) -> (r: Result<[u8; 32], DomainError>)
        ensures
            r == match self.word_commitment {
                Some(c) => Ok::<[u8; 32], DomainError>(c),
                None => Err::<[u8; 32], DomainError>(DomainError::WordNotCommitted),
            },
    {
        match self.word_commitment {
            Some(c) => Ok(c),
            None => Err(DomainError::WordNotCommitted),
        }
    }

    pub fn get_pending_guess(&self) -> (r: Option<[u8; 5]>)
        ensures
            r == self.pending_guess,
    {
        self.pending_guess
    }

    /// Whether the game was won by the guesser.
    pub fn guesser_won(&self) -> (r: bool)
        ensures
            r == (opt_view(self.winner) == Some(self.guesser@)),
    {
        match &self.winner {
            Some(w) => w.same_as(&self.guesser),
            None => false,
        }
    }
}

/// The byte that stands for feedback position `i` in a guess's preimage: the
/// low byte of its code, or 0 where the list is too short.
pub open spec fn feedback_byte(codes: Seq<u32>, i: int) -> u8 {
    if i < codes.len() {
        codes[i] as u8
    } else {
        0u8
    }
}

/// The bytes hashed into a guess's binding hash: session id (big-endian),
/// the five letters, five feedback bytes and the correctness flag, then the
/// word commitment and the texts of the word setter and of the guesser.
pub open spec fn guess_preimage(
    session_id: u32,
    word_setter: Seq<u8>,
    guesser: Seq<u8>,
    letters: Seq<u8>,
    codes: Seq<u32>,
    is_correct: bool,
    word_commitment: Seq<u8>,
) -> Seq<u8> {
    u32_be(session_id) + letters + Seq::new(5, |i: int| feedback_byte(codes, i)) + seq![
        if is_correct { 1u8 } else { 0u8 },
    ] + word_commitment + word_setter + guesser
}

/// The players' texts fit, with the rest of a preimage, in a host byte string.
pub open spec fn guess_hash_fits(a: Seq<u8>, b: Seq<u8>) -> bool {
    GUESS_HEADER_BYTES + 32 + a.len() + b.len() <= u32::MAX
}

/// The statuses that valid feedback codes stand for.
pub open spec fn statuses_of(codes: Seq<u32>) -> Seq<FeedbackStatus> {
    codes.map_values(|c: u32| status_of(c)->Ok_0)
}

pub ghost struct GuessResultView {
    pub guess_number: u32,
    pub feedback: Seq<u32>,
    pub is_correct: bool,
    pub winner: Option<Seq<u8>>,
    pub game_ended: bool,
}

impl View for GuessResult {
    type V = GuessResultView;

    open spec fn view(&self) -> GuessResultView {
        GuessResultView {
            guess_number: self.guess_number,
            feedback: self.feedback@,
            is_correct: self.is_correct,
            winner: opt_view(self.winner),
            game_ended: self.game_ended,
        }
    }
}

/// The binding hash that a resolution of the pending guess must carry.
pub open spec fn expected_guess_hash(
    session_id: u32,
    g: GameView,
    word_setter: Seq<u8>,
    codes: Seq<u32>,
    is_correct: bool,
) -> Seq<u8> {
    match (g.pending_guess, g.word_commitment) {
        (Some(l), Some(c)) => keccak256_of(
            guess_preimage(session_id, word_setter, g.guesser, l@, codes, is_correct, c@),
        ),
        _ => Seq::empty(),
    }
}

/// What a resolution request answers before the proof is checked: the word
/// commitment to hand to the proof verifier with the binding hash.
pub open spec fn guess_request_outcome(
    g: GameView,
    word_setter: Seq<u8>,
    codes: Seq<u32>,
    is_correct: bool,
    expected_hash: Seq<u8>,
    given_hash: Seq<u8>,
) -> Result<[u8; 32], DomainError> {
    if g.phase == GamePhase::Ended {
        Err(DomainError::GameAlreadyEnded)
    } else if word_setter != g.word_setter {
        Err(DomainError::NotWordSetter)
    } else if feedback_error(codes) is Some {
        Err(feedback_error(codes)->0)
    } else if is_correct != all_correct(statuses_of(codes)) {
        Err(DomainError::InvalidFeedbackValue)
    } else if g.word_commitment is None {
        Err(DomainError::WordNotCommitted)
    } else if g.pending_guess is None {
        Err(DomainError::NoPendingGuess)
    } else if already_guessed(g.guesses, g.pending_guess->0) {
        Err(DomainError::GuessAlreadyResolved)
    } else if expected_hash != given_hash {
        Err(DomainError::InvalidPublicInputsHash)
    } else {
        Ok(g.word_commitment->0)
    }
}

/// What resolving the pending guess does, given the hash the resolution must
/// carry, the hash it carries, and the proof verifier's verdict.
pub open spec fn resolve_command_outcome(
    g: GameView,
    word_setter: Seq<u8>,
    codes: Seq<u32>,
    is_correct: bool,
    expected_hash: Seq<u8>,
    given_hash: Seq<u8>,
    proof_valid: bool,
) -> Result<(GameView, GuessResultView), DomainError> {
    match guess_request_outcome(g, word_setter, codes, is_correct, expected_hash, given_hash) {
        Err(e) => Err(e),
        Ok(_) => if !proof_valid {
            Err(DomainError::InvalidProof)
        } else {
            match resolve_guess_outcome(g, word_setter, statuses_of(codes), is_correct) {
                Err(e) => Err(e),
                Ok((g2, o)) => Ok(
                    (
                        g2,
                        GuessResultView {
                            guess_number: g2.guess_count,
                            feedback: codes,
                            is_correct,
                            winner: g2.winner,
                            game_ended: o != GameOutcome::Continue,
                        },
                    ),
                ),
            }
        },
    }
}

/// Creating a word-game session.
pub struct StartGameCommand;

impl StartGameCommand {
    /// A new session, unless the players are the same or the session id is
    /// taken (`exists`). The game hub is told before the session is stored.
    pub fn execute(
        exists: bool,
        word_setter: PlayerId,
        guesser: PlayerId,
        word_setter_points: i128,
        guesser_points: i128,
    ) -> (r: Result<Game, DomainError>)
        ensures
            match r {
                Ok(g) => word_setter@ != guesser@ && !exists && g@ == (GameView {
                    word_setter: word_setter@,
                    guesser: guesser@,
                    word_setter_points,
                    guesser_points,
                    phase: GamePhase::WaitingForWord,
                    word_commitment: None,
                    guess_count: 0,
                    pending_guess: None,
                    winner: None,
                    guesses: Seq::empty(),
                    feedbacks: Seq::empty(),
                }) && g@.wf(),
                Err(e) => if word_setter@ == guesser@ {
                    e == DomainError::SelfPlayNotAllowed
                } else {
                    exists && e == DomainError::GameAlreadyExists
                },
            },
    {
        if word_setter.same_as(&guesser) {
            return Err(DomainError::SelfPlayNotAllowed);
        }
        if exists {
            return Err(DomainError::GameAlreadyExists);
        }
        Game::new(word_setter, guesser, word_setter_points, guesser_points)
    }
}

/// Committing the secret word.
pub struct CommitWordCommand;

impl CommitWordCommand {
    pub fn execute(game: &mut Game, player: &PlayerId, word_commitment: [u8; 32]) -> (r: Result<
        (),
        DomainError,
    >)
        ensures
            match r {
                Ok(()) => commit_word_outcome(old(game)@, player@, word_commitment) == Ok::<
                    GameView,
                    DomainError,
                >(final(game)@),
                Err(e) => commit_word_outcome(old(game)@, player@, word_commitment) == Err::<
                    GameView,
                    DomainError,
                >(e) && *final(game) == *old(game),
            },
            old(game)@.wf() ==> final(game)@.wf(),
    {
        game.commit_word(player, word_commitment)
    }
}

/// Submitting a guess.
pub struct GuessCommand;

impl GuessCommand {
    /// The stored session (`None` when there is none) with the guess pending.
    /// The letters are checked before the session is looked at.
    pub fn execute(stored: Option<Game>, guesser: &PlayerId, guess_letters: [u8; 5]) -> (r: Result<
        Game,
        DomainError,
    >)
        ensures
            !letters_valid(guess_letters@) ==> r == Err::<Game, DomainError>(DomainError::InvalidLetterValue),
            letters_valid(guess_letters@) && stored is None ==> r == Err::<Game, DomainError>(
                DomainError::GameNotFound,
            ),
            letters_valid(guess_letters@) && stored is Some ==> match r {
                Ok(g2) => submit_outcome(stored->0@, guesser@, guess_letters) == Ok::<GameView, DomainError>(
                    g2@,
                ) && (stored->0@.wf() ==> g2@.wf()),
                Err(e) => submit_outcome(stored->0@, guesser@, guess_letters) == Err::<GameView, DomainError>(
                    e,
                ),
            },
    {
        let guess = match Guess::new(guess_letters) {
            Ok(g) => g,
            Err(e) => return Err(e),
        };
        let mut game = match stored {
            Some(g) => g,
            None => return Err(DomainError::GameNotFound),
        };
        match game.submit_guess(guesser, &guess) {
            Ok(()) => Ok(game),
            Err(e) => Err(e),
        }
    }
}

/// Resolving a guess with proven feedback.
pub struct ResolveGuessCommand;

impl ResolveGuessCommand {
    /// The bytes that a guess's binding hash is computed over.
    pub fn guess_hash_preimage(
        session_id: u32,
        word_setter: &PlayerId,
        guesser: &PlayerId,
        guess_letters: &[u8; 5],
        feedback: &Vec<u32>,
        is_correct: bool,
        word_commitment: &[u8; 32],
    ) -> (r: Vec<u8>)
        ensures
            r@ == guess_preimage(
                session_id,
                word_setter@,
                guesser@,
                guess_letters@,
                feedback@,
                is_correct,
                word_commitment@,
            ),
    {
        let mut out: Vec<u8> = Vec::new();
        push_u32_be(&mut out, session_id);
        append_bytes(&mut out, guess_letters.as_slice());
        let ghost head = out@;
        let mut i: usize = 0;
        while i < 5
            invariant
                i <= 5,
                out@ == head + Seq::new(i as nat, |j: int| feedback_byte(feedback@, j)),
            decreases 5 - i,
        {
            let b: u8 = if i < feedback.len() {
                feedback[i] as u8
            } else {
                0u8
            };
            out.push(b);
            assert(Seq::new((i + 1) as nat, |j: int| feedback_byte(feedback@, j)) =~= Seq::new(
                i as nat,
                |j: int| feedback_byte(feedback@, j),
            ).push(b));
            i += 1;
        }
        out.push(if is_correct { 1u8 } else { 0u8 });
        append_bytes(&mut out, word_commitment.as_slice());
        append_bytes(&mut out, word_setter.text.as_slice());
        append_bytes(&mut out, guesser.text.as_slice());
        out
    }

    /// The binding hash that a proof of this feedback must carry: the
    /// Keccak-256 digest of the guess's preimage.
    pub fn build_public_inputs_hash(
        env: &Env,
        session_id: u32,
        word_setter: &PlayerId,
        guesser: &PlayerId,
        guess_letters: &[u8; 5],
        feedback: &Vec<u32>,
        is_correct: bool,
        word_commitment: &[u8; 32],
    ) -> (r: [u8; 32])
        requires
            guess_hash_fits(word_setter@, guesser@),
        ensures
            r@ == keccak256_of(
                guess_preimage(
                    session_id,
                    word_setter@,
                    guesser@,
                    guess_letters@,
                    feedback@,
                    is_correct,
                    word_commitment@,
                ),
            ),
    {
        let preimage = Self::guess_hash_preimage(
            session_id,
            word_setter,
            guesser,
            guess_letters,
            feedback,
            is_correct,
            word_commitment,
        );
        keccak256(env, &preimage)
    }

    /// The checks of a resolution that come before its binding hash.
    fn precheck(game: &Game, word_setter: &PlayerId, feedback: &Vec<u32>, is_correct: bool) -> (r:
        Result<([u8; 32], [u8; 5], Feedback), DomainError>)
        ensures
            match r {
                Ok((c, l, f)) => {
                    &&& game.phase != GamePhase::Ended
                    &&& word_setter@ == game@.word_setter
                    &&& feedback_error(feedback@) is None
                    &&& is_correct == all_correct(statuses_of(feedback@))
                    &&& f@ == statuses_of(feedback@)
                    &&& game.word_commitment == Some(c)
                    &&& game.pending_guess == Some(l)
                    &&& !already_guessed(game@.guesses, l)
                },
                Err(e) => guess_request_outcome(
                    game@,
                    word_setter@,
                    feedback@,
                    is_correct,
                    Seq::empty(),
                    Seq::empty(),
                ) == Err::<[u8; 32], DomainError>(e),
            },
    {
        if game.phase == GamePhase::Ended {
            return Err(DomainError::GameAlreadyEnded);
        }
        if !word_setter.same_as(&game.word_setter) {
            return Err(DomainError::NotWordSetter);
        }
        let parsed = match Feedback::from_vec(feedback) {
            Ok(f) => f,
            Err(e) => return Err(e),
        };
        proof {
            assert(parsed@ =~= statuses_of(feedback@));
        }
        if let Err(e) = parsed.validate_correctness(is_correct) {
            return Err(e);
        }
        let commitment = match game.get_word_commitment() {
            Ok(c) => c,
            Err(e) => return Err(e),
        };
        let letters = match game.get_pending_guess() {
            Some(l) => l,
            None => return Err(DomainError::NoPendingGuess),
        };
        if guessed_before(&game.guesses, &letters) {
            return Err(DomainError::GuessAlreadyResolved);
        }
        Ok((commitment, letters, parsed))
    }

    /// Checks a resolution up to its binding hash; on success, the word
    /// commitment that the proof verifier is to check the proof against.
    pub fn request(
        env: &Env,
        game: &Game,
        session_id: u32,
        word_setter: &PlayerId,
        feedback: &Vec<u32>,
        is_correct: bool,
        public_inputs_hash: &[u8; 32],
    ) -> (r: Result<[u8; 32], DomainError>)
        requires
            guess_hash_fits(word_setter@, game@.guesser),
        ensures
            r == guess_request_outcome(
                game@,
                word_setter@,
                feedback@,
                is_correct,
                expected_guess_hash(session_id, game@, word_setter@, feedback@, is_correct),
                public_inputs_hash@,
            ),
    {
        let (commitment, letters, _parsed) = match Self::precheck(game, word_setter, feedback, is_correct) {
            Ok(v) => v,
            Err(e) => return Err(e),
        };
        let expected = Self::build_public_inputs_hash(
            env,
            session_id,
            word_setter,
            &game.guesser,
            &letters,
            feedback,
            is_correct,
            &commitment,
        );
        if !bytes_equal(expected.as_slice(), public_inputs_hash.as_slice()) {
            return Err(DomainError::InvalidPublicInputsHash);
        }
        Ok(commitment)
    }

    /// Resolves the pending guess given the binding hash it must carry
    /// (`expected_hash`), the one it carries, and the proof verifier's verdict.
    pub fn execute_with_expected_hash(
        game: &mut Game,
        word_setter: &PlayerId,
        feedback: &Vec<u32>,
        is_correct: bool,
        expected_hash: &[u8; 32],
        public_inputs_hash: &[u8; 32],
        proof_valid: bool,
    ) -> (r: Result<GuessResult, DomainError>)
        ensures
            match r {
                Ok(res) => resolve_command_outcome(
                    old(game)@,
                    word_setter@,
                    feedback@,
                    is_correct,
                    expected_hash@,
                    public_inputs_hash@,
                    proof_valid,
                ) == Ok::<(GameView, GuessResultView), DomainError>((final(game)@, res@)),
                Err(e) => resolve_command_outcome(
                    old(game)@,
                    word_setter@,
                    feedback@,
                    is_correct,
                    expected_hash@,
                    public_inputs_hash@,
                    proof_valid,
                ) == Err::<(GameView, GuessResultView), DomainError>(e) && *final(game) == *old(game),
            },
            old(game)@.wf() ==> final(game)@.wf(),
    {
        let (_commitment, _letters, parsed) = match Self::precheck(game, word_setter, feedback, is_correct) {
            Ok(v) => v,
            Err(e) => return Err(e),
        };
        if !bytes_equal(expected_hash.as_slice(), public_inputs_hash.as_slice()) {
            return Err(DomainError::InvalidPublicInputsHash);
        }
        if !proof_valid {
            return Err(DomainError::InvalidProof);
        }
        let outcome = match game.resolve_guess(word_setter, &parsed, is_correct) {
            Ok(o) => o,
            Err(e) => return Err(e),
        };
        Ok(
            GuessResult {
                guess_number: game.guess_count,
                feedback: copy_codes(feedback),
                is_correct,
                winner: duplicate_opt(&game.winner),
                game_ended: outcome.is_game_over(),
            },
        )
    }

    /// Resolves the pending guess of a session. The binding hash must be the
    /// one that `build_public_inputs_hash` gives for the pending guess, the
    /// feedback, the flag and the word commitment, and `proof_valid` is the
    /// verifier's verdict on the proof for that hash. When the result says the
    /// game ended, the game hub is told before the session is stored.
    pub fn execute(
        env: &Env,
        game: &mut Game,
        session_id: u32,
        word_setter: &PlayerId,
        feedback: &Vec<u32>,
        is_correct: bool,
        public_inputs_hash: &[u8; 32],
        proof_valid: bool,
    ) -> (r: Result<GuessResult, DomainError>)
        requires
            guess_hash_fits(word_setter@, old(game)@.guesser),
        ensures
            match r {
                Ok(res) => resolve_command_outcome(
                    old(game)@,
                    word_setter@,
                    feedback@,
                    is_correct,
                    expected_guess_hash(session_id, old(game)@, word_setter@, feedback@, is_correct),
                    public_inputs_hash@,
                    proof_valid,
                ) == Ok::<(GameView, GuessResultView), DomainError>((final(game)@, res@)),
                Err(e) => resolve_command_outcome(
                    old(game)@,
                    word_setter@,
                    feedback@,
                    is_correct,
                    expected_guess_hash(session_id, old(game)@, word_setter@, feedback@, is_correct),
                    public_inputs_hash@,
                    proof_valid,
                ) == Err::<(GameView, GuessResultView), DomainError>(e) && *final(game) == *old(game),
            },
            old(game)@.wf() ==> final(game)@.wf(),
    {
        let (commitment, letters, _parsed) = match Self::precheck(game, word_setter, feedback, is_correct) {
            Ok(v) => v,
            Err(e) => return Err(e),
        };
        let expected = Self::build_public_inputs_hash(
            env,
            session_id,
            word_setter,
            &game.guesser,
            &letters,
            feedback,
            is_correct,
            &commitment,
        );
        Self::execute_with_expected_hash(
            game,
            word_setter,
            feedback,
            is_correct,
            &expected,
            public_inputs_hash,
            proof_valid,
        )
    }
}

/// Reading the rules.
pub struct GetRulesQuery;

impl GetRulesQuery {
    pub fn execute() -> (r: GameRules)
        ensures
            r == (GameRules { word_length: 5, max_guesses: 6, alphabet_size: 26 }),
    {
        GameRules::default()
    }
}

/// A well-formed session has a winner exactly when it has ended, every
/// operation keeps it so, and an ended session refuses every further
/// commitment, guess and resolution as already ended. A resolved wrong guess
/// that uses up the last allowed guess ends the game with the word setter as
/// winner; a resolved correct guess ends it with the guesser as winner.
pub proof fn lemma_word_session_is_final(
    g: GameView,
    player: Seq<u8>,
    word_commitment: [u8; 32],
    letters: [u8; 5],
    codes: Seq<u32>,
    is_correct: bool,
    expected_hash: Seq<u8>,
    given_hash: Seq<u8>,
    proof_valid: bool,
)
    requires
        g.wf(),
    ensures
        g.phase == GamePhase::Ended <==> g.winner is Some,
        commit_word_outcome(g, player, word_commitment) matches Ok(g2) ==> g2.wf(),
        submit_outcome(g, player, letters) matches Ok(g2) ==> g2.wf(),
        resolve_command_outcome(g, player, codes, is_correct, expected_hash, given_hash, proof_valid) matches Ok(
            (g2, res),
        ) ==> {
            &&& g2.wf()
            &&& g2.guess_count == g.guess_count + 1
            &&& res.guess_number == g2.guess_count
            &&& is_correct ==> g2.phase == GamePhase::Ended && g2.winner == Some(g.guesser)
            &&& !is_correct && g2.guess_count == MAX_GUESSES ==> g2.phase == GamePhase::Ended
                && g2.winner == Some(g.word_setter)
            &&& !is_correct && g2.guess_count < MAX_GUESSES ==> g2.phase == GamePhase::InProgress
        },
        g.phase == GamePhase::Ended ==> commit_word_outcome(g, player, word_commitment) == Err::<
            GameView,
            DomainError,
        >(DomainError::GameAlreadyEnded),
        g.phase == GamePhase::Ended ==> submit_outcome(g, player, letters) == Err::<GameView, DomainError>(
            DomainError::GameAlreadyEnded,
        ),
        g.phase == GamePhase::Ended ==> resolve_command_outcome(
            g,
            player,
            codes,
            is_correct,
            expected_hash,
            given_hash,
            proof_valid,
        ) == Err::<(GameView, GuessResultView), DomainError>(DomainError::GameAlreadyEnded),
{
}

/// Letters once guessed and resolved are never accepted again in the
/// session: a resolved guess enters the history, submitting the same letters
/// again is refused, and so is resolving a pending guess of them.
pub proof fn lemma_guess_resolved_once(
    g: GameView,
    player: Seq<u8>,
    letters: [u8; 5],
    statuses: Seq<FeedbackStatus>,
    codes: Seq<u32>,
    is_correct: bool,
    expected_hash: Seq<u8>,
    given_hash: Seq<u8>,
    proof_valid: bool,
)
    ensures
        resolve_guess_outcome(g, player, statuses, is_correct) matches Ok((g2, _)) ==> already_guessed(
            g2.guesses,
            g.pending_guess->0,
        ),
        already_guessed(g.guesses, letters) ==> submit_outcome(g, player, letters) is Err,
        already_guessed(g.guesses, letters) && g.phase == GamePhase::InProgress && player == g.guesser
            && g.pending_guess is None && g.guess_count < MAX_GUESSES ==> submit_outcome(
            g,
            player,
            letters,
        ) == Err::<GameView, DomainError>(DomainError::GuessAlreadyResolved),
        already_guessed(g.guesses, letters) && g.pending_guess == Some(letters) ==> resolve_guess_outcome(
            g,
            player,
            statuses,
            is_correct,
        ) is Err && resolve_command_outcome(
            g,
            player,
            codes,
            is_correct,
            expected_hash,
            given_hash,
            proof_valid,
        ) is Err,
{
    if resolve_guess_outcome(g, player, statuses, is_correct) is Ok {
        let g2 = resolve_guess_outcome(g, player, statuses, is_correct)->Ok_0.0;
        let j = g.guesses.len() as int;
        assert(g2.guesses.len() == j + 1);
        assert(g2.guesses[j] == g.pending_guess->0);
        assert(g2.guesses[j]@ == (g.pending_guess->0)@);
    }
}

/// The guess binding-hash preimage separates its fields: two preimages are
/// equal only when every field is, for five letters, five feedback codes that
/// fit in a byte (as valid codes do) and word-setter texts of equal length.
/// The hash is a function of the preimage, so equal inputs give equal hashes;
/// a change of any single such field changes what is hashed.
pub proof fn lemma_guess_preimage_separates_fields(
    session_id: u32,
    word_setter: Seq<u8>,
    guesser: Seq<u8>,
    letters: Seq<u8>,
    codes: Seq<u32>,
    is_correct: bool,
    word_commitment: Seq<u8>,
    session_id2: u32,
    word_setter2: Seq<u8>,
    guesser2: Seq<u8>,
    letters2: Seq<u8>,
    codes2: Seq<u32>,
    is_correct2: bool,
    word_commitment2: Seq<u8>,
)
    requires
        letters.len() == 5,
        letters2.len() == 5,
        codes.len() == 5,
        codes2.len() == 5,
        forall|i: int| 0 <= i < 5 ==> #[trigger] codes[i] < 256 && codes2[i] < 256,
        word_commitment.len() == 32,
        word_commitment2.len() == 32,
        word_setter.len() == word_setter2.len(),
        guess_preimage(session_id, word_setter, guesser, letters, codes, is_correct, word_commitment)
            == guess_preimage(
            session_id2,
            word_setter2,
            guesser2,
            letters2,
            codes2,
            is_correct2,
            word_commitment2,
        ),
    ensures
        session_id == session_id2,
        letters == letters2,
        codes == codes2,
        is_correct == is_correct2,
        word_commitment == word_commitment2,
        word_setter == word_setter2,
        guesser == guesser2,
{
    let p = guess_preimage(session_id, word_setter, guesser, letters, codes, is_correct, word_commitment);
    let q = guess_preimage(
        session_id2,
        word_setter2,
        guesser2,
        letters2,
        codes2,
        is_correct2,
        word_commitment2,
    );
    let sl = word_setter.len() as int;
    assert(p.subrange(0, 4) =~= u32_be(session_id));
    assert(q.subrange(0, 4) =~= u32_be(session_id2));
    assert(p.subrange(4, 9) =~= letters);
    assert(q.subrange(4, 9) =~= letters2);
    assert forall|i: int| 0 <= i < 5 implies codes[i] == codes2[i] by {
        assert(p[9 + i] == feedback_byte(codes, i));
        assert(q[9 + i] == feedback_byte(codes2, i));
    }
    assert(codes =~= codes2);
    assert(p[14] == if is_correct { 1u8 } else { 0u8 });
    assert(q[14] == if is_correct2 { 1u8 } else { 0u8 });
    assert(p.subrange(15, 47) =~= word_commitment);
    assert(q.subrange(15, 47) =~= word_commitment2);
    assert(p.subrange(47, 47 + sl) =~= word_setter);
    assert(q.subrange(47, 47 + sl) =~= word_setter2);
    assert(p.subrange(47 + sl, p.len() as int) =~= guesser);
    assert(q.subrange(47 + sl, q.len() as int) =~= guesser2);
    crate::bytes::lemma_u32_be_injective(session_id, session_id2);
}

} // verus!
