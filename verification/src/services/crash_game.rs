//! The round engine: a state machine that a one-second tick drives from the
//! betting window through the flight and back to idle.

use super::crash_game_math::{crash_point, CrashGameMath, HouseEdge, SEED_LEN};
use super::digest::{sha256, sha256_hex};
use super::message_types::{
    BettingTimerStarted, BettingTimerUpdate, GameError, GameFinished, GameRoundUpdate, GameStarted,
};
use map_range::MapRange;
use vstd::prelude::*;

verus! {

/// Round number of an engine that has not run a round yet.
pub const INITIAL_ROUND_ID: u32 = 32314;

/// Length of the flight, in seconds, unless another is asked for.
pub const DEFAULT_ANIMATION_DURATION: u32 = 10;

/// The longest span, in seconds, whose milliseconds fit in 32 bits.
pub const MAX_SECONDS: u32 = 4_294_967;

/// The multiplier 1.00, in hundredths: where every flight starts.
pub const STARTING_MULTIPLIER: u32 = 100;

/// The phase of the round.
#[derive(Debug, Clone, Copy, PartialEq, Eq, Structural)]
pub enum GameState {
    Idle,
    BettingInProgress,
    GameInProgress,
}

impl GameState {
    /// The number that stands for the phase on the wire.
    pub open spec fn code_of(self) -> u8 {
        match self {
            GameState::Idle => 0,
            GameState::BettingInProgress => 1,
            GameState::GameInProgress => 2,
        }
    }

    /// Computes `code_of`.
    pub fn code(self) -> (code: u8)
        ensures
            code == self.code_of(),
    {
        match self {
            GameState::Idle => 0,
            GameState::BettingInProgress => 1,
            GameState::GameInProgress => 2,
        }
    }
}

impl From<GameState> for u8 {
    fn from(state: GameState) -> (code: u8) {
        state.code()
    }
}

impl vstd::std_specs::convert::FromSpecImpl<GameState> for u8 {
    open spec fn obeys_from_spec() -> bool {
        true
    }

    open spec fn from_spec(state: GameState) -> u8 {
        state.code_of()
    }
}

/// What a late joiner needs to fall in step with the round.
#[derive(Debug, Clone, Copy, PartialEq, Eq, Structural)]
pub struct GameData {
    pub game_state: GameState,
    /// in hundredths
    pub multiplier: u32,
    /// in milliseconds
    pub betting_time_left_ms: u32,
    /// in milliseconds
    pub round_time_elapsed_ms: u32,
}

/// The outcome that was fixed for a flight.
#[derive(Debug, Clone, Copy, PartialEq, Eq, Structural)]
pub struct RoundResult {
    /// in hundredths
    pub multiplier: u32,
    /// in seconds
    pub animation_duration: u32,
}

/// What the engine reports when it is ticked.
#[derive(Debug, Clone, Copy, PartialEq, Eq, Structural)]
pub enum RoundEvent {
    BettingUpdate(BettingTimerUpdate),
    Started(GameStarted),
    RoundUpdate(GameRoundUpdate),
    Finished(GameFinished),
    Failed(GameError),
}

/// The multiplier shown `elapsed` seconds into a flight of `duration`
/// seconds that ends at `crash_point`: a straight line from 1.00 to the crash
/// point, rounded down.
pub open spec fn displayed_multiplier(crash_point: u32, elapsed: u32, duration: u32) -> int {
    STARTING_MULTIPLIER + (elapsed * (crash_point - STARTING_MULTIPLIER)) / (duration as int)
}

/// A crash point as the engine holds it: no less than 1.00, and capped at
/// the largest 32-bit value.
pub open spec fn capped_crash_point(point: nat) -> u32 {
    if point < STARTING_MULTIPLIER {
        STARTING_MULTIPLIER
    } else if point > u32::MAX {
        u32::MAX
    } else {
        point as u32
    }
}

/// The state of the engine.
pub struct RoundView {
    pub phase: GameState,
    pub round_id: u32,
    /// in seconds
    pub betting_time_left: u32,
    /// in seconds
    pub round_time_elapsed: u32,
    /// in hundredths
    pub current_multiplier: u32,
    /// in hundredths
    pub crash_point: u32,
    /// in seconds
    pub max_betting_time_duration: u32,
    /// in seconds
    pub animation_duration: u32,
    pub server_seed: Seq<char>,
    pub next_round_server_seed: Seq<char>,
    pub client_seed: Seq<char>,
    pub house_edge: HouseEdge,
}

impl RoundView {
    /// What holds of every engine state.
    pub open spec fn valid(self) -> bool {
        &&& self.max_betting_time_duration <= MAX_SECONDS
        &&& 1 <= self.animation_duration <= MAX_SECONDS
        &&& self.betting_time_left <= self.max_betting_time_duration
        &&& self.round_time_elapsed <= self.animation_duration
        &&& self.crash_point >= STARTING_MULTIPLIER
        &&& (self.phase is GameInProgress ==> self.round_time_elapsed < self.animation_duration)
        &&& self.on_course()
    }

    /// In flight, the multiplier that the engine shows is the displayed
    /// multiplier of the time elapsed.
    pub open spec fn on_course(self) -> bool {
        self.phase is GameInProgress ==> self.current_multiplier == displayed_multiplier(
            self.crash_point,
            self.round_time_elapsed,
            self.animation_duration,
        )
    }

    /// A betting window can open: the engine is idle and has a round number
    /// left.
    pub open spec fn can_start_betting(self) -> bool {
        self.phase is Idle && self.round_id < u32::MAX
    }

    /// The timers and the multiplier as they are between rounds.
    pub open spec fn reset(self) -> RoundView {
        RoundView {
            phase: GameState::Idle,
            betting_time_left: self.max_betting_time_duration,
            round_time_elapsed: 0,
            current_multiplier: 0,
            crash_point: STARTING_MULTIPLIER,
            ..self
        }
    }

    /// The state after a betting window opened, with `next_seed` as the new
    /// hidden seed.
    pub open spec fn start_betting(self, next_seed: Seq<char>) -> RoundView {
        RoundView {
            phase: GameState::BettingInProgress,
            round_id: (self.round_id + 1) as u32,
            server_seed: self.next_round_server_seed,
            next_round_server_seed: next_seed,
            ..self.reset()
        }
    }

    /// The hash that a betting window publishes for the seed of its round.
    pub open spec fn server_seed_hash(self) -> Seq<char> {
        sha256_hex(self.server_seed)
    }

    /// The hash that a betting window publishes for the seed of the round
    /// after it.
    pub open spec fn next_round_server_seed_hash(self) -> Seq<char> {
        sha256_hex(self.next_round_server_seed)
    }

    /// The next tick closes the betting window.
    pub open spec fn betting_expires(self) -> bool {
        self.phase is BettingInProgress && self.betting_time_left <= 1
    }

    /// The crash point that the seeds of the round yield, once `client_seed`
    /// is final.
    pub open spec fn outcome(self, client_seed: Seq<char>) -> Option<nat> {
        crash_point(self.server_seed, client_seed, self.house_edge, self.round_id)
    }

    /// The state one second later. `client_seed` is the seed that becomes
    /// final where the betting window closes; it is not read otherwise.
    pub open spec fn tick(self, client_seed: Seq<char>) -> RoundView {
        match self.phase {
            GameState::Idle => self,
            GameState::BettingInProgress => {
                if !self.betting_expires() {
                    RoundView { betting_time_left: (self.betting_time_left - 1) as u32, ..self }
                } else {
                    match self.outcome(client_seed) {
                        Some(point) => RoundView {
                            phase: GameState::GameInProgress,
                            betting_time_left: 0,
                            round_time_elapsed: 0,
                            current_multiplier: STARTING_MULTIPLIER,
                            crash_point: capped_crash_point(point),
                            client_seed,
                            ..self
                        },
                        None => RoundView { client_seed, ..self.reset() },
                    }
                }
            },
            GameState::GameInProgress => {
                if self.round_time_elapsed + 1 >= self.animation_duration {
                    self.reset()
                } else {
                    RoundView {
                        round_time_elapsed: (self.round_time_elapsed + 1) as u32,
                        current_multiplier: displayed_multiplier(
                            self.crash_point,
                            (self.round_time_elapsed + 1) as u32,
                            self.animation_duration,
                        ) as u32,
                        ..self
                    }
                }
            },
        }
    }

    /// What the engine reports for that second, in order.
    pub open spec fn tick_events(self, client_seed: Seq<char>) -> Seq<RoundEvent> {
        match self.phase {
            GameState::Idle => seq![],
            GameState::BettingInProgress => {
                if !self.betting_expires() {
                    seq![
                        RoundEvent::BettingUpdate(
                            BettingTimerUpdate {
                                betting_time_left_ms: ((self.betting_time_left - 1) * 1000) as u32,
                            },
                        ),
                    ]
                } else {
                    seq![
                        RoundEvent::BettingUpdate(BettingTimerUpdate { betting_time_left_ms: 0 }),
                        if self.outcome(client_seed) is Some {
                            RoundEvent::Started(GameStarted {  })
                        } else {
                            RoundEvent::Failed(GameError {  })
                        },
                    ]
                }
            },
            GameState::GameInProgress => {
                let update = RoundEvent::RoundUpdate(
                    GameRoundUpdate {
                        multiplier: displayed_multiplier(
                            self.crash_point,
                            (self.round_time_elapsed + 1) as u32,
                            self.animation_duration,
                        ) as u32,
                    },
                );
                if self.round_time_elapsed + 1 >= self.animation_duration {
                    seq![update, RoundEvent::Finished(GameFinished {  })]
                } else {
                    seq![update]
                }
            },
        }
    }

    /// The state after one tick for each of `client_seeds`, in order.
    pub open spec fn after_ticks(self, client_seeds: Seq<Seq<char>>) -> RoundView
        decreases client_seeds.len(),
    {
        if client_seeds.len() == 0 {
            self
        } else {
            self.after_ticks(client_seeds.drop_last()).tick(client_seeds.last())
        }
    }

    /// What a late joiner is told.
    pub open spec fn game_data(self) -> GameData {
        GameData {
            game_state: self.phase,
            multiplier: self.current_multiplier,
            betting_time_left_ms: (self.betting_time_left * 1000) as u32,
            round_time_elapsed_ms: (self.round_time_elapsed * 1000) as u32,
        }
    }
}

/// The displayed multiplier starts at 1.00, never falls, never passes the
/// crash point, and equals it when the flight is over.
pub proof fn lemma_displayed_multiplier(crash_point: u32, duration: u32, earlier: u32, later: u32)
    requires
        crash_point >= STARTING_MULTIPLIER,
        duration >= 1,
        earlier <= later <= duration,
    ensures
        displayed_multiplier(crash_point, 0, duration) == STARTING_MULTIPLIER,
        displayed_multiplier(crash_point, duration, duration) == crash_point,
        displayed_multiplier(crash_point, earlier, duration) <= displayed_multiplier(
            crash_point,
            later,
            duration,
        ),
        STARTING_MULTIPLIER <= displayed_multiplier(crash_point, earlier, duration) <= crash_point,
{
    let rise = crash_point - STARTING_MULTIPLIER;
    let d = duration as int;
    assert((0 * rise) / d == 0) by (nonlinear_arith)
        requires
            d >= 1,
    ;
    assert((d * rise) / d == rise) by (nonlinear_arith)
        requires
            d >= 1,
    ;
    assert((earlier * rise) / d <= (later * rise) / d) by (nonlinear_arith)
        requires
            d >= 1,
            rise >= 0,
            0 <= earlier <= later,
    ;
    assert(0 <= (earlier * rise) / d <= rise) by (nonlinear_arith)
        requires
            d >= 1,
            rise >= 0,
            0 <= earlier <= d,
    ;
}

/// A tick keeps a valid state valid: the timers stay within their bounds,
/// and a flight starts at 1.00 and follows the displayed multiplier from
/// second to second.
pub proof fn lemma_tick_keeps_valid(state: RoundView, client_seed: Seq<char>)
    requires
        state.valid(),
    ensures
        state.tick(client_seed).valid(),
{
    let after = state.tick(client_seed);
    if after.phase is GameInProgress {
        lemma_displayed_multiplier(
            after.crash_point,
            after.animation_duration,
            after.round_time_elapsed,
            after.round_time_elapsed,
        );
    }
}

/// Ticks touch neither the round number nor the server's seeds, and so
/// neither hash that the betting window published.
pub proof fn lemma_ticks_keep_seeds(state: RoundView, client_seeds: Seq<Seq<char>>)
    ensures
        state.after_ticks(client_seeds).round_id == state.round_id,
        state.after_ticks(client_seeds).server_seed == state.server_seed,
        state.after_ticks(client_seeds).next_round_server_seed == state.next_round_server_seed,
    decreases client_seeds.len(),
{
    if client_seeds.len() > 0 {
        lemma_ticks_keep_seeds(state, client_seeds.drop_last());
    }
}

/// The fairness chain: the seed hash that a betting window publishes equals
/// the hash that the window before it published for the round to come, and
/// the round number has grown by one. `ticks` are the seconds between the
/// two windows.
pub proof fn lemma_fairness_chain(
    state: RoundView,
    first_seed: Seq<char>,
    ticks: Seq<Seq<char>>,
    second_seed: Seq<char>,
)
    requires
        state.can_start_betting(),
        state.start_betting(first_seed).after_ticks(ticks).can_start_betting(),
    ensures
        state.start_betting(first_seed).after_ticks(ticks).start_betting(
            second_seed,
        ).server_seed_hash() == state.start_betting(first_seed).next_round_server_seed_hash(),
        state.start_betting(first_seed).after_ticks(ticks).start_betting(second_seed).round_id
            == state.start_betting(first_seed).round_id + 1,
{
    lemma_ticks_keep_seeds(state.start_betting(first_seed), ticks);
}

/// Once a flight is under way, its crash point stays as it was set until the
/// flight is over.
pub proof fn lemma_crash_point_is_fixed(state: RoundView, client_seed: Seq<char>)
    requires
        state.phase is GameInProgress,
        state.tick(client_seed).phase is GameInProgress,
    ensures
        state.tick(client_seed).crash_point == state.crash_point,
{
}

/// The last multiplier that a flight reports is its crash point.
pub proof fn lemma_last_update_is_crash_point(state: RoundView, client_seed: Seq<char>)
    requires
        state.valid(),
        state.phase is GameInProgress,
        state.tick(client_seed).phase is Idle,
    ensures
        state.tick_events(client_seed) == seq![
            RoundEvent::RoundUpdate(GameRoundUpdate { multiplier: state.crash_point }),
            RoundEvent::Finished(GameFinished {  }),
        ],
{
    lemma_displayed_multiplier(
        state.crash_point,
        state.animation_duration,
        state.animation_duration,
        state.animation_duration,
    );
}

/// The multiplier that a flight reports never falls: each second's update is
/// at least what was shown before it, and at most the crash point.
pub proof fn lemma_updates_never_fall(state: RoundView, client_seed: Seq<char>)
    requires
        state.valid(),
        state.phase is GameInProgress,
    ensures
        state.tick_events(client_seed)[0] matches RoundEvent::RoundUpdate(update)
            && state.current_multiplier <= update.multiplier <= state.crash_point,
{
    lemma_displayed_multiplier(
        state.crash_point,
        state.animation_duration,
        state.round_time_elapsed,
        (state.round_time_elapsed + 1) as u32,
    );
    lemma_displayed_multiplier(
        state.crash_point,
        state.animation_duration,
        (state.round_time_elapsed + 1) as u32,
        (state.round_time_elapsed + 1) as u32,
    );
}

/// Calls `map_range::MapRange::map_range` on 64-bit values. Trusted: the
/// result is `to_start` plus the offset of `value` in the first range, scaled
/// by the widths of the two ranges and rounded down. The precondition leaves
/// out what the crate panics or wraps on: an empty or reversed range, a value
/// below the first range, and a product or sum beyond 64 bits.
#[verifier::external_body]
fn map_range_u64(value: u64, from_start: u64, from_end: u64, to_start: u64, to_end: u64) -> (mapped:
    u64)
    requires
        from_start <= value,
        from_start < from_end,
        to_start <= to_end,
        (value - from_start) * (to_end - to_start) <= u64::MAX,
        to_start + ((value - from_start) * (to_end - to_start)) / (from_end - from_start)
            <= u64::MAX,
    ensures
        mapped == to_start + ((value - from_start) * (to_end - to_start)) / (from_end
            - from_start),
{
    value.map_range(from_start..from_end, to_start..to_end)
}

/// Computes `displayed_multiplier`.
pub fn multiplier_at(crash_point: u32, elapsed: u32, duration: u32) -> (multiplier: u32)
    requires
        crash_point >= STARTING_MULTIPLIER,
        duration >= 1,
        elapsed <= duration,
    ensures
        multiplier == displayed_multiplier(crash_point, elapsed, duration),
        STARTING_MULTIPLIER <= multiplier <= crash_point,
{
    proof {
        lemma_displayed_multiplier(crash_point, duration, elapsed, elapsed);
        assert(elapsed * (crash_point - STARTING_MULTIPLIER) <= u64::MAX) by (nonlinear_arith)
            requires
                0 <= elapsed <= u32::MAX,
                0 <= crash_point - STARTING_MULTIPLIER <= u32::MAX,
        ;
    }
    let mapped = map_range_u64(
        elapsed as u64,
        0,
        duration as u64,
        STARTING_MULTIPLIER as u64,
        crash_point as u64,
    );
    mapped as u32
}

/// How far a flight has come: the seconds elapsed and the multiplier shown.
#[derive(Debug, Clone, Copy, PartialEq, Eq, Structural)]
struct FlightProgress {
    /// in seconds
    elapsed: u32,
    /// in hundredths
    multiplier: u32,
}

/// The round engine.
pub struct CrashGame {
    game_state: GameState,
    /// in seconds
    betting_time_left: u32,
    progress: FlightProgress,
    crash_point: u32,
    max_betting_time_duration: u32,
    animation_duration: u32,
    server_seed: String,
    next_round_server_seed: String,
    client_seed: String,
    house_edge: HouseEdge,
    round_id: u32,
}

impl View for CrashGame {
    type V = RoundView;

    closed spec fn view(&self) -> RoundView {
        RoundView {
            phase: self.game_state,
            round_id: self.round_id,
            betting_time_left: self.betting_time_left,
            round_time_elapsed: self.progress.elapsed,
            current_multiplier: self.progress.multiplier,
            crash_point: self.crash_point,
            max_betting_time_duration: self.max_betting_time_duration,
            animation_duration: self.animation_duration,
            server_seed: self.server_seed@,
            next_round_server_seed: self.next_round_server_seed@,
            client_seed: self.client_seed@,
            house_edge: self.house_edge,
        }
    }
}

impl CrashGame {
    /// Every engine is in a valid state.
    #[verifier::type_invariant]
    spec fn well_formed(&self) -> bool {
        self@.valid()
    }

    /// The state that an engine starts in.
    pub open spec fn initial(
        betting_time_duration: u32,
        house_edge: HouseEdge,
        animation_duration: u32,
        next_seed: Seq<char>,
    ) -> RoundView {
        RoundView {
            phase: GameState::Idle,
            round_id: INITIAL_ROUND_ID,
            betting_time_left: 0,
            round_time_elapsed: 0,
            current_multiplier: 0,
            crash_point: STARTING_MULTIPLIER,
            max_betting_time_duration: betting_time_duration,
            animation_duration,
            server_seed: Seq::empty(),
            next_round_server_seed: next_seed,
            client_seed: Seq::empty(),
            house_edge,
        }
    }

    /// An idle engine with the default flight length and a fresh hidden
    /// seed.
    pub fn new(betting_time_duration: u32, house_edge: HouseEdge) -> (game: Self)
        requires
            betting_time_duration <= MAX_SECONDS,
        ensures
            game@ == Self::initial(
                betting_time_duration,
                house_edge,
                DEFAULT_ANIMATION_DURATION,
                game@.next_round_server_seed,
            ),
            game@.next_round_server_seed.len() == SEED_LEN,
    {
        Self::with_seed(
            betting_time_duration,
            house_edge,
            DEFAULT_ANIMATION_DURATION,
            CrashGameMath::generate_seed(),
        )
    }

    /// An idle engine with a flight of `animation_duration` seconds and
    /// `next_seed` as the hidden seed of its first round.
    pub fn with_seed(
        betting_time_duration: u32,
        house_edge: HouseEdge,
        animation_duration: u32,
        next_seed: String,
    ) -> (game: Self)
        requires
            betting_time_duration <= MAX_SECONDS,
            1 <= animation_duration <= MAX_SECONDS,
        ensures
            game@ == Self::initial(betting_time_duration, house_edge, animation_duration, next_seed@),
    {
        CrashGame {
            game_state: GameState::Idle,
            betting_time_left: 0,
            progress: FlightProgress { elapsed: 0, multiplier: 0 },
            crash_point: STARTING_MULTIPLIER,
            max_betting_time_duration: betting_time_duration,
            animation_duration,
            server_seed: String::new(),
            next_round_server_seed: next_seed,
            client_seed: String::new(),
            house_edge,
            round_id: INITIAL_ROUND_ID,
        }
    }

    /// What holds of every engine.
    pub fn shape(&self)
        ensures
            self@.valid(),
    {
        proof {
            use_type_invariant(self);
        }
    }

    /// Opens a betting window with a fresh hidden seed for the round after
    /// it, and says what to announce.
    ///
    /// `None`, and no change, unless the engine is idle and has a round
    /// number left.
    pub fn start_betting_timer(&mut self) -> (started: Option<BettingTimerStarted>)
        ensures
            started is Some <==> old(self)@.can_start_betting(),
            !old(self)@.can_start_betting() ==> final(self)@ == old(self)@,
            old(self)@.can_start_betting() ==> final(self)@ == old(self)@.start_betting(
                final(self)@.next_round_server_seed,
            ) && final(self)@.next_round_server_seed.len() == SEED_LEN,
            started matches Some(s) ==> s.round_id == final(self)@.round_id
                && s.betting_time_left_ms == final(self)@.max_betting_time_duration * 1000
                && s.server_seed_hash@ == final(self)@.server_seed_hash()
                && s.next_round_server_seed_hash@ == final(self)@.next_round_server_seed_hash(),
    {
        if !self.can_start_betting_now() {
            return None;
        }
        self.start_betting_with_seed(CrashGameMath::generate_seed())
    }

    /// Whether a betting window can open now.
    pub fn can_start_betting_now(&self) -> (yes: bool)
        ensures
            yes == self@.can_start_betting(),
    {
        match self.game_state {
            GameState::Idle => self.round_id < u32::MAX,
            _ => false,
        }
    }

    /// Opens a betting window with `next_seed` as the hidden seed of the
    /// round after it, and says what to announce: the round number, the
    /// length of the window, and the hashes of this round's seed and of the
    /// next.
    ///
    /// `None`, and no change, unless the engine is idle and has a round
    /// number left.
    pub fn start_betting_with_seed(&mut self, next_seed: String) -> (started: Option<
        BettingTimerStarted,
    >)
        ensures
            started is Some <==> old(self)@.can_start_betting(),
            final(self)@ == if old(self)@.can_start_betting() {
                old(self)@.start_betting(next_seed@)
            } else {
                old(self)@
            },
            started matches Some(s) ==> s.round_id == final(self)@.round_id
                && s.betting_time_left_ms == final(self)@.max_betting_time_duration * 1000
                && s.server_seed_hash@ == final(self)@.server_seed_hash()
                && s.next_round_server_seed_hash@ == final(self)@.next_round_server_seed_hash(),
    {
        proof {
            use_type_invariant(&*self);
        }
        if !self.can_start_betting_now() {
            return None;
        }
        self.reset_game_data();
        self.set_betting_in_progress();
        self.round_id = self.round_id + 1;
        let mut seed = next_seed;
        core::mem::swap(&mut self.next_round_server_seed, &mut seed);
        self.server_seed = seed;
        Some(
            BettingTimerStarted {
                betting_time_left_ms: self.max_betting_time_duration * 1000,
                round_id: self.round_id,
                server_seed_hash: sha256(self.server_seed.as_str()),
                next_round_server_seed_hash: sha256(self.next_round_server_seed.as_str()),
            },
        )
    }

    /// Whether the next tick closes the betting window, so that a client
    /// seed is needed for it.
    pub fn betting_expires_next(&self) -> (yes: bool)
        ensures
            yes == self@.betting_expires(),
    {
        match self.game_state {
            GameState::BettingInProgress => self.betting_time_left <= 1,
            _ => false,
        }
    }

    /// Moves the round on by one second and reports what happened. Where
    /// the betting window closes, a fresh client seed is drawn for the round.
    pub fn tick(&mut self) -> (events: Vec<RoundEvent>)
        ensures
            final(self)@ == old(self)@.tick(final(self)@.client_seed),
            events@ == old(self)@.tick_events(final(self)@.client_seed),
            !old(self)@.betting_expires() ==> final(self)@.client_seed == old(self)@.client_seed,
    {
        if self.betting_expires_next() {
            self.tick_with_client_seed(CrashGameMath::generate_seed())
        } else {
            let kept = self.client_seed.clone();
            let ghost before = self@;
            let events = self.tick_with_client_seed(kept);
            assert(before.tick(kept@) == before.tick(self@.client_seed));
            assert(before.tick_events(kept@) == before.tick_events(self@.client_seed));
            events
        }
    }

    /// Moves the round on by one second and reports what happened.
    ///
    /// While bets are taken, the countdown falls; when it is over,
    /// `client_seed` becomes the round's client seed, the crash point is
    /// derived, and the flight starts, or the round fails where no crash
    /// point can be derived. In flight, the displayed multiplier climbs; when
    /// the flight length is reached, it equals the crash point and the round
    /// is over. `client_seed` is not read unless the betting window closes.
    pub fn tick_with_client_seed(&mut self, client_seed: String) -> (events: Vec<RoundEvent>)
        ensures
            final(self)@ == old(self)@.tick(client_seed@),
            events@ == old(self)@.tick_events(client_seed@),
    {
        proof {
            use_type_invariant(&*self);
        }
        let mut events: Vec<RoundEvent> = Vec::new();
        match self.game_state {
            GameState::Idle => {},
            GameState::BettingInProgress => {
                if self.betting_time_left > 1 {
                    self.betting_time_left = self.betting_time_left - 1;
                    events.push(
                        RoundEvent::BettingUpdate(
                            BettingTimerUpdate {
                                betting_time_left_ms: self.betting_time_left * 1000,
                            },
                        ),
                    );
                } else {
                    events.push(
                        RoundEvent::BettingUpdate(BettingTimerUpdate { betting_time_left_ms: 0 }),
                    );
                    self.client_seed = client_seed;
                    events.push(self.start_game());
                }
            },
            GameState::GameInProgress => {
                let elapsed = self.progress.elapsed + 1;
                let multiplier = multiplier_at(self.crash_point, elapsed, self.animation_duration);
                events.push(RoundEvent::RoundUpdate(GameRoundUpdate { multiplier }));
                if elapsed >= self.animation_duration {
                    events.push(RoundEvent::Finished(GameFinished {  }));
                    self.on_game_finished();
                } else {
                    self.progress = FlightProgress { elapsed, multiplier };
                }
            },
        }
        assert(events@ =~= old(self)@.tick_events(client_seed@));
        events
    }

    /// Closes the betting window and starts the flight with the crash point
    /// that the round's seeds yield; where they yield none, the round fails
    /// and the engine is idle again.
    fn start_game(&mut self) -> (event: RoundEvent)
        requires
            old(self)@.phase is BettingInProgress,
        ensures
            match old(self)@.outcome(old(self)@.client_seed) {
                Some(point) => event == RoundEvent::Started(GameStarted {  }) && final(self)@ == (
                RoundView {
                    phase: GameState::GameInProgress,
                    betting_time_left: 0,
                    round_time_elapsed: 0,
                    current_multiplier: STARTING_MULTIPLIER,
                    crash_point: capped_crash_point(point),
                    ..old(self)@
                }),
                None => event == RoundEvent::Failed(GameError {  }) && final(self)@ == old(self)@.reset(),
            },
    {
        proof {
            use_type_invariant(&*self);
        }
        match self.get_round_result() {
            Some(round_result) => {
                self.crash_point = round_result.multiplier;
                self.progress = FlightProgress { elapsed: 0, multiplier: STARTING_MULTIPLIER };
                proof {
                    lemma_displayed_multiplier(self.crash_point, self.animation_duration, 0, 0);
                }
                self.on_betting_timer_finished();
                RoundEvent::Started(GameStarted {  })
            },
            None => {
                self.on_game_finished();
                RoundEvent::Failed(GameError {  })
            },
        }
    }

    /// What a late joiner is told: the phase, the displayed multiplier, and
    /// the two timers in milliseconds.
    pub fn get_game_data(&self) -> (data: GameData)
        ensures
            data == self@.game_data(),
            data.betting_time_left_ms == self@.betting_time_left * 1000,
            data.round_time_elapsed_ms == self@.round_time_elapsed * 1000,
    {
        proof {
            use_type_invariant(self);
        }
        GameData {
            game_state: self.get_game_state(),
            multiplier: self.progress.multiplier,
            betting_time_left_ms: self.betting_time_left * 1000,
            round_time_elapsed_ms: self.progress.elapsed * 1000,
        }
    }

    /// The phase of the round.
    pub fn get_game_state(&self) -> (state: GameState)
        ensures
            state == self@.phase,
    {
        self.game_state
    }

    /// A copy of the client seed of the round.
    pub fn client_seed_text(&self) -> (seed: String)
        ensures
            seed@ == self@.client_seed,
    {
        self.client_seed.clone()
    }

    /// The number of the round that is under way, or of the last one.
    pub fn get_round_id(&self) -> (round_id: u32)
        ensures
            round_id == self@.round_id,
    {
        self.round_id
    }

    /// The crash point that the engine's seeds yield, capped at 32 bits, and
    /// the length of the flight; `None` where the house edge allows no crash
    /// point.
    pub fn get_round_result(&self) -> (result: Option<RoundResult>)
        ensures
            match self@.outcome(self@.client_seed) {
                Some(point) => result == Some(
                    RoundResult {
                        multiplier: capped_crash_point(point),
                        animation_duration: self@.animation_duration,
                    },
                ),
                None => result is None,
            },
            result matches Some(r) ==> r.multiplier >= STARTING_MULTIPLIER,
    {
        match CrashGameMath::generate_crash_point(
            self.server_seed.as_str(),
            self.client_seed.as_str(),
            &self.house_edge,
            self.round_id,
        ) {
            Some(point) => {
                let multiplier: u32 = if point > u32::MAX as u64 {
                    u32::MAX
                } else {
                    point as u32
                };
                Some(RoundResult { multiplier, animation_duration: self.animation_duration })
            },
            None => None,
        }
    }

    /// Ends the countdown and marks the flight as under way.
    fn on_betting_timer_finished(&mut self)
        requires
            old(self)@.round_time_elapsed < old(self)@.animation_duration,
            old(self)@.current_multiplier == displayed_multiplier(
                old(self)@.crash_point,
                old(self)@.round_time_elapsed,
                old(self)@.animation_duration,
            ),
        ensures
            final(self)@ == (RoundView {
                phase: GameState::GameInProgress,
                betting_time_left: 0,
                ..old(self)@
            }),
    {
        proof {
            use_type_invariant(&*self);
        }
        self.betting_time_left = 0;
        self.set_game_in_progress();
    }

    /// Ends the round: the engine is idle and its timers are reset.
    fn on_game_finished(&mut self)
        ensures
            final(self)@ == old(self)@.reset(),
    {
        self.reset_game_data();
    }

    /// Marks the flight as under way.
    fn set_game_in_progress(&mut self)
        requires
            old(self)@.round_time_elapsed < old(self)@.animation_duration,
            old(self)@.current_multiplier == displayed_multiplier(
                old(self)@.crash_point,
                old(self)@.round_time_elapsed,
                old(self)@.animation_duration,
            ),
        ensures
            final(self)@ == (RoundView { phase: GameState::GameInProgress, ..old(self)@ }),
    {
        proof {
            use_type_invariant(&*self);
        }
        self.game_state = GameState::GameInProgress;
    }

    /// Marks the betting window as open.
    fn set_betting_in_progress(&mut self)
        ensures
            final(self)@ == (RoundView { phase: GameState::BettingInProgress, ..old(self)@ }),
    {
        proof {
            use_type_invariant(&*self);
        }
        self.game_state = GameState::BettingInProgress;
    }

    /// Puts the engine back between rounds: idle, the countdown at its full
    /// length, no time elapsed, no multiplier shown.
    fn reset_game_data(&mut self)
        ensures
            final(self)@ == old(self)@.reset(),
    {
        proof {
            use_type_invariant(&*self);
        }
        self.game_state = GameState::Idle;
        self.betting_time_left = self.max_betting_time_duration;
        self.progress = FlightProgress { elapsed: 0, multiplier: 0 };
        self.crash_point = STARTING_MULTIPLIER;
    }
}

} // verus!
