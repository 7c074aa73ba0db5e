//! The rule of an index state.
//!
//! A frame nominally lasts `nominal_mspf`. The fluidity, a fraction in
//! (0, 1], thins the frames out without changing how long the animation
//! takes: at the fluidity `p/q` the index moves only once in `q/p` frames,
//! and then by as many frames at once, so that a frame stays on show for
//! `nominal_mspf * q / p`. Whether the end has been reached is judged by the
//! frames that have passed at the nominal rate, not by the index.
//!
//! All of this is computed exactly, in whole numbers. To that end the time
//! that a playback has accumulated is counted in ticks, of which there are
//! `p` in a millisecond: a nominal frame then lasts `nominal_mspf * p`
//! ticks, and a frame on show `nominal_mspf * q`.

use crate::state_machine::id_text;
use crate::state_machine::AnimationState;
use crate::state_machine::AnimationStateMachine;
use crate::state_machine::FrameSlot;
use crate::state_machine::IndexSprite;
use crate::state_machine::StateID;
use crate::state_machine::StateInstance;
use crate::state_machine::UpdateOutcome;
use crate::state_machine::UpdateArgs;
use vstd::prelude::*;

verus! {

/// The share of the nominal frame rate that is shown, as the fraction
/// `numerator / denominator`. At `1/1` every frame is shown; at `1/2` the
/// index moves two frames at a time, half as often.
#[derive(Debug, Clone, Copy, PartialEq, Eq, Structural)]
pub struct Fluidity {
    /// The upper part of the fraction.
    pub numerator: u64,
    /// The lower part of the fraction.
    pub denominator: u64,
}

impl Fluidity {
    /// Whether the fraction lies in (0, 1].
    pub open spec fn in_range(self) -> bool {
        0 < self.numerator <= self.denominator
    }

    /// Full fluidity: every frame is shown.
    pub fn full() -> (whole: Self)
        ensures
            whole == (Fluidity { numerator: 1, denominator: 1 }),
    {
        Fluidity { numerator: 1, denominator: 1 }
    }
}

/// Why a state could not be built.
#[derive(Debug, Clone, Copy, PartialEq, Eq, Structural)]
pub enum ConfigError {
    /// The fluidity is not in (0, 1].
    FluidityOutOfRange,
    /// The lowest index lies above the highest.
    EmptyIndexRange,
    /// A frame would last no time at all.
    ZeroFrameTime,
}

/// The progress of one playback through an `IndexState`.
///
/// Time is counted in ticks. One millisecond is as many ticks as the
/// numerator of the state's fluidity, which makes both frame durations of
/// the state a whole number of ticks.
#[derive(Debug, Clone, Copy, PartialEq, Eq, Structural)]
pub struct IndexData {
    /// The index of the current frame.
    pub index: usize,
    /// The ticks that have passed since the index last moved.
    pub elapsed: u128,
    /// The milliseconds to wait before the index moves for the first time.
    pub phase_delay: u64,
    /// Set once the playback, counted at the nominal rate, has come to the
    /// highest index; never cleared.
    pub reached_end: bool,
}

/// What an `IndexState` is, as plain numbers.
pub ghost struct IndexStateView {
    /// The lowest index of the state (inclusive).
    pub min_i: int,
    /// The highest index of the state (inclusive).
    pub max_i: int,
    /// The milliseconds per frame at full fluidity.
    pub nominal_mspf: int,
    /// The upper part of the fluidity.
    pub numerator: int,
    /// The lower part of the fluidity.
    pub denominator: int,
    /// The state that follows once the end is reached; `None` loops.
    pub next_state: Option<Seq<char>>,
    /// The milliseconds before the first advance.
    pub phase: int,
}

impl IndexStateView {
    /// What every state satisfies once built.
    pub open spec fn wf(self) -> bool {
        &&& 0 <= self.min_i <= self.max_i <= usize::MAX
        &&& 0 < self.nominal_mspf <= u64::MAX
        &&& 0 < self.numerator <= self.denominator <= u64::MAX
        &&& 0 <= self.phase <= u64::MAX
    }

    /// The ticks that a frame lasts at full fluidity.
    pub open spec fn nominal_ticks(self) -> int {
        self.nominal_mspf * self.numerator
    }

    /// The ticks between two moves of the index: the nominal duration
    /// divided by the fluidity.
    pub open spec fn actual_ticks(self) -> int {
        self.nominal_mspf * self.denominator
    }

    /// The data of a playback that has just entered the state.
    pub open spec fn fresh(self) -> IndexData {
        IndexData {
            index: self.min_i as usize,
            elapsed: 0,
            phase_delay: self.phase as u64,
            reached_end: false,
        }
    }

    /// The ticks of `data` once `delta_ms` have been added.
    pub open spec fn accumulated(self, data: IndexData, delta_ms: u64) -> int {
        data.elapsed + delta_ms * self.numerator
    }

    /// The ticks of the delay that `data` has still to serve.
    pub open spec fn delay_ticks(self, data: IndexData) -> int {
        data.phase_delay * self.numerator
    }

    /// Whether the initial delay holds `data` back: there is a delay left and
    /// the accumulated time has not passed it.
    pub open spec fn gated(self, data: IndexData) -> bool {
        data.phase_delay > 0 && data.elapsed <= self.delay_ticks(data)
    }

    /// The accumulated ticks beyond the delay.
    pub open spec fn effective_ticks(self, data: IndexData) -> int {
        data.elapsed - self.delay_ticks(data)
    }

    /// The frames that have passed at full fluidity.
    pub open spec fn nominal_frames(self, data: IndexData) -> int {
        self.effective_ticks(data) / self.nominal_ticks()
    }

    /// The frames by which the index moves when `frames` have passed at full
    /// fluidity: with `f` frames per move, `floor(floor(frames / f) * f)`.
    pub open spec fn applied_frames(self, frames: int) -> int {
        (((frames * self.numerator) / self.denominator) * self.denominator) / self.numerator
    }

    /// The index that stands for `next`: itself up to the highest index,
    /// beyond it the offset back into the range.
    pub open spec fn wrapped(self, next: int) -> int {
        if next > self.max_i {
            next - self.max_i + self.min_i - 1
        } else {
            next
        }
    }

    /// Whether the move of `data` carries the index beyond the highest one,
    /// so that it comes back into the range from below.
    pub open spec fn wraps(self, data: IndexData) -> bool {
        !self.gated(data) && data.index + self.applied_frames(self.nominal_frames(data))
            > self.max_i
    }

    /// The index that `data` moves to.
    pub open spec fn incremented_index(self, data: IndexData) -> int {
        if self.gated(data) {
            data.index as int
        } else {
            self.wrapped(data.index + self.applied_frames(self.nominal_frames(data)))
        }
    }

    /// Whether the end counts as reached once `data` has moved: it did
    /// before, or the index would come to the highest one at full fluidity.
    pub open spec fn incremented_reached_end(self, data: IndexData) -> bool {
        if self.gated(data) {
            data.reached_end
        } else {
            data.reached_end || data.index + self.nominal_frames(data) >= self.max_i
        }
    }

    /// `data` after the index has moved as far as the accumulated time
    /// carries it. Held back by the delay, nothing changes. Otherwise the
    /// delay is over for good and the time left over is what remains of the
    /// accumulated ticks after whole actual frame durations.
    pub open spec fn incremented(self, data: IndexData) -> IndexData {
        if self.gated(data) {
            data
        } else {
            IndexData {
                index: self.incremented_index(data) as usize,
                elapsed: ((data.elapsed as int) % self.actual_ticks()) as u128,
                phase_delay: 0,
                reached_end: self.incremented_reached_end(data),
            }
        }
    }

    /// The index that the sprite shows once `data` has moved: the index of
    /// the data, unless the delay holds the data back, which leaves the
    /// sprite with the `frame` that it showed before.
    pub open spec fn shown(self, data: IndexData, frame: usize) -> usize {
        if self.gated(data) {
            frame
        } else {
            self.incremented(data).index
        }
    }

    /// `data` with `delta_ms` added to its accumulated time.
    pub open spec fn with_time(self, data: IndexData, delta_ms: u64) -> IndexData {
        IndexData { elapsed: self.accumulated(data, delta_ms) as u128, ..data }
    }

    /// Whether the results of an update fit the integers that hold them.
    pub open spec fn fits(self, data: IndexData, delta_ms: u64) -> bool {
        &&& self.accumulated(data, delta_ms) <= u128::MAX
        &&& self.incremented_index(self.with_time(data, delta_ms)) <= usize::MAX
    }

    /// The data after an update by `delta_ms`.
    pub open spec fn step(self, data: IndexData, delta_ms: u64) -> IndexData {
        self.incremented(self.with_time(data, delta_ms))
    }

    /// The state that takes over at `data`, if any.
    pub open spec fn successor(self, data: IndexData) -> Option<Seq<char>> {
        if self.next_state.is_some() && (data.index >= self.max_i || data.reached_end) {
            self.next_state
        } else {
            None
        }
    }
}

/// The first reason, if any, for which a state cannot be built from these
/// values.
pub open spec fn config_error(
    min_i: usize,
    max_i: usize,
    nominal_mspf: u64,
    fluidity: Fluidity,
) -> Option<ConfigError> {
    if !fluidity.in_range() {
        Some(ConfigError::FluidityOutOfRange)
    } else if min_i > max_i {
        Some(ConfigError::EmptyIndexRange)
    } else if nominal_mspf == 0 {
        Some(ConfigError::ZeroFrameTime)
    } else {
        None
    }
}

/// The fluidity that is meant by an optional one.
pub open spec fn fluidity_or_full(fluidity: Option<Fluidity>) -> Fluidity {
    match fluidity {
        Some(f) => f,
        None => Fluidity { numerator: 1, denominator: 1 },
    }
}

/// The delay that is meant by an optional one.
pub open spec fn phase_or_zero(phase: Option<u64>) -> u64 {
    match phase {
        Some(ms) => ms,
        None => 0,
    }
}

/// A state that chooses the frame by an index that grows with time.
#[derive(Debug)]
pub struct IndexState {
    min_i: usize,
    max_i: usize,
    nominal_mspf: u64,
    next_state: Option<StateID>,
    phase: u64,
    fluidity: Fluidity,
}

impl View for IndexState {
    type V = IndexStateView;

    closed spec fn view(&self) -> IndexStateView {
        IndexStateView {
            min_i: self.min_i as int,
            max_i: self.max_i as int,
            nominal_mspf: self.nominal_mspf as int,
            numerator: self.fluidity.numerator as int,
            denominator: self.fluidity.denominator as int,
            next_state: id_text(self.next_state),
            phase: self.phase as int,
        }
    }
}

impl Clone for IndexState {
    fn clone(&self) -> (copy: Self)
        ensures
            copy@ == self@,
    {
        proof {
            use_type_invariant(self);
        }
        IndexState {
            min_i: self.min_i,
            max_i: self.max_i,
            nominal_mspf: self.nominal_mspf,
            next_state: match &self.next_state {
                Some(id) => Some(id.clone()),
                None => None,
            },
            phase: self.phase,
            fluidity: self.fluidity,
        }
    }
}

impl IndexState {
    /// What holds of every state: see `IndexStateView::wf`.
    #[verifier::type_invariant]
    pub open spec fn valid(&self) -> bool {
        self@.wf()
    }

    /// Makes a state.
    /// * `min_i`, `max_i`: the lowest and highest index of the sprite sheet
    ///   that the state uses, both inclusive.
    /// * `nominal_mspf`: the milliseconds per frame at full fluidity.
    /// * `next_state`: the state to move to after `max_i`; `None` loops.
    /// * `phase`: the milliseconds before the first advance (default 0).
    /// * `fluidity_factor`: in (0, 1], the share of the frames that is shown
    ///   (default 1).
    pub fn new(
        min_i: usize,
        max_i: usize,
        nominal_mspf: u64,
        next_state: Option<StateID>,
        phase: Option<u64>,
        fluidity_factor: Option<Fluidity>,
    ) -> (made: Result<Self, ConfigError>)
        ensures
            match made {
                Ok(state) => {
                    &&& config_error(
                        min_i,
                        max_i,
                        nominal_mspf,
                        fluidity_or_full(fluidity_factor),
                    ) is None
                    &&& state@ == (IndexStateView {
                        min_i: min_i as int,
                        max_i: max_i as int,
                        nominal_mspf: nominal_mspf as int,
                        numerator: fluidity_or_full(fluidity_factor).numerator as int,
                        denominator: fluidity_or_full(fluidity_factor).denominator as int,
                        next_state: id_text(next_state),
                        phase: phase_or_zero(phase) as int,
                    })
                    &&& state@.wf()
                },
                Err(error) => config_error(
                    min_i,
                    max_i,
                    nominal_mspf,
                    fluidity_or_full(fluidity_factor),
                ) == Some(error),
            },
    {
        let fluidity = match fluidity_factor {
            Some(f) => f,
            None => Fluidity::full(),
        };
        if fluidity.numerator == 0 || fluidity.numerator > fluidity.denominator {
            return Err(ConfigError::FluidityOutOfRange);
        }
        if min_i > max_i {
            return Err(ConfigError::EmptyIndexRange);
        }
        if nominal_mspf == 0 {
            return Err(ConfigError::ZeroFrameTime);
        }
        let phase = match phase {
            Some(ms) => ms,
            None => 0,
        };
        Ok(IndexState { min_i, max_i, nominal_mspf, next_state, phase, fluidity })
    }

    /// The lowest index of the state.
    pub fn min_i(&self) -> (index: usize)
        ensures
            index == self@.min_i,
    {
        self.min_i
    }

    /// The highest index of the state.
    pub fn max_i(&self) -> (index: usize)
        ensures
            index == self@.max_i,
    {
        self.max_i
    }

    /// The milliseconds per frame at full fluidity.
    pub fn nominal_mspf(&self) -> (ms: u64)
        ensures
            ms == self@.nominal_mspf,
    {
        self.nominal_mspf
    }

    /// The state that follows once the end is reached, if any.
    pub fn following(&self) -> (next: &Option<StateID>)
        ensures
            id_text(*next) == self@.next_state,
    {
        &self.next_state
    }

    /// The milliseconds before the first advance.
    pub fn phase(&self) -> (ms: u64)
        ensures
            ms == self@.phase,
    {
        self.phase
    }

    /// The fluidity of the state.
    pub fn fluidity(&self) -> (share: Fluidity)
        ensures
            share.numerator == self@.numerator,
            share.denominator == self@.denominator,
            share.in_range(),
    {
        proof {
            use_type_invariant(self);
        }
        self.fluidity
    }
}

/// With a range that is not empty and a frame time that is not zero, the
/// fluidity alone decides whether a state can be built: it can for every
/// fluidity in (0, 1] and for no other.
pub proof fn lemma_fluidity_decides(
    min_i: usize,
    max_i: usize,
    nominal_mspf: u64,
    fluidity: Fluidity,
)
    requires
        min_i <= max_i,
        nominal_mspf > 0,
    ensures
        fluidity.in_range() <==> config_error(min_i, max_i, nominal_mspf, fluidity) is None,
        !fluidity.in_range() <==> config_error(min_i, max_i, nominal_mspf, fluidity) == Some(
            ConfigError::FluidityOutOfRange,
        ),
{
}

/// The frames by which the index moves are never more than have passed at
/// full fluidity, so that at less than full fluidity the index lags behind.
pub proof fn lemma_applied_at_most_nominal(state: IndexStateView, frames: int)
    requires
        state.wf(),
        0 <= frames,
    ensures
        0 <= state.applied_frames(frames) <= frames,
{
    let p = state.numerator;
    let q = state.denominator;
    lemma_floor_multiple(frames * p, q);
    let moved = ((frames * p) / q) * q;
    lemma_floor_multiple(moved, p);
    vstd::arithmetic::div_mod::lemma_div_is_ordered(moved, frames * p, p);
    vstd::arithmetic::div_mod::lemma_div_multiples_vanish(frames, p);
    assert(frames * p == p * frames) by (nonlinear_arith);
}

/// At full fluidity the index moves by every frame that has passed.
pub proof fn lemma_full_fluidity_applies_all(state: IndexStateView, frames: int)
    requires
        state.wf(),
        state.numerator == state.denominator,
        0 <= frames,
    ensures
        state.applied_frames(frames) == frames,
{
    let p = state.numerator;
    vstd::arithmetic::div_mod::lemma_div_multiples_vanish(frames, p);
    assert(frames * p == p * frames) by (nonlinear_arith);
}

/// Past the initial delay the frames counted are those of the time beyond
/// the delay, and there are none of them before time has passed.
pub proof fn lemma_nominal_frames_not_negative(state: IndexStateView, data: IndexData)
    requires
        state.wf(),
        !state.gated(data),
    ensures
        0 <= state.effective_ticks(data),
        0 <= state.nominal_frames(data),
{
    assert(data.phase_delay == 0 ==> state.delay_ticks(data) == 0) by (nonlinear_arith)
        requires
            state.delay_ticks(data) == data.phase_delay * state.numerator,
    ;
    lemma_frames_bounded(state.effective_ticks(data), state.nominal_mspf, state.numerator);
}

/// A playback that has just entered a state stands at the lowest index with
/// no time accumulated, the whole delay to serve and the end not reached. Two
/// playbacks that enter the same state begin with the same data.
pub proof fn lemma_fresh_fields(state: IndexStateView)
    requires
        state.wf(),
    ensures
        state.fresh().index == state.min_i,
        state.fresh().elapsed == 0,
        state.fresh().phase_delay == state.phase,
        !state.fresh().reached_end,
{
}

/// The highest index is shown as itself, the one after it as the lowest, and
/// an index that overshoots the range by no more than its length comes back
/// into the range.
pub proof fn lemma_wrapped_in_range(state: IndexStateView, next: int)
    requires
        state.wf(),
        state.min_i <= next <= state.max_i + (state.max_i - state.min_i + 1),
    ensures
        state.min_i <= state.wrapped(next) <= state.max_i,
        state.wrapped(state.max_i) == state.max_i,
        state.wrapped(state.max_i + 1) == state.min_i,
{
}

/// While the initial delay holds a playback back, an update adds the time
/// and changes nothing else: not the index, not the delay, not the end flag,
/// and not the frame that the sprite shows.
pub proof fn lemma_gated_update_only_adds_time(
    state: IndexStateView,
    data: IndexData,
    delta_ms: u64,
    frame: usize,
)
    requires
        state.wf(),
        state.accumulated(data, delta_ms) <= u128::MAX,
        data.phase_delay > 0,
        state.accumulated(data, delta_ms) <= state.delay_ticks(data),
    ensures
        state.fits(data, delta_ms),
        state.step(data, delta_ms).index == data.index,
        state.step(data, delta_ms).phase_delay == data.phase_delay,
        state.step(data, delta_ms).reached_end == data.reached_end,
        state.step(data, delta_ms).elapsed == state.accumulated(data, delta_ms),
        state.shown(state.with_time(data, delta_ms), frame) == frame,
{
    lemma_product_fits(delta_ms as int, state.numerator);
    let later = state.with_time(data, delta_ms);
    assert(state.delay_ticks(later) == state.delay_ticks(data));
    assert(state.gated(later));
}

/// Once the accumulated time has passed the initial delay, the delay is over
/// for good, the frames are counted from the time beyond it alone, and less
/// than one actual frame duration is kept for the next update.
pub proof fn lemma_delay_served_once(state: IndexStateView, data: IndexData, delta_ms: u64)
    requires
        state.wf(),
        state.fits(data, delta_ms),
        state.accumulated(data, delta_ms) > state.delay_ticks(data),
    ensures
        state.step(data, delta_ms).phase_delay == 0,
        state.nominal_frames(state.with_time(data, delta_ms)) == (state.accumulated(
            data,
            delta_ms,
        ) - state.delay_ticks(data)) / state.nominal_ticks(),
        state.step(data, delta_ms).elapsed == state.accumulated(data, delta_ms)
            % state.actual_ticks(),
        state.step(data, delta_ms).elapsed < state.actual_ticks(),
{
    lemma_product_fits(delta_ms as int, state.numerator);
    lemma_product_fits(state.nominal_mspf, state.denominator);
    let later = state.with_time(data, delta_ms);
    assert(state.delay_ticks(later) == state.delay_ticks(data));
    assert(0 < state.actual_ticks()) by (nonlinear_arith)
        requires
            state.actual_ticks() == state.nominal_mspf * state.denominator,
            0 < state.nominal_mspf,
            0 < state.denominator,
    ;
    vstd::arithmetic::div_mod::lemma_mod_pos_bound(later.elapsed as int, state.actual_ticks());
}

/// Without wraparound the index never falls: an update that does not carry
/// the index beyond the highest one leaves it where it was or further on, at
/// any fluidity.
pub proof fn lemma_index_rises_without_wrap(state: IndexStateView, data: IndexData, delta_ms: u64)
    requires
        state.wf(),
        state.accumulated(data, delta_ms) <= u128::MAX,
        data.index <= state.max_i,
        !state.wraps(state.with_time(data, delta_ms)),
    ensures
        state.fits(data, delta_ms),
        data.index <= state.step(data, delta_ms).index <= state.max_i,
{
    lemma_product_fits(delta_ms as int, state.numerator);
    let later = state.with_time(data, delta_ms);
    if !state.gated(later) {
        lemma_nominal_frames_not_negative(state, later);
        lemma_applied_at_most_nominal(state, state.nominal_frames(later));
    }
}

/// An update that carries the index at most once around stays in the range:
/// from an index in the range, a move by no more frames than the range
/// holds ends on an index in the range.
pub proof fn lemma_step_stays_in_range(state: IndexStateView, data: IndexData, delta_ms: u64)
    requires
        state.wf(),
        state.accumulated(data, delta_ms) <= u128::MAX,
        state.min_i <= data.index <= state.max_i,
        state.applied_frames(state.nominal_frames(state.with_time(data, delta_ms))) <= state.max_i
            - state.min_i + 1,
    ensures
        state.fits(data, delta_ms),
        state.min_i <= state.step(data, delta_ms).index <= state.max_i,
{
    lemma_product_fits(delta_ms as int, state.numerator);
    let later = state.with_time(data, delta_ms);
    if !state.gated(later) {
        lemma_nominal_frames_not_negative(state, later);
        lemma_applied_at_most_nominal(state, state.nominal_frames(later));
        lemma_wrapped_in_range(
            state,
            data.index + state.applied_frames(state.nominal_frames(later)),
        );
    }
}

/// Where the fluidity is one part in a whole number of parts, the index
/// moves by that many frames for each actual frame duration that has passed.
pub proof fn lemma_applied_in_whole_moves(state: IndexStateView, frames: int)
    requires
        state.wf(),
        state.denominator % state.numerator == 0,
        0 <= frames,
    ensures
        state.applied_frames(frames) == (frames / (state.denominator / state.numerator)) * (
        state.denominator / state.numerator),
        0 < state.denominator / state.numerator,
        state.denominator == state.numerator * (state.denominator / state.numerator),
{
    let p = state.numerator;
    let q = state.denominator;
    let m = q / p;
    vstd::arithmetic::div_mod::lemma_fundamental_div_mod(q, p);
    assert(q == p * m);
    assert(0 < m) by (nonlinear_arith)
        requires
            q == p * m,
            0 < p <= q,
    ;
    let moves = frames / m;
    vstd::arithmetic::div_mod::lemma_div_multiples_vanish_quotient(p, frames, m);
    assert(frames * p == p * frames) by (nonlinear_arith);
    assert((frames * p) / q == moves);
    vstd::arithmetic::div_mod::lemma_div_multiples_vanish(moves * m, p);
    assert(moves * q == p * (moves * m)) by (nonlinear_arith)
        requires
            q == p * m,
    ;
}

/// Time that comes in two parts counts like time that comes at once: the
/// whole periods of the first part and those of what it left over together
/// with the second part are the whole periods of the sum.
proof fn lemma_time_in_two_parts(first: int, second: int, unit: int, moves: int)
    requires
        0 <= first,
        0 <= second,
        0 < unit,
        0 < moves,
    ensures
        0 < unit * moves,
        0 <= first / (unit * moves),
        0 <= first % (unit * moves) < unit * moves,
        (first + second) / (unit * moves) == first / (unit * moves) + (first % (unit * moves)
            + second) / (unit * moves),
        (first + second) % (unit * moves) == (first % (unit * moves) + second) % (unit * moves),
        (first + second) / unit == moves * (first / (unit * moves)) + (first % (unit * moves)
            + second) / unit,
        first / unit <= (first + second) / unit,
{
    let period = unit * moves;
    assert(0 < period) by (nonlinear_arith)
        requires
            period == unit * moves,
            0 < unit,
            0 < moves,
    ;
    let whole = first / period;
    let rest = first % period + second;
    vstd::arithmetic::div_mod::lemma_fundamental_div_mod(first, period);
    vstd::arithmetic::div_mod::lemma_mod_pos_bound(first, period);
    vstd::arithmetic::div_mod::lemma_div_pos_is_pos(first, period);
    assert(first + second == period * whole + rest);
    vstd::arithmetic::div_mod::lemma_hoist_over_denominator(rest, whole, period as nat);
    assert(rest + whole * period == first + second) by (nonlinear_arith)
        requires
            first + second == period * whole + rest,
    ;
    vstd::arithmetic::div_mod::lemma_mod_multiples_vanish(whole, rest, period);
    vstd::arithmetic::div_mod::lemma_hoist_over_denominator(rest, moves * whole, unit as nat);
    assert(rest + (moves * whole) * unit == first + second) by (nonlinear_arith)
        requires
            first + second == period * whole + rest,
            period == unit * moves,
    ;
    vstd::arithmetic::div_mod::lemma_div_is_ordered(first, first + second, unit);
}

/// No time is lost between updates. Where the fluidity is one part in a
/// whole number of parts (full fluidity among them) and no delay is left to
/// serve, two updates in a row leave the data that one update by the sum of
/// their times leaves, as long as that one carries the index at most once
/// around.
pub proof fn lemma_updates_add_up(
    state: IndexStateView,
    data: IndexData,
    first_ms: u64,
    second_ms: u64,
)
    requires
        state.wf(),
        state.denominator % state.numerator == 0,
        data.phase_delay == 0,
        first_ms + second_ms <= u64::MAX,
        state.fits(data, (first_ms + second_ms) as u64),
        data.index + state.applied_frames(
            state.nominal_frames(state.with_time(data, (first_ms + second_ms) as u64)),
        ) <= state.max_i + (state.max_i - state.min_i + 1),
    ensures
        state.fits(data, first_ms),
        state.fits(state.step(data, first_ms), second_ms),
        state.step(state.step(data, first_ms), second_ms) == state.step(
            data,
            (first_ms + second_ms) as u64,
        ),
{
    let p = state.numerator;
    let m = state.denominator / p;
    let unit = state.nominal_ticks();
    let period = state.actual_ticks();
    let total_ms = (first_ms + second_ms) as u64;
    let first = data.elapsed + first_ms * p;
    let second = second_ms * p;
    lemma_applied_in_whole_moves(state, 0);
    lemma_product_fits(first_ms as int, p);
    lemma_product_fits(second_ms as int, p);
    lemma_product_fits(total_ms as int, p);
    lemma_product_fits(state.nominal_mspf, p);
    lemma_product_fits(state.nominal_mspf, state.denominator);
    assert(0 < unit) by (nonlinear_arith)
        requires
            unit == state.nominal_mspf * p,
            0 < state.nominal_mspf,
            0 < p,
    ;
    assert(period == unit * m) by (nonlinear_arith)
        requires
            period == state.nominal_mspf * state.denominator,
            unit == state.nominal_mspf * p,
            state.denominator == p * m,
    ;
    assert(total_ms * p == first_ms * p + second_ms * p) by (nonlinear_arith)
        requires
            total_ms == first_ms + second_ms,
    ;
    lemma_time_in_two_parts(first, second, unit, m);

    let at_once = state.with_time(data, total_ms);
    let after_first = state.with_time(data, first_ms);
    let between = state.step(data, first_ms);
    let after_second = state.with_time(between, second_ms);
    assert(state.delay_ticks(data) == 0);
    assert(!state.gated(at_once) && !state.gated(after_first));
    assert(at_once.elapsed == first + second);
    assert(after_first.elapsed == first);

    // The frames of each of the three updates, in whole periods.
    let frames_at_once = state.nominal_frames(at_once);
    let frames_first = state.nominal_frames(after_first);
    assert(frames_at_once == (first + second) / unit);
    assert(frames_first == first / unit);
    vstd::arithmetic::div_mod::lemma_div_pos_is_pos(first + second, unit);
    vstd::arithmetic::div_mod::lemma_div_pos_is_pos(first, unit);
    lemma_applied_in_whole_moves(state, frames_at_once);
    lemma_applied_in_whole_moves(state, frames_first);
    vstd::arithmetic::div_mod::lemma_div_denominator(first + second, unit, m);
    vstd::arithmetic::div_mod::lemma_div_denominator(first, unit, m);
    let moved_at_once = state.applied_frames(frames_at_once);
    let moved_first = state.applied_frames(frames_first);
    assert(moved_at_once == ((first + second) / period) * m);
    assert(moved_first == (first / period) * m);

    let rest = first % period + second;
    vstd::arithmetic::div_mod::lemma_fundamental_div_mod(first, period);
    assert(first % period <= first) by (nonlinear_arith)
        requires
            first == period * (first / period) + first % period,
            0 <= first / period,
            0 < period,
    ;
    assert(between.elapsed == first % period);
    assert(between.phase_delay == 0);
    assert(state.delay_ticks(between) == 0);
    assert(after_second.elapsed == rest);
    assert(!state.gated(after_second));
    let frames_second = state.nominal_frames(after_second);
    assert(frames_second == rest / unit);
    vstd::arithmetic::div_mod::lemma_div_pos_is_pos(rest, unit);
    vstd::arithmetic::div_mod::lemma_div_pos_is_pos(rest, period);
    lemma_applied_in_whole_moves(state, frames_second);
    vstd::arithmetic::div_mod::lemma_div_denominator(rest, unit, m);
    let moved_second = state.applied_frames(frames_second);
    assert(moved_second == (rest / period) * m);
    assert(moved_at_once == moved_first + moved_second) by (nonlinear_arith)
        requires
            moved_at_once == ((first + second) / period) * m,
            moved_first == (first / period) * m,
            moved_second == (rest / period) * m,
            (first + second) / period == first / period + rest / period,
    ;
    assert(frames_at_once == moved_first + frames_second) by (nonlinear_arith)
        requires
            frames_at_once == m * (first / period) + frames_second,
            moved_first == (first / period) * m,
    ;
    assert(0 <= moved_second) by (nonlinear_arith)
        requires
            moved_second == (rest / period) * m,
            0 <= rest / period,
            0 < m,
    ;
    lemma_applied_at_most_nominal(state, frames_first);
}

/// The end is judged at the nominal rate: it counts as reached as soon as
/// the frames that have passed at full fluidity lead to the highest index,
/// however far the index itself has come. Once reached it stays reached.
pub proof fn lemma_end_judged_at_nominal_rate(
    state: IndexStateView,
    data: IndexData,
    delta_ms: u64,
)
    requires
        state.wf(),
        state.fits(data, delta_ms),
    ensures
        data.reached_end ==> state.step(data, delta_ms).reached_end,
        !state.gated(state.with_time(data, delta_ms)) ==> (state.step(data, delta_ms).reached_end
            <==> data.reached_end || data.index + state.nominal_frames(
            state.with_time(data, delta_ms),
        ) >= state.max_i),
{
}

/// A state without a successor never hands over; a state with one hands over
/// exactly when the index has come to the highest one or the end counts as
/// reached.
pub proof fn lemma_successor(state: IndexStateView, data: IndexData)
    ensures
        state.next_state is None ==> state.successor(data) is None,
        state.next_state is Some ==> (state.successor(data) is Some <==> data.index >= state.max_i
            || data.reached_end),
        state.successor(data) is Some ==> state.successor(data) == state.next_state,
{
}

/// On a machine, a playback in a state without a successor stays in it at
/// every update, wherever its index stands; a playback in a state with a
/// successor that the machine holds enters the successor afresh at the
/// update that brings the index to the highest one or the end within reach.
pub proof fn lemma_machine_follows_successor(
    machine: AnimationStateMachine<FrameSlot, IndexState>,
    before: StateInstance<IndexState, IndexData>,
    args: UpdateArgs,
    frame_before: usize,
    after: StateInstance<IndexState, IndexData>,
    frame_after: usize,
    outcome: UpdateOutcome,
)
    requires
        machine.updates(before, args, frame_before, after, frame_after, outcome),
        machine.states()@.contains_key(before.current_id@),
    ensures
        ({
            let state = machine.states()@[before.current_id@]@;
            let data = state.step(before.data, args.delta_ms);
            let at_end = data.index >= state.max_i || data.reached_end;
            &&& state.next_state is None ==> outcome is Continued
            &&& !at_end ==> outcome is Continued
            &&& outcome is Continued ==> after.current_id == before.current_id && after.data
                == data
            &&& state.next_state matches Some(next) ==> {
                &&& at_end && machine.states()@.contains_key(next) ==> outcome is Switched
                    && machine.entered(next, after)
                &&& at_end && !machine.states()@.contains_key(next) ==> outcome is MissingTarget
                    && after.current_id == before.current_id && after.data == data
            }
        }),
{
}

/// The product of two 64-bit numbers fits 128 bits.
proof fn lemma_product_fits(a: int, b: int)
    requires
        0 <= a <= u64::MAX,
        0 <= b <= u64::MAX,
    ensures
        0 <= a * b <= 0xffff_ffff_ffff_fffe_0000_0000_0000_0001,
{
    assert(0 <= a * b <= 0xffff_ffff_ffff_ffff * 0xffff_ffff_ffff_ffff) by (nonlinear_arith)
        requires
            0 <= a <= 0xffff_ffff_ffff_ffff,
            0 <= b <= 0xffff_ffff_ffff_ffff,
    ;
}

/// Whole frames of `frame` ticks each, `scale` per tick unit, do not
/// outgrow the ticks they were counted from.
proof fn lemma_frames_bounded(ticks: int, unit: int, scale: int)
    requires
        0 <= ticks,
        0 < unit,
        0 < scale,
    ensures
        0 <= ticks / (unit * scale),
        (ticks / (unit * scale)) * scale <= ticks,
{
    let frames = ticks / (unit * scale);
    assert(0 < unit * scale) by (nonlinear_arith)
        requires
            0 < unit,
            0 < scale,
    ;
    assert(0 <= frames && frames * (unit * scale) <= ticks) by (nonlinear_arith)
        requires
            0 <= ticks,
            0 < unit * scale,
            frames == ticks / (unit * scale),
    ;
    assert(frames * scale <= frames * (unit * scale)) by (nonlinear_arith)
        requires
            0 <= frames,
            0 < unit,
            0 < scale,
    ;
}

/// Rounding down to whole multiples never adds anything.
proof fn lemma_floor_multiple(amount: int, step: int)
    requires
        0 <= amount,
        0 < step,
    ensures
        0 <= amount / step,
        0 <= (amount / step) * step <= amount,
{
    assert(0 <= amount / step && 0 <= (amount / step) * step <= amount) by (nonlinear_arith)
        requires
            0 <= amount,
            0 < step,
    ;
}

impl IndexState {
    /// Whether the delay that `data` has still to serve holds it back.
    fn is_gated(&self, data: &IndexData) -> (held: bool)
        ensures
            held == self@.gated(*data),
    {
        proof {
            use_type_invariant(self);
            lemma_product_fits(data.phase_delay as int, self@.numerator);
        }
        let delay: u128 = (data.phase_delay as u128) * (self.fluidity.numerator as u128);
        data.phase_delay > 0 && data.elapsed <= delay
    }

    /// The frames that have passed at full fluidity, and the frames by which
    /// the index moves for them.
    fn frames_due(&self, data: &IndexData) -> (due: (u128, u128))
        requires
            !self@.gated(*data),
        ensures
            due.0 == self@.nominal_frames(*data),
            due.1 == self@.applied_frames(due.0 as int),
    {
        proof {
            use_type_invariant(self);
            lemma_product_fits(data.phase_delay as int, self@.numerator);
            lemma_product_fits(self@.nominal_mspf, self@.numerator);
        }
        let ticks_per_ms: u128 = self.fluidity.numerator as u128;
        let parts: u128 = self.fluidity.denominator as u128;
        let delay: u128 = (data.phase_delay as u128) * ticks_per_ms;
        assert(data.phase_delay == 0 ==> delay == 0) by (nonlinear_arith)
            requires
                delay == data.phase_delay * ticks_per_ms,
        ;
        let effective: u128 = data.elapsed - delay;
        let nominal_ticks: u128 = (self.nominal_mspf as u128) * ticks_per_ms;
        assert(nominal_ticks > 0) by (nonlinear_arith)
            requires
                nominal_ticks == self@.nominal_mspf * self@.numerator,
                self@.nominal_mspf > 0,
                self@.numerator > 0,
        ;
        let nominal_frames: u128 = effective / nominal_ticks;
        proof {
            lemma_frames_bounded(effective as int, self@.nominal_mspf, self@.numerator);
            lemma_floor_multiple(nominal_frames * ticks_per_ms, self@.denominator);
        }
        let whole_moves: u128 = (nominal_frames * ticks_per_ms) / parts;
        let frames: u128 = (whole_moves * parts) / ticks_per_ms;
        (nominal_frames, frames)
    }

    /// Moves the index as far as the accumulated time carries it, and shows
    /// the frame. Held back by the delay, it touches neither the data nor
    /// the sprite.
    fn maybe_increment(&self, data: &mut IndexData, sprite: &mut FrameSlot)
        requires
            self@.incremented_index(*old(data)) <= usize::MAX,
        ensures
            *final(data) == self@.incremented(*old(data)),
            final(sprite).index == self@.shown(*old(data), old(sprite).index),
    {
        proof {
            use_type_invariant(self);
            lemma_product_fits(self@.nominal_mspf, self@.denominator);
        }
        if self.is_gated(data) {
            return ;
        }
        let (nominal_frames, frames) = self.frames_due(data);
        // The end is judged at the nominal rate: with less than full fluidity
        // the index itself gets there late or not at all.
        if data.index >= self.max_i || nominal_frames >= (self.max_i - data.index) as u128 {
            data.reached_end = true;
        }
        let actual_ticks: u128 = (self.nominal_mspf as u128) * (self.fluidity.denominator as u128);
        assert(actual_ticks > 0) by (nonlinear_arith)
            requires
                actual_ticks == self@.nominal_mspf * self@.denominator,
                self@.nominal_mspf > 0,
                self@.denominator > 0,
        ;
        data.elapsed = data.elapsed % actual_ticks;
        data.phase_delay = 0;
        let next: u128 = data.index as u128 + frames;
        let shown: u128 = if next > self.max_i as u128 {
            next - self.max_i as u128 + self.min_i as u128 - 1
        } else {
            next
        };
        data.index = shown as usize;
        sprite.set_index(data.index);
    }

    /// Whether an update of `data` by `args` stays within the integers that
    /// hold the results, which `update` asks of its caller.
    pub fn can_update(&self, data: &IndexData, args: UpdateArgs) -> (ok: bool)
        ensures
            ok == self@.fits(*data, args.delta_ms),
    {
        proof {
            use_type_invariant(self);
            lemma_product_fits(args.delta_ms as int, self@.numerator);
        }
        let added: u128 = (args.delta_ms as u128) * (self.fluidity.numerator as u128);
        if data.elapsed > u128::MAX - added {
            return false;
        }
        let later = IndexData {
            index: data.index,
            elapsed: data.elapsed + added,
            phase_delay: data.phase_delay,
            reached_end: data.reached_end,
        };
        if self.is_gated(&later) {
            return true;
        }
        let (_, frames) = self.frames_due(&later);
        if frames > (usize::MAX as u128) * 2 + 1 {
            return false;
        }
        let next: u128 = later.index as u128 + frames;
        let shown: u128 = if next > self.max_i as u128 {
            next - self.max_i as u128 + self.min_i as u128 - 1
        } else {
            next
        };
        shown <= usize::MAX as u128
    }
}

impl AnimationState for IndexState {
    type Sprite = FrameSlot;

    type Data = IndexData;

    open spec fn fresh(&self) -> IndexData {
        self@.fresh()
    }

    open spec fn fits(&self, data: IndexData, args: UpdateArgs, frame: usize) -> bool {
        self@.fits(data, args.delta_ms)
    }

    open spec fn advanced(&self, data: IndexData, args: UpdateArgs, frame: usize) -> IndexData {
        self@.step(data, args.delta_ms)
    }

    open spec fn shown(&self, data: IndexData, args: UpdateArgs, frame: usize) -> usize {
        self@.shown(self@.with_time(data, args.delta_ms), frame)
    }

    open spec fn successor(&self, data: IndexData, frame: usize) -> Option<Seq<char>> {
        self@.successor(data)
    }

    fn start(&self) -> (data: IndexData)
        ensures
            data.index == self@.min_i,
            data.elapsed == 0,
            data.phase_delay == self@.phase,
            !data.reached_end,
    {
        IndexData::new(self)
    }

    fn update(&self, data: &mut IndexData, args: UpdateArgs, sprite: &mut FrameSlot) {
        proof {
            use_type_invariant(self);
            lemma_product_fits(args.delta_ms as int, self@.numerator);
        }
        data.elapsed = data.elapsed + (args.delta_ms as u128) * (self.fluidity.numerator as u128);
        self.maybe_increment(data, sprite);
    }

    fn next_state(&self, data: &IndexData, sprite: &FrameSlot) -> (next: Option<StateID>) {
        match &self.next_state {
            Some(id) => {
                if data.index >= self.max_i || data.reached_end {
                    Some(id.clone())
                } else {
                    None
                }
            },
            None => None,
        }
    }
}

impl IndexData {
    /// The data of a playback that has just entered `state`: at the lowest
    /// index, with no time accumulated, the whole delay to serve and the end
    /// not reached.
    pub fn new(state: &IndexState) -> (data: Self)
        ensures
            data == state@.fresh(),
            data.index == state@.min_i,
            data.elapsed == 0,
            data.phase_delay == state@.phase,
            !data.reached_end,
    {
        proof {
            use_type_invariant(state);
        }
        IndexData { index: state.min_i, elapsed: 0, phase_delay: state.phase, reached_end: false }
    }
}

} // verus!
