//! Cognitive loop types: stages, run states, stage durations, and the
//! run-state/metrics bookkeeping of the loop.
//!
//! TMI's cognitive cycle runs five stages (Trigger, Autoflow, Attention,
//! Assembly, Anchor). The loop keeps counters of cycles, produced thoughts
//! and on-time cycles, and accumulates the time spent in each stage.
use vstd::prelude::*;
use std::time::Duration;

verus! {

// ---------------------------------------------------------------------------
// Durations
// ---------------------------------------------------------------------------

/// Name for `Duration::as_nanos`: the length of a duration in nanoseconds.
/// The trusted duration operations below state their results through it.
pub uninterp spec fn duration_nanos(d: Duration) -> nat;

/// The longest `Duration`: `u64::MAX` seconds and 999,999,999 nanoseconds.
pub open spec fn max_duration_nanos() -> nat {
    18_446_744_073_709_551_615 * 1_000_000_000 + 999_999_999
}

/// `Duration::ZERO`: zero nanoseconds.
#[verifier::external_body]
pub(crate) fn duration_zero() -> (d: Duration)
    ensures
        duration_nanos(d) == 0,
{
    Duration::ZERO
}

/// `Duration + Duration`: the sum of the lengths. std panics when the sum
/// exceeds the longest duration, so that input is excluded.
#[verifier::external_body]
pub(crate) fn duration_sum(a: Duration, b: Duration) -> (d: Duration)
    requires
        duration_nanos(a) + duration_nanos(b) <= max_duration_nanos(),
    ensures
        duration_nanos(d) == duration_nanos(a) + duration_nanos(b),
{
    a + b
}

/// `Duration::as_nanos`: the length in nanoseconds. A `Duration` holds whole
/// seconds in a `u64` and fewer than a billion nanoseconds besides, so the
/// length is at most that of the longest `Duration`.
#[verifier::external_body]
fn duration_as_nanos(d: &Duration) -> (n: u128)
    ensures
        n == duration_nanos(*d),
        n <= max_duration_nanos(),
{
    d.as_nanos()
}

/// `Duration::new(secs, nanos)` with fewer than a billion nanoseconds (no
/// carry into the seconds, so std does not panic): `secs` seconds and
/// `nanos` nanoseconds.
#[verifier::external_body]
fn duration_new(secs: u64, nanos: u32) -> (d: Duration)
    requires
        nanos < 1_000_000_000,
    ensures
        duration_nanos(d) == secs * 1_000_000_000 + nanos,
{
    Duration::new(secs, nanos)
}

/// The length of a duration in nanoseconds; never more than that of the
/// longest `Duration`.
pub fn duration_length(d: &Duration) -> (n: u128)
    ensures
        n == duration_nanos(*d),
        n <= max_duration_nanos(),
{
    duration_as_nanos(d)
}

/// A duration divided by a factor of at least 1, rounded down to whole
/// nanoseconds.
pub fn duration_div(d: Duration, divisor: u64) -> (r: Duration)
    requires
        divisor >= 1,
    ensures
        duration_nanos(r) == duration_nanos(d) / (divisor as nat),
{
    let n = duration_as_nanos(&d);
    let q = n / (divisor as u128);
    assert(q <= n) by (nonlinear_arith)
        requires
            q == n / (divisor as u128),
            divisor >= 1,
    ;
    assert(q / 1_000_000_000 <= 18_446_744_073_709_551_615) by (nonlinear_arith)
        requires
            q <= 18_446_744_073_709_551_615 * 1_000_000_000 + 999_999_999,
    ;
    let secs = (q / 1_000_000_000) as u64;
    let nanos = (q % 1_000_000_000) as u32;
    let r = duration_new(secs, nanos);
    assert(secs * 1_000_000_000 + nanos == q);
    r
}

/// `Duration <= Duration`: durations compare by length.
#[verifier::external_body]
pub(crate) fn duration_le(a: &Duration, b: &Duration) -> (r: bool)
    ensures
        r == (duration_nanos(*a) <= duration_nanos(*b)),
{
    *a <= *b
}

/// `Duration::saturating_sub`: the difference of the lengths, or zero where
/// `b` is the longer.
#[verifier::external_body]
fn duration_saturating_sub(a: Duration, b: Duration) -> (d: Duration)
    ensures
        duration_nanos(d) == (if duration_nanos(b) <= duration_nanos(a) {
            (duration_nanos(a) - duration_nanos(b)) as nat
        } else {
            0nat
        }),
{
    a.saturating_sub(b)
}

// ---------------------------------------------------------------------------
// Stages and run states
// ---------------------------------------------------------------------------

/// Current stage in the cognitive cycle
#[derive(Debug, Clone, Copy, PartialEq, Eq, Structural)]
pub enum CognitiveStage {
    /// Gatilho da Memória - Memory trigger activation
    Trigger,
    /// Autofluxo - Parallel thought generation
    Autoflow,
    /// O Eu - Attention selection
    Attention,
    /// Construção do Pensamento - Thought assembly
    Assembly,
    /// Âncora da Memória - Memory encoding decision
    Anchor,
}

/// State of the cognitive loop
#[derive(Debug, Clone, Copy, PartialEq, Eq, Structural)]
pub enum LoopState {
    /// Active cognition - processing thoughts
    Running,
    /// Temporarily paused - can be resumed
    Paused,
    /// Fully stopped - requires restart
    Stopped,
}

// ---------------------------------------------------------------------------
// Stage durations
// ---------------------------------------------------------------------------

/// Time spent in each stage of the cognitive cycle
#[derive(Debug)]
pub struct StageDurations {
    pub trigger: Duration,
    pub autoflow: Duration,
    pub attention: Duration,
    pub assembly: Duration,
    pub anchor: Duration,
}

/// Nanosecond lengths of the five stages, in stage order.
pub struct StageNanos {
    pub trigger: nat,
    pub autoflow: nat,
    pub attention: nat,
    pub assembly: nat,
    pub anchor: nat,
}

impl View for StageDurations {
    type V = StageNanos;

    open spec fn view(&self) -> StageNanos {
        StageNanos {
            trigger: duration_nanos(self.trigger),
            autoflow: duration_nanos(self.autoflow),
            attention: duration_nanos(self.attention),
            assembly: duration_nanos(self.assembly),
            anchor: duration_nanos(self.anchor),
        }
    }
}

impl StageNanos {
    /// Sum over all stages
    pub open spec fn total(self) -> nat {
        self.trigger + self.autoflow + self.attention + self.assembly + self.anchor
    }

    /// Every stage is zero
    pub open spec fn is_zero(self) -> bool {
        self.total() == 0
    }

    /// Stage-wise sum
    pub open spec fn plus(self, other: StageNanos) -> StageNanos {
        StageNanos {
            trigger: self.trigger + other.trigger,
            autoflow: self.autoflow + other.autoflow,
            attention: self.attention + other.attention,
            assembly: self.assembly + other.assembly,
            anchor: self.anchor + other.anchor,
        }
    }

    /// Stage-wise floor division
    pub open spec fn divided_by(self, d: nat) -> StageNanos {
        StageNanos {
            trigger: self.trigger / d,
            autoflow: self.autoflow / d,
            attention: self.attention / d,
            assembly: self.assembly / d,
            anchor: self.anchor / d,
        }
    }

    /// Every stage fits in a `Duration`
    pub open spec fn fits(self) -> bool {
        &&& self.trigger <= max_duration_nanos()
        &&& self.autoflow <= max_duration_nanos()
        &&& self.attention <= max_duration_nanos()
        &&& self.assembly <= max_duration_nanos()
        &&& self.anchor <= max_duration_nanos()
    }

    /// Every stage-wise sum fits in a `Duration`
    pub open spec fn can_add(self, other: StageNanos) -> bool {
        &&& self.trigger + other.trigger <= max_duration_nanos()
        &&& self.autoflow + other.autoflow <= max_duration_nanos()
        &&& self.attention + other.attention <= max_duration_nanos()
        &&& self.assembly + other.assembly <= max_duration_nanos()
        &&& self.anchor + other.anchor <= max_duration_nanos()
    }
}

impl StageDurations {
    /// Total time across all stages. The stages are added left to right; the
    /// total must fit in a `Duration` (std panics otherwise).
    pub fn total(&self) -> (t: Duration)
        requires
            self@.total() <= max_duration_nanos(),
        ensures
            duration_nanos(t) == self@.total(),
    {
        let a = duration_sum(self.trigger, self.autoflow);
        let b = duration_sum(a, self.attention);
        let c = duration_sum(b, self.assembly);
        duration_sum(c, self.anchor)
    }

    /// The length of each stage in nanoseconds, in stage order; each fits
    /// in a `Duration`.
    pub fn lengths(&self) -> (n: (u128, u128, u128, u128, u128))
        ensures
            n.0 == self@.trigger,
            n.1 == self@.autoflow,
            n.2 == self@.attention,
            n.3 == self@.assembly,
            n.4 == self@.anchor,
            self@.fits(),
    {
        (
            duration_length(&self.trigger),
            duration_length(&self.autoflow),
            duration_length(&self.attention),
            duration_length(&self.assembly),
            duration_length(&self.anchor),
        )
    }

    /// Create a new `StageDurations` with all stages set to zero
    pub fn zero() -> (z: Self)
        ensures
            z@.is_zero(),
    {
        StageDurations {
            trigger: duration_zero(),
            autoflow: duration_zero(),
            attention: duration_zero(),
            assembly: duration_zero(),
            anchor: duration_zero(),
        }
    }

    /// Add another `StageDurations` to this one, stage by stage (for
    /// accumulation). Each stage-wise sum must fit in a `Duration`.
    pub fn add(&self, other: &Self) -> (r: Self)
        requires
            self@.can_add(other@),
        ensures
            r@ == self@.plus(other@),
    {
        StageDurations {
            trigger: duration_sum(self.trigger, other.trigger),
            autoflow: duration_sum(self.autoflow, other.autoflow),
            attention: duration_sum(self.attention, other.attention),
            assembly: duration_sum(self.assembly, other.assembly),
            anchor: duration_sum(self.anchor, other.anchor),
        }
    }

    /// Divide all durations by a factor (for averaging): each stage is
    /// divided by the whole divisor, rounded down to whole nanoseconds. A
    /// zero divisor gives all-zero durations.
    pub fn div(&self, divisor: u64) -> (r: Self)
        ensures
            divisor == 0 ==> r@.is_zero(),
            divisor != 0 ==> r@ == self@.divided_by(divisor as nat),
    {
        if divisor == 0 {
            return Self::zero();
        }
        StageDurations {
            trigger: duration_div(self.trigger, divisor),
            autoflow: duration_div(self.autoflow, divisor),
            attention: duration_div(self.attention, divisor),
            assembly: duration_div(self.assembly, divisor),
            anchor: duration_div(self.anchor, divisor),
        }
    }
}

impl Clone for StageDurations {
    /// Copy of every stage's duration
    fn clone(&self) -> (r: Self)
        ensures
            r@ == self@,
    {
        StageDurations {
            trigger: self.trigger,
            autoflow: self.autoflow,
            attention: self.attention,
            assembly: self.assembly,
            anchor: self.anchor,
        }
    }
}

impl Default for StageDurations {
    /// All stages zero
    fn default() -> (z: Self)
        ensures
            z@.is_zero(),
    {
        Self::zero()
    }
}


// ---------------------------------------------------------------------------
// Laws of stage durations
// ---------------------------------------------------------------------------

/// Adding stage durations is commutative.
pub proof fn lemma_add_commutative(a: StageDurations, b: StageDurations)
    ensures
        a@.plus(b@) == b@.plus(a@),
        a@.can_add(b@) == b@.can_add(a@),
{
}

/// Adding zero durations, on either side, is allowed and changes nothing.
/// (Every stage of every `StageDurations` fits; `StageDurations::lengths`
/// shows it of a given one.)
pub proof fn lemma_add_zero(a: StageDurations, z: StageDurations)
    requires
        z@.is_zero(),
        a@.fits(),
    ensures
        a@.can_add(z@),
        z@.can_add(a@),
        a@.plus(z@) == a@,
        z@.plus(a@) == a@,
{
}

/// The total of a sum is the sum of the totals.
pub proof fn lemma_total_of_sum(a: StageDurations, b: StageDurations)
    ensures
        a@.plus(b@).total() == a@.total() + b@.total(),
{
}

/// Halving doubled durations gives back the durations.
pub proof fn lemma_halve_doubled(a: StageDurations)
    ensures
        a@.plus(a@).divided_by(2) == a@,
{
}

/// Dividing zero durations gives zero durations.
pub proof fn lemma_divide_zero(z: StageDurations, d: nat)
    requires
        z@.is_zero(),
        d > 0,
    ensures
        z@.divided_by(d).is_zero(),
{
}

// ---------------------------------------------------------------------------
// Run state and metrics of the loop
// ---------------------------------------------------------------------------

/// Run state and accumulated metrics of the cognitive loop.
///
/// A cycle opens with `begin_cycle` (which numbers it) and closes with
/// `complete_cycle` (which records its outcome); a cycle that is cut short
/// (a vetoed thought) is counted but not completed.
pub struct LoopTracker {
    state: LoopState,
    cycle_count: u64,
    thoughts_produced: u64,
    cycles_on_time: u64,
    total_duration: Duration,
    total_stage_durations: StageDurations,
    cycle_open: bool,
}

/// Produced thoughts and on-time cycles never exceed the cycles begun.
pub proof fn lemma_counts_within_cycles(t: LoopTracker)
    requires
        t.well_formed(),
    ensures
        t.spec_thoughts_produced() <= t.spec_cycle_count(),
        t.spec_cycles_on_time() <= t.spec_cycle_count(),
{
}

impl LoopTracker {
    /// Counters never exceed the number of cycles begun: at most one
    /// completion per begun cycle, and a cycle still open has not yet been
    /// completed.
    pub open spec fn well_formed(&self) -> bool {
        &&& self.spec_thoughts_produced() + (if self.spec_cycle_open() { 1int } else { 0int })
            <= self.spec_cycle_count()
        &&& self.spec_cycles_on_time() + (if self.spec_cycle_open() { 1int } else { 0int })
            <= self.spec_cycle_count()
    }

    pub closed spec fn spec_state(&self) -> LoopState {
        self.state
    }

    pub closed spec fn spec_cycle_count(&self) -> u64 {
        self.cycle_count
    }

    pub closed spec fn spec_thoughts_produced(&self) -> u64 {
        self.thoughts_produced
    }

    pub closed spec fn spec_cycles_on_time(&self) -> u64 {
        self.cycles_on_time
    }

    pub closed spec fn spec_total_nanos(&self) -> nat {
        duration_nanos(self.total_duration)
    }

    pub closed spec fn spec_stage_totals(&self) -> StageNanos {
        self.total_stage_durations@
    }

    pub closed spec fn spec_cycle_open(&self) -> bool {
        self.cycle_open
    }

    /// All metrics are zero and no cycle is open.
    pub open spec fn metrics_cleared(&self) -> bool {
        &&& self.spec_cycle_count() == 0
        &&& self.spec_thoughts_produced() == 0
        &&& self.spec_cycles_on_time() == 0
        &&& self.spec_total_nanos() == 0
        &&& self.spec_stage_totals().is_zero()
        &&& !self.spec_cycle_open()
    }

    /// A stopped loop with cleared metrics
    pub fn new() -> (t: Self)
        ensures
            t.well_formed(),
            t.spec_state() == LoopState::Stopped,
            t.metrics_cleared(),
    {
        LoopTracker {
            state: LoopState::Stopped,
            cycle_count: 0,
            thoughts_produced: 0,
            cycles_on_time: 0,
            total_duration: duration_zero(),
            total_stage_durations: StageDurations::zero(),
            cycle_open: false,
        }
    }

    /// Get the current state
    pub fn state(&self) -> (s: LoopState)
        ensures
            s == self.spec_state(),
    {
        self.state
    }

    /// Get the cycle count
    pub fn cycle_count(&self) -> (n: u64)
        ensures
            n == self.spec_cycle_count(),
    {
        self.cycle_count
    }

    /// Thoughts produced so far
    pub fn thoughts_produced(&self) -> (n: u64)
        ensures
            n == self.spec_thoughts_produced(),
    {
        self.thoughts_produced
    }

    /// Cycles that completed within their target time
    pub fn cycles_on_time(&self) -> (n: u64)
        ensures
            n == self.spec_cycles_on_time(),
    {
        self.cycles_on_time
    }

    /// Total time of the completed cycles
    pub fn total_duration(&self) -> (d: Duration)
        ensures
            duration_nanos(d) == self.spec_total_nanos(),
    {
        self.total_duration
    }

    /// Time spent in each stage, summed over the completed cycles
    pub fn total_stage_durations(&self) -> (r: StageDurations)
        ensures
            r@ == self.spec_stage_totals(),
    {
        self.total_stage_durations.clone()
    }

    /// Check if the loop is running
    pub fn is_running(&self) -> (r: bool)
        ensures
            r == (self.spec_state() == LoopState::Running),
    {
        match self.state {
            LoopState::Running => true,
            _ => false,
        }
    }

    /// Start the loop: from any state to Running.
    pub fn start(&mut self)
        requires
            old(self).well_formed(),
        ensures
            final(self).well_formed(),
            final(self).spec_state() == LoopState::Running,
            final(self).same_metrics(*old(self)),
    {
        self.state = LoopState::Running;
    }

    /// Pause the loop: only a running loop becomes Paused.
    pub fn pause(&mut self)
        requires
            old(self).well_formed(),
        ensures
            final(self).well_formed(),
            final(self).spec_state() == (if old(self).spec_state() == LoopState::Running {
                LoopState::Paused
            } else {
                old(self).spec_state()
            }),
            final(self).same_metrics(*old(self)),
    {
        if self.state == LoopState::Running {
            self.state = LoopState::Paused;
        }
    }

    /// Stop the loop: from any state to Stopped.
    pub fn stop(&mut self)
        requires
            old(self).well_formed(),
        ensures
            final(self).well_formed(),
            final(self).spec_state() == LoopState::Stopped,
            final(self).same_metrics(*old(self)),
    {
        self.state = LoopState::Stopped;
    }

    /// The metrics of two trackers agree.
    pub open spec fn same_metrics(&self, other: LoopTracker) -> bool {
        &&& self.spec_cycle_count() == other.spec_cycle_count()
        &&& self.spec_thoughts_produced() == other.spec_thoughts_produced()
        &&& self.spec_cycles_on_time() == other.spec_cycles_on_time()
        &&& self.spec_total_nanos() == other.spec_total_nanos()
        &&& self.spec_stage_totals() == other.spec_stage_totals()
        &&& self.spec_cycle_open() == other.spec_cycle_open()
    }

    /// Open a cycle: returns its number (the count of cycles begun before
    /// it) and counts it.
    pub fn begin_cycle(&mut self) -> (n: u64)
        requires
            old(self).well_formed(),
            old(self).spec_cycle_count() < u64::MAX,
        ensures
            final(self).well_formed(),
            n == old(self).spec_cycle_count(),
            final(self).spec_cycle_count() == old(self).spec_cycle_count() + 1,
            final(self).spec_cycle_open(),
            final(self).spec_state() == old(self).spec_state(),
            final(self).spec_thoughts_produced() == old(self).spec_thoughts_produced(),
            final(self).spec_cycles_on_time() == old(self).spec_cycles_on_time(),
            final(self).spec_total_nanos() == old(self).spec_total_nanos(),
            final(self).spec_stage_totals() == old(self).spec_stage_totals(),
    {
        let n = self.cycle_count;
        self.cycle_count = self.cycle_count + 1;
        self.cycle_open = true;
        n
    }

    /// The totals stay within the longest `Duration` once a cycle of this
    /// length and these stage lengths is added.
    pub open spec fn can_complete_spec(&self, duration: Duration, stages: StageNanos) -> bool {
        &&& self.spec_total_nanos() + duration_nanos(duration) <= max_duration_nanos()
        &&& self.spec_stage_totals().can_add(stages)
    }

    /// Whether a cycle of this length and these stage lengths can be
    /// recorded: the totals stay within the longest `Duration`.
    pub fn can_complete(&self, duration: &Duration, stage_durations: &StageDurations) -> (r: bool)
        ensures
            r == self.can_complete_spec(*duration, stage_durations@),
    {
        let max: u128 = 18_446_744_073_709_551_615u128 * 1_000_000_000u128 + 999_999_999u128;
        let total = duration_length(&self.total_duration);
        let d = duration_length(duration);
        let t = self.total_stage_durations.lengths();
        let s = stage_durations.lengths();
        total + d <= max && t.0 + s.0 <= max && t.1 + s.1 <= max && t.2 + s.2 <= max && t.3 + s.3
            <= max && t.4 + s.4 <= max
    }

    /// Close the open cycle and record its outcome: whether it produced a
    /// thought, how long it took and how long each stage took. Returns
    /// whether it was on time (took no longer than `target`).
    pub fn complete_cycle(
        &mut self,
        produced_thought: bool,
        duration: Duration,
        target: Duration,
        stage_durations: &StageDurations,
    ) -> (on_time: bool)
        requires
            old(self).well_formed(),
            old(self).spec_cycle_open(),
            old(self).spec_total_nanos() + duration_nanos(duration) <= max_duration_nanos(),
            old(self).spec_stage_totals().can_add(stage_durations@),
        ensures
            final(self).well_formed(),
            on_time == (duration_nanos(duration) <= duration_nanos(target)),
            !final(self).spec_cycle_open(),
            final(self).spec_state() == old(self).spec_state(),
            final(self).spec_cycle_count() == old(self).spec_cycle_count(),
            final(self).spec_thoughts_produced() == old(self).spec_thoughts_produced() + (
            if produced_thought {
                1int
            } else {
                0int
            }),
            final(self).spec_cycles_on_time() == old(self).spec_cycles_on_time() + (if on_time {
                1int
            } else {
                0int
            }),
            final(self).spec_total_nanos() == old(self).spec_total_nanos() + duration_nanos(
                duration,
            ),
            final(self).spec_stage_totals() == old(self).spec_stage_totals().plus(
                stage_durations@,
            ),
    {
        if produced_thought {
            self.thoughts_produced = self.thoughts_produced + 1;
        }
        self.total_duration = duration_sum(self.total_duration, duration);
        self.total_stage_durations = self.total_stage_durations.add(stage_durations);
        let on_time = duration_le(&duration, &target);
        if on_time {
            self.cycles_on_time = self.cycles_on_time + 1;
        }
        self.cycle_open = false;
        on_time
    }

    /// Close the open cycle as `complete_cycle` does when its totals fit
    /// (`Some` with whether it was on time); when they would pass the
    /// longest `Duration`, record nothing and give `None`.
    pub fn try_complete_cycle(
        &mut self,
        produced_thought: bool,
        duration: Duration,
        target: Duration,
        stage_durations: &StageDurations,
    ) -> (r: Option<bool>)
        requires
            old(self).well_formed(),
            old(self).spec_cycle_open(),
        ensures
            final(self).well_formed(),
            r is Some <==> old(self).can_complete_spec(duration, stage_durations@),
            r is None ==> *final(self) == *old(self),
            r is Some ==> {
                &&& r->Some_0 == (duration_nanos(duration) <= duration_nanos(target))
                &&& !final(self).spec_cycle_open()
                &&& final(self).spec_state() == old(self).spec_state()
                &&& final(self).spec_cycle_count() == old(self).spec_cycle_count()
                &&& final(self).spec_thoughts_produced() == old(self).spec_thoughts_produced() + (
                if produced_thought {
                    1int
                } else {
                    0int
                })
                &&& final(self).spec_cycles_on_time() == old(self).spec_cycles_on_time() + (
                if r->Some_0 {
                    1int
                } else {
                    0int
                })
                &&& final(self).spec_total_nanos() == old(self).spec_total_nanos()
                    + duration_nanos(duration)
                &&& final(self).spec_stage_totals() == old(self).spec_stage_totals().plus(
                    stage_durations@,
                )
            },
    {
        if self.can_complete(&duration, stage_durations) {
            Some(self.complete_cycle(produced_thought, duration, target, stage_durations))
        } else {
            None
        }
    }

    /// Reset all metrics; the run state is kept.
    pub fn reset_metrics(&mut self)
        requires
            old(self).well_formed(),
        ensures
            final(self).well_formed(),
            final(self).metrics_cleared(),
            final(self).spec_state() == old(self).spec_state(),
    {
        self.cycle_count = 0;
        self.total_duration = duration_zero();
        self.thoughts_produced = 0;
        self.cycles_on_time = 0;
        self.total_stage_durations = StageDurations::zero();
        self.cycle_open = false;
    }

    /// Average time per cycle: the total time divided by the cycle count,
    /// rounded down to whole nanoseconds, or zero before any cycle.
    pub fn average_cycle_time(&self) -> (d: Duration)
        ensures
            self.spec_cycle_count() == 0 ==> duration_nanos(d) == 0,
            self.spec_cycle_count() > 0 ==> duration_nanos(d) == self.spec_total_nanos()
                / (self.spec_cycle_count() as nat),
    {
        if self.cycle_count > 0 {
            duration_div(self.total_duration, self.cycle_count)
        } else {
            duration_zero()
        }
    }

    /// Average time per stage: the stage totals divided by the cycle count
    /// as `StageDurations::div` does.
    pub fn average_stage_durations(&self) -> (r: StageDurations)
        ensures
            self.spec_cycle_count() == 0 ==> r@.is_zero(),
            self.spec_cycle_count() > 0 ==> r@ == self.spec_stage_totals().divided_by(
                self.spec_cycle_count() as nat,
            ),
    {
        self.total_stage_durations.div(self.cycle_count)
    }
}

// ---------------------------------------------------------------------------
// Pacing
// ---------------------------------------------------------------------------

/// A cycle is due once the time since the last one reaches the target
/// cycle time.
pub open spec fn cycle_due(elapsed: nat, target: nat) -> bool {
    target <= elapsed
}

/// What is left of the target cycle time, or nothing once it has passed.
pub open spec fn remaining_nanos(elapsed: nat, target: nat) -> nat {
    if elapsed <= target {
        (target - elapsed) as nat
    } else {
        0
    }
}

/// Whether a cycle should run, given the time since the last cycle and the
/// target cycle time
pub fn should_cycle(since_last: Duration, target: Duration) -> (r: bool)
    ensures
        r == cycle_due(duration_nanos(since_last), duration_nanos(target)),
{
    duration_le(&target, &since_last)
}

/// How long to sleep before the next cycle: the rest of the target cycle
/// time, or zero when already behind schedule
pub fn time_until_next_cycle(since_last: Duration, target: Duration) -> (r: Duration)
    ensures
        duration_nanos(r) == remaining_nanos(duration_nanos(since_last), duration_nanos(target)),
{
    duration_saturating_sub(target, since_last)
}

/// A cycle is due exactly when no time is left to wait for it.
pub proof fn lemma_due_when_nothing_remains(elapsed: nat, target: nat)
    ensures
        cycle_due(elapsed, target) <==> remaining_nanos(elapsed, target) == 0,
{
}

// ---------------------------------------------------------------------------
// Cadence of the running loop
// ---------------------------------------------------------------------------

/// Thoughts between flushes of the identity record
pub const IDENTITY_FLUSH_THOUGHT_INTERVAL: u64 = 100;

/// Seconds between flushes of the identity record
pub const IDENTITY_FLUSH_INTERVAL_SECS: u64 = 30;

/// Cycles between memory consolidations (mini-dreams)
pub const CONSOLIDATION_INTERVAL_CYCLES: u64 = 500;

/// Cycles between status reports
pub const STATUS_LOG_INTERVAL: u64 = 1000;

/// Counters that pace the periodic work of the running loop
#[derive(Debug, Clone, Copy, PartialEq, Eq, Structural)]
pub struct LoopPacing {
    /// Thoughts since the identity record was last flushed
    pub thoughts_since_flush: u64,
    /// Cycles since the last memory consolidation
    pub cycles_since_consolidation: u64,
    /// Cycles run this session
    pub cycles: u64,
}

/// What to do after a cycle
#[derive(Debug, Clone, Copy, PartialEq, Eq, Structural)]
pub struct PacingActions {
    /// Save the identity record (and restart the flush clock)
    pub flush_identity: bool,
    /// Run a memory consolidation
    pub consolidate: bool,
    /// Report status
    pub log_status: bool,
}

impl LoopPacing {
    /// Nothing counted yet
    pub fn new() -> (p: Self)
        ensures
            p.thoughts_since_flush == 0,
            p.cycles_since_consolidation == 0,
            p.cycles == 0,
    {
        LoopPacing { thoughts_since_flush: 0, cycles_since_consolidation: 0, cycles: 0 }
    }
}

/// Count a finished cycle and decide the periodic work. With an identity
/// record, the cycle's thought is counted and the record is flushed every
/// 100 thoughts or once 30 seconds have passed since the last flush; memory
/// is consolidated every 500 cycles; status is reported every 1000 cycles.
pub fn after_cycle(p: &mut LoopPacing, has_identity: bool, secs_since_flush: u64) -> (a:
    PacingActions)
    requires
        has_identity ==> old(p).thoughts_since_flush < u64::MAX,
        old(p).cycles_since_consolidation < u64::MAX,
        old(p).cycles < u64::MAX,
    ensures
        final(p).cycles == old(p).cycles + 1,
        a.flush_identity == (has_identity && (old(p).thoughts_since_flush + 1
            >= IDENTITY_FLUSH_THOUGHT_INTERVAL || secs_since_flush >= IDENTITY_FLUSH_INTERVAL_SECS)),
        final(p).thoughts_since_flush == (if !has_identity {
            old(p).thoughts_since_flush as int
        } else if a.flush_identity {
            0
        } else {
            old(p).thoughts_since_flush + 1
        }),
        a.consolidate == (old(p).cycles_since_consolidation + 1 >= CONSOLIDATION_INTERVAL_CYCLES),
        final(p).cycles_since_consolidation == (if a.consolidate {
            0
        } else {
            old(p).cycles_since_consolidation + 1
        }),
        a.log_status == ((old(p).cycles + 1) % (STATUS_LOG_INTERVAL as int) == 0),
{
    p.cycles = p.cycles + 1;
    let mut flush_identity = false;
    if has_identity {
        p.thoughts_since_flush = p.thoughts_since_flush + 1;
        if p.thoughts_since_flush >= IDENTITY_FLUSH_THOUGHT_INTERVAL || secs_since_flush
            >= IDENTITY_FLUSH_INTERVAL_SECS {
            flush_identity = true;
            p.thoughts_since_flush = 0;
        }
    }
    p.cycles_since_consolidation = p.cycles_since_consolidation + 1;
    let consolidate = p.cycles_since_consolidation >= CONSOLIDATION_INTERVAL_CYCLES;
    if consolidate {
        p.cycles_since_consolidation = 0;
    }
    let log_status = p.cycles % STATUS_LOG_INTERVAL == 0;
    PacingActions { flush_identity, consolidate, log_status }
}

/// Dream cycles counted after a consolidation that strengthened
/// `consolidated` memories: a consolidation counts as a dream cycle only when
/// it strengthened at least one memory.
pub fn dream_cycles_after(total: u64, consolidated: u32) -> (r: u64)
    requires
        consolidated > 0 ==> total < u64::MAX,
    ensures
        r == (if consolidated > 0 { total + 1 } else { total as int }),
{
    if consolidated > 0 {
        total + 1
    } else {
        total
    }
}

/// Consolidation comes once every 500 cycles: when the consolidation counter
/// holds the number `n` of cycles run so far modulo 500, `after_cycle` asks
/// for a consolidation on cycle `n + 1` exactly when `n + 1` is a multiple of
/// 500, and leaves the counter at `(n + 1)` modulo 500.
pub proof fn lemma_consolidation_period(since: u64, n: nat)
    requires
        since == n % (CONSOLIDATION_INTERVAL_CYCLES as nat),
    ensures
        (since + 1 >= CONSOLIDATION_INTERVAL_CYCLES) <==> ((n + 1) % (
        CONSOLIDATION_INTERVAL_CYCLES as nat) == 0),
        (if since + 1 >= CONSOLIDATION_INTERVAL_CYCLES {
            0
        } else {
            since + 1
        }) == (n + 1) % (CONSOLIDATION_INTERVAL_CYCLES as nat),
{
    assert(((n + 1) % 500nat) == (if n % 500nat + 1 == 500 { 0 } else { n % 500nat + 1 }))
        by (nonlinear_arith);
}

/// The identity record is flushed every 100 thoughts: when the thought
/// counter holds the number `n` of thoughts since some flush modulo 100,
/// the thought count alone asks for a flush on thought `n + 1` exactly when
/// `n + 1` is a multiple of 100, and leaves the counter at `(n + 1)` modulo
/// 100.
pub proof fn lemma_flush_period(since: u64, n: nat)
    requires
        since == n % (IDENTITY_FLUSH_THOUGHT_INTERVAL as nat),
    ensures
        (since + 1 >= IDENTITY_FLUSH_THOUGHT_INTERVAL) <==> ((n + 1) % (
        IDENTITY_FLUSH_THOUGHT_INTERVAL as nat) == 0),
        (if since + 1 >= IDENTITY_FLUSH_THOUGHT_INTERVAL {
            0
        } else {
            since + 1
        }) == (n + 1) % (IDENTITY_FLUSH_THOUGHT_INTERVAL as nat),
{
    assert(((n + 1) % 100nat) == (if n % 100nat + 1 == 100 { 0 } else { n % 100nat + 1 }))
        by (nonlinear_arith);
}

} // verus!
