//! Sleep actor types (sleep/dream consolidation mode).
//!
//! Human memory consolidation occurs during sleep through sharp-wave ripple
//! replay and synaptic homeostasis; DANEEL implements this via periodic
//! consolidation cycles.
use vstd::prelude::*;

verus! {

/// Sleep state machine
#[derive(Debug, Clone, Copy, PartialEq, Eq, Structural)]
pub enum SleepState {
    /// Normal operation, processing external stimuli
    Awake,
    /// Transitioning to sleep (interruptible)
    EnteringSleep,
    /// Light sleep (interruptible)
    LightSleep,
    /// Deep sleep - core consolidation (protected)
    DeepSleep,
    /// Dreaming - association strengthening (protected)
    Dreaming,
    /// Waking up
    Waking,
}

/// The display name of a sleep state.
pub open spec fn sleep_state_name(s: SleepState) -> Seq<char> {
    match s {
        SleepState::Awake => "awake"@,
        SleepState::EnteringSleep => "entering_sleep"@,
        SleepState::LightSleep => "light_sleep"@,
        SleepState::DeepSleep => "deep_sleep"@,
        SleepState::Dreaming => "dreaming"@,
        SleepState::Waking => "waking"@,
    }
}

impl SleepState {
    /// The display name of this state (snake case)
    pub fn to_string(&self) -> (s: String)
        ensures
            s@ == sleep_state_name(*self),
    {
        match self {
            SleepState::Awake => String::from_str("awake"),
            SleepState::EnteringSleep => String::from_str("entering_sleep"),
            SleepState::LightSleep => String::from_str("light_sleep"),
            SleepState::DeepSleep => String::from_str("deep_sleep"),
            SleepState::Dreaming => String::from_str("dreaming"),
            SleepState::Waking => String::from_str("waking"),
        }
    }
}

impl Default for SleepState {
    /// Awake
    fn default() -> (s: Self)
        ensures
            s == SleepState::Awake,
    {
        SleepState::Awake
    }
}

/// Sleep cycle status
#[derive(Debug, Clone, Copy, PartialEq, Eq, Structural)]
pub enum SleepCycleStatus {
    InProgress,
    Completed,
    Interrupted,
}

/// Sleep operation result
#[derive(Debug)]
pub enum SleepResult {
    /// Sleep started successfully
    Started,
    /// Already sleeping
    AlreadySleeping,
    /// Conditions not met for sleep
    ConditionsNotMet { reason: String },
    /// Error occurred
    Error { message: String },
}

impl Clone for SleepResult {
    /// Copy of the result, text included
    fn clone(&self) -> (r: Self)
        ensures
            r == *self,
    {
        match self {
            SleepResult::Started => SleepResult::Started,
            SleepResult::AlreadySleeping => SleepResult::AlreadySleeping,
            SleepResult::ConditionsNotMet { reason } => SleepResult::ConditionsNotMet {
                reason: reason.clone(),
            },
            SleepResult::Error { message } => SleepResult::Error { message: message.clone() },
        }
    }
}

/// Sleep actor errors
#[derive(Debug)]
pub enum SleepError {
    MemoryDb(String),
    Stream(String),
    Interrupted,
    Config(String),
}

/// The message of a sleep error.
pub open spec fn sleep_error_message(e: SleepError) -> Seq<char> {
    match e {
        SleepError::MemoryDb(m) => "Memory database error: "@ + m@,
        SleepError::Stream(m) => "Stream error: "@ + m@,
        SleepError::Interrupted => "Interrupted by external stimulus"@,
        SleepError::Config(m) => "Configuration error: "@ + m@,
    }
}

impl SleepError {
    /// The error message (what `Display` shows)
    pub fn to_string(&self) -> (s: String)
        ensures
            s@ == sleep_error_message(*self),
    {
        match self {
            SleepError::MemoryDb(m) => String::from_str("Memory database error: ").concat(
                m.as_str(),
            ),
            SleepError::Stream(m) => String::from_str("Stream error: ").concat(m.as_str()),
            SleepError::Interrupted => String::from_str("Interrupted by external stimulus"),
            SleepError::Config(m) => String::from_str("Configuration error: ").concat(m.as_str()),
        }
    }
}

impl Clone for SleepError {
    /// Copy of the error, text included
    fn clone(&self) -> (r: Self)
        ensures
            r == *self,
    {
        match self {
            SleepError::MemoryDb(m) => SleepError::MemoryDb(m.clone()),
            SleepError::Stream(m) => SleepError::Stream(m.clone()),
            SleepError::Interrupted => SleepError::Interrupted,
            SleepError::Config(m) => SleepError::Config(m.clone()),
        }
    }
}

// ---------------------------------------------------------------------------
// Sleep summary totals
// ---------------------------------------------------------------------------

/// The counts one sleep cycle report contributes to a summary.
#[derive(Debug, Clone, Copy, PartialEq, Eq, Structural)]
pub struct CycleCounts {
    pub duration_ms: u64,
    pub memories_replayed: usize,
    pub memories_consolidated: usize,
    pub associations_strengthened: usize,
    pub associations_pruned: usize,
}

/// The totals of a sleep summary over the cycles added so far.
#[derive(Debug, Clone, Copy, PartialEq, Eq, Structural)]
pub struct SleepTotals {
    pub total_duration_ms: u64,
    pub cycles_completed: u32,
    pub total_memories_replayed: usize,
    pub total_memories_consolidated: usize,
    pub total_associations_strengthened: usize,
    pub total_associations_pruned: usize,
}

/// Mathematical model of `SleepTotals`.
pub struct TotalsView {
    pub duration_ms: nat,
    pub cycles: nat,
    pub replayed: nat,
    pub consolidated: nat,
    pub strengthened: nat,
    pub pruned: nat,
}

impl View for SleepTotals {
    type V = TotalsView;

    open spec fn view(&self) -> TotalsView {
        TotalsView {
            duration_ms: self.total_duration_ms as nat,
            cycles: self.cycles_completed as nat,
            replayed: self.total_memories_replayed as nat,
            consolidated: self.total_memories_consolidated as nat,
            strengthened: self.total_associations_strengthened as nat,
            pruned: self.total_associations_pruned as nat,
        }
    }
}

impl TotalsView {
    /// The totals after one more cycle with counts `c`.
    pub open spec fn with_cycle(self, c: CycleCounts) -> TotalsView {
        TotalsView {
            duration_ms: self.duration_ms + c.duration_ms as nat,
            cycles: self.cycles + 1,
            replayed: self.replayed + c.memories_replayed as nat,
            consolidated: self.consolidated + c.memories_consolidated as nat,
            strengthened: self.strengthened + c.associations_strengthened as nat,
            pruned: self.pruned + c.associations_pruned as nat,
        }
    }

    /// Every total fits its field.
    pub open spec fn fits(self) -> bool {
        &&& self.duration_ms <= u64::MAX
        &&& self.cycles <= u32::MAX
        &&& self.replayed <= usize::MAX
        &&& self.consolidated <= usize::MAX
        &&& self.strengthened <= usize::MAX
        &&& self.pruned <= usize::MAX
    }
}

/// The totals over a sequence of cycles, starting from `t`.
pub open spec fn with_cycles(t: TotalsView, cs: Seq<CycleCounts>) -> TotalsView
    decreases cs.len(),
{
    if cs.len() == 0 {
        t
    } else {
        with_cycles(t, cs.drop_last()).with_cycle(cs.last())
    }
}

impl SleepTotals {
    /// No cycle yet
    pub fn new() -> (t: Self)
        ensures
            t@ == (TotalsView {
                duration_ms: 0,
                cycles: 0,
                replayed: 0,
                consolidated: 0,
                strengthened: 0,
                pruned: 0,
            }),
    {
        SleepTotals {
            total_duration_ms: 0,
            cycles_completed: 0,
            total_memories_replayed: 0,
            total_memories_consolidated: 0,
            total_associations_strengthened: 0,
            total_associations_pruned: 0,
        }
    }

    /// Add one cycle's counts to the totals
    pub fn add_cycle(&mut self, c: &CycleCounts)
        requires
            old(self)@.with_cycle(*c).fits(),
        ensures
            final(self)@ == old(self)@.with_cycle(*c),
            final(self).total_duration_ms == old(self).total_duration_ms + c.duration_ms,
            final(self).cycles_completed == old(self).cycles_completed + 1,
            final(self).total_memories_replayed == old(self).total_memories_replayed
                + c.memories_replayed,
            final(self).total_memories_consolidated == old(self).total_memories_consolidated
                + c.memories_consolidated,
            final(self).total_associations_strengthened
                == old(self).total_associations_strengthened + c.associations_strengthened,
            final(self).total_associations_pruned == old(self).total_associations_pruned
                + c.associations_pruned,
    {
        self.total_duration_ms = self.total_duration_ms + c.duration_ms;
        self.cycles_completed = self.cycles_completed + 1;
        self.total_memories_replayed = self.total_memories_replayed + c.memories_replayed;
        self.total_memories_consolidated = self.total_memories_consolidated
            + c.memories_consolidated;
        self.total_associations_strengthened = self.total_associations_strengthened
            + c.associations_strengthened;
        self.total_associations_pruned = self.total_associations_pruned + c.associations_pruned;
    }
}

/// Adding a cycle grows each total by that cycle's own count (its length,
/// its replayed, consolidated, strengthened and pruned counts) and the
/// cycle count by one.
pub proof fn lemma_cycle_adds_its_counts(t: TotalsView, c: CycleCounts)
    ensures
        t.with_cycle(c).duration_ms == t.duration_ms + c.duration_ms,
        t.with_cycle(c).cycles == t.cycles + 1,
        t.with_cycle(c).replayed == t.replayed + c.memories_replayed,
        t.with_cycle(c).consolidated == t.consolidated + c.memories_consolidated,
        t.with_cycle(c).strengthened == t.strengthened + c.associations_strengthened,
        t.with_cycle(c).pruned == t.pruned + c.associations_pruned,
{
}

/// Totals over a run of cycles are the starting totals plus the sum of each
/// count over the run: adding one more cycle to a run adds its counts.
pub proof fn lemma_run_adds_counts(t: TotalsView, cs: Seq<CycleCounts>, c: CycleCounts)
    ensures
        with_cycles(t, cs.push(c)).pruned == with_cycles(t, cs).pruned + c.associations_pruned,
        with_cycles(t, cs.push(c)).strengthened == with_cycles(t, cs).strengthened
            + c.associations_strengthened,
        with_cycles(t, cs.push(c)).consolidated == with_cycles(t, cs).consolidated
            + c.memories_consolidated,
        with_cycles(t, cs.push(c)).replayed == with_cycles(t, cs).replayed + c.memories_replayed,
        with_cycles(t, cs.push(c)).duration_ms == with_cycles(t, cs).duration_ms + c.duration_ms,
        with_cycles(t, cs.push(c)).cycles == with_cycles(t, cs).cycles + 1,
{
    assert(cs.push(c).drop_last() =~= cs);
}

/// The totals do not depend on the order in which two cycles are added.
pub proof fn lemma_cycle_order_irrelevant(t: TotalsView, a: CycleCounts, b: CycleCounts)
    ensures
        t.with_cycle(a).with_cycle(b) == t.with_cycle(b).with_cycle(a),
{
}

/// After a run of cycles, the cycle count has grown by the number of cycles
/// and every total by the sum of that count over the cycles.
pub proof fn lemma_totals_count_cycles(t: TotalsView, cs: Seq<CycleCounts>)
    ensures
        with_cycles(t, cs).cycles == t.cycles + cs.len(),
        with_cycles(t, cs).replayed >= t.replayed,
        with_cycles(t, cs).duration_ms >= t.duration_ms,
    decreases cs.len(),
{
    if cs.len() > 0 {
        lemma_totals_count_cycles(t, cs.drop_last());
    }
}

} // verus!
