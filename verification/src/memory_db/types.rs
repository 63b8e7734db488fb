//! Memory database types: memory and episode IDs, association and boundary
//! kinds, episodes, sleep cycles, the unconscious archive, the identity
//! record, and well-known constants.
use vstd::prelude::*;
use crate::cognition::types::{is_v4_layout, random_uuid_value, uuid_hyphenated, uuid_to_text};
use crate::timestamp::{Timestamp, utc_now, millis_between, chrono_millis_between, plain_moment, nanos_between, millis_toward_zero};

verus! {

/// Vector dimension for context embeddings (768-dim)
pub const VECTOR_DIMENSION: usize = 768;

/// Well-known ID of the singleton identity record
pub const IDENTITY_RECORD_ID: &'static str = "00000000-0000-0000-0000-000000000001";

/// Unique identifier for a memory (the 128-bit value of a UUID)
#[derive(Debug, Clone, Copy, PartialEq, Eq, Hash, Structural)]
pub struct MemoryId(pub u128);

impl MemoryId {
    /// A new random memory ID
    pub fn new() -> (id: Self)
        ensures
            is_v4_layout(id.0),
    {
        MemoryId(random_uuid_value())
    }

    /// The hyphenated textual form of this ID (what `Display` shows)
    pub fn to_string(&self) -> (s: String)
        ensures
            s@ == uuid_hyphenated(self.0),
    {
        uuid_to_text(self.0)
    }
}

impl Default for MemoryId {
    /// A new random memory ID
    fn default() -> (id: Self)
        ensures
            is_v4_layout(id.0),
    {
        MemoryId::new()
    }
}

/// Types of memory associations
#[derive(Debug, Clone, Copy, PartialEq, Eq, Structural)]
pub enum AssociationType {
    /// Similar semantic content
    Semantic,
    /// Occurred close in time
    Temporal,
    /// One caused/led to the other
    Causal,
    /// Similar emotional profile
    Emotional,
    /// Same context/location
    Spatial,
    /// Related to same goal
    Goal,
}

/// The name of an association type, as `Debug` writes it.
pub open spec fn association_type_name(t: AssociationType) -> Seq<char> {
    match t {
        AssociationType::Semantic => "Semantic"@,
        AssociationType::Temporal => "Temporal"@,
        AssociationType::Causal => "Causal"@,
        AssociationType::Emotional => "Emotional"@,
        AssociationType::Spatial => "Spatial"@,
        AssociationType::Goal => "Goal"@,
    }
}

impl AssociationType {
    /// The variant's name (what `Debug` shows)
    pub fn name(&self) -> (s: &'static str)
        ensures
            s@ == association_type_name(*self),
    {
        match self {
            AssociationType::Semantic => "Semantic",
            AssociationType::Temporal => "Temporal",
            AssociationType::Causal => "Causal",
            AssociationType::Emotional => "Emotional",
            AssociationType::Spatial => "Spatial",
            AssociationType::Goal => "Goal",
        }
    }
}

/// Event boundary type (Door Syndrome)
#[derive(Debug, Clone, Copy, PartialEq, Eq, Structural)]
pub enum BoundaryType {
    /// User/system explicitly marked new context
    Explicit,
    /// High prediction error triggered segmentation
    PredictionError,
    /// Long time gap since last activity
    Temporal,
    /// Goal achieved, context naturally shifts
    TaskCompletion,
    /// Semantic/spatial context changed
    ContextShift,
}

/// Sleep cycle status
#[derive(Debug, Clone, Copy, PartialEq, Eq, Structural)]
pub enum SleepCycleStatus {
    InProgress,
    Completed,
    Interrupted,
}

/// Reason why a thought was archived to the unconscious
#[derive(Debug, Clone, Copy, PartialEq, Eq, Structural)]
pub enum ArchiveReason {
    /// Low salience - below forget threshold
    LowSalience,
    /// Decay over time
    Decay,
    /// Displacement by higher-salience thought
    Displacement,
}

// ---------------------------------------------------------------------------
// Episodes, sleep cycles and the unconscious
// ---------------------------------------------------------------------------

/// Unique identifier for an episode (the 128-bit value of a UUID)
#[derive(Debug, Clone, Copy, PartialEq, Eq, Hash, Structural)]
pub struct EpisodeId(pub u128);

impl EpisodeId {
    /// A new random episode ID
    pub fn new() -> (id: Self)
        ensures
            is_v4_layout(id.0),
    {
        EpisodeId(random_uuid_value())
    }

    /// The hyphenated textual form of this ID (what `Display` shows)
    pub fn to_string(&self) -> (s: String)
        ensures
            s@ == uuid_hyphenated(self.0),
    {
        uuid_to_text(self.0)
    }
}

impl Default for EpisodeId {
    /// A new random episode ID
    fn default() -> (id: Self)
        ensures
            is_v4_layout(id.0),
    {
        EpisodeId::new()
    }
}

/// An episode: a container bounded by events (Door Syndrome). Cross-episode
/// retrieval has reduced accessibility. Holds the episode's identity, label,
/// times, boundary and consolidation flag; its context vector and emotional
/// summary are floating-point values and are not held here.
#[derive(Debug)]
pub struct Episode {
    /// Unique identifier
    pub id: EpisodeId,
    /// Episode label/description
    pub label: String,
    /// When the episode started
    pub started_at: Timestamp,
    /// When the episode ended (`None` while it is current)
    pub ended_at: Option<Timestamp>,
    /// What caused this episode boundary
    pub boundary_type: BoundaryType,
    /// What triggered the boundary
    pub boundary_trigger: Option<String>,
    /// Has this episode been consolidated?
    pub consolidated: bool,
}

impl Episode {
    /// A new, current episode that started now
    pub fn new(label: String, boundary_type: BoundaryType) -> (e: Self)
        ensures
            is_v4_layout(e.id.0),
            e.label == label,
            e.ended_at is None,
            e.boundary_type == boundary_type,
            e.boundary_trigger is None,
            !e.consolidated,
    {
        let now = utc_now();
        Episode::started(EpisodeId::new(), label, boundary_type, now)
    }

    /// A new, current episode with the given ID that started at `now`
    pub fn started(id: EpisodeId, label: String, boundary_type: BoundaryType, now: Timestamp) -> (e:
        Self)
        ensures
            e.id == id,
            e.label == label,
            e.started_at == now,
            e.ended_at is None,
            e.boundary_type == boundary_type,
            e.boundary_trigger is None,
            !e.consolidated,
    {
        Episode {
            id,
            label,
            started_at: now,
            ended_at: None,
            boundary_type,
            boundary_trigger: None,
            consolidated: false,
        }
    }

    /// The same episode with a description of what triggered its boundary
    pub fn with_trigger(self, trigger: String) -> (e: Self)
        ensures
            e.boundary_trigger == Some(trigger),
            e.id == self.id,
            e.label == self.label,
            e.started_at == self.started_at,
            e.ended_at == self.ended_at,
            e.boundary_type == self.boundary_type,
            e.consolidated == self.consolidated,
    {
        let mut e = self;
        e.boundary_trigger = Some(trigger);
        e
    }

    /// Whether this is the current (open) episode
    pub fn is_current(&self) -> (r: bool)
        ensures
            r == self.ended_at is None,
    {
        self.ended_at.is_none()
    }

    /// Close this episode now
    pub fn close(&mut self)
        ensures
            final(self).ended_at is Some,
            final(self).id == old(self).id,
            final(self).label == old(self).label,
            final(self).started_at == old(self).started_at,
            final(self).boundary_type == old(self).boundary_type,
            final(self).boundary_trigger == old(self).boundary_trigger,
            final(self).consolidated == old(self).consolidated,
    {
        let now = utc_now();
        self.close_at(now);
    }

    /// Close this episode at `now`
    pub fn close_at(&mut self, now: Timestamp)
        ensures
            final(self).ended_at == Some(now),
            final(self).id == old(self).id,
            final(self).label == old(self).label,
            final(self).started_at == old(self).started_at,
            final(self).boundary_type == old(self).boundary_type,
            final(self).boundary_trigger == old(self).boundary_trigger,
            final(self).consolidated == old(self).consolidated,
    {
        self.ended_at = Some(now);
    }

    /// Length of a closed episode in whole milliseconds, as chrono counts
    /// from its start to its end (rounded towards zero); `None` while it is
    /// current.
    pub fn duration_ms(&self) -> (r: Option<i64>)
        ensures
            self.ended_at is None ==> r is None,
            self.ended_at matches Some(end) ==> r == chrono_millis_between(
                self.started_at.secs,
                self.started_at.nanos,
                end.secs,
                end.nanos,
            ),
            self.ended_at matches Some(end) ==> (plain_moment(self.started_at) && plain_moment(end)
                ==> r == Some(millis_toward_zero(nanos_between(self.started_at, end)) as i64)),
    {
        match self.ended_at {
            Some(end) => millis_between(self.started_at, end),
            None => None,
        }
    }
}

/// A sleep cycle record: identity, times, counters and status.
#[derive(Debug, Clone, Copy, PartialEq, Eq, Structural)]
pub struct SleepCycle {
    /// Unique identifier (the 128-bit value of a UUID)
    pub id: u128,
    /// When the cycle started
    pub started_at: Timestamp,
    /// When the cycle ended
    pub ended_at: Option<Timestamp>,
    /// Number of memories replayed
    pub memories_replayed: u32,
    /// Number of memories that reached permanent status
    pub memories_consolidated: u32,
    /// Number of associations strengthened
    pub associations_strengthened: u32,
    /// Number of weak associations pruned
    pub associations_pruned: u32,
    /// Average replay priority of the batch, as the bit pattern of its `f32`
    pub avg_replay_priority_bits: u32,
    /// Cycle status
    pub status: SleepCycleStatus,
}

impl SleepCycle {
    /// A cycle in progress that started now, with nothing counted yet
    pub fn new() -> (c: Self)
        ensures
            is_v4_layout(c.id),
            c.ended_at is None,
            c.memories_replayed == 0,
            c.memories_consolidated == 0,
            c.associations_strengthened == 0,
            c.associations_pruned == 0,
            c.avg_replay_priority_bits == 0,
            c.status == SleepCycleStatus::InProgress,
    {
        let now = utc_now();
        SleepCycle::started(random_uuid_value(), now)
    }

    /// A cycle in progress with the given ID that started at `now`, with
    /// nothing counted yet
    pub fn started(id: u128, now: Timestamp) -> (c: Self)
        ensures
            c.id == id,
            c.started_at == now,
            c.ended_at is None,
            c.memories_replayed == 0,
            c.memories_consolidated == 0,
            c.associations_strengthened == 0,
            c.associations_pruned == 0,
            c.avg_replay_priority_bits == 0,
            c.status == SleepCycleStatus::InProgress,
    {
        SleepCycle {
            id,
            started_at: now,
            ended_at: None,
            memories_replayed: 0,
            memories_consolidated: 0,
            associations_strengthened: 0,
            associations_pruned: 0,
            avg_replay_priority_bits: 0,
            status: SleepCycleStatus::InProgress,
        }
    }

    /// Complete the cycle now
    pub fn complete(&mut self)
        ensures
            *final(self) == (SleepCycle {
                ended_at: final(self).ended_at,
                status: SleepCycleStatus::Completed,
                ..*old(self)
            }),
            final(self).ended_at is Some,
    {
        let now = utc_now();
        self.complete_at(now);
    }

    /// Complete the cycle at `now`
    pub fn complete_at(&mut self, now: Timestamp)
        ensures
            *final(self) == (SleepCycle {
                ended_at: Some(now),
                status: SleepCycleStatus::Completed,
                ..*old(self)
            }),
    {
        self.ended_at = Some(now);
        self.status = SleepCycleStatus::Completed;
    }

    /// Interrupt the cycle now
    pub fn interrupt(&mut self)
        ensures
            *final(self) == (SleepCycle {
                ended_at: final(self).ended_at,
                status: SleepCycleStatus::Interrupted,
                ..*old(self)
            }),
            final(self).ended_at is Some,
    {
        let now = utc_now();
        self.interrupt_at(now);
    }

    /// Interrupt the cycle at `now`
    pub fn interrupt_at(&mut self, now: Timestamp)
        ensures
            *final(self) == (SleepCycle {
                ended_at: Some(now),
                status: SleepCycleStatus::Interrupted,
                ..*old(self)
            }),
    {
        self.ended_at = Some(now);
        self.status = SleepCycleStatus::Interrupted;
    }
}

impl Default for SleepCycle {
    /// A cycle in progress that started now
    fn default() -> (c: Self)
        ensures
            is_v4_layout(c.id),
            c.ended_at is None,
            c.memories_replayed == 0,
            c.memories_consolidated == 0,
            c.associations_strengthened == 0,
            c.associations_pruned == 0,
            c.avg_replay_priority_bits == 0,
            c.status == SleepCycleStatus::InProgress,
    {
        SleepCycle::new()
    }
}

/// An archived thought in the unconscious ("nada se apaga na memória":
/// nothing is erased). Low-salience thoughts are archived here instead of
/// deleted; they are not searched in normal cognition but can surface
/// through dreams and associations.
#[derive(Debug)]
pub struct UnconsciousMemory {
    /// Unique identifier
    pub id: MemoryId,
    /// The thought content (serialized)
    pub content: String,
    /// Salience when archived, as the bit pattern of its `f32`
    pub original_salience_bits: u32,
    /// Why this was archived
    pub archive_reason: ArchiveReason,
    /// Number of times surfaced to consciousness
    pub surface_count: u32,
    /// Last time surfaced (if ever)
    pub last_surfaced: Option<Timestamp>,
    /// When this thought was archived
    pub archived_at: Timestamp,
    /// Original Redis stream entry ID
    pub redis_id: Option<String>,
}

impl UnconsciousMemory {
    /// Archive a forgotten thought now, under a new memory ID, never
    /// surfaced yet
    pub fn from_forgotten_thought(
        content: String,
        salience_bits: u32,
        reason: ArchiveReason,
        redis_id: Option<String>,
    ) -> (m: Self)
        ensures
            is_v4_layout(m.id.0),
            m.content == content,
            m.original_salience_bits == salience_bits,
            m.archive_reason == reason,
            m.surface_count == 0,
            m.last_surfaced is None,
            m.redis_id == redis_id,
    {
        let now = utc_now();
        UnconsciousMemory::archived(MemoryId::new(), content, salience_bits, reason, redis_id, now)
    }

    /// Archive a forgotten thought at `now` under the given ID, never
    /// surfaced yet
    pub fn archived(
        id: MemoryId,
        content: String,
        salience_bits: u32,
        reason: ArchiveReason,
        redis_id: Option<String>,
        now: Timestamp,
    ) -> (m: Self)
        ensures
            m.id == id,
            m.content == content,
            m.original_salience_bits == salience_bits,
            m.archive_reason == reason,
            m.surface_count == 0,
            m.last_surfaced is None,
            m.archived_at == now,
            m.redis_id == redis_id,
    {
        UnconsciousMemory {
            id,
            content,
            original_salience_bits: salience_bits,
            archive_reason: reason,
            surface_count: 0,
            last_surfaced: None,
            archived_at: now,
            redis_id,
        }
    }

    /// Record that this memory surfaced now
    pub fn mark_surfaced(&mut self)
        requires
            old(self).surface_count < u32::MAX,
        ensures
            final(self).surface_count == old(self).surface_count + 1,
            final(self).last_surfaced is Some,
            final(self).id == old(self).id,
            final(self).content == old(self).content,
            final(self).original_salience_bits == old(self).original_salience_bits,
            final(self).archive_reason == old(self).archive_reason,
            final(self).archived_at == old(self).archived_at,
            final(self).redis_id == old(self).redis_id,
    {
        let now = utc_now();
        self.mark_surfaced_at(now);
    }

    /// Record that this memory surfaced at `now`
    pub fn mark_surfaced_at(&mut self, now: Timestamp)
        requires
            old(self).surface_count < u32::MAX,
        ensures
            final(self).surface_count == old(self).surface_count + 1,
            final(self).last_surfaced == Some(now),
            final(self).id == old(self).id,
            final(self).content == old(self).content,
            final(self).original_salience_bits == old(self).original_salience_bits,
            final(self).archive_reason == old(self).archive_reason,
            final(self).archived_at == old(self).archived_at,
            final(self).redis_id == old(self).redis_id,
    {
        self.surface_count = self.surface_count + 1;
        self.last_surfaced = Some(now);
    }
}

// ---------------------------------------------------------------------------
// Identity across sessions
// ---------------------------------------------------------------------------

/// Timmy's persistent identity record: lifetime counters and the moments
/// that mark continuity ("nada se apaga": dreams persist too).
#[derive(Debug)]
pub struct IdentityMetadata {
    /// Well-known ID for the singleton identity record
    pub id: String,
    /// Total thoughts across all sessions (lifetime experience)
    pub lifetime_thought_count: u64,
    /// When Timmy first started thinking (birth)
    pub first_thought_at: Timestamp,
    /// Most recent thought (for continuity detection)
    pub last_thought_at: Timestamp,
    /// Number of times Timmy has been restarted
    pub restart_count: u32,
    /// Current session start time
    pub session_started_at: Timestamp,
    /// Total dream cycles across all sessions (consolidation events)
    pub lifetime_dream_count: u64,
    /// Most recent dream
    pub last_dream_at: Option<Timestamp>,
    /// Memories strengthened in the last dream
    pub last_dream_strengthened: u32,
    /// Total memories strengthened across all dreams
    pub cumulative_dream_strengthened: u64,
    /// Total candidates evaluated across all dreams
    pub cumulative_dream_candidates: u64,
}

impl IdentityMetadata {
    /// The record at first boot ever, born at the current time
    pub fn new() -> (m: Self)
        ensures
            m.id@ == IDENTITY_RECORD_ID@,
            m.lifetime_thought_count == 0,
            m.restart_count == 0,
            m.lifetime_dream_count == 0,
            m.last_dream_at is None,
            m.last_dream_strengthened == 0,
            m.cumulative_dream_strengthened == 0,
            m.cumulative_dream_candidates == 0,
            m.last_thought_at == m.first_thought_at,
            m.session_started_at == m.first_thought_at,
    {
        IdentityMetadata::born_at(utc_now())
    }

    /// The record at first boot ever, born at `now`
    pub fn born_at(now: Timestamp) -> (m: Self)
        ensures
            m.id@ == IDENTITY_RECORD_ID@,
            m.lifetime_thought_count == 0,
            m.first_thought_at == now,
            m.last_thought_at == now,
            m.restart_count == 0,
            m.session_started_at == now,
            m.lifetime_dream_count == 0,
            m.last_dream_at is None,
            m.last_dream_strengthened == 0,
            m.cumulative_dream_strengthened == 0,
            m.cumulative_dream_candidates == 0,
    {
        IdentityMetadata {
            id: String::from_str(IDENTITY_RECORD_ID),
            lifetime_thought_count: 0,
            first_thought_at: now,
            last_thought_at: now,
            restart_count: 0,
            session_started_at: now,
            lifetime_dream_count: 0,
            last_dream_at: None,
            last_dream_strengthened: 0,
            cumulative_dream_strengthened: 0,
            cumulative_dream_candidates: 0,
        }
    }

    /// Record a restart (each boot after the first): the session starts now
    pub fn record_restart(&mut self)
        requires
            old(self).restart_count < u32::MAX,
        ensures
            final(self).restart_count == old(self).restart_count + 1,
            final(self).id == old(self).id,
            final(self).lifetime_thought_count == old(self).lifetime_thought_count,
            final(self).first_thought_at == old(self).first_thought_at,
            final(self).last_thought_at == old(self).last_thought_at,
            final(self).lifetime_dream_count == old(self).lifetime_dream_count,
            final(self).last_dream_at == old(self).last_dream_at,
            final(self).last_dream_strengthened == old(self).last_dream_strengthened,
            final(self).cumulative_dream_strengthened == old(self).cumulative_dream_strengthened,
            final(self).cumulative_dream_candidates == old(self).cumulative_dream_candidates,
    {
        let now = utc_now();
        self.record_restart_at(now);
    }

    /// Record a restart whose session starts at `now`
    pub fn record_restart_at(&mut self, now: Timestamp)
        requires
            old(self).restart_count < u32::MAX,
        ensures
            final(self).restart_count == old(self).restart_count + 1,
            final(self).session_started_at == now,
            final(self).id == old(self).id,
            final(self).lifetime_thought_count == old(self).lifetime_thought_count,
            final(self).first_thought_at == old(self).first_thought_at,
            final(self).last_thought_at == old(self).last_thought_at,
            final(self).lifetime_dream_count == old(self).lifetime_dream_count,
            final(self).last_dream_at == old(self).last_dream_at,
            final(self).last_dream_strengthened == old(self).last_dream_strengthened,
            final(self).cumulative_dream_strengthened == old(self).cumulative_dream_strengthened,
            final(self).cumulative_dream_candidates == old(self).cumulative_dream_candidates,
    {
        self.restart_count = self.restart_count + 1;
        self.session_started_at = now;
    }

    /// Count one more thought; the last thought happened now
    pub fn record_thought(&mut self)
        requires
            old(self).lifetime_thought_count < u64::MAX,
        ensures
            final(self).lifetime_thought_count == old(self).lifetime_thought_count + 1,
            final(self).id == old(self).id,
            final(self).first_thought_at == old(self).first_thought_at,
            final(self).restart_count == old(self).restart_count,
            final(self).session_started_at == old(self).session_started_at,
            final(self).lifetime_dream_count == old(self).lifetime_dream_count,
            final(self).last_dream_at == old(self).last_dream_at,
            final(self).last_dream_strengthened == old(self).last_dream_strengthened,
            final(self).cumulative_dream_strengthened == old(self).cumulative_dream_strengthened,
            final(self).cumulative_dream_candidates == old(self).cumulative_dream_candidates,
    {
        let now = utc_now();
        self.record_thought_at(now);
    }

    /// Count one more thought, which happened at `now`
    pub fn record_thought_at(&mut self, now: Timestamp)
        requires
            old(self).lifetime_thought_count < u64::MAX,
        ensures
            final(self).lifetime_thought_count == old(self).lifetime_thought_count + 1,
            final(self).last_thought_at == now,
            final(self).id == old(self).id,
            final(self).first_thought_at == old(self).first_thought_at,
            final(self).restart_count == old(self).restart_count,
            final(self).session_started_at == old(self).session_started_at,
            final(self).lifetime_dream_count == old(self).lifetime_dream_count,
            final(self).last_dream_at == old(self).last_dream_at,
            final(self).last_dream_strengthened == old(self).last_dream_strengthened,
            final(self).cumulative_dream_strengthened == old(self).cumulative_dream_strengthened,
            final(self).cumulative_dream_candidates == old(self).cumulative_dream_candidates,
    {
        self.lifetime_thought_count = self.lifetime_thought_count + 1;
        self.last_thought_at = now;
    }

    /// Record a dream cycle that strengthened `memories_strengthened` of
    /// `candidates_evaluated` memories; it happened now
    pub fn record_dream(&mut self, memories_strengthened: u32, candidates_evaluated: u32)
        requires
            old(self).lifetime_dream_count < u64::MAX,
            old(self).cumulative_dream_strengthened + memories_strengthened <= u64::MAX,
            old(self).cumulative_dream_candidates + candidates_evaluated <= u64::MAX,
        ensures
            final(self).lifetime_dream_count == old(self).lifetime_dream_count + 1,
            final(self).last_dream_at is Some,
            final(self).last_dream_strengthened == memories_strengthened,
            final(self).cumulative_dream_strengthened == old(self).cumulative_dream_strengthened
                + memories_strengthened,
            final(self).cumulative_dream_candidates == old(self).cumulative_dream_candidates
                + candidates_evaluated,
            final(self).id == old(self).id,
            final(self).lifetime_thought_count == old(self).lifetime_thought_count,
            final(self).first_thought_at == old(self).first_thought_at,
            final(self).last_thought_at == old(self).last_thought_at,
            final(self).restart_count == old(self).restart_count,
            final(self).session_started_at == old(self).session_started_at,
    {
        let now = utc_now();
        self.record_dream_at(now, memories_strengthened, candidates_evaluated);
    }

    /// Record a dream cycle that happened at `now`
    pub fn record_dream_at(
        &mut self,
        now: Timestamp,
        memories_strengthened: u32,
        candidates_evaluated: u32,
    )
        requires
            old(self).lifetime_dream_count < u64::MAX,
            old(self).cumulative_dream_strengthened + memories_strengthened <= u64::MAX,
            old(self).cumulative_dream_candidates + candidates_evaluated <= u64::MAX,
        ensures
            final(self).lifetime_dream_count == old(self).lifetime_dream_count + 1,
            final(self).last_dream_at == Some(now),
            final(self).last_dream_strengthened == memories_strengthened,
            final(self).cumulative_dream_strengthened == old(self).cumulative_dream_strengthened
                + memories_strengthened,
            final(self).cumulative_dream_candidates == old(self).cumulative_dream_candidates
                + candidates_evaluated,
            final(self).id == old(self).id,
            final(self).lifetime_thought_count == old(self).lifetime_thought_count,
            final(self).first_thought_at == old(self).first_thought_at,
            final(self).last_thought_at == old(self).last_thought_at,
            final(self).restart_count == old(self).restart_count,
            final(self).session_started_at == old(self).session_started_at,
    {
        self.lifetime_dream_count = self.lifetime_dream_count + 1;
        self.last_dream_at = Some(now);
        self.last_dream_strengthened = memories_strengthened;
        self.cumulative_dream_strengthened = self.cumulative_dream_strengthened
            + memories_strengthened as u64;
        self.cumulative_dream_candidates = self.cumulative_dream_candidates
            + candidates_evaluated as u64;
    }
}

impl Default for IdentityMetadata {
    /// The record at first boot ever, born now
    fn default() -> (m: Self)
        ensures
            m.id@ == IDENTITY_RECORD_ID@,
            m.lifetime_thought_count == 0,
            m.restart_count == 0,
            m.lifetime_dream_count == 0,
            m.last_dream_at is None,
            m.last_dream_strengthened == 0,
            m.cumulative_dream_strengthened == 0,
            m.cumulative_dream_candidates == 0,
    {
        IdentityMetadata::new()
    }
}

} // verus!
