//! Continuity - Âncora da Memória (Memory Anchor).
//!
//! Identity persists across time while thoughts are ephemeral. Significant
//! experiences are anchored, milestones mark growth, and checkpoints are
//! snapshots of the whole anchor that a later restore returns to.
//!
//! The anchor keeps, for each experience, its identity, when it was recorded
//! and the key under which the caller keeps the rest of it (its thought,
//! significance and tags); what it decides turns on those three alone.
use vstd::prelude::*;
use crate::cognition::types::{is_v4_layout, random_uuid_value};
use crate::timestamp::{Timestamp, utc_now};

verus! {

// ---------------------------------------------------------------------------
// Identifiers
// ---------------------------------------------------------------------------

/// Identifier of a recorded experience (the 128-bit value of a UUID)
#[derive(Debug, Clone, Copy, PartialEq, Eq, Hash, Structural)]
pub struct ExperienceId(pub u128);

impl ExperienceId {
    /// A new random experience ID
    pub fn new() -> (id: Self)
        ensures
            is_v4_layout(id.0),
    {
        ExperienceId(random_uuid_value())
    }
}

/// Identifier of a milestone (the 128-bit value of a UUID)
#[derive(Debug, Clone, Copy, PartialEq, Eq, Hash, Structural)]
pub struct MilestoneId(pub u128);

impl MilestoneId {
    /// A new random milestone ID
    pub fn new() -> (id: Self)
        ensures
            is_v4_layout(id.0),
    {
        MilestoneId(random_uuid_value())
    }
}

/// Identifier of a checkpoint (the 128-bit value of a UUID)
#[derive(Debug, Clone, Copy, PartialEq, Eq, Hash, Structural)]
pub struct CheckpointId(pub u128);

impl CheckpointId {
    /// A new random checkpoint ID
    pub fn new() -> (id: Self)
        ensures
            is_v4_layout(id.0),
    {
        CheckpointId(random_uuid_value())
    }
}

// ---------------------------------------------------------------------------
// Experiences, identity, milestones
// ---------------------------------------------------------------------------

/// A significant experience as the anchor holds it.
#[derive(Debug, Clone, Copy, PartialEq, Eq, Structural)]
pub struct ExperienceEntry {
    /// The experience's identity
    pub id: ExperienceId,
    /// When it was recorded
    pub recorded_at: Timestamp,
    /// The key under which the caller keeps its thought, significance and tags
    pub payload: u64,
}

/// Mathematical model of an `Identity`.
pub struct IdentityView {
    pub name: Seq<char>,
    pub experience_count: u64,
    pub milestone_count: u64,
}

/// DANEEL's persistent self-concept
#[derive(Debug)]
pub struct Identity {
    /// Always "DANEEL"
    pub name: String,
    /// Experiences recorded so far
    pub experience_count: u64,
    /// Milestones reached so far
    pub milestone_count: u64,
}

impl View for Identity {
    type V = IdentityView;

    open spec fn view(&self) -> IdentityView {
        IdentityView {
            name: self.name@,
            experience_count: self.experience_count,
            milestone_count: self.milestone_count,
        }
    }
}

impl Identity {
    /// DANEEL at first boot: nothing experienced, no milestone reached
    pub fn new() -> (i: Self)
        ensures
            i@.name == "DANEEL"@,
            i@.experience_count == 0,
            i@.milestone_count == 0,
    {
        Identity { name: String::from_str("DANEEL"), experience_count: 0, milestone_count: 0 }
    }
}

impl Clone for Identity {
    fn clone(&self) -> (r: Self)
        ensures
            r@ == self@,
    {
        Identity {
            name: self.name.clone(),
            experience_count: self.experience_count,
            milestone_count: self.milestone_count,
        }
    }
}

/// A copy of a list of plain values.
fn copy_all<T: Copy>(v: &Vec<T>) -> (r: Vec<T>)
    ensures
        r@ == v@,
{
    let mut r: Vec<T> = Vec::new();
    let mut i: usize = 0;
    while i < v.len()
        invariant
            i <= v.len(),
            r@ == v@.subrange(0, i as int),
        decreases v.len() - i,
    {
        r.push(v[i]);
        i = i + 1;
    }
    r
}

/// Mathematical model of a `Milestone`.
pub struct MilestoneView {
    pub id: MilestoneId,
    pub name: Seq<char>,
    pub description: Seq<char>,
    pub related_experiences: Seq<ExperienceId>,
}

/// A marker of growth and change
#[derive(Debug)]
pub struct Milestone {
    pub id: MilestoneId,
    pub name: String,
    pub description: String,
    /// The experiences that led to it
    pub related_experiences: Vec<ExperienceId>,
}

impl View for Milestone {
    type V = MilestoneView;

    open spec fn view(&self) -> MilestoneView {
        MilestoneView {
            id: self.id,
            name: self.name@,
            description: self.description@,
            related_experiences: self.related_experiences@,
        }
    }
}

impl Milestone {
    /// A new milestone, with a fresh random ID, tied to the given experiences
    pub fn new(name: &str, description: &str, related_experiences: Vec<ExperienceId>) -> (m: Self)
        ensures
            is_v4_layout(m.id.0),
            m@.name == name@,
            m@.description == description@,
            m@.related_experiences == related_experiences@,
    {
        Milestone {
            id: MilestoneId::new(),
            name: String::from_str(name),
            description: String::from_str(description),
            related_experiences,
        }
    }

    /// A new milestone tied to no experience
    pub fn simple(name: &str, description: &str) -> (m: Self)
        ensures
            is_v4_layout(m.id.0),
            m@.name == name@,
            m@.description == description@,
            m@.related_experiences.len() == 0,
    {
        Milestone::new(name, description, Vec::new())
    }
}

impl Clone for Milestone {
    fn clone(&self) -> (r: Self)
        ensures
            r@ == self@,
    {
        Milestone {
            id: self.id,
            name: self.name.clone(),
            description: self.description.clone(),
            related_experiences: copy_all(&self.related_experiences),
        }
    }
}

/// The models of a sequence of milestones, in order.
pub open spec fn milestone_views(s: Seq<Milestone>) -> Seq<MilestoneView> {
    s.map_values(|m: Milestone| m@)
}

/// A copy of a list of milestones.
fn copy_milestones(v: &Vec<Milestone>) -> (r: Vec<Milestone>)
    ensures
        milestone_views(r@) == milestone_views(v@),
{
    let mut r: Vec<Milestone> = Vec::new();
    let mut i: usize = 0;
    while i < v.len()
        invariant
            i <= v.len(),
            r@.len() == i,
            forall|j: int| 0 <= j < i ==> r@[j]@ == v@[j]@,
        decreases v.len() - i,
    {
        let m = v[i].clone();
        r.push(m);
        i = i + 1;
    }
    assert(milestone_views(r@) =~= milestone_views(v@));
    r
}

// ---------------------------------------------------------------------------
// Keyed views of stored sequences
// ---------------------------------------------------------------------------

/// No two entries share an ID.
pub open spec fn entry_ids_distinct(s: Seq<ExperienceEntry>) -> bool {
    forall|i: int, j: int| 0 <= i < s.len() && 0 <= j < s.len() && i != j ==> s[i].id != s[j].id
}

/// Some entry has this ID.
pub open spec fn has_entry(s: Seq<ExperienceEntry>, id: ExperienceId) -> bool {
    exists|i: int| 0 <= i < s.len() && s[i].id == id
}

/// Entries by ID.
pub open spec fn entry_map(s: Seq<ExperienceEntry>) -> Map<ExperienceId, ExperienceEntry> {
    Map::new(
        |id: ExperienceId| has_entry(s, id),
        |id: ExperienceId| s[choose|i: int| 0 <= i < s.len() && s[i].id == id],
    )
}

proof fn lemma_entry_map_at(s: Seq<ExperienceEntry>, i: int)
    requires
        entry_ids_distinct(s),
        0 <= i < s.len(),
    ensures
        entry_map(s).contains_key(s[i].id),
        entry_map(s)[s[i].id] == s[i],
{
    assert(has_entry(s, s[i].id));
    let j = choose|j: int| 0 <= j < s.len() && s[j].id == s[i].id;
    assert(j == i);
}

/// Writing `e` over the entry with its ID, or appending it where none has
/// it, inserts it into the map.
proof fn lemma_entry_map_put(s: Seq<ExperienceEntry>, t: Seq<ExperienceEntry>, e: ExperienceEntry)
    requires
        entry_ids_distinct(s),
        entry_ids_distinct(t),
        has_entry(t, e.id),
        forall|i: int| 0 <= i < t.len() && t[i].id != e.id ==> has_entry(s, t[i].id),
        forall|i: int| 0 <= i < t.len() && t[i].id == e.id ==> t[i] == e,
        forall|i: int|
            0 <= i < s.len() && s[i].id != e.id ==> exists|j: int| 0 <= j < t.len() && t[j] == s[i],
    ensures
        entry_map(t) == entry_map(s).insert(e.id, e),
{
    let ms = entry_map(s);
    let mt = entry_map(t);
    assert forall|id: ExperienceId| #[trigger] mt.contains_key(id) == ms.insert(e.id, e).contains_key(id) by {
        if id != e.id {
            if has_entry(t, id) {
                let i = choose|i: int| 0 <= i < t.len() && t[i].id == id;
                assert(has_entry(s, t[i].id));
            }
            if has_entry(s, id) {
                let i = choose|i: int| 0 <= i < s.len() && s[i].id == id;
                let j = choose|j: int| 0 <= j < t.len() && t[j] == s[i];
                assert(t[j].id == id);
            }
        }
    }
    assert forall|id: ExperienceId| #[trigger] mt.contains_key(id) implies mt[id] == ms.insert(e.id, e)[id] by {
        let i = choose|i: int| 0 <= i < t.len() && t[i].id == id;
        lemma_entry_map_at(t, i);
        if id != e.id {
            let k = choose|k: int| 0 <= k < s.len() && s[k].id == id;
            lemma_entry_map_at(s, k);
            let j = choose|j: int| 0 <= j < t.len() && t[j] == s[k];
            lemma_entry_map_at(t, j);
        }
    }
    assert(mt =~= ms.insert(e.id, e));
}

// ---------------------------------------------------------------------------
// Checkpoints
// ---------------------------------------------------------------------------

/// Mathematical model of a `Checkpoint`.
pub struct CheckpointView {
    pub id: CheckpointId,
    pub created_at: Timestamp,
    pub experience_count: u64,
    pub milestone_count: u64,
    pub identity: IdentityView,
    pub experiences: Map<ExperienceId, ExperienceEntry>,
    pub milestones: Seq<MilestoneView>,
}

/// A snapshot of the anchor, kept for a later restore
#[derive(Debug)]
pub struct Checkpoint {
    /// Unique identifier for this checkpoint
    pub id: CheckpointId,
    /// When this checkpoint was created
    pub created_at: Timestamp,
    /// Number of experiences at checkpoint time
    pub experience_count: u64,
    /// Number of milestones at checkpoint time
    pub milestone_count: u64,
    identity: Identity,
    experiences: Vec<ExperienceEntry>,
    milestones: Vec<Milestone>,
}

impl View for Checkpoint {
    type V = CheckpointView;

    closed spec fn view(&self) -> CheckpointView {
        CheckpointView {
            id: self.id,
            created_at: self.created_at,
            experience_count: self.experience_count,
            milestone_count: self.milestone_count,
            identity: self.identity@,
            experiences: entry_map(self.experiences@),
            milestones: milestone_views(self.milestones@),
        }
    }
}

/// No two checkpoints share an ID.
spec fn checkpoint_ids_distinct(s: Seq<Checkpoint>) -> bool {
    forall|i: int, j: int| 0 <= i < s.len() && 0 <= j < s.len() && i != j ==> s[i].id != s[j].id
}

/// Some checkpoint has this ID.
spec fn has_checkpoint(s: Seq<Checkpoint>, id: CheckpointId) -> bool {
    exists|i: int| 0 <= i < s.len() && s[i].id == id
}

/// Checkpoint models by ID.
spec fn checkpoint_map(s: Seq<Checkpoint>) -> Map<CheckpointId, CheckpointView> {
    Map::new(
        |id: CheckpointId| has_checkpoint(s, id),
        |id: CheckpointId| s[choose|i: int| 0 <= i < s.len() && s[i].id == id]@,
    )
}

proof fn lemma_checkpoint_map_at(s: Seq<Checkpoint>, i: int)
    requires
        checkpoint_ids_distinct(s),
        0 <= i < s.len(),
    ensures
        checkpoint_map(s).contains_key(s[i].id),
        checkpoint_map(s)[s[i].id] == s[i]@,
{
    assert(has_checkpoint(s, s[i].id));
    let j = choose|j: int| 0 <= j < s.len() && s[j].id == s[i].id;
    assert(j == i);
}

/// Writing a checkpoint over the one with its ID, or appending it where
/// none has it, inserts its model into the map.
proof fn lemma_checkpoint_map_put(s: Seq<Checkpoint>, t: Seq<Checkpoint>, c: CheckpointView)
    requires
        checkpoint_ids_distinct(s),
        checkpoint_ids_distinct(t),
        has_checkpoint(t, c.id),
        forall|i: int| 0 <= i < t.len() && t[i].id != c.id ==> has_checkpoint(s, t[i].id),
        forall|i: int| 0 <= i < t.len() && t[i].id == c.id ==> t[i]@ == c,
        forall|i: int|
            0 <= i < s.len() && s[i].id != c.id ==> exists|j: int| 0 <= j < t.len() && t[j] == s[i],
    ensures
        checkpoint_map(t) == checkpoint_map(s).insert(c.id, c),
{
    let ms = checkpoint_map(s);
    let mt = checkpoint_map(t);
    assert forall|id: CheckpointId| #[trigger] mt.contains_key(id) == ms.insert(c.id, c).contains_key(id) by {
        if id != c.id {
            if has_checkpoint(t, id) {
                let i = choose|i: int| 0 <= i < t.len() && t[i].id == id;
                assert(has_checkpoint(s, t[i].id));
            }
            if has_checkpoint(s, id) {
                let i = choose|i: int| 0 <= i < s.len() && s[i].id == id;
                let j = choose|j: int| 0 <= j < t.len() && t[j] == s[i];
                assert(t[j].id == id);
            }
        }
    }
    assert forall|id: CheckpointId| #[trigger] mt.contains_key(id) implies mt[id] == ms.insert(c.id, c)[id] by {
        let i = choose|i: int| 0 <= i < t.len() && t[i].id == id;
        lemma_checkpoint_map_at(t, i);
        if id != c.id {
            let k = choose|k: int| 0 <= k < s.len() && s[k].id == id;
            lemma_checkpoint_map_at(s, k);
            let j = choose|j: int| 0 <= j < t.len() && t[j] == s[k];
            lemma_checkpoint_map_at(t, j);
        }
    }
    assert(mt =~= ms.insert(c.id, c));
}

/// Why a continuity request was refused
#[derive(Debug, Clone, Copy, PartialEq, Eq, Structural)]
pub enum ContinuityError {
    /// No experience is recorded under this ID
    ExperienceNotFound { experience_id: ExperienceId },
    /// No checkpoint is saved under this ID
    CheckpointNotFound { checkpoint_id: CheckpointId },
}

// ---------------------------------------------------------------------------
// The anchor
// ---------------------------------------------------------------------------

/// Mathematical model of a `ContinuityState`.
pub struct ContinuityView {
    pub identity: IdentityView,
    pub experiences: Map<ExperienceId, ExperienceEntry>,
    pub milestones: Seq<MilestoneView>,
    pub checkpoints: Map<CheckpointId, CheckpointView>,
}

impl ContinuityView {
    /// After recording `e`: it is kept under its ID (replacing any earlier
    /// one there) and the identity counts one more experience.
    pub open spec fn recorded(self, e: ExperienceEntry) -> ContinuityView {
        ContinuityView {
            identity: IdentityView {
                name: self.identity.name,
                experience_count: (self.identity.experience_count + 1) as u64,
                milestone_count: self.identity.milestone_count,
            },
            experiences: self.experiences.insert(e.id, e),
            milestones: self.milestones,
            checkpoints: self.checkpoints,
        }
    }

    /// After adding milestone `m`: it comes last and the identity counts one
    /// more milestone.
    pub open spec fn milestone_added(self, m: MilestoneView) -> ContinuityView {
        ContinuityView {
            identity: IdentityView {
                name: self.identity.name,
                experience_count: self.identity.experience_count,
                milestone_count: (self.identity.milestone_count + 1) as u64,
            },
            experiences: self.experiences,
            milestones: self.milestones.push(m),
            checkpoints: self.checkpoints,
        }
    }

    /// The snapshot of this state that a checkpoint holds.
    pub open spec fn snapshot(self, id: CheckpointId, created_at: Timestamp) -> CheckpointView {
        CheckpointView {
            id,
            created_at,
            experience_count: self.identity.experience_count,
            milestone_count: self.identity.milestone_count,
            identity: self.identity,
            experiences: self.experiences,
            milestones: self.milestones,
        }
    }

    /// After saving a checkpoint: its snapshot is kept under its ID, and
    /// nothing else changes.
    pub open spec fn checkpointed(self, id: CheckpointId, created_at: Timestamp) -> ContinuityView {
        ContinuityView {
            identity: self.identity,
            experiences: self.experiences,
            milestones: self.milestones,
            checkpoints: self.checkpoints.insert(id, self.snapshot(id, created_at)),
        }
    }

    /// After restoring checkpoint `id`: identity, experiences and milestones
    /// are those it holds; the checkpoints stay.
    pub open spec fn restored(self, id: CheckpointId) -> ContinuityView {
        ContinuityView {
            identity: self.checkpoints[id].identity,
            experiences: self.checkpoints[id].experiences,
            milestones: self.checkpoints[id].milestones,
            checkpoints: self.checkpoints,
        }
    }

    /// `e` is a recorded experience, recorded between `start` and `end`
    /// inclusive.
    pub open spec fn in_timeline(self, e: ExperienceEntry, start: Timestamp, end: Timestamp) -> bool {
        &&& self.experiences.contains_key(e.id)
        &&& self.experiences[e.id] == e
        &&& start.no_later_than(e.recorded_at)
        &&& e.recorded_at.no_later_than(end)
    }
}

/// Continuity state: DANEEL's persistent identity and memory anchor
#[derive(Debug)]
pub struct ContinuityState {
    identity: Identity,
    experiences: Vec<ExperienceEntry>,
    milestones: Vec<Milestone>,
    checkpoints: Vec<Checkpoint>,
}

impl View for ContinuityState {
    type V = ContinuityView;

    closed spec fn view(&self) -> ContinuityView {
        ContinuityView {
            identity: self.identity@,
            experiences: entry_map(self.experiences@),
            milestones: milestone_views(self.milestones@),
            checkpoints: checkpoint_map(self.checkpoints@),
        }
    }
}

impl ContinuityState {
    #[verifier::type_invariant]
    spec fn inv(self) -> bool {
        &&& entry_ids_distinct(self.experiences@)
        &&& checkpoint_ids_distinct(self.checkpoints@)
        &&& forall|i: int|
            0 <= i < self.checkpoints@.len() ==> entry_ids_distinct(
                #[trigger] self.checkpoints@[i].experiences@,
            )
    }

    /// A fresh anchor for DANEEL: nothing recorded, no milestone, no
    /// checkpoint
    pub fn new() -> (s: Self)
        ensures
            s@.identity.name == "DANEEL"@,
            s@.identity.experience_count == 0,
            s@.identity.milestone_count == 0,
            s@.experiences == Map::<ExperienceId, ExperienceEntry>::empty(),
            s@.milestones == Seq::<MilestoneView>::empty(),
            s@.checkpoints == Map::<CheckpointId, CheckpointView>::empty(),
    {
        ContinuityState::with_identity(Identity::new())
    }

    /// An anchor for the given identity: nothing recorded, no milestone, no
    /// checkpoint
    pub fn with_identity(identity: Identity) -> (s: Self)
        ensures
            s@.identity == identity@,
            s@.experiences == Map::<ExperienceId, ExperienceEntry>::empty(),
            s@.milestones == Seq::<MilestoneView>::empty(),
            s@.checkpoints == Map::<CheckpointId, CheckpointView>::empty(),
    {
        let s = ContinuityState {
            identity,
            experiences: Vec::new(),
            milestones: Vec::new(),
            checkpoints: Vec::new(),
        };
        assert(s@.experiences =~= Map::<ExperienceId, ExperienceEntry>::empty());
        assert(s@.milestones =~= Seq::<MilestoneView>::empty());
        assert(s@.checkpoints =~= Map::<CheckpointId, CheckpointView>::empty());
        s
    }

    /// The current identity
    pub fn get_identity(&self) -> (i: Identity)
        ensures
            i@ == self@.identity,
    {
        self.identity.clone()
    }

    /// Where the experience with this ID is stored, if any
    fn experience_index(&self, id: ExperienceId) -> (k: Option<usize>)
        ensures
            k matches Some(i) ==> i < self.experiences@.len() && self.experiences@[i as int].id == id,
            k is None ==> !has_entry(self.experiences@, id),
    {
        let mut i: usize = 0;
        while i < self.experiences.len()
            invariant
                i <= self.experiences@.len(),
                forall|j: int| 0 <= j < i ==> self.experiences@[j].id != id,
            decreases self.experiences.len() - i,
        {
            if self.experiences[i].id == id {
                return Some(i);
            }
            i = i + 1;
        }
        None
    }

    /// Record a significant experience; one kept under the same ID is
    /// replaced
    pub fn record_experience(&mut self, experience: ExperienceEntry) -> (id: ExperienceId)
        requires
            old(self)@.identity.experience_count < u64::MAX,
        ensures
            id == experience.id,
            final(self)@ == old(self)@.recorded(experience),
    {
        proof {
            use_type_invariant(&*self);
        }
        let found = self.experience_index(experience.id);
        let mut entries: Vec<ExperienceEntry> = Vec::new();
        std::mem::swap(&mut entries, &mut self.experiences);
        let ghost before = entries@;
        match found {
            Some(k) => {
                entries.set(k, experience);
                assert forall|i: int|
                    0 <= i < before.len() && before[i].id != experience.id implies exists|j: int|
                    0 <= j < entries@.len() && entries@[j] == before[i] by {
                    assert(entries@[i] == before[i]);
                }
                assert(has_entry(entries@, experience.id)) by {
                    assert(entries@[k as int].id == experience.id);
                }
                assert forall|i: int|
                    0 <= i < entries@.len() && entries@[i].id != experience.id implies has_entry(
                    before,
                    entries@[i].id,
                ) by {
                    assert(before[i] == entries@[i]);
                }
            },
            None => {
                entries.push(experience);
                assert forall|i: int|
                    0 <= i < before.len() && before[i].id != experience.id implies exists|j: int|
                    0 <= j < entries@.len() && entries@[j] == before[i] by {
                    assert(entries@[i] == before[i]);
                }
                assert(has_entry(entries@, experience.id)) by {
                    assert(entries@[before.len() as int] == experience);
                }
                assert forall|i: int|
                    0 <= i < entries@.len() && entries@[i].id != experience.id implies has_entry(
                    before,
                    entries@[i].id,
                ) by {
                    assert(before[i] == entries@[i]);
                }
                assert(entry_ids_distinct(entries@));
            },
        }
        proof {
            lemma_entry_map_put(before, entries@, experience);
        }
        self.experiences = entries;
        self.identity.experience_count = self.identity.experience_count + 1;
        experience.id
    }

    /// The experience recorded under this ID
    pub fn get_experience(&self, experience_id: ExperienceId) -> (r: Result<
        ExperienceEntry,
        ContinuityError,
    >)
        ensures
            self@.experiences.contains_key(experience_id) ==> r == Ok::<
                ExperienceEntry,
                ContinuityError,
            >(self@.experiences[experience_id]),
            !self@.experiences.contains_key(experience_id) ==> r == Err::<
                ExperienceEntry,
                ContinuityError,
            >(ContinuityError::ExperienceNotFound { experience_id }),
    {
        proof {
            use_type_invariant(self);
        }
        match self.experience_index(experience_id) {
            Some(k) => {
                proof {
                    lemma_entry_map_at(self.experiences@, k as int);
                }
                Ok(self.experiences[k])
            },
            None => Err(ContinuityError::ExperienceNotFound { experience_id }),
        }
    }

    /// The experiences recorded between `start` and `end` inclusive, each
    /// once, in no promised order
    pub fn get_timeline(&self, start: Timestamp, end: Timestamp) -> (r: Vec<ExperienceEntry>)
        ensures
            entry_ids_distinct(r@),
            forall|i: int| 0 <= i < r@.len() ==> self@.in_timeline(#[trigger] r@[i], start, end),
            forall|id: ExperienceId|
                #![trigger self@.experiences[id]]
                self@.experiences.contains_key(id) && self@.in_timeline(
                    self@.experiences[id],
                    start,
                    end,
                ) ==> exists|i: int| 0 <= i < r@.len() && r@[i] == self@.experiences[id],
    {
        proof {
            use_type_invariant(self);
        }
        let ghost all = self.experiences@;
        let mut r: Vec<ExperienceEntry> = Vec::new();
        let mut i: usize = 0;
        while i < self.experiences.len()
            invariant
                all == self.experiences@,
                entry_ids_distinct(all),
                i <= all.len(),
                entry_ids_distinct(r@),
                forall|j: int|
                    #![trigger r@[j]]
                    0 <= j < r@.len() ==> exists|m: int|
                        #![trigger all[m]]
                        0 <= m < i && r@[j] == all[m],
                forall|j: int|
                    0 <= j < r@.len() ==> start.no_later_than(#[trigger] r@[j].recorded_at)
                        && r@[j].recorded_at.no_later_than(end),
                forall|m: int|
                    0 <= m < i && start.no_later_than(#[trigger] all[m].recorded_at)
                        && all[m].recorded_at.no_later_than(end) ==> exists|j: int|
                        0 <= j < r@.len() && r@[j] == all[m],
            decreases all.len() - i,
        {
            let e = self.experiences[i];
            if start.is_no_later_than(&e.recorded_at) && e.recorded_at.is_no_later_than(&end) {
                let ghost old_r = r@;
                r.push(e);
                assert forall|j: int| 0 <= j < old_r.len() implies r@[j].id != e.id by {
                    let m = choose|m: int| 0 <= m < i && old_r[j] == all[m];
                    assert(r@[j] == all[m]);
                }
                assert(r@[old_r.len() as int] == all[i as int]);
                assert forall|m: int|
                    0 <= m < i + 1 && start.no_later_than(#[trigger] all[m].recorded_at)
                        && all[m].recorded_at.no_later_than(end) implies exists|j: int|
                    0 <= j < r@.len() && r@[j] == all[m] by {
                    if m < i {
                        let j = choose|j: int| 0 <= j < old_r.len() && old_r[j] == all[m];
                        assert(r@[j] == all[m]);
                    } else {
                        assert(r@[old_r.len() as int] == all[m]);
                    }
                }
                assert forall|j: int|
                    #![trigger r@[j]]
                    0 <= j < r@.len() implies exists|m: int|
                        #![trigger all[m]]
                        0 <= m < i + 1 && r@[j] == all[m] by {
                    if j < old_r.len() {
                        let m = choose|m: int| 0 <= m < i && old_r[j] == all[m];
                        assert(r@[j] == all[m]);
                    } else {
                        assert(r@[j] == all[i as int]);
                    }
                }
            }
            i = i + 1;
        }
        assert forall|j: int| 0 <= j < r@.len() implies self@.in_timeline(
            #[trigger] r@[j],
            start,
            end,
        ) by {
            let m = choose|m: int| 0 <= m < all.len() && r@[j] == all[m];
            lemma_entry_map_at(all, m);
        }
        assert forall|id: ExperienceId|
            #![trigger self@.experiences[id]]
            self@.experiences.contains_key(id) && self@.in_timeline(
                self@.experiences[id],
                start,
                end,
            ) implies exists|j: int| 0 <= j < r@.len() && r@[j] == self@.experiences[id] by {
            let m = choose|m: int| 0 <= m < all.len() && all[m].id == id;
            lemma_entry_map_at(all, m);
            assert(start.no_later_than(all[m].recorded_at));
        }
        r
    }

    /// Add a milestone; it comes after every earlier one
    pub fn add_milestone(&mut self, milestone: Milestone) -> (id: MilestoneId)
        requires
            old(self)@.identity.milestone_count < u64::MAX,
        ensures
            id == milestone.id,
            final(self)@ == old(self)@.milestone_added(milestone@),
    {
        proof {
            use_type_invariant(&*self);
        }
        let id = milestone.id;
        let ghost m = milestone@;
        let mut milestones: Vec<Milestone> = Vec::new();
        std::mem::swap(&mut milestones, &mut self.milestones);
        let ghost before = milestones@;
        milestones.push(milestone);
        assert(milestone_views(milestones@) =~= milestone_views(before).push(m));
        self.milestones = milestones;
        self.identity.milestone_count = self.identity.milestone_count + 1;
        id
    }

    /// All milestones, in the order they were added
    pub fn get_milestones(&self) -> (r: Vec<Milestone>)
        ensures
            milestone_views(r@) == self@.milestones,
    {
        copy_milestones(&self.milestones)
    }

    /// Where the checkpoint with this ID is stored, if any
    fn checkpoint_index(&self, id: CheckpointId) -> (k: Option<usize>)
        ensures
            k matches Some(i) ==> i < self.checkpoints@.len() && self.checkpoints@[i as int].id == id,
            k is None ==> !has_checkpoint(self.checkpoints@, id),
    {
        let mut i: usize = 0;
        while i < self.checkpoints.len()
            invariant
                i <= self.checkpoints@.len(),
                forall|j: int| 0 <= j < i ==> self.checkpoints@[j].id != id,
            decreases self.checkpoints.len() - i,
        {
            if self.checkpoints[i].id == id {
                return Some(i);
            }
            i = i + 1;
        }
        None
    }

    /// Save a checkpoint of the current state, under a new random ID and the
    /// current time
    pub fn create_checkpoint(&mut self) -> (id: CheckpointId)
        ensures
            is_v4_layout(id.0),
            exists|t: Timestamp| final(self)@ == old(self)@.checkpointed(id, t),
    {
        let id = CheckpointId::new();
        let now = utc_now();
        self.create_checkpoint_at(id, now);
        assert(self@ == old(self)@.checkpointed(id, now));
        id
    }

    /// Save a checkpoint of the current state under `id`, stamped
    /// `created_at`; one saved under the same ID is replaced
    pub fn create_checkpoint_at(&mut self, id: CheckpointId, created_at: Timestamp)
        ensures
            final(self)@ == old(self)@.checkpointed(id, created_at),
    {
        proof {
            use_type_invariant(&*self);
        }
        let checkpoint = Checkpoint {
            id,
            created_at,
            experience_count: self.identity.experience_count,
            milestone_count: self.identity.milestone_count,
            identity: self.identity.clone(),
            experiences: copy_all(&self.experiences),
            milestones: copy_milestones(&self.milestones),
        };
        let ghost cv = checkpoint@;
        assert(cv == old(self)@.snapshot(id, created_at));
        let found = self.checkpoint_index(id);
        let mut saved: Vec<Checkpoint> = Vec::new();
        std::mem::swap(&mut saved, &mut self.checkpoints);
        let ghost before = saved@;
        match found {
            Some(k) => {
                saved.set(k, checkpoint);
                assert forall|i: int|
                    0 <= i < before.len() && before[i].id != id implies exists|j: int|
                    0 <= j < saved@.len() && saved@[j] == before[i] by {
                    assert(saved@[i] == before[i]);
                }
                assert(has_checkpoint(saved@, id)) by {
                    assert(saved@[k as int].id == id);
                }
                assert forall|i: int|
                    0 <= i < saved@.len() && saved@[i].id != id implies has_checkpoint(
                    before,
                    saved@[i].id,
                ) by {
                    assert(before[i] == saved@[i]);
                }
            },
            None => {
                saved.push(checkpoint);
                assert forall|i: int|
                    0 <= i < before.len() && before[i].id != id implies exists|j: int|
                    0 <= j < saved@.len() && saved@[j] == before[i] by {
                    assert(saved@[i] == before[i]);
                }
                assert(has_checkpoint(saved@, id)) by {
                    assert(saved@[before.len() as int].id == id);
                }
                assert forall|i: int|
                    0 <= i < saved@.len() && saved@[i].id != id implies has_checkpoint(
                    before,
                    saved@[i].id,
                ) by {
                    assert(before[i] == saved@[i]);
                }
                assert(checkpoint_ids_distinct(saved@));
            },
        }
        proof {
            lemma_checkpoint_map_put(before, saved@, cv);
        }
        self.checkpoints = saved;
    }

    /// Return to the state saved in a checkpoint; the checkpoints stay
    pub fn restore_checkpoint(&mut self, checkpoint_id: CheckpointId) -> (r: Result<
        (),
        ContinuityError,
    >)
        ensures
            old(self)@.checkpoints.contains_key(checkpoint_id) ==> {
                &&& r is Ok
                &&& final(self)@ == old(self)@.restored(checkpoint_id)
            },
            !old(self)@.checkpoints.contains_key(checkpoint_id) ==> {
                &&& r == Err::<(), ContinuityError>(
                    ContinuityError::CheckpointNotFound { checkpoint_id },
                )
                &&& final(self)@ == old(self)@
            },
    {
        proof {
            use_type_invariant(&*self);
        }
        match self.checkpoint_index(checkpoint_id) {
            None => Err(ContinuityError::CheckpointNotFound { checkpoint_id }),
            Some(k) => {
                proof {
                    lemma_checkpoint_map_at(self.checkpoints@, k as int);
                }
                let identity = self.checkpoints[k].identity.clone();
                let entries = copy_all(&self.checkpoints[k].experiences);
                let milestones = copy_milestones(&self.checkpoints[k].milestones);
                assert(entry_ids_distinct(self.checkpoints@[k as int].experiences@));
                self.identity = identity;
                self.experiences = entries;
                self.milestones = milestones;
                Ok(())
            },
        }
    }
}

// ---------------------------------------------------------------------------
// Laws
// ---------------------------------------------------------------------------

/// The state after recording each of `es` in turn.
pub open spec fn recorded_all(s: ContinuityView, es: Seq<ExperienceEntry>) -> ContinuityView
    decreases es.len(),
{
    if es.len() == 0 {
        s
    } else {
        recorded_all(s, es.drop_last()).recorded(es.last())
    }
}

/// An experience just recorded is found under its ID, every other
/// experience is as it was, and the identity counts one more experience.
pub proof fn lemma_recorded_experience_is_found(s: ContinuityView, e: ExperienceEntry)
    requires
        s.identity.experience_count < u64::MAX,
    ensures
        s.recorded(e).experiences.contains_key(e.id),
        s.recorded(e).experiences[e.id] == e,
        forall|id: ExperienceId|
            id != e.id ==> (#[trigger] s.recorded(e).experiences.contains_key(id)
                == s.experiences.contains_key(id)) && s.recorded(e).experiences[id]
                == s.experiences[id],
        s.recorded(e).identity.experience_count == s.identity.experience_count + 1,
        s.recorded(e).identity.milestone_count == s.identity.milestone_count,
{
}

/// A milestone just added comes last, after all earlier ones in their order,
/// and the identity counts one more milestone.
pub proof fn lemma_added_milestone_comes_last(s: ContinuityView, m: MilestoneView)
    requires
        s.identity.milestone_count < u64::MAX,
    ensures
        s.milestone_added(m).milestones.len() == s.milestones.len() + 1,
        s.milestone_added(m).milestones.last() == m,
        s.milestone_added(m).milestones.drop_last() == s.milestones,
        s.milestone_added(m).identity.milestone_count == s.identity.milestone_count + 1,
{
    assert(s.milestone_added(m).milestones.drop_last() =~= s.milestones);
}

/// Saving a checkpoint changes nothing but the checkpoints, and the new one
/// holds the identity, experiences and milestones of the moment.
pub proof fn lemma_checkpoint_keeps_state(s: ContinuityView, id: CheckpointId, t: Timestamp)
    ensures
        s.checkpointed(id, t).identity == s.identity,
        s.checkpointed(id, t).experiences == s.experiences,
        s.checkpointed(id, t).milestones == s.milestones,
        s.checkpointed(id, t).checkpoints.contains_key(id),
        s.checkpointed(id, t).checkpoints[id].experience_count == s.identity.experience_count,
        s.checkpointed(id, t).checkpoints[id].milestone_count == s.identity.milestone_count,
{
}

/// Restoring a checkpoint brings back the identity, experiences and
/// milestones of the moment it was saved, whatever happened in between, and
/// keeps all checkpoints.
pub proof fn lemma_restore_returns_to_checkpoint(
    s: ContinuityView,
    id: CheckpointId,
    t: Timestamp,
    later: ContinuityView,
)
    requires
        later.checkpoints.contains_key(id),
        later.checkpoints[id] == s.snapshot(id, t),
    ensures
        later.restored(id).identity == s.identity,
        later.restored(id).experiences == s.experiences,
        later.restored(id).milestones == s.milestones,
        later.restored(id).checkpoints == later.checkpoints,
{
}

/// Recording experiences leaves the checkpoints and milestones alone.
pub proof fn lemma_records_keep_checkpoints(s: ContinuityView, es: Seq<ExperienceEntry>)
    ensures
        recorded_all(s, es).checkpoints == s.checkpoints,
        recorded_all(s, es).milestones == s.milestones,
    decreases es.len(),
{
    if es.len() > 0 {
        lemma_records_keep_checkpoints(s, es.drop_last());
    }
}

/// Experiences recorded after a checkpoint was saved are gone once it is
/// restored: identity (with its counts), experiences and milestones are
/// those of the moment it was saved.
pub proof fn lemma_restore_undoes_later_records(
    s: ContinuityView,
    id: CheckpointId,
    t: Timestamp,
    es: Seq<ExperienceEntry>,
)
    ensures
        recorded_all(s.checkpointed(id, t), es).restored(id).identity == s.identity,
        recorded_all(s.checkpointed(id, t), es).restored(id).experiences == s.experiences,
        recorded_all(s.checkpointed(id, t), es).restored(id).milestones == s.milestones,
{
    lemma_records_keep_checkpoints(s.checkpointed(id, t), es);
    lemma_restore_returns_to_checkpoint(s, id, t, recorded_all(s.checkpointed(id, t), es));
}

} // verus!
