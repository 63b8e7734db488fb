//! Thought assembly - Construção do Pensamento (Thought Construction).
//!
//! Thoughts are assembled from content and emotional coloring (salience),
//! cached for quick retrieval, and linked into chains through their parents.
//! This module holds the assembly bookkeeping: configuration, the bounded
//! cache of assembled thoughts (by identity and parent link), the lifetime
//! assembly counter, and the walk up a thought's ancestry.
use vstd::prelude::*;
use crate::cognition::types::{Content, ThoughtId};

verus! {

/// Configuration for thought assembly: caching, validation, and chain
/// traversal behavior.
#[derive(Debug)]
pub struct AssemblyConfig {
    /// Maximum number of thoughts to cache in memory
    pub cache_size: usize,
    /// Maximum depth when traversing parent chains
    pub max_chain_depth: usize,
    /// Whether to validate salience scores during assembly
    pub validate_salience: bool,
}

impl AssemblyConfig {
    /// Create a new assembly configuration
    pub fn new(cache_size: usize, max_chain_depth: usize, validate_salience: bool) -> (c: Self)
        ensures
            c.cache_size == cache_size,
            c.max_chain_depth == max_chain_depth,
            c.validate_salience == validate_salience,
    {
        AssemblyConfig { cache_size, max_chain_depth, validate_salience }
    }
}

impl Clone for AssemblyConfig {
    fn clone(&self) -> (r: Self)
        ensures
            r == *self,
    {
        AssemblyConfig {
            cache_size: self.cache_size,
            max_chain_depth: self.max_chain_depth,
            validate_salience: self.validate_salience,
        }
    }
}

impl Default for AssemblyConfig {
    /// Cache the last 100 thoughts, traverse up to 50 parent links, validate
    /// salience.
    fn default() -> (c: Self)
        ensures
            c.cache_size == 100,
            c.max_chain_depth == 50,
            c.validate_salience,
    {
        AssemblyConfig { cache_size: 100, max_chain_depth: 50, validate_salience: true }
    }
}

/// Assembly strategy
#[derive(Debug, Clone, Copy, PartialEq, Eq, Structural)]
pub enum AssemblyStrategy {
    /// No special processing
    Default,
    /// Composite content
    Composite,
    /// Linked to a parent thought
    Chain,
    /// Priority treatment (handled by the caller)
    Urgent,
}

/// Errors of thought assembly
#[derive(Debug)]
pub enum AssemblyError {
    /// The content to assemble is empty
    EmptyContent,
    /// A salience component is out of range
    InvalidSalience { reason: String },
    /// The thought is not in the cache
    ThoughtNotFound { thought_id: ThoughtId },
    /// The requested chain depth exceeds the configured maximum
    ChainTooDeep { max_depth: usize },
}

/// An assembled thought as the cache knows it: its identity and the thought
/// that led to it.
#[derive(Debug, Clone, Copy, PartialEq, Eq, Structural)]
pub struct ThoughtLink {
    pub id: ThoughtId,
    pub parent_id: Option<ThoughtId>,
}

/// No thought identity occurs twice.
pub open spec fn distinct_ids(s: Seq<ThoughtLink>) -> bool {
    forall|i: int, j: int| 0 <= i < s.len() && 0 <= j < s.len() && i != j ==> s[i].id != s[j].id
}

/// Whether a thought is among the links.
pub open spec fn holds_id(s: Seq<ThoughtLink>, id: ThoughtId) -> bool {
    exists|i: int| 0 <= i < s.len() && s[i].id == id
}

/// The cached link of a thought, if it is cached.
pub open spec fn link_for(s: Seq<ThoughtLink>, id: ThoughtId) -> Option<ThoughtLink> {
    if holds_id(s, id) {
        Some(s[choose|i: int| 0 <= i < s.len() && s[i].id == id])
    } else {
        None
    }
}

/// Bounded cache of recently assembled thoughts, oldest first. When full,
/// inserting a new thought evicts the oldest one.
#[derive(Debug)]
pub struct ThoughtCache {
    capacity: usize,
    entries: Vec<ThoughtLink>,
}

impl View for ThoughtCache {
    type V = Seq<ThoughtLink>;

    closed spec fn view(&self) -> Seq<ThoughtLink> {
        self.entries@
    }
}

impl ThoughtCache {
    #[verifier::type_invariant]
    spec fn inv(self) -> bool {
        &&& self.entries@.len() <= self.capacity
        &&& distinct_ids(self.entries@)
    }

    /// The most thoughts the cache holds
    pub closed spec fn spec_capacity(&self) -> usize {
        self.capacity
    }

    /// An empty cache holding at most `capacity` thoughts
    pub fn new(capacity: usize) -> (c: Self)
        ensures
            c@ == Seq::<ThoughtLink>::empty(),
            c.spec_capacity() == capacity,
    {
        ThoughtCache { capacity, entries: Vec::new() }
    }

    /// Number of cached thoughts; never more than the capacity
    pub fn len(&self) -> (n: usize)
        ensures
            n == self@.len(),
            n <= self.spec_capacity(),
    {
        proof {
            use_type_invariant(self);
        }
        self.entries.len()
    }

    /// The most thoughts the cache holds
    pub fn capacity(&self) -> (n: usize)
        ensures
            n == self.spec_capacity(),
    {
        self.capacity
    }

    /// Position of a thought in the cache
    fn index_of(&self, id: ThoughtId) -> (r: Option<usize>)
        ensures
            match r {
                Some(k) => k < self@.len() && self@[k as int].id == id,
                None => !holds_id(self@, id),
            },
    {
        let mut k: usize = 0;
        while k < self.entries.len()
            invariant
                k <= self.entries@.len(),
                forall|i: int| 0 <= i < k ==> self.entries@[i].id != id,
            decreases self.entries.len() - k,
        {
            if self.entries[k].id == id {
                return Some(k);
            }
            k = k + 1;
        }
        None
    }

    /// The cached link of a thought
    pub fn get(&self, id: ThoughtId) -> (r: Option<ThoughtLink>)
        ensures
            r == link_for(self@, id),
    {
        proof {
            use_type_invariant(self);
        }
        match self.index_of(id) {
            Some(k) => {
                let ghost j = choose|i: int| 0 <= i < self@.len() && self@[i].id == id;
                assert(j == k as int);
                Some(self.entries[k])
            },
            None => None,
        }
    }

    /// Cache a thought. A thought already cached gets its link replaced in
    /// place. Otherwise the link is appended; if the cache is full, the
    /// oldest thought is evicted first (with capacity zero nothing is kept).
    /// Returns the identity of the thought that is no longer cached, if any.
    pub fn insert(&mut self, link: ThoughtLink) -> (evicted: Option<ThoughtId>)
        ensures
            final(self).spec_capacity() == old(self).spec_capacity(),
            holds_id(old(self)@, link.id) ==> {
                &&& evicted is None
                &&& final(self)@.len() == old(self)@.len()
                &&& forall|i: int|
                    0 <= i < old(self)@.len() ==> final(self)@[i] == (if old(self)@[i].id
                        == link.id {
                        link
                    } else {
                        old(self)@[i]
                    })
            },
            !holds_id(old(self)@, link.id) && old(self).spec_capacity() == 0 ==> {
                &&& evicted == Some(link.id)
                &&& final(self)@ == old(self)@
            },
            !holds_id(old(self)@, link.id) && 0 < old(self).spec_capacity() && old(self)@.len()
                < old(self).spec_capacity() ==> {
                &&& evicted is None
                &&& final(self)@ == old(self)@.push(link)
            },
            !holds_id(old(self)@, link.id) && 0 < old(self).spec_capacity() && old(self)@.len()
                == old(self).spec_capacity() ==> {
                &&& evicted == Some(old(self)@[0].id)
                &&& final(self)@ == old(self)@.drop_first().push(link)
            },
    {
        proof {
            use_type_invariant(&*self);
        }
        let mut entries: Vec<ThoughtLink> = Vec::new();
        std::mem::swap(&mut entries, &mut self.entries);
        let ghost before = entries@;
        assert(before == old(self)@);
        let mut k: usize = 0;
        let mut found = false;
        while k < entries.len()
            invariant
                entries@ == before,
                k <= entries@.len(),
                forall|i: int| 0 <= i < k ==> entries@[i].id != link.id,
                found ==> k < entries@.len() && entries@[k as int].id == link.id,
            ensures
                entries@ == before,
                forall|i: int| 0 <= i < k ==> entries@[i].id != link.id,
                found ==> k < entries@.len() && entries@[k as int].id == link.id,
                !found ==> k == entries@.len(),
            decreases entries.len() - k + (if found { 0int } else { 1int }),
        {
            if entries[k].id == link.id {
                found = true;
                break;
            }
            k = k + 1;
        }
        let evicted = if found {
            entries.set(k, link);
            assert forall|i: int|
                0 <= i < before.len() implies entries@[i] == (if before[i].id == link.id {
                link
            } else {
                before[i]
            }) by {
                if before[i].id == link.id {
                    assert(i == k as int);
                }
            }
            assert(distinct_ids(entries@));
            None
        } else {
            assert(!holds_id(before, link.id));
            if self.capacity == 0 {
                Some(link.id)
            } else if entries.len() < self.capacity {
                entries.push(link);
                assert(distinct_ids(entries@));
                None
            } else {
                let oldest = entries.remove(0);
                entries.push(link);
                assert(entries@ =~= before.drop_first().push(link));
                assert(distinct_ids(entries@));
                Some(oldest.id)
            }
        };
        self.entries = entries;
        evicted
    }
}

/// Prepend thoughts already walked to the rest of a chain walk.
pub open spec fn prepend_walked(
    walked: Seq<ThoughtId>,
    rest: Result<Seq<ThoughtId>, ThoughtId>,
) -> Result<Seq<ThoughtId>, ThoughtId> {
    match rest {
        Ok(tail) => Ok(walked + tail),
        Err(missing) => Err(missing),
    }
}

/// Walk up the ancestry of `id` through the cached links, taking at most
/// `depth` thoughts: `Ok` with the thoughts from `id` towards the root, or
/// `Err` with the first thought on the way that is not cached.
pub open spec fn chain_walk(s: Seq<ThoughtLink>, id: ThoughtId, depth: nat) -> Result<
    Seq<ThoughtId>,
    ThoughtId,
>
    decreases depth,
{
    if depth == 0 {
        Ok(Seq::empty())
    } else {
        match link_for(s, id) {
            None => Err(id),
            Some(link) => match link.parent_id {
                None => Ok(seq![id]),
                Some(parent) => prepend_walked(seq![id], chain_walk(s, parent, (depth - 1) as nat)),
            },
        }
    }
}

/// The cached link of a cached thought is its own.
pub proof fn lemma_link_for_is_own(s: Seq<ThoughtLink>, id: ThoughtId)
    requires
        link_for(s, id) is Some,
    ensures
        link_for(s, id)->Some_0.id == id,
{
}

/// A chain walk holds at most `depth` thoughts, starts at the thought asked
/// for, and follows cached parent links: each thought's cached parent is
/// the next thought of the chain.
pub proof fn lemma_chain_shape(s: Seq<ThoughtLink>, id: ThoughtId, depth: nat)
    ensures
        chain_walk(s, id, depth) is Ok ==> {
            let c = chain_walk(s, id, depth)->Ok_0;
            &&& c.len() <= depth
            &&& depth > 0 ==> c.len() > 0 && c[0] == id
            &&& forall|i: int|
                0 <= i < c.len() - 1 ==> #[trigger] link_for(s, c[i]) == Some(
                    ThoughtLink { id: c[i], parent_id: Some(c[i + 1]) },
                )
        },
    decreases depth,
{
    if depth > 0 {
        match link_for(s, id) {
            None => {},
            Some(link) => {
                lemma_link_for_is_own(s, id);
                match link.parent_id {
                    None => {},
                    Some(parent) => {
                        lemma_chain_shape(s, parent, (depth - 1) as nat);
                        match chain_walk(s, parent, (depth - 1) as nat) {
                            Ok(tail) => {
                                let c = seq![id] + tail;
                                assert(chain_walk(s, id, depth)->Ok_0 == c);
                                assert forall|i: int| 0 <= i < c.len() - 1 implies #[trigger] link_for(
                                    s,
                                    c[i],
                                ) == Some(ThoughtLink { id: c[i], parent_id: Some(c[i + 1]) }) by {
                                    if i > 0 {
                                        assert(c[i] == tail[i - 1]);
                                        assert(c[i + 1] == tail[i]);
                                    } else {
                                        assert(depth - 1 > 0 ==> tail[0] == parent);
                                        if depth - 1 == 0 {
                                            assert(tail.len() == 0);
                                        }
                                    }
                                }
                            },
                            Err(_) => {},
                        }
                    },
                }
            },
        }
    }
}

/// A chain holds cached thoughts only: every thought of a chain that was
/// found is cached, a chain that fails names a thought that is not cached,
/// and a walk of positive depth that starts at a thought not cached fails
/// with that thought.
pub proof fn lemma_chain_only_cached(s: Seq<ThoughtLink>, id: ThoughtId, depth: nat)
    ensures
        depth > 0 && link_for(s, id) is None ==> chain_walk(s, id, depth) == Err::<
            Seq<ThoughtId>,
            ThoughtId,
        >(id),
        chain_walk(s, id, depth) matches Ok(c) ==> forall|i: int|
            0 <= i < c.len() ==> (#[trigger] link_for(s, c[i])) is Some,
        chain_walk(s, id, depth) matches Err(m) ==> link_for(s, m) is None,
    decreases depth,
{
    if depth > 0 {
        match link_for(s, id) {
            None => {},
            Some(link) => {
                match link.parent_id {
                    None => {},
                    Some(parent) => {
                        lemma_chain_only_cached(s, parent, (depth - 1) as nat);
                        match chain_walk(s, parent, (depth - 1) as nat) {
                            Ok(tail) => {
                                let c = seq![id] + tail;
                                assert(chain_walk(s, id, depth) == Ok::<Seq<ThoughtId>, ThoughtId>(c));
                                assert forall|i: int| 0 <= i < c.len() implies (#[trigger] link_for(
                                    s,
                                    c[i],
                                )) is Some by {
                                    if i > 0 {
                                        assert(c[i] == tail[i - 1]);
                                    }
                                }
                            },
                            Err(_) => {},
                        }
                    },
                }
            },
        }
    }
}

/// Link of the `i`-th thought of an ancestry path: its parent is the next
/// thought of the path, and the last thought of the path is a root.
pub open spec fn path_link(path: Seq<ThoughtId>, i: int) -> ThoughtLink {
    ThoughtLink {
        id: path[i],
        parent_id: if i + 1 < path.len() {
            Some(path[i + 1])
        } else {
            None
        },
    }
}

/// A chain is as long as the lesser of the depth asked for and the ancestry
/// path: when `path` runs from `id` through its parents up to a root, and
/// the first `depth` thoughts of the path are cached with those parents, the
/// walk gives the first `min(depth, path.len())` thoughts of the path.
pub proof fn lemma_chain_length(s: Seq<ThoughtLink>, id: ThoughtId, depth: nat, path: Seq<
    ThoughtId,
>)
    requires
        path.len() > 0,
        path[0] == id,
        forall|i: int|
            0 <= i < path.len() && i < depth ==> link_for(s, #[trigger] path[i]) == Some(
                path_link(path, i),
            ),
    ensures
        chain_walk(s, id, depth) == Ok::<Seq<ThoughtId>, ThoughtId>(
            path.take(if depth < path.len() { depth as int } else { path.len() as int }),
        ),
    decreases depth,
{
    if depth == 0 {
        assert(path.take(0) =~= Seq::<ThoughtId>::empty());
    } else {
        assert(link_for(s, path[0]) == Some(path_link(path, 0)));
        if path.len() == 1 {
            assert(path.take(1) =~= seq![id]);
        } else {
            let rest = path.drop_first();
            assert forall|i: int| 0 <= i < rest.len() && i < depth - 1 implies link_for(
                s,
                #[trigger] rest[i],
            ) == Some(path_link(rest, i)) by {
                assert(rest[i] == path[i + 1]);
                assert(link_for(s, path[i + 1]) == Some(path_link(path, i + 1)));
                assert(path_link(path, i + 1) == path_link(rest, i));
            }
            lemma_chain_length(s, path[1], (depth - 1) as nat, rest);
            assert(path_link(path, 0).parent_id == Some(path[1]));
            let k: int = if depth - 1 < rest.len() { depth - 1 } else { rest.len() as int };
            assert(seq![id] + rest.take(k) =~= path.take(
                if depth < path.len() { depth as int } else { path.len() as int },
            ));
        }
    }
}

/// Assembly state: the cache of assembled thoughts, the lifetime assembly
/// counter and the configuration.
#[derive(Debug)]
pub struct ThoughtState {
    /// Cache of recently assembled thoughts
    pub cache: ThoughtCache,
    /// Total number of thoughts assembled (lifetime counter)
    pub assembly_count: u64,
    /// Configuration for this instance
    pub config: AssemblyConfig,
}

impl ThoughtState {
    /// The cached thoughts, oldest first
    pub open spec fn cached(&self) -> Seq<ThoughtLink> {
        self.cache@
    }

    /// How many thoughts the cache keeps
    pub open spec fn cache_capacity(&self) -> usize {
        self.cache.spec_capacity()
    }

    /// New state with the default configuration
    pub fn new() -> (s: Self)
        ensures
            s.assembly_count == 0,
            s.config.cache_size == 100,
            s.config.max_chain_depth == 50,
            s.config.validate_salience,
            s.cached() == Seq::<ThoughtLink>::empty(),
            s.cache_capacity() == 100,
    {
        Self::with_config(AssemblyConfig::default())
    }

    /// New state with a custom configuration; the cache keeps
    /// `config.cache_size` thoughts.
    pub fn with_config(config: AssemblyConfig) -> (s: Self)
        ensures
            s.assembly_count == 0,
            s.config == config,
            s.cached() == Seq::<ThoughtLink>::empty(),
            s.cache_capacity() == config.cache_size,
    {
        ThoughtState { cache: ThoughtCache::new(config.cache_size), assembly_count: 0, config }
    }

    /// First check of assembly: content must not be empty.
    pub fn check_content(&self, content: &Content) -> (r: Result<(), AssemblyError>)
        ensures
            content@ is Empty ==> r == Err::<(), AssemblyError>(AssemblyError::EmptyContent),
            !(content@ is Empty) ==> r is Ok,
    {
        if content.is_empty() {
            Err(AssemblyError::EmptyContent)
        } else {
            Ok(())
        }
    }

    /// Strategy-specific processing of an assembled thought. No strategy
    /// changes the thought or fails: the parent link is already set, and a
    /// parent missing from the cache is no error.
    pub fn apply_strategy(&self, parent_id: Option<ThoughtId>, strategy: AssemblyStrategy) -> (r:
        Result<(), AssemblyError>)
        ensures
            r is Ok,
    {
        match strategy {
            AssemblyStrategy::Chain => {
                match parent_id {
                    Some(p) => {
                        let _in_cache = self.cache.get(p).is_some();
                    },
                    None => {},
                }
                Ok(())
            },
            _ => Ok(()),
        }
    }

    /// Record an assembled thought: cache its link and count it. Returns
    /// the thought that is no longer cached, if any.
    pub fn record_thought(&mut self, id: ThoughtId, parent_id: Option<ThoughtId>) -> (evicted:
        Option<ThoughtId>)
        requires
            old(self).assembly_count < u64::MAX,
        ensures
            final(self).assembly_count == old(self).assembly_count + 1,
            final(self).config == old(self).config,
            final(self).cache_capacity() == old(self).cache_capacity(),
            (link_for(final(self).cached(), id) == Some(ThoughtLink { id, parent_id }))
                <==> (final(self).cache_capacity() > 0),
            holds_id(old(self).cached(), id) ==> evicted is None,
            !holds_id(old(self).cached(), id) && old(self).cache_capacity() == 0 ==> evicted
                == Some(id),
            !holds_id(old(self).cached(), id) && 0 < old(self).cache_capacity()
                && old(self).cached().len() < old(self).cache_capacity() ==> {
                &&& evicted is None
                &&& final(self).cached() == old(self).cached().push(ThoughtLink { id, parent_id })
            },
            !holds_id(old(self).cached(), id) && 0 < old(self).cache_capacity()
                && old(self).cached().len() == old(self).cache_capacity() ==> {
                &&& evicted == Some(old(self).cached()[0].id)
                &&& final(self).cached() == old(self).cached().drop_first().push(
                    ThoughtLink { id, parent_id },
                )
            },
    {
        let link = ThoughtLink { id, parent_id };
        proof {
            use_type_invariant(&self.cache);
        }
        let evicted = self.cache.insert(link);
        proof {
            use_type_invariant(&self.cache);
            let s = self.cache@;
            if self.cache.spec_capacity() > 0 {
                let k = choose|i: int| 0 <= i < s.len() && s[i].id == id;
                assert(s.len() > 0);
                if holds_id(old(self).cached(), id) {
                    let j = choose|i: int|
                        0 <= i < old(self).cached().len() && old(self).cached()[i].id == id;
                    assert(s[j] == link);
                } else {
                    assert(s[s.len() - 1] == link);
                }
                assert(holds_id(s, id));
                assert(s[k] == link);
            } else {
                assert(!holds_id(s, id));
            }
        }
        self.assembly_count = self.assembly_count + 1;
        evicted
    }

    /// Retrieve a thought's link from the cache
    pub fn get_thought(&self, thought_id: &ThoughtId) -> (r: Result<ThoughtLink, AssemblyError>)
        ensures
            match link_for(self.cached(), *thought_id) {
                Some(link) => r == Ok::<ThoughtLink, AssemblyError>(link),
                None => r == Err::<ThoughtLink, AssemblyError>(
                    AssemblyError::ThoughtNotFound { thought_id: *thought_id },
                ),
            },
    {
        match self.cache.get(*thought_id) {
            Some(link) => Ok(link),
            None => Err(AssemblyError::ThoughtNotFound { thought_id: *thought_id }),
        }
    }

    /// Get a thought chain: the thought and its ancestry, walking up parent
    /// links, at most `depth` thoughts. A depth beyond the configured
    /// maximum is refused; a thought on the way that is not cached is
    /// reported as not found.
    pub fn get_thought_chain(&self, thought_id: ThoughtId, depth: usize) -> (r: Result<
        Vec<ThoughtId>,
        AssemblyError,
    >)
        ensures
            depth > self.config.max_chain_depth ==> r == Err::<Vec<ThoughtId>, AssemblyError>(
                AssemblyError::ChainTooDeep { max_depth: self.config.max_chain_depth },
            ),
            depth <= self.config.max_chain_depth ==> match chain_walk(
                self.cached(),
                thought_id,
                depth as nat,
            ) {
                Ok(chain) => r is Ok && r->Ok_0@ == chain,
                Err(missing) => r == Err::<Vec<ThoughtId>, AssemblyError>(
                    AssemblyError::ThoughtNotFound { thought_id: missing },
                ),
            },
            depth <= self.config.max_chain_depth && depth > 0 && link_for(self.cached(), thought_id)
                is None ==> r == Err::<Vec<ThoughtId>, AssemblyError>(
                AssemblyError::ThoughtNotFound { thought_id },
            ),
            r matches Ok(chain) ==> forall|i: int|
                0 <= i < chain@.len() ==> (#[trigger] link_for(self.cached(), chain@[i])) is Some,
            r matches Err(AssemblyError::ThoughtNotFound { thought_id: missing }) ==> link_for(
                self.cached(),
                missing,
            ) is None,
    {
        proof {
            lemma_chain_only_cached(self.cached(), thought_id, depth as nat);
        }
        self.walk_chain(thought_id, depth)
    }

    /// The walk behind `get_thought_chain`.
    fn walk_chain(&self, thought_id: ThoughtId, depth: usize) -> (r: Result<
        Vec<ThoughtId>,
        AssemblyError,
    >)
        ensures
            depth > self.config.max_chain_depth ==> r == Err::<Vec<ThoughtId>, AssemblyError>(
                AssemblyError::ChainTooDeep { max_depth: self.config.max_chain_depth },
            ),
            depth <= self.config.max_chain_depth ==> match chain_walk(
                self.cached(),
                thought_id,
                depth as nat,
            ) {
                Ok(chain) => r is Ok && r->Ok_0@ == chain,
                Err(missing) => r == Err::<Vec<ThoughtId>, AssemblyError>(
                    AssemblyError::ThoughtNotFound { thought_id: missing },
                ),
            },
    {
        if depth > self.config.max_chain_depth {
            return Err(AssemblyError::ChainTooDeep { max_depth: self.config.max_chain_depth });
        }
        let mut chain: Vec<ThoughtId> = Vec::new();
        let mut current_id = thought_id;
        let mut remaining_depth = depth;
        loop
            invariant
                depth <= self.config.max_chain_depth,
                remaining_depth <= depth,
                chain_walk(self.cached(), thought_id, depth as nat) == prepend_walked(
                    chain@,
                    chain_walk(self.cached(), current_id, remaining_depth as nat),
                ),
            decreases remaining_depth,
        {
            if remaining_depth == 0 {
                assert(chain@ + Seq::<ThoughtId>::empty() =~= chain@);
                return Ok(chain);
            }
            let thought = match self.get_thought(&current_id) {
                Ok(link) => link,
                Err(e) => {
                    return Err(e);
                },
            };
            let ghost before = chain@;
            chain.push(thought.id);
            match thought.parent_id {
                Some(parent_id) => {
                    proof {
                        let rest = chain_walk(
                            self.cached(),
                            parent_id,
                            (remaining_depth - 1) as nat,
                        );
                        match rest {
                            Ok(tail) => {
                                assert(before + (seq![current_id] + tail) =~= chain@ + tail);
                            },
                            Err(_) => {},
                        }
                    }
                    current_id = parent_id;
                    remaining_depth = remaining_depth - 1;
                },
                None => {
                    assert(before + seq![current_id] =~= chain@);
                    return Ok(chain);
                },
            }
        }
    }
}

impl Default for ThoughtState {
    /// Same as `new`
    fn default() -> (s: Self)
        ensures
            s.assembly_count == 0,
            s.config.cache_size == 100,
            s.config.max_chain_depth == 50,
            s.config.validate_salience,
            s.cached() == Seq::<ThoughtLink>::empty(),
            s.cache_capacity() == 100,
    {
        Self::new()
    }
}

} // verus!
