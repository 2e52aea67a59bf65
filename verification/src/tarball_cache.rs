use crate::index::ExtractionIndex;
use crate::tarball::TarballError;
use crate::text_map::TextMap;
use vstd::prelude::*;

verus! {

/// What the cache knows of one tarball.
#[derive(Debug, Clone, PartialEq, Eq)]
pub enum CacheValue {
    /// Somebody is fetching and unpacking it.
    InProgress,
    /// It was unpacked; this is its index.
    Available(ExtractionIndex),
    /// Fetching or unpacking it failed, for good.
    Failed(TarballError),
}

/// What a caller who asks for a tarball has to do.
#[derive(Debug, Clone, Copy, PartialEq, Eq, Structural)]
pub enum Decision {
    /// Nobody has asked before: fetch and unpack it, then report the outcome.
    Start,
    /// Somebody else is at it: wait for the outcome.
    Wait,
    /// It is there: take the index.
    Ready,
    /// It failed before: take the error.
    Poisoned,
}

/// The state of a cache: what is known of each integrity that was asked for.
pub type CacheState = Map<Seq<char>, CacheValue>;

/// The decision for a caller who asks for `key`.
pub open spec fn decision_for(cache: CacheState, key: Seq<char>) -> Decision {
    if !cache.dom().contains(key) {
        Decision::Start
    } else {
        match cache[key] {
            CacheValue::InProgress => Decision::Wait,
            CacheValue::Available(_) => Decision::Ready,
            CacheValue::Failed(_) => Decision::Poisoned,
        }
    }
}

/// The cache after somebody asked for `key`: a key that is asked for the first
/// time is marked as in progress, before any work on it starts.
pub open spec fn after_request(cache: CacheState, key: Seq<char>) -> CacheState {
    if cache.dom().contains(key) {
        cache
    } else {
        cache.insert(key, CacheValue::InProgress)
    }
}

/// What an outcome is remembered as.
pub open spec fn settled(outcome: Result<ExtractionIndex, TarballError>) -> CacheValue {
    match outcome {
        Ok(index) => CacheValue::Available(index),
        Err(error) => CacheValue::Failed(error),
    }
}

/// The cache after the work on `key` ended with `outcome`. An outcome for a
/// key that is not in progress changes nothing.
pub open spec fn after_completion(
    cache: CacheState,
    key: Seq<char>,
    outcome: Result<ExtractionIndex, TarballError>,
) -> CacheState {
    if cache.dom().contains(key) && cache[key] is InProgress {
        cache.insert(key, settled(outcome))
    } else {
        cache
    }
}

/// Something that happens to a cache.
pub enum CacheEvent {
    /// A caller asks for the tarball with integrity `key`.
    Request { key: Seq<char> },
    /// The work on `key` ended with `outcome`.
    Completion { key: Seq<char>, outcome: Result<ExtractionIndex, TarballError> },
}

/// The cache after one event.
pub open spec fn after_event(cache: CacheState, event: CacheEvent) -> CacheState {
    match event {
        CacheEvent::Request { key } => after_request(cache, key),
        CacheEvent::Completion { key, outcome } => after_completion(cache, key, outcome),
    }
}

/// The cache after a run of events.
pub open spec fn after_events(cache: CacheState, events: Seq<CacheEvent>) -> CacheState
    decreases events.len(),
{
    if events.len() == 0 {
        cache
    } else {
        after_event(after_events(cache, events.drop_last()), events.last())
    }
}

/// Whether an event, met by a cache, makes its caller start the work on `key`.
pub open spec fn starts_work(cache: CacheState, event: CacheEvent, key: Seq<char>) -> bool {
    event == (CacheEvent::Request { key }) && decision_for(cache, key) == Decision::Start
}

/// How often, over a run of events, a caller is told to start the work on `key`.
pub open spec fn starts(cache: CacheState, events: Seq<CacheEvent>, key: Seq<char>) -> nat
    decreases events.len(),
{
    if events.len() == 0 {
        0
    } else {
        let before = starts(cache, events.drop_last(), key);
        if starts_work(after_events(cache, events.drop_last()), events.last(), key) {
            before + 1
        } else {
            before
        }
    }
}

/// Whether somebody asks for `key` in a run of events.
pub open spec fn asked_for(events: Seq<CacheEvent>, key: Seq<char>) -> bool {
    exists|i: int| 0 <= i < events.len() && events[i] == (CacheEvent::Request { key })
}

/// A key that the cache knows stays known, whatever happens.
pub proof fn lemma_known_stays_known(cache: CacheState, events: Seq<CacheEvent>, key: Seq<char>)
    requires
        cache.dom().contains(key),
    ensures
        after_events(cache, events).dom().contains(key),
        starts(cache, events, key) == 0,
    decreases events.len(),
{
    if events.len() > 0 {
        lemma_known_stays_known(cache, events.drop_last(), key);
    }
}

/// At most one fetch: over any run of requests and completions, in any
/// order and for any keys, the work on one key is started at most once. It is
/// started exactly once if the key is new to the cache and somebody asks for
/// it, and after that the key is known.
pub proof fn lemma_at_most_one_fetch(cache: CacheState, events: Seq<CacheEvent>, key: Seq<char>)
    ensures
        starts(cache, events, key) <= 1,
        cache.dom().contains(key) ==> starts(cache, events, key) == 0,
        !cache.dom().contains(key) ==> (starts(cache, events, key) == 1 <==> asked_for(events, key)),
        after_events(cache, events).dom().contains(key) <==> cache.dom().contains(key)
            || asked_for(events, key),
    decreases events.len(),
{
    if cache.dom().contains(key) {
        lemma_known_stays_known(cache, events, key);
    } else if events.len() > 0 {
        let earlier = events.drop_last();
        lemma_at_most_one_fetch(cache, earlier, key);
        if asked_for(events, key) {
            let i = choose|i: int| 0 <= i < events.len() && events[i] == (CacheEvent::Request { key });
            if i < earlier.len() {
                assert(earlier[i] == events[i]);
            }
        }
    }
}

/// An outcome that the cache holds for a key stays as it is, whatever
/// happens: every caller who is told that the tarball is ready is given the
/// same index, and every caller who is told that it failed the same error.
pub proof fn lemma_outcome_is_final(cache: CacheState, events: Seq<CacheEvent>, key: Seq<char>)
    requires
        cache.dom().contains(key),
        !(cache[key] is InProgress),
    ensures
        after_events(cache, events).dom().contains(key),
        after_events(cache, events)[key] == cache[key],
    decreases events.len(),
{
    if events.len() > 0 {
        lemma_outcome_is_final(cache, events.drop_last(), key);
    }
}

/// The tarballs of one install, by their integrity. It makes sure that each
/// is fetched and unpacked by one caller only, and that all callers see the
/// same outcome.
#[derive(Debug, Clone, PartialEq, Eq)]
pub struct TarballCache {
    values: TextMap<CacheValue>,
}

impl View for TarballCache {
    type V = CacheState;

    closed spec fn view(&self) -> CacheState {
        self.values@
    }
}

impl TarballCache {
    /// A cache that knows no tarball.
    pub fn new() -> (cache: TarballCache)
        ensures
            cache@ == Map::<Seq<char>, CacheValue>::empty(),
    {
        TarballCache { values: TextMap::new() }
    }

    /// What the cache knows of the tarball with integrity `key`.
    pub fn get(&self, key: &str) -> (value: Option<&CacheValue>)
        ensures
            value is Some <==> self@.dom().contains(key@),
            value matches Some(known) ==> *known == self@[key@],
    {
        self.values.get(key)
    }

    /// Asks for the tarball with integrity `key`, and tells the caller what
    /// to do. The first caller for a key is told to start, and the key is
    /// marked as in progress in the same step.
    pub fn request(&mut self, key: &str) -> (decision: Decision)
        ensures
            decision == decision_for(old(self)@, key@),
            final(self)@ == after_request(old(self)@, key@),
    {
        let decision = match self.values.get(key) {
            None => Decision::Start,
            Some(CacheValue::InProgress) => Decision::Wait,
            Some(CacheValue::Available(_)) => Decision::Ready,
            Some(CacheValue::Failed(_)) => Decision::Poisoned,
        };
        match decision {
            Decision::Start => {
                self.values.insert(key.to_owned(), CacheValue::InProgress);
            },
            _ => {},
        }
        decision
    }

    /// Reports how the work on `key` ended. All callers for `key`, those who
    /// wait and those who come later, see this outcome.
    pub fn complete(&mut self, key: &str, outcome: Result<ExtractionIndex, TarballError>)
        ensures
            final(self)@ == after_completion(old(self)@, key@, outcome),
    {
        let in_progress = match self.values.get(key) {
            Some(CacheValue::InProgress) => true,
            _ => false,
        };
        if in_progress {
            let value = match outcome {
                Ok(index) => CacheValue::Available(index),
                Err(error) => CacheValue::Failed(error),
            };
            self.values.insert(key.to_owned(), value);
        }
    }
}

} // verus!
