//! An on-chain event log: contracts log events under a topic; each event is
//! stored under the next id and indexed by topic and by source contract, with
//! a per-topic count; once more events have been logged than the configured
//! retention, each new event drops the one that many ids before it. Indexed
//! queries page through an index, skipping events no longer stored.
use std::collections::HashMap;
use soroban_sdk::Val;
use vstd::prelude::*;

verus! {

broadcast use vstd::std_specs::hash::group_hash_axioms;

/// An account or contract address, identified by a number.
pub type AccountId = u64;

/// A symbol (an event topic), identified by a number.
pub type SymbolId = u64;

/// An event's payload, a host value.
#[verifier::external_type_specification]
#[verifier::external_body]
pub struct ExVal(Val);

#[derive(Clone, Copy)]
pub struct Event {
    pub id: u64,
    pub source_contract: AccountId,
    pub topic: SymbolId,
    pub data: Val,
    pub timestamp: u64,
}

#[derive(Clone, Copy, Debug, PartialEq, Eq, Structural)]
pub struct Config {
    pub max_events_retained: u32,
}

#[derive(Clone, Copy, Debug, PartialEq, Eq, Structural)]
pub enum EventLogError {
    AlreadyInitialized,
    NotInitialized,
    NotAdmin,
}

/// The contract's storage.
pub struct EventLoggingContract {
    pub admin: Option<AccountId>,
    pub config: Option<Config>,
    pub event_count: Option<u64>,
    pub events: HashMap<u64, Event>,
    pub topic_index: HashMap<SymbolId, Vec<u64>>,
    pub contract_index: HashMap<AccountId, Vec<u64>>,
    pub analytics: HashMap<SymbolId, u64>,
}

/// The ids in `s` increase strictly and none exceeds `bound`.
pub open spec fn ascending_upto(s: Seq<u64>, bound: u64) -> bool {
    &&& forall|i: int, j: int| 0 <= i < j < s.len() ==> s[i] < s[j]
    &&& forall|i: int| 0 <= i < s.len() ==> s[i] <= bound
}

/// The stored events among the ids `ids`, in order.
pub open spec fn present_events(events: Map<u64, Event>, ids: Seq<u64>) -> Seq<Event>
    decreases ids.len(),
{
    if ids.len() == 0 {
        Seq::empty()
    } else {
        let rest = present_events(events, ids.drop_last());
        if events.contains_key(ids.last()) {
            rest.push(events[ids.last()])
        } else {
            rest
        }
    }
}

impl EventLoggingContract {
    /// The number of events logged so far.
    pub open spec fn count(self) -> u64 {
        match self.event_count {
            Some(n) => n,
            None => 0,
        }
    }

    /// The event ids logged under each topic.
    pub open spec fn topics(self) -> Map<SymbolId, Seq<u64>> {
        Map::new(|t: SymbolId| self.topic_index@.contains_key(t), |t: SymbolId| self.topic_index@[t]@)
    }

    /// The event ids logged by each source contract.
    pub open spec fn sources(self) -> Map<AccountId, Seq<u64>> {
        Map::new(
            |c: AccountId| self.contract_index@.contains_key(c),
            |c: AccountId| self.contract_index@[c]@,
        )
    }

    /// The ids logged under `topic` (none if it was never used).
    pub open spec fn topic_ids(self, topic: SymbolId) -> Seq<u64> {
        if self.topic_index@.contains_key(topic) {
            self.topic_index@[topic]@
        } else {
            Seq::empty()
        }
    }

    /// The ids logged by `source` (none if it never logged).
    pub open spec fn source_ids(self, source: AccountId) -> Seq<u64> {
        if self.contract_index@.contains_key(source) {
            self.contract_index@[source]@
        } else {
            Seq::empty()
        }
    }

    /// The number of events logged under `topic`.
    pub open spec fn topic_count(self, topic: SymbolId) -> u64 {
        if self.analytics@.contains_key(topic) {
            self.analytics@[topic]
        } else {
            0
        }
    }

    /// Indexes list ids in the order logged, none beyond the count; a
    /// topic's count is the length of its index and at most the count.
    pub open spec fn wf(self) -> bool {
        &&& forall|t: SymbolId| #[trigger]
            self.topic_index@.contains_key(t) ==> ascending_upto(self.topic_index@[t]@, self.count())
        &&& forall|c: AccountId| #[trigger]
            self.contract_index@.contains_key(c) ==> ascending_upto(
                self.contract_index@[c]@,
                self.count(),
            )
        &&& forall|t: SymbolId| #[trigger]
            self.topic_count(t) == self.topic_ids(t).len() && self.topic_count(t) <= self.count()
    }

    /// Well-formedness depends only on the count, the indexes and the
    /// per-topic counts.
    pub proof fn lemma_wf_frame(a: Self, b: Self)
        requires
            a.wf(),
            a.event_count == b.event_count,
            a.topic_index@ == b.topic_index@,
            a.contract_index@ == b.contract_index@,
            a.analytics@ == b.analytics@,
        ensures
            b.wf(),
    {
        assert forall|t: SymbolId| #[trigger]
            b.topic_count(t) == b.topic_ids(t).len() && b.topic_count(t) <= b.count() by {
            assert(a.topic_count(t) == a.topic_ids(t).len() && a.topic_count(t) <= a.count());
        }
    }

    pub fn new() -> (r: Self)
        ensures
            r.wf(),
            r.admin is None && r.config is None && r.event_count is None,
            r.events@ == Map::<u64, Event>::empty(),
            r.topics() == Map::<SymbolId, Seq<u64>>::empty(),
            r.sources() == Map::<AccountId, Seq<u64>>::empty(),
    {
        let r = EventLoggingContract {
            admin: None,
            config: None,
            event_count: None,
            events: HashMap::new(),
            topic_index: HashMap::new(),
            contract_index: HashMap::new(),
            analytics: HashMap::new(),
        };
        assert(r.topics() =~= Map::<SymbolId, Seq<u64>>::empty());
        assert(r.sources() =~= Map::<AccountId, Seq<u64>>::empty());
        r
    }

    /// Sets the admin and the retention (once).
    pub fn initialize(&mut self, admin: AccountId, max_events_retained: u32) -> (r: Result<
        (),
        EventLogError,
    >)
        requires
            old(self).wf(),
        ensures
            final(self).wf(),
            r == (if old(self).admin is Some {
                Err::<(), EventLogError>(EventLogError::AlreadyInitialized)
            } else {
                Ok(())
            }),
            r.is_err() ==> *final(self) == *old(self),
            r.is_ok() ==> *final(self) == (Self {
                admin: Some(admin),
                config: Some(Config { max_events_retained }),
                ..*old(self)
            }),
    {
        if self.admin.is_some() {
            return Err(EventLogError::AlreadyInitialized);
        }
        let ghost s0 = *self;
        self.admin = Some(admin);
        self.config = Some(Config { max_events_retained });
        proof {
            Self::lemma_wf_frame(s0, *self);
        }
        Ok(())
    }

    /// The admin changes the retention.
    pub fn update_config(&mut self, admin: AccountId, max_events_retained: u32) -> (r: Result<
        (),
        EventLogError,
    >)
        requires
            old(self).wf(),
        ensures
            final(self).wf(),
            r == (match old(self).admin {
                None => Err::<(), EventLogError>(EventLogError::NotInitialized),
                Some(a) => if a != admin {
                    Err(EventLogError::NotAdmin)
                } else {
                    Ok(())
                },
            }),
            r.is_err() ==> *final(self) == *old(self),
            r.is_ok() ==> *final(self) == (Self {
                config: Some(Config { max_events_retained }),
                ..*old(self)
            }),
    {
        match self.admin {
            None => return Err(EventLogError::NotInitialized),
            Some(a) => {
                if a != admin {
                    return Err(EventLogError::NotAdmin);
                }
            },
        }
        let ghost s0 = *self;
        self.config = Some(Config { max_events_retained });
        proof {
            Self::lemma_wf_frame(s0, *self);
        }
        Ok(())
    }

    /// The events after storing `event` under `id` and applying the
    /// retention: with a positive retention `max` and `id > max`, the event
    /// `id - max` is dropped.
    pub open spec fn retained(events: Map<u64, Event>, id: u64, event: Event, max: u32) -> Map<u64, Event> {
        let e = events.insert(id, event);
        if max > 0 && id > max {
            e.remove((id - max) as u64)
        } else {
            e
        }
    }

    /// Logs `data` under `topic` from `source` at `now`: stores it under the
    /// next id, appends the id to the topic's and the source's indexes,
    /// counts it for the topic, and applies the retention. Returns the id
    /// (the caller publishes the event to the host).
    pub fn log_event(&mut self, now: u64, source: AccountId, topic: SymbolId, data: Val) -> (r: Result<
        u64,
        EventLogError,
    >)
        requires
            old(self).wf(),
            old(self).count() < u64::MAX,
        ensures
            final(self).wf(),
            old(self).config is None ==> r == Err::<u64, EventLogError>(EventLogError::NotInitialized)
                && *final(self) == *old(self),
            old(self).config matches Some(cfg) ==> {
                let id = (old(self).count() + 1) as u64;
                &&& r == Ok::<u64, EventLogError>(id)
                &&& final(self).event_count == Some(id)
                &&& final(self).events@ == Self::retained(
                    old(self).events@,
                    id,
                    Event { id, source_contract: source, topic, data, timestamp: now },
                    cfg.max_events_retained,
                )
                &&& final(self).topics() == old(self).topics().insert(
                    topic,
                    old(self).topic_ids(topic).push(id),
                )
                &&& final(self).sources() == old(self).sources().insert(
                    source,
                    old(self).source_ids(source).push(id),
                )
                &&& final(self).analytics@ == old(self).analytics@.insert(
                    topic,
                    (old(self).topic_count(topic) + 1) as u64,
                )
                &&& final(self).admin == old(self).admin
                &&& final(self).config == old(self).config
            },
    {
        let config = match self.config {
            Some(c) => c,
            None => return Err(EventLogError::NotInitialized),
        };
        let ghost s0 = *self;
        let id: u64 = match self.event_count {
            Some(n) => n + 1,
            None => 1,
        };
        self.event_count = Some(id);
        let event = Event { id, source_contract: source, topic, data, timestamp: now };
        self.events.insert(id, event);
        let mut tl = match self.topic_index.remove(&topic) {
            Some(l) => l,
            None => Vec::new(),
        };
        assert(tl@ == s0.topic_ids(topic));
        tl.push(id);
        self.topic_index.insert(topic, tl);
        let mut cl = match self.contract_index.remove(&source) {
            Some(l) => l,
            None => Vec::new(),
        };
        assert(cl@ == s0.source_ids(source));
        cl.push(id);
        self.contract_index.insert(source, cl);
        let c: u64 = match self.analytics.get(&topic) {
            Some(c) => *c,
            None => 0,
        };
        proof {
            assert(s0.topic_count(topic) == c);
            assert(c <= s0.count());
        }
        self.analytics.insert(topic, c + 1);
        if config.max_events_retained > 0 && id > config.max_events_retained as u64 {
            self.events.remove(&(id - config.max_events_retained as u64));
        }
        proof {
            assert(self.topics() =~= s0.topics().insert(topic, s0.topic_ids(topic).push(id)));
            assert(self.sources() =~= s0.sources().insert(source, s0.source_ids(source).push(id)));
            assert forall|t: SymbolId| #[trigger] self.topic_index@.contains_key(t) implies ascending_upto(
                self.topic_index@[t]@,
                self.count(),
            ) by {
                if t != topic {
                    assert(s0.topic_index@.contains_key(t));
                } else {
                    let old_ids = s0.topic_ids(topic);
                    if s0.topic_index@.contains_key(topic) {
                        assert(ascending_upto(old_ids, s0.count()));
                    }
                    assert(self.topic_index@[t]@ == old_ids.push(id));
                }
            }
            assert forall|a: AccountId| #[trigger] self.contract_index@.contains_key(a) implies ascending_upto(
                self.contract_index@[a]@,
                self.count(),
            ) by {
                if a != source {
                    assert(s0.contract_index@.contains_key(a));
                } else {
                    let old_ids = s0.source_ids(source);
                    if s0.contract_index@.contains_key(source) {
                        assert(ascending_upto(old_ids, s0.count()));
                    }
                    assert(self.contract_index@[a]@ == old_ids.push(id));
                }
            }
            assert forall|t: SymbolId| #[trigger]
                self.topic_count(t) == self.topic_ids(t).len() && self.topic_count(t) <= self.count() by {
                assert(s0.topic_count(t) == s0.topic_ids(t).len() && s0.topic_count(t) <= s0.count());
            }
        }
        Ok(id)
    }

    /// The stored event `id`.
    pub fn get_event(&self, id: u64) -> (r: Option<Event>)
        ensures
            r == (if self.events@.contains_key(id) {
                Some(self.events@[id])
            } else {
                None
            }),
    {
        match self.events.get(&id) {
            Some(e) => Some(*e),
            None => None,
        }
    }

    /// The page of `ids` from position `start`, at most `limit` positions
    /// long: the events still stored among them, in order.
    pub open spec fn page(self, ids: Seq<u64>, start: u32, limit: u32) -> Seq<Event> {
        if start >= ids.len() {
            Seq::empty()
        } else {
            let end = if start + limit > ids.len() {
                ids.len() as int
            } else {
                start + limit
            };
            present_events(self.events@, ids.subrange(start as int, end))
        }
    }

    /// The events still stored among positions `start` to
    /// `start + limit` (exclusive) of `index`.
    pub fn paginate_index(&self, index: &Vec<u64>, start: u32, limit: u32) -> (r: Vec<Event>)
        requires
            start < index@.len() ==> start + limit <= u32::MAX,
            index@.len() <= u32::MAX,
        ensures
            r@ == self.page(index@, start, limit),
    {
        let mut results: Vec<Event> = Vec::new();
        let len = index.len();
        if start as usize >= len {
            return results;
        }
        let end: usize = if start as usize + limit as usize > len {
            len
        } else {
            start as usize + limit as usize
        };
        let mut i: usize = start as usize;
        while i < end
            invariant
                start <= i <= end <= index@.len(),
                results@ == present_events(self.events@, index@.subrange(start as int, i as int)),
            decreases end - i,
        {
            let id = index[i];
            proof {
                let pre = index@.subrange(start as int, i + 1);
                assert(pre.drop_last() =~= index@.subrange(start as int, i as int));
                assert(pre.last() == id);
            }
            match self.events.get(&id) {
                Some(e) => results.push(*e),
                None => {},
            }
            i = i + 1;
        }
        results
    }

    /// A page of the events logged under `topic`.
    pub fn get_events_by_topic(&self, topic: SymbolId, start: u32, limit: u32) -> (r: Vec<Event>)
        requires
            start < self.topic_ids(topic).len() ==> start + limit <= u32::MAX,
            self.topic_ids(topic).len() <= u32::MAX,
        ensures
            r@ == self.page(self.topic_ids(topic), start, limit),
    {
        match self.topic_index.get(&topic) {
            Some(ids) => self.paginate_index(ids, start, limit),
            None => Vec::new(),
        }
    }

    /// A page of the events logged by `source`.
    pub fn get_events_by_contract(&self, source: AccountId, start: u32, limit: u32) -> (r: Vec<Event>)
        requires
            start < self.source_ids(source).len() ==> start + limit <= u32::MAX,
            self.source_ids(source).len() <= u32::MAX,
        ensures
            r@ == self.page(self.source_ids(source), start, limit),
    {
        match self.contract_index.get(&source) {
            Some(ids) => self.paginate_index(ids, start, limit),
            None => Vec::new(),
        }
    }

    /// The number of events logged under `topic`.
    pub fn get_topic_analytics(&self, topic: SymbolId) -> (r: u64)
        ensures
            r == self.topic_count(topic),
    {
        match self.analytics.get(&topic) {
            Some(c) => *c,
            None => 0,
        }
    }
}

/// No more stored events than ids looked up.
pub proof fn lemma_present_events_len(events: Map<u64, Event>, ids: Seq<u64>)
    ensures
        present_events(events, ids).len() <= ids.len(),
    decreases ids.len(),
{
    if ids.len() > 0 {
        lemma_present_events_len(events, ids.drop_last());
    }
}

/// A page never holds more than `limit` events.
pub proof fn lemma_page_within_limit(s: EventLoggingContract, ids: Seq<u64>, start: u32, limit: u32)
    ensures
        s.page(ids, start, limit).len() <= limit,
{
    if start < ids.len() {
        let end = if start + limit > ids.len() {
            ids.len() as int
        } else {
            start + limit
        };
        lemma_present_events_len(s.events@, ids.subrange(start as int, end));
    }
}

/// A topic's count is the number of events logged under it.
pub proof fn lemma_topic_count_is_index_len(s: EventLoggingContract, topic: SymbolId)
    requires
        s.wf(),
    ensures
        s.topic_count(topic) == s.topic_ids(topic).len(),
{
    assert(s.topic_count(topic) == s.topic_ids(topic).len() && s.topic_count(topic) <= s.count());
}

/// Retention: logging event `id` with a positive retention `max` keeps it,
/// drops event `id - max` once `id > max`, and leaves every other event as
/// it was.
pub proof fn lemma_retention(events: Map<u64, Event>, id: u64, event: Event, max: u32, other: u64)
    requires
        max > 0,
        other != id,
        id > max ==> other != id - max,
    ensures
        EventLoggingContract::retained(events, id, event, max).contains_key(id),
        EventLoggingContract::retained(events, id, event, max)[id] == event,
        id > max ==> !EventLoggingContract::retained(events, id, event, max).contains_key(
            (id - max) as u64,
        ),
        EventLoggingContract::retained(events, id, event, max).contains_key(other)
            == events.contains_key(other),
        events.contains_key(other) ==> EventLoggingContract::retained(events, id, event, max)[other]
            == events[other],
{
}

} // verus!
