//! The daemon's in-memory observation store.
use vstd::prelude::*;

use super::summary::{build_slice_summary, is_tally, kind_names, severity_names};
use super::types::{
    Checkpoint, ConnectionInfo, Filter, HealthStatus,
    Observation, ObservationKind, ObservationKindTag, RuntimeSummary, Severity, SliceSummary,
    StateSlice,
};
use crate::text::{push_str, views};
use crate::types::observation::{dup_opt_location, dup_opt_string};

verus! {

/// Failure of a store operation.
#[derive(Debug)]
pub enum StoreError {
    Sqlite(String),
    Serialization(String),
    LockPoisoned,
    Other(String),
}

impl StoreError {
    /// The error's message.
    pub open spec fn spec_message(&self) -> Seq<char> {
        match self {
            StoreError::Sqlite(m) => "sqlite error: "@ + m@,
            StoreError::Serialization(m) => "serialization error: "@ + m@,
            StoreError::LockPoisoned => "lock poisoned"@,
            StoreError::Other(m) => m@,
        }
    }

    /// The error's message.
    pub fn message(&self) -> (r: String)
        ensures
            r@ == self.spec_message(),
    {
        match self {
            StoreError::Sqlite(m) => {
                let mut s = "sqlite error: ".to_owned();
                push_str(&mut s, m.as_str());
                s
            },
            StoreError::Serialization(m) => {
                let mut s = "serialization error: ".to_owned();
                push_str(&mut s, m.as_str());
                s
            },
            StoreError::LockPoisoned => "lock poisoned".to_owned(),
            StoreError::Other(m) => m.clone(),
        }
    }
}

impl ObservationKind {
    /// An equal copy.
    pub fn dup(&self) -> (r: ObservationKind)
        ensures
            r == *self,
    {
        match self {
            ObservationKind::Log => ObservationKind::Log,
            ObservationKind::Query { sql, duration_ms_bits } => ObservationKind::Query {
                sql: sql.clone(),
                duration_ms_bits: *duration_ms_bits,
            },
            ObservationKind::HttpExchange { method, url, status, duration_ms_bits } => {
                ObservationKind::HttpExchange {
                    method: method.clone(),
                    url: url.clone(),
                    status: *status,
                    duration_ms_bits: *duration_ms_bits,
                }
            },
            ObservationKind::Exception { message, trace } => ObservationKind::Exception {
                message: message.clone(),
                trace: dup_opt_string(trace),
            },
            ObservationKind::StateSnapshot { label } => ObservationKind::StateSnapshot {
                label: label.clone(),
            },
            ObservationKind::Metric { name, value_bits } => ObservationKind::Metric {
                name: name.clone(),
                value_bits: *value_bits,
            },
            ObservationKind::Custom { channel } => ObservationKind::Custom {
                channel: channel.clone(),
            },
            ObservationKind::JsException { message, line, column } => {
                ObservationKind::JsException {
                    message: message.clone(),
                    line: *line,
                    column: *column,
                }
            },
            ObservationKind::Lifecycle { event_name, frame_id } => ObservationKind::Lifecycle {
                event_name: event_name.clone(),
                frame_id: frame_id.clone(),
            },
        }
    }
}

impl Observation {
    /// An equal copy.
    pub fn dup(&self) -> (r: Observation)
        ensures
            r == *self,
    {
        Observation {
            id: self.id,
            origin: self.origin.dup(),
            kind: self.kind.dup(),
            data: self.data.clone(),
            severity: self.severity,
            source_location: dup_opt_location(&self.source_location),
            timestamp_ns: self.timestamp_ns,
        }
    }
}

/// The observations kept by the filter, in stored order.
pub open spec fn kept_all(obs: Seq<Observation>, f: Filter) -> Seq<Observation>
    decreases obs.len(),
{
    if obs.len() == 0 {
        seq![]
    } else {
        let prev = kept_all(obs.drop_last(), f);
        if f.spec_matches(obs.last()) {
            prev.push(obs.last())
        } else {
            prev
        }
    }
}

/// The first `limit` entries, when a limit is given.
pub open spec fn limited(s: Seq<Observation>, limit: Option<usize>) -> Seq<Observation> {
    match limit {
        Some(n) => if n < s.len() {
            s.take(n as int)
        } else {
            s
        },
        None => s,
    }
}

/// Largest id among the observations, or 0.
pub open spec fn max_id(obs: Seq<Observation>) -> u64
    decreases obs.len(),
{
    if obs.len() == 0 {
        0
    } else {
        let m = max_id(obs.drop_last());
        if obs.last().id > m {
            obs.last().id
        } else {
            m
        }
    }
}

/// Smallest id among the observations, if any.
pub open spec fn min_id(obs: Seq<Observation>) -> Option<u64>
    decreases obs.len(),
{
    if obs.len() == 0 {
        None
    } else {
        match min_id(obs.drop_last()) {
            Some(m) => if obs.last().id < m {
                Some(obs.last().id)
            } else {
                Some(m)
            },
            None => Some(obs.last().id),
        }
    }
}

/// Largest timestamp among the observations, or 0.
pub open spec fn max_timestamp(obs: Seq<Observation>) -> u64
    decreases obs.len(),
{
    if obs.len() == 0 {
        0
    } else {
        let m = max_timestamp(obs.drop_last());
        if obs.last().timestamp_ns > m {
            obs.last().timestamp_ns
        } else {
            m
        }
    }
}

/// Number of error observations newer than `cutoff`.
pub open spec fn errors_after(obs: Seq<Observation>, cutoff: u64) -> nat
    decreases obs.len(),
{
    if obs.len() == 0 {
        0
    } else {
        errors_after(obs.drop_last(), cutoff) + if obs.last().severity == Severity::Error
            && obs.last().timestamp_ns > cutoff {
            1nat
        } else {
            0nat
        }
    }
}

/// Where the summary's recent-error window starts: 60 s before the newest
/// timestamp (at zero when that is earlier).
pub open spec fn recent_error_cutoff(obs: Seq<Observation>) -> u64 {
    if max_timestamp(obs) >= 60_000_000_000 {
        (max_timestamp(obs) - 60_000_000_000) as u64
    } else {
        0
    }
}

/// The observations at or after `cutoff`, in stored order.
pub open spec fn retained(obs: Seq<Observation>, cutoff: u64) -> Seq<Observation>
    decreases obs.len(),
{
    if obs.len() == 0 {
        seq![]
    } else {
        let prev = retained(obs.drop_last(), cutoff);
        if obs.last().timestamp_ns >= cutoff {
            prev.push(obs.last())
        } else {
            prev
        }
    }
}

/// Checkpoint of a query result: its largest id, or when it is empty the
/// filter's `since`, or else the largest stored id.
pub open spec fn result_checkpoint(all: Seq<Observation>, results: Seq<Observation>, since: Option<
    Checkpoint,
>) -> u64 {
    if max_id(results) > 0 {
        max_id(results)
    } else {
        match since {
            Some(cp) => cp.0,
            None => max_id(all),
        }
    }
}

/// Kind tag names in lexicographic order.
pub open spec fn sorted_tag_names() -> Seq<Seq<char>> {
    seq![
        "custom"@,
        "exception"@,
        "http_exchange"@,
        "js_exception"@,
        "lifecycle"@,
        "log"@,
        "metric"@,
        "query"@,
        "state_snapshot"@,
    ]
}

/// Names of `order` that occur in `names`, in the order of `order`.
pub open spec fn present_in_order(order: Seq<Seq<char>>, names: Seq<Seq<char>>) -> Seq<Seq<char>>
    decreases order.len(),
{
    if order.len() == 0 {
        seq![]
    } else {
        let prev = present_in_order(order.drop_last(), names);
        if names.contains(order.last()) {
            prev.push(order.last())
        } else {
            prev
        }
    }
}

/// In-memory store of observations with monotonically assigned ids.
pub struct MemoryStore {
    observations: Vec<Observation>,
    connections: Vec<ConnectionInfo>,
    next_id: u64,
}

impl View for MemoryStore {
    type V = Seq<Observation>;

    closed spec fn view(&self) -> Seq<Observation> {
        self.observations@
    }
}

impl MemoryStore {
    /// Ids grow strictly with insertion order and stay below the next id.
    #[verifier::type_invariant]
    closed spec fn inv(self) -> bool {
        &&& self.next_id >= 1
        &&& forall|i: int|
            0 <= i < self.observations@.len() ==> (#[trigger] self.observations@[i]).id
                < self.next_id
        &&& forall|i: int, j: int|
            0 <= i < j < self.observations@.len() ==> self.observations@[i].id
                < self.observations@[j].id
    }

    /// The id the next insert assigns.
    pub closed spec fn spec_next_id(&self) -> u64 {
        self.next_id
    }

    /// Sources known to the store.
    pub closed spec fn spec_connections(&self) -> Seq<ConnectionInfo> {
        self.connections@
    }

    /// An empty store whose first id is 1.
    pub fn new() -> (r: MemoryStore)
        ensures
            r@ == Seq::<Observation>::empty(),
            r.spec_next_id() == 1,
            r.spec_connections() == Seq::<ConnectionInfo>::empty(),
    {
        MemoryStore { observations: Vec::new(), connections: Vec::new(), next_id: 1 }
    }

    /// Stores the observation under the next id and returns that id.
    pub fn insert(&mut self, obs: Observation) -> (r: Result<u64, StoreError>)
        requires
            old(self).spec_next_id() < u64::MAX,
        ensures
            r == Ok::<u64, StoreError>(old(self).spec_next_id()),
            final(self)@ == old(self)@.push(Observation { id: old(self).spec_next_id(), ..obs }),
            final(self).spec_next_id() == old(self).spec_next_id() + 1,
            max_id(final(self)@) == old(self).spec_next_id(),
            final(self).spec_connections() == old(self).spec_connections(),
    {
        proof {
            use_type_invariant(&*self);
        }
        let id = self.next_id;
        proof {
            lemma_max_id_below(self.observations@, id);
            assert(self.observations@.push(Observation { id, ..obs }).drop_last() =~= self.observations@);
        }
        let mut obs = obs;
        obs.id = id;
        let mut all: Vec<Observation> = Vec::new();
        std::mem::swap(&mut all, &mut self.observations);
        all.push(obs);
        self.next_id = id + 1;
        self.observations = all;
        Ok(id)
    }

    /// The stored observations that match the filter (`Filter::matches`),
    /// in stored order and at most `limit` of them, with the checkpoint to
    /// resume from and their counts.
    pub fn query(&self, filter: &Filter) -> (r: Result<StateSlice, StoreError>)
        ensures
            r matches Ok(slice) && slice.observations@ == limited(
                kept_all(self@, *filter),
                filter.limit,
            ) && slice.checkpoint.0 == result_checkpoint(
                self@,
                slice.observations@,
                filter.since,
            ) && slice.summary.total == slice.observations@.len() && is_tally(
                slice.summary.counts_by_kind@,
                kind_names(slice.observations@),
            ) && is_tally(slice.summary.counts_by_severity@, severity_names(slice.observations@)),
    {
        let mut results: Vec<Observation> = Vec::new();
        let mut i: usize = 0;
        while i < self.observations.len()
            invariant
                i <= self.observations@.len(),
                results@ == kept_all(self.observations@.take(i as int), *filter),
            decreases self.observations@.len() - i,
        {
            let ghost prefix = self.observations@.take(i + 1);
            proof {
                assert(prefix.drop_last() =~= self.observations@.take(i as int));
                assert(prefix.last() == self.observations@[i as int]);
            }
            if filter.matches(&self.observations[i]) {
                results.push(self.observations[i].dup());
            }
            i += 1;
        }
        proof {
            assert(self.observations@.take(self.observations@.len() as int) =~= self.observations@);
        }
        if let Some(n) = filter.limit {
            if n < results.len() {
                results.truncate(n);
            }
        }
        let m = max_id_of(&results);
        let checkpoint = if m > 0 {
            m
        } else {
            match filter.since {
                Some(cp) => cp.0,
                None => max_id_of(&self.observations),
            }
        };
        let summary = build_slice_summary(&results);
        Ok(StateSlice { observations: results, checkpoint: Checkpoint(checkpoint), summary })
    }

    /// Count, recent errors (within 60 s of the newest timestamp), kind tags
    /// present (sorted), known sources and health.
    pub fn summary(&self) -> (r: Result<RuntimeSummary, StoreError>)
        ensures
            r matches Ok(s) && s.observation_count == self@.len() && s.error_count_last_60s
                == errors_after(self@, recent_error_cutoff(self@)) && crate::text::views(s.active_channels@)
                == present_in_order(sorted_tag_names(), kind_names(self@))
                && s.connections@ == self.spec_connections() && s.health == (if self.spec_connections().len() == 0 {
                HealthStatus::NoSources
            } else if s.error_count_last_60s > 0 {
                HealthStatus::ErrorsDetected
            } else {
                HealthStatus::Healthy
            }),
    {
        let total = self.observations.len() as u64;
        let max_ts = max_timestamp_of(&self.observations);
        let cutoff = max_ts.saturating_sub(60_000_000_000);
        let error_count = count_errors_after(&self.observations, cutoff);
        let channels = present_kind_names(&self.observations);
        let connections = dup_connections(&self.connections);
        let health = if self.connections.len() == 0 {
            HealthStatus::NoSources
        } else if error_count > 0 {
            HealthStatus::ErrorsDetected
        } else {
            HealthStatus::Healthy
        };
        Ok(
            RuntimeSummary {
                observation_count: total,
                error_count_last_60s: error_count,
                active_channels: channels,
                connections,
                health,
            },
        )
    }

    /// The largest stored id, or 0 when the store is empty.
    pub fn checkpoint(&self) -> (r: Checkpoint)
        ensures
            r.0 == max_id(self@),
    {
        Checkpoint(max_id_of(&self.observations))
    }

    /// The smallest stored id, if any.
    pub fn oldest_id(&self) -> (r: Option<u64>)
        ensures
            r == min_id(self@),
    {
        let mut best: Option<u64> = None;
        let mut i: usize = 0;
        while i < self.observations.len()
            invariant
                i <= self.observations@.len(),
                best == min_id(self.observations@.take(i as int)),
            decreases self.observations@.len() - i,
        {
            proof {
                assert(self.observations@.take(i + 1).drop_last() =~= self.observations@.take(
                    i as int,
                ));
            }
            let id = self.observations[i].id;
            best = match best {
                Some(m) => if id < m {
                    Some(id)
                } else {
                    Some(m)
                },
                None => Some(id),
            };
            i += 1;
        }
        proof {
            assert(self.observations@.take(self.observations@.len() as int) =~= self.observations@);
        }
        best
    }

    /// Removes observations older than `timestamp_ns`; returns how many went.
    pub fn cleanup_before(&mut self, timestamp_ns: u64) -> (r: Result<u64, StoreError>)
        ensures
            final(self)@ == retained(old(self)@, timestamp_ns),
            r == Ok::<u64, StoreError>((old(self)@.len() - final(self)@.len()) as u64),
            final(self).spec_next_id() == old(self).spec_next_id(),
            final(self).spec_connections() == old(self).spec_connections(),
    {
        proof {
            use_type_invariant(&*self);
        }
        let before = self.observations.len();
        let mut kept: Vec<Observation> = Vec::new();
        let mut i: usize = 0;
        while i < self.observations.len()
            invariant
                i <= self.observations@.len(),
                kept@ == retained(self.observations@.take(i as int), timestamp_ns),
                kept@.len() <= i,
                forall|k: int| 0 <= k < kept@.len() ==> (#[trigger] kept@[k]).id < self.next_id,
                forall|k: int, m: int|
                    0 <= k < kept@.len() && i <= m < self.observations@.len() ==> (#[trigger] kept@[k]).id
                        < (#[trigger] self.observations@[m]).id,
                forall|k: int, m: int| 0 <= k < m < kept@.len() ==> kept@[k].id < kept@[m].id,
                self.next_id >= 1,
                forall|a: int|
                    0 <= a < self.observations@.len() ==> (#[trigger] self.observations@[a]).id
                        < self.next_id,
                forall|a: int, b: int|
                    0 <= a < b < self.observations@.len() ==> self.observations@[a].id
                        < self.observations@[b].id,
            decreases self.observations@.len() - i,
        {
            proof {
                assert(self.observations@.take(i + 1).drop_last() =~= self.observations@.take(
                    i as int,
                ));
            }
            if self.observations[i].timestamp_ns >= timestamp_ns {
                kept.push(self.observations[i].dup());
            }
            i += 1;
        }
        proof {
            assert(self.observations@.take(self.observations@.len() as int) =~= self.observations@);
        }
        let after = kept.len();
        self.observations = kept;
        Ok((before - after) as u64)
    }

    /// Nothing to reclaim in memory.
    pub fn vacuum_incremental(&self, pages: u32) -> (r: Result<(), StoreError>)
        ensures
            r is Ok,
    {
        Ok(())
    }

    /// Nothing to checkpoint in memory.
    pub fn wal_checkpoint(&self) -> (r: Result<(), StoreError>)
        ensures
            r is Ok,
    {
        Ok(())
    }
}

proof fn lemma_max_id_below(obs: Seq<Observation>, n: u64)
    requires
        n >= 1,
        forall|i: int| 0 <= i < obs.len() ==> (#[trigger] obs[i]).id < n,
    ensures
        max_id(obs) < n,
    decreases obs.len(),
{
    if obs.len() > 0 {
        assert(forall|i: int| 0 <= i < obs.drop_last().len() ==> obs.drop_last()[i] == obs[i]);
        lemma_max_id_below(obs.drop_last(), n);
        assert(obs.last() == obs[obs.len() - 1]);
    }
}

fn max_id_of(obs: &Vec<Observation>) -> (r: u64)
    ensures
        r == max_id(obs@),
{
    let mut best: u64 = 0;
    let mut i: usize = 0;
    while i < obs.len()
        invariant
            i <= obs@.len(),
            best == max_id(obs@.take(i as int)),
        decreases obs@.len() - i,
    {
        proof {
            assert(obs@.take(i + 1).drop_last() =~= obs@.take(i as int));
        }
        if obs[i].id > best {
            best = obs[i].id;
        }
        i += 1;
    }
    proof {
        assert(obs@.take(obs@.len() as int) =~= obs@);
    }
    best
}

fn max_timestamp_of(obs: &Vec<Observation>) -> (r: u64)
    ensures
        r == max_timestamp(obs@),
{
    let mut best: u64 = 0;
    let mut i: usize = 0;
    while i < obs.len()
        invariant
            i <= obs@.len(),
            best == max_timestamp(obs@.take(i as int)),
        decreases obs@.len() - i,
    {
        proof {
            assert(obs@.take(i + 1).drop_last() =~= obs@.take(i as int));
        }
        if obs[i].timestamp_ns > best {
            best = obs[i].timestamp_ns;
        }
        i += 1;
    }
    proof {
        assert(obs@.take(obs@.len() as int) =~= obs@);
    }
    best
}

proof fn lemma_errors_after_le(obs: Seq<Observation>, cutoff: u64)
    ensures
        errors_after(obs, cutoff) <= obs.len(),
    decreases obs.len(),
{
    if obs.len() > 0 {
        lemma_errors_after_le(obs.drop_last(), cutoff);
    }
}

fn count_errors_after(obs: &Vec<Observation>, cutoff: u64) -> (r: u64)
    ensures
        r == errors_after(obs@, cutoff),
{
    let mut n: u64 = 0;
    let mut i: usize = 0;
    while i < obs.len()
        invariant
            i <= obs@.len(),
            n == errors_after(obs@.take(i as int), cutoff),
        decreases obs@.len() - i,
    {
        proof {
            assert(obs@.take(i + 1).drop_last() =~= obs@.take(i as int));
            lemma_errors_after_le(obs@.take(i as int), cutoff);
        }
        if obs[i].severity == Severity::Error && obs[i].timestamp_ns > cutoff {
            n = n + 1;
        }
        i += 1;
    }
    proof {
        assert(obs@.take(obs@.len() as int) =~= obs@);
    }
    n
}

fn has_kind(obs: &Vec<Observation>, k: ObservationKindTag) -> (r: bool)
    ensures
        r == kind_names(obs@).contains(k.spec_name()),
{
    let mut i: usize = 0;
    while i < obs.len()
        invariant
            i <= obs@.len(),
            forall|j: int| 0 <= j < i ==> obs@[j].kind.spec_tag() != k,
        decreases obs@.len() - i,
    {
        if obs[i].kind.tag() == k {
            proof {
                assert(kind_names(obs@)[i as int] == k.spec_name());
            }
            return true;
        }
        i += 1;
    }
    proof {
        if kind_names(obs@).contains(k.spec_name()) {
            let j = choose|j: int|
                0 <= j < kind_names(obs@).len() && kind_names(obs@)[j] == k.spec_name();
            super::types::lemma_observation_kind_tag_name_roundtrip(k);
            assert(obs@[j].kind.spec_tag().spec_name() == k.spec_name());
        }
    }
    false
}

fn present_kind_names(obs: &Vec<Observation>) -> (r: Vec<String>)
    ensures
        crate::text::views(r@) == present_in_order(
            sorted_tag_names(),
            kind_names(obs@),
        ),
{
    let order = [
        ObservationKindTag::Custom,
        ObservationKindTag::Exception,
        ObservationKindTag::HttpExchange,
        ObservationKindTag::JsException,
        ObservationKindTag::Lifecycle,
        ObservationKindTag::Log,
        ObservationKindTag::Metric,
        ObservationKindTag::Query,
        ObservationKindTag::StateSnapshot,
    ];
    let ghost names = kind_names(obs@);
    let mut out: Vec<String> = Vec::new();
    let mut i: usize = 0;
    proof {
        assert(sorted_tag_names().len() == 9);
    }
    while i < 9
        invariant
            i <= 9,
            names == kind_names(obs@),
            order@.len() == 9,
            forall|j: int| 0 <= j < 9 ==> (#[trigger] order@[j]).spec_name() == sorted_tag_names()[j],
            crate::text::views(out@) == present_in_order(
                sorted_tag_names().take(i as int),
                names,
            ),
        decreases 9 - i,
    {
        proof {
            assert(sorted_tag_names().take(i + 1).drop_last() =~= sorted_tag_names().take(
                i as int,
            ));
            assert(sorted_tag_names().take(i + 1).last() == order@[i as int].spec_name());
        }
        if has_kind(obs, order[i]) {
            let n = order[i].to_string();
            let ghost before = out@;
            out.push(n);
            proof {
                assert(crate::text::views(out@) =~= crate::text::views(before).push(n@));
            }
        }
        i += 1;
    }
    proof {
        assert(sorted_tag_names().take(9) =~= sorted_tag_names());
    }
    out
}

fn dup_connections(c: &Vec<ConnectionInfo>) -> (r: Vec<ConnectionInfo>)
    ensures
        r@ == c@,
{
    let mut out: Vec<ConnectionInfo> = Vec::new();
    let mut i: usize = 0;
    while i < c.len()
        invariant
            i <= c@.len(),
            out@ == c@.take(i as int),
        decreases c@.len() - i,
    {
        let x = &c[i];
        out.push(
            ConnectionInfo {
                id: x.id.clone(),
                kind: x.kind,
                name: x.name.clone(),
                observation_count: x.observation_count,
            },
        );
        proof {
            assert(out@ =~= c@.take(i + 1));
        }
        i += 1;
    }
    proof {
        assert(c@.take(c@.len() as int) =~= c@);
    }
    out
}

/// A query keeps exactly the stored observations that pass the filter:
/// nothing else, and nothing it passes is left out.
pub proof fn lemma_query_keeps_exactly(obs: Seq<Observation>, f: Filter, o: Observation)
    ensures
        kept_all(obs, f).contains(o) <==> (obs.contains(o) && f.spec_matches(o)),
    decreases obs.len(),
{
    if obs.len() > 0 {
        let prev = obs.drop_last();
        lemma_query_keeps_exactly(prev, f, o);
        if obs.contains(o) && o != obs.last() {
            let i = choose|i: int| 0 <= i < obs.len() && obs[i] == o;
            assert(prev[i] == o);
        }
        if prev.contains(o) {
            let i = choose|i: int| 0 <= i < prev.len() && prev[i] == o;
            assert(obs[i] == o);
        }
        if f.spec_matches(obs.last()) {
            assert(kept_all(obs, f) == kept_all(prev, f).push(obs.last()));
            if kept_all(prev, f).contains(o) {
                let i = choose|i: int| 0 <= i < kept_all(prev, f).len() && kept_all(prev, f)[i] == o;
                assert(kept_all(obs, f)[i] == o);
            }
            if o == obs.last() {
                assert(kept_all(obs, f)[kept_all(prev, f).len() as int] == o);
            }
            if kept_all(obs, f).contains(o) && o != obs.last() {
                let i = choose|i: int| 0 <= i < kept_all(obs, f).len() && kept_all(obs, f)[i] == o;
                assert(kept_all(prev, f)[i] == o);
            }
        }
        if o == obs.last() {
            assert(obs[obs.len() - 1] == o);
        }
    }
}

/// With no criterion set, a query keeps every stored observation in order:
/// what was inserted is read back.
pub proof fn lemma_unfiltered_query_reads_everything(obs: Seq<Observation>, f: Filter)
    requires
        f.kinds is None,
        f.severity_min is None,
        f.origins is None,
        f.text_match is None,
        f.since is None,
        f.limit is None,
    ensures
        limited(kept_all(obs, f), f.limit) == obs,
    decreases obs.len(),
{
    if obs.len() > 0 {
        lemma_unfiltered_query_reads_everything(obs.drop_last(), f);
        assert(obs.drop_last().push(obs.last()) =~= obs);
    }
}

/// Querying from a checkpoint returns only observations newer than it.
pub proof fn lemma_since_returns_newer(obs: Seq<Observation>, f: Filter, cp: Checkpoint)
    requires
        f.since == Some(cp),
    ensures
        forall|i: int|
            0 <= i < limited(kept_all(obs, f), f.limit).len() ==> (#[trigger] limited(
                kept_all(obs, f),
                f.limit,
            )[i]).id > cp.0,
{
    let r = kept_all(obs, f);
    assert forall|i: int| 0 <= i < limited(r, f.limit).len() implies (#[trigger] limited(
        r,
        f.limit,
    )[i]).id > cp.0 by {
        let o = limited(r, f.limit)[i];
        assert(r[i] == o);
        assert(r.contains(o));
        lemma_query_keeps_exactly(obs, f, o);
    }
}

/// Cleanup keeps exactly the observations at or after the cutoff.
pub proof fn lemma_cleanup_keeps_exactly(obs: Seq<Observation>, cutoff: u64, o: Observation)
    ensures
        retained(obs, cutoff).contains(o) <==> (obs.contains(o) && o.timestamp_ns >= cutoff),
    decreases obs.len(),
{
    if obs.len() > 0 {
        let prev = obs.drop_last();
        lemma_cleanup_keeps_exactly(prev, cutoff, o);
        if obs.contains(o) && o != obs.last() {
            let i = choose|i: int| 0 <= i < obs.len() && obs[i] == o;
            assert(prev[i] == o);
        }
        if prev.contains(o) {
            let i = choose|i: int| 0 <= i < prev.len() && prev[i] == o;
            assert(obs[i] == o);
        }
        if obs.last().timestamp_ns >= cutoff {
            if retained(prev, cutoff).contains(o) {
                let i = choose|i: int|
                    0 <= i < retained(prev, cutoff).len() && retained(prev, cutoff)[i] == o;
                assert(retained(obs, cutoff)[i] == o);
            }
            if o == obs.last() {
                assert(retained(obs, cutoff)[retained(prev, cutoff).len() as int] == o);
            }
            if retained(obs, cutoff).contains(o) && o != obs.last() {
                let i = choose|i: int|
                    0 <= i < retained(obs, cutoff).len() && retained(obs, cutoff)[i] == o;
                assert(retained(prev, cutoff)[i] == o);
            }
        }
        if o == obs.last() {
            assert(obs[obs.len() - 1] == o);
        }
    }
}

} // verus!
verus! {

/// The recent-error count looks only inside its window: an observation at
/// or before the cutoff never counts, whatever its severity; an error after
/// the cutoff counts once; any other observation does not count.
pub proof fn lemma_errors_after_window(obs: Seq<Observation>, cutoff: u64, o: Observation)
    ensures
        o.timestamp_ns <= cutoff ==> errors_after(obs.push(o), cutoff) == errors_after(obs, cutoff),
        o.severity != Severity::Error ==> errors_after(obs.push(o), cutoff) == errors_after(
            obs,
            cutoff,
        ),
        o.severity == Severity::Error && o.timestamp_ns > cutoff ==> errors_after(obs.push(o), cutoff)
            == errors_after(obs, cutoff) + 1,
{
    assert(obs.push(o).drop_last() =~= obs);
}

/// No error at all is counted when every observation is at or before the
/// cutoff (old errors are outside the window), and no more are counted
/// than there are observations after it.
pub proof fn lemma_errors_after_none_recent(obs: Seq<Observation>, cutoff: u64)
    requires
        forall|i: int| 0 <= i < obs.len() ==> (#[trigger] obs[i]).timestamp_ns <= cutoff,
    ensures
        errors_after(obs, cutoff) == 0,
    decreases obs.len(),
{
    if obs.len() > 0 {
        let prev = obs.drop_last();
        assert forall|i: int| 0 <= i < prev.len() implies (#[trigger] prev[i]).timestamp_ns <= cutoff by {
            assert(prev[i] == obs[i]);
        }
        lemma_errors_after_none_recent(prev, cutoff);
        assert(obs[obs.len() - 1] == obs.last());
    }
}

/// The summary's window is the last 60 seconds before the newest
/// observation: its start lies 60 s before the newest timestamp, and every
/// stored observation is at or before that newest timestamp.
pub proof fn lemma_recent_window_is_last_minute(obs: Seq<Observation>)
    ensures
        max_timestamp(obs) >= 60_000_000_000 ==> recent_error_cutoff(obs) + 60_000_000_000
            == max_timestamp(obs),
        max_timestamp(obs) < 60_000_000_000 ==> recent_error_cutoff(obs) == 0,
        forall|i: int| 0 <= i < obs.len() ==> (#[trigger] obs[i]).timestamp_ns <= max_timestamp(obs),
    decreases obs.len(),
{
    if obs.len() > 0 {
        lemma_recent_window_is_last_minute(obs.drop_last());
        assert forall|i: int| 0 <= i < obs.len() implies (#[trigger] obs[i]).timestamp_ns
            <= max_timestamp(obs) by {
            if i < obs.len() - 1 {
                assert(obs[i] == obs.drop_last()[i]);
            }
        }
    }
}

} // verus!
