//! Burst deduplication: the fingerprint of an observation covers its
//! origin key, kind, severity, the kind's content fields and its payload,
//! and leaves volatile metadata (ids, sessions, tags, timestamps) out.
use vstd::prelude::*;

use std::hash::{Hash, Hasher};

use crate::types::observation::{observation_origin_fields, origin_key, Observation, ObservationKind};

verus! {

/// A `quick_cache::sync::Cache` of fingerprints (a sharded LRU cache);
/// Verus sees only the keys it holds.
#[verifier::external_body]
pub struct FingerprintSet {
    cache: quick_cache::sync::Cache<u64, ()>,
}

/// The keys a cache holds.
pub uninterp spec fn cache_keys(c: FingerprintSet) -> Set<u64>;

/// The estimated item capacity a cache was made with.
pub uninterp spec fn cache_capacity(c: FingerprintSet) -> usize;

/// Creates a cache with `quick_cache::sync::Cache::new`; it holds no keys
/// and keeps the capacity it was made with.
#[verifier::external_body]
fn cache_new(capacity: usize) -> (r: FingerprintSet)
    ensures
        cache_keys(r) == Set::<u64>::empty(),
        cache_capacity(r) == capacity,
{
    FingerprintSet { cache: quick_cache::sync::Cache::new(capacity) }
}

/// Looks a key up with `quick_cache::sync::Cache::get`: whether the cache
/// holds it.
#[verifier::external_body]
fn cache_contains(c: &FingerprintSet, key: u64) -> (r: bool)
    ensures
        r == cache_keys(*c).contains(key),
{
    c.cache.get(&key).is_some()
}

/// Inserts a key with `quick_cache::sync::Cache::insert`: afterwards the
/// cache holds no key it did not hold before besides it, and its capacity is
/// unchanged. A cache made for at least one item that held no key keeps the
/// new key (each shard then has room for one unit-weight entry). In a cache
/// that already holds keys, whether the key stays resident is left unsaid:
/// a key remembered from an earlier eviction can be evicted again at once.
#[verifier::external_body]
fn cache_insert(c: &mut FingerprintSet, key: u64)
    ensures
        cache_keys(*final(c)).subset_of(cache_keys(*old(c)).insert(key)),
        cache_capacity(*final(c)) == cache_capacity(*old(c)),
        cache_capacity(*old(c)) >= 1 && cache_keys(*old(c)).is_empty() ==> cache_keys(
            *final(c),
        ).contains(key),
{
    c.cache.insert(key, ());
}

/// Bounded cache of observation fingerprints for burst deduplication.
pub struct ObservationHashCache {
    cache: FingerprintSet,
}

/// Fingerprints the cache starts out able to hold.
pub const HASH_CACHE_CAPACITY: usize = 10000;

impl ObservationHashCache {
    /// The fingerprints the cache holds.
    pub closed spec fn keys(&self) -> Set<u64> {
        cache_keys(self.cache)
    }

    /// The item capacity the cache was made with.
    pub closed spec fn capacity(&self) -> usize {
        cache_capacity(self.cache)
    }

    /// An empty cache made for 10 000 entries.
    pub fn new() -> (r: ObservationHashCache)
        ensures
            r.keys() == Set::<u64>::empty(),
            r.capacity() == HASH_CACHE_CAPACITY,
    {
        ObservationHashCache { cache: cache_new(HASH_CACHE_CAPACITY) }
    }

    /// Whether the fingerprint was seen (and is still held); a new one is
    /// offered to the cache, which may or may not keep it.
    pub fn contains_or_insert(&mut self, hash: u64) -> (r: bool)
        ensures
            r == old(self).keys().contains(hash),
            r ==> final(self).keys() == old(self).keys(),
            final(self).keys().subset_of(old(self).keys().insert(hash)),
            final(self).capacity() == old(self).capacity(),
            old(self).capacity() >= 1 && old(self).keys().is_empty() ==> final(self).keys().contains(hash),
    {
        if cache_contains(&self.cache, hash) {
            return true;
        }
        cache_insert(&mut self.cache, hash);
        false
    }
}

impl Default for ObservationHashCache {
    fn default() -> (r: ObservationHashCache)
        ensures
            r.keys() == Set::<u64>::empty(),
            r.capacity() == HASH_CACHE_CAPACITY,
    {
        ObservationHashCache::new()
    }
}

/// One value fed to the fingerprint hasher, with the Rust type it is
/// hashed as.
#[derive(Debug, Clone)]
pub enum FingerprintField {
    Str(String),
    OptStr(Option<String>),
    OptU16(Option<u16>),
    OptU32(Option<u32>),
    U64(u64),
}

/// The content of a fingerprint field.
pub enum FieldView {
    Str(Seq<char>),
    OptStr(Option<Seq<char>>),
    OptU16(Option<u16>),
    OptU32(Option<u32>),
    U64(u64),
}

impl View for FingerprintField {
    type V = FieldView;

    open spec fn view(&self) -> FieldView {
        match self {
            FingerprintField::Str(s) => FieldView::Str(s@),
            FingerprintField::OptStr(o) => FieldView::OptStr(
                match o {
                    Some(s) => Some(s@),
                    None => None,
                },
            ),
            FingerprintField::OptU16(o) => FieldView::OptU16(*o),
            FingerprintField::OptU32(o) => FieldView::OptU32(*o),
            FingerprintField::U64(n) => FieldView::U64(*n),
        }
    }
}

/// The contents of a field list.
pub open spec fn fields_view(fs: Seq<FingerprintField>) -> Seq<FieldView> {
    fs.map_values(|f: FingerprintField| f@)
}

/// The value `std::collections::hash_map::DefaultHasher::new()` finishes
/// with after hashing the fields in order.
pub uninterp spec fn spec_default_hash(fields: Seq<FieldView>) -> u64;

/// Hashes the fields, in order and each as its Rust type, with a fresh
/// `std::collections::hash_map::DefaultHasher` and returns `finish()`; the
/// contract names the result.
#[verifier::external_body]
fn default_hash(fields: &Vec<FingerprintField>) -> (r: u64)
    ensures
        r == spec_default_hash(fields_view(fields@)),
{
    let mut hasher = std::collections::hash_map::DefaultHasher::new();
    for f in fields {
        match f {
            FingerprintField::Str(s) => s.hash(&mut hasher),
            FingerprintField::OptStr(o) => o.hash(&mut hasher),
            FingerprintField::OptU16(o) => o.hash(&mut hasher),
            FingerprintField::OptU32(o) => o.hash(&mut hasher),
            FingerprintField::U64(n) => n.hash(&mut hasher),
        }
    }
    hasher.finish()
}

/// The default hash of one string.
pub fn default_hash_of_text(s: String) -> (r: u64)
    ensures
        r == spec_default_hash(seq![FieldView::Str(s@)]),
{
    let ghost v = s@;
    let fs = vec![FingerprintField::Str(s)];
    assert(fields_view(fs@) =~= seq![FieldView::Str(v)]);
    default_hash(&fs)
}

/// Optional text as a field view.
pub open spec fn opt_view(o: Option<String>) -> Option<Seq<char>> {
    match o {
        Some(s) => Some(s@),
        None => None,
    }
}

/// The kind's content fields that take part in the fingerprint; timing,
/// outputs and exit codes do not.
pub open spec fn kind_fields(k: ObservationKind) -> Seq<FieldView> {
    match k {
        ObservationKind::Log => seq![],
        ObservationKind::Query { sql, .. } => seq![FieldView::Str(sql@)],
        ObservationKind::HttpExchange { method, url, status, .. } => seq![
            FieldView::Str(method@),
            FieldView::Str(url@),
            FieldView::OptU16(status),
        ],
        ObservationKind::Exception { message, trace } => seq![
            FieldView::Str(message@),
            FieldView::OptStr(opt_view(trace)),
        ],
        ObservationKind::JsException { message, line, column } => seq![
            FieldView::Str(message@),
            FieldView::OptU32(line),
            FieldView::OptU32(column),
        ],
        ObservationKind::StateSnapshot { label } => seq![FieldView::Str(label@)],
        ObservationKind::Metric { name, value_bits } => seq![
            FieldView::Str(name@),
            FieldView::U64(value_bits),
        ],
        ObservationKind::Custom { channel } => seq![FieldView::Str(channel@)],
        ObservationKind::Lifecycle { event_name, frame_id } => seq![
            FieldView::Str(event_name@),
            FieldView::Str(frame_id@),
        ],
        ObservationKind::ToolCall { tool, input, .. } => seq![
            FieldView::Str(tool@),
            FieldView::Str(input@),
        ],
    }
}

/// Everything an observation's fingerprint is computed from, in order:
/// origin key, kind tag, severity, kind content, payload.
pub open spec fn fingerprint_fields(obs: Observation) -> Seq<FieldView> {
    seq![
        FieldView::Str(origin_key(obs.origin)),
        FieldView::Str(obs.kind.spec_tag().spec_name()),
        FieldView::Str(obs.severity.spec_name()),
    ] + kind_fields(obs.kind) + seq![FieldView::Str(obs.data@)]
}

/// The values an observation's fingerprint is computed from.
pub fn fingerprint_field_list(obs: &Observation) -> (r: Vec<FingerprintField>)
    ensures
        fields_view(r@) == fingerprint_fields(*obs),
{
    let (_, key) = observation_origin_fields(&obs.origin);
    let mut fs: Vec<FingerprintField> = Vec::new();
    fs.push(FingerprintField::Str(key));
    fs.push(FingerprintField::Str(obs.kind.tag().to_string()));
    fs.push(FingerprintField::Str(obs.severity.to_string()));
    let ghost head = fields_view(fs@);
    match &obs.kind {
        ObservationKind::Log => {},
        ObservationKind::Query { sql, .. } => {
            fs.push(FingerprintField::Str(sql.clone()));
        },
        ObservationKind::HttpExchange { method, url, status, .. } => {
            fs.push(FingerprintField::Str(method.clone()));
            fs.push(FingerprintField::Str(url.clone()));
            fs.push(FingerprintField::OptU16(*status));
        },
        ObservationKind::Exception { message, trace } => {
            fs.push(FingerprintField::Str(message.clone()));
            fs.push(FingerprintField::OptStr(crate::types::observation::dup_opt_string(trace)));
        },
        ObservationKind::JsException { message, line, column } => {
            fs.push(FingerprintField::Str(message.clone()));
            fs.push(FingerprintField::OptU32(*line));
            fs.push(FingerprintField::OptU32(*column));
        },
        ObservationKind::StateSnapshot { label } => {
            fs.push(FingerprintField::Str(label.clone()));
        },
        ObservationKind::Metric { name, value_bits } => {
            fs.push(FingerprintField::Str(name.clone()));
            fs.push(FingerprintField::U64(*value_bits));
        },
        ObservationKind::Custom { channel } => {
            fs.push(FingerprintField::Str(channel.clone()));
        },
        ObservationKind::Lifecycle { event_name, frame_id } => {
            fs.push(FingerprintField::Str(event_name.clone()));
            fs.push(FingerprintField::Str(frame_id.clone()));
        },
        ObservationKind::ToolCall { tool, input, .. } => {
            fs.push(FingerprintField::Str(tool.clone()));
            fs.push(FingerprintField::Str(input.clone()));
        },
    }
    assert(fields_view(fs@) =~= head + kind_fields(obs.kind));
    fs.push(FingerprintField::Str(obs.data.clone()));
    assert(fields_view(fs@) =~= fingerprint_fields(*obs));
    fs
}

impl ObservationHashCache {
    /// The burst-deduplication fingerprint of an observation.
    pub fn dedup_fingerprint(obs: &Observation) -> (r: u64)
        ensures
            r == spec_default_hash(fingerprint_fields(*obs)),
    {
        let fs = fingerprint_field_list(obs);
        default_hash(&fs)
    }
}

/// Observations that agree in origin key, kind, severity and payload share
/// a fingerprint, whatever their ids, timestamps, sessions, tags or other
/// metadata.
pub proof fn lemma_fingerprint_ignores_metadata(a: Observation, b: Observation)
    requires
        origin_key(a.origin) == origin_key(b.origin),
        a.kind == b.kind,
        a.severity == b.severity,
        a.data@ == b.data@,
    ensures
        spec_default_hash(fingerprint_fields(a)) == spec_default_hash(fingerprint_fields(b)),
{
    assert(fingerprint_fields(a) =~= fingerprint_fields(b));
}

} // verus!
verus! {

/// Two kinds agree in everything that identifies an event of that kind:
/// the statement of a query; the method, URL and status of an HTTP
/// exchange; the message and trace of an exception; the message, line and
/// column of a script exception; a snapshot's label; a metric's name and
/// value; a custom channel; a lifecycle event and frame; a tool and its
/// input.
pub open spec fn same_event_identity(a: ObservationKind, b: ObservationKind) -> bool {
    match (a, b) {
        (ObservationKind::Log, ObservationKind::Log) => true,
        (ObservationKind::Query { sql: x, .. }, ObservationKind::Query { sql: y, .. }) => x@ == y@,
        (
            ObservationKind::HttpExchange { method: m1, url: u1, status: s1, .. },
            ObservationKind::HttpExchange { method: m2, url: u2, status: s2, .. },
        ) => m1@ == m2@ && u1@ == u2@ && s1 == s2,
        (
            ObservationKind::Exception { message: m1, trace: t1 },
            ObservationKind::Exception { message: m2, trace: t2 },
        ) => m1@ == m2@ && opt_view(t1) == opt_view(t2),
        (
            ObservationKind::JsException { message: m1, line: l1, column: c1 },
            ObservationKind::JsException { message: m2, line: l2, column: c2 },
        ) => m1@ == m2@ && l1 == l2 && c1 == c2,
        (ObservationKind::StateSnapshot { label: x }, ObservationKind::StateSnapshot { label: y }) => x@
            == y@,
        (
            ObservationKind::Metric { name: n1, value_bits: v1 },
            ObservationKind::Metric { name: n2, value_bits: v2 },
        ) => n1@ == n2@ && v1 == v2,
        (ObservationKind::Custom { channel: x }, ObservationKind::Custom { channel: y }) => x@ == y@,
        (
            ObservationKind::Lifecycle { event_name: e1, frame_id: f1 },
            ObservationKind::Lifecycle { event_name: e2, frame_id: f2 },
        ) => e1@ == e2@ && f1@ == f2@,
        (
            ObservationKind::ToolCall { tool: t1, input: i1, .. },
            ObservationKind::ToolCall { tool: t2, input: i2, .. },
        ) => t1@ == t2@ && i1@ == i2@,
        _ => false,
    }
}

/// Observations whose fingerprints are computed from the same values agree
/// in origin key, kind, severity, payload and every identifying field of
/// the kind: events that differ in any of these (such as two exceptions
/// with different messages) are never taken for one another.
pub proof fn lemma_fingerprint_fields_tell_events_apart(a: Observation, b: Observation)
    requires
        fingerprint_fields(a) == fingerprint_fields(b),
    ensures
        origin_key(a.origin) == origin_key(b.origin),
        a.kind.spec_tag() == b.kind.spec_tag(),
        a.severity == b.severity,
        a.data@ == b.data@,
        same_event_identity(a.kind, b.kind),
{
    let fa = fingerprint_fields(a);
    let fb = fingerprint_fields(b);
    let ha = seq![
        FieldView::Str(origin_key(a.origin)),
        FieldView::Str(a.kind.spec_tag().spec_name()),
        FieldView::Str(a.severity.spec_name()),
    ];
    let hb = seq![
        FieldView::Str(origin_key(b.origin)),
        FieldView::Str(b.kind.spec_tag().spec_name()),
        FieldView::Str(b.severity.spec_name()),
    ];
    let ka = kind_fields(a.kind);
    let kb = kind_fields(b.kind);
    assert(fa == ha + ka + seq![FieldView::Str(a.data@)]);
    assert(fb == hb + kb + seq![FieldView::Str(b.data@)]);
    assert(fa[0] == ha[0] && fb[0] == hb[0]);
    assert(fa[1] == ha[1] && fb[1] == hb[1]);
    assert(fa[2] == ha[2] && fb[2] == hb[2]);
    crate::types::kinds::lemma_observation_kind_tag_name_roundtrip(a.kind.spec_tag());
    crate::types::kinds::lemma_severity_name_roundtrip(a.severity);
    assert(a.kind.spec_tag() == b.kind.spec_tag());
    lemma_kind_fields_len(a.kind, b.kind);
    assert(ka.len() == kb.len());
    assert forall|i: int| 0 <= i < ka.len() implies ka[i] == kb[i] by {
        assert(fa[3 + i] == ka[i]);
        assert(fb[3 + i] == kb[i]);
    }
    let last = fa.len() - 1;
    assert(fa[last] == FieldView::Str(a.data@));
    assert(fb[last] == FieldView::Str(b.data@));
    lemma_same_fields_same_identity(a.kind, b.kind);
}

proof fn lemma_kind_fields_len(a: ObservationKind, b: ObservationKind)
    requires
        a.spec_tag() == b.spec_tag(),
    ensures
        kind_fields(a).len() == kind_fields(b).len(),
{
}

proof fn lemma_same_fields_same_identity(a: ObservationKind, b: ObservationKind)
    requires
        a.spec_tag() == b.spec_tag(),
        kind_fields(a).len() == kind_fields(b).len(),
        forall|i: int| 0 <= i < kind_fields(a).len() ==> kind_fields(a)[i] == kind_fields(b)[i],
    ensures
        same_event_identity(a, b),
{
    let ka = kind_fields(a);
    let kb = kind_fields(b);
    if ka.len() > 0 {
        assert(ka[0] == kb[0]);
    }
    if ka.len() > 1 {
        assert(ka[1] == kb[1]);
    }
    if ka.len() > 2 {
        assert(ka[2] == kb[2]);
    }
}

/// Two exceptions that differ in their message have different fingerprint
/// values, whatever else they share.
pub proof fn lemma_exception_message_in_fingerprint(a: Observation, b: Observation)
    requires
        a.kind matches ObservationKind::Exception { message: m1, .. } && b.kind matches ObservationKind::Exception { message: m2, .. } && m1@ != m2@,
    ensures
        fingerprint_fields(a) != fingerprint_fields(b),
{
    if fingerprint_fields(a) == fingerprint_fields(b) {
        lemma_fingerprint_fields_tell_events_apart(a, b);
    }
}

} // verus!
