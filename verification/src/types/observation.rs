//! Observation records, their origins and the text that searches run over.
use vstd::prelude::*;

use super::kinds::{DevicePlatform, ObservationKindTag, Severity};
use crate::text::{
    chars_of, decimal, push_char, push_str, slice_to_vec, string_of, u64_to_string, views,
};

verus! {

/// Upper bound, in UTF-8 bytes, of the materialized search text.
pub const OBSERVATION_SEARCH_TEXT_LIMIT_BYTES: usize = 16384;

/// Browser tab identifier.
#[derive(Debug, Clone, PartialEq, Eq, Hash)]
pub struct TabId(String);

/// Session identifier.
#[derive(Debug, Clone, PartialEq, Eq, Hash)]
pub struct SessionId(String);

/// Device serial number.
#[derive(Debug, Clone, PartialEq, Eq, Hash)]
pub struct DeviceSerial(String);

/// Application name.
#[derive(Debug, Clone, PartialEq, Eq, Hash)]
pub struct AppName(String);

impl View for TabId {
    type V = Seq<char>;

    closed spec fn view(&self) -> Seq<char> {
        self.0@
    }
}

impl View for SessionId {
    type V = Seq<char>;

    closed spec fn view(&self) -> Seq<char> {
        self.0@
    }
}

impl View for DeviceSerial {
    type V = Seq<char>;

    closed spec fn view(&self) -> Seq<char> {
        self.0@
    }
}

impl View for AppName {
    type V = Seq<char>;

    closed spec fn view(&self) -> Seq<char> {
        self.0@
    }
}

impl TabId {
    /// An equal copy.
    pub fn dup(&self) -> (r: TabId)
        ensures
            r == *self,
    {
        TabId(self.0.clone())
    }

    /// Builds the identifier from its text.
    pub fn new(s: &str) -> (r: TabId)
        ensures
            r@ == s@,
    {
        TabId(s.to_owned())
    }

    /// The identifier's text.
    pub fn as_str(&self) -> (r: &str)
        ensures
            r@ == self@,
    {
        self.0.as_str()
    }
}

impl SessionId {
    /// An equal copy.
    pub fn dup(&self) -> (r: SessionId)
        ensures
            r == *self,
    {
        SessionId(self.0.clone())
    }

    /// Builds the identifier from its text.
    pub fn new(s: &str) -> (r: SessionId)
        ensures
            r@ == s@,
    {
        SessionId(s.to_owned())
    }

    /// The identifier's text.
    pub fn as_str(&self) -> (r: &str)
        ensures
            r@ == self@,
    {
        self.0.as_str()
    }
}

impl DeviceSerial {
    /// An equal copy.
    pub fn dup(&self) -> (r: DeviceSerial)
        ensures
            r == *self,
    {
        DeviceSerial(self.0.clone())
    }

    /// Builds the serial from its text.
    pub fn new(s: &str) -> (r: DeviceSerial)
        ensures
            r@ == s@,
    {
        DeviceSerial(s.to_owned())
    }

    /// The serial's text.
    pub fn as_str(&self) -> (r: &str)
        ensures
            r@ == self@,
    {
        self.0.as_str()
    }
}

impl AppName {
    /// An equal copy.
    pub fn dup(&self) -> (r: AppName)
        ensures
            r == *self,
    {
        AppName(self.0.clone())
    }

    /// Builds the name from its text.
    pub fn new(s: &str) -> (r: AppName)
        ensures
            r@ == s@,
    {
        AppName(s.to_owned())
    }

    /// The name's text.
    pub fn as_str(&self) -> (r: &str)
        ensures
            r@ == self@,
    {
        self.0.as_str()
    }
}


/// Where an observation came from.
#[derive(Debug, Clone)]
pub enum Origin {
    Application { name: AppName },
    Browser { tab_id: TabId, url: String },
    Device { serial: DeviceSerial, platform: DevicePlatform },
}

/// Kind-specific content of an observation. Decimal quantities are kept as
/// the IEEE-754 bit pattern of the `f64` the wire format carries, and JSON
/// payloads as their compact JSON text.
#[derive(Debug, Clone)]
pub enum ObservationKind {
    Log,
    Query { sql: String, duration_ms_bits: u64 },
    HttpExchange {
        method: String,
        url: String,
        status: Option<u16>,
        duration_ms_bits: Option<u64>,
    },
    Exception { message: String, trace: Option<String> },
    StateSnapshot { label: String },
    Metric { name: String, value_bits: u64 },
    Custom { channel: String },
    JsException { message: String, line: Option<u32>, column: Option<u32> },
    Lifecycle { event_name: String, frame_id: String },
    ToolCall {
        tool: String,
        input: String,
        output: Option<String>,
        exit_code: Option<i32>,
        duration_ms_bits: Option<u64>,
    },
}

impl ObservationKind {
    /// The payload-free tag of this kind.
    pub open spec fn spec_tag(&self) -> ObservationKindTag {
        match self {
            ObservationKind::Log => ObservationKindTag::Log,
            ObservationKind::Query { .. } => ObservationKindTag::Query,
            ObservationKind::HttpExchange { .. } => ObservationKindTag::HttpExchange,
            ObservationKind::Exception { .. } => ObservationKindTag::Exception,
            ObservationKind::StateSnapshot { .. } => ObservationKindTag::StateSnapshot,
            ObservationKind::Metric { .. } => ObservationKindTag::Metric,
            ObservationKind::Custom { .. } => ObservationKindTag::Custom,
            ObservationKind::JsException { .. } => ObservationKindTag::JsException,
            ObservationKind::Lifecycle { .. } => ObservationKindTag::Lifecycle,
            ObservationKind::ToolCall { .. } => ObservationKindTag::ToolCall,
        }
    }

    /// The payload-free tag of this kind.
    pub fn tag(&self) -> (r: ObservationKindTag)
        ensures
            r == self.spec_tag(),
    {
        match self {
            ObservationKind::Log => ObservationKindTag::Log,
            ObservationKind::Query { .. } => ObservationKindTag::Query,
            ObservationKind::HttpExchange { .. } => ObservationKindTag::HttpExchange,
            ObservationKind::Exception { .. } => ObservationKindTag::Exception,
            ObservationKind::StateSnapshot { .. } => ObservationKindTag::StateSnapshot,
            ObservationKind::Metric { .. } => ObservationKindTag::Metric,
            ObservationKind::Custom { .. } => ObservationKindTag::Custom,
            ObservationKind::JsException { .. } => ObservationKindTag::JsException,
            ObservationKind::Lifecycle { .. } => ObservationKindTag::Lifecycle,
            ObservationKind::ToolCall { .. } => ObservationKindTag::ToolCall,
        }
    }
}

/// Source position that produced an observation.
#[derive(Debug, Clone)]
pub struct SourceLocation {
    pub file: String,
    pub line: u32,
    pub function: Option<String>,
}

/// One observation. `data` is the compact JSON text of the payload and
/// `kind_json` the compact JSON text of `kind` in the wire format; whoever
/// builds the value from the wire keeps both in step with `kind`.
#[derive(Debug, Clone)]
pub struct Observation {
    pub id: u64,
    pub origin: Origin,
    pub kind: ObservationKind,
    pub kind_json: String,
    pub data: String,
    pub severity: Severity,
    pub source_location: Option<SourceLocation>,
    pub service: Option<String>,
    pub source: Option<String>,
    pub source_instance: Option<String>,
    pub timestamp_ns: u64,
    pub correlation_id: Option<String>,
    pub parent_id: Option<u64>,
    pub tags: Option<Vec<String>>,
    pub session_id: Option<String>,
    pub node_id: Option<String>,
    pub debug_session_id: Option<String>,
    pub checkpoint_id: Option<String>,
    pub error_hash: Option<String>,
}

impl Observation {
    /// A fresh observation with `id` 0 (the store assigns the real sequence
    /// on insert), the given timestamp and no optional metadata.
    pub fn new(
        origin: Origin,
        kind: ObservationKind,
        kind_json: String,
        data: String,
        severity: Severity,
        source_location: Option<SourceLocation>,
        timestamp_ns: u64,
    ) -> (r: Observation)
        ensures
            r == (Observation {
                id: 0,
                origin,
                kind,
                kind_json,
                data,
                severity,
                source_location,
                service: None,
                source: None,
                source_instance: None,
                timestamp_ns,
                correlation_id: None,
                parent_id: None,
                tags: None,
                session_id: None,
                node_id: None,
                debug_session_id: None,
                checkpoint_id: None,
                error_hash: None,
            }),
    {
        Observation {
            id: 0,
            origin,
            kind,
            kind_json,
            data,
            severity,
            source_location,
            service: None,
            source: None,
            source_instance: None,
            timestamp_ns,
            correlation_id: None,
            parent_id: None,
            tags: None,
            session_id: None,
            node_id: None,
            debug_session_id: None,
            checkpoint_id: None,
            error_hash: None,
        }
    }
}

/// Class name of an origin: `application`, `browser` or `device`.
pub open spec fn origin_class(origin: Origin) -> Seq<char> {
    match origin {
        Origin::Application { .. } => "application"@,
        Origin::Browser { .. } => "browser"@,
        Origin::Device { .. } => "device"@,
    }
}

/// Compact key of an origin: `app:<name>`, `browser:<tab>` or `device:<serial>`.
pub open spec fn origin_key(origin: Origin) -> Seq<char> {
    match origin {
        Origin::Application { name } => "app:"@ + name@,
        Origin::Browser { tab_id, .. } => "browser:"@ + tab_id@,
        Origin::Device { serial, .. } => "device:"@ + serial@,
    }
}

/// Searchable description of an origin.
pub open spec fn origin_search(origin: Origin) -> Seq<char> {
    match origin {
        Origin::Application { name } => "application "@ + name@,
        Origin::Browser { tab_id, url } => "browser "@ + tab_id@ + " "@ + url@,
        Origin::Device { serial, platform } => "device "@ + serial@ + " "@
            + platform.spec_debug_name(),
    }
}

/// Class name and compact key of an origin.
pub fn observation_origin_fields(origin: &Origin) -> (r: (&'static str, String))
    ensures
        r.0@ == origin_class(*origin),
        r.1@ == origin_key(*origin),
{
    match origin {
        Origin::Application { name } => {
            let mut k = "app:".to_owned();
            push_str(&mut k, name.as_str());
            ("application", k)
        },
        Origin::Browser { tab_id, .. } => {
            let mut k = "browser:".to_owned();
            push_str(&mut k, tab_id.as_str());
            ("browser", k)
        },
        Origin::Device { serial, .. } => {
            let mut k = "device:".to_owned();
            push_str(&mut k, serial.as_str());
            ("device", k)
        },
    }
}

fn origin_search_text(origin: &Origin) -> (r: String)
    ensures
        r@ == origin_search(*origin),
{
    match origin {
        Origin::Application { name } => {
            let mut k = "application ".to_owned();
            push_str(&mut k, name.as_str());
            k
        },
        Origin::Browser { tab_id, url } => {
            let mut k = "browser ".to_owned();
            push_str(&mut k, tab_id.as_str());
            push_str(&mut k, " ");
            push_str(&mut k, url.as_str());
            k
        },
        Origin::Device { serial, platform } => {
            let mut k = "device ".to_owned();
            push_str(&mut k, serial.as_str());
            push_str(&mut k, " ");
            push_str(&mut k, platform.debug_name());
            k
        },
    }
}

/// A present optional part, as a one-element list.
pub open spec fn opt_part(o: Option<String>) -> Seq<Seq<char>> {
    match o {
        Some(s) => seq![s@],
        None => seq![],
    }
}


/// Appends `part` to `acc`, separated by one space; empty parts are skipped.
pub open spec fn join_part(acc: Seq<char>, part: Seq<char>) -> Seq<char> {
    if part.len() == 0 {
        acc
    } else if acc.len() == 0 {
        part
    } else {
        acc + seq![' '] + part
    }
}

/// All non-empty parts, in order, separated by single spaces.
pub open spec fn join_parts(parts: Seq<Seq<char>>) -> Seq<char>
    decreases parts.len(),
{
    if parts.len() == 0 {
        seq![]
    } else {
        join_part(join_parts(parts.drop_last()), parts.last())
    }
}

/// Leading parts of the search text: severity, kind tag, origin key, origin
/// description and the kind's JSON text.
pub open spec fn head_parts(obs: Observation) -> Seq<Seq<char>> {
    seq![
        obs.severity.spec_name(),
        obs.kind.spec_tag().spec_name(),
        origin_key(obs.origin),
        origin_search(obs.origin),
        obs.kind_json@,
    ]
}

/// The observation's tags, if any.
pub open spec fn tag_parts(obs: Observation) -> Seq<Seq<char>> {
    match obs.tags {
        Some(t) => views(t@),
        None => seq![],
    }
}

/// File, line and function of the source location, if any.
pub open spec fn location_parts(obs: Observation) -> Seq<Seq<char>> {
    match obs.source_location {
        Some(l) => seq![l.file@, decimal(l.line as nat)] + opt_part(l.function),
        None => seq![],
    }
}

/// Provenance metadata that is present: service, source, source instance
/// and correlation id.
pub open spec fn provenance_parts(obs: Observation) -> Seq<Seq<char>> {
    opt_part(obs.service) + opt_part(obs.source) + opt_part(obs.source_instance) + opt_part(
        obs.correlation_id,
    )
}

/// The parent id in decimal, if any.
pub open spec fn parent_parts(obs: Observation) -> Seq<Seq<char>> {
    match obs.parent_id {
        Some(p) => seq![decimal(p as nat)],
        None => seq![],
    }
}

/// Session, node, debug session, checkpoint and error hash ids that are present.
pub open spec fn session_parts(obs: Observation) -> Seq<Seq<char>> {
    opt_part(obs.session_id) + opt_part(obs.node_id) + opt_part(obs.debug_session_id) + opt_part(
        obs.checkpoint_id,
    ) + opt_part(obs.error_hash)
}

/// Provenance and correlation metadata that is present.
pub open spec fn meta_parts(obs: Observation) -> Seq<Seq<char>> {
    provenance_parts(obs) + parent_parts(obs) + session_parts(obs)
}

/// The parts of an observation's search text, in the order they are written.
pub open spec fn search_parts(obs: Observation) -> Seq<Seq<char>> {
    head_parts(obs) + tag_parts(obs) + location_parts(obs) + meta_parts(obs) + seq![obs.data@]
}

/// Number of bytes in the UTF-8 encoding of one character.
pub open spec fn char_utf8_len(c: char) -> nat {
    if (c as u32) < 0x80 {
        1
    } else if (c as u32) < 0x800 {
        2
    } else if (c as u32) < 0x10000 {
        3
    } else {
        4
    }
}

/// Number of bytes in the UTF-8 encoding of a character sequence.
pub open spec fn utf8_len(s: Seq<char>) -> nat
    decreases s.len(),
{
    if s.len() == 0 {
        0
    } else {
        utf8_len(s.drop_last()) + char_utf8_len(s.last())
    }
}

/// Longest prefix of `s` whose UTF-8 encoding fits in `limit` bytes.
pub open spec fn truncate_utf8(s: Seq<char>, limit: nat) -> Seq<char>
    decreases s.len(),
{
    if utf8_len(s) <= limit || s.len() == 0 {
        s
    } else {
        truncate_utf8(s.drop_last(), limit)
    }
}

/// The text that free-text filters search: every non-empty part of the
/// observation, space-separated, cut to the byte limit at a character
/// boundary.
pub open spec fn search_text(obs: Observation) -> Seq<char> {
    truncate_utf8(join_parts(search_parts(obs)), OBSERVATION_SEARCH_TEXT_LIMIT_BYTES as nat)
}

fn push_search_part(text: &mut String, part: &str)
    ensures
        final(text)@ == join_part(old(text)@, part@),
{
    if part.is_empty() {
        return ;
    }
    if !text.as_str().is_empty() {
        push_char(text, ' ');
    }
    push_str(text, part);
    proof {
        assert(final(text)@ =~= join_part(old(text)@, part@));
    }
}

proof fn lemma_join_push(parts: Seq<Seq<char>>, p: Seq<char>)
    ensures
        join_parts(parts.push(p)) == join_part(join_parts(parts), p),
{
    assert(parts.push(p).drop_last() =~= parts);
}

fn push_head_parts(text: &mut String, obs: &Observation)
    requires
        old(text)@ == Seq::<char>::empty(),
    ensures
        final(text)@ == join_parts(head_parts(*obs)),
{
    let ghost mut ps: Seq<Seq<char>> = seq![];
    proof {
        assert(join_parts(ps) =~= Seq::<char>::empty());
    }
    let sev = obs.severity.to_string();
    push_search_part(text, sev.as_str());
    proof { lemma_join_push(ps, sev@); ps = ps.push(sev@); }
    let tag = obs.kind.tag().to_string();
    push_search_part(text, tag.as_str());
    proof { lemma_join_push(ps, tag@); ps = ps.push(tag@); }
    let (_, key) = observation_origin_fields(&obs.origin);
    push_search_part(text, key.as_str());
    proof { lemma_join_push(ps, key@); ps = ps.push(key@); }
    let os = origin_search_text(&obs.origin);
    push_search_part(text, os.as_str());
    proof { lemma_join_push(ps, os@); ps = ps.push(os@); }
    push_search_part(text, obs.kind_json.as_str());
    proof {
        lemma_join_push(ps, obs.kind_json@);
        ps = ps.push(obs.kind_json@);
        assert(ps =~= head_parts(*obs));
    }
}

fn push_tag_parts(text: &mut String, obs: &Observation, Ghost(base): Ghost<Seq<Seq<char>>>)
    requires
        old(text)@ == join_parts(base),
    ensures
        final(text)@ == join_parts(base + tag_parts(*obs)),
{
    let ghost mut ps = base;
    if let Some(tags) = &obs.tags {
        let mut i: usize = 0;
        while i < tags.len()
            invariant
                i <= tags.len(),
                ps == base + views(tags@).take(i as int),
                text@ == join_parts(ps),
            decreases tags.len() - i,
        {
            push_search_part(text, tags[i].as_str());
            proof {
                lemma_join_push(ps, tags@[i as int]@);
                assert(base + views(tags@).take(i + 1) =~= (base + views(tags@).take(
                    i as int,
                )).push(tags@[i as int]@));
                ps = ps.push(tags@[i as int]@);
            }
            i += 1;
        }
        proof {
            assert(views(tags@).take(tags@.len() as int) =~= views(tags@));
        }
    } else {
        proof {
            assert(base + tag_parts(*obs) =~= base);
        }
    }
}

fn push_location_parts(text: &mut String, obs: &Observation, Ghost(base): Ghost<Seq<Seq<char>>>)
    requires
        old(text)@ == join_parts(base),
    ensures
        final(text)@ == join_parts(base + location_parts(*obs)),
{
    let ghost mut ps = base;
    if let Some(loc) = &obs.source_location {
        push_search_part(text, loc.file.as_str());
        proof { lemma_join_push(ps, loc.file@); ps = ps.push(loc.file@); }
        let ln = u64_to_string(loc.line as u64);
        push_search_part(text, ln.as_str());
        proof { lemma_join_push(ps, ln@); ps = ps.push(ln@); }
        if let Some(f) = &loc.function {
            push_search_part(text, f.as_str());
            proof { lemma_join_push(ps, f@); ps = ps.push(f@); }
        }
        proof {
            assert(ps =~= base + location_parts(*obs));
        }
    } else {
        proof {
            assert(base + location_parts(*obs) =~= base);
        }
    }
}

fn push_provenance_parts(
    text: &mut String,
    obs: &Observation,
    Ghost(base): Ghost<Seq<Seq<char>>>,
)
    requires
        old(text)@ == join_parts(base),
    ensures
        final(text)@ == join_parts(base + provenance_parts(*obs)),
{
    let ghost mut ps = base;
    push_opt_part(text, &obs.service, Ghost(ps));
    proof { ps = ps + opt_part(obs.service); }
    push_opt_part(text, &obs.source, Ghost(ps));
    proof { ps = ps + opt_part(obs.source); }
    push_opt_part(text, &obs.source_instance, Ghost(ps));
    proof { ps = ps + opt_part(obs.source_instance); }
    push_opt_part(text, &obs.correlation_id, Ghost(ps));
    proof {
        ps = ps + opt_part(obs.correlation_id);
        assert(ps =~= base + provenance_parts(*obs));
    }
}

fn push_session_parts(text: &mut String, obs: &Observation, Ghost(base): Ghost<Seq<Seq<char>>>)
    requires
        old(text)@ == join_parts(base),
    ensures
        final(text)@ == join_parts(base + session_parts(*obs)),
{
    let ghost mut ps = base;
    push_opt_part(text, &obs.session_id, Ghost(ps));
    proof { ps = ps + opt_part(obs.session_id); }
    push_opt_part(text, &obs.node_id, Ghost(ps));
    proof { ps = ps + opt_part(obs.node_id); }
    push_opt_part(text, &obs.debug_session_id, Ghost(ps));
    proof { ps = ps + opt_part(obs.debug_session_id); }
    push_opt_part(text, &obs.checkpoint_id, Ghost(ps));
    proof { ps = ps + opt_part(obs.checkpoint_id); }
    push_opt_part(text, &obs.error_hash, Ghost(ps));
    proof {
        ps = ps + opt_part(obs.error_hash);
        assert(ps =~= base + session_parts(*obs));
    }
}

fn push_meta_parts(text: &mut String, obs: &Observation, Ghost(base): Ghost<Seq<Seq<char>>>)
    requires
        old(text)@ == join_parts(base),
    ensures
        final(text)@ == join_parts(base + meta_parts(*obs)),
{
    push_provenance_parts(text, obs, Ghost(base));
    let ghost b1 = base + provenance_parts(*obs);
    if let Some(p) = obs.parent_id {
        let pt = u64_to_string(p);
        push_search_part(text, pt.as_str());
        proof {
            lemma_join_push(b1, pt@);
            assert(b1.push(pt@) =~= b1 + parent_parts(*obs));
        }
    } else {
        proof {
            assert(b1 + parent_parts(*obs) =~= b1);
        }
    }
    let ghost b2 = b1 + parent_parts(*obs);
    push_session_parts(text, obs, Ghost(b2));
    proof {
        assert(b2 + session_parts(*obs) =~= base + meta_parts(*obs));
    }
}

/// Materializes the search text of an observation.
pub fn observation_search_text(obs: &Observation) -> (r: String)
    ensures
        r@ == search_text(*obs),
{
    let mut text = String::new();
    push_head_parts(&mut text, obs);
    let ghost p1 = head_parts(*obs);
    push_tag_parts(&mut text, obs, Ghost(p1));
    let ghost p2 = p1 + tag_parts(*obs);
    push_location_parts(&mut text, obs, Ghost(p2));
    let ghost p3 = p2 + location_parts(*obs);
    push_meta_parts(&mut text, obs, Ghost(p3));
    let ghost p4 = p3 + meta_parts(*obs);
    push_search_part(&mut text, obs.data.as_str());
    proof {
        lemma_join_push(p4, obs.data@);
        assert(p4.push(obs.data@) =~= search_parts(*obs));
    }
    truncate_observation_search_text(text)
}

fn push_opt_part(text: &mut String, part: &Option<String>, Ghost(ps): Ghost<Seq<Seq<char>>>)
    requires
        old(text)@ == join_parts(ps),
    ensures
        final(text)@ == join_parts(ps + opt_part(*part)),
{
    match part {
        Some(p) => {
            push_search_part(text, p.as_str());
            proof {
                lemma_join_push(ps, p@);
                assert(ps + opt_part(*part) =~= ps.push(p@));
            }
        },
        None => {
            proof {
                assert(ps + opt_part(*part) =~= ps);
            }
        },
    }
}

proof fn lemma_utf8_len_push(s: Seq<char>, c: char)
    ensures
        utf8_len(s.push(c)) == utf8_len(s) + char_utf8_len(c),
{
    assert(s.push(c).drop_last() =~= s);
}

proof fn lemma_truncate_at(s: Seq<char>, k: int, m: int, limit: nat)
    requires
        0 <= k <= m <= s.len(),
        utf8_len(s.take(k)) <= limit,
        forall|j: int| k < j <= s.len() ==> utf8_len(#[trigger] s.take(j)) > limit,
    ensures
        truncate_utf8(s.take(m), limit) == s.take(k),
    decreases m - k,
{
    if m > k {
        assert(s.take(m).drop_last() =~= s.take(m - 1));
        lemma_truncate_at(s, k, m - 1, limit);
    }
}

fn utf8_width(c: char) -> (r: usize)
    ensures
        r == char_utf8_len(c),
{
    let v = c as u32;
    if v < 0x80 {
        1
    } else if v < 0x800 {
        2
    } else if v < 0x10000 {
        3
    } else {
        4
    }
}

fn truncate_observation_search_text(text: String) -> (r: String)
    ensures
        r@ == truncate_utf8(text@, OBSERVATION_SEARCH_TEXT_LIMIT_BYTES as nat),
{
    let chars = chars_of(text.as_str());
    let n = chars.len();
    let mut k: usize = 0;
    let mut bytes: usize = 0;
    while k < n && bytes + utf8_width(chars[k]) <= OBSERVATION_SEARCH_TEXT_LIMIT_BYTES
        invariant
            k <= n,
            n == chars@.len(),
            chars@ == text@,
            bytes == utf8_len(chars@.take(k as int)),
            bytes <= OBSERVATION_SEARCH_TEXT_LIMIT_BYTES,
        decreases n - k,
    {
        proof {
            assert(chars@.take(k + 1) =~= chars@.take(k as int).push(chars@[k as int]));
            lemma_utf8_len_push(chars@.take(k as int), chars@[k as int]);
        }
        bytes = bytes + utf8_width(chars[k]);
        k += 1;
    }
    proof {
        let s = chars@;
        let lim = OBSERVATION_SEARCH_TEXT_LIMIT_BYTES as nat;
        if k < n {
            assert(s.take(k + 1) =~= s.take(k as int).push(s[k as int]));
            lemma_utf8_len_push(s.take(k as int), s[k as int]);
            assert forall|j: int| k < j <= s.len() implies utf8_len(#[trigger] s.take(j)) > lim by {
                lemma_utf8_len_monotone(s, k + 1, j);
            }
        }
        lemma_truncate_at(s, k as int, s.len() as int, lim);
        assert(s.take(s.len() as int) =~= s);
    }
    let prefix = slice_to_vec(chars.as_slice(), 0, k);
    proof {
        assert(chars@.subrange(0, k as int) =~= chars@.take(k as int));
    }
    string_of(prefix.as_slice())
}

proof fn lemma_utf8_len_monotone(s: Seq<char>, a: int, b: int)
    requires
        0 <= a <= b <= s.len(),
    ensures
        utf8_len(s.take(a)) <= utf8_len(s.take(b)),
    decreases b - a,
{
    if b > a {
        assert(s.take(b).drop_last() =~= s.take(b - 1));
        lemma_utf8_len_monotone(s, a, b - 1);
    }
}

/// An equal copy of an optional string.
pub fn dup_opt_string(s: &Option<String>) -> (r: Option<String>)
    ensures
        r == *s,
{
    match s {
        Some(x) => Some(x.clone()),
        None => None,
    }
}

impl Origin {
    /// An equal copy.
    pub fn dup(&self) -> (r: Origin)
        ensures
            r == *self,
    {
        match self {
            Origin::Application { name } => Origin::Application { name: name.dup() },
            Origin::Browser { tab_id, url } => Origin::Browser {
                tab_id: tab_id.dup(),
                url: url.clone(),
            },
            Origin::Device { serial, platform } => Origin::Device {
                serial: serial.dup(),
                platform: *platform,
            },
        }
    }
}

impl SourceLocation {
    /// An equal copy.
    pub fn dup(&self) -> (r: SourceLocation)
        ensures
            r == *self,
    {
        SourceLocation {
            file: self.file.clone(),
            line: self.line,
            function: dup_opt_string(&self.function),
        }
    }
}

/// An equal copy of an optional source location.
pub fn dup_opt_location(l: &Option<SourceLocation>) -> (r: Option<SourceLocation>)
    ensures
        r == *l,
{
    match l {
        Some(x) => Some(x.dup()),
        None => None,
    }
}

} // verus!
