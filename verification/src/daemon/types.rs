//! Observation types of the daemon's store and ingest crates. Origins,
//! identifiers, severities and connection records are shared with
//! `crate::types`; the kinds, observations and filters here are the
//! daemon's own, narrower ones.
use vstd::prelude::*;

pub use crate::types::filter::OriginPattern;
pub use crate::types::kinds::{
    Checkpoint, ConnectionInfo, ConnectionKind, DevicePlatform, HealthStatus, RuntimeSummary,
    Severity,
};
pub use crate::types::observation::{AppName, DeviceSerial, Origin, SessionId, SourceLocation, TabId};
use crate::text::{chars_eq, contains, contains_chars, lower, lower_chars, push_str, string_of};

verus! {

/// Browser debugging actions that agents may request.
#[derive(Debug, Clone, Copy, PartialEq, Eq, Structural)]
pub enum DebugAction {
    EvalJs,
    Screenshot,
    InjectCss,
    RevertCss,
    ListTabs,
    GetPerfMetrics,
    GetDom,
    SetViewport,
    ClearViewport,
    NetworkConditions,
    Navigate,
    StorageClear,
    StorageInspect,
    StorageSet,
    ElementAtPoint,
}

/// Enum discriminant without payload, used for filtering and matching.
#[derive(Debug, Clone, Copy, PartialEq, Eq, Hash, Structural)]
pub enum ObservationKindTag {
    Log,
    Query,
    HttpExchange,
    Exception,
    StateSnapshot,
    Metric,
    Custom,
    JsException,
    Lifecycle,
}

impl ObservationKindTag {
    /// The snake_case name of the value, as `to_string` writes it.
    pub open spec fn spec_name(self) -> Seq<char> {
        match self {
            ObservationKindTag::Log => "log"@,
            ObservationKindTag::Query => "query"@,
            ObservationKindTag::HttpExchange => "http_exchange"@,
            ObservationKindTag::Exception => "exception"@,
            ObservationKindTag::StateSnapshot => "state_snapshot"@,
            ObservationKindTag::Metric => "metric"@,
            ObservationKindTag::Custom => "custom"@,
            ObservationKindTag::JsException => "js_exception"@,
            ObservationKindTag::Lifecycle => "lifecycle"@,
        }
    }

    /// The value named by `s`, ignoring ASCII case.
    pub open spec fn spec_parse(s: Seq<char>) -> Option<ObservationKindTag> {
        if exists|v: ObservationKindTag| #[trigger] v.spec_name() == lower(s) {
            Some(choose|v: ObservationKindTag| #[trigger] v.spec_name() == lower(s))
        } else {
            None
        }
    }

    /// The snake_case name of the value.
    pub fn name(&self) -> (r: &'static str)
        ensures
            r@ == self.spec_name(),
    {
        match self {
            ObservationKindTag::Log => "log",
            ObservationKindTag::Query => "query",
            ObservationKindTag::HttpExchange => "http_exchange",
            ObservationKindTag::Exception => "exception",
            ObservationKindTag::StateSnapshot => "state_snapshot",
            ObservationKindTag::Metric => "metric",
            ObservationKindTag::Custom => "custom",
            ObservationKindTag::JsException => "js_exception",
            ObservationKindTag::Lifecycle => "lifecycle",
        }
    }

    /// The snake_case name of the value as an owned `String`.
    pub fn to_string(&self) -> (r: String)
        ensures
            r@ == self.spec_name(),
    {
        self.name().to_owned()
    }

    /// Parses a name, ignoring ASCII case; unknown names are refused with
    /// the message `unknown observation kind: <lowercased input>`.
    pub fn parse_name(s: &str) -> (r: Result<ObservationKindTag, String>)
        ensures
            match r {
                Ok(v) => v.spec_name() == lower(s@) && ObservationKindTag::spec_parse(s@) == Some(v),
                Err(e) => (forall|v: ObservationKindTag| #[trigger] v.spec_name() != lower(s@)) && ObservationKindTag::spec_parse(s@) is None && e@ == "unknown observation kind: "@ + lower(s@),
            },
    {
        let low = lower_chars(s);
        if chars_eq(low.as_slice(), "log") {
            proof { lemma_observation_kind_tag_parse_unique(s@, ObservationKindTag::Log); }
            return Ok(ObservationKindTag::Log);
        }
        if chars_eq(low.as_slice(), "query") {
            proof { lemma_observation_kind_tag_parse_unique(s@, ObservationKindTag::Query); }
            return Ok(ObservationKindTag::Query);
        }
        if chars_eq(low.as_slice(), "http_exchange") {
            proof { lemma_observation_kind_tag_parse_unique(s@, ObservationKindTag::HttpExchange); }
            return Ok(ObservationKindTag::HttpExchange);
        }
        if chars_eq(low.as_slice(), "exception") {
            proof { lemma_observation_kind_tag_parse_unique(s@, ObservationKindTag::Exception); }
            return Ok(ObservationKindTag::Exception);
        }
        if chars_eq(low.as_slice(), "state_snapshot") {
            proof { lemma_observation_kind_tag_parse_unique(s@, ObservationKindTag::StateSnapshot); }
            return Ok(ObservationKindTag::StateSnapshot);
        }
        if chars_eq(low.as_slice(), "metric") {
            proof { lemma_observation_kind_tag_parse_unique(s@, ObservationKindTag::Metric); }
            return Ok(ObservationKindTag::Metric);
        }
        if chars_eq(low.as_slice(), "custom") {
            proof { lemma_observation_kind_tag_parse_unique(s@, ObservationKindTag::Custom); }
            return Ok(ObservationKindTag::Custom);
        }
        if chars_eq(low.as_slice(), "js_exception") {
            proof { lemma_observation_kind_tag_parse_unique(s@, ObservationKindTag::JsException); }
            return Ok(ObservationKindTag::JsException);
        }
        if chars_eq(low.as_slice(), "lifecycle") {
            proof { lemma_observation_kind_tag_parse_unique(s@, ObservationKindTag::Lifecycle); }
            return Ok(ObservationKindTag::Lifecycle);
        }
        let mut e = "unknown observation kind: ".to_owned();
        let rest = string_of(low.as_slice());
        push_str(&mut e, rest.as_str());
        proof {
            assert forall|v: ObservationKindTag| #[trigger] v.spec_name() != lower(s@) by {
                match v {
                    ObservationKindTag::Log => {},
                    ObservationKindTag::Query => {},
                    ObservationKindTag::HttpExchange => {},
                    ObservationKindTag::Exception => {},
                    ObservationKindTag::StateSnapshot => {},
                    ObservationKindTag::Metric => {},
                    ObservationKindTag::Custom => {},
                    ObservationKindTag::JsException => {},
                    ObservationKindTag::Lifecycle => {},
                }
            }
        }
        Err(e)
    }

}

impl std::str::FromStr for ObservationKindTag {
    type Err = String;

    fn from_str(s: &str) -> Result<ObservationKindTag, String> {
        ObservationKindTag::parse_name(s)
    }
}

/// A value whose name matches `s` is the value that `s` names.
pub proof fn lemma_observation_kind_tag_parse_unique(s: Seq<char>, v: ObservationKindTag)
    requires
        v.spec_name() == lower(s),
    ensures
        ObservationKindTag::spec_parse(s) == Some(v),
{
    lemma_observation_kind_tag_name_roundtrip(v);
    let c = choose|c: ObservationKindTag| #[trigger] c.spec_name() == lower(s);
    assert(c.spec_name() == v.spec_name());
}

/// Every ObservationKindTag name is already lowercase and names no other value, so
/// parsing the name of a value gives that value back.
pub proof fn lemma_observation_kind_tag_name_roundtrip(t: ObservationKindTag)
    ensures
        lower(t.spec_name()) == t.spec_name(),
        forall|u: ObservationKindTag| #[trigger] u.spec_name() == t.spec_name() ==> u == t,
        ObservationKindTag::spec_parse(t.spec_name()) == Some(t),
{
    reveal_strlit("log");
    reveal_strlit("query");
    reveal_strlit("http_exchange");
    reveal_strlit("exception");
    reveal_strlit("state_snapshot");
    reveal_strlit("metric");
    reveal_strlit("custom");
    reveal_strlit("js_exception");
    reveal_strlit("lifecycle");
    assert(lower(t.spec_name()) =~= t.spec_name());
    assert forall|u: ObservationKindTag| #[trigger] u.spec_name() == t.spec_name() implies u == t by {
        if u != t {
            match (u, t) {
                (ObservationKindTag::Log, ObservationKindTag::Query) => assert(u.spec_name().len() != t.spec_name().len()),
                (ObservationKindTag::Log, ObservationKindTag::HttpExchange) => assert(u.spec_name().len() != t.spec_name().len()),
                (ObservationKindTag::Log, ObservationKindTag::Exception) => assert(u.spec_name().len() != t.spec_name().len()),
                (ObservationKindTag::Log, ObservationKindTag::StateSnapshot) => assert(u.spec_name().len() != t.spec_name().len()),
                (ObservationKindTag::Log, ObservationKindTag::Metric) => assert(u.spec_name().len() != t.spec_name().len()),
                (ObservationKindTag::Log, ObservationKindTag::Custom) => assert(u.spec_name().len() != t.spec_name().len()),
                (ObservationKindTag::Log, ObservationKindTag::JsException) => assert(u.spec_name().len() != t.spec_name().len()),
                (ObservationKindTag::Log, ObservationKindTag::Lifecycle) => assert(u.spec_name().len() != t.spec_name().len()),
                (ObservationKindTag::Query, ObservationKindTag::Log) => assert(u.spec_name().len() != t.spec_name().len()),
                (ObservationKindTag::Query, ObservationKindTag::HttpExchange) => assert(u.spec_name().len() != t.spec_name().len()),
                (ObservationKindTag::Query, ObservationKindTag::Exception) => assert(u.spec_name().len() != t.spec_name().len()),
                (ObservationKindTag::Query, ObservationKindTag::StateSnapshot) => assert(u.spec_name().len() != t.spec_name().len()),
                (ObservationKindTag::Query, ObservationKindTag::Metric) => assert(u.spec_name().len() != t.spec_name().len()),
                (ObservationKindTag::Query, ObservationKindTag::Custom) => assert(u.spec_name().len() != t.spec_name().len()),
                (ObservationKindTag::Query, ObservationKindTag::JsException) => assert(u.spec_name().len() != t.spec_name().len()),
                (ObservationKindTag::Query, ObservationKindTag::Lifecycle) => assert(u.spec_name().len() != t.spec_name().len()),
                (ObservationKindTag::HttpExchange, ObservationKindTag::Log) => assert(u.spec_name().len() != t.spec_name().len()),
                (ObservationKindTag::HttpExchange, ObservationKindTag::Query) => assert(u.spec_name().len() != t.spec_name().len()),
                (ObservationKindTag::HttpExchange, ObservationKindTag::Exception) => assert(u.spec_name().len() != t.spec_name().len()),
                (ObservationKindTag::HttpExchange, ObservationKindTag::StateSnapshot) => assert(u.spec_name().len() != t.spec_name().len()),
                (ObservationKindTag::HttpExchange, ObservationKindTag::Metric) => assert(u.spec_name().len() != t.spec_name().len()),
                (ObservationKindTag::HttpExchange, ObservationKindTag::Custom) => assert(u.spec_name().len() != t.spec_name().len()),
                (ObservationKindTag::HttpExchange, ObservationKindTag::JsException) => assert(u.spec_name().len() != t.spec_name().len()),
                (ObservationKindTag::HttpExchange, ObservationKindTag::Lifecycle) => assert(u.spec_name().len() != t.spec_name().len()),
                (ObservationKindTag::Exception, ObservationKindTag::Log) => assert(u.spec_name().len() != t.spec_name().len()),
                (ObservationKindTag::Exception, ObservationKindTag::Query) => assert(u.spec_name().len() != t.spec_name().len()),
                (ObservationKindTag::Exception, ObservationKindTag::HttpExchange) => assert(u.spec_name().len() != t.spec_name().len()),
                (ObservationKindTag::Exception, ObservationKindTag::StateSnapshot) => assert(u.spec_name().len() != t.spec_name().len()),
                (ObservationKindTag::Exception, ObservationKindTag::Metric) => assert(u.spec_name().len() != t.spec_name().len()),
                (ObservationKindTag::Exception, ObservationKindTag::Custom) => assert(u.spec_name().len() != t.spec_name().len()),
                (ObservationKindTag::Exception, ObservationKindTag::JsException) => assert(u.spec_name().len() != t.spec_name().len()),
                (ObservationKindTag::Exception, ObservationKindTag::Lifecycle) => assert(u.spec_name()[0] != t.spec_name()[0]),
                (ObservationKindTag::StateSnapshot, ObservationKindTag::Log) => assert(u.spec_name().len() != t.spec_name().len()),
                (ObservationKindTag::StateSnapshot, ObservationKindTag::Query) => assert(u.spec_name().len() != t.spec_name().len()),
                (ObservationKindTag::StateSnapshot, ObservationKindTag::HttpExchange) => assert(u.spec_name().len() != t.spec_name().len()),
                (ObservationKindTag::StateSnapshot, ObservationKindTag::Exception) => assert(u.spec_name().len() != t.spec_name().len()),
                (ObservationKindTag::StateSnapshot, ObservationKindTag::Metric) => assert(u.spec_name().len() != t.spec_name().len()),
                (ObservationKindTag::StateSnapshot, ObservationKindTag::Custom) => assert(u.spec_name().len() != t.spec_name().len()),
                (ObservationKindTag::StateSnapshot, ObservationKindTag::JsException) => assert(u.spec_name().len() != t.spec_name().len()),
                (ObservationKindTag::StateSnapshot, ObservationKindTag::Lifecycle) => assert(u.spec_name().len() != t.spec_name().len()),
                (ObservationKindTag::Metric, ObservationKindTag::Log) => assert(u.spec_name().len() != t.spec_name().len()),
                (ObservationKindTag::Metric, ObservationKindTag::Query) => assert(u.spec_name().len() != t.spec_name().len()),
                (ObservationKindTag::Metric, ObservationKindTag::HttpExchange) => assert(u.spec_name().len() != t.spec_name().len()),
                (ObservationKindTag::Metric, ObservationKindTag::Exception) => assert(u.spec_name().len() != t.spec_name().len()),
                (ObservationKindTag::Metric, ObservationKindTag::StateSnapshot) => assert(u.spec_name().len() != t.spec_name().len()),
                (ObservationKindTag::Metric, ObservationKindTag::Custom) => assert(u.spec_name()[0] != t.spec_name()[0]),
                (ObservationKindTag::Metric, ObservationKindTag::JsException) => assert(u.spec_name().len() != t.spec_name().len()),
                (ObservationKindTag::Metric, ObservationKindTag::Lifecycle) => assert(u.spec_name().len() != t.spec_name().len()),
                (ObservationKindTag::Custom, ObservationKindTag::Log) => assert(u.spec_name().len() != t.spec_name().len()),
                (ObservationKindTag::Custom, ObservationKindTag::Query) => assert(u.spec_name().len() != t.spec_name().len()),
                (ObservationKindTag::Custom, ObservationKindTag::HttpExchange) => assert(u.spec_name().len() != t.spec_name().len()),
                (ObservationKindTag::Custom, ObservationKindTag::Exception) => assert(u.spec_name().len() != t.spec_name().len()),
                (ObservationKindTag::Custom, ObservationKindTag::StateSnapshot) => assert(u.spec_name().len() != t.spec_name().len()),
                (ObservationKindTag::Custom, ObservationKindTag::Metric) => assert(u.spec_name()[0] != t.spec_name()[0]),
                (ObservationKindTag::Custom, ObservationKindTag::JsException) => assert(u.spec_name().len() != t.spec_name().len()),
                (ObservationKindTag::Custom, ObservationKindTag::Lifecycle) => assert(u.spec_name().len() != t.spec_name().len()),
                (ObservationKindTag::JsException, ObservationKindTag::Log) => assert(u.spec_name().len() != t.spec_name().len()),
                (ObservationKindTag::JsException, ObservationKindTag::Query) => assert(u.spec_name().len() != t.spec_name().len()),
                (ObservationKindTag::JsException, ObservationKindTag::HttpExchange) => assert(u.spec_name().len() != t.spec_name().len()),
                (ObservationKindTag::JsException, ObservationKindTag::Exception) => assert(u.spec_name().len() != t.spec_name().len()),
                (ObservationKindTag::JsException, ObservationKindTag::StateSnapshot) => assert(u.spec_name().len() != t.spec_name().len()),
                (ObservationKindTag::JsException, ObservationKindTag::Metric) => assert(u.spec_name().len() != t.spec_name().len()),
                (ObservationKindTag::JsException, ObservationKindTag::Custom) => assert(u.spec_name().len() != t.spec_name().len()),
                (ObservationKindTag::JsException, ObservationKindTag::Lifecycle) => assert(u.spec_name().len() != t.spec_name().len()),
                (ObservationKindTag::Lifecycle, ObservationKindTag::Log) => assert(u.spec_name().len() != t.spec_name().len()),
                (ObservationKindTag::Lifecycle, ObservationKindTag::Query) => assert(u.spec_name().len() != t.spec_name().len()),
                (ObservationKindTag::Lifecycle, ObservationKindTag::HttpExchange) => assert(u.spec_name().len() != t.spec_name().len()),
                (ObservationKindTag::Lifecycle, ObservationKindTag::Exception) => assert(u.spec_name()[0] != t.spec_name()[0]),
                (ObservationKindTag::Lifecycle, ObservationKindTag::StateSnapshot) => assert(u.spec_name().len() != t.spec_name().len()),
                (ObservationKindTag::Lifecycle, ObservationKindTag::Metric) => assert(u.spec_name().len() != t.spec_name().len()),
                (ObservationKindTag::Lifecycle, ObservationKindTag::Custom) => assert(u.spec_name().len() != t.spec_name().len()),
                (ObservationKindTag::Lifecycle, ObservationKindTag::JsException) => assert(u.spec_name().len() != t.spec_name().len()),
                _ => {},
            }
        }
    }
    let c = choose|c: ObservationKindTag| #[trigger] c.spec_name() == lower(t.spec_name());
    assert(c.spec_name() == t.spec_name());
}

/// Kind-specific content of an observation. Decimal quantities are kept as
/// the IEEE-754 bit pattern of the `f64` the wire format carries.
#[derive(Debug, Clone)]
pub enum ObservationKind {
    Log,
    Query { sql: String, duration_ms_bits: u64 },
    HttpExchange {
        method: String,
        url: String,
        status: Option<u16>,
        duration_ms_bits: Option<u64>,
    },
    Exception { message: String, trace: Option<String> },
    StateSnapshot { label: String },
    Metric { name: String, value_bits: u64 },
    Custom { channel: String },
    JsException { message: String, line: Option<u32>, column: Option<u32> },
    Lifecycle { event_name: String, frame_id: String },
}

impl ObservationKind {
    /// The payload-free tag of this kind.
    pub open spec fn spec_tag(&self) -> ObservationKindTag {
        match self {
            ObservationKind::Log => ObservationKindTag::Log,
            ObservationKind::Query { .. } => ObservationKindTag::Query,
            ObservationKind::HttpExchange { .. } => ObservationKindTag::HttpExchange,
            ObservationKind::Exception { .. } => ObservationKindTag::Exception,
            ObservationKind::StateSnapshot { .. } => ObservationKindTag::StateSnapshot,
            ObservationKind::Metric { .. } => ObservationKindTag::Metric,
            ObservationKind::Custom { .. } => ObservationKindTag::Custom,
            ObservationKind::JsException { .. } => ObservationKindTag::JsException,
            ObservationKind::Lifecycle { .. } => ObservationKindTag::Lifecycle,
        }
    }

    /// The payload-free tag of this kind.
    pub fn tag(&self) -> (r: ObservationKindTag)
        ensures
            r == self.spec_tag(),
    {
        match self {
            ObservationKind::Log => ObservationKindTag::Log,
            ObservationKind::Query { .. } => ObservationKindTag::Query,
            ObservationKind::HttpExchange { .. } => ObservationKindTag::HttpExchange,
            ObservationKind::Exception { .. } => ObservationKindTag::Exception,
            ObservationKind::StateSnapshot { .. } => ObservationKindTag::StateSnapshot,
            ObservationKind::Metric { .. } => ObservationKindTag::Metric,
            ObservationKind::Custom { .. } => ObservationKindTag::Custom,
            ObservationKind::JsException { .. } => ObservationKindTag::JsException,
            ObservationKind::Lifecycle { .. } => ObservationKindTag::Lifecycle,
        }
    }
}

/// One observation; `data` is the compact JSON text of the payload.
#[derive(Debug, Clone)]
pub struct Observation {
    pub id: u64,
    pub origin: Origin,
    pub kind: ObservationKind,
    pub data: String,
    pub severity: Severity,
    pub source_location: Option<SourceLocation>,
    pub timestamp_ns: u64,
}

impl Observation {
    /// A fresh observation with `id` 0 (the store assigns the real sequence
    /// on insert) taken at `timestamp_ns`.
    pub fn new(
        origin: Origin,
        kind: ObservationKind,
        data: String,
        severity: Severity,
        source_location: Option<SourceLocation>,
        timestamp_ns: u64,
    ) -> (r: Observation)
        ensures
            r == (Observation { id: 0, origin, kind, data, severity, source_location, timestamp_ns }),
    {
        Observation { id: 0, origin, kind, data, severity, source_location, timestamp_ns }
    }
}

/// A query over stored observations; every criterion that is present must
/// hold, and `limit` bounds how many results a store returns.
#[derive(Debug, Clone)]
pub struct Filter {
    pub kinds: Option<Vec<ObservationKindTag>>,
    pub severity_min: Option<Severity>,
    pub origins: Option<Vec<OriginPattern>>,
    pub text_match: Option<String>,
    pub since: Option<Checkpoint>,
    pub limit: Option<usize>,
}

impl Default for Filter {
    fn default() -> (r: Filter)
        ensures
            r.kinds is None && r.severity_min is None && r.origins is None && r.text_match is None
                && r.since is None && r.limit is None,
    {
        Filter {
            kinds: None,
            severity_min: None,
            origins: None,
            text_match: None,
            since: None,
            limit: None,
        }
    }
}

impl Filter {
    /// The observation passes every criterion of the filter.
    pub open spec fn spec_matches(self, obs: Observation) -> bool {
        &&& match self.since {
            Some(cp) => obs.id > cp.0,
            None => true,
        }
        &&& match self.severity_min {
            Some(m) => obs.severity.spec_level() >= m.spec_level(),
            None => true,
        }
        &&& match self.kinds {
            Some(k) => k@.len() > 0 ==> k@.contains(obs.kind.spec_tag()),
            None => true,
        }
        &&& match self.origins {
            Some(os) => os@.len() > 0 ==> exists|i: int|
                0 <= i < os@.len() && #[trigger] os@[i].spec_matches(obs.origin),
            None => true,
        }
        &&& match self.text_match {
            Some(t) => contains(lower(obs.data@), lower(t@)),
            None => true,
        }
    }

    /// Whether the observation passes the filter.
    pub fn matches(&self, obs: &Observation) -> (r: bool)
        ensures
            r == self.spec_matches(*obs),
    {
        if let Some(cp) = &self.since {
            if obs.id <= cp.0 {
                return false;
            }
        }
        if let Some(min) = self.severity_min {
            if obs.severity.level() < min.level() {
                return false;
            }
        }
        if let Some(kinds) = &self.kinds {
            if kinds.len() > 0 && !kind_listed(kinds, obs.kind.tag()) {
                return false;
            }
        }
        if let Some(origins) = &self.origins {
            if origins.len() > 0 && !any_pattern_matches(origins, &obs.origin) {
                return false;
            }
        }
        if let Some(text) = &self.text_match {
            let hay = lower_chars(obs.data.as_str());
            let needle = lower_chars(text.as_str());
            if !contains_chars(hay.as_slice(), needle.as_slice()) {
                return false;
            }
        }
        true
    }
}

/// Whether the kind list holds `k`.
pub fn kind_listed(kinds: &Vec<ObservationKindTag>, k: ObservationKindTag) -> (r: bool)
    ensures
        r == kinds@.contains(k),
{
    let mut i: usize = 0;
    while i < kinds.len()
        invariant
            i <= kinds.len(),
            forall|j: int| 0 <= j < i ==> kinds@[j] != k,
        decreases kinds.len() - i,
    {
        if kinds[i] == k {
            return true;
        }
        i += 1;
    }
    false
}

/// Whether some pattern of the list selects `origin`.
pub fn any_pattern_matches(pats: &Vec<OriginPattern>, origin: &Origin) -> (r: bool)
    ensures
        r == exists|i: int| 0 <= i < pats@.len() && #[trigger] pats@[i].spec_matches(*origin),
{
    let mut i: usize = 0;
    while i < pats.len()
        invariant
            i <= pats.len(),
            forall|j: int| 0 <= j < i ==> !(#[trigger] pats@[j].spec_matches(*origin)),
        decreases pats.len() - i,
    {
        if pats[i].matches(origin) {
            return true;
        }
        i += 1;
    }
    false
}

/// Counts of a result slice by kind tag and by severity, each in order of
/// first appearance.
#[derive(Debug, Clone)]
pub struct SliceSummary {
    pub total: usize,
    pub counts_by_kind: Vec<(String, usize)>,
    pub counts_by_severity: Vec<(String, usize)>,
}

/// A query result: observations, the checkpoint to resume from, and counts.
#[derive(Debug, Clone)]
pub struct StateSlice {
    pub observations: Vec<Observation>,
    pub checkpoint: Checkpoint,
    pub summary: SliceSummary,
}

} // verus!
