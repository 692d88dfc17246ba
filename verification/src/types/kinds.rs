//! Enumerations shared by every observation store.
use vstd::prelude::*;

use crate::text::{chars_eq, lower, lower_chars, push_str, string_of};

verus! {

/// Tag that marks observations produced by the daemon itself.
pub const SYSTEM_TAG: &'static str = "_system";
pub const TAG_PREFIX_PROJECT: &'static str = "project:";
pub const TAG_PREFIX_LANG: &'static str = "lang:";
pub const TAG_PREFIX_FRAMEWORK: &'static str = "framework:";
pub const TAG_PREFIX_TOOL: &'static str = "tool:";
pub const TAG_PREFIX_SOURCE: &'static str = "source:";

/// Browser debugging actions that agents may request.
#[derive(Debug, Clone, Copy, PartialEq, Eq, Structural)]
pub enum DebugAction {
    EvalJs,
    Screenshot,
    InjectCss,
    RevertCss,
    ListTabs,
    GetPerfMetrics,
    GetDom,
    SetViewport,
    ClearViewport,
    NetworkConditions,
    Navigate,
    StorageClear,
    StorageInspect,
    StorageSet,
    ElementAtPoint,
    NewTab,
    CloseTab,
}

/// Platform family of a connected device.
#[derive(Debug, Clone, Copy, PartialEq, Eq, Structural)]
pub enum DevicePlatform {
    Android,
    Vega,
}

impl Default for DevicePlatform {
    fn default() -> (r: DevicePlatform)
        ensures
            r == DevicePlatform::Android,
    {
        DevicePlatform::Android
    }
}

impl DevicePlatform {
    /// The variant name as `{:?}` writes it.
    pub open spec fn spec_debug_name(self) -> Seq<char> {
        match self {
            DevicePlatform::Android => "Android"@,
            DevicePlatform::Vega => "Vega"@,
        }
    }

    /// The variant name as `{:?}` writes it.
    pub fn debug_name(&self) -> (r: &'static str)
        ensures
            r@ == self.spec_debug_name(),
    {
        match self {
            DevicePlatform::Android => "Android",
            DevicePlatform::Vega => "Vega",
        }
    }
}

/// Overall health of the observation runtime.
#[derive(Debug, Clone, Copy, PartialEq, Eq, Structural)]
pub enum HealthStatus {
    Healthy,
    ErrorsDetected,
    NoSources,
}

/// Class of a connected observation source.
#[derive(Debug, Clone, Copy, PartialEq, Eq, Structural)]
pub enum ConnectionKind {
    Application,
    Browser,
    Device,
}

/// One connected observation source and how much it has sent.
#[derive(Debug, Clone)]
pub struct ConnectionInfo {
    pub id: String,
    pub kind: ConnectionKind,
    pub name: String,
    pub observation_count: u64,
}

/// Runtime summary reported by a store.
#[derive(Debug, Clone)]
pub struct RuntimeSummary {
    pub observation_count: u64,
    pub error_count_last_60s: u64,
    pub active_channels: Vec<String>,
    pub connections: Vec<ConnectionInfo>,
    pub health: HealthStatus,
}

/// Monotonic sequence number. "I've seen everything up to this ID."
#[derive(Debug, Clone, Copy, PartialEq, Eq, PartialOrd, Ord, Structural)]
pub struct Checkpoint(pub u64);

/// Severity of an observation, from least to most severe.
#[derive(Debug, Clone, Copy, PartialEq, Eq, Hash, Structural, PartialOrd, Ord)]
pub enum Severity {
    Trace,
    Debug,
    Info,
    Warn,
    Error,
}

impl Severity {
    /// The snake_case name of the value, as `to_string` writes it.
    pub open spec fn spec_name(self) -> Seq<char> {
        match self {
            Severity::Trace => "trace"@,
            Severity::Debug => "debug"@,
            Severity::Info => "info"@,
            Severity::Warn => "warn"@,
            Severity::Error => "error"@,
        }
    }

    /// The value named by `s`, ignoring ASCII case.
    pub open spec fn spec_parse(s: Seq<char>) -> Option<Severity> {
        if exists|v: Severity| #[trigger] v.spec_name() == lower(s) {
            Some(choose|v: Severity| #[trigger] v.spec_name() == lower(s))
        } else {
            None
        }
    }

    /// The snake_case name of the value.
    pub fn name(&self) -> (r: &'static str)
        ensures
            r@ == self.spec_name(),
    {
        match self {
            Severity::Trace => "trace",
            Severity::Debug => "debug",
            Severity::Info => "info",
            Severity::Warn => "warn",
            Severity::Error => "error",
        }
    }

    /// The snake_case name of the value as an owned `String`.
    pub fn to_string(&self) -> (r: String)
        ensures
            r@ == self.spec_name(),
    {
        self.name().to_owned()
    }

    /// Parses a name, ignoring ASCII case; unknown names are refused with
    /// the message `unknown severity: <lowercased input>`.
    pub fn parse_name(s: &str) -> (r: Result<Severity, String>)
        ensures
            match r {
                Ok(v) => v.spec_name() == lower(s@) && Severity::spec_parse(s@) == Some(v),
                Err(e) => (forall|v: Severity| #[trigger] v.spec_name() != lower(s@)) && Severity::spec_parse(s@) is None && e@ == "unknown severity: "@ + lower(s@),
            },
    {
        let low = lower_chars(s);
        if chars_eq(low.as_slice(), "trace") {
            proof { lemma_severity_parse_unique(s@, Severity::Trace); }
            return Ok(Severity::Trace);
        }
        if chars_eq(low.as_slice(), "debug") {
            proof { lemma_severity_parse_unique(s@, Severity::Debug); }
            return Ok(Severity::Debug);
        }
        if chars_eq(low.as_slice(), "info") {
            proof { lemma_severity_parse_unique(s@, Severity::Info); }
            return Ok(Severity::Info);
        }
        if chars_eq(low.as_slice(), "warn") {
            proof { lemma_severity_parse_unique(s@, Severity::Warn); }
            return Ok(Severity::Warn);
        }
        if chars_eq(low.as_slice(), "error") {
            proof { lemma_severity_parse_unique(s@, Severity::Error); }
            return Ok(Severity::Error);
        }
        let mut e = "unknown severity: ".to_owned();
        let rest = string_of(low.as_slice());
        push_str(&mut e, rest.as_str());
        proof {
            assert forall|v: Severity| #[trigger] v.spec_name() != lower(s@) by {
                match v {
                    Severity::Trace => {},
                    Severity::Debug => {},
                    Severity::Info => {},
                    Severity::Warn => {},
                    Severity::Error => {},
                }
            }
        }
        Err(e)
    }

    /// Numeric rank: trace 0, debug 1, info 2, warn 3, error 4.
    pub open spec fn spec_level(self) -> u8 {
        match self {
            Severity::Trace => 0,
            Severity::Debug => 1,
            Severity::Info => 2,
            Severity::Warn => 3,
            Severity::Error => 4,
        }
    }

    /// Numeric rank: trace 0, debug 1, info 2, warn 3, error 4.
    pub fn level(self) -> (r: u8)
        ensures
            r == self.spec_level(),
    {
        match self {
            Severity::Trace => 0,
            Severity::Debug => 1,
            Severity::Info => 2,
            Severity::Warn => 3,
            Severity::Error => 4,
        }
    }

}

impl std::str::FromStr for Severity {
    type Err = String;

    fn from_str(s: &str) -> Result<Severity, String> {
        Severity::parse_name(s)
    }
}

/// A value whose name matches `s` is the value that `s` names.
pub proof fn lemma_severity_parse_unique(s: Seq<char>, v: Severity)
    requires
        v.spec_name() == lower(s),
    ensures
        Severity::spec_parse(s) == Some(v),
{
    lemma_severity_name_roundtrip(v);
    let c = choose|c: Severity| #[trigger] c.spec_name() == lower(s);
    assert(c.spec_name() == v.spec_name());
}

/// Every Severity name is already lowercase and names no other value, so
/// parsing the name of a value gives that value back.
pub proof fn lemma_severity_name_roundtrip(t: Severity)
    ensures
        lower(t.spec_name()) == t.spec_name(),
        forall|u: Severity| #[trigger] u.spec_name() == t.spec_name() ==> u == t,
        Severity::spec_parse(t.spec_name()) == Some(t),
{
    reveal_strlit("trace");
    reveal_strlit("debug");
    reveal_strlit("info");
    reveal_strlit("warn");
    reveal_strlit("error");
    assert(lower(t.spec_name()) =~= t.spec_name());
    assert forall|u: Severity| #[trigger] u.spec_name() == t.spec_name() implies u == t by {
        if u != t {
            match (u, t) {
                (Severity::Trace, Severity::Debug) => assert(u.spec_name()[0] != t.spec_name()[0]),
                (Severity::Trace, Severity::Info) => assert(u.spec_name().len() != t.spec_name().len()),
                (Severity::Trace, Severity::Warn) => assert(u.spec_name().len() != t.spec_name().len()),
                (Severity::Trace, Severity::Error) => assert(u.spec_name()[0] != t.spec_name()[0]),
                (Severity::Debug, Severity::Trace) => assert(u.spec_name()[0] != t.spec_name()[0]),
                (Severity::Debug, Severity::Info) => assert(u.spec_name().len() != t.spec_name().len()),
                (Severity::Debug, Severity::Warn) => assert(u.spec_name().len() != t.spec_name().len()),
                (Severity::Debug, Severity::Error) => assert(u.spec_name()[0] != t.spec_name()[0]),
                (Severity::Info, Severity::Trace) => assert(u.spec_name().len() != t.spec_name().len()),
                (Severity::Info, Severity::Debug) => assert(u.spec_name().len() != t.spec_name().len()),
                (Severity::Info, Severity::Warn) => assert(u.spec_name()[0] != t.spec_name()[0]),
                (Severity::Info, Severity::Error) => assert(u.spec_name().len() != t.spec_name().len()),
                (Severity::Warn, Severity::Trace) => assert(u.spec_name().len() != t.spec_name().len()),
                (Severity::Warn, Severity::Debug) => assert(u.spec_name().len() != t.spec_name().len()),
                (Severity::Warn, Severity::Info) => assert(u.spec_name()[0] != t.spec_name()[0]),
                (Severity::Warn, Severity::Error) => assert(u.spec_name().len() != t.spec_name().len()),
                (Severity::Error, Severity::Trace) => assert(u.spec_name()[0] != t.spec_name()[0]),
                (Severity::Error, Severity::Debug) => assert(u.spec_name()[0] != t.spec_name()[0]),
                (Severity::Error, Severity::Info) => assert(u.spec_name().len() != t.spec_name().len()),
                (Severity::Error, Severity::Warn) => assert(u.spec_name().len() != t.spec_name().len()),
                _ => {},
            }
        }
    }
    let c = choose|c: Severity| #[trigger] c.spec_name() == lower(t.spec_name());
    assert(c.spec_name() == t.spec_name());
}

/// Enum discriminant without payload, used for filtering and matching.
#[derive(Debug, Clone, Copy, PartialEq, Eq, Hash, Structural)]
pub enum ObservationKindTag {
    Log,
    Query,
    HttpExchange,
    Exception,
    StateSnapshot,
    Metric,
    Custom,
    JsException,
    Lifecycle,
    ToolCall,
}

impl ObservationKindTag {
    /// The snake_case name of the value, as `to_string` writes it.
    pub open spec fn spec_name(self) -> Seq<char> {
        match self {
            ObservationKindTag::Log => "log"@,
            ObservationKindTag::Query => "query"@,
            ObservationKindTag::HttpExchange => "http_exchange"@,
            ObservationKindTag::Exception => "exception"@,
            ObservationKindTag::StateSnapshot => "state_snapshot"@,
            ObservationKindTag::Metric => "metric"@,
            ObservationKindTag::Custom => "custom"@,
            ObservationKindTag::JsException => "js_exception"@,
            ObservationKindTag::Lifecycle => "lifecycle"@,
            ObservationKindTag::ToolCall => "tool_call"@,
        }
    }

    /// The value named by `s`, ignoring ASCII case.
    pub open spec fn spec_parse(s: Seq<char>) -> Option<ObservationKindTag> {
        if exists|v: ObservationKindTag| #[trigger] v.spec_name() == lower(s) {
            Some(choose|v: ObservationKindTag| #[trigger] v.spec_name() == lower(s))
        } else {
            None
        }
    }

    /// The snake_case name of the value.
    pub fn name(&self) -> (r: &'static str)
        ensures
            r@ == self.spec_name(),
    {
        match self {
            ObservationKindTag::Log => "log",
            ObservationKindTag::Query => "query",
            ObservationKindTag::HttpExchange => "http_exchange",
            ObservationKindTag::Exception => "exception",
            ObservationKindTag::StateSnapshot => "state_snapshot",
            ObservationKindTag::Metric => "metric",
            ObservationKindTag::Custom => "custom",
            ObservationKindTag::JsException => "js_exception",
            ObservationKindTag::Lifecycle => "lifecycle",
            ObservationKindTag::ToolCall => "tool_call",
        }
    }

    /// The snake_case name of the value as an owned `String`.
    pub fn to_string(&self) -> (r: String)
        ensures
            r@ == self.spec_name(),
    {
        self.name().to_owned()
    }

    /// Parses a name, ignoring ASCII case; unknown names are refused with
    /// the message `unknown observation kind: <lowercased input>`.
    pub fn parse_name(s: &str) -> (r: Result<ObservationKindTag, String>)
        ensures
            match r {
                Ok(v) => v.spec_name() == lower(s@) && ObservationKindTag::spec_parse(s@) == Some(v),
                Err(e) => (forall|v: ObservationKindTag| #[trigger] v.spec_name() != lower(s@)) && ObservationKindTag::spec_parse(s@) is None && e@ == "unknown observation kind: "@ + lower(s@),
            },
    {
        let low = lower_chars(s);
        if chars_eq(low.as_slice(), "log") {
            proof { lemma_observation_kind_tag_parse_unique(s@, ObservationKindTag::Log); }
            return Ok(ObservationKindTag::Log);
        }
        if chars_eq(low.as_slice(), "query") {
            proof { lemma_observation_kind_tag_parse_unique(s@, ObservationKindTag::Query); }
            return Ok(ObservationKindTag::Query);
        }
        if chars_eq(low.as_slice(), "http_exchange") {
            proof { lemma_observation_kind_tag_parse_unique(s@, ObservationKindTag::HttpExchange); }
            return Ok(ObservationKindTag::HttpExchange);
        }
        if chars_eq(low.as_slice(), "exception") {
            proof { lemma_observation_kind_tag_parse_unique(s@, ObservationKindTag::Exception); }
            return Ok(ObservationKindTag::Exception);
        }
        if chars_eq(low.as_slice(), "state_snapshot") {
            proof { lemma_observation_kind_tag_parse_unique(s@, ObservationKindTag::StateSnapshot); }
            return Ok(ObservationKindTag::StateSnapshot);
        }
        if chars_eq(low.as_slice(), "metric") {
            proof { lemma_observation_kind_tag_parse_unique(s@, ObservationKindTag::Metric); }
            return Ok(ObservationKindTag::Metric);
        }
        if chars_eq(low.as_slice(), "custom") {
            proof { lemma_observation_kind_tag_parse_unique(s@, ObservationKindTag::Custom); }
            return Ok(ObservationKindTag::Custom);
        }
        if chars_eq(low.as_slice(), "js_exception") {
            proof { lemma_observation_kind_tag_parse_unique(s@, ObservationKindTag::JsException); }
            return Ok(ObservationKindTag::JsException);
        }
        if chars_eq(low.as_slice(), "lifecycle") {
            proof { lemma_observation_kind_tag_parse_unique(s@, ObservationKindTag::Lifecycle); }
            return Ok(ObservationKindTag::Lifecycle);
        }
        if chars_eq(low.as_slice(), "tool_call") {
            proof { lemma_observation_kind_tag_parse_unique(s@, ObservationKindTag::ToolCall); }
            return Ok(ObservationKindTag::ToolCall);
        }
        let mut e = "unknown observation kind: ".to_owned();
        let rest = string_of(low.as_slice());
        push_str(&mut e, rest.as_str());
        proof {
            assert forall|v: ObservationKindTag| #[trigger] v.spec_name() != lower(s@) by {
                match v {
                    ObservationKindTag::Log => {},
                    ObservationKindTag::Query => {},
                    ObservationKindTag::HttpExchange => {},
                    ObservationKindTag::Exception => {},
                    ObservationKindTag::StateSnapshot => {},
                    ObservationKindTag::Metric => {},
                    ObservationKindTag::Custom => {},
                    ObservationKindTag::JsException => {},
                    ObservationKindTag::Lifecycle => {},
                    ObservationKindTag::ToolCall => {},
                }
            }
        }
        Err(e)
    }

    /// Kinds that burst deduplication never drops.
    pub open spec fn spec_is_dedup_exempt(self) -> bool {
        self is ToolCall || self is Metric || self is Lifecycle
    }

    /// Kinds that burst deduplication never drops.
    pub fn is_dedup_exempt(self) -> (r: bool)
        ensures
            r == self.spec_is_dedup_exempt(),
    {
        matches!(
            self,
            ObservationKindTag::ToolCall | ObservationKindTag::Metric | ObservationKindTag::Lifecycle
        )
    }

}

impl std::str::FromStr for ObservationKindTag {
    type Err = String;

    fn from_str(s: &str) -> Result<ObservationKindTag, String> {
        ObservationKindTag::parse_name(s)
    }
}

/// A value whose name matches `s` is the value that `s` names.
pub proof fn lemma_observation_kind_tag_parse_unique(s: Seq<char>, v: ObservationKindTag)
    requires
        v.spec_name() == lower(s),
    ensures
        ObservationKindTag::spec_parse(s) == Some(v),
{
    lemma_observation_kind_tag_name_roundtrip(v);
    let c = choose|c: ObservationKindTag| #[trigger] c.spec_name() == lower(s);
    assert(c.spec_name() == v.spec_name());
}

/// Every ObservationKindTag name is already lowercase and names no other value, so
/// parsing the name of a value gives that value back.
pub proof fn lemma_observation_kind_tag_name_roundtrip(t: ObservationKindTag)
    ensures
        lower(t.spec_name()) == t.spec_name(),
        forall|u: ObservationKindTag| #[trigger] u.spec_name() == t.spec_name() ==> u == t,
        ObservationKindTag::spec_parse(t.spec_name()) == Some(t),
{
    reveal_strlit("log");
    reveal_strlit("query");
    reveal_strlit("http_exchange");
    reveal_strlit("exception");
    reveal_strlit("state_snapshot");
    reveal_strlit("metric");
    reveal_strlit("custom");
    reveal_strlit("js_exception");
    reveal_strlit("lifecycle");
    reveal_strlit("tool_call");
    assert(lower(t.spec_name()) =~= t.spec_name());
    assert forall|u: ObservationKindTag| #[trigger] u.spec_name() == t.spec_name() implies u == t by {
        if u != t {
            match (u, t) {
                (ObservationKindTag::Log, ObservationKindTag::Query) => assert(u.spec_name().len() != t.spec_name().len()),
                (ObservationKindTag::Log, ObservationKindTag::HttpExchange) => assert(u.spec_name().len() != t.spec_name().len()),
                (ObservationKindTag::Log, ObservationKindTag::Exception) => assert(u.spec_name().len() != t.spec_name().len()),
                (ObservationKindTag::Log, ObservationKindTag::StateSnapshot) => assert(u.spec_name().len() != t.spec_name().len()),
                (ObservationKindTag::Log, ObservationKindTag::Metric) => assert(u.spec_name().len() != t.spec_name().len()),
                (ObservationKindTag::Log, ObservationKindTag::Custom) => assert(u.spec_name().len() != t.spec_name().len()),
                (ObservationKindTag::Log, ObservationKindTag::JsException) => assert(u.spec_name().len() != t.spec_name().len()),
                (ObservationKindTag::Log, ObservationKindTag::Lifecycle) => assert(u.spec_name().len() != t.spec_name().len()),
                (ObservationKindTag::Log, ObservationKindTag::ToolCall) => assert(u.spec_name().len() != t.spec_name().len()),
                (ObservationKindTag::Query, ObservationKindTag::Log) => assert(u.spec_name().len() != t.spec_name().len()),
                (ObservationKindTag::Query, ObservationKindTag::HttpExchange) => assert(u.spec_name().len() != t.spec_name().len()),
                (ObservationKindTag::Query, ObservationKindTag::Exception) => assert(u.spec_name().len() != t.spec_name().len()),
                (ObservationKindTag::Query, ObservationKindTag::StateSnapshot) => assert(u.spec_name().len() != t.spec_name().len()),
                (ObservationKindTag::Query, ObservationKindTag::Metric) => assert(u.spec_name().len() != t.spec_name().len()),
                (ObservationKindTag::Query, ObservationKindTag::Custom) => assert(u.spec_name().len() != t.spec_name().len()),
                (ObservationKindTag::Query, ObservationKindTag::JsException) => assert(u.spec_name().len() != t.spec_name().len()),
                (ObservationKindTag::Query, ObservationKindTag::Lifecycle) => assert(u.spec_name().len() != t.spec_name().len()),
                (ObservationKindTag::Query, ObservationKindTag::ToolCall) => assert(u.spec_name().len() != t.spec_name().len()),
                (ObservationKindTag::HttpExchange, ObservationKindTag::Log) => assert(u.spec_name().len() != t.spec_name().len()),
                (ObservationKindTag::HttpExchange, ObservationKindTag::Query) => assert(u.spec_name().len() != t.spec_name().len()),
                (ObservationKindTag::HttpExchange, ObservationKindTag::Exception) => assert(u.spec_name().len() != t.spec_name().len()),
                (ObservationKindTag::HttpExchange, ObservationKindTag::StateSnapshot) => assert(u.spec_name().len() != t.spec_name().len()),
                (ObservationKindTag::HttpExchange, ObservationKindTag::Metric) => assert(u.spec_name().len() != t.spec_name().len()),
                (ObservationKindTag::HttpExchange, ObservationKindTag::Custom) => assert(u.spec_name().len() != t.spec_name().len()),
                (ObservationKindTag::HttpExchange, ObservationKindTag::JsException) => assert(u.spec_name().len() != t.spec_name().len()),
                (ObservationKindTag::HttpExchange, ObservationKindTag::Lifecycle) => assert(u.spec_name().len() != t.spec_name().len()),
                (ObservationKindTag::HttpExchange, ObservationKindTag::ToolCall) => assert(u.spec_name().len() != t.spec_name().len()),
                (ObservationKindTag::Exception, ObservationKindTag::Log) => assert(u.spec_name().len() != t.spec_name().len()),
                (ObservationKindTag::Exception, ObservationKindTag::Query) => assert(u.spec_name().len() != t.spec_name().len()),
                (ObservationKindTag::Exception, ObservationKindTag::HttpExchange) => assert(u.spec_name().len() != t.spec_name().len()),
                (ObservationKindTag::Exception, ObservationKindTag::StateSnapshot) => assert(u.spec_name().len() != t.spec_name().len()),
                (ObservationKindTag::Exception, ObservationKindTag::Metric) => assert(u.spec_name().len() != t.spec_name().len()),
                (ObservationKindTag::Exception, ObservationKindTag::Custom) => assert(u.spec_name().len() != t.spec_name().len()),
                (ObservationKindTag::Exception, ObservationKindTag::JsException) => assert(u.spec_name().len() != t.spec_name().len()),
                (ObservationKindTag::Exception, ObservationKindTag::Lifecycle) => assert(u.spec_name()[0] != t.spec_name()[0]),
                (ObservationKindTag::Exception, ObservationKindTag::ToolCall) => assert(u.spec_name()[0] != t.spec_name()[0]),
                (ObservationKindTag::StateSnapshot, ObservationKindTag::Log) => assert(u.spec_name().len() != t.spec_name().len()),
                (ObservationKindTag::StateSnapshot, ObservationKindTag::Query) => assert(u.spec_name().len() != t.spec_name().len()),
                (ObservationKindTag::StateSnapshot, ObservationKindTag::HttpExchange) => assert(u.spec_name().len() != t.spec_name().len()),
                (ObservationKindTag::StateSnapshot, ObservationKindTag::Exception) => assert(u.spec_name().len() != t.spec_name().len()),
                (ObservationKindTag::StateSnapshot, ObservationKindTag::Metric) => assert(u.spec_name().len() != t.spec_name().len()),
                (ObservationKindTag::StateSnapshot, ObservationKindTag::Custom) => assert(u.spec_name().len() != t.spec_name().len()),
                (ObservationKindTag::StateSnapshot, ObservationKindTag::JsException) => assert(u.spec_name().len() != t.spec_name().len()),
                (ObservationKindTag::StateSnapshot, ObservationKindTag::Lifecycle) => assert(u.spec_name().len() != t.spec_name().len()),
                (ObservationKindTag::StateSnapshot, ObservationKindTag::ToolCall) => assert(u.spec_name().len() != t.spec_name().len()),
                (ObservationKindTag::Metric, ObservationKindTag::Log) => assert(u.spec_name().len() != t.spec_name().len()),
                (ObservationKindTag::Metric, ObservationKindTag::Query) => assert(u.spec_name().len() != t.spec_name().len()),
                (ObservationKindTag::Metric, ObservationKindTag::HttpExchange) => assert(u.spec_name().len() != t.spec_name().len()),
                (ObservationKindTag::Metric, ObservationKindTag::Exception) => assert(u.spec_name().len() != t.spec_name().len()),
                (ObservationKindTag::Metric, ObservationKindTag::StateSnapshot) => assert(u.spec_name().len() != t.spec_name().len()),
                (ObservationKindTag::Metric, ObservationKindTag::Custom) => assert(u.spec_name()[0] != t.spec_name()[0]),
                (ObservationKindTag::Metric, ObservationKindTag::JsException) => assert(u.spec_name().len() != t.spec_name().len()),
                (ObservationKindTag::Metric, ObservationKindTag::Lifecycle) => assert(u.spec_name().len() != t.spec_name().len()),
                (ObservationKindTag::Metric, ObservationKindTag::ToolCall) => assert(u.spec_name().len() != t.spec_name().len()),
                (ObservationKindTag::Custom, ObservationKindTag::Log) => assert(u.spec_name().len() != t.spec_name().len()),
                (ObservationKindTag::Custom, ObservationKindTag::Query) => assert(u.spec_name().len() != t.spec_name().len()),
                (ObservationKindTag::Custom, ObservationKindTag::HttpExchange) => assert(u.spec_name().len() != t.spec_name().len()),
                (ObservationKindTag::Custom, ObservationKindTag::Exception) => assert(u.spec_name().len() != t.spec_name().len()),
                (ObservationKindTag::Custom, ObservationKindTag::StateSnapshot) => assert(u.spec_name().len() != t.spec_name().len()),
                (ObservationKindTag::Custom, ObservationKindTag::Metric) => assert(u.spec_name()[0] != t.spec_name()[0]),
                (ObservationKindTag::Custom, ObservationKindTag::JsException) => assert(u.spec_name().len() != t.spec_name().len()),
                (ObservationKindTag::Custom, ObservationKindTag::Lifecycle) => assert(u.spec_name().len() != t.spec_name().len()),
                (ObservationKindTag::Custom, ObservationKindTag::ToolCall) => assert(u.spec_name().len() != t.spec_name().len()),
                (ObservationKindTag::JsException, ObservationKindTag::Log) => assert(u.spec_name().len() != t.spec_name().len()),
                (ObservationKindTag::JsException, ObservationKindTag::Query) => assert(u.spec_name().len() != t.spec_name().len()),
                (ObservationKindTag::JsException, ObservationKindTag::HttpExchange) => assert(u.spec_name().len() != t.spec_name().len()),
                (ObservationKindTag::JsException, ObservationKindTag::Exception) => assert(u.spec_name().len() != t.spec_name().len()),
                (ObservationKindTag::JsException, ObservationKindTag::StateSnapshot) => assert(u.spec_name().len() != t.spec_name().len()),
                (ObservationKindTag::JsException, ObservationKindTag::Metric) => assert(u.spec_name().len() != t.spec_name().len()),
                (ObservationKindTag::JsException, ObservationKindTag::Custom) => assert(u.spec_name().len() != t.spec_name().len()),
                (ObservationKindTag::JsException, ObservationKindTag::Lifecycle) => assert(u.spec_name().len() != t.spec_name().len()),
                (ObservationKindTag::JsException, ObservationKindTag::ToolCall) => assert(u.spec_name().len() != t.spec_name().len()),
                (ObservationKindTag::Lifecycle, ObservationKindTag::Log) => assert(u.spec_name().len() != t.spec_name().len()),
                (ObservationKindTag::Lifecycle, ObservationKindTag::Query) => assert(u.spec_name().len() != t.spec_name().len()),
                (ObservationKindTag::Lifecycle, ObservationKindTag::HttpExchange) => assert(u.spec_name().len() != t.spec_name().len()),
                (ObservationKindTag::Lifecycle, ObservationKindTag::Exception) => assert(u.spec_name()[0] != t.spec_name()[0]),
                (ObservationKindTag::Lifecycle, ObservationKindTag::StateSnapshot) => assert(u.spec_name().len() != t.spec_name().len()),
                (ObservationKindTag::Lifecycle, ObservationKindTag::Metric) => assert(u.spec_name().len() != t.spec_name().len()),
                (ObservationKindTag::Lifecycle, ObservationKindTag::Custom) => assert(u.spec_name().len() != t.spec_name().len()),
                (ObservationKindTag::Lifecycle, ObservationKindTag::JsException) => assert(u.spec_name().len() != t.spec_name().len()),
                (ObservationKindTag::Lifecycle, ObservationKindTag::ToolCall) => assert(u.spec_name()[0] != t.spec_name()[0]),
                (ObservationKindTag::ToolCall, ObservationKindTag::Log) => assert(u.spec_name().len() != t.spec_name().len()),
                (ObservationKindTag::ToolCall, ObservationKindTag::Query) => assert(u.spec_name().len() != t.spec_name().len()),
                (ObservationKindTag::ToolCall, ObservationKindTag::HttpExchange) => assert(u.spec_name().len() != t.spec_name().len()),
                (ObservationKindTag::ToolCall, ObservationKindTag::Exception) => assert(u.spec_name()[0] != t.spec_name()[0]),
                (ObservationKindTag::ToolCall, ObservationKindTag::StateSnapshot) => assert(u.spec_name().len() != t.spec_name().len()),
                (ObservationKindTag::ToolCall, ObservationKindTag::Metric) => assert(u.spec_name().len() != t.spec_name().len()),
                (ObservationKindTag::ToolCall, ObservationKindTag::Custom) => assert(u.spec_name().len() != t.spec_name().len()),
                (ObservationKindTag::ToolCall, ObservationKindTag::JsException) => assert(u.spec_name().len() != t.spec_name().len()),
                (ObservationKindTag::ToolCall, ObservationKindTag::Lifecycle) => assert(u.spec_name()[0] != t.spec_name()[0]),
                _ => {},
            }
        }
    }
    let c = choose|c: ObservationKindTag| #[trigger] c.spec_name() == lower(t.spec_name());
    assert(c.spec_name() == t.spec_name());
}

/// Class of an agent memory.
#[derive(Debug, Clone, Copy, PartialEq, Eq, Hash, Structural)]
pub enum MemoryKind {
    Pattern,
    Decision,
    ErrorSignature,
    SessionSummary,
    UserFlagged,
}

impl MemoryKind {
    /// The snake_case name of the value, as `to_string` writes it.
    pub open spec fn spec_name(self) -> Seq<char> {
        match self {
            MemoryKind::Pattern => "pattern"@,
            MemoryKind::Decision => "decision"@,
            MemoryKind::ErrorSignature => "error_signature"@,
            MemoryKind::SessionSummary => "session_summary"@,
            MemoryKind::UserFlagged => "user_flagged"@,
        }
    }

    /// The value named by `s`, ignoring ASCII case.
    pub open spec fn spec_parse(s: Seq<char>) -> Option<MemoryKind> {
        if exists|v: MemoryKind| #[trigger] v.spec_name() == lower(s) {
            Some(choose|v: MemoryKind| #[trigger] v.spec_name() == lower(s))
        } else {
            None
        }
    }

    /// The snake_case name of the value.
    pub fn name(&self) -> (r: &'static str)
        ensures
            r@ == self.spec_name(),
    {
        match self {
            MemoryKind::Pattern => "pattern",
            MemoryKind::Decision => "decision",
            MemoryKind::ErrorSignature => "error_signature",
            MemoryKind::SessionSummary => "session_summary",
            MemoryKind::UserFlagged => "user_flagged",
        }
    }

    /// The snake_case name of the value as an owned `String`.
    pub fn to_string(&self) -> (r: String)
        ensures
            r@ == self.spec_name(),
    {
        self.name().to_owned()
    }

    /// Parses a name, ignoring ASCII case; unknown names are refused with
    /// the message `unknown memory kind: <lowercased input>`.
    pub fn parse_name(s: &str) -> (r: Result<MemoryKind, String>)
        ensures
            match r {
                Ok(v) => v.spec_name() == lower(s@) && MemoryKind::spec_parse(s@) == Some(v),
                Err(e) => (forall|v: MemoryKind| #[trigger] v.spec_name() != lower(s@)) && MemoryKind::spec_parse(s@) is None && e@ == "unknown memory kind: "@ + lower(s@),
            },
    {
        let low = lower_chars(s);
        if chars_eq(low.as_slice(), "pattern") {
            proof { lemma_memory_kind_parse_unique(s@, MemoryKind::Pattern); }
            return Ok(MemoryKind::Pattern);
        }
        if chars_eq(low.as_slice(), "decision") {
            proof { lemma_memory_kind_parse_unique(s@, MemoryKind::Decision); }
            return Ok(MemoryKind::Decision);
        }
        if chars_eq(low.as_slice(), "error_signature") {
            proof { lemma_memory_kind_parse_unique(s@, MemoryKind::ErrorSignature); }
            return Ok(MemoryKind::ErrorSignature);
        }
        if chars_eq(low.as_slice(), "session_summary") {
            proof { lemma_memory_kind_parse_unique(s@, MemoryKind::SessionSummary); }
            return Ok(MemoryKind::SessionSummary);
        }
        if chars_eq(low.as_slice(), "user_flagged") {
            proof { lemma_memory_kind_parse_unique(s@, MemoryKind::UserFlagged); }
            return Ok(MemoryKind::UserFlagged);
        }
        let mut e = "unknown memory kind: ".to_owned();
        let rest = string_of(low.as_slice());
        push_str(&mut e, rest.as_str());
        proof {
            assert forall|v: MemoryKind| #[trigger] v.spec_name() != lower(s@) by {
                match v {
                    MemoryKind::Pattern => {},
                    MemoryKind::Decision => {},
                    MemoryKind::ErrorSignature => {},
                    MemoryKind::SessionSummary => {},
                    MemoryKind::UserFlagged => {},
                }
            }
        }
        Err(e)
    }

}

impl std::str::FromStr for MemoryKind {
    type Err = String;

    fn from_str(s: &str) -> Result<MemoryKind, String> {
        MemoryKind::parse_name(s)
    }
}

/// A value whose name matches `s` is the value that `s` names.
pub proof fn lemma_memory_kind_parse_unique(s: Seq<char>, v: MemoryKind)
    requires
        v.spec_name() == lower(s),
    ensures
        MemoryKind::spec_parse(s) == Some(v),
{
    lemma_memory_kind_name_roundtrip(v);
    let c = choose|c: MemoryKind| #[trigger] c.spec_name() == lower(s);
    assert(c.spec_name() == v.spec_name());
}

/// Every MemoryKind name is already lowercase and names no other value, so
/// parsing the name of a value gives that value back.
pub proof fn lemma_memory_kind_name_roundtrip(t: MemoryKind)
    ensures
        lower(t.spec_name()) == t.spec_name(),
        forall|u: MemoryKind| #[trigger] u.spec_name() == t.spec_name() ==> u == t,
        MemoryKind::spec_parse(t.spec_name()) == Some(t),
{
    reveal_strlit("pattern");
    reveal_strlit("decision");
    reveal_strlit("error_signature");
    reveal_strlit("session_summary");
    reveal_strlit("user_flagged");
    assert(lower(t.spec_name()) =~= t.spec_name());
    assert forall|u: MemoryKind| #[trigger] u.spec_name() == t.spec_name() implies u == t by {
        if u != t {
            match (u, t) {
                (MemoryKind::Pattern, MemoryKind::Decision) => assert(u.spec_name().len() != t.spec_name().len()),
                (MemoryKind::Pattern, MemoryKind::ErrorSignature) => assert(u.spec_name().len() != t.spec_name().len()),
                (MemoryKind::Pattern, MemoryKind::SessionSummary) => assert(u.spec_name().len() != t.spec_name().len()),
                (MemoryKind::Pattern, MemoryKind::UserFlagged) => assert(u.spec_name().len() != t.spec_name().len()),
                (MemoryKind::Decision, MemoryKind::Pattern) => assert(u.spec_name().len() != t.spec_name().len()),
                (MemoryKind::Decision, MemoryKind::ErrorSignature) => assert(u.spec_name().len() != t.spec_name().len()),
                (MemoryKind::Decision, MemoryKind::SessionSummary) => assert(u.spec_name().len() != t.spec_name().len()),
                (MemoryKind::Decision, MemoryKind::UserFlagged) => assert(u.spec_name().len() != t.spec_name().len()),
                (MemoryKind::ErrorSignature, MemoryKind::Pattern) => assert(u.spec_name().len() != t.spec_name().len()),
                (MemoryKind::ErrorSignature, MemoryKind::Decision) => assert(u.spec_name().len() != t.spec_name().len()),
                (MemoryKind::ErrorSignature, MemoryKind::SessionSummary) => assert(u.spec_name()[0] != t.spec_name()[0]),
                (MemoryKind::ErrorSignature, MemoryKind::UserFlagged) => assert(u.spec_name().len() != t.spec_name().len()),
                (MemoryKind::SessionSummary, MemoryKind::Pattern) => assert(u.spec_name().len() != t.spec_name().len()),
                (MemoryKind::SessionSummary, MemoryKind::Decision) => assert(u.spec_name().len() != t.spec_name().len()),
                (MemoryKind::SessionSummary, MemoryKind::ErrorSignature) => assert(u.spec_name()[0] != t.spec_name()[0]),
                (MemoryKind::SessionSummary, MemoryKind::UserFlagged) => assert(u.spec_name().len() != t.spec_name().len()),
                (MemoryKind::UserFlagged, MemoryKind::Pattern) => assert(u.spec_name().len() != t.spec_name().len()),
                (MemoryKind::UserFlagged, MemoryKind::Decision) => assert(u.spec_name().len() != t.spec_name().len()),
                (MemoryKind::UserFlagged, MemoryKind::ErrorSignature) => assert(u.spec_name().len() != t.spec_name().len()),
                (MemoryKind::UserFlagged, MemoryKind::SessionSummary) => assert(u.spec_name().len() != t.spec_name().len()),
                _ => {},
            }
        }
    }
    let c = choose|c: MemoryKind| #[trigger] c.spec_name() == lower(t.spec_name());
    assert(c.spec_name() == t.spec_name());
}

/// Lifecycle state of a debug session.
#[derive(Debug, Clone, Copy, PartialEq, Eq, Hash, Structural)]
pub enum DebugSessionStatus {
    Active,
    Completed,
    Abandoned,
}

impl DebugSessionStatus {
    /// The snake_case name of the value, as `to_string` writes it.
    pub open spec fn spec_name(self) -> Seq<char> {
        match self {
            DebugSessionStatus::Active => "active"@,
            DebugSessionStatus::Completed => "completed"@,
            DebugSessionStatus::Abandoned => "abandoned"@,
        }
    }

    /// The value named by `s`, ignoring ASCII case.
    pub open spec fn spec_parse(s: Seq<char>) -> Option<DebugSessionStatus> {
        if exists|v: DebugSessionStatus| #[trigger] v.spec_name() == lower(s) {
            Some(choose|v: DebugSessionStatus| #[trigger] v.spec_name() == lower(s))
        } else {
            None
        }
    }

    /// The snake_case name of the value.
    pub fn name(&self) -> (r: &'static str)
        ensures
            r@ == self.spec_name(),
    {
        match self {
            DebugSessionStatus::Active => "active",
            DebugSessionStatus::Completed => "completed",
            DebugSessionStatus::Abandoned => "abandoned",
        }
    }

    /// The snake_case name of the value as an owned `String`.
    pub fn to_string(&self) -> (r: String)
        ensures
            r@ == self.spec_name(),
    {
        self.name().to_owned()
    }

    /// Parses a name, ignoring ASCII case; unknown names are refused with
    /// the message `unknown debug session status: <lowercased input>`.
    pub fn parse_name(s: &str) -> (r: Result<DebugSessionStatus, String>)
        ensures
            match r {
                Ok(v) => v.spec_name() == lower(s@) && DebugSessionStatus::spec_parse(s@) == Some(v),
                Err(e) => (forall|v: DebugSessionStatus| #[trigger] v.spec_name() != lower(s@)) && DebugSessionStatus::spec_parse(s@) is None && e@ == "unknown debug session status: "@ + lower(s@),
            },
    {
        let low = lower_chars(s);
        if chars_eq(low.as_slice(), "active") {
            proof { lemma_debug_session_status_parse_unique(s@, DebugSessionStatus::Active); }
            return Ok(DebugSessionStatus::Active);
        }
        if chars_eq(low.as_slice(), "completed") {
            proof { lemma_debug_session_status_parse_unique(s@, DebugSessionStatus::Completed); }
            return Ok(DebugSessionStatus::Completed);
        }
        if chars_eq(low.as_slice(), "abandoned") {
            proof { lemma_debug_session_status_parse_unique(s@, DebugSessionStatus::Abandoned); }
            return Ok(DebugSessionStatus::Abandoned);
        }
        let mut e = "unknown debug session status: ".to_owned();
        let rest = string_of(low.as_slice());
        push_str(&mut e, rest.as_str());
        proof {
            assert forall|v: DebugSessionStatus| #[trigger] v.spec_name() != lower(s@) by {
                match v {
                    DebugSessionStatus::Active => {},
                    DebugSessionStatus::Completed => {},
                    DebugSessionStatus::Abandoned => {},
                }
            }
        }
        Err(e)
    }

}

impl std::str::FromStr for DebugSessionStatus {
    type Err = String;

    fn from_str(s: &str) -> Result<DebugSessionStatus, String> {
        DebugSessionStatus::parse_name(s)
    }
}

/// A value whose name matches `s` is the value that `s` names.
pub proof fn lemma_debug_session_status_parse_unique(s: Seq<char>, v: DebugSessionStatus)
    requires
        v.spec_name() == lower(s),
    ensures
        DebugSessionStatus::spec_parse(s) == Some(v),
{
    lemma_debug_session_status_name_roundtrip(v);
    let c = choose|c: DebugSessionStatus| #[trigger] c.spec_name() == lower(s);
    assert(c.spec_name() == v.spec_name());
}

/// Every DebugSessionStatus name is already lowercase and names no other value, so
/// parsing the name of a value gives that value back.
pub proof fn lemma_debug_session_status_name_roundtrip(t: DebugSessionStatus)
    ensures
        lower(t.spec_name()) == t.spec_name(),
        forall|u: DebugSessionStatus| #[trigger] u.spec_name() == t.spec_name() ==> u == t,
        DebugSessionStatus::spec_parse(t.spec_name()) == Some(t),
{
    reveal_strlit("active");
    reveal_strlit("completed");
    reveal_strlit("abandoned");
    assert(lower(t.spec_name()) =~= t.spec_name());
    assert forall|u: DebugSessionStatus| #[trigger] u.spec_name() == t.spec_name() implies u == t by {
        if u != t {
            match (u, t) {
                (DebugSessionStatus::Active, DebugSessionStatus::Completed) => assert(u.spec_name().len() != t.spec_name().len()),
                (DebugSessionStatus::Active, DebugSessionStatus::Abandoned) => assert(u.spec_name().len() != t.spec_name().len()),
                (DebugSessionStatus::Completed, DebugSessionStatus::Active) => assert(u.spec_name().len() != t.spec_name().len()),
                (DebugSessionStatus::Completed, DebugSessionStatus::Abandoned) => assert(u.spec_name()[0] != t.spec_name()[0]),
                (DebugSessionStatus::Abandoned, DebugSessionStatus::Active) => assert(u.spec_name().len() != t.spec_name().len()),
                (DebugSessionStatus::Abandoned, DebugSessionStatus::Completed) => assert(u.spec_name()[0] != t.spec_name()[0]),
                _ => {},
            }
        }
    }
    let c = choose|c: DebugSessionStatus| #[trigger] c.spec_name() == lower(t.spec_name());
    assert(c.spec_name() == t.spec_name());
}

/// How a debug session ended.
#[derive(Debug, Clone, Copy, PartialEq, Eq, Hash, Structural)]
pub enum DebugSessionOutcome {
    Resolved,
    Abandoned,
    InProgress,
}

impl DebugSessionOutcome {
    /// The snake_case name of the value, as `to_string` writes it.
    pub open spec fn spec_name(self) -> Seq<char> {
        match self {
            DebugSessionOutcome::Resolved => "resolved"@,
            DebugSessionOutcome::Abandoned => "abandoned"@,
            DebugSessionOutcome::InProgress => "in_progress"@,
        }
    }

    /// The value named by `s`, ignoring ASCII case.
    pub open spec fn spec_parse(s: Seq<char>) -> Option<DebugSessionOutcome> {
        if exists|v: DebugSessionOutcome| #[trigger] v.spec_name() == lower(s) {
            Some(choose|v: DebugSessionOutcome| #[trigger] v.spec_name() == lower(s))
        } else {
            None
        }
    }

    /// The snake_case name of the value.
    pub fn name(&self) -> (r: &'static str)
        ensures
            r@ == self.spec_name(),
    {
        match self {
            DebugSessionOutcome::Resolved => "resolved",
            DebugSessionOutcome::Abandoned => "abandoned",
            DebugSessionOutcome::InProgress => "in_progress",
        }
    }

    /// The snake_case name of the value as an owned `String`.
    pub fn to_string(&self) -> (r: String)
        ensures
            r@ == self.spec_name(),
    {
        self.name().to_owned()
    }

    /// Parses a name, ignoring ASCII case; unknown names are refused with
    /// the message `unknown debug session outcome: <lowercased input>`.
    pub fn parse_name(s: &str) -> (r: Result<DebugSessionOutcome, String>)
        ensures
            match r {
                Ok(v) => v.spec_name() == lower(s@) && DebugSessionOutcome::spec_parse(s@) == Some(v),
                Err(e) => (forall|v: DebugSessionOutcome| #[trigger] v.spec_name() != lower(s@)) && DebugSessionOutcome::spec_parse(s@) is None && e@ == "unknown debug session outcome: "@ + lower(s@),
            },
    {
        let low = lower_chars(s);
        if chars_eq(low.as_slice(), "resolved") {
            proof { lemma_debug_session_outcome_parse_unique(s@, DebugSessionOutcome::Resolved); }
            return Ok(DebugSessionOutcome::Resolved);
        }
        if chars_eq(low.as_slice(), "abandoned") {
            proof { lemma_debug_session_outcome_parse_unique(s@, DebugSessionOutcome::Abandoned); }
            return Ok(DebugSessionOutcome::Abandoned);
        }
        if chars_eq(low.as_slice(), "in_progress") {
            proof { lemma_debug_session_outcome_parse_unique(s@, DebugSessionOutcome::InProgress); }
            return Ok(DebugSessionOutcome::InProgress);
        }
        let mut e = "unknown debug session outcome: ".to_owned();
        let rest = string_of(low.as_slice());
        push_str(&mut e, rest.as_str());
        proof {
            assert forall|v: DebugSessionOutcome| #[trigger] v.spec_name() != lower(s@) by {
                match v {
                    DebugSessionOutcome::Resolved => {},
                    DebugSessionOutcome::Abandoned => {},
                    DebugSessionOutcome::InProgress => {},
                }
            }
        }
        Err(e)
    }

}

impl std::str::FromStr for DebugSessionOutcome {
    type Err = String;

    fn from_str(s: &str) -> Result<DebugSessionOutcome, String> {
        DebugSessionOutcome::parse_name(s)
    }
}

/// A value whose name matches `s` is the value that `s` names.
pub proof fn lemma_debug_session_outcome_parse_unique(s: Seq<char>, v: DebugSessionOutcome)
    requires
        v.spec_name() == lower(s),
    ensures
        DebugSessionOutcome::spec_parse(s) == Some(v),
{
    lemma_debug_session_outcome_name_roundtrip(v);
    let c = choose|c: DebugSessionOutcome| #[trigger] c.spec_name() == lower(s);
    assert(c.spec_name() == v.spec_name());
}

/// Every DebugSessionOutcome name is already lowercase and names no other value, so
/// parsing the name of a value gives that value back.
pub proof fn lemma_debug_session_outcome_name_roundtrip(t: DebugSessionOutcome)
    ensures
        lower(t.spec_name()) == t.spec_name(),
        forall|u: DebugSessionOutcome| #[trigger] u.spec_name() == t.spec_name() ==> u == t,
        DebugSessionOutcome::spec_parse(t.spec_name()) == Some(t),
{
    reveal_strlit("resolved");
    reveal_strlit("abandoned");
    reveal_strlit("in_progress");
    assert(lower(t.spec_name()) =~= t.spec_name());
    assert forall|u: DebugSessionOutcome| #[trigger] u.spec_name() == t.spec_name() implies u == t by {
        if u != t {
            match (u, t) {
                (DebugSessionOutcome::Resolved, DebugSessionOutcome::Abandoned) => assert(u.spec_name().len() != t.spec_name().len()),
                (DebugSessionOutcome::Resolved, DebugSessionOutcome::InProgress) => assert(u.spec_name().len() != t.spec_name().len()),
                (DebugSessionOutcome::Abandoned, DebugSessionOutcome::Resolved) => assert(u.spec_name().len() != t.spec_name().len()),
                (DebugSessionOutcome::Abandoned, DebugSessionOutcome::InProgress) => assert(u.spec_name().len() != t.spec_name().len()),
                (DebugSessionOutcome::InProgress, DebugSessionOutcome::Resolved) => assert(u.spec_name().len() != t.spec_name().len()),
                (DebugSessionOutcome::InProgress, DebugSessionOutcome::Abandoned) => assert(u.spec_name().len() != t.spec_name().len()),
                _ => {},
            }
        }
    }
    let c = choose|c: DebugSessionOutcome| #[trigger] c.spec_name() == lower(t.spec_name());
    assert(c.spec_name() == t.spec_name());
}
} // verus!
