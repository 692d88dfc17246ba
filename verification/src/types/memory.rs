//! Memory tiers, scopes and content kinds.
use vstd::prelude::*;

use crate::text::{chars_eq, lower, lower_chars, push_str, string_of};

verus! {

/// Lifetime class of a stored memory.
#[derive(Debug, Clone, Copy, PartialEq, Eq, Hash, Structural)]
pub enum MemoryTier {
    Short,
    Reference,
    Long,
}

impl MemoryTier {
    /// The snake_case name of the value, as `to_string` writes it.
    pub open spec fn spec_name(self) -> Seq<char> {
        match self {
            MemoryTier::Short => "short"@,
            MemoryTier::Reference => "reference"@,
            MemoryTier::Long => "long"@,
        }
    }

    /// The value named by `s`, ignoring ASCII case.
    pub open spec fn spec_parse(s: Seq<char>) -> Option<MemoryTier> {
        if exists|v: MemoryTier| #[trigger] v.spec_name() == lower(s) {
            Some(choose|v: MemoryTier| #[trigger] v.spec_name() == lower(s))
        } else {
            None
        }
    }

    /// The snake_case name of the value.
    pub fn name(&self) -> (r: &'static str)
        ensures
            r@ == self.spec_name(),
    {
        match self {
            MemoryTier::Short => "short",
            MemoryTier::Reference => "reference",
            MemoryTier::Long => "long",
        }
    }

    /// The snake_case name of the value as an owned `String`.
    pub fn to_string(&self) -> (r: String)
        ensures
            r@ == self.spec_name(),
    {
        self.name().to_owned()
    }

    /// Parses a name, ignoring ASCII case; unknown names are refused with
    /// the message `unknown memory tier: <lowercased input>`.
    pub fn parse_name(s: &str) -> (r: Result<MemoryTier, String>)
        ensures
            match r {
                Ok(v) => v.spec_name() == lower(s@) && MemoryTier::spec_parse(s@) == Some(v),
                Err(e) => (forall|v: MemoryTier| #[trigger] v.spec_name() != lower(s@)) && MemoryTier::spec_parse(s@) is None && e@ == "unknown memory tier: "@ + lower(s@),
            },
    {
        let low = lower_chars(s);
        if chars_eq(low.as_slice(), "short") {
            proof { lemma_memory_tier_parse_unique(s@, MemoryTier::Short); }
            return Ok(MemoryTier::Short);
        }
        if chars_eq(low.as_slice(), "reference") {
            proof { lemma_memory_tier_parse_unique(s@, MemoryTier::Reference); }
            return Ok(MemoryTier::Reference);
        }
        if chars_eq(low.as_slice(), "long") {
            proof { lemma_memory_tier_parse_unique(s@, MemoryTier::Long); }
            return Ok(MemoryTier::Long);
        }
        let mut e = "unknown memory tier: ".to_owned();
        let rest = string_of(low.as_slice());
        push_str(&mut e, rest.as_str());
        proof {
            assert forall|v: MemoryTier| #[trigger] v.spec_name() != lower(s@) by {
                match v {
                    MemoryTier::Short => {},
                    MemoryTier::Reference => {},
                    MemoryTier::Long => {},
                }
            }
        }
        Err(e)
    }

    /// Long and Reference are durable; bookkeeper jobs may move memory between
    /// them but never auto-delete. Short tier is per-agent working memory and
    /// is reaped by the bookkeeper sweep when its TTL elapses.
    pub fn is_durable(self) -> (r: bool)
        ensures
            r == !(self is Short),
    {
        !matches!(self, MemoryTier::Short)
    }

}

impl std::str::FromStr for MemoryTier {
    type Err = String;

    fn from_str(s: &str) -> Result<MemoryTier, String> {
        MemoryTier::parse_name(s)
    }
}

/// A value whose name matches `s` is the value that `s` names.
pub proof fn lemma_memory_tier_parse_unique(s: Seq<char>, v: MemoryTier)
    requires
        v.spec_name() == lower(s),
    ensures
        MemoryTier::spec_parse(s) == Some(v),
{
    lemma_memory_tier_name_roundtrip(v);
    let c = choose|c: MemoryTier| #[trigger] c.spec_name() == lower(s);
    assert(c.spec_name() == v.spec_name());
}

/// Every MemoryTier name is already lowercase and names no other value, so
/// parsing the name of a value gives that value back.
pub proof fn lemma_memory_tier_name_roundtrip(t: MemoryTier)
    ensures
        lower(t.spec_name()) == t.spec_name(),
        forall|u: MemoryTier| #[trigger] u.spec_name() == t.spec_name() ==> u == t,
        MemoryTier::spec_parse(t.spec_name()) == Some(t),
{
    reveal_strlit("short");
    reveal_strlit("reference");
    reveal_strlit("long");
    assert(lower(t.spec_name()) =~= t.spec_name());
    assert forall|u: MemoryTier| #[trigger] u.spec_name() == t.spec_name() implies u == t by {
        if u != t {
            match (u, t) {
                (MemoryTier::Short, MemoryTier::Reference) => assert(u.spec_name().len() != t.spec_name().len()),
                (MemoryTier::Short, MemoryTier::Long) => assert(u.spec_name().len() != t.spec_name().len()),
                (MemoryTier::Reference, MemoryTier::Short) => assert(u.spec_name().len() != t.spec_name().len()),
                (MemoryTier::Reference, MemoryTier::Long) => assert(u.spec_name().len() != t.spec_name().len()),
                (MemoryTier::Long, MemoryTier::Short) => assert(u.spec_name().len() != t.spec_name().len()),
                (MemoryTier::Long, MemoryTier::Reference) => assert(u.spec_name().len() != t.spec_name().len()),
                _ => {},
            }
        }
    }
    let c = choose|c: MemoryTier| #[trigger] c.spec_name() == lower(t.spec_name());
    assert(c.spec_name() == t.spec_name());
}

/// Visibility scope of a memory.
#[derive(Debug, Clone, Copy, PartialEq, Eq, Hash, Structural)]
pub enum MemoryScope {
    Agent,
    Team,
    Project,
    Global,
}

impl MemoryScope {
    /// The snake_case name of the value, as `to_string` writes it.
    pub open spec fn spec_name(self) -> Seq<char> {
        match self {
            MemoryScope::Agent => "agent"@,
            MemoryScope::Team => "team"@,
            MemoryScope::Project => "project"@,
            MemoryScope::Global => "global"@,
        }
    }

    /// The value named by `s`, ignoring ASCII case.
    pub open spec fn spec_parse(s: Seq<char>) -> Option<MemoryScope> {
        if exists|v: MemoryScope| #[trigger] v.spec_name() == lower(s) {
            Some(choose|v: MemoryScope| #[trigger] v.spec_name() == lower(s))
        } else {
            None
        }
    }

    /// The snake_case name of the value.
    pub fn name(&self) -> (r: &'static str)
        ensures
            r@ == self.spec_name(),
    {
        match self {
            MemoryScope::Agent => "agent",
            MemoryScope::Team => "team",
            MemoryScope::Project => "project",
            MemoryScope::Global => "global",
        }
    }

    /// The snake_case name of the value as an owned `String`.
    pub fn to_string(&self) -> (r: String)
        ensures
            r@ == self.spec_name(),
    {
        self.name().to_owned()
    }

    /// Parses a name, ignoring ASCII case; unknown names are refused with
    /// the message `unknown memory scope: <lowercased input>`.
    pub fn parse_name(s: &str) -> (r: Result<MemoryScope, String>)
        ensures
            match r {
                Ok(v) => v.spec_name() == lower(s@) && MemoryScope::spec_parse(s@) == Some(v),
                Err(e) => (forall|v: MemoryScope| #[trigger] v.spec_name() != lower(s@)) && MemoryScope::spec_parse(s@) is None && e@ == "unknown memory scope: "@ + lower(s@),
            },
    {
        let low = lower_chars(s);
        if chars_eq(low.as_slice(), "agent") {
            proof { lemma_memory_scope_parse_unique(s@, MemoryScope::Agent); }
            return Ok(MemoryScope::Agent);
        }
        if chars_eq(low.as_slice(), "team") {
            proof { lemma_memory_scope_parse_unique(s@, MemoryScope::Team); }
            return Ok(MemoryScope::Team);
        }
        if chars_eq(low.as_slice(), "project") {
            proof { lemma_memory_scope_parse_unique(s@, MemoryScope::Project); }
            return Ok(MemoryScope::Project);
        }
        if chars_eq(low.as_slice(), "global") {
            proof { lemma_memory_scope_parse_unique(s@, MemoryScope::Global); }
            return Ok(MemoryScope::Global);
        }
        let mut e = "unknown memory scope: ".to_owned();
        let rest = string_of(low.as_slice());
        push_str(&mut e, rest.as_str());
        proof {
            assert forall|v: MemoryScope| #[trigger] v.spec_name() != lower(s@) by {
                match v {
                    MemoryScope::Agent => {},
                    MemoryScope::Team => {},
                    MemoryScope::Project => {},
                    MemoryScope::Global => {},
                }
            }
        }
        Err(e)
    }

}

impl std::str::FromStr for MemoryScope {
    type Err = String;

    fn from_str(s: &str) -> Result<MemoryScope, String> {
        MemoryScope::parse_name(s)
    }
}

/// A value whose name matches `s` is the value that `s` names.
pub proof fn lemma_memory_scope_parse_unique(s: Seq<char>, v: MemoryScope)
    requires
        v.spec_name() == lower(s),
    ensures
        MemoryScope::spec_parse(s) == Some(v),
{
    lemma_memory_scope_name_roundtrip(v);
    let c = choose|c: MemoryScope| #[trigger] c.spec_name() == lower(s);
    assert(c.spec_name() == v.spec_name());
}

/// Every MemoryScope name is already lowercase and names no other value, so
/// parsing the name of a value gives that value back.
pub proof fn lemma_memory_scope_name_roundtrip(t: MemoryScope)
    ensures
        lower(t.spec_name()) == t.spec_name(),
        forall|u: MemoryScope| #[trigger] u.spec_name() == t.spec_name() ==> u == t,
        MemoryScope::spec_parse(t.spec_name()) == Some(t),
{
    reveal_strlit("agent");
    reveal_strlit("team");
    reveal_strlit("project");
    reveal_strlit("global");
    assert(lower(t.spec_name()) =~= t.spec_name());
    assert forall|u: MemoryScope| #[trigger] u.spec_name() == t.spec_name() implies u == t by {
        if u != t {
            match (u, t) {
                (MemoryScope::Agent, MemoryScope::Team) => assert(u.spec_name().len() != t.spec_name().len()),
                (MemoryScope::Agent, MemoryScope::Project) => assert(u.spec_name().len() != t.spec_name().len()),
                (MemoryScope::Agent, MemoryScope::Global) => assert(u.spec_name().len() != t.spec_name().len()),
                (MemoryScope::Team, MemoryScope::Agent) => assert(u.spec_name().len() != t.spec_name().len()),
                (MemoryScope::Team, MemoryScope::Project) => assert(u.spec_name().len() != t.spec_name().len()),
                (MemoryScope::Team, MemoryScope::Global) => assert(u.spec_name().len() != t.spec_name().len()),
                (MemoryScope::Project, MemoryScope::Agent) => assert(u.spec_name().len() != t.spec_name().len()),
                (MemoryScope::Project, MemoryScope::Team) => assert(u.spec_name().len() != t.spec_name().len()),
                (MemoryScope::Project, MemoryScope::Global) => assert(u.spec_name().len() != t.spec_name().len()),
                (MemoryScope::Global, MemoryScope::Agent) => assert(u.spec_name().len() != t.spec_name().len()),
                (MemoryScope::Global, MemoryScope::Team) => assert(u.spec_name().len() != t.spec_name().len()),
                (MemoryScope::Global, MemoryScope::Project) => assert(u.spec_name().len() != t.spec_name().len()),
                _ => {},
            }
        }
    }
    let c = choose|c: MemoryScope| #[trigger] c.spec_name() == lower(t.spec_name());
    assert(c.spec_name() == t.spec_name());
}

/// Content class of a short-tier memory.
#[derive(Debug, Clone, Copy, PartialEq, Eq, Hash, Structural)]
pub enum ShortContentKind {
    Scratch,
    Summary,
    Fact,
    Observation,
}

impl ShortContentKind {
    /// The snake_case name of the value, as `to_string` writes it.
    pub open spec fn spec_name(self) -> Seq<char> {
        match self {
            ShortContentKind::Scratch => "scratch"@,
            ShortContentKind::Summary => "summary"@,
            ShortContentKind::Fact => "fact"@,
            ShortContentKind::Observation => "observation"@,
        }
    }

    /// The value named by `s`, ignoring ASCII case.
    pub open spec fn spec_parse(s: Seq<char>) -> Option<ShortContentKind> {
        if exists|v: ShortContentKind| #[trigger] v.spec_name() == lower(s) {
            Some(choose|v: ShortContentKind| #[trigger] v.spec_name() == lower(s))
        } else {
            None
        }
    }

    /// The snake_case name of the value.
    pub fn name(&self) -> (r: &'static str)
        ensures
            r@ == self.spec_name(),
    {
        match self {
            ShortContentKind::Scratch => "scratch",
            ShortContentKind::Summary => "summary",
            ShortContentKind::Fact => "fact",
            ShortContentKind::Observation => "observation",
        }
    }

    /// The snake_case name of the value as an owned `String`.
    pub fn to_string(&self) -> (r: String)
        ensures
            r@ == self.spec_name(),
    {
        self.name().to_owned()
    }

    /// Parses a name, ignoring ASCII case; unknown names are refused with
    /// the message `unknown short content kind: <lowercased input>`.
    pub fn parse_name(s: &str) -> (r: Result<ShortContentKind, String>)
        ensures
            match r {
                Ok(v) => v.spec_name() == lower(s@) && ShortContentKind::spec_parse(s@) == Some(v),
                Err(e) => (forall|v: ShortContentKind| #[trigger] v.spec_name() != lower(s@)) && ShortContentKind::spec_parse(s@) is None && e@ == "unknown short content kind: "@ + lower(s@),
            },
    {
        let low = lower_chars(s);
        if chars_eq(low.as_slice(), "scratch") {
            proof { lemma_short_content_kind_parse_unique(s@, ShortContentKind::Scratch); }
            return Ok(ShortContentKind::Scratch);
        }
        if chars_eq(low.as_slice(), "summary") {
            proof { lemma_short_content_kind_parse_unique(s@, ShortContentKind::Summary); }
            return Ok(ShortContentKind::Summary);
        }
        if chars_eq(low.as_slice(), "fact") {
            proof { lemma_short_content_kind_parse_unique(s@, ShortContentKind::Fact); }
            return Ok(ShortContentKind::Fact);
        }
        if chars_eq(low.as_slice(), "observation") {
            proof { lemma_short_content_kind_parse_unique(s@, ShortContentKind::Observation); }
            return Ok(ShortContentKind::Observation);
        }
        let mut e = "unknown short content kind: ".to_owned();
        let rest = string_of(low.as_slice());
        push_str(&mut e, rest.as_str());
        proof {
            assert forall|v: ShortContentKind| #[trigger] v.spec_name() != lower(s@) by {
                match v {
                    ShortContentKind::Scratch => {},
                    ShortContentKind::Summary => {},
                    ShortContentKind::Fact => {},
                    ShortContentKind::Observation => {},
                }
            }
        }
        Err(e)
    }

}

impl std::str::FromStr for ShortContentKind {
    type Err = String;

    fn from_str(s: &str) -> Result<ShortContentKind, String> {
        ShortContentKind::parse_name(s)
    }
}

/// A value whose name matches `s` is the value that `s` names.
pub proof fn lemma_short_content_kind_parse_unique(s: Seq<char>, v: ShortContentKind)
    requires
        v.spec_name() == lower(s),
    ensures
        ShortContentKind::spec_parse(s) == Some(v),
{
    lemma_short_content_kind_name_roundtrip(v);
    let c = choose|c: ShortContentKind| #[trigger] c.spec_name() == lower(s);
    assert(c.spec_name() == v.spec_name());
}

/// Every ShortContentKind name is already lowercase and names no other value, so
/// parsing the name of a value gives that value back.
pub proof fn lemma_short_content_kind_name_roundtrip(t: ShortContentKind)
    ensures
        lower(t.spec_name()) == t.spec_name(),
        forall|u: ShortContentKind| #[trigger] u.spec_name() == t.spec_name() ==> u == t,
        ShortContentKind::spec_parse(t.spec_name()) == Some(t),
{
    reveal_strlit("scratch");
    reveal_strlit("summary");
    reveal_strlit("fact");
    reveal_strlit("observation");
    assert(lower(t.spec_name()) =~= t.spec_name());
    assert forall|u: ShortContentKind| #[trigger] u.spec_name() == t.spec_name() implies u == t by {
        if u != t {
            match (u, t) {
                (ShortContentKind::Scratch, ShortContentKind::Summary) => assert(u.spec_name()[1] != t.spec_name()[1]),
                (ShortContentKind::Scratch, ShortContentKind::Fact) => assert(u.spec_name().len() != t.spec_name().len()),
                (ShortContentKind::Scratch, ShortContentKind::Observation) => assert(u.spec_name().len() != t.spec_name().len()),
                (ShortContentKind::Summary, ShortContentKind::Scratch) => assert(u.spec_name()[1] != t.spec_name()[1]),
                (ShortContentKind::Summary, ShortContentKind::Fact) => assert(u.spec_name().len() != t.spec_name().len()),
                (ShortContentKind::Summary, ShortContentKind::Observation) => assert(u.spec_name().len() != t.spec_name().len()),
                (ShortContentKind::Fact, ShortContentKind::Scratch) => assert(u.spec_name().len() != t.spec_name().len()),
                (ShortContentKind::Fact, ShortContentKind::Summary) => assert(u.spec_name().len() != t.spec_name().len()),
                (ShortContentKind::Fact, ShortContentKind::Observation) => assert(u.spec_name().len() != t.spec_name().len()),
                (ShortContentKind::Observation, ShortContentKind::Scratch) => assert(u.spec_name().len() != t.spec_name().len()),
                (ShortContentKind::Observation, ShortContentKind::Summary) => assert(u.spec_name().len() != t.spec_name().len()),
                (ShortContentKind::Observation, ShortContentKind::Fact) => assert(u.spec_name().len() != t.spec_name().len()),
                _ => {},
            }
        }
    }
    let c = choose|c: ShortContentKind| #[trigger] c.spec_name() == lower(t.spec_name());
    assert(c.spec_name() == t.spec_name());
}

/// Origin class of a reference-tier memory.
#[derive(Debug, Clone, Copy, PartialEq, Eq, Hash, Structural)]
pub enum ReferenceSourceKind {
    Doc,
    Forum,
    Rfc,
    Code,
    Note,
    Other,
}

impl ReferenceSourceKind {
    /// The snake_case name of the value, as `to_string` writes it.
    pub open spec fn spec_name(self) -> Seq<char> {
        match self {
            ReferenceSourceKind::Doc => "doc"@,
            ReferenceSourceKind::Forum => "forum"@,
            ReferenceSourceKind::Rfc => "rfc"@,
            ReferenceSourceKind::Code => "code"@,
            ReferenceSourceKind::Note => "note"@,
            ReferenceSourceKind::Other => "other"@,
        }
    }

    /// The value named by `s`, ignoring ASCII case.
    pub open spec fn spec_parse(s: Seq<char>) -> Option<ReferenceSourceKind> {
        if exists|v: ReferenceSourceKind| #[trigger] v.spec_name() == lower(s) {
            Some(choose|v: ReferenceSourceKind| #[trigger] v.spec_name() == lower(s))
        } else {
            None
        }
    }

    /// The snake_case name of the value.
    pub fn name(&self) -> (r: &'static str)
        ensures
            r@ == self.spec_name(),
    {
        match self {
            ReferenceSourceKind::Doc => "doc",
            ReferenceSourceKind::Forum => "forum",
            ReferenceSourceKind::Rfc => "rfc",
            ReferenceSourceKind::Code => "code",
            ReferenceSourceKind::Note => "note",
            ReferenceSourceKind::Other => "other",
        }
    }

    /// The snake_case name of the value as an owned `String`.
    pub fn to_string(&self) -> (r: String)
        ensures
            r@ == self.spec_name(),
    {
        self.name().to_owned()
    }

    /// Parses a name, ignoring ASCII case; unknown names are refused with
    /// the message `unknown reference source kind: <lowercased input>`.
    pub fn parse_name(s: &str) -> (r: Result<ReferenceSourceKind, String>)
        ensures
            match r {
                Ok(v) => v.spec_name() == lower(s@) && ReferenceSourceKind::spec_parse(s@) == Some(v),
                Err(e) => (forall|v: ReferenceSourceKind| #[trigger] v.spec_name() != lower(s@)) && ReferenceSourceKind::spec_parse(s@) is None && e@ == "unknown reference source kind: "@ + lower(s@),
            },
    {
        let low = lower_chars(s);
        if chars_eq(low.as_slice(), "doc") {
            proof { lemma_reference_source_kind_parse_unique(s@, ReferenceSourceKind::Doc); }
            return Ok(ReferenceSourceKind::Doc);
        }
        if chars_eq(low.as_slice(), "forum") {
            proof { lemma_reference_source_kind_parse_unique(s@, ReferenceSourceKind::Forum); }
            return Ok(ReferenceSourceKind::Forum);
        }
        if chars_eq(low.as_slice(), "rfc") {
            proof { lemma_reference_source_kind_parse_unique(s@, ReferenceSourceKind::Rfc); }
            return Ok(ReferenceSourceKind::Rfc);
        }
        if chars_eq(low.as_slice(), "code") {
            proof { lemma_reference_source_kind_parse_unique(s@, ReferenceSourceKind::Code); }
            return Ok(ReferenceSourceKind::Code);
        }
        if chars_eq(low.as_slice(), "note") {
            proof { lemma_reference_source_kind_parse_unique(s@, ReferenceSourceKind::Note); }
            return Ok(ReferenceSourceKind::Note);
        }
        if chars_eq(low.as_slice(), "other") {
            proof { lemma_reference_source_kind_parse_unique(s@, ReferenceSourceKind::Other); }
            return Ok(ReferenceSourceKind::Other);
        }
        let mut e = "unknown reference source kind: ".to_owned();
        let rest = string_of(low.as_slice());
        push_str(&mut e, rest.as_str());
        proof {
            assert forall|v: ReferenceSourceKind| #[trigger] v.spec_name() != lower(s@) by {
                match v {
                    ReferenceSourceKind::Doc => {},
                    ReferenceSourceKind::Forum => {},
                    ReferenceSourceKind::Rfc => {},
                    ReferenceSourceKind::Code => {},
                    ReferenceSourceKind::Note => {},
                    ReferenceSourceKind::Other => {},
                }
            }
        }
        Err(e)
    }

}

impl std::str::FromStr for ReferenceSourceKind {
    type Err = String;

    fn from_str(s: &str) -> Result<ReferenceSourceKind, String> {
        ReferenceSourceKind::parse_name(s)
    }
}

/// A value whose name matches `s` is the value that `s` names.
pub proof fn lemma_reference_source_kind_parse_unique(s: Seq<char>, v: ReferenceSourceKind)
    requires
        v.spec_name() == lower(s),
    ensures
        ReferenceSourceKind::spec_parse(s) == Some(v),
{
    lemma_reference_source_kind_name_roundtrip(v);
    let c = choose|c: ReferenceSourceKind| #[trigger] c.spec_name() == lower(s);
    assert(c.spec_name() == v.spec_name());
}

/// Every ReferenceSourceKind name is already lowercase and names no other value, so
/// parsing the name of a value gives that value back.
pub proof fn lemma_reference_source_kind_name_roundtrip(t: ReferenceSourceKind)
    ensures
        lower(t.spec_name()) == t.spec_name(),
        forall|u: ReferenceSourceKind| #[trigger] u.spec_name() == t.spec_name() ==> u == t,
        ReferenceSourceKind::spec_parse(t.spec_name()) == Some(t),
{
    reveal_strlit("doc");
    reveal_strlit("forum");
    reveal_strlit("rfc");
    reveal_strlit("code");
    reveal_strlit("note");
    reveal_strlit("other");
    assert(lower(t.spec_name()) =~= t.spec_name());
    assert forall|u: ReferenceSourceKind| #[trigger] u.spec_name() == t.spec_name() implies u == t by {
        if u != t {
            match (u, t) {
                (ReferenceSourceKind::Doc, ReferenceSourceKind::Forum) => assert(u.spec_name().len() != t.spec_name().len()),
                (ReferenceSourceKind::Doc, ReferenceSourceKind::Rfc) => assert(u.spec_name()[0] != t.spec_name()[0]),
                (ReferenceSourceKind::Doc, ReferenceSourceKind::Code) => assert(u.spec_name().len() != t.spec_name().len()),
                (ReferenceSourceKind::Doc, ReferenceSourceKind::Note) => assert(u.spec_name().len() != t.spec_name().len()),
                (ReferenceSourceKind::Doc, ReferenceSourceKind::Other) => assert(u.spec_name().len() != t.spec_name().len()),
                (ReferenceSourceKind::Forum, ReferenceSourceKind::Doc) => assert(u.spec_name().len() != t.spec_name().len()),
                (ReferenceSourceKind::Forum, ReferenceSourceKind::Rfc) => assert(u.spec_name().len() != t.spec_name().len()),
                (ReferenceSourceKind::Forum, ReferenceSourceKind::Code) => assert(u.spec_name().len() != t.spec_name().len()),
                (ReferenceSourceKind::Forum, ReferenceSourceKind::Note) => assert(u.spec_name().len() != t.spec_name().len()),
                (ReferenceSourceKind::Forum, ReferenceSourceKind::Other) => assert(u.spec_name()[0] != t.spec_name()[0]),
                (ReferenceSourceKind::Rfc, ReferenceSourceKind::Doc) => assert(u.spec_name()[0] != t.spec_name()[0]),
                (ReferenceSourceKind::Rfc, ReferenceSourceKind::Forum) => assert(u.spec_name().len() != t.spec_name().len()),
                (ReferenceSourceKind::Rfc, ReferenceSourceKind::Code) => assert(u.spec_name().len() != t.spec_name().len()),
                (ReferenceSourceKind::Rfc, ReferenceSourceKind::Note) => assert(u.spec_name().len() != t.spec_name().len()),
                (ReferenceSourceKind::Rfc, ReferenceSourceKind::Other) => assert(u.spec_name().len() != t.spec_name().len()),
                (ReferenceSourceKind::Code, ReferenceSourceKind::Doc) => assert(u.spec_name().len() != t.spec_name().len()),
                (ReferenceSourceKind::Code, ReferenceSourceKind::Forum) => assert(u.spec_name().len() != t.spec_name().len()),
                (ReferenceSourceKind::Code, ReferenceSourceKind::Rfc) => assert(u.spec_name().len() != t.spec_name().len()),
                (ReferenceSourceKind::Code, ReferenceSourceKind::Note) => assert(u.spec_name()[0] != t.spec_name()[0]),
                (ReferenceSourceKind::Code, ReferenceSourceKind::Other) => assert(u.spec_name().len() != t.spec_name().len()),
                (ReferenceSourceKind::Note, ReferenceSourceKind::Doc) => assert(u.spec_name().len() != t.spec_name().len()),
                (ReferenceSourceKind::Note, ReferenceSourceKind::Forum) => assert(u.spec_name().len() != t.spec_name().len()),
                (ReferenceSourceKind::Note, ReferenceSourceKind::Rfc) => assert(u.spec_name().len() != t.spec_name().len()),
                (ReferenceSourceKind::Note, ReferenceSourceKind::Code) => assert(u.spec_name()[0] != t.spec_name()[0]),
                (ReferenceSourceKind::Note, ReferenceSourceKind::Other) => assert(u.spec_name().len() != t.spec_name().len()),
                (ReferenceSourceKind::Other, ReferenceSourceKind::Doc) => assert(u.spec_name().len() != t.spec_name().len()),
                (ReferenceSourceKind::Other, ReferenceSourceKind::Forum) => assert(u.spec_name()[0] != t.spec_name()[0]),
                (ReferenceSourceKind::Other, ReferenceSourceKind::Rfc) => assert(u.spec_name().len() != t.spec_name().len()),
                (ReferenceSourceKind::Other, ReferenceSourceKind::Code) => assert(u.spec_name().len() != t.spec_name().len()),
                (ReferenceSourceKind::Other, ReferenceSourceKind::Note) => assert(u.spec_name().len() != t.spec_name().len()),
                _ => {},
            }
        }
    }
    let c = choose|c: ReferenceSourceKind| #[trigger] c.spec_name() == lower(t.spec_name());
    assert(c.spec_name() == t.spec_name());
}

/// Content class of a long-tier memory.
#[derive(Debug, Clone, Copy, PartialEq, Eq, Hash, Structural)]
pub enum LongContentKind {
    Fact,
    Pattern,
    Decision,
    Heuristic,
    Example,
}

impl LongContentKind {
    /// The snake_case name of the value, as `to_string` writes it.
    pub open spec fn spec_name(self) -> Seq<char> {
        match self {
            LongContentKind::Fact => "fact"@,
            LongContentKind::Pattern => "pattern"@,
            LongContentKind::Decision => "decision"@,
            LongContentKind::Heuristic => "heuristic"@,
            LongContentKind::Example => "example"@,
        }
    }

    /// The value named by `s`, ignoring ASCII case.
    pub open spec fn spec_parse(s: Seq<char>) -> Option<LongContentKind> {
        if exists|v: LongContentKind| #[trigger] v.spec_name() == lower(s) {
            Some(choose|v: LongContentKind| #[trigger] v.spec_name() == lower(s))
        } else {
            None
        }
    }

    /// The snake_case name of the value.
    pub fn name(&self) -> (r: &'static str)
        ensures
            r@ == self.spec_name(),
    {
        match self {
            LongContentKind::Fact => "fact",
            LongContentKind::Pattern => "pattern",
            LongContentKind::Decision => "decision",
            LongContentKind::Heuristic => "heuristic",
            LongContentKind::Example => "example",
        }
    }

    /// The snake_case name of the value as an owned `String`.
    pub fn to_string(&self) -> (r: String)
        ensures
            r@ == self.spec_name(),
    {
        self.name().to_owned()
    }

    /// Parses a name, ignoring ASCII case; unknown names are refused with
    /// the message `unknown long content kind: <lowercased input>`.
    pub fn parse_name(s: &str) -> (r: Result<LongContentKind, String>)
        ensures
            match r {
                Ok(v) => v.spec_name() == lower(s@) && LongContentKind::spec_parse(s@) == Some(v),
                Err(e) => (forall|v: LongContentKind| #[trigger] v.spec_name() != lower(s@)) && LongContentKind::spec_parse(s@) is None && e@ == "unknown long content kind: "@ + lower(s@),
            },
    {
        let low = lower_chars(s);
        if chars_eq(low.as_slice(), "fact") {
            proof { lemma_long_content_kind_parse_unique(s@, LongContentKind::Fact); }
            return Ok(LongContentKind::Fact);
        }
        if chars_eq(low.as_slice(), "pattern") {
            proof { lemma_long_content_kind_parse_unique(s@, LongContentKind::Pattern); }
            return Ok(LongContentKind::Pattern);
        }
        if chars_eq(low.as_slice(), "decision") {
            proof { lemma_long_content_kind_parse_unique(s@, LongContentKind::Decision); }
            return Ok(LongContentKind::Decision);
        }
        if chars_eq(low.as_slice(), "heuristic") {
            proof { lemma_long_content_kind_parse_unique(s@, LongContentKind::Heuristic); }
            return Ok(LongContentKind::Heuristic);
        }
        if chars_eq(low.as_slice(), "example") {
            proof { lemma_long_content_kind_parse_unique(s@, LongContentKind::Example); }
            return Ok(LongContentKind::Example);
        }
        let mut e = "unknown long content kind: ".to_owned();
        let rest = string_of(low.as_slice());
        push_str(&mut e, rest.as_str());
        proof {
            assert forall|v: LongContentKind| #[trigger] v.spec_name() != lower(s@) by {
                match v {
                    LongContentKind::Fact => {},
                    LongContentKind::Pattern => {},
                    LongContentKind::Decision => {},
                    LongContentKind::Heuristic => {},
                    LongContentKind::Example => {},
                }
            }
        }
        Err(e)
    }

}

impl std::str::FromStr for LongContentKind {
    type Err = String;

    fn from_str(s: &str) -> Result<LongContentKind, String> {
        LongContentKind::parse_name(s)
    }
}

/// A value whose name matches `s` is the value that `s` names.
pub proof fn lemma_long_content_kind_parse_unique(s: Seq<char>, v: LongContentKind)
    requires
        v.spec_name() == lower(s),
    ensures
        LongContentKind::spec_parse(s) == Some(v),
{
    lemma_long_content_kind_name_roundtrip(v);
    let c = choose|c: LongContentKind| #[trigger] c.spec_name() == lower(s);
    assert(c.spec_name() == v.spec_name());
}

/// Every LongContentKind name is already lowercase and names no other value, so
/// parsing the name of a value gives that value back.
pub proof fn lemma_long_content_kind_name_roundtrip(t: LongContentKind)
    ensures
        lower(t.spec_name()) == t.spec_name(),
        forall|u: LongContentKind| #[trigger] u.spec_name() == t.spec_name() ==> u == t,
        LongContentKind::spec_parse(t.spec_name()) == Some(t),
{
    reveal_strlit("fact");
    reveal_strlit("pattern");
    reveal_strlit("decision");
    reveal_strlit("heuristic");
    reveal_strlit("example");
    assert(lower(t.spec_name()) =~= t.spec_name());
    assert forall|u: LongContentKind| #[trigger] u.spec_name() == t.spec_name() implies u == t by {
        if u != t {
            match (u, t) {
                (LongContentKind::Fact, LongContentKind::Pattern) => assert(u.spec_name().len() != t.spec_name().len()),
                (LongContentKind::Fact, LongContentKind::Decision) => assert(u.spec_name().len() != t.spec_name().len()),
                (LongContentKind::Fact, LongContentKind::Heuristic) => assert(u.spec_name().len() != t.spec_name().len()),
                (LongContentKind::Fact, LongContentKind::Example) => assert(u.spec_name().len() != t.spec_name().len()),
                (LongContentKind::Pattern, LongContentKind::Fact) => assert(u.spec_name().len() != t.spec_name().len()),
                (LongContentKind::Pattern, LongContentKind::Decision) => assert(u.spec_name().len() != t.spec_name().len()),
                (LongContentKind::Pattern, LongContentKind::Heuristic) => assert(u.spec_name().len() != t.spec_name().len()),
                (LongContentKind::Pattern, LongContentKind::Example) => assert(u.spec_name()[0] != t.spec_name()[0]),
                (LongContentKind::Decision, LongContentKind::Fact) => assert(u.spec_name().len() != t.spec_name().len()),
                (LongContentKind::Decision, LongContentKind::Pattern) => assert(u.spec_name().len() != t.spec_name().len()),
                (LongContentKind::Decision, LongContentKind::Heuristic) => assert(u.spec_name().len() != t.spec_name().len()),
                (LongContentKind::Decision, LongContentKind::Example) => assert(u.spec_name().len() != t.spec_name().len()),
                (LongContentKind::Heuristic, LongContentKind::Fact) => assert(u.spec_name().len() != t.spec_name().len()),
                (LongContentKind::Heuristic, LongContentKind::Pattern) => assert(u.spec_name().len() != t.spec_name().len()),
                (LongContentKind::Heuristic, LongContentKind::Decision) => assert(u.spec_name().len() != t.spec_name().len()),
                (LongContentKind::Heuristic, LongContentKind::Example) => assert(u.spec_name().len() != t.spec_name().len()),
                (LongContentKind::Example, LongContentKind::Fact) => assert(u.spec_name().len() != t.spec_name().len()),
                (LongContentKind::Example, LongContentKind::Pattern) => assert(u.spec_name()[0] != t.spec_name()[0]),
                (LongContentKind::Example, LongContentKind::Decision) => assert(u.spec_name().len() != t.spec_name().len()),
                (LongContentKind::Example, LongContentKind::Heuristic) => assert(u.spec_name().len() != t.spec_name().len()),
                _ => {},
            }
        }
    }
    let c = choose|c: LongContentKind| #[trigger] c.spec_name() == lower(t.spec_name());
    assert(c.spec_name() == t.spec_name());
}
/// Provenance trail for a `memory_long` row. Each entry records one source
/// that contributed to the long memory: a short memory that was promoted, an
/// envelope that was extracted from, or a reference doc that corroborated.
#[derive(Debug, Clone, PartialEq, Eq)]
pub struct ProvenanceEntry {
    pub source_kind: String,
    pub source_id: String,
    pub validated_at: u64,
    pub validated_by: String,
}

} // verus!
