//! Envelope queue vocabulary: status, priority and kind of a message.
use vstd::prelude::*;

use crate::text::{chars_eq, lower, lower_chars, push_str, string_of};

verus! {

/// Delivery state of an envelope.
#[derive(Debug, Clone, Copy, PartialEq, Eq, Hash, Structural)]
pub enum EnvelopeStatus {
    Queued,
    Delivered,
    Read,
    Failed,
    Expired,
    Cancelled,
}

impl EnvelopeStatus {
    /// The snake_case name of the value, as `to_string` writes it.
    pub open spec fn spec_name(self) -> Seq<char> {
        match self {
            EnvelopeStatus::Queued => "queued"@,
            EnvelopeStatus::Delivered => "delivered"@,
            EnvelopeStatus::Read => "read"@,
            EnvelopeStatus::Failed => "failed"@,
            EnvelopeStatus::Expired => "expired"@,
            EnvelopeStatus::Cancelled => "cancelled"@,
        }
    }

    /// The value named by `s`, ignoring ASCII case.
    pub open spec fn spec_parse(s: Seq<char>) -> Option<EnvelopeStatus> {
        if exists|v: EnvelopeStatus| #[trigger] v.spec_name() == lower(s) {
            Some(choose|v: EnvelopeStatus| #[trigger] v.spec_name() == lower(s))
        } else {
            None
        }
    }

    /// The snake_case name of the value.
    pub fn name(&self) -> (r: &'static str)
        ensures
            r@ == self.spec_name(),
    {
        match self {
            EnvelopeStatus::Queued => "queued",
            EnvelopeStatus::Delivered => "delivered",
            EnvelopeStatus::Read => "read",
            EnvelopeStatus::Failed => "failed",
            EnvelopeStatus::Expired => "expired",
            EnvelopeStatus::Cancelled => "cancelled",
        }
    }

    /// The snake_case name of the value as an owned `String`.
    pub fn to_string(&self) -> (r: String)
        ensures
            r@ == self.spec_name(),
    {
        self.name().to_owned()
    }

    /// Parses a name, ignoring ASCII case; unknown names are refused with
    /// the message `unknown envelope status: <lowercased input>`.
    pub fn parse_name(s: &str) -> (r: Result<EnvelopeStatus, String>)
        ensures
            match r {
                Ok(v) => v.spec_name() == lower(s@) && EnvelopeStatus::spec_parse(s@) == Some(v),
                Err(e) => (forall|v: EnvelopeStatus| #[trigger] v.spec_name() != lower(s@)) && EnvelopeStatus::spec_parse(s@) is None && e@ == "unknown envelope status: "@ + lower(s@),
            },
    {
        let low = lower_chars(s);
        if chars_eq(low.as_slice(), "queued") {
            proof { lemma_envelope_status_parse_unique(s@, EnvelopeStatus::Queued); }
            return Ok(EnvelopeStatus::Queued);
        }
        if chars_eq(low.as_slice(), "delivered") {
            proof { lemma_envelope_status_parse_unique(s@, EnvelopeStatus::Delivered); }
            return Ok(EnvelopeStatus::Delivered);
        }
        if chars_eq(low.as_slice(), "read") {
            proof { lemma_envelope_status_parse_unique(s@, EnvelopeStatus::Read); }
            return Ok(EnvelopeStatus::Read);
        }
        if chars_eq(low.as_slice(), "failed") {
            proof { lemma_envelope_status_parse_unique(s@, EnvelopeStatus::Failed); }
            return Ok(EnvelopeStatus::Failed);
        }
        if chars_eq(low.as_slice(), "expired") {
            proof { lemma_envelope_status_parse_unique(s@, EnvelopeStatus::Expired); }
            return Ok(EnvelopeStatus::Expired);
        }
        if chars_eq(low.as_slice(), "cancelled") {
            proof { lemma_envelope_status_parse_unique(s@, EnvelopeStatus::Cancelled); }
            return Ok(EnvelopeStatus::Cancelled);
        }
        let mut e = "unknown envelope status: ".to_owned();
        let rest = string_of(low.as_slice());
        push_str(&mut e, rest.as_str());
        proof {
            assert forall|v: EnvelopeStatus| #[trigger] v.spec_name() != lower(s@) by {
                match v {
                    EnvelopeStatus::Queued => {},
                    EnvelopeStatus::Delivered => {},
                    EnvelopeStatus::Read => {},
                    EnvelopeStatus::Failed => {},
                    EnvelopeStatus::Expired => {},
                    EnvelopeStatus::Cancelled => {},
                }
            }
        }
        Err(e)
    }

    /// Terminal states are excluded from `list_pending` and most queue work.
    /// `Read` counts as terminal because once read, the envelope is consumed
    /// from the inbox-delivery perspective even though the record persists.
    pub fn is_terminal(self) -> (r: bool)
        ensures
            r == (self is Read || self is Failed || self is Expired || self is Cancelled),
    {
        matches!(
            self,
            EnvelopeStatus::Read | EnvelopeStatus::Failed | EnvelopeStatus::Expired
                | EnvelopeStatus::Cancelled
        )
    }

}

impl std::str::FromStr for EnvelopeStatus {
    type Err = String;

    fn from_str(s: &str) -> Result<EnvelopeStatus, String> {
        EnvelopeStatus::parse_name(s)
    }
}

/// A value whose name matches `s` is the value that `s` names.
pub proof fn lemma_envelope_status_parse_unique(s: Seq<char>, v: EnvelopeStatus)
    requires
        v.spec_name() == lower(s),
    ensures
        EnvelopeStatus::spec_parse(s) == Some(v),
{
    lemma_envelope_status_name_roundtrip(v);
    let c = choose|c: EnvelopeStatus| #[trigger] c.spec_name() == lower(s);
    assert(c.spec_name() == v.spec_name());
}

/// Every EnvelopeStatus name is already lowercase and names no other value, so
/// parsing the name of a value gives that value back.
pub proof fn lemma_envelope_status_name_roundtrip(t: EnvelopeStatus)
    ensures
        lower(t.spec_name()) == t.spec_name(),
        forall|u: EnvelopeStatus| #[trigger] u.spec_name() == t.spec_name() ==> u == t,
        EnvelopeStatus::spec_parse(t.spec_name()) == Some(t),
{
    reveal_strlit("queued");
    reveal_strlit("delivered");
    reveal_strlit("read");
    reveal_strlit("failed");
    reveal_strlit("expired");
    reveal_strlit("cancelled");
    assert(lower(t.spec_name()) =~= t.spec_name());
    assert forall|u: EnvelopeStatus| #[trigger] u.spec_name() == t.spec_name() implies u == t by {
        if u != t {
            match (u, t) {
                (EnvelopeStatus::Queued, EnvelopeStatus::Delivered) => assert(u.spec_name().len() != t.spec_name().len()),
                (EnvelopeStatus::Queued, EnvelopeStatus::Read) => assert(u.spec_name().len() != t.spec_name().len()),
                (EnvelopeStatus::Queued, EnvelopeStatus::Failed) => assert(u.spec_name()[0] != t.spec_name()[0]),
                (EnvelopeStatus::Queued, EnvelopeStatus::Expired) => assert(u.spec_name().len() != t.spec_name().len()),
                (EnvelopeStatus::Queued, EnvelopeStatus::Cancelled) => assert(u.spec_name().len() != t.spec_name().len()),
                (EnvelopeStatus::Delivered, EnvelopeStatus::Queued) => assert(u.spec_name().len() != t.spec_name().len()),
                (EnvelopeStatus::Delivered, EnvelopeStatus::Read) => assert(u.spec_name().len() != t.spec_name().len()),
                (EnvelopeStatus::Delivered, EnvelopeStatus::Failed) => assert(u.spec_name().len() != t.spec_name().len()),
                (EnvelopeStatus::Delivered, EnvelopeStatus::Expired) => assert(u.spec_name().len() != t.spec_name().len()),
                (EnvelopeStatus::Delivered, EnvelopeStatus::Cancelled) => assert(u.spec_name()[0] != t.spec_name()[0]),
                (EnvelopeStatus::Read, EnvelopeStatus::Queued) => assert(u.spec_name().len() != t.spec_name().len()),
                (EnvelopeStatus::Read, EnvelopeStatus::Delivered) => assert(u.spec_name().len() != t.spec_name().len()),
                (EnvelopeStatus::Read, EnvelopeStatus::Failed) => assert(u.spec_name().len() != t.spec_name().len()),
                (EnvelopeStatus::Read, EnvelopeStatus::Expired) => assert(u.spec_name().len() != t.spec_name().len()),
                (EnvelopeStatus::Read, EnvelopeStatus::Cancelled) => assert(u.spec_name().len() != t.spec_name().len()),
                (EnvelopeStatus::Failed, EnvelopeStatus::Queued) => assert(u.spec_name()[0] != t.spec_name()[0]),
                (EnvelopeStatus::Failed, EnvelopeStatus::Delivered) => assert(u.spec_name().len() != t.spec_name().len()),
                (EnvelopeStatus::Failed, EnvelopeStatus::Read) => assert(u.spec_name().len() != t.spec_name().len()),
                (EnvelopeStatus::Failed, EnvelopeStatus::Expired) => assert(u.spec_name().len() != t.spec_name().len()),
                (EnvelopeStatus::Failed, EnvelopeStatus::Cancelled) => assert(u.spec_name().len() != t.spec_name().len()),
                (EnvelopeStatus::Expired, EnvelopeStatus::Queued) => assert(u.spec_name().len() != t.spec_name().len()),
                (EnvelopeStatus::Expired, EnvelopeStatus::Delivered) => assert(u.spec_name().len() != t.spec_name().len()),
                (EnvelopeStatus::Expired, EnvelopeStatus::Read) => assert(u.spec_name().len() != t.spec_name().len()),
                (EnvelopeStatus::Expired, EnvelopeStatus::Failed) => assert(u.spec_name().len() != t.spec_name().len()),
                (EnvelopeStatus::Expired, EnvelopeStatus::Cancelled) => assert(u.spec_name().len() != t.spec_name().len()),
                (EnvelopeStatus::Cancelled, EnvelopeStatus::Queued) => assert(u.spec_name().len() != t.spec_name().len()),
                (EnvelopeStatus::Cancelled, EnvelopeStatus::Delivered) => assert(u.spec_name()[0] != t.spec_name()[0]),
                (EnvelopeStatus::Cancelled, EnvelopeStatus::Read) => assert(u.spec_name().len() != t.spec_name().len()),
                (EnvelopeStatus::Cancelled, EnvelopeStatus::Failed) => assert(u.spec_name().len() != t.spec_name().len()),
                (EnvelopeStatus::Cancelled, EnvelopeStatus::Expired) => assert(u.spec_name().len() != t.spec_name().len()),
                _ => {},
            }
        }
    }
    let c = choose|c: EnvelopeStatus| #[trigger] c.spec_name() == lower(t.spec_name());
    assert(c.spec_name() == t.spec_name());
}

/// Delivery priority of an envelope.
#[derive(Debug, Clone, Copy, PartialEq, Eq, Hash, Structural)]
pub enum EnvelopePriority {
    Low,
    Normal,
    High,
    Urgent,
}

impl EnvelopePriority {
    /// The snake_case name of the value, as `to_string` writes it.
    pub open spec fn spec_name(self) -> Seq<char> {
        match self {
            EnvelopePriority::Low => "low"@,
            EnvelopePriority::Normal => "normal"@,
            EnvelopePriority::High => "high"@,
            EnvelopePriority::Urgent => "urgent"@,
        }
    }

    /// The value named by `s`, ignoring ASCII case.
    pub open spec fn spec_parse(s: Seq<char>) -> Option<EnvelopePriority> {
        if exists|v: EnvelopePriority| #[trigger] v.spec_name() == lower(s) {
            Some(choose|v: EnvelopePriority| #[trigger] v.spec_name() == lower(s))
        } else {
            None
        }
    }

    /// The snake_case name of the value.
    pub fn name(&self) -> (r: &'static str)
        ensures
            r@ == self.spec_name(),
    {
        match self {
            EnvelopePriority::Low => "low",
            EnvelopePriority::Normal => "normal",
            EnvelopePriority::High => "high",
            EnvelopePriority::Urgent => "urgent",
        }
    }

    /// The snake_case name of the value as an owned `String`.
    pub fn to_string(&self) -> (r: String)
        ensures
            r@ == self.spec_name(),
    {
        self.name().to_owned()
    }

    /// Parses a name, ignoring ASCII case; unknown names are refused with
    /// the message `unknown envelope priority: <lowercased input>`.
    pub fn parse_name(s: &str) -> (r: Result<EnvelopePriority, String>)
        ensures
            match r {
                Ok(v) => v.spec_name() == lower(s@) && EnvelopePriority::spec_parse(s@) == Some(v),
                Err(e) => (forall|v: EnvelopePriority| #[trigger] v.spec_name() != lower(s@)) && EnvelopePriority::spec_parse(s@) is None && e@ == "unknown envelope priority: "@ + lower(s@),
            },
    {
        let low = lower_chars(s);
        if chars_eq(low.as_slice(), "low") {
            proof { lemma_envelope_priority_parse_unique(s@, EnvelopePriority::Low); }
            return Ok(EnvelopePriority::Low);
        }
        if chars_eq(low.as_slice(), "normal") {
            proof { lemma_envelope_priority_parse_unique(s@, EnvelopePriority::Normal); }
            return Ok(EnvelopePriority::Normal);
        }
        if chars_eq(low.as_slice(), "high") {
            proof { lemma_envelope_priority_parse_unique(s@, EnvelopePriority::High); }
            return Ok(EnvelopePriority::High);
        }
        if chars_eq(low.as_slice(), "urgent") {
            proof { lemma_envelope_priority_parse_unique(s@, EnvelopePriority::Urgent); }
            return Ok(EnvelopePriority::Urgent);
        }
        let mut e = "unknown envelope priority: ".to_owned();
        let rest = string_of(low.as_slice());
        push_str(&mut e, rest.as_str());
        proof {
            assert forall|v: EnvelopePriority| #[trigger] v.spec_name() != lower(s@) by {
                match v {
                    EnvelopePriority::Low => {},
                    EnvelopePriority::Normal => {},
                    EnvelopePriority::High => {},
                    EnvelopePriority::Urgent => {},
                }
            }
        }
        Err(e)
    }

}

impl std::str::FromStr for EnvelopePriority {
    type Err = String;

    fn from_str(s: &str) -> Result<EnvelopePriority, String> {
        EnvelopePriority::parse_name(s)
    }
}

/// A value whose name matches `s` is the value that `s` names.
pub proof fn lemma_envelope_priority_parse_unique(s: Seq<char>, v: EnvelopePriority)
    requires
        v.spec_name() == lower(s),
    ensures
        EnvelopePriority::spec_parse(s) == Some(v),
{
    lemma_envelope_priority_name_roundtrip(v);
    let c = choose|c: EnvelopePriority| #[trigger] c.spec_name() == lower(s);
    assert(c.spec_name() == v.spec_name());
}

/// Every EnvelopePriority name is already lowercase and names no other value, so
/// parsing the name of a value gives that value back.
pub proof fn lemma_envelope_priority_name_roundtrip(t: EnvelopePriority)
    ensures
        lower(t.spec_name()) == t.spec_name(),
        forall|u: EnvelopePriority| #[trigger] u.spec_name() == t.spec_name() ==> u == t,
        EnvelopePriority::spec_parse(t.spec_name()) == Some(t),
{
    reveal_strlit("low");
    reveal_strlit("normal");
    reveal_strlit("high");
    reveal_strlit("urgent");
    assert(lower(t.spec_name()) =~= t.spec_name());
    assert forall|u: EnvelopePriority| #[trigger] u.spec_name() == t.spec_name() implies u == t by {
        if u != t {
            match (u, t) {
                (EnvelopePriority::Low, EnvelopePriority::Normal) => assert(u.spec_name().len() != t.spec_name().len()),
                (EnvelopePriority::Low, EnvelopePriority::High) => assert(u.spec_name().len() != t.spec_name().len()),
                (EnvelopePriority::Low, EnvelopePriority::Urgent) => assert(u.spec_name().len() != t.spec_name().len()),
                (EnvelopePriority::Normal, EnvelopePriority::Low) => assert(u.spec_name().len() != t.spec_name().len()),
                (EnvelopePriority::Normal, EnvelopePriority::High) => assert(u.spec_name().len() != t.spec_name().len()),
                (EnvelopePriority::Normal, EnvelopePriority::Urgent) => assert(u.spec_name()[0] != t.spec_name()[0]),
                (EnvelopePriority::High, EnvelopePriority::Low) => assert(u.spec_name().len() != t.spec_name().len()),
                (EnvelopePriority::High, EnvelopePriority::Normal) => assert(u.spec_name().len() != t.spec_name().len()),
                (EnvelopePriority::High, EnvelopePriority::Urgent) => assert(u.spec_name().len() != t.spec_name().len()),
                (EnvelopePriority::Urgent, EnvelopePriority::Low) => assert(u.spec_name().len() != t.spec_name().len()),
                (EnvelopePriority::Urgent, EnvelopePriority::Normal) => assert(u.spec_name()[0] != t.spec_name()[0]),
                (EnvelopePriority::Urgent, EnvelopePriority::High) => assert(u.spec_name().len() != t.spec_name().len()),
                _ => {},
            }
        }
    }
    let c = choose|c: EnvelopePriority| #[trigger] c.spec_name() == lower(t.spec_name());
    assert(c.spec_name() == t.spec_name());
}

/// Purpose of an envelope.
#[derive(Debug, Clone, Copy, PartialEq, Eq, Hash, Structural)]
pub enum EnvelopeKind {
    Message,
    Request,
    Response,
    Notice,
    Control,
}

impl EnvelopeKind {
    /// The snake_case name of the value, as `to_string` writes it.
    pub open spec fn spec_name(self) -> Seq<char> {
        match self {
            EnvelopeKind::Message => "message"@,
            EnvelopeKind::Request => "request"@,
            EnvelopeKind::Response => "response"@,
            EnvelopeKind::Notice => "notice"@,
            EnvelopeKind::Control => "control"@,
        }
    }

    /// The value named by `s`, ignoring ASCII case.
    pub open spec fn spec_parse(s: Seq<char>) -> Option<EnvelopeKind> {
        if exists|v: EnvelopeKind| #[trigger] v.spec_name() == lower(s) {
            Some(choose|v: EnvelopeKind| #[trigger] v.spec_name() == lower(s))
        } else {
            None
        }
    }

    /// The snake_case name of the value.
    pub fn name(&self) -> (r: &'static str)
        ensures
            r@ == self.spec_name(),
    {
        match self {
            EnvelopeKind::Message => "message",
            EnvelopeKind::Request => "request",
            EnvelopeKind::Response => "response",
            EnvelopeKind::Notice => "notice",
            EnvelopeKind::Control => "control",
        }
    }

    /// The snake_case name of the value as an owned `String`.
    pub fn to_string(&self) -> (r: String)
        ensures
            r@ == self.spec_name(),
    {
        self.name().to_owned()
    }

    /// Parses a name, ignoring ASCII case; unknown names are refused with
    /// the message `unknown envelope kind: <lowercased input>`.
    pub fn parse_name(s: &str) -> (r: Result<EnvelopeKind, String>)
        ensures
            match r {
                Ok(v) => v.spec_name() == lower(s@) && EnvelopeKind::spec_parse(s@) == Some(v),
                Err(e) => (forall|v: EnvelopeKind| #[trigger] v.spec_name() != lower(s@)) && EnvelopeKind::spec_parse(s@) is None && e@ == "unknown envelope kind: "@ + lower(s@),
            },
    {
        let low = lower_chars(s);
        if chars_eq(low.as_slice(), "message") {
            proof { lemma_envelope_kind_parse_unique(s@, EnvelopeKind::Message); }
            return Ok(EnvelopeKind::Message);
        }
        if chars_eq(low.as_slice(), "request") {
            proof { lemma_envelope_kind_parse_unique(s@, EnvelopeKind::Request); }
            return Ok(EnvelopeKind::Request);
        }
        if chars_eq(low.as_slice(), "response") {
            proof { lemma_envelope_kind_parse_unique(s@, EnvelopeKind::Response); }
            return Ok(EnvelopeKind::Response);
        }
        if chars_eq(low.as_slice(), "notice") {
            proof { lemma_envelope_kind_parse_unique(s@, EnvelopeKind::Notice); }
            return Ok(EnvelopeKind::Notice);
        }
        if chars_eq(low.as_slice(), "control") {
            proof { lemma_envelope_kind_parse_unique(s@, EnvelopeKind::Control); }
            return Ok(EnvelopeKind::Control);
        }
        let mut e = "unknown envelope kind: ".to_owned();
        let rest = string_of(low.as_slice());
        push_str(&mut e, rest.as_str());
        proof {
            assert forall|v: EnvelopeKind| #[trigger] v.spec_name() != lower(s@) by {
                match v {
                    EnvelopeKind::Message => {},
                    EnvelopeKind::Request => {},
                    EnvelopeKind::Response => {},
                    EnvelopeKind::Notice => {},
                    EnvelopeKind::Control => {},
                }
            }
        }
        Err(e)
    }

}

impl std::str::FromStr for EnvelopeKind {
    type Err = String;

    fn from_str(s: &str) -> Result<EnvelopeKind, String> {
        EnvelopeKind::parse_name(s)
    }
}

/// A value whose name matches `s` is the value that `s` names.
pub proof fn lemma_envelope_kind_parse_unique(s: Seq<char>, v: EnvelopeKind)
    requires
        v.spec_name() == lower(s),
    ensures
        EnvelopeKind::spec_parse(s) == Some(v),
{
    lemma_envelope_kind_name_roundtrip(v);
    let c = choose|c: EnvelopeKind| #[trigger] c.spec_name() == lower(s);
    assert(c.spec_name() == v.spec_name());
}

/// Every EnvelopeKind name is already lowercase and names no other value, so
/// parsing the name of a value gives that value back.
pub proof fn lemma_envelope_kind_name_roundtrip(t: EnvelopeKind)
    ensures
        lower(t.spec_name()) == t.spec_name(),
        forall|u: EnvelopeKind| #[trigger] u.spec_name() == t.spec_name() ==> u == t,
        EnvelopeKind::spec_parse(t.spec_name()) == Some(t),
{
    reveal_strlit("message");
    reveal_strlit("request");
    reveal_strlit("response");
    reveal_strlit("notice");
    reveal_strlit("control");
    assert(lower(t.spec_name()) =~= t.spec_name());
    assert forall|u: EnvelopeKind| #[trigger] u.spec_name() == t.spec_name() implies u == t by {
        if u != t {
            match (u, t) {
                (EnvelopeKind::Message, EnvelopeKind::Request) => assert(u.spec_name()[0] != t.spec_name()[0]),
                (EnvelopeKind::Message, EnvelopeKind::Response) => assert(u.spec_name().len() != t.spec_name().len()),
                (EnvelopeKind::Message, EnvelopeKind::Notice) => assert(u.spec_name().len() != t.spec_name().len()),
                (EnvelopeKind::Message, EnvelopeKind::Control) => assert(u.spec_name()[0] != t.spec_name()[0]),
                (EnvelopeKind::Request, EnvelopeKind::Message) => assert(u.spec_name()[0] != t.spec_name()[0]),
                (EnvelopeKind::Request, EnvelopeKind::Response) => assert(u.spec_name().len() != t.spec_name().len()),
                (EnvelopeKind::Request, EnvelopeKind::Notice) => assert(u.spec_name().len() != t.spec_name().len()),
                (EnvelopeKind::Request, EnvelopeKind::Control) => assert(u.spec_name()[0] != t.spec_name()[0]),
                (EnvelopeKind::Response, EnvelopeKind::Message) => assert(u.spec_name().len() != t.spec_name().len()),
                (EnvelopeKind::Response, EnvelopeKind::Request) => assert(u.spec_name().len() != t.spec_name().len()),
                (EnvelopeKind::Response, EnvelopeKind::Notice) => assert(u.spec_name().len() != t.spec_name().len()),
                (EnvelopeKind::Response, EnvelopeKind::Control) => assert(u.spec_name().len() != t.spec_name().len()),
                (EnvelopeKind::Notice, EnvelopeKind::Message) => assert(u.spec_name().len() != t.spec_name().len()),
                (EnvelopeKind::Notice, EnvelopeKind::Request) => assert(u.spec_name().len() != t.spec_name().len()),
                (EnvelopeKind::Notice, EnvelopeKind::Response) => assert(u.spec_name().len() != t.spec_name().len()),
                (EnvelopeKind::Notice, EnvelopeKind::Control) => assert(u.spec_name().len() != t.spec_name().len()),
                (EnvelopeKind::Control, EnvelopeKind::Message) => assert(u.spec_name()[0] != t.spec_name()[0]),
                (EnvelopeKind::Control, EnvelopeKind::Request) => assert(u.spec_name()[0] != t.spec_name()[0]),
                (EnvelopeKind::Control, EnvelopeKind::Response) => assert(u.spec_name().len() != t.spec_name().len()),
                (EnvelopeKind::Control, EnvelopeKind::Notice) => assert(u.spec_name().len() != t.spec_name().len()),
                _ => {},
            }
        }
    }
    let c = choose|c: EnvelopeKind| #[trigger] c.spec_name() == lower(t.spec_name());
    assert(c.spec_name() == t.spec_name());
}
} // verus!
