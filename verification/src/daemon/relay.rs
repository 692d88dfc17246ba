//! The channel relay: the one-line message a warning or error observation
//! from the daemon's stream becomes, and how often one is pushed.
use vstd::prelude::*;

use crate::json::{json_str_at, spec_json_lookup, strs_view};
use crate::text::push_str;

verus! {

/// The string at `path` of the JSON text, or `default` when there is none
/// there.
pub open spec fn text_at(json: Seq<char>, path: Seq<Seq<char>>, default: Seq<char>) -> Seq<char> {
    match spec_json_lookup(json, path) {
        Some(Some(s)) => s,
        _ => default,
    }
}

/// The string at `path`, if there is one.
pub open spec fn found_at(json: Seq<char>, path: Seq<Seq<char>>) -> Option<Seq<char>> {
    match spec_json_lookup(json, path) {
        Some(Some(s)) => Some(s),
        _ => None,
    }
}

/// Where an observation came from: `app:<name>`, `browser:<tab>`, or
/// `unknown`.
pub open spec fn relay_origin(json: Seq<char>) -> Seq<char> {
    match found_at(json, seq!["origin"@, "name"@]) {
        Some(n) => "app:"@ + n,
        None => match found_at(json, seq!["origin"@, "tab_id"@]) {
            Some(t) => "browser:"@ + t,
            None => "unknown"@,
        },
    }
}

/// The message of an observation: the kind's message, else the payload's
/// `message`, else its `msg`, else `(no message)`.
pub open spec fn relay_text(json: Seq<char>) -> Seq<char> {
    match found_at(json, seq!["kind"@, "message"@]) {
        Some(m) => m,
        None => match found_at(json, seq!["data"@, "message"@]) {
            Some(m) => m,
            None => text_at(json, seq!["data"@, "msg"@], "(no message)"@),
        },
    }
}

/// A relayed observation: the line pushed and its metadata.
#[derive(Debug, Clone)]
pub struct RelayMessage {
    pub content: String,
    pub severity: String,
    pub kind: String,
    pub origin: String,
}

fn lookup(json: &str, path: &[&str]) -> (r: Option<String>)
    ensures
        match r {
            Some(s) => found_at(json@, strs_view(path@)) == Some(s@),
            None => found_at(json@, strs_view(path@)) is None,
        },
{
    match json_str_at(json, path) {
        Some(Some(s)) => Some(s),
        _ => None,
    }
}

/// The message a streamed observation (its JSON text) is relayed as:
/// `[<severity>] <kind> from <origin>: <message>`, with severity `info` and
/// kind `log` when absent; none when the text is not JSON.
pub fn relay_message(obs_json: &str) -> (r: Option<RelayMessage>)
    ensures
        spec_json_lookup(obs_json@, seq!["severity"@]) is None ==> r is None,
        spec_json_lookup(obs_json@, seq!["severity"@]) is Some ==> (r matches Some(m) && {
            let sev = text_at(obs_json@, seq!["severity"@], "info"@);
            let kind = text_at(obs_json@, seq!["kind"@, "type"@], "log"@);
            &&& m.severity@ == sev
            &&& m.kind@ == kind
            &&& m.origin@ == relay_origin(obs_json@)
            &&& m.content@ == "["@ + sev + "] "@ + kind + " from "@ + relay_origin(obs_json@)
                + ": "@ + relay_text(obs_json@)
        }),
{
    let p_sev: [&str; 1] = ["severity"];
    assert(strs_view(p_sev@) =~= seq!["severity"@]);
    let severity = match json_str_at(obs_json, &p_sev) {
        None => {
            return None;
        },
        Some(Some(s)) => s,
        Some(None) => "info".to_owned(),
    };
    let p_kind: [&str; 2] = ["kind", "type"];
    assert(strs_view(p_kind@) =~= seq!["kind"@, "type"@]);
    let kind = match lookup(obs_json, &p_kind) {
        Some(k) => k,
        None => "log".to_owned(),
    };
    let p_name: [&str; 2] = ["origin", "name"];
    assert(strs_view(p_name@) =~= seq!["origin"@, "name"@]);
    let p_tab: [&str; 2] = ["origin", "tab_id"];
    assert(strs_view(p_tab@) =~= seq!["origin"@, "tab_id"@]);
    let origin = match lookup(obs_json, &p_name) {
        Some(n) => {
            let mut o = "app:".to_owned();
            push_str(&mut o, n.as_str());
            o
        },
        None => match lookup(obs_json, &p_tab) {
            Some(t) => {
                let mut o = "browser:".to_owned();
                push_str(&mut o, t.as_str());
                o
            },
            None => "unknown".to_owned(),
        },
    };
    let p_km: [&str; 2] = ["kind", "message"];
    assert(strs_view(p_km@) =~= seq!["kind"@, "message"@]);
    let p_dm: [&str; 2] = ["data", "message"];
    assert(strs_view(p_dm@) =~= seq!["data"@, "message"@]);
    let p_ds: [&str; 2] = ["data", "msg"];
    assert(strs_view(p_ds@) =~= seq!["data"@, "msg"@]);
    let msg = match lookup(obs_json, &p_km) {
        Some(m) => m,
        None => match lookup(obs_json, &p_dm) {
            Some(m) => m,
            None => match lookup(obs_json, &p_ds) {
                Some(m) => m,
                None => "(no message)".to_owned(),
            },
        },
    };
    let mut content = "[".to_owned();
    push_str(&mut content, severity.as_str());
    push_str(&mut content, "] ");
    push_str(&mut content, kind.as_str());
    push_str(&mut content, " from ");
    push_str(&mut content, origin.as_str());
    push_str(&mut content, ": ");
    push_str(&mut content, msg.as_str());
    Some(RelayMessage { content, severity, kind, origin })
}

/// At most one message a second is pushed: a message is due once a full
/// second has passed since the last push.
pub fn relay_due(seconds_since_last_push: u64) -> (r: bool)
    ensures
        r == (seconds_since_last_push >= 1),
{
    seconds_since_last_push >= 1
}

/// The stream the relay follows: warnings and errors only.
pub fn relay_stream_url(port: u16) -> (r: String)
    ensures
        r@ == "http://localhost:"@ + crate::text::decimal(port as nat)
            + "/api/stream?severity_min=warn"@,
{
    let mut s = "http://localhost:".to_owned();
    crate::text::push_decimal(&mut s, port as u64);
    push_str(&mut s, "/api/stream?severity_min=warn");
    s
}

} // verus!
