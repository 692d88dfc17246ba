//! Formatting and request building for the command-line client.
use vstd::prelude::*;

use super::types::Severity;
use crate::text::{chars_of, decimal, digit_char, push_char, push_decimal, push_str, string_of};
use vstd::string::StringSliceAdditionalSpecFns;
use vstd::utf8::encode_utf8;
use crate::types::observation::Origin;

verus! {

/// Client connection options.
#[derive(Debug, Clone)]
pub struct ClientArgs {
    pub port: Option<u16>,
    pub json: bool,
}

/// Port used when neither the command line nor the configuration names one.
pub const DEFAULT_PORT: u16 = 9077;

impl ClientArgs {
    /// The port to talk to: the one given on the command line, else the
    /// configured one, else 9077.
    pub fn resolved_port(&self, configured: Option<u16>) -> (r: u16)
        ensures
            r == match self.port {
                Some(p) => p,
                None => match configured {
                    Some(c) => c,
                    None => 9077,
                },
            },
    {
        match self.port {
            Some(p) => p,
            None => match configured {
                Some(c) => c,
                None => DEFAULT_PORT,
            },
        }
    }
}

/// Options of `daemon8 tail`.
#[derive(Debug, Clone)]
pub struct TailArgs {
    pub client: ClientArgs,
    pub kind: Option<String>,
    pub severity: Option<String>,
    pub origin: Option<String>,
    pub no_color: bool,
}

/// Options of `daemon8 query`.
#[derive(Debug, Clone)]
pub struct QueryArgs {
    pub client: ClientArgs,
    pub kind: Option<String>,
    pub severity: Option<String>,
    pub origin: Option<String>,
    pub text: Option<String>,
    pub since: Option<u64>,
    pub limit: usize,
}

/// `http://localhost:<port>`.
pub open spec fn spec_base_url(port: u16) -> Seq<char> {
    "http://localhost:"@ + decimal(port as nat)
}

/// Base URL of the local daemon.
pub fn base_url(port: u16) -> (r: String)
    ensures
        r@ == spec_base_url(port),
{
    let mut s = "http://localhost:".to_owned();
    push_decimal(&mut s, port as u64);
    s
}

/// Two-digit, zero-padded decimal of `n < 100`.
pub open spec fn pad2(n: nat) -> Seq<char> {
    if n < 10 {
        seq!['0'] + decimal(n)
    } else {
        decimal(n)
    }
}

/// `HH:MM:SS` (UTC) of an epoch time in nanoseconds.
pub open spec fn clock_text(ns: nat) -> Seq<char> {
    let t = (ns / 1_000_000_000) % 86400;
    pad2(t / 3600) + seq![':'] + pad2((t % 3600) / 60) + seq![':'] + pad2(t % 60)
}

fn push_pad2(s: &mut String, n: u64)
    requires
        n < 100,
    ensures
        final(s)@ == old(s)@ + pad2(n as nat),
{
    if n < 10 {
        push_char(s, '0');
    }
    push_decimal(s, n);
    proof {
        assert(final(s)@ =~= old(s)@ + pad2(n as nat));
    }
}

/// Converts epoch nanoseconds to `HH:MM:SS` (UTC).
pub fn format_timestamp(timestamp_ns: u64) -> (r: String)
    ensures
        r@ == clock_text(timestamp_ns as nat),
{
    let secs = timestamp_ns / 1_000_000_000;
    let time_of_day = secs % 86400;
    let hours = time_of_day / 3600;
    let minutes = (time_of_day % 3600) / 60;
    let seconds = time_of_day % 60;
    let mut s = String::new();
    push_pad2(&mut s, hours);
    push_char(&mut s, ':');
    push_pad2(&mut s, minutes);
    push_char(&mut s, ':');
    push_pad2(&mut s, seconds);
    proof {
        assert(s@ =~= clock_text(timestamp_ns as nat));
    }
    s
}

/// `s` itself when it has at most `max` characters, else its first
/// `max - 3` characters (none when `max < 3`) followed by `...`.
pub open spec fn truncated(s: Seq<char>, max: nat) -> Seq<char> {
    if s.len() <= max {
        s
    } else {
        s.take(if max >= 3 {
            max - 3
        } else {
            0
        }) + seq!['.', '.', '.']
    }
}

/// Truncates a string to `max` characters, marking the cut with `...`.
pub fn truncate(s: &str, max: usize) -> (r: String)
    ensures
        r@ == truncated(s@, max as nat),
{
    let v = chars_of(s);
    if v.len() <= max {
        return string_of(v.as_slice());
    }
    let keep = max.saturating_sub(3);
    let mut out = String::new();
    let mut i: usize = 0;
    while i < keep
        invariant
            i <= keep,
            keep < v@.len(),
            out@ == v@.take(i as int),
        decreases keep - i,
    {
        push_char(&mut out, v[i]);
        proof {
            assert(v@.take(i + 1) =~= v@.take(i as int).push(v@[i as int]));
        }
        i += 1;
    }
    push_str(&mut out, "...");
    proof {
        reveal_strlit("...");
        assert(out@ =~= truncated(s@, max as nat));
    }
    out
}

/// Bytes that percent-encoding leaves as they are.
pub open spec fn unreserved(b: u8) -> bool {
    (65 <= b <= 90) || (97 <= b <= 122) || (48 <= b <= 57) || b == 45 || b == 95 || b == 46
        || b == 126 || b == 44
}

/// Uppercase hexadecimal digit of `d < 16`.
pub open spec fn hex_upper(d: nat) -> char {
    if d < 10 {
        digit_char(d)
    } else {
        ((d + 55) as u32) as char
    }
}

/// Percent-encoding of one byte.
pub open spec fn url_byte(b: u8) -> Seq<char> {
    if unreserved(b) {
        seq![(b as u32) as char]
    } else {
        seq!['%', hex_upper((b / 16) as nat), hex_upper((b % 16) as nat)]
    }
}

/// Percent-encoding of a byte string.
pub open spec fn url_bytes(bs: Seq<u8>) -> Seq<char>
    decreases bs.len(),
{
    if bs.len() == 0 {
        seq![]
    } else {
        url_bytes(bs.drop_last()) + url_byte(bs.last())
    }
}

fn hex_digit(d: u8) -> (r: char)
    requires
        d < 16,
    ensures
        r == hex_upper(d as nat),
{
    if d < 10 {
        (d + 48) as char
    } else {
        (d + 55) as char
    }
}

/// Percent-encodes a query parameter value, byte by byte over its UTF-8
/// encoding.
pub fn urlenc(s: &str) -> (r: String)
    ensures
        r@ == url_bytes(s.spec_bytes()),
{
    let bytes = s.as_bytes();
    let mut out = String::new();
    let mut i: usize = 0;
    while i < bytes.len()
        invariant
            i <= bytes@.len(),
            bytes@ == s.spec_bytes(),
            out@ == url_bytes(bytes@.take(i as int)),
        decreases bytes@.len() - i,
    {
        let b = bytes[i];
        proof {
            assert(bytes@.take(i + 1).drop_last() =~= bytes@.take(i as int));
        }
        if (65 <= b && b <= 90) || (97 <= b && b <= 122) || (48 <= b && b <= 57) || b == 45 || b
            == 95 || b == 46 || b == 126 || b == 44 {
            push_char(&mut out, b as char);
        } else {
            push_char(&mut out, '%');
            push_char(&mut out, hex_digit(b / 16));
            push_char(&mut out, hex_digit(b % 16));
        }
        proof {
            assert(out@ =~= url_bytes(bytes@.take(i + 1)));
        }
        i += 1;
    }
    proof {
        assert(bytes@.take(bytes@.len() as int) =~= bytes@);
    }
    out
}

/// Three-digit, zero-padded decimal of `n < 1000`.
pub open spec fn pad3(n: nat) -> Seq<char> {
    if n < 10 {
        seq!['0', '0'] + decimal(n)
    } else if n < 100 {
        seq!['0'] + decimal(n)
    } else {
        decimal(n)
    }
}

/// Decimal representation with `,` between groups of three digits.
pub open spec fn grouped(n: nat) -> Seq<char>
    decreases n,
{
    if n < 1000 {
        decimal(n)
    } else {
        grouped(n / 1000) + seq![','] + pad3(n % 1000)
    }
}

fn push_grouped(s: &mut String, n: u64)
    ensures
        final(s)@ == old(s)@ + grouped(n as nat),
    decreases n,
{
    if n < 1000 {
        push_decimal(s, n);
        return ;
    }
    push_grouped(s, n / 1000);
    push_char(s, ',');
    let r = n % 1000;
    if r < 10 {
        push_char(s, '0');
        push_char(s, '0');
    } else if r < 100 {
        push_char(s, '0');
    }
    push_decimal(s, r);
    proof {
        assert(final(s)@ =~= old(s)@ + grouped(n as nat));
    }
}

/// Formats a number with thousand separators.
pub fn format_number(n: u64) -> (r: String)
    ensures
        r@ == grouped(n as nat),
{
    let mut s = String::new();
    push_grouped(&mut s, n);
    proof {
        assert(s@ =~= grouped(n as nat));
    }
    s
}

/// Compact `type:name` form of an origin: `app:<name>`, `browser:<url>` or
/// `device:<serial>`.
pub open spec fn origin_label(o: Origin) -> Seq<char> {
    match o {
        Origin::Application { name } => "app:"@ + name@,
        Origin::Browser { url, .. } => "browser:"@ + url@,
        Origin::Device { serial, .. } => "device:"@ + serial@,
    }
}

/// Formats an origin into a compact `type:name` string.
pub fn format_origin(o: &Origin) -> (r: String)
    ensures
        r@ == origin_label(*o),
{
    match o {
        Origin::Application { name } => {
            let mut s = "app:".to_owned();
            push_str(&mut s, name.as_str());
            s
        },
        Origin::Browser { url, .. } => {
            let mut s = "browser:".to_owned();
            push_str(&mut s, url.as_str());
            s
        },
        Origin::Device { serial, .. } => {
            let mut s = "device:".to_owned();
            push_str(&mut s, serial.as_str());
            s
        },
    }
}

/// Percent-encoding of the UTF-8 encoding of a character sequence.
pub open spec fn url_text(s: Seq<char>) -> Seq<char> {
    url_bytes(encode_utf8(s))
}

/// Parameters joined with `&`.
pub open spec fn join_amp(parts: Seq<Seq<char>>) -> Seq<char>
    decreases parts.len(),
{
    if parts.len() == 0 {
        seq![]
    } else if parts.len() == 1 {
        parts[0]
    } else {
        join_amp(parts.drop_last()) + seq!['&'] + parts.last()
    }
}

/// `name=<percent-encoded value>` when a value is given.
pub open spec fn opt_param(name: Seq<char>, v: Option<String>) -> Seq<Seq<char>> {
    match v {
        Some(x) => seq![name + url_text(x@)],
        None => seq![],
    }
}

/// Parameters of the `/api/observe` request of `daemon8 query`, in order:
/// kinds, severity_min, origins, text_match, since, then limit.
pub open spec fn query_params(args: QueryArgs) -> Seq<Seq<char>> {
    opt_param("kinds="@, args.kind) + opt_param("severity_min="@, args.severity) + opt_param(
        "origins="@,
        args.origin,
    ) + opt_param("text_match="@, args.text) + (match args.since {
        Some(n) => seq!["since="@ + decimal(n as nat)],
        None => seq![],
    }) + seq!["limit="@ + decimal(args.limit as nat)]
}

/// Parameters of the `/api/stream` request of `daemon8 tail`: kinds when
/// given, and severity_min when it names a severity.
pub open spec fn tail_params(args: TailArgs) -> Seq<Seq<char>> {
    opt_param("kinds="@, args.kind) + match args.severity {
        Some(s) => if Severity::spec_parse(s@) is Some {
            seq!["severity_min="@ + url_text(s@)]
        } else {
            seq![]
        },
        None => seq![],
    }
}

proof fn lemma_join_amp_push(parts: Seq<Seq<char>>, p: Seq<char>)
    ensures
        join_amp(parts.push(p)) == if parts.len() == 0 {
            p
        } else {
            join_amp(parts) + seq!['&'] + p
        },
{
    assert(parts.push(p).drop_last() =~= parts);
}

fn push_param(
    out: &mut String,
    Ghost(ps): Ghost<Seq<Seq<char>>>,
    first: bool,
    name: &str,
    value: &str,
)
    requires
        old(out)@ == join_amp(ps),
        first == (ps.len() == 0),
    ensures
        final(out)@ == join_amp(ps.push(name@ + url_text(value@))),
{
    let enc = urlenc(value);
    proof {
        lemma_join_amp_push(ps, name@ + url_text(value@));
    }
    if !first {
        push_char(out, '&');
    }
    push_str(out, name);
    push_str(out, enc.as_str());
    proof {
        assert(final(out)@ =~= join_amp(ps.push(name@ + url_text(value@))));
    }
}

fn push_opt_param(
    out: &mut String,
    Ghost(ps): Ghost<Seq<Seq<char>>>,
    count: usize,
    name: &str,
    value: &Option<String>,
) -> (r: usize)
    requires
        old(out)@ == join_amp(ps),
        count == ps.len(),
        count < 100,
    ensures
        final(out)@ == join_amp(ps + opt_param(name@, *value)),
        r == (ps + opt_param(name@, *value)).len(),
        r <= count + 1,
{
    match value {
        Some(v) => {
            push_param(out, Ghost(ps), count == 0, name, v.as_str());
            proof {
                assert(ps + opt_param(name@, *value) =~= ps.push(name@ + url_text(v@)));
            }
            count + 1
        },
        None => {
            proof {
                assert(ps + opt_param(name@, *value) =~= ps);
            }
            count
        },
    }
}

/// Query string of `daemon8 query` (without the leading `?`).
pub fn query_string(args: &QueryArgs) -> (r: String)
    ensures
        r@ == join_amp(query_params(*args)),
{
    let mut out = String::new();
    let ghost mut ps: Seq<Seq<char>> = seq![];
    let mut n: usize = 0;
    n = push_opt_param(&mut out, Ghost(ps), n, "kinds=", &args.kind);
    proof { ps = ps + opt_param("kinds="@, args.kind); }
    n = push_opt_param(&mut out, Ghost(ps), n, "severity_min=", &args.severity);
    proof { ps = ps + opt_param("severity_min="@, args.severity); }
    n = push_opt_param(&mut out, Ghost(ps), n, "origins=", &args.origin);
    proof { ps = ps + opt_param("origins="@, args.origin); }
    n = push_opt_param(&mut out, Ghost(ps), n, "text_match=", &args.text);
    proof { ps = ps + opt_param("text_match="@, args.text); }
    if let Some(since) = args.since {
        let mut p = "since=".to_owned();
        push_decimal(&mut p, since);
        proof { lemma_join_amp_push(ps, p@); }
        if n > 0 {
            push_char(&mut out, '&');
        }
        push_str(&mut out, p.as_str());
        proof {
            assert(out@ =~= join_amp(ps.push(p@)));
            ps = ps.push(p@);
        }
        n = n + 1;
    }
    let mut lp = "limit=".to_owned();
    push_decimal(&mut lp, args.limit as u64);
    proof { lemma_join_amp_push(ps, lp@); }
    if n > 0 {
        push_char(&mut out, '&');
    }
    push_str(&mut out, lp.as_str());
    proof {
        assert(out@ =~= join_amp(ps.push(lp@)));
        ps = ps.push(lp@);
        assert(ps =~= query_params(*args));
    }
    out
}

/// URL of the `/api/observe` request of `daemon8 query`.
pub fn query_url(args: &QueryArgs, port: u16) -> (r: String)
    ensures
        r@ == spec_base_url(port) + "/api/observe?"@ + join_amp(query_params(*args)),
{
    let mut url = base_url(port);
    push_str(&mut url, "/api/observe?");
    let q = query_string(args);
    push_str(&mut url, q.as_str());
    url
}

/// Query part of the `/api/stream` request of `daemon8 tail`: empty when
/// there are no parameters, else `?` and the parameters.
pub open spec fn tail_query(args: TailArgs) -> Seq<char> {
    if tail_params(args).len() == 0 {
        seq![]
    } else {
        seq!['?'] + join_amp(tail_params(args))
    }
}

/// Query part of the `/api/stream` request of `daemon8 tail`.
pub fn tail_query_string(args: &TailArgs) -> (r: String)
    ensures
        r@ == tail_query(*args),
{
    let mut out = String::new();
    let ghost mut ps: Seq<Seq<char>> = seq![];
    let mut n: usize = 0;
    n = push_opt_param(&mut out, Ghost(ps), n, "kinds=", &args.kind);
    proof { ps = ps + opt_param("kinds="@, args.kind); }
    if let Some(sev) = &args.severity {
        if Severity::parse_name(sev.as_str()).is_ok() {
            push_param(&mut out, Ghost(ps), n == 0, "severity_min=", sev.as_str());
            proof { ps = ps.push("severity_min="@ + url_text(sev@)); }
            n = n + 1;
        }
    }
    proof {
        assert(ps =~= tail_params(*args));
    }
    if n == 0 {
        return out;
    }
    let mut q = "?".to_owned();
    push_str(&mut q, out.as_str());
    proof {
        reveal_strlit("?");
    }
    q
}

/// URL of the `/api/stream` request of `daemon8 tail`.
pub fn tail_url(args: &TailArgs, port: u16) -> (r: String)
    ensures
        r@ == spec_base_url(port) + "/api/stream"@ + tail_query(*args),
{
    let mut url = base_url(port);
    push_str(&mut url, "/api/stream");
    let q = tail_query_string(args);
    push_str(&mut url, q.as_str());
    url
}

/// Whether a streamed observation's origin label passes `--origin`: no
/// pattern passes everything, else the label must contain the pattern.
pub fn origin_passes(label: &str, pattern: &Option<String>) -> (r: bool)
    ensures
        r == match pattern {
            Some(p) => crate::text::contains(label@, p@),
            None => true,
        },
{
    match pattern {
        Some(p) => {
            let l = chars_of(label);
            let pv = chars_of(p.as_str());
            crate::text::contains_chars(l.as_slice(), pv.as_slice())
        },
        None => true,
    }
}

/// `s` in red, as `owo_colors::OwoColorize::red` displays it.
#[verifier::external_body]
fn paint_red(s: &str) -> (r: String)
    ensures
        r@ == "\x1b[31m"@ + s@ + "\x1b[39m"@,
{
    owo_colors::OwoColorize::red(&s).to_string()
}

/// `s` in yellow, as `owo_colors::OwoColorize::yellow` displays it.
#[verifier::external_body]
fn paint_yellow(s: &str) -> (r: String)
    ensures
        r@ == "\x1b[33m"@ + s@ + "\x1b[39m"@,
{
    owo_colors::OwoColorize::yellow(&s).to_string()
}

/// `s` in green, as `owo_colors::OwoColorize::green` displays it.
#[verifier::external_body]
fn paint_green(s: &str) -> (r: String)
    ensures
        r@ == "\x1b[32m"@ + s@ + "\x1b[39m"@,
{
    owo_colors::OwoColorize::green(&s).to_string()
}

/// `s` dimmed, as `owo_colors::OwoColorize::dimmed` displays it.
#[verifier::external_body]
fn paint_dimmed(s: &str) -> (r: String)
    ensures
        r@ == "\x1b[2m"@ + s@ + "\x1b[0m"@,
{
    owo_colors::OwoColorize::dimmed(&s).to_string()
}

/// The severity label the terminal shows: the uppercase name, coloured by
/// severity when colour is on (error red, warn yellow, info green, debug
/// and trace dimmed).
pub open spec fn severity_label(s: Severity, use_color: bool) -> Seq<char> {
    let label = crate::text::upper(s.spec_name());
    if !use_color {
        label
    } else {
        match s {
            Severity::Error => "\x1b[31m"@ + label + "\x1b[39m"@,
            Severity::Warn => "\x1b[33m"@ + label + "\x1b[39m"@,
            Severity::Info => "\x1b[32m"@ + label + "\x1b[39m"@,
            Severity::Debug => "\x1b[2m"@ + label + "\x1b[0m"@,
            Severity::Trace => "\x1b[2m"@ + label + "\x1b[0m"@,
        }
    }
}

/// Formats a severity with optional colour.
pub fn format_severity(s: &Severity, use_color: bool) -> (r: String)
    ensures
        r@ == severity_label(*s, use_color),
{
    let label = crate::text::to_ascii_uppercase(s.name());
    if !use_color {
        return label;
    }
    match s {
        Severity::Error => paint_red(label.as_str()),
        Severity::Warn => paint_yellow(label.as_str()),
        Severity::Info => paint_green(label.as_str()),
        Severity::Debug => paint_dimmed(label.as_str()),
        Severity::Trace => paint_dimmed(label.as_str()),
    }
}

/// The line `daemon8 tail` prints for an observation:
/// `[<time>] <severity> <origin> <kind>: <payload cut to 120 characters>`.
pub open spec fn tail_text(obs: super::types::Observation, severity: Seq<char>) -> Seq<char> {
    "["@ + clock_text(obs.timestamp_ns as nat) + "] "@ + severity + " "@ + origin_label(obs.origin) + " "@
        + obs.kind.spec_tag().spec_name() + ": "@ + truncated(obs.data@, 120)
}

/// The line `daemon8 tail` prints for an observation, with the severity
/// already formatted.
pub fn tail_line(obs: &super::types::Observation, severity: &str) -> (r: String)
    ensures
        r@ == tail_text(*obs, severity@),
{
    let mut line = "[".to_owned();
    let ts = format_timestamp(obs.timestamp_ns);
    push_str(&mut line, ts.as_str());
    push_str(&mut line, "] ");
    push_str(&mut line, severity);
    push_str(&mut line, " ");
    let origin = format_origin(&obs.origin);
    push_str(&mut line, origin.as_str());
    push_str(&mut line, " ");
    push_str(&mut line, obs.kind.tag().name());
    push_str(&mut line, ": ");
    let data = truncate(obs.data.as_str(), 120);
    push_str(&mut line, data.as_str());
    assert(line@ =~= tail_text(*obs, severity@));
    line
}

/// The cells `daemon8 query` shows for an observation: id, time, severity,
/// kind, origin and the payload cut to 60 characters.
pub fn query_row(obs: &super::types::Observation) -> (r: Vec<String>)
    ensures
        crate::text::views(r@) == seq![
            decimal(obs.id as nat),
            clock_text(obs.timestamp_ns as nat),
            obs.severity.spec_name(),
            obs.kind.spec_tag().spec_name(),
            origin_label(obs.origin),
            truncated(obs.data@, 60),
        ],
{
    let mut r: Vec<String> = Vec::new();
    r.push(crate::text::u64_to_string(obs.id));
    r.push(format_timestamp(obs.timestamp_ns));
    r.push(obs.severity.to_string());
    r.push(obs.kind.tag().to_string());
    r.push(format_origin(&obs.origin));
    r.push(truncate(obs.data.as_str(), 60));
    assert(crate::text::views(r@) =~= seq![
        decimal(obs.id as nat),
        clock_text(obs.timestamp_ns as nat),
        obs.severity.spec_name(),
        obs.kind.spec_tag().spec_name(),
        origin_label(obs.origin),
        truncated(obs.data@, 60),
    ]);
    r
}

/// The line under the query table: `<n> observations (checkpoint: <c>)`.
pub fn query_footer(count: usize, checkpoint: u64) -> (r: String)
    ensures
        r@ == decimal(count as nat) + " observations (checkpoint: "@ + decimal(checkpoint as nat)
            + ")"@,
{
    let mut s = String::new();
    push_decimal(&mut s, count as u64);
    push_str(&mut s, " observations (checkpoint: ");
    push_decimal(&mut s, checkpoint);
    push_str(&mut s, ")");
    s
}

/// The name `daemon8 status` shows for a health state.
pub fn health_label(h: super::types::HealthStatus) -> (r: &'static str)
    ensures
        r@ == match h {
            super::types::HealthStatus::Healthy => "ok"@,
            super::types::HealthStatus::ErrorsDetected => "errors_detected"@,
            super::types::HealthStatus::NoSources => "no_sources"@,
        },
{
    match h {
        super::types::HealthStatus::Healthy => "ok",
        super::types::HealthStatus::ErrorsDetected => "errors_detected",
        super::types::HealthStatus::NoSources => "no_sources",
    }
}

} // verus!
verus! {

/// A tail line starts with the time and severity, names the observation's
/// origin right after them, and ends with its kind and payload: after
/// `[<time>] <severity> ` come the origin label and a space, and the line
/// closes with `<kind>: <payload cut to 120 characters>`.
pub proof fn lemma_tail_line_names_origin(obs: super::types::Observation, severity: Seq<char>)
    ensures
        ({
            let line = tail_text(obs, severity);
            let head = "["@ + clock_text(obs.timestamp_ns as nat) + "] "@ + severity + " "@;
            let label = origin_label(obs.origin) + " "@;
            let tail = obs.kind.spec_tag().spec_name() + ": "@ + truncated(obs.data@, 120);
            &&& line.len() == (head.len() + label.len()) as int + tail.len()
            &&& line.subrange(0, head.len() as int) == head
            &&& line.subrange(head.len() as int, (head.len() + label.len()) as int) == label
            &&& line.subrange((head.len() + label.len()) as int, line.len() as int) == tail
        }),
{
    let line = tail_text(obs, severity);
    let head = "["@ + clock_text(obs.timestamp_ns as nat) + "] "@ + severity + " "@;
    let label = origin_label(obs.origin) + " "@;
    let tail = obs.kind.spec_tag().spec_name() + ": "@ + truncated(obs.data@, 120);
    assert(line =~= head + label + tail);
    assert(line.subrange(0, head.len() as int) =~= head);
    assert(line.subrange(head.len() as int, (head.len() + label.len()) as int) =~= label);
    assert(line.subrange((head.len() + label.len()) as int, line.len() as int) =~= tail);
}

/// Observations that differ only in origin give tail lines that differ
/// exactly when their origin labels do.
pub proof fn lemma_tail_line_follows_origin(
    a: super::types::Observation,
    b: super::types::Observation,
    severity: Seq<char>,
)
    requires
        a.timestamp_ns == b.timestamp_ns,
        a.kind.spec_tag() == b.kind.spec_tag(),
        a.data@ == b.data@,
    ensures
        (tail_text(a, severity) == tail_text(b, severity)) == (origin_label(a.origin)
            == origin_label(b.origin)),
{
    reveal_strlit(" ");
    lemma_tail_line_names_origin(a, severity);
    lemma_tail_line_names_origin(b, severity);
    let head = "["@ + clock_text(a.timestamp_ns as nat) + "] "@ + severity + " "@;
    let la = origin_label(a.origin) + " "@;
    let lb = origin_label(b.origin) + " "@;
    let tail = a.kind.spec_tag().spec_name() + ": "@ + truncated(a.data@, 120);
    assert(tail_text(a, severity) =~= head + la + tail);
    assert(tail_text(b, severity) =~= head + lb + tail);
    if tail_text(a, severity) == tail_text(b, severity) {
        assert(la.len() == lb.len());
        assert(la =~= tail_text(a, severity).subrange(head.len() as int, (head.len() + la.len()) as int));
        assert(lb =~= tail_text(b, severity).subrange(head.len() as int, (head.len() + lb.len()) as int));
        assert(origin_label(a.origin) =~= la.drop_last());
        assert(origin_label(b.origin) =~= lb.drop_last());
    }
}

} // verus!
