//! Error fingerprints: volatile tokens are stripped from an error's text
//! so that failures of the same shape share one normalized text, hashed to
//! sixteen hex characters; repeat sightings bump a `seen:N` tag.
use vstd::prelude::*;

use sha2::Digest;
use vstd::string::StringSliceAdditionalSpecFns;

use crate::json::{json_str_at, spec_json_lookup, strs_view};
use crate::text::{push_char, push_decimal, push_str, trim, trim_string, decimal, views};
use crate::types::kinds::{MemoryKind, Severity};
use super::error::StoreError;
use super::memory_sql::MemoryFilter;
use crate::types::observation::{Observation, ObservationKind};

verus! {

/// SHA-256 of `data`, as `sha2::Sha256::digest` computes it.
pub uninterp spec fn spec_sha256(data: Seq<u8>) -> Seq<u8>;

/// Calls `sha2::Sha256::digest` on the bytes and returns the digest; the
/// contract names the digest and states that it has 32 bytes, the output
/// size of SHA-256.
#[verifier::external_body]
fn sha256(data: &[u8]) -> (r: Vec<u8>)
    ensures
        r@ == spec_sha256(data@),
        r@.len() == 32,
{
    sha2::Sha256::digest(data).to_vec()
}

/// The SHA-256 of the bytes as 64 lowercase hex digits.
pub fn sha256_bytes(data: &Vec<u8>) -> (r: String)
    ensures
        r@ == hex_bytes(spec_sha256(data@)),
{
    let digest = sha256(data.as_slice());
    let mut out = String::new();
    let mut i: usize = 0;
    while i < digest.len()
        invariant
            i <= digest@.len(),
            out@ == hex_bytes(digest@.take(i as int)),
        decreases digest@.len() - i,
    {
        let b = digest[i];
        push_char(&mut out, hex_char(b / 16));
        push_char(&mut out, hex_char(b % 16));
        proof {
            assert(digest@.take(i + 1).drop_last() =~= digest@.take(i as int));
            assert(out@ =~= hex_bytes(digest@.take(i + 1)));
        }
        i += 1;
    }
    proof {
        assert(digest@.take(digest@.len() as int) =~= digest@);
    }
    out
}

/// Lowercase hex digit of `d < 16`.
pub open spec fn hex_digit(d: u8) -> char {
    if d < 10 {
        ((d + 48) as u32) as char
    } else {
        ((d + 87) as u32) as char
    }
}

/// Two lowercase hex digits of each byte, in order.
pub open spec fn hex_bytes(bs: Seq<u8>) -> Seq<char>
    decreases bs.len(),
{
    if bs.len() == 0 {
        seq![]
    } else {
        hex_bytes(bs.drop_last()) + seq![hex_digit(bs.last() / 16), hex_digit(bs.last() % 16)]
    }
}

/// The lowercase hex digit of a nibble.
fn hex_char(d: u8) -> (r: char)
    requires
        d < 16,
    ensures
        r == hex_digit(d),
{
    if d < 10 {
        (d + 48) as char
    } else {
        (d + 87) as char
    }
}

/// The first eight bytes of the SHA-256 of the UTF-8 text, as sixteen
/// lowercase hex digits.
pub fn hash_error(normalized: &str) -> (r: String)
    ensures
        r@ == hex_bytes(spec_sha256(normalized.spec_bytes()).take(8)),
        r@.len() == 16,
{
    let bytes = normalized.as_bytes();
    let digest = sha256(bytes);
    let mut out = String::new();
    let mut i: usize = 0;
    while i < 8
        invariant
            i <= 8,
            digest@.len() == 32,
            digest@ == spec_sha256(normalized.spec_bytes()),
            out@ == hex_bytes(digest@.take(i as int)),
            out@.len() == 2 * i,
        decreases 8 - i,
    {
        let b = digest[i];
        push_char(&mut out, hex_char(b / 16));
        push_char(&mut out, hex_char(b % 16));
        proof {
            assert(digest@.take(i + 1).drop_last() =~= digest@.take(i as int));
            assert(out@ =~= hex_bytes(digest@.take(i + 1)));
        }
        i += 1;
    }
    out
}

/// Message and trace on separate lines; the message alone without a trace.
pub open spec fn spec_combine(message: Seq<char>, trace: Option<Seq<char>>) -> Seq<char> {
    match trace {
        Some(t) => message + seq!['\n'] + t,
        None => message,
    }
}

/// Message and trace on separate lines; the message alone without a trace.
pub fn combine(message: &str, trace: Option<&str>) -> (r: String)
    ensures
        r@ == spec_combine(
            message@,
            match trace {
                Some(t) => Some(t@),
                None => None,
            },
        ),
{
    let mut s = message.to_owned();
    if let Some(t) = trace {
        push_char(&mut s, '\n');
        push_str(&mut s, t);
    }
    s
}

/// The string field `key` of the JSON object the text denotes.
pub open spec fn spec_json_str_field(json: Seq<char>, key: Seq<char>) -> Option<Seq<char>> {
    match spec_json_lookup(json, seq![key]) {
        Some(Some(s)) => Some(s),
        _ => None,
    }
}

/// The string field `key` of the JSON object the text denotes.
fn json_str_field(json: &str, key: &str) -> (r: Option<String>)
    ensures
        match r {
            Some(v) => spec_json_str_field(json@, key@) == Some(v@),
            None => spec_json_str_field(json@, key@) is None,
        },
{
    let path: [&str; 1] = [key];
    assert(strs_view(path@) =~= seq![key@]);
    match json_str_at(json, &path) {
        Some(Some(s)) => Some(s),
        _ => None,
    }
}

/// The text of an error observation: an exception's message and trace, a
/// JS exception's message, or, for any other kind at error severity, the
/// payload's `message` string, else its `error` string.
pub open spec fn spec_error_text(obs: Observation) -> Option<Seq<char>> {
    match obs.kind {
        ObservationKind::Exception { message, trace } => Some(
            spec_combine(
                message@,
                match trace {
                    Some(t) => Some(t@),
                    None => None,
                },
            ),
        ),
        ObservationKind::JsException { message, .. } => Some(message@),
        _ => if obs.severity == Severity::Error {
            match spec_json_str_field(obs.data@, "message"@) {
                Some(m) => Some(m),
                None => spec_json_str_field(obs.data@, "error"@),
            }
        } else {
            None
        },
    }
}

/// The text an error observation is fingerprinted from, if it is one.
pub fn extract_error_text(obs: &Observation) -> (r: Option<String>)
    ensures
        match r {
            Some(t) => spec_error_text(*obs) == Some(t@),
            None => spec_error_text(*obs) is None,
        },
{
    match &obs.kind {
        ObservationKind::Exception { message, trace } => {
            let t = match trace {
                Some(t) => Some(t.as_str()),
                None => None,
            };
            Some(combine(message.as_str(), t))
        },
        ObservationKind::JsException { message, .. } => Some(message.clone()),
        _ => {
            if obs.severity == Severity::Error {
                match json_str_field(obs.data.as_str(), "message") {
                    Some(m) => Some(m),
                    None => json_str_field(obs.data.as_str(), "error"),
                }
            } else {
                None
            }
        },
    }
}

/// A compiled `regex::Regex`, carried through verified code as it is.
#[verifier::external_type_specification]
#[verifier::external_body]
pub struct ExRegex(regex::Regex);

/// The regular expression `regex::Regex::new` compiles from `pattern`, or
/// `None` when the pattern does not compile.
pub uninterp spec fn spec_regex_new(pattern: Seq<char>) -> Option<regex::Regex>;

/// Compiles `pattern` with `regex::Regex::new`; `None` on a compile error.
#[verifier::external_body]
fn regex_new(pattern: &str) -> (r: Option<regex::Regex>)
    ensures
        r == spec_regex_new(pattern@),
{
    regex::Regex::new(pattern).ok()
}

/// The text with every match of `re` replaced by `replacement`, as
/// `Regex::replace_all` computes it.
pub uninterp spec fn spec_regex_replace_all(
    re: regex::Regex,
    text: Seq<char>,
    replacement: Seq<char>,
) -> Seq<char>;

/// Replaces every match of `re` in `text` with `Regex::replace_all`.
#[verifier::external_body]
fn regex_replace_all(re: &regex::Regex, text: &str, replacement: &str) -> (r: String)
    ensures
        r@ == spec_regex_replace_all(*re, text@, replacement@),
{
    re.replace_all(text, replacement).into_owned()
}

/// One normalization step: the replaced text, or the text unchanged when
/// the pattern does not compile.
pub open spec fn step(pattern: Seq<char>, text: Seq<char>, replacement: Seq<char>) -> Seq<char> {
    match spec_regex_new(pattern) {
        Some(re) => spec_regex_replace_all(re, text, replacement),
        None => text,
    }
}

/// A UUID.
pub open spec fn uuid_pattern() -> Seq<char> {
    "\\b[0-9a-fA-F]{8}-[0-9a-fA-F]{4}-[0-9a-fA-F]{4}-[0-9a-fA-F]{4}-[0-9a-fA-F]{12}\\b"@
}

/// An absolute POSIX path of two or more segments, with an optional
/// `:line:col` tail.
pub open spec fn path_pattern() -> Seq<char> {
    "(/[\\w.\\-+]+){2,}(:\\d+(:\\d+)?)?"@
}

/// A run of at least eight hex digits, optionally `0x`-prefixed.
pub open spec fn hex_pattern() -> Seq<char> {
    "\\b(0x)?[0-9a-fA-F]{8,}\\b"@
}

/// A run of digits, also next to letters.
pub open spec fn num_pattern() -> Seq<char> {
    "\\d+"@
}

/// A run of whitespace.
pub open spec fn ws_pattern() -> Seq<char> {
    "\\s+"@
}

/// The normalized text: UUIDs, then paths, then long hex runs, then digit
/// runs replaced by placeholders, whitespace runs collapsed to one space,
/// and the ends trimmed.
pub open spec fn spec_normalize(raw: Seq<char>) -> Seq<char> {
    let a = step(uuid_pattern(), raw, "<UUID>"@);
    let b = step(path_pattern(), a, "<PATH>"@);
    let c = step(hex_pattern(), b, "<HEX>"@);
    let d = step(num_pattern(), c, "<NUM>"@);
    let e = step(ws_pattern(), d, " "@);
    trim(e)
}

/// Applies one replacement step.
fn apply_step(pattern: &str, text: String, replacement: &str) -> (r: String)
    ensures
        r@ == step(pattern@, text@, replacement@),
{
    match regex_new(pattern) {
        Some(re) => regex_replace_all(&re, text.as_str(), replacement),
        None => text,
    }
}

/// Strips volatile tokens so that structurally identical errors share one
/// text.
pub fn normalize_error_text(raw: &str) -> (r: String)
    ensures
        r@ == spec_normalize(raw@),
{
    let s = apply_step(
        "\\b[0-9a-fA-F]{8}-[0-9a-fA-F]{4}-[0-9a-fA-F]{4}-[0-9a-fA-F]{4}-[0-9a-fA-F]{12}\\b",
        raw.to_owned(),
        "<UUID>",
    );
    let s = apply_step("(/[\\w.\\-+]+){2,}(:\\d+(:\\d+)?)?", s, "<PATH>");
    let s = apply_step("\\b(0x)?[0-9a-fA-F]{8,}\\b", s, "<HEX>");
    let s = apply_step("\\d+", s, "<NUM>");
    let s = apply_step("\\s+", s, " ");
    trim_string(s.as_str())
}

/// The tag that files a signature under its hash.
pub fn hash_tag(hash: &str) -> (r: String)
    ensures
        r@ == "hash:"@ + hash@,
{
    let mut t = "hash:".to_owned();
    push_str(&mut t, hash);
    t
}

/// Value of a run of decimal digits.
pub open spec fn digits_value(s: Seq<char>) -> nat
    decreases s.len(),
{
    if s.len() == 0 {
        0
    } else {
        digits_value(s.drop_last()) * 10 + ((s.last() as int) - 48) as nat
    }
}

/// Every character is a decimal digit.
pub open spec fn all_digits(s: Seq<char>) -> bool {
    forall|i: int| 0 <= i < s.len() ==> '0' <= #[trigger] s[i] && s[i] <= '9'
}

/// The `u64` that `str::parse` reads from `s`: an optional `+`, then one
/// or more digits whose value fits.
pub open spec fn spec_parse_u64(s: Seq<char>) -> Option<u64> {
    let d = if s.len() > 0 && s[0] == '+' {
        s.drop_first()
    } else {
        s
    };
    if d.len() > 0 && all_digits(d) && digits_value(d) <= u64::MAX {
        Some(digits_value(d) as u64)
    } else {
        None
    }
}

/// A longer digit run is worth at least its prefix.
proof fn lemma_digits_monotone(s: Seq<char>, k: int)
    requires
        0 <= k <= s.len(),
        all_digits(s),
    ensures
        digits_value(s.take(k)) <= digits_value(s),
    decreases s.len() - k,
{
    if k < s.len() {
        lemma_digits_monotone(s, k + 1);
        assert(s.take(k + 1).drop_last() =~= s.take(k));
        assert(s.take(k + 1).last() == s[k]);
    } else {
        assert(s.take(k) =~= s);
    }
}

/// Reads an unsigned decimal number as `str::parse::<u64>` does.
pub fn parse_u64(s: &str) -> (r: Option<u64>)
    ensures
        r == spec_parse_u64(s@),
{
    let cs = crate::text::chars_of(s);
    let start: usize = if cs.len() > 0 && cs[0] == '+' {
        1
    } else {
        0
    };
    let ghost d = if s@.len() > 0 && s@[0] == '+' {
        s@.drop_first()
    } else {
        s@
    };
    proof {
        assert(d =~= cs@.skip(start as int));
    }
    if start >= cs.len() {
        return None;
    }
    let mut v: u64 = 0;
    let mut i: usize = start;
    while i < cs.len()
        invariant
            start <= i <= cs@.len(),
            cs@ == s@,
            d == cs@.skip(start as int),
            d == (if s@.len() > 0 && s@[0] == '+' {
                s@.drop_first()
            } else {
                s@
            }),
            all_digits(d.take(i - start)),
            v == digits_value(d.take(i - start)),
        decreases cs@.len() - i,
    {
        let c = cs[i];
        proof {
            assert(d.take(i - start + 1).drop_last() =~= d.take(i - start));
            assert(d.take(i - start + 1).last() == c);
        }
        if !('0' <= c && c <= '9') {
            proof {
                assert(d[i - start] == c);
                assert(!all_digits(d));
            }
            return None;
        }
        let digit: u64 = (c as u32 - 48) as u64;
        let next = match v.checked_mul(10) {
            Some(m) => m.checked_add(digit),
            None => None,
        };
        match next {
            Some(n) => {
                v = n;
            },
            None => {
                proof {
                    let t = d.take(i - start + 1);
                    assert(all_digits(t));
                    assert((c as int) - 48 == digit);
                    assert(digits_value(t) == v * 10 + digit);
                    assert(digits_value(t) > u64::MAX);
                    if all_digits(d) {
                        lemma_digits_monotone(d, i - start + 1);
                    }
                }
                return None;
            },
        }
        i += 1;
    }
    proof {
        assert(d.take(cs@.len() - start) =~= d);
    }
    Some(v)
}

/// The count a `seen:N` tag carries, when it is one and its count parses.
pub open spec fn seen_count(tag: Seq<char>) -> Option<u64> {
    if crate::text::starts_with(tag, "seen:"@) {
        spec_parse_u64(tag.skip(5))
    } else {
        None
    }
}

/// The count the last parsable `seen:N` tag carries.
pub open spec fn last_seen(tags: Seq<Seq<char>>) -> Option<u64>
    decreases tags.len(),
{
    if tags.len() == 0 {
        None
    } else {
        match seen_count(tags.last()) {
            Some(n) => Some(n),
            None => last_seen(tags.drop_last()),
        }
    }
}

/// The tags without `seen:` ones, in order.
pub open spec fn without_seen(tags: Seq<Seq<char>>) -> Seq<Seq<char>>
    decreases tags.len(),
{
    if tags.len() == 0 {
        seq![]
    } else if crate::text::starts_with(tags.last(), "seen:"@) {
        without_seen(tags.drop_last())
    } else {
        without_seen(tags.drop_last()).push(tags.last())
    }
}

/// The sighting count after this one: one more than the last parsable
/// `seen:N`, or 1.
pub open spec fn next_seen(tags: Seq<Seq<char>>) -> u64 {
    match last_seen(tags) {
        Some(n) => (n + 1) as u64,
        None => 1,
    }
}

/// Replaces every `seen:` tag by one `seen:N` carrying the next count,
/// appended last.
pub fn rotate_seen_tag(tags: &mut Vec<String>)
    requires
        last_seen(views(old(tags)@)) != Some(u64::MAX),
    ensures
        views(final(tags)@) == without_seen(views(old(tags)@)).push(
            "seen:"@ + decimal(next_seen(views(old(tags)@)) as nat),
        ),
{
    let ghost orig = views(tags@);
    let mut kept: Vec<String> = Vec::new();
    let mut last: Option<u64> = None;
    let mut i: usize = 0;
    while i < tags.len()
        invariant
            i <= tags@.len(),
            views(tags@) == orig,
            views(kept@) == without_seen(orig.take(i as int)),
            last == last_seen(orig.take(i as int)),
        decreases tags@.len() - i,
    {
        proof {
            assert(orig.take(i + 1).drop_last() =~= orig.take(i as int));
            assert(orig.take(i + 1).last() == tags@[i as int]@);
        }
        let t = tags[i].as_str();
        let tc = crate::text::chars_of(t);
        let pre = crate::text::chars_of("seen:");
        if crate::text::has_prefix(tc.as_slice(), pre.as_slice()) {
            proof {
                reveal_strlit("seen:");
            }
            let rest = crate::text::slice_to_vec(tc.as_slice(), 5, tc.len());
            let rest_s = crate::text::string_of(rest.as_slice());
            proof {
                assert(rest_s@ =~= t@.skip(5));
            }
            match parse_u64(rest_s.as_str()) {
                Some(n) => {
                    last = Some(n);
                },
                None => {},
            }
        } else {
            let ghost before = kept@;
            kept.push(tags[i].clone());
            assert(views(kept@) =~= views(before).push(tags@[i as int]@));
        }
        i += 1;
    }
    proof {
        assert(orig.take(orig.len() as int) =~= orig);
    }
    let next: u64 = match last {
        Some(n) => n + 1,
        None => 1,
    };
    let mut tag = "seen:".to_owned();
    push_decimal(&mut tag, next);
    let ghost before = kept@;
    kept.push(tag);
    assert(views(kept@) =~= views(before).push("seen:"@ + decimal(next as nat)));
    *tags = kept;
}

/// The observation list after a sighting: unchanged when it lists the
/// observation, else with it appended and only the newest 50 kept.
pub open spec fn spec_bump_observations(list: Seq<u64>, id: u64) -> Seq<u64> {
    if list.contains(id) {
        list
    } else if list.len() + 1 > 50 {
        list.push(id).skip(list.len() + 1 - 50)
    } else {
        list.push(id)
    }
}

/// Records a sighting of observation `id`.
pub fn bump_observations(list: &mut Vec<u64>, id: u64)
    ensures
        final(list)@ == spec_bump_observations(old(list)@, id),
{
    let mut found = false;
    let mut i: usize = 0;
    while i < list.len()
        invariant
            i <= list@.len(),
            list@ == old(list)@,
            found == exists|k: int| 0 <= k < i && list@[k] == id,
        decreases list@.len() - i,
    {
        if list[i] == id {
            found = true;
        }
        i += 1;
    }
    if found {
        return ;
    }
    list.push(id);
    if list.len() > 50 {
        let drop = list.len() - 50;
        let mut kept: Vec<u64> = Vec::new();
        let mut j: usize = drop;
        while j < list.len()
            invariant
                drop <= j <= list@.len(),
                list@ == old(list)@.push(id),
                kept@ == list@.subrange(drop as int, j as int),
            decreases list@.len() - j,
        {
            kept.push(list[j]);
            assert(kept@ =~= list@.subrange(drop as int, j + 1));
            j += 1;
        }
        assert(kept@ =~= old(list)@.push(id).skip(old(list)@.len() + 1 - 50));
        *list = kept;
    }
}

/// A sighting always leaves the observation listed, keeps the list within
/// 50 entries (when it was), adds no other entry and keeps the newest last.
pub proof fn lemma_bump_keeps_latest(list: Seq<u64>, id: u64)
    requires
        list.len() <= 50,
    ensures
        spec_bump_observations(list, id).contains(id),
        spec_bump_observations(list, id).len() <= 50,
        forall|x: u64| #[trigger] spec_bump_observations(list, id).contains(x) ==> x == id || list.contains(x),
        !list.contains(id) ==> spec_bump_observations(list, id).last() == id,
{
    let r = spec_bump_observations(list, id);
    if !list.contains(id) {
        let p = list.push(id);
        assert(p[p.len() - 1] == id);
        if p.len() > 50 {
            assert(r == p.skip(p.len() - 50));
            assert(r[r.len() - 1] == id);
        }
        assert(r[r.len() - 1] == id);
        assert forall|x: u64| #[trigger] r.contains(x) implies x == id || list.contains(x) by {
            let k = choose|k: int| 0 <= k < r.len() && r[k] == x;
            if p.len() > 50 {
                assert(r[k] == p[k + (p.len() - 50)]);
                if k + (p.len() - 50) < list.len() {
                    assert(list[k + (p.len() - 50)] == x);
                }
            } else {
                if k < list.len() {
                    assert(list[k] == x);
                }
            }
        }
    }
}

/// What promoting an error signature reads and writes of a memory.
#[derive(Debug, Clone)]
pub struct SignatureMemory {
    pub id: Option<String>,
    pub content: String,
    pub source_observations: Vec<u64>,
    pub tags: Vec<String>,
    pub project_slug: String,
    pub created_at: u64,
    pub updated_at: u64,
}

/// The lookup of a signature: at most one error-signature memory of the
/// project tagged with the hash.
pub fn signature_filter(hash: &str, project_slug: &str) -> (r: MemoryFilter)
    ensures
        r.kinds matches Some(k) && k@ == seq![MemoryKind::ErrorSignature],
        r.tags matches Some(t) && views(t@) == seq!["hash:"@ + hash@],
        r.project_slug matches Some(p) && p@ == project_slug@,
        r.session_id is None,
        r.text_match is None,
        r.limit == Some(1usize),
{
    let tag = hash_tag(hash);
    let tags = vec![tag];
    assert(views(tags@) =~= seq!["hash:"@ + hash@]);
    MemoryFilter {
        kinds: Some(vec![MemoryKind::ErrorSignature]),
        tags: Some(tags),
        project_slug: Some(project_slug.to_owned()),
        session_id: None,
        text_match: None,
        limit: Some(1),
    }
}

/// The memory a first sighting writes: the normalized text, the one
/// observation, and the hash and `seen:1` tags.
pub fn first_sighting(
    hash: &str,
    normalized_text: &str,
    project_slug: &str,
    observation_id: u64,
    now_ns: u64,
) -> (r: SignatureMemory)
    ensures
        r.id is None,
        r.content@ == normalized_text@,
        r.source_observations@ == seq![observation_id],
        views(r.tags@) == seq!["hash:"@ + hash@, "seen:1"@],
        r.project_slug@ == project_slug@,
        r.created_at == now_ns,
        r.updated_at == now_ns,
{
    let tags = vec![hash_tag(hash), "seen:1".to_owned()];
    assert(views(tags@) =~= seq!["hash:"@ + hash@, "seen:1"@]);
    SignatureMemory {
        id: None,
        content: normalized_text.to_owned(),
        source_observations: vec![observation_id],
        tags,
        project_slug: project_slug.to_owned(),
        created_at: now_ns,
        updated_at: now_ns,
    }
}

/// Records a repeat sighting on the stored memory: the observation list
/// is bumped, the `seen:N` tag rotated and the update time set; the
/// memory's id is returned, or the refusal when it has none.
pub fn repeat_sighting(mem: &mut SignatureMemory, observation_id: u64, now_ns: u64) -> (r: Result<
    String,
    StoreError,
>)
    requires
        last_seen(views(old(mem).tags@)) != Some(u64::MAX),
    ensures
        final(mem).source_observations@ == spec_bump_observations(
            old(mem).source_observations@,
            observation_id,
        ),
        views(final(mem).tags@) == without_seen(views(old(mem).tags@)).push(
            "seen:"@ + decimal(next_seen(views(old(mem).tags@)) as nat),
        ),
        final(mem).updated_at == now_ns,
        final(mem).id == old(mem).id,
        final(mem).content == old(mem).content,
        final(mem).project_slug == old(mem).project_slug,
        final(mem).created_at == old(mem).created_at,
        match old(mem).id {
            Some(id) => r matches Ok(s) && s@ == id@,
            None => r matches Err(StoreError::Db(m)) && m@ == "error signature missing id"@,
        },
{
    bump_observations(&mut mem.source_observations, observation_id);
    rotate_seen_tag(&mut mem.tags);
    mem.updated_at = now_ns;
    match &mem.id {
        Some(id) => Ok(id.clone()),
        None => Err(StoreError::Db("error signature missing id".to_owned())),
    }
}

} // verus!
