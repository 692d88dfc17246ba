//! The query that the observation table answers a `Filter` with.
use vstd::prelude::*;

use super::sql::{
    binds_view, opt_bind, opt_cond, push_bind, push_cond, push_where, severity_names_from,
    severity_names_gte, where_clause, dup_strings, BindValue, BindView,
};
use crate::text::{
    decimal, join, lower, push_decimal, push_str, to_ascii_lowercase, trim, trim_string, views,
};
use crate::types::filter::{Filter, OriginPattern};
use crate::types::kinds::{ObservationKindTag, Severity};
use crate::types::observation::{dup_opt_string, Observation, ObservationKind, Origin, SourceLocation};
use super::error::StoreError;

verus! {

/// The parameter name that a named origin pattern number `i` binds:
/// `origin_name_<i>`, `origin_tab_<i>` or `origin_serial_<i>`.
pub open spec fn origin_bind_name(p: OriginPattern, i: nat) -> Seq<char> {
    match p {
        OriginPattern::ApplicationNamed(_) => "origin_name_"@ + decimal(i),
        OriginPattern::BrowserTab(_) => "origin_tab_"@ + decimal(i),
        _ => "origin_serial_"@ + decimal(i),
    }
}

/// The condition that origin pattern number `i` of a filter contributes.
pub open spec fn origin_cond(p: OriginPattern, i: nat) -> Seq<char> {
    match p {
        OriginPattern::AnyApplication => "origin.type = 'application'"@,
        OriginPattern::ApplicationNamed(_) => "(origin.type = 'application' AND origin.name = $"@
            + origin_bind_name(p, i) + ")"@,
        OriginPattern::AnyBrowser => "origin.type = 'browser'"@,
        OriginPattern::BrowserTab(_) => "(origin.type = 'browser' AND origin.tab_id = $"@
            + origin_bind_name(p, i) + ")"@,
        OriginPattern::AnyDevice => "origin.type = 'device'"@,
        OriginPattern::DeviceSerial(_) => "(origin.type = 'device' AND origin.serial = $"@
            + origin_bind_name(p, i) + ")"@,
    }
}

/// The binding that origin pattern number `i` of a filter contributes: the
/// name, tab or serial of a named pattern.
pub open spec fn origin_bind(p: OriginPattern, i: nat) -> Seq<(Seq<char>, BindView)> {
    match p {
        OriginPattern::ApplicationNamed(n) => seq![(origin_bind_name(p, i), BindView::Text(n@))],
        OriginPattern::BrowserTab(t) => seq![(origin_bind_name(p, i), BindView::Text(t@))],
        OriginPattern::DeviceSerial(s) => seq![(origin_bind_name(p, i), BindView::Text(s@))],
        _ => seq![],
    }
}

/// The conditions of a list of origin patterns, numbered from zero.
pub open spec fn origin_conds(ps: Seq<OriginPattern>) -> Seq<Seq<char>> {
    Seq::new(ps.len(), |i: int| origin_cond(ps[i], i as nat))
}

/// The bindings of a list of origin patterns, numbered from zero.
pub open spec fn origin_binds(ps: Seq<OriginPattern>) -> Seq<(Seq<char>, BindView)>
    decreases ps.len(),
{
    if ps.len() == 0 {
        seq![]
    } else {
        origin_binds(ps.drop_last()) + origin_bind(ps.last(), (ps.len() - 1) as nat)
    }
}

/// Names of a list of kind tags.
pub open spec fn kind_names(ks: Seq<ObservationKindTag>) -> Seq<Seq<char>> {
    ks.map_values(|k: ObservationKindTag| k.spec_name())
}

/// The sequence number a filter starts after (zero when it has none).
pub open spec fn since_value(f: Filter) -> u64 {
    match f.since {
        Some(cp) => cp.0,
        None => 0,
    }
}

/// The filter lists at least one kind.
pub open spec fn has_kinds(f: Filter) -> bool {
    f.kinds is Some && f.kinds->0@.len() > 0
}

/// The filter requires at least one tag.
pub open spec fn has_tags(f: Filter) -> bool {
    f.tags is Some && f.tags->0@.len() > 0
}

/// The filter lists at least one origin pattern.
pub open spec fn has_origins(f: Filter) -> bool {
    f.origins is Some && f.origins->0@.len() > 0
}

/// The conditions of the observation query for `f`, in order: system rows
/// are left out unless `include_system` is `Some(true)`; then sequence
/// lower bound, severity allow-list, kinds, correlation id, required tags,
/// any of the origin patterns, and text search.
pub open spec fn query_conditions(f: Filter) -> Seq<Seq<char>> {
    head_conditions(f) + tail_conditions(f)
}

/// System rows, sequence bound, severities and kinds.
pub open spec fn head_conditions(f: Filter) -> Seq<Seq<char>> {
    opt_cond(f.include_system != Some(true), "(tags IS NONE OR tags CONTAINSNOT '_system')"@)
        + opt_cond(f.since is Some, "seq > $since_seq"@)
        + opt_cond(f.severity_min is Some, "severity IN $allowed_severities"@)
        + opt_cond(has_kinds(f), "kind_tag IN $allowed_kinds"@)
}

/// Correlation id, tags, origins and text search.
pub open spec fn tail_conditions(f: Filter) -> Seq<Seq<char>> {
    opt_cond(f.correlation_id is Some, "correlation_id = $corr_id"@)
        + opt_cond(has_tags(f), "tags CONTAINSALL $required_tags"@)
        + opt_cond(
        has_origins(f),
        "("@ + join(origin_conds(f.origins->0@), " OR "@) + ")"@,
    ) + opt_cond(
        f.text_match is Some,
        "string::contains(string::lowercase(<string> data), $text_lower)"@,
    )
}

/// The bindings of the observation query for `f`, in the order of the
/// conditions that use them; the text search binds the ASCII-lowercased
/// text.
pub open spec fn query_binds(f: Filter) -> Seq<(Seq<char>, BindView)> {
    head_binds(f) + tail_binds(f)
}

/// Bindings of the sequence bound, severities and kinds.
pub open spec fn head_binds(f: Filter) -> Seq<(Seq<char>, BindView)> {
    opt_bind(f.since is Some, "since_seq"@, BindView::Int(since_value(f))) + opt_bind(
        f.severity_min is Some,
        "allowed_severities"@,
        BindView::TextList(severity_names_from(f.severity_min->0)),
    ) + opt_bind(has_kinds(f), "allowed_kinds"@, BindView::TextList(kind_names(f.kinds->0@)))
}

/// Bindings of the correlation id, tags, origins and text search.
pub open spec fn tail_binds(f: Filter) -> Seq<(Seq<char>, BindView)> {
    opt_bind(
        f.correlation_id is Some,
        "corr_id"@,
        BindView::Text(f.correlation_id->0@),
    ) + opt_bind(has_tags(f), "required_tags"@, BindView::TextList(views(f.tags->0@))) + (if has_origins(
        f,
    ) {
        origin_binds(f.origins->0@)
    } else {
        seq![]
    }) + opt_bind(f.text_match is Some, "text_lower"@, BindView::Text(lower(f.text_match->0@)))
}

/// The full statement: every observation that meets the conditions, newest
/// sequence first, at most `limit` of them.
pub open spec fn query_sql(f: Filter) -> Seq<char> {
    "SELECT * FROM observation"@ + where_clause(" "@, query_conditions(f)) + " ORDER BY seq DESC"@
        + match f.limit {
        Some(n) => " LIMIT "@ + decimal(n as nat),
        None => seq![],
    }
}

/// The condition of origin pattern number `idx`; a named pattern also binds
/// its name, tab or serial.
pub fn origin_pattern_sql(pat: &OriginPattern, idx: usize, binds: &mut Vec<(String, BindValue)>) -> (r:
    String)
    ensures
        r@ == origin_cond(*pat, idx as nat),
        binds_view(final(binds)@) == binds_view(old(binds)@) + origin_bind(*pat, idx as nat),
{
    match pat {
        OriginPattern::AnyApplication => {
            assert(binds_view(binds@) =~= binds_view(old(binds)@) + origin_bind(*pat, idx as nat));
            "origin.type = 'application'".to_owned()
        },
        OriginPattern::ApplicationNamed(name) => {
            let mut bind_name = "origin_name_".to_owned();
            push_decimal(&mut bind_name, idx as u64);
            push_bind(binds, bind_name.as_str(), BindValue::Text(name.as_str().to_owned()));
            let mut c = "(origin.type = 'application' AND origin.name = $".to_owned();
            push_str(&mut c, bind_name.as_str());
            push_str(&mut c, ")");
            assert(c@ =~= origin_cond(*pat, idx as nat));
            assert(binds_view(binds@) =~= binds_view(old(binds)@) + origin_bind(*pat, idx as nat));
            c
        },
        OriginPattern::AnyBrowser => {
            assert(binds_view(binds@) =~= binds_view(old(binds)@) + origin_bind(*pat, idx as nat));
            "origin.type = 'browser'".to_owned()
        },
        OriginPattern::BrowserTab(tab_id) => {
            let mut bind_name = "origin_tab_".to_owned();
            push_decimal(&mut bind_name, idx as u64);
            push_bind(binds, bind_name.as_str(), BindValue::Text(tab_id.as_str().to_owned()));
            let mut c = "(origin.type = 'browser' AND origin.tab_id = $".to_owned();
            push_str(&mut c, bind_name.as_str());
            push_str(&mut c, ")");
            assert(c@ =~= origin_cond(*pat, idx as nat));
            assert(binds_view(binds@) =~= binds_view(old(binds)@) + origin_bind(*pat, idx as nat));
            c
        },
        OriginPattern::AnyDevice => {
            assert(binds_view(binds@) =~= binds_view(old(binds)@) + origin_bind(*pat, idx as nat));
            "origin.type = 'device'".to_owned()
        },
        OriginPattern::DeviceSerial(serial) => {
            let mut bind_name = "origin_serial_".to_owned();
            push_decimal(&mut bind_name, idx as u64);
            push_bind(binds, bind_name.as_str(), BindValue::Text(serial.as_str().to_owned()));
            let mut c = "(origin.type = 'device' AND origin.serial = $".to_owned();
            push_str(&mut c, bind_name.as_str());
            push_str(&mut c, ")");
            assert(c@ =~= origin_cond(*pat, idx as nat));
            assert(binds_view(binds@) =~= binds_view(old(binds)@) + origin_bind(*pat, idx as nat));
            c
        },
    }
}

/// The condition that any of the patterns holds, with their bindings.
fn origins_sql(ps: &Vec<OriginPattern>, binds: &mut Vec<(String, BindValue)>) -> (r: String)
    ensures
        r@ == "("@ + join(origin_conds(ps@), " OR "@) + ")"@,
        binds_view(final(binds)@) == binds_view(old(binds)@) + origin_binds(ps@),
{
    let mut conds: Vec<String> = Vec::new();
    let mut i: usize = 0;
    while i < ps.len()
        invariant
            i <= ps.len(),
            views(conds@) == origin_conds(ps@.take(i as int)),
            binds_view(binds@) == binds_view(old(binds)@) + origin_binds(ps@.take(i as int)),
        decreases ps.len() - i,
    {
        let ghost before = conds@;
        let ghost binds_before = binds@;
        let c = origin_pattern_sql(&ps[i], i, binds);
        conds.push(c);
        proof {
            let t = ps@.take(i + 1);
            assert(t.drop_last() =~= ps@.take(i as int));
            assert(views(conds@) =~= views(before).push(c@));
            assert(origin_conds(t) =~= origin_conds(ps@.take(i as int)).push(
                origin_cond(ps@[i as int], i as nat),
            ));
            assert(binds_view(binds@) =~= binds_view(old(binds)@) + origin_binds(t));
        }
        i += 1;
    }
    proof {
        assert(ps@.take(ps@.len() as int) =~= ps@);
    }
    let joined = crate::text::join_strings(&conds, " OR ");
    let mut r = "(".to_owned();
    push_str(&mut r, joined.as_str());
    push_str(&mut r, ")");
    r
}

/// Names of the kind tags of a list.
fn kind_name_list(ks: &Vec<ObservationKindTag>) -> (r: Vec<String>)
    ensures
        views(r@) == kind_names(ks@),
{
    let mut r: Vec<String> = Vec::new();
    let mut i: usize = 0;
    while i < ks.len()
        invariant
            i <= ks.len(),
            views(r@) == kind_names(ks@.take(i as int)),
        decreases ks.len() - i,
    {
        let ghost before = r@;
        let x = ks[i].to_string();
        r.push(x);
        proof {
            assert(views(r@) =~= views(before).push(x@));
            assert(kind_names(ks@.take(i + 1)) =~= kind_names(ks@.take(i as int)).push(
                ks@[i as int].spec_name(),
            ));
        }
        i += 1;
    }
    proof {
        assert(ks@.take(ks@.len() as int) =~= ks@);
    }
    r
}

/// Appends the head conditions of `filter` and their bindings.
fn push_head_conditions(
    filter: &Filter,
    conds: &mut Vec<String>,
    binds: &mut Vec<(String, BindValue)>,
)
    requires
        old(conds)@.len() == 0,
        old(binds)@.len() == 0,
    ensures
        views(final(conds)@) == head_conditions(*filter),
        binds_view(final(binds)@) == head_binds(*filter),
{
    let ghost f = *filter;
    let include_system = match filter.include_system {
        Some(b) => b,
        None => false,
    };
    if !include_system {
        push_cond(conds, "(tags IS NONE OR tags CONTAINSNOT '_system')");
    }
    let ghost c1 = opt_cond(f.include_system != Some(true), "(tags IS NONE OR tags CONTAINSNOT '_system')"@);
    assert(views(conds@) =~= c1);
    assert(binds_view(binds@) =~= seq![]);

    if let Some(cp) = &filter.since {
        push_cond(conds, "seq > $since_seq");
        push_bind(binds, "since_seq", BindValue::Int(cp.0));
    }
    let ghost c2 = c1 + opt_cond(f.since is Some, "seq > $since_seq"@);
    let ghost b2 = opt_bind(f.since is Some, "since_seq"@, BindView::Int(since_value(f)));
    assert(views(conds@) =~= c2);
    assert(binds_view(binds@) =~= b2);

    if let Some(min) = filter.severity_min {
        push_cond(conds, "severity IN $allowed_severities");
        let allowed = severity_names_gte(min);
        push_bind(binds, "allowed_severities", BindValue::TextList(allowed));
    }
    let ghost c3 = c2 + opt_cond(f.severity_min is Some, "severity IN $allowed_severities"@);
    let ghost b3 = b2 + opt_bind(
        f.severity_min is Some,
        "allowed_severities"@,
        BindView::TextList(severity_names_from(f.severity_min->0)),
    );
    assert(views(conds@) =~= c3);
    assert(binds_view(binds@) =~= b3);

    if let Some(kinds) = &filter.kinds {
        if kinds.len() > 0 {
            push_cond(conds, "kind_tag IN $allowed_kinds");
            let tags = kind_name_list(kinds);
            push_bind(binds, "allowed_kinds", BindValue::TextList(tags));
        }
    }
    assert(views(conds@) =~= head_conditions(f));
    assert(binds_view(binds@) =~= head_binds(f));
}

/// Appends the tail conditions of `filter` and their bindings.
fn push_tail_conditions(
    filter: &Filter,
    conds: &mut Vec<String>,
    binds: &mut Vec<(String, BindValue)>,
)
    ensures
        views(final(conds)@) == views(old(conds)@) + tail_conditions(*filter),
        binds_view(final(binds)@) == binds_view(old(binds)@) + tail_binds(*filter),
{
    let ghost f = *filter;
    let ghost c0 = views(conds@);
    let ghost b0 = binds_view(binds@);
    if let Some(cid) = &filter.correlation_id {
        push_cond(conds, "correlation_id = $corr_id");
        push_bind(binds, "corr_id", BindValue::Text(cid.clone()));
    }
    let ghost c5 = c0 + opt_cond(f.correlation_id is Some, "correlation_id = $corr_id"@);
    let ghost b5 = b0 + opt_bind(
        f.correlation_id is Some,
        "corr_id"@,
        BindView::Text(f.correlation_id->0@),
    );
    assert(views(conds@) =~= c5);
    assert(binds_view(binds@) =~= b5);

    if let Some(required) = &filter.tags {
        if required.len() > 0 {
            push_cond(conds, "tags CONTAINSALL $required_tags");
            let copy = dup_strings(required);
            push_bind(binds, "required_tags", BindValue::TextList(copy));
        }
    }
    let ghost c6 = c5 + opt_cond(has_tags(f), "tags CONTAINSALL $required_tags"@);
    let ghost b6 = b5 + opt_bind(has_tags(f), "required_tags"@, BindView::TextList(views(f.tags->0@)));
    assert(views(conds@) =~= c6);
    assert(binds_view(binds@) =~= b6);

    if let Some(origins) = &filter.origins {
        if origins.len() > 0 {
            let oc = origins_sql(origins, binds);
            let ghost before = conds@;
            conds.push(oc);
            assert(views(conds@) =~= views(before).push(oc@));
        }
    }
    let ghost c7 = c6 + opt_cond(
        has_origins(f),
        "("@ + join(origin_conds(f.origins->0@), " OR "@) + ")"@,
    );
    let ghost b7 = b6 + (if has_origins(f) {
        origin_binds(f.origins->0@)
    } else {
        seq![]
    });
    assert(views(conds@) =~= c7);
    assert(binds_view(binds@) =~= b7);

    if let Some(text) = &filter.text_match {
        push_cond(conds, "string::contains(string::lowercase(<string> data), $text_lower)");
        let low = to_ascii_lowercase(text.as_str());
        push_bind(binds, "text_lower", BindValue::Text(low));
    }
    assert(views(conds@) =~= views(old(conds)@) + tail_conditions(f));
    assert(binds_view(binds@) =~= binds_view(old(binds)@) + tail_binds(f));
}

/// The statement and bindings that select the observations `filter`
/// admits.
pub fn build_query_sql(filter: &Filter) -> (r: (String, Vec<(String, BindValue)>))
    ensures
        r.0@ == query_sql(*filter),
        binds_view(r.1@) == query_binds(*filter),
{
    let mut conds: Vec<String> = Vec::new();
    let mut binds: Vec<(String, BindValue)> = Vec::new();
    push_head_conditions(filter, &mut conds, &mut binds);
    push_tail_conditions(filter, &mut conds, &mut binds);
    let mut sql = "SELECT * FROM observation".to_owned();
    push_where(&mut sql, " ", &conds);
    push_str(&mut sql, " ORDER BY seq DESC");
    if let Some(n) = filter.limit {
        push_str(&mut sql, " LIMIT ");
        push_decimal(&mut sql, n as u64);
    }
    assert(sql@ =~= query_sql(*filter));
    (sql, binds)
}

/// An observation as the observation table stores it: the sequence number,
/// severity and kind tag by name, origin, kind and payload as JSON text, the
/// source location split into file and line, and the optional metadata.
#[derive(Debug, Clone)]
pub struct ObsRecord {
    pub seq: u64,
    pub timestamp_ns: u64,
    pub severity: String,
    pub kind_tag: String,
    pub origin_json: String,
    pub kind_json: String,
    pub data: String,
    pub source_file: Option<String>,
    pub source_line: Option<i32>,
    pub correlation_id: Option<String>,
    pub parent_id: Option<u64>,
    pub tags: Option<Vec<String>>,
    pub session_id: Option<String>,
    pub node_id: Option<String>,
}

/// The optional tags, copied.
fn dup_opt_tags(t: &Option<Vec<String>>) -> (r: Option<Vec<String>>)
    ensures
        match (r, *t) {
            (Some(a), Some(b)) => views(a@) == views(b@),
            (None, None) => true,
            _ => false,
        },
{
    match t {
        Some(v) => Some(dup_strings(v)),
        None => None,
    }
}

impl ObsRecord {
    /// The record of `obs` stored under `seq`, with its origin as the JSON
    /// text `origin_json`; the source line is kept as a signed 32-bit
    /// integer.
    pub fn from_observation(obs: &Observation, seq: u64, origin_json: String) -> (r: ObsRecord)
        ensures
            r.seq == seq,
            r.timestamp_ns == obs.timestamp_ns,
            r.severity@ == obs.severity.spec_name(),
            r.kind_tag@ == obs.kind.spec_tag().spec_name(),
            r.origin_json == origin_json,
            r.kind_json@ == obs.kind_json@,
            r.data@ == obs.data@,
            match obs.source_location {
                Some(l) => r.source_file == Some(l.file) && r.source_line == Some(l.line as i32),
                None => r.source_file is None && r.source_line is None,
            },
            r.correlation_id == obs.correlation_id,
            r.parent_id == obs.parent_id,
            match (r.tags, obs.tags) {
                (Some(a), Some(b)) => views(a@) == views(b@),
                (None, None) => true,
                _ => false,
            },
            r.session_id == obs.session_id,
            r.node_id == obs.node_id,
    {
        let (source_file, source_line) = match &obs.source_location {
            Some(l) => (Some(l.file.clone()), Some(#[verifier::truncate] (l.line as i32))),
            None => (None, None),
        };
        ObsRecord {
            seq,
            timestamp_ns: obs.timestamp_ns,
            severity: obs.severity.to_string(),
            kind_tag: obs.kind.tag().to_string(),
            origin_json,
            kind_json: obs.kind_json.clone(),
            data: obs.data.clone(),
            source_file,
            source_line,
            correlation_id: dup_opt_string(&obs.correlation_id),
            parent_id: obs.parent_id,
            tags: dup_opt_tags(&obs.tags),
            session_id: dup_opt_string(&obs.session_id),
            node_id: dup_opt_string(&obs.node_id),
        }
    }
}

/// The severity a stored record names; a name that is no severity is
/// refused with `invalid severity: <name>`.
pub fn record_severity(name: &str) -> (r: Result<Severity, StoreError>)
    ensures
        match Severity::spec_parse(name@) {
            Some(v) => r == Ok::<Severity, StoreError>(v),
            None => r matches Err(StoreError::Db(m)) && m@ == "invalid severity: "@ + name@,
        },
{
    match Severity::parse_name(name) {
        Ok(v) => Ok(v),
        Err(_) => {
            let mut m = "invalid severity: ".to_owned();
            push_str(&mut m, name);
            Err(StoreError::Db(m))
        },
    }
}

/// The observation a record stands for, once its severity was read and its
/// origin and kind decoded: the sequence is its id, and a location is
/// restored only when both file and line were stored (the line read back
/// as unsigned, the function unknown).
pub fn into_observation(
    record: ObsRecord,
    severity: Severity,
    origin: Origin,
    kind: ObservationKind,
) -> (r: Observation)
    ensures
        r.id == record.seq,
        r.origin == origin,
        r.kind == kind,
        r.kind_json == record.kind_json,
        r.data == record.data,
        r.severity == severity,
        r.timestamp_ns == record.timestamp_ns,
        match (record.source_file, record.source_line) {
            (Some(f), Some(l)) => r.source_location == Some(
                SourceLocation { file: f, line: l as u32, function: None },
            ),
            _ => r.source_location is None,
        },
        r.correlation_id == record.correlation_id,
        r.parent_id == record.parent_id,
        r.tags == record.tags,
        r.session_id == record.session_id,
        r.node_id == record.node_id,
        r.service is None && r.source is None && r.source_instance is None,
        r.debug_session_id is None && r.checkpoint_id is None && r.error_hash is None,
{
    let source_location = match (record.source_file, record.source_line) {
        (Some(file), Some(line)) => Some(
            SourceLocation { file, line: #[verifier::truncate] (line as u32), function: None },
        ),
        _ => None,
    };
    Observation {
        id: record.seq,
        origin,
        kind,
        kind_json: record.kind_json,
        data: record.data,
        severity,
        source_location,
        service: None,
        source: None,
        source_instance: None,
        timestamp_ns: record.timestamp_ns,
        correlation_id: record.correlation_id,
        parent_id: record.parent_id,
        tags: record.tags,
        session_id: record.session_id,
        node_id: record.node_id,
        debug_session_id: None,
        checkpoint_id: None,
        error_hash: None,
    }
}

/// A memory export query cut to one page: the trimmed query followed by
/// `LIMIT $limit START $start`, the page bounds bound by those names.
pub fn export_page_query(query: &str) -> (r: String)
    ensures
        r@ == trim(query@) + " LIMIT $limit START $start"@,
{
    let mut out = trim_string(query);
    push_str(&mut out, " LIMIT $limit START $start");
    out
}

} // verus!
