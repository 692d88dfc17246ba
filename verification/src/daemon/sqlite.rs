//! The SQLite store's statements and row handling: the query a `Filter` is
//! answered with, the values an observation is stored as, and how rows and
//! counts become results.
use vstd::prelude::*;

use super::store::{max_id, StoreError};
use super::summary::{build_slice_summary, is_tally, kind_names, severity_names};
use super::types::{
    Checkpoint, ConnectionInfo, Filter, HealthStatus, Observation, ObservationKind,
    ObservationKindTag, Origin, OriginPattern, RuntimeSummary, Severity, SliceSummary,
    SourceLocation, StateSlice,
};
use crate::store::sql::{opt_cond, push_where, severities_gte, severity_names_from, where_clause};
use crate::text::{decimal, join, join_strings, push_char, push_decimal, push_str, views};

verus! {

/// A positional parameter of a statement.
#[derive(Debug, Clone)]
pub enum SqlParam {
    Text(String),
    Int(i64),
}

/// The content of a positional parameter.
pub enum ParamView {
    Text(Seq<char>),
    Int(i64),
}

impl View for SqlParam {
    type V = ParamView;

    open spec fn view(&self) -> ParamView {
        match self {
            SqlParam::Text(s) => ParamView::Text(s@),
            SqlParam::Int(n) => ParamView::Int(*n),
        }
    }
}

/// The contents of a parameter list.
pub open spec fn params_view(p: Seq<SqlParam>) -> Seq<ParamView> {
    p.map_values(|x: SqlParam| x@)
}

/// Severity stored as `s`; text that names no severity reads as `trace`.
pub open spec fn spec_severity_from_str(s: Seq<char>) -> Severity {
    match Severity::spec_parse(s) {
        Some(v) => v,
        None => Severity::Trace,
    }
}

/// Reads a stored severity name; unknown text reads as `trace`.
pub fn severity_from_str(s: &str) -> (r: Severity)
    ensures
        r == spec_severity_from_str(s@),
{
    match Severity::parse_name(s) {
        Ok(v) => v,
        Err(_) => Severity::Trace,
    }
}

/// Positional placeholder number `k`: `?k`.
pub open spec fn placeholder(k: nat) -> Seq<char> {
    "?"@ + decimal(k)
}

/// `n` placeholders numbered from `start + 1`.
pub open spec fn placeholders(start: nat, n: nat) -> Seq<Seq<char>> {
    Seq::new(n, |i: int| placeholder((start + i + 1) as nat))
}

/// `s` without its `"` characters.
pub open spec fn without_quotes(s: Seq<char>) -> Seq<char>
    decreases s.len(),
{
    if s.len() == 0 {
        seq![]
    } else if s.last() == '"' {
        without_quotes(s.drop_last())
    } else {
        without_quotes(s.drop_last()).push(s.last())
    }
}

/// The `LIKE` predicate over the stored origin JSON that a pattern becomes;
/// names, tabs and serials are matched with their `"` removed.
pub open spec fn origin_like(p: OriginPattern) -> Seq<char> {
    match p {
        OriginPattern::AnyApplication => "origin_json LIKE '%\"type\":\"application\"%'"@,
        OriginPattern::ApplicationNamed(n) => "origin_json LIKE '%\"name\":\""@ + without_quotes(n@)
            + "\"%'"@,
        OriginPattern::AnyBrowser => "origin_json LIKE '%\"type\":\"browser\"%'"@,
        OriginPattern::BrowserTab(t) => "origin_json LIKE '%\"tab_id\":\""@ + without_quotes(t@)
            + "\"%'"@,
        OriginPattern::AnyDevice => "origin_json LIKE '%\"type\":\"device\"%'"@,
        OriginPattern::DeviceSerial(s) => "origin_json LIKE '%\"serial\":\""@ + without_quotes(s@)
            + "\"%'"@,
    }
}

/// Number of severity parameters of the query for `f`.
pub open spec fn severity_param_count(f: Filter) -> nat {
    match f.severity_min {
        Some(m) => severity_names_from(m).len(),
        None => 0,
    }
}

/// The filter lists at least one kind.
pub open spec fn lists_kinds(f: Filter) -> bool {
    f.kinds is Some && f.kinds->0@.len() > 0
}

/// Number of kind parameters of the query for `f`.
pub open spec fn kind_param_count(f: Filter) -> nat {
    if lists_kinds(f) {
        f.kinds->0@.len()
    } else {
        0
    }
}

/// Number of parameters before the text pattern.
pub open spec fn params_before_text(f: Filter) -> nat {
    severity_param_count(f) + kind_param_count(f) + if f.since is Some {
        1nat
    } else {
        0nat
    }
}

/// The filter has an origin list with at least one pattern.
pub open spec fn lists_origins(f: Filter) -> bool {
    f.origins is Some && f.origins->0@.len() > 0
}

/// Conditions of the query for `f`, in order: severity allow-list, kinds,
/// id lower bound, text pattern, then any of the origin patterns.
pub open spec fn sqlite_conditions(f: Filter) -> Seq<Seq<char>> {
    opt_cond(
        f.severity_min is Some,
        "severity IN ("@ + join(placeholders(0, severity_param_count(f)), ","@) + ")"@,
    ) + opt_cond(
        lists_kinds(f),
        "kind_tag IN ("@ + join(placeholders(severity_param_count(f), kind_param_count(f)), ","@)
            + ")"@,
    ) + opt_cond(
        f.since is Some,
        "id > "@ + placeholder(severity_param_count(f) + kind_param_count(f) + 1),
    ) + opt_cond(f.text_match is Some, "data LIKE "@ + placeholder(params_before_text(f) + 1))
        + opt_cond(
        lists_origins(f),
        "("@ + join(f.origins->0@.map_values(|p: OriginPattern| origin_like(p)), " OR "@) + ")"@,
    )
}

/// The since checkpoint as the signed integer SQLite stores.
pub open spec fn since_param(f: Filter) -> i64 {
    match f.since {
        Some(cp) => cp.0 as i64,
        None => 0,
    }
}

/// Parameters of the query for `f`, numbered in this order: allowed
/// severity names, kind names, the since id, and `%text%`.
pub open spec fn sqlite_params(f: Filter) -> Seq<ParamView> {
    (match f.severity_min {
        Some(m) => severity_names_from(m).map_values(|s: Seq<char>| ParamView::Text(s)),
        None => seq![],
    }) + (if lists_kinds(f) {
        f.kinds->0@.map_values(|k: ObservationKindTag| ParamView::Text(k.spec_name()))
    } else {
        seq![]
    }) + (if f.since is Some {
        seq![ParamView::Int(since_param(f))]
    } else {
        seq![]
    }) + match f.text_match {
        Some(t) => seq![ParamView::Text("%"@ + t@ + "%"@)],
        None => seq![],
    }
}

/// The columns read back, and the table.
pub open spec fn select_head() -> Seq<char> {
    "SELECT id, timestamp_ns, severity, kind_tag, origin_json, kind_json, data, source_file, source_line\n             FROM observations "@
}

/// The statement for `f`: matching rows in id order, at most `limit`.
pub open spec fn sqlite_query_sql(f: Filter) -> Seq<char> {
    select_head() + where_clause(seq![], sqlite_conditions(f)) + " ORDER BY id ASC "@
        + limit_text(f.limit)
}

/// `n` placeholders numbered from `start + 1`, joined by commas.
fn placeholder_list(start: usize, n: usize) -> (r: String)
    requires
        start + n < usize::MAX,
    ensures
        r@ == join(placeholders(start as nat, n as nat), ","@),
{
    let mut items: Vec<String> = Vec::new();
    let mut i: usize = 0;
    while i < n
        invariant
            i <= n,
            start + n < usize::MAX,
            views(items@) == placeholders(start as nat, i as nat),
        decreases n - i,
    {
        let ghost before = items@;
        let mut p = "?".to_owned();
        push_decimal(&mut p, (start + i + 1) as u64);
        assert(p@ =~= placeholder((start + i + 1) as nat));
        items.push(p);
        proof {
            assert(views(items@) =~= views(before).push(p@));
            assert(placeholders(start as nat, (i + 1) as nat) =~= placeholders(
                start as nat,
                i as nat,
            ).push(placeholder((start + i + 1) as nat)));
        }
        i += 1;
    }
    join_strings(&items, ",")
}

/// `s` with its `"` characters removed.
fn strip_quotes(s: &str) -> (r: String)
    ensures
        r@ == without_quotes(s@),
{
    let cs = crate::text::chars_of(s);
    let mut r = String::new();
    let mut i: usize = 0;
    while i < cs.len()
        invariant
            i <= cs.len(),
            cs@ == s@,
            r@ == without_quotes(cs@.take(i as int)),
        decreases cs.len() - i,
    {
        proof {
            assert(cs@.take(i + 1).drop_last() =~= cs@.take(i as int));
        }
        if cs[i] != '"' {
            push_char(&mut r, cs[i]);
        }
        i += 1;
    }
    proof {
        assert(cs@.take(cs@.len() as int) =~= cs@);
    }
    r
}

/// The `LIKE` predicate for one origin pattern.
pub fn origin_like_clause(pat: &OriginPattern) -> (r: String)
    ensures
        r@ == origin_like(*pat),
{
    match pat {
        OriginPattern::AnyApplication => "origin_json LIKE '%\"type\":\"application\"%'".to_owned(),
        OriginPattern::ApplicationNamed(name) => {
            let mut c = "origin_json LIKE '%\"name\":\"".to_owned();
            let v = strip_quotes(name.as_str());
            push_str(&mut c, v.as_str());
            push_str(&mut c, "\"%'");
            c
        },
        OriginPattern::AnyBrowser => "origin_json LIKE '%\"type\":\"browser\"%'".to_owned(),
        OriginPattern::BrowserTab(tab_id) => {
            let mut c = "origin_json LIKE '%\"tab_id\":\"".to_owned();
            let v = strip_quotes(tab_id.as_str());
            push_str(&mut c, v.as_str());
            push_str(&mut c, "\"%'");
            c
        },
        OriginPattern::AnyDevice => "origin_json LIKE '%\"type\":\"device\"%'".to_owned(),
        OriginPattern::DeviceSerial(serial) => {
            let mut c = "origin_json LIKE '%\"serial\":\"".to_owned();
            let v = strip_quotes(serial.as_str());
            push_str(&mut c, v.as_str());
            push_str(&mut c, "\"%'");
            c
        },
    }
}

/// The `LIKE` predicates of a pattern list, in order.
fn origin_like_clauses(ps: &Vec<OriginPattern>) -> (r: Vec<String>)
    ensures
        views(r@) == ps@.map_values(|p: OriginPattern| origin_like(p)),
{
    let mut r: Vec<String> = Vec::new();
    let mut i: usize = 0;
    while i < ps.len()
        invariant
            i <= ps.len(),
            views(r@) == ps@.take(i as int).map_values(|p: OriginPattern| origin_like(p)),
        decreases ps.len() - i,
    {
        let ghost before = r@;
        let c = origin_like_clause(&ps[i]);
        r.push(c);
        proof {
            assert(views(r@) =~= views(before).push(c@));
            assert(ps@.take(i + 1).map_values(|p: OriginPattern| origin_like(p))
                =~= ps@.take(i as int).map_values(|p: OriginPattern| origin_like(p)).push(
                origin_like(ps@[i as int]),
            ));
        }
        i += 1;
    }
    proof {
        assert(ps@.take(ps@.len() as int) =~= ps@);
    }
    r
}

/// Appends a text parameter.
fn push_text_param(params: &mut Vec<SqlParam>, s: String)
    ensures
        params_view(final(params)@) == params_view(old(params)@).push(ParamView::Text(s@)),
{
    params.push(SqlParam::Text(s));
    assert(params_view(params@) =~= params_view(old(params)@).push(ParamView::Text(s@)));
}

/// The severity condition and parameters.
fn push_severity_condition(
    filter: &Filter,
    conds: &mut Vec<String>,
    params: &mut Vec<SqlParam>,
)
    requires
        old(conds)@.len() == 0,
        old(params)@.len() == 0,
    ensures
        views(final(conds)@) == opt_cond(
            filter.severity_min is Some,
            "severity IN ("@ + join(placeholders(0, severity_param_count(*filter)), ","@) + ")"@,
        ),
        params_view(final(params)@) == match filter.severity_min {
            Some(m) => severity_names_from(m).map_values(|s: Seq<char>| ParamView::Text(s)),
            None => seq![],
        },
        final(params)@.len() == severity_param_count(*filter),
        severity_param_count(*filter) <= 5,
{
    if let Some(min) = filter.severity_min {
        let allowed = severities_gte(min);
        assert(allowed@.len() == severity_names_from(min).len());
        let list = placeholder_list(0, allowed.len());
        let mut c = "severity IN (".to_owned();
        push_str(&mut c, list.as_str());
        push_str(&mut c, ")");
        conds.push(c);
        let mut i: usize = 0;
        while i < allowed.len()
            invariant
                i <= allowed.len(),
                allowed@.map_values(|s: &str| s@) == severity_names_from(min),
                params_view(params@) == severity_names_from(min).take(i as int).map_values(
                    |s: Seq<char>| ParamView::Text(s),
                ),
            decreases allowed.len() - i,
        {
            let ghost before = params@;
            push_text_param(params, allowed[i].to_owned());
            proof {
                let m = allowed@.map_values(|s: &str| s@);
                assert(m[i as int] == allowed@[i as int]@);
                assert(severity_names_from(min).take(i + 1).map_values(
                    |s: Seq<char>| ParamView::Text(s),
                ) =~= severity_names_from(min).take(i as int).map_values(
                    |s: Seq<char>| ParamView::Text(s),
                ).push(ParamView::Text(severity_names_from(min)[i as int])));
            }
            i += 1;
        }
        proof {
            assert(severity_names_from(min).take(severity_names_from(min).len() as int)
                =~= severity_names_from(min));
            assert(views(conds@) =~= seq![c@]);
        }
    } else {
        assert(views(conds@) =~= seq![]);
        assert(params_view(params@) =~= seq![]);
    }
}

/// The kind condition and parameters, numbered after `before` parameters.
fn push_kind_condition(
    filter: &Filter,
    before: usize,
    conds: &mut Vec<String>,
    params: &mut Vec<SqlParam>,
)
    requires
        before == old(params)@.len(),
        before <= 5,
        filter.kinds matches Some(k) ==> k@.len() < usize::MAX - 8,
    ensures
        views(final(conds)@) == views(old(conds)@) + opt_cond(
            lists_kinds(*filter),
            "kind_tag IN ("@ + join(placeholders(before as nat, kind_param_count(*filter)), ","@)
                + ")"@,
        ),
        params_view(final(params)@) == params_view(old(params)@) + (if lists_kinds(*filter) {
            filter.kinds->0@.map_values(|k: ObservationKindTag| ParamView::Text(k.spec_name()))
        } else {
            seq![]
        }),
        final(params)@.len() == old(params)@.len() + kind_param_count(*filter),
{
    let ghost p0 = params_view(params@);
    if let Some(kinds) = &filter.kinds {
        if kinds.len() > 0 {
            let list = placeholder_list(before, kinds.len());
            let mut c = "kind_tag IN (".to_owned();
            push_str(&mut c, list.as_str());
            push_str(&mut c, ")");
            let ghost cs = conds@;
            conds.push(c);
            assert(views(conds@) =~= views(cs).push(c@));
            let mut i: usize = 0;
            while i < kinds.len()
                invariant
                    i <= kinds.len(),
                    params_view(params@) == p0 + kinds@.take(i as int).map_values(
                        |k: ObservationKindTag| ParamView::Text(k.spec_name()),
                    ),
                decreases kinds.len() - i,
            {
                push_text_param(params, kinds[i].to_string());
                proof {
                    assert(kinds@.take(i + 1).map_values(
                        |k: ObservationKindTag| ParamView::Text(k.spec_name()),
                    ) =~= kinds@.take(i as int).map_values(
                        |k: ObservationKindTag| ParamView::Text(k.spec_name()),
                    ).push(ParamView::Text(kinds@[i as int].spec_name())));
                }
                i += 1;
            }
            proof {
                assert(kinds@.take(kinds@.len() as int) =~= kinds@);
            }
            return ;
        }
    }
    assert(views(conds@) =~= views(old(conds)@) + seq![]);
    assert(params_view(params@) =~= p0 + seq![]);
}

/// The limit clause: `LIMIT n`, or nothing.
pub open spec fn limit_text(limit: Option<usize>) -> Seq<char> {
    match limit {
        Some(n) => "LIMIT "@ + decimal(n as nat),
        None => seq![],
    }
}

/// The select statement around a condition list.
fn assemble_sql(conds: &Vec<String>, limit: Option<usize>) -> (r: String)
    ensures
        r@ == select_head() + where_clause(seq![], views(conds@)) + " ORDER BY id ASC "@
            + limit_text(limit),
{
    let mut sql = "SELECT id, timestamp_ns, severity, kind_tag, origin_json, kind_json, data, source_file, source_line\n             FROM observations ".to_owned();
    proof {
        reveal_strlit("");
    }
    push_where(&mut sql, "", conds);
    push_str(&mut sql, " ORDER BY id ASC ");
    if let Some(n) = limit {
        push_str(&mut sql, "LIMIT ");
        push_decimal(&mut sql, n as u64);
    }
    assert(sql@ =~= select_head() + where_clause(seq![], views(conds@)) + " ORDER BY id ASC "@
        + limit_text(limit));
    sql
}

/// The statement and positional parameters that select the rows `filter`
/// admits.
#[verifier::rlimit(40)]
pub fn build_query_sql(filter: &Filter) -> (r: (String, Vec<SqlParam>))
    requires
        filter.kinds matches Some(k) ==> k@.len() < usize::MAX - 8,
    ensures
        r.0@ == sqlite_query_sql(*filter),
        params_view(r.1@) == sqlite_params(*filter),
{
    let ghost f = *filter;
    let mut conds: Vec<String> = Vec::new();
    let mut params: Vec<SqlParam> = Vec::new();
    push_severity_condition(filter, &mut conds, &mut params);
    proof {
        if f.severity_min is Some {
            assert(severity_names_from(f.severity_min->0).len() <= 5);
        }
    }
    let n_sev = params.len();
    push_kind_condition(filter, n_sev, &mut conds, &mut params);
    let ghost c2 = views(conds@);
    let ghost p2 = params_view(params@);
    assert(params@.len() == severity_param_count(f) + kind_param_count(f));
    if let Some(cp) = &filter.since {
        let mut c = "id > ".to_owned();
        push_str(&mut c, "?");
        push_decimal(&mut c, (params.len() + 1) as u64);
        assert(c@ =~= "id > "@ + placeholder(severity_param_count(f) + kind_param_count(f) + 1));
        crate::store::sql::push_cond(&mut conds, c.as_str());
        params.push(SqlParam::Int(#[verifier::truncate] (cp.0 as i64)));
        assert(params_view(params@) =~= p2.push(ParamView::Int(since_param(f))));
    }
    let ghost c3 = views(conds@);
    assert(c3 =~= c2 + opt_cond(
        f.since is Some,
        "id > "@ + placeholder(severity_param_count(f) + kind_param_count(f) + 1),
    ));
    let ghost p3 = params_view(params@);
    assert(params@.len() == params_before_text(f));
    if let Some(text) = &filter.text_match {
        let mut c = "data LIKE ".to_owned();
        push_str(&mut c, "?");
        push_decimal(&mut c, (params.len() + 1) as u64);
        assert(c@ =~= "data LIKE "@ + placeholder(params_before_text(f) + 1));
        crate::store::sql::push_cond(&mut conds, c.as_str());
        let mut pat = "%".to_owned();
        push_str(&mut pat, text.as_str());
        push_str(&mut pat, "%");
        push_text_param(&mut params, pat);
    }
    let ghost c4 = views(conds@);
    assert(c4 =~= c3 + opt_cond(f.text_match is Some, "data LIKE "@ + placeholder(params_before_text(f) + 1)));
    if let Some(origins) = &filter.origins {
        let clauses = origin_like_clauses(origins);
        if clauses.len() > 0 {
            let joined = join_strings(&clauses, " OR ");
            let mut c = "(".to_owned();
            push_str(&mut c, joined.as_str());
            push_str(&mut c, ")");
            crate::store::sql::push_cond(&mut conds, c.as_str());
        }
    }
    assert(views(conds@) =~= sqlite_conditions(f));
    assert(params_view(params@) =~= sqlite_params(f));
    let sql = assemble_sql(&conds, filter.limit);
    (sql, params)
}

/// The columns an observation is stored with besides its JSON texts.
pub struct InsertValues {
    pub timestamp_ns: i64,
    pub severity: String,
    pub kind_tag: String,
    pub source_file: Option<String>,
    pub source_line: Option<i32>,
}

/// The stored columns of `obs`: timestamp and source line as SQLite's
/// signed integers, severity and kind tag by name.
pub fn insert_values(obs: &Observation) -> (r: InsertValues)
    ensures
        r.timestamp_ns == obs.timestamp_ns as i64,
        r.severity@ == obs.severity.spec_name(),
        r.kind_tag@ == obs.kind.spec_tag().spec_name(),
        match obs.source_location {
            Some(loc) => r.source_file matches Some(f) && f@ == loc.file@ && r.source_line
                == Some(loc.line as i32),
            None => r.source_file is None && r.source_line is None,
        },
{
    let (source_file, source_line) = match &obs.source_location {
        Some(loc) => (Some(loc.file.clone()), Some(#[verifier::truncate] (loc.line as i32))),
        None => (None, None),
    };
    InsertValues {
        timestamp_ns: #[verifier::truncate] (obs.timestamp_ns as i64),
        severity: obs.severity.to_string(),
        kind_tag: obs.kind.tag().to_string(),
        source_file,
        source_line,
    }
}

/// An observation from a stored row whose JSON columns were decoded into
/// `origin`, `kind` and `data`: the severity is read leniently, and a
/// stored source file gives a location on the stored line (0 when none).
pub fn observation_from_row(
    id: i64,
    timestamp_ns: i64,
    severity: &str,
    origin: Origin,
    kind: ObservationKind,
    data: String,
    source_file: Option<String>,
    source_line: Option<i32>,
) -> (r: Observation)
    ensures
        r.id == id as u64,
        r.timestamp_ns == timestamp_ns as u64,
        r.severity == spec_severity_from_str(severity@),
        r.origin == origin,
        r.kind == kind,
        r.data == data,
        match source_file {
            Some(file) => r.source_location matches Some(loc) && loc.file == file && loc.line == (
            match source_line {
                Some(l) => l as u32,
                None => 0u32,
            }) && loc.function is None,
            None => r.source_location is None,
        },
{
    let source_location = match source_file {
        Some(file) => {
            let line: u32 = match source_line {
                Some(l) => #[verifier::truncate] (l as u32),
                None => 0,
            };
            Some(SourceLocation { file, line, function: None })
        },
        None => None,
    };
    Observation {
        id: #[verifier::truncate] (id as u64),
        origin,
        kind,
        data,
        severity: severity_from_str(severity),
        source_location,
        timestamp_ns: #[verifier::truncate] (timestamp_ns as u64),
    }
}

/// The checkpoint an empty result resumes from: the filter's `since`, or
/// else the largest stored id.
pub fn query_baseline(since: Option<Checkpoint>, stored_max: i64) -> (r: u64)
    ensures
        r == match since {
            Some(cp) => cp.0,
            None => stored_max as u64,
        },
{
    match since {
        Some(cp) => cp.0,
        None => #[verifier::truncate] (stored_max as u64),
    }
}

/// Largest id of a list of observations, or 0.
fn largest_id(obs: &Vec<Observation>) -> (r: u64)
    ensures
        r == max_id(obs@),
{
    let mut m: u64 = 0;
    let mut i: usize = 0;
    while i < obs.len()
        invariant
            i <= obs.len(),
            m == max_id(obs@.take(i as int)),
        decreases obs.len() - i,
    {
        proof {
            assert(obs@.take(i + 1).drop_last() =~= obs@.take(i as int));
        }
        if obs[i].id > m {
            m = obs[i].id;
        }
        i += 1;
    }
    proof {
        assert(obs@.take(obs@.len() as int) =~= obs@);
    }
    m
}

/// The result of a query from its rows in id order: they resume from their
/// largest id, or from `baseline` when none is positive; with their counts.
pub fn finish_query(observations: Vec<Observation>, baseline: u64) -> (r: StateSlice)
    ensures
        r.observations@ == observations@,
        r.checkpoint.0 == if max_id(observations@) > 0 {
            max_id(observations@)
        } else {
            baseline
        },
        r.summary.total == observations@.len(),
        is_tally(r.summary.counts_by_kind@, kind_names(observations@)),
        is_tally(r.summary.counts_by_severity@, severity_names(observations@)),
{
    let m = largest_id(&observations);
    let summary = build_slice_summary(&observations);
    let checkpoint = if m > 0 {
        m
    } else {
        baseline
    };
    StateSlice { observations, checkpoint: Checkpoint(checkpoint), summary }
}

/// Health from the known sources and recent errors: no sources, errors
/// detected, or healthy.
pub open spec fn spec_health(no_connections: bool, recent_errors: u64) -> HealthStatus {
    if no_connections {
        HealthStatus::NoSources
    } else if recent_errors > 0 {
        HealthStatus::ErrorsDetected
    } else {
        HealthStatus::Healthy
    }
}

/// The runtime summary from the stored counts: total rows, errors in the
/// last minute, distinct kind tags, and the known sources.
pub fn runtime_summary(
    total: i64,
    recent_errors: i64,
    channels: Vec<String>,
    connections: Vec<ConnectionInfo>,
) -> (r: RuntimeSummary)
    ensures
        r.observation_count == total as u64,
        r.error_count_last_60s == recent_errors as u64,
        r.active_channels == channels,
        r.connections == connections,
        r.health == spec_health(connections@.len() == 0, recent_errors as u64),
{
    let error_count: u64 = #[verifier::truncate] (recent_errors as u64);
    let health = if connections.len() == 0 {
        HealthStatus::NoSources
    } else if error_count > 0 {
        HealthStatus::ErrorsDetected
    } else {
        HealthStatus::Healthy
    };
    RuntimeSummary {
        observation_count: #[verifier::truncate] (total as u64),
        error_count_last_60s: error_count,
        active_channels: channels,
        connections,
        health,
    }
}

/// The checkpoint from the largest stored id.
pub fn checkpoint_from_max(stored_max: i64) -> (r: Checkpoint)
    ensures
        r.0 == stored_max as u64,
{
    Checkpoint(#[verifier::truncate] (stored_max as u64))
}

/// The oldest id from the smallest stored id, when there is one.
pub fn oldest_from_min(stored_min: Option<i64>) -> (r: Option<u64>)
    ensures
        r == match stored_min {
            Some(m) => Some(m as u64),
            None => None::<u64>,
        },
{
    match stored_min {
        Some(m) => Some(#[verifier::truncate] (m as u64)),
        None => None,
    }
}

/// The statement that frees `pages` pages.
pub fn incremental_vacuum_sql(pages: u32) -> (r: String)
    ensures
        r@ == "PRAGMA incremental_vacuum("@ + decimal(pages as nat) + ")"@,
{
    let mut s = "PRAGMA incremental_vacuum(".to_owned();
    push_decimal(&mut s, pages as u64);
    push_str(&mut s, ")");
    s
}

} // verus!
