//! Building blocks of parameterised queries: bound values, condition lists
//! and the severity allow-list.
use vstd::prelude::*;

use crate::text::{join, push_str, views};
use crate::types::kinds::Severity;

verus! {

/// A value bound to a named query parameter.
#[derive(Debug, Clone)]
pub enum BindValue {
    Int(u64),
    Text(String),
    TextList(Vec<String>),
}

/// The mathematical content of a bound value.
pub enum BindView {
    Int(u64),
    Text(Seq<char>),
    TextList(Seq<Seq<char>>),
}

impl View for BindValue {
    type V = BindView;

    open spec fn view(&self) -> BindView {
        match self {
            BindValue::Int(n) => BindView::Int(*n),
            BindValue::Text(s) => BindView::Text(s@),
            BindValue::TextList(v) => BindView::TextList(views(v@)),
        }
    }
}

/// Named bindings, by name text and bound content.
pub open spec fn binds_view(b: Seq<(String, BindValue)>) -> Seq<(Seq<char>, BindView)> {
    b.map_values(|p: (String, BindValue)| (p.0@, p.1@))
}

/// `c` as a one-element list when `b` holds, else nothing.
pub open spec fn opt_cond(b: bool, c: Seq<char>) -> Seq<Seq<char>> {
    if b {
        seq![c]
    } else {
        seq![]
    }
}

/// The binding `(name, v)` as a one-element list when `b` holds.
pub open spec fn opt_bind(b: bool, name: Seq<char>, v: BindView) -> Seq<(Seq<char>, BindView)> {
    if b {
        seq![(name, v)]
    } else {
        seq![]
    }
}

/// `WHERE` followed by the conditions joined with `AND`, after `lead`;
/// nothing when there is no condition.
pub open spec fn where_clause(lead: Seq<char>, conds: Seq<Seq<char>>) -> Seq<char> {
    if conds.len() == 0 {
        seq![]
    } else {
        lead + "WHERE "@ + join(conds, " AND "@)
    }
}

/// All severities from least to most severe.
pub open spec fn all_severities() -> Seq<Severity> {
    seq![Severity::Trace, Severity::Debug, Severity::Info, Severity::Warn, Severity::Error]
}

/// Names of the severities at least as severe as `min`, least severe first.
pub open spec fn severity_names_from(min: Severity) -> Seq<Seq<char>> {
    all_severities().subrange(min.spec_level() as int, 5).map_values(
        |s: Severity| s.spec_name(),
    )
}

/// A name is in the allow-list for `min` exactly when it names a severity
/// at least as severe as `min`.
pub proof fn lemma_severity_names_from(min: Severity, name: Seq<char>)
    ensures
        severity_names_from(min).contains(name) <==> exists|s: Severity|
            #![trigger s.spec_name()]
            s.spec_level() >= min.spec_level() && s.spec_name() == name,
{
    let l = severity_names_from(min);
    if l.contains(name) {
        let i = choose|i: int| 0 <= i < l.len() && l[i] == name;
        let s = all_severities()[min.spec_level() + i];
        assert(s.spec_level() == min.spec_level() + i) by {
            assert(all_severities()[0].spec_level() == 0);
            assert(all_severities()[1].spec_level() == 1);
            assert(all_severities()[2].spec_level() == 2);
            assert(all_severities()[3].spec_level() == 3);
            assert(all_severities()[4].spec_level() == 4);
        }
        assert(s.spec_name() == name);
    }
    if exists|s: Severity|
        #![trigger s.spec_name()]
        s.spec_level() >= min.spec_level() && s.spec_name() == name {
        let s = choose|s: Severity|
            #![trigger s.spec_name()]
            s.spec_level() >= min.spec_level() && s.spec_name() == name;
        let i = s.spec_level() - min.spec_level();
        assert(all_severities()[s.spec_level() as int] == s) by {
            match s {
                Severity::Trace => {},
                Severity::Debug => {},
                Severity::Info => {},
                Severity::Warn => {},
                Severity::Error => {},
            }
        }
        assert(l[i] == name);
    }
}

/// The names of the severities at least as severe as `min`, least severe
/// first.
pub fn severities_gte(min: Severity) -> (r: Vec<&'static str>)
    ensures
        r@.map_values(|s: &str| s@) == severity_names_from(min),
{
    let r = match min {
        Severity::Trace => vec!["trace", "debug", "info", "warn", "error"],
        Severity::Debug => vec!["debug", "info", "warn", "error"],
        Severity::Info => vec!["info", "warn", "error"],
        Severity::Warn => vec!["warn", "error"],
        Severity::Error => vec!["error"],
    };
    assert(r@.map_values(|s: &str| s@) =~= severity_names_from(min));
    r
}

/// The allow-list of `severities_gte` as owned strings.
pub fn severity_names_gte(min: Severity) -> (r: Vec<String>)
    ensures
        views(r@) == severity_names_from(min),
{
    let names = severities_gte(min);
    let mut r: Vec<String> = Vec::new();
    let mut i: usize = 0;
    while i < names.len()
        invariant
            i <= names.len(),
            r@.len() == i,
            views(r@) == names@.map_values(|s: &str| s@).take(i as int),
        decreases names.len() - i,
    {
        let ghost before = r@;
        let x = names[i].to_owned();
        r.push(x);
        proof {
            let m = names@.map_values(|s: &str| s@);
            assert(views(r@) =~= views(before).push(x@));
            assert(m.take(i + 1) =~= m.take(i as int).push(m[i as int]));
        }
        i += 1;
    }
    proof {
        assert(names@.map_values(|s: &str| s@).take(names@.len() as int) =~= names@.map_values(
            |s: &str| s@,
        ));
    }
    r
}

/// Appends a condition.
pub fn push_cond(conds: &mut Vec<String>, c: &str)
    ensures
        views(final(conds)@) == views(old(conds)@).push(c@),
{
    conds.push(c.to_owned());
    assert(views(conds@) =~= views(old(conds)@).push(c@));
}

/// Appends a binding.
pub fn push_bind(binds: &mut Vec<(String, BindValue)>, name: &str, value: BindValue)
    ensures
        binds_view(final(binds)@) == binds_view(old(binds)@).push((name@, value@)),
{
    binds.push((name.to_owned(), value));
    assert(binds_view(binds@) =~= binds_view(old(binds)@).push((name@, value@)));
}

/// A copy of a list of strings.
pub fn dup_strings(v: &Vec<String>) -> (r: Vec<String>)
    ensures
        views(r@) == views(v@),
{
    let mut r: Vec<String> = Vec::new();
    let mut i: usize = 0;
    while i < v.len()
        invariant
            i <= v.len(),
            r@.len() == i,
            views(r@) == views(v@.take(i as int)),
        decreases v.len() - i,
    {
        let ghost before = r@;
        let x = v[i].clone();
        r.push(x);
        proof {
            assert(views(r@) =~= views(before).push(x@));
            assert(views(v@.take(i + 1)) =~= views(v@.take(i as int)).push(v@[i as int]@));
        }
        i += 1;
    }
    proof {
        assert(v@.take(v@.len() as int) =~= v@);
    }
    r
}

/// `lead`, `WHERE` and the conditions joined by `AND`, appended to `out`
/// when there is a condition.
pub fn push_where(out: &mut String, lead: &str, conds: &Vec<String>)
    ensures
        final(out)@ == old(out)@ + where_clause(lead@, views(conds@)),
{
    if conds.len() > 0 {
        push_str(out, lead);
        push_str(out, "WHERE ");
        let joined = crate::text::join_strings(conds, " AND ");
        push_str(out, joined.as_str());
        assert(final(out)@ =~= old(out)@ + where_clause(lead@, views(conds@)));
    } else {
        assert(final(out)@ =~= old(out)@ + where_clause(lead@, views(conds@)));
    }
}

/// An optional list that is present and not empty.
pub open spec fn listed<T>(l: Option<Vec<T>>) -> bool {
    l is Some && l->0@.len() > 0
}

/// Text content of an optional string (empty when absent).
pub open spec fn text_of(s: Option<String>) -> Seq<char> {
    match s {
        Some(t) => t@,
        None => seq![],
    }
}

/// Contents of an optional string list (empty when absent).
pub open spec fn texts_of(l: Option<Vec<String>>) -> Seq<Seq<char>> {
    match l {
        Some(v) => views(v@),
        None => seq![],
    }
}

/// Appends an equality condition on an optional text criterion.
pub fn push_text_criterion(
    v: &Option<String>,
    cond: &str,
    name: &str,
    conds: &mut Vec<String>,
    binds: &mut Vec<(String, BindValue)>,
)
    ensures
        views(final(conds)@) == views(old(conds)@) + opt_cond(v is Some, cond@),
        binds_view(final(binds)@) == binds_view(old(binds)@) + opt_bind(
            v is Some,
            name@,
            BindView::Text(text_of(*v)),
        ),
{
    if let Some(x) = v {
        push_cond(conds, cond);
        push_bind(binds, name, BindValue::Text(x.clone()));
    }
    assert(views(conds@) =~= views(old(conds)@) + opt_cond(v is Some, cond@));
    assert(binds_view(binds@) =~= binds_view(old(binds)@) + opt_bind(
        v is Some,
        name@,
        BindView::Text(text_of(*v)),
    ));
}

/// Appends a containment condition on an optional string list.
pub fn push_list_criterion(
    v: &Option<Vec<String>>,
    cond: &str,
    name: &str,
    conds: &mut Vec<String>,
    binds: &mut Vec<(String, BindValue)>,
)
    ensures
        views(final(conds)@) == views(old(conds)@) + opt_cond(listed(*v), cond@),
        binds_view(final(binds)@) == binds_view(old(binds)@) + opt_bind(
            listed(*v),
            name@,
            BindView::TextList(texts_of(*v)),
        ),
{
    if let Some(x) = v {
        if x.len() > 0 {
            push_cond(conds, cond);
            push_bind(binds, name, BindValue::TextList(dup_strings(x)));
        }
    }
    assert(views(conds@) =~= views(old(conds)@) + opt_cond(listed(*v), cond@));
    assert(binds_view(binds@) =~= binds_view(old(binds)@) + opt_bind(
        listed(*v),
        name@,
        BindView::TextList(texts_of(*v)),
    ));
}

} // verus!
