//! Origin patterns and observation filters.
use vstd::prelude::*;

use super::kinds::{Checkpoint, ObservationKindTag, Severity};
use super::observation::{
    search_text, observation_search_text, AppName, DeviceSerial, Observation,
    Origin, TabId,
};
use crate::text::{
    chars_eq, chars_of, contains, contains_chars, join, lower, lower_chars, seq_eq, slice_to_vec,
    str_eq, string_of, trim, trim_bounds, trim_chars, views,
};

verus! {

/// `s` holds no `:`.
pub open spec fn no_colon(s: Seq<char>) -> bool {
    forall|i: int| 0 <= i < s.len() ==> s[i] != ':'
}

/// `i` is the position of the first `:` in `s`.
pub open spec fn first_colon(s: Seq<char>, i: int) -> bool {
    0 <= i < s.len() && s[i] == ':' && forall|j: int| 0 <= j < i ==> s[j] != ':'
}

/// A pattern over observation origins.
#[derive(Debug, Clone)]
pub enum OriginPattern {
    AnyApplication,
    ApplicationNamed(AppName),
    AnyBrowser,
    BrowserTab(TabId),
    AnyDevice,
    DeviceSerial(DeviceSerial),
}

/// `r` is the pattern that the text `s` denotes: `app`, `browser` and
/// `device` alone select every origin of that class; `app:<name>`,
/// `browser:<tab>` and `device:<serial>` (split at the first `:`) select
/// one origin (so `app:*` names the application `*`); any other text names
/// an application.
pub open spec fn parses_to(s: Seq<char>, r: OriginPattern) -> bool {
    &&& no_colon(s) ==> if s == "app"@ {
        r is AnyApplication
    } else if s == "browser"@ {
        r is AnyBrowser
    } else if s == "device"@ {
        r is AnyDevice
    } else {
        r matches OriginPattern::ApplicationNamed(n) && n@ == s
    }
    &&& forall|i: int|
        #![trigger first_colon(s, i)]
        first_colon(s, i) ==> {
            let p = s.take(i);
            let rest = s.skip(i + 1);
            if p == "app"@ {
                r matches OriginPattern::ApplicationNamed(n) && n@ == rest
            } else if p == "browser"@ {
                r matches OriginPattern::BrowserTab(t) && t@ == rest
            } else if p == "device"@ {
                r matches OriginPattern::DeviceSerial(d) && d@ == rest
            } else {
                r matches OriginPattern::ApplicationNamed(n) && n@ == s
            }
        }
}

impl OriginPattern {
    /// Parses a pattern; every text denotes some pattern.
    pub fn parse(s: &str) -> (r: OriginPattern)
        ensures
            parses_to(s@, r),
    {
        let v = chars_of(s);
        let mut i: usize = 0;
        while i < v.len() && v[i] != ':'
            invariant
                i <= v.len(),
                v@ == s@,
                forall|j: int| 0 <= j < i ==> v@[j] != ':',
            decreases v.len() - i,
        {
            i += 1;
        }
        if i == v.len() {
            if str_eq(s, "app") {
                OriginPattern::AnyApplication
            } else if str_eq(s, "browser") {
                OriginPattern::AnyBrowser
            } else if str_eq(s, "device") {
                OriginPattern::AnyDevice
            } else {
                OriginPattern::ApplicationNamed(AppName::new(s))
            }
        } else {
            proof {
                assert(first_colon(s@, i as int));
                assert forall|k: int| first_colon(s@, k) implies k == i by {
                    if k < i {
                        assert(v@[k] != ':');
                    }
                    if k > i {
                        assert(s@[i as int] == ':');
                    }
                }
            }
            let head = slice_to_vec(v.as_slice(), 0, i);
            let tail = slice_to_vec(v.as_slice(), i + 1, v.len());
            let rest = string_of(tail.as_slice());
            proof {
                assert(head@ =~= s@.take(i as int));
                assert(tail@ =~= s@.skip(i + 1));
            }
            if chars_eq(head.as_slice(), "app") {
                OriginPattern::ApplicationNamed(AppName::new(rest.as_str()))
            } else if chars_eq(head.as_slice(), "browser") {
                OriginPattern::BrowserTab(TabId::new(rest.as_str()))
            } else if chars_eq(head.as_slice(), "device") {
                OriginPattern::DeviceSerial(DeviceSerial::new(rest.as_str()))
            } else {
                OriginPattern::ApplicationNamed(AppName::new(s))
            }
        }
    }

    /// The pattern selects `origin`: a class pattern selects every origin of
    /// its class, a named pattern the origins of its class with that name,
    /// tab or serial.
    pub open spec fn spec_matches(self, origin: Origin) -> bool {
        match (self, origin) {
            (OriginPattern::AnyApplication, Origin::Application { .. }) => true,
            (OriginPattern::ApplicationNamed(name), Origin::Application { name: n }) => n@
                == name@,
            (OriginPattern::AnyBrowser, Origin::Browser { .. }) => true,
            (OriginPattern::BrowserTab(tab), Origin::Browser { tab_id, .. }) => tab_id@ == tab@,
            (OriginPattern::AnyDevice, Origin::Device { .. }) => true,
            (OriginPattern::DeviceSerial(serial), Origin::Device { serial: s, .. }) => s@
                == serial@,
            _ => false,
        }
    }

    /// Whether the pattern selects `origin`.
    pub fn matches(&self, origin: &Origin) -> (r: bool)
        ensures
            r == self.spec_matches(*origin),
    {
        match (self, origin) {
            (OriginPattern::AnyApplication, Origin::Application { .. }) => true,
            (OriginPattern::ApplicationNamed(name), Origin::Application { name: n }) => str_eq(
                n.as_str(),
                name.as_str(),
            ),
            (OriginPattern::AnyBrowser, Origin::Browser { .. }) => true,
            (OriginPattern::BrowserTab(tab), Origin::Browser { tab_id, .. }) => str_eq(
                tab_id.as_str(),
                tab.as_str(),
            ),
            (OriginPattern::AnyDevice, Origin::Device { .. }) => true,
            (OriginPattern::DeviceSerial(serial), Origin::Device { serial: s, .. }) => str_eq(
                s.as_str(),
                serial.as_str(),
            ),
            _ => false,
        }
    }
}

/// Pieces of `s` between commas, in order; `n` commas give `n + 1` pieces.
pub open spec fn split_commas(s: Seq<char>) -> Seq<Seq<char>>
    decreases s.len(),
{
    if s.len() == 0 {
        seq![seq![]]
    } else {
        let prev = split_commas(s.drop_last());
        if s.last() == ',' {
            prev.push(seq![])
        } else {
            prev.update(prev.len() - 1, prev.last().push(s.last()))
        }
    }
}

proof fn lemma_split_commas_nonempty(s: Seq<char>)
    ensures
        split_commas(s).len() >= 1,
    decreases s.len(),
{
    if s.len() > 0 {
        lemma_split_commas_nonempty(s.drop_last());
    }
}

/// The views of a list of character vectors.
pub open spec fn char_vec_views(v: Seq<Vec<char>>) -> Seq<Seq<char>> {
    v.map_values(|x: Vec<char>| x@)
}

/// The comma-separated pieces of `s`.
pub fn split_on_commas(s: &str) -> (r: Vec<Vec<char>>)
    ensures
        char_vec_views(r@) == split_commas(s@),
{
    let v = chars_of(s);
    let mut out: Vec<Vec<char>> = Vec::new();
    let mut cur: Vec<char> = Vec::new();
    let mut i: usize = 0;
    proof {
        assert(v@.take(0) =~= Seq::<char>::empty());
    }
    while i < v.len()
        invariant
            i <= v.len(),
            v@ == s@,
            char_vec_views(out@).push(cur@) == split_commas(v@.take(i as int)),
        decreases v.len() - i,
    {
        let c = v[i];
        proof {
            assert(v@.take(i + 1).drop_last() =~= v@.take(i as int));
            lemma_split_commas_nonempty(v@.take(i as int));
        }
        if c == ',' {
            let done = cur;
            out.push(done);
            cur = Vec::new();
            proof {
                assert(char_vec_views(out@).push(cur@) =~= split_commas(v@.take(i + 1)));
            }
        } else {
            cur.push(c);
            proof {
                assert(char_vec_views(out@).push(cur@) =~= split_commas(v@.take(i + 1)));
            }
        }
        i += 1;
    }
    out.push(cur);
    proof {
        assert(v@.take(v@.len() as int) =~= v@);
        assert(char_vec_views(out@) =~= split_commas(s@));
    }
    out
}

/// Kinds named by the pieces, in order, skipping pieces that name none.
pub open spec fn kinds_named(parts: Seq<Seq<char>>) -> Seq<ObservationKindTag>
    decreases parts.len(),
{
    if parts.len() == 0 {
        seq![]
    } else {
        let prev = kinds_named(parts.drop_last());
        match ObservationKindTag::spec_parse(trim(parts.last())) {
            Some(k) => prev.push(k),
            None => prev,
        }
    }
}

/// Trimmed pieces that are not empty, in order.
pub open spec fn nonempty_trimmed(parts: Seq<Seq<char>>) -> Seq<Seq<char>>
    decreases parts.len(),
{
    if parts.len() == 0 {
        seq![]
    } else {
        let prev = nonempty_trimmed(parts.drop_last());
        if trim(parts.last()).len() > 0 {
            prev.push(trim(parts.last()))
        } else {
            prev
        }
    }
}

fn kinds_from_pieces(parts: &Vec<Vec<char>>) -> (r: Vec<ObservationKindTag>)
    ensures
        r@ == kinds_named(char_vec_views(parts@)),
{
    let mut out: Vec<ObservationKindTag> = Vec::new();
    let mut i: usize = 0;
    while i < parts.len()
        invariant
            i <= parts.len(),
            out@ == kinds_named(char_vec_views(parts@).take(i as int)),
        decreases parts.len() - i,
    {
        let (a, b) = trim_bounds(parts[i].as_slice());
        let piece = slice_to_vec(parts[i].as_slice(), a, b);
        let text = string_of(piece.as_slice());
        let ghost pv = char_vec_views(parts@);
        proof {
            assert(pv.take(i + 1).drop_last() =~= pv.take(i as int));
            assert(pv.take(i + 1).last() == parts@[i as int]@);
        }
        match ObservationKindTag::parse_name(text.as_str()) {
            Ok(k) => {
                out.push(k);
            },
            Err(_) => {},
        }
        i += 1;
    }
    proof {
        assert(char_vec_views(parts@).take(parts@.len() as int) =~= char_vec_views(parts@));
    }
    out
}

fn origins_from_pieces(parts: &Vec<Vec<char>>) -> (r: Vec<OriginPattern>)
    ensures
        r@.len() == parts@.len(),
        forall|i: int| 0 <= i < parts@.len() ==> parses_to(trim(parts@[i]@), #[trigger] r@[i]),
{
    let mut out: Vec<OriginPattern> = Vec::new();
    let mut i: usize = 0;
    while i < parts.len()
        invariant
            i <= parts.len(),
            out@.len() == i,
            forall|j: int| 0 <= j < i ==> parses_to(trim(parts@[j]@), #[trigger] out@[j]),
        decreases parts.len() - i,
    {
        let (a, b) = trim_bounds(parts[i].as_slice());
        let piece = slice_to_vec(parts[i].as_slice(), a, b);
        let text = string_of(piece.as_slice());
        let p = OriginPattern::parse(text.as_str());
        out.push(p);
        i += 1;
    }
    out
}

fn strings_from_pieces(parts: &Vec<Vec<char>>) -> (r: Vec<String>)
    ensures
        views(r@) == nonempty_trimmed(char_vec_views(parts@)),
{
    let mut out: Vec<String> = Vec::new();
    let mut i: usize = 0;
    while i < parts.len()
        invariant
            i <= parts.len(),
            views(out@) == nonempty_trimmed(char_vec_views(parts@).take(i as int)),
        decreases parts.len() - i,
    {
        let (a, b) = trim_bounds(parts[i].as_slice());
        let ghost pv = char_vec_views(parts@);
        proof {
            assert(pv.take(i + 1).drop_last() =~= pv.take(i as int));
            assert(pv.take(i + 1).last() == parts@[i as int]@);
        }
        if a < b {
            let piece = slice_to_vec(parts[i].as_slice(), a, b);
            let text = string_of(piece.as_slice());
            out.push(text);
            proof {
                assert(views(out@) =~= nonempty_trimmed(pv.take(i + 1)));
            }
        } else {
            proof {
                assert(views(out@) =~= nonempty_trimmed(pv.take(i + 1)));
            }
        }
        i += 1;
    }
    proof {
        assert(char_vec_views(parts@).take(parts@.len() as int) =~= char_vec_views(parts@));
    }
    out
}

/// A query over stored observations. Every criterion that is present must
/// hold; `limit` only bounds how many results a store returns.
#[derive(Debug, Clone)]
pub struct Filter {
    pub kinds: Option<Vec<ObservationKindTag>>,
    pub severity_min: Option<Severity>,
    pub origins: Option<Vec<OriginPattern>>,
    pub text_match: Option<String>,
    pub since: Option<Checkpoint>,
    pub limit: Option<usize>,
    pub correlation_id: Option<String>,
    pub tags: Option<Vec<String>>,
    pub service: Option<Vec<String>>,
    pub source: Option<Vec<String>>,
    pub source_instance: Option<Vec<String>>,
    pub include_system: Option<bool>,
}

impl Default for Filter {
    fn default() -> (r: Filter)
        ensures
            r.kinds is None && r.severity_min is None && r.origins is None && r.text_match is None
                && r.since is None && r.limit is None && r.correlation_id is None && r.tags is None
                && r.service is None && r.source is None && r.source_instance is None
                && r.include_system is None,
    {
        Filter {
            kinds: None,
            severity_min: None,
            origins: None,
            text_match: None,
            since: None,
            limit: None,
            correlation_id: None,
            tags: None,
            service: None,
            source: None,
            source_instance: None,
            include_system: None,
        }
    }
}

/// A non-empty allow-list admits only present values that it lists.
pub open spec fn allowed_by(list: Option<Vec<String>>, v: Option<String>) -> bool {
    match list {
        Some(l) => l@.len() > 0 ==> (v matches Some(x) && views(l@).contains(x@)),
        None => true,
    }
}

fn allowed_by_exec(list: &Option<Vec<String>>, v: &Option<String>) -> (r: bool)
    ensures
        r == allowed_by(*list, *v),
{
    match list {
        Some(l) => {
            if l.len() == 0 {
                return true;
            }
            match v {
                Some(x) => list_has(l, x.as_str()),
                None => false,
            }
        },
        None => true,
    }
}

/// Whether a list of strings holds `x`.
pub fn list_has(l: &Vec<String>, x: &str) -> (r: bool)
    ensures
        r == views(l@).contains(x@),
{
    let mut i: usize = 0;
    while i < l.len()
        invariant
            i <= l.len(),
            forall|j: int| 0 <= j < i ==> l@[j]@ != x@,
        decreases l.len() - i,
    {
        if str_eq(l[i].as_str(), x) {
            proof {
                assert(views(l@)[i as int] == x@);
            }
            return true;
        }
        i += 1;
    }
    proof {
        if views(l@).contains(x@) {
            let j = choose|j: int| 0 <= j < views(l@).len() && views(l@)[j] == x@;
            assert(l@[j]@ == x@);
        }
    }
    false
}

/// The contents of an optional list.
pub open spec fn opt_seq<T>(o: Option<Vec<T>>) -> Option<Seq<T>> {
    match o {
        Some(v) => Some(v@),
        None => None,
    }
}

/// The string views of an optional list of strings.
pub open spec fn opt_string_views(o: Option<Vec<String>>) -> Option<Seq<Seq<char>>> {
    match o {
        Some(v) => Some(views(v@)),
        None => None,
    }
}

/// The view of an optional string.
pub open spec fn opt_chars(o: Option<String>) -> Option<Seq<char>> {
    match o {
        Some(s) => Some(s@),
        None => None,
    }
}

impl OriginPattern {
    /// An equal copy.
    pub fn dup(&self) -> (r: OriginPattern)
        ensures
            r == *self,
    {
        match self {
            OriginPattern::AnyApplication => OriginPattern::AnyApplication,
            OriginPattern::ApplicationNamed(n) => OriginPattern::ApplicationNamed(n.dup()),
            OriginPattern::AnyBrowser => OriginPattern::AnyBrowser,
            OriginPattern::BrowserTab(t) => OriginPattern::BrowserTab(t.dup()),
            OriginPattern::AnyDevice => OriginPattern::AnyDevice,
            OriginPattern::DeviceSerial(d) => OriginPattern::DeviceSerial(d.dup()),
        }
    }
}

/// A copy of a list of kind tags.
fn dup_kinds(v: &Vec<ObservationKindTag>) -> (r: Vec<ObservationKindTag>)
    ensures
        r@ == v@,
{
    let mut r: Vec<ObservationKindTag> = Vec::new();
    let mut i: usize = 0;
    while i < v.len()
        invariant
            i <= v.len(),
            r@ == v@.take(i as int),
        decreases v.len() - i,
    {
        r.push(v[i]);
        proof {
            assert(v@.take(i + 1) =~= v@.take(i as int).push(v@[i as int]));
        }
        i += 1;
    }
    proof {
        assert(v@.take(v@.len() as int) =~= v@);
    }
    r
}

/// A copy of a list of origin patterns.
fn dup_patterns(v: &Vec<OriginPattern>) -> (r: Vec<OriginPattern>)
    ensures
        r@ == v@,
{
    let mut r: Vec<OriginPattern> = Vec::new();
    let mut i: usize = 0;
    while i < v.len()
        invariant
            i <= v.len(),
            r@ == v@.take(i as int),
        decreases v.len() - i,
    {
        r.push(v[i].dup());
        proof {
            assert(v@.take(i + 1) =~= v@.take(i as int).push(v@[i as int]));
        }
        i += 1;
    }
    proof {
        assert(v@.take(v@.len() as int) =~= v@);
    }
    r
}

/// A copy of a list of strings.
fn dup_string_list(v: &Vec<String>) -> (r: Vec<String>)
    ensures
        views(r@) == views(v@),
{
    let mut r: Vec<String> = Vec::new();
    let mut i: usize = 0;
    while i < v.len()
        invariant
            i <= v.len(),
            views(r@) == views(v@.take(i as int)),
        decreases v.len() - i,
    {
        let ghost before = r@;
        r.push(v[i].clone());
        proof {
            assert(views(r@) =~= views(before).push(v@[i as int]@));
            assert(views(v@.take(i + 1)) =~= views(v@.take(i as int)).push(
                v@[i as int]@,
            ));
        }
        i += 1;
    }
    proof {
        assert(v@.take(v@.len() as int) =~= v@);
    }
    r
}

fn dup_opt_kinds(o: &Option<Vec<ObservationKindTag>>) -> (r: Option<Vec<ObservationKindTag>>)
    ensures
        opt_seq(r) == opt_seq(*o),
{
    match o {
        Some(v) => Some(dup_kinds(v)),
        None => None,
    }
}

fn dup_opt_patterns(o: &Option<Vec<OriginPattern>>) -> (r: Option<Vec<OriginPattern>>)
    ensures
        opt_seq(r) == opt_seq(*o),
{
    match o {
        Some(v) => Some(dup_patterns(v)),
        None => None,
    }
}

fn dup_opt_strings(o: &Option<Vec<String>>) -> (r: Option<Vec<String>>)
    ensures
        opt_string_views(r) == opt_string_views(*o),
{
    match o {
        Some(v) => Some(dup_string_list(v)),
        None => None,
    }
}

fn dup_opt_text(o: &Option<String>) -> (r: Option<String>)
    ensures
        opt_chars(r) == opt_chars(*o),
{
    match o {
        Some(s) => Some(s.clone()),
        None => None,
    }
}

impl Filter {
    /// The two filters state the same criteria: equal scalars and lists
    /// with equal contents.
    pub open spec fn same_criteria(self, other: Filter) -> bool {
        &&& opt_seq(self.kinds) == opt_seq(other.kinds)
        &&& self.severity_min == other.severity_min
        &&& opt_seq(self.origins) == opt_seq(other.origins)
        &&& opt_chars(self.text_match) == opt_chars(other.text_match)
        &&& self.since == other.since
        &&& self.limit == other.limit
        &&& opt_chars(self.correlation_id) == opt_chars(other.correlation_id)
        &&& opt_string_views(self.tags) == opt_string_views(other.tags)
        &&& opt_string_views(self.service) == opt_string_views(other.service)
        &&& opt_string_views(self.source) == opt_string_views(other.source)
        &&& opt_string_views(self.source_instance) == opt_string_views(other.source_instance)
        &&& self.include_system == other.include_system
    }

    /// A copy of the filter with the same criteria.
    pub fn dup(&self) -> (r: Filter)
        ensures
            r.same_criteria(*self),
    {
        Filter {
            kinds: dup_opt_kinds(&self.kinds),
            severity_min: self.severity_min,
            origins: dup_opt_patterns(&self.origins),
            text_match: dup_opt_text(&self.text_match),
            since: self.since,
            limit: self.limit,
            correlation_id: dup_opt_text(&self.correlation_id),
            tags: dup_opt_strings(&self.tags),
            service: dup_opt_strings(&self.service),
            source: dup_opt_strings(&self.source),
            source_instance: dup_opt_strings(&self.source_instance),
            include_system: self.include_system,
        }
    }

    /// The observation passes every criterion of the filter.
    pub open spec fn spec_matches(self, obs: Observation) -> bool {
        &&& (self.include_system == Some(true) || !(obs.tags matches Some(t) && views(
            t@,
        ).contains("_system"@)))
        &&& match self.since {
            Some(cp) => obs.id > cp.0,
            None => true,
        }
        &&& match self.severity_min {
            Some(m) => obs.severity.spec_level() >= m.spec_level(),
            None => true,
        }
        &&& match self.kinds {
            Some(k) => k@.len() > 0 ==> k@.contains(obs.kind.spec_tag()),
            None => true,
        }
        &&& match self.origins {
            Some(os) => os@.len() > 0 ==> exists|i: int|
                0 <= i < os@.len() && #[trigger] os@[i].spec_matches(obs.origin),
            None => true,
        }
        &&& match self.text_match {
            Some(t) => trim(t@).len() > 0 ==> contains(lower(search_text(obs)), lower(trim(t@))),
            None => true,
        }
        &&& match self.correlation_id {
            Some(c) => obs.correlation_id matches Some(oc) && oc@ == c@,
            None => true,
        }
        &&& allowed_by(self.service, obs.service)
        &&& allowed_by(self.source, obs.source)
        &&& allowed_by(self.source_instance, obs.source_instance)
        &&& match self.tags {
            Some(req) => req@.len() > 0 ==> (obs.tags matches Some(ot) && forall|i: int|
                0 <= i < req@.len() ==> views(ot@).contains(#[trigger] req@[i]@)),
            None => true,
        }
    }

    /// Whether the observation passes the filter.
    pub fn matches(&self, obs: &Observation) -> (r: bool)
        ensures
            r == self.spec_matches(*obs),
    {
        if self.include_system != Some(true) {
            if let Some(tags) = &obs.tags {
                if list_has(tags, "_system") {
                    return false;
                }
            }
        }
        if let Some(cp) = &self.since {
            if obs.id <= cp.0 {
                return false;
            }
        }
        if let Some(min) = self.severity_min {
            if obs.severity.level() < min.level() {
                return false;
            }
        }
        if let Some(kinds) = &self.kinds {
            if kinds.len() > 0 && !kind_listed(kinds, obs.kind.tag()) {
                return false;
            }
        }
        if let Some(origins) = &self.origins {
            if origins.len() > 0 && !any_pattern_matches(origins, &obs.origin) {
                return false;
            }
        }
        if let Some(text) = &self.text_match {
            if !text_matches(text.as_str(), obs) {
                return false;
            }
        }
        if let Some(cid) = &self.correlation_id {
            match &obs.correlation_id {
                Some(oc) => {
                    if !str_eq(oc.as_str(), cid.as_str()) {
                        return false;
                    }
                },
                None => {
                    return false;
                },
            }
        }
        if !allowed_by_exec(&self.service, &obs.service) {
            return false;
        }
        if !allowed_by_exec(&self.source, &obs.source) {
            return false;
        }
        if !allowed_by_exec(&self.source_instance, &obs.source_instance) {
            return false;
        }
        if let Some(req) = &self.tags {
            if req.len() > 0 {
                match &obs.tags {
                    Some(ot) => {
                        if !all_listed(req, ot) {
                            return false;
                        }
                    },
                    None => {
                        return false;
                    },
                }
            }
        }
        true
    }

    /// Severity named by the trimmed text, if any.
    pub fn parse_severity(raw: &str) -> (r: Option<Severity>)
        ensures
            r == Severity::spec_parse(trim(raw@)),
    {
        let t = string_of(trim_chars(raw).as_slice());
        match Severity::parse_name(t.as_str()) {
            Ok(s) => Some(s),
            Err(_) => None,
        }
    }

    /// Kinds named by the comma-separated pieces, skipping unknown names.
    pub fn parse_kinds(raw: &str) -> (r: Vec<ObservationKindTag>)
        ensures
            r@ == kinds_named(split_commas(raw@)),
    {
        let parts = split_on_commas(raw);
        kinds_from_pieces(&parts)
    }

    /// One origin pattern per comma-separated piece.
    pub fn parse_origins(raw: &str) -> (r: Vec<OriginPattern>)
        ensures
            r@.len() == split_commas(raw@).len(),
            forall|i: int|
                0 <= i < r@.len() ==> parses_to(trim(split_commas(raw@)[i]), #[trigger] r@[i]),
    {
        let parts = split_on_commas(raw);
        let r = origins_from_pieces(&parts);
        proof {
            assert forall|i: int| 0 <= i < r@.len() implies parses_to(
                trim(split_commas(raw@)[i]),
                #[trigger] r@[i],
            ) by {
                assert(split_commas(raw@)[i] == char_vec_views(parts@)[i]);
            }
        }
        r
    }

    /// Tags listed in the comma-separated text.
    pub fn parse_tags(raw: &str) -> (r: Vec<String>)
        ensures
            views(r@) == nonempty_trimmed(split_commas(raw@)),
    {
        Filter::parse_string_list(raw)
    }

    /// Non-empty trimmed comma-separated pieces.
    pub fn parse_string_list(raw: &str) -> (r: Vec<String>)
        ensures
            views(r@) == nonempty_trimmed(split_commas(raw@)),
    {
        let parts = split_on_commas(raw);
        strings_from_pieces(&parts)
    }

    /// Kinds named by the strings, skipping unknown names.
    pub fn kinds_from_vec(v: Vec<String>) -> (r: Vec<ObservationKindTag>)
        ensures
            r@ == kinds_named(views(v@)),
    {
        let parts = pieces_of(&v);
        kinds_from_pieces(&parts)
    }

    /// One origin pattern per string.
    pub fn origins_from_vec(v: Vec<String>) -> (r: Vec<OriginPattern>)
        ensures
            r@.len() == v@.len(),
            forall|i: int| 0 <= i < r@.len() ==> parses_to(trim(v@[i]@), #[trigger] r@[i]),
    {
        let parts = pieces_of(&v);
        let r = origins_from_pieces(&parts);
        proof {
            assert forall|i: int| 0 <= i < r@.len() implies parses_to(
                trim(v@[i]@),
                #[trigger] r@[i],
            ) by {
                assert(parts@[i]@ == v@[i]@);
            }
        }
        r
    }
}

fn pieces_of(v: &Vec<String>) -> (r: Vec<Vec<char>>)
    ensures
        char_vec_views(r@) == views(v@),
        r@.len() == v@.len(),
        forall|i: int| 0 <= i < v@.len() ==> (#[trigger] r@[i])@ == v@[i]@,
{
    let mut out: Vec<Vec<char>> = Vec::new();
    let mut i: usize = 0;
    while i < v.len()
        invariant
            i <= v.len(),
            out@.len() == i,
            forall|j: int| 0 <= j < i ==> (#[trigger] out@[j])@ == v@[j]@,
        decreases v.len() - i,
    {
        out.push(chars_of(v[i].as_str()));
        i += 1;
    }
    proof {
        assert(char_vec_views(out@) =~= views(v@));
    }
    out
}

fn kind_listed(kinds: &Vec<ObservationKindTag>, k: ObservationKindTag) -> (r: bool)
    ensures
        r == kinds@.contains(k),
{
    let mut i: usize = 0;
    while i < kinds.len()
        invariant
            i <= kinds.len(),
            forall|j: int| 0 <= j < i ==> kinds@[j] != k,
        decreases kinds.len() - i,
    {
        if kinds[i] == k {
            return true;
        }
        i += 1;
    }
    false
}

fn any_pattern_matches(pats: &Vec<OriginPattern>, origin: &Origin) -> (r: bool)
    ensures
        r == exists|i: int| 0 <= i < pats@.len() && #[trigger] pats@[i].spec_matches(*origin),
{
    let mut i: usize = 0;
    while i < pats.len()
        invariant
            i <= pats.len(),
            forall|j: int| 0 <= j < i ==> !(#[trigger] pats@[j].spec_matches(*origin)),
        decreases pats.len() - i,
    {
        if pats[i].matches(origin) {
            return true;
        }
        i += 1;
    }
    false
}

fn all_listed(req: &Vec<String>, have: &Vec<String>) -> (r: bool)
    ensures
        r == forall|i: int| 0 <= i < req@.len() ==> views(have@).contains(#[trigger] req@[i]@),
{
    let mut i: usize = 0;
    while i < req.len()
        invariant
            i <= req.len(),
            forall|j: int| 0 <= j < i ==> views(have@).contains(#[trigger] req@[j]@),
        decreases req.len() - i,
    {
        if !list_has(have, req[i].as_str()) {
            return false;
        }
        i += 1;
    }
    true
}

fn text_matches(text: &str, obs: &Observation) -> (r: bool)
    ensures
        r == (trim(text@).len() > 0 ==> contains(lower(search_text(*obs)), lower(trim(text@)))),
{
    let t = trim_chars(text);
    if t.len() == 0 {
        return true;
    }
    let hay = observation_search_text(obs);
    let hay_low = lower_chars(hay.as_str());
    let needle = string_of(t.as_slice());
    let needle_low = lower_chars(needle.as_str());
    contains_chars(hay_low.as_slice(), needle_low.as_slice())
}

/// Two filters with the same criteria pass exactly the same observations.
pub proof fn lemma_same_criteria_same_matches(a: Filter, b: Filter, obs: Observation)
    requires
        a.same_criteria(b),
    ensures
        a.spec_matches(obs) == b.spec_matches(obs),
{
    lemma_same_list_allows(a.service, b.service, obs.service);
    lemma_same_list_allows(a.source, b.source, obs.source);
    lemma_same_list_allows(a.source_instance, b.source_instance, obs.source_instance);
    match (a.kinds, b.kinds) {
        (Some(ka), Some(kb)) => {
            assert(ka@ == kb@);
        },
        _ => {},
    }
    match (a.origins, b.origins) {
        (Some(oa), Some(ob)) => {
            assert(oa@ == ob@);
        },
        _ => {},
    }
    match (a.text_match, b.text_match) {
        (Some(ta), Some(tb)) => {
            assert(ta@ == tb@);
        },
        _ => {},
    }
    match (a.correlation_id, b.correlation_id) {
        (Some(ca), Some(cb)) => {
            assert(ca@ == cb@);
        },
        _ => {},
    }
    match (a.tags, b.tags) {
        (Some(ra), Some(rb)) => {
            assert(views(ra@) == views(rb@));
            assert(ra@.len() == views(ra@).len());
            assert(rb@.len() == views(rb@).len());
            assert forall|i: int|
                #![trigger ra@[i]]
                #![trigger rb@[i]]
                0 <= i < ra@.len() implies ra@[i]@ == rb@[i]@ by {
                assert(views(ra@)[i] == ra@[i]@);
                assert(views(rb@)[i] == rb@[i]@);
            }
        },
        _ => {},
    }
}

proof fn lemma_same_list_allows(a: Option<Vec<String>>, b: Option<Vec<String>>, v: Option<String>)
    requires
        opt_string_views(a) == opt_string_views(b),
    ensures
        allowed_by(a, v) == allowed_by(b, v),
{
    match (a, b) {
        (Some(la), Some(lb)) => {
            assert(la@.len() == views(la@).len());
            assert(lb@.len() == views(lb@).len());
        },
        _ => {},
    }
}

} // verus!
verus! {

/// Two patterns of the same kind over the same name, tab or serial.
pub open spec fn same_pattern(p: OriginPattern, q: OriginPattern) -> bool {
    match (p, q) {
        (OriginPattern::AnyApplication, OriginPattern::AnyApplication) => true,
        (OriginPattern::ApplicationNamed(a), OriginPattern::ApplicationNamed(b)) => a@ == b@,
        (OriginPattern::AnyBrowser, OriginPattern::AnyBrowser) => true,
        (OriginPattern::BrowserTab(a), OriginPattern::BrowserTab(b)) => a@ == b@,
        (OriginPattern::AnyDevice, OriginPattern::AnyDevice) => true,
        (OriginPattern::DeviceSerial(a), OriginPattern::DeviceSerial(b)) => a@ == b@,
        _ => false,
    }
}

proof fn lemma_first_colon_exists(s: Seq<char>, k: int)
    requires
        0 <= k < s.len(),
        s[k] == ':',
    ensures
        exists|i: int| first_colon(s, i),
    decreases k,
{
    if exists|j: int| 0 <= j < k && s[j] == ':' {
        let j = choose|j: int| 0 <= j < k && s[j] == ':';
        lemma_first_colon_exists(s, j);
    } else {
        assert(first_colon(s, k));
    }
}

/// A text denotes one pattern only: every parse of the same text (each
/// piece of `Filter::parse_origins`, `Filter::origins_from_vec`,
/// `OriginPattern::parse`) gives the same pattern.
pub proof fn lemma_parses_to_unique(s: Seq<char>, p: OriginPattern, q: OriginPattern)
    requires
        parses_to(s, p),
        parses_to(s, q),
    ensures
        same_pattern(p, q),
{
    if !no_colon(s) {
        let k = choose|k: int| 0 <= k < s.len() && s[k] == ':';
        lemma_first_colon_exists(s, k);
        let i = choose|i: int| first_colon(s, i);
        assert(first_colon(s, i));
    }
}

proof fn lemma_split_append_plain(x: Seq<char>, b: Seq<char>)
    requires
        forall|i: int| 0 <= i < b.len() ==> b[i] != ',',
    ensures
        split_commas(x + b) == split_commas(x).update(
            split_commas(x).len() - 1,
            split_commas(x).last() + b,
        ),
        split_commas(x).len() >= 1,
    decreases b.len(),
{
    lemma_split_nonempty(x);
    if b.len() == 0 {
        assert(x + b =~= x);
        assert(split_commas(x).last() + b =~= split_commas(x).last());
        assert(split_commas(x).update(split_commas(x).len() - 1, split_commas(x).last())
            =~= split_commas(x));
    } else {
        let b0 = b.drop_last();
        lemma_split_append_plain(x, b0);
        assert((x + b).drop_last() =~= x + b0);
        assert((x + b).last() == b.last());
        lemma_split_nonempty(x + b0);
        let prev = split_commas(x + b0);
        assert(split_commas(x).last() + b =~= (split_commas(x).last() + b0).push(b.last()));
        assert(split_commas(x + b) =~= prev.update(prev.len() - 1, prev.last().push(b.last())));
        assert(split_commas(x + b) =~= split_commas(x).update(
            split_commas(x).len() - 1,
            split_commas(x).last() + b,
        ));
    }
}

proof fn lemma_split_nonempty(x: Seq<char>)
    ensures
        split_commas(x).len() >= 1,
    decreases x.len(),
{
    if x.len() > 0 {
        lemma_split_nonempty(x.drop_last());
    }
}

/// Splitting at commas the pieces joined with commas gives the pieces
/// back, when no piece holds a comma.
pub proof fn lemma_split_join_commas(v: Seq<Seq<char>>)
    requires
        v.len() > 0,
        forall|i: int, j: int| 0 <= i < v.len() && 0 <= j < v[i].len() ==> v[i][j] != ',',
    ensures
        split_commas(join(v, ","@)) == v,
    decreases v.len(),
{
    reveal_strlit(",");
    if v.len() == 1 {
        lemma_split_append_plain(seq![], v[0]);
        assert(seq![] + v[0] =~= v[0]);
        assert(split_commas(seq![]) =~= seq![seq![]]);
        assert(seq![] + v[0] =~= v[0]);
        assert(split_commas(v[0]) =~= v);
    } else {
        let w = v.drop_last();
        lemma_split_join_commas(w);
        let x = join(w, ","@) + ","@;
        assert(x.drop_last() =~= join(w, ","@));
        assert(x.last() == ',');
        assert(split_commas(x) == w.push(seq![]));
        assert(forall|j: int| 0 <= j < v.last().len() ==> v.last()[j] != ',') by {
            assert forall|j: int| 0 <= j < v.last().len() implies v.last()[j] != ',' by {
                assert(v.last() == v[v.len() - 1]);
            }
        }
        lemma_split_append_plain(x, v.last());
        assert(join(v, ","@) == x + v.last());
        assert(seq![] + v.last() =~= v.last());
        assert(w.push(seq![]).update(w.len() as int, v.last()) =~= v);
    }
}

/// Joining kind names with commas and parsing the text again gives the same
/// kinds as reading the names directly (`Filter::kinds_from_vec` and
/// `Filter::parse_kinds` agree), when no name holds a comma.
pub proof fn lemma_kinds_split_join(v: Seq<Seq<char>>)
    requires
        v.len() > 0,
        forall|i: int, j: int| 0 <= i < v.len() && 0 <= j < v[i].len() ==> v[i][j] != ',',
    ensures
        kinds_named(split_commas(join(v, ","@))) == kinds_named(v),
{
    lemma_split_join_commas(v);
}

/// Joining origin texts with commas and parsing the text again gives, piece
/// by piece, the same patterns as parsing each text
/// (`Filter::origins_from_vec` and `Filter::parse_origins` agree), when no
/// text holds a comma.
pub proof fn lemma_origins_split_join(v: Seq<Seq<char>>, p: Seq<OriginPattern>, q: Seq<OriginPattern>)
    requires
        v.len() > 0,
        forall|i: int, j: int| 0 <= i < v.len() && 0 <= j < v[i].len() ==> v[i][j] != ',',
        p.len() == v.len(),
        forall|i: int| 0 <= i < v.len() ==> parses_to(trim(v[i]), #[trigger] p[i]),
        q.len() == split_commas(join(v, ","@)).len(),
        forall|i: int|
            0 <= i < q.len() ==> parses_to(trim(split_commas(join(v, ","@))[i]), #[trigger] q[i]),
    ensures
        p.len() == q.len(),
        forall|i: int| 0 <= i < p.len() ==> same_pattern(#[trigger] p[i], q[i]),
{
    lemma_split_join_commas(v);
    assert forall|i: int| 0 <= i < p.len() implies same_pattern(#[trigger] p[i], q[i]) by {
        lemma_parses_to_unique(trim(v[i]), p[i], q[i]);
    }
}

} // verus!
verus! {

/// The origin's own name: an application's name, a browser tab's id or a
/// device's serial.
pub open spec fn origin_ident(o: Origin) -> Seq<char> {
    match o {
        Origin::Application { name } => name@,
        Origin::Browser { tab_id, .. } => tab_id@,
        Origin::Device { serial, .. } => serial@,
    }
}

/// A named pattern selects only origins with its one name: two device
/// origins that a serial pattern both selects have the same serial, and
/// likewise for a tab pattern and an application-name pattern.
pub proof fn lemma_named_pattern_selects_one_name(p: OriginPattern, o1: Origin, o2: Origin)
    requires
        p is ApplicationNamed || p is BrowserTab || p is DeviceSerial,
        p.spec_matches(o1),
        p.spec_matches(o2),
    ensures
        origin_ident(o1) == origin_ident(o2),
{
}

proof fn lemma_first_colon_after_word(w: Seq<char>, rest: Seq<char>)
    requires
        no_colon(w),
    ensures
        first_colon(w + ":"@ + rest, w.len() as int),
        (w + ":"@ + rest).take(w.len() as int) == w,
        (w + ":"@ + rest).skip(w.len() as int + 1) == rest,
{
    reveal_strlit(":");
    let s = w + ":"@ + rest;
    assert(s[w.len() as int] == ':');
    assert forall|j: int| 0 <= j < w.len() implies s[j] != ':' by {
        assert(s[j] == w[j]);
    }
    assert(s.take(w.len() as int) =~= w);
    assert(s.skip(w.len() as int + 1) =~= rest);
}

/// `device:<serial>` selects a device exactly when the device's serial is
/// `<serial>` (so `device:S1` never selects device `S2`), and never an
/// application or a browser.
pub proof fn lemma_device_pattern_selects_its_serial(serial: Seq<char>, p: OriginPattern, o: Origin)
    requires
        parses_to("device"@ + ":"@ + serial, p),
    ensures
        p.spec_matches(o) <==> (o is Device && origin_ident(o) == serial),
{
    reveal_strlit("device");
    reveal_strlit("app");
    reveal_strlit("browser");
    lemma_first_colon_after_word("device"@, serial);
    let s = "device"@ + ":"@ + serial;
    assert(first_colon(s, 6));
    assert(s.take(6) == "device"@);
    assert("device"@.len() != "app"@.len() && "device"@.len() != "browser"@.len());
}

/// `browser:<tab>` selects a browser exactly when its tab id is `<tab>`.
pub proof fn lemma_browser_pattern_selects_its_tab(tab: Seq<char>, p: OriginPattern, o: Origin)
    requires
        parses_to("browser"@ + ":"@ + tab, p),
    ensures
        p.spec_matches(o) <==> (o is Browser && origin_ident(o) == tab),
{
    reveal_strlit("browser");
    reveal_strlit("app");
    lemma_first_colon_after_word("browser"@, tab);
    let s = "browser"@ + ":"@ + tab;
    assert(first_colon(s, 7));
    assert(s.take(7) == "browser"@);
    assert("browser"@.len() != "app"@.len());
}

/// `app:<name>` selects an application exactly when its name is `<name>`.
pub proof fn lemma_app_pattern_selects_its_name(name: Seq<char>, p: OriginPattern, o: Origin)
    requires
        parses_to("app"@ + ":"@ + name, p),
    ensures
        p.spec_matches(o) <==> (o is Application && origin_ident(o) == name),
{
    reveal_strlit("app");
    lemma_first_colon_after_word("app"@, name);
    let s = "app"@ + ":"@ + name;
    assert(first_colon(s, 3));
    assert(s.take(3) == "app"@);
}

/// A class pattern selects exactly the origins of its class, and a named
/// pattern selects only origins of its class that carry its name.
pub proof fn lemma_patterns_select_their_class(p: OriginPattern, o: Origin)
    ensures
        p is AnyApplication ==> (p.spec_matches(o) <==> o is Application),
        p is AnyBrowser ==> (p.spec_matches(o) <==> o is Browser),
        p is AnyDevice ==> (p.spec_matches(o) <==> o is Device),
        p matches OriginPattern::ApplicationNamed(n) ==> (p.spec_matches(o) <==> (o is Application
            && origin_ident(o) == n@)),
        p matches OriginPattern::BrowserTab(t) ==> (p.spec_matches(o) <==> (o is Browser
            && origin_ident(o) == t@)),
        p matches OriginPattern::DeviceSerial(d) ==> (p.spec_matches(o) <==> (o is Device
            && origin_ident(o) == d@)),
{
}

} // verus!
