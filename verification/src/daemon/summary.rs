//! Counting and ordering helpers for result summaries.
use vstd::prelude::*;

use super::types::{Observation, SliceSummary};
use crate::text::{str_eq, views};

verus! {

/// Number of entries of `names` equal to `x`.
pub open spec fn count_of(names: Seq<Seq<char>>, x: Seq<char>) -> nat
    decreases names.len(),
{
    if names.len() == 0 {
        0
    } else {
        count_of(names.drop_last(), x) + if names.last() == x {
            1nat
        } else {
            0nat
        }
    }
}

/// `counts` lists every distinct name of `names` exactly once, each with the
/// number of times it occurs, in order of first appearance.
pub open spec fn is_tally(counts: Seq<(String, usize)>, names: Seq<Seq<char>>) -> bool {
    &&& forall|j: int|
        0 <= j < counts.len() ==> (#[trigger] counts[j]).1 == count_of(names, counts[j].0@)
    &&& forall|j: int, k: int| 0 <= j < k < counts.len() ==> counts[j].0@ != counts[k].0@
    &&& forall|m: int|
        0 <= m < names.len() ==> exists|j: int|
            0 <= j < counts.len() && (#[trigger] counts[j]).0@ == #[trigger] names[m]
    &&& forall|j: int| 0 <= j < counts.len() ==> (#[trigger] counts[j]).1 >= 1
}

proof fn lemma_count_le_len(names: Seq<Seq<char>>, x: Seq<char>)
    ensures
        count_of(names, x) <= names.len(),
    decreases names.len(),
{
    if names.len() > 0 {
        lemma_count_le_len(names.drop_last(), x);
    }
}

proof fn lemma_count_push(names: Seq<Seq<char>>, y: Seq<char>, x: Seq<char>)
    ensures
        count_of(names.push(y), x) == count_of(names, x) + if y == x {
            1nat
        } else {
            0nat
        },
{
    assert(names.push(y).drop_last() =~= names);
}

fn find_name(counts: &Vec<(String, usize)>, name: &str) -> (r: Option<usize>)
    ensures
        match r {
            Some(j) => j < counts@.len() && counts@[j as int].0@ == name@,
            None => forall|k: int| 0 <= k < counts@.len() ==> (#[trigger] counts@[k]).0@ != name@,
        },
{
    let mut j: usize = 0;
    while j < counts.len()
        invariant
            j <= counts.len(),
            forall|k: int| 0 <= k < j ==> (#[trigger] counts@[k]).0@ != name@,
        decreases counts.len() - j,
    {
        if str_eq(counts[j].0.as_str(), name) {
            return Some(j);
        }
        j += 1;
    }
    None
}

/// Tallies the names, in order of first appearance.
pub fn tally(names: &Vec<String>) -> (r: Vec<(String, usize)>)
    ensures
        is_tally(r@, views(names@)),
{
    let ghost ns = views(names@);
    let mut out: Vec<(String, usize)> = Vec::new();
    let mut i: usize = 0;
    while i < names.len()
        invariant
            i <= names.len(),
            ns == views(names@),
            is_tally(out@, ns.take(i as int)),
        decreases names.len() - i,
    {
        let ghost prev = ns.take(i as int);
        let ghost y = names@[i as int]@;
        let ghost cur = prev.push(y);
        proof {
            assert(ns.take(i + 1) =~= cur);
        }
        match find_name(&out, names[i].as_str()) {
            Some(j) => {
                proof {
                    lemma_count_le_len(prev, out@[j as int].0@);
                }
                let c = out[j].1;
                let name = out[j].0.clone();
                let ghost old_out = out@;
                out.set(j, (name, c + 1));
                proof {
                    assert forall|k: int| 0 <= k < out@.len() implies (#[trigger] out@[k]).1
                        == count_of(cur, out@[k].0@) by {
                        lemma_count_push(prev, y, out@[k].0@);
                        assert(out@[k].0@ == old_out[k].0@);
                    }
                    assert forall|m: int| 0 <= m < cur.len() implies exists|k: int|
                        0 <= k < out@.len() && (#[trigger] out@[k]).0@ == #[trigger] cur[m] by {
                        if m < i {
                            assert(cur[m] == prev[m]);
                            let k = choose|k: int|
                                0 <= k < old_out.len() && (#[trigger] old_out[k]).0@ == prev[m];
                            assert(out@[k].0@ == old_out[k].0@);
                        } else {
                            assert(out@[j as int].0@ == cur[m]);
                        }
                    }
                }
            },
            None => {
                let name = names[i].clone();
                let ghost old_out = out@;
                out.push((name, 1));
                proof {
                    assert forall|m: int| 0 <= m < prev.len() implies prev[m] != y by {
                        let kk = choose|kk: int|
                            0 <= kk < old_out.len() && (#[trigger] old_out[kk]).0@ == prev[m];
                    }
                    lemma_count_absent(prev, y);
                    assert forall|k: int| 0 <= k < out@.len() implies (#[trigger] out@[k]).1
                        == count_of(cur, out@[k].0@) by {
                        lemma_count_push(prev, y, out@[k].0@);
                        if k < old_out.len() {
                            assert(out@[k] == old_out[k]);
                        }
                    }
                    assert forall|m: int| 0 <= m < cur.len() implies exists|k: int|
                        0 <= k < out@.len() && (#[trigger] out@[k]).0@ == #[trigger] cur[m] by {
                        if m < i {
                            assert(cur[m] == prev[m]);
                            let k = choose|k: int|
                                0 <= k < old_out.len() && (#[trigger] old_out[k]).0@ == prev[m];
                            assert(out@[k] == old_out[k]);
                        } else {
                            assert(out@[old_out.len() as int].0@ == cur[m]);
                        }
                    }
                }
            },
        }
        i += 1;
    }
    proof {
        assert(ns.take(names@.len() as int) =~= ns);
    }
    out
}

proof fn lemma_count_absent(names: Seq<Seq<char>>, x: Seq<char>)
    requires
        forall|m: int| 0 <= m < names.len() ==> names[m] != x,
    ensures
        count_of(names, x) == 0,
    decreases names.len(),
{
    if names.len() > 0 {
        lemma_count_absent(names.drop_last(), x);
    }
}

/// Kind tag names of the observations, in order.
pub open spec fn kind_names(obs: Seq<Observation>) -> Seq<Seq<char>> {
    obs.map_values(|o: Observation| o.kind.spec_tag().spec_name())
}

/// Severity names of the observations, in order.
pub open spec fn severity_names(obs: Seq<Observation>) -> Seq<Seq<char>> {
    obs.map_values(|o: Observation| o.severity.spec_name())
}

/// Counts of the observations by kind tag and by severity.
pub fn build_slice_summary(observations: &Vec<Observation>) -> (r: SliceSummary)
    ensures
        r.total == observations@.len(),
        is_tally(r.counts_by_kind@, kind_names(observations@)),
        is_tally(r.counts_by_severity@, severity_names(observations@)),
{
    let mut kinds: Vec<String> = Vec::new();
    let mut sevs: Vec<String> = Vec::new();
    let mut i: usize = 0;
    while i < observations.len()
        invariant
            i <= observations.len(),
            views(kinds@) == kind_names(observations@).take(i as int),
            views(sevs@) == severity_names(observations@).take(i as int),
        decreases observations.len() - i,
    {
        let kn = observations[i].kind.tag().to_string();
        let sn = observations[i].severity.to_string();
        let ghost old_kinds = kinds@;
        let ghost old_sevs = sevs@;
        kinds.push(kn);
        sevs.push(sn);
        proof {
            assert(kind_names(observations@)[i as int] == kn@);
            assert(severity_names(observations@)[i as int] == sn@);
            assert(views(kinds@) =~= views(old_kinds).push(kn@));
            assert(views(sevs@) =~= views(old_sevs).push(sn@));
            assert(views(kinds@) =~= kind_names(observations@).take(i + 1));
            assert(views(sevs@) =~= severity_names(observations@).take(i + 1));
        }
        i += 1;
    }
    proof {
        assert(kind_names(observations@).take(observations@.len() as int) =~= kind_names(
            observations@,
        ));
        assert(severity_names(observations@).take(observations@.len() as int) =~= severity_names(
            observations@,
        ));
    }
    let counts_by_kind = tally(&kinds);
    let counts_by_severity = tally(&sevs);
    SliceSummary { total: observations.len(), counts_by_kind, counts_by_severity }
}

impl SliceSummary {
    /// How many results have the kind tag `name`, if any do.
    pub fn kind_count(&self, name: &str) -> (r: Option<usize>)
        ensures
            match r {
                Some(c) => exists|j: int|
                    0 <= j < self.counts_by_kind@.len() && (#[trigger] self.counts_by_kind@[j]).0@
                        == name@ && self.counts_by_kind@[j].1 == c,
                None => forall|j: int|
                    0 <= j < self.counts_by_kind@.len() ==> (#[trigger] self.counts_by_kind@[j]).0@
                        != name@,
            },
    {
        lookup_count(&self.counts_by_kind, name)
    }

    /// How many results have the severity `name`, if any do.
    pub fn severity_count(&self, name: &str) -> (r: Option<usize>)
        ensures
            match r {
                Some(c) => exists|j: int|
                    0 <= j < self.counts_by_severity@.len()
                        && (#[trigger] self.counts_by_severity@[j]).0@ == name@
                        && self.counts_by_severity@[j].1 == c,
                None => forall|j: int|
                    0 <= j < self.counts_by_severity@.len()
                        ==> (#[trigger] self.counts_by_severity@[j]).0@ != name@,
            },
    {
        lookup_count(&self.counts_by_severity, name)
    }
}

fn lookup_count(counts: &Vec<(String, usize)>, name: &str) -> (r: Option<usize>)
    ensures
        match r {
            Some(c) => exists|j: int|
                0 <= j < counts@.len() && (#[trigger] counts@[j]).0@ == name@ && counts@[j].1 == c,
            None => forall|j: int| 0 <= j < counts@.len() ==> (#[trigger] counts@[j]).0@ != name@,
        },
{
    let mut j: usize = 0;
    while j < counts.len()
        invariant
            j <= counts.len(),
            forall|k: int| 0 <= k < j ==> (#[trigger] counts@[k]).0@ != name@,
        decreases counts.len() - j,
    {
        if str_eq(counts[j].0.as_str(), name) {
            return Some(counts[j].1);
        }
        j += 1;
    }
    None
}

} // verus!
