//! JSON documents through `serde_json`: parsing, reading members and
//! strings, building objects, adding a member and pretty-printing. Each
//! outside call has a wrapper whose result is named; walking a path of keys
//! and the decisions built on these calls are verified here and in the
//! modules that use them.
use vstd::prelude::*;

verus! {

/// A `serde_json::Value`, carried through verified code as it is.
#[verifier::external_type_specification]
#[verifier::external_body]
pub struct ExJsonValue(serde_json::Value);

/// What `serde_json::from_str` reads from a text as a `Value`, or `None`
/// when the text is not JSON.
pub uninterp spec fn spec_json_from_str(text: Seq<char>) -> Option<serde_json::Value>;

/// What `Value::get` finds under a key: the member of an object, `None`
/// for a missing key or a value that is not an object.
pub uninterp spec fn spec_json_get(v: serde_json::Value, key: Seq<char>) -> Option<
    serde_json::Value,
>;

/// What `Value::as_str` gives: the text of a JSON string, else `None`.
pub uninterp spec fn spec_json_as_str(v: serde_json::Value) -> Option<Seq<char>>;

/// What `Value::is_object` says of a value.
pub uninterp spec fn spec_json_is_object(v: serde_json::Value) -> bool;

/// The JSON string `Value::String` holding the text.
pub uninterp spec fn spec_json_string(s: Seq<char>) -> serde_json::Value;

/// The JSON object `Value::Object` made by collecting the members into a
/// `serde_json::Map` (a later member replaces an earlier one of the same key).
pub uninterp spec fn spec_json_object(members: Seq<(Seq<char>, serde_json::Value)>) -> serde_json::Value;

/// The value after `Map::insert` of the member into it when it is an
/// object (replacing any member of that key); any other value as it was.
pub uninterp spec fn spec_json_with_member(
    v: serde_json::Value,
    key: Seq<char>,
    member: serde_json::Value,
) -> serde_json::Value;

/// What `serde_json::to_string_pretty` writes for a value, or `None` when
/// it reports an error.
pub uninterp spec fn spec_json_pretty(v: serde_json::Value) -> Option<Seq<char>>;

/// Parses a text with `serde_json::from_str`; `None` when it is not JSON.
#[verifier::external_body]
pub(crate) fn json_from_str(text: &str) -> (r: Option<serde_json::Value>)
    ensures
        r == spec_json_from_str(text@),
{
    serde_json::from_str(text).ok()
}

/// A copy of the member under `key`, found with `Value::get`.
#[verifier::external_body]
pub(crate) fn json_get(v: &serde_json::Value, key: &str) -> (r: Option<serde_json::Value>)
    ensures
        r == spec_json_get(*v, key@),
{
    v.get(key).cloned()
}

/// The text of a JSON string, read with `Value::as_str`.
#[verifier::external_body]
pub(crate) fn json_as_str(v: &serde_json::Value) -> (r: Option<String>)
    ensures
        r matches Some(s) ==> spec_json_as_str(*v) == Some(s@),
        r is None ==> spec_json_as_str(*v) is None,
{
    v.as_str().map(|s| s.to_owned())
}

/// Whether the value is an object, with `Value::is_object`.
#[verifier::external_body]
pub(crate) fn json_is_object(v: &serde_json::Value) -> (r: bool)
    ensures
        r == spec_json_is_object(*v),
{
    v.is_object()
}

/// The JSON string holding the text (`Value::String`).
#[verifier::external_body]
pub(crate) fn json_string(s: &str) -> (r: serde_json::Value)
    ensures
        r == spec_json_string(s@),
{
    serde_json::Value::String(s.to_owned())
}

/// The contents of a member list.
pub open spec fn members_view(m: Seq<(String, serde_json::Value)>) -> Seq<(Seq<char>, serde_json::Value)> {
    m.map_values(|p: (String, serde_json::Value)| (p.0@, p.1))
}

/// The object of the members, collected into a `serde_json::Map`
/// (`Value::Object`); it is an object.
#[verifier::external_body]
pub(crate) fn json_object(members: Vec<(String, serde_json::Value)>) -> (r: serde_json::Value)
    ensures
        r == spec_json_object(members_view(members@)),
        spec_json_is_object(r),
{
    serde_json::Value::Object(members.into_iter().collect())
}

/// The JSON array `Value::Array` holding the items in order.
pub uninterp spec fn spec_json_array(items: Seq<serde_json::Value>) -> serde_json::Value;

/// The array of the items (`Value::Array`).
#[verifier::external_body]
pub(crate) fn json_array(items: Vec<serde_json::Value>) -> (r: serde_json::Value)
    ensures
        r == spec_json_array(items@),
{
    serde_json::Value::Array(items)
}

/// The value with `member` inserted under `key` by `Map::insert` when it
/// is an object; any other value is handed back unchanged.
#[verifier::external_body]
pub(crate) fn json_with_member(v: serde_json::Value, key: &str, member: serde_json::Value) -> (r:
    serde_json::Value)
    ensures
        r == spec_json_with_member(v, key@, member),
        spec_json_is_object(v) ==> spec_json_is_object(r),
{
    match v {
        serde_json::Value::Object(mut map) => {
            map.insert(key.to_owned(), member);
            serde_json::Value::Object(map)
        },
        other => other,
    }
}

/// The value pretty-printed with `serde_json::to_string_pretty`; `None`
/// when it reports an error.
#[verifier::external_body]
pub(crate) fn json_pretty(v: &serde_json::Value) -> (r: Option<String>)
    ensures
        r matches Some(s) ==> spec_json_pretty(*v) == Some(s@),
        r is None ==> spec_json_pretty(*v) is None,
{
    serde_json::to_string_pretty(v).ok()
}

/// The contents of a list of string slices.
pub open spec fn strs_view(path: Seq<&str>) -> Seq<Seq<char>> {
    path.map_values(|s: &str| s@)
}

/// The value reached from `v` by taking the member under each key of
/// `path` in turn; `None` once a key is missing.
pub open spec fn value_at(v: serde_json::Value, path: Seq<Seq<char>>) -> Option<serde_json::Value>
    decreases path.len(),
{
    if path.len() == 0 {
        Some(v)
    } else {
        match value_at(v, path.drop_last()) {
            Some(w) => spec_json_get(w, path.last()),
            None => None,
        }
    }
}

/// What a JSON text holds at `path`: `None` when the text is not JSON,
/// `Some(Some(s))` when the path reaches the string `s`, `Some(None)`
/// otherwise.
pub open spec fn spec_json_lookup(json: Seq<char>, path: Seq<Seq<char>>) -> Option<Option<Seq<char>>> {
    match spec_json_from_str(json) {
        None => None,
        Some(v) => Some(
            match value_at(v, path) {
                Some(w) => spec_json_as_str(w),
                None => None,
            },
        ),
    }
}

/// The string at `path` of a JSON text, as `spec_json_lookup` says.
pub fn json_str_at(json: &str, path: &[&str]) -> (r: Option<Option<String>>)
    ensures
        match r {
            None => spec_json_lookup(json@, strs_view(path@)) is None,
            Some(None) => spec_json_lookup(json@, strs_view(path@)) == Some(None::<Seq<char>>),
            Some(Some(s)) => spec_json_lookup(json@, strs_view(path@)) == Some(Some(s@)),
        },
{
    let value = match json_from_str(json) {
        Some(v) => v,
        None => return None,
    };
    let ghost full = strs_view(path@);
    let mut at = value;
    let mut i: usize = 0;
    while i < path.len()
        invariant
            i <= path@.len(),
            full == strs_view(path@),
            spec_json_from_str(json@) == Some(value),
            value_at(value, full.take(i as int)) == Some(at),
        decreases path@.len() - i,
    {
        proof {
            assert(full.take(i + 1).drop_last() =~= full.take(i as int));
        }
        match json_get(&at, path[i]) {
            Some(next) => {
                at = next;
            },
            None => {
                proof {
                    lemma_value_at_stays_missing(value, full, i as int + 1);
                }
                return Some(None);
            },
        }
        i += 1;
    }
    proof {
        assert(full.take(path@.len() as int) =~= full);
    }
    Some(json_as_str(&at))
}

/// Once a key along the path is missing, the whole path reaches nothing.
proof fn lemma_value_at_stays_missing(v: serde_json::Value, path: Seq<Seq<char>>, k: int)
    requires
        0 <= k <= path.len(),
        value_at(v, path.take(k)) is None,
    ensures
        value_at(v, path) is None,
    decreases path.len() - k,
{
    if k < path.len() {
        assert(path.take(k + 1).drop_last() =~= path.take(k));
        lemma_value_at_stays_missing(v, path, k + 1);
    } else {
        assert(path.take(k) =~= path);
    }
}

} // verus!
