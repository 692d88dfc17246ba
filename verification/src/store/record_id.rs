//! Record ids and keys: bare keys from `table:key` ids, cursor identity
//! checks, and the content-addressed keys of cursors and ledger rows.
use vstd::prelude::*;

use super::error::StoreError;
use super::error_hash::{hex_bytes, sha256_bytes, spec_sha256};
use crate::text::{chars_of, has_prefix, push_str, slice_to_vec, starts_with, string_of, trim, trim_string};
use vstd::string::StringSliceAdditionalSpecFns;

verus! {

/// `s` without leading and trailing backticks.
pub open spec fn trim_backticks(s: Seq<char>) -> Seq<char>
    decreases s.len(),
{
    if s.len() > 0 && s[0] == '`' {
        trim_backticks(s.drop_first())
    } else if s.len() > 0 && s.last() == '`' {
        trim_backticks(s.drop_last())
    } else {
        s
    }
}

/// The part of `raw` after its first `:` (all of it when it has none),
/// without surrounding backticks.
pub open spec fn spec_strip_table_prefix(raw: Seq<char>) -> Seq<char> {
    if exists|i: int| 0 <= i < raw.len() && raw[i] == ':' {
        let i = choose|i: int|
            0 <= i < raw.len() && raw[i] == ':' && forall|j: int| 0 <= j < i ==> raw[j] != ':';
        trim_backticks(raw.skip(i + 1))
    } else {
        trim_backticks(raw)
    }
}

/// Removing one backtick from the front keeps the trimmed text, as does
/// removing one from the back.
proof fn lemma_trim_backticks_ends(s: Seq<char>)
    ensures
        s.len() > 0 && s.last() == '`' ==> trim_backticks(s.drop_last()) == trim_backticks(s),
    decreases s.len(),
{
    if s.len() > 0 && s.last() == '`' {
        if s[0] == '`' {
            if s.len() == 1 {
                assert(s.drop_first() =~= s.drop_last());
            } else {
                lemma_trim_backticks_ends(s.drop_first());
                assert(s.drop_first().drop_last() =~= s.drop_last().drop_first());
                assert(s.drop_first().last() == '`');
            }
        }
    }
}

/// The bare key of an id: after its first `:`, without backticks.
pub fn strip_table_prefix(raw: &str) -> (r: String)
    ensures
        r@ == spec_strip_table_prefix(raw@),
{
    let cs = chars_of(raw);
    let mut i: usize = 0;
    while i < cs.len() && cs[i] != ':'
        invariant
            i <= cs@.len(),
            cs@ == raw@,
            forall|j: int| 0 <= j < i ==> cs@[j] != ':',
        decreases cs@.len() - i,
    {
        i += 1;
    }
    let start: usize = if i < cs.len() {
        i + 1
    } else {
        0
    };
    proof {
        if i < cs@.len() {
            let k = choose|k: int|
                0 <= k < raw@.len() && raw@[k] == ':' && forall|j: int| 0 <= j < k ==> raw@[j] != ':';
            assert(k == i as int) by {
                if k < i {
                    assert(cs@[k] != ':');
                }
                if k > i {
                    assert(raw@[i as int] == ':');
                }
            }
            assert(spec_strip_table_prefix(raw@) == trim_backticks(cs@.skip(start as int)));
        } else {
            assert(!exists|k: int| 0 <= k < raw@.len() && raw@[k] == ':');
            assert(cs@.skip(0) =~= raw@);
            assert(spec_strip_table_prefix(raw@) == trim_backticks(cs@.skip(start as int)));
        }
    }
    let mut a: usize = start;
    let mut b: usize = cs.len();
    while a < b && cs[a] == '`'
        invariant
            start <= a <= b,
            b == cs@.len(),
            trim_backticks(cs@.subrange(a as int, b as int)) == trim_backticks(
                cs@.skip(start as int),
            ),
        decreases b - a,
    {
        proof {
            assert(cs@.subrange(a as int, b as int).drop_first() =~= cs@.subrange(a + 1, b as int));
        }
        a += 1;
    }
    proof {
        assert(cs@.skip(start as int) =~= cs@.subrange(start as int, cs@.len() as int));
    }
    while b > a && cs[b - 1] == '`'
        invariant
            start <= a <= b <= cs@.len(),
            a == b || cs@[a as int] != '`',
            trim_backticks(cs@.subrange(a as int, b as int)) == trim_backticks(
                cs@.skip(start as int),
            ),
        decreases b - a,
    {
        proof {
            let t = cs@.subrange(a as int, b as int);
            lemma_trim_backticks_ends(t);
            assert(t.drop_last() =~= cs@.subrange(a as int, b - 1));
        }
        b -= 1;
    }
    proof {
        let t = cs@.subrange(a as int, b as int);
        if t.len() > 0 {
            assert(t[0] == cs@[a as int]);
            assert(t.last() == cs@[b - 1]);
        }
        assert(trim_backticks(t) == t);
    }
    let v = slice_to_vec(cs.as_slice(), a, b);
    string_of(v.as_slice())
}

/// `raw` without a leading `prefix`, when it has one.
pub open spec fn without_prefix(raw: Seq<char>, prefix: Seq<char>) -> Seq<char> {
    if starts_with(raw, prefix) {
        raw.skip(prefix.len() as int)
    } else {
        raw
    }
}

/// The bare key of an id of `table`: the id without `<table>:` in front.
pub fn strip_named_prefix(raw: &str, table: &str) -> (r: String)
    ensures
        r@ == without_prefix(raw@, table@.push(':')),
{
    let cs = chars_of(raw);
    let mut p = chars_of(table);
    p.push(':');
    if has_prefix(cs.as_slice(), p.as_slice()) {
        let v = slice_to_vec(cs.as_slice(), p.len(), cs.len());
        assert(v@ =~= raw@.skip(p@.len() as int));
        string_of(v.as_slice())
    } else {
        raw.to_owned()
    }
}

/// Which cursor identity field is blank, if any, checked in the order
/// scope root, source, source instance.
pub open spec fn blank_identity_field(scope_root: Seq<char>, source: Seq<char>, instance: Seq<char>) -> Option<
    Seq<char>,
> {
    if trim(scope_root).len() == 0 {
        Some("scope_root"@)
    } else if trim(source).len() == 0 {
        Some("source"@)
    } else if trim(instance).len() == 0 {
        Some("source_instance"@)
    } else {
        None
    }
}

/// Checks that no cursor identity field is blank.
pub fn validate_cursor_identity(scope_root: &str, source: &str, source_instance: &str) -> (r:
    Result<(), StoreError>)
    ensures
        match blank_identity_field(scope_root@, source@, source_instance@) {
            Some(f) => r matches Err(StoreError::Other(m)) && m@ == "cursor identity field `"@ + f
                + "` must not be empty"@,
            None => r is Ok,
        },
{
    let a = trim_string(scope_root);
    if a.as_str().is_empty() {
        let mut m = "cursor identity field `".to_owned();
        push_str(&mut m, "scope_root");
        push_str(&mut m, "` must not be empty");
        return Err(StoreError::Other(m));
    }
    let b = trim_string(source);
    if b.as_str().is_empty() {
        let mut m = "cursor identity field `".to_owned();
        push_str(&mut m, "source");
        push_str(&mut m, "` must not be empty");
        return Err(StoreError::Other(m));
    }
    let c = trim_string(source_instance);
    if c.as_str().is_empty() {
        let mut m = "cursor identity field `".to_owned();
        push_str(&mut m, "source_instance");
        push_str(&mut m, "` must not be empty");
        return Err(StoreError::Other(m));
    }
    Ok(())
}

/// The bytes of each part followed by a zero byte.
pub open spec fn keyed_bytes(parts: Seq<Seq<u8>>) -> Seq<u8>
    decreases parts.len(),
{
    if parts.len() == 0 {
        seq![]
    } else {
        keyed_bytes(parts.drop_last()) + parts.last() + seq![0u8]
    }
}

/// The UTF-8 bytes of each part.
pub open spec fn part_bytes(parts: Seq<&str>) -> Seq<Seq<u8>> {
    parts.map_values(|p: &str| p.spec_bytes())
}

/// The key of a list of parts: the SHA-256 of each part's bytes followed
/// by a zero byte, as lowercase hex.
pub fn ledger_key(parts: &[&str]) -> (r: String)
    ensures
        r@ == hex_bytes(spec_sha256(keyed_bytes(part_bytes(parts@)))),
{
    let mut data: Vec<u8> = Vec::new();
    let mut i: usize = 0;
    while i < parts.len()
        invariant
            i <= parts@.len(),
            data@ == keyed_bytes(part_bytes(parts@.take(i as int))),
        decreases parts@.len() - i,
    {
        let bytes = parts[i].as_bytes();
        let mut j: usize = 0;
        let ghost start = data@;
        while j < bytes.len()
            invariant
                j <= bytes@.len(),
                data@ == start + bytes@.take(j as int),
            decreases bytes@.len() - j,
        {
            data.push(bytes[j]);
            assert(data@ =~= start + bytes@.take(j + 1));
            j += 1;
        }
        data.push(0u8);
        proof {
            assert(part_bytes(parts@.take(i + 1)).drop_last() =~= part_bytes(parts@.take(i as int)));
            assert(bytes@.take(bytes@.len() as int) =~= bytes@);
            assert(data@ =~= keyed_bytes(part_bytes(parts@.take(i + 1))));
        }
        i += 1;
    }
    proof {
        assert(parts@.take(parts@.len() as int) =~= parts@);
    }
    sha256_bytes(&data)
}

/// The key of a cursor: the ledger key of `cursor_state`, scope root,
/// source and source instance.
pub fn cursor_key(scope_root: &str, source: &str, source_instance: &str) -> (r: String)
    ensures
        r@ == hex_bytes(
            spec_sha256(
                keyed_bytes(part_bytes(seq!["cursor_state", scope_root, source, source_instance])),
            ),
        ),
{
    let parts: [&str; 4] = ["cursor_state", scope_root, source, source_instance];
    assert(parts@ =~= seq!["cursor_state", scope_root, source, source_instance]);
    ledger_key(&parts)
}

/// The record id an embedding profile is stored under: its id trimmed,
/// which must not be blank.
pub fn embedding_profile_key(id: &str) -> (r: Result<String, StoreError>)
    ensures
        trim(id@).len() > 0 ==> (r matches Ok(k) && k@ == trim(id@)),
        trim(id@).len() == 0 ==> (r matches Err(StoreError::Other(m)) && m@
            == "embedding_profile.id must be non-empty (use '<provider>:<model>')"@),
{
    let t = trim_string(id);
    if t.as_str().is_empty() {
        return Err(
            StoreError::Other(
                "embedding_profile.id must be non-empty (use '<provider>:<model>')".to_owned(),
            ),
        );
    }
    Ok(t)
}

/// The key a cursor is stored and looked up under, once its identity is
/// valid; a blank identity field is refused.
pub fn validated_cursor_key(scope_root: &str, source: &str, source_instance: &str) -> (r: Result<
    String,
    StoreError,
>)
    ensures
        match blank_identity_field(scope_root@, source@, source_instance@) {
            Some(f) => r matches Err(StoreError::Other(m)) && m@ == "cursor identity field `"@ + f
                + "` must not be empty"@,
            None => r matches Ok(k) && k@ == hex_bytes(
                spec_sha256(
                    keyed_bytes(
                        part_bytes(seq!["cursor_state", scope_root, source, source_instance]),
                    ),
                ),
            ),
        },
{
    validate_cursor_identity(scope_root, source, source_instance)?;
    Ok(cursor_key(scope_root, source, source_instance))
}

} // verus!
