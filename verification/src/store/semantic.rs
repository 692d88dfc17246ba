//! Semantic memory over observations and documents: the text an
//! observation is indexed by, how long content is cut into overlapping
//! chunks, the hashed token slots of the embedding, and the content hash
//! that tells whether a document changed.
use vstd::prelude::*;

use super::hash_cache::{default_hash_of_text, spec_default_hash, FieldView};
use crate::text::{chars_of, is_ws, push_char, push_str, slice_to_vec, string_of, trim};

verus! {

/// Number of embedding dimensions.
pub const EMBEDDING_DIMENSIONS: usize = 256;

/// Characters per chunk.
pub const CHUNK_SIZE: usize = 1200;

/// Characters shared by neighbouring chunks.
pub const CHUNK_OVERLAP: usize = 200;

/// Origin, kind tag and payload on separate lines, then the source file
/// when there is one.
pub fn observation_text(
    origin_json: &str,
    kind_tag: &str,
    data_json: &str,
    source_file: Option<&str>,
) -> (r: String)
    ensures
        r@ == origin_json@ + seq!['\n'] + kind_tag@ + seq!['\n'] + data_json@ + match source_file {
            Some(f) => seq!['\n'] + f@,
            None => seq![],
        },
{
    let mut text = origin_json.to_owned();
    push_char(&mut text, '\n');
    push_str(&mut text, kind_tag);
    push_char(&mut text, '\n');
    push_str(&mut text, data_json);
    if let Some(file) = source_file {
        push_char(&mut text, '\n');
        push_str(&mut text, file);
    }
    text
}

/// The chunks of `s` from position `start`: each takes up to 1200
/// characters, and the next starts 200 before the end of the previous one
/// until the end is reached.
pub open spec fn chunks_from(s: Seq<char>, start: int) -> Seq<Seq<char>>
    decreases s.len() - start,
{
    if start < 0 || start >= s.len() {
        seq![]
    } else {
        let end = if start + 1200 < s.len() {
            start + 1200
        } else {
            s.len() as int
        };
        if end == s.len() {
            seq![s.subrange(start, end)]
        } else {
            seq![s.subrange(start, end)] + chunks_from(s, end - 200)
        }
    }
}

/// The chunks of a text: the whole text when it has at most 1200
/// characters, else overlapping windows.
pub open spec fn spec_chunks(s: Seq<char>) -> Seq<Seq<char>> {
    if s.len() <= 1200 {
        seq![s]
    } else {
        chunks_from(s, 0)
    }
}

/// Cuts content into overlapping chunks.
pub fn chunk_text(content: &str) -> (r: Vec<String>)
    ensures
        crate::text::views(r@) == spec_chunks(content@),
{
    let chars = chars_of(content);
    if chars.len() <= CHUNK_SIZE {
        let r = vec![content.to_owned()];
        assert(crate::text::views(r@) =~= seq![content@]);
        return r;
    }
    let n = chars.len();
    let mut chunks: Vec<String> = Vec::new();
    let mut start: usize = 0;
    loop
        invariant
            n == chars@.len(),
            chars@ == content@,
            n > 1200,
            start < n,
            crate::text::views(chunks@) + chunks_from(chars@, start as int) == chunks_from(
                chars@,
                0,
            ),
        decreases n - start,
    {
        let end: usize = if n - start > CHUNK_SIZE {
            start + CHUNK_SIZE
        } else {
            n
        };
        let piece = slice_to_vec(chars.as_slice(), start, end);
        let ghost before = chunks@;
        let chunk = string_of(piece.as_slice());
        chunks.push(chunk);
        proof {
            assert(crate::text::views(chunks@) =~= crate::text::views(before).push(
                chars@.subrange(start as int, end as int),
            ));
        }
        if end == n {
            proof {
                assert(crate::text::views(chunks@) =~= crate::text::views(before) + chunks_from(
                    chars@,
                    start as int,
                ));
                assert(chunks_from(chars@, 0) =~= spec_chunks(content@));
            }
            return chunks;
        }
        proof {
            assert(chunks_from(chars@, start as int) =~= seq![
                chars@.subrange(start as int, end as int),
            ] + chunks_from(chars@, end - 200));
            assert(crate::text::views(chunks@) + chunks_from(chars@, end - 200) =~= crate::text::views(
                before,
            ) + chunks_from(chars@, start as int));
        }
        start = end - CHUNK_OVERLAP;
    }
}

/// An ASCII letter or digit.
pub open spec fn ascii_alnum(c: char) -> bool {
    ('a' <= c && c <= 'z') || ('A' <= c && c <= 'Z') || ('0' <= c && c <= '9')
}

/// The maximal runs of ASCII letters and digits of `s`, in order.
pub open spec fn tokens(s: Seq<char>) -> Seq<Seq<char>>
    decreases s.len(),
{
    if s.len() == 0 {
        seq![]
    } else {
        let prev = tokens(s.drop_last());
        if !ascii_alnum(s.last()) {
            prev
        } else if s.len() >= 2 && ascii_alnum(s[s.len() - 2]) {
            prev.update(prev.len() - 1, prev.last().push(s.last()))
        } else {
            prev.push(seq![s.last()])
        }
    }
}

/// A text's tokens are non-empty, and a text ending in a letter or digit
/// has one.
proof fn lemma_tokens_shape(s: Seq<char>)
    ensures
        s.len() > 0 && ascii_alnum(s.last()) ==> tokens(s).len() > 0,
        s.len() >= 2 && ascii_alnum(s[s.len() - 2]) ==> tokens(s.drop_last()).len() > 0,
    decreases s.len(),
{
    if s.len() > 0 {
        lemma_tokens_shape(s.drop_last());
        if s.len() >= 2 && ascii_alnum(s[s.len() - 2]) {
            assert(s.drop_last().last() == s[s.len() - 2]);
        }
    }
}

/// The embedding slot of a token hash: its remainder by 256, with a
/// positive sign when the quotient is even.
pub open spec fn slot_of(h: u64) -> (usize, bool) {
    let x = h as usize;
    ((x % 256) as usize, (x / 256) % 2 == 0)
}

/// The slot of each token, lowercased and hashed, in order.
pub open spec fn token_slots(s: Seq<char>) -> Seq<(usize, bool)> {
    tokens(s).map_values(
        |t: Seq<char>| slot_of(spec_default_hash(seq![FieldView::Str(crate::text::lower(t))])),
    )
}

/// The slot each token of the text adds its sign to.
pub fn embedding_slots(text: &str) -> (r: Vec<(usize, bool)>)
    ensures
        r@ == token_slots(text@),
{
    let cs = chars_of(text);
    let mut toks: Vec<Vec<char>> = Vec::new();
    let mut i: usize = 0;
    while i < cs.len()
        invariant
            i <= cs@.len(),
            cs@ == text@,
            toks@.map_values(|v: Vec<char>| v@) == tokens(cs@.take(i as int)),
        decreases cs@.len() - i,
    {
        let c = cs[i];
        let ghost prefix = cs@.take(i + 1);
        proof {
            assert(prefix.drop_last() =~= cs@.take(i as int));
            assert(prefix.last() == c);
            lemma_tokens_shape(prefix);
            if i >= 1 {
                assert(prefix[prefix.len() - 2] == cs@[i - 1]);
            }
        }
        let alnum = ('a' <= c && c <= 'z') || ('A' <= c && c <= 'Z') || ('0' <= c && c <= '9');
        if alnum {
            let prev_alnum = i > 0 && {
                let p = cs[i - 1];
                ('a' <= p && p <= 'z') || ('A' <= p && p <= 'Z') || ('0' <= p && p <= '9')
            };
            let ghost before = toks@;
            if prev_alnum {
                proof {
                    assert(tokens(cs@.take(i as int)).len() > 0);
                }
                let last = toks.len() - 1;
                let mut t = toks.pop().unwrap();
                let ghost t0 = t@;
                t.push(c);
                toks.push(t);
                proof {
                    let tv = before.map_values(|v: Vec<char>| v@);
                    assert(t0 == tv.last());
                    assert(toks@ =~= before.drop_last().push(t));
                    assert(toks@.map_values(|v: Vec<char>| v@) =~= tv.update(
                        tv.len() - 1,
                        tv.last().push(c),
                    ));
                    assert(ascii_alnum(c));
                    assert(ascii_alnum(prefix[prefix.len() - 2]));
                    assert(tv == tokens(prefix.drop_last()));
                    assert(prefix.len() >= 2);
                    assert(tokens(prefix) == tv.update(tv.len() - 1, tv.last().push(c)));
                    assert(toks@.map_values(|v: Vec<char>| v@) =~= tokens(prefix));
                }
            } else {
                let single = vec![c];
                assert(single@ =~= seq![c]);
                toks.push(single);
                proof {
                    let tv = before.map_values(|v: Vec<char>| v@);
                    assert(ascii_alnum(c));
                    assert(!(prefix.len() >= 2 && ascii_alnum(prefix[prefix.len() - 2])));
                    assert(tv == tokens(prefix.drop_last()));
                    assert(tokens(prefix) == tv.push(seq![c]));
                    assert(toks@.map_values(|v: Vec<char>| v@) =~= tokens(prefix));
                }
            }
        }
        i += 1;
    }
    proof {
        assert(cs@.take(cs@.len() as int) =~= cs@);
    }
    let mut r: Vec<(usize, bool)> = Vec::new();
    let mut k: usize = 0;
    while k < toks.len()
        invariant
            k <= toks@.len(),
            toks@.map_values(|v: Vec<char>| v@) == tokens(text@),
            r@ == token_slots(text@).take(k as int),
        decreases toks@.len() - k,
    {
        let word = string_of(toks[k].as_slice());
        let low = crate::text::to_ascii_lowercase(word.as_str());
        let h = default_hash_of_text(low);
        let x: usize = #[verifier::truncate] (h as usize);
        r.push((x % EMBEDDING_DIMENSIONS, (x / EMBEDDING_DIMENSIONS) % 2 == 0));
        proof {
            assert(tokens(text@)[k as int] == toks@[k as int]@);
            assert(r@ =~= token_slots(text@).take(k + 1));
        }
        k += 1;
    }
    r
}

/// Sixteen lowercase hex digits of `h`, most significant first.
pub open spec fn hex16(h: u64) -> Seq<char> {
    Seq::new(16, |i: int| super::error_hash::hex_digit(((h >> ((60 - 4 * i) as u64)) & 15) as u8))
}

/// The content hash of a document: its hash as sixteen hex digits.
pub fn stable_hash(content: &str) -> (r: String)
    ensures
        r@ == hex16(spec_default_hash(seq![FieldView::Str(content@)])),
{
    let h = default_hash_of_text(content.to_owned());
    let mut out = String::new();
    let mut i: usize = 0;
    while i < 16
        invariant
            i <= 16,
            h == spec_default_hash(seq![FieldView::Str(content@)]),
            out@ == hex16(h).take(i as int),
        decreases 16 - i,
    {
        let shift: u64 = (60 - 4 * i) as u64;
        let nib: u8 = ((h >> shift) & 15) as u8;
        assert(((h >> shift) & 15) < 16) by (bit_vector);
        let c = if nib < 10 {
            (nib + 48) as char
        } else {
            (nib + 87) as char
        };
        push_char(&mut out, c);
        proof {
            assert(out@ =~= hex16(h).take(i + 1));
        }
        i += 1;
    }
    proof {
        assert(hex16(h).take(16) =~= hex16(h));
    }
    out
}

/// What storing a document does: nothing for blank content, nothing when
/// the stored hash matches, else replace the stored row's chunks, or
/// insert a new row.
#[derive(Debug, Clone, PartialEq, Eq, Structural)]
pub enum UpsertAction {
    Skip,
    Unchanged,
    Update(i64),
    Insert,
}

/// The action for `content` with hash `hash` against the stored row
/// (id and hash), if any.
pub open spec fn spec_upsert_action(
    content: Seq<char>,
    hash: Seq<char>,
    existing: Option<(i64, Seq<char>)>,
) -> UpsertAction {
    if trim(content).len() == 0 {
        UpsertAction::Skip
    } else {
        match existing {
            Some((id, h)) => if h == hash {
                UpsertAction::Unchanged
            } else {
                UpsertAction::Update(id)
            },
            None => UpsertAction::Insert,
        }
    }
}

/// The stored row (id and hash) after an action: an update or insert
/// records `hash` (an insert under the new row id `new_id`); skipping or
/// leaving the row unchanged keeps what was stored.
pub open spec fn row_after(
    action: UpsertAction,
    hash: Seq<char>,
    existing: Option<(i64, Seq<char>)>,
    new_id: i64,
) -> Option<(i64, Seq<char>)> {
    match action {
        UpsertAction::Skip => existing,
        UpsertAction::Unchanged => existing,
        UpsertAction::Update(id) => Some((id, hash)),
        UpsertAction::Insert => Some((new_id, hash)),
    }
}

/// Storing the same document twice: whatever was stored before, the second
/// store of the same content writes nothing (it is skipped for blank
/// content and finds the row unchanged otherwise).
pub proof fn lemma_upsert_twice_writes_nothing(
    content: Seq<char>,
    hash: Seq<char>,
    existing: Option<(i64, Seq<char>)>,
    new_id: i64,
)
    ensures
        ({
            let first = spec_upsert_action(content, hash, existing);
            let second = spec_upsert_action(content, hash, row_after(first, hash, existing, new_id));
            &&& second == (if trim(content).len() == 0 {
                UpsertAction::Skip
            } else {
                UpsertAction::Unchanged
            })
            &&& row_after(second, hash, row_after(first, hash, existing, new_id), new_id)
                == row_after(first, hash, existing, new_id)
        }),
{
}

/// The action for content with hash `hash`, given the stored row's id and
/// hash when there is one.
pub fn upsert_action(content: &str, hash: &str, existing: Option<(i64, String)>) -> (r:
    UpsertAction)
    ensures
        r == spec_upsert_action(
            content@,
            hash@,
            match existing {
                Some((id, h)) => Some((id, h@)),
                None => None,
            },
        ),
{
    let t = crate::text::trim_string(content);
    if t.as_str().is_empty() {
        return UpsertAction::Skip;
    }
    match existing {
        Some((id, h)) => {
            if crate::text::str_eq(h.as_str(), hash) {
                UpsertAction::Unchanged
            } else {
                UpsertAction::Update(id)
            }
        },
        None => UpsertAction::Insert,
    }
}

} // verus!
