//! Per-kind checks of librarian payloads: source templates must be
//! portable across machines and name only project types the detector
//! emits; instances and projects must not be empty.
use vstd::prelude::*;

use super::error::StoreError;
use crate::text::{join, push_str, seq_eq, str_eq, trim, trim_string, views};
use crate::types::observation::utf8_len;

verus! {

/// Project type tags the detector emits; `any` matches every project.
pub open spec fn known_tags() -> Seq<Seq<char>> {
    seq![
        "any"@,
        "git-repo"@,
        "react-native"@,
        "expo"@,
        "vega"@,
        "kepler"@,
        "nextjs"@,
        "vite"@,
        "tanstack-start"@,
        "rust"@,
        "rust-workspace"@,
        "laravel"@,
        "symfony"@,
        "python"@,
        "django"@,
        "flask"@,
        "fastapi"@,
        "go"@,
        "rails"@,
    ]
}

/// Project type tags the detector emits, in their documented order.
pub fn known_project_type_tags() -> (r: Vec<&'static str>)
    ensures
        r@.map_values(|s: &str| s@) == known_tags(),
{
    let r = vec![
        "any",
        "git-repo",
        "react-native",
        "expo",
        "vega",
        "kepler",
        "nextjs",
        "vite",
        "tanstack-start",
        "rust",
        "rust-workspace",
        "laravel",
        "symfony",
        "python",
        "django",
        "flask",
        "fastapi",
        "go",
        "rails",
    ];
    assert(r@.map_values(|s: &str| s@) =~= known_tags());
    r
}

/// Platforms a template may target.
#[derive(Debug, Clone, Copy, PartialEq, Eq, Structural)]
pub enum Platform {
    Macos,
    Linux,
    Windows,
}

/// What the validator reads of a source template.
#[derive(Debug, Clone)]
pub struct SourceTemplateData {
    pub project_types: Vec<String>,
    pub locator_pattern: String,
    pub platforms: Vec<Platform>,
    pub description: String,
}

/// What the validator reads of a source instance.
#[derive(Debug, Clone)]
pub struct SourceInstanceData {
    pub resolved_path: String,
}

/// What the validator reads of a project node.
#[derive(Debug, Clone)]
pub struct ProjectNodeData {
    pub slug: String,
    pub classification_tags: Vec<String>,
    pub root_path: String,
}

/// Whether `tag` is a known project type tag.
fn is_known_tag(tag: &str) -> (r: bool)
    ensures
        r == known_tags().contains(tag@),
{
    let tags = known_project_type_tags();
    let mut i: usize = 0;
    while i < tags.len()
        invariant
            i <= tags@.len(),
            tags@.map_values(|s: &str| s@) == known_tags(),
            forall|j: int| 0 <= j < i ==> known_tags()[j] != tag@,
        decreases tags@.len() - i,
    {
        if str_eq(tags[i], tag) {
            assert(known_tags()[i as int] == tag@);
            return true;
        }
        i += 1;
    }
    false
}

/// An ASCII letter.
pub open spec fn ascii_alpha(c: char) -> bool {
    ('a' <= c && c <= 'z') || ('A' <= c && c <= 'Z')
}

/// ASCII case-insensitive equality of characters.
pub open spec fn eq_ignore_case(a: char, b: char) -> bool {
    crate::text::lower_char(a) == crate::text::lower_char(b)
}

/// `p` opens like a drive path: an ASCII letter, `:` and a separator.
pub open spec fn drive_prefix(p: Seq<char>) -> bool {
    p.len() >= 3 && ascii_alpha(p[0]) && p[1] == ':' && (p[2] == '\\' || p[2] == '/')
}

/// The byte-level check would cut a character in two: after a drive
/// prefix, six bytes further is not a character boundary.
pub open spec fn cuts_char(p: Seq<char>) -> bool {
    drive_prefix(p) && utf8_len(p.skip(3)) >= 6 && !exists|k: int|
        0 <= k <= p.len() - 3 && #[trigger] utf8_len(p.skip(3).take(k)) == 6
}

/// `<drive>:\Users\` or `<drive>:/Users/` (the `Users` segment and its
/// separator compared ignoring ASCII case) at the start of `p`.
pub open spec fn spec_windows_user_path(p: Seq<char>) -> bool {
    drive_prefix(p) && p.len() >= 9 && {
        let needle = if p[2] == '\\' {
            "Users\\"@
        } else {
            "Users/"@
        };
        forall|k: int| 0 <= k < 6 ==> eq_ignore_case(#[trigger] p[3 + k], needle[k])
    }
}

/// Whether a pattern starts like a Windows user directory.
pub fn is_windows_user_path(pattern: &str) -> (r: bool)
    requires
        !cuts_char(pattern@),
    ensures
        r == spec_windows_user_path(pattern@),
{
    let p = crate::text::chars_of(pattern);
    if p.len() < 9 {
        return false;
    }
    let c0 = p[0];
    if !(('a' <= c0 && c0 <= 'z') || ('A' <= c0 && c0 <= 'Z')) || p[1] != ':' {
        return false;
    }
    let sep = p[2];
    if sep != '\\' && sep != '/' {
        return false;
    }
    let needle: Vec<char> = if sep == '\\' {
        vec!['U', 's', 'e', 'r', 's', '\\']
    } else {
        vec!['U', 's', 'e', 'r', 's', '/']
    };
    proof {
        reveal_strlit("Users\\");
        reveal_strlit("Users/");
        assert(needle@ =~= if sep == '\\' {
            "Users\\"@
        } else {
            "Users/"@
        });
    }
    let mut k: usize = 0;
    while k < 6
        invariant
            k <= 6,
            p@ == pattern@,
            p@.len() >= 9,
            drive_prefix(p@),
            needle@ == (if p@[2] == '\\' {
                "Users\\"@
            } else {
                "Users/"@
            }),
            needle@.len() == 6,
            forall|j: int| 0 <= j < k ==> eq_ignore_case(#[trigger] p@[3 + j], needle@[j]),
        decreases 6 - k,
    {
        if crate::text::to_lower_char(p[3 + k]) != crate::text::to_lower_char(needle[k]) {
            return false;
        }
        k += 1;
    }
    true
}

/// `\\` followed by a character that is no separator.
pub open spec fn spec_unc_path(p: Seq<char>) -> bool {
    p.len() >= 3 && p[0] == '\\' && p[1] == '\\' && p[2] != '\\' && p[2] != '/'
}

/// Whether a pattern is a UNC network path.
pub fn is_unc_path(pattern: &str) -> (r: bool)
    ensures
        r == spec_unc_path(pattern@),
{
    let p = crate::text::chars_of(pattern);
    p.len() >= 3 && p[0] == '\\' && p[1] == '\\' && p[2] != '\\' && p[2] != '/'
}

/// Why a locator pattern is refused, if it is: empty, a home directory
/// path, a Windows user path, or a UNC path (each judged after trimming).
pub open spec fn locator_problem(pattern: Seq<char>) -> Option<Seq<char>> {
    let t = trim(pattern);
    if t.len() == 0 {
        Some("source_template.locator_pattern must not be empty"@)
    } else if crate::text::starts_with(t, "/Users/"@) || crate::text::starts_with(t, "/home/"@) {
        Some(
            "source_template.locator_pattern '"@ + t
                + "' is an absolute home path; use ~ for the user home (portability requirement)"@,
        )
    } else if spec_windows_user_path(t) {
        Some(
            "source_template.locator_pattern '"@ + t
                + "' is an absolute Windows user path; use $LOCALAPPDATA or $USERPROFILE (portability requirement)"@,
        )
    } else if spec_unc_path(t) {
        Some(
            "source_template.locator_pattern '"@ + t
                + "' is a UNC network path; templates must not embed remote shares (portability requirement)"@,
        )
    } else {
        None
    }
}

/// Checks that a locator pattern is portable.
pub fn validate_locator_pattern(pattern: &str) -> (r: Result<(), StoreError>)
    requires
        !cuts_char(trim(pattern@)),
    ensures
        match locator_problem(pattern@) {
            Some(m) => r matches Err(StoreError::Other(e)) && e@ == m,
            None => r is Ok,
        },
{
    let trimmed = trim_string(pattern);
    let t = trimmed.as_str();
    if t.is_empty() {
        return Err(StoreError::Other("source_template.locator_pattern must not be empty".to_owned()));
    }
    let tc = crate::text::chars_of(t);
    let users = crate::text::chars_of("/Users/");
    let home = crate::text::chars_of("/home/");
    if crate::text::has_prefix(tc.as_slice(), users.as_slice()) || crate::text::has_prefix(
        tc.as_slice(),
        home.as_slice(),
    ) {
        let mut m = "source_template.locator_pattern '".to_owned();
        push_str(&mut m, t);
        push_str(
            &mut m,
            "' is an absolute home path; use ~ for the user home (portability requirement)",
        );
        return Err(StoreError::Other(m));
    }
    if is_windows_user_path(t) {
        let mut m = "source_template.locator_pattern '".to_owned();
        push_str(&mut m, t);
        push_str(
            &mut m,
            "' is an absolute Windows user path; use $LOCALAPPDATA or $USERPROFILE (portability requirement)",
        );
        return Err(StoreError::Other(m));
    }
    if is_unc_path(t) {
        let mut m = "source_template.locator_pattern '".to_owned();
        push_str(&mut m, t);
        push_str(
            &mut m,
            "' is a UNC network path; templates must not embed remote shares (portability requirement)",
        );
        return Err(StoreError::Other(m));
    }
    Ok(())
}

/// The first tag of `tags` that is not known, if any.
pub open spec fn first_unknown(tags: Seq<Seq<char>>) -> Option<Seq<char>>
    decreases tags.len(),
{
    if tags.len() == 0 {
        None
    } else {
        match first_unknown(tags.drop_last()) {
            Some(t) => Some(t),
            None => if known_tags().contains(tags.last()) {
                None
            } else {
                Some(tags.last())
            },
        }
    }
}

/// The first unknown tag of a list.
fn find_unknown(tags: &Vec<String>) -> (r: Option<usize>)
    ensures
        match r {
            Some(i) => i < tags@.len() && first_unknown(views(tags@)) == Some(tags@[i as int]@),
            None => first_unknown(views(tags@)) is None,
        },
{
    let mut i: usize = 0;
    while i < tags.len()
        invariant
            i <= tags@.len(),
            first_unknown(views(tags@.take(i as int))) is None,
        decreases tags@.len() - i,
    {
        proof {
            assert(views(tags@.take(i + 1)).drop_last() =~= views(tags@.take(i as int)));
        }
        if !is_known_tag(tags[i].as_str()) {
            proof {
                assert(views(tags@.take(i + 1)) =~= views(tags@).take(i + 1));
                assert(views(tags@.take(i + 1)).last() == tags@[i as int]@);
                assert(first_unknown(views(tags@).take(i + 1)) == Some(tags@[i as int]@));
                lemma_first_unknown_prefix(views(tags@), i as int + 1);
            }
            return Some(i);
        }
        i += 1;
    }
    proof {
        assert(tags@.take(tags@.len() as int) =~= tags@);
    }
    None
}

/// A prefix's first unknown tag is the list's.
proof fn lemma_first_unknown_prefix(tags: Seq<Seq<char>>, n: int)
    requires
        0 <= n <= tags.len(),
        first_unknown(tags.take(n)) is Some,
    ensures
        first_unknown(tags) == first_unknown(tags.take(n)),
    decreases tags.len() - n,
{
    if n < tags.len() {
        assert(tags.take(n + 1).drop_last() =~= tags.take(n));
        lemma_first_unknown_prefix(tags, n + 1);
    } else {
        assert(tags.take(n) =~= tags);
    }
}

/// The known tags joined by `, `.
pub open spec fn known_tags_text() -> Seq<char> {
    join(known_tags(), ", "@)
}

/// The known tags joined by `, `.
fn known_tags_joined() -> (r: String)
    ensures
        r@ == known_tags_text(),
{
    let tags = known_project_type_tags();
    let mut owned: Vec<String> = Vec::new();
    let mut i: usize = 0;
    while i < tags.len()
        invariant
            i <= tags@.len(),
            tags@.map_values(|s: &str| s@) == known_tags(),
            views(owned@) == known_tags().take(i as int),
        decreases tags@.len() - i,
    {
        let ghost before = owned@;
        let x = tags[i].to_owned();
        owned.push(x);
        proof {
            assert(views(owned@) =~= views(before).push(x@));
            assert(known_tags().take(i + 1) =~= known_tags().take(i as int).push(known_tags()[i as int]));
        }
        i += 1;
    }
    proof {
        assert(known_tags().take(19) =~= known_tags());
    }
    crate::text::join_strings(&owned, ", ")
}

/// Why a source template is refused, if it is, in the order checked: no
/// project types, an unknown project type, no platforms, a locator
/// problem, a blank description.
pub open spec fn template_problem(d: SourceTemplateData) -> Option<Seq<char>> {
    if d.project_types@.len() == 0 {
        Some("source_template.project_types must not be empty"@)
    } else if first_unknown(views(d.project_types@)) is Some {
        Some(
            "source_template.project_types contains unknown tag '"@ + first_unknown(
                views(d.project_types@),
            )->0 + "'; known tags: "@ + known_tags_text(),
        )
    } else if d.platforms@.len() == 0 {
        Some(
            "source_template.platforms must not be empty (explicit platforms required for portability)"@,
        )
    } else if locator_problem(d.locator_pattern@) is Some {
        locator_problem(d.locator_pattern@)
    } else if trim(d.description@).len() == 0 {
        Some("source_template.description must not be empty"@)
    } else {
        None
    }
}

/// Checks a source template before it is stored.
pub fn validate_source_template_data(data: &SourceTemplateData) -> (r: Result<(), StoreError>)
    requires
        !cuts_char(trim(data.locator_pattern@)),
    ensures
        match template_problem(*data) {
            Some(m) => r matches Err(StoreError::Other(e)) && e@ == m,
            None => r is Ok,
        },
{
    if data.project_types.len() == 0 {
        return Err(StoreError::Other("source_template.project_types must not be empty".to_owned()));
    }
    if let Some(i) = find_unknown(&data.project_types) {
        let mut m = "source_template.project_types contains unknown tag '".to_owned();
        push_str(&mut m, data.project_types[i].as_str());
        push_str(&mut m, "'; known tags: ");
        let all = known_tags_joined();
        push_str(&mut m, all.as_str());
        return Err(StoreError::Other(m));
    }
    if data.platforms.len() == 0 {
        return Err(
            StoreError::Other(
                "source_template.platforms must not be empty (explicit platforms required for portability)".to_owned(),
            ),
        );
    }
    match validate_locator_pattern(data.locator_pattern.as_str()) {
        Err(e) => {
            return Err(e);
        },
        Ok(()) => {},
    }
    let d = trim_string(data.description.as_str());
    if d.as_str().is_empty() {
        return Err(StoreError::Other("source_template.description must not be empty".to_owned()));
    }
    Ok(())
}

/// Checks a source instance: its resolved path must not be empty.
pub fn validate_source_instance_data(data: &SourceInstanceData) -> (r: Result<(), StoreError>)
    ensures
        data.resolved_path@.len() == 0 ==> (r matches Err(StoreError::Other(e)) && e@
            == "source_instance.resolved_path must not be empty"@),
        data.resolved_path@.len() > 0 ==> r is Ok,
{
    if data.resolved_path.as_str().is_empty() {
        return Err(StoreError::Other("source_instance.resolved_path must not be empty".to_owned()));
    }
    Ok(())
}

/// Why a project node is refused, if it is: blank slug, no tags, an
/// unknown tag, an empty root path.
pub open spec fn project_problem(d: ProjectNodeData) -> Option<Seq<char>> {
    if trim(d.slug@).len() == 0 {
        Some("project.slug must not be empty"@)
    } else if d.classification_tags@.len() == 0 {
        Some("project.classification_tags must not be empty"@)
    } else if first_unknown(views(d.classification_tags@)) is Some {
        Some(
            "project.classification_tags contains unknown tag '"@ + first_unknown(
                views(d.classification_tags@),
            )->0 + "'"@,
        )
    } else if d.root_path@.len() == 0 {
        Some("project.root_path must not be empty"@)
    } else {
        None
    }
}

/// Checks a project node before it is stored.
pub fn validate_project_node_data(data: &ProjectNodeData) -> (r: Result<(), StoreError>)
    ensures
        match project_problem(*data) {
            Some(m) => r matches Err(StoreError::Other(e)) && e@ == m,
            None => r is Ok,
        },
{
    let slug = trim_string(data.slug.as_str());
    if slug.as_str().is_empty() {
        return Err(StoreError::Other("project.slug must not be empty".to_owned()));
    }
    if data.classification_tags.len() == 0 {
        return Err(StoreError::Other("project.classification_tags must not be empty".to_owned()));
    }
    if let Some(i) = find_unknown(&data.classification_tags) {
        let mut m = "project.classification_tags contains unknown tag '".to_owned();
        push_str(&mut m, data.classification_tags[i].as_str());
        push_str(&mut m, "'");
        return Err(StoreError::Other(m));
    }
    if data.root_path.as_str().is_empty() {
        return Err(StoreError::Other("project.root_path must not be empty".to_owned()));
    }
    Ok(())
}

} // verus!
