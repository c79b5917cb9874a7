//! Clipboard history: classifying an offered selection, choosing the MIME
//! type to pull, previews and ages shown in the launcher, the `;` search and
//! the custom operations its menu actions carry.
use image::GenericImageView;
use vstd::prelude::*;

use crate::clipboard_store::{evict_count, spec_over_caps, spec_sum, MAX_ENTRIES, MAX_SINGLE_ENTRY, MAX_TOTAL_BLOB_BYTES};
use crate::error::DomainError;
use crate::system_tray::{base64_standard, data_uri, spec_base64_standard};
use crate::json::{field_str, spec_field_str, JsonValue};
use crate::text::{
    spec_last_segment,
    chars_vec, concat, contains, decimal, extend_chars, extend_str, join_space, lines, owned,
    spec_contains, spec_decimal, spec_join_space, spec_lines, spec_starts_with, spec_to_lowercase,
    spec_trim, spec_words, split_whitespace, starts_with, str_eq, string_of, string_of_range,
    string_views, to_lowercase, trim, views,
};

verus! {

/// The broad category of a clipboard selection.
#[derive(Debug, Clone, Copy, PartialEq, Eq)]
pub enum ClipKind {
    Image,
    File,
    Text,
    Binary,
}

pub open spec fn spec_any_eq(types: Seq<Seq<char>>, t: Seq<char>) -> bool {
    exists|i: int| 0 <= i < types.len() && #[trigger] types[i] == t
}

pub open spec fn spec_any_prefix(types: Seq<Seq<char>>, p: Seq<char>) -> bool {
    exists|i: int| 0 <= i < types.len() && spec_starts_with(#[trigger] types[i], p)
}

/// An `image/*` type makes an image, else `text/uri-list` a file, else any
/// `text/*` type text; anything else is binary.
pub open spec fn spec_classify(types: Seq<Seq<char>>) -> ClipKind {
    if spec_any_prefix(types, "image/"@) {
        ClipKind::Image
    } else if spec_any_eq(types, "text/uri-list"@) {
        ClipKind::File
    } else if spec_any_prefix(types, "text/"@) {
        ClipKind::Text
    } else {
        ClipKind::Binary
    }
}

/// The kind of a selection depends only on which types are offered: two
/// offers holding the same types (in any order, any number of times) are
/// classified alike, and offering more types that start with neither
/// `image/` nor `text/` changes nothing.
pub proof fn law_classify_depends_on_offered_types(
    a: Seq<Seq<char>>,
    b: Seq<Seq<char>>,
    extra: Seq<Seq<char>>,
)
    requires
        forall|x: Seq<char>| a.contains(x) <==> b.contains(x),
        forall|j: int|
            0 <= j < extra.len() ==> !spec_starts_with(#[trigger] extra[j], "image/"@)
                && !spec_starts_with(extra[j], "text/"@),
    ensures
        spec_classify(a) == spec_classify(b),
        spec_classify(a + extra) == spec_classify(a),
{
    reveal_strlit("text/uri-list");
    reveal_strlit("text/");
    assert(spec_starts_with("text/uri-list"@, "text/"@)) by {
        assert("text/uri-list"@.subrange(0, 5) =~= "text/"@);
    }
    assert forall|p: Seq<char>| spec_any_prefix(a, p) <==> spec_any_prefix(b, p) by {
        if spec_any_prefix(a, p) {
            let i = choose|i: int| 0 <= i < a.len() && spec_starts_with(#[trigger] a[i], p);
            assert(a.contains(a[i]));
            let j = choose|j: int| 0 <= j < b.len() && b[j] == a[i];
            assert(spec_starts_with(b[j], p));
        }
        if spec_any_prefix(b, p) {
            let i = choose|i: int| 0 <= i < b.len() && spec_starts_with(#[trigger] b[i], p);
            assert(b.contains(b[i]));
            let j = choose|j: int| 0 <= j < a.len() && a[j] == b[i];
            assert(spec_starts_with(a[j], p));
        }
    }
    assert forall|t: Seq<char>| spec_any_eq(a, t) <==> spec_any_eq(b, t) by {
        if spec_any_eq(a, t) {
            let i = choose|i: int| 0 <= i < a.len() && #[trigger] a[i] == t;
            assert(a.contains(a[i]));
        }
        if spec_any_eq(b, t) {
            let i = choose|i: int| 0 <= i < b.len() && #[trigger] b[i] == t;
            assert(b.contains(b[i]));
        }
    }
    let c = a + extra;
    assert forall|p: Seq<char>| (p == "image/"@ || p == "text/"@) implies (spec_any_prefix(c, p)
        <==> spec_any_prefix(a, p)) by {
        if spec_any_prefix(c, p) {
            let i = choose|i: int| 0 <= i < c.len() && spec_starts_with(#[trigger] c[i], p);
            if i >= a.len() {
                assert(c[i] == extra[i - a.len()]);
                assert(false);
            }
            assert(c[i] == a[i]);
        }
        if spec_any_prefix(a, p) {
            let i = choose|i: int| 0 <= i < a.len() && spec_starts_with(#[trigger] a[i], p);
            assert(c[i] == a[i]);
        }
    }
    assert(spec_any_eq(c, "text/uri-list"@) <==> spec_any_eq(a, "text/uri-list"@)) by {
        if spec_any_eq(c, "text/uri-list"@) {
            let i = choose|i: int| 0 <= i < c.len() && #[trigger] c[i] == "text/uri-list"@;
            if i >= a.len() {
                assert(c[i] == extra[i - a.len()]);
                assert(false);
            }
            assert(c[i] == a[i]);
        }
        if spec_any_eq(a, "text/uri-list"@) {
            let i = choose|i: int| 0 <= i < a.len() && #[trigger] a[i] == "text/uri-list"@;
            assert(c[i] == a[i]);
        }
    }
}

/// The index of the first type equal to `t`.
pub open spec fn spec_first_eq(types: Seq<Seq<char>>, t: Seq<char>) -> Option<int>
    decreases types.len(),
{
    if types.len() == 0 {
        None
    } else {
        match spec_first_eq(types.drop_last(), t) {
            Some(i) => Some(i),
            None => if types.last() == t {
                Some(types.len() - 1)
            } else {
                None
            },
        }
    }
}

/// The index of the first type starting with `p`.
pub open spec fn spec_first_prefix(types: Seq<Seq<char>>, p: Seq<char>) -> Option<int>
    decreases types.len(),
{
    if types.len() == 0 {
        None
    } else {
        match spec_first_prefix(types.drop_last(), p) {
            Some(i) => Some(i),
            None => if spec_starts_with(types.last(), p) {
                Some(types.len() - 1)
            } else {
                None
            },
        }
    }
}

proof fn lemma_first_eq_some(types: Seq<Seq<char>>, t: Seq<char>)
    ensures
        spec_first_eq(types, t) is Some <==> spec_any_eq(types, t),
        match spec_first_eq(types, t) {
            Some(i) => 0 <= i < types.len() && types[i] == t,
            None => true,
        },
    decreases types.len(),
{
    if types.len() > 0 {
        lemma_first_eq_some(types.drop_last(), t);
        if spec_any_eq(types, t) {
            let i = choose|i: int| 0 <= i < types.len() && #[trigger] types[i] == t;
            if i < types.len() - 1 {
                assert(types.drop_last()[i] == t);
            }
        }
        if spec_any_eq(types.drop_last(), t) {
            let i = choose|i: int| 0 <= i < types.drop_last().len() && #[trigger] types.drop_last()[i]
                == t;
            assert(types[i] == t);
        }
    }
}

proof fn lemma_first_prefix_some(types: Seq<Seq<char>>, p: Seq<char>)
    ensures
        spec_first_prefix(types, p) is Some <==> spec_any_prefix(types, p),
        match spec_first_prefix(types, p) {
            Some(i) => 0 <= i < types.len() && spec_starts_with(types[i], p),
            None => true,
        },
    decreases types.len(),
{
    if types.len() > 0 {
        lemma_first_prefix_some(types.drop_last(), p);
        if spec_any_prefix(types, p) {
            let i = choose|i: int| 0 <= i < types.len() && spec_starts_with(#[trigger] types[i], p);
            if i < types.len() - 1 {
                assert(types.drop_last()[i] == types[i]);
            }
        }
        if spec_any_prefix(types.drop_last(), p) {
            let i = choose|i: int|
                0 <= i < types.drop_last().len() && spec_starts_with(
                    #[trigger] types.drop_last()[i],
                    p,
                );
            assert(types[i] == types.drop_last()[i]);
        }
    }
}

fn first_eq(types: &[String], t: &str) -> (r: Option<usize>)
    ensures
        match spec_first_eq(string_views(types@), t@) {
            Some(i) => r == Some(i as usize),
            None => r is None,
        },
{
    let ghost s = string_views(types@);
    let mut found: Option<usize> = None;
    let mut i: usize = 0;
    while i < types.len()
        invariant
            i <= types@.len(),
            s == string_views(types@),
            match spec_first_eq(s.take(i as int), t@) {
                Some(k) => found == Some(k as usize) && k < i,
                None => found is None,
            },
        decreases types@.len() - i,
    {
        assert(s.take(i + 1).drop_last() =~= s.take(i as int));
        assert(s.take(i + 1).last() == types@[i as int]@);
        if found.is_none() && str_eq(types[i].as_str(), t) {
            found = Some(i);
        }
        i += 1;
    }
    assert(s.take(i as int) =~= s);
    found
}

fn first_prefix(types: &[String], p: &str) -> (r: Option<usize>)
    ensures
        match spec_first_prefix(string_views(types@), p@) {
            Some(i) => r == Some(i as usize),
            None => r is None,
        },
{
    let ghost s = string_views(types@);
    let mut found: Option<usize> = None;
    let mut i: usize = 0;
    while i < types.len()
        invariant
            i <= types@.len(),
            s == string_views(types@),
            match spec_first_prefix(s.take(i as int), p@) {
                Some(k) => found == Some(k as usize) && k < i,
                None => found is None,
            },
        decreases types@.len() - i,
    {
        assert(s.take(i + 1).drop_last() =~= s.take(i as int));
        assert(s.take(i + 1).last() == types@[i as int]@);
        if found.is_none() {
            let v = chars_vec(types[i].as_str());
            if starts_with(&v, p) {
                found = Some(i);
            }
        }
        i += 1;
    }
    assert(s.take(i as int) =~= s);
    found
}

/// Classify a selection from the MIME types it offers.
pub fn classify(types: &[String]) -> (r: ClipKind)
    ensures
        r == spec_classify(string_views(types@)),
{
    let ghost s = string_views(types@);
    proof {
        lemma_first_prefix_some(s, "image/"@);
        lemma_first_eq_some(s, "text/uri-list"@);
        lemma_first_prefix_some(s, "text/"@);
    }
    if first_prefix(types, "image/").is_some() {
        ClipKind::Image
    } else if first_eq(types, "text/uri-list").is_some() {
        ClipKind::File
    } else if first_prefix(types, "text/").is_some() {
        ClipKind::Text
    } else {
        ClipKind::Binary
    }
}

/// `wl-paste --list-types` output: its lines, trimmed, blank ones dropped.
pub open spec fn spec_parse_list_types(stdout: Seq<char>) -> Seq<Seq<char>> {
    spec_lines(stdout).map_values(|l: Seq<char>| spec_trim(l)).filter(
        |l: Seq<char>| l.len() > 0,
    )
}

pub fn parse_list_types(stdout: &str) -> (r: Vec<String>)
    ensures
        string_views(r@) == spec_parse_list_types(stdout@),
{
    let v = chars_vec(stdout);
    let ls = lines(&v);
    let ghost trimmed = views(ls@).map_values(|l: Seq<char>| spec_trim(l));
    let ghost keep = |l: Seq<char>| l.len() > 0;
    let mut out: Vec<String> = Vec::new();
    let mut i: usize = 0;
    proof {
        reveal(Seq::filter);
        assert(trimmed.take(0) =~= Seq::<Seq<char>>::empty());
        assert(string_views(out@) =~= trimmed.take(0).filter(keep));
    }
    while i < ls.len()
        invariant
            i <= ls.len(),
            trimmed == views(ls@).map_values(|l: Seq<char>| spec_trim(l)),
            keep == (|l: Seq<char>| l.len() > 0),
            string_views(out@) == trimmed.take(i as int).filter(keep),
        decreases ls.len() - i,
    {
        let t = trim(&ls[i]);
        proof {
            reveal(Seq::filter);
            assert(trimmed.take(i + 1).drop_last() =~= trimmed.take(i as int));
            assert(trimmed.take(i + 1).last() == t@);
        }
        if t.len() > 0 {
            let ghost prev = string_views(out@);
            out.push(string_of(&t));
            assert(string_views(out@) =~= prev.push(t@));
        }
        i += 1;
    }
    assert(trimmed.take(i as int) =~= trimmed);
    assert(views(ls@) == spec_lines(v@));
    out
}

/// The MIME type to pull: for an image `image/png`, else the first `image/*`;
/// for text or files the first `text/plain*`, else the first `text/*`, else
/// the first type; for binary the first type.
pub open spec fn spec_preferred_type(kind: ClipKind, types: Seq<Seq<char>>) -> Option<Seq<char>> {
    let first = if types.len() > 0 {
        Some(types[0])
    } else {
        None
    };
    match kind {
        ClipKind::Image => match spec_first_eq(types, "image/png"@) {
            Some(i) => Some(types[i]),
            None => match spec_first_prefix(types, "image/"@) {
                Some(i) => Some(types[i]),
                None => None,
            },
        },
        ClipKind::Text | ClipKind::File => match spec_first_prefix(types, "text/plain"@) {
            Some(i) => Some(types[i]),
            None => match spec_first_prefix(types, "text/"@) {
                Some(i) => Some(types[i]),
                None => first,
            },
        },
        ClipKind::Binary => first,
    }
}

pub open spec fn opt_string_view(o: Option<String>) -> Option<Seq<char>> {
    match o {
        Some(s) => Some(s@),
        None => None,
    }
}

pub fn preferred_type(kind: ClipKind, types: &[String]) -> (r: Option<String>)
    ensures
        opt_string_view(r) == spec_preferred_type(kind, string_views(types@)),
{
    let ghost s = string_views(types@);
    proof {
        lemma_first_eq_some(s, "image/png"@);
        lemma_first_prefix_some(s, "image/"@);
        lemma_first_prefix_some(s, "text/plain"@);
        lemma_first_prefix_some(s, "text/"@);
    }
    let first = if types.len() > 0 {
        Some(types[0].clone())
    } else {
        None
    };
    match kind {
        ClipKind::Image => match first_eq(types, "image/png") {
            Some(i) => Some(types[i].clone()),
            None => match first_prefix(types, "image/") {
                Some(i) => Some(types[i].clone()),
                None => None,
            },
        },
        ClipKind::Text | ClipKind::File => match first_prefix(types, "text/plain") {
            Some(i) => Some(types[i].clone()),
            None => match first_prefix(types, "text/") {
                Some(i) => Some(types[i].clone()),
                None => first,
            },
        },
        ClipKind::Binary => first,
    }
}

// ---------------------------------------------------------------------------
// Previews and ages.
// ---------------------------------------------------------------------------

/// White-space runs collapsed to single spaces and the ends trimmed; longer
/// than `max` characters, the first `max` of them followed by an ellipsis.
pub open spec fn spec_collapse_cap(text: Seq<char>, max: nat) -> Seq<char> {
    let collapsed = spec_join_space(spec_words(text));
    if collapsed.len() > max {
        collapsed.take(max as int) + seq!['\u{2026}']
    } else {
        collapsed
    }
}

fn collapse_cap(text: &str, max: usize) -> (r: String)
    ensures
        r@ == spec_collapse_cap(text@, max as nat),
{
    let v = chars_vec(text);
    let words = split_whitespace(&v);
    let mut collapsed = join_space(&words);
    if collapsed.len() > max {
        let mut head: Vec<char> = Vec::new();
        let mut i: usize = 0;
        while i < max
            invariant
                i <= max,
                max < collapsed@.len(),
                head@ == collapsed@.take(i as int),
            decreases max - i,
        {
            head.push(collapsed[i]);
            i += 1;
            assert(head@ =~= collapsed@.take(i as int));
        }
        head.push('\u{2026}');
        string_of(&head)
    } else {
        string_of(&collapsed)
    }
}

/// A single-line title for a text entry (capped at 80 characters).
pub fn single_line(text: &str) -> (r: String)
    ensures
        r@ == spec_collapse_cap(text@, 80),
{
    collapse_cap(text, 80)
}

/// The preview stored with copied text (capped at 120 characters).
pub fn text_preview(full: &str) -> (r: String)
    ensures
        r@ == spec_collapse_cap(full@, 120),
{
    collapse_cap(full, 120)
}

/// `just now` under a minute, then whole minutes, hours or days (`5m ago`,
/// `3h ago`, `2d ago`); a creation time in the future counts as now.
pub open spec fn spec_relative_age(created_unix: u64, now_unix: u64) -> Seq<char> {
    let seconds: nat = if now_unix >= created_unix {
        (now_unix - created_unix) as nat
    } else {
        0
    };
    if seconds < 60 {
        "just now"@
    } else if seconds < 3600 {
        spec_decimal(seconds / 60) + "m ago"@
    } else if seconds < 86400 {
        spec_decimal(seconds / 3600) + "h ago"@
    } else {
        spec_decimal(seconds / 86400) + "d ago"@
    }
}

pub fn relative_age(created_unix: u64, now_unix: u64) -> (r: String)
    ensures
        r@ == spec_relative_age(created_unix, now_unix),
{
    let seconds = now_unix.saturating_sub(created_unix);
    if seconds < 60 {
        owned("just now")
    } else {
        let (n, unit) = if seconds < 3600 {
            (seconds / 60, "m ago")
        } else if seconds < 86400 {
            (seconds / 3600, "h ago")
        } else {
            (seconds / 86400, "d ago")
        };
        let mut v = decimal(n);
        extend_str(&mut v, unit);
        string_of(&v)
    }
}


/// A binary entry's display name: the last path segment of its blob path, or
/// its MIME type when that segment is empty.
pub open spec fn spec_file_name_or(mime: Seq<char>, blob_path: Seq<char>) -> Seq<char> {
    let name = spec_last_segment(blob_path);
    if name.len() == 0 {
        mime
    } else {
        name
    }
}

pub fn file_name_or(mime: &str, blob_path: &str) -> (r: String)
    ensures
        r@ == spec_file_name_or(mime@, blob_path@),
{
    let v = chars_vec(blob_path);
    let mut start: usize = 0;
    let mut i: usize = 0;
    while i < v.len()
        invariant
            i <= v.len(),
            start <= i,
            v@.subrange(start as int, i as int) == spec_last_segment(v@.take(i as int)),
        decreases v.len() - i,
    {
        assert(v@.take(i + 1).drop_last() =~= v@.take(i as int));
        if v[i] == '/' {
            start = i + 1;
            assert(v@.subrange(start as int, i + 1) =~= Seq::<char>::empty());
        } else {
            assert(v@.subrange(start as int, i + 1) =~= v@.subrange(start as int, i as int).push(
                v@[i as int],
            ));
        }
        i += 1;
    }
    assert(v@.take(i as int) =~= v@);
    if start == v.len() {
        owned(mime)
    } else {
        string_of_range(&v, start, v.len())
    }
}

/// A text entry matches a lower-cased needle found in its lower-cased preview
/// or full text.
pub open spec fn spec_text_matches(preview: Seq<char>, full: Seq<char>, needle: Seq<char>) -> bool {
    spec_contains(spec_to_lowercase(preview), needle) || spec_contains(
        spec_to_lowercase(full),
        needle,
    )
}

pub fn text_matches(preview: &str, full: &str, needle: &str) -> (r: bool)
    ensures
        r == spec_text_matches(preview@, full@, needle@),
{
    let p = to_lowercase(preview);
    let pv = chars_vec(p.as_str());
    if contains(&pv, needle) {
        return true;
    }
    let f = to_lowercase(full);
    let fv = chars_vec(f.as_str());
    contains(&fv, needle)
}


// ---------------------------------------------------------------------------
// The watcher's command.
// ---------------------------------------------------------------------------

#[verifier::external_type_specification]
#[verifier::external_body]
pub struct ExShellWordsParseError(shell_words::ParseError);

/// What `shell_words::split` returns for `s`: its words by Unix shell quoting
/// rules, or `None` when the quoting is unbalanced.
pub uninterp spec fn spec_shell_split(s: Seq<char>) -> Option<Seq<Seq<char>>>;

/// `shell_words::split`: the result is the named function of the input.
#[verifier::external_body]
fn shell_split(s: &str) -> (r: Result<Vec<String>, shell_words::ParseError>)
    ensures
        match r {
            Ok(v) => spec_shell_split(s@) == Some(string_views(v@)),
            Err(_) => spec_shell_split(s@) is None,
        },
{
    shell_words::split(s)
}

/// The long-lived watch command: a non-empty configured command split into
/// words (none when its quoting is broken); else `wl-paste --watch` when
/// `wl-paste` is on `PATH`; else nothing (the watcher cannot start).
pub open spec fn spec_resolve_clipboard_watcher(config: Option<Seq<char>>, wl_paste_found: bool) -> Seq<
    Seq<char>,
> {
    match config {
        Some(raw) if raw.len() > 0 => match spec_shell_split(raw) {
            Some(words) => words,
            None => Seq::empty(),
        },
        _ => if wl_paste_found {
            seq!["wl-paste"@, "--watch"@]
        } else {
            Seq::empty()
        },
    }
}

pub fn resolve_clipboard_watcher(config: Option<&str>, wl_paste_found: bool) -> (r: Vec<String>)
    ensures
        string_views(r@) == spec_resolve_clipboard_watcher(
            match config {
                Some(c) => Some(c@),
                None => None,
            },
            wl_paste_found,
        ),
{
    match config {
        Some(raw) => {
            if !raw.is_empty() {
                return match shell_split(raw) {
                    Ok(words) => words,
                    Err(_) => {
                        let v: Vec<String> = Vec::new();
                        assert(string_views(v@) =~= Seq::<Seq<char>>::empty());
                        v
                    },
                };
            }
        },
        None => {},
    }
    let mut v: Vec<String> = Vec::new();
    if wl_paste_found {
        v.push(owned("wl-paste"));
        v.push(owned("--watch"));
        assert(string_views(v@) =~= seq!["wl-paste"@, "--watch"@]);
    } else {
        assert(string_views(v@) =~= Seq::<Seq<char>>::empty());
    }
    v
}

// ---------------------------------------------------------------------------
// History entries and the `;` search.
// ---------------------------------------------------------------------------

/// One clipboard history entry.
#[derive(Debug)]
pub enum ClipboardEntry {
    Text { id: String, created_unix: u64, size_bytes: u64, preview: String, full: String },
    Image {
        id: String,
        created_unix: u64,
        size_bytes: u64,
        preview_thumb: String,
        width: u32,
        height: u32,
        blob_path: String,
    },
    Binary { id: String, created_unix: u64, size_bytes: u64, mime: String, blob_path: String },
}

impl ClipboardEntry {
    pub open spec fn spec_id(&self) -> Seq<char> {
        match self {
            ClipboardEntry::Text { id, .. } => id@,
            ClipboardEntry::Image { id, .. } => id@,
            ClipboardEntry::Binary { id, .. } => id@,
        }
    }

    pub open spec fn spec_created_unix(&self) -> u64 {
        match self {
            ClipboardEntry::Text { created_unix, .. } => *created_unix,
            ClipboardEntry::Image { created_unix, .. } => *created_unix,
            ClipboardEntry::Binary { created_unix, .. } => *created_unix,
        }
    }

    pub open spec fn spec_size_bytes(&self) -> u64 {
        match self {
            ClipboardEntry::Text { size_bytes, .. } => *size_bytes,
            ClipboardEntry::Image { size_bytes, .. } => *size_bytes,
            ClipboardEntry::Binary { size_bytes, .. } => *size_bytes,
        }
    }

    pub fn id(&self) -> (r: &str)
        ensures
            r@ == self.spec_id(),
    {
        match self {
            ClipboardEntry::Text { id, .. } => id.as_str(),
            ClipboardEntry::Image { id, .. } => id.as_str(),
            ClipboardEntry::Binary { id, .. } => id.as_str(),
        }
    }

    pub fn created_unix(&self) -> (r: u64)
        ensures
            r == self.spec_created_unix(),
    {
        match self {
            ClipboardEntry::Text { created_unix, .. } => *created_unix,
            ClipboardEntry::Image { created_unix, .. } => *created_unix,
            ClipboardEntry::Binary { created_unix, .. } => *created_unix,
        }
    }

    pub fn size_bytes(&self) -> (r: u64)
        ensures
            r == self.spec_size_bytes(),
    {
        match self {
            ClipboardEntry::Text { size_bytes, .. } => *size_bytes,
            ClipboardEntry::Image { size_bytes, .. } => *size_bytes,
            ClipboardEntry::Binary { size_bytes, .. } => *size_bytes,
        }
    }

    /// The blob file of a blob-backed entry (image, binary).
    pub fn blob_path(&self) -> (r: Option<&str>)
        ensures
            match self {
                ClipboardEntry::Text { .. } => r is None,
                ClipboardEntry::Image { blob_path, .. } => r matches Some(p) && p@ == blob_path@,
                ClipboardEntry::Binary { blob_path, .. } => r matches Some(p) && p@ == blob_path@,
            },
    {
        match self {
            ClipboardEntry::Text { .. } => None,
            ClipboardEntry::Image { blob_path, .. } => Some(blob_path.as_str()),
            ClipboardEntry::Binary { blob_path, .. } => Some(blob_path.as_str()),
        }
    }
}

/// The needle of a `;` query: the text after `;`, trimmed and lower-cased;
/// `None` for a query without the prefix.
pub open spec fn spec_clipboard_needle(query: Seq<char>) -> Option<Seq<char>> {
    if query.len() > 0 && query[0] == ';' {
        Some(spec_to_lowercase(spec_trim(query.skip(1))))
    } else {
        None
    }
}

pub fn clipboard_needle(query: &str) -> (r: Option<String>)
    ensures
        opt_string_view(r) == spec_clipboard_needle(query@),
{
    let v = chars_vec(query);
    if v.len() == 0 || v[0] != ';' {
        return None;
    }
    let rest = string_of_range(&v, 1, v.len());
    let rv = chars_vec(rest.as_str());
    assert(rv@ =~= query@.skip(1));
    let t = trim(&rv);
    let ts = string_of(&t);
    Some(to_lowercase(ts.as_str()))
}

/// An entry shown for a needle: every entry for the empty needle; otherwise
/// only text entries whose preview or full text matches it.
pub open spec fn spec_entry_visible(e: ClipboardEntry, needle: Seq<char>) -> bool {
    if needle.len() == 0 {
        true
    } else {
        match e {
            ClipboardEntry::Text { preview, full, .. } => spec_text_matches(preview@, full@, needle),
            _ => false,
        }
    }
}

pub fn entry_visible(e: &ClipboardEntry, needle: &str) -> (r: bool)
    ensures
        r == spec_entry_visible(*e, needle@),
{
    if needle.is_empty() {
        return true;
    }
    match e {
        ClipboardEntry::Text { preview, full, .. } => text_matches(
            preview.as_str(),
            full.as_str(),
            needle,
        ),
        _ => false,
    }
}

/// Insert index `x` after every index of an entry at least as new (a stable
/// newest-first order).
pub open spec fn spec_insert_newest(s: Seq<int>, x: int, created: Seq<u64>) -> Seq<int>
    decreases s.len(),
{
    if s.len() == 0 {
        seq![x]
    } else if created[s.last()] >= created[x] {
        s.push(x)
    } else {
        spec_insert_newest(s.drop_last(), x, created).push(s.last())
    }
}

/// The indices `0..n` of the visible entries, newest first; equally new ones
/// keep their order.
pub open spec fn spec_newest_first(n: int, visible: spec_fn(int) -> bool, created: Seq<u64>) -> Seq<int>
    decreases n,
{
    if n <= 0 {
        Seq::empty()
    } else if visible(n - 1) {
        spec_insert_newest(spec_newest_first(n - 1, visible, created), n - 1, created)
    } else {
        spec_newest_first(n - 1, visible, created)
    }
}

/// Entry `a` is listed before entry `b`: it is newer, or as new and stored
/// earlier.
pub open spec fn spec_listed_before(created: Seq<u64>, a: int, b: int) -> bool {
    created[a] > created[b] || (created[a] == created[b] && a < b)
}

pub open spec fn spec_listed_in_order(s: Seq<int>, created: Seq<u64>) -> bool {
    forall|i: int, j: int|
        0 <= i < j < s.len() ==> spec_listed_before(created, #[trigger] s[i], #[trigger] s[j])
}

proof fn lemma_insert_newest(s: Seq<int>, x: int, created: Seq<u64>)
    requires
        spec_listed_in_order(s, created),
        forall|i: int| 0 <= i < s.len() ==> 0 <= #[trigger] s[i] < x,
        x < created.len(),
    ensures
        spec_listed_in_order(spec_insert_newest(s, x, created), created),
        spec_insert_newest(s, x, created).len() == s.len() + 1,
        forall|y: int|
            #[trigger] spec_insert_newest(s, x, created).contains(y) <==> (s.contains(y) || y == x),
    decreases s.len(),
{
    let r = spec_insert_newest(s, x, created);
    if s.len() == 0 {
        assert forall|y: int| #[trigger] r.contains(y) <==> (s.contains(y) || y == x) by {
            if r.contains(y) {
                assert(r[0] == x);
            }
            if y == x {
                assert(r[0] == y);
            }
        }
    } else if created[s.last()] >= created[x] {
        let last = s.len() - 1;
        assert forall|i: int, j: int| 0 <= i < j < r.len() implies spec_listed_before(
            created,
            #[trigger] r[i],
            #[trigger] r[j],
        ) by {
            if j == r.len() - 1 {
                assert(r[j] == x);
                assert(r[i] == s[i]);
                if i < last {
                    assert(spec_listed_before(created, s[i], s[last]));
                }
            } else {
                assert(r[i] == s[i] && r[j] == s[j]);
            }
        }
        assert forall|y: int| #[trigger] r.contains(y) <==> (s.contains(y) || y == x) by {
            if r.contains(y) {
                let k = choose|k: int| 0 <= k < r.len() && r[k] == y;
                if k < s.len() {
                    assert(s[k] == y);
                }
            }
            if s.contains(y) {
                let k = choose|k: int| 0 <= k < s.len() && s[k] == y;
                assert(r[k] == y);
            }
            if y == x {
                assert(r[r.len() - 1] == y);
            }
        }
    } else {
        let d = s.drop_last();
        let l = s.last();
        assert forall|i: int, j: int| 0 <= i < j < d.len() implies spec_listed_before(
            created,
            #[trigger] d[i],
            #[trigger] d[j],
        ) by {
            assert(d[i] == s[i] && d[j] == s[j]);
        }
        assert forall|i: int| 0 <= i < d.len() implies 0 <= #[trigger] d[i] < x by {
            assert(d[i] == s[i]);
        }
        lemma_insert_newest(d, x, created);
        let rec = spec_insert_newest(d, x, created);
        assert(r == rec.push(l));
        assert(l == s[s.len() - 1]);
        assert forall|i: int, j: int| 0 <= i < j < r.len() implies spec_listed_before(
            created,
            #[trigger] r[i],
            #[trigger] r[j],
        ) by {
            if j == r.len() - 1 {
                assert(r[j] == l);
                assert(r[i] == rec[i]);
                assert(rec.contains(rec[i]));
                if rec[i] != x {
                    assert(d.contains(rec[i]));
                    let k = choose|k: int| 0 <= k < d.len() && d[k] == rec[i];
                    assert(d[k] == s[k]);
                    assert(spec_listed_before(created, s[k], s[s.len() - 1]));
                }
            } else {
                assert(r[i] == rec[i] && r[j] == rec[j]);
            }
        }
        assert forall|y: int| #[trigger] r.contains(y) <==> (s.contains(y) || y == x) by {
            if r.contains(y) {
                let k = choose|k: int| 0 <= k < r.len() && r[k] == y;
                if k < rec.len() {
                    assert(rec[k] == y);
                    assert(rec.contains(y));
                    if d.contains(y) {
                        let m = choose|m: int| 0 <= m < d.len() && d[m] == y;
                        assert(s[m] == y);
                    }
                } else {
                    assert(s[s.len() - 1] == y);
                }
            }
            if s.contains(y) {
                let k = choose|k: int| 0 <= k < s.len() && s[k] == y;
                if k < s.len() - 1 {
                    assert(d[k] == y);
                    assert(d.contains(y));
                    assert(rec.contains(y));
                    let m = choose|m: int| 0 <= m < rec.len() && rec[m] == y;
                    assert(r[m] == y);
                } else {
                    assert(r[r.len() - 1] == y);
                }
            }
            if y == x {
                assert(rec.contains(y));
                let m = choose|m: int| 0 <= m < rec.len() && rec[m] == y;
                assert(r[m] == y);
            }
        }
    }
}

/// The `;` search lists exactly the visible entries, each once, newest
/// first, and equally new ones in their stored order.
pub proof fn law_search_lists_newest_first(n: int, visible: spec_fn(int) -> bool, created: Seq<u64>)
    requires
        0 <= n <= created.len(),
    ensures
        spec_listed_in_order(spec_newest_first(n, visible, created), created),
        forall|k: int|
            #[trigger] spec_newest_first(n, visible, created).contains(k) <==> (0 <= k < n
                && visible(k)),
        forall|i: int|
            0 <= i < spec_newest_first(n, visible, created).len() ==> 0 <= #[trigger] spec_newest_first(
                n,
                visible,
                created,
            )[i] < n,
    decreases n,
{
    if n > 0 {
        law_search_lists_newest_first(n - 1, visible, created);
        let prev = spec_newest_first(n - 1, visible, created);
        if visible(n - 1) {
            lemma_insert_newest(prev, n - 1, created);
            let r = spec_newest_first(n, visible, created);
            assert forall|i: int| 0 <= i < r.len() implies 0 <= #[trigger] r[i] < n by {
                assert(r.contains(r[i]));
                if r[i] != n - 1 {
                    assert(prev.contains(r[i]));
                    let k = choose|k: int| 0 <= k < prev.len() && prev[k] == r[i];
                    assert(0 <= prev[k] < n - 1);
                }
            }
        }
    }
}

pub open spec fn created_of(entries: Seq<ClipboardEntry>) -> Seq<u64> {
    entries.map_values(|e: ClipboardEntry| e.spec_created_unix())
}

pub open spec fn usize_ints(v: Seq<usize>) -> Seq<int> {
    v.map_values(|i: usize| i as int)
}

fn insert_newest(order: &mut Vec<usize>, x: usize, created: &Vec<u64>)
    requires
        x < created@.len(),
        forall|k: int| 0 <= k < old(order)@.len() ==> (#[trigger] old(order)@[k]) < created@.len(),
    ensures
        usize_ints(final(order)@) == spec_insert_newest(usize_ints(old(order)@), x as int, created@),
        forall|k: int| 0 <= k < final(order)@.len() ==> (#[trigger] final(order)@[k]) < created@.len(),
{
    let ghost s0 = usize_ints(order@);
    let mut j: usize = order.len();
    assert(s0.skip(j as int) =~= Seq::<int>::empty());
    assert(s0.take(j as int) =~= s0);
    while j > 0 && created[order[j - 1]] < created[x]
        invariant
            j <= order@.len(),
            order@ == old(order)@,
            s0 == usize_ints(order@),
            x < created@.len(),
            forall|k: int| 0 <= k < order@.len() ==> (#[trigger] order@[k]) < created@.len(),
            spec_insert_newest(s0, x as int, created@) == spec_insert_newest(
                s0.take(j as int),
                x as int,
                created@,
            ) + s0.skip(j as int),
        decreases j,
    {
        assert(s0.take(j as int).drop_last() =~= s0.take(j - 1));
        assert(s0.take(j as int).last() == s0[j - 1]);
        assert(s0.skip(j - 1) =~= seq![s0[j - 1]] + s0.skip(j as int));
        assert(spec_insert_newest(s0.take(j - 1), x as int, created@).push(s0[j - 1]) + s0.skip(
            j as int,
        ) =~= spec_insert_newest(s0.take(j - 1), x as int, created@) + s0.skip(j - 1));
        j -= 1;
    }
    proof {
        if j > 0 {
            assert(s0.take(j as int).last() == s0[j - 1]);
            assert(spec_insert_newest(s0.take(j as int), x as int, created@) == s0.take(
                j as int,
            ).push(x as int));
        } else {
            assert(s0.take(0) =~= Seq::<int>::empty());
        }
    }
    order.insert(j, x);
    proof {
        assert(usize_ints(order@) =~= s0.take(j as int).push(x as int) + s0.skip(j as int));
    }
}

/// The entries a `;` query shows, as indices into `entries`, newest first
/// (equally new ones in their stored order); none without the `;` prefix.
pub fn clipboard_search_order(entries: &Vec<ClipboardEntry>, query: &str) -> (r: Vec<usize>)
    ensures
        match spec_clipboard_needle(query@) {
            None => r@.len() == 0,
            Some(needle) => usize_ints(r@) == spec_newest_first(
                entries@.len() as int,
                |i: int| spec_entry_visible(entries@[i], needle),
                created_of(entries@),
            ),
        },
{
    let needle = match clipboard_needle(query) {
        Some(n) => n,
        None => {
            return Vec::new();
        },
    };
    let ghost vis = |i: int| spec_entry_visible(entries@[i], needle@);
    let mut created: Vec<u64> = Vec::new();
    let mut k: usize = 0;
    while k < entries.len()
        invariant
            k <= entries@.len(),
            created@ =~= created_of(entries@).take(k as int),
        decreases entries@.len() - k,
    {
        created.push(entries[k].created_unix());
        k += 1;
    }
    assert(created@ =~= created_of(entries@));
    let mut order: Vec<usize> = Vec::new();
    let mut i: usize = 0;
    assert(usize_ints(order@) =~= Seq::<int>::empty());
    while i < entries.len()
        invariant
            i <= entries@.len(),
            created@ == created_of(entries@),
            vis == (|i: int| spec_entry_visible(entries@[i], needle@)),
            forall|k: int| 0 <= k < order@.len() ==> (#[trigger] order@[k]) < created@.len(),
            usize_ints(order@) == spec_newest_first(i as int, vis, created@),
        decreases entries@.len() - i,
    {
        if entry_visible(&entries[i], needle.as_str()) {
            insert_newest(&mut order, i, &created);
        }
        i += 1;
    }
    order
}

/// The title of an entry's match: the single-line text preview, `Image WxH`,
/// or a binary entry's file name (or MIME type).
pub open spec fn spec_entry_title(e: ClipboardEntry) -> Seq<char> {
    match e {
        ClipboardEntry::Text { preview, .. } => spec_collapse_cap(preview@, 80),
        ClipboardEntry::Image { width, height, .. } => "Image "@ + spec_decimal(width as nat) + "x"@
            + spec_decimal(height as nat),
        ClipboardEntry::Binary { mime, blob_path, .. } => spec_file_name_or(mime@, blob_path@),
    }
}

pub fn entry_title(e: &ClipboardEntry) -> (r: String)
    ensures
        r@ == spec_entry_title(*e),
{
    match e {
        ClipboardEntry::Text { preview, .. } => single_line(preview.as_str()),
        ClipboardEntry::Image { width, height, .. } => {
            let mut v: Vec<char> = Vec::new();
            extend_str(&mut v, "Image ");
            let w = decimal(*width as u64);
            extend_chars(&mut v, &w);
            v.push('x');
            let h = decimal(*height as u64);
            extend_chars(&mut v, &h);
            proof {
                reveal_strlit("x");
            }
            assert(v@ =~= "Image "@ + spec_decimal(*width as nat) + "x"@ + spec_decimal(
                *height as nat,
            ));
            string_of(&v)
        },
        ClipboardEntry::Binary { mime, blob_path, .. } => file_name_or(
            mime.as_str(),
            blob_path.as_str(),
        ),
    }
}

// ---------------------------------------------------------------------------
// Store errors and menu operations.
// ---------------------------------------------------------------------------

/// Errors of the clipboard store.
#[derive(Debug)]
pub enum ClipboardError {
    NotFound(String),
    Persistence(String),
}

/// A missing entry is `NotFound`; a persistence failure `ActionFailed`.
pub fn map_store_error(error: ClipboardError) -> (r: DomainError)
    ensures
        match error {
            ClipboardError::NotFound(id) => r == DomainError::NotFound(id),
            ClipboardError::Persistence(reason) => r == (DomainError::ActionFailed { reason }),
        },
{
    match error {
        ClipboardError::NotFound(id) => DomainError::NotFound(id),
        ClipboardError::Persistence(reason) => DomainError::ActionFailed { reason },
    }
}

/// A clipboard menu operation.
#[derive(Debug)]
pub enum ClipboardOp {
    Recopy { id: String },
    Delete { id: String },
    Clear,
}

/// The operation a `clipboard` custom payload names (`op`: `recopy` or
/// `delete` with an `id`, or `clear`); `None` when the payload is invalid.
pub open spec fn spec_parse_clipboard_op(payload: JsonValue) -> Option<(int, Seq<char>)> {
    match spec_field_str(payload, "op"@) {
        Some(op) => if op == "recopy"@ {
            match spec_field_str(payload, "id"@) {
                Some(id) => Some((0, id)),
                None => None,
            }
        } else if op == "delete"@ {
            match spec_field_str(payload, "id"@) {
                Some(id) => Some((1, id)),
                None => None,
            }
        } else if op == "clear"@ {
            Some((2, Seq::empty()))
        } else {
            None
        },
        None => None,
    }
}

/// Read a `clipboard` custom payload. A recopy or delete without an `id` is
/// `InvalidQuery`; an unknown or missing `op` is `Unsupported`
/// (`unknown clipboard operation: <op or <missing>>`).
pub fn parse_clipboard_op(payload: &JsonValue) -> (r: Result<ClipboardOp, DomainError>)
    ensures
        match spec_parse_clipboard_op(*payload) {
            Some((k, id)) => match r {
                Ok(ClipboardOp::Recopy { id: i }) => k == 0 && i@ == id,
                Ok(ClipboardOp::Delete { id: i }) => k == 1 && i@ == id,
                Ok(ClipboardOp::Clear) => k == 2,
                Err(_) => false,
            },
            None => match r {
                Ok(_) => false,
                Err(DomainError::InvalidQuery(m)) => spec_field_str(*payload, "op"@) matches Some(op)
                    && (op == "recopy"@ || op == "delete"@) && m@ == "clipboard "@ + op
                    + " requires an id"@,
                Err(DomainError::Unsupported(m)) => m@ == "unknown clipboard operation: "@ + match spec_field_str(
                    *payload,
                    "op"@,
                ) {
                    Some(op) => op,
                    None => "<missing>"@,
                },
                Err(_) => false,
            },
        },
{
    let op = match field_str(payload, "op") {
        Some(op) => op,
        None => {
            return Err(
                DomainError::Unsupported(concat("unknown clipboard operation: ", "<missing>")),
            );
        },
    };
    if str_eq(op.as_str(), "recopy") || str_eq(op.as_str(), "delete") {
        let is_recopy = str_eq(op.as_str(), "recopy");
        match field_str(payload, "id") {
            Some(id) => if is_recopy {
                Ok(ClipboardOp::Recopy { id })
            } else {
                Ok(ClipboardOp::Delete { id })
            },
            None => {
                let m = concat("clipboard ", op.as_str());
                Err(DomainError::InvalidQuery(concat(m.as_str(), " requires an id")))
            },
        }
    } else if str_eq(op.as_str(), "clear") {
        Ok(ClipboardOp::Clear)
    } else {
        Err(DomainError::Unsupported(concat("unknown clipboard operation: ", op.as_str())))
    }
}

/// What re-offering an entry to the clipboard writes.
#[derive(Debug)]
pub enum RecopyStep {
    /// Write this text.
    Text(String),
    /// Read the blob at `path` and write its bytes under `mime`.
    Blob { path: String, mime: String },
}

/// The first entry with id `id`.
pub open spec fn spec_first_entry_with_id(entries: Seq<ClipboardEntry>, id: Seq<char>) -> Option<int> {
    if exists|i: int| 0 <= i < entries.len() && entries[i].spec_id() == id {
        Some(choose|i: int| 0 <= i < entries.len() && entries[i].spec_id() == id
            && forall|j: int| 0 <= j < i ==> entries[j].spec_id() != id)
    } else {
        None
    }
}

/// What recopying `id` writes: the full text of a text entry, the PNG blob
/// of an image, a binary entry's blob under its MIME type; an unknown id is
/// `NotFound(id)`.
pub fn recopy_step(entries: &Vec<ClipboardEntry>, id: &str) -> (r: Result<RecopyStep, DomainError>)
    ensures
        match r {
            Ok(step) => exists|i: int| 0 <= i < entries@.len() && entries@[i].spec_id() == id@
                && (forall|j: int| 0 <= j < i ==> entries@[j].spec_id() != id@)
                && match entries@[i] {
                    ClipboardEntry::Text { full, .. } => step == RecopyStep::Text(full),
                    ClipboardEntry::Image { blob_path, .. } => step matches RecopyStep::Blob { path, mime }
                        && path == blob_path && mime@ == "image/png"@,
                    ClipboardEntry::Binary { blob_path, mime: m, .. } => step == (RecopyStep::Blob { path: blob_path, mime: m }),
                },
            Err(e) => e == DomainError::NotFound(e->NotFound_0) && e->NotFound_0@ == id@
                && forall|i: int| 0 <= i < entries@.len() ==> entries@[i].spec_id() != id@,
        },
{
    let mut i: usize = 0;
    while i < entries.len()
        invariant
            i <= entries@.len(),
            forall|j: int| 0 <= j < i ==> entries@[j].spec_id() != id@,
        decreases entries@.len() - i,
    {
        if str_eq(entries[i].id(), id) {
            let step = match &entries[i] {
                ClipboardEntry::Text { full, .. } => RecopyStep::Text(full.clone()),
                ClipboardEntry::Image { blob_path, .. } => RecopyStep::Blob { path: blob_path.clone(), mime: owned("image/png") },
                ClipboardEntry::Binary { blob_path, mime, .. } => RecopyStep::Blob { path: blob_path.clone(), mime: mime.clone() },
            };
            return Ok(step);
        }
        i += 1;
    }
    Err(DomainError::NotFound(owned(id)))
}

// ---------------------------------------------------------------------------
// History maintenance: appending with eviction, live rows, orphan blobs.
// ---------------------------------------------------------------------------

/// The sizes of the entries, in order.
pub open spec fn spec_sizes(s: Seq<ClipboardEntry>) -> Seq<u64> {
    s.map_values(|e: ClipboardEntry| e.spec_size_bytes())
}

/// The ids of the entries, in order.
pub open spec fn spec_ids(s: Seq<ClipboardEntry>) -> Seq<Seq<char>> {
    s.map_values(|e: ClipboardEntry| e.spec_id())
}

/// The history after appending `entry`: the new entry goes last, then the
/// fewest oldest entries are evicted that bring the history within
/// `MAX_ENTRIES` entries and `MAX_TOTAL_BLOB_BYTES` bytes. Returns the kept
/// history and the ids of the evicted entries (whose blobs are deleted).
pub fn history_after_append(entries: Vec<ClipboardEntry>, entry: ClipboardEntry) -> (r: (Vec<ClipboardEntry>, Vec<String>))
    ensures
        exists|k: int| #![trigger spec_over_caps(spec_sizes(entries@.push(entry)), k)] {
            let all = entries@.push(entry);
            &&& 0 <= k <= all.len()
            &&& !spec_over_caps(spec_sizes(all), k)
            &&& forall|j: int| 0 <= j < k ==> spec_over_caps(spec_sizes(all), j)
            &&& r.0@ == all.skip(k)
            &&& string_views(r.1@) == spec_ids(all.take(k))
        },
{
    let mut all = entries;
    all.push(entry);
    let ghost full = all@;
    let mut sizes: Vec<u64> = Vec::new();
    let mut i: usize = 0;
    while i < all.len()
        invariant
            i <= all@.len(),
            all@ == full,
            sizes@ == spec_sizes(full).take(i as int),
        decreases all@.len() - i,
    {
        sizes.push(all[i].size_bytes());
        assert(sizes@ =~= spec_sizes(full).take(i + 1));
        i += 1;
    }
    assert(sizes@ =~= spec_sizes(full));
    let k = evict_count(sizes.as_slice());
    let mut evicted: Vec<String> = Vec::new();
    let mut n: usize = 0;
    while n < k
        invariant
            n <= k <= full.len(),
            all@ == full.skip(n as int),
            string_views(evicted@) == spec_ids(full.take(n as int)),
        decreases k - n,
    {
        let ghost before = all@;
        let e = all.remove(0);
        assert(all@ =~= full.skip(n + 1));
        let ghost ev = string_views(evicted@);
        evicted.push(owned(e.id()));
        assert(full.take(n + 1) =~= full.take(n as int).push(full[n as int]));
        assert(string_views(evicted@) =~= ev.push(full[n as int].spec_id()));
        assert(spec_ids(full.take(n + 1)) =~= spec_ids(full.take(n as int)).push(full[n as int].spec_id()));
        n += 1;
    }
    assert(!spec_over_caps(spec_sizes(full), k as int));
    (all, evicted)
}

/// Whether a row survives loading: a text row always, a blob-backed row only
/// when its blob file is present.
pub open spec fn spec_row_live(e: ClipboardEntry, blob_present: bool) -> bool {
    e is Text || blob_present
}

/// The rows a load keeps, given whether each row's blob file is present.
pub open spec fn spec_live_rows(s: Seq<ClipboardEntry>, present: Seq<bool>) -> Seq<ClipboardEntry>
    decreases s.len(),
{
    if s.len() == 0 {
        Seq::empty()
    } else {
        let rest = spec_live_rows(s.drop_last(), present);
        if spec_row_live(s.last(), present[s.len() - 1]) {
            rest.push(s.last())
        } else {
            rest
        }
    }
}

/// The rows kept on load: rows whose blob file has gone missing are dropped.
pub fn live_rows(entries: Vec<ClipboardEntry>, blob_present: &Vec<bool>) -> (r: Vec<ClipboardEntry>)
    requires
        blob_present@.len() == entries@.len(),
    ensures
        r@ == spec_live_rows(entries@, blob_present@),
{
    let ghost full = entries@;
    let mut rest = entries;
    let total = rest.len();
    let mut out: Vec<ClipboardEntry> = Vec::new();
    let mut i: usize = 0;
    while rest.len() > 0
        invariant
            i + rest@.len() == full.len(),
            full.len() == total,
            blob_present@.len() == full.len(),
            rest@ == full.skip(i as int),
            out@ == spec_live_rows(full.take(i as int), blob_present@),
        decreases rest@.len(),
    {
        let e = rest.remove(0);
        assert(rest@ =~= full.skip(i + 1));
        assert(full.take(i + 1).drop_last() =~= full.take(i as int));
        assert(full.take(i + 1).last() == full[i as int]);
        let live = match &e {
            ClipboardEntry::Text { .. } => true,
            _ => blob_present[i],
        };
        if live {
            out.push(e);
        }
        i += 1;
    }
    assert(full.take(full.len() as int) =~= full);
    out
}

/// A blob file whose id no kept row carries is an orphan, deleted on load.
pub fn is_orphan_blob(id: &str, rows: &Vec<ClipboardEntry>) -> (r: bool)
    ensures
        r == forall|i: int| 0 <= i < rows@.len() ==> rows@[i].spec_id() != id@,
{
    let mut i: usize = 0;
    while i < rows.len()
        invariant
            i <= rows@.len(),
            forall|j: int| 0 <= j < i ==> rows@[j].spec_id() != id@,
        decreases rows@.len() - i,
    {
        if str_eq(rows[i].id(), id) {
            return false;
        }
        i += 1;
    }
    true
}

/// The history without the rows carrying `id`, and whether any was removed
/// (only then is the blob deleted).
pub fn remove_rows(entries: Vec<ClipboardEntry>, id: &str) -> (r: (Vec<ClipboardEntry>, bool))
    ensures
        r.0@ == entries@.filter(|e: ClipboardEntry| e.spec_id() != id@),
        r.1 == exists|i: int| 0 <= i < entries@.len() && entries@[i].spec_id() == id@,
{
    let ghost full = entries@;
    let ghost keep = |e: ClipboardEntry| e.spec_id() != id@;
    let mut rest = entries;
    let total = rest.len();
    let mut out: Vec<ClipboardEntry> = Vec::new();
    let mut removed = false;
    let mut i: usize = 0;
    proof {
        reveal(Seq::filter);
        assert(full.take(0).filter(keep) =~= Seq::<ClipboardEntry>::empty());
    }
    while rest.len() > 0
        invariant
            i + rest@.len() == full.len(),
            full.len() == total,
            rest@ == full.skip(i as int),
            keep == (|e: ClipboardEntry| e.spec_id() != id@),
            out@ == full.take(i as int).filter(keep),
            removed == exists|j: int| 0 <= j < i && full[j].spec_id() == id@,
        decreases rest@.len(),
    {
        let e = rest.remove(0);
        assert(rest@ =~= full.skip(i + 1));
        proof {
            reveal(Seq::filter);
            assert(full.take(i + 1).drop_last() =~= full.take(i as int));
            assert(full.take(i + 1).last() == full[i as int]);
        }
        if str_eq(e.id(), id) {
            removed = true;
        } else {
            out.push(e);
        }
        i += 1;
    }
    assert(full.take(full.len() as int) =~= full);
    (out, removed)
}

/// An admitted entry is never evicted by its own append: the kept history
/// ends with it, holds at most `MAX_ENTRIES` entries, and stays within
/// `MAX_TOTAL_BLOB_BYTES` bytes.
pub proof fn law_append_keeps_the_new_entry(entries: Seq<ClipboardEntry>, entry: ClipboardEntry, k: int)
    requires
        entry.spec_size_bytes() <= MAX_SINGLE_ENTRY,
        0 <= k <= entries.len() + 1,
        !spec_over_caps(spec_sizes(entries.push(entry)), k),
        forall|j: int| 0 <= j < k ==> spec_over_caps(spec_sizes(entries.push(entry)), j),
    ensures
        k <= entries.len(),
        entries.push(entry).skip(k).last() == entry,
        entries.push(entry).skip(k).len() <= MAX_ENTRIES,
        spec_sum(spec_sizes(entries.push(entry).skip(k))) <= MAX_TOTAL_BLOB_BYTES,
{
    let all = entries.push(entry);
    let n = entries.len() as int;
    let sizes = spec_sizes(all);
    assert(sizes.skip(n) =~= seq![entry.spec_size_bytes()]);
    let one = seq![entry.spec_size_bytes()];
    assert(one.skip(1) =~= Seq::<u64>::empty());
    assert(spec_sum(one.skip(1)) == 0);
    assert(spec_sum(one) == one[0] + spec_sum(one.skip(1)));
    assert(!spec_over_caps(sizes, n));
    assert(spec_sizes(all.skip(k)) =~= sizes.skip(k));
}

// ---------------------------------------------------------------------------
// Image entries: their dimensions and thumbnail.
// ---------------------------------------------------------------------------

/// The largest edge of a clipboard image thumbnail, in pixels.
pub const THUMBNAIL_MAX_EDGE: u32 = 128;

/// The width and height of the image `image::load_from_memory` decodes from
/// these bytes (`None` when it cannot decode them).
pub uninterp spec fn spec_decoded_dimensions(bytes: Seq<u8>) -> Option<(u32, u32)>;

/// `image::load_from_memory(bytes)`, then `dimensions()` of the decoded image.
#[verifier::external_body]
fn decoded_dimensions(bytes: &[u8]) -> (r: Option<(u32, u32)>)
    ensures
        r == spec_decoded_dimensions(bytes@),
{
    image::load_from_memory(bytes).ok().map(|image| image.dimensions())
}

/// The PNG file `image` writes for the image it decodes from these bytes.
pub uninterp spec fn spec_reencoded_png(bytes: Seq<u8>) -> Option<Seq<u8>>;

/// `image::load_from_memory(bytes)`, then `write_to(.., ImageFormat::Png)`.
#[verifier::external_body]
fn reencoded_png(bytes: &[u8]) -> (r: Option<Vec<u8>>)
    ensures
        match r {
            Some(b) => spec_reencoded_png(bytes@) == Some(b@),
            None => spec_reencoded_png(bytes@) is None,
        },
{
    let image = image::load_from_memory(bytes).ok()?;
    let mut buffer = std::io::Cursor::new(Vec::new());
    image.write_to(&mut buffer, image::ImageFormat::Png).ok()?;
    Some(buffer.into_inner())
}

/// The PNG file `image` writes for the decoded image resized (triangle
/// filter, aspect ratio kept) to fit an `edge` by `edge` square.
pub uninterp spec fn spec_resized_png(bytes: Seq<u8>, edge: u32) -> Option<Seq<u8>>;

/// `image::load_from_memory(bytes)`, `resize(edge, edge, FilterType::Triangle)`,
/// then `write_to(.., ImageFormat::Png)`.
#[verifier::external_body]
fn resized_png(bytes: &[u8], edge: u32) -> (r: Option<Vec<u8>>)
    ensures
        match r {
            Some(b) => spec_resized_png(bytes@, edge) == Some(b@),
            None => spec_resized_png(bytes@, edge) is None,
        },
{
    let image = image::load_from_memory(bytes).ok()?;
    let scaled = image.resize(edge, edge, image::imageops::FilterType::Triangle);
    let mut buffer = std::io::Cursor::new(Vec::new());
    scaled.write_to(&mut buffer, image::ImageFormat::Png).ok()?;
    Some(buffer.into_inner())
}

/// An image entry's width and height; `(0, 0)` when the bytes do not decode.
pub fn image_dimensions(bytes: &[u8]) -> (r: (u32, u32))
    ensures
        r == match spec_decoded_dimensions(bytes@) {
            Some(d) => d,
            None => (0u32, 0u32),
        },
{
    match decoded_dimensions(bytes) {
        Some(d) => d,
        None => (0, 0),
    }
}

/// The PNG a thumbnail is made of: the image shrunk to fit
/// `THUMBNAIL_MAX_EDGE` when an edge is longer, else re-encoded as it is.
pub open spec fn spec_thumbnail_png(bytes: Seq<u8>, width: u32, height: u32) -> Option<Seq<u8>> {
    if width > THUMBNAIL_MAX_EDGE || height > THUMBNAIL_MAX_EDGE {
        spec_resized_png(bytes, THUMBNAIL_MAX_EDGE)
    } else {
        spec_reencoded_png(bytes)
    }
}

/// A clipboard image's thumbnail as a PNG data URI; `None` when the bytes
/// do not decode or the thumbnail cannot be encoded.
pub fn thumbnail(bytes: &[u8]) -> (r: Option<String>)
    ensures
        match spec_decoded_dimensions(bytes@) {
            None => r is None,
            Some((w, h)) => match spec_thumbnail_png(bytes@, w, h) {
                None => r is None,
                Some(png) => r is Some && r->0@ == "data:image/png;base64,"@ + spec_base64_standard(png),
            },
        },
{
    let (width, height) = match decoded_dimensions(bytes) {
        Some(d) => d,
        None => return None,
    };
    let png = if width > THUMBNAIL_MAX_EDGE || height > THUMBNAIL_MAX_EDGE {
        resized_png(bytes, THUMBNAIL_MAX_EDGE)
    } else {
        reencoded_png(bytes)
    };
    match png {
        Some(p) => {
            let payload = base64_standard(p.as_slice());
            proof {
                reveal_strlit("data:image/png;base64,");
                reveal_strlit("data:");
                reveal_strlit("image/png");
                reveal_strlit(";base64,");
                assert("data:"@ + "image/png"@ + ";base64,"@ =~= "data:image/png;base64,"@);
            }
            Some(data_uri("image/png", payload.as_str()))
        },
        None => None,
    }
}

/// The thumbnail text stored for an image: `thumbnail`'s data URI, empty
/// when there is none.
pub open spec fn spec_thumb_or_empty(bytes: Seq<u8>) -> Seq<char> {
    match spec_decoded_dimensions(bytes) {
        None => Seq::empty(),
        Some((w, h)) => match spec_thumbnail_png(bytes, w, h) {
            None => Seq::empty(),
            Some(png) => "data:image/png;base64,"@ + spec_base64_standard(png),
        },
    }
}

/// What a text change does to the remembered hash: `(recorded, hash after)`.
/// A text hashing like the last one recorded is skipped and changes nothing;
/// any other is recorded and remembered.
pub open spec fn spec_text_step(last: Option<u64>, text_hash: u64) -> (bool, Option<u64>) {
    if last == Some(text_hash) {
        (false, last)
    } else {
        (true, Some(text_hash))
    }
}

/// Copying the same text twice records it once; an image or binary change
/// in between (which forgets the last text) lets it be recorded again.
pub proof fn law_text_recorded_once(start: Option<u64>, text_hash: u64)
    ensures
        !spec_text_step(spec_text_step(start, text_hash).1, text_hash).0,
        spec_text_step(spec_text_step(start, text_hash).1, text_hash).1 == spec_text_step(
            start,
            text_hash,
        ).1,
        spec_text_step(None, text_hash).0,
{
}

/// The entry a text (or file list) change records, or none when its text
/// hashes like the last text recorded; `last_text_hash` then holds the new
/// text's hash.
pub fn text_capture(
    last_text_hash: &mut Option<u64>,
    text_hash: u64,
    id: String,
    created_unix: u64,
    size_bytes: u64,
    full: String,
) -> (r: Option<ClipboardEntry>)
    ensures
        (r is Some, *final(last_text_hash)) == spec_text_step(*old(last_text_hash), text_hash),
        *old(last_text_hash) == Some(text_hash) ==> r is None && *final(last_text_hash) == *old(
            last_text_hash,
        ),
        *old(last_text_hash) != Some(text_hash) ==> *final(last_text_hash) == Some(text_hash)
            && match r {
            Some(ClipboardEntry::Text { id: i, created_unix: c, size_bytes: n, preview, full: f }) =>
                i@ == id@ && c == created_unix && n == size_bytes && f@ == full@ && preview@
                == spec_collapse_cap(full@, 120),
            _ => false,
        },
{
    if *last_text_hash == Some(text_hash) {
        return None;
    }
    *last_text_hash = Some(text_hash);
    let preview = text_preview(full.as_str());
    Some(ClipboardEntry::Text { id, created_unix, size_bytes, preview, full })
}

/// The entry an image or binary change records (its bytes are kept as a
/// blob at `blob_path`); any other change forgets the last text, so the same
/// text copied again afterwards is recorded again. An image carries its
/// thumbnail (empty when none can be made) and its dimensions (0x0 when the
/// bytes do not decode).
pub fn blob_capture(
    last_text_hash: &mut Option<u64>,
    is_image: bool,
    id: String,
    created_unix: u64,
    bytes: &Vec<u8>,
    mime: String,
    blob_path: String,
) -> (r: ClipboardEntry)
    requires
        bytes.len() <= u64::MAX,
    ensures
        *final(last_text_hash) is None,
        is_image ==> match r {
            ClipboardEntry::Image {
                id: i,
                created_unix: c,
                size_bytes: n,
                preview_thumb,
                width,
                height,
                blob_path: b,
            } => i@ == id@ && c == created_unix && n == bytes.len() && b@ == blob_path@
                && preview_thumb@ == spec_thumb_or_empty(bytes@) && (width, height) == match spec_decoded_dimensions(
                bytes@,
            ) {
                Some(d) => d,
                None => (0u32, 0u32),
            },
            _ => false,
        },
        !is_image ==> match r {
            ClipboardEntry::Binary { id: i, created_unix: c, size_bytes: n, mime: m, blob_path: b } =>
                i@ == id@ && c == created_unix && n == bytes.len() && m@ == mime@ && b@ == blob_path@,
            _ => false,
        },
{
    *last_text_hash = None;
    let size_bytes = bytes.len() as u64;
    if is_image {
        let preview_thumb = match thumbnail(bytes.as_slice()) {
            Some(t) => t,
            None => String::new(),
        };
        let (width, height) = image_dimensions(bytes.as_slice());
        ClipboardEntry::Image { id, created_unix, size_bytes, preview_thumb, width, height, blob_path }
    } else {
        ClipboardEntry::Binary { id, created_unix, size_bytes, mime, blob_path }
    }
}

} // verus!
