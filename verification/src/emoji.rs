//! The emoji picker: a query that starts with a colon filters the bundled
//! emoji records by name and keyword.
use vstd::prelude::*;

use crate::text::{chars_vec, contains, spec_contains, spec_to_lowercase, spec_trim, slice_vec, to_lowercase, trim};

verus! {

/// The most matches one search returns.
pub const MAXIMUM_RESULTS: usize = 30;

/// One emoji record: the glyph to copy, its name and its search keywords.
pub struct EmojiEntry {
    pub glyph: String,
    pub name: String,
    pub keywords: Vec<String>,
}

/// The lower-cased `needle` occurs in the lower-cased name or in some
/// lower-cased keyword of `entry`.
pub open spec fn spec_emoji_matches(entry: EmojiEntry, needle: Seq<char>) -> bool {
    spec_contains(spec_to_lowercase(entry.name@), needle) || exists|i: int|
        0 <= i < entry.keywords@.len() && spec_contains(spec_to_lowercase(#[trigger] entry.keywords@[i]@), needle)
}

/// Whether `entry` matches `needle` by name or by a keyword.
pub fn emoji_matches(entry: &EmojiEntry, needle: &str) -> (r: bool)
    ensures
        r == spec_emoji_matches(*entry, needle@),
{
    let name = chars_vec(to_lowercase(entry.name.as_str()).as_str());
    if contains(&name, needle) {
        return true;
    }
    let mut i: usize = 0;
    while i < entry.keywords.len()
        invariant
            i <= entry.keywords@.len(),
            forall|j: int| 0 <= j < i ==> !spec_contains(spec_to_lowercase(#[trigger] entry.keywords@[j]@), needle@),
        decreases entry.keywords@.len() - i,
    {
        let k = chars_vec(to_lowercase(entry.keywords[i].as_str()).as_str());
        if contains(&k, needle) {
            return true;
        }
        i += 1;
    }
    false
}

/// The filter text of an emoji query: what follows the leading colon,
/// trimmed and lower-cased; `None` when the query does not start with a colon.
pub open spec fn spec_emoji_needle(text: Seq<char>) -> Option<Seq<char>> {
    if text.len() > 0 && text[0] == ':' {
        Some(spec_to_lowercase(spec_trim(text.drop_first())))
    } else {
        None
    }
}

pub fn emoji_needle(text: &str) -> (r: Option<String>)
    ensures
        match r {
            Some(n) => spec_emoji_needle(text@) == Some(n@),
            None => spec_emoji_needle(text@) is None,
        },
{
    let v = chars_vec(text);
    if v.len() == 0 || v[0] != ':' {
        return None;
    }
    let rest = slice_vec(&v, 1, v.len());
    assert(rest@ == v@.drop_first());
    let t = trim(&rest);
    let s = crate::text::string_of(&t);
    Some(to_lowercase(s.as_str()))
}

/// Whether the record is kept for `needle`: every record for an empty needle.
pub open spec fn spec_emoji_kept(entry: EmojiEntry, needle: Seq<char>) -> bool {
    needle.len() == 0 || spec_emoji_matches(entry, needle)
}

/// The positions of the kept records, in dataset order.
pub open spec fn spec_emoji_hits(entries: Seq<EmojiEntry>, needle: Seq<char>) -> Seq<int>
    decreases entries.len(),
{
    if entries.len() == 0 {
        Seq::empty()
    } else {
        let rest = spec_emoji_hits(entries.drop_last(), needle);
        if spec_emoji_kept(entries.last(), needle) {
            rest.push(entries.len() - 1)
        } else {
            rest
        }
    }
}

/// The first `MAXIMUM_RESULTS` of `s`.
pub open spec fn spec_bounded(s: Seq<int>) -> Seq<int> {
    if s.len() <= MAXIMUM_RESULTS { s } else { s.take(MAXIMUM_RESULTS as int) }
}

/// The positions, in `entries`, of the records an emoji query `text` returns:
/// nothing unless it starts with a colon; otherwise the first
/// `MAXIMUM_RESULTS` records that match the filter text, in dataset order.
pub open spec fn spec_emoji_search(entries: Seq<EmojiEntry>, text: Seq<char>) -> Seq<int> {
    match spec_emoji_needle(text) {
        None => Seq::empty(),
        Some(needle) => spec_bounded(spec_emoji_hits(entries, needle)),
    }
}

/// The positions of the records that `text` selects.
pub fn search_emoji(entries: &Vec<EmojiEntry>, text: &str) -> (r: Vec<usize>)
    ensures
        r@.len() == spec_emoji_search(entries@, text@).len(),
        forall|k: int| 0 <= k < r@.len() ==> r@[k] as int == #[trigger] spec_emoji_search(entries@, text@)[k],
{
    let needle = match emoji_needle(text) {
        None => return Vec::new(),
        Some(n) => n,
    };
    let empty = chars_vec(needle.as_str()).len() == 0;
    let mut out: Vec<usize> = Vec::new();
    let mut i: usize = 0;
    while i < entries.len()
        invariant
            i <= entries@.len(),
            spec_emoji_needle(text@) == Some(needle@),
            empty == (needle@.len() == 0),
            out@.len() <= MAXIMUM_RESULTS,
            out@.len() == spec_bounded(spec_emoji_hits(entries@.take(i as int), needle@)).len(),
            forall|k: int| 0 <= k < out@.len() ==> out@[k] as int == #[trigger] spec_bounded(spec_emoji_hits(entries@.take(i as int), needle@))[k],
        decreases entries@.len() - i,
    {
        let ghost before = spec_emoji_hits(entries@.take(i as int), needle@);
        assert(entries@.take(i + 1).drop_last() =~= entries@.take(i as int));
        assert(entries@.take(i + 1).last() == entries@[i as int]);
        let kept = empty || emoji_matches(&entries[i], needle.as_str());
        if kept && out.len() < MAXIMUM_RESULTS {
            out.push(i);
        }
        proof {
            let after = spec_emoji_hits(entries@.take(i + 1), needle@);
            if kept {
                assert(after == before.push(i as int));
                if before.len() >= MAXIMUM_RESULTS {
                    assert(spec_bounded(after) =~= spec_bounded(before));
                } else {
                    assert(spec_bounded(before) == before);
                    assert(spec_bounded(after) == after);
                    assert(out@[out@.len() - 1] as int == after[after.len() - 1]);
                }
            } else {
                assert(after == before);
            }
        }
        i += 1;
    }
    assert(entries@.take(entries@.len() as int) =~= entries@);
    out
}

proof fn lemma_hits_kept(entries: Seq<EmojiEntry>, needle: Seq<char>)
    ensures
        forall|k: int| 0 <= k < spec_emoji_hits(entries, needle).len() ==> {
            let p = #[trigger] spec_emoji_hits(entries, needle)[k];
            0 <= p < entries.len() && spec_emoji_kept(entries[p], needle)
        },
        forall|a: int, b: int| 0 <= a < b < spec_emoji_hits(entries, needle).len() ==>
            #[trigger] spec_emoji_hits(entries, needle)[a] < #[trigger] spec_emoji_hits(entries, needle)[b],
    decreases entries.len(),
{
    if entries.len() > 0 {
        let d = entries.drop_last();
        lemma_hits_kept(d, needle);
        assert forall|k: int| 0 <= k < spec_emoji_hits(d, needle).len() implies
            #[trigger] entries[spec_emoji_hits(d, needle)[k]] == d[spec_emoji_hits(d, needle)[k]] by {}
    }
}

/// An emoji search returns at most `MAXIMUM_RESULTS` records, each of which
/// matches the filter text (any record, for a bare colon), in dataset order.
pub proof fn law_emoji_search_bounded(entries: Seq<EmojiEntry>, text: Seq<char>)
    ensures
        spec_emoji_search(entries, text).len() <= MAXIMUM_RESULTS,
        spec_emoji_needle(text) is None ==> spec_emoji_search(entries, text).len() == 0,
        forall|k: int| 0 <= k < spec_emoji_search(entries, text).len() ==> {
            let p = #[trigger] spec_emoji_search(entries, text)[k];
            0 <= p < entries.len() && spec_emoji_kept(entries[p], spec_emoji_needle(text)->0)
        },
        forall|a: int, b: int| 0 <= a < b < spec_emoji_search(entries, text).len() ==>
            #[trigger] spec_emoji_search(entries, text)[a] < #[trigger] spec_emoji_search(entries, text)[b],
{
    if let Some(needle) = spec_emoji_needle(text) {
        lemma_hits_kept(entries, needle);
        let h = spec_emoji_hits(entries, needle);
        assert forall|k: int| 0 <= k < spec_bounded(h).len() implies #[trigger] spec_bounded(h)[k] == h[k] by {}
    }
}

} // verus!
