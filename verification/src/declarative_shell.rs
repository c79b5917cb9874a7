//! A provider declared in configuration: its command's output lines are the
//! candidates, and a query keeps the lines that contain it.
use vstd::prelude::*;

use crate::text::{
    chars_vec, concat, decimal, lines, replace_all, spec_contains, spec_decimal, spec_lines,
    spec_replace_all, spec_starts_with, spec_to_lowercase, string_of, to_lowercase, views,
};

verus! {

/// How long the command may run, in milliseconds.
pub const REFRESH_TIMEOUT_MS: u64 = 5000;

/// The optional title and subtitle a provider's configuration gives its
/// matches; `{0}` in the title stands for the line.
pub struct MatchTemplate {
    pub title: Option<String>,
    pub subtitle: Option<String>,
}

/// One kept line: its match id, its title, and whether the line starts with
/// the query (such a match scores higher than one that only contains it).
pub struct ShellLineMatch {
    pub id: String,
    pub title: String,
    pub prefix: bool,
}

/// The non-empty lines of the command's output, in order.
pub open spec fn spec_nonempty(ls: Seq<Seq<char>>) -> Seq<Seq<char>>
    decreases ls.len(),
{
    if ls.len() == 0 {
        Seq::empty()
    } else if ls.last().len() > 0 {
        spec_nonempty(ls.drop_last()).push(ls.last())
    } else {
        spec_nonempty(ls.drop_last())
    }
}

/// The lines a refresh caches from `stdout`.
pub open spec fn spec_cached_lines(stdout: Seq<char>) -> Seq<Seq<char>> {
    spec_nonempty(spec_lines(stdout))
}

/// The title of a match for `line`.
pub open spec fn spec_line_title(line: Seq<char>, template_title: Option<Seq<char>>) -> Seq<char> {
    match template_title {
        Some(t) => spec_replace_all(t, "{0}"@, line),
        None => line,
    }
}

/// The matches for the cached `lines` whose lower-cased text contains the
/// lower-cased query `ql`: id `provider_index`, title, and prefix flag.
pub open spec fn spec_line_matches(
    provider: Seq<char>,
    lines: Seq<Seq<char>>,
    ql: Seq<char>,
    template_title: Option<Seq<char>>,
) -> Seq<(Seq<char>, Seq<char>, bool)>
    decreases lines.len(),
{
    if lines.len() == 0 {
        Seq::empty()
    } else {
        let rest = spec_line_matches(provider, lines.drop_last(), ql, template_title);
        let line = lines.last();
        let low = spec_to_lowercase(line);
        if spec_contains(low, ql) {
            rest.push(
                (
                    provider + "_"@ + spec_decimal((lines.len() - 1) as nat),
                    spec_line_title(line, template_title),
                    spec_starts_with(low, ql),
                ),
            )
        } else {
            rest
        }
    }
}

/// At most `limit` of `s`, when a limit is given.
pub open spec fn spec_limited<T>(s: Seq<T>, limit: Option<usize>) -> Seq<T> {
    match limit {
        Some(l) => if s.len() <= l { s } else { s.take(l as int) },
        None => s,
    }
}

pub open spec fn spec_match_view(m: ShellLineMatch) -> (Seq<char>, Seq<char>, bool) {
    (m.id@, m.title@, m.prefix)
}

fn nonempty_lines(stdout: &str) -> (r: Vec<Vec<char>>)
    ensures
        views(r@) == spec_cached_lines(stdout@),
{
    let v = chars_vec(stdout);
    let ls = lines(&v);
    let mut out: Vec<Vec<char>> = Vec::new();
    let mut i: usize = 0;
    while i < ls.len()
        invariant
            i <= ls@.len(),
            views(ls@) == spec_lines(stdout@),
            views(out@) == spec_nonempty(views(ls@).take(i as int)),
        decreases ls@.len() - i,
    {
        assert(views(ls@).take(i + 1).drop_last() =~= views(ls@).take(i as int));
        assert(views(ls@).take(i + 1).last() == ls@[i as int]@);
        if ls[i].len() > 0 {
            let ghost before = views(out@);
            out.push(ls[i].clone());
            assert(views(out@) =~= before.push(ls@[i as int]@));
        }
        i += 1;
    }
    assert(views(ls@).take(ls@.len() as int) =~= views(ls@));
    out
}

/// The matches a declared provider `provider` offers for `query`, given what
/// its command printed: each non-empty output line whose lower-cased text
/// contains the lower-cased query, in output order, at most `limit` of them.
pub fn declarative_matches(
    provider: &str,
    stdout: &str,
    query: &str,
    template_title: Option<&str>,
    limit: Option<usize>,
) -> (r: Vec<ShellLineMatch>)
    ensures
        r@.map_values(|m: ShellLineMatch| spec_match_view(m)) == spec_limited(
            spec_line_matches(
                provider@,
                spec_cached_lines(stdout@),
                spec_to_lowercase(query@),
                match template_title {
                    Some(t) => Some(t@),
                    None => None,
                },
            ),
            limit,
        ),
{
    let ghost tt = match template_title {
        Some(t) => Some(t@),
        None => None,
    };
    let cached = nonempty_lines(stdout);
    let ql = to_lowercase(query);
    let mut out: Vec<ShellLineMatch> = Vec::new();
    let mut idx: usize = 0;
    while idx < cached.len()
        invariant
            idx <= cached@.len(),
            views(cached@) == spec_cached_lines(stdout@),
            ql@ == spec_to_lowercase(query@),
            tt == match template_title {
                Some(t) => Some(t@),
                None => None::<Seq<char>>,
            },
            out@.map_values(|m: ShellLineMatch| spec_match_view(m)) == spec_line_matches(
                provider@,
                views(cached@).take(idx as int),
                ql@,
                tt,
            ),
        decreases cached@.len() - idx,
    {
        let ghost prefix_lines = views(cached@).take(idx + 1);
        assert(prefix_lines.drop_last() =~= views(cached@).take(idx as int));
        assert(prefix_lines.last() == cached@[idx as int]@);
        let line = string_of(&cached[idx]);
        let low = chars_vec(to_lowercase(line.as_str()).as_str());
        if crate::text::contains(&low, ql.as_str()) {
            let title = match template_title {
                Some(t) => {
                    proof {
                        reveal_strlit("{0}");
                    }
                    replace_all(t, "{0}", line.as_str())
                },
                None => line,
            };
            let digits = string_of(&decimal(idx as u64));
            let id = concat(concat(provider, "_").as_str(), digits.as_str());
            let prefix = crate::text::starts_with(&low, ql.as_str());
            let ghost before = out@.map_values(|m: ShellLineMatch| spec_match_view(m));
            out.push(ShellLineMatch { id, title, prefix });
            assert(out@.map_values(|m: ShellLineMatch| spec_match_view(m)) =~= before.push(
                spec_match_view(out@.last()),
            ));
        } else {
            assert(out@.map_values(|m: ShellLineMatch| spec_match_view(m)) == spec_line_matches(
                provider@,
                prefix_lines,
                ql@,
                tt,
            ));
        }
        idx += 1;
    }
    assert(views(cached@).take(cached@.len() as int) =~= views(cached@));
    match limit {
        Some(l) => {
            if out.len() > l {
                let ghost full = out@;
                out.truncate(l);
                assert(out@.map_values(|m: ShellLineMatch| spec_match_view(m)) =~= full.map_values(
                    |m: ShellLineMatch| spec_match_view(m),
                ).take(l as int));
            }
        },
        None => {},
    }
    out
}

} // verus!
