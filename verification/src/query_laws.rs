//! What the launcher's query recognisers promise: the calculator takes any
//! query with an operator, application search finds an app by any of its
//! keywords, and the emoji picker finds a record by any of its keywords and
//! returns every such record up to its limit.
use vstd::prelude::*;

use crate::calc::spec_looks_like_arithmetic;
use crate::desktop_apps::{spec_app_hits, AppInfo};
use crate::emoji::{
    spec_emoji_hits, spec_emoji_kept, spec_emoji_matches, spec_emoji_needle, spec_emoji_search,
    EmojiEntry, MAXIMUM_RESULTS,
};
use crate::text::{spec_contains, spec_to_lowercase};

verus! {

/// An arithmetic operator character.
pub open spec fn spec_is_operator(c: char) -> bool {
    c == '+' || c == '-' || c == '*' || c == '/' || c == '%' || c == '^'
}

/// A query holding any operator character is evaluated, whether or not it
/// began with `=`; one that began with `=` is evaluated whatever it holds.
pub proof fn law_operator_means_arithmetic(expression: Seq<char>, had_equals: bool, i: int)
    ensures
        had_equals ==> spec_looks_like_arithmetic(expression, had_equals),
        0 <= i < expression.len() && spec_is_operator(expression[i]) ==> spec_looks_like_arithmetic(
            expression,
            had_equals,
        ),
{
    if 0 <= i < expression.len() && spec_is_operator(expression[i]) {
        assert(expression.contains(expression[i]));
    }
}

/// Without a leading `=`, without any operator character and without any
/// function name, a query is not arithmetic.
pub proof fn law_plain_text_is_not_arithmetic(expression: Seq<char>)
    requires
        forall|i: int| 0 <= i < expression.len() ==> !spec_is_operator(#[trigger] expression[i]),
        !spec_contains(expression, "sqrt"@),
        !spec_contains(expression, "sin"@),
        !spec_contains(expression, "cos"@),
        !spec_contains(expression, "log"@),
        !spec_contains(expression, "abs"@),
        !spec_contains(expression, "round"@),
    ensures
        !spec_looks_like_arithmetic(expression, false),
{
    assert forall|c: char| spec_is_operator(c) implies !expression.contains(c) by {
        if expression.contains(c) {
            let i = choose|i: int| 0 <= i < expression.len() && expression[i] == c;
            assert(!spec_is_operator(expression[i]));
        }
    }
}

/// An app is found by a keyword exactly when some keyword, at any position,
/// contains the query; by its name exactly when its name contains the query.
pub proof fn law_app_found_by_any_keyword(app: AppInfo, ql: Seq<char>, i: int)
    ensures
        0 <= i < app.keywords_lower@.len() && spec_contains(app.keywords_lower@[i]@, ql)
            ==> spec_app_hits(app, ql).2,
        spec_app_hits(app, ql).2 ==> exists|j: int|
            0 <= j < app.keywords_lower@.len() && spec_contains(
                #[trigger] app.keywords_lower@[j]@,
                ql,
            ),
        spec_app_hits(app, ql).0 == spec_contains(app.name_lower@, ql),
{
}

/// A record is found when the needle occurs in the lower-cased text of any
/// one of its keywords, or of its name; and it is found only then.
pub proof fn law_emoji_found_by_any_keyword(entry: EmojiEntry, needle: Seq<char>, i: int)
    ensures
        0 <= i < entry.keywords@.len() && spec_contains(
            spec_to_lowercase(entry.keywords@[i]@),
            needle,
        ) ==> spec_emoji_matches(entry, needle),
        spec_contains(spec_to_lowercase(entry.name@), needle) ==> spec_emoji_matches(entry, needle),
        spec_emoji_matches(entry, needle) ==> spec_contains(spec_to_lowercase(entry.name@), needle)
            || exists|j: int|
            0 <= j < entry.keywords@.len() && spec_contains(
                spec_to_lowercase(#[trigger] entry.keywords@[j]@),
                needle,
            ),
{
}

/// The kept records among the first `m` are the first kept records of all.
proof fn lemma_hits_prefix(entries: Seq<EmojiEntry>, needle: Seq<char>, m: int)
    requires
        0 <= m <= entries.len(),
    ensures
        spec_emoji_hits(entries.take(m), needle).len() <= spec_emoji_hits(entries, needle).len(),
        forall|k: int|
            0 <= k < spec_emoji_hits(entries.take(m), needle).len() ==> #[trigger] spec_emoji_hits(
                entries.take(m),
                needle,
            )[k] == spec_emoji_hits(entries, needle)[k],
    decreases entries.len() - m,
{
    if m < entries.len() {
        lemma_hits_prefix(entries, needle, m + 1);
        assert(entries.take(m + 1).drop_last() =~= entries.take(m));
        assert(entries.take(m + 1).last() == entries[m]);
        let a = spec_emoji_hits(entries.take(m), needle);
        let b = spec_emoji_hits(entries.take(m + 1), needle);
        let all = spec_emoji_hits(entries, needle);
        assert forall|k: int| 0 <= k < a.len() implies #[trigger] a[k] == all[k] by {
            assert(a[k] == b[k]);
        }
    } else {
        assert(entries.take(m) =~= entries);
    }
}

/// The emoji search is complete up to its limit: a record that matches the
/// filter text is returned whenever fewer than `MAXIMUM_RESULTS` matching
/// records come before it.
pub proof fn law_emoji_search_complete(entries: Seq<EmojiEntry>, text: Seq<char>, p: int)
    requires
        spec_emoji_needle(text) is Some,
        0 <= p < entries.len(),
        spec_emoji_kept(entries[p], spec_emoji_needle(text)->0),
        spec_emoji_hits(entries.take(p), spec_emoji_needle(text)->0).len() < MAXIMUM_RESULTS,
    ensures
        spec_emoji_search(entries, text).contains(p),
{
    let needle = spec_emoji_needle(text)->0;
    let before = spec_emoji_hits(entries.take(p), needle);
    assert(entries.take(p + 1).drop_last() =~= entries.take(p));
    assert(entries.take(p + 1).last() == entries[p]);
    let upto = spec_emoji_hits(entries.take(p + 1), needle);
    assert(upto == before.push(p));
    lemma_hits_prefix(entries, needle, p + 1);
    let all = spec_emoji_hits(entries, needle);
    let k = before.len() as int;
    assert(upto[k] == p);
    assert(all[k] == p);
    let r = spec_emoji_search(entries, text);
    if all.len() <= MAXIMUM_RESULTS {
        assert(r == all);
    } else {
        assert(r == all.take(MAXIMUM_RESULTS as int));
        assert(r[k] == all[k]);
    }
    assert(r[k] == p);
}

} // verus!
