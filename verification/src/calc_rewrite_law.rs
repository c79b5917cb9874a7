//! Rewriting the calculator's function names is stable: the rewritten text
//! holds no call of a bare function name, so rewriting it again changes
//! nothing.
use vstd::prelude::*;

use crate::calc::{
    spec_call_at, spec_call_at_first, spec_call_open_after, spec_function_name,
    spec_function_replacement, spec_identifier_before, spec_rewrite_from, spec_rewrite_functions,
};
use crate::text::spec_is_ascii_alphanumeric;

verus! {

/// A character that counts as part of an identifier before a name.
pub open spec fn spec_ident_char(c: char) -> bool {
    spec_is_ascii_alphanumeric(c) || c == '_' || c == ':'
}

/// No call of a function name starts at any position of `t` from `from` on.
pub open spec fn spec_no_call_from(t: Seq<char>, from: int) -> bool {
    forall|j: int| from <= j < t.len() ==> #[trigger] spec_call_at_first(t, j) is None
}

proof fn lemma_literals()
    ensures
        forall|k: int|
            0 <= k < 5 ==> {
                let n = #[trigger] spec_function_name(k);
                &&& 3 <= n.len() <= 4
                &&& !n.contains('m')
                &&& spec_is_ascii_alphanumeric(n[n.len() - 1])
            },
        forall|k: int|
            0 <= k < 5 ==> {
                let r = #[trigger] spec_function_replacement(k);
                &&& r.len() >= 9
                &&& r[0] == 'm'
                &&& forall|o: int| 0 <= o < r.len() ==> spec_ident_char(#[trigger] r[o])
            },
{
    reveal_strlit("sqrt");
    reveal_strlit("sin");
    reveal_strlit("cos");
    reveal_strlit("log");
    reveal_strlit("abs");
    reveal_strlit("math::sqrt");
    reveal_strlit("math::sin");
    reveal_strlit("math::cos");
    reveal_strlit("math::log10");
    reveal_strlit("math::abs");
    assert forall|k: int| 0 <= k < 5 implies {
        let n = #[trigger] spec_function_name(k);
        &&& 3 <= n.len() <= 4
        &&& !n.contains('m')
        &&& spec_is_ascii_alphanumeric(n[n.len() - 1])
    } by {
        let n = spec_function_name(k);
        assert forall|o: int| 0 <= o < n.len() implies n[o] != 'm' by {}
    }
    assert forall|k: int| 0 <= k < 5 implies {
        let r = #[trigger] spec_function_replacement(k);
        &&& r.len() >= 9
        &&& r[0] == 'm'
        &&& forall|o: int| 0 <= o < r.len() ==> spec_ident_char(#[trigger] r[o])
    } by {
        let r = spec_function_replacement(k);
        assert forall|o: int| 0 <= o < r.len() implies spec_ident_char(#[trigger] r[o]) by {}
    }
}

/// Reading spaces and `(` after a prefix does not look at the prefix.
proof fn lemma_open_after_shift(p: Seq<char>, w: Seq<char>, j: int)
    requires
        0 <= j,
    ensures
        spec_call_open_after(p + w, p.len() + j) == spec_call_open_after(w, j),
    decreases w.len() - j,
{
    if j < w.len() {
        assert((p + w)[p.len() + j] == w[j]);
        lemma_open_after_shift(p, w, j + 1);
    }
}

/// A rewritten text that begins with characters other than `m` begins with
/// the same characters in the original, each kept as it was.
proof fn lemma_plain_prefix(s: Seq<char>, x: int, q: Seq<char>)
    requires
        0 <= x <= s.len(),
        q.len() <= spec_rewrite_from(s, x).len(),
        spec_rewrite_from(s, x).subrange(0, q.len() as int) == q,
        !q.contains('m'),
    ensures
        x + q.len() <= s.len(),
        s.subrange(x, x + q.len()) == q,
        spec_rewrite_from(s, x).skip(q.len() as int) == spec_rewrite_from(s, x + q.len()),
    decreases q.len(),
{
    lemma_literals();
    let w = spec_rewrite_from(s, x);
    if q.len() == 0 {
        assert(w.skip(0) =~= w);
        assert(s.subrange(x, x) =~= q);
    } else {
        assert(x < s.len());
        match spec_call_at_first(s, x) {
            Some(k) => {
                assert(0 <= k < 5);
                assert(w[0] == spec_function_replacement(k)[0]);
                assert(q[0] == w[0]);
                assert(q.contains('m'));
            },
            None => {
                let q1 = q.skip(1);
                let w1 = spec_rewrite_from(s, x + 1);
                assert(w =~= seq![s[x]] + w1);
                assert forall|o: int| 0 <= o < q1.len() implies w1[o] == q1[o] by {
                    assert(w[o + 1] == q[o + 1]);
                }
                assert(w1.subrange(0, q1.len() as int) =~= q1);
                assert(!q1.contains('m')) by {
                    if q1.contains('m') {
                        let o = choose|o: int| 0 <= o < q1.len() && q1[o] == 'm';
                        assert(q[o + 1] == 'm');
                    }
                }
                lemma_plain_prefix(s, x + 1, q1);
                assert(s[x] == q[0]) by {
                    assert(w[0] == q[0]);
                }
                assert(s.subrange(x, x + q.len()) =~= seq![q[0]] + q1);
                assert(seq![q[0]] + q1 =~= q);
                assert(w.skip(q.len() as int) =~= w1.skip(q1.len() as int));
            },
        }
    }
}

/// Spaces and an opening parenthesis in the rewritten text stand where they
/// stood in the original.
proof fn lemma_open_after_back(s: Seq<char>, x: int)
    requires
        0 <= x <= s.len(),
        spec_call_open_after(spec_rewrite_from(s, x), 0),
    ensures
        spec_call_open_after(s, x),
    decreases s.len() - x,
{
    lemma_literals();
    let w = spec_rewrite_from(s, x);
    assert(x < s.len());
    match spec_call_at_first(s, x) {
        Some(k) => {
            assert(0 <= k < 5);
            assert(w[0] == 'm');
        },
        None => {
            let w1 = spec_rewrite_from(s, x + 1);
            assert(w =~= seq![s[x]] + w1);
            if s[x] == ' ' {
                lemma_open_after_shift(seq![s[x]], w1, 0);
                lemma_open_after_back(s, x + 1);
            }
        },
    }
}

/// Inside a replacement no call starts: its first character is `m`, which
/// begins no function name, and every later one follows an identifier
/// character.
proof fn lemma_no_call_in_replacement(pre: Seq<char>, k: int, rest: Seq<char>)
    requires
        0 <= k < 5,
    ensures
        forall|j: int|
            pre.len() <= j < pre.len() + spec_function_replacement(k).len() ==> #[trigger]
            spec_call_at_first(pre + spec_function_replacement(k) + rest, j) is None,
{
    lemma_literals();
    let r = spec_function_replacement(k);
    let t = pre + r + rest;
    assert forall|j: int| pre.len() <= j < pre.len() + r.len() implies #[trigger]
        spec_call_at_first(t, j) is None by {
        let o = j - pre.len();
        assert(t[j] == r[o]);
        if o == 0 {
            assert forall|k2: int| 0 <= k2 < 5 implies !spec_call_at(t, j, k2) by {
                let n2 = spec_function_name(k2);
                if j + n2.len() <= t.len() && t.subrange(j, j + n2.len()) == n2 {
                    assert(t.subrange(j, j + n2.len())[0] == t[j]);
                    assert(n2.contains('m'));
                }
            }
        } else {
            assert(t[j - 1] == r[o - 1]);
            assert(spec_ident_char(r[o - 1]));
        }
    }
}

/// Where the original has no call, the rewritten text has none at the
/// corresponding position.
proof fn lemma_no_call_at_kept_char(s: Seq<char>, i: int, pre: Seq<char>)
    requires
        0 <= i < s.len(),
        spec_call_at_first(s, i) is None,
        (pre.len() > 0 && spec_ident_char(pre.last())) == spec_identifier_before(s, i),
    ensures
        spec_call_at_first(pre + spec_rewrite_from(s, i), pre.len() as int) is None,
{
    lemma_literals();
    let w = spec_rewrite_from(s, i);
    let t = pre + w;
    let j = pre.len() as int;
    assert forall|k: int| 0 <= k < 5 implies !spec_call_at(t, j, k) by {
        let n = spec_function_name(k);
        if spec_call_at(t, j, k) {
            assert(w.subrange(0, n.len() as int) =~= t.subrange(j, j + n.len()));
            lemma_plain_prefix(s, i, n);
            if pre.len() > 0 {
                assert(t[j - 1] == pre.last());
            }
            assert(w =~= n + spec_rewrite_from(s, i + n.len())) by {
                assert(w =~= w.subrange(0, n.len() as int) + w.skip(n.len() as int));
            }
            lemma_open_after_shift(pre, w, n.len() as int);
            lemma_open_after_shift(n, spec_rewrite_from(s, i + n.len()), 0);
            lemma_open_after_back(s, i + n.len());
            assert(spec_call_at(s, i, k));
        }
    }
}

/// The rewritten text after position `i`, placed after a prefix that ends
/// (or not) in an identifier character exactly as the original did before
/// `i`, holds no call.
proof fn lemma_rewrite_has_no_call(s: Seq<char>, i: int, pre: Seq<char>)
    requires
        0 <= i <= s.len(),
        (pre.len() > 0 && spec_ident_char(pre.last())) == spec_identifier_before(s, i),
    ensures
        spec_no_call_from(pre + spec_rewrite_from(s, i), pre.len() as int),
    decreases s.len() - i,
{
    let w = spec_rewrite_from(s, i);
    let t = pre + w;
    if i == s.len() {
        assert(w.len() == 0);
    } else {
        match spec_call_at_first(s, i) {
            Some(k) => {
                lemma_literals();
                assert(0 <= k < 5);
                let n = spec_function_name(k);
                let r = spec_function_replacement(k);
                let pre2 = pre + r;
                let w2 = spec_rewrite_from(s, i + n.len());
                assert(spec_call_at(s, i, k));
                assert(s[i + n.len() - 1] == n[n.len() - 1]) by {
                    assert(s.subrange(i, i + n.len())[n.len() - 1] == n[n.len() - 1]);
                }
                assert(pre2.last() == r[r.len() - 1]);
                lemma_rewrite_has_no_call(s, i + n.len(), pre2);
                assert(t =~= pre2 + w2);
                lemma_no_call_in_replacement(pre, k, w2);
                assert(pre + r + w2 =~= t);
            },
            None => {
                let w1 = spec_rewrite_from(s, i + 1);
                let pre2 = pre.push(s[i]);
                assert(w =~= seq![s[i]] + w1);
                assert(t =~= pre2 + w1);
                lemma_rewrite_has_no_call(s, i + 1, pre2);
                lemma_no_call_at_kept_char(s, i, pre);
            },
        }
    }
}

/// A text without calls is left as it is.
proof fn lemma_no_call_unchanged(t: Seq<char>, i: int)
    requires
        0 <= i <= t.len(),
        spec_no_call_from(t, i),
    ensures
        spec_rewrite_from(t, i) == t.skip(i),
    decreases t.len() - i,
{
    if i < t.len() {
        assert(spec_call_at_first(t, i) is None);
        lemma_no_call_unchanged(t, i + 1);
        assert(seq![t[i]] + t.skip(i + 1) =~= t.skip(i));
    } else {
        assert(t.skip(i) =~= Seq::<char>::empty());
    }
}

/// Rewriting twice is rewriting once: the rewritten text holds no call of a
/// bare function name, so a second rewrite leaves it as it is.
pub proof fn law_rewrite_functions_idempotent(s: Seq<char>)
    ensures
        spec_rewrite_functions(spec_rewrite_functions(s)) == spec_rewrite_functions(s),
{
    let t = spec_rewrite_functions(s);
    lemma_rewrite_has_no_call(s, 0, Seq::empty());
    assert(Seq::<char>::empty() + t =~= t);
    lemma_no_call_unchanged(t, 0);
    assert(t.skip(0) =~= t);
}

} // verus!
