//! Writing values into NetworkManager's terse (`-t`) output format, and
//! the law that reading such a line back gives the values.
use vstd::prelude::*;

use crate::wifi_scan::{spec_split_terse_line, spec_terse_state};

verus! {

/// A value escaped for a terse line: a backslash before every `:` and every
/// backslash.
pub open spec fn spec_escape_terse(s: Seq<char>) -> Seq<char>
    decreases s.len(),
{
    if s.len() == 0 {
        Seq::empty()
    } else {
        let c = s.last();
        spec_escape_terse(s.drop_last()) + if c == ':' || c == '\\' {
            seq!['\\', c]
        } else {
            seq![c]
        }
    }
}

/// Escaped values joined with `:` into one terse line.
pub open spec fn spec_join_terse(fields: Seq<Seq<char>>) -> Seq<char>
    decreases fields.len(),
{
    if fields.len() <= 1 {
        if fields.len() == 1 {
            spec_escape_terse(fields[0])
        } else {
            Seq::empty()
        }
    } else {
        spec_join_terse(fields.drop_last()) + seq![':'] + spec_escape_terse(fields.last())
    }
}

proof fn lemma_terse_reads_escaped(p: Seq<char>, x: Seq<char>)
    requires
        spec_terse_state(p, true).2 == false,
    ensures
        spec_terse_state(p + spec_escape_terse(x), true) == (
            spec_terse_state(p, true).0,
            spec_terse_state(p, true).1 + x,
            false,
        ),
    decreases x.len(),
{
    if x.len() == 0 {
        assert(p + spec_escape_terse(x) =~= p);
        assert(spec_terse_state(p, true).1 + x =~= spec_terse_state(p, true).1);
    } else {
        let xs = x.drop_last();
        let c = x.last();
        lemma_terse_reads_escaped(p, xs);
        let q = p + spec_escape_terse(xs);
        let (f, cur, _) = spec_terse_state(p, true);
        if c == ':' || c == '\\' {
            let q1 = q + seq!['\\'];
            assert((q1 + seq![c]).drop_last() =~= q1);
            assert(q1.drop_last() =~= q);
            assert(q1.last() == '\\');
            assert(spec_terse_state(q1, true) == (f, cur + xs, true));
            assert((q1 + seq![c]).last() == c);
            assert(spec_terse_state(q1 + seq![c], true) == (f, (cur + xs).push(c), false));
            assert(p + spec_escape_terse(x) =~= q1 + seq![c]);
            assert((cur + xs).push(c) =~= cur + x);
        } else {
            assert((q + seq![c]).drop_last() =~= q);
            assert((q + seq![c]).last() == c);
            assert(spec_terse_state(q + seq![c], true) == (f, (cur + xs).push(c), false));
            assert(p + spec_escape_terse(x) =~= q + seq![c]);
            assert((cur + xs).push(c) =~= cur + x);
        }
    }
}

proof fn lemma_terse_state_of_join(fields: Seq<Seq<char>>)
    requires
        fields.len() >= 1,
    ensures
        spec_terse_state(spec_join_terse(fields), true) == (
            fields.drop_last(),
            fields.last(),
            false,
        ),
    decreases fields.len(),
{
    if fields.len() == 1 {
        let e = Seq::<char>::empty();
        lemma_terse_reads_escaped(e, fields[0]);
        assert(e + spec_escape_terse(fields[0]) =~= spec_escape_terse(fields[0]));
        assert(Seq::<char>::empty() + fields[0] =~= fields[0]);
        assert(fields.drop_last() =~= Seq::<Seq<char>>::empty());
    } else {
        let init = fields.drop_last();
        lemma_terse_state_of_join(init);
        let j = spec_join_terse(init);
        let j1 = j + seq![':'];
        assert(j1.drop_last() =~= j);
        let st = spec_terse_state(j1, true);
        assert(st == (init.drop_last().push(init.last()), Seq::<char>::empty(), false));
        assert(init.drop_last().push(init.last()) =~= init);
        lemma_terse_reads_escaped(j1, fields.last());
        assert(spec_join_terse(fields) =~= j1 + spec_escape_terse(fields.last()));
        assert(Seq::<char>::empty() + fields.last() =~= fields.last());
    }
}

/// Escaping values and joining them with `:` is undone by
/// `split_terse_line`: the line splits back into exactly those values.
pub proof fn law_split_terse_undoes_escaped_join(fields: Seq<Seq<char>>)
    requires
        fields.len() >= 1,
    ensures
        spec_split_terse_line(spec_join_terse(fields)) == fields,
{
    lemma_terse_state_of_join(fields);
    assert(fields.drop_last().push(fields.last()) =~= fields);
}

} // verus!
