//! Reading a connection's metered flag back from `nmcli` details agrees with
//! what the set-metered command writes.
use vstd::prelude::*;

use crate::text::{lemma_first_index_unique, spec_first_index_of, spec_starts_with};
use crate::wifi::{spec_nmcli_arguments, WifiActionView};
use crate::wifi_scan::{spec_details_step, spec_terse_state, spec_unescape_terse, DetailsView};

verus! {

/// A value without backslashes reads back unchanged.
proof fn lemma_plain_value(s: Seq<char>)
    requires
        forall|i: int| 0 <= i < s.len() ==> s[i] != '\\',
    ensures
        spec_terse_state(s, false).1 == s,
        spec_terse_state(s, false).2 == false,
    decreases s.len(),
{
    if s.len() > 0 {
        lemma_plain_value(s.drop_last());
        assert(s.drop_last().push(s.last()) =~= s);
    }
}

/// A `connection.metered:<v>` details line (with `v` free of backslashes)
/// sets the metered flag to whether `v` is `yes` or `1`, and changes nothing
/// else.
pub proof fn law_metered_line(d: DetailsView, v: Seq<char>)
    requires
        forall|i: int| 0 <= i < v.len() ==> v[i] != '\\',
    ensures
        spec_details_step(d, "connection.metered:"@ + v).metered == (v == "yes"@ || v == "1"@),
        spec_details_step(d, "connection.metered:"@ + v) == (DetailsView {
            metered: spec_details_step(d, "connection.metered:"@ + v).metered,
            ..d
        }),
{
    reveal_strlit("connection.metered:");
    reveal_strlit("connection.metered");
    reveal_strlit("IP4.ADDRESS");
    reveal_strlit("IP4.GATEWAY");
    reveal_strlit("IP4.DNS");
    reveal_strlit("GENERAL.HWADDR");
    reveal_strlit("ipv4.method");
    let l = "connection.metered:"@ + v;
    assert(l[18] == ':');
    assert forall|j: int| 0 <= j < 18 implies l[j] != ':' by {}
    lemma_first_index_unique(l, ':', 18);
    let key = l.take(18);
    assert(key =~= "connection.metered"@);
    assert(l.skip(19) =~= v);
    lemma_plain_value(v);
    assert(spec_unescape_terse(v) == v);
    assert(!spec_starts_with(key, "IP4.ADDRESS"@)) by {
        assert(key[0] != "IP4.ADDRESS"@[0]);
        assert(key.subrange(0, 11)[0] == key[0]);
    }
    assert(!spec_starts_with(key, "IP4.DNS"@)) by {
        assert(key.subrange(0, 7)[0] == key[0]);
    }
    assert(key != "IP4.GATEWAY"@) by {
        assert(key[0] != "IP4.GATEWAY"@[0]);
    }
    assert(key != "GENERAL.HWADDR"@) by {
        assert(key[0] != "GENERAL.HWADDR"@[0]);
    }
    assert(key != "ipv4.method"@) by {
        assert(key[0] != "ipv4.method"@[0]);
    }
}

/// Reading back what the set-metered command writes gives the flag it set:
/// the command's property and value, as a details line, set metered to the
/// requested flag.
pub proof fn law_set_metered_reads_back(id: Seq<char>, metered: bool, d: DetailsView)
    ensures
        ({
            let a = spec_nmcli_arguments(WifiActionView::SetMetered { id, metered })->0;
            spec_details_step(d, a[4] + ":"@ + a[5]).metered == metered
        }),
{
    reveal_strlit("yes");
    reveal_strlit("no");
    reveal_strlit("1");
    reveal_strlit(":");
    reveal_strlit("connection.metered");
    reveal_strlit("connection.metered:");
    let a = spec_nmcli_arguments(WifiActionView::SetMetered { id, metered })->0;
    let v: Seq<char> = if metered { "yes"@ } else { "no"@ };
    assert(a[4] + ":"@ + a[5] =~= "connection.metered:"@ + v);
    assert forall|i: int| 0 <= i < v.len() implies v[i] != '\\' by {}
    law_metered_line(d, v);
    if !metered {
        assert(v.len() != "1"@.len() || v[0] != "1"@[0]);
        assert(v != "1"@);
        assert(v != "yes"@);
    }
}

} // verus!
