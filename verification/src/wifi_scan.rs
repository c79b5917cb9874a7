//! Parsing of `nmcli -t` (terse) output: field splitting, the scan list with
//! per-network deduplication, saved profiles, connection details and the
//! radio state.
use vstd::prelude::*;

use crate::text::{
    chars_vec, contains, eq_ignore_ascii_case, first_index_of, lines, parse_unsigned, slice_vec,
    spec_contains, spec_eq_ignore_ascii_case, spec_lines, spec_parse_unsigned, spec_starts_with,
    spec_trim, starts_with, string_of, string_views, trim, trim_bounds, vec_is, views,
};

verus! {

#[derive(Debug, Clone, Copy, PartialEq, Eq, Structural)]
pub enum WifiSecurity {
    Open,
    Wpa,
    Wpa2,
    Wpa3,
    Other,
}

#[derive(Debug, Clone, Copy, PartialEq, Eq, Structural)]
pub enum WifiBand {
    TwoFour,
    Five,
    Six,
    Unknown,
}

#[derive(Debug, Clone, Copy, PartialEq, Eq, Structural)]
pub enum Ipv4Method {
    Auto,
    Manual,
}

/// Security class of an nmcli `SECURITY` field.
pub open spec fn spec_map_security(f: Seq<char>) -> WifiSecurity {
    if f.len() == 0 {
        WifiSecurity::Open
    } else if spec_contains(f, "WPA3"@) {
        WifiSecurity::Wpa3
    } else if spec_contains(f, "WPA2"@) {
        WifiSecurity::Wpa2
    } else if spec_contains(f, "WPA"@) {
        WifiSecurity::Wpa
    } else {
        WifiSecurity::Other
    }
}

pub fn map_security(field: &str) -> (r: WifiSecurity)
    ensures
        r == spec_map_security(field@),
{
    let v = chars_vec(field);
    if v.len() == 0 {
        WifiSecurity::Open
    } else if contains(&v, "WPA3") {
        WifiSecurity::Wpa3
    } else if contains(&v, "WPA2") {
        WifiSecurity::Wpa2
    } else if contains(&v, "WPA") {
        WifiSecurity::Wpa
    } else {
        WifiSecurity::Other
    }
}

/// Band of a frequency in MHz: 2400-2500 is 2.4 GHz, 5925-7125 is 6 GHz,
/// 5000-5900 is 5 GHz.
pub open spec fn spec_map_band(f: u32) -> WifiBand {
    if 2400 <= f <= 2500 {
        WifiBand::TwoFour
    } else if 5925 <= f <= 7125 {
        WifiBand::Six
    } else if 5000 <= f <= 5900 {
        WifiBand::Five
    } else {
        WifiBand::Unknown
    }
}

pub fn map_band(freq_mhz: u32) -> (r: WifiBand)
    ensures
        r == spec_map_band(freq_mhz),
{
    if 2400 <= freq_mhz && freq_mhz <= 2500 {
        WifiBand::TwoFour
    } else if 5925 <= freq_mhz && freq_mhz <= 7125 {
        WifiBand::Six
    } else if 5000 <= freq_mhz && freq_mhz <= 5900 {
        WifiBand::Five
    } else {
        WifiBand::Unknown
    }
}

/// Fields so far, the pending field and whether a backslash is pending, after
/// reading `s` as one terse line.
pub open spec fn spec_terse_state(s: Seq<char>, split: bool) -> (Seq<Seq<char>>, Seq<char>, bool)
    decreases s.len(),
{
    if s.len() == 0 {
        (Seq::empty(), Seq::empty(), false)
    } else {
        let (fields, cur, esc) = spec_terse_state(s.drop_last(), split);
        let c = s.last();
        if esc {
            (fields, cur.push(c), false)
        } else if c == '\\' {
            (fields, cur, true)
        } else if split && c == ':' {
            (fields.push(cur), Seq::empty(), false)
        } else {
            (fields, cur.push(c), false)
        }
    }
}

/// A terse line split at unescaped colons; `\x` stands for `x`, and a
/// trailing lone backslash is dropped.
pub open spec fn spec_split_terse_line(s: Seq<char>) -> Seq<Seq<char>> {
    let (fields, cur, _) = spec_terse_state(s, true);
    fields.push(cur)
}

/// A terse value with its escapes removed.
pub open spec fn spec_unescape_terse(s: Seq<char>) -> Seq<char> {
    spec_terse_state(s, false).1
}

fn terse_scan(v: &Vec<char>, split: bool) -> (r: (Vec<Vec<char>>, Vec<char>))
    ensures
        (views(r.0@), r.1@) == (spec_terse_state(v@, split).0, spec_terse_state(v@, split).1),
{
    let mut fields: Vec<Vec<char>> = Vec::new();
    let mut cur: Vec<char> = Vec::new();
    let mut esc = false;
    let mut i: usize = 0;
    while i < v.len()
        invariant
            i <= v.len(),
            (views(fields@), cur@, esc) == spec_terse_state(v@.take(i as int), split),
        decreases v.len() - i,
    {
        assert(v@.take(i + 1).drop_last() == v@.take(i as int));
        let c = v[i];
        if esc {
            cur.push(c);
            esc = false;
        } else if c == '\\' {
            esc = true;
        } else if split && c == ':' {
            fields.push(cur);
            cur = Vec::new();
        } else {
            cur.push(c);
        }
        i += 1;
        assert(views(fields@) == spec_terse_state(v@.take(i as int), split).0);
    }
    assert(v@.take(v.len() as int) == v@);
    (fields, cur)
}

pub fn split_terse_fields(v: &Vec<char>) -> (r: Vec<Vec<char>>)
    ensures
        views(r@) == spec_split_terse_line(v@),
{
    let (mut fields, cur) = terse_scan(v, true);
    fields.push(cur);
    assert(views(fields@) =~= spec_split_terse_line(v@));
    fields
}

/// Split one nmcli `-t` line into fields, honouring backslash escapes.
pub fn split_terse_line(line: &str) -> (r: Vec<String>)
    ensures
        string_views(r@) == spec_split_terse_line(line@),
{
    let v = chars_vec(line);
    let f = split_terse_fields(&v);
    crate::text::strings_of(&f)
}

pub fn unescape_terse_chars(v: &Vec<char>) -> (r: Vec<char>)
    ensures
        r@ == spec_unescape_terse(v@),
{
    let (_, cur) = terse_scan(v, false);
    cur
}

/// Unescape an nmcli `-t` value.
pub fn unescape_terse(s: &str) -> (r: String)
    ensures
        r@ == spec_unescape_terse(s@),
{
    let v = chars_vec(s);
    let u = unescape_terse_chars(&v);
    string_of(&u)
}

/// `nmcli radio wifi` output: true only for the trimmed, ASCII
/// case-insensitive word `enabled`.
pub open spec fn spec_parse_radio(raw: Seq<char>) -> bool {
    spec_eq_ignore_ascii_case(spec_trim(raw), "enabled"@)
}

pub fn parse_radio(raw: &str) -> (r: bool)
    ensures
        r == spec_parse_radio(raw@),
{
    let v = chars_vec(raw);
    let t = trim(&v);
    eq_ignore_ascii_case(&t, "enabled")
}

// ---------------------------------------------------------------------------
// Scan list.
// ---------------------------------------------------------------------------

/// A network seen in a scan.
#[derive(Debug, Clone)]
pub struct WifiNetwork {
    pub ssid: String,
    pub bssid: String,
    pub signal_percent: u8,
    pub security: WifiSecurity,
    pub band: WifiBand,
    pub saved: bool,
    pub active: bool,
}

#[verifier::ext_equal]
pub struct WifiNetworkView {
    pub ssid: Seq<char>,
    pub bssid: Seq<char>,
    pub signal_percent: u8,
    pub security: WifiSecurity,
    pub band: WifiBand,
    pub saved: bool,
    pub active: bool,
}

impl View for WifiNetwork {
    type V = WifiNetworkView;

    open spec fn view(&self) -> WifiNetworkView {
        WifiNetworkView {
            ssid: self.ssid@,
            bssid: self.bssid@,
            signal_percent: self.signal_percent,
            security: self.security,
            band: self.band,
            saved: self.saved,
            active: self.active,
        }
    }
}

/// The non-blank lines of `s`.
pub open spec fn spec_nonblank(ls: Seq<Seq<char>>) -> Seq<Seq<char>>
    decreases ls.len(),
{
    if ls.len() == 0 {
        Seq::empty()
    } else if spec_trim(ls.last()).len() == 0 {
        spec_nonblank(ls.drop_last())
    } else {
        spec_nonblank(ls.drop_last()).push(ls.last())
    }
}

pub fn nonblank_lines(v: &Vec<char>) -> (r: Vec<Vec<char>>)
    ensures
        views(r@) == spec_nonblank(spec_lines(v@)),
{
    let ls = lines(v);
    let mut out: Vec<Vec<char>> = Vec::new();
    let mut i: usize = 0;
    while i < ls.len()
        invariant
            i <= ls.len(),
            views(out@) == spec_nonblank(views(ls@).take(i as int)),
        decreases ls.len() - i,
    {
        assert(views(ls@).take(i + 1).drop_last() == views(ls@).take(i as int));
        let (a, b) = trim_bounds(&ls[i], 0, ls[i].len());
        assert(ls@[i as int]@.subrange(0, ls@[i as int]@.len() as int) == ls@[i as int]@);
        if a < b {
            let l = slice_vec(&ls[i], 0, ls[i].len());
            out.push(l);
        }
        i += 1;
        assert(views(out@) =~= spec_nonblank(views(ls@).take(i as int)));
    }
    assert(views(ls@).take(ls.len() as int) == views(ls@));
    out
}

/// A field read as an integer, zero when it does not parse.
pub open spec fn spec_parse_or_zero(f: Seq<char>, max: nat) -> nat {
    match spec_parse_unsigned(f, max) {
        Some(n) => n,
        None => 0,
    }
}

/// The network a scan row (at least seven fields) describes.
pub open spec fn spec_scan_row(f: Seq<Seq<char>>) -> WifiNetworkView {
    WifiNetworkView {
        ssid: f[0],
        bssid: f[1],
        signal_percent: spec_parse_or_zero(f[2], 255) as u8,
        security: spec_map_security(f[3]),
        band: spec_map_band(spec_parse_or_zero(f[4], u32::MAX as nat) as u32),
        saved: false,
        active: spec_eq_ignore_ascii_case(f[5], "yes"@) || spec_trim(f[6]) == "*"@,
    }
}

/// The deduplication key: the SSID, or for a hidden network (empty SSID) a
/// key built from its BSSID.
pub open spec fn spec_scan_key(n: WifiNetworkView) -> Seq<char> {
    if n.ssid.len() == 0 {
        seq!['\0'] + "hidden"@ + seq!['\0'] + n.bssid
    } else {
        n.ssid
    }
}

/// A later row for the same key: a stronger row replaces the entry (keeping
/// an earlier active flag); a weaker or equal active row marks it active.
pub open spec fn spec_merge(existing: WifiNetworkView, net: WifiNetworkView) -> WifiNetworkView {
    if net.signal_percent > existing.signal_percent {
        WifiNetworkView { active: existing.active || net.active, ..net }
    } else if net.active {
        WifiNetworkView { active: true, ..existing }
    } else {
        existing
    }
}

/// The first entry whose key is `k`.
pub open spec fn spec_key_index(entries: Seq<WifiNetworkView>, k: Seq<char>) -> Option<int>
    decreases entries.len(),
{
    if entries.len() == 0 {
        None
    } else {
        match spec_key_index(entries.drop_last(), k) {
            Some(i) => Some(i),
            None => if spec_scan_key(entries.last()) == k {
                Some(entries.len() - 1)
            } else {
                None
            },
        }
    }
}

/// Fold one scan row into the deduplicated entries (first-seen order).
pub open spec fn spec_absorb(entries: Seq<WifiNetworkView>, net: WifiNetworkView) -> Seq<
    WifiNetworkView,
> {
    match spec_key_index(entries, spec_scan_key(net)) {
        Some(i) => entries.update(i, spec_merge(entries[i], net)),
        None => entries.push(net),
    }
}

/// The deduplicated networks of the rows, in first-seen order.
pub open spec fn spec_dedup(rows: Seq<Seq<char>>) -> Seq<WifiNetworkView>
    decreases rows.len(),
{
    if rows.len() == 0 {
        Seq::empty()
    } else {
        let acc = spec_dedup(rows.drop_last());
        let f = spec_split_terse_line(rows.last());
        if f.len() < 7 {
            acc
        } else {
            spec_absorb(acc, spec_scan_row(f))
        }
    }
}

/// Insert `x` after every entry at least as strong (stable, strongest first).
pub open spec fn spec_insert_by_signal(s: Seq<WifiNetworkView>, x: WifiNetworkView) -> Seq<
    WifiNetworkView,
>
    decreases s.len(),
{
    if s.len() == 0 {
        seq![x]
    } else if s.last().signal_percent >= x.signal_percent {
        s.push(x)
    } else {
        spec_insert_by_signal(s.drop_last(), x).push(s.last())
    }
}

/// Stable sort, strongest signal first.
pub open spec fn spec_sort_by_signal(s: Seq<WifiNetworkView>) -> Seq<WifiNetworkView>
    decreases s.len(),
{
    if s.len() == 0 {
        s
    } else {
        spec_insert_by_signal(spec_sort_by_signal(s.drop_last()), s.last())
    }
}

/// Strongest signal first.
pub open spec fn spec_strongest_first(s: Seq<WifiNetworkView>) -> bool {
    forall|i: int, j: int| 0 <= i < j < s.len() ==> (#[trigger] s[i]).signal_percent >= (#[trigger] s[j]).signal_percent
}

proof fn lemma_insert_by_signal(s: Seq<WifiNetworkView>, x: WifiNetworkView)
    requires
        spec_strongest_first(s),
    ensures
        spec_strongest_first(spec_insert_by_signal(s, x)),
        spec_insert_by_signal(s, x).to_multiset() == s.to_multiset().insert(x),
    decreases s.len(),
{
    broadcast use vstd::seq_lib::group_to_multiset_ensures;
    if s.len() == 0 {
        assert(seq![x] =~= Seq::<WifiNetworkView>::empty().push(x));
        assert(s =~= Seq::<WifiNetworkView>::empty());
    } else if s.last().signal_percent >= x.signal_percent {
        let r = s.push(x);
        assert forall|i: int, j: int| 0 <= i < j < r.len() implies (#[trigger] r[i]).signal_percent >= (#[trigger] r[j]).signal_percent by {
            if j == r.len() - 1 {
                assert(r[i] == s[i]);
                if i < s.len() - 1 {
                    assert(s[i].signal_percent >= s[s.len() - 1].signal_percent);
                }
            } else {
                assert(r[i] == s[i] && r[j] == s[j]);
            }
        }
    } else {
        let d = s.drop_last();
        assert(spec_strongest_first(d)) by {
            assert forall|i: int, j: int| 0 <= i < j < d.len() implies (#[trigger] d[i]).signal_percent >= (#[trigger] d[j]).signal_percent by {
                assert(d[i] == s[i] && d[j] == s[j]);
            }
        }
        lemma_insert_by_signal(d, x);
        let t = spec_insert_by_signal(d, x);
        let r = t.push(s.last());
        assert forall|i: int| 0 <= i < t.len() implies (#[trigger] t[i]).signal_percent >= s.last().signal_percent by {
            assert(t.contains(t[i]));
            assert(t.to_multiset().count(t[i]) > 0);
            if t[i] != x {
                assert(d.to_multiset().count(t[i]) > 0);
                assert(d.contains(t[i]));
                let k = choose|k: int| 0 <= k < d.len() && d[k] == t[i];
                assert(s[k] == d[k]);
                assert(s[k].signal_percent >= s[s.len() - 1].signal_percent);
            }
        }
        assert forall|i: int, j: int| 0 <= i < j < r.len() implies (#[trigger] r[i]).signal_percent >= (#[trigger] r[j]).signal_percent by {
            if j == r.len() - 1 {
                assert(r[i] == t[i]);
            } else {
                assert(r[i] == t[i] && r[j] == t[j]);
            }
        }
        assert(s.to_multiset() == d.to_multiset().insert(s.last())) by {
            assert(d.push(s.last()) =~= s);
        }
        assert(r.to_multiset() =~= s.to_multiset().insert(x));
    }
}

proof fn lemma_sort_by_signal(s: Seq<WifiNetworkView>)
    ensures
        spec_strongest_first(spec_sort_by_signal(s)),
        spec_sort_by_signal(s).to_multiset() == s.to_multiset(),
    decreases s.len(),
{
    broadcast use vstd::seq_lib::group_to_multiset_ensures;
    if s.len() > 0 {
        lemma_sort_by_signal(s.drop_last());
        lemma_insert_by_signal(spec_sort_by_signal(s.drop_last()), s.last());
        assert(s.drop_last().push(s.last()) =~= s);
    }
}

/// The scan list is ordered strongest signal first, and holds exactly the
/// deduplicated networks (the order alone changes).
pub proof fn law_scan_list_strongest_first(raw: Seq<char>)
    ensures
        spec_strongest_first(spec_parse_scan_list(raw)),
        spec_parse_scan_list(raw).to_multiset() == spec_dedup(spec_nonblank(spec_lines(raw))).to_multiset(),
{
    lemma_sort_by_signal(spec_dedup(spec_nonblank(spec_lines(raw))));
}

/// No two networks share a key.
pub open spec fn spec_keys_distinct(s: Seq<WifiNetworkView>) -> bool {
    forall|i: int, j: int| 0 <= i < j < s.len() ==> spec_scan_key(#[trigger] s[i]) != spec_scan_key(#[trigger] s[j])
}

/// Some network of `s` has key `k`.
pub open spec fn spec_has_key(s: Seq<WifiNetworkView>, k: Seq<char>) -> bool {
    exists|i: int| 0 <= i < s.len() && spec_scan_key(#[trigger] s[i]) == k
}

proof fn lemma_key_index(e: Seq<WifiNetworkView>, k: Seq<char>)
    ensures
        match spec_key_index(e, k) {
            Some(i) => 0 <= i < e.len() && spec_scan_key(e[i]) == k,
            None => !spec_has_key(e, k),
        },
    decreases e.len(),
{
    if e.len() > 0 {
        let d = e.drop_last();
        lemma_key_index(d, k);
        match spec_key_index(d, k) {
            Some(i) => {
                assert(e[i] == d[i]);
            },
            None => {
                if spec_has_key(e, k) && spec_scan_key(e.last()) != k {
                    let j = choose|j: int| 0 <= j < e.len() && spec_scan_key(#[trigger] e[j]) == k;
                    assert(j != e.len() - 1);
                    assert(d[j] == e[j]);
                    assert(spec_has_key(d, k));
                }
            },
        }
    }
}

proof fn lemma_absorb_distinct(e: Seq<WifiNetworkView>, net: WifiNetworkView)
    requires
        spec_keys_distinct(e),
    ensures
        spec_keys_distinct(spec_absorb(e, net)),
        forall|k: Seq<char>| spec_has_key(spec_absorb(e, net), k) <==> (spec_has_key(e, k) || k == spec_scan_key(net)),
{
    let k0 = spec_scan_key(net);
    lemma_key_index(e, k0);
    let r = spec_absorb(e, net);
    match spec_key_index(e, k0) {
        Some(i) => {
            assert(spec_scan_key(spec_merge(e[i], net)) == spec_scan_key(e[i]));
            assert forall|a: int| 0 <= a < r.len() implies spec_scan_key(#[trigger] r[a]) == spec_scan_key(e[a]) by {}
            assert forall|k: Seq<char>| spec_has_key(r, k) <==> (spec_has_key(e, k) || k == k0) by {
                if spec_has_key(r, k) {
                    let a = choose|a: int| 0 <= a < r.len() && spec_scan_key(#[trigger] r[a]) == k;
                    assert(spec_scan_key(e[a]) == k);
                }
                if spec_has_key(e, k) {
                    let a = choose|a: int| 0 <= a < e.len() && spec_scan_key(#[trigger] e[a]) == k;
                    assert(spec_scan_key(r[a]) == k);
                }
                if k == k0 {
                    assert(spec_scan_key(r[i]) == k);
                }
            }
        },
        None => {
            assert forall|a: int, b: int| 0 <= a < b < r.len() implies spec_scan_key(#[trigger] r[a]) != spec_scan_key(#[trigger] r[b]) by {
                if b == e.len() {
                    assert(r[a] == e[a]);
                    if spec_scan_key(e[a]) == k0 {
                        assert(spec_has_key(e, k0));
                    }
                } else {
                    assert(r[a] == e[a] && r[b] == e[b]);
                }
            }
            assert forall|k: Seq<char>| spec_has_key(r, k) <==> (spec_has_key(e, k) || k == k0) by {
                if spec_has_key(r, k) {
                    let a = choose|a: int| 0 <= a < r.len() && spec_scan_key(#[trigger] r[a]) == k;
                    if a < e.len() {
                        assert(r[a] == e[a]);
                    }
                }
                if spec_has_key(e, k) {
                    let a = choose|a: int| 0 <= a < e.len() && spec_scan_key(#[trigger] e[a]) == k;
                    assert(r[a] == e[a]);
                }
                if k == k0 {
                    assert(r[e.len() as int] == net);
                }
            }
        },
    }
}

proof fn lemma_dedup_distinct(rows: Seq<Seq<char>>)
    ensures
        spec_keys_distinct(spec_dedup(rows)),
    decreases rows.len(),
{
    if rows.len() > 0 {
        lemma_dedup_distinct(rows.drop_last());
        let f = spec_split_terse_line(rows.last());
        if f.len() >= 7 {
            lemma_absorb_distinct(spec_dedup(rows.drop_last()), spec_scan_row(f));
        }
    }
}

proof fn lemma_insert_keeps_keys(s: Seq<WifiNetworkView>, x: WifiNetworkView)
    requires
        spec_keys_distinct(s),
        !spec_has_key(s, spec_scan_key(x)),
    ensures
        spec_keys_distinct(spec_insert_by_signal(s, x)),
        forall|k: Seq<char>| spec_has_key(spec_insert_by_signal(s, x), k) <==> (spec_has_key(s, k) || k == spec_scan_key(x)),
    decreases s.len(),
{
    let r = spec_insert_by_signal(s, x);
    if s.len() == 0 {
        assert forall|k: Seq<char>| spec_has_key(r, k) <==> (spec_has_key(s, k) || k == spec_scan_key(x)) by {
            if k == spec_scan_key(x) {
                assert(r[0] == x);
            }
        }
    } else if s.last().signal_percent >= x.signal_percent {
        assert forall|a: int, b: int| 0 <= a < b < r.len() implies spec_scan_key(#[trigger] r[a]) != spec_scan_key(#[trigger] r[b]) by {
            if b == s.len() {
                assert(r[a] == s[a]);
                if spec_scan_key(s[a]) == spec_scan_key(x) {
                    assert(spec_has_key(s, spec_scan_key(x)));
                }
            } else {
                assert(r[a] == s[a] && r[b] == s[b]);
            }
        }
        assert forall|k: Seq<char>| spec_has_key(r, k) <==> (spec_has_key(s, k) || k == spec_scan_key(x)) by {
            if spec_has_key(r, k) {
                let a = choose|a: int| 0 <= a < r.len() && spec_scan_key(#[trigger] r[a]) == k;
                if a < s.len() {
                    assert(r[a] == s[a]);
                }
            }
            if spec_has_key(s, k) {
                let a = choose|a: int| 0 <= a < s.len() && spec_scan_key(#[trigger] s[a]) == k;
                assert(r[a] == s[a]);
            }
            if k == spec_scan_key(x) {
                assert(r[s.len() as int] == x);
            }
        }
    } else {
        let d = s.drop_last();
        assert(spec_keys_distinct(d)) by {
            assert forall|a: int, b: int| 0 <= a < b < d.len() implies spec_scan_key(#[trigger] d[a]) != spec_scan_key(#[trigger] d[b]) by {
                assert(d[a] == s[a] && d[b] == s[b]);
            }
        }
        assert(!spec_has_key(d, spec_scan_key(x))) by {
            if spec_has_key(d, spec_scan_key(x)) {
                let a = choose|a: int| 0 <= a < d.len() && spec_scan_key(#[trigger] d[a]) == spec_scan_key(x);
                assert(s[a] == d[a]);
                assert(spec_has_key(s, spec_scan_key(x)));
            }
        }
        lemma_insert_keeps_keys(d, x);
        let t = spec_insert_by_signal(d, x);
        let last = s.last();
        assert(!spec_has_key(t, spec_scan_key(last))) by {
            if spec_has_key(t, spec_scan_key(last)) {
                if spec_has_key(d, spec_scan_key(last)) {
                    let a = choose|a: int| 0 <= a < d.len() && spec_scan_key(#[trigger] d[a]) == spec_scan_key(last);
                    assert(s[a] == d[a]);
                    assert(spec_scan_key(s[a]) != spec_scan_key(s[s.len() - 1]));
                } else {
                    assert(spec_scan_key(last) == spec_scan_key(x));
                    assert(spec_has_key(s, spec_scan_key(x))) by {
                        assert(spec_scan_key(s[s.len() - 1]) == spec_scan_key(x));
                    }
                }
            }
        }
        assert forall|a: int, b: int| 0 <= a < b < r.len() implies spec_scan_key(#[trigger] r[a]) != spec_scan_key(#[trigger] r[b]) by {
            if b == t.len() {
                assert(r[a] == t[a]);
                if spec_scan_key(t[a]) == spec_scan_key(last) {
                    assert(spec_has_key(t, spec_scan_key(last)));
                }
            } else {
                assert(r[a] == t[a] && r[b] == t[b]);
            }
        }
        assert forall|k: Seq<char>| spec_has_key(r, k) <==> (spec_has_key(s, k) || k == spec_scan_key(x)) by {
            if spec_has_key(r, k) {
                let a = choose|a: int| 0 <= a < r.len() && spec_scan_key(#[trigger] r[a]) == k;
                if a < t.len() {
                    assert(r[a] == t[a]);
                    assert(spec_has_key(t, k));
                    if spec_has_key(d, k) {
                        let c = choose|c: int| 0 <= c < d.len() && spec_scan_key(#[trigger] d[c]) == k;
                        assert(s[c] == d[c]);
                    }
                } else {
                    assert(r[a] == last);
                    assert(spec_scan_key(s[s.len() - 1]) == k);
                }
            }
            if spec_has_key(s, k) {
                let a = choose|a: int| 0 <= a < s.len() && spec_scan_key(#[trigger] s[a]) == k;
                if a < s.len() - 1 {
                    assert(d[a] == s[a]);
                    assert(spec_has_key(d, k));
                    assert(spec_has_key(t, k));
                    let c = choose|c: int| 0 <= c < t.len() && spec_scan_key(#[trigger] t[c]) == k;
                    assert(r[c] == t[c]);
                } else {
                    assert(r[t.len() as int] == last);
                }
            }
            if k == spec_scan_key(x) {
                assert(spec_has_key(t, k));
                let c = choose|c: int| 0 <= c < t.len() && spec_scan_key(#[trigger] t[c]) == k;
                assert(r[c] == t[c]);
            }
        }
    }
}

proof fn lemma_sort_keeps_keys(s: Seq<WifiNetworkView>)
    requires
        spec_keys_distinct(s),
    ensures
        spec_keys_distinct(spec_sort_by_signal(s)),
        forall|k: Seq<char>| spec_has_key(spec_sort_by_signal(s), k) <==> spec_has_key(s, k),
    decreases s.len(),
{
    if s.len() > 0 {
        let d = s.drop_last();
        assert(spec_keys_distinct(d)) by {
            assert forall|a: int, b: int| 0 <= a < b < d.len() implies spec_scan_key(#[trigger] d[a]) != spec_scan_key(#[trigger] d[b]) by {
                assert(d[a] == s[a] && d[b] == s[b]);
            }
        }
        lemma_sort_keeps_keys(d);
        let last = s.last();
        assert(!spec_has_key(spec_sort_by_signal(d), spec_scan_key(last))) by {
            if spec_has_key(d, spec_scan_key(last)) {
                let a = choose|a: int| 0 <= a < d.len() && spec_scan_key(#[trigger] d[a]) == spec_scan_key(last);
                assert(s[a] == d[a]);
                assert(spec_scan_key(s[a]) != spec_scan_key(s[s.len() - 1]));
            }
        }
        lemma_insert_keeps_keys(spec_sort_by_signal(d), last);
        assert forall|k: Seq<char>| spec_has_key(spec_sort_by_signal(s), k) <==> spec_has_key(s, k) by {
            if spec_has_key(d, k) {
                let a = choose|a: int| 0 <= a < d.len() && spec_scan_key(#[trigger] d[a]) == k;
                assert(s[a] == d[a]);
            }
            if spec_has_key(s, k) {
                let a = choose|a: int| 0 <= a < s.len() && spec_scan_key(#[trigger] s[a]) == k;
                if a < s.len() - 1 {
                    assert(d[a] == s[a]);
                }
            }
        }
    }
}

/// The scan list holds one network per key (SSID, or BSSID for a hidden
/// network).
pub proof fn law_scan_list_one_network_per_key(raw: Seq<char>)
    ensures
        spec_keys_distinct(spec_parse_scan_list(raw)),
{
    let rows = spec_nonblank(spec_lines(raw));
    lemma_dedup_distinct(rows);
    lemma_sort_keeps_keys(spec_dedup(rows));
}

/// The scan list: one network per key (the strongest row, active when any
/// row for it is active), strongest first; rows with fewer than seven fields
/// are ignored.
pub open spec fn spec_parse_scan_list(raw: Seq<char>) -> Seq<WifiNetworkView> {
    spec_sort_by_signal(spec_dedup(spec_nonblank(spec_lines(raw))))
}

pub open spec fn net_views(v: Seq<WifiNetwork>) -> Seq<WifiNetworkView> {
    v.map_values(|n: WifiNetwork| n@)
}

fn parse_or_zero(f: &Vec<char>, max: u64) -> (r: u64)
    ensures
        r as nat == spec_parse_or_zero(f@, max as nat),
        r <= max,
{
    assert(f@.subrange(0, f@.len() as int) == f@);
    match parse_unsigned(f, 0, f.len(), max) {
        Some(n) => n,
        None => 0,
    }
}

fn scan_row(f: &Vec<Vec<char>>) -> (r: WifiNetwork)
    requires
        f.len() >= 7,
    ensures
        r@ == spec_scan_row(views(f@)),
{
    let signal = parse_or_zero(&f[2], 255) as u8;
    let ssid = string_of(&f[0]);
    let bssid = string_of(&f[1]);
    let sec = map_security(ssid_str_hack(&f[3]).as_str());
    let freq = parse_or_zero(&f[4], 4294967295u64) as u32;
    let t = trim(&f[6]);
    let active = eq_ignore_ascii_case(&f[5], "yes") || vec_is(&t, "*");
    WifiNetwork {
        ssid,
        bssid,
        signal_percent: signal,
        security: sec,
        band: map_band(freq),
        saved: false,
        active,
    }
}

fn ssid_str_hack(v: &Vec<char>) -> (r: String)
    ensures
        r@ == v@,
{
    string_of(v)
}

fn scan_key(n: &WifiNetwork) -> (r: Vec<char>)
    ensures
        r@ == spec_scan_key(n@),
{
    let ssid = chars_vec(n.ssid.as_str());
    if ssid.len() == 0 {
        let mut k: Vec<char> = Vec::new();
        k.push('\0');
        crate::text::extend_str(&mut k, "hidden");
        k.push('\0');
        let b = chars_vec(n.bssid.as_str());
        crate::text::extend_chars(&mut k, &b);
        assert(k@ =~= seq!['\0'] + "hidden"@ + seq!['\0'] + n.bssid@);
        k
    } else {
        ssid
    }
}

fn key_index(entries: &Vec<WifiNetwork>, k: &Vec<char>) -> (r: Option<usize>)
    ensures
        r is Some ==> r->0 < entries.len(),
        r is Some ==> spec_key_index(net_views(entries@), k@) == Some(r->0 as int),
        r is None ==> spec_key_index(net_views(entries@), k@) is None,
{
    let mut i: usize = 0;
    while i < entries.len()
        invariant
            i <= entries.len(),
            spec_key_index(net_views(entries@).take(i as int), k@) is None,
        decreases entries.len() - i,
    {
        assert(net_views(entries@).take(i + 1).drop_last() == net_views(entries@).take(i as int));
        let ek = scan_key(&entries[i]);
        assert(ek@.subrange(0, ek@.len() as int) == ek@);
        if crate::text::seq_eq(&ek, 0, ek.len(), k) {
            proof {
                lemma_key_index_prefix(net_views(entries@), k@, i as int + 1);
            }
            return Some(i);
        }
        i += 1;
    }
    assert(net_views(entries@).take(entries.len() as int) == net_views(entries@));
    None
}

proof fn lemma_key_index_prefix(s: Seq<WifiNetworkView>, k: Seq<char>, n: int)
    requires
        0 <= n <= s.len(),
        spec_key_index(s.take(n), k) is Some,
    ensures
        spec_key_index(s, k) == spec_key_index(s.take(n), k),
    decreases s.len() - n,
{
    if n < s.len() {
        assert(s.take(n + 1).drop_last() == s.take(n));
        lemma_key_index_prefix(s, k, n + 1);
    } else {
        assert(s.take(n) == s);
    }
}

fn merge_into(entries: &mut Vec<WifiNetwork>, net: WifiNetwork)
    ensures
        net_views(final(entries)@) == spec_absorb(net_views(old(entries)@), net@),
{
    let k = scan_key(&net);
    match key_index(entries, &k) {
        Some(i) => {
            let existing = copy_network(&entries[i]);
            let merged = if net.signal_percent > existing.signal_percent {
                let was_active = existing.active;
                let mut n2 = net;
                n2.active = was_active || n2.active;
                n2
            } else if net.active {
                let mut e2 = existing;
                e2.active = true;
                e2
            } else {
                existing
            };
            assert(merged@ =~= spec_merge(net_views(old(entries)@)[i as int], net@));
            entries.set(i, merged);
            assert(net_views(entries@) =~= spec_absorb(net_views(old(entries)@), net@));
        },
        None => {
            entries.push(net);
            assert(net_views(entries@) =~= spec_absorb(net_views(old(entries)@), net@));
        },
    }
}

/// A field-for-field copy of a network.
pub fn copy_network(n: &WifiNetwork) -> (r: WifiNetwork)
    ensures
        r@ == n@,
{
    WifiNetwork {
        ssid: n.ssid.clone(),
        bssid: n.bssid.clone(),
        signal_percent: n.signal_percent,
        security: n.security,
        band: n.band,
        saved: n.saved,
        active: n.active,
    }
}

fn insert_by_signal(sorted: &mut Vec<WifiNetwork>, x: WifiNetwork)
    ensures
        net_views(final(sorted)@) == spec_insert_by_signal(net_views(old(sorted)@), x@),
{
    let mut j: usize = sorted.len();
    assert(net_views(sorted@).take(j as int) == net_views(sorted@));
    assert(net_views(sorted@).skip(j as int) =~= Seq::<WifiNetworkView>::empty());
    while j > 0 && sorted[j - 1].signal_percent < x.signal_percent
        invariant
            j <= sorted.len(),
            sorted@ == old(sorted)@,
            spec_insert_by_signal(net_views(sorted@), x@) == spec_insert_by_signal(
                net_views(sorted@).take(j as int),
                x@,
            ) + net_views(sorted@).skip(j as int),
        decreases j,
    {
        let ghost s = net_views(sorted@);
        assert(s.take(j as int).drop_last() == s.take(j - 1));
        assert(s.take(j as int).last() == s[j - 1]);
        assert(s.skip(j - 1) =~= seq![s[j - 1]] + s.skip(j as int));
        assert(spec_insert_by_signal(s.take(j as int), x@) == spec_insert_by_signal(
            s.take(j - 1),
            x@,
        ).push(s[j - 1]));
        assert(spec_insert_by_signal(s.take(j - 1), x@).push(s[j - 1]) + s.skip(j as int)
            =~= spec_insert_by_signal(s.take(j - 1), x@) + s.skip(j - 1));
        j -= 1;
    }
    proof {
        let s = net_views(sorted@);
        if j > 0 {
            assert(s.take(j as int).last() == s[j - 1]);
            assert(spec_insert_by_signal(s.take(j as int), x@) == s.take(j as int).push(x@));
        } else {
            assert(s.take(0) =~= Seq::<WifiNetworkView>::empty());
        }
    }
    sorted.insert(j, x);
    proof {
        let s = net_views(old(sorted)@);
        assert(net_views(sorted@) =~= s.take(j as int).push(x@) + s.skip(j as int));
    }
}

/// Sort strongest first, keeping the order of equally strong networks.
pub fn sort_by_signal(v: Vec<WifiNetwork>) -> (r: Vec<WifiNetwork>)
    ensures
        net_views(r@) == spec_sort_by_signal(net_views(v@)),
{
    let mut out: Vec<WifiNetwork> = Vec::new();
    let mut i: usize = 0;
    while i < v.len()
        invariant
            i <= v.len(),
            net_views(out@) == spec_sort_by_signal(net_views(v@).take(i as int)),
        decreases v.len() - i,
    {
        assert(net_views(v@).take(i + 1).drop_last() == net_views(v@).take(i as int));
        insert_by_signal(&mut out, copy_network(&v[i]));
        i += 1;
    }
    assert(net_views(v@).take(v.len() as int) == net_views(v@));
    out
}

/// Parse `nmcli -t -f SSID,BSSID,SIGNAL,SECURITY,FREQ,ACTIVE,IN-USE device
/// wifi list` output into deduplicated networks, strongest first.
pub fn parse_scan_list(raw: &str) -> (r: Vec<WifiNetwork>)
    ensures
        net_views(r@) == spec_parse_scan_list(raw@),
{
    let v = chars_vec(raw);
    let rows = nonblank_lines(&v);
    let mut entries: Vec<WifiNetwork> = Vec::new();
    let mut i: usize = 0;
    while i < rows.len()
        invariant
            i <= rows.len(),
            net_views(entries@) == spec_dedup(views(rows@).take(i as int)),
        decreases rows.len() - i,
    {
        assert(views(rows@).take(i + 1).drop_last() == views(rows@).take(i as int));
        let f = split_terse_fields(&rows[i]);
        if f.len() >= 7 {
            let net = scan_row(&f);
            merge_into(&mut entries, net);
        }
        i += 1;
    }
    assert(views(rows@).take(rows.len() as int) == views(rows@));
    sort_by_signal(entries)
}

// ---------------------------------------------------------------------------
// Saved profiles and connection details.
// ---------------------------------------------------------------------------

/// A saved wireless connection profile.
#[derive(Debug, Clone)]
pub struct SavedNetwork {
    pub id: String,
    pub ssid: String,
    pub security: WifiSecurity,
    pub autoconnect: bool,
    pub in_range: bool,
}

pub struct SavedNetworkView {
    pub id: Seq<char>,
    pub ssid: Seq<char>,
    pub security: WifiSecurity,
    pub autoconnect: bool,
    pub in_range: bool,
}

impl View for SavedNetwork {
    type V = SavedNetworkView;

    open spec fn view(&self) -> SavedNetworkView {
        SavedNetworkView {
            id: self.id@,
            ssid: self.ssid@,
            security: self.security,
            autoconnect: self.autoconnect,
            in_range: self.in_range,
        }
    }
}

pub open spec fn saved_views(v: Seq<SavedNetwork>) -> Seq<SavedNetworkView> {
    v.map_values(|n: SavedNetwork| n@)
}

/// The saved profile a `NAME:UUID:TYPE:AUTOCONNECT` row describes, if it is a
/// wireless one.
pub open spec fn spec_saved_row(f: Seq<Seq<char>>) -> Option<SavedNetworkView> {
    if f.len() < 4 || f[2] != "802-11-wireless"@ {
        None
    } else {
        Some(
            SavedNetworkView {
                id: f[1],
                ssid: f[0],
                security: WifiSecurity::Other,
                autoconnect: spec_eq_ignore_ascii_case(f[3], "yes"@),
                in_range: false,
            },
        )
    }
}

pub open spec fn spec_saved_rows(rows: Seq<Seq<char>>) -> Seq<SavedNetworkView>
    decreases rows.len(),
{
    if rows.len() == 0 {
        Seq::empty()
    } else {
        let acc = spec_saved_rows(rows.drop_last());
        match spec_saved_row(spec_split_terse_line(rows.last())) {
            Some(s) => acc.push(s),
            None => acc,
        }
    }
}

/// Saved wireless profiles, in listing order.
pub open spec fn spec_parse_saved_list(raw: Seq<char>) -> Seq<SavedNetworkView> {
    spec_saved_rows(spec_nonblank(spec_lines(raw)))
}

pub fn parse_saved_list(raw: &str) -> (r: Vec<SavedNetwork>)
    ensures
        saved_views(r@) == spec_parse_saved_list(raw@),
{
    let v = chars_vec(raw);
    let rows = nonblank_lines(&v);
    let mut out: Vec<SavedNetwork> = Vec::new();
    let mut i: usize = 0;
    while i < rows.len()
        invariant
            i <= rows.len(),
            saved_views(out@) == spec_saved_rows(views(rows@).take(i as int)),
        decreases rows.len() - i,
    {
        assert(views(rows@).take(i + 1).drop_last() == views(rows@).take(i as int));
        let f = split_terse_fields(&rows[i]);
        if f.len() >= 4 && vec_is(&f[2], "802-11-wireless") {
            let s = SavedNetwork {
                id: string_of(&f[1]),
                ssid: string_of(&f[0]),
                security: WifiSecurity::Other,
                autoconnect: eq_ignore_ascii_case(&f[3], "yes"),
                in_range: false,
            };
            out.push(s);
        }
        i += 1;
        assert(saved_views(out@) =~= spec_saved_rows(views(rows@).take(i as int)));
    }
    assert(views(rows@).take(rows.len() as int) == views(rows@));
    out
}

/// Details of a connection.
#[derive(Debug, Clone)]
pub struct WifiConnectionDetails {
    pub ip_address: Option<String>,
    pub gateway: Option<String>,
    pub dns: Vec<String>,
    pub mac: Option<String>,
    pub frequency_mhz: Option<u32>,
    pub ipv4_method: Ipv4Method,
    pub metered: bool,
}

#[verifier::ext_equal]
pub struct DetailsView {
    pub ip_address: Option<Seq<char>>,
    pub gateway: Option<Seq<char>>,
    pub dns: Seq<Seq<char>>,
    pub mac: Option<Seq<char>>,
    pub ipv4_method: Ipv4Method,
    pub metered: bool,
}

pub open spec fn opt_view(o: Option<String>) -> Option<Seq<char>> {
    match o {
        Some(s) => Some(s@),
        None => None,
    }
}

impl View for WifiConnectionDetails {
    type V = DetailsView;

    open spec fn view(&self) -> DetailsView {
        DetailsView {
            ip_address: opt_view(self.ip_address),
            gateway: opt_view(self.gateway),
            dns: string_views(self.dns@),
            mac: opt_view(self.mac),
            ipv4_method: self.ipv4_method,
            metered: self.metered,
        }
    }
}

/// One `KEY:value` line's effect on the details (the key ends at the first
/// colon; the value is unescaped).
pub open spec fn spec_details_step(d: DetailsView, l: Seq<char>) -> DetailsView {
    match crate::text::spec_first_index_of(l, ':') {
        None => d,
        Some(i) => {
            let key = l.take(i);
            let value = spec_unescape_terse(l.skip(i + 1));
            if spec_starts_with(key, "IP4.ADDRESS"@) {
                if d.ip_address is None {
                    DetailsView { ip_address: Some(value), ..d }
                } else {
                    d
                }
            } else if key == "IP4.GATEWAY"@ {
                DetailsView { gateway: Some(value), ..d }
            } else if spec_starts_with(key, "IP4.DNS"@) {
                DetailsView { dns: d.dns.push(value), ..d }
            } else if key == "GENERAL.HWADDR"@ {
                DetailsView { mac: Some(value), ..d }
            } else if key == "ipv4.method"@ {
                DetailsView {
                    ipv4_method: if value == "auto"@ {
                        Ipv4Method::Auto
                    } else {
                        Ipv4Method::Manual
                    },
                    ..d
                }
            } else if key == "connection.metered"@ {
                DetailsView { metered: value == "yes"@ || value == "1"@, ..d }
            } else {
                d
            }
        },
    }
}

pub open spec fn spec_details_lines(ls: Seq<Seq<char>>) -> DetailsView
    decreases ls.len(),
{
    if ls.len() == 0 {
        DetailsView {
            ip_address: None,
            gateway: None,
            dns: Seq::empty(),
            mac: None,
            ipv4_method: Ipv4Method::Auto,
            metered: false,
        }
    } else {
        spec_details_step(spec_details_lines(ls.drop_last()), ls.last())
    }
}

/// Connection details from `nmcli -t` key/value output: the first address,
/// the gateway, every DNS server in order, the hardware address, the IPv4
/// method and the metered flag.
pub open spec fn spec_parse_details(raw: Seq<char>) -> DetailsView {
    spec_details_lines(spec_nonblank(spec_lines(raw)))
}

pub fn parse_details(raw: &str) -> (r: WifiConnectionDetails)
    ensures
        r@ == spec_parse_details(raw@),
        r.frequency_mhz is None,
{
    let v = chars_vec(raw);
    let rows = nonblank_lines(&v);
    let mut d = WifiConnectionDetails {
        ip_address: None,
        gateway: None,
        dns: Vec::new(),
        mac: None,
        frequency_mhz: None,
        ipv4_method: Ipv4Method::Auto,
        metered: false,
    };
    let mut i: usize = 0;
    assert(d@ =~= spec_details_lines(views(rows@).take(0)));
    while i < rows.len()
        invariant
            i <= rows.len(),
            d@ == spec_details_lines(views(rows@).take(i as int)),
            d.frequency_mhz is None,
        decreases rows.len() - i,
    {
        assert(views(rows@).take(i + 1).drop_last() == views(rows@).take(i as int));
        let l = &rows[i];
        assert(views(rows@)[i as int] == l@);
        match first_index_of(l, 0, ':') {
            None => {
                proof {
                    assert(!(exists|j: int| 0 <= j < l@.len() && l@[j] == ':'));
                }
            },
            Some(k) => {
                proof {
                    assert(exists|j: int| 0 <= j < l@.len() && l@[j] == ':');
                    let c = choose|j: int|
                        0 <= j < l@.len() && l@[j] == ':' && forall|m: int| 0 <= m < j ==> l@[m] != ':';
                    assert(c == k);
                }
                let key = slice_vec(l, 0, k);
                let raw_value = slice_vec(l, k + 1, l.len());
                assert(key@ == l@.take(k as int));
                assert(raw_value@ == l@.skip(k + 1));
                let value = unescape_terse_chars(&raw_value);
                if starts_with(&key, "IP4.ADDRESS") {
                    if d.ip_address.is_none() {
                        d.ip_address = Some(string_of(&value));
                    }
                } else if vec_is(&key, "IP4.GATEWAY") {
                    d.gateway = Some(string_of(&value));
                } else if starts_with(&key, "IP4.DNS") {
                    d.dns.push(string_of(&value));
                } else if vec_is(&key, "GENERAL.HWADDR") {
                    d.mac = Some(string_of(&value));
                } else if vec_is(&key, "ipv4.method") {
                    d.ipv4_method = if vec_is(&value, "auto") {
                        Ipv4Method::Auto
                    } else {
                        Ipv4Method::Manual
                    };
                } else if vec_is(&key, "connection.metered") {
                    d.metered = vec_is(&value, "yes") || vec_is(&value, "1");
                }
            },
        }
        i += 1;
        assert(d@ =~= spec_details_lines(views(rows@).take(i as int)));
    }
    assert(views(rows@).take(rows.len() as int) == views(rows@));
    d
}

/// The UUID of the first active wireless connection in
/// `nmcli -t -f UUID,TYPE,DEVICE connection show --active` output.
pub open spec fn spec_active_wifi_uuid_rows(rows: Seq<Seq<char>>) -> Option<Seq<char>>
    decreases rows.len(),
{
    if rows.len() == 0 {
        None
    } else {
        let f = spec_split_terse_line(rows[0]);
        if f.len() >= 2 && f[1] == "802-11-wireless"@ {
            Some(f[0])
        } else {
            spec_active_wifi_uuid_rows(rows.drop_first())
        }
    }
}

pub fn active_wifi_uuid(raw: &str) -> (r: Option<String>)
    ensures
        match spec_active_wifi_uuid_rows(spec_nonblank(spec_lines(raw@))) {
            Some(u) => r is Some && r->0@ == u,
            None => r is None,
        },
{
    let v = chars_vec(raw);
    let rows = nonblank_lines(&v);
    let mut i: usize = 0;
    assert(views(rows@).skip(0) == views(rows@));
    while i < rows.len()
        invariant
            i <= rows.len(),
            views(rows@) == spec_nonblank(spec_lines(raw@)),
            spec_active_wifi_uuid_rows(views(rows@)) == spec_active_wifi_uuid_rows(
                views(rows@).skip(i as int),
            ),
        decreases rows.len() - i,
    {
        assert(views(rows@).skip(i as int).drop_first() == views(rows@).skip(i + 1));
        assert(views(rows@).skip(i as int)[0] == rows@[i as int]@);
        let f = split_terse_fields(&rows[i]);
        if f.len() >= 2 && vec_is(&f[1], "802-11-wireless") {
            return Some(string_of(&f[0]));
        }
        i += 1;
    }
    None
}

} // verus!
