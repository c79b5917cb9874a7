//! StatusNotifierItem bookkeeping: resolving a registration argument, the
//! registry of items keyed by service key, menu labels, icon pixmap choice,
//! the title precedence rule and the host's reconnect decisions.
use base64::Engine;
use vstd::prelude::*;

use crate::error::{DbusError, DomainError};
use crate::json::{field_i64, field_str, spec_field_i64, spec_field_str, JsonValue};
use crate::text::{
    chars_vec, concat, lemma_lex_lt_irreflexive, lemma_lex_lt_total, lemma_lex_lt_transitive,
    lex_lt, owned, spec_lex_lt, str_eq, string_of, string_views,
};

verus! {

/// The object path used when the registration argument is a bus name or empty.
pub open spec fn spec_default_object_path() -> Seq<char> {
    "/StatusNotifierItem"@
}

/// `(bus_name, object_path)` of a `RegisterStatusNotifierItem` argument: an
/// argument starting with `/` is the object path under the sender; an empty
/// argument is the default path under the sender; otherwise the argument is
/// the bus name and the path is the default one.
pub open spec fn spec_parse_service(argument: Seq<char>, sender: Seq<char>) -> (
    Seq<char>,
    Seq<char>,
) {
    if argument.len() > 0 && argument[0] == '/' {
        (sender, argument)
    } else if argument.len() == 0 {
        (sender, spec_default_object_path())
    } else {
        (argument, spec_default_object_path())
    }
}

/// Resolve a registration argument; always `Some` (the `Option` leaves room to
/// reject a future invalid form).
pub fn parse_service(argument: &str, sender: &str) -> (r: Option<(String, String)>)
    ensures
        r matches Some(t) && (t.0@, t.1@) == spec_parse_service(argument@, sender@),
{
    proof {
        reveal_strlit("/StatusNotifierItem");
    }
    let a = chars_vec(argument);
    if a.len() > 0 && a[0] == '/' {
        return Some((owned(sender), owned(argument)));
    }
    if a.len() == 0 {
        return Some((owned(sender), owned("/StatusNotifierItem")));
    }
    Some((owned(argument), owned("/StatusNotifierItem")))
}

/// One registered item: its service key and the pair it was registered with.
pub struct TrayEntry {
    service_key: String,
    bus_name: String,
    object_path: String,
}

impl View for TrayEntry {
    type V = (Seq<char>, Seq<char>, Seq<char>);

    closed spec fn view(&self) -> (Seq<char>, Seq<char>, Seq<char>) {
        (self.service_key@, self.bus_name@, self.object_path@)
    }
}

fn copy_entry(e: &TrayEntry) -> (r: TrayEntry)
    ensures
        r@ == e@,
{
    TrayEntry {
        service_key: e.service_key.clone(),
        bus_name: e.bus_name.clone(),
        object_path: e.object_path.clone(),
    }
}

pub open spec fn entry_views(s: Seq<TrayEntry>) -> Seq<(Seq<char>, Seq<char>, Seq<char>)> {
    s.map_values(|e: TrayEntry| e@)
}

/// Service keys strictly increasing along the sequence.
pub open spec fn spec_keys_sorted(s: Seq<(Seq<char>, Seq<char>, Seq<char>)>) -> bool {
    forall|i: int, j: int| 0 <= i < j < s.len() ==> spec_lex_lt(#[trigger] s[i].0, #[trigger] s[j].0)
}

/// Every service key is its bus name followed by its object path.
pub open spec fn spec_keys_match(s: Seq<(Seq<char>, Seq<char>, Seq<char>)>) -> bool {
    forall|i: int| 0 <= i < s.len() ==> #[trigger] s[i].0 == s[i].1 + s[i].2
}

pub open spec fn spec_has_key(s: Seq<(Seq<char>, Seq<char>, Seq<char>)>, key: Seq<char>) -> bool {
    exists|i: int| 0 <= i < s.len() && #[trigger] s[i].0 == key
}

/// The items registered under `bus`, in key order.
pub open spec fn spec_under_bus(s: Seq<(Seq<char>, Seq<char>, Seq<char>)>, bus: Seq<char>) -> Seq<
    (Seq<char>, Seq<char>, Seq<char>),
> {
    s.filter(|e: (Seq<char>, Seq<char>, Seq<char>)| e.1 == bus)
}

/// The items registered under any other bus, in key order.
pub open spec fn spec_not_under_bus(s: Seq<(Seq<char>, Seq<char>, Seq<char>)>, bus: Seq<char>) -> Seq<
    (Seq<char>, Seq<char>, Seq<char>),
> {
    s.filter(|e: (Seq<char>, Seq<char>, Seq<char>)| e.1 != bus)
}

pub open spec fn spec_keys_of(s: Seq<(Seq<char>, Seq<char>, Seq<char>)>) -> Seq<Seq<char>> {
    s.map_values(|e: (Seq<char>, Seq<char>, Seq<char>)| e.0)
}

/// What inserting `(bus, path)` did: it succeeded exactly when the key
/// `bus + path` was absent, in which case the entry went in at some position;
/// otherwise nothing changed. Either way the key is present afterwards.
pub open spec fn spec_inserted(
    old: Seq<(Seq<char>, Seq<char>, Seq<char>)>,
    new: Seq<(Seq<char>, Seq<char>, Seq<char>)>,
    bus: Seq<char>,
    path: Seq<char>,
    r: bool,
) -> bool {
    &&& r == !spec_has_key(old, bus + path)
    &&& spec_has_key(new, bus + path)
    &&& !r ==> new == old
    &&& r ==> exists|p: int| 0 <= p <= old.len() && new == old.insert(p, (bus + path, bus, path))
}

/// Registering the same item twice: the second insert is refused and changes
/// nothing.
pub proof fn law_insert_twice_is_refused(
    s0: Seq<(Seq<char>, Seq<char>, Seq<char>)>,
    s1: Seq<(Seq<char>, Seq<char>, Seq<char>)>,
    s2: Seq<(Seq<char>, Seq<char>, Seq<char>)>,
    bus: Seq<char>,
    path: Seq<char>,
    r1: bool,
    r2: bool,
)
    requires
        spec_inserted(s0, s1, bus, path, r1),
        spec_inserted(s1, s2, bus, path, r2),
    ensures
        !r2,
        s2 == s1,
{
}

/// Inserting keeps the registry a set of keys: afterwards the keys are the
/// old ones plus `bus + path`, and the insert reports success exactly when
/// that key was new. (With `insert`'s well-formedness the keys also stay in
/// increasing order, so the registry is the sorted set of its keys.)
pub proof fn law_insert_adds_key_to_set(
    s0: Seq<(Seq<char>, Seq<char>, Seq<char>)>,
    s1: Seq<(Seq<char>, Seq<char>, Seq<char>)>,
    bus: Seq<char>,
    path: Seq<char>,
    r: bool,
)
    requires
        spec_inserted(s0, s1, bus, path, r),
    ensures
        r == !spec_keys_of(s0).contains(bus + path),
        spec_keys_of(s1).to_set() == spec_keys_of(s0).to_set().insert(bus + path),
{
    let k = bus + path;
    let k0 = spec_keys_of(s0);
    let k1 = spec_keys_of(s1);
    assert(spec_has_key(s0, k) <==> k0.contains(k)) by {
        if spec_has_key(s0, k) {
            let i = choose|i: int| 0 <= i < s0.len() && #[trigger] s0[i].0 == k;
            assert(k0[i] == k);
        }
        if k0.contains(k) {
            let i = choose|i: int| 0 <= i < k0.len() && k0[i] == k;
            assert(s0[i].0 == k);
        }
    }
    if r {
        let p = choose|p: int| 0 <= p <= s0.len() && s1 == s0.insert(p, (k, bus, path));
        assert(k1 =~= k0.insert(p, k));
        assert forall|x: Seq<char>| k1.contains(x) <==> (k0.contains(x) || x == k) by {
            if k1.contains(x) {
                let i = choose|i: int| 0 <= i < k1.len() && k1[i] == x;
                if i < p {
                    assert(k0[i] == x);
                } else if i > p {
                    assert(k0[i - 1] == x);
                }
            }
            if k0.contains(x) {
                let i = choose|i: int| 0 <= i < k0.len() && k0[i] == x;
                if i < p {
                    assert(k1[i] == x);
                } else {
                    assert(k1[i + 1] == x);
                }
            }
            if x == k {
                assert(k1[p] == x);
            }
        }
    } else {
        assert(k1 == k0);
    }
    assert(k1.to_set() =~= k0.to_set().insert(k));
}

/// The service keys of a well-formed registry come out strictly increasing.
pub proof fn law_service_keys_sorted(s: Seq<(Seq<char>, Seq<char>, Seq<char>)>)
    requires
        spec_keys_sorted(s),
    ensures
        forall|i: int, j: int|
            0 <= i < j < spec_keys_of(s).len() ==> spec_lex_lt(
                #[trigger] spec_keys_of(s)[i],
                #[trigger] spec_keys_of(s)[j],
            ),
{
    assert forall|i: int, j: int| 0 <= i < j < spec_keys_of(s).len() implies spec_lex_lt(
        #[trigger] spec_keys_of(s)[i],
        #[trigger] spec_keys_of(s)[j],
    ) by {
        assert(spec_lex_lt(s[i].0, s[j].0));
    }
}

/// Removing a bus that has no items removes nothing and keeps every item.
pub proof fn law_remove_absent_bus_is_noop(s: Seq<(Seq<char>, Seq<char>, Seq<char>)>, bus: Seq<char>)
    requires
        forall|i: int| 0 <= i < s.len() ==> (#[trigger] s[i]).1 != bus,
    ensures
        spec_not_under_bus(s, bus) == s,
        spec_under_bus(s, bus).len() == 0,
    decreases s.len(),
{
    reveal(Seq::filter);
    if s.len() > 0 {
        assert forall|i: int| 0 <= i < s.drop_last().len() implies (
        #[trigger] s.drop_last()[i]).1 != bus by {
            assert(s.drop_last()[i] == s[i]);
        }
        law_remove_absent_bus_is_noop(s.drop_last(), bus);
        assert(s.last() == s[s.len() - 1]);
        assert(s.drop_last().push(s.last()) =~= s);
    }
}

/// The registered items, keyed by service key (`bus_name + object_path`) and
/// kept in key order.
pub struct ItemRegistry {
    items: Vec<TrayEntry>,
}

impl View for ItemRegistry {
    type V = Seq<(Seq<char>, Seq<char>, Seq<char>)>;

    closed spec fn view(&self) -> Seq<(Seq<char>, Seq<char>, Seq<char>)> {
        entry_views(self.items@)
    }
}

impl ItemRegistry {
    /// Keys sorted and unique, each the concatenation of its pair.
    pub open spec fn wf(&self) -> bool {
        spec_keys_sorted(self@) && spec_keys_match(self@)
    }

    /// An empty registry.
    pub fn new() -> (r: ItemRegistry)
        ensures
            r.wf(),
            r@.len() == 0,
    {
        let r = ItemRegistry { items: Vec::new() };
        assert(r@ =~= Seq::<(Seq<char>, Seq<char>, Seq<char>)>::empty());
        r
    }

    /// Insert `(bus_name, object_path)` under the key `bus_name + object_path`.
    /// Returns `false`, changing nothing, when that key is already present;
    /// otherwise the entry is placed at its position in key order.
    pub fn insert(&mut self, bus_name: &str, object_path: &str) -> (r: bool)
        requires
            old(self).wf(),
        ensures
            final(self).wf(),
            spec_inserted(old(self)@, final(self)@, bus_name@, object_path@, r),
    {
        let key_s = concat(bus_name, object_path);
        let key = chars_vec(key_s.as_str());
        let ghost s = self@;
        let mut i: usize = 0;
        while i < self.items.len() && lex_lt(&chars_vec(self.items[i].service_key.as_str()), &key)
            invariant
                i <= self.items.len(),
                self@ == s,
                s == entry_views(self.items@),
                key@ == bus_name@ + object_path@,
                forall|j: int| 0 <= j < i ==> spec_lex_lt(#[trigger] s[j].0, key@),
            decreases self.items.len() - i,
        {
            assert(s[i as int] == self.items@[i as int]@);
            i += 1;
        }
        proof {
            assert forall|j: int| 0 <= j < i implies #[trigger] s[j].0 != key@ by {
                lemma_lex_lt_irreflexive(key@);
            }
        }
        if i < self.items.len() && str_eq(self.items[i].service_key.as_str(), key_s.as_str()) {
            assert(s[i as int] == self.items@[i as int]@);
            assert(s[i as int].0 == key@);
            return false;
        }
        proof {
            if i < s.len() {
                assert(s[i as int] == self.items@[i as int]@);
                lemma_lex_lt_total(s[i as int].0, key@);
                assert(spec_lex_lt(key@, s[i as int].0));
                assert forall|j: int| i < j < s.len() implies spec_lex_lt(key@, #[trigger] s[j].0) by {
                    assert(spec_lex_lt(s[i as int].0, s[j].0));
                    lemma_lex_lt_transitive(key@, s[i as int].0, s[j].0);
                }
                assert forall|j: int| i <= j < s.len() implies #[trigger] s[j].0 != key@ by {
                    lemma_lex_lt_irreflexive(key@);
                }
            }
            assert(!spec_has_key(s, key@));
        }
        let entry = TrayEntry {
            service_key: key_s,
            bus_name: owned(bus_name),
            object_path: owned(object_path),
        };
        let ghost e = entry@;
        self.items.insert(i, entry);
        proof {
            let t = self@;
            assert(t =~= s.insert(i as int, e));
            assert forall|a: int, b: int| 0 <= a < b < t.len() implies spec_lex_lt(
                #[trigger] t[a].0,
                #[trigger] t[b].0,
            ) by {
                if b < i {
                } else if b == i {
                } else if a < i {
                    assert(t[b] == s[b - 1]);
                    if i < s.len() {
                        lemma_lex_lt_total(s[i as int].0, key@);
                        if b - 1 > i {
                            lemma_lex_lt_transitive(s[a].0, key@, s[i as int].0);
                            lemma_lex_lt_transitive(s[a].0, s[i as int].0, s[b - 1].0);
                        } else {
                            lemma_lex_lt_transitive(s[a].0, key@, s[i as int].0);
                        }
                    }
                } else if a == i {
                    assert(t[b] == s[b - 1]);
                    lemma_lex_lt_total(s[i as int].0, key@);
                    if b - 1 > i {
                        lemma_lex_lt_transitive(key@, s[i as int].0, s[b - 1].0);
                    }
                } else {
                    assert(t[a] == s[a - 1]);
                    assert(t[b] == s[b - 1]);
                }
            }
            assert forall|a: int| 0 <= a < t.len() implies #[trigger] t[a].0 == t[a].1 + t[a].2 by {
                if a < i {
                } else if a == i {
                } else {
                    assert(t[a] == s[a - 1]);
                }
            }
            assert(t[i as int].0 == key@);
        }
        true
    }

    /// Remove every item registered under `bus_name`; returns their service
    /// keys in key order. The other items stay, in order.
    pub fn remove_by_bus_name(&mut self, bus_name: &str) -> (r: Vec<String>)
        requires
            old(self).wf(),
        ensures
            final(self).wf(),
            final(self)@ == spec_not_under_bus(old(self)@, bus_name@),
            forall|i: int| 0 <= i < final(self)@.len() ==> #[trigger] final(self)@[i].1 != bus_name@,
            string_views(r@) == spec_keys_of(spec_under_bus(old(self)@, bus_name@)),
    {
        let ghost s = self@;
        let ghost keep = |e: (Seq<char>, Seq<char>, Seq<char>)| e.1 != bus_name@;
        let ghost drop = |e: (Seq<char>, Seq<char>, Seq<char>)| e.1 == bus_name@;
        let mut kept: Vec<TrayEntry> = Vec::new();
        let mut removed: Vec<String> = Vec::new();
        let mut i: usize = 0;
        proof {
            reveal(Seq::filter);
            assert(s.take(0) =~= Seq::<(Seq<char>, Seq<char>, Seq<char>)>::empty());
            assert(entry_views(kept@) =~= s.take(0).filter(keep));
            assert(string_views(removed@) =~= spec_keys_of(s.take(0).filter(drop)));
        }
        while i < self.items.len()
            invariant
                i <= self.items.len(),
                self@ == s,
                s == entry_views(self.items@),
                spec_keys_sorted(s),
                spec_keys_match(s),
                keep == (|e: (Seq<char>, Seq<char>, Seq<char>)| e.1 != bus_name@),
                drop == (|e: (Seq<char>, Seq<char>, Seq<char>)| e.1 == bus_name@),
                entry_views(kept@) == s.take(i as int).filter(keep),
                string_views(removed@) == spec_keys_of(s.take(i as int).filter(drop)),
                spec_keys_sorted(entry_views(kept@)),
                spec_keys_match(entry_views(kept@)),
                forall|k: int, m: int|
                    0 <= k < kept@.len() && i <= m < s.len() ==> spec_lex_lt(
                        #[trigger] entry_views(kept@)[k].0,
                        #[trigger] s[m].0,
                    ),
            decreases self.items.len() - i,
        {
            let ghost kv0 = entry_views(kept@);
            let ghost rv0 = string_views(removed@);
            assert(s[i as int] == self.items@[i as int]@);
            proof {
                reveal(Seq::filter);
                assert(s.take(i + 1).drop_last() =~= s.take(i as int));
                assert(s.take(i + 1).last() == s[i as int]);
            }
            if str_eq(self.items[i].bus_name.as_str(), bus_name) {
                let k = self.items[i].service_key.clone();
                removed.push(k);
                proof {
                    assert(string_views(removed@) =~= rv0.push(s[i as int].0));
                    assert(s.take(i + 1).filter(drop) == s.take(i as int).filter(drop).push(
                        s[i as int],
                    ));
                    assert(spec_keys_of(s.take(i + 1).filter(drop)) =~= spec_keys_of(
                        s.take(i as int).filter(drop),
                    ).push(s[i as int].0));
                    assert(s.take(i + 1).filter(keep) == s.take(i as int).filter(keep));
                }
            } else {
                let c = copy_entry(&self.items[i]);
                kept.push(c);
                proof {
                    let kv = entry_views(kept@);
                    assert(kv =~= kv0.push(s[i as int]));
                    assert(s.take(i + 1).filter(keep) == s.take(i as int).filter(keep).push(
                        s[i as int],
                    ));
                    assert(s.take(i + 1).filter(drop) == s.take(i as int).filter(drop));
                    assert forall|a: int, b: int| 0 <= a < b < kv.len() implies spec_lex_lt(
                        #[trigger] kv[a].0,
                        #[trigger] kv[b].0,
                    ) by {
                        if b == kv.len() - 1 {
                            assert(kv[a] == kv0[a]);
                            assert(spec_lex_lt(kv0[a].0, s[i as int].0));
                        } else {
                            assert(kv[a] == kv0[a]);
                            assert(kv[b] == kv0[b]);
                        }
                    }
                    assert forall|a: int| 0 <= a < kv.len() implies #[trigger] kv[a].0 == kv[a].1
                        + kv[a].2 by {
                        if a < kv.len() - 1 {
                            assert(kv[a] == kv0[a]);
                        }
                    }
                    assert forall|a: int, m: int|
                        0 <= a < kv.len() && i + 1 <= m < s.len() implies spec_lex_lt(
                        #[trigger] kv[a].0,
                        #[trigger] s[m].0,
                    ) by {
                        if a == kv.len() - 1 {
                            assert(spec_lex_lt(s[i as int].0, s[m].0));
                        } else {
                            assert(kv[a] == kv0[a]);
                        }
                    }
                }
            }
            i += 1;
        }
        proof {
            assert(s.take(i as int) =~= s);
            let kv = entry_views(kept@);
            assert forall|a: int| 0 <= a < kv.len() implies #[trigger] kv[a].1 != bus_name@ by {
                s.filter_lemma(keep);
            }
        }
        self.items = kept;
        removed
    }

    /// All service keys, in key order.
    pub fn service_keys(&self) -> (r: Vec<String>)
        ensures
            string_views(r@) == spec_keys_of(self@),
    {
        let mut out: Vec<String> = Vec::new();
        let mut i: usize = 0;
        while i < self.items.len()
            invariant
                i <= self.items.len(),
                string_views(out@) =~= spec_keys_of(self@).take(i as int),
            decreases self.items.len() - i,
        {
            let ghost prev = string_views(out@);
            out.push(self.items[i].service_key.clone());
            assert(self@[i as int] == self.items@[i as int]@);
            assert(string_views(out@) =~= prev.push(self@[i as int].0));
            assert(spec_keys_of(self@).take(i + 1) =~= spec_keys_of(self@).take(i as int).push(
                self@[i as int].0,
            ));
            i += 1;
        }
        assert(spec_keys_of(self@).take(i as int) =~= spec_keys_of(self@));
        out
    }
}


// ---------------------------------------------------------------------------
// Menu labels, icon pixmaps, titles.
// ---------------------------------------------------------------------------

/// A dbusmenu label without accelerator markers: an underscore marks the next
/// character and is dropped (so a doubled underscore leaves one), and a
/// trailing lone underscore is dropped.
pub open spec fn spec_strip_accelerators(s: Seq<char>) -> Seq<char>
    decreases s.len(),
{
    if s.len() == 0 {
        Seq::empty()
    } else if s[0] == '_' {
        if s.len() == 1 {
            Seq::empty()
        } else {
            seq![s[1]] + spec_strip_accelerators(s.skip(2))
        }
    } else {
        seq![s[0]] + spec_strip_accelerators(s.skip(1))
    }
}

/// The label with every underscore doubled (how a literal underscore is
/// written in a dbusmenu label).
pub open spec fn spec_double_underscores(s: Seq<char>) -> Seq<char>
    decreases s.len(),
{
    if s.len() == 0 {
        Seq::empty()
    } else if s[0] == '_' {
        seq!['_', '_'] + spec_double_underscores(s.skip(1))
    } else {
        seq![s[0]] + spec_double_underscores(s.skip(1))
    }
}

/// Stripping markers undoes doubling the underscores, and leaves a label
/// without underscores as it is.
pub proof fn law_strip_undoes_doubled_underscores(s: Seq<char>)
    ensures
        spec_strip_accelerators(spec_double_underscores(s)) == s,
        !s.contains('_') ==> spec_strip_accelerators(s) == s,
    decreases s.len(),
{
    if s.len() > 0 {
        law_strip_undoes_doubled_underscores(s.skip(1));
        let d = spec_double_underscores(s);
        let rest = spec_double_underscores(s.skip(1));
        if s[0] == '_' {
            assert(d.skip(2) =~= rest);
            assert(d[1] == '_');
        } else {
            assert(d.skip(1) =~= rest);
            if !s.contains('_') {
                assert forall|i: int| 0 <= i < s.skip(1).len() implies s.skip(1)[i] != '_' by {
                    assert(s.skip(1)[i] == s[i + 1]);
                }
                assert(!s.skip(1).contains('_'));
            }
        }
        assert(seq![s[0]] + s.skip(1) =~= s);
    }
}

pub fn strip_accelerator_markers(label: &str) -> (r: String)
    ensures
        r@ == spec_strip_accelerators(label@),
{
    let v = chars_vec(label);
    let mut out: Vec<char> = Vec::new();
    let mut i: usize = 0;
    assert(v@.skip(0) =~= v@);
    while i < v.len()
        invariant
            i <= v.len(),
            out@ + spec_strip_accelerators(v@.skip(i as int)) == spec_strip_accelerators(v@),
        decreases v.len() - i,
    {
        let ghost rest = v@.skip(i as int);
        assert(rest[0] == v@[i as int]);
        if v[i] == '_' {
            if i + 1 < v.len() {
                assert(rest[1] == v@[i + 1]);
                assert(rest.skip(2) =~= v@.skip(i + 2));
                out.push(v[i + 1]);
                assert(out@ + spec_strip_accelerators(v@.skip(i + 2)) =~= out@.drop_last() + (seq![
                    v@[i + 1],
                ] + spec_strip_accelerators(v@.skip(i + 2))));
                i += 2;
            } else {
                assert(v@.skip(i + 1).len() == 0);
                assert(out@ + spec_strip_accelerators(v@.skip(i + 1)) =~= out@);
                i += 1;
            }
        } else {
            assert(rest.skip(1) =~= v@.skip(i + 1));
            out.push(v[i]);
            assert(out@ + spec_strip_accelerators(v@.skip(i + 1)) =~= out@.drop_last() + (seq![
                v@[i as int],
            ] + spec_strip_accelerators(v@.skip(i + 1))));
            i += 1;
        }
    }
    assert(out@ + spec_strip_accelerators(v@.skip(i as int)) =~= out@);
    string_of(&out)
}

/// Strictly positive dimensions and exactly `width * height * 4` bytes.
pub open spec fn spec_has_expected_length(width: i32, height: i32, byte_length: nat) -> bool {
    width > 0 && height > 0 && width * height * 4 == byte_length
}

/// Whether `byte_length` is `width * height * 4` for strictly positive
/// dimensions (computed without overflow).
pub fn has_expected_length(width: i32, height: i32, byte_length: usize) -> (r: bool)
    ensures
        r == spec_has_expected_length(width, height, byte_length as nat),
{
    if width <= 0 || height <= 0 {
        return false;
    }
    let w: u64 = width as u64;
    let h: u64 = height as u64;
    assert(w * h <= 0x3fff_ffff_ffff_ffff) by (nonlinear_arith)
        requires
            w < 0x8000_0000,
            h < 0x8000_0000,
    ;
    let expected: u64 = w * h * 4;
    expected == byte_length as u64
}

pub open spec fn pixmap_valid(p: (i32, i32, Vec<u8>)) -> bool {
    spec_has_expected_length(p.0, p.1, p.2@.len())
}

/// Some valid candidate is at most 64 pixels wide.
pub open spec fn spec_some_small(s: Seq<(i32, i32, Vec<u8>)>) -> bool {
    exists|j: int| 0 <= j < s.len() && pixmap_valid(#[trigger] s[j]) && s[j].0 <= 64
}

/// `k` is the widest valid candidate of at most 64 pixels, the last one among
/// equally wide ones.
pub open spec fn spec_best_small(s: Seq<(i32, i32, Vec<u8>)>, k: int) -> bool {
    &&& 0 <= k < s.len()
    &&& pixmap_valid(s[k])
    &&& s[k].0 <= 64
    &&& forall|j: int|
        0 <= j < s.len() && pixmap_valid(#[trigger] s[j]) && s[j].0 <= 64 ==> s[j].0 <= s[k].0 && (
        j > k ==> s[j].0 < s[k].0)
}

/// `k` is the narrowest valid candidate, the first one among equally narrow ones.
pub open spec fn spec_best_any(s: Seq<(i32, i32, Vec<u8>)>, k: int) -> bool {
    &&& 0 <= k < s.len()
    &&& pixmap_valid(s[k])
    &&& forall|j: int|
        0 <= j < s.len() && pixmap_valid(#[trigger] s[j]) ==> s[j].0 >= s[k].0 && (j < k ==> s[j].0
            > s[k].0)
}

/// Choose the icon pixmap: the widest valid one of at most 64 pixels (the last
/// of equally wide ones); failing that, the narrowest valid one (the first of
/// equally narrow ones); `None` when no candidate is valid.
pub fn best_pixmap(pixmaps: &[(i32, i32, Vec<u8>)]) -> (r: Option<&(i32, i32, Vec<u8>)>)
    ensures
        match r {
            Some(p) => exists|k: int|
                #![trigger pixmaps@[k]]
                *p == pixmaps@[k] && if spec_some_small(pixmaps@) {
                    spec_best_small(pixmaps@, k)
                } else {
                    spec_best_any(pixmaps@, k)
                },
            None => forall|j: int| 0 <= j < pixmaps@.len() ==> !pixmap_valid(#[trigger] pixmaps@[j]),
        },
{
    let mut small: Option<usize> = None;
    let mut any: Option<usize> = None;
    let mut i: usize = 0;
    while i < pixmaps.len()
        invariant
            i <= pixmaps@.len(),
            match small {
                Some(k) => spec_best_small(pixmaps@.take(i as int), k as int),
                None => !spec_some_small(pixmaps@.take(i as int)),
            },
            match any {
                Some(k) => spec_best_any(pixmaps@.take(i as int), k as int),
                None => forall|j: int| 0 <= j < i ==> !pixmap_valid(#[trigger] pixmaps@[j]),
            },
        decreases pixmaps@.len() - i,
    {
        let ghost t = pixmaps@.take(i + 1);
        assert(forall|j: int| 0 <= j < i ==> pixmaps@.take(i as int)[j] == #[trigger] t[j]);
        assert(t[i as int] == pixmaps@[i as int]);
        let w = pixmaps[i].0;
        let ok = has_expected_length(pixmaps[i].0, pixmaps[i].1, pixmaps[i].2.len());
        if ok {
            if w <= 64 {
                match small {
                    Some(k) => {
                        if w >= pixmaps[k].0 {
                            small = Some(i);
                        }
                    },
                    None => {
                        small = Some(i);
                    },
                }
            }
            match any {
                Some(k) => {
                    if w < pixmaps[k].0 {
                        any = Some(i);
                    }
                },
                None => {
                    any = Some(i);
                },
            }
        }
        proof {
            let u = pixmaps@.take(i as int);
            match small {
                Some(k) => {
                    assert(spec_best_small(t, k as int));
                },
                None => {
                    assert forall|j: int| 0 <= j < t.len() && pixmap_valid(#[trigger] t[j]) implies t[j].0 > 64 by {
                        if j < i {
                            assert(u[j] == t[j]);
                        }
                    }
                },
            }
            match any {
                Some(k) => {
                    assert(spec_best_any(t, k as int));
                },
                None => {},
            }
        }
        i += 1;
    }
    assert(pixmaps@.take(i as int) =~= pixmaps@);
    match small {
        Some(k) => Some(&pixmaps[k]),
        None => match any {
            Some(k) => Some(&pixmaps[k]),
            None => None,
        },
    }
}

/// The title shown for an item: the tooltip title, else the title, else the id.
pub fn resolve_display_title(tooltip_title: &str, title: &str, id: &str) -> (r: String)
    ensures
        r@ == if tooltip_title@.len() > 0 {
            tooltip_title@
        } else if title@.len() > 0 {
            title@
        } else {
            id@
        },
{
    if !tooltip_title.is_empty() {
        owned(tooltip_title)
    } else if !title.is_empty() {
        owned(title)
    } else {
        owned(id)
    }
}

// ---------------------------------------------------------------------------
// Host reconnect decisions.
// ---------------------------------------------------------------------------

/// How a run of the tray host ended without a transport error.
#[derive(Debug, Clone, Copy, PartialEq, Eq)]
pub enum HostExit {
    /// Another watcher owns the well-known name: stay dormant.
    Dormant,
    /// The bus connection closed.
    Disconnected,
}

/// Whether the reconnect loop stops for good or reconnects after a backoff.
#[derive(Debug, Clone, Copy, PartialEq, Eq)]
pub enum LoopAction {
    Stop,
    Retry,
}

/// Only a dormant exit stops the loop; a disconnect or an error is retried.
pub fn next_loop_action(result: &Result<HostExit, DbusError>) -> (r: LoopAction)
    ensures
        r == (if *result == Ok::<HostExit, DbusError>(HostExit::Dormant) {
            LoopAction::Stop
        } else {
            LoopAction::Retry
        }),
{
    match result {
        Ok(HostExit::Dormant) => LoopAction::Stop,
        Ok(HostExit::Disconnected) => LoopAction::Retry,
        Err(_) => LoopAction::Retry,
    }
}

/// The next reconnect delay: double the current one, at most 30 seconds.
pub fn next_backoff_secs(current: u64) -> (r: u64)
    requires
        current * 2 <= u64::MAX,
    ensures
        r == if current * 2 < 30 { current * 2 } else { 30 },
{
    let doubled = current * 2;
    if doubled < 30 {
        doubled
    } else {
        30
    }
}

// ---------------------------------------------------------------------------
// Icons as data URIs.
// ---------------------------------------------------------------------------

/// The RGBA bytes of big-endian ARGB pixels (a trailing partial pixel is
/// dropped).
pub open spec fn spec_argb_to_rgba(s: Seq<u8>) -> Seq<u8>
    decreases s.len(),
{
    if s.len() < 4 {
        Seq::empty()
    } else {
        seq![s[1], s[2], s[3], s[0]] + spec_argb_to_rgba(s.skip(4))
    }
}

/// Reordering keeps every whole pixel: four bytes per pixel.
pub proof fn lemma_argb_to_rgba_len(s: Seq<u8>)
    ensures
        spec_argb_to_rgba(s).len() == s.len() - s.len() % 4,
    decreases s.len(),
{
    if s.len() >= 4 {
        lemma_argb_to_rgba_len(s.skip(4));
    }
}

/// Reorder big-endian ARGB pixels to RGBA.
pub fn argb_to_rgba(argb: &[u8]) -> (r: Vec<u8>)
    ensures
        r@ == spec_argb_to_rgba(argb@),
{
    let mut out: Vec<u8> = Vec::new();
    let mut i: usize = 0;
    assert(argb@.skip(0) =~= argb@);
    assert(out@ + spec_argb_to_rgba(argb@) =~= spec_argb_to_rgba(argb@));
    while 4 <= argb.len() - i
        invariant
            i <= argb@.len(),
            out@ + spec_argb_to_rgba(argb@.skip(i as int)) == spec_argb_to_rgba(argb@),
        decreases argb@.len() - i,
    {
        let ghost t = argb@.skip(i as int);
        assert(t.skip(4) =~= argb@.skip(i + 4));
        let ghost before = out@;
        out.push(argb[i + 1]);
        out.push(argb[i + 2]);
        out.push(argb[i + 3]);
        out.push(argb[i]);
        assert(out@ =~= before + seq![t[1], t[2], t[3], t[0]]);
        assert(out@ + spec_argb_to_rgba(argb@.skip(i + 4)) =~= before + spec_argb_to_rgba(t));
        i += 4;
    }
    assert(spec_argb_to_rgba(argb@.skip(i as int)) =~= Seq::<u8>::empty());
    assert(out@ + Seq::<u8>::empty() =~= out@);
    out
}

/// The PNG file the `png` crate writes for an 8-bit RGBA image of this size
/// and these pixel bytes (`None` when it refuses them).
pub uninterp spec fn spec_png_rgba8(width: u32, height: u32, rgba: Seq<u8>) -> Option<Seq<u8>>;

/// `png::Encoder` with 8-bit RGBA colour: header, image data, finish. The
/// bytes written depend on the size and pixels alone; any encoder error is
/// `None`. The pixel bytes must be exactly `width * height * 4`: the encoder
/// multiplies row length by height without checking for overflow.
#[verifier::external_body]
fn encode_png(width: u32, height: u32, rgba: &[u8]) -> (r: Option<Vec<u8>>)
    requires
        rgba@.len() == width as int * height as int * 4,
    ensures
        match r {
            Some(b) => spec_png_rgba8(width, height, rgba@) == Some(b@),
            None => spec_png_rgba8(width, height, rgba@) is None,
        },
{
    let mut png_bytes = Vec::new();
    let mut encoder = png::Encoder::new(&mut png_bytes, width, height);
    encoder.set_color(png::ColorType::Rgba);
    encoder.set_depth(png::BitDepth::Eight);
    let mut writer = encoder.write_header().ok()?;
    writer.write_image_data(rgba).ok()?;
    writer.finish().ok()?;
    Some(png_bytes)
}

/// What the standard (padded) base64 engine of the `base64` crate encodes
/// `bytes` to.
pub uninterp spec fn spec_base64_standard(bytes: Seq<u8>) -> Seq<char>;

/// `base64::engine::general_purpose::STANDARD.encode(bytes)`.
#[verifier::external_body]
pub(crate) fn base64_standard(bytes: &[u8]) -> (r: String)
    ensures
        r@ == spec_base64_standard(bytes@),
{
    base64::engine::general_purpose::STANDARD.encode(bytes)
}

/// `data:<mime>;base64,<payload>`.
pub fn data_uri(mime: &str, payload: &str) -> (r: String)
    ensures
        r@ == "data:"@ + mime@ + ";base64,"@ + payload@,
{
    concat(concat(concat("data:", mime).as_str(), ";base64,").as_str(), payload)
}

/// The MIME type of an icon file found under a theme path: SVG for `svg`,
/// PNG otherwise.
pub fn icon_file_mime(extension: &str) -> (r: &'static str)
    ensures
        r@ == if extension@ == "svg"@ { "image/svg+xml"@ } else { "image/png"@ },
{
    if str_eq(extension, "svg") {
        "image/svg+xml"
    } else {
        "image/png"
    }
}

/// An icon file's bytes as a data URI.
pub fn file_data_uri(extension: &str, bytes: &[u8]) -> (r: String)
    ensures
        r@ == "data:"@ + (if extension@ == "svg"@ { "image/svg+xml"@ } else { "image/png"@ }) + ";base64,"@
            + spec_base64_standard(bytes@),
{
    let payload = base64_standard(bytes);
    data_uri(icon_file_mime(extension), payload.as_str())
}

/// A tray pixmap (big-endian ARGB, `width * height * 4` bytes) as a PNG data
/// URI; `None` for a pixmap of the wrong length or one the encoder refuses.
pub fn pixmap_to_data_uri(width: i32, height: i32, argb_big_endian: &[u8]) -> (r: Option<String>)
    ensures
        if !spec_has_expected_length(width, height, argb_big_endian@.len()) {
            r is None
        } else {
            match spec_png_rgba8(width as u32, height as u32, spec_argb_to_rgba(argb_big_endian@)) {
                None => r is None,
                Some(png) => r is Some && r->0@ == "data:image/png;base64,"@ + spec_base64_standard(png),
            }
        },
{
    if !has_expected_length(width, height, argb_big_endian.len()) {
        return None;
    }
    let rgba = argb_to_rgba(argb_big_endian);
    proof {
        lemma_argb_to_rgba_len(argb_big_endian@);
        assert(argb_big_endian@.len() % 4 == 0) by (nonlinear_arith)
            requires
                argb_big_endian@.len() == width * height * 4,
        ;
    }
    let png_bytes = match encode_png(width as u32, height as u32, rgba.as_slice()) {
        Some(b) => b,
        None => return None,
    };
    let payload = base64_standard(png_bytes.as_slice());
    proof {
        reveal_strlit("data:image/png;base64,");
        reveal_strlit("data:");
        reveal_strlit("image/png");
        reveal_strlit(";base64,");
        assert("data:"@ + "image/png"@ + ";base64,"@ =~= "data:image/png;base64,"@);
    }
    Some(data_uri("image/png", payload.as_str()))
}

// ---------------------------------------------------------------------------
// Tray actions.
// ---------------------------------------------------------------------------

/// A `system_tray` custom action.
#[derive(Debug)]
pub enum TrayCommand {
    /// Activate the item (its primary click).
    Activate { service: String },
    /// Click the menu entry `item_id` of the item's menu.
    MenuSelect { service: String, item_id: i32 },
    /// The menu is about to open; refresh it when the item asks.
    AboutToShow { service: String },
}

/// A required string member, else `missing system tray field: <field>`.
fn require_str(payload: &JsonValue, field: &str) -> (r: Result<String, DomainError>)
    ensures
        match spec_field_str(*payload, field@) {
            Some(s) => r is Ok && r->Ok_0@ == s,
            None => r is Err && r->Err_0 is ActionFailed && r->Err_0->reason@ == "missing system tray field: "@ + field@,
        },
{
    match field_str(payload, field) {
        Some(s) => Ok(s),
        None => Err(DomainError::ActionFailed { reason: concat("missing system tray field: ", field) }),
    }
}

/// A signed integer member that fits `i32`.
pub open spec fn spec_field_i32(payload: JsonValue, field: Seq<char>) -> Option<i32> {
    match spec_field_i64(payload, field) {
        Some(v) => if i32::MIN <= v <= i32::MAX { Some(v as i32) } else { None },
        None => None,
    }
}

/// A required `i32` member, else `missing or invalid system tray field: <field>`.
fn require_i32(payload: &JsonValue, field: &str) -> (r: Result<i32, DomainError>)
    ensures
        match spec_field_i32(*payload, field@) {
            Some(v) => r == Ok::<i32, DomainError>(v),
            None => r is Err && r->Err_0 is ActionFailed
                && r->Err_0->reason@ == "missing or invalid system tray field: "@ + field@,
        },
{
    match field_i64(payload, field) {
        Some(v) => if -2147483648 <= v && v <= 2147483647 {
            Ok(v as i32)
        } else {
            Err(DomainError::ActionFailed { reason: concat("missing or invalid system tray field: ", field) })
        },
        None => Err(DomainError::ActionFailed { reason: concat("missing or invalid system tray field: ", field) }),
    }
}

/// The tray command a `system_tray` payload names: `command` is
/// `activate` or `about_to_show` with a string `service`, or `menu_select`
/// with a `service` and an `i32` `item_id`. Every refusal is `ActionFailed`:
/// a missing member is named, an unknown command is quoted.
pub fn parse_tray_command(payload: &JsonValue) -> (r: Result<TrayCommand, DomainError>)
    ensures
        match spec_field_str(*payload, "command"@) {
            None => r is Err && r->Err_0 is ActionFailed && r->Err_0->reason@ == "missing system tray field: command"@,
            Some(c) => if c == "activate"@ || c == "about_to_show"@ || c == "menu_select"@ {
                match spec_field_str(*payload, "service"@) {
                    None => r is Err && r->Err_0 is ActionFailed && r->Err_0->reason@ == "missing system tray field: service"@,
                    Some(s) => if c == "activate"@ {
                        r matches Ok(TrayCommand::Activate { service }) && service@ == s
                    } else if c == "about_to_show"@ {
                        r matches Ok(TrayCommand::AboutToShow { service }) && service@ == s
                    } else {
                        match spec_field_i32(*payload, "item_id"@) {
                            Some(i) => r matches Ok(TrayCommand::MenuSelect { service, item_id }) && service@ == s && item_id == i,
                            None => r is Err && r->Err_0 is ActionFailed
                                && r->Err_0->reason@ == "missing or invalid system tray field: item_id"@,
                        }
                    },
                }
            } else {
                r is Err && r->Err_0 is ActionFailed && r->Err_0->reason@ == "unknown system tray command: "@ + c
            },
        },
{
    proof {
        reveal_strlit("missing system tray field: ");
        reveal_strlit("missing system tray field: command");
        reveal_strlit("missing system tray field: service");
        reveal_strlit("missing or invalid system tray field: ");
        reveal_strlit("missing or invalid system tray field: item_id");
        reveal_strlit("command");
        reveal_strlit("service");
        reveal_strlit("item_id");
        assert("missing system tray field: "@ + "command"@ =~= "missing system tray field: command"@);
        assert("missing system tray field: "@ + "service"@ =~= "missing system tray field: service"@);
        assert("missing or invalid system tray field: "@ + "item_id"@ =~= "missing or invalid system tray field: item_id"@);
    }
    let command = require_str(payload, "command")?;
    let c = command.as_str();
    if str_eq(c, "activate") {
        let service = require_str(payload, "service")?;
        Ok(TrayCommand::Activate { service })
    } else if str_eq(c, "about_to_show") {
        let service = require_str(payload, "service")?;
        Ok(TrayCommand::AboutToShow { service })
    } else if str_eq(c, "menu_select") {
        let service = require_str(payload, "service")?;
        let item_id = require_i32(payload, "item_id")?;
        Ok(TrayCommand::MenuSelect { service, item_id })
    } else {
        Err(DomainError::ActionFailed { reason: concat("unknown system tray command: ", c) })
    }
}

/// The error for a tray action naming a service the host does not know.
pub fn unknown_service(service: &str) -> (r: DomainError)
    ensures
        r is ActionFailed && r->reason@ == "unknown system tray service: "@ + service@,
{
    DomainError::ActionFailed { reason: concat("unknown system tray service: ", service) }
}

/// The menu object path of an item, or `system tray service <s> has no menu`.
pub fn require_menu_path(menu_path: Option<String>, service: &str) -> (r: Result<String, DomainError>)
    ensures
        match menu_path {
            Some(p) => r == Ok::<String, DomainError>(p),
            None => r is Err && r->Err_0 is ActionFailed
                && r->Err_0->reason@ == "system tray service "@ + service@ + " has no menu"@,
        },
{
    match menu_path {
        Some(p) => Ok(p),
        None => Err(DomainError::ActionFailed {
            reason: concat(concat("system tray service ", service).as_str(), " has no menu"),
        }),
    }
}

} // verus!
