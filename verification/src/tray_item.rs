//! A tray item read from its D-Bus properties, and the host's list of
//! mirrored items, kept in service-key order.
use vstd::prelude::*;

use crate::system_tray::resolve_display_title;
use crate::text::{
    chars_vec, lemma_lex_lt_irreflexive, lemma_lex_lt_total, lemma_lex_lt_transitive, lex_lt, owned,
    spec_lex_lt, str_eq, string_views,
};
use crate::tray_menu::{peel, spec_peel, DbusValue, SystemTrayMenuNode};

verus! {

// ---------------------------------------------------------------------------
// Reading properties.
// ---------------------------------------------------------------------------

/// The value of the first property named `key`.
pub open spec fn spec_item_property(props: Seq<(String, DbusValue)>, key: Seq<char>) -> Option<
    DbusValue,
>
    decreases props.len(),
{
    if props.len() == 0 {
        None
    } else if props[0].0@ == key {
        Some(props[0].1)
    } else {
        spec_item_property(props.drop_first(), key)
    }
}

fn item_property<'a>(props: &'a Vec<(String, DbusValue)>, key: &str) -> (r: Option<&'a DbusValue>)
    ensures
        match spec_item_property(props@, key@) {
            Some(v) => r is Some && *r->0 == v,
            None => r is None,
        },
{
    let mut i: usize = 0;
    assert(props@.skip(0) =~= props@);
    while i < props.len()
        invariant
            i <= props@.len(),
            spec_item_property(props@, key@) == spec_item_property(props@.skip(i as int), key@),
        decreases props@.len() - i,
    {
        let ghost rest = props@.skip(i as int);
        assert(rest[0] == props@[i as int]);
        assert(rest.drop_first() =~= props@.skip(i + 1));
        if str_eq(props[i].0.as_str(), key) {
            return Some(&props[i].1);
        }
        i += 1;
    }
    None
}

/// A string property; empty when absent or not a string.
pub open spec fn spec_string_property(props: Seq<(String, DbusValue)>, key: Seq<char>) -> Seq<char> {
    match spec_item_property(props, key) {
        Some(DbusValue::Str(s)) => s@,
        _ => Seq::empty(),
    }
}

/// Read a string property, defaulting to the empty string.
pub fn string_property(props: &Vec<(String, DbusValue)>, key: &str) -> (r: String)
    ensures
        r@ == spec_string_property(props@, key@),
{
    match item_property(props, key) {
        Some(DbusValue::Str(s)) => s.clone(),
        _ => String::new(),
    }
}

/// A boolean property; false when absent or not a boolean.
pub open spec fn spec_bool_property(props: Seq<(String, DbusValue)>, key: Seq<char>) -> bool {
    match spec_item_property(props, key) {
        Some(DbusValue::Bool(b)) => b,
        _ => false,
    }
}

/// Read a boolean property, defaulting to false.
pub fn bool_property(props: &Vec<(String, DbusValue)>, key: &str) -> (r: bool)
    ensures
        r == spec_bool_property(props@, key@),
{
    match item_property(props, key) {
        Some(DbusValue::Bool(b)) => *b,
        _ => false,
    }
}

/// The item's menu object path: the `Menu` property as an object path or a
/// string; `None` when absent, of another type, empty, or the root `/`
/// (which means the item has no menu).
pub open spec fn spec_menu_path_property(props: Seq<(String, DbusValue)>) -> Option<Seq<char>> {
    let p = match spec_item_property(props, "Menu"@) {
        Some(DbusValue::ObjectPath(p)) => Some(p@),
        Some(DbusValue::Str(s)) => Some(s@),
        _ => None,
    };
    match p {
        Some(p) => if p.len() == 0 || p == "/"@ {
            None
        } else {
            Some(p)
        },
        None => None,
    }
}

/// Read the `Menu` object-path property.
pub fn menu_path_property(props: &Vec<(String, DbusValue)>) -> (r: Option<String>)
    ensures
        match spec_menu_path_property(props@) {
            Some(p) => r is Some && r->0@ == p,
            None => r is None,
        },
{
    let path = match item_property(props, "Menu") {
        Some(DbusValue::ObjectPath(p)) => p.clone(),
        Some(DbusValue::Str(s)) => s.clone(),
        _ => return None,
    };
    if path.as_str().is_empty() || str_eq(path.as_str(), "/") {
        None
    } else {
        Some(path)
    }
}

/// The title of a `ToolTip` structure `(sa(iiay)ss)`: its third field when
/// that is a string; empty on any mismatch.
pub open spec fn spec_tooltip_title(v: DbusValue) -> Seq<char> {
    match spec_peel(v) {
        DbusValue::Structure(fs) => if fs@.len() > 2 {
            match fs@[2] {
                DbusValue::Str(s) => s@,
                _ => Seq::empty(),
            }
        } else {
            Seq::empty()
        },
        _ => Seq::empty(),
    }
}

/// Extract the title string from a `ToolTip` value.
pub fn tooltip_title_from_value(v: &DbusValue) -> (r: String)
    ensures
        r@ == spec_tooltip_title(*v),
{
    match peel(v) {
        DbusValue::Structure(fs) => {
            if fs.len() > 2 {
                match &fs[2] {
                    DbusValue::Str(s) => s.clone(),
                    _ => String::new(),
                }
            } else {
                String::new()
            }
        },
        _ => String::new(),
    }
}

/// The bytes among `vs`, in order; other values are skipped.
pub open spec fn spec_bytes(vs: Seq<DbusValue>) -> Seq<u8>
    decreases vs.len(),
{
    if vs.len() == 0 {
        Seq::empty()
    } else {
        let rest = spec_bytes(vs.drop_last());
        match vs.last() {
            DbusValue::Byte(b) => rest.push(b),
            _ => rest,
        }
    }
}

/// One `(iiay)` pixmap: width, height and ARGB bytes; `None` when malformed.
pub open spec fn spec_pixmap(e: DbusValue) -> Option<(i32, i32, Seq<u8>)> {
    match spec_peel(e) {
        DbusValue::Structure(fs) => if fs@.len() >= 3 {
            match (fs@[0], fs@[1], spec_peel(fs@[2])) {
                (DbusValue::I32(w), DbusValue::I32(h), DbusValue::Array(bs)) => Some(
                    (w, h, spec_bytes(bs@)),
                ),
                _ => None,
            }
        } else {
            None
        },
        _ => None,
    }
}

/// The well-formed pixmaps among `es`, in order.
pub open spec fn spec_pixmap_list(es: Seq<DbusValue>) -> Seq<(i32, i32, Seq<u8>)>
    decreases es.len(),
{
    if es.len() == 0 {
        Seq::empty()
    } else {
        let rest = spec_pixmap_list(es.drop_last());
        match spec_pixmap(es.last()) {
            Some(p) => rest.push(p),
            None => rest,
        }
    }
}

/// The pixmaps of an `IconPixmap` value `a(iiay)`; empty when it is not an
/// array.
pub open spec fn spec_pixmaps(v: DbusValue) -> Seq<(i32, i32, Seq<u8>)> {
    match spec_peel(v) {
        DbusValue::Array(es) => spec_pixmap_list(es@),
        _ => Seq::empty(),
    }
}

pub open spec fn pixmap_views(v: Seq<(i32, i32, Vec<u8>)>) -> Seq<(i32, i32, Seq<u8>)> {
    v.map_values(|p: (i32, i32, Vec<u8>)| (p.0, p.1, p.2@))
}

fn bytes_of(vs: &Vec<DbusValue>) -> (r: Vec<u8>)
    ensures
        r@ == spec_bytes(vs@),
{
    let mut out: Vec<u8> = Vec::new();
    let mut i: usize = 0;
    while i < vs.len()
        invariant
            i <= vs.len(),
            out@ == spec_bytes(vs@.take(i as int)),
        decreases vs.len() - i,
    {
        assert(vs@.take(i + 1).drop_last() == vs@.take(i as int));
        assert(vs@.take(i + 1).last() == vs@[i as int]);
        match &vs[i] {
            DbusValue::Byte(b) => out.push(*b),
            _ => {},
        }
        i += 1;
    }
    assert(vs@.take(vs.len() as int) == vs@);
    out
}

fn pixmap_of(e: &DbusValue) -> (r: Option<(i32, i32, Vec<u8>)>)
    ensures
        match spec_pixmap(*e) {
            Some(p) => match r {
                Some(q) => (q.0, q.1, q.2@) == p,
                None => false,
            },
            None => r is None,
        },
{
    match peel(e) {
        DbusValue::Structure(fs) => {
            if fs.len() >= 3 {
                match (&fs[0], &fs[1], peel(&fs[2])) {
                    (DbusValue::I32(w), DbusValue::I32(h), DbusValue::Array(bs)) => Some(
                        (*w, *h, bytes_of(bs)),
                    ),
                    _ => None,
                }
            } else {
                None
            }
        },
        _ => None,
    }
}

/// Parse an `IconPixmap` value into `(width, height, argb_bytes)` triples,
/// skipping every malformed entry.
pub fn parse_pixmaps(v: &DbusValue) -> (r: Vec<(i32, i32, Vec<u8>)>)
    ensures
        pixmap_views(r@) == spec_pixmaps(*v),
{
    let mut out: Vec<(i32, i32, Vec<u8>)> = Vec::new();
    match peel(v) {
        DbusValue::Array(es) => {
            let mut i: usize = 0;
            while i < es.len()
                invariant
                    i <= es.len(),
                    pixmap_views(out@) == spec_pixmap_list(es@.take(i as int)),
                decreases es.len() - i,
            {
                assert(es@.take(i + 1).drop_last() == es@.take(i as int));
                assert(es@.take(i + 1).last() == es@[i as int]);
                let ghost before = pixmap_views(out@);
                match pixmap_of(&es[i]) {
                    Some(p) => {
                        out.push(p);
                        assert(pixmap_views(out@) =~= before.push(
                            spec_pixmap(es@[i as int])->0,
                        ));
                    },
                    None => {},
                }
                i += 1;
            }
            assert(es@.take(es.len() as int) == es@);
        },
        _ => {
            assert(pixmap_views(out@) =~= Seq::<(i32, i32, Seq<u8>)>::empty());
        },
    }
    out
}

// ---------------------------------------------------------------------------
// An item from its properties.
// ---------------------------------------------------------------------------

/// What a tray item's properties say, before its icon is looked up and its
/// menu fetched.
#[derive(Debug)]
pub struct TrayItemFields {
    pub id: String,
    /// The title shown: the tooltip title, else `Title`, else `Id`.
    pub title: String,
    /// `Status`, `Active` when empty.
    pub status: String,
    pub icon_name: String,
    pub icon_theme_path: String,
    pub pixmaps: Vec<(i32, i32, Vec<u8>)>,
    pub item_is_menu: bool,
    pub menu_path: Option<String>,
}

/// The tooltip title of the item's `ToolTip` property; empty without one.
pub open spec fn spec_item_tooltip(props: Seq<(String, DbusValue)>) -> Seq<char> {
    match spec_item_property(props, "ToolTip"@) {
        Some(v) => spec_tooltip_title(v),
        None => Seq::empty(),
    }
}

/// The pixmaps of the item's `IconPixmap` property; none without one.
pub open spec fn spec_item_pixmaps(props: Seq<(String, DbusValue)>) -> Seq<(i32, i32, Seq<u8>)> {
    match spec_item_property(props, "IconPixmap"@) {
        Some(v) => spec_pixmaps(v),
        None => Seq::empty(),
    }
}

/// The displayed title: the first non-empty of tooltip title, title and id.
pub open spec fn spec_display_title(tooltip: Seq<char>, title: Seq<char>, id: Seq<char>) -> Seq<char> {
    if tooltip.len() > 0 {
        tooltip
    } else if title.len() > 0 {
        title
    } else {
        id
    }
}

/// What the fields of an item with properties `props` hold.
pub open spec fn spec_fields_of(props: Seq<(String, DbusValue)>, f: TrayItemFields) -> bool {
    let raw_status = spec_string_property(props, "Status"@);
    &&& f.id@ == spec_string_property(props, "Id"@)
    &&& f.title@ == spec_display_title(
        spec_item_tooltip(props),
        spec_string_property(props, "Title"@),
        spec_string_property(props, "Id"@),
    )
    &&& f.status@ == if raw_status.len() == 0 {
        "Active"@
    } else {
        raw_status
    }
    &&& f.icon_name@ == spec_string_property(props, "IconName"@)
    &&& f.icon_theme_path@ == spec_string_property(props, "IconThemePath"@)
    &&& pixmap_views(f.pixmaps@) == spec_item_pixmaps(props)
    &&& f.item_is_menu == spec_bool_property(props, "ItemIsMenu"@)
    &&& match spec_menu_path_property(props) {
        Some(p) => f.menu_path is Some && f.menu_path->0@ == p,
        None => f.menu_path is None,
    }
}

/// Read an item's fields from all of its properties; `None` when no property
/// could be read at all.
pub fn item_fields(props: &Vec<(String, DbusValue)>) -> (r: Option<TrayItemFields>)
    ensures
        r is None <==> props@.len() == 0,
        r is Some ==> spec_fields_of(props@, r->0),
{
    if props.len() == 0 {
        return None;
    }
    let id = string_property(props, "Id");
    let title_property = string_property(props, "Title");
    let raw_status = string_property(props, "Status");
    let status = if raw_status.as_str().is_empty() {
        owned("Active")
    } else {
        raw_status
    };
    let icon_name = string_property(props, "IconName");
    let icon_theme_path = string_property(props, "IconThemePath");
    let pixmaps = match item_property(props, "IconPixmap") {
        Some(v) => parse_pixmaps(v),
        None => {
            let empty: Vec<(i32, i32, Vec<u8>)> = Vec::new();
            assert(pixmap_views(empty@) =~= Seq::<(i32, i32, Seq<u8>)>::empty());
            empty
        },
    };
    let tooltip_title = match item_property(props, "ToolTip") {
        Some(v) => tooltip_title_from_value(v),
        None => String::new(),
    };
    let item_is_menu = bool_property(props, "ItemIsMenu");
    let menu_path = menu_path_property(props);
    let title = resolve_display_title(tooltip_title.as_str(), title_property.as_str(), id.as_str());
    Some(
        TrayItemFields {
            id,
            title,
            status,
            icon_name,
            icon_theme_path,
            pixmaps,
            item_is_menu,
            menu_path,
        },
    )
}

// ---------------------------------------------------------------------------
// The mirrored items.
// ---------------------------------------------------------------------------

/// Where a tray item's icon was found.
#[derive(Debug, Clone, PartialEq, Eq)]
pub enum IconRef {
    Path(String),
    DataUri(String),
}

/// A tray item as the host publishes it.
#[derive(Debug)]
pub struct SystemTrayItem {
    pub service: String,
    pub title: String,
    pub tooltip: String,
    pub status: String,
    pub icon: Option<IconRef>,
    pub item_is_menu: bool,
    pub menu: Vec<SystemTrayMenuNode>,
}

/// The item published under `service_key` for `fields`, with the icon found
/// for it and its menu; the tooltip repeats the displayed title.
pub fn make_item(
    service_key: &str,
    fields: TrayItemFields,
    icon: Option<IconRef>,
    menu: Vec<SystemTrayMenuNode>,
) -> (r: SystemTrayItem)
    ensures
        r.service@ == service_key@,
        r.title@ == fields.title@,
        r.tooltip@ == fields.title@,
        r.status == fields.status,
        r.icon == icon,
        r.item_is_menu == fields.item_is_menu,
        r.menu == menu,
{
    let tooltip = fields.title.clone();
    SystemTrayItem {
        service: owned(service_key),
        title: fields.title,
        tooltip,
        status: fields.status,
        icon,
        item_is_menu: fields.item_is_menu,
        menu,
    }
}

/// Service keys strictly increasing along the sequence (so each occurs once).
pub open spec fn spec_services_sorted(s: Seq<SystemTrayItem>) -> bool {
    forall|i: int, j: int|
        0 <= i < j < s.len() ==> spec_lex_lt(#[trigger] s[i].service@, #[trigger] s[j].service@)
}

/// Whether an item is published under `service`.
pub open spec fn spec_has_service(s: Seq<SystemTrayItem>, service: Seq<char>) -> bool {
    exists|i: int| 0 <= i < s.len() && #[trigger] s[i].service@ == service
}

/// What upserting `item` does: the item published under the same service is
/// replaced in place; without one, `item` is inserted at some position.
pub open spec fn spec_upserted(old: Seq<SystemTrayItem>, new: Seq<SystemTrayItem>, item: SystemTrayItem) -> bool {
    if spec_has_service(old, item.service@) {
        exists|j: int|
            0 <= j < old.len() && #[trigger] old[j].service@ == item.service@ && new == old.update(
                j,
                item,
            )
    } else {
        exists|p: int| 0 <= p <= old.len() && new == old.insert(p, item)
    }
}

/// Whether `service` is among `removed`.
pub open spec fn spec_removed(removed: Seq<String>, service: Seq<char>) -> bool {
    string_views(removed).contains(service)
}

/// The items whose service is not among `removed`, in order.
pub open spec fn spec_kept(s: Seq<SystemTrayItem>, removed: Seq<String>) -> Seq<SystemTrayItem>
    decreases s.len(),
{
    if s.len() == 0 {
        Seq::empty()
    } else {
        let rest = spec_kept(s.drop_last(), removed);
        if spec_removed(removed, s.last().service@) {
            rest
        } else {
            rest.push(s.last())
        }
    }
}

fn contains_string(v: &Vec<String>, s: &str) -> (r: bool)
    ensures
        r == string_views(v@).contains(s@),
{
    let mut i: usize = 0;
    while i < v.len()
        invariant
            i <= v.len(),
            forall|j: int| 0 <= j < i ==> v@[j]@ != s@,
        decreases v.len() - i,
    {
        if str_eq(v[i].as_str(), s) {
            assert(string_views(v@)[i as int] == s@);
            return true;
        }
        i += 1;
    }
    proof {
        if string_views(v@).contains(s@) {
            let k = choose|k: int| 0 <= k < string_views(v@).len() && string_views(v@)[k] == s@;
            assert(v@[k]@ == s@);
        }
    }
    false
}

/// The host's published items, in service-key order with one item per
/// service.
pub struct SystemTrayState {
    items: Vec<SystemTrayItem>,
}

impl View for SystemTrayState {
    type V = Seq<SystemTrayItem>;

    closed spec fn view(&self) -> Seq<SystemTrayItem> {
        self.items@
    }
}

impl SystemTrayState {
    /// No items.
    pub fn new() -> (r: SystemTrayState)
        ensures
            r@.len() == 0,
    {
        SystemTrayState { items: Vec::new() }
    }

    /// The items, in service-key order.
    pub fn items(&self) -> (r: &Vec<SystemTrayItem>)
        ensures
            r@ == self@,
    {
        &self.items
    }

    /// Insert `item`, or replace the item published under its service, so
    /// that the items stay in service-key order.
    pub fn upsert(&mut self, item: SystemTrayItem)
        requires
            spec_services_sorted(old(self)@),
        ensures
            spec_services_sorted(final(self)@),
            spec_upserted(old(self)@, final(self)@, item),
    {
        let key = chars_vec(item.service.as_str());
        let ghost s = self@;
        let ghost it = item;
        let mut i: usize = 0;
        while i < self.items.len() && lex_lt(&chars_vec(self.items[i].service.as_str()), &key)
            invariant
                i <= self.items.len(),
                self@ == s,
                key@ == item.service@,
                forall|j: int| 0 <= j < i ==> spec_lex_lt(#[trigger] s[j].service@, key@),
            decreases self.items.len() - i,
        {
            i += 1;
        }
        proof {
            assert forall|j: int| 0 <= j < i implies #[trigger] s[j].service@ != key@ by {
                lemma_lex_lt_irreflexive(key@);
            }
        }
        if i < self.items.len() && str_eq(self.items[i].service.as_str(), item.service.as_str()) {
            self.items.set(i, item);
            proof {
                let t = self@;
                assert(t == s.update(i as int, it));
                assert forall|a: int, b: int| 0 <= a < b < t.len() implies spec_lex_lt(
                    #[trigger] t[a].service@,
                    #[trigger] t[b].service@,
                ) by {
                    assert(t[a].service@ == s[a].service@);
                    assert(t[b].service@ == s[b].service@);
                }
                assert(s[i as int].service@ == it.service@);
            }
        } else {
            proof {
                if i < s.len() {
                    lemma_lex_lt_total(s[i as int].service@, key@);
                    assert(spec_lex_lt(key@, s[i as int].service@));
                    assert forall|j: int| i < j < s.len() implies spec_lex_lt(
                        key@,
                        #[trigger] s[j].service@,
                    ) by {
                        assert(spec_lex_lt(s[i as int].service@, s[j].service@));
                        lemma_lex_lt_transitive(key@, s[i as int].service@, s[j].service@);
                    }
                    assert forall|j: int| i <= j < s.len() implies #[trigger] s[j].service@
                        != key@ by {
                        lemma_lex_lt_irreflexive(key@);
                    }
                }
                assert(!spec_has_service(s, key@));
            }
            self.items.insert(i, item);
            proof {
                let t = self@;
                assert(t =~= s.insert(i as int, it));
                assert forall|a: int, b: int| 0 <= a < b < t.len() implies spec_lex_lt(
                    #[trigger] t[a].service@,
                    #[trigger] t[b].service@,
                ) by {
                    if b < i {
                    } else if b == i {
                    } else if a < i {
                        assert(t[b] == s[b - 1]);
                        if b - 1 > i {
                            lemma_lex_lt_transitive(s[a].service@, key@, s[i as int].service@);
                            lemma_lex_lt_transitive(s[a].service@, s[i as int].service@, s[b - 1].service@);
                        } else {
                            lemma_lex_lt_transitive(s[a].service@, key@, s[i as int].service@);
                        }
                    } else if a == i {
                        assert(t[b] == s[b - 1]);
                    } else {
                        assert(t[a] == s[a - 1]);
                        assert(t[b] == s[b - 1]);
                    }
                }
            }
        }
    }

    /// Drop every item whose service is among `removed` (the services of a
    /// departed bus name); the others stay, in order.
    pub fn remove_services(&mut self, removed: &Vec<String>)
        requires
            spec_services_sorted(old(self)@),
        ensures
            spec_services_sorted(final(self)@),
            final(self)@ == spec_kept(old(self)@, removed@),
    {
        let ghost s = self@;
        let mut i: usize = 0;
        let ghost mut j: int = 0;
        assert(s.take(0) =~= Seq::<SystemTrayItem>::empty());
        assert(s.skip(0) =~= s);
        assert(self.items@.take(0) =~= Seq::<SystemTrayItem>::empty());
        while i < self.items.len()
            invariant
                0 <= i <= j <= s.len(),
                self.items@.len() == i + (s.len() - j),
                self.items@.take(i as int) == spec_kept(s.take(j), removed@),
                self.items@.skip(i as int) == s.skip(j),
                spec_services_sorted(self@),
                self@ == self.items@,
            decreases self.items.len() - i,
        {
            let ghost before = self.items@;
            assert(before[i as int] == s[j]) by {
                assert(before.skip(i as int)[0] == s.skip(j)[0]);
            }
            assert(s.take(j + 1).drop_last() =~= s.take(j));
            assert(s.take(j + 1).last() == s[j]);
            if contains_string(removed, self.items[i].service.as_str()) {
                self.items.remove(i);
                proof {
                    let t = self.items@;
                    assert(t =~= before.remove(i as int));
                    assert(t.take(i as int) =~= before.take(i as int));
                    assert forall|k: int| 0 <= k < t.skip(i as int).len() implies #[trigger] t.skip(
                        i as int,
                    )[k] == s.skip(j + 1)[k] by {
                        assert(t.skip(i as int)[k] == before[i + 1 + k]);
                        assert(before.skip(i as int)[k + 1] == s.skip(j)[k + 1]);
                    }
                    assert(t.skip(i as int) =~= s.skip(j + 1));
                    assert forall|a: int, b: int| 0 <= a < b < t.len() implies spec_lex_lt(
                        #[trigger] t[a].service@,
                        #[trigger] t[b].service@,
                    ) by {
                        if a < i {
                            if b < i {
                                assert(t[a] == before[a]);
                                assert(t[b] == before[b]);
                            } else {
                                assert(t[a] == before[a]);
                                assert(t[b] == before[b + 1]);
                            }
                        } else {
                            assert(t[a] == before[a + 1]);
                            assert(t[b] == before[b + 1]);
                        }
                    }
                    j = j + 1;
                }
            } else {
                proof {
                    assert(self.items@.take(i + 1) =~= before.take(i as int).push(before[i as int]));
                    assert forall|k: int| 0 <= k < before.skip(i + 1).len() implies #[trigger] before.skip(
                        i + 1,
                    )[k] == s.skip(j + 1)[k] by {
                        assert(before.skip(i as int)[k + 1] == s.skip(j)[k + 1]);
                    }
                    assert(self.items@.skip(i + 1) =~= s.skip(j + 1));
                    j = j + 1;
                }
                i += 1;
            }
        }
        proof {
            assert(s.take(j) =~= s);
            assert(self.items@.take(i as int) =~= self.items@);
        }
    }
}

/// One item per service: two positions of a well-ordered item list never
/// carry the same service key.
pub proof fn law_one_item_per_service(s: Seq<SystemTrayItem>, i: int, j: int)
    requires
        spec_services_sorted(s),
        0 <= i < s.len(),
        0 <= j < s.len(),
        i != j,
    ensures
        s[i].service@ != s[j].service@,
{
    if i < j {
        assert(spec_lex_lt(s[i].service@, s[j].service@));
        lemma_lex_lt_irreflexive(s[i].service@);
    } else {
        assert(spec_lex_lt(s[j].service@, s[i].service@));
        lemma_lex_lt_irreflexive(s[j].service@);
    }
}

// ---------------------------------------------------------------------------
// Mirror retries.
// ---------------------------------------------------------------------------

/// Consecutive failed reads of an item after which its mirror gives up.
pub const MIRROR_FAILURE_LIMIT: u32 = 10;

/// Pause before a mirror reads its item again after a failure.
pub const MIRROR_RETRY_PAUSE_MS: u64 = 500;

/// What a mirror does after failing to read its item.
#[derive(Debug, Clone, Copy, PartialEq, Eq)]
pub enum MirrorRetry {
    /// Pause, then read the item again.
    RetryAfterPause,
    /// Stop reading; wait until the item's departure ends the mirror.
    Park,
}

/// Count a failed read: the failure count goes up by one, and once it
/// exceeds the limit the mirror parks.
pub fn after_failed_read(consecutive_failures: u32) -> (r: (u32, MirrorRetry))
    requires
        consecutive_failures < u32::MAX,
    ensures
        r.0 == consecutive_failures + 1,
        r.1 == if consecutive_failures + 1 > MIRROR_FAILURE_LIMIT {
            MirrorRetry::Park
        } else {
            MirrorRetry::RetryAfterPause
        },
{
    let failures = consecutive_failures + 1;
    if failures > MIRROR_FAILURE_LIMIT {
        (failures, MirrorRetry::Park)
    } else {
        (failures, MirrorRetry::RetryAfterPause)
    }
}

} // verus!
