//! The dbusmenu layout of a tray item, read from its D-Bus value into a tree
//! of menu nodes.
use vstd::prelude::*;

use crate::system_tray::{spec_strip_accelerators, strip_accelerator_markers};
use crate::text::{owned, str_eq};

verus! {

/// A D-Bus value, as far as a tray item and its menu layout read it.
#[derive(Debug)]
pub enum DbusValue {
    Byte(u8),
    I32(i32),
    Bool(bool),
    Str(String),
    ObjectPath(String),
    Structure(Vec<DbusValue>),
    Array(Vec<DbusValue>),
    Dict(Vec<(DbusValue, DbusValue)>),
    Variant(Box<DbusValue>),
    Other,
}

/// One menu entry and its submenu.
#[derive(Debug)]
pub struct SystemTrayMenuNode {
    pub id: i32,
    pub label: String,
    pub enabled: bool,
    pub visible: bool,
    pub separator: bool,
    pub toggle_type: Option<String>,
    pub toggle_state: Option<bool>,
    pub icon_name: Option<String>,
    pub children: Vec<SystemTrayMenuNode>,
}

/// The value inside any number of variant wrappers.
pub open spec fn spec_peel(v: DbusValue) -> DbusValue
    decreases v,
{
    match v {
        DbusValue::Variant(inner) => spec_peel(*inner),
        _ => v,
    }
}

/// Unwrap variants.
pub fn peel(v: &DbusValue) -> (r: &DbusValue)
    ensures
        *r == spec_peel(*v),
        !(r is Variant),
    decreases v,
{
    match v {
        DbusValue::Variant(inner) => peel(inner),
        _ => v,
    }
}

/// The (unwrapped) value of the first entry whose unwrapped key is the
/// string `key`.
pub open spec fn spec_property(entries: Seq<(DbusValue, DbusValue)>, key: Seq<char>) -> Option<DbusValue>
    decreases entries.len(),
{
    if entries.len() == 0 {
        None
    } else if spec_peel(entries[0].0) matches DbusValue::Str(k) && k@ == key {
        Some(spec_peel(entries[0].1))
    } else {
        spec_property(entries.drop_first(), key)
    }
}

fn property<'a>(entries: &'a Vec<(DbusValue, DbusValue)>, key: &str) -> (r: Option<&'a DbusValue>)
    ensures
        match spec_property(entries@, key@) {
            Some(v) => r is Some && *r->0 == v,
            None => r is None,
        },
{
    let mut i: usize = 0;
    assert(entries@.skip(0) =~= entries@);
    while i < entries.len()
        invariant
            i <= entries@.len(),
            spec_property(entries@, key@) == spec_property(entries@.skip(i as int), key@),
        decreases entries@.len() - i,
    {
        let ghost rest = entries@.skip(i as int);
        assert(rest[0] == entries@[i as int]);
        assert(rest.drop_first() =~= entries@.skip(i + 1));
        match peel(&entries[i].0) {
            DbusValue::Str(k) => {
                if str_eq(k.as_str(), key) {
                    return Some(peel(&entries[i].1));
                }
            },
            _ => {},
        }
        i += 1;
    }
    None
}

pub open spec fn spec_prop_string(d: Seq<(DbusValue, DbusValue)>, key: Seq<char>) -> Option<Seq<char>> {
    match spec_property(d, key) {
        Some(DbusValue::Str(s)) => Some(s@),
        _ => None,
    }
}

pub open spec fn spec_prop_bool(d: Seq<(DbusValue, DbusValue)>, key: Seq<char>) -> Option<bool> {
    match spec_property(d, key) {
        Some(DbusValue::Bool(b)) => Some(b),
        _ => None,
    }
}

pub open spec fn spec_prop_i32(d: Seq<(DbusValue, DbusValue)>, key: Seq<char>) -> Option<i32> {
    match spec_property(d, key) {
        Some(DbusValue::I32(n)) => Some(n),
        _ => None,
    }
}

fn prop_string(d: &Vec<(DbusValue, DbusValue)>, key: &str) -> (r: Option<String>)
    ensures
        match spec_prop_string(d@, key@) {
            Some(s) => r is Some && r->0@ == s,
            None => r is None,
        },
{
    match property(d, key) {
        Some(DbusValue::Str(s)) => Some(s.clone()),
        _ => None,
    }
}

fn prop_bool(d: &Vec<(DbusValue, DbusValue)>, key: &str) -> (r: Option<bool>)
    ensures
        r == spec_prop_bool(d@, key@),
{
    match property(d, key) {
        Some(DbusValue::Bool(b)) => Some(*b),
        _ => None,
    }
}

fn prop_i32(d: &Vec<(DbusValue, DbusValue)>, key: &str) -> (r: Option<i32>)
    ensures
        r == spec_prop_i32(d@, key@),
{
    match property(d, key) {
        Some(DbusValue::I32(n)) => Some(*n),
        _ => None,
    }
}

/// The id and properties of a menu node value: a structure whose first
/// field (unwrapped) is an `i32` and second a dictionary.
pub open spec fn spec_node_head(v: DbusValue) -> Option<(i32, Seq<(DbusValue, DbusValue)>)> {
    match spec_peel(v) {
        DbusValue::Structure(fs) => if fs@.len() >= 2 {
            match (spec_peel(fs@[0]), spec_peel(fs@[1])) {
                (DbusValue::I32(id), DbusValue::Dict(d)) => Some((id, d@)),
                _ => None,
            }
        } else {
            None
        },
        _ => None,
    }
}

/// The child values of a structure: its third field when (unwrapped) that
/// is an array, else none.
pub open spec fn spec_child_values(v: DbusValue) -> Seq<DbusValue> {
    match spec_peel(v) {
        DbusValue::Structure(fs) => if fs@.len() >= 3 {
            match spec_peel(fs@[2]) {
                DbusValue::Array(a) => a@,
                _ => Seq::empty(),
            }
        } else {
            Seq::empty()
        },
        _ => Seq::empty(),
    }
}

/// The positions of the values that are well-formed menu nodes, in order
/// (the others are skipped).
pub open spec fn spec_shaped(arr: Seq<DbusValue>) -> Seq<int>
    decreases arr.len(),
{
    if arr.len() == 0 {
        Seq::empty()
    } else {
        let rest = spec_shaped(arr.drop_last());
        if spec_node_head(arr.last()) is Some {
            rest.push(arr.len() - 1)
        } else {
            rest
        }
    }
}

pub open spec fn spec_opt_view(o: Option<String>) -> Option<Seq<char>> {
    match o {
        Some(s) => Some(s@),
        None => None,
    }
}

/// `n` is the node read from `v`: its id; its label without accelerator
/// markers (empty when missing); `enabled` and `visible` (true when
/// missing); a separator when its `type` is `separator`; its toggle type,
/// toggle state (1 on, 0 off, else none) and icon name; and, in order, the
/// nodes read from its well-formed children.
pub open spec fn spec_node_parsed(v: DbusValue, n: SystemTrayMenuNode) -> bool
    decreases n,
{
    match spec_node_head(v) {
        None => false,
        Some((id, d)) => {
            let kids = spec_child_values(v);
            let pos = spec_shaped(kids);
            &&& n.id == id
            &&& n.label@ == spec_strip_accelerators(
                match spec_prop_string(d, "label"@) {
                    Some(l) => l,
                    None => Seq::empty(),
                },
            )
            &&& n.enabled == match spec_prop_bool(d, "enabled"@) {
                Some(b) => b,
                None => true,
            }
            &&& n.visible == match spec_prop_bool(d, "visible"@) {
                Some(b) => b,
                None => true,
            }
            &&& n.separator == (spec_prop_string(d, "type"@) == Some("separator"@))
            &&& spec_opt_view(n.toggle_type) == spec_prop_string(d, "toggle-type"@)
            &&& n.toggle_state == match spec_prop_i32(d, "toggle-state"@) {
                Some(x) => if x == 1 {
                    Some(true)
                } else if x == 0 {
                    Some(false)
                } else {
                    None
                },
                None => None,
            }
            &&& spec_opt_view(n.icon_name) == spec_prop_string(d, "icon-name"@)
            &&& n.children@.len() == pos.len()
            &&& forall|k: int| 0 <= k < pos.len() ==> spec_node_parsed(kids[pos[k]], #[trigger] n.children@[k])
        },
    }
}

/// `nodes` are the nodes read from the well-formed values of `arr`, in order.
pub open spec fn spec_list_parsed(arr: Seq<DbusValue>, nodes: Seq<SystemTrayMenuNode>) -> bool {
    &&& nodes.len() == spec_shaped(arr).len()
    &&& forall|k: int| 0 <= k < nodes.len() ==> spec_node_parsed(arr[spec_shaped(arr)[k]], #[trigger] nodes[k])
}

proof fn lemma_peel_smaller(v: DbusValue)
    ensures
        spec_peel(v) == v || decreases_to!(v => spec_peel(v)),
    decreases v,
{
    match v {
        DbusValue::Variant(inner) => {
            lemma_peel_smaller(*inner);
        },
        _ => {},
    }
}

proof fn lemma_shaped_in_range(arr: Seq<DbusValue>)
    ensures
        forall|k: int| 0 <= k < spec_shaped(arr).len() ==> 0 <= #[trigger] spec_shaped(arr)[k] < arr.len(),
        forall|a: int, b: int| 0 <= a < b < spec_shaped(arr).len() ==> #[trigger] spec_shaped(arr)[a] < #[trigger] spec_shaped(arr)[b],
    decreases arr.len(),
{
    if arr.len() > 0 {
        lemma_shaped_in_range(arr.drop_last());
        let d = spec_shaped(arr.drop_last());
        if spec_node_head(arr.last()) is Some {
            assert(spec_shaped(arr) == d.push(arr.len() - 1));
            assert forall|k: int| 0 <= k < d.len() implies 0 <= #[trigger] d[k] < arr.len() - 1 by {}
        } else {
            assert(spec_shaped(arr) == d);
        }
    }
}

/// Read the menu nodes of the well-formed values in `arr`.
fn parse_list(arr: &Vec<DbusValue>, parent: Ghost<DbusValue>) -> (r: Vec<SystemTrayMenuNode>)
    requires
        forall|i: int| 0 <= i < arr@.len() ==> decreases_to!(parent@ => #[trigger] arr@[i]),
    ensures
        spec_list_parsed(arr@, r@),
    decreases parent@, 0nat,
{
    let mut out: Vec<SystemTrayMenuNode> = Vec::new();
    let mut i: usize = 0;
    while i < arr.len()
        invariant
            i <= arr@.len(),
            forall|j: int| 0 <= j < arr@.len() ==> decreases_to!(parent@ => #[trigger] arr@[j]),
            spec_list_parsed(arr@.take(i as int), out@),
        decreases arr@.len() - i,
    {
        let ghost t = arr@.take(i + 1);
        assert(t.drop_last() =~= arr@.take(i as int));
        assert(t.last() == arr@[i as int]);
        assert forall|j: int| 0 <= j < t.drop_last().len() implies #[trigger] t.drop_last()[j] == t[j] by {}
        let ghost before = out@;
        match parse_node(&arr[i]) {
            Some(n) => {
                out.push(n);
                proof {
                    assert(spec_shaped(t) == spec_shaped(arr@.take(i as int)).push(i as int));
                    assert forall|k: int| 0 <= k < out@.len() implies spec_node_parsed(t[spec_shaped(t)[k]], #[trigger] out@[k]) by {
                        if k < before.len() {
                            lemma_shaped_in_range(arr@.take(i as int));
                            assert(out@[k] == before[k]);
                            assert(t[spec_shaped(t)[k]] == arr@.take(i as int)[spec_shaped(arr@.take(i as int))[k]]);
                        }
                    }
                }
            },
            None => {
                proof {
                    assert(spec_shaped(t) == spec_shaped(arr@.take(i as int)));
                    assert forall|k: int| 0 <= k < out@.len() implies spec_node_parsed(t[spec_shaped(t)[k]], #[trigger] out@[k]) by {
                        lemma_shaped_in_range(arr@.take(i as int));
                        assert(t[spec_shaped(t)[k]] == arr@.take(i as int)[spec_shaped(arr@.take(i as int))[k]]);
                    }
                }
            },
        }
        i += 1;
    }
    assert(arr@.take(arr@.len() as int) =~= arr@);
    out
}

/// Read one menu node; `None` for a value that is not a well-formed node.
fn parse_node(v: &DbusValue) -> (r: Option<SystemTrayMenuNode>)
    ensures
        r is Some <==> spec_node_head(*v) is Some,
        r matches Some(n) ==> spec_node_parsed(*v, n),
    decreases *v, 1nat,
{
    proof {
        lemma_peel_smaller(*v);
    }
    let fields = match peel(v) {
        DbusValue::Structure(fields) => fields,
        _ => return None,
    };
    if fields.len() < 2 {
        return None;
    }
    proof {
        lemma_peel_smaller(fields@[0]);
        lemma_peel_smaller(fields@[1]);
    }
    let id = match peel(&fields[0]) {
        DbusValue::I32(id) => *id,
        _ => return None,
    };
    let props = match peel(&fields[1]) {
        DbusValue::Dict(d) => d,
        _ => return None,
    };
    let raw_label = match prop_string(props, "label") {
        Some(l) => l,
        None => String::new(),
    };
    let separator = match prop_string(props, "type") {
        Some(t) => str_eq(t.as_str(), "separator"),
        None => false,
    };
    let enabled = match prop_bool(props, "enabled") {
        Some(b) => b,
        None => true,
    };
    let visible = match prop_bool(props, "visible") {
        Some(b) => b,
        None => true,
    };
    let toggle_state = match prop_i32(props, "toggle-state") {
        Some(x) => if x == 1 {
            Some(true)
        } else if x == 0 {
            Some(false)
        } else {
            None
        },
        None => None,
    };
    let children = if fields.len() >= 3 {
        proof {
            lemma_peel_smaller(fields@[2]);
        }
        match peel(&fields[2]) {
            DbusValue::Array(a) => {
                proof {
                    assert forall|j: int| 0 <= j < a@.len() implies decreases_to!(*v => #[trigger] a@[j]) by {
                        assert(decreases_to!(a => a@));
                        assert(decreases_to!(a@ => a@[j]));
                    }
                }
                parse_list(a, Ghost(*v))
            },
            _ => {
                let e: Vec<SystemTrayMenuNode> = Vec::new();
                proof {
                    assert(spec_shaped(Seq::<DbusValue>::empty()) =~= Seq::<int>::empty());
                }
                e
            },
        }
    } else {
        let e: Vec<SystemTrayMenuNode> = Vec::new();
        proof {
            assert(spec_shaped(Seq::<DbusValue>::empty()) =~= Seq::<int>::empty());
        }
        e
    };
    let n = SystemTrayMenuNode {
        id,
        label: strip_accelerator_markers(raw_label.as_str()),
        enabled,
        visible,
        separator,
        toggle_type: prop_string(props, "toggle-type"),
        toggle_state,
        icon_name: prop_string(props, "icon-name"),
        children,
    };
    Some(n)
}

/// The menu of a `GetLayout` reply value: the nodes read from the
/// well-formed children of the root structure (none when the root is not a
/// structure with an array third field).
pub fn parse_menu_layout(layout: &DbusValue) -> (r: Vec<SystemTrayMenuNode>)
    ensures
        spec_list_parsed(spec_child_values(*layout), r@),
{
    proof {
        lemma_peel_smaller(*layout);
    }
    let fields = match peel(layout) {
        DbusValue::Structure(fields) => fields,
        _ => {
            assert(spec_shaped(Seq::<DbusValue>::empty()) =~= Seq::<int>::empty());
            return Vec::new();
        },
    };
    if fields.len() < 3 {
        assert(spec_shaped(Seq::<DbusValue>::empty()) =~= Seq::<int>::empty());
        return Vec::new();
    }
    proof {
        lemma_peel_smaller(fields@[2]);
    }
    match peel(&fields[2]) {
        DbusValue::Array(a) => {
            proof {
                assert forall|j: int| 0 <= j < a@.len() implies decreases_to!(*layout => #[trigger] a@[j]) by {
                    assert(decreases_to!(a => a@));
                }
            }
            parse_list(a, Ghost(*layout))
        },
        _ => {
            assert(spec_shaped(Seq::<DbusValue>::empty()) =~= Seq::<int>::empty());
            Vec::new()
        },
    }
}

/// The menu of a typed `GetLayout` reply `(revision, properties, children)`:
/// the nodes read from the well-formed children.
pub fn parse_menu_layout_reply(children: &Vec<DbusValue>) -> (r: Vec<SystemTrayMenuNode>)
    ensures
        spec_list_parsed(children@, r@),
{
    let ghost parent = DbusValue::Array(*children);
    proof {
        assert forall|j: int| 0 <= j < children@.len() implies decreases_to!(parent => #[trigger] children@[j]) by {
            assert(decreases_to!(parent => parent->Array_0));
            assert(parent->Array_0 == *children);
            assert(decreases_to!(*children => children@));
            assert(decreases_to!(children@ => children@[j]));
        }
    }
    parse_list(children, Ghost(parent))
}

} // verus!
