//! Hyprland: window records read from `j/clients`, how a query ranks them,
//! their subtitles, and the per-monitor active-window state driven by the
//! compositor's events.
use vstd::prelude::*;

use crate::desktop_apps::{read_desktop_entry, spec_decoded_desktop_entry, spec_desktop_decodable, spec_names_gettext_domain};
use crate::error::DomainError;
use crate::json::{spec_field_i64, spec_field_str, JsonValue, field_i64, field_str};
use crate::keyed::{lemma_entries_dom, lemma_entry_value, lemma_unique_len, KeyedVec};
use crate::text::{
    chars_vec, concat, contains, decimal_signed, extend_chars, extend_str, owned, parse_i64,
    spec_contains, spec_decimal_signed, spec_parse_i64, spec_starts_with, spec_to_lowercase,
    starts_with, str_eq, string_of, string_of_range, to_lowercase,
};

verus! {

// ---------------------------------------------------------------------------
// Windows.
// ---------------------------------------------------------------------------

/// `Special: <name or scratchpad> · <class>` for a special workspace,
/// `<name> · <class>` for a named one, else `Workspace <id> · <class>`.
pub open spec fn spec_format_subtitle(workspace_id: i64, workspace_name: Seq<char>, class: Seq<char>) -> Seq<
    char,
> {
    if spec_starts_with(workspace_name, "special:"@) {
        let special = workspace_name.skip(8);
        let label = if special.len() == 0 {
            "scratchpad"@
        } else {
            special
        };
        "Special: "@ + label + " \u{b7} "@ + class
    } else if workspace_name.len() > 0 {
        workspace_name + " \u{b7} "@ + class
    } else {
        "Workspace "@ + spec_decimal_signed(workspace_id as int) + " \u{b7} "@ + class
    }
}

pub fn format_subtitle(workspace_id: i64, workspace_name: &str, class: &str) -> (r: String)
    ensures
        r@ == spec_format_subtitle(workspace_id, workspace_name@, class@),
{
    let name = chars_vec(workspace_name);
    proof {
        reveal_strlit("special:");
    }
    let mut out: Vec<char> = Vec::new();
    if starts_with(&name, "special:") {
        extend_str(&mut out, "Special: ");
        if name.len() == 8 {
            extend_str(&mut out, "scratchpad");
        } else {
            let rest = string_of_range(&name, 8, name.len());
            extend_str(&mut out, rest.as_str());
            assert(rest@ =~= name@.skip(8));
        }
    } else if name.len() > 0 {
        extend_chars(&mut out, &name);
    } else {
        extend_str(&mut out, "Workspace ");
        let d = decimal_signed(workspace_id);
        extend_chars(&mut out, &d);
    }
    extend_str(&mut out, " \u{b7} ");
    extend_str(&mut out, class);
    proof {
        if spec_starts_with(name@, "special:"@) {
            assert(name@.skip(8).len() == 0 ==> name@.len() == 8);
        }
    }
    string_of(&out)
}

/// One window, with lower-cased copies of its searchable fields.
#[derive(Debug)]
pub struct WindowInfo {
    pub address: String,
    pub title: String,
    pub class: String,
    pub workspace_id: i64,
    pub workspace_name: String,
    pub title_lower: String,
    pub class_lower: String,
    pub workspace_name_lower: String,
}

/// The window a `j/clients` entry describes: it needs string `address`,
/// `title` and `class` and an integer `workspace.id`; a missing workspace
/// name is empty.
pub open spec fn spec_window_fields(client: JsonValue) -> Option<
    (Seq<char>, Seq<char>, Seq<char>, i64, Seq<char>),
> {
    match (
        spec_field_str(client, "address"@),
        spec_field_str(client, "title"@),
        spec_field_str(client, "class"@),
        client.spec_get("workspace"@),
    ) {
        (Some(a), Some(t), Some(c), Some(w)) => match spec_field_i64(w, "id"@) {
            Some(id) => Some(
                (
                    a,
                    t,
                    c,
                    id,
                    match spec_field_str(w, "name"@) {
                        Some(n) => n,
                        None => Seq::empty(),
                    },
                ),
            ),
            None => None,
        },
        _ => None,
    }
}

/// Read one `j/clients` entry (the icon is resolved by the caller).
pub fn window_from_client(client: &JsonValue) -> (r: Option<WindowInfo>)
    ensures
        match spec_window_fields(*client) {
            Some((a, t, c, id, n)) => r matches Some(w) && w.address@ == a && w.title@ == t
                && w.class@ == c && w.workspace_id == id && w.workspace_name@ == n
                && w.title_lower@ == spec_to_lowercase(t) && w.class_lower@ == spec_to_lowercase(c)
                && w.workspace_name_lower@ == spec_to_lowercase(n),
            None => r is None,
        },
{
    let address = match field_str(client, "address") {
        Some(s) => s,
        None => {
            return None;
        },
    };
    let title = match field_str(client, "title") {
        Some(s) => s,
        None => {
            return None;
        },
    };
    let class = match field_str(client, "class") {
        Some(s) => s,
        None => {
            return None;
        },
    };
    let w = match client.get("workspace") {
        Some(w) => w,
        None => {
            return None;
        },
    };
    let workspace_id = match field_i64(w, "id") {
        Some(id) => id,
        None => {
            return None;
        },
    };
    let workspace_name = match field_str(w, "name") {
        Some(n) => n,
        None => String::new(),
    };
    let title_lower = to_lowercase(title.as_str());
    let class_lower = to_lowercase(class.as_str());
    let workspace_name_lower = to_lowercase(workspace_name.as_str());
    Some(
        WindowInfo {
            address,
            title,
            class,
            workspace_id,
            workspace_name,
            title_lower,
            class_lower,
            workspace_name_lower,
        },
    )
}

/// How well a window matches a lower-cased query: 3 for its title, else 2 for
/// its class, else 1 for its workspace name or id, else 0 (no match).
pub open spec fn spec_match_tier(
    title_lower: Seq<char>,
    class_lower: Seq<char>,
    workspace_name_lower: Seq<char>,
    workspace_id: i64,
    query_lower: Seq<char>,
) -> u8 {
    if spec_contains(title_lower, query_lower) {
        3
    } else if spec_contains(class_lower, query_lower) {
        2
    } else if spec_contains(workspace_name_lower, query_lower) || spec_contains(
        spec_decimal_signed(workspace_id as int),
        query_lower,
    ) {
        1
    } else {
        0
    }
}

pub fn match_tier(window: &WindowInfo, query_lower: &str) -> (r: u8)
    ensures
        r == spec_match_tier(
            window.title_lower@,
            window.class_lower@,
            window.workspace_name_lower@,
            window.workspace_id,
            query_lower@,
        ),
{
    let t = chars_vec(window.title_lower.as_str());
    if contains(&t, query_lower) {
        return 3;
    }
    let c = chars_vec(window.class_lower.as_str());
    if contains(&c, query_lower) {
        return 2;
    }
    let n = chars_vec(window.workspace_name_lower.as_str());
    let id = decimal_signed(window.workspace_id);
    if contains(&n, query_lower) || contains(&id, query_lower) {
        1
    } else {
        0
    }
}

/// The window fields of each well-formed entry of a `j/clients` array, in
/// order; entries missing a field are skipped.
pub open spec fn spec_client_windows(clients: Seq<JsonValue>) -> Seq<(Seq<char>, Seq<char>, Seq<char>, i64, Seq<char>)>
    decreases clients.len(),
{
    if clients.len() == 0 {
        Seq::empty()
    } else {
        let rest = spec_client_windows(clients.drop_last());
        match spec_window_fields(clients.last()) {
            Some(f) => rest.push(f),
            None => rest,
        }
    }
}

pub open spec fn spec_window_view(w: WindowInfo) -> (Seq<char>, Seq<char>, Seq<char>, i64, Seq<char>) {
    (w.address@, w.title@, w.class@, w.workspace_id, w.workspace_name@)
}

/// The lower-cased copies a window carries agree with its fields.
pub open spec fn spec_window_lowered(w: WindowInfo) -> bool {
    &&& w.title_lower@ == spec_to_lowercase(w.title@)
    &&& w.class_lower@ == spec_to_lowercase(w.class@)
    &&& w.workspace_name_lower@ == spec_to_lowercase(w.workspace_name@)
}

/// The windows of a `j/clients` reply: none unless it is an array.
pub fn parse_windows(reply: &JsonValue) -> (r: Vec<WindowInfo>)
    ensures
        r@.map_values(|w: WindowInfo| spec_window_view(w)) == match reply.spec_as_array() {
            Some(clients) => spec_client_windows(clients),
            None => Seq::empty(),
        },
        forall|i: int| 0 <= i < r@.len() ==> spec_window_lowered(#[trigger] r@[i]),
{
    let mut out: Vec<WindowInfo> = Vec::new();
    let clients = match reply.as_array() {
        Some(c) => c,
        None => {
            assert(out@.map_values(|w: WindowInfo| spec_window_view(w)) =~= Seq::empty());
            return out;
        },
    };
    let mut i: usize = 0;
    while i < clients.len()
        invariant
            i <= clients@.len(),
            out@.map_values(|w: WindowInfo| spec_window_view(w)) == spec_client_windows(clients@.take(i as int)),
            forall|k: int| 0 <= k < out@.len() ==> spec_window_lowered(#[trigger] out@[k]),
        decreases clients@.len() - i,
    {
        assert(clients@.take(i + 1).drop_last() =~= clients@.take(i as int));
        assert(clients@.take(i + 1).last() == clients@[i as int]);
        let ghost before = out@.map_values(|w: WindowInfo| spec_window_view(w));
        match window_from_client(&clients[i]) {
            Some(w) => {
                out.push(w);
                assert(out@.map_values(|w: WindowInfo| spec_window_view(w)) =~= before.push(
                    spec_window_view(out@.last()),
                ));
            },
            None => {},
        }
        i += 1;
    }
    assert(clients@.take(clients@.len() as int) =~= clients@);
    out
}

/// The tier of window `w` for the lower-cased query `ql`.
pub open spec fn spec_window_tier(w: WindowInfo, ql: Seq<char>) -> u8 {
    spec_match_tier(w.title_lower@, w.class_lower@, w.workspace_name_lower@, w.workspace_id, ql)
}

/// The positions of the windows in tier `t`, in order.
pub open spec fn spec_tier_positions(ws: Seq<WindowInfo>, ql: Seq<char>, t: u8) -> Seq<int>
    decreases ws.len(),
{
    if ws.len() == 0 {
        Seq::empty()
    } else {
        let rest = spec_tier_positions(ws.drop_last(), ql, t);
        if spec_window_tier(ws.last(), ql) == t {
            rest.push(ws.len() - 1)
        } else {
            rest
        }
    }
}

/// The positions a window search returns: title matches, then class
/// matches, then workspace matches, each group in window order (the stable
/// sort by descending score), at most `limit` of them.
pub open spec fn spec_window_search(ws: Seq<WindowInfo>, ql: Seq<char>, limit: Option<usize>) -> Seq<int> {
    let all = spec_tier_positions(ws, ql, 3) + spec_tier_positions(ws, ql, 2) + spec_tier_positions(ws, ql, 1);
    match limit {
        Some(l) => if all.len() <= l { all } else { all.take(l as int) },
        None => all,
    }
}

fn push_tier(windows: &Vec<WindowInfo>, ql: &str, t: u8, out: &mut Vec<usize>)
    ensures
        final(out)@.map_values(|p: usize| p as int) == old(out)@.map_values(|p: usize| p as int) + spec_tier_positions(windows@, ql@, t),
{
    let ghost start = out@.map_values(|p: usize| p as int);
    let mut i: usize = 0;
    while i < windows.len()
        invariant
            i <= windows@.len(),
            out@.map_values(|p: usize| p as int) == start + spec_tier_positions(windows@.take(i as int), ql@, t),
        decreases windows@.len() - i,
    {
        assert(windows@.take(i + 1).drop_last() =~= windows@.take(i as int));
        assert(windows@.take(i + 1).last() == windows@[i as int]);
        let ghost before = out@.map_values(|p: usize| p as int);
        if match_tier(&windows[i], ql) == t {
            out.push(i);
            assert(out@.map_values(|p: usize| p as int) =~= before.push(i as int));
        }
        i += 1;
    }
    assert(windows@.take(windows@.len() as int) =~= windows@);
}

/// The positions of the windows a query `query` finds, best first.
pub fn search_windows(windows: &Vec<WindowInfo>, query: &str, limit: Option<usize>) -> (r: Vec<usize>)
    ensures
        r@.map_values(|p: usize| p as int) == spec_window_search(windows@, spec_to_lowercase(query@), limit),
{
    let ql = to_lowercase(query);
    let mut out: Vec<usize> = Vec::new();
    assert(out@.map_values(|p: usize| p as int) =~= Seq::<int>::empty());
    push_tier(windows, ql.as_str(), 3, &mut out);
    push_tier(windows, ql.as_str(), 2, &mut out);
    push_tier(windows, ql.as_str(), 1, &mut out);
    let ghost all = out@.map_values(|p: usize| p as int);
    assert(all =~= spec_tier_positions(windows@, ql@, 3) + spec_tier_positions(windows@, ql@, 2) + spec_tier_positions(windows@, ql@, 1));
    match limit {
        Some(l) => {
            if out.len() > l {
                out.truncate(l);
                assert(out@.map_values(|p: usize| p as int) =~= all.take(l as int));
            }
        },
        None => {},
    }
    out
}

/// The icon names to try for a window `class`, in order: the icon of the
/// desktop entry indexed under the lower-cased class, then the lower-cased
/// class, then the class as given.
pub fn class_icon_candidates(index: &KeyedVec<String>, class: &str) -> (r: Vec<String>)
    ensures
        ({
            let low = spec_to_lowercase(class@);
            let tail = seq![low, class@];
            r@.map_values(|s: String| s@) == if index@.dom().contains(low) {
                seq![index@[low]@] + tail
            } else {
                tail
            }
        }),
{
    let low = to_lowercase(class);
    let mut out: Vec<String> = Vec::new();
    match index.get(low.as_str()) {
        Some(name) => out.push(name.clone()),
        None => {},
    }
    out.push(low);
    out.push(owned(class));
    proof {
        let low = spec_to_lowercase(class@);
        if index@.dom().contains(low) {
            assert(out@.map_values(|s: String| s@) =~= seq![index@[low]@] + seq![low, class@]);
        } else {
            assert(out@.map_values(|s: String| s@) =~= seq![low, class@]);
        }
    }
    out
}

/// `resolve` was asked for `name` and answered `answer`.
pub open spec fn spec_answered<F: Fn(&str) -> Option<String>>(resolve: F, name: Seq<char>, answer: Option<String>) -> bool {
    exists|s: &str| s@ == name && call_ensures(resolve, (s,), answer)
}

/// `r` is the first answer of `resolve` over `cands` asked in order: every
/// earlier candidate answered `None`; `None` when all did.
pub open spec fn spec_first_answer<F: Fn(&str) -> Option<String>>(resolve: F, cands: Seq<Seq<char>>, r: Option<String>) -> bool {
    match r {
        Some(p) => exists|i: int| 0 <= i < cands.len()
            && spec_answered(resolve, cands[i], Some(p))
            && forall|j: int| 0 <= j < i ==> #[trigger] spec_answered(resolve, cands[j], None),
        None => forall|j: int| 0 <= j < cands.len() ==> #[trigger] spec_answered(resolve, cands[j], None),
    }
}

/// The class's icon through `resolve`: the candidates of
/// `class_icon_candidates` are asked in order and the first answer is kept;
/// `None` when every candidate was asked and none resolved.
pub fn resolve_class_icon_with<F: Fn(&str) -> Option<String>>(
    index: &KeyedVec<String>,
    class: &str,
    resolve: F,
) -> (r: Option<String>)
    requires
        forall|s: &str| #[trigger] call_requires(resolve, (s,)),
    ensures
        ({
            let low = spec_to_lowercase(class@);
            let tail = seq![low, class@];
            let cands = if index@.dom().contains(low) { seq![index@[low]@] + tail } else { tail };
            spec_first_answer(resolve, cands, r)
        }),
{
    let cands = class_icon_candidates(index, class);
    let ghost cv = cands@.map_values(|s: String| s@);
    assert(cv == ({
        let low = spec_to_lowercase(class@);
        let tail = seq![low, class@];
        if index@.dom().contains(low) { seq![index@[low]@] + tail } else { tail }
    }));
    let mut i: usize = 0;
    while i < cands.len()
        invariant
            i <= cands@.len(),
            cv == cands@.map_values(|s: String| s@),
            cv == ({
                let low = spec_to_lowercase(class@);
                let tail = seq![low, class@];
                if index@.dom().contains(low) { seq![index@[low]@] + tail } else { tail }
            }),
            forall|s: &str| #[trigger] call_requires(resolve, (s,)),
            forall|j: int| 0 <= j < i ==> #[trigger] spec_answered(resolve, cv[j], None),
        decreases cands@.len() - i,
    {
        let name = cands[i].as_str();
        let found = resolve(name);
        match found {
            Some(p) => {
                assert(name@ == cv[i as int]);
                assert(spec_answered(resolve, cv[i as int], Some(p)));
                let r = Some(p);
                assert(spec_first_answer(resolve, cv, r)) by {
                    assert(0 <= i < cv.len());
                }
                return r;
            },
            None => {
                assert(name@ == cv[i as int]);
                assert(spec_answered(resolve, cv[i as int], None));
            },
        }
        i += 1;
    }
    None
}

/// The class-to-icon index after recording an entry with icon `icon`: its
/// lower-cased file stem when not yet indexed, then its lower-cased
/// `StartupWMClass` always.
pub open spec fn spec_index_step(
    before: Map<Seq<char>, Seq<char>>,
    stem: Option<Seq<char>>,
    wm_class: Option<Seq<char>>,
    icon: Seq<char>,
) -> Map<Seq<char>, Seq<char>> {
    let after_stem = match stem {
        Some(s) => if before.dom().contains(spec_to_lowercase(s)) {
            before
        } else {
            before.insert(spec_to_lowercase(s), icon)
        },
        None => before,
    };
    match wm_class {
        Some(c) => after_stem.insert(spec_to_lowercase(c), icon),
        None => after_stem,
    }
}

/// Record one desktop entry with icon `icon` in the class-to-icon index:
/// its lower-cased file stem only when not yet indexed, its lower-cased
/// `StartupWMClass` always.
pub fn index_desktop_entry(index: &mut KeyedVec<String>, stem: Option<&str>, wm_class: Option<&str>, icon: &str)
    ensures
        final(index)@.map_values(|v: String| v@) == spec_index_step(
            old(index)@.map_values(|v: String| v@),
            match stem { Some(x) => Some(x@), None => None },
            match wm_class { Some(c) => Some(c@), None => None },
            icon@,
        ),
{
    match stem {
        Some(s) => {
            let key = to_lowercase(s);
            if !index.contains_key(key.as_str()) {
                let ghost k = key@;
                index.insert(key, owned(icon));
                assert(index@.map_values(|v: String| v@) =~= old(index)@.map_values(|v: String| v@).insert(k, icon@));
            }
        },
        None => {},
    }
    let ghost mid = index@;
    match wm_class {
        Some(c) => {
            index.insert(to_lowercase(c), owned(icon));
            assert(index@.map_values(|v: String| v@) =~= mid.map_values(|v: String| v@).insert(
                spec_to_lowercase(c@),
                icon@,
            ));
        },
        None => {},
    }
}

/// The focus command a `hyprland_focus` payload asks for and the message
/// reported once it ran; a payload without a string `address` is an invalid
/// query.
pub fn focus_request(payload: &JsonValue) -> (r: Result<(String, String), DomainError>)
    ensures
        match spec_field_str(*payload, "address"@) {
            Some(a) => r is Ok && r->Ok_0.0@ == "dispatch focuswindow address:"@ + a
                && r->Ok_0.1@ == "Focused window "@ + a,
            None => r is Err && r->Err_0 == DomainError::InvalidQuery(r->Err_0->InvalidQuery_0)
                && r->Err_0->InvalidQuery_0@ == "missing address in payload"@,
        },
{
    match field_str(payload, "address") {
        Some(a) => Ok((focus_command(a.as_str()), concat("Focused window ", a.as_str()))),
        None => Err(DomainError::InvalidQuery(owned("missing address in payload"))),
    }
}

/// A JSON integer as serde models it: non-negative values are unsigned.
pub open spec fn spec_json_int(n: i64) -> JsonValue {
    if n >= 0 { JsonValue::UInt(n as u64) } else { JsonValue::Int(n) }
}

/// `v` is the object member `key: Str(text)`.
pub open spec fn spec_str_member(m: (String, JsonValue), key: Seq<char>, text: Seq<char>) -> bool {
    m.0@ == key && (m.1 matches JsonValue::Str(t) && t@ == text)
}

/// `v` is the snapshot entry of window `w`: address, class, title,
/// workspace id and workspace name, in that order.
pub open spec fn spec_is_window_entry(v: JsonValue, w: WindowInfo) -> bool {
    v matches JsonValue::Object(fs) && fs@.len() == 5
        && spec_str_member(fs@[0], "address"@, w.address@)
        && spec_str_member(fs@[1], "class"@, w.class@)
        && spec_str_member(fs@[2], "title"@, w.title@)
        && fs@[3].0@ == "workspace_id"@ && fs@[3].1 == spec_json_int(w.workspace_id)
        && spec_str_member(fs@[4], "workspace_name"@, w.workspace_name@)
}

fn str_member(key: &str, text: &String) -> (r: (String, JsonValue))
    ensures
        spec_str_member(r, key@, text@),
{
    (owned(key), JsonValue::Str(text.clone()))
}

/// The window list a kill menu shows: `{"windows": [entry, ...]}`, one entry
/// per window in order (an empty list when the compositor could not be asked).
pub fn windows_snapshot(windows: &Vec<WindowInfo>) -> (r: JsonValue)
    ensures
        r matches JsonValue::Object(fs) && fs@.len() == 1 && fs@[0].0@ == "windows"@
            && (fs@[0].1 matches JsonValue::Array(items) && items@.len() == windows@.len()
            && forall|i: int| 0 <= i < items@.len() ==> spec_is_window_entry(#[trigger] items@[i], windows@[i])),
{
    let mut items: Vec<JsonValue> = Vec::new();
    let mut i: usize = 0;
    while i < windows.len()
        invariant
            i <= windows@.len(),
            items@.len() == i,
            forall|k: int| 0 <= k < i ==> spec_is_window_entry(#[trigger] items@[k], windows@[k]),
        decreases windows@.len() - i,
    {
        let w = &windows[i];
        let id = if w.workspace_id >= 0 {
            JsonValue::UInt(w.workspace_id as u64)
        } else {
            JsonValue::Int(w.workspace_id)
        };
        let mut fs: Vec<(String, JsonValue)> = Vec::new();
        fs.push(str_member("address", &w.address));
        fs.push(str_member("class", &w.class));
        fs.push(str_member("title", &w.title));
        fs.push((owned("workspace_id"), id));
        fs.push(str_member("workspace_name", &w.workspace_name));
        items.push(JsonValue::Object(fs));
        i += 1;
    }
    let mut top: Vec<(String, JsonValue)> = Vec::new();
    top.push((owned("windows"), JsonValue::Array(items)));
    JsonValue::Object(top)
}

/// The compositor command that focuses a window.
pub fn focus_command(address: &str) -> (r: String)
    ensures
        r@ == "dispatch focuswindow address:"@ + address@,
{
    concat("dispatch focuswindow address:", address)
}

// ---------------------------------------------------------------------------
// Per-monitor active window.
// ---------------------------------------------------------------------------

/// What one monitor shows: its active window and workspace.
#[derive(Debug)]
pub struct ActiveWindowState {
    pub class: String,
    pub title: String,
    pub workspace_name: String,
    pub workspace_id: i64,
}

pub struct ActiveWindowView {
    pub class: Seq<char>,
    pub title: Seq<char>,
    pub workspace_name: Seq<char>,
    pub workspace_id: i64,
}

impl View for ActiveWindowState {
    type V = ActiveWindowView;

    open spec fn view(&self) -> ActiveWindowView {
        ActiveWindowView {
            class: self.class@,
            title: self.title@,
            workspace_name: self.workspace_name@,
            workspace_id: self.workspace_id,
        }
    }
}

pub open spec fn spec_default_window() -> ActiveWindowView {
    ActiveWindowView {
        class: Seq::empty(),
        title: Seq::empty(),
        workspace_name: Seq::empty(),
        workspace_id: 0,
    }
}

impl ActiveWindowState {
    pub fn default_state() -> (r: ActiveWindowState)
        ensures
            r@ == spec_default_window(),
    {
        let r = ActiveWindowState {
            class: String::new(),
            title: String::new(),
            workspace_name: String::new(),
            workspace_id: 0,
        };
        assert(r@ == spec_default_window());
        r
    }

    fn copy(&self) -> (r: ActiveWindowState)
        ensures
            r@ == self@,
    {
        ActiveWindowState {
            class: self.class.clone(),
            title: self.title.clone(),
            workspace_name: self.workspace_name.clone(),
            workspace_id: self.workspace_id,
        }
    }
}

/// A compositor event.
#[derive(Debug)]
pub enum HyprlandEvent {
    FocusedMon { monitor: String, workspace: String },
    MonitorAdded { monitor: String },
    MonitorRemoved { monitor: String },
    ActiveWindow { class: String, title: String },
    Workspace { name: String },
}

/// The active window of every monitor and which monitor has focus.
pub struct MonitorActiveWindowState {
    pub monitors: KeyedVec<ActiveWindowState>,
    pub focused_monitor: Option<String>,
}

pub open spec fn window_views(m: Map<Seq<char>, ActiveWindowState>) -> Map<Seq<char>, ActiveWindowView> {
    m.map_values(|w: ActiveWindowState| w@)
}

pub open spec fn opt_str(o: Option<String>) -> Option<Seq<char>> {
    match o {
        Some(s) => Some(s@),
        None => None,
    }
}

/// The monitors' windows after updating the entry of `name` (created with
/// defaults when absent) by `f`.
pub open spec fn spec_update_entry(
    m: Map<Seq<char>, ActiveWindowView>,
    name: Seq<char>,
    f: spec_fn(ActiveWindowView) -> ActiveWindowView,
) -> Map<Seq<char>, ActiveWindowView> {
    let old = if m.dom().contains(name) {
        m[name]
    } else {
        spec_default_window()
    };
    m.insert(name, f(old))
}

/// The workspace id a workspace name stands for (`0` when it is not a number).
pub open spec fn spec_workspace_id(name: Seq<char>) -> i64 {
    match spec_parse_i64(name) {
        Some(n) => n as i64,
        None => 0,
    }
}

/// The state after an event, as (monitors, focused monitor):
/// - focusing a monitor creates its entry if needed and focuses it;
/// - adding a monitor creates its entry if needed;
/// - removing a monitor drops its entry, and the focus when it had it;
/// - an active-window change updates the focused monitor's class and title;
/// - a workspace change sets the focused monitor's workspace name and id;
/// the last two do nothing without a focused monitor.
pub open spec fn spec_apply_event(
    m: Map<Seq<char>, ActiveWindowView>,
    focused: Option<Seq<char>>,
    ev: HyprlandEvent,
) -> (Map<Seq<char>, ActiveWindowView>, Option<Seq<char>>) {
    match ev {
        HyprlandEvent::FocusedMon { monitor, .. } => (
            spec_update_entry(m, monitor@, |w: ActiveWindowView| w),
            Some(monitor@),
        ),
        HyprlandEvent::MonitorAdded { monitor } => (
            spec_update_entry(m, monitor@, |w: ActiveWindowView| w),
            focused,
        ),
        HyprlandEvent::MonitorRemoved { monitor } => (
            m.remove(monitor@),
            if focused == Some(monitor@) {
                None
            } else {
                focused
            },
        ),
        HyprlandEvent::ActiveWindow { class, title } => match focused {
            Some(f) => (
                spec_update_entry(
                    m,
                    f,
                    |w: ActiveWindowView| ActiveWindowView { class: class@, title: title@, ..w },
                ),
                focused,
            ),
            None => (m, focused),
        },
        HyprlandEvent::Workspace { name } => match focused {
            Some(f) => (
                spec_update_entry(
                    m,
                    f,
                    |w: ActiveWindowView|
                        ActiveWindowView {
                            workspace_name: name@,
                            workspace_id: spec_workspace_id(name@),
                            ..w
                        },
                ),
                focused,
            ),
            None => (m, focused),
        },
    }
}

impl MonitorActiveWindowState {
    pub fn new() -> (r: MonitorActiveWindowState)
        ensures
            r.monitors@.len() == 0,
            r.focused_monitor is None,
    {
        MonitorActiveWindowState { monitors: KeyedVec::new(), focused_monitor: None }
    }

    fn entry_or_default(&self, name: &str) -> (r: ActiveWindowState)
        ensures
            r@ == if self.monitors@.dom().contains(name@) {
                self.monitors@[name@]@
            } else {
                spec_default_window()
            },
    {
        match self.monitors.get(name) {
            Some(w) => w.copy(),
            None => ActiveWindowState::default_state(),
        }
    }

    /// Apply one compositor event.
    pub fn apply_event(&mut self, ev: HyprlandEvent)
        ensures
            (window_views(final(self).monitors@), opt_str(final(self).focused_monitor))
                == spec_apply_event(
                window_views(old(self).monitors@),
                opt_str(old(self).focused_monitor),
                ev,
            ),
    {
        let ghost m0 = window_views(self.monitors@);
        let ghost ev0 = ev;
        match ev {
            HyprlandEvent::FocusedMon { monitor, .. } => {
                let w = self.entry_or_default(monitor.as_str());
                let ghost wv = w@;
                let key = monitor.clone();
                self.monitors.insert(key, w);
                self.focused_monitor = Some(monitor);
                assert(window_views(self.monitors@) =~= m0.insert(monitor@, wv));
            },
            HyprlandEvent::MonitorAdded { monitor } => {
                let w = self.entry_or_default(monitor.as_str());
                let ghost wv = w@;
                let ghost k = monitor@;
                self.monitors.insert(monitor, w);
                assert(window_views(self.monitors@) =~= m0.insert(k, wv));
            },
            HyprlandEvent::MonitorRemoved { monitor } => {
                let _ = self.monitors.remove(monitor.as_str());
                assert(window_views(self.monitors@) =~= m0.remove(monitor@));
                let clear = match &self.focused_monitor {
                    Some(f) => crate::text::str_eq(f.as_str(), monitor.as_str()),
                    None => false,
                };
                if clear {
                    self.focused_monitor = None;
                }
            },
            HyprlandEvent::ActiveWindow { class, title } => {
                match &self.focused_monitor {
                    Some(f) => {
                        let name = f.clone();
                        let old = self.entry_or_default(name.as_str());
                        let ghost ov = old@;
                        let w = ActiveWindowState {
                            class,
                            title,
                            workspace_name: old.workspace_name,
                            workspace_id: old.workspace_id,
                        };
                        let ghost wv = w@;
                        let ghost k = name@;
                        self.monitors.insert(name, w);
                        assert(window_views(self.monitors@) =~= m0.insert(k, wv));
                    },
                    None => {},
                }
            },
            HyprlandEvent::Workspace { name } => {
                match &self.focused_monitor {
                    Some(f) => {
                        let mname = f.clone();
                        let old = self.entry_or_default(mname.as_str());
                        let v = chars_vec(name.as_str());
                        let id = match parse_i64(&v) {
                            Some(n) => n,
                            None => 0,
                        };
                        let w = ActiveWindowState {
                            class: old.class,
                            title: old.title,
                            workspace_name: name,
                            workspace_id: id,
                        };
                        let ghost wv = w@;
                        let ghost k = mname@;
                        self.monitors.insert(mname, w);
                        assert(window_views(self.monitors@) =~= m0.insert(k, wv));
                    },
                    None => {},
                }
            },
        }
    }
}

/// Every compositor event is idempotent: delivering it twice leaves the same
/// state as delivering it once.
pub proof fn law_apply_event_idempotent(
    m: Map<Seq<char>, ActiveWindowView>,
    focused: Option<Seq<char>>,
    ev: HyprlandEvent,
)
    ensures
        ({
            let (m1, f1) = spec_apply_event(m, focused, ev);
            spec_apply_event(m1, f1, ev) == (m1, f1)
        }),
{
    let (m1, f1) = spec_apply_event(m, focused, ev);
    let (m2, f2) = spec_apply_event(m1, f1, ev);
    assert(m2 =~= m1);
}

/// Adding a monitor that is already known keeps its state; removing a
/// monitor forgets it and leaves every other monitor as it was.
pub proof fn law_monitor_add_remove(
    m: Map<Seq<char>, ActiveWindowView>,
    focused: Option<Seq<char>>,
    monitor: String,
    other: Seq<char>,
)
    ensures
        m.dom().contains(monitor@) ==> spec_apply_event(m, focused, HyprlandEvent::MonitorAdded { monitor }).0 == m,
        !spec_apply_event(m, focused, HyprlandEvent::MonitorRemoved { monitor }).0.dom().contains(monitor@),
        other != monitor@ ==> (spec_apply_event(m, focused, HyprlandEvent::MonitorRemoved { monitor }).0.dom().contains(other)
            <==> m.dom().contains(other)),
        other != monitor@ && m.dom().contains(other) ==> spec_apply_event(m, focused, HyprlandEvent::MonitorRemoved { monitor }).0[other] == m[other],
{
    if m.dom().contains(monitor@) {
        assert(spec_apply_event(m, focused, HyprlandEvent::MonitorAdded { monitor }).0 =~= m);
    }
}

/// Record the desktop entry file at `path` (found decodable) in the
/// class-to-icon index; an entry without an `Icon=` adds nothing.
pub fn index_desktop_file(index: &mut KeyedVec<String>, path: &str, content: &str)
    requires
        spec_desktop_decodable(content@),
    ensures
        !spec_names_gettext_domain(content@) ==> final(index)@.map_values(|v: String| v@) == match spec_decoded_desktop_entry(path@, content@) {
            Some((appid, _, _, _, _, Some(icon), wm_class)) => spec_index_step(
                old(index)@.map_values(|v: String| v@),
                Some(appid),
                wm_class,
                icon,
            ),
            _ => old(index)@.map_values(|v: String| v@),
        },
{
    let f = match read_desktop_entry(path, content) {
        Some(f) => f,
        None => return,
    };
    let icon = match &f.icon {
        Some(i) => i,
        None => return,
    };
    let wm = match &f.startup_wm_class {
        Some(c) => Some(c.as_str()),
        None => None,
    };
    index_desktop_entry(index, Some(f.appid.as_str()), wm, icon.as_str());
}

// ---------------------------------------------------------------------------
// Broadcasting only changes.
// ---------------------------------------------------------------------------

fn same_window(a: &ActiveWindowState, b: &ActiveWindowState) -> (r: bool)
    ensures
        r == (a@ == b@),
{
    str_eq(a.class.as_str(), b.class.as_str()) && str_eq(a.title.as_str(), b.title.as_str())
        && str_eq(a.workspace_name.as_str(), b.workspace_name.as_str()) && a.workspace_id == b.workspace_id
}

fn copy_window(w: &ActiveWindowState) -> (r: ActiveWindowState)
    ensures
        r@ == w@,
{
    ActiveWindowState {
        class: w.class.clone(),
        title: w.title.clone(),
        workspace_name: w.workspace_name.clone(),
        workspace_id: w.workspace_id,
    }
}

impl MonitorActiveWindowState {
    /// What the state denotes: each monitor's window and the focused monitor.
    pub open spec fn spec_state(&self) -> (Map<Seq<char>, ActiveWindowView>, Option<Seq<char>>) {
        (window_views(self.monitors@), opt_str(self.focused_monitor))
    }

    /// Whether two states denote the same monitors, windows and focus.
    pub fn same_state(&self, other: &MonitorActiveWindowState) -> (r: bool)
        ensures
            r == (self.spec_state() == other.spec_state()),
    {
        let focus_same = match (&self.focused_monitor, &other.focused_monitor) {
            (Some(a), Some(b)) => str_eq(a.as_str(), b.as_str()),
            (None, None) => true,
            _ => false,
        };
        if !focus_same {
            return false;
        }
        let entries = self.monitors.entries();
        let n = self.monitors.len();
        let m = other.monitors.len();
        if n != m {
            proof {
                if window_views(self.monitors@) == window_views(other.monitors@) {
                    assert(self.monitors@.dom() =~= window_views(self.monitors@).dom());
                    assert(other.monitors@.dom() =~= window_views(other.monitors@).dom());
                }
            }
            return false;
        }
        let mut i: usize = 0;
        while i < entries.len()
            invariant
                i <= entries@.len(),
                crate::keyed::spec_entries_map(entries@) == self.monitors@,
                crate::keyed::spec_keys_unique(entries@),
                forall|j: int| 0 <= j < i ==> other.monitors@.dom().contains(#[trigger] entries@[j].0@)
                    && other.monitors@[entries@[j].0@]@ == entries@[j].1@,
            decreases entries@.len() - i,
        {
            match other.monitors.get(entries[i].0.as_str()) {
                Some(w) => {
                    if !same_window(&entries[i].1, w) {
                        proof {
                            lemma_entry_value(entries@, i as int);
                            assert(window_views(self.monitors@)[entries@[i as int].0@] != window_views(other.monitors@)[entries@[i as int].0@]);
                        }
                        return false;
                    }
                },
                None => {
                    proof {
                        lemma_entry_value(entries@, i as int);
                        assert(!window_views(other.monitors@).dom().contains(entries@[i as int].0@));
                    }
                    return false;
                },
            }
            i += 1;
        }
        proof {
            let a = self.monitors@;
            let b = other.monitors@;
            assert(a.dom().subset_of(b.dom())) by {
                assert forall|k: Seq<char>| a.dom().contains(k) implies b.dom().contains(k) by {
                    lemma_entries_dom(entries@, k);
                    let j = choose|j: int| 0 <= j < entries@.len() && (#[trigger] entries@[j]).0@ == k;
                }
            }
            vstd::set_lib::lemma_subset_equality(a.dom(), b.dom());
            assert forall|k: Seq<char>| a.dom().contains(k) implies a[k]@ == b[k]@ by {
                lemma_entries_dom(entries@, k);
                let j = choose|j: int| 0 <= j < entries@.len() && (#[trigger] entries@[j]).0@ == k;
                lemma_entry_value(entries@, j);
            }
            assert(window_views(a) =~= window_views(b));
        }
        true
    }

    /// A copy of the state.
    pub fn copy(&self) -> (r: MonitorActiveWindowState)
        ensures
            r.spec_state() == self.spec_state(),
    {
        let entries = self.monitors.entries();
        let mut monitors: KeyedVec<ActiveWindowState> = KeyedVec::new();
        let mut i: usize = 0;
        while i < entries.len()
            invariant
                i <= entries@.len(),
                crate::keyed::spec_keys_unique(entries@),
                window_views(monitors@) == window_views(crate::keyed::spec_entries_map(entries@.take(i as int))),
            decreases entries@.len() - i,
        {
            assert(entries@.take(i + 1).drop_last() =~= entries@.take(i as int));
            assert(entries@.take(i + 1).last() == entries@[i as int]);
            let ghost before = monitors@;
            let key = entries[i].0.clone();
            let w = copy_window(&entries[i].1);
            let ghost wv = w;
            monitors.insert(key, w);
            assert(crate::keyed::spec_entries_map(entries@.take(i + 1)) == crate::keyed::spec_entries_map(
                entries@.take(i as int),
            ).insert(entries@[i as int].0@, entries@[i as int].1));
            assert(monitors@ == before.insert(entries@[i as int].0@, wv));
            proof {
                let e = crate::keyed::spec_entries_map(entries@.take(i as int));
                let k = entries@[i as int].0@;
                assert(window_views(before) == window_views(e));
                assert forall|x: Seq<char>| #[trigger] before.dom().contains(x) <==> e.dom().contains(x) by {
                    assert(window_views(before).dom().contains(x) == before.dom().contains(x));
                    assert(window_views(e).dom().contains(x) == e.dom().contains(x));
                }
                assert forall|x: Seq<char>| before.dom().contains(x) implies #[trigger] before[x]@ == e[x]@ by {
                    assert(window_views(before)[x] == before[x]@);
                    assert(window_views(e)[x] == e[x]@);
                }
            }
            assert(window_views(monitors@) =~= window_views(crate::keyed::spec_entries_map(entries@.take(i + 1))));
            i += 1;
        }
        assert(entries@.take(entries@.len() as int) =~= entries@);
        let focused_monitor = match &self.focused_monitor {
            Some(f) => Some(f.clone()),
            None => None,
        };
        MonitorActiveWindowState { monitors, focused_monitor }
    }
}

/// Whether a state is broadcast: only when it differs from the last one
/// broadcast (always when there was none).
pub fn state_changed(last: &Option<MonitorActiveWindowState>, candidate: &MonitorActiveWindowState) -> (r: bool)
    ensures
        r == match last {
            Some(l) => l.spec_state() != candidate.spec_state(),
            None => true,
        },
{
    match last {
        Some(l) => !l.same_state(candidate),
        None => true,
    }
}

} // verus!
