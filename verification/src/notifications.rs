//! The notification store: how `Notify` calls and internally raised
//! notifications create, replace and deduplicate entries, what timeout each
//! keeps, and which event each change announces.
use vstd::prelude::*;

use crate::json::{field_str, field_u64, spec_field_str, spec_field_u64, JsonValue};
use crate::text::{chars_vec, concat, decimal, owned, spec_decimal, str_eq, string_of, string_views};

verus! {

/// The auto-dismiss applied when a notification asks for the server default.
pub const DEFAULT_EXPIRE_MS: u64 = 5000;

/// The stored timeout of a D-Bus `expire_timeout` (`0` = never dismiss): a
/// positive value is kept, `0` stays `0`, and `-1` (or any negative value)
/// becomes the default, except for a critical notification, which persists.
pub open spec fn spec_resolve_timeout_ms(expire_timeout: i32, urgency: Seq<char>) -> u64 {
    if expire_timeout > 0 {
        expire_timeout as u64
    } else if expire_timeout == 0 {
        0
    } else if urgency == "critical"@ {
        0
    } else {
        DEFAULT_EXPIRE_MS
    }
}

pub fn resolve_timeout_ms(expire_timeout: i32, urgency: &str) -> (r: u64)
    ensures
        r == spec_resolve_timeout_ms(expire_timeout, urgency@),
{
    if expire_timeout > 0 {
        expire_timeout as u64
    } else if expire_timeout == 0 {
        0
    } else if str_eq(urgency, "critical") {
        0
    } else {
        DEFAULT_EXPIRE_MS
    }
}

/// The flat D-Bus action list `[key1, label1, key2, label2, ...]` as pairs; a
/// trailing unpaired entry is dropped.
pub fn pair_actions(actions: Vec<String>) -> (r: Vec<(String, String)>)
    ensures
        r@.len() == actions@.len() / 2,
        forall|i: int|
            0 <= i < r@.len() ==> (#[trigger] r@[i]).0@ == actions@[2 * i]@ && r@[i].1@
                == actions@[2 * i + 1]@,
{
    let mut pairs: Vec<(String, String)> = Vec::new();
    let mut i: usize = 0;
    while i + 1 < actions.len()
        invariant
            i % 2 == 0,
            i <= actions@.len(),
            pairs@.len() == i / 2,
            forall|k: int|
                0 <= k < pairs@.len() ==> (#[trigger] pairs@[k]).0@ == actions@[2 * k]@
                    && pairs@[k].1@ == actions@[2 * k + 1]@,
        decreases actions@.len() - i,
    {
        pairs.push((actions[i].clone(), actions[i + 1].clone()));
        i += 2;
    }
    pairs
}

/// The urgency name of a D-Bus urgency level: `0` low, `2` critical,
/// anything else (or none) normal.
pub fn urgency_from_level(level: Option<u8>) -> (r: String)
    ensures
        r@ == match level {
            Some(0) => "low"@,
            Some(2) => "critical"@,
            _ => "normal"@,
        },
{
    match level {
        Some(0) => owned("low"),
        Some(2) => owned("critical"),
        _ => owned("normal"),
    }
}

/// One notification.
#[derive(Debug)]
pub struct DbusNotification {
    pub app_name: String,
    pub icon: String,
    pub id: u32,
    pub summary: String,
    pub body: String,
    pub urgency: String,
    pub timeout_ms: u64,
    pub actions: Vec<(String, String)>,
    pub hints: Vec<(String, JsonValue)>,
    /// Raised inside the launcher rather than received over D-Bus.
    pub internal: bool,
}

pub struct NotificationView {
    pub app_name: Seq<char>,
    pub icon: Seq<char>,
    pub id: u32,
    pub summary: Seq<char>,
    pub body: Seq<char>,
    pub urgency: Seq<char>,
    pub timeout_ms: u64,
    pub actions: Seq<(Seq<char>, Seq<char>)>,
    pub hints: Seq<(Seq<char>, JsonValue)>,
    pub internal: bool,
}

pub open spec fn hint_views(s: Seq<(String, JsonValue)>) -> Seq<(Seq<char>, JsonValue)> {
    s.map_values(|p: (String, JsonValue)| (p.0@, p.1))
}

pub open spec fn pair_views(s: Seq<(String, String)>) -> Seq<(Seq<char>, Seq<char>)> {
    s.map_values(|p: (String, String)| (p.0@, p.1@))
}

impl View for DbusNotification {
    type V = NotificationView;

    open spec fn view(&self) -> NotificationView {
        NotificationView {
            app_name: self.app_name@,
            icon: self.icon@,
            id: self.id,
            summary: self.summary@,
            body: self.body@,
            urgency: self.urgency@,
            timeout_ms: self.timeout_ms,
            actions: pair_views(self.actions@),
            hints: hint_views(self.hints@),
            internal: self.internal,
        }
    }
}

/// A change of the store, as announced to subscribers.
#[derive(Debug, Clone, Copy, PartialEq, Eq)]
pub enum NotificationEvent {
    Created { id: u32, timeout_ms: Option<u64> },
    Updated { id: u32 },
    Dismissed { id: u32 },
}

pub open spec fn note_views(s: Seq<DbusNotification>) -> Seq<NotificationView> {
    s.map_values(|n: DbusNotification| n@)
}

/// `i` is the first position holding id `id`.
pub open spec fn spec_first_id(s: Seq<NotificationView>, id: u32, i: int) -> bool {
    0 <= i < s.len() && s[i].id == id && forall|j: int| 0 <= j < i ==> (#[trigger] s[j]).id != id
}

/// `i` is the first internal notification with this app name and summary.
pub open spec fn spec_first_internal(
    s: Seq<NotificationView>,
    app_name: Seq<char>,
    summary: Seq<char>,
    i: int,
) -> bool {
    &&& 0 <= i < s.len()
    &&& s[i].internal && s[i].app_name == app_name && s[i].summary == summary
    &&& forall|j: int|
        0 <= j < i ==> !((#[trigger] s[j]).internal && s[j].app_name == app_name && s[j].summary
            == summary)
}

/// The timeout carried by a creation event: none for a persistent one.
pub open spec fn spec_event_timeout(t: u64) -> Option<u64> {
    if t > 0 {
        Some(t)
    } else {
        None
    }
}

/// The notifications whose id is not `id`, in order.
pub open spec fn spec_without_id(s: Seq<NotificationView>, id: u32) -> Seq<NotificationView> {
    s.filter(|n: NotificationView| n.id != id)
}

/// The largest id among the last id handed out and every id held.
pub open spec fn spec_top_id(s: Seq<NotificationView>, last: u32) -> u32
    decreases s.len(),
{
    if s.len() == 0 {
        last
    } else {
        let m = spec_top_id(s.drop_last(), last);
        if s.last().id > m {
            s.last().id
        } else {
            m
        }
    }
}

/// No id held, and not the last id handed out, exceeds the top id.
pub proof fn lemma_top_id_bounds(s: Seq<NotificationView>, last: u32)
    ensures
        last <= spec_top_id(s, last),
        forall|j: int| 0 <= j < s.len() ==> (#[trigger] s[j]).id <= spec_top_id(s, last),
    decreases s.len(),
{
    if s.len() > 0 {
        lemma_top_id_bounds(s.drop_last(), last);
        assert forall|j: int| 0 <= j < s.len() implies (#[trigger] s[j]).id <= spec_top_id(s, last) by {
            if j < s.len() - 1 {
                assert(s[j] == s.drop_last()[j]);
            }
        }
    }
}

/// Whether an internal notification can be raised without running out of
/// ids: it updates a held one, or an id above every id in use is left.
pub open spec fn spec_internal_fits(
    s: Seq<NotificationView>,
    last: u32,
    app_name: Seq<char>,
    summary: Seq<char>,
) -> bool {
    (exists|i: int| spec_first_internal(s, app_name, summary, i)) || spec_top_id(s, last) < u32::MAX
}

/// What adding an internal notification did: with a held internal
/// notification of the same app name and summary, its body was replaced and
/// its id reported `Updated`; otherwise a new one was appended under an id
/// one above every id in use (so it differs from each of them), which becomes
/// the last id handed out, and reported `Created`.
pub open spec fn spec_internal_post(
    before: Seq<NotificationView>,
    last_before: u32,
    after: Seq<NotificationView>,
    last_after: u32,
    app_name: Seq<char>,
    summary: Seq<char>,
    body: Seq<char>,
    icon: Seq<char>,
    timeout_ms: u64,
    r: (u32, NotificationEvent),
) -> bool {
    if exists|i: int| spec_first_internal(before, app_name, summary, i) {
        exists|i: int|
            spec_first_internal(before, app_name, summary, i) && after == before.update(
                i,
                NotificationView { body: body, ..before[i] },
            ) && r.0 == before[i].id && r.1 == NotificationEvent::Updated { id: before[i].id }
                && last_after == last_before
    } else {
        &&& last_after == spec_top_id(before, last_before) + 1
        &&& r.0 == last_after
        &&& r.0 > 0
        &&& forall|j: int| 0 <= j < before.len() ==> (#[trigger] before[j]).id != r.0
        &&& after == before.push(
            NotificationView {
                app_name: app_name,
                icon: icon,
                id: r.0,
                summary: summary,
                body: body,
                urgency: "normal"@,
                timeout_ms,
                actions: Seq::empty(),
                hints: Seq::empty(),
                internal: true,
            },
        )
        &&& r.1 == NotificationEvent::Created { id: r.0, timeout_ms: Some(timeout_ms) }
    }
}

proof fn lemma_first_internal_exists(s: Seq<NotificationView>, app_name: Seq<char>, summary: Seq<char>, j: int)
    requires
        0 <= j < s.len(),
        s[j].internal && s[j].app_name == app_name && s[j].summary == summary,
    ensures
        exists|i: int| spec_first_internal(s, app_name, summary, i),
    decreases j,
{
    if exists|q: int| 0 <= q < j && (#[trigger] s[q]).internal && s[q].app_name == app_name && s[q].summary == summary {
        let q = choose|q: int| 0 <= q < j && (#[trigger] s[q]).internal && s[q].app_name == app_name && s[q].summary == summary;
        lemma_first_internal_exists(s, app_name, summary, q);
    } else {
        assert(spec_first_internal(s, app_name, summary, j));
    }
}

/// Raising the same internal notification twice keeps one entry: the second
/// time updates the first in place, under the same id, and the number of
/// notifications does not grow.
pub proof fn law_internal_notification_dedup(
    s0: Seq<NotificationView>,
    l0: u32,
    s1: Seq<NotificationView>,
    l1: u32,
    s2: Seq<NotificationView>,
    l2: u32,
    app_name: Seq<char>,
    summary: Seq<char>,
    body1: Seq<char>,
    body2: Seq<char>,
    icon: Seq<char>,
    timeout_ms: u64,
    r1: (u32, NotificationEvent),
    r2: (u32, NotificationEvent),
)
    requires
        spec_internal_post(s0, l0, s1, l1, app_name, summary, body1, icon, timeout_ms, r1),
        spec_internal_post(s1, l1, s2, l2, app_name, summary, body2, icon, timeout_ms, r2),
    ensures
        s2.len() == s1.len(),
        l2 == l1,
        r2.0 == r1.0,
        r2.1 == (NotificationEvent::Updated { id: r1.0 }),
{
    if exists|i: int| spec_first_internal(s0, app_name, summary, i) {
        let i = choose|i: int|
            spec_first_internal(s0, app_name, summary, i) && s1 == s0.update(
                i,
                NotificationView { body: body1, ..s0[i] },
            ) && r1.0 == s0[i].id && r1.1 == NotificationEvent::Updated { id: s0[i].id } && l1 == l0;
        assert(spec_first_internal(s1, app_name, summary, i)) by {
            assert forall|j: int| 0 <= j < i implies !((#[trigger] s1[j]).internal && s1[j].app_name == app_name
                && s1[j].summary == summary) by {
                assert(s1[j] == s0[j]);
            }
        }
        let k = choose|k: int|
            spec_first_internal(s1, app_name, summary, k) && s2 == s1.update(
                k,
                NotificationView { body: body2, ..s1[k] },
            ) && r2.0 == s1[k].id && r2.1 == NotificationEvent::Updated { id: s1[k].id } && l2 == l1;
        assert(k == i) by {
            if k < i {
                assert(!(s1[k].internal && s1[k].app_name == app_name && s1[k].summary == summary));
            }
            if i < k {
                assert(!(s1[i].internal && s1[i].app_name == app_name && s1[i].summary == summary));
            }
        }
    } else {
        let n = s0.len() as int;
        assert(spec_first_internal(s1, app_name, summary, n)) by {
            assert forall|j: int| 0 <= j < n implies !((#[trigger] s1[j]).internal && s1[j].app_name == app_name
                && s1[j].summary == summary) by {
                assert(s1[j] == s0[j]);
                if s0[j].internal && s0[j].app_name == app_name && s0[j].summary == summary {
                    lemma_first_internal_exists(s0, app_name, summary, j);
                }
            }
        }
        let k = choose|k: int|
            spec_first_internal(s1, app_name, summary, k) && s2 == s1.update(
                k,
                NotificationView { body: body2, ..s1[k] },
            ) && r2.0 == s1[k].id && r2.1 == NotificationEvent::Updated { id: s1[k].id } && l2 == l1;
        assert(k == n) by {
            if k < n {
                assert(s1[k] == s0[k]);
                assert(!(s1[k].internal && s1[k].app_name == app_name && s1[k].summary == summary));
            }
        }
    }
}

/// The notifications held, in arrival order, and the last id handed out.
pub struct NotificationStore {
    items: Vec<DbusNotification>,
    next_id: u32,
}

impl View for NotificationStore {
    type V = Seq<NotificationView>;

    closed spec fn view(&self) -> Seq<NotificationView> {
        note_views(self.items@)
    }
}

impl NotificationStore {
    /// The last id handed out (the next new one is one more).
    pub closed spec fn spec_last_id(&self) -> u32 {
        self.next_id
    }

    pub fn new() -> (r: NotificationStore)
        ensures
            r@.len() == 0,
            r.spec_last_id() == 0,
    {
        let r = NotificationStore { items: Vec::new(), next_id: 0 };
        assert(r@ =~= Seq::<NotificationView>::empty());
        r
    }

    /// The number of notifications held.
    pub fn count(&self) -> (r: usize)
        ensures
            r == self@.len(),
    {
        self.items.len()
    }

    /// The notifications held, in arrival order.
    pub fn items(&self) -> (r: &Vec<DbusNotification>)
        ensures
            note_views(r@) == self@,
    {
        &self.items
    }

    /// The largest id among the last one handed out and those held.
    fn top_id(&self) -> (r: u32)
        ensures
            r == spec_top_id(self@, self.spec_last_id()),
    {
        let mut top = self.next_id;
        let mut i: usize = 0;
        while i < self.items.len()
            invariant
                i <= self.items@.len(),
                self@ == note_views(self.items@),
                top == spec_top_id(self@.take(i as int), self.next_id),
            decreases self.items@.len() - i,
        {
            assert(self@.take(i + 1).drop_last() =~= self@.take(i as int));
            assert(self@.take(i + 1).last() == self.items@[i as int]@);
            if self.items[i].id > top {
                top = self.items[i].id;
            }
            i += 1;
        }
        assert(self@.take(i as int) =~= self@);
        top
    }

    fn position_of_id(&self, id: u32) -> (r: Option<usize>)
        ensures
            match r {
                Some(i) => spec_first_id(self@, id, i as int),
                None => forall|j: int| 0 <= j < self@.len() ==> (#[trigger] self@[j]).id != id,
            },
    {
        let mut i: usize = 0;
        while i < self.items.len()
            invariant
                i <= self.items@.len(),
                self@ == note_views(self.items@),
                forall|j: int| 0 <= j < i ==> (#[trigger] self@[j]).id != id,
            decreases self.items@.len() - i,
        {
            assert(self@[i as int] == self.items@[i as int]@);
            if self.items[i].id == id {
                return Some(i);
            }
            i += 1;
        }
        None
    }

    fn position_of_internal(&self, app_name: &str, summary: &str) -> (r: Option<usize>)
        ensures
            match r {
                Some(i) => spec_first_internal(self@, app_name@, summary@, i as int),
                None => forall|j: int|
                    0 <= j < self@.len() ==> !((#[trigger] self@[j]).internal && self@[j].app_name
                        == app_name@ && self@[j].summary == summary@),
            },
    {
        let mut i: usize = 0;
        while i < self.items.len()
            invariant
                i <= self.items@.len(),
                self@ == note_views(self.items@),
                forall|j: int|
                    0 <= j < i ==> !((#[trigger] self@[j]).internal && self@[j].app_name == app_name@
                        && self@[j].summary == summary@),
            decreases self.items@.len() - i,
        {
            assert(self@[i as int] == self.items@[i as int]@);
            if self.items[i].internal && str_eq(self.items[i].app_name.as_str(), app_name)
                && str_eq(self.items[i].summary.as_str(), summary) {
                return Some(i);
            }
            i += 1;
        }
        None
    }

    /// A `Notify` call. A non-zero `replaces_id` naming a held notification
    /// replaces its content in place (`Updated`); a non-zero one naming none
    /// creates a notification under that id; `0` creates one under the next
    /// id. The stored timeout is `resolve_timeout_ms(expire_timeout, urgency)`;
    /// a replaced notification keeps its hints, a new one has none.
    pub fn apply_notify(
        &mut self,
        app_name: String,
        app_icon: String,
        replaces_id: u32,
        summary: String,
        body: String,
        actions: Vec<(String, String)>,
        expire_timeout: i32,
        urgency: String,
    ) -> (r: (u32, NotificationEvent))
        requires
            replaces_id == 0 ==> old(self).spec_last_id() < u32::MAX,
        ensures
            ({
                let t = spec_resolve_timeout_ms(expire_timeout, urgency@);
                let fresh = |id: u32|
                    NotificationView {
                        app_name: app_name@,
                        icon: app_icon@,
                        id,
                        summary: summary@,
                        body: body@,
                        urgency: urgency@,
                        timeout_ms: t,
                        actions: pair_views(actions@),
                        hints: Seq::empty(),
                        internal: false,
                    };
                if replaces_id != 0 {
                    &&& final(self).spec_last_id() == old(self).spec_last_id()
                    &&& r.0 == replaces_id
                    &&& if exists|i: int| spec_first_id(old(self)@, replaces_id, i) {
                        exists|i: int|
                            spec_first_id(old(self)@, replaces_id, i) && final(self)@
                                == old(self)@.update(
                                i,
                                NotificationView {
                                    internal: old(self)@[i].internal,
                                    hints: old(self)@[i].hints,
                                    ..fresh(replaces_id)
                                },
                            ) && r.1 == NotificationEvent::Updated { id: replaces_id }
                    } else {
                        final(self)@ == old(self)@.push(fresh(replaces_id)) && r.1
                            == NotificationEvent::Created {
                            id: replaces_id,
                            timeout_ms: spec_event_timeout(t),
                        }
                    }
                } else {
                    &&& final(self).spec_last_id() == old(self).spec_last_id() + 1
                    &&& r.0 == final(self).spec_last_id()
                    &&& final(self)@ == old(self)@.push(fresh(r.0))
                    &&& r.1 == NotificationEvent::Created {
                        id: r.0,
                        timeout_ms: spec_event_timeout(t),
                    }
                }
            }),
    {
        let timeout_ms = resolve_timeout_ms(expire_timeout, urgency.as_str());
        let event_timeout = if timeout_ms > 0 {
            Some(timeout_ms)
        } else {
            None
        };
        let ghost s = self@;
        if replaces_id != 0 {
            match self.position_of_id(replaces_id) {
                Some(i) => {
                    let mut items: Vec<DbusNotification> = Vec::new();
                    std::mem::swap(&mut items, &mut self.items);
                    let prev = items.remove(i);
                    let internal = prev.internal;
                    let hints = prev.hints;
                    let n = DbusNotification {
                        app_name,
                        icon: app_icon,
                        id: replaces_id,
                        summary,
                        body,
                        urgency,
                        timeout_ms,
                        actions,
                        hints,
                        internal,
                    };
                    let ghost nv = n@;
                    items.insert(i, n);
                    self.items = items;
                    assert(self@ =~= s.update(i as int, nv));
                    return (replaces_id, NotificationEvent::Updated { id: replaces_id });
                },
                None => {
                    let n = DbusNotification {
                        app_name,
                        icon: app_icon,
                        id: replaces_id,
                        summary,
                        body,
                        urgency,
                        timeout_ms,
                        actions,
                        hints: Vec::new(),
                        internal: false,
                    };
                    assert(hint_views(n.hints@) =~= Seq::<(Seq<char>, JsonValue)>::empty());
                    let ghost nv = n@;
                    self.items.push(n);
                    assert(self@ =~= s.push(nv));
                    return (
                        replaces_id,
                        NotificationEvent::Created { id: replaces_id, timeout_ms: event_timeout },
                    );
                },
            }
        }
        self.next_id = self.next_id + 1;
        let id = self.next_id;
        let n = DbusNotification {
            app_name,
            icon: app_icon,
            id,
            summary,
            body,
            urgency,
            timeout_ms,
            actions,
            hints: Vec::new(),
            internal: false,
        };
        assert(hint_views(n.hints@) =~= Seq::<(Seq<char>, JsonValue)>::empty());
        let ghost nv = n@;
        self.items.push(n);
        assert(self@ =~= s.push(nv));
        (id, NotificationEvent::Created { id, timeout_ms: event_timeout })
    }

    /// A notification raised inside the launcher. One sharing the app name
    /// and summary of a held internal notification replaces that one's body
    /// (`Updated`, same id); otherwise it is added, with normal urgency and no
    /// actions, under the id one above every id in use (the last id handed out
    /// and every id held), so that it never shares an id with a held one.
    pub fn add_internal_notification(
        &mut self,
        app_name: String,
        summary: String,
        body: String,
        icon: Option<String>,
        timeout_ms: u64,
    ) -> (r: (u32, NotificationEvent))
        requires
            spec_internal_fits(old(self)@, old(self).spec_last_id(), app_name@, summary@),
        ensures
            spec_internal_post(
                old(self)@,
                old(self).spec_last_id(),
                final(self)@,
                final(self).spec_last_id(),
                app_name@,
                summary@,
                body@,
                match icon {
                    Some(i) => i@,
                    None => Seq::empty(),
                },
                timeout_ms,
                r,
            ),
    {
        let ghost s = self@;
        match self.position_of_internal(app_name.as_str(), summary.as_str()) {
            Some(pos) => {
                let mut items: Vec<DbusNotification> = Vec::new();
                std::mem::swap(&mut items, &mut self.items);
                let ghost old_n = items@[pos as int]@;
                let id = items[pos].id;
                let mut n = items.remove(pos);
                n.body = body;
                let ghost nv = n@;
                items.insert(pos, n);
                self.items = items;
                assert(nv == NotificationView { body: body@, ..old_n });
                assert(self@ =~= s.update(pos as int, nv));
                (id, NotificationEvent::Updated { id })
            },
            None => {
                let top = self.top_id();
                proof {
                    lemma_top_id_bounds(s, self.next_id);
                    if exists|i: int| spec_first_internal(s, app_name@, summary@, i) {
                        let i = choose|i: int| spec_first_internal(s, app_name@, summary@, i);
                        assert(!(s[i].internal && s[i].app_name == app_name@ && s[i].summary
                            == summary@));
                    }
                }
                self.next_id = top + 1;
                let id = self.next_id;
                let icon_s = match icon {
                    Some(i) => i,
                    None => String::new(),
                };
                let n = DbusNotification {
                    app_name,
                    icon: icon_s,
                    id,
                    summary,
                    body,
                    urgency: owned("normal"),
                    timeout_ms,
                    actions: Vec::new(),
                    hints: Vec::new(),
                    internal: true,
                };
                assert(hint_views(n.hints@) =~= Seq::<(Seq<char>, JsonValue)>::empty());
                let ghost nv = n@;
                assert(pair_views(n.actions@) =~= Seq::<(Seq<char>, Seq<char>)>::empty());
                self.items.push(n);
                assert(self@ =~= s.push(nv));
                (id, NotificationEvent::Created { id, timeout_ms: Some(timeout_ms) })
            },
        }
    }

    /// Remove every notification with `id` (the others stay in order).
    pub fn dismiss(&mut self, id: u32) -> (r: NotificationEvent)
        ensures
            final(self)@ == spec_without_id(old(self)@, id),
            final(self).spec_last_id() == old(self).spec_last_id(),
            r == (NotificationEvent::Dismissed { id }),
    {
        let ghost s = self@;
        let ghost keep = |n: NotificationView| n.id != id;
        let mut items: Vec<DbusNotification> = Vec::new();
        std::mem::swap(&mut items, &mut self.items);
        let mut kept: Vec<DbusNotification> = Vec::new();
        proof {
            reveal(Seq::filter);
            assert(s.take(0).filter(keep) =~= Seq::<NotificationView>::empty());
            assert(note_views(kept@) =~= Seq::<NotificationView>::empty());
        }
        let ghost n0 = s.len();
        assert(note_views(items@) =~= s.skip(0));
        while items.len() > 0
            invariant
                keep == (|n: NotificationView| n.id != id),
                n0 == s.len(),
                items@.len() <= n0,
                note_views(items@) == s.skip(n0 - items@.len()),
                note_views(kept@) == s.take(n0 - items@.len()).filter(keep),
            decreases items.len(),
        {
            let ghost k = n0 - items@.len();
            let ghost before = items@;
            let n = items.remove(0);
            proof {
                reveal(Seq::filter);
                assert(note_views(before)[0] == s.skip(k)[0]);
                assert(s[k] == n@);
                assert forall|j: int| 0 <= j < items@.len() implies note_views(items@)[j] == s.skip(
                    k + 1,
                )[j] by {
                    assert(items@[j] == before[j + 1]);
                    assert(note_views(before)[j + 1] == s.skip(k)[j + 1]);
                }
                assert(note_views(items@) =~= s.skip(k + 1));
                assert(s.take(k + 1).drop_last() =~= s.take(k));
                assert(s.take(k + 1).last() == s[k]);
            }
            if n.id != id {
                let ghost prev = note_views(kept@);
                kept.push(n);
                assert(note_views(kept@) =~= prev.push(s[k]));
            }
        }
        assert(s.take(n0 as int) =~= s);
        self.items = kept;
        NotificationEvent::Dismissed { id }
    }
}

/// A `notifications` custom action, read from its payload.
#[derive(Debug)]
pub enum NotificationCommand {
    /// Dismiss the notification with this id.
    Dismiss { id: u32 },
    /// Tell the sender its action `action_key` was chosen, then dismiss it.
    InvokeAction { id: u32, action_key: String },
    /// A malformed or unknown command, which is ignored.
    Ignore,
}

/// What a `notifications` payload asks for: `command` `dismiss` with an
/// unsigned `id`, or `action` with an unsigned `id` and a string
/// `action_key`; ids are cut to 32 bits; anything else is ignored.
pub fn parse_notification_command(payload: &JsonValue) -> (r: NotificationCommand)
    ensures
        match (spec_field_str(*payload, "command"@), spec_field_u64(*payload, "id"@), spec_field_str(*payload, "action_key"@)) {
            (Some(c), Some(id), _) if c == "dismiss"@ => r == (NotificationCommand::Dismiss { id: id as u32 }),
            (Some(c), Some(id), Some(k)) if c == "action"@ => r matches NotificationCommand::InvokeAction { id: i, action_key }
                && i == id as u32 && action_key@ == k,
            _ => r is Ignore,
        },
{
    let command = match field_str(payload, "command") {
        Some(c) => c,
        None => return NotificationCommand::Ignore,
    };
    let id = field_u64(payload, "id");
    if str_eq(command.as_str(), "dismiss") {
        match id {
            Some(id) => NotificationCommand::Dismiss { id: id as u32 },
            None => NotificationCommand::Ignore,
        }
    } else if str_eq(command.as_str(), "action") {
        match (id, field_str(payload, "action_key")) {
            (Some(id), Some(k)) => NotificationCommand::InvokeAction { id: id as u32, action_key: k },
            _ => NotificationCommand::Ignore,
        }
    } else {
        NotificationCommand::Ignore
    }
}

/// The positions of the notifications a search lists: those with a
/// non-empty summary, in arrival order.
pub open spec fn spec_listed(s: Seq<NotificationView>) -> Seq<int>
    decreases s.len(),
{
    if s.len() == 0 {
        Seq::empty()
    } else if s.last().summary.len() > 0 {
        spec_listed(s.drop_last()).push(s.len() - 1)
    } else {
        spec_listed(s.drop_last())
    }
}

/// The positions of the notifications offered as search matches.
pub fn listed_positions(items: &Vec<DbusNotification>) -> (r: Vec<usize>)
    ensures
        r@.map_values(|p: usize| p as int) == spec_listed(note_views(items@)),
{
    let mut out: Vec<usize> = Vec::new();
    let mut i: usize = 0;
    assert(out@.map_values(|p: usize| p as int) =~= Seq::<int>::empty());
    while i < items.len()
        invariant
            i <= items@.len(),
            out@.map_values(|p: usize| p as int) == spec_listed(note_views(items@).take(i as int)),
        decreases items@.len() - i,
    {
        assert(note_views(items@).take(i + 1).drop_last() =~= note_views(items@).take(i as int));
        assert(note_views(items@).take(i + 1).last() == items@[i as int]@);
        let ghost before = out@.map_values(|p: usize| p as int);
        if chars_vec(items[i].summary.as_str()).len() > 0 {
            out.push(i);
            assert(out@.map_values(|p: usize| p as int) =~= before.push(i as int));
        }
        i += 1;
    }
    assert(note_views(items@).take(items@.len() as int) =~= note_views(items@));
    out
}

/// The match id of a notification: `notification-<id>`.
pub fn notification_match_id(id: u32) -> (r: String)
    ensures
        r@ == "notification-"@ + spec_decimal(id as nat),
{
    let d = string_of(&decimal(id as u64));
    concat("notification-", d.as_str())
}

/// `m` is the member `key: Str(text)`.
pub open spec fn spec_str_field(m: (String, JsonValue), key: Seq<char>, text: Seq<char>) -> bool {
    m.0@ == key && (m.1 matches JsonValue::Str(t) && t@ == text)
}

/// `v` is the `[key, label]` array of an action pair.
pub open spec fn spec_pair_json(v: JsonValue, p: (Seq<char>, Seq<char>)) -> bool {
    v matches JsonValue::Array(xs) && xs@.len() == 2 && (xs@[0] matches JsonValue::Str(a) && a@ == p.0)
        && (xs@[1] matches JsonValue::Str(b) && b@ == p.1)
}

/// `v` is the snapshot object of notification `n`: id, app name, summary,
/// body, icon (`null` when empty), urgency, timeout and action pairs.
pub open spec fn spec_note_json(v: JsonValue, n: NotificationView) -> bool {
    v matches JsonValue::Object(fs) && fs@.len() == 8
        && fs@[0].0@ == "id"@ && fs@[0].1 == JsonValue::UInt(n.id as u64)
        && spec_str_field(fs@[1], "app_name"@, n.app_name)
        && spec_str_field(fs@[2], "summary"@, n.summary)
        && spec_str_field(fs@[3], "body"@, n.body)
        && fs@[4].0@ == "icon"@ && (if n.icon.len() == 0 {
            fs@[4].1 is Null
        } else {
            fs@[4].1 matches JsonValue::Str(i) && i@ == n.icon
        })
        && spec_str_field(fs@[5], "urgency"@, n.urgency)
        && fs@[6].0@ == "timeout_ms"@ && fs@[6].1 == JsonValue::UInt(n.timeout_ms)
        && fs@[7].0@ == "actions"@ && (fs@[7].1 matches JsonValue::Array(xs) && xs@.len() == n.actions.len()
            && forall|k: int| 0 <= k < xs@.len() ==> spec_pair_json(#[trigger] xs@[k], n.actions[k]))
}

fn str_field(key: &str, text: &String) -> (r: (String, JsonValue))
    ensures
        spec_str_field(r, key@, text@),
{
    (owned(key), JsonValue::Str(text.clone()))
}

fn note_json(n: &DbusNotification) -> (r: JsonValue)
    ensures
        spec_note_json(r, n@),
{
    let mut pairs: Vec<JsonValue> = Vec::new();
    let mut k: usize = 0;
    while k < n.actions.len()
        invariant
            k <= n.actions@.len(),
            pairs@.len() == k,
            forall|j: int| 0 <= j < k ==> spec_pair_json(#[trigger] pairs@[j], pair_views(n.actions@)[j]),
        decreases n.actions@.len() - k,
    {
        let mut xs: Vec<JsonValue> = Vec::new();
        xs.push(JsonValue::Str(n.actions[k].0.clone()));
        xs.push(JsonValue::Str(n.actions[k].1.clone()));
        pairs.push(JsonValue::Array(xs));
        k += 1;
    }
    let icon = if chars_vec(n.icon.as_str()).len() == 0 {
        JsonValue::Null
    } else {
        JsonValue::Str(n.icon.clone())
    };
    let mut fs: Vec<(String, JsonValue)> = Vec::new();
    fs.push((owned("id"), JsonValue::UInt(n.id as u64)));
    fs.push(str_field("app_name", &n.app_name));
    fs.push(str_field("summary", &n.summary));
    fs.push(str_field("body", &n.body));
    fs.push((owned("icon"), icon));
    fs.push(str_field("urgency", &n.urgency));
    fs.push((owned("timeout_ms"), JsonValue::UInt(n.timeout_ms)));
    fs.push((owned("actions"), JsonValue::Array(pairs)));
    JsonValue::Object(fs)
}

/// The snapshot published to subscribers: one object per notification, in order.
pub fn notifications_snapshot(items: &Vec<DbusNotification>) -> (r: Vec<JsonValue>)
    ensures
        r@.len() == items@.len(),
        forall|i: int| 0 <= i < r@.len() ==> spec_note_json(#[trigger] r@[i], items@[i]@),
{
    let mut out: Vec<JsonValue> = Vec::new();
    let mut i: usize = 0;
    while i < items.len()
        invariant
            i <= items@.len(),
            out@.len() == i,
            forall|j: int| 0 <= j < i ==> spec_note_json(#[trigger] out@[j], items@[j]@),
        decreases items@.len() - i,
    {
        out.push(note_json(&items[i]));
        i += 1;
    }
    out
}

} // verus!
