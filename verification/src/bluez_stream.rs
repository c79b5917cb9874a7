//! The decisions of the BlueZ state feed: how long to wait before
//! reconnecting after a failure, and which rebuilt states are worth
//! publishing (only those that differ from the last one published).
use vstd::prelude::*;

use crate::bluetooth::{BluetoothDevice, BluetoothState};
use crate::text::str_eq;

verus! {

/// Everything a published device carries.
pub open spec fn spec_device_full(d: BluetoothDevice) -> (
    Seq<char>,
    Seq<char>,
    Option<u8>,
    bool,
    bool,
    bool,
    Option<Seq<char>>,
    Option<i16>,
) {
    (
        d.address@,
        d.name@,
        d.battery_percent,
        d.paired,
        d.trusted,
        d.connected,
        match d.icon {
            Some(i) => Some(i@),
            None => None,
        },
        d.rssi,
    )
}

/// Everything a published state carries.
pub open spec fn spec_state_full(s: BluetoothState) -> (
    bool,
    bool,
    bool,
    Seq<(Seq<char>, Seq<char>, Option<u8>, bool, bool, bool, Option<Seq<char>>, Option<i16>)>,
    Seq<char>,
) {
    (
        s.available,
        s.powered,
        s.discovering,
        s.devices@.map_values(|d: BluetoothDevice| spec_device_full(d)),
        s.adapter_path@,
    )
}

fn same_opt_string(a: &Option<String>, b: &Option<String>) -> (r: bool)
    ensures
        r == (match *a {
            Some(x) => Some(x@),
            None => None,
        } == match *b {
            Some(y) => Some(y@),
            None => None,
        }),
{
    match (a, b) {
        (Some(x), Some(y)) => str_eq(x.as_str(), y.as_str()),
        (None, None) => true,
        _ => false,
    }
}

fn same_device(a: &BluetoothDevice, b: &BluetoothDevice) -> (r: bool)
    ensures
        r == (spec_device_full(*a) == spec_device_full(*b)),
{
    str_eq(a.address.as_str(), b.address.as_str()) && str_eq(a.name.as_str(), b.name.as_str())
        && a.battery_percent == b.battery_percent && a.paired == b.paired && a.trusted == b.trusted
        && a.connected == b.connected && same_opt_string(&a.icon, &b.icon) && a.rssi == b.rssi
}

/// Whether two states publish the same thing.
pub fn same_state(a: &BluetoothState, b: &BluetoothState) -> (r: bool)
    ensures
        r == (spec_state_full(*a) == spec_state_full(*b)),
{
    let ghost fa = a.devices@.map_values(|d: BluetoothDevice| spec_device_full(d));
    let ghost fb = b.devices@.map_values(|d: BluetoothDevice| spec_device_full(d));
    if a.available != b.available || a.powered != b.powered || a.discovering != b.discovering
        || !str_eq(a.adapter_path.as_str(), b.adapter_path.as_str()) {
        return false;
    }
    if a.devices.len() != b.devices.len() {
        assert(fa.len() != fb.len());
        return false;
    }
    let mut i: usize = 0;
    while i < a.devices.len()
        invariant
            i <= a.devices.len(),
            a.devices.len() == b.devices.len(),
            fa == a.devices@.map_values(|d: BluetoothDevice| spec_device_full(d)),
            fb == b.devices@.map_values(|d: BluetoothDevice| spec_device_full(d)),
            forall|j: int| 0 <= j < i ==> fa[j] == fb[j],
        decreases a.devices.len() - i,
    {
        if !same_device(&a.devices[i], &b.devices[i]) {
            assert(fa[i as int] != fb[i as int]);
            return false;
        }
        i += 1;
    }
    assert(fa =~= fb);
    true
}

fn copy_opt_string(o: &Option<String>) -> (r: Option<String>)
    ensures
        match *o {
            Some(x) => r is Some && r->0@ == x@,
            None => r is None,
        },
{
    match o {
        Some(s) => Some(s.clone()),
        None => None,
    }
}

fn copy_device(d: &BluetoothDevice) -> (r: BluetoothDevice)
    ensures
        spec_device_full(r) == spec_device_full(*d),
{
    BluetoothDevice {
        address: d.address.clone(),
        name: d.name.clone(),
        battery_percent: d.battery_percent,
        paired: d.paired,
        trusted: d.trusted,
        connected: d.connected,
        icon: copy_opt_string(&d.icon),
        rssi: d.rssi,
    }
}

/// A copy of a state.
pub fn copy_state(s: &BluetoothState) -> (r: BluetoothState)
    ensures
        spec_state_full(r) == spec_state_full(*s),
{
    let ghost fs = s.devices@.map_values(|d: BluetoothDevice| spec_device_full(d));
    let mut devices: Vec<BluetoothDevice> = Vec::new();
    let mut i: usize = 0;
    while i < s.devices.len()
        invariant
            i <= s.devices.len(),
            fs == s.devices@.map_values(|d: BluetoothDevice| spec_device_full(d)),
            devices@.map_values(|d: BluetoothDevice| spec_device_full(d)) == fs.take(i as int),
        decreases s.devices.len() - i,
    {
        let ghost before = devices@;
        devices.push(copy_device(&s.devices[i]));
        assert(devices@.map_values(|d: BluetoothDevice| spec_device_full(d)) =~= before.map_values(
            |d: BluetoothDevice| spec_device_full(d),
        ).push(fs[i as int]));
        assert(fs.take(i + 1) =~= fs.take(i as int).push(fs[i as int]));
        i += 1;
    }
    assert(fs.take(s.devices.len() as int) =~= fs);
    BluetoothState {
        available: s.available,
        powered: s.powered,
        discovering: s.discovering,
        devices,
        adapter_path: s.adapter_path.clone(),
    }
}

/// The longest wait, in seconds, before reconnecting.
pub const MAX_BACKOFF_SECS: u64 = 30;

/// The reconnect wait and the last state published.
pub struct BluezFeed {
    pub backoff_secs: u64,
    pub last_emitted: Option<BluetoothState>,
}

/// The wait after a failure that waited `backoff`: doubled, at most the
/// longest wait.
pub open spec fn spec_next_backoff(backoff: u64) -> u64 {
    if 2 * backoff < MAX_BACKOFF_SECS {
        (2 * backoff) as u64
    } else {
        MAX_BACKOFF_SECS
    }
}

/// Whether a rebuilt state `candidate` is published after `last`: only when
/// nothing was published yet or it differs from what was.
pub open spec fn spec_publishes(last: Option<BluetoothState>, candidate: BluetoothState) -> bool {
    match last {
        Some(l) => spec_state_full(l) != spec_state_full(candidate),
        None => true,
    }
}

impl BluezFeed {
    /// The waits stay between one second and the longest wait.
    pub open spec fn wf(&self) -> bool {
        1 <= self.backoff_secs <= MAX_BACKOFF_SECS
    }

    /// A feed that waits one second after its first failure and has
    /// published nothing.
    pub fn new() -> (r: BluezFeed)
        ensures
            r.wf(),
            r.backoff_secs == 1,
            r.last_emitted is None,
    {
        BluezFeed { backoff_secs: 1, last_emitted: None }
    }

    /// A failure (connecting, subscribing or reading): the wait before
    /// reconnecting, which doubles (up to the longest wait) for the next one.
    pub fn failed(&mut self) -> (r: u64)
        requires
            old(self).wf(),
        ensures
            final(self).wf(),
            r == old(self).backoff_secs,
            final(self).backoff_secs == spec_next_backoff(old(self).backoff_secs),
            final(self).last_emitted == old(self).last_emitted,
    {
        let wait = self.backoff_secs;
        let doubled = self.backoff_secs * 2;
        self.backoff_secs = if doubled < MAX_BACKOFF_SECS {
            doubled
        } else {
            MAX_BACKOFF_SECS
        };
        wait
    }

    /// Both change subscriptions are open: the wait starts over at one
    /// second.
    pub fn subscribed(&mut self)
        ensures
            final(self).wf(),
            final(self).backoff_secs == 1,
            final(self).last_emitted == old(self).last_emitted,
    {
        self.backoff_secs = 1;
    }

    /// A rebuilt state: it is returned for publishing, and remembered, when it
    /// differs from the last state published; otherwise nothing is published.
    pub fn rebuilt(&mut self, state: BluetoothState) -> (r: Option<BluetoothState>)
        ensures
            final(self).backoff_secs == old(self).backoff_secs,
            spec_publishes(old(self).last_emitted, state) ==> r == Some(state)
                && final(self).last_emitted is Some && spec_state_full(
                final(self).last_emitted->0,
            ) == spec_state_full(state),
            !spec_publishes(old(self).last_emitted, state) ==> r is None
                && final(self).last_emitted == old(self).last_emitted,
    {
        let publish = match &self.last_emitted {
            Some(last) => !same_state(last, &state),
            None => true,
        };
        if publish {
            self.last_emitted = Some(copy_state(&state));
            Some(state)
        } else {
            None
        }
    }
}

/// A state just published is not published again: after a rebuild publishes
/// `s`, a rebuild with the same state publishes nothing.
pub proof fn law_same_state_published_once(last: BluetoothState, s: BluetoothState)
    requires
        spec_state_full(last) == spec_state_full(s),
    ensures
        !spec_publishes(Some(last), s),
{
}

/// The reconnect wait never leaves one to thirty seconds, however many
/// failures come in a row.
pub proof fn law_backoff_stays_bounded(backoff: u64)
    requires
        1 <= backoff <= MAX_BACKOFF_SECS,
    ensures
        1 <= spec_next_backoff(backoff) <= MAX_BACKOFF_SECS,
        spec_next_backoff(backoff) >= backoff,
{
}

} // verus!
