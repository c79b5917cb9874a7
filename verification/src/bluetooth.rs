//! BlueZ: action payloads, device object paths, the pairing-reply bookkeeping
//! key lookup, and the mapping of `GetManagedObjects` replies to a state.
use vstd::prelude::*;

use crate::error::DomainError;
use crate::keyed::{lemma_entries_dom, KeyedVec};
use crate::json::{field_bool, field_str, spec_field_bool, spec_field_str, JsonValue};
use crate::text::{
    lemma_last_segment_after_separator, spec_last_segment, owned,
    chars_vec, concat, ends_with, extend_chars, extend_str, lex_lt, replace_char, spec_ascii_upper_seq,
    spec_ends_with, spec_is_ascii, spec_lex_lt, spec_replace_char, spec_starts_with,
    spec_to_uppercase, starts_with, str_eq, string_of, to_uppercase, slice_vec,
};

verus! {

/// A parsed Bluetooth command.
#[derive(Debug)]
pub enum BluetoothAction {
    SetPowered(bool),
    Disconnect(String),
}

pub enum BluetoothActionView {
    SetPowered(bool),
    Disconnect(Seq<char>),
}

impl View for BluetoothAction {
    type V = BluetoothActionView;

    open spec fn view(&self) -> BluetoothActionView {
        match self {
            BluetoothAction::SetPowered(b) => BluetoothActionView::SetPowered(*b),
            BluetoothAction::Disconnect(a) => BluetoothActionView::Disconnect(a@),
        }
    }
}

/// The command a Bluetooth payload denotes: `set_powered` with a boolean
/// `value`, or `disconnect` with a string `address`.
pub open spec fn spec_parse_bluetooth_action(p: JsonValue) -> Option<BluetoothActionView> {
    match spec_field_str(p, "command"@) {
        None => None,
        Some(c) => if c == "set_powered"@ {
            match spec_field_bool(p, "value"@) {
                Some(b) => Some(BluetoothActionView::SetPowered(b)),
                None => None,
            }
        } else if c == "disconnect"@ {
            match spec_field_str(p, "address"@) {
                Some(a) => Some(BluetoothActionView::Disconnect(a)),
                None => None,
            }
        } else {
            None
        },
    }
}

/// The reason a Bluetooth payload is refused (meaningful where
/// `spec_parse_bluetooth_action` gives `None`).
pub open spec fn spec_bluetooth_error(p: JsonValue) -> Seq<char> {
    match spec_field_str(p, "command"@) {
        None => "missing command"@,
        Some(c) => if c == "set_powered"@ {
            "missing value for set_powered"@
        } else if c == "disconnect"@ {
            "missing address for disconnect"@
        } else {
            "unknown bluetooth command: "@ + c
        },
    }
}

/// Parse a Bluetooth action payload; every rejection is `Unsupported`, with
/// the reason `spec_bluetooth_error` gives.
pub fn parse_bluetooth_action(payload: &JsonValue) -> (r: Result<BluetoothAction, DomainError>)
    ensures
        match spec_parse_bluetooth_action(*payload) {
            Some(a) => r is Ok && r->Ok_0@ == a,
            None => r is Err && r->Err_0 is Unsupported && r->Err_0->Unsupported_0@
                == spec_bluetooth_error(*payload),
        },
{
    let command = match field_str(payload, "command") {
        Some(c) => c,
        None => {
            return Err(DomainError::unsupported("missing command"));
        },
    };
    if str_eq(command.as_str(), "set_powered") {
        match field_bool(payload, "value") {
            Some(b) => Ok(BluetoothAction::SetPowered(b)),
            None => Err(DomainError::unsupported("missing value for set_powered")),
        }
    } else if str_eq(command.as_str(), "disconnect") {
        match field_str(payload, "address") {
            Some(a) => Ok(BluetoothAction::Disconnect(a)),
            None => Err(DomainError::unsupported("missing address for disconnect")),
        }
    } else {
        Err(DomainError::Unsupported(concat("unknown bluetooth command: ", command.as_str())))
    }
}

/// The object-path form of an address: upper-cased, colons made underscores.
pub open spec fn spec_address_component(addr: Seq<char>) -> Seq<char> {
    spec_replace_char(spec_to_uppercase(addr), ':', '_')
}

/// `/org/bluez/hci0` and `aa:bb:..` give `/org/bluez/hci0/dev_AA_BB_..`.
pub open spec fn spec_address_to_object_path(adapter: Seq<char>, addr: Seq<char>) -> Seq<char> {
    adapter + "/dev_"@ + spec_address_component(addr)
}

/// The trailing object-path segment BlueZ derives from an address.
pub open spec fn spec_address_suffix(addr: Seq<char>) -> Seq<char> {
    "/dev_"@ + spec_address_component(addr)
}

fn address_component(addr: &str) -> (r: Vec<char>)
    ensures
        r@ == spec_address_component(addr@),
        spec_is_ascii(addr@) ==> r@ == spec_replace_char(spec_ascii_upper_seq(addr@), ':', '_'),
{
    let upper = to_uppercase(addr);
    let v = chars_vec(upper.as_str());
    replace_char(&v, ':', '_')
}

/// Convert a device address to its BlueZ object path under `adapter_path`.
pub fn address_to_object_path(adapter_path: &str, addr: &str) -> (r: String)
    ensures
        r@ == spec_address_to_object_path(adapter_path@, addr@),
        spec_is_ascii(addr@) ==> r@ == adapter_path@ + "/dev_"@ + spec_replace_char(
            spec_ascii_upper_seq(addr@),
            ':',
            '_',
        ),
{
    let comp = address_component(addr);
    let mut v = chars_vec(adapter_path);
    extend_str(&mut v, "/dev_");
    extend_chars(&mut v, &comp);
    string_of(&v)
}

/// The trailing object-path segment for `address`: `/dev_AA_BB_CC_DD_EE_FF`.
pub fn address_suffix(address: &str) -> (r: String)
    ensures
        r@ == spec_address_suffix(address@),
        spec_is_ascii(address@) ==> r@ == "/dev_"@ + spec_replace_char(
            spec_ascii_upper_seq(address@),
            ':',
            '_',
        ),
{
    let comp = address_component(address);
    let mut v: Vec<char> = Vec::new();
    extend_str(&mut v, "/dev_");
    extend_chars(&mut v, &comp);
    string_of(&v)
}


/// The address a device object path ends in: the last segment without its
/// `dev_` prefix, underscores made colons; empty when the segment lacks it.
pub open spec fn spec_address_from_device_path(p: Seq<char>) -> Seq<char> {
    let seg = spec_last_segment(p);
    if spec_starts_with(seg, "dev_"@) {
        spec_replace_char(seg.skip(4), '_', ':')
    } else {
        Seq::empty()
    }
}

fn last_segment_start(v: &Vec<char>) -> (r: usize)
    ensures
        r <= v.len(),
        v@.skip(r as int) == spec_last_segment(v@),
{
    let mut i: usize = v.len();
    assert(v@.skip(v.len() as int) =~= Seq::<char>::empty());
    assert(v@.take(v.len() as int) == v@);
    while i > 0 && v[i - 1] != '/'
        invariant
            i <= v.len(),
            spec_last_segment(v@) == spec_last_segment(v@.take(i as int)) + v@.skip(i as int),
        decreases i,
    {
        assert(v@.take(i as int).drop_last() == v@.take(i - 1));
        assert(v@.skip(i - 1) =~= seq![v@[i - 1]] + v@.skip(i as int));
        let ghost ls = spec_last_segment(v@.take(i - 1));
        assert(spec_last_segment(v@.take(i as int)) == ls.push(v@[i - 1]));
        assert(ls.push(v@[i - 1]) + v@.skip(i as int) =~= ls + v@.skip(i - 1));
        i -= 1;
    }
    if i > 0 {
        assert(v@.take(i as int).last() == '/');
    }
    assert(spec_last_segment(v@.take(i as int)) =~= Seq::<char>::empty());
    i
}

/// Recover a device address from a BlueZ device object path.
pub fn address_from_device_path(device_path: &str) -> (r: String)
    ensures
        r@ == spec_address_from_device_path(device_path@),
{
    let v = chars_vec(device_path);
    let start = last_segment_start(&v);
    let seg = slice_vec(&v, start, v.len());
    proof {
        reveal_strlit("dev_");
    }
    if starts_with(&seg, "dev_") {
        let rest = slice_vec(&seg, 4, seg.len());
        assert(rest@ == seg@.skip(4));
        let out = replace_char(&rest, '_', ':');
        string_of(&out)
    } else {
        String::new()
    }
}

/// Recovering the address from the object path of an address whose
/// upper-cased form holds no `/` and no `_` gives back that upper-cased
/// form: the path is the adapter path followed by what `address_suffix` (and
/// so `address_to_object_path`) returns for the address.
pub proof fn law_device_path_round_trip_upper(adapter_path: Seq<char>, addr: Seq<char>)
    requires
        !spec_to_uppercase(addr).contains('/'),
        !spec_to_uppercase(addr).contains('_'),
    ensures
        spec_address_from_device_path(adapter_path + spec_address_suffix(addr))
            == spec_to_uppercase(addr),
{
    lemma_path_round_trip(adapter_path, spec_to_uppercase(addr));
    assert(adapter_path + spec_address_suffix(addr) =~= adapter_path + "/dev_"@ + spec_replace_char(
        spec_to_uppercase(addr),
        ':',
        '_',
    ));
}

proof fn lemma_path_round_trip(adapter_path: Seq<char>, up: Seq<char>)
    requires
        !up.contains('/'),
        !up.contains('_'),
    ensures
        spec_address_from_device_path(adapter_path + "/dev_"@ + spec_replace_char(up, ':', '_'))
            == up,
{
    reveal_strlit("/dev_");
    reveal_strlit("dev_");
    let comp = spec_replace_char(up, ':', '_');
    assert forall|i: int| 0 <= i < up.len() implies up[i] != '/' && up[i] != '_' by {}
    let a = adapter_path + seq!['/'];
    let b = "dev_"@ + comp;
    assert forall|i: int| 0 <= i < b.len() implies b[i] != '/' by {
        if i >= 4 {
            assert(b[i] == comp[i - 4]);
        }
    }
    assert(adapter_path + "/dev_"@ + comp =~= a + b);
    lemma_last_segment_after_separator(a, b);
    assert(spec_starts_with(b, "dev_"@)) by {
        assert(b.subrange(0, 4) =~= "dev_"@);
    }
    assert(b.skip(4) =~= comp);
    assert(spec_replace_char(comp, '_', ':') =~= up);
}

/// Recovering the address from the object path of an ASCII address (one
/// without `/` or `_`) gives back the address, upper-cased: the path here is
/// the adapter path followed by what `address_suffix` (and so
/// `address_to_object_path`) returns for such an address.
pub proof fn law_device_path_round_trip(adapter_path: Seq<char>, addr: Seq<char>)
    requires
        spec_is_ascii(addr),
        !addr.contains('/'),
        !addr.contains('_'),
    ensures
        spec_address_from_device_path(
            adapter_path + "/dev_"@ + spec_replace_char(spec_ascii_upper_seq(addr), ':', '_'),
        ) == spec_ascii_upper_seq(addr),
{
    let up = spec_ascii_upper_seq(addr);
    assert forall|i: int| 0 <= i < up.len() implies up[i] != '/' && up[i] != '_' by {
        assert(addr[i] != '/' && addr[i] != '_');
    }
    lemma_path_round_trip(adapter_path, up);
}

/// The reply a window sends to a parked pairing-agent callback.
#[derive(Debug, PartialEq, Eq)]
pub enum PairingReply {
    Confirm,
    Reject,
    Passkey(u32),
    PinCode(String),
}

/// The kind of interaction a pairing-agent callback needs from the user.
#[derive(Debug, Clone, Copy, PartialEq, Eq)]
pub enum BluetoothPairingRequestKind {
    Confirm,
    RequestPasskey,
    RequestPin,
    DisplayPasskey,
    AuthorizeService,
}

/// Out-of-band pairing events published on the bluetooth event channel.
#[derive(Debug, Clone, PartialEq, Eq)]
pub enum BluetoothEvent {
    PairingRequest {
        request: BluetoothPairingRequestKind,
        address: String,
        device_path: String,
        passkey: Option<u32>,
        service_uuid: Option<String>,
    },
    PairingCancelled { address: String },
}

/// The position of the first parked device path (in `paths` order) that ends
/// in the object-path suffix of `address`.
pub fn pending_path_for_address(paths: &Vec<String>, address: &str) -> (r: Option<usize>)
    ensures
        match r {
            Some(i) => i < paths.len() && spec_ends_with(paths@[i as int]@, spec_address_suffix(address@))
                && forall|j: int|
                0 <= j < i ==> !spec_ends_with(paths@[j]@, spec_address_suffix(address@)),
            None => forall|j: int|
                0 <= j < paths.len() ==> !spec_ends_with(paths@[j]@, spec_address_suffix(address@)),
        },
{
    let suffix = address_suffix(address);
    let mut i: usize = 0;
    while i < paths.len()
        invariant
            i <= paths.len(),
            suffix@ == spec_address_suffix(address@),
            forall|j: int| 0 <= j < i ==> !spec_ends_with(paths@[j]@, suffix@),
        decreases paths.len() - i,
    {
        let p = chars_vec(paths[i].as_str());
        if ends_with(&p, suffix.as_str()) {
            return Some(i);
        }
        i += 1;
    }
    None
}

/// Pairing requests waiting for the user's answer: the reply channel of each
/// parked request, by the device's object path.
pub struct PendingPairingMap<S> {
    inner: KeyedVec<S>,
}

impl<S> View for PendingPairingMap<S> {
    type V = Map<Seq<char>, S>;

    closed spec fn view(&self) -> Map<Seq<char>, S> {
        self.inner@
    }
}

impl<S> PendingPairingMap<S> {
    /// Nothing parked.
    pub fn new() -> (r: PendingPairingMap<S>)
        ensures
            r@ == Map::<Seq<char>, S>::empty(),
    {
        PendingPairingMap { inner: KeyedVec::new() }
    }

    /// Park the reply channel of a request for `device_path`; a request
    /// parked before for the same path is dropped.
    pub fn park(&mut self, device_path: &str, sender: S)
        ensures
            final(self)@ == old(self)@.insert(device_path@, sender),
    {
        self.inner.insert(owned(device_path), sender);
    }

    /// Take out the reply channel of a request parked for a device path that
    /// ends in the object-path suffix of `address`; `None`, with nothing
    /// changed, when no parked path does.
    pub fn resolve_by_address(&mut self, address: &str) -> (r: Option<S>)
        ensures
            match r {
                Some(sender) => exists|k: Seq<char>| #![trigger old(self)@[k]]
                    old(self)@.dom().contains(k) && spec_ends_with(k, spec_address_suffix(address@))
                    && sender == old(self)@[k] && final(self)@ == old(self)@.remove(k),
                None => final(self)@ == old(self)@ && forall|k: Seq<char>| #[trigger] old(self)@.dom().contains(k)
                    ==> !spec_ends_with(k, spec_address_suffix(address@)),
            },
    {
        let mut paths: Vec<String> = Vec::new();
        {
            let entries = self.inner.entries();
            let mut i: usize = 0;
            while i < entries.len()
                invariant
                    i <= entries@.len(),
                    paths@.len() == i,
                    forall|j: int| 0 <= j < i ==> (#[trigger] paths@[j])@ == entries@[j].0@,
                decreases entries@.len() - i,
            {
                paths.push(entries[i].0.clone());
                i += 1;
            }
            proof {
                assert forall|k: Seq<char>| #[trigger] self@.dom().contains(k) implies exists|j: int|
                    0 <= j < paths@.len() && paths@[j]@ == k by {
                    lemma_entries_dom(entries@, k);
                    let j = choose|j: int| 0 <= j < entries@.len() && (#[trigger] entries@[j]).0@ == k;
                    assert(paths@[j]@ == k);
                }
                assert forall|j: int| 0 <= j < paths@.len() implies self@.dom().contains(#[trigger] paths@[j]@) by {
                    lemma_entries_dom(entries@, paths@[j]@);
                    assert(entries@[j].0@ == paths@[j]@);
                }
            }
        }
        match pending_path_for_address(&paths, address) {
            Some(i) => {
                let ghost k = paths@[i as int]@;
                let r = self.inner.remove(paths[i].as_str());
                r
            },
            None => None,
        }
    }

    /// Drop the request parked for `device_path`; whether there was one.
    pub fn cancel(&mut self, device_path: &str) -> (r: bool)
        ensures
            r == old(self)@.dom().contains(device_path@),
            final(self)@ == old(self)@.remove(device_path@),
    {
        self.inner.remove(device_path).is_some()
    }

    /// Drop every parked request, returning their device paths (each once).
    pub fn cancel_all(&mut self) -> (r: Vec<String>)
        ensures
            final(self)@ == Map::<Seq<char>, S>::empty(),
            forall|i: int, j: int| 0 <= i < j < r@.len() ==> (#[trigger] r@[i])@ != (#[trigger] r@[j])@,
            forall|k: Seq<char>| #[trigger] old(self)@.dom().contains(k) <==> exists|i: int| 0 <= i < r@.len() && r@[i]@ == k,
    {
        let mut taken: KeyedVec<S> = KeyedVec::new();
        std::mem::swap(&mut taken, &mut self.inner);
        let entries = taken.into_entries();
        let mut out: Vec<String> = Vec::new();
        let mut i: usize = 0;
        while i < entries.len()
            invariant
                i <= entries@.len(),
                out@.len() == i,
                forall|j: int| 0 <= j < i ==> (#[trigger] out@[j])@ == entries@[j].0@,
            decreases entries@.len() - i,
        {
            out.push(entries[i].0.clone());
            i += 1;
        }
        proof {
            assert forall|a: int, b: int| 0 <= a < b < out@.len() implies (#[trigger] out@[a])@ != (#[trigger] out@[b])@ by {
                assert(out@[a]@ == entries@[a].0@ && out@[b]@ == entries@[b].0@);
            }
            assert forall|k: Seq<char>| #[trigger] old(self)@.dom().contains(k) implies exists|i: int|
                0 <= i < out@.len() && out@[i]@ == k by {
                lemma_entries_dom(entries@, k);
                let j = choose|j: int| 0 <= j < entries@.len() && (#[trigger] entries@[j]).0@ == k;
                assert(out@[j]@ == k);
            }
            assert forall|k: Seq<char>| (exists|i: int| 0 <= i < out@.len() && out@[i]@ == k) implies #[trigger] old(self)@.dom().contains(k) by {
                let j = choose|i: int| 0 <= i < out@.len() && out@[i]@ == k;
                lemma_entries_dom(entries@, k);
                assert(entries@[j].0@ == k);
            }
        }
        out
    }
}

// ---------------------------------------------------------------------------
// `GetManagedObjects` replies.
// ---------------------------------------------------------------------------

/// A D-Bus property value, as far as the Bluetooth state reads it.
#[derive(Debug)]
pub enum PropValue {
    Bool(bool),
    Str(String),
    Byte(u8),
    Other,
}

/// One interface of an object: its name and its properties.
#[derive(Debug)]
pub struct InterfaceProps {
    pub name: String,
    pub props: Vec<(String, PropValue)>,
}

/// One managed object: its path and its interfaces.
#[derive(Debug)]
pub struct ManagedObject {
    pub path: String,
    pub interfaces: Vec<InterfaceProps>,
}

/// A connected Bluetooth device.
#[derive(Debug, Clone, PartialEq, Eq)]
pub struct BluetoothDevice {
    pub address: String,
    pub name: String,
    pub battery_percent: Option<u8>,
    pub paired: bool,
    pub trusted: bool,
    pub connected: bool,
    pub icon: Option<String>,
    pub rssi: Option<i16>,
}

/// The Bluetooth state published to subscribers.
#[derive(Debug, Clone, PartialEq, Eq)]
pub struct BluetoothState {
    pub available: bool,
    pub powered: bool,
    pub discovering: bool,
    pub devices: Vec<BluetoothDevice>,
    pub adapter_path: String,
}

/// The first property named `key`.
pub open spec fn spec_prop(props: Seq<(String, PropValue)>, key: Seq<char>) -> Option<PropValue>
    decreases props.len(),
{
    if props.len() == 0 {
        None
    } else if props[0].0@ == key {
        Some(props[0].1)
    } else {
        spec_prop(props.drop_first(), key)
    }
}

/// The properties of the first interface named `name`.
pub open spec fn spec_iface(ifaces: Seq<InterfaceProps>, name: Seq<char>) -> Option<
    Seq<(String, PropValue)>,
>
    decreases ifaces.len(),
{
    if ifaces.len() == 0 {
        None
    } else if ifaces[0].name@ == name {
        Some(ifaces[0].props@)
    } else {
        spec_iface(ifaces.drop_first(), name)
    }
}

pub open spec fn spec_prop_bool(props: Seq<(String, PropValue)>, key: Seq<char>) -> bool {
    match spec_prop(props, key) {
        Some(PropValue::Bool(b)) => b,
        _ => false,
    }
}

pub open spec fn spec_prop_str(props: Seq<(String, PropValue)>, key: Seq<char>) -> Option<Seq<char>> {
    match spec_prop(props, key) {
        Some(PropValue::Str(s)) => Some(s@),
        _ => None,
    }
}

pub open spec fn spec_is_adapter(o: ManagedObject) -> bool {
    spec_iface(o.interfaces@, "org.bluez.Adapter1"@) is Some
}

/// `objects[k]` is the adapter the state reports: the first adapter object
/// whose path is smallest.
pub open spec fn spec_selected_adapter(objects: Seq<ManagedObject>, k: int) -> bool {
    &&& 0 <= k < objects.len()
    &&& spec_is_adapter(objects[k])
    &&& forall|j: int|
        0 <= j < objects.len() && spec_is_adapter(objects[j]) ==> !spec_lex_lt(
            objects[j].path@,
            objects[k].path@,
        )
    &&& forall|j: int|
        0 <= j < k && spec_is_adapter(objects[j]) ==> objects[j].path@ != objects[k].path@
}

/// The device entry object `o` contributes under adapter path `adapter`:
/// only connected `Device1` objects below the adapter count.
pub open spec fn spec_device_of(o: ManagedObject, adapter: Seq<char>) -> Option<
    (Seq<char>, Seq<char>, Option<u8>),
> {
    if !spec_starts_with(o.path@, adapter) {
        None
    } else {
        match spec_iface(o.interfaces@, "org.bluez.Device1"@) {
            None => None,
            Some(props) => if !spec_prop_bool(props, "Connected"@) {
                None
            } else {
                let address = match spec_prop_str(props, "Address"@) {
                    Some(a) => a,
                    None => Seq::empty(),
                };
                let name = match spec_prop_str(props, "Alias"@) {
                    Some(a) => a,
                    None => match spec_prop_str(props, "Name"@) {
                        Some(n) => n,
                        None => Seq::empty(),
                    },
                };
                let battery = match spec_iface(o.interfaces@, "org.bluez.Battery1"@) {
                    Some(bp) => match spec_prop(bp, "Percentage"@) {
                        Some(PropValue::Byte(b)) => Some(b),
                        _ => None,
                    },
                    None => None,
                };
                Some((address, name, battery))
            },
        }
    }
}

/// The devices of `objects` under `adapter`, in object order.
pub open spec fn spec_devices(objects: Seq<ManagedObject>, adapter: Seq<char>) -> Seq<
    (Seq<char>, Seq<char>, Option<u8>),
>
    decreases objects.len(),
{
    if objects.len() == 0 {
        Seq::empty()
    } else {
        let rest = spec_devices(objects.drop_last(), adapter);
        match spec_device_of(objects.last(), adapter) {
            Some(d) => rest.push(d),
            None => rest,
        }
    }
}

/// The view of a reported device: address, name and battery.
pub open spec fn spec_device_view(d: BluetoothDevice) -> (Seq<char>, Seq<char>, Option<u8>) {
    (d.address@, d.name@, d.battery_percent)
}

fn find_prop<'a>(props: &'a Vec<(String, PropValue)>, key: &str) -> (r: Option<&'a PropValue>)
    ensures
        match spec_prop(props@, key@) {
            Some(v) => r == Some(&v),
            None => r is None,
        },
{
    let mut i: usize = 0;
    assert(props@.skip(0) == props@);
    while i < props.len()
        invariant
            i <= props.len(),
            spec_prop(props@, key@) == spec_prop(props@.skip(i as int), key@),
        decreases props.len() - i,
    {
        assert(props@.skip(i as int).drop_first() == props@.skip(i + 1));
        assert(props@.skip(i as int)[0] == props@[i as int]);
        if str_eq(props[i].0.as_str(), key) {
            return Some(&props[i].1);
        }
        i += 1;
    }
    None
}

fn find_iface<'a>(ifaces: &'a Vec<InterfaceProps>, name: &str) -> (r: Option<
    &'a Vec<(String, PropValue)>,
>)
    ensures
        match spec_iface(ifaces@, name@) {
            Some(p) => r is Some && r->0@ == p,
            None => r is None,
        },
{
    let mut i: usize = 0;
    assert(ifaces@.skip(0) == ifaces@);
    while i < ifaces.len()
        invariant
            i <= ifaces.len(),
            spec_iface(ifaces@, name@) == spec_iface(ifaces@.skip(i as int), name@),
        decreases ifaces.len() - i,
    {
        assert(ifaces@.skip(i as int).drop_first() == ifaces@.skip(i + 1));
        assert(ifaces@.skip(i as int)[0] == ifaces@[i as int]);
        if str_eq(ifaces[i].name.as_str(), name) {
            return Some(&ifaces[i].props);
        }
        i += 1;
    }
    None
}

fn prop_bool(props: &Vec<(String, PropValue)>, key: &str) -> (r: bool)
    ensures
        r == spec_prop_bool(props@, key@),
{
    match find_prop(props, key) {
        Some(PropValue::Bool(b)) => *b,
        _ => false,
    }
}

fn prop_str(props: &Vec<(String, PropValue)>, key: &str) -> (r: Option<String>)
    ensures
        match spec_prop_str(props@, key@) {
            Some(s) => r is Some && r->0@ == s,
            None => r is None,
        },
{
    match find_prop(props, key) {
        Some(PropValue::Str(s)) => Some(s.clone()),
        _ => None,
    }
}

fn device_of(o: &ManagedObject, adapter: &Vec<char>) -> (r: Option<BluetoothDevice>)
    ensures
        match spec_device_of(*o, adapter@) {
            Some(d) => r is Some && spec_device_view(r->0) == d && r->0.connected && !r->0.paired
                && !r->0.trusted && r->0.icon is None && r->0.rssi is None,
            None => r is None,
        },
{
    let p = chars_vec(o.path.as_str());
    if p.len() < adapter.len() || !crate::text::seq_eq(&p, 0, adapter.len(), adapter) {
        return None;
    }
    let props = match find_iface(&o.interfaces, "org.bluez.Device1") {
        Some(props) => props,
        None => {
            return None;
        },
    };
    if !prop_bool(props, "Connected") {
        return None;
    }
    let address = match prop_str(props, "Address") {
        Some(a) => a,
        None => String::new(),
    };
    let name = match prop_str(props, "Alias") {
        Some(a) => a,
        None => match prop_str(props, "Name") {
            Some(n) => n,
            None => String::new(),
        },
    };
    let battery_percent = match find_iface(&o.interfaces, "org.bluez.Battery1") {
        Some(bp) => match find_prop(bp, "Percentage") {
            Some(PropValue::Byte(b)) => Some(*b),
            _ => None,
        },
        None => None,
    };
    Some(
        BluetoothDevice {
            address,
            name,
            battery_percent,
            paired: false,
            trusted: false,
            connected: true,
            icon: None,
            rssi: None,
        },
    )
}

/// Map BlueZ managed objects to the Bluetooth state. The adapter is the
/// adapter object with the smallest path, so the result does not depend on
/// the order in which the objects are listed; without an adapter the state
/// is unavailable and empty. Devices are the connected `Device1` objects
/// whose path starts with the adapter's path.
pub fn map_managed_objects(objects: &Vec<ManagedObject>) -> (r: BluetoothState)
    ensures
        (forall|j: int| 0 <= j < objects.len() ==> !spec_is_adapter(objects@[j])) ==> (
        !r.available && !r.powered && !r.discovering && r.devices@.len() == 0
            && r.adapter_path@.len() == 0),
        (exists|j: int| 0 <= j < objects.len() && spec_is_adapter(objects@[j])) ==> (exists|k: int|
            {
                &&& spec_selected_adapter(objects@, k)
                &&& r.available
                &&& r.adapter_path@ == objects@[k].path@
                &&& r.powered == spec_prop_bool(
                    spec_iface(objects@[k].interfaces@, "org.bluez.Adapter1"@)->0,
                    "Powered"@,
                )
                &&& r.discovering == spec_prop_bool(
                    spec_iface(objects@[k].interfaces@, "org.bluez.Adapter1"@)->0,
                    "Discovering"@,
                )
                &&& r.devices@.map_values(|d: BluetoothDevice| spec_device_view(d)) == spec_devices(
                    objects@,
                    objects@[k].path@,
                )
            }),
        forall|i: int|
            0 <= i < r.devices@.len() ==> r.devices@[i].connected && !r.devices@[i].paired
                && !r.devices@[i].trusted,
{
    let mut best: Option<usize> = None;
    let mut best_path: Vec<char> = Vec::new();
    let mut i: usize = 0;
    while i < objects.len()
        invariant
            i <= objects.len(),
            match best {
                None => forall|j: int| 0 <= j < i ==> !spec_is_adapter(objects@[j]),
                Some(k) => k < i && spec_is_adapter(objects@[k as int]) && best_path@
                    == objects@[k as int].path@ && (forall|j: int|
                    0 <= j < i && spec_is_adapter(objects@[j]) ==> !spec_lex_lt(
                        objects@[j].path@,
                        objects@[k as int].path@,
                    )) && (forall|j: int|
                    0 <= j < k && spec_is_adapter(objects@[j]) ==> objects@[j].path@
                        != objects@[k as int].path@),
            },
        decreases objects.len() - i,
    {
        if find_iface(&objects[i].interfaces, "org.bluez.Adapter1").is_some() {
            let p = chars_vec(objects[i].path.as_str());
            let take = match best {
                None => true,
                Some(_) => lex_lt(&p, &best_path),
            };
            if take {
                proof {
                    assert forall|j: int|
                        0 <= j < i && spec_is_adapter(objects@[j]) implies !spec_lex_lt(
                        objects@[j].path@,
                        p@,
                    ) by {
                        lemma_lex_lt_trans_not(objects@[j].path@, best_path@, p@);
                    }
                    lemma_lex_lt_irrefl(p@);
                }
                best = Some(i);
                best_path = p;
            }
        }
        i += 1;
    }
    let k = match best {
        None => {
            return BluetoothState {
                available: false,
                powered: false,
                discovering: false,
                devices: Vec::new(),
                adapter_path: String::new(),
            };
        },
        Some(k) => k,
    };
    let props = match find_iface(&objects[k].interfaces, "org.bluez.Adapter1") {
        Some(p) => p,
        None => {
            return BluetoothState {
                available: false,
                powered: false,
                discovering: false,
                devices: Vec::new(),
                adapter_path: String::new(),
            };
        },
    };
    let powered = prop_bool(props, "Powered");
    let discovering = prop_bool(props, "Discovering");
    let mut devices: Vec<BluetoothDevice> = Vec::new();
    let mut i: usize = 0;
    while i < objects.len()
        invariant
            i <= objects.len(),
            best_path@ == objects@[k as int].path@,
            devices@.map_values(|d: BluetoothDevice| spec_device_view(d)) == spec_devices(
                objects@.take(i as int),
                best_path@,
            ),
            forall|j: int|
                0 <= j < devices@.len() ==> devices@[j].connected && !devices@[j].paired
                    && !devices@[j].trusted,
        decreases objects.len() - i,
    {
        assert(objects@.take(i + 1).drop_last() == objects@.take(i as int));
        let d = device_of(&objects[i], &best_path);
        match d {
            Some(dev) => {
                devices.push(dev);
            },
            None => {},
        }
        i += 1;
        assert(devices@.map_values(|d: BluetoothDevice| spec_device_view(d)) =~= spec_devices(
            objects@.take(i as int),
            best_path@,
        ));
    }
    assert(objects@.take(objects.len() as int) == objects@);
    assert(spec_selected_adapter(objects@, k as int));
    let r = BluetoothState {
        available: true,
        powered,
        discovering,
        devices,
        adapter_path: objects[k].path.clone(),
    };
    assert(r.devices@.map_values(|d: BluetoothDevice| spec_device_view(d)) == spec_devices(
        objects@,
        objects@[k as int].path@,
    ));
    r
}

proof fn lemma_lex_lt_trans_not(a: Seq<char>, b: Seq<char>, c: Seq<char>)
    requires
        !spec_lex_lt(a, b),
        spec_lex_lt(c, b),
    ensures
        !spec_lex_lt(a, c),
    decreases a.len(),
{
    if a.len() > 0 && b.len() > 0 && c.len() > 0 && a[0] == b[0] && b[0] == c[0] {
        lemma_lex_lt_trans_not(a.drop_first(), b.drop_first(), c.drop_first());
    }
}

proof fn lemma_lex_lt_irrefl(a: Seq<char>)
    ensures
        !spec_lex_lt(a, a),
    decreases a.len(),
{
    if a.len() > 0 {
        lemma_lex_lt_irrefl(a.drop_first());
    }
}

} // verus!
