//! The network widget's state as it is rebuilt on every NetworkManager
//! change: which lookups a rebuild needs, the primary connection assembled
//! from what they read, and the cache that spares the lookups while the
//! primary connection stays the same.
use vstd::prelude::*;

use crate::error::DbusError;
use crate::network::{
    map_connectivity, map_nm_connection_type, spec_connection_kind, NetworkConnectivity,
    NetworkKind,
};
use crate::text::{owned, str_eq};

verus! {

pub open spec fn opt_string_view(o: Option<String>) -> Option<Seq<char>> {
    match o {
        Some(s) => Some(s@),
        None => None,
    }
}

fn copy_opt_string(o: &Option<String>) -> (r: Option<String>)
    ensures
        opt_string_view(r) == opt_string_view(*o),
{
    match o {
        Some(s) => Some(s.clone()),
        None => None,
    }
}

/// The primary connection as the widget shows it.
#[derive(Debug, Clone, PartialEq, Eq)]
pub struct NetworkConnection {
    pub kind: NetworkKind,
    pub id: String,
    pub ssid: Option<String>,
}

pub struct NetworkConnectionView {
    pub kind: NetworkKind,
    pub id: Seq<char>,
    pub ssid: Option<Seq<char>>,
}

impl View for NetworkConnection {
    type V = NetworkConnectionView;

    open spec fn view(&self) -> NetworkConnectionView {
        NetworkConnectionView { kind: self.kind, id: self.id@, ssid: opt_string_view(self.ssid) }
    }
}

pub open spec fn opt_connection_view(o: Option<NetworkConnection>) -> Option<NetworkConnectionView> {
    match o {
        Some(c) => Some(c@),
        None => None,
    }
}

impl NetworkConnection {
    /// A copy of the connection.
    pub fn copy(&self) -> (r: NetworkConnection)
        ensures
            r@ == self@,
    {
        NetworkConnection { kind: self.kind, id: self.id.clone(), ssid: copy_opt_string(&self.ssid) }
    }
}

fn copy_opt_connection(o: &Option<NetworkConnection>) -> (r: Option<NetworkConnection>)
    ensures
        opt_connection_view(r) == opt_connection_view(*o),
{
    match o {
        Some(c) => Some(c.copy()),
        None => None,
    }
}

/// What the network widget shows.
#[derive(Debug, Clone, PartialEq, Eq)]
pub struct NetworkState {
    pub available: bool,
    pub connectivity: NetworkConnectivity,
    pub primary: Option<NetworkConnection>,
    pub wifi_enabled: bool,
    pub wifi_signal_percent: Option<u8>,
}

pub struct NetworkStateView {
    pub available: bool,
    pub connectivity: NetworkConnectivity,
    pub primary: Option<NetworkConnectionView>,
    pub wifi_enabled: bool,
    pub wifi_signal_percent: Option<u8>,
}

impl View for NetworkState {
    type V = NetworkStateView;

    open spec fn view(&self) -> NetworkStateView {
        NetworkStateView {
            available: self.available,
            connectivity: self.connectivity,
            primary: opt_connection_view(self.primary),
            wifi_enabled: self.wifi_enabled,
            wifi_signal_percent: self.wifi_signal_percent,
        }
    }
}

impl NetworkState {
    /// A copy of the state.
    pub fn copy(&self) -> (r: NetworkState)
        ensures
            r@ == self@,
    {
        NetworkState {
            available: self.available,
            connectivity: self.connectivity,
            primary: copy_opt_connection(&self.primary),
            wifi_enabled: self.wifi_enabled,
            wifi_signal_percent: self.wifi_signal_percent,
        }
    }
}

// ---------------------------------------------------------------------------
// The primary connection.
// ---------------------------------------------------------------------------

/// The kind of the active connection from its `Type` property, read as
/// `other` when it could not be read.
pub fn active_connection_kind(connection_type: &Option<String>) -> (r: NetworkKind)
    ensures
        r == spec_connection_kind(
            match connection_type {
                Some(t) => t@,
                None => "other"@,
            },
        ),
{
    match connection_type {
        Some(t) => map_nm_connection_type(t.as_str()),
        None => map_nm_connection_type("other"),
    }
}

/// An access point is read only through a real object path; `/` means the
/// active wifi connection names none.
pub fn check_specific_object(path: &str) -> (r: Result<(), DbusError>)
    ensures
        path@ == "/"@ <==> r is Err,
        r is Err ==> r->Err_0 is Transport && r->Err_0->Transport_0@ == "no specific object for wifi"@,
{
    if str_eq(path, "/") {
        Err(DbusError::Transport(owned("no specific object for wifi")))
    } else {
        Ok(())
    }
}

/// The primary connection from its kind, its `Id` (read as `unknown` when
/// missing) and, for a wifi connection, the access point's SSID and signal
/// strength (`None` when they could not be read); with the signal strength.
pub fn primary_connection(
    kind: NetworkKind,
    id: Option<String>,
    access_point: Option<(String, Option<u8>)>,
) -> (r: (NetworkConnection, Option<u8>))
    ensures
        r.0.kind == kind,
        r.0.id@ == match id {
            Some(i) => i@,
            None => "unknown"@,
        },
        kind == NetworkKind::Wifi ==> match access_point {
            Some((ssid, strength)) => r.0.ssid is Some && r.0.ssid->0@ == ssid@ && r.1 == strength,
            None => r.0.ssid is None && r.1 is None,
        },
        kind != NetworkKind::Wifi ==> r.0.ssid is None && r.1 is None,
{
    let id = match id {
        Some(i) => i,
        None => owned("unknown"),
    };
    let (ssid, strength) = if kind == NetworkKind::Wifi {
        match access_point {
            Some((s, st)) => (Some(s), st),
            None => (None, None),
        }
    } else {
        (None, None)
    };
    (NetworkConnection { kind, id, ssid }, strength)
}

// ---------------------------------------------------------------------------
// Rebuilding the state.
// ---------------------------------------------------------------------------

/// How a rebuild obtains the primary connection.
#[derive(Debug)]
pub enum PrimaryLookup {
    /// The primary connection path is the one of the last build: its
    /// connection and signal strength are reused.
    Reuse(Option<NetworkConnection>, Option<u8>),
    /// Read the active connection behind the path.
    Lookup,
    /// The path is `/`: there is no primary connection.
    NoPrimary,
}

/// The path and state of the last build.
pub struct NetworkCache {
    pub last_primary_path: Option<String>,
    pub last_state: Option<NetworkState>,
}

/// The lookup a rebuild for `primary_path` needs after `last_path` and
/// `last_state` were recorded.
pub open spec fn spec_primary_lookup(
    last_path: Option<Seq<char>>,
    last_state: Option<NetworkStateView>,
    primary_path: Seq<char>,
) -> Option<(Option<NetworkConnectionView>, Option<u8>)> {
    match (last_path, last_state) {
        (Some(p), Some(st)) => if p == primary_path {
            Some((st.primary, st.wifi_signal_percent))
        } else {
            None
        },
        _ => None,
    }
}

impl NetworkCache {
    /// Nothing recorded.
    pub fn new() -> (r: NetworkCache)
        ensures
            r.last_primary_path is None,
            r.last_state is None,
    {
        NetworkCache { last_primary_path: None, last_state: None }
    }

    /// The lookup a rebuild for `primary_path` needs: reuse the last build's
    /// connection when the path is unchanged; otherwise read the active
    /// connection, unless the path is `/`.
    pub fn plan(&self, primary_path: &str) -> (r: PrimaryLookup)
        ensures
            match spec_primary_lookup(
                opt_string_view(self.last_primary_path),
                match self.last_state {
                    Some(s) => Some(s@),
                    None => None,
                },
                primary_path@,
            ) {
                Some((c, s)) => r matches PrimaryLookup::Reuse(rc, rs) && opt_connection_view(rc)
                    == c && rs == s,
                None => if primary_path@ == "/"@ {
                    r is NoPrimary
                } else {
                    r is Lookup
                },
            },
    {
        match (&self.last_primary_path, &self.last_state) {
            (Some(p), Some(st)) => {
                if str_eq(p.as_str(), primary_path) {
                    return PrimaryLookup::Reuse(copy_opt_connection(&st.primary), st.wifi_signal_percent);
                }
            },
            _ => {},
        }
        if str_eq(primary_path, "/") {
            PrimaryLookup::NoPrimary
        } else {
            PrimaryLookup::Lookup
        }
    }

    /// Finish a rebuild: the state from the root properties (connectivity
    /// read as 0 and wifi as disabled when they could not be read) and the
    /// primary connection obtained, recorded with its path for the next
    /// rebuild.
    pub fn finish(
        &mut self,
        primary_path: String,
        connectivity: u32,
        wifi_enabled: bool,
        primary: Option<NetworkConnection>,
        wifi_signal_percent: Option<u8>,
    ) -> (r: NetworkState)
        ensures
            r.available,
            r.connectivity == map_connectivity_spec(connectivity),
            r.wifi_enabled == wifi_enabled,
            opt_connection_view(r.primary) == opt_connection_view(primary),
            r.wifi_signal_percent == wifi_signal_percent,
            opt_string_view(final(self).last_primary_path) == Some(primary_path@),
            final(self).last_state is Some && final(self).last_state->0@ == r@,
    {
        let state = NetworkState {
            available: true,
            connectivity: map_connectivity(connectivity),
            primary,
            wifi_enabled,
            wifi_signal_percent,
        };
        self.last_primary_path = Some(primary_path);
        self.last_state = Some(state.copy());
        state
    }
}

/// The connectivity NetworkManager's number stands for (`map_connectivity`).
pub open spec fn map_connectivity_spec(v: u32) -> NetworkConnectivity {
    if v == 1 {
        NetworkConnectivity::NoConnection
    } else if v == 2 {
        NetworkConnectivity::Portal
    } else if v == 3 {
        NetworkConnectivity::Limited
    } else if v == 4 {
        NetworkConnectivity::Full
    } else {
        NetworkConnectivity::Unknown
    }
}

/// A rebuild right after another one with the same primary path reuses what
/// the first one recorded: the cache never asks for a lookup twice in a row
/// for one path.
pub proof fn law_same_path_is_reused(
    path: Seq<char>,
    state: NetworkStateView,
)
    ensures
        spec_primary_lookup(Some(path), Some(state), path) == Some(
            (state.primary, state.wifi_signal_percent),
        ),
{
}

} // verus!
