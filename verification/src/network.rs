//! NetworkManager, logind power capabilities and UPower battery readings:
//! the value mappings and the network action payload.
use vstd::prelude::*;

use crate::error::DomainError;
use crate::json::{field_bool, field_str, spec_field_bool, spec_field_str, JsonValue};
use crate::text::{chars_vec, concat, spec_starts_with, starts_with, str_eq};

verus! {

#[derive(Debug, Clone, Copy, PartialEq, Eq, Structural)]
pub enum NetworkConnectivity {
    Unknown,
    NoConnection,
    Portal,
    Limited,
    Full,
}

#[derive(Debug, Clone, Copy, PartialEq, Eq, Structural)]
pub enum NetworkKind {
    Ethernet,
    Wifi,
    Cellular,
    Vpn,
    Other,
}

/// NetworkManager connectivity: 1 none, 2 portal, 3 limited, 4 full, else unknown.
pub fn map_connectivity(v: u32) -> (r: NetworkConnectivity)
    ensures
        r == (if v == 1 {
            NetworkConnectivity::NoConnection
        } else if v == 2 {
            NetworkConnectivity::Portal
        } else if v == 3 {
            NetworkConnectivity::Limited
        } else if v == 4 {
            NetworkConnectivity::Full
        } else {
            NetworkConnectivity::Unknown
        }),
{
    match v {
        1 => NetworkConnectivity::NoConnection,
        2 => NetworkConnectivity::Portal,
        3 => NetworkConnectivity::Limited,
        4 => NetworkConnectivity::Full,
        _ => NetworkConnectivity::Unknown,
    }
}

/// The category of a NetworkManager connection `Type`.
pub open spec fn spec_connection_kind(s: Seq<char>) -> NetworkKind {
    if s == "802-3-ethernet"@ {
        NetworkKind::Ethernet
    } else if s == "802-11-wireless"@ {
        NetworkKind::Wifi
    } else if s == "gsm"@ || s == "cdma"@ {
        NetworkKind::Cellular
    } else if s == "vpn"@ || s == "wireguard"@ || s == "openvpn"@ || s == "tun"@ {
        NetworkKind::Vpn
    } else {
        NetworkKind::Other
    }
}

pub fn map_nm_connection_type(s: &str) -> (r: NetworkKind)
    ensures
        r == spec_connection_kind(s@),
{
    if str_eq(s, "802-3-ethernet") {
        NetworkKind::Ethernet
    } else if str_eq(s, "802-11-wireless") {
        NetworkKind::Wifi
    } else if str_eq(s, "gsm") || str_eq(s, "cdma") {
        NetworkKind::Cellular
    } else if str_eq(s, "vpn") || str_eq(s, "wireguard") || str_eq(s, "openvpn") || str_eq(
        s,
        "tun",
    ) {
        NetworkKind::Vpn
    } else {
        NetworkKind::Other
    }
}

/// A parsed network command.
#[derive(Debug, PartialEq, Eq)]
pub enum NetworkAction {
    SetWifiEnabled(bool),
}

/// `{"command": "set_wifi_enabled", "value": <bool>}` is the only command.
pub open spec fn spec_parse_network_action(p: JsonValue) -> Option<NetworkAction> {
    match spec_field_str(p, "command"@) {
        Some(c) => if c == "set_wifi_enabled"@ {
            match spec_field_bool(p, "value"@) {
                Some(b) => Some(NetworkAction::SetWifiEnabled(b)),
                None => None,
            }
        } else {
            None
        },
        None => None,
    }
}

/// The reason a network payload is refused (meaningful where
/// `spec_parse_network_action` gives `None`).
pub open spec fn spec_network_error(p: JsonValue) -> Seq<char> {
    match spec_field_str(p, "command"@) {
        None => "missing or non-string command in network action"@,
        Some(c) => if c == "set_wifi_enabled"@ {
            "missing or non-bool value for set_wifi_enabled"@
        } else {
            "unknown network command: "@ + c
        },
    }
}

/// Parse a network payload; every rejection is `Unsupported`, with the
/// reason `spec_network_error` gives.
pub fn parse_network_action(payload: &JsonValue) -> (r: Result<NetworkAction, DomainError>)
    ensures
        match spec_parse_network_action(*payload) {
            Some(a) => r == Ok::<NetworkAction, DomainError>(a),
            None => r is Err && r->Err_0 is Unsupported && r->Err_0->Unsupported_0@
                == spec_network_error(*payload),
        },
{
    let command = match field_str(payload, "command") {
        Some(c) => c,
        None => {
            return Err(DomainError::unsupported("missing or non-string command in network action"));
        },
    };
    if str_eq(command.as_str(), "set_wifi_enabled") {
        match field_bool(payload, "value") {
            Some(b) => Ok(NetworkAction::SetWifiEnabled(b)),
            None => Err(DomainError::unsupported("missing or non-bool value for set_wifi_enabled")),
        }
    } else {
        Err(DomainError::Unsupported(concat("unknown network command: ", command.as_str())))
    }
}

/// A logind `Can*` reply counts as available for `yes`, `challenge`, and
/// anything starting with `yes:`.
pub open spec fn spec_parse_yes(s: Seq<char>) -> bool {
    s == "yes"@ || s == "challenge"@ || spec_starts_with(s, "yes:"@)
}

pub fn parse_yes(s: &str) -> (r: bool)
    ensures
        r == spec_parse_yes(s@),
{
    let v = chars_vec(s);
    str_eq(s, "yes") || str_eq(s, "challenge") || starts_with(&v, "yes:")
}

/// What the power menu may offer.
#[derive(Debug, Clone, Copy, PartialEq, Eq, Default)]
pub struct SystemPowerState {
    pub can_shutdown: bool,
    pub can_restart: bool,
    pub can_suspend: bool,
    pub can_hibernate: bool,
    pub can_lock: bool,
}

/// A `Can*` reply mapped to availability; a failed call is unavailable.
pub fn capability(reply: Option<&str>) -> (r: bool)
    ensures
        r == match reply {
            Some(s) => spec_parse_yes(s@),
            None => false,
        },
{
    match reply {
        Some(s) => parse_yes(s),
        None => false,
    }
}

#[derive(Debug, Clone, Copy, PartialEq, Eq, Structural)]
pub enum BatteryChargeState {
    Unknown,
    Charging,
    Discharging,
    Empty,
    Full,
}

/// UPower `State`: 1 charging, 2 discharging, 3 empty, 4 full, else unknown.
pub fn map_charge_state(state: u32) -> (r: BatteryChargeState)
    ensures
        r == (if state == 1 {
            BatteryChargeState::Charging
        } else if state == 2 {
            BatteryChargeState::Discharging
        } else if state == 3 {
            BatteryChargeState::Empty
        } else if state == 4 {
            BatteryChargeState::Full
        } else {
            BatteryChargeState::Unknown
        }),
{
    match state {
        1 => BatteryChargeState::Charging,
        2 => BatteryChargeState::Discharging,
        3 => BatteryChargeState::Empty,
        4 => BatteryChargeState::Full,
        _ => BatteryChargeState::Unknown,
    }
}

/// On battery exactly when UPower reports the discharging state.
pub fn on_battery(state: Option<u32>) -> (r: bool)
    ensures
        r == (state == Some(2u32)),
{
    match state {
        Some(s) => s == 2,
        None => false,
    }
}

/// A UPower time estimate: only a positive number of seconds is kept.
pub fn positive_seconds(t: Option<i64>) -> (r: Option<u64>)
    ensures
        r == match t {
            Some(x) => if x > 0 {
                Some(x as u64)
            } else {
                None
            },
            None => None,
        },
{
    match t {
        Some(x) => if x > 0 {
            Some(x as u64)
        } else {
            None
        },
        None => None,
    }
}

} // verus!
