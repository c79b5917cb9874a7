//! Wi-Fi management through `nmcli`: the action payload, the `nmcli`
//! argument vectors each command runs, error mapping, and the assembly of the
//! published state from scan and saved lists.
use vstd::prelude::*;

use crate::error::{DomainError, ProvidersError};
use crate::json::{
    field_bool, field_str, field_u64, spec_field_bool, spec_field_str, spec_field_u64, JsonValue,
};
use crate::text::{
    chars_vec, concat, contains, decimal, extend_chars, extend_str, owned, spec_contains,
    spec_decimal, spec_lines, spec_to_lowercase, str_eq, string_of, string_views, to_lowercase,
};
use crate::wifi_scan::{
    active_wifi_uuid, spec_active_wifi_uuid_rows, spec_nonblank, copy_network, net_views, saved_views, Ipv4Method, SavedNetwork, SavedNetworkView,
    WifiConnectionDetails, WifiNetwork, WifiNetworkView, WifiSecurity,
};

verus! {

/// A parsed Wi-Fi command.
#[derive(Debug)]
pub enum WifiAction {
    OpenSession,
    CloseSession,
    Rescan,
    SetRadio(bool),
    Connect { ssid: String, bssid: Option<String>, password: Option<String> },
    Disconnect,
    Forget { id: String },
    ConnectHidden { ssid: String, password: Option<String> },
    SetAutoconnect { id: String, enabled: bool },
    SetIpv4 {
        id: String,
        method: Ipv4Method,
        address: Option<String>,
        gateway: Option<String>,
        prefix: Option<u8>,
    },
    SetDns { id: String, servers: Vec<String> },
    SetMetered { id: String, metered: bool },
    FetchDetails { ssid: String },
}

pub enum WifiActionView {
    OpenSession,
    CloseSession,
    Rescan,
    SetRadio(bool),
    Connect { ssid: Seq<char>, bssid: Option<Seq<char>>, password: Option<Seq<char>> },
    Disconnect,
    Forget { id: Seq<char> },
    ConnectHidden { ssid: Seq<char>, password: Option<Seq<char>> },
    SetAutoconnect { id: Seq<char>, enabled: bool },
    SetIpv4 {
        id: Seq<char>,
        method: Ipv4Method,
        address: Option<Seq<char>>,
        gateway: Option<Seq<char>>,
        prefix: Option<u8>,
    },
    SetDns { id: Seq<char>, servers: Seq<Seq<char>> },
    SetMetered { id: Seq<char>, metered: bool },
    FetchDetails { ssid: Seq<char> },
}

pub open spec fn ov(o: Option<String>) -> Option<Seq<char>> {
    match o {
        Some(s) => Some(s@),
        None => None,
    }
}

impl View for WifiAction {
    type V = WifiActionView;

    open spec fn view(&self) -> WifiActionView {
        match self {
            WifiAction::OpenSession => WifiActionView::OpenSession,
            WifiAction::CloseSession => WifiActionView::CloseSession,
            WifiAction::Rescan => WifiActionView::Rescan,
            WifiAction::SetRadio(b) => WifiActionView::SetRadio(*b),
            WifiAction::Connect { ssid, bssid, password } => WifiActionView::Connect {
                ssid: ssid@,
                bssid: ov(*bssid),
                password: ov(*password),
            },
            WifiAction::Disconnect => WifiActionView::Disconnect,
            WifiAction::Forget { id } => WifiActionView::Forget { id: id@ },
            WifiAction::ConnectHidden { ssid, password } => WifiActionView::ConnectHidden {
                ssid: ssid@,
                password: ov(*password),
            },
            WifiAction::SetAutoconnect { id, enabled } => WifiActionView::SetAutoconnect {
                id: id@,
                enabled: *enabled,
            },
            WifiAction::SetIpv4 { id, method, address, gateway, prefix } =>
                WifiActionView::SetIpv4 {
                    id: id@,
                    method: *method,
                    address: ov(*address),
                    gateway: ov(*gateway),
                    prefix: *prefix,
                },
            WifiAction::SetDns { id, servers } => WifiActionView::SetDns {
                id: id@,
                servers: string_views(servers@),
            },
            WifiAction::SetMetered { id, metered } => WifiActionView::SetMetered {
                id: id@,
                metered: *metered,
            },
            WifiAction::FetchDetails { ssid } => WifiActionView::FetchDetails { ssid: ssid@ },
        }
    }
}

/// `payload[key]` as an array whose every element is a string.
pub open spec fn spec_string_array(p: JsonValue, key: Seq<char>) -> Option<Seq<Seq<char>>> {
    match p.spec_get(key) {
        Some(v) => match v.spec_as_array() {
            Some(items) => if forall|i: int| 0 <= i < items.len() ==> items[i] is Str {
                Some(items.map_values(|x: JsonValue| x->Str_0@))
            } else {
                None
            },
            None => None,
        },
        None => None,
    }
}

/// The prefix member: absent is `Some(None)`; present must be an integer in 0..=32.
pub open spec fn spec_prefix(p: JsonValue) -> Option<Option<u8>> {
    match p.spec_get("prefix"@) {
        None => Some(None),
        Some(v) => match v.spec_as_u64() {
            Some(n) => if n <= 32 {
                Some(Some(n as u8))
            } else {
                None
            },
            None => None,
        },
    }
}

pub open spec fn spec_ipv4_method(p: JsonValue) -> Option<Ipv4Method> {
    match spec_field_str(p, "method"@) {
        Some(m) => if m == "auto"@ {
            Some(Ipv4Method::Auto)
        } else if m == "manual"@ {
            Some(Ipv4Method::Manual)
        } else {
            None
        },
        None => None,
    }
}

/// The command a Wi-Fi payload denotes; `None` when rejected.
pub open spec fn spec_parse_wifi_action(p: JsonValue) -> Option<WifiActionView> {
    match spec_field_str(p, "command"@) {
        None => None,
        Some(c) => if c == "open_session"@ {
            Some(WifiActionView::OpenSession)
        } else if c == "close_session"@ {
            Some(WifiActionView::CloseSession)
        } else if c == "rescan"@ {
            Some(WifiActionView::Rescan)
        } else if c == "set_radio"@ {
            match spec_field_bool(p, "enabled"@) {
                Some(b) => Some(WifiActionView::SetRadio(b)),
                None => None,
            }
        } else if c == "connect"@ {
            match spec_field_str(p, "ssid"@) {
                Some(ssid) => Some(
                    WifiActionView::Connect {
                        ssid,
                        bssid: spec_field_str(p, "bssid"@),
                        password: spec_field_str(p, "password"@),
                    },
                ),
                None => None,
            }
        } else if c == "disconnect"@ {
            Some(WifiActionView::Disconnect)
        } else if c == "forget"@ {
            match spec_field_str(p, "id"@) {
                Some(id) => Some(WifiActionView::Forget { id }),
                None => None,
            }
        } else if c == "connect_hidden"@ {
            match spec_field_str(p, "ssid"@) {
                Some(ssid) => Some(
                    WifiActionView::ConnectHidden { ssid, password: spec_field_str(p, "password"@) },
                ),
                None => None,
            }
        } else if c == "set_autoconnect"@ {
            match (spec_field_str(p, "id"@), spec_field_bool(p, "enabled"@)) {
                (Some(id), Some(enabled)) => Some(WifiActionView::SetAutoconnect { id, enabled }),
                _ => None,
            }
        } else if c == "set_ipv4"@ {
            match (spec_field_str(p, "id"@), spec_ipv4_method(p), spec_prefix(p)) {
                (Some(id), Some(method), Some(prefix)) => Some(
                    WifiActionView::SetIpv4 {
                        id,
                        method,
                        address: spec_field_str(p, "address"@),
                        gateway: spec_field_str(p, "gateway"@),
                        prefix,
                    },
                ),
                _ => None,
            }
        } else if c == "set_dns"@ {
            match (spec_field_str(p, "id"@), spec_string_array(p, "servers"@)) {
                (Some(id), Some(servers)) => Some(WifiActionView::SetDns { id, servers }),
                _ => None,
            }
        } else if c == "set_metered"@ {
            match (spec_field_str(p, "id"@), spec_field_bool(p, "metered"@)) {
                (Some(id), Some(metered)) => Some(WifiActionView::SetMetered { id, metered }),
                _ => None,
            }
        } else if c == "fetch_details"@ {
            match spec_field_str(p, "ssid"@) {
                Some(ssid) => Some(WifiActionView::FetchDetails { ssid }),
                None => None,
            }
        } else {
            None
        },
    }
}

fn missing(what: &str, key: &str) -> (r: DomainError)
    ensures
        r is Unsupported,
        r->Unsupported_0@ == "missing or non-"@ + what@ + " '"@ + key@ + "' in wifi action"@,
{
    let mut m = concat("missing or non-", what);
    crate::text::push_str(&mut m, " '");
    crate::text::push_str(&mut m, key);
    crate::text::push_str(&mut m, "' in wifi action");
    DomainError::Unsupported(m)
}

fn non_string_element(key: &str) -> (r: DomainError)
    ensures
        r is Unsupported,
        r->Unsupported_0@ == "non-string element in '"@ + key@ + "' array"@,
{
    let mut m = concat("non-string element in '", key);
    crate::text::push_str(&mut m, "' array");
    DomainError::Unsupported(m)
}

fn required_str(p: &JsonValue, key: &str) -> (r: Result<String, DomainError>)
    ensures
        match spec_field_str(*p, key@) {
            Some(s) => r is Ok && r->Ok_0@ == s,
            None => r is Err && r->Err_0 is Unsupported,
        },
{
    match field_str(p, key) {
        Some(s) => Ok(s),
        None => Err(missing("string", key)),
    }
}

fn required_bool(p: &JsonValue, key: &str) -> (r: Result<bool, DomainError>)
    ensures
        match spec_field_bool(*p, key@) {
            Some(b) => r == Ok::<bool, DomainError>(b),
            None => r is Err && r->Err_0 is Unsupported,
        },
{
    match field_bool(p, key) {
        Some(b) => Ok(b),
        None => Err(missing("bool", key)),
    }
}

fn required_string_array(p: &JsonValue, key: &str) -> (r: Result<Vec<String>, DomainError>)
    ensures
        match spec_string_array(*p, key@) {
            Some(s) => r is Ok && string_views(r->Ok_0@) == s,
            None => r is Err && r->Err_0 is Unsupported,
        },
{
    let items = match p.get(key) {
        Some(v) => match v.as_array() {
            Some(items) => items,
            None => {
                return Err(missing("array", key));
            },
        },
        None => {
            return Err(missing("array", key));
        },
    };
    let mut out: Vec<String> = Vec::new();
    let mut i: usize = 0;
    while i < items.len()
        invariant
            i <= items.len(),
            p.spec_get(key@) is Some,
            p.spec_get(key@)->0.spec_as_array() == Some(items@),
            forall|j: int| 0 <= j < i ==> items@[j] is Str,
            string_views(out@) == items@.take(i as int).map_values(|x: JsonValue| x->Str_0@),
        decreases items.len() - i,
    {
        match &items[i] {
            JsonValue::Str(s) => {
                let ghost prev = string_views(out@);
                out.push(s.clone());
                assert(string_views(out@) =~= prev.push(s@));
                assert(items@.take(i + 1) =~= items@.take(i as int).push(items@[i as int]));
            },
            _ => {
                assert(!(items@[i as int] is Str));
                return Err(non_string_element(key));
            },
        }
        i += 1;
        assert(string_views(out@) =~= items@.take(i as int).map_values(
            |x: JsonValue| x->Str_0@,
        ));
    }
    assert(items@.take(items.len() as int) == items@);
    Ok(out)
}

fn optional_prefix(p: &JsonValue) -> (r: Result<Option<u8>, DomainError>)
    ensures
        match spec_prefix(*p) {
            Some(o) => r == Ok::<Option<u8>, DomainError>(o),
            None => r is Err && r->Err_0 is Unsupported,
        },
{
    match p.get("prefix") {
        None => Ok(None),
        Some(v) => match v.as_u64() {
            Some(n) => if n <= 32 {
                Ok(Some(n as u8))
            } else {
                Err(DomainError::unsupported("prefix must be an integer in 0..=32 in wifi action"))
            },
            None => Err(DomainError::unsupported("prefix must be an integer in 0..=32 in wifi action")),
        },
    }
}

fn parse_ipv4_method(p: &JsonValue) -> (r: Result<Ipv4Method, DomainError>)
    ensures
        match spec_ipv4_method(*p) {
            Some(m) => r == Ok::<Ipv4Method, DomainError>(m),
            None => r is Err && r->Err_0 is Unsupported,
        },
{
    let m = required_str(p, "method")?;
    if str_eq(m.as_str(), "auto") {
        Ok(Ipv4Method::Auto)
    } else if str_eq(m.as_str(), "manual") {
        Ok(Ipv4Method::Manual)
    } else {
        Err(DomainError::Unsupported(concat("unknown ipv4 method: ", m.as_str())))
    }
}

/// Parse a Wi-Fi payload; every rejection is `Unsupported`.
pub fn parse_wifi_action(payload: &JsonValue) -> (r: Result<WifiAction, DomainError>)
    ensures
        match spec_parse_wifi_action(*payload) {
            Some(a) => r is Ok && r->Ok_0@ == a,
            None => r is Err && r->Err_0 is Unsupported,
        },
{
    let command = match field_str(payload, "command") {
        Some(c) => c,
        None => {
            return Err(DomainError::unsupported("missing or non-string command in wifi action"));
        },
    };
    let c = command.as_str();
    if str_eq(c, "open_session") {
        Ok(WifiAction::OpenSession)
    } else if str_eq(c, "close_session") {
        Ok(WifiAction::CloseSession)
    } else if str_eq(c, "rescan") {
        Ok(WifiAction::Rescan)
    } else if str_eq(c, "set_radio") {
        Ok(WifiAction::SetRadio(required_bool(payload, "enabled")?))
    } else if str_eq(c, "connect") {
        let ssid = required_str(payload, "ssid")?;
        Ok(
            WifiAction::Connect {
                ssid,
                bssid: field_str(payload, "bssid"),
                password: field_str(payload, "password"),
            },
        )
    } else if str_eq(c, "disconnect") {
        Ok(WifiAction::Disconnect)
    } else if str_eq(c, "forget") {
        Ok(WifiAction::Forget { id: required_str(payload, "id")? })
    } else if str_eq(c, "connect_hidden") {
        let ssid = required_str(payload, "ssid")?;
        Ok(WifiAction::ConnectHidden { ssid, password: field_str(payload, "password") })
    } else if str_eq(c, "set_autoconnect") {
        let id = required_str(payload, "id")?;
        let enabled = required_bool(payload, "enabled")?;
        Ok(WifiAction::SetAutoconnect { id, enabled })
    } else if str_eq(c, "set_ipv4") {
        let id = required_str(payload, "id")?;
        let method = parse_ipv4_method(payload)?;
        let address = field_str(payload, "address");
        let gateway = field_str(payload, "gateway");
        let prefix = optional_prefix(payload)?;
        Ok(WifiAction::SetIpv4 { id, method, address, gateway, prefix })
    } else if str_eq(c, "set_dns") {
        let id = required_str(payload, "id")?;
        let servers = required_string_array(payload, "servers")?;
        Ok(WifiAction::SetDns { id, servers })
    } else if str_eq(c, "set_metered") {
        let id = required_str(payload, "id")?;
        let metered = required_bool(payload, "metered")?;
        Ok(WifiAction::SetMetered { id, metered })
    } else if str_eq(c, "fetch_details") {
        Ok(WifiAction::FetchDetails { ssid: required_str(payload, "ssid")? })
    } else {
        Err(DomainError::Unsupported(concat("unknown wifi command: ", c)))
    }
}

// ---------------------------------------------------------------------------
// nmcli argument vectors.
// ---------------------------------------------------------------------------

/// `nmcli device wifi connect -- <ssid> [bssid <b>] [password <p>] [hidden yes]`:
/// the `--` always sits right before the SSID so a leading-dash SSID can never
/// be read as an option; an empty BSSID is not pinned.
pub open spec fn spec_connect_args(
    ssid: Seq<char>,
    bssid: Option<Seq<char>>,
    password: Option<Seq<char>>,
    hidden: bool,
) -> Seq<Seq<char>> {
    let base = seq!["device"@, "wifi"@, "connect"@, "--"@, ssid];
    let with_bssid = match bssid {
        Some(b) => if b.len() > 0 {
            base + seq!["bssid"@, b]
        } else {
            base
        },
        None => base,
    };
    let with_password = match password {
        Some(p) => with_bssid + seq!["password"@, p],
        None => with_bssid,
    };
    if hidden {
        with_password + seq!["hidden"@, "yes"@]
    } else {
        with_password
    }
}

fn push_owned(v: &mut Vec<String>, s: &str)
    ensures
        string_views(final(v)@) == string_views(old(v)@).push(s@),
{
    v.push(owned(s));
    assert(string_views(v@) =~= string_views(old(v)@).push(s@));
}

/// Build the `nmcli device wifi connect` argument vector.
pub fn connect_args(ssid: &str, bssid: Option<&str>, password: Option<&str>, hidden: bool) -> (r:
    Vec<String>)
    ensures
        string_views(r@) == spec_connect_args(
            ssid@,
            match bssid {
                Some(b) => Some(b@),
                None => None,
            },
            match password {
                Some(p) => Some(p@),
                None => None,
            },
            hidden,
        ),
        string_views(r@)[3] == "--"@,
        string_views(r@)[4] == ssid@,
{
    let mut args: Vec<String> = Vec::new();
    push_owned(&mut args, "device");
    push_owned(&mut args, "wifi");
    push_owned(&mut args, "connect");
    push_owned(&mut args, "--");
    push_owned(&mut args, ssid);
    let ghost base = string_views(args@);
    assert(base =~= seq!["device"@, "wifi"@, "connect"@, "--"@, ssid@]);
    match bssid {
        Some(b) => {
            if !b.is_empty() {
                push_owned(&mut args, "bssid");
                push_owned(&mut args, b);
                assert(string_views(args@) =~= base + seq!["bssid"@, b@]);
            }
        },
        None => {},
    }
    let ghost wb = string_views(args@);
    match password {
        Some(p) => {
            push_owned(&mut args, "password");
            push_owned(&mut args, p);
            assert(string_views(args@) =~= wb + seq!["password"@, p@]);
        },
        None => {},
    }
    let ghost wp = string_views(args@);
    if hidden {
        push_owned(&mut args, "hidden");
        push_owned(&mut args, "yes");
        assert(string_views(args@) =~= wp + seq!["hidden"@, "yes"@]);
    }
    args
}

/// The `connection modify` arguments of a `set_ipv4` command: the method, and
/// for a manual method the `address/prefix` pair when both are given and the
/// gateway when given.
pub open spec fn spec_ipv4_modify_args(
    id: Seq<char>,
    method: Ipv4Method,
    address: Option<Seq<char>>,
    gateway: Option<Seq<char>>,
    prefix: Option<u8>,
) -> Seq<Seq<char>> {
    let base = seq![
        "connection"@,
        "modify"@,
        "uuid"@,
        id,
        "ipv4.method"@,
        if method == Ipv4Method::Auto { "auto"@ } else { "manual"@ },
    ];
    if method == Ipv4Method::Manual {
        let with_addr = match (address, prefix) {
            (Some(a), Some(p)) => base + seq!["ipv4.addresses"@, a + "/"@ + spec_decimal(p as nat)],
            _ => base,
        };
        match gateway {
            Some(g) => with_addr + seq!["ipv4.gateway"@, g],
            None => with_addr,
        }
    } else {
        base
    }
}

pub fn ipv4_modify_args(
    id: &str,
    method: Ipv4Method,
    address: Option<&str>,
    gateway: Option<&str>,
    prefix: Option<u8>,
) -> (r: Vec<String>)
    ensures
        string_views(r@) == spec_ipv4_modify_args(
            id@,
            method,
            match address {
                Some(a) => Some(a@),
                None => None,
            },
            match gateway {
                Some(g) => Some(g@),
                None => None,
            },
            prefix,
        ),
{
    let mut args: Vec<String> = Vec::new();
    push_owned(&mut args, "connection");
    push_owned(&mut args, "modify");
    push_owned(&mut args, "uuid");
    push_owned(&mut args, id);
    push_owned(&mut args, "ipv4.method");
    match method {
        Ipv4Method::Auto => push_owned(&mut args, "auto"),
        Ipv4Method::Manual => push_owned(&mut args, "manual"),
    }
    let ghost base = string_views(args@);
    if method == Ipv4Method::Manual {
        match (address, prefix) {
            (Some(a), Some(p)) => {
                push_owned(&mut args, "ipv4.addresses");
                let ghost wl = string_views(args@);
                let mut v = chars_vec(a);
                v.push('/');
                let d = decimal(p as u64);
                extend_chars(&mut v, &d);
                proof { reveal_strlit("/"); }
                assert(v@ =~= a@ + "/"@ + spec_decimal(p as nat));
                let sv = string_of(&v);
                args.push(sv);
                assert(string_views(args@) =~= wl.push(sv@));
                assert(string_views(args@) =~= base + seq![
                    "ipv4.addresses"@,
                    a@ + "/"@ + spec_decimal(p as nat),
                ]);
            },
            _ => {},
        }
        let ghost wa = string_views(args@);
        match gateway {
            Some(g) => {
                push_owned(&mut args, "ipv4.gateway");
                push_owned(&mut args, g);
                assert(string_views(args@) =~= wa + seq!["ipv4.gateway"@, g@]);
            },
            None => {},
        }
    }
    args
}

/// `servers.join(",")`.
pub open spec fn spec_join_comma(s: Seq<Seq<char>>) -> Seq<char>
    decreases s.len(),
{
    if s.len() == 0 {
        Seq::empty()
    } else if s.len() == 1 {
        s[0]
    } else {
        spec_join_comma(s.drop_last()) + ","@ + s.last()
    }
}

pub fn join_comma(s: &Vec<String>) -> (r: String)
    ensures
        r@ == spec_join_comma(string_views(s@)),
{
    let mut v: Vec<char> = Vec::new();
    let mut i: usize = 0;
    while i < s.len()
        invariant
            i <= s.len(),
            v@ == spec_join_comma(string_views(s@).take(i as int)),
        decreases s.len() - i,
    {
        assert(string_views(s@).take(i + 1).drop_last() == string_views(s@).take(i as int));
        if i > 0 {
            extend_str(&mut v, ",");
        }
        let w = chars_vec(s[i].as_str());
        extend_chars(&mut v, &w);
        i += 1;
    }
    assert(string_views(s@).take(s.len() as int) == string_views(s@));
    string_of(&v)
}

/// The single `nmcli` invocation of the commands that run exactly one;
/// `None` for session commands and for those that run a sequence (connect,
/// disconnect, IPv4, DNS, details).
pub open spec fn spec_nmcli_arguments(c: WifiActionView) -> Option<Seq<Seq<char>>> {
    match c {
        WifiActionView::Rescan => Some(seq!["device"@, "wifi"@, "rescan"@]),
        WifiActionView::SetRadio(on) => Some(
            seq!["radio"@, "wifi"@, if on { "on"@ } else { "off"@ }],
        ),
        WifiActionView::Forget { id } => Some(seq!["connection"@, "delete"@, "uuid"@, id]),
        WifiActionView::SetAutoconnect { id, enabled } => Some(
            seq![
                "connection"@,
                "modify"@,
                "uuid"@,
                id,
                "connection.autoconnect"@,
                if enabled { "yes"@ } else { "no"@ },
            ],
        ),
        WifiActionView::SetMetered { id, metered } => Some(
            seq![
                "connection"@,
                "modify"@,
                "uuid"@,
                id,
                "connection.metered"@,
                if metered { "yes"@ } else { "no"@ },
            ],
        ),
        _ => None,
    }
}

pub fn nmcli_arguments(command: &WifiAction) -> (r: Option<Vec<String>>)
    ensures
        match spec_nmcli_arguments(command@) {
            Some(a) => r is Some && string_views(r->0@) == a,
            None => r is None,
        },
{
    let mut args: Vec<String> = Vec::new();
    match command {
        WifiAction::Rescan => {
            push_owned(&mut args, "device");
            push_owned(&mut args, "wifi");
            push_owned(&mut args, "rescan");
        },
        WifiAction::SetRadio(on) => {
            push_owned(&mut args, "radio");
            push_owned(&mut args, "wifi");
            if *on {
                push_owned(&mut args, "on");
            } else {
                push_owned(&mut args, "off");
            }
        },
        WifiAction::Forget { id } => {
            push_owned(&mut args, "connection");
            push_owned(&mut args, "delete");
            push_owned(&mut args, "uuid");
            push_owned(&mut args, id.as_str());
        },
        WifiAction::SetAutoconnect { id, enabled } => {
            push_owned(&mut args, "connection");
            push_owned(&mut args, "modify");
            push_owned(&mut args, "uuid");
            push_owned(&mut args, id.as_str());
            push_owned(&mut args, "connection.autoconnect");
            if *enabled {
                push_owned(&mut args, "yes");
            } else {
                push_owned(&mut args, "no");
            }
        },
        WifiAction::SetMetered { id, metered } => {
            push_owned(&mut args, "connection");
            push_owned(&mut args, "modify");
            push_owned(&mut args, "uuid");
            push_owned(&mut args, id.as_str());
            push_owned(&mut args, "connection.metered");
            if *metered {
                push_owned(&mut args, "yes");
            } else {
                push_owned(&mut args, "no");
            }
        },
        _ => {
            return None;
        },
    }
    assert(string_views(args@) =~= spec_nmcli_arguments(command@)->0);
    Some(args)
}

/// `connection modify uuid <id> ipv4.dns <servers joined by ','>`.
pub fn dns_modify_args(id: &str, servers: &Vec<String>) -> (r: Vec<String>)
    ensures
        string_views(r@) == seq![
            "connection"@,
            "modify"@,
            "uuid"@,
            id@,
            "ipv4.dns"@,
            spec_join_comma(string_views(servers@)),
        ],
{
    let mut args: Vec<String> = Vec::new();
    push_owned(&mut args, "connection");
    push_owned(&mut args, "modify");
    push_owned(&mut args, "uuid");
    push_owned(&mut args, id);
    push_owned(&mut args, "ipv4.dns");
    let ghost before = string_views(args@);
    assert(before =~= seq!["connection"@, "modify"@, "uuid"@, id@, "ipv4.dns"@]);
    let j = join_comma(servers);
    args.push(j);
    assert(string_views(args@) =~= before.push(spec_join_comma(string_views(servers@))));
    assert(string_views(args@) =~= seq![
        "connection"@,
        "modify"@,
        "uuid"@,
        id@,
        "ipv4.dns"@,
        spec_join_comma(string_views(servers@)),
    ]);
    args
}

// ---------------------------------------------------------------------------
// Error mapping.
// ---------------------------------------------------------------------------

/// A spawn failure means nmcli is unusable (`Unsupported` with its message);
/// any other failure is `ActionFailed` carrying the error's message.
pub fn map_nmcli_error(error: ProvidersError) -> (r: DomainError)
    ensures
        match error {
            ProvidersError::Spawn(m) => r == DomainError::Unsupported(m),
            _ => r is ActionFailed && r->reason@ == error.spec_message(),
        },
{
    match error {
        ProvidersError::Spawn(message) => DomainError::Unsupported(message),
        other => DomainError::ActionFailed { reason: other.message() },
    }
}

/// nmcli's wrong-password signatures in a lower-cased message.
pub open spec fn spec_is_wrong_password(lowered: Seq<char>) -> bool {
    spec_contains(lowered, "secrets were required"@) || spec_contains(
        lowered,
        "no secrets provided"@,
    )
}

/// A connect failure whose message shows a wrong password becomes the stable
/// reason `incorrect_password`; any other goes through `map_nmcli_error`.
pub fn map_connect_error(error: ProvidersError) -> (r: DomainError)
    ensures
        spec_is_wrong_password(spec_to_lowercase(error.spec_message())) ==> (r is ActionFailed
            && r->reason@ == "incorrect_password"@),
        !spec_is_wrong_password(spec_to_lowercase(error.spec_message())) ==> match error {
            ProvidersError::Spawn(m) => r == DomainError::Unsupported(m),
            _ => r is ActionFailed && r->reason@ == error.spec_message(),
        },
{
    let message = error.message();
    let lowered = to_lowercase(message.as_str());
    let l = chars_vec(lowered.as_str());
    if contains(&l, "secrets were required") || contains(&l, "no secrets provided") {
        return DomainError::action_failed("incorrect_password");
    }
    map_nmcli_error(error)
}

/// The error of a re-apply (`connection up`) failure after a successful modify.
pub fn apply_error(error: &ProvidersError) -> (r: DomainError)
    ensures
        r is ActionFailed && r->reason@ == "settings saved but failed to apply: "@
            + error.spec_message(),
{
    let m = error.message();
    DomainError::ActionFailed { reason: concat("settings saved but failed to apply: ", m.as_str()) }
}

// ---------------------------------------------------------------------------
// State assembly.
// ---------------------------------------------------------------------------

/// The connected network.
#[derive(Debug, Clone)]
pub struct ActiveWifi {
    pub ssid: String,
    pub signal_percent: u8,
    pub security: WifiSecurity,
    pub details: Option<WifiConnectionDetails>,
}

/// The Wi-Fi state published to subscribers.
#[derive(Debug, Clone)]
pub struct WifiState {
    pub available: bool,
    pub radio_enabled: bool,
    pub scanning: bool,
    pub active: Option<ActiveWifi>,
    pub networks: Vec<WifiNetwork>,
    pub saved: Vec<SavedNetwork>,
}

/// Some saved profile has SSID `ssid`.
pub open spec fn spec_has_saved(saved: Seq<SavedNetworkView>, ssid: Seq<char>) -> bool {
    exists|i: int| 0 <= i < saved.len() && saved[i].ssid == ssid
}

/// Some scanned network has SSID `ssid`.
pub open spec fn spec_in_scan(nets: Seq<WifiNetworkView>, ssid: Seq<char>) -> bool {
    exists|i: int| 0 <= i < nets.len() && nets[i].ssid == ssid
}

fn any_saved(saved: &Vec<SavedNetwork>, ssid: &str) -> (r: bool)
    ensures
        r == spec_has_saved(saved_views(saved@), ssid@),
{
    let mut i: usize = 0;
    while i < saved.len()
        invariant
            i <= saved.len(),
            forall|j: int| 0 <= j < i ==> saved@[j].ssid@ != ssid@,
        decreases saved.len() - i,
    {
        if str_eq(saved[i].ssid.as_str(), ssid) {
            assert(saved_views(saved@)[i as int].ssid == ssid@);
            return true;
        }
        i += 1;
    }
    assert forall|j: int| 0 <= j < saved_views(saved@).len() implies saved_views(saved@)[j].ssid != ssid@ by {
        assert(saved_views(saved@)[j] == saved@[j]@);
    }
    false
}

fn any_scanned(nets: &Vec<WifiNetwork>, ssid: &str) -> (r: bool)
    ensures
        r == spec_in_scan(net_views(nets@), ssid@),
{
    let mut i: usize = 0;
    while i < nets.len()
        invariant
            i <= nets.len(),
            forall|j: int| 0 <= j < i ==> nets@[j].ssid@ != ssid@,
        decreases nets.len() - i,
    {
        if str_eq(nets[i].ssid.as_str(), ssid) {
            assert(net_views(nets@)[i as int].ssid == ssid@);
            return true;
        }
        i += 1;
    }
    assert forall|j: int| 0 <= j < net_views(nets@).len() implies net_views(nets@)[j].ssid != ssid@ by {
        assert(net_views(nets@)[j] == nets@[j]@);
    }
    false
}

/// Assemble the state from already-read parts: a network is `saved` when its
/// (non-empty) SSID names a saved profile, a profile is `in_range` when its
/// (non-empty) SSID is in the scan list, and the active network is the first
/// active scan row (without details).
pub fn assemble_state(
    radio_enabled: bool,
    scanning: bool,
    networks: Vec<WifiNetwork>,
    saved: Vec<SavedNetwork>,
) -> (r: WifiState)
    ensures
        r.available,
        r.radio_enabled == radio_enabled,
        r.scanning == scanning,
        r.networks@.len() == networks@.len(),
        r.saved@.len() == saved@.len(),
        forall|i: int|
            0 <= i < networks@.len() ==> r.networks@[i]@ == (WifiNetworkView {
                saved: networks@[i].ssid@.len() > 0 && spec_has_saved(
                    saved_views(saved@),
                    networks@[i].ssid@,
                ),
                ..networks@[i]@
            }),
        forall|i: int|
            0 <= i < saved@.len() ==> r.saved@[i]@ == (SavedNetworkView {
                in_range: saved@[i].ssid@.len() > 0 && spec_in_scan(
                    net_views(networks@),
                    saved@[i].ssid@,
                ),
                ..saved@[i]@
            }),
        match r.active {
            Some(a) => exists|k: int|
                0 <= k < networks@.len() && networks@[k].active && (forall|j: int|
                    0 <= j < k ==> !networks@[j].active) && a.ssid@ == networks@[k].ssid@
                    && a.signal_percent == networks@[k].signal_percent && a.security
                    == networks@[k].security && a.details is None,
            None => forall|j: int| 0 <= j < networks@.len() ==> !networks@[j].active,
        },
{
    let mut nets: Vec<WifiNetwork> = Vec::new();
    let mut i: usize = 0;
    while i < networks.len()
        invariant
            i <= networks.len(),
            nets@.len() == i,
            forall|j: int|
                0 <= j < i ==> nets@[j]@ == (WifiNetworkView {
                    saved: networks@[j].ssid@.len() > 0 && spec_has_saved(
                        saved_views(saved@),
                        networks@[j].ssid@,
                    ),
                    ..networks@[j]@
                }),
        decreases networks.len() - i,
    {
        let mut n = copy_network(&networks[i]);
        let is_saved = !n.ssid.as_str().is_empty() && any_saved(&saved, n.ssid.as_str());
        n.saved = is_saved;
        nets.push(n);
        i += 1;
    }
    let mut profiles: Vec<SavedNetwork> = Vec::new();
    let mut i: usize = 0;
    while i < saved.len()
        invariant
            i <= saved.len(),
            profiles@.len() == i,
            forall|j: int|
                0 <= j < i ==> profiles@[j]@ == (SavedNetworkView {
                    in_range: saved@[j].ssid@.len() > 0 && spec_in_scan(
                        net_views(networks@),
                        saved@[j].ssid@,
                    ),
                    ..saved@[j]@
                }),
        decreases saved.len() - i,
    {
        let p = &saved[i];
        let in_range = !p.ssid.as_str().is_empty() && any_scanned(&networks, p.ssid.as_str());
        profiles.push(
            SavedNetwork {
                id: p.id.clone(),
                ssid: p.ssid.clone(),
                security: p.security,
                autoconnect: p.autoconnect,
                in_range,
            },
        );
        i += 1;
    }
    let mut i: usize = 0;
    while i < networks.len() && !networks[i].active
        invariant
            i <= networks.len(),
            forall|j: int| 0 <= j < i ==> !networks@[j].active,
        decreases networks.len() - i,
    {
        i += 1;
    }
    let active: Option<ActiveWifi> = if i < networks.len() {
        Some(
            ActiveWifi {
                ssid: networks[i].ssid.clone(),
                signal_percent: networks[i].signal_percent,
                security: networks[i].security,
                details: None,
            },
        )
    } else {
        None
    };
    WifiState { available: true, radio_enabled, scanning, active, networks: nets, saved: profiles }
}


// ---------------------------------------------------------------------------
// Executing a command.
// ---------------------------------------------------------------------------

/// `map_nmcli_error`'s rule: a spawn failure is `Unsupported` with its
/// message, any other failure `ActionFailed` with the error's message.
pub open spec fn spec_nmcli_error_is(e: ProvidersError, d: DomainError) -> bool {
    match e {
        ProvidersError::Spawn(m) => d == DomainError::Unsupported(m),
        _ => d is ActionFailed && d->reason@ == e.spec_message(),
    }
}

/// `map_connect_error`'s rule: a wrong-password message is
/// `incorrect_password`, anything else follows `map_nmcli_error`.
pub open spec fn spec_connect_error_is(e: ProvidersError, d: DomainError) -> bool {
    if spec_is_wrong_password(spec_to_lowercase(e.spec_message())) {
        d is ActionFailed && d->reason@ == "incorrect_password"@
    } else {
        spec_nmcli_error_is(e, d)
    }
}

/// `apply_error`'s rule.
pub open spec fn spec_apply_error_is(e: ProvidersError, d: DomainError) -> bool {
    d is ActionFailed && d->reason@ == "settings saved but failed to apply: "@ + e.spec_message()
}

/// How a failed `nmcli` run is reported.
#[derive(Debug, Clone, Copy, PartialEq, Eq)]
pub enum FailureRule {
    Nmcli,
    Connect,
    Apply,
}

pub open spec fn spec_error_is(rule: FailureRule, e: ProvidersError, d: DomainError) -> bool {
    match rule {
        FailureRule::Nmcli => spec_nmcli_error_is(e, d),
        FailureRule::Connect => spec_connect_error_is(e, d),
        FailureRule::Apply => spec_apply_error_is(e, d),
    }
}

fn report(rule: FailureRule, e: &ProvidersError) -> (r: DomainError)
    ensures
        spec_error_is(rule, *e, r),
{
    match rule {
        FailureRule::Nmcli => map_nmcli_error(e.copy()),
        FailureRule::Connect => map_connect_error(e.copy()),
        FailureRule::Apply => apply_error(e),
    }
}

/// What executing a command does next.
#[derive(Debug)]
pub enum WifiStep {
    /// Set the scan session flag (closing also forgets the last published
    /// state), wake the scanner, and succeed.
    SetSession { active: bool },
    /// Run `nmcli` with these arguments and report its result.
    Run { args: Vec<String> },
    /// Done: the outcome (an optional message), and whether to wake the
    /// scanner first.
    Finish { outcome: Result<Option<String>, DomainError>, notify: bool },
}

pub open spec fn spec_is_run(r: WifiStep, args: Seq<Seq<char>>) -> bool {
    r matches WifiStep::Run { args: a } && string_views(a@) == args
}

pub open spec fn spec_is_ok(r: WifiStep, message: Option<Seq<char>>, notify: bool) -> bool {
    r matches WifiStep::Finish { outcome: Ok(m), notify: n } && n == notify && match m {
        Some(s) => message == Some(s@),
        None => message is None,
    }
}

pub open spec fn spec_is_failure(r: WifiStep, rule: FailureRule, e: ProvidersError, notify: bool) -> bool {
    r matches WifiStep::Finish { outcome: Err(d), notify: n } && n == notify && spec_error_is(rule, e, d)
}

/// A command run once: run it; then fail by `rule` or succeed (waking the
/// scanner on success, and on failure too when `notify_on_failure`).
pub open spec fn spec_one_run(
    r: WifiStep,
    done: Seq<Result<String, ProvidersError>>,
    args: Seq<Seq<char>>,
    rule: FailureRule,
    notify_on_failure: bool,
    notify_on_success: bool,
) -> bool {
    if done.len() == 0 {
        spec_is_run(r, args)
    } else {
        match done[0] {
            Err(e) => spec_is_failure(r, rule, e, notify_on_failure),
            Ok(_) => spec_is_ok(r, None, notify_on_success),
        }
    }
}

/// A modify followed by a re-apply: a failed modify follows
/// `map_nmcli_error`, a failed re-apply `apply_error`.
pub open spec fn spec_modify_then_apply(
    r: WifiStep,
    done: Seq<Result<String, ProvidersError>>,
    modify: Seq<Seq<char>>,
    id: Seq<char>,
) -> bool {
    if done.len() == 0 {
        spec_is_run(r, modify)
    } else {
        match done[0] {
            Err(e) => spec_is_failure(r, FailureRule::Nmcli, e, false),
            Ok(_) => if done.len() == 1 {
                spec_is_run(r, seq!["connection"@, "up"@, "uuid"@, id])
            } else {
                match done[1] {
                    Err(e) => spec_is_failure(r, FailureRule::Apply, e, false),
                    Ok(_) => spec_is_ok(r, None, true),
                }
            },
        }
    }
}

pub open spec fn spec_show_active_args() -> Seq<Seq<char>> {
    seq!["-t"@, "-f"@, "UUID,TYPE,DEVICE"@, "connection"@, "show"@, "--active"@]
}

pub open spec fn spec_details_args(ssid: Seq<char>) -> Seq<Seq<char>> {
    seq![
        "-t"@,
        "-f"@,
        "IP4.ADDRESS,IP4.GATEWAY,IP4.DNS,GENERAL.HWADDR,ipv4.method,connection.metered"@,
        "connection"@,
        "show"@,
        ssid,
    ]
}

/// The next step of executing `c`, given the results of the `nmcli` runs made
/// so far, in order.
pub open spec fn spec_next_wifi_step(
    c: WifiActionView,
    done: Seq<Result<String, ProvidersError>>,
    r: WifiStep,
) -> bool {
    match c {
        WifiActionView::OpenSession => r matches WifiStep::SetSession { active } && active,
        WifiActionView::CloseSession => r matches WifiStep::SetSession { active } && !active,
        WifiActionView::Connect { ssid, bssid, password } => spec_one_run(
            r,
            done,
            spec_connect_args(ssid, bssid, password, false),
            FailureRule::Connect,
            true,
            true,
        ),
        WifiActionView::ConnectHidden { ssid, password } => spec_one_run(
            r,
            done,
            spec_connect_args(ssid, None, password, true),
            FailureRule::Connect,
            true,
            true,
        ),
        WifiActionView::Disconnect => if done.len() == 0 {
            spec_is_run(r, spec_show_active_args())
        } else {
            match done[0] {
                Err(e) => spec_is_failure(r, FailureRule::Nmcli, e, false),
                Ok(raw) => match spec_active_wifi_uuid_rows(spec_nonblank(spec_lines(raw@))) {
                    None => spec_is_ok(r, Some("no active wifi connection"@), true),
                    Some(u) => if done.len() == 1 {
                        spec_is_run(r, seq!["connection"@, "down"@, "uuid"@, u])
                    } else {
                        match done[1] {
                            Err(e) => spec_is_failure(r, FailureRule::Nmcli, e, false),
                            Ok(_) => spec_is_ok(r, None, true),
                        }
                    },
                },
            }
        },
        WifiActionView::SetIpv4 { id, method, address, gateway, prefix } => spec_modify_then_apply(
            r,
            done,
            spec_ipv4_modify_args(id, method, address, gateway, prefix),
            id,
        ),
        WifiActionView::SetDns { id, servers } => spec_modify_then_apply(
            r,
            done,
            seq![
                "connection"@,
                "modify"@,
                "uuid"@,
                id,
                "ipv4.dns"@,
                spec_join_comma(servers),
            ],
            id,
        ),
        WifiActionView::FetchDetails { ssid } => spec_one_run(
            r,
            done,
            spec_details_args(ssid),
            FailureRule::Nmcli,
            false,
            false,
        ),
        _ => match spec_nmcli_arguments(c) {
            Some(args) => spec_one_run(r, done, args, FailureRule::Nmcli, false, true),
            None => false,
        },
    }
}

fn run_step(args: Vec<String>) -> (r: WifiStep)
    ensures
        spec_is_run(r, string_views(args@)),
{
    WifiStep::Run { args }
}

fn fail_step(rule: FailureRule, e: &ProvidersError, notify: bool) -> (r: WifiStep)
    ensures
        spec_is_failure(r, rule, *e, notify),
{
    WifiStep::Finish { outcome: Err(report(rule, e)), notify }
}

fn ok_step(notify: bool) -> (r: WifiStep)
    ensures
        spec_is_ok(r, None, notify),
{
    WifiStep::Finish { outcome: Ok(None), notify }
}

fn one_run(
    done: &[Result<String, ProvidersError>],
    args: Vec<String>,
    rule: FailureRule,
    notify_on_failure: bool,
    notify_on_success: bool,
) -> (r: WifiStep)
    ensures
        spec_one_run(r, done@, string_views(args@), rule, notify_on_failure, notify_on_success),
{
    if done.len() == 0 {
        return run_step(args);
    }
    match &done[0] {
        Err(e) => fail_step(rule, e, notify_on_failure),
        Ok(_) => ok_step(notify_on_success),
    }
}

fn modify_then_apply(done: &[Result<String, ProvidersError>], modify: Vec<String>, id: &str) -> (r:
    WifiStep)
    ensures
        spec_modify_then_apply(r, done@, string_views(modify@), id@),
{
    if done.len() == 0 {
        return run_step(modify);
    }
    match &done[0] {
        Err(e) => fail_step(FailureRule::Nmcli, e, false),
        Ok(_) => if done.len() == 1 {
            let mut v: Vec<String> = Vec::new();
            v.push(owned("connection"));
            v.push(owned("up"));
            v.push(owned("uuid"));
            v.push(owned(id));
            assert(string_views(v@) =~= seq!["connection"@, "up"@, "uuid"@, id@]);
            run_step(v)
        } else {
            match &done[1] {
                Err(e) => fail_step(FailureRule::Apply, e, false),
                Ok(_) => ok_step(true),
            }
        },
    }
}

fn strs(items: &[&str]) -> (r: Vec<String>)
    ensures
        string_views(r@) == items@.map_values(|s: &str| s@),
{
    let mut v: Vec<String> = Vec::new();
    let mut i: usize = 0;
    while i < items.len()
        invariant
            i <= items@.len(),
            string_views(v@) =~= items@.map_values(|s: &str| s@).take(i as int),
        decreases items@.len() - i,
    {
        let ghost prev = string_views(v@);
        v.push(owned(items[i]));
        assert(string_views(v@) =~= prev.push(items@[i as int]@));
        i += 1;
    }
    v
}

/// The next step of executing `command`, given the results of the `nmcli`
/// runs made so far (the caller runs each `Run`, appends its result, and asks
/// again until `SetSession` or `Finish`).
pub fn next_wifi_step(command: &WifiAction, done: &[Result<String, ProvidersError>]) -> (r: WifiStep)
    ensures
        spec_next_wifi_step(command@, done@, r),
{
    match command {
        WifiAction::OpenSession => WifiStep::SetSession { active: true },
        WifiAction::CloseSession => WifiStep::SetSession { active: false },
        WifiAction::Connect { ssid, bssid, password } => {
            let b = match bssid {
                Some(b) => Some(b.as_str()),
                None => None,
            };
            let p = match password {
                Some(p) => Some(p.as_str()),
                None => None,
            };
            let args = connect_args(ssid.as_str(), b, p, false);
            one_run(done, args, FailureRule::Connect, true, true)
        },
        WifiAction::ConnectHidden { ssid, password } => {
            let p = match password {
                Some(p) => Some(p.as_str()),
                None => None,
            };
            let args = connect_args(ssid.as_str(), None, p, true);
            one_run(done, args, FailureRule::Connect, true, true)
        },
        WifiAction::Disconnect => {
            if done.len() == 0 {
                let args = strs(&["-t", "-f", "UUID,TYPE,DEVICE", "connection", "show", "--active"]);
                assert(string_views(args@) =~= spec_show_active_args());
                return run_step(args);
            }
            match &done[0] {
                Err(e) => fail_step(FailureRule::Nmcli, e, false),
                Ok(raw) => match active_wifi_uuid(raw.as_str()) {
                    None => WifiStep::Finish {
                        outcome: Ok(Some(owned("no active wifi connection"))),
                        notify: true,
                    },
                    Some(u) => if done.len() == 1 {
                        let mut v: Vec<String> = Vec::new();
                        v.push(owned("connection"));
                        v.push(owned("down"));
                        v.push(owned("uuid"));
                        let ghost uv = u@;
                        v.push(u);
                        assert(string_views(v@) =~= seq!["connection"@, "down"@, "uuid"@, uv]);
                        run_step(v)
                    } else {
                        match &done[1] {
                            Err(e) => fail_step(FailureRule::Nmcli, e, false),
                            Ok(_) => ok_step(true),
                        }
                    },
                },
            }
        },
        WifiAction::SetIpv4 { id, method, address, gateway, prefix } => {
            let a = match address {
                Some(a) => Some(a.as_str()),
                None => None,
            };
            let g = match gateway {
                Some(g) => Some(g.as_str()),
                None => None,
            };
            let args = ipv4_modify_args(id.as_str(), *method, a, g, *prefix);
            modify_then_apply(done, args, id.as_str())
        },
        WifiAction::SetDns { id, servers } => {
            let args = dns_modify_args(id.as_str(), servers);
            modify_then_apply(done, args, id.as_str())
        },
        WifiAction::FetchDetails { ssid } => {
            let mut args = strs(
                &[
                    "-t",
                    "-f",
                    "IP4.ADDRESS,IP4.GATEWAY,IP4.DNS,GENERAL.HWADDR,ipv4.method,connection.metered",
                    "connection",
                    "show",
                ],
            );
            let ghost prev = string_views(args@);
            args.push(ssid.clone());
            assert(string_views(args@) =~= prev.push(ssid@));
            assert(string_views(args@) =~= spec_details_args(ssid@));
            one_run(done, args, FailureRule::Nmcli, false, false)
        },
        _ => {
            let args = match nmcli_arguments(command) {
                Some(a) => a,
                None => {
                    return WifiStep::SetSession { active: false };
                },
            };
            one_run(done, args, FailureRule::Nmcli, false, true)
        },
    }
}

} // verus!
