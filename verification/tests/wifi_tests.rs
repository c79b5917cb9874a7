use quantum_providers::error::{DomainError, ProvidersError};
use quantum_providers::json::JsonValue;
use quantum_providers::wifi::{
    assemble_state, connect_args, dns_modify_args, ipv4_modify_args, join_comma,
    map_connect_error, map_nmcli_error, next_wifi_step, nmcli_arguments, parse_wifi_action,
    WifiAction, WifiStep,
};
use quantum_providers::wifi_scan::{
    active_wifi_uuid, map_band, map_security, parse_details, parse_radio, parse_saved_list,
    parse_scan_list, split_terse_line, unescape_terse, Ipv4Method, SavedNetwork, WifiBand,
    WifiNetwork, WifiSecurity,
};

fn s(v: &str) -> JsonValue {
    JsonValue::Str(v.to_string())
}

fn obj(pairs: Vec<(&str, JsonValue)>) -> JsonValue {
    JsonValue::Object(pairs.into_iter().map(|(k, v)| (k.to_string(), v)).collect())
}

const SAMPLE_SCAN: &str = "\
Skynet_5G:3C\\:22\\:FB\\:1A\\:8E\\:00:92:WPA2 WPA3:5180:yes:*
Skynet_5G:3C\\:22\\:FB\\:1A\\:8E\\:01:70:WPA2 WPA3:2412:no:
CoffeeShopFree:AA\\:BB\\:CC\\:DD\\:EE\\:FF:55::2437:no:
:11\\:22\\:33\\:44\\:55\\:66:30:WPA2:5200:no:";

#[test]
fn parse_radio_reads_enabled() {
    assert!(parse_radio("enabled\n"));
    assert!(!parse_radio("disabled\n"));
    assert!(parse_radio("ENABLED"));
}

#[test]
fn connect_args_pins_bssid_when_present() {
    let args = connect_args("HomeNet", Some("AA:BB:CC:DD:EE:FF"), Some("pw"), false);
    assert_eq!(
        args,
        vec!["device", "wifi", "connect", "--", "HomeNet", "bssid", "AA:BB:CC:DD:EE:FF", "password", "pw"]
    );
}

#[test]
fn connect_args_omits_bssid_when_absent_or_empty() {
    let none = connect_args("HomeNet", None, None, false);
    assert_eq!(none, vec!["device", "wifi", "connect", "--", "HomeNet"]);
    let empty = connect_args("HomeNet", Some(""), None, false);
    assert_eq!(empty, vec!["device", "wifi", "connect", "--", "HomeNet"]);
}

#[test]
fn connect_args_appends_hidden_yes() {
    let args = connect_args("HomeNet", None, Some("pw"), true);
    assert_eq!(args, vec!["device", "wifi", "connect", "--", "HomeNet", "password", "pw", "hidden", "yes"]);
}

#[test]
fn connect_args_inserts_end_of_options_before_ssid() {
    let leading_dash = connect_args("-rogue", None, None, false);
    let separator_index = leading_dash
        .iter()
        .position(|token| *token == "--")
        .expect("connect_args must contain a -- separator");
    let ssid_index = leading_dash
        .iter()
        .position(|token| *token == "-rogue")
        .expect("connect_args must contain the SSID");
    assert_eq!(separator_index + 1, ssid_index, "-- must immediately precede the SSID");
    assert_eq!(leading_dash, vec!["device", "wifi", "connect", "--", "-rogue"]);
}

#[test]
fn parses_connect_with_password() {
    match parse_wifi_action(&obj(vec![("command", s("connect")), ("ssid", s("Net")), ("password", s("pw"))])) {
        Ok(WifiAction::Connect { ssid, password, .. }) => {
            assert_eq!(ssid, "Net");
            assert_eq!(password.as_deref(), Some("pw"));
        }
        _ => panic!("expected Connect"),
    }
}

#[test]
fn parses_connect_without_password() {
    match parse_wifi_action(&obj(vec![("command", s("connect")), ("ssid", s("Net"))])) {
        Ok(WifiAction::Connect { password: None, .. }) => {}
        _ => panic!("expected Connect with no password"),
    }
}

#[test]
fn parses_session_and_radio_commands() {
    assert!(matches!(parse_wifi_action(&obj(vec![("command", s("open_session"))])), Ok(WifiAction::OpenSession)));
    assert!(matches!(parse_wifi_action(&obj(vec![("command", s("close_session"))])), Ok(WifiAction::CloseSession)));
    assert!(matches!(
        parse_wifi_action(&obj(vec![("command", s("set_radio")), ("enabled", JsonValue::Bool(true))])),
        Ok(WifiAction::SetRadio(true))
    ));
}

#[test]
fn parses_set_ipv4_manual() {
    match parse_wifi_action(&obj(vec![
        ("command", s("set_ipv4")),
        ("id", s("Net")),
        ("method", s("manual")),
        ("address", s("10.0.0.2")),
        ("gateway", s("10.0.0.1")),
        ("prefix", JsonValue::UInt(24)),
    ])) {
        Ok(WifiAction::SetIpv4 { method: Ipv4Method::Manual, prefix: Some(24), .. }) => {}
        _ => panic!("expected manual SetIpv4"),
    }
}

#[test]
fn rejects_out_of_range_prefix() {
    assert!(parse_wifi_action(&obj(vec![
        ("command", s("set_ipv4")),
        ("id", s("Net")),
        ("method", s("manual")),
        ("prefix", JsonValue::UInt(300)),
    ]))
    .is_err());
}

#[test]
fn set_ipv4_without_prefix_is_none() {
    match parse_wifi_action(&obj(vec![("command", s("set_ipv4")), ("id", s("Net")), ("method", s("auto"))])) {
        Ok(WifiAction::SetIpv4 { prefix: None, method: Ipv4Method::Auto, .. }) => {}
        _ => panic!("expected auto SetIpv4 with no prefix"),
    }
}

#[test]
fn parses_set_dns() {
    match parse_wifi_action(&obj(vec![
        ("command", s("set_dns")),
        ("id", s("Net")),
        ("servers", JsonValue::Array(vec![s("1.1.1.1"), s("9.9.9.9")])),
    ])) {
        Ok(WifiAction::SetDns { servers, .. }) => assert_eq!(servers, vec!["1.1.1.1", "9.9.9.9"]),
        _ => panic!("expected SetDns"),
    }
}

#[test]
fn rejects_unknown_and_missing_command() {
    assert!(parse_wifi_action(&obj(vec![("command", s("frobnicate"))])).is_err());
    assert!(parse_wifi_action(&obj(vec![])).is_err());
    assert!(parse_wifi_action(&obj(vec![("command", s("forget"))])).is_err());
    assert!(parse_wifi_action(&obj(vec![("command", s("set_ipv4")), ("id", s("Net")), ("method", s("bogus"))])).is_err());
}

#[test]
fn map_security_classifies_fields() {
    assert_eq!(map_security(""), WifiSecurity::Open);
    assert_eq!(map_security("WPA3"), WifiSecurity::Wpa3);
    assert_eq!(map_security("WPA2 WPA3"), WifiSecurity::Wpa3);
    assert_eq!(map_security("WPA2"), WifiSecurity::Wpa2);
    assert_eq!(map_security("WPA1"), WifiSecurity::Wpa);
    assert_eq!(map_security("802.1X"), WifiSecurity::Other);
}

#[test]
fn map_band_classifies_frequencies() {
    assert_eq!(map_band(2412), WifiBand::TwoFour);
    assert_eq!(map_band(5180), WifiBand::Five);
    assert_eq!(map_band(5955), WifiBand::Six);
    assert_eq!(map_band(900), WifiBand::Unknown);
}

#[test]
fn parse_scan_list_dedups_by_ssid_keeping_strongest() {
    let nets = parse_scan_list(SAMPLE_SCAN);
    let skynet: Vec<_> = nets.iter().filter(|n| n.ssid == "Skynet_5G").collect();
    assert_eq!(skynet.len(), 1);
    assert_eq!(skynet[0].signal_percent, 92);
    assert_eq!(skynet[0].band, WifiBand::Five);
    assert_eq!(skynet[0].security, WifiSecurity::Wpa3);
    assert!(skynet[0].active);
    assert_eq!(skynet[0].bssid, "3C:22:FB:1A:8E:00");
}

#[test]
fn parse_scan_list_handles_open_and_hidden() {
    let nets = parse_scan_list(SAMPLE_SCAN);
    let open = nets.iter().find(|n| n.ssid == "CoffeeShopFree").unwrap();
    assert_eq!(open.security, WifiSecurity::Open);
    assert!(nets.iter().any(|n| n.ssid.is_empty()));
}

#[test]
fn parse_scan_list_orders_strongest_first() {
    let nets = parse_scan_list(SAMPLE_SCAN);
    let signals: Vec<u8> = nets.iter().map(|n| n.signal_percent).collect();
    assert_eq!(signals, vec![92, 55, 30]);
}

#[test]
fn parse_saved_list_filters_wireless() {
    let raw = "\
Skynet_5G:uuid-1:802-11-wireless:yes
Wired connection 1:uuid-2:802-3-ethernet:yes
Office-Floor3:uuid-3:802-11-wireless:no";
    let saved = parse_saved_list(raw);
    assert_eq!(saved.len(), 2);
    let skynet = saved.iter().find(|s| s.ssid == "Skynet_5G").unwrap();
    assert!(skynet.autoconnect);
    assert_eq!(skynet.id, "uuid-1");
    let office = saved.iter().find(|s| s.ssid == "Office-Floor3").unwrap();
    assert!(!office.autoconnect);
    assert_eq!(office.id, "uuid-3");
}

#[test]
fn parse_details_extracts_fields() {
    let raw = "\
IP4.ADDRESS[1]:192.168.1.42/24
IP4.GATEWAY:192.168.1.1
IP4.DNS[1]:1.1.1.1
IP4.DNS[2]:9.9.9.9
GENERAL.HWADDR:3C\\:22\\:FB\\:1A\\:8E\\:00
ipv4.method:auto
connection.metered:no";
    let d = parse_details(raw);
    assert_eq!(d.ip_address.as_deref(), Some("192.168.1.42/24"));
    assert_eq!(d.gateway.as_deref(), Some("192.168.1.1"));
    assert_eq!(d.dns, vec!["1.1.1.1", "9.9.9.9"]);
    assert_eq!(d.mac.as_deref(), Some("3C:22:FB:1A:8E:00"));
    assert_eq!(d.ipv4_method, Ipv4Method::Auto);
    assert!(!d.metered);
}

#[test]
fn parse_scan_list_active_propagates_from_weaker_row() {
    let raw = "\
HomeNet:AA\\:AA\\:AA\\:AA\\:AA\\:01:90:WPA2:5180:no:
HomeNet:AA\\:AA\\:AA\\:AA\\:AA\\:02:40:WPA2:2412:yes:*";
    let nets = parse_scan_list(raw);
    let home: Vec<_> = nets.iter().filter(|n| n.ssid == "HomeNet").collect();
    assert_eq!(home.len(), 1);
    assert_eq!(home[0].signal_percent, 90);
    assert!(home[0].active);
}

fn network(ssid: &str, bssid: &str, signal: u8, security: WifiSecurity, band: WifiBand, active: bool) -> WifiNetwork {
    WifiNetwork {
        ssid: ssid.into(),
        bssid: bssid.into(),
        signal_percent: signal,
        security,
        band,
        saved: false,
        active,
    }
}

fn profile(id: &str, ssid: &str, autoconnect: bool) -> SavedNetwork {
    SavedNetwork { id: id.into(), ssid: ssid.into(), security: WifiSecurity::Other, autoconnect, in_range: false }
}

#[test]
fn assemble_state_cross_references_saved_and_in_range() {
    let networks = vec![
        network("HomeNet", "b1", 80, WifiSecurity::Wpa2, WifiBand::Five, true),
        network("Cafe", "b2", 50, WifiSecurity::Open, WifiBand::TwoFour, false),
    ];
    let saved = vec![profile("uuid-home", "HomeNet", true), profile("uuid-office", "Office", false)];
    let state = assemble_state(true, true, networks, saved);
    assert!(state.networks.iter().find(|n| n.ssid == "HomeNet").unwrap().saved);
    assert!(!state.networks.iter().find(|n| n.ssid == "Cafe").unwrap().saved);
    assert!(state.saved.iter().find(|s| s.ssid == "HomeNet").unwrap().in_range);
    assert!(!state.saved.iter().find(|s| s.ssid == "Office").unwrap().in_range);
    assert_eq!(state.active.as_ref().unwrap().ssid, "HomeNet");
    assert_eq!(state.active.as_ref().unwrap().signal_percent, 80);
}

#[test]
fn assemble_state_no_active_row_yields_none() {
    let networks = vec![network("Cafe", "b2", 50, WifiSecurity::Open, WifiBand::TwoFour, false)];
    let state = assemble_state(true, true, networks, vec![]);
    assert!(state.active.is_none());
}

#[test]
fn terse_lines_split_on_unescaped_colons() {
    assert_eq!(split_terse_line("a\\:b:c"), vec!["a:b", "c"]);
    assert_eq!(unescape_terse("3C\\:22"), "3C:22");
}

#[test]
fn active_wifi_uuid_picks_the_wireless_row() {
    let raw = "uuid-eth:802-3-ethernet:eth0\nuuid-wifi:802-11-wireless:wlan0\n";
    assert_eq!(active_wifi_uuid(raw).as_deref(), Some("uuid-wifi"));
    assert_eq!(active_wifi_uuid("uuid-eth:802-3-ethernet:eth0\n"), None);
}

#[test]
fn modify_argument_vectors_follow_the_command() {
    assert_eq!(
        ipv4_modify_args("u1", Ipv4Method::Manual, Some("10.0.0.2"), Some("10.0.0.1"), Some(24)),
        vec!["connection", "modify", "uuid", "u1", "ipv4.method", "manual", "ipv4.addresses", "10.0.0.2/24", "ipv4.gateway", "10.0.0.1"]
    );
    assert_eq!(
        ipv4_modify_args("u1", Ipv4Method::Auto, Some("10.0.0.2"), None, Some(24)),
        vec!["connection", "modify", "uuid", "u1", "ipv4.method", "auto"]
    );
    let servers = vec!["1.1.1.1".to_string(), "9.9.9.9".to_string()];
    assert_eq!(join_comma(&servers), "1.1.1.1,9.9.9.9");
    assert_eq!(
        dns_modify_args("u1", &servers),
        vec!["connection", "modify", "uuid", "u1", "ipv4.dns", "1.1.1.1,9.9.9.9"]
    );
    assert_eq!(nmcli_arguments(&WifiAction::Rescan).unwrap(), vec!["device", "wifi", "rescan"]);
    assert_eq!(nmcli_arguments(&WifiAction::SetRadio(false)).unwrap(), vec!["radio", "wifi", "off"]);
    assert!(nmcli_arguments(&WifiAction::Disconnect).is_none());
}

#[test]
fn nmcli_failures_map_to_domain_errors() {
    match map_nmcli_error(ProvidersError::Spawn("no nmcli".into())) {
        DomainError::Unsupported(m) => assert_eq!(m, "no nmcli"),
        other => panic!("unexpected {:?}", other),
    }
    match map_nmcli_error(ProvidersError::ServiceUnavailable("boom".into())) {
        DomainError::ActionFailed { reason } => assert_eq!(reason, "service unavailable: boom"),
        other => panic!("unexpected {:?}", other),
    }
    match map_connect_error(ProvidersError::ServiceUnavailable("Secrets were required, but not provided".into())) {
        DomainError::ActionFailed { reason } => assert_eq!(reason, "incorrect_password"),
        other => panic!("unexpected {:?}", other),
    }
}

#[test]
fn disconnect_runs_show_then_down() {
    let command = WifiAction::Disconnect;
    match next_wifi_step(&command, &[]) {
        WifiStep::Run { args } => assert_eq!(args, vec!["-t", "-f", "UUID,TYPE,DEVICE", "connection", "show", "--active"]),
        other => panic!("unexpected {:?}", other),
    }
    let shown = Ok("u-w:802-11-wireless:wlan0\n".to_string());
    match next_wifi_step(&command, &[shown.clone()]) {
        WifiStep::Run { args } => assert_eq!(args, vec!["connection", "down", "uuid", "u-w"]),
        other => panic!("unexpected {:?}", other),
    }
    match next_wifi_step(&command, &[shown, Ok(String::new())]) {
        WifiStep::Finish { outcome: Ok(None), notify: true } => {}
        other => panic!("unexpected {:?}", other),
    }
    match next_wifi_step(&command, &[Ok(String::new())]) {
        WifiStep::Finish { outcome: Ok(Some(m)), notify: true } => assert_eq!(m, "no active wifi connection"),
        other => panic!("unexpected {:?}", other),
    }
}

#[test]
fn set_dns_failure_after_modify_reports_saved_but_not_applied() {
    let command = WifiAction::SetDns { id: "u1".into(), servers: vec!["1.1.1.1".into()] };
    match next_wifi_step(&command, &[Ok(String::new())]) {
        WifiStep::Run { args } => assert_eq!(args, vec!["connection", "up", "uuid", "u1"]),
        other => panic!("unexpected {:?}", other),
    }
    let failed = Err(ProvidersError::ServiceUnavailable("no device".into()));
    match next_wifi_step(&command, &[Ok(String::new()), failed]) {
        WifiStep::Finish { outcome: Err(DomainError::ActionFailed { reason }), notify: false } => {
            assert_eq!(reason, "settings saved but failed to apply: service unavailable: no device")
        }
        other => panic!("unexpected {:?}", other),
    }
}

#[test]
fn sessions_and_connect_failures_notify_the_scanner() {
    assert!(matches!(next_wifi_step(&WifiAction::OpenSession, &[]), WifiStep::SetSession { active: true }));
    assert!(matches!(next_wifi_step(&WifiAction::CloseSession, &[]), WifiStep::SetSession { active: false }));
    let connect = WifiAction::Connect { ssid: "Net".into(), bssid: None, password: Some("pw".into()) };
    let failed = Err(ProvidersError::ServiceUnavailable("Error: No secrets provided.".into()));
    match next_wifi_step(&connect, &[failed]) {
        WifiStep::Finish { outcome: Err(DomainError::ActionFailed { reason }), notify: true } => {
            assert_eq!(reason, "incorrect_password")
        }
        other => panic!("unexpected {:?}", other),
    }
}

#[test]
fn wifi_refusals_name_the_field_type() {
    let reason = |p: JsonValue| match parse_wifi_action(&p) {
        Err(DomainError::Unsupported(m)) => m,
        other => panic!("expected a refusal, got {other:?}"),
    };
    assert_eq!(reason(obj(vec![("command", s("connect"))])), "missing or non-string 'ssid' in wifi action");
    assert_eq!(reason(obj(vec![("command", s("set_radio"))])), "missing or non-bool 'enabled' in wifi action");
    assert_eq!(
        reason(obj(vec![("command", s("set_dns")), ("id", s("home"))])),
        "missing or non-array 'servers' in wifi action"
    );
    assert_eq!(
        reason(obj(vec![("command", s("set_dns")), ("id", s("home")), ("servers", JsonValue::Array(vec![JsonValue::Bool(true)]))])),
        "non-string element in 'servers' array"
    );
}

#[test]
fn split_terse_line_reads_back_escaped_values() {
    let fields = vec!["Skynet_5G".to_string(), "3C:22".to_string(), "a\\b".to_string(), "".to_string()];
    let line = fields
        .iter()
        .map(|f| f.replace('\\', "\\\\").replace(':', "\\:"))
        .collect::<Vec<_>>()
        .join(":");
    assert_eq!(split_terse_line(&line), fields);
    assert_eq!(split_terse_line("Skynet_5G:3C\\:22:92"), vec!["Skynet_5G", "3C:22", "92"]);
}
