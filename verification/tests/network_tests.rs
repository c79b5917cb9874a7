use quantum_providers::json::JsonValue;
use quantum_providers::network::{
    capability, map_charge_state, map_connectivity, map_nm_connection_type, on_battery,
    parse_network_action, parse_yes, positive_seconds, BatteryChargeState, NetworkAction,
    NetworkConnectivity, NetworkKind,
};
use quantum_providers::network_state::{
    active_connection_kind, check_specific_object, primary_connection, NetworkCache,
    NetworkConnection, PrimaryLookup,
};
use quantum_providers::error::{DbusError, DomainError};
use quantum_providers::proc_stats::{
    build_payload, cpu_deltas, meminfo_fits, parse_proc_meminfo, parse_proc_stat_cpu,
    proc_stat_fits, stats_changed, StatsSampler, SystemStats,
};

fn s(v: &str) -> JsonValue {
    JsonValue::Str(v.to_string())
}

fn obj(pairs: Vec<(&str, JsonValue)>) -> JsonValue {
    JsonValue::Object(pairs.into_iter().map(|(k, v)| (k.to_string(), v)).collect())
}

#[test]
fn parse_yes_known_strings() {
    assert!(parse_yes("yes"));
    assert!(parse_yes("challenge"));
    assert!(parse_yes("yes:tainted"));
    assert!(!parse_yes("no"));
    assert!(!parse_yes("na"));
    assert!(!parse_yes(""));
}

#[test]
fn capability_requires_a_positive_reply() {
    assert!(capability(Some("challenge")));
    assert!(!capability(Some("no")));
    assert!(!capability(None));
}

#[test]
fn map_connectivity_known_values() {
    assert_eq!(map_connectivity(1), NetworkConnectivity::NoConnection);
    assert_eq!(map_connectivity(2), NetworkConnectivity::Portal);
    assert_eq!(map_connectivity(3), NetworkConnectivity::Limited);
    assert_eq!(map_connectivity(4), NetworkConnectivity::Full);
    assert_eq!(map_connectivity(99), NetworkConnectivity::Unknown);
}

#[test]
fn map_nm_connection_type_categorises() {
    assert_eq!(map_nm_connection_type("802-3-ethernet"), NetworkKind::Ethernet);
    assert_eq!(map_nm_connection_type("802-11-wireless"), NetworkKind::Wifi);
    assert_eq!(map_nm_connection_type("gsm"), NetworkKind::Cellular);
    assert_eq!(map_nm_connection_type("cdma"), NetworkKind::Cellular);
    assert_eq!(map_nm_connection_type("vpn"), NetworkKind::Vpn);
    assert_eq!(map_nm_connection_type("wireguard"), NetworkKind::Vpn);
    assert_eq!(map_nm_connection_type("openvpn"), NetworkKind::Vpn);
    assert_eq!(map_nm_connection_type("tun"), NetworkKind::Vpn);
    assert_eq!(map_nm_connection_type("garbage"), NetworkKind::Other);
}

#[test]
fn parses_set_wifi_enabled_true() {
    let p = obj(vec![("command", s("set_wifi_enabled")), ("value", JsonValue::Bool(true))]);
    match parse_network_action(&p) {
        Ok(NetworkAction::SetWifiEnabled(true)) => {}
        _ => panic!("expected SetWifiEnabled(true)"),
    }
}

#[test]
fn parses_set_wifi_enabled_false() {
    let p = obj(vec![("command", s("set_wifi_enabled")), ("value", JsonValue::Bool(false))]);
    match parse_network_action(&p) {
        Ok(NetworkAction::SetWifiEnabled(false)) => {}
        _ => panic!("expected SetWifiEnabled(false)"),
    }
}

#[test]
fn network_rejects_unknown_command() {
    assert!(parse_network_action(&obj(vec![("command", s("reticulate_splines"))])).is_err());
}

#[test]
fn rejects_missing_command() {
    assert!(parse_network_action(&obj(vec![])).is_err());
}

#[test]
fn rejects_non_bool_value() {
    let p = obj(vec![("command", s("set_wifi_enabled")), ("value", s("yes"))]);
    assert!(parse_network_action(&p).is_err());
}

#[test]
fn battery_states_follow_upower_codes() {
    assert_eq!(map_charge_state(1), BatteryChargeState::Charging);
    assert_eq!(map_charge_state(2), BatteryChargeState::Discharging);
    assert_eq!(map_charge_state(3), BatteryChargeState::Empty);
    assert_eq!(map_charge_state(4), BatteryChargeState::Full);
    assert_eq!(map_charge_state(0), BatteryChargeState::Unknown);
    assert!(on_battery(Some(2)));
    assert!(!on_battery(Some(1)));
    assert!(!on_battery(None));
    assert_eq!(positive_seconds(Some(60)), Some(60));
    assert_eq!(positive_seconds(Some(0)), None);
    assert_eq!(positive_seconds(Some(-5)), None);
    assert_eq!(positive_seconds(None), None);
}

#[test]
fn parse_proc_stat_cpu_typical() {
    let input = "cpu  100 50 200 1000 10 5 8 0 0 0\n";
    let (busy, total) = parse_proc_stat_cpu(input).expect("parse failed");
    assert_eq!(busy, 363);
    assert_eq!(total, 1373);
}

#[test]
fn parse_proc_stat_cpu_invalid() {
    assert!(parse_proc_stat_cpu("").is_none());
    assert!(parse_proc_stat_cpu("cpu0 100 50 200 1000 10 5 8 0 0 0\n").is_none());
    assert!(parse_proc_stat_cpu("cpu 100\n").is_none());
}

#[test]
fn parse_proc_meminfo_typical() {
    let input = "MemTotal:        8192 kB\nMemAvailable:    4096 kB\n";
    let (used, total) = parse_proc_meminfo(input).expect("parse failed");
    assert_eq!(used, 4194304);
    assert_eq!(total, 8388608);
}

#[test]
fn parse_proc_meminfo_missing_fields() {
    assert!(parse_proc_meminfo("MemTotal:        8192 kB\n").is_none());
    assert!(parse_proc_meminfo("MemAvailable:    4096 kB\n").is_none());
    assert!(parse_proc_meminfo("").is_none());
}

#[test]
fn cpu_deltas_measure_since_the_previous_sample() {
    assert_eq!(cpu_deltas(None, 363, 1373), (0, 0));
    assert_eq!(cpu_deltas(Some((300, 1000)), 363, 1373), (63, 373));
}

#[test]
fn build_payload_rounds_cpu_percent_to_integer() {
    // 12.3456% rounds down to 12.
    let v = build_payload(123_456, 1_000_000, 4096, 8192);
    assert_eq!(v.cpu_percent, 12);
}

#[test]
fn build_payload_rounds_cpu_percent_halfway_up() {
    // 12.6% rounds up to 13.
    let v = build_payload(126_000, 1_000_000, 4096, 8192);
    assert_eq!(v.cpu_percent, 13);
}

#[test]
fn build_payload_dedup_sub_percent_jitter_produces_identical_payload() {
    let a = build_payload(123_000, 1_000_000, 4096, 8192);
    let b = build_payload(124_000, 1_000_000, 4096, 8192);
    assert_eq!(a, b);
}

#[test]
fn build_payload_dedup_distinct_values_differ() {
    let a = build_payload(100_000, 1_000_000, 4096, 8192);
    let b = build_payload(200_000, 1_000_000, 4096, 8192);
    assert_ne!(a, b);
}

#[test]
fn build_payload_exact_half_rounds_up_and_idle_tick_is_zero() {
    assert_eq!(build_payload(125_000, 1_000_000, 1, 2).cpu_percent, 13);
    assert_eq!(build_payload(5, 0, 1, 2).cpu_percent, 0);
    let full = build_payload(7, 7, 3, 4);
    assert_eq!(full, SystemStats { cpu_percent: 100, mem_used_bytes: 3, mem_total_bytes: 4 });
}

#[test]
fn change_gate_holds_back_unchanged_reading() {
    let p = build_payload(100_000, 1_000_000, 4096, 8192);
    assert!(stats_changed(&None, &p));
    assert!(!stats_changed(&Some(p), &p));
    let q = build_payload(200_000, 1_000_000, 4096, 8192);
    assert!(stats_changed(&Some(p), &q));
}

#[test]
fn sampler_publishes_first_reading_then_only_changes() {
    let mem = "MemTotal:        8192 kB\nMemAvailable:    4096 kB\n";
    let mut s = StatsSampler::new();
    let first = s.tick("cpu  100 0 0 100 0 0 0 0\n", mem).expect("first reading");
    assert_eq!(first.cpu_percent, 0);
    assert_eq!(first.mem_used_bytes, 4194304);
    assert_eq!(s.prev, Some((100, 200)));
    // 50 busy of 100 elapsed: 50%.
    let second = s.tick("cpu  150 0 0 150 0 0 0 0\n", mem).expect("changed reading");
    assert_eq!(second.cpu_percent, 50);
    // Same 50% again: held back.
    assert!(s.tick("cpu  200 0 0 200 0 0 0 0\n", mem).is_none());
    assert_eq!(s.prev, Some((200, 400)));
    // An unreadable tick is skipped and keeps the counters.
    assert!(s.tick("garbage", mem).is_none());
    assert_eq!(s.prev, Some((200, 400)));
    assert_eq!(s.last, Some(second));
}

#[test]
fn proc_files_fit_checks() {
    assert!(proc_stat_fits("cpu  100 50 200 1000 10 5 8 0 0 0\n"));
    assert!(proc_stat_fits(""));
    assert!(!proc_stat_fits("cpu  18446744073709551615 1 0 0 0 0 0 0\n"));
    assert!(meminfo_fits("MemTotal:        8192 kB\nMemAvailable:    4096 kB\n"));
    assert!(!meminfo_fits("MemTotal: 18446744073709551615 kB\nMemAvailable: 1 kB\n"));
}

#[test]
fn primary_connection_reads_wifi_access_point() {
    let kind = active_connection_kind(&Some("802-11-wireless".to_string()));
    assert_eq!(kind, NetworkKind::Wifi);
    let (c, strength) = primary_connection(kind, Some("Home".into()), Some(("HomeNet".into(), Some(72))));
    assert_eq!(c, NetworkConnection { kind: NetworkKind::Wifi, id: "Home".into(), ssid: Some("HomeNet".into()) });
    assert_eq!(strength, Some(72));
    let (c, strength) = primary_connection(kind, None, None);
    assert_eq!(c.id, "unknown");
    assert!(c.ssid.is_none() && strength.is_none());
}

#[test]
fn primary_connection_ignores_access_point_off_wifi() {
    let kind = active_connection_kind(&Some("802-3-ethernet".to_string()));
    assert_eq!(kind, NetworkKind::Ethernet);
    let (c, strength) = primary_connection(kind, Some("Wired".into()), Some(("x".into(), Some(1))));
    assert!(c.ssid.is_none() && strength.is_none());
    assert_eq!(active_connection_kind(&None), NetworkKind::Other);
}

#[test]
fn specific_object_root_is_refused() {
    assert_eq!(
        check_specific_object("/"),
        Err(DbusError::Transport("no specific object for wifi".to_string()))
    );
    assert_eq!(check_specific_object("/org/freedesktop/NetworkManager/AccessPoint/3"), Ok(()));
}

#[test]
fn cache_reuses_primary_for_same_path() {
    let mut cache = NetworkCache::new();
    assert!(matches!(cache.plan("/"), PrimaryLookup::NoPrimary));
    assert!(matches!(cache.plan("/org/freedesktop/NetworkManager/ActiveConnection/1"), PrimaryLookup::Lookup));
    let path = "/org/freedesktop/NetworkManager/ActiveConnection/1".to_string();
    let wifi = NetworkConnection { kind: NetworkKind::Wifi, id: "Home".into(), ssid: Some("HomeNet".into()) };
    let state = cache.finish(path.clone(), 4, true, Some(wifi.clone()), Some(60));
    assert!(state.available);
    assert_eq!(state.connectivity, NetworkConnectivity::Full);
    match cache.plan(&path) {
        PrimaryLookup::Reuse(primary, signal) => {
            assert_eq!(primary, Some(wifi));
            assert_eq!(signal, Some(60));
        }
        other => panic!("expected reuse, got {other:?}"),
    }
    assert!(matches!(cache.plan("/org/freedesktop/NetworkManager/ActiveConnection/2"), PrimaryLookup::Lookup));
    let none = cache.finish("/".to_string(), 7, false, None, None);
    assert_eq!(none.connectivity, NetworkConnectivity::Unknown);
    assert!(matches!(cache.plan("/"), PrimaryLookup::Reuse(None, None)));
}

#[test]
fn network_refusals_give_the_reason() {
    let reason = |p: JsonValue| match parse_network_action(&p) {
        Err(DomainError::Unsupported(m)) => m,
        other => panic!("expected a refusal, got {other:?}"),
    };
    assert_eq!(reason(obj(vec![])), "missing or non-string command in network action");
    assert_eq!(
        reason(obj(vec![("command", s("set_wifi_enabled"))])),
        "missing or non-bool value for set_wifi_enabled"
    );
    assert_eq!(reason(obj(vec![("command", s("reset"))])), "unknown network command: reset");
}
