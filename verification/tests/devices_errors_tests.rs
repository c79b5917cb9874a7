use quantum_providers::audio_devices::{
    is_monitor_source, map_card, map_device, map_stream, percent_from_volume_map,
    property_string, PactlCard, PactlCardProfile, PactlChannelVolume, PactlDevice, PactlPort,
    PactlStream,
};
use quantum_providers::error::{DbusError, DomainError, InfrastructureError, ProvidersError};
use quantum_providers::json::JsonValue;

fn vol(percent: &str) -> Vec<(String, PactlChannelVolume)> {
    vec![
        ("front-left".to_string(), PactlChannelVolume { value_percent: percent.to_string() }),
        ("front-right".to_string(), PactlChannelVolume { value_percent: "10%".to_string() }),
    ]
}

fn props(pairs: &[(&str, &str)]) -> Vec<(String, JsonValue)> {
    pairs.iter().map(|(k, v)| (k.to_string(), JsonValue::Str(v.to_string()))).collect()
}

fn device(index: u32, name: &str, mute: bool, percent: &str) -> PactlDevice {
    PactlDevice {
        index,
        name: name.to_string(),
        description: format!("{name} description"),
        mute,
        volume: vol(percent),
        active_port: Some("[Out] Speaker".to_string()),
        ports: vec![PactlPort { name: "[Out] Speaker".to_string(), description: "Speaker".to_string() }],
        properties: props(&[("device.class", "sound")]),
    }
}

#[test]
fn devices_map_default_port_and_first_channel_volume() {
    let d = device(59, "spk", false, "55%");
    let speaker = map_device(&d, "spk");
    assert_eq!(speaker.index, 59);
    assert_eq!(speaker.volume_percent, 55);
    assert!(speaker.is_default);
    assert_eq!(speaker.port.as_deref(), Some("Speaker"));
    let mut other = device(60, "hdmi", true, "100%");
    other.active_port = Some("[Out] HDMI".to_string());
    let hdmi = map_device(&other, "spk");
    assert!(hdmi.muted && !hdmi.is_default);
    assert_eq!(hdmi.volume_percent, 100);
    assert_eq!(hdmi.port.as_deref(), Some("[Out] HDMI"));
    other.volume = vec![];
    assert_eq!(map_device(&other, "spk").volume_percent, 0);
}

#[test]
fn channel_percent_needs_a_trailing_percent_sign() {
    assert_eq!(percent_from_volume_map(&vol(" 42 %")), Some(42));
    assert_eq!(percent_from_volume_map(&vol("42")), None);
    assert_eq!(percent_from_volume_map(&vol("300%")), None);
    assert_eq!(percent_from_volume_map(&vec![]), None);
}

#[test]
fn monitors_are_detected_by_name_or_class() {
    let mut d = device(1, "alsa_output.x.monitor", false, "1%");
    assert!(is_monitor_source(&d));
    d.name = "mic".to_string();
    assert!(!is_monitor_source(&d));
    d.properties = props(&[("device.class", "monitor")]);
    assert!(is_monitor_source(&d));
}

#[test]
fn streams_and_cards_map_their_properties() {
    let playback = PactlStream {
        index: 900,
        sink: Some(59),
        source: None,
        mute: false,
        volume: vol("100%"),
        properties: props(&[("application.name", "paplay"), ("media.name", "/dev/zero")]),
    };
    let s = map_stream(&playback);
    assert_eq!((s.index, s.device_index, s.volume_percent), (900, 59, 100));
    assert_eq!(s.application_name, "paplay");
    assert_eq!(s.media_name, "/dev/zero");
    assert_eq!(s.icon, None);
    let record = PactlStream { index: 932, sink: None, source: Some(61), mute: true, volume: vec![], properties: vec![] };
    let r = map_stream(&record);
    assert_eq!((r.device_index, r.application_name.as_str()), (61, ""));
    let card = PactlCard {
        index: 48,
        name: "alsa_card".to_string(),
        active_profile: "HiFi".to_string(),
        profiles: vec![
            ("HiFi".to_string(), PactlCardProfile { description: "Play HiFi".to_string(), available: true }),
            ("off".to_string(), PactlCardProfile { description: "Off".to_string(), available: false }),
        ],
        properties: props(&[("device.description", "Arrow Lake cAVS")]),
    };
    let c = map_card(&card);
    assert_eq!(c.description, "Arrow Lake cAVS");
    assert_eq!(c.profiles.len(), 2);
    assert_eq!(c.profiles[1].name, "off");
    assert!(!c.profiles[1].available);
    assert_eq!(property_string(&card.properties, "missing"), None);
}

#[test]
fn to_domain_preserves_domain_error() {
    let de = DomainError::Unsupported("test".to_string());
    let ie = InfrastructureError::Domain(de.clone());
    assert_eq!(ie.to_domain(), de);
}

#[test]
fn to_domain_maps_io_error() {
    let de = InfrastructureError::Io("connection failed".to_string()).to_domain();
    assert!(matches!(de, DomainError::Unsupported(ref m) if m == "IO error: connection failed"));
}

#[test]
fn to_domain_maps_hyprland_unreachable() {
    let de = InfrastructureError::HyprlandUnreachable.to_domain();
    assert!(matches!(de, DomainError::Unsupported(_)));
}

#[test]
fn to_domain_maps_config_errors_to_invalid_query() {
    let de = InfrastructureError::ConfigParse("bad key".to_string()).to_domain();
    assert_eq!(de, DomainError::InvalidQuery("config: bad key".to_string()));
}

#[test]
fn from_domain_error() {
    let de = DomainError::Unsupported("test".to_string());
    match InfrastructureError::from_domain(de.clone()) {
        InfrastructureError::Domain(d) => assert_eq!(d, de),
        _ => panic!("expected Domain variant"),
    }
}

#[test]
fn dbus_errors_keep_their_kind_and_message() {
    assert!(matches!(
        InfrastructureError::from_dbus(DbusError::Transport("t".into())),
        InfrastructureError::DbusTransport(ref m) if m == "t"
    ));
    assert_eq!(
        ProvidersError::from_dbus(DbusError::ServiceUnavailable("s".into())),
        ProvidersError::ServiceUnavailable("s".into())
    );
    assert_eq!(ProvidersError::Io("x".into()).message(), "I/O error: x");
    assert_eq!(ProvidersError::Spawn("y".into()).copy(), ProvidersError::Spawn("y".into()));
}
