use quantum_providers::audio::{
    pactl_arguments, parse_audio_action, AudioCommand, AudioDeviceKind, AudioStreamKind,
};
use quantum_providers::error::DomainError;
use quantum_providers::json::JsonValue;
use quantum_providers::pactl::{
    default_sink_arguments,
    parse_pactl_mute, parse_pactl_sink_block, parse_pactl_volume_percent,
    should_refresh_for_pactl_line,
};

fn s(v: &str) -> JsonValue {
    JsonValue::Str(v.to_string())
}

fn n(v: u64) -> JsonValue {
    JsonValue::UInt(v)
}

fn obj(pairs: Vec<(&str, JsonValue)>) -> JsonValue {
    JsonValue::Object(pairs.into_iter().map(|(k, v)| (k.to_string(), v)).collect())
}

#[test]
fn parse_pactl_volume_extracts_percent() {
    let output = "Volume: front-left: 38863 / 65% / -7.34 dB\n\
                  Volume: front-right: 38863 / 65% / -7.34 dB";
    let percent = parse_pactl_volume_percent(output);
    assert_eq!(percent, Some(65));
}

#[test]
fn parse_pactl_volume_multi_channel() {
    let output = "Volume: front-left: 30000 / 51% / -11.00 dB\n\
                  Volume: front-right: 35000 / 59% / -9.00 dB";
    let percent = parse_pactl_volume_percent(output);
    assert_eq!(percent, Some(51));
}

#[test]
fn parse_pactl_mute_yes() {
    assert_eq!(parse_pactl_mute("Mute: yes"), Some(true));
}

#[test]
fn parse_pactl_mute_no() {
    assert_eq!(parse_pactl_mute("Mute: no"), Some(false));
}

#[test]
fn pactl_subscribe_sink_change_triggers_refresh() {
    assert!(should_refresh_for_pactl_line("Event 'change' on sink #0", false));
    assert!(should_refresh_for_pactl_line("Event 'change' on sink #42", false));
    assert!(should_refresh_for_pactl_line("Event 'new' on sink #1", false));
    assert!(should_refresh_for_pactl_line("Event 'remove' on sink #1", false));
}

#[test]
fn pactl_subscribe_server_change_triggers_refresh() {
    assert!(should_refresh_for_pactl_line("Event 'change' on server #0", false));
}

#[test]
fn pactl_subscribe_source_change_triggers_refresh() {
    assert!(should_refresh_for_pactl_line("Event 'change' on source #4", false));
    assert!(should_refresh_for_pactl_line("Event 'new' on source #1", false));
}

#[test]
fn pactl_subscribe_unrelated_events_do_not_trigger_refresh() {
    assert!(!should_refresh_for_pactl_line("Event 'change' on sink-input #123", false));
    assert!(!should_refresh_for_pactl_line("Event 'change' on source-output #7", false));
    assert!(!should_refresh_for_pactl_line("Event 'change' on client #99", false));
    assert!(!should_refresh_for_pactl_line("", false));
    assert!(!should_refresh_for_pactl_line("garbage", false));
}

#[test]
fn pactl_subscribe_card_events_always_trigger_refresh() {
    assert!(should_refresh_for_pactl_line("Event 'change' on card #48", false));
    assert!(should_refresh_for_pactl_line("Event 'change' on card #48", true));
}

#[test]
fn pactl_subscribe_stream_events_refresh_only_during_a_session() {
    assert!(should_refresh_for_pactl_line("Event 'change' on sink-input #123", true));
    assert!(should_refresh_for_pactl_line("Event 'new' on source-output #7", true));
    assert!(!should_refresh_for_pactl_line("Event 'change' on client #99", true));
    assert!(!should_refresh_for_pactl_line("garbage", true));
    assert!(!should_refresh_for_pactl_line("", true));
}

#[test]
fn pactl_arguments_match_the_design_table() {
    let cases: Vec<(AudioCommand, Vec<&str>)> = vec![
        (AudioCommand::SetDefaultSink { name: "spk".into() }, vec!["set-default-sink", "spk"]),
        (AudioCommand::SetDefaultSource { name: "mic".into() }, vec!["set-default-source", "mic"]),
        (
            AudioCommand::SetDeviceVolume { kind: AudioDeviceKind::Sink, name: "spk".into(), percent: 70 },
            vec!["set-sink-volume", "spk", "70%"],
        ),
        (
            AudioCommand::SetDeviceVolume { kind: AudioDeviceKind::Source, name: "mic".into(), percent: 55 },
            vec!["set-source-volume", "mic", "55%"],
        ),
        (
            AudioCommand::SetDeviceMute { kind: AudioDeviceKind::Sink, name: "spk".into(), muted: true },
            vec!["set-sink-mute", "spk", "1"],
        ),
        (
            AudioCommand::SetDeviceMute { kind: AudioDeviceKind::Source, name: "mic".into(), muted: false },
            vec!["set-source-mute", "mic", "0"],
        ),
        (
            AudioCommand::SetStreamVolume { kind: AudioStreamKind::Playback, index: 900, percent: 80 },
            vec!["set-sink-input-volume", "900", "80%"],
        ),
        (
            AudioCommand::SetStreamVolume { kind: AudioStreamKind::Record, index: 932, percent: 40 },
            vec!["set-source-output-volume", "932", "40%"],
        ),
        (
            AudioCommand::SetStreamMute { kind: AudioStreamKind::Playback, index: 900, muted: true },
            vec!["set-sink-input-mute", "900", "1"],
        ),
        (
            AudioCommand::SetStreamMute { kind: AudioStreamKind::Record, index: 932, muted: false },
            vec!["set-source-output-mute", "932", "0"],
        ),
        (
            AudioCommand::MoveStream { kind: AudioStreamKind::Playback, index: 900, device_name: "hdmi".into() },
            vec!["move-sink-input", "900", "hdmi"],
        ),
        (
            AudioCommand::MoveStream { kind: AudioStreamKind::Record, index: 932, device_name: "mic".into() },
            vec!["move-source-output", "932", "mic"],
        ),
        (
            AudioCommand::SetCardProfile { card_index: 48, profile: "HiFi (HDMI1)".into() },
            vec!["set-card-profile", "48", "HiFi (HDMI1)"],
        ),
    ];
    for (command, expected) in cases {
        let arguments = pactl_arguments(&command)
            .unwrap_or_else(|| panic!("expected arguments for {:?}", command));
        assert_eq!(arguments, expected, "argv mismatch for {:?}", command);
    }
    assert!(pactl_arguments(&AudioCommand::OpenSession).is_none());
    assert!(pactl_arguments(&AudioCommand::CloseSession).is_none());
    assert!(pactl_arguments(&AudioCommand::ToggleMute).is_none());
    assert!(pactl_arguments(&AudioCommand::SetVolume(50)).is_none());
    assert!(pactl_arguments(&AudioCommand::AdjustVolume(-5)).is_none());
    assert!(pactl_arguments(&AudioCommand::ToggleMicMute).is_none());
}

#[test]
fn parses_set_volume_50() {
    let payload = obj(vec![("command", s("set_volume")), ("percent", n(50))]);
    match parse_audio_action(&payload) {
        Ok(AudioCommand::SetVolume(50)) => {}
        other => panic!("expected SetVolume(50), got {:?}", other),
    }
}

#[test]
fn parses_toggle_mute() {
    let payload = obj(vec![("command", s("toggle_mute"))]);
    match parse_audio_action(&payload) {
        Ok(AudioCommand::ToggleMute) => {}
        other => panic!("expected ToggleMute, got {:?}", other),
    }
}

#[test]
fn parses_adjust_volume_positive() {
    let payload = obj(vec![("command", s("adjust_volume")), ("delta", n(5))]);
    match parse_audio_action(&payload) {
        Ok(AudioCommand::AdjustVolume(5)) => {}
        other => panic!("expected AdjustVolume(5), got {:?}", other),
    }
}

#[test]
fn parses_adjust_volume_negative() {
    let payload = obj(vec![("command", s("adjust_volume")), ("delta", JsonValue::Int(-5))]);
    match parse_audio_action(&payload) {
        Ok(AudioCommand::AdjustVolume(-5)) => {}
        other => panic!("expected AdjustVolume(-5), got {:?}", other),
    }
}

#[test]
fn audio_rejects_unknown_command() {
    let payload = obj(vec![("command", s("reticulate_splines"))]);
    assert!(parse_audio_action(&payload).is_err());
}

#[test]
fn rejects_missing_percent() {
    let payload = obj(vec![("command", s("set_volume"))]);
    assert!(parse_audio_action(&payload).is_err());
}

#[test]
fn rejects_non_int_delta() {
    let payload = obj(vec![("command", s("adjust_volume")), ("delta", s("five"))]);
    assert!(parse_audio_action(&payload).is_err());
}

#[test]
fn parses_toggle_mic_mute() {
    let payload = obj(vec![("command", s("toggle_mic_mute"))]);
    match parse_audio_action(&payload) {
        Ok(AudioCommand::ToggleMicMute) => {}
        other => panic!("expected ToggleMicMute, got {:?}", other),
    }
}

#[test]
fn parses_session_commands() {
    assert!(matches!(
        parse_audio_action(&obj(vec![("command", s("open_session"))])),
        Ok(AudioCommand::OpenSession)
    ));
    assert!(matches!(
        parse_audio_action(&obj(vec![("command", s("close_session"))])),
        Ok(AudioCommand::CloseSession)
    ));
}

#[test]
fn parses_set_default_sink_and_source() {
    match parse_audio_action(&obj(vec![("command", s("set_default_sink")), ("name", s("spk"))])) {
        Ok(AudioCommand::SetDefaultSink { name }) => assert_eq!(name, "spk"),
        other => panic!("expected SetDefaultSink, got {:?}", other),
    }
    match parse_audio_action(&obj(vec![("command", s("set_default_source")), ("name", s("mic"))])) {
        Ok(AudioCommand::SetDefaultSource { name }) => assert_eq!(name, "mic"),
        other => panic!("expected SetDefaultSource, got {:?}", other),
    }
    assert!(parse_audio_action(&obj(vec![("command", s("set_default_sink"))])).is_err());
}

#[test]
fn parses_set_device_volume_and_mute() {
    match parse_audio_action(&obj(vec![
        ("command", s("set_device_volume")),
        ("kind", s("sink")),
        ("name", s("spk")),
        ("percent", n(70)),
    ])) {
        Ok(AudioCommand::SetDeviceVolume { kind: AudioDeviceKind::Sink, name, percent: 70 }) => {
            assert_eq!(name, "spk")
        }
        other => panic!("expected SetDeviceVolume, got {:?}", other),
    }
    match parse_audio_action(&obj(vec![
        ("command", s("set_device_mute")),
        ("kind", s("source")),
        ("name", s("mic")),
        ("muted", JsonValue::Bool(true)),
    ])) {
        Ok(AudioCommand::SetDeviceMute { kind: AudioDeviceKind::Source, name, muted: true }) => {
            assert_eq!(name, "mic")
        }
        other => panic!("expected SetDeviceMute, got {:?}", other),
    }
    assert!(parse_audio_action(&obj(vec![
        ("command", s("set_device_volume")),
        ("kind", s("banana")),
        ("name", s("x")),
        ("percent", n(10)),
    ]))
    .is_err());
}

#[test]
fn set_device_volume_clamps_percent_to_150() {
    match parse_audio_action(&obj(vec![
        ("command", s("set_device_volume")),
        ("kind", s("sink")),
        ("name", s("spk")),
        ("percent", n(400)),
    ])) {
        Ok(AudioCommand::SetDeviceVolume { percent, .. }) => assert_eq!(percent, 150),
        other => panic!("expected clamped SetDeviceVolume, got {:?}", other),
    }
}

#[test]
fn parses_stream_volume_mute_and_move() {
    match parse_audio_action(&obj(vec![
        ("command", s("set_stream_volume")),
        ("kind", s("playback")),
        ("index", n(900)),
        ("percent", n(80)),
    ])) {
        Ok(AudioCommand::SetStreamVolume { kind: AudioStreamKind::Playback, index: 900, percent: 80 }) => {}
        other => panic!("expected SetStreamVolume, got {:?}", other),
    }
    match parse_audio_action(&obj(vec![
        ("command", s("set_stream_mute")),
        ("kind", s("record")),
        ("index", n(932)),
        ("muted", JsonValue::Bool(false)),
    ])) {
        Ok(AudioCommand::SetStreamMute { kind: AudioStreamKind::Record, index: 932, muted: false }) => {}
        other => panic!("expected SetStreamMute, got {:?}", other),
    }
    match parse_audio_action(&obj(vec![
        ("command", s("move_stream")),
        ("kind", s("playback")),
        ("index", n(900)),
        ("device_name", s("hdmi")),
    ])) {
        Ok(AudioCommand::MoveStream { kind: AudioStreamKind::Playback, index: 900, device_name }) => {
            assert_eq!(device_name, "hdmi")
        }
        other => panic!("expected MoveStream, got {:?}", other),
    }
    assert!(parse_audio_action(&obj(vec![
        ("command", s("set_stream_volume")),
        ("kind", s("playback")),
        ("percent", n(80)),
    ]))
    .is_err());
}

#[test]
fn parses_set_card_profile() {
    match parse_audio_action(&obj(vec![
        ("command", s("set_card_profile")),
        ("card_index", n(48)),
        ("profile", s("HiFi")),
    ])) {
        Ok(AudioCommand::SetCardProfile { card_index: 48, profile }) => assert_eq!(profile, "HiFi"),
        other => panic!("expected SetCardProfile, got {:?}", other),
    }
    assert!(parse_audio_action(&obj(vec![("command", s("set_card_profile")), ("profile", s("x"))])).is_err());
}

#[test]
fn parse_pactl_sink_block_reads_named_sink() {
    let stdout = "Sink #0\n\tName: alpha\n\tDescription: Speakers A\n\tMute: no\n\tVolume: front-left: 30000 / 46% / -20 dB\n\nSink #1\n\tName: beta\n\tDescription: Speakers B\n\tMute: yes\n\tVolume: front-left: 60000 / 92% / -2 dB\n";
    let (description, percent, muted) = parse_pactl_sink_block(stdout, "beta").expect("block");
    assert_eq!(description, "Speakers B");
    assert_eq!(percent, 92);
    assert!(muted);
    assert!(parse_pactl_sink_block(stdout, "gamma").is_none());
}

#[test]
fn set_volume_clamps_oversized_percent() {
    let payload = obj(vec![("command", s("set_volume")), ("percent", n(300))]);
    match parse_audio_action(&payload) {
        Ok(AudioCommand::SetVolume(150)) => {}
        other => panic!("expected SetVolume(150), got {:?}", other),
    }
}

fn reason(payload: &JsonValue) -> String {
    match parse_audio_action(payload) {
        Err(DomainError::Unsupported(m)) => m,
        other => panic!("expected a refusal, got {:?}", other),
    }
}

#[test]
fn audio_refusals_give_the_reason() {
    assert_eq!(reason(&obj(vec![])), "missing 'command' field");
    assert_eq!(reason(&obj(vec![("command", s("set_volume"))])), "'set_volume' requires 'percent' (u64)");
    assert_eq!(reason(&obj(vec![("command", s("adjust_volume"))])), "'adjust_volume' requires 'delta' (i64)");
    assert_eq!(reason(&obj(vec![("command", s("warp"))])), "unknown audio command: warp");
    assert_eq!(
        reason(&obj(vec![("command", s("set_default_sink"))])),
        "missing or non-string 'name' in audio action"
    );
    assert_eq!(
        reason(&obj(vec![("command", s("set_device_volume")), ("kind", s("speaker"))])),
        "unknown device kind: speaker"
    );
    assert_eq!(
        reason(&obj(vec![("command", s("set_device_volume")), ("kind", s("sink")), ("name", s("x"))])),
        "missing or non-u64 'percent' in audio action"
    );
    assert_eq!(
        reason(&obj(vec![("command", s("set_device_mute")), ("kind", s("sink")), ("name", s("x"))])),
        "missing or non-bool 'muted' in audio action"
    );
    assert_eq!(
        reason(&obj(vec![("command", s("set_stream_volume")), ("kind", s("record")), ("index", n(1u64 << 40))])),
        "missing or non-u32 'index' in audio action"
    );
    assert_eq!(
        reason(&obj(vec![("command", s("move_stream")), ("kind", s("mic"))])),
        "unknown stream kind: mic"
    );
    assert_eq!(
        reason(&obj(vec![("command", s("set_card_profile")), ("card_index", n(2))])),
        "missing or non-string 'profile' in audio action"
    );
    assert_eq!(reason(&obj(vec![("command", s("set_stream_mute"))])), "missing or non-string 'kind' in audio action");
}

#[test]
fn default_sink_steps_carry_their_sign() {
    assert_eq!(
        default_sink_arguments(&AudioCommand::AdjustVolume(5), "sink0"),
        Some(vec!["set-sink-volume".to_string(), "sink0".to_string(), "+5%".to_string()])
    );
    assert_eq!(
        default_sink_arguments(&AudioCommand::AdjustVolume(-5), "sink0"),
        Some(vec!["set-sink-volume".to_string(), "sink0".to_string(), "-5%".to_string()])
    );
    assert_eq!(
        default_sink_arguments(&AudioCommand::SetVolume(40), "sink0"),
        Some(vec!["set-sink-volume".to_string(), "sink0".to_string(), "40%".to_string()])
    );
    assert_eq!(
        default_sink_arguments(&AudioCommand::ToggleMute, "sink0"),
        Some(vec!["set-sink-mute".to_string(), "sink0".to_string(), "toggle".to_string()])
    );
    assert!(default_sink_arguments(&AudioCommand::OpenSession, "sink0").is_none());
}
