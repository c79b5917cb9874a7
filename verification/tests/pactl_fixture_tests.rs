use quantum_providers::audio_devices::{
    is_monitor_source, map_card, map_device, map_stream, percent_from_volume_map, PactlCard,
    PactlCardProfile, PactlChannelVolume, PactlDevice, PactlPort, PactlStream,
};
use quantum_providers::json::JsonValue;

fn to_json(v: &serde_json::Value) -> JsonValue {
    match v {
        serde_json::Value::Null => JsonValue::Null,
        serde_json::Value::Bool(b) => JsonValue::Bool(*b),
        serde_json::Value::Number(n) => {
            if let Some(u) = n.as_u64() {
                JsonValue::UInt(u)
            } else if let Some(i) = n.as_i64() {
                JsonValue::Int(i)
            } else {
                JsonValue::Fraction
            }
        }
        serde_json::Value::String(s) => JsonValue::Str(s.clone()),
        serde_json::Value::Array(items) => JsonValue::Array(items.iter().map(to_json).collect()),
        serde_json::Value::Object(map) => {
            JsonValue::Object(map.iter().map(|(k, v)| (k.clone(), to_json(v))).collect())
        }
    }
}

fn str_field(v: &serde_json::Value, key: &str) -> String {
    v[key].as_str().unwrap_or_default().to_string()
}

fn volume(v: &serde_json::Value) -> Vec<(String, PactlChannelVolume)> {
    let mut out: Vec<(String, PactlChannelVolume)> = v["volume"]
        .as_object()
        .map(|m| {
            m.iter()
                .map(|(k, c)| (k.clone(), PactlChannelVolume { value_percent: str_field(c, "value_percent") }))
                .collect()
        })
        .unwrap_or_default();
    out.sort_by(|a, b| a.0.cmp(&b.0));
    out
}

fn properties(v: &serde_json::Value) -> Vec<(String, JsonValue)> {
    let mut out: Vec<(String, JsonValue)> = v["properties"]
        .as_object()
        .map(|m| m.iter().map(|(k, p)| (k.clone(), to_json(p))).collect())
        .unwrap_or_default();
    out.sort_by(|a, b| a.0.cmp(&b.0));
    out
}

fn devices(text: &str) -> Vec<PactlDevice> {
    let list: serde_json::Value = serde_json::from_str(text).expect("fixture parses");
    list.as_array()
        .expect("array")
        .iter()
        .map(|d| PactlDevice {
            index: d["index"].as_u64().expect("index") as u32,
            name: str_field(d, "name"),
            description: str_field(d, "description"),
            mute: d["mute"].as_bool().unwrap_or(false),
            volume: volume(d),
            active_port: d["active_port"].as_str().map(|s| s.to_string()),
            ports: d["ports"]
                .as_array()
                .map(|ps| {
                    ps.iter()
                        .map(|p| PactlPort { name: str_field(p, "name"), description: str_field(p, "description") })
                        .collect()
                })
                .unwrap_or_default(),
            properties: properties(d),
        })
        .collect()
}

fn streams(text: &str) -> Vec<PactlStream> {
    let list: serde_json::Value = serde_json::from_str(text).expect("fixture parses");
    list.as_array()
        .expect("array")
        .iter()
        .map(|s| PactlStream {
            index: s["index"].as_u64().expect("index") as u32,
            sink: s["sink"].as_u64().map(|x| x as u32),
            source: s["source"].as_u64().map(|x| x as u32),
            mute: s["mute"].as_bool().unwrap_or(false),
            volume: volume(s),
            properties: properties(s),
        })
        .collect()
}

fn cards(text: &str) -> Vec<PactlCard> {
    let list: serde_json::Value = serde_json::from_str(text).expect("fixture parses");
    list.as_array()
        .expect("array")
        .iter()
        .map(|c| {
            let mut profiles: Vec<(String, PactlCardProfile)> = c["profiles"]
                .as_object()
                .map(|m| {
                    m.iter()
                        .map(|(k, p)| {
                            (
                                k.clone(),
                                PactlCardProfile {
                                    description: str_field(p, "description"),
                                    available: p["available"].as_bool().unwrap_or(false),
                                },
                            )
                        })
                        .collect()
                })
                .unwrap_or_default();
            profiles.sort_by(|a, b| a.0.cmp(&b.0));
            PactlCard {
                index: c["index"].as_u64().expect("index") as u32,
                name: str_field(c, "name"),
                active_profile: str_field(c, "active_profile"),
                profiles,
                properties: properties(c),
            }
        })
        .collect()
}

const SINKS_JSON_FIXTURE: &str = r#"[
      {
        "index": 59,
        "state": "RUNNING",
        "name": "alsa_output.pci-0000_00_1f.3-platform-skl_hda_dsp_generic.HiFi__Speaker__sink",
        "description": "Arrow Lake cAVS Speaker",
        "driver": "PipeWire",
        "sample_specification": "s32le 2ch 48000Hz",
        "mute": false,
        "volume": {
          "front-left": { "value": 36036, "value_percent": "55%", "db": "-15.58 dB" },
          "front-right": { "value": 36036, "value_percent": "55%", "db": "-15.58 dB" }
        },
        "balance": 0.0,
        "base_volume": { "value": 65536, "value_percent": "100%", "db": "0.00 dB" },
        "active_port": "[Out] Speaker",
        "ports": [
          { "name": "[Out] Speaker", "description": "Speaker", "type": "Speaker", "priority": 100, "availability": "availability unknown" }
        ],
        "properties": { "device.icon_name": "audio-card", "media.class": "Audio/Sink" },
        "formats": ["pcm"]
      },
      {
        "index": 56,
        "state": "SUSPENDED",
        "name": "alsa_output.pci-0000_00_1f.3-platform-skl_hda_dsp_generic.HiFi__HDMI3__sink",
        "description": "Arrow Lake cAVS HDMI / DisplayPort 3 Output",
        "driver": "PipeWire",
        "mute": true,
        "volume": {
          "front-left": { "value": 65536, "value_percent": "100%", "db": "0.00 dB" },
          "front-right": { "value": 65536, "value_percent": "100%", "db": "0.00 dB" }
        },
        "active_port": "[Out] HDMI3",
        "ports": [
          { "name": "[Out] HDMI3", "description": "HDMI / DisplayPort 3 Output", "type": "HDMI", "priority": 700, "availability": "not available" }
        ],
        "properties": { "device.icon_name": "video-display", "media.class": "Audio/Sink" }
      }
    ]"#;

const SOURCES_JSON_FIXTURE: &str = r#"[
      {
        "index": 59,
        "name": "alsa_output.pci-0000_00_1f.3-platform-skl_hda_dsp_generic.HiFi__Speaker__sink.monitor",
        "description": "Monitor of Arrow Lake cAVS Speaker",
        "mute": false,
        "volume": {
          "front-left": { "value": 65536, "value_percent": "100%", "db": "0.00 dB" },
          "front-right": { "value": 65536, "value_percent": "100%", "db": "0.00 dB" }
        },
        "active_port": "[Out] Speaker",
        "properties": { "device.class": "monitor" }
      },
      {
        "index": 61,
        "name": "alsa_input.pci-0000_00_1f.3-platform-skl_hda_dsp_generic.HiFi__Mic1__source",
        "description": "Arrow Lake cAVS Digital Microphone",
        "mute": false,
        "volume": {
          "front-left": { "value": 65536, "value_percent": "100%", "db": "0.00 dB" },
          "front-right": { "value": 65536, "value_percent": "100%", "db": "0.00 dB" }
        },
        "active_port": "[In] Mic1",
        "ports": [
          { "name": "[In] Mic1", "description": "Digital Microphone", "type": "Mic", "priority": 200, "availability": "availability unknown" }
        ],
        "properties": { "device.class": "sound" }
      }
    ]"#;

const SINK_INPUTS_JSON_FIXTURE: &str = r#"[
      {
        "index": 900,
        "driver": "protocol-native.c",
        "owner_module": 4294967295,
        "client": 901,
        "sink": 59,
        "mute": false,
        "corked": false,
        "volume": {
          "front-left": { "value": 65536, "value_percent": "100%", "db": "0.00 dB" },
          "front-right": { "value": 65536, "value_percent": "100%", "db": "0.00 dB" }
        },
        "properties": {
          "application.name": "paplay",
          "media.name": "/dev/zero",
          "application.process.binary": "paplay"
        }
      }
    ]"#;

const SOURCE_OUTPUTS_JSON_FIXTURE: &str = r#"[
      {
        "index": 932,
        "driver": "protocol-native.c",
        "client": 933,
        "source": 61,
        "mute": false,
        "corked": false,
        "volume": {
          "front-left": { "value": 65536, "value_percent": "100%", "db": "0.00 dB" },
          "front-right": { "value": 65536, "value_percent": "100%", "db": "0.00 dB" }
        },
        "properties": {
          "application.name": "parecord",
          "media.name": "/dev/null"
        }
      }
    ]"#;

const CARDS_JSON_FIXTURE: &str = r#"[
      {
        "index": 48,
        "name": "alsa_card.pci-0000_00_1f.3-platform-skl_hda_dsp_generic",
        "driver": "alsa",
        "owner_module": 4294967295,
        "active_profile": "HiFi (HDMI1, HDMI2, HDMI3, Mic1, Mic2, Speaker)",
        "profiles": {
          "off": { "description": "Off", "sinks": 0, "sources": 0, "priority": 0, "available": true },
          "HiFi (HDMI1, HDMI2, HDMI3, Headphones, Mic1, Mic2)": { "description": "Play HiFi quality Music (HDMI1, HDMI2, HDMI3, Headphones, Mic1, Mic2)", "sinks": 4, "sources": 2, "priority": 10300, "available": false },
          "HiFi (HDMI1, HDMI2, HDMI3, Mic1, Mic2, Speaker)": { "description": "Play HiFi quality Music (HDMI1, HDMI2, HDMI3, Mic1, Mic2, Speaker)", "sinks": 4, "sources": 2, "priority": 10200, "available": true }
        },
        "properties": { "device.description": "Arrow Lake cAVS", "device.nick": "sof-hda-dsp" }
      }
    ]"#;

#[test]
fn parses_sinks_json_and_maps_devices() {
    let devices: Vec<PactlDevice> = devices(SINKS_JSON_FIXTURE);
    assert_eq!(devices.len(), 2);
    let default_name =
        "alsa_output.pci-0000_00_1f.3-platform-skl_hda_dsp_generic.HiFi__Speaker__sink";
    let speaker = map_device(&devices[0], default_name);
    assert_eq!(speaker.index, 59);
    assert_eq!(speaker.description, "Arrow Lake cAVS Speaker");
    assert_eq!(speaker.volume_percent, 55);
    assert!(!speaker.muted);
    assert!(speaker.is_default);
    assert_eq!(speaker.port.as_deref(), Some("Speaker"));
    let hdmi = map_device(&devices[1], default_name);
    assert!(hdmi.muted);
    assert!(!hdmi.is_default);
    assert_eq!(hdmi.volume_percent, 100);
}

#[test]
fn monitor_sources_are_detected() {
    let devices: Vec<PactlDevice> = devices(SOURCES_JSON_FIXTURE);
    assert_eq!(devices.len(), 2);
    assert!(is_monitor_source(&devices[0]));
    assert!(!is_monitor_source(&devices[1]));
}

#[test]
fn parses_sink_inputs_json_and_maps_streams() {
    let streams: Vec<PactlStream> = streams(SINK_INPUTS_JSON_FIXTURE);
    assert_eq!(streams.len(), 1);
    let stream = map_stream(&streams[0]);
    assert_eq!(stream.index, 900);
    assert_eq!(stream.application_name, "paplay");
    assert_eq!(stream.media_name, "/dev/zero");
    assert_eq!(stream.icon, None);
    assert_eq!(stream.volume_percent, 100);
    assert!(!stream.muted);
    assert_eq!(stream.device_index, 59);
}

#[test]
fn parses_source_outputs_json_and_maps_streams() {
    let streams: Vec<PactlStream> = streams(SOURCE_OUTPUTS_JSON_FIXTURE);
    let stream = map_stream(&streams[0]);
    assert_eq!(stream.index, 932);
    assert_eq!(stream.application_name, "parecord");
    assert_eq!(stream.device_index, 61);
}

#[test]
fn parses_cards_json_and_maps_profiles() {
    let cards: Vec<PactlCard> = cards(CARDS_JSON_FIXTURE);
    assert_eq!(cards.len(), 1);
    let card = map_card(&cards[0]);
    assert_eq!(card.index, 48);
    assert_eq!(card.description, "Arrow Lake cAVS");
    assert_eq!(card.active_profile, "HiFi (HDMI1, HDMI2, HDMI3, Mic1, Mic2, Speaker)");
    assert_eq!(card.profiles.len(), 3);
    let unavailable = card
        .profiles
        .iter()
        .find(|profile| profile.name.contains("Headphones"))
        .expect("headphones profile present");
    assert!(!unavailable.available);
    assert!(unavailable.description.starts_with("Play HiFi"));
}

#[test]
fn percent_from_volume_map_reads_first_channel() {
    let devices: Vec<PactlDevice> = devices(SINKS_JSON_FIXTURE);
    assert_eq!(percent_from_volume_map(&devices[0].volume), Some(55));
    let empty: Vec<(String, PactlChannelVolume)> = Vec::new();
    assert_eq!(percent_from_volume_map(&empty), None);
}
