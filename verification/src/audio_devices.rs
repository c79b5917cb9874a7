//! The sound window's devices, streams and cards, read from the records of
//! `pactl --format=json list sinks|sources|sink-inputs|source-outputs|cards`.
//! Each JSON object map arrives as its entries in key order.
use vstd::prelude::*;

use crate::json::JsonValue;
use crate::text::{
    chars_vec, ends_with, owned, parse_unsigned, spec_ends_with, spec_parse_unsigned, spec_trim,
    str_eq, string_of, trim, slice_vec,
};

verus! {

/// One channel's volume; `value_percent` reads like `55%`.
#[derive(Debug)]
pub struct PactlChannelVolume {
    pub value_percent: String,
}

/// One entry of a device's ports.
#[derive(Debug)]
pub struct PactlPort {
    pub name: String,
    pub description: String,
}

/// A sink or source record.
#[derive(Debug)]
pub struct PactlDevice {
    pub index: u32,
    pub name: String,
    pub description: String,
    pub mute: bool,
    pub volume: Vec<(String, PactlChannelVolume)>,
    pub active_port: Option<String>,
    pub ports: Vec<PactlPort>,
    pub properties: Vec<(String, JsonValue)>,
}

/// A sink-input (with `sink`) or source-output (with `source`) record.
#[derive(Debug)]
pub struct PactlStream {
    pub index: u32,
    pub sink: Option<u32>,
    pub source: Option<u32>,
    pub mute: bool,
    pub volume: Vec<(String, PactlChannelVolume)>,
    pub properties: Vec<(String, JsonValue)>,
}

/// One profile of a card.
#[derive(Debug)]
pub struct PactlCardProfile {
    pub description: String,
    pub available: bool,
}

/// A card record.
#[derive(Debug)]
pub struct PactlCard {
    pub index: u32,
    pub name: String,
    pub active_profile: String,
    pub profiles: Vec<(String, PactlCardProfile)>,
    pub properties: Vec<(String, JsonValue)>,
}

/// A device as the sound window shows it.
#[derive(Debug)]
pub struct AudioDevice {
    pub index: u32,
    pub name: String,
    pub description: String,
    pub volume_percent: u8,
    pub muted: bool,
    pub is_default: bool,
    pub port: Option<String>,
}

/// A stream as the sound window shows it.
#[derive(Debug)]
pub struct AudioStream {
    pub index: u32,
    pub application_name: String,
    pub media_name: String,
    pub icon: Option<String>,
    pub volume_percent: u8,
    pub muted: bool,
    pub device_index: u32,
}

/// A card profile as the sound window shows it.
#[derive(Debug)]
pub struct AudioCardProfile {
    pub name: String,
    pub description: String,
    pub available: bool,
}

/// A card as the sound window shows it.
#[derive(Debug)]
pub struct AudioCard {
    pub index: u32,
    pub name: String,
    pub description: String,
    pub active_profile: String,
    pub profiles: Vec<AudioCardProfile>,
}

/// The percent of a channel's `value_percent`: a trimmed `u8` before a final
/// `%`.
pub open spec fn spec_channel_percent(value: Seq<char>) -> Option<u8> {
    if spec_ends_with(value, "%"@) {
        match spec_parse_unsigned(spec_trim(value.drop_last()), 255) {
            Some(n) => Some(n as u8),
            None => None,
        }
    } else {
        None
    }
}

/// The first channel's percent (the first channel in key order).
pub open spec fn spec_percent_from_volume_map(volume: Seq<(String, PactlChannelVolume)>) -> Option<u8> {
    if volume.len() == 0 {
        None
    } else {
        spec_channel_percent(volume[0].1.value_percent@)
    }
}

pub fn percent_from_volume_map(volume: &Vec<(String, PactlChannelVolume)>) -> (r: Option<u8>)
    ensures
        r == spec_percent_from_volume_map(volume@),
{
    if volume.len() == 0 {
        return None;
    }
    let v = chars_vec(volume[0].1.value_percent.as_str());
    proof {
        reveal_strlit("%");
    }
    if !ends_with(&v, "%") {
        return None;
    }
    let head = slice_vec(&v, 0, v.len() - 1);
    assert(head@ =~= v@.drop_last());
    let t = trim(&head);
    assert(t@.subrange(0, t@.len() as int) =~= t@);
    match parse_unsigned(&t, 0, t.len(), 255) {
        Some(n) => Some(n as u8),
        None => None,
    }
}

/// The string value of the first property named `key`, when it is a string.
pub open spec fn spec_property_string(props: Seq<(String, JsonValue)>, key: Seq<char>) -> Option<Seq<char>>
    decreases props.len(),
{
    if props.len() == 0 {
        None
    } else if props[0].0@ == key {
        match props[0].1 {
            JsonValue::Str(s) => Some(s@),
            _ => None,
        }
    } else {
        spec_property_string(props.drop_first(), key)
    }
}

pub open spec fn opt_view(o: Option<String>) -> Option<Seq<char>> {
    match o {
        Some(s) => Some(s@),
        None => None,
    }
}

pub fn property_string(props: &Vec<(String, JsonValue)>, key: &str) -> (r: Option<String>)
    ensures
        opt_view(r) == spec_property_string(props@, key@),
{
    let mut i: usize = 0;
    assert(props@.skip(0) =~= props@);
    while i < props.len()
        invariant
            i <= props@.len(),
            spec_property_string(props@, key@) == spec_property_string(props@.skip(i as int), key@),
        decreases props@.len() - i,
    {
        assert(props@.skip(i as int)[0] == props@[i as int]);
        assert(props@.skip(i as int).drop_first() =~= props@.skip(i + 1));
        if str_eq(props[i].0.as_str(), key) {
            return match &props[i].1 {
                JsonValue::Str(s) => Some(s.clone()),
                _ => None,
            };
        }
        i += 1;
    }
    None
}

/// A monitor source: its name ends in `.monitor` or its `device.class`
/// property is `monitor`.
pub open spec fn spec_is_monitor_source(d: PactlDevice) -> bool {
    spec_ends_with(d.name@, ".monitor"@) || spec_property_string(d.properties@, "device.class"@)
        == Some("monitor"@)
}

pub fn is_monitor_source(device: &PactlDevice) -> (r: bool)
    ensures
        r == spec_is_monitor_source(*device),
{
    let n = chars_vec(device.name.as_str());
    if ends_with(&n, ".monitor") {
        return true;
    }
    match property_string(&device.properties, "device.class") {
        Some(c) => str_eq(c.as_str(), "monitor"),
        None => false,
    }
}

/// The description of the first port named `name`, if any.
pub open spec fn spec_port_description(ports: Seq<PactlPort>, name: Seq<char>) -> Option<Seq<char>>
    decreases ports.len(),
{
    if ports.len() == 0 {
        None
    } else if ports[0].name@ == name {
        Some(ports[0].description@)
    } else {
        spec_port_description(ports.drop_first(), name)
    }
}

fn port_description(ports: &Vec<PactlPort>, name: &str) -> (r: Option<String>)
    ensures
        opt_view(r) == spec_port_description(ports@, name@),
{
    let mut i: usize = 0;
    assert(ports@.skip(0) =~= ports@);
    while i < ports.len()
        invariant
            i <= ports@.len(),
            spec_port_description(ports@, name@) == spec_port_description(ports@.skip(i as int), name@),
        decreases ports@.len() - i,
    {
        assert(ports@.skip(i as int)[0] == ports@[i as int]);
        assert(ports@.skip(i as int).drop_first() =~= ports@.skip(i + 1));
        if str_eq(ports[i].name.as_str(), name) {
            return Some(ports[i].description.clone());
        }
        i += 1;
    }
    None
}

/// A device for the window: default when its name is the default device's;
/// its port is the active port's description (or the port's raw name when no
/// port lists it); a volume it does not state reads 0.
pub fn map_device(device: &PactlDevice, default_name: &str) -> (r: AudioDevice)
    ensures
        r.index == device.index,
        r.name@ == device.name@,
        r.description@ == device.description@,
        r.volume_percent == match spec_percent_from_volume_map(device.volume@) {
            Some(p) => p,
            None => 0,
        },
        r.muted == device.mute,
        r.is_default == (device.name@ == default_name@),
        opt_view(r.port) == match device.active_port {
            Some(a) => Some(
                match spec_port_description(device.ports@, a@) {
                    Some(d) => d,
                    None => a@,
                },
            ),
            None => None,
        },
{
    let port = match &device.active_port {
        Some(a) => match port_description(&device.ports, a.as_str()) {
            Some(d) => Some(d),
            None => Some(a.clone()),
        },
        None => None,
    };
    let volume_percent = match percent_from_volume_map(&device.volume) {
        Some(p) => p,
        None => 0,
    };
    AudioDevice {
        index: device.index,
        name: device.name.clone(),
        description: device.description.clone(),
        volume_percent,
        muted: device.mute,
        is_default: str_eq(device.name.as_str(), default_name),
        port,
    }
}

pub open spec fn or_empty(o: Option<Seq<char>>) -> Seq<char> {
    match o {
        Some(s) => s,
        None => Seq::empty(),
    }
}

/// A stream for the window: names and icon from its properties (missing
/// names are empty), its device from `sink`, else `source`, else 0.
pub fn map_stream(stream: &PactlStream) -> (r: AudioStream)
    ensures
        r.index == stream.index,
        r.application_name@ == or_empty(spec_property_string(stream.properties@, "application.name"@)),
        r.media_name@ == or_empty(spec_property_string(stream.properties@, "media.name"@)),
        opt_view(r.icon) == spec_property_string(stream.properties@, "application.icon_name"@),
        r.volume_percent == match spec_percent_from_volume_map(stream.volume@) {
            Some(p) => p,
            None => 0,
        },
        r.muted == stream.mute,
        r.device_index == match stream.sink {
            Some(s) => s,
            None => match stream.source {
                Some(s) => s,
                None => 0,
            },
        },
{
    let application_name = match property_string(&stream.properties, "application.name") {
        Some(s) => s,
        None => String::new(),
    };
    let media_name = match property_string(&stream.properties, "media.name") {
        Some(s) => s,
        None => String::new(),
    };
    let icon = property_string(&stream.properties, "application.icon_name");
    let volume_percent = match percent_from_volume_map(&stream.volume) {
        Some(p) => p,
        None => 0,
    };
    let device_index = match stream.sink {
        Some(s) => s,
        None => match stream.source {
            Some(s) => s,
            None => 0,
        },
    };
    AudioStream {
        index: stream.index,
        application_name,
        media_name,
        icon,
        volume_percent,
        muted: stream.mute,
        device_index,
    }
}

/// A card for the window: its description from `device.description` (else
/// its name), and its profiles in key order.
pub fn map_card(card: &PactlCard) -> (r: AudioCard)
    ensures
        r.index == card.index,
        r.name@ == card.name@,
        r.description@ == match spec_property_string(card.properties@, "device.description"@) {
            Some(d) => d,
            None => card.name@,
        },
        r.active_profile@ == card.active_profile@,
        r.profiles@.len() == card.profiles@.len(),
        forall|i: int|
            0 <= i < card.profiles@.len() ==> (#[trigger] r.profiles@[i]).name@ == card.profiles@[i].0@
                && r.profiles@[i].description@ == card.profiles@[i].1.description@
                && r.profiles@[i].available == card.profiles@[i].1.available,
{
    let description = match property_string(&card.properties, "device.description") {
        Some(d) => d,
        None => card.name.clone(),
    };
    let mut profiles: Vec<AudioCardProfile> = Vec::new();
    let mut i: usize = 0;
    while i < card.profiles.len()
        invariant
            i <= card.profiles@.len(),
            profiles@.len() == i,
            forall|k: int|
                0 <= k < i ==> (#[trigger] profiles@[k]).name@ == card.profiles@[k].0@
                    && profiles@[k].description@ == card.profiles@[k].1.description@
                    && profiles@[k].available == card.profiles@[k].1.available,
        decreases card.profiles@.len() - i,
    {
        profiles.push(
            AudioCardProfile {
                name: card.profiles[i].0.clone(),
                description: card.profiles[i].1.description.clone(),
                available: card.profiles[i].1.available,
            },
        );
        i += 1;
    }
    AudioCard {
        index: card.index,
        name: card.name.clone(),
        description,
        active_profile: card.active_profile.clone(),
        profiles,
    }
}

} // verus!
