//! PulseAudio / PipeWire control through `pactl`: the action payload parser,
//! the exact `pactl` argument vectors, and the parsers of `pactl` output.
use vstd::prelude::*;

use crate::error::DomainError;
use crate::json::{
    field_bool, field_i64, field_str, field_u64, spec_field_bool, spec_field_i64, spec_field_str,
    spec_field_u64, JsonValue,
};
use crate::text::{
    concat, decimal, owned, push_str, spec_decimal, str_eq, string_of, string_views,
};

verus! {

#[derive(Debug, Clone, Copy, PartialEq, Eq, Structural)]
pub enum AudioDeviceKind {
    Sink,
    Source,
}

#[derive(Debug, Clone, Copy, PartialEq, Eq, Structural)]
pub enum AudioStreamKind {
    Playback,
    Record,
}

/// A parsed audio command.
#[derive(Debug)]
pub enum AudioCommand {
    SetVolume(u8),
    ToggleMute,
    AdjustVolume(i32),
    ToggleMicMute,
    OpenSession,
    CloseSession,
    SetDefaultSink { name: String },
    SetDefaultSource { name: String },
    SetDeviceVolume { kind: AudioDeviceKind, name: String, percent: u8 },
    SetDeviceMute { kind: AudioDeviceKind, name: String, muted: bool },
    SetStreamVolume { kind: AudioStreamKind, index: u32, percent: u8 },
    SetStreamMute { kind: AudioStreamKind, index: u32, muted: bool },
    MoveStream { kind: AudioStreamKind, index: u32, device_name: String },
    SetCardProfile { card_index: u32, profile: String },
}

/// The mathematical value of an [`AudioCommand`]: strings as character sequences.
pub enum AudioCommandView {
    SetVolume(u8),
    ToggleMute,
    AdjustVolume(i32),
    ToggleMicMute,
    OpenSession,
    CloseSession,
    SetDefaultSink { name: Seq<char> },
    SetDefaultSource { name: Seq<char> },
    SetDeviceVolume { kind: AudioDeviceKind, name: Seq<char>, percent: u8 },
    SetDeviceMute { kind: AudioDeviceKind, name: Seq<char>, muted: bool },
    SetStreamVolume { kind: AudioStreamKind, index: u32, percent: u8 },
    SetStreamMute { kind: AudioStreamKind, index: u32, muted: bool },
    MoveStream { kind: AudioStreamKind, index: u32, device_name: Seq<char> },
    SetCardProfile { card_index: u32, profile: Seq<char> },
}

impl View for AudioCommand {
    type V = AudioCommandView;

    open spec fn view(&self) -> AudioCommandView {
        match self {
            AudioCommand::SetVolume(p) => AudioCommandView::SetVolume(*p),
            AudioCommand::ToggleMute => AudioCommandView::ToggleMute,
            AudioCommand::AdjustVolume(d) => AudioCommandView::AdjustVolume(*d),
            AudioCommand::ToggleMicMute => AudioCommandView::ToggleMicMute,
            AudioCommand::OpenSession => AudioCommandView::OpenSession,
            AudioCommand::CloseSession => AudioCommandView::CloseSession,
            AudioCommand::SetDefaultSink { name } => AudioCommandView::SetDefaultSink { name: name@ },
            AudioCommand::SetDefaultSource { name } => AudioCommandView::SetDefaultSource {
                name: name@,
            },
            AudioCommand::SetDeviceVolume { kind, name, percent } =>
                AudioCommandView::SetDeviceVolume { kind: *kind, name: name@, percent: *percent },
            AudioCommand::SetDeviceMute { kind, name, muted } => AudioCommandView::SetDeviceMute {
                kind: *kind,
                name: name@,
                muted: *muted,
            },
            AudioCommand::SetStreamVolume { kind, index, percent } =>
                AudioCommandView::SetStreamVolume { kind: *kind, index: *index, percent: *percent },
            AudioCommand::SetStreamMute { kind, index, muted } => AudioCommandView::SetStreamMute {
                kind: *kind,
                index: *index,
                muted: *muted,
            },
            AudioCommand::MoveStream { kind, index, device_name } => AudioCommandView::MoveStream {
                kind: *kind,
                index: *index,
                device_name: device_name@,
            },
            AudioCommand::SetCardProfile { card_index, profile } =>
                AudioCommandView::SetCardProfile { card_index: *card_index, profile: profile@ },
        }
    }
}

/// `percent.min(150) as u8`.
pub open spec fn spec_clamp_percent(n: u64) -> u8 {
    if n < 150 {
        n as u8
    } else {
        150
    }
}

/// `payload["kind"]` read as a device kind.
pub open spec fn spec_device_kind(p: JsonValue) -> Option<AudioDeviceKind> {
    match spec_field_str(p, "kind"@) {
        Some(k) => if k == "sink"@ {
            Some(AudioDeviceKind::Sink)
        } else if k == "source"@ {
            Some(AudioDeviceKind::Source)
        } else {
            None
        },
        None => None,
    }
}

/// `payload["kind"]` read as a stream kind.
pub open spec fn spec_stream_kind(p: JsonValue) -> Option<AudioStreamKind> {
    match spec_field_str(p, "kind"@) {
        Some(k) => if k == "playback"@ {
            Some(AudioStreamKind::Playback)
        } else if k == "record"@ {
            Some(AudioStreamKind::Record)
        } else {
            None
        },
        None => None,
    }
}

/// `payload[key]` as an unsigned integer that fits in `u32`.
pub open spec fn spec_field_u32(p: JsonValue, key: Seq<char>) -> Option<u32> {
    match spec_field_u64(p, key) {
        Some(n) => if n <= u32::MAX as u64 {
            Some(n as u32)
        } else {
            None
        },
        None => None,
    }
}

/// `payload["percent"]` clamped to 150.
pub open spec fn spec_field_percent(p: JsonValue) -> Option<u8> {
    match spec_field_u64(p, "percent"@) {
        Some(n) => Some(spec_clamp_percent(n)),
        None => None,
    }
}

/// The command an audio payload denotes; `None` when the payload is rejected.
pub open spec fn spec_parse_audio_action(p: JsonValue) -> Option<AudioCommandView> {
    match spec_field_str(p, "command"@) {
        None => None,
        Some(c) => if c == "set_volume"@ {
            match spec_field_u64(p, "percent"@) {
                Some(n) => Some(AudioCommandView::SetVolume(spec_clamp_percent(n))),
                None => None,
            }
        } else if c == "toggle_mute"@ {
            Some(AudioCommandView::ToggleMute)
        } else if c == "toggle_mic_mute"@ {
            Some(AudioCommandView::ToggleMicMute)
        } else if c == "adjust_volume"@ {
            match spec_field_i64(p, "delta"@) {
                Some(d) => Some(AudioCommandView::AdjustVolume(d as i32)),
                None => None,
            }
        } else if c == "open_session"@ {
            Some(AudioCommandView::OpenSession)
        } else if c == "close_session"@ {
            Some(AudioCommandView::CloseSession)
        } else if c == "set_default_sink"@ {
            match spec_field_str(p, "name"@) {
                Some(name) => Some(AudioCommandView::SetDefaultSink { name }),
                None => None,
            }
        } else if c == "set_default_source"@ {
            match spec_field_str(p, "name"@) {
                Some(name) => Some(AudioCommandView::SetDefaultSource { name }),
                None => None,
            }
        } else if c == "set_device_volume"@ {
            match (spec_device_kind(p), spec_field_str(p, "name"@), spec_field_percent(p)) {
                (Some(kind), Some(name), Some(percent)) => Some(
                    AudioCommandView::SetDeviceVolume { kind, name, percent },
                ),
                _ => None,
            }
        } else if c == "set_device_mute"@ {
            match (spec_device_kind(p), spec_field_str(p, "name"@), spec_field_bool(p, "muted"@)) {
                (Some(kind), Some(name), Some(muted)) => Some(
                    AudioCommandView::SetDeviceMute { kind, name, muted },
                ),
                _ => None,
            }
        } else if c == "set_stream_volume"@ {
            match (spec_stream_kind(p), spec_field_u32(p, "index"@), spec_field_percent(p)) {
                (Some(kind), Some(index), Some(percent)) => Some(
                    AudioCommandView::SetStreamVolume { kind, index, percent },
                ),
                _ => None,
            }
        } else if c == "set_stream_mute"@ {
            match (spec_stream_kind(p), spec_field_u32(p, "index"@), spec_field_bool(p, "muted"@)) {
                (Some(kind), Some(index), Some(muted)) => Some(
                    AudioCommandView::SetStreamMute { kind, index, muted },
                ),
                _ => None,
            }
        } else if c == "move_stream"@ {
            match (
                spec_stream_kind(p),
                spec_field_u32(p, "index"@),
                spec_field_str(p, "device_name"@),
            ) {
                (Some(kind), Some(index), Some(device_name)) => Some(
                    AudioCommandView::MoveStream { kind, index, device_name },
                ),
                _ => None,
            }
        } else if c == "set_card_profile"@ {
            match (spec_field_u32(p, "card_index"@), spec_field_str(p, "profile"@)) {
                (Some(card_index), Some(profile)) => Some(
                    AudioCommandView::SetCardProfile { card_index, profile },
                ),
                _ => None,
            }
        } else {
            None
        },
    }
}

/// The reason given for a required field that is absent or of the wrong
/// type: `missing or non-<what> '<key>' in audio action`.
pub open spec fn spec_missing_msg(what: Seq<char>, key: Seq<char>) -> Seq<char> {
    "missing or non-"@ + what + " '"@ + key + "' in audio action"@
}

pub open spec fn spec_str_err(p: JsonValue, key: Seq<char>) -> Option<Seq<char>> {
    if spec_field_str(p, key) is Some {
        None
    } else {
        Some(spec_missing_msg("string"@, key))
    }
}

pub open spec fn spec_bool_err(p: JsonValue, key: Seq<char>) -> Option<Seq<char>> {
    if spec_field_bool(p, key) is Some {
        None
    } else {
        Some(spec_missing_msg("bool"@, key))
    }
}

pub open spec fn spec_u32_err(p: JsonValue, key: Seq<char>) -> Option<Seq<char>> {
    if spec_field_u32(p, key) is Some {
        None
    } else {
        Some(spec_missing_msg("u32"@, key))
    }
}

pub open spec fn spec_percent_err(p: JsonValue) -> Option<Seq<char>> {
    if spec_field_u64(p, "percent"@) is Some {
        None
    } else {
        Some(spec_missing_msg("u64"@, "percent"@))
    }
}

/// The reason a `kind` field is refused: absent, or none of `a` and `b`
/// (`<label><kind>`).
pub open spec fn spec_kind_err(p: JsonValue, a: Seq<char>, b: Seq<char>, label: Seq<char>) -> Option<
    Seq<char>,
> {
    match spec_field_str(p, "kind"@) {
        None => Some(spec_missing_msg("string"@, "kind"@)),
        Some(k) => if k == a || k == b {
            None
        } else {
            Some(label + k)
        },
    }
}

pub open spec fn spec_device_kind_err(p: JsonValue) -> Option<Seq<char>> {
    spec_kind_err(p, "sink"@, "source"@, "unknown device kind: "@)
}

pub open spec fn spec_stream_kind_err(p: JsonValue) -> Option<Seq<char>> {
    spec_kind_err(p, "playback"@, "record"@, "unknown stream kind: "@)
}

/// The first of up to three refusals, in the order the fields are read.
pub open spec fn spec_first_err(a: Option<Seq<char>>, b: Option<Seq<char>>, c: Option<Seq<char>>) -> Option<
    Seq<char>,
> {
    if a is Some {
        a
    } else if b is Some {
        b
    } else {
        c
    }
}

/// The reason an audio payload is refused (meaningful where
/// `spec_parse_audio_action` gives `None`).
pub open spec fn spec_audio_error(p: JsonValue) -> Seq<char> {
    match spec_field_str(p, "command"@) {
        None => "missing 'command' field"@,
        Some(c) => {
            let e = if c == "set_volume"@ {
                Some("'set_volume' requires 'percent' (u64)"@)
            } else if c == "adjust_volume"@ {
                Some("'adjust_volume' requires 'delta' (i64)"@)
            } else if c == "set_default_sink"@ || c == "set_default_source"@ {
                spec_str_err(p, "name"@)
            } else if c == "set_device_volume"@ {
                spec_first_err(spec_device_kind_err(p), spec_str_err(p, "name"@), spec_percent_err(p))
            } else if c == "set_device_mute"@ {
                spec_first_err(
                    spec_device_kind_err(p),
                    spec_str_err(p, "name"@),
                    spec_bool_err(p, "muted"@),
                )
            } else if c == "set_stream_volume"@ {
                spec_first_err(
                    spec_stream_kind_err(p),
                    spec_u32_err(p, "index"@),
                    spec_percent_err(p),
                )
            } else if c == "set_stream_mute"@ {
                spec_first_err(
                    spec_stream_kind_err(p),
                    spec_u32_err(p, "index"@),
                    spec_bool_err(p, "muted"@),
                )
            } else if c == "move_stream"@ {
                spec_first_err(
                    spec_stream_kind_err(p),
                    spec_u32_err(p, "index"@),
                    spec_str_err(p, "device_name"@),
                )
            } else if c == "set_card_profile"@ {
                spec_first_err(spec_u32_err(p, "card_index"@), spec_str_err(p, "profile"@), None)
            } else {
                Some("unknown audio command: "@ + c)
            };
            match e {
                Some(m) => m,
                None => Seq::empty(),
            }
        },
    }
}

fn unsupported_missing(what: &str, key: &str) -> (r: DomainError)
    ensures
        r is Unsupported,
        r->Unsupported_0@ == spec_missing_msg(what@, key@),
{
    let mut m = concat("missing or non-", what);
    push_str(&mut m, " '");
    push_str(&mut m, key);
    push_str(&mut m, "' in audio action");
    DomainError::Unsupported(m)
}

fn required_string(payload: &JsonValue, key: &str) -> (r: Result<String, DomainError>)
    ensures
        match spec_field_str(*payload, key@) {
            Some(s) => r is Ok && r->Ok_0@ == s,
            None => r is Err && r->Err_0 is Unsupported && r->Err_0->Unsupported_0@
                == spec_missing_msg("string"@, key@),
        },
{
    match field_str(payload, key) {
        Some(s) => Ok(s),
        None => Err(unsupported_missing("string", key)),
    }
}

fn required_bool(payload: &JsonValue, key: &str) -> (r: Result<bool, DomainError>)
    ensures
        match spec_field_bool(*payload, key@) {
            Some(b) => r == Ok::<bool, DomainError>(b),
            None => r is Err && r->Err_0 is Unsupported && r->Err_0->Unsupported_0@
                == spec_missing_msg("bool"@, key@),
        },
{
    match field_bool(payload, key) {
        Some(b) => Ok(b),
        None => Err(unsupported_missing("bool", key)),
    }
}

fn required_u32(payload: &JsonValue, key: &str) -> (r: Result<u32, DomainError>)
    ensures
        match spec_field_u32(*payload, key@) {
            Some(n) => r == Ok::<u32, DomainError>(n),
            None => r is Err && r->Err_0 is Unsupported && r->Err_0->Unsupported_0@
                == spec_missing_msg("u32"@, key@),
        },
{
    match field_u64(payload, key) {
        Some(n) => if n <= 4294967295u64 {
            Ok(n as u32)
        } else {
            Err(unsupported_missing("u32", key))
        },
        None => Err(unsupported_missing("u32", key)),
    }
}

fn required_percent(payload: &JsonValue) -> (r: Result<u8, DomainError>)
    ensures
        match spec_field_percent(*payload) {
            Some(n) => r == Ok::<u8, DomainError>(n),
            None => r is Err && r->Err_0 is Unsupported && r->Err_0->Unsupported_0@
                == spec_missing_msg("u64"@, "percent"@),
        },
{
    match field_u64(payload, "percent") {
        Some(n) => Ok(if n < 150 { n as u8 } else { 150 }),
        None => Err(unsupported_missing("u64", "percent")),
    }
}

fn parse_device_kind(payload: &JsonValue) -> (r: Result<AudioDeviceKind, DomainError>)
    ensures
        match spec_device_kind(*payload) {
            Some(k) => r == Ok::<AudioDeviceKind, DomainError>(k),
            None => r is Err && r->Err_0 is Unsupported && spec_device_kind_err(*payload) == Some(
                r->Err_0->Unsupported_0@,
            ),
        },
{
    let kind = match required_string(payload, "kind") {
        Ok(k) => k,
        Err(e) => return Err(e),
    };
    if str_eq(kind.as_str(), "sink") {
        Ok(AudioDeviceKind::Sink)
    } else if str_eq(kind.as_str(), "source") {
        Ok(AudioDeviceKind::Source)
    } else {
        Err(DomainError::Unsupported(concat("unknown device kind: ", kind.as_str())))
    }
}

fn parse_stream_kind(payload: &JsonValue) -> (r: Result<AudioStreamKind, DomainError>)
    ensures
        match spec_stream_kind(*payload) {
            Some(k) => r == Ok::<AudioStreamKind, DomainError>(k),
            None => r is Err && r->Err_0 is Unsupported && spec_stream_kind_err(*payload) == Some(
                r->Err_0->Unsupported_0@,
            ),
        },
{
    let kind = match required_string(payload, "kind") {
        Ok(k) => k,
        Err(e) => return Err(e),
    };
    if str_eq(kind.as_str(), "playback") {
        Ok(AudioStreamKind::Playback)
    } else if str_eq(kind.as_str(), "record") {
        Ok(AudioStreamKind::Record)
    } else {
        Err(DomainError::Unsupported(concat("unknown stream kind: ", kind.as_str())))
    }
}

/// Parse an audio action payload. Succeeds exactly when the payload names a
/// known `command` and carries its arguments with the right types; every
/// rejection is `Unsupported`, with the reason `spec_audio_error` gives.
pub fn parse_audio_action(payload: &JsonValue) -> (r: Result<AudioCommand, DomainError>)
    ensures
        match spec_parse_audio_action(*payload) {
            Some(c) => r is Ok && r->Ok_0@ == c,
            None => r is Err && r->Err_0 is Unsupported && r->Err_0->Unsupported_0@
                == spec_audio_error(*payload),
        },
{
    let command = match field_str(payload, "command") {
        Some(c) => c,
        None => {
            return Err(DomainError::unsupported("missing 'command' field"));
        },
    };
    let c = command.as_str();
    if str_eq(c, "set_volume") {
        match field_u64(payload, "percent") {
            Some(n) => Ok(AudioCommand::SetVolume(if n < 150 { n as u8 } else { 150 })),
            None => Err(DomainError::unsupported("'set_volume' requires 'percent' (u64)")),
        }
    } else if str_eq(c, "toggle_mute") {
        Ok(AudioCommand::ToggleMute)
    } else if str_eq(c, "toggle_mic_mute") {
        Ok(AudioCommand::ToggleMicMute)
    } else if str_eq(c, "adjust_volume") {
        match field_i64(payload, "delta") {
            Some(d) => Ok(AudioCommand::AdjustVolume(d as i32)),
            None => Err(DomainError::unsupported("'adjust_volume' requires 'delta' (i64)")),
        }
    } else if str_eq(c, "open_session") {
        Ok(AudioCommand::OpenSession)
    } else if str_eq(c, "close_session") {
        Ok(AudioCommand::CloseSession)
    } else if str_eq(c, "set_default_sink") {
        Ok(AudioCommand::SetDefaultSink { name: required_string(payload, "name")? })
    } else if str_eq(c, "set_default_source") {
        Ok(AudioCommand::SetDefaultSource { name: required_string(payload, "name")? })
    } else if str_eq(c, "set_device_volume") {
        let kind = parse_device_kind(payload)?;
        let name = required_string(payload, "name")?;
        let percent = required_percent(payload)?;
        Ok(AudioCommand::SetDeviceVolume { kind, name, percent })
    } else if str_eq(c, "set_device_mute") {
        let kind = parse_device_kind(payload)?;
        let name = required_string(payload, "name")?;
        let muted = required_bool(payload, "muted")?;
        Ok(AudioCommand::SetDeviceMute { kind, name, muted })
    } else if str_eq(c, "set_stream_volume") {
        let kind = parse_stream_kind(payload)?;
        let index = required_u32(payload, "index")?;
        let percent = required_percent(payload)?;
        Ok(AudioCommand::SetStreamVolume { kind, index, percent })
    } else if str_eq(c, "set_stream_mute") {
        let kind = parse_stream_kind(payload)?;
        let index = required_u32(payload, "index")?;
        let muted = required_bool(payload, "muted")?;
        Ok(AudioCommand::SetStreamMute { kind, index, muted })
    } else if str_eq(c, "move_stream") {
        let kind = parse_stream_kind(payload)?;
        let index = required_u32(payload, "index")?;
        let device_name = required_string(payload, "device_name")?;
        Ok(AudioCommand::MoveStream { kind, index, device_name })
    } else if str_eq(c, "set_card_profile") {
        let card_index = required_u32(payload, "card_index")?;
        let profile = required_string(payload, "profile")?;
        Ok(AudioCommand::SetCardProfile { card_index, profile })
    } else {
        Err(DomainError::Unsupported(concat("unknown audio command: ", c)))
    }
}

/// `format!("{}%", n)`.
pub open spec fn spec_percent_arg(n: nat) -> Seq<char> {
    spec_decimal(n) + "%"@
}

pub open spec fn spec_mute_flag(muted: bool) -> Seq<char> {
    if muted {
        "1"@
    } else {
        "0"@
    }
}

/// The exact `pactl` argument vector of a table-mapped command; `None` for
/// session commands and the four commands that act on the default devices.
pub open spec fn spec_pactl_arguments(c: AudioCommandView) -> Option<Seq<Seq<char>>> {
    match c {
        AudioCommandView::SetDefaultSink { name } => Some(seq!["set-default-sink"@, name]),
        AudioCommandView::SetDefaultSource { name } => Some(seq!["set-default-source"@, name]),
        AudioCommandView::SetDeviceVolume { kind, name, percent } => Some(
            seq![
                if kind == AudioDeviceKind::Sink { "set-sink-volume"@ } else { "set-source-volume"@ },
                name,
                spec_percent_arg(percent as nat),
            ],
        ),
        AudioCommandView::SetDeviceMute { kind, name, muted } => Some(
            seq![
                if kind == AudioDeviceKind::Sink { "set-sink-mute"@ } else { "set-source-mute"@ },
                name,
                spec_mute_flag(muted),
            ],
        ),
        AudioCommandView::SetStreamVolume { kind, index, percent } => Some(
            seq![
                if kind == AudioStreamKind::Playback {
                    "set-sink-input-volume"@
                } else {
                    "set-source-output-volume"@
                },
                spec_decimal(index as nat),
                spec_percent_arg(percent as nat),
            ],
        ),
        AudioCommandView::SetStreamMute { kind, index, muted } => Some(
            seq![
                if kind == AudioStreamKind::Playback {
                    "set-sink-input-mute"@
                } else {
                    "set-source-output-mute"@
                },
                spec_decimal(index as nat),
                spec_mute_flag(muted),
            ],
        ),
        AudioCommandView::MoveStream { kind, index, device_name } => Some(
            seq![
                if kind == AudioStreamKind::Playback {
                    "move-sink-input"@
                } else {
                    "move-source-output"@
                },
                spec_decimal(index as nat),
                device_name,
            ],
        ),
        AudioCommandView::SetCardProfile { card_index, profile } => Some(
            seq!["set-card-profile"@, spec_decimal(card_index as nat), profile],
        ),
        _ => None,
    }
}

fn percent_arg(n: u64) -> (r: String)
    ensures
        r@ == spec_percent_arg(n as nat),
{
    let mut v = decimal(n);
    v.push('%');
    proof { reveal_strlit("%"); }
    assert(v@ == spec_decimal(n as nat) + "%"@);
    string_of(&v)
}

fn decimal_string(n: u64) -> (r: String)
    ensures
        r@ == spec_decimal(n as nat),
{
    let v = decimal(n);
    string_of(&v)
}

fn mute_flag(muted: bool) -> (r: String)
    ensures
        r@ == spec_mute_flag(muted),
{
    if muted {
        owned("1")
    } else {
        owned("0")
    }
}

fn argv3(a: String, b: String, c: String) -> (r: Vec<String>)
    ensures
        string_views(r@) == seq![a@, b@, c@],
{
    let mut v = Vec::new();
    v.push(a);
    v.push(b);
    v.push(c);
    assert(string_views(v@) =~= seq![a@, b@, c@]);
    v
}

fn argv2(a: String, b: String) -> (r: Vec<String>)
    ensures
        string_views(r@) == seq![a@, b@],
{
    let mut v = Vec::new();
    v.push(a);
    v.push(b);
    assert(string_views(v@) =~= seq![a@, b@]);
    v
}

/// Map a parsed command to its exact `pactl` argv.
pub fn pactl_arguments(command: &AudioCommand) -> (r: Option<Vec<String>>)
    ensures
        match spec_pactl_arguments(command@) {
            Some(a) => r is Some && string_views(r->0@) == a,
            None => r is None,
        },
{
    match command {
        AudioCommand::SetDefaultSink { name } => Some(
            argv2(owned("set-default-sink"), name.clone()),
        ),
        AudioCommand::SetDefaultSource { name } => Some(
            argv2(owned("set-default-source"), name.clone()),
        ),
        AudioCommand::SetDeviceVolume { kind, name, percent } => Some(
            argv3(
                match kind {
                    AudioDeviceKind::Sink => owned("set-sink-volume"),
                    AudioDeviceKind::Source => owned("set-source-volume"),
                },
                name.clone(),
                percent_arg(*percent as u64),
            ),
        ),
        AudioCommand::SetDeviceMute { kind, name, muted } => Some(
            argv3(
                match kind {
                    AudioDeviceKind::Sink => owned("set-sink-mute"),
                    AudioDeviceKind::Source => owned("set-source-mute"),
                },
                name.clone(),
                mute_flag(*muted),
            ),
        ),
        AudioCommand::SetStreamVolume { kind, index, percent } => Some(
            argv3(
                match kind {
                    AudioStreamKind::Playback => owned("set-sink-input-volume"),
                    AudioStreamKind::Record => owned("set-source-output-volume"),
                },
                decimal_string(*index as u64),
                percent_arg(*percent as u64),
            ),
        ),
        AudioCommand::SetStreamMute { kind, index, muted } => Some(
            argv3(
                match kind {
                    AudioStreamKind::Playback => owned("set-sink-input-mute"),
                    AudioStreamKind::Record => owned("set-source-output-mute"),
                },
                decimal_string(*index as u64),
                mute_flag(*muted),
            ),
        ),
        AudioCommand::MoveStream { kind, index, device_name } => Some(
            argv3(
                match kind {
                    AudioStreamKind::Playback => owned("move-sink-input"),
                    AudioStreamKind::Record => owned("move-source-output"),
                },
                decimal_string(*index as u64),
                device_name.clone(),
            ),
        ),
        AudioCommand::SetCardProfile { card_index, profile } => Some(
            argv3(owned("set-card-profile"), decimal_string(*card_index as u64), profile.clone()),
        ),
        _ => None,
    }
}

} // verus!
