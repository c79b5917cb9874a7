//! Backlight and keyboard-backlight brightness: action payloads, the clamping
//! rules that keep a panel from going dark, and sysfs value parsing.
use vstd::prelude::*;

use crate::error::DomainError;
use crate::json::{
    field_i64, field_str, field_u64, spec_field_i64, spec_field_str, spec_field_u64, JsonValue,
};
use crate::text::{
    chars_vec, concat, contains, decimal, extend_chars, extend_str, parse_unsigned, spec_contains,
    spec_decimal, spec_parse_unsigned, spec_trim, str_eq, string_of, trim_bounds,
};

verus! {

/// A parsed brightness command.
#[derive(Debug)]
pub enum BrightnessAction {
    SetValue { subsystem: String, name: String, value: u32 },
    Adjust { subsystem: String, name: String, delta_percent: i32 },
}

pub enum BrightnessActionView {
    SetValue { subsystem: Seq<char>, name: Seq<char>, value: u32 },
    Adjust { subsystem: Seq<char>, name: Seq<char>, delta_percent: i32 },
}

impl View for BrightnessAction {
    type V = BrightnessActionView;

    open spec fn view(&self) -> BrightnessActionView {
        match self {
            BrightnessAction::SetValue { subsystem, name, value } => BrightnessActionView::SetValue {
                subsystem: subsystem@,
                name: name@,
                value: *value,
            },
            BrightnessAction::Adjust { subsystem, name, delta_percent } =>
                BrightnessActionView::Adjust {
                    subsystem: subsystem@,
                    name: name@,
                    delta_percent: *delta_percent,
                },
        }
    }
}

/// The command a brightness payload denotes. `value` is truncated to `u32`
/// and `delta_percent` to `i32`, as the payload's integers are cast.
pub open spec fn spec_parse_brightness_action(p: JsonValue) -> Option<BrightnessActionView> {
    match spec_field_str(p, "command"@) {
        None => None,
        Some(c) => if c == "set"@ {
            match (
                spec_field_str(p, "subsystem"@),
                spec_field_str(p, "name"@),
                spec_field_u64(p, "value"@),
            ) {
                (Some(subsystem), Some(name), Some(v)) => Some(
                    BrightnessActionView::SetValue { subsystem, name, value: v as u32 },
                ),
                _ => None,
            }
        } else if c == "adjust"@ {
            match (
                spec_field_str(p, "subsystem"@),
                spec_field_str(p, "name"@),
                spec_field_i64(p, "delta_percent"@),
            ) {
                (Some(subsystem), Some(name), Some(d)) => Some(
                    BrightnessActionView::Adjust { subsystem, name, delta_percent: d as i32 },
                ),
                _ => None,
            }
        } else {
            None
        },
    }
}

/// The reason a brightness payload is refused (meaningful where
/// `spec_parse_brightness_action` gives `None`): the first missing field of
/// the command, or the unknown command.
pub open spec fn spec_brightness_error(p: JsonValue) -> Seq<char> {
    match spec_field_str(p, "command"@) {
        None => "missing command field"@,
        Some(c) => if c == "set"@ {
            if spec_field_str(p, "subsystem"@) is None {
                "set requires subsystem"@
            } else if spec_field_str(p, "name"@) is None {
                "set requires name"@
            } else {
                "set requires value (u32)"@
            }
        } else if c == "adjust"@ {
            if spec_field_str(p, "subsystem"@) is None {
                "adjust requires subsystem"@
            } else if spec_field_str(p, "name"@) is None {
                "adjust requires name"@
            } else {
                "adjust requires delta_percent (i32)"@
            }
        } else {
            "unknown brightness command: "@ + c
        },
    }
}

fn failed(msg: &str) -> (r: Result<BrightnessAction, DomainError>)
    ensures
        r is Err && r->Err_0 is ActionFailed && r->Err_0->reason@ == msg@,
{
    Err(DomainError::action_failed(msg))
}

/// Parse a brightness payload; every rejection is `ActionFailed`, with the
/// reason `spec_brightness_error` gives.
pub fn parse_brightness_action(payload: &JsonValue) -> (r: Result<BrightnessAction, DomainError>)
    ensures
        match spec_parse_brightness_action(*payload) {
            Some(a) => r is Ok && r->Ok_0@ == a,
            None => r is Err && r->Err_0 is ActionFailed && r->Err_0->reason@ == spec_brightness_error(
                *payload,
            ),
        },
{
    let command = match field_str(payload, "command") {
        Some(c) => c,
        None => {
            return failed("missing command field");
        },
    };
    if str_eq(command.as_str(), "set") {
        let subsystem = match field_str(payload, "subsystem") {
            Some(s) => s,
            None => {
                return failed("set requires subsystem");
            },
        };
        let name = match field_str(payload, "name") {
            Some(s) => s,
            None => {
                return failed("set requires name");
            },
        };
        let value = match field_u64(payload, "value") {
            Some(v) => v as u32,
            None => {
                return failed("set requires value (u32)");
            },
        };
        Ok(BrightnessAction::SetValue { subsystem, name, value })
    } else if str_eq(command.as_str(), "adjust") {
        let subsystem = match field_str(payload, "subsystem") {
            Some(s) => s,
            None => {
                return failed("adjust requires subsystem");
            },
        };
        let name = match field_str(payload, "name") {
            Some(s) => s,
            None => {
                return failed("adjust requires name");
            },
        };
        let delta_percent = match field_i64(payload, "delta_percent") {
            Some(d) => d as i32,
            None => {
                return failed("adjust requires delta_percent (i32)");
            },
        };
        Ok(BrightnessAction::Adjust { subsystem, name, delta_percent })
    } else {
        Err(
            DomainError::ActionFailed {
                reason: concat("unknown brightness command: ", command.as_str()),
            },
        )
    }
}

/// The floor of a device with maximum `max`: 1% of max, never below 1.
pub open spec fn spec_min_brightness(max: u32) -> u32 {
    if max / 100 >= 1 {
        max / 100
    } else {
        1
    }
}

/// Minimum allowed brightness for a device whose maximum is `max`.
pub fn min_brightness(max: u32) -> (r: u32)
    ensures
        r == spec_min_brightness(max),
        r >= 1,
        r <= max || max == 0,
{
    let one_percent = max / 100;
    if one_percent >= 1 {
        one_percent
    } else {
        1
    }
}

/// `delta * max / 100` with Rust's division, which truncates toward zero.
pub open spec fn spec_step(max: u32, delta: i32) -> int {
    let prod = delta as int * max as int;
    if prod >= 0 {
        prod / 100
    } else {
        -((-prod) / 100)
    }
}

/// The brightness after moving `current` by `delta_percent` percent of `max`:
/// clamped to `[0, max]`, then raised to the floor `min_brightness(max)`.
pub open spec fn spec_compute_adjusted(current: u32, max: u32, delta: i32) -> u32 {
    let target = current as int + spec_step(max, delta);
    let clamped = if target < 0 {
        0
    } else if target > max {
        max as int
    } else {
        target
    };
    if clamped < spec_min_brightness(max) {
        spec_min_brightness(max)
    } else {
        clamped as u32
    }
}

pub fn compute_adjusted(current: u32, max: u32, delta_percent: i32) -> (r: u32)
    ensures
        r == spec_compute_adjusted(current, max, delta_percent),
        max > 0 ==> 1 <= r <= max,
{
    let d = delta_percent as i64;
    let m = max as i64;
    assert(-2147483648 * 4294967295 <= d * m <= 2147483647 * 4294967295) by (nonlinear_arith)
        requires
            -2147483648 <= d <= 2147483647,
            0 <= m <= 4294967295,
    ;
    let prod = d * m;
    let step: i64 = if prod >= 0 {
        prod / 100
    } else {
        -((-prod) / 100)
    };
    let target = current as i64 + step;
    let clamped: i64 = if target < 0 {
        0
    } else if target > m {
        m
    } else {
        target
    };
    let floor = min_brightness(max);
    if clamped < floor as i64 {
        floor
    } else {
        clamped as u32
    }
}

/// A requested absolute value for a known device, floored at
/// `min_brightness(max)` and capped at `max`.
pub open spec fn spec_clamp_to_device(value: u32, max: u32) -> u32 {
    let raised = if value < spec_min_brightness(max) {
        spec_min_brightness(max)
    } else {
        value
    };
    if raised > max {
        max
    } else {
        raised
    }
}

pub fn clamp_to_device(value: u32, max: u32) -> (r: u32)
    ensures
        r == spec_clamp_to_device(value, max),
{
    let floor = min_brightness(max);
    let raised = if value < floor {
        floor
    } else {
        value
    };
    if raised > max {
        max
    } else {
        raised
    }
}

/// A brightness device found under sysfs.
#[derive(Debug, Clone)]
pub struct BrightnessSpec {
    pub subsystem: String,
    pub name: String,
    pub max: u32,
    pub brightness_path: String,
}

/// One device sample published in the brightness state.
#[derive(Debug, Clone, PartialEq, Eq)]
pub struct BrightnessDisplay {
    pub subsystem: String,
    pub name: String,
    pub current: u32,
    pub max: u32,
}

/// The value a sysfs `brightness` / `max_brightness` file holds: its trimmed
/// text read as a `u32`.
pub open spec fn spec_parse_sysfs_value(content: Seq<char>) -> Option<u32> {
    match spec_parse_unsigned(spec_trim(content), u32::MAX as nat) {
        Some(n) => Some(n as u32),
        None => None,
    }
}

pub fn parse_sysfs_value(content: &str) -> (r: Option<u32>)
    ensures
        r == spec_parse_sysfs_value(content@),
{
    let v = chars_vec(content);
    let (a, b) = trim_bounds(&v, 0, v.len());
    assert(v@.subrange(0, v.len() as int) == v@);
    match parse_unsigned(&v, a, b, 4294967295u64) {
        Some(n) => Some(n as u32),
        None => None,
    }
}

/// Whether a `/sys/class/leds` entry is a keyboard backlight.
pub fn is_keyboard_backlight(name: &str) -> (r: bool)
    ensures
        r == spec_contains(name@, "kbd_backlight"@),
{
    let v = chars_vec(name);
    contains(&v, "kbd_backlight")
}

/// The position of the device `subsystem/name` among `specs`.
pub fn find_spec(specs: &Vec<BrightnessSpec>, subsystem: &str, name: &str) -> (r: Option<usize>)
    ensures
        match r {
            Some(i) => i < specs.len() && specs@[i as int].subsystem@ == subsystem@
                && specs@[i as int].name@ == name@ && forall|j: int|
                0 <= j < i ==> !(specs@[j].subsystem@ == subsystem@ && specs@[j].name@ == name@),
            None => forall|j: int|
                0 <= j < specs.len() ==> !(specs@[j].subsystem@ == subsystem@ && specs@[j].name@
                    == name@),
        },
{
    let mut i: usize = 0;
    while i < specs.len()
        invariant
            i <= specs.len(),
            forall|j: int|
                0 <= j < i ==> !(specs@[j].subsystem@ == subsystem@ && specs@[j].name@ == name@),
        decreases specs.len() - i,
    {
        if str_eq(specs[i].subsystem.as_str(), subsystem) && str_eq(specs[i].name.as_str(), name) {
            return Some(i);
        }
        i += 1;
    }
    None
}

/// The value written for a `set` command: clamped to the device's range when
/// the device is known, passed through unchanged otherwise.
pub fn value_for_set(specs: &Vec<BrightnessSpec>, subsystem: &str, name: &str, value: u32) -> (r:
    u32)
    ensures
        match find_spec_spec(specs@, subsystem@, name@) {
            Some(i) => r == spec_clamp_to_device(value, specs@[i].max),
            None => r == value,
        },
{
    match find_spec(specs, subsystem, name) {
        Some(i) => {
            proof {
                lemma_find_spec_spec(specs@, subsystem@, name@, i as int);
            }
            clamp_to_device(value, specs[i].max)
        },
        None => {
            proof {
                lemma_find_spec_spec_none(specs@, subsystem@, name@);
            }
            value
        },
    }
}

/// The first device named `subsystem/name`.
pub open spec fn find_spec_spec(specs: Seq<BrightnessSpec>, subsystem: Seq<char>, name: Seq<char>) -> Option<int>
    decreases specs.len(),
{
    if specs.len() == 0 {
        None
    } else if specs.last().subsystem@ == subsystem && specs.last().name@ == name
        && find_spec_spec(specs.drop_last(), subsystem, name) is None {
        Some(specs.len() - 1)
    } else {
        find_spec_spec(specs.drop_last(), subsystem, name)
    }
}

proof fn lemma_find_spec_spec(specs: Seq<BrightnessSpec>, subsystem: Seq<char>, name: Seq<char>, i: int)
    requires
        0 <= i < specs.len(),
        specs[i].subsystem@ == subsystem && specs[i].name@ == name,
        forall|j: int| 0 <= j < i ==> !(specs[j].subsystem@ == subsystem && specs[j].name@ == name),
    ensures
        find_spec_spec(specs, subsystem, name) == Some(i),
    decreases specs.len(),
{
    if i < specs.len() - 1 {
        lemma_find_spec_spec(specs.drop_last(), subsystem, name, i);
    } else {
        lemma_find_spec_spec_none(specs.drop_last(), subsystem, name);
    }
}

proof fn lemma_find_spec_spec_none(specs: Seq<BrightnessSpec>, subsystem: Seq<char>, name: Seq<char>)
    requires
        forall|j: int|
            0 <= j < specs.len() ==> !(specs[j].subsystem@ == subsystem && specs[j].name@ == name),
    ensures
        find_spec_spec(specs, subsystem, name) is None,
    decreases specs.len(),
{
    if specs.len() > 0 {
        lemma_find_spec_spec_none(specs.drop_last(), subsystem, name);
    }
}

/// Clamping to a device is idempotent, and a clamped value lies between the
/// device's floor and its maximum.
pub proof fn law_clamp_to_device_idempotent(value: u32, max: u32)
    requires
        max > 0,
    ensures
        spec_clamp_to_device(spec_clamp_to_device(value, max), max) == spec_clamp_to_device(value, max),
        spec_min_brightness(max) <= spec_clamp_to_device(value, max) <= max,
{
    assert(spec_min_brightness(max) <= max) by {
        if max / 100 >= 1 {
            assert(max / 100 <= max);
        }
    }
}

/// A relative step never leaves the device's range, and stepping by zero
/// from an in-range value changes nothing.
pub proof fn law_adjust_stays_in_range(current: u32, max: u32, delta_percent: i32)
    requires
        max > 0,
    ensures
        1 <= spec_compute_adjusted(current, max, delta_percent) <= max,
        spec_min_brightness(max) <= current <= max ==> spec_compute_adjusted(current, max, 0) == current,
{
    assert(spec_min_brightness(max) <= max) by {
        if max / 100 >= 1 {
            assert(max / 100 <= max);
        }
    }
}

/// What the brightness widget shows: whether brightness control exists, and
/// one sample per readable device.
#[derive(Debug, Clone, PartialEq, Eq)]
pub struct BrightnessState {
    pub available: bool,
    pub displays: Vec<BrightnessDisplay>,
}

pub open spec fn opt_string_views(v: Seq<Option<String>>) -> Seq<Option<Seq<char>>> {
    v.map_values(
        |o: Option<String>|
            match o {
                Some(s) => Some(s@),
                None => None,
            },
    )
}

/// The devices whose brightness file was read and holds a `u32`, as
/// `(position, current value)` pairs in device order.
pub open spec fn spec_sampled(readings: Seq<Option<Seq<char>>>) -> Seq<(int, u32)>
    decreases readings.len(),
{
    if readings.len() == 0 {
        Seq::empty()
    } else {
        let rest = spec_sampled(readings.drop_last());
        match readings.last() {
            Some(c) => match spec_parse_sysfs_value(c) {
                Some(v) => rest.push((readings.len() - 1, v)),
                None => rest,
            },
            None => rest,
        }
    }
}

/// Sample the devices: `readings[i]` is the content of `specs[i]`'s
/// brightness file, or `None` when it could not be read. A device whose file
/// was not read or does not hold a `u32` is left out.
pub fn brightness_displays(specs: &Vec<BrightnessSpec>, readings: &Vec<Option<String>>) -> (r:
    BrightnessState)
    requires
        readings.len() == specs.len(),
    ensures
        r.available,
        r.displays.len() == spec_sampled(opt_string_views(readings@)).len(),
        forall|k: int|
            0 <= k < r.displays.len() ==> {
                let (i, v) = #[trigger] spec_sampled(opt_string_views(readings@))[k];
                &&& 0 <= i < specs.len()
                &&& r.displays[k].subsystem@ == specs[i].subsystem@
                &&& r.displays[k].name@ == specs[i].name@
                &&& r.displays[k].current == v
                &&& r.displays[k].max == specs[i].max
            },
{
    let ghost rv = opt_string_views(readings@);
    let mut displays: Vec<BrightnessDisplay> = Vec::new();
    let mut i: usize = 0;
    while i < readings.len()
        invariant
            i <= readings.len(),
            readings.len() == specs.len(),
            rv == opt_string_views(readings@),
            displays.len() == spec_sampled(rv.take(i as int)).len(),
            forall|k: int|
                0 <= k < displays.len() ==> {
                    let (j, v) = #[trigger] spec_sampled(rv.take(i as int))[k];
                    &&& 0 <= j < i
                    &&& displays[k].subsystem@ == specs[j].subsystem@
                    &&& displays[k].name@ == specs[j].name@
                    &&& displays[k].current == v
                    &&& displays[k].max == specs[j].max
                },
        decreases readings.len() - i,
    {
        proof {
            assert(rv.take(i + 1).drop_last() == rv.take(i as int));
            assert(rv.take(i + 1).last() == rv[i as int]);
        }
        match &readings[i] {
            Some(content) => {
                match parse_sysfs_value(content.as_str()) {
                    Some(current) => {
                        displays.push(
                            BrightnessDisplay {
                                subsystem: specs[i].subsystem.clone(),
                                name: specs[i].name.clone(),
                                current,
                                max: specs[i].max,
                            },
                        );
                    },
                    None => {},
                }
            },
            None => {},
        }
        i += 1;
    }
    assert(rv.take(readings.len() as int) == rv);
    BrightnessState { available: true, displays }
}

/// The error for a device that is not among the known devices.
pub fn device_not_found(subsystem: &str, name: &str) -> (r: DomainError)
    ensures
        r is ActionFailed,
        r->reason@ == "brightness device not found: "@ + subsystem@ + "/"@ + name@,
{
    let mut v = chars_vec("brightness device not found: ");
    extend_str(&mut v, subsystem);
    extend_str(&mut v, "/");
    extend_str(&mut v, name);
    DomainError::ActionFailed { reason: string_of(&v) }
}

/// The value a relative step moves a device to, from the content of its
/// brightness file: `compute_adjusted` of the value read, or an
/// `ActionFailed` error when the file does not hold a `u32`.
pub fn adjusted_target(content: &str, max: u32, delta_percent: i32) -> (r: Result<u32, DomainError>)
    ensures
        match spec_parse_sysfs_value(content@) {
            Some(current) => r == Ok::<u32, DomainError>(
                spec_compute_adjusted(current, max, delta_percent),
            ),
            None => r is Err && r->Err_0 is ActionFailed && r->Err_0->reason@
                == "parse brightness value"@,
        },
{
    match parse_sysfs_value(content) {
        Some(current) => Ok(compute_adjusted(current, max, delta_percent)),
        None => Err(DomainError::action_failed("parse brightness value")),
    }
}

/// The message of a completed write: `set <subsystem>/<name> to <value>`.
pub fn set_message(subsystem: &str, name: &str, value: u32) -> (r: String)
    ensures
        r@ == "set "@ + subsystem@ + "/"@ + name@ + " to "@ + spec_decimal(value as nat),
{
    let mut v = chars_vec("set ");
    extend_str(&mut v, subsystem);
    extend_str(&mut v, "/");
    extend_str(&mut v, name);
    extend_str(&mut v, " to ");
    let d = decimal(value as u64);
    extend_chars(&mut v, &d);
    string_of(&v)
}

} // verus!
