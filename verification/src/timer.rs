//! The timer subsystem's clock, completion-sound player choice and the
//! location of its persisted state.
use vstd::prelude::*;

use chrono::{Datelike, Timelike};

use crate::app_usage::now_secs;
use crate::clipboard_store::{join_path, opt_view, spec_join_path, spec_state_home};
use crate::notifications::{
    spec_internal_fits, spec_internal_post, NotificationEvent, NotificationStore,
};
use crate::text::{concat, owned, string_views};

verus! {

// ---------------------------------------------------------------------------
// Clock.
// ---------------------------------------------------------------------------

/// A day of the week.
#[derive(Debug, Clone, Copy, PartialEq, Eq)]
pub enum Weekday {
    Monday,
    Tuesday,
    Wednesday,
    Thursday,
    Friday,
    Saturday,
    Sunday,
}

pub open spec fn spec_weekday_from_index(i: u8) -> Option<Weekday> {
    if i == 0 {
        Some(Weekday::Monday)
    } else if i == 1 {
        Some(Weekday::Tuesday)
    } else if i == 2 {
        Some(Weekday::Wednesday)
    } else if i == 3 {
        Some(Weekday::Thursday)
    } else if i == 4 {
        Some(Weekday::Friday)
    } else if i == 5 {
        Some(Weekday::Saturday)
    } else if i == 6 {
        Some(Weekday::Sunday)
    } else {
        None
    }
}

impl Weekday {
    /// The weekday `i` days after Monday, for `i` in `0..7`.
    pub fn from_index(i: u8) -> (r: Option<Weekday>)
        ensures
            r == spec_weekday_from_index(i),
    {
        if i == 0 {
            Some(Weekday::Monday)
        } else if i == 1 {
            Some(Weekday::Tuesday)
        } else if i == 2 {
            Some(Weekday::Wednesday)
        } else if i == 3 {
            Some(Weekday::Thursday)
        } else if i == 4 {
            Some(Weekday::Friday)
        } else if i == 5 {
            Some(Weekday::Saturday)
        } else if i == 6 {
            Some(Weekday::Sunday)
        } else {
            None
        }
    }
}

/// The local weekday and the seconds elapsed since local midnight.
#[derive(Debug, Clone, Copy, PartialEq, Eq)]
pub struct CivilNow {
    pub weekday: Weekday,
    pub secs_into_day: u32,
}

/// The local weekday (`Datelike::weekday` with
/// `Weekday::num_days_from_monday`) and `Timelike::hour`, `minute` and
/// `second` of the instant `unix_secs` seconds after the epoch, through
/// `chrono::DateTime::from_timestamp` and `with_timezone(&Local)`. chrono
/// documents the fields as `0..=6`, `0..=23`, `0..=59` and `0..=59`;
/// `from_timestamp` gives `None` for an instant outside its range. The local
/// offset depends on the machine's time zone, so no more is stated. (chrono's
/// own time zone lookup can still fail on time zone data it cannot use, which
/// no argument here can rule out.)
#[verifier::external_body]
fn local_fields_at(unix_secs: u64) -> (r: Option<(u32, u32, u32, u32)>)
    ensures
        match r {
            Some(f) => f.0 < 7 && f.1 < 24 && f.2 < 60 && f.3 < 60,
            None => true,
        },
{
    let utc = chrono::DateTime::from_timestamp(unix_secs as i64, 0)?;
    let now = utc.with_timezone(&chrono::Local);
    Some((now.weekday().num_days_from_monday(), now.hour(), now.minute(), now.second()))
}

/// The civil time of a weekday index and a time of day.
pub fn civil_from_fields(weekday_index: u32, hour: u32, minute: u32, second: u32) -> (r: CivilNow)
    requires
        weekday_index < 7,
        hour < 24,
        minute < 60,
        second < 60,
    ensures
        Some(r.weekday) == spec_weekday_from_index(weekday_index as u8),
        r.secs_into_day == hour * 3600 + minute * 60 + second,
        r.secs_into_day < 86400,
{
    let weekday = match Weekday::from_index(weekday_index as u8) {
        Some(w) => w,
        None => Weekday::Monday,
    };
    CivilNow { weekday, secs_into_day: hour * 3600 + minute * 60 + second }
}

/// The system wall clock.
#[derive(Debug, Clone, Copy)]
pub struct SystemClock;

impl SystemClock {
    pub fn new() -> (r: SystemClock) {
        SystemClock
    }

    /// Seconds since the Unix epoch (`0` for a clock set before it).
    pub fn now_unix(&self) -> u64 {
        now_secs()
    }

    /// The local weekday and time of day, read once.
    pub fn local_civil(&self) -> (r: CivilNow)
        ensures
            r.secs_into_day < 86400,
    {
        match local_fields_at(now_secs()) {
            Some((w, h, m, s)) => civil_from_fields(w, h, m, s),
            None => CivilNow { weekday: Weekday::Monday, secs_into_day: 0 },
        }
    }
}

// ---------------------------------------------------------------------------
// Completion sounds.
// ---------------------------------------------------------------------------

/// A completion sound.
#[derive(Debug, Clone, Copy, PartialEq, Eq)]
pub enum SoundName {
    Complete,
    Bell,
    Chime,
    Alarm,
}

/// The sound-theme name of a sound (both the `canberra-gtk-play -i` event and
/// the stereo theme's file stem).
pub open spec fn spec_sound_stem(sound: SoundName) -> Seq<char> {
    match sound {
        SoundName::Complete => "complete"@,
        SoundName::Bell => "bell"@,
        SoundName::Chime => "message"@,
        SoundName::Alarm => "alarm-clock-elapsed"@,
    }
}

/// Plays completion sounds through an external player, when one was found.
#[derive(Debug)]
pub struct SoundPlayer {
    command: Option<String>,
}

impl SoundPlayer {
    pub closed spec fn spec_command(&self) -> Option<Seq<char>> {
        match self.command {
            Some(c) => Some(c@),
            None => None,
        }
    }

    /// The player to use given which binaries are on `PATH`:
    /// `canberra-gtk-play`, else `paplay`, else none.
    pub fn detect(has_canberra: bool, has_paplay: bool) -> (r: SoundPlayer)
        ensures
            r.spec_command() == if has_canberra {
                Some("canberra-gtk-play"@)
            } else if has_paplay {
                Some("paplay"@)
            } else {
                None
            },
    {
        let command = if has_canberra {
            Some(owned("canberra-gtk-play"))
        } else if has_paplay {
            Some(owned("paplay"))
        } else {
            None
        };
        SoundPlayer { command }
    }

    /// A player that plays nothing.
    pub fn none() -> (r: SoundPlayer)
        ensures
            r.spec_command() is None,
    {
        SoundPlayer { command: None }
    }

    /// The player binary, if any.
    pub fn command(&self) -> (r: Option<&str>)
        ensures
            match r {
                Some(c) => self.spec_command() == Some(c@),
                None => self.spec_command() is None,
            },
    {
        match &self.command {
            Some(c) => Some(c.as_str()),
            None => None,
        }
    }

    /// The `canberra-gtk-play -i` event of a sound.
    pub fn canberra_event(sound: SoundName) -> (r: &'static str)
        ensures
            r@ == spec_sound_stem(sound),
    {
        match sound {
            SoundName::Complete => "complete",
            SoundName::Bell => "bell",
            SoundName::Chime => "message",
            SoundName::Alarm => "alarm-clock-elapsed",
        }
    }

    /// The stereo theme file stem of a sound.
    pub fn file_stem(sound: SoundName) -> (r: &'static str)
        ensures
            r@ == spec_sound_stem(sound),
    {
        match sound {
            SoundName::Complete => "complete",
            SoundName::Bell => "bell",
            SoundName::Chime => "message",
            SoundName::Alarm => "alarm-clock-elapsed",
        }
    }

    /// The argument vector that plays `sound`: `canberra-gtk-play -i <event>`,
    /// or `paplay /usr/share/sounds/freedesktop/stereo/<stem>.oga`; `None`
    /// without a player.
    pub fn play_argv(&self, sound: SoundName) -> (r: Option<Vec<String>>)
        ensures
            match r {
                Some(v) => match self.spec_command() {
                    Some(c) => (c == "canberra-gtk-play"@ && string_views(v@) == seq![
                        "canberra-gtk-play"@,
                        "-i"@,
                        spec_sound_stem(sound),
                    ]) || (c == "paplay"@ && string_views(v@) == seq![
                        "paplay"@,
                        "/usr/share/sounds/freedesktop/stereo/"@ + spec_sound_stem(sound) + ".oga"@,
                    ]),
                    None => false,
                },
                None => match self.spec_command() {
                    Some(c) => c != "canberra-gtk-play"@ && c != "paplay"@,
                    None => true,
                },
            },
    {
        let c = match &self.command {
            Some(c) => c,
            None => {
                return None;
            },
        };
        if crate::text::str_eq(c.as_str(), "canberra-gtk-play") {
            let mut v: Vec<String> = Vec::new();
            v.push(owned("canberra-gtk-play"));
            v.push(owned("-i"));
            v.push(owned(SoundPlayer::canberra_event(sound)));
            assert(string_views(v@) =~= seq![
                "canberra-gtk-play"@,
                "-i"@,
                spec_sound_stem(sound),
            ]);
            Some(v)
        } else if crate::text::str_eq(c.as_str(), "paplay") {
            let p = concat("/usr/share/sounds/freedesktop/stereo/", SoundPlayer::file_stem(sound));
            let path = concat(p.as_str(), ".oga");
            let mut v: Vec<String> = Vec::new();
            v.push(owned("paplay"));
            v.push(path);
            assert(string_views(v@) =~= seq![
                "paplay"@,
                "/usr/share/sounds/freedesktop/stereo/"@ + spec_sound_stem(sound) + ".oga"@,
            ]);
            Some(v)
        } else {
            None
        }
    }
}

// ---------------------------------------------------------------------------
// Persisted state.
// ---------------------------------------------------------------------------

/// The timer store's file: `quantum/timers.json` under the state directory.
pub open spec fn spec_timer_store_path(xdg_state_home: Option<Seq<char>>, home: Option<Seq<char>>) -> Seq<
    char,
> {
    spec_join_path(spec_state_home(xdg_state_home, home), "quantum/timers.json"@)
}

/// The timer store: one JSON file.
#[derive(Debug)]
pub struct JsonTimerStore {
    path: String,
}

impl JsonTimerStore {
    pub closed spec fn spec_path(&self) -> Seq<char> {
        self.path@
    }

    /// The store at the default location, given `XDG_STATE_HOME` and `HOME`.
    pub fn new(xdg_state_home: Option<&str>, home: Option<&str>) -> (r: JsonTimerStore)
        ensures
            r.spec_path() == spec_timer_store_path(opt_view(xdg_state_home), opt_view(home)),
    {
        let state_home = match xdg_state_home {
            Some(s) => owned(s),
            None => match home {
                Some(h) => concat(h, "/.local/state"),
                None => owned("/.local/state"),
            },
        };
        proof {
            reveal_strlit("/.local/state");
        }
        JsonTimerStore { path: join_path(state_home.as_str(), "quantum/timers.json") }
    }

    /// The store at an explicit path.
    pub fn with_path(path: String) -> (r: JsonTimerStore)
        ensures
            r.spec_path() == path@,
    {
        JsonTimerStore { path }
    }

    /// The store's file.
    pub fn path(&self) -> (r: &str)
        ensures
            r@ == self.spec_path(),
    {
        self.path.as_str()
    }
}

// ---------------------------------------------------------------------------
// Completion announcements.
// ---------------------------------------------------------------------------

/// How a timer asks to be announced when it completes.
#[derive(Debug, Clone, Copy)]
pub struct TimerNotify {
    pub notification: bool,
    pub sound: Option<SoundName>,
}

/// Announce a completed timer. When a notification is asked for, a
/// "Quantum Timer" notification with the timer's label as summary and
/// "Timer complete" as body is raised in `store` (re-firing updates the
/// existing one); its id and event are returned. The sound asked for is
/// handed back for the caller to play.
pub fn notify_timer_complete(store: &mut NotificationStore, label: &str, notify: &TimerNotify) -> (r: (
    Option<(u32, NotificationEvent)>,
    Option<SoundName>,
))
    requires
        notify.notification ==> spec_internal_fits(
            old(store)@,
            old(store).spec_last_id(),
            "Quantum Timer"@,
            label@,
        ),
    ensures
        r.1 == notify.sound,
        notify.notification ==> r.0 is Some && spec_internal_post(
            old(store)@,
            old(store).spec_last_id(),
            final(store)@,
            final(store).spec_last_id(),
            "Quantum Timer"@,
            label@,
            "Timer complete"@,
            Seq::empty(),
            0,
            r.0->0,
        ),
        !notify.notification ==> r.0 is None && final(store)@ == old(store)@
            && final(store).spec_last_id() == old(store).spec_last_id(),
{
    let posted = if notify.notification {
        Some(
            store.add_internal_notification(
                owned("Quantum Timer"),
                owned(label),
                owned("Timer complete"),
                None,
                0,
            ),
        )
    } else {
        None
    };
    (posted, notify.sound)
}

} // verus!
