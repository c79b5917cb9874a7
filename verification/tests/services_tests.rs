use quantum_providers::app_usage::{UsageRecord, UsageStore};
use quantum_providers::error::DomainError;
use quantum_providers::hyprland::{
    focus_command, format_subtitle, match_tier, window_from_client, ActiveWindowState,
    HyprlandEvent, MonitorActiveWindowState,
};
use quantum_providers::json::JsonValue;
use quantum_providers::keyed::KeyedVec;
use quantum_providers::notifications::{
    pair_actions, resolve_timeout_ms, urgency_from_level, NotificationEvent, NotificationStore,
    DEFAULT_EXPIRE_MS,
};
use quantum_providers::shell::{
    check_command, scope_wrapped_argv, shell_argv, shell_query, shell_title, terminal_command,
    TokioShellExecutor,
};
use quantum_providers::timer::{
    civil_from_fields, notify_timer_complete, JsonTimerStore, SoundName, SoundPlayer, SystemClock,
    TimerNotify, Weekday,
};

#[test]
fn scope_wrapped_argv_prefixes_systemd_run_when_enabled() {
    let cmd = vec!["firefox".to_string(), "--new-window".to_string()];
    assert_eq!(
        scope_wrapped_argv(&cmd, true),
        vec!["systemd-run", "--user", "--scope", "--quiet", "--collect", "--", "firefox", "--new-window"]
    );
}

#[test]
fn scope_wrapped_argv_passes_through_when_disabled() {
    let cmd = vec!["firefox".to_string()];
    assert_eq!(scope_wrapped_argv(&cmd, false), cmd);
}

#[test]
fn terminal_command_uses_provided_program() {
    let shell_command = vec!["sh".to_string(), "-c".to_string(), "kill x".to_string()];
    assert_eq!(
        terminal_command(Some("alacritty"), &shell_command),
        vec!["alacritty".to_string(), "-e".to_string(), "sh".to_string(), "-c".to_string(), "kill x".to_string()]
    );
}

#[test]
fn terminal_command_defaults_to_xterm_when_none() {
    let shell_command = vec!["sh".to_string(), "-c".to_string(), "kill x".to_string()];
    assert_eq!(
        terminal_command(None, &shell_command),
        vec!["xterm".to_string(), "-e".to_string(), "sh".to_string(), "-c".to_string(), "kill x".to_string()]
    );
}

#[test]
fn terminal_command_falls_back_to_xterm_when_empty() {
    let shell_command = vec!["sh".to_string(), "-c".to_string(), "kill x".to_string()];
    assert_eq!(
        terminal_command(Some(""), &shell_command),
        vec!["xterm".to_string(), "-e".to_string(), "sh".to_string(), "-c".to_string(), "kill x".to_string()]
    );
}

#[test]
fn shell_queries_need_a_prefix_and_a_command() {
    assert_eq!(shell_query(">  ls -la "), Some(("ls -la".to_string(), false)));
    assert_eq!(shell_query("!htop"), Some(("htop".to_string(), true)));
    assert_eq!(shell_query(">   "), None);
    assert_eq!(shell_query("!   "), None);
    assert_eq!(shell_query("ls"), None);
    assert_eq!(shell_argv("ls"), vec!["sh", "-c", "ls"]);
    assert_eq!(shell_title("ls"), "Run: ls");
    let _executor = TokioShellExecutor::new();
    assert!(matches!(check_command(&[]), Err(DomainError::InvalidQuery(m)) if m == "empty command"));
    assert!(check_command(&["true".to_string()]).is_ok());
}

#[test]
fn now_unix_returns_plausible_epoch() {
    let clock = SystemClock::new();
    assert!(clock.now_unix() > 1_700_000_000);
}

#[test]
fn local_civil_is_within_a_day() {
    let clock = SystemClock::new();
    let civil = clock.local_civil();
    assert!(civil.secs_into_day < 86_400);
}

#[test]
fn civil_time_counts_seconds_since_midnight() {
    let civil = civil_from_fields(2, 13, 5, 9);
    assert_eq!(civil.weekday, Weekday::Wednesday);
    assert_eq!(civil.secs_into_day, 13 * 3600 + 5 * 60 + 9);
    assert_eq!(Weekday::from_index(6), Some(Weekday::Sunday));
    assert_eq!(Weekday::from_index(7), None);
}

#[test]
fn sound_player_prefers_canberra_then_paplay() {
    assert_eq!(SoundPlayer::detect(true, true).command(), Some("canberra-gtk-play"));
    assert_eq!(SoundPlayer::detect(false, true).command(), Some("paplay"));
    assert_eq!(SoundPlayer::detect(false, false).command(), None);
    assert_eq!(SoundPlayer::none().command(), None);
    assert_eq!(
        SoundPlayer::detect(true, false).play_argv(SoundName::Chime),
        Some(vec!["canberra-gtk-play".to_string(), "-i".to_string(), "message".to_string()])
    );
    assert_eq!(
        SoundPlayer::detect(false, true).play_argv(SoundName::Alarm),
        Some(vec![
            "paplay".to_string(),
            "/usr/share/sounds/freedesktop/stereo/alarm-clock-elapsed.oga".to_string()
        ])
    );
    assert_eq!(SoundPlayer::none().play_argv(SoundName::Bell), None);
    assert_eq!(SoundPlayer::canberra_event(SoundName::Complete), "complete");
    assert_eq!(SoundPlayer::file_stem(SoundName::Bell), "bell");
}

#[test]
fn timer_store_lives_under_the_state_directory() {
    assert_eq!(JsonTimerStore::new(Some("/s"), None).path(), "/s/quantum/timers.json");
    assert_eq!(JsonTimerStore::new(None, Some("/home/u")).path(), "/home/u/.local/state/quantum/timers.json");
    assert_eq!(JsonTimerStore::with_path("/tmp/t.json".into()).path(), "/tmp/t.json");
}

#[test]
fn subtitle_uses_name_for_normal_workspace() {
    assert_eq!(format_subtitle(1, "1", "firefox"), "1 \u{00B7} firefox");
}

#[test]
fn subtitle_friendly_for_special_workspace() {
    assert_eq!(format_subtitle(-98, "special:scratchpad", "alacritty"), "Special: scratchpad \u{00B7} alacritty");
}

#[test]
fn subtitle_fallback_when_name_missing() {
    assert_eq!(format_subtitle(7, "", "code"), "Workspace 7 \u{00B7} code");
}

#[test]
fn subtitle_of_an_unnamed_special_workspace_is_scratchpad() {
    assert_eq!(format_subtitle(-99, "special:", "kitty"), "Special: scratchpad \u{00B7} kitty");
    assert_eq!(format_subtitle(-3, "", "x"), "Workspace -3 \u{00B7} x");
}

fn obj(pairs: Vec<(&str, JsonValue)>) -> JsonValue {
    JsonValue::Object(pairs.into_iter().map(|(k, v)| (k.to_string(), v)).collect())
}

fn s(v: &str) -> JsonValue {
    JsonValue::Str(v.to_string())
}

#[test]
fn windows_are_read_and_ranked_against_a_query() {
    let client = obj(vec![
        ("address", s("0x1")),
        ("title", s("Mozilla Firefox")),
        ("class", s("firefox")),
        ("workspace", obj(vec![("id", JsonValue::UInt(3)), ("name", s("web"))])),
    ]);
    let w = window_from_client(&client).expect("window");
    assert_eq!(w.title_lower, "mozilla firefox");
    assert_eq!(w.workspace_id, 3);
    assert_eq!(match_tier(&w, "mozilla"), 3);
    assert_eq!(match_tier(&w, "fox"), 3);
    assert_eq!(match_tier(&w, "web"), 1);
    assert_eq!(match_tier(&w, "3"), 1);
    assert_eq!(match_tier(&w, "zzz"), 0);
    let unnamed = obj(vec![
        ("address", s("0x2")),
        ("title", s("t")),
        ("class", s("Code")),
        ("workspace", obj(vec![("id", JsonValue::UInt(1))])),
    ]);
    let w2 = window_from_client(&unnamed).expect("window");
    assert_eq!(w2.workspace_name, "");
    assert_eq!(match_tier(&w2, "code"), 2);
    let missing = obj(vec![("address", s("0x3")), ("title", s("t"))]);
    assert!(window_from_client(&missing).is_none());
    assert_eq!(focus_command("0x1"), "dispatch focuswindow address:0x1");
}

fn state_with(monitor: &str, class: &str) -> MonitorActiveWindowState {
    let mut s = MonitorActiveWindowState::new();
    let mut w = ActiveWindowState::default_state();
    w.class = class.into();
    s.monitors.insert(monitor.into(), w);
    s.focused_monitor = Some(monitor.into());
    s
}

#[test]
fn focusedmon_swaps_focus_without_clearing_other_monitors() {
    let mut state = state_with("DP-1", "firefox");
    state.monitors.insert("DP-2".into(), ActiveWindowState::default_state());
    state.apply_event(HyprlandEvent::FocusedMon { monitor: "DP-2".into(), workspace: "1".into() });
    assert_eq!(state.focused_monitor.as_deref(), Some("DP-2"));
    assert_eq!(state.monitors.get("DP-1").unwrap().class, "firefox");
}

#[test]
fn monitoradded_creates_default_entry() {
    let mut state = MonitorActiveWindowState::new();
    state.apply_event(HyprlandEvent::MonitorAdded { monitor: "HDMI-A-1".into() });
    assert!(state.monitors.contains_key("HDMI-A-1"));
}

#[test]
fn monitoradded_is_idempotent() {
    let mut state = state_with("DP-1", "firefox");
    state.apply_event(HyprlandEvent::MonitorAdded { monitor: "DP-1".into() });
    assert_eq!(state.monitors.get("DP-1").unwrap().class, "firefox");
}

#[test]
fn monitorremoved_clears_focus_if_it_was_focused() {
    let mut state = state_with("DP-1", "firefox");
    state.apply_event(HyprlandEvent::MonitorRemoved { monitor: "DP-1".into() });
    assert!(!state.monitors.contains_key("DP-1"));
    assert_eq!(state.focused_monitor, None);
}

#[test]
fn monitorremoved_leaves_focus_when_different_monitor_removed() {
    let mut state = state_with("DP-1", "firefox");
    state.monitors.insert("DP-2".into(), ActiveWindowState::default_state());
    state.apply_event(HyprlandEvent::MonitorRemoved { monitor: "DP-2".into() });
    assert!(state.monitors.contains_key("DP-1"));
    assert_eq!(state.focused_monitor.as_deref(), Some("DP-1"));
}

#[test]
fn activewindow_updates_focused_entry() {
    let mut state = state_with("DP-1", "firefox");
    state.apply_event(HyprlandEvent::ActiveWindow { class: "ghostty".into(), title: "zsh".into() });
    assert_eq!(state.monitors.get("DP-1").unwrap().class, "ghostty");
    assert_eq!(state.monitors.get("DP-1").unwrap().title, "zsh");
}

#[test]
fn activewindow_noop_when_no_focused_monitor() {
    let mut state = MonitorActiveWindowState::new();
    state.apply_event(HyprlandEvent::ActiveWindow { class: "ghostty".into(), title: "zsh".into() });
    assert_eq!(state.monitors.len(), 0);
}

#[test]
fn workspace_updates_focused_entry() {
    let mut state = state_with("DP-1", "firefox");
    state.apply_event(HyprlandEvent::Workspace { name: "5".into() });
    assert_eq!(state.monitors.get("DP-1").unwrap().workspace_id, 5);
    assert_eq!(state.monitors.get("DP-1").unwrap().workspace_name, "5");
    state.apply_event(HyprlandEvent::Workspace { name: "special:magic".into() });
    assert_eq!(state.monitors.get("DP-1").unwrap().workspace_id, 0);
    state.apply_event(HyprlandEvent::Workspace { name: "-2".into() });
    assert_eq!(state.monitors.get("DP-1").unwrap().workspace_id, -2);
}

#[test]
fn keyed_vec_keeps_first_insertion_order() {
    let mut m: KeyedVec<u32> = KeyedVec::new();
    m.insert("b".into(), 1);
    m.insert("a".into(), 2);
    m.insert("b".into(), 3);
    assert_eq!(m.len(), 2);
    assert_eq!(m.get("b"), Some(&3));
    let keys: Vec<&str> = m.entries().iter().map(|e| e.0.as_str()).collect();
    assert_eq!(keys, vec!["b", "a"]);
    assert_eq!(m.remove("b"), Some(3));
    assert_eq!(m.remove("b"), None);
    assert!(!m.contains_key("b"));
}

#[test]
fn resolve_timeout_distinguishes_never_default_and_explicit() {
    assert_eq!(resolve_timeout_ms(5000, "normal"), 5000);
    assert_eq!(resolve_timeout_ms(0, "normal"), 0);
    assert_eq!(resolve_timeout_ms(-1, "normal"), DEFAULT_EXPIRE_MS);
    assert_eq!(resolve_timeout_ms(-1, "critical"), 0);
    assert_eq!(resolve_timeout_ms(3000, "critical"), 3000);
}

#[test]
fn urgency_from_hints_maps_known_bytes() {
    assert_eq!(urgency_from_level(Some(0)), "low");
    assert_eq!(urgency_from_level(Some(1)), "normal");
    assert_eq!(urgency_from_level(Some(2)), "critical");
    assert_eq!(urgency_from_level(Some(7)), "normal");
    assert_eq!(urgency_from_level(None), "normal");
}

#[test]
fn actions_pair_up_and_drop_a_trailing_key() {
    let pairs = pair_actions(vec!["k1".into(), "L1".into(), "k2".into(), "L2".into(), "k3".into()]);
    assert_eq!(pairs, vec![("k1".to_string(), "L1".to_string()), ("k2".to_string(), "L2".to_string())]);
}

fn notify(store: &mut NotificationStore, replaces: u32, summary: &str, timeout: i32) -> (u32, NotificationEvent) {
    store.apply_notify(
        "app".into(),
        "".into(),
        replaces,
        summary.into(),
        "body".into(),
        vec![],
        timeout,
        "normal".into(),
    )
}

#[test]
fn apply_notify_persists_zero_timeout_as_never() {
    let mut store = NotificationStore::new();
    let (id, event) = notify(&mut store, 0, "s", 0);
    assert_eq!(store.items()[0].timeout_ms, 0);
    assert_eq!(event, NotificationEvent::Created { id, timeout_ms: None });
}

#[test]
fn apply_notify_resolves_server_default_to_concrete_value() {
    let mut store = NotificationStore::new();
    let (id, event) = notify(&mut store, 0, "s", -1);
    assert_eq!(store.items()[0].timeout_ms, DEFAULT_EXPIRE_MS);
    assert_eq!(event, NotificationEvent::Created { id, timeout_ms: Some(DEFAULT_EXPIRE_MS) });
}

#[test]
fn apply_notify_creates_with_new_id() {
    let mut store = NotificationStore::new();
    let (a, _) = notify(&mut store, 0, "a", 100);
    let (b, _) = notify(&mut store, 0, "b", 100);
    assert_eq!((a, b), (1, 2));
    assert_eq!(store.count(), 2);
}

#[test]
fn apply_notify_replaces_existing_id() {
    let mut store = NotificationStore::new();
    let (id, _) = notify(&mut store, 0, "first", 100);
    let (same, event) = notify(&mut store, id, "second", 100);
    assert_eq!(same, id);
    assert_eq!(event, NotificationEvent::Updated { id });
    assert_eq!(store.count(), 1);
    assert_eq!(store.items()[0].summary, "second");
    let (other, event) = notify(&mut store, 77, "third", 100);
    assert_eq!(other, 77);
    assert_eq!(event, NotificationEvent::Created { id: 77, timeout_ms: Some(100) });
    assert_eq!(store.count(), 2);
}

#[test]
fn internal_notifications_get_distinct_nonzero_ids() {
    let mut store = NotificationStore::new();
    let (a, _) = store.add_internal_notification("Quantum Timer".into(), "Tea".into(), "done".into(), None, 0);
    let (b, _) = store.add_internal_notification("Quantum Timer".into(), "Eggs".into(), "done".into(), None, 0);
    assert!(a != 0 && b != 0 && a != b);
}

#[test]
fn internal_notification_dedupes_same_content_in_place() {
    let mut store = NotificationStore::new();
    let (a, _) = store.add_internal_notification("Quantum Timer".into(), "Tea".into(), "one".into(), None, 0);
    let (b, event) = store.add_internal_notification("Quantum Timer".into(), "Tea".into(), "two".into(), None, 0);
    assert_eq!(a, b);
    assert_eq!(event, NotificationEvent::Updated { id: a });
    assert_eq!(store.count(), 1);
    assert_eq!(store.items()[0].body, "two");
}

#[test]
fn internal_dedup_does_not_match_dbus_notification() {
    let mut store = NotificationStore::new();
    store.apply_notify("Quantum Timer".into(), "".into(), 0, "Tea".into(), "b".into(), vec![], 0, "normal".into());
    let (id, event) = store.add_internal_notification("Quantum Timer".into(), "Tea".into(), "x".into(), None, 0);
    assert_eq!(event, NotificationEvent::Created { id, timeout_ms: Some(0) });
    assert_eq!(store.count(), 2);
}

#[test]
fn dismiss_removes_only_targeted_internal_notification() {
    let mut store = NotificationStore::new();
    let (a, _) = store.add_internal_notification("app".into(), "A".into(), "x".into(), None, 0);
    let (b, _) = store.add_internal_notification("app".into(), "B".into(), "x".into(), None, 0);
    assert_eq!(store.dismiss(a), NotificationEvent::Dismissed { id: a });
    assert_eq!(store.count(), 1);
    assert_eq!(store.items()[0].id, b);
    store.dismiss(12345);
    assert_eq!(store.count(), 1);
}

#[test]
fn usage_store_counts_launches() {
    let mut store = UsageStore::with_path("/tmp/usage.json".into(), vec![]);
    assert!(!store.contains("firefox"));
    store.record_at("firefox", 100);
    store.record_at("firefox", 200);
    assert_eq!(store.get("firefox"), Some(UsageRecord { launch_count: 2, last_used: 200 }));
    let stamped = store.record("code");
    assert_eq!(store.get("code").unwrap().last_used, stamped);
    assert_eq!(store.records().len(), 2);
}

#[test]
fn usage_launch_count_saturates() {
    let mut store = UsageStore::with_path(
        "/tmp/u.json".into(),
        vec![("x".to_string(), UsageRecord { launch_count: u64::MAX, last_used: 1 })],
    );
    store.record_at("x", 5);
    assert_eq!(store.get("x"), Some(UsageRecord { launch_count: u64::MAX, last_used: 5 }));
}

#[test]
fn usage_store_lives_under_the_data_directory() {
    let store = UsageStore::load(Some("/d"), Some("/home/u"), vec![]);
    assert_eq!(store.path(), "/d/quantum/app_usage.json");
    let store = UsageStore::load(None, Some("/home/u"), vec![
        ("a".to_string(), UsageRecord { launch_count: 1, last_used: 1 }),
        ("a".to_string(), UsageRecord { launch_count: 4, last_used: 9 }),
    ]);
    assert_eq!(store.path(), "/home/u/.local/share/quantum/app_usage.json");
    assert_eq!(store.get("a"), Some(UsageRecord { launch_count: 4, last_used: 9 }));
}

#[test]
fn notify_complete_pushes_notification() {
    let mut store = NotificationStore::new();
    let notify = TimerNotify { notification: true, sound: None };
    let (posted, sound) = notify_timer_complete(&mut store, "Tea", &notify);
    assert!(sound.is_none());
    let (id, event) = posted.expect("a notification is raised");
    assert_eq!(event, NotificationEvent::Created { id, timeout_ms: Some(0) });
    assert_eq!(store.count(), 1);
    let n = &store.items()[0];
    assert_eq!(n.app_name, "Quantum Timer");
    assert_eq!(n.summary, "Tea");
    assert_eq!(n.body, "Timer complete");
    // Re-firing updates the same entry.
    let (again, _) = notify_timer_complete(&mut store, "Tea", &notify);
    assert_eq!(again.expect("updated").1, NotificationEvent::Updated { id });
    assert_eq!(store.count(), 1);
}

#[test]
fn notify_complete_with_sound_only_raises_nothing() {
    let mut store = NotificationStore::new();
    let notify = TimerNotify { notification: false, sound: Some(SoundName::Complete) };
    let (posted, sound) = notify_timer_complete(&mut store, "Tea", &notify);
    assert!(posted.is_none());
    assert_eq!(sound, Some(SoundName::Complete));
    assert_eq!(store.count(), 0);
}

#[test]
fn internal_notification_skips_ids_in_use() {
    let mut store = NotificationStore::new();
    // A D-Bus client names an id the store never handed out.
    let (taken, _) = store.apply_notify("App".into(), "".into(), 1, "s".into(), "b".into(), vec![], 0, "normal".into());
    assert_eq!(taken, 1);
    let (id, event) = store.add_internal_notification("Quantum Timer".into(), "Tea".into(), "x".into(), None, 0);
    assert_ne!(id, taken);
    assert_eq!(id, 2);
    assert_eq!(event, NotificationEvent::Created { id, timeout_ms: Some(0) });
    let (next, _) = store.add_internal_notification("Quantum Timer".into(), "Coffee".into(), "y".into(), None, 0);
    assert_eq!(next, 3);
    assert_eq!(store.count(), 3);
}

#[test]
fn replaced_notification_keeps_its_hints_and_new_ones_have_none() {
    let mut store = NotificationStore::new();
    let (id, _) = store.apply_notify("App".into(), "".into(), 0, "s".into(), "b".into(), vec![], 0, "normal".into());
    assert!(store.items()[0].hints.is_empty());
    store.apply_notify("App".into(), "".into(), id, "s2".into(), "b2".into(), vec![], 0, "normal".into());
    assert!(store.items()[0].hints.is_empty());
    assert_eq!(store.items()[0].summary, "s2");
}
