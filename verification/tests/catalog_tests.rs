use quantum_providers::bluetooth::PendingPairingMap;
use quantum_providers::brightness::{clamp_to_device, compute_adjusted};
use quantum_providers::clipboard::{image_dimensions, recopy_step, thumbnail, ClipboardEntry, RecopyStep};
use quantum_providers::declarative_shell::declarative_matches;
use quantum_providers::desktop_apps::{
    app_from_desktop_file, app_hits, data_dirs, desktop_decodable, default_positions, launch_plan, sort_by_name, AppCatalog, AppInfo,
    DEFAULT_EMPTY_QUERY_LIMIT,
};
use quantum_providers::emoji::{search_emoji, EmojiEntry, MAXIMUM_RESULTS};
use quantum_providers::error::DomainError;
use base64::Engine;
use quantum_providers::hyprland::{
    HyprlandEvent, MonitorActiveWindowState, class_icon_candidates, index_desktop_file, state_changed, focus_request, index_desktop_entry, parse_windows,
    resolve_class_icon_with, search_windows, windows_snapshot, WindowInfo,
};
use quantum_providers::json::JsonValue;
use quantum_providers::keyed::KeyedVec;
use quantum_providers::network::SystemPowerState;
use quantum_providers::notifications::{
    listed_positions, notification_match_id, notifications_snapshot, parse_notification_command,
    NotificationCommand, NotificationStore,
};
use quantum_providers::plugin_script::{ActionScript, IdleScript, PluginScriptProvider};
use quantum_providers::registry::InMemoryProviderRegistry;
use quantum_providers::system_power::{power_step, PowerStep, SystemPowerAction};
use quantum_providers::system_tray::{file_data_uri, parse_tray_command, pixmap_to_data_uri, require_menu_path, TrayCommand};
use quantum_providers::text::{replace_all, split_char};
use quantum_providers::tray_menu::{parse_menu_layout, parse_menu_layout_reply, DbusValue};
use quantum_providers::wifi_scan::parse_scan_list;

fn to_json(v: &serde_json::Value) -> JsonValue {
    match v {
        serde_json::Value::Null => JsonValue::Null,
        serde_json::Value::Bool(b) => JsonValue::Bool(*b),
        serde_json::Value::Number(n) => {
            if let Some(u) = n.as_u64() {
                JsonValue::UInt(u)
            } else if let Some(i) = n.as_i64() {
                JsonValue::Int(i)
            } else {
                JsonValue::Fraction
            }
        }
        serde_json::Value::String(s) => JsonValue::Str(s.clone()),
        serde_json::Value::Array(items) => JsonValue::Array(items.iter().map(to_json).collect()),
        serde_json::Value::Object(map) => {
            JsonValue::Object(map.iter().map(|(k, v)| (k.clone(), to_json(v))).collect())
        }
    }
}

fn parse(text: &str) -> JsonValue {
    to_json(&serde_json::from_str::<serde_json::Value>(text).expect("valid json"))
}

fn member<'a>(v: &'a JsonValue, key: &str) -> &'a JsonValue {
    v.get(key).expect("member present")
}

fn text(v: &JsonValue) -> &str {
    match v {
        JsonValue::Str(s) => s.as_str(),
        other => panic!("expected a string, found {other:?}"),
    }
}

// ---------------------------------------------------------------------------
// Provider registry.
// ---------------------------------------------------------------------------

#[test]
fn register_and_list() {
    let mut registry: InMemoryProviderRegistry<&str> = InMemoryProviderRegistry::new();
    registry.register("apps".to_string(), "apps provider");
    registry.register("hypr".to_string(), "hypr provider");
    let list = registry.list();
    assert_eq!(list.len(), 2);
    assert!(list.contains(&"apps".to_string()));
    assert!(list.contains(&"hypr".to_string()));
}

#[test]
fn get_returns_registered_provider() {
    let mut registry: InMemoryProviderRegistry<&str> = InMemoryProviderRegistry::new();
    registry.register("apps".to_string(), "apps provider");
    assert_eq!(registry.get("apps"), Some(&"apps provider"));
}

#[test]
fn get_returns_none_for_missing_provider() {
    let registry: InMemoryProviderRegistry<&str> = InMemoryProviderRegistry::new();
    assert!(registry.get("nonexistent").is_none());
}

#[test]
fn registering_an_id_again_replaces_the_provider() {
    let mut registry: InMemoryProviderRegistry<u32> = InMemoryProviderRegistry::new();
    registry.register("apps".to_string(), 1);
    registry.register("apps".to_string(), 2);
    assert_eq!(registry.list(), vec!["apps".to_string()]);
    assert_eq!(registry.get("apps"), Some(&2));
}

// ---------------------------------------------------------------------------
// Emoji picker.
// ---------------------------------------------------------------------------

const COFFEE_GLYPH: &str = "\u{2615}";

fn emoji(glyph: &str, name: &str, keywords: &[&str]) -> EmojiEntry {
    EmojiEntry {
        glyph: glyph.to_string(),
        name: name.to_string(),
        keywords: keywords.iter().map(|k| k.to_string()).collect(),
    }
}

fn emoji_dataset() -> Vec<EmojiEntry> {
    vec![
        emoji("\u{1F600}", "grinning face", &["smile", "happy"]),
        emoji(COFFEE_GLYPH, "hot beverage", &["coffee", "tea", "drink"]),
        emoji("\u{1F375}", "teacup without handle", &["beverage", "green tea"]),
    ]
}

#[test]
fn emoji_colon_query_filters_by_name_and_keyword() {
    let entries = emoji_dataset();
    let hits = search_emoji(&entries, ":coffee");
    assert_eq!(hits, vec![1]);
    assert_eq!(entries[hits[0]].glyph, COFFEE_GLYPH);
    let hits = search_emoji(&entries, ":  BEVERAGE ");
    assert_eq!(hits, vec![1, 2]);
}

#[test]
fn emoji_bare_colon_returns_a_bounded_list_in_dataset_order() {
    let entries: Vec<EmojiEntry> = (0..40).map(|i| emoji("x", &format!("entry {i}"), &[])).collect();
    let hits = search_emoji(&entries, ":");
    assert_eq!(hits.len(), MAXIMUM_RESULTS);
    assert_eq!(hits, (0..30).collect::<Vec<usize>>());
}

#[test]
fn emoji_non_colon_query_returns_nothing() {
    assert!(search_emoji(&emoji_dataset(), "coffee").is_empty());
    assert!(search_emoji(&emoji_dataset(), ":nothing-like-this").is_empty());
}

// ---------------------------------------------------------------------------
// Plugin scripts.
// ---------------------------------------------------------------------------

fn plugin(idle: Vec<IdleScript>, actions: Vec<ActionScript>) -> PluginScriptProvider {
    PluginScriptProvider::new("my-plugin", idle, actions)
}

#[test]
fn invoke_idle_script_returns_stdout() {
    let cmd = "/tmp/my-plugin/scripts/foo";
    let provider = plugin(
        vec![IdleScript { command: cmd.to_string(), channel: "my-plugin.foo".to_string() }],
        vec![],
    );
    let payload = parse(r#"{ "name": "foo", "kind": "idle" }"#);
    assert_eq!(provider.resolve_command(&payload).expect("ok"), vec![cmd.to_string()]);
}

#[test]
fn invoke_action_routes_by_name() {
    let cmd = "/tmp/my-plugin/actions/open";
    let provider =
        plugin(vec![], vec![ActionScript { name: "open".to_string(), command: cmd.to_string() }]);
    let payload = parse(r#"{ "name": "open", "kind": "action" }"#);
    assert_eq!(provider.resolve_command(&payload).expect("ok"), vec![cmd.to_string()]);
}

#[test]
fn invoke_unknown_action_returns_error() {
    let provider = plugin(vec![], vec![]);
    let payload = parse(r#"{ "name": "missing", "kind": "action" }"#);
    match provider.resolve_command(&payload) {
        Err(DomainError::Unsupported(message)) => {
            assert_eq!(message, "unknown action 'missing'");
            assert!(message.contains("missing"));
        }
        other => panic!("expected an error, found {other:?}"),
    }
}

#[test]
fn plugin_payload_errors() {
    let provider = plugin(vec![], vec![]);
    match provider.resolve_command(&parse(r#"{ "name": "x", "kind": "polled" }"#)) {
        Err(DomainError::Unsupported(message)) => {
            assert_eq!(message, "unknown plugin script kind 'polled'")
        }
        other => panic!("expected an error, found {other:?}"),
    }
    match provider.resolve_command(&parse(r#"{ "kind": "idle" }"#)) {
        Err(DomainError::Unsupported(message)) => assert!(message.starts_with("bad payload: ")),
        other => panic!("expected an error, found {other:?}"),
    }
}

#[test]
fn idle_scripts_are_keyed_by_file_stem() {
    let provider = plugin(
        vec![IdleScript { command: "/opt/p/scripts/sync.sh".to_string(), channel: "c".to_string() }],
        vec![],
    );
    let payload = parse(r#"{ "name": "sync", "kind": "idle" }"#);
    assert_eq!(provider.resolve_command(&payload).expect("ok"), vec!["/opt/p/scripts/sync.sh".to_string()]);
}

// ---------------------------------------------------------------------------
// Declarative shell providers.
// ---------------------------------------------------------------------------

#[test]
fn search_filters_by_substring() {
    let matches = declarative_matches("test", "foo\nbar\nbaz\nfoo-extra", "foo", None, None);
    assert_eq!(matches.len(), 2);
    assert_eq!(matches[0].title, "foo");
    assert_eq!(matches[0].id, "test_0");
    assert!(matches[0].prefix);
    assert_eq!(matches[1].title, "foo-extra");
    assert_eq!(matches[1].id, "test_3");
}

#[test]
fn search_with_template() {
    let matches = declarative_matches("test", "test1\ntest2", "test", Some("Item: {0}"), None);
    assert!(!matches.is_empty());
    assert!(matches[0].title.contains("Item: test"));
    assert_eq!(matches[0].title, "Item: test1");
}

#[test]
fn declarative_matches_skip_blank_lines_and_honour_limit() {
    let matches = declarative_matches("p", "\nAlpha\n\nbeta alpha\r\nGamma", "ALPHA", None, Some(1));
    assert_eq!(matches.len(), 1);
    assert_eq!(matches[0].id, "p_0");
    assert!(matches[0].prefix);
    let all = declarative_matches("p", "\nAlpha\n\nbeta alpha\r\nGamma", "alpha", None, None);
    assert_eq!(all.len(), 2);
    assert_eq!(all[1].title, "beta alpha");
    assert!(!all[1].prefix);
}

#[test]
fn replace_all_and_split_follow_std() {
    assert_eq!(replace_all("{0} and {0}", "{0}", "x"), "x and x");
    assert_eq!(replace_all("aaa", "aa", "b"), "aaa".replace("aa", "b"));
    assert_eq!(split_char("/a::b", ':'), vec!["/a".to_string(), String::new(), "b".to_string()]);
    assert_eq!(split_char("", ':'), vec![String::new()]);
}

// ---------------------------------------------------------------------------
// System power.
// ---------------------------------------------------------------------------

fn power_state(can_shutdown: bool) -> SystemPowerState {
    SystemPowerState {
        can_shutdown,
        can_restart: true,
        can_suspend: true,
        can_hibernate: false,
        can_lock: true,
    }
}

#[test]
fn invoke_unsupported_when_can_shutdown_false() {
    match power_step(SystemPowerAction::Shutdown, power_state(false), true, None) {
        Err(DomainError::Unsupported(message)) => {
            assert_eq!(message, "system_power: can_shutdown is false")
        }
        other => panic!("expected an error, found {other:?}"),
    }
}

#[test]
fn power_steps_name_the_logind_method() {
    match power_step(SystemPowerAction::Restart, power_state(true), true, None) {
        Ok(PowerStep::CallManager { method }) => assert_eq!(method, "Reboot"),
        other => panic!("unexpected {other:?}"),
    }
    match power_step(SystemPowerAction::Suspend, power_state(true), false, None) {
        Err(DomainError::Unsupported(message)) => assert_eq!(message, "system_power: no system bus"),
        other => panic!("unexpected {other:?}"),
    }
    let argv = vec!["swaylock".to_string(), "-f".to_string()];
    match power_step(SystemPowerAction::Lock, power_state(true), false, Some(&argv)) {
        Ok(PowerStep::SpawnLock { program, args }) => {
            assert_eq!(program, "swaylock");
            assert_eq!(args, vec!["-f".to_string()]);
        }
        other => panic!("unexpected {other:?}"),
    }
    let empty: Vec<String> = vec![];
    match power_step(SystemPowerAction::Lock, power_state(true), true, Some(&empty)) {
        Err(DomainError::Unsupported(message)) => assert_eq!(message, "system_power: empty lock argv"),
        other => panic!("unexpected {other:?}"),
    }
}

// ---------------------------------------------------------------------------
// Hyprland windows.
// ---------------------------------------------------------------------------

const TWO_WINDOWS: &str = r#"[
    {
        "address": "0x123",
        "title": "Firefox",
        "class": "firefox",
        "workspace": {"id": 1, "name": "1"}
    },
    {
        "address": "0x456",
        "title": "VSCode",
        "class": "code",
        "workspace": {"id": 1, "name": "1"}
    }
]"#;

#[test]
fn search_windows_by_title() {
    let windows = parse_windows(&parse(TWO_WINDOWS));
    let hits = search_windows(&windows, "Firefox", None);
    assert!(!hits.is_empty());
    assert_eq!(windows[hits[0]].title, "Firefox");
}

#[test]
fn search_no_match_returns_empty() {
    let windows = parse_windows(&parse(TWO_WINDOWS));
    assert!(search_windows(&windows, "nonexistent", None).is_empty());
}

#[test]
fn window_search_ranks_title_over_class_over_workspace() {
    let reply = r#"[
        {"address": "a", "title": "terminal", "class": "kitty", "workspace": {"id": 3, "name": "web"}},
        {"address": "b", "title": "docs", "class": "web-browser", "workspace": {"id": 4, "name": "4"}},
        {"address": "c", "title": "web search", "class": "firefox", "workspace": {"id": 5, "name": "5"}},
        {"address": "d", "title": "mail", "class": "thunderbird"}
    ]"#;
    let windows = parse_windows(&parse(reply));
    assert_eq!(windows.len(), 3);
    assert_eq!(search_windows(&windows, "WEB", None), vec![2, 1, 0]);
    assert_eq!(search_windows(&windows, "web", Some(2)), vec![2, 1]);
    assert_eq!(search_windows(&windows, "4", None), vec![1]);
}

#[test]
fn invoke_focus_action() {
    let (command, message) = focus_request(&parse(r#"{ "address": "0x123" }"#)).expect("ok");
    assert_eq!(command, "dispatch focuswindow address:0x123");
    assert_eq!(message, "Focused window 0x123");
    match focus_request(&parse("{}")) {
        Err(DomainError::InvalidQuery(message)) => assert_eq!(message, "missing address in payload"),
        other => panic!("unexpected {other:?}"),
    }
}

#[test]
fn snapshot_returns_window_list() {
    let reply = r#"[
        {"address": "0x123", "title": "Firefox", "class": "firefox", "workspace": {"id": 1, "name": "1"}},
        {"address": "0x456", "title": "VSCode", "class": "code", "workspace": {"id": 2, "name": "code"}}
    ]"#;
    let snapshot = windows_snapshot(&parse_windows(&parse(reply)));
    let windows = match member(&snapshot, "windows") {
        JsonValue::Array(items) => items,
        other => panic!("windows should be an array, found {other:?}"),
    };
    assert_eq!(windows.len(), 2);
    assert_eq!(text(member(&windows[0], "address")), "0x123");
    assert_eq!(text(member(&windows[0], "class")), "firefox");
    assert_eq!(text(member(&windows[0], "title")), "Firefox");
    assert!(matches!(member(&windows[0], "workspace_id"), JsonValue::UInt(1)));
    assert_eq!(text(member(&windows[0], "workspace_name")), "1");
    assert_eq!(text(member(&windows[1], "address")), "0x456");
    assert_eq!(text(member(&windows[1], "class")), "code");
    assert_eq!(text(member(&windows[1], "title")), "VSCode");
}

#[test]
fn snapshot_on_query_error_returns_empty_windows() {
    let none: Vec<WindowInfo> = Vec::new();
    let snapshot = windows_snapshot(&none);
    match member(&snapshot, "windows") {
        JsonValue::Array(items) => assert!(items.is_empty()),
        other => panic!("windows should be an array, found {other:?}"),
    }
}

#[test]
fn resolve_class_icon_uses_mapped_name_on_index_hit() {
    let mut index: KeyedVec<String> = KeyedVec::new();
    index.insert("code".to_string(), "vscode".to_string());
    let asked = std::cell::RefCell::new(Vec::new());
    let result = resolve_class_icon_with(&index, "Code", |name: &str| {
        asked.borrow_mut().push(name.to_string());
        if name == "vscode" {
            Some("/x/vscode.png".to_string())
        } else {
            None
        }
    });
    assert_eq!(result, Some("/x/vscode.png".to_string()));
    let asked = asked.borrow();
    assert!(asked.iter().any(|name| name == "vscode"));
    assert!(!asked.iter().any(|name| name == "code"));
}

#[test]
fn resolve_class_icon_falls_back_to_class_as_name() {
    let index: KeyedVec<String> = KeyedVec::new();
    let result = resolve_class_icon_with(&index, "Firefox", |name: &str| {
        if name == "firefox" {
            Some("/x/firefox.png".to_string())
        } else {
            None
        }
    });
    assert_eq!(result, Some("/x/firefox.png".to_string()));
}

#[test]
fn resolve_class_icon_returns_none_when_nothing_resolves() {
    let index: KeyedVec<String> = KeyedVec::new();
    assert!(resolve_class_icon_with(&index, "NoSuchApp", |_name: &str| None).is_none());
}

#[test]
fn parse_windows_sets_icon_from_resolver() {
    let reply = r#"[
        {"address": "0x1", "title": "VSCode", "class": "Code", "workspace": {"id": 1, "name": "1"}}
    ]"#;
    let windows = parse_windows(&parse(reply));
    assert_eq!(windows.len(), 1);
    let index: KeyedVec<String> = KeyedVec::new();
    let icon = resolve_class_icon_with(&index, &windows[0].class, |name: &str| {
        if name == "Code" {
            Some("/x/vscode.png".to_string())
        } else {
            None
        }
    });
    assert_eq!(icon, Some("/x/vscode.png".to_string()));
}

#[test]
fn parse_windows_leaves_icon_none_when_unresolved() {
    let reply = r#"[
        {"address": "0x1", "title": "Mystery", "class": "UnknownClass", "workspace": {"id": 1, "name": "1"}}
    ]"#;
    let windows = parse_windows(&parse(reply));
    assert_eq!(windows.len(), 1);
    let index: KeyedVec<String> = KeyedVec::new();
    assert!(resolve_class_icon_with(&index, &windows[0].class, |_name: &str| None).is_none());
}

#[test]
fn class_index_prefers_startup_wm_class_over_stem() {
    let mut index: KeyedVec<String> = KeyedVec::new();
    index_desktop_entry(&mut index, Some("code"), None, "from-stem");
    index_desktop_entry(&mut index, Some("Other"), Some("Code"), "vscode");
    index_desktop_entry(&mut index, Some("code"), None, "later-stem");
    assert_eq!(index.get("code"), Some(&"vscode".to_string()));
    assert_eq!(index.get("other"), Some(&"vscode".to_string()));
    assert_eq!(
        class_icon_candidates(&index, "Code"),
        vec!["vscode".to_string(), "code".to_string(), "Code".to_string()]
    );
}

#[test]
fn non_array_reply_has_no_windows() {
    assert!(parse_windows(&parse(r#"{"error": "nope"}"#)).is_empty());
}

// ---------------------------------------------------------------------------
// Desktop applications.
// ---------------------------------------------------------------------------

fn app(id: &str, name: &str, exec: &str) -> AppInfo {
    AppInfo::new(id.to_string(), name.to_string(), None, vec![], exec.to_string(), None)
}

#[test]
fn scan_apps_dedupes_across_xdg_dirs_first_seen_wins() {
    let mut catalog = AppCatalog::new();
    catalog.add("firefox".to_string(), app("firefox", "Firefox", "firefox-from-home %u"));
    catalog.add("firefox".to_string(), app("firefox", "Firefox", "firefox-from-system %u"));
    let apps = catalog.into_sorted();
    assert_eq!(apps.len(), 1);
    assert_eq!(apps[0].id, "firefox");
    assert_eq!(apps[0].exec_line, "firefox-from-home %u");
}

#[test]
fn catalog_is_sorted_by_name() {
    let mut catalog = AppCatalog::new();
    catalog.add("z".to_string(), app("z", "Zed", "zed"));
    catalog.add("a".to_string(), app("a", "Alacritty", "alacritty"));
    catalog.add("m".to_string(), app("m", "Mpv", "mpv"));
    let names: Vec<String> = catalog.into_sorted().into_iter().map(|a| a.name).collect();
    assert_eq!(names, vec!["Alacritty", "Mpv", "Zed"]);
    let sorted = sort_by_name(vec![app("b", "b", "b"), app("B", "B", "B"), app("a", "a", "a")]);
    let names: Vec<String> = sorted.into_iter().map(|a| a.name).collect();
    assert_eq!(names, vec!["B", "a", "b"]);
}

#[test]
fn invoke_launch_action() {
    let apps = vec![AppInfo::new(
        "firefox".to_string(),
        "Firefox".to_string(),
        Some("Web Browser".to_string()),
        vec![],
        "firefox %u".to_string(),
        None,
    )];
    let (argv, message) = launch_plan(&apps, "firefox").expect("launchable");
    assert_eq!(argv, vec!["firefox".to_string()]);
    assert_eq!(message, "Launched Firefox");
    match launch_plan(&apps, "missing") {
        Err(DomainError::Unsupported(message)) => assert_eq!(message, "app not found: missing"),
        other => panic!("unexpected {other:?}"),
    }
}

#[test]
fn empty_query_respects_limit() {
    let apps: Vec<AppInfo> = (0..5).map(|i| app(&format!("app{i}"), &format!("App {i}"), &format!("app{i}"))).collect();
    let ranked: Vec<String> = apps.iter().map(|a| a.id.clone()).collect();
    assert_eq!(default_positions(&apps, &ranked, 2).len(), 2);
    assert_eq!(default_positions(&apps, &ranked, DEFAULT_EMPTY_QUERY_LIMIT), vec![0, 1, 2, 3, 4]);
    let reordered = vec!["app3".to_string(), "gone".to_string(), "app0".to_string()];
    assert_eq!(default_positions(&apps, &reordered, 12), vec![3, 0]);
}

#[test]
fn app_hits_report_where_the_query_occurs() {
    let firefox = AppInfo::new(
        "firefox".to_string(),
        "Firefox".to_string(),
        Some("Web Browser".to_string()),
        vec!["Internet".to_string(), "WWW".to_string()],
        "firefox %u".to_string(),
        None,
    );
    let hits = app_hits(&firefox, "fox");
    assert!(hits.name && !hits.generic_name && !hits.keyword);
    let hits = app_hits(&firefox, "browser");
    assert!(!hits.name && hits.generic_name && !hits.keyword);
    let hits = app_hits(&firefox, "www");
    assert!(!hits.name && !hits.generic_name && hits.keyword);
}

#[test]
fn data_dirs_follow_the_xdg_defaults() {
    assert_eq!(
        data_dirs(None, Some("/home/u"), None),
        vec!["/home/u/.local/share".to_string(), "/usr/local/share".to_string(), "/usr/share".to_string()]
    );
    assert_eq!(
        data_dirs(Some("/d"), None, Some("/a:/b")),
        vec!["/d".to_string(), "/a".to_string(), "/b".to_string()]
    );
}

// ---------------------------------------------------------------------------
// Clipboard recopy.
// ---------------------------------------------------------------------------

#[test]
fn invoke_recopy_text_writes_full_text() {
    let entries = vec![
        ClipboardEntry::Text {
            id: "a".to_string(),
            created_unix: 100,
            size_bytes: 10,
            preview: "short".to_string(),
            full: "the full text".to_string(),
        },
        ClipboardEntry::Binary {
            id: "b".to_string(),
            created_unix: 90,
            size_bytes: 3,
            mime: "application/pdf".to_string(),
            blob_path: "/blobs/b.bin".to_string(),
        },
    ];
    match recopy_step(&entries, "a") {
        Ok(RecopyStep::Text(t)) => assert_eq!(t, "the full text"),
        other => panic!("unexpected {other:?}"),
    }
    match recopy_step(&entries, "b") {
        Ok(RecopyStep::Blob { path, mime }) => {
            assert_eq!(path, "/blobs/b.bin");
            assert_eq!(mime, "application/pdf");
        }
        other => panic!("unexpected {other:?}"),
    }
    match recopy_step(&entries, "zzz") {
        Err(DomainError::NotFound(id)) => assert_eq!(id, "zzz"),
        other => panic!("unexpected {other:?}"),
    }
}

// ---------------------------------------------------------------------------
// Notifications.
// ---------------------------------------------------------------------------

#[test]
fn invoke_dismiss_removes_notification() {
    let mut store = NotificationStore::new();
    let (id, _) = store.add_internal_notification(
        "Quantum".to_string(),
        "Summary".to_string(),
        "Body".to_string(),
        None,
        0,
    );
    match parse_notification_command(&parse(&format!(r#"{{"command": "dismiss", "id": {id}}}"#))) {
        NotificationCommand::Dismiss { id: target } => {
            store.dismiss(target);
        }
        other => panic!("unexpected {other:?}"),
    }
    assert_eq!(store.count(), 0);
}

#[test]
fn invoke_unknown_command_is_noop() {
    assert!(matches!(
        parse_notification_command(&parse(r#"{"command": "explode", "id": 1}"#)),
        NotificationCommand::Ignore
    ));
    assert!(matches!(
        parse_notification_command(&parse(r#"{"command": "dismiss"}"#)),
        NotificationCommand::Ignore
    ));
    match parse_notification_command(&parse(r#"{"command": "action", "id": 7, "action_key": "open"}"#)) {
        NotificationCommand::InvokeAction { id, action_key } => {
            assert_eq!(id, 7);
            assert_eq!(action_key, "open");
        }
        other => panic!("unexpected {other:?}"),
    }
}

#[test]
fn notification_search_and_snapshot() {
    let mut store = NotificationStore::new();
    store.add_internal_notification("App".to_string(), String::new(), "hidden".to_string(), None, 0);
    store.add_internal_notification("App".to_string(), "Shown".to_string(), "body".to_string(), Some("bell".to_string()), 5000);
    assert_eq!(listed_positions(store.items()), vec![1]);
    assert_eq!(notification_match_id(42), "notification-42");
    let snapshot = notifications_snapshot(store.items());
    assert_eq!(snapshot.len(), 2);
    assert!(matches!(member(&snapshot[0], "icon"), JsonValue::Null));
    assert_eq!(text(member(&snapshot[1], "icon")), "bell");
    assert_eq!(text(member(&snapshot[1], "summary")), "Shown");
    assert_eq!(text(member(&snapshot[1], "urgency")), "normal");
    assert!(matches!(member(&snapshot[1], "timeout_ms"), JsonValue::UInt(5000)));
    assert!(matches!(member(&snapshot[1], "id"), JsonValue::UInt(2)));
}

#[test]
fn second_identical_internal_notification_updates_the_first() {
    let mut store = NotificationStore::new();
    let (first, _) = store.add_internal_notification("T".to_string(), "Done".to_string(), "one".to_string(), None, 0);
    let (second, _) = store.add_internal_notification("T".to_string(), "Done".to_string(), "two".to_string(), None, 0);
    assert_eq!(first, second);
    assert_eq!(store.count(), 1);
    assert_eq!(store.items()[0].body, "two");
}

// ---------------------------------------------------------------------------
// Pending pairing requests.
// ---------------------------------------------------------------------------

#[test]
fn park_then_resolve_by_address_delivers_the_reply() {
    let mut pending: PendingPairingMap<std::sync::mpsc::Sender<u32>> = PendingPairingMap::new();
    let (sender, receiver) = std::sync::mpsc::channel();
    pending.park("/org/bluez/hci0/dev_AA_BB_CC_DD_EE_FF", sender);
    let taken = pending.resolve_by_address("aa:bb:cc:dd:ee:ff").expect("parked");
    assert!(taken.send(123456).is_ok());
    assert_eq!(receiver.recv().unwrap(), 123456);
    assert!(pending.resolve_by_address("aa:bb:cc:dd:ee:ff").is_none());
}

#[test]
fn resolve_by_address_with_nothing_parked_returns_false() {
    let mut pending: PendingPairingMap<u8> = PendingPairingMap::new();
    assert!(pending.resolve_by_address("AA:BB:CC:DD:EE:FF").is_none());
}

#[test]
fn cancel_drops_the_sender_so_the_receiver_errors() {
    let mut pending: PendingPairingMap<std::sync::mpsc::Sender<u32>> = PendingPairingMap::new();
    let (sender, receiver) = std::sync::mpsc::channel::<u32>();
    pending.park("/org/bluez/hci0/dev_11_22_33_44_55_66", sender);
    assert!(pending.cancel("/org/bluez/hci0/dev_11_22_33_44_55_66"));
    assert!(receiver.recv().is_err());
    assert!(!pending.cancel("/org/bluez/hci0/dev_11_22_33_44_55_66"));
}

#[test]
fn cancel_all_returns_every_parked_device_path() {
    let mut pending: PendingPairingMap<u8> = PendingPairingMap::new();
    pending.park("/org/bluez/hci0/dev_A", 1);
    pending.park("/org/bluez/hci0/dev_B", 2);
    let mut paths = pending.cancel_all();
    paths.sort();
    assert_eq!(paths, vec!["/org/bluez/hci0/dev_A".to_string(), "/org/bluez/hci0/dev_B".to_string()]);
    assert!(pending.cancel_all().is_empty());
}

#[test]
fn parking_twice_replaces_the_first_receiver() {
    let mut pending: PendingPairingMap<std::sync::mpsc::Sender<u32>> = PendingPairingMap::new();
    let (first, first_receiver) = std::sync::mpsc::channel::<u32>();
    let (second, second_receiver) = std::sync::mpsc::channel::<u32>();
    pending.park("/org/bluez/hci0/dev_AA_BB", first);
    pending.park("/org/bluez/hci0/dev_AA_BB", second);
    assert!(first_receiver.recv().is_err());
    let taken = pending.resolve_by_address("aa:bb").expect("parked");
    taken.send(7).unwrap();
    assert_eq!(second_receiver.recv().unwrap(), 7);
}

// ---------------------------------------------------------------------------
// Icons, scans and brightness.
// ---------------------------------------------------------------------------

fn png_of(width: u32, height: u32, rgba: &[u8]) -> Vec<u8> {
    let mut bytes = Vec::new();
    let mut encoder = png::Encoder::new(&mut bytes, width, height);
    encoder.set_color(png::ColorType::Rgba);
    encoder.set_depth(png::BitDepth::Eight);
    let mut writer = encoder.write_header().unwrap();
    writer.write_image_data(rgba).unwrap();
    writer.finish().unwrap();
    bytes
}

fn base64_of(bytes: &[u8]) -> String {
    base64::engine::general_purpose::STANDARD.encode(bytes)
}

#[test]
fn pixmap_round_trips_through_png() {
    let argb = [255u8, 10, 20, 30, 128, 40, 50, 60];
    let uri = pixmap_to_data_uri(2, 1, &argb).expect("data uri");
    let payload = uri.strip_prefix("data:image/png;base64,").expect("png data uri");
    let png_bytes = base64::engine::general_purpose::STANDARD.decode(payload).expect("base64");
    let decoder = png::Decoder::new(std::io::Cursor::new(png_bytes));
    let mut reader = decoder.read_info().expect("png header");
    let mut pixels = vec![0u8; reader.output_buffer_size().expect("size")];
    let info = reader.next_frame(&mut pixels).expect("frame");
    assert_eq!((info.width, info.height), (2, 1));
    assert_eq!(&pixels[..info.buffer_size()], &[10, 20, 30, 255, 40, 50, 60, 128]);
    assert_eq!(uri, format!("data:image/png;base64,{}", base64_of(&png_of(2, 1, &[10, 20, 30, 255, 40, 50, 60, 128]))));
}

#[test]
fn pixmap_rejects_bad_length() {
    assert!(pixmap_to_data_uri(2, 2, &[0u8; 15]).is_none());
    assert!(pixmap_to_data_uri(0, 2, &[]).is_none());
}

#[test]
fn icon_files_become_data_uris_by_extension() {
    assert_eq!(file_data_uri("png", &[1, 2, 3, 4]), format!("data:image/png;base64,{}", base64_of(&[1, 2, 3, 4])));
    assert_eq!(file_data_uri("svg", b"<svg/>"), "data:image/svg+xml;base64,PHN2Zy8+");
}

#[test]
fn scan_list_is_strongest_first() {
    let raw = "Home:AA\\:01:40:WPA2:2412:no: \nCafe:AA\\:02:90::5180:no: \nWork:AA\\:03:65:WPA1:2437:yes:*\n";
    let networks = parse_scan_list(raw);
    let signals: Vec<u8> = networks.iter().map(|n| n.signal_percent).collect();
    let mut sorted = signals.clone();
    sorted.sort_by(|a, b| b.cmp(a));
    assert_eq!(signals, sorted);
    assert_eq!(networks.len(), 3);
    assert_eq!(signals, vec![90, 65, 40]);
    assert_eq!(networks[0].ssid, "Cafe");
    assert!(networks[1].active);
}

#[test]
fn brightness_clamp_is_idempotent_and_steps_stay_in_range() {
    for value in [0u32, 3, 50, 500, 1000] {
        let once = clamp_to_device(value, 400);
        assert_eq!(clamp_to_device(once, 400), once);
        assert!((4..=400).contains(&once));
    }
    assert_eq!(compute_adjusted(200, 400, -100), 4);
    assert_eq!(compute_adjusted(200, 400, 100), 400);
    assert_eq!(compute_adjusted(200, 400, 0), 200);
}

#[test]
fn hyprland_events_are_idempotent() {
    let mut once = MonitorActiveWindowState::new();
    let mut twice = MonitorActiveWindowState::new();
    let events = || {
        vec![
            HyprlandEvent::MonitorAdded { monitor: "DP-1".to_string() },
            HyprlandEvent::FocusedMon { monitor: "DP-1".to_string(), workspace: "2".to_string() },
            HyprlandEvent::ActiveWindow { class: "kitty".to_string(), title: "shell".to_string() },
            HyprlandEvent::Workspace { name: "7".to_string() },
        ]
    };
    for ev in events() {
        once.apply_event(ev);
    }
    for ev in events() {
        let copy = match &ev {
            HyprlandEvent::MonitorAdded { monitor } => HyprlandEvent::MonitorAdded { monitor: monitor.clone() },
            HyprlandEvent::FocusedMon { monitor, workspace } => {
                HyprlandEvent::FocusedMon { monitor: monitor.clone(), workspace: workspace.clone() }
            }
            HyprlandEvent::MonitorRemoved { monitor } => HyprlandEvent::MonitorRemoved { monitor: monitor.clone() },
            HyprlandEvent::ActiveWindow { class, title } => {
                HyprlandEvent::ActiveWindow { class: class.clone(), title: title.clone() }
            }
            HyprlandEvent::Workspace { name } => HyprlandEvent::Workspace { name: name.clone() },
        };
        twice.apply_event(ev);
        twice.apply_event(copy);
    }
    let a = once.monitors.get("DP-1").expect("monitor");
    let b = twice.monitors.get("DP-1").expect("monitor");
    assert_eq!((a.class.as_str(), a.title.as_str(), a.workspace_id), ("kitty", "shell", 7));
    assert_eq!((b.class.as_str(), b.title.as_str(), b.workspace_id), ("kitty", "shell", 7));
    assert_eq!(once.monitors.len(), twice.monitors.len());
}

// ---------------------------------------------------------------------------
// Tray menu layouts.
// ---------------------------------------------------------------------------

fn variant(v: DbusValue) -> DbusValue {
    DbusValue::Variant(Box::new(v))
}

fn node(id: i32, properties: Vec<(&str, DbusValue)>, children: Vec<DbusValue>) -> DbusValue {
    DbusValue::Structure(vec![
        DbusValue::I32(id),
        DbusValue::Dict(
            properties
                .into_iter()
                .map(|(k, v)| (DbusValue::Str(k.to_string()), variant(v)))
                .collect(),
        ),
        DbusValue::Array(children.into_iter().map(variant).collect()),
    ])
}

fn s(text: &str) -> DbusValue {
    DbusValue::Str(text.to_string())
}

#[test]
fn parses_labels_separators_and_defaults() {
    let layout = node(
        0,
        vec![("children-display", s("submenu"))],
        vec![
            node(1, vec![("label", s("_Library"))], vec![]),
            node(2, vec![("type", s("separator"))], vec![]),
            node(3, vec![("label", s("E_xit")), ("enabled", DbusValue::Bool(false))], vec![]),
        ],
    );
    let parsed = parse_menu_layout(&layout);
    assert_eq!(parsed.len(), 3);
    assert_eq!(parsed[0].label, "Library");
    assert!(parsed[0].enabled && parsed[0].visible && !parsed[0].separator);
    assert!(parsed[1].separator);
    assert_eq!(parsed[2].label, "Exit");
    assert!(!parsed[2].enabled);
}

#[test]
fn parses_nested_children_and_toggles() {
    let child = node(
        11,
        vec![
            ("label", s("Enabled")),
            ("toggle-type", s("checkmark")),
            ("toggle-state", DbusValue::I32(1)),
        ],
        vec![],
    );
    let layout = node(
        0,
        vec![],
        vec![node(10, vec![("label", s("Settings")), ("children-display", s("submenu"))], vec![child])],
    );
    let parsed = parse_menu_layout(&layout);
    assert_eq!(parsed[0].children.len(), 1);
    assert_eq!(parsed[0].children[0].toggle_state, Some(true));
    assert_eq!(parsed[0].children[0].toggle_type.as_deref(), Some("checkmark"));
}

#[test]
fn skips_malformed_children() {
    let layout = node(0, vec![], vec![s("garbage"), node(1, vec![("label", s("Ok"))], vec![])]);
    let parsed = parse_menu_layout(&layout);
    assert_eq!(parsed.len(), 1);
    assert_eq!(parsed[0].label, "Ok");
}

#[test]
fn parses_reply_shaped_layout() {
    let children = vec![
        variant(node(2, vec![("label", s("Show Spotify"))], vec![])),
        variant(node(3, vec![("type", s("separator"))], vec![])),
    ];
    let parsed = parse_menu_layout_reply(&children);
    assert_eq!(parsed.len(), 2);
    assert_eq!(parsed[0].label, "Show Spotify");
    assert!(parsed[1].separator);
}

#[test]
fn malformed_layout_has_no_menu() {
    assert!(parse_menu_layout(&DbusValue::I32(4)).is_empty());
    assert!(parse_menu_layout(&DbusValue::Structure(vec![DbusValue::I32(0)])).is_empty());
}

// ---------------------------------------------------------------------------
// Clipboard images and desktop entry files.
// ---------------------------------------------------------------------------

fn tiny_png() -> Vec<u8> {
    let image: image::ImageBuffer<image::Rgba<u8>, Vec<u8>> =
        image::ImageBuffer::from_pixel(2, 2, image::Rgba([255, 0, 0, 255]));
    let mut buffer = std::io::Cursor::new(Vec::new());
    image.write_to(&mut buffer, image::ImageFormat::Png).expect("encode tiny png");
    buffer.into_inner()
}

#[test]
fn thumbnail_of_tiny_png_is_data_uri() {
    let bytes = tiny_png();
    let uri = thumbnail(&bytes).expect("thumbnail of a valid png");
    assert!(uri.starts_with("data:image/png;base64,"));
    assert_ne!(uri, format!("data:image/png;base64,{}", base64_of(b"")));
}

#[test]
fn thumbnail_of_non_image_is_none() {
    assert_eq!(thumbnail(b"not an image at all"), None);
    assert_eq!(image_dimensions(b"not an image at all"), (0, 0));
}

#[test]
fn image_dimensions_read_the_decoded_size() {
    assert_eq!(image_dimensions(&tiny_png()), (2, 2));
    let big: image::ImageBuffer<image::Rgba<u8>, Vec<u8>> =
        image::ImageBuffer::from_pixel(300, 150, image::Rgba([0, 0, 255, 255]));
    let mut buffer = std::io::Cursor::new(Vec::new());
    big.write_to(&mut buffer, image::ImageFormat::Png).unwrap();
    let uri = thumbnail(buffer.get_ref()).expect("thumbnail");
    let payload = uri.strip_prefix("data:image/png;base64,").unwrap();
    let png_bytes = base64::engine::general_purpose::STANDARD.decode(payload).unwrap();
    assert_eq!(image_dimensions(&png_bytes), (128, 64));
}

#[test]
fn scan_temp_directory() {
    let fixture_content = "[Desktop Entry]\nName=TestApp\nGenericName=Test Application\nExec=testapp %u\nType=Application";
    assert!(desktop_decodable(fixture_content));
    let app = app_from_desktop_file("/tmp/applications/testapp.desktop", fixture_content).expect("app");
    assert_eq!(app.id, "testapp");
    assert_eq!(app.name, "TestApp");
    assert_eq!(app.generic_name.as_deref(), Some("Test Application"));
    assert_eq!(app.exec_line, "testapp %u");
    assert_eq!(app.icon.as_deref(), Some("testapp"));
}

#[test]
fn desktop_files_with_keywords_icons_and_wm_class() {
    let content = "# comment\n[Desktop Entry]\nName=Visual Studio Code\nName[de]=Code\nKeywords=editor;IDE;\nIcon=vscode\nStartupWMClass=Code\nExec=code %F\n";
    let app = app_from_desktop_file("/usr/share/applications/code.desktop", content).expect("app");
    assert_eq!(app.name, "Visual Studio Code");
    assert_eq!(app.keywords_lower, vec!["editor".to_string(), "ide".to_string()]);
    assert_eq!(app.icon.as_deref(), Some("vscode"));
    let mut index: KeyedVec<String> = KeyedVec::new();
    index_desktop_file(&mut index, "/usr/share/applications/code.desktop", content);
    assert_eq!(index.get("code"), Some(&"vscode".to_string()));
    assert!(!desktop_decodable("[Desktop Entry]\n  =oops\n"));
    let no_name = app_from_desktop_file("/x/nameless.desktop", "[Desktop Entry]\nExec=x\n").expect("app");
    assert_eq!(no_name.name, "Unknown");
}

// ---------------------------------------------------------------------------
// Active-window broadcasts are gated on change.
// ---------------------------------------------------------------------------

fn monitor_state(monitor: &str, class: &str) -> MonitorActiveWindowState {
    let mut s = MonitorActiveWindowState::new();
    s.apply_event(HyprlandEvent::FocusedMon { monitor: monitor.to_string(), workspace: "1".to_string() });
    s.apply_event(HyprlandEvent::ActiveWindow { class: class.to_string(), title: String::new() });
    s
}

/// The change filter a provider keeps: a state is sent only when it differs
/// from the last one sent.
fn send_if_changed(sent: &mut Vec<MonitorActiveWindowState>, last: &mut Option<MonitorActiveWindowState>, candidate: &MonitorActiveWindowState) {
    if state_changed(last, candidate) {
        sent.push(candidate.copy());
        *last = Some(candidate.copy());
    }
}

#[test]
fn send_state_if_changed_suppresses_duplicate() {
    let mut sent = Vec::new();
    let mut last = None;
    let value = monitor_state("DP-1", "firefox");
    send_if_changed(&mut sent, &mut last, &value);
    send_if_changed(&mut sent, &mut last, &value);
    assert_eq!(sent.len(), 1);
    assert!(sent[0].same_state(&value));
}

#[test]
fn send_state_if_changed_forwards_distinct() {
    let mut sent = Vec::new();
    let mut last = None;
    let a = monitor_state("DP-1", "firefox");
    let b = monitor_state("DP-2", "firefox");
    send_if_changed(&mut sent, &mut last, &a);
    send_if_changed(&mut sent, &mut last, &b);
    assert_eq!(sent.len(), 2);
    assert!(sent[0].same_state(&a));
    assert!(sent[1].same_state(&b));
}

#[test]
fn two_events_collapsing_to_same_state_yield_one_broadcast() {
    let mut sent = Vec::new();
    let mut last = None;
    let mut state = monitor_state("DP-1", "firefox");
    state.apply_event(HyprlandEvent::FocusedMon { monitor: "DP-1".to_string(), workspace: "1".to_string() });
    send_if_changed(&mut sent, &mut last, &state);
    state.apply_event(HyprlandEvent::FocusedMon { monitor: "DP-1".to_string(), workspace: "1".to_string() });
    send_if_changed(&mut sent, &mut last, &state);
    assert_eq!(sent.len(), 1);
}

// ---------------------------------------------------------------------------
// Notification store and tray actions.
// ---------------------------------------------------------------------------

#[test]
fn creates_provider_and_gets_all() {
    let store = NotificationStore::new();
    assert!(store.items().is_empty());
    assert_eq!(store.count(), 0);
}

#[test]
fn adds_and_counts_notification() {
    let mut store = NotificationStore::new();
    store.add_internal_notification(
        "Spotify".to_string(),
        "Now playing".to_string(),
        "Song title".to_string(),
        Some("spotify".to_string()),
        5000,
    );
    assert_eq!(store.count(), 1);
}

#[test]
fn dismisses_notification() {
    let mut store = NotificationStore::new();
    let (id, _) = store.add_internal_notification("App".to_string(), "Title".to_string(), "Body".to_string(), None, 5000);
    assert_eq!(store.count(), 1);
    store.dismiss(id);
    assert_eq!(store.count(), 0);
}

#[test]
fn dismiss_succeeds_without_dbus_connection() {
    let mut store = NotificationStore::new();
    let (id, _) = store.apply_notify(
        "App".to_string(),
        String::new(),
        0,
        "T".to_string(),
        "B".to_string(),
        Vec::new(),
        0,
        "normal".to_string(),
    );
    store.dismiss(id);
    assert_eq!(store.count(), 0);
}

#[test]
fn tray_commands_are_read_from_payloads() {
    match parse_tray_command(&parse(r#"{"command": "menu_select", "service": ":1.5/StatusNotifierItem", "item_id": 7}"#)) {
        Ok(TrayCommand::MenuSelect { service, item_id }) => {
            assert_eq!(service, ":1.5/StatusNotifierItem");
            assert_eq!(item_id, 7);
        }
        other => panic!("unexpected {other:?}"),
    }
    assert!(matches!(
        parse_tray_command(&parse(r#"{"command": "activate", "service": "s"}"#)),
        Ok(TrayCommand::Activate { .. })
    ));
    match parse_tray_command(&parse(r#"{"command": "menu_select", "service": "s", "item_id": 4294967296}"#)) {
        Err(DomainError::ActionFailed { reason }) => assert_eq!(reason, "missing or invalid system tray field: item_id"),
        other => panic!("unexpected {other:?}"),
    }
    match parse_tray_command(&parse(r#"{"command": "wiggle"}"#)) {
        Err(DomainError::ActionFailed { reason }) => assert_eq!(reason, "unknown system tray command: wiggle"),
        other => panic!("unexpected {other:?}"),
    }
    match parse_tray_command(&parse(r#"{"service": "s"}"#)) {
        Err(DomainError::ActionFailed { reason }) => assert_eq!(reason, "missing system tray field: command"),
        other => panic!("unexpected {other:?}"),
    }
    match require_menu_path(None, "s") {
        Err(DomainError::ActionFailed { reason }) => assert_eq!(reason, "system tray service s has no menu"),
        other => panic!("unexpected {other:?}"),
    }
}
