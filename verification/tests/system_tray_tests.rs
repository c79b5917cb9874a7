use quantum_providers::error::DbusError;
use quantum_providers::tray_item::{
    after_failed_read, item_fields, make_item, menu_path_property, parse_pixmaps,
    tooltip_title_from_value, IconRef, MirrorRetry, SystemTrayItem, SystemTrayState,
};
use quantum_providers::tray_menu::DbusValue;
use quantum_providers::system_tray::{
    best_pixmap, has_expected_length, next_backoff_secs, next_loop_action, parse_service,
    resolve_display_title, strip_accelerator_markers, HostExit, ItemRegistry, LoopAction,
};

#[test]
fn parse_service_handles_object_path_bus_name_and_empty() {
    assert_eq!(
        parse_service("/StatusNotifierItem", ":1.5"),
        Some((":1.5".into(), "/StatusNotifierItem".into()))
    );
    assert_eq!(parse_service("", ":1.5"), Some((":1.5".into(), "/StatusNotifierItem".into())));
    assert_eq!(
        parse_service("org.kde.StatusNotifierItem-1-1", ":1.5"),
        Some(("org.kde.StatusNotifierItem-1-1".into(), "/StatusNotifierItem".into()))
    );
}

#[test]
fn insert_dedupes() {
    let mut registry = ItemRegistry::new();
    assert!(registry.insert(":1.42", "/StatusNotifierItem"));
    assert!(!registry.insert(":1.42", "/StatusNotifierItem"));
}

#[test]
fn remove_by_bus_name_removes_all_items_under_the_bus() {
    let mut registry = ItemRegistry::new();
    registry.insert(":1.42", "/StatusNotifierItem");
    registry.insert(":1.42", "/OtherItem");
    registry.insert(":1.99", "/StatusNotifierItem");
    let mut removed = registry.remove_by_bus_name(":1.42");
    removed.sort();
    assert_eq!(removed, vec![":1.42/OtherItem".to_string(), ":1.42/StatusNotifierItem".to_string()]);
    assert_eq!(registry.service_keys(), vec![":1.99/StatusNotifierItem".to_string()]);
}

#[test]
fn remove_absent_bus_name_is_noop() {
    let mut registry = ItemRegistry::new();
    registry.insert(":1.42", "/StatusNotifierItem");
    assert!(registry.remove_by_bus_name(":1.99").is_empty());
    assert_eq!(registry.service_keys().len(), 1);
}

#[test]
fn service_keys_are_sorted() {
    let mut registry = ItemRegistry::new();
    registry.insert(":1.99", "/StatusNotifierItem");
    registry.insert(":1.42", "/StatusNotifierItem");
    assert_eq!(
        registry.service_keys(),
        vec![":1.42/StatusNotifierItem".to_string(), ":1.99/StatusNotifierItem".to_string()]
    );
}

#[test]
fn removed_keys_come_back_in_key_order() {
    let mut registry = ItemRegistry::new();
    registry.insert(":1.42", "/b");
    registry.insert(":1.42", "/a");
    registry.insert(":1.1", "/c");
    assert_eq!(registry.remove_by_bus_name(":1.42"), vec![":1.42/a".to_string(), ":1.42/b".to_string()]);
    // A different pair with the same concatenated key is a duplicate.
    assert!(!registry.insert(":1.1/", "c"));
}

#[test]
fn strips_accelerator_markers() {
    assert_eq!(strip_accelerator_markers("_File"), "File");
    assert_eq!(strip_accelerator_markers("__literal"), "_literal");
    assert_eq!(strip_accelerator_markers("a_b_c"), "abc");
    assert_eq!(strip_accelerator_markers("plain"), "plain");
    assert_eq!(strip_accelerator_markers("end_"), "end");
}

#[test]
fn best_pixmap_prefers_largest_at_or_under_64() {
    let candidates = vec![
        (16, 16, vec![0u8; 16 * 16 * 4]),
        (48, 48, vec![0u8; 48 * 48 * 4]),
        (128, 128, vec![0u8; 128 * 128 * 4]),
    ];
    let best = best_pixmap(&candidates).expect("candidate");
    assert_eq!(best.0, 48);
}

#[test]
fn best_pixmap_falls_back_to_smallest_when_all_over_64() {
    let candidates = vec![(128, 128, vec![0u8; 128 * 128 * 4]), (96, 96, vec![0u8; 96 * 96 * 4])];
    let best = best_pixmap(&candidates).expect("candidate");
    assert_eq!(best.0, 96);
}

#[test]
fn best_pixmap_rejects_size_mismatch() {
    let candidates = vec![(16, 16, vec![0u8; 3])];
    assert!(best_pixmap(&candidates).is_none());
}

#[test]
fn best_pixmap_breaks_ties_like_max_and_min_by_key() {
    let small = vec![(32, 1, vec![1u8; 128]), (32, 1, vec![2u8; 128])];
    assert_eq!(best_pixmap(&small).unwrap().2[0], 2);
    let large = vec![(100, 1, vec![1u8; 400]), (100, 1, vec![2u8; 400])];
    assert_eq!(best_pixmap(&large).unwrap().2[0], 1);
}

#[test]
fn expected_length_needs_positive_dimensions() {
    assert!(has_expected_length(2, 2, 16));
    assert!(!has_expected_length(2, 2, 15));
    assert!(!has_expected_length(0, 2, 0));
    assert!(!has_expected_length(-2, -2, 16));
    assert!(!has_expected_length(i32::MAX, i32::MAX, usize::MAX));
}

#[test]
fn tooltip_title_wins_over_title_and_id() {
    assert_eq!(resolve_display_title("Tooltip Title", "Plain Title", "identifier"), "Tooltip Title");
}

#[test]
fn title_is_used_when_tooltip_is_empty() {
    assert_eq!(resolve_display_title("", "Plain Title", "identifier"), "Plain Title");
}

#[test]
fn id_is_the_last_resort() {
    assert_eq!(resolve_display_title("", "", "identifier"), "identifier");
}

#[test]
fn dormant_exit_stops_the_loop() {
    let result = Ok(HostExit::Dormant);
    assert!(matches!(next_loop_action(&result), LoopAction::Stop));
}

#[test]
fn disconnected_exit_retries() {
    let result = Ok(HostExit::Disconnected);
    assert!(matches!(next_loop_action(&result), LoopAction::Retry));
}

#[test]
fn transport_error_retries() {
    let result = Err(DbusError::Transport("boom".to_string()));
    assert!(matches!(next_loop_action(&result), LoopAction::Retry));
}

#[test]
fn backoff_doubles_up_to_thirty_seconds() {
    assert_eq!(next_backoff_secs(1), 2);
    assert_eq!(next_backoff_secs(8), 16);
    assert_eq!(next_backoff_secs(16), 30);
    assert_eq!(next_backoff_secs(30), 30);
}

fn st(v: &str) -> DbusValue {
    DbusValue::Str(v.to_string())
}

fn props(pairs: Vec<(&str, DbusValue)>) -> Vec<(String, DbusValue)> {
    pairs.into_iter().map(|(k, v)| (k.to_string(), v)).collect()
}

fn pixmap(w: i32, h: i32, bytes: &[u8]) -> DbusValue {
    DbusValue::Structure(vec![
        DbusValue::I32(w),
        DbusValue::I32(h),
        DbusValue::Array(bytes.iter().map(|b| DbusValue::Byte(*b)).collect()),
    ])
}

fn tooltip(title: &str) -> DbusValue {
    DbusValue::Variant(Box::new(DbusValue::Structure(vec![
        st(""),
        DbusValue::Array(vec![]),
        st(title),
        st("body"),
    ])))
}

#[test]
fn tooltip_title_is_the_third_field() {
    assert_eq!(tooltip_title_from_value(&tooltip("Volume 40%")), "Volume 40%");
    assert_eq!(tooltip_title_from_value(&DbusValue::Structure(vec![st("a"), st("b")])), "");
    assert_eq!(tooltip_title_from_value(&st("plain")), "");
}

#[test]
fn pixmaps_skip_malformed_entries() {
    let value = DbusValue::Array(vec![
        pixmap(1, 1, &[255, 1, 2, 3]),
        DbusValue::Structure(vec![DbusValue::I32(2), st("x"), DbusValue::Array(vec![])]),
        st("junk"),
        DbusValue::Variant(Box::new(pixmap(2, 1, &[9, 8]))),
    ]);
    assert_eq!(
        parse_pixmaps(&value),
        vec![(1, 1, vec![255, 1, 2, 3]), (2, 1, vec![9, 8])]
    );
    assert!(parse_pixmaps(&st("not an array")).is_empty());
}

#[test]
fn menu_path_ignores_root_and_empty() {
    assert_eq!(
        menu_path_property(&props(vec![("Menu", DbusValue::ObjectPath("/MenuBar".into()))])),
        Some("/MenuBar".to_string())
    );
    assert_eq!(menu_path_property(&props(vec![("Menu", st("/Menu"))])), Some("/Menu".to_string()));
    assert_eq!(menu_path_property(&props(vec![("Menu", DbusValue::ObjectPath("/".into()))])), None);
    assert_eq!(menu_path_property(&props(vec![("Menu", st(""))])), None);
    assert_eq!(menu_path_property(&props(vec![("Menu", DbusValue::I32(3))])), None);
    assert_eq!(menu_path_property(&props(vec![])), None);
}

#[test]
fn item_fields_read_every_property() {
    assert!(item_fields(&Vec::new()).is_none());
    let p = props(vec![
        ("Id", st("nm-applet")),
        ("Title", st("Network")),
        ("Status", st("")),
        ("IconName", st("network-wireless")),
        ("IconThemePath", st("/usr/share/icons")),
        ("IconPixmap", DbusValue::Array(vec![pixmap(1, 1, &[1, 2, 3, 4])])),
        ("ToolTip", tooltip("Connected to Home")),
        ("ItemIsMenu", DbusValue::Bool(true)),
        ("Menu", DbusValue::ObjectPath("/MenuBar".into())),
    ]);
    let f = item_fields(&p).expect("fields");
    assert_eq!(f.id, "nm-applet");
    assert_eq!(f.title, "Connected to Home");
    assert_eq!(f.status, "Active");
    assert_eq!(f.icon_name, "network-wireless");
    assert_eq!(f.icon_theme_path, "/usr/share/icons");
    assert_eq!(f.pixmaps, vec![(1, 1, vec![1, 2, 3, 4])]);
    assert!(f.item_is_menu);
    assert_eq!(f.menu_path.as_deref(), Some("/MenuBar"));

    let bare = item_fields(&props(vec![("Id", st("app")), ("Status", st("Passive"))])).expect("fields");
    assert_eq!(bare.title, "app");
    assert_eq!(bare.status, "Passive");
    assert!(!bare.item_is_menu);
    assert!(bare.menu_path.is_none());

    let item = make_item(":1.5/StatusNotifierItem", f, Some(IconRef::DataUri("data:x".into())), Vec::new());
    assert_eq!(item.service, ":1.5/StatusNotifierItem");
    assert_eq!(item.tooltip, item.title);
    assert_eq!(item.icon, Some(IconRef::DataUri("data:x".into())));
}

fn item(service: &str, title: &str) -> SystemTrayItem {
    SystemTrayItem {
        service: service.to_string(),
        title: title.to_string(),
        tooltip: title.to_string(),
        status: "Active".to_string(),
        icon: None,
        item_is_menu: false,
        menu: Vec::new(),
    }
}

fn services(state: &SystemTrayState) -> Vec<(String, String)> {
    state.items().iter().map(|i| (i.service.clone(), i.title.clone())).collect()
}

#[test]
fn upsert_keeps_items_sorted_and_replaces_in_place() {
    let mut state = SystemTrayState::new();
    state.upsert(item(":1.9/a", "nine"));
    state.upsert(item(":1.10/a", "ten"));
    state.upsert(item(":1.2/a", "two"));
    assert_eq!(
        services(&state),
        vec![
            (":1.10/a".to_string(), "ten".to_string()),
            (":1.2/a".to_string(), "two".to_string()),
            (":1.9/a".to_string(), "nine".to_string()),
        ]
    );
    state.upsert(item(":1.2/a", "two again"));
    assert_eq!(state.items().len(), 3);
    assert_eq!(state.items()[1].title, "two again");
}

#[test]
fn departed_services_are_dropped() {
    let mut state = SystemTrayState::new();
    for s in [":1.1/a", ":1.1/b", ":1.3/a"] {
        state.upsert(item(s, s));
    }
    state.remove_services(&vec![":1.1/a".to_string(), ":1.1/b".to_string()]);
    assert_eq!(services(&state), vec![(":1.3/a".to_string(), ":1.3/a".to_string())]);
    state.remove_services(&vec![":1.7/x".to_string()]);
    assert_eq!(state.items().len(), 1);
}

#[test]
fn mirror_parks_after_more_than_ten_failures() {
    assert_eq!(after_failed_read(0), (1, MirrorRetry::RetryAfterPause));
    assert_eq!(after_failed_read(9), (10, MirrorRetry::RetryAfterPause));
    assert_eq!(after_failed_read(10), (11, MirrorRetry::Park));
}

#[test]
fn strip_undoes_doubled_underscores() {
    for label in ["_File", "Save_As", "a__b", "plain", "_"] {
        assert_eq!(strip_accelerator_markers(&label.replace('_', "__")), label);
    }
    assert_eq!(strip_accelerator_markers("No markers"), "No markers");
}

#[test]
fn registry_is_a_sorted_set_of_keys() {
    let mut registry = ItemRegistry::new();
    assert!(registry.insert(":1.9", "/StatusNotifierItem"));
    assert!(registry.insert(":1.10", "/StatusNotifierItem"));
    assert!(!registry.insert(":1.9", "/StatusNotifierItem"));
    assert_eq!(
        registry.service_keys(),
        vec![":1.10/StatusNotifierItem".to_string(), ":1.9/StatusNotifierItem".to_string()]
    );
}
