use quantum_providers::clipboard::{
    blob_capture, text_capture,
    classify, clipboard_needle, clipboard_search_order, entry_title, file_name_or,
    map_store_error, parse_clipboard_op, parse_list_types, preferred_type, relative_age,
    resolve_clipboard_watcher, single_line, text_matches, text_preview, ClipKind,
    ClipboardEntry, ClipboardError, ClipboardOp,
};
use quantum_providers::clipboard_store::{
    admits_entry, blob_id_from_file_name, copy_text_argv, evict_count, join_path,
    FileClipboardStore, WlClipboardWriter,
};
use quantum_providers::error::DomainError;
use quantum_providers::json::JsonValue;

fn types(list: &[&str]) -> Vec<String> {
    list.iter().map(|mime| mime.to_string()).collect()
}

fn text(id: &str, created: u64, full: &str) -> ClipboardEntry {
    ClipboardEntry::Text {
        id: id.to_string(),
        created_unix: created,
        size_bytes: full.len() as u64,
        preview: full.to_string(),
        full: full.to_string(),
    }
}

fn obj(pairs: Vec<(&str, &str)>) -> JsonValue {
    JsonValue::Object(pairs.into_iter().map(|(k, v)| (k.to_string(), JsonValue::Str(v.to_string()))).collect())
}

#[test]
fn classify_prefers_image_png() {
    assert_eq!(classify(&types(&["text/plain", "image/png"])), ClipKind::Image);
}

#[test]
fn classify_other_image_is_image() {
    assert_eq!(classify(&types(&["image/jpeg"])), ClipKind::Image);
}

#[test]
fn classify_uri_list_is_file() {
    assert_eq!(classify(&types(&["text/uri-list", "text/plain"])), ClipKind::File);
}

#[test]
fn classify_plain_text_is_text() {
    assert_eq!(classify(&types(&["text/plain;charset=utf-8"])), ClipKind::Text);
}

#[test]
fn classify_unknown_is_binary() {
    assert_eq!(classify(&types(&["application/octet-stream"])), ClipKind::Binary);
}

#[test]
fn classify_empty_is_binary() {
    assert_eq!(classify(&[]), ClipKind::Binary);
}

#[test]
fn parse_list_types_trims_and_drops_blank_lines() {
    let stdout = "text/plain\n  text/html  \n\nimage/png\n";
    assert_eq!(parse_list_types(stdout), vec!["text/plain", "text/html", "image/png"]);
}

#[test]
fn parse_list_types_empty_is_empty() {
    assert!(parse_list_types("").is_empty());
}

#[test]
fn preferred_type_prefers_png_for_images() {
    let types = vec!["image/bmp".to_string(), "image/png".to_string()];
    assert_eq!(preferred_type(ClipKind::Image, &types), Some("image/png".to_string()));
}

#[test]
fn preferred_type_prefers_plain_text() {
    let types = vec!["text/html".to_string(), "text/plain".to_string()];
    assert_eq!(preferred_type(ClipKind::Text, &types), Some("text/plain".to_string()));
}

#[test]
fn preferred_type_falls_back_in_order() {
    let t = types(&["image/bmp", "image/gif"]);
    assert_eq!(preferred_type(ClipKind::Image, &t), Some("image/bmp".to_string()));
    let t = types(&["application/x-thing", "text/html"]);
    assert_eq!(preferred_type(ClipKind::File, &t), Some("text/html".to_string()));
    let t = types(&["application/x-thing"]);
    assert_eq!(preferred_type(ClipKind::Text, &t), Some("application/x-thing".to_string()));
    assert_eq!(preferred_type(ClipKind::Binary, &t), Some("application/x-thing".to_string()));
    assert_eq!(preferred_type(ClipKind::Image, &t), None);
    assert_eq!(preferred_type(ClipKind::Binary, &[]), None);
}

#[test]
fn relative_age_buckets() {
    assert_eq!(relative_age(100, 100), "just now");
    assert_eq!(relative_age(100, 100 + 30), "just now");
    assert_eq!(relative_age(100, 100 + 120), "2m ago");
    assert_eq!(relative_age(100, 100 + 7200), "2h ago");
    assert_eq!(relative_age(100, 100 + 2 * 86400), "2d ago");
}

#[test]
fn relative_age_of_a_future_entry_is_now() {
    assert_eq!(relative_age(500, 100), "just now");
}

#[test]
fn single_line_collapses_and_caps() {
    assert_eq!(single_line("a   b\n c"), "a b c");
    let long: String = "x".repeat(200);
    let line = single_line(&long);
    assert!(line.chars().count() <= 81);
    assert!(line.ends_with('…'));
}

#[test]
fn text_preview_collapses_whitespace_and_caps_length() {
    assert_eq!(text_preview("  hello   world \n line "), "hello world line");
    let long: String = "a".repeat(200);
    let preview = text_preview(&long);
    assert!(preview.chars().count() <= 121);
    assert!(preview.ends_with('…'));
    assert_eq!(preview.chars().count(), 121);
}

#[test]
fn file_name_or_uses_last_segment() {
    assert_eq!(file_name_or("application/pdf", "/state/clipboard/c1.bin"), "c1.bin");
    assert_eq!(file_name_or("application/pdf", "plain"), "plain");
    assert_eq!(file_name_or("application/pdf", "/state/dir/"), "application/pdf");
}

#[test]
fn text_matches_is_case_insensitive_on_the_entry() {
    assert!(text_matches("Hello World", "", "world"));
    assert!(text_matches("x", "GoodBye", "good"));
    assert!(!text_matches("x", "y", "z"));
}

#[test]
fn override_wins_over_probe() {
    let argv = resolve_clipboard_watcher(Some("cliphist-watch --flag 'a b'"), true);
    assert_eq!(argv, vec!["cliphist-watch", "--flag", "a b"]);
}

#[test]
fn empty_override_falls_through_to_probe() {
    assert_eq!(resolve_clipboard_watcher(Some(""), true), vec!["wl-paste", "--watch"]);
}

#[test]
fn probe_returns_default_watch_argv() {
    assert_eq!(resolve_clipboard_watcher(None, true), vec!["wl-paste", "--watch"]);
}

#[test]
fn nothing_available_returns_empty() {
    assert!(resolve_clipboard_watcher(None, false).is_empty());
}

#[test]
fn unbalanced_override_quoting_yields_nothing() {
    assert!(resolve_clipboard_watcher(Some("watch 'oops"), true).is_empty());
}

#[test]
fn semicolon_empty_returns_all_newest_first() {
    let entries = vec![text("a", 100, "alpha"), text("b", 300, "bravo"), text("c", 200, "charlie")];
    assert_eq!(clipboard_search_order(&entries, ";"), vec![1, 2, 0]);
}

#[test]
fn semicolon_query_filters_text() {
    let entries = vec![text("a", 100, "hello world"), text("b", 200, "goodbye")];
    assert_eq!(clipboard_search_order(&entries, ";good"), vec![1]);
}

#[test]
fn non_semicolon_query_returns_zero() {
    let entries = vec![text("a", 100, "hello")];
    assert!(clipboard_search_order(&entries, "hello").is_empty());
}

#[test]
fn equally_new_entries_keep_their_order_and_blobs_need_an_empty_needle() {
    let image = ClipboardEntry::Image {
        id: "i".into(),
        created_unix: 100,
        size_bytes: 4,
        preview_thumb: "data:image/png;base64,AAAA".into(),
        width: 2,
        height: 3,
        blob_path: "/b/i.bin".into(),
    };
    let entries = vec![text("a", 100, "one"), image, text("b", 100, "two")];
    assert_eq!(clipboard_search_order(&entries, ";  "), vec![0, 1, 2]);
    assert_eq!(clipboard_search_order(&entries, "; TWO "), vec![2]);
    assert_eq!(entry_title(&entries[1]), "Image 2x3");
    assert_eq!(clipboard_needle("; Foo "), Some("foo".to_string()));
    assert_eq!(clipboard_needle("foo"), None);
}

#[test]
fn clipboard_operations_are_read_from_the_payload() {
    assert!(matches!(parse_clipboard_op(&obj(vec![("op", "recopy"), ("id", "a")])), Ok(ClipboardOp::Recopy { id }) if id == "a"));
    assert!(matches!(parse_clipboard_op(&obj(vec![("op", "delete"), ("id", "a")])), Ok(ClipboardOp::Delete { id }) if id == "a"));
    assert!(matches!(parse_clipboard_op(&obj(vec![("op", "clear")])), Ok(ClipboardOp::Clear)));
    match parse_clipboard_op(&obj(vec![("op", "delete")])) {
        Err(DomainError::InvalidQuery(m)) => assert_eq!(m, "clipboard delete requires an id"),
        other => panic!("unexpected {:?}", other),
    }
    match parse_clipboard_op(&obj(vec![])) {
        Err(DomainError::Unsupported(m)) => assert_eq!(m, "unknown clipboard operation: <missing>"),
        other => panic!("unexpected {:?}", other),
    }
    match parse_clipboard_op(&obj(vec![("op", "zap")])) {
        Err(DomainError::Unsupported(m)) => assert_eq!(m, "unknown clipboard operation: zap"),
        other => panic!("unexpected {:?}", other),
    }
}

#[test]
fn store_errors_map_to_domain_errors() {
    assert!(matches!(map_store_error(ClipboardError::NotFound("c1".into())), DomainError::NotFound(id) if id == "c1"));
    assert!(matches!(map_store_error(ClipboardError::Persistence("disk".into())), DomainError::ActionFailed { reason } if reason == "disk"));
}

#[test]
fn copy_text_argv_appends_text() {
    assert_eq!(copy_text_argv(&["wl-copy".to_string()], "hi"), vec!["wl-copy".to_string(), "hi".to_string()]);
}

#[test]
fn copy_text_argv_keeps_fixed_leading_args() {
    assert_eq!(
        copy_text_argv(&["wl-copy".to_string(), "--foreground".to_string()], "value"),
        vec!["wl-copy".to_string(), "--foreground".to_string(), "value".to_string()]
    );
}

#[test]
fn new_defaults_to_wl_copy_when_none() {
    let writer = WlClipboardWriter::new(None);
    assert_eq!(writer.program(), &["wl-copy".to_string()]);
}

#[test]
fn new_defaults_to_wl_copy_when_empty() {
    let writer = WlClipboardWriter::new(Some(vec![]));
    assert_eq!(writer.program(), &["wl-copy".to_string()]);
}

#[test]
fn new_keeps_supplied_program() {
    let writer = WlClipboardWriter::new(Some(vec!["wl-copy".to_string(), "--foreground".to_string()]));
    assert_eq!(writer.program(), &["wl-copy".to_string(), "--foreground".to_string()]);
}

#[test]
fn store_paths_follow_xdg_state_home() {
    let store = FileClipboardStore::new(Some("/xdg/state"), Some("/home/u"));
    assert_eq!(store.json_path(), "/xdg/state/quantum/clipboard.json");
    assert_eq!(store.blob_directory(), "/xdg/state/quantum/clipboard");
    let store = FileClipboardStore::new(None, Some("/home/u"));
    assert_eq!(store.json_path(), "/home/u/.local/state/quantum/clipboard.json");
    assert_eq!(store.blob_path_for("c1"), "/home/u/.local/state/quantum/clipboard/c1.bin");
    let store = FileClipboardStore::with_paths("/t/c.json".into(), "/t/blobs/".into());
    assert_eq!(store.blob_path_for("c2"), "/t/blobs/c2.bin");
    assert_eq!(join_path("", "quantum"), "quantum");
    assert_eq!(join_path("/a", "/abs"), "/abs");
}

#[test]
fn blob_names_give_entry_ids() {
    assert_eq!(blob_id_from_file_name("c2.bin"), Some("c2".to_string()));
    assert_eq!(blob_id_from_file_name("notes.txt"), None);
}

#[test]
fn eviction_keeps_the_newest_within_both_caps() {
    assert!(admits_entry(32 * 1024 * 1024));
    assert!(!admits_entry(32 * 1024 * 1024 + 1));
    let sizes: Vec<u64> = vec![5; 105];
    assert_eq!(evict_count(&sizes), 5);
    let big = 200 * 1024 * 1024;
    assert_eq!(evict_count(&[big, big, 10]), 1);
    assert_eq!(evict_count(&[1, 2, 3]), 0);
    assert_eq!(evict_count(&[]), 0);
}

#[test]
fn text_capture_skips_repeated_text() {
    let mut last = None;
    let first = text_capture(&mut last, 7, "1".into(), 100, 5, "hello".into());
    match first {
        Some(ClipboardEntry::Text { id, created_unix, size_bytes, preview, full }) => {
            assert_eq!((id.as_str(), created_unix, size_bytes), ("1", 100, 5));
            assert_eq!(preview, "hello");
            assert_eq!(full, "hello");
        }
        other => panic!("expected a text entry, got {other:?}"),
    }
    assert_eq!(last, Some(7));
    assert!(text_capture(&mut last, 7, "2".into(), 101, 5, "hello".into()).is_none());
    assert!(text_capture(&mut last, 8, "3".into(), 102, 5, "world".into()).is_some());
}

#[test]
fn blob_capture_forgets_last_text() {
    let mut last = Some(7);
    let bytes = vec![0u8, 1, 2];
    let entry = blob_capture(&mut last, false, "9".into(), 5, &bytes, "application/pdf".into(), "/b/9.bin".into());
    assert_eq!(last, None);
    match entry {
        ClipboardEntry::Binary { id, size_bytes, mime, blob_path, .. } => {
            assert_eq!((id.as_str(), size_bytes, mime.as_str(), blob_path.as_str()), ("9", 3, "application/pdf", "/b/9.bin"));
        }
        other => panic!("expected a binary entry, got {other:?}"),
    }
    let image = blob_capture(&mut last, true, "10".into(), 5, &bytes, "image/png".into(), "/b/10.bin".into());
    match image {
        ClipboardEntry::Image { preview_thumb, width, height, .. } => {
            assert_eq!(preview_thumb, "");
            assert_eq!((width, height), (0, 0));
        }
        other => panic!("expected an image entry, got {other:?}"),
    }
}

#[test]
fn classify_ignores_order_repeats_and_unknown_types() {
    let t = |v: &[&str]| v.iter().map(|x| x.to_string()).collect::<Vec<String>>();
    let types = t(&["text/plain", "text/uri-list", "image/png"]);
    let perm = t(&["image/png", "text/plain", "text/uri-list", "text/plain"]);
    assert_eq!(classify(&types), classify(&perm));
    let mut extended = types.clone();
    extended.extend(t(&["application/x-kde", "STRING"]));
    assert_eq!(classify(&extended), classify(&types));
    assert_eq!(classify(&t(&["text/plain", "UTF8_STRING"])), ClipKind::Text);
}
