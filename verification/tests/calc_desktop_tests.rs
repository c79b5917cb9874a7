use quantum_providers::calc::{
    calc_expression, data_display_symbol, is_call_open_after, is_identifier_byte_before,
    linear_unit, looks_like_arithmetic, parse_temperature, rewrite_functions, split_conversion,
    temperature_display_symbol, Temperature, UnitFamily,
};
use quantum_providers::desktop_apps::{app_from_entry, split_keywords, tokenize_exec, AppInfo};

#[test]
fn calc_queries_strip_an_equals_prefix() {
    assert_eq!(calc_expression("  = sqrt(16) "), Some(("sqrt(16)".to_string(), true)));
    assert_eq!(calc_expression("2+2"), Some(("2+2".to_string(), false)));
    assert_eq!(calc_expression(" =  "), None);
    assert_eq!(calc_expression(""), None);
}

#[test]
fn arithmetic_is_recognised_by_operator_function_or_equals() {
    assert!(looks_like_arithmetic("2+2", false));
    assert!(looks_like_arithmetic("round(2.5)", false));
    assert!(looks_like_arithmetic("hello", true));
    assert!(!looks_like_arithmetic("hello", false));
    assert!(!looks_like_arithmetic("firefox", false));
}

#[test]
fn function_names_are_rewritten_only_at_calls() {
    assert_eq!(rewrite_functions("sqrt(16)"), "math::sqrt(16)");
    assert_eq!(rewrite_functions("log (100) + abs(-2)"), "math::log10 (100) + math::abs(-2)");
    assert_eq!(rewrite_functions("cosine(1)"), "cosine(1)");
    assert_eq!(rewrite_functions("xsin(1)"), "xsin(1)");
    assert_eq!(rewrite_functions("math::sin(1)"), "math::sin(1)");
    assert_eq!(rewrite_functions("sin + 1"), "sin + 1");
    assert_eq!(rewrite_functions("round(2.5)"), "round(2.5)");
}

#[test]
fn call_and_identifier_helpers_look_around_a_position() {
    let v: Vec<char> = "a_sin  (".chars().collect();
    assert!(is_identifier_byte_before(&v, 2));
    assert!(!is_identifier_byte_before(&v, 0));
    assert!(is_call_open_after(&v, 5));
    assert!(!is_call_open_after(&v, 1));
}

#[test]
fn conversion_queries_split_into_number_and_units() {
    assert_eq!(split_conversion("12 ft to m"), Some(("12".into(), "ft".into(), "m".into())));
    assert_eq!(split_conversion("  2 GB TO MB "), Some(("2".into(), "gb".into(), "mb".into())));
    assert_eq!(split_conversion("100 °F to °C"), Some(("100".into(), "°f".into(), "°c".into())));
    assert_eq!(split_conversion("12 ft to"), None);
    assert_eq!(split_conversion("12 to m"), None);
    assert_eq!(split_conversion("12 square ft to m"), None);
    assert_eq!(split_conversion("12 ft to square m"), None);
}

#[test]
fn units_are_looked_up_by_family() {
    assert_eq!(linear_unit("ft"), Some((UnitFamily::Length, 4)));
    assert_eq!(linear_unit("kg"), Some((UnitFamily::Mass, 1)));
    assert_eq!(linear_unit("mb"), Some((UnitFamily::Data, 2)));
    assert_eq!(linear_unit("usd"), None);
    assert_eq!(parse_temperature("°f"), Some(Temperature::Fahrenheit));
    assert_eq!(parse_temperature("c"), Some(Temperature::Celsius));
    assert_eq!(parse_temperature("k"), Some(Temperature::Kelvin));
    assert_eq!(parse_temperature("x"), None);
    assert_eq!(temperature_display_symbol(Temperature::Celsius), "°C");
    assert_eq!(temperature_display_symbol(Temperature::Kelvin), "K");
    assert_eq!(data_display_symbol("mb"), "MB");
    assert_eq!(data_display_symbol("b"), "B");
}

#[test]
fn tokenize_exec_strips_simple_field_code() {
    assert_eq!(tokenize_exec("firefox %u"), vec!["firefox".to_string()]);
}

#[test]
fn tokenize_exec_keeps_quoted_argument_with_space() {
    assert_eq!(tokenize_exec("\"my app\" --flag"), vec!["my app".to_string(), "--flag".to_string()]);
}

#[test]
fn tokenize_exec_removes_field_code_between_args() {
    assert_eq!(tokenize_exec("app %U file"), vec!["app".to_string(), "file".to_string()]);
}

#[test]
fn tokenize_exec_unescapes_double_percent() {
    assert_eq!(tokenize_exec("app %%literal"), vec!["app".to_string(), "%literal".to_string()]);
}

#[test]
fn tokenize_exec_multiple_quoted_args() {
    assert_eq!(tokenize_exec("app \"a b\" c"), vec!["app".to_string(), "a b".to_string(), "c".to_string()]);
}

#[test]
fn tokenize_exec_escaped_quote_inside_quotes() {
    assert_eq!(tokenize_exec("app \"a\\\"b\""), vec!["app".to_string(), "a\"b".to_string()]);
}

#[test]
fn tokenize_exec_nonstandard_steam_field_code_degrades() {
    assert_eq!(tokenize_exec("steam %command%"), vec!["steam".to_string(), "ommand".to_string()]);
}

#[test]
fn tokenize_exec_removes_all_defined_field_codes() {
    assert_eq!(
        tokenize_exec("app %f %F %u %U %d %D %n %N %i %c %k %v %m tail"),
        vec!["app".to_string(), "tail".to_string()]
    );
}

#[test]
fn tokenize_exec_keeps_an_empty_quoted_argument() {
    assert_eq!(tokenize_exec("app \"\" x"), vec!["app".to_string(), "".to_string(), "x".to_string()]);
    assert!(tokenize_exec("   ").is_empty());
}

#[test]
fn app_records_lower_case_their_search_fields() {
    let app = AppInfo::new(
        "firefox".into(),
        "Firefox".into(),
        Some("Web Browser".into()),
        vec!["Internet".into(), "WWW".into()],
        "firefox %u".into(),
        None,
    );
    assert_eq!(app.name_lower, "firefox");
    assert_eq!(app.generic_name_lower.as_deref(), Some("web browser"));
    assert_eq!(app.keywords_lower, vec!["internet", "www"]);
}

#[test]
fn desktop_entries_fill_defaults() {
    assert_eq!(split_keywords("a;;b;"), vec!["a", "b"]);
    let app = app_from_entry("org.example.App", None, None, Some("One;Two"), None, None);
    assert_eq!(app.id, "org.example.App");
    assert_eq!(app.name, "Unknown");
    assert_eq!(app.exec_line, "");
    assert_eq!(app.icon.as_deref(), Some("org.example.App"));
    assert_eq!(app.keywords_lower, vec!["one", "two"]);
}

#[test]
fn rewrite_leaves_text_without_calls_and_is_stable() {
    assert_eq!(rewrite_functions("2 + sqrt"), "2 + sqrt");
    let once = rewrite_functions("sqrt(16) + log(100) + abs(-2)");
    assert_eq!(once, "math::sqrt(16) + math::log10(100) + math::abs(-2)");
    assert_eq!(rewrite_functions(&once), once);
}
