use rex_cli::autorun::{
    backoff_delay, escape_html, extract_url, format_duration_ms, is_auth_error, is_retryable, item_tag,
    operator_json, retry_delay,
};
use rex_cli::chat::{format_chat_response, format_error, parse_project_prefix, shell_escape};
use rex_cli::commands::{nullable, render_resources_md, sanitize_field, validate_no_dot_in_id, ResourceRow};
use rex_cli::error::RexError;
use rex_cli::models::project::{Category, Complexity};
use rex_cli::selection::{
    apply_required, category_from_tab, compute_defaults, is_action_disabled, is_row_disabled, ItemList,
};

#[test]
fn html_is_escaped() {
    assert_eq!(escape_html("a<b>&c"), "a&lt;b&gt;&amp;c");
}

#[test]
fn auth_and_retry_classification() {
    assert!(is_auth_error("OAuth token has EXPIRED"));
    assert!(is_auth_error("HTTP 401: bad token"));
    assert!(!is_auth_error("HTTP 401"));
    assert!(is_retryable("Rate Limit reached"));
    assert!(!is_retryable("syntax error"));
}

#[test]
fn operator_json_takes_last_balanced_object() {
    let text = "noise {\"status\":\"x\"} more {\"status\":\"completed\",\"message\":\"a {b}\"} tail";
    assert_eq!(operator_json(text).unwrap(), "{\"status\":\"completed\",\"message\":\"a {b}\"}");
    assert!(operator_json("no marker").unwrap_err().contains("no operator result JSON"));
    assert!(operator_json("{\"state\":\"x\"}").unwrap_err().contains("no operator result JSON"));
    assert_eq!(
        operator_json("{\"status\":\"x\"").unwrap_err(),
        "no matching closing brace for operator result JSON"
    );
}

#[test]
fn delays_double_and_cap() {
    assert_eq!(retry_delay(0), 30);
    assert_eq!(retry_delay(1), 30);
    assert_eq!(retry_delay(3), 120);
    assert_eq!(retry_delay(5), 480);
    assert_eq!(retry_delay(1000), 480);
    assert_eq!(backoff_delay(2), 20);
    assert_eq!(backoff_delay(9), 80);
}

#[test]
fn small_formatters() {
    assert_eq!(item_tag(""), "");
    assert_eq!(item_tag("a<b"), "  ·  <code>a&lt;b</code>");
    assert_eq!(format_duration_ms(59_999), "59s");
    assert_eq!(format_duration_ms(125_000), "2m 5s");
    assert_eq!(extract_url("open https://x.io/a?b=1 now"), Some("https://x.io/a?b=1".to_owned()));
    assert_eq!(extract_url("<https://x.io>"), Some("https://x.io".to_owned()));
    assert_eq!(extract_url("http://x.io"), None);
    assert_eq!(shell_escape("it's"), "'it'\\''s'");
}

#[test]
fn project_prefix_parsing() {
    let ids = vec!["alpha".to_owned(), "beta".to_owned()];
    assert_eq!(parse_project_prefix("alpha: do it ", &ids), Some(("alpha".to_owned(), "do it")));
    assert_eq!(parse_project_prefix("beta do it", &ids), Some(("beta".to_owned(), "do it")));
    assert_eq!(parse_project_prefix("gamma: x", &ids), None);
}

#[test]
fn chat_messages() {
    let long: String = "x".repeat(3001);
    let r = format_chat_response("p<1>", &long);
    assert!(r.starts_with("🗨️ <b>Rex Chat</b>  ·  <code>p&lt;1&gt;</code>\n"));
    assert!(r.ends_with("\n...\n\n<i>(truncated)</i>"));
    let e = format_error("p", "c1", "bad & worse");
    assert!(e.ends_with("\nbad &amp; worse"));
}

#[test]
fn command_helpers() {
    assert!(validate_no_dot_in_id("a-b").is_ok());
    match validate_no_dot_in_id("a.b") {
        Err(RexError::InvalidSlug { reason }) => {
            assert_eq!(reason, "id 'a.b' must not contain dots — reserved for dotted position addressing")
        }
        other => panic!("expected InvalidSlug, got {other:?}"),
    }
    assert_eq!(nullable(String::new()), None);
    assert_eq!(nullable("x".to_owned()), Some("x".to_owned()));
    assert_eq!(sanitize_field("a\nb\rc"), "a b c");
    let md = render_resources_md(&[ResourceRow { label: "Spec".to_owned(), url: "u\n".to_owned() }]);
    assert_eq!(md, "# Resources\n\n- **Spec** — u \n");
}

#[test]
fn picker_rules() {
    let d = compute_defaults(ItemList::Design, &Complexity::Low, &Category::Binary);
    assert_eq!(d.len(), 9);
    assert!(!d[0]);
    assert!(d[2]);
    let mut sel = vec![false; 9];
    apply_required(ItemList::Design, &mut sel, &Category::Refactor);
    assert!(sel[0] && sel[2] && sel[3] && sel[6] && sel[7]);
    assert!(!sel[1]);
    assert!(is_action_disabled(ItemList::Design, 1, &sel, &Category::Refactor));
    assert!(!is_action_disabled(ItemList::Design, 0, &sel, &Category::Refactor));
    assert!(is_row_disabled(ItemList::Design, 4, &sel, &Category::Refactor));
    assert!(!is_row_disabled(ItemList::Design, 3, &sel, &Category::Refactor));
    assert_eq!(category_from_tab(0), Category::Library);
    let o = compute_defaults(ItemList::Onboarding, &Complexity::High, &Category::Library);
    assert!(o.iter().all(|b| *b));
}

#[test]
fn operator_json_skips_braces_inside_strings() {
    let text = r#"done {"status":"completed","message":"fixed } bug"}"#;
    assert_eq!(operator_json(text).unwrap(), r#"{"status":"completed","message":"fixed } bug"}"#);
    let escaped = r#"x {"status":"error","message":"say \"}\" twice"} tail"#;
    assert_eq!(operator_json(escaped).unwrap(), r#"{"status":"error","message":"say \"}\" twice"}"#);
    assert_eq!(
        operator_json(r#"{"status":"completed","message":"open {"#).unwrap_err(),
        "no matching closing brace for operator result JSON"
    );
}

#[test]
fn operator_result_span_locates_the_last_object() {
    let text = r#"a {"status":"error"} b {"status":"completed","message":"x } y"} tail"#;
    let (a, b) = rex_cli::autorun::operator_result_span(text).unwrap();
    let chars: Vec<char> = text.chars().collect();
    let cut: String = chars[a..b].iter().collect();
    assert_eq!(cut, r#"{"status":"completed","message":"x } y"}"#);
    assert_eq!(rex_cli::autorun::operator_result_span("no marker here"), None);
    assert_eq!(rex_cli::autorun::operator_result_span(r#"{"status":"open"#), None);
}
