use peek::html::{escape_html, fill};
use peek::relay::pages::{password, status};
use peek::text::{
    parse_decimal, push_decimal, same_ignoring_case, same_text, split_once, split_text, to_lower,
};

#[test]
fn pages_escapes_html_control_characters() {
    assert_eq!(
        escape_html(r#"<script x="1">'&</script>"#),
        "&lt;script x=&quot;1&quot;&gt;&#39;&amp;&lt;/script&gt;"
    );
}

#[test]
fn escaping_twice_escapes_the_ampersand() {
    assert_eq!(escape_html("&lt;"), "&amp;lt;");
}

#[test]
fn templates_are_filled_everywhere() {
    assert_eq!(fill("{{A}}-{{A}}-{A}", "{{A}}", "x"), "x-x-{A}");
    assert_eq!(fill("aaa", "aa", "b"), "ba");
}

#[test]
fn password_page_from_template_tells_the_error() {
    let reply = password(Some("<wrong>"));
    assert_eq!(reply.status, 200);
    assert_eq!(
        reply.headers,
        vec![(
            "content-type".to_string(),
            "text/html; charset=utf-8".to_string()
        )]
    );
    let page = String::from_utf8(reply.body).unwrap();
    assert!(page.contains("<p class=\"error\">&lt;wrong&gt;</p>"));
    assert!(!page.contains("{{"));
    let page = String::from_utf8(password(None).body).unwrap();
    assert!(!page.contains("<p class=\"error\">"));
}

#[test]
fn status_page_from_template_tells_the_message() {
    let reply = status("a & b");
    assert_eq!(reply.status, 200);
    let page = String::from_utf8(reply.body).unwrap();
    assert!(page.contains("<h1>a &amp; b</h1>"));
    assert!(!page.contains("{{"));
}

#[test]
fn decimal_numbers_read_back() {
    for n in [0, 7, 10, 65535, u64::MAX] {
        let mut text = String::new();
        push_decimal(&mut text, n);
        assert_eq!(text, n.to_string());
        assert_eq!(parse_decimal(&text, u64::MAX), Some(n));
    }
}

#[test]
fn decimal_numbers_are_checked() {
    assert_eq!(parse_decimal("+12", 100), Some(12));
    assert_eq!(parse_decimal("007", 100), Some(7));
    assert_eq!(parse_decimal("101", 100), None);
    assert_eq!(parse_decimal("", 100), None);
    assert_eq!(parse_decimal("+", 100), None);
    assert_eq!(parse_decimal("-1", 100), None);
    assert_eq!(parse_decimal("1 ", 100), None);
    assert_eq!(parse_decimal("99999999999999999999999999", u64::MAX), None);
}

#[test]
fn only_ascii_letters_change_case() {
    assert_eq!(to_lower("AbZ-Ä"), "abz-Ä");
    assert!(same_ignoring_case("HOST", "host"));
    assert!(!same_ignoring_case("Ä", "ä"));
    assert!(same_text("ä", "ä"));
    assert!(!same_text("a", "ab"));
}

#[test]
fn text_is_split() {
    assert_eq!(split_text("a,,b,", ','), vec!["a", "", "b", ""]);
    assert_eq!(split_text("", ','), vec![""]);
    assert_eq!(
        split_once("a=b=c", '='),
        Some(("a".to_string(), "b=c".to_string()))
    );
    assert_eq!(split_once("abc", '='), None);
}
