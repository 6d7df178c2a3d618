use things_to_check::render::{chat_message, index_link, new_suggestion_link, push_html_escaped, push_json_escaped, render_page, suggestion_link};
use things_to_check::query::ItemQuery;

#[test]
fn links_carry_the_selection() {
    assert_eq!(suggestion_link("http://localhost:8080/", 1), Some("http://localhost:8080/?item=1".to_string()));
    assert_eq!(new_suggestion_link("http://localhost:8080/"), Some("http://localhost:8080/?".to_string()));
    assert_eq!(
        index_link("https://example.com/things?old=1", &ItemQuery::from(42)),
        Some("https://example.com/things?item=42".to_string())
    );
}

#[test]
fn links_need_an_absolute_base() {
    assert_eq!(suggestion_link("not a url", 1), None);
    assert_eq!(new_suggestion_link(""), None);
}

#[test]
fn html_escaping() {
    let mut out = String::from(">");
    push_html_escaped(&mut out, "a&b<c>\"d'e");
    assert_eq!(out, ">a&amp;b&lt;c&gt;&quot;d&#x27;e");
    let mut out = String::new();
    push_html_escaped(&mut out, "");
    assert_eq!(out, "");
}

#[test]
fn json_escaping() {
    let mut out = String::new();
    push_json_escaped(&mut out, "q\"b\\n\nr\rt\tb\u{8}f\u{c}u\u{1}\u{1f}é");
    assert_eq!(out, "q\\\"b\\\\n\\nr\\rt\\tb\\bf\\fu\\u0001\\u001fé");
}

#[test]
fn chat_message_is_json() {
    let text = "Is it *plugged* in? \"Really\"\n\u{7}";
    let message = chat_message(text);
    let value: serde_json::Value = serde_json::from_str(&message).unwrap();
    assert_eq!(value["response_type"], "in_channel");
    assert_eq!(value["text"], text);
    assert_eq!(value.as_object().unwrap().len(), 2);
}

#[test]
fn chat_message_matches_serde_json() {
    let text = "tab\there \u{0} <b>bold</b> \\ \u{7f}";
    let expected = format!("{{\"response_type\":\"in_channel\",\"text\":{}}}", serde_json::to_string(text).unwrap());
    assert_eq!(chat_message(text), expected);
}

#[test]
fn page_layout() {
    let page = render_page("<p>Hi</p>\n", "http://h/?", "http://h/?item=0&x=1");
    assert!(page.starts_with("<!DOCTYPE html>"));
    assert!(page.contains("<main>\n<p>Hi</p>\n</main>"));
    assert!(page.contains("<a href=\"http://h/?\">Suggest another</a>"));
    assert!(page.contains("<a href=\"http://h/?item=0&amp;x=1\">Share this one</a>"));
    assert!(page.ends_with("</html>\n"));
}
