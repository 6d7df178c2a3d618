use things_to_check::service::{index, index_for_query, message_for, slack_troubleshoot, ContentType, Reply};
use things_to_check::query::{parse_query, ItemQuery};
use things_to_check::things::{load_things, Things};

const BASE: &str = "http://localhost:8080/";

fn two_things() -> Things {
    Things::new(vec!["Is it plugged in?".to_string(), "Have you restarted it?".to_string()])
}

fn share_link(page: &Reply) -> String {
    let start = page.body.find("<a href=\"http").unwrap();
    let rest = &page.body[start..];
    let second = rest[1..].find("<a href=\"").unwrap() + 1 + "<a href=\"".len();
    let tail = &rest[second..];
    tail[..tail.find('"').unwrap()].to_string()
}

#[test]
fn item_selects_that_suggestion() {
    let things = two_things();
    let r = index(&things, &ItemQuery::from(1), BASE);
    assert_eq!(r.status, 200);
    assert_eq!(r.content_type, ContentType::Html);
    assert!(r.no_store);
    assert!(r.body.contains("<p>Have you restarted it?</p>"));
    assert!(!r.body.contains("plugged"));
    let again = index(&things, &ItemQuery::from(1), BASE);
    assert_eq!(r.body, again.body);
}

#[test]
fn item_out_of_range_is_not_found() {
    let things = two_things();
    let r = index(&things, &ItemQuery::from(2), BASE);
    assert_eq!(r.status, 404);
    assert!(r.no_store);
    assert_eq!(r.body, "Not found");
    assert_eq!(index(&things, &ItemQuery::from(usize::MAX), BASE).status, 404);
}

#[test]
fn empty_list_is_not_found() {
    let things = Things::new(Vec::new());
    assert_eq!(index(&things, &ItemQuery::default(), BASE).status, 404);
    assert_eq!(slack_troubleshoot(&things).status, 404);
}

#[test]
fn random_pages_cover_the_list() {
    let things = two_things();
    let mut seen = [false, false];
    for _ in 0..200 {
        let r = index(&things, &ItemQuery::default(), BASE);
        assert_eq!(r.status, 200);
        assert!(r.no_store);
        if r.body.contains("plugged in") {
            seen[0] = true;
        } else {
            assert!(r.body.contains("restarted"));
            seen[1] = true;
        }
    }
    assert_eq!(seen, [true, true]);
}

#[test]
fn share_link_round_trip() {
    let things = two_things();
    for k in 0..2 {
        let page = index(&things, &ItemQuery::from(k), BASE);
        let link = share_link(&page);
        assert_eq!(link, format!("{}?item={}", BASE, k));
        let url = url::Url::parse(&link).unwrap();
        let followed = index_for_query(&things, url.query().unwrap(), BASE);
        assert_eq!(followed.status, 200);
        assert_eq!(followed.body, page.body);
        assert_eq!(parse_query(url.query().unwrap()), Ok(ItemQuery::from(k)));
    }
}

#[test]
fn random_page_share_link_selects_it() {
    let things = two_things();
    let page = index(&things, &ItemQuery::default(), BASE);
    let link = share_link(&page);
    let url = url::Url::parse(&link).unwrap();
    let followed = index_for_query(&things, url.query().unwrap(), BASE);
    assert_eq!(followed.body, page.body);
}

#[test]
fn bad_query_is_rejected() {
    let things = two_things();
    let r = index_for_query(&things, "item=x", BASE);
    assert_eq!(r.status, 400);
    assert!(r.no_store);
    assert_eq!(index_for_query(&things, "item=5", BASE).status, 404);
    assert_eq!(index_for_query(&things, "", BASE).status, 200);
}

#[test]
fn bad_base_is_internal_error() {
    let things = two_things();
    let r = index(&things, &ItemQuery::from(0), "/relative");
    assert_eq!(r.status, 500);
    assert!(r.no_store);
}

#[test]
fn troubleshoot_replies_with_a_listed_suggestion() {
    let things = two_things();
    let mut seen = [false, false];
    for _ in 0..200 {
        let r = slack_troubleshoot(&things);
        assert_eq!(r.status, 200);
        assert_eq!(r.content_type, ContentType::Json);
        let value: serde_json::Value = serde_json::from_str(&r.body).unwrap();
        assert_eq!(value["response_type"], "in_channel");
        let text = value["text"].as_str().unwrap();
        if text == "Is it plugged in?" {
            seen[0] = true;
        } else {
            assert_eq!(text, "Have you restarted it?");
            seen[1] = true;
        }
    }
    assert_eq!(seen, [true, true]);
}

#[test]
fn message_for_exact_body() {
    let things = two_things();
    let r = message_for(&things, 0);
    assert_eq!(r.body, "{\"response_type\":\"in_channel\",\"text\":\"Is it plugged in?\"}");
    assert!(!r.no_store);
}

#[test]
fn loaded_list_serves_pages() {
    let things = load_things("- Is it plugged in?\n- Have you restarted it?\n").unwrap();
    let r = index(&things, &ItemQuery::from(1), BASE);
    assert!(r.body.contains("Have you restarted it?"));
}
