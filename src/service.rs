//! The two endpoints, as functions from the suggestion list and the
//! request's data to a reply: `GET /`, an HTML page showing one suggestion,
//! and `POST /troubleshoot`, a JSON chat message holding one.

use crate::query::{ItemQuery, QueryError, parse_query, query_text, selection, lemma_query_round_trip};
use crate::render::{chat_message, link_to, message_json, new_suggestion_link, page_head, page_html, render_page, suggestion_link};
use crate::things::{Things, markdown_html};
use vstd::prelude::*;
use vstd::string::*;

verus! {

/// The media type of a reply's body.
#[derive(Clone, Copy, Debug, PartialEq, Eq)]
pub enum ContentType {
    Html,
    Json,
    PlainText,
}

/// An HTTP reply: status code, media type, whether caches must not store
/// it, and body.
#[derive(Debug)]
pub struct Reply {
    pub status: u16,
    pub content_type: ContentType,
    pub no_store: bool,
    pub body: String,
}

/// What a reply holds, with the body as text.
pub struct ReplyView {
    pub status: u16,
    pub content_type: ContentType,
    pub no_store: bool,
    pub body: Seq<char>,
}

impl View for Reply {
    type V = ReplyView;

    open spec fn view(&self) -> ReplyView {
        ReplyView {
            status: self.status,
            content_type: self.content_type,
            no_store: self.no_store,
            body: self.body@,
        }
    }
}

/// The body of a reply for a suggestion that does not exist.
pub open spec fn not_found_text() -> Seq<char> {
    "Not found"@
}

/// The body of a reply for a query that does not parse.
pub open spec fn bad_query_text() -> Seq<char> {
    "Invalid item parameter"@
}

/// The body of a reply for a page whose links could not be built.
pub open spec fn link_failure_text() -> Seq<char> {
    "Unable to generate URL"@
}

/// The reply for a suggestion that does not exist.
pub open spec fn not_found(no_store: bool) -> ReplyView {
    ReplyView {
        status: 404,
        content_type: ContentType::PlainText,
        no_store,
        body: not_found_text(),
    }
}

/// The reply to `GET /` with a query that does not parse.
pub open spec fn bad_query() -> ReplyView {
    ReplyView { status: 400, content_type: ContentType::PlainText, no_store: true, body: bad_query_text() }
}

/// The reply to `GET /` that shows the suggestion at position `k`, with
/// links built from the page's own address `base`.
pub open spec fn page_reply(things: Seq<Seq<char>>, k: int, base: Seq<char>) -> ReplyView {
    match (link_to(base, query_text(None)), link_to(base, query_text(Some(k as usize)))) {
        (Some(another), Some(share)) => ReplyView {
            status: 200,
            content_type: ContentType::Html,
            no_store: true,
            body: page_html(markdown_html(things[k]), another, share),
        },
        _ => ReplyView {
            status: 500,
            content_type: ContentType::PlainText,
            no_store: true,
            body: link_failure_text(),
        },
    }
}

/// The reply to `GET /?item=k`.
pub open spec fn item_reply(things: Seq<Seq<char>>, k: usize, base: Seq<char>) -> ReplyView {
    if k < things.len() {
        page_reply(things, k as int, base)
    } else {
        not_found(true)
    }
}

/// The reply to `POST /troubleshoot` that carries the suggestion at
/// position `k`.
pub open spec fn message_reply(things: Seq<Seq<char>>, k: int) -> ReplyView {
    ReplyView {
        status: 200,
        content_type: ContentType::Json,
        no_store: false,
        body: message_json(things[k]),
    }
}

fn not_found_reply(no_store: bool) -> (r: Reply)
    ensures
        r@ == not_found(no_store),
{
    Reply {
        status: 404,
        content_type: ContentType::PlainText,
        no_store,
        body: String::from_str("Not found"),
    }
}

/// The page that shows the suggestion at position `k`, with links built
/// from the page's own address `base`.
pub fn index_page(things: &Things, k: usize, base: &str) -> (r: Reply)
    requires
        things.wf(),
        k < things@.len(),
    ensures
        r@ == page_reply(things@, k as int, base@),
{
    let another = new_suggestion_link(base);
    let share = suggestion_link(base, k);
    match (another, share) {
        (Some(another), Some(share)) => {
            let thing = things.thing(k);
            let body = render_page(thing.html.as_str(), another.as_str(), share.as_str());
            Reply { status: 200, content_type: ContentType::Html, no_store: true, body }
        },
        _ => Reply {
            status: 500,
            content_type: ContentType::PlainText,
            no_store: true,
            body: String::from_str("Unable to generate URL"),
        },
    }
}

/// The reply to `GET /` with the selection `query`, on the page whose own
/// address is `base`. A selected position shows that suggestion, or is not
/// found; no selection shows a suggestion drawn at random. The reply is
/// never to be stored by caches.
pub fn index(things: &Things, query: &ItemQuery, base: &str) -> (r: Reply)
    requires
        things.wf(),
    ensures
        r@.no_store,
        query.item matches Some(k) ==> r@ == item_reply(things@, k, base@),
        query.item is None && things@.len() == 0 ==> r@ == not_found(true),
        query.item is None && things@.len() > 0 ==> exists|d: usize|
            d < things@.len() && r@ == #[trigger] item_reply(things@, d, base@),
{
    match things.select(query.item) {
        Some(k) => {
            let r = index_page(things, k, base);
            assert(r@ == item_reply(things@, k, base@));
            r
        },
        None => not_found_reply(true),
    }
}

/// The reply to `GET /` whose raw query string is `query`: as `index` for
/// the selection it makes, or a bad request where it makes none.
pub fn index_for_query(things: &Things, query: &str, base: &str) -> (r: Reply)
    requires
        things.wf(),
    ensures
        r@.no_store,
        selection(query@) is Err ==> r@ == bad_query(),
        selection(query@) matches Ok(Some(k)) ==> r@ == item_reply(things@, k, base@),
        selection(query@) == Ok::<Option<usize>, QueryError>(None) && things@.len() == 0 ==> r@
            == not_found(true),
        selection(query@) == Ok::<Option<usize>, QueryError>(None) && things@.len() > 0 ==> exists|
            d: usize,
        | d < things@.len() && r@ == #[trigger] item_reply(things@, d, base@),
{
    match parse_query(query) {
        Ok(q) => index(things, &q, base),
        Err(_) => Reply {
            status: 400,
            content_type: ContentType::PlainText,
            no_store: true,
            body: String::from_str("Invalid item parameter"),
        },
    }
}

/// The chat message that carries the suggestion at position `k`.
pub fn message_for(things: &Things, k: usize) -> (r: Reply)
    requires
        things.wf(),
        k < things@.len(),
    ensures
        r@ == message_reply(things@, k as int),
{
    let thing = things.thing(k);
    Reply { status: 200, content_type: ContentType::Json, no_store: false, body: chat_message(thing.markdown.as_str()) }
}

/// The reply to `POST /troubleshoot`: a chat message with a suggestion drawn
/// at random, or not found for an empty list.
pub fn slack_troubleshoot(things: &Things) -> (r: Reply)
    requires
        things.wf(),
    ensures
        things@.len() == 0 ==> r@ == not_found(false),
        things@.len() > 0 ==> exists|d: int|
            0 <= d < things@.len() && r@ == #[trigger] message_reply(things@, d),
{
    match things.select(None) {
        Some(k) => {
            let r = message_for(things, k);
            assert(r@ == message_reply(things@, k as int));
            r
        },
        None => not_found_reply(false),
    }
}

/// Following the link that a page shares: the query that the link carries
/// selects the page's own position, and the reply to that selection is the
/// same page.
pub proof fn lemma_share_link_round_trip(things: Seq<Seq<char>>, k: usize, base: Seq<char>)
    requires
        k < things.len(),
    ensures
        selection(query_text(Some(k))) == Ok::<Option<usize>, QueryError>(Some(k)),
        item_reply(things, k, base) == page_reply(things, k as int, base),
{
    lemma_query_round_trip(Some(k));
}

/// A page for a listed position shows that position's suggestion, rendered,
/// right after the page head, whenever its links can be built.
pub proof fn lemma_item_page_shows_entry(things: Seq<Seq<char>>, k: usize, base: Seq<char>)
    requires
        k < things.len(),
        link_to(base, query_text(None)) is Some,
        link_to(base, query_text(Some(k))) is Some,
    ensures
        item_reply(things, k, base).status == 200,
        item_reply(things, k, base).body.subrange(
            page_head().len() as int,
            (page_head().len() + markdown_html(things[k as int]).len()) as int,
        ) == markdown_html(things[k as int]),
{
    let html = markdown_html(things[k as int]);
    let body = item_reply(things, k, base).body;
    let h = page_head().len() as int;
    assert(body.subrange(h, h + html.len()) =~= html) by {
        let another = link_to(base, query_text(None))->Some_0;
        let share = link_to(base, query_text(Some(k)))->Some_0;
        assert(body == page_html(html, another, share));
        assert forall|j: int| 0 <= j < html.len() implies body[h + j] == html[j] by {
            assert(body[h + j] == (page_head() + html)[h + j]);
        }
    }
}

} // verus!
