//! Rendering a suggestion: the links of a page, the HTML page itself, and
//! the JSON chat message.

use crate::query::{ItemQuery, query_text, to_query_string};
use vstd::prelude::*;
use vstd::string::*;

verus! {

/// The longest base address and query, in characters, that a link is built
/// from.
pub const MAX_LINK_CHARS: usize = 0x100_0000;

/// The address that results from parsing `base` as an absolute URL and
/// setting its query component to `query`; `None` where `base` is no
/// absolute URL.
pub uninterp spec fn url_with_query(base: Seq<char>, query: Seq<char>) -> Option<Seq<char>>;

/// Relies on `url::Url::parse`, `url::Url::set_query` and the conversion of
/// `url::Url` into its serialization: the outcome depends on the two texts
/// alone. The bounds keep the serialization's length within the `u32` that
/// `set_query` unwraps.
#[verifier::external_body]
fn url_set_query(base: &str, query: &str) -> (r: Option<String>)
    requires
        base@.len() <= MAX_LINK_CHARS,
        query@.len() <= MAX_LINK_CHARS,
    ensures
        r matches Some(link) ==> url_with_query(base@, query@) == Some(link@),
        r is None ==> url_with_query(base@, query@) is None,
{
    match url::Url::parse(base) {
        Ok(mut url) => {
            url.set_query(Some(query));
            Some(String::from(url))
        },
        Err(_) => None,
    }
}

/// The link to the suggestion page at `base` with the query `query`; none
/// where either text is over `MAX_LINK_CHARS` or `base` is no absolute URL.
pub open spec fn link_to(base: Seq<char>, query: Seq<char>) -> Option<Seq<char>> {
    if base.len() <= MAX_LINK_CHARS && query.len() <= MAX_LINK_CHARS {
        url_with_query(base, query)
    } else {
        None
    }
}

/// The link to the suggestion page at `base` that makes the selection
/// `query`.
pub fn index_link(base: &str, query: &ItemQuery) -> (r: Option<String>)
    ensures
        r matches Some(link) ==> link_to(base@, query_text(query.item)) == Some(link@),
        r is None ==> link_to(base@, query_text(query.item)) is None,
{
    let text = to_query_string(query);
    if base.unicode_len() > MAX_LINK_CHARS || text.as_str().unicode_len() > MAX_LINK_CHARS {
        return None;
    }
    url_set_query(base, text.as_str())
}

/// The link that shares the suggestion at position `idx`.
pub fn suggestion_link(base: &str, idx: usize) -> (r: Option<String>)
    ensures
        r matches Some(link) ==> link_to(base@, query_text(Some(idx))) == Some(link@),
        r is None ==> link_to(base@, query_text(Some(idx))) is None,
{
    index_link(base, &ItemQuery::from(idx))
}

/// The link that asks for another random suggestion.
pub fn new_suggestion_link(base: &str) -> (r: Option<String>)
    ensures
        r matches Some(link) ==> link_to(base@, query_text(None)) == Some(link@),
        r is None ==> link_to(base@, query_text(None)) is None,
{
    index_link(base, &ItemQuery::default())
}

/// The text that stands for `c` in an HTML attribute value.
pub open spec fn html_escape_char(c: char) -> Seq<char> {
    if c == '&' {
        seq!['&', 'a', 'm', 'p', ';']
    } else if c == '<' {
        seq!['&', 'l', 't', ';']
    } else if c == '>' {
        seq!['&', 'g', 't', ';']
    } else if c == '"' {
        seq!['&', 'q', 'u', 'o', 't', ';']
    } else if c == '\'' {
        seq!['&', '#', 'x', '2', '7', ';']
    } else {
        seq![c]
    }
}

/// `s` with the characters that HTML treats specially replaced by
/// character references.
pub open spec fn html_escape(s: Seq<char>) -> Seq<char>
    decreases s.len(),
{
    if s.len() == 0 {
        Seq::empty()
    } else {
        html_escape(s.drop_last()) + html_escape_char(s.last())
    }
}

/// Appends `s`, escaped for an HTML attribute value, to `out`.
pub fn push_html_escaped(out: &mut String, s: &str)
    ensures
        final(out)@ == old(out)@ + html_escape(s@),
{
    let n = s.unicode_len();
    let mut i: usize = 0;
    while i < n
        invariant
            n == s@.len(),
            i <= n,
            out@ == old(out)@ + html_escape(s@.subrange(0, i as int)),
        decreases n - i,
    {
        proof {
            reveal_strlit("&amp;");
            reveal_strlit("&lt;");
            reveal_strlit("&gt;");
            reveal_strlit("&quot;");
            reveal_strlit("&#x27;");
        }
        let c = s.get_char(i);
        assert(s@.subrange(0, i + 1).drop_last() =~= s@.subrange(0, i as int));
        let ghost before = out@;
        if c == '&' {
            out.append("&amp;");
            assert(out@ =~= before + html_escape_char(c));
        } else if c == '<' {
            out.append("&lt;");
            assert(out@ =~= before + html_escape_char(c));
        } else if c == '>' {
            out.append("&gt;");
            assert(out@ =~= before + html_escape_char(c));
        } else if c == '"' {
            out.append("&quot;");
            assert(out@ =~= before + html_escape_char(c));
        } else if c == '\'' {
            out.append("&#x27;");
            assert(out@ =~= before + html_escape_char(c));
        } else {
            let one = s.substring_char(i, i + 1);
            assert(one@ =~= seq![c]);
            out.append(one);
            assert(out@ =~= before + html_escape_char(c));
        }
        assert(out@ =~= before + html_escape_char(c));
        i = i + 1;
    }
    assert(s@.subrange(0, n as int) =~= s@);
}

/// The page before the suggestion.
pub open spec fn page_head() -> Seq<char> {
    "<!DOCTYPE html>\n<html lang=\"en\">\n<head>\n<meta charset=\"utf-8\">\n<title>Things to check</title>\n</head>\n<body>\n<main>\n"@
}

/// The page between the suggestion and the link to another one.
pub open spec fn page_another() -> Seq<char> {
    "</main>\n<nav>\n<a href=\""@
}

/// The page between the two links.
pub open spec fn page_share() -> Seq<char> {
    "\">Suggest another</a>\n<a href=\""@
}

/// The page after the link that shares the suggestion.
pub open spec fn page_tail() -> Seq<char> {
    "\">Share this one</a>\n</nav>\n</body>\n</html>\n"@
}

/// The HTML page that shows the rendered suggestion `html`, with a link
/// `another` to another suggestion and a link `share` to this one.
pub open spec fn page_html(html: Seq<char>, another: Seq<char>, share: Seq<char>) -> Seq<char> {
    page_head() + html + page_another() + html_escape(another) + page_share() + html_escape(
        share,
    ) + page_tail()
}

/// The HTML page that shows the rendered suggestion `html`, with a link
/// `another` to another suggestion and a link `share` to this one.
pub fn render_page(html: &str, another: &str, share: &str) -> (r: String)
    ensures
        r@ == page_html(html@, another@, share@),
{
    let mut out = String::new();
    out.append("<!DOCTYPE html>\n<html lang=\"en\">\n<head>\n<meta charset=\"utf-8\">\n<title>Things to check</title>\n</head>\n<body>\n<main>\n");
    out.append(html);
    out.append("</main>\n<nav>\n<a href=\"");
    push_html_escaped(&mut out, another);
    out.append("\">Suggest another</a>\n<a href=\"");
    push_html_escaped(&mut out, share);
    out.append("\">Share this one</a>\n</nav>\n</body>\n</html>\n");
    assert(out@ =~= page_html(html@, another@, share@));
    out
}

/// The lowercase hexadecimal digit for `d < 16`.
pub open spec fn hex_char(d: nat) -> char {
    seq!['0', '1', '2', '3', '4', '5', '6', '7', '8', '9', 'a', 'b', 'c', 'd', 'e', 'f'][d as int]
}

/// The text that stands for `c` inside a JSON string.
pub open spec fn json_escape_char(c: char) -> Seq<char> {
    if c == '"' {
        seq!['\\', '"']
    } else if c == '\\' {
        seq!['\\', '\\']
    } else if c == '\n' {
        seq!['\\', 'n']
    } else if c == '\r' {
        seq!['\\', 'r']
    } else if c == '\t' {
        seq!['\\', 't']
    } else if c == '\u{8}' {
        seq!['\\', 'b']
    } else if c == '\u{c}' {
        seq!['\\', 'f']
    } else if (c as u32) < 0x20 {
        seq!['\\', 'u', '0', '0', hex_char((c as u32 / 16) as nat), hex_char((c as u32 % 16) as nat)]
    } else {
        seq![c]
    }
}

/// The contents of the JSON string that denotes `s`.
pub open spec fn json_escape(s: Seq<char>) -> Seq<char>
    decreases s.len(),
{
    if s.len() == 0 {
        Seq::empty()
    } else {
        json_escape(s.drop_last()) + json_escape_char(s.last())
    }
}

fn hex_str(d: u32) -> (r: &'static str)
    requires
        d < 16,
    ensures
        r@ == seq![hex_char(d as nat)],
{
    proof {
        reveal_strlit("0");
        reveal_strlit("1");
        reveal_strlit("2");
        reveal_strlit("3");
        reveal_strlit("4");
        reveal_strlit("5");
        reveal_strlit("6");
        reveal_strlit("7");
        reveal_strlit("8");
        reveal_strlit("9");
        reveal_strlit("a");
        reveal_strlit("b");
        reveal_strlit("c");
        reveal_strlit("d");
        reveal_strlit("e");
        reveal_strlit("f");
    }
    let r = match d {
        0 => "0",
        1 => "1",
        2 => "2",
        3 => "3",
        4 => "4",
        5 => "5",
        6 => "6",
        7 => "7",
        8 => "8",
        9 => "9",
        10 => "a",
        11 => "b",
        12 => "c",
        13 => "d",
        14 => "e",
        _ => "f",
    };
    assert(r@ =~= seq![hex_char(d as nat)]);
    r
}

/// Appends `s`, escaped as the contents of a JSON string, to `out`.
pub fn push_json_escaped(out: &mut String, s: &str)
    ensures
        final(out)@ == old(out)@ + json_escape(s@),
{
    let n = s.unicode_len();
    let mut i: usize = 0;
    while i < n
        invariant
            n == s@.len(),
            i <= n,
            out@ == old(out)@ + json_escape(s@.subrange(0, i as int)),
        decreases n - i,
    {
        proof {
            reveal_strlit("\\\"");
            reveal_strlit("\\\\");
            reveal_strlit("\\n");
            reveal_strlit("\\r");
            reveal_strlit("\\t");
            reveal_strlit("\\b");
            reveal_strlit("\\f");
            reveal_strlit("\\u00");
        }
        let c = s.get_char(i);
        assert(s@.subrange(0, i + 1).drop_last() =~= s@.subrange(0, i as int));
        let ghost before = out@;
        if c == '"' {
            out.append("\\\"");
            assert(out@ =~= before + json_escape_char(c));
        } else if c == '\\' {
            out.append("\\\\");
            assert(out@ =~= before + json_escape_char(c));
        } else if c == '\n' {
            out.append("\\n");
            assert(out@ =~= before + json_escape_char(c));
        } else if c == '\r' {
            out.append("\\r");
            assert(out@ =~= before + json_escape_char(c));
        } else if c == '\t' {
            out.append("\\t");
            assert(out@ =~= before + json_escape_char(c));
        } else if c == '\u{8}' {
            out.append("\\b");
            assert(out@ =~= before + json_escape_char(c));
        } else if c == '\u{c}' {
            out.append("\\f");
            assert(out@ =~= before + json_escape_char(c));
        } else if (c as u32) < 0x20 {
            out.append("\\u00");
            out.append(hex_str(c as u32 / 16));
            out.append(hex_str(c as u32 % 16));
            assert(out@ =~= before + json_escape_char(c));
        } else {
            let one = s.substring_char(i, i + 1);
            assert(one@ =~= seq![c]);
            out.append(one);
            assert(out@ =~= before + json_escape_char(c));
        }
        assert(out@ =~= before + json_escape_char(c));
        i = i + 1;
    }
    assert(s@.subrange(0, n as int) =~= s@);
}

/// The chat message before the suggestion's text.
pub open spec fn message_head() -> Seq<char> {
    "{\"response_type\":\"in_channel\",\"text\":\""@
}

/// The chat message after the suggestion's text.
pub open spec fn message_tail() -> Seq<char> {
    "\"}"@
}

/// The JSON chat message, posted to the whole channel, whose text is `text`.
pub open spec fn message_json(text: Seq<char>) -> Seq<char> {
    message_head() + json_escape(text) + message_tail()
}

/// The JSON chat message, posted to the whole channel, whose text is the
/// markdown `text`, unchanged.
pub fn chat_message(text: &str) -> (r: String)
    ensures
        r@ == message_json(text@),
{
    let mut out = String::new();
    out.append("{\"response_type\":\"in_channel\",\"text\":\"");
    push_json_escaped(&mut out, text);
    out.append("\"}");
    assert(out@ =~= message_json(text@));
    out
}

/// The character that the escape `\e` stands for in a JSON string, for the
/// escapes of a single character after the backslash.
pub open spec fn json_short_escape(e: char) -> Option<char> {
    if e == '"' {
        Some('"')
    } else if e == '\\' {
        Some('\\')
    } else if e == '/' {
        Some('/')
    } else if e == 'n' {
        Some('\n')
    } else if e == 'r' {
        Some('\r')
    } else if e == 't' {
        Some('\t')
    } else if e == 'b' {
        Some('\u{8}')
    } else if e == 'f' {
        Some('\u{c}')
    } else {
        None
    }
}

/// The value of a hexadecimal digit, in either case.
pub open spec fn hex_value(c: char) -> Option<nat> {
    if '0' <= c && c <= '9' {
        Some(((c as u32) - ('0' as u32)) as nat)
    } else if 'a' <= c && c <= 'f' {
        Some(((c as u32) - ('a' as u32) + 10) as nat)
    } else if 'A' <= c && c <= 'F' {
        Some(((c as u32) - ('A' as u32) + 10) as nat)
    } else {
        None
    }
}

/// The code point of `c`.
pub open spec fn char_code(c: char) -> nat {
    c as u32 as nat
}

/// The character whose code is written by the four hexadecimal digits `h`,
/// where there is one (a surrogate half alone denotes none).
pub open spec fn unicode_escape(h: Seq<char>) -> Option<char> {
    if h.len() == 4 && hex_value(h[0]) is Some && hex_value(h[1]) is Some && hex_value(h[2]) is Some
        && hex_value(h[3]) is Some {
        let v = ((hex_value(h[0])->Some_0 * 16 + hex_value(h[1])->Some_0) * 16 + hex_value(
            h[2],
        )->Some_0) * 16 + hex_value(h[3])->Some_0;
        if exists|c: char| #[trigger] char_code(c) == v {
            Some(choose|c: char| #[trigger] char_code(c) == v)
        } else {
            None
        }
    } else {
        None
    }
}

/// The first character that the contents `s` of a JSON string denote, and
/// how many characters of `s` stand for it; none where `s` does not start
/// with a valid character or escape.
pub open spec fn json_next(s: Seq<char>) -> Option<(char, int)> {
    if s.len() == 0 {
        None
    } else if s[0] == '\\' {
        if s.len() >= 2 && json_short_escape(s[1]) is Some {
            Some((json_short_escape(s[1])->Some_0, 2))
        } else if s.len() >= 6 && s[1] == 'u' && unicode_escape(s.subrange(2, 6)) is Some {
            Some((unicode_escape(s.subrange(2, 6))->Some_0, 6))
        } else {
            None
        }
    } else if s[0] == '"' || (s[0] as u32) < 0x20 {
        None
    } else {
        Some((s[0], 1))
    }
}

/// The text that the contents `s` of a JSON string denote; none where `s`
/// is not the contents of a JSON string.
pub open spec fn json_unescape(s: Seq<char>) -> Option<Seq<char>>
    decreases s.len(),
{
    if s.len() == 0 {
        Some(Seq::empty())
    } else {
        match json_next(s) {
            Some((c, n)) => if 1 <= n <= s.len() {
                match json_unescape(s.subrange(n, s.len() as int)) {
                    Some(t) => Some(seq![c] + t),
                    None => None,
                }
            } else {
                None
            },
            None => None,
        }
    }
}

proof fn lemma_json_escape_concat(a: Seq<char>, b: Seq<char>)
    ensures
        json_escape(a + b) == json_escape(a) + json_escape(b),
    decreases b.len(),
{
    if b.len() == 0 {
        assert(a + b =~= a);
        assert(json_escape(a) + json_escape(b) =~= json_escape(a));
    } else {
        lemma_json_escape_concat(a, b.drop_last());
        assert((a + b).drop_last() =~= a + b.drop_last());
        assert((a + b).last() == b.last());
        assert(json_escape(a + b) =~= json_escape(a) + json_escape(b));
    }
}

proof fn lemma_hex_char_value(d: nat)
    requires
        d < 16,
    ensures
        hex_value(hex_char(d)) == Some(d),
{
    let h = seq!['0', '1', '2', '3', '4', '5', '6', '7', '8', '9', 'a', 'b', 'c', 'd', 'e', 'f'];
    assert(hex_char(d) == h[d as int]);
    if d < 8 {
        if d < 4 {
            assert(d == 0 || d == 1 || d == 2 || d == 3);
        } else {
            assert(d == 4 || d == 5 || d == 6 || d == 7);
        }
    } else {
        if d < 12 {
            assert(d == 8 || d == 9 || d == 10 || d == 11);
        } else {
            assert(d == 12 || d == 13 || d == 14 || d == 15);
        }
    }
}

proof fn lemma_json_next_escape(c: char, t: Seq<char>)
    ensures
        json_next(json_escape_char(c) + t) == Some((c, json_escape_char(c).len() as int)),
{
    let e = json_escape_char(c);
    let s = e + t;
    assert(s.subrange(0, e.len() as int) =~= e);
    assert(s[0] == e[0]);
    if e.len() >= 2 {
        assert(s[1] == e[1]);
    }
    if c != '"' && c != '\\' && c != '\n' && c != '\r' && c != '\t' && c != '\u{8}' && c != '\u{c}'
        && (c as u32) < 0x20 {
        let hi = (c as u32 / 16) as nat;
        let lo = (c as u32 % 16) as nat;
        lemma_hex_char_value(hi);
        lemma_hex_char_value(lo);
        let h = s.subrange(2, 6);
        assert(h[0] == '0' && h[1] == '0' && h[2] == hex_char(hi) && h[3] == hex_char(lo));
        let v = ((0nat * 16 + 0nat) * 16 + hi) * 16 + lo;
        assert(v == char_code(c));
        assert(exists|x: char| #[trigger] char_code(x) == v);
        let x = choose|x: char| #[trigger] char_code(x) == v;
        vstd::utf8::char_u32_cast(x, x as u32);
        vstd::utf8::char_u32_cast(c, c as u32);
        assert(x == c);
    }
}

/// The contents of the JSON string written for `s` denote `s` again.
pub proof fn lemma_json_round_trip(s: Seq<char>)
    ensures
        json_unescape(json_escape(s)) == Some(s),
    decreases s.len(),
{
    if s.len() > 0 {
        let c = s[0];
        let rest = s.drop_first();
        assert(s =~= seq![c] + rest);
        lemma_json_escape_concat(seq![c], rest);
        assert(seq![c].drop_last() =~= Seq::<char>::empty());
        assert(json_escape(Seq::<char>::empty()) == Seq::<char>::empty());
        assert(seq![c].last() == c);
        assert(json_escape(seq![c]) =~= json_escape_char(c));
        let e = json_escape_char(c);
        let out = json_escape(s);
        assert(out == e + json_escape(rest));
        lemma_json_next_escape(c, json_escape(rest));
        assert(out.subrange(e.len() as int, out.len() as int) =~= json_escape(rest));
        lemma_json_round_trip(rest);
    }
}

/// The chat message for `text` is the JSON object whose `response_type` is
/// `in_channel` and whose `text` string denotes exactly `text`.
pub proof fn lemma_message_text(text: Seq<char>)
    ensures
        message_json(text) == message_head() + json_escape(text) + message_tail(),
        json_unescape(json_escape(text)) == Some(text),
{
    lemma_json_round_trip(text);
}

} // verus!
