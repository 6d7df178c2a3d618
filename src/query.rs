//! The `item` query parameter: decimal numerals and the query string that
//! carries an optional suggestion position.

use vstd::prelude::*;
use vstd::string::*;

verus! {

/// Is `c` one of the ASCII digits `0` to `9`?
pub open spec fn is_digit(c: char) -> bool {
    '0' <= c && c <= '9'
}

/// The value of an ASCII digit.
pub open spec fn digit_value(c: char) -> nat {
    ((c as u32) - ('0' as u32)) as nat
}

/// The ASCII digit for `d`, for `d < 10`.
pub open spec fn digit_char(d: nat) -> char {
    seq!['0', '1', '2', '3', '4', '5', '6', '7', '8', '9'][d as int]
}

/// The value of a sequence of digits, most significant first.
pub open spec fn digits_value(s: Seq<char>) -> nat
    decreases s.len(),
{
    if s.len() == 0 {
        0
    } else {
        digits_value(s.drop_last()) * 10 + digit_value(s.last())
    }
}

/// The shortest decimal numeral for `n`.
pub open spec fn decimal(n: nat) -> Seq<char>
    decreases n,
{
    if n < 10 {
        seq![digit_char(n)]
    } else {
        decimal(n / 10).push(digit_char(n % 10))
    }
}

/// A non-empty sequence of ASCII digits.
pub open spec fn is_numeral(s: Seq<char>) -> bool {
    s.len() > 0 && forall|i: int| 0 <= i < s.len() ==> is_digit(#[trigger] s[i])
}

/// The `usize` that the numeral `s` denotes, if it is a numeral and fits.
pub open spec fn numeral_value(s: Seq<char>) -> Option<usize> {
    if is_numeral(s) && digits_value(s) <= usize::MAX {
        Some(digits_value(s) as usize)
    } else {
        None
    }
}

proof fn lemma_digit_char(d: nat)
    requires
        d < 10,
    ensures
        is_digit(digit_char(d)),
        digit_value(digit_char(d)) == d,
{
}

/// A numeral is at least as large as any of its prefixes.
proof fn lemma_prefix_value(s: Seq<char>, j: int)
    requires
        0 <= j <= s.len(),
    ensures
        digits_value(s.subrange(0, j)) <= digits_value(s),
    decreases s.len(),
{
    if j < s.len() {
        lemma_prefix_value(s.drop_last(), j);
        assert(s.drop_last().subrange(0, j) =~= s.subrange(0, j));
    } else {
        assert(s.subrange(0, j) =~= s);
    }
}

/// `decimal(n)` is a numeral whose value is `n`.
pub proof fn lemma_decimal_value(n: nat)
    ensures
        is_numeral(decimal(n)),
        digits_value(decimal(n)) == n,
    decreases n,
{
    if n < 10 {
        lemma_digit_char(n);
        assert(decimal(n).drop_last() =~= Seq::<char>::empty());
        assert(digits_value(Seq::<char>::empty()) == 0);
    } else {
        lemma_decimal_value(n / 10);
        lemma_digit_char(n % 10);
        assert(decimal(n).drop_last() =~= decimal(n / 10));
        assert(digits_value(decimal(n)) == (n / 10) * 10 + n % 10);
        assert((n / 10) * 10 + n % 10 == n) by (nonlinear_arith);
        assert forall|i: int| 0 <= i < decimal(n).len() implies is_digit(#[trigger] decimal(n)[i]) by {
            if i < decimal(n / 10).len() {
                assert(decimal(n)[i] == decimal(n / 10)[i]);
            }
        }
    }
}

fn digit_str(d: usize) -> (r: &'static str)
    requires
        d < 10,
    ensures
        r@ == seq![digit_char(d as nat)],
{
    proof {
        reveal_strlit("0");
        reveal_strlit("1");
        reveal_strlit("2");
        reveal_strlit("3");
        reveal_strlit("4");
        reveal_strlit("5");
        reveal_strlit("6");
        reveal_strlit("7");
        reveal_strlit("8");
        reveal_strlit("9");
    }
    let r = match d {
        0 => "0",
        1 => "1",
        2 => "2",
        3 => "3",
        4 => "4",
        5 => "5",
        6 => "6",
        7 => "7",
        8 => "8",
        _ => "9",
    };
    assert(r@ =~= seq![digit_char(d as nat)]);
    r
}

/// Appends the decimal numeral of `n` to `out`.
pub fn push_decimal(out: &mut String, n: usize)
    ensures
        final(out)@ == old(out)@ + decimal(n as nat),
    decreases n,
{
    if n >= 10 {
        push_decimal(out, n / 10);
    }
    out.append(digit_str(n % 10));
    assert(old(out)@ + decimal(n as nat) =~= final(out)@);
}

/// Reads `s` as a decimal numeral; `None` where it holds anything but
/// digits, is empty, or denotes a number over `usize::MAX`.
pub fn parse_numeral(s: &str) -> (r: Option<usize>)
    ensures
        r == numeral_value(s@),
{
    let len = s.unicode_len();
    if len == 0 {
        return None;
    }
    let mut acc: usize = 0;
    let mut i: usize = 0;
    while i < len
        invariant
            len == s@.len(),
            i <= len,
            acc == digits_value(s@.subrange(0, i as int)),
            forall|j: int| 0 <= j < i ==> is_digit(#[trigger] s@[j]),
        decreases len - i,
    {
        let c = s.get_char(i);
        if !('0' <= c && c <= '9') {
            return None;
        }
        let d = ((c as u32) - ('0' as u32)) as usize;
        assert(s@.subrange(0, i + 1).drop_last() =~= s@.subrange(0, i as int));
        if acc > (usize::MAX - d) / 10 {
            proof {
                lemma_prefix_value(s@, i + 1);
            }
            return None;
        }
        acc = acc * 10 + d;
        i = i + 1;
    }
    assert(s@.subrange(0, len as int) =~= s@);
    Some(acc)
}

/// The name of the query parameter that selects a suggestion.
pub open spec fn item_key() -> Seq<char> {
    seq!['i', 't', 'e', 'm']
}

/// The selection a request makes: a position in the suggestion list, or
/// none for a random suggestion.
#[derive(Clone, Copy, Debug, PartialEq, Eq)]
pub struct ItemQuery {
    pub item: Option<usize>,
}

impl Default for ItemQuery {
    fn default() -> (r: ItemQuery)
        ensures
            r.item is None,
    {
        ItemQuery { item: None }
    }
}

impl From<usize> for ItemQuery {
    fn from(idx: usize) -> (r: ItemQuery) {
        ItemQuery { item: Some(idx) }
    }
}

impl vstd::std_specs::convert::FromSpecImpl<usize> for ItemQuery {
    open spec fn obeys_from_spec() -> bool {
        true
    }

    open spec fn from_spec(idx: usize) -> ItemQuery {
        ItemQuery { item: Some(idx) }
    }
}

/// Why a query string was refused.
#[derive(Clone, Copy, Debug, PartialEq, Eq)]
pub enum QueryError {
    /// The `item` parameter is empty, is not a decimal numeral, exceeds
    /// `usize::MAX`, or is given more than once.
    InvalidItem,
}

/// The query string that selects `item`: empty for no selection, otherwise
/// `item=` followed by the decimal numeral of the position.
pub open spec fn query_text(item: Option<usize>) -> Seq<char> {
    match item {
        None => Seq::empty(),
        Some(k) => item_key().push('=') + decimal(k as nat),
    }
}

/// The end of the `&`-separated pair that starts at `i`: the position of the
/// next `&`, or the length of `q`.
pub open spec fn pair_end(q: Seq<char>, i: int) -> int
    decreases q.len() - i,
{
    if i < 0 || i >= q.len() {
        q.len() as int
    } else if q[i] == '&' {
        i
    } else {
        pair_end(q, i + 1)
    }
}

/// The value of a pair if its key is `item`: the text after `=`, or the
/// empty text for a bare `item`.
pub open spec fn item_value(pair: Seq<char>) -> Option<Seq<char>> {
    if pair == item_key() {
        Some(Seq::empty())
    } else if pair.len() >= 5 && pair.subrange(0, 5) == item_key().push('=') {
        Some(pair.subrange(5, pair.len() as int))
    } else {
        None
    }
}

/// The selection made by the pairs of `q` from position `i` on. Pairs with
/// another key are ignored; a single `item` pair must hold a numeral that
/// fits in `usize`.
pub open spec fn selection_from(q: Seq<char>, i: int) -> Result<Option<usize>, QueryError>
    decreases q.len() - i,
{
    if i < 0 || i > q.len() {
        Ok(None)
    } else {
        let end = pair_end(q, i);
        let rest = if i <= end < q.len() {
            selection_from(q, end + 1)
        } else {
            Ok(None)
        };
        match item_value(q.subrange(i, end)) {
            None => rest,
            Some(v) => match (numeral_value(v), rest) {
                (Some(k), Ok(None)) => Ok(Some(k)),
                _ => Err(QueryError::InvalidItem),
            },
        }
    }
}

/// The selection that the query string `q` makes.
pub open spec fn selection(q: Seq<char>) -> Result<Option<usize>, QueryError> {
    selection_from(q, 0)
}

proof fn lemma_pair_end_bounds(q: Seq<char>, i: int)
    requires
        0 <= i <= q.len(),
    ensures
        i <= pair_end(q, i) <= q.len(),
        pair_end(q, i) < q.len() ==> q[pair_end(q, i)] == '&',
        forall|j: int| i <= j < pair_end(q, i) ==> q[j] != '&',
    decreases q.len() - i,
{
    if i < q.len() && q[i] != '&' {
        lemma_pair_end_bounds(q, i + 1);
    }
}

/// Writes the query string that selects `query.item`.
pub fn to_query_string(query: &ItemQuery) -> (r: String)
    ensures
        r@ == query_text(query.item),
{
    let mut out = String::new();
    if let Some(k) = query.item {
        out.append("item=");
        proof {
            reveal_strlit("item=");
        }
        push_decimal(&mut out, k);
        assert(out@ =~= query_text(query.item));
    }
    out
}

/// The value of `pair` if its key is `item`.
fn pair_item_value(pair: &str) -> (r: Option<&str>)
    ensures
        r matches Some(v) ==> item_value(pair@) == Some(v@),
        r is None ==> item_value(pair@) is None,
{
    let n = pair.unicode_len();
    if n < 4 {
        return None;
    }
    if !(pair.get_char(0) == 'i' && pair.get_char(1) == 't' && pair.get_char(2) == 'e'
        && pair.get_char(3) == 'm') {
        assert(item_key()[0] == 'i' && item_key()[1] == 't' && item_key()[2] == 'e'
            && item_key()[3] == 'm');
        if n >= 5 {
            assert(pair@.subrange(0, 5)[0] == pair@[0]);
            assert(pair@.subrange(0, 5)[1] == pair@[1]);
            assert(pair@.subrange(0, 5)[2] == pair@[2]);
            assert(pair@.subrange(0, 5)[3] == pair@[3]);
        }
        return None;
    }
    if n == 4 {
        assert(pair@ =~= item_key());
        let v = pair.substring_char(4, 4);
        assert(v@ =~= Seq::<char>::empty());
        return Some(v);
    }
    if pair.get_char(4) != '=' {
        assert(pair@.subrange(0, 5)[4] == pair@[4]);
        return None;
    }
    assert(pair@.subrange(0, 5) =~= item_key().push('='));
    Some(pair.substring_char(5, n))
}

/// The selection made by the pairs of `q` from position `i` on.
fn selection_from_exec(q: &str, len: usize, i: usize) -> (r: Result<Option<usize>, QueryError>)
    requires
        len == q@.len(),
        i <= len,
    ensures
        r == selection_from(q@, i as int),
    decreases len - i,
{
    let mut end: usize = i;
    loop
        invariant
            len == q@.len(),
            i <= end <= len,
            pair_end(q@, i as int) == pair_end(q@, end as int),
        ensures
            end == len || q@[end as int] == '&',
        decreases len - end,
    {
        if end == len || q.get_char(end) == '&' {
            break;
        }
        end = end + 1;
    }
    proof {
        lemma_pair_end_bounds(q@, end as int);
    }
    let rest = if end < len {
        selection_from_exec(q, len, end + 1)
    } else {
        Ok(None)
    };
    let pair = q.substring_char(i, end);
    match pair_item_value(pair) {
        None => rest,
        Some(v) => match (parse_numeral(v), rest) {
            (Some(k), Ok(None)) => Ok(Some(k)),
            _ => Err(QueryError::InvalidItem),
        },
    }
}

/// Reads the selection that the query string `q` makes.
pub fn parse_query(q: &str) -> (r: Result<ItemQuery, QueryError>)
    ensures
        r matches Ok(query) ==> selection(q@) == Ok::<Option<usize>, QueryError>(query.item),
        r matches Err(e) ==> selection(q@) == Err::<Option<usize>, QueryError>(e),
{
    let len = q.unicode_len();
    match selection_from_exec(q, len, 0) {
        Ok(item) => Ok(ItemQuery { item }),
        Err(e) => Err(e),
    }
}

/// Reading back the query string written for a selection gives that
/// selection.
pub proof fn lemma_query_round_trip(item: Option<usize>)
    ensures
        selection(query_text(item)) == Ok::<Option<usize>, QueryError>(item),
{
    let q = query_text(item);
    match item {
        None => {
            assert(q.subrange(0, 0) =~= Seq::<char>::empty());
            assert(Seq::<char>::empty() != item_key());
        },
        Some(k) => {
            lemma_decimal_value(k as nat);
            let d = decimal(k as nat);
            let p = item_key().push('=');
            assert(p =~= seq!['i', 't', 'e', 'm', '=']);
            assert(q =~= p + d);
            assert forall|j: int| 0 <= j < q.len() implies q[j] != '&' by {
                if j < 5 {
                    assert(q[j] == p[j]);
                } else {
                    assert(q[j] == d[j - 5]);
                    assert(is_digit(d[j - 5]));
                }
            }
            lemma_pair_end_no_amp(q, 0);
            assert(q.subrange(0, q.len() as int) =~= q);
            assert(q.len() != item_key().len());
            assert(q.subrange(0, 5) =~= p);
            assert(q.subrange(5, q.len() as int) =~= d);
            assert(item_value(q) == Some(d));
        },
    }
}

proof fn lemma_pair_end_no_amp(q: Seq<char>, i: int)
    requires
        0 <= i <= q.len(),
        forall|j: int| 0 <= j < q.len() ==> q[j] != '&',
    ensures
        pair_end(q, i) == q.len(),
    decreases q.len() - i,
{
    if i < q.len() {
        lemma_pair_end_no_amp(q, i + 1);
    }
}

} // verus!
