//! Responses and their wire grammar. A response line is one JSON
//! object `{"id":<uint16>,"result":[...]|null,"error":{...}|null}`:
//! the `id` field is mandatory and comes first, `result` and `error`
//! are each optional, in that order. Result items are plain string
//! tokens; the error object carries a code and a message. A line of
//! any other shape is not a response; the connection discards such
//! lines and keeps reading.
//!
//! The grammar is deliberately exact, so that decoding is
//! deterministic and the correlation loop's behaviour is fully pinned
//! down. [`lemma_parse_of_canonical`] proves that every line the
//! canonical encoding produces is accepted and decodes back to the
//! response it carries; `null` is additionally accepted where a field
//! would be absent.

use vstd::prelude::*;
use vstd::string::*;

use crate::codec::{dec_digits, dec_digits_signed, dec_run_value, dec_value, digits_end,
    is_digit, is_plain, lemma_char_within, lemma_dec_digits_canonical, lemma_dec_digits_len,
    lemma_digits_end_concat, lemma_digits_end_digits, lemma_plain_end_concat, lemma_slice_within,
    match_lit, plain_end, pow10, scan_digits, scan_plain, eat_lit};

verus! {

/// The error object of a response: a numeric code and a message.
/// Handed back to the caller verbatim; a present error is not itself a
/// transport failure.
#[derive(Clone, Debug)]
pub struct ErrorInfo {
    pub code: i64,
    pub message: String,
}

/// Mathematical counterpart of [`ErrorInfo`].
pub struct ErrorData {
    pub code: int,
    pub message: Seq<char>,
}

impl View for ErrorInfo {
    type V = ErrorData;

    open spec fn view(&self) -> ErrorData {
        ErrorData { code: self.code as int, message: self.message@ }
    }
}

/// A decoded response: correlation id, optional result list, optional
/// error object.
#[derive(Clone, Debug)]
pub struct Response {
    pub id: u16,
    pub result: Option<Vec<String>>,
    pub error: Option<ErrorInfo>,
}

/// Mathematical counterpart of [`Response`].
pub struct ResponseData {
    pub id: int,
    pub result: Option<Seq<Seq<char>>>,
    pub error: Option<ErrorData>,
}

impl View for Response {
    type V = ResponseData;

    open spec fn view(&self) -> ResponseData {
        ResponseData {
            id: self.id as int,
            result: match self.result {
                Option::Some(v) => Option::Some(v.deep_view()),
                Option::None => Option::None,
            },
            error: match self.error {
                Option::Some(e) => Option::Some(e@),
                Option::None => Option::None,
            },
        }
    }
}

/// Position just past `lit` when its characters stand at `i`.
pub open spec fn parse_lit(s: Seq<char>, i: int, lit: Seq<char>) -> Option<int> {
    if match_lit(s, i, lit) {
        Option::Some(i + lit.len())
    } else {
        Option::None
    }
}

/// A correlation id token: one to five decimal digits, no leading zero
/// unless the id is zero itself, value at most 65535.
pub open spec fn parse_id(s: Seq<char>, i: int) -> Option<(int, int)> {
    let j = digits_end(s, i);
    if j == i || j - i > 5 {
        Option::None
    } else if s[i] == '0' && j > i + 1 {
        Option::None
    } else {
        let v = dec_value(s.subrange(i, j));
        if v <= 65535 {
            Option::Some((v, j))
        } else {
            Option::None
        }
    }
}

/// An unsigned integer token of one to nine decimal digits, no leading
/// zero unless the value is zero itself.
pub open spec fn parse_udec(s: Seq<char>, i: int) -> Option<(int, int)> {
    let j = digits_end(s, i);
    if j == i || j - i > 9 {
        Option::None
    } else if s[i] == '0' && j > i + 1 {
        Option::None
    } else {
        Option::Some((dec_value(s.subrange(i, j)), j))
    }
}

/// A signed integer token: an optional minus sign before a nonzero
/// unsigned token, or an unsigned token alone.
pub open spec fn parse_int(s: Seq<char>, i: int) -> Option<(int, int)> {
    if 0 <= i < s.len() && s[i] == '-' {
        match parse_udec(s, i + 1) {
            Option::None => Option::None,
            Option::Some((v, j)) => if v > 0 {
                Option::Some((-v, j))
            } else {
                Option::None
            },
        }
    } else {
        parse_udec(s, i)
    }
}

/// A string token: a quote, a run of plain characters, a quote.
/// Escape sequences are not part of the response grammar; a line
/// holding one is discarded as malformed.
pub open spec fn parse_string(s: Seq<char>, i: int) -> Option<(Seq<char>, int)> {
    if 0 <= i < s.len() && s[i] == '"' {
        let j = plain_end(s, i + 1);
        if j < s.len() && s[j] == '"' {
            Option::Some((s.subrange(i + 1, j), j + 1))
        } else {
            Option::None
        }
    } else {
        Option::None
    }
}

/// The items of a nonempty result array: `string ("," string)* "]"`,
/// beginning just past the opening bracket.
pub open spec fn parse_string_list(s: Seq<char>, i: int) -> Option<(Seq<Seq<char>>, int)>
    decreases s.len() - i,
{
    match parse_string(s, i) {
        Option::None => Option::None,
        Option::Some((first, j)) => if j < s.len() && s[j] == ',' {
            if i < j + 1 <= s.len() {
                match parse_string_list(s, j + 1) {
                    Option::None => Option::None,
                    Option::Some((rest, k)) => Option::Some((seq![first] + rest, k)),
                }
            } else {
                Option::None
            }
        } else if j < s.len() && s[j] == ']' {
            Option::Some((seq![first], j + 1))
        } else {
            Option::None
        },
    }
}

/// The value of a `result` field: `null`, or an array of string
/// tokens.
pub open spec fn parse_result_value(s: Seq<char>, i: int) -> Option<
    (Option<Seq<Seq<char>>>, int),
> {
    if match_lit(s, i, "null"@) {
        Option::Some((Option::None, i + "null"@.len()))
    } else if 0 <= i < s.len() && s[i] == '[' {
        if match_lit(s, i + 1, "]"@) {
            Option::Some((Option::Some(Seq::empty()), i + 1 + "]"@.len()))
        } else {
            match parse_string_list(s, i + 1) {
                Option::None => Option::None,
                Option::Some((items, j)) => Option::Some((Option::Some(items), j)),
            }
        }
    } else {
        Option::None
    }
}

/// The value of an `error` field: `null`, or an object
/// `{"code":<int>,"message":<string>}`.
pub open spec fn parse_error_value(s: Seq<char>, i: int) -> Option<(Option<ErrorData>, int)> {
    if match_lit(s, i, "null"@) {
        Option::Some((Option::None, i + "null"@.len()))
    } else {
        match parse_lit(s, i, "{\"code\":"@) {
            Option::None => Option::None,
            Option::Some(j) => match parse_int(s, j) {
                Option::None => Option::None,
                Option::Some((code, k)) => match parse_lit(s, k, ",\"message\":"@) {
                    Option::None => Option::None,
                    Option::Some(m) => match parse_string(s, m) {
                        Option::None => Option::None,
                        Option::Some((msg, e)) => match parse_lit(s, e, "}"@) {
                            Option::None => Option::None,
                            Option::Some(f) => Option::Some(
                                (Option::Some(ErrorData { code, message: msg }), f),
                            ),
                        },
                    },
                },
            },
        }
    }
}

/// Decodes one full line as a response. `None` means the line is not a
/// response of this protocol; the reader discards it and continues.
pub open spec fn spec_parse_response(s: Seq<char>) -> Option<ResponseData> {
    match parse_lit(s, 0, "{\"id\":"@) {
        Option::None => Option::None,
        Option::Some(i1) => match parse_id(s, i1) {
            Option::None => Option::None,
            Option::Some((id, i2)) => if match_lit(s, i2, "}"@) && i2 + "}"@.len() == s.len() {
                Option::Some(ResponseData { id, result: Option::None, error: Option::None })
            } else {
                match parse_lit(s, i2, ",\"result\":"@) {
                    Option::Some(i3) => match parse_result_value(s, i3) {
                        Option::None => Option::None,
                        Option::Some((res, i4)) => if match_lit(s, i4, "}"@) && i4 + "}"@.len()
                            == s.len() {
                            Option::Some(ResponseData { id, result: res, error: Option::None })
                        } else {
                            match parse_lit(s, i4, ",\"error\":"@) {
                                Option::None => Option::None,
                                Option::Some(i5) => match parse_error_value(s, i5) {
                                    Option::None => Option::None,
                                    Option::Some((err, i6)) => if match_lit(s, i6, "}"@) && i6
                                        + "}"@.len() == s.len() {
                                        Option::Some(
                                            ResponseData { id, result: res, error: err },
                                        )
                                    } else {
                                        Option::None
                                    },
                                },
                            }
                        },
                    },
                    Option::None => match parse_lit(s, i2, ",\"error\":"@) {
                        Option::None => Option::None,
                        Option::Some(i5) => match parse_error_value(s, i5) {
                            Option::None => Option::None,
                            Option::Some((err, i6)) => if match_lit(s, i6, "}"@) && i6
                                + "}"@.len() == s.len() {
                                Option::Some(
                                    ResponseData { id, result: Option::None, error: err },
                                )
                            } else {
                                Option::None
                            },
                        },
                    },
                }
            },
        },
    }
}

/// Whether every character of `s` may stand in a string token.
pub open spec fn plain_str(s: Seq<char>) -> bool {
    forall|i: int| 0 <= i < s.len() ==> is_plain(#[trigger] s[i])
}

/// Whether a response is one the wire carries canonically: the id
/// fits sixteen bits, result values and the error message are plain
/// strings, and the error code fits nine digits.
pub open spec fn resp_wf(r: ResponseData) -> bool {
    &&& 0 <= r.id <= 65535
    &&& match r.result {
        Option::Some(items) => forall|k: int|
            0 <= k < items.len() ==> plain_str(#[trigger] items[k]),
        Option::None => true,
    }
    &&& match r.error {
        Option::Some(e) => plain_str(e.message) && -999999999 <= e.code <= 999999999,
        Option::None => true,
    }
}

/// A string token: the content between quotes.
pub open spec fn encode_string(s: Seq<char>) -> Seq<char> {
    seq!['"'] + s + seq!['"']
}

/// The items of a nonempty result array, closing bracket included.
pub open spec fn encode_list_body(items: Seq<Seq<char>>) -> Seq<char>
    decreases items.len(),
{
    if items.len() <= 1 {
        encode_string(items[0]) + seq![']']
    } else {
        encode_string(items[0]) + seq![','] + encode_list_body(items.drop_first())
    }
}

/// A result array: the items between brackets.
pub open spec fn encode_result_value(items: Seq<Seq<char>>) -> Seq<char> {
    seq!['['] + (if items.len() == 0 {
        seq![']']
    } else {
        encode_list_body(items)
    })
}

/// A present result field, leading comma and key included.
pub open spec fn encode_result_field(items: Seq<Seq<char>>) -> Seq<char> {
    ",\"result\":"@ + encode_result_value(items)
}

/// An error object: code and message.
pub open spec fn encode_error_value(e: ErrorData) -> Seq<char> {
    "{\"code\":"@ + dec_digits_signed(e.code) + ",\"message\":"@ + encode_string(e.message)
        + seq!['}']
}

/// A present error field, leading comma and key included.
pub open spec fn encode_error_field(e: ErrorData) -> Seq<char> {
    ",\"error\":"@ + encode_error_value(e)
}

/// The canonical line carrying a response: absent fields are omitted.
pub open spec fn spec_encode_response(r: ResponseData) -> Seq<char> {
    "{\"id\":"@ + dec_digits(r.id) + (match r.result {
        Option::Some(items) => encode_result_field(items),
        Option::None => Seq::empty(),
    }) + (match r.error {
        Option::Some(e) => encode_error_field(e),
        Option::None => Seq::empty(),
    }) + seq!['}']
}

/// View of an optional result list.
pub open spec fn opt_vec_view(v: Option<Vec<String>>) -> Option<Seq<Seq<char>>> {
    match v {
        Option::Some(x) => Option::Some(x.deep_view()),
        Option::None => Option::None,
    }
}

/// View of an optional error object.
pub open spec fn opt_err_view(v: Option<ErrorInfo>) -> Option<ErrorData> {
    match v {
        Option::Some(e) => Option::Some(e@),
        Option::None => Option::None,
    }
}

fn parse_id_exec(s: &str, i: usize) -> (r: Option<(u16, usize)>)
    requires
        i <= s@.len(),
    ensures
        match r {
            Option::Some(p) => parse_id(s@, i as int) == Option::Some(
                (p.0 as int, p.1 as int),
            ) && i < p.1 <= s@.len(),
            Option::None => parse_id(s@, i as int) is None,
        },
{
    let j = scan_digits(s, i);
    if j == i || j - i > 5 {
        return None;
    }
    if s.get_char(i) == '0' && j > i + 1 {
        return None;
    }
    proof {
        lemma_digits_end_digits(s@, i as int);
    }
    let v = dec_run_value(s, i, j);
    if v <= 65535 {
        Some((v as u16, j))
    } else {
        None
    }
}

fn parse_udec_exec(s: &str, i: usize) -> (r: Option<(u32, usize)>)
    requires
        i <= s@.len(),
    ensures
        match r {
            Option::Some(p) => parse_udec(s@, i as int) == Option::Some(
                (p.0 as int, p.1 as int),
            ) && i < p.1 <= s@.len(),
            Option::None => parse_udec(s@, i as int) is None,
        },
{
    let j = scan_digits(s, i);
    if j == i || j - i > 9 {
        return None;
    }
    if s.get_char(i) == '0' && j > i + 1 {
        return None;
    }
    proof {
        lemma_digits_end_digits(s@, i as int);
    }
    let v = dec_run_value(s, i, j);
    Some((v, j))
}

fn parse_int_exec(s: &str, i: usize) -> (r: Option<(i64, usize)>)
    requires
        i <= s@.len(),
    ensures
        match r {
            Option::Some(p) => parse_int(s@, i as int) == Option::Some(
                (p.0 as int, p.1 as int),
            ) && i < p.1 <= s@.len(),
            Option::None => parse_int(s@, i as int) is None,
        },
{
    if i < s.unicode_len() && s.get_char(i) == '-' {
        match parse_udec_exec(s, i + 1) {
            None => None,
            Some((v, j)) => if v > 0 {
                Some((-(v as i64), j))
            } else {
                None
            },
        }
    } else {
        match parse_udec_exec(s, i) {
            None => None,
            Some((v, j)) => Some((v as i64, j)),
        }
    }
}

fn parse_string_exec(s: &str, i: usize) -> (r: Option<(String, usize)>)
    requires
        i <= s@.len(),
    ensures
        match r {
            Option::Some(p) => parse_string(s@, i as int) == Option::Some(
                (p.0@, p.1 as int),
            ) && i < p.1 <= s@.len(),
            Option::None => parse_string(s@, i as int) is None,
        },
{
    if i < s.unicode_len() && s.get_char(i) == '"' {
        let j = scan_plain(s, i + 1);
        if j < s.unicode_len() && s.get_char(j) == '"' {
            let tok = s.substring_char(i + 1, j).to_owned();
            Some((tok, j + 1))
        } else {
            None
        }
    } else {
        None
    }
}

fn parse_string_list_exec(s: &str, i: usize) -> (r: Option<(Vec<String>, usize)>)
    requires
        i <= s@.len(),
    ensures
        match r {
            Option::Some(p) => parse_string_list(s@, i as int) == Option::Some(
                (p.0.deep_view(), p.1 as int),
            ) && i < p.1 <= s@.len(),
            Option::None => parse_string_list(s@, i as int) is None,
        },
    decreases s@.len() - i,
{
    match parse_string_exec(s, i) {
        None => None,
        Some((first, j)) => {
            if j < s.unicode_len() && s.get_char(j) == ',' {
                match parse_string_list_exec(s, j + 1) {
                    None => None,
                    Some((rest, k)) => {
                        let ghost restv = rest.deep_view();
                        let mut v = rest;
                        v.insert(0, first);
                        proof {
                            assert(v.deep_view() =~~= seq![first@] + restv);
                        }
                        Some((v, k))
                    },
                }
            } else if j < s.unicode_len() && s.get_char(j) == ']' {
                let v = vec![first];
                proof {
                    assert(v.deep_view() =~~= seq![first@]);
                }
                Some((v, j + 1))
            } else {
                None
            }
        },
    }
}

fn parse_result_value_exec(s: &str, i: usize) -> (r: Option<(Option<Vec<String>>, usize)>)
    requires
        i <= s@.len(),
    ensures
        match r {
            Option::Some(p) => parse_result_value(s@, i as int) == Option::Some(
                (opt_vec_view(p.0), p.1 as int),
            ) && p.1 <= s@.len(),
            Option::None => parse_result_value(s@, i as int) is None,
        },
{
    proof {
        reveal_strlit("null");
        reveal_strlit("]");
    }
    let len = s.unicode_len();
    if eat_lit(s, i, "null") {
        return Some((None, i + 4));
    }
    if i < len && s.get_char(i) == '[' {
        if eat_lit(s, i + 1, "]") {
            let v: Vec<String> = Vec::new();
            proof {
                assert(v.deep_view() =~~= Seq::<Seq<char>>::empty());
            }
            Some((Some(v), i + 2))
        } else {
            match parse_string_list_exec(s, i + 1) {
                None => None,
                Some((items, j)) => Some((Some(items), j)),
            }
        }
    } else {
        None
    }
}

fn parse_error_value_exec(s: &str, i: usize) -> (r: Option<(Option<ErrorInfo>, usize)>)
    requires
        i <= s@.len(),
    ensures
        match r {
            Option::Some(p) => parse_error_value(s@, i as int) == Option::Some(
                (opt_err_view(p.0), p.1 as int),
            ) && p.1 <= s@.len(),
            Option::None => parse_error_value(s@, i as int) is None,
        },
{
    proof {
        reveal_strlit("null");
        reveal_strlit("{\"code\":");
        reveal_strlit(",\"message\":");
        reveal_strlit("}");
    }
    let len = s.unicode_len();
    if eat_lit(s, i, "null") {
        return Some((None, i + 4));
    }
    if !eat_lit(s, i, "{\"code\":") {
        return None;
    }
    let j = i + 8;
    match parse_int_exec(s, j) {
        None => None,
        Some((code, k)) => {
            if !eat_lit(s, k, ",\"message\":") {
                return None;
            }
            let m = k + 11;
            match parse_string_exec(s, m) {
                None => None,
                Some((msg, e)) => {
                    if !eat_lit(s, e, "}") {
                        return None;
                    }
                    Some((Some(ErrorInfo { code, message: msg }), e + 1))
                },
            }
        },
    }
}

/// Decodes one full line as a response. `None` means the line is not
/// a response of this protocol.
pub fn parse_response(line: &str) -> (r: Option<Response>)
    ensures
        match r {
            Option::Some(resp) => spec_parse_response(line@) == Option::Some(resp@),
            Option::None => spec_parse_response(line@) is None,
        },
{
    proof {
        reveal_strlit("{\"id\":");
        reveal_strlit("}");
        reveal_strlit(",\"result\":");
        reveal_strlit(",\"error\":");
    }
    let len = line.unicode_len();
    if !eat_lit(line, 0, "{\"id\":") {
        return None;
    }
    let i1: usize = 6;
    match parse_id_exec(line, i1) {
        None => None,
        Some((id, i2)) => {
            if eat_lit(line, i2, "}") && i2 + 1 == len {
                return Some(Response { id, result: None, error: None });
            }
            if eat_lit(line, i2, ",\"result\":") {
                let i3 = i2 + 10;
                match parse_result_value_exec(line, i3) {
                    None => None,
                    Some((res, i4)) => {
                        if eat_lit(line, i4, "}") && i4 + 1 == len {
                            return Some(Response { id, result: res, error: None });
                        }
                        if !eat_lit(line, i4, ",\"error\":") {
                            return None;
                        }
                        let i5 = i4 + 9;
                        match parse_error_value_exec(line, i5) {
                            None => None,
                            Some((err, i6)) => {
                                if eat_lit(line, i6, "}") && i6 + 1 == len {
                                    Some(Response { id, result: res, error: err })
                                } else {
                                    None
                                }
                            },
                        }
                    },
                }
            } else if eat_lit(line, i2, ",\"error\":") {
                let i5 = i2 + 9;
                match parse_error_value_exec(line, i5) {
                    None => None,
                    Some((err, i6)) => {
                        if eat_lit(line, i6, "}") && i6 + 1 == len {
                            Some(Response { id, result: None, error: err })
                        } else {
                            None
                        }
                    },
                }
            } else {
                None
            }
        },
    }
}

proof fn lemma_parse_string_at(s: Seq<char>, i: int, content: Seq<char>)
    requires
        0 <= i,
        i + content.len() + 2 <= s.len(),
        s.subrange(i, i + content.len() + 2) == encode_string(content),
        plain_str(content),
    ensures
        parse_string(s, i) == Option::Some((content, i + content.len() + 2)),
{
    let n = content.len() as int;
    let body = encode_string(content);
    assert(body.len() == n + 2);
    lemma_char_within(s, i, body, 0);
    assert(s[i] == '"');
    lemma_char_within(s, i, body, n + 1);
    assert(s[i + n + 1] == '"');
    assert forall|m: int| i + 1 <= m < i + 1 + n implies is_plain(#[trigger] s[m]) by {
        lemma_char_within(s, i, body, m - i);
        assert(body[m - i] == content[m - i - 1]);
    }
    assert(!is_plain('"'));
    lemma_plain_end_concat(s, i + 1, i + 1 + n);
    lemma_slice_within(s, i, body, 1, n + 1);
    assert(body.subrange(1, n + 1) =~= content);
    assert(s.subrange(i + 1, i + 1 + n) == content);
}

proof fn lemma_digit_run_at(s: Seq<char>, i: int, d: Seq<char>)
    requires
        0 <= i,
        i + d.len() <= s.len(),
        s.subrange(i, i + d.len()) == d,
        forall|m: int| 0 <= m < d.len() ==> is_digit(#[trigger] d[m]),
        i + d.len() == s.len() || !is_digit(s[i + d.len()]),
    ensures
        digits_end(s, i) == i + d.len(),
        s.subrange(i, i + d.len()) =~= d,
{
    assert forall|m: int| i <= m < i + d.len() implies is_digit(#[trigger] s[m]) by {
        lemma_char_within(s, i, d, m - i);
    }
    lemma_digits_end_concat(s, i, i + d.len());
}

proof fn lemma_parse_id_at(s: Seq<char>, i: int, n: int)
    requires
        0 <= i,
        0 <= n <= 65535,
        i + dec_digits(n).len() <= s.len(),
        s.subrange(i, i + dec_digits(n).len()) == dec_digits(n),
        i + dec_digits(n).len() == s.len() || !is_digit(s[i + dec_digits(n).len()]),
    ensures
        parse_id(s, i) == Option::Some((n, i + dec_digits(n).len())),
{
    lemma_dec_digits_canonical(n);
    let d = dec_digits(n);
    lemma_digit_run_at(s, i, d);
    assert(65536 <= pow10(5)) by {
        reveal_with_fuel(pow10, 6);
    }
    lemma_dec_digits_len(n, 5);
    lemma_char_within(s, i, d, 0);
    assert(s[i] == d[0]);
    if n == 0 {
        assert(d.len() == 1);
    } else {
        assert(d[0] != '0');
    }
}

proof fn lemma_parse_udec_at(s: Seq<char>, i: int, n: int)
    requires
        0 <= i,
        0 <= n <= 999999999,
        i + dec_digits(n).len() <= s.len(),
        s.subrange(i, i + dec_digits(n).len()) == dec_digits(n),
        i + dec_digits(n).len() == s.len() || !is_digit(s[i + dec_digits(n).len()]),
    ensures
        parse_udec(s, i) == Option::Some((n, i + dec_digits(n).len())),
{
    lemma_dec_digits_canonical(n);
    let d = dec_digits(n);
    lemma_digit_run_at(s, i, d);
    assert(1000000000 <= pow10(9)) by {
        reveal_with_fuel(pow10, 10);
    }
    lemma_dec_digits_len(n, 9);
    lemma_char_within(s, i, d, 0);
    if n == 0 {
        assert(d.len() == 1);
    } else {
        assert(d[0] != '0');
    }
}

proof fn lemma_parse_int_at(s: Seq<char>, i: int, n: int)
    requires
        0 <= i,
        -999999999 <= n <= 999999999,
        i + dec_digits_signed(n).len() <= s.len(),
        s.subrange(i, i + dec_digits_signed(n).len()) == dec_digits_signed(n),
        i + dec_digits_signed(n).len() == s.len() || !is_digit(s[i + dec_digits_signed(n).len()]),
    ensures
        parse_int(s, i) == Option::Some((n, i + dec_digits_signed(n).len())),
{
    let t = dec_digits_signed(n);
    if n < 0 {
        let d = dec_digits(-n);
        assert(t == seq!['-'] + d);
        lemma_char_within(s, i, t, 0);
        assert(s[i] == '-');
        lemma_slice_within(s, i, t, 1, t.len() as int);
        assert(t.subrange(1, t.len() as int) =~= d);
        lemma_parse_udec_at(s, i + 1, -n);
    } else {
        lemma_dec_digits_canonical(n);
        lemma_char_within(s, i, t, 0);
        assert(is_digit(s[i]));
        assert(s[i] != '-') by {
            assert('-' as u32 == 45);
        }
        lemma_parse_udec_at(s, i, n);
    }
}

proof fn lemma_parse_list_at(s: Seq<char>, i: int, items: Seq<Seq<char>>)
    requires
        0 <= i,
        items.len() >= 1,
        forall|k: int| 0 <= k < items.len() ==> plain_str(#[trigger] items[k]),
        i + encode_list_body(items).len() <= s.len(),
        s.subrange(i, i + encode_list_body(items).len()) == encode_list_body(items),
    ensures
        parse_string_list(s, i) == Option::Some((items, i + encode_list_body(items).len())),
    decreases items.len(),
{
    let body = encode_list_body(items);
    let first = items[0];
    let n0 = first.len() as int;
    let es = encode_string(first);
    lemma_slice_within(s, i, body, 0, n0 + 2);
    if items.len() == 1 {
        assert(body == es + seq![']']);
        assert(body.subrange(0, n0 + 2) =~= es);
        lemma_parse_string_at(s, i, first);
        let j = i + n0 + 2;
        lemma_char_within(s, i, body, n0 + 2);
        assert(s[j] == ']');
        assert(seq![first] =~= items);
    } else {
        assert(body == es + seq![','] + encode_list_body(items.drop_first()));
        assert(body.subrange(0, n0 + 2) =~= es);
        lemma_parse_string_at(s, i, first);
        let j = i + n0 + 2;
        lemma_char_within(s, i, body, n0 + 2);
        assert(s[j] == ',');
        let rest = items.drop_first();
        let rbody = encode_list_body(rest);
        lemma_slice_within(s, i, body, n0 + 3, body.len() as int);
        assert(body.subrange(n0 + 3, body.len() as int) =~= rbody);
        assert(forall|k: int| 0 <= k < rest.len() ==> plain_str(#[trigger] rest[k]));
        lemma_parse_list_at(s, j + 1, rest);
        assert(seq![first] + rest =~= items);
    }
}

proof fn lemma_parse_result_value_at(s: Seq<char>, i: int, items: Seq<Seq<char>>)
    requires
        0 <= i,
        forall|k: int| 0 <= k < items.len() ==> plain_str(#[trigger] items[k]),
        i + encode_result_value(items).len() <= s.len(),
        s.subrange(i, i + encode_result_value(items).len()) == encode_result_value(items),
    ensures
        parse_result_value(s, i) == Option::Some(
            (Option::Some(items), i + encode_result_value(items).len()),
        ),
{
    reveal_strlit("null");
    reveal_strlit("]");
    let v = encode_result_value(items);
    lemma_char_within(s, i, v, 0);
    assert(s[i] == '[');
    assert(!match_lit(s, i, "null"@)) by {
        if match_lit(s, i, "null"@) {
            assert(s.subrange(i, i + 4)[0] == 'n');
        }
    }
    if items.len() == 0 {
        lemma_char_within(s, i, v, 1);
        assert(s[i + 1] == ']');
        assert(s.subrange(i + 1, i + 2) =~= "]"@);
        assert(match_lit(s, i + 1, "]"@));
        assert(items =~= Seq::<Seq<char>>::empty());
    } else {
        let body = encode_list_body(items);
        assert(v == seq!['['] + body);
        lemma_slice_within(s, i, v, 1, v.len() as int);
        assert(v.subrange(1, v.len() as int) =~= body);
        lemma_char_within(s, i, v, 1);
        assert(body[0] == encode_string(items[0])[0]);
        assert(s[i + 1] == '"');
        assert(!match_lit(s, i + 1, "]"@)) by {
            if match_lit(s, i + 1, "]"@) {
                assert(s.subrange(i + 1, i + 2)[0] == ']');
            }
        }
        lemma_parse_list_at(s, i + 1, items);
    }
}

proof fn lemma_parse_error_value_at(s: Seq<char>, i: int, e: ErrorData)
    requires
        0 <= i,
        plain_str(e.message),
        -999999999 <= e.code <= 999999999,
        i + encode_error_value(e).len() <= s.len(),
        s.subrange(i, i + encode_error_value(e).len()) == encode_error_value(e),
    ensures
        parse_error_value(s, i) == Option::Some(
            (Option::Some(e), i + encode_error_value(e).len()),
        ),
{
    reveal_strlit("null");
    reveal_strlit("{\"code\":");
    reveal_strlit(",\"message\":");
    reveal_strlit("}");
    let v = encode_error_value(e);
    let d = dec_digits_signed(e.code);
    let dl = d.len() as int;
    let ml = e.message.len() as int;
    assert(v.len() == 8 + dl + 11 + ml + 2 + 1);
    lemma_char_within(s, i, v, 0);
    assert(s[i] == '{');
    assert(!match_lit(s, i, "null"@)) by {
        if match_lit(s, i, "null"@) {
            assert(s.subrange(i, i + 4)[0] == 'n');
        }
    }
    lemma_slice_within(s, i, v, 0, 8);
    assert(v.subrange(0, 8) =~= "{\"code\":"@);
    assert(match_lit(s, i, "{\"code\":"@));
    let j = i + 8;
    lemma_slice_within(s, i, v, 8, 8 + dl);
    assert(v.subrange(8, 8 + dl) =~= d);
    lemma_char_within(s, i, v, 8 + dl);
    assert(s[j + dl] == ',');
    assert(!is_digit(',')) by {
        assert(',' as u32 == 44);
    }
    lemma_parse_int_at(s, j, e.code);
    let k = j + dl;
    lemma_slice_within(s, i, v, 8 + dl, 8 + dl + 11);
    assert(v.subrange(8 + dl, 8 + dl + 11) =~= ",\"message\":"@);
    assert(match_lit(s, k, ",\"message\":"@));
    let m = k + 11;
    lemma_slice_within(s, i, v, 8 + dl + 11, 8 + dl + 11 + ml + 2);
    assert(v.subrange(8 + dl + 11, 8 + dl + 11 + ml + 2) =~= encode_string(e.message));
    lemma_parse_string_at(s, m, e.message);
    let f = m + ml + 2;
    lemma_char_within(s, i, v, 8 + dl + 11 + ml + 2);
    assert(s[f] == '}');
    assert(s.subrange(f, f + 1) =~= "}"@);
    assert(match_lit(s, f, "}"@));
    assert((ErrorData { code: e.code, message: e.message }) == e);
}

/// The grammar accepts every canonical response line and decodes it
/// to exactly the response it carries: decoding inverts the wire
/// encoding, so a well-formed response arriving on the stream is
/// never mistaken for noise and never decoded to another value.
#[verifier::rlimit(50)]
pub proof fn lemma_parse_of_canonical(r: ResponseData)
    requires
        resp_wf(r),
    ensures
        spec_parse_response(spec_encode_response(r)) == Option::Some(r),
{
    reveal_strlit("{\"id\":");
    reveal_strlit(",\"result\":");
    reveal_strlit(",\"error\":");
    reveal_strlit("}");
    let s = spec_encode_response(r);
    let h = "{\"id\":"@;
    let d = dec_digits(r.id);
    lemma_dec_digits_canonical(r.id);
    assert(h.len() == 6);
    assert(s.subrange(0, 6) =~= h);
    assert(match_lit(s, 0, h));
    let i2 = 6 + d.len() as int;
    assert(s.subrange(6, i2) =~= d);
    assert(!is_digit(',')) by {
        assert(',' as u32 == 44);
    }
    assert(!is_digit('}')) by {
        assert('}' as u32 == 125);
    }
    match r.result {
        Option::None => {
            match r.error {
                Option::None => {
                    assert(s[i2] == '}');
                    lemma_parse_id_at(s, 6, r.id);
                    assert(s.subrange(i2, i2 + 1) =~= "}"@);
                    assert(match_lit(s, i2, "}"@));
                    assert(i2 + 1 == s.len());
                    assert((ResponseData {
                        id: r.id,
                        result: Option::None,
                        error: Option::None,
                    }) == r);
                },
                Option::Some(e) => {
                    let ef = encode_error_field(e);
                    let ev = encode_error_value(e);
                    assert(ef == ",\"error\":"@ + ev);
                    assert(s[i2] == ',');
                    lemma_parse_id_at(s, 6, r.id);
                    assert(!match_lit(s, i2, "}"@)) by {
                        if match_lit(s, i2, "}"@) {
                            assert(s.subrange(i2, i2 + 1)[0] == '}');
                        }
                    }
                    assert(!match_lit(s, i2, ",\"result\":"@)) by {
                        if match_lit(s, i2, ",\"result\":"@) {
                            assert(s.subrange(i2, i2 + 10)[2] == 'r');
                        }
                    }
                    assert(s.subrange(i2, i2 + 9) =~= ",\"error\":"@);
                    assert(match_lit(s, i2, ",\"error\":"@));
                    let i5 = i2 + 9;
                    assert(s.subrange(i5, i5 + ev.len()) =~= ev);
                    lemma_parse_error_value_at(s, i5, e);
                    let f = i5 + ev.len() as int;
                    assert(s[f] == '}');
                    assert(s.subrange(f, f + 1) =~= "}"@);
                    assert(match_lit(s, f, "}"@));
                    assert(f + 1 == s.len());
                    assert((ResponseData {
                        id: r.id,
                        result: Option::None,
                        error: Option::Some(e),
                    }) == r);
                },
            }
        },
        Option::Some(items) => {
            let rf = encode_result_field(items);
            let rv = encode_result_value(items);
            assert(rf == ",\"result\":"@ + rv);
            assert(s[i2] == ',');
            lemma_parse_id_at(s, 6, r.id);
            assert(!match_lit(s, i2, "}"@)) by {
                if match_lit(s, i2, "}"@) {
                    assert(s.subrange(i2, i2 + 1)[0] == '}');
                }
            }
            assert(s.subrange(i2, i2 + 10) =~= ",\"result\":"@);
            assert(match_lit(s, i2, ",\"result\":"@));
            let i3 = i2 + 10;
            assert(s.subrange(i3, i3 + rv.len()) =~= rv);
            lemma_parse_result_value_at(s, i3, items);
            let i4 = i3 + rv.len() as int;
            match r.error {
                Option::None => {
                    assert(s[i4] == '}');
                    assert(s.subrange(i4, i4 + 1) =~= "}"@);
                    assert(match_lit(s, i4, "}"@));
                    assert(i4 + 1 == s.len());
                    assert((ResponseData {
                        id: r.id,
                        result: Option::Some(items),
                        error: Option::None,
                    }) == r);
                },
                Option::Some(e) => {
                    let ef = encode_error_field(e);
                    let ev = encode_error_value(e);
                    assert(ef == ",\"error\":"@ + ev);
                    assert(s[i4] == ',');
                    assert(!match_lit(s, i4, "}"@)) by {
                        if match_lit(s, i4, "}"@) {
                            assert(s.subrange(i4, i4 + 1)[0] == '}');
                        }
                    }
                    assert(s.subrange(i4, i4 + 9) =~= ",\"error\":"@);
                    assert(match_lit(s, i4, ",\"error\":"@));
                    let i5 = i4 + 9;
                    assert(s.subrange(i5, i5 + ev.len()) =~= ev);
                    lemma_parse_error_value_at(s, i5, e);
                    let f = i5 + ev.len() as int;
                    assert(s[f] == '}');
                    assert(s.subrange(f, f + 1) =~= "}"@);
                    assert(match_lit(s, f, "}"@));
                    assert(f + 1 == s.len());
                    assert((ResponseData {
                        id: r.id,
                        result: Option::Some(items),
                        error: Option::Some(e),
                    }) == r);
                },
            }
        },
    }
}

} // verus!
