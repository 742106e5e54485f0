//! Low-level text routines for the line protocol: decimal digits,
//! JSON string escaping, literal matching and character-run scanning.
//! Everything here is stated over `Seq<char>`, the view of `str`.

use vstd::prelude::*;
use vstd::string::*;

verus! {

/// Character for one decimal digit value.
pub open spec fn digit_char(d: int) -> char {
    if d == 0 {
        '0'
    } else if d == 1 {
        '1'
    } else if d == 2 {
        '2'
    } else if d == 3 {
        '3'
    } else if d == 4 {
        '4'
    } else if d == 5 {
        '5'
    } else if d == 6 {
        '6'
    } else if d == 7 {
        '7'
    } else if d == 8 {
        '8'
    } else {
        '9'
    }
}

/// Character for one hexadecimal digit value, lower case.
pub open spec fn hex_char(d: int) -> char {
    if d < 10 {
        digit_char(d)
    } else if d == 10 {
        'a'
    } else if d == 11 {
        'b'
    } else if d == 12 {
        'c'
    } else if d == 13 {
        'd'
    } else if d == 14 {
        'e'
    } else {
        'f'
    }
}

/// Decimal representation of a nonnegative value, most significant
/// digit first, no leading zeros.
pub open spec fn dec_digits(n: int) -> Seq<char>
    decreases n,
{
    if n < 10 {
        seq![digit_char(n)]
    } else {
        dec_digits(n / 10).push(digit_char(n % 10))
    }
}

/// Decimal representation of a signed value: a minus sign before the
/// digits when negative.
pub open spec fn dec_digits_signed(n: int) -> Seq<char> {
    if n < 0 {
        seq!['-'] + dec_digits(-n)
    } else {
        dec_digits(n)
    }
}

/// Appends the character for one decimal digit value.
pub fn append_digit(out: &mut String, d: u8)
    requires
        d < 10,
    ensures
        final(out)@ == old(out)@ + seq![digit_char(d as int)],
{
    proof {
        reveal_strlit("0");
        reveal_strlit("1");
        reveal_strlit("2");
        reveal_strlit("3");
        reveal_strlit("4");
        reveal_strlit("5");
        reveal_strlit("6");
        reveal_strlit("7");
        reveal_strlit("8");
        reveal_strlit("9");
        assert("0"@ =~= seq!['0']);
        assert("1"@ =~= seq!['1']);
        assert("2"@ =~= seq!['2']);
        assert("3"@ =~= seq!['3']);
        assert("4"@ =~= seq!['4']);
        assert("5"@ =~= seq!['5']);
        assert("6"@ =~= seq!['6']);
        assert("7"@ =~= seq!['7']);
        assert("8"@ =~= seq!['8']);
        assert("9"@ =~= seq!['9']);
    }
    match d {
        0 => out.append("0"),
        1 => out.append("1"),
        2 => out.append("2"),
        3 => out.append("3"),
        4 => out.append("4"),
        5 => out.append("5"),
        6 => out.append("6"),
        7 => out.append("7"),
        8 => out.append("8"),
        _ => out.append("9"),
    }
}

/// Appends the lower-case character for one hexadecimal digit value.
pub fn append_hex_digit(out: &mut String, d: u32)
    requires
        d < 16,
    ensures
        final(out)@ == old(out)@ + seq![hex_char(d as int)],
{
    if d < 10 {
        append_digit(out, d as u8);
    } else {
        proof {
            reveal_strlit("a");
            reveal_strlit("b");
            reveal_strlit("c");
            reveal_strlit("d");
            reveal_strlit("e");
            reveal_strlit("f");
            assert("a"@ =~= seq!['a']);
            assert("b"@ =~= seq!['b']);
            assert("c"@ =~= seq!['c']);
            assert("d"@ =~= seq!['d']);
            assert("e"@ =~= seq!['e']);
            assert("f"@ =~= seq!['f']);
        }
        match d {
            10 => out.append("a"),
            11 => out.append("b"),
            12 => out.append("c"),
            13 => out.append("d"),
            14 => out.append("e"),
            _ => out.append("f"),
        }
    }
}

/// Appends the decimal representation of `n`.
pub fn append_dec_u64(out: &mut String, n: u64)
    ensures
        final(out)@ == old(out)@ + dec_digits(n as int),
    decreases n,
{
    if n >= 10 {
        append_dec_u64(out, n / 10);
        append_digit(out, (n % 10) as u8);
        proof {
            assert(final(out)@ =~= old(out)@ + dec_digits(n as int));
        }
    } else {
        append_digit(out, n as u8);
    }
}

/// Appends the decimal representation of a signed value.
pub fn append_dec_i64(out: &mut String, n: i64)
    requires
        n > i64::MIN,
    ensures
        final(out)@ == old(out)@ + dec_digits_signed(n as int),
{
    if n < 0 {
        proof {
            reveal_strlit("-");
            assert("-"@ =~= seq!['-']);
        }
        out.append("-");
        append_dec_u64(out, (-n) as u64);
        proof {
            assert(final(out)@ =~= old(out)@ + dec_digits_signed(n as int));
        }
    } else {
        append_dec_u64(out, n as u64);
    }
}

/// How one character appears inside a JSON string token: quote and
/// backslash are escaped, control characters take their short escape
/// or the `\u00XX` form, everything else stands for itself.
pub open spec fn escape_char(c: char) -> Seq<char> {
    if c == '"' {
        "\\\""@
    } else if c == '\\' {
        "\\\\"@
    } else if c == '\u{8}' {
        "\\b"@
    } else if c == '\u{9}' {
        "\\t"@
    } else if c == '\u{A}' {
        "\\n"@
    } else if c == '\u{C}' {
        "\\f"@
    } else if c == '\u{D}' {
        "\\r"@
    } else if (c as u32) < 32 {
        "\\u00"@ + seq![hex_char(c as u32 as int / 16), hex_char(c as u32 as int % 16)]
    } else {
        seq![c]
    }
}

/// The body of a JSON string token denoting the character sequence `s`.
pub open spec fn json_escape(s: Seq<char>) -> Seq<char>
    decreases s.len(),
{
    if s.len() == 0 {
        Seq::empty()
    } else {
        json_escape(s.drop_last()) + escape_char(s.last())
    }
}

/// Appends the JSON string token body for `s`.
pub fn append_escaped(out: &mut String, s: &str)
    ensures
        final(out)@ == old(out)@ + json_escape(s@),
{
    let len = s.unicode_len();
    let mut i: usize = 0;
    proof {
        assert(s@.subrange(0, 0) =~= Seq::<char>::empty());
    }
    while i < len
        invariant
            i <= len,
            len == s@.len(),
            out@ == old(out)@ + json_escape(s@.subrange(0, i as int)),
        decreases len - i,
    {
        let c = s.get_char(i);
        let u = c as u32;
        if c == '"' {
            out.append("\\\"");
            proof {
                reveal_strlit("\\\"");
            }
        } else if c == '\\' {
            out.append("\\\\");
            proof {
                reveal_strlit("\\\\");
            }
        } else if u == 8 {
            out.append("\\b");
            proof {
                reveal_strlit("\\b");
            }
        } else if u == 9 {
            out.append("\\t");
            proof {
                reveal_strlit("\\t");
            }
        } else if u == 10 {
            out.append("\\n");
            proof {
                reveal_strlit("\\n");
            }
        } else if u == 12 {
            out.append("\\f");
            proof {
                reveal_strlit("\\f");
            }
        } else if u == 13 {
            out.append("\\r");
            proof {
                reveal_strlit("\\r");
            }
        } else if u < 32 {
            out.append("\\u00");
            append_hex_digit(out, u / 16);
            append_hex_digit(out, u % 16);
            proof {
                reveal_strlit("\\u00");
            }
        } else {
            let piece = s.substring_char(i, i + 1);
            out.append(piece);
            proof {
                assert(piece@ =~= seq![c]);
            }
        }
        proof {
            let pre = s@.subrange(0, i as int);
            let post = s@.subrange(0, i + 1 as int);
            assert(post.drop_last() =~= pre);
            assert(post.last() == c);
            assert(out@ =~= old(out)@ + json_escape(post));
        }
        i = i + 1;
    }
    proof {
        assert(s@.subrange(0, len as int) =~= s@);
    }
}

/// Whether the characters of `lit` stand in `s` beginning at `i`.
pub open spec fn match_lit(s: Seq<char>, i: int, lit: Seq<char>) -> bool {
    0 <= i && i + lit.len() <= s.len() && s.subrange(i, i + lit.len()) == lit
}

/// Compares the characters of `lit` against `s` at position `i`.
pub fn eat_lit(s: &str, i: usize, lit: &str) -> (r: bool)
    requires
        i <= s@.len(),
    ensures
        r == match_lit(s@, i as int, lit@),
{
    let n = lit.unicode_len();
    let sl = s.unicode_len();
    if sl - i < n {
        return false;
    }
    let mut j: usize = 0;
    while j < n
        invariant
            j <= n,
            n == lit@.len(),
            sl == s@.len(),
            i + n <= sl,
            forall|k: int| 0 <= k < j ==> s@[i + k] == lit@[k],
        decreases n - j,
    {
        if s.get_char(i + j) != lit.get_char(j) {
            proof {
                assert(!match_lit(s@, i as int, lit@)) by {
                    if match_lit(s@, i as int, lit@) {
                        assert(s@.subrange(i as int, i + n)[j as int] == lit@[j as int]);
                    }
                }
            }
            return false;
        }
        j = j + 1;
    }
    proof {
        assert(s@.subrange(i as int, i + n) =~= lit@);
    }
    true
}

/// Tests [`is_digit`] at one position.
pub fn digit_at(s: &str, j: usize) -> (r: bool)
    requires
        j < s@.len(),
    ensures
        r == is_digit(s@[j as int]),
{
    let u = s.get_char(j) as u32;
    48 <= u && u <= 57
}

/// Tests [`is_plain`] at one position.
pub fn plain_at(s: &str, j: usize) -> (r: bool)
    requires
        j < s@.len(),
    ensures
        r == is_plain(s@[j as int]),
{
    let c = s.get_char(j);
    c != '"' && c != '\\' && c as u32 >= 32
}

/// Tests [`is_line_ws`] at one position.
pub fn ws_at(s: &str, j: usize) -> (r: bool)
    requires
        j < s@.len(),
    ensures
        r == is_line_ws(s@[j as int]),
{
    let c = s.get_char(j);
    c == ' ' || c == '\t' || c == '\r' || c == '\n'
}

/// Whether `c` is an ASCII decimal digit.
pub open spec fn is_digit(c: char) -> bool {
    '0' as u32 <= c as u32 && c as u32 <= '9' as u32
}

/// Numeric value of one decimal digit character.
pub open spec fn digit_value(c: char) -> int {
    c as u32 - '0' as u32
}

/// Value denoted by a string of decimal digits, most significant first.
pub open spec fn dec_value(s: Seq<char>) -> int
    decreases s.len(),
{
    if s.len() == 0 {
        0
    } else {
        dec_value(s.drop_last()) * 10 + digit_value(s.last())
    }
}

/// Index just past the run of decimal digits beginning at `i`.
pub open spec fn digits_end(s: Seq<char>, i: int) -> int
    decreases s.len() - i,
{
    if 0 <= i < s.len() && is_digit(s[i]) {
        digits_end(s, i + 1)
    } else {
        i
    }
}

pub proof fn lemma_digits_end_bounds(s: Seq<char>, i: int)
    requires
        0 <= i <= s.len(),
    ensures
        i <= digits_end(s, i) <= s.len(),
    decreases s.len() - i,
{
    if i < s.len() && is_digit(s[i]) {
        lemma_digits_end_bounds(s, i + 1);
    }
}

/// Scans past the run of decimal digits beginning at `i`.
pub fn scan_digits(s: &str, i: usize) -> (j: usize)
    requires
        i <= s@.len(),
    ensures
        j == digits_end(s@, i as int),
        i <= j <= s@.len(),
        j < s@.len() ==> !is_digit(s@[j as int]),
{
    let len = s.unicode_len();
    let mut j = i;
    while j < len && digit_at(s, j)
        invariant
            i <= j <= len,
            len == s@.len(),
            digits_end(s@, i as int) == digits_end(s@, j as int),
        decreases len - j,
    {
        j = j + 1;
    }
    proof {
        assert(digits_end(s@, j as int) == j);
    }
    j
}

/// 10 raised to `n`, the number of values `n` decimal digits can denote.
pub open spec fn pow10(n: int) -> int
    decreases n,
{
    if n <= 0 {
        1
    } else {
        10 * pow10(n - 1)
    }
}

pub proof fn lemma_pow10_positive(n: int)
    ensures
        pow10(n) >= 1,
    decreases n,
{
    if n > 0 {
        lemma_pow10_positive(n - 1);
    }
}

/// Every character of a digit run, as delimited by [`digits_end`], is
/// a digit.
pub proof fn lemma_digits_end_digits(s: Seq<char>, i: int)
    requires
        0 <= i <= s.len(),
    ensures
        forall|m: int| i <= m < digits_end(s, i) ==> is_digit(#[trigger] s[m]),
    decreases s.len() - i,
{
    lemma_digits_end_bounds(s, i);
    if i < s.len() && is_digit(s[i]) {
        lemma_digits_end_digits(s, i + 1);
    }
}

/// Value of the digit run `s[i..j)`, which must hold at most nine
/// digits.
pub fn dec_run_value(s: &str, i: usize, j: usize) -> (v: u32)
    requires
        i <= j <= s@.len(),
        j - i <= 9,
        forall|m: int| i <= m < j ==> is_digit(#[trigger] s@[m]),
    ensures
        v as int == dec_value(s@.subrange(i as int, j as int)),
        (v as int) < pow10(j - i),
{
    proof {
        reveal_with_fuel(pow10, 10);
        assert(s@.subrange(i as int, i as int) =~= Seq::<char>::empty());
    }
    let mut acc: u32 = 0;
    let mut k = i;
    while k < j
        invariant
            i <= k <= j,
            j <= s@.len(),
            j - i <= 9,
            forall|m: int| i <= m < j ==> is_digit(#[trigger] s@[m]),
            acc as int == dec_value(s@.subrange(i as int, k as int)),
            (acc as int) < pow10(k - i),
        decreases j - k,
    {
        proof {
            reveal_with_fuel(pow10, 10);
        }
        let c = s.get_char(k);
        let d = (c as u32) - 48;
        acc = acc * 10 + d;
        proof {
            let pre = s@.subrange(i as int, k as int);
            let post = s@.subrange(i as int, k + 1 as int);
            assert(post.drop_last() =~= pre);
            assert(post.last() == s@[k as int]);
        }
        k = k + 1;
    }
    acc
}

/// The decimal representation of `n` is nonempty, holds digits only,
/// has no leading zero unless `n` is zero, and denotes `n`.
pub proof fn lemma_dec_digits_canonical(n: int)
    requires
        n >= 0,
    ensures
        dec_digits(n).len() >= 1,
        forall|i: int| 0 <= i < dec_digits(n).len() ==> is_digit(#[trigger] dec_digits(n)[i]),
        n > 0 ==> dec_digits(n)[0] != '0',
        n == 0 ==> dec_digits(n) =~= seq!['0'],
        dec_value(dec_digits(n)) == n,
    decreases n,
{
    if n < 10 {
        assert(is_digit(digit_char(n)));
        assert(digit_value(digit_char(n)) == n);
        let d = dec_digits(n);
        assert(d == seq![digit_char(n)]);
        assert(d.drop_last() =~= Seq::<char>::empty());
        assert(dec_value(Seq::<char>::empty()) == 0);
        assert(dec_value(d) == dec_value(d.drop_last()) * 10 + digit_value(d.last()));
    } else {
        lemma_dec_digits_canonical(n / 10);
        let d = dec_digits(n);
        let p = dec_digits(n / 10);
        assert(d == p.push(digit_char(n % 10)));
        assert(d.drop_last() =~= p);
        assert(d.last() == digit_char(n % 10));
        assert(digit_value(digit_char(n % 10)) == n % 10);
        assert(d[0] == p[0]);
        assert(forall|i: int| 0 <= i < d.len() ==> is_digit(#[trigger] d[i])) by {
            assert(forall|i: int| 0 <= i < p.len() ==> is_digit(#[trigger] p[i]));
            assert(forall|i: int| 0 <= i < d.len() - 1 ==> d[i] == p[i]);
            assert(is_digit(d[d.len() - 1]));
        }
    }
}

/// A value below `pow10(k)` takes at most `k` decimal digits.
pub proof fn lemma_dec_digits_len(n: int, k: int)
    requires
        n >= 0,
        k >= 1,
        n < pow10(k),
    ensures
        dec_digits(n).len() <= k,
    decreases k,
{
    if n >= 10 {
        assert(pow10(k) == 10 * pow10(k - 1));
        lemma_pow10_positive(k - 1);
        assert(k >= 2) by {
            if k == 1 {
                assert(pow10(1) == 10);
            }
        }
        lemma_dec_digits_len(n / 10, k - 1);
    }
}

/// A subrange taken inside a known subrange reads from the known one.
pub proof fn lemma_slice_within(s: Seq<char>, i: int, body: Seq<char>, a: int, b: int)
    requires
        0 <= i,
        i + body.len() <= s.len(),
        s.subrange(i, i + body.len()) == body,
        0 <= a <= b <= body.len(),
    ensures
        s.subrange(i + a, i + b) =~= body.subrange(a, b),
{
    assert forall|m: int| 0 <= m < b - a implies s.subrange(i + a, i + b)[m] == body.subrange(
        a,
        b,
    )[m] by {
        assert(s[i + a + m] == s.subrange(i, i + body.len())[a + m]);
    }
}

/// A character inside a known subrange reads from it.
pub proof fn lemma_char_within(s: Seq<char>, i: int, body: Seq<char>, a: int)
    requires
        0 <= i,
        i + body.len() <= s.len(),
        s.subrange(i, i + body.len()) == body,
        0 <= a < body.len(),
    ensures
        s[i + a] == body[a],
{
    assert(s[i + a] == s.subrange(i, i + body.len())[a]);
}

/// A digit run delimited on the right by the end of the string or a
/// non-digit ends exactly there.
pub proof fn lemma_digits_end_concat(s: Seq<char>, i: int, j: int)
    requires
        0 <= i <= j <= s.len(),
        forall|m: int| i <= m < j ==> is_digit(#[trigger] s[m]),
        j == s.len() || !is_digit(s[j]),
    ensures
        digits_end(s, i) == j,
    decreases j - i,
{
    if i < j {
        lemma_digits_end_concat(s, i + 1, j);
    }
}

/// A plain run delimited on the right by the end of the string or a
/// non-plain character ends exactly there.
pub proof fn lemma_plain_end_concat(s: Seq<char>, i: int, j: int)
    requires
        0 <= i <= j <= s.len(),
        forall|m: int| i <= m < j ==> is_plain(#[trigger] s[m]),
        j == s.len() || !is_plain(s[j]),
    ensures
        plain_end(s, i) == j,
    decreases j - i,
{
    if i < j {
        lemma_plain_end_concat(s, i + 1, j);
    }
}

pub proof fn lemma_dec_value_nonneg(s: Seq<char>)
    requires
        forall|i: int| 0 <= i < s.len() ==> is_digit(#[trigger] s[i]),
    ensures
        dec_value(s) >= 0,
    decreases s.len(),
{
    if s.len() > 0 {
        assert(forall|i: int|
            0 <= i < s.len() - 1 ==> is_digit(#[trigger] s.drop_last()[i]));
        lemma_dec_value_nonneg(s.drop_last());
    }
}

/// The value of a digit string only grows as digits are appended.
pub proof fn lemma_dec_value_prefix_le(s: Seq<char>, m: int)
    requires
        0 <= m <= s.len(),
        forall|i: int| 0 <= i < s.len() ==> is_digit(#[trigger] s[i]),
    ensures
        dec_value(s.subrange(0, m)) <= dec_value(s),
    decreases s.len() - m,
{
    if m == s.len() {
        assert(s.subrange(0, m) =~= s);
    } else {
        let a = s.subrange(0, m);
        let b = s.subrange(0, m + 1);
        assert(b.drop_last() =~= a);
        assert(b.last() == s[m]);
        assert(forall|i: int| 0 <= i < a.len() ==> is_digit(#[trigger] a[i]));
        lemma_dec_value_nonneg(a);
        lemma_dec_value_prefix_le(s, m + 1);
    }
}

/// Value denoted by a whole string of decimal digits, when it fits in
/// sixteen bits. Leading zeros are accepted — this is the form the
/// bulb reports levels in, not a token of the response grammar.
pub open spec fn spec_parse_u16(s: Seq<char>) -> Option<int> {
    if s.len() > 0 && (forall|i: int| 0 <= i < s.len() ==> is_digit(#[trigger] s[i]))
        && dec_value(s) <= 65535 {
        Option::Some(dec_value(s))
    } else {
        Option::None
    }
}

/// Parses a whole string of decimal digits as a 16-bit value.
pub fn parse_u16(s: &str) -> (r: Option<u16>)
    ensures
        match r {
            Option::Some(v) => spec_parse_u16(s@) == Option::Some(v as int),
            Option::None => spec_parse_u16(s@) is None,
        },
{
    let len = s.unicode_len();
    if len == 0 {
        return None;
    }
    let j = scan_digits(s, 0);
    if j != len {
        proof {
            assert(!is_digit(s@[j as int]));
        }
        return None;
    }
    proof {
        lemma_digits_end_digits(s@, 0);
        assert(s@.subrange(0, 0) =~= Seq::<char>::empty());
    }
    let mut acc: u32 = 0;
    let mut k: usize = 0;
    while k < len
        invariant
            k <= len,
            len == s@.len(),
            forall|m: int| 0 <= m < len ==> is_digit(#[trigger] s@[m]),
            acc as int == dec_value(s@.subrange(0, k as int)),
            acc <= 65535,
        decreases len - k,
    {
        let c = s.get_char(k);
        let d = (c as u32) - 48;
        let next = acc * 10 + d;
        proof {
            let pre = s@.subrange(0, k as int);
            let post = s@.subrange(0, k + 1 as int);
            assert(post.drop_last() =~= pre);
            assert(post.last() == s@[k as int]);
        }
        if next > 65535 {
            proof {
                lemma_dec_value_prefix_le(s@, k + 1);
            }
            return None;
        }
        acc = next;
        k = k + 1;
    }
    proof {
        assert(s@.subrange(0, len as int) =~= s@);
    }
    Some(acc as u16)
}

/// Whether `c` may stand unescaped inside a string token of the
/// response grammar: anything but a quote, a backslash or a control
/// character.
pub open spec fn is_plain(c: char) -> bool {
    c != '"' && c != '\\' && c as u32 >= 32
}

/// Index just past the run of plain characters beginning at `i`.
pub open spec fn plain_end(s: Seq<char>, i: int) -> int
    decreases s.len() - i,
{
    if 0 <= i < s.len() && is_plain(s[i]) {
        plain_end(s, i + 1)
    } else {
        i
    }
}

pub proof fn lemma_plain_end_bounds(s: Seq<char>, i: int)
    requires
        0 <= i <= s.len(),
    ensures
        i <= plain_end(s, i) <= s.len(),
    decreases s.len() - i,
{
    if i < s.len() && is_plain(s[i]) {
        lemma_plain_end_bounds(s, i + 1);
    }
}

/// Scans past the run of plain characters beginning at `i`.
pub fn scan_plain(s: &str, i: usize) -> (j: usize)
    requires
        i <= s@.len(),
    ensures
        j == plain_end(s@, i as int),
        i <= j <= s@.len(),
{
    let len = s.unicode_len();
    let mut j = i;
    while j < len && plain_at(s, j)
        invariant
            i <= j <= len,
            len == s@.len(),
            plain_end(s@, i as int) == plain_end(s@, j as int),
        decreases len - j,
    {
        j = j + 1;
    }
    proof {
        assert(plain_end(s@, j as int) == j);
    }
    j
}

/// Whether `c` is one of the whitespace characters a received line is
/// trimmed of: space, tab, carriage return or line feed.
pub open spec fn is_line_ws(c: char) -> bool {
    c == ' ' || c == '\t' || c == '\r' || c == '\n'
}

/// `s` without its trailing whitespace.
pub open spec fn trim_end_spec(s: Seq<char>) -> Seq<char>
    decreases s.len(),
{
    if s.len() > 0 && is_line_ws(s.last()) {
        trim_end_spec(s.drop_last())
    } else {
        s
    }
}

/// Strips trailing whitespace, as a received line is stripped of its
/// CRLF terminator before decoding.
pub fn trim_line<'a>(s: &'a str) -> (r: &'a str)
    ensures
        r@ == trim_end_spec(s@),
{
    let len = s.unicode_len();
    let mut e = len;
    proof {
        assert(s@.subrange(0, len as int) =~= s@);
    }
    while e > 0 && ws_at(s, e - 1)
        invariant
            e <= len,
            len == s@.len(),
            trim_end_spec(s@) == trim_end_spec(s@.subrange(0, e as int)),
        decreases e,
    {
        proof {
            let cur = s@.subrange(0, e as int);
            assert(cur.last() == s@[e - 1]);
            assert(cur.drop_last() =~= s@.subrange(0, e - 1));
        }
        e = e - 1;
    }
    let r = s.substring_char(0, e);
    proof {
        let cur = s@.subrange(0, e as int);
        assert(trim_end_spec(cur) == cur);
        assert(r@ =~= cur);
    }
    r
}

/// Compares two strings character by character.
pub fn str_eq(a: &str, b: &str) -> (r: bool)
    ensures
        r == (a@ == b@),
{
    let la = a.unicode_len();
    let lb = b.unicode_len();
    if la != lb {
        return false;
    }
    let mut i: usize = 0;
    while i < la
        invariant
            i <= la,
            la == a@.len(),
            la == b@.len(),
            forall|k: int| 0 <= k < i ==> a@[k] == b@[k],
        decreases la - i,
    {
        if a.get_char(i) != b.get_char(i) {
            return false;
        }
        i = i + 1;
    }
    proof {
        assert(a@ =~= b@);
    }
    true
}

} // verus!
