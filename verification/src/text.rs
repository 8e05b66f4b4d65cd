//! Character-level helpers shared by the parsers of this crate: substring
//! search, whitespace trimming, tokenisation and decimal numbers.

use vstd::prelude::*;

verus! {

/// A needle occurs in a haystack at position `at`.
pub open spec fn contains_at(hay: Seq<char>, needle: Seq<char>, at: int) -> bool {
    &&& 0 <= at
    &&& at + needle.len() <= hay.len()
    &&& hay.subrange(at, at + needle.len()) == needle
}

/// A needle occurs somewhere in a haystack.
pub open spec fn contains_seq(hay: Seq<char>, needle: Seq<char>) -> bool {
    exists|at: int| contains_at(hay, needle, at)
}

/// Compares the needle against the haystack at one position.
pub(crate) fn match_at(hay: &str, needle: &str, at: usize) -> (r: bool)
    requires
        at + needle@.len() <= hay@.len(),
        hay@.len() <= usize::MAX,
    ensures
        r == contains_at(hay@, needle@, at as int),
{
    let nlen: usize = needle.unicode_len();
    let mut j: usize = 0;
    while j < nlen
        invariant
            nlen == needle@.len(),
            at + nlen <= hay@.len(),
            hay@.len() <= usize::MAX,
            0 <= j <= nlen,
            forall|k: int| 0 <= k < j ==> hay@[at + k] == needle@[k],
        decreases nlen - j,
    {
        if hay.get_char(at + j) != needle.get_char(j) {
            proof {
                assert(hay@.subrange(at as int, at + needle@.len())[j as int] == hay@[at + j]);
            }
            return false;
        }
        j = j + 1;
    }
    proof {
        assert(hay@.subrange(at as int, at + needle@.len()) =~= needle@);
    }
    true
}

/// Position of the first occurrence of `needle` in `hay`, if any.
pub fn find_sub(hay: &str, needle: &str) -> (r: Option<usize>)
    ensures
        match r {
            Some(i) => contains_at(hay@, needle@, i as int) && (forall|j: int|
                0 <= j < i ==> !contains_at(hay@, needle@, j)),
            None => !contains_seq(hay@, needle@),
        },
{
    let hlen: usize = hay.unicode_len();
    let nlen: usize = needle.unicode_len();
    if nlen > hlen {
        return None;
    }
    if nlen == 0 {
        proof {
            assert(hay@.subrange(0, 0) =~= needle@);
        }
        return Some(0);
    }
    let mut i: usize = 0;
    while i <= hlen - nlen
        invariant
            hlen == hay@.len(),
            nlen == needle@.len(),
            0 < nlen <= hlen,
            0 <= i <= hlen - nlen + 1,
            forall|j: int| 0 <= j < i ==> !contains_at(hay@, needle@, j),
        decreases hlen - i,
    {
        if match_at(hay, needle, i) {
            return Some(i);
        }
        i = i + 1;
    }
    None
}

/// Position of the first occurrence of a needle, or a negative value if
/// there is none.
pub open spec fn first_occurrence(hay: Seq<char>, needle: Seq<char>) -> int
    decreases hay.len(),
{
    if contains_at(hay, needle, 0) {
        0
    } else if hay.len() == 0 {
        -1
    } else {
        let r = first_occurrence(hay.drop_first(), needle);
        if r < 0 {
            -1
        } else {
            r + 1
        }
    }
}

proof fn lemma_contains_at_shift(hay: Seq<char>, needle: Seq<char>, j: int)
    requires
        hay.len() > 0,
        0 <= j,
    ensures
        contains_at(hay.drop_first(), needle, j) == contains_at(hay, needle, j + 1),
{
    if j + needle.len() <= hay.len() - 1 {
        assert(hay.drop_first().subrange(j, j + needle.len()) =~= hay.subrange(
            j + 1,
            j + 1 + needle.len(),
        ));
    }
}

/// When a match stands at `i` and none stands before it, `i` is the first
/// occurrence.
pub proof fn lemma_first_occurrence_at(hay: Seq<char>, needle: Seq<char>, i: int)
    requires
        contains_at(hay, needle, i),
        forall|j: int| 0 <= j < i ==> !contains_at(hay, needle, j),
    ensures
        first_occurrence(hay, needle) == i,
    decreases i,
{
    if i > 0 {
        lemma_contains_at_shift(hay, needle, i - 1);
        assert forall|j: int| 0 <= j < i - 1 implies !contains_at(
            hay.drop_first(),
            needle,
            j,
        ) by {
            lemma_contains_at_shift(hay, needle, j);
        }
        lemma_first_occurrence_at(hay.drop_first(), needle, i - 1);
    }
}

/// Whether `needle` occurs in `hay`.
pub fn str_contains(hay: &str, needle: &str) -> (r: bool)
    ensures
        r == contains_seq(hay@, needle@),
{
    match find_sub(hay, needle) {
        Some(i) => {
            proof {
                assert(contains_at(hay@, needle@, i as int));
            }
            true
        },
        None => false,
    }
}

/// Whitespace, as this crate's parsers understand it.
pub open spec fn is_ws(c: char) -> bool {
    c == ' ' || c == '\t' || c == '\n' || c == '\r'
}

/// Executable counterpart of [`is_ws`].
pub fn is_ws_char(c: char) -> (r: bool)
    ensures
        r == is_ws(c),
{
    c == ' ' || c == '\t' || c == '\n' || c == '\r'
}

/// The sequence with leading whitespace removed.
pub open spec fn trim_front(s: Seq<char>) -> Seq<char>
    decreases s.len(),
{
    if s.len() > 0 && is_ws(s[0]) {
        trim_front(s.drop_first())
    } else {
        s
    }
}

/// The sequence with trailing whitespace removed.
pub open spec fn trim_back(s: Seq<char>) -> Seq<char>
    decreases s.len(),
{
    if s.len() > 0 && is_ws(s.last()) {
        trim_back(s.drop_last())
    } else {
        s
    }
}

/// The sequence with whitespace removed from both ends.
pub open spec fn trimmed(s: Seq<char>) -> Seq<char> {
    trim_back(trim_front(s))
}

proof fn lemma_trim_front_skip(s: Seq<char>, a: int)
    requires
        0 <= a <= s.len(),
        forall|k: int| 0 <= k < a ==> is_ws(s[k]),
        a < s.len() ==> !is_ws(s[a]),
    ensures
        trim_front(s) == s.skip(a),
    decreases a,
{
    if a == 0 {
        assert(s.skip(0) =~= s);
    } else {
        lemma_trim_front_skip(s.drop_first(), a - 1);
        assert(s.drop_first().skip(a - 1) =~= s.skip(a));
    }
}

proof fn lemma_trim_back_take(s: Seq<char>, b: int)
    requires
        0 <= b <= s.len(),
        forall|k: int| b <= k < s.len() ==> is_ws(s[k]),
        b > 0 ==> !is_ws(s[b - 1]),
    ensures
        trim_back(s) == s.take(b),
    decreases s.len(),
{
    if b == s.len() {
        assert(s.take(b) =~= s);
        if s.len() > 0 {
            assert(!is_ws(s.last()));
        }
    } else {
        assert(is_ws(s.last()));
        lemma_trim_back_take(s.drop_last(), b);
        assert(s.drop_last().take(b) =~= s.take(b));
    }
}

/// A copy of `s` with leading and trailing whitespace removed.
pub fn trim_str(s: &str) -> (r: String)
    ensures
        r@ == trimmed(s@),
{
    let len: usize = s.unicode_len();
    let mut a: usize = 0;
    while a < len && is_ws_char(s.get_char(a))
        invariant
            len == s@.len(),
            0 <= a <= len,
            forall|k: int| 0 <= k < a ==> is_ws(s@[k]),
        decreases len - a,
    {
        a = a + 1;
    }
    proof {
        lemma_trim_front_skip(s@, a as int);
    }
    let mut b: usize = len;
    while b > a && is_ws_char(s.get_char(b - 1))
        invariant
            len == s@.len(),
            0 <= a <= b <= len,
            forall|k: int| 0 <= k < a ==> is_ws(s@[k]),
            a < len ==> !is_ws(s@[a as int]),
            forall|k: int| b <= k < len ==> is_ws(s@[k]),
        decreases b,
    {
        b = b - 1;
    }
    let r = s.substring_char(a, b).to_owned();
    proof {
        let front = s@.skip(a as int);
        lemma_trim_back_take(front, b - a);
        assert(front.take(b - a) =~= s@.subrange(a as int, b as int));
        if b > a {
            assert(front[b - a - 1] == s@[b as int - 1]);
        }
        assert(forall|k: int| b - a <= k < front.len() ==> is_ws(#[trigger] front[k]));
    }
    r
}

/// Length of the maximal whitespace-free prefix.
pub open spec fn token_len(s: Seq<char>) -> int
    decreases s.len(),
{
    if s.len() == 0 || is_ws(s[0]) {
        0
    } else {
        1 + token_len(s.drop_first())
    }
}

proof fn lemma_token_len_bounds(s: Seq<char>)
    ensures
        0 <= token_len(s) <= s.len(),
    decreases s.len(),
{
    if s.len() > 0 && !is_ws(s[0]) {
        lemma_token_len_bounds(s.drop_first());
    }
}

/// The whitespace-separated tokens of a sequence, in order.
pub open spec fn tokens(s: Seq<char>) -> Seq<Seq<char>>
    decreases s.len(),
    via tokens_decreases
{
    if s.len() == 0 {
        Seq::empty()
    } else if is_ws(s[0]) {
        tokens(s.drop_first())
    } else {
        seq![s.take(token_len(s))] + tokens(s.skip(token_len(s)))
    }
}

#[via_fn]
proof fn tokens_decreases(s: Seq<char>) {
    lemma_token_len_bounds(s);
    if s.len() > 0 && !is_ws(s[0]) {
        lemma_token_len_bounds(s.drop_first());
        assert(token_len(s) >= 1);
    }
}

proof fn lemma_token_len_at(s: Seq<char>, e: int)
    requires
        0 <= e <= s.len(),
        forall|k: int| 0 <= k < e ==> !is_ws(s[k]),
        e < s.len() ==> is_ws(s[e]),
    ensures
        token_len(s) == e,
    decreases e,
{
    if e > 0 {
        lemma_token_len_at(s.drop_first(), e - 1);
    }
}

/// Splits a string into its whitespace-separated tokens.
pub fn split_ws(s: &str) -> (r: Vec<String>)
    ensures
        r.deep_view() == tokens(s@),
    decreases s@.len(),
{
    let len: usize = s.unicode_len();
    if len == 0 {
        let r: Vec<String> = Vec::new();
        proof {
            assert(r.deep_view() =~= tokens(s@));
        }
        return r;
    }
    if is_ws_char(s.get_char(0)) {
        let rest = s.substring_char(1, len);
        proof {
            assert(rest@ =~= s@.drop_first());
        }
        return split_ws(rest);
    }
    let mut e: usize = 1;
    while e < len && !is_ws_char(s.get_char(e))
        invariant
            len == s@.len(),
            1 <= e <= len,
            forall|k: int| 0 <= k < e ==> !is_ws(s@[k]),
        decreases len - e,
    {
        e = e + 1;
    }
    proof {
        lemma_token_len_at(s@, e as int);
    }
    let tok = s.substring_char(0, e).to_owned();
    let rest = s.substring_char(e, len);
    let mut r = split_ws(rest);
    let ghost tail = r.deep_view();
    r.insert(0, tok);
    proof {
        assert(s@.take(token_len(s@)) =~= tok@);
        assert(s@.skip(token_len(s@)) =~= rest@);
        assert(r.deep_view() =~= seq![tok@] + tail);
    }
    r
}

/// Number of characters before the first line feed.
pub open spec fn line_len(s: Seq<char>) -> int
    decreases s.len(),
{
    if s.len() == 0 || s[0] == '\n' {
        0
    } else {
        1 + line_len(s.drop_first())
    }
}

proof fn lemma_line_len_bounds(s: Seq<char>)
    ensures
        0 <= line_len(s) <= s.len(),
    decreases s.len(),
{
    if s.len() > 0 && s[0] != '\n' {
        lemma_line_len_bounds(s.drop_first());
    }
}

proof fn lemma_line_len_at(s: Seq<char>, e: int)
    requires
        0 <= e <= s.len(),
        forall|k: int| 0 <= k < e ==> s[k] != '\n',
        e < s.len() ==> s[e] == '\n',
    ensures
        line_len(s) == e,
    decreases e,
{
    if e > 0 {
        lemma_line_len_at(s.drop_first(), e - 1);
    }
}

/// A line with a trailing carriage return removed.
pub open spec fn strip_cr(l: Seq<char>) -> Seq<char> {
    if l.len() > 0 && l.last() == '\r' {
        l.drop_last()
    } else {
        l
    }
}

/// The lines of a sequence, split at line feeds; a carriage return just
/// before a line feed is not part of the line, and a final segment without a
/// terminating line feed is kept as it stands.
pub open spec fn lines_of(s: Seq<char>) -> Seq<Seq<char>>
    decreases s.len(),
    via lines_of_decreases
{
    if s.len() == 0 {
        Seq::empty()
    } else if line_len(s) == s.len() {
        seq![s]
    } else {
        seq![strip_cr(s.take(line_len(s)))] + lines_of(s.skip(line_len(s) + 1))
    }
}

#[via_fn]
proof fn lines_of_decreases(s: Seq<char>) {
    lemma_line_len_bounds(s);
}

/// Splits a string into its lines.
pub fn split_lines(s: &str) -> (r: Vec<String>)
    ensures
        r.deep_view() == lines_of(s@),
    decreases s@.len(),
{
    let len: usize = s.unicode_len();
    if len == 0 {
        let r: Vec<String> = Vec::new();
        proof {
            assert(r.deep_view() =~= lines_of(s@));
        }
        return r;
    }
    let mut e: usize = 0;
    while e < len && s.get_char(e) != '\n'
        invariant
            len == s@.len(),
            0 <= e <= len,
            forall|k: int| 0 <= k < e ==> s@[k] != '\n',
        decreases len - e,
    {
        e = e + 1;
    }
    proof {
        lemma_line_len_at(s@, e as int);
    }
    if e == len {
        let mut r: Vec<String> = Vec::new();
        r.push(s.to_owned());
        proof {
            assert(r.deep_view() =~= lines_of(s@));
        }
        return r;
    }
    let head_end: usize = if e > 0 && s.get_char(e - 1) == '\r' {
        e - 1
    } else {
        e
    };
    let head = s.substring_char(0, head_end).to_owned();
    let rest = s.substring_char(e + 1, len);
    let mut r = split_lines(rest);
    let ghost tail = r.deep_view();
    r.insert(0, head);
    proof {
        assert(rest@ =~= s@.skip(line_len(s@) + 1));
        if e > 0 && s@[e - 1] == '\r' {
            assert(head@ =~= strip_cr(s@.take(line_len(s@))));
        } else {
            assert(head@ =~= strip_cr(s@.take(line_len(s@))));
        }
        assert(r.deep_view() =~= seq![head@] + tail);
    }
    r
}

/// The first line of a non-empty text, or the given fallback for an empty
/// one.
pub fn first_line_or(s: &str, fallback: &str) -> (r: String)
    ensures
        s@.len() == 0 ==> r@ == fallback@,
        s@.len() > 0 ==> r@ == lines_of(s@)[0],
{
    let len: usize = s.unicode_len();
    if len == 0 {
        return fallback.to_owned();
    }
    let mut e: usize = 0;
    while e < len && s.get_char(e) != '\n'
        invariant
            len == s@.len(),
            0 <= e <= len,
            forall|k: int| 0 <= k < e ==> s@[k] != '\n',
        decreases len - e,
    {
        e = e + 1;
    }
    proof {
        lemma_line_len_at(s@, e as int);
    }
    if e == len {
        return s.to_owned();
    }
    let head_end: usize = if e > 0 && s.get_char(e - 1) == '\r' {
        e - 1
    } else {
        e
    };
    let r = s.substring_char(0, head_end).to_owned();
    proof {
        assert(r@ =~= strip_cr(s@.take(line_len(s@))));
    }
    r
}

/// A decimal digit.
pub open spec fn is_digit(c: char) -> bool {
    '0' <= c && c <= '9'
}

/// The numeric value of a decimal digit.
pub open spec fn digit_val(c: char) -> int {
    c as int - '0' as int
}

/// Every character of the sequence is a decimal digit.
pub open spec fn all_digits(s: Seq<char>) -> bool {
    forall|i: int| 0 <= i < s.len() ==> is_digit(#[trigger] s[i])
}

/// The value of a sequence of decimal digits, most significant first.
pub open spec fn digits_val(s: Seq<char>) -> int
    decreases s.len(),
{
    if s.len() == 0 {
        0
    } else {
        digits_val(s.drop_last()) * 10 + digit_val(s.last())
    }
}

/// What parsing an unsigned decimal number yields: defined exactly for a
/// non-empty run of digits whose value fits in 32 bits.
pub open spec fn parse_u32_spec(s: Seq<char>) -> Option<u32> {
    if s.len() > 0 && all_digits(s) && digits_val(s) <= u32::MAX {
        Some(digits_val(s) as u32)
    } else {
        None
    }
}

proof fn lemma_digits_val_nonneg(s: Seq<char>)
    requires
        all_digits(s),
    ensures
        digits_val(s) >= 0,
    decreases s.len(),
{
    if s.len() > 0 {
        assert(all_digits(s.drop_last())) by {
            assert(forall|i: int|
                0 <= i < s.len() - 1 ==> #[trigger] s.drop_last()[i] == s[i]);
        }
        lemma_digits_val_nonneg(s.drop_last());
    }
}

proof fn lemma_digits_val_grows(s: Seq<char>, k: int)
    requires
        all_digits(s),
        0 <= k <= s.len(),
    ensures
        digits_val(s.take(k)) <= digits_val(s),
    decreases s.len() - k,
{
    assert(all_digits(s.take(k))) by {
        assert(forall|i: int| 0 <= i < k ==> #[trigger] s.take(k)[i] == s[i]);
    }
    if k == s.len() {
        assert(s.take(k) =~= s);
    } else {
        lemma_digits_val_grows(s, k + 1);
        assert(s.take(k + 1).drop_last() =~= s.take(k));
        assert(s.take(k + 1).last() == s[k]);
        lemma_digits_val_nonneg(s.take(k));
        assert(digits_val(s.take(k)) <= digits_val(s.take(k)) * 10 + digit_val(s[k])) by (nonlinear_arith)
            requires
                digits_val(s.take(k)) >= 0,
                digit_val(s[k]) >= 0,
        ;
    }
}

/// Parses a non-empty run of decimal digits as a 32-bit number; anything
/// else, and any value that does not fit, yields nothing.
pub fn parse_u32(s: &str) -> (r: Option<u32>)
    ensures
        r == parse_u32_spec(s@),
{
    let len: usize = s.unicode_len();
    if len == 0 {
        return None;
    }
    let mut acc: u32 = 0;
    let mut i: usize = 0;
    while i < len
        invariant
            len == s@.len(),
            0 < len <= usize::MAX,
            0 <= i <= len,
            all_digits(s@.take(i as int)),
            acc == digits_val(s@.take(i as int)),
        decreases len - i,
    {
        let c = s.get_char(i);
        let v = c as u32;
        if v < 48 || v > 57 {
            proof {
                assert(!is_digit(s@[i as int]));
            }
            return None;
        }
        let d: u32 = v - 48;
        if acc > (u32::MAX - d) / 10 {
            proof {
                assert(s@.take(i as int + 1).drop_last() =~= s@.take(i as int));
                assert(all_digits(s@.take(i as int + 1)));
                assert(digits_val(s@.take(i as int + 1)) > u32::MAX) by (nonlinear_arith)
                    requires
                        digits_val(s@.take(i as int + 1)) == acc * 10 + d,
                        acc > (u32::MAX - d) / 10,
                        0 <= d <= 9,
                ;
                if all_digits(s@) {
                    lemma_digits_val_grows(s@, i as int + 1);
                }
            }
            return None;
        }
        proof {
            assert(acc * 10 + d <= u32::MAX) by (nonlinear_arith)
                requires
                    acc <= (u32::MAX - d) / 10,
                    0 <= d <= 9,
                    acc >= 0,
            ;
            assert(s@.take(i as int + 1).drop_last() =~= s@.take(i as int));
        }
        acc = acc * 10 + d;
        i = i + 1;
    }
    proof {
        assert(s@.take(len as int) =~= s@);
    }
    Some(acc)
}

/// The character of a decimal digit value.
pub open spec fn digit_char(d: int) -> char {
    if d == 0 {
        '0'
    } else if d == 1 {
        '1'
    } else if d == 2 {
        '2'
    } else if d == 3 {
        '3'
    } else if d == 4 {
        '4'
    } else if d == 5 {
        '5'
    } else if d == 6 {
        '6'
    } else if d == 7 {
        '7'
    } else if d == 8 {
        '8'
    } else {
        '9'
    }
}

/// The decimal rendering of a non-negative number, most significant digit
/// first.
pub open spec fn dec_digits(n: int) -> Seq<char>
    decreases n,
{
    if n < 10 {
        seq![digit_char(n)]
    } else {
        dec_digits(n / 10) + seq![digit_char(n % 10)]
    }
}

fn digit_str(d: u16) -> (r: &'static str)
    requires
        d < 10,
    ensures
        r@ == seq![digit_char(d as int)],
{
    let r = match d {
        0 => "0",
        1 => "1",
        2 => "2",
        3 => "3",
        4 => "4",
        5 => "5",
        6 => "6",
        7 => "7",
        8 => "8",
        _ => "9",
    };
    proof {
        reveal_strlit("0");
        reveal_strlit("1");
        reveal_strlit("2");
        reveal_strlit("3");
        reveal_strlit("4");
        reveal_strlit("5");
        reveal_strlit("6");
        reveal_strlit("7");
        reveal_strlit("8");
        reveal_strlit("9");
        assert(r@ =~= seq![digit_char(d as int)]);
    }
    r
}

/// Appends the decimal rendering of `n` to a string.
pub fn append_decimal(out: &mut String, n: u16)
    ensures
        final(out)@ == old(out)@ + dec_digits(n as int),
    decreases n,
{
    if n < 10 {
        out.append(digit_str(n));
    } else {
        append_decimal(out, n / 10);
        out.append(digit_str(n % 10));
        proof {
            assert(old(out)@ + dec_digits(n as int) =~= (old(out)@ + dec_digits(n as int / 10))
                + seq![digit_char(n as int % 10)]);
        }
    }
}

} // verus!
