//! Character-level helpers shared by the request parsers: white space and
//! words as `str::split_whitespace` sees them, the first line as
//! `str::lines` yields it, decimal numbers as the integer `FromStr` impls
//! read them and as `Display` writes them.

use vstd::prelude::*;
use vstd::utf8::*;

verus! {

/// The Unicode `White_Space` property, which `char::is_whitespace` tests.
pub open spec fn is_white_space(c: char) -> bool {
    let v = c as u32;
    ||| 0x09 <= v <= 0x0d
    ||| v == 0x20
    ||| v == 0x85
    ||| v == 0xa0
    ||| v == 0x1680
    ||| 0x2000 <= v <= 0x200a
    ||| v == 0x2028
    ||| v == 0x2029
    ||| v == 0x202f
    ||| v == 0x205f
    ||| v == 0x3000
}

pub fn is_white_space_char(c: char) -> (r: bool)
    ensures
        r == is_white_space(c),
{
    let v = c as u32;
    (0x09 <= v && v <= 0x0d) || v == 0x20 || v == 0x85 || v == 0xa0 || v == 0x1680 || (0x2000
        <= v && v <= 0x200a) || v == 0x2028 || v == 0x2029 || v == 0x202f || v == 0x205f || v
        == 0x3000
}

/// The first index at or after `i` (and before `end`) whose character is not
/// white space, or `end` when there is none.
pub open spec fn skip_white_space(s: Seq<char>, i: int, end: int) -> int
    decreases end - i,
{
    if i < end && is_white_space(s[i]) {
        skip_white_space(s, i + 1, end)
    } else {
        i
    }
}

/// The first index at or after `i` (and before `end`) whose character is
/// white space, or `end` when there is none: where a word that starts at `i`
/// ends.
pub open spec fn word_end(s: Seq<char>, i: int, end: int) -> int
    decreases end - i,
{
    if i < end && !is_white_space(s[i]) {
        word_end(s, i + 1, end)
    } else {
        i
    }
}

/// The first word of `s[from..end]`, split as `split_whitespace` does, as the
/// pair of its start and end index; `None` when that range holds white space
/// only.
pub open spec fn next_word(s: Seq<char>, from: int, end: int) -> Option<(int, int)> {
    let a = skip_white_space(s, from, end);
    if a < end {
        Some((a, word_end(s, a, end)))
    } else {
        None
    }
}

pub proof fn lemma_skip_white_space_bounds(s: Seq<char>, i: int, end: int)
    requires
        i <= end,
    ensures
        i <= skip_white_space(s, i, end) <= end,
        forall|k: int| i <= k < skip_white_space(s, i, end) ==> is_white_space(#[trigger] s[k]),
        skip_white_space(s, i, end) < end ==> !is_white_space(s[skip_white_space(s, i, end)]),
    decreases end - i,
{
    if i < end && is_white_space(s[i]) {
        lemma_skip_white_space_bounds(s, i + 1, end);
    }
}

pub proof fn lemma_word_end_bounds(s: Seq<char>, i: int, end: int)
    requires
        i <= end,
    ensures
        i <= word_end(s, i, end) <= end,
        forall|k: int| i <= k < word_end(s, i, end) ==> !is_white_space(#[trigger] s[k]),
        word_end(s, i, end) < end ==> is_white_space(s[word_end(s, i, end)]),
    decreases end - i,
{
    if i < end && !is_white_space(s[i]) {
        lemma_word_end_bounds(s, i + 1, end);
    }
}

/// Index of the first white-space-free character at or after `from`.
pub fn skip_white_space_exec(s: &Vec<char>, from: usize, end: usize) -> (r: usize)
    requires
        from <= end <= s.len(),
    ensures
        r == skip_white_space(s@, from as int, end as int),
{
    let mut i = from;
    while i < end && is_white_space_char(s[i])
        invariant
            from <= i <= end <= s.len(),
            skip_white_space(s@, from as int, end as int) == skip_white_space(
                s@,
                i as int,
                end as int,
            ),
        decreases end - i,
    {
        i = i + 1;
    }
    i
}

/// Index where the word starting at `from` ends.
pub fn word_end_exec(s: &Vec<char>, from: usize, end: usize) -> (r: usize)
    requires
        from <= end <= s.len(),
    ensures
        r == word_end(s@, from as int, end as int),
{
    let mut i = from;
    while i < end && !is_white_space_char(s[i])
        invariant
            from <= i <= end <= s.len(),
            word_end(s@, from as int, end as int) == word_end(s@, i as int, end as int),
        decreases end - i,
    {
        i = i + 1;
    }
    i
}

/// Start and end of the first word of `s[from..end]`.
pub fn next_word_exec(s: &Vec<char>, from: usize, end: usize) -> (r: Option<(usize, usize)>)
    requires
        from <= end <= s.len(),
    ensures
        match r {
            Some((a, b)) => next_word(s@, from as int, end as int) == Some((a as int, b as int))
                && from <= a < b <= end,
            None => next_word(s@, from as int, end as int) is None,
        },
{
    let a = skip_white_space_exec(s, from, end);
    proof {
        lemma_skip_white_space_bounds(s@, from as int, end as int);
    }
    if a < end {
        proof {
            lemma_word_end_bounds(s@, a as int, end as int);
        }
        let b = word_end_exec(s, a, end);
        Some((a, b))
    } else {
        None
    }
}

/// The characters of `s`, in order.
pub fn chars_of(s: &str) -> (r: Vec<char>)
    ensures
        r@ == s@,
{
    let mut r: Vec<char> = Vec::new();
    for c in it: s.chars()
        invariant
            r@ == it.seq().take(it.index() as int),
            it.seq() == s@,
    {
        r.push(c);
    }
    r
}

/// Whether `a` and `b` hold the same characters.
pub fn str_equals(a: &str, b: &str) -> (r: bool)
    ensures
        r == (a@ == b@),
{
    let x = chars_of(a);
    let y = chars_of(b);
    assert(x@.subrange(0, x@.len() as int) =~= x@);
    range_equals(&x, 0, x.len(), &y)
}

/// Whether `s[from..to]` equals `word`.
pub fn range_equals(s: &Vec<char>, from: usize, to: usize, word: &Vec<char>) -> (r: bool)
    requires
        from <= to <= s.len(),
    ensures
        r == (s@.subrange(from as int, to as int) == word@),
{
    let ghost a = s@.subrange(from as int, to as int);
    if to - from != word.len() {
        return false;
    }
    let mut i: usize = 0;
    while i < word.len()
        invariant
            to - from == word.len(),
            from <= to <= s.len(),
            a == s@.subrange(from as int, to as int),
            i <= word.len(),
            forall|k: int| 0 <= k < i ==> #[trigger] a[k] == word@[k],
        decreases word.len() - i,
    {
        if s[from + i] != word[i] {
            assert(a[i as int] != word@[i as int]);
            return false;
        }
        i = i + 1;
    }
    assert(a =~= word@);
    true
}

/// Index of the first `c` at or after `i` and before `end`, or `end` when
/// there is none.
pub open spec fn find_char(s: Seq<char>, i: int, end: int, c: char) -> int
    decreases end - i,
{
    if i < end && s[i] != c {
        find_char(s, i + 1, end, c)
    } else {
        i
    }
}

pub proof fn lemma_find_char_bounds(s: Seq<char>, i: int, end: int, c: char)
    requires
        i <= end,
    ensures
        i <= find_char(s, i, end, c) <= end,
        forall|k: int| i <= k < find_char(s, i, end, c) ==> #[trigger] s[k] != c,
        find_char(s, i, end, c) < end ==> s[find_char(s, i, end, c)] == c,
    decreases end - i,
{
    if i < end && s[i] != c {
        lemma_find_char_bounds(s, i + 1, end, c);
    }
}

/// Index of the first `c` in `s[from..end]`, or `end`.
pub fn find_char_exec(s: &Vec<char>, from: usize, end: usize, c: char) -> (r: usize)
    requires
        from <= end <= s.len(),
    ensures
        r == find_char(s@, from as int, end as int, c),
        from <= r <= end,
{
    let mut k = from;
    while k < end && s[k] != c
        invariant
            from <= k <= end <= s.len(),
            find_char(s@, from as int, end as int, c) == find_char(s@, k as int, end as int, c),
        decreases end - k,
    {
        k = k + 1;
    }
    k
}

/// Where `s[a..e]` ends once trailing white space is left off.
pub open spec fn trim_end(s: Seq<char>, a: int, e: int) -> int
    decreases e - a,
{
    if a < e && is_white_space(s[e - 1]) {
        trim_end(s, a, e - 1)
    } else {
        e
    }
}

/// `s` without leading and trailing white space, as `str::trim` leaves it.
pub open spec fn trimmed(s: Seq<char>) -> Seq<char> {
    let a = skip_white_space(s, 0, s.len() as int);
    s.subrange(a, trim_end(s, a, s.len() as int))
}

/// A `String` holding `s` without leading and trailing white space.
pub fn trimmed_string(s: &Vec<char>) -> (r: String)
    ensures
        r@ == trimmed(s@),
{
    let a = skip_white_space_exec(s, 0, s.len());
    proof {
        lemma_skip_white_space_bounds(s@, 0, s.len() as int);
    }
    let mut e = s.len();
    while e > a && is_white_space_char(s[e - 1])
        invariant
            a <= e <= s.len(),
            trim_end(s@, a as int, s.len() as int) == trim_end(s@, a as int, e as int),
        decreases e,
    {
        e = e - 1;
    }
    string_of(s, a, e)
}

/// A new vector holding `s[from..to]`.
pub fn copy_chars(s: &Vec<char>, from: usize, to: usize) -> (r: Vec<char>)
    requires
        from <= to <= s.len(),
    ensures
        r@ == s@.subrange(from as int, to as int),
{
    let mut r: Vec<char> = Vec::new();
    let mut i = from;
    while i < to
        invariant
            from <= i <= to <= s.len(),
            r@ == s@.subrange(from as int, i as int),
        decreases to - i,
    {
        r.push(s[i]);
        i = i + 1;
    }
    r
}

/// Where the first line of a non-empty text ends, as `str::lines` cuts it:
/// at the first line feed, leaving out a carriage return just before it.
/// Without a line feed the whole text is the first line.
pub open spec fn first_line_end(s: Seq<char>) -> int {
    let k = find_char(s, 0, s.len() as int, '\n');
    if k < s.len() && k > 0 && s[k - 1] == '\r' {
        k - 1
    } else {
        k
    }
}

pub fn first_line_end_exec(s: &Vec<char>) -> (r: usize)
    ensures
        r == first_line_end(s@),
        r <= s.len(),
{
    let k = find_char_exec(s, 0, s.len(), '\n');
    if k < s.len() && k > 0 && s[k - 1] == '\r' {
        k - 1
    } else {
        k
    }
}

/// Whether `c` is an ASCII decimal digit.
pub open spec fn is_digit(c: char) -> bool {
    48 <= c as u32 <= 57
}

/// The value of an ASCII decimal digit.
pub open spec fn digit_value(c: char) -> nat {
    (c as u32 - 48) as nat
}

/// Whether every character of `d` is an ASCII decimal digit.
pub open spec fn all_digits(d: Seq<char>) -> bool {
    forall|i: int| 0 <= i < d.len() ==> is_digit(#[trigger] d[i])
}

/// The value of a string of decimal digits, most significant first.
pub open spec fn digits_value(d: Seq<char>) -> nat
    decreases d.len(),
{
    if d.len() == 0 {
        0
    } else {
        digits_value(d.drop_last()) * 10 + digit_value(d.last())
    }
}

/// How the `FromStr` impls of the unsigned integer types read `s`, for a
/// type whose largest value is `max`: an optional `+`, then one or more
/// ASCII digits whose value does not exceed `max`. Anything else is refused.
pub open spec fn parse_unsigned(s: Seq<char>, max: nat) -> Option<nat> {
    let d = if s.len() > 0 && s[0] == '+' {
        s.drop_first()
    } else {
        s
    };
    if d.len() > 0 && all_digits(d) && digits_value(d) <= max {
        Some(digits_value(d))
    } else {
        None
    }
}

proof fn lemma_parse_unsigned_refuses(t: Seq<char>, max: nat, k: int)
    requires
        ({
            let d = if t.len() > 0 && t[0] == '+' {
                t.drop_first()
            } else {
                t
            };
            0 <= k < d.len() && !is_digit(d[k])
        }),
    ensures
        parse_unsigned(t, max) is None,
{
    let d = if t.len() > 0 && t[0] == '+' {
        t.drop_first()
    } else {
        t
    };
    assert(!is_digit(d[k]));
    assert(!all_digits(d));
}

proof fn lemma_digits_value_grows(d: Seq<char>, j: int, m: int)
    requires
        0 <= j <= m <= d.len(),
    ensures
        digits_value(d.take(j)) <= digits_value(d.take(m)),
    decreases m - j,
{
    if j < m {
        lemma_digits_value_grows(d, j, m - 1);
        assert(d.take(m).drop_last() =~= d.take(m - 1));
    }
}

/// Reads `s[from..to]` as an unsigned number no larger than `max`.
pub fn parse_unsigned_exec(s: &Vec<char>, from: usize, to: usize, max: u64) -> (r: Option<u64>)
    requires
        from <= to <= s.len(),
    ensures
        match r {
            Some(v) => parse_unsigned(s@.subrange(from as int, to as int), max as nat) == Some(
                v as nat,
            ),
            None => parse_unsigned(s@.subrange(from as int, to as int), max as nat) is None,
        },
{
    let ghost t = s@.subrange(from as int, to as int);
    let mut i = from;
    if i < to && s[i] == '+' {
        i = i + 1;
    }
    let ghost d = s@.subrange(i as int, to as int);
    proof {
        if from < to && s@[from as int] == '+' {
            assert(d =~= t.drop_first());
        } else {
            assert(d =~= t);
        }
    }
    if i == to {
        return None;
    }
    let start = i;
    let mut acc: u64 = 0;
    proof {
        assert(d.take(0) =~= Seq::<char>::empty());
    }
    while i < to
        invariant
            from <= start <= i <= to <= s.len(),
            d == s@.subrange(start as int, to as int),
            t == s@.subrange(from as int, to as int),
            d == (if t.len() > 0 && t[0] == '+' {
                t.drop_first()
            } else {
                t
            }),
            forall|k: int| 0 <= k < i - start ==> is_digit(#[trigger] d[k]),
            acc as nat == digits_value(d.take(i - start)),
            acc <= max,
        decreases to - i,
    {
        let c = s[i];
        let cv = c as u32;
        if !(48 <= cv && cv <= 57) {
            proof {
                assert(!is_digit(d[i - start]));
                lemma_parse_unsigned_refuses(t, max as nat, i - start);
            }
            return None;
        }
        let dv: u64 = (cv - 48) as u64;
        assert(d.take(i - start + 1).drop_last() =~= d.take(i - start));
        if dv > max || acc > (max - dv) / 10 {
            proof {
                assert(acc * 10 + dv > max) by (nonlinear_arith)
                    requires
                        dv > max || acc > (max - dv) / 10,
                        dv <= 9,
                ;
                if all_digits(d) {
                    lemma_digits_value_grows(d, i - start + 1, d.len() as int);
                    assert(d.take(d.len() as int) =~= d);
                }
            }
            return None;
        }
        assert(acc * 10 + dv <= max) by (nonlinear_arith)
            requires
                acc <= (max - dv) / 10,
                dv <= max,
        ;
        acc = acc * 10 + dv;
        i = i + 1;
    }
    assert(d.take(d.len() as int) =~= d);
    Some(acc)
}

/// The digit character for a value below ten.
pub open spec fn digit_char(v: nat) -> char {
    (48 + v) as char
}

/// The decimal representation of `n`, as `Display` writes an unsigned integer.
pub open spec fn decimal_text(n: nat) -> Seq<char>
    decreases n,
{
    if n < 10 {
        seq![digit_char(n)]
    } else {
        decimal_text(n / 10).push(digit_char(n % 10))
    }
}

/// Reading back the decimal text of `n` gives `n`, for every `n` the reader
/// accepts (no larger than `max`); the text is all digits and never empty.
pub proof fn lemma_decimal_round_trip(n: nat, max: nat)
    requires
        n <= max,
    ensures
        parse_unsigned(decimal_text(n), max) == Some(n),
        decimal_text(n).len() > 0,
        all_digits(decimal_text(n)),
        digits_value(decimal_text(n)) == n,
{
    lemma_decimal_digits(n);
    assert(decimal_text(n)[0] != '+');
}

proof fn lemma_decimal_digits(n: nat)
    ensures
        decimal_text(n).len() > 0,
        all_digits(decimal_text(n)),
        digits_value(decimal_text(n)) == n,
        is_digit(decimal_text(n)[0]),
    decreases n,
{
    let t = decimal_text(n);
    let d = (n % 10) as nat;
    assert(((48 + d) as char) as u32 == 48 + d);
    assert(is_digit(digit_char(d)));
    assert(digit_value(digit_char(d)) == d);
    if n < 10 {
        assert(t.drop_last() =~= Seq::<char>::empty());
        assert(digits_value(t) == digits_value(t.drop_last()) * 10 + digit_value(t.last()));
    } else {
        lemma_decimal_digits(n / 10);
        let p = decimal_text(n / 10);
        assert(t.drop_last() =~= p);
        assert(t[0] == p[0]);
        assert forall|i: int| 0 <= i < t.len() implies is_digit(#[trigger] t[i]) by {
            if i < p.len() {
                assert(t[i] == p[i]);
            }
        }
        assert(digits_value(t) == (n / 10) * 10 + d);
    }
}

/// `find_char` stops at the first `c` of the range, or at its end.
pub proof fn lemma_find_char_at(s: Seq<char>, i: int, j: int, end: int, c: char)
    requires
        i <= j <= end,
        forall|k: int| i <= k < j ==> #[trigger] s[k] != c,
        j == end || s[j] == c,
    ensures
        find_char(s, i, end, c) == j,
    decreases j - i,
{
    if i < j {
        lemma_find_char_at(s, i + 1, j, end, c);
    }
}

/// `skip_white_space` stops at the first character that is not white space,
/// or at the end of the range.
pub proof fn lemma_skip_white_space_at(s: Seq<char>, i: int, j: int, end: int)
    requires
        i <= j <= end,
        forall|k: int| i <= k < j ==> is_white_space(#[trigger] s[k]),
        j == end || !is_white_space(s[j]),
    ensures
        skip_white_space(s, i, end) == j,
    decreases j - i,
{
    if i < j {
        lemma_skip_white_space_at(s, i + 1, j, end);
    }
}

/// `word_end` stops at the first white space, or at the end of the range.
pub proof fn lemma_word_end_at(s: Seq<char>, i: int, j: int, end: int)
    requires
        i <= j <= end,
        forall|k: int| i <= k < j ==> !is_white_space(#[trigger] s[k]),
        j == end || is_white_space(s[j]),
    ensures
        word_end(s, i, end) == j,
    decreases j - i,
{
    if i < j {
        lemma_word_end_at(s, i + 1, j, end);
    }
}

/// `String::push`: appends one character.
#[verifier::external_body]
pub(crate) fn push_char(s: &mut String, c: char)
    ensures
        final(s)@ == old(s)@.push(c),
{
    s.push(c);
}

/// Appends the decimal representation of `n` to `out`.
pub fn push_decimal(out: &mut String, n: u64)
    ensures
        final(out)@ == old(out)@ + decimal_text(n as nat),
    decreases n,
{
    if n >= 10 {
        push_decimal(out, n / 10);
    }
    let d: u8 = (n % 10) as u8;
    let c = (d + 48u8) as char;
    assert(c == digit_char((n % 10) as nat));
    push_char(out, c);
}

/// A `String` holding `s[from..to]`.
pub fn string_of(s: &Vec<char>, from: usize, to: usize) -> (r: String)
    requires
        from <= to <= s.len(),
    ensures
        r@ == s@.subrange(from as int, to as int),
{
    let mut r = String::new();
    let mut i = from;
    while i < to
        invariant
            from <= i <= to <= s.len(),
            r@ == s@.subrange(from as int, i as int),
        decreases to - i,
    {
        push_char(&mut r, s[i]);
        i = i + 1;
        assert(r@ =~= s@.subrange(from as int, i as int));
    }
    r
}

/// Lower-cases ASCII letters and leaves every other character alone.
pub open spec fn ascii_lower(c: char) -> char {
    if 65 <= c as u32 <= 90 {
        ((c as u32) + 32) as char
    } else {
        c
    }
}

/// Equality up to ASCII case, as `str::eq_ignore_ascii_case` tests it.
pub open spec fn eq_ignore_ascii_case(a: Seq<char>, b: Seq<char>) -> bool {
    &&& a.len() == b.len()
    &&& forall|i: int| 0 <= i < a.len() ==> ascii_lower(#[trigger] a[i]) == ascii_lower(b[i])
}

pub fn ascii_lower_char(c: char) -> (r: char)
    ensures
        r == ascii_lower(c),
{
    let cv = c as u32;
    if 65 <= cv && cv <= 90 {
        let v: u8 = (cv + 32) as u8;
        v as char
    } else {
        c
    }
}

/// Whether `s[from..to]` equals `word` up to ASCII case.
pub fn eq_ignore_ascii_case_exec(s: &Vec<char>, from: usize, to: usize, word: &Vec<char>) -> (r:
    bool)
    requires
        from <= to <= s.len(),
    ensures
        r == eq_ignore_ascii_case(s@.subrange(from as int, to as int), word@),
{
    let ghost a = s@.subrange(from as int, to as int);
    if to - from != word.len() {
        return false;
    }
    let mut i: usize = 0;
    while i < word.len()
        invariant
            to - from == word.len(),
            from <= to <= s.len(),
            a == s@.subrange(from as int, to as int),
            i <= word.len(),
            forall|k: int| 0 <= k < i ==> ascii_lower(#[trigger] a[k]) == ascii_lower(word@[k]),
        decreases word.len() - i,
    {
        if ascii_lower_char(s[from + i]) != ascii_lower_char(word[i]) {
            assert(ascii_lower(a[i as int]) != ascii_lower(word@[i as int]));
            return false;
        }
        i = i + 1;
    }
    true
}

/// `std::str::from_utf8`: `Some` exactly when `bytes` is well-formed UTF-8,
/// and then holding the characters that the bytes encode.
#[verifier::external_body]
pub(crate) fn utf8_text(bytes: &[u8]) -> (r: Option<&str>)
    ensures
        r is Some <==> valid_utf8(bytes@),
        r matches Some(t) ==> t@ == decode_utf8(bytes@),
{
    std::str::from_utf8(bytes).ok()
}

} // verus!
