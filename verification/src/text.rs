//! Character-level helpers for the line protocol: decimal numbers, white
//! space, prefixes and line feeds.
//!
//! Every function here is specified over `Seq<char>`, the view of the text it
//! reads or writes.

use vstd::prelude::*;

verus! {

/// Appends one character to a string.
///
/// Wraps `String::push`, which appends the given `char` to the end of the
/// string and leaves what was there before untouched.
#[verifier::external_body]
pub(crate) fn push_char(s: &mut String, c: char)
    ensures
        final(s)@ == old(s)@.push(c),
{
    s.push(c);
}

/// The characters of `s`, in order.
pub fn to_chars(s: &str) -> (out: Vec<char>)
    ensures
        out@ == s@,
{
    let mut out: Vec<char> = Vec::new();
    for c in it: s.chars()
        invariant
            it.seq() == s@,
            out@ == it.seq().take(it.index() as int),
    {
        out.push(c);
    }
    assert(s@.take(s@.len() as int) == s@);
    out
}

/// The text made of `chars[from..to]`.
pub fn from_chars(chars: &Vec<char>, from: usize, to: usize) -> (out: String)
    requires
        from <= to <= chars.len(),
    ensures
        out@ == chars@.subrange(from as int, to as int),
{
    let mut out = String::new();
    let mut i: usize = from;
    while i < to
        invariant
            from <= i <= to <= chars.len(),
            out@ == chars@.subrange(from as int, i as int),
        decreases to - i,
    {
        push_char(&mut out, chars[i]);
        assert(chars@.subrange(from as int, i + 1) == chars@.subrange(
            from as int,
            i as int,
        ).push(chars@[i as int]));
        i += 1;
    }
    out
}

/// The character that stands for the decimal digit `d`.
pub open spec fn digit_char(d: int) -> char {
    if d == 0 {
        '0'
    } else if d == 1 {
        '1'
    } else if d == 2 {
        '2'
    } else if d == 3 {
        '3'
    } else if d == 4 {
        '4'
    } else if d == 5 {
        '5'
    } else if d == 6 {
        '6'
    } else if d == 7 {
        '7'
    } else if d == 8 {
        '8'
    } else {
        '9'
    }
}

/// The decimal numeral of `n`: no sign, no leading zero, `"0"` for zero.
pub open spec fn decimal(n: nat) -> Seq<char>
    decreases n,
{
    if n < 10 {
        seq![digit_char(n as int)]
    } else {
        decimal(n / 10).push(digit_char((n % 10) as int))
    }
}

/// Whether `c` is one of the ten decimal digits.
pub open spec fn is_digit(c: char) -> bool {
    '0' <= c && c <= '9'
}

/// The value of the decimal digit `c`.
pub open spec fn digit_value(c: char) -> int {
    c as int - '0' as int
}

/// The number that a run of decimal digits denotes, most significant digit
/// first; leading zeros are allowed and the empty run denotes zero.
pub open spec fn digits_value(s: Seq<char>) -> nat
    decreases s.len(),
{
    if s.len() == 0 {
        0
    } else {
        (digits_value(s.drop_last()) * 10 + digit_value(s.last())) as nat
    }
}

/// Whether every character of `s` is a decimal digit.
pub open spec fn all_digits(s: Seq<char>) -> bool {
    forall|i: int| 0 <= i < s.len() ==> is_digit(#[trigger] s[i])
}

/// The unsigned byte that `s` denotes: `s` must be one or more decimal digits
/// and nothing else, and their value must fit in a byte.
pub open spec fn parse_byte(s: Seq<char>) -> Option<u8> {
    if s.len() > 0 && all_digits(s) && digits_value(s) <= u8::MAX {
        Some(digits_value(s) as u8)
    } else {
        None
    }
}

/// White space: the code points that carry the Unicode property White_Space.
pub open spec fn is_white_space(c: char) -> bool {
    let p = c as u32;
    ||| 0x09 <= p <= 0x0D
    ||| p == 0x20
    ||| p == 0x85
    ||| p == 0xA0
    ||| p == 0x1680
    ||| 0x2000 <= p <= 0x200A
    ||| p == 0x2028
    ||| p == 0x2029
    ||| p == 0x202F
    ||| p == 0x205F
    ||| p == 0x3000
}

/// How many white-space characters `s` begins with.
pub open spec fn leading_white_space(s: Seq<char>) -> nat
    decreases s.len(),
{
    if s.len() > 0 && is_white_space(s[0]) {
        1 + leading_white_space(s.drop_first())
    } else {
        0
    }
}

/// How many white-space characters `s` ends with.
pub open spec fn trailing_white_space(s: Seq<char>) -> nat
    decreases s.len(),
{
    if s.len() > 0 && is_white_space(s.last()) {
        1 + trailing_white_space(s.drop_last())
    } else {
        0
    }
}

/// `s` without the white space at its two ends.
pub open spec fn trimmed(s: Seq<char>) -> Seq<char> {
    let rest = s.skip(leading_white_space(s) as int);
    rest.take(rest.len() - trailing_white_space(rest))
}

/// `s` without any line-feed character.
pub open spec fn without_line_feeds(s: Seq<char>) -> Seq<char>
    decreases s.len(),
{
    if s.len() == 0 {
        s
    } else if s.last() == '\n' {
        without_line_feeds(s.drop_last())
    } else {
        without_line_feeds(s.drop_last()).push(s.last())
    }
}

/// The index of the first occurrence of `c` in `s`, or the length of `s`
/// where there is none.
pub open spec fn first_index_of(s: Seq<char>, c: char) -> int
    decreases s.len(),
{
    if s.len() == 0 || s[0] == c {
        0
    } else {
        1 + first_index_of(s.drop_first(), c)
    }
}

/// Two unsigned bytes written in decimal with one space between them and
/// nothing else around them.
pub open spec fn parse_byte_pair(s: Seq<char>) -> Option<(u8, u8)> {
    let cut = first_index_of(s, ' ');
    if cut < s.len() {
        match (parse_byte(s.take(cut)), parse_byte(s.skip(cut + 1))) {
            (Some(first), Some(second)) => Some((first, second)),
            _ => None,
        }
    } else {
        None
    }
}

/// The decimal numeral of `n` is a non-empty run of digits that denotes `n`.
pub proof fn lemma_decimal_denotes(n: nat)
    ensures
        decimal(n).len() >= 1,
        all_digits(decimal(n)),
        digits_value(decimal(n)) == n,
    decreases n,
{
    if n < 10 {
        let s = decimal(n);
        assert(s.drop_last().len() == 0);
        assert(digits_value(s.drop_last()) == 0);
    } else {
        lemma_decimal_denotes(n / 10);
        let s = decimal(n);
        assert(s.drop_last() == decimal(n / 10));
        assert(s.last() == digit_char((n % 10) as int));
    }
}

/// Reading back a byte written in decimal gives the byte.
pub proof fn lemma_parse_decimal_round_trip(n: u8)
    ensures
        parse_byte(decimal(n as nat)) == Some(n),
{
    lemma_decimal_denotes(n as nat);
}

/// Whether `c` occurs nowhere in `s`.
pub open spec fn free_of(s: Seq<char>, c: char) -> bool {
    forall|i: int| 0 <= i < s.len() ==> #[trigger] s[i] != c
}

/// The first occurrence of a character behind a text that is free of it lies
/// as far behind the start as the text is long.
pub proof fn lemma_first_index_behind(front: Seq<char>, rest: Seq<char>, c: char)
    requires
        free_of(front, c),
    ensures
        first_index_of(front + rest, c) == front.len() + first_index_of(rest, c),
    decreases front.len(),
{
    if front.len() == 0 {
        assert(front + rest == rest);
    } else {
        assert((front + rest)[0] == front[0]);
        assert((front + rest).drop_first() == front.drop_first() + rest);
        assert forall|i: int| 0 <= i < front.drop_first().len() implies #[trigger] front.drop_first()[i]
            != c by {
            assert(front.drop_first()[i] == front[i + 1]);
        }
        lemma_first_index_behind(front.drop_first(), rest, c);
    }
}

/// Two bytes that are written in decimal with a space between them are read
/// back as they were.
pub proof fn lemma_byte_pair_round_trip(first: u8, second: u8)
    ensures
        parse_byte_pair(decimal(first as nat) + seq![' '] + decimal(second as nat)) == Some(
            (first, second),
        ),
{
    let front = decimal(first as nat);
    let back = decimal(second as nat);
    let rest = seq![' '] + back;
    let whole = front + seq![' '] + back;
    lemma_decimal_denotes(first as nat);
    lemma_decimal_denotes(second as nat);
    assert(free_of(front, ' ')) by {
        assert forall|i: int| 0 <= i < front.len() implies #[trigger] front[i] != ' ' by {
            assert(is_digit(front[i]));
        }
    }
    assert(whole == front + rest);
    lemma_first_index_behind(front, rest, ' ');
    assert(rest[0] == ' ');
    assert(first_index_of(rest, ' ') == 0);
    assert(whole.take(front.len() as int) == front);
    assert(whole.skip(front.len() as int + 1) == back);
}

/// Text without line feeds stays as it is when its line feeds are taken
/// out, and a line feed at its end goes.
pub proof fn lemma_without_line_feeds(text: Seq<char>)
    requires
        free_of(text, '\n'),
    ensures
        without_line_feeds(text) == text,
        without_line_feeds(text.push('\n')) == text,
    decreases text.len(),
{
    if text.len() > 0 {
        let front = text.drop_last();
        assert forall|i: int| 0 <= i < front.len() implies #[trigger] front[i] != '\n' by {
            assert(front[i] == text[i]);
        }
        lemma_without_line_feeds(front);
        assert(text.last() != '\n');
        assert(front.push(text.last()) == text);
    }
    assert(text.push('\n').drop_last() == text);
}

/// Writes the digit `d` to the end of `out`.
fn push_digit(out: &mut String, d: u16)
    requires
        d < 10,
    ensures
        final(out)@ == old(out)@.push(digit_char(d as int)),
{
    let c = if d == 0 {
        '0'
    } else if d == 1 {
        '1'
    } else if d == 2 {
        '2'
    } else if d == 3 {
        '3'
    } else if d == 4 {
        '4'
    } else if d == 5 {
        '5'
    } else if d == 6 {
        '6'
    } else if d == 7 {
        '7'
    } else if d == 8 {
        '8'
    } else {
        '9'
    };
    push_char(out, c);
}

/// Writes the decimal numeral of `n` to the end of `out`.
pub fn push_decimal(out: &mut String, n: u16)
    ensures
        final(out)@ == old(out)@ + decimal(n as nat),
    decreases n,
{
    if n < 10 {
        push_digit(out, n);
        assert(old(out)@.push(digit_char(n as int)) == old(out)@ + decimal(n as nat));
    } else {
        push_decimal(out, n / 10);
        push_digit(out, n % 10);
        assert((old(out)@ + decimal((n / 10) as nat)).push(digit_char((n % 10) as int)) == old(
            out,
        )@ + decimal(n as nat));
    }
}

/// Writes `text` to the end of `out`.
pub fn push_text(out: &mut String, text: &str)
    ensures
        final(out)@ == old(out)@ + text@,
{
    let chars = to_chars(text);
    let mut i: usize = 0;
    while i < chars.len()
        invariant
            i <= chars.len(),
            chars@ == text@,
            out@ == old(out)@ + chars@.take(i as int),
        decreases chars.len() - i,
    {
        push_char(out, chars[i]);
        assert(chars@.take(i + 1) == chars@.take(i as int).push(chars@[i as int]));
        i += 1;
    }
    assert(chars@.take(chars.len() as int) == chars@);
}

/// Whether `c` is white space.
pub fn white_space(c: char) -> (b: bool)
    ensures
        b == is_white_space(c),
{
    let p: u32 = c as u32;
    (0x09 <= p && p <= 0x0D) || p == 0x20 || p == 0x85 || p == 0xA0 || p == 0x1680 || (0x2000 <= p
        && p <= 0x200A) || p == 0x2028 || p == 0x2029 || p == 0x202F || p == 0x205F || p == 0x3000
}

/// A run of digits denotes at least what any of its prefixes denotes.
pub proof fn lemma_digits_value_prefix(s: Seq<char>, k: int)
    requires
        0 <= k <= s.len(),
        all_digits(s),
    ensures
        digits_value(s.take(k)) <= digits_value(s),
    decreases s.len() - k,
{
    if k == s.len() {
        assert(s.take(k) == s);
    } else {
        lemma_digits_value_prefix(s, k + 1);
        let longer = s.take(k + 1);
        assert(longer.drop_last() == s.take(k));
        assert(is_digit(s[k]));
        assert(longer.last() == s[k]);
    }
}

/// The unsigned byte written in decimal in `chars[from..to]`, if that range
/// holds one and nothing else.
pub fn parse_byte_in(chars: &Vec<char>, from: usize, to: usize) -> (out: Option<u8>)
    requires
        from <= to <= chars.len(),
    ensures
        out == parse_byte(chars@.subrange(from as int, to as int)),
{
    let ghost whole = chars@.subrange(from as int, to as int);
    if from == to {
        return None;
    }
    let mut value: u16 = 0;
    let mut i: usize = from;
    while i < to
        invariant
            from <= i <= to <= chars.len(),
            whole == chars@.subrange(from as int, to as int),
            all_digits(whole.take(i - from)),
            value == digits_value(whole.take(i - from)),
            value <= u8::MAX,
        decreases to - i,
    {
        let c = chars[i];
        assert(c == whole[i - from]);
        if !(c >= '0' && c <= '9') {
            return None;
        }
        let digit: u16 = ((c as u32) - ('0' as u32)) as u16;
        let next: u16 = value * 10 + digit;
        proof {
            let longer = whole.take(i + 1 - from);
            assert(longer.drop_last() == whole.take(i - from));
            assert(longer.last() == c);
            assert(all_digits(longer)) by {
                assert forall|j: int| 0 <= j < longer.len() implies is_digit(
                    #[trigger] longer[j],
                ) by {
                    if j < longer.len() - 1 {
                        assert(longer[j] == whole.take(i - from)[j]);
                    }
                }
            }
            assert(digits_value(longer) == next);
            if next > u8::MAX && all_digits(whole) {
                lemma_digits_value_prefix(whole, i + 1 - from);
            }
        }
        if next > 255 {
            return None;
        }
        value = next;
        i += 1;
    }
    assert(whole.take(to - from) == whole);
    Some(value as u8)
}

/// The first index at or after `from` at which `chars` holds `c`, or the
/// length of `chars` where it holds none.
pub fn find_char(chars: &Vec<char>, c: char) -> (at: usize)
    ensures
        at == first_index_of(chars@, c),
        at <= chars.len(),
{
    let mut i: usize = 0;
    assert(chars@.skip(0) == chars@);
    while i < chars.len() && chars[i] != c
        invariant
            i <= chars.len(),
            first_index_of(chars@, c) == i + first_index_of(chars@.skip(i as int), c),
        decreases chars.len() - i,
    {
        assert(chars@.skip(i as int).drop_first() == chars@.skip(i + 1));
        i += 1;
    }
    i
}

/// The two unsigned bytes written in `text`, if it holds two decimal numerals
/// with one space between them and nothing else.
pub fn parse_byte_pair_of(text: &str) -> (out: Option<(u8, u8)>)
    ensures
        out == parse_byte_pair(text@),
{
    let chars = to_chars(text);
    let cut = find_char(&chars, ' ');
    if cut < chars.len() {
        assert(chars@.take(cut as int) == chars@.subrange(0, cut as int));
        assert(chars@.skip(cut + 1) == chars@.subrange(cut + 1, chars.len() as int));
        let first = parse_byte_in(&chars, 0, cut);
        let second = parse_byte_in(&chars, cut + 1, chars.len());
        match (first, second) {
            (Some(a), Some(b)) => Some((a, b)),
            _ => None,
        }
    } else {
        None
    }
}

/// The bounds of `chars` without the white space at its two ends.
pub fn trim_bounds(chars: &Vec<char>) -> (bounds: (usize, usize))
    ensures
        bounds.0 <= bounds.1 <= chars.len(),
        chars@.subrange(bounds.0 as int, bounds.1 as int) == trimmed(chars@),
{
    let mut start: usize = 0;
    assert(chars@.skip(0) == chars@);
    while start < chars.len() && white_space(chars[start])
        invariant
            start <= chars.len(),
            leading_white_space(chars@) == start + leading_white_space(chars@.skip(start as int)),
        decreases chars.len() - start,
    {
        assert(chars@.skip(start as int).drop_first() == chars@.skip(start + 1));
        start += 1;
    }
    let ghost rest = chars@.skip(start as int);
    let mut end: usize = chars.len();
    assert(rest.take(rest.len() as int) == rest);
    while end > start && white_space(chars[end - 1])
        invariant
            start <= end <= chars.len(),
            rest == chars@.skip(start as int),
            trailing_white_space(rest) == (chars.len() - end) + trailing_white_space(
                rest.take(end - start),
            ),
        decreases end,
    {
        assert(rest.take(end - start).drop_last() == rest.take(end - 1 - start));
        assert(rest.take(end - start).last() == chars@[end - 1]);
        end -= 1;
    }
    proof {
        let kept = rest.take(end - start);
        if end > start {
            assert(kept.last() == chars@[end - 1]);
        }
        assert(trailing_white_space(kept) == 0);
        assert(chars@.subrange(start as int, end as int) == kept);
    }
    (start, end)
}

/// `text` without the white space at its two ends.
pub fn trim(text: &str) -> (out: String)
    ensures
        out@ == trimmed(text@),
{
    let chars = to_chars(text);
    let (start, end) = trim_bounds(&chars);
    from_chars(&chars, start, end)
}

/// The text made of `chars[from..]` without its line-feed characters.
pub fn strip_line_feeds(chars: &Vec<char>, from: usize) -> (out: String)
    requires
        from <= chars.len(),
    ensures
        out@ == without_line_feeds(chars@.skip(from as int)),
{
    let ghost tail = chars@.skip(from as int);
    let mut out = String::new();
    let mut i: usize = from;
    while i < chars.len()
        invariant
            from <= i <= chars.len(),
            tail == chars@.skip(from as int),
            out@ == without_line_feeds(tail.take(i - from)),
        decreases chars.len() - i,
    {
        let c = chars[i];
        proof {
            let longer = tail.take(i + 1 - from);
            assert(longer.drop_last() == tail.take(i - from));
            assert(longer.last() == c);
        }
        if c != '\n' {
            push_char(&mut out, c);
        }
        i += 1;
    }
    assert(tail.take(tail.len() as int) == tail);
    out
}

/// Whether `a` and `b` hold the same characters.
pub fn same_text(a: &str, b: &str) -> (same: bool)
    ensures
        same == (a@ == b@),
{
    let left = to_chars(a);
    let right = to_chars(b);
    if left.len() != right.len() {
        return false;
    }
    let mut i: usize = 0;
    while i < left.len()
        invariant
            i <= left.len(),
            left.len() == right.len(),
            left@ == a@,
            right@ == b@,
            forall|j: int| 0 <= j < i ==> left@[j] == right@[j],
        decreases left.len() - i,
    {
        if left[i] != right[i] {
            return false;
        }
        i += 1;
    }
    assert(left@ =~= right@);
    true
}

/// Whether `chars` begins with `prefix`.
pub fn starts_with(chars: &Vec<char>, prefix: &Vec<char>) -> (b: bool)
    ensures
        b == prefix@.is_prefix_of(chars@),
{
    if prefix.len() > chars.len() {
        return false;
    }
    let mut i: usize = 0;
    while i < prefix.len()
        invariant
            i <= prefix.len() <= chars.len(),
            forall|j: int| 0 <= j < i ==> prefix@[j] == chars@[j],
        decreases prefix.len() - i,
    {
        if prefix[i] != chars[i] {
            return false;
        }
        i += 1;
    }
    assert(prefix@ == chars@.subrange(0, prefix@.len() as int));
    true
}

} // verus!
