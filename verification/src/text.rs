//! Text as the library reads and writes it: sequences of characters.

use vstd::prelude::*;

verus! {

// ── What is said of text ──────────────────────────────────────────────

/// The characters that Unicode calls white space.
pub open spec fn white(c: char) -> bool {
    ||| '\u{9}' <= c <= '\u{d}'
    ||| c == ' '
    ||| c == '\u{85}'
    ||| c == '\u{a0}'
    ||| c == '\u{1680}'
    ||| '\u{2000}' <= c <= '\u{200a}'
    ||| c == '\u{2028}'
    ||| c == '\u{2029}'
    ||| c == '\u{202f}'
    ||| c == '\u{205f}'
    ||| c == '\u{3000}'
}

/// `s` without the white space it begins with.
pub open spec fn trim_start(s: Seq<char>) -> Seq<char>
    decreases s.len(),
{
    if s.len() > 0 && white(s[0]) {
        trim_start(s.drop_first())
    } else {
        s
    }
}

/// `s` without the white space it ends with.
pub open spec fn trim_end(s: Seq<char>) -> Seq<char>
    decreases s.len(),
{
    if s.len() > 0 && white(s.last()) {
        trim_end(s.drop_last())
    } else {
        s
    }
}

/// `s` without the white space around it.
pub open spec fn trim(s: Seq<char>) -> Seq<char> {
    trim_end(trim_start(s))
}

/// `s`, or nothing where it is empty.
pub open spec fn non_empty(s: Seq<char>) -> Option<Seq<char>> {
    if s.len() == 0 {
        None
    } else {
        Some(s)
    }
}

/// What an optional text says.
pub open spec fn optional(s: Option<String>) -> Option<Seq<char>> {
    match s {
        Some(t) => Some(t@),
        None => None,
    }
}

/// What a list of texts says.
pub open spec fn texts(list: Seq<String>) -> Seq<Seq<char>> {
    Seq::new(list.len(), |i: int| list[i]@)
}

/// An ASCII capital as its small letter, any other character as itself.
pub open spec fn lower_char(c: char) -> char {
    if 'A' <= c <= 'Z' {
        ((c as u8) + 32) as char
    } else {
        c
    }
}

/// `s` with its ASCII capitals as small letters.
pub open spec fn lower(s: Seq<char>) -> Seq<char> {
    Seq::new(s.len(), |i: int| lower_char(s[i]))
}

/// The character that stands for the digit `d`.
pub open spec fn digit(d: nat) -> char {
    (48 + d) as char
}

/// `n` in decimal digits, without leading zeros.
pub open spec fn decimal(n: nat) -> Seq<char>
    decreases n,
{
    if n < 10 {
        seq![digit(n)]
    } else {
        decimal(n / 10).push(digit(n % 10))
    }
}

/// `n` in decimal digits, with a minus sign in front where it is negative.
pub open spec fn signed_decimal(n: int) -> Seq<char> {
    if n < 0 {
        seq!['-'] + decimal((-n) as nat)
    } else {
        decimal(n as nat)
    }
}

/// Whether every character of `s` is a decimal digit.
pub open spec fn all_digits(s: Seq<char>) -> bool {
    forall|i: int| 0 <= i < s.len() ==> '0' <= #[trigger] s[i] <= '9'
}

/// The number that the digits `s` spell.
pub open spec fn digits_value(s: Seq<char>) -> nat
    decreases s.len(),
{
    if s.len() == 0 {
        0
    } else {
        digits_value(s.drop_last()) * 10 + (s.last() as nat - 48) as nat
    }
}

/// `s` without one plus sign in front.
pub open spec fn unsigned_part(s: Seq<char>) -> Seq<char> {
    if s.len() > 0 && s[0] == '+' {
        s.drop_first()
    } else {
        s
    }
}

/// The number that `s` spells: digits, after a plus sign or not, of a number
/// that fits in 64 bits.
pub open spec fn number(s: Seq<char>) -> Option<nat> {
    let digits = unsigned_part(s);
    if digits.len() > 0 && all_digits(digits) && digits_value(digits) <= u64::MAX {
        Some(digits_value(digits))
    } else {
        None
    }
}

/// `s` without any occurrence of `part`, taken from left to right.
pub open spec fn without(s: Seq<char>, part: Seq<char>) -> Seq<char>
    decreases s.len(),
{
    if part.len() == 0 || s.len() == 0 {
        s
    } else if part.is_prefix_of(s) {
        without(s.skip(part.len() as int), part)
    } else {
        seq![s[0]] + without(s.drop_first(), part)
    }
}

/// The texts of `list` one after the other, with `separator` between them.
pub open spec fn join(list: Seq<Seq<char>>, separator: Seq<char>) -> Seq<char>
    decreases list.len(),
{
    if list.len() == 0 {
        Seq::empty()
    } else if list.len() == 1 {
        list[0]
    } else {
        join(list.drop_last(), separator) + separator + list.last()
    }
}

/// The number of bytes that `c` takes in UTF-8.
pub open spec fn width(c: char) -> nat {
    vstd::utf8::encode_scalar(c as u32).len()
}

/// The number of bytes that `s` takes in UTF-8.
pub open spec fn byte_len(s: Seq<char>) -> nat {
    vstd::utf8::encode_utf8(s).len()
}

/// How many characters of `s`, counted from its start, take at most `max`
/// bytes together.
pub open spec fn fitting(s: Seq<char>, max: nat) -> nat
    decreases s.len(),
{
    if s.len() == 0 || width(s[0]) > max {
        0
    } else {
        1 + fitting(s.drop_first(), (max - width(s[0])) as nat)
    }
}

/// `s` followed by spaces, so that it takes at least `columns` characters.
pub open spec fn padded(s: Seq<char>, columns: nat) -> Seq<char> {
    if s.len() < columns {
        s + Seq::new((columns - s.len()) as nat, |i: int| ' ')
    } else {
        s
    }
}

// ── Taking text apart ─────────────────────────────────────────────────

/// `String::push`: the character goes to the end of the text.
pub assume_specification[ String::push ](s: &mut String, c: char)
    ensures
        final(s)@ == old(s)@.push(c),
;

/// The characters of `s`, in order.
pub fn chars_of(s: &str) -> (chars: Vec<char>)
    ensures
        chars@ == s@,
{
    let mut chars: Vec<char> = Vec::new();
    for c in it: s.chars()
        invariant
            chars@ == s@.take(it.index() as int),
            it.seq() == s@,
    {
        chars.push(c);
        assert(s@.take(it.index() + 1) =~= s@.take(it.index() as int).push(c));
    }
    assert(s@.take(s@.len() as int) =~= s@);
    chars
}

/// The text made of the characters of `chars` from `from` up to `to`.
pub fn text_of(chars: &Vec<char>, from: usize, to: usize) -> (s: String)
    requires
        from <= to <= chars@.len(),
    ensures
        s@ == chars@.subrange(from as int, to as int),
{
    let mut s = String::new();
    let mut i: usize = from;
    while i < to
        invariant
            from <= i <= to <= chars@.len(),
            s@ == chars@.subrange(from as int, i as int),
        decreases to - i,
    {
        s.push(chars[i]);
        i = i + 1;
    }
    s
}

/// Whether `a` and `b` hold the same characters.
pub fn same(a: &str, b: &str) -> (r: bool)
    ensures
        r == (a@ == b@),
{
    let a_chars = chars_of(a);
    let b_chars = chars_of(b);
    if a_chars.len() != b_chars.len() {
        return false;
    }
    let mut i: usize = 0;
    while i < a_chars.len()
        invariant
            i <= a_chars@.len(),
            a_chars@ == a@,
            b_chars@ == b@,
            a_chars@.len() == b_chars@.len(),
            a@.take(i as int) =~= b@.take(i as int),
        decreases a_chars@.len() - i,
    {
        if a_chars[i] != b_chars[i] {
            return false;
        }
        i = i + 1;
    }
    assert(a@.take(i as int) =~= a@);
    assert(b@.take(i as int) =~= b@);
    true
}

/// Whether `c` is white space.
pub fn is_white(c: char) -> (r: bool)
    ensures
        r == white(c),
{
    ('\u{9}' <= c && c <= '\u{d}') || c == ' ' || c == '\u{85}' || c == '\u{a0}' || c == '\u{1680}'
        || ('\u{2000}' <= c && c <= '\u{200a}') || c == '\u{2028}' || c == '\u{2029}'
        || c == '\u{202f}' || c == '\u{205f}' || c == '\u{3000}'
}

/// Where the text of `chars` from `from` up to `to` begins and ends once the
/// white space around it is left out.
pub fn trim_range(chars: &Vec<char>, from: usize, to: usize) -> (r: (usize, usize))
    requires
        from <= to <= chars@.len(),
    ensures
        from <= r.0 <= r.1 <= to,
        chars@.subrange(r.0 as int, r.1 as int) == trim(chars@.subrange(from as int, to as int)),
{
    let mut start: usize = from;
    let ghost whole = trim_start(chars@.subrange(from as int, to as int));
    while start < to && is_white(chars[start])
        invariant
            from <= start <= to <= chars@.len(),
            trim_start(chars@.subrange(start as int, to as int)) == whole,
        decreases to - start,
    {
        let ghost rest = chars@.subrange(start as int, to as int);
        assert(rest.drop_first() =~= chars@.subrange(start + 1, to as int));
        start = start + 1;
    }
    let ghost body = chars@.subrange(start as int, to as int);
    assert(body == whole);
    let mut end: usize = to;
    while start < end && is_white(chars[end - 1])
        invariant
            start <= end <= to <= chars@.len(),
            trim_end(chars@.subrange(start as int, end as int)) == trim_end(body),
        decreases end - start,
    {
        let ghost rest = chars@.subrange(start as int, end as int);
        assert(rest.drop_last() =~= chars@.subrange(start as int, end - 1));
        end = end - 1;
    }
    (start, end)
}

/// `s` without the white space around it.
pub fn trimmed(s: &str) -> (r: String)
    ensures
        r@ == trim(s@),
{
    let chars = chars_of(s);
    let (from, to) = trim_range(&chars, 0, chars.len());
    assert(chars@.subrange(0, chars@.len() as int) =~= s@);
    text_of(&chars, from, to)
}

/// `s` without the white space around it, or nothing where that is all of it.
pub fn trimmed_non_empty(s: &str) -> (r: Option<String>)
    ensures
        optional(r) == non_empty(trim(s@)),
{
    let t = trimmed(s);
    if t.as_str().is_empty() {
        None
    } else {
        Some(t)
    }
}

/// The ASCII capital `c` as its small letter, any other character as itself.
pub fn lowered_char(c: char) -> (r: char)
    ensures
        r == lower_char(c),
{
    if 'A' <= c && c <= 'Z' {
        ((c as u8) + 32) as char
    } else {
        c
    }
}

/// The text of `chars` from `from` up to `to` with ASCII capitals as small
/// letters.
pub fn lowered(chars: &Vec<char>, from: usize, to: usize) -> (s: String)
    requires
        from <= to <= chars@.len(),
    ensures
        s@ == lower(chars@.subrange(from as int, to as int)),
{
    let mut s = String::new();
    let mut i: usize = from;
    while i < to
        invariant
            from <= i <= to <= chars@.len(),
            s@ == lower(chars@.subrange(from as int, i as int)),
        decreases to - i,
    {
        s.push(lowered_char(chars[i]));
        i = i + 1;
        assert(s@ =~= lower(chars@.subrange(from as int, i as int)));
    }
    s
}

/// All of `s` is white space.
pub open spec fn blank(s: Seq<char>) -> bool {
    forall|i: int| 0 <= i < s.len() ==> white(#[trigger] s[i])
}

/// What `trim_start` leaves out is white space.
pub proof fn lemma_trim_start(s: Seq<char>)
    ensures
        trim_start(s).len() <= s.len(),
        trim_start(s) == s.skip(s.len() - trim_start(s).len()),
        blank(s.take(s.len() - trim_start(s).len())),
        trim_start(s).len() > 0 ==> !white(trim_start(s)[0]),
    decreases s.len(),
{
    if s.len() > 0 && white(s[0]) {
        let rest = s.drop_first();
        lemma_trim_start(rest);
        let k = rest.len() - trim_start(rest).len();
        assert(rest.skip(k) =~= s.skip(k + 1));
        assert forall|i: int| 0 <= i < k + 1 implies white(#[trigger] s.take(k + 1)[i]) by {
            if i > 0 {
                assert(rest.take(k)[i - 1] == s[i]);
            }
        }
    } else {
        assert(s.skip(0) =~= s);
    }
}

/// What `trim_end` leaves out is white space.
pub proof fn lemma_trim_end(s: Seq<char>)
    ensures
        trim_end(s).len() <= s.len(),
        trim_end(s) == s.take(trim_end(s).len() as int),
        blank(s.skip(trim_end(s).len() as int)),
        trim_end(s).len() > 0 ==> !white(trim_end(s).last()),
    decreases s.len(),
{
    if s.len() > 0 && white(s.last()) {
        let rest = s.drop_last();
        lemma_trim_end(rest);
        let k = trim_end(rest).len() as int;
        assert(rest.take(k) =~= s.take(k));
        assert forall|i: int| 0 <= i < s.len() - k implies white(#[trigger] s.skip(k)[i]) by {
            if i < rest.len() - k {
                assert(rest.skip(k)[i] == s[k + i]);
            }
        }
    } else {
        assert(s.take(s.len() as int) =~= s);
    }
}

/// White space in front of a text does not change what `trim` leaves of it.
pub proof fn lemma_trim_prepend(space: Seq<char>, s: Seq<char>)
    requires
        blank(space),
    ensures
        trim_start(space + s) == trim_start(s),
        trim(space + s) == trim(s),
    decreases space.len(),
{
    if space.len() == 0 {
        assert(space + s =~= s);
    } else {
        assert((space + s)[0] == space[0]);
        assert((space + s).drop_first() =~= space.drop_first() + s);
        lemma_trim_prepend(space.drop_first(), s);
    }
}

/// White space behind a text does not change what `trim_end` leaves of it.
pub proof fn lemma_trim_end_append(s: Seq<char>, space: Seq<char>)
    requires
        blank(space),
    ensures
        trim_end(s + space) == trim_end(s),
    decreases space.len(),
{
    if space.len() == 0 {
        assert(s + space =~= s);
    } else {
        assert((s + space).last() == space.last());
        assert((s + space).drop_last() =~= s + space.drop_last());
        lemma_trim_end_append(s, space.drop_last());
    }
}

/// White space behind a text does not change what `trim` leaves of it.
pub proof fn lemma_trim_append(s: Seq<char>, space: Seq<char>)
    requires
        blank(space),
    ensures
        trim(s + space) == trim(s),
{
    lemma_trim_start(s);
    let k = s.len() - trim_start(s).len();
    let front = s.take(k);
    let body = trim_start(s);
    assert(s =~= front + body);
    assert(s + space =~= front + (body + space));
    lemma_trim_prepend(front, body + space);
    if body.len() == 0 {
        assert(body + space =~= space);
        assert(space =~= space + Seq::<char>::empty());
        lemma_trim_prepend(space, Seq::<char>::empty());
    } else {
        assert((body + space)[0] == body[0]);
        assert(trim_start(body + space) == body + space);
        lemma_trim_end_append(body, space);
    }
}

/// A text without white space around it is left as it is.
pub proof fn lemma_trim_twice(s: Seq<char>)
    ensures
        trim(trim(s)) == trim(s),
        trim(s).len() > 0 ==> !white(trim(s)[0]) && !white(trim(s).last()),
{
    lemma_trim_start(s);
    lemma_trim_end(trim_start(s));
}

// ── Lines ─────────────────────────────────────────────────────────────

/// How many characters of `s` stand before its first line feed.
pub open spec fn line_len(s: Seq<char>) -> nat
    decreases s.len(),
{
    if s.len() == 0 || s[0] == '\n' {
        0
    } else {
        1 + line_len(s.drop_first())
    }
}

/// The first line of `s`, without the line feed that ends it and without a
/// carriage return right before that.
pub open spec fn first_line(s: Seq<char>) -> Seq<char> {
    let n = line_len(s) as int;
    if 0 < n < s.len() && s[n - 1] == '\r' {
        s.take(n - 1)
    } else {
        s.take(n)
    }
}

/// What follows the first line of `s` and its line feed.
pub open spec fn after_line(s: Seq<char>) -> Seq<char> {
    if line_len(s) < s.len() {
        s.skip((line_len(s) + 1) as int)
    } else {
        Seq::empty()
    }
}

/// The lines of `s`; the last one need not end in a line feed.
pub open spec fn lines(s: Seq<char>) -> Seq<Seq<char>>
    decreases s.len(),
{
    if s.len() == 0 {
        Seq::empty()
    } else {
        seq![first_line(s)] + lines(after_line(s))
    }
}

/// The first line feed stands where `line_len` says.
pub proof fn lemma_line_len(s: Seq<char>)
    ensures
        line_len(s) <= s.len(),
        forall|i: int| 0 <= i < line_len(s) ==> #[trigger] s[i] != '\n',
        line_len(s) < s.len() ==> s[line_len(s) as int] == '\n',
    decreases s.len(),
{
    if s.len() > 0 && s[0] != '\n' {
        let rest = s.drop_first();
        lemma_line_len(rest);
        assert forall|i: int| 0 <= i < line_len(s) implies #[trigger] s[i] != '\n' by {
            if i > 0 {
                assert(rest[i - 1] == s[i]);
            }
        }
        if line_len(s) < s.len() {
            assert(rest[line_len(rest) as int] == s[line_len(s) as int]);
        }
    }
}

/// Where the first line feed of a text stands, nothing else is `line_len`.
pub proof fn lemma_line_len_is(s: Seq<char>, n: nat)
    requires
        n <= s.len(),
        forall|i: int| 0 <= i < n ==> #[trigger] s[i] != '\n',
        n < s.len() ==> s[n as int] == '\n',
    ensures
        line_len(s) == n,
{
    lemma_line_len(s);
    let k = line_len(s);
    if k < n {
        assert(s[k as int] != '\n');
    }
}

/// Where the first line of `chars` from `from` on ends: before its line feed
/// and the carriage return right before that; and where its line feed stands.
pub fn line_end(chars: &Vec<char>, from: usize) -> (r: (usize, usize))
    requires
        from <= chars@.len(),
    ensures
        from <= r.0 <= r.1 <= chars@.len(),
        r.1 - from == line_len(chars@.skip(from as int)),
        chars@.subrange(from as int, r.0 as int) == first_line(chars@.skip(from as int)),
{
    let ghost rest = chars@.skip(from as int);
    let mut at: usize = from;
    while at < chars.len() && chars[at] != '\n'
        invariant
            from <= at <= chars@.len(),
            rest == chars@.skip(from as int),
            forall|i: int| 0 <= i < at - from ==> #[trigger] rest[i] != '\n',
        decreases chars@.len() - at,
    {
        assert(rest[at - from] == chars@[at as int]);
        at = at + 1;
    }
    proof {
        lemma_line_len_is(rest, (at - from) as nat);
    }
    if at > from && at < chars.len() && chars[at - 1] == '\r' {
        assert(rest[at - from - 1] == '\r');
        assert(chars@.subrange(from as int, at - 1) =~= rest.take(at - from - 1));
        (at - 1, at)
    } else {
        assert(at > from ==> rest[at - from - 1] == chars@[at - 1]);
        assert(chars@.subrange(from as int, at as int) =~= rest.take(at - from));
        (at, at)
    }
}

// ── Numbers ───────────────────────────────────────────────────────────

/// The character that stands for the digit `d`.
fn digit_char(d: u64) -> (c: char)
    requires
        d < 10,
    ensures
        c == digit(d as nat),
{
    (48u8 + d as u8) as char
}

/// Puts `n` in decimal digits at the end of `out`.
fn push_decimal(out: &mut String, n: u64)
    ensures
        final(out)@ == old(out)@ + decimal(n as nat),
    decreases n,
{
    if n >= 10 {
        push_decimal(out, n / 10);
    }
    out.push(digit_char(n % 10));
    assert(out@ =~= old(out)@ + decimal(n as nat));
}

/// `n` in decimal digits.
pub fn decimal_text(n: u64) -> (s: String)
    ensures
        s@ == decimal(n as nat),
{
    let mut s = String::new();
    push_decimal(&mut s, n);
    assert(s@ =~= decimal(n as nat));
    s
}

/// `n` in decimal digits, with a minus sign in front where it is negative.
pub fn signed_decimal_text(n: i32) -> (s: String)
    ensures
        s@ == signed_decimal(n as int),
{
    let mut s = String::new();
    if n < 0 {
        s.push('-');
        push_decimal(&mut s, (-(n as i64)) as u64);
    } else {
        push_decimal(&mut s, n as u64);
    }
    assert(s@ =~= signed_decimal(n as int));
    s
}

/// The more digits, the larger the number that they spell.
proof fn lemma_prefix_value(s: Seq<char>, i: int)
    requires
        0 <= i <= s.len(),
    ensures
        digits_value(s.take(i)) <= digits_value(s),
    decreases s.len() - i,
{
    if i == s.len() {
        assert(s.take(i) =~= s);
    } else {
        lemma_prefix_value(s, i + 1);
        assert(s.take(i + 1).drop_last() =~= s.take(i));
    }
}

/// The number that `s` spells, where it spells one that fits in 64 bits.
pub fn parsed_number(s: &str) -> (r: Option<u64>)
    ensures
        match r {
            Some(n) => number(s@) == Some(n as nat),
            None => number(s@) is None,
        },
{
    let chars = chars_of(s);
    let start: usize = if chars.len() > 0 && chars[0] == '+' {
        1
    } else {
        0
    };
    let ghost digits = unsigned_part(s@);
    assert(digits =~= chars@.subrange(start as int, chars@.len() as int));
    if start == chars.len() {
        return None;
    }
    let mut value: u64 = 0;
    let mut i: usize = start;
    while i < chars.len()
        invariant
            start <= i <= chars@.len(),
            chars@ == s@,
            digits == unsigned_part(s@),
            digits =~= chars@.subrange(start as int, chars@.len() as int),
            forall|j: int| 0 <= j < i - start ==> '0' <= #[trigger] digits[j] <= '9',
            value == digits_value(digits.take(i - start)),
        decreases chars@.len() - i,
    {
        let c = chars[i];
        assert(digits[i - start] == c);
        if c < '0' || c > '9' {
            return None;
        }
        let d: u64 = (c as u32 - 48) as u64;
        proof {
            assert(digits.take(i + 1 - start).drop_last() =~= digits.take(i - start));
            assert(digits.take(i + 1 - start).last() == c);
            lemma_prefix_value(digits, i + 1 - start);
        }
        if value > 0x1999_9999_9999_9999 || (value == 0x1999_9999_9999_9999 && d > 5) {
            return None;
        }
        value = value * 10 + d;
        i = i + 1;
    }
    assert(digits.take(i - start) =~= digits);
    Some(value)
}

/// A number that is written in decimal digits is read back as itself.
pub proof fn lemma_number_of_decimal(n: nat)
    requires
        n <= u64::MAX,
    ensures
        number(decimal(n)) == Some(n),
{
    lemma_decimal_digits(n);
}

proof fn lemma_decimal_digits(n: nat)
    ensures
        decimal(n).len() > 0,
        all_digits(decimal(n)),
        digits_value(decimal(n)) == n,
        unsigned_part(decimal(n)) == decimal(n),
    decreases n,
{
    if n < 10 {
        assert(decimal(n).drop_last() =~= Seq::<char>::empty());
        assert(digits_value(Seq::<char>::empty()) == 0);
    } else {
        lemma_decimal_digits(n / 10);
        assert(decimal(n).drop_last() =~= decimal(n / 10));
        assert(decimal(n)[0] == decimal(n / 10)[0]);
    }
}

// ── Putting text together ─────────────────────────────────────────────

/// Whether `part` stands in `chars` at `at`.
fn stands_at(chars: &Vec<char>, at: usize, part: &Vec<char>) -> (r: bool)
    requires
        at <= chars@.len(),
    ensures
        r == part@.is_prefix_of(chars@.skip(at as int)),
{
    let n = chars.len();
    if n - at < part.len() {
        return false;
    }
    let ghost rest = chars@.skip(at as int);
    let mut i: usize = 0;
    while i < part.len()
        invariant
            i <= part@.len(),
            at + part@.len() <= n,
            n == chars@.len(),
            rest == chars@.skip(at as int),
            part@.take(i as int) =~= rest.take(i as int),
        decreases part@.len() - i,
    {
        if chars[at + i] != part[i] {
            assert(rest[i as int] != part@[i as int]);
            return false;
        }
        assert(rest[i as int] == part@[i as int]);
        i = i + 1;
    }
    assert(part@.take(i as int) =~= part@);
    assert(rest.take(i as int) =~= rest.subrange(0, part@.len() as int));
    true
}

/// `s` without any occurrence of `part`, taken from left to right.
pub fn removed(s: &str, part: &str) -> (r: String)
    requires
        part@.len() > 0,
    ensures
        r@ == without(s@, part@),
{
    let chars = chars_of(s);
    let part_chars = chars_of(part);
    let mut out = String::new();
    let mut i: usize = 0;
    assert(s@.skip(0) =~= s@);
    while i < chars.len()
        invariant
            i <= chars@.len(),
            chars@ == s@,
            part_chars@ == part@,
            part@.len() > 0,
            out@ + without(s@.skip(i as int), part@) == without(s@, part@),
        decreases chars@.len() - i,
    {
        let ghost rest = s@.skip(i as int);
        if stands_at(&chars, i, &part_chars) {
            assert(rest.skip(part@.len() as int) =~= s@.skip(i + part@.len()));
            i = i + part_chars.len();
        } else {
            let ghost before = out@;
            out.push(chars[i]);
            assert(rest.drop_first() =~= s@.skip(i + 1));
            assert(before + (seq![rest[0]] + without(s@.skip(i + 1), part@)) =~= out@ + without(
                s@.skip(i + 1),
                part@,
            ));
            i = i + 1;
        }
    }
    assert(out@ + without(s@.skip(i as int), part@) =~= out@);
    out
}

/// Whether `part` stands anywhere in `s`.
pub open spec fn occurs(s: Seq<char>, part: Seq<char>) -> bool {
    exists|i: int| 0 <= i <= s.len() && part.is_prefix_of(#[trigger] s.skip(i))
}

/// Where nothing occurs, nothing is taken out.
pub proof fn lemma_without_absent(s: Seq<char>, part: Seq<char>)
    requires
        !occurs(s, part),
    ensures
        without(s, part) == s,
    decreases s.len(),
{
    if s.len() > 0 {
        let rest = s.drop_first();
        assert(s.skip(0) =~= s);
        assert forall|i: int| 0 <= i <= rest.len() implies !part.is_prefix_of(
            #[trigger] rest.skip(i),
        ) by {
            assert(rest.skip(i) =~= s.skip(i + 1));
        }
        lemma_without_absent(rest, part);
        if part.len() > 0 {
            assert(!part.is_prefix_of(s.skip(0)));
            assert(seq![s[0]] + rest =~= s);
        }
    }
}

/// The first occurrence is taken out, what stands before it is kept, and the
/// search goes on behind it.
pub proof fn law_first_occurrence_removed(before: Seq<char>, part: Seq<char>, after: Seq<char>)
    requires
        part.len() > 0,
        !occurs(before + part.drop_last(), part),
    ensures
        without(before + part + after, part) == before + without(after, part),
    decreases before.len(),
{
    let s = before + part + after;
    let searched = before + part.drop_last();
    if before.len() == 0 {
        assert(part.is_prefix_of(s)) by {
            assert(s.subrange(0, part.len() as int) =~= part);
        }
        assert(s.skip(part.len() as int) =~= after);
        assert(before + without(after, part) =~= without(after, part));
    } else {
        assert(!part.is_prefix_of(s)) by {
            if part.is_prefix_of(s) {
                assert(searched.skip(0).subrange(0, part.len() as int) =~= s.subrange(
                    0,
                    part.len() as int,
                ));
                assert(part.is_prefix_of(searched.skip(0)));
            }
        }
        let rest = before.drop_first();
        let rest_searched = rest + part.drop_last();
        assert forall|i: int| 0 <= i <= rest_searched.len() implies !part.is_prefix_of(
            #[trigger] rest_searched.skip(i),
        ) by {
            assert(rest_searched.skip(i) =~= searched.skip(i + 1));
        }
        law_first_occurrence_removed(rest, part, after);
        assert(s.drop_first() =~= rest + part + after);
        assert(seq![s[0]] + (rest + without(after, part)) =~= before + without(after, part));
    }
}

/// The texts of `list` one after the other, with `separator` between them.
pub fn joined(list: &[String], separator: &str) -> (r: String)
    ensures
        r@ == join(texts(list@), separator@),
{
    let mut out = String::new();
    let mut i: usize = 0;
    while i < list.len()
        invariant
            i <= list@.len(),
            out@ == join(texts(list@).take(i as int), separator@),
        decreases list@.len() - i,
    {
        if i > 0 {
            out.append(separator);
        }
        out.append(list[i].as_str());
        proof {
            let all = texts(list@);
            assert(all.take(i + 1).drop_last() =~= all.take(i as int));
            assert(all.take(i + 1).last() == list@[i as int]@);
            if i == 0 {
                assert(out@ =~= all[0]);
            } else {
                assert(out@ =~= join(all.take(i as int), separator@) + separator@
                    + list@[i as int]@);
            }
        }
        i = i + 1;
    }
    assert(texts(list@).take(i as int) =~= texts(list@));
    out
}

/// `s` followed by spaces, so that it takes at least `columns` characters.
pub fn padded_text(s: &str, columns: usize) -> (r: String)
    ensures
        r@ == padded(s@, columns as nat),
{
    let n = chars_of(s).len();
    let mut out = s.to_owned();
    let mut i: usize = n;
    while i < columns
        invariant
            n == s@.len(),
            n <= i,
            n < columns ==> i <= columns,
            columns <= n ==> i == n,
            out@ == s@ + Seq::new((i - n) as nat, |k: int| ' '),
        decreases columns - i,
    {
        out.push(' ');
        i = i + 1;
        assert(out@ =~= s@ + Seq::new((i - n) as nat, |k: int| ' '));
    }
    assert(out@ =~= padded(s@, columns as nat));
    out
}

/// The text that bytes are taken for, where some may be no UTF-8.
pub uninterp spec fn lossy_text(bytes: Seq<u8>) -> Seq<char>;

/// `String::from_utf8_lossy`: the text that the bytes are taken for. It is the
/// same for the same bytes, and the text itself where they are its UTF-8; what
/// stands for bytes that are none is not stated.
#[verifier::external_body]
pub(crate) fn lossy(bytes: &[u8]) -> (s: String)
    ensures
        s@ == lossy_text(bytes@),
        vstd::utf8::valid_utf8(bytes@) ==> s@ == vstd::utf8::decode_utf8(bytes@),
{
    String::from_utf8_lossy(bytes).into_owned()
}

// ── Bytes ─────────────────────────────────────────────────────────────

/// The number of bytes that `c` takes in UTF-8.
pub fn width_of(c: char) -> (r: usize)
    ensures
        r == width(c),
        1 <= r <= 4,
{
    let code = c as u32;
    if code <= 0x7f {
        1
    } else if code <= 0x7ff {
        2
    } else if code <= 0xffff {
        3
    } else {
        4
    }
}

/// The bytes of a text are those of its first characters and those of the
/// others.
pub proof fn lemma_byte_len_split(s: Seq<char>, i: int)
    requires
        0 <= i <= s.len(),
    ensures
        byte_len(s) == byte_len(s.take(i)) + byte_len(s.skip(i)),
    decreases i,
{
    if i == 0 {
        assert(s.skip(0) =~= s);
        assert(s.take(0) =~= Seq::<char>::empty());
    } else {
        lemma_byte_len_split(s.drop_first(), i - 1);
        assert(s.take(i).drop_first() =~= s.drop_first().take(i - 1));
        assert(s.skip(i) =~= s.drop_first().skip(i - 1));
    }
}

/// One more character adds its own bytes.
pub proof fn lemma_byte_len_push(s: Seq<char>, c: char)
    ensures
        byte_len(s.push(c)) == byte_len(s) + width(c),
{
    let n = s.len() as int;
    let one = s.push(c).skip(n);
    lemma_byte_len_split(s.push(c), n);
    assert(s.push(c).take(n) =~= s);
    assert(one[0] == c);
    assert(one.drop_first() =~= Seq::<char>::empty());
    assert(vstd::utf8::encode_utf8(one) == vstd::utf8::encode_scalar(c as u32)
        + vstd::utf8::encode_utf8(one.drop_first()));
    assert(vstd::utf8::encode_utf8(Seq::<char>::empty()).len() == 0);
}

/// A text takes at least as many bytes as it has characters.
pub proof fn lemma_byte_len_min(s: Seq<char>)
    ensures
        s.len() <= byte_len(s) <= 4 * s.len(),
    decreases s.len(),
{
    if s.len() > 0 {
        lemma_byte_len_min(s.drop_first());
    }
}

/// `fitting` is the largest count of first characters that take at most
/// `max` bytes.
pub proof fn lemma_fitting(s: Seq<char>, max: nat)
    ensures
        fitting(s, max) <= s.len(),
        byte_len(s.take(fitting(s, max) as int)) <= max,
        forall|n: int|
            fitting(s, max) < n <= s.len() ==> byte_len(#[trigger] s.take(n)) > max,
        fitting(s, max) == s.len() <==> byte_len(s) <= max,
    decreases s.len(),
{
    if s.len() == 0 {
        assert(s.take(0) =~= s);
    } else if width(s[0]) > max {
        assert(s.take(0) =~= Seq::<char>::empty());
        assert forall|n: int| 0 < n <= s.len() implies byte_len(#[trigger] s.take(n)) > max by {
            assert(s.take(n)[0] == s[0]);
        }
        assert(s.take(s.len() as int) =~= s);
    } else {
        let left = (max - width(s[0])) as nat;
        let tail = s.drop_first();
        lemma_fitting(tail, left);
        let k = fitting(tail, left) as int;
        assert(s.take(k + 1).drop_first() =~= tail.take(k));
        assert forall|n: int| k + 1 < n <= s.len() implies byte_len(#[trigger] s.take(n)) > max by {
            assert(s.take(n).drop_first() =~= tail.take(n - 1));
        }
    }
}

// ── What holds of every text ──────────────────────────────────────────

/// White space is these 25 characters and no others.
pub proof fn law_white(c: char)
    ensures
        white(c) <==> seq![
            '\u{9}',
            '\u{a}',
            '\u{b}',
            '\u{c}',
            '\u{d}',
            '\u{20}',
            '\u{85}',
            '\u{a0}',
            '\u{1680}',
            '\u{2000}',
            '\u{2001}',
            '\u{2002}',
            '\u{2003}',
            '\u{2004}',
            '\u{2005}',
            '\u{2006}',
            '\u{2007}',
            '\u{2008}',
            '\u{2009}',
            '\u{200a}',
            '\u{2028}',
            '\u{2029}',
            '\u{202f}',
            '\u{205f}',
            '\u{3000}',
        ].contains(c),
{
    let all = seq![
        '\u{9}',
        '\u{a}',
        '\u{b}',
        '\u{c}',
        '\u{d}',
        '\u{20}',
        '\u{85}',
        '\u{a0}',
        '\u{1680}',
        '\u{2000}',
        '\u{2001}',
        '\u{2002}',
        '\u{2003}',
        '\u{2004}',
        '\u{2005}',
        '\u{2006}',
        '\u{2007}',
        '\u{2008}',
        '\u{2009}',
        '\u{200a}',
        '\u{2028}',
        '\u{2029}',
        '\u{202f}',
        '\u{205f}',
        '\u{3000}',
    ];
    if white(c) {
        let code = c as int;
        let i = if code <= 0xd {
            code - 9
        } else if code == 0x20 {
            5
        } else if code == 0x85 {
            6
        } else if code == 0xa0 {
            7
        } else if code == 0x1680 {
            8
        } else if code <= 0x200a {
            code - 0x2000 + 9
        } else if code == 0x2028 {
            20
        } else if code == 0x2029 {
            21
        } else if code == 0x202f {
            22
        } else if code == 0x205f {
            23
        } else {
            24int
        };
        assert(all[i] == c);
    } else if all.contains(c) {
        let i = choose|i: int| 0 <= i < all.len() && all[i] == c;
        assert(white(all[i]));
    }
}

/// Whether `t` is what stands in `s` from `from` on, with only white space
/// around it.
pub open spec fn stands_in(s: Seq<char>, t: Seq<char>, from: int) -> bool {
    &&& 0 <= from
    &&& from + t.len() <= s.len()
    &&& t == s.subrange(from, from + t.len())
    &&& forall|i: int| 0 <= i < from ==> white(#[trigger] s[i])
    &&& forall|i: int| from + t.len() <= i < s.len() ==> white(#[trigger] s[i])
}

/// Trimming takes out the white space around a text, all of it and nothing
/// else.
pub proof fn law_trim(s: Seq<char>)
    ensures
        exists|from: int| #[trigger] stands_in(s, trim(s), from),
        trim(s).len() > 0 ==> !white(trim(s)[0]) && !white(trim(s).last()),
{
    lemma_trim_start(s);
    let body = trim_start(s);
    lemma_trim_end(body);
    let from = s.len() - body.len();
    let t = trim(s);
    assert(t =~= s.subrange(from, from + t.len()));
    assert forall|i: int| 0 <= i < from implies white(#[trigger] s[i]) by {
        assert(s.take(from)[i] == s[i]);
    }
    assert forall|i: int| from + t.len() <= i < s.len() implies white(#[trigger] s[i]) by {
        assert(body.skip(t.len() as int)[i - from - t.len()] == s[i]);
    }
    assert(stands_in(s, t, from));
    lemma_trim_twice(s);
}

/// Capitals become the letter 32 places on, character by character, and
/// everything else stays.
pub proof fn law_lower(s: Seq<char>)
    ensures
        lower(s).len() == s.len(),
        forall|i: int|
            0 <= i < s.len() ==> {
                &&& 65 <= s[i] as int <= 90 ==> #[trigger] lower(s)[i] as int == s[i] as int + 32
                &&& !(65 <= s[i] as int <= 90) ==> lower(s)[i] == s[i]
            },
{
    assert forall|i: int| 0 <= i < s.len() implies {
        &&& 65 <= s[i] as int <= 90 ==> #[trigger] lower(s)[i] as int == s[i] as int + 32
        &&& !(65 <= s[i] as int <= 90) ==> lower(s)[i] == s[i]
    } by {
        assert(lower(s)[i] == lower_char(s[i]));
    }
}

/// A number in decimal digits has no digit to spare, and spells itself.
pub proof fn law_decimal(n: nat)
    ensures
        all_digits(decimal(n)),
        decimal(n).len() > 0,
        n > 0 ==> decimal(n)[0] != '0',
        n == 0 ==> decimal(n) == seq!['0'],
        digits_value(decimal(n)) == n,
        n <= u64::MAX ==> number(decimal(n)) == Some(n),
        n > 0 ==> signed_decimal(-(n as int)) == seq!['-'] + decimal(n),
        signed_decimal(n as int) == decimal(n),
    decreases n,
{
    lemma_decimal_digits(n);
    if n >= 10 {
        law_decimal(n / 10);
        assert(decimal(n)[0] == decimal(n / 10)[0]);
    }
}

/// A text spells a number where it is digits, one at least, with a plus sign
/// in front or not: each digit counts ten times less than the one before it.
/// A number that does not fit in 64 bits is none.
pub proof fn law_number(s: Seq<char>, c: char)
    ensures
        number(Seq::empty()) is None,
        number(seq!['+']) is None,
        48 <= c as int <= 57 ==> number(seq![c]) == Some((c as int - 48) as nat),
        48 <= c as int <= 57 && number(s) is Some ==> number(s.push(c)) == (if 10 * number(s)->0 + (
        c as int - 48) <= u64::MAX {
            Some((10 * number(s)->0 + (c as int - 48)) as nat)
        } else {
            None
        }),
        s.len() > 0 && s[0] != '+' ==> number(seq!['+'] + s) == number(s),
        !(48 <= c as int <= 57) && !(c == '+' && s.len() == 0) ==> number(s.push(c)) is None,
        s.len() > 0 && number(s) is None && s != seq!['+'] ==> number(s.push(c)) is None,
{
    assert(unsigned_part(seq!['+']) =~= Seq::<char>::empty());
    let one = seq![c];
    assert(one.drop_last() =~= Seq::<char>::empty());
    assert(digits_value(Seq::<char>::empty()) == 0);
    let longer = s.push(c);
    let digits = unsigned_part(s);
    if s.len() > 0 {
        assert(longer[0] == s[0]);
        assert(unsigned_part(longer) =~= digits.push(c));
    } else {
        assert(longer =~= seq![c]);
    }
    assert(digits.push(c).drop_last() =~= digits);
    assert(digits.push(c).last() == c);
    if all_digits(digits.push(c)) {
        assert forall|i: int| 0 <= i < digits.len() implies '0' <= #[trigger] digits[i] <= '9' by {
            assert(digits.push(c)[i] == digits[i]);
        }
        assert(digits.push(c)[digits.len() as int] == c);
    }
    if s.len() > 0 && digits.len() == 0 {
        assert(s =~= seq!['+']);
    }
    if s.len() > 0 && s[0] != '+' {
        assert(unsigned_part(seq!['+'] + s) =~= s);
    }
}

/// Texts are joined with the separator between each two of them, and nowhere
/// else.
pub proof fn law_join(list: Seq<Seq<char>>, last: Seq<char>, separator: Seq<char>)
    ensures
        join(Seq::empty(), separator) == Seq::<char>::empty(),
        join(seq![last], separator) == last,
        list.len() > 0 ==> join(list.push(last), separator) == join(list, separator) + separator
            + last,
{
    assert(list.push(last).drop_last() =~= list);
}

/// A padded text is the text and spaces, as many as are wanted and no more.
pub proof fn law_padded(s: Seq<char>, columns: nat)
    ensures
        padded(s, columns).len() == (if s.len() < columns {
            columns
        } else {
            s.len()
        }),
        padded(s, columns).take(s.len() as int) == s,
        forall|i: int| s.len() <= i < padded(s, columns).len() ==> #[trigger] padded(s, columns)[i] == ' ',
{
    assert(padded(s, columns).take(s.len() as int) =~= s);
}

/// A line ends at a line feed, or with the text; a carriage return right
/// before a line feed belongs to the end of the line.
pub proof fn law_lines(line: Seq<char>, rest: Seq<char>)
    requires
        !line.contains('\n'),
    ensures
        lines(Seq::empty()).len() == 0,
        line.len() > 0 ==> lines(line) == seq![line],
        line.len() == 0 || line.last() != '\r' ==> lines(line + seq!['\n'] + rest) == seq![line]
            + lines(rest),
        lines(line + seq!['\r', '\n'] + rest) == seq![line] + lines(rest),
{
    assert forall|i: int| 0 <= i < line.len() implies #[trigger] line[i] != '\n' by {
        assert(line.contains(line[i]));
    }
    lemma_line_len_is(line, line.len());
    assert(line.take(line.len() as int) =~= line);
    assert(lines(Seq::<char>::empty()) =~= Seq::<Seq<char>>::empty());
    assert(line.len() > 0 ==> lines(line) =~= seq![line]);
    let unix = line + seq!['\n'] + rest;
    lemma_line_len_is(unix, line.len());
    assert(unix.take(line.len() as int) =~= line);
    assert(unix.skip((line.len() + 1) as int) =~= rest);
    assert(line.len() > 0 ==> unix[line.len() - 1] == line.last());
    let dos = line + seq!['\r', '\n'] + rest;
    lemma_line_len_is(dos, line.len() + 1);
    assert(dos.take(line.len() as int) =~= line);
    assert(dos.skip((line.len() + 2) as int) =~= rest);
}

/// A text takes the bytes of its characters: one up to U+007F, two up to
/// U+07FF, three up to U+FFFF, and four beyond.
pub proof fn law_byte_len(s: Seq<char>, c: char)
    ensures
        byte_len(Seq::empty()) == 0,
        byte_len(s.push(c)) == byte_len(s) + (if c as int <= 0x7f {
            1int
        } else if c as int <= 0x7ff {
            2
        } else if c as int <= 0xffff {
            3
        } else {
            4
        }),
{
    lemma_byte_len_push(s, c);
}

/// The characters of a list of texts are those of its texts, one by one.
pub proof fn law_texts(list: Seq<String>, s: String)
    ensures
        texts(list).len() == list.len(),
        forall|i: int| 0 <= i < list.len() ==> #[trigger] texts(list)[i] == list[i]@,
        optional(Some(s)) == Some(s@),
        optional(None) is None,
{
}

} // verus!
