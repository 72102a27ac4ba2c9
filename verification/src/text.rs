//! Plain text: decimal numbers, white space, lines.
//!
//! The cache of certificates is kept in small text files. This module says how
//! numbers and lists are written to such a file and how they are read back.

use vstd::prelude::*;
use vstd::slice::slice_subrange;

verus! {

/// Appending one character to a `String` with `String::push`: the text grows
/// by exactly that character.
pub assume_specification[ String::push ](s: &mut String, c: char)
    ensures
        final(s)@ == old(s)@.push(c),
;

/// The characters that carry the Unicode property `White_Space`.
pub open spec fn white_space(c: char) -> bool {
    let u = c as u32;
    ||| 0x09 <= u <= 0x0d
    ||| u == 0x20
    ||| u == 0x85
    ||| u == 0xa0
    ||| u == 0x1680
    ||| 0x2000 <= u <= 0x200a
    ||| u == 0x2028
    ||| u == 0x2029
    ||| u == 0x202f
    ||| u == 0x205f
    ||| u == 0x3000
}

/// The text without the white space at its beginning.
pub open spec fn trimmed_start(s: Seq<char>) -> Seq<char>
    decreases s.len(),
{
    if s.len() > 0 && white_space(s.first()) {
        trimmed_start(s.drop_first())
    } else {
        s
    }
}

/// The text without the white space at its end.
pub open spec fn trimmed_end(s: Seq<char>) -> Seq<char>
    decreases s.len(),
{
    if s.len() > 0 && white_space(s.last()) {
        trimmed_end(s.drop_last())
    } else {
        s
    }
}

/// The text without the white space at both ends.
pub open spec fn trimmed(s: Seq<char>) -> Seq<char> {
    trimmed_end(trimmed_start(s))
}

/// Whether the character is one of the ten decimal digits.
pub open spec fn is_digit(c: char) -> bool {
    '0' <= c <= '9'
}

/// The number that a digit stands for.
pub open spec fn digit_value(c: char) -> nat {
    (c as u32 - '0' as u32) as nat
}

/// The digit that stands for a number below ten.
pub open spec fn digit_char(d: nat) -> char {
    ('0' as u32 + d) as char
}

/// Whether every character is a decimal digit.
pub open spec fn all_digits(s: Seq<char>) -> bool {
    forall|i: int| 0 <= i < s.len() ==> is_digit(#[trigger] s[i])
}

/// The number that a row of digits stands for.
pub open spec fn digits_value(s: Seq<char>) -> nat
    decreases s.len(),
{
    if s.len() == 0 {
        0
    } else {
        digits_value(s.drop_last()) * 10 + digit_value(s.last())
    }
}

/// A number in decimal digits, without leading zeros.
pub open spec fn decimal(n: nat) -> Seq<char>
    decreases n,
{
    if n < 10 {
        seq![digit_char(n)]
    } else {
        decimal(n / 10).push(digit_char(n % 10))
    }
}

/// An integer in decimal digits, with a minus sign in front of a negative one.
pub open spec fn signed_decimal(i: int) -> Seq<char> {
    if i < 0 {
        seq!['-'] + decimal((-i) as nat)
    } else {
        decimal(i as nat)
    }
}

/// The 64-bit integer that a text spells, if it spells one: an optional sign
/// and at least one digit, nothing else, and a value in range.
pub open spec fn parsed_i64(s: Seq<char>) -> Option<int> {
    let signed = s.len() > 0 && (s[0] == '-' || s[0] == '+');
    let digits = if signed {
        s.drop_first()
    } else {
        s
    };
    let value = if signed && s[0] == '-' {
        -(digits_value(digits) as int)
    } else {
        digits_value(digits) as int
    };
    if digits.len() > 0 && all_digits(digits) && i64::MIN <= value <= i64::MAX {
        Some(value)
    } else {
        None
    }
}

/// A line without the carriage return that stands before its line feed.
pub open spec fn without_carriage_return(s: Seq<char>) -> Seq<char> {
    if s.len() > 0 && s.last() == '\r' {
        s.drop_last()
    } else {
        s
    }
}

/// The lines of a text. Each ends with a line feed, or a carriage return and
/// a line feed; the ending of the last line may be missing.
pub open spec fn lines(s: Seq<char>) -> Seq<Seq<char>>
    decreases s.len(),
{
    if s.len() == 0 {
        Seq::empty()
    } else if s.contains('\n') {
        let end = s.index_of_first('\n').unwrap();
        if 0 <= end < s.len() {
            seq![without_carriage_return(s.take(end))] + lines(s.skip(end + 1))
        } else {
            Seq::empty()
        }
    } else {
        seq![s]
    }
}

/// The texts one after the other with a line feed between them.
pub open spec fn joined(texts: Seq<Seq<char>>) -> Seq<char>
    decreases texts.len(),
{
    if texts.len() == 0 {
        Seq::empty()
    } else if texts.len() == 1 {
        texts[0]
    } else {
        texts[0] + seq!['\n'] + joined(texts.drop_first())
    }
}

/// The characters of a text.
pub fn chars_of(s: &str) -> (r: Vec<char>)
    ensures
        r@ == s@,
{
    let mut out: Vec<char> = Vec::new();
    for c in it: s.chars()
        invariant
            it.seq() == s@,
            out@ == s@.take(it.index() as int),
    {
        out.push(c);
    }
    out
}

/// Whether the character is white space.
pub fn is_white_space(c: char) -> (r: bool)
    ensures
        r == white_space(c),
{
    let u: u32 = c as u32;
    (0x09 <= u && u <= 0x0d) || u == 0x20 || u == 0x85 || u == 0xa0 || u == 0x1680 || (0x2000 <= u
        && u <= 0x200a) || u == 0x2028 || u == 0x2029 || u == 0x202f || u == 0x205f || u == 0x3000
}

/// The text without the white space at both ends.
pub fn trim(s: &[char]) -> (r: &[char])
    ensures
        r@ == trimmed(s@),
{
    let mut lo: usize = 0;
    assert(s@.skip(0) =~= s@);
    while lo < s.len() && is_white_space(s[lo])
        invariant
            lo <= s@.len(),
            trimmed_start(s@.skip(lo as int)) == trimmed_start(s@),
        decreases s@.len() - lo,
    {
        assert(s@.skip(lo as int).drop_first() =~= s@.skip(lo + 1));
        lo = lo + 1;
    }
    let mut hi: usize = s.len();
    assert(s@.subrange(lo as int, hi as int) =~= s@.skip(lo as int));
    while lo < hi && is_white_space(s[hi - 1])
        invariant
            lo <= hi <= s@.len(),
            trimmed_end(s@.subrange(lo as int, hi as int)) == trimmed(s@),
        decreases hi,
    {
        assert(s@.subrange(lo as int, hi as int).drop_last() =~= s@.subrange(
            lo as int,
            hi - 1,
        ));
        hi = hi - 1;
    }
    slice_subrange(s, lo, hi)
}

/// Whether two rows of characters are the same.
pub fn same_chars(a: &[char], b: &[char]) -> (r: bool)
    ensures
        r == (a@ == b@),
{
    if a.len() != b.len() {
        return false;
    }
    let mut i: usize = 0;
    while i < a.len()
        invariant
            a@.len() == b@.len(),
            i <= a@.len(),
            forall|j: int| 0 <= j < i ==> a@[j] == b@[j],
        decreases a@.len() - i,
    {
        if a[i] != b[i] {
            assert(a@[i as int] != b@[i as int]);
            return false;
        }
        i = i + 1;
    }
    assert(a@ =~= b@);
    true
}

/// Dropping digits from the end does not make the number larger.
proof fn lemma_digits_value_prefix(s: Seq<char>, i: int)
    requires
        0 <= i <= s.len(),
        all_digits(s),
    ensures
        digits_value(s.take(i)) <= digits_value(s),
    decreases s.len(),
{
    if i < s.len() {
        let t = s.drop_last();
        assert forall|j: int| 0 <= j < t.len() implies is_digit(#[trigger] t[j]) by {
            assert(t[j] == s[j]);
        }
        lemma_digits_value_prefix(t, i);
        assert(t.take(i) =~= s.take(i));
    } else {
        assert(s.take(i) =~= s);
    }
}

/// The 64-bit integer that a text spells, if it spells one.
pub fn parse_i64(s: &[char]) -> (r: Option<i64>)
    ensures
        match r {
            Some(v) => parsed_i64(s@) == Some(v as int),
            None => parsed_i64(s@) is None,
        },
{
    let negative: bool = s.len() > 0 && s[0] == '-';
    let start: usize = if s.len() > 0 && (s[0] == '-' || s[0] == '+') {
        1
    } else {
        0
    };
    let ghost digits = s@.skip(start as int);
    assert(start == 1 ==> s@.drop_first() =~= digits);
    assert(start == 0 ==> s@ =~= digits);
    if start == s.len() {
        return None;
    }
    let mut i: usize = start;
    let mut value: u64 = 0;
    assert(digits.take(0) =~= Seq::<char>::empty());
    while i < s.len()
        invariant
            start <= i <= s@.len(),
            start == 0 || start == 1,
            digits == s@.skip(start as int),
            negative ==> start == 1 && s@[0] == '-',
            !negative && start == 1 ==> s@[0] == '+',
            start == 0 ==> (s@.len() > 0 ==> s@[0] != '-' && s@[0] != '+'),
            start == 1 ==> s@.len() > 0 && s@.drop_first() == digits,
            start == 0 ==> s@ == digits,
            digits.len() > 0,
            forall|j: int| 0 <= j < i - start ==> is_digit(#[trigger] digits[j]),
            value == digits_value(digits.take(i - start)),
            value <= 9223372036854775808,
        decreases s@.len() - i,
    {
        let c: char = s[i];
        assert(c == digits[i - start]);
        if !('0' <= c && c <= '9') {
            assert(!is_digit(digits[i - start]));
            return None;
        }
        let next: u128 = value as u128 * 10 + (c as u32 - '0' as u32) as u128;
        assert(digits.take(i - start + 1).drop_last() =~= digits.take(i - start));
        assert(digits.take(i - start + 1).last() == c);
        assert(next == digits_value(digits.take(i - start + 1)));
        if next > 9223372036854775808 {
            proof {
                if all_digits(digits) {
                    lemma_digits_value_prefix(digits, i - start + 1);
                }
            }
            return None;
        }
        value = next as u64;
        i = i + 1;
    }
    assert(digits.take(i - start) =~= digits);
    assert(all_digits(digits));
    if negative {
        if value == 9223372036854775808 {
            Some(i64::MIN)
        } else {
            Some(-(value as i64))
        }
    } else if value == 9223372036854775808 {
        None
    } else {
        Some(value as i64)
    }
}

/// Whether some line of the text, without the white space around it, is the
/// given word.
pub fn has_line(s: &[char], word: &[char]) -> (r: bool)
    ensures
        r == exists|i: int|
            0 <= i < lines(s@).len() && trimmed(#[trigger] lines(s@)[i]) == word@,
{
    let mut start: usize = 0;
    assert(s@.skip(0) =~= s@);
    let ghost mut done: int = 0;
    while start < s.len()
        invariant
            start <= s@.len(),
            0 <= done,
            lines(s@).len() == done + lines(s@.skip(start as int)).len(),
            forall|i: int|
                0 <= i < lines(s@.skip(start as int)).len() ==> #[trigger] lines(
                    s@.skip(start as int),
                )[i] == lines(s@)[done + i],
            forall|i: int| 0 <= i < done ==> trimmed(#[trigger] lines(s@)[i]) != word@,
        decreases s@.len() - start,
    {
        let ghost rest = s@.skip(start as int);
        let mut end: usize = start;
        while end < s.len() && s[end] != '\n'
            invariant
                start <= end <= s@.len(),
                rest == s@.skip(start as int),
                forall|j: int| 0 <= j < end - start ==> rest[j] != '\n',
            decreases s@.len() - end,
        {
            end = end + 1;
        }
        let mut stop: usize = end;
        if end < s.len() && end > start && s[end - 1] == '\r' {
            stop = end - 1;
        }
        let line: &[char] = trim(slice_subrange(s, start, stop));
        proof {
            if end < s@.len() {
                assert(rest[end - start] == '\n');
                assert(rest.contains('\n'));
                rest.index_of_first_ensures('\n');
                assert(rest.index_of_first('\n').unwrap() == end - start);
                let l = rest.take(end - start);
                assert(without_carriage_return(l) =~= s@.subrange(start as int, stop as int));
                assert(rest.skip(end - start + 1) =~= s@.skip(end + 1));
                let tail = lines(s@.skip(end + 1));
                assert(lines(rest) == seq![without_carriage_return(l)] + tail);
                assert forall|i: int| 0 <= i < tail.len() implies #[trigger] tail[i] == lines(
                    s@,
                )[done + 1 + i] by {
                    assert(lines(rest)[i + 1] == tail[i]);
                }
            } else {
                assert(!rest.contains('\n'));
                assert(rest =~= s@.subrange(start as int, stop as int));
                assert(lines(rest) == seq![rest]);
            }
            assert(lines(rest)[0] == s@.subrange(start as int, stop as int));
            assert(lines(s@)[done] == lines(rest)[0]);
        }
        if same_chars(line, word) {
            assert(trimmed(lines(s@)[done]) == word@);
            return true;
        }
        proof {
            done = done + 1;
        }
        if end < s.len() {
            start = end + 1;
        } else {
            start = end;
            assert(s@.skip(start as int) =~= Seq::<char>::empty());
        }
    }
    assert(s@.skip(start as int) =~= Seq::<char>::empty());
    false
}

/// Writes a number in decimal digits.
fn push_decimal(out: &mut String, n: u64)
    ensures
        final(out)@ == old(out)@ + decimal(n as nat),
    decreases n,
{
    if n >= 10 {
        push_decimal(out, n / 10);
    }
    let d: u8 = (n % 10) as u8;
    let c: char = (48u8 + d) as char;
    out.push(c);
    assert(c == digit_char((n % 10) as nat));
    assert(out@ =~= old(out)@ + decimal(n as nat));
}

/// A number below 256 in decimal digits.
pub fn u8_text(n: u8) -> (r: String)
    ensures
        r@ == decimal(n as nat),
{
    let mut out: String = String::new();
    push_decimal(&mut out, n as u64);
    assert(out@ =~= decimal(n as nat));
    out
}

/// A signed number in decimal digits.
pub fn i64_text(n: i64) -> (r: String)
    ensures
        r@ == signed_decimal(n as int),
{
    let mut out: String = String::new();
    if n < 0 {
        out.push('-');
        let m: u64 = if n == i64::MIN {
            9223372036854775808
        } else {
            (-n) as u64
        };
        push_decimal(&mut out, m);
    } else {
        push_decimal(&mut out, n as u64);
    }
    assert(out@ =~= signed_decimal(n as int));
    out
}

/// Decimal digits read back as the number they were written for.
pub proof fn decimal_reads_back(n: nat)
    ensures
        decimal(n).len() > 0,
        all_digits(decimal(n)),
        digits_value(decimal(n)) == n,
    decreases n,
{
    if n < 10 {
        assert(decimal(n).drop_last() =~= Seq::<char>::empty());
        assert(digits_value(Seq::<char>::empty()) == 0);
    } else {
        decimal_reads_back(n / 10);
        assert(decimal(n).drop_last() =~= decimal(n / 10));
    }
}

/// Two numbers with the same decimal digits are the same number.
pub proof fn decimal_is_injective(a: nat, b: nat)
    requires
        decimal(a) == decimal(b),
    ensures
        a == b,
{
    decimal_reads_back(a);
    decimal_reads_back(b);
}

/// A text that neither begins nor ends with white space keeps its characters
/// when it is trimmed, and a line feed behind it is trimmed away.
pub proof fn trimmed_line_reads_back(s: Seq<char>)
    requires
        s.len() > 0,
        !white_space(s.first()),
        !white_space(s.last()),
    ensures
        trimmed(s) == s,
        trimmed(s + seq!['\n']) == s,
{
    let t = s + seq!['\n'];
    reveal_with_fuel(trimmed_end, 2);
    assert(t.first() == s.first());
    assert(t.last() == '\n');
    assert(t.drop_last() =~= s);
}

/// An integer written as a line of its own, white space trimmed, reads back as
/// the same integer.
pub proof fn number_reads_back(i: int)
    requires
        i64::MIN <= i <= i64::MAX,
    ensures
        parsed_i64(signed_decimal(i)) == Some(i),
        parsed_i64(trimmed(signed_decimal(i) + seq!['\n'])) == Some(i),
{
    let m = if i < 0 {
        (-i) as nat
    } else {
        i as nat
    };
    decimal_reads_back(m);
    let s = signed_decimal(i);
    if i < 0 {
        assert(s.drop_first() =~= decimal(m));
        assert(s[0] == '-');
        assert(s.last() == decimal(m).last());
    } else {
        assert(is_digit(s[0]));
    }
    assert(is_digit(decimal(m)[decimal(m).len() - 1]));
    trimmed_line_reads_back(s);
}

/// Texts joined by line feeds, with a line feed at the end, read back line by
/// line as the same texts. They must hold no line feed themselves and not end
/// with a carriage return.
pub proof fn lines_read_back(texts: Seq<Seq<char>>)
    requires
        texts.len() > 0,
        forall|i: int|
            0 <= i < texts.len() ==> !(#[trigger] texts[i]).contains('\n')
                && without_carriage_return(texts[i]) == texts[i],
    ensures
        lines(joined(texts) + seq!['\n']) == texts,
    decreases texts.len(),
{
    let t = joined(texts) + seq!['\n'];
    let head = texts[0];
    let rest = texts.drop_first();
    let tail = if texts.len() == 1 {
        Seq::<char>::empty()
    } else {
        joined(rest) + seq!['\n']
    };
    assert(t =~= head + seq!['\n'] + tail);
    assert(t[head.len() as int] == '\n');
    assert(t.contains('\n'));
    t.index_of_first_ensures('\n');
    let end = t.index_of_first('\n').unwrap();
    if end < head.len() {
        assert(head[end] == '\n');
        assert(head.contains('\n'));
    }
    assert(end == head.len());
    assert(t.take(end) =~= head);
    assert(t.skip(end + 1) =~= tail);
    if texts.len() > 1 {
        assert forall|i: int| 0 <= i < rest.len() implies !(#[trigger] rest[i]).contains('\n')
            && without_carriage_return(rest[i]) == rest[i] by {
            assert(rest[i] == texts[i + 1]);
        }
        lines_read_back(rest);
    }
    assert(lines(t) =~= seq![head] + lines(tail));
    assert(lines(t) =~= texts);
}

/// White space, character by character.
pub proof fn white_space_is_listed(c: char)
    ensures
        white_space(c) <==> c == '\t' || c == '\n' || c == '\u{b}' || c == '\u{c}' || c == '\r' || c
            == ' ' || c == '\u{85}' || c == '\u{a0}' || c == '\u{1680}' || c == '\u{2000}' || c
            == '\u{2001}' || c == '\u{2002}' || c == '\u{2003}' || c == '\u{2004}' || c == '\u{2005}'
            || c == '\u{2006}' || c == '\u{2007}' || c == '\u{2008}' || c == '\u{2009}' || c
            == '\u{200a}' || c == '\u{2028}' || c == '\u{2029}' || c == '\u{202f}' || c == '\u{205f}'
            || c == '\u{3000}',
{
}

/// Whether every character is white space.
pub open spec fn all_white_space(s: Seq<char>) -> bool {
    forall|i: int| 0 <= i < s.len() ==> white_space(#[trigger] s[i])
}

proof fn lemma_trimmed_start(s: Seq<char>) -> (cut: Seq<char>)
    ensures
        s == cut + trimmed_start(s),
        all_white_space(cut),
        trimmed_start(s).len() > 0 ==> !white_space(trimmed_start(s).first()),
    decreases s.len(),
{
    if s.len() > 0 && white_space(s.first()) {
        let rest = lemma_trimmed_start(s.drop_first());
        let cut = seq![s.first()] + rest;
        assert forall|i: int| 0 <= i < cut.len() implies white_space(#[trigger] cut[i]) by {
            if i > 0 {
                assert(cut[i] == rest[i - 1]);
            }
        }
        assert(s =~= seq![s.first()] + s.drop_first());
        assert(s =~= cut + trimmed_start(s));
        cut
    } else {
        assert(s =~= Seq::<char>::empty() + s);
        Seq::empty()
    }
}

proof fn lemma_trimmed_end(s: Seq<char>) -> (cut: Seq<char>)
    ensures
        s == trimmed_end(s) + cut,
        all_white_space(cut),
        trimmed_end(s).len() > 0 ==> !white_space(trimmed_end(s).last()),
    decreases s.len(),
{
    if s.len() > 0 && white_space(s.last()) {
        let rest = lemma_trimmed_end(s.drop_last());
        let cut = rest.push(s.last());
        assert forall|i: int| 0 <= i < cut.len() implies white_space(#[trigger] cut[i]) by {
            if i < rest.len() {
                assert(cut[i] == rest[i]);
            }
        }
        assert(s =~= s.drop_last().push(s.last()));
        assert(s =~= trimmed_end(s) + cut);
        cut
    } else {
        assert(s =~= s + Seq::<char>::empty());
        Seq::empty()
    }
}

/// Trimming cuts white space from both ends, all of it and nothing else.
pub proof fn trimming_cuts_white_space(s: Seq<char>) -> (cut: (Seq<char>, Seq<char>))
    ensures
        s == cut.0 + trimmed(s) + cut.1,
        all_white_space(cut.0),
        all_white_space(cut.1),
        trimmed(s).len() > 0 ==> !white_space(trimmed(s).first()) && !white_space(
            trimmed(s).last(),
        ),
{
    let front = lemma_trimmed_start(s);
    let back = lemma_trimmed_end(trimmed_start(s));
    assert(s =~= front + trimmed(s) + back);
    if trimmed(s).len() > 0 {
        assert(trimmed(s).first() == trimmed_start(s).first());
    }
    (front, back)
}

/// The ten digits, in order, stand for the numbers from zero to nine.
pub proof fn digits_are_in_order(d: nat, c: char)
    ensures
        d < 10 ==> digit_char(d) == "0123456789"@[d as int] && is_digit(digit_char(d))
            && digit_value(digit_char(d)) == d,
        is_digit(c) <==> "0123456789"@.contains(c),
        is_digit(c) ==> digit_value(c) < 10 && "0123456789"@[digit_value(c) as int] == c,
{
    reveal_strlit("0123456789");
    let digits = "0123456789"@;
    if is_digit(c) {
        let v = digit_value(c) as int;
        assert(digits[v] == c);
    }
    if digits.contains(c) {
        let i = choose|i: int| 0 <= i < digits.len() && digits[i] == c;
        assert(is_digit(digits[i]));
    }
}

/// A number is written digit by digit, the highest first and without leading
/// zeros: one more digit is written behind the others.
pub proof fn decimal_grows_by_a_digit(n: nat, d: nat)
    requires
        n > 0,
        d < 10,
    ensures
        decimal(10 * n + d) == decimal(n).push("0123456789"@[d as int]),
        decimal(n).first() != '0',
        decimal(d) == seq!["0123456789"@[d as int]],
    decreases n,
{
    digits_are_in_order(d, '0');
    assert((10 * n + d) / 10 == n);
    assert((10 * n + d) % 10 == d);
    if n >= 10 {
        decimal_grows_by_a_digit(n / 10, n % 10);
        digits_are_in_order(n % 10, '0');
        assert(decimal(n).first() == decimal(n / 10).first());
    } else {
        digits_are_in_order(n, '0');
    }
}

/// Digits are read by their place: what stands behind counts once, what stands
/// before ten times as much, and leading zeros do not count.
pub proof fn digits_count_by_place(s: Seq<char>, c: char)
    ensures
        digits_value(s.push(c)) == 10 * digits_value(s) + digit_value(c),
        digits_value(Seq::empty()) == 0,
        digits_value(seq!['0'] + s) == digits_value(s),
    decreases s.len(),
{
    assert(s.push(c).drop_last() =~= s);
    let t = seq!['0'] + s;
    if s.len() > 0 {
        digits_count_by_place(s.drop_last(), c);
        assert(t.drop_last() =~= seq!['0'] + s.drop_last());
    } else {
        assert(t.drop_last() =~= Seq::<char>::empty());
        assert(s =~= Seq::<char>::empty());
        assert(digits_value(t.drop_last()) == 0);
    }
}

/// A row of digits is read as its number, with a plus as the same and with a
/// minus as the opposite, as long as that has 64 bits.
pub proof fn sign_turns_the_number(digits: Seq<char>)
    requires
        digits.len() > 0,
        all_digits(digits),
    ensures
        parsed_i64(digits) == if digits_value(digits) <= 9223372036854775807 {
            Some(digits_value(digits) as int)
        } else {
            None
        },
        parsed_i64(seq!['+'] + digits) == parsed_i64(digits),
        parsed_i64(seq!['-'] + digits) == if digits_value(digits) <= 9223372036854775808 {
            Some(-(digits_value(digits) as int))
        } else {
            None
        },
{
    assert(is_digit(digits[0]));
    assert((seq!['+'] + digits).drop_first() =~= digits);
    assert((seq!['-'] + digits).drop_first() =~= digits);
}

/// Only that is read as a number: a text with another character in it, or
/// without a digit, is none.
pub proof fn other_texts_are_no_number(s: Seq<char>, i: int)
    ensures
        s.len() == 0 ==> parsed_i64(s) is None,
        s.len() == 1 && !is_digit(s[0]) ==> parsed_i64(s) is None,
        0 <= i < s.len() && !is_digit(s[i]) && i > 0 ==> parsed_i64(s) is None,
        s.len() > 0 && !is_digit(s[0]) && s[0] != '-' && s[0] != '+' ==> parsed_i64(s) is None,
{
    if 0 < i < s.len() {
        assert(s.drop_first()[i - 1] == s[i]);
    }
}

proof fn lemma_first_line(a: Seq<char>, b: Seq<char>)
    requires
        !a.contains('\n'),
    ensures
        lines(a + seq!['\n'] + b) == seq![without_carriage_return(a)] + lines(b),
{
    let t = a + seq!['\n'] + b;
    assert(t[a.len() as int] == '\n');
    assert(t.contains('\n'));
    t.index_of_first_ensures('\n');
    let end = t.index_of_first('\n').unwrap();
    if end < a.len() {
        assert(a[end] == '\n');
    }
    assert(t.take(end) =~= a);
    assert(t.skip(end + 1) =~= b);
}

/// A line ends with a line feed, or with a carriage return and a line feed, and
/// what is behind is read in the same way; the last line need not end. Only the
/// carriage return that stands before the line feed is part of the ending.
pub proof fn lines_are_read_one_by_one(a: Seq<char>, b: Seq<char>)
    requires
        !a.contains('\n'),
    ensures
        lines(a + seq!['\r', '\n'] + b) == seq![a] + lines(b),
        a.len() == 0 || a.last() != '\r' ==> lines(a + seq!['\n'] + b) == seq![a] + lines(b),
        a.len() > 0 ==> lines(a) == seq![a],
        lines(Seq::empty()) == Seq::<Seq<char>>::empty(),
{
    let c = a.push('\r');
    assert forall|i: int| 0 <= i < c.len() implies c[i] != '\n' by {
        if i < a.len() {
            assert(a.contains(a[i]));
        }
    }
    assert(c.drop_last() =~= a);
    lemma_first_line(c, b);
    assert(a + seq!['\r', '\n'] + b =~= c + seq!['\n'] + b);
    lemma_first_line(a, b);
}

/// Texts are joined by one line feed between two of them and nothing else.
pub proof fn joining_puts_a_line_feed_between(texts: Seq<Seq<char>>, t: Seq<char>)
    ensures
        joined(seq![t]) == t,
        texts.len() > 0 ==> joined(texts.push(t)) == joined(texts) + seq!['\n'] + t,
        joined(Seq::empty()) == Seq::<char>::empty(),
    decreases texts.len(),
{
    if texts.len() > 0 {
        let all = texts.push(t);
        let rest = texts.drop_first();
        joining_puts_a_line_feed_between(rest, t);
        assert(all.drop_first() =~= rest.push(t));
        if texts.len() == 1 {
            assert(rest.push(t) =~= seq![t]);
        }
        assert(joined(all) =~= joined(texts) + seq!['\n'] + t);
    }
}

/// A number is written with a minus in front exactly if it is negative, and
/// otherwise in digits alone; the opposite has the same digits.
pub proof fn minus_marks_the_negative(i: int)
    ensures
        i >= 0 ==> all_digits(signed_decimal(i)) && digits_value(signed_decimal(i)) == i,
        i > 0 ==> signed_decimal(-i) == seq!['-'] + signed_decimal(i) && signed_decimal(i).first()
            != '0',
        signed_decimal(0) == seq!['0'],
{
    digits_are_in_order(0, '0');
    reveal_strlit("0123456789");
    if i >= 0 {
        decimal_reads_back(i as nat);
    }
    if i > 0 {
        decimal_grows_by_a_digit(i as nat, 0);
    }
}

} // verus!
