//! Characters, lines and numbers as text.
//!
//! Strings are modelled by the sequence of their characters. The functions here
//! are the building blocks for everything the library prints or reads.

use vstd::prelude::*;

verus! {

/// `String::push` appends one character to the end of the string.
pub assume_specification[ String::push ](s: &mut String, ch: char)
    ensures
        final(s)@ == old(s)@.push(ch),
;

/// The characters of a string, in order.
pub fn chars_of(s: &str) -> (out: Vec<char>)
    ensures
        out@ == s@,
{
    let mut out: Vec<char> = Vec::new();
    for c in it: s.chars()
        invariant
            it.seq() == s@,
            out@ == s@.take(it.index() as int),
    {
        out.push(c);
        assert(out@ =~= s@.take(it.index() + 1));
    }
    assert(s@.take(s@.len() as int) =~= s@);
    out
}

/// The string made of the characters of `chars` from `from` up to `to`.
pub fn collect(chars: &Vec<char>, from: usize, to: usize) -> (out: String)
    requires
        from <= to <= chars@.len(),
    ensures
        out@ == chars@.subrange(from as int, to as int),
{
    let mut out = String::new();
    let mut i: usize = from;
    while i < to
        invariant
            from <= i <= to <= chars@.len(),
            out@ == chars@.subrange(from as int, i as int),
        decreases to - i,
    {
        out.push(chars[i]);
        i = i + 1;
        assert(out@ =~= chars@.subrange(from as int, i as int));
    }
    out
}

/// Whether two strings hold the same characters.
pub fn same(a: &str, b: &str) -> (res: bool)
    ensures
        res == (a@ == b@),
{
    a.to_owned() == b.to_owned()
}

/// The number of bytes a string takes in UTF-8.
pub fn byte_len(s: &str) -> (n: usize)
    ensures
        n == vstd::utf8::encode_utf8(s@).len(),
{
    s.as_bytes().len()
}

/// Control characters are those of the Unicode category Cc.
pub open spec fn is_control_char(c: char) -> bool {
    c as u32 <= 0x1f || 0x7f <= c as u32 <= 0x9f
}

/// Whether a character is a control character.
pub fn is_control(c: char) -> (res: bool)
    ensures
        res == is_control_char(c),
{
    let u: u32 = c as u32;
    u <= 0x1f || (0x7f <= u && u <= 0x9f)
}

/// White space as Unicode's property of that name lists it.
pub open spec fn is_white_space(c: char) -> bool {
    let u = c as u32;
    ||| 0x09 <= u <= 0x0d
    ||| u == 0x20
    ||| u == 0x85
    ||| u == 0xa0
    ||| u == 0x1680
    ||| 0x2000 <= u <= 0x200a
    ||| u == 0x2028
    ||| u == 0x2029
    ||| u == 0x202f
    ||| u == 0x205f
    ||| u == 0x3000
}

/// Whether a character is white space.
pub fn is_whitespace(c: char) -> (res: bool)
    ensures
        res == is_white_space(c),
{
    let u: u32 = c as u32;
    (0x09 <= u && u <= 0x0d) || u == 0x20 || u == 0x85 || u == 0xa0 || u == 0x1680 || (0x2000 <= u
        && u <= 0x200a) || u == 0x2028 || u == 0x2029 || u == 0x202f || u == 0x205f || u == 0x3000
}

/// A blank text holds nothing but white space.
pub open spec fn blank(s: Seq<char>) -> bool {
    forall|i: int| 0 <= i < s.len() ==> is_white_space(#[trigger] s[i])
}

/// Whether a text is blank.
pub fn is_blank(s: &str) -> (res: bool)
    ensures
        res == blank(s@),
{
    for c in it: s.chars()
        invariant
            it.seq() == s@,
            forall|i: int| 0 <= i < it.index() ==> is_white_space(#[trigger] s@[i]),
    {
        if !is_whitespace(c) {
            assert(s@[it.index() as int] == c);
            return false;
        }
    }
    true
}

/// Whether a text holds a given character.
pub fn has_char(s: &str, wanted: char) -> (res: bool)
    ensures
        res == s@.contains(wanted),
{
    for c in it: s.chars()
        invariant
            it.seq() == s@,
            forall|i: int| 0 <= i < it.index() ==> #[trigger] s@[i] != wanted,
    {
        if c == wanted {
            assert(s@[it.index() as int] == wanted);
            return true;
        }
    }
    false
}

// ---------------------------------------------------------------------------
// Numbers

/// The character of a decimal digit.
pub open spec fn digit_char(d: nat) -> char {
    (48 + d) as char
}

/// A number in decimal, without leading zeros.
pub open spec fn decimal(n: nat) -> Seq<char>
    decreases n,
{
    if n < 10 {
        seq![digit_char(n)]
    } else {
        decimal(n / 10).push(digit_char(n % 10))
    }
}

fn digit(d: u64) -> (c: char)
    requires
        d < 10,
    ensures
        c == digit_char(d as nat),
{
    (48 + d as u8) as char
}

/// Append a number in decimal.
pub fn push_decimal(out: &mut String, n: u64)
    ensures
        final(out)@ == old(out)@ + decimal(n as nat),
    decreases n,
{
    if n >= 10 {
        push_decimal(out, n / 10);
    }
    out.push(digit(n % 10));
    assert(out@ =~= old(out)@ + decimal(n as nat));
}

/// A number in decimal.
pub fn decimal_of(n: u64) -> (out: String)
    ensures
        out@ == decimal(n as nat),
{
    let mut out = String::new();
    push_decimal(&mut out, n);
    assert(out@ =~= decimal(n as nat));
    out
}

/// The lower-case character of a hexadecimal digit.
pub open spec fn hex_char(d: nat) -> char {
    if d < 10 {
        (48 + d) as char
    } else {
        (87 + d) as char
    }
}

/// The last `width` hexadecimal digits of a number.
pub open spec fn hex(n: nat, width: nat) -> Seq<char>
    decreases width,
{
    if width == 0 {
        seq![]
    } else {
        hex(n / 16, (width - 1) as nat).push(hex_char(n % 16))
    }
}

fn push_hex(out: &mut String, n: u128, width: u8)
    ensures
        final(out)@ == old(out)@ + hex(n as nat, width as nat),
    decreases width,
{
    if width > 0 {
        push_hex(out, n / 16, width - 1);
        let d: u8 = (n % 16) as u8;
        let c: char = if d < 10 {
            (48 + d) as char
        } else {
            (87 + d) as char
        };
        out.push(c);
    }
    assert(out@ =~= old(out)@ + hex(n as nat, width as nat));
}

/// The last `width` hexadecimal digits of a number, in lower case.
pub fn hex_of(n: u128, width: u8) -> (out: String)
    ensures
        out@ == hex(n as nat, width as nat),
{
    let mut out = String::new();
    push_hex(&mut out, n, width);
    assert(out@ =~= hex(n as nat, width as nat));
    out
}

/// A sequence of hexadecimal digits is as long as it was asked to be.
pub proof fn hex_len(n: nat, width: nat)
    ensures
        hex(n, width).len() == width,
    decreases width,
{
    if width > 0 {
        hex_len(n / 16, (width - 1) as nat);
    }
}

/// Numbers that differ within the width differ in hexadecimal.
pub proof fn hex_injective(a: nat, b: nat, width: nat)
    requires
        hex(a, width) == hex(b, width),
        a < vstd::arithmetic::power::pow(16, width),
        b < vstd::arithmetic::power::pow(16, width),
    ensures
        a == b,
    decreases width,
{
    reveal(vstd::arithmetic::power::pow);
    if width > 0 {
        let w = (width - 1) as nat;
        let p = vstd::arithmetic::power::pow(16, w);
        let ha = hex(a / 16, w);
        let hb = hex(b / 16, w);
        assert(hex(a, width).drop_last() =~= ha);
        assert(hex(b, width).drop_last() =~= hb);
        assert(hex(a, width).last() == hex_char(a % 16));
        assert(hex(b, width).last() == hex_char(b % 16));
        assert(a % 16 == b % 16);
        assert(a / 16 < p && b / 16 < p) by (nonlinear_arith)
            requires
                a < 16 * p,
                b < 16 * p,
        ;
        hex_injective(a / 16, b / 16, w);
    }
}

pub open spec fn is_digit(c: char) -> bool {
    '0' <= c <= '9'
}

/// The number that a sequence of decimal digits writes.
pub open spec fn digits_value(s: Seq<char>) -> nat
    decreases s.len(),
{
    if s.len() == 0 {
        0
    } else {
        digits_value(s.drop_last()) * 10 + (s.last() as nat - 48) as nat
    }
}

/// A text with one leading plus sign taken off.
pub open spec fn without_plus(s: Seq<char>) -> Seq<char> {
    if s.len() > 0 && s[0] == '+' {
        s.drop_first()
    } else {
        s
    }
}

/// The number a text stands for: one or more decimal digits after an optional
/// plus sign, no larger than `max`.
pub open spec fn number(s: Seq<char>, max: nat) -> Option<nat> {
    let d = without_plus(s);
    if d.len() > 0 && (forall|i: int| 0 <= i < d.len() ==> is_digit(#[trigger] d[i])) && digits_value(
        d,
    ) <= max {
        Some(digits_value(d))
    } else {
        None
    }
}

proof fn digits_value_monotone(s: Seq<char>, k: int)
    requires
        0 <= k <= s.len(),
    ensures
        digits_value(s.take(k)) <= digits_value(s),
    decreases s.len(),
{
    if k == s.len() {
        assert(s.take(k) =~= s);
    } else {
        digits_value_monotone(s.drop_last(), k);
        assert(s.drop_last().take(k) =~= s.take(k));
    }
}

/// Read a number, as [`number`] says.
pub fn parse_number(s: &str, max: u64) -> (res: Option<u64>)
    ensures
        match res {
            Some(n) => number(s@, max as nat) == Some(n as nat),
            None => number(s@, max as nat) is None,
        },
{
    let chars = chars_of(s);
    let start: usize = if chars.len() > 0 && chars[0] == '+' {
        1
    } else {
        0
    };
    let ghost d = without_plus(s@);
    assert(d =~= s@.skip(start as int));
    if chars.len() == start {
        return None;
    }
    let mut value: u64 = 0;
    let mut i: usize = start;
    assert(d.take(0) =~= Seq::<char>::empty());
    while i < chars.len()
        invariant
            start <= i <= chars.len(),
            chars@ == s@,
            d == without_plus(s@),
            d == s@.skip(start as int),
            start < chars.len(),
            forall|j: int| 0 <= j < i - start ==> is_digit(#[trigger] d[j]),
            value == digits_value(d.take(i - start)),
            value <= max,
        decreases chars.len() - i,
    {
        let c = chars[i];
        assert(d[i - start] == c);
        if !('0' <= c && c <= '9') {
            return None;
        }
        let next: u128 = value as u128 * 10 + (c as u32 - 48) as u128;
        proof {
            let k = i - start;
            assert(d.take(k + 1).drop_last() =~= d.take(k));
            assert(next == digits_value(d.take(k + 1)));
            digits_value_monotone(d, k + 1);
        }
        if next > max as u128 {
            return None;
        }
        value = next as u64;
        i = i + 1;
    }
    assert(d.take(d.len() as int) =~= d);
    Some(value)
}

/// A number in decimal is made of digits, at least one, and stands for itself.
pub proof fn decimal_digits(n: nat)
    ensures
        decimal(n).len() > 0,
        forall|i: int| 0 <= i < decimal(n).len() ==> is_digit(#[trigger] decimal(n)[i]),
        digits_value(decimal(n)) == n,
    decreases n,
{
    if n < 10 {
        assert(decimal(n).drop_last() =~= Seq::<char>::empty());
        assert(digits_value(Seq::<char>::empty()) == 0);
        assert(decimal(n)[0] == digit_char(n));
    } else {
        decimal_digits(n / 10);
        assert(decimal(n).drop_last() =~= decimal(n / 10));
        assert(forall|i: int|
            0 <= i < decimal(n / 10).len() ==> decimal(n)[i] == #[trigger] decimal(n / 10)[i]);
    }
}

/// Reading back a number that was written in decimal gives the number.
pub proof fn decimal_reads_back(n: nat, max: nat)
    requires
        n <= max,
    ensures
        number(decimal(n), max) == Some(n),
{
    decimal_digits(n);
    assert(is_digit(decimal(n)[0]));
    assert(without_plus(decimal(n)) == decimal(n));
}

/// A text with spaces in front, `width` characters wide unless it is longer.
pub open spec fn padded(s: Seq<char>, width: nat) -> Seq<char> {
    if s.len() >= width {
        s
    } else {
        Seq::new((width - s.len()) as nat, |i: int| ' ') + s
    }
}

/// Put spaces in front of a text up to a width.
pub fn pad_left(s: &str, width: usize) -> (out: String)
    ensures
        out@ == padded(s@, width as nat),
{
    let n: usize = s.unicode_len();
    let mut out = String::new();
    let mut i: usize = n;
    while i < width
        invariant
            n == s@.len(),
            n <= i,
            i == n || i <= width,
            out@ == Seq::new((i - n) as nat, |k: int| ' '),
        decreases width - i,
    {
        out.push(' ');
        i = i + 1;
        assert(out@ =~= Seq::new((i - n) as nat, |k: int| ' '));
    }
    out.append(s);
    assert(out@ =~= padded(s@, width as nat));
    out
}

// ---------------------------------------------------------------------------
// Lines

/// A line without the carriage return that ends it, if one does.
pub open spec fn without_cr(line: Seq<char>) -> Seq<char> {
    if line.len() > 0 && line.last() == '\r' {
        line.drop_last()
    } else {
        line
    }
}

/// Where the first line feed of a text stands; its length where there is none.
pub open spec fn first_break(s: Seq<char>) -> nat
    decreases s.len(),
{
    if s.len() == 0 || s[0] == '\n' {
        0
    } else {
        1 + first_break(s.drop_first())
    }
}

/// The lines of a text: what stands before each line feed, without a carriage
/// return in front of it, and what stands after the last line feed, if anything
/// does.
pub open spec fn lines(s: Seq<char>) -> Seq<Seq<char>>
    decreases s.len(),
{
    let k = first_break(s) as int;
    if s.len() == 0 {
        seq![]
    } else if k >= s.len() {
        seq![s]
    } else {
        seq![without_cr(s.take(k))] + lines(s.skip(k + 1))
    }
}

proof fn first_break_of(head: Seq<char>, rest: Seq<char>)
    requires
        !head.contains('\n'),
    ensures
        first_break(head + rest) == head.len() + first_break(rest),
    decreases head.len(),
{
    if head.len() == 0 {
        assert(head + rest =~= rest);
    } else {
        assert(head[0] != '\n');
        assert((head + rest).drop_first() =~= head.drop_first() + rest);
        assert forall|i: int| 0 <= i < head.drop_first().len() implies head.drop_first()[i]
            != '\n' by {
            assert(head.drop_first()[i] == head[i + 1]);
        }
        first_break_of(head.drop_first(), rest);
    }
}

/// A line feed ends the line in front of it.
pub proof fn lines_step(head: Seq<char>, rest: Seq<char>)
    requires
        !head.contains('\n'),
    ensures
        lines(head + seq!['\n'] + rest) == seq![without_cr(head)] + lines(rest),
{
    let s = head + seq!['\n'] + rest;
    let tail = seq!['\n'] + rest;
    assert(s =~= head + tail);
    first_break_of(head, tail);
    assert(s.take(head.len() as int) =~= head);
    assert(s.skip(head.len() as int + 1) =~= rest);
}

/// A text without a line feed is one line, or none where it is empty.
pub proof fn lines_last(s: Seq<char>)
    requires
        !s.contains('\n'),
    ensures
        lines(s) == (if s.len() == 0 {
            seq![]
        } else {
            seq![s]
        }),
{
    first_break_of(s, seq![]);
    assert(s + Seq::<char>::empty() =~= s);
}

/// The texts that a sequence of strings holds.
pub open spec fn views(v: Seq<String>) -> Seq<Seq<char>> {
    Seq::new(v.len(), |i: int| v[i]@)
}

/// The lines of a text.
pub fn lines_of(s: &str) -> (out: Vec<String>)
    ensures
        views(out@) == lines(s@),
{
    let mut out: Vec<String> = Vec::new();
    let mut line: Vec<char> = Vec::new();
    assert(views(out@) + lines(line@ + s@) =~= lines(s@)) by {
        assert(line@ + s@ =~= s@);
    }
    assert(s@.skip(0) =~= s@);
    for c in it: s.chars()
        invariant
            it.seq() == s@,
            !line@.contains('\n'),
            views(out@) + lines(line@ + s@.skip(it.index() as int)) == lines(s@),
    {
        let ghost k = it.index() as int;
        let ghost rest = s@.skip(k + 1);
        let ghost before = views(out@);
        if c == '\n' {
            let n: usize = line.len();
            let keep: usize = if n > 0 && line[n - 1] == '\r' {
                n - 1
            } else {
                n
            };
            let done = collect(&line, 0, keep);
            proof {
                assert(line@ + s@.skip(k) =~= line@ + seq!['\n'] + rest);
                lines_step(line@, rest);
                assert(done@ =~= without_cr(line@));
            }
            out.push(done);
            line = Vec::new();
            proof {
                assert(views(out@) =~= before.push(done@));
                assert(line@ + rest =~= rest);
                assert(views(out@) + lines(rest) =~= lines(s@));
            }
        } else {
            proof {
                assert(line@ + s@.skip(k) =~= line@.push(c) + rest);
            }
            let ghost old_line = line@;
            line.push(c);
            assert forall|i: int| 0 <= i < line@.len() implies line@[i] != '\n' by {
                if i < old_line.len() {
                    assert(line@[i] == old_line[i]);
                    assert(old_line.contains(old_line[i]));
                }
            }
        }
    }
    proof {
        assert(line@ + s@.skip(s@.len() as int) =~= line@);
        lines_last(line@);
    }
    if line.len() > 0 {
        let ghost before = views(out@);
        let last = collect(&line, 0, line.len());
        assert(last@ =~= line@);
        out.push(last);
        assert(views(out@) =~= before.push(last@));
        assert(views(out@) =~= lines(s@));
    } else {
        assert(views(out@) =~= lines(s@));
    }
    out
}

} // verus!
