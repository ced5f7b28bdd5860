//! Decimal text: rendering numbers into strings and reading them from bytes.

use vstd::prelude::*;
use vstd::slice::slice_subrange;

verus! {

/// `String::push` appends one character at the end and leaves the rest as it was.
pub assume_specification[ String::push ](s: &mut String, ch: char)
    ensures
        final(s)@ == old(s)@.push(ch),
;

/// `String::push_str` appends the whole slice at the end and leaves the rest as it was.
pub assume_specification[ String::push_str ](s: &mut String, string: &str)
    ensures
        final(s)@ == old(s)@ + string@,
;

/// The character that shows the decimal digit `d`.
pub open spec fn digit_char(d: nat) -> char
    recommends
        d < 10,
{
    ((48 + d) as u8) as char
}

/// The decimal digits of `n`, most significant first, padded on the left with
/// zeros up to `width` characters. A number that needs more than `width`
/// digits keeps all of them. The last character shows `n % 10`; before it
/// stands `n / 10`, padded to one character less.
pub open spec fn padded_digits(n: nat, width: nat) -> Seq<char>
    decreases n, width,
{
    if n < 10 && width <= 1 {
        seq![digit_char(n)]
    } else {
        padded_digits(n / 10, if width > 0 { (width - 1) as nat } else { 0 }).push(digit_char(n % 10))
    }
}

/// The decimal digits of `n` with no padding.
pub open spec fn decimal_digits(n: nat) -> Seq<char> {
    padded_digits(n, 1)
}

/// Ten to the power `k`.
pub open spec fn pow10(k: nat) -> nat
    decreases k,
{
    if k == 0 { 1 } else { 10 * pow10((k - 1) as nat) }
}

/// A number below `10^width` renders to exactly `width` characters.
pub proof fn lemma_padded_width(n: nat, width: nat)
    requires
        width >= 1,
        n < pow10(width),
    ensures
        padded_digits(n, width).len() == width,
    decreases n, width,
{
    reveal_with_fuel(pow10, 2);
    if n < 10 && width <= 1 {
    } else {
        if width == 1 {
            assert(pow10(1) == 10);
        } else {
            lemma_padded_width(n / 10, (width - 1) as nat);
        }
    }
}

/// A run of `count` zeros.
pub open spec fn zeros(count: nat) -> Seq<char> {
    Seq::new(count, |i: int| '0')
}

/// The digits of a number of two or more digits: those of its tenth, then
/// its last.
pub proof fn lemma_decimal_unfold(n: nat)
    ensures
        n < 10 ==> decimal_digits(n) == seq![digit_char(n)],
        n >= 10 ==> decimal_digits(n) == decimal_digits(n / 10).push(digit_char(n % 10)),
{
    reveal_with_fuel(padded_digits, 2);
}

/// Padding only puts zeros in front: a number padded to `width` is its plain
/// digits where they are `width` or more, and else as many zeros before them
/// as are missing.
pub proof fn lemma_padding(n: nat, width: nat)
    ensures
        padded_digits(n, width) == if width <= decimal_digits(n).len() {
            decimal_digits(n)
        } else {
            zeros((width - decimal_digits(n).len()) as nat) + decimal_digits(n)
        },
    decreases n, width,
{
    lemma_decimal_unfold(n);
    if n < 10 && width <= 1 {
    } else {
        let rest: nat = if width > 0 { (width - 1) as nat } else { 0 };
        lemma_padding(n / 10, rest);
        lemma_decimal_unfold(n / 10);
        let last = digit_char(n % 10);
        if n >= 10 {
            let plain = decimal_digits(n / 10);
            if rest > plain.len() {
                assert((zeros((rest - plain.len()) as nat) + plain).push(last) =~= zeros(
                    (width - (plain.len() + 1)) as nat,
                ) + plain.push(last));
            }
        } else {
            assert(decimal_digits(0) == seq!['0']);
            if rest <= 1 {
                assert(seq!['0'].push(last) =~= zeros(1) + seq![last]);
            } else {
                assert((zeros((rest - 1) as nat) + seq!['0']).push(last) =~= zeros(
                    (width - 1) as nat,
                ) + seq![last]);
            }
        }
    }
}

/// How many decimal digits `n` has.
pub fn decimal_len(n: u64) -> (len: u64)
    ensures
        len == decimal_digits(n as nat).len(),
        len >= 1,
{
    let mut len: u64 = 1;
    let mut rest: u64 = n;
    while rest >= 10
        invariant
            len >= 1,
            len + rest <= n + 1,
            decimal_digits(n as nat).len() == (len - 1) + decimal_digits(rest as nat).len(),
        decreases rest,
    {
        proof {
            lemma_decimal_unfold(rest as nat);
        }
        rest = rest / 10;
        len = len + 1;
    }
    proof {
        lemma_decimal_unfold(rest as nat);
    }
    len
}

/// Appends `n` in decimal, with no padding, to `out`.
pub fn push_decimal(out: &mut String, n: u64)
    ensures
        final(out)@ == old(out)@ + decimal_digits(n as nat),
    decreases n,
{
    proof {
        lemma_decimal_unfold(n as nat);
    }
    if n >= 10 {
        push_decimal(out, n / 10);
    }
    let d: u8 = (n % 10) as u8;
    out.push((48u8 + d) as char);
    assert(out@ =~= old(out)@ + decimal_digits(n as nat));
}

/// Appends `n` in decimal, zero-padded to `width` characters, to `out`.
pub fn push_padded(out: &mut String, n: u64, width: usize)
    ensures
        final(out)@ == old(out)@ + padded_digits(n as nat, width as nat),
{
    let len: u64 = decimal_len(n);
    let mut i: u64 = len;
    while i < width as u64
        invariant
            len <= i,
            i <= width || i == len,
            out@ == old(out)@ + zeros((i - len) as nat),
        decreases width - i,
    {
        out.push('0');
        assert(out@ =~= old(out)@ + zeros((i + 1 - len) as nat));
        i = i + 1;
    }
    assert(out@ =~= old(out)@ + zeros((i - len) as nat));
    push_decimal(out, n);
    proof {
        lemma_padding(n as nat, width as nat);
        if width <= len {
            assert(zeros(0) =~= Seq::<char>::empty());
            assert(out@ =~= old(out)@ + decimal_digits(n as nat));
        } else {
            assert(out@ =~= old(out)@ + (zeros((width - len) as nat) + decimal_digits(n as nat)));
        }
    }
}

/// Whether `b` is an ASCII whitespace byte: a space, or one of tab, line feed,
/// vertical tab, form feed and carriage return.
pub open spec fn is_space(b: u8) -> bool {
    b == 32 || (9 <= b && b <= 13)
}

/// Whether `b` is an ASCII decimal digit.
pub open spec fn is_digit(b: u8) -> bool {
    48 <= b && b <= 57
}

/// `s` without the whitespace at its start.
pub open spec fn skip_spaces(s: Seq<u8>) -> Seq<u8>
    decreases s.len(),
{
    if s.len() > 0 && is_space(s[0]) {
        skip_spaces(s.drop_first())
    } else {
        s
    }
}

/// `s` without the whitespace at its end.
pub open spec fn drop_trailing_spaces(s: Seq<u8>) -> Seq<u8>
    decreases s.len(),
{
    if s.len() > 0 && is_space(s.last()) {
        drop_trailing_spaces(s.drop_last())
    } else {
        s
    }
}

/// `s` without the whitespace at either end.
pub open spec fn trimmed(s: Seq<u8>) -> Seq<u8> {
    drop_trailing_spaces(skip_spaces(s))
}

/// Whether every byte of `s` is a decimal digit.
pub open spec fn all_digits(s: Seq<u8>) -> bool {
    forall|i: int| 0 <= i < s.len() ==> is_digit(#[trigger] s[i])
}

/// The number that the digits of `s` write in base ten.
pub open spec fn decimal_value(s: Seq<u8>) -> int
    decreases s.len(),
{
    if s.len() == 0 {
        0
    } else {
        10 * decimal_value(s.drop_last()) + (s.last() - 48)
    }
}

/// What a line of input stands for: the number written by its digits, where
/// the line, with the whitespace round it taken off, is one or more decimal
/// digits that write a number below `bound`. Leading zeros are allowed; a
/// sign, an empty token or any other byte is not.
pub open spec fn parsed_value(line: Seq<u8>, bound: u32) -> Option<u32> {
    let token = trimmed(line);
    if token.len() > 0 && all_digits(token) && decimal_value(token) < bound {
        Some(decimal_value(token) as u32)
    } else {
        None
    }
}

/// A run of digits writes a number that is at least the number written by
/// any of its prefixes.
pub proof fn lemma_prefix_value(s: Seq<u8>, k: int)
    requires
        all_digits(s),
        0 <= k <= s.len(),
    ensures
        0 <= decimal_value(s.take(k)) <= decimal_value(s),
    decreases s.len(),
{
    if s.len() == 0 {
        assert(s.take(k) =~= s);
    } else if k == s.len() {
        assert(s.take(k) =~= s);
        lemma_prefix_value(s.drop_last(), s.len() - 1);
        assert(s.drop_last().take(s.len() - 1) =~= s.drop_last());
        assert(is_digit(s[s.len() - 1]));
    } else {
        lemma_prefix_value(s.drop_last(), k);
        assert(s.drop_last().take(k) =~= s.take(k));
        lemma_prefix_value(s.drop_last(), s.len() - 1);
        assert(s.drop_last().take(s.len() - 1) =~= s.drop_last());
        assert(is_digit(s[s.len() - 1]));
    }
}

fn byte_is_space(b: u8) -> (res: bool)
    ensures
        res == is_space(b),
{
    b == 32 || (9 <= b && b <= 13)
}

/// Reads one line as a number below `bound`.
pub fn parse_value(line: &[u8], bound: u32) -> (res: Option<u32>)
    ensures
        res == parsed_value(line@, bound),
{
    let len: usize = line.len();
    let mut start: usize = 0;
    assert(line@.subrange(0, len as int) =~= line@);
    while start < len && byte_is_space(line[start])
        invariant
            start <= len,
            len == line@.len(),
            skip_spaces(line@) == skip_spaces(line@.subrange(start as int, len as int)),
        decreases len - start,
    {
        proof {
            assert(line@.subrange(start as int, len as int).drop_first() =~= line@.subrange(
                start + 1,
                len as int,
            ));
        }
        start += 1;
    }
    let mut end: usize = len;
    while end > start && byte_is_space(line[end - 1])
        invariant
            start <= end <= len,
            len == line@.len(),
            trimmed(line@) == drop_trailing_spaces(line@.subrange(start as int, end as int)),
        decreases end - start,
    {
        proof {
            assert(line@.subrange(start as int, end as int).drop_last() =~= line@.subrange(
                start as int,
                end - 1,
            ));
        }
        end -= 1;
    }
    let ghost token = line@.subrange(start as int, end as int);
    assert(trimmed(line@) == token);
    if start == end {
        return None;
    }
    let mut acc: u64 = 0;
    let mut i: usize = start;
    while i < end
        invariant
            start <= i <= end <= len,
            len == line@.len(),
            token == line@.subrange(start as int, end as int),
            trimmed(line@) == token,
            all_digits(token.take(i - start)),
            acc == decimal_value(token.take(i - start)),
            acc < bound || (i == start && acc == 0),
        decreases end - i,
    {
        let b: u8 = line[i];
        if b < 48 || b > 57 {
            assert(!is_digit(token[i - start]));
            return None;
        }
        let next: u64 = acc * 10 + (b - 48) as u64;
        proof {
            assert(token.take(i - start + 1).drop_last() =~= token.take(i - start));
            assert(token.take(i - start + 1).last() == b);
            assert forall|j: int| 0 <= j < i - start + 1 implies is_digit(
                #[trigger] token.take(i - start + 1)[j],
            ) by {
                if j < i - start {
                    assert(token.take(i - start + 1)[j] == token.take(i - start)[j]);
                }
            }
        }
        if next >= bound as u64 {
            proof {
                if all_digits(token) {
                    lemma_prefix_value(token, i - start + 1);
                }
            }
            return None;
        }
        acc = next;
        i += 1;
    }
    proof {
        assert(token.take(end - start) =~= token);
    }
    Some(acc as u32)
}

/// The length of the first line of `input`, its line feed included: one past
/// the first line feed, or all of `input` where it holds none.
pub open spec fn line_end(input: Seq<u8>) -> nat
    decreases input.len(),
{
    if input.len() == 0 {
        0
    } else if input[0] == 10 {
        1
    } else {
        1 + line_end(input.drop_first())
    }
}

/// The values that a stream of lines submits: the value of each line in
/// order, up to the end of the stream or to the first line that is no value
/// below `bound`, at which reading stops for good.
pub open spec fn submitted(input: Seq<u8>, bound: u32) -> Seq<u32>
    decreases input.len(),
    via submitted_terminates
{
    if input.len() == 0 {
        Seq::empty()
    } else {
        let n = line_end(input) as int;
        match parsed_value(input.take(n), bound) {
            Some(value) => seq![value] + submitted(input.skip(n), bound),
            None => Seq::empty(),
        }
    }
}

#[via_fn]
proof fn submitted_terminates(input: Seq<u8>, bound: u32) {
    lemma_line_end_bounds(input);
}

/// The first line of a stream that is not empty holds at least one byte and
/// no more than the stream.
pub proof fn lemma_line_end_bounds(input: Seq<u8>)
    ensures
        line_end(input) <= input.len(),
        input.len() > 0 ==> line_end(input) >= 1,
    decreases input.len(),
{
    if input.len() > 0 && input[0] != 10 {
        lemma_line_end_bounds(input.drop_first());
    }
}

/// Where the line that starts at `pos` ends: one past its line feed, or the
/// end of `input`.
pub fn next_line_end(input: &[u8], pos: usize) -> (end: usize)
    requires
        pos < input@.len(),
    ensures
        end == pos + line_end(input@.skip(pos as int)),
        pos < end <= input@.len(),
{
    let len: usize = input.len();
    let mut end: usize = pos;
    let ghost rest = input@.skip(pos as int);
    while end < len && input[end] != 10
        invariant
            pos <= end <= len,
            len == input@.len(),
            rest == input@.skip(pos as int),
            line_end(rest) == (end - pos) + line_end(input@.skip(end as int)),
        decreases len - end,
    {
        proof {
            assert(input@.skip(end as int).drop_first() =~= input@.skip(end + 1));
            assert(input@.skip(end as int)[0] == input@[end as int]);
        }
        end += 1;
    }
    proof {
        lemma_line_end_bounds(rest);
        if end < len {
            assert(input@.skip(end as int)[0] == input@[end as int]);
        }
    }
    if end < len {
        end + 1
    } else {
        end
    }
}

/// Reads a whole stream: the values of its lines, up to the first line that
/// is no value below `bound`.
pub fn read_values(input: &[u8], bound: u32) -> (values: Vec<u32>)
    ensures
        values@ == submitted(input@, bound),
{
    let len: usize = input.len();
    let mut values: Vec<u32> = Vec::new();
    let mut pos: usize = 0;
    assert(input@.skip(0) =~= input@);
    while pos < len
        invariant
            pos <= len,
            len == input@.len(),
            submitted(input@, bound) == values@ + submitted(input@.skip(pos as int), bound),
        decreases len - pos,
    {
        let end: usize = next_line_end(input, pos);
        let line: &[u8] = slice_subrange(input, pos, end);
        proof {
            let rest = input@.skip(pos as int);
            assert(rest.take(end - pos) =~= line@);
            assert(rest.skip(end - pos) =~= input@.skip(end as int));
        }
        match parse_value(line, bound) {
            Some(value) => {
                proof {
                    let tail = submitted(input@.skip(end as int), bound);
                    assert(values@ + (seq![value] + tail) =~= values@.push(value) + tail);
                }
                values.push(value);
            },
            None => {
                assert(values@ + Seq::<u32>::empty() =~= values@);
                return values;
            },
        }
        pos = end;
    }
    assert(values@ + Seq::<u32>::empty() =~= values@);
    values
}

} // verus!
