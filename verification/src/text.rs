//! Numbers and columns as text.

use vstd::prelude::*;
use vstd::string::*;

verus! {

/// `String::push` puts one character at the end of a string.
pub assume_specification[ String::push ](s: &mut String, c: char)
    ensures
        final(s)@ == old(s)@.push(c),
;

/// The digit that stands for a value below 16.
pub open spec fn digit_char(value: int) -> char {
    if value < 10 {
        (value + 0x30) as char
    } else {
        (value - 10 + 0x41) as char
    }
}

/// A number in a base, without leading zeros.
pub open spec fn digits(value: nat, base: nat) -> Seq<char>
    decreases value,
{
    if value < base || base < 2 {
        seq![digit_char(value as int)]
    } else {
        proof {
            assert(value / base < value) by (nonlinear_arith)
                requires
                    2 <= base <= value,
            ;
        }
        digits(value / base, base).push(digit_char((value % base) as int))
    }
}

/// `n` times the same character.
pub open spec fn filler(n: int, fill: char) -> Seq<char> {
    Seq::new(if n < 0 { 0 } else { n as nat }, |i: int| fill)
}

/// Text at the right end of a column.
pub open spec fn right_aligned(text: Seq<char>, width: int, fill: char) -> Seq<char> {
    filler(width - text.len(), fill) + text
}

/// Text at the left end of a column.
pub open spec fn left_aligned(text: Seq<char>, width: int) -> Seq<char> {
    text + filler(width - text.len(), ' ')
}

/// A number in hexadecimal, with leading zeros up to `width` digits.
pub open spec fn hex_text(value: nat, width: int) -> Seq<char> {
    right_aligned(digits(value, 16), width, '0')
}

/// A number in decimal.
pub open spec fn decimal_text(value: nat) -> Seq<char> {
    digits(value, 10)
}

fn digit(value: u64) -> (c: char)
    requires
        value < 16,
    ensures
        c == digit_char(value as int),
{
    if value < 10 {
        (value as u8 + 0x30) as char
    } else {
        (value as u8 - 10 + 0x41) as char
    }
}

fn digit_count(value: u64, base: u64) -> (n: usize)
    requires
        base == 10 || base == 16,
    ensures
        n == digits(value as nat, base as nat).len(),
        1 <= n <= 64,
{
    let mut rest: u64 = value;
    let mut n: usize = 1;
    proof {
        vstd::arithmetic::power2::lemma2_to64();
        vstd::arithmetic::power2::lemma_pow2_unfold(64);
    }
    while rest >= base
        invariant
            base == 10 || base == 16,
            1 <= n <= 64,
            rest < vstd::arithmetic::power2::pow2((65 - n) as nat),
            n + digits(rest as nat, base as nat).len() == 1 + digits(
                value as nat,
                base as nat,
            ).len(),
        decreases rest,
    {
        proof {
            vstd::arithmetic::power2::lemma_pow2_unfold((65 - n) as nat);
            vstd::arithmetic::power2::lemma2_to64();
        }
        rest = rest / base;
        n = n + 1;
    }
    n
}

fn push_digits(out: &mut String, value: u64, base: u64)
    requires
        base == 10 || base == 16,
    ensures
        final(out)@ == old(out)@ + digits(value as nat, base as nat),
    decreases value,
{
    if value >= base {
        push_digits(out, value / base, base);
    }
    out.push(digit(value % base));
    assert(out@ =~= old(out)@ + digits(value as nat, base as nat));
}

pub(crate) fn push_filler(out: &mut String, n: usize, fill: char)
    ensures
        final(out)@ == old(out)@ + filler(n as int, fill),
{
    let mut i: usize = 0;
    assert(out@ =~= old(out)@ + filler(0, fill));
    while i < n
        invariant
            i <= n,
            out@ == old(out)@ + filler(i as int, fill),
        decreases n - i,
    {
        out.push(fill);
        i = i + 1;
        assert(out@ =~= old(out)@ + filler(i as int, fill));
    }
}

/// Append a number in hexadecimal.
pub fn push_hex(out: &mut String, value: u64, width: usize)
    ensures
        final(out)@ == old(out)@ + hex_text(value as nat, width as int),
{
    let n: usize = digit_count(value, 16);
    if n < width {
        push_filler(out, width - n, '0');
    } else {
        assert(out@ =~= old(out)@ + filler(width - n, '0'));
    }
    push_digits(out, value, 16);
    assert(out@ =~= old(out)@ + hex_text(value as nat, width as int));
}

/// Append a number in decimal at the right end of a column.
pub fn push_decimal(out: &mut String, value: u64, width: usize, fill: char)
    ensures
        final(out)@ == old(out)@ + right_aligned(decimal_text(value as nat), width as int, fill),
{
    let n: usize = digit_count(value, 10);
    if n < width {
        push_filler(out, width - n, fill);
    } else {
        assert(out@ =~= old(out)@ + filler(width - n, fill));
    }
    push_digits(out, value, 10);
    assert(out@ =~= old(out)@ + right_aligned(decimal_text(value as nat), width as int, fill));
}

/// A number in hexadecimal, by itself.
pub fn hex_string(value: u64, width: usize) -> (text: String)
    ensures
        text@ == hex_text(value as nat, width as int),
{
    let mut out = String::new();
    push_hex(&mut out, value, width);
    assert(out@ =~= hex_text(value as nat, width as int));
    out
}

/// "true" or "false".
pub open spec fn bool_text(value: bool) -> Seq<char> {
    if value {
        "true"@
    } else {
        "false"@
    }
}

pub(crate) fn push_bool(out: &mut String, value: bool)
    ensures
        final(out)@ == old(out)@ + bool_text(value),
{
    if value {
        out.append("true");
    } else {
        out.append("false");
    }
}

/// White space, as Unicode has it.
pub open spec fn is_space(c: char) -> bool {
    let n = c as u32;
    ||| 0x09 <= n <= 0x0D
    ||| n == 0x20
    ||| n == 0x85
    ||| n == 0xA0
    ||| n == 0x1680
    ||| 0x2000 <= n <= 0x200A
    ||| n == 0x2028
    ||| n == 0x2029
    ||| n == 0x202F
    ||| n == 0x205F
    ||| n == 0x3000
}

/// Text without the white space in front of it.
pub open spec fn front_trimmed(text: Seq<char>) -> Seq<char>
    decreases text.len(),
{
    if text.len() > 0 && is_space(text[0]) {
        front_trimmed(text.subrange(1, text.len() as int))
    } else {
        text
    }
}

/// Text without the white space behind it.
pub open spec fn back_trimmed(text: Seq<char>) -> Seq<char>
    decreases text.len(),
{
    if text.len() > 0 && is_space(text.last()) {
        back_trimmed(text.drop_last())
    } else {
        text
    }
}

/// Text without the white space around it.
pub open spec fn trimmed(text: Seq<char>) -> Seq<char> {
    back_trimmed(front_trimmed(text))
}

/// An ASCII letter in lower case; other characters as they are.
pub open spec fn lower_char(c: char) -> char {
    if 'A' <= c <= 'Z' {
        (c as u32 + 32) as char
    } else {
        c
    }
}

/// An ASCII letter in upper case; other characters as they are.
pub open spec fn upper_char(c: char) -> char {
    if 'a' <= c <= 'z' {
        (c as u32 - 32) as char
    } else {
        c
    }
}

pub open spec fn lower(text: Seq<char>) -> Seq<char> {
    Seq::new(text.len(), |i: int| lower_char(text[i]))
}

pub open spec fn upper(text: Seq<char>) -> Seq<char> {
    Seq::new(text.len(), |i: int| upper_char(text[i]))
}

pub(crate) fn space(c: char) -> (yes: bool)
    ensures
        yes == is_space(c),
{
    let n: u32 = c as u32;
    (0x09 <= n && n <= 0x0D) || n == 0x20 || n == 0x85 || n == 0xA0 || n == 0x1680 || (0x2000 <= n
        && n <= 0x200A) || n == 0x2028 || n == 0x2029 || n == 0x202F || n == 0x205F || n == 0x3000
}

pub(crate) fn lower_of(c: char) -> (l: char)
    ensures
        l == lower_char(c),
{
    if 'A' <= c && c <= 'Z' {
        (c as u8 + 32) as char
    } else {
        c
    }
}

pub(crate) fn upper_of(c: char) -> (u: char)
    ensures
        u == upper_char(c),
{
    if 'a' <= c && c <= 'z' {
        (c as u8 - 32) as char
    } else {
        c
    }
}

/// The characters of a text.
pub(crate) fn chars_of(text: &str) -> (chars: Vec<char>)
    ensures
        chars@ == text@,
{
    let n: usize = text.unicode_len();
    let mut chars: Vec<char> = Vec::new();
    let mut i: usize = 0;
    while i < n
        invariant
            i <= n,
            n == text@.len(),
            chars@ == text@.take(i as int),
        decreases n - i,
    {
        chars.push(text.get_char(i));
        i = i + 1;
        assert(chars@ =~= text@.take(i as int));
    }
    assert(text@.take(n as int) =~= text@);
    chars
}

/// The text from `from` up to `to`.
pub(crate) fn text_between(chars: &Vec<char>, from: usize, to: usize) -> (text: String)
    requires
        from <= to <= chars@.len(),
    ensures
        text@ == chars@.subrange(from as int, to as int),
{
    let mut text = String::new();
    let mut i: usize = from;
    assert(text@ =~= chars@.subrange(from as int, from as int));
    while i < to
        invariant
            from <= i <= to <= chars@.len(),
            text@ == chars@.subrange(from as int, i as int),
        decreases to - i,
    {
        text.push(chars[i]);
        i = i + 1;
        assert(text@ =~= chars@.subrange(from as int, i as int));
    }
    text
}

/// Where the text between the white space around it begins and ends.
pub(crate) fn trim_bounds(chars: &Vec<char>) -> (bounds: (usize, usize))
    ensures
        bounds.0 <= bounds.1 <= chars@.len(),
        chars@.subrange(bounds.0 as int, bounds.1 as int) == trimmed(chars@),
{
    let mut from: usize = 0;
    assert(chars@.subrange(0, chars@.len() as int) =~= chars@);
    while from < chars.len() && space(chars[from])
        invariant
            from <= chars@.len(),
            front_trimmed(chars@.subrange(from as int, chars@.len() as int)) == front_trimmed(
                chars@,
            ),
        decreases chars.len() - from,
    {
        proof {
            let rest = chars@.subrange(from as int, chars@.len() as int);
            assert(rest.subrange(1, rest.len() as int) =~= chars@.subrange(
                from + 1,
                chars@.len() as int,
            ));
        }
        from = from + 1;
    }
    let mut to: usize = chars.len();
    let ghost front = chars@.subrange(from as int, chars@.len() as int);
    assert(front == front_trimmed(chars@));
    while to > from && space(chars[to - 1])
        invariant
            from <= to <= chars@.len(),
            front == front_trimmed(chars@),
            back_trimmed(chars@.subrange(from as int, to as int)) == back_trimmed(front),
        decreases to,
    {
        proof {
            let rest = chars@.subrange(from as int, to as int);
            assert(rest.drop_last() =~= chars@.subrange(from as int, to - 1));
        }
        to = to - 1;
    }
    (from, to)
}

/// Text without the white space around it.
pub fn trim(text: &str) -> (out: String)
    ensures
        out@ == trimmed(text@),
{
    let chars = chars_of(text);
    let (from, to): (usize, usize) = trim_bounds(&chars);
    text_between(&chars, from, to)
}

/// Text with its ASCII letters in lower case.
pub fn lowercase(text: &str) -> (out: String)
    ensures
        out@ == lower(text@),
{
    let chars = chars_of(text);
    let mut out = String::new();
    let mut i: usize = 0;
    assert(out@ =~= lower(text@).take(0));
    while i < chars.len()
        invariant
            i <= chars@.len(),
            chars@ == text@,
            out@ == lower(text@).take(i as int),
        decreases chars.len() - i,
    {
        out.push(lower_of(chars[i]));
        i = i + 1;
        assert(out@ =~= lower(text@).take(i as int));
    }
    assert(lower(text@).take(i as int) =~= lower(text@));
    out
}

/// Text with its ASCII letters in upper case.
pub fn uppercase(text: &str) -> (out: String)
    ensures
        out@ == upper(text@),
{
    let chars = chars_of(text);
    let mut out = String::new();
    let mut i: usize = 0;
    assert(out@ =~= upper(text@).take(0));
    while i < chars.len()
        invariant
            i <= chars@.len(),
            chars@ == text@,
            out@ == upper(text@).take(i as int),
        decreases chars.len() - i,
    {
        out.push(upper_of(chars[i]));
        i = i + 1;
        assert(out@ =~= upper(text@).take(i as int));
    }
    assert(upper(text@).take(i as int) =~= upper(text@));
    out
}

/// Whether two texts are the same.
pub fn same(a: &str, b: &str) -> (yes: bool)
    ensures
        yes == (a@ == b@),
{
    let x = chars_of(a);
    let y = chars_of(b);
    if x.len() != y.len() {
        return false;
    }
    let mut i: usize = 0;
    while i < x.len()
        invariant
            i <= x@.len(),
            x@ == a@,
            y@ == b@,
            x@.len() == y@.len(),
            forall|k: int| 0 <= k < i ==> x@[k] == y@[k],
        decreases x.len() - i,
    {
        if x[i] != y[i] {
            return false;
        }
        i = i + 1;
    }
    assert(a@ =~= b@);
    true
}

/// Whether two texts are the same but for the case of ASCII letters.
pub fn same_but_case(a: &str, b: &str) -> (yes: bool)
    ensures
        yes == (lower(a@) == lower(b@)),
{
    let x = lowercase(a);
    let y = lowercase(b);
    same(x.as_str(), y.as_str())
}

/// Where a character stands last in a text.
pub open spec fn last_place(text: Seq<char>, c: char) -> Option<int>
    decreases text.len(),
{
    if text.len() == 0 {
        None
    } else if text.last() == c {
        Some(text.len() - 1)
    } else {
        last_place(text.drop_last(), c)
    }
}

pub(crate) fn last_of(chars: &Vec<char>, from: usize, c: char) -> (place: Option<usize>)
    requires
        from <= chars@.len(),
    ensures
        match (place, last_place(chars@.subrange(from as int, chars@.len() as int), c)) {
            (Some(p), Some(i)) => p == from + i && p < chars@.len(),
            (None, None) => true,
            _ => false,
        },
{
    let mut n: usize = chars.len();
    let ghost all = chars@.subrange(from as int, chars@.len() as int);
    assert(all.take(all.len() as int) =~= all);
    while n > from
        invariant
            from <= n <= chars@.len(),
            all == chars@.subrange(from as int, chars@.len() as int),
            last_place(all.take(n - from), c) == last_place(all, c),
        decreases n,
    {
        assert(all.take(n - from).drop_last() =~= all.take(n - from - 1));
        assert(all.take(n - from).last() == chars@[n - 1]);
        if chars[n - 1] == c {
            return Some(n - 1);
        }
        n = n - 1;
    }
    None
}

/// Where a character stands first in a text.
pub open spec fn first_place(text: Seq<char>, c: char) -> Option<int>
    decreases text.len(),
{
    if text.len() == 0 {
        None
    } else {
        match first_place(text.drop_last(), c) {
            Some(i) => Some(i),
            None => if text.last() == c {
                Some(text.len() - 1)
            } else {
                None
            },
        }
    }
}

pub(crate) fn first_of(chars: &Vec<char>, c: char) -> (place: Option<usize>)
    ensures
        match (place, first_place(chars@, c)) {
            (Some(p), Some(i)) => p == i && p < chars@.len(),
            (None, None) => true,
            _ => false,
        },
{
    let mut i: usize = 0;
    let mut found: Option<usize> = None;
    while i < chars.len()
        invariant
            i <= chars@.len(),
            match (found, first_place(chars@.take(i as int), c)) {
                (Some(p), Some(at)) => p == at && p < i,
                (None, None) => true,
                _ => false,
            },
        decreases chars.len() - i,
    {
        assert(chars@.take(i + 1).drop_last() =~= chars@.take(i as int));
        if found.is_none() && chars[i] == c {
            found = Some(i);
        }
        i = i + 1;
    }
    assert(chars@.take(i as int) =~= chars@);
    found
}

/// A text with one character in place of another.
pub open spec fn replaced(text: Seq<char>, a: char, b: char) -> Seq<char> {
    Seq::new(
        text.len(),
        |i: int|
            if text[i] == a {
                b
            } else {
                text[i]
            },
    )
}

pub(crate) fn replace_char(chars: &Vec<char>, a: char, b: char) -> (out: Vec<char>)
    ensures
        out@ == replaced(chars@, a, b),
{
    let mut out: Vec<char> = Vec::new();
    let mut i: usize = 0;
    while i < chars.len()
        invariant
            i <= chars@.len(),
            out@.len() == i,
            forall|j: int| 0 <= j < i ==> out@[j] == replaced(chars@, a, b)[j],
        decreases chars.len() - i,
    {
        if chars[i] == a {
            out.push(b);
        } else {
            out.push(chars[i]);
        }
        i = i + 1;
    }
    assert(out@ =~= replaced(chars@, a, b));
    out
}

/// The parts of a text between the separators in it, the empty ones too.
pub open spec fn split(text: Seq<char>, sep: char) -> Seq<Seq<char>>
    decreases text.len(),
{
    if text.len() == 0 {
        seq![Seq::empty()]
    } else {
        let before = split(text.drop_last(), sep);
        if text.last() == sep {
            before.push(Seq::empty())
        } else {
            before.drop_last().push(before.last().push(text.last()))
        }
    }
}

/// What some strings read.
pub open spec fn texts(strings: Seq<String>) -> Seq<Seq<char>> {
    Seq::new(strings.len(), |i: int| strings[i]@)
}

/// Texts one after the other, with a separator between each two.
pub open spec fn joined(parts: Seq<Seq<char>>, sep: char) -> Seq<char>
    decreases parts.len(),
{
    if parts.len() == 0 {
        Seq::empty()
    } else if parts.len() == 1 {
        parts[0]
    } else {
        joined(parts.drop_last(), sep).push(sep) + parts.last()
    }
}

pub(crate) fn split_text(chars: &Vec<char>, sep: char) -> (parts: Vec<String>)
    ensures
        texts(parts@) == split(chars@, sep),
        parts@.len() > 0,
{
    let mut parts: Vec<String> = Vec::new();
    let mut part = String::new();
    let mut i: usize = 0;
    assert(texts(parts@).push(part@) =~= split(chars@.take(0), sep));
    while i < chars.len()
        invariant
            i <= chars@.len(),
            texts(parts@).push(part@) == split(chars@.take(i as int), sep),
        decreases chars.len() - i,
    {
        let ghost done = texts(parts@).push(part@);
        assert(chars@.take(i + 1).drop_last() =~= chars@.take(i as int));
        assert(done.drop_last() =~= texts(parts@));
        if chars[i] == sep {
            let ghost before = parts@;
            let ghost last = part;
            parts.push(part);
            part = String::new();
            assert(parts@ == before.push(last));
            assert(texts(parts@) =~= texts(before).push(last@));
        } else {
            part.push(chars[i]);
        }
        i = i + 1;
    }
    assert(chars@.take(i as int) =~= chars@);
    let ghost before = parts@;
    let ghost last = part;
    parts.push(part);
    assert(texts(parts@) =~= texts(before).push(last@));
    parts
}

pub(crate) fn join_text(parts: &Vec<String>, sep: char) -> (out: String)
    ensures
        out@ == joined(texts(parts@), sep),
{
    let mut out = String::new();
    let mut i: usize = 0;
    assert(out@ =~= joined(texts(parts@).take(0), sep));
    while i < parts.len()
        invariant
            i <= parts@.len(),
            out@ == joined(texts(parts@).take(i as int), sep),
        decreases parts.len() - i,
    {
        let ghost all = texts(parts@);
        assert(all.take(i + 1).drop_last() =~= all.take(i as int));
        if i > 0 {
            out.push(sep);
        }
        out.append(parts[i].as_str());
        i = i + 1;
        assert(out@ =~= joined(all.take(i as int), sep));
    }
    assert(texts(parts@).take(i as int) =~= texts(parts@));
    out
}

/// A number has at least one digit.
pub(crate) proof fn lemma_digit_count(n: nat, base: nat)
    ensures
        digits(n, base).len() >= 1,
    decreases n,
{
}

/// Add a text at the left end of a column.
pub(crate) fn push_left(out: &mut String, text: &str, width: usize)
    ensures
        final(out)@ == old(out)@ + left_aligned(text@, width as int),
{
    let n: usize = text.unicode_len();
    out.append(text);
    if n < width {
        push_filler(out, width - n, ' ');
    }
    assert(out@ =~= old(out)@ + left_aligned(text@, width as int));
}

pub(crate) proof fn lemma_byte_text(b: u8)
    ensures
        hex_text(b as nat, 2) == seq![digit_char((b / 16) as int), digit_char((b % 16) as int)],
{
    reveal_with_fuel(digits, 3);
    assert(hex_text(b as nat, 2) =~= seq![
        digit_char((b / 16) as int),
        digit_char((b % 16) as int),
    ]);
}

/// What a digit stands for, in bases up to 16.
pub open spec fn digit_value(c: char) -> int {
    if c <= '9' {
        c as int - 0x30
    } else {
        c as int - 0x41 + 10
    }
}

/// The number that digits stand for.
pub open spec fn number_of_digits(s: Seq<char>, base: int) -> int
    decreases s.len(),
{
    if s.len() == 0 {
        0
    } else {
        number_of_digits(s.drop_last(), base) * base + digit_value(s.last())
    }
}

/// The digits of a number stand for it, none of them is above the base, and
/// the first one is not zero unless the number is.
pub proof fn law_digits_stand_for_their_number(value: nat, base: nat)
    requires
        2 <= base <= 16,
    ensures
        number_of_digits(digits(value, base), base as int) == value,
        digits(value, base).len() >= 1,
        value > 0 ==> digits(value, base)[0] != '0',
        forall|i: int|
            0 <= i < digits(value, base).len() ==> 0 <= digit_value(
                #[trigger] digits(value, base)[i],
            ) < base,
    decreases value,
{
    let s = digits(value, base);
    if value < base {
        assert(s.drop_last() =~= Seq::empty());
        assert(number_of_digits(s.drop_last(), base as int) == 0);
        assert(0 * base == 0);
    } else {
        let front = (value / base) as nat;
        vstd::arithmetic::div_mod::lemma_fundamental_div_mod(value as int, base as int);
        assert(front < value && front > 0) by (nonlinear_arith)
            requires
                front == value / base,
                2 <= base <= value,
        ;
        law_digits_stand_for_their_number(front, base);
        assert(s.drop_last() =~= digits(front, base));
        assert(front * base == base * front) by (nonlinear_arith);
    }
}

} // verus!
