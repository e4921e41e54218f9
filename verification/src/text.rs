//! Numbers written out as text, in bases two to sixteen.

use vstd::prelude::*;
use vstd::string::*;
use crate::bytes::u32_to_u8;

verus! {

/// The character that stands for the digit `d`, lower case above nine.
pub open spec fn digit_char(d: int) -> char {
    if d == 0 {
        '0'
    } else if d == 1 {
        '1'
    } else if d == 2 {
        '2'
    } else if d == 3 {
        '3'
    } else if d == 4 {
        '4'
    } else if d == 5 {
        '5'
    } else if d == 6 {
        '6'
    } else if d == 7 {
        '7'
    } else if d == 8 {
        '8'
    } else if d == 9 {
        '9'
    } else if d == 10 {
        'a'
    } else if d == 11 {
        'b'
    } else if d == 12 {
        'c'
    } else if d == 13 {
        'd'
    } else if d == 14 {
        'e'
    } else {
        'f'
    }
}

/// The digits of `n` in the given base, most significant first, without
/// leading zeros; a single `0` for zero.
pub open spec fn digits(n: nat, base: nat) -> Seq<char>
    decreases n,
{
    if base < 2 || n < base {
        seq![digit_char(n as int)]
    } else {
        proof {
            assert(n / base < n) by (nonlinear_arith)
                requires
                    base >= 2,
                    n >= base,
            ;
        }
        digits(n / base, base).push(digit_char((n % base) as int))
    }
}

/// `n` in decimal.
pub open spec fn decimal(n: nat) -> Seq<char> {
    digits(n, 10)
}

/// `n` in lower-case hexadecimal.
pub open spec fn hexadecimal(n: nat) -> Seq<char> {
    digits(n, 16)
}

/// `n` in binary.
pub open spec fn binary(n: nat) -> Seq<char> {
    digits(n, 2)
}

/// A byte as exactly two lower-case hexadecimal digits.
pub open spec fn hex_pair(b: u8) -> Seq<char> {
    seq![digit_char(b as int / 16), digit_char(b as int % 16)]
}

/// The text of `u32_to_hex`: the hexadecimal digits behind `0x`.
pub open spec fn hex_text(x: u32) -> Seq<char> {
    seq!['0', 'x'] + hexadecimal(x as nat)
}

/// The text of `u32_to_dec`: the four bytes of `x`, most significant first,
/// each in decimal, with one space between them.
pub open spec fn dec_text(x: u32) -> Seq<char> {
    decimal((x as nat) / 16777216) + seq![' '] + decimal(((x as nat) / 65536) % 256) + seq![' ']
        + decimal(((x as nat) / 256) % 256) + seq![' '] + decimal((x as nat) % 256)
}

/// Every byte of `data` from index `start` on, at most `count` of them, each
/// written by `unit` and followed by one space.
pub open spec fn listing(
    data: Seq<u8>,
    start: int,
    count: int,
    unit: spec_fn(u8) -> Seq<char>,
) -> Seq<char>
    decreases count,
{
    if count <= 0 || start < 0 || start + count > data.len() {
        Seq::empty()
    } else {
        listing(data, start, count - 1, unit) + unit(data[start + count - 1]) + seq![' ']
    }
}

/// How many bytes a listing of `data` shows that skips `start` bytes and then
/// takes at most `count`.
pub open spec fn listed(len: int, start: int, count: int) -> int {
    if start >= len {
        0
    } else if count <= len - start {
        count
    } else {
        len - start
    }
}

/// The text of `data_as_hex`.
pub open spec fn hex_listing(data: Seq<u8>, start: int, count: int) -> Seq<char> {
    listing(data, start, listed(data.len() as int, start, count), |b: u8| hex_pair(b))
}

/// The text of `data_as_dec`.
pub open spec fn dec_listing(data: Seq<u8>, start: int, count: int) -> Seq<char> {
    listing(data, start, listed(data.len() as int, start, count), |b: u8| decimal(b as nat))
}

fn digit_str(d: u64) -> (s: &'static str)
    requires
        d < 16,
    ensures
        s@ == seq![digit_char(d as int)],
{
    proof {
        reveal_strlit("0");
        reveal_strlit("1");
        reveal_strlit("2");
        reveal_strlit("3");
        reveal_strlit("4");
        reveal_strlit("5");
        reveal_strlit("6");
        reveal_strlit("7");
        reveal_strlit("8");
        reveal_strlit("9");
        reveal_strlit("a");
        reveal_strlit("b");
        reveal_strlit("c");
        reveal_strlit("d");
        reveal_strlit("e");
        reveal_strlit("f");
    }
    let s = if d == 0 {
        "0"
    } else if d == 1 {
        "1"
    } else if d == 2 {
        "2"
    } else if d == 3 {
        "3"
    } else if d == 4 {
        "4"
    } else if d == 5 {
        "5"
    } else if d == 6 {
        "6"
    } else if d == 7 {
        "7"
    } else if d == 8 {
        "8"
    } else if d == 9 {
        "9"
    } else if d == 10 {
        "a"
    } else if d == 11 {
        "b"
    } else if d == 12 {
        "c"
    } else if d == 13 {
        "d"
    } else if d == 14 {
        "e"
    } else {
        "f"
    };
    assert(s@ =~= seq![digit_char(d as int)]);
    s
}

/// Appends the digits of `n` in the given base to `out`.
pub fn push_digits(out: &mut String, n: u64, base: u64)
    requires
        2 <= base <= 16,
    ensures
        final(out)@ == old(out)@ + digits(n as nat, base as nat),
    decreases n,
{
    if n >= base {
        assert(n / base < n) by (nonlinear_arith)
            requires
                base >= 2,
                n >= base,
        ;
        push_digits(out, n / base, base);
    }
    assert(n < base ==> n % base == n) by (nonlinear_arith)
        requires
            base >= 2,
    ;
    let unit = digit_str(n % base);
    out.append(unit);
    assert(out@ =~= old(out)@ + digits(n as nat, base as nat));
}

/// Appends `n` in decimal to `out`.
pub fn push_decimal(out: &mut String, n: u64)
    ensures
        final(out)@ == old(out)@ + decimal(n as nat),
{
    push_digits(out, n, 10);
}

/// `x` in lower-case hexadecimal behind `0x`.
pub fn u32_to_hex(x: u32) -> (s: String)
    ensures
        s@ == hex_text(x),
{
    proof {
        reveal_strlit("0x");
    }
    let mut s = String::from_str("0x");
    assert(s@ =~= seq!['0', 'x']);
    push_digits(&mut s, x as u64, 16);
    s
}

/// The four bytes of `x`, most significant first, in decimal with spaces between.
pub fn u32_to_dec(x: u32) -> (s: String)
    ensures
        s@ == dec_text(x),
{
    proof {
        reveal_strlit(" ");
    }
    let data = u32_to_u8(x);
    let mut s = String::new();
    push_digits(&mut s, data.0 as u64, 10);
    s.append(" ");
    push_digits(&mut s, data.1 as u64, 10);
    s.append(" ");
    push_digits(&mut s, data.2 as u64, 10);
    s.append(" ");
    push_digits(&mut s, data.3 as u64, 10);
    assert(s@ =~= dec_text(x));
    s
}

/// `x` in binary.
pub fn u32_to_bin(x: u32) -> (s: String)
    ensures
        s@ == binary(x as nat),
{
    let mut s = String::new();
    push_digits(&mut s, x as u64, 2);
    assert(s@ =~= binary(x as nat));
    s
}

fn push_hex_pair(out: &mut String, b: u8)
    ensures
        final(out)@ == old(out)@ + hex_pair(b),
{
    out.append(digit_str((b / 16) as u64));
    out.append(digit_str((b % 16) as u64));
    assert(out@ =~= old(out)@ + hex_pair(b));
}

/// The bytes of `data` from index `start` on, at most `count` of them, each as
/// two hexadecimal digits followed by a space.
pub fn data_as_hex(data: &[u8], start: usize, count: usize) -> (s: String)
    ensures
        s@ == hex_listing(data@, start as int, count as int),
{
    proof {
        reveal_strlit(" ");
    }
    let mut s = String::new();
    if start >= data.len() {
        assert(s@ =~= hex_listing(data@, start as int, count as int));
        return s;
    }
    let n: usize = if count <= data.len() - start {
        count
    } else {
        data.len() - start
    };
    let ghost unit = |b: u8| hex_pair(b);
    let mut i: usize = 0;
    assert(s@ =~= listing(data@, start as int, 0, unit));
    while i < n
        invariant
            i <= n,
            start + n <= data@.len() <= usize::MAX,
            unit == (|b: u8| hex_pair(b)),
            " "@ == seq![' '],
            s@ == listing(data@, start as int, i as int, unit),
        decreases n - i,
    {
        push_hex_pair(&mut s, data[start + i]);
        s.append(" ");
        i = i + 1;
        assert(s@ =~= listing(data@, start as int, i as int, unit));
    }
    s
}

/// The bytes of `data` from index `start` on, at most `count` of them, each in
/// decimal followed by a space.
pub fn data_as_dec(data: &[u8], start: usize, count: usize) -> (s: String)
    ensures
        s@ == dec_listing(data@, start as int, count as int),
{
    proof {
        reveal_strlit(" ");
    }
    let mut s = String::new();
    if start >= data.len() {
        assert(s@ =~= dec_listing(data@, start as int, count as int));
        return s;
    }
    let n: usize = if count <= data.len() - start {
        count
    } else {
        data.len() - start
    };
    let ghost unit = |b: u8| decimal(b as nat);
    let mut i: usize = 0;
    assert(s@ =~= listing(data@, start as int, 0, unit));
    while i < n
        invariant
            i <= n,
            start + n <= data@.len() <= usize::MAX,
            unit == (|b: u8| decimal(b as nat)),
            " "@ == seq![' '],
            s@ == listing(data@, start as int, i as int, unit),
        decreases n - i,
    {
        push_digits(&mut s, data[start + i] as u64, 10);
        s.append(" ");
        i = i + 1;
        assert(s@ =~= listing(data@, start as int, i as int, unit));
    }
    s
}

} // verus!
