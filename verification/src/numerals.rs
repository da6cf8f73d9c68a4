//! Numbers as text.
use vstd::prelude::*;
use vstd::string::*;

use crate::text::string_of;
use crate::trim::white;
use crate::words::one_line;

verus! {

// ---------------------------------------------------------------------------------------------
// Decimal

/// The decimal digit for `d`.
pub open spec fn digit(d: int) -> char {
    (('0' as u8) + d) as u8 as char
}

/// `n` in decimal, without leading zeros.
pub open spec fn digits(n: nat) -> Seq<char>
    decreases n,
{
    if n < 10 {
        seq![digit(n as int)]
    } else {
        digits(n / 10).push(digit((n % 10) as int))
    }
}

/// `n` in decimal, with a minus sign in front if it is negative.
pub open spec fn decimal(n: int) -> Seq<char> {
    if n < 0 {
        seq!['-'] + digits((-n) as nat)
    } else {
        digits(n as nat)
    }
}

fn digit_of(d: u32) -> (c: char)
    requires
        d < 10,
    ensures
        c == digit(d as int),
{
    ('0' as u8 + d as u8) as char
}

fn digits_of(n: u32) -> (chars: Vec<char>)
    ensures
        chars@ == digits(n as nat),
    decreases n,
{
    if n < 10 {
        let mut chars: Vec<char> = Vec::new();
        chars.push(digit_of(n));
        assert(chars@ =~= seq![digit(n as int)]);
        chars
    } else {
        let mut chars = digits_of(n / 10);
        chars.push(digit_of(n % 10));
        chars
    }
}

/// `n` in decimal.
pub fn decimal_of(n: i32) -> (s: String)
    ensures
        s@ == decimal(n as int),
{
    if n < 0 {
        // The magnitude of the least `i32` is no `i32`.
        let magnitude: u32 = (-(n as i64)) as u32;
        let mut s = String::new();
        s.push('-');
        let tail = string_of(&digits_of(magnitude));
        s.append(tail.as_str());
        assert(s@ =~= seq!['-'] + digits((-n) as nat));
        s
    } else {
        string_of(&digits_of(n as u32))
    }
}

/// Decimal text is one line.
pub proof fn lemma_decimal_one_line(n: int)
    ensures
        one_line(decimal(n)),
{
    if n < 0 {
        lemma_digits_no_white((-n) as nat);
    } else {
        lemma_digits_no_white(n as nat);
    }
}

proof fn lemma_digits_no_white(n: nat)
    ensures
        forall|i: int| 0 <= i < digits(n).len() ==> !white(#[trigger] digits(n)[i]),
    decreases n,
{
    let last = digit((n % 10) as int);
    assert(!white(last));
    if n >= 10 {
        lemma_digits_no_white(n / 10);
        let before = digits(n / 10);
        assert forall|i: int| 0 <= i < digits(n).len() implies !white(#[trigger] digits(n)[i]) by {
            if i < before.len() {
                assert(digits(n)[i] == before[i]);
            } else {
                assert(digits(n)[i] == last);
            }
        }
    }
}

// ---------------------------------------------------------------------------------------------
// Hexadecimal

/// The lower-case hexadecimal digit for `d`.
pub open spec fn nibble(d: int) -> char {
    if d < 10 {
        digit(d)
    } else {
        (('a' as u8) + (d - 10)) as u8 as char
    }
}

/// `bytes` in lower-case hexadecimal, two digits for each.
pub open spec fn hex(bytes: Seq<u8>) -> Seq<char>
    decreases bytes.len(),
{
    if bytes.len() == 0 {
        seq![]
    } else {
        hex(bytes.drop_last()).push(nibble(bytes.last() as int / 16)).push(
            nibble(bytes.last() as int % 16),
        )
    }
}

/// A lower-case hexadecimal digit.
pub open spec fn is_hex_digit(c: char) -> bool {
    '0' <= c <= '9' || 'a' <= c <= 'f'
}

fn nibble_of(d: u8) -> (c: char)
    requires
        d < 16,
    ensures
        c == nibble(d as int),
{
    if d < 10 {
        ('0' as u8 + d) as char
    } else {
        ('a' as u8 + (d - 10)) as char
    }
}

/// The first `count` of `bytes`, in lower-case hexadecimal.
pub fn hex_of(bytes: &[u8], count: usize) -> (s: String)
    requires
        count <= bytes@.len(),
    ensures
        s@ == hex(bytes@.take(count as int)),
{
    let mut s = String::new();
    let mut i: usize = 0;
    assert(bytes@.take(0) =~= Seq::<u8>::empty());
    while i < count
        invariant
            i <= count <= bytes@.len(),
            s@ == hex(bytes@.take(i as int)),
        decreases count - i,
    {
        let byte: u8 = bytes[i];
        s.push(nibble_of(byte / 16));
        s.push(nibble_of(byte % 16));
        assert(bytes@.take(i + 1).drop_last() =~= bytes@.take(i as int));
        i = i + 1;
    }
    s
}

/// Hexadecimal text has two digits for each byte.
pub proof fn lemma_hex(bytes: Seq<u8>)
    ensures
        hex(bytes).len() == 2 * bytes.len(),
        forall|i: int| 0 <= i < hex(bytes).len() ==> is_hex_digit(#[trigger] hex(bytes)[i]),
    decreases bytes.len(),
{
    if bytes.len() > 0 {
        lemma_hex(bytes.drop_last());
    }
}

// ---------------------------------------------------------------------------------------------
// Laws

/// A number below ten is its digit, every further place is one digit behind the rest, and a
/// negative number is its magnitude behind a minus sign.
pub proof fn law_decimals_are_built_place_by_place(n: int)
    ensures
        0 <= n < 10 ==> decimal(n) == seq!["0123456789"@[n]],
        n >= 10 ==> decimal(n) == decimal(n / 10).push("0123456789"@[n % 10]),
        n < 0 ==> decimal(n) == "-"@ + decimal(-n),
{
    reveal_strlit("0123456789");
    reveal_strlit("-");
    lemma_digit(n % 10);
    assert(seq!['-'] =~= "-"@);
}

proof fn lemma_digit(d: int)
    requires
        0 <= d < 10,
    ensures
        digit(d) == "0123456789"@[d],
{
    reveal_strlit("0123456789");
}

proof fn lemma_nibble(d: int)
    requires
        0 <= d < 16,
    ensures
        nibble(d) == "0123456789abcdef"@[d],
{
    reveal_strlit("0123456789abcdef");
    if d < 10 {
        reveal_strlit("0123456789");
        lemma_digit(d);
    }
}

/// In hexadecimal every byte stands where it stood, as its upper and its lower half.
pub proof fn law_hexadecimals_stand_byte_by_byte(bytes: Seq<u8>, i: int)
    requires
        0 <= i < bytes.len(),
    ensures
        hex(bytes).len() == 2 * bytes.len(),
        hex(bytes)[2 * i] == "0123456789abcdef"@[bytes[i] as int / 16],
        hex(bytes)[2 * i + 1] == "0123456789abcdef"@[bytes[i] as int % 16],
    decreases bytes.len(),
{
    let init = bytes.drop_last();
    lemma_hex(bytes);
    lemma_hex(init);
    lemma_nibble(bytes.last() as int / 16);
    lemma_nibble(bytes.last() as int % 16);
    if i < init.len() {
        law_hexadecimals_stand_byte_by_byte(init, i);
        assert(init[i] == bytes[i]);
    }
}

/// Different bytes are different in hexadecimal.
pub proof fn law_hexadecimals_tell_bytes_apart(a: Seq<u8>, b: Seq<u8>)
    requires
        hex(a) == hex(b),
    ensures
        a == b,
{
    lemma_hex(a);
    lemma_hex(b);
    assert forall|i: int| 0 <= i < a.len() implies a[i] == b[i] by {
        law_hexadecimals_stand_byte_by_byte(a, i);
        law_hexadecimals_stand_byte_by_byte(b, i);
        lemma_nibbles_differ(a[i] as int / 16, b[i] as int / 16);
        lemma_nibbles_differ(a[i] as int % 16, b[i] as int % 16);
    }
    assert(a =~= b);
}

proof fn lemma_nibbles_differ(a: int, b: int)
    requires
        0 <= a < 16,
        0 <= b < 16,
        "0123456789abcdef"@[a] == "0123456789abcdef"@[b],
    ensures
        a == b,
{
    lemma_nibble(a);
    lemma_nibble(b);
}

} // verus!
