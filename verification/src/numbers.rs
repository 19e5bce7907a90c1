//! Decimal and hexadecimal text of unsigned integers, both ways.

use vstd::prelude::*;
use crate::text::push_char;

verus! {

/// The decimal digit for `d < 10`.
pub open spec fn digit_char(d: int) -> char {
    if d == 0 { '0' }
    else if d == 1 { '1' }
    else if d == 2 { '2' }
    else if d == 3 { '3' }
    else if d == 4 { '4' }
    else if d == 5 { '5' }
    else if d == 6 { '6' }
    else if d == 7 { '7' }
    else if d == 8 { '8' }
    else { '9' }
}

/// The lower-case hexadecimal digit for `d < 16`.
pub open spec fn hex_char(d: int) -> char {
    if d < 10 { digit_char(d) }
    else if d == 10 { 'a' }
    else if d == 11 { 'b' }
    else if d == 12 { 'c' }
    else if d == 13 { 'd' }
    else if d == 14 { 'e' }
    else { 'f' }
}

/// The value of a decimal digit character.
pub open spec fn char_digit(c: char) -> int {
    c as int - '0' as int
}

/// `c` is one of `0`..`9`.
pub open spec fn is_digit(c: char) -> bool {
    '0' <= c && c <= '9'
}

/// The decimal text of `n`, without leading zeros (`0` for zero), as
/// `Display` writes an unsigned integer.
pub open spec fn decimal(n: nat) -> Seq<char>
    decreases n,
{
    if n < 10 {
        seq![digit_char(n as int)]
    } else {
        decimal(n / 10) + seq![digit_char((n % 10) as int)]
    }
}

/// The last `k` lower-case hexadecimal digits of `n`, zero-padded, as
/// `{:0k$x}` writes `n` when `n < 16^k`.
pub open spec fn hex_digits(n: nat, k: nat) -> Seq<char>
    decreases k,
{
    if k == 0 {
        Seq::empty()
    } else {
        hex_digits(n / 16, (k - 1) as nat) + seq![hex_char((n % 16) as int)]
    }
}

/// The number that a text of decimal digits denotes.
pub open spec fn digits_value(s: Seq<char>) -> int
    decreases s.len(),
{
    if s.len() == 0 {
        0
    } else {
        digits_value(s.drop_last()) * 10 + char_digit(s.last())
    }
}

/// Why a text is not the decimal text of a `usize`, as `str::parse::<usize>`
/// reports it.
#[derive(Clone, Copy, Debug, PartialEq, Eq, Structural)]
pub enum IntErrorKind {
    Empty,
    InvalidDigit,
    PosOverflow,
}

/// Reads the digits of `s` onto `acc`, left to right: a character that is not
/// a digit is an invalid digit, and a value past `usize::MAX` an overflow,
/// whichever comes first.
pub open spec fn read_digits(acc: int, s: Seq<char>) -> Result<usize, IntErrorKind>
    decreases s.len(),
{
    if s.len() == 0 {
        Ok(acc as usize)
    } else if !is_digit(s[0]) {
        Err(IntErrorKind::InvalidDigit)
    } else if acc * 10 + char_digit(s[0]) > usize::MAX {
        Err(IntErrorKind::PosOverflow)
    } else {
        read_digits(acc * 10 + char_digit(s[0]), s.drop_first())
    }
}

/// `str::parse::<usize>`: an optional leading `+`, then at least one decimal
/// digit; nothing else, white space included, is accepted.
pub open spec fn parse_usize_spec(s: Seq<char>) -> Result<usize, IntErrorKind> {
    if s.len() == 0 {
        Err(IntErrorKind::Empty)
    } else if s[0] == '+' && s.len() == 1 {
        Err(IntErrorKind::InvalidDigit)
    } else if s[0] == '+' {
        read_digits(0, s.drop_first())
    } else {
        read_digits(0, s)
    }
}

fn digit_of(d: u64) -> (c: char)
    requires
        d < 16,
    ensures
        c == hex_char(d as int),
{
    if d == 0 { '0' }
    else if d == 1 { '1' }
    else if d == 2 { '2' }
    else if d == 3 { '3' }
    else if d == 4 { '4' }
    else if d == 5 { '5' }
    else if d == 6 { '6' }
    else if d == 7 { '7' }
    else if d == 8 { '8' }
    else if d == 9 { '9' }
    else if d == 10 { 'a' }
    else if d == 11 { 'b' }
    else if d == 12 { 'c' }
    else if d == 13 { 'd' }
    else if d == 14 { 'e' }
    else { 'f' }
}

/// The decimal text of `n`.
pub fn decimal_string(n: u64) -> (s: String)
    ensures
        s@ == decimal(n as nat),
    decreases n,
{
    if n < 10 {
        let mut s = String::new();
        push_char(&mut s, digit_of(n));
        assert(s@ =~= decimal(n as nat));
        s
    } else {
        let mut s = decimal_string(n / 10);
        push_char(&mut s, digit_of(n % 10));
        s
    }
}

/// The last `k` hexadecimal digits of `n`, zero-padded.
pub fn hex_string(n: u64, k: u32) -> (s: String)
    ensures
        s@ == hex_digits(n as nat, k as nat),
    decreases k,
{
    if k == 0 {
        String::new()
    } else {
        let mut s = hex_string(n / 16, k - 1);
        push_char(&mut s, digit_of(n % 16));
        s
    }
}

fn char_value(c: char) -> (d: u64)
    requires
        is_digit(c),
    ensures
        d == char_digit(c),
{
    (c as u32 - '0' as u32) as u64
}

/// `str::parse::<usize>` on a text given as characters `v[lo..hi]`.
pub fn parse_usize(v: &Vec<char>, lo: usize, hi: usize) -> (r: Result<usize, IntErrorKind>)
    requires
        lo <= hi <= v.len(),
    ensures
        r == parse_usize_spec(v@.subrange(lo as int, hi as int)),
{
    let ghost s = v@.subrange(lo as int, hi as int);
    if lo == hi {
        return Err(IntErrorKind::Empty);
    }
    if v[lo] == '+' && hi - lo == 1 {
        return Err(IntErrorKind::InvalidDigit);
    }
    let mut i = if v[lo] == '+' { lo + 1 } else { lo };
    assert(parse_usize_spec(s) == read_digits(0, v@.subrange(i as int, hi as int))) by {
        if v[lo as int] == '+' {
            assert(s.drop_first() =~= v@.subrange(i as int, hi as int));
        } else {
            assert(s =~= v@.subrange(i as int, hi as int));
        }
    }
    let mut acc: usize = 0;
    while i < hi
        invariant
            lo <= i <= hi <= v.len(),
            s == v@.subrange(lo as int, hi as int),
            parse_usize_spec(s) == read_digits(acc as int, v@.subrange(i as int, hi as int)),
        decreases hi - i,
    {
        let c = v[i];
        assert(v@.subrange(i as int, hi as int)[0] == c);
        assert(v@.subrange(i as int, hi as int).drop_first() =~= v@.subrange(i + 1, hi as int));
        let ghost rest = v@.subrange(i as int, hi as int);
        assert(rest.len() > 0);
        if !('0' <= c && c <= '9') {
            return Err(IntErrorKind::InvalidDigit);
        }
        let d = char_value(c) as usize;
        if acc > (usize::MAX - d) / 10 {
            assert(acc * 10 + d > usize::MAX) by (nonlinear_arith)
                requires acc > (usize::MAX - d) / 10, d <= 9;
            return Err(IntErrorKind::PosOverflow);
        }
        assert(acc * 10 + d <= usize::MAX) by (nonlinear_arith)
            requires acc <= (usize::MAX - d) / 10, d <= 9;
        acc = acc * 10 + d;
        i += 1;
    }
    assert(v@.subrange(i as int, hi as int).len() == 0);
    Ok(acc)
}

impl IntErrorKind {
    /// The message that `std::num::ParseIntError` displays for this kind.
    pub fn message(&self) -> (m: &'static str)
        ensures
            m@ == match self {
                IntErrorKind::Empty => "cannot parse integer from empty string"@,
                IntErrorKind::InvalidDigit => "invalid digit found in string"@,
                IntErrorKind::PosOverflow => "number too large to fit in target type"@,
            },
    {
        match self {
            IntErrorKind::Empty => "cannot parse integer from empty string",
            IntErrorKind::InvalidDigit => "invalid digit found in string",
            IntErrorKind::PosOverflow => "number too large to fit in target type",
        }
    }
}

/// Every character of a decimal text is a digit.
pub proof fn lemma_decimal_digits(n: nat)
    ensures
        decimal(n).len() > 0,
        forall|i: int| 0 <= i < decimal(n).len() ==> is_digit(#[trigger] decimal(n)[i]),
    decreases n,
{
    if n >= 10 {
        lemma_decimal_digits(n / 10);
    }
}

/// `10^k`.
pub open spec fn pow10(k: nat) -> int
    decreases k,
{
    if k == 0 {
        1
    } else {
        10 * pow10((k - 1) as nat)
    }
}

proof fn lemma_pow10_pos(k: nat)
    ensures
        pow10(k) >= 1,
    decreases k,
{
    if k > 0 {
        lemma_pow10_pos((k - 1) as nat);
    }
}

proof fn lemma_digits_value_nonneg(s: Seq<char>)
    requires
        forall|i: int| 0 <= i < s.len() ==> is_digit(#[trigger] s[i]),
    ensures
        digits_value(s) >= 0,
    decreases s.len(),
{
    if s.len() > 0 {
        assert forall|i: int| 0 <= i < s.drop_last().len() implies is_digit(#[trigger] s.drop_last()[i]) by {
            assert(s.drop_last()[i] == s[i]);
        }
        lemma_digits_value_nonneg(s.drop_last());
    }
}

/// The value of a digit text is its first digit's worth plus the rest.
proof fn lemma_digits_value_front(s: Seq<char>)
    requires
        s.len() > 0,
    ensures
        digits_value(s) == char_digit(s[0]) * pow10((s.len() - 1) as nat) + digits_value(
            s.drop_first(),
        ),
    decreases s.len(),
{
    if s.len() == 1 {
        assert(s.drop_first() =~= Seq::<char>::empty());
        assert(s.drop_last() =~= Seq::<char>::empty());
    } else {
        let t = s.drop_last();
        let u = s.drop_first();
        let w = t.drop_first();
        lemma_digits_value_front(t);
        assert(u.drop_last() =~= w);
        assert(t[0] == s[0]);
        assert(u.last() == s.last());
        let a = char_digit(s[0]);
        let c = char_digit(s.last());
        let p = pow10((s.len() - 2) as nat);
        assert(digits_value(s) == digits_value(t) * 10 + c);
        assert(digits_value(u) == digits_value(w) * 10 + c);
        assert(digits_value(t) == a * p + digits_value(w));
        assert(pow10((s.len() - 1) as nat) == 10 * p);
        assert((a * p + digits_value(w)) * 10 + c == a * (10 * p) + (digits_value(w) * 10 + c))
            by (nonlinear_arith);
    }
}

/// A decimal digit character denotes the digit it was made from.
proof fn lemma_digit_char(d: int)
    requires
        0 <= d < 10,
    ensures
        char_digit(digit_char(d)) == d,
        is_digit(digit_char(d)),
{
}

/// The decimal text of a number reads back as that number.
pub proof fn lemma_decimal_value(n: nat)
    ensures
        digits_value(decimal(n)) == n,
    decreases n,
{
    lemma_digit_char((n % 10) as int);
    if n >= 10 {
        lemma_decimal_value(n / 10);
        assert(decimal(n).drop_last() =~= decimal(n / 10));
        assert(decimal(n).last() == digit_char((n % 10) as int));
        lemma_decimal_digits(n);
        assert(digits_value(decimal(n)) == digits_value(decimal(n / 10)) * 10 + (n % 10));
        assert((n / 10) * 10 + n % 10 == n);
    } else {
        assert(decimal(n).drop_last() =~= Seq::<char>::empty());
        assert(digits_value(decimal(n)) == digits_value(Seq::<char>::empty()) * 10 + char_digit(
            digit_char(n as int),
        ));
    }
}

/// Writing a `usize` in decimal and parsing it with `str::parse::<usize>`
/// gives the number back.
pub proof fn law_decimal_parses_back(n: usize)
    ensures
        parse_usize_spec(decimal(n as nat)) == Ok::<usize, IntErrorKind>(n),
{
    lemma_decimal_digits(n as nat);
    lemma_decimal_value(n as nat);
    let s = decimal(n as nat);
    assert(s[0] != '+');
    lemma_read_digits_value(0, s);
    assert(0 * pow10(s.len()) == 0);
}

/// Reading the digits of `s` onto `acc` gives `acc` shifted past them plus
/// their value, while that stays within `usize`.
proof fn lemma_read_digits_value(acc: int, s: Seq<char>)
    requires
        forall|i: int| 0 <= i < s.len() ==> is_digit(#[trigger] s[i]),
        0 <= acc,
        acc * pow10(s.len()) + digits_value(s) <= usize::MAX,
    ensures
        read_digits(acc, s) == Ok::<usize, IntErrorKind>((acc * pow10(s.len()) + digits_value(s)) as usize),
    decreases s.len(),
{
    if s.len() > 0 {
        let d = char_digit(s[0]);
        let rest = s.drop_first();
        let p = pow10(rest.len());
        lemma_digits_value_front(s);
        assert forall|i: int| 0 <= i < rest.len() implies is_digit(#[trigger] rest[i]) by {
            assert(rest[i] == s[i + 1]);
        }
        lemma_digits_value_nonneg(rest);
        lemma_pow10_pos(rest.len());
        assert(pow10(s.len()) == 10 * p);
        assert(acc * pow10(s.len()) + digits_value(s) == (acc * 10 + d) * p + digits_value(rest))
            by (nonlinear_arith)
            requires
                pow10(s.len()) == 10 * p,
                digits_value(s) == d * p + digits_value(rest);
        assert(acc * 10 + d <= (acc * 10 + d) * p) by (nonlinear_arith)
            requires acc * 10 + d >= 0, p >= 1;
        lemma_read_digits_value(acc * 10 + d, rest);
    }
}

/// The value of a lower-case hexadecimal digit character.
pub open spec fn hex_value_of(c: char) -> int {
    if is_digit(c) { char_digit(c) } else { c as int - 'a' as int + 10 }
}

/// The number that a text of hexadecimal digits denotes.
pub open spec fn hex_text_value(s: Seq<char>) -> int
    decreases s.len(),
{
    if s.len() == 0 {
        0
    } else {
        hex_text_value(s.drop_last()) * 16 + hex_value_of(s.last())
    }
}

/// `16^k`.
pub open spec fn pow16(k: nat) -> int
    decreases k,
{
    if k == 0 {
        1
    } else {
        16 * pow16((k - 1) as nat)
    }
}

proof fn lemma_pow16_pos(k: nat)
    ensures
        pow16(k) >= 1,
    decreases k,
{
    if k > 0 {
        lemma_pow16_pos((k - 1) as nat);
    }
}

/// A hexadecimal digit character denotes the digit it was made from, and is
/// neither a comma nor a colon.
proof fn lemma_hex_char(d: int)
    requires
        0 <= d < 16,
    ensures
        hex_value_of(hex_char(d)) == d,
        hex_char(d) != ',',
        hex_char(d) != ':',
{
}

/// The last `k` hexadecimal digits of `n` read back as `n` modulo `16^k`,
/// and none of them is a comma or a colon.
pub proof fn lemma_hex_digits_value(n: nat, k: nat)
    ensures
        hex_digits(n, k).len() == k,
        hex_text_value(hex_digits(n, k)) == (n as int) % pow16(k),
        forall|i: int| 0 <= i < k ==> #[trigger] hex_digits(n, k)[i] != ',' && hex_digits(n, k)[i] != ':',
    decreases k,
{
    if k > 0 {
        let p = pow16((k - 1) as nat);
        lemma_hex_digits_value(n / 16, (k - 1) as nat);
        lemma_pow16_pos((k - 1) as nat);
        let s = hex_digits(n, k);
        let d = (n % 16) as int;
        lemma_hex_char(d);
        assert(s.drop_last() =~= hex_digits(n / 16, (k - 1) as nat));
        assert(s.last() == hex_char(d));
        assert(hex_text_value(s) == ((n / 16) as int % p) * 16 + d);
        vstd::arithmetic::div_mod::lemma_mod_breakdown(n as int, 16, p);
        assert(pow16(k) == 16 * p);
        assert forall|i: int| 0 <= i < k implies #[trigger] s[i] != ',' && s[i] != ':' by {
            if i < k - 1 {
                assert(s[i] == hex_digits(n / 16, (k - 1) as nat)[i]);
            }
        }
    }
}

/// Eight hexadecimal digits tell a 32-bit number apart from every other.
pub proof fn lemma_hex8_injective(a: u32, b: u32)
    ensures
        hex_digits(a as nat, 8) == hex_digits(b as nat, 8) ==> a == b,
{
    lemma_hex_digits_value(a as nat, 8);
    lemma_hex_digits_value(b as nat, 8);
    assert(pow16(8) == 0x1_0000_0000) by {
        reveal_with_fuel(pow16, 9);
    }
}

/// The decimal text of a number tells it apart from every other number.
pub proof fn lemma_decimal_injective(a: nat, b: nat)
    ensures
        decimal(a) == decimal(b) ==> a == b,
{
    lemma_decimal_value(a);
    lemma_decimal_value(b);
}

} // verus!
