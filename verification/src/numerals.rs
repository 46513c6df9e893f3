//! Numbers as text: positional notation in a radix, both ways.
use vstd::prelude::*;
use crate::text;

verus! {

/// The value of `c` as a digit, 36 for a character that is none.
pub open spec fn digit_of(c: char) -> nat {
    if '0' <= c && c <= '9' {
        (c as u32 - '0' as u32) as nat
    } else if 'a' <= c && c <= 'z' {
        (c as u32 - 'a' as u32 + 10) as nat
    } else if 'A' <= c && c <= 'Z' {
        (c as u32 - 'A' as u32 + 10) as nat
    } else {
        36
    }
}

fn digit_value(c: char) -> (r: u64)
    ensures
        r == digit_of(c),
        r <= 36,
{
    if '0' <= c && c <= '9' {
        (c as u32 - '0' as u32) as u64
    } else if 'a' <= c && c <= 'z' {
        (c as u32 - 'a' as u32 + 10) as u64
    } else if 'A' <= c && c <= 'Z' {
        (c as u32 - 'A' as u32 + 10) as u64
    } else {
        36
    }
}

/// Whether every character of `s` is a digit in `radix`.
pub open spec fn all_digits(s: Seq<char>, radix: nat) -> bool {
    forall|i: int| 0 <= i < s.len() ==> digit_of(#[trigger] s[i]) < radix
}

/// The number that the digits of `s` write in `radix`.
pub open spec fn number_of(s: Seq<char>, radix: nat) -> nat
    decreases s.len(),
{
    if s.len() == 0 {
        0
    } else {
        number_of(s.drop_last(), radix) * radix + digit_of(s.last())
    }
}

/// The unsigned number written by `s` in `radix`: digits, at least one,
/// with an optional plus sign before them.
pub open spec fn unsigned(s: Seq<char>, radix: nat) -> Option<nat> {
    let digits = if s.len() > 1 && s[0] == '+' {
        s.skip(1)
    } else {
        s
    };
    if digits.len() > 0 && all_digits(digits, radix) {
        Some(number_of(digits, radix))
    } else {
        None
    }
}

/// The unsigned number written by `s` in `radix` where it is at most `max`.
pub open spec fn unsigned_to(s: Seq<char>, radix: nat, max: nat) -> Option<nat> {
    match unsigned(s, radix) {
        Some(n) => if n <= max {
            Some(n)
        } else {
            None
        },
        None => None,
    }
}

proof fn lemma_number_grows(s: Seq<char>, k: int, radix: nat)
    requires
        0 <= k <= s.len(),
        radix >= 1,
    ensures
        number_of(s.take(k), radix) <= number_of(s, radix),
    decreases s.len() - k,
{
    if k == s.len() {
        assert(s.take(k) == s);
    } else {
        lemma_number_grows(s, k + 1, radix);
        assert(s.take(k + 1).drop_last() == s.take(k));
        let v = number_of(s.take(k), radix);
        assert(v <= v * radix) by (nonlinear_arith)
            requires
                radix >= 1,
                v >= 0,
        ;
    }
}

/// Reads an unsigned number of at most `max`.
pub fn parse_unsigned(s: &str, radix: u64, max: u64) -> (r: Option<u64>)
    requires
        2 <= radix <= 36,
    ensures
        r matches Some(v) ==> unsigned_to(s@, radix as nat, max as nat) == Some(v as nat),
        r is None ==> unsigned_to(s@, radix as nat, max as nat) is None,
{
    let cs: Vec<char> = text::chars_of(s);
    let start: usize = if cs.len() > 1 && cs[0] == '+' {
        1
    } else {
        0
    };
    if cs.len() == 0 {
        return None;
    }
    let ghost digits = s@.skip(start as int);
    assert(start == 0 ==> digits == s@);
    let mut acc: u64 = 0;
    let mut i: usize = start;
    while i < cs.len()
        invariant
            start <= i <= cs.len(),
            2 <= radix <= 36,
            cs@ == s@,
            start == (if s@.len() > 1 && s@[0] == '+' {
                1int
            } else {
                0int
            }),
            start < s@.len(),
            digits == s@.skip(start as int),
            start == 0 ==> digits == s@,
            acc <= max,
            acc == number_of(digits.take(i - start), radix as nat),
            forall|k: int| 0 <= k < i - start ==> digit_of(#[trigger] digits[k]) < radix,
        decreases cs.len() - i,
    {
        let d: u64 = digit_value(cs[i]);
        assert(digits[i - start] == s@[i as int]);
        if d >= radix {
            assert(!all_digits(digits, radix as nat));
            return None;
        }
        proof {
            assert(digits.take(i - start + 1).drop_last() == digits.take(i - start));
            lemma_number_grows(digits, i - start + 1, radix as nat);
            assert(0 <= acc * radix) by (nonlinear_arith)
                requires
                    acc >= 0,
                    radix >= 0,
            ;
        }
        let wide: u128 = mul_wide(acc, radix) + d as u128;
        if wide > max as u128 {
            return None;
        }
        acc = wide as u64;
        i = i + 1;
    }
    assert(digits.take(i - start) == digits);
    Some(acc)
}

fn mul_wide(a: u64, b: u64) -> (r: u128)
    requires
        b <= 36,
    ensures
        r == a * b,
        r <= u64::MAX * 36,
{
    assert(a * b <= u64::MAX * 36) by (nonlinear_arith)
        requires
            0 <= a <= u64::MAX,
            0 <= b <= 36,
    ;
    a as u128 * b as u128
}

pub fn parse_u32(s: &str) -> (r: Option<u32>)
    ensures
        r matches Some(v) ==> unsigned_to(s@, 10, u32::MAX as nat) == Some(v as nat),
        r is None ==> unsigned_to(s@, 10, u32::MAX as nat) is None,
{
    match parse_unsigned(s, 10, u32::MAX as u64) {
        Some(v) => Some(v as u32),
        None => None,
    }
}

pub fn parse_usize(s: &str) -> (r: Option<usize>)
    ensures
        r matches Some(v) ==> unsigned_to(s@, 10, usize::MAX as nat) == Some(v as nat),
        r is None ==> unsigned_to(s@, 10, usize::MAX as nat) is None,
{
    match parse_unsigned(s, 10, usize::MAX as u64) {
        Some(v) => Some(v as usize),
        None => None,
    }
}

/// The digit that stands for `d`, with capital letters where `upper`.
pub open spec fn digit_char(d: nat, upper: bool) -> char {
    if d < 10 {
        ('0' as u8 + d) as char
    } else if upper {
        ('A' as u8 + d - 10) as char
    } else {
        ('a' as u8 + d - 10) as char
    }
}

fn char_of_digit(d: u8, upper: bool) -> (r: char)
    requires
        d < 36,
    ensures
        r == digit_char(d as nat, upper),
{
    if d < 10 {
        (0x30u8 + d) as char
    } else if upper {
        (0x41u8 + d - 10) as char
    } else {
        (0x61u8 + d - 10) as char
    }
}

/// The digits of `n` in `radix`, without leading zeros.
pub open spec fn digits(n: nat, radix: nat, upper: bool) -> Seq<char>
    decreases n,
{
    if radix < 2 || n < radix {
        seq![digit_char(n, upper)]
    } else {
        proof {
            vstd::arithmetic::div_mod::lemma_div_decreases(n as int, radix as int);
        }
        digits(n / radix, radix, upper).push(digit_char(n % radix, upper))
    }
}

/// The decimal digits of `n`.
pub open spec fn decimal(n: nat) -> Seq<char> {
    digits(n, 10, false)
}

/// `n` in `radix`, with zeros before it up to `width` characters.
pub open spec fn padded(n: nat, radix: nat, upper: bool, width: nat) -> Seq<char> {
    let d = digits(n, radix, upper);
    if d.len() < width {
        Seq::new((width - d.len()) as nat, |i: int| '0') + d
    } else {
        d
    }
}

/// A signed number in decimal.
pub open spec fn signed_decimal(n: int) -> Seq<char> {
    if n < 0 {
        seq!['-'] + decimal((-n) as nat)
    } else {
        decimal(n as nat)
    }
}

fn push_digits(out: &mut String, n: u64, radix: u64, upper: bool)
    requires
        2 <= radix <= 36,
    ensures
        final(out)@ == old(out)@ + digits(n as nat, radix as nat, upper),
    decreases n,
{
    if n < radix {
        out.push(char_of_digit(n as u8, upper));
    } else {
        proof {
            vstd::arithmetic::div_mod::lemma_div_decreases(n as int, radix as int);
        }
        push_digits(out, n / radix, radix, upper);
        out.push(char_of_digit((n % radix) as u8, upper));
    }
}

/// Writes `n` in `radix`, padded with zeros to `width` characters.
pub fn write_unsigned(n: u64, radix: u64, upper: bool, width: usize) -> (r: String)
    requires
        2 <= radix <= 36,
    ensures
        r@ == padded(n as nat, radix as nat, upper, width as nat),
{
    let mut d: String = String::new();
    push_digits(&mut d, n, radix, upper);
    assert(d@ == digits(n as nat, radix as nat, upper));
    let len: usize = d.as_str().unicode_len();
    if len >= width {
        return d;
    }
    let mut out: String = String::new();
    let mut i: usize = len;
    while i < width
        invariant
            len <= i <= width,
            out@ == Seq::new((i - len) as nat, |k: int| '0'),
        decreases width - i,
    {
        out.push('0');
        i = i + 1;
        assert(out@ == Seq::new((i - len) as nat, |k: int| '0'));
    }
    text::joined(out.as_str(), d.as_str())
}

pub fn write_decimal(n: u64) -> (r: String)
    ensures
        r@ == decimal(n as nat),
{
    let mut d: String = String::new();
    push_digits(&mut d, n, 10, false);
    assert(d@ == decimal(n as nat));
    d
}

pub fn write_signed(n: i64) -> (r: String)
    ensures
        r@ == signed_decimal(n as int),
{
    if n < 0 {
        let mut d: String = String::new();
        d.push('-');
        let m: u64 = if n == i64::MIN {
            0x8000_0000_0000_0000
        } else {
            (-n) as u64
        };
        push_digits(&mut d, m, 10, false);
        assert(d@ == seq!['-'] + decimal(m as nat));
        d
    } else {
        write_decimal(n as u64)
    }
}

proof fn lemma_digit_round(d: nat, upper: bool)
    requires
        d < 36,
    ensures
        digit_of(digit_char(d, upper)) == d,
        digit_char(d, upper) != '+',
{
}

proof fn lemma_digits_number(n: nat, radix: nat, upper: bool)
    requires
        2 <= radix <= 36,
    ensures
        digits(n, radix, upper).len() > 0,
        all_digits(digits(n, radix, upper), radix),
        number_of(digits(n, radix, upper), radix) == n,
        digits(n, radix, upper)[0] != '+',
    decreases n,
{
    let ds = digits(n, radix, upper);
    if n < radix {
        lemma_digit_round(n, upper);
        assert(ds.drop_last() == Seq::<char>::empty());
        assert(number_of(ds, radix) == number_of(ds.drop_last(), radix) * radix + digit_of(
            ds.last(),
        ));
        assert(number_of(ds.drop_last(), radix) == 0);
        assert(0 * radix == 0) by (nonlinear_arith);
    } else {
        vstd::arithmetic::div_mod::lemma_div_decreases(n as int, radix as int);
        vstd::arithmetic::div_mod::lemma_fundamental_div_mod(n as int, radix as int);
        vstd::arithmetic::div_mod::lemma_mod_bound(n as int, radix as int);
        lemma_digits_number(n / radix, radix, upper);
        lemma_digit_round(n % radix, upper);
        let front = digits(n / radix, radix, upper);
        assert(ds == front.push(digit_char(n % radix, upper)));
        assert(ds.drop_last() == front);
        assert((n / radix) * radix == radix * (n / radix)) by (nonlinear_arith);
        assert(ds[0] == front[0]);
    }
}

/// Reading back what was written gives the number that was written.
pub proof fn law_written_number_reads_back(n: nat, radix: nat, upper: bool, max: nat)
    requires
        2 <= radix <= 36,
        n <= max,
    ensures
        unsigned_to(digits(n, radix, upper), radix, max) == Some(n),
{
    lemma_digits_number(n, radix, upper);
}

/// Zeros before a number leave it what it is.
pub proof fn law_padded_number_reads_back(n: nat, radix: nat, upper: bool, width: nat, max: nat)
    requires
        2 <= radix <= 36,
        n <= max,
    ensures
        unsigned_to(padded(n, radix, upper, width), radix, max) == Some(n),
{
    lemma_digits_number(n, radix, upper);
    let d = digits(n, radix, upper);
    if d.len() < width {
        let k = (width - d.len()) as nat;
        lemma_zeros_before(k, d, radix);
        let p = padded(n, radix, upper, width);
        assert(p[0] == '0');
        assert forall|i: int| 0 <= i < p.len() implies digit_of(#[trigger] p[i]) < radix by {
            if i >= k {
                assert(p[i] == d[i - k]);
            }
        }
    }
}

proof fn lemma_zeros_before(k: nat, d: Seq<char>, radix: nat)
    ensures
        number_of(Seq::new(k, |i: int| '0') + d, radix) == number_of(d, radix),
    decreases k + d.len(),
{
    let zeros = Seq::new(k, |i: int| '0');
    let all = zeros + d;
    if d.len() > 0 {
        lemma_zeros_before(k, d.drop_last(), radix);
        assert(all.drop_last() == zeros + d.drop_last());
        assert(all.last() == d.last());
    } else if k > 0 {
        lemma_zeros_before((k - 1) as nat, d, radix);
        assert(all.drop_last() == Seq::new((k - 1) as nat, |i: int| '0') + d);
        assert(all.last() == '0');
        assert(0 * radix == 0) by (nonlinear_arith);
    } else {
        assert(all == d);
    }
}

/// The digits of a radix have their usual values: the ten digits, then the
/// letters of either case.
pub proof fn law_digits_have_their_values(c: char)
    ensures
        '0' <= c && c <= '9' ==> digit_of(c) == c as u32 - '0' as u32,
        'a' <= c && c <= 'z' ==> digit_of(c) == c as u32 - 'a' as u32 + 10,
        'A' <= c && c <= 'Z' ==> digit_of(c) == c as u32 - 'A' as u32 + 10,
        c == '-' || c == '+' || c == ' ' || c == '.' || c == '_' ==> digit_of(c) >= 36,
{
}

/// One more digit makes a number the radix times as large, plus the digit.
pub proof fn law_number_grows_by_a_digit(s: Seq<char>, c: char, radix: nat)
    ensures
        number_of(s.push(c), radix) == number_of(s, radix) * radix + digit_of(c),
        number_of(Seq::<char>::empty(), radix) == 0,
{
    assert(s.push(c).drop_last() =~= s);
}

/// A sign before the digits changes nothing; no digits, or a character that is
/// no digit, is no number, and neither is one above the limit.
pub proof fn law_what_is_no_number(s: Seq<char>, radix: nat, max: nat, i: int)
    requires
        radix <= 36,
    ensures
        s.len() == 0 ==> unsigned_to(s, radix, max) is None,
        0 <= i < s.len() && digit_of(s[i]) >= radix && (i > 0 || s[0] != '+') ==> unsigned_to(
            s,
            radix,
            max,
        ) is None,
        s.len() > 0 && s[0] != '+' ==> unsigned_to(seq!['+'] + s, radix, max) == unsigned_to(
            s,
            radix,
            max,
        ),
        unsigned_to(s, radix, max) matches Some(n) ==> n <= max,
{
    if s.len() > 0 && s[0] != '+' {
        assert((seq!['+'] + s).skip(1) =~= s);
    }
    if 0 < i < s.len() && s[0] == '+' {
        assert(s.skip(1)[i - 1] == s[i]);
    }
}

/// A number is written with no zero in front, in the digits of the radix.
pub proof fn law_numbers_have_no_leading_zero(n: nat, radix: nat, upper: bool)
    requires
        2 <= radix <= 36,
    ensures
        n > 0 ==> digits(n, radix, upper)[0] != '0',
        n == 0 ==> digits(n, radix, upper) == seq!['0'],
        forall|i: int|
            0 <= i < digits(n, radix, upper).len() ==> !(#[trigger] digits(n, radix, upper)[i]
                >= 'a' && upper) && !('A' <= digits(n, radix, upper)[i] <= 'Z' && !upper),
    decreases n,
{
    if n >= radix {
        vstd::arithmetic::div_mod::lemma_div_decreases(n as int, radix as int);
        vstd::arithmetic::div_mod::lemma_fundamental_div_mod(n as int, radix as int);
        vstd::arithmetic::div_mod::lemma_mod_bound(n as int, radix as int);
        assert(n / radix > 0) by (nonlinear_arith)
            requires
                n >= radix,
                radix > 0,
        ;
        law_numbers_have_no_leading_zero(n / radix, radix, upper);
        lemma_digits_number(n / radix, radix, upper);
    }
}

/// A number that is shorter than its width gets zeros in front, and a negative
/// one a minus sign.
pub proof fn law_width_and_sign(n: nat, radix: nat, upper: bool, width: nat)
    ensures
        padded(n, radix, upper, width).len() >= width,
        padded(n, radix, upper, width).len() > width ==> padded(n, radix, upper, width) == digits(
            n,
            radix,
            upper,
        ),
        ({
            let shorter = padded(n, radix, upper, width).len() - digits(n, radix, upper).len();
            &&& shorter >= 0
            &&& padded(n, radix, upper, width).skip(shorter) == digits(n, radix, upper)
            &&& forall|i: int| 0 <= i < shorter ==> #[trigger] padded(n, radix, upper, width)[i] == '0'
        }),
        signed_decimal(n as int) == decimal(n),
        n > 0 ==> signed_decimal(-n) == seq!['-'] + decimal(n),
{
    let p = padded(n, radix, upper, width);
    let d = digits(n, radix, upper);
    assert(p.skip(p.len() - d.len()) =~= d);
}

/// A number is written in decimal with the ten digits alone.
pub proof fn law_decimal_has_digits_only(n: nat)
    ensures
        decimal(n).len() > 0,
        forall|i: int| 0 <= i < decimal(n).len() ==> '0' <= #[trigger] decimal(n)[i] <= '9',
{
    lemma_digits_number(n, 10, false);
    assert forall|i: int| 0 <= i < decimal(n).len() implies '0' <= #[trigger] decimal(n)[i]
        <= '9' by {
        assert(digit_of(decimal(n)[i]) < 10);
    }
}

} // verus!
