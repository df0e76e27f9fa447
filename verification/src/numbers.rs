//! Decimal integers: parsing them as `str::parse` does, and writing them as
//! `Display` does.
use vstd::prelude::*;

verus! {

/// Why a decimal integer could not be read (the kinds of `ParseIntError`).
#[derive(Clone, Copy, Debug, PartialEq, Eq, Structural)]
pub enum IntErrorKind {
    /// The text was empty.
    Empty,
    /// A character that is not a decimal digit (or a lone sign).
    InvalidDigit,
    /// The value is above the type's maximum.
    PosOverflow,
    /// The value is below the type's minimum.
    NegOverflow,
}

/// How `ParseIntError` describes each kind.
pub open spec fn int_error_text(kind: IntErrorKind) -> Seq<char> {
    match kind {
        IntErrorKind::Empty => "cannot parse integer from empty string"@,
        IntErrorKind::InvalidDigit => "invalid digit found in string"@,
        IntErrorKind::PosOverflow => "number too large to fit in target type"@,
        IntErrorKind::NegOverflow => "number too small to fit in target type"@,
    }
}

impl IntErrorKind {
    /// The description of this kind of error.
    pub fn description(self) -> (r: &'static str)
        ensures
            r@ == int_error_text(self),
    {
        match self {
            IntErrorKind::Empty => "cannot parse integer from empty string",
            IntErrorKind::InvalidDigit => "invalid digit found in string",
            IntErrorKind::PosOverflow => "number too large to fit in target type",
            IntErrorKind::NegOverflow => "number too small to fit in target type",
        }
    }
}

pub open spec fn is_digit(c: char) -> bool {
    '0' <= c <= '9'
}

pub open spec fn digit_value(c: char) -> int {
    c as int - '0' as int
}

/// Reads the digits `d` left to right after the value `acc`, failing at the
/// first position that is not a digit or that leaves `lo..=hi`.
pub open spec fn fold_digits(d: Seq<char>, acc: int, negative: bool, lo: int, hi: int) -> Result<
    int,
    IntErrorKind,
>
    decreases d.len(),
{
    if d.len() == 0 {
        Ok(acc)
    } else if !is_digit(d[0]) {
        Err(IntErrorKind::InvalidDigit)
    } else {
        let next = if negative {
            acc * 10 - digit_value(d[0])
        } else {
            acc * 10 + digit_value(d[0])
        };
        if next > hi {
            Err(IntErrorKind::PosOverflow)
        } else if next < lo {
            Err(IntErrorKind::NegOverflow)
        } else {
            fold_digits(d.drop_first(), next, negative, lo, hi)
        }
    }
}

/// The value of the decimal text `s` in `lo..=hi`, as `str::parse` reads it:
/// an optional `+` (or `-` when `signed`), then one or more digits.
pub open spec fn parse_int(s: Seq<char>, signed: bool, lo: int, hi: int) -> Result<
    int,
    IntErrorKind,
> {
    if s.len() == 0 {
        Err(IntErrorKind::Empty)
    } else if s.len() == 1 && (s[0] == '+' || s[0] == '-') {
        Err(IntErrorKind::InvalidDigit)
    } else if s[0] == '+' {
        fold_digits(s.drop_first(), 0, false, lo, hi)
    } else if s[0] == '-' && signed {
        fold_digits(s.drop_first(), 0, true, lo, hi)
    } else {
        fold_digits(s, 0, false, lo, hi)
    }
}

pub proof fn lemma_fold_digits_range(d: Seq<char>, acc: int, negative: bool, lo: int, hi: int)
    requires
        lo <= acc <= hi,
    ensures
        fold_digits(d, acc, negative, lo, hi) matches Ok(v) ==> lo <= v <= hi,
    decreases d.len(),
{
    if d.len() > 0 && is_digit(d[0]) {
        let next = if negative {
            acc * 10 - digit_value(d[0])
        } else {
            acc * 10 + digit_value(d[0])
        };
        if lo <= next <= hi {
            lemma_fold_digits_range(d.drop_first(), next, negative, lo, hi);
        }
    }
}

/// Reads `v[start..]` as digits after `negative` sign, within `lo..=hi`.
fn fold_digits_exec(v: &[char], start: usize, negative: bool, lo: i128, hi: i128) -> (r: Result<
    i128,
    IntErrorKind,
>)
    requires
        start <= v@.len(),
        -0x1_0000_0000_0000_0000 <= lo <= 0 <= hi <= 0x1_0000_0000_0000_0000,
    ensures
        match r {
            Ok(x) => fold_digits(v@.skip(start as int), 0, negative, lo as int, hi as int) == Ok::<
                int,
                IntErrorKind,
            >(x as int),
            Err(e) => fold_digits(v@.skip(start as int), 0, negative, lo as int, hi as int) == Err::<
                int,
                IntErrorKind,
            >(e),
        },
{
    let mut acc: i128 = 0;
    let mut i = start;
    while i < v.len()
        invariant
            start <= i <= v@.len(),
            -0x1_0000_0000_0000_0000 <= lo <= 0 <= hi <= 0x1_0000_0000_0000_0000,
            lo <= acc <= hi,
            fold_digits(v@.skip(start as int), 0, negative, lo as int, hi as int) == fold_digits(
                v@.skip(i as int),
                acc as int,
                negative,
                lo as int,
                hi as int,
            ),
        decreases v@.len() - i,
    {
        let c = v[i];
        let ghost rest = v@.skip(i as int);
        assert(rest[0] == c);
        assert(rest.drop_first() =~= v@.skip(i + 1));
        if !('0' <= c && c <= '9') {
            return Err(IntErrorKind::InvalidDigit);
        }
        let d = (c as u32 - '0' as u32) as i128;
        let next = if negative {
            acc * 10 - d
        } else {
            acc * 10 + d
        };
        if next > hi {
            return Err(IntErrorKind::PosOverflow);
        }
        if next < lo {
            return Err(IntErrorKind::NegOverflow);
        }
        acc = next;
        i += 1;
    }
    assert(v@.skip(i as int).len() == 0);
    Ok(acc)
}

/// Reads `v` as an integer in `lo..=hi`, as `str::parse` does.
fn parse_int_exec(v: &[char], signed: bool, lo: i128, hi: i128) -> (r: Result<i128, IntErrorKind>)
    requires
        -0x1_0000_0000_0000_0000 <= lo <= 0 <= hi <= 0x1_0000_0000_0000_0000,
    ensures
        match r {
            Ok(x) => parse_int(v@, signed, lo as int, hi as int) == Ok::<int, IntErrorKind>(
                x as int,
            ) && lo <= x <= hi,
            Err(e) => parse_int(v@, signed, lo as int, hi as int) == Err::<int, IntErrorKind>(e),
        },
{
    if v.len() == 0 {
        return Err(IntErrorKind::Empty);
    }
    if v.len() == 1 && (v[0] == '+' || v[0] == '-') {
        return Err(IntErrorKind::InvalidDigit);
    }
    let r = if v[0] == '+' {
        assert(v@.skip(1) =~= v@.drop_first());
        fold_digits_exec(v, 1, false, lo, hi)
    } else if v[0] == '-' && signed {
        assert(v@.skip(1) =~= v@.drop_first());
        fold_digits_exec(v, 1, true, lo, hi)
    } else {
        assert(v@.skip(0) =~= v@);
        fold_digits_exec(v, 0, false, lo, hi)
    };
    proof {
        lemma_fold_digits_range(v@.drop_first(), 0, v@[0] == '-' && signed, lo as int, hi as int);
        lemma_fold_digits_range(v@, 0, false, lo as int, hi as int);
    }
    r
}

/// `v` read as a `u64` (`str::parse::<u64>`).
pub fn parse_u64(v: &[char]) -> (r: Result<u64, IntErrorKind>)
    ensures
        match r {
            Ok(x) => parse_int(v@, false, 0, u64::MAX as int) == Ok::<int, IntErrorKind>(x as int),
            Err(e) => parse_int(v@, false, 0, u64::MAX as int) == Err::<int, IntErrorKind>(e),
        },
{
    match parse_int_exec(v, false, 0, 0xffff_ffff_ffff_ffff) {
        Ok(x) => Ok(x as u64),
        Err(e) => Err(e),
    }
}

/// `v` read as a `usize` (`str::parse::<usize>`).
pub fn parse_usize(v: &[char]) -> (r: Result<usize, IntErrorKind>)
    ensures
        match r {
            Ok(x) => parse_int(v@, false, 0, usize::MAX as int) == Ok::<int, IntErrorKind>(x as int),
            Err(e) => parse_int(v@, false, 0, usize::MAX as int) == Err::<int, IntErrorKind>(e),
        },
{
    match parse_int_exec(v, false, 0, usize::MAX as i128) {
        Ok(x) => Ok(x as usize),
        Err(e) => Err(e),
    }
}

/// `v` read as an `i64` (`str::parse::<i64>`).
pub fn parse_i64(v: &[char]) -> (r: Result<i64, IntErrorKind>)
    ensures
        match r {
            Ok(x) => parse_int(v@, true, i64::MIN as int, i64::MAX as int) == Ok::<
                int,
                IntErrorKind,
            >(x as int),
            Err(e) => parse_int(v@, true, i64::MIN as int, i64::MAX as int) == Err::<
                int,
                IntErrorKind,
            >(e),
        },
{
    match parse_int_exec(v, true, i64::MIN as i128, i64::MAX as i128) {
        Ok(x) => Ok(x as i64),
        Err(e) => Err(e),
    }
}

/// `v` read as an `i32` (`str::parse::<i32>`).
pub fn parse_i32(v: &[char]) -> (r: Result<i32, IntErrorKind>)
    ensures
        match r {
            Ok(x) => parse_int(v@, true, i32::MIN as int, i32::MAX as int) == Ok::<
                int,
                IntErrorKind,
            >(x as int),
            Err(e) => parse_int(v@, true, i32::MIN as int, i32::MAX as int) == Err::<
                int,
                IntErrorKind,
            >(e),
        },
{
    match parse_int_exec(v, true, i32::MIN as i128, i32::MAX as i128) {
        Ok(x) => Ok(x as i32),
        Err(e) => Err(e),
    }
}

// ---------------------------------------------------------------------------
// Writing numbers
// ---------------------------------------------------------------------------

pub open spec fn digit_char(d: int) -> char {
    if d == 0 {
        '0'
    } else if d == 1 {
        '1'
    } else if d == 2 {
        '2'
    } else if d == 3 {
        '3'
    } else if d == 4 {
        '4'
    } else if d == 5 {
        '5'
    } else if d == 6 {
        '6'
    } else if d == 7 {
        '7'
    } else if d == 8 {
        '8'
    } else {
        '9'
    }
}

/// The decimal digits of `n`, most significant first, without leading zeros.
pub open spec fn decimal(n: nat) -> Seq<char>
    decreases n,
{
    if n < 10 {
        seq![digit_char(n as int)]
    } else {
        decimal(n / 10).push(digit_char((n % 10) as int))
    }
}

/// `n` as `Display` writes it: a `-` before the digits of a negative number.
pub open spec fn signed_decimal(n: int) -> Seq<char> {
    if n < 0 {
        seq!['-'] + decimal((-n) as nat)
    } else {
        decimal(n as nat)
    }
}

fn digit_to_char(d: u64) -> (c: char)
    requires
        d < 10,
    ensures
        c == digit_char(d as int),
{
    if d == 0 {
        '0'
    } else if d == 1 {
        '1'
    } else if d == 2 {
        '2'
    } else if d == 3 {
        '3'
    } else if d == 4 {
        '4'
    } else if d == 5 {
        '5'
    } else if d == 6 {
        '6'
    } else if d == 7 {
        '7'
    } else if d == 8 {
        '8'
    } else {
        '9'
    }
}

/// Appends the decimal digits of `n` to `out`.
pub fn push_decimal(out: &mut Vec<char>, n: u64)
    ensures
        final(out)@ == old(out)@ + decimal(n as nat),
    decreases n,
{
    if n >= 10 {
        push_decimal(out, n / 10);
    }
    out.push(digit_to_char(n % 10));
    proof {
        if n >= 10 {
            assert(old(out)@ + decimal(n as nat) =~= old(out)@ + decimal((n / 10) as nat) + seq![
                digit_char((n % 10) as int),
            ]);
        } else {
            assert(old(out)@ + decimal(n as nat) =~= old(out)@ + seq![digit_char(n as int)]);
        }
    }
}

/// The decimal text of `n`.
pub fn u64_to_chars(n: u64) -> (r: Vec<char>)
    ensures
        r@ == decimal(n as nat),
{
    let mut out: Vec<char> = Vec::new();
    push_decimal(&mut out, n);
    assert(out@ =~= decimal(n as nat));
    out
}

/// The decimal text of `n`, with a `-` when it is negative.
pub fn i64_to_chars(n: i64) -> (r: Vec<char>)
    ensures
        r@ == signed_decimal(n as int),
{
    let mut out: Vec<char> = Vec::new();
    if n < 0 {
        out.push('-');
        let magnitude = (-(n as i128)) as u64;
        push_decimal(&mut out, magnitude);
    } else {
        push_decimal(&mut out, n as u64);
        assert(out@ =~= decimal(n as nat));
    }
    out
}

// ---------------------------------------------------------------------------
// Reading back what was written
// ---------------------------------------------------------------------------

/// Reading one more digit after `s`.
pub proof fn lemma_fold_digits_push(s: Seq<char>, c: char, acc: int, lo: int, hi: int)
    requires
        lo <= 0 <= hi,
    ensures
        fold_digits(s.push(c), acc, false, lo, hi) == (match fold_digits(s, acc, false, lo, hi) {
            Err(e) => Err(e),
            Ok(v) => fold_digits(seq![c], v, false, lo, hi),
        }),
    decreases s.len(),
{
    if s.len() > 0 {
        assert(s.push(c).drop_first() =~= s.drop_first().push(c));
        assert(s.push(c)[0] == s[0]);
        if is_digit(s[0]) {
            let next = acc * 10 + digit_value(s[0]);
            if lo <= next <= hi {
                lemma_fold_digits_push(s.drop_first(), c, next, lo, hi);
            }
        }
    } else {
        assert(s.push(c) =~= seq![c]);
    }
}

pub proof fn lemma_decimal_digits(n: nat)
    ensures
        decimal(n).len() > 0,
        forall|i: int| 0 <= i < decimal(n).len() ==> is_digit(#[trigger] decimal(n)[i]),
    decreases n,
{
    if n >= 10 {
        lemma_decimal_digits(n / 10);
    }
}

pub proof fn lemma_digit_char_value(d: int)
    requires
        0 <= d < 10,
    ensures
        is_digit(digit_char(d)),
        digit_value(digit_char(d)) == d,
{
}

/// The digits of `n` read back give `n`.
pub proof fn lemma_fold_decimal(n: nat, hi: int)
    requires
        n <= hi,
    ensures
        fold_digits(decimal(n), 0, false, 0, hi) == Ok::<int, IntErrorKind>(n as int),
    decreases n,
{
    if n < 10 {
        lemma_digit_char_value(n as int);
        let d = decimal(n);
        assert(d =~= seq![digit_char(n as int)]);
        assert(d.drop_first() =~= Seq::<char>::empty());
        assert(fold_digits(d.drop_first(), n as int, false, 0, hi) == Ok::<int, IntErrorKind>(
            n as int,
        ));
    } else {
        let q = n / 10;
        let r = (n % 10) as int;
        assert(q * 10 + r == n);
        lemma_fold_decimal(q, hi);
        lemma_digit_char_value(r);
        let c = digit_char(r);
        lemma_fold_digits_push(decimal(q), c, 0, 0, hi);
        assert(decimal(n) == decimal(q).push(c));
        assert(seq![c].drop_first() =~= Seq::<char>::empty());
        assert(fold_digits(seq![c].drop_first(), n as int, false, 0, hi) == Ok::<
            int,
            IntErrorKind,
        >(n as int));
        assert(fold_digits(seq![c], q as int, false, 0, hi) == Ok::<int, IntErrorKind>(
            n as int,
        ));
    }
}

/// Writing a `u64` in decimal and reading it back gives it again: ids kept
/// as text are read back unchanged.
pub proof fn lemma_u64_text_round_trip(n: u64)
    ensures
        parse_int(decimal(n as nat), false, 0, u64::MAX as int) == Ok::<int, IntErrorKind>(
            n as int,
        ),
{
    lemma_decimal_digits(n as nat);
    lemma_fold_decimal(n as nat, u64::MAX as int);
    let d = decimal(n as nat);
    assert(is_digit(d[0]));
}

} // verus!
