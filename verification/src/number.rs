//! Decimal numbers as text.
use vstd::prelude::*;
use vstd::string::StringExecFns;
use crate::text::{chars_of, push_char};

verus! {

/// A decimal digit.
pub open spec fn is_digit(c: char) -> bool {
    '0' <= c <= '9'
}

/// The digit that stands for `d`, which is below ten.
pub open spec fn digit_char(d: nat) -> char {
    (48 + d) as char
}

/// The number that the digit `c` stands for.
pub open spec fn digit_value(c: char) -> nat {
    (c as int - 48) as nat
}

/// The number that the decimal digits `ds` write.
pub open spec fn decimal(ds: Seq<char>) -> nat
    decreases ds.len(),
{
    if ds.len() == 0 {
        0
    } else {
        decimal(ds.drop_last()) * 10 + digit_value(ds.last())
    }
}

/// The decimal digits that write `n`, without leading zeros.
pub open spec fn digits_of(n: nat) -> Seq<char>
    decreases n,
{
    if n < 10 {
        seq![digit_char(n)]
    } else {
        digits_of(n / 10).push(digit_char(n % 10))
    }
}

/// What is written by [`digits_of`] reads back as the same number.
pub proof fn digits_read_back(n: nat)
    ensures
        decimal(digits_of(n)) == n,
        digits_of(n).len() > 0,
        forall|i: int| 0 <= i < digits_of(n).len() ==> is_digit(#[trigger] digits_of(n)[i]),
    decreases n,
{
    if n < 10 {
        assert(decimal(digits_of(n).drop_last()) == 0);
    } else {
        digits_read_back(n / 10);
        assert(digits_of(n).drop_last() == digits_of(n / 10));
    }
}

fn digit(d: usize) -> (c: char)
    requires
        d < 10,
    ensures
        c == digit_char(d as nat),
{
    if d == 0 {
        '0'
    } else if d == 1 {
        '1'
    } else if d == 2 {
        '2'
    } else if d == 3 {
        '3'
    } else if d == 4 {
        '4'
    } else if d == 5 {
        '5'
    } else if d == 6 {
        '6'
    } else if d == 7 {
        '7'
    } else if d == 8 {
        '8'
    } else {
        '9'
    }
}

/// Appends the decimal digits of `n` to `s`.
pub fn push_decimal(s: &mut String, n: usize)
    ensures
        final(s)@ == old(s)@ + digits_of(n as nat),
    decreases n,
{
    if n >= 10 {
        push_decimal(s, n / 10);
    }
    push_char(s, digit(n % 10));
}

/// Why a text is not a number of the type asked for.
#[derive(Clone, Copy, Debug, PartialEq, Eq, Structural)]
pub enum NumberError {
    Empty,
    InvalidDigit,
    TooLarge,
    TooSmall,
}

impl NumberError {
    /// The error in words.
    pub open spec fn text(self) -> Seq<char> {
        match self {
            NumberError::Empty => "cannot parse integer from empty string"@,
            NumberError::InvalidDigit => "invalid digit found in string"@,
            NumberError::TooLarge => "number too large to fit in target type"@,
            NumberError::TooSmall => "number too small to fit in target type"@,
        }
    }

    /// Computes [`NumberError::text`].
    pub fn message(self) -> (m: String)
        ensures
            m@ == self.text(),
    {
        match self {
            NumberError::Empty => String::from_str("cannot parse integer from empty string"),
            NumberError::InvalidDigit => String::from_str("invalid digit found in string"),
            NumberError::TooLarge => String::from_str("number too large to fit in target type"),
            NumberError::TooSmall => String::from_str("number too small to fit in target type"),
        }
    }
}

/// How many digits stand at the start of `ds[i..]`.
pub open spec fn digits_len(ds: Seq<char>, i: int) -> nat
    decreases ds.len() - i,
{
    if i < 0 || i >= ds.len() || !is_digit(ds[i]) {
        0
    } else {
        1 + digits_len(ds, i + 1)
    }
}

/// The number up to `max` that `ds` writes. Read from the left, the first
/// thing amiss decides: a digit that takes the number over `max`, or a
/// character that is no digit.
pub open spec fn magnitude(ds: Seq<char>, max: nat) -> Result<nat, NumberError> {
    let p = digits_len(ds, 0) as int;
    if ds.len() == 0 {
        Err(NumberError::InvalidDigit)
    } else if decimal(ds.take(p)) > max {
        Err(NumberError::TooLarge)
    } else if p < ds.len() {
        Err(NumberError::InvalidDigit)
    } else {
        Ok(decimal(ds))
    }
}

/// The number from 0 to `max` that `s` writes: digits, with `+` before
/// them or not.
pub open spec fn unsigned_of(s: Seq<char>, max: nat) -> Result<nat, NumberError> {
    if s.len() == 0 {
        Err(NumberError::Empty)
    } else if s[0] == '+' {
        magnitude(s.skip(1), max)
    } else {
        magnitude(s, max)
    }
}

/// The number from `-below` to `max` that `s` writes: digits, with `+` or
/// `-` before them or not.
pub open spec fn signed_of(s: Seq<char>, below: nat, max: nat) -> Result<int, NumberError> {
    if s.len() == 0 {
        Err(NumberError::Empty)
    } else if s[0] == '-' {
        match magnitude(s.skip(1), below) {
            Ok(v) => Ok(-(v as int)),
            Err(NumberError::TooLarge) => Err(NumberError::TooSmall),
            Err(e) => Err(e),
        }
    } else if s[0] == '+' {
        match magnitude(s.skip(1), max) {
            Ok(v) => Ok(v as int),
            Err(e) => Err(e),
        }
    } else {
        match magnitude(s, max) {
            Ok(v) => Ok(v as int),
            Err(e) => Err(e),
        }
    }
}

proof fn decimal_grows(ds: Seq<char>, i: int, j: int)
    requires
        0 <= i <= j <= ds.len(),
    ensures
        decimal(ds.take(i)) <= decimal(ds.take(j)),
    decreases j - i,
{
    if i < j {
        decimal_grows(ds, i, j - 1);
        assert(ds.take(j).drop_last() == ds.take(j - 1));
    }
}

proof fn digits_len_split(ds: Seq<char>, i: int)
    requires
        0 <= i <= ds.len(),
        forall|k: int| 0 <= k < i ==> is_digit(#[trigger] ds[k]),
    ensures
        digits_len(ds, 0) == i + digits_len(ds, i),
    decreases i,
{
    if i > 0 {
        digits_len_split(ds, i - 1);
    }
}

proof fn digits_len_fits(ds: Seq<char>, i: int)
    requires
        0 <= i <= ds.len(),
    ensures
        i + digits_len(ds, i) <= ds.len(),
    decreases ds.len() - i,
{
    if i < ds.len() && is_digit(ds[i]) {
        digits_len_fits(ds, i + 1);
    }
}

/// What is written by [`digits_of`] is read by [`unsigned_of`] as the
/// same number, as long as that is within the limit.
pub proof fn written_number_reads_back(n: nat, max: nat)
    requires
        n <= max,
    ensures
        unsigned_of(digits_of(n), max) == Ok::<nat, NumberError>(n),
{
    let ds = digits_of(n);
    digits_read_back(n);
    digits_len_split(ds, ds.len() as int);
    assert(ds.take(ds.len() as int) == ds);
}

fn digit_of(c: char) -> (d: Option<u64>)
    ensures
        match d {
            Some(v) => is_digit(c) && v == digit_value(c),
            None => !is_digit(c),
        },
{
    if c == '0' {
        Some(0)
    } else if c == '1' {
        Some(1)
    } else if c == '2' {
        Some(2)
    } else if c == '3' {
        Some(3)
    } else if c == '4' {
        Some(4)
    } else if c == '5' {
        Some(5)
    } else if c == '6' {
        Some(6)
    } else if c == '7' {
        Some(7)
    } else if c == '8' {
        Some(8)
    } else if c == '9' {
        Some(9)
    } else {
        None
    }
}

/// Reads `s[from..]` as a number up to `max`.
fn read_magnitude(s: &Vec<char>, from: usize, max: u64) -> (r: Result<u64, NumberError>)
    requires
        from <= s.len(),
    ensures
        match r {
            Ok(v) => v <= max && magnitude(s@.skip(from as int), max as nat) == Ok::<
                nat,
                NumberError,
            >(v as nat),
            Err(e) => magnitude(s@.skip(from as int), max as nat) == Err::<nat, NumberError>(e),
        },
{
    let ghost ds = s@.skip(from as int);
    if from == s.len() {
        return Err(NumberError::InvalidDigit);
    }
    let mut acc: u64 = 0;
    let mut i: usize = from;
    while i < s.len()
        invariant
            from <= i <= s.len(),
            ds == s@.skip(from as int),
            ds.len() > 0,
            acc == decimal(ds.take(i - from)),
            acc <= max,
            forall|k: int| 0 <= k < i - from ==> is_digit(#[trigger] ds[k]),
        decreases s.len() - i,
    {
        proof {
            digits_len_split(ds, i - from);
            digits_len_fits(ds, i - from);
            assert(ds.take(i - from + 1).drop_last() == ds.take(i - from));
        }
        match digit_of(s[i]) {
            Some(d) => {
                let next: u128 = (acc as u128) * 10 + (d as u128);
                if next > max as u128 {
                    proof {
                        digits_len_fits(ds, i - from + 1);
                        decimal_grows(ds, i - from + 1, digits_len(ds, 0) as int);
                    }
                    return Err(NumberError::TooLarge);
                }
                acc = next as u64;
            },
            None => {
                return Err(NumberError::InvalidDigit);
            },
        }
        i = i + 1;
    }
    proof {
        digits_len_split(ds, ds.len() as int);
        assert(ds.take(ds.len() as int) == ds);
    }
    Ok(acc)
}

/// Reads `s` as a `usize`.
pub fn parse_usize(s: &str) -> (r: Result<usize, NumberError>)
    ensures
        match r {
            Ok(v) => unsigned_of(s@, usize::MAX as nat) == Ok::<nat, NumberError>(v as nat),
            Err(e) => unsigned_of(s@, usize::MAX as nat) == Err::<nat, NumberError>(e),
        },
{
    let v = chars_of(s);
    if v.len() == 0 {
        return Err(NumberError::Empty);
    }
    let from: usize = if v[0] == '+' {
        1
    } else {
        0
    };
    assert(v@.skip(0) == v@);
    match read_magnitude(&v, from, usize::MAX as u64) {
        Ok(n) => Ok(n as usize),
        Err(e) => Err(e),
    }
}

/// Reads `s` as an `i32`.
pub fn parse_i32(s: &str) -> (r: Result<i32, NumberError>)
    ensures
        match r {
            Ok(v) => signed_of(s@, 0x8000_0000, 0x7fff_ffff) == Ok::<int, NumberError>(v as int),
            Err(e) => signed_of(s@, 0x8000_0000, 0x7fff_ffff) == Err::<int, NumberError>(e),
        },
{
    let v = chars_of(s);
    if v.len() == 0 {
        return Err(NumberError::Empty);
    }
    assert(v@.skip(0) == v@);
    if v[0] == '-' {
        match read_magnitude(&v, 1, 0x8000_0000) {
            Ok(n) => Ok((0 - n as i64) as i32),
            Err(NumberError::TooLarge) => Err(NumberError::TooSmall),
            Err(e) => Err(e),
        }
    } else {
        let from: usize = if v[0] == '+' {
            1
        } else {
            0
        };
        match read_magnitude(&v, from, 0x7fff_ffff) {
            Ok(n) => Ok(n as i32),
            Err(e) => Err(e),
        }
    }
}

} // verus!
