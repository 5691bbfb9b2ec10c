//! Characters and numbers in text: searching, slicing, decimal digits.

use vstd::prelude::*;
use vstd::string::*;

verus! {

/// Relies on std's `String::push`: appends one character.
#[verifier::external_body]
pub(crate) fn push_char(s: &mut String, c: char)
    ensures
        final(s)@ == old(s)@.push(c),
{
    s.push(c);
}

/// The characters of `s`.
pub fn chars_of(s: &str) -> (r: Vec<char>)
    ensures
        r@ == s@,
{
    let n = s.unicode_len();
    let mut v: Vec<char> = Vec::new();
    let mut i: usize = 0;
    while i < n
        invariant
            n == s@.len(),
            i <= n,
            v@ == s@.subrange(0, i as int),
        decreases n - i,
    {
        v.push(s.get_char(i));
        i += 1;
    }
    v
}

/// The characters `v[lo..hi]`.
pub fn slice_of(v: &Vec<char>, lo: usize, hi: usize) -> (r: Vec<char>)
    requires
        lo <= hi <= v@.len(),
    ensures
        r@ == v@.subrange(lo as int, hi as int),
{
    let mut r: Vec<char> = Vec::new();
    let mut i: usize = lo;
    while i < hi
        invariant
            lo <= i <= hi <= v@.len(),
            r@ == v@.subrange(lo as int, i as int),
        decreases hi - i,
    {
        r.push(v[i]);
        i += 1;
    }
    r
}

/// A string holding the characters `v`.
pub fn string_of(v: &Vec<char>) -> (r: String)
    ensures
        r@ == v@,
{
    let mut s = String::new();
    let mut i: usize = 0;
    while i < v.len()
        invariant
            i <= v@.len(),
            s@ == v@.subrange(0, i as int),
        decreases v@.len() - i,
    {
        push_char(&mut s, v[i]);
        i += 1;
    }
    s
}

/// Where `c` first stands in `s`; the length of `s` where it is absent.
pub open spec fn index_of(s: Seq<char>, c: char) -> int
    decreases s.len(),
{
    if s.len() == 0 {
        0
    } else if s[0] == c {
        0
    } else {
        1 + index_of(s.drop_first(), c)
    }
}

pub proof fn lemma_index_of(s: Seq<char>, c: char, i: int)
    requires
        0 <= i <= s.len(),
        i < s.len() ==> s[i] == c,
        forall|j: int| 0 <= j < i ==> s[j] != c,
    ensures
        index_of(s, c) == i,
    decreases s.len(),
{
    if s.len() > 0 && s[0] != c {
        assert forall|j: int| 0 <= j < i - 1 implies s.drop_first()[j] != c by {
            assert(s[j + 1] != c);
        }
        lemma_index_of(s.drop_first(), c, i - 1);
    }
}

/// Where `c` first stands in `v`, or the length of `v`.
pub fn find_char(v: &Vec<char>, c: char) -> (r: usize)
    ensures
        r == index_of(v@, c),
        r <= v@.len(),
{
    let mut i: usize = 0;
    while i < v.len() && v[i] != c
        invariant
            i <= v@.len(),
            forall|j: int| 0 <= j < i ==> v@[j] != c,
        decreases v@.len() - i,
    {
        i += 1;
    }
    proof {
        lemma_index_of(v@, c, i as int);
    }
    i
}

pub open spec fn is_digit(c: char) -> bool {
    '0' <= c <= '9'
}

pub open spec fn digit_value(c: char) -> nat {
    (c as u32 - '0' as u32) as nat
}

/// The number that the decimal digits `s` stand for.
pub open spec fn digits_value(s: Seq<char>) -> nat
    decreases s.len(),
{
    if s.len() == 0 {
        0
    } else {
        digits_value(s.drop_last()) * 10 + digit_value(s.last())
    }
}

/// How many decimal digits `s` starts with.
pub open spec fn digit_run(s: Seq<char>) -> int
    decreases s.len(),
{
    if s.len() == 0 || !is_digit(s[0]) {
        0
    } else {
        1 + digit_run(s.drop_first())
    }
}

/// Why a text is no number of the wanted type, as std's integer parsing says it.
#[derive(Debug, Clone, Copy, PartialEq, Eq, Structural)]
pub enum NumberError {
    Empty,
    InvalidDigit,
    PosOverflow,
    NegOverflow,
}

impl NumberError {
    pub fn to_string(&self) -> (r: String)
        ensures
            r@ == self.message(),
    {
        match self {
            NumberError::Empty => String::from_str("cannot parse integer from empty string"),
            NumberError::InvalidDigit => String::from_str("invalid digit found in string"),
            NumberError::PosOverflow => String::from_str("number too large to fit in target type"),
            NumberError::NegOverflow => String::from_str("number too small to fit in target type"),
        }
    }

    pub open spec fn message(&self) -> Seq<char> {
        match self {
            NumberError::Empty => "cannot parse integer from empty string"@,
            NumberError::InvalidDigit => "invalid digit found in string"@,
            NumberError::PosOverflow => "number too large to fit in target type"@,
            NumberError::NegOverflow => "number too small to fit in target type"@,
        }
    }
}

/// The digits of an unsigned number text: a leading `+` is dropped where more follows.
pub open spec fn unsigned_digits(t: Seq<char>) -> Seq<char> {
    if t.len() > 1 && t[0] == '+' {
        t.drop_first()
    } else {
        t
    }
}

/// Reading `t` as an unsigned number no greater than `max`, as std does: digits are
/// read from the left, and the first digit that overflows, or the first character
/// that is no digit, decides the error.
pub open spec fn unsigned_spec(t: Seq<char>, max: nat) -> Result<nat, NumberError> {
    let d = unsigned_digits(t);
    let k = digit_run(d);
    if t.len() == 0 {
        Err(NumberError::Empty)
    } else if digits_value(d.subrange(0, k)) > max {
        Err(NumberError::PosOverflow)
    } else if k < d.len() {
        Err(NumberError::InvalidDigit)
    } else {
        Ok(digits_value(d))
    }
}

/// Reading `t` as a signed number in `[-min_mag, max]`, as std does.
pub open spec fn signed_spec(t: Seq<char>, min_mag: nat, max: nat) -> Result<int, NumberError> {
    if t.len() > 1 && t[0] == '-' {
        let d = t.drop_first();
        let k = digit_run(d);
        if digits_value(d.subrange(0, k)) > min_mag {
            Err(NumberError::NegOverflow)
        } else if k < d.len() {
            Err(NumberError::InvalidDigit)
        } else {
            Ok(-(digits_value(d) as int))
        }
    } else {
        match unsigned_spec(t, max) {
            Ok(v) => Ok(v as int),
            Err(e) => Err(e),
        }
    }
}

proof fn lemma_digit_run(s: Seq<char>, i: int)
    requires
        0 <= i <= s.len(),
        forall|j: int| 0 <= j < i ==> is_digit(#[trigger] s[j]),
    ensures
        digit_run(s) >= i,
        i < s.len() && !is_digit(s[i]) ==> digit_run(s) == i,
        digit_run(s) <= s.len(),
    decreases s.len(),
{
    if s.len() > 0 && is_digit(s[0]) {
        assert forall|j: int| 0 <= j < i - 1 implies is_digit(#[trigger] s.drop_first()[j]) by {
            assert(is_digit(s[j + 1]));
        }
        if i > 0 {
            lemma_digit_run(s.drop_first(), i - 1);
        } else {
            lemma_digit_run(s.drop_first(), 0);
        }
    }
}

proof fn lemma_prefix_digits_le(s: Seq<char>, i: int, j: int)
    requires
        0 <= i <= j <= s.len(),
    ensures
        digits_value(s.subrange(0, i)) <= digits_value(s.subrange(0, j)),
    decreases j - i,
{
    if i < j {
        lemma_prefix_digits_le(s, i, j - 1);
        assert(s.subrange(0, j).drop_last() =~= s.subrange(0, j - 1));
    }
}

/// The digits `d[0..]` read up to the first non-digit, stopping with `None` as soon
/// as the value passes `max`; otherwise the run's length and value.
fn scan_digits(d: &Vec<char>, max: u64) -> (r: Option<(usize, u64)>)
    requires
        max >= 9,
    ensures
        r is None <==> digits_value(d@.subrange(0, digit_run(d@))) > max,
        r matches Some((k, v)) ==> k == digit_run(d@) && k <= d@.len() && v <= max && v == digits_value(
            d@.subrange(0, k as int),
        ),
{
    let mut i: usize = 0;
    let mut acc: u64 = 0;
    while i < d.len() && '0' <= d[i] && d[i] <= '9'
        invariant
            i <= d@.len(),
            forall|j: int| 0 <= j < i ==> is_digit(#[trigger] d@[j]),
            acc == digits_value(d@.subrange(0, i as int)),
            acc <= max,
            max >= 9,
        decreases d@.len() - i,
    {
        let digit = (d[i] as u32 - '0' as u32) as u64;
        assert(d@.subrange(0, i + 1).drop_last() =~= d@.subrange(0, i as int));
        if acc > (max - digit) / 10 {
            proof {
                let a = acc as int;
                let g = digit as int;
                assert(a * 10 + g > max) by (nonlinear_arith)
                    requires a > (max - g) / 10, 0 <= g <= max;
                assert forall|j: int| 0 <= j < i + 1 implies is_digit(#[trigger] d@[j]) by {}
                lemma_digit_run(d@, i + 1);
                lemma_prefix_digits_le(d@, i + 1, digit_run(d@));
            }
            return None;
        }
        proof {
            let a = acc as int;
            let g = digit as int;
            assert(a * 10 + g <= max) by (nonlinear_arith)
                requires a <= (max - g) / 10, 0 <= g;
        }
        acc = acc * 10 + digit;
        i += 1;
    }
    proof {
        lemma_digit_run(d@, i as int);
    }
    Some((i, acc))
}

/// Reads `t` as an unsigned number no greater than `max`.
pub fn parse_unsigned(t: &Vec<char>, max: u64) -> (r: Result<u64, NumberError>)
    requires
        max >= 9,
    ensures
        r matches Ok(v) ==> unsigned_spec(t@, max as nat) == Ok::<nat, NumberError>(v as nat) && v <= max,
        r matches Err(e) ==> unsigned_spec(t@, max as nat) == Err::<nat, NumberError>(e),
{
    if t.len() == 0 {
        return Err(NumberError::Empty);
    }
    let d = if t.len() > 1 && t[0] == '+' {
        slice_of(t, 1, t.len())
    } else {
        slice_of(t, 0, t.len())
    };
    assert(d@ == unsigned_digits(t@));
    match scan_digits(&d, max) {
        None => Err(NumberError::PosOverflow),
        Some((k, v)) => {
            if k < d.len() {
                Err(NumberError::InvalidDigit)
            } else {
                assert(d@.subrange(0, k as int) =~= d@);
                Ok(v)
            }
        },
    }
}

/// Reads `t` as an `i64`.
pub fn parse_i64(t: &Vec<char>) -> (r: Result<i64, NumberError>)
    ensures
        r matches Ok(v) ==> signed_spec(t@, 0x8000_0000_0000_0000, i64::MAX as nat) == Ok::<int, NumberError>(v as int),
        r matches Err(e) ==> signed_spec(t@, 0x8000_0000_0000_0000, i64::MAX as nat) == Err::<int, NumberError>(e),
{
    if t.len() > 1 && t[0] == '-' {
        let d = slice_of(t, 1, t.len());
        assert(d@ == t@.drop_first());
        match scan_digits(&d, 0x8000_0000_0000_0000u64) {
            None => Err(NumberError::NegOverflow),
            Some((k, v)) => {
                if k < d.len() {
                    Err(NumberError::InvalidDigit)
                } else {
                    assert(d@.subrange(0, k as int) =~= d@);
                    if v == 0x8000_0000_0000_0000u64 {
                        Ok(i64::MIN)
                    } else {
                        Ok(-(v as i64))
                    }
                }
            },
        }
    } else {
        match parse_unsigned(t, i64::MAX as u64) {
            Ok(v) => Ok(v as i64),
            Err(e) => Err(e),
        }
    }
}

/// The decimal digit for `d`.
pub open spec fn digit_char(d: nat) -> char {
    ('0' as u32 + d) as char
}

/// The decimal text of `n`, without leading zeros.
pub open spec fn decimal(n: nat) -> Seq<char>
    decreases n,
{
    if n < 10 {
        seq![digit_char(n)]
    } else {
        decimal(n / 10).push(digit_char(n % 10))
    }
}

/// The decimal text of a signed number.
pub open spec fn signed_decimal(n: int) -> Seq<char> {
    if n < 0 {
        seq!['-'] + decimal((-n) as nat)
    } else {
        decimal(n as nat)
    }
}

fn digit_of(d: u64) -> (r: char)
    requires
        d < 10,
    ensures
        r == digit_char(d as nat),
{
    let c = ('0' as u32 + d as u32) as u8 as char;
    c
}

/// Appends the decimal text of `n` to `s`.
pub fn push_decimal(s: &mut String, n: u64)
    ensures
        final(s)@ == old(s)@ + decimal(n as nat),
    decreases n,
{
    if n < 10 {
        push_char(s, digit_of(n));
        assert(old(s)@.push(digit_char(n as nat)) =~= old(s)@ + decimal(n as nat));
    } else {
        push_decimal(s, n / 10);
        push_char(s, digit_of(n % 10));
        assert(old(s)@ + decimal(n as nat) =~= old(s)@ + decimal((n / 10) as nat) + seq![digit_char((n % 10) as nat)]);
    }
}

/// Appends the decimal text of the signed `n` to `s`.
pub fn push_signed_decimal(s: &mut String, n: i64)
    ensures
        final(s)@ == old(s)@ + signed_decimal(n as int),
{
    if n < 0 {
        push_char(s, '-');
        let m: u64 = if n == i64::MIN {
            0x8000_0000_0000_0000u64
        } else {
            (-n) as u64
        };
        push_decimal(s, m);
        assert(old(s)@ + signed_decimal(n as int) =~= old(s)@.push('-') + decimal(m as nat));
    } else {
        push_decimal(s, n as u64);
    }
}

/// Decimal text is all digits, at least one, and reads back as its number.
pub proof fn lemma_decimal_reads_back(n: nat)
    ensures
        decimal(n).len() >= 1,
        forall|i: int| 0 <= i < decimal(n).len() ==> is_digit(#[trigger] decimal(n)[i]),
        digits_value(decimal(n)) == n,
        digit_run(decimal(n)) == decimal(n).len(),
    decreases n,
{
    let s = decimal(n);
    if n >= 10 {
        lemma_decimal_reads_back(n / 10);
        assert(s.drop_last() =~= decimal(n / 10));
        assert(s.last() == digit_char(n % 10));
        assert(digit_value(digit_char(n % 10)) == n % 10);
        assert(digits_value(s) == digits_value(s.drop_last()) * 10 + digit_value(s.last()));
        assert((n / 10) * 10 + n % 10 == n);
        assert forall|i: int| 0 <= i < s.len() implies is_digit(#[trigger] s[i]) by {
            if i < s.len() - 1 {
                assert(s[i] == decimal(n / 10)[i]);
            }
        }
    } else {
        assert(s.drop_last() =~= Seq::<char>::empty());
        assert(digit_value(digit_char(n)) == n);
        assert(digits_value(s) == digits_value(s.drop_last()) * 10 + digit_value(s.last()));
    }
    lemma_digit_run(s, s.len() as int);
}

/// An unsigned number written in decimal reads back as itself.
pub proof fn lemma_unsigned_reads_back(n: nat, max: nat)
    requires
        n <= max,
    ensures
        unsigned_spec(decimal(n), max) == Ok::<nat, NumberError>(n),
{
    lemma_decimal_reads_back(n);
    let d = decimal(n);
    assert(unsigned_digits(d) == d) by {
        assert(is_digit(d[0]));
    }
    assert(d.subrange(0, d.len() as int) =~= d);
}

/// A signed number written in decimal reads back as itself.
pub proof fn lemma_signed_reads_back(n: int, min_mag: nat, max: nat)
    requires
        -min_mag <= n <= max,
    ensures
        signed_spec(signed_decimal(n), min_mag, max) == Ok::<int, NumberError>(n),
{
    if n < 0 {
        let m = (-n) as nat;
        lemma_decimal_reads_back(m);
        let s = signed_decimal(n);
        assert(s.drop_first() =~= decimal(m));
        assert(decimal(m).subrange(0, decimal(m).len() as int) =~= decimal(m));
    } else {
        lemma_decimal_reads_back(n as nat);
        assert(is_digit(decimal(n as nat)[0]));
        lemma_unsigned_reads_back(n as nat, max);
    }
}

} // verus!
