//! Identifiers: milliseconds since a fixed epoch, written as a short base-32
//! string of the identifier's magnitude.

use crate::clock::{local_instant, Clock, Timestamp};
use vstd::prelude::*;

verus! {

/// The 32 symbols of the identifier alphabet, in order of their 5-bit value.
pub const ALPHABET: &'static str = "234567abcdefghijklmnopqrstuvwxyz";

/// What data-encoding writes for `data` with a plain (unpadded, most significant
/// bit first) encoding over `symbols`; `None` where `symbols` make no encoding.
pub uninterp spec fn base32_of(symbols: Seq<char>, data: Seq<u8>) -> Option<Seq<char>>;

/// Thirty-two ASCII symbols, each one above the one before it (so no two alike).
pub open spec fn ascending_ascii_32(symbols: Seq<char>) -> bool {
    &&& symbols.len() == 32
    &&& forall|i: int| 0 <= i < 32 ==> (#[trigger] symbols[i] as u32) < 128
    &&& forall|i: int, j: int| 0 <= i < j < 32 ==> (symbols[i] as u32) < (symbols[j] as u32)
}

/// Relies on data_encoding's `Specification::new`, `Specification::encoding` and
/// `Encoding::encode`: the encoding exists for 32 distinct ASCII symbols, and its
/// output depends on the symbols and the data alone.
#[verifier::external_body]
fn base32_encode(symbols: &str, data: &[u8]) -> (r: Option<String>)
    requires
        data@.len() <= 8,
    ensures
        r matches Some(s) ==> base32_of(symbols@, data@) == Some(s@),
        r is None ==> base32_of(symbols@, data@) is None,
        ascending_ascii_32(symbols@) ==> r is Some,
{
    let mut spec = data_encoding::Specification::new();
    spec.symbols.push_str(symbols);
    match spec.encoding() {
        Ok(encoding) => Some(encoding.encode(data)),
        Err(_) => None,
    }
}

/// Relies on data_encoding's `Specification::new`, `Specification::encoding` and
/// `Encoding::decode`. Its documentation states that decoding what was encoded gives
/// the data back, and that a canonical encoding (trailing bits checked, no padding,
/// nothing ignored or translated, as here) decodes only what it can encode.
#[verifier::external_body]
fn base32_decode(symbols: &str, text: &str) -> (r: Option<Vec<u8>>)
    ensures
        r matches Some(v) ==> base32_of(symbols@, v@) == Some(text@),
        r matches Some(v) ==> forall|b: Seq<u8>| #[trigger] base32_of(symbols@, b) == Some(text@) ==> b == v@,
        r is None ==> forall|b: Seq<u8>| #[trigger] base32_of(symbols@, b) != Some(text@),
{
    let mut spec = data_encoding::Specification::new();
    spec.symbols.push_str(symbols);
    match spec.encoding() {
        Ok(encoding) => match encoding.decode(text.as_bytes()) {
            Ok(bytes) => Some(bytes),
            Err(_) => None,
        },
        Err(_) => None,
    }
}

/// The identifier alphabet makes an encoding.
proof fn lemma_alphabet_usable()
    ensures
        ascending_ascii_32(ALPHABET@),
{
    reveal_strlit("234567abcdefghijklmnopqrstuvwxyz");
    let s = ALPHABET@;
    assert forall|i: int| 0 <= i < 32 implies (#[trigger] s[i] as u32) < 128 && (s[i] as u32) == code_of(i) by {
        assert(i == 0 || i == 1 || i == 2 || i == 3 || i == 4 || i == 5 || i == 6 || i == 7 || i == 8 || i == 9
            || i == 10 || i == 11 || i == 12 || i == 13 || i == 14 || i == 15 || i == 16 || i == 17 || i == 18
            || i == 19 || i == 20 || i == 21 || i == 22 || i == 23 || i == 24 || i == 25 || i == 26 || i == 27
            || i == 28 || i == 29 || i == 30 || i == 31);
    }
    assert forall|i: int, j: int| 0 <= i < j < 32 implies (s[i] as u32) < (s[j] as u32) by {
        assert((s[i] as u32) == code_of(i));
        assert((s[j] as u32) == code_of(j));
    }
}

/// The code of the alphabet's symbol for value `i`: `2` to `7`, then `a` to `z`.
spec fn code_of(i: int) -> int {
    if i < 6 { 50 + i } else { 91 + i }
}

/// Big-endian bytes of `n` with no leading zero byte; zero is the single byte 0.
pub open spec fn be_bytes(n: nat) -> Seq<u8>
    decreases n,
{
    if n < 256 {
        seq![n as u8]
    } else {
        be_bytes(n / 256).push((n % 256) as u8)
    }
}

/// The number that the big-endian bytes `b` stand for.
pub open spec fn be_value(b: Seq<u8>) -> nat
    decreases b.len(),
{
    if b.len() == 0 {
        0
    } else {
        be_value(b.drop_last()) * 256 + b.last() as nat
    }
}

/// The magnitude of `n`, whose bytes the identifier text encodes (the sign is dropped).
pub open spec fn magnitude(n: i64) -> nat {
    if n < 0 { (-n) as nat } else { n as nat }
}

/// 256 to the power `k`.
pub open spec fn pow256(k: nat) -> nat
    decreases k,
{
    if k == 0 { 1 } else { 256 * pow256((k - 1) as nat) }
}

/// The text of identifier value `n`.
pub open spec fn identifier_text(n: i64) -> Option<Seq<char>> {
    base32_of(ALPHABET@, be_bytes(magnitude(n)))
}

/// `r` is what reading `text` gives. Where exactly one byte string encodes to
/// `text` and its value fits in an `i64`, that value; otherwise nothing.
pub open spec fn reads_as(text: Seq<char>, r: Option<Identifier>) -> bool {
    match r {
        Some(id) => exists|b: Seq<u8>|
            #![trigger base32_of(ALPHABET@, b)]
            base32_of(ALPHABET@, b) == Some(text) && be_value(b) == id.0 && (forall|c: Seq<u8>|
                #[trigger] base32_of(ALPHABET@, c) == Some(text) ==> c == b),
        None => forall|b: Seq<u8>| #[trigger] base32_of(ALPHABET@, b) == Some(text) ==> be_value(b) > i64::MAX,
    }
}

proof fn lemma_be_value_of_bytes(n: nat)
    ensures
        be_value(be_bytes(n)) == n,
    decreases n,
{
    let s = be_bytes(n);
    if n >= 256 {
        lemma_be_value_of_bytes(n / 256);
        assert(s.drop_last() =~= be_bytes(n / 256));
        assert(s.last() as nat == n % 256);
        assert(be_value(s) == be_value(s.drop_last()) * 256 + s.last() as nat);
        assert((n / 256) * 256 + n % 256 == n);
    } else {
        assert(s.drop_last() =~= Seq::<u8>::empty());
        assert(be_value(s.drop_last()) == 0);
        assert(s.last() as nat == n);
    }
}

proof fn lemma_be_bytes_len(n: nat, k: nat)
    requires
        1 <= k,
        n < pow256(k),
    ensures
        1 <= be_bytes(n).len() <= k,
    decreases n,
{
    if n >= 256 {
        assert(k >= 2) by {
            if k == 1 {
                assert(pow256(1) == 256 * pow256(0));
            }
        }
        assert(n / 256 < pow256((k - 1) as nat)) by {
            assert(pow256(k) == 256 * pow256((k - 1) as nat));
            assert(n / 256 < pow256((k - 1) as nat)) by (nonlinear_arith)
                requires n < 256 * pow256((k - 1) as nat);
        }
        lemma_be_bytes_len(n / 256, (k - 1) as nat);
    }
}

proof fn lemma_prefix_value_le(s: Seq<u8>, i: int)
    requires
        0 <= i <= s.len(),
    ensures
        be_value(s.subrange(0, i)) <= be_value(s),
    decreases s.len(),
{
    if i < s.len() {
        lemma_prefix_value_le(s.drop_last(), i);
        assert(s.drop_last().subrange(0, i) =~= s.subrange(0, i));
    } else {
        assert(s.subrange(0, i) =~= s);
    }
}

/// Big-endian bytes of `m` without leading zero bytes.
fn be_bytes_of(m: u64) -> (r: Vec<u8>)
    ensures
        r@ == be_bytes(m as nat),
    decreases m,
{
    if m < 256 {
        let mut v: Vec<u8> = Vec::new();
        v.push(m as u8);
        v
    } else {
        let mut v = be_bytes_of(m / 256);
        v.push((m % 256) as u8);
        v
    }
}

/// The value of big-endian bytes, where it fits in an `i64`.
fn be_value_of(b: &[u8]) -> (r: Option<i64>)
    ensures
        r matches Some(v) ==> v as int == be_value(b@),
        r is None ==> be_value(b@) > i64::MAX,
{
    let mut acc: u64 = 0;
    let mut i: usize = 0;
    while i < b.len()
        invariant
            0 <= i <= b@.len(),
            acc as int == be_value(b@.subrange(0, i as int)),
            acc <= i64::MAX,
        decreases b@.len() - i,
    {
        let byte = b[i];
        assert(b@.subrange(0, i + 1).drop_last() =~= b@.subrange(0, i as int));
        if acc > (i64::MAX as u64 - byte as u64) / 256 {
            proof {
                let a = acc as int;
                let d = byte as int;
                assert(a * 256 + d > i64::MAX) by (nonlinear_arith)
                    requires a > (i64::MAX - d) / 256, 0 <= d < 256;
                lemma_prefix_value_le(b@, i + 1);
            }
            return None;
        }
        proof {
            let a = acc as int;
            let d = byte as int;
            assert(a * 256 + d <= i64::MAX) by (nonlinear_arith)
                requires a <= (i64::MAX - d) / 256, 0 <= d < 256;
        }
        acc = acc * 256 + byte as u64;
        i += 1;
    }
    assert(b@.subrange(0, b@.len() as int) =~= b@);
    Some(acc as i64)
}

/// The wall-clock time, in the machine's time zone, from which identifiers count.
pub const EPOCH_YEAR: i32 = 2023;
pub const EPOCH_MONTH: u32 = 4;
pub const EPOCH_DAY: u32 = 12;
pub const EPOCH_HOUR: u32 = 12;
pub const EPOCH_MINUTE: u32 = 43;
pub const EPOCH_SECOND: u32 = 56;

/// The instant of the epoch on this machine, if its time zone has that wall-clock time.
pub fn epoch() -> Option<Timestamp> {
    local_instant(EPOCH_YEAR, EPOCH_MONTH, EPOCH_DAY, EPOCH_HOUR, EPOCH_MINUTE, EPOCH_SECOND)
}

/// The milliseconds from `epoch` to `now`, where they fit in an `i64`.
pub open spec fn elapsed_spec(now: Timestamp, epoch: Timestamp) -> Option<Identifier> {
    let d = now.millis - epoch.millis;
    if i64::MIN <= d <= i64::MAX {
        Some(Identifier(d as i64))
    } else {
        None
    }
}

/// A record together with its identifier.
#[derive(Debug, Clone)]
pub struct ID<T> {
    pub id: Identifier,
    pub entity: T,
}

/// A record identifier: milliseconds between the epoch and the record's creation.
#[derive(Debug, Clone, Copy, PartialEq, Eq, Structural)]
pub struct Identifier(pub i64);

impl Identifier {
    /// The identifier of a record created at `now`, counted from `epoch`.
    pub fn elapsed(now: Timestamp, epoch: Timestamp) -> (r: Option<Identifier>)
        ensures
            r == elapsed_spec(now, epoch),
    {
        match now.millis.checked_sub(epoch.millis) {
            Some(d) => Some(Identifier(d)),
            None => None,
        }
    }

    /// The identifier of a record created now by `clock`. `None` where the machine's
    /// time zone has no epoch or the milliseconds do not fit in an `i64`.
    pub fn new(clock: &Clock) -> (r: Option<Identifier>)
        ensures
            clock matches Clock::FixedClock(f) ==> (r matches Some(id) ==> exists|e: Timestamp|
                elapsed_spec(f.time, e) == Some(id)),
    {
        let now = clock.now();
        match epoch() {
            Some(e) => Identifier::elapsed(now, e),
            None => None,
        }
    }

    /// The identifier's integer value.
    pub fn value(&self) -> (r: i64)
        ensures
            r == self.0,
    {
        self.0
    }

    /// The identifier's text: its magnitude's big-endian bytes in base 32. Texts of
    /// different lengths do not sort in the order of their values.
    pub fn to_string(&self) -> (r: String)
        ensures
            identifier_text(self.0) == Some(r@),
    {
        let m: u64 = if self.0 < 0 {
            if self.0 == i64::MIN {
                0x8000_0000_0000_0000u64
            } else {
                (-self.0) as u64
            }
        } else {
            self.0 as u64
        };
        let bytes = be_bytes_of(m);
        proof {
            reveal_with_fuel(pow256, 9);
            assert(pow256(8) == 0x1_0000_0000_0000_0000);
            lemma_be_bytes_len(m as nat, 8);
            lemma_alphabet_usable();
        }
        match base32_encode(ALPHABET, bytes.as_slice()) {
            Some(s) => s,
            // Not reached: the alphabet makes an encoding (see lemma_alphabet_usable).
            None => String::new(),
        }
    }

    /// The identifier that `text` stands for; `None` where `text` is no output of
    /// the encoding or its value does not fit in an `i64`.
    pub fn from_text(text: &str) -> (r: Option<Identifier>)
        ensures
            reads_as(text@, r),
    {
        match base32_decode(ALPHABET, text) {
            Some(bytes) => match be_value_of(bytes.as_slice()) {
                Some(v) => {
                    let r = Some(Identifier(v));
                    assert(reads_as(text@, r)) by {
                        assert(base32_of(ALPHABET@, bytes@) == Some(text@));
                    }
                    r
                },
                None => None,
            },
            None => None,
        }
    }
}

impl From<i64> for Identifier {
    fn from(id: i64) -> (r: Identifier) {
        Identifier(id)
    }
}

impl vstd::std_specs::convert::FromSpecImpl<i64> for Identifier {
    open spec fn obeys_from_spec() -> bool {
        true
    }

    open spec fn from_spec(id: i64) -> Identifier {
        Identifier(id)
    }
}

/// Reading the text of an identifier gives the identifier of its magnitude, and
/// the text of that identifier is the same text: encoding and decoding agree on
/// every identifier whose magnitude fits in an `i64`.
pub proof fn lemma_codec_round_trip(n: i64, text: Seq<char>, back: Option<Identifier>)
    requires
        n > i64::MIN,
        identifier_text(n) == Some(text),
        reads_as(text, back),
    ensures
        back == Some(Identifier(magnitude(n) as i64)),
        identifier_text(magnitude(n) as i64) == Some(text),
{
    let b = be_bytes(magnitude(n));
    assert(base32_of(ALPHABET@, b) == Some(text));
    lemma_be_value_of_bytes(magnitude(n));
    assert(magnitude(magnitude(n) as i64) == magnitude(n));
}

/// Reading the text of a non-negative identifier gives the identifier back.
pub proof fn lemma_decode_encode(n: i64, text: Seq<char>, back: Option<Identifier>)
    requires
        0 <= n,
        identifier_text(n) == Some(text),
        reads_as(text, back),
    ensures
        back == Some(Identifier(n)),
{
    lemma_codec_round_trip(n, text, back);
}

} // verus!
