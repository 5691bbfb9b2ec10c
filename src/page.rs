//! Page-based listing: the page that a `Range: page=<num>-<per>` header asks
//! for, its record bounds, and the `Content-Range` header of the answer.

use crate::text::{
    chars_of, decimal, find_char, index_of, is_digit, lemma_decimal_reads_back, lemma_index_of,
    lemma_signed_reads_back, lemma_unsigned_reads_back, parse_i64, parse_unsigned, push_char,
    push_decimal, push_signed_decimal, signed_decimal, signed_spec, slice_of, string_of,
    unsigned_spec, NumberError,
};
use vstd::prelude::*;
use vstd::string::*;

verus! {

/// A page of a listing: `num` counts from 1, `per` records to a page.
#[derive(Debug, Clone, Copy, PartialEq, Eq, Structural)]
pub struct Page {
    pub num: u32,
    pub per: u16,
}

/// A page together with the number of records in the whole listing.
#[derive(Debug, Clone, Copy, PartialEq, Eq, Structural)]
pub struct Pagination {
    pub page: Page,
    pub total: i64,
}

pub const DEFAULT_NUM: u32 = 1;

pub const DEFAULT_PER: u16 = 20;

/// Index of the first record of `p` (zero-based); a page number below 1 counts as 1.
pub open spec fn start_spec(p: Page) -> int {
    let num: int = if p.num < 1 { 1 } else { p.num as int };
    (num - 1) * p.per
}

/// Index of the last record of `p` (zero-based, inclusive).
pub open spec fn stop_spec(p: Page) -> int {
    start_spec(p) + p.per - 1
}

/// The pagination of `p` over `total` records: where `p` ends past the total, the
/// page number becomes that of the last page, `total / per + 1`.
pub open spec fn pagination_spec(p: Page, total: int) -> Pagination {
    if stop_spec(p) > total {
        Pagination { page: Page { num: (total / (p.per as int) + 1) as u32, per: p.per }, total: total as i64 }
    } else {
        Pagination { page: p, total: total as i64 }
    }
}

impl Page {
    /// Index of the page's first record in the listing.
    pub fn start(&self) -> (r: i64)
        ensures
            r == start_spec(*self),
    {
        let num: u32 = if self.num < 1 { 1 } else { self.num };
        assert(0 <= (num as i64 - 1) * (self.per as i64) <= 0xffff_ffff * 0xffff) by (nonlinear_arith)
            requires 0 <= num as i64 - 1 < 0xffff_ffff, 0 <= self.per <= 0xffff;
        (num as i64 - 1) * self.per as i64
    }

    /// Index of the page's last record in the listing (inclusive).
    pub fn stop(&self) -> (r: i64)
        ensures
            r == stop_spec(*self),
    {
        proof {
            let num: int = if self.num < 1 { 1 } else { self.num as int };
            assert((num - 1) * (self.per as int) <= 0xffff_ffff * 0xffff) by (nonlinear_arith)
                requires 0 <= num - 1 < 0xffff_ffff, self.per <= 0xffff;
        }
        self.start() + self.per as i64 - 1
    }

    /// The pagination of this page over `total` records. The count and the fetch
    /// are separate store calls, so a total that changed between them moves the
    /// page number too.
    pub fn to_pagination(&self, total: i64) -> (r: Pagination)
        requires
            0 <= total,
            self.per == 0 || (total as int) / (self.per as int) < u32::MAX,
        ensures
            r == pagination_spec(*self, total as int),
    {
        let mut page = *self;
        if self.stop() > total {
            proof {
                let num: int = if self.num < 1 { 1 } else { self.num as int };
                if self.per == 0 {
                    assert((num - 1) * (self.per as int) == 0) by (nonlinear_arith)
                        requires self.per == 0;
                }
            }
            page.num = (total / self.per as i64) as u32 + 1;
        }
        Pagination { page, total }
    }

    /// The page that a request asks for: the default page where it has no `Range`
    /// header, else what the header's value reads as.
    pub fn from_range_header(header: Option<&str>) -> (r: Result<Page, RangeError>)
        ensures
            header is None ==> r == Ok::<Page, RangeError>(Page { num: DEFAULT_NUM, per: DEFAULT_PER }),
            header matches Some(h) ==> range_view(r) == range_spec(h@),
    {
        match header {
            None => Ok(Page::default()),
            Some(h) => parse_range(h),
        }
    }
}

impl Default for Page {
    fn default() -> (r: Page)
        ensures
            r == (Page { num: DEFAULT_NUM, per: DEFAULT_PER }),
    {
        Page { num: DEFAULT_NUM, per: DEFAULT_PER }
    }
}

/// Why a range or content-range header was refused.
#[derive(Debug, Clone)]
pub enum RangeError {
    /// A part that the grammar needs is missing.
    Invalid,
    /// The unit is not `page`; holds the unit given.
    InvalidType(String),
    /// More than one range was given; holds the second.
    ExtraRange(String),
    /// A number did not read.
    Number(NumberError),
}

/// What a `RangeError` says, with its texts as characters.
pub enum RangeFailure {
    Invalid,
    InvalidType(Seq<char>),
    ExtraRange(Seq<char>),
    Number(NumberError),
}

impl View for RangeError {
    type V = RangeFailure;

    open spec fn view(&self) -> RangeFailure {
        match self {
            RangeError::Invalid => RangeFailure::Invalid,
            RangeError::InvalidType(t) => RangeFailure::InvalidType(t@),
            RangeError::ExtraRange(t) => RangeFailure::ExtraRange(t@),
            RangeError::Number(e) => RangeFailure::Number(*e),
        }
    }
}

impl RangeFailure {
    pub open spec fn message(self) -> Seq<char> {
        match self {
            RangeFailure::Invalid => "Invalid range"@,
            RangeFailure::InvalidType(t) => "Invalid range type: "@ + t,
            RangeFailure::ExtraRange(t) => "Extra invalid range: "@ + t,
            RangeFailure::Number(e) => e.message(),
        }
    }
}

impl RangeError {
    /// The error's message.
    pub fn to_string(&self) -> (r: String)
        ensures
            r@ == self@.message(),
    {
        match self {
            RangeError::Invalid => String::from_str("Invalid range"),
            RangeError::InvalidType(t) => {
                let mut s = String::from_str("Invalid range type: ");
                s.append(t.as_str());
                s
            },
            RangeError::ExtraRange(t) => {
                let mut s = String::from_str("Extra invalid range: ");
                s.append(t.as_str());
                s
            },
            RangeError::Number(e) => e.to_string(),
        }
    }
}

pub open spec fn range_view<T>(r: Result<T, RangeError>) -> Result<T, RangeFailure> {
    match r {
        Ok(v) => Ok(v),
        Err(e) => Err(e@),
    }
}

/// The unit that ranges are counted in.
pub open spec fn page_unit() -> Seq<char> {
    seq!['p', 'a', 'g', 'e']
}

/// A number part of a range: the default where the part is empty.
pub open spec fn part_or(t: Seq<char>, default: nat, max: nat) -> Result<nat, NumberError> {
    if t.len() == 0 {
        Ok(default)
    } else {
        unsigned_spec(t, max)
    }
}

/// What a `Range` header value reads as: `page=<num>-<per>`, a single range, either
/// number optional (1 and 20 where absent).
pub open spec fn range_spec(h: Seq<char>) -> Result<Page, RangeFailure> {
    let eq = index_of(h, '=');
    let unit = h.subrange(0, eq);
    if unit != page_unit() {
        Err(RangeFailure::InvalidType(unit))
    } else if eq == h.len() {
        Err(RangeFailure::Invalid)
    } else {
        let rest = h.subrange(eq + 1, h.len() as int);
        let comma = index_of(rest, ',');
        if comma < rest.len() {
            let tail = rest.subrange(comma + 1, rest.len() as int);
            Err(RangeFailure::ExtraRange(tail.subrange(0, index_of(tail, ','))))
        } else {
            let dash = index_of(rest, '-');
            let num_text = rest.subrange(0, dash);
            let per_text = if dash < rest.len() {
                rest.subrange(dash + 1, rest.len() as int)
            } else {
                Seq::empty()
            };
            match part_or(num_text, DEFAULT_NUM as nat, u32::MAX as nat) {
                Err(e) => Err(RangeFailure::Number(e)),
                Ok(num) => match part_or(per_text, DEFAULT_PER as nat, u16::MAX as nat) {
                    Err(e) => Err(RangeFailure::Number(e)),
                    Ok(per) => Ok(Page { num: num as u32, per: per as u16 }),
                },
            }
        }
    }
}

fn is_page_unit(v: &Vec<char>) -> (r: bool)
    ensures
        r == (v@ == page_unit()),
{
    let r = v.len() == 4 && v[0] == 'p' && v[1] == 'a' && v[2] == 'g' && v[3] == 'e';
    if r {
        assert(v@ =~= page_unit());
    }
    r
}

fn number_part(t: &Vec<char>, default: u64, max: u64) -> (r: Result<u64, NumberError>)
    requires
        max >= 9,
        default <= max,
    ensures
        r matches Ok(v) ==> part_or(t@, default as nat, max as nat) == Ok::<nat, NumberError>(v as nat) && v <= max,
        r matches Err(e) ==> part_or(t@, default as nat, max as nat) == Err::<nat, NumberError>(e),
{
    if t.len() == 0 {
        Ok(default)
    } else {
        parse_unsigned(t, max)
    }
}

/// Reads a `Range` header value.
pub fn parse_range(range: &str) -> (r: Result<Page, RangeError>)
    ensures
        range_view(r) == range_spec(range@),
{
    let h = chars_of(range);
    let eq = find_char(&h, '=');
    let unit = slice_of(&h, 0, eq);
    if !is_page_unit(&unit) {
        return Err(RangeError::InvalidType(string_of(&unit)));
    }
    if eq == h.len() {
        return Err(RangeError::Invalid);
    }
    let rest = slice_of(&h, eq + 1, h.len());
    let comma = find_char(&rest, ',');
    if comma < rest.len() {
        let tail = slice_of(&rest, comma + 1, rest.len());
        let end = find_char(&tail, ',');
        return Err(RangeError::ExtraRange(string_of(&slice_of(&tail, 0, end))));
    }
    let dash = find_char(&rest, '-');
    let num_text = slice_of(&rest, 0, dash);
    let per_text = if dash < rest.len() {
        slice_of(&rest, dash + 1, rest.len())
    } else {
        Vec::new()
    };
    assert(per_text@ == (if dash < rest@.len() {
        rest@.subrange(dash + 1, rest@.len() as int)
    } else {
        Seq::<char>::empty()
    }));
    let num = match number_part(&num_text, DEFAULT_NUM as u64, u32::MAX as u64) {
        Ok(v) => v as u32,
        Err(e) => {
            return Err(RangeError::Number(e));
        },
    };
    let per = match number_part(&per_text, DEFAULT_PER as u64, u16::MAX as u64) {
        Ok(v) => v as u16,
        Err(e) => {
            return Err(RangeError::Number(e));
        },
    };
    Ok(Page { num, per })
}

/// What a `Content-Range` header value reads as: `page <num>-<per>/<total>`. The
/// number of the page and the total must be there; `per` is 20 where absent.
pub open spec fn content_range_spec(h: Seq<char>) -> Result<Pagination, RangeFailure> {
    let sp = index_of(h, ' ');
    let unit = h.subrange(0, sp);
    if unit != page_unit() {
        Err(RangeFailure::InvalidType(unit))
    } else if sp == h.len() {
        Err(RangeFailure::Invalid)
    } else {
        let rest = h.subrange(sp + 1, h.len() as int);
        let slash = index_of(rest, '/');
        let range = rest.subrange(0, slash);
        let dash = index_of(range, '-');
        match unsigned_spec(range.subrange(0, dash), u32::MAX as nat) {
            Err(e) => Err(RangeFailure::Number(e)),
            Ok(num) => {
                let per_read = if dash < range.len() {
                    let after = range.subrange(dash + 1, range.len() as int);
                    unsigned_spec(after.subrange(0, index_of(after, '-')), u16::MAX as nat)
                } else {
                    Ok(DEFAULT_PER as nat)
                };
                match per_read {
                    Err(e) => Err(RangeFailure::Number(e)),
                    Ok(per) => if slash == rest.len() {
                        Err(RangeFailure::Invalid)
                    } else {
                        let after = rest.subrange(slash + 1, rest.len() as int);
                        match signed_spec(after.subrange(0, index_of(after, '/')), 0x8000_0000_0000_0000, i64::MAX as nat) {
                            Err(e) => Err(RangeFailure::Number(e)),
                            Ok(total) => Ok(Pagination { page: Page { num: num as u32, per: per as u16 }, total: total as i64 }),
                        }
                    },
                }
            },
        }
    }
}

/// Reads a `Content-Range` header value, as a consumer of a listing does.
pub fn parse_pagination(header_value: &str) -> (r: Result<Pagination, RangeError>)
    ensures
        range_view(r) == content_range_spec(header_value@),
{
    let h = chars_of(header_value);
    let sp = find_char(&h, ' ');
    let unit = slice_of(&h, 0, sp);
    if !is_page_unit(&unit) {
        return Err(RangeError::InvalidType(string_of(&unit)));
    }
    if sp == h.len() {
        return Err(RangeError::Invalid);
    }
    let rest = slice_of(&h, sp + 1, h.len());
    let slash = find_char(&rest, '/');
    let range = slice_of(&rest, 0, slash);
    let dash = find_char(&range, '-');
    let num = match parse_unsigned(&slice_of(&range, 0, dash), u32::MAX as u64) {
        Ok(v) => v as u32,
        Err(e) => {
            return Err(RangeError::Number(e));
        },
    };
    let per: u16 = if dash < range.len() {
        let after = slice_of(&range, dash + 1, range.len());
        let end = find_char(&after, '-');
        match parse_unsigned(&slice_of(&after, 0, end), u16::MAX as u64) {
            Ok(v) => v as u16,
            Err(e) => {
                return Err(RangeError::Number(e));
            },
        }
    } else {
        DEFAULT_PER
    };
    if slash == rest.len() {
        return Err(RangeError::Invalid);
    }
    let after = slice_of(&rest, slash + 1, rest.len());
    let end = find_char(&after, '/');
    match parse_i64(&slice_of(&after, 0, end)) {
        Ok(total) => Ok(Pagination { page: Page { num, per }, total }),
        Err(e) => Err(RangeError::Number(e)),
    }
}

/// The value of the `Accept-Ranges` header of a listing.
pub const ACCEPT_RANGES: &'static str = "page";

/// The text of a `Content-Range` header value.
pub open spec fn content_range_text(p: Pagination) -> Seq<char> {
    page_unit().push(' ') + decimal(p.page.num as nat) + seq!['-'] + decimal(p.page.per as nat) + seq!['/']
        + signed_decimal(p.total as int)
}

impl Pagination {
    /// The `Content-Range` header value of this pagination: `page <num>-<per>/<total>`.
    pub fn content_range(&self) -> (r: String)
        ensures
            r@ == content_range_text(*self),
    {
        let mut s = String::new();
        push_char(&mut s, 'p');
        push_char(&mut s, 'a');
        push_char(&mut s, 'g');
        push_char(&mut s, 'e');
        push_char(&mut s, ' ');
        push_decimal(&mut s, self.page.num as u64);
        push_char(&mut s, '-');
        push_decimal(&mut s, self.page.per as u64);
        push_char(&mut s, '/');
        push_signed_decimal(&mut s, self.total);
        assert(s@ =~= content_range_text(*self));
        s
    }
}

/// A consumer reads back exactly the pagination that a listing wrote in its
/// `Content-Range` header.
pub proof fn lemma_content_range_round_trip(p: Pagination)
    ensures
        content_range_spec(content_range_text(p)) == Ok::<Pagination, RangeFailure>(p),
{
    let n = decimal(p.page.num as nat);
    let q = decimal(p.page.per as nat);
    let t = signed_decimal(p.total as int);
    lemma_decimal_reads_back(p.page.num as nat);
    lemma_decimal_reads_back(p.page.per as nat);
    lemma_unsigned_reads_back(p.page.num as nat, u32::MAX as nat);
    lemma_unsigned_reads_back(p.page.per as nat, u16::MAX as nat);
    lemma_signed_reads_back(p.total as int, 0x8000_0000_0000_0000, i64::MAX as nat);
    let m: nat = if p.total < 0 { (-p.total) as nat } else { p.total as nat };
    lemma_decimal_reads_back(m);
    assert forall|i: int| 0 <= i < t.len() implies t[i] != '/' by {
        if p.total < 0 {
            if i > 0 {
                assert(t[i] == decimal(m)[i - 1]);
                assert(is_digit(decimal(m)[i - 1]));
            }
        } else {
            assert(is_digit(decimal(m)[i]));
        }
    }
    let h = content_range_text(p);
    let rest = n + seq!['-'] + q + seq!['/'] + t;
    assert(h =~= page_unit() + seq![' '] + rest);
    lemma_index_of(h, ' ', 4);
    assert(h.subrange(0, 4) =~= page_unit());
    assert(h.subrange(5, h.len() as int) =~= rest);
    let slash: int = n.len() as int + 1 + q.len() as int;
    assert forall|j: int| 0 <= j < slash implies rest[j] != '/' by {
        if j < n.len() {
            assert(is_digit(n[j]));
        } else if j > n.len() {
            assert(is_digit(q[j - n.len() - 1]));
        }
    }
    lemma_index_of(rest, '/', slash);
    let range = n + seq!['-'] + q;
    assert(rest.subrange(0, slash) =~= range);
    assert forall|j: int| 0 <= j < n.len() implies range[j] != '-' by {
        assert(is_digit(n[j]));
    }
    lemma_index_of(range, '-', n.len() as int);
    assert(range.subrange(0, n.len() as int) =~= n);
    assert(range.subrange(n.len() + 1int, range.len() as int) =~= q);
    assert forall|j: int| 0 <= j < q.len() implies q[j] != '-' by {
        assert(is_digit(q[j]));
    }
    lemma_index_of(q, '-', q.len() as int);
    assert(q.subrange(0, q.len() as int) =~= q);
    assert(rest.subrange(slash + 1, rest.len() as int) =~= t);
    lemma_index_of(t, '/', t.len() as int);
    assert(t.subrange(0, t.len() as int) =~= t);
}

} // verus!
