//! The driver record and its rules: validation, status and type transitions,
//! merging an input onto a stored record, and the fee a driver earns.

use crate::clock::{local_rfc3339, Clock, Timestamp};
use crate::money::{trunc_div, Money};
use crate::text::{decimal, push_decimal, push_signed_decimal};
use vstd::prelude::*;
use vstd::string::*;

verus! {

/// Keys of a driver's extra attributes.
#[derive(Debug, Clone, Copy, PartialEq, Eq, Structural, Hash)]
pub enum Attribute {
    PenaltyPoints,
    Nationality,
    YearsOfExperience,
    MedicalExaminationExpirationDate,
    MedicalExaminationRemarks,
    Email,
    Birthplace,
    CompanyName,
}

#[derive(Debug, Clone, Copy, PartialEq, Eq, Structural)]
pub enum Status {
    Active,
    Inactive,
}

impl Default for Status {
    fn default() -> (r: Status)
        ensures
            r == Status::Inactive,
    {
        Status::Inactive
    }
}

#[derive(Debug, Clone, Copy, PartialEq, Eq, Structural)]
pub enum Type {
    Candidate,
    Regular,
}

impl Default for Type {
    fn default() -> (r: Type)
        ensures
            r == Type::Candidate,
    {
        Type::Candidate
    }
}

/// How the company's share of a transit price is reckoned.
#[derive(Debug, Clone, Copy, PartialEq, Eq, Structural)]
pub enum FeeType {
    /// A fixed amount in minor units.
    Flat,
    /// Hundredths of a percent of the price.
    Percentage,
}

impl FeeType {
    /// The fee type as JSON writes it: `"flat"` or `"percentage"`, quotes included.
    pub fn to_string(&self) -> (r: String)
        ensures
            r@ == self.text(),
    {
        match self {
            FeeType::Flat => String::from_str("\"flat\""),
            FeeType::Percentage => String::from_str("\"percentage\""),
        }
    }

    pub open spec fn text(&self) -> Seq<char> {
        match self {
            FeeType::Flat => "\"flat\""@,
            FeeType::Percentage => "\"percentage\""@,
        }
    }
}

/// A driver's fee policy: the company's share, and the least the driver keeps.
#[derive(Debug, Clone, Copy, PartialEq, Eq, Structural)]
pub struct Fee {
    pub kind: FeeType,
    pub amount: usize,
    pub min: Option<usize>,
}

pub const DEFAULT_FEE_AMOUNT: usize = 200;

pub const MAX_PERCENTAGE: usize = 10000;

impl Default for Fee {
    fn default() -> (r: Fee)
        ensures
            r == default_fee(),
    {
        Fee { kind: FeeType::Percentage, amount: DEFAULT_FEE_AMOUNT, min: None }
    }
}

/// Two percent of the price.
pub open spec fn default_fee() -> Fee {
    Fee { kind: FeeType::Percentage, amount: DEFAULT_FEE_AMOUNT, min: None }
}

/// The policy that applies: the driver's own, or the default.
pub open spec fn policy_of(fee: Option<Fee>) -> Fee {
    match fee {
        Some(f) => f,
        None => default_fee(),
    }
}

/// The company's share of `price`: `price * amount / 10000` (toward zero) for a
/// percentage, `amount` for a flat fee.
pub open spec fn company_share(policy: Fee, price: int) -> int {
    match policy.kind {
        FeeType::Percentage => trunc_div(price * policy.amount, 10000),
        FeeType::Flat => policy.amount as int,
    }
}

/// What the driver keeps of `price`: the price less the company's share, but no
/// less than the floor where a minimum is set. The floor is the minimum, or the
/// whole price where the price is below the minimum.
pub open spec fn driver_fee(policy: Fee, price: int) -> int {
    let fee = price - company_share(policy, price);
    match policy.min {
        Some(min) => {
            let floor = if price - min < 0 { price } else { min as int };
            if fee < floor { floor } else { fee }
        },
        None => fee,
    }
}

/// The driver's fee on `price` is an amount that `Money` can hold.
pub open spec fn fee_fits(fee: Option<Fee>, price: int) -> bool {
    i64::MIN <= driver_fee(policy_of(fee), price) <= i64::MAX
}

impl Fee {
    /// The driver's fee on `price`, computed wide enough that nothing overflows.
    fn driver_fee_wide(&self, price: i64) -> (r: i128)
        ensures
            r == driver_fee(*self, price as int),
    {
        let p = price as i128;
        let share: i128 = match self.kind {
            FeeType::Percentage => {
                let a = self.amount as i128;
                let m: i128 = if p >= 0 { p } else { -p };
                assert(0 <= m * a <= 0x8000_0000_0000_0000 * 0xffff_ffff_ffff_ffff) by (nonlinear_arith)
                    requires 0 <= m <= 0x8000_0000_0000_0000, 0 <= a <= 0xffff_ffff_ffff_ffff;
                let q = m * a / 10000;
                assert(p >= 0 ==> p * a == m * a);
                assert(p < 0 ==> p * a == -(m * a)) by (nonlinear_arith)
                    requires p < 0 ==> m == -p;
                if p >= 0 { q } else { -q }
            },
            FeeType::Flat => self.amount as i128,
        };
        let fee = p - share;
        match self.min {
            Some(min) => {
                let floor: i128 = if p - (min as i128) < 0 { p } else { min as i128 };
                if fee < floor { floor } else { fee }
            },
            None => fee,
        }
    }

    /// Checks the policy: a flat fee must be positive and at least its minimum; a
    /// percentage may not pass 100.00%.
    pub fn validate(&self) -> (r: Result<(), Error>)
        ensures
            error_view(r) == fee_check(*self),
    {
        match self.kind {
            FeeType::Flat => {
                if self.amount == 0 {
                    return Err(Error::InvalidFeeAmount(self.amount, self.kind));
                }
                match self.min {
                    Some(min) => if min > self.amount {
                        return Err(Error::InvalidFeeMin(min, self.kind));
                    },
                    None => {},
                }
            },
            FeeType::Percentage => {
                if self.amount > MAX_PERCENTAGE {
                    return Err(Error::InvalidFeeAmount(self.amount, self.kind));
                }
            },
        }
        Ok(())
    }
}

/// What checking a fee policy gives.
pub open spec fn fee_check(f: Fee) -> Result<(), Fault> {
    match f.kind {
        FeeType::Flat => if f.amount == 0 {
            Err(Fault::InvalidFeeAmount(f.amount, f.kind))
        } else if f.min matches Some(min) && min > f.amount {
            Err(Fault::InvalidFeeMin(f.min.unwrap(), f.kind))
        } else {
            Ok(())
        },
        FeeType::Percentage => if f.amount > MAX_PERCENTAGE {
            Err(Fault::InvalidFeeAmount(f.amount, f.kind))
        } else {
            Ok(())
        },
    }
}

/// Why an input was refused.
#[derive(Debug, Clone)]
pub enum Error {
    InvalidName(String),
    InvalidSurname(String),
    InvalidLicense(String),
    InvalidFeeAmount(usize, FeeType),
    InvalidFeeMin(usize, FeeType),
}

/// What an `Error` says, with its texts as characters.
pub enum Fault {
    InvalidName(Seq<char>),
    InvalidSurname(Seq<char>),
    InvalidLicense(Seq<char>),
    InvalidFeeAmount(usize, FeeType),
    InvalidFeeMin(usize, FeeType),
}

impl View for Error {
    type V = Fault;

    open spec fn view(&self) -> Fault {
        match self {
            Error::InvalidName(t) => Fault::InvalidName(t@),
            Error::InvalidSurname(t) => Fault::InvalidSurname(t@),
            Error::InvalidLicense(t) => Fault::InvalidLicense(t@),
            Error::InvalidFeeAmount(a, k) => Fault::InvalidFeeAmount(*a, *k),
            Error::InvalidFeeMin(a, k) => Fault::InvalidFeeMin(*a, *k),
        }
    }
}

pub open spec fn error_view<T>(r: Result<T, Error>) -> Result<T, Fault> {
    match r {
        Ok(v) => Ok(v),
        Err(e) => Err(e@),
    }
}

impl Fault {
    pub open spec fn message(self) -> Seq<char> {
        match self {
            Fault::InvalidName(t) => "Invalid name: "@ + t,
            Fault::InvalidSurname(t) => "Invalid surname: "@ + t,
            Fault::InvalidLicense(t) => "Invalid license: "@ + t,
            Fault::InvalidFeeAmount(a, k) => "Invalid fee amount: "@ + decimal(a as nat) + " for type "@ + k.text(),
            Fault::InvalidFeeMin(m, k) => "Invalid fee minimum: "@ + decimal(m as nat) + " for type "@ + k.text(),
        }
    }
}

impl Error {
    /// The error's message.
    pub fn to_string(&self) -> (r: String)
        ensures
            r@ == self@.message(),
    {
        match self {
            Error::InvalidName(t) => String::from_str("Invalid name: ").concat(t.as_str()),
            Error::InvalidSurname(t) => String::from_str("Invalid surname: ").concat(t.as_str()),
            Error::InvalidLicense(t) => String::from_str("Invalid license: ").concat(t.as_str()),
            Error::InvalidFeeAmount(a, k) => {
                let mut s = String::from_str("Invalid fee amount: ");
                push_decimal(&mut s, *a as u64);
                s.append(" for type ");
                s.concat(k.to_string().as_str())
            },
            Error::InvalidFeeMin(m, k) => {
                let mut s = String::from_str("Invalid fee minimum: ");
                push_decimal(&mut s, *m as u64);
                s.append(" for type ");
                s.concat(k.to_string().as_str())
            },
        }
    }
}

/// The pattern that a license number must match, case aside: five letters or
/// nines, six digits, two letters or nines, a digit, two letters.
pub const LICENSE_NUMBER_PATTERN: &'static str = "(?i)^[a-z9]{5}\\d{6}[a-z9]{2}\\d[a-z]{2}$";

/// Whether the regex crate finds `pattern` in `text`; `None` where `pattern` does
/// not compile.
pub uninterp spec fn regex_outcome(pattern: Seq<char>, text: Seq<char>) -> Option<bool>;

/// Relies on regex's `Regex::new` and `Regex::is_match`: compiling and matching
/// depend on the pattern and the text alone.
#[verifier::external_body]
fn regex_match(pattern: &str, text: &str) -> (r: Option<bool>)
    ensures
        r == regex_outcome(pattern@, text@),
{
    match regex::Regex::new(pattern) {
        Ok(re) => Some(re.is_match(text)),
        Err(_) => None,
    }
}

/// A driving license: its number, and the instant it expires, if it does.
#[derive(Debug)]
pub struct License {
    pub number: String,
    pub expires: Option<Timestamp>,
}

pub struct LicenseView {
    pub number: Seq<char>,
    pub expires: Option<Timestamp>,
}

impl View for License {
    type V = LicenseView;

    open spec fn view(&self) -> LicenseView {
        LicenseView { number: self.number@, expires: self.expires }
    }
}

impl Clone for License {
    fn clone(&self) -> (r: License)
        ensures
            r@ == self@,
    {
        License { number: self.number.clone(), expires: self.expires }
    }
}

/// The license number has the required form.
pub open spec fn number_matches(number: Seq<char>) -> bool {
    regex_outcome(LICENSE_NUMBER_PATTERN@, number) == Some(true)
}

/// The license has not expired at `now`.
pub open spec fn unexpired(l: LicenseView, now: Timestamp) -> bool {
    l.expires matches Some(e) ==> now.millis <= e.millis
}

/// The message of a license whose number does not match.
pub open spec fn mismatch_text(number: Seq<char>) -> Seq<char> {
    "number "@ + number + " does not match regex "@ + LICENSE_NUMBER_PATTERN@
}

pub open spec fn license_check(l: LicenseView, now: Timestamp) -> bool {
    number_matches(l.number) && unexpired(l, now)
}

impl License {
    /// Checks the license against `now`: the number must match, and the license
    /// must not have expired.
    pub fn validate_at(&self, now: Timestamp) -> (r: Result<(), Error>)
        ensures
            r is Ok <==> license_check(self@, now),
            !number_matches(self@.number) ==> error_view(r) == Err::<(), Fault>(Fault::InvalidLicense(mismatch_text(self@.number))),
            r matches Err(e) ==> e is InvalidLicense,
    {
        match regex_match(LICENSE_NUMBER_PATTERN, self.number.as_str()) {
            Some(true) => {},
            _ => {
                let t = String::from_str("number ").concat(self.number.as_str()).concat(
                    " does not match regex ",
                ).concat(LICENSE_NUMBER_PATTERN);
                return Err(Error::InvalidLicense(t));
            },
        }
        match self.expires {
            None => Ok(()),
            Some(e) => {
                if e.millis < now.millis {
                    let mut t = String::from_str("license expired on ");
                    match local_rfc3339(e) {
                        Some(text) => t.append(text.as_str()),
                        None => push_signed_decimal(&mut t, e.millis),
                    }
                    return Err(Error::InvalidLicense(t));
                }
                Ok(())
            },
        }
    }

    /// Checks the license against the time that `clock` shows.
    pub fn validate(&self, clock: &Clock) -> (r: Result<(), Error>)
        ensures
            clock matches Clock::FixedClock(f) ==> (r is Ok <==> license_check(self@, f.time)),
            !number_matches(self@.number) ==> error_view(r) == Err::<(), Fault>(Fault::InvalidLicense(mismatch_text(self@.number))),
            r matches Err(e) ==> e is InvalidLicense,
    {
        self.validate_at(clock.now())
    }
}

/// The attribute map that a list of pairs stands for; a later pair wins over an
/// earlier one with the same key.
pub open spec fn attrs_map(s: Seq<(Attribute, String)>) -> Map<Attribute, Seq<char>>
    decreases s.len(),
{
    if s.len() == 0 {
        Map::empty()
    } else {
        attrs_map(s.drop_last()).insert(s.last().0, s.last().1@)
    }
}

/// The pairs of `s` whose key is not `k`, in order.
pub open spec fn without_key(s: Seq<(Attribute, String)>, k: Attribute) -> Seq<(Attribute, String)>
    decreases s.len(),
{
    if s.len() == 0 {
        s
    } else if s.last().0 == k {
        without_key(s.drop_last(), k)
    } else {
        without_key(s.drop_last(), k).push(s.last())
    }
}

proof fn lemma_without_key(s: Seq<(Attribute, String)>, k: Attribute)
    ensures
        attrs_map(without_key(s, k)) == attrs_map(s).remove(k),
    decreases s.len(),
{
    if s.len() == 0 {
        assert(attrs_map(s).remove(k) =~= Map::empty());
    } else {
        lemma_without_key(s.drop_last(), k);
        let w = without_key(s.drop_last(), k);
        if s.last().0 == k {
            assert(attrs_map(s).remove(k) =~= attrs_map(s.drop_last()).remove(k));
        } else {
            assert(w.push(s.last()).drop_last() =~= w);
            assert(attrs_map(s).remove(k) =~= attrs_map(s.drop_last()).remove(k).insert(s.last().0, s.last().1@));
        }
    }
}

/// Sets attribute `k` to `v`, dropping any value it had.
fn set_attr(attrs: &mut Vec<(Attribute, String)>, k: Attribute, v: String)
    ensures
        attrs_map(final(attrs)@) == attrs_map(old(attrs)@).insert(k, v@),
{
    let mut kept: Vec<(Attribute, String)> = Vec::new();
    let n = attrs.len();
    let mut i: usize = 0;
    while i < n
        invariant
            n == attrs@.len(),
            attrs@ == old(attrs)@,
            i <= n,
            kept@ == without_key(attrs@.subrange(0, i as int), k),
        decreases n - i,
    {
        assert(attrs@.subrange(0, i + 1).drop_last() =~= attrs@.subrange(0, i as int));
        if attrs[i].0 != k {
            let pair = (attrs[i].0, attrs[i].1.clone());
            kept.push(pair);
        }
        i += 1;
    }
    assert(attrs@.subrange(0, n as int) =~= attrs@);
    proof {
        lemma_without_key(attrs@, k);
    }
    kept.push((k, v));
    assert(kept@.drop_last() =~= without_key(old(attrs)@, k));
    assert(attrs_map(kept@) =~= attrs_map(old(attrs)@).insert(k, v@));
    *attrs = kept;
}

/// Attribute `k` has a value.
fn has_attr(attrs: &Vec<(Attribute, String)>, k: Attribute) -> (r: bool)
    ensures
        r == attrs_map(attrs@).dom().contains(k),
{
    let mut i: usize = attrs.len();
    assert(attrs@.subrange(0, i as int) =~= attrs@);
    while i > 0
        invariant
            i <= attrs@.len(),
            attrs_map(attrs@).dom().contains(k) <==> attrs_map(attrs@.subrange(0, i as int)).dom().contains(k),
        decreases i,
    {
        assert(attrs@.subrange(0, i as int).drop_last() =~= attrs@.subrange(0, i - 1));
        if attrs[i - 1].0 == k {
            return true;
        }
        i -= 1;
    }
    assert(attrs@.subrange(0, 0) =~= Seq::<(Attribute, String)>::empty());
    false
}

/// A copy of the pairs.
fn copy_attrs(attrs: &Vec<(Attribute, String)>) -> (r: Vec<(Attribute, String)>)
    ensures
        r@ == attrs@,
{
    let mut r: Vec<(Attribute, String)> = Vec::new();
    let mut i: usize = 0;
    while i < attrs.len()
        invariant
            i <= attrs@.len(),
            r@ == attrs@.subrange(0, i as int),
        decreases attrs@.len() - i,
    {
        let pair = (attrs[i].0, attrs[i].1.clone());
        r.push(pair);
        i += 1;
    }
    assert(attrs@.subrange(0, attrs@.len() as int) =~= attrs@);
    r
}

/// The attributes of `base` with those of `over` set on top: where both have a
/// key, `over`'s value wins.
fn merge_attrs(base: &Vec<(Attribute, String)>, over: &Vec<(Attribute, String)>) -> (r: Vec<(Attribute, String)>)
    ensures
        attrs_map(r@) == attrs_map(base@).union_prefer_right(attrs_map(over@)),
{
    let mut r = copy_attrs(base);
    let mut i: usize = 0;
    while i < over.len()
        invariant
            i <= over@.len(),
            attrs_map(r@) == attrs_map(base@).union_prefer_right(attrs_map(over@.subrange(0, i as int))),
        decreases over@.len() - i,
    {
        assert(over@.subrange(0, i + 1).drop_last() =~= over@.subrange(0, i as int));
        set_attr(&mut r, over[i].0, over[i].1.clone());
        assert(attrs_map(r@) =~= attrs_map(base@).union_prefer_right(attrs_map(over@.subrange(0, i + 1))));
        i += 1;
    }
    assert(over@.subrange(0, over@.len() as int) =~= over@);
    r
}

pub open spec fn text_view(o: Option<String>) -> Option<Seq<char>> {
    match o {
        Some(t) => Some(t@),
        None => None,
    }
}

pub open spec fn license_view(o: Option<License>) -> Option<LicenseView> {
    match o {
        Some(l) => Some(l@),
        None => None,
    }
}

fn copy_text(o: &Option<String>) -> (r: Option<String>)
    ensures
        text_view(r) == text_view(*o),
{
    match o {
        Some(t) => Some(t.clone()),
        None => None,
    }
}

fn copy_license(o: &Option<License>) -> (r: Option<License>)
    ensures
        license_view(r) == license_view(*o),
{
    match o {
        Some(l) => Some(l.clone()),
        None => None,
    }
}

/// A driver record as stored.
#[derive(Debug)]
pub struct Driver {
    pub name: String,
    pub surname: String,
    pub status: Status,
    pub kind: Type,
    pub photo: Option<String>,
    pub license: Option<License>,
    pub attributes: Vec<(Attribute, String)>,
    pub fee: Option<Fee>,
}

pub struct DriverView {
    pub name: Seq<char>,
    pub surname: Seq<char>,
    pub status: Status,
    pub kind: Type,
    pub photo: Option<Seq<char>>,
    pub license: Option<LicenseView>,
    pub attributes: Map<Attribute, Seq<char>>,
    pub fee: Option<Fee>,
}

impl View for Driver {
    type V = DriverView;

    open spec fn view(&self) -> DriverView {
        DriverView {
            name: self.name@,
            surname: self.surname@,
            status: self.status,
            kind: self.kind,
            photo: text_view(self.photo),
            license: license_view(self.license),
            attributes: attrs_map(self.attributes@),
            fee: self.fee,
        }
    }
}

impl Clone for Driver {
    fn clone(&self) -> (r: Driver)
        ensures
            r@ == self@,
    {
        Driver {
            name: self.name.clone(),
            surname: self.surname.clone(),
            status: self.status,
            kind: self.kind,
            photo: copy_text(&self.photo),
            license: copy_license(&self.license),
            attributes: copy_attrs(&self.attributes),
            fee: self.fee,
        }
    }
}

/// A new driver: no names, inactive, a candidate, nothing else set.
pub open spec fn default_driver() -> DriverView {
    DriverView {
        name: Seq::empty(),
        surname: Seq::empty(),
        status: Status::Inactive,
        kind: Type::Candidate,
        photo: None,
        license: None,
        attributes: Map::empty(),
        fee: None,
    }
}

impl Default for Driver {
    fn default() -> (r: Driver)
        ensures
            r@ == default_driver(),
    {
        let r = Driver {
            name: String::new(),
            surname: String::new(),
            status: Status::default(),
            kind: Type::default(),
            photo: None,
            license: None,
            attributes: Vec::new(),
            fee: None,
        };
        assert(r@.attributes =~= Map::<Attribute, Seq<char>>::empty());
        r
    }
}

/// `d` with status inactive.
pub open spec fn deactivated(d: DriverView) -> DriverView {
    DriverView { status: Status::Inactive, ..d }
}

/// `d` with type `kind`.
pub open spec fn with_kind(d: DriverView, kind: Type) -> DriverView {
    DriverView { kind, ..d }
}

/// Deactivating is idempotent, and leaves an inactive driver as it is.
pub proof fn lemma_deactivate_idempotent(d: DriverView)
    ensures
        deactivated(deactivated(d)) == deactivated(d),
        d.status == Status::Inactive ==> deactivated(d) == d,
{
}

/// Graduating makes a regular driver and leaves the status as it was.
pub proof fn lemma_graduate_keeps_status(d: DriverView)
    ensures
        with_kind(d, Type::Regular).kind == Type::Regular,
        with_kind(d, Type::Regular).status == d.status,
{
}

/// The message of a driver that has no license.
pub open spec fn no_license_text() -> Seq<char> {
    "Driver has no license"@
}

impl Driver {
    /// What the driver keeps of `transit_price` under its fee policy (the default
    /// policy where it has none).
    pub fn calculate_fee(&self, transit_price: &Money) -> (r: Money)
        requires
            fee_fits(self.fee, transit_price.0 as int),
        ensures
            r.0 == driver_fee(policy_of(self.fee), transit_price.0 as int),
    {
        let policy = match self.fee {
            Some(f) => f,
            None => Fee::default(),
        };
        Money::new(policy.driver_fee_wide(transit_price.0) as i64)
    }

    /// The driver's fee on `transit_price`, where `Money` can hold it.
    pub fn checked_fee(&self, transit_price: &Money) -> (r: Option<Money>)
        ensures
            r is Some <==> fee_fits(self.fee, transit_price.0 as int),
            r matches Some(m) ==> m.0 == driver_fee(policy_of(self.fee), transit_price.0 as int),
    {
        let policy = match self.fee {
            Some(f) => f,
            None => Fee::default(),
        };
        let wide = policy.driver_fee_wide(transit_price.0);
        if i64::MIN as i128 <= wide && wide <= i64::MAX as i128 {
            Some(Money::new(wide as i64))
        } else {
            None
        }
    }

    /// The same driver with type `typ`.
    pub fn with_type(&self, typ: Type) -> (r: Driver)
        ensures
            r@ == with_kind(self@, typ),
    {
        let mut driver = self.clone();
        driver.kind = typ;
        driver
    }

    /// The candidate becomes a regular driver; the status stays as it is.
    pub fn graduate(&self) -> (r: Driver)
        ensures
            r@ == with_kind(self@, Type::Regular),
    {
        self.with_type(Type::Regular)
    }

    /// The same driver, inactive. Always allowed, also when already inactive.
    pub fn deactivate(&self) -> (r: Driver)
        ensures
            r@ == deactivated(self@),
    {
        let mut driver = self.clone();
        driver.status = Status::Inactive;
        driver
    }

    /// The same driver, active at `now`: allowed only with a license that is valid
    /// then. Where the driver has no years-of-experience attribute, the activation
    /// time is recorded there.
    pub fn activate_at(&self, now: Timestamp) -> (r: Result<Driver, Error>)
        ensures
            self.license is None ==> error_view(r) == Err::<Driver, Fault>(Fault::InvalidLicense(no_license_text())),
            self.license matches Some(l) ==> (r is Ok <==> license_check(l@, now)),
            self.license matches Some(l) ==> (!number_matches(l@.number) ==> error_view(r) == Err::<Driver, Fault>(
                Fault::InvalidLicense(mismatch_text(l@.number)),
            )),
            r matches Err(e) ==> e is InvalidLicense,
            r matches Ok(d) ==> d@ == (DriverView { status: Status::Active, attributes: d@.attributes, ..self@ }),
            r matches Ok(d) ==> self@.attributes.dom().contains(Attribute::YearsOfExperience) ==> d@.attributes == self@.attributes,
            r matches Ok(d) ==> !self@.attributes.dom().contains(Attribute::YearsOfExperience) ==> exists|t: Seq<char>|
                d@.attributes == self@.attributes.insert(Attribute::YearsOfExperience, t),
    {
        match &self.license {
            None => {
                return Err(Error::InvalidLicense(String::from_str("Driver has no license")));
            },
            Some(license) => {
                match license.validate_at(now) {
                    Ok(()) => {},
                    Err(e) => {
                        return Err(e);
                    },
                }
            },
        }
        let mut driver = self.clone();
        driver.status = Status::Active;
        if !has_attr(&driver.attributes, Attribute::YearsOfExperience) {
            let mut when = String::new();
            match local_rfc3339(now) {
                Some(t) => when = t,
                None => push_signed_decimal(&mut when, now.millis),
            }
            set_attr(&mut driver.attributes, Attribute::YearsOfExperience, when);
        }
        Ok(driver)
    }

    /// The same driver, active at the time `clock` shows; see `activate_at`.
    pub fn activate(&self, clock: &Clock) -> (r: Result<Driver, Error>)
        ensures
            self.license is None ==> error_view(r) == Err::<Driver, Fault>(Fault::InvalidLicense(no_license_text())),
            clock matches Clock::FixedClock(f) ==> (self.license matches Some(l) ==> (r is Ok <==> license_check(l@, f.time))),
            self.license matches Some(l) ==> (!number_matches(l@.number) ==> error_view(r) == Err::<Driver, Fault>(
                Fault::InvalidLicense(mismatch_text(l@.number)),
            )),
            r matches Err(e) ==> e is InvalidLicense,
            r matches Ok(d) ==> d@ == (DriverView { status: Status::Active, attributes: d@.attributes, ..self@ }),
            r matches Ok(d) ==> self@.attributes.dom().contains(Attribute::YearsOfExperience) ==> d@.attributes == self@.attributes,
            r matches Ok(d) ==> !self@.attributes.dom().contains(Attribute::YearsOfExperience) ==> exists|t: Seq<char>|
                d@.attributes == self@.attributes.insert(Attribute::YearsOfExperience, t),
    {
        self.activate_at(clock.now())
    }
}

/// A driver as a client sends it, to create a record or update one.
#[derive(Debug)]
pub struct NewDriver {
    pub name: String,
    pub surname: String,
    pub photo: Option<String>,
    pub license: Option<License>,
    pub attributes: Vec<(Attribute, String)>,
    pub fee: Option<Fee>,
}

pub struct NewDriverView {
    pub name: Seq<char>,
    pub surname: Seq<char>,
    pub photo: Option<Seq<char>>,
    pub license: Option<LicenseView>,
    pub attributes: Map<Attribute, Seq<char>>,
    pub fee: Option<Fee>,
}

impl View for NewDriver {
    type V = NewDriverView;

    open spec fn view(&self) -> NewDriverView {
        NewDriverView {
            name: self.name@,
            surname: self.surname@,
            photo: text_view(self.photo),
            license: license_view(self.license),
            attributes: attrs_map(self.attributes@),
            fee: self.fee,
        }
    }
}

impl Clone for NewDriver {
    fn clone(&self) -> (r: NewDriver)
        ensures
            r@ == self@,
    {
        NewDriver {
            name: self.name.clone(),
            surname: self.surname.clone(),
            photo: copy_text(&self.photo),
            license: copy_license(&self.license),
            attributes: copy_attrs(&self.attributes),
            fee: self.fee,
        }
    }
}

/// The record that input `n` makes of `target`: names, photo and license come from
/// the input; status and type stay the target's; the attributes are the target's
/// with the input's set on top; the fee policy is the input's where it has one,
/// else the target's.
pub open spec fn onto_spec(n: NewDriverView, target: DriverView) -> DriverView {
    DriverView {
        name: n.name,
        surname: n.surname,
        status: target.status,
        kind: target.kind,
        photo: n.photo,
        license: n.license,
        attributes: target.attributes.union_prefer_right(n.attributes),
        fee: if n.fee is Some { n.fee } else { target.fee },
    }
}

impl NewDriver {
    /// Checks the input at `now`: both names present, the fee policy sound, the
    /// license valid; the first failure is reported.
    pub fn validate_at(&self, now: Timestamp) -> (r: Result<(), Error>)
        ensures
            self@.name.len() == 0 ==> error_view(r) == Err::<(), Fault>(Fault::InvalidName(self@.name)),
            self@.name.len() > 0 && self@.surname.len() == 0 ==> error_view(r) == Err::<(), Fault>(
                Fault::InvalidSurname(self@.surname),
            ),
            self@.name.len() > 0 && self@.surname.len() > 0 ==> (self.fee matches Some(f) ==> (fee_check(f) is Err
                ==> error_view(r) == fee_check(f))),
            self@.name.len() > 0 && self@.surname.len() > 0 && (self.fee matches Some(f) ==> fee_check(f) is Ok)
                ==> (r is Ok <==> (self.license matches Some(l) ==> license_check(l@, now))),
            self@.name.len() > 0 && self@.surname.len() > 0 && (self.fee matches Some(f) ==> fee_check(f) is Ok)
                ==> (r matches Err(e) ==> e is InvalidLicense),
    {
        if self.name.as_str().is_empty() {
            return Err(Error::InvalidName(self.name.clone()));
        }
        if self.surname.as_str().is_empty() {
            return Err(Error::InvalidSurname(self.surname.clone()));
        }
        match self.fee {
            None => {},
            Some(f) => match f.validate() {
                Ok(()) => {},
                Err(e) => {
                    return Err(e);
                },
            },
        }
        match &self.license {
            None => Ok(()),
            Some(license) => license.validate_at(now),
        }
    }

    /// Checks the input at the time that `clock` shows; see `validate_at`.
    pub fn validate(&self, clock: &Clock) -> (r: Result<(), Error>)
        ensures
            self@.name.len() == 0 ==> error_view(r) == Err::<(), Fault>(Fault::InvalidName(self@.name)),
            self@.name.len() > 0 && self@.surname.len() == 0 ==> error_view(r) == Err::<(), Fault>(
                Fault::InvalidSurname(self@.surname),
            ),
            self@.name.len() > 0 && self@.surname.len() > 0 ==> (self.fee matches Some(f) ==> (fee_check(f) is Err
                ==> error_view(r) == fee_check(f))),
            clock matches Clock::FixedClock(c) ==> (self@.name.len() > 0 && self@.surname.len() > 0 && (
            self.fee matches Some(f) ==> fee_check(f) is Ok) ==> (r is Ok <==> (self.license matches Some(l)
                ==> license_check(l@, c.time)))),
    {
        self.validate_at(clock.now())
    }

    /// The record that this input makes of `defaults`.
    pub fn onto(self, defaults: &Driver) -> (r: Driver)
        ensures
            r@ == onto_spec(self@, defaults@),
    {
        let fee = match self.fee {
            Some(f) => Some(f),
            None => defaults.fee,
        };
        Driver {
            name: self.name,
            surname: self.surname,
            status: defaults.status,
            kind: defaults.kind,
            photo: self.photo,
            license: self.license,
            attributes: merge_attrs(&defaults.attributes, &self.attributes),
            fee,
        }
    }
}

} // verus!
