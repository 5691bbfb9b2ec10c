use drivers::clock::{Clock, Fixed, Timestamp};
use drivers::entity::{
    Attribute, Driver, Error, Fee, FeeType, License, NewDriver, Status, Type,
};
use drivers::money::Money;

fn fixed(millis: i64) -> Clock {
    Clock::FixedClock(Fixed { time: Timestamp { millis } })
}

fn new_driver(name: &str, surname: &str) -> NewDriver {
    NewDriver {
        name: name.to_string(),
        surname: surname.to_string(),
        photo: None,
        license: None,
        attributes: Vec::new(),
        fee: None,
    }
}

fn licensed(number: &str, expires: Option<i64>) -> License {
    License { number: number.to_string(), expires: expires.map(|millis| Timestamp { millis }) }
}

fn attr(d: &Driver, k: Attribute) -> Option<String> {
    d.attributes.iter().rev().find(|(key, _)| *key == k).map(|(_, v)| v.clone())
}

#[test]
fn default_fee_on_ten_thousand() {
    let d = Driver::default();
    assert_eq!(d.calculate_fee(&Money::new(10000)), Money::new(9800));
    assert_eq!(Money::new(10000).percentage(200), Money::new(200));
}

#[test]
fn percentage_rounds_toward_zero() {
    let mut d = Driver::default();
    d.fee = Some(Fee { kind: FeeType::Percentage, amount: 333, min: None });
    assert_eq!(d.calculate_fee(&Money::new(1000)), Money::new(967));
    assert_eq!(d.calculate_fee(&Money::new(-1000)), Money::new(-967));
    assert_eq!(Money::new(-1000).percentage(333), Money::new(-33));
}

#[test]
fn flat_fee_and_floor() {
    let mut d = Driver::default();
    d.fee = Some(Fee { kind: FeeType::Flat, amount: 500, min: None });
    assert_eq!(d.calculate_fee(&Money::new(2000)), Money::new(1500));
    d.fee = Some(Fee { kind: FeeType::Flat, amount: 500, min: Some(400) });
    assert_eq!(d.calculate_fee(&Money::new(700)), Money::new(400));
    assert_eq!(d.calculate_fee(&Money::new(2000)), Money::new(1500));
    assert_eq!(d.calculate_fee(&Money::new(300)), Money::new(300));
}

#[test]
fn fee_out_of_range_is_refused() {
    let mut d = Driver::default();
    d.fee = Some(Fee { kind: FeeType::Flat, amount: usize::MAX, min: None });
    assert_eq!(d.checked_fee(&Money::new(0)), None);
    assert_eq!(d.checked_fee(&Money::new(i64::MAX)), Some(Money::new(i64::MIN)));
    assert_eq!(d.checked_fee(&Money::new(i64::MIN)), None);
    d.fee = None;
    assert_eq!(d.checked_fee(&Money::new(10000)), Some(Money::new(9800)));
}

#[test]
fn money_basics() {
    assert_eq!(Money::new(5).subtract(&Money::new(7)), Money::new(-2));
    assert!(Money::new(1).less_then(&Money::new(2)));
    assert!(!Money::new(2).less_then(&Money::new(2)));
    assert_eq!(Money::zero().amount(), 0);
}

#[test]
fn fee_validation() {
    let f = Fee { kind: FeeType::Flat, amount: 0, min: None };
    assert_eq!(f.validate().unwrap_err().to_string(), "Invalid fee amount: 0 for type \"flat\"");
    let f = Fee { kind: FeeType::Flat, amount: 10, min: Some(11) };
    assert_eq!(f.validate().unwrap_err().to_string(), "Invalid fee minimum: 11 for type \"flat\"");
    let f = Fee { kind: FeeType::Flat, amount: 10, min: Some(10) };
    assert!(f.validate().is_ok());
    let f = Fee { kind: FeeType::Percentage, amount: 10001, min: None };
    assert_eq!(f.validate().unwrap_err().to_string(), "Invalid fee amount: 10001 for type \"percentage\"");
    let f = Fee { kind: FeeType::Percentage, amount: 10000, min: None };
    assert!(f.validate().is_ok());
}

#[test]
fn activate_without_license_fails() {
    let d = Driver::default();
    let err = d.activate(&fixed(0)).unwrap_err();
    assert!(matches!(err, Error::InvalidLicense(_)));
    assert_eq!(err.to_string(), "Invalid license: Driver has no license");
}

#[test]
fn activate_with_bad_number_fails() {
    let mut d = Driver::default();
    d.license = Some(licensed("nope", None));
    let err = d.activate(&fixed(0)).unwrap_err();
    assert_eq!(
        err.to_string(),
        "Invalid license: number nope does not match regex (?i)^[a-z9]{5}\\d{6}[a-z9]{2}\\d[a-z]{2}$"
    );
}

#[test]
fn activate_with_expired_license_fails() {
    let mut d = Driver::default();
    d.license = Some(licensed("ABCDE123456AB1CD", Some(1000)));
    let err = d.activate(&fixed(2000)).unwrap_err();
    assert!(err.to_string().starts_with("Invalid license: license expired on "));
}

#[test]
fn activate_with_valid_license() {
    let mut d = Driver::default();
    d.license = Some(licensed("abcd9123456z91xy", Some(5000)));
    let a = d.activate(&fixed(5000)).unwrap();
    assert_eq!(a.status, Status::Active);
    assert_eq!(a.kind, Type::Candidate);
    assert!(attr(&a, Attribute::YearsOfExperience).is_some());

    d.attributes.push((Attribute::YearsOfExperience, "7".to_string()));
    let a = d.activate(&fixed(0)).unwrap();
    assert_eq!(attr(&a, Attribute::YearsOfExperience), Some("7".to_string()));
}

#[test]
fn deactivate_is_idempotent() {
    let d = Driver::default();
    assert_eq!(d.status, Status::Inactive);
    let once = d.deactivate();
    let twice = once.deactivate();
    assert_eq!(once.status, Status::Inactive);
    assert_eq!(twice.status, Status::Inactive);
    assert_eq!(twice.name, d.name);
}

#[test]
fn graduate_keeps_status() {
    let mut d = Driver::default();
    d.status = Status::Active;
    let g = d.graduate();
    assert_eq!(g.kind, Type::Regular);
    assert_eq!(g.status, Status::Active);
    let g = Driver::default().with_type(Type::Regular);
    assert_eq!((g.kind, g.status), (Type::Regular, Status::Inactive));
}

#[test]
fn new_driver_validation() {
    let clk = fixed(0);
    assert_eq!(new_driver("", "Lee").validate(&clk).unwrap_err().to_string(), "Invalid name: ");
    assert_eq!(new_driver("Ann", "").validate(&clk).unwrap_err().to_string(), "Invalid surname: ");
    let mut n = new_driver("Ann", "Lee");
    assert!(n.validate(&clk).is_ok());
    n.fee = Some(Fee { kind: FeeType::Percentage, amount: 20000, min: None });
    assert!(matches!(n.validate(&clk).unwrap_err(), Error::InvalidFeeAmount(20000, FeeType::Percentage)));
    n.fee = None;
    n.license = Some(licensed("x", None));
    assert!(matches!(n.validate(&clk).unwrap_err(), Error::InvalidLicense(_)));
}

#[test]
fn merge_keeps_state_and_unions_attributes() {
    let mut target = Driver::default();
    target.status = Status::Active;
    target.kind = Type::Regular;
    target.attributes.push((Attribute::Email, "a@b".to_string()));
    target.attributes.push((Attribute::Nationality, "pl".to_string()));
    target.fee = Some(Fee { kind: FeeType::Flat, amount: 9, min: None });
    let mut input = new_driver("Ann", "Lee");
    input.attributes.push((Attribute::Email, "c@d".to_string()));
    input.attributes.push((Attribute::Birthplace, "x".to_string()));
    let r = input.onto(&target);
    assert_eq!((r.name.as_str(), r.surname.as_str()), ("Ann", "Lee"));
    assert_eq!((r.status, r.kind), (Status::Active, Type::Regular));
    assert_eq!(attr(&r, Attribute::Email), Some("c@d".to_string()));
    assert_eq!(attr(&r, Attribute::Nationality), Some("pl".to_string()));
    assert_eq!(attr(&r, Attribute::Birthplace), Some("x".to_string()));
    assert_eq!(r.attributes.len(), 3);
    assert_eq!(r.fee, Some(Fee { kind: FeeType::Flat, amount: 9, min: None }));
}

#[test]
fn create_then_activate_flow() {
    let clk = fixed(10_000);
    let input = new_driver("Ann", "Lee");
    assert!(input.validate(&clk).is_ok());
    let created = input.onto(&Driver::default());
    assert_eq!((created.status, created.kind), (Status::Inactive, Type::Candidate));
    assert!(created.activate(&clk).is_err());

    let mut update = new_driver("Ann", "Lee");
    update.license = Some(licensed("ABCDE123456AB1CD", Some(20_000)));
    assert!(update.validate(&clk).is_ok());
    let updated = update.onto(&created);
    let active = updated.activate(&clk).unwrap();
    assert_eq!(active.status, Status::Active);
}
