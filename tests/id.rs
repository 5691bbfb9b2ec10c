use drivers::clock::{Clock, Fixed, Timestamp};
use drivers::id::{epoch, Identifier};

#[test]
fn test_interoperation_with_lexicoid() {
    let cases = [
        (0, "22"),
        (100, "gk"),
        (1700000, "5bse2"),
        (550000000, "6567f22"),
        (1550000000, "flllz22"),
        (1654401676, "gei4p52"),
        (1674301677, "gj7x3vc"),
    ];
    cases.iter().for_each(|(ts, repr)| {
        let id = Identifier::from(*ts);
        assert_eq!(id.to_string(), *repr);
    });
}

#[test]
fn test_epoch() {
    let clk = Clock::FixedClock(Fixed { time: epoch().unwrap() });
    let id = Identifier::new(&clk).unwrap();
    assert_eq!(id.value(), 0);
    assert_eq!(id.to_string(), "22");
}

#[test]
fn test_from_string() {
    let id = Identifier::from(1);
    assert_eq!(id.to_string(), "26");
    let id = Identifier::from_text(&"26".to_string()).unwrap();
    assert_eq!(id.value(), 1);
    assert_eq!(id.to_string(), "26");

    let id = Identifier::from_text(&"gk".to_string()).unwrap();
    assert_eq!(id.value(), 100);
    assert_eq!(id.to_string(), "gk");

    let id = Identifier::from_text(&"5bse2".to_string()).unwrap();
    assert_eq!(id.value(), 1700000);
    assert_eq!(id.to_string(), "5bse2");

    let id = Identifier::from_text(&"biykars".to_string()).unwrap();
    assert_eq!(id.to_string(), "biykars");
}

#[test]
fn round_trip_on_powers_and_bounds() {
    let mut values: Vec<i64> = vec![0, 1, 31, 32, 255, 256, 65535, 65536, 1 << 53, i64::MAX];
    for k in 0..63 {
        values.push(1i64 << k);
        values.push((1i64 << k) - 1);
    }
    for n in values {
        let text = Identifier::from(n).to_string();
        let back = Identifier::from_text(&text).unwrap();
        assert_eq!(back.value(), n);
        assert_eq!(back.to_string(), text);
    }
}

#[test]
fn literal_encodings() {
    assert_eq!(Identifier::from(0).to_string(), "22");
    assert_eq!(Identifier::from(100).to_string(), "gk");
    assert_eq!(Identifier::from(1700000).to_string(), "5bse2");
    assert_eq!(Identifier::from(1654401676).to_string(), "gei4p52");
}

#[test]
fn negative_identifier_writes_its_magnitude() {
    assert_eq!(Identifier::from(-100).to_string(), "gk");
    let back = Identifier::from_text("gk").unwrap();
    assert_eq!(back.value(), 100);
}

#[test]
fn largest_magnitude_does_not_read_back() {
    let text = Identifier::from(i64::MIN).to_string();
    assert!(Identifier::from_text(&text).is_none());
}

#[test]
fn text_outside_the_alphabet_is_refused() {
    assert!(Identifier::from_text("GK").is_none());
    assert!(Identifier::from_text("0k").is_none());
    assert!(Identifier::from_text("2").is_none());
    assert!(Identifier::from_text("27").is_none());
}

#[test]
fn elapsed_counts_milliseconds_from_epoch() {
    let e = Timestamp { millis: 1_000 };
    let id = Identifier::elapsed(Timestamp { millis: 1_250 }, e).unwrap();
    assert_eq!(id.value(), 250);
    assert!(Identifier::elapsed(Timestamp { millis: i64::MIN }, Timestamp { millis: 1 }).is_none());
}

#[test]
fn identifier_of_fixed_clock() {
    let e = epoch().unwrap();
    let clk = Clock::FixedClock(Fixed { time: Timestamp { millis: e.millis + 1700000 } });
    let id = Identifier::new(&clk).unwrap();
    assert_eq!(id.value(), 1700000);
    assert_eq!(id.to_string(), "5bse2");
}
