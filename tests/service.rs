use drivers::entity::{Driver, Fee, FeeType};
use drivers::id::Identifier;
use drivers::money::Money;
use drivers::service::{
    step, unwrap_calculatefee, CalculateFeeEvent, DriverFeeEvent, FeeAction, FeeInput, FeeState,
    InboundEvent, RepoOutcome, ServiceError,
};

fn inbound(ct: Option<&str>, subject: Option<&str>, driver_id: i64, price: i64) -> InboundEvent {
    InboundEvent {
        ty: "cabs.drivers.calculate-fee".to_string(),
        content_type: ct.map(|c| c.to_string()),
        subject: subject.map(|s| s.to_string()),
        payload: Some(Ok(CalculateFeeEvent {
            driver_id: Identifier::from(driver_id),
            transit_price: Money::new(price),
        })),
    }
}

#[test]
fn unsupported_content_type_is_bad_request() {
    let (state, action) = step(FeeState::Idle, FeeInput::Received(inbound(Some("text/plain"), None, 1, 100)));
    assert!(matches!(state, FeeState::Finished));
    match action {
        FeeAction::Reply(Err(e)) => {
            assert_eq!(e.status(), 400);
            assert!(e.to_string().starts_with("unsupported content type"));
        },
        other => panic!("unexpected {:?}", other),
    }
}

#[test]
fn unknown_driver_is_not_found_and_nothing_published() {
    let (state, action) = step(FeeState::Idle, FeeInput::Received(inbound(Some("application/json"), None, 42, 100)));
    match action {
        FeeAction::LoadDriver(id) => assert_eq!(id.value(), 42),
        other => panic!("unexpected {:?}", other),
    }
    let (state, action) = step(state, FeeInput::Loaded(Err(RepoOutcome::Missing)));
    assert!(matches!(state, FeeState::Finished));
    match action {
        FeeAction::Reply(Err(e)) => {
            assert_eq!(e.status(), 404);
            assert!(matches!(e, ServiceError::NotFound(id) if id.value() == 42));
        },
        other => panic!("unexpected {:?}", other),
    }
}

#[test]
fn fee_event_carries_subject() {
    let (state, _) = step(FeeState::Idle, FeeInput::Received(inbound(Some("application/json"), Some("corr-7"), 5, 10000)));
    let (state, action) = step(state, FeeInput::Loaded(Ok(Driver::default())));
    assert!(matches!(state, FeeState::Publishing));
    match action {
        FeeAction::Publish(ev) => {
            assert_eq!(ev.ty, "cabs.drivers.driver-fee");
            assert_eq!(ev.source, "usvc://cabs/drivers");
            assert_eq!(ev.content_type, "application/json");
            assert_eq!(ev.subject.as_deref(), Some("corr-7"));
            assert_eq!(ev.data, DriverFeeEvent { driver_id: Identifier::from(5), fee: Money::new(9800) });
        },
        other => panic!("unexpected {:?}", other),
    }
    let (state, action) = step(state, FeeInput::Published(Ok(())));
    assert!(matches!(state, FeeState::Finished));
    assert!(matches!(action, FeeAction::Reply(Ok(()))));
}

#[test]
fn publish_failure_is_internal() {
    let (_, action) = step(FeeState::Publishing, FeeInput::Published(Err("503".to_string())));
    match action {
        FeeAction::Reply(Err(e)) => {
            assert_eq!(e.status(), 500);
            assert_eq!(e.to_string(), "failed to send event: 503");
        },
        other => panic!("unexpected {:?}", other),
    }
}

#[test]
fn payload_errors_are_bad_requests() {
    let mut ev = inbound(Some("application/json"), None, 1, 1);
    ev.payload = None;
    assert_eq!(unwrap_calculatefee(&ev).unwrap_err().to_string(), "missing data");
    ev.payload = Some(Err("expected value".to_string()));
    assert_eq!(unwrap_calculatefee(&ev).unwrap_err().to_string(), "failed to parse event: expected value");
    let ev = inbound(None, None, 1, 1);
    assert_eq!(unwrap_calculatefee(&ev).unwrap_err().to_string(), "unsupported content type: none");
}

#[test]
fn other_event_types_are_refused() {
    let mut ev = inbound(Some("application/json"), None, 1, 1);
    ev.ty = "cabs.other".to_string();
    let (_, action) = step(FeeState::Idle, FeeInput::Received(ev));
    assert!(matches!(action, FeeAction::Reply(Err(ServiceError::BadRequest(t))) if t == "unsupported event type"));
}

#[test]
fn store_failure_and_out_of_range_fee_are_internal() {
    let req = CalculateFeeEvent { driver_id: Identifier::from(1), transit_price: Money::new(0) };
    let (_, action) = step(FeeState::Loading { request: req, subject: None }, FeeInput::Loaded(Err(RepoOutcome::Failed("down".to_string()))));
    assert!(matches!(action, FeeAction::Reply(Err(ServiceError::Internal(_)))));
    let mut d = Driver::default();
    d.fee = Some(Fee { kind: FeeType::Flat, amount: usize::MAX, min: None });
    let (_, action) = step(FeeState::Loading { request: req, subject: None }, FeeInput::Loaded(Ok(d)));
    assert!(matches!(action, FeeAction::Reply(Err(ServiceError::Internal(_)))));
}
