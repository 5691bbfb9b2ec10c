//! The fee service. It takes a "calculate fee" event, loads the driver, computes
//! the driver's fee and publishes a "driver fee" event carrying the inbound
//! subject. The decisions are a step function from state and input to the next
//! state and an action; the caller performs each action (a store read, an HTTP
//! post, the reply) and feeds back what came of it.

use crate::entity::{driver_fee, fee_fits, policy_of, Driver};
use crate::id::{identifier_text, Identifier};
use crate::money::Money;
use vstd::prelude::*;
use vstd::string::*;

verus! {

/// The type of the inbound event that asks for a fee.
pub const CALCULATE_FEE_TYPE: &'static str = "cabs.drivers.calculate-fee";

/// The type of the outbound event that carries the fee.
pub const DRIVER_FEE_TYPE: &'static str = "cabs.drivers.driver-fee";

/// The source of outbound events.
pub const EVENT_SOURCE: &'static str = "usvc://cabs/drivers";

/// The one content type that inbound events may have.
pub const JSON_CONTENT_TYPE: &'static str = "application/json";

/// The payload of a fee request.
#[derive(Debug, Clone, Copy, PartialEq, Eq, Structural)]
pub struct CalculateFeeEvent {
    pub driver_id: Identifier,
    pub transit_price: Money,
}

/// The payload of the answer: the fee that the driver keeps.
#[derive(Debug, Clone, Copy, PartialEq, Eq, Structural)]
pub struct DriverFeeEvent {
    pub driver_id: Identifier,
    pub fee: Money,
}

/// A value together with the subject of the event that carried it.
#[derive(Debug, Clone)]
pub struct Subject<T> {
    pub id: Option<String>,
    pub entity: T,
}

/// An event to publish: its attributes and its JSON payload.
#[derive(Debug, Clone)]
pub struct OutboundEvent {
    pub source: String,
    pub ty: String,
    pub content_type: String,
    pub subject: Option<String>,
    pub data: DriverFeeEvent,
}

impl DriverFeeEvent {
    /// The outbound event for this payload, without a subject yet.
    pub fn to_builder(&self) -> (r: OutboundEvent)
        ensures
            r.source@ == EVENT_SOURCE@,
            r.ty@ == DRIVER_FEE_TYPE@,
            r.content_type@ == JSON_CONTENT_TYPE@,
            r.subject is None,
            r.data == *self,
    {
        OutboundEvent {
            source: String::from_str(EVENT_SOURCE),
            ty: String::from_str(DRIVER_FEE_TYPE),
            content_type: String::from_str(JSON_CONTENT_TYPE),
            subject: None,
            data: *self,
        }
    }
}

/// An inbound event as received: its type, content type and subject, and its
/// payload as read (`None` where it carries no data, an error text where the data
/// is no fee request).
#[derive(Debug, Clone)]
pub struct InboundEvent {
    pub ty: String,
    pub content_type: Option<String>,
    pub subject: Option<String>,
    pub payload: Option<Result<CalculateFeeEvent, String>>,
}

/// Why the service refused or failed an event.
#[derive(Debug, Clone)]
pub enum ServiceError {
    /// The event is not one the service takes (a client error).
    BadRequest(String),
    /// No driver has the identifier (a not-found error).
    NotFound(Identifier),
    /// The store, the fee or the publishing failed (a server error).
    Internal(String),
}

impl ServiceError {
    /// The HTTP status class of the error.
    pub fn status(&self) -> (r: u16)
        ensures
            self is BadRequest ==> r == 400,
            self is NotFound ==> r == 404,
            self is Internal ==> r == 500,
    {
        match self {
            ServiceError::BadRequest(_) => 400,
            ServiceError::NotFound(_) => 404,
            ServiceError::Internal(_) => 500,
        }
    }

    /// The error's message.
    pub fn to_string(&self) -> (r: String)
        ensures
            self matches ServiceError::BadRequest(t) ==> r@ == t@,
            self matches ServiceError::Internal(t) ==> r@ == t@,
            self matches ServiceError::NotFound(id) ==> (identifier_text(id.0) matches Some(t) && r@ == "driver not found: "@
                + t),
    {
        match self {
            ServiceError::BadRequest(t) => t.clone(),
            ServiceError::NotFound(id) => {
                String::from_str("driver not found: ").concat(id.to_string().as_str())
            },
            ServiceError::Internal(t) => t.clone(),
        }
    }
}

fn is_text(t: &String, lit: &str) -> (r: bool)
    ensures
        r == (t@ == lit@),
{
    let other = String::from_str(lit);
    *t == other
}

/// The content type names JSON.
pub open spec fn is_json(ct: Option<String>) -> bool {
    ct matches Some(t) && t@ == JSON_CONTENT_TYPE@
}

/// The message for an inbound event of another content type.
pub open spec fn content_type_text(ct: Option<String>) -> Seq<char> {
    "unsupported content type: "@ + match ct {
        Some(t) => t@,
        None => "none"@,
    }
}

/// Reads a fee request out of an inbound event: it must be JSON, and its payload
/// must be a fee request.
pub fn unwrap_calculatefee(ev: &InboundEvent) -> (r: Result<Subject<CalculateFeeEvent>, ServiceError>)
    ensures
        !is_json(ev.content_type) ==> (r matches Err(ServiceError::BadRequest(t)) && t@ == content_type_text(ev.content_type)),
        is_json(ev.content_type) && ev.payload is None ==> (r matches Err(ServiceError::BadRequest(t)) && t@ == "missing data"@),
        is_json(ev.content_type) ==> (ev.payload matches Some(Err(e)) ==> (r matches Err(ServiceError::BadRequest(t)) && t@
            == "failed to parse event: "@ + e@)),
        is_json(ev.content_type) ==> (ev.payload matches Some(Ok(req)) ==> (r matches Ok(s) && s.entity == req && text_of(s.id)
            == text_of(ev.subject))),
{
    let json = match &ev.content_type {
        Some(t) => is_text(t, JSON_CONTENT_TYPE),
        None => false,
    };
    if !json {
        let t = match &ev.content_type {
            Some(t) => String::from_str("unsupported content type: ").concat(t.as_str()),
            None => String::from_str("unsupported content type: ").concat("none"),
        };
        return Err(ServiceError::BadRequest(t));
    }
    match &ev.payload {
        None => Err(ServiceError::BadRequest(String::from_str("missing data"))),
        Some(Err(e)) => Err(ServiceError::BadRequest(String::from_str("failed to parse event: ").concat(e.as_str()))),
        Some(Ok(req)) => {
            let id = match &ev.subject {
                Some(s) => Some(s.clone()),
                None => None,
            };
            Ok(Subject { id, entity: *req })
        },
    }
}

pub open spec fn text_of(o: Option<String>) -> Option<Seq<char>> {
    match o {
        Some(t) => Some(t@),
        None => None,
    }
}

/// Where the handling of one event stands.
#[derive(Debug)]
pub enum FeeState {
    /// Nothing received yet.
    Idle,
    /// Waiting for the driver of the request.
    Loading { request: CalculateFeeEvent, subject: Option<String> },
    /// Waiting for the outbound event to be delivered.
    Publishing,
    /// The reply has been given.
    Finished,
}

/// What the caller hands the service.
#[derive(Debug)]
pub enum FeeInput {
    /// An event arrived.
    Received(InboundEvent),
    /// The store answered the driver read.
    Loaded(Result<Driver, RepoOutcome>),
    /// The sink answered the post: success, or what went wrong.
    Published(Result<(), String>),
}

/// Why the store gave no driver.
#[derive(Debug, Clone)]
pub enum RepoOutcome {
    Missing,
    Failed(String),
}

/// What the caller is to do next.
#[derive(Debug)]
pub enum FeeAction {
    /// Read the driver with this identifier from the store.
    LoadDriver(Identifier),
    /// Post this event to the sink.
    Publish(OutboundEvent),
    /// Answer the inbound request.
    Reply(Result<(), ServiceError>),
}

/// One step of handling a fee request.
pub fn step(state: FeeState, input: FeeInput) -> (r: (FeeState, FeeAction))
    ensures
        state is Idle ==> (input matches FeeInput::Received(ev) ==> (!(ev.ty@ == CALCULATE_FEE_TYPE@) ==> (r.0 is Finished
            && r.1 matches FeeAction::Reply(Err(ServiceError::BadRequest(_)))))),
        state is Idle ==> (input matches FeeInput::Received(ev) ==> (ev.ty@ == CALCULATE_FEE_TYPE@ && !is_json(ev.content_type)
            ==> (r.0 is Finished && (r.1 matches FeeAction::Reply(Err(ServiceError::BadRequest(t))) && t@ == content_type_text(
            ev.content_type))))),
        state is Idle ==> (input matches FeeInput::Received(ev) ==> (ev.ty@ == CALCULATE_FEE_TYPE@ && is_json(ev.content_type)
            ==> (ev.payload matches Some(Ok(req)) ==> (r.0 matches FeeState::Loading { request, subject } && request == req
            && text_of(subject) == text_of(ev.subject) && r.1 == FeeAction::LoadDriver(req.driver_id))))),
        state matches FeeState::Loading { request, subject } ==> (input matches FeeInput::Loaded(Err(RepoOutcome::Missing))
            ==> (r.0 is Finished && r.1 == FeeAction::Reply(Err(ServiceError::NotFound(request.driver_id))))),
        state matches FeeState::Loading { request, subject } ==> (input matches FeeInput::Loaded(Err(RepoOutcome::Failed(_)))
            ==> (r.0 is Finished && r.1 matches FeeAction::Reply(Err(ServiceError::Internal(_))))),
        state matches FeeState::Loading { request, subject } ==> (input matches FeeInput::Loaded(Ok(d)) ==> (fee_fits(
            d.fee,
            request.transit_price.0 as int,
        ) ==> (r.0 is Publishing && (r.1 matches FeeAction::Publish(ev) && ev.source@ == EVENT_SOURCE@ && ev.ty@
            == DRIVER_FEE_TYPE@ && ev.content_type@ == JSON_CONTENT_TYPE@ && text_of(ev.subject) == text_of(subject)
            && ev.data.driver_id == request.driver_id && ev.data.fee.0 == driver_fee(
            policy_of(d.fee),
            request.transit_price.0 as int,
        ))))),
        state matches FeeState::Loading { request, subject } ==> (input matches FeeInput::Loaded(Ok(d)) ==> (!fee_fits(
            d.fee,
            request.transit_price.0 as int,
        ) ==> (r.0 is Finished && r.1 matches FeeAction::Reply(Err(ServiceError::Internal(_)))))),
        state is Publishing ==> (input matches FeeInput::Published(Ok(())) ==> (r.0 is Finished && r.1 matches FeeAction::Reply(
            Ok(()),
        ))),
        state is Publishing ==> (input matches FeeInput::Published(Err(_)) ==> (r.0 is Finished && r.1 matches FeeAction::Reply(
            Err(ServiceError::Internal(_)),
        ))),
        r.1 is LoadDriver ==> r.0 is Loading,
        r.1 is Publish ==> r.0 is Publishing,
        r.1 is Reply ==> r.0 is Finished,
{
    match (state, input) {
        (FeeState::Idle, FeeInput::Received(ev)) => {
            if !is_text(&ev.ty, CALCULATE_FEE_TYPE) {
                return (
                    FeeState::Finished,
                    FeeAction::Reply(Err(ServiceError::BadRequest(String::from_str("unsupported event type")))),
                );
            }
            match unwrap_calculatefee(&ev) {
                Ok(s) => {
                    let id = s.entity.driver_id;
                    (FeeState::Loading { request: s.entity, subject: s.id }, FeeAction::LoadDriver(id))
                },
                Err(e) => (FeeState::Finished, FeeAction::Reply(Err(e))),
            }
        },
        (FeeState::Loading { request, subject }, FeeInput::Loaded(loaded)) => match loaded {
            Err(RepoOutcome::Missing) => (
                FeeState::Finished,
                FeeAction::Reply(Err(ServiceError::NotFound(request.driver_id))),
            ),
            Err(RepoOutcome::Failed(t)) => (FeeState::Finished, FeeAction::Reply(Err(ServiceError::Internal(t)))),
            Ok(driver) => match driver.checked_fee(&request.transit_price) {
                Some(fee) => {
                    let payload = DriverFeeEvent { driver_id: request.driver_id, fee };
                    let mut ev = payload.to_builder();
                    ev.subject = subject;
                    (FeeState::Publishing, FeeAction::Publish(ev))
                },
                None => (
                    FeeState::Finished,
                    FeeAction::Reply(Err(ServiceError::Internal(String::from_str("fee out of range")))),
                ),
            },
        },
        (FeeState::Publishing, FeeInput::Published(sent)) => match sent {
            Ok(()) => (FeeState::Finished, FeeAction::Reply(Ok(()))),
            Err(t) => (
                FeeState::Finished,
                FeeAction::Reply(Err(ServiceError::Internal(String::from_str("failed to send event: ").concat(t.as_str())))),
            ),
        },
        (_, _) => (
            FeeState::Finished,
            FeeAction::Reply(Err(ServiceError::Internal(String::from_str("input out of turn")))),
        ),
    }
}

} // verus!
