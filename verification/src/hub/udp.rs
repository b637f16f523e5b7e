//! Processing of the datagrams that nodes send to the hub.
//!
//! One datagram is processed in steps. Where a step needs the database or
//! the action handler, the processor returns a request naming what it needs
//! together with what it carries forward; the caller answers through the
//! matching method. The decisions, and every change of the communication
//! state, are made here.

use vstd::prelude::*;

use crate::common::codec::{write_text, CodecError};
use crate::common::json::{json_string_text, push_string};
use crate::common::udp::{ActionId, UdpMessage, UdpMessageView};
use crate::hub::db::{DeviceRecord, EventRecord};
use crate::hub::state::{
    enabled_ids, ids_of, manages, observe_states, CommunicationStateManager, DeviceStateView,
    StateUpdateError,
};
use crate::text::{blank, is_blank, utf8_text};

verus! {

/// The `type` of the hub's discovery request.
pub const HELLO_REQUEST_TYPE: &'static str = "HELLO_REQUEST";

/// The JSON text of the discovery request.
pub open spec fn hello_request_json() -> Seq<char> {
    "{\"type\":"@ + json_string_text(HELLO_REQUEST_TYPE@) + "}"@
}

/// Writes the hub-only discovery request. It is none of the four messages a
/// node sends and is never taken for a node's HELLO.
pub fn encode_hello_request(destination: &mut [u8]) -> (r: Result<usize, CodecError>)
    ensures
        final(destination)@.len() == old(destination)@.len(),
        match r {
            Ok(n) => {
                &&& n == vstd::utf8::encode_utf8(hello_request_json()).len()
                &&& final(destination)@.subrange(0, n as int) == vstd::utf8::encode_utf8(
                    hello_request_json(),
                )
                &&& n <= old(destination)@.len()
                &&& final(destination)@.subrange(n as int, final(destination)@.len() as int)
                    == old(destination)@.subrange(n as int, old(destination)@.len() as int)
            },
            Err(e) => e == CodecError::BufferTooSmall && vstd::utf8::encode_utf8(
                hello_request_json(),
            ).len() > old(destination)@.len(),
        },
{
    let mut json = String::new();
    json.append("{\"type\":");
    push_string(&mut json, HELLO_REQUEST_TYPE);
    json.append("}");
    write_text(json.as_str(), destination)
}

/// An accepted EVENT as the action handler sees it.
#[derive(Clone, Debug, PartialEq, Eq)]
pub struct EventContext<'a> {
    pub device_id: &'a str,
    pub event_id: &'a str,
    pub action_id: ActionId,
    pub payload: &'a str,
}

/// What runs the action of an accepted EVENT.
pub trait ActionHandler {
    type Error;

    /// Checks an action before the EVENT that names it is accepted.
    /// Without an implementation of its own, every action passes.
    fn validate_event(&self, action_id: ActionId) -> (r: Result<(), Self::Error>)
        default_ensures
            r is Ok,
    {
        Ok(())
    }

    fn handle_event(&mut self, event: EventContext<'_>) -> Result<(), Self::Error>;
}

/// An action handler that accepts every action and does nothing.
#[derive(Debug, Default)]
pub struct NoopActionHandler;

impl ActionHandler for NoopActionHandler {
    type Error = ();

    fn handle_event(&mut self, event: EventContext<'_>) -> (r: Result<(), ()>)
        ensures
            r is Ok,
    {
        Ok(())
    }
}

#[derive(Clone, Debug, PartialEq, Eq)]
pub enum ActionExecutionStatus {
    Applied,
    Failed(String),
    SkippedDuplicate,
}

pub ghost enum ActionStatusView {
    Applied,
    Failed(Seq<char>),
    SkippedDuplicate,
}

impl View for ActionExecutionStatus {
    type V = ActionStatusView;

    open spec fn view(&self) -> ActionStatusView {
        match self {
            ActionExecutionStatus::Applied => ActionStatusView::Applied,
            ActionExecutionStatus::Failed(m) => ActionStatusView::Failed(m@),
            ActionExecutionStatus::SkippedDuplicate => ActionStatusView::SkippedDuplicate,
        }
    }
}

#[derive(Debug, PartialEq, Eq)]
pub enum PacketOutcome {
    Ignored,
    HelloAccepted { device_id: String },
    HeartbeatAccepted { device_id: String },
    EventAccepted {
        device_id: String,
        event_id: String,
        duplicate: bool,
        action_status: ActionExecutionStatus,
        ack: Box<UdpMessage>,
    },
}

pub ghost enum PacketOutcomeView {
    Ignored,
    HelloAccepted { device_id: Seq<char> },
    HeartbeatAccepted { device_id: Seq<char> },
    EventAccepted {
        device_id: Seq<char>,
        event_id: Seq<char>,
        duplicate: bool,
        action_status: ActionStatusView,
        ack: UdpMessageView,
    },
}

impl View for PacketOutcome {
    type V = PacketOutcomeView;

    open spec fn view(&self) -> PacketOutcomeView {
        match self {
            PacketOutcome::Ignored => PacketOutcomeView::Ignored,
            PacketOutcome::HelloAccepted { device_id } => PacketOutcomeView::HelloAccepted {
                device_id: device_id@,
            },
            PacketOutcome::HeartbeatAccepted { device_id } => PacketOutcomeView::HeartbeatAccepted {
                device_id: device_id@,
            },
            PacketOutcome::EventAccepted { device_id, event_id, duplicate, action_status, ack } =>
                PacketOutcomeView::EventAccepted {
                device_id: device_id@,
                event_id: event_id@,
                duplicate: *duplicate,
                action_status: action_status@,
                ack: (**ack)@,
            },
        }
    }
}

/// The outcome for an accepted EVENT: its ACK names the device and the event.
pub open spec fn event_accepted(
    device_id: Seq<char>,
    event_id: Seq<char>,
    duplicate: bool,
    action_status: ActionStatusView,
) -> PacketOutcomeView {
    PacketOutcomeView::EventAccepted {
        device_id,
        event_id,
        duplicate,
        action_status,
        ack: UdpMessageView::Ack { device_id, event_id },
    }
}

/// Why a datagram was refused. `E` is the action handler's error, `D` the
/// database's.
#[derive(Debug)]
pub enum UdpProcessingError<E, D> {
    InvalidMessage(CodecError),
    InvalidDeviceId,
    InvalidEventId,
    State(StateUpdateError),
    Database(D),
    ActionValidation(E),
}

/// The Rust name of a codec error, as error messages print it.
pub open spec fn codec_error_ident(e: CodecError) -> Seq<char> {
    match e {
        CodecError::BufferTooSmall => "BufferTooSmall"@,
        CodecError::InvalidJson => "InvalidJson"@,
        CodecError::MissingLineFeed => "MissingLineFeed"@,
        CodecError::TrailingData => "TrailingData"@,
    }
}

fn codec_error_ident_str(e: CodecError) -> (r: &'static str)
    ensures
        r@ == codec_error_ident(e),
{
    match e {
        CodecError::BufferTooSmall => "BufferTooSmall",
        CodecError::InvalidJson => "InvalidJson",
        CodecError::MissingLineFeed => "MissingLineFeed",
        CodecError::TrailingData => "TrailingData",
    }
}

/// The Rust form of a state update error, as error messages print it.
pub open spec fn state_update_error_ident(e: StateUpdateError) -> Seq<char> {
    match e {
        StateUpdateError::InvalidMessage(c) => "InvalidMessage("@ + codec_error_ident(c) + ")"@,
        StateUpdateError::EmptyDeviceId => "EmptyDeviceId"@,
    }
}

/// The message of a processing error; `inner` is the text of the database
/// or validation error it carries, as that error's own type renders it.
pub open spec fn processing_error_text<E, D>(e: UdpProcessingError<E, D>, inner: Seq<char>) -> Seq<char> {
    match e {
        UdpProcessingError::InvalidMessage(c) => "invalid UDP message: "@ + codec_error_ident(c),
        UdpProcessingError::InvalidDeviceId => "device_id must not be empty"@,
        UdpProcessingError::InvalidEventId => "event_id must not be empty"@,
        UdpProcessingError::State(s) => "state update failed: "@ + state_update_error_ident(s),
        UdpProcessingError::Database(_) => "database operation failed: "@ + inner,
        UdpProcessingError::ActionValidation(_) => "Action validation failed: "@ + inner,
    }
}

impl<E, D> UdpProcessingError<E, D> {
    pub fn message_with(&self, inner: &str) -> (r: String)
        ensures
            r@ == processing_error_text(*self, inner@),
    {
        let mut out = String::new();
        match self {
            UdpProcessingError::InvalidMessage(c) => {
                out.append("invalid UDP message: ");
                out.append(codec_error_ident_str(*c));
            },
            UdpProcessingError::InvalidDeviceId => {
                out.append("device_id must not be empty");
            },
            UdpProcessingError::InvalidEventId => {
                out.append("event_id must not be empty");
            },
            UdpProcessingError::State(e) => {
                out.append("state update failed: ");
                match e {
                    StateUpdateError::InvalidMessage(c) => {
                        out.append("InvalidMessage(");
                        out.append(codec_error_ident_str(*c));
                        out.append(")");
                    },
                    StateUpdateError::EmptyDeviceId => {
                        out.append("EmptyDeviceId");
                    },
                }
            },
            UdpProcessingError::Database(_) => {
                out.append("database operation failed: ");
                out.append(inner);
            },
            UdpProcessingError::ActionValidation(_) => {
                out.append("Action validation failed: ");
                out.append(inner);
            },
        }
        proof {
            assert(out@ =~= processing_error_text(*self, inner@));
        }
        out
    }
}

/// A datagram from a managed device, waiting for the database to tell
/// whether that device is registered and enabled.
#[derive(Debug)]
pub struct DeviceCheck {
    pub message: UdpMessage,
    pub payload: Vec<u8>,
    pub now: u64,
    pub received_at: String,
}

/// An EVENT on its way to acceptance.
#[derive(Debug)]
pub struct EventInFlight {
    pub device_id: String,
    pub event_id: String,
    pub action_id: ActionId,
    pub payload: Vec<u8>,
    pub now: u64,
    pub received_at: String,
}

/// An accepted EVENT to be written to the history.
#[derive(Debug)]
pub struct EventInsert {
    pub record: EventRecord,
    pub action_id: ActionId,
}

/// A new EVENT, recorded, whose action is to run.
#[derive(Debug)]
pub struct ActionRun {
    pub device_id: String,
    pub event_id: String,
    pub action_id: ActionId,
    pub payload: String,
}

impl ActionRun {
    /// The EVENT as the action handler sees it.
    pub fn context(&self) -> (r: EventContext<'_>)
        ensures
            r.device_id@ == self.device_id@,
            r.event_id@ == self.event_id@,
            r.action_id == self.action_id,
            r.payload@ == self.payload@,
    {
        EventContext {
            device_id: self.device_id.as_str(),
            event_id: self.event_id.as_str(),
            action_id: self.action_id,
            payload: self.payload.as_str(),
        }
    }
}

/// The next step of processing one datagram.
#[derive(Debug)]
pub enum UdpStep<E, D> {
    /// Ask the database whether `message`'s device is registered and enabled.
    CheckDevice(DeviceCheck),
    /// Ask the database whether this EVENT is already in the history.
    LookUpEvent(EventInFlight),
    /// Ask the action handler to check the EVENT's action.
    ValidateAction(EventInFlight),
    /// Insert the record into the event history; it reports whether the row
    /// was new.
    InsertEvent(EventInsert),
    /// Run the EVENT's action.
    RunAction(ActionRun),
    Done(Result<PacketOutcome, UdpProcessingError<E, D>>),
}

/// Whether a message is an EVENT with a blank event ID.
pub open spec fn blank_event_id(m: UdpMessageView) -> bool {
    m matches UdpMessageView::Event { event_id, .. } && is_blank(event_id)
}

/// The identifiers of a message are usable: a non-blank device ID and, for an
/// EVENT, a non-blank event ID.
pub open spec fn identifiers_check<E, D>(m: UdpMessageView) -> Option<UdpProcessingError<E, D>> {
    if is_blank(m.device_id()) {
        Some(UdpProcessingError::InvalidDeviceId)
    } else if m matches UdpMessageView::Event { event_id, .. } && is_blank(event_id) {
        Some(UdpProcessingError::InvalidEventId)
    } else {
        None
    }
}

/// Checks the identifiers that processing relies on.
pub fn validate_message<E, D>(message: &UdpMessage) -> (r: Result<(), UdpProcessingError<E, D>>)
    ensures
        match identifiers_check::<E, D>(message@) {
            Some(e) => r == Err::<(), UdpProcessingError<E, D>>(e),
            None => r is Ok,
        },
{
    if blank(device_id_of(message)) {
        return Err(UdpProcessingError::InvalidDeviceId);
    }
    if let UdpMessage::Event { event_id, .. } = message {
        if blank(event_id.as_str()) {
            return Err(UdpProcessingError::InvalidEventId);
        }
    }
    Ok(())
}

pub fn device_id_of(message: &UdpMessage) -> (r: &str)
    ensures
        r@ == message@.device_id(),
{
    message.device_id()
}

/// What the first step makes of a datagram, the processor being `p`:
/// an undecodable datagram or unusable identifiers are refused, a message
/// from a device the processor does not manage is ignored, and the rest goes
/// on to the device check.
pub open spec fn received<E, D>(
    p: HubUdpProcessor,
    decoded: Result<UdpMessage, CodecError>,
    payload: Seq<u8>,
    now: u64,
    received_at: Seq<char>,
    r: UdpStep<E, D>,
) -> bool {
    match decoded {
        Err(e) => r == UdpStep::<E, D>::Done(Err(UdpProcessingError::InvalidMessage(e))),
        Ok(m) => match identifiers_check::<E, D>(m@) {
            Some(e) => r == UdpStep::<E, D>::Done(Err(e)),
            None => if !manages(p.states(), m@.device_id()) {
                r == UdpStep::<E, D>::Done(Ok(PacketOutcome::Ignored))
            } else {
                r matches UdpStep::CheckDevice(c) && c.message@ == m@ && c.payload@ == payload
                    && c.now == now && c.received_at@ == received_at
            },
        },
    }
}

/// The device check, from processor `p` to processor `q`: a device the
/// database does not hold as enabled, and an ACK, are ignored; an EVENT goes
/// on to the history lookup; a HELLO or HEARTBEAT marks the device as heard
/// from and is accepted. Only the last case changes the processor.
pub open spec fn device_step<E, D>(
    p: HubUdpProcessor,
    check: DeviceCheck,
    enabled: Result<bool, D>,
    q: HubUdpProcessor,
    r: UdpStep<E, D>,
) -> bool {
    match enabled {
        Err(d) => r == UdpStep::<E, D>::Done(Err(UdpProcessingError::Database(d))) && q == p,
        Ok(false) => r == UdpStep::<E, D>::Done(Ok(PacketOutcome::Ignored)) && q == p,
        Ok(true) => match check.message@ {
            UdpMessageView::Ack { .. } => r == UdpStep::<E, D>::Done(Ok(PacketOutcome::Ignored)) && q
                == p,
            UdpMessageView::Event { device_id, event_id, action_id } => r matches UdpStep::LookUpEvent(
                l,
            ) && l.device_id@ == device_id && l.event_id@ == event_id && l.action_id == action_id
                && l.payload@ == check.payload@ && l.now == check.now && l.received_at@
                == check.received_at@ && q == p,
            _ => if is_blank(check.message@.device_id()) {
                r == UdpStep::<E, D>::Done(
                    Err(UdpProcessingError::State(StateUpdateError::EmptyDeviceId)),
                ) && q.states() == p.states()
            } else {
                &&& q.states() == observe_states(p.states(), check.message@, check.now)
                &&& r matches UdpStep::Done(Ok(o))
                &&& o@ == if check.message@ is Hello {
                    PacketOutcomeView::HelloAccepted { device_id: check.message@.device_id() }
                } else {
                    PacketOutcomeView::HeartbeatAccepted { device_id: check.message@.device_id() }
                }
            },
        },
    }
}

/// The history lookup, from processor `p` to processor `q`: a new EVENT goes
/// on to the action check unchanged; a recorded one marks its device as
/// heard from and is acknowledged again as a duplicate, its action not run.
pub open spec fn lookup_step<E, D>(
    p: HubUdpProcessor,
    flight: EventInFlight,
    known: Result<bool, D>,
    q: HubUdpProcessor,
    r: UdpStep<E, D>,
) -> bool {
    match known {
        Err(d) => r == UdpStep::<E, D>::Done(Err(UdpProcessingError::Database(d))) && q == p,
        Ok(false) => r == UdpStep::<E, D>::ValidateAction(flight) && q == p,
        Ok(true) => if is_blank(flight.device_id@) {
            r == UdpStep::<E, D>::Done(Err(UdpProcessingError::State(StateUpdateError::EmptyDeviceId)))
                && q.states() == p.states()
        } else {
            &&& q.states() == observe_states(p.states(), flight_message(flight), flight.now)
            &&& r matches UdpStep::Done(Ok(o))
            &&& o@ == duplicate_event(flight.device_id@, flight.event_id@)
        },
    }
}

/// The action check, from processor `p` to processor `q`: a refused action
/// ends processing with no change; otherwise the device is marked as heard
/// from and the EVENT, its payload as text, goes on to the history.
pub open spec fn validation_step<E, D>(
    p: HubUdpProcessor,
    flight: EventInFlight,
    valid: Result<(), E>,
    q: HubUdpProcessor,
    r: UdpStep<E, D>,
) -> bool {
    match valid {
        Err(e) => r == UdpStep::<E, D>::Done(Err(UdpProcessingError::ActionValidation(e))) && q == p,
        Ok(()) => if is_blank(flight.device_id@) {
            r == UdpStep::<E, D>::Done(Err(UdpProcessingError::State(StateUpdateError::EmptyDeviceId)))
                && q.states() == p.states()
        } else {
            &&& q.states() == observe_states(p.states(), flight_message(flight), flight.now)
            &&& if vstd::utf8::valid_utf8(flight.payload@) {
                &&& r matches UdpStep::InsertEvent(ins)
                &&& ins.action_id == flight.action_id
                &&& ins.record.id is None
                &&& ins.record.received_at@ == flight.received_at@
                &&& ins.record.device_id@ == flight.device_id@
                &&& ins.record.event_id@ == flight.event_id@
                &&& ins.record.payload@ == vstd::utf8::decode_utf8(flight.payload@)
            } else {
                r == UdpStep::<E, D>::Done(
                    Err(UdpProcessingError::InvalidMessage(CodecError::InvalidJson)),
                )
            }
        },
    }
}

/// The history insert: a row that was already there is acknowledged as a
/// duplicate, a new one goes on to run its action.
pub open spec fn insert_step<E, D>(insert: EventInsert, inserted: Result<bool, D>, r: UdpStep<E, D>) -> bool {
    match inserted {
        Err(d) => r == UdpStep::<E, D>::Done(Err(UdpProcessingError::Database(d))),
        Ok(false) => r matches UdpStep::Done(Ok(o)) && o@ == duplicate_event(
            insert.record.device_id@,
            insert.record.event_id@,
        ),
        Ok(true) => r matches UdpStep::RunAction(run) && run.device_id@ == insert.record.device_id@
            && run.event_id@ == insert.record.event_id@ && run.action_id == insert.action_id
            && run.payload@ == insert.record.payload@,
    }
}

/// The last step of a new EVENT: acknowledged whether its action succeeded
/// or failed.
pub open spec fn run_step<E, D>(run: ActionRun, result: Result<(), String>, r: UdpStep<E, D>) -> bool {
    r matches UdpStep::Done(Ok(o)) && o@ == event_accepted(
        run.device_id@,
        run.event_id@,
        false,
        match result {
            Ok(()) => ActionStatusView::Applied,
            Err(m) => ActionStatusView::Failed(m@),
        },
    )
}

/// Processes the datagrams received by the hub. The database and the action
/// handler stay with the caller.
pub struct HubUdpProcessor {
    state: CommunicationStateManager,
}

impl HubUdpProcessor {
    pub closed spec fn spec_state(&self) -> CommunicationStateManager {
        self.state
    }

    pub open spec fn states(&self) -> Seq<DeviceStateView> {
        self.spec_state().states()
    }

    pub open spec fn wf(&self) -> bool {
        self.spec_state().wf()
    }

    pub fn new(state: CommunicationStateManager) -> (r: Self)
        ensures
            r.spec_state() == state,
    {
        HubUdpProcessor { state }
    }

    /// A processor for the enabled devices among `records`.
    pub fn from_devices(records: &[DeviceRecord], initial_wait_started_at: u64, offline_timeout_ms: u64) -> (r: Self)
        ensures
            r.wf(),
            r.spec_state().offline_timeout() == offline_timeout_ms,
            forall|i: int|
                0 <= i < r.states().len() ==> {
                    &&& (#[trigger] r.states()[i]).status == crate::hub::state::CommunicationStatus::InitialWait
                    &&& r.states()[i].initial_wait_started_at == initial_wait_started_at
                    &&& r.states()[i].last_seen_at is None
                    &&& exists|j: int|
                        0 <= j < records@.len() && (#[trigger] records@[j]).enabled
                            && records@[j].device_id@ == r.states()[i].device_id
                },
            forall|j: int|
                0 <= j < records@.len() && (#[trigger] records@[j]).enabled ==> manages(
                    r.states(),
                    records@[j].device_id@,
                ),
            ids_of(r.states()) == enabled_ids(records@),
            forall|id: Seq<char>|
                #[trigger] manages(r.states(), id) <==> exists|j: int|
                    0 <= j < records@.len() && (#[trigger] records@[j]).enabled && records@[j].device_id@
                        == id,
    {
        HubUdpProcessor {
            state: CommunicationStateManager::from_devices(
                records,
                initial_wait_started_at,
                offline_timeout_ms,
            ),
        }
    }

    pub fn state(&self) -> (r: &CommunicationStateManager)
        ensures
            *r == self.spec_state(),
    {
        &self.state
    }

    pub fn mark_offline(&mut self, now: u64)
        ensures
            final(self).wf(),
            final(self).spec_state().offline_timeout() == old(self).spec_state().offline_timeout(),
            final(self).states() == crate::hub::state::offline_states(
                old(self).states(),
                now,
                old(self).spec_state().offline_timeout(),
            ),
    {
        proof {
            use_type_invariant(&self.state);
        }
        self.state.mark_offline(now);
    }

    /// Starts processing one received datagram: `decoded` is what decoding
    /// `payload` gave. Nothing changes yet.
    pub fn process_datagram<E, D>(
        &mut self,
        decoded: Result<UdpMessage, CodecError>,
        payload: &[u8],
        now: u64,
        received_at: &str,
    ) -> (r: UdpStep<E, D>)
        ensures
            *final(self) == *old(self),
            received(*old(self), decoded, payload@, now, received_at@, r),
            (r matches UdpStep::Done(Err(UdpProcessingError::InvalidMessage(_)))) <==> decoded is Err,
            r == UdpStep::<E, D>::Done(Err(UdpProcessingError::InvalidDeviceId)) <==> (decoded matches Ok(
                m,
            ) && is_blank(m@.device_id())),
            r == UdpStep::<E, D>::Done(Err(UdpProcessingError::InvalidEventId)) <==> (decoded matches Ok(
                m,
            ) && !is_blank(m@.device_id()) && blank_event_id(m@)),
    {
        let message = match decoded {
            Err(e) => {
                return UdpStep::Done(Err(UdpProcessingError::InvalidMessage(e)));
            },
            Ok(m) => m,
        };
        if let Err(e) = validate_message::<E, D>(&message) {
            return UdpStep::Done(Err(e));
        }
        if self.state.device(device_id_of(&message)).is_none() {
            return UdpStep::Done(Ok(PacketOutcome::Ignored));
        }
        UdpStep::CheckDevice(
            DeviceCheck {
                message,
                payload: vstd::slice::slice_to_vec(payload),
                now,
                received_at: received_at.to_owned(),
            },
        )
    }

    /// Continues after the device check: `enabled` is whether the database
    /// holds the device as enabled. A HELLO or HEARTBEAT is accepted here.
    pub fn device_checked<E, D>(&mut self, check: DeviceCheck, enabled: Result<bool, D>) -> (r:
        UdpStep<E, D>)
        ensures
            final(self).wf(),
            final(self).spec_state().offline_timeout() == old(self).spec_state().offline_timeout(),
            device_step(*old(self), check, enabled, *final(self), r),
    {
        proof {
            use_type_invariant(&self.state);
        }
        match enabled {
            Err(d) => UdpStep::Done(Err(UdpProcessingError::Database(d))),
            Ok(false) => UdpStep::Done(Ok(PacketOutcome::Ignored)),
            Ok(true) => {
                let DeviceCheck { message, payload, now, received_at } = check;
                match message {
                    UdpMessage::Ack { .. } => UdpStep::Done(Ok(PacketOutcome::Ignored)),
                    UdpMessage::Event { device_id, event_id, action_id } => UdpStep::LookUpEvent(
                        EventInFlight { device_id, event_id, action_id, payload, now, received_at },
                    ),
                    UdpMessage::Hello { device_id } => {
                        let seen = UdpMessage::Hello { device_id };
                        match self.state.observe_message(&seen, now) {
                            Err(e) => UdpStep::Done(Err(UdpProcessingError::State(e))),
                            Ok(_) => match seen {
                                UdpMessage::Hello { device_id } => UdpStep::Done(
                                    Ok(PacketOutcome::HelloAccepted { device_id }),
                                ),
                                _ => UdpStep::Done(Ok(PacketOutcome::Ignored)),
                            },
                        }
                    },
                    UdpMessage::Heartbeat { device_id } => {
                        let seen = UdpMessage::Heartbeat { device_id };
                        match self.state.observe_message(&seen, now) {
                            Err(e) => UdpStep::Done(Err(UdpProcessingError::State(e))),
                            Ok(_) => match seen {
                                UdpMessage::Heartbeat { device_id } => UdpStep::Done(
                                    Ok(PacketOutcome::HeartbeatAccepted { device_id }),
                                ),
                                _ => UdpStep::Done(Ok(PacketOutcome::Ignored)),
                            },
                        }
                    },
                }
            },
        }
    }
}

/// The outcome for an EVENT whose ACK is sent without running its action
/// again.
pub open spec fn duplicate_event(device_id: Seq<char>, event_id: Seq<char>) -> PacketOutcomeView {
    event_accepted(device_id, event_id, true, ActionStatusView::SkippedDuplicate)
}

/// The EVENT message carried by an event in flight.
pub open spec fn flight_message(f: EventInFlight) -> UdpMessageView {
    UdpMessageView::Event { device_id: f.device_id@, event_id: f.event_id@, action_id: f.action_id }
}

fn ack_for(device_id: &String, event_id: &String) -> (r: Box<UdpMessage>)
    ensures
        (*r)@ == (UdpMessageView::Ack { device_id: device_id@, event_id: event_id@ }),
{
    Box::new(UdpMessage::Ack { device_id: device_id.clone(), event_id: event_id.clone() })
}

impl HubUdpProcessor {
    /// Marks the EVENT's device as heard from.
    fn observe_event(&mut self, flight: &EventInFlight) -> (r: Result<(), StateUpdateError>)
        ensures
            final(self).wf(),
            final(self).spec_state().offline_timeout() == old(self).spec_state().offline_timeout(),
            if is_blank(flight.device_id@) {
                r == Err::<(), StateUpdateError>(StateUpdateError::EmptyDeviceId)
                    && final(self).states() == old(self).states()
            } else {
                r is Ok && final(self).states() == observe_states(
                    old(self).states(),
                    flight_message(*flight),
                    flight.now,
                )
            },
    {
        proof {
            use_type_invariant(&self.state);
        }
        let message = UdpMessage::Event {
            device_id: flight.device_id.clone(),
            event_id: flight.event_id.clone(),
            action_id: flight.action_id,
        };
        match self.state.observe_message(&message, flight.now) {
            Ok(_) => Ok(()),
            Err(e) => Err(e),
        }
    }

    /// Continues after the history lookup: `known` is whether the EVENT is
    /// already recorded. A known EVENT is answered with its ACK again, without
    /// validating or running its action.
    pub fn event_looked_up<E, D>(&mut self, flight: EventInFlight, known: Result<bool, D>) -> (r:
        UdpStep<E, D>)
        ensures
            final(self).wf(),
            final(self).spec_state().offline_timeout() == old(self).spec_state().offline_timeout(),
            lookup_step(*old(self), flight, known, *final(self), r),
    {
        proof {
            use_type_invariant(&self.state);
        }
        match known {
            Err(d) => UdpStep::Done(Err(UdpProcessingError::Database(d))),
            Ok(false) => UdpStep::ValidateAction(flight),
            Ok(true) => {
                match self.observe_event(&flight) {
                    Err(e) => UdpStep::Done(Err(UdpProcessingError::State(e))),
                    Ok(()) => {
                        let ack = ack_for(&flight.device_id, &flight.event_id);
                        UdpStep::Done(
                            Ok(
                                PacketOutcome::EventAccepted {
                                    device_id: flight.device_id,
                                    event_id: flight.event_id,
                                    duplicate: true,
                                    action_status: ActionExecutionStatus::SkippedDuplicate,
                                    ack,
                                },
                            ),
                        )
                    },
                }
            },
        }
    }

    /// Continues after the action check. An EVENT whose action is refused is
    /// not accepted: no history, no state change, no ACK. Otherwise the device
    /// is marked as heard from and the EVENT goes to the history, its payload
    /// stored as text.
    pub fn action_validated<E, D>(&mut self, flight: EventInFlight, valid: Result<(), E>) -> (r:
        UdpStep<E, D>)
        ensures
            final(self).wf(),
            final(self).spec_state().offline_timeout() == old(self).spec_state().offline_timeout(),
            validation_step(*old(self), flight, valid, *final(self), r),
    {
        proof {
            use_type_invariant(&self.state);
        }
        if let Err(e) = valid {
            return UdpStep::Done(Err(UdpProcessingError::ActionValidation(e)));
        }
        if let Err(e) = self.observe_event(&flight) {
            return UdpStep::Done(Err(UdpProcessingError::State(e)));
        }
        let payload = match utf8_text(flight.payload.as_slice()) {
            None => {
                return UdpStep::Done(Err(UdpProcessingError::InvalidMessage(CodecError::InvalidJson)));
            },
            Some(text) => text,
        };
        UdpStep::InsertEvent(
            EventInsert {
                record: EventRecord {
                    id: None,
                    received_at: flight.received_at,
                    device_id: flight.device_id,
                    event_id: flight.event_id,
                    payload,
                },
                action_id: flight.action_id,
            },
        )
    }
}

/// Continues after the history insert: `inserted` is whether the row was
/// new. An EVENT that was already recorded is answered with its ACK without
/// running its action.
pub fn event_inserted<E, D>(insert: EventInsert, inserted: Result<bool, D>) -> (r: UdpStep<E, D>)
    ensures
        insert_step(insert, inserted, r),
{
    match inserted {
        Err(d) => UdpStep::Done(Err(UdpProcessingError::Database(d))),
        Ok(false) => {
            let ack = ack_for(&insert.record.device_id, &insert.record.event_id);
            UdpStep::Done(
                Ok(
                    PacketOutcome::EventAccepted {
                        device_id: insert.record.device_id,
                        event_id: insert.record.event_id,
                        duplicate: true,
                        action_status: ActionExecutionStatus::SkippedDuplicate,
                        ack,
                    },
                ),
            )
        },
        Ok(true) => UdpStep::RunAction(
            ActionRun {
                device_id: insert.record.device_id,
                event_id: insert.record.event_id,
                action_id: insert.action_id,
                payload: insert.record.payload,
            },
        ),
    }
}

/// Finishes a new EVENT once its action ran. The EVENT stays accepted and is
/// acknowledged whether or not the action succeeded; a failure is reported
/// with its message and is not retried.
pub fn action_ran<E, D>(run: ActionRun, result: Result<(), String>) -> (r: UdpStep<E, D>)
    ensures
        run_step(run, result, r),
{
    let action_status = match result {
        Ok(()) => ActionExecutionStatus::Applied,
        Err(message) => ActionExecutionStatus::Failed(message),
    };
    let ack = ack_for(&run.device_id, &run.event_id);
    UdpStep::Done(
        Ok(
            PacketOutcome::EventAccepted {
                device_id: run.device_id,
                event_id: run.event_id,
                duplicate: false,
                action_status,
                ack,
            },
        ),
    )
}

/// A datagram is ignored only by a step that leaves the processor as it
/// was. On arrival, exactly a message with usable identifiers from a device
/// the processor does not manage is ignored; at the device check, exactly a
/// message whose device the database does not hold as enabled, or an ACK.
/// Neither step hands anything to the history or the action handler.
pub proof fn law_ignored_datagram_changes_nothing<E, D>(
    p: HubUdpProcessor,
    decoded: Result<UdpMessage, CodecError>,
    payload: Seq<u8>,
    now: u64,
    received_at: Seq<char>,
    first: UdpStep<E, D>,
    check: DeviceCheck,
    enabled: Result<bool, D>,
    q: HubUdpProcessor,
    second: UdpStep<E, D>,
)
    requires
        received(p, decoded, payload, now, received_at, first),
        first == UdpStep::<E, D>::CheckDevice(check) ==> device_step(p, check, enabled, q, second),
    ensures
        first == UdpStep::<E, D>::Done(Ok(PacketOutcome::Ignored)) <==> (decoded matches Ok(m)
            && identifiers_check::<E, D>(m@) is None && !manages(p.states(), m@.device_id())),
        first == UdpStep::<E, D>::CheckDevice(check) ==> (second == UdpStep::<E, D>::Done(
            Ok(PacketOutcome::Ignored),
        ) <==> (enabled == Ok::<bool, D>(false) || (enabled == Ok::<bool, D>(true)
            && check.message@ is Ack))),
        first == UdpStep::<E, D>::CheckDevice(check) && second == UdpStep::<E, D>::Done(
            Ok(PacketOutcome::Ignored),
        ) ==> q == p,
{
    if first == UdpStep::<E, D>::CheckDevice(check) {
        if enabled == Ok::<bool, D>(true) && !(check.message@ is Ack) && !(check.message@ is Event) {
            if !is_blank(check.message@.device_id()) {
                let o = second->Done_0->Ok_0;
                assert(o@ != PacketOutcomeView::Ignored);
            }
        }
    }
}

/// An EVENT whose action is refused is answered with the refusal and leaves
/// the processor as it was: on its way through the device check and the
/// history lookup nothing changed, and it never reaches the history insert,
/// so it is neither recorded, nor acknowledged, nor handed to the action.
pub proof fn law_refused_action_leaves_no_trace<E, D>(
    p0: HubUdpProcessor,
    check: DeviceCheck,
    p1: HubUdpProcessor,
    flight: EventInFlight,
    p2: HubUdpProcessor,
    checked: EventInFlight,
    e: E,
    p3: HubUdpProcessor,
    r: UdpStep<E, D>,
)
    requires
        device_step(p0, check, Ok::<bool, D>(true), p1, UdpStep::<E, D>::LookUpEvent(flight)),
        lookup_step(p1, flight, Ok::<bool, D>(false), p2, UdpStep::<E, D>::ValidateAction(checked)),
        validation_step(p2, checked, Err::<(), E>(e), p3, r),
    ensures
        r == UdpStep::<E, D>::Done(Err(UdpProcessingError::ActionValidation(e))),
        p3 == p0,
        checked == flight,
        check.message@ == flight_message(flight),
{
}

/// A new EVENT whose action fails is still accepted and acknowledged, with
/// the failure reported; the same EVENT sent again once it is recorded is
/// acknowledged as a duplicate at the history lookup and goes no further,
/// so its action runs once.
pub proof fn law_failed_action_still_acknowledged<E, D>(
    p: HubUdpProcessor,
    flight: EventInFlight,
    q: HubUdpProcessor,
    insert: EventInsert,
    run: ActionRun,
    message: String,
    r: UdpStep<E, D>,
    p_again: HubUdpProcessor,
    again: EventInFlight,
    q_again: HubUdpProcessor,
    r_again: UdpStep<E, D>,
)
    requires
        validation_step(p, flight, Ok::<(), E>(()), q, UdpStep::<E, D>::InsertEvent(insert)),
        insert_step(insert, Ok::<bool, D>(true), UdpStep::<E, D>::RunAction(run)),
        run_step(run, Err::<(), String>(message), r),
        lookup_step(p_again, again, Ok::<bool, D>(true), q_again, r_again),
        again.device_id@ == flight.device_id@,
        again.event_id@ == flight.event_id@,
    ensures
        r matches UdpStep::Done(Ok(o)) && o@ == event_accepted(
            flight.device_id@,
            flight.event_id@,
            false,
            ActionStatusView::Failed(message@),
        ),
        r_again matches UdpStep::Done(Ok(o)) && o@ == event_accepted(
            flight.device_id@,
            flight.event_id@,
            true,
            ActionStatusView::SkippedDuplicate,
        ),
{
}

/// A datagram that does not decode, or whose identifiers are unusable, is
/// refused on arrival with the matching error, and processing ends there:
/// no database query, no state change and no action follow.
pub proof fn law_refused_on_arrival<E, D>(
    p: HubUdpProcessor,
    decoded: Result<UdpMessage, CodecError>,
    payload: Seq<u8>,
    now: u64,
    received_at: Seq<char>,
    r: UdpStep<E, D>,
)
    requires
        received(p, decoded, payload, now, received_at, r),
    ensures
        decoded matches Err(e) ==> r == UdpStep::<E, D>::Done(Err(UdpProcessingError::InvalidMessage(e))),
        decoded matches Ok(m) && is_blank(m@.device_id()) ==> r == UdpStep::<E, D>::Done(
            Err(UdpProcessingError::InvalidDeviceId),
        ),
        decoded matches Ok(m) && !is_blank(m@.device_id()) && blank_event_id(m@) ==> r
            == UdpStep::<E, D>::Done(Err(UdpProcessingError::InvalidEventId)),
{
}

} // verus!
