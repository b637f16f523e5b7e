//! The node's side of the UDP protocol: discovery, event identifiers,
//! retries and ACK correlation. What an action ID means is the hub's
//! business.

use vstd::prelude::*;

use crate::common::codec::CodecError;
use crate::common::types::{text, utf8_len, DeviceId, EventId, DEVICE_ID_CAPACITY};
use crate::common::udp::{udp_message_json, UdpMessage, UdpMessageView};
use crate::node::input::TriggeredAction;
use crate::text::{hex_char, hex_fixed, hex_string, str_equal};

verus! {

#[derive(Clone, Copy, Debug, PartialEq, Eq, Structural)]
pub enum ProtocolError {
    DeviceIdTooLong,
    EventIdTooLong,
    SequenceExhausted,
    BufferTooSmall,
}

/// Whether a datagram is the hub's discovery request. `message_type` is the
/// `type` member of the datagram when it decoded as an object with that one
/// member, `None` otherwise.
pub fn is_hello_request(message_type: Option<&str>) -> (r: bool)
    ensures
        r == (message_type matches Some(t) && t@ == "HELLO_REQUEST"@),
{
    match message_type {
        Some(t) => str_equal(t, "HELLO_REQUEST"),
        None => false,
    }
}

/// One initial transmission followed by the configured number of retries.
#[derive(Clone, Copy, Debug, PartialEq, Eq, Structural)]
pub struct RetryPolicy {
    retry_count: u8,
    attempts_started: u16,
}

/// The policy after one more request for an attempt, and what it answered.
pub open spec fn retry_step(retry_count: u8, started: u16) -> (u16, Option<u8>) {
    if started > retry_count {
        (started, None)
    } else {
        ((started + 1) as u16, Some(((started + 1) as u16) as u8))
    }
}

impl RetryPolicy {
    #[verifier::type_invariant]
    closed spec fn bounded(&self) -> bool {
        self.attempts_started <= self.retry_count as u16 + 1
    }

    pub closed spec fn retries(&self) -> u8 {
        self.retry_count
    }

    pub closed spec fn started(&self) -> u16 {
        self.attempts_started
    }

    pub fn new(retry_count: u8) -> (r: Self)
        ensures
            r.retries() == retry_count,
            r.started() == 0,
    {
        RetryPolicy { retry_count, attempts_started: 0 }
    }

    /// The number of the next attempt, counting the initial send as 1, or
    /// `None` once the retries are used up.
    pub fn next_attempt(&mut self) -> (r: Option<u8>)
        ensures
            final(self).retries() == old(self).retries(),
            final(self).started() <= final(self).retries() as int + 1,
            (final(self).started(), r) == retry_step(old(self).retries(), old(self).started()),
    {
        proof {
            use_type_invariant(&*self);
        }
        if self.attempts_started > self.retry_count as u16 {
            return None;
        }
        self.attempts_started = self.attempts_started + 1;
        Some(self.attempts_started as u8)
    }
}

/// The policy state and the answer after `k` requests for an attempt.
pub open spec fn retry_run(retry_count: u8, k: nat) -> (u16, Option<u8>)
    decreases k,
{
    if k == 0 {
        (0, None)
    } else {
        retry_step(retry_count, retry_run(retry_count, (k - 1) as nat).0)
    }
}

/// A policy allows the initial send and then exactly `retry_count` retries:
/// the k-th request, for k up to `retry_count + 1`, is answered with k, and
/// every later one with `None`.
pub proof fn law_retry_attempts(retry_count: u8, k: nat)
    requires
        k >= 1,
    ensures
        k <= retry_count + 1 ==> retry_run(retry_count, k).1 == Some((k as u16) as u8)
            && retry_run(retry_count, k).0 == k,
        k > retry_count + 1 ==> retry_run(retry_count, k).1 is None && retry_run(retry_count, k).0
            == retry_count + 1,
    decreases k,
{
    reveal_with_fuel(retry_run, 2);
    if k > 1 {
        law_retry_attempts(retry_count, (k - 1) as nat);
    }
}

/// What the sender of one EVENT does next.
#[derive(Clone, Copy, Debug, PartialEq, Eq, Structural)]
pub enum DeliveryAction {
    /// Transmit the EVENT; `attempt` counts the initial send as 1.
    Send { attempt: u8 },
    /// Wait for the ACK until the deadline, in the sender's milliseconds.
    AwaitAck { attempt: u8, deadline_ms: u64 },
    Delivered { attempt: u8 },
    /// Every attempt went unanswered.
    Undelivered,
}

/// What happened since the sender's last action.
#[derive(Clone, Copy, Debug, PartialEq, Eq, Structural)]
pub enum DeliveryEvent {
    Sent { now_ms: u64 },
    SendFailed,
    /// A datagram arrived; `acknowledges` tells whether it is this EVENT's ACK.
    Received { acknowledges: bool, now_ms: u64 },
    /// No datagram arrived before the deadline.
    WaitExpired,
}

/// The action for the next attempt, if the policy grants one.
pub open spec fn retry_action(answer: Option<u8>) -> DeliveryAction {
    match answer {
        Some(a) => DeliveryAction::Send { attempt: a },
        None => DeliveryAction::Undelivered,
    }
}

/// The ACK deadline for a send at `now_ms`.
pub open spec fn ack_deadline(now_ms: u64, ack_timeout_ms: u32) -> u64 {
    if now_ms + ack_timeout_ms > u64::MAX {
        u64::MAX
    } else {
        (now_ms + ack_timeout_ms) as u64
    }
}

/// The sender after an event: the attempts started so far and the next
/// action. A failed send, an expired wait and a foreign datagram after the
/// deadline move on to the next attempt; the matching ACK ends delivery.
/// An event that does not belong to the current action changes nothing.
pub open spec fn delivery_step(
    retry_count: u8,
    started: u16,
    ack_timeout_ms: u32,
    current: DeliveryAction,
    event: DeliveryEvent,
) -> (u16, DeliveryAction) {
    let retry = retry_step(retry_count, started);
    match (current, event) {
        (DeliveryAction::Send { attempt }, DeliveryEvent::Sent { now_ms }) => (
            started,
            DeliveryAction::AwaitAck { attempt, deadline_ms: ack_deadline(now_ms, ack_timeout_ms) },
        ),
        (DeliveryAction::Send { .. }, DeliveryEvent::SendFailed) => (retry.0, retry_action(retry.1)),
        (DeliveryAction::AwaitAck { attempt, deadline_ms }, DeliveryEvent::Received {
            acknowledges,
            now_ms,
        }) => if acknowledges {
            (started, DeliveryAction::Delivered { attempt })
        } else if now_ms >= deadline_ms {
            (retry.0, retry_action(retry.1))
        } else {
            (started, current)
        },
        (DeliveryAction::AwaitAck { .. }, DeliveryEvent::WaitExpired) => (retry.0, retry_action(retry.1)),
        _ => (started, current),
    }
}

/// The attempt an action belongs to.
pub open spec fn action_attempt(action: DeliveryAction) -> Option<u8> {
    match action {
        DeliveryAction::Send { attempt } => Some(attempt),
        DeliveryAction::AwaitAck { attempt, .. } => Some(attempt),
        DeliveryAction::Delivered { attempt } => Some(attempt),
        DeliveryAction::Undelivered => None,
    }
}

/// The delivery of one EVENT: an initial send and the policy's retries,
/// each waiting for the ACK up to the timeout.
#[derive(Debug)]
pub struct EventDelivery {
    policy: RetryPolicy,
    ack_timeout_ms: u32,
    current: DeliveryAction,
}

impl EventDelivery {
    /// Every attempt the sender is on has been granted by the policy.
    #[verifier::type_invariant]
    closed spec fn consistent(&self) -> bool {
        match action_attempt(self.current) {
            Some(a) => a == self.policy.started() as u8 && 1 <= self.policy.started(),
            None => self.policy.started() == self.policy.retries() as u16 + 1,
        }
    }

    pub closed spec fn retries(&self) -> u8 {
        self.policy.retries()
    }

    pub closed spec fn started(&self) -> u16 {
        self.policy.started()
    }

    pub closed spec fn timeout(&self) -> u32 {
        self.ack_timeout_ms
    }

    pub closed spec fn spec_action(&self) -> DeliveryAction {
        self.current
    }

    /// A delivery about to make its initial send.
    pub fn new(retry_count: u8, ack_timeout_ms: u32) -> (r: Self)
        ensures
            r.retries() == retry_count,
            r.timeout() == ack_timeout_ms,
            r.started() == 1,
            r.spec_action() == (DeliveryAction::Send { attempt: 1 }),
    {
        let mut policy = RetryPolicy::new(retry_count);
        let first = policy.next_attempt();
        proof {
            assert(first == Some(1u8));
        }
        EventDelivery { policy, ack_timeout_ms, current: DeliveryAction::Send { attempt: 1 } }
    }

    pub fn action(&self) -> (r: DeliveryAction)
        ensures
            r == self.spec_action(),
    {
        self.current
    }

    fn retry(&mut self) -> (r: DeliveryAction)
        ensures
            final(self).retries() == old(self).retries(),
            final(self).timeout() == old(self).timeout(),
            (final(self).started(), r) == ({
                let s = retry_step(old(self).retries(), old(self).started());
                (s.0, retry_action(s.1))
            }),
            final(self).spec_action() == r,
    {
        proof {
            use_type_invariant(&*self);
            use_type_invariant(&self.policy);
        }
        let mut policy = self.policy;
        let next = match policy.next_attempt() {
            Some(a) => DeliveryAction::Send { attempt: a },
            None => DeliveryAction::Undelivered,
        };
        proof {
            use_type_invariant(&policy);
        }
        *self = EventDelivery { policy, ack_timeout_ms: self.ack_timeout_ms, current: next };
        next
    }

    /// The next action after `event`.
    pub fn step(&mut self, event: DeliveryEvent) -> (r: DeliveryAction)
        ensures
            final(self).retries() == old(self).retries(),
            final(self).timeout() == old(self).timeout(),
            (final(self).started(), r) == delivery_step(
                old(self).retries(),
                old(self).started(),
                old(self).timeout(),
                old(self).spec_action(),
                event,
            ),
            final(self).spec_action() == r,
            1 <= final(self).started() <= final(self).retries() as int + 1,
            action_attempt(r) matches Some(a) ==> a == final(self).started() as u8,
    {
        proof {
            use_type_invariant(&*self);
            use_type_invariant(&self.policy);
        }
        let r = match (self.current, event) {
            (DeliveryAction::Send { attempt }, DeliveryEvent::Sent { now_ms }) => {
                let deadline_ms = now_ms.saturating_add(self.ack_timeout_ms as u64);
                self.current = DeliveryAction::AwaitAck { attempt, deadline_ms };
                self.current
            },
            (DeliveryAction::Send { .. }, DeliveryEvent::SendFailed) => self.retry(),
            (DeliveryAction::AwaitAck { attempt, deadline_ms }, DeliveryEvent::Received {
                acknowledges,
                now_ms,
            }) => if acknowledges {
                self.current = DeliveryAction::Delivered { attempt };
                self.current
            } else if now_ms >= deadline_ms {
                self.retry()
            } else {
                self.current
            },
            (DeliveryAction::AwaitAck { .. }, DeliveryEvent::WaitExpired) => self.retry(),
            _ => self.current,
        };
        proof {
            use_type_invariant(&*self);
            use_type_invariant(&self.policy);
        }
        r
    }
}

/// `{boot_id:016x}-{sequence:016x}`.
pub open spec fn event_id_text(boot_id: u64, sequence: u64) -> Seq<char> {
    hex_fixed(boot_id as nat, 16) + "-"@ + hex_fixed(sequence as nat, 16)
}

/// What asking for an identifier gives at sequence number `sequence`, and
/// the sequence number after it: the identifier for `sequence` and the next
/// number, or nothing and the same number once the sequence is used up.
pub open spec fn id_step(boot_id: u64, sequence: u64) -> (Option<Seq<char>>, u64) {
    if sequence == u64::MAX {
        (None, sequence)
    } else {
        (Some(event_id_text(boot_id, sequence)), (sequence + 1) as u64)
    }
}

/// The answers to `k` successive requests for an identifier, starting at
/// sequence number `sequence`.
pub open spec fn id_run(boot_id: u64, sequence: u64, k: nat) -> Seq<Option<Seq<char>>>
    decreases k,
{
    if k == 0 {
        Seq::empty()
    } else {
        seq![id_step(boot_id, sequence).0] + id_run(boot_id, id_step(boot_id, sequence).1, (k - 1) as nat)
    }
}

/// Event identifiers `boot_id + sequence` for one boot of the node. The
/// sequence starts at one and advances only when a new EVENT is created,
/// never for a retransmission.
#[derive(Clone, Copy, Debug, PartialEq, Eq, Structural)]
pub struct EventIdGenerator {
    boot_id: u64,
    next_sequence: u64,
}

impl EventIdGenerator {
    pub closed spec fn boot(&self) -> u64 {
        self.boot_id
    }

    pub closed spec fn sequence(&self) -> u64 {
        self.next_sequence
    }

    pub fn new(boot_id: u64) -> (r: Self)
        ensures
            r.boot() == boot_id,
            r.sequence() == 1,
    {
        EventIdGenerator { boot_id, next_sequence: 1 }
    }

    /// The identifier for the next new EVENT. The last sequence number is
    /// never handed out, so that a sequence cannot wrap.
    pub fn next_event_id(&mut self) -> (r: Result<EventId, ProtocolError>)
        ensures
            final(self).boot() == old(self).boot(),
            final(self).sequence() == id_step(old(self).boot(), old(self).sequence()).1,
            match id_step(old(self).boot(), old(self).sequence()).0 {
                None => r == Err::<EventId, ProtocolError>(ProtocolError::SequenceExhausted),
                Some(t) => r matches Ok(id) && id@ == t,
            },
    {
        if self.next_sequence == u64::MAX {
            return Err(ProtocolError::SequenceExhausted);
        }
        let mut id = hex_string(self.boot_id, 16);
        id.append("-");
        let tail = hex_string(self.next_sequence, 16);
        id.append(tail.as_str());
        self.next_sequence = self.next_sequence + 1;
        Ok(id)
    }
}

/// Two different sequence numbers give different event identifiers.
pub proof fn law_event_ids_distinct(boot_id: u64, a: u64, b: u64)
    requires
        a != b,
    ensures
        event_id_text(boot_id, a) != event_id_text(boot_id, b),
{
    assert(hex_limit(16) == 0x1_0000_0000_0000_0000) by {
        reveal_with_fuel(hex_limit, 17);
    }
    lemma_hex_fixed_injective(a as nat, b as nat, 16);
    lemma_hex_fixed_len(boot_id as nat, 16);
    lemma_hex_fixed_len(a as nat, 16);
    lemma_hex_fixed_len(b as nat, 16);
    reveal_strlit("-");
    let x = event_id_text(boot_id, a);
    let y = event_id_text(boot_id, b);
    assert(x.subrange(17, 33) =~= hex_fixed(a as nat, 16));
    assert(y.subrange(17, 33) =~= hex_fixed(b as nat, 16));
}

/// Over a run of requests from sequence number `sequence`, the `i`-th
/// answer is the identifier for `sequence + i` while the sequence lasts, so
/// the identifiers of one run are pairwise different; a fresh generator
/// starts at sequence number one.
pub proof fn law_event_id_run(boot_id: u64, sequence: u64, k: nat)
    requires
        sequence + k <= u64::MAX,
    ensures
        id_run(boot_id, sequence, k).len() == k,
        forall|i: int|
            0 <= i < k ==> #[trigger] id_run(boot_id, sequence, k)[i] == Some(
                event_id_text(boot_id, (sequence + i) as u64),
            ),
        forall|i: int, j: int|
            0 <= i < j < k ==> #[trigger] id_run(boot_id, sequence, k)[i] != #[trigger] id_run(
                boot_id,
                sequence,
                k,
            )[j],
    decreases k,
{
    if k > 0 {
        let next = (sequence + 1) as u64;
        law_event_id_run(boot_id, next, (k - 1) as nat);
        let run = id_run(boot_id, sequence, k);
        let rest = id_run(boot_id, next, (k - 1) as nat);
        assert(run =~= seq![Some(event_id_text(boot_id, sequence))] + rest);
        assert forall|i: int| 0 <= i < k implies #[trigger] run[i] == Some(
            event_id_text(boot_id, (sequence + i) as u64),
        ) by {
            if i > 0 {
                assert(run[i] == rest[i - 1]);
            }
        }
        assert forall|i: int, j: int| 0 <= i < j < k implies #[trigger] run[i] != #[trigger] run[j] by {
            assert(run[i] == Some(event_id_text(boot_id, (sequence + i) as u64)));
            assert(run[j] == Some(event_id_text(boot_id, (sequence + j) as u64)));
            law_event_ids_distinct(boot_id, (sequence + i) as u64, (sequence + j) as u64);
        }
    }
}

/// `16^width`.
pub open spec fn hex_limit(width: nat) -> nat
    decreases width,
{
    if width == 0 {
        1
    } else {
        16 * hex_limit((width - 1) as nat)
    }
}

proof fn lemma_hex_fixed_len(n: nat, width: nat)
    ensures
        hex_fixed(n, width).len() == width,
    decreases width,
{
    if width > 0 {
        lemma_hex_fixed_len(n / 16, (width - 1) as nat);
    }
}

/// Below `16^width`, distinct numbers have distinct fixed-width digits.
proof fn lemma_hex_fixed_injective(a: nat, b: nat, width: nat)
    requires
        a != b,
        a < hex_limit(width),
        b < hex_limit(width),
    ensures
        hex_fixed(a, width) != hex_fixed(b, width),
    decreases width,
{
    lemma_hex_fixed_len(a, width);
    lemma_hex_fixed_len(b, width);
    if width > 0 {
        let p = hex_limit((width - 1) as nat);
        if a % 16 != b % 16 {
            assert(hex_fixed(a, width).last() == hex_char(a % 16));
            assert(hex_fixed(b, width).last() == hex_char(b % 16));
            assert(hex_char(a % 16) != hex_char(b % 16));
        } else {
            assert(a / 16 != b / 16) by (nonlinear_arith)
                requires
                    a != b,
                    a % 16 == b % 16,
            {
            }
            assert(a / 16 < p) by (nonlinear_arith)
                requires
                    a < 16 * p,
            {
            }
            assert(b / 16 < p) by (nonlinear_arith)
                requires
                    b < 16 * p,
            {
            }
            lemma_hex_fixed_injective(a / 16, b / 16, (width - 1) as nat);
            assert(hex_fixed(a, width).drop_last() == hex_fixed(a / 16, (width - 1) as nat));
            assert(hex_fixed(b, width).drop_last() == hex_fixed(b / 16, (width - 1) as nat));
        }
    }
}

/// An EVENT waiting for its ACK; retransmissions reuse it unchanged.
#[derive(Debug, PartialEq, Eq)]
pub struct PendingEvent {
    message: UdpMessage,
}

impl PendingEvent {
    #[verifier::type_invariant]
    closed spec fn is_event(self) -> bool {
        self.message is Event
    }

    pub closed spec fn spec_message(&self) -> UdpMessageView {
        self.message@
    }

    pub fn message(&self) -> (r: &UdpMessage)
        ensures
            r@ == self.spec_message(),
    {
        &self.message
    }

    pub fn event_id(&self) -> (r: &EventId)
        ensures
            self.spec_message() matches UdpMessageView::Event { event_id, .. } && r@ == event_id,
    {
        proof {
            use_type_invariant(self);
        }
        match &self.message {
            UdpMessage::Event { event_id, .. } => event_id,
            _ => unreached(),
        }
    }

    pub fn action_id(&self) -> (r: u32)
        ensures
            self.spec_message() matches UdpMessageView::Event { action_id, .. } && r == action_id,
    {
        proof {
            use_type_invariant(self);
        }
        match &self.message {
            UdpMessage::Event { action_id, .. } => *action_id,
            _ => unreached(),
        }
    }
}

impl Clone for PendingEvent {
    fn clone(&self) -> (r: Self)
        ensures
            r.spec_message() == self.spec_message(),
    {
        proof {
            use_type_invariant(self);
        }
        PendingEvent { message: self.message.clone() }
    }
}

/// Whether `m` is the ACK of `pending` for the node `device_id`.
pub open spec fn acknowledges(m: UdpMessageView, device_id: Seq<char>, pending: UdpMessageView) -> bool {
    match (m, pending) {
        (UdpMessageView::Ack { device_id: d, event_id: e }, UdpMessageView::Event { event_id, .. }) =>
            d == device_id && e == event_id,
        _ => false,
    }
}

/// The node's identity on the UDP protocol and its event identifiers.
#[derive(Debug)]
pub struct NodeUdpProtocol {
    device_id: DeviceId,
    event_ids: EventIdGenerator,
}

impl NodeUdpProtocol {
    pub closed spec fn spec_device_id(&self) -> Seq<char> {
        self.device_id@
    }

    pub closed spec fn spec_event_ids(&self) -> EventIdGenerator {
        self.event_ids
    }

    pub fn new(device_id: &str, boot_id: u64) -> (r: Result<Self, ProtocolError>)
        ensures
            match r {
                Ok(p) => utf8_len(device_id@) <= DEVICE_ID_CAPACITY && p.spec_device_id()
                    == device_id@ && p.spec_event_ids().boot() == boot_id
                    && p.spec_event_ids().sequence() == 1,
                Err(e) => e == ProtocolError::DeviceIdTooLong && utf8_len(device_id@)
                    > DEVICE_ID_CAPACITY,
            },
    {
        let device_id = match text::<DEVICE_ID_CAPACITY>(device_id) {
            Ok(d) => d,
            Err(_) => {
                return Err(ProtocolError::DeviceIdTooLong);
            },
        };
        Ok(NodeUdpProtocol { device_id, event_ids: EventIdGenerator::new(boot_id) })
    }

    pub fn hello(&self) -> (r: UdpMessage)
        ensures
            r@ == (UdpMessageView::Hello { device_id: self.spec_device_id() }),
    {
        UdpMessage::Hello { device_id: self.device_id.clone() }
    }

    pub fn heartbeat(&self) -> (r: UdpMessage)
        ensures
            r@ == (UdpMessageView::Heartbeat { device_id: self.spec_device_id() }),
    {
        UdpMessage::Heartbeat { device_id: self.device_id.clone() }
    }

    /// A new EVENT for a triggered action, with the next event identifier.
    pub fn event_from_action(&mut self, action: TriggeredAction) -> (r: Result<
        PendingEvent,
        ProtocolError,
    >)
        ensures
            final(self).spec_device_id() == old(self).spec_device_id(),
            final(self).spec_event_ids().boot() == old(self).spec_event_ids().boot(),
            if old(self).spec_event_ids().sequence() == u64::MAX {
                r == Err::<PendingEvent, ProtocolError>(ProtocolError::SequenceExhausted)
                    && final(self).spec_event_ids().sequence() == old(self).spec_event_ids().sequence()
            } else {
                &&& r matches Ok(p)
                &&& p.spec_message() == (UdpMessageView::Event {
                    device_id: old(self).spec_device_id(),
                    event_id: event_id_text(
                        old(self).spec_event_ids().boot(),
                        old(self).spec_event_ids().sequence(),
                    ),
                    action_id: action.action_id,
                })
                &&& final(self).spec_event_ids().sequence() == old(self).spec_event_ids().sequence()
                    + 1
            },
    {
        let event_id = self.event_ids.next_event_id()?;
        Ok(
            PendingEvent {
                message: UdpMessage::Event {
                    device_id: self.device_id.clone(),
                    event_id,
                    action_id: action.action_id,
                },
            },
        )
    }

    /// Writes a message's JSON text to the front of `destination`.
    pub fn encode_message(&self, message: &UdpMessage, destination: &mut [u8]) -> (r: Result<
        usize,
        ProtocolError,
    >)
        ensures
            final(destination)@.len() == old(destination)@.len(),
            match r {
                Ok(n) => {
                    &&& n == vstd::utf8::encode_utf8(udp_message_json(message@)).len()
                    &&& final(destination)@.subrange(0, n as int) == vstd::utf8::encode_utf8(
                        udp_message_json(message@),
                    )
                    &&& n <= old(destination)@.len()
                    &&& final(destination)@.subrange(n as int, final(destination)@.len() as int)
                        == old(destination)@.subrange(n as int, old(destination)@.len() as int)
                },
                Err(e) => e == ProtocolError::BufferTooSmall && vstd::utf8::encode_utf8(
                    udp_message_json(message@),
                ).len() > old(destination)@.len(),
            },
    {
        match message.encode(destination) {
            Ok(n) => Ok(n),
            Err(_) => Err(ProtocolError::BufferTooSmall),
        }
    }

    /// Whether a received datagram acknowledges `event`: `decoded` is what
    /// decoding it gave. Only an ACK naming this node and the event's
    /// identifier matches.
    pub fn ack_matches(&self, event: &PendingEvent, decoded: Result<UdpMessage, CodecError>) -> (r:
        bool)
        ensures
            r == (decoded matches Ok(m) && acknowledges(
                m@,
                self.spec_device_id(),
                event.spec_message(),
            )),
    {
        match decoded {
            Ok(UdpMessage::Ack { device_id, event_id }) => str_equal(
                device_id.as_str(),
                self.device_id.as_str(),
            ) && str_equal(event_id.as_str(), event.event_id().as_str()),
            _ => false,
        }
    }
}

} // verus!
