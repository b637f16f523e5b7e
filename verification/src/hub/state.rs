//! Runtime communication state of the registered nodes.
//!
//! Times are milliseconds on the hub's monotonic clock.

use vstd::prelude::*;

use crate::common::codec::CodecError;
use crate::common::udp::{UdpMessage, UdpMessageView};
use crate::hub::db::DeviceRecord;
use crate::text::{blank, is_blank, str_equal};

verus! {

#[derive(Clone, Copy, Debug, PartialEq, Eq, Structural)]
pub enum CommunicationStatus {
    InitialWait,
    Online,
    Offline,
}

#[derive(Debug)]
pub struct DeviceState {
    pub device_id: String,
    pub status: CommunicationStatus,
    /// Start of the first wait, the reference for its timeout.
    pub initial_wait_started_at: u64,
    /// `None` until a valid HELLO, HEARTBEAT or EVENT is observed.
    pub last_seen_at: Option<u64>,
}

pub ghost struct DeviceStateView {
    pub device_id: Seq<char>,
    pub status: CommunicationStatus,
    pub initial_wait_started_at: u64,
    pub last_seen_at: Option<u64>,
}

impl View for DeviceState {
    type V = DeviceStateView;

    open spec fn view(&self) -> DeviceStateView {
        DeviceStateView {
            device_id: self.device_id@,
            status: self.status,
            initial_wait_started_at: self.initial_wait_started_at,
            last_seen_at: self.last_seen_at,
        }
    }
}

impl Clone for DeviceState {
    fn clone(&self) -> (r: Self)
        ensures
            r@ == self@,
    {
        DeviceState {
            device_id: self.device_id.clone(),
            status: self.status,
            initial_wait_started_at: self.initial_wait_started_at,
            last_seen_at: self.last_seen_at,
        }
    }
}

#[derive(Clone, Copy, Debug, PartialEq, Eq, Structural)]
pub enum StateUpdateError {
    InvalidMessage(CodecError),
    EmptyDeviceId,
}

/// The state of a device that has just been heard from.
pub open spec fn seen(state: DeviceStateView, now: u64) -> DeviceStateView {
    DeviceStateView { status: CommunicationStatus::Online, last_seen_at: Some(now), ..state }
}

/// The instant from which a device's silence is measured: its last valid
/// reception, or the start of the first wait.
pub open spec fn silence_start(state: DeviceStateView) -> u64 {
    match state.last_seen_at {
        Some(t) => t,
        None => state.initial_wait_started_at,
    }
}

/// How long the device has been silent at `now`; zero for a reference in
/// the future.
pub open spec fn silence(state: DeviceStateView, now: u64) -> int {
    if now >= silence_start(state) {
        now - silence_start(state)
    } else {
        0
    }
}

/// The state after an offline check at `now`.
pub open spec fn checked(state: DeviceStateView, now: u64, timeout: u64) -> DeviceStateView {
    if silence(state, now) >= timeout {
        DeviceStateView { status: CommunicationStatus::Offline, ..state }
    } else {
        state
    }
}

/// No device appears twice.
pub open spec fn distinct_ids(states: Seq<DeviceStateView>) -> bool {
    forall|i: int, j: int|
        0 <= i < j < states.len() ==> #[trigger] states[i].device_id != #[trigger] states[j].device_id
}

/// Whether `id` is a managed device.
pub open spec fn manages(states: Seq<DeviceStateView>, id: Seq<char>) -> bool {
    exists|i: int| 0 <= i < states.len() && #[trigger] states[i].device_id == id
}

/// Whether an observed message updates the state: a node-originated message
/// (not ACK) from a managed device.
pub open spec fn updates(states: Seq<DeviceStateView>, m: UdpMessageView) -> bool {
    !(m is Ack) && !is_blank(m.device_id()) && manages(states, m.device_id())
}

/// The states after observing `m` at `now`.
pub open spec fn observe_states(states: Seq<DeviceStateView>, m: UdpMessageView, now: u64) -> Seq<
    DeviceStateView,
> {
    if updates(states, m) {
        states.map_values(
            |s: DeviceStateView| if s.device_id == m.device_id() {
                seen(s, now)
            } else {
                s
            },
        )
    } else {
        states
    }
}

/// The states after an offline check at `now`.
pub open spec fn offline_states(states: Seq<DeviceStateView>, now: u64, timeout: u64) -> Seq<
    DeviceStateView,
> {
    states.map_values(|s: DeviceStateView| checked(s, now, timeout))
}

/// The runtime state of the enabled, registered devices. Nothing here is
/// persisted.
pub struct CommunicationStateManager {
    devices: Vec<DeviceState>,
    offline_timeout_ms: u64,
}

/// The views of a list of device states.
pub open spec fn views(devices: Seq<DeviceState>) -> Seq<DeviceStateView> {
    devices.map_values(|d: DeviceState| d@)
}

/// The identifiers of the enabled devices among `records`, in order, each
/// once.
pub open spec fn enabled_ids(records: Seq<DeviceRecord>) -> Seq<Seq<char>>
    decreases records.len(),
{
    if records.len() == 0 {
        Seq::empty()
    } else {
        let prev = enabled_ids(records.drop_last());
        let r = records.last();
        if r.enabled && !prev.contains(r.device_id@) {
            prev.push(r.device_id@)
        } else {
            prev
        }
    }
}

/// The identifiers of a list of device states, in order.
pub open spec fn ids_of(states: Seq<DeviceStateView>) -> Seq<Seq<char>> {
    states.map_values(|s: DeviceStateView| s.device_id)
}

/// The index of `device_id` in `devices`, if it is there.
fn position_in(devices: &Vec<DeviceState>, device_id: &str) -> (r: Option<usize>)
    ensures
        match r {
            Some(i) => i < devices@.len() && views(devices@)[i as int].device_id == device_id@,
            None => !manages(views(devices@), device_id@),
        },
{
    let mut i: usize = 0;
    while i < devices.len()
        invariant
            i <= devices@.len(),
            forall|k: int| 0 <= k < i ==> (#[trigger] views(devices@)[k]).device_id != device_id@,
        decreases devices@.len() - i,
    {
        if str_equal(devices[i].device_id.as_str(), device_id) {
            return Some(i);
        }
        i = i + 1;
    }
    None
}

impl CommunicationStateManager {
    /// The managed devices, in the order in which they were registered.
    pub closed spec fn states(&self) -> Seq<DeviceStateView> {
        views(self.devices@)
    }

    pub closed spec fn offline_timeout(&self) -> u64 {
        self.offline_timeout_ms
    }

    /// No device is managed twice.
    #[verifier::type_invariant]
    pub open spec fn wf(&self) -> bool {
        distinct_ids(self.states())
    }

    /// Moves the devices out, leaving none behind.
    fn take(&mut self) -> (r: Vec<DeviceState>)
        ensures
            views(r@) == old(self).states(),
            distinct_ids(views(r@)),
            final(self).offline_timeout() == old(self).offline_timeout(),
    {
        proof {
            use_type_invariant(&*self);
        }
        let mut other = CommunicationStateManager {
            devices: Vec::new(),
            offline_timeout_ms: self.offline_timeout_ms,
        };
        proof {
            assert(views(other.devices@) =~= Seq::<DeviceStateView>::empty());
        }
        std::mem::swap(self, &mut other);
        proof {
            use_type_invariant(&other);
        }
        let CommunicationStateManager { devices, offline_timeout_ms } = other;
        devices
    }

    /// The runtime state for the enabled devices among `records`, all waiting
    /// for their first message since `initial_wait_started_at`.
    pub fn from_devices(
        records: &[DeviceRecord],
        initial_wait_started_at: u64,
        offline_timeout_ms: u64,
    ) -> (r: Self)
        ensures
            r.wf(),
            r.offline_timeout() == offline_timeout_ms,
            forall|i: int|
                0 <= i < r.states().len() ==> {
                    &&& (#[trigger] r.states()[i]).status == CommunicationStatus::InitialWait
                    &&& r.states()[i].initial_wait_started_at == initial_wait_started_at
                    &&& r.states()[i].last_seen_at is None
                    &&& exists|j: int|
                        0 <= j < records@.len() && (#[trigger] records@[j]).enabled
                            && records@[j].device_id@ == r.states()[i].device_id
                },
            forall|j: int|
                0 <= j < records@.len() && (#[trigger] records@[j]).enabled ==> manages(
                    r.states(),
                    records@[j].device_id@,
                ),
            ids_of(r.states()) == enabled_ids(records@),
            forall|id: Seq<char>|
                #[trigger] manages(r.states(), id) <==> exists|j: int|
                    0 <= j < records@.len() && (#[trigger] records@[j]).enabled && records@[j].device_id@
                        == id,
    {
        let mut devices: Vec<DeviceState> = Vec::new();
        let mut j: usize = 0;
        while j < records.len()
            invariant
                j <= records@.len(),
                distinct_ids(views(devices@)),
                forall|i: int|
                    0 <= i < views(devices@).len() ==> {
                        &&& (#[trigger] views(devices@)[i]).status
                            == CommunicationStatus::InitialWait
                        &&& views(devices@)[i].initial_wait_started_at == initial_wait_started_at
                        &&& views(devices@)[i].last_seen_at is None
                        &&& exists|k: int|
                            0 <= k < records@.len() && (#[trigger] records@[k]).enabled
                                && records@[k].device_id@ == views(devices@)[i].device_id
                    },
                forall|k: int|
                    0 <= k < j && (#[trigger] records@[k]).enabled ==> manages(
                        views(devices@),
                        records@[k].device_id@,
                    ),
                ids_of(views(devices@)) == enabled_ids(records@.take(j as int)),
            decreases records@.len() - j,
        {
            let record = &records[j];
            let ghost ids_before = ids_of(views(devices@));
            proof {
                assert(records@.take(j as int + 1).drop_last() =~= records@.take(j as int));
                assert(records@.take(j as int + 1).last() == records@[j as int]);
                let id = records@[j as int].device_id@;
                if ids_before.contains(id) {
                    let k = choose|k: int| 0 <= k < ids_before.len() && ids_before[k] == id;
                    assert(views(devices@)[k].device_id == id);
                }
                if manages(views(devices@), id) {
                    let k = choose|k: int|
                        0 <= k < views(devices@).len() && #[trigger] views(devices@)[k].device_id == id;
                    assert(ids_before[k] == id);
                }
            }
            if record.enabled {
                if position_in(&devices, record.device_id.as_str()).is_none() {
                    let ghost before = views(devices@);
                    devices.push(
                        DeviceState {
                            device_id: record.device_id.clone(),
                            status: CommunicationStatus::InitialWait,
                            initial_wait_started_at,
                            last_seen_at: None,
                        },
                    );
                    proof {
                        let n = before.len() as int;
                        assert(views(devices@) =~= before.push(views(devices@)[n]));
                        assert(views(devices@)[n].device_id == records@[j as int].device_id@);
                        assert forall|k: int|
                            0 <= k < j + 1 && (#[trigger] records@[k]).enabled implies manages(
                            views(devices@),
                            records@[k].device_id@,
                        ) by {
                            if k < j {
                                let w = choose|w: int|
                                    0 <= w < before.len() && #[trigger] before[w].device_id
                                        == records@[k].device_id@;
                                assert(views(devices@)[w].device_id == records@[k].device_id@);
                            } else {
                                assert(views(devices@)[n].device_id == records@[k].device_id@);
                            }
                        }
                        assert(ids_of(views(devices@)) =~= ids_before.push(records@[j as int].device_id@));
                    }
                }
            }
            j = j + 1;
        }
        proof {
            assert(records@.take(records@.len() as int) =~= records@);
        }
        CommunicationStateManager { devices, offline_timeout_ms }
    }

    pub fn device(&self, device_id: &str) -> (r: Option<&DeviceState>)
        ensures
            match r {
                Some(d) => exists|i: int|
                    0 <= i < self.states().len() && #[trigger] self.states()[i] == d@
                        && d@.device_id == device_id@,
                None => !manages(self.states(), device_id@),
            },
    {
        match position_in(&self.devices, device_id) {
            Some(i) => {
                proof {
                    assert(self.states()[i as int] == self.devices@[i as int]@);
                }
                Some(&self.devices[i])
            },
            None => None,
        }
    }

    /// The managed devices.
    pub fn devices(&self) -> (r: &[DeviceState])
        ensures
            r@.map_values(|d: DeviceState| d@) == self.states(),
    {
        self.devices.as_slice()
    }

    pub fn len(&self) -> (r: usize)
        ensures
            r == self.states().len(),
    {
        self.devices.len()
    }

    pub fn is_empty(&self) -> (r: bool)
        ensures
            r == (self.states().len() == 0),
    {
        self.devices.len() == 0
    }

    /// Applies a decoded UDP payload: `decoded` is what decoding the payload
    /// gave. A payload that did not decode changes nothing. Returns whether a
    /// managed device was updated.
    pub fn observe_payload(&mut self, decoded: Result<UdpMessage, CodecError>, now: u64) -> (r:
        Result<bool, StateUpdateError>)
        ensures
            final(self).wf(),
            final(self).offline_timeout() == old(self).offline_timeout(),
            match decoded {
                Err(e) => r == Err::<bool, StateUpdateError>(StateUpdateError::InvalidMessage(e))
                    && final(self).states() == old(self).states(),
                Ok(m) => if is_blank(m@.device_id()) {
                    r == Err::<bool, StateUpdateError>(StateUpdateError::EmptyDeviceId)
                        && final(self).states() == old(self).states()
                } else {
                    r == Ok::<bool, StateUpdateError>(updates(old(self).states(), m@))
                        && final(self).states() == observe_states(old(self).states(), m@, now)
                },
            },
    {
        proof {
            use_type_invariant(&*self);
        }
        match decoded {
            Err(e) => Err(StateUpdateError::InvalidMessage(e)),
            Ok(message) => self.observe_message(&message, now),
        }
    }

    /// Updates the state for a node-originated message. ACK is valid UDP but
    /// travels from the hub to a node, so it never marks a device online.
    /// Unknown devices are neither added nor updated.
    pub fn observe_message(&mut self, message: &UdpMessage, now: u64) -> (r: Result<
        bool,
        StateUpdateError,
    >)
        ensures
            final(self).wf(),
            final(self).offline_timeout() == old(self).offline_timeout(),
            if is_blank(message@.device_id()) {
                r == Err::<bool, StateUpdateError>(StateUpdateError::EmptyDeviceId)
                    && final(self).states() == old(self).states()
            } else {
                r == Ok::<bool, StateUpdateError>(updates(old(self).states(), message@))
                    && final(self).states() == observe_states(old(self).states(), message@, now)
            },
    {
        proof {
            use_type_invariant(&*self);
        }
        let device_id = message.device_id();
        if blank(device_id) {
            return Err(StateUpdateError::EmptyDeviceId);
        }
        if let UdpMessage::Ack { .. } = message {
            return Ok(false);
        }
        match position_in(&self.devices, device_id) {
            None => Ok(false),
            Some(i) => {
                let timeout = self.offline_timeout_ms;
                let mut devices = self.take();
                let ghost before = views(devices@);
                let mut state = devices[i].clone();
                state.status = CommunicationStatus::Online;
                state.last_seen_at = Some(now);
                devices.set(i, state);
                proof {
                    assert(updates(before, message@));
                    assert forall|k: int| 0 <= k < before.len() implies #[trigger] views(devices@)[k]
                        == observe_states(before, message@, now)[k] by {
                        if k != i {
                            assert(before[k].device_id != before[i as int].device_id);
                        }
                    }
                    assert(views(devices@) =~= observe_states(before, message@, now));
                    assert forall|a: int, b: int|
                        0 <= a < b < views(devices@).len() implies #[trigger] views(devices@)[a].device_id
                        != #[trigger] views(devices@)[b].device_id by {
                        assert(views(devices@)[a].device_id == before[a].device_id);
                        assert(views(devices@)[b].device_id == before[b].device_id);
                    }
                }
                *self = CommunicationStateManager { devices, offline_timeout_ms: timeout };
                Ok(true)
            },
        }
    }

    /// Marks offline every device whose silence, since its last valid
    /// reception or else since the start of its first wait, has reached the
    /// offline timeout.
    pub fn mark_offline(&mut self, now: u64)
        ensures
            final(self).wf(),
            final(self).offline_timeout() == old(self).offline_timeout(),
            final(self).states() == offline_states(
                old(self).states(),
                now,
                old(self).offline_timeout(),
            ),
    {
        let timeout = self.offline_timeout_ms;
        let mut devices = self.take();
        let ghost before = views(devices@);
        let mut i: usize = 0;
        while i < devices.len()
            invariant
                i <= devices@.len(),
                devices@.len() == before.len(),
                timeout == old(self).offline_timeout(),
                before == old(self).states(),
                distinct_ids(before),
                forall|k: int|
                    0 <= k < before.len() ==> #[trigger] views(devices@)[k] == if k < i {
                        checked(before[k], now, timeout)
                    } else {
                        before[k]
                    },
            decreases devices@.len() - i,
        {
            let reference = match devices[i].last_seen_at {
                Some(t) => t,
                None => devices[i].initial_wait_started_at,
            };
            let elapsed: u64 = if now >= reference {
                now - reference
            } else {
                0
            };
            if elapsed >= timeout {
                let mut state = devices[i].clone();
                state.status = CommunicationStatus::Offline;
                devices.set(i, state);
            }
            i = i + 1;
        }
        proof {
            assert(views(devices@) =~= offline_states(before, now, timeout));
            assert forall|a: int, b: int|
                0 <= a < b < views(devices@).len() implies #[trigger] views(devices@)[a].device_id
                != #[trigger] views(devices@)[b].device_id by {
                assert(views(devices@)[a].device_id == before[a].device_id);
                assert(views(devices@)[b].device_id == before[b].device_id);
            }
        }
        *self = CommunicationStateManager { devices, offline_timeout_ms: timeout };
    }
}

/// Observing a message never adds, drops or reorders devices: unknown and
/// disabled devices stay unmanaged.
pub proof fn law_observation_keeps_devices(states: Seq<DeviceStateView>, m: UdpMessageView, now: u64)
    ensures
        observe_states(states, m, now).len() == states.len(),
        forall|i: int|
            0 <= i < states.len() ==> (#[trigger] observe_states(states, m, now)[i]).device_id
                == states[i].device_id,
        manages(observe_states(states, m, now), m.device_id()) == manages(states, m.device_id()),
{
    let after = observe_states(states, m, now);
    if manages(after, m.device_id()) {
        let i = choose|i: int| 0 <= i < after.len() && #[trigger] after[i].device_id == m.device_id();
        assert(states[i].device_id == m.device_id());
    }
    if manages(states, m.device_id()) {
        let i = choose|i: int|
            0 <= i < states.len() && #[trigger] states[i].device_id == m.device_id();
        assert(after[i].device_id == m.device_id());
    }
}

/// An ACK travels from the hub to a node: observing one changes nothing.
pub proof fn law_ack_changes_nothing(states: Seq<DeviceStateView>, m: UdpMessageView, now: u64)
    requires
        m is Ack,
    ensures
        observe_states(states, m, now) == states,
{
}

/// A HELLO, HEARTBEAT or EVENT from a managed device brings it online,
/// whatever its state was (first wait, online or offline), and records when
/// it was heard; no other device changes.
pub proof fn law_reception_brings_device_online(
    states: Seq<DeviceStateView>,
    m: UdpMessageView,
    now: u64,
    i: int,
)
    requires
        distinct_ids(states),
        !(m is Ack),
        !is_blank(m.device_id()),
        0 <= i < states.len(),
    ensures
        states[i].device_id == m.device_id() ==> {
            &&& observe_states(states, m, now)[i].status == CommunicationStatus::Online
            &&& observe_states(states, m, now)[i].last_seen_at == Some(now)
            &&& observe_states(states, m, now)[i].initial_wait_started_at
                == states[i].initial_wait_started_at
        },
        states[i].device_id != m.device_id() ==> observe_states(states, m, now)[i] == states[i],
{
}

/// The offline check only ever moves a device to OFFLINE: a device whose
/// silence has reached the timeout is OFFLINE afterwards, any other device
/// keeps its state, and no identifier or time is touched.
pub proof fn law_offline_check(states: Seq<DeviceStateView>, now: u64, timeout: u64, i: int)
    requires
        0 <= i < states.len(),
    ensures
        offline_states(states, now, timeout).len() == states.len(),
        silence(states[i], now) >= timeout ==> offline_states(states, now, timeout)[i].status
            == CommunicationStatus::Offline,
        silence(states[i], now) < timeout ==> offline_states(states, now, timeout)[i] == states[i],
        offline_states(states, now, timeout)[i].device_id == states[i].device_id,
        offline_states(states, now, timeout)[i].last_seen_at == states[i].last_seen_at,
        offline_states(states, now, timeout)[i].initial_wait_started_at
            == states[i].initial_wait_started_at,
{
}

/// Silence is measured from the last valid reception: a device heard from at
/// `t` goes OFFLINE at the check at `now` exactly when the time since `t`
/// (none for a `t` after `now`) has reached the timeout, whenever its first
/// wait started; otherwise it keeps its state. A device never heard from is
/// measured from the start of its first wait.
pub proof fn law_offline_measured_from_last_reception(
    states: Seq<DeviceStateView>,
    now: u64,
    timeout: u64,
    i: int,
)
    requires
        0 <= i < states.len(),
    ensures
        ({
            let after = offline_states(states, now, timeout)[i];
            let s = states[i];
            let since = match s.last_seen_at {
                Some(t) => t,
                None => s.initial_wait_started_at,
            };
            let quiet: int = if now >= since {
                now - since
            } else {
                0
            };
            &&& quiet >= timeout ==> after == DeviceStateView {
                status: CommunicationStatus::Offline,
                ..s
            }
            &&& quiet < timeout ==> after == s
        }),
{
}

} // verus!
