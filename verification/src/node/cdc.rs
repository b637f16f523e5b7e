//! The node's CDC configuration endpoint: line framing of the USB stream and
//! the answer to each command. USB packet I/O stays with the firmware.

use vstd::prelude::*;

use crate::common::cdc::{cdc_error_json, cdc_error_text, cdc_ok_json, cdc_ok_text, CdcErrorCode, CdcRequest};
use crate::common::codec::write_text_line;
use crate::common::json::{
    json_opt_string, json_string, json_string_text, lemma_lf_free_by_char, lemma_lf_free_encode,
    lemma_lf_free_escaped, lemma_lf_free_scalars, lf_free, lf_free_by_char, push_opt_string,
};
use crate::common::types::DeviceId;
use crate::node::config::{
    config_error, config_json, ConfigValidationError, GpioInputConfig, InputMapping, Ipv4Text,
    NetworkConfig, NetworkView, NodeConfigView, PersistedNodeConfig, WifiConfig, WifiView,
};
use crate::node::storage::{
    config_record, ConfigManager, ConfigManagerError, ConfigStorage, CONFIG_STORAGE_SIZE,
};
use crate::text::str_equal;

verus! {

pub const CDC_PROTOCOL_VERSION: u8 = 1;
pub const MAX_CDC_LINE_SIZE: usize = 4096;
pub const MAX_CDC_QUEUED_LINES: usize = 4;

/// One framed line, its line feed included.
pub type CdcLine = Vec<u8>;

#[derive(Clone, Copy, Debug, PartialEq, Eq, Structural)]
pub enum CdcFrameError {
    LineTooLong,
    QueueFull,
}

/// The parser after one more byte: the bytes of the line being read, the
/// queue of complete lines, whether an overlong line is being dropped, and
/// the error the byte caused, if any.
pub open spec fn parser_step(
    current: Seq<u8>,
    lines: Seq<Seq<u8>>,
    dropping: bool,
    byte: u8,
) -> (Seq<u8>, Seq<Seq<u8>>, bool, Option<CdcFrameError>) {
    if dropping {
        (current, lines, byte != 10, None)
    } else if current.len() >= MAX_CDC_LINE_SIZE {
        (Seq::empty(), lines, byte != 10, Some(CdcFrameError::LineTooLong))
    } else if byte != 10 {
        (current.push(byte), lines, false, None)
    } else if lines.len() >= MAX_CDC_QUEUED_LINES {
        (Seq::empty(), lines, false, Some(CdcFrameError::QueueFull))
    } else {
        (Seq::empty(), lines.push(current.push(byte)), false, None)
    }
}

/// The parser after `bytes`, with the last error they caused.
pub open spec fn parser_run(
    current: Seq<u8>,
    lines: Seq<Seq<u8>>,
    dropping: bool,
    bytes: Seq<u8>,
) -> (Seq<u8>, Seq<Seq<u8>>, bool, Option<CdcFrameError>)
    decreases bytes.len(),
{
    if bytes.len() == 0 {
        (current, lines, dropping, None)
    } else {
        let (c, l, d, e) = parser_run(current, lines, dropping, bytes.drop_last());
        let (c2, l2, d2, e2) = parser_step(c, l, d, bytes.last());
        (c2, l2, d2, if e2 is Some {
            e2
        } else {
            e
        })
    }
}

/// Bounded LF framing for arbitrary USB read boundaries: at most
/// `MAX_CDC_QUEUED_LINES` complete lines wait, each at most
/// `MAX_CDC_LINE_SIZE` bytes.
#[derive(Debug)]
pub struct CdcLineParser {
    current: Vec<u8>,
    lines: Vec<Vec<u8>>,
    dropping_overlong: bool,
}

impl CdcLineParser {
    pub closed spec fn buffered(&self) -> Seq<u8> {
        self.current@
    }

    pub closed spec fn queued(&self) -> Seq<Seq<u8>> {
        self.lines@.map_values(|l: Vec<u8>| l@)
    }

    pub closed spec fn is_dropping(&self) -> bool {
        self.dropping_overlong
    }

    pub fn new() -> (r: Self)
        ensures
            r.buffered() == Seq::<u8>::empty(),
            r.queued() == Seq::<Seq<u8>>::empty(),
            !r.is_dropping(),
    {
        let r = CdcLineParser { current: Vec::new(), lines: Vec::new(), dropping_overlong: false };
        proof {
            assert(r.queued() =~= Seq::<Seq<u8>>::empty());
        }
        r
    }

    /// Frames `bytes`; the error is the last one they caused.
    pub fn feed(&mut self, bytes: &[u8]) -> (r: Result<(), CdcFrameError>)
        ensures
            ({
                let (c, l, d, e) = parser_run(
                    old(self).buffered(),
                    old(self).queued(),
                    old(self).is_dropping(),
                    bytes@,
                );
                &&& final(self).buffered() == c
                &&& final(self).queued() == l
                &&& final(self).is_dropping() == d
                &&& match e {
                    Some(x) => r == Err::<(), CdcFrameError>(x),
                    None => r is Ok,
                }
            }),
    {
        let mut error: Option<CdcFrameError> = None;
        let mut i: usize = 0;
        while i < bytes.len()
            invariant
                i <= bytes@.len(),
                ({
                    let (c, l, d, e) = parser_run(
                        old(self).buffered(),
                        old(self).queued(),
                        old(self).is_dropping(),
                        bytes@.subrange(0, i as int),
                    );
                    &&& self.buffered() == c
                    &&& self.queued() == l
                    &&& self.is_dropping() == d
                    &&& error == e
                }),
            decreases bytes@.len() - i,
        {
            proof {
                assert(bytes@.subrange(0, i as int + 1).drop_last() =~= bytes@.subrange(0, i as int));
            }
            let byte = bytes[i];
            if self.dropping_overlong {
                if byte == 10u8 {
                    self.dropping_overlong = false;
                }
            } else if self.current.len() >= MAX_CDC_LINE_SIZE {
                self.current = Vec::new();
                self.dropping_overlong = byte != 10u8;
                error = Some(CdcFrameError::LineTooLong);
            } else {
                self.current.push(byte);
                if byte == 10u8 {
                    let mut line: Vec<u8> = Vec::new();
                    std::mem::swap(&mut line, &mut self.current);
                    if self.lines.len() >= MAX_CDC_QUEUED_LINES {
                        error = Some(CdcFrameError::QueueFull);
                    } else {
                        let ghost before = self.queued();
                        self.lines.push(line);
                        proof {
                            assert(self.queued() =~= before.push(line@));
                        }
                    }
                }
            }
            i = i + 1;
        }
        proof {
            assert(bytes@.subrange(0, bytes@.len() as int) =~= bytes@);
        }
        match error {
            Some(e) => Err(e),
            None => Ok(()),
        }
    }

    /// The oldest complete line, if any.
    pub fn pop_line(&mut self) -> (r: Option<CdcLine>)
        ensures
            old(self).queued().len() == 0 ==> r is None && final(self).queued() == old(self).queued(),
            old(self).queued().len() > 0 ==> (r matches Some(l) && l@ == old(self).queued()[0]
                && final(self).queued() == old(self).queued().drop_first()),
            final(self).buffered() == old(self).buffered(),
            final(self).is_dropping() == old(self).is_dropping(),
    {
        if self.lines.len() == 0 {
            return None;
        }
        let ghost before = self.queued();
        let line = self.lines.remove(0);
        proof {
            assert(self.queued() =~= before.drop_first());
        }
        Some(line)
    }
}

/// The parameters of `set_config`: every member of the persisted
/// configuration, each optional on the wire. `get_config` takes `{}`.
#[derive(Debug, Default, PartialEq, Eq)]
pub struct NodeCdcParams {
    pub device_id: Option<DeviceId>,
    pub wifi: Option<WifiConfig>,
    pub network: Option<NetworkConfig>,
    pub gpio_inputs: Option<Vec<GpioInputConfig>>,
    pub input_mappings: Option<Vec<InputMapping>>,
    pub double_click_interval_ms: Option<u32>,
    pub long_press_threshold_ms: Option<u32>,
    pub ack_timeout_ms: Option<u32>,
    pub event_retry_count: Option<u8>,
    pub heartbeat_interval_sec: Option<u32>,
}

/// The configuration the parameters describe, when none is missing.
pub open spec fn params_config(p: NodeCdcParams) -> Option<NodeConfigView> {
    match (
        p.device_id,
        p.wifi,
        p.network,
        p.gpio_inputs,
        p.input_mappings,
        p.double_click_interval_ms,
        p.long_press_threshold_ms,
        p.ack_timeout_ms,
        p.event_retry_count,
        p.heartbeat_interval_sec,
    ) {
        (Some(d), Some(w), Some(n), Some(g), Some(m), Some(dc), Some(lp), Some(at), Some(rc), Some(hb)) =>
            Some(
            NodeConfigView {
                device_id: d@,
                wifi: w@,
                network: n@,
                gpio_inputs: g@,
                input_mappings: m@,
                double_click_interval_ms: dc,
                long_press_threshold_ms: lp,
                ack_timeout_ms: at,
                event_retry_count: rc,
                heartbeat_interval_sec: hb,
            },
        ),
        _ => None,
    }
}

/// `set_config` takes every member of the configuration from the member of
/// the request with the same name: the parameters describe a configuration
/// exactly when none is missing, and then each of its members is the one
/// given.
pub proof fn law_params_member_by_member(p: NodeCdcParams)
    ensures
        params_config(p) is Some <==> (p.device_id is Some && p.wifi is Some && p.network is Some
            && p.gpio_inputs is Some && p.input_mappings is Some && p.double_click_interval_ms is Some
            && p.long_press_threshold_ms is Some && p.ack_timeout_ms is Some
            && p.event_retry_count is Some && p.heartbeat_interval_sec is Some),
        params_config(p) matches Some(c) ==> {
            &&& c.device_id == p.device_id->0@
            &&& c.wifi == p.wifi->0@
            &&& c.network == p.network->0@
            &&& c.gpio_inputs == p.gpio_inputs->0@
            &&& c.input_mappings == p.input_mappings->0@
            &&& c.double_click_interval_ms == p.double_click_interval_ms->0
            &&& c.long_press_threshold_ms == p.long_press_threshold_ms->0
            &&& c.ack_timeout_ms == p.ack_timeout_ms->0
            &&& c.event_retry_count == p.event_retry_count->0
            &&& c.heartbeat_interval_sec == p.heartbeat_interval_sec->0
        },
{
}

#[derive(Clone, Copy, Debug, PartialEq, Eq, Structural)]
pub enum CdcParameterError {
    MissingField,
    InvalidConfig(ConfigValidationError),
}

impl NodeCdcParams {
    /// The configuration, provided no member is missing and it is valid.
    pub fn into_config(self) -> (r: Result<PersistedNodeConfig, CdcParameterError>)
        ensures
            match params_config(self) {
                None => r == Err::<PersistedNodeConfig, CdcParameterError>(
                    CdcParameterError::MissingField,
                ),
                Some(c) => match config_error(c) {
                    Some(e) => r == Err::<PersistedNodeConfig, CdcParameterError>(
                        CdcParameterError::InvalidConfig(e),
                    ),
                    None => r matches Ok(config) && config@ == c,
                },
            },
    {
        let NodeCdcParams {
            device_id,
            wifi,
            network,
            gpio_inputs,
            input_mappings,
            double_click_interval_ms,
            long_press_threshold_ms,
            ack_timeout_ms,
            event_retry_count,
            heartbeat_interval_sec,
        } = self;
        match (
            device_id,
            wifi,
            network,
            gpio_inputs,
            input_mappings,
            double_click_interval_ms,
            long_press_threshold_ms,
            ack_timeout_ms,
            event_retry_count,
            heartbeat_interval_sec,
        ) {
            (Some(d), Some(w), Some(n), Some(g), Some(m), Some(dc), Some(lp), Some(at), Some(rc), Some(hb)) => {
                let config = PersistedNodeConfig {
                    device_id: d,
                    wifi: w,
                    network: n,
                    gpio_inputs: g,
                    input_mappings: m,
                    double_click_interval_ms: dc,
                    long_press_threshold_ms: lp,
                    ack_timeout_ms: at,
                    event_retry_count: rc,
                    heartbeat_interval_sec: hb,
                };
                match config.validate() {
                    Ok(()) => Ok(config),
                    Err(e) => Err(CdcParameterError::InvalidConfig(e)),
                }
            },
            _ => Err(CdcParameterError::MissingField),
        }
    }

    /// Every member taken from `config`.
    pub fn from_config(config: &PersistedNodeConfig) -> (r: Self)
        ensures
            params_config(r) == Some(config@),
    {
        let c = config.clone();
        NodeCdcParams {
            device_id: Some(c.device_id),
            wifi: Some(c.wifi),
            network: Some(c.network),
            gpio_inputs: Some(c.gpio_inputs),
            input_mappings: Some(c.input_mappings),
            double_click_interval_ms: Some(c.double_click_interval_ms),
            long_press_threshold_ms: Some(c.long_press_threshold_ms),
            ack_timeout_ms: Some(c.ack_timeout_ms),
            event_retry_count: Some(c.event_retry_count),
            heartbeat_interval_sec: Some(c.heartbeat_interval_sec),
        }
    }
}

#[derive(Clone, Copy, Debug, PartialEq, Eq, Structural)]
pub struct EmptyData {}

/// The runtime status the node reports.
#[derive(Debug, PartialEq, Eq)]
pub struct NodeCdcStatus {
    pub device_id: DeviceId,
    pub ip_address: Option<Ipv4Text>,
}

#[derive(Clone, Copy, Debug, PartialEq, Eq, Structural)]
pub enum CdcAction {
    NoAction,
    Reboot,
}

#[derive(Clone, Copy, Debug, PartialEq, Eq, Structural)]
pub struct CdcHandleResult {
    pub response_len: usize,
    pub action: CdcAction,
}

#[derive(Clone, Copy, Debug, PartialEq, Eq, Structural)]
pub enum CdcHandlerError {
    ResponseTooLarge,
}

/// A decoded request line: the request, or, for a line that is not a
/// request, the request ID that could still be read from it.
pub type DecodedRequest = Result<CdcRequest<NodeCdcParams>, Option<String>>;

pub open spec fn reply_ok(request_id: Seq<char>, data: Seq<char>) -> Seq<char> {
    cdc_ok_json(CDC_PROTOCOL_VERSION, json_string_text(request_id), data)
}

pub open spec fn reply_error(request_id: Seq<char>, code: CdcErrorCode, message: Seq<char>) -> Seq<
    char,
> {
    cdc_error_json(CDC_PROTOCOL_VERSION, json_string_text(request_id), code, json_string_text(message))
}

pub open spec fn status_json(device_id: Seq<char>, ip_address: Option<Seq<char>>) -> Seq<char> {
    "{\"device_id\":"@ + json_string_text(device_id) + ",\"ip_address\":"@ + json_opt_string(
        ip_address,
    ) + "}"@
}

/// Whether a valid configuration fits the storage record.
pub open spec fn fits_storage(c: NodeConfigView) -> bool {
    config_record(c).len() <= CONFIG_STORAGE_SIZE
}

/// The reply to a request and the action it asks of the firmware, given the
/// configuration before the request and whether the storage accepted the
/// write or clear the request made.
pub open spec fn request_reply(
    before: NodeConfigView,
    request: CdcRequest<NodeCdcParams>,
    ip_address: Option<Seq<char>>,
    accepted: bool,
) -> (Seq<char>, CdcAction) {
    let id = request.request_id@;
    let c = request.command@;
    if request.version != CDC_PROTOCOL_VERSION {
        (reply_error(id, CdcErrorCode::UnsupportedVersion, "unsupported protocol version"@), CdcAction::NoAction)
    } else if c == "get_config"@ {
        (reply_ok(id, config_json(before)), CdcAction::NoAction)
    } else if c == "get_status"@ {
        (reply_ok(id, status_json(before.device_id, ip_address)), CdcAction::NoAction)
    } else if c == "set_config"@ {
        match params_config(request.params) {
            None => (
                reply_error(id, CdcErrorCode::InvalidParameter, "missing configuration field"@),
                CdcAction::NoAction,
            ),
            Some(config) => if config_error(config) is Some {
                (reply_error(id, CdcErrorCode::InvalidConfig, "invalid configuration"@), CdcAction::NoAction)
            } else if fits_storage(config) && accepted {
                (reply_ok(id, "{}"@), CdcAction::NoAction)
            } else {
                (reply_error(id, CdcErrorCode::SaveFailed, "configuration save failed"@), CdcAction::NoAction)
            },
        }
    } else if c == "factory_reset"@ {
        if accepted {
            (reply_ok(id, "{}"@), CdcAction::NoAction)
        } else {
            (reply_error(id, CdcErrorCode::SaveFailed, "configuration reset failed"@), CdcAction::NoAction)
        }
    } else if c == "reboot"@ {
        (reply_ok(id, "{}"@), CdcAction::Reboot)
    } else if c == "get_info"@ || c == "get_inputs"@ || c == "get_outputs"@ {
        (
            reply_error(id, CdcErrorCode::NotSupported, "command is not supported on the node yet"@),
            CdcAction::NoAction,
        )
    } else {
        (reply_error(id, CdcErrorCode::InvalidCommand, "unknown command"@), CdcAction::NoAction)
    }
}

/// The configuration after a request, given whether the storage accepted
/// the write: only a valid `set_config` that was accepted changes it.
pub open spec fn request_config(
    before: NodeConfigView,
    request: CdcRequest<NodeCdcParams>,
    accepted: bool,
) -> NodeConfigView {
    if request.version == CDC_PROTOCOL_VERSION && request.command@ == "set_config"@ {
        match params_config(request.params) {
            Some(config) => if config_error(config) is None && fits_storage(config) && accepted {
                config
            } else {
                before
            },
            None => before,
        }
    } else {
        before
    }
}

/// The reply to a decoded line and the configuration after it.
pub open spec fn line_outcome(
    before: NodeConfigView,
    decoded: DecodedRequest,
    ip_address: Option<Seq<char>>,
    accepted: bool,
) -> (Seq<char>, CdcAction, NodeConfigView) {
    match decoded {
        Err(id) => (
            reply_error(
                match id {
                    Some(s) => s@,
                    None => Seq::empty(),
                },
                CdcErrorCode::InvalidJson,
                "invalid JSON"@,
            ),
            CdcAction::NoAction,
            before,
        ),
        Ok(request) => {
            let (reply, action) = request_reply(before, request, ip_address, accepted);
            (reply, action, request_config(before, request, accepted))
        },
    }
}

/// Whether the storage accepts the write or clear that `request` makes: a
/// valid `set_config` that fits the record area writes its configuration's
/// record, a `factory_reset` clears the record, and a request that makes
/// neither counts as accepted.
pub open spec fn request_accepted<S: ConfigStorage>(request: CdcRequest<NodeCdcParams>, storage: S) -> bool {
    if request.version != CDC_PROTOCOL_VERSION {
        true
    } else if request.command@ == "set_config"@ {
        match params_config(request.params) {
            Some(c) => if config_error(c) is None && fits_storage(c) {
                storage.write_ok(config_record(c))
            } else {
                true
            },
            None => true,
        }
    } else if request.command@ == "factory_reset"@ {
        storage.clear_ok()
    } else {
        true
    }
}

/// What a request leaves in the storage, `before` and `after` being the
/// storage before and after it: a valid `set_config` that fits the record
/// area makes one write of its configuration's record, `factory_reset` makes
/// one clear, and every other request leaves the storage as it was.
pub open spec fn request_storage<S: ConfigStorage>(
    request: CdcRequest<NodeCdcParams>,
    before: S,
    after: S,
) -> bool {
    if request.version != CDC_PROTOCOL_VERSION {
        after == before
    } else if request.command@ == "set_config"@ {
        match params_config(request.params) {
            Some(c) => if config_error(c) is None && fits_storage(c) {
                &&& before.write_leaves(config_record(c), after)
                &&& before.write_ok(config_record(c)) ==> after.stored() == config_record(c)
            } else {
                after == before
            },
            None => after == before,
        }
    } else if request.command@ == "factory_reset"@ {
        &&& before.clear_leaves(after)
        &&& before.clear_ok() ==> after.stored() == Seq::<u8>::empty()
    } else {
        after == before
    }
}

/// Whether the storage accepts what a decoded line asks of it; a line that
/// is not a request asks nothing.
pub open spec fn line_accepted<S: ConfigStorage>(decoded: DecodedRequest, storage: S) -> bool {
    match decoded {
        Err(_) => true,
        Ok(request) => request_accepted(request, storage),
    }
}

/// What a decoded line leaves in the storage; a line that is not a request
/// leaves it as it was.
pub open spec fn line_storage<S: ConfigStorage>(decoded: DecodedRequest, before: S, after: S) -> bool {
    match decoded {
        Err(_) => after == before,
        Ok(request) => request_storage(request, before, after),
    }
}

/// What the handler leaves in `destination` for a reply.
pub open spec fn written(
    reply: Seq<char>,
    action: CdcAction,
    old_dst: Seq<u8>,
    new_dst: Seq<u8>,
    r: Result<CdcHandleResult, CdcHandlerError>,
) -> bool {
    let bytes = vstd::utf8::encode_utf8(reply).push(10u8);
    &&& new_dst.len() == old_dst.len()
    &&& if bytes.len() <= old_dst.len() {
        r matches Ok(h) && h.response_len == bytes.len() && h.action == action && new_dst.subrange(
            0,
            bytes.len() as int,
        ) == bytes
    } else {
        r == Err::<CdcHandleResult, CdcHandlerError>(CdcHandlerError::ResponseTooLarge)
    }
}

/// Writes a reply line to `destination`.
fn send(reply: &str, action: CdcAction, destination: &mut [u8]) -> (r: Result<CdcHandleResult, CdcHandlerError>)
    ensures
        written(reply@, action, old(destination)@, final(destination)@, r),
{
    match write_text_line(reply, destination) {
        Ok(n) => Ok(CdcHandleResult { response_len: n, action }),
        Err(_) => Err(CdcHandlerError::ResponseTooLarge),
    }
}

fn ok_reply(request_id: &str, data: &str) -> (r: String)
    ensures
        r@ == reply_ok(request_id@, data@),
{
    let id = json_string(request_id);
    cdc_ok_text(CDC_PROTOCOL_VERSION, id.as_str(), data)
}

fn error_reply(request_id: &str, code: CdcErrorCode, message: &str) -> (r: String)
    ensures
        r@ == reply_error(request_id@, code, message@),
{
    let id = json_string(request_id);
    let text = json_string(message);
    cdc_error_text(CDC_PROTOCOL_VERSION, id.as_str(), code, text.as_str())
}

/// The byte ranges, from `offset` on, of the USB packets that carry a reply
/// of `len` bytes, at most `max_packet` bytes each.
pub open spec fn packet_ranges(offset: nat, len: nat, max_packet: nat) -> Seq<(usize, usize)>
    decreases len - offset,
{
    if offset >= len || max_packet == 0 {
        Seq::empty()
    } else {
        let end = if offset + max_packet < len {
            offset + max_packet
        } else {
            len
        };
        seq![(offset as usize, end as usize)] + packet_ranges(end, len, max_packet)
    }
}

/// The USB packets for a reply: its bytes in packets of at most
/// `max_packet` bytes, then an empty packet when the last one was full, so
/// that the host sees the transfer end.
pub open spec fn reply_packet_ranges(len: nat, max_packet: nat) -> Seq<(usize, usize)> {
    packet_ranges(0, len, max_packet) + if len % max_packet == 0 {
        seq![(len as usize, len as usize)]
    } else {
        Seq::empty()
    }
}

/// The `(start, end)` ranges of the USB packets that carry a reply of `len`
/// bytes.
pub fn reply_packets(len: usize, max_packet: usize) -> (r: Vec<(usize, usize)>)
    requires
        max_packet > 0,
    ensures
        r@ == reply_packet_ranges(len as nat, max_packet as nat),
{
    let mut r: Vec<(usize, usize)> = Vec::new();
    let mut offset: usize = 0;
    while offset < len
        invariant
            offset <= len,
            max_packet > 0,
            r@ + packet_ranges(offset as nat, len as nat, max_packet as nat) == packet_ranges(
                0,
                len as nat,
                max_packet as nat,
            ),
        decreases len - offset,
    {
        let end = if max_packet < len - offset {
            offset + max_packet
        } else {
            len
        };
        let ghost before = r@;
        r.push((offset, end));
        proof {
            let rest = packet_ranges(end as nat, len as nat, max_packet as nat);
            assert(packet_ranges(offset as nat, len as nat, max_packet as nat) == seq![
                (offset, end),
            ] + rest);
            assert(before + (seq![(offset, end)] + rest) =~= r@ + rest);
        }
        offset = end;
    }
    proof {
        assert(packet_ranges(offset as nat, len as nat, max_packet as nat) =~= Seq::empty());
        assert(r@ + Seq::<(usize, usize)>::empty() =~= r@);
    }
    if len % max_packet == 0 {
        r.push((len, len));
    } else {
        proof {
            assert(r@ + Seq::<(usize, usize)>::empty() =~= r@);
        }
    }
    r
}

/// The command names differ in their first letters where the dispatch
/// order needs it.
proof fn lemma_command_initials()
    ensures
        "get_config"@.len() > 0 && "get_config"@[0] == 'g',
        "get_status"@.len() > 0 && "get_status"@[0] == 'g',
        "set_config"@.len() > 0 && "set_config"@[0] == 's',
        "factory_reset"@.len() > 0 && "factory_reset"@[0] == 'f',
        "reboot"@.len() > 0 && "reboot"@[0] == 'r',
        "get_info"@.len() > 0 && "get_info"@[0] == 'g',
        "get_inputs"@.len() > 0 && "get_inputs"@[0] == 'g',
        "get_outputs"@.len() > 0 && "get_outputs"@[0] == 'g',
{
    reveal_strlit("get_config");
    reveal_strlit("get_status");
    reveal_strlit("set_config");
    reveal_strlit("factory_reset");
    reveal_strlit("reboot");
    reveal_strlit("get_info");
    reveal_strlit("get_inputs");
    reveal_strlit("get_outputs");
}

/// Answers CDC requests about the node's configuration.
#[derive(Debug)]
pub struct NodeCdcHandler<S> {
    manager: ConfigManager<S>,
}

impl<S: ConfigStorage> NodeCdcHandler<S> {
    pub closed spec fn spec_config(&self) -> NodeConfigView {
        self.manager.spec_config()
    }

    /// The storage the configuration is kept in.
    pub closed spec fn spec_storage(&self) -> S {
        self.manager.spec_storage()
    }

    pub fn new(manager: ConfigManager<S>) -> (r: Self)
        ensures
            r.spec_config() == manager.spec_config(),
    {
        NodeCdcHandler { manager }
    }

    pub fn config(&self) -> (r: &PersistedNodeConfig)
        ensures
            r@ == self.spec_config(),
    {
        self.manager.config()
    }

    /// The reply to `set_config` with the given parameters.
    fn set_config(&mut self, id: &str, params: NodeCdcParams, request: Ghost<CdcRequest<NodeCdcParams>>) -> (r: String)
        requires
            request@.version == CDC_PROTOCOL_VERSION,
            request@.command@ == "set_config"@,
            request@.request_id@ == id@,
            request@.params == params,
        ensures
            ({
                let accepted = request_accepted(request@, old(self).spec_storage());
                &&& r@ == request_reply(old(self).spec_config(), request@, None, accepted).0
                &&& final(self).spec_config() == request_config(old(self).spec_config(), request@, accepted)
                &&& request_storage(request@, old(self).spec_storage(), final(self).spec_storage())
            }),
    {
        proof {
            lemma_command_initials();
        }
        let config = match params.into_config() {
            Ok(config) => config,
            Err(CdcParameterError::MissingField) => {
                return error_reply(id, CdcErrorCode::InvalidParameter, "missing configuration field");
            },
            Err(CdcParameterError::InvalidConfig(_)) => {
                return error_reply(id, CdcErrorCode::InvalidConfig, "invalid configuration");
            },
        };
        match self.manager.set_config(config) {
            Ok(()) => ok_reply(id, "{}"),
            Err(ConfigManagerError::InvalidConfig(_)) => error_reply(
                id,
                CdcErrorCode::InvalidConfig,
                "invalid configuration",
            ),
            Err(_) => error_reply(id, CdcErrorCode::SaveFailed, "configuration save failed"),
        }
    }

    /// The reply to `factory_reset`.
    fn factory_reset(&mut self, id: &str, request: Ghost<CdcRequest<NodeCdcParams>>) -> (r: String)
        requires
            request@.version == CDC_PROTOCOL_VERSION,
            request@.command@ == "factory_reset"@,
            request@.request_id@ == id@,
        ensures
            ({
                let accepted = request_accepted(request@, old(self).spec_storage());
                &&& r@ == request_reply(old(self).spec_config(), request@, None, accepted).0
                &&& final(self).spec_config() == request_config(old(self).spec_config(), request@, accepted)
                &&& request_storage(request@, old(self).spec_storage(), final(self).spec_storage())
            }),
    {
        proof {
            lemma_command_initials();
        }
        match self.manager.factory_reset() {
            Ok(()) => ok_reply(id, "{}"),
            Err(ConfigManagerError::Storage(_)) => error_reply(
                id,
                CdcErrorCode::SaveFailed,
                "configuration reset failed",
            ),
            Err(_) => error_reply(id, CdcErrorCode::OperationFailed, "configuration reset failed"),
        }
    }

    /// The reply to a request of the current protocol version, and the
    /// action it asks for.
    fn respond(&mut self, request: CdcRequest<NodeCdcParams>, ip_address: Option<Ipv4Text>) -> (r: (
        String,
        CdcAction,
    ))
        requires
            request.version == CDC_PROTOCOL_VERSION,
        ensures
            ({
                let ip = match ip_address {
                    Some(a) => Some(a@),
                    None => None,
                };
                let accepted = request_accepted(request, old(self).spec_storage());
                let (reply, action) = request_reply(old(self).spec_config(), request, ip, accepted);
                &&& r.0@ == reply
                &&& r.1 == action
                &&& final(self).spec_config() == request_config(old(self).spec_config(), request, accepted)
                &&& request_storage(request, old(self).spec_storage(), final(self).spec_storage())
            }),
    {
        proof {
            lemma_command_initials();
        }
        let ghost whole = request;
        let CdcRequest { version, request_id, command, params } = request;
        let id = request_id.as_str();
        let c = command.as_str();
        if str_equal(c, "get_config") {
            let data = self.manager.config().to_json();
            (ok_reply(id, data.as_str()), CdcAction::NoAction)
        } else if str_equal(c, "get_status") {
            let mut data = String::new();
            data.append("{\"device_id\":");
            let device = json_string(self.manager.config().device_id.as_str());
            data.append(device.as_str());
            data.append(",\"ip_address\":");
            push_opt_string(&mut data, &ip_address);
            data.append("}");
            (ok_reply(id, data.as_str()), CdcAction::NoAction)
        } else if str_equal(c, "set_config") {
            (self.set_config(id, params, Ghost(whole)), CdcAction::NoAction)
        } else if str_equal(c, "factory_reset") {
            (self.factory_reset(id, Ghost(whole)), CdcAction::NoAction)
        } else if str_equal(c, "reboot") {
            (ok_reply(id, "{}"), CdcAction::Reboot)
        } else if str_equal(c, "get_info") || str_equal(c, "get_inputs") || str_equal(c, "get_outputs") {
            (
                error_reply(id, CdcErrorCode::NotSupported, "command is not supported on the node yet"),
                CdcAction::NoAction,
            )
        } else {
            (error_reply(id, CdcErrorCode::InvalidCommand, "unknown command"), CdcAction::NoAction)
        }
    }

    /// Handles one decoded request line without runtime status.
    pub fn handle_line(&mut self, decoded: DecodedRequest, destination: &mut [u8]) -> (r: Result<
        CdcHandleResult,
        CdcHandlerError,
    >)
        ensures
            ({
                let accepted = line_accepted(decoded, old(self).spec_storage());
                let (reply, action, after) = line_outcome(old(self).spec_config(), decoded, None, accepted);
                &&& written(reply, action, old(destination)@, final(destination)@, r)
                &&& final(self).spec_config() == after
                &&& line_storage(decoded, old(self).spec_storage(), final(self).spec_storage())
            }),
    {
        self.handle_line_with_status(decoded, destination, None)
    }

    /// Handles one decoded request line; `ip_address` is the node's current
    /// address for `get_status`. The reply is written to `destination` with
    /// its line feed.
    pub fn handle_line_with_status(
        &mut self,
        decoded: DecodedRequest,
        destination: &mut [u8],
        ip_address: Option<Ipv4Text>,
    ) -> (r: Result<CdcHandleResult, CdcHandlerError>)
        ensures
            ({
                let ip = match ip_address {
                    Some(a) => Some(a@),
                    None => None,
                };
                let accepted = line_accepted(decoded, old(self).spec_storage());
                let (reply, action, after) = line_outcome(old(self).spec_config(), decoded, ip, accepted);
                &&& written(reply, action, old(destination)@, final(destination)@, r)
                &&& final(self).spec_config() == after
                &&& line_storage(decoded, old(self).spec_storage(), final(self).spec_storage())
            }),
    {
        proof {
            reveal_strlit("");
            assert(""@ =~= Seq::<char>::empty());
        }
        let request = match decoded {
            Err(id) => {
                let request_id = match &id {
                    Some(s) => s.as_str(),
                    None => "",
                };
                let reply = error_reply(request_id, CdcErrorCode::InvalidJson, "invalid JSON");
                return send(reply.as_str(), CdcAction::NoAction, destination);
            },
            Ok(request) => request,
        };
        if request.version != CDC_PROTOCOL_VERSION {
            let reply = error_reply(
                request.request_id.as_str(),
                CdcErrorCode::UnsupportedVersion,
                "unsupported protocol version",
            );
            return send(reply.as_str(), CdcAction::NoAction, destination);
        }
        let (reply, action) = self.respond(request, ip_address);
        send(reply.as_str(), action, destination)
    }
}

/// A configuration that `set_config` stored is what `get_config` reports
/// next; a refused one leaves the reported configuration as it was.
pub proof fn law_set_config_visible_to_get_config(
    before: NodeConfigView,
    set: CdcRequest<NodeCdcParams>,
    get: CdcRequest<NodeCdcParams>,
    ip_address: Option<Seq<char>>,
    accepted: bool,
)
    requires
        set.version == CDC_PROTOCOL_VERSION,
        set.command@ == "set_config"@,
        get.version == CDC_PROTOCOL_VERSION,
        get.command@ == "get_config"@,
    ensures
        ({
            let after = request_config(before, set, accepted);
            let reply = request_reply(after, get, ip_address, accepted).0;
            match params_config(set.params) {
                Some(c) => if config_error(c) is None && fits_storage(c) && accepted {
                    reply == reply_ok(get.request_id@, config_json(c))
                } else {
                    reply == reply_ok(get.request_id@, config_json(before))
                },
                None => reply == reply_ok(get.request_id@, config_json(before)),
            }
        }),
{
}

/// How `set_config` turns out: a missing member gives INVALID_PARAMETER,
/// a configuration that breaks a rule gives INVALID_CONFIG, and one that does
/// not fit the record area gives SAVE_FAILED, in these cases without touching
/// the configuration or the storage. A valid configuration is written once;
/// SAVE_FAILED comes exactly when the storage refuses that write, the
/// configuration then staying as it was; otherwise the reply is success, the
/// new configuration is in force and the storage holds its record. The reply
/// always carries the request's identifier and asks for no action.
pub proof fn law_set_config_outcome<S: ConfigStorage>(
    before: NodeConfigView,
    request: CdcRequest<NodeCdcParams>,
    ip_address: Option<Seq<char>>,
    storage_before: S,
    storage_after: S,
)
    requires
        request.version == CDC_PROTOCOL_VERSION,
        request.command@ == "set_config"@,
        request_storage(request, storage_before, storage_after),
    ensures
        ({
            let accepted = request_accepted(request, storage_before);
            let (reply, action) = request_reply(before, request, ip_address, accepted);
            let after = request_config(before, request, accepted);
            let id = request.request_id@;
            &&& action == CdcAction::NoAction
            &&& match params_config(request.params) {
                None => reply == reply_error(
                    id,
                    CdcErrorCode::InvalidParameter,
                    "missing configuration field"@,
                ) && after == before && storage_after == storage_before,
                Some(c) => if config_error(c) is Some {
                    reply == reply_error(id, CdcErrorCode::InvalidConfig, "invalid configuration"@)
                        && after == before && storage_after == storage_before
                } else if !fits_storage(c) {
                    reply == reply_error(id, CdcErrorCode::SaveFailed, "configuration save failed"@)
                        && after == before && storage_after == storage_before
                } else {
                    &&& storage_before.write_leaves(config_record(c), storage_after)
                    &&& if storage_before.write_ok(config_record(c)) {
                        reply == reply_ok(id, "{}"@) && after == c && storage_after.stored()
                            == config_record(c)
                    } else {
                        reply == reply_error(
                            id,
                            CdcErrorCode::SaveFailed,
                            "configuration save failed"@,
                        ) && after == before
                    }
                },
            }
        }),
{
    lemma_command_initials();
}

/// `factory_reset` clears the stored record once and answers success exactly
/// when the storage accepts the clear, SAVE_FAILED otherwise; the running
/// configuration stays as it was either way.
pub proof fn law_factory_reset_outcome<S: ConfigStorage>(
    before: NodeConfigView,
    request: CdcRequest<NodeCdcParams>,
    ip_address: Option<Seq<char>>,
    storage_before: S,
    storage_after: S,
)
    requires
        request.version == CDC_PROTOCOL_VERSION,
        request.command@ == "factory_reset"@,
        request_storage(request, storage_before, storage_after),
    ensures
        ({
            let accepted = request_accepted(request, storage_before);
            let (reply, action) = request_reply(before, request, ip_address, accepted);
            let id = request.request_id@;
            &&& action == CdcAction::NoAction
            &&& request_config(before, request, accepted) == before
            &&& storage_before.clear_leaves(storage_after)
            &&& if storage_before.clear_ok() {
                reply == reply_ok(id, "{}"@) && storage_after.stored() == Seq::<u8>::empty()
            } else {
                reply == reply_error(id, CdcErrorCode::SaveFailed, "configuration reset failed"@)
            }
        }),
{
    lemma_command_initials();
}

/// A reply the handler wrote fills the front of the buffer and ends with a
/// line feed; it is refused exactly when the reply and its line feed do not
/// fit.
pub proof fn law_reply_framing(
    reply: Seq<char>,
    action: CdcAction,
    old_dst: Seq<u8>,
    new_dst: Seq<u8>,
    r: Result<CdcHandleResult, CdcHandlerError>,
)
    requires
        written(reply, action, old_dst, new_dst, r),
    ensures
        r is Err <==> vstd::utf8::encode_utf8(reply).len() + 1 > old_dst.len(),
        r matches Ok(h) ==> {
            &&& 1 <= h.response_len <= old_dst.len()
            &&& new_dst[h.response_len - 1] == 10u8
            &&& new_dst.subrange(0, h.response_len - 1) == vstd::utf8::encode_utf8(reply)
        },
{
    let bytes = vstd::utf8::encode_utf8(reply).push(10u8);
    if let Ok(h) = r {
        assert(new_dst.subrange(0, bytes.len() as int)[bytes.len() - 1] == bytes[bytes.len() - 1]);
        assert(new_dst.subrange(0, h.response_len - 1) =~= new_dst.subrange(0, bytes.len() as int).drop_last());
    }
}

/// Only a `reboot` request of the current protocol version asks the firmware
/// to restart.
pub proof fn law_reboot_only_on_request(
    before: NodeConfigView,
    decoded: DecodedRequest,
    ip_address: Option<Seq<char>>,
    accepted: bool,
)
    ensures
        line_outcome(before, decoded, ip_address, accepted).1 == CdcAction::Reboot ==> (decoded matches Ok(
            request,
        ) && request.version == CDC_PROTOCOL_VERSION && request.command@ == "reboot"@),
{
}

proof fn lemma_lf_free_replies(before: NodeConfigView, id: Seq<char>, code: CdcErrorCode, message: Seq<char>, ip_address: Option<Seq<char>>)
    ensures
        lf_free(reply_ok(id, config_json(before))),
        lf_free(reply_ok(id, status_json(before.device_id, ip_address))),
        lf_free(reply_ok(id, "{}"@)),
        lf_free(reply_error(id, code, message)),
{
    broadcast use crate::common::json::group_lf_free;

    reveal_strlit("{\"device_id\":");
    reveal_strlit(",\"ip_address\":");
    reveal_strlit("}");
    reveal_strlit("{}");
    reveal_with_fuel(lf_free_by_char, 16);
    lemma_lf_free_by_char("{\"device_id\":"@);
    lemma_lf_free_by_char(",\"ip_address\":"@);
    lemma_lf_free_by_char("}"@);
    lemma_lf_free_by_char("{}"@);
    lemma_lf_free_escaped(id);
    lemma_lf_free_escaped(message);
    lemma_lf_free_escaped(before.device_id);
    lemma_lf_free_scalars(0, true, ip_address);
    crate::node::config::lemma_lf_free_config_json(before);
    let idj = json_string_text(id);
    crate::common::cdc::lemma_lf_free_reply(CDC_PROTOCOL_VERSION, idj, config_json(before), code);
    crate::common::cdc::lemma_lf_free_reply(CDC_PROTOCOL_VERSION, idj, status_json(before.device_id, ip_address), code);
    crate::common::cdc::lemma_lf_free_reply(CDC_PROTOCOL_VERSION, idj, "{}"@, code);
    crate::common::cdc::lemma_lf_free_reply(CDC_PROTOCOL_VERSION, idj, json_string_text(message), code);
}

/// Every reply is one line: its text holds no line feed, so the only byte
/// 10 the handler writes is the line feed that ends the reply.
pub proof fn law_reply_is_one_line(
    before: NodeConfigView,
    decoded: DecodedRequest,
    ip_address: Option<Seq<char>>,
    accepted: bool,
    old_dst: Seq<u8>,
    new_dst: Seq<u8>,
    r: Result<CdcHandleResult, CdcHandlerError>,
)
    requires
        written(
            line_outcome(before, decoded, ip_address, accepted).0,
            line_outcome(before, decoded, ip_address, accepted).1,
            old_dst,
            new_dst,
            r,
        ),
    ensures
        lf_free(line_outcome(before, decoded, ip_address, accepted).0),
        r matches Ok(h) ==> forall|i: int|
            0 <= i < h.response_len ==> (#[trigger] new_dst[i] == 10u8 <==> i == h.response_len - 1),
{
    let reply = line_outcome(before, decoded, ip_address, accepted).0;
    match decoded {
        Err(id) => {
            let s = match id {
                Some(x) => x@,
                None => Seq::empty(),
            };
            lemma_lf_free_replies(before, s, CdcErrorCode::InvalidJson, "invalid JSON"@, ip_address);
        },
        Ok(request) => {
            let id = request.request_id@;
            lemma_lf_free_replies(before, id, CdcErrorCode::UnsupportedVersion, "unsupported protocol version"@, ip_address);
            lemma_lf_free_replies(before, id, CdcErrorCode::InvalidParameter, "missing configuration field"@, ip_address);
            lemma_lf_free_replies(before, id, CdcErrorCode::InvalidConfig, "invalid configuration"@, ip_address);
            lemma_lf_free_replies(before, id, CdcErrorCode::SaveFailed, "configuration save failed"@, ip_address);
            lemma_lf_free_replies(before, id, CdcErrorCode::SaveFailed, "configuration reset failed"@, ip_address);
            lemma_lf_free_replies(before, id, CdcErrorCode::NotSupported, "command is not supported on the node yet"@, ip_address);
            lemma_lf_free_replies(before, id, CdcErrorCode::InvalidCommand, "unknown command"@, ip_address);
        },
    }
    assert(lf_free(reply));
    lemma_lf_free_encode(reply);
    let bytes = vstd::utf8::encode_utf8(reply).push(10u8);
    if let Ok(h) = r {
        assert forall|i: int| 0 <= i < h.response_len implies (#[trigger] new_dst[i] == 10u8 <==> i
            == h.response_len - 1) by {
            assert(new_dst.subrange(0, bytes.len() as int)[i] == bytes[i]);
        }
    }
}

} // verus!
