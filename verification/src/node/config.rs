//! Node configuration and its validation.

use vstd::prelude::*;

use crate::common::udp::{ActionId, InputEvent};

verus! {

/// Physical properties of one GPIO input.
#[derive(Clone, Copy, Debug, PartialEq, Eq, Structural)]
pub struct GpioInputConfig {
    pub gpio: u8,
    pub active_high: bool,
    pub debounce_ms: u16,
}

/// A data-only mapping from a physical input gesture to a hub Action ID.
#[derive(Clone, Copy, Debug, PartialEq, Eq, Structural)]
pub struct InputMapping {
    pub gpio: u8,
    pub input_event: InputEvent,
    pub action_id: ActionId,
    pub enabled: bool,
}

} // verus!

use crate::common::types::{DeviceId, DEVICE_ID_CAPACITY};
use crate::node::input::{gpio_known, mapping_repeated_after, InputConfig};
use crate::text::{ipv4_text, is_ipv4_text};

verus! {

/// IPv4 address text, such as `192.168.1.50`.
pub type Ipv4Text = String;

/// The Wi-Fi network the node joins.
#[derive(Debug, PartialEq, Eq)]
pub struct WifiConfig {
    pub ssid: String,
    pub password: String,
}

#[derive(Clone, Copy, Debug, PartialEq, Eq, Structural)]
pub enum NetworkMode {
    Dhcp,
    Static,
}

/// A fixed IPv4 setup.
#[derive(Debug, PartialEq, Eq)]
pub struct StaticIpv4Config {
    pub ip_address: Ipv4Text,
    pub prefix_length: u8,
    pub gateway: Ipv4Text,
    pub dns: Ipv4Text,
}

/// How the node gets its address; DHCP unless configured otherwise.
#[derive(Debug, PartialEq, Eq)]
pub struct NetworkConfig {
    pub mode: NetworkMode,
    pub static_ipv4: Option<StaticIpv4Config>,
}

pub ghost struct WifiView {
    pub ssid: Seq<char>,
    pub password: Seq<char>,
}

pub ghost struct StaticIpv4View {
    pub ip_address: Seq<char>,
    pub prefix_length: u8,
    pub gateway: Seq<char>,
    pub dns: Seq<char>,
}

pub ghost struct NetworkView {
    pub mode: NetworkMode,
    pub static_ipv4: Option<StaticIpv4View>,
}

impl View for WifiConfig {
    type V = WifiView;

    open spec fn view(&self) -> WifiView {
        WifiView { ssid: self.ssid@, password: self.password@ }
    }
}

impl View for StaticIpv4Config {
    type V = StaticIpv4View;

    open spec fn view(&self) -> StaticIpv4View {
        StaticIpv4View {
            ip_address: self.ip_address@,
            prefix_length: self.prefix_length,
            gateway: self.gateway@,
            dns: self.dns@,
        }
    }
}

impl View for NetworkConfig {
    type V = NetworkView;

    open spec fn view(&self) -> NetworkView {
        NetworkView {
            mode: self.mode,
            static_ipv4: match self.static_ipv4 {
                Some(s) => Some(s@),
                None => None,
            },
        }
    }
}

impl Clone for WifiConfig {
    fn clone(&self) -> (r: Self)
        ensures
            r@ == self@,
    {
        WifiConfig { ssid: self.ssid.clone(), password: self.password.clone() }
    }
}

impl Clone for StaticIpv4Config {
    fn clone(&self) -> (r: Self)
        ensures
            r@ == self@,
    {
        StaticIpv4Config {
            ip_address: self.ip_address.clone(),
            prefix_length: self.prefix_length,
            gateway: self.gateway.clone(),
            dns: self.dns.clone(),
        }
    }
}

impl Clone for NetworkConfig {
    fn clone(&self) -> (r: Self)
        ensures
            r@ == self@,
    {
        NetworkConfig {
            mode: self.mode,
            static_ipv4: match &self.static_ipv4 {
                Some(s) => Some(s.clone()),
                None => None,
            },
        }
    }
}

/// A usable network setup: DHCP, or a fixed setup whose three addresses are
/// IPv4 text and whose prefix length is at most 32.
pub open spec fn network_ok(n: NetworkView) -> bool {
    match n.mode {
        NetworkMode::Dhcp => true,
        NetworkMode::Static => match n.static_ipv4 {
            Some(s) => is_ipv4_text(s.ip_address) && is_ipv4_text(s.gateway) && is_ipv4_text(s.dns)
                && s.prefix_length <= 32,
            None => false,
        },
    }
}

pub fn network_valid(n: &NetworkConfig) -> (r: bool)
    ensures
        r == network_ok(n@),
{
    match n.mode {
        NetworkMode::Dhcp => true,
        NetworkMode::Static => match &n.static_ipv4 {
            Some(s) => ipv4_text(s.ip_address.as_str()) && ipv4_text(s.gateway.as_str())
                && ipv4_text(s.dns.as_str()) && s.prefix_length <= 32,
            None => false,
        },
    }
}

/// The network setup the node starts with.
pub open spec fn spec_default_network() -> NetworkView {
    NetworkView { mode: NetworkMode::Dhcp, static_ipv4: None }
}

pub const MAX_PERSISTED_GPIO_INPUTS: usize = 10;
pub const MAX_PERSISTED_INPUT_MAPPINGS: usize = 32;
pub const DEFAULT_ACK_TIMEOUT_MS: u32 = 60000;
pub const DEFAULT_EVENT_RETRY_COUNT: u8 = 3;
pub const DEFAULT_HEARTBEAT_INTERVAL_SEC: u32 = 180;
pub const DEFAULT_DOUBLE_CLICK_INTERVAL_MS: u32 = 400;
pub const DEFAULT_LONG_PRESS_THRESHOLD_MS: u32 = 1000;
pub const DEFAULT_DEBOUNCE_MS: u16 = 30;

/// GPIOs that the Pico W / Pico 2 W expose for inputs: 0 to 22 and 26 to 28.
/// 23, 24, 25 and 29 are wired to the on-board wireless chip.
pub open spec fn spec_supported_gpio(gpio: u8) -> bool {
    gpio <= 22 || (26 <= gpio && gpio <= 28)
}

pub fn is_supported_gpio(gpio: u8) -> (r: bool)
    ensures
        r == spec_supported_gpio(gpio),
{
    gpio <= 22 || (26 <= gpio && gpio <= 28)
}

#[derive(Clone, Copy, Debug, PartialEq, Eq, Structural)]
pub struct OutputBinding {
    pub output: u8,
    pub gpio: u8,
}

/// The built-in configuration the firmware boots with.
#[derive(Clone, Copy, Debug)]
pub struct NodeConfig {
    pub device_id: &'static str,
    pub user_id: &'static str,
    pub name: &'static str,
    pub firmware_version: &'static str,
    pub wifi_ssid: &'static str,
    pub wifi_password: &'static str,
    pub hub_ipv4: [u8; 4],
    pub hub_port: u16,
    pub local_port: u16,
    pub ack_timeout_ms: u32,
    pub event_retry_count: u8,
    pub heartbeat_interval_sec: u32,
    pub double_click_interval_ms: u32,
    pub long_press_threshold_ms: u32,
    pub gpio_inputs: &'static [GpioInputConfig],
    pub input_mappings: &'static [InputMapping],
    pub outputs: &'static [OutputBinding],
}

/// The configuration that is exchanged over CDC and stored in flash.
#[derive(Debug, PartialEq, Eq)]
pub struct PersistedNodeConfig {
    pub device_id: DeviceId,
    pub wifi: WifiConfig,
    pub network: NetworkConfig,
    pub gpio_inputs: Vec<GpioInputConfig>,
    pub input_mappings: Vec<InputMapping>,
    pub double_click_interval_ms: u32,
    pub long_press_threshold_ms: u32,
    pub ack_timeout_ms: u32,
    pub event_retry_count: u8,
    pub heartbeat_interval_sec: u32,
}

/// The mathematical content of a `PersistedNodeConfig`.
pub ghost struct NodeConfigView {
    pub device_id: Seq<char>,
    pub wifi: WifiView,
    pub network: NetworkView,
    pub gpio_inputs: Seq<GpioInputConfig>,
    pub input_mappings: Seq<InputMapping>,
    pub double_click_interval_ms: u32,
    pub long_press_threshold_ms: u32,
    pub ack_timeout_ms: u32,
    pub event_retry_count: u8,
    pub heartbeat_interval_sec: u32,
}

impl View for PersistedNodeConfig {
    type V = NodeConfigView;

    open spec fn view(&self) -> NodeConfigView {
        NodeConfigView {
            device_id: self.device_id@,
            wifi: self.wifi@,
            network: self.network@,
            gpio_inputs: self.gpio_inputs@,
            input_mappings: self.input_mappings@,
            double_click_interval_ms: self.double_click_interval_ms,
            long_press_threshold_ms: self.long_press_threshold_ms,
            ack_timeout_ms: self.ack_timeout_ms,
            event_retry_count: self.event_retry_count,
            heartbeat_interval_sec: self.heartbeat_interval_sec,
        }
    }
}

#[derive(Clone, Copy, Debug, PartialEq, Eq, Structural)]
pub enum ConfigValidationError {
    EmptyDeviceId,
    UnsupportedGpio(u8),
    DuplicateGpio(u8),
    MappingReferencesUnknownGpio(u8),
    DuplicateMapping { gpio: u8, input_event: InputEvent },
    ZeroDebounce(u8),
    ZeroDoubleClickInterval,
    ZeroLongPressThreshold,
    ZeroAckTimeout,
    ZeroHeartbeatInterval,
    InvalidNetwork,
}

pub open spec fn gpio_count(g: Seq<GpioInputConfig>, gpio: u8) -> nat
    decreases g.len(),
{
    if g.len() == 0 {
        0
    } else {
        gpio_count(g.drop_last(), gpio) + if g.last().gpio == gpio {
            1nat
        } else {
            0nat
        }
    }
}

/// The first problem among the inputs `g[i..]`: an unsupported GPIO, a GPIO
/// listed more than once, or a zero debounce time.
pub open spec fn gpio_input_error_from(g: Seq<GpioInputConfig>, i: nat) -> Option<
    ConfigValidationError,
>
    decreases g.len() - i,
{
    if i >= g.len() {
        None
    } else if !spec_supported_gpio(g[i as int].gpio) {
        Some(ConfigValidationError::UnsupportedGpio(g[i as int].gpio))
    } else if gpio_count(g, g[i as int].gpio) > 1 {
        Some(ConfigValidationError::DuplicateGpio(g[i as int].gpio))
    } else if g[i as int].debounce_ms == 0 {
        Some(ConfigValidationError::ZeroDebounce(g[i as int].gpio))
    } else {
        gpio_input_error_from(g, i + 1)
    }
}

/// The first problem among the mappings `m[i..]`.
pub open spec fn persisted_mapping_error_from(
    g: Seq<GpioInputConfig>,
    m: Seq<InputMapping>,
    i: nat,
) -> Option<ConfigValidationError>
    decreases m.len() - i,
{
    if i >= m.len() {
        None
    } else if !gpio_known(g, m[i as int].gpio) {
        Some(ConfigValidationError::MappingReferencesUnknownGpio(m[i as int].gpio))
    } else if mapping_repeated_after(m, i as int) {
        Some(
            ConfigValidationError::DuplicateMapping {
                gpio: m[i as int].gpio,
                input_event: m[i as int].input_event,
            },
        )
    } else {
        persisted_mapping_error_from(g, m, i + 1)
    }
}

/// The error reported for a configuration that does not fit the bounded
/// storage layout: the first GPIO input or mapping beyond capacity, or a
/// device ID that is empty or too long.
pub open spec fn capacity_error(c: NodeConfigView) -> Option<ConfigValidationError> {
    if c.device_id.len() == 0 || crate::common::types::utf8_len(c.device_id) > DEVICE_ID_CAPACITY {
        Some(ConfigValidationError::EmptyDeviceId)
    } else if c.gpio_inputs.len() > MAX_PERSISTED_GPIO_INPUTS {
        Some(
            ConfigValidationError::UnsupportedGpio(
                c.gpio_inputs[MAX_PERSISTED_GPIO_INPUTS as int].gpio,
            ),
        )
    } else if c.input_mappings.len() > MAX_PERSISTED_INPUT_MAPPINGS {
        Some(
            ConfigValidationError::DuplicateMapping {
                gpio: c.input_mappings[MAX_PERSISTED_INPUT_MAPPINGS as int].gpio,
                input_event: c.input_mappings[MAX_PERSISTED_INPUT_MAPPINGS as int].input_event,
            },
        )
    } else {
        None
    }
}

/// The error `PersistedNodeConfig::validate` reports, if any, in the order the
/// checks are made.
pub open spec fn config_error(c: NodeConfigView) -> Option<ConfigValidationError> {
    if capacity_error(c) is Some {
        capacity_error(c)
    } else if gpio_input_error_from(c.gpio_inputs, 0) is Some {
        gpio_input_error_from(c.gpio_inputs, 0)
    } else if c.double_click_interval_ms == 0 {
        Some(ConfigValidationError::ZeroDoubleClickInterval)
    } else if c.long_press_threshold_ms == 0 {
        Some(ConfigValidationError::ZeroLongPressThreshold)
    } else if c.ack_timeout_ms == 0 {
        Some(ConfigValidationError::ZeroAckTimeout)
    } else if c.heartbeat_interval_sec == 0 {
        Some(ConfigValidationError::ZeroHeartbeatInterval)
    } else if !network_ok(c.network) {
        Some(ConfigValidationError::InvalidNetwork)
    } else {
        persisted_mapping_error_from(c.gpio_inputs, c.input_mappings, 0)
    }
}

fn count_gpio(g: &Vec<GpioInputConfig>, gpio: u8) -> (r: usize)
    ensures
        r == gpio_count(g@, gpio),
{
    let mut n: usize = 0;
    let mut i: usize = 0;
    while i < g.len()
        invariant
            i <= g@.len(),
            n == gpio_count(g@.take(i as int), gpio),
            n <= i,
        decreases g@.len() - i,
    {
        assert(g@.take(i as int + 1).drop_last() =~= g@.take(i as int));
        if g[i].gpio == gpio {
            n = n + 1;
        }
        i = i + 1;
    }
    assert(g@.take(g@.len() as int) =~= g@);
    n
}

fn gpio_in(g: &Vec<GpioInputConfig>, gpio: u8) -> (r: bool)
    ensures
        r == gpio_known(g@, gpio),
{
    let mut i: usize = 0;
    while i < g.len()
        invariant
            i <= g@.len(),
            forall|k: int| 0 <= k < i ==> g@[k].gpio != gpio,
        decreases g@.len() - i,
    {
        if g[i].gpio == gpio {
            return true;
        }
        i = i + 1;
    }
    false
}

impl PersistedNodeConfig {
    /// Checks the configuration before it is used or stored.
    #[verifier::loop_isolation(false)]
    pub fn validate(&self) -> (r: Result<(), ConfigValidationError>)
        ensures
            match r {
                Ok(()) => config_error(self@) is None,
                Err(e) => config_error(self@) == Some(e),
            },
    {
        if self.device_id.as_str().as_bytes().len() == 0 || self.device_id.as_str().as_bytes().len() > DEVICE_ID_CAPACITY {
            proof {
                if self.device_id@.len() != 0 {
                    crate::common::types::lemma_utf8_len_zero_iff(self.device_id@);
                }
            }
            return Err(ConfigValidationError::EmptyDeviceId);
        }
        if self.gpio_inputs.len() > MAX_PERSISTED_GPIO_INPUTS {
            return Err(ConfigValidationError::UnsupportedGpio(self.gpio_inputs[MAX_PERSISTED_GPIO_INPUTS].gpio));
        }
        if self.input_mappings.len() > MAX_PERSISTED_INPUT_MAPPINGS {
            let m = self.input_mappings[MAX_PERSISTED_INPUT_MAPPINGS];
            return Err(ConfigValidationError::DuplicateMapping { gpio: m.gpio, input_event: m.input_event });
        }
        proof {
            crate::common::types::lemma_utf8_len_zero_iff(self.device_id@);
        }
        assert(capacity_error(self@) is None);
        let g = &self.gpio_inputs;
        let mut i: usize = 0;
        while i < g.len()
            invariant
                i <= g@.len(),
                g == &self.gpio_inputs,
                gpio_input_error_from(g@, 0) == gpio_input_error_from(g@, i as nat),
            decreases g@.len() - i,
        {
            let input = g[i];
            if !is_supported_gpio(input.gpio) {
                return Err(ConfigValidationError::UnsupportedGpio(input.gpio));
            }
            if count_gpio(g, input.gpio) > 1 {
                return Err(ConfigValidationError::DuplicateGpio(input.gpio));
            }
            if input.debounce_ms == 0 {
                return Err(ConfigValidationError::ZeroDebounce(input.gpio));
            }
            i = i + 1;
        }
        if self.double_click_interval_ms == 0 {
            return Err(ConfigValidationError::ZeroDoubleClickInterval);
        }
        if self.long_press_threshold_ms == 0 {
            return Err(ConfigValidationError::ZeroLongPressThreshold);
        }
        if self.ack_timeout_ms == 0 {
            return Err(ConfigValidationError::ZeroAckTimeout);
        }
        if self.heartbeat_interval_sec == 0 {
            return Err(ConfigValidationError::ZeroHeartbeatInterval);
        }
        if !network_valid(&self.network) {
            return Err(ConfigValidationError::InvalidNetwork);
        }
        let m = &self.input_mappings;
        let mut k: usize = 0;
        while k < m.len()
            invariant
                k <= m@.len(),
                m == &self.input_mappings,
                g == &self.gpio_inputs,
                persisted_mapping_error_from(g@, m@, 0) == persisted_mapping_error_from(g@, m@, k as nat),
            decreases m@.len() - k,
        {
            let mapping = m[k];
            if !gpio_in(g, mapping.gpio) {
                return Err(ConfigValidationError::MappingReferencesUnknownGpio(mapping.gpio));
            }
            let mut later: usize = k + 1;
            while later < m.len()
                invariant
                    k < later <= m@.len(),
                    mapping == m@[k as int],
                    forall|b: int|
                        k < b < later ==> !(m@[b].gpio == mapping.gpio && m@[b].input_event
                            == mapping.input_event),
                decreases m@.len() - later,
            {
                if m[later].gpio == mapping.gpio && m[later].input_event == mapping.input_event {
                    assert(mapping_repeated_after(m@, k as int));
                    return Err(
                        ConfigValidationError::DuplicateMapping {
                            gpio: mapping.gpio,
                            input_event: mapping.input_event,
                        },
                    );
                }
                later = later + 1;
            }
            assert(!mapping_repeated_after(m@, k as int));
            k = k + 1;
        }
        Ok(())
    }
}

/// The mathematical content of the built-in configuration's persisted part.
pub open spec fn node_config_view(c: NodeConfig) -> NodeConfigView {
    NodeConfigView {
        device_id: c.device_id@,
        wifi: WifiView { ssid: c.wifi_ssid@, password: c.wifi_password@ },
        network: spec_default_network(),
        gpio_inputs: c.gpio_inputs@,
        input_mappings: c.input_mappings@,
        double_click_interval_ms: c.double_click_interval_ms,
        long_press_threshold_ms: c.long_press_threshold_ms,
        ack_timeout_ms: c.ack_timeout_ms,
        event_retry_count: c.event_retry_count,
        heartbeat_interval_sec: c.heartbeat_interval_sec,
    }
}

/// The three default inputs on GPIO 2, 3 and 4: active low, 30 ms debounce.
pub open spec fn spec_default_gpio_inputs() -> Seq<GpioInputConfig> {
    seq![
        GpioInputConfig { gpio: 2, active_high: false, debounce_ms: DEFAULT_DEBOUNCE_MS },
        GpioInputConfig { gpio: 3, active_high: false, debounce_ms: DEFAULT_DEBOUNCE_MS },
        GpioInputConfig { gpio: 4, active_high: false, debounce_ms: DEFAULT_DEBOUNCE_MS },
    ]
}

pub fn default_gpio_inputs() -> (r: Vec<GpioInputConfig>)
    ensures
        r@ == spec_default_gpio_inputs(),
{
    let r = vec![
        GpioInputConfig { gpio: 2, active_high: false, debounce_ms: DEFAULT_DEBOUNCE_MS },
        GpioInputConfig { gpio: 3, active_high: false, debounce_ms: DEFAULT_DEBOUNCE_MS },
        GpioInputConfig { gpio: 4, active_high: false, debounce_ms: DEFAULT_DEBOUNCE_MS },
    ];
    assert(r@ =~= spec_default_gpio_inputs());
    r
}

/// The factory defaults of the persisted configuration.
pub open spec fn spec_default_config() -> NodeConfigView {
    NodeConfigView {
        device_id: "family-node-01"@,
        wifi: WifiView { ssid: "change-me"@, password: "change-me"@ },
        network: spec_default_network(),
        gpio_inputs: spec_default_gpio_inputs(),
        input_mappings: Seq::empty(),
        double_click_interval_ms: DEFAULT_DOUBLE_CLICK_INTERVAL_MS,
        long_press_threshold_ms: DEFAULT_LONG_PRESS_THRESHOLD_MS,
        ack_timeout_ms: DEFAULT_ACK_TIMEOUT_MS,
        event_retry_count: DEFAULT_EVENT_RETRY_COUNT,
        heartbeat_interval_sec: DEFAULT_HEARTBEAT_INTERVAL_SEC,
    }
}

/// The built-in firmware configuration.
pub fn default_node_config() -> (c: NodeConfig)
    ensures
        node_config_view(c) == spec_default_config(),
{
    let c = NodeConfig {
        device_id: "family-node-01",
        user_id: "father",
        name: "リビング",
        firmware_version: "0.1.0",
        wifi_ssid: "change-me",
        wifi_password: "change-me",
        hub_ipv4: [192, 168, 1, 2],
        hub_port: 5000,
        local_port: 5001,
        ack_timeout_ms: DEFAULT_ACK_TIMEOUT_MS,
        event_retry_count: DEFAULT_EVENT_RETRY_COUNT,
        heartbeat_interval_sec: DEFAULT_HEARTBEAT_INTERVAL_SEC,
        double_click_interval_ms: DEFAULT_DOUBLE_CLICK_INTERVAL_MS,
        long_press_threshold_ms: DEFAULT_LONG_PRESS_THRESHOLD_MS,
        gpio_inputs: &[
            GpioInputConfig { gpio: 2, active_high: false, debounce_ms: DEFAULT_DEBOUNCE_MS },
            GpioInputConfig { gpio: 3, active_high: false, debounce_ms: DEFAULT_DEBOUNCE_MS },
            GpioInputConfig { gpio: 4, active_high: false, debounce_ms: DEFAULT_DEBOUNCE_MS },
        ],
        input_mappings: &[],
        outputs: &[
            OutputBinding { output: 1, gpio: 10 },
            OutputBinding { output: 2, gpio: 11 },
            OutputBinding { output: 3, gpio: 12 },
        ],
    };
    assert(c.gpio_inputs@ =~= spec_default_gpio_inputs());
    assert(c.input_mappings@ =~= Seq::<InputMapping>::empty());
    c
}

/// The factory defaults satisfy every configuration rule.
pub proof fn law_defaults_are_valid()
    ensures
        config_error(spec_default_config()) is None,
{
    reveal_strlit("family-node-01");
    vstd::utf8::is_ascii_chars_encode_utf8("family-node-01"@);
    assert(gpio_count(spec_default_gpio_inputs(), 2) == 1) by {
        reveal_with_fuel(gpio_count, 4);
    }
    assert(gpio_count(spec_default_gpio_inputs(), 3) == 1) by {
        reveal_with_fuel(gpio_count, 4);
    }
    assert(gpio_count(spec_default_gpio_inputs(), 4) == 1) by {
        reveal_with_fuel(gpio_count, 4);
    }
    assert(gpio_input_error_from(spec_default_gpio_inputs(), 0) is None) by {
        reveal_with_fuel(gpio_input_error_from, 4);
    }
}

/// The GPIOs of `g` are pairwise different.
pub open spec fn distinct_gpios(g: Seq<GpioInputConfig>) -> bool {
    forall|i: int, j: int| 0 <= i < j < g.len() ==> #[trigger] g[i].gpio != #[trigger] g[j].gpio
}

/// No two mappings of `m` share their GPIO and input event.
pub open spec fn distinct_mappings(m: Seq<InputMapping>) -> bool {
    forall|i: int, j: int|
        0 <= i < j < m.len() ==> !(#[trigger] m[i].gpio == #[trigger] m[j].gpio && m[i].input_event
            == m[j].input_event)
}

proof fn lemma_gpio_count_at_most_one(g: Seq<GpioInputConfig>, x: u8)
    ensures
        gpio_count(g, x) == 0 <==> forall|k: int| 0 <= k < g.len() ==> #[trigger] g[k].gpio != x,
        gpio_count(g, x) <= 1 <==> forall|i: int, j: int|
            0 <= i < j < g.len() ==> !(#[trigger] g[i].gpio == x && #[trigger] g[j].gpio == x),
    decreases g.len(),
{
    if g.len() > 0 {
        let p = g.drop_last();
        lemma_gpio_count_at_most_one(p, x);
        let last = g.len() - 1;
        assert forall|k: int| 0 <= k < last implies #[trigger] g[k] == p[k] by {}
        if gpio_count(g, x) == 0 {
            assert forall|k: int| 0 <= k < g.len() implies #[trigger] g[k].gpio != x by {
                if k < last {
                    assert(p[k].gpio != x);
                }
            }
        }
        if gpio_count(g, x) <= 1 {
            assert forall|i: int, j: int| 0 <= i < j < g.len() implies !(#[trigger] g[i].gpio == x
                && #[trigger] g[j].gpio == x) by {
                if j < last {
                    assert(!(p[i].gpio == x && p[j].gpio == x));
                } else if g.last().gpio == x {
                    assert(p[i].gpio != x);
                }
            }
        } else {
            if g.last().gpio == x {
                let k = choose|k: int| 0 <= k < p.len() && #[trigger] p[k].gpio == x;
                assert(g[k].gpio == x && g[last].gpio == x);
            } else {
                let (i, j) = choose|i: int, j: int|
                    0 <= i < j < p.len() && (#[trigger] p[i].gpio == x && #[trigger] p[j].gpio == x);
                assert(g[i].gpio == x && g[j].gpio == x);
            }
        }
    }
}

proof fn lemma_gpio_inputs_valid_from(g: Seq<GpioInputConfig>, i: nat)
    ensures
        gpio_input_error_from(g, i) is None <==> forall|k: int|
            i <= k < g.len() ==> {
                &&& spec_supported_gpio(#[trigger] g[k].gpio)
                &&& gpio_count(g, g[k].gpio) <= 1
                &&& g[k].debounce_ms > 0
            },
    decreases g.len() - i,
{
    if i < g.len() {
        lemma_gpio_inputs_valid_from(g, i + 1);
    }
}

proof fn lemma_mappings_valid_from(g: Seq<GpioInputConfig>, m: Seq<InputMapping>, i: nat)
    ensures
        persisted_mapping_error_from(g, m, i) is None <==> forall|k: int|
            i <= k < m.len() ==> gpio_known(g, #[trigger] m[k].gpio) && !mapping_repeated_after(m, k),
    decreases m.len() - i,
{
    if i < m.len() {
        lemma_mappings_valid_from(g, m, i + 1);
    }
}

/// A stored configuration is accepted exactly when its device ID is present
/// and fits, it has at most ten GPIO inputs and thirty-two mappings, every
/// input is on a supported GPIO with a non-zero debounce time and no GPIO is
/// listed twice, the click, long-press, ACK and heartbeat times are non-zero,
/// the network setup is usable, and every mapping names a listed GPIO with no
/// GPIO and input event mapped twice.
pub proof fn law_config_accepted_exactly_when_valid(c: NodeConfigView)
    ensures
        config_error(c) is None <==> {
            &&& c.device_id.len() > 0
            &&& crate::common::types::utf8_len(c.device_id) <= DEVICE_ID_CAPACITY
            &&& c.gpio_inputs.len() <= MAX_PERSISTED_GPIO_INPUTS
            &&& c.input_mappings.len() <= MAX_PERSISTED_INPUT_MAPPINGS
            &&& forall|k: int|
                0 <= k < c.gpio_inputs.len() ==> spec_supported_gpio(#[trigger] c.gpio_inputs[k].gpio)
                    && c.gpio_inputs[k].debounce_ms > 0
            &&& distinct_gpios(c.gpio_inputs)
            &&& c.double_click_interval_ms > 0
            &&& c.long_press_threshold_ms > 0
            &&& c.ack_timeout_ms > 0
            &&& c.heartbeat_interval_sec > 0
            &&& network_ok(c.network)
            &&& forall|k: int|
                0 <= k < c.input_mappings.len() ==> gpio_known(
                    c.gpio_inputs,
                    #[trigger] c.input_mappings[k].gpio,
                )
            &&& distinct_mappings(c.input_mappings)
        },
{
    let g = c.gpio_inputs;
    let m = c.input_mappings;
    lemma_gpio_inputs_valid_from(g, 0);
    lemma_mappings_valid_from(g, m, 0);
    if distinct_gpios(g) {
        assert forall|k: int| 0 <= k < g.len() implies gpio_count(g, #[trigger] g[k].gpio) <= 1 by {
            lemma_gpio_count_at_most_one(g, g[k].gpio);
        }
    }
    if forall|k: int| 0 <= k < g.len() ==> gpio_count(g, #[trigger] g[k].gpio) <= 1 {
        assert forall|i: int, j: int| 0 <= i < j < g.len() implies #[trigger] g[i].gpio
            != #[trigger] g[j].gpio by {
            lemma_gpio_count_at_most_one(g, g[i].gpio);
            assert(gpio_count(g, g[i].gpio) <= 1);
        }
    }
    if distinct_mappings(m) {
        assert forall|k: int| 0 <= k < m.len() implies !mapping_repeated_after(m, k) by {
            if mapping_repeated_after(m, k) {
                let j = choose|j: int|
                    k < j < m.len() && m[j].gpio == m[k].gpio && m[j].input_event == m[k].input_event;
                assert(!(m[k].gpio == m[j].gpio && m[k].input_event == m[j].input_event));
            }
        }
    }
    if forall|k: int| 0 <= k < m.len() ==> !mapping_repeated_after(m, k) {
        assert forall|i: int, j: int| 0 <= i < j < m.len() implies !(#[trigger] m[i].gpio
            == #[trigger] m[j].gpio && m[i].input_event == m[j].input_event) by {
            assert(!mapping_repeated_after(m, i));
        }
    }
}

impl Clone for PersistedNodeConfig {
    fn clone(&self) -> (r: Self)
        ensures
            r@ == self@,
    {
        PersistedNodeConfig {
            device_id: self.device_id.clone(),
            wifi: self.wifi.clone(),
            network: self.network.clone(),
            gpio_inputs: vstd::slice::slice_to_vec(self.gpio_inputs.as_slice()),
            input_mappings: vstd::slice::slice_to_vec(self.input_mappings.as_slice()),
            double_click_interval_ms: self.double_click_interval_ms,
            long_press_threshold_ms: self.long_press_threshold_ms,
            ack_timeout_ms: self.ack_timeout_ms,
            event_retry_count: self.event_retry_count,
            heartbeat_interval_sec: self.heartbeat_interval_sec,
        }
    }
}

impl PersistedNodeConfig {
    /// The factory defaults.
    pub fn defaults() -> (r: Self)
        ensures
            r@ == spec_default_config(),
    {
        PersistedNodeConfig {
            device_id: "family-node-01".to_owned(),
            wifi: WifiConfig { ssid: "change-me".to_owned(), password: "change-me".to_owned() },
            network: NetworkConfig { mode: NetworkMode::Dhcp, static_ipv4: None },
            gpio_inputs: default_gpio_inputs(),
            input_mappings: Vec::new(),
            double_click_interval_ms: DEFAULT_DOUBLE_CLICK_INTERVAL_MS,
            long_press_threshold_ms: DEFAULT_LONG_PRESS_THRESHOLD_MS,
            ack_timeout_ms: DEFAULT_ACK_TIMEOUT_MS,
            event_retry_count: DEFAULT_EVENT_RETRY_COUNT,
            heartbeat_interval_sec: DEFAULT_HEARTBEAT_INTERVAL_SEC,
        }
    }

    /// Takes the persisted part of a built-in configuration, provided it is
    /// valid.
    pub fn from_node_config(config: &NodeConfig) -> (r: Result<Self, ConfigValidationError>)
        ensures
            match r {
                Ok(c) => c@ == node_config_view(*config) && config_error(c@) is None,
                Err(e) => config_error(node_config_view(*config)) == Some(e),
            },
    {
        let result = PersistedNodeConfig {
            device_id: config.device_id.to_owned(),
            wifi: WifiConfig {
                ssid: config.wifi_ssid.to_owned(),
                password: config.wifi_password.to_owned(),
            },
            network: NetworkConfig { mode: NetworkMode::Dhcp, static_ipv4: None },
            gpio_inputs: vstd::slice::slice_to_vec(config.gpio_inputs),
            input_mappings: vstd::slice::slice_to_vec(config.input_mappings),
            double_click_interval_ms: config.double_click_interval_ms,
            long_press_threshold_ms: config.long_press_threshold_ms,
            ack_timeout_ms: config.ack_timeout_ms,
            event_retry_count: config.event_retry_count,
            heartbeat_interval_sec: config.heartbeat_interval_sec,
        };
        match result.validate() {
            Ok(()) => Ok(result),
            Err(e) => Err(e),
        }
    }

    /// The input side of this configuration, borrowing its tables.
    pub fn input_config(&self) -> (r: InputConfig<'_>)
        ensures
            r.gpio_inputs@ == self.gpio_inputs@,
            r.mappings@ == self.input_mappings@,
            r.double_click_interval_ms == self.double_click_interval_ms,
            r.long_press_threshold_ms == self.long_press_threshold_ms,
    {
        InputConfig {
            gpio_inputs: self.gpio_inputs.as_slice(),
            mappings: self.input_mappings.as_slice(),
            double_click_interval_ms: self.double_click_interval_ms,
            long_press_threshold_ms: self.long_press_threshold_ms,
        }
    }
}

impl NodeConfig {
    /// The input side of the built-in configuration.
    pub fn input_config(&self) -> (r: InputConfig<'_>)
        ensures
            r.gpio_inputs@ == self.gpio_inputs@,
            r.mappings@ == self.input_mappings@,
            r.double_click_interval_ms == self.double_click_interval_ms,
            r.long_press_threshold_ms == self.long_press_threshold_ms,
    {
        InputConfig {
            gpio_inputs: self.gpio_inputs,
            mappings: self.input_mappings,
            double_click_interval_ms: self.double_click_interval_ms,
            long_press_threshold_ms: self.long_press_threshold_ms,
        }
    }
}

} // verus!

use crate::common::json::{
    json_array, json_bool, json_join, json_string_text, json_unsigned, lemma_json_join_push,
    lemma_lf_free_by_char, lemma_lf_free_escaped, lemma_lf_free_join, lemma_lf_free_scalars,
    lf_free, lf_free_by_char, push_bool, push_string, push_unsigned,
};

verus! {

pub open spec fn spec_input_event_name(e: InputEvent) -> Seq<char> {
    match e {
        InputEvent::OffToOn => "OFF_TO_ON"@,
        InputEvent::OnToOff => "ON_TO_OFF"@,
        InputEvent::Click => "CLICK"@,
        InputEvent::DoubleClick => "DOUBLE_CLICK"@,
        InputEvent::LongPress => "LONG_PRESS"@,
    }
}

fn input_event_name(e: InputEvent) -> (r: &'static str)
    ensures
        r@ == spec_input_event_name(e),
{
    match e {
        InputEvent::OffToOn => "OFF_TO_ON",
        InputEvent::OnToOff => "ON_TO_OFF",
        InputEvent::Click => "CLICK",
        InputEvent::DoubleClick => "DOUBLE_CLICK",
        InputEvent::LongPress => "LONG_PRESS",
    }
}

pub open spec fn gpio_input_json(g: GpioInputConfig) -> Seq<char> {
    "{\"gpio\":"@ + json_unsigned(g.gpio as nat) + ",\"active_high\":"@ + json_bool(g.active_high)
        + ",\"debounce_ms\":"@ + json_unsigned(g.debounce_ms as nat) + "}"@
}

pub open spec fn mapping_json(m: InputMapping) -> Seq<char> {
    "{\"gpio\":"@ + json_unsigned(m.gpio as nat) + ",\"input_event\":\""@ + spec_input_event_name(
        m.input_event,
    ) + "\",\"action_id\":"@ + json_unsigned(m.action_id as nat) + ",\"enabled\":"@ + json_bool(
        m.enabled,
    ) + "}"@
}

pub open spec fn wifi_json(w: WifiView) -> Seq<char> {
    "{\"ssid\":"@ + json_string_text(w.ssid) + ",\"password\":"@ + json_string_text(w.password)
        + "}"@
}

pub open spec fn static_ipv4_json(s: StaticIpv4View) -> Seq<char> {
    "{\"ip_address\":"@ + json_string_text(s.ip_address) + ",\"prefix_length\":"@ + json_unsigned(
        s.prefix_length as nat,
    ) + ",\"gateway\":"@ + json_string_text(s.gateway) + ",\"dns\":"@ + json_string_text(s.dns)
        + "}"@
}

pub open spec fn network_json(n: NetworkView) -> Seq<char> {
    "{\"mode\":\""@ + (match n.mode {
        NetworkMode::Dhcp => "DHCP"@,
        NetworkMode::Static => "STATIC"@,
    }) + "\",\"static_ipv4\":"@ + (match n.static_ipv4 {
        Some(s) => static_ipv4_json(s),
        None => "null"@,
    }) + "}"@
}

/// The JSON object of a persisted configuration, members in declaration
/// order as `serde_json_core` writes a struct.
pub open spec fn config_json(c: NodeConfigView) -> Seq<char> {
    "{\"device_id\":"@ + json_string_text(c.device_id) + ",\"wifi\":"@ + wifi_json(c.wifi)
        + ",\"network\":"@ + network_json(c.network) + ",\"gpio_inputs\":"@ + json_array(
        c.gpio_inputs.map_values(|g: GpioInputConfig| gpio_input_json(g)),
    ) + ",\"input_mappings\":"@ + json_array(
        c.input_mappings.map_values(|m: InputMapping| mapping_json(m)),
    ) + ",\"double_click_interval_ms\":"@ + json_unsigned(c.double_click_interval_ms as nat)
        + ",\"long_press_threshold_ms\":"@ + json_unsigned(c.long_press_threshold_ms as nat)
        + ",\"ack_timeout_ms\":"@ + json_unsigned(c.ack_timeout_ms as nat)
        + ",\"event_retry_count\":"@ + json_unsigned(c.event_retry_count as nat)
        + ",\"heartbeat_interval_sec\":"@ + json_unsigned(c.heartbeat_interval_sec as nat) + "}"@
}

fn push_gpio_input(out: &mut String, g: GpioInputConfig)
    ensures
        final(out)@ == old(out)@ + gpio_input_json(g),
{
    out.append("{\"gpio\":");
    push_unsigned(out, g.gpio as u64);
    out.append(",\"active_high\":");
    push_bool(out, g.active_high);
    out.append(",\"debounce_ms\":");
    push_unsigned(out, g.debounce_ms as u64);
    out.append("}");
    proof {
        assert(out@ =~= old(out)@ + gpio_input_json(g));
    }
}

fn push_mapping(out: &mut String, m: InputMapping)
    ensures
        final(out)@ == old(out)@ + mapping_json(m),
{
    out.append("{\"gpio\":");
    push_unsigned(out, m.gpio as u64);
    out.append(",\"input_event\":\"");
    out.append(input_event_name(m.input_event));
    out.append("\",\"action_id\":");
    push_unsigned(out, m.action_id as u64);
    out.append(",\"enabled\":");
    push_bool(out, m.enabled);
    out.append("}");
    proof {
        assert(out@ =~= old(out)@ + mapping_json(m));
    }
}

fn push_gpio_inputs(out: &mut String, items_in: &[GpioInputConfig])
    ensures
        final(out)@ == old(out)@ + json_array(items_in@.map_values(|g: GpioInputConfig| gpio_input_json(g))),
{
    let ghost items = items_in@.map_values(|g: GpioInputConfig| gpio_input_json(g));
    let ghost start = out@;
    out.append("[");
    let mut i: usize = 0;
    while i < items_in.len()
        invariant
            i <= items_in@.len(),
            items == items_in@.map_values(|g: GpioInputConfig| gpio_input_json(g)),
            out@ == start + "["@ + json_join(items.subrange(0, i as int)),
        decreases items_in@.len() - i,
    {
        proof {
            lemma_json_join_push(items.subrange(0, i as int), items[i as int]);
            assert(items.subrange(0, i as int + 1) =~= items.subrange(0, i as int).push(items[i as int]));
        }
        if i > 0 {
            out.append(",");
        }
        push_gpio_input(out, items_in[i]);
        proof {
            assert(out@ =~= start + "["@ + json_join(items.subrange(0, i as int + 1)));
        }
        i = i + 1;
    }
    out.append("]");
    proof {
        assert(items.subrange(0, items_in@.len() as int) =~= items);
        assert(out@ =~= start + json_array(items));
    }
}

fn push_mappings(out: &mut String, items_in: &[InputMapping])
    ensures
        final(out)@ == old(out)@ + json_array(items_in@.map_values(|m: InputMapping| mapping_json(m))),
{
    let ghost items = items_in@.map_values(|m: InputMapping| mapping_json(m));
    let ghost start = out@;
    out.append("[");
    let mut i: usize = 0;
    while i < items_in.len()
        invariant
            i <= items_in@.len(),
            items == items_in@.map_values(|m: InputMapping| mapping_json(m)),
            out@ == start + "["@ + json_join(items.subrange(0, i as int)),
        decreases items_in@.len() - i,
    {
        proof {
            lemma_json_join_push(items.subrange(0, i as int), items[i as int]);
            assert(items.subrange(0, i as int + 1) =~= items.subrange(0, i as int).push(items[i as int]));
        }
        if i > 0 {
            out.append(",");
        }
        push_mapping(out, items_in[i]);
        proof {
            assert(out@ =~= start + "["@ + json_join(items.subrange(0, i as int + 1)));
        }
        i = i + 1;
    }
    out.append("]");
    proof {
        assert(items.subrange(0, items_in@.len() as int) =~= items);
        assert(out@ =~= start + json_array(items));
    }
}

fn push_wifi(out: &mut String, w: &WifiConfig)
    ensures
        final(out)@ == old(out)@ + wifi_json(w@),
{
    out.append("{\"ssid\":");
    push_string(out, w.ssid.as_str());
    out.append(",\"password\":");
    push_string(out, w.password.as_str());
    out.append("}");
    proof {
        assert(out@ =~= old(out)@ + wifi_json(w@));
    }
}

fn push_network(out: &mut String, n: &NetworkConfig)
    ensures
        final(out)@ == old(out)@ + network_json(n@),
{
    out.append("{\"mode\":\"");
    match n.mode {
        NetworkMode::Dhcp => out.append("DHCP"),
        NetworkMode::Static => out.append("STATIC"),
    }
    out.append("\",\"static_ipv4\":");
    match &n.static_ipv4 {
        Some(s) => {
            let ghost before = out@;
            out.append("{\"ip_address\":");
            push_string(out, s.ip_address.as_str());
            out.append(",\"prefix_length\":");
            push_unsigned(out, s.prefix_length as u64);
            out.append(",\"gateway\":");
            push_string(out, s.gateway.as_str());
            out.append(",\"dns\":");
            push_string(out, s.dns.as_str());
            out.append("}");
            proof {
                assert(out@ =~= before + static_ipv4_json(s@));
            }
        },
        None => out.append("null"),
    }
    out.append("}");
    proof {
        assert(out@ =~= old(out)@ + network_json(n@));
    }
}

fn push_config_head(out: &mut String, c: &PersistedNodeConfig)
    ensures
        final(out)@ == old(out)@ + "{\"device_id\":"@ + json_string_text(c.device_id@) + ",\"wifi\":"@
            + wifi_json(c.wifi@) + ",\"network\":"@ + network_json(c.network@),
{
    out.append("{\"device_id\":");
    push_string(out, c.device_id.as_str());
    out.append(",\"wifi\":");
    push_wifi(out, &c.wifi);
    out.append(",\"network\":");
    push_network(out, &c.network);
}

fn push_config_tail(out: &mut String, c: &PersistedNodeConfig)
    ensures
        final(out)@ == old(out)@ + ",\"double_click_interval_ms\":"@ + json_unsigned(
            c.double_click_interval_ms as nat,
        ) + ",\"long_press_threshold_ms\":"@ + json_unsigned(c.long_press_threshold_ms as nat)
            + ",\"ack_timeout_ms\":"@ + json_unsigned(c.ack_timeout_ms as nat)
            + ",\"event_retry_count\":"@ + json_unsigned(c.event_retry_count as nat)
            + ",\"heartbeat_interval_sec\":"@ + json_unsigned(c.heartbeat_interval_sec as nat) + "}"@,
{
    out.append(",\"double_click_interval_ms\":");
    push_unsigned(out, c.double_click_interval_ms as u64);
    out.append(",\"long_press_threshold_ms\":");
    push_unsigned(out, c.long_press_threshold_ms as u64);
    out.append(",\"ack_timeout_ms\":");
    push_unsigned(out, c.ack_timeout_ms as u64);
    out.append(",\"event_retry_count\":");
    push_unsigned(out, c.event_retry_count as u64);
    out.append(",\"heartbeat_interval_sec\":");
    push_unsigned(out, c.heartbeat_interval_sec as u64);
    out.append("}");
}

impl PersistedNodeConfig {
    /// The JSON text of this configuration.
    pub fn to_json(&self) -> (r: String)
        ensures
            r@ == config_json(self@),
    {
        let mut out = String::new();
        push_config_head(&mut out, self);
        out.append(",\"gpio_inputs\":");
        push_gpio_inputs(&mut out, self.gpio_inputs.as_slice());
        out.append(",\"input_mappings\":");
        push_mappings(&mut out, self.input_mappings.as_slice());
        push_config_tail(&mut out, self);
        proof {
            assert(out@ =~= config_json(self@));
        }
        out
    }
}

proof fn lemma_lf_free_input_parts(g: GpioInputConfig, m: InputMapping)
    ensures
        lf_free(gpio_input_json(g)),
        lf_free(mapping_json(m)),
{
    broadcast use crate::common::json::group_lf_free;

    reveal_strlit("{\"gpio\":");
    reveal_strlit(",\"active_high\":");
    reveal_strlit(",\"debounce_ms\":");
    reveal_strlit("}");
    reveal_strlit(",\"input_event\":\"");
    reveal_strlit("\",\"action_id\":");
    reveal_strlit(",\"enabled\":");
    reveal_strlit("OFF_TO_ON");
    reveal_strlit("ON_TO_OFF");
    reveal_strlit("CLICK");
    reveal_strlit("DOUBLE_CLICK");
    reveal_strlit("LONG_PRESS");
    reveal_with_fuel(lf_free_by_char, 24);
    lemma_lf_free_by_char("{\"gpio\":"@);
    lemma_lf_free_by_char(",\"active_high\":"@);
    lemma_lf_free_by_char(",\"debounce_ms\":"@);
    lemma_lf_free_by_char("}"@);
    lemma_lf_free_by_char(",\"input_event\":\""@);
    lemma_lf_free_by_char("\",\"action_id\":"@);
    lemma_lf_free_by_char(",\"enabled\":"@);
    lemma_lf_free_by_char(spec_input_event_name(m.input_event));
    lemma_lf_free_scalars(g.gpio as nat, g.active_high, None);
    lemma_lf_free_scalars(g.debounce_ms as nat, m.enabled, None);
    lemma_lf_free_scalars(m.gpio as nat, m.enabled, None);
    lemma_lf_free_scalars(m.action_id as nat, m.enabled, None);
}

proof fn lemma_lf_free_network_parts(w: WifiView, n: NetworkView)
    ensures
        lf_free(wifi_json(w)),
        lf_free(network_json(n)),
{
    broadcast use crate::common::json::group_lf_free;

    reveal_strlit("{\"ssid\":");
    reveal_strlit(",\"password\":");
    reveal_strlit("}");
    reveal_strlit("{\"ip_address\":");
    reveal_strlit(",\"prefix_length\":");
    reveal_strlit(",\"gateway\":");
    reveal_strlit(",\"dns\":");
    reveal_strlit("{\"mode\":\"");
    reveal_strlit("DHCP");
    reveal_strlit("STATIC");
    reveal_strlit("\",\"static_ipv4\":");
    reveal_with_fuel(lf_free_by_char, 20);
    lemma_lf_free_by_char("{\"ssid\":"@);
    lemma_lf_free_by_char(",\"password\":"@);
    lemma_lf_free_by_char("}"@);
    lemma_lf_free_by_char("{\"ip_address\":"@);
    lemma_lf_free_by_char(",\"prefix_length\":"@);
    lemma_lf_free_by_char(",\"gateway\":"@);
    lemma_lf_free_by_char(",\"dns\":"@);
    lemma_lf_free_by_char("{\"mode\":\""@);
    lemma_lf_free_by_char("DHCP"@);
    lemma_lf_free_by_char("STATIC"@);
    lemma_lf_free_by_char("\",\"static_ipv4\":"@);
    lemma_lf_free_escaped(w.ssid);
    lemma_lf_free_escaped(w.password);
    lemma_lf_free_scalars(0, true, None);
    if let Some(st) = n.static_ipv4 {
        lemma_lf_free_escaped(st.ip_address);
        lemma_lf_free_escaped(st.gateway);
        lemma_lf_free_escaped(st.dns);
        lemma_lf_free_scalars(st.prefix_length as nat, true, None);
    }
}

/// The JSON of a configuration holds no line feed, so that it fits on one
/// line of the CDC protocol.
pub proof fn lemma_lf_free_config_json(c: NodeConfigView)
    ensures
        lf_free(config_json(c)),
{
    broadcast use crate::common::json::group_lf_free;

    reveal_strlit("{\"device_id\":");
    reveal_strlit(",\"wifi\":");
    reveal_strlit(",\"network\":");
    reveal_strlit(",\"gpio_inputs\":");
    reveal_strlit(",\"input_mappings\":");
    reveal_strlit(",\"double_click_interval_ms\":");
    reveal_strlit(",\"long_press_threshold_ms\":");
    reveal_strlit(",\"ack_timeout_ms\":");
    reveal_strlit(",\"event_retry_count\":");
    reveal_strlit(",\"heartbeat_interval_sec\":");
    reveal_strlit("}");
    reveal_with_fuel(lf_free_by_char, 30);
    lemma_lf_free_by_char("{\"device_id\":"@);
    lemma_lf_free_by_char(",\"wifi\":"@);
    lemma_lf_free_by_char(",\"network\":"@);
    lemma_lf_free_by_char(",\"gpio_inputs\":"@);
    lemma_lf_free_by_char(",\"input_mappings\":"@);
    lemma_lf_free_by_char(",\"double_click_interval_ms\":"@);
    lemma_lf_free_by_char(",\"long_press_threshold_ms\":"@);
    lemma_lf_free_by_char(",\"ack_timeout_ms\":"@);
    lemma_lf_free_by_char(",\"event_retry_count\":"@);
    lemma_lf_free_by_char(",\"heartbeat_interval_sec\":"@);
    lemma_lf_free_by_char("}"@);
    lemma_lf_free_escaped(c.device_id);
    lemma_lf_free_network_parts(c.wifi, c.network);
    let gs = c.gpio_inputs.map_values(|g: GpioInputConfig| gpio_input_json(g));
    assert forall|i: int| 0 <= i < gs.len() implies lf_free(#[trigger] gs[i]) by {
        lemma_lf_free_input_parts(c.gpio_inputs[i], InputMapping { gpio: 0, input_event: InputEvent::Click, action_id: 0, enabled: false });
    }
    lemma_lf_free_join(gs);
    let ms = c.input_mappings.map_values(|m: InputMapping| mapping_json(m));
    assert forall|i: int| 0 <= i < ms.len() implies lf_free(#[trigger] ms[i]) by {
        lemma_lf_free_input_parts(GpioInputConfig { gpio: 0, active_high: true, debounce_ms: 0 }, c.input_mappings[i]);
    }
    lemma_lf_free_join(ms);
    lemma_lf_free_scalars(c.double_click_interval_ms as nat, true, None);
    lemma_lf_free_scalars(c.long_press_threshold_ms as nat, true, None);
    lemma_lf_free_scalars(c.ack_timeout_ms as nat, true, None);
    lemma_lf_free_scalars(c.event_retry_count as nat, true, None);
    lemma_lf_free_scalars(c.heartbeat_interval_sec as nat, true, None);
}

} // verus!
