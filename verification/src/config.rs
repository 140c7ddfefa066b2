//! The bridge's configuration and its defaults.

use vstd::prelude::*;
use std::time::Duration;
use crate::assoc::lookup;
use crate::json::{
    json_items, json_members, lemma_array_view, lemma_object_view, Json, JsonValue,
};
use crate::json_form::{make_positional, names_of, positional};
use crate::outside::{parse_toml, toml_text};
use crate::proto::hook::text_of;
use crate::setup::opt_text;
use crate::text::{join3, str_eq};
use crate::util::{base_dir, bridge_file, bridge_path, xdg_config_dir};

verus! {

/// The length of a duration in nanoseconds.
pub uninterp spec fn nanos(d: Duration) -> nat;

/// `std::time::Duration::from_millis`. It claims that the duration lasts that
/// many milliseconds.
#[verifier::external_body]
pub(crate) fn from_millis(ms: u64) -> (d: Duration)
    ensures
        nanos(d) == ms * 1_000_000,
{
    Duration::from_millis(ms)
}

/// `std::time::Duration::is_zero`. It claims the answer to whether the duration
/// spans no time.
#[verifier::external_body]
pub(crate) fn is_zero(d: &Duration) -> (r: bool)
    ensures
        r == (nanos(*d) == 0),
{
    d.is_zero()
}

/// What happens to a tool call when nobody decides in time.
#[derive(Debug, Clone, Copy, PartialEq, Eq, Structural)]
pub enum Fallback {
    /// The session asks the user itself.
    Passthrough,
    Deny,
    Allow,
}

impl Default for Fallback {
    fn default() -> (r: Fallback)
        ensures
            r == Fallback::Passthrough,
    {
        Fallback::Passthrough
    }
}

#[derive(Debug, Clone, Copy, PartialEq, Eq, Structural)]
pub enum NotifyUrgency {
    Low,
    Normal,
    Critical,
}

impl Default for NotifyUrgency {
    fn default() -> (r: NotifyUrgency)
        ensures
            r == NotifyUrgency::Critical,
    {
        NotifyUrgency::Critical
    }
}

/// How long a tool call waits for a decision.
#[derive(Debug, Clone, Copy, PartialEq, Eq, Structural)]
pub struct Approvals {
    pub timeout_ms: u64,
    pub fallback: Fallback,
}

pub fn default_timeout_ms() -> (r: u64)
    ensures
        r == 30_000,
{
    30_000
}

pub open spec fn default_approvals() -> Approvals {
    Approvals { timeout_ms: 30_000, fallback: Fallback::Passthrough }
}

impl Default for Approvals {
    fn default() -> (r: Approvals)
        ensures
            r == default_approvals(),
    {
        Approvals { timeout_ms: default_timeout_ms(), fallback: Fallback::Passthrough }
    }
}

impl Approvals {
    /// The timeout as a duration.
    pub fn timeout(&self) -> (r: Duration)
        ensures
            nanos(r) == self.timeout_ms * 1_000_000,
    {
        from_millis(self.timeout_ms)
    }
}

/// The notification of a finished turn.
#[derive(Debug, Clone, Copy, PartialEq, Eq, Structural)]
pub struct TurnDoneConfig {
    pub enabled: bool,
    /// How long a session has to be idle, in milliseconds.
    pub idle_grace_ms: u64,
    /// How long the notification stays, in milliseconds.
    pub expire_ms: i32,
}

pub open spec fn default_turn_done() -> TurnDoneConfig {
    TurnDoneConfig { enabled: true, idle_grace_ms: 10_000, expire_ms: 5_000 }
}

impl Default for TurnDoneConfig {
    fn default() -> (r: TurnDoneConfig)
        ensures
            r == default_turn_done(),
    {
        TurnDoneConfig { enabled: true, idle_grace_ms: 10_000, expire_ms: 5_000 }
    }
}

impl TurnDoneConfig {
    /// The idle time as a duration; none at all where the notification is off.
    pub fn idle_grace(&self) -> (r: Duration)
        ensures
            nanos(r) == if self.enabled {
                self.idle_grace_ms * 1_000_000
            } else {
                0
            },
    {
        if self.enabled {
            from_millis(self.idle_grace_ms)
        } else {
            from_millis(0)
        }
    }
}

/// Desktop notifications.
#[derive(Debug, Clone, Copy, PartialEq, Eq, Structural)]
pub struct NotifyConfig {
    pub enabled: bool,
    pub urgency: NotifyUrgency,
    pub turn_done: TurnDoneConfig,
}

pub fn default_true() -> (r: bool)
    ensures
        r,
{
    true
}

pub open spec fn default_notify() -> NotifyConfig {
    NotifyConfig {
        enabled: true,
        urgency: NotifyUrgency::Critical,
        turn_done: default_turn_done(),
    }
}

impl Default for NotifyConfig {
    fn default() -> (r: NotifyConfig)
        ensures
            r == default_notify(),
    {
        NotifyConfig {
            enabled: default_true(),
            urgency: NotifyUrgency::Critical,
            turn_done: TurnDoneConfig { enabled: true, idle_grace_ms: 10_000, expire_ms: 5_000 },
        }
    }
}

/// The control socket.
#[derive(Debug, Clone, Copy, PartialEq, Eq, Structural)]
pub struct CtrlConfig {
    pub enabled: bool,
    pub allow_simulate: bool,
}

pub open spec fn default_ctrl() -> CtrlConfig {
    CtrlConfig { enabled: true, allow_simulate: false }
}

impl Default for CtrlConfig {
    fn default() -> (r: CtrlConfig)
        ensures
            r == default_ctrl(),
    {
        CtrlConfig { enabled: default_true(), allow_simulate: false }
    }
}

/// The status page.
#[derive(Debug, Clone, PartialEq, Eq)]
pub struct HttpConfig {
    pub enabled: bool,
    pub addr: String,
}

pub fn default_http_addr() -> (r: String)
    ensures
        r@ == "127.0.0.1:9876"@,
{
    "127.0.0.1:9876".to_owned()
}

impl Default for HttpConfig {
    fn default() -> (r: HttpConfig)
        ensures
            !r.enabled,
            r.addr@ == "127.0.0.1:9876"@,
    {
        HttpConfig { enabled: false, addr: default_http_addr() }
    }
}

/// What is configured for one Bluetooth device.
#[derive(Debug, Clone, PartialEq, Eq)]
pub struct BleDeviceOverride {
    pub address: String,
    pub nickname: Option<String>,
    pub disabled: bool,
}

/// Bluetooth devices.
#[derive(Debug, PartialEq, Eq)]
pub struct BleConfig {
    pub enabled: bool,
    pub service_uuid: String,
    pub device: Vec<BleDeviceOverride>,
}

pub open spec fn default_uuid() -> Seq<char> {
    "6e400001-b5a3-f393-e0a9-e50e24dcca9e"@
}

impl Default for BleConfig {
    fn default() -> (r: BleConfig)
        ensures
            !r.enabled,
            r.service_uuid@ == default_uuid(),
            r.device@.len() == 0,
    {
        BleConfig {
            enabled: false,
            service_uuid: "6e400001-b5a3-f393-e0a9-e50e24dcca9e".to_owned(),
            device: Vec::new(),
        }
    }
}

/// Everything that goes out.
#[derive(Debug, PartialEq, Eq)]
pub struct Emit {
    pub notify: NotifyConfig,
    pub ctrl: CtrlConfig,
    pub http: HttpConfig,
    pub ble: BleConfig,
}

/// The token counts.
#[derive(Debug, Clone, PartialEq, Eq)]
pub struct TokensConfig {
    /// Where the counts are kept, if not in the usual place.
    pub state_path: Option<String>,
}

/// The whole configuration.
#[derive(Debug, PartialEq, Eq)]
pub struct Config {
    pub approvals: Approvals,
    pub emit: Emit,
    pub tokens: TokensConfig,
}

/// What a [`BleDeviceOverride`] stands for.
#[verifier::ext_equal]
pub struct OverrideValue {
    pub address: Seq<char>,
    pub nickname: Option<Seq<char>>,
    pub disabled: bool,
}

impl View for BleDeviceOverride {
    type V = OverrideValue;

    open spec fn view(&self) -> OverrideValue {
        OverrideValue {
            address: self.address@,
            nickname: text_of(self.nickname),
            disabled: self.disabled,
        }
    }
}

/// What a [`BleConfig`] stands for.
#[verifier::ext_equal]
pub struct BleValue {
    pub enabled: bool,
    pub service_uuid: Seq<char>,
    pub device: Seq<OverrideValue>,
}

impl View for BleConfig {
    type V = BleValue;

    open spec fn view(&self) -> BleValue {
        BleValue {
            enabled: self.enabled,
            service_uuid: self.service_uuid@,
            device: self.device@.map_values(|d: BleDeviceOverride| d@),
        }
    }
}

/// What a [`Config`] stands for.
#[verifier::ext_equal]
pub struct ConfigValue {
    pub approvals: Approvals,
    pub notify: NotifyConfig,
    pub ctrl: CtrlConfig,
    pub http_enabled: bool,
    pub http_addr: Seq<char>,
    pub ble: BleValue,
    pub state_path: Option<Seq<char>>,
}

impl View for Config {
    type V = ConfigValue;

    open spec fn view(&self) -> ConfigValue {
        ConfigValue {
            approvals: self.approvals,
            notify: self.emit.notify,
            ctrl: self.emit.ctrl,
            http_enabled: self.emit.http.enabled,
            http_addr: self.emit.http.addr@,
            ble: self.emit.ble@,
            state_path: text_of(self.tokens.state_path),
        }
    }
}

pub open spec fn default_ble() -> BleValue {
    BleValue { enabled: false, service_uuid: default_uuid(), device: Seq::empty() }
}

pub open spec fn default_config() -> ConfigValue {
    ConfigValue {
        approvals: default_approvals(),
        notify: default_notify(),
        ctrl: default_ctrl(),
        http_enabled: false,
        http_addr: "127.0.0.1:9876"@,
        ble: default_ble(),
        state_path: None,
    }
}

impl Default for Config {
    fn default() -> (r: Config)
        ensures
            r@ == default_config(),
    {
        let ble = BleConfig::default();
        assert(ble@ =~= default_ble());
        Config {
            approvals: Approvals::default(),
            emit: Emit {
                notify: NotifyConfig::default(),
                ctrl: CtrlConfig::default(),
                http: HttpConfig::default(),
                ble,
            },
            tokens: TokensConfig { state_path: None },
        }
    }
}

/// The path of the configuration file, from `XDG_CONFIG_HOME` and `HOME`.
pub fn config_path(xdg_config_home: Option<&str>, home: Option<&str>) -> (r: Option<String>)
    ensures
        text_of(r) == bridge_file(
            base_dir(opt_text(xdg_config_home), opt_text(home), ".config"@),
            "config.toml"@,
        ),
{
    bridge_path(xdg_config_dir(xdg_config_home, home), "config.toml")
}

// ---------------------------------------------------------------------------
// Reading a configuration.

/// Why a configuration is refused. A slip in the user's file is never passed
/// over.
#[derive(Debug, Clone, PartialEq, Eq)]
pub enum ConfigError {
    /// The text is no TOML document.
    Syntax,
    /// There is no field of this name.
    UnknownField { field: String },
    /// The field cannot have this value.
    InvalidValue { field: String },
}

/// What a [`ConfigError`] stands for.
pub enum ErrorValue {
    Syntax,
    UnknownField { field: Seq<char> },
    InvalidValue { field: Seq<char> },
}

impl View for ConfigError {
    type V = ErrorValue;

    open spec fn view(&self) -> ErrorValue {
        match self {
            ConfigError::Syntax => ErrorValue::Syntax,
            ConfigError::UnknownField { field } => ErrorValue::UnknownField { field: field@ },
            ConfigError::InvalidValue { field } => ErrorValue::InvalidValue { field: field@ },
        }
    }
}

impl ConfigError {
    pub fn message(&self) -> (r: String)
        ensures
            r@ == (match self {
                ConfigError::Syntax => "not a TOML document"@,
                ConfigError::UnknownField { field } => "unknown field `"@ + field@ + "`"@,
                ConfigError::InvalidValue { field } => "invalid value for `"@ + field@ + "`"@,
            }),
    {
        match self {
            ConfigError::Syntax => "not a TOML document".to_owned(),
            ConfigError::UnknownField { field } => join3("unknown field `", field.as_str(), "`"),
            ConfigError::InvalidValue { field } => join3("invalid value for `", field.as_str(), "`"),
        }
    }
}

/// The first key that is none of the known ones.
pub open spec fn stray_key(
    members: Seq<(Seq<char>, JsonValue)>,
    known: Seq<Seq<char>>,
) -> Option<Seq<char>>
    decreases members.len(),
{
    if members.len() == 0 {
        None
    } else if !known.contains(members[0].0) {
        Some(members[0].0)
    } else {
        stray_key(members.subrange(1, members.len() as int), known)
    }
}

/// The members of a section: none where it is absent. A section may also be an
/// array of its fields in the order of `known`; those that are missing at its end
/// are absent, and what stands behind the last is passed over.
pub open spec fn section_members(
    v: Option<JsonValue>,
    name: Seq<char>,
    known: Seq<Seq<char>>,
) -> Result<Seq<(Seq<char>, JsonValue)>, ErrorValue> {
    match v {
        None => Ok(Seq::empty()),
        Some(JsonValue::Object(members)) => match stray_key(members, known) {
            Some(field) => Err(ErrorValue::UnknownField { field }),
            None => Ok(members),
        },
        Some(JsonValue::Array(items)) => Ok(positional(known, items)),
        Some(_) => Err(ErrorValue::InvalidValue { field: name }),
    }
}

pub open spec fn bool_field(
    members: Seq<(Seq<char>, JsonValue)>,
    key: Seq<char>,
    default: bool,
) -> Result<bool, ErrorValue> {
    match lookup(members, key) {
        None => Ok(default),
        Some(JsonValue::Bool(b)) => Ok(b),
        Some(_) => Err(ErrorValue::InvalidValue { field: key }),
    }
}

pub open spec fn count_field(
    members: Seq<(Seq<char>, JsonValue)>,
    key: Seq<char>,
    default: u64,
) -> Result<u64, ErrorValue> {
    match lookup(members, key) {
        None => Ok(default),
        Some(JsonValue::Unsigned(n)) => Ok(n),
        Some(_) => Err(ErrorValue::InvalidValue { field: key }),
    }
}

/// A number of milliseconds that fits into thirty-two bits with its sign.
pub open spec fn expire_field(
    members: Seq<(Seq<char>, JsonValue)>,
    key: Seq<char>,
    default: i32,
) -> Result<i32, ErrorValue> {
    match lookup(members, key) {
        None => Ok(default),
        Some(JsonValue::Unsigned(n)) => if n <= i32::MAX {
            Ok(n as i32)
        } else {
            Err(ErrorValue::InvalidValue { field: key })
        },
        Some(JsonValue::Negative(n)) => if i32::MIN <= n <= i32::MAX {
            Ok(n as i32)
        } else {
            Err(ErrorValue::InvalidValue { field: key })
        },
        Some(_) => Err(ErrorValue::InvalidValue { field: key }),
    }
}

/// A text; `None` where it is absent.
pub open spec fn text_field(
    members: Seq<(Seq<char>, JsonValue)>,
    key: Seq<char>,
) -> Result<Option<Seq<char>>, ErrorValue> {
    match lookup(members, key) {
        None => Ok(None),
        Some(JsonValue::Str(t)) => Ok(Some(t)),
        Some(_) => Err(ErrorValue::InvalidValue { field: key }),
    }
}

/// Whether a value holds nothing.
pub open spec fn is_empty_value(v: JsonValue) -> bool {
    v == JsonValue::Array(Seq::empty()) || v == JsonValue::Object(Seq::empty())
}

/// A name: text, or a table whose only key has that name and holds nothing;
/// `None` where it is absent.
pub open spec fn name_field(
    members: Seq<(Seq<char>, JsonValue)>,
    key: Seq<char>,
) -> Result<Option<Seq<char>>, ErrorValue> {
    match lookup(members, key) {
        None => Ok(None),
        Some(JsonValue::Str(t)) => Ok(Some(t)),
        Some(JsonValue::Object(inner)) => if inner.len() == 1 && is_empty_value(inner[0].1) {
            Ok(Some(inner[0].0))
        } else {
            Err(ErrorValue::InvalidValue { field: key })
        },
        Some(_) => Err(ErrorValue::InvalidValue { field: key }),
    }
}

pub open spec fn fallback_field(members: Seq<(Seq<char>, JsonValue)>) -> Result<Fallback, ErrorValue> {
    match name_field(members, "fallback"@) {
        Err(e) => Err(e),
        Ok(None) => Ok(Fallback::Passthrough),
        Ok(Some(name)) => if name == "passthrough"@ {
            Ok(Fallback::Passthrough)
        } else if name == "deny"@ {
            Ok(Fallback::Deny)
        } else if name == "allow"@ {
            Ok(Fallback::Allow)
        } else {
            Err(ErrorValue::InvalidValue { field: "fallback"@ })
        },
    }
}

pub open spec fn urgency_field(members: Seq<(Seq<char>, JsonValue)>) -> Result<
    NotifyUrgency,
    ErrorValue,
> {
    match name_field(members, "urgency"@) {
        Err(e) => Err(e),
        Ok(None) => Ok(NotifyUrgency::Critical),
        Ok(Some(name)) => if name == "low"@ {
            Ok(NotifyUrgency::Low)
        } else if name == "normal"@ {
            Ok(NotifyUrgency::Normal)
        } else if name == "critical"@ {
            Ok(NotifyUrgency::Critical)
        } else {
            Err(ErrorValue::InvalidValue { field: "urgency"@ })
        },
    }
}

/// The fields of a document.
pub open spec fn document_names() -> Seq<Seq<char>> {
    seq!["approvals"@, "emit"@, "tokens"@]
}

/// The fields of an `emit` section.
pub open spec fn emit_names() -> Seq<Seq<char>> {
    seq!["notify"@, "ctrl"@, "http"@, "ble"@]
}

/// The fields of a `notify` section.
pub open spec fn notify_names() -> Seq<Seq<char>> {
    seq!["enabled"@, "urgency"@, "turn_done"@]
}

/// The fields of a `ble` section.
pub open spec fn ble_names() -> Seq<Seq<char>> {
    seq!["enabled"@, "service_uuid"@, "device"@]
}

pub open spec fn approvals_in(v: Option<JsonValue>) -> Result<Approvals, ErrorValue> {
    match section_members(v, "approvals"@, seq!["timeout_ms"@, "fallback"@]) {
        Err(e) => Err(e),
        Ok(m) => match count_field(m, "timeout_ms"@, 30_000) {
            Err(e) => Err(e),
            Ok(timeout_ms) => match fallback_field(m) {
                Err(e) => Err(e),
                Ok(fallback) => Ok(Approvals { timeout_ms, fallback }),
            },
        },
    }
}

pub open spec fn turn_done_in(v: Option<JsonValue>) -> Result<TurnDoneConfig, ErrorValue> {
    match section_members(v, "turn_done"@, seq!["enabled"@, "idle_grace_ms"@, "expire_ms"@]) {
        Err(e) => Err(e),
        Ok(m) => match bool_field(m, "enabled"@, true) {
            Err(e) => Err(e),
            Ok(enabled) => match count_field(m, "idle_grace_ms"@, 10_000) {
                Err(e) => Err(e),
                Ok(idle_grace_ms) => match expire_field(m, "expire_ms"@, 5_000) {
                    Err(e) => Err(e),
                    Ok(expire_ms) => Ok(TurnDoneConfig { enabled, idle_grace_ms, expire_ms }),
                },
            },
        },
    }
}

pub open spec fn notify_in(v: Option<JsonValue>) -> Result<NotifyConfig, ErrorValue> {
    match section_members(v, "notify"@, notify_names()) {
        Err(e) => Err(e),
        Ok(m) => match bool_field(m, "enabled"@, true) {
            Err(e) => Err(e),
            Ok(enabled) => match urgency_field(m) {
                Err(e) => Err(e),
                Ok(urgency) => match turn_done_in(lookup(m, "turn_done"@)) {
                    Err(e) => Err(e),
                    Ok(turn_done) => Ok(NotifyConfig { enabled, urgency, turn_done }),
                },
            },
        },
    }
}

pub open spec fn ctrl_in(v: Option<JsonValue>) -> Result<CtrlConfig, ErrorValue> {
    match section_members(v, "ctrl"@, seq!["enabled"@, "allow_simulate"@]) {
        Err(e) => Err(e),
        Ok(m) => match bool_field(m, "enabled"@, true) {
            Err(e) => Err(e),
            Ok(enabled) => match bool_field(m, "allow_simulate"@, false) {
                Err(e) => Err(e),
                Ok(allow_simulate) => Ok(CtrlConfig { enabled, allow_simulate }),
            },
        },
    }
}

pub open spec fn http_in(v: Option<JsonValue>) -> Result<(bool, Seq<char>), ErrorValue> {
    match section_members(v, "http"@, seq!["enabled"@, "addr"@]) {
        Err(e) => Err(e),
        Ok(m) => match bool_field(m, "enabled"@, false) {
            Err(e) => Err(e),
            Ok(enabled) => match text_field(m, "addr"@) {
                Err(e) => Err(e),
                Ok(None) => Ok((enabled, "127.0.0.1:9876"@)),
                Ok(Some(addr)) => Ok((enabled, addr)),
            },
        },
    }
}

pub open spec fn device_in(v: JsonValue) -> Result<OverrideValue, ErrorValue> {
    match section_members(Some(v), "device"@, seq!["address"@, "nickname"@, "disabled"@]) {
        Err(e) => Err(e),
        Ok(m) => match text_field(m, "address"@) {
            Err(e) => Err(e),
            Ok(None) => Err(ErrorValue::InvalidValue { field: "address"@ }),
            Ok(Some(address)) => match text_field(m, "nickname"@) {
                Err(e) => Err(e),
                Ok(nickname) => match bool_field(m, "disabled"@, false) {
                    Err(e) => Err(e),
                    Ok(disabled) => Ok(OverrideValue { address, nickname, disabled }),
                },
            },
        },
    }
}

pub open spec fn devices_in(items: Seq<JsonValue>) -> Result<Seq<OverrideValue>, ErrorValue>
    decreases items.len(),
{
    if items.len() == 0 {
        Ok(Seq::empty())
    } else {
        match devices_in(items.drop_last()) {
            Err(e) => Err(e),
            Ok(before) => match device_in(items.last()) {
                Err(e) => Err(e),
                Ok(d) => Ok(before.push(d)),
            },
        }
    }
}

pub open spec fn device_list_in(v: Option<JsonValue>) -> Result<Seq<OverrideValue>, ErrorValue> {
    match v {
        None => Ok(Seq::empty()),
        Some(JsonValue::Array(items)) => devices_in(items),
        Some(_) => Err(ErrorValue::InvalidValue { field: "device"@ }),
    }
}

pub open spec fn ble_in(v: Option<JsonValue>) -> Result<BleValue, ErrorValue> {
    match section_members(v, "ble"@, ble_names()) {
        Err(e) => Err(e),
        Ok(m) => match bool_field(m, "enabled"@, false) {
            Err(e) => Err(e),
            Ok(enabled) => match text_field(m, "service_uuid"@) {
                Err(e) => Err(e),
                Ok(uuid) => match device_list_in(lookup(m, "device"@)) {
                    Err(e) => Err(e),
                    Ok(device) => Ok(
                        BleValue {
                            enabled,
                            service_uuid: match uuid {
                                Some(u) => u,
                                None => default_uuid(),
                            },
                            device,
                        },
                    ),
                },
            },
        },
    }
}

/// What an `emit` section holds.
pub struct EmitValue {
    pub notify: NotifyConfig,
    pub ctrl: CtrlConfig,
    pub http: (bool, Seq<char>),
    pub ble: BleValue,
}

pub open spec fn emit_in(v: Option<JsonValue>) -> Result<EmitValue, ErrorValue> {
    match section_members(v, "emit"@, emit_names()) {
        Err(e) => Err(e),
        Ok(m) => match notify_in(lookup(m, "notify"@)) {
            Err(e) => Err(e),
            Ok(notify) => match ctrl_in(lookup(m, "ctrl"@)) {
                Err(e) => Err(e),
                Ok(ctrl) => match http_in(lookup(m, "http"@)) {
                    Err(e) => Err(e),
                    Ok(http) => match ble_in(lookup(m, "ble"@)) {
                        Err(e) => Err(e),
                        Ok(ble) => Ok(EmitValue { notify, ctrl, http, ble }),
                    },
                },
            },
        },
    }
}

pub open spec fn tokens_in(v: Option<JsonValue>) -> Result<Option<Seq<char>>, ErrorValue> {
    match section_members(v, "tokens"@, seq!["state_path"@]) {
        Err(e) => Err(e),
        Ok(m) => text_field(m, "state_path"@),
    }
}

/// The configuration that a document holds. What is absent has its default;
/// names that are not known and values that do not fit are refused.
pub open spec fn config_in(doc: JsonValue) -> Result<ConfigValue, ErrorValue> {
    match section_members(Some(doc), ""@, document_names()) {
        Err(e) => Err(e),
        Ok(m) => match approvals_in(lookup(m, "approvals"@)) {
            Err(e) => Err(e),
            Ok(approvals) => match emit_in(lookup(m, "emit"@)) {
                Err(e) => Err(e),
                Ok(emit) => match tokens_in(lookup(m, "tokens"@)) {
                    Err(e) => Err(e),
                    Ok(state_path) => Ok(
                        ConfigValue {
                            approvals,
                            notify: emit.notify,
                            ctrl: emit.ctrl,
                            http_enabled: emit.http.0,
                            http_addr: emit.http.1,
                            ble: emit.ble,
                            state_path,
                        },
                    ),
                },
            },
        },
    }
}

/// A reading, with its error as a value.
pub open spec fn outcome<T>(r: Result<T, ConfigError>) -> Result<T, ErrorValue> {
    match r {
        Ok(t) => Ok(t),
        Err(e) => Err(e@),
    }
}

pub open spec fn opt_value(v: Option<&Json>) -> Option<JsonValue> {
    match v {
        Some(j) => Some(j@),
        None => None,
    }
}

pub open spec fn section_of(v: Option<&Json>) -> Seq<(Seq<char>, JsonValue)> {
    match opt_value(v) {
        Some(JsonValue::Object(members)) => members,
        _ => Seq::empty(),
    }
}

fn is_known(key: &str, known: &Vec<&'static str>) -> (r: bool)
    ensures
        r == names_of(known@).contains(key@),
{
    let ghost names = names_of(known@);
    let mut i: usize = 0;
    while i < known.len()
        invariant
            i <= known@.len(),
            names == names_of(known@),
            forall|j: int| 0 <= j < i ==> names[j] != key@,
        decreases known@.len() - i,
    {
        assert(names[i as int] == known@[i as int]@);
        if str_eq(known[i], key) {
            return true;
        }
        i = i + 1;
    }
    false
}

fn find_stray<'a>(members: &'a Vec<(String, Json)>, known: &Vec<&'static str>) -> (r: Option<&'a String>)
    ensures
        match r {
            Some(k) => stray_key(json_members(members@), names_of(known@)) == Some(k@),
            None => stray_key(json_members(members@), names_of(known@)) is None,
        },
{
    let ghost all = json_members(members@);
    let ghost names = names_of(known@);
    let mut i: usize = 0;
    assert(all.subrange(0, all.len() as int) =~= all);
    while i < members.len()
        invariant
            i <= members@.len(),
            all == json_members(members@),
            names == names_of(known@),
            stray_key(all, names) == stray_key(all.subrange(i as int, all.len() as int), names),
        decreases members@.len() - i,
    {
        let ghost rest = all.subrange(i as int, all.len() as int);
        assert(rest[0].0 == members@[i as int].0@);
        assert(rest.subrange(1, rest.len() as int) =~= all.subrange(i + 1, all.len() as int));
        if !is_known(members[i].0.as_str(), known) {
            return Some(&members[i].0);
        }
        i = i + 1;
    }
    None
}

/// Checks a section, and hands it out with its fields under their names.
fn read_section(v: Option<&Json>, name: &str, known: &Vec<&'static str>) -> (r: Result<Json, ConfigError>)
    ensures
        match section_members(opt_value(v), name@, names_of(known@)) {
            Ok(m) => r is Ok && r->Ok_0@ == JsonValue::Object(m),
            Err(e) => r is Err && r->Err_0@ == e,
        },
{
    match v {
        None => {
            let none: Vec<(String, Json)> = Vec::new();
            proof {
                lemma_object_view(none);
                assert(json_members(none@) =~= Seq::empty());
            }
            Ok(Json::Object(none))
        },
        Some(Json::Array(items)) => {
            proof {
                lemma_array_view(*items);
            }
            Ok(make_positional(items, known))
        },
        Some(section @ Json::Object(members)) => {
            proof {
                lemma_object_view(*members);
            }
            match find_stray(members, known) {
                Some(field) => Err(ConfigError::UnknownField { field: field.clone() }),
                None => Ok(section.duplicate()),
            }
        },
        Some(_) => Err(ConfigError::InvalidValue { field: name.to_owned() }),
    }
}

fn field<'a>(section: Option<&'a Json>, key: &str) -> (r: Option<&'a Json>)
    ensures
        opt_value(r) == lookup(section_of(section), key@),
{
    match section {
        Some(j) => j.get(key),
        None => None,
    }
}

fn read_bool(section: Option<&Json>, key: &str, default: bool) -> (r: Result<bool, ConfigError>)
    ensures
        outcome(r) == bool_field(section_of(section), key@, default),
{
    match field(section, key) {
        None => Ok(default),
        Some(Json::Bool(b)) => Ok(*b),
        Some(_) => Err(ConfigError::InvalidValue { field: key.to_owned() }),
    }
}

fn read_count(section: Option<&Json>, key: &str, default: u64) -> (r: Result<u64, ConfigError>)
    ensures
        outcome(r) == count_field(section_of(section), key@, default),
{
    match field(section, key) {
        None => Ok(default),
        Some(Json::Unsigned(n)) => Ok(*n),
        Some(_) => Err(ConfigError::InvalidValue { field: key.to_owned() }),
    }
}

fn read_expire(section: Option<&Json>, key: &str, default: i32) -> (r: Result<i32, ConfigError>)
    ensures
        outcome(r) == expire_field(section_of(section), key@, default),
{
    match field(section, key) {
        None => Ok(default),
        Some(Json::Unsigned(n)) => {
            if *n <= 0x7fff_ffff {
                Ok(*n as i32)
            } else {
                Err(ConfigError::InvalidValue { field: key.to_owned() })
            }
        },
        Some(Json::Negative(n)) => {
            if -0x8000_0000 <= *n && *n <= 0x7fff_ffff {
                Ok(*n as i32)
            } else {
                Err(ConfigError::InvalidValue { field: key.to_owned() })
            }
        },
        Some(_) => Err(ConfigError::InvalidValue { field: key.to_owned() }),
    }
}

pub open spec fn text_outcome(r: Result<Option<String>, ConfigError>) -> Result<
    Option<Seq<char>>,
    ErrorValue,
> {
    match r {
        Ok(t) => Ok(text_of(t)),
        Err(e) => Err(e@),
    }
}

fn read_text(section: Option<&Json>, key: &str) -> (r: Result<Option<String>, ConfigError>)
    ensures
        text_outcome(r) == text_field(section_of(section), key@),
{
    match field(section, key) {
        None => Ok(None),
        Some(Json::Str(t)) => Ok(Some(t.clone())),
        Some(_) => Err(ConfigError::InvalidValue { field: key.to_owned() }),
    }
}

fn holds_nothing(v: &Json) -> (r: bool)
    ensures
        r == is_empty_value(v@),
{
    match v {
        Json::Array(items) => {
            proof {
                lemma_array_view(*items);
                assert(json_items(items@).len() == items@.len());
                if items@.len() == 0 {
                    assert(json_items(items@) =~= Seq::empty());
                }
            }
            items.len() == 0
        },
        Json::Object(members) => {
            proof {
                lemma_object_view(*members);
                assert(json_members(members@).len() == members@.len());
                if members@.len() == 0 {
                    assert(json_members(members@) =~= Seq::empty());
                }
            }
            members.len() == 0
        },
        _ => false,
    }
}

fn read_name(section: Option<&Json>, key: &str) -> (r: Result<Option<String>, ConfigError>)
    ensures
        text_outcome(r) == name_field(section_of(section), key@),
{
    match field(section, key) {
        None => Ok(None),
        Some(Json::Str(t)) => Ok(Some(t.clone())),
        Some(Json::Object(inner)) => {
            proof {
                lemma_object_view(*inner);
                if inner@.len() == 1 {
                    assert(json_members(inner@)[0] == (inner@[0].0@, inner@[0].1@));
                }
            }
            if inner.len() == 1 && holds_nothing(&inner[0].1) {
                Ok(Some(inner[0].0.clone()))
            } else {
                Err(ConfigError::InvalidValue { field: key.to_owned() })
            }
        },
        Some(_) => Err(ConfigError::InvalidValue { field: key.to_owned() }),
    }
}

fn read_approvals(v: Option<&Json>) -> (r: Result<Approvals, ConfigError>)
    ensures
        outcome(r) == approvals_in(opt_value(v)),
{
    let known = vec!["timeout_ms", "fallback"];
    assert(names_of(known@) =~= seq!["timeout_ms"@, "fallback"@]);
    let section = match read_section(v, "approvals", &known) {
        Ok(section) => section,
        Err(e) => {
            return Err(e);
        },
    };
    let v = Some(&section);
    let timeout_ms: u64 = match read_count(v, "timeout_ms", 30_000) {
        Ok(n) => n,
        Err(e) => {
            return Err(e);
        },
    };
    let fallback = match read_name(v, "fallback") {
        Err(e) => {
            return Err(e);
        },
        Ok(None) => Fallback::Passthrough,
        Ok(Some(name)) => {
            if str_eq(name.as_str(), "passthrough") {
                Fallback::Passthrough
            } else if str_eq(name.as_str(), "deny") {
                Fallback::Deny
            } else if str_eq(name.as_str(), "allow") {
                Fallback::Allow
            } else {
                return Err(ConfigError::InvalidValue { field: "fallback".to_owned() });
            }
        },
    };
    Ok(Approvals { timeout_ms, fallback })
}

fn read_turn_done(v: Option<&Json>) -> (r: Result<TurnDoneConfig, ConfigError>)
    ensures
        outcome(r) == turn_done_in(opt_value(v)),
{
    let known = vec!["enabled", "idle_grace_ms", "expire_ms"];
    assert(names_of(known@) =~= seq!["enabled"@, "idle_grace_ms"@, "expire_ms"@]);
    let section = match read_section(v, "turn_done", &known) {
        Ok(section) => section,
        Err(e) => {
            return Err(e);
        },
    };
    let v = Some(&section);
    let enabled = match read_bool(v, "enabled", true) {
        Ok(b) => b,
        Err(e) => {
            return Err(e);
        },
    };
    let idle_grace_ms: u64 = match read_count(v, "idle_grace_ms", 10_000) {
        Ok(n) => n,
        Err(e) => {
            return Err(e);
        },
    };
    match read_expire(v, "expire_ms", 5_000) {
        Ok(expire_ms) => Ok(TurnDoneConfig { enabled, idle_grace_ms, expire_ms }),
        Err(e) => Err(e),
    }
}

fn read_notify(v: Option<&Json>) -> (r: Result<NotifyConfig, ConfigError>)
    ensures
        outcome(r) == notify_in(opt_value(v)),
{
    let known = vec!["enabled", "urgency", "turn_done"];
    assert(names_of(known@) =~= notify_names());
    let section = match read_section(v, "notify", &known) {
        Ok(section) => section,
        Err(e) => {
            return Err(e);
        },
    };
    let v = Some(&section);
    let enabled = match read_bool(v, "enabled", true) {
        Ok(b) => b,
        Err(e) => {
            return Err(e);
        },
    };
    let urgency = match read_name(v, "urgency") {
        Err(e) => {
            return Err(e);
        },
        Ok(None) => NotifyUrgency::Critical,
        Ok(Some(name)) => {
            if str_eq(name.as_str(), "low") {
                NotifyUrgency::Low
            } else if str_eq(name.as_str(), "normal") {
                NotifyUrgency::Normal
            } else if str_eq(name.as_str(), "critical") {
                NotifyUrgency::Critical
            } else {
                return Err(ConfigError::InvalidValue { field: "urgency".to_owned() });
            }
        },
    };
    match read_turn_done(field(v, "turn_done")) {
        Ok(turn_done) => Ok(NotifyConfig { enabled, urgency, turn_done }),
        Err(e) => Err(e),
    }
}

fn read_ctrl(v: Option<&Json>) -> (r: Result<CtrlConfig, ConfigError>)
    ensures
        outcome(r) == ctrl_in(opt_value(v)),
{
    let known = vec!["enabled", "allow_simulate"];
    assert(names_of(known@) =~= seq!["enabled"@, "allow_simulate"@]);
    let section = match read_section(v, "ctrl", &known) {
        Ok(section) => section,
        Err(e) => {
            return Err(e);
        },
    };
    let v = Some(&section);
    let enabled = match read_bool(v, "enabled", true) {
        Ok(b) => b,
        Err(e) => {
            return Err(e);
        },
    };
    match read_bool(v, "allow_simulate", false) {
        Ok(allow_simulate) => Ok(CtrlConfig { enabled, allow_simulate }),
        Err(e) => Err(e),
    }
}

fn read_http(v: Option<&Json>) -> (r: Result<HttpConfig, ConfigError>)
    ensures
        (match r {
            Ok(h) => Ok((h.enabled, h.addr@)),
            Err(e) => Err(e@),
        }) == http_in(opt_value(v)),
{
    let known = vec!["enabled", "addr"];
    assert(names_of(known@) =~= seq!["enabled"@, "addr"@]);
    let section = match read_section(v, "http", &known) {
        Ok(section) => section,
        Err(e) => {
            return Err(e);
        },
    };
    let v = Some(&section);
    let enabled = match read_bool(v, "enabled", false) {
        Ok(b) => b,
        Err(e) => {
            return Err(e);
        },
    };
    match read_text(v, "addr") {
        Err(e) => Err(e),
        Ok(None) => Ok(HttpConfig { enabled, addr: default_http_addr() }),
        Ok(Some(addr)) => Ok(HttpConfig { enabled, addr }),
    }
}

fn read_device(v: &Json) -> (r: Result<BleDeviceOverride, ConfigError>)
    ensures
        (match r {
            Ok(d) => Ok(d@),
            Err(e) => Err(e@),
        }) == device_in(v@),
{
    let known = vec!["address", "nickname", "disabled"];
    assert(names_of(known@) =~= seq!["address"@, "nickname"@, "disabled"@]);
    let section = match read_section(Some(v), "device", &known) {
        Ok(section) => section,
        Err(e) => {
            return Err(e);
        },
    };
    let v = Some(&section);
    let address = match read_text(v, "address") {
        Err(e) => {
            return Err(e);
        },
        Ok(None) => {
            return Err(ConfigError::InvalidValue { field: "address".to_owned() });
        },
        Ok(Some(address)) => address,
    };
    let nickname = match read_text(v, "nickname") {
        Err(e) => {
            return Err(e);
        },
        Ok(nickname) => nickname,
    };
    match read_bool(v, "disabled", false) {
        Ok(disabled) => Ok(BleDeviceOverride { address, nickname, disabled }),
        Err(e) => Err(e),
    }
}

pub open spec fn override_values(d: Seq<BleDeviceOverride>) -> Seq<OverrideValue> {
    d.map_values(|x: BleDeviceOverride| x@)
}

proof fn lemma_bad_device(items: Seq<JsonValue>, n: int)
    requires
        0 <= n <= items.len(),
        devices_in(items.take(n)) is Err,
    ensures
        devices_in(items) == devices_in(items.take(n)),
    decreases items.len() - n,
{
    if n < items.len() {
        assert(items.take(n + 1).drop_last() =~= items.take(n));
        lemma_bad_device(items, n + 1);
    } else {
        assert(items.take(n) =~= items);
    }
}

fn read_devices(v: Option<&Json>) -> (r: Result<Vec<BleDeviceOverride>, ConfigError>)
    ensures
        (match r {
            Ok(d) => Ok(override_values(d@)),
            Err(e) => Err(e@),
        }) == device_list_in(opt_value(v)),
{
    let mut devices: Vec<BleDeviceOverride> = Vec::new();
    assert(override_values(devices@) =~= Seq::<OverrideValue>::empty());
    match v {
        None => Ok(devices),
        Some(Json::Array(items)) => {
            proof {
                lemma_array_view(*items);
            }
            let ghost all = json_items(items@);
            let mut i: usize = 0;
            while i < items.len()
                invariant
                    i <= items@.len(),
                    all == json_items(items@),
                    opt_value(v) == Some(JsonValue::Array(all)),
                    devices_in(all.take(i as int)) == Ok::<Seq<OverrideValue>, ErrorValue>(
                        override_values(devices@),
                    ),
                decreases items@.len() - i,
            {
                assert(all.take(i + 1).drop_last() =~= all.take(i as int));
                assert(all.take(i + 1).last() == items@[i as int]@);
                match read_device(&items[i]) {
                    Ok(d) => {
                        let ghost before = devices@;
                        devices.push(d);
                        assert(override_values(devices@) =~= override_values(before).push(d@));
                    },
                    Err(e) => {
                        proof {
                            lemma_bad_device(all, i + 1);
                        }
                        return Err(e);
                    },
                }
                i = i + 1;
            }
            assert(all.take(i as int) =~= all);
            Ok(devices)
        },
        Some(_) => Err(ConfigError::InvalidValue { field: "device".to_owned() }),
    }
}

fn read_ble(v: Option<&Json>) -> (r: Result<BleConfig, ConfigError>)
    ensures
        (match r {
            Ok(b) => Ok(b@),
            Err(e) => Err(e@),
        }) == ble_in(opt_value(v)),
{
    let known = vec!["enabled", "service_uuid", "device"];
    assert(names_of(known@) =~= ble_names());
    let section = match read_section(v, "ble", &known) {
        Ok(section) => section,
        Err(e) => {
            return Err(e);
        },
    };
    let v = Some(&section);
    let enabled = match read_bool(v, "enabled", false) {
        Ok(b) => b,
        Err(e) => {
            return Err(e);
        },
    };
    let service_uuid = match read_text(v, "service_uuid") {
        Err(e) => {
            return Err(e);
        },
        Ok(None) => "6e400001-b5a3-f393-e0a9-e50e24dcca9e".to_owned(),
        Ok(Some(u)) => u,
    };
    match read_devices(field(v, "device")) {
        Ok(device) => Ok(BleConfig { enabled, service_uuid, device }),
        Err(e) => Err(e),
    }
}

fn read_emit(v: Option<&Json>) -> (r: Result<Emit, ConfigError>)
    ensures
        (match r {
            Ok(e) => Ok(
                EmitValue {
                    notify: e.notify,
                    ctrl: e.ctrl,
                    http: (e.http.enabled, e.http.addr@),
                    ble: e.ble@,
                },
            ),
            Err(e) => Err(e@),
        }) == emit_in(opt_value(v)),
{
    let known = vec!["notify", "ctrl", "http", "ble"];
    assert(names_of(known@) =~= emit_names());
    let section = match read_section(v, "emit", &known) {
        Ok(section) => section,
        Err(e) => {
            return Err(e);
        },
    };
    let v = Some(&section);
    let notify = match read_notify(field(v, "notify")) {
        Ok(c) => c,
        Err(e) => {
            return Err(e);
        },
    };
    let ctrl = match read_ctrl(field(v, "ctrl")) {
        Ok(c) => c,
        Err(e) => {
            return Err(e);
        },
    };
    let http = match read_http(field(v, "http")) {
        Ok(c) => c,
        Err(e) => {
            return Err(e);
        },
    };
    match read_ble(field(v, "ble")) {
        Ok(ble) => Ok(Emit { notify, ctrl, http, ble }),
        Err(e) => Err(e),
    }
}

fn read_tokens(v: Option<&Json>) -> (r: Result<Option<String>, ConfigError>)
    ensures
        text_outcome(r) == tokens_in(opt_value(v)),
{
    let known = vec!["state_path"];
    assert(names_of(known@) =~= seq!["state_path"@]);
    let section = match read_section(v, "tokens", &known) {
        Ok(section) => section,
        Err(e) => {
            return Err(e);
        },
    };
    let v = Some(&section);
    read_text(v, "state_path")
}

pub open spec fn config_outcome(r: Result<Config, ConfigError>) -> Result<ConfigValue, ErrorValue> {
    match r {
        Ok(c) => Ok(c@),
        Err(e) => Err(e@),
    }
}

impl Config {
    /// The configuration that a document holds.
    pub fn from_document(doc: &Json) -> (r: Result<Config, ConfigError>)
        ensures
            config_outcome(r) == config_in(doc@),
    {
        let v = Some(doc);
        let known = vec!["approvals", "emit", "tokens"];
        assert(names_of(known@) =~= document_names());
        let section = match read_section(v, "", &known) {
            Ok(section) => section,
            Err(e) => {
                return Err(e);
            },
        };
        let v = Some(&section);
        let approvals = match read_approvals(field(v, "approvals")) {
            Ok(c) => c,
            Err(e) => {
                return Err(e);
            },
        };
        let emit = match read_emit(field(v, "emit")) {
            Ok(c) => c,
            Err(e) => {
                return Err(e);
            },
        };
        match read_tokens(field(v, "tokens")) {
            Ok(state_path) => Ok(Config { approvals, emit, tokens: TokensConfig { state_path } }),
            Err(e) => Err(e),
        }
    }

    /// The configuration in a file's text: the defaults for a file that does not
    /// exist.
    pub fn load_from(text: Option<&str>) -> (r: Result<Config, ConfigError>)
        ensures
            config_outcome(r) == match text {
                None => Ok(default_config()),
                Some(t) => match toml_text(t@) {
                    Some(doc) => config_in(doc),
                    None => Err(ErrorValue::Syntax),
                },
            },
    {
        match text {
            None => Ok(Config::default()),
            Some(t) => match parse_toml(t) {
                Some(doc) => Config::from_document(&doc),
                None => Err(ConfigError::Syntax),
            },
        }
    }
}

/// An empty document gives the defaults.
pub proof fn law_empty_document_is_default()
    ensures
        config_in(JsonValue::Object(Seq::empty())) == Ok::<ConfigValue, ErrorValue>(default_config()),
{
}

proof fn lemma_stray(members: Seq<(Seq<char>, JsonValue)>, known: Seq<Seq<char>>, i: int)
    requires
        0 <= i < members.len(),
        !known.contains(members[i].0),
    ensures
        stray_key(members, known) is Some,
    decreases members.len(),
{
    if known.contains(members[0].0) {
        let rest = members.subrange(1, members.len() as int);
        assert(rest[i - 1] == members[i]);
        lemma_stray(rest, known, i - 1);
    }
}

/// Whether a section has a field that is none of the known ones.
pub open spec fn has_unknown(v: Option<JsonValue>, known: Seq<Seq<char>>) -> bool {
    match v {
        Some(JsonValue::Object(members)) => exists|i: int|
            0 <= i < members.len() && !known.contains((#[trigger] members[i]).0),
        _ => false,
    }
}

/// The section `name` of a section with the fields `known`.
pub open spec fn subsection(
    v: Option<JsonValue>,
    known: Seq<Seq<char>>,
    name: Seq<char>,
) -> Option<JsonValue> {
    match v {
        Some(JsonValue::Object(members)) => lookup(members, name),
        Some(JsonValue::Array(items)) => lookup(positional(known, items), name),
        _ => None,
    }
}

/// Whether one of the devices has a field that is not known.
pub open spec fn device_has_unknown(v: Option<JsonValue>) -> bool {
    match v {
        Some(JsonValue::Array(items)) => exists|i: int|
            0 <= i < items.len() && has_unknown(
                Some(#[trigger] items[i]),
                seq!["address"@, "nickname"@, "disabled"@],
            ),
        _ => false,
    }
}

/// Whether a field of a document is not known, on the top level or in one of its
/// sections.
pub open spec fn document_has_unknown(doc: JsonValue) -> bool {
    let approvals = subsection(Some(doc), document_names(), "approvals"@);
    let emit = subsection(Some(doc), document_names(), "emit"@);
    let tokens = subsection(Some(doc), document_names(), "tokens"@);
    let notify = subsection(emit, emit_names(), "notify"@);
    let ble = subsection(emit, emit_names(), "ble"@);
    ||| has_unknown(Some(doc), document_names())
    ||| has_unknown(approvals, seq!["timeout_ms"@, "fallback"@])
    ||| has_unknown(emit, emit_names())
    ||| has_unknown(notify, notify_names())
    ||| has_unknown(
        subsection(notify, notify_names(), "turn_done"@),
        seq!["enabled"@, "idle_grace_ms"@, "expire_ms"@],
    )
    ||| has_unknown(subsection(emit, emit_names(), "ctrl"@), seq!["enabled"@, "allow_simulate"@])
    ||| has_unknown(subsection(emit, emit_names(), "http"@), seq!["enabled"@, "addr"@])
    ||| has_unknown(ble, ble_names())
    ||| device_has_unknown(subsection(ble, ble_names(), "device"@))
    ||| has_unknown(tokens, seq!["state_path"@])
}

proof fn lemma_unknown(v: Option<JsonValue>, name: Seq<char>, known: Seq<Seq<char>>)
    requires
        has_unknown(v, known),
    ensures
        section_members(v, name, known) is Err,
{
    let members = v->0->Object_0;
    let i = choose|i: int| 0 <= i < members.len() && !known.contains((#[trigger] members[i]).0);
    lemma_stray(members, known, i);
}

proof fn lemma_unknown_device(items: Seq<JsonValue>, i: int)
    requires
        0 <= i < items.len(),
        has_unknown(Some(items[i]), seq!["address"@, "nickname"@, "disabled"@]),
    ensures
        devices_in(items) is Err,
    decreases items.len(),
{
    if i == items.len() - 1 {
        lemma_unknown(Some(items[i]), "device"@, seq!["address"@, "nickname"@, "disabled"@]);
    } else {
        lemma_unknown_device(items.drop_last(), i);
    }
}

/// No field that is not known is passed over: with one, in whichever section it
/// stands, the document is refused.
pub proof fn law_unknown_field_is_refused(doc: JsonValue)
    requires
        document_has_unknown(doc),
    ensures
        config_in(doc) is Err,
{
    let approvals = subsection(Some(doc), document_names(), "approvals"@);
    let emit = subsection(Some(doc), document_names(), "emit"@);
    let tokens = subsection(Some(doc), document_names(), "tokens"@);
    let notify = subsection(emit, emit_names(), "notify"@);
    let turn_done = subsection(notify, notify_names(), "turn_done"@);
    let ctrl = subsection(emit, emit_names(), "ctrl"@);
    let http = subsection(emit, emit_names(), "http"@);
    let ble = subsection(emit, emit_names(), "ble"@);
    let device = subsection(ble, ble_names(), "device"@);
    if has_unknown(Some(doc), document_names()) {
        lemma_unknown(Some(doc), ""@, document_names());
    } else if has_unknown(approvals, seq!["timeout_ms"@, "fallback"@]) {
        lemma_unknown(approvals, "approvals"@, seq!["timeout_ms"@, "fallback"@]);
    } else if has_unknown(emit, emit_names()) {
        lemma_unknown(emit, "emit"@, emit_names());
    } else if has_unknown(notify, notify_names()) {
        lemma_unknown(notify, "notify"@, notify_names());
    } else if has_unknown(turn_done, seq!["enabled"@, "idle_grace_ms"@, "expire_ms"@]) {
        lemma_unknown(
            turn_done,
            "turn_done"@,
            seq!["enabled"@, "idle_grace_ms"@, "expire_ms"@],
        );
    } else if has_unknown(ctrl, seq!["enabled"@, "allow_simulate"@]) {
        lemma_unknown(ctrl, "ctrl"@, seq!["enabled"@, "allow_simulate"@]);
    } else if has_unknown(http, seq!["enabled"@, "addr"@]) {
        lemma_unknown(http, "http"@, seq!["enabled"@, "addr"@]);
    } else if has_unknown(ble, ble_names()) {
        lemma_unknown(ble, "ble"@, ble_names());
    } else if device_has_unknown(device) {
        let items = device->0->Array_0;
        let i = choose|i: int|
            0 <= i < items.len() && has_unknown(
                Some(#[trigger] items[i]),
                seq!["address"@, "nickname"@, "disabled"@],
            );
        lemma_unknown_device(items, i);
    } else {
        lemma_unknown(tokens, "tokens"@, seq!["state_path"@]);
    }
}

} // verus!
