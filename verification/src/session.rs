//! The session core: owner of all mutable session state. Commands
//! from the presentation loop and completion events from background
//! operations are applied here, one at a time, with exact transition
//! contracts.

use vstd::prelude::*;
use vstd::string::StringExecFns;
use crate::clock::TimeParts;
use crate::clock::clock_chars;
use crate::clock::clock_text;
use crate::decimal::int_dec_str;
use crate::decimal::i64_to_dec;
use crate::input::DataFormat;
use crate::input::InputState;
use crate::ledger::Ledger;
use crate::ledger::insert_spec;
use crate::log::LogDirection;
use crate::log::LogEntry;
use crate::log::MessageLog;
use crate::log::MAX_LOG_ENTRIES;
use crate::log::log_append_spec;
use crate::uuid_id::UuidVal;

verus! {

/// Bound on the device registry.
pub const MAX_DEVICES: usize = 256;

/// Bound on the attribute value cache.
pub const MAX_CHAR_VALUES: usize = 100;

/// Seconds a connect-and-discover operation is given.
pub const CONNECT_TIMEOUT_SECS: u64 = 10;

/// Capability flags of one attribute.
#[derive(Clone, Copy, PartialEq, Eq, Structural, Debug)]
pub struct CharProps {
    pub broadcast: bool,
    pub read: bool,
    pub write_without_response: bool,
    pub write: bool,
    pub notify: bool,
    pub indicate: bool,
}

/// One discovered characteristic of the connected device.
pub struct Characteristic {
    pub uuid: UuidVal,
    pub properties: CharProps,
    pub descriptors: Vec<UuidVal>,
    pub service: UuidVal,
}

/// One discovered remote device.
pub struct DeviceInfo {
    pub id: String,
    pub name: String,
    pub tx_power: String,
    pub address: String,
    pub rssi: String,
    pub manufacturer_data: Vec<(u16, Vec<u8>)>,
    pub services: Vec<UuidVal>,
    pub service_data: Vec<(UuidVal, Vec<u8>)>,
    pub detected_at: String,
}

impl DeviceInfo {
    /// Builds a record from what one advertisement carried; absent
    /// fields render as "Unknown" or "n/a".
    pub fn new(
        id: String,
        name: Option<String>,
        tx_power: Option<i16>,
        address: String,
        rssi: Option<i16>,
        manufacturer_data: Vec<(u16, Vec<u8>)>,
        services: Vec<UuidVal>,
        service_data: Vec<(UuidVal, Vec<u8>)>,
        detected_at: String,
    ) -> (r: DeviceInfo)
        ensures
            r.id == id,
            r.address == address,
            r.name@ == match name {
                Some(n) => n@,
                None => "Unknown"@,
            },
            r.tx_power@ == match tx_power {
                Some(t) => int_dec_str(t as int),
                None => "n/a"@,
            },
            r.rssi@ == match rssi {
                Some(v) => int_dec_str(v as int),
                None => "n/a"@,
            },
            r.manufacturer_data == manufacturer_data,
            r.services == services,
            r.service_data == service_data,
            r.detected_at == detected_at,
    {
        let name = match name {
            Some(n) => n,
            None => String::from_str("Unknown"),
        };
        let tx_power = match tx_power {
            Some(t) => i64_to_dec(t as i64),
            None => String::from_str("n/a"),
        };
        let rssi = match rssi {
            Some(v) => i64_to_dec(v as i64),
            None => String::from_str("n/a"),
        };
        DeviceInfo {
            id,
            name,
            tx_power,
            address,
            rssi,
            manufacturer_data,
            services,
            service_data,
            detected_at,
        }
    }

    /// The identifier shown for the device. The caller fills `id`
    /// with the identifier its platform shows: the peripheral id on
    /// macOS, the address elsewhere.
    pub fn get_id(&self) -> (r: String)
        ensures
            r@ == self.id@,
    {
        self.id.clone()
    }
}

impl Default for DeviceInfo {
    fn default() -> (r: DeviceInfo)
        ensures
            r.id@ == Seq::<char>::empty(),
            r.name@ == Seq::<char>::empty(),
            r.tx_power@ == Seq::<char>::empty(),
            r.address@ == Seq::<char>::empty(),
            r.rssi@ == Seq::<char>::empty(),
            r.manufacturer_data@ == Seq::<(u16, Vec<u8>)>::empty(),
            r.services@ == Seq::<UuidVal>::empty(),
            r.service_data@ == Seq::<(UuidVal, Vec<u8>)>::empty(),
            r.detected_at@ == Seq::<char>::empty(),
    {
        DeviceInfo {
            id: String::new(),
            name: String::new(),
            tx_power: String::new(),
            address: String::new(),
            rssi: String::new(),
            manufacturer_data: Vec::new(),
            services: Vec::new(),
            service_data: Vec::new(),
            detected_at: String::new(),
        }
    }
}

/// The session's relationship to one remote device, by registry key.
#[derive(Clone, Copy, PartialEq, Eq, Structural, Debug)]
pub enum ConnectionState {
    Disconnected,
    Connecting(u128),
    Connected(u128),
}

impl ConnectionState {
    /// The key of the device an attempt or connection is tied to.
    pub open spec fn device_key(&self) -> Option<u128> {
        match self {
            ConnectionState::Disconnected => None,
            ConnectionState::Connecting(k) => Some(*k),
            ConnectionState::Connected(k) => Some(*k),
        }
    }
}

/// The panel that currently has keyboard focus; focus cycles through
/// this ring in order.
#[derive(Clone, Copy, PartialEq, Eq, Structural, Debug)]
pub enum FocusPanel {
    Devices,
    Attributes,
    ReadWrite,
    Log,
}

impl FocusPanel {
    pub open spec fn next_spec(&self) -> FocusPanel {
        match self {
            FocusPanel::Devices => FocusPanel::Attributes,
            FocusPanel::Attributes => FocusPanel::ReadWrite,
            FocusPanel::ReadWrite => FocusPanel::Log,
            FocusPanel::Log => FocusPanel::Devices,
        }
    }
}

/// Which field of the server configuration is selected for editing.
#[derive(Clone, Copy, PartialEq, Eq, Structural, Debug)]
pub enum ServerField {
    Name,
    ServiceUuid,
    CharUuid,
}

impl ServerField {
    pub fn label(&self) -> (r: &'static str)
        ensures
            r@ == match self {
                ServerField::Name => "Name"@,
                ServerField::ServiceUuid => "Service UUID"@,
                ServerField::CharUuid => "Characteristic UUID"@,
            },
    {
        match self {
            ServerField::Name => "Name",
            ServerField::ServiceUuid => "Service UUID",
            ServerField::CharUuid => "Characteristic UUID",
        }
    }
}

/// Default advertised service: the canonical heart-rate service id.
pub const DEFAULT_SERVICE_UUID: u128 = 0x0000180d_0000_1000_8000_00805f9b34fb;

/// Default advertised attribute: the heart-rate measurement id.
pub const DEFAULT_CHAR_UUID: u128 = 0x00002a37_0000_1000_8000_00805f9b34fb;

/// Local advertised-server configuration.
pub struct ServerConfig {
    pub name: String,
    pub service_uuid: UuidVal,
    pub char_uuid: UuidVal,
    pub advertising: bool,
}

/// A typed completion or notification event from one background
/// operation.
pub enum SessionEvent {
    DeviceDiscovered { key: u128, info: DeviceInfo },
    AttributesDiscovered { key: u128, chars: Vec<Characteristic> },
    ValueRead { id: UuidVal, value: Vec<u8> },
    Notification { id: UuidVal, value: Vec<u8> },
    WriteComplete { id: UuidVal },
    SubscribeComplete { id: UuidVal },
    UnsubscribeComplete { id: UuidVal },
    OperationError { message: String },
    Info { message: String },
    ServerLog { direction: LogDirection, message: String },
}

/// The one owner of all mutable session state.
pub struct App {
    pub devices: Ledger<DeviceInfo>,
    pub selected: Option<usize>,
    pub connection: ConnectionState,
    pub characteristics: Vec<Characteristic>,
    pub selected_char: Option<usize>,
    pub char_values: Ledger<Vec<u8>>,
    pub subscriptions: Ledger<()>,
    pub log: MessageLog,
    pub input: InputState,
    pub focus: FocusPanel,
    pub data_format: DataFormat,
    pub scan_paused: bool,
    pub is_loading: bool,
    pub inspect_view: bool,
    pub inspect_overlay_scroll: usize,
    pub error_view: bool,
    pub error_message: String,
    pub server: ServerConfig,
}

/// The new log equals the old with one entry appended (and the oldest
/// dropped once over the bound); the entry carries the given clock
/// time, direction and message.
pub open spec fn logged(
    old_log: Seq<LogEntry>,
    new_log: Seq<LogEntry>,
    now: TimeParts,
    d: LogDirection,
    msg: Seq<char>,
) -> bool {
    &&& new_log.len() > 0
    &&& new_log.last().timestamp@ == clock_chars(now)
    &&& new_log.last().direction == d
    &&& new_log.last().message@ == msg
    &&& new_log == log_append_spec(old_log, new_log.last(), MAX_LOG_ENTRIES as nat)
}

impl App {
    /// Bounds and key-distinctness that every operation preserves.
    pub open spec fn well_formed(&self) -> bool {
        &&& self.devices.well_formed()
        &&& self.devices@.len() <= MAX_DEVICES
        &&& self.char_values.well_formed()
        &&& self.char_values@.len() <= MAX_CHAR_VALUES
        &&& self.log.well_formed()
        &&& self.input.well_formed()
        &&& self.subscriptions.well_formed()
    }

    pub fn new() -> (r: App)
        ensures
            r.well_formed(),
            r.devices@ == Seq::<(u128, DeviceInfo)>::empty(),
            r.selected is None,
            r.connection == ConnectionState::Disconnected,
            r.characteristics@ == Seq::<Characteristic>::empty(),
            r.selected_char is None,
            r.char_values@ == Seq::<(u128, Vec<u8>)>::empty(),
            r.subscriptions@ == Seq::<(u128, ())>::empty(),
            r.log@ == Seq::<LogEntry>::empty(),
            r.focus == FocusPanel::Devices,
            r.data_format == DataFormat::Hex,
            !r.scan_paused,
            !r.is_loading,
            !r.inspect_view,
            r.inspect_overlay_scroll == 0,
            !r.error_view,
            r.error_message@ == Seq::<char>::empty(),
            r.server.name@ == "btlescan"@,
            r.server.service_uuid.bits == DEFAULT_SERVICE_UUID,
            r.server.char_uuid.bits == DEFAULT_CHAR_UUID,
            !r.server.advertising,
    {
        App {
            devices: Ledger::new(),
            selected: None,
            connection: ConnectionState::Disconnected,
            characteristics: Vec::new(),
            selected_char: None,
            char_values: Ledger::new(),
            subscriptions: Ledger::new(),
            log: MessageLog::new(),
            input: InputState::new(),
            focus: FocusPanel::Devices,
            data_format: DataFormat::Hex,
            scan_paused: false,
            is_loading: false,
            inspect_view: false,
            inspect_overlay_scroll: 0,
            error_view: false,
            error_message: String::new(),
            server: ServerConfig {
                name: String::from_str("btlescan"),
                service_uuid: UuidVal { bits: DEFAULT_SERVICE_UUID },
                char_uuid: UuidVal { bits: DEFAULT_CHAR_UUID },
                advertising: false,
            },
        }
    }

    /// Flips the scan pause flag and changes nothing else.
    pub fn toggle_scan_pause(&mut self)
        ensures
            *final(self) == (App { scan_paused: !old(self).scan_paused, ..*old(self) }),
    {
        self.scan_paused = !self.scan_paused;
    }

    /// Moves focus to the next panel of the ring.
    pub fn cycle_focus(&mut self)
        ensures
            *final(self) == (App { focus: old(self).focus.next_spec(), ..*old(self) }),
    {
        let next = match self.focus {
            FocusPanel::Devices => FocusPanel::Attributes,
            FocusPanel::Attributes => FocusPanel::ReadWrite,
            FocusPanel::ReadWrite => FocusPanel::Log,
            FocusPanel::Log => FocusPanel::Devices,
        };
        self.focus = next;
    }

    /// Switches between hexadecimal and raw text entry.
    pub fn toggle_format(&mut self)
        ensures
            *final(self) == (App {
                data_format: match old(self).data_format {
                    DataFormat::Hex => DataFormat::Text,
                    DataFormat::Text => DataFormat::Hex,
                },
                ..*old(self)
            }),
    {
        let next = match self.data_format {
            DataFormat::Hex => DataFormat::Text,
            DataFormat::Text => DataFormat::Hex,
        };
        self.data_format = next;
    }

    /// Moves the device selection down one row, wrapping at the end.
    pub fn select_next_device(&mut self)
        ensures
            *final(self) == (App { selected: final(self).selected, ..*old(self) }),
            final(self).selected == if old(self).devices@.len() == 0 {
                old(self).selected
            } else {
                match old(self).selected {
                    Some(s) => if s + 1 >= old(self).devices@.len() {
                        Some(0usize)
                    } else {
                        Some((s + 1) as usize)
                    },
                    None => Some(0usize),
                }
            },
    {
        let n = self.devices.len();
        if n == 0 {
            return ;
        }
        let next: usize = match self.selected {
            Some(s) => if s >= n - 1 {
                0
            } else {
                s + 1
            },
            None => 0,
        };
        self.selected = Some(next);
    }

    /// Moves the device selection up one row, wrapping at the top.
    pub fn select_previous_device(&mut self)
        ensures
            *final(self) == (App { selected: final(self).selected, ..*old(self) }),
            final(self).selected == if old(self).devices@.len() == 0 {
                old(self).selected
            } else {
                match old(self).selected {
                    Some(s) => if s == 0 {
                        Some((old(self).devices@.len() - 1) as usize)
                    } else {
                        Some((s - 1) as usize)
                    },
                    None => Some(0usize),
                }
            },
    {
        let n = self.devices.len();
        if n == 0 {
            return ;
        }
        let previous: usize = match self.selected {
            Some(s) => if s == 0 {
                n - 1
            } else {
                s - 1
            },
            None => 0,
        };
        self.selected = Some(previous);
    }

    /// Moves the attribute selection down one row, wrapping at the end.
    pub fn select_next_char(&mut self)
        ensures
            *final(self) == (App { selected_char: final(self).selected_char, ..*old(self) }),
            final(self).selected_char == if old(self).characteristics@.len() == 0 {
                old(self).selected_char
            } else {
                match old(self).selected_char {
                    Some(s) => if s + 1 >= old(self).characteristics@.len() {
                        Some(0usize)
                    } else {
                        Some((s + 1) as usize)
                    },
                    None => Some(0usize),
                }
            },
    {
        let n = self.characteristics.len();
        if n == 0 {
            return ;
        }
        let next: usize = match self.selected_char {
            Some(s) => if s >= n - 1 {
                0
            } else {
                s + 1
            },
            None => 0,
        };
        self.selected_char = Some(next);
    }

    /// Moves the attribute selection up one row, wrapping at the top.
    pub fn select_previous_char(&mut self)
        ensures
            *final(self) == (App { selected_char: final(self).selected_char, ..*old(self) }),
            final(self).selected_char == if old(self).characteristics@.len() == 0 {
                old(self).selected_char
            } else {
                match old(self).selected_char {
                    Some(s) => if s == 0 {
                        Some((old(self).characteristics@.len() - 1) as usize)
                    } else {
                        Some((s - 1) as usize)
                    },
                    None => Some(0usize),
                }
            },
    {
        let n = self.characteristics.len();
        if n == 0 {
            return ;
        }
        let previous: usize = match self.selected_char {
            Some(s) => if s == 0 {
                n - 1
            } else {
                s - 1
            },
            None => 0,
        };
        self.selected_char = Some(previous);
    }

    /// Scrolls the inspect overlay down one row.
    pub fn inspect_scroll_down(&mut self)
        requires
            old(self).inspect_overlay_scroll < usize::MAX,
        ensures
            *final(self) == (App {
                inspect_overlay_scroll: (old(self).inspect_overlay_scroll + 1) as usize,
                ..*old(self)
            }),
    {
        self.inspect_overlay_scroll = self.inspect_overlay_scroll + 1;
    }

    /// Scrolls the inspect overlay up one row, stopping at the top.
    pub fn inspect_scroll_up(&mut self)
        ensures
            *final(self) == (App {
                inspect_overlay_scroll: if old(self).inspect_overlay_scroll > 0 {
                    (old(self).inspect_overlay_scroll - 1) as usize
                } else {
                    0usize
                },
                ..*old(self)
            }),
    {
        if self.inspect_overlay_scroll > 0 {
            self.inspect_overlay_scroll = self.inspect_overlay_scroll - 1;
        }
    }

    /// Appends one entry to the audit log, touching nothing else.
    fn log_line(&mut self, now: &TimeParts, d: LogDirection, msg: String)
        ensures
            *final(self) == (App { log: final(self).log, ..*old(self) }),
            logged(old(self).log@, final(self).log@, *now, d, msg@),
            final(self).log.well_formed(),
    {
        let e = LogEntry { timestamp: clock_text(now), direction: d, message: msg };
        self.log.append(e);
        proof {
            let t = old(self).log@.push(e);
            assert(t.last() == e);
            if t.len() > MAX_LOG_ENTRIES {
                assert(t.skip(t.len() - MAX_LOG_ENTRIES).last() == e);
            }
        }
    }

    /// Applies one completion event from a background operation.
    ///
    /// Discovery merges into the bounded registry, protecting the
    /// connected device from eviction. A discovery result is consumed
    /// only while connecting to the same device; a stale one is
    /// dropped. An operation error clears all connection-scoped state.
    pub fn apply_event(&mut self, event: SessionEvent, now: &TimeParts)
        requires
            old(self).well_formed(),
        ensures
            final(self).well_formed(),
            match event {
                SessionEvent::DeviceDiscovered { key, info } => {
                    &&& *final(self) == (App {
                        devices: final(self).devices,
                        selected: final(self).selected,
                        ..*old(self)
                    })
                    &&& final(self).devices@ == insert_spec(
                        old(self).devices@,
                        key,
                        info,
                        old(self).connection.device_key(),
                        MAX_DEVICES as nat,
                    )
                    &&& final(self).selected == if old(self).selected is None {
                        Some(0usize)
                    } else {
                        old(self).selected
                    }
                },
                SessionEvent::AttributesDiscovered { key, chars } => {
                    if old(self).connection == ConnectionState::Connecting(key) {
                        &&& *final(self) == (App {
                            connection: ConnectionState::Connected(key),
                            characteristics: final(self).characteristics,
                            is_loading: false,
                            inspect_view: true,
                            log: final(self).log,
                            ..*old(self)
                        })
                        &&& final(self).characteristics == chars
                        &&& logged(
                            old(self).log@,
                            final(self).log@,
                            *now,
                            LogDirection::Info,
                            "Connected"@,
                        )
                    } else {
                        *final(self) == *old(self)
                    }
                },
                SessionEvent::ValueRead { id, value } => {
                    &&& *final(self) == (App {
                        char_values: final(self).char_values,
                        log: final(self).log,
                        ..*old(self)
                    })
                    &&& final(self).char_values@ == insert_spec(
                        old(self).char_values@,
                        id.bits,
                        value,
                        None,
                        MAX_CHAR_VALUES as nat,
                    )
                    &&& logged(
                        old(self).log@,
                        final(self).log@,
                        *now,
                        LogDirection::Received,
                        value_read_msg(id.bits, value@),
                    )
                },
                SessionEvent::Notification { id, value } => {
                    &&& *final(self) == (App {
                        char_values: final(self).char_values,
                        log: final(self).log,
                        ..*old(self)
                    })
                    &&& final(self).char_values@ == insert_spec(
                        old(self).char_values@,
                        id.bits,
                        value,
                        None,
                        MAX_CHAR_VALUES as nat,
                    )
                    &&& logged(
                        old(self).log@,
                        final(self).log@,
                        *now,
                        LogDirection::Received,
                        notification_msg(id.bits, value@),
                    )
                },
                SessionEvent::WriteComplete { id } => {
                    &&& *final(self) == (App { log: final(self).log, ..*old(self) })
                    &&& logged(
                        old(self).log@,
                        final(self).log@,
                        *now,
                        LogDirection::Sent,
                        write_complete_msg(id.bits),
                    )
                },
                SessionEvent::SubscribeComplete { id } => {
                    &&& *final(self) == (App {
                        subscriptions: final(self).subscriptions,
                        log: final(self).log,
                        ..*old(self)
                    })
                    &&& final(self).subscriptions@ == insert_spec(
                        old(self).subscriptions@,
                        id.bits,
                        (),
                        None,
                        MAX_SUBSCRIPTIONS as nat,
                    )
                    &&& logged(
                        old(self).log@,
                        final(self).log@,
                        *now,
                        LogDirection::Info,
                        subscribe_msg(id.bits),
                    )
                },
                SessionEvent::UnsubscribeComplete { id } => {
                    &&& *final(self) == (App {
                        subscriptions: final(self).subscriptions,
                        log: final(self).log,
                        ..*old(self)
                    })
                    &&& final(self).subscriptions@ == crate::ledger::remove_key(
                        old(self).subscriptions@,
                        id.bits,
                    )
                    &&& logged(
                        old(self).log@,
                        final(self).log@,
                        *now,
                        LogDirection::Info,
                        unsubscribe_msg(id.bits),
                    )
                },
                SessionEvent::OperationError { message } => {
                    &&& *final(self) == (App {
                        connection: ConnectionState::Disconnected,
                        characteristics: final(self).characteristics,
                        selected_char: None,
                        char_values: final(self).char_values,
                        subscriptions: final(self).subscriptions,
                        is_loading: false,
                        error_view: true,
                        error_message: final(self).error_message,
                        log: final(self).log,
                        ..*old(self)
                    })
                    &&& final(self).error_message == message
                    &&& logged(
                        old(self).log@,
                        final(self).log@,
                        *now,
                        LogDirection::Error,
                        message@,
                    )
                    &&& if old(self).connection is Disconnected {
                        &&& final(self).characteristics == old(self).characteristics
                        &&& final(self).char_values == old(self).char_values
                        &&& final(self).subscriptions == old(self).subscriptions
                    } else {
                        &&& final(self).characteristics@ == Seq::<Characteristic>::empty()
                        &&& final(self).char_values@ == Seq::<(u128, Vec<u8>)>::empty()
                        &&& final(self).subscriptions@ == Seq::<(u128, ())>::empty()
                    }
                },
                SessionEvent::Info { message } => {
                    &&& *final(self) == (App { log: final(self).log, ..*old(self) })
                    &&& logged(old(self).log@, final(self).log@, *now, LogDirection::Info, message@)
                },
                SessionEvent::ServerLog { direction, message } => {
                    &&& *final(self) == (App { log: final(self).log, ..*old(self) })
                    &&& logged(old(self).log@, final(self).log@, *now, direction, message@)
                },
            },
    {
        match event {
            SessionEvent::DeviceDiscovered { key, info } => {
                let protected: Option<u128> = match self.connection {
                    ConnectionState::Disconnected => None,
                    ConnectionState::Connecting(k) => Some(k),
                    ConnectionState::Connected(k) => Some(k),
                };
                self.devices.insert(key, info, protected, MAX_DEVICES);
                proof {
                    crate::ledger::lemma_evict_len(
                        crate::ledger::remove_key(old(self).devices@, key).push((key, info)),
                        protected,
                        MAX_DEVICES as nat,
                    );
                }
                if self.selected.is_none() {
                    self.selected = Some(0);
                }
            },
            SessionEvent::AttributesDiscovered { key, chars } => {
                if self.connection == ConnectionState::Connecting(key) {
                    self.connection = ConnectionState::Connected(key);
                    self.characteristics = chars;
                    self.is_loading = false;
                    self.inspect_view = true;
                    self.log_line(now, LogDirection::Info, String::from_str("Connected"));
                }
            },
            SessionEvent::ValueRead { id, value } => {
                let msg = value_read_text(&id, &value);
                self.char_values.insert(id.bits, value, None, MAX_CHAR_VALUES);
                proof {
                    crate::ledger::lemma_evict_len(
                        crate::ledger::remove_key(old(self).char_values@, id.bits).push(
                            (id.bits, value),
                        ),
                        None,
                        MAX_CHAR_VALUES as nat,
                    );
                }
                self.log_line(now, LogDirection::Received, msg);
            },
            SessionEvent::Notification { id, value } => {
                let msg = notification_text(&id, &value);
                self.char_values.insert(id.bits, value, None, MAX_CHAR_VALUES);
                proof {
                    crate::ledger::lemma_evict_len(
                        crate::ledger::remove_key(old(self).char_values@, id.bits).push(
                            (id.bits, value),
                        ),
                        None,
                        MAX_CHAR_VALUES as nat,
                    );
                }
                self.log_line(now, LogDirection::Received, msg);
            },
            SessionEvent::WriteComplete { id } => {
                let mut msg = String::from_str("Write complete on ");
                let u = id.to_text();
                msg.append(u.as_str());
                self.log_line(now, LogDirection::Sent, msg);
            },
            SessionEvent::SubscribeComplete { id } => {
                let mut msg = String::from_str("Subscribed to ");
                let u = id.to_text();
                msg.append(u.as_str());
                self.subscriptions.insert(id.bits, (), None, MAX_SUBSCRIPTIONS);
                self.log_line(now, LogDirection::Info, msg);
            },
            SessionEvent::UnsubscribeComplete { id } => {
                let mut msg = String::from_str("Unsubscribed from ");
                let u = id.to_text();
                msg.append(u.as_str());
                self.subscriptions.remove(id.bits);
                self.log_line(now, LogDirection::Info, msg);
            },
            SessionEvent::OperationError { message } => {
                let was_connected = match self.connection {
                    ConnectionState::Disconnected => false,
                    ConnectionState::Connecting(_) => true,
                    ConnectionState::Connected(_) => true,
                };
                if was_connected {
                    self.connection = ConnectionState::Disconnected;
                    self.characteristics = Vec::new();
                    self.selected_char = None;
                    self.char_values.clear();
                    self.subscriptions.clear();
                } else {
                    self.selected_char = None;
                }
                self.is_loading = false;
                self.error_view = true;
                self.error_message = message.clone();
                self.log_line(now, LogDirection::Error, message);
            },
            SessionEvent::Info { message } => {
                self.log_line(now, LogDirection::Info, message);
            },
            SessionEvent::ServerLog { direction, message } => {
                self.log_line(now, direction, message);
            },
        }
    }
}

/// Bound on the subscription set; subscriptions are never evicted.
pub const MAX_SUBSCRIPTIONS: usize = usize::MAX;

pub open spec fn value_read_msg(id: u128, v: Seq<u8>) -> Seq<char> {
    "Read "@ + crate::uuid_id::uuid_chars(id) + ": "@ + crate::server::hex_or_empty_chars(v)
}

pub open spec fn notification_msg(id: u128, v: Seq<u8>) -> Seq<char> {
    "Notification "@ + crate::uuid_id::uuid_chars(id) + ": "@ + crate::server::hex_or_empty_chars(
        v,
    )
}

pub open spec fn write_complete_msg(id: u128) -> Seq<char> {
    "Write complete on "@ + crate::uuid_id::uuid_chars(id)
}

pub open spec fn subscribe_msg(id: u128) -> Seq<char> {
    "Subscribed to "@ + crate::uuid_id::uuid_chars(id)
}

pub open spec fn unsubscribe_msg(id: u128) -> Seq<char> {
    "Unsubscribed from "@ + crate::uuid_id::uuid_chars(id)
}

fn value_read_text(id: &UuidVal, v: &Vec<u8>) -> (r: String)
    ensures
        r@ == value_read_msg(id.bits, v@),
{
    let mut r = String::from_str("Read ");
    let u = id.to_text();
    r.append(u.as_str());
    r.append(": ");
    let h = crate::server::hex_or_empty(v);
    r.append(h.as_str());
    proof {
        assert(r@ =~= value_read_msg(id.bits, v@));
    }
    r
}

fn notification_text(id: &UuidVal, v: &Vec<u8>) -> (r: String)
    ensures
        r@ == notification_msg(id.bits, v@),
{
    let mut r = String::from_str("Notification ");
    let u = id.to_text();
    r.append(u.as_str());
    r.append(": ");
    let h = crate::server::hex_or_empty(v);
    r.append(h.as_str());
    proof {
        assert(r@ =~= notification_msg(id.bits, v@));
    }
    r
}

/// Bounded growth: any sequence of discovery events keeps the device
/// registry within its bound, and the connected device is never among
/// the evicted ones.
pub proof fn lemma_registry_bounded_growth(
    registry: Seq<(u128, DeviceInfo)>,
    discoveries: Seq<(u128, DeviceInfo)>,
    connected: u128,
)
    requires
        crate::ledger::distinct_keys(registry),
        registry.len() <= MAX_DEVICES,
        crate::ledger::contains_key(registry, connected),
    ensures
        crate::ledger::insert_all(
            registry,
            discoveries,
            Some(connected),
            MAX_DEVICES as nat,
        ).len() <= MAX_DEVICES,
        crate::ledger::contains_key(
            crate::ledger::insert_all(registry, discoveries, Some(connected), MAX_DEVICES as nat),
            connected,
        ),
{
    crate::ledger::lemma_bounded_growth(registry, discoveries, connected, MAX_DEVICES as nat);
}

/// Cache freshness: caching a value for an already-present attribute
/// does not grow the cache and moves that attribute to the newest
/// slot of the eviction order.
pub proof fn lemma_cache_freshness(cache: Seq<(u128, Vec<u8>)>, id: u128, value: Vec<u8>)
    requires
        crate::ledger::distinct_keys(cache),
        crate::ledger::contains_key(cache, id),
        cache.len() <= MAX_CHAR_VALUES,
    ensures
        insert_spec(cache, id, value, None, MAX_CHAR_VALUES as nat).len() == cache.len(),
        insert_spec(cache, id, value, None, MAX_CHAR_VALUES as nat).last() == (id, value),
{
    crate::ledger::lemma_insert_refreshes(cache, id, value, MAX_CHAR_VALUES as nat);
}

/// Local and gateway failure kinds.
#[derive(Debug, PartialEq, Eq)]
pub enum SessionError {
    ConnectionTimeout,
    ConnectionFailed(String),
    DiscoveryFailed(String),
    ReadFailed(String),
    WriteFailed(String, String),
    SubscribeFailed(String),
    UnsubscribeFailed(String),
    InvalidUuid(String),
    InvalidHexInput(usize),
    InputTooLong,
    ServerStartFailed(String),
    AdapterNotPowered,
}

/// The message text of each failure kind.
pub open spec fn error_msg(e: SessionError) -> Seq<char> {
    match e {
        SessionError::ConnectionTimeout => "Connection timed out"@,
        SessionError::ConnectionFailed(r) => "Connection error: "@ + r@,
        SessionError::DiscoveryFailed(r) => "Discovery failed: "@ + r@,
        SessionError::ReadFailed(r) => "Read failed: "@ + r@,
        SessionError::WriteFailed(a, b) => "Write failed: "@ + a@ + " / "@ + b@,
        SessionError::SubscribeFailed(r) => "Subscribe failed: "@ + r@,
        SessionError::UnsubscribeFailed(r) => "Unsubscribe failed: "@ + r@,
        SessionError::InvalidUuid(v) => "Invalid uuid: "@ + v@,
        SessionError::InvalidHexInput(p) => "Invalid hex input at position "@ + crate::decimal::dec_str(p as nat),
        SessionError::InputTooLong => "Input too long"@,
        SessionError::ServerStartFailed(r) => "Server start failed: "@ + r@,
        SessionError::AdapterNotPowered => "Bluetooth adapter not powered on"@,
    }
}

impl SessionError {
    /// Renders the failure as a user-visible message.
    pub fn message(&self) -> (r: String)
        ensures
            r@ == error_msg(*self),
    {
        match self {
            SessionError::ConnectionTimeout => String::from_str("Connection timed out"),
            SessionError::ConnectionFailed(reason) => {
                let mut r = String::from_str("Connection error: ");
                r.append(reason.as_str());
                r
            },
            SessionError::DiscoveryFailed(reason) => {
                let mut r = String::from_str("Discovery failed: ");
                r.append(reason.as_str());
                r
            },
            SessionError::ReadFailed(reason) => {
                let mut r = String::from_str("Read failed: ");
                r.append(reason.as_str());
                r
            },
            SessionError::WriteFailed(ack, no_ack) => {
                let mut r = String::from_str("Write failed: ");
                r.append(ack.as_str());
                r.append(" / ");
                r.append(no_ack.as_str());
                proof {
                    assert(r@ =~= error_msg(*self));
                }
                r
            },
            SessionError::SubscribeFailed(reason) => {
                let mut r = String::from_str("Subscribe failed: ");
                r.append(reason.as_str());
                r
            },
            SessionError::UnsubscribeFailed(reason) => {
                let mut r = String::from_str("Unsubscribe failed: ");
                r.append(reason.as_str());
                r
            },
            SessionError::InvalidUuid(value) => {
                let mut r = String::from_str("Invalid uuid: ");
                r.append(value.as_str());
                r
            },
            SessionError::InvalidHexInput(position) => {
                let mut r = String::from_str("Invalid hex input at position ");
                let d = crate::decimal::u64_to_dec(*position as u64);
                r.append(d.as_str());
                r
            },
            SessionError::InputTooLong => String::from_str("Input too long"),
            SessionError::ServerStartFailed(reason) => {
                let mut r = String::from_str("Server start failed: ");
                r.append(reason.as_str());
                r
            },
            SessionError::AdapterNotPowered => String::from_str(
                "Bluetooth adapter not powered on",
            ),
        }
    }
}

/// The fallback policy for attribute writes: an acknowledged write is
/// tried first; on failure the unacknowledged write's result decides,
/// and only a double failure surfaces an error carrying both reasons.
pub fn resolve_write_attempts(first: Result<(), String>, second: Result<(), String>) -> (r: Result<
    (),
    SessionError,
>)
    ensures
        first is Ok ==> r is Ok,
        first is Err && second is Ok ==> r is Ok,
        first is Err && second is Err ==> r == Result::<(), SessionError>::Err(
            SessionError::WriteFailed(first->Err_0, second->Err_0),
        ),
{
    match first {
        Ok(_) => Ok(()),
        Err(a) => match second {
            Ok(_) => Ok(()),
            Err(b) => Err(SessionError::WriteFailed(a, b)),
        },
    }
}

/// Where hexadecimal parsing failed: the first offending character,
/// or the dangling digit of an odd-length input.
pub open spec fn hex_error_pos(s: Seq<char>) -> int {
    if crate::hex::first_non_hex(s) >= 0 {
        crate::hex::first_non_hex(s)
    } else {
        crate::hex::last_non_space(s)
    }
}

/// Turns committed input text into attribute bytes, by the active
/// format: hexadecimal pairs, or the text's own UTF-8 bytes.
pub fn parse_value(format: DataFormat, text: &str) -> (r: Result<Vec<u8>, SessionError>)
    ensures
        match format {
            DataFormat::Hex => {
                &&& r is Ok <==> crate::hex::parse_hex_spec(text@) is Some
                &&& r matches Ok(v) ==> Some(v@) == crate::hex::parse_hex_spec(text@)
                &&& r matches Err(e) ==> e == SessionError::InvalidHexInput(
                    hex_error_pos(text@) as usize,
                )
            },
            DataFormat::Text => {
                r matches Ok(v) && v@ == vstd::utf8::encode_utf8(text@)
            },
        },
{
    match format {
        DataFormat::Hex => match crate::hex::parse_hex(text) {
            Ok(v) => Ok(v),
            Err(p) => Err(SessionError::InvalidHexInput(p)),
        },
        DataFormat::Text => {
            let b = text.as_bytes();
            Ok(vstd::slice::slice_to_vec(b))
        },
    }
}

impl App {
    /// Whether the device selection points at a registry entry.
    pub open spec fn valid_selection(&self) -> bool {
        match self.selected {
            Some(i) => (i as int) < self.devices@.len(),
            None => false,
        }
    }

    /// The registry key of the selected device.
    pub open spec fn selected_key(&self) -> u128
        recommends
            self.valid_selection(),
    {
        self.devices@[self.selected->Some_0 as int].0
    }

    /// Starts a connection attempt to the selected device.
    ///
    /// Rejected while another attempt is in flight. Without a valid
    /// selection no background operation is started and the session
    /// state is unchanged but for a descriptive error. On success the
    /// scan is paused, connection-scoped caches are cleared, and the
    /// returned key names the device the caller must connect to.
    pub fn connect(&mut self, now: &TimeParts) -> (r: Option<u128>)
        requires
            old(self).well_formed(),
        ensures
            final(self).well_formed(),
            old(self).connection is Connecting ==> {
                &&& r is None
                &&& *final(self) == (App { log: final(self).log, ..*old(self) })
                &&& logged(
                    old(self).log@,
                    final(self).log@,
                    *now,
                    LogDirection::Error,
                    "Connect rejected: already connecting"@,
                )
            },
            !(old(self).connection is Connecting) && !old(self).valid_selection() ==> {
                &&& r is None
                &&& *final(self) == (App {
                    error_view: true,
                    error_message: final(self).error_message,
                    log: final(self).log,
                    ..*old(self)
                })
                &&& final(self).error_message@ == "No device selected"@
                &&& logged(
                    old(self).log@,
                    final(self).log@,
                    *now,
                    LogDirection::Error,
                    "No device selected"@,
                )
            },
            !(old(self).connection is Connecting) && old(self).valid_selection() ==> {
                &&& r == Some(old(self).selected_key())
                &&& *final(self) == (App {
                    connection: ConnectionState::Connecting(old(self).selected_key()),
                    characteristics: final(self).characteristics,
                    selected_char: None,
                    char_values: final(self).char_values,
                    subscriptions: final(self).subscriptions,
                    scan_paused: true,
                    is_loading: true,
                    log: final(self).log,
                    ..*old(self)
                })
                &&& final(self).characteristics@ == Seq::<Characteristic>::empty()
                &&& final(self).char_values@ == Seq::<(u128, Vec<u8>)>::empty()
                &&& final(self).subscriptions@ == Seq::<(u128, ())>::empty()
                &&& logged(
                    old(self).log@,
                    final(self).log@,
                    *now,
                    LogDirection::Info,
                    "Connecting"@,
                )
            },
    {
        let connecting = match self.connection {
            ConnectionState::Connecting(_) => true,
            _ => false,
        };
        if connecting {
            self.log_line(
                now,
                LogDirection::Error,
                String::from_str("Connect rejected: already connecting"),
            );
            return None;
        }
        let n = self.devices.len();
        let sel = match self.selected {
            Some(i) => if i < n {
                Some(i)
            } else {
                None
            },
            None => None,
        };
        match sel {
            None => {
                self.error_view = true;
                self.error_message = String::from_str("No device selected");
                self.log_line(now, LogDirection::Error, String::from_str("No device selected"));
                None
            },
            Some(i) => {
                let key = self.devices.entry_at(i).0;
                self.connection = ConnectionState::Connecting(key);
                self.characteristics = Vec::new();
                self.selected_char = None;
                self.char_values.clear();
                self.subscriptions.clear();
                self.scan_paused = true;
                self.is_loading = true;
                self.log_line(now, LogDirection::Info, String::from_str("Connecting"));
                Some(key)
            },
        }
    }

    /// Ends the connection. Only effective while connected: local
    /// connection-scoped state is cleared at once and scanning
    /// resumes; the returned key names the device the caller should
    /// disconnect from in the background, best effort.
    pub fn disconnect(&mut self, now: &TimeParts) -> (r: Option<u128>)
        requires
            old(self).well_formed(),
        ensures
            final(self).well_formed(),
            match old(self).connection {
                ConnectionState::Connected(key) => {
                    &&& r == Some(key)
                    &&& *final(self) == (App {
                        connection: ConnectionState::Disconnected,
                        characteristics: final(self).characteristics,
                        selected_char: None,
                        char_values: final(self).char_values,
                        subscriptions: final(self).subscriptions,
                        scan_paused: false,
                        log: final(self).log,
                        ..*old(self)
                    })
                    &&& final(self).characteristics@ == Seq::<Characteristic>::empty()
                    &&& final(self).char_values@ == Seq::<(u128, Vec<u8>)>::empty()
                    &&& final(self).subscriptions@ == Seq::<(u128, ())>::empty()
                    &&& logged(
                        old(self).log@,
                        final(self).log@,
                        *now,
                        LogDirection::Info,
                        "Disconnected"@,
                    )
                },
                _ => r is None && *final(self) == *old(self),
            },
    {
        match self.connection {
            ConnectionState::Connected(key) => {
                self.connection = ConnectionState::Disconnected;
                self.characteristics = Vec::new();
                self.selected_char = None;
                self.char_values.clear();
                self.subscriptions.clear();
                self.scan_paused = false;
                self.log_line(now, LogDirection::Info, String::from_str("Disconnected"));
                Some(key)
            },
            _ => None,
        }
    }

    /// Edits one server-configuration field; the configuration can
    /// only be edited while not advertising. A malformed uuid is
    /// rejected at entry and changes nothing.
    pub fn set_server_field(&mut self, field: ServerField, text: String) -> (r: Result<
        (),
        SessionError,
    >)
        requires
            old(self).well_formed(),
            !old(self).server.advertising,
        ensures
            final(self).well_formed(),
            match field {
                ServerField::Name => {
                    &&& r is Ok
                    &&& *final(self) == (App { server: final(self).server, ..*old(self) })
                    &&& final(self).server == (ServerConfig { name: text, ..old(self).server })
                },
                ServerField::ServiceUuid => {
                    if crate::uuid_id::uuid_text_wf(text@) {
                        &&& r is Ok
                        &&& *final(self) == (App { server: final(self).server, ..*old(self) })
                        &&& final(self).server == (ServerConfig {
                            service_uuid: final(self).server.service_uuid,
                            ..old(self).server
                        })
                        &&& final(self).server.service_uuid.bits as nat
                            == crate::uuid_id::uuid_text_value(text@)
                    } else {
                        r == Result::<(), SessionError>::Err(SessionError::InvalidUuid(text))
                            && *final(self) == *old(self)
                    }
                },
                ServerField::CharUuid => {
                    if crate::uuid_id::uuid_text_wf(text@) {
                        &&& r is Ok
                        &&& *final(self) == (App { server: final(self).server, ..*old(self) })
                        &&& final(self).server == (ServerConfig {
                            char_uuid: final(self).server.char_uuid,
                            ..old(self).server
                        })
                        &&& final(self).server.char_uuid.bits as nat
                            == crate::uuid_id::uuid_text_value(text@)
                    } else {
                        r == Result::<(), SessionError>::Err(SessionError::InvalidUuid(text))
                            && *final(self) == *old(self)
                    }
                },
            },
    {
        match field {
            ServerField::Name => {
                self.server.name = text;
                Ok(())
            },
            ServerField::ServiceUuid => match crate::uuid_id::parse_uuid(text.as_str()) {
                Some(u) => {
                    self.server.service_uuid = u;
                    Ok(())
                },
                None => Err(SessionError::InvalidUuid(text)),
            },
            ServerField::CharUuid => match crate::uuid_id::parse_uuid(text.as_str()) {
                Some(u) => {
                    self.server.char_uuid = u;
                    Ok(())
                },
                None => Err(SessionError::InvalidUuid(text)),
            },
        }
    }

    /// Records whether the local server is advertising.
    pub fn set_advertising(&mut self, on: bool)
        ensures
            *final(self) == (App { server: final(self).server, ..*old(self) }),
            final(self).server == (ServerConfig { advertising: on, ..old(self).server }),
    {
        self.server.advertising = on;
    }

    /// Enters editing mode with an empty input buffer.
    pub fn begin_edit(&mut self)
        requires
            old(self).well_formed(),
        ensures
            final(self).well_formed(),
            *final(self) == (App { input: final(self).input, ..*old(self) }),
            final(self).input@ == Seq::<char>::empty(),
            final(self).input.mode_spec() == crate::input::InputMode::Editing,
    {
        self.input.begin_edit();
    }

    /// Discards the input buffer and leaves editing mode.
    pub fn cancel_edit(&mut self)
        requires
            old(self).well_formed(),
        ensures
            final(self).well_formed(),
            *final(self) == (App { input: final(self).input, ..*old(self) }),
            final(self).input@ == Seq::<char>::empty(),
            final(self).input.mode_spec() == crate::input::InputMode::Normal,
    {
        self.input.cancel_edit();
    }

    /// Types one character into the input buffer; the byte cap of the
    /// active format is enforced with no partial insert.
    pub fn input_char(&mut self, c: char) -> (r: Result<(), SessionError>)
        requires
            old(self).well_formed(),
        ensures
            final(self).well_formed(),
            *final(self) == (App { input: final(self).input, ..*old(self) }),
            r is Ok <==> crate::input::utf8_len(old(self).input@) + vstd::utf8::encode_scalar(
                c as u32,
            ).len() <= (match old(self).data_format {
                DataFormat::Hex => crate::input::MAX_HEX_INPUT_LEN as int,
                DataFormat::Text => crate::input::MAX_INPUT_LEN as int,
            }),
            r is Ok ==> final(self).input@ == old(self).input@.insert(
                old(self).input.cursor_pos(),
                c,
            ),
            r is Err ==> final(self).input@ == old(self).input@ && r == Result::<
                (),
                SessionError,
            >::Err(SessionError::InputTooLong),
    {
        let cap = self.data_format.max_input_bytes();
        if self.input.insert_char(c, cap) {
            Ok(())
        } else {
            Err(SessionError::InputTooLong)
        }
    }

    /// Commits the input buffer: leaves editing mode, clears the
    /// buffer and hands the text to the caller.
    pub fn commit_input(&mut self) -> (r: String)
        requires
            old(self).well_formed(),
        ensures
            final(self).well_formed(),
            *final(self) == (App { input: final(self).input, ..*old(self) }),
            r@ == old(self).input@,
            final(self).input@ == Seq::<char>::empty(),
            final(self).input.mode_spec() == crate::input::InputMode::Normal,
    {
        self.input.commit_edit()
    }
}

} // verus!
