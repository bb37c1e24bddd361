//! The engine: one state machine that owns the session with the device.
//!
//! The engine performs no input or output itself. It is handed events (a
//! command from the client, the outcome of an operation, the time of a tick)
//! and answers each with its next state and a list of effects: responses for
//! the client and operations for whoever drives the engine to perform on the
//! device and the files. The driver performs the effects in order and hands
//! the outcome of each back as an event before it goes on to the next.
//!
//! A tick runs in a fixed order: a pending command first, then a read from
//! the device, then one step of the transfer pacer, then a scan of the
//! devices when one is due.

use crate::link::DataBits;
use crate::link::FlowControl;
use crate::link::LinkSettings;
use crate::link::Parity;
use crate::link::StopBits;
use crate::link::quantum_bytes;
use crate::pacer::Transfer;
use crate::protocol::CommandView;
use crate::protocol::ReadBytes;
use crate::protocol::ResponseView;
use crate::protocol::SerialCommand;
use crate::protocol::SerialResponse;
use crate::protocol::names_view;
use crate::scanner::contains_name;
use crate::scanner::copy_names;
use crate::scanner::same_names;
use crate::scanner::sort_names;
use crate::scanner::sorted_names;
use crate::text::decimal;
use crate::text::decimal_string;
use std::path::PathBuf;
use vstd::prelude::*;
use vstd::slice::slice_to_vec;
use vstd::string::StringExecFns;

verus! {

/// The periods and thresholds that the engine works with.
#[derive(Clone, Copy, Debug, PartialEq, Eq, Structural)]
pub struct Config {
    /// Length of a tick in milliseconds; the pacer sends at most once per
    /// quantum.
    pub quantum_ms: u32,
    /// Milliseconds between two scans of the devices.
    pub scan_interval_ms: u32,
    /// Percentage points by which progress must grow before it is reported
    /// again.
    pub progress_step: u8,
}

impl Config {
    /// Ticks of 10 ms, a scan every 5 s, progress in steps of 5 points.
    pub open spec fn standard() -> Config {
        Config { quantum_ms: 10, scan_interval_ms: 5000, progress_step: 5 }
    }
}

impl Default for Config {
    fn default() -> (config: Config)
        ensures
            config == Config::standard(),
    {
        Config { quantum_ms: 10, scan_interval_ms: 5000, progress_step: 5 }
    }
}

/// Why the driver is asked to open a device.
#[derive(Clone, Copy, Debug, PartialEq, Eq, Structural)]
pub enum OpenPurpose {
    /// The client asked to connect.
    Connect,
    /// The client asked to move the open session to another device.
    Switch,
}

/// One link setting to apply to the open device.
#[derive(Clone, Copy, Debug, PartialEq, Eq, Structural)]
pub enum Setting {
    BaudRate(u32),
    DataBits(DataBits),
    FlowControl(FlowControl),
    Parity(Parity),
    StopBits(StopBits),
}

/// Why a device could not be opened.
#[derive(Debug, PartialEq, Eq)]
pub enum OpenError {
    /// The device does not exist or somebody else holds it.
    NoDevice,
    /// Any other failure, with the description that came with it.
    Other(String),
}

/// What the engine is told.
#[derive(Debug, PartialEq, Eq)]
pub enum Event {
    /// The client sent this command.
    Command(SerialCommand),
    /// The device of this name was opened, in answer to `OpenDevice`.
    DeviceOpened { name: String },
    /// The device of this name could not be opened, in answer to
    /// `OpenDevice` with this purpose.
    DeviceOpenFailed { name: String, purpose: OpenPurpose, error: OpenError },
    /// The open device refused a setting, in answer to `Apply`.
    SettingRejected(String),
    /// The source file was opened and has this many bytes, in answer to
    /// `OpenSource`.
    SourceOpened { total: u64 },
    /// The source file could not be opened, in answer to `OpenSource`.
    SourceOpenFailed(String),
    /// The log file was created, in answer to `OpenLog`.
    LogOpened,
    /// The log file could not be created, in answer to `OpenLog`.
    LogOpenFailed(String),
    /// A tick begins at this time, in milliseconds since the engine started.
    Tick { now_ms: u64 },
    /// The device delivered these bytes, in answer to `ReadDevice`.
    Received(Vec<u8>),
    /// The outcome of reading the source file, in answer to `ReadSource`.
    SourceRead(ReadBytes),
    /// The chunk of this length could not be written to the device, in
    /// answer to `WriteChunk`.
    ChunkWriteFailed { len: usize },
    /// The system lists these devices, in answer to `Enumerate`.
    PortsEnumerated(Vec<String>),
}

/// What the engine asks of its driver.
#[derive(Debug, PartialEq, Eq)]
pub enum Effect {
    /// Queue this response for the client and wake the client.
    Respond(SerialResponse),
    /// Open the named device with these settings; on success it replaces
    /// the device that was open.
    OpenDevice { name: String, settings: LinkSettings, purpose: OpenPurpose },
    CloseDevice,
    /// Apply this setting to the open device.
    Apply(Setting),
    /// Write these bytes to the open device; a failure is of no interest.
    WriteDevice(Vec<u8>),
    /// Read what the device has received, without waiting for more.
    ReadDevice,
    /// Open the file at this path for reading and take its size; on success
    /// it replaces the source that was open.
    OpenSource(PathBuf),
    /// Read up to this many bytes from the source.
    ReadSource { limit: u64 },
    /// Write the bytes that were just read from the source, this many, to
    /// the device.
    WriteChunk { len: usize },
    CloseSource,
    /// Create the file at this path, emptying it if it exists; on success it
    /// replaces the log that was open.
    OpenLog(PathBuf),
    /// Append these bytes to the log.
    AppendLog(Vec<u8>),
    CloseLog,
    /// List the devices of the system.
    Enumerate,
}

/// An open failure with its description as a sequence.
pub enum OpenErrorView {
    NoDevice,
    Other(Seq<char>),
}

/// An event with its strings and bytes as sequences.
pub enum EventView {
    Command(CommandView),
    DeviceOpened { name: Seq<char> },
    DeviceOpenFailed { name: Seq<char>, purpose: OpenPurpose, error: OpenErrorView },
    SettingRejected(Seq<char>),
    SourceOpened { total: u64 },
    SourceOpenFailed(Seq<char>),
    LogOpened,
    LogOpenFailed(Seq<char>),
    Tick { now_ms: u64 },
    Received(Seq<u8>),
    SourceRead(ReadBytes),
    ChunkWriteFailed { len: usize },
    PortsEnumerated(Seq<Seq<char>>),
}

/// An effect with its strings and bytes as sequences.
pub enum EffectView {
    Respond(ResponseView),
    OpenDevice { name: Seq<char>, settings: LinkSettings, purpose: OpenPurpose },
    CloseDevice,
    Apply(Setting),
    WriteDevice(Seq<u8>),
    ReadDevice,
    OpenSource(PathBuf),
    ReadSource { limit: u64 },
    WriteChunk { len: usize },
    CloseSource,
    OpenLog(PathBuf),
    AppendLog(Seq<u8>),
    CloseLog,
    Enumerate,
}

impl View for OpenError {
    type V = OpenErrorView;

    open spec fn view(&self) -> OpenErrorView {
        match *self {
            OpenError::NoDevice => OpenErrorView::NoDevice,
            OpenError::Other(description) => OpenErrorView::Other(description@),
        }
    }
}

impl View for Event {
    type V = EventView;

    open spec fn view(&self) -> EventView {
        match *self {
            Event::Command(command) => EventView::Command(command@),
            Event::DeviceOpened { name } => EventView::DeviceOpened { name: name@ },
            Event::DeviceOpenFailed { name, purpose, error } => EventView::DeviceOpenFailed {
                name: name@,
                purpose,
                error: error@,
            },
            Event::SettingRejected(reason) => EventView::SettingRejected(reason@),
            Event::SourceOpened { total } => EventView::SourceOpened { total },
            Event::SourceOpenFailed(reason) => EventView::SourceOpenFailed(reason@),
            Event::LogOpened => EventView::LogOpened,
            Event::LogOpenFailed(reason) => EventView::LogOpenFailed(reason@),
            Event::Tick { now_ms } => EventView::Tick { now_ms },
            Event::Received(data) => EventView::Received(data@),
            Event::SourceRead(read) => EventView::SourceRead(read),
            Event::ChunkWriteFailed { len } => EventView::ChunkWriteFailed { len },
            Event::PortsEnumerated(names) => EventView::PortsEnumerated(names_view(names@)),
        }
    }
}

impl View for Effect {
    type V = EffectView;

    open spec fn view(&self) -> EffectView {
        match *self {
            Effect::Respond(response) => EffectView::Respond(response@),
            Effect::OpenDevice { name, settings, purpose } => EffectView::OpenDevice {
                name: name@,
                settings,
                purpose,
            },
            Effect::CloseDevice => EffectView::CloseDevice,
            Effect::Apply(setting) => EffectView::Apply(setting),
            Effect::WriteDevice(data) => EffectView::WriteDevice(data@),
            Effect::ReadDevice => EffectView::ReadDevice,
            Effect::OpenSource(path) => EffectView::OpenSource(path),
            Effect::ReadSource { limit } => EffectView::ReadSource { limit },
            Effect::WriteChunk { len } => EffectView::WriteChunk { len },
            Effect::CloseSource => EffectView::CloseSource,
            Effect::OpenLog(path) => EffectView::OpenLog(path),
            Effect::AppendLog(data) => EffectView::AppendLog(data@),
            Effect::CloseLog => EffectView::CloseLog,
            Effect::Enumerate => EffectView::Enumerate,
        }
    }
}

/// The views of a list of effects.
pub open spec fn effects_view(effects: Seq<Effect>) -> Seq<EffectView> {
    effects.map_values(|effect: Effect| effect@)
}

/// The error text for a file operation that was asked for with no device
/// open.
pub open spec fn no_device_message() -> Seq<char> {
    "no open device"@
}

/// The error text for a connect to a device that is missing or taken.
pub open spec fn unavailable_message(name: Seq<char>) -> Seq<char> {
    "Port '"@ + name + "' is already in use or doesn't exist"@
}

/// The error text for a move to a device that could not be opened.
pub open spec fn switch_failed_message(name: Seq<char>) -> Seq<char> {
    "Failed to open port '"@ + name + "'"@
}

/// The error text for a chunk of `len` bytes that the device did not take.
pub open spec fn chunk_failed_message(len: nat) -> Seq<char> {
    "Failed to send "@ + decimal(len) + " bytes"@
}

/// Milliseconds from `last` to `now`; none if the clock went back.
pub open spec fn elapsed_ms(now: u64, last: u64) -> int {
    if now >= last {
        now - last
    } else {
        0
    }
}

/// The session with an open device as the contracts see it. A transfer and a
/// log exist only inside a session, so neither can outlive the device.
pub struct ConnectionView {
    /// The name the device was opened under.
    pub name: Seq<char>,
    /// The running file transfer, if there is one.
    pub transfer: Option<Transfer>,
    /// Whether received bytes are copied to a log file.
    pub logging: bool,
}

/// The state of the engine as the contracts see it.
pub struct EngineView {
    pub config: Config,
    /// The link settings, each field as it was last set.
    pub settings: LinkSettings,
    /// The session with the open device, if a device is open.
    pub connection: Option<ConnectionView>,
    /// The list of devices as it was last reported to the client.
    pub snapshot: Option<Seq<Seq<char>>>,
    /// Time of the latest tick.
    pub now_ms: u64,
    /// Time of the tick in which the pacer last sent a chunk.
    pub last_send_ms: u64,
    /// Time of the tick in which the devices were last scanned.
    pub last_scan_ms: u64,
}

impl EngineView {
    /// The engine before its first event: default link settings, nothing
    /// open, nothing reported, the clock at zero.
    pub open spec fn initial(config: Config) -> EngineView {
        EngineView {
            config,
            settings: LinkSettings::initial(),
            connection: None,
            snapshot: None,
            now_ms: 0,
            last_send_ms: 0,
            last_scan_ms: 0,
        }
    }

    /// Whether a device is open.
    pub open spec fn connected(self) -> bool {
        self.connection is Some
    }

    /// Whether a file transfer is running.
    pub open spec fn transferring(self) -> bool {
        self.connection matches Some(connection) && connection.transfer is Some
    }

    /// Whether received bytes are copied to a log file.
    pub open spec fn logging(self) -> bool {
        self.connection matches Some(connection) && connection.logging
    }

    /// Whether a transfer is running and awaits the chunk, of at least one
    /// byte, that the running tick asked for.
    pub open spec fn awaiting_chunk(self) -> bool {
        self.connection matches Some(connection) && connection.transfer matches Some(transfer)
            && transfer.awaits_bytes()
    }

    /// The same state with no device open, and so with no transfer and no
    /// log.
    pub open spec fn disconnected(self) -> EngineView {
        EngineView { connection: None, ..self }
    }

    /// The same state with these link settings.
    pub open spec fn with_settings(self, settings: LinkSettings) -> EngineView {
        EngineView { settings, ..self }
    }

    /// The same state with the transfer replaced.
    pub open spec fn with_transfer(self, transfer: Option<Transfer>) -> EngineView {
        match self.connection {
            Some(connection) => EngineView {
                connection: Some(ConnectionView { transfer, ..connection }),
                ..self
            },
            None => self,
        }
    }

    /// The same state with logging switched.
    pub open spec fn with_logging(self, logging: bool) -> EngineView {
        match self.connection {
            Some(connection) => EngineView {
                connection: Some(ConnectionView { logging, ..connection }),
                ..self
            },
            None => self,
        }
    }

    /// The effects that close what the session holds: the source of a
    /// running transfer, the log, and the device. Nothing if no device is
    /// open.
    pub open spec fn release(self) -> Seq<EffectView> {
        match self.connection {
            Some(connection) => {
                let source = if connection.transfer is Some {
                    seq![EffectView::CloseSource]
                } else {
                    seq![]
                };
                let log = if connection.logging {
                    seq![EffectView::CloseLog]
                } else {
                    seq![]
                };
                source + log + seq![EffectView::CloseDevice]
            },
            None => seq![],
        }
    }

    /// A setting is stored whether or not a device is open, and applied to
    /// the device if one is.
    pub open spec fn change(self, settings: LinkSettings, setting: Setting) -> (
        EngineView,
        Seq<EffectView>,
    ) {
        (
            self.with_settings(settings),
            if self.connected() {
                seq![EffectView::Apply(setting)]
            } else {
                seq![]
            },
        )
    }

    /// The next state and the effects of a command.
    pub open spec fn on_command(self, command: CommandView) -> (EngineView, Seq<EffectView>) {
        match command {
            CommandView::CancelSendFile => (
                self.with_transfer(None),
                if self.transferring() {
                    seq![
                        EffectView::CloseSource,
                        EffectView::Respond(ResponseView::SendingFileCanceled),
                    ]
                } else {
                    seq![EffectView::Respond(ResponseView::SendingFileCanceled)]
                },
            ),
            CommandView::ChangeBaud(baud) => self.change(
                LinkSettings { baud_rate: baud, ..self.settings },
                Setting::BaudRate(baud),
            ),
            CommandView::ChangeDataBits(data_bits) => self.change(
                LinkSettings { data_bits, ..self.settings },
                Setting::DataBits(data_bits),
            ),
            CommandView::ChangeFlowControl(flow_control) => self.change(
                LinkSettings { flow_control, ..self.settings },
                Setting::FlowControl(flow_control),
            ),
            CommandView::ChangeStopBits(stop_bits) => self.change(
                LinkSettings { stop_bits, ..self.settings },
                Setting::StopBits(stop_bits),
            ),
            CommandView::ChangeParity(parity) => self.change(
                LinkSettings { parity, ..self.settings },
                Setting::Parity(parity),
            ),
            CommandView::ChangePort(name) => (
                self,
                if self.connected() {
                    seq![
                        EffectView::OpenDevice {
                            name,
                            settings: self.settings,
                            purpose: OpenPurpose::Switch,
                        },
                    ]
                } else {
                    seq![]
                },
            ),
            CommandView::ConnectToPort { name, baud } => {
                let settings = LinkSettings { baud_rate: baud, ..self.settings };
                (
                    self.with_settings(settings),
                    seq![EffectView::OpenDevice { name, settings, purpose: OpenPurpose::Connect }],
                )
            },
            CommandView::Disconnect => (
                self.disconnected(),
                self.release() + seq![EffectView::Respond(ResponseView::DisconnectSuccess)],
            ),
            CommandView::SendData(data) => (
                self,
                if self.connected() {
                    seq![EffectView::WriteDevice(data)]
                } else {
                    seq![]
                },
            ),
            CommandView::SendFile(path) => (
                self,
                if self.connected() {
                    seq![EffectView::OpenSource(path)]
                } else {
                    seq![
                        EffectView::Respond(ResponseView::SendingFileError(no_device_message())),
                    ]
                },
            ),
            CommandView::LogToFile(path) => (
                self,
                if self.connected() {
                    seq![EffectView::OpenLog(path)]
                } else {
                    seq![EffectView::Respond(ResponseView::LogToFileError(no_device_message()))]
                },
            ),
            CommandView::CancelLogToFile => (
                self.with_logging(false),
                if self.logging() {
                    seq![
                        EffectView::CloseLog,
                        EffectView::Respond(ResponseView::LoggingFileCanceled),
                    ]
                } else {
                    seq![EffectView::Respond(ResponseView::LoggingFileCanceled)]
                },
            ),
        }
    }

    /// A device that was opened becomes the device of the session. A
    /// transfer and a log that were running go on with the new device.
    pub open spec fn on_device_opened(self, name: Seq<char>) -> (EngineView, Seq<EffectView>) {
        let connection = match self.connection {
            Some(connection) => ConnectionView { name, ..connection },
            None => ConnectionView { name, transfer: None, logging: false },
        };
        (
            EngineView { connection: Some(connection), ..self },
            seq![EffectView::Respond(ResponseView::OpenPortSuccess(name))],
        )
    }

    /// A failed connect is reported and changes nothing. A failed move to
    /// another device ends the session.
    pub open spec fn on_device_open_failed(
        self,
        name: Seq<char>,
        purpose: OpenPurpose,
        error: OpenErrorView,
    ) -> (EngineView, Seq<EffectView>) {
        match purpose {
            OpenPurpose::Connect => (
                self,
                seq![
                    EffectView::Respond(
                        ResponseView::OpenPortError(
                            match error {
                                OpenErrorView::NoDevice => unavailable_message(name),
                                OpenErrorView::Other(description) => description,
                            },
                        ),
                    ),
                ],
            ),
            OpenPurpose::Switch => (
                self.disconnected(),
                self.release() + seq![
                    EffectView::Respond(ResponseView::OpenPortError(switch_failed_message(name))),
                ],
            ),
        }
    }

    /// A source that was opened starts a transfer, in place of one that was
    /// running. With no device open it is closed again.
    pub open spec fn on_source_opened(self, total: u64) -> (EngineView, Seq<EffectView>) {
        if self.connected() {
            (
                self.with_transfer(Some(Transfer::started(total))),
                seq![EffectView::Respond(ResponseView::SendingFileStarted)],
            )
        } else {
            (
                self,
                seq![
                    EffectView::CloseSource,
                    EffectView::Respond(ResponseView::SendingFileError(no_device_message())),
                ],
            )
        }
    }

    /// A log that was created receives what the device delivers from now on.
    /// With no device open it is closed again.
    pub open spec fn on_log_opened(self) -> (EngineView, Seq<EffectView>) {
        if self.connected() {
            (self.with_logging(true), seq![])
        } else {
            (
                self,
                seq![
                    EffectView::CloseLog,
                    EffectView::Respond(ResponseView::LogToFileError(no_device_message())),
                ],
            )
        }
    }

    /// Whether the pacer sends in a tick at time `now_ms`: a transfer is
    /// running and a quantum has passed since it last sent.
    pub open spec fn pacer_due(self, now_ms: u64) -> bool {
        self.transferring() && elapsed_ms(now_ms, self.last_send_ms) >= self.config.quantum_ms
    }

    /// Whether a tick at time `now_ms` scans the devices.
    pub open spec fn scan_due(self, now_ms: u64) -> bool {
        elapsed_ms(now_ms, self.last_scan_ms) >= self.config.scan_interval_ms
    }

    /// The chunk that a tick at time `now_ms` allows the pacer: a quantum's
    /// worth of bytes if the pacer is due and the link carries at least one
    /// byte in a quantum, none otherwise. Over a link that carries less, no
    /// read is asked for: the transfer rests until the link is set faster,
    /// the transfer is canceled or the session ends.
    pub open spec fn chunk_allowed(self, now_ms: u64) -> Option<u64> {
        if self.pacer_due(now_ms) && quantum_bytes(self.settings, self.config.quantum_ms) >= 1 {
            Some(quantum_bytes(self.settings, self.config.quantum_ms) as u64)
        } else {
            None
        }
    }

    /// The work of a tick: read the device if one is open, read a quantum's
    /// worth of the source if the pacer is due, list the devices if a scan
    /// is due. A running transfer awaits the chunk that the tick asks for,
    /// and no chunk if the tick asks for none.
    pub open spec fn on_tick(self, now_ms: u64) -> (EngineView, Seq<EffectView>) {
        let read = if self.connected() {
            seq![EffectView::ReadDevice]
        } else {
            seq![]
        };
        let pace = match self.chunk_allowed(now_ms) {
            Some(limit) => seq![EffectView::ReadSource { limit }],
            None => seq![],
        };
        let scan = if self.scan_due(now_ms) {
            seq![EffectView::Enumerate]
        } else {
            seq![]
        };
        let paced = match self.connection {
            Some(ConnectionView { transfer: Some(transfer), .. }) => self.with_transfer(
                Some(transfer.awaiting(self.chunk_allowed(now_ms))),
            ),
            _ => self,
        };
        (
            EngineView {
                now_ms,
                last_scan_ms: if self.scan_due(now_ms) {
                    now_ms
                } else {
                    self.last_scan_ms
                },
                ..paced
            },
            read + pace + scan,
        )
    }

    /// Bytes from the device go to the client and, if a log is open, to the
    /// log.
    pub open spec fn on_received(self, data: Seq<u8>) -> (EngineView, Seq<EffectView>) {
        if self.connected() && data.len() > 0 {
            (
                self,
                seq![EffectView::Respond(ResponseView::Data(data))] + if self.logging() {
                    seq![EffectView::AppendLog(data)]
                } else {
                    seq![]
                },
            )
        } else {
            (self, seq![])
        }
    }

    /// The outcome of a read counts only while the transfer awaits the chunk
    /// of a tick, which is a chunk of at least one byte: an outcome that no
    /// tick asked for changes nothing. A chunk that was read is taken as far
    /// as the tick allowed,
    /// counted, reported if progress is due, and written to the device. The
    /// end of the source, or a failure to read it, completes the transfer. A
    /// read that was not attempted leaves the transfer waiting for the next
    /// tick.
    pub open spec fn on_source_read(self, read: ReadBytes) -> (EngineView, Seq<EffectView>) {
        match self.connection {
            Some(ConnectionView { transfer: Some(transfer), .. }) => if transfer.awaits_bytes() {
                match read {
                    ReadBytes::Bytes(len) => {
                        let taken = transfer.allowed(len);
                        (
                            EngineView {
                                last_send_ms: self.now_ms,
                                ..self.with_transfer(
                                    Some(transfer.after_chunk(taken, self.config.progress_step)),
                                )
                            },
                            match transfer.report_after(taken, self.config.progress_step) {
                                Some(percent) => seq![
                                    EffectView::Respond(ResponseView::SendingFileProgress(percent)),
                                    EffectView::WriteChunk { len: taken },
                                ],
                                None => seq![EffectView::WriteChunk { len: taken }],
                            },
                        )
                    },
                    ReadBytes::EndOfFile | ReadBytes::FileError => (
                        self.with_transfer(None),
                        seq![
                            EffectView::CloseSource,
                            EffectView::Respond(ResponseView::SendingFileComplete),
                        ],
                    ),
                    ReadBytes::NoAttempt => (
                        self.with_transfer(Some(transfer.awaiting(None))),
                        seq![],
                    ),
                }
            } else {
                (self, seq![])
            },
            _ => (self, seq![]),
        }
    }

    /// A chunk that the device did not take ends the transfer with an error.
    pub open spec fn on_chunk_write_failed(self, len: usize) -> (EngineView, Seq<EffectView>) {
        if self.transferring() {
            (
                self.with_transfer(None),
                seq![
                    EffectView::CloseSource,
                    EffectView::Respond(
                        ResponseView::SendingFileError(chunk_failed_message(len as nat)),
                    ),
                ],
            )
        } else {
            (self, seq![])
        }
    }

    /// Whether the open device is missing from a sorted list of devices.
    pub open spec fn unplugged(self, list: Seq<Seq<char>>) -> bool {
        self.connection matches Some(connection) && !list.contains(connection.name)
    }

    /// A scan is sorted and then compared. If the open device is not in it,
    /// the session ends and the client is told so. Otherwise the list is
    /// reported if it differs from the one reported last.
    pub open spec fn on_ports_enumerated(self, names: Seq<Seq<char>>) -> (
        EngineView,
        Seq<EffectView>,
    ) {
        let list = sorted_names(names);
        if self.unplugged(list) {
            (
                EngineView { snapshot: Some(list), ..self.disconnected() },
                self.release() + seq![
                    EffectView::Respond(ResponseView::UnexpectedDisconnection(list)),
                ],
            )
        } else if self.snapshot != Some(list) {
            (
                EngineView { snapshot: Some(list), ..self },
                seq![EffectView::Respond(ResponseView::PortsFound(list))],
            )
        } else {
            (self, seq![])
        }
    }

    /// The next state and the effects of an event.
    pub open spec fn step(self, event: EventView) -> (EngineView, Seq<EffectView>) {
        match event {
            EventView::Command(command) => self.on_command(command),
            EventView::DeviceOpened { name } => self.on_device_opened(name),
            EventView::DeviceOpenFailed { name, purpose, error } => self.on_device_open_failed(
                name,
                purpose,
                error,
            ),
            EventView::SettingRejected(reason) => (
                self,
                seq![EffectView::Respond(ResponseView::OpenPortError(reason))],
            ),
            EventView::SourceOpened { total } => self.on_source_opened(total),
            EventView::SourceOpenFailed(reason) => (
                self,
                seq![EffectView::Respond(ResponseView::SendingFileError(reason))],
            ),
            EventView::LogOpened => self.on_log_opened(),
            EventView::LogOpenFailed(reason) => (
                self,
                seq![EffectView::Respond(ResponseView::LogToFileError(reason))],
            ),
            EventView::Tick { now_ms } => self.on_tick(now_ms),
            EventView::Received(data) => self.on_received(data),
            EventView::SourceRead(read) => self.on_source_read(read),
            EventView::ChunkWriteFailed { len } => self.on_chunk_write_failed(len),
            EventView::PortsEnumerated(names) => self.on_ports_enumerated(names),
        }
    }

    /// The state after a sequence of events, each handled in turn.
    pub open spec fn run(self, events: Seq<EventView>) -> EngineView
        decreases events.len(),
    {
        if events.len() == 0 {
            self
        } else {
            self.run(events.drop_last()).step(events.last()).0
        }
    }
}

/// The session with an open device.
#[derive(Debug)]
struct Connection {
    name: String,
    transfer: Option<Transfer>,
    logging: bool,
}

impl View for Connection {
    type V = ConnectionView;

    closed spec fn view(&self) -> ConnectionView {
        ConnectionView { name: self.name@, transfer: self.transfer, logging: self.logging }
    }
}

/// The engine: the link settings, the session with the open device, the
/// list of devices that was reported last, and the times that the pacer and
/// the scanner go by.
#[derive(Debug)]
pub struct Engine {
    config: Config,
    settings: LinkSettings,
    connection: Option<Connection>,
    snapshot: Option<Vec<String>>,
    now_ms: u64,
    last_send_ms: u64,
    last_scan_ms: u64,
}

impl View for Engine {
    type V = EngineView;

    closed spec fn view(&self) -> EngineView {
        EngineView {
            config: self.config,
            settings: self.settings,
            connection: match self.connection {
                Some(connection) => Some(connection@),
                None => None,
            },
            snapshot: match self.snapshot {
                Some(names) => Some(names_view(names@)),
                None => None,
            },
            now_ms: self.now_ms,
            last_send_ms: self.last_send_ms,
            last_scan_ms: self.last_scan_ms,
        }
    }
}

/// Appends an effect to a list of effects.
fn emit(effects: &mut Vec<Effect>, effect: Effect)
    ensures
        effects_view(final(effects)@) == effects_view(old(effects)@).push(effect@),
{
    effects.push(effect);
    assert(effects_view(effects@) =~= effects_view(old(effects)@).push(effect@));
}

/// Appends a response to a list of effects.
fn respond(effects: &mut Vec<Effect>, response: SerialResponse)
    ensures
        effects_view(final(effects)@) == effects_view(old(effects)@).push(
            EffectView::Respond(response@),
        ),
{
    emit(effects, Effect::Respond(response));
}

/// A list of effects with nothing in it.
fn no_effects() -> (effects: Vec<Effect>)
    ensures
        effects_view(effects@) == Seq::<EffectView>::empty(),
{
    let effects: Vec<Effect> = Vec::new();
    assert(effects_view(effects@) =~= Seq::<EffectView>::empty());
    effects
}

/// The text that says that no device is open.
fn no_device_text() -> (text: String)
    ensures
        text@ == no_device_message(),
{
    String::from_str("no open device")
}

/// The text that says that a device is missing or taken.
fn unavailable_text(name: &String) -> (text: String)
    ensures
        text@ == unavailable_message(name@),
{
    String::from_str("Port '").concat(name.as_str()).concat("' is already in use or doesn't exist")
}

/// The text that says that a move to another device failed.
fn switch_failed_text(name: &String) -> (text: String)
    ensures
        text@ == switch_failed_message(name@),
{
    String::from_str("Failed to open port '").concat(name.as_str()).concat("'")
}

/// The text that says that a chunk was not written.
fn chunk_failed_text(len: usize) -> (text: String)
    ensures
        text@ == chunk_failed_message(len as nat),
{
    let digits = decimal_string(len as u64);
    String::from_str("Failed to send ").concat(digits.as_str()).concat(" bytes")
}

impl Default for Engine {
    fn default() -> (engine: Engine)
        ensures
            engine@ == EngineView::initial(Config::standard()),
    {
        Engine::new()
    }
}

impl Engine {
    /// An engine with the standard periods and thresholds.
    pub fn new() -> (engine: Engine)
        ensures
            engine@ == EngineView::initial(Config::standard()),
    {
        Engine::with_config(Config::default())
    }

    /// An engine with the given periods and thresholds.
    pub fn with_config(config: Config) -> (engine: Engine)
        ensures
            engine@ == EngineView::initial(config),
    {
        Engine {
            config,
            settings: LinkSettings::default(),
            connection: None,
            snapshot: None,
            now_ms: 0,
            last_send_ms: 0,
            last_scan_ms: 0,
        }
    }

    /// The periods and thresholds of this engine.
    pub fn config(&self) -> (config: Config)
        ensures
            config == self@.config,
    {
        self.config
    }

    /// The link settings, each field as it was last set.
    pub fn settings(&self) -> (settings: LinkSettings)
        ensures
            settings == self@.settings,
    {
        self.settings
    }

    /// Whether a device is open.
    pub fn is_connected(&self) -> (connected: bool)
        ensures
            connected == self@.connected(),
    {
        self.connection.is_some()
    }

    /// The name of the open device.
    pub fn device(&self) -> (name: Option<String>)
        ensures
            match name {
                Some(name) => self@.connection matches Some(connection) && connection.name
                    == name@,
                None => self@.connection is None,
            },
    {
        match &self.connection {
            Some(connection) => Some(connection.name.clone()),
            None => None,
        }
    }

    /// The counters of the running transfer.
    pub fn transfer(&self) -> (transfer: Option<Transfer>)
        ensures
            transfer == match self@.connection {
                Some(connection) => connection.transfer,
                None => None,
            },
    {
        match &self.connection {
            Some(connection) => connection.transfer,
            None => None,
        }
    }

    /// Whether a file transfer is running.
    pub fn is_transferring(&self) -> (transferring: bool)
        ensures
            transferring == self@.transferring(),
    {
        self.transfer().is_some()
    }

    /// Whether received bytes are copied to a log file.
    pub fn is_logging(&self) -> (logging: bool)
        ensures
            logging == self@.logging(),
    {
        match &self.connection {
            Some(connection) => connection.logging,
            None => false,
        }
    }

    /// The list of devices that was reported last.
    pub fn snapshot(&self) -> (list: Option<Vec<String>>)
        ensures
            match list {
                Some(list) => self@.snapshot == Some(names_view(list@)),
                None => self@.snapshot is None,
            },
    {
        match &self.snapshot {
            Some(names) => Some(copy_names(names)),
            None => None,
        }
    }

    /// Replaces the transfer of the session, if there is a session.
    fn set_transfer(&mut self, transfer: Option<Transfer>)
        ensures
            final(self)@ == old(self)@.with_transfer(transfer),
    {
        match self.connection.take() {
            Some(connection) => {
                self.connection = Some(
                    Connection { name: connection.name, transfer, logging: connection.logging },
                );
            },
            None => {},
        }
    }

    /// Switches logging of the session, if there is a session.
    fn set_logging(&mut self, logging: bool)
        ensures
            final(self)@ == old(self)@.with_logging(logging),
    {
        match self.connection.take() {
            Some(connection) => {
                self.connection = Some(
                    Connection { name: connection.name, transfer: connection.transfer, logging },
                );
            },
            None => {},
        }
    }

    /// Ends the session and appends the effects that close what it held.
    fn release(&mut self, effects: &mut Vec<Effect>)
        ensures
            final(self)@ == old(self)@.disconnected(),
            effects_view(final(effects)@) == effects_view(old(effects)@) + old(self)@.release(),
    {
        let ghost before = effects_view(effects@);
        match self.connection.take() {
            Some(connection) => {
                if connection.transfer.is_some() {
                    emit(effects, Effect::CloseSource);
                }
                if connection.logging {
                    emit(effects, Effect::CloseLog);
                }
                emit(effects, Effect::CloseDevice);
                assert(effects_view(effects@) =~= before + old(self)@.release());
            },
            None => {
                assert(effects_view(effects@) =~= before + old(self)@.release());
            },
        }
    }

    /// Stores a setting and has it applied to the open device.
    fn change(&mut self, settings: LinkSettings, setting: Setting) -> (effects: Vec<Effect>)
        ensures
            final(self)@ == old(self)@.change(settings, setting).0,
            effects_view(effects@) == old(self)@.change(settings, setting).1,
    {
        let mut effects = no_effects();
        self.settings = settings;
        if self.connection.is_some() {
            emit(&mut effects, Effect::Apply(setting));
        }
        assert(effects_view(effects@) =~= old(self)@.change(settings, setting).1);
        effects
    }

    /// Handles a command of the client.
    pub fn on_command(&mut self, command: SerialCommand) -> (effects: Vec<Effect>)
        ensures
            final(self)@ == old(self)@.on_command(command@).0,
            effects_view(effects@) == old(self)@.on_command(command@).1,
    {
        let ghost expected = old(self)@.on_command(command@).1;
        let connected = self.connection.is_some();
        match command {
            SerialCommand::CancelSendFile => {
                let mut effects = no_effects();
                if self.is_transferring() {
                    emit(&mut effects, Effect::CloseSource);
                }
                self.set_transfer(None);
                respond(&mut effects, SerialResponse::SendingFileCanceled);
                assert(effects_view(effects@) =~= expected);
                effects
            },
            SerialCommand::ChangeBaud(baud) => {
                let settings = LinkSettings { baud_rate: baud, ..self.settings };
                self.change(settings, Setting::BaudRate(baud))
            },
            SerialCommand::ChangeDataBits(data_bits) => {
                let settings = LinkSettings { data_bits, ..self.settings };
                self.change(settings, Setting::DataBits(data_bits))
            },
            SerialCommand::ChangeFlowControl(flow_control) => {
                let settings = LinkSettings { flow_control, ..self.settings };
                self.change(settings, Setting::FlowControl(flow_control))
            },
            SerialCommand::ChangeStopBits(stop_bits) => {
                let settings = LinkSettings { stop_bits, ..self.settings };
                self.change(settings, Setting::StopBits(stop_bits))
            },
            SerialCommand::ChangeParity(parity) => {
                let settings = LinkSettings { parity, ..self.settings };
                self.change(settings, Setting::Parity(parity))
            },
            SerialCommand::ChangePort(name) => {
                let mut effects = no_effects();
                if connected {
                    emit(
                        &mut effects,
                        Effect::OpenDevice {
                            name,
                            settings: self.settings,
                            purpose: OpenPurpose::Switch,
                        },
                    );
                }
                assert(effects_view(effects@) =~= expected);
                effects
            },
            SerialCommand::ConnectToPort { name, baud } => {
                let mut effects = no_effects();
                self.settings = LinkSettings { baud_rate: baud, ..self.settings };
                emit(
                    &mut effects,
                    Effect::OpenDevice {
                        name,
                        settings: self.settings,
                        purpose: OpenPurpose::Connect,
                    },
                );
                assert(effects_view(effects@) =~= expected);
                effects
            },
            SerialCommand::Disconnect => {
                let mut effects = no_effects();
                self.release(&mut effects);
                respond(&mut effects, SerialResponse::DisconnectSuccess);
                assert(effects_view(effects@) =~= expected);
                effects
            },
            SerialCommand::SendData(data) => {
                let mut effects = no_effects();
                if connected {
                    emit(&mut effects, Effect::WriteDevice(data));
                }
                assert(effects_view(effects@) =~= expected);
                effects
            },
            SerialCommand::SendFile(path) => {
                let mut effects = no_effects();
                if connected {
                    emit(&mut effects, Effect::OpenSource(path));
                } else {
                    respond(&mut effects, SerialResponse::SendingFileError(no_device_text()));
                }
                assert(effects_view(effects@) =~= expected);
                effects
            },
            SerialCommand::LogToFile(path) => {
                let mut effects = no_effects();
                if connected {
                    emit(&mut effects, Effect::OpenLog(path));
                } else {
                    respond(&mut effects, SerialResponse::LogToFileError(no_device_text()));
                }
                assert(effects_view(effects@) =~= expected);
                effects
            },
            SerialCommand::CancelLogToFile => {
                let mut effects = no_effects();
                if self.is_logging() {
                    emit(&mut effects, Effect::CloseLog);
                }
                self.set_logging(false);
                respond(&mut effects, SerialResponse::LoggingFileCanceled);
                assert(effects_view(effects@) =~= expected);
                effects
            },
        }
    }

    /// Takes note that the device `name` was opened.
    pub fn on_device_opened(&mut self, name: String) -> (effects: Vec<Effect>)
        ensures
            final(self)@ == old(self)@.on_device_opened(name@).0,
            effects_view(effects@) == old(self)@.on_device_opened(name@).1,
    {
        let mut effects = no_effects();
        let held = name.clone();
        let connection = match self.connection.take() {
            Some(connection) => Connection {
                name: held,
                transfer: connection.transfer,
                logging: connection.logging,
            },
            None => Connection { name: held, transfer: None, logging: false },
        };
        self.connection = Some(connection);
        respond(&mut effects, SerialResponse::OpenPortSuccess(name));
        assert(effects_view(effects@) =~= old(self)@.on_device_opened(name@).1);
        effects
    }

    /// Takes note that the device `name` could not be opened.
    pub fn on_device_open_failed(
        &mut self,
        name: String,
        purpose: OpenPurpose,
        error: OpenError,
    ) -> (effects: Vec<Effect>)
        ensures
            final(self)@ == old(self)@.on_device_open_failed(name@, purpose, error@).0,
            effects_view(effects@) == old(self)@.on_device_open_failed(name@, purpose, error@).1,
    {
        let ghost expected = old(self)@.on_device_open_failed(name@, purpose, error@).1;
        let mut effects = no_effects();
        match purpose {
            OpenPurpose::Connect => {
                let reason = match error {
                    OpenError::NoDevice => unavailable_text(&name),
                    OpenError::Other(description) => description,
                };
                respond(&mut effects, SerialResponse::OpenPortError(reason));
            },
            OpenPurpose::Switch => {
                self.release(&mut effects);
                respond(&mut effects, SerialResponse::OpenPortError(switch_failed_text(&name)));
            },
        }
        assert(effects_view(effects@) =~= expected);
        effects
    }

    /// Takes note that the open device refused a setting.
    pub fn on_setting_rejected(&mut self, reason: String) -> (effects: Vec<Effect>)
        ensures
            final(self)@ == old(self)@,
            effects_view(effects@) == seq![
                EffectView::Respond(ResponseView::OpenPortError(reason@)),
            ],
    {
        let mut effects = no_effects();
        respond(&mut effects, SerialResponse::OpenPortError(reason));
        assert(effects_view(effects@) =~= seq![
            EffectView::Respond(ResponseView::OpenPortError(reason@)),
        ]);
        effects
    }

    /// Takes note that the source was opened and has `total` bytes.
    pub fn on_source_opened(&mut self, total: u64) -> (effects: Vec<Effect>)
        ensures
            final(self)@ == old(self)@.on_source_opened(total).0,
            effects_view(effects@) == old(self)@.on_source_opened(total).1,
    {
        let mut effects = no_effects();
        if self.connection.is_some() {
            self.set_transfer(Some(Transfer::start(total)));
            respond(&mut effects, SerialResponse::SendingFileStarted);
        } else {
            emit(&mut effects, Effect::CloseSource);
            respond(&mut effects, SerialResponse::SendingFileError(no_device_text()));
        }
        assert(effects_view(effects@) =~= old(self)@.on_source_opened(total).1);
        effects
    }

    /// Takes note that the source could not be opened.
    pub fn on_source_open_failed(&mut self, reason: String) -> (effects: Vec<Effect>)
        ensures
            final(self)@ == old(self)@,
            effects_view(effects@) == seq![
                EffectView::Respond(ResponseView::SendingFileError(reason@)),
            ],
    {
        let mut effects = no_effects();
        respond(&mut effects, SerialResponse::SendingFileError(reason));
        assert(effects_view(effects@) =~= seq![
            EffectView::Respond(ResponseView::SendingFileError(reason@)),
        ]);
        effects
    }

    /// Takes note that the log was created.
    pub fn on_log_opened(&mut self) -> (effects: Vec<Effect>)
        ensures
            final(self)@ == old(self)@.on_log_opened().0,
            effects_view(effects@) == old(self)@.on_log_opened().1,
    {
        let mut effects = no_effects();
        if self.connection.is_some() {
            self.set_logging(true);
        } else {
            emit(&mut effects, Effect::CloseLog);
            respond(&mut effects, SerialResponse::LogToFileError(no_device_text()));
        }
        assert(effects_view(effects@) =~= old(self)@.on_log_opened().1);
        effects
    }

    /// Takes note that the log could not be created.
    pub fn on_log_open_failed(&mut self, reason: String) -> (effects: Vec<Effect>)
        ensures
            final(self)@ == old(self)@,
            effects_view(effects@) == seq![
                EffectView::Respond(ResponseView::LogToFileError(reason@)),
            ],
    {
        let mut effects = no_effects();
        respond(&mut effects, SerialResponse::LogToFileError(reason));
        assert(effects_view(effects@) =~= seq![
            EffectView::Respond(ResponseView::LogToFileError(reason@)),
        ]);
        effects
    }

    /// Begins a tick at time `now_ms` and says what the tick has to do.
    pub fn on_tick(&mut self, now_ms: u64) -> (effects: Vec<Effect>)
        ensures
            final(self)@ == old(self)@.on_tick(now_ms).0,
            effects_view(effects@) == old(self)@.on_tick(now_ms).1,
    {
        let mut effects = no_effects();
        if self.connection.is_some() {
            emit(&mut effects, Effect::ReadDevice);
        }
        let since_send: u64 = if now_ms >= self.last_send_ms {
            now_ms - self.last_send_ms
        } else {
            0
        };
        match self.transfer() {
            Some(transfer) => {
                let mut counters = transfer;
                let limit = self.settings.bytes_per_quantum(self.config.quantum_ms);
                if since_send >= self.config.quantum_ms as u64 && limit >= 1 {
                    counters.awaited = Some(limit);
                    emit(&mut effects, Effect::ReadSource { limit });
                } else {
                    counters.awaited = None;
                }
                self.set_transfer(Some(counters));
            },
            None => {},
        }
        let since_scan: u64 = if now_ms >= self.last_scan_ms {
            now_ms - self.last_scan_ms
        } else {
            0
        };
        if since_scan >= self.config.scan_interval_ms as u64 {
            self.last_scan_ms = now_ms;
            emit(&mut effects, Effect::Enumerate);
        }
        self.now_ms = now_ms;
        assert(effects_view(effects@) =~= old(self)@.on_tick(now_ms).1);
        effects
    }

    /// Takes in bytes that the device delivered.
    pub fn on_received(&mut self, data: Vec<u8>) -> (effects: Vec<Effect>)
        ensures
            final(self)@ == old(self)@.on_received(data@).0,
            effects_view(effects@) == old(self)@.on_received(data@).1,
    {
        let mut effects = no_effects();
        if self.connection.is_some() && data.len() > 0 {
            if self.is_logging() {
                let copy = slice_to_vec(data.as_slice());
                respond(&mut effects, SerialResponse::Data(data));
                emit(&mut effects, Effect::AppendLog(copy));
            } else {
                respond(&mut effects, SerialResponse::Data(data));
            }
        }
        assert(effects_view(effects@) =~= old(self)@.on_received(data@).1);
        effects
    }

    /// Takes in the outcome of a read from the source.
    pub fn on_source_read(&mut self, read: ReadBytes) -> (effects: Vec<Effect>)
        ensures
            final(self)@ == old(self)@.on_source_read(read).0,
            effects_view(effects@) == old(self)@.on_source_read(read).1,
    {
        let ghost expected = old(self)@.on_source_read(read).1;
        let mut effects = no_effects();
        match self.transfer() {
            Some(transfer) => {
                if transfer.is_awaiting() {
                    match read {
                        ReadBytes::Bytes(len) => {
                            let taken = transfer.allow(len);
                            let mut counters = transfer;
                            let report = counters.advance(taken, self.config.progress_step);
                            self.set_transfer(Some(counters));
                            self.last_send_ms = self.now_ms;
                            match report {
                                Some(percent) => {
                                    respond(
                                        &mut effects,
                                        SerialResponse::SendingFileProgress(percent),
                                    );
                                },
                                None => {},
                            }
                            emit(&mut effects, Effect::WriteChunk { len: taken });
                        },
                        ReadBytes::EndOfFile | ReadBytes::FileError => {
                            self.set_transfer(None);
                            emit(&mut effects, Effect::CloseSource);
                            respond(&mut effects, SerialResponse::SendingFileComplete);
                        },
                        ReadBytes::NoAttempt => {
                            let mut counters = transfer;
                            counters.awaited = None;
                            self.set_transfer(Some(counters));
                        },
                    }
                }
            },
            None => {},
        }
        assert(effects_view(effects@) =~= expected);
        effects
    }

    /// Takes note that a chunk of `len` bytes was not written to the device.
    pub fn on_chunk_write_failed(&mut self, len: usize) -> (effects: Vec<Effect>)
        ensures
            final(self)@ == old(self)@.on_chunk_write_failed(len).0,
            effects_view(effects@) == old(self)@.on_chunk_write_failed(len).1,
    {
        let mut effects = no_effects();
        if self.is_transferring() {
            self.set_transfer(None);
            emit(&mut effects, Effect::CloseSource);
            respond(&mut effects, SerialResponse::SendingFileError(chunk_failed_text(len)));
        }
        assert(effects_view(effects@) =~= old(self)@.on_chunk_write_failed(len).1);
        effects
    }

    /// Takes in the devices that the system lists.
    pub fn on_ports_enumerated(&mut self, names: Vec<String>) -> (effects: Vec<Effect>)
        ensures
            final(self)@ == old(self)@.on_ports_enumerated(names_view(names@)).0,
            effects_view(effects@) == old(self)@.on_ports_enumerated(names_view(names@)).1,
    {
        let ghost expected = old(self)@.on_ports_enumerated(names_view(names@)).1;
        let mut effects = no_effects();
        let list = sort_names(names);
        let unplugged = match &self.connection {
            Some(connection) => !contains_name(&list, &connection.name),
            None => false,
        };
        if unplugged {
            self.release(&mut effects);
            self.snapshot = Some(copy_names(&list));
            respond(&mut effects, SerialResponse::UnexpectedDisconnection(list));
        } else {
            let unchanged = match &self.snapshot {
                Some(reported) => same_names(reported, &list),
                None => false,
            };
            if !unchanged {
                self.snapshot = Some(copy_names(&list));
                respond(&mut effects, SerialResponse::PortsFound(list));
            }
        }
        assert(effects_view(effects@) =~= expected);
        effects
    }

    /// Handles one event: moves to the next state and returns the effects
    /// for the driver to perform, in order.
    pub fn step(&mut self, event: Event) -> (effects: Vec<Effect>)
        ensures
            final(self)@ == old(self)@.step(event@).0,
            effects_view(effects@) == old(self)@.step(event@).1,
    {
        match event {
            Event::Command(command) => self.on_command(command),
            Event::DeviceOpened { name } => self.on_device_opened(name),
            Event::DeviceOpenFailed { name, purpose, error } => self.on_device_open_failed(
                name,
                purpose,
                error,
            ),
            Event::SettingRejected(reason) => self.on_setting_rejected(reason),
            Event::SourceOpened { total } => self.on_source_opened(total),
            Event::SourceOpenFailed(reason) => self.on_source_open_failed(reason),
            Event::LogOpened => self.on_log_opened(),
            Event::LogOpenFailed(reason) => self.on_log_open_failed(reason),
            Event::Tick { now_ms } => self.on_tick(now_ms),
            Event::Received(data) => self.on_received(data),
            Event::SourceRead(read) => self.on_source_read(read),
            Event::ChunkWriteFailed { len } => self.on_chunk_write_failed(len),
            Event::PortsEnumerated(names) => self.on_ports_enumerated(names),
        }
    }
}

} // verus!
