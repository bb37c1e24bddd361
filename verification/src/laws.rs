//! What holds of the engine in every state and over every sequence of
//! events.

use crate::engine::ConnectionView;
use crate::engine::EffectView;
use crate::engine::EngineView;
use crate::engine::EventView;
use crate::engine::OpenPurpose;
use crate::engine::elapsed_ms;
use crate::engine::no_device_message;
use crate::engine::switch_failed_message;
use crate::link::DataBits;
use crate::link::FlowControl;
use crate::link::LinkSettings;
use crate::link::Parity;
use crate::link::StopBits;
use crate::link::frame_bits;
use crate::link::lemma_quantum_bytes_bounds;
use crate::link::quantum_bytes;
use crate::pacer::Transfer;
use crate::pacer::lemma_reports_climb;
use crate::protocol::ReadBytes;
use crate::protocol::CommandView;
use crate::protocol::ResponseView;
use crate::scanner::lemma_sorted_names_characterized;
use crate::scanner::lemma_sorted_names_of_permutation;
use crate::scanner::sorted_names;
use std::path::PathBuf;
use vstd::prelude::*;

verus! {

/// A transfer and a log exist only while a device is open.
pub proof fn lemma_transfer_and_log_need_device(state: EngineView)
    ensures
        state.transferring() ==> state.connected(),
        state.logging() ==> state.connected(),
        !state.disconnected().transferring(),
        !state.disconnected().logging(),
        !state.disconnected().connected(),
{
}

/// The baud rate that a sequence of events leaves behind: the one of the
/// last command that set it, a change of baud rate or a connect, and
/// `before` if there was none.
pub open spec fn last_baud_rate(events: Seq<EventView>, before: u32) -> u32
    decreases events.len(),
{
    if events.len() == 0 {
        before
    } else {
        match events.last() {
            EventView::Command(CommandView::ChangeBaud(baud)) => baud,
            EventView::Command(CommandView::ConnectToPort { baud, .. }) => baud,
            _ => last_baud_rate(events.drop_last(), before),
        }
    }
}

/// The data bits of the last command that set them, `before` if none did.
pub open spec fn last_data_bits(events: Seq<EventView>, before: DataBits) -> DataBits
    decreases events.len(),
{
    if events.len() == 0 {
        before
    } else {
        match events.last() {
            EventView::Command(CommandView::ChangeDataBits(data_bits)) => data_bits,
            _ => last_data_bits(events.drop_last(), before),
        }
    }
}

/// The flow control of the last command that set it, `before` if none did.
pub open spec fn last_flow_control(events: Seq<EventView>, before: FlowControl) -> FlowControl
    decreases events.len(),
{
    if events.len() == 0 {
        before
    } else {
        match events.last() {
            EventView::Command(CommandView::ChangeFlowControl(flow_control)) => flow_control,
            _ => last_flow_control(events.drop_last(), before),
        }
    }
}

/// The parity of the last command that set it, `before` if none did.
pub open spec fn last_parity(events: Seq<EventView>, before: Parity) -> Parity
    decreases events.len(),
{
    if events.len() == 0 {
        before
    } else {
        match events.last() {
            EventView::Command(CommandView::ChangeParity(parity)) => parity,
            _ => last_parity(events.drop_last(), before),
        }
    }
}

/// The stop bits of the last command that set them, `before` if none did.
pub open spec fn last_stop_bits(events: Seq<EventView>, before: StopBits) -> StopBits
    decreases events.len(),
{
    if events.len() == 0 {
        before
    } else {
        match events.last() {
            EventView::Command(CommandView::ChangeStopBits(stop_bits)) => stop_bits,
            _ => last_stop_bits(events.drop_last(), before),
        }
    }
}

/// After any sequence of events, each link setting holds the value that the
/// last command for that setting gave it, whatever was set for the others
/// and whether or not a device was open; a setting that no command touched
/// is as it was.
pub proof fn lemma_settings_hold_last_values(state: EngineView, events: Seq<EventView>)
    ensures
        state.run(events).settings == (LinkSettings {
            baud_rate: last_baud_rate(events, state.settings.baud_rate),
            data_bits: last_data_bits(events, state.settings.data_bits),
            flow_control: last_flow_control(events, state.settings.flow_control),
            parity: last_parity(events, state.settings.parity),
            stop_bits: last_stop_bits(events, state.settings.stop_bits),
        }),
    decreases events.len(),
{
    if events.len() > 0 {
        lemma_settings_hold_last_values(state, events.drop_last());
    }
}

/// A connect opens the device with the settings as they stand after all the
/// events before it, except that the baud rate is the one the connect names.
pub proof fn lemma_connect_uses_last_settings(
    state: EngineView,
    events: Seq<EventView>,
    name: Seq<char>,
    baud: u32,
)
    ensures
        state.run(events).step(
            EventView::Command(CommandView::ConnectToPort { name, baud }),
        ).1 == seq![
            EffectView::OpenDevice {
                name,
                settings: LinkSettings {
                    baud_rate: baud,
                    data_bits: last_data_bits(events, state.settings.data_bits),
                    flow_control: last_flow_control(events, state.settings.flow_control),
                    parity: last_parity(events, state.settings.parity),
                    stop_bits: last_stop_bits(events, state.settings.stop_bits),
                },
                purpose: OpenPurpose::Connect,
            },
        ],
{
    lemma_settings_hold_last_values(state, events);
}

/// Whether an effect is a response that ends a file transfer: complete,
/// canceled or error.
pub open spec fn is_ending(effect: EffectView) -> bool {
    effect matches EffectView::Respond(response) && response.ends_transfer()
}

/// The number of responses among `effects` that end a file transfer.
pub open spec fn endings(effects: Seq<EffectView>) -> nat
    decreases effects.len(),
{
    if effects.len() == 0 {
        0
    } else {
        endings(effects.drop_last()) + if is_ending(effects.last()) {
            1nat
        } else {
            0nat
        }
    }
}

/// One if a transfer is running, zero if not.
pub open spec fn running(state: EngineView) -> nat {
    if state.transferring() {
        1
    } else {
        0
    }
}

/// One if the event settles a request to send a file without a transfer
/// ending: the request is refused for want of a device, or its source is
/// opened, or its source cannot be opened. Zero otherwise.
pub open spec fn requests(state: EngineView, event: EventView) -> nat {
    match event {
        EventView::Command(CommandView::SendFile(_)) => if state.connected() {
            0
        } else {
            1
        },
        EventView::SourceOpened { .. } => 1,
        EventView::SourceOpenFailed(_) => 1,
        _ => 0,
    }
}

/// Whether a step keeps to the life of a transfer: it does not close the
/// device under a running transfer, does not open a second source over a
/// running transfer, and does not cancel where nothing runs.
pub open spec fn orderly_step(state: EngineView, event: EventView) -> bool {
    &&& state.transferring() ==> state.step(event).0.connected()
    &&& event is SourceOpened ==> !state.transferring()
    &&& event == EventView::Command(CommandView::CancelSendFile) ==> state.transferring()
}

/// Whether every step of a run keeps to the life of a transfer.
pub open spec fn orderly(state: EngineView, events: Seq<EventView>) -> bool
    decreases events.len(),
{
    events.len() == 0 || (orderly(state, events.drop_last()) && orderly_step(
        state.run(events.drop_last()),
        events.last(),
    ))
}

/// The number of transfer-ending responses that a run emits.
pub open spec fn endings_of_run(state: EngineView, events: Seq<EventView>) -> nat
    decreases events.len(),
{
    if events.len() == 0 {
        0
    } else {
        endings_of_run(state, events.drop_last()) + endings(
            state.run(events.drop_last()).step(events.last()).1,
        )
    }
}

/// The number of requests to send a file that a run settles.
pub open spec fn requests_of_run(state: EngineView, events: Seq<EventView>) -> nat
    decreases events.len(),
{
    if events.len() == 0 {
        0
    } else {
        requests_of_run(state, events.drop_last()) + requests(
            state.run(events.drop_last()),
            events.last(),
        )
    }
}

proof fn lemma_endings_concat(a: Seq<EffectView>, b: Seq<EffectView>)
    ensures
        endings(a + b) == endings(a) + endings(b),
    decreases b.len(),
{
    if b.len() == 0 {
        assert(a + b =~= a);
    } else {
        lemma_endings_concat(a, b.drop_last());
        assert((a + b).drop_last() =~= a + b.drop_last());
        assert((a + b).last() == b.last());
    }
}

proof fn lemma_endings_one(a: EffectView)
    ensures
        endings(seq![a]) == if is_ending(a) {
            1nat
        } else {
            0nat
        },
{
    assert(seq![a].drop_last() =~= Seq::<EffectView>::empty());
    assert(seq![a].last() == a);
    assert(endings(Seq::<EffectView>::empty()) == 0);
}

proof fn lemma_endings_two(a: EffectView, b: EffectView)
    ensures
        endings(seq![a, b]) == endings(seq![a]) + endings(seq![b]),
{
    assert(seq![a, b] =~= seq![a] + seq![b]);
    lemma_endings_concat(seq![a], seq![b]);
}

proof fn lemma_endings_release(state: EngineView)
    ensures
        endings(state.release()) == 0,
{
    lemma_endings_one(EffectView::CloseSource);
    lemma_endings_one(EffectView::CloseLog);
    lemma_endings_one(EffectView::CloseDevice);
    let none = Seq::<EffectView>::empty();
    assert(endings(none) == 0);
    match state.connection {
        Some(connection) => {
            let source = if connection.transfer is Some {
                seq![EffectView::CloseSource]
            } else {
                none
            };
            let log = if connection.logging {
                seq![EffectView::CloseLog]
            } else {
                none
            };
            lemma_endings_concat(source, log);
            lemma_endings_concat(source + log, seq![EffectView::CloseDevice]);
        },
        None => {},
    }
}

proof fn lemma_endings_of_command(state: EngineView, command: CommandView)
    ensures
        endings(state.on_command(command).1) == match command {
            CommandView::CancelSendFile => 1nat,
            CommandView::SendFile(_) => if state.connected() {
                0nat
            } else {
                1nat
            },
            _ => 0nat,
        },
{
    let effects = state.on_command(command).1;
    let none = Seq::<EffectView>::empty();
    assert(endings(none) == 0);
    match command {
        CommandView::CancelSendFile => {
            lemma_endings_one(EffectView::CloseSource);
            lemma_endings_one(EffectView::Respond(ResponseView::SendingFileCanceled));
            lemma_endings_two(
                EffectView::CloseSource,
                EffectView::Respond(ResponseView::SendingFileCanceled),
            );
        },
        CommandView::Disconnect => {
            lemma_endings_release(state);
            lemma_endings_one(EffectView::Respond(ResponseView::DisconnectSuccess));
            lemma_endings_concat(
                state.release(),
                seq![EffectView::Respond(ResponseView::DisconnectSuccess)],
            );
        },
        CommandView::CancelLogToFile => {
            lemma_endings_one(EffectView::CloseLog);
            lemma_endings_one(EffectView::Respond(ResponseView::LoggingFileCanceled));
            lemma_endings_two(
                EffectView::CloseLog,
                EffectView::Respond(ResponseView::LoggingFileCanceled),
            );
        },
        _ => {
            if effects.len() > 0 {
                assert(effects =~= seq![effects[0]]);
                lemma_endings_one(effects[0]);
            }
        },
    }
}

proof fn lemma_endings_of_tick(state: EngineView, now_ms: u64)
    ensures
        endings(state.on_tick(now_ms).1) == 0,
{
    let none = Seq::<EffectView>::empty();
    assert(endings(none) == 0);
    let read = if state.connected() {
        seq![EffectView::ReadDevice]
    } else {
        none
    };
    let pace = match state.chunk_allowed(now_ms) {
        Some(limit) => seq![EffectView::ReadSource { limit }],
        None => none,
    };
    let scan = if state.scan_due(now_ms) {
        seq![EffectView::Enumerate]
    } else {
        none
    };
    lemma_endings_one(EffectView::ReadDevice);
    lemma_endings_one(pace[0]);
    lemma_endings_one(EffectView::Enumerate);
    lemma_endings_concat(read, pace);
    lemma_endings_concat(read + pace, scan);
}

/// The number of transfer-ending responses of a step, event by event.
proof fn lemma_endings_of_step(state: EngineView, event: EventView)
    ensures
        endings(state.step(event).1) == match event {
            EventView::Command(CommandView::CancelSendFile) => 1nat,
            EventView::Command(CommandView::SendFile(_)) => if state.connected() {
                0nat
            } else {
                1nat
            },
            EventView::SourceOpened { .. } => if state.connected() {
                0nat
            } else {
                1nat
            },
            EventView::SourceOpenFailed(_) => 1nat,
            EventView::SourceRead(read) => if state.awaiting_chunk() && (read is EndOfFile
                || read is FileError) {
                1nat
            } else {
                0nat
            },
            EventView::ChunkWriteFailed { .. } => if state.transferring() {
                1nat
            } else {
                0nat
            },
            _ => 0nat,
        },
{
    let effects = state.step(event).1;
    let none = Seq::<EffectView>::empty();
    assert(endings(none) == 0);
    match event {
        EventView::Command(command) => {
            lemma_endings_of_command(state, command);
        },
        EventView::Tick { now_ms } => {
            lemma_endings_of_tick(state, now_ms);
        },
        EventView::DeviceOpenFailed { name, purpose, error } => {
            match purpose {
                OpenPurpose::Connect => {
                    assert(effects =~= seq![effects[0]]);
                    lemma_endings_one(effects[0]);
                },
                OpenPurpose::Switch => {
                    let last = EffectView::Respond(
                        ResponseView::OpenPortError(switch_failed_message(name)),
                    );
                    lemma_endings_release(state);
                    lemma_endings_one(last);
                    lemma_endings_concat(state.release(), seq![last]);
                },
            }
        },
        EventView::PortsEnumerated(names) => {
            let list = sorted_names(names);
            if state.unplugged(list) {
                let last = EffectView::Respond(ResponseView::UnexpectedDisconnection(list));
                lemma_endings_release(state);
                lemma_endings_one(last);
                lemma_endings_concat(state.release(), seq![last]);
            } else if effects.len() > 0 {
                assert(effects =~= seq![effects[0]]);
                lemma_endings_one(effects[0]);
            }
        },
        EventView::Received(data) => {
            if effects.len() > 0 {
                let first = EffectView::Respond(ResponseView::Data(data));
                let log = if state.logging() {
                    seq![EffectView::AppendLog(data)]
                } else {
                    none
                };
                lemma_endings_one(first);
                lemma_endings_one(EffectView::AppendLog(data));
                lemma_endings_concat(seq![first], log);
            }
        },
        _ => {
            if effects.len() == 1 {
                assert(effects =~= seq![effects[0]]);
                lemma_endings_one(effects[0]);
            } else if effects.len() == 2 {
                assert(effects =~= seq![effects[0], effects[1]]);
                lemma_endings_one(effects[0]);
                lemma_endings_one(effects[1]);
                lemma_endings_two(effects[0], effects[1]);
            }
        },
    }
}

/// No step emits more than one response that ends a transfer: complete,
/// canceled and error never come together.
pub proof fn lemma_at_most_one_ending(state: EngineView, event: EventView)
    ensures
        endings(state.step(event).1) <= 1,
{
    lemma_endings_of_step(state, event);
}

/// While the device stays open, a running transfer stops in exactly the
/// steps that emit one ending response: a transfer neither stops silently
/// nor is reported as ended while it goes on. The one ending response of a
/// step in which the transfer goes on is the error of a further request
/// whose source could not be opened.
pub proof fn lemma_transfer_ends_with_one_response(state: EngineView, event: EventView)
    requires
        state.transferring(),
        state.step(event).0.connected(),
    ensures
        !state.step(event).0.transferring() ==> endings(state.step(event).1) == 1,
        state.step(event).0.transferring() && !(event is SourceOpenFailed) ==> endings(
            state.step(event).1,
        ) == 0,
{
    lemma_endings_of_step(state, event);
}

/// In an orderly step, the ending responses and the transfer that runs
/// afterwards account exactly for the requests settled and the transfer that
/// ran before.
pub proof fn lemma_step_accounts_for_transfers(state: EngineView, event: EventView)
    requires
        orderly_step(state, event),
    ensures
        endings(state.step(event).1) + running(state.step(event).0) == requests(state, event)
            + running(state),
{
    lemma_endings_of_step(state, event);
}

/// Over an orderly run, every request to send a file that was settled, and
/// the transfer that ran at the start, is answered by exactly one ending
/// response, complete, canceled or error, or is the transfer that still
/// runs: none is answered twice and none is dropped.
pub proof fn lemma_one_ending_per_transfer(state: EngineView, events: Seq<EventView>)
    requires
        orderly(state, events),
    ensures
        endings_of_run(state, events) + running(state.run(events)) == requests_of_run(
            state,
            events,
        ) + running(state),
    decreases events.len(),
{
    if events.len() > 0 {
        lemma_one_ending_per_transfer(state, events.drop_last());
        lemma_step_accounts_for_transfers(state.run(events.drop_last()), events.last());
    }
}

/// When the open device is missing from what a scan lists, the scan ends
/// the session, closes what the session held, and tells the client once,
/// with the sorted list, that the device is gone. It does not report the
/// list as found.
pub proof fn lemma_scan_without_open_device(state: EngineView, names: Seq<Seq<char>>)
    requires
        state.connection matches Some(connection) && !names.contains(connection.name),
    ensures
        ({
            let (next, effects) = state.step(EventView::PortsEnumerated(names));
            let list = sorted_names(names);
            &&& !next.connected()
            &&& next.snapshot == Some(list)
            &&& effects == state.release() + seq![
                EffectView::Respond(ResponseView::UnexpectedDisconnection(list)),
            ]
            &&& forall|i: int|
                0 <= i < effects.len() ==> (#[trigger] effects[i] is Respond <==> i
                    == effects.len() - 1)
        }),
{
    let list = sorted_names(names);
    lemma_sorted_names_characterized(names, list);
    broadcast use vstd::seq_lib::group_to_multiset_ensures;

    let name = state.connection->0.name;
    assert(list.to_multiset().count(name) == names.to_multiset().count(name));
    assert(!list.contains(name));
}

/// When a device is open and a scan lists it, or no device is open, the
/// scan leaves the session alone and emits at most the list it found, which
/// then holds the name of the open device.
pub proof fn lemma_scan_with_open_device(state: EngineView, names: Seq<Seq<char>>)
    requires
        state.connection matches Some(connection) ==> names.contains(connection.name),
    ensures
        ({
            let (next, effects) = state.step(EventView::PortsEnumerated(names));
            let list = sorted_names(names);
            &&& next.connection == state.connection
            &&& next.snapshot == Some(list)
            &&& effects == if state.snapshot == Some(list) {
                Seq::<EffectView>::empty()
            } else {
                seq![EffectView::Respond(ResponseView::PortsFound(list))]
            }
            &&& state.connection matches Some(connection) ==> list.contains(connection.name)
        }),
{
    let list = sorted_names(names);
    lemma_sorted_names_characterized(names, list);
    broadcast use vstd::seq_lib::group_to_multiset_ensures;

    if state.connection is Some {
        let name = state.connection->0.name;
        assert(list.to_multiset().count(name) == names.to_multiset().count(name));
        assert(list.contains(name));
    }
}

/// A scan that lists the same devices as the scan before it, in whatever
/// order, changes nothing and emits nothing.
pub proof fn lemma_repeated_scan_is_silent(
    state: EngineView,
    first: Seq<Seq<char>>,
    second: Seq<Seq<char>>,
)
    requires
        first.to_multiset() == second.to_multiset(),
    ensures
        ({
            let scanned = state.step(EventView::PortsEnumerated(first)).0;
            scanned.step(EventView::PortsEnumerated(second)) == (
                scanned,
                Seq::<EffectView>::empty(),
            )
        }),
{
    let list = sorted_names(first);
    lemma_sorted_names_of_permutation(first, second);
    let scanned = state.step(EventView::PortsEnumerated(first)).0;
    assert(scanned.snapshot == Some(list));
    assert(!scanned.unplugged(list));
}

/// Whether an effect is a progress report with this percentage.
pub open spec fn is_progress(effect: EffectView, percent: u8) -> bool {
    effect == EffectView::Respond(ResponseView::SendingFileProgress(percent))
}

/// Progress is reported only for a chunk that was read for the running
/// transfer, and each report is at least a full step above the one before
/// it, which the transfer then remembers. While a transfer runs, the bytes
/// it has read and the percentage it reported last never fall and its total
/// stays.
pub proof fn lemma_progress_climbs(state: EngineView, event: EventView)
    ensures
        ({
            let (next, effects) = state.step(event);
            &&& forall|i: int, percent: u8|
                0 <= i < effects.len() && #[trigger] is_progress(effects[i], percent) ==> {
                    &&& event is SourceRead
                    &&& state.connection matches Some(connection)
                    &&& connection.transfer matches Some(transfer)
                    &&& next.connection matches Some(after)
                    &&& after.transfer matches Some(counters)
                    &&& percent >= transfer.last_percentage + state.config.progress_step
                    &&& counters.last_percentage == percent
                }
            &&& state.transferring() && next.transferring() && !(event is SourceOpened) ==> {
                let before = state.connection->0.transfer->0;
                let after = next.connection->0.transfer->0;
                &&& after.bytes_total == before.bytes_total
                &&& after.bytes_read >= before.bytes_read
                &&& after.last_percentage >= before.last_percentage
            }
        }),
{
    let (next, effects) = state.step(event);
    if state.transferring() {
        let transfer = state.connection->0.transfer->0;
        if let EventView::SourceRead(ReadBytes::Bytes(len)) = event {
            lemma_reports_climb(
                transfer,
                transfer.allowed(len),
                state.config.progress_step,
            );
        }
    }
    match event {
        EventView::Command(command) => {
            assert forall|i: int, percent: u8| 0 <= i < effects.len() implies !#[trigger] is_progress(
                effects[i],
                percent,
            ) by {}
        },
        EventView::DeviceOpenFailed { .. } => {
            assert forall|i: int, percent: u8| 0 <= i < effects.len() implies !#[trigger] is_progress(
                effects[i],
                percent,
            ) by {}
        },
        EventView::PortsEnumerated(_) => {
            assert forall|i: int, percent: u8| 0 <= i < effects.len() implies !#[trigger] is_progress(
                effects[i],
                percent,
            ) by {}
        },
        _ => {},
    }
}

/// Whether an effect tells the client that a transfer is complete.
pub open spec fn is_completion(effect: EffectView) -> bool {
    effect == EffectView::Respond(ResponseView::SendingFileComplete)
}

/// A transfer is reported complete only by a step that takes in the end of
/// the source, or a failure to read it, in answer to a read of at least one
/// byte that a tick asked for. That step ends the transfer. A read that was
/// asked for no bytes, or that no tick asked for, never completes a
/// transfer.
pub proof fn lemma_complete_only_at_end_of_source(state: EngineView, event: EventView)
    ensures
        ({
            let (next, effects) = state.step(event);
            forall|i: int|
                0 <= i < effects.len() && #[trigger] is_completion(effects[i]) ==> {
                    &&& event matches EventView::SourceRead(read)
                    &&& read is EndOfFile || read is FileError
                    &&& state.connection matches Some(connection)
                    &&& connection.transfer matches Some(transfer)
                    &&& transfer.awaited matches Some(limit)
                    &&& limit >= 1
                    &&& next.connected()
                    &&& !next.transferring()
                }
        }),
{
    let (next, effects) = state.step(event);
    match event {
        EventView::SourceRead(_) => {},
        _ => {
            assert forall|i: int| 0 <= i < effects.len() implies !#[trigger] is_completion(
                effects[i],
            ) by {}
        },
    }
}

/// The source counts as ended exactly where a read that asked for at least
/// one byte came back with none.
pub proof fn lemma_end_of_file_needs_a_request(asked: usize, count: Option<usize>)
    ensures
        ReadBytes::of_read(asked, count) is EndOfFile <==> asked >= 1 && count == Some(0usize),
        ReadBytes::of_read(asked, count) is FileError <==> count is None,
        !(ReadBytes::of_read(asked, count) is NoAttempt),
{
}

/// Whether an effect asks for a chunk of at most `limit` bytes of the source.
pub open spec fn is_chunk_request(effect: EffectView, limit: u64) -> bool {
    effect == (EffectView::ReadSource { limit })
}

/// A tick asks for a chunk of the source only when a transfer runs and a
/// quantum has passed since it last sent, never for less than one byte, and
/// never for more bytes than the
/// link carries in a quantum: the frames of the chunk fit into the symbols
/// of the quantum.
pub proof fn lemma_pacer_keeps_to_the_link(state: EngineView, now_ms: u64)
    ensures
        ({
            let effects = state.step(EventView::Tick { now_ms }).1;
            forall|i: int, limit: u64|
                0 <= i < effects.len() && #[trigger] is_chunk_request(effects[i], limit) ==> {
                    &&& state.transferring()
                    &&& elapsed_ms(now_ms, state.last_send_ms) >= state.config.quantum_ms
                    &&& limit >= 1
                    &&& limit * (frame_bits(state.settings) * 1000)
                        <= state.settings.baud_rate * state.config.quantum_ms
                }
        }),
{
    lemma_quantum_bytes_bounds(state.settings, state.config.quantum_ms);
    let bytes = quantum_bytes(state.settings, state.config.quantum_ms);
    let frame = frame_bits(state.settings) * 1000;
    let symbols = state.settings.baud_rate as int * state.config.quantum_ms as int;
    assert(bytes <= bytes * frame) by (nonlinear_arith)
        requires
            bytes >= 0,
            frame >= 1,
    ;
    assert(symbols <= 0xffff_ffff * 0xffff_ffff) by (nonlinear_arith)
        requires
            symbols == state.settings.baud_rate as int * state.config.quantum_ms as int,
    ;
    assert(bytes as u64 == bytes);
    let none = Seq::<EffectView>::empty();
    let read = if state.connected() {
        seq![EffectView::ReadDevice]
    } else {
        none
    };
    let pace = match state.chunk_allowed(now_ms) {
        Some(limit) => seq![EffectView::ReadSource { limit }],
        None => none,
    };
    let scan = if state.scan_due(now_ms) {
        seq![EffectView::Enumerate]
    } else {
        none
    };
    let effects = state.step(EventView::Tick { now_ms }).1;
    assert(effects == read + pace + scan);
    assert forall|i: int, limit: u64|
        0 <= i < effects.len() && #[trigger] is_chunk_request(effects[i], limit) implies {
        &&& state.transferring()
        &&& elapsed_ms(now_ms, state.last_send_ms) >= state.config.quantum_ms
        &&& limit >= 1
        &&& limit * frame <= symbols
    } by {
        if i < read.len() {
            assert(effects[i] == read[i]);
        } else if i < read.len() + pace.len() {
            assert(effects[i] == pace[i - read.len()]);
            assert(limit == bytes);
        } else {
            assert(effects[i] == scan[i - read.len() - pace.len()]);
        }
    }
}

/// The number of bytes that an effect hands to the device for the transfer.
pub open spec fn chunk_length(effect: EffectView) -> nat {
    match effect {
        EffectView::WriteChunk { len } => len as nat,
        _ => 0,
    }
}

/// The number of bytes that `effects` hand to the device for the transfer.
pub open spec fn chunk_bytes(effects: Seq<EffectView>) -> nat
    decreases effects.len(),
{
    if effects.len() == 0 {
        0
    } else {
        chunk_bytes(effects.drop_last()) + chunk_length(effects.last())
    }
}

/// The number of bytes that a run hands to the device for transfers.
pub open spec fn chunk_bytes_of_run(state: EngineView, events: Seq<EventView>) -> nat
    decreases events.len(),
{
    if events.len() == 0 {
        0
    } else {
        chunk_bytes_of_run(state, events.drop_last()) + chunk_bytes(
            state.run(events.drop_last()).step(events.last()).1,
        )
    }
}

/// Whether the state keeps the pace: a chunk is awaited only when a quantum
/// has passed since the last one was taken, and is allowed at most `bound`
/// bytes.
pub open spec fn paced(state: EngineView, bound: nat) -> bool {
    match state.connection {
        Some(ConnectionView { transfer: Some(Transfer { awaited: Some(limit), .. }), .. }) => {
            &&& elapsed_ms(state.now_ms, state.last_send_ms) >= state.config.quantum_ms
            &&& limit <= bound
        },
        _ => true,
    }
}

/// Whether the link carries at most `bound` bytes in a quantum at every tick
/// of a run.
pub open spec fn link_within(state: EngineView, events: Seq<EventView>, bound: nat) -> bool
    decreases events.len(),
{
    events.len() == 0 || {
        &&& link_within(state, events.drop_last(), bound)
        &&& events.last() is Tick ==> quantum_bytes(
            state.run(events.drop_last()).settings,
            state.config.quantum_ms,
        ) <= bound
    }
}

proof fn lemma_chunk_bytes_none(effects: Seq<EffectView>)
    requires
        forall|i: int| 0 <= i < effects.len() ==> !(#[trigger] effects[i] is WriteChunk),
    ensures
        chunk_bytes(effects) == 0,
    decreases effects.len(),
{
    if effects.len() > 0 {
        lemma_chunk_bytes_none(effects.drop_last());
    }
}

/// One step under a link that carries at most `bound` bytes in a quantum:
/// the step hands at most `bound` bytes to the device, and when it hands
/// over a chunk, a quantum has passed since the chunk before it. The pace is
/// kept, and nothing but a chunk moves the time of the last send.
pub proof fn lemma_step_keeps_pace(state: EngineView, event: EventView, bound: nat)
    requires
        state.config.quantum_ms > 0,
        paced(state, bound),
        event is Tick ==> quantum_bytes(state.settings, state.config.quantum_ms)
            <= bound,
    ensures
        ({
            let (next, effects) = state.step(event);
            &&& next.config == state.config
            &&& paced(next, bound)
            &&& chunk_bytes(effects) <= bound
            &&& next.last_send_ms == state.last_send_ms || next.last_send_ms
                >= state.last_send_ms + state.config.quantum_ms
            &&& chunk_bytes(effects) > 0 ==> next.last_send_ms >= state.last_send_ms
                + state.config.quantum_ms
        }),
{
    let (next, effects) = state.step(event);
    lemma_quantum_bytes_bounds(state.settings, state.config.quantum_ms);
    match event {
        EventView::SourceRead(read) => {
            let none = Seq::<EffectView>::empty();
            assert(chunk_bytes(none) == 0);
            if effects.len() == 1 {
                assert(effects.drop_last() =~= none);
                assert(chunk_bytes(effects) == chunk_length(effects[0]));
            } else if effects.len() == 2 {
                assert(effects.drop_last() =~= seq![effects[0]]);
                assert(seq![effects[0]].drop_last() =~= none);
                assert(chunk_bytes(seq![effects[0]]) == chunk_length(effects[0]));
                assert(chunk_bytes(effects) == chunk_length(effects[0]) + chunk_length(
                    effects[1],
                ));
            } else {
                assert(effects =~= none);
            }
        },
        _ => {
            assert forall|i: int| 0 <= i < effects.len() implies !(#[trigger] effects[i]
                is WriteChunk) by {}
            lemma_chunk_bytes_none(effects);
        },
    }
}

/// Over any run, the bytes handed to the device for transfers are no more
/// than the link carries in the time that the ticks of the run cover: the
/// bytes, times the length of a quantum, are at most what the link carries
/// in a quantum times the time between the last send before the run and the
/// last send in it. A transfer cannot be faster than its link.
pub proof fn lemma_link_speed_bounds_transfer(
    state: EngineView,
    events: Seq<EventView>,
    bound: nat,
)
    requires
        state.config.quantum_ms > 0,
        paced(state, bound),
        link_within(state, events, bound),
    ensures
        state.run(events).config == state.config,
        paced(state.run(events), bound),
        state.run(events).last_send_ms >= state.last_send_ms,
        chunk_bytes_of_run(state, events) * state.config.quantum_ms <= bound * (state.run(
            events,
        ).last_send_ms - state.last_send_ms),
    decreases events.len(),
{
    let quantum = state.config.quantum_ms as int;
    if events.len() > 0 {
        let before = state.run(events.drop_last());
        lemma_link_speed_bounds_transfer(state, events.drop_last(), bound);
        lemma_step_keeps_pace(before, events.last(), bound);
        let after = state.run(events);
        let earlier = chunk_bytes_of_run(state, events.drop_last()) as int;
        let now = chunk_bytes(before.step(events.last()).1) as int;
        let span = before.last_send_ms - state.last_send_ms;
        let grown = after.last_send_ms - state.last_send_ms;
        assert(chunk_bytes_of_run(state, events) == earlier + now);
        assert(earlier * quantum <= bound * span);
        assert((earlier + now) * quantum <= bound * grown) by (nonlinear_arith)
            requires
                earlier * quantum <= bound * span,
                0 <= now <= bound,
                quantum > 0,
                0 <= span <= grown,
                now > 0 ==> grown >= span + quantum,
        ;
    } else {
        assert(chunk_bytes_of_run(state, events) * quantum == 0) by (nonlinear_arith)
            requires
                chunk_bytes_of_run(state, events) == 0,
        ;
        assert(bound * (state.run(events).last_send_ms - state.last_send_ms) == 0)
            by (nonlinear_arith)
            requires
                state.run(events).last_send_ms - state.last_send_ms == 0,
        ;
    }
}

/// The number of bytes that a read of at most `limit` bytes asks for: the
/// limit, held to the largest length that can be asked for at once.
pub open spec fn asked_for(limit: u64) -> usize {
    if limit > usize::MAX {
        usize::MAX
    } else {
        limit as usize
    }
}

/// The number of bytes that a source with `remaining` bytes left gives to a
/// read of at most `limit` bytes, if it gives all that it is asked for while
/// it has them.
pub open spec fn bytes_given(limit: u64, remaining: nat) -> usize {
    if remaining < asked_for(limit) {
        remaining as usize
    } else {
        asked_for(limit)
    }
}

/// The state, what is left of the source, and the effects so far, while a
/// source is pumped to the device.
pub struct Pumped {
    pub state: EngineView,
    pub remaining: nat,
    pub effects: Seq<EffectView>,
}

/// One round of a transfer from a source that reads without error and gives
/// what it is asked for: a tick at time `now_ms`, and, if the tick asks for
/// a chunk, the outcome of reading it from the `remaining` bytes of the
/// source.
pub open spec fn round(state: EngineView, remaining: nat, now_ms: u64) -> Pumped {
    let (ticked, asked) = state.step(EventView::Tick { now_ms });
    match state.chunk_allowed(now_ms) {
        Some(limit) => {
            let given = bytes_given(limit, remaining);
            let read = ReadBytes::of_read(asked_for(limit), Some(given));
            let (next, answered) = ticked.step(EventView::SourceRead(read));
            Pumped {
                state: next,
                remaining: (remaining - given) as nat,
                effects: asked + answered,
            }
        },
        None => Pumped { state: ticked, remaining, effects: asked },
    }
}

/// The rounds of a transfer at the times given, one after the other.
pub open spec fn rounds(state: EngineView, remaining: nat, times: Seq<u64>) -> Pumped
    decreases times.len(),
{
    if times.len() == 0 {
        Pumped { state, remaining, effects: Seq::empty() }
    } else {
        let before = rounds(state, remaining, times.drop_last());
        let last = round(before.state, before.remaining, times.last());
        Pumped {
            state: last.state,
            remaining: last.remaining,
            effects: before.effects + last.effects,
        }
    }
}

/// Whether every round comes a quantum or more after the chunk before it,
/// so that each round of a running transfer is due a chunk.
pub open spec fn every_round_due(state: EngineView, remaining: nat, times: Seq<u64>) -> bool
    decreases times.len(),
{
    times.len() == 0 || {
        let before = rounds(state, remaining, times.drop_last());
        &&& every_round_due(state, remaining, times.drop_last())
        &&& before.state.transferring() ==> before.state.pacer_due(times.last())
    }
}

/// Whether the client is told among `effects` that a transfer is complete.
pub open spec fn completed(effects: Seq<EffectView>) -> bool {
    exists|i: int| 0 <= i < effects.len() && #[trigger] is_completion(effects[i])
}

/// Whether a transfer runs in `state` that has read `read` bytes.
pub open spec fn has_read(state: EngineView, read: nat) -> bool {
    state.connection matches Some(connection) && connection.transfer matches Some(transfer)
        && transfer.bytes_read == read
}

proof fn lemma_chunk_bytes_concat(a: Seq<EffectView>, b: Seq<EffectView>)
    ensures
        chunk_bytes(a + b) == chunk_bytes(a) + chunk_bytes(b),
    decreases b.len(),
{
    if b.len() == 0 {
        assert(a + b =~= a);
    } else {
        lemma_chunk_bytes_concat(a, b.drop_last());
        assert((a + b).drop_last() =~= a + b.drop_last());
        assert((a + b).last() == b.last());
    }
}

proof fn lemma_completed_concat(a: Seq<EffectView>, b: Seq<EffectView>)
    ensures
        completed(a + b) <==> completed(a) || completed(b),
{
    if completed(a) {
        let i = choose|i: int| 0 <= i < a.len() && #[trigger] is_completion(a[i]);
        assert(is_completion((a + b)[i]));
    }
    if completed(b) {
        let i = choose|i: int| 0 <= i < b.len() && #[trigger] is_completion(b[i]);
        assert(is_completion((a + b)[a.len() + i]));
    }
    if completed(a + b) {
        let i = choose|i: int| 0 <= i < (a + b).len() && #[trigger] is_completion((a + b)[i]);
        if i < a.len() {
            assert(is_completion(a[i]));
        } else {
            assert(is_completion(b[i - a.len()]));
        }
    }
}

/// One round of a running transfer either hands a chunk of the source to
/// the device and counts it, or, where the source has nothing left, ends the
/// transfer as complete, or, where no chunk is due, changes nothing.
proof fn lemma_round(state: EngineView, remaining: nat, now_ms: u64, read: nat)
    requires
        state.connected(),
        state.transferring() ==> has_read(state, read) && read + remaining <= u64::MAX,
    ensures
        ({
            let after = round(state, remaining, now_ms);
            &&& after.state.connected()
            &&& after.state.config == state.config
            &&& after.state.settings == state.settings
            &&& chunk_bytes(after.effects) + after.remaining == remaining
            &&& endings(after.effects) <= 1
            &&& completed(after.effects) <==> endings(after.effects) == 1
            &&& !state.transferring() ==> !after.state.transferring() && endings(after.effects)
                == 0 && chunk_bytes(after.effects) == 0
            &&& state.transferring() && after.state.transferring() ==> {
                &&& endings(after.effects) == 0
                &&& has_read(after.state, read + chunk_bytes(after.effects))
                &&& state.chunk_allowed(now_ms) is Some ==> after.remaining < remaining
            }
            &&& state.transferring() && !after.state.transferring() ==> {
                &&& endings(after.effects) == 1
                &&& remaining == 0
            }
        }),
{
    let (ticked, asked) = state.step(EventView::Tick { now_ms });
    let none = Seq::<EffectView>::empty();
    lemma_endings_of_tick(state, now_ms);
    assert forall|i: int| 0 <= i < asked.len() implies !(#[trigger] asked[i] is WriteChunk) by {}
    lemma_chunk_bytes_none(asked);
    assert forall|i: int| 0 <= i < asked.len() implies !#[trigger] is_completion(asked[i]) by {}
    assert(!completed(asked));
    lemma_quantum_bytes_bounds(state.settings, state.config.quantum_ms);
    match state.chunk_allowed(now_ms) {
        Some(limit) => {
            let given = bytes_given(limit, remaining);
            let answer = ReadBytes::of_read(asked_for(limit), Some(given));
            let (next, answered) = ticked.step(EventView::SourceRead(answer));
            let transfer = state.connection->0.transfer->0;
            let awaiting = ticked.connection->0.transfer->0;
            let bytes = quantum_bytes(state.settings, state.config.quantum_ms);
            let frame = frame_bits(state.settings) * 1000;
            let symbols = state.settings.baud_rate as int * state.config.quantum_ms as int;
            assert(bytes <= bytes * frame) by (nonlinear_arith)
                requires
                    bytes >= 0,
                    frame >= 1,
            ;
            assert(symbols <= 0xffff_ffff * 0xffff_ffff) by (nonlinear_arith)
                requires
                    symbols == state.settings.baud_rate as int * state.config.quantum_ms as int,
            ;
            assert(limit == bytes && limit >= 1);
            assert(asked_for(limit) >= 1);
            assert(awaiting == transfer.awaiting(Some(limit)));
            assert(ticked.awaiting_chunk());
            assert(chunk_bytes(none) == 0);
            assert(endings(none) == 0);
            lemma_endings_of_step(ticked, EventView::SourceRead(answer));
            lemma_endings_concat(asked, answered);
            lemma_chunk_bytes_concat(asked, answered);
            lemma_completed_concat(asked, answered);
            if remaining == 0 {
                assert(answer == ReadBytes::EndOfFile);
                assert(answered.len() == 2);
                assert(answered.drop_last() =~= seq![answered[0]]);
                assert(seq![answered[0]].drop_last() =~= none);
                assert(chunk_bytes(seq![answered[0]]) == chunk_length(answered[0]));
                assert(chunk_bytes(answered) == chunk_length(answered[0]) + chunk_length(
                    answered[1],
                ));
                assert(chunk_bytes(answered) == 0);
                assert(is_completion(answered[1]));
            } else {
                assert(answer == ReadBytes::Bytes(given));
                assert(awaiting.allowed(given) == given);
                let chunk = EffectView::WriteChunk { len: given };
                if answered.len() == 1 {
                    assert(answered.drop_last() =~= none);
                    assert(answered[0] == chunk);
                    assert(chunk_bytes(answered) == chunk_length(answered[0]));
                } else {
                    assert(answered.len() == 2);
                    assert(answered.drop_last() =~= seq![answered[0]]);
                    assert(seq![answered[0]].drop_last() =~= none);
                    assert(answered[1] == chunk);
                    assert(chunk_bytes(seq![answered[0]]) == chunk_length(answered[0]));
                    assert(chunk_bytes(answered) == chunk_length(answered[0]) + chunk_length(
                        answered[1],
                    ));
                }
                assert(chunk_bytes(answered) == given);
                assert forall|i: int| 0 <= i < answered.len() implies !#[trigger] is_completion(
                    answered[i],
                ) by {}
            }
        },
        None => {},
    }
}

/// A transfer from a source that reads without error, to a device that
/// stays open and takes every chunk: while it runs, what it has read is what
/// was handed to the device, and that and what is left of the source make up
/// the source; nothing is skipped and nothing is handed over twice. It ends
/// with one response, complete, and only when nothing is left of the
/// source. If every round is due a chunk and the link carries at least one
/// byte in a quantum, it has ended after one round more than the source had
/// bytes left.
pub proof fn lemma_faithful_transfer_completes(
    state: EngineView,
    remaining: nat,
    times: Seq<u64>,
    read: nat,
)
    requires
        state.transferring(),
        has_read(state, read),
        read + remaining <= u64::MAX,
    ensures
        ({
            let end = rounds(state, remaining, times);
            let handed = chunk_bytes(end.effects);
            &&& end.state.connected()
            &&& handed + end.remaining == remaining
            &&& end.state.transferring() ==> {
                &&& endings(end.effects) == 0
                &&& !completed(end.effects)
                &&& has_read(end.state, read + handed)
            }
            &&& !end.state.transferring() ==> {
                &&& endings(end.effects) == 1
                &&& completed(end.effects)
                &&& end.remaining == 0
                &&& handed == remaining
            }
            &&& every_round_due(state, remaining, times) && quantum_bytes(
                state.settings,
                state.config.quantum_ms,
            ) >= 1 && times.len() > remaining ==> !end.state.transferring()
        }),
{
    lemma_rounds(state, remaining, times, read);
}

proof fn lemma_rounds(state: EngineView, remaining: nat, times: Seq<u64>, read: nat)
    requires
        state.transferring(),
        has_read(state, read),
        read + remaining <= u64::MAX,
    ensures
        ({
            let end = rounds(state, remaining, times);
            let handed = chunk_bytes(end.effects);
            &&& end.state.connected()
            &&& end.state.config == state.config
            &&& end.state.settings == state.settings
            &&& handed + end.remaining == remaining
            &&& end.state.transferring() ==> {
                &&& endings(end.effects) == 0
                &&& !completed(end.effects)
                &&& has_read(end.state, read + handed)
                &&& every_round_due(state, remaining, times) && quantum_bytes(
                    state.settings,
                    state.config.quantum_ms,
                ) >= 1 ==> end.remaining + times.len() <= remaining
            }
            &&& !end.state.transferring() ==> {
                &&& endings(end.effects) == 1
                &&& completed(end.effects)
                &&& end.remaining == 0
            }
        }),
    decreases times.len(),
{
    let none = Seq::<EffectView>::empty();
    if times.len() == 0 {
        assert(endings(none) == 0);
        assert(chunk_bytes(none) == 0);
        assert(!completed(none));
    } else {
        lemma_rounds(state, remaining, times.drop_last(), read);
        let before = rounds(state, remaining, times.drop_last());
        let last = round(before.state, before.remaining, times.last());
        let so_far = read + chunk_bytes(before.effects);
        lemma_round(before.state, before.remaining, times.last(), so_far);
        lemma_endings_concat(before.effects, last.effects);
        lemma_chunk_bytes_concat(before.effects, last.effects);
        lemma_completed_concat(before.effects, last.effects);
    }
}

/// With no device open, a request to log to a file is answered with an
/// error at once: the state stays as it is and no file is touched.
pub proof fn lemma_log_needs_device(state: EngineView, path: PathBuf)
    requires
        !state.connected(),
    ensures
        state.step(EventView::Command(CommandView::LogToFile(path))) == (
            state,
            seq![EffectView::Respond(ResponseView::LogToFileError(no_device_message()))],
        ),
{
}

/// With no device open, a request to send a file is answered with an error
/// at once: the state stays as it is and no file is touched.
pub proof fn lemma_send_file_needs_device(state: EngineView, path: PathBuf)
    requires
        !state.connected(),
    ensures
        state.step(EventView::Command(CommandView::SendFile(path))) == (
            state,
            seq![EffectView::Respond(ResponseView::SendingFileError(no_device_message()))],
        ),
{
}

/// A disconnect with nothing open changes nothing and still answers with
/// success; with a device open it closes everything the session held and
/// answers with success.
pub proof fn lemma_disconnect(state: EngineView)
    ensures
        !state.connected() ==> state.step(EventView::Command(CommandView::Disconnect)) == (
            state,
            seq![EffectView::Respond(ResponseView::DisconnectSuccess)],
        ),
        !state.step(EventView::Command(CommandView::Disconnect)).0.connected(),
        state.step(EventView::Command(CommandView::Disconnect)).1.last() == EffectView::Respond(
            ResponseView::DisconnectSuccess,
        ),
{
    assert(seq![EffectView::Respond(ResponseView::DisconnectSuccess)] =~= Seq::<
        EffectView,
    >::empty() + seq![EffectView::Respond(ResponseView::DisconnectSuccess)]);
}

} // verus!
