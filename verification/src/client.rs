//! The client's handle on the engine: the two ends of the queues that a
//! client holds, and one method for each command it can send.
//!
//! A baud rate arrives as text and is checked before anything is queued: a
//! baud rate is a positive number, and a string that does not denote one
//! never reaches the engine. A command that cannot be queued, because the
//! engine has gone, comes back to the caller inside the error.

use crate::link::DataBits;
use crate::link::FlowControl;
use crate::link::Parity;
use crate::link::StopBits;
use crate::protocol::CommandView;
use crate::protocol::SerialCommand;
use crate::protocol::SerialResponse;
use crate::text::positive_u32;
use core::num::NonZeroU32;
use core::num::ParseIntError;
use std::path::PathBuf;
use std::sync::mpsc::Receiver;
use std::sync::mpsc::Sender;
use vstd::prelude::*;
use vstd::slice::slice_to_vec;

verus! {

/// The sending half of a channel of the standard library.
#[verifier::external_type_specification]
#[verifier::external_body]
#[verifier::reject_recursive_types(T)]
pub struct ExSender<T>(Sender<T>);

/// The receiving half of a channel of the standard library.
#[verifier::external_type_specification]
#[verifier::external_body]
#[verifier::reject_recursive_types(T)]
pub struct ExReceiver<T>(Receiver<T>);

/// The error of the standard library's integer parser.
#[verifier::external_type_specification]
#[verifier::external_body]
pub struct ExParseIntError(ParseIntError);

/// Why a command was not sent.
#[derive(Debug, PartialEq, Eq)]
pub enum GeneralError {
    /// The text given for a number does not denote one.
    Parse(ParseIntError),
    /// The engine no longer listens. The command is handed back.
    Send(SerialCommand),
}

/// The client's two queue ends: responses come out of the first, commands go
/// into the second.
pub struct SerialThread {
    pub from_port_chan_rx: Receiver<SerialResponse>,
    pub to_port_chan_tx: Sender<SerialCommand>,
}

/// Calls `Sender::send` of `std::sync::mpsc`. Whether the command is queued
/// depends on whether the receiving half still exists, so nothing is claimed
/// of when that succeeds. When it fails, the standard library hands the value
/// back inside its error, and this function returns that value: it is the
/// command that was given.
#[verifier::external_body]
fn channel_send(tx: &Sender<SerialCommand>, command: SerialCommand) -> (outcome: Result<
    (),
    SerialCommand,
>)
    ensures
        outcome matches Err(returned) ==> returned == command,
{
    tx.send(command).map_err(|e| e.0)
}

/// Calls `str::parse::<NonZeroU32>` of the standard library and takes the
/// number out of the result. That parser accepts an optional plus sign
/// followed by decimal digits and nothing else, and fails on the empty
/// string, on any other character, on a value above `u32::MAX` and on the
/// value zero. The contract states this through `positive_u32`.
#[verifier::external_body]
fn parse_positive_u32(text: &str) -> (parsed: Result<u32, ParseIntError>)
    ensures
        match parsed {
            Ok(value) => positive_u32(text@) == Some(value),
            Err(_) => positive_u32(text@) is None,
        },
{
    match text.parse::<NonZeroU32>() {
        Ok(value) => Ok(value.get()),
        Err(e) => Err(e),
    }
}

/// What the caller of a send method is told, given what the channel said.
pub fn delivery(outcome: Result<(), SerialCommand>) -> (r: Result<(), GeneralError>)
    ensures
        r == match outcome {
            Ok(()) => Ok::<(), GeneralError>(()),
            Err(command) => Err(GeneralError::Send(command)),
        },
{
    match outcome {
        Ok(()) => Ok(()),
        Err(command) => Err(GeneralError::Send(command)),
    }
}

/// The baud rate that `text` denotes, or the parser's error where it
/// denotes none: a baud rate is a number of at least one.
pub fn baud_rate_of(text: &str) -> (r: Result<u32, GeneralError>)
    ensures
        match positive_u32(text@) {
            Some(baud) => r == Ok::<u32, GeneralError>(baud) && baud >= 1,
            None => r matches Err(GeneralError::Parse(_)),
        },
{
    match parse_positive_u32(text) {
        Ok(baud) => Ok(baud),
        Err(e) => Err(GeneralError::Parse(e)),
    }
}

/// What a send method returns when it was asked to send a command with the
/// view `sent`: either the command was queued, or it came back unsent.
pub open spec fn queued_or_returned(r: Result<(), GeneralError>, sent: CommandView) -> bool {
    match r {
        Ok(()) => true,
        Err(GeneralError::Send(command)) => command@ == sent,
        Err(GeneralError::Parse(_)) => false,
    }
}

impl SerialThread {
    /// Queues `command` for the engine as it stands. If the engine has gone,
    /// the command comes back in `GeneralError::Send`. The methods that take
    /// a baud rate as text check the text before they come here.
    pub fn send(&self, command: SerialCommand) -> (r: Result<(), GeneralError>)
        ensures
            r matches Err(e) ==> e == GeneralError::Send(command),
            queued_or_returned(r, command@),
    {
        delivery(channel_send(&self.to_port_chan_tx, command))
    }

    /// Asks the engine to open `port_name` at the baud rate that `baud_rate`
    /// denotes. Nothing is sent if `baud_rate` denotes no positive number.
    pub fn send_port_open_cmd(&self, port_name: String, baud_rate: String) -> (r: Result<
        (),
        GeneralError,
    >)
        ensures
            match positive_u32(baud_rate@) {
                Some(baud) => queued_or_returned(
                    r,
                    CommandView::ConnectToPort { name: port_name@, baud },
                ),
                None => r matches Err(GeneralError::Parse(_)),
            },
    {
        let baud = match baud_rate_of(baud_rate.as_str()) {
            Ok(baud) => baud,
            Err(e) => {
                return Err(e);
            },
        };
        self.send(SerialCommand::ConnectToPort { name: port_name, baud })
    }

    /// Asks the engine to close the open device.
    pub fn send_port_close_cmd(&self) -> (r: Result<(), GeneralError>)
        ensures
            queued_or_returned(r, CommandView::Disconnect),
    {
        self.send(SerialCommand::Disconnect)
    }

    /// Asks the engine to change the baud rate to the number that `baud_rate`
    /// denotes. Nothing is sent if it denotes no positive number.
    pub fn send_port_change_baud_cmd(&self, baud_rate: String) -> (r: Result<(), GeneralError>)
        ensures
            match positive_u32(baud_rate@) {
                Some(baud) => queued_or_returned(r, CommandView::ChangeBaud(baud)),
                None => r matches Err(GeneralError::Parse(_)),
            },
    {
        let baud = match baud_rate_of(baud_rate.as_str()) {
            Ok(baud) => baud,
            Err(e) => {
                return Err(e);
            },
        };
        self.send(SerialCommand::ChangeBaud(baud))
    }

    /// Asks the engine to change the number of data bits.
    pub fn send_port_change_data_bits_cmd(&self, data_bits: DataBits) -> (r: Result<
        (),
        GeneralError,
    >)
        ensures
            queued_or_returned(r, CommandView::ChangeDataBits(data_bits)),
    {
        self.send(SerialCommand::ChangeDataBits(data_bits))
    }

    /// Asks the engine to change the flow control.
    pub fn send_port_change_flow_control_cmd(&self, flow_control: FlowControl) -> (r: Result<
        (),
        GeneralError,
    >)
        ensures
            queued_or_returned(r, CommandView::ChangeFlowControl(flow_control)),
    {
        self.send(SerialCommand::ChangeFlowControl(flow_control))
    }

    /// Asks the engine to change the number of stop bits.
    pub fn send_port_change_stop_bits_cmd(&self, stop_bits: StopBits) -> (r: Result<
        (),
        GeneralError,
    >)
        ensures
            queued_or_returned(r, CommandView::ChangeStopBits(stop_bits)),
    {
        self.send(SerialCommand::ChangeStopBits(stop_bits))
    }

    /// Asks the engine to change the parity.
    pub fn send_port_change_parity_cmd(&self, parity: Parity) -> (r: Result<(), GeneralError>)
        ensures
            queued_or_returned(r, CommandView::ChangeParity(parity)),
    {
        self.send(SerialCommand::ChangeParity(parity))
    }

    /// Asks the engine to move the open session to `port_name`.
    pub fn send_port_change_port_cmd(&self, port_name: String) -> (r: Result<(), GeneralError>)
        ensures
            queued_or_returned(r, CommandView::ChangePort(port_name@)),
    {
        self.send(SerialCommand::ChangePort(port_name))
    }

    /// Asks the engine to write `data` to the open device.
    pub fn send_port_data_cmd(&self, data: &[u8]) -> (r: Result<(), GeneralError>)
        ensures
            queued_or_returned(r, CommandView::SendData(data@)),
    {
        self.send(SerialCommand::SendData(slice_to_vec(data)))
    }

    /// Asks the engine to transmit the file at `path`.
    pub fn send_port_file_cmd(&self, path: PathBuf) -> (r: Result<(), GeneralError>)
        ensures
            queued_or_returned(r, CommandView::SendFile(path)),
    {
        self.send(SerialCommand::SendFile(path))
    }

    /// Asks the engine to stop the running file transfer.
    pub fn send_cancel_file_cmd(&self) -> (r: Result<(), GeneralError>)
        ensures
            queued_or_returned(r, CommandView::CancelSendFile),
    {
        self.send(SerialCommand::CancelSendFile)
    }

    /// Asks the engine to copy what it receives to the file at `path`.
    pub fn send_log_to_file_cmd(&self, path: PathBuf) -> (r: Result<(), GeneralError>)
        ensures
            queued_or_returned(r, CommandView::LogToFile(path)),
    {
        self.send(SerialCommand::LogToFile(path))
    }

    /// Asks the engine to stop copying what it receives to a file.
    pub fn send_cancel_log_to_file_cmd(&self) -> (r: Result<(), GeneralError>)
        ensures
            queued_or_returned(r, CommandView::CancelLogToFile),
    {
        self.send(SerialCommand::CancelLogToFile)
    }
}

} // verus!
