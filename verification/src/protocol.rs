//! The messages that a client and the engine exchange.
//!
//! Commands travel from the client to the engine, responses travel back. Both
//! queues keep their order. Each type has a view that holds its strings and
//! byte buffers as sequences, and the contracts of the engine speak of the
//! views.

use crate::link::DataBits;
use crate::link::FlowControl;
use crate::link::Parity;
use crate::link::StopBits;
use std::path::PathBuf;
use vstd::prelude::*;

verus! {

/// A path in the file system. The engine never looks inside one: it hands
/// the path it was given on to whoever opens the file.
#[verifier::external_type_specification]
#[verifier::external_body]
pub struct ExPathBuf(PathBuf);

/// What a client can ask of the engine.
#[derive(Debug, PartialEq, Eq)]
pub enum SerialCommand {
    /// Stop the running file transfer.
    CancelSendFile,
    ChangeBaud(u32),
    ChangeDataBits(DataBits),
    ChangeFlowControl(FlowControl),
    ChangeStopBits(StopBits),
    ChangeParity(Parity),
    /// Move the open session to another device, keeping the link settings.
    ChangePort(String),
    /// Open the named device at the given baud rate.
    ConnectToPort { name: String, baud: u32 },
    Disconnect,
    /// Write these bytes to the open device.
    SendData(Vec<u8>),
    /// Transmit the file at this path, paced at the speed of the link.
    SendFile(PathBuf),
    /// Copy everything that is received to the file at this path.
    LogToFile(PathBuf),
    CancelLogToFile,
}

/// What the engine tells its client.
#[derive(Debug, PartialEq, Eq)]
pub enum SerialResponse {
    /// Bytes received from the device.
    Data(Vec<u8>),
    SendingFileCanceled,
    SendingFileComplete,
    /// The file has been opened and its data is going to be sent.
    SendingFileStarted,
    /// The percentage of the file that has been read so far.
    SendingFileProgress(u8),
    SendingFileError(String),
    /// The named device is open.
    OpenPortSuccess(String),
    OpenPortError(String),
    DisconnectSuccess,
    LogToFileError(String),
    LoggingFileCanceled,
    /// The open device is gone from the list of devices, which is attached
    /// in sorted order.
    UnexpectedDisconnection(Vec<String>),
    /// The sorted list of the devices found by a scan.
    PortsFound(Vec<String>),
}

/// The outcome of one attempt to read from the file that is being sent.
#[derive(Clone, Copy, Debug, PartialEq, Eq, Structural)]
pub enum ReadBytes {
    /// Number of bytes read from the file, 0 if none but not an error.
    Bytes(usize),
    /// The end of the file has been reached so no data was read.
    EndOfFile,
    /// An error was encountered reading from the file.
    FileError,
    /// No read was actually attempted.
    NoAttempt,
}

impl ReadBytes {
    /// What a read that was attempted amounts to, given the number of bytes
    /// that were asked for and the number that came, or nothing if the read
    /// failed. The source has ended where at least one byte was asked for
    /// and none came; a read that asked for no bytes says nothing of the
    /// end.
    pub open spec fn of_read(asked: usize, count: Option<usize>) -> ReadBytes {
        match count {
            Some(len) => if len == 0 && asked >= 1 {
                ReadBytes::EndOfFile
            } else {
                ReadBytes::Bytes(len)
            },
            None => ReadBytes::FileError,
        }
    }

    /// Classifies the outcome of a read that was attempted.
    pub fn from_read(asked: usize, count: Option<usize>) -> (read: ReadBytes)
        ensures
            read == ReadBytes::of_read(asked, count),
    {
        match count {
            Some(len) => if len == 0 && asked >= 1 {
                ReadBytes::EndOfFile
            } else {
                ReadBytes::Bytes(len)
            },
            None => ReadBytes::FileError,
        }
    }
}

/// The names of a list as sequences of characters.
pub open spec fn names_view(names: Seq<String>) -> Seq<Seq<char>> {
    names.map_values(|name: String| name@)
}

/// A command with its strings and bytes as sequences.
pub enum CommandView {
    CancelSendFile,
    ChangeBaud(u32),
    ChangeDataBits(DataBits),
    ChangeFlowControl(FlowControl),
    ChangeStopBits(StopBits),
    ChangeParity(Parity),
    ChangePort(Seq<char>),
    ConnectToPort { name: Seq<char>, baud: u32 },
    Disconnect,
    SendData(Seq<u8>),
    SendFile(PathBuf),
    LogToFile(PathBuf),
    CancelLogToFile,
}

/// A response with its strings and bytes as sequences.
pub enum ResponseView {
    Data(Seq<u8>),
    SendingFileCanceled,
    SendingFileComplete,
    SendingFileStarted,
    SendingFileProgress(u8),
    SendingFileError(Seq<char>),
    OpenPortSuccess(Seq<char>),
    OpenPortError(Seq<char>),
    DisconnectSuccess,
    LogToFileError(Seq<char>),
    LoggingFileCanceled,
    UnexpectedDisconnection(Seq<Seq<char>>),
    PortsFound(Seq<Seq<char>>),
}

impl View for SerialCommand {
    type V = CommandView;

    open spec fn view(&self) -> CommandView {
        match *self {
            SerialCommand::CancelSendFile => CommandView::CancelSendFile,
            SerialCommand::ChangeBaud(baud) => CommandView::ChangeBaud(baud),
            SerialCommand::ChangeDataBits(bits) => CommandView::ChangeDataBits(bits),
            SerialCommand::ChangeFlowControl(flow) => CommandView::ChangeFlowControl(flow),
            SerialCommand::ChangeStopBits(bits) => CommandView::ChangeStopBits(bits),
            SerialCommand::ChangeParity(parity) => CommandView::ChangeParity(parity),
            SerialCommand::ChangePort(name) => CommandView::ChangePort(name@),
            SerialCommand::ConnectToPort { name, baud } => CommandView::ConnectToPort {
                name: name@,
                baud,
            },
            SerialCommand::Disconnect => CommandView::Disconnect,
            SerialCommand::SendData(data) => CommandView::SendData(data@),
            SerialCommand::SendFile(path) => CommandView::SendFile(path),
            SerialCommand::LogToFile(path) => CommandView::LogToFile(path),
            SerialCommand::CancelLogToFile => CommandView::CancelLogToFile,
        }
    }
}

impl View for SerialResponse {
    type V = ResponseView;

    open spec fn view(&self) -> ResponseView {
        match *self {
            SerialResponse::Data(data) => ResponseView::Data(data@),
            SerialResponse::SendingFileCanceled => ResponseView::SendingFileCanceled,
            SerialResponse::SendingFileComplete => ResponseView::SendingFileComplete,
            SerialResponse::SendingFileStarted => ResponseView::SendingFileStarted,
            SerialResponse::SendingFileProgress(percent) => ResponseView::SendingFileProgress(
                percent,
            ),
            SerialResponse::SendingFileError(reason) => ResponseView::SendingFileError(reason@),
            SerialResponse::OpenPortSuccess(name) => ResponseView::OpenPortSuccess(name@),
            SerialResponse::OpenPortError(reason) => ResponseView::OpenPortError(reason@),
            SerialResponse::DisconnectSuccess => ResponseView::DisconnectSuccess,
            SerialResponse::LogToFileError(reason) => ResponseView::LogToFileError(reason@),
            SerialResponse::LoggingFileCanceled => ResponseView::LoggingFileCanceled,
            SerialResponse::UnexpectedDisconnection(names) => ResponseView::UnexpectedDisconnection(
                names_view(names@),
            ),
            SerialResponse::PortsFound(names) => ResponseView::PortsFound(names_view(names@)),
        }
    }
}

impl ResponseView {
    /// Whether this response ends a file transfer.
    pub open spec fn ends_transfer(self) -> bool {
        self is SendingFileComplete || self is SendingFileCanceled || self is SendingFileError
    }
}

} // verus!
