use gattii::DataBits;
use gattii::FlowControl;
use gattii::GeneralError;
use gattii::Parity;
use gattii::SerialCommand;
use gattii::SerialResponse;
use gattii::SerialThread;
use gattii::StopBits;
use std::path::PathBuf;
use std::sync::mpsc::channel;
use std::sync::mpsc::Receiver;
use std::sync::mpsc::Sender;

struct Ends {
    handle: SerialThread,
    commands: Receiver<SerialCommand>,
    _responses: Sender<SerialResponse>,
}

fn connected_handle() -> Ends {
    let (response_tx, response_rx) = channel();
    let (command_tx, command_rx) = channel();
    Ends {
        handle: SerialThread { from_port_chan_rx: response_rx, to_port_chan_tx: command_tx },
        commands: command_rx,
        _responses: response_tx,
    }
}

fn orphaned_handle() -> SerialThread {
    let (_response_tx, response_rx) = channel::<SerialResponse>();
    let (command_tx, _command_rx) = channel::<SerialCommand>();
    SerialThread { from_port_chan_rx: response_rx, to_port_chan_tx: command_tx }
}

#[test]
fn open_command_carries_name_and_parsed_baud() {
    let ends = connected_handle();
    let sent = ends.handle.send_port_open_cmd("/dev/ttyUSB0".to_string(), "115200".to_string());
    assert_eq!(sent, Ok(()));
    assert_eq!(
        ends.commands.try_recv(),
        Ok(SerialCommand::ConnectToPort { name: "/dev/ttyUSB0".to_string(), baud: 115200 })
    );
    assert!(ends.commands.try_recv().is_err());
}

#[test]
fn open_command_with_bad_baud_is_not_queued() {
    let ends = connected_handle();
    let sent = ends.handle.send_port_open_cmd("COM3".to_string(), "fast".to_string());
    assert!(matches!(sent, Err(GeneralError::Parse(_))));
    assert!(ends.commands.try_recv().is_err());
}

#[test]
fn baud_text_follows_decimal_rules() {
    let accepted: Vec<(&str, u32)> = vec![
        ("1", 1),
        ("9600", 9600),
        ("+9600", 9600),
        ("0009600", 9600),
        ("4294967295", 4294967295),
        ("00000000004294967295", 4294967295),
    ];
    for (text, baud) in accepted {
        let ends = connected_handle();
        assert_eq!(ends.handle.send_port_change_baud_cmd(text.to_string()), Ok(()));
        assert_eq!(ends.commands.try_recv(), Ok(SerialCommand::ChangeBaud(baud)));
    }
    let rejected: Vec<&str> = vec![
        "0", "+0", "000", "-0", "", "+", "-", "-1", "++1", "+-1", " 9600", "9600 ", "96 00", "9_600", "9600.0", "0x10",
        "4294967296", "99999999999999999999", "nine", "\u{0663}\u{0664}",
    ];
    for text in rejected {
        let ends = connected_handle();
        let sent = ends.handle.send_port_change_baud_cmd(text.to_string());
        assert!(matches!(sent, Err(GeneralError::Parse(_))), "{:?} was accepted", text);
        assert!(ends.commands.try_recv().is_err());
    }
}

#[test]
fn parse_error_is_the_one_of_the_standard_parser() {
    let ends = connected_handle();
    let expected = "12a".parse::<u32>().unwrap_err();
    assert_eq!(
        ends.handle.send_port_change_baud_cmd("12a".to_string()),
        Err(GeneralError::Parse(expected))
    );
}

#[test]
fn zero_is_no_baud_rate() {
    let ends = connected_handle();
    let expected = "0".parse::<std::num::NonZeroU32>().unwrap_err();
    assert_eq!(
        ends.handle.send_port_change_baud_cmd("0".to_string()),
        Err(GeneralError::Parse(expected.clone()))
    );
    assert_eq!(
        ends.handle.send_port_open_cmd("COM3".to_string(), "+000".to_string()),
        Err(GeneralError::Parse(expected))
    );
    assert!(ends.commands.try_recv().is_err());
    assert_eq!(ends.handle.send_port_open_cmd("COM3".to_string(), "0001".to_string()), Ok(()));
    assert_eq!(
        ends.commands.try_recv(),
        Ok(SerialCommand::ConnectToPort { name: "COM3".to_string(), baud: 1 })
    );
}

#[test]
fn every_command_arrives_in_order() {
    let ends = connected_handle();
    let handle = &ends.handle;
    assert_eq!(handle.send_port_open_cmd("a".to_string(), "9600".to_string()), Ok(()));
    assert_eq!(handle.send_port_change_baud_cmd("19200".to_string()), Ok(()));
    assert_eq!(handle.send_port_change_data_bits_cmd(DataBits::Seven), Ok(()));
    assert_eq!(handle.send_port_change_flow_control_cmd(FlowControl::Hardware), Ok(()));
    assert_eq!(handle.send_port_change_stop_bits_cmd(StopBits::Two), Ok(()));
    assert_eq!(handle.send_port_change_parity_cmd(Parity::Even), Ok(()));
    assert_eq!(handle.send_port_change_port_cmd("b".to_string()), Ok(()));
    assert_eq!(handle.send_port_data_cmd(&[1, 2, 3]), Ok(()));
    assert_eq!(handle.send_port_file_cmd(PathBuf::from("in.bin")), Ok(()));
    assert_eq!(handle.send_cancel_file_cmd(), Ok(()));
    assert_eq!(handle.send_log_to_file_cmd(PathBuf::from("out.log")), Ok(()));
    assert_eq!(handle.send_cancel_log_to_file_cmd(), Ok(()));
    assert_eq!(handle.send_port_close_cmd(), Ok(()));

    let expected = vec![
        SerialCommand::ConnectToPort { name: "a".to_string(), baud: 9600 },
        SerialCommand::ChangeBaud(19200),
        SerialCommand::ChangeDataBits(DataBits::Seven),
        SerialCommand::ChangeFlowControl(FlowControl::Hardware),
        SerialCommand::ChangeStopBits(StopBits::Two),
        SerialCommand::ChangeParity(Parity::Even),
        SerialCommand::ChangePort("b".to_string()),
        SerialCommand::SendData(vec![1, 2, 3]),
        SerialCommand::SendFile(PathBuf::from("in.bin")),
        SerialCommand::CancelSendFile,
        SerialCommand::LogToFile(PathBuf::from("out.log")),
        SerialCommand::CancelLogToFile,
        SerialCommand::Disconnect,
    ];
    for command in expected {
        assert_eq!(ends.commands.try_recv(), Ok(command));
    }
    assert!(ends.commands.try_recv().is_err());
}

#[test]
fn empty_data_is_still_a_command() {
    let ends = connected_handle();
    assert_eq!(ends.handle.send_port_data_cmd(&[]), Ok(()));
    assert_eq!(ends.commands.try_recv(), Ok(SerialCommand::SendData(vec![])));
}

#[test]
fn command_comes_back_when_the_engine_is_gone() {
    let handle = orphaned_handle();
    assert_eq!(
        handle.send_port_open_cmd("a".to_string(), "9600".to_string()),
        Err(GeneralError::Send(SerialCommand::ConnectToPort { name: "a".to_string(), baud: 9600 }))
    );
    assert_eq!(
        handle.send_port_close_cmd(),
        Err(GeneralError::Send(SerialCommand::Disconnect))
    );
    assert_eq!(
        handle.send_port_change_baud_cmd("300".to_string()),
        Err(GeneralError::Send(SerialCommand::ChangeBaud(300)))
    );
    assert_eq!(
        handle.send_port_change_data_bits_cmd(DataBits::Five),
        Err(GeneralError::Send(SerialCommand::ChangeDataBits(DataBits::Five)))
    );
    assert_eq!(
        handle.send_port_change_flow_control_cmd(FlowControl::Software),
        Err(GeneralError::Send(SerialCommand::ChangeFlowControl(FlowControl::Software)))
    );
    assert_eq!(
        handle.send_port_change_stop_bits_cmd(StopBits::One),
        Err(GeneralError::Send(SerialCommand::ChangeStopBits(StopBits::One)))
    );
    assert_eq!(
        handle.send_port_change_parity_cmd(Parity::Odd),
        Err(GeneralError::Send(SerialCommand::ChangeParity(Parity::Odd)))
    );
    assert_eq!(
        handle.send_port_change_port_cmd("b".to_string()),
        Err(GeneralError::Send(SerialCommand::ChangePort("b".to_string())))
    );
    assert_eq!(
        handle.send_port_data_cmd(b"hello"),
        Err(GeneralError::Send(SerialCommand::SendData(b"hello".to_vec())))
    );
    assert_eq!(
        handle.send_port_file_cmd(PathBuf::from("f")),
        Err(GeneralError::Send(SerialCommand::SendFile(PathBuf::from("f"))))
    );
    assert_eq!(
        handle.send_cancel_file_cmd(),
        Err(GeneralError::Send(SerialCommand::CancelSendFile))
    );
    assert_eq!(
        handle.send_log_to_file_cmd(PathBuf::from("l")),
        Err(GeneralError::Send(SerialCommand::LogToFile(PathBuf::from("l"))))
    );
    assert_eq!(
        handle.send_cancel_log_to_file_cmd(),
        Err(GeneralError::Send(SerialCommand::CancelLogToFile))
    );
}

#[test]
fn bad_baud_is_reported_before_a_dead_queue() {
    let handle = orphaned_handle();
    assert!(matches!(
        handle.send_port_open_cmd("a".to_string(), "".to_string()),
        Err(GeneralError::Parse(_))
    ));
}

#[test]
fn send_hands_any_command_to_the_queue() {
    let ends = connected_handle();
    assert_eq!(ends.handle.send(SerialCommand::ChangeBaud(1)), Ok(()));
    assert_eq!(ends.commands.try_recv(), Ok(SerialCommand::ChangeBaud(1)));
}

#[test]
fn delivery_wraps_a_returned_command() {
    assert_eq!(gattii::client::delivery(Ok(())), Ok(()));
    assert_eq!(
        gattii::client::delivery(Err(SerialCommand::Disconnect)),
        Err(GeneralError::Send(SerialCommand::Disconnect))
    );
}

#[test]
fn baud_rate_of_reads_a_number() {
    assert_eq!(gattii::client::baud_rate_of("57600"), Ok(57600));
    assert_eq!(gattii::client::baud_rate_of("1"), Ok(1));
    assert!(matches!(gattii::client::baud_rate_of("0"), Err(GeneralError::Parse(_))));
    assert!(matches!(gattii::client::baud_rate_of("57k6"), Err(GeneralError::Parse(_))));
}
