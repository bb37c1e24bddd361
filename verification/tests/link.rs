use gattii::DataBits;
use gattii::FlowControl;
use gattii::LinkSettings;
use gattii::Parity;
use gattii::StopBits;

fn settings(baud_rate: u32, data_bits: DataBits, parity: Parity, stop_bits: StopBits) -> LinkSettings {
    LinkSettings { baud_rate, data_bits, flow_control: FlowControl::NoFlowControl, parity, stop_bits }
}

#[test]
fn default_settings_are_9600_8n1() {
    assert_eq!(
        LinkSettings::default(),
        LinkSettings {
            baud_rate: 9600,
            data_bits: DataBits::Eight,
            flow_control: FlowControl::NoFlowControl,
            parity: Parity::NoParity,
            stop_bits: StopBits::One,
        }
    );
}

#[test]
fn bit_counts_of_each_setting() {
    assert_eq!(DataBits::Five.bits(), 5);
    assert_eq!(DataBits::Six.bits(), 6);
    assert_eq!(DataBits::Seven.bits(), 7);
    assert_eq!(DataBits::Eight.bits(), 8);
    assert_eq!(Parity::NoParity.bits(), 0);
    assert_eq!(Parity::Odd.bits(), 1);
    assert_eq!(Parity::Even.bits(), 1);
    assert_eq!(StopBits::One.bits(), 1);
    assert_eq!(StopBits::Two.bits(), 2);
}

#[test]
fn frame_of_8n1_has_ten_bits() {
    let s = settings(9600, DataBits::Eight, Parity::NoParity, StopBits::One);
    assert_eq!(s.bits_per_character(), 10);
}

#[test]
fn frame_counts_parity_and_stop_bits() {
    assert_eq!(settings(9600, DataBits::Five, Parity::NoParity, StopBits::One).bits_per_character(), 7);
    assert_eq!(settings(9600, DataBits::Seven, Parity::Even, StopBits::One).bits_per_character(), 10);
    assert_eq!(settings(9600, DataBits::Eight, Parity::Odd, StopBits::One).bits_per_character(), 11);
    assert_eq!(settings(9600, DataBits::Eight, Parity::Odd, StopBits::Two).bits_per_character(), 12);
}

#[test]
fn frame_does_not_depend_on_flow_control() {
    let mut s = settings(9600, DataBits::Eight, Parity::NoParity, StopBits::One);
    s.flow_control = FlowControl::Hardware;
    assert_eq!(s.bits_per_character(), 10);
    s.flow_control = FlowControl::Software;
    assert_eq!(s.bits_per_character(), 10);
}

#[test]
fn quantum_of_9600_8n1_is_nine_bytes() {
    // 960 bytes a second, 9.6 in ten milliseconds, rounded down
    let s = settings(9600, DataBits::Eight, Parity::NoParity, StopBits::One);
    assert_eq!(s.bytes_per_quantum(10), 9);
}

#[test]
fn quantum_bytes_round_down() {
    let fast = settings(115200, DataBits::Eight, Parity::NoParity, StopBits::One);
    assert_eq!(fast.bytes_per_quantum(10), 115);
    assert_eq!(fast.bytes_per_quantum(1), 11);
    assert_eq!(fast.bytes_per_quantum(1000), 11520);
    let framed = settings(115200, DataBits::Eight, Parity::Even, StopBits::Two);
    assert_eq!(framed.bytes_per_quantum(10), 96);
    let short = settings(9600, DataBits::Five, Parity::NoParity, StopBits::One);
    assert_eq!(short.bytes_per_quantum(10), 13);
}

#[test]
fn slow_link_carries_nothing_in_a_quantum() {
    let s = settings(300, DataBits::Eight, Parity::NoParity, StopBits::One);
    assert_eq!(s.bytes_per_quantum(10), 0);
    assert_eq!(s.bytes_per_quantum(34), 1);
    let idle = settings(0, DataBits::Eight, Parity::NoParity, StopBits::One);
    assert_eq!(idle.bytes_per_quantum(10), 0);
}

#[test]
fn quantum_bytes_at_the_limits() {
    let s = settings(u32::MAX, DataBits::Five, Parity::NoParity, StopBits::One);
    assert_eq!(s.bytes_per_quantum(u32::MAX), 18446744065119617025u64 / 7000);
    assert_eq!(s.bytes_per_quantum(0), 0);
}
