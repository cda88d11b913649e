use ground_control::serial_connection::{
    is_standard_baud_rate, standard_baud_rates, status_label, ConfigError, ReadError,
    SerialConnection, Status,
    DEFAULT_BAUD_RATE,
};

const RATES: [u32; 23] = [
    50, 75, 110, 134, 150, 200, 300, 600, 1200, 1800, 2400, 4800, 9600, 19200, 28800, 38400,
    57600, 76800, 115200, 230400, 460800, 576000, 921600,
];

fn in_state(status: Status) -> SerialConnection {
    let mut link = SerialConnection::new();
    match status {
        Status::Disconnected => {}
        Status::Connecting => {
            assert!(link.connect("COM1".to_string()).is_some());
        }
        Status::Connected => {
            assert!(link.connect("COM1".to_string()).is_some());
            link.complete(true);
        }
        Status::Disconnecting => {
            assert!(link.connect("COM1".to_string()).is_some());
            link.complete(true);
            assert!(link.disconnect());
        }
        Status::Failed => {
            assert!(link.connect("COM1".to_string()).is_some());
            link.complete(false);
        }
    }
    assert_eq!(link.connection_status(), status);
    link
}

#[test]
fn new_link_is_down() {
    let link = SerialConnection::new();
    assert_eq!(link.connection_status(), Status::Disconnected);
    assert!(link.connection_allowed());
    assert!(!link.disconnection_allowed());
    assert_eq!(link.bytes_read(), 0);
    assert!(link.known_ports().is_empty());
    assert_eq!(link.selected_port(), "");
    assert_eq!(link.baud_rate(), DEFAULT_BAUD_RATE);
    assert_eq!(link.baud_rate(), 115_200);
}

#[test]
fn standard_baud_rates_are_the_listed_ones() {
    assert_eq!(standard_baud_rates(), RATES.to_vec());
    for rate in RATES {
        assert!(is_standard_baud_rate(rate));
    }
}

#[test]
fn every_listed_baud_rate_is_accepted() {
    for rate in RATES {
        let mut link = SerialConnection::new();
        assert_eq!(link.set_baud_rate(rate), Ok(()));
        assert_eq!(link.baud_rate(), rate);
    }
}

#[test]
fn other_baud_rates_are_rejected() {
    let mut link = SerialConnection::new();
    for rate in [0u32, 1, 49, 51, 9599, 9601, 14400, 100_000, 115_201, 250_000, 1_000_000, u32::MAX] {
        assert!(!is_standard_baud_rate(rate));
        assert_eq!(link.set_baud_rate(rate), Err(ConfigError::UnsupportedBaudRate));
        assert_eq!(link.baud_rate(), DEFAULT_BAUD_RATE);
    }
}

#[test]
fn exactly_the_listed_rates_below_a_million() {
    let mut accepted: Vec<u32> = Vec::new();
    for rate in 0..1_000_000u32 {
        if is_standard_baud_rate(rate) {
            accepted.push(rate);
        }
    }
    assert_eq!(accepted, RATES.to_vec());
}

#[test]
fn configuration_is_fixed_while_in_flight() {
    for status in [Status::Connecting, Status::Disconnecting] {
        let mut link = in_state(status);
        assert_eq!(link.set_baud_rate(9600), Err(ConfigError::Busy));
        assert_eq!(link.set_baud_rate(9601), Err(ConfigError::UnsupportedBaudRate));
        assert_eq!(link.select_port("COM7".to_string()), Err(ConfigError::Busy));
        assert_eq!(link.baud_rate(), DEFAULT_BAUD_RATE);
        assert_eq!(link.selected_port(), "");
        assert_eq!(link.connection_status(), status);
    }
}

#[test]
fn configuration_can_change_while_not_in_flight() {
    for status in [Status::Disconnected, Status::Connected, Status::Failed] {
        let mut link = in_state(status);
        assert_eq!(link.set_baud_rate(9600), Ok(()));
        assert_eq!(link.select_port("COM7".to_string()), Ok(()));
        assert_eq!(link.baud_rate(), 9600);
        assert_eq!(link.selected_port(), "COM7");
        assert_eq!(link.select_port(String::new()), Ok(()));
        assert_eq!(link.selected_port(), "");
        assert_eq!(link.connection_status(), status);
    }
}

#[test]
fn connect_is_a_no_op_while_busy_or_up() {
    for status in [Status::Connecting, Status::Connected, Status::Disconnecting] {
        let mut link = in_state(status);
        assert!(!link.connection_allowed());
        assert!(link.connect("COM2".to_string()).is_none());
        assert!(link.connect(String::new()).is_none());
        assert_eq!(link.connection_status(), status);
        assert_eq!(link.baud_rate(), DEFAULT_BAUD_RATE);
        assert_eq!(link.bytes_read(), 0);
    }
}

#[test]
fn connect_without_a_port_is_a_no_op() {
    for status in [Status::Disconnected, Status::Failed] {
        let mut link = in_state(status);
        assert!(link.connect(String::new()).is_none());
        assert_eq!(link.connection_status(), status);
    }
}

#[test]
fn successful_connect_passes_through_connecting() {
    for status in [Status::Disconnected, Status::Failed] {
        let mut link = in_state(status);
        assert_eq!(link.set_baud_rate(57600), Ok(()));
        let request = link.connect("/dev/ttyUSB0".to_string()).unwrap();
        assert_eq!(request.port_name, "/dev/ttyUSB0");
        assert_eq!(request.baud_rate, 57600);
        assert_eq!(link.connection_status(), Status::Connecting);
        assert!(!link.connection_allowed());
        assert!(!link.disconnection_allowed());
        link.complete(true);
        assert_eq!(link.connection_status(), Status::Connected);
        assert!(link.disconnection_allowed());
    }
}

#[test]
fn failed_connect_ends_in_failed_and_can_be_retried() {
    let mut link = SerialConnection::new();
    assert!(link.connect("COM1".to_string()).is_some());
    link.complete(false);
    assert_eq!(link.connection_status(), Status::Failed);
    assert!(link.connection_allowed());
    assert!(!link.disconnection_allowed());
    assert!(link.connect("COM1".to_string()).is_some());
    assert_eq!(link.connection_status(), Status::Connecting);
}

#[test]
fn disconnect_is_granted_only_when_up() {
    for status in [Status::Disconnected, Status::Connecting, Status::Disconnecting, Status::Failed] {
        let mut link = in_state(status);
        assert!(!link.disconnection_allowed());
        assert!(!link.disconnect());
        assert_eq!(link.connection_status(), status);
    }
    let mut link = in_state(Status::Connected);
    assert!(link.disconnect());
    assert_eq!(link.connection_status(), Status::Disconnecting);
    link.complete(true);
    assert_eq!(link.connection_status(), Status::Disconnected);
}

#[test]
fn failed_disconnect_ends_in_failed() {
    let mut link = in_state(Status::Disconnecting);
    link.complete(false);
    assert_eq!(link.connection_status(), Status::Failed);
}

#[test]
fn report_with_nothing_in_flight_changes_nothing() {
    for status in [Status::Disconnected, Status::Connected, Status::Failed] {
        for succeeded in [true, false] {
            let mut link = in_state(status);
            link.complete(succeeded);
            assert_eq!(link.connection_status(), status);
        }
    }
}

#[test]
fn read_byte_needs_an_open_port() {
    for status in [Status::Disconnected, Status::Connecting, Status::Disconnecting, Status::Failed] {
        let mut link = in_state(status);
        assert_eq!(link.read_byte(Some(0x42)), Err(ReadError::NotConnected));
        assert_eq!(link.read_byte(None), Err(ReadError::NotConnected));
        assert_eq!(link.bytes_read(), 0);
    }
}

#[test]
fn read_byte_gives_one_byte_and_counts_it() {
    let mut link = in_state(Status::Connected);
    assert_eq!(link.read_byte(None), Err(ReadError::NoDataAvailable));
    assert_eq!(link.bytes_read(), 0);
    assert_eq!(link.read_byte(Some(0xFD)), Ok(0xFD));
    assert_eq!(link.bytes_read(), 1);
    assert_eq!(link.read_byte(Some(0x00)), Ok(0x00));
    assert_eq!(link.bytes_read(), 2);
    assert_eq!(link.read_byte(None), Err(ReadError::NoDataAvailable));
    assert_eq!(link.bytes_read(), 2);
    assert_eq!(link.connection_status(), Status::Connected);
}

#[test]
fn bytes_read_never_goes_down() {
    let mut link = in_state(Status::Connected);
    let mut last = 0;
    for n in 0..50u8 {
        let _ = link.read_byte(if n % 3 == 0 { None } else { Some(n) });
        assert!(link.bytes_read() >= last);
        last = link.bytes_read();
    }
    assert!(link.disconnect());
    link.complete(true);
    assert_eq!(link.bytes_read(), last);
    assert!(link.connect("COM1".to_string()).is_some());
    assert_eq!(link.bytes_read(), last);
}

#[test]
fn refresh_replaces_the_known_ports() {
    for status in [
        Status::Disconnected,
        Status::Connecting,
        Status::Connected,
        Status::Disconnecting,
        Status::Failed,
    ] {
        let mut link = in_state(status);
        link.refresh_known_ports(vec!["COM1".to_string(), "COM3".to_string()]);
        assert_eq!(link.known_ports(), &vec!["COM1".to_string(), "COM3".to_string()]);
        link.refresh_known_ports(vec!["COM4".to_string()]);
        assert_eq!(link.known_ports(), &vec!["COM4".to_string()]);
        link.refresh_known_ports(Vec::new());
        assert!(link.known_ports().is_empty());
        assert_eq!(link.connection_status(), status);
    }
}

#[test]
fn status_is_shown_in_words() {
    assert_eq!(status_label(Status::Disconnected), "Disconnected");
    assert_eq!(status_label(Status::Connecting), "Connecting...");
    assert_eq!(status_label(Status::Connected), "Connected");
    assert_eq!(status_label(Status::Disconnecting), "Disconnecting...");
    assert_eq!(status_label(Status::Failed), "Failed");
}
