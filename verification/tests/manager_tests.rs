use lulu_serial_port::listing::{has_complete_usb_info, port_listing};
use lulu_serial_port::manager::{line_contains, strip_line_terminator, wait_step};
use lulu_serial_port::mqtt::{elapsed_nanos, lulu_topic, short_id_from_nanos};
use lulu_serial_port::ports::{PortInfo, UsbPortInfo};
use lulu_serial_port::{
    generate_short_id, DataBits, Error, FlowControl, MqttConfig, Parity, ParseUriError,
    ReconnectBackoff, SerialPortConfig, StopBits, WaitEvent,
};

#[test]
fn mqtt_config_defaults() {
    let c = MqttConfig::default();
    assert_eq!(c.broker_host, "127.0.0.1");
    assert_eq!(c.broker_port, 1883);
    assert_eq!(c.client_id_prefix, "lulu-serial-port");
    assert_eq!(c.keep_alive_secs, 5);
    let copy = c.clone();
    assert_eq!(copy.broker_host, c.broker_host);
}

#[test]
fn mqtt_config_struct_update() {
    let c = MqttConfig { broker_host: "192.168.1.10".to_string(), broker_port: 1883, ..Default::default() };
    assert_eq!(c.broker_host, "192.168.1.10");
    assert_eq!(c.keep_alive_secs, 5);
}

#[test]
fn topics() {
    assert_eq!(lulu_topic("serial/my-device", "rx"), "lulu/serial/my-device/rx");
    assert_eq!(lulu_topic("", ""), "lulu//");
}

#[test]
fn client_ids() {
    assert_eq!(short_id_from_nanos(0), "00000000");
    assert_eq!(short_id_from_nanos(999_999_999), "3b9ac9ff");
    assert_eq!(short_id_from_nanos(0xdead), "0000dead");
    let id = generate_short_id();
    assert_eq!(id.len(), 8);
    assert!(id.chars().all(|c| c.is_ascii_hexdigit() && !c.is_ascii_uppercase()));
    assert!(u32::from_str_radix(&id, 16).unwrap() < 1_000_000_000);
    let c = MqttConfig::default();
    assert_eq!(c.client_id("0000beef"), "lulu-serial-port-0000beef");
}

#[test]
fn backoff_doubles_then_caps_and_resets() {
    let mut b = ReconnectBackoff::new();
    assert_eq!(b.current_delay_ms(), 1000);
    let sleeps: Vec<u64> = (0..7).map(|_| b.on_poll(false).unwrap()).collect();
    assert_eq!(sleeps, vec![1000, 2000, 4000, 8000, 16000, 30000, 30000]);
    assert_eq!(b.on_poll(true), None);
    assert_eq!(b.current_delay_ms(), 1000);
    assert_eq!(b.on_poll(false), Some(1000));
    assert_eq!(b.current_delay_ms(), 2000);
}

#[test]
fn serial_port_config_defaults() {
    let c = SerialPortConfig::default();
    assert_eq!(c.port_name, "");
    assert_eq!(c.baud_rate, 9600);
    assert!(matches!(c.parity, Parity::NoParity));
    assert!(matches!(c.data_bits, DataBits::Eight));
    assert!(matches!(c.stop_bits, StopBits::One));
    assert!(matches!(c.flow_control, FlowControl::NoFlowControl));
    assert_eq!(c.lulu_source, "");
    assert_eq!(c.lulu_rx_attribute, "rx");
    assert_eq!(c.lulu_tx_attribute, "tx");
}

#[test]
fn config_from_uri() {
    let c = SerialPortConfig::from_uri(
        "serial:///dev/ttyUSB0?baud=115200&parity=e&data=7&stop=2&flow=sw",
        "serial/my-device",
        "rx",
        "tx",
        no_scan,
    )
    .unwrap();
    assert_eq!(c.port_name, "/dev/ttyUSB0");
    assert_eq!(c.baud_rate, 115_200);
    assert!(matches!(c.parity, Parity::Even));
    assert!(matches!(c.data_bits, DataBits::Seven));
    assert!(matches!(c.stop_bits, StopBits::Two));
    assert!(matches!(c.flow_control, FlowControl::Software));
    assert_eq!(c.lulu_source, "serial/my-device");
    assert_eq!(c.lulu_rx_attribute, "rx");
    assert_eq!(c.lulu_tx_attribute, "tx");
}

#[test]
fn config_from_uri_errors() {
    assert!(matches!(
        SerialPortConfig::from_uri("tty://COM1", "s", "rx", "tx", no_scan),
        Err(Error::Uri(ParseUriError::InvalidScheme))
    ));
    assert!(matches!(
        SerialPortConfig::from_uri("serial://", "s", "rx", "tx", no_scan),
        Err(Error::Uri(ParseUriError::PortNotFound(_)))
    ));
    assert!(matches!(
        SerialPortConfig::from_uri("serial://COM1?stop=9", "s", "rx", "tx", no_scan),
        Err(Error::Uri(ParseUriError::InvalidParam { .. }))
    ));
}

#[test]
fn error_from_parse_error() {
    let e: Error = ParseUriError::InvalidScheme.into();
    assert!(matches!(e, Error::Uri(ParseUriError::InvalidScheme)));
    let io = std::io::Error::new(std::io::ErrorKind::Other, "boom");
    let e: Error = io.into();
    assert!(matches!(e, Error::Io(_)));
}

#[test]
fn line_terminators() {
    assert_eq!(strip_line_terminator("OK\r\n"), "OK");
    assert_eq!(strip_line_terminator("OK\n\r\n\n"), "OK");
    assert_eq!(strip_line_terminator("a\rb\n"), "a\rb");
    assert_eq!(strip_line_terminator("\r\n"), "");
    assert_eq!(strip_line_terminator("plain"), "plain");
    assert_eq!(strip_line_terminator(" x \n"), " x ");
}

fn device_config() -> SerialPortConfig {
    SerialPortConfig {
        lulu_source: "serial/dev".to_string(),
        lulu_rx_attribute: "in".to_string(),
        lulu_tx_attribute: "out".to_string(),
        ..SerialPortConfig::default()
    }
}

#[test]
fn rx_and_tx_messages() {
    let c = device_config();
    let rx = c.rx_message("+CSQ: 20\r\n");
    assert_eq!(rx.topic, "lulu/serial/dev/in");
    assert_eq!(rx.payload, "+CSQ: 20");
    let tx = c.tx_message(b"AT\r\n");
    assert_eq!(tx.topic, "lulu/serial/dev/out");
    assert_eq!(tx.payload, "AT\r\n");
    let tx = c.tx_message("héllo".as_bytes());
    assert_eq!(tx.payload, "héllo");
    let tx = c.tx_message(&[0x41, 0xff, 0x42]);
    assert_eq!(tx.payload, "A\u{FFFD}B");
}

#[test]
fn substring_search() {
    assert!(line_contains("+CREG: 0,1 OK", "OK"));
    assert!(line_contains("OK", "OK"));
    assert!(line_contains("anything", ""));
    assert!(line_contains("", ""));
    assert!(!line_contains("", "x"));
    assert!(!line_contains("O K", "OK"));
    assert!(!line_contains("OK", "OKAY"));
    assert!(line_contains("ééOKé", "OKé"));
}

#[test]
fn wait_steps() {
    match wait_step("OK", WaitEvent::Line("AT OK".to_string())) {
        Some(Ok(line)) => assert_eq!(line, "AT OK"),
        other => panic!("unexpected {:?}", other),
    }
    assert!(wait_step("OK", WaitEvent::Line("ERROR".to_string())).is_none());
    assert!(wait_step("OK", WaitEvent::Lagged).is_none());
    assert!(matches!(wait_step("OK", WaitEvent::Closed), Some(Err(Error::ChannelClosed))));
}

/// A port scan that finds nothing.
fn no_scan() -> Result<Vec<PortInfo>, String> {
    Ok(Vec::new())
}

fn usb_port(name: &str, vid: u16, pid: u16, serial: Option<&str>) -> PortInfo {
    PortInfo {
        port_name: name.to_string(),
        usb: Some(UsbPortInfo { vid, pid, serial_number: serial.map(|s| s.to_string()) }),
    }
}

#[test]
fn complete_usb_info() {
    assert!(has_complete_usb_info(&UsbPortInfo { vid: 1, pid: 2, serial_number: Some("S".to_string()) }));
    assert!(!has_complete_usb_info(&UsbPortInfo { vid: 1, pid: 2, serial_number: Some(String::new()) }));
    assert!(!has_complete_usb_info(&UsbPortInfo { vid: 1, pid: 2, serial_number: None }));
}

#[test]
fn listing_orders_and_formats() {
    let ports = vec![
        PortInfo { port_name: "/dev/ttyS0".to_string(), usb: None },
        usb_port("/dev/ttyUSB1", 0x1a86, 0x7523, None),
        usb_port("/dev/ttyUSB0", 0x2341, 0x0043, Some("DFSZGL")),
        PortInfo { port_name: "/dev/ttyS1".to_string(), usb: None },
        usb_port("/dev/ttyACM0", 0x0483, 0x5740, Some("ABC")),
    ];
    let expected = "# /dev/ttyUSB0\n- serial:///dev/ttyUSB0\n- serial://?vid=0x2341&pid=0x0043&serial=DFSZGL\n\n\
# /dev/ttyACM0\n- serial:///dev/ttyACM0\n- serial://?vid=0x0483&pid=0x5740&serial=ABC\n\n\
# /dev/ttyUSB1\n- serial:///dev/ttyUSB1\n\n\
# /dev/ttyS0\n- serial:///dev/ttyS0\n\n\
# /dev/ttyS1\n- serial:///dev/ttyS1\n\n";
    assert_eq!(port_listing(&ports), expected);
    assert_eq!(port_listing(&Vec::new()), "No serial ports found.\n");
}

#[test]
fn config_from_usb_uri() {
    let c = SerialPortConfig::from_uri("serial://?vid=0x1a86&baud=57600", "s", "rx", "tx", || {
        Ok(vec![usb_port("/dev/ttyUSB3", 0x1a86, 0x7523, None)])
    })
    .unwrap();
    assert_eq!(c.port_name, "/dev/ttyUSB3");
    assert_eq!(c.baud_rate, 57_600);
    assert!(matches!(
        SerialPortConfig::from_uri("serial://?vid=0x1a86", "s", "rx", "tx", no_scan),
        Err(Error::Uri(ParseUriError::PortNotFound(_)))
    ));
}

#[test]
fn backoff_over_a_run_of_polls() {
    let mut b = ReconnectBackoff::new();
    let outcomes = [false, false, true, false, false, false, true, true, false];
    let sleeps: Vec<Option<u64>> = outcomes.iter().map(|ok| b.on_poll(*ok)).collect();
    assert_eq!(
        sleeps,
        vec![
            Some(1000),
            Some(2000),
            None,
            Some(1000),
            Some(2000),
            Some(4000),
            None,
            None,
            Some(1000)
        ]
    );
    assert_eq!(b.current_delay_ms(), 2000);
}

#[test]
fn elapsed_nanos_of_the_clock() {
    let epoch = std::time::UNIX_EPOCH;
    let later = epoch + std::time::Duration::new(5, 123_456_789);
    assert_eq!(elapsed_nanos(later.duration_since(epoch)), 123_456_789);
    // A time before the epoch counts as no time elapsed.
    let before = epoch.duration_since(later);
    assert!(before.is_err());
    assert_eq!(elapsed_nanos(before.clone()), 0);
    assert_eq!(short_id_from_nanos(elapsed_nanos(before)), "00000000");
}
