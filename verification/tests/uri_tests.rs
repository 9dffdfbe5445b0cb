use lulu_serial_port::ports::{PortInfo, UsbPortInfo};
use lulu_serial_port::{
    parse_serial_uri, parse_u16_hex, DataBits, FlowControl, Parity, ParseUriError, SerialUri,
    StopBits,
};

#[test]
fn parse_port_name_and_baud() {
    let uri = SerialUri::parse("serial:///dev/ttyUSB0?baud=115200").unwrap();
    assert_eq!(uri.port_name.as_deref(), Some("/dev/ttyUSB0"));
    assert_eq!(uri.baud_rate, 115_200);
    assert!(matches!(uri.parity, Parity::NoParity));
}

#[test]
fn parse_windows_port() {
    let uri = SerialUri::parse("serial://COM3?baud=9600&parity=e").unwrap();
    assert_eq!(uri.port_name.as_deref(), Some("COM3"));
    assert_eq!(uri.baud_rate, 9_600);
    assert!(matches!(uri.parity, Parity::Even));
}

#[test]
fn parse_usb_vid_pid() {
    let uri = SerialUri::parse("serial://?vid=0x2341&pid=0x0043").unwrap();
    assert_eq!(uri.vid, Some(0x2341));
    assert_eq!(uri.pid, Some(0x0043));
    assert!(uri.port_name.is_none());
}

#[test]
fn parse_usb_with_serial_number() {
    let uri = SerialUri::parse("serial://?vid=0x2341&pid=0x0043&serial=DFSZGL").unwrap();
    assert_eq!(uri.vid, Some(0x2341));
    assert_eq!(uri.pid, Some(0x0043));
    assert_eq!(uri.usb_serial.as_deref(), Some("DFSZGL"));
}

#[test]
fn parse_all_params() {
    let uri =
        SerialUri::parse("serial:///dev/ttyS0?baud=4800&parity=o&data=7&stop=2&flow=hw").unwrap();
    assert_eq!(uri.baud_rate, 4_800);
    assert!(matches!(uri.parity, Parity::Odd));
    assert!(matches!(uri.data_bits, DataBits::Seven));
    assert!(matches!(uri.stop_bits, StopBits::Two));
    assert!(matches!(uri.flow_control, FlowControl::Hardware));
}

#[test]
fn default_baud_rate() {
    let uri = SerialUri::parse("serial:///dev/ttyUSB0").unwrap();
    assert_eq!(uri.baud_rate, 9_600);
}

#[test]
fn invalid_scheme() {
    assert!(SerialUri::parse("uart:///dev/ttyUSB0").is_err());
}

#[test]
fn invalid_baud() {
    assert!(SerialUri::parse("serial:///dev/ttyUSB0?baud=notanumber").is_err());
}

#[test]
fn invalid_parity() {
    assert!(SerialUri::parse("serial:///dev/ttyUSB0?parity=x").is_err());
}

#[test]
fn invalid_vid_hex() {
    assert!(SerialUri::parse("serial://?vid=notahex").is_err());
}

#[test]
fn resolve_port_from_name() {
    let uri = SerialUri::parse("serial:///dev/ttyUSB0").unwrap();
    assert_eq!(uri.resolve_port(no_scan).unwrap(), "/dev/ttyUSB0");
}

#[test]
fn resolve_port_no_info() {
    let uri = SerialUri::parse("serial://").unwrap();
    assert!(uri.resolve_port(no_scan).is_err());
}

#[test]
fn to_uri_roundtrip_port_name() {
    let original = "serial:///dev/ttyUSB0?baud=115200";
    let uri = SerialUri::parse(original).unwrap();
    assert_eq!(uri.to_uri(), original);
}

#[test]
fn to_uri_defaults_omitted() {
    let uri = SerialUri::parse("serial:///dev/ttyUSB0").unwrap();
    // Default baud (9600) and parity (n) are omitted from the output.
    assert_eq!(uri.to_uri(), "serial:///dev/ttyUSB0");
}

#[test]
fn to_uri_usb_identifiers() {
    let original = "serial://?vid=0x2341&pid=0x0043&serial=DFSZGL";
    let uri = SerialUri::parse(original).unwrap();
    assert_eq!(uri.to_uri(), original);
}

#[test]
fn display_matches_to_uri() {
    // The library type has no `Display`; its text form is `to_uri`.
    let uri = SerialUri::parse("serial:///dev/ttyUSB0?baud=115200").unwrap();
    let shown = uri.to_uri();
    assert_eq!(shown, uri.to_uri());
    assert_eq!(shown, "serial:///dev/ttyUSB0?baud=115200");
}

#[test]
fn parse_serial_uri_fn() {
    let uri = parse_serial_uri("serial:///dev/ttyS1?baud=38400").unwrap();
    assert_eq!(uri.baud_rate, 38_400);
}

#[test]
fn uppercase_hex_vid() {
    let uri = SerialUri::parse("serial://?vid=0X2341&pid=0X0043").unwrap();
    assert_eq!(uri.vid, Some(0x2341));
    assert_eq!(uri.pid, Some(0x0043));
}

// ---------------------------------------------------------------------------
// Further cases
// ---------------------------------------------------------------------------

fn invalid_param(uri: &str) -> (String, String) {
    match SerialUri::parse(uri) {
        Err(ParseUriError::InvalidParam { key, reason }) => (key, reason),
        other => panic!("expected InvalidParam, got {:?}", other),
    }
}

#[test]
fn invalid_scheme_variant() {
    assert!(matches!(SerialUri::parse("serial:/x"), Err(ParseUriError::InvalidScheme)));
    assert!(matches!(SerialUri::parse(""), Err(ParseUriError::InvalidScheme)));
    assert!(matches!(SerialUri::parse("SERIAL://COM1"), Err(ParseUriError::InvalidScheme)));
}

#[test]
fn invalid_param_reasons() {
    assert_eq!(
        invalid_param("serial:///dev/ttyUSB0?baud=notanumber"),
        ("baud".to_string(), "\"notanumber\" is not a valid integer".to_string())
    );
    assert_eq!(
        invalid_param("serial://x?parity=x"),
        ("parity".to_string(), "\"x\" is not a valid parity (use n/none, e/even, o/odd)".to_string())
    );
    assert_eq!(
        invalid_param("serial://x?data=9"),
        ("data".to_string(), "\"9\" is not a valid data-bit count (use 5, 6, 7 or 8)".to_string())
    );
    assert_eq!(
        invalid_param("serial://x?stop=3"),
        ("stop".to_string(), "\"3\" is not a valid stop-bit count (use 1 or 2)".to_string())
    );
    assert_eq!(
        invalid_param("serial://x?flow=xon"),
        (
            "flow".to_string(),
            "\"xon\" is not a valid flow-control mode (use none, hw/hardware, sw/software)"
                .to_string()
        )
    );
    assert_eq!(
        invalid_param("serial://?vid=notahex"),
        ("vid".to_string(), "\"notahex\" is not a valid 16-bit hex value".to_string())
    );
    assert_eq!(
        invalid_param("serial://?pid=0x10000"),
        ("pid".to_string(), "\"0x10000\" is not a valid 16-bit hex value".to_string())
    );
    assert_eq!(
        invalid_param("serial://x?baud_rate=-5"),
        ("baud_rate".to_string(), "\"-5\" is not a valid integer".to_string())
    );
}

#[test]
fn first_bad_param_decides() {
    let (key, _) = invalid_param("serial://x?data=4&stop=3");
    assert_eq!(key, "data");
}

#[test]
fn baud_number_syntax() {
    assert_eq!(SerialUri::parse("serial://x?baud=+4800").unwrap().baud_rate, 4800);
    assert_eq!(SerialUri::parse("serial://x?baud=0009600").unwrap().baud_rate, 9600);
    assert_eq!(SerialUri::parse("serial://x?baud=4294967295").unwrap().baud_rate, u32::MAX);
    assert!(SerialUri::parse("serial://x?baud=4294967296").is_err());
    assert!(SerialUri::parse("serial://x?baud=+").is_err());
    assert!(SerialUri::parse("serial://x?baud=").is_err());
    assert!(SerialUri::parse("serial://x?baud").is_err());
    assert!(SerialUri::parse("serial://x?baud= 9600").is_err());
    assert_eq!(SerialUri::parse("serial://x?baud_rate=57600").unwrap().baud_rate, 57600);
}

#[test]
fn later_params_override_earlier() {
    let uri = SerialUri::parse("serial://x?baud=1200&baud=2400&parity=e&parity=none").unwrap();
    assert_eq!(uri.baud_rate, 2400);
    assert!(matches!(uri.parity, Parity::NoParity));
}

#[test]
fn case_insensitive_words() {
    let uri = SerialUri::parse("serial://x?parity=EVEN&flow=Software").unwrap();
    assert!(matches!(uri.parity, Parity::Even));
    assert!(matches!(uri.flow_control, FlowControl::Software));
    let uri = SerialUri::parse("serial://x?parity=N&flow=HARDWARE").unwrap();
    assert!(matches!(uri.parity, Parity::NoParity));
    assert!(matches!(uri.flow_control, FlowControl::Hardware));
    let uri = SerialUri::parse("serial://x?flow=NONE&parity=Odd").unwrap();
    assert!(matches!(uri.flow_control, FlowControl::NoFlowControl));
    assert!(matches!(uri.parity, Parity::Odd));
}

#[test]
fn unknown_and_empty_pairs_are_ignored() {
    let uri = SerialUri::parse("serial://COM1?&&colour=blue&baud=300&&novalue").unwrap();
    assert_eq!(uri.port_name.as_deref(), Some("COM1"));
    assert_eq!(uri.baud_rate, 300);
    assert!(uri.vid.is_none());
}

#[test]
fn serial_value_keeps_equals_signs() {
    let uri = SerialUri::parse("serial://?serial=A=B&vid=1").unwrap();
    assert_eq!(uri.usb_serial.as_deref(), Some("A=B"));
    assert_eq!(uri.vid, Some(1));
    let uri = SerialUri::parse("serial://?serial").unwrap();
    assert_eq!(uri.usb_serial.as_deref(), Some(""));
}

#[test]
fn port_name_stops_at_first_question_mark() {
    let uri = SerialUri::parse("serial://COM1?baud=300&serial=a?b").unwrap();
    assert_eq!(uri.port_name.as_deref(), Some("COM1"));
    assert_eq!(uri.baud_rate, 300);
    assert_eq!(uri.usb_serial.as_deref(), Some("a?b"));
    assert!(SerialUri::parse("serial://COM1?baud=300?x=1").is_err());
}

#[test]
fn all_data_and_stop_values() {
    let five = SerialUri::parse("serial://x?data=5&stop=1").unwrap();
    assert!(matches!(five.data_bits, DataBits::Five));
    assert!(matches!(five.stop_bits, StopBits::One));
    let six = SerialUri::parse("serial://x?data=6").unwrap();
    assert!(matches!(six.data_bits, DataBits::Six));
    let eight = SerialUri::parse("serial://x?data=8").unwrap();
    assert!(matches!(eight.data_bits, DataBits::Eight));
}

#[test]
fn hex_values() {
    assert_eq!(parse_u16_hex("0x2341"), Ok(0x2341));
    assert_eq!(parse_u16_hex("0X00ff"), Ok(0xff));
    assert_eq!(parse_u16_hex("ffff"), Ok(0xffff));
    assert_eq!(parse_u16_hex("0x+1A"), Ok(0x1a));
    assert_eq!(parse_u16_hex("0"), Ok(0));
    assert_eq!(parse_u16_hex("0x"), Err("\"0x\" is not a valid 16-bit hex value".to_string()));
    assert_eq!(parse_u16_hex("10000"), Err("\"10000\" is not a valid 16-bit hex value".to_string()));
    assert_eq!(parse_u16_hex("0xg1"), Err("\"0xg1\" is not a valid 16-bit hex value".to_string()));
}

#[test]
fn to_uri_writes_every_parameter() {
    let uri = SerialUri {
        port_name: Some("/dev/ttyS0".to_string()),
        baud_rate: 4800,
        parity: Parity::Odd,
        data_bits: DataBits::Five,
        stop_bits: StopBits::Two,
        flow_control: FlowControl::Software,
        vid: Some(0xab),
        pid: Some(0x1),
        usb_serial: Some("S1".to_string()),
    };
    let text = uri.to_uri();
    assert_eq!(
        text,
        "serial:///dev/ttyS0?vid=0x00ab&pid=0x0001&serial=S1&baud=4800&parity=o&data=5&stop=2&flow=sw"
    );
    let back = SerialUri::parse(&text).unwrap();
    assert_eq!(back.to_uri(), text);
    assert_eq!(back.vid, Some(0xab));
    assert!(matches!(back.flow_control, FlowControl::Software));
}

#[test]
fn to_uri_normalises() {
    let uri = SerialUri::parse("serial://COM1?parity=EVEN&baud=0009600&flow=hardware&vid=0X1F").unwrap();
    let text = uri.to_uri();
    assert_eq!(text, "serial://COM1?vid=0x001f&parity=e&flow=hw");
    let again = SerialUri::parse(&text).unwrap();
    assert_eq!(again.to_uri(), text);
    assert!(matches!(again.parity, Parity::Even));
}

#[test]
fn to_uri_empty_configuration() {
    let uri = SerialUri::parse("serial://").unwrap();
    assert_eq!(uri.to_uri(), "serial://");
    let uri = SerialUri::parse("serial://?baud=0").unwrap();
    assert_eq!(uri.to_uri(), "serial://?baud=0");
}

#[test]
fn clone_keeps_everything() {
    let uri = SerialUri::parse("serial://COM2?serial=XY&data=6").unwrap();
    let copy = uri.clone();
    assert_eq!(copy.to_uri(), uri.to_uri());
}

fn usb_port(name: &str, vid: u16, pid: u16, serial: Option<&str>) -> PortInfo {
    PortInfo {
        port_name: name.to_string(),
        usb: Some(UsbPortInfo { vid, pid, serial_number: serial.map(|s| s.to_string()) }),
    }
}

fn plain_port(name: &str) -> PortInfo {
    PortInfo { port_name: name.to_string(), usb: None }
}

/// A port scan that finds nothing.
fn no_scan() -> Result<Vec<PortInfo>, String> {
    Ok(Vec::new())
}

#[test]
fn usb_search_finds_first_match() {
    let ports = vec![
        plain_port("/dev/ttyS0"),
        usb_port("/dev/ttyUSB0", 0x2341, 0x0001, Some("AAA")),
        usb_port("/dev/ttyUSB1", 0x2341, 0x0043, None),
        usb_port("/dev/ttyUSB2", 0x2341, 0x0043, Some("DFSZGL")),
        usb_port("/dev/ttyUSB3", 0x2341, 0x0043, Some("DFSZGL")),
    ];
    let by_vid = SerialUri::parse("serial://?vid=0x2341").unwrap();
    assert_eq!(by_vid.find_usb_port_in(&ports).unwrap(), "/dev/ttyUSB0");
    let by_pid = SerialUri::parse("serial://?vid=0x2341&pid=0x0043").unwrap();
    assert_eq!(by_pid.find_usb_port_in(&ports).unwrap(), "/dev/ttyUSB1");
    let by_serial = SerialUri::parse("serial://?pid=0x0043&serial=DFSZGL").unwrap();
    assert_eq!(by_serial.find_usb_port_in(&ports).unwrap(), "/dev/ttyUSB2");
}

#[test]
fn usb_search_reports_identifiers() {
    let ports = vec![plain_port("/dev/ttyS0"), usb_port("/dev/ttyUSB0", 1, 2, Some("x"))];
    let uri = SerialUri::parse("serial://?vid=0x2341&pid=0x43&serial=DF").unwrap();
    match uri.find_usb_port_in(&ports) {
        Err(ParseUriError::PortNotFound(m)) => assert_eq!(m, "vid=0x2341 pid=0x0043 serial=DF"),
        other => panic!("unexpected {:?}", other),
    }
    let none: Vec<PortInfo> = Vec::new();
    let uri = SerialUri::parse("serial://?pid=0xA").unwrap();
    match uri.find_usb_port_in(&none) {
        Err(ParseUriError::PortNotFound(m)) => assert_eq!(m, "pid=0x000a"),
        other => panic!("unexpected {:?}", other),
    }
}

#[test]
fn usb_description_text() {
    let uri = SerialUri::parse("serial://?serial=S&vid=0x1").unwrap();
    assert_eq!(uri.usb_description(), "vid=0x0001 serial=S");
    let uri = SerialUri::parse("serial://COM1").unwrap();
    assert_eq!(uri.usb_description(), "");
}

#[test]
fn resolve_port_messages() {
    let uri = SerialUri::parse("serial://").unwrap();
    match uri.resolve_port(no_scan) {
        Err(ParseUriError::PortNotFound(m)) => {
            assert_eq!(m, "no port name or USB identifiers provided")
        }
        other => panic!("unexpected {:?}", other),
    }
    // A serial number alone does not trigger a USB lookup.
    let uri = SerialUri::parse("serial://COM7?serial=ABC").unwrap();
    assert_eq!(uri.resolve_port(no_scan).unwrap(), "COM7");
}

#[test]
fn resolve_port_scans_for_usb_identifiers() {
    let uri = SerialUri::parse("serial://COM9?vid=0x2341&pid=0x0043").unwrap();
    let found = uri.resolve_port(|| {
        Ok(vec![
            plain_port("/dev/ttyS0"),
            usb_port("/dev/ttyACM0", 0x2341, 0x0043, Some("DFSZGL")),
        ])
    });
    assert_eq!(found.unwrap(), "/dev/ttyACM0");
    match uri.resolve_port(no_scan) {
        Err(ParseUriError::PortNotFound(m)) => assert_eq!(m, "vid=0x2341 pid=0x0043"),
        other => panic!("unexpected {:?}", other),
    }
    match uri.resolve_port(|| Err("permission denied".to_string())) {
        Err(ParseUriError::PortNotFound(m)) => {
            assert_eq!(m, "cannot enumerate ports: permission denied")
        }
        other => panic!("unexpected {:?}", other),
    }
}

#[test]
fn resolve_port_without_usb_ids_does_not_scan() {
    let uri = SerialUri::parse("serial://COM3").unwrap();
    let res = uri.resolve_port(|| -> Result<Vec<PortInfo>, String> {
        panic!("the port list must not be read")
    });
    assert_eq!(res.unwrap(), "COM3");
}

#[test]
fn last_pair_wins() {
    let uri = SerialUri::parse(
        "serial://COM4?baud=300&parity=o&baud_rate=2400&x=1&data=5&parity=none&serial=A&serial=B",
    )
    .unwrap();
    assert_eq!(uri.port_name.as_deref(), Some("COM4"));
    assert_eq!(uri.baud_rate, 2400);
    assert!(matches!(uri.parity, Parity::NoParity));
    assert!(matches!(uri.data_bits, DataBits::Five));
    assert!(matches!(uri.stop_bits, StopBits::One));
    assert!(matches!(uri.flow_control, FlowControl::NoFlowControl));
    assert_eq!(uri.usb_serial.as_deref(), Some("B"));
    assert_eq!(uri.vid, None);
    let uri = SerialUri::parse("serial://?vid=0x1&vid=0x2&&pid=3").unwrap();
    assert_eq!(uri.port_name, None);
    assert_eq!(uri.vid, Some(2));
    assert_eq!(uri.pid, Some(3));
}

#[test]
fn first_rejected_pair_decides_the_error() {
    match SerialUri::parse("serial://COM1?foo=bar&data=9&stop=3&baud=x") {
        Err(ParseUriError::InvalidParam { key, .. }) => assert_eq!(key, "data"),
        other => panic!("unexpected {:?}", other),
    }
    // A pair without '=' has an empty value, which `baud` rejects.
    match SerialUri::parse("serial://COM1?baud") {
        Err(ParseUriError::InvalidParam { key, reason }) => {
            assert_eq!(key, "baud");
            assert_eq!(reason, "\"\" is not a valid integer");
        }
        other => panic!("unexpected {:?}", other),
    }
    // A rejected value is refused even when a later pair would override it.
    assert!(SerialUri::parse("serial://COM1?parity=x&parity=e").is_err());
    assert!(matches!(SerialUri::parse("serial:/COM1"), Err(ParseUriError::InvalidScheme)));
    assert!(SerialUri::parse("serial://COM1?unknown=whatever&serial=").is_ok());
}

#[test]
fn hex_identifiers_read_back() {
    for v in [0u16, 0x7, 0xa, 0x10, 0x43, 0x2341, 0xabcd, 0xffff] {
        assert_eq!(parse_u16_hex(&format!("0x{:04x}", v)), Ok(v));
        assert_eq!(parse_u16_hex(&format!("0X{:04x}", v)), Ok(v));
        assert_eq!(parse_u16_hex(&format!("{:04x}", v)), Ok(v));
        assert_eq!(parse_u16_hex(&format!("0X{:X}", v)), Ok(v));
        assert_eq!(parse_u16_hex(&format!("0x{:x}", v)), Ok(v));
        assert_eq!(parse_u16_hex(&format!("{:x}", v)), Ok(v));
        assert_eq!(parse_u16_hex(&format!("{:X}", v)), Ok(v));
    }
}

#[test]
fn four_pair_query() {
    let uri = SerialUri::parse("serial://COM5?flow=HARDWARE&parity=Even&baud_rate=115200&foo=1")
        .unwrap();
    assert_eq!(uri.port_name.as_deref(), Some("COM5"));
    assert!(matches!(uri.flow_control, FlowControl::Hardware));
    assert!(matches!(uri.parity, Parity::Even));
    assert_eq!(uri.baud_rate, 115_200);
    assert!(matches!(uri.data_bits, DataBits::Eight));
    assert!(matches!(uri.stop_bits, StopBits::One));
}
