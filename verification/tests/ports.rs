use stuart::ports::{
    friendly_serial_error, port_info_text, port_priority, port_sort_key, sorted_ports, PortInfo, PortType,
    UsbPortInfo,
};

fn port(name: &str) -> PortInfo {
    PortInfo { port_name: name.to_string(), port_type: PortType::Unknown }
}

fn names(ports: &[PortInfo]) -> Vec<String> {
    ports.iter().map(|p| p.port_name.clone()).collect()
}

#[test]
fn sort_key_splits_off_the_trailing_number() {
    assert_eq!(port_sort_key("/dev/ttyUSB10"), ("/dev/ttyUSB".to_string(), 10));
    assert_eq!(port_sort_key("COM3"), ("COM".to_string(), 3));
    assert_eq!(port_sort_key("/dev/cu.usbserial"), ("/dev/cu.usbserial".to_string(), 0));
    assert_eq!(port_sort_key(""), ("".to_string(), 0));
    assert_eq!(port_sort_key("42"), ("".to_string(), 42));
}

#[test]
fn sort_key_number_that_does_not_fit_is_zero() {
    assert_eq!(port_sort_key("tty99999999999"), ("tty".to_string(), 0));
    assert_eq!(port_sort_key("tty4294967295"), ("tty".to_string(), 4294967295));
    assert_eq!(port_sort_key("tty4294967296"), ("tty".to_string(), 0));
}

#[test]
fn common_adapters_come_first() {
    assert_eq!(port_priority("/dev/ttyUSB0"), 0);
    assert_eq!(port_priority("/dev/ttyACM1"), 0);
    assert_eq!(port_priority("/dev/ttyAMA0"), 0);
    assert_eq!(port_priority("COM4"), 0);
    assert_eq!(port_priority("/dev/cu.usbmodem1"), 0);
    assert_eq!(port_priority("/dev/ttyS0"), 1);
    assert_eq!(port_priority("/dev/usb/ttyUSB0x"), 0);
    assert_eq!(port_priority("ttyUSB/ttyS1"), 1);
}

#[test]
fn ports_are_listed_by_priority_then_name_then_number() {
    let ports = vec![
        port("/dev/ttyS1"),
        port("/dev/ttyUSB10"),
        port("/dev/ttyACM0"),
        port("/dev/ttyUSB2"),
        port("/dev/ttyS0"),
        port("/dev/ttyUSB1"),
    ];
    let sorted = sorted_ports(ports);
    assert_eq!(
        names(&sorted),
        vec![
            "/dev/ttyACM0",
            "/dev/ttyUSB1",
            "/dev/ttyUSB2",
            "/dev/ttyUSB10",
            "/dev/ttyS0",
            "/dev/ttyS1",
        ]
    );
}

#[test]
fn sorting_keeps_every_port() {
    let ports = vec![port("b"), port("a"), port("b"), port("COM2"), port("COM1")];
    let sorted = sorted_ports(ports);
    assert_eq!(names(&sorted), vec!["COM1", "COM2", "a", "b", "b"]);
    assert!(sorted_ports(Vec::new()).is_empty());
}

#[test]
fn serial_errors_are_explained() {
    assert_eq!(
        friendly_serial_error("Permission denied (os error 13)"),
        "Permission denied - try running with sudo or check port permissions"
    );
    assert_eq!(
        friendly_serial_error("ACCESS DENIED"),
        "Permission denied - try running with sudo or check port permissions"
    );
    assert_eq!(
        friendly_serial_error("No such file or directory"),
        "Port not found - device may have been disconnected"
    );
    assert_eq!(friendly_serial_error("device Not Found"), "Port not found - device may have been disconnected");
    assert_eq!(friendly_serial_error("Broken pipe"), "Device disconnected unexpectedly");
    assert_eq!(
        friendly_serial_error("Device or resource busy"),
        "Port is busy - already in use by another application"
    );
    assert_eq!(
        friendly_serial_error("Access is denied."),
        "Port is busy - already in use by another application"
    );
    assert_eq!(friendly_serial_error("Operation timed out"), "Connection timed out");
    assert_eq!(friendly_serial_error("Something Odd"), "Something Odd");
}

#[test]
fn usb_port_description() {
    let info = UsbPortInfo {
        vid: 0x1a86,
        pid: 0x7523,
        serial_number: None,
        manufacturer: Some("QinHeng".to_string()),
        product: Some("USB Serial".to_string()),
    };
    let lines = port_info_text(&PortType::UsbPort(info));
    let expected: Vec<(String, String)> = vec![
        ("Type:         ".to_string(), "USB".to_string()),
        ("VID:          ".to_string(), "0x1a86".to_string()),
        ("PID:          ".to_string(), "0x7523".to_string()),
        ("Manufacturer: ".to_string(), "QinHeng".to_string()),
        ("Product:      ".to_string(), "USB Serial".to_string()),
        ("Serial:       ".to_string(), "-".to_string()),
    ];
    assert_eq!(lines, expected);
}

#[test]
fn small_identifiers_are_zero_padded() {
    let info = UsbPortInfo { vid: 0x2, pid: 0xffff, serial_number: Some("A1".to_string()), manufacturer: None, product: None };
    let lines = port_info_text(&PortType::UsbPort(info));
    assert_eq!(lines[1].1, "0x0002");
    assert_eq!(lines[2].1, "0xffff");
    assert_eq!(lines[3].1, "-");
    assert_eq!(lines[5].1, "A1");
}

#[test]
fn other_port_kinds_are_named() {
    assert_eq!(port_info_text(&PortType::BluetoothPort), vec![("".to_string(), "Type: Bluetooth".to_string())]);
    assert_eq!(port_info_text(&PortType::PciPort), vec![("".to_string(), "Type: PCI".to_string())]);
    assert_eq!(port_info_text(&PortType::Unknown), vec![("".to_string(), "Type: Unknown".to_string())]);
}

#[test]
fn ports_with_the_same_key_keep_their_order() {
    let sorted = sorted_ports(vec![port("COM01"), port("COM1"), port("COM0")]);
    assert_eq!(names(&sorted), vec!["COM0", "COM01", "COM1"]);
    let sorted = sorted_ports(vec![port("COM1"), port("COM01"), port("COM0")]);
    assert_eq!(names(&sorted), vec!["COM0", "COM1", "COM01"]);
}

#[test]
fn messages_are_chosen_from_the_lower_case_text() {
    assert_eq!(
        stuart::ports::friendly_message("operation timed out", "Operation TIMED OUT"),
        "Connection timed out"
    );
    assert_eq!(stuart::ports::friendly_message("Timed Out", "Timed Out"), "Timed Out");
}
