use stuart::cli::{parse, resolve, CliOptions};
use stuart::config::{
    config_path, config_path_display, load, Platform, parse_data_bits, parse_flow_control, parse_newline, parse_parity,
    parse_stop_bits, validate, BehaviorConfig, FileConfig, SerialConfig,
};
use stuart::serial::{DataBits, FlowControl, InputMode, NewlineEncoding, Parity, StopBits};

fn empty_file() -> FileConfig {
    FileConfig::default()
}

fn no_options() -> CliOptions {
    CliOptions {
        port: None,
        baud: None,
        data_bits: None,
        stop_bits: None,
        parity: None,
        flow_control: None,
        local_echo: false,
        outgoing_newline: None,
        input_mode: None,
        incoming_newline: None,
        no_lock: false,
        keep_open: false,
        no_keep_open: false,
    }
}

#[test]
fn data_bits_are_read_with_eight_as_fallback() {
    assert_eq!(parse_data_bits(5), DataBits::Five);
    assert_eq!(parse_data_bits(6), DataBits::Six);
    assert_eq!(parse_data_bits(7), DataBits::Seven);
    assert_eq!(parse_data_bits(8), DataBits::Eight);
    assert_eq!(parse_data_bits(9), DataBits::Eight);
    assert_eq!(parse_data_bits(0), DataBits::Eight);
}

#[test]
fn stop_bits_are_read_with_one_as_fallback() {
    assert_eq!(parse_stop_bits(1), StopBits::One);
    assert_eq!(parse_stop_bits(2), StopBits::Two);
    assert_eq!(parse_stop_bits(3), StopBits::One);
}

#[test]
fn parity_names_ignore_case() {
    assert_eq!(parse_parity("even"), Parity::Even);
    assert_eq!(parse_parity("EVEN"), Parity::Even);
    assert_eq!(parse_parity("Odd"), Parity::Odd);
    assert_eq!(parse_parity("none"), Parity::Off);
    assert_eq!(parse_parity("mark"), Parity::Off);
}

#[test]
fn flow_control_names_and_aliases() {
    assert_eq!(parse_flow_control("software"), FlowControl::Software);
    assert_eq!(parse_flow_control("XON/XOFF"), FlowControl::Software);
    assert_eq!(parse_flow_control("Hardware"), FlowControl::Hardware);
    assert_eq!(parse_flow_control("rts/cts"), FlowControl::Hardware);
    assert_eq!(parse_flow_control("none"), FlowControl::Off);
    assert_eq!(parse_flow_control("bogus"), FlowControl::Off);
}

#[test]
fn newline_names_and_aliases() {
    assert_eq!(parse_newline("lf"), NewlineEncoding::LF);
    assert_eq!(parse_newline("CRLF"), NewlineEncoding::CRLF);
    assert_eq!(parse_newline("cr+lf"), NewlineEncoding::CRLF);
    assert_eq!(parse_newline("cr"), NewlineEncoding::CR);
    assert_eq!(parse_newline("other"), NewlineEncoding::CR);
}

#[test]
fn an_empty_configuration_has_no_problems() {
    assert!(validate(&empty_file()).is_empty());
}

#[test]
fn every_rejected_value_is_reported_in_order() {
    let cfg = FileConfig {
        serial: SerialConfig {
            baud: Some(0),
            data_bits: Some(9),
            stop_bits: Some(3),
            parity: Some("Mark".to_string()),
            flow_control: Some("maybe".to_string()),
        },
        behavior: BehaviorConfig {
            local_echo: None,
            outgoing_newline: Some("LFCR".to_string()),
            keep_open: None,
        },
    };
    let errors = validate(&cfg);
    assert_eq!(
        errors,
        vec![
            "serial.baud: must be greater than 0".to_string(),
            "serial.data_bits: got 9, valid values: 5 | 6 | 7 | 8".to_string(),
            "serial.stop_bits: got 3, valid values: 1 | 2".to_string(),
            "serial.parity: got \"Mark\", valid values: none | even | odd".to_string(),
            "serial.flow_control: got \"maybe\", valid values: none | software | hardware".to_string(),
            "behavior.outgoing_newline: got \"LFCR\", valid values: cr | lf | crlf".to_string(),
        ]
    );
}

#[test]
fn accepted_values_and_aliases_are_not_reported() {
    let cfg = FileConfig {
        serial: SerialConfig {
            baud: Some(9600),
            data_bits: Some(5),
            stop_bits: Some(2),
            parity: Some("EVEN".to_string()),
            flow_control: Some("RTS/CTS".to_string()),
        },
        behavior: BehaviorConfig {
            local_echo: Some(true),
            outgoing_newline: Some("CR+LF".to_string()),
            keep_open: Some(false),
        },
    };
    assert!(validate(&cfg).is_empty());
}

#[test]
fn config_path_prefers_xdg_config_home() {
    let unix = Platform::Unix;
    assert_eq!(config_path(unix, Some("/xdg"), Some("/home/u"), None), Some("/xdg/stuart/config.toml".to_string()));
    assert_eq!(config_path(unix, None, Some("/home/u"), None), Some("/home/u/.config/stuart/config.toml".to_string()));
    assert_eq!(config_path(unix, None, None, Some("C:\\x")), Some(".config/stuart/config.toml".to_string()));
    assert_eq!(config_path(unix, Some("/xdg/"), None, None), Some("/xdg/stuart/config.toml".to_string()));
    assert_eq!(config_path_display(unix, Some("/tmp/cfg"), None, None), "/tmp/cfg/stuart/config.toml");
}

#[test]
fn config_path_on_windows_uses_appdata() {
    let win = Platform::Windows;
    assert_eq!(
        config_path(win, Some("/xdg"), Some("/home/u"), Some("C:\\Users\\u\\AppData\\Roaming")),
        Some("C:\\Users\\u\\AppData\\Roaming\\stuart\\config.toml".to_string())
    );
    assert_eq!(config_path(win, None, None, Some("D:\\cfg\\")), Some("D:\\cfg\\stuart\\config.toml".to_string()));
    assert_eq!(config_path(win, None, None, Some("C:")), Some("C:stuart\\config.toml".to_string()));
    assert_eq!(config_path(win, Some("/xdg"), Some("/home/u"), None), None);
    assert_eq!(config_path_display(win, None, None, None), "(unknown)");
    assert_eq!(config_path(Platform::Other, Some("/xdg"), None, None), None);
    assert_eq!(config_path_display(Platform::Other, None, None, None), "(unknown)");
}

#[test]
fn load_falls_back_to_an_empty_configuration() {
    let c = load(Err("parse error".to_string()));
    assert!(c.serial.baud.is_none());
    assert!(c.behavior.keep_open.is_none());
    let mut f = empty_file();
    f.serial.baud = Some(57600);
    let c = load(Ok(f));
    assert_eq!(c.serial.baud, Some(57600));
}

#[test]
fn defaults_apply_when_nothing_is_given() {
    let a = resolve(no_options(), &empty_file());
    assert_eq!(a.port, None);
    assert_eq!(a.config.baud, 115200);
    assert_eq!(a.config.data_bits, DataBits::Eight);
    assert_eq!(a.config.stop_bits, StopBits::One);
    assert_eq!(a.config.parity, Parity::Off);
    assert_eq!(a.config.flow_control, FlowControl::Off);
    assert!(!a.config.no_lock);
    assert!(a.hold);
    assert!(!a.local_echo);
    assert_eq!(a.outgoing_newline, NewlineEncoding::CR);
    assert_eq!(a.input_mode, InputMode::Direct);
    assert_eq!(a.incoming_newline, NewlineEncoding::CRLF);
}

#[test]
fn input_mode_and_incoming_newline_come_from_the_command_line() {
    let mut cli = no_options();
    cli.input_mode = Some(InputMode::Line);
    cli.incoming_newline = Some(NewlineEncoding::LF);
    let a = resolve(cli, &empty_file());
    assert_eq!(a.input_mode, InputMode::Line);
    assert_eq!(a.incoming_newline, NewlineEncoding::LF);
}

#[test]
fn file_values_override_defaults() {
    let cfg = FileConfig {
        serial: SerialConfig {
            baud: Some(9600),
            data_bits: Some(7),
            stop_bits: Some(2),
            parity: Some("odd".to_string()),
            flow_control: Some("software".to_string()),
        },
        behavior: BehaviorConfig {
            local_echo: Some(true),
            outgoing_newline: Some("crlf".to_string()),
            keep_open: Some(false),
        },
    };
    let a = resolve(no_options(), &cfg);
    assert_eq!(a.config.baud, 9600);
    assert_eq!(a.config.data_bits, DataBits::Seven);
    assert_eq!(a.config.stop_bits, StopBits::Two);
    assert_eq!(a.config.parity, Parity::Odd);
    assert_eq!(a.config.flow_control, FlowControl::Software);
    assert!(a.local_echo);
    assert_eq!(a.outgoing_newline, NewlineEncoding::CRLF);
    assert!(!a.hold);
}

#[test]
fn command_line_overrides_file() {
    let mut cfg = empty_file();
    cfg.serial.baud = Some(9600);
    cfg.serial.parity = Some("odd".to_string());
    cfg.behavior.keep_open = Some(false);
    let mut cli = no_options();
    cli.port = Some("/dev/ttyUSB0".to_string());
    cli.baud = Some(230400);
    cli.parity = Some(Parity::Even);
    cli.keep_open = true;
    cli.no_lock = true;
    let a = resolve(cli, &cfg);
    assert_eq!(a.port, Some("/dev/ttyUSB0".to_string()));
    assert_eq!(a.config.baud, 230400);
    assert_eq!(a.config.parity, Parity::Even);
    assert!(a.hold);
    assert!(a.config.no_lock);
}

#[test]
fn no_keep_open_wins() {
    let mut cfg = empty_file();
    cfg.behavior.keep_open = Some(true);
    let mut cli = no_options();
    cli.keep_open = true;
    cli.no_keep_open = true;
    assert!(!resolve(cli, &cfg).hold);
}

#[test]
fn parse_refuses_a_configuration_with_problems() {
    let mut cfg = empty_file();
    cfg.serial.stop_bits = Some(0);
    match parse(no_options(), &cfg) {
        Err(errors) => assert_eq!(errors, vec!["serial.stop_bits: got 0, valid values: 1 | 2".to_string()]),
        Ok(_) => panic!("a configuration with problems was accepted"),
    }
    match parse(no_options(), &empty_file()) {
        Ok(a) => assert_eq!(a.config.baud, 115200),
        Err(_) => panic!("an empty configuration was refused"),
    }
}

#[test]
fn lower_case_names_are_read_directly() {
    assert_eq!(stuart::config::parity_from_lowered("odd"), Parity::Odd);
    assert_eq!(stuart::config::parity_from_lowered("ODD"), Parity::Off);
    assert_eq!(stuart::config::flow_control_from_lowered("xon/xoff"), FlowControl::Software);
    assert_eq!(stuart::config::newline_from_lowered("cr+lf"), NewlineEncoding::CRLF);
    assert!(stuart::config::is_named_in("even", &["none", "even"]));
    assert!(!stuart::config::is_named_in("Even", &["none", "even"]));
}

#[test]
fn an_existing_config_file_is_kept_unless_forced() {
    let w = stuart::config::may_write_config;
    assert_eq!(w("/c/config.toml", false, false), Ok(()));
    assert_eq!(w("/c/config.toml", true, true), Ok(()));
    assert_eq!(w("/c/config.toml", false, true), Ok(()));
    assert_eq!(
        w("/c/config.toml", true, false),
        Err("config file already exists at /c/config.toml\nUse --force to overwrite.".to_string())
    );
}
