use stuart::input::{KeyCode, KeyInput, MouseInput, MouseKind, Rect, CONTROL};
use stuart::ports::{PortInfo, PortType};
use stuart::serial::{InputMode, NewlineEncoding, PortConfig, SerialEvent};
use stuart::state::{App, Effect, OpenPurpose, OpenRequest, Screen, TerminalMode};

fn port(name: &str) -> PortInfo {
    PortInfo { port_name: name.to_string(), port_type: PortType::Unknown }
}

fn key(code: KeyCode) -> KeyInput {
    KeyInput { code, modifiers: 0 }
}

fn typed(c: char) -> KeyInput {
    KeyInput { code: KeyCode::Char(c), modifiers: 0 }
}

fn ctrl(code: KeyCode) -> KeyInput {
    KeyInput { code, modifiers: CONTROL }
}

fn connected_app() -> App {
    App::with_port("/dev/ttyUSB0", PortConfig::default(), true, false, Vec::new(), Ok(()), 0)
}

fn writes(effects: &[Effect]) -> Vec<Vec<u8>> {
    effects
        .iter()
        .filter_map(|e| match e {
            Effect::Write(b) => Some(b.clone()),
            _ => None,
        })
        .collect()
}

#[test]
fn a_new_application_lists_sorted_ports() {
    let app = App::new(true, false, vec![port("/dev/ttyS0"), port("/dev/ttyUSB1"), port("/dev/ttyUSB0")]);
    let names: Vec<&str> = app.ports.iter().map(|p| p.port_name.as_str()).collect();
    assert_eq!(names, vec!["/dev/ttyUSB0", "/dev/ttyUSB1", "/dev/ttyS0"]);
    assert_eq!(app.screen, Screen::PortSelect);
    assert_eq!(app.selected, 0);
    assert!(!app.connected);
    assert!(app.hold);
    assert_eq!(app.terminal_mode, TerminalMode::Insert);
    assert_eq!(app.port_config.baud, 115200);
}

#[test]
fn selection_wraps_around() {
    let mut app = App::new(true, false, vec![port("a"), port("b"), port("c")]);
    app.move_selection(-1);
    assert_eq!(app.selected, 2);
    app.move_selection(1);
    assert_eq!(app.selected, 0);
    app.move_selection(4);
    assert_eq!(app.selected, 1);
    let mut empty = App::new(true, false, Vec::new());
    empty.move_selection(1);
    assert_eq!(empty.selected, 0);
}

#[test]
fn refreshing_keeps_the_selected_port() {
    let mut app = App::new(true, false, vec![port("COM1"), port("COM2")]);
    app.move_selection(1);
    assert_eq!(app.ports[app.selected].port_name, "COM2");
    app.refresh_ports(vec![port("COM3"), port("COM2"), port("COM0")]);
    assert_eq!(app.ports[app.selected].port_name, "COM2");
    assert_eq!(app.selected, 1);
    app.refresh_ports(vec![port("COM7")]);
    assert_eq!(app.selected, 0);
}

#[test]
fn opening_the_selected_port_shows_the_terminal() {
    let mut app = App::new(true, false, vec![port("/dev/ttyACM0")]);
    let effects = app.on_key(&key(KeyCode::Enter));
    assert_eq!(effects.len(), 1);
    let req = match &effects[0] {
        Effect::Open(r) => r.clone(),
        other => panic!("expected an open request, got {:?}", other),
    };
    assert_eq!(req.port, "/dev/ttyACM0");
    assert_eq!(req.purpose, OpenPurpose::Select);
    let effects = app.finish_open(req, Ok(()), 10);
    assert!(matches!(effects.as_slice(), [Effect::ResetEmulator]));
    assert_eq!(app.screen, Screen::Terminal);
    assert!(app.connected);
    assert_eq!(app.active_port, "/dev/ttyACM0");
}

#[test]
fn a_failed_open_is_explained_and_counted() {
    let mut app = App::new(true, false, vec![port("/dev/ttyACM0")]);
    let req = OpenRequest { port: "/dev/ttyACM0".to_string(), config: PortConfig::default(), purpose: OpenPurpose::Select };
    app.finish_open(req.clone(), Err("Device or resource busy".to_string()), 5);
    app.finish_open(req, Err("Device or resource busy".to_string()), 7);
    assert_eq!(app.screen, Screen::PortSelect);
    assert_eq!(app.errors.len(), 1);
    assert_eq!(app.errors[0].message, "Port is busy - already in use by another application");
    assert_eq!(app.errors[0].count, 2);
    assert_eq!(app.errors[0].shown_at, 7);
}

#[test]
fn errors_disappear_after_five_seconds() {
    let mut app = App::new(true, false, Vec::new());
    app.push_error("first".to_string(), 1000);
    app.push_error("second".to_string(), 3000);
    app.tick_errors(5999);
    assert_eq!(app.errors.len(), 2);
    app.tick_errors(6000);
    assert_eq!(app.errors.len(), 1);
    assert_eq!(app.errors[0].message, "second");
    app.tick_errors(8000);
    assert!(app.errors.is_empty());
}

#[test]
fn port_selection_keys() {
    let mut app = App::new(true, false, vec![port("a"), port("b")]);
    assert!(matches!(app.on_key(&key(KeyCode::Char('r'))).as_slice(), [Effect::RefreshPorts]));
    app.on_key(&key(KeyCode::Char('j')));
    assert_eq!(app.selected, 1);
    app.on_key(&key(KeyCode::Up));
    assert_eq!(app.selected, 0);
    app.on_key(&key(KeyCode::Char('s')));
    assert!(app.settings.show);
    app.on_key(&key(KeyCode::Esc));
    assert!(!app.settings.show);
    app.on_key(&key(KeyCode::Char('q')));
    assert!(app.exit);
}

#[test]
fn typed_keys_are_sent_to_the_device() {
    let mut app = connected_app();
    let effects = app.on_key(&typed('x'));
    assert_eq!(writes(&effects), vec![b"x".to_vec()]);
    assert_eq!(effects.len(), 1);
}

#[test]
fn enter_sends_the_outgoing_line_ending() {
    let mut app = connected_app();
    app.outgoing_newline = NewlineEncoding::CRLF;
    let enter = KeyInput { code: KeyCode::Enter, modifiers: 0 };
    assert_eq!(writes(&app.on_key(&enter)), vec![vec![13, 10]]);
    app.outgoing_newline = NewlineEncoding::LF;
    assert_eq!(writes(&app.on_key(&enter)), vec![vec![10]]);
    app.outgoing_newline = NewlineEncoding::CR;
    assert_eq!(writes(&app.on_key(&enter)), vec![vec![13]]);
}

#[test]
fn local_echo_shows_typed_characters() {
    let mut app = connected_app();
    app.local_echo = true;
    let effects = app.on_key(&typed('h'));
    assert!(matches!(effects.as_slice(), [Effect::EchoChar(b'h'), Effect::Write(_)]));
    app.on_key(&typed('i'));
    assert_eq!(app.view.scrollback, vec!["hi".to_string()]);
    let enter = KeyInput { code: KeyCode::Enter, modifiers: 0 };
    let effects = app.on_key(&enter);
    assert!(matches!(effects.as_slice(), [Effect::Feed(f), Effect::Write(_)] if f == &vec![13u8, 10]));
    assert_eq!(app.view.scrollback, vec!["hi\n".to_string()]);
}

#[test]
fn nothing_is_sent_while_paused() {
    let mut app = connected_app();
    app.on_key(&ctrl(KeyCode::Char(' ')));
    assert_eq!(app.terminal_mode, TerminalMode::Control);
    let effects = app.on_key(&key(KeyCode::Char('p')));
    assert!(matches!(effects.as_slice(), [Effect::Disconnect]));
    assert!(app.paused);
    assert!(!app.connected);
    assert!(app.send_bytes(b"data".to_vec()).is_empty());
    let effects = app.on_key(&key(KeyCode::Char('p')));
    assert!(matches!(effects.as_slice(), [Effect::Open(r)] if r.purpose == OpenPurpose::Resume));
    assert!(!app.paused);
}

#[test]
fn ctrl_esc_needs_the_enhanced_keyboard() {
    let mut app = connected_app();
    app.on_key(&ctrl(KeyCode::Esc));
    assert_eq!(app.terminal_mode, TerminalMode::Insert);
    let mut app = App::with_port("/dev/ttyUSB0", PortConfig::default(), true, true, Vec::new(), Ok(()), 0);
    app.on_key(&ctrl(KeyCode::Esc));
    assert_eq!(app.terminal_mode, TerminalMode::Control);
    app.on_key(&key(KeyCode::Char('i')));
    assert_eq!(app.terminal_mode, TerminalMode::Insert);
}

#[test]
fn speed_keys_step_through_the_standard_rates() {
    let mut app = connected_app();
    app.on_key(&ctrl(KeyCode::Char(' ')));
    let effects = app.on_key(&key(KeyCode::Char('+')));
    match effects.as_slice() {
        [Effect::Close, Effect::Wait(100), Effect::Open(r)] => {
            assert_eq!(r.config.baud, 230400);
            assert_eq!(r.purpose, OpenPurpose::ChangeBaud);
            assert_eq!(r.port, "/dev/ttyUSB0");
        },
        other => panic!("unexpected effects {:?}", other),
    }
    assert!(!app.connected);
    assert_eq!(app.port_config.baud, 115200);
    let req = OpenRequest {
        port: "/dev/ttyUSB0".to_string(),
        config: PortConfig { baud: 921600, ..PortConfig::default() },
        purpose: OpenPurpose::ChangeBaud,
    };
    app.finish_open(req, Ok(()), 1);
    assert_eq!(app.port_config.baud, 921600);
    assert!(app.on_key(&key(KeyCode::Char('+'))).is_empty());
}

#[test]
fn a_failed_speed_change_returns_to_the_port_list() {
    let mut app = connected_app();
    let req = OpenRequest { port: "/dev/ttyUSB0".to_string(), config: PortConfig::default(), purpose: OpenPurpose::ChangeBaud };
    app.finish_open(req, Err("Broken pipe".to_string()), 3);
    assert_eq!(app.screen, Screen::PortSelect);
    assert_eq!(app.errors[0].message, "Device disconnected unexpectedly");
}

#[test]
fn control_mode_disconnect_and_quit() {
    let mut app = connected_app();
    app.on_key(&ctrl(KeyCode::Char(' ')));
    let effects = app.on_key(&key(KeyCode::Delete));
    assert!(matches!(effects.as_slice(), [Effect::Disconnect]));
    assert_eq!(app.screen, Screen::PortSelect);
    let mut app = connected_app();
    app.on_key(&ctrl(KeyCode::Char(' ')));
    let effects = app.on_key(&key(KeyCode::Char('q')));
    assert!(matches!(effects.as_slice(), [Effect::Disconnect]));
    assert!(app.exit);
}

#[test]
fn received_data_reaches_emulator_and_scrollback() {
    let mut app = connected_app();
    app.incoming_newline = NewlineEncoding::LF;
    let (effects, stop) = app.on_serial_event(SerialEvent::Data(b"one\ntw".to_vec()), 0);
    assert!(!stop);
    assert!(matches!(effects.as_slice(), [Effect::Feed(f)] if f == &b"one\r\ntw".to_vec()));
    app.receive_data(b"o\n");
    assert_eq!(app.view.scrollback, vec!["one\n".to_string(), "two\n".to_string()]);
}

#[test]
fn copying_takes_the_whole_scrollback() {
    let mut app = connected_app();
    app.receive_data(b"\nfirst\nsecond\n\n");
    app.on_key(&ctrl(KeyCode::Char(' ')));
    let effects = app.on_key(&key(KeyCode::Char('c')));
    assert!(matches!(effects.as_slice(), [Effect::Copy(t)] if t == "first\nsecond"));
}

#[test]
fn flushing_clears_the_screen() {
    let mut app = connected_app();
    app.receive_data(b"text\n");
    app.on_key(&ctrl(KeyCode::Char(' ')));
    let effects = app.on_key(&key(KeyCode::Char('f')));
    assert!(matches!(effects.as_slice(), [Effect::ResetEmulator]));
    assert!(app.view.scrollback.is_empty());
}

#[test]
fn losing_the_device_schedules_a_reconnect() {
    let mut app = connected_app();
    let (effects, stop) = app.on_serial_event(SerialEvent::Disconnected, 100);
    assert!(stop);
    assert!(matches!(effects.as_slice(), [Effect::Close]));
    assert_eq!(app.reconnect_at, Some(1100));
    assert!(app.poll_serial(1099).is_empty());
    let effects = app.poll_serial(1100);
    assert!(matches!(effects.as_slice(), [Effect::Open(r)] if r.purpose == OpenPurpose::Reconnect));
    assert_eq!(app.reconnect_at, None);
    let req = OpenRequest { port: "/dev/ttyUSB0".to_string(), config: PortConfig::default(), purpose: OpenPurpose::Reconnect };
    app.finish_open(req.clone(), Err("No such file or directory".to_string()), 1200);
    assert_eq!(app.reconnect_at, Some(2200));
    assert!(app.errors.is_empty());
    app.push_error("old".to_string(), 1200);
    app.finish_open(req, Ok(()), 2300);
    assert!(app.connected);
    assert!(app.errors.is_empty());
}

#[test]
fn without_keep_open_a_lost_device_returns_to_the_list() {
    let mut app = App::with_port("/dev/ttyUSB0", PortConfig::default(), false, false, Vec::new(), Ok(()), 0);
    let (effects, _) = app.on_serial_event(SerialEvent::Error("Broken pipe".to_string()), 50);
    assert!(matches!(effects.as_slice(), [Effect::Close]));
    assert_eq!(app.screen, Screen::PortSelect);
    assert_eq!(app.errors[0].message, "Device disconnected unexpectedly");
    assert_eq!(app.reconnect_at, None);
}

#[test]
fn a_failed_start_shows_the_port_list() {
    let app = App::with_port("/dev/ttyUSB9", PortConfig::default(), true, false, Vec::new(), Err("Permission denied".to_string()), 4);
    assert_eq!(app.screen, Screen::PortSelect);
    assert!(!app.connected);
    assert_eq!(app.errors.len(), 1);
    assert_eq!(app.errors[0].message, "Permission denied - try running with sudo or check port permissions");
}

#[test]
fn line_mode_sends_whole_lines_and_remembers_them() {
    let mut app = connected_app();
    app.input_mode = InputMode::Line;
    assert!(app.on_key(&typed('l')).is_empty());
    app.on_key(&typed('s'));
    app.on_key(&typed('x'));
    app.on_key(&key(KeyCode::Backspace));
    assert_eq!(app.line.buffer, "ls");
    let effects = app.on_key(&key(KeyCode::Enter));
    assert_eq!(writes(&effects), vec![b"ls\r".to_vec()]);
    assert_eq!(app.line.buffer, "");
    assert_eq!(app.line.history, vec!["ls".to_string()]);
    app.on_key(&typed('p'));
    app.on_key(&typed('w'));
    app.on_key(&typed('d'));
    app.on_key(&key(KeyCode::Enter));
    app.on_key(&key(KeyCode::Enter));
    assert_eq!(app.line.history, vec!["ls".to_string(), "pwd".to_string()]);
    app.on_key(&typed('e'));
    app.on_key(&key(KeyCode::Up));
    assert_eq!(app.line.buffer, "pwd");
    app.on_key(&key(KeyCode::Up));
    assert_eq!(app.line.buffer, "ls");
    app.on_key(&key(KeyCode::Up));
    assert_eq!(app.line.buffer, "ls");
    app.on_key(&key(KeyCode::Down));
    assert_eq!(app.line.buffer, "pwd");
    app.on_key(&key(KeyCode::Down));
    assert_eq!(app.line.buffer, "e");
}

#[test]
fn ctrl_keys_are_forwarded_in_line_mode() {
    let mut app = connected_app();
    app.input_mode = InputMode::Line;
    let ctrl_c = KeyInput { code: KeyCode::Char('c'), modifiers: CONTROL };
    assert_eq!(writes(&app.on_key(&ctrl_c)), vec![vec![3u8]]);
    assert_eq!(app.line.buffer, "");
}

#[test]
fn scrolling_back_and_returning() {
    let mut app = connected_app();
    let mut text = String::new();
    for i in 0..40 {
        text.push_str(&format!("line {}\n", i));
    }
    app.receive_data(text.as_bytes());
    app.on_key(&ctrl(KeyCode::Char(' ')));
    app.on_key(&key(KeyCode::Up));
    assert_eq!(app.view.scroll_offset, 3);
    assert!(app.view.frozen_lines.is_some());
    for _ in 0..10 {
        app.on_key(&key(KeyCode::Char('k')));
    }
    assert_eq!(app.view.scroll_offset, 40 - 24);
    assert!(app.update_scrolled_view());
    assert_eq!(app.view.visible_lines.len(), 24);
    assert_eq!(app.view.visible_lines[0], "line 0");
    app.on_key(&key(KeyCode::Esc));
    assert_eq!(app.view.scroll_offset, 0);
    assert!(app.view.frozen_lines.is_none());
    assert!(!app.update_scrolled_view());
}

#[test]
fn mouse_selection_is_copied() {
    let mut app = connected_app();
    app.set_output_area(Rect { x: 0, y: 2, width: 22, height: 12 });
    assert_eq!(app.view.output_rect, Rect { x: 1, y: 3, width: 20, height: 10 });
    assert_eq!(app.view.viewport_height, 10);
    app.view.visible_lines = vec!["hello world  ".to_string(), "second line".to_string()];
    app.on_mouse(MouseInput { kind: MouseKind::Down, column: 7, row: 3 });
    assert_eq!(app.selection.anchor, Some((0, 6)));
    app.on_mouse(MouseInput { kind: MouseKind::Drag, column: 6, row: 4 });
    let effects = app.on_mouse(MouseInput { kind: MouseKind::Up, column: 6, row: 4 });
    assert!(matches!(effects.as_slice(), [Effect::Copy(t)] if t == "world\nsecond"));
    assert!(!app.selection.active);
    assert_eq!(app.selection.range(), Some(((0, 6), (1, 5))));
}

#[test]
fn a_click_without_drag_selects_nothing() {
    let mut app = connected_app();
    app.set_output_area(Rect { x: 0, y: 0, width: 10, height: 10 });
    app.view.visible_lines = vec!["abc".to_string()];
    app.on_mouse(MouseInput { kind: MouseKind::Down, column: 2, row: 1 });
    let effects = app.on_mouse(MouseInput { kind: MouseKind::Up, column: 2, row: 1 });
    assert!(effects.is_empty());
    assert_eq!(app.selection.anchor, None);
    app.on_mouse(MouseInput { kind: MouseKind::Down, column: 0, row: 0 });
    assert_eq!(app.selection.anchor, None);
}

#[test]
fn pasted_text_is_sent_on_the_terminal_screen() {
    let app = connected_app();
    assert_eq!(writes(&app.on_paste("pasted")), vec![b"pasted".to_vec()]);
    let list = App::new(true, false, Vec::new());
    assert!(list.on_paste("pasted").is_empty());
}

#[test]
fn forwarded_keys_are_sent_in_their_xterm_encoding() {
    let mut app = connected_app();
    let k = |code| KeyInput { code, modifiers: 0 };
    assert_eq!(writes(&app.on_key(&k(KeyCode::Up))), vec![b"\x1b[A".to_vec()]);
    assert_eq!(writes(&app.on_key(&k(KeyCode::Home))), vec![b"\x1b[H".to_vec()]);
    assert_eq!(writes(&app.on_key(&k(KeyCode::F(1)))), vec![b"\x1bOP".to_vec()]);
    assert_eq!(writes(&app.on_key(&k(KeyCode::F(5)))), vec![b"\x1b[15~".to_vec()]);
    assert_eq!(writes(&app.on_key(&k(KeyCode::Tab))), vec![b"\t".to_vec()]);
    assert_eq!(writes(&app.on_key(&k(KeyCode::Backspace))), vec![vec![0x7f]]);
    assert_eq!(writes(&app.on_key(&k(KeyCode::Char('\u{e9}')))), vec!["\u{e9}".as_bytes().to_vec()]);
    assert!(app.on_key(&k(KeyCode::Other)).is_empty());
    let alt_x = KeyInput { code: KeyCode::Char('x'), modifiers: stuart::input::ALT };
    assert_eq!(writes(&app.on_key(&alt_x)), vec![b"\x1bx".to_vec()]);
}

#[test]
fn ctrl_with_a_character_ending_in_ff_sends_nothing() {
    let mut app = connected_app();
    let key = KeyInput { code: KeyCode::Char('\u{ff}'), modifiers: CONTROL };
    assert!(app.on_key(&key).is_empty());
    let key = KeyInput { code: KeyCode::Char('\u{1ff}'), modifiers: CONTROL };
    assert!(app.on_key(&key).is_empty());
    let key = KeyInput { code: KeyCode::Char('\u{ff}'), modifiers: 0 };
    assert_eq!(writes(&app.on_key(&key)), vec!["\u{ff}".as_bytes().to_vec()]);
}

#[test]
fn the_live_output_fills_the_viewport() {
    let mut app = connected_app();
    let effects = app.set_output_area(Rect { x: 0, y: 3, width: 12, height: 6 });
    assert!(matches!(effects.as_slice(), [Effect::ResizeEmulator(4, 10)]));
    assert_eq!(app.view.viewport_height, 4);
    app.set_live_lines(vec!["a".to_string(), "b".to_string()]);
    assert_eq!(app.view.visible_lines, vec!["a", "b", "", ""]);
    app.set_live_lines(vec!["1".to_string(), "2".to_string(), "3".to_string(), "4".to_string(), "5".to_string()]);
    assert_eq!(app.view.visible_lines, vec!["1", "2", "3", "4"]);
}
