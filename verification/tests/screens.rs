use stuart::input::{KeyCode, KeyInput, Rect};
use stuart::layout::{error_label, error_popup_area, help_bar_height, line_overlay, settings_popup_area, wrap_spans_to_lines};
use stuart::serial::{DataBits, InputMode, NewlineEncoding, PortConfig};
use stuart::settings::{parse_u32, setting_for, setting_row, Setting};
use stuart::state::{App, Effect, ErrorEntry, OpenPurpose, SelectionState, TerminalMode};
use stuart::view::{cell_at, clamp_cell, highlight_span, is_selected, InfoItem};

fn key(code: KeyCode) -> KeyInput {
    KeyInput { code, modifiers: 0 }
}

fn connected_app() -> App {
    App::with_port("/dev/ttyUSB0", PortConfig::default(), true, false, Vec::new(), Ok(()), 0)
}

#[test]
fn help_entries_wrap_greedily() {
    assert_eq!(wrap_spans_to_lines(&vec![3, 1, 6, 3, 4], 12), vec![3, 2]);
    assert_eq!(wrap_spans_to_lines(&vec![3, 1, 6, 3, 4], 100), vec![5]);
    assert_eq!(wrap_spans_to_lines(&vec![20, 1], 10), vec![1, 1]);
    assert_eq!(wrap_spans_to_lines(&Vec::new(), 10), vec![0]);
    assert_eq!(wrap_spans_to_lines(&vec![0, 0], 0), vec![2]);
    assert_eq!(wrap_spans_to_lines(&vec![1, 1], 1), vec![1, 1]);
}

#[test]
fn help_bar_height_counts_rows_and_border() {
    let (height, rows) = help_bar_height(&vec![5, 5, 5], 12);
    assert_eq!(rows, vec![2, 1]);
    assert_eq!(height, 4);
    assert_eq!(help_bar_height(&Vec::new(), 80).0, 3);
}

#[test]
fn error_text_counts_repeats() {
    let once = ErrorEntry { message: "Port busy".to_string(), count: 1, shown_at: 0 };
    assert_eq!(error_label(&once), "Port busy");
    let thrice = ErrorEntry { message: "Port busy".to_string(), count: 3, shown_at: 0 };
    assert_eq!(error_label(&thrice), "Port busy (x3)");
}

#[test]
fn error_popup_is_centred_at_the_top() {
    assert_eq!(error_popup_area(30, 80), Rect { x: 23, y: 0, width: 34, height: 3 });
    assert_eq!(error_popup_area(5, 80), Rect { x: 28, y: 0, width: 24, height: 3 });
    assert_eq!(error_popup_area(100, 50), Rect { x: 0, y: 0, width: 50, height: 3 });
    assert_eq!(error_popup_area(0, 10), Rect { x: 0, y: 0, width: 10, height: 3 });
}

#[test]
fn selection_is_ordered() {
    let mut s = SelectionState::new();
    assert_eq!(s.range(), None);
    s.start(4, 2);
    s.update(1, 7);
    assert_eq!(s.range(), Some(((1, 7), (4, 2))));
    s.update(4, 1);
    assert_eq!(s.range(), Some(((4, 1), (4, 2))));
    s.clear();
    assert!(!s.active);
    s.update(0, 0);
    assert_eq!(s.range(), None);
}

#[test]
fn screen_cells_map_to_the_output() {
    let rect = Rect { x: 2, y: 3, width: 10, height: 5 };
    assert_eq!(cell_at(rect, 2, 3), Some((0, 0)));
    assert_eq!(cell_at(rect, 11, 7), Some((4, 9)));
    assert_eq!(cell_at(rect, 12, 7), None);
    assert_eq!(cell_at(rect, 1, 4), None);
    assert_eq!(clamp_cell(rect, 0, 0), (0, 0));
    assert_eq!(clamp_cell(rect, 50, 50), (4, 9));
    assert_eq!(clamp_cell(rect, 5, 4), (1, 3));
}

#[test]
fn selected_cells_and_highlight() {
    let sel = Some(((1, 3), (2, 4)));
    assert!(!is_selected(sel, 1, 2));
    assert!(is_selected(sel, 1, 3));
    assert!(is_selected(sel, 1, 100));
    assert!(is_selected(sel, 2, 0));
    assert!(is_selected(sel, 2, 4));
    assert!(!is_selected(sel, 2, 5));
    assert!(!is_selected(None, 0, 0));
    assert_eq!(highlight_span(10, 1, sel), Some((3, 10)));
    assert_eq!(highlight_span(10, 2, sel), Some((0, 5)));
    assert_eq!(highlight_span(2, 1, sel), Some((2, 2)));
    assert_eq!(highlight_span(10, 0, sel), None);
}

#[test]
fn status_shows_scroll_position_and_reconnecting() {
    let mut app = connected_app();
    assert!(app.info_bar_right().is_empty());
    assert!(app.info_bar_shows_port());
    app.connected = false;
    assert_eq!(app.info_bar_right(), vec![InfoItem::Reconnecting]);
    app.hold = false;
    assert!(app.info_bar_right().is_empty());
    let list = App::new(true, false, Vec::new());
    assert!(!list.info_bar_shows_port());
}

#[test]
fn settings_entries_and_values() {
    let app = connected_app();
    let labels: Vec<&str> = (0..8).map(|i| setting_for(i).label()).collect();
    assert_eq!(
        labels,
        vec!["Baud Rate", "Data Bits", "Stop Bits", "Parity", "Flow Control", "Local Echo", "Input Mode", "Outgoing Newline"]
    );
    let values: Vec<String> = (0..8).map(|i| setting_for(i).value(&app)).collect();
    assert_eq!(values, vec!["115200", "8", "1", "None", "None", "Off", "Direct", "CR"]);
}

#[test]
fn cycling_wraps_and_applies_port_settings() {
    let mut app = connected_app();
    let effects = Setting::DataBits.cycle(&mut app, 1);
    assert_eq!(app.port_config.data_bits, DataBits::Five);
    match effects.as_slice() {
        [Effect::Close, Effect::Wait(50), Effect::Open(r)] => {
            assert_eq!(r.purpose, OpenPurpose::Apply);
            assert_eq!(r.config.data_bits, DataBits::Five);
        },
        other => panic!("unexpected effects {:?}", other),
    }
    let effects = Setting::DataBits.cycle(&mut app, -1);
    assert_eq!(app.port_config.data_bits, DataBits::Eight);
    assert!(effects.is_empty());
    Setting::OutgoingNewline.cycle(&mut app, -1);
    assert_eq!(app.outgoing_newline, NewlineEncoding::CRLF);
    Setting::LocalEcho.cycle(&mut app, 1);
    assert!(app.local_echo);
    Setting::InputMode.cycle(&mut app, 1);
    assert_eq!(app.input_mode, InputMode::Line);
    app.line.buffer.push_str("half");
    Setting::InputMode.cycle(&mut app, 1);
    assert_eq!(app.input_mode, InputMode::Direct);
    assert_eq!(app.line.buffer, "");
}

#[test]
fn unknown_rates_cycle_from_the_fallback() {
    let mut app = App::new(true, false, Vec::new());
    app.port_config.baud = 12345;
    assert!(Setting::BaudRate.cycle(&mut app, 1).is_empty());
    assert_eq!(app.port_config.baud, 230400);
    app.port_config.baud = 9600;
    Setting::BaudRate.cycle(&mut app, -1);
    assert_eq!(app.port_config.baud, 921600);
}

#[test]
fn settings_dialogue_keys() {
    let mut app = connected_app();
    app.settings.show = true;
    app.on_key(&key(KeyCode::Up));
    assert_eq!(app.settings.cursor, 7);
    app.on_key(&key(KeyCode::Char('j')));
    assert_eq!(app.settings.cursor, 0);
    app.on_key(&key(KeyCode::Char(' ')));
    assert_eq!(app.settings.baud_input, Some("115200".to_string()));
    app.on_key(&key(KeyCode::Esc));
    assert_eq!(app.settings.baud_input, None);
    assert!(app.settings.show);
    app.on_key(&key(KeyCode::Char(' ')));
    for _ in 0..6 {
        app.on_key(&key(KeyCode::Backspace));
    }
    app.on_key(&key(KeyCode::Char('9')));
    app.on_key(&key(KeyCode::Char('x')));
    app.on_key(&key(KeyCode::Char('6')));
    assert_eq!(app.settings.baud_input, Some("96".to_string()));
    let effects = app.on_key(&key(KeyCode::Enter));
    assert_eq!(app.port_config.baud, 96);
    assert!(matches!(effects.as_slice(), [Effect::Close, Effect::Wait(50), Effect::Open(r)] if r.config.baud == 96));
    assert_eq!(app.settings.baud_input, None);
    app.terminal_mode = TerminalMode::Control;
    app.on_key(&key(KeyCode::Enter));
    assert_eq!(app.settings.baud_input, Some("96".to_string()));
    assert!(app.settings.show);
    assert_eq!(app.terminal_mode, TerminalMode::Control);
    app.on_key(&key(KeyCode::Esc));
    app.on_key(&key(KeyCode::Down));
    app.on_key(&key(KeyCode::Enter));
    assert!(!app.settings.show);
    assert_eq!(app.terminal_mode, TerminalMode::Insert);
}

#[test]
fn a_zero_or_unreadable_rate_is_ignored() {
    let mut app = connected_app();
    app.settings.show = true;
    app.settings.baud_input = Some("0".to_string());
    assert!(app.on_key(&key(KeyCode::Char(' '))).is_empty());
    assert_eq!(app.port_config.baud, 115200);
    app.settings.baud_input = Some("99999999999".to_string());
    assert!(app.on_key(&key(KeyCode::Enter)).is_empty());
    assert_eq!(app.port_config.baud, 115200);
    assert_eq!(app.settings.baud_input, None);
}

#[test]
fn rates_are_read_as_unsigned_numbers() {
    assert_eq!(parse_u32("9600"), Some(9600));
    assert_eq!(parse_u32("+42"), Some(42));
    assert_eq!(parse_u32("007"), Some(7));
    assert_eq!(parse_u32("4294967295"), Some(4294967295));
    assert_eq!(parse_u32("4294967296"), None);
    assert_eq!(parse_u32(""), None);
    assert_eq!(parse_u32("+"), None);
    assert_eq!(parse_u32("-1"), None);
    assert_eq!(parse_u32("12a"), None);
}

#[test]
fn stepping_forward_and_back_restores_each_setting() {
    let mut app = App::new(true, false, Vec::new());
    for i in 0..8 {
        let s = setting_for(i);
        let before = s.value(&app);
        s.cycle(&mut app, 1);
        assert_ne!(s.value(&app), before);
        s.cycle(&mut app, -1);
        assert_eq!(s.value(&app), before);
    }
}

#[test]
fn settings_dialogue_is_centred() {
    assert_eq!(settings_popup_area(100, 40), Rect { x: 17, y: 14, width: 66, height: 12 });
    assert_eq!(settings_popup_area(50, 10), Rect { x: 0, y: 0, width: 50, height: 10 });
}

#[test]
fn settings_rows_show_names_and_values() {
    let mut app = connected_app();
    assert_eq!(
        setting_row(Setting::Parity, &app),
        vec![" Parity            ".to_string(), " < ".to_string(), "None".to_string(), " >".to_string()]
    );
    assert_eq!(setting_row(Setting::OutgoingNewline, &app)[0], " Outgoing Newline  ");
    app.settings.baud_input = Some("96".to_string());
    assert_eq!(
        setting_row(Setting::BaudRate, &app),
        vec![" Baud Rate         ".to_string(), ": ".to_string(), "96_".to_string()]
    );
    assert_eq!(setting_row(Setting::DataBits, &app)[2], "8");
}

#[test]
fn typed_line_wraps_inside_the_output() {
    let area = Rect { x: 1, y: 1, width: 4, height: 2 };
    let (cells, cursor) = line_overlay(area, 0, 2, 3);
    assert_eq!(cells, vec![(2, 0), (3, 0), (0, 1)]);
    assert_eq!(cursor, (2, 2));
    let (cells, cursor) = line_overlay(area, 1, 3, 5);
    assert_eq!(cells, vec![(3, 1)]);
    assert_eq!(cursor, (1, 2));
    let (cells, cursor) = line_overlay(area, 0, 0, 0);
    assert!(cells.is_empty());
    assert_eq!(cursor, (1, 1));
}

#[test]
fn key_help_follows_the_mode() {
    let (badge, entries) = stuart::layout::help_for_mode(TerminalMode::Insert, false);
    assert_eq!(badge, " INSERT ");
    assert_eq!(entries, vec![("Ctrl+Space", "control mode")]);
    let (_, entries) = stuart::layout::help_for_mode(TerminalMode::Insert, true);
    assert_eq!(entries, vec![("Ctrl+Esc", "control mode")]);
    let (badge, entries) = stuart::layout::help_for_mode(TerminalMode::Control, true);
    assert_eq!(badge, " CONTROL ");
    assert_eq!(entries.len(), 10);
    assert_eq!(entries[5], ("+/-", "baud"));
    assert_eq!(entries[9], ("q", "quit"));
}

#[test]
fn stepping_back_and_forward_restores_each_setting() {
    let mut app = App::new(true, false, Vec::new());
    for i in 0..8 {
        let s = setting_for(i);
        let before = s.value(&app);
        s.cycle(&mut app, -1);
        assert_ne!(s.value(&app), before);
        s.cycle(&mut app, 1);
        assert_eq!(s.value(&app), before);
    }
}

#[test]
fn screens_are_divided_into_bars_and_main_area() {
    let screen = Rect { x: 0, y: 0, width: 80, height: 24 };
    let ((info, main, help), info_rows, help_rows) =
        stuart::layout::screen_layout(screen, &vec![8], &vec![10, 10]);
    assert_eq!(info, Rect { x: 0, y: 0, width: 80, height: 3 });
    assert_eq!(main, Rect { x: 0, y: 3, width: 80, height: 18 });
    assert_eq!(help, Rect { x: 0, y: 21, width: 80, height: 3 });
    assert_eq!(info_rows, vec![1]);
    assert_eq!(help_rows, vec![2]);
    let ((_, list, details, _), _) = stuart::layout::port_select_layout(screen, &vec![8], &vec![70, 70]);
    assert_eq!(list, Rect { x: 0, y: 3, width: 32, height: 17 });
    assert_eq!(details, Rect { x: 32, y: 3, width: 48, height: 17 });
}
