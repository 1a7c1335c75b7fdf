//! How the terminal user interface reacts to keys, the mouse and pasted
//! text on each screen.
use vstd::prelude::*;
use crate::connection::{baud_position, baud_result, lemma_baud_rates_distinct, disconnect_result, moved_selection, open_selected_effects, pause_result, send_effects};
use crate::input::{is_overflowing_ctrl_key, sent_encoding, xterm_bytes, KeyCode, KeyInput, MouseInput, MouseKind, CONTROL};
use crate::scrollback::{clipboard_text, lemma_wf_line_count};
use crate::serial::{baud_rates, InputMode, NewlineEncoding, PortConfig};
use crate::settings::settings_step;
use crate::state::{effects, App, Effect, EffectView, LineInput, OpenPurpose, Screen, SelectionState, SettingsUi, TerminalMode, TerminalView};
use crate::terminal::{echoed, flushed, history_back, history_forward, line_count, line_sent, line_view, scroll_source, scroll_step, selection_finished};
use crate::text::{bytes_of, pop_char, push_char, views};
use crate::view::{cell_at, cell_in, clamp_cell, clamp_to};

verus! {

/// The sizes stay within what the scrolling and selection arithmetic
/// handles: fewer than 2^31 scrollback entries and ports, an offset and a
/// viewport that fit an `i32`, and an output area inside the screen.
pub open spec fn within_limits(a: App) -> bool {
    &&& a.view.scrollback@.len() <= i32::MAX
    &&& (a.view.frozen_lines matches Some(f) ==> f@.len() <= i32::MAX)
    &&& a.view.scroll_offset <= i32::MAX - 3
    &&& a.view.viewport_height <= i32::MAX
    &&& a.ports@.len() < i32::MAX
    &&& a.view.output_rect.x + a.view.output_rect.width <= u16::MAX
    &&& a.view.output_rect.y + a.view.output_rect.height <= u16::MAX
}

/// A selection with nothing selected.
pub open spec fn no_selection() -> SelectionState {
    SelectionState { anchor: None, current: None, active: false }
}

/// What a key does on the port selection screen: `q` quits, `r` lists the
/// ports again, `s` opens the settings, Up/`k` and Down/`j` move the
/// selection (wrapping around), Enter opens the selected port.
pub open spec fn port_select_step(a: App, key: KeyInput, b: App, effs: Seq<EffectView>) -> bool {
    let code = key.code;
    if code == KeyCode::Char('q') {
        b == (App { exit: true, ..a }) && effs == Seq::<EffectView>::empty()
    } else if code == KeyCode::Char('r') {
        b == a && effs == seq![EffectView::RefreshPorts]
    } else if code == KeyCode::Char('s') {
        b == (App { settings: SettingsUi { show: true, ..a.settings }, ..a }) && effs == Seq::<EffectView>::empty()
    } else if code == KeyCode::Up || code == KeyCode::Char('k') {
        b == moved_selection(a, -1) && effs == Seq::<EffectView>::empty()
    } else if code == KeyCode::Down || code == KeyCode::Char('j') {
        b == moved_selection(a, 1) && effs == Seq::<EffectView>::empty()
    } else if code == KeyCode::Enter {
        b == a && effs == open_selected_effects(a)
    } else {
        b == a && effs == Seq::<EffectView>::empty()
    }
}

/// What a key does in control mode: `a`/`i` return to insert mode at the
/// live output; Up/`k` and Down/`j` scroll by three lines; Esc drops the
/// selection and returns to the live output; Backspace/Delete disconnect;
/// `f` clears the screen; `c` copies the scrollback; `+`/`-` step the baud
/// rate; `p` pauses or resumes; `s` opens the settings; `q` disconnects
/// and quits.
pub open spec fn control_step(a: App, key: KeyInput, b: App, effs: Seq<EffectView>) -> bool {
    let code = key.code;
    let bottom = TerminalView { scroll_offset: 0, frozen_lines: None, ..a.view };
    if code == KeyCode::Char('a') || code == KeyCode::Char('i') {
        b == (App { view: bottom, terminal_mode: TerminalMode::Insert, ..a }) && effs == Seq::<EffectView>::empty()
    } else if code == KeyCode::Up || code == KeyCode::Char('k') {
        scroll_step(a, 3, b) && effs == Seq::<EffectView>::empty()
    } else if code == KeyCode::Down || code == KeyCode::Char('j') {
        scroll_step(a, -3, b) && effs == Seq::<EffectView>::empty()
    } else if code == KeyCode::Esc {
        b == (App { view: bottom, selection: no_selection(), ..a }) && effs == Seq::<EffectView>::empty()
    } else if code == KeyCode::Backspace || code == KeyCode::Delete {
        (b, effs) == disconnect_result(a)
    } else if code == KeyCode::Char('f') {
        flushed(a, b, effs)
    } else if code == KeyCode::Char('c') {
        b == a && effs == seq![EffectView::Copy(clipboard_text(views(a.view.scrollback@)))]
    } else if code == KeyCode::Char('+') {
        (b, effs) == baud_result(a, 1)
    } else if code == KeyCode::Char('-') {
        (b, effs) == baud_result(a, -1)
    } else if code == KeyCode::Char('p') {
        (b, effs) == pause_result(a)
    } else if code == KeyCode::Char('s') {
        b == (App { settings: SettingsUi { show: true, ..a.settings }, ..a }) && effs == Seq::<EffectView>::empty()
    } else if code == KeyCode::Char('q') {
        b == (App { exit: true, ..disconnect_result(a).0 }) && effs == disconnect_result(a).1
    } else {
        b == a && effs == Seq::<EffectView>::empty()
    }
}

/// The key that leaves insert mode: Ctrl+Space, or Ctrl+Esc where the
/// terminal reports it.
pub open spec fn is_escape_key(a: App, key: KeyInput) -> bool {
    (a.keyboard_enhanced && key.code == KeyCode::Esc && key.modifiers == CONTROL) || (key.code == KeyCode::Char(' ')
        && key.modifiers == CONTROL)
}

/// The bytes sent for a key's encoding: a lone carriage return becomes the
/// outgoing line ending.
pub open spec fn outgoing_key_bytes(bytes: Seq<u8>, nl: NewlineEncoding) -> Seq<u8> {
    if bytes == seq![13u8] {
        crate::terminal::newline_bytes(nl)
    } else {
        bytes
    }
}

/// What a key does in line mode: characters and Backspace edit the line,
/// Enter sends it, Up and Down browse the history.
pub open spec fn line_key_step(a: App, key: KeyInput, b: App, effs: Seq<EffectView>) -> bool {
    match key.code {
        KeyCode::Char(c) => b.line.buffer@ == a.line.buffer@.push(c) && b == (App {
            line: LineInput { buffer: b.line.buffer, ..a.line },
            ..a
        }) && effs == Seq::<EffectView>::empty(),
        KeyCode::Backspace => b.line.buffer@ == (if a.line.buffer@.len() > 0 {
            a.line.buffer@.drop_last()
        } else {
            a.line.buffer@
        }) && b == (App { line: LineInput { buffer: b.line.buffer, ..a.line }, ..a }) && effs == Seq::<
            EffectView,
        >::empty(),
        KeyCode::Enter => line_sent(a, b, effs),
        KeyCode::Up => line_view(b.line) == history_back(line_view(a.line)) && b == (App { line: b.line, ..a })
            && effs == Seq::<EffectView>::empty(),
        KeyCode::Down => line_view(b.line) == history_forward(line_view(a.line)) && b == (App { line: b.line, ..a })
            && effs == Seq::<EffectView>::empty(),
        _ => b == a && effs == Seq::<EffectView>::empty(),
    }
}

/// What sending a key's encoded bytes does: they are echoed (with local
/// echo on) and sent, a lone carriage return as the outgoing line ending.
pub open spec fn forward_bytes_step(a: App, bytes: Seq<u8>, b: App, effs: Seq<EffectView>) -> bool {
    let out = outgoing_key_bytes(bytes, a.outgoing_newline);
    if a.local_echo {
        exists|e1: Seq<EffectView>| echoed(a, bytes, b, e1) && effs == e1 + send_effects(a, out)
    } else {
        b == a && effs == send_effects(a, out)
    }
}

/// What a key forwarded to the device does: nothing without an xterm
/// encoding (see `sent_encoding`); otherwise its encoding is echoed and sent (see
/// `forward_bytes_step`).
pub open spec fn forward_key_step(a: App, key: KeyInput, b: App, effs: Seq<EffectView>) -> bool {
    match sent_encoding(key.code, key.modifiers) {
        None => b == a && effs == Seq::<EffectView>::empty(),
        Some(bytes) => forward_bytes_step(a, bytes, b, effs),
    }
}

/// What a key does in insert mode: the escape key enters control mode; Esc
/// first drops the selection and, if scrolled back or something was
/// selected, only returns to the live output; in line mode keys without
/// Ctrl edit the line; every other key is forwarded to the device.
pub open spec fn insert_step(a: App, key: KeyInput, b: App, effs: Seq<EffectView>) -> bool {
    if is_escape_key(a, key) {
        b == (App { terminal_mode: TerminalMode::Control, ..a }) && effs == Seq::<EffectView>::empty()
    } else {
        let a1 = if key.code == KeyCode::Esc {
            App { selection: no_selection(), ..a }
        } else {
            a
        };
        if key.code == KeyCode::Esc && a.view.scroll_offset > 0 {
            b == (App { view: TerminalView { scroll_offset: 0, frozen_lines: None, ..a.view }, ..a1 }) && effs
                == Seq::<EffectView>::empty()
        } else if key.code == KeyCode::Esc && a.selection.anchor is Some {
            b == a1 && effs == Seq::<EffectView>::empty()
        } else if a.input_mode == InputMode::Line && key.modifiers & CONTROL == 0 {
            line_key_step(a1, key, b, effs)
        } else {
            forward_key_step(a1, key, b, effs)
        }
    }
}

/// What a key does, on whichever screen is shown (the settings dialogue
/// takes the keys while open).
pub open spec fn key_step(a: App, key: KeyInput, b: App, effs: Seq<EffectView>) -> bool {
    if a.settings.show {
        settings_step(a, key, b, effs)
    } else if a.screen == Screen::PortSelect {
        port_select_step(a, key, b, effs)
    } else if a.terminal_mode == TerminalMode::Insert {
        insert_step(a, key, b, effs)
    } else {
        control_step(a, key, b, effs)
    }
}

/// What the mouse does on the terminal screen: the wheel scrolls three
/// lines; a press inside the output starts a selection; dragging moves its
/// free end (kept inside the output); releasing ends it.
pub open spec fn mouse_step(a: App, m: MouseInput, b: App, effs: Seq<EffectView>) -> bool {
    let rect = a.view.output_rect;
    match m.kind {
        MouseKind::ScrollUp => scroll_step(a, 3, b) && effs == Seq::<EffectView>::empty(),
        MouseKind::ScrollDown => scroll_step(a, -3, b) && effs == Seq::<EffectView>::empty(),
        MouseKind::Down => effs == Seq::<EffectView>::empty() && match cell_in(rect, m.column, m.row) {
            Some(cell) => b == (App { selection: SelectionState { anchor: Some(cell), current: Some(cell), active: true }, ..a }),
            None => b == a,
        },
        MouseKind::Drag | MouseKind::Moved => effs == Seq::<EffectView>::empty() && if a.selection.active {
            b == (App {
                selection: SelectionState {
                    current: Some(
                        (
                            (clamp_to(m.row as int, rect.y as int, rect.height as int) - rect.y) as usize,
                            (clamp_to(m.column as int, rect.x as int, rect.width as int) - rect.x) as usize,
                        ),
                    ),
                    ..a.selection
                },
                ..a
            })
        } else {
            b == a
        },
        MouseKind::Up => if a.selection.active {
            selection_finished(a, b, effs)
        } else {
            b == a && effs == Seq::<EffectView>::empty()
        },
        _ => b == a && effs == Seq::<EffectView>::empty(),
    }
}

/// The speed keys in control mode step one standard rate: at the `i`-th
/// standard rate, `-` closes the port and, after a wait of 100 ms, reopens
/// it at the next lower standard rate, and `+` at the next higher one; at
/// the slowest rate `-`, and at the fastest `+`, change nothing.
pub proof fn law_speed_keys_step_one_rate(a: App, key: KeyInput, b: App, effs: Seq<EffectView>, i: int)
    requires
        control_step(a, key, b, effs),
        0 <= i < 8,
        baud_rates()[i] == a.port_config.baud,
    ensures
        key.code == KeyCode::Char('-') && i > 0 ==> b == (App { connected: false, ..a }) && effs == seq![
            EffectView::Close,
            EffectView::Wait(100),
            EffectView::Open(
                a.active_port@,
                (PortConfig { baud: baud_rates()[i - 1], ..a.port_config }),
                OpenPurpose::ChangeBaud,
            ),
        ],
        key.code == KeyCode::Char('-') && i == 0 ==> b == a && effs == Seq::<EffectView>::empty(),
        key.code == KeyCode::Char('+') && i < 7 ==> b == (App { connected: false, ..a }) && effs == seq![
            EffectView::Close,
            EffectView::Wait(100),
            EffectView::Open(
                a.active_port@,
                (PortConfig { baud: baud_rates()[i + 1], ..a.port_config }),
                OpenPurpose::ChangeBaud,
            ),
        ],
        key.code == KeyCode::Char('+') && i == 7 ==> b == a && effs == Seq::<EffectView>::empty(),
{
    lemma_baud_rates_distinct();
    assert(baud_position(a.port_config.baud) == i);
}

/// At a rate that is not a standard one, the speed keys step from the
/// fallback rate of 115200: `-` reopens the port at 57600 and `+` at 230400.
pub proof fn law_speed_keys_from_other_rate(a: App, key: KeyInput, b: App, effs: Seq<EffectView>)
    requires
        control_step(a, key, b, effs),
        forall|j: int| 0 <= j < 8 ==> baud_rates()[j] != a.port_config.baud,
    ensures
        key.code == KeyCode::Char('-') ==> b == (App { connected: false, ..a }) && effs == seq![
            EffectView::Close,
            EffectView::Wait(100),
            EffectView::Open(a.active_port@, (PortConfig { baud: 57600, ..a.port_config }), OpenPurpose::ChangeBaud),
        ],
        key.code == KeyCode::Char('+') ==> b == (App { connected: false, ..a }) && effs == seq![
            EffectView::Close,
            EffectView::Wait(100),
            EffectView::Open(a.active_port@, (PortConfig { baud: 230400, ..a.port_config }), OpenPurpose::ChangeBaud),
        ],
{
    assert(baud_position(a.port_config.baud) == 4);
}

proof fn lemma_scroll_ready(a: App, delta: int)
    requires
        a.inv(),
        within_limits(a),
        delta == 3 || delta == -3,
    ensures
        line_count(scroll_source(a.view, delta)) <= i32::MAX,
        a.view.scroll_offset + delta <= i32::MAX,
{
    lemma_wf_line_count(views(a.view.scrollback@));
    if let Some(f) = a.view.frozen_lines {
        lemma_wf_line_count(views(f@));
    }
}

impl App {
    /// Whether the sizes are within the limits the key and mouse handling
    /// needs (see `within_limits`).
    pub fn is_within_limits(&self) -> (b: bool)
        ensures
            b == within_limits(*self),
    {
        self.view.scrollback.len() <= 2147483647 && match &self.view.frozen_lines {
            Some(f) => f.len() <= 2147483647,
            None => true,
        } && self.view.scroll_offset <= 2147483644 && self.view.viewport_height <= 2147483647 && self.ports.len()
            < 2147483647 && self.view.output_rect.x as u32 + self.view.output_rect.width as u32 <= 65535
            && self.view.output_rect.y as u32 + self.view.output_rect.height as u32 <= 65535
    }

    /// Reacts to a key on the port selection screen.
    pub fn port_select_key(&mut self, key: &KeyInput) -> (r: Vec<Effect>)
        requires
            old(self).inv(),
            within_limits(*old(self)),
        ensures
            final(self).inv(),
            port_select_step(*old(self), *key, *final(self), effects(r@)),
    {
        let code = key.code;
        let mut r: Vec<Effect> = Vec::new();
        if code == KeyCode::Char('q') {
            self.exit = true;
        } else if code == KeyCode::Char('r') {
            r.push(Effect::RefreshPorts);
            assert(effects(r@) =~= seq![EffectView::RefreshPorts]);
        } else if code == KeyCode::Char('s') {
            self.settings.show = true;
        } else if code == KeyCode::Up || code == KeyCode::Char('k') {
            self.move_selection(-1);
        } else if code == KeyCode::Down || code == KeyCode::Char('j') {
            self.move_selection(1);
        } else if code == KeyCode::Enter {
            r = self.open_selected();
        }
        assert(r@.len() == 0 ==> effects(r@) =~= Seq::<EffectView>::empty());
        r
    }

    /// Reacts to a key in control mode.
    #[verifier::rlimit(40)]
    pub fn control_key(&mut self, key: &KeyInput) -> (r: Vec<Effect>)
        requires
            old(self).inv(),
            within_limits(*old(self)),
        ensures
            final(self).inv(),
            control_step(*old(self), *key, *final(self), effects(r@)),
    {
        let code = key.code;
        let mut r: Vec<Effect> = Vec::new();
        if code == KeyCode::Char('a') || code == KeyCode::Char('i') {
            self.scroll_to_bottom();
            self.terminal_mode = TerminalMode::Insert;
        } else if code == KeyCode::Up || code == KeyCode::Char('k') {
            proof {
                lemma_scroll_ready(*self, 3);
            }
            self.scroll(3);
        } else if code == KeyCode::Down || code == KeyCode::Char('j') {
            proof {
                lemma_scroll_ready(*self, -3);
            }
            self.scroll(-3);
        } else if code == KeyCode::Esc {
            self.selection.clear();
            self.scroll_to_bottom();
        } else if code == KeyCode::Backspace || code == KeyCode::Delete {
            r = self.disconnect();
        } else if code == KeyCode::Char('f') {
            r = self.flush_screen();
        } else if code == KeyCode::Char('c') {
            r = self.copy_to_clipboard();
        } else if code == KeyCode::Char('+') {
            r = self.change_baud(1);
        } else if code == KeyCode::Char('-') {
            r = self.change_baud(-1);
        } else if code == KeyCode::Char('p') {
            r = self.toggle_pause();
        } else if code == KeyCode::Char('s') {
            self.settings.show = true;
        } else if code == KeyCode::Char('q') {
            r = self.disconnect();
            self.exit = true;
        }
        assert(r@.len() == 0 ==> effects(r@) =~= Seq::<EffectView>::empty());
        r
    }

    fn line_key(&mut self, key: &KeyInput) -> (r: Vec<Effect>)
        requires
            old(self).inv(),
        ensures
            final(self).inv(),
            line_key_step(*old(self), *key, *final(self), effects(r@)),
    {
        let mut r: Vec<Effect> = Vec::new();
        match key.code {
            KeyCode::Char(c) => {
                push_char(&mut self.line.buffer, c);
            },
            KeyCode::Backspace => {
                pop_char(&mut self.line.buffer);
            },
            KeyCode::Enter => {
                r = self.send_line();
            },
            KeyCode::Up => {
                self.history_prev();
            },
            KeyCode::Down => {
                self.history_next();
            },
            _ => {},
        }
        assert(r@.len() == 0 ==> effects(r@) =~= Seq::<EffectView>::empty());
        r
    }

    fn forward_key(&mut self, key: &KeyInput) -> (r: Vec<Effect>)
        requires
            old(self).inv(),
        ensures
            final(self).inv(),
            forward_key_step(*old(self), *key, *final(self), effects(r@)),
    {
        let mut r: Vec<Effect> = Vec::new();
        if is_overflowing_ctrl_key(key.code, key.modifiers) {
            assert(effects(r@) =~= Seq::<EffectView>::empty());
            return r;
        }
        match xterm_bytes(key.code, key.modifiers) {
            None => {
                assert(effects(r@) =~= Seq::<EffectView>::empty());
                assert(forward_key_step(*old(self), *key, *self, effects(r@)));
            },
            Some(encoded) => {
                assert(sent_encoding(key.code, key.modifiers) == Some(encoded@));
                if self.local_echo {
                    r = self.echo_local(encoded.as_slice());
                }
                let ghost e1 = effects(r@);
                let mut bytes = vstd::slice::slice_to_vec(encoded.as_slice());
                if bytes.len() == 1 && bytes[0] == 13u8 {
                    assert(bytes@ =~= seq![13u8]);
                    match self.outgoing_newline {
                        NewlineEncoding::CR => {},
                        NewlineEncoding::LF => {
                            bytes.set(0, 10u8);
                        },
                        NewlineEncoding::CRLF => {
                            bytes.push(10u8);
                        },
                    }
                    assert(bytes@ =~= crate::terminal::newline_bytes(self.outgoing_newline));
                } else {
                    assert(bytes@ != seq![13u8]) by {
                        if bytes@.len() == 1 {
                            assert(bytes@[0] != 13u8);
                        }
                    }
                }
                let ghost out = outgoing_key_bytes(encoded@, old(self).outgoing_newline);
                assert(bytes@ == out);
                assert(self.paused == old(self).paused && self.connected == old(self).connected);
                let mut sent = self.send_bytes(bytes);
                let ghost sv = effects(sent@);
                assert(sv == send_effects(*old(self), out));
                let ghost before = r@;
                r.append(&mut sent);
                assert(effects(r@) =~= effects(before) + sv);
                proof {
                    if old(self).local_echo {
                        assert(echoed(*old(self), encoded@, *self, e1) && effects(r@) == e1 + send_effects(*old(self), out));
                        assert(exists|e: Seq<EffectView>| echoed(*old(self), encoded@, *self, e) && effects(r@) == e + send_effects(*old(self), out));
                    } else {
                        assert(e1 =~= Seq::<EffectView>::empty());
                        assert(effects(r@) =~= sv);
                    }
                    assert(forward_bytes_step(*old(self), encoded@, *self, effects(r@)));
                }
            },
        }
        r
    }

    /// Reacts to a key in insert mode (see `insert_step`).
    #[verifier::rlimit(40)]
    pub fn insert_key(&mut self, key: &KeyInput) -> (r: Vec<Effect>)
        requires
            old(self).inv(),
        ensures
            final(self).inv(),
            insert_step(*old(self), *key, *final(self), effects(r@)),
    {
        let is_escape = (self.keyboard_enhanced && key.code == KeyCode::Esc && key.modifiers == CONTROL) || (key.code
            == KeyCode::Char(' ') && key.modifiers == CONTROL);
        if is_escape {
            self.terminal_mode = TerminalMode::Control;
            let r: Vec<Effect> = Vec::new();
            assert(effects(r@) =~= Seq::<EffectView>::empty());
            return r;
        }
        if key.code == KeyCode::Esc {
            let had_selection = self.selection.anchor.is_some();
            self.selection.clear();
            if self.view.scroll_offset > 0 {
                self.scroll_to_bottom();
                let r: Vec<Effect> = Vec::new();
                assert(effects(r@) =~= Seq::<EffectView>::empty());
                return r;
            }
            if had_selection {
                let r: Vec<Effect> = Vec::new();
                assert(effects(r@) =~= Seq::<EffectView>::empty());
                return r;
            }
        }
        if self.input_mode == InputMode::Line && key.modifiers & CONTROL == 0 {
            return self.line_key(key);
        }
        self.forward_key(key)
    }

    /// Reacts to a key on whichever screen is shown (see `key_step`).
    pub fn on_key(&mut self, key: &KeyInput) -> (r: Vec<Effect>)
        requires
            old(self).inv(),
            within_limits(*old(self)),
        ensures
            final(self).inv(),
            key_step(*old(self), *key, *final(self), effects(r@)),
    {
        if self.settings.show {
            self.settings_key(key)
        } else if self.screen == Screen::PortSelect {
            self.port_select_key(key)
        } else if self.terminal_mode == TerminalMode::Insert {
            self.insert_key(key)
        } else {
            self.control_key(key)
        }
    }

    /// Reacts to the mouse: only on the terminal screen with the settings
    /// dialogue closed (see `mouse_step`).
    pub fn on_mouse(&mut self, m: MouseInput) -> (r: Vec<Effect>)
        requires
            old(self).inv(),
            within_limits(*old(self)),
        ensures
            final(self).inv(),
            old(self).screen == Screen::Terminal && !old(self).settings.show ==> mouse_step(
                *old(self),
                m,
                *final(self),
                effects(r@),
            ),
            !(old(self).screen == Screen::Terminal && !old(self).settings.show) ==> *final(self) == *old(self)
                && effects(r@) == Seq::<EffectView>::empty(),
    {
        let mut r: Vec<Effect> = Vec::new();
        if !(self.screen == Screen::Terminal && !self.settings.show) {
            assert(effects(r@) =~= Seq::<EffectView>::empty());
            return r;
        }
        let rect = self.view.output_rect;
        match m.kind {
            MouseKind::ScrollUp => {
                proof {
                    lemma_scroll_ready(*self, 3);
                }
                self.scroll(3);
            },
            MouseKind::ScrollDown => {
                proof {
                    lemma_scroll_ready(*self, -3);
                }
                self.scroll(-3);
            },
            MouseKind::Down => {
                if let Some((row, col)) = cell_at(rect, m.column, m.row) {
                    self.selection.start(row, col);
                }
            },
            MouseKind::Drag | MouseKind::Moved => {
                if self.selection.active {
                    let (row, col) = clamp_cell(rect, m.column, m.row);
                    self.selection.update(row, col);
                }
            },
            MouseKind::Up => {
                if self.selection.active {
                    r = self.finish_selection();
                }
            },
            _ => {},
        }
        assert(r@.len() == 0 ==> effects(r@) =~= Seq::<EffectView>::empty());
        r
    }

    /// Pasted text is sent to the device as it is, on the terminal screen
    /// with the settings dialogue closed.
    pub fn on_paste(&self, text: &str) -> (r: Vec<Effect>)
        ensures
            effects(r@) == (if self.screen == Screen::Terminal && !self.settings.show {
                send_effects(*self, vstd::utf8::encode_utf8(text@))
            } else {
                seq![]
            }),
    {
        if self.screen == Screen::Terminal && !self.settings.show {
            self.send_bytes(bytes_of(text))
        } else {
            let r: Vec<Effect> = Vec::new();
            assert(effects(r@) =~= Seq::<EffectView>::empty());
            r
        }
    }
}

} // verus!
