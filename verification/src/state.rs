//! The state of the terminal user interface and how it changes.  Work that
//! touches the outside world (the port, the terminal emulator, the
//! clipboard, the clock) is not done here: each operation returns the
//! effects to carry out, and the results come back as arguments.
use vstd::prelude::*;
use crate::input::Rect;
use crate::ports::{all_splittable, friendly_error, friendly_serial_error, sorted_ports, PortInfo};
use crate::scrollback::scrollback_wf;
use crate::serial::{default_port_config, InputMode, NewlineEncoding, PortConfig};
use crate::text::views;

verus! {

/// Which screen is shown.
#[derive(Clone, Copy, Debug, PartialEq, Eq, Structural)]
pub enum Screen {
    PortSelect,
    Terminal,
}

/// Whether keys go to the device or control the terminal.
#[derive(Clone, Copy, Debug, PartialEq, Eq, Structural)]
pub enum TerminalMode {
    Insert,
    Control,
}

/// An error shown to the user, with how often it occurred and when it was
/// last reported (milliseconds on the application clock).
#[derive(Debug)]
pub struct ErrorEntry {
    pub message: String,
    pub count: u32,
    pub shown_at: u64,
}

/// The terminal output: the scrollback, the frozen copy shown while
/// scrolled back, the scroll position and the output area.
#[derive(Debug)]
pub struct TerminalView {
    pub scrollback: Vec<String>,
    pub frozen_lines: Option<Vec<String>>,
    pub scroll_offset: usize,
    pub viewport_height: usize,
    pub output_rect: Rect,
    pub visible_lines: Vec<String>,
}

/// A mouse selection over the visible lines, as (row, column) cells.
#[derive(Debug)]
pub struct SelectionState {
    pub anchor: Option<(usize, usize)>,
    pub current: Option<(usize, usize)>,
    pub active: bool,
}

/// The settings dialogue.
#[derive(Debug)]
pub struct SettingsUi {
    pub show: bool,
    pub cursor: usize,
    pub baud_input: Option<String>,
}

/// The line being typed in line mode, with the history of sent lines.
#[derive(Debug)]
pub struct LineInput {
    pub buffer: String,
    pub history: Vec<String>,
    /// How many entries back from the newest the history is being browsed.
    pub history_pos: Option<usize>,
    /// The line that was being typed when browsing started.
    pub saved: String,
}

/// The whole state of the terminal user interface.
#[derive(Debug)]
pub struct App {
    pub screen: Screen,
    pub ports: Vec<PortInfo>,
    pub selected: usize,
    pub exit: bool,
    pub connected: bool,
    pub errors: Vec<ErrorEntry>,
    pub terminal_mode: TerminalMode,
    pub active_port: String,
    pub port_config: PortConfig,
    pub hold: bool,
    pub paused: bool,
    pub reconnect_at: Option<u64>,
    pub keyboard_enhanced: bool,
    pub local_echo: bool,
    pub input_mode: InputMode,
    pub outgoing_newline: NewlineEncoding,
    pub incoming_newline: NewlineEncoding,
    pub view: TerminalView,
    pub selection: SelectionState,
    pub settings: SettingsUi,
    pub line: LineInput,
}

/// Why a port is being opened; it decides what happens with the outcome.
#[derive(Clone, Copy, Debug, PartialEq, Eq, Structural)]
pub enum OpenPurpose {
    /// Reopen with changed settings.
    Apply,
    /// Open the port chosen on the port selection screen.
    Select,
    /// Reopen after a pause.
    Resume,
    /// Reopen at another baud rate.
    ChangeBaud,
    /// Reconnect after the device went away.
    Reconnect,
}

/// A port to open and what to do with the outcome.
#[derive(Clone, Debug)]
pub struct OpenRequest {
    pub port: String,
    pub config: PortConfig,
    pub purpose: OpenPurpose,
}

/// Work for the caller to carry out, in order.
#[derive(Debug)]
pub enum Effect {
    /// Feed bytes to the terminal emulator.
    Feed(Vec<u8>),
    /// Feed one typed character to the terminal emulator, highlighted as
    /// local echo.
    EchoChar(u8),
    /// Send bytes to the device.
    Write(Vec<u8>),
    /// Ask the port thread to disconnect, then drop the connection.
    Disconnect,
    /// Drop the connection.
    Close,
    /// Wait this many milliseconds (to let the port be released).
    Wait(u64),
    /// Open a port and report the outcome to `App::finish_open`.
    Open(OpenRequest),
    /// Replace the terminal emulator with a fresh 24 x 80 one.
    ResetEmulator,
    /// Resize the terminal emulator to this many rows and columns (a zero
    /// size leaves it as it is).
    ResizeEmulator(u16, u16),
    /// Put text on the clipboard.
    Copy(String),
    /// List the ports again and report them to `App::refresh_ports`.
    RefreshPorts,
}

/// An effect as a value.
pub enum EffectView {
    Feed(Seq<u8>),
    EchoChar(u8),
    Write(Seq<u8>),
    Disconnect,
    Close,
    Wait(u64),
    Open(Seq<char>, PortConfig, OpenPurpose),
    ResetEmulator,
    ResizeEmulator(u16, u16),
    Copy(Seq<char>),
    RefreshPorts,
}

impl View for Effect {
    type V = EffectView;

    open spec fn view(&self) -> EffectView {
        match self {
            Effect::Feed(b) => EffectView::Feed(b@),
            Effect::EchoChar(b) => EffectView::EchoChar(*b),
            Effect::Write(b) => EffectView::Write(b@),
            Effect::Disconnect => EffectView::Disconnect,
            Effect::Close => EffectView::Close,
            Effect::Wait(ms) => EffectView::Wait(*ms),
            Effect::Open(r) => EffectView::Open(r.port@, r.config, r.purpose),
            Effect::ResetEmulator => EffectView::ResetEmulator,
            Effect::ResizeEmulator(rows, cols) => EffectView::ResizeEmulator(*rows, *cols),
            Effect::Copy(t) => EffectView::Copy(t@),
            Effect::RefreshPorts => EffectView::RefreshPorts,
        }
    }
}

/// The effects of a list, as values.
pub open spec fn effects(v: Seq<Effect>) -> Seq<EffectView> {
    v.map_values(|e: Effect| e@)
}

/// How long an error stays on screen, in milliseconds.
pub const ERROR_DISPLAY_MS: u64 = 5000;

/// How long to wait before trying to reconnect, in milliseconds.
pub const RECONNECT_DELAY_MS: u64 = 1000;

/// How many entries the settings dialogue lists.
pub const SETTINGS_COUNT: usize = 8;

/// A terminal view with nothing received: 24 rows, no scrolling.
pub open spec fn fresh_view(v: TerminalView) -> bool {
    &&& v.scrollback@.len() == 0
    &&& v.frozen_lines is None
    &&& v.scroll_offset == 0
    &&& v.viewport_height == 24
    &&& v.output_rect == (Rect { x: 0, y: 0, width: 0, height: 0 })
    &&& v.visible_lines@.len() == 0
}

impl TerminalView {
    /// A terminal view with nothing received.
    pub fn new() -> (v: Self)
        ensures
            fresh_view(v),
    {
        TerminalView {
            scrollback: Vec::new(),
            frozen_lines: None,
            scroll_offset: 0,
            viewport_height: 24,
            output_rect: Rect::default(),
            visible_lines: Vec::new(),
        }
    }
}

impl Default for TerminalView {
    fn default() -> (v: Self)
        ensures
            fresh_view(v),
    {
        TerminalView::new()
    }
}

/// The first of two cells in reading order (row, then column).
pub open spec fn cell_le(a: (usize, usize), b: (usize, usize)) -> bool {
    a.0 < b.0 || (a.0 == b.0 && a.1 <= b.1)
}

impl SelectionState {
    /// No selection.
    pub fn new() -> (s: Self)
        ensures
            s.anchor is None,
            s.current is None,
            !s.active,
    {
        SelectionState { anchor: None, current: None, active: false }
    }

    /// Starts a selection at a cell.
    pub fn start(&mut self, row: usize, col: usize)
        ensures
            final(self).anchor == Some((row, col)),
            final(self).current == Some((row, col)),
            final(self).active,
    {
        self.anchor = Some((row, col));
        self.current = Some((row, col));
        self.active = true;
    }

    /// Moves the free end of an active selection; does nothing otherwise.
    pub fn update(&mut self, row: usize, col: usize)
        ensures
            final(self).anchor == old(self).anchor,
            final(self).active == old(self).active,
            final(self).current == (if old(self).active {
                Some((row, col))
            } else {
                old(self).current
            }),
    {
        if self.active {
            self.current = Some((row, col));
        }
    }

    /// Removes the selection.
    pub fn clear(&mut self)
        ensures
            final(self).anchor is None,
            final(self).current is None,
            !final(self).active,
    {
        self.anchor = None;
        self.current = None;
        self.active = false;
    }

    /// The selected cells from first to last in reading order, if both
    /// ends are set.
    pub fn range(&self) -> (r: Option<((usize, usize), (usize, usize))>)
        ensures
            r == selection_range(self.anchor, self.current),
    {
        let a = match self.anchor {
            Some(a) => a,
            None => return None,
        };
        let b = match self.current {
            Some(b) => b,
            None => return None,
        };
        if a.0 < b.0 || (a.0 == b.0 && a.1 <= b.1) {
            Some((a, b))
        } else {
            Some((b, a))
        }
    }
}

/// The ends of a selection ordered first to last.
pub open spec fn selection_range(anchor: Option<(usize, usize)>, current: Option<(usize, usize)>) -> Option<
    ((usize, usize), (usize, usize)),
> {
    match (anchor, current) {
        (Some(a), Some(b)) => if cell_le(a, b) {
            Some((a, b))
        } else {
            Some((b, a))
        },
        _ => None,
    }
}

/// A selection's range always runs forward: its start comes no later than
/// its end, and the two ends are the selection's anchor and free end.
pub proof fn law_selection_range_is_ordered(anchor: Option<(usize, usize)>, current: Option<(usize, usize)>)
    ensures
        selection_range(anchor, current) matches Some(r) ==> cell_le(r.0, r.1) && ((anchor == Some(
            r.0,
        ) && current == Some(r.1)) || (anchor == Some(r.1) && current == Some(r.0))),
        selection_range(anchor, current) is None <==> (anchor is None || current is None),
{
}

impl Default for SelectionState {
    fn default() -> (s: Self)
        ensures
            s.anchor is None,
            s.current is None,
            !s.active,
    {
        SelectionState::new()
    }
}

impl Default for SettingsUi {
    fn default() -> (s: Self)
        ensures
            !s.show,
            s.cursor == 0,
            s.baud_input is None,
    {
        SettingsUi { show: false, cursor: 0, baud_input: None }
    }
}

impl Default for LineInput {
    fn default() -> (l: Self)
        ensures
            l.buffer@.len() == 0,
            l.history@.len() == 0,
            l.history_pos is None,
            l.saved@.len() == 0,
    {
        LineInput { buffer: String::new(), history: Vec::new(), history_pos: None, saved: String::new() }
    }
}

/// No two error entries carry the same message.
pub open spec fn distinct_messages(errs: Seq<ErrorEntry>) -> bool {
    forall|i: int, j: int| 0 <= i < j < errs.len() ==> (#[trigger] errs[i]).message@ != (#[trigger] errs[j]).message@
}

/// The state of an application that has just started, before any port
/// is listed or opened: it keeps the port list open and has no keyboard
/// enhancement.
pub open spec fn initial_app(a: App) -> bool {
    &&& starting_state(a)
    &&& a.ports@.len() == 0
    &&& a.hold
    &&& !a.keyboard_enhanced
}

/// The state of an application that has just started, whatever its port
/// list and its two start-up choices.
pub open spec fn starting_state(a: App) -> bool {
    &&& fresh_session(a)
    &&& a.screen == Screen::PortSelect
    &&& !a.connected
    &&& a.errors@.len() == 0
    &&& a.active_port@.len() == 0
    &&& a.port_config == default_port_config()
}

/// Nothing has happened yet in this session: nothing selected, received,
/// typed or scheduled, and every option at its default.
pub open spec fn fresh_session(a: App) -> bool {
    &&& a.selected == 0
    &&& !a.exit
    &&& a.terminal_mode == TerminalMode::Insert
    &&& !a.paused
    &&& a.reconnect_at is None
    &&& !a.local_echo
    &&& a.input_mode == InputMode::Direct
    &&& a.outgoing_newline == NewlineEncoding::CR
    &&& a.incoming_newline == NewlineEncoding::CRLF
    &&& fresh_view(a.view)
    &&& a.selection.anchor is None && a.selection.current is None && !a.selection.active
    &&& !a.settings.show && a.settings.cursor == 0 && a.settings.baud_input is None
    &&& a.line.buffer@.len() == 0 && a.line.history@.len() == 0 && a.line.history_pos is None
        && a.line.saved@.len() == 0
}

impl Default for App {
    fn default() -> (a: Self)
        ensures
            initial_app(a),
            a.inv(),
    {
        App {
            screen: Screen::PortSelect,
            ports: Vec::new(),
            selected: 0,
            exit: false,
            connected: false,
            errors: Vec::new(),
            terminal_mode: TerminalMode::Insert,
            active_port: String::new(),
            port_config: PortConfig::default(),
            hold: true,
            paused: false,
            reconnect_at: None,
            keyboard_enhanced: false,
            local_echo: false,
            input_mode: InputMode::Direct,
            outgoing_newline: NewlineEncoding::CR,
            incoming_newline: NewlineEncoding::CRLF,
            view: TerminalView::new(),
            selection: SelectionState::new(),
            settings: SettingsUi::default(),
            line: LineInput::default(),
        }
    }
}

impl App {
    /// What every state keeps: the scrollback (and its frozen copy) is well formed,
    /// no error message is listed twice, the selected port and settings
    /// entry exist, the history position points into the history, and a
    /// frozen copy of the scrollback exists exactly while scrolled back.
    pub open spec fn inv(&self) -> bool {
        &&& scrollback_wf(views(self.view.scrollback@))
        &&& distinct_messages(self.errors@)
        &&& (self.ports@.len() == 0 ==> self.selected == 0)
        &&& (self.ports@.len() > 0 ==> self.selected < self.ports@.len())
        &&& self.settings.cursor < SETTINGS_COUNT
        &&& (self.line.history_pos matches Some(p) ==> p < self.line.history@.len())
        &&& (self.view.frozen_lines is Some <==> self.view.scroll_offset > 0)
        &&& (self.view.frozen_lines matches Some(f) ==> scrollback_wf(views(f@)))
    }
}

} // verus!
