//! The settings dialogue: its entries, how each is shown and changed, and
//! how it reacts to keys.
use vstd::prelude::*;
use crate::connection::{apply_result, baud_position};
use crate::input::{KeyCode, KeyInput};
use crate::ports::{digits_value, is_digit};
use crate::serial::{baud_rate_at, baud_rates, find_baud, DataBits, FlowControl, InputMode, NewlineEncoding, Parity, PortConfig, StopBits, FALLBACK_BAUD_INDEX};
use crate::state::{effects, App, Effect, EffectView, LineInput, SettingsUi, TerminalMode, SETTINGS_COUNT};
use crate::text::{chars_of, decimal, decimal_string, pop_char, push_char};

verus! {

/// An entry of the settings dialogue.
#[derive(Clone, Copy, Debug, PartialEq, Eq, Structural)]
pub enum Setting {
    BaudRate,
    DataBits,
    StopBits,
    Parity,
    FlowControl,
    LocalEcho,
    InputMode,
    OutgoingNewline,
}

/// The entries in the order the dialogue lists them.
pub open spec fn setting_at(i: int) -> Setting {
    if i == 0 {
        Setting::BaudRate
    } else if i == 1 {
        Setting::DataBits
    } else if i == 2 {
        Setting::StopBits
    } else if i == 3 {
        Setting::Parity
    } else if i == 4 {
        Setting::FlowControl
    } else if i == 5 {
        Setting::LocalEcho
    } else if i == 6 {
        Setting::InputMode
    } else {
        Setting::OutgoingNewline
    }
}

/// The `i`-th entry of the dialogue.
pub fn setting_for(i: usize) -> (s: Setting)
    requires
        i < SETTINGS_COUNT,
    ensures
        s == setting_at(i as int),
{
    match i {
        0 => Setting::BaudRate,
        1 => Setting::DataBits,
        2 => Setting::StopBits,
        3 => Setting::Parity,
        4 => Setting::FlowControl,
        5 => Setting::LocalEcho,
        6 => Setting::InputMode,
        _ => Setting::OutgoingNewline,
    }
}

/// The name an entry is listed under.
pub open spec fn label_of(s: Setting) -> Seq<char> {
    match s {
        Setting::BaudRate => "Baud Rate"@,
        Setting::DataBits => "Data Bits"@,
        Setting::StopBits => "Stop Bits"@,
        Setting::Parity => "Parity"@,
        Setting::FlowControl => "Flow Control"@,
        Setting::LocalEcho => "Local Echo"@,
        Setting::InputMode => "Input Mode"@,
        Setting::OutgoingNewline => "Outgoing Newline"@,
    }
}

/// How an entry shows its current value.
pub open spec fn value_of(s: Setting, a: App) -> Seq<char> {
    match s {
        Setting::BaudRate => decimal(a.port_config.baud as nat),
        Setting::DataBits => match a.port_config.data_bits {
            DataBits::Five => "5"@,
            DataBits::Six => "6"@,
            DataBits::Seven => "7"@,
            DataBits::Eight => "8"@,
        },
        Setting::StopBits => match a.port_config.stop_bits {
            StopBits::One => "1"@,
            StopBits::Two => "2"@,
        },
        Setting::Parity => match a.port_config.parity {
            Parity::Off => "None"@,
            Parity::Odd => "Odd"@,
            Parity::Even => "Even"@,
        },
        Setting::FlowControl => match a.port_config.flow_control {
            FlowControl::Off => "None"@,
            FlowControl::Software => "Software (XON/XOFF)"@,
            FlowControl::Hardware => "Hardware (RTS/CTS)"@,
        },
        Setting::LocalEcho => if a.local_echo {
            "On"@
        } else {
            "Off"@
        },
        Setting::InputMode => match a.input_mode {
            InputMode::Direct => "Direct"@,
            InputMode::Line => "Line"@,
        },
        Setting::OutgoingNewline => match a.outgoing_newline {
            NewlineEncoding::CR => "CR"@,
            NewlineEncoding::LF => "LF"@,
            NewlineEncoding::CRLF => "CR+LF"@,
        },
    }
}

/// One step of `dir` through `n` choices from choice `i`, wrapping around.
pub open spec fn wrap(i: int, dir: int, n: int) -> int {
    (i + dir) % n
}

/// Position of data bits among 5, 6, 7, 8.
pub open spec fn data_bits_index(d: DataBits) -> int {
    match d {
        DataBits::Five => 0,
        DataBits::Six => 1,
        DataBits::Seven => 2,
        DataBits::Eight => 3,
    }
}

/// Data bits by position.
pub open spec fn data_bits_at(i: int) -> DataBits {
    if i == 0 {
        DataBits::Five
    } else if i == 1 {
        DataBits::Six
    } else if i == 2 {
        DataBits::Seven
    } else {
        DataBits::Eight
    }
}

/// Position of stop bits among 1, 2.
pub open spec fn stop_bits_index(s: StopBits) -> int {
    match s {
        StopBits::One => 0,
        StopBits::Two => 1,
    }
}

/// Stop bits by position.
pub open spec fn stop_bits_at(i: int) -> StopBits {
    if i == 0 {
        StopBits::One
    } else {
        StopBits::Two
    }
}

/// Position of a parity among none, even, odd.
pub open spec fn parity_index(p: Parity) -> int {
    match p {
        Parity::Off => 0,
        Parity::Even => 1,
        Parity::Odd => 2,
    }
}

/// Parity by position.
pub open spec fn parity_at(i: int) -> Parity {
    if i == 0 {
        Parity::Off
    } else if i == 1 {
        Parity::Even
    } else {
        Parity::Odd
    }
}

/// Position of a flow control among none, software, hardware.
pub open spec fn flow_control_index(f: FlowControl) -> int {
    match f {
        FlowControl::Off => 0,
        FlowControl::Software => 1,
        FlowControl::Hardware => 2,
    }
}

/// Flow control by position.
pub open spec fn flow_control_at(i: int) -> FlowControl {
    if i == 0 {
        FlowControl::Off
    } else if i == 1 {
        FlowControl::Software
    } else {
        FlowControl::Hardware
    }
}

/// Position of an input mode among direct, line.
pub open spec fn input_mode_index(m: InputMode) -> int {
    match m {
        InputMode::Direct => 0,
        InputMode::Line => 1,
    }
}

/// Input mode by position.
pub open spec fn input_mode_at(i: int) -> InputMode {
    if i == 0 {
        InputMode::Direct
    } else {
        InputMode::Line
    }
}

/// Position of a line ending among CR, LF, CR+LF.
pub open spec fn newline_index(n: NewlineEncoding) -> int {
    match n {
        NewlineEncoding::CR => 0,
        NewlineEncoding::LF => 1,
        NewlineEncoding::CRLF => 2,
    }
}

/// Line ending by position.
pub open spec fn newline_at(i: int) -> NewlineEncoding {
    if i == 0 {
        NewlineEncoding::CR
    } else if i == 1 {
        NewlineEncoding::LF
    } else {
        NewlineEncoding::CRLF
    }
}

/// The port settings with one value stepped.
pub open spec fn stepped_config(c: PortConfig, s: Setting, dir: int) -> PortConfig {
    match s {
        Setting::BaudRate => PortConfig { baud: baud_rates()[wrap(baud_position(c.baud), dir, 8)], ..c },
        Setting::DataBits => PortConfig { data_bits: data_bits_at(wrap(data_bits_index(c.data_bits), dir, 4)), ..c },
        Setting::StopBits => PortConfig { stop_bits: stop_bits_at(wrap(stop_bits_index(c.stop_bits), dir, 2)), ..c },
        Setting::Parity => PortConfig { parity: parity_at(wrap(parity_index(c.parity), dir, 3)), ..c },
        Setting::FlowControl => PortConfig {
            flow_control: flow_control_at(wrap(flow_control_index(c.flow_control), dir, 3)),
            ..c
        },
        _ => c,
    }
}

/// The port settings that entries change.
pub open spec fn is_port_setting(s: Setting) -> bool {
    s == Setting::BaudRate || s == Setting::DataBits || s == Setting::StopBits || s == Setting::Parity || s
        == Setting::FlowControl
}

/// The outcome of stepping an entry by `dir`: a port setting takes the
/// neighbouring value (wrapping around) and is applied; local echo is
/// toggled; the input mode steps, and returning to direct mode clears the
/// line being typed; the outgoing line ending steps.
pub open spec fn cycled(a: App, s: Setting, dir: int, b: App, effs: Seq<EffectView>) -> bool {
    if is_port_setting(s) {
        (b, effs) == apply_result(App { port_config: stepped_config(a.port_config, s, dir), ..a })
    } else if s == Setting::LocalEcho {
        b == (App { local_echo: !a.local_echo, ..a }) && effs == Seq::<EffectView>::empty()
    } else if s == Setting::InputMode {
        let m = input_mode_at(wrap(input_mode_index(a.input_mode), dir, 2));
        &&& effs == Seq::<EffectView>::empty()
        &&& m == InputMode::Direct ==> b.line.buffer@ == Seq::<char>::empty() && b == (App {
            input_mode: m,
            line: LineInput { buffer: b.line.buffer, ..a.line },
            ..a
        })
        &&& m == InputMode::Line ==> b == (App { input_mode: m, ..a })
    } else {
        b == (App { outgoing_newline: newline_at(wrap(newline_index(a.outgoing_newline), dir, 3)), ..a })
            && effs == Seq::<EffectView>::empty()
    }
}

/// One step through `n` choices, wrapping around.
fn wrap_step(i: usize, dir: i32, n: usize) -> (r: usize)
    requires
        0 < n <= 8,
        i < n,
    ensures
        r as int == wrap(i as int, dir as int, n as int),
        r < n,
{
    let sum: i64 = i as i64 + dir as i64;
    let m: i64 = n as i64;
    let r: i64 = if sum >= 0 {
        sum % m
    } else {
        m - 1 - ((-sum - 1) % m)
    };
    proof {
        crate::connection::lemma_euclid_mod(sum as int, m as int);
    }
    r as usize
}

/// The port settings with one value stepped.
fn step_config(c: PortConfig, s: Setting, dir: i32) -> (r: PortConfig)
    requires
        is_port_setting(s),
    ensures
        r == stepped_config(c, s, dir as int),
{
    match s {
        Setting::BaudRate => {
            let current: usize = match find_baud(c.baud) {
                Some(i) => i,
                None => FALLBACK_BAUD_INDEX,
            };
            proof {
                crate::connection::lemma_baud_rates_distinct();
                assert(current as int == baud_position(c.baud));
            }
            PortConfig { baud: baud_rate_at(wrap_step(current, dir, 8)), ..c }
        },
        Setting::DataBits => {
            let current: usize = match c.data_bits {
                DataBits::Five => 0,
                DataBits::Six => 1,
                DataBits::Seven => 2,
                DataBits::Eight => 3,
            };
            let next = wrap_step(current, dir, 4);
            PortConfig {
                data_bits: match next {
                    0 => DataBits::Five,
                    1 => DataBits::Six,
                    2 => DataBits::Seven,
                    _ => DataBits::Eight,
                },
                ..c
            }
        },
        Setting::StopBits => {
            let current: usize = match c.stop_bits {
                StopBits::One => 0,
                StopBits::Two => 1,
            };
            let next = wrap_step(current, dir, 2);
            PortConfig {
                stop_bits: if next == 0 {
                    StopBits::One
                } else {
                    StopBits::Two
                },
                ..c
            }
        },
        Setting::Parity => {
            let current: usize = match c.parity {
                Parity::Off => 0,
                Parity::Even => 1,
                Parity::Odd => 2,
            };
            let next = wrap_step(current, dir, 3);
            PortConfig {
                parity: match next {
                    0 => Parity::Off,
                    1 => Parity::Even,
                    _ => Parity::Odd,
                },
                ..c
            }
        },
        _ => {
            let current: usize = match c.flow_control {
                FlowControl::Off => 0,
                FlowControl::Software => 1,
                FlowControl::Hardware => 2,
            };
            let next = wrap_step(current, dir, 3);
            PortConfig {
                flow_control: match next {
                    0 => FlowControl::Off,
                    1 => FlowControl::Software,
                    _ => FlowControl::Hardware,
                },
                ..c
            }
        },
    }
}

impl Setting {
    /// The name this entry is listed under.
    pub fn label(self) -> (l: &'static str)
        ensures
            l@ == label_of(self),
    {
        match self {
            Setting::BaudRate => "Baud Rate",
            Setting::DataBits => "Data Bits",
            Setting::StopBits => "Stop Bits",
            Setting::Parity => "Parity",
            Setting::FlowControl => "Flow Control",
            Setting::LocalEcho => "Local Echo",
            Setting::InputMode => "Input Mode",
            Setting::OutgoingNewline => "Outgoing Newline",
        }
    }

    /// The current value of this entry as shown.
    pub fn value(self, app: &App) -> (v: String)
        ensures
            v@ == value_of(self, *app),
    {
        match self {
            Setting::BaudRate => decimal_string(app.port_config.baud as u64),
            Setting::DataBits => String::from_str(
                match app.port_config.data_bits {
                    DataBits::Five => "5",
                    DataBits::Six => "6",
                    DataBits::Seven => "7",
                    DataBits::Eight => "8",
                },
            ),
            Setting::StopBits => String::from_str(
                match app.port_config.stop_bits {
                    StopBits::One => "1",
                    StopBits::Two => "2",
                },
            ),
            Setting::Parity => String::from_str(
                match app.port_config.parity {
                    Parity::Off => "None",
                    Parity::Odd => "Odd",
                    Parity::Even => "Even",
                },
            ),
            Setting::FlowControl => String::from_str(
                match app.port_config.flow_control {
                    FlowControl::Off => "None",
                    FlowControl::Software => "Software (XON/XOFF)",
                    FlowControl::Hardware => "Hardware (RTS/CTS)",
                },
            ),
            Setting::LocalEcho => String::from_str(
                if app.local_echo {
                    "On"
                } else {
                    "Off"
                },
            ),
            Setting::InputMode => String::from_str(
                match app.input_mode {
                    InputMode::Direct => "Direct",
                    InputMode::Line => "Line",
                },
            ),
            Setting::OutgoingNewline => String::from_str(
                match app.outgoing_newline {
                    NewlineEncoding::CR => "CR",
                    NewlineEncoding::LF => "LF",
                    NewlineEncoding::CRLF => "CR+LF",
                },
            ),
        }
    }

    /// Steps this entry to the neighbouring value (`dir` is +1 or -1).
    pub fn cycle(self, app: &mut App, dir: i32) -> (r: Vec<Effect>)
        requires
            old(app).inv(),
        ensures
            final(app).inv(),
            cycled(*old(app), self, dir as int, *final(app), effects(r@)),
    {
        match self {
            Setting::BaudRate | Setting::DataBits | Setting::StopBits | Setting::Parity | Setting::FlowControl => {
                app.step_port_setting(self, dir)
            },
            Setting::LocalEcho => {
                app.local_echo = !app.local_echo;
                let r: Vec<Effect> = Vec::new();
                assert(effects(r@) =~= Seq::<EffectView>::empty());
                r
            },
            Setting::InputMode => app.step_input_mode(dir),
            Setting::OutgoingNewline => app.step_newline(dir),
        }
    }
}

impl App {
    fn step_port_setting(&mut self, s: Setting, dir: i32) -> (r: Vec<Effect>)
        requires
            old(self).inv(),
            is_port_setting(s),
        ensures
            final(self).inv(),
            (*final(self), effects(r@)) == apply_result(
                App { port_config: stepped_config(old(self).port_config, s, dir as int), ..*old(self) },
            ),
    {
        self.port_config = step_config(self.port_config, s, dir);
        self.apply_port_config()
    }

    fn step_input_mode(&mut self, dir: i32) -> (r: Vec<Effect>)
        requires
            old(self).inv(),
        ensures
            final(self).inv(),
            cycled(*old(self), Setting::InputMode, dir as int, *final(self), effects(r@)),
    {
        let current: usize = match self.input_mode {
            InputMode::Direct => 0,
            InputMode::Line => 1,
        };
        let next = wrap_step(current, dir, 2);
        if next == 0 {
            self.input_mode = InputMode::Direct;
            self.line.buffer = String::new();
        } else {
            self.input_mode = InputMode::Line;
        }
        let r: Vec<Effect> = Vec::new();
        assert(effects(r@) =~= Seq::<EffectView>::empty());
        r
    }

    fn step_newline(&mut self, dir: i32) -> (r: Vec<Effect>)
        requires
            old(self).inv(),
        ensures
            final(self).inv(),
            cycled(*old(self), Setting::OutgoingNewline, dir as int, *final(self), effects(r@)),
    {
        let current: usize = match self.outgoing_newline {
            NewlineEncoding::CR => 0,
            NewlineEncoding::LF => 1,
            NewlineEncoding::CRLF => 2,
        };
        let next = wrap_step(current, dir, 3);
        self.outgoing_newline = match next {
            0 => NewlineEncoding::CR,
            1 => NewlineEncoding::LF,
            _ => NewlineEncoding::CRLF,
        };
        let r: Vec<Effect> = Vec::new();
        assert(effects(r@) =~= Seq::<EffectView>::empty());
        r
    }
}

proof fn lemma_wrap_back(i: int, d: int, n: int)
    requires
        0 <= i < n,
        n > 0,
        d == 1 || d == -1,
    ensures
        0 <= wrap(i, d, n) < n,
        wrap(wrap(i, d, n), -d, n) == i,
{
    assert(0 <= (i + d) % n < n) by (nonlinear_arith)
        requires
            n > 0,
    ;
    if d == 1 {
        if i + 1 < n {
            assert((i + 1) % n == i + 1) by (nonlinear_arith) requires 0 <= i + 1 < n;
        } else {
            assert((i + 1) % n == 0) by (nonlinear_arith) requires i + 1 == n, n > 0;
            assert((0 - 1) % n == n - 1) by (nonlinear_arith) requires n > 0;
        }
        assert((wrap(i, d, n) - 1) % n == i) by (nonlinear_arith)
            requires
                0 <= i < n,
                wrap(i, d, n) == (if i + 1 < n { i + 1 } else { 0 }),
        ;
    } else {
        if i > 0 {
            assert((i - 1) % n == i - 1) by (nonlinear_arith) requires 0 <= i - 1 < n;
        } else {
            assert((0 - 1) % n == n - 1) by (nonlinear_arith) requires n > 0;
        }
        assert((wrap(i, d, n) + 1) % n == i) by (nonlinear_arith)
            requires
                0 <= i < n,
                wrap(i, d, n) == (if i > 0 { i - 1 } else { n - 1 }),
        ;
    }
}

proof fn lemma_port_step_back(pc: PortConfig, s: Setting, d: int)
    requires
        d == 1 || d == -1,
        is_port_setting(s),
        s == Setting::BaudRate ==> exists|i: int| 0 <= i < 8 && baud_rates()[i] == pc.baud,
    ensures
        stepped_config(stepped_config(pc, s, d), s, -d) == pc,
{
    crate::connection::lemma_baud_rates_distinct();
    match s {
        Setting::BaudRate => {
            let p = baud_position(pc.baud);
            lemma_wrap_back(p, d, 8);
            let q = wrap(p, d, 8);
            assert(baud_position(baud_rates()[q]) == q);
        },
        Setting::DataBits => {
            lemma_wrap_back(data_bits_index(pc.data_bits), d, 4);
        },
        Setting::StopBits => {
            lemma_wrap_back(stop_bits_index(pc.stop_bits), d, 2);
        },
        Setting::Parity => {
            lemma_wrap_back(parity_index(pc.parity), d, 3);
        },
        _ => {
            lemma_wrap_back(flow_control_index(pc.flow_control), d, 3);
        },
    }
}

proof fn lemma_port_case(a: App, s: Setting, d: int, b: App, e1: Seq<EffectView>, c: App, e2: Seq<EffectView>)
    requires
        d == 1 || d == -1,
        is_port_setting(s),
        s == Setting::BaudRate ==> exists|i: int| 0 <= i < 8 && baud_rates()[i] == a.port_config.baud,
        cycled(a, s, d, b, e1),
        cycled(b, s, -d, c, e2),
    ensures
        c.port_config == a.port_config,
{
    assert(b.port_config == stepped_config(a.port_config, s, d));
    assert(c.port_config == stepped_config(b.port_config, s, -d));
    lemma_port_step_back(a.port_config, s, d);
}

proof fn lemma_mode_case(a: App, d: int, b: App, e1: Seq<EffectView>, c: App, e2: Seq<EffectView>)
    requires
        d == 1 || d == -1,
        cycled(a, Setting::InputMode, d, b, e1),
        cycled(b, Setting::InputMode, -d, c, e2),
    ensures
        c.input_mode == a.input_mode,
{
    lemma_wrap_back(input_mode_index(a.input_mode), d, 2);
    let m = input_mode_at(wrap(input_mode_index(a.input_mode), d, 2));
    assert(b.input_mode == m);
    assert(input_mode_index(m) == wrap(input_mode_index(a.input_mode), d, 2));
}

proof fn lemma_newline_case(a: App, d: int, b: App, e1: Seq<EffectView>, c: App, e2: Seq<EffectView>)
    requires
        d == 1 || d == -1,
        cycled(a, Setting::OutgoingNewline, d, b, e1),
        cycled(b, Setting::OutgoingNewline, -d, c, e2),
    ensures
        c.outgoing_newline == a.outgoing_newline,
{
    lemma_wrap_back(newline_index(a.outgoing_newline), d, 3);
    let n = newline_at(wrap(newline_index(a.outgoing_newline), d, 3));
    assert(b.outgoing_newline == n);
    assert(newline_index(n) == wrap(newline_index(a.outgoing_newline), d, 3));
}

/// A step of a settings entry by `d` (forward or back) followed by a step
/// by `-d` restores the entry's value, whatever the entry: the port
/// settings (the baud rate when it is one of the standard rates), local
/// echo, the input mode and the outgoing line ending.  `Setting::cycle`
/// ensures `cycled`, so this holds of two calls of it with `d` and `-d`.
pub proof fn law_step_and_back(a: App, s: Setting, d: int, b: App, e1: Seq<EffectView>, c: App, e2: Seq<EffectView>)
    requires
        d == 1 || d == -1,
        s == Setting::BaudRate ==> exists|i: int| 0 <= i < 8 && baud_rates()[i] == a.port_config.baud,
        cycled(a, s, d, b, e1),
        cycled(b, s, -d, c, e2),
    ensures
        value_of(s, c) == value_of(s, a),
        is_port_setting(s) ==> c.port_config == a.port_config,
{
    if is_port_setting(s) {
        lemma_port_case(a, s, d, b, e1, c, e2);
    } else if s == Setting::InputMode {
        lemma_mode_case(a, d, b, e1, c, e2);
    } else if s == Setting::OutgoingNewline {
        lemma_newline_case(a, d, b, e1, c, e2);
    } else {
        assert(c.local_echo == a.local_echo);
    }
}

/// Stepping an entry forward and then back returns to the value it had:
/// for every standard baud rate, data bits, stop bits, parity, flow
/// control, input mode and line ending.
pub proof fn law_cycle_round_trip(c: PortConfig, m: InputMode, n: NewlineEncoding)
    ensures
        (exists|i: int| 0 <= i < 8 && baud_rates()[i] == c.baud) ==> stepped_config(
            stepped_config(c, Setting::BaudRate, 1),
            Setting::BaudRate,
            -1,
        ) == c,
        stepped_config(stepped_config(c, Setting::DataBits, 1), Setting::DataBits, -1) == c,
        stepped_config(stepped_config(c, Setting::StopBits, 1), Setting::StopBits, -1) == c,
        stepped_config(stepped_config(c, Setting::Parity, 1), Setting::Parity, -1) == c,
        stepped_config(stepped_config(c, Setting::FlowControl, 1), Setting::FlowControl, -1) == c,
        input_mode_at(wrap(input_mode_index(input_mode_at(wrap(input_mode_index(m), 1, 2))), -1, 2)) == m,
        newline_at(wrap(newline_index(newline_at(wrap(newline_index(n), 1, 3))), -1, 3)) == n,
{
    crate::connection::lemma_baud_rates_distinct();
    if exists|i: int| 0 <= i < 8 && baud_rates()[i] == c.baud {
        let p = baud_position(c.baud);
        let q = wrap(p, 1, 8);
        assert(0 <= q < 8);
        assert(baud_position(baud_rates()[q]) == q);
        assert(wrap(q, -1, 8) == p);
    }
}

/// The digits of a number, after an optional `+`.
pub open spec fn unsigned_part(s: Seq<char>) -> Seq<char> {
    if s.len() > 0 && s[0] == '+' {
        s.drop_first()
    } else {
        s
    }
}

/// Every character is a decimal digit.
pub open spec fn all_digits(d: Seq<char>) -> bool {
    forall|j: int| 0 <= j < d.len() ==> is_digit(#[trigger] d[j])
}

/// The number typed into the baud rate field: optional `+`, then decimal
/// digits that fit a `u32` (as `str::parse::<u32>` accepts).
pub open spec fn parsed_u32(s: Seq<char>) -> Option<u32> {
    let d = unsigned_part(s);
    if d.len() > 0 && all_digits(d) && digits_value(d) <= u32::MAX {
        Some(digits_value(d) as u32)
    } else {
        None
    }
}

/// Parses a decimal `u32`.
pub fn parse_u32(s: &str) -> (r: Option<u32>)
    ensures
        r == parsed_u32(s@),
{
    let cs = chars_of(s);
    let start: usize = if cs.len() > 0 && cs[0] == '+' {
        1
    } else {
        0
    };
    let ghost d = cs@.skip(start as int);
    assert(d == unsigned_part(s@));
    if start >= cs.len() {
        return None;
    }
    let mut value: u32 = 0;
    let mut i: usize = start;
    while i < cs.len()
        invariant
            start <= i <= cs@.len(),
            start < cs@.len(),
            cs@ == s@,
            d == cs@.skip(start as int),
            d == unsigned_part(s@),
            forall|j: int| start <= j < i ==> is_digit(#[trigger] cs@[j]),
            value == digits_value(cs@.subrange(start as int, i as int)),
        decreases cs@.len() - i,
    {
        let c = cs[i];
        if !('0' <= c && c <= '9') {
            assert(d[i - start] == cs@[i as int]);
            assert(!is_digit(d[i - start]));
            proof {
                lemma_parsed_none(s@, i - start);
            }
            return None;
        }
        proof {
            assert(cs@.subrange(start as int, i + 1) == cs@.subrange(start as int, i as int).push(c));
            assert(cs@.subrange(start as int, i + 1).drop_last() == cs@.subrange(start as int, i as int));
        }
        let dv: u32 = (c as u32) - 48;
        assert(cs@.subrange(start as int, i + 1) == d.take(i + 1 - start));
        assert(digits_value(cs@.subrange(start as int, i + 1)) == value * 10 + dv);
        match value.checked_mul(10) {
            Some(v10) => match v10.checked_add(dv) {
                Some(v) => {
                    value = v;
                },
                None => {
                    proof {
                        overflow_means_none(d, (i + 1 - start) as int);
                        assert(parsed_u32(s@) is None);
                    }
                    return None;
                },
            },
            None => {
                proof {
                    overflow_means_none(d, (i + 1 - start) as int);
                    assert(parsed_u32(s@) is None);
                }
                return None;
            },
        }
        i += 1;
    }
    assert(cs@.subrange(start as int, cs@.len() as int) == d);
    Some(value)
}

proof fn lemma_parsed_none(s: Seq<char>, k: int)
    requires
        0 <= k < unsigned_part(s).len(),
        !is_digit(unsigned_part(s)[k]),
    ensures
        parsed_u32(s) is None,
{
}

proof fn lemma_digits_prefix(b: Seq<char>, k: int)
    requires
        0 <= k <= b.len(),
        forall|j: int| 0 <= j < b.len() ==> is_digit(#[trigger] b[j]),
    ensures
        digits_value(b.take(k)) <= digits_value(b),
    decreases b.len(),
{
    if k < b.len() {
        let b2 = b.drop_last();
        assert forall|j: int| 0 <= j < b2.len() implies is_digit(#[trigger] b2[j]) by {
            assert(b2[j] == b[j]);
        }
        lemma_digits_prefix(b2, k);
        assert(b2.take(k) == b.take(k));
    } else {
        assert(b.take(k) == b);
    }
}

proof fn overflow_means_none(d: Seq<char>, k: int)
    requires
        0 < k <= d.len(),
        digits_value(d.take(k)) > u32::MAX,
    ensures
        (d.len() > 0 && all_digits(d) && digits_value(d) <= u32::MAX) == false,
{
    if all_digits(d) {
        lemma_digits_prefix(d, k);
    }
}

/// The baud rate field's number, or 0 when it does not parse.
pub open spec fn typed_baud(s: Seq<char>) -> u32 {
    match parsed_u32(s) {
        Some(v) => v,
        None => 0,
    }
}

/// The dialogue with the baud rate field replaced.
pub open spec fn with_baud_field(a: App, b: App) -> bool {
    b == (App { settings: SettingsUi { baud_input: b.settings.baud_input, ..a.settings }, ..a })
}

/// What a key does while the baud rate is being typed: Esc cancels; Enter
/// or Space applies a non-zero number and closes the field; Backspace
/// removes the last character; a digit is appended; other keys do nothing.
pub open spec fn baud_field_step(a: App, input: Seq<char>, key: KeyInput, b: App, effs: Seq<EffectView>) -> bool {
    match key.code {
        KeyCode::Esc => with_baud_field(a, b) && b.settings.baud_input is None && effs == Seq::<EffectView>::empty(),
        KeyCode::Enter => baud_typed(a, input, b, effs),
        KeyCode::Char(c) => if c == ' ' {
            baud_typed(a, input, b, effs)
        } else if is_digit(c) {
            with_baud_field(a, b) && (b.settings.baud_input matches Some(t) && t@ == input.push(c)) && effs
                == Seq::<EffectView>::empty()
        } else {
            b == a && effs == Seq::<EffectView>::empty()
        },
        KeyCode::Backspace => with_baud_field(a, b) && (b.settings.baud_input matches Some(t) && t@ == (if input.len()
            > 0 {
            input.drop_last()
        } else {
            input
        })) && effs == Seq::<EffectView>::empty(),
        _ => b == a && effs == Seq::<EffectView>::empty(),
    }
}

/// The typed baud rate is applied if non-zero; the field closes.
pub open spec fn baud_typed(a: App, input: Seq<char>, b: App, effs: Seq<EffectView>) -> bool {
    let v = typed_baud(input);
    if v > 0 {
        let (c, e) = apply_result(App { port_config: PortConfig { baud: v, ..a.port_config }, ..a });
        b == (App { settings: SettingsUi { baud_input: None, ..c.settings }, ..c }) && effs == e
    } else {
        b == (App { settings: SettingsUi { baud_input: None, ..a.settings }, ..a }) && effs == Seq::<EffectView>::empty()
    }
}

/// What a key does in the settings dialogue: Esc closes it; on the baud
/// rate entry Enter and Space start typing a custom rate (beginning with the
/// current one); on any other entry Enter closes the dialogue and returns to
/// insert mode and Space steps the entry; Up/`k` and Down/`j` move between
/// entries (wrapping around); Left/`h` and Right/`l` step the current entry.
pub open spec fn settings_step(a: App, key: KeyInput, b: App, effs: Seq<EffectView>) -> bool {
    match a.settings.baud_input {
        Some(input) => baud_field_step(a, input@, key, b, effs),
        None => {
            let cur = setting_at(a.settings.cursor as int);
            let code = key.code;
            if code == KeyCode::Esc {
                b == (App { settings: SettingsUi { show: false, ..a.settings }, ..a }) && effs == Seq::<EffectView>::empty()
            } else if code == KeyCode::Enter && cur == Setting::BaudRate {
                with_baud_field(a, b) && (b.settings.baud_input matches Some(t) && t@ == decimal(
                    a.port_config.baud as nat,
                )) && effs == Seq::<EffectView>::empty()
            } else if code == KeyCode::Enter {
                b == (App {
                    settings: SettingsUi { show: false, ..a.settings },
                    terminal_mode: TerminalMode::Insert,
                    ..a
                }) && effs == Seq::<EffectView>::empty()
            } else if code == KeyCode::Up || code == KeyCode::Char('k') {
                b == (App {
                    settings: SettingsUi {
                        cursor: if a.settings.cursor > 0 {
                            (a.settings.cursor - 1) as usize
                        } else {
                            (SETTINGS_COUNT - 1) as usize
                        },
                        ..a.settings
                    },
                    ..a
                }) && effs == Seq::<EffectView>::empty()
            } else if code == KeyCode::Down || code == KeyCode::Char('j') {
                b == (App {
                    settings: SettingsUi { cursor: ((a.settings.cursor + 1) % (SETTINGS_COUNT as int)) as usize, ..a.settings },
                    ..a
                }) && effs == Seq::<EffectView>::empty()
            } else if code == KeyCode::Left || code == KeyCode::Char('h') {
                cycled(a, cur, -1, b, effs)
            } else if code == KeyCode::Right || code == KeyCode::Char('l') {
                cycled(a, cur, 1, b, effs)
            } else if code == KeyCode::Char(' ') {
                if cur == Setting::BaudRate {
                    with_baud_field(a, b) && (b.settings.baud_input matches Some(t) && t@ == decimal(
                        a.port_config.baud as nat,
                    )) && effs == Seq::<EffectView>::empty()
                } else {
                    cycled(a, cur, 1, b, effs)
                }
            } else {
                b == a && effs == Seq::<EffectView>::empty()
            }
        },
    }
}

impl App {
    #[verifier::rlimit(40)]
    fn baud_field_key(&mut self, key: &KeyInput) -> (r: Vec<Effect>)
        requires
            old(self).inv(),
            old(self).settings.baud_input is Some,
        ensures
            final(self).inv(),
            baud_field_step(*old(self), old(self).settings.baud_input->0@, *key, *final(self), effects(r@)),
    {
        let ghost input = self.settings.baud_input->0@;
        let mut r: Vec<Effect> = Vec::new();
        match key.code {
            KeyCode::Esc => {
                self.settings.baud_input = None;
            },
            KeyCode::Backspace => {
                let mut t = self.settings.baud_input.take().unwrap();
                pop_char(&mut t);
                self.settings.baud_input = Some(t);
            },
            KeyCode::Char(c) => {
                if c == ' ' {
                    r = self.apply_typed_baud();
                } else if '0' <= c && c <= '9' {
                    let mut t = self.settings.baud_input.take().unwrap();
                    push_char(&mut t, c);
                    self.settings.baud_input = Some(t);
                }
            },
            KeyCode::Enter => {
                r = self.apply_typed_baud();
            },
            _ => {},
        }
        assert(r@.len() == 0 ==> effects(r@) =~= Seq::<EffectView>::empty());
        r
    }

    fn apply_typed_baud(&mut self) -> (r: Vec<Effect>)
        requires
            old(self).inv(),
            old(self).settings.baud_input is Some,
        ensures
            final(self).inv(),
            baud_typed(*old(self), old(self).settings.baud_input->0@, *final(self), effects(r@)),
    {
        let t = self.settings.baud_input.take().unwrap();
        let baud = match parse_u32(t.as_str()) {
            Some(v) => v,
            None => 0,
        };
        let mut r: Vec<Effect> = Vec::new();
        if baud > 0 {
            self.port_config.baud = baud;
            r = self.apply_port_config();
        } else {
            assert(effects(r@) =~= Seq::<EffectView>::empty());
        }
        r
    }

    /// Reacts to a key in the settings dialogue (see `settings_step`).
    #[verifier::rlimit(80)]
    pub fn settings_key(&mut self, key: &KeyInput) -> (r: Vec<Effect>)
        requires
            old(self).inv(),
        ensures
            final(self).inv(),
            settings_step(*old(self), *key, *final(self), effects(r@)),
    {
        if self.settings.baud_input.is_some() {
            return self.baud_field_key(key);
        }
        let current = setting_for(self.settings.cursor);
        let mut r: Vec<Effect> = Vec::new();
        let code = key.code;
        if code == KeyCode::Esc {
            self.settings.show = false;
        } else if code == KeyCode::Enter && current == Setting::BaudRate {
            self.settings.baud_input = Some(decimal_string(self.port_config.baud as u64));
        } else if code == KeyCode::Enter {
            self.settings.show = false;
            self.terminal_mode = TerminalMode::Insert;
        } else if code == KeyCode::Up || code == KeyCode::Char('k') {
            if self.settings.cursor > 0 {
                self.settings.cursor = self.settings.cursor - 1;
            } else {
                self.settings.cursor = SETTINGS_COUNT - 1;
            }
        } else if code == KeyCode::Down || code == KeyCode::Char('j') {
            self.settings.cursor = (self.settings.cursor + 1) % SETTINGS_COUNT;
        } else if code == KeyCode::Left || code == KeyCode::Char('h') {
            r = current.cycle(self, -1);
        } else if code == KeyCode::Right || code == KeyCode::Char('l') {
            r = current.cycle(self, 1);
        } else if code == KeyCode::Char(' ') {
            if current == Setting::BaudRate {
                self.settings.baud_input = Some(decimal_string(self.port_config.baud as u64));
            } else {
                r = current.cycle(self, 1);
            }
        }
        assert(r@.len() == 0 ==> effects(r@) =~= Seq::<EffectView>::empty());
        r
    }
}

/// A label left-aligned in a field of 17 characters, with one space on
/// either side.
pub open spec fn name_cell(label: Seq<char>) -> Seq<char> {
    let padded = if label.len() < 17 {
        label + Seq::new((17 - label.len()) as nat, |i: int| ' ')
    } else {
        label
    };
    seq![' '] + padded + seq![' ']
}

/// The texts of an entry's row in the dialogue: the name cell, then
/// `: ` and the typed digits with a trailing `_` while a baud rate is
/// typed, otherwise ` < `, the value and ` >`.
pub open spec fn row_texts(s: Setting, a: App) -> Seq<Seq<char>> {
    if s == Setting::BaudRate && a.settings.baud_input is Some {
        seq![name_cell(label_of(s)), ": "@, a.settings.baud_input->Some_0@.push('_')]
    } else {
        seq![name_cell(label_of(s)), " < "@, value_of(s, a), " >"@]
    }
}

fn name_cell_exec(label: &str) -> (r: String)
    ensures
        r@ == name_cell(label@),
{
    let cs = chars_of(label);
    let mut r = String::new();
    push_char(&mut r, ' ');
    crate::text::push_chars(&mut r, cs.as_slice());
    let mut k: usize = cs.len();
    let ghost base = r@;
    while k < 17
        invariant
            cs.len() <= k <= 17 || (cs.len() >= 17 && k == cs.len()),
            base == seq![' '] + label@,
            cs@ == label@,
            r@ == base + Seq::new((k - cs.len()) as nat, |i: int| ' '),
        decreases 17 - k,
    {
        push_char(&mut r, ' ');
        assert(Seq::new((k - cs.len()) as nat, |i: int| ' ').push(' ') =~= Seq::new((k + 1 - cs.len()) as nat, |i: int| ' '));
        k += 1;
    }
    push_char(&mut r, ' ');
    proof {
        if label@.len() < 17 {
            assert(r@ =~= name_cell(label@));
        } else {
            assert(Seq::new((k - cs.len()) as nat, |i: int| ' ') =~= Seq::<char>::empty());
            assert(r@ =~= name_cell(label@));
        }
    }
    r
}

/// The texts of an entry's row in the dialogue (see `row_texts`).
pub fn setting_row(setting: Setting, app: &App) -> (parts: Vec<String>)
    ensures
        crate::text::views(parts@) == row_texts(setting, *app),
{
    let mut parts: Vec<String> = Vec::new();
    parts.push(name_cell_exec(setting.label()));
    let editing = match &app.settings.baud_input {
        Some(_) => setting == Setting::BaudRate,
        None => false,
    };
    if editing {
        let mut typed = match &app.settings.baud_input {
            Some(t) => t.clone(),
            None => String::new(),
        };
        push_char(&mut typed, '_');
        parts.push(String::from_str(": "));
        parts.push(typed);
    } else {
        parts.push(String::from_str(" < "));
        parts.push(setting.value(app));
        parts.push(String::from_str(" >"));
    }
    assert(crate::text::views(parts@) =~= row_texts(setting, *app));
    parts
}

} // verus!
