//! The configuration file: its shape, the check of its values, and how
//! each value is read.
use vstd::prelude::*;
use crate::serial::{DataBits, FlowControl, NewlineEncoding, Parity, StopBits};
use crate::text::{ascii_lowered, is_ascii_text, chars_of, decimal, lowercase, push_chars, push_decimal, str_eq, to_lowercase};

verus! {

/// The `[serial]` table.
#[derive(Clone, Debug)]
pub struct SerialConfig {
    pub baud: Option<u32>,
    pub data_bits: Option<u8>,
    pub stop_bits: Option<u8>,
    pub parity: Option<String>,
    pub flow_control: Option<String>,
}

/// The `[behavior]` table.
#[derive(Clone, Debug)]
pub struct BehaviorConfig {
    pub local_echo: Option<bool>,
    pub outgoing_newline: Option<String>,
    pub keep_open: Option<bool>,
}

/// The whole configuration file; every value is optional.
#[derive(Clone, Debug)]
pub struct FileConfig {
    pub serial: SerialConfig,
    pub behavior: BehaviorConfig,
}

impl Default for SerialConfig {
    fn default() -> (c: Self)
        ensures
            c.baud is None,
            c.data_bits is None,
            c.stop_bits is None,
            c.parity is None,
            c.flow_control is None,
    {
        SerialConfig { baud: None, data_bits: None, stop_bits: None, parity: None, flow_control: None }
    }
}

impl Default for BehaviorConfig {
    fn default() -> (c: Self)
        ensures
            c.local_echo is None,
            c.outgoing_newline is None,
            c.keep_open is None,
    {
        BehaviorConfig { local_echo: None, outgoing_newline: None, keep_open: None }
    }
}

impl Default for FileConfig {
    fn default() -> (c: Self)
        ensures
            sets_nothing(c),
    {
        FileConfig { serial: SerialConfig::default(), behavior: BehaviorConfig::default() }
    }
}

/// A configuration that sets nothing: every value falls back to the
/// built-in default.
pub open spec fn sets_nothing(c: FileConfig) -> bool {
    &&& c.serial.baud is None
    &&& c.serial.data_bits is None
    &&& c.serial.stop_bits is None
    &&& c.serial.parity is None
    &&& c.serial.flow_control is None
    &&& c.behavior.local_echo is None
    &&& c.behavior.outgoing_newline is None
    &&& c.behavior.keep_open is None
}

/// The configuration in use, given what reading the configuration file
/// gave: the file's values when it could be read and parsed (a missing file
/// reads as an empty one), otherwise a configuration that sets nothing.
pub fn load(read: Result<FileConfig, String>) -> (c: FileConfig)
    ensures
        read is Ok ==> c == read->Ok_0,
        read is Err ==> sets_nothing(c),
{
    match read {
        Ok(cfg) => cfg,
        Err(_) => FileConfig::default(),
    }
}

/// A value is one of the accepted names, compared case-insensitively.
pub open spec fn one_of(v: Seq<char>, names: Seq<Seq<char>>) -> bool {
    named_in(lowercase(v), names)
}

/// A lower-case text is one of the names.
pub open spec fn named_in(l: Seq<char>, names: Seq<Seq<char>>) -> bool {
    exists|i: int| 0 <= i < names.len() && l == #[trigger] names[i]
}

/// Accepted parity names.
pub open spec fn parity_names() -> Seq<Seq<char>> {
    seq!["none"@, "even"@, "odd"@]
}

/// Accepted flow control names.
pub open spec fn flow_control_names() -> Seq<Seq<char>> {
    seq!["none"@, "software"@, "hardware"@, "xon/xoff"@, "rts/cts"@]
}

/// Accepted line ending names.
pub open spec fn newline_names() -> Seq<Seq<char>> {
    seq!["cr"@, "lf"@, "crlf"@, "cr+lf"@]
}

/// A message naming a rejected text value.
pub open spec fn quoted_error(key: Seq<char>, v: Seq<char>, valid: Seq<char>) -> Seq<char> {
    key + ": got \""@ + v + "\", valid values: "@ + valid
}

/// The message for a rejected number.
pub open spec fn number_error(key: Seq<char>, v: nat, valid: Seq<char>) -> Seq<char> {
    key + ": got "@ + decimal(v) + ", valid values: "@ + valid
}

/// The problem with the baud rate, if any.
pub open spec fn baud_problem(c: FileConfig) -> Seq<Seq<char>> {
    match c.serial.baud {
        Some(b) if b == 0 => seq!["serial.baud: must be greater than 0"@],
        _ => seq![],
    }
}

/// The problem with the data bits, if any.
pub open spec fn data_bits_problem(c: FileConfig) -> Seq<Seq<char>> {
    match c.serial.data_bits {
        Some(d) if !(5 <= d <= 8) => seq![number_error("serial.data_bits"@, d as nat, "5 | 6 | 7 | 8"@)],
        _ => seq![],
    }
}

/// The problem with the stop bits, if any.
pub open spec fn stop_bits_problem(c: FileConfig) -> Seq<Seq<char>> {
    match c.serial.stop_bits {
        Some(s) if s != 1 && s != 2 => seq![number_error("serial.stop_bits"@, s as nat, "1 | 2"@)],
        _ => seq![],
    }
}

/// The problem with the parity, if any.
pub open spec fn parity_problem(c: FileConfig) -> Seq<Seq<char>> {
    match c.serial.parity {
        Some(p) if !one_of(p@, parity_names()) => seq![quoted_error("serial.parity"@, p@, "none | even | odd"@)],
        _ => seq![],
    }
}

/// The problem with the flow control, if any.
pub open spec fn flow_control_problem(c: FileConfig) -> Seq<Seq<char>> {
    match c.serial.flow_control {
        Some(f) if !one_of(f@, flow_control_names()) => seq![
            quoted_error("serial.flow_control"@, f@, "none | software | hardware"@),
        ],
        _ => seq![],
    }
}

/// The problem with the outgoing line ending, if any.
pub open spec fn newline_problem(c: FileConfig) -> Seq<Seq<char>> {
    match c.behavior.outgoing_newline {
        Some(n) if !one_of(n@, newline_names()) => seq![
            quoted_error("behavior.outgoing_newline"@, n@, "cr | lf | crlf"@),
        ],
        _ => seq![],
    }
}

/// Every problem of a configuration, in the order of its fields.
pub open spec fn config_problems(c: FileConfig) -> Seq<Seq<char>> {
    baud_problem(c) + data_bits_problem(c) + stop_bits_problem(c) + parity_problem(c)
        + flow_control_problem(c) + newline_problem(c)
}

fn is_one_of(v: &str, names: &[&str]) -> (r: bool)
    ensures
        r == exists|i: int| 0 <= i < names@.len() && lowercase(v@) == (#[trigger] names@[i])@,
{
    let lower = to_lowercase(v);
    is_named_in(lower.as_str(), names)
}

/// Whether a lower-case text is one of the names.
pub fn is_named_in(l: &str, names: &[&str]) -> (r: bool)
    ensures
        r == exists|i: int| 0 <= i < names@.len() && l@ == (#[trigger] names@[i])@,
{
    let mut i: usize = 0;
    while i < names.len()
        invariant
            i <= names.len(),
            forall|j: int| 0 <= j < i ==> l@ != (#[trigger] names@[j])@,
        decreases names.len() - i,
    {
        if str_eq(l, names[i]) {
            return true;
        }
        i += 1;
    }
    false
}

fn quoted(key: &str, v: &str, valid: &str) -> (m: String)
    ensures
        m@ == quoted_error(key@, v@, valid@),
{
    let mut m = String::from_str(key);
    m.append(": got \"");
    m.append(v);
    m.append("\", valid values: ");
    m.append(valid);
    m
}

fn numbered(key: &str, v: u8, valid: &str) -> (m: String)
    ensures
        m@ == number_error(key@, v as nat, valid@),
{
    let mut m = String::from_str(key);
    m.append(": got ");
    push_decimal(&mut m, v as u64);
    m.append(", valid values: ");
    m.append(valid);
    m
}

/// The problems of a configuration, one message per rejected value.
pub fn validate(cfg: &FileConfig) -> (errors: Vec<String>)
    ensures
        crate::text::views(errors@) == config_problems(*cfg),
{
    let mut errors: Vec<String> = Vec::new();
    if let Some(baud) = cfg.serial.baud {
        if baud == 0 {
            errors.push(String::from_str("serial.baud: must be greater than 0"));
        }
    }
    assert(crate::text::views(errors@) =~= baud_problem(*cfg));
    let ghost e1 = crate::text::views(errors@);
    if let Some(db) = cfg.serial.data_bits {
        if !(5 <= db && db <= 8) {
            errors.push(numbered("serial.data_bits", db, "5 | 6 | 7 | 8"));
        }
    }
    assert(crate::text::views(errors@) =~= e1 + data_bits_problem(*cfg));
    let ghost e2 = crate::text::views(errors@);
    if let Some(sb) = cfg.serial.stop_bits {
        if sb != 1 && sb != 2 {
            errors.push(numbered("serial.stop_bits", sb, "1 | 2"));
        }
    }
    assert(crate::text::views(errors@) =~= e2 + stop_bits_problem(*cfg));
    let ghost e3 = crate::text::views(errors@);
    if let Some(p) = &cfg.serial.parity {
        let names = ["none", "even", "odd"];
        proof {
            assert(names@.map_values(|s: &str| s@) =~= parity_names());
        }
        if !is_one_of(p.as_str(), &names) {
            errors.push(quoted("serial.parity", p.as_str(), "none | even | odd"));
        }
    }
    assert(crate::text::views(errors@) =~= e3 + parity_problem(*cfg));
    let ghost e4 = crate::text::views(errors@);
    if let Some(fc) = &cfg.serial.flow_control {
        let names = ["none", "software", "hardware", "xon/xoff", "rts/cts"];
        proof {
            assert(names@.map_values(|s: &str| s@) =~= flow_control_names());
        }
        if !is_one_of(fc.as_str(), &names) {
            errors.push(quoted("serial.flow_control", fc.as_str(), "none | software | hardware"));
        }
    }
    assert(crate::text::views(errors@) =~= e4 + flow_control_problem(*cfg));
    let ghost e5 = crate::text::views(errors@);
    if let Some(nl) = &cfg.behavior.outgoing_newline {
        let names = ["cr", "lf", "crlf", "cr+lf"];
        proof {
            assert(names@.map_values(|s: &str| s@) =~= newline_names());
        }
        if !is_one_of(nl.as_str(), &names) {
            errors.push(quoted("behavior.outgoing_newline", nl.as_str(), "cr | lf | crlf"));
        }
    }
    assert(crate::text::views(errors@) =~= e5 + newline_problem(*cfg));
    errors
}

/// The data bits a configured number stands for; anything unknown means 8.
pub open spec fn data_bits_of(v: u8) -> DataBits {
    if v == 5 {
        DataBits::Five
    } else if v == 6 {
        DataBits::Six
    } else if v == 7 {
        DataBits::Seven
    } else {
        DataBits::Eight
    }
}

/// The data bits a configured number stands for.
pub fn parse_data_bits(v: u8) -> (d: DataBits)
    ensures
        d == data_bits_of(v),
{
    match v {
        5 => DataBits::Five,
        6 => DataBits::Six,
        7 => DataBits::Seven,
        _ => DataBits::Eight,
    }
}

/// The stop bits a configured number stands for; anything but 2 means 1.
pub open spec fn stop_bits_of(v: u8) -> StopBits {
    if v == 2 {
        StopBits::Two
    } else {
        StopBits::One
    }
}

/// The stop bits a configured number stands for.
pub fn parse_stop_bits(v: u8) -> (s: StopBits)
    ensures
        s == stop_bits_of(v),
{
    match v {
        2 => StopBits::Two,
        _ => StopBits::One,
    }
}

/// The parity a configured name stands for (case-insensitively); anything
/// unknown means no parity.
pub open spec fn parity_of(v: Seq<char>) -> Parity {
    parity_named(lowercase(v))
}

/// The parity a lower-case name stands for.
pub open spec fn parity_named(l: Seq<char>) -> Parity {
    if l == "even"@ {
        Parity::Even
    } else if l == "odd"@ {
        Parity::Odd
    } else {
        Parity::Off
    }
}

/// The parity a configured name stands for.
pub fn parse_parity(v: &str) -> (p: Parity)
    ensures
        p == parity_of(v@),
        is_ascii_text(v@) ==> p == parity_named(ascii_lowered(v@)),
{
    let l = to_lowercase(v);
    parity_from_lowered(l.as_str())
}

/// The parity a lower-case name stands for.
pub fn parity_from_lowered(l: &str) -> (p: Parity)
    ensures
        p == parity_named(l@),
{
    if str_eq(l, "even") {
        Parity::Even
    } else if str_eq(l, "odd") {
        Parity::Odd
    } else {
        Parity::Off
    }
}

/// The flow control a configured name stands for (case-insensitively);
/// anything unknown means none.
pub open spec fn flow_control_of(v: Seq<char>) -> FlowControl {
    flow_control_named(lowercase(v))
}

/// The flow control a lower-case name stands for.
pub open spec fn flow_control_named(l: Seq<char>) -> FlowControl {
    if l == "software"@ || l == "xon/xoff"@ {
        FlowControl::Software
    } else if l == "hardware"@ || l == "rts/cts"@ {
        FlowControl::Hardware
    } else {
        FlowControl::Off
    }
}

/// The flow control a configured name stands for.
pub fn parse_flow_control(v: &str) -> (f: FlowControl)
    ensures
        f == flow_control_of(v@),
        is_ascii_text(v@) ==> f == flow_control_named(ascii_lowered(v@)),
{
    let l = to_lowercase(v);
    flow_control_from_lowered(l.as_str())
}

/// The flow control a lower-case name stands for.
pub fn flow_control_from_lowered(l: &str) -> (f: FlowControl)
    ensures
        f == flow_control_named(l@),
{
    if str_eq(l, "software") || str_eq(l, "xon/xoff") {
        FlowControl::Software
    } else if str_eq(l, "hardware") || str_eq(l, "rts/cts") {
        FlowControl::Hardware
    } else {
        FlowControl::Off
    }
}

/// The line ending a configured name stands for (case-insensitively);
/// anything unknown means CR.
pub open spec fn newline_of(v: Seq<char>) -> NewlineEncoding {
    newline_named(lowercase(v))
}

/// The line ending a lower-case name stands for.
pub open spec fn newline_named(l: Seq<char>) -> NewlineEncoding {
    if l == "lf"@ {
        NewlineEncoding::LF
    } else if l == "crlf"@ || l == "cr+lf"@ {
        NewlineEncoding::CRLF
    } else {
        NewlineEncoding::CR
    }
}

/// The line ending a configured name stands for.
pub fn parse_newline(v: &str) -> (n: NewlineEncoding)
    ensures
        n == newline_of(v@),
        is_ascii_text(v@) ==> n == newline_named(ascii_lowered(v@)),
{
    let l = to_lowercase(v);
    newline_from_lowered(l.as_str())
}

/// The line ending a lower-case name stands for.
pub fn newline_from_lowered(l: &str) -> (n: NewlineEncoding)
    ensures
        n == newline_named(l@),
{
    if str_eq(l, "lf") {
        NewlineEncoding::LF
    } else if str_eq(l, "crlf") || str_eq(l, "cr+lf") {
        NewlineEncoding::CRLF
    } else {
        NewlineEncoding::CR
    }
}

/// A relative path component appended to a path, as `Path::join` does on
/// Unix: a separator is added unless the path is empty or already ends
/// with one.
pub open spec fn path_join(base: Seq<char>, part: Seq<char>) -> Seq<char> {
    if base.len() > 0 && base.last() != '/' {
        base + "/"@ + part
    } else {
        base + part
    }
}

/// The kind of system the program runs on, as far as the configuration
/// file's location is concerned.
#[derive(Clone, Copy, Debug, PartialEq, Eq, Structural)]
pub enum Platform {
    Unix,
    Windows,
    /// Any other system: the configuration file has no location.
    Other,
}

/// A relative path component appended to a path, as `Path::join` does on
/// Windows: a `\` is added unless the path is empty, already ends with a
/// separator (`\` or `/`), or is a bare drive such as `C:`.
pub open spec fn win_path_join(base: Seq<char>, part: Seq<char>) -> Seq<char> {
    if base.len() > 0 && base.last() != '/' && base.last() != '\\' && !(base.len() == 2 && base[1] == ':') {
        base + "\\"@ + part
    } else {
        base + part
    }
}

/// Where the configuration file lives on Unix:
/// `$XDG_CONFIG_HOME/stuart/config.toml`, or `$HOME/.config/stuart/config.toml`
/// when `XDG_CONFIG_HOME` is unset (an unset `HOME` counts as empty).
pub open spec fn unix_location(xdg: Option<Seq<char>>, home: Option<Seq<char>>) -> Seq<char> {
    let base = match xdg {
        Some(x) => x,
        None => path_join(
            match home {
                Some(h) => h,
                None => seq![],
            },
            ".config"@,
        ),
    };
    path_join(path_join(base, "stuart"@), "config.toml"@)
}

/// Where the configuration file lives, given the values of the
/// `XDG_CONFIG_HOME`, `HOME` and `APPDATA` environment variables: on Unix
/// see `unix_location`; on Windows `%APPDATA%\stuart\config.toml`, and
/// nowhere when `APPDATA` is unset; on other systems nowhere.
pub open spec fn config_location(
    platform: Platform,
    xdg: Option<Seq<char>>,
    home: Option<Seq<char>>,
    appdata: Option<Seq<char>>,
) -> Option<Seq<char>> {
    match platform {
        Platform::Unix => Some(unix_location(xdg, home)),
        Platform::Windows => match appdata {
            Some(a) => Some(win_path_join(win_path_join(a, "stuart"@), "config.toml"@)),
            None => None,
        },
        Platform::Other => None,
    }
}

/// An optional string slice as an optional character sequence.
pub open spec fn opt_view(v: Option<&str>) -> Option<Seq<char>> {
    match v {
        Some(x) => Some(x@),
        None => None,
    }
}

fn join_part(base: String, part: &str) -> (r: String)
    requires
        part@.len() > 0,
    ensures
        r@ == path_join(base@, part@),
{
    let cs = chars_of(base.as_str());
    let mut r = base;
    if cs.len() > 0 && cs[cs.len() - 1] != '/' {
        r.append("/");
    }
    r.append(part);
    r
}

proof fn lemma_literal_lengths()
    ensures
        ".config"@.len() > 0,
        "stuart"@.len() > 0,
        "config.toml"@.len() > 0,
{
    reveal_strlit(".config");
    reveal_strlit("stuart");
    reveal_strlit("config.toml");
}

fn win_join_part(base: String, part: &str) -> (r: String)
    ensures
        r@ == win_path_join(base@, part@),
{
    let cs = chars_of(base.as_str());
    let n = cs.len();
    let mut r = base;
    if n > 0 && cs[n - 1] != '/' && cs[n - 1] != '\\' && !(n == 2 && cs[1] == ':') {
        r.append("\\");
    }
    r.append(part);
    r
}

/// The path of the configuration file (see `config_location`).
pub fn config_path(
    platform: Platform,
    xdg_config_home: Option<&str>,
    home: Option<&str>,
    appdata: Option<&str>,
) -> (p: Option<String>)
    ensures
        match p {
            Some(s) => config_location(platform, opt_view(xdg_config_home), opt_view(home), opt_view(appdata))
                == Some(s@),
            None => config_location(platform, opt_view(xdg_config_home), opt_view(home), opt_view(appdata))
                is None,
        },
{
    proof {
        lemma_literal_lengths();
    }
    match platform {
        Platform::Unix => {
            let base = match xdg_config_home {
                Some(x) => String::from_str(x),
                None => {
                    let h = match home {
                        Some(h) => String::from_str(h),
                        None => String::new(),
                    };
                    join_part(h, ".config")
                },
            };
            let dir = join_part(base, "stuart");
            Some(join_part(dir, "config.toml"))
        },
        Platform::Windows => match appdata {
            Some(a) => {
                let dir = win_join_part(String::from_str(a), "stuart");
                Some(win_join_part(dir, "config.toml"))
            },
            None => None,
        },
        Platform::Other => None,
    }
}

/// The configuration file's path as shown to the user: `(unknown)` when it
/// has no location.
pub fn config_path_display(
    platform: Platform,
    xdg_config_home: Option<&str>,
    home: Option<&str>,
    appdata: Option<&str>,
) -> (p: String)
    ensures
        p@ == match config_location(platform, opt_view(xdg_config_home), opt_view(home), opt_view(appdata)) {
            Some(l) => l,
            None => "(unknown)"@,
        },
{
    match config_path(platform, xdg_config_home, home, appdata) {
        Some(s) => s,
        None => String::from_str("(unknown)"),
    }
}

/// Whether the default configuration may be written to `path`: not over an
/// existing file unless forced; the refusal says where the file is.
pub fn may_write_config(path: &str, exists: bool, force: bool) -> (r: Result<(), String>)
    ensures
        r is Err <==> exists && !force,
        r matches Err(m) ==> m@ == "config file already exists at "@ + path@ + "\nUse --force to overwrite."@,
{
    if exists && !force {
        let mut m = String::from_str("config file already exists at ");
        m.append(path);
        m.append("\nUse --force to overwrite.");
        Err(m)
    } else {
        Ok(())
    }
}

} // verus!
