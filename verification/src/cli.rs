//! Resolution of the effective settings from command-line options, the
//! configuration file and the built-in defaults, in that order of priority.
use vstd::prelude::*;
use crate::config::{config_problems, validate, data_bits_of, flow_control_of, newline_of, parity_of, stop_bits_of, parse_data_bits, parse_flow_control, parse_newline, parse_parity, parse_stop_bits, FileConfig};
use crate::state::App;
use crate::serial::{DataBits, FlowControl, InputMode, NewlineEncoding, Parity, PortConfig, StopBits, DEFAULT_BAUD};

verus! {

/// The options given on the command line, as parsed.
#[derive(Clone, Debug)]
pub struct CliOptions {
    pub port: Option<String>,
    pub baud: Option<u32>,
    pub data_bits: Option<DataBits>,
    pub stop_bits: Option<StopBits>,
    pub parity: Option<Parity>,
    pub flow_control: Option<FlowControl>,
    pub local_echo: bool,
    pub outgoing_newline: Option<NewlineEncoding>,
    pub input_mode: Option<InputMode>,
    pub incoming_newline: Option<NewlineEncoding>,
    pub no_lock: bool,
    pub keep_open: bool,
    pub no_keep_open: bool,
}

/// The effective settings the terminal starts with.
#[derive(Clone, Debug)]
pub struct Args {
    pub port: Option<String>,
    pub config: PortConfig,
    pub hold: bool,
    pub local_echo: bool,
    pub outgoing_newline: NewlineEncoding,
    pub input_mode: InputMode,
    pub incoming_newline: NewlineEncoding,
}

/// The first value present among a command-line option, a configuration
/// value and a default.
pub open spec fn pick<T>(cli: Option<T>, file: Option<T>, default: T) -> T {
    match cli {
        Some(v) => v,
        None => match file {
            Some(v) => v,
            None => default,
        },
    }
}

/// A configuration value read through `f`.
pub open spec fn read_opt<A, T>(v: Option<A>, f: spec_fn(A) -> T) -> Option<T> {
    match v {
        Some(a) => Some(f(a)),
        None => None,
    }
}

/// Whether the terminal stays open and reconnects after the device goes
/// away: `--no-keep-open` wins, then `--keep-open`, then the file, then on.
pub open spec fn hold_of(cli: CliOptions, file: FileConfig) -> bool {
    if cli.no_keep_open {
        false
    } else if cli.keep_open {
        true
    } else {
        match file.behavior.keep_open {
            Some(k) => k,
            None => true,
        }
    }
}

/// The effective settings for command-line options and a configuration.
pub open spec fn resolved(cli: CliOptions, file: FileConfig) -> Args {
    Args {
        port: cli.port,
        config: PortConfig {
            baud: pick(cli.baud, file.serial.baud, 115200u32),
            data_bits: pick(cli.data_bits, read_opt(file.serial.data_bits, |v: u8| data_bits_of(v)), DataBits::Eight),
            stop_bits: pick(cli.stop_bits, read_opt(file.serial.stop_bits, |v: u8| stop_bits_of(v)), StopBits::One),
            parity: pick(cli.parity, read_opt(file.serial.parity, |v: String| parity_of(v@)), Parity::Off),
            flow_control: pick(
                cli.flow_control,
                read_opt(file.serial.flow_control, |v: String| flow_control_of(v@)),
                FlowControl::Off,
            ),
            no_lock: cli.no_lock,
        },
        hold: hold_of(cli, file),
        local_echo: cli.local_echo || match file.behavior.local_echo {
            Some(e) => e,
            None => false,
        },
        outgoing_newline: pick(
            cli.outgoing_newline,
            read_opt(file.behavior.outgoing_newline, |v: String| newline_of(v@)),
            NewlineEncoding::CR,
        ),
        input_mode: pick(cli.input_mode, None, InputMode::Direct),
        incoming_newline: pick(cli.incoming_newline, None, NewlineEncoding::CRLF),
    }
}

/// The effective settings: each value comes from the command line if given
/// there, else from the configuration file, else from the defaults
/// (115200 baud, 8 data bits, 1 stop bit, no parity, no flow control,
/// no local echo, CR line endings, keep the terminal open).  The input mode
/// and the incoming line ending come from the command line only (default:
/// direct input, CR LF).
pub fn resolve(cli: CliOptions, file: &FileConfig) -> (a: Args)
    ensures
        a == resolved(cli, *file),
{
    let baud = match cli.baud {
        Some(b) => b,
        None => match file.serial.baud {
            Some(b) => b,
            None => DEFAULT_BAUD,
        },
    };
    let data_bits = match cli.data_bits {
        Some(d) => d,
        None => match file.serial.data_bits {
            Some(v) => parse_data_bits(v),
            None => DataBits::Eight,
        },
    };
    let stop_bits = match cli.stop_bits {
        Some(s) => s,
        None => match file.serial.stop_bits {
            Some(v) => parse_stop_bits(v),
            None => StopBits::One,
        },
    };
    let parity = match cli.parity {
        Some(p) => p,
        None => match &file.serial.parity {
            Some(v) => parse_parity(v.as_str()),
            None => Parity::Off,
        },
    };
    let flow_control = match cli.flow_control {
        Some(f) => f,
        None => match &file.serial.flow_control {
            Some(v) => parse_flow_control(v.as_str()),
            None => FlowControl::Off,
        },
    };
    let local_echo = if cli.local_echo {
        true
    } else {
        match file.behavior.local_echo {
            Some(e) => e,
            None => false,
        }
    };
    let outgoing_newline = match cli.outgoing_newline {
        Some(n) => n,
        None => match &file.behavior.outgoing_newline {
            Some(v) => parse_newline(v.as_str()),
            None => NewlineEncoding::CR,
        },
    };
    let hold = if cli.no_keep_open {
        false
    } else if cli.keep_open {
        true
    } else {
        match file.behavior.keep_open {
            Some(k) => k,
            None => true,
        }
    };
    let input_mode = match cli.input_mode {
        Some(m) => m,
        None => InputMode::Direct,
    };
    let incoming_newline = match cli.incoming_newline {
        Some(n) => n,
        None => NewlineEncoding::CRLF,
    };
    Args {
        port: cli.port,
        config: PortConfig { baud, data_bits, stop_bits, parity, flow_control, no_lock: cli.no_lock },
        hold,
        local_echo,
        outgoing_newline,
        input_mode,
        incoming_newline,
    }
}

/// What the command line asks for, once the configuration file is read:
/// if the file holds rejected values, their messages (and the terminal does
/// not start); otherwise the effective settings.
pub fn parse(cli: CliOptions, file: &FileConfig) -> (r: Result<Args, Vec<String>>)
    ensures
        config_problems(*file).len() > 0 <==> r is Err,
        r matches Err(errors) ==> crate::text::views(errors@) == config_problems(*file),
        r matches Ok(a) ==> a == resolved(cli, *file),
{
    let errors = validate(file);
    if errors.len() > 0 {
        Err(errors)
    } else {
        Ok(resolve(cli, file))
    }
}

impl App {
    /// Takes the behaviour part of the effective settings: local echo, the
    /// input mode and both line endings.
    pub fn apply_behavior(&mut self, args: &Args)
        requires
            old(self).inv(),
        ensures
            final(self).inv(),
            *final(self) == (App {
                local_echo: args.local_echo,
                outgoing_newline: args.outgoing_newline,
                input_mode: args.input_mode,
                incoming_newline: args.incoming_newline,
                ..*old(self)
            }),
    {
        self.local_echo = args.local_echo;
        self.outgoing_newline = args.outgoing_newline;
        self.input_mode = args.input_mode;
        self.incoming_newline = args.incoming_newline;
    }
}

/// Command-line options take priority over the configuration file, which
/// takes priority over the defaults: for the baud rate, a rate given on the
/// command line is used whatever the file says; otherwise the file's rate;
/// otherwise 115200.  The same order holds for data bits, stop bits,
/// parity, flow control and the outgoing line ending.
pub proof fn law_command_line_overrides_file(cli: CliOptions, file: FileConfig)
    ensures
        cli.baud matches Some(b) ==> resolved(cli, file).config.baud == b,
        cli.baud is None ==> (file.serial.baud matches Some(b) ==> resolved(cli, file).config.baud == b),
        cli.baud is None && file.serial.baud is None ==> resolved(cli, file).config.baud == 115200,
        cli.data_bits matches Some(d) ==> resolved(cli, file).config.data_bits == d,
        cli.data_bits is None ==> (file.serial.data_bits matches Some(v) ==> resolved(cli, file).config.data_bits
            == data_bits_of(v)),
        cli.stop_bits matches Some(s) ==> resolved(cli, file).config.stop_bits == s,
        cli.parity matches Some(p) ==> resolved(cli, file).config.parity == p,
        cli.flow_control matches Some(f) ==> resolved(cli, file).config.flow_control == f,
        cli.outgoing_newline matches Some(n) ==> resolved(cli, file).outgoing_newline == n,
        cli.input_mode matches Some(m) ==> resolved(cli, file).input_mode == m,
        cli.incoming_newline matches Some(n) ==> resolved(cli, file).incoming_newline == n,
        cli.local_echo ==> resolved(cli, file).local_echo,
        cli.no_keep_open ==> !resolved(cli, file).hold,
        !cli.no_keep_open && cli.keep_open ==> resolved(cli, file).hold,
{
}

} // verus!
