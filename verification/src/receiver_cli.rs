//! The desktop receiver's command line.
//!
//! Reading the arguments and the host name, printing, and exiting belong to
//! the program; what the arguments mean is decided here.

use vstd::prelude::*;

use crate::config;
use crate::pipeline::{latency_named, Latency};
use crate::numbers::{parse_unsigned, unsigned_value};
use crate::text::{chars_of, debug_quoted, debug_string, push_str, same_text, string_from};

verus! {

pub struct Cli {
    pub host: String,
    pub control_port: u16,
    pub token: String,
    pub name: String,
    pub sink: Option<String>,
    pub sink_latency_ms: u32,
    pub run_for_secs: Option<u64>,
    pub simulate_loss: u32,
    pub latency: Latency,
}

/// What the arguments ask for.
pub enum Parsed {
    /// Print the usage and stop.
    Help,
    Run(Cli),
}

/// The settings, with text as sequences of characters.
pub struct CliView {
    pub host: Seq<char>,
    pub control_port: u16,
    pub token: Seq<char>,
    pub name: Seq<char>,
    pub sink: Option<Seq<char>>,
    pub sink_latency_ms: u32,
    pub run_for_secs: Option<u64>,
    pub simulate_loss: u32,
    pub latency: Latency,
}

pub enum ParsedView {
    Help,
    Run(CliView),
}

impl Cli {
    pub open spec fn view(self) -> CliView {
        CliView {
            host: self.host@,
            control_port: self.control_port,
            token: self.token@,
            name: self.name@,
            sink: match self.sink {
                Some(s) => Some(s@),
                None => None,
            },
            sink_latency_ms: self.sink_latency_ms,
            run_for_secs: self.run_for_secs,
            simulate_loss: self.simulate_loss,
            latency: self.latency,
        }
    }
}

pub open spec fn parsed_view(p: Parsed) -> ParsedView {
    match p {
        Parsed::Help => ParsedView::Help,
        Parsed::Run(c) => ParsedView::Run(c.view()),
    }
}

pub const USAGE: &'static str = "\
ausha-recv - play a stream from an Ausha sender

Usage: ausha-recv --host <ip> --token <token> [options]

Options:
  --host <ip>             Sender address (required)
  --token <token>         Pairing token the sender printed (required)
  --control-port <port>   Sender control port (default 6996)
  --name <name>           Name shown on the sender (default this host)
  --sink <program>        pacat, aplay, ffplay, or null (default: first found)
  --sink-latency <ms>     Requested device latency (default 20)
  --run-for <seconds>     Exit after this long, for soak testing
  --latency <preset>      low, balanced or stable (default balanced). Deeper
                          buffering survives worse networks but adds delay
  --simulate-loss <pct>   Drop this percentage of received packets, to exercise
                          concealment against a real sender
  -h, --help              Show this message
";

// ---------------------------------------------------------------------------
// Messages.

pub open spec fn requires_value_message(flag: Seq<char>) -> Seq<char> {
    flag + " requires a value"@
}

pub open spec fn invalid_value_message(flag: Seq<char>, value: Seq<char>) -> Seq<char> {
    flag + ": invalid value "@ + debug_quoted(value)
}

pub open spec fn bad_latency_message(value: Seq<char>) -> Seq<char> {
    "--latency: expected low, balanced or stable, got "@ + debug_quoted(value)
}

fn with_quoted(text: String, value: &str) -> (r: String)
    ensures
        r@ == text@ + debug_quoted(value@),
{
    let mut out = text;
    let quoted = debug_string(value);
    push_str(&mut out, quoted.as_str());
    out
}

fn message(prefix: &str, text: &str) -> (r: String)
    ensures
        r@ == prefix@ + text@,
{
    let mut out = String::new();
    push_str(&mut out, prefix);
    push_str(&mut out, text);
    out
}

// ---------------------------------------------------------------------------
// The arguments.

pub open spec fn default_view(name: Seq<char>) -> CliView {
    CliView {
        host: Seq::empty(),
        control_port: config::DEFAULT_CONTROL_PORT,
        token: Seq::empty(),
        name,
        sink: None,
        sink_latency_ms: 20,
        run_for_secs: None,
        simulate_loss: 0,
        latency: Latency::Balanced,
    }
}

pub open spec fn takes_value(flag: Seq<char>) -> bool {
    flag == "--host"@ || flag == "--token"@ || flag == "--name"@ || flag == "--sink"@ || flag
        == "--control-port"@ || flag == "--sink-latency"@ || flag == "--run-for"@ || flag
        == "--simulate-loss"@ || flag == "--latency"@
}

/// The settings once a flag's value is applied, or the message refusing it.
pub open spec fn apply(cli: CliView, flag: Seq<char>, value: Seq<char>) -> Result<CliView, Seq<char>> {
    if flag == "--host"@ {
        Ok(CliView { host: value, ..cli })
    } else if flag == "--token"@ {
        Ok(CliView { token: value, ..cli })
    } else if flag == "--name"@ {
        Ok(CliView { name: value, ..cli })
    } else if flag == "--sink"@ {
        Ok(CliView { sink: Some(value), ..cli })
    } else if flag == "--control-port"@ {
        match unsigned_value(value, u16::MAX as nat) {
            Some(v) => Ok(CliView { control_port: v as u16, ..cli }),
            None => Err(invalid_value_message(flag, value)),
        }
    } else if flag == "--sink-latency"@ {
        match unsigned_value(value, u32::MAX as nat) {
            Some(v) => Ok(CliView { sink_latency_ms: v as u32, ..cli }),
            None => Err(invalid_value_message(flag, value)),
        }
    } else if flag == "--run-for"@ {
        match unsigned_value(value, u64::MAX as nat) {
            Some(v) => Ok(CliView { run_for_secs: Some(v as u64), ..cli }),
            None => Err(invalid_value_message(flag, value)),
        }
    } else if flag == "--simulate-loss"@ {
        match unsigned_value(value, u32::MAX as nat) {
            Some(v) => Ok(CliView { simulate_loss: v as u32, ..cli }),
            None => Err(invalid_value_message(flag, value)),
        }
    } else {
        match latency_named(value) {
            Some(l) => Ok(CliView { latency: l, ..cli }),
            None => Err(bad_latency_message(value)),
        }
    }
}

/// The checks made once every argument is read.
pub open spec fn finish(cli: CliView) -> Result<ParsedView, Seq<char>> {
    if cli.host.len() == 0 {
        Err("--host is required"@)
    } else if cli.token.len() == 0 {
        Err("--token is required"@)
    } else if cli.simulate_loss > 100 {
        Err("--simulate-loss must be a percentage"@)
    } else {
        Ok(ParsedView::Run(cli))
    }
}

/// Reads the arguments from position `i` on, with the settings so far.
pub open spec fn parse_from(args: Seq<Seq<char>>, i: int, cli: CliView) -> Result<ParsedView, Seq<char>>
    decreases args.len() - i,
{
    if i < 0 || i >= args.len() {
        finish(cli)
    } else {
        let flag = args[i];
        if flag == "-h"@ || flag == "--help"@ {
            Ok(ParsedView::Help)
        } else if takes_value(flag) {
            if i + 1 >= args.len() {
                Err(requires_value_message(flag))
            } else {
                match apply(cli, flag, args[i + 1]) {
                    Ok(next) => parse_from(args, i + 2, next),
                    Err(e) => Err(e),
                }
            }
        } else {
            Err("unknown argument: "@ + flag)
        }
    }
}

pub open spec fn args_view(args: Seq<String>) -> Seq<Seq<char>> {
    args.map_values(|a: String| a@)
}

pub open spec fn outcome_matches(r: Result<Parsed, String>, s: Result<ParsedView, Seq<char>>) -> bool {
    match (r, s) {
        (Ok(p), Ok(v)) => parsed_view(p) == v,
        (Err(e), Err(m)) => e@ == m,
        _ => false,
    }
}

fn copy_string(s: &str) -> (r: String)
    ensures
        r@ == s@,
{
    string_from(chars_of(s).as_slice())
}

/// Reads the receiver's arguments, program name excluded. `default_name` is
/// what `--name` falls back to: the host's name.
pub fn parse(args: &[String], default_name: String) -> (r: Result<Parsed, String>)
    ensures
        outcome_matches(r, parse_from(args_view(args@), 0, default_view(default_name@))),
{
    let mut cli = Cli {
        host: String::new(),
        control_port: config::DEFAULT_CONTROL_PORT,
        token: String::new(),
        name: default_name,
        sink: None,
        sink_latency_ms: 20,
        run_for_secs: None,
        simulate_loss: 0,
        latency: Latency::Balanced,
    };
    let ghost all = args_view(args@);
    let mut i: usize = 0;
    while i < args.len()
        invariant
            all == args_view(args@),
            i <= args@.len(),
            parse_from(all, 0, default_view(default_name@)) == parse_from(all, i as int, cli.view()),
        decreases args@.len() - i,
    {
        let flag = args[i].as_str();
        assert(flag@ == all[i as int]);
        if same_text(flag, "-h") || same_text(flag, "--help") {
            return Ok(Parsed::Help);
        }
        let known = same_text(flag, "--host") || same_text(flag, "--token") || same_text(flag, "--name")
            || same_text(flag, "--sink") || same_text(flag, "--control-port") || same_text(
            flag,
            "--sink-latency",
        ) || same_text(flag, "--run-for") || same_text(flag, "--simulate-loss") || same_text(
            flag,
            "--latency",
        );
        if !known {
            return Err(message("unknown argument: ", flag));
        }
        if i + 1 >= args.len() {
            return Err(message(flag, " requires a value"));
        }
        let value = args[i + 1].as_str();
        assert(value@ == all[i + 1]);
        if same_text(flag, "--host") {
            cli.host = copy_string(value);
        } else if same_text(flag, "--token") {
            cli.token = copy_string(value);
        } else if same_text(flag, "--name") {
            cli.name = copy_string(value);
        } else if same_text(flag, "--sink") {
            cli.sink = Some(copy_string(value));
        } else if same_text(flag, "--control-port") {
            match parse_unsigned(value, u16::MAX as u64) {
                Some(v) => cli.control_port = v as u16,
                None => {
                    return Err(with_quoted(message(flag, ": invalid value "), value));
                },
            }
        } else if same_text(flag, "--sink-latency") {
            match parse_unsigned(value, u32::MAX as u64) {
                Some(v) => cli.sink_latency_ms = v as u32,
                None => {
                    return Err(with_quoted(message(flag, ": invalid value "), value));
                },
            }
        } else if same_text(flag, "--run-for") {
            match parse_unsigned(value, u64::MAX) {
                Some(v) => cli.run_for_secs = Some(v),
                None => {
                    return Err(with_quoted(message(flag, ": invalid value "), value));
                },
            }
        } else if same_text(flag, "--simulate-loss") {
            match parse_unsigned(value, u32::MAX as u64) {
                Some(v) => cli.simulate_loss = v as u32,
                None => {
                    return Err(with_quoted(message(flag, ": invalid value "), value));
                },
            }
        } else {
            match Latency::parse(value) {
                Some(l) => cli.latency = l,
                None => {
                    return Err(
                        with_quoted(
                            copy_string("--latency: expected low, balanced or stable, got "),
                            value,
                        ),
                    );
                },
            }
        }
        i += 2;
    }

    if cli.host.as_str().is_empty() {
        return Err(copy_string("--host is required"));
    }
    if cli.token.as_str().is_empty() {
        return Err(copy_string("--token is required"));
    }
    if cli.simulate_loss > 100 {
        return Err(copy_string("--simulate-loss must be a percentage"));
    }
    Ok(Parsed::Run(cli))
}

} // verus!
