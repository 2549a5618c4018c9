//! The sender's command line.
//!
//! Reading the arguments and the host name, parsing socket addresses,
//! printing, and exiting belong to the program; what the arguments mean is
//! decided here.

use vstd::prelude::*;

use crate::config;
use crate::net::Endpoint;
use crate::numbers::{parse_unsigned, unsigned_value};
use crate::text::{debug_quoted, debug_string, push_str, same_text};

verus! {

pub struct Cli {
    pub control_port: u16,
    pub media_port: u16,
    pub bitrate_kbps: u32,
    pub token: Option<String>,
    pub static_client: Option<Endpoint>,
    pub sdp_out: Option<String>,
    pub compat_ts: Vec<Endpoint>,
    pub name: String,
    pub no_discovery: bool,
    pub no_qr: bool,
}

pub enum Parsed {
    /// Print the usage and stop.
    Help,
    Run(Cli),
}

pub type Addr = (Seq<char>, u16, bool);

/// The settings as plain values.
pub struct CliView {
    pub control_port: u16,
    pub media_port: u16,
    pub bitrate_kbps: u32,
    pub token: Option<Seq<char>>,
    pub static_client: Option<Addr>,
    pub sdp_out: Option<Seq<char>>,
    pub compat_ts: Seq<Addr>,
    pub name: Seq<char>,
    pub no_discovery: bool,
    pub no_qr: bool,
}

pub enum ParsedView {
    Help,
    Run(CliView),
}

pub open spec fn text_of(s: Option<String>) -> Option<Seq<char>> {
    match s {
        Some(t) => Some(t@),
        None => None,
    }
}

pub open spec fn addr_of(e: Option<Endpoint>) -> Option<Addr> {
    match e {
        Some(a) => Some(a.addr()),
        None => None,
    }
}

impl Cli {
    pub open spec fn view(self) -> CliView {
        CliView {
            control_port: self.control_port,
            media_port: self.media_port,
            bitrate_kbps: self.bitrate_kbps,
            token: text_of(self.token),
            static_client: addr_of(self.static_client),
            sdp_out: text_of(self.sdp_out),
            compat_ts: self.compat_ts@.map_values(|e: Endpoint| e.addr()),
            name: self.name@,
            no_discovery: self.no_discovery,
            no_qr: self.no_qr,
        }
    }
}

pub open spec fn parsed_view(p: Parsed) -> ParsedView {
    match p {
        Parsed::Help => ParsedView::Help,
        Parsed::Run(c) => ParsedView::Run(c.view()),
    }
}

pub const USAGE: &'static str = "\
ausha - stream desktop audio to receivers on the local network

Usage: ausha [options]

Options:
  --control-port <port>   TCP control channel port (default 6996)
  --media-port <port>     UDP media port receivers punch and listen on (default 6997)
  --bitrate <kbps>        Opus bitrate (default 128)
  --token <token>         Fixed pairing token instead of a freshly generated one
  --static-client <addr>  Always send media to this ip:port, no handshake required
  --sdp-out <path>        Write an SDP for --static-client, playable with ffplay
  --compat-ts <ip:port>   Also push MPEG-TS to this address for mpv or VLC.
                          Repeatable. No pairing needed, so only use it on a
                          network you trust. Play it with:
                            mpv udp://0.0.0.0:<port>
  --name <name>           Name advertised to receivers (default this host)
  --no-discovery          Do not advertise over mDNS
  --no-qr                 Do not print the pairing QR code
  -h, --help              Show this message
";

pub open spec fn default_view(name: Seq<char>) -> CliView {
    CliView {
        control_port: config::DEFAULT_CONTROL_PORT,
        media_port: config::DEFAULT_MEDIA_PORT,
        bitrate_kbps: config::DEFAULT_BITRATE_KBPS,
        token: None,
        static_client: None,
        sdp_out: None,
        compat_ts: Seq::empty(),
        name,
        no_discovery: false,
        no_qr: false,
    }
}

pub open spec fn takes_value(flag: Seq<char>) -> bool {
    flag == "--control-port"@ || flag == "--media-port"@ || flag == "--bitrate"@ || flag
        == "--token"@ || flag == "--static-client"@ || flag == "--sdp-out"@ || flag
        == "--compat-ts"@ || flag == "--name"@
}

pub open spec fn invalid_value_message(flag: Seq<char>, value: Seq<char>) -> Seq<char> {
    flag + ": invalid value "@ + debug_quoted(value)
}

/// The settings once a flag's value is applied, or the message refusing it.
/// `addr` is what the value reads as when taken for a socket address.
pub open spec fn apply(cli: CliView, flag: Seq<char>, value: Seq<char>, addr: Option<Addr>) -> Result<CliView, Seq<char>> {
    if flag == "--control-port"@ {
        match unsigned_value(value, u16::MAX as nat) {
            Some(v) => Ok(CliView { control_port: v as u16, ..cli }),
            None => Err(invalid_value_message(flag, value)),
        }
    } else if flag == "--media-port"@ {
        match unsigned_value(value, u16::MAX as nat) {
            Some(v) => Ok(CliView { media_port: v as u16, ..cli }),
            None => Err(invalid_value_message(flag, value)),
        }
    } else if flag == "--bitrate"@ {
        match unsigned_value(value, u32::MAX as nat) {
            Some(v) => Ok(CliView { bitrate_kbps: v as u32, ..cli }),
            None => Err(invalid_value_message(flag, value)),
        }
    } else if flag == "--token"@ {
        Ok(CliView { token: Some(value), ..cli })
    } else if flag == "--static-client"@ {
        match addr {
            Some(a) => Ok(CliView { static_client: Some(a), ..cli }),
            None => Err(invalid_value_message(flag, value)),
        }
    } else if flag == "--sdp-out"@ {
        Ok(CliView { sdp_out: Some(value), ..cli })
    } else if flag == "--compat-ts"@ {
        match addr {
            Some(a) => Ok(CliView { compat_ts: cli.compat_ts.push(a), ..cli }),
            None => Err(invalid_value_message(flag, value)),
        }
    } else {
        Ok(CliView { name: value, ..cli })
    }
}

pub open spec fn finish(cli: CliView) -> Result<ParsedView, Seq<char>> {
    if cli.sdp_out is Some && cli.static_client is None {
        Err("--sdp-out requires --static-client"@)
    } else {
        Ok(ParsedView::Run(cli))
    }
}

/// Reads the arguments from position `i` on, with the settings so far.
/// `addrs[k]` is what argument `k` reads as when taken for a socket address.
pub open spec fn parse_from(args: Seq<Seq<char>>, addrs: Seq<Option<Addr>>, i: int, cli: CliView) -> Result<ParsedView, Seq<char>>
    decreases args.len() - i,
{
    if i < 0 || i >= args.len() {
        finish(cli)
    } else {
        let flag = args[i];
        if flag == "-h"@ || flag == "--help"@ {
            Ok(ParsedView::Help)
        } else if flag == "--no-discovery"@ {
            parse_from(args, addrs, i + 1, CliView { no_discovery: true, ..cli })
        } else if flag == "--no-qr"@ {
            parse_from(args, addrs, i + 1, CliView { no_qr: true, ..cli })
        } else if takes_value(flag) {
            if i + 1 >= args.len() {
                Err(flag + " requires a value"@)
            } else {
                match apply(cli, flag, args[i + 1], addrs[i + 1]) {
                    Ok(next) => parse_from(args, addrs, i + 2, next),
                    Err(e) => Err(e),
                }
            }
        } else {
            Err("unknown argument: "@ + flag)
        }
    }
}

pub open spec fn args_view(args: Seq<String>) -> Seq<Seq<char>> {
    args.map_values(|a: String| a@)
}

pub open spec fn addrs_view(addrs: Seq<Option<Endpoint>>) -> Seq<Option<Addr>> {
    addrs.map_values(|e: Option<Endpoint>| addr_of(e))
}

pub open spec fn outcome_matches(r: Result<Parsed, String>, s: Result<ParsedView, Seq<char>>) -> bool {
    match (r, s) {
        (Ok(p), Ok(v)) => parsed_view(p) == v,
        (Err(e), Err(m)) => e@ == m,
        _ => false,
    }
}

fn message(prefix: &str, text: &str) -> (r: String)
    ensures
        r@ == prefix@ + text@,
{
    let mut out = prefix.to_owned();
    push_str(&mut out, text);
    out
}

fn invalid_value(flag: &str, value: &str) -> (r: String)
    ensures
        r@ == invalid_value_message(flag@, value@),
{
    let mut out = message(flag, ": invalid value ");
    let quoted = debug_string(value);
    push_str(&mut out, quoted.as_str());
    out
}

fn clone_endpoint(e: &Option<Endpoint>) -> (r: Option<Endpoint>)
    ensures
        addr_of(r) == addr_of(*e),
{
    match e {
        Some(a) => Some(a.clone()),
        None => None,
    }
}

/// Reads the sender's arguments, program name excluded. `default_name` is
/// what `--name` falls back to, the host's name, and `addrs[k]` is argument
/// `k` parsed as a socket address (`None` where it is not one).
pub fn parse(args: &[String], addrs: &[Option<Endpoint>], default_name: String) -> (r: Result<Parsed, String>)
    requires
        addrs@.len() == args@.len(),
    ensures
        outcome_matches(
            r,
            parse_from(args_view(args@), addrs_view(addrs@), 0, default_view(default_name@)),
        ),
{
    let mut cli = Cli {
        control_port: config::DEFAULT_CONTROL_PORT,
        media_port: config::DEFAULT_MEDIA_PORT,
        bitrate_kbps: config::DEFAULT_BITRATE_KBPS,
        token: None,
        static_client: None,
        sdp_out: None,
        compat_ts: Vec::new(),
        name: default_name,
        no_discovery: false,
        no_qr: false,
    };
    let ghost all = args_view(args@);
    let ghost parsed = addrs_view(addrs@);
    assert(cli.view().compat_ts =~= Seq::<Addr>::empty());
    let mut i: usize = 0;
    while i < args.len()
        invariant
            all == args_view(args@),
            parsed == addrs_view(addrs@),
            addrs@.len() == args@.len(),
            i <= args@.len(),
            parse_from(all, parsed, 0, default_view(default_name@)) == parse_from(
                all,
                parsed,
                i as int,
                cli.view(),
            ),
        decreases args@.len() - i,
    {
        let flag = args[i].as_str();
        assert(flag@ == all[i as int]);
        if same_text(flag, "-h") || same_text(flag, "--help") {
            return Ok(Parsed::Help);
        }
        if same_text(flag, "--no-discovery") {
            cli.no_discovery = true;
            i += 1;
            continue;
        }
        if same_text(flag, "--no-qr") {
            cli.no_qr = true;
            i += 1;
            continue;
        }
        let known = same_text(flag, "--control-port") || same_text(flag, "--media-port")
            || same_text(flag, "--bitrate") || same_text(flag, "--token") || same_text(
            flag,
            "--static-client",
        ) || same_text(flag, "--sdp-out") || same_text(flag, "--compat-ts") || same_text(
            flag,
            "--name",
        );
        if !known {
            return Err(message("unknown argument: ", flag));
        }
        if i + 1 >= args.len() {
            return Err(message(flag, " requires a value"));
        }
        let value = args[i + 1].as_str();
        assert(value@ == all[i + 1]);
        assert(parsed[i + 1] == addr_of(addrs@[i + 1]));
        if same_text(flag, "--control-port") {
            match parse_unsigned(value, u16::MAX as u64) {
                Some(v) => cli.control_port = v as u16,
                None => {
                    return Err(invalid_value(flag, value));
                },
            }
        } else if same_text(flag, "--media-port") {
            match parse_unsigned(value, u16::MAX as u64) {
                Some(v) => cli.media_port = v as u16,
                None => {
                    return Err(invalid_value(flag, value));
                },
            }
        } else if same_text(flag, "--bitrate") {
            match parse_unsigned(value, u32::MAX as u64) {
                Some(v) => cli.bitrate_kbps = v as u32,
                None => {
                    return Err(invalid_value(flag, value));
                },
            }
        } else if same_text(flag, "--token") {
            cli.token = Some(value.to_owned());
        } else if same_text(flag, "--static-client") {
            match clone_endpoint(&addrs[i + 1]) {
                Some(a) => cli.static_client = Some(a),
                None => {
                    return Err(invalid_value(flag, value));
                },
            }
        } else if same_text(flag, "--sdp-out") {
            cli.sdp_out = Some(value.to_owned());
        } else if same_text(flag, "--compat-ts") {
            match clone_endpoint(&addrs[i + 1]) {
                Some(a) => {
                    let ghost before = cli.compat_ts@;
                    let ghost a_view = a.addr();
                    cli.compat_ts.push(a);
                    assert(cli.compat_ts@.map_values(|e: Endpoint| e.addr()) =~= before.map_values(
                        |e: Endpoint| e.addr(),
                    ).push(a_view));
                },
                None => {
                    return Err(invalid_value(flag, value));
                },
            }
        } else {
            cli.name = value.to_owned();
        }
        i += 2;
    }
    if cli.sdp_out.is_some() && cli.static_client.is_none() {
        return Err("--sdp-out requires --static-client".to_owned());
    }
    Ok(Parsed::Run(cli))
}

} // verus!
