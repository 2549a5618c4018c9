use ausha::net::Endpoint;
use ausha::pipeline::Latency;
use ausha::{receiver_cli, sender_cli};

fn args(list: &[&str]) -> Vec<String> {
    list.iter().map(|s| s.to_string()).collect()
}

fn receiver(list: &[&str]) -> Result<receiver_cli::Parsed, String> {
    receiver_cli::parse(&args(list), "here".to_string())
}

/// What the program hands the sender's parser for each argument: the
/// argument read as a socket address, where it is one. Written out here for
/// the addresses these tests use.
fn as_socket_addr(s: &str) -> Option<Endpoint> {
    let (ip, port, is_ipv6) = match s {
        "10.0.0.9:5004" => ("10.0.0.9", 5004, false),
        "10.0.0.8:1234" => ("10.0.0.8", 1234, false),
        "[::1]:9" => ("::1", 9, true),
        _ => return None,
    };
    Some(Endpoint { ip: ip.to_string(), port, is_ipv6 })
}

fn sender(list: &[&str]) -> Result<sender_cli::Parsed, String> {
    let addrs: Vec<Option<Endpoint>> = list.iter().map(|s| as_socket_addr(s)).collect();
    sender_cli::parse(&args(list), &addrs, "desk".to_string())
}

#[test]
fn the_receiver_needs_a_host_and_a_token() {
    let cli = match receiver(&["--host", "10.0.0.1", "--token", "abc"]) {
        Ok(receiver_cli::Parsed::Run(cli)) => cli,
        _ => panic!("should run"),
    };
    assert_eq!(cli.host, "10.0.0.1");
    assert_eq!(cli.token, "abc");
    assert_eq!(cli.control_port, 6996);
    assert_eq!(cli.name, "here");
    assert_eq!(cli.sink_latency_ms, 20);
    assert!(cli.sink.is_none());
    assert!(cli.run_for_secs.is_none());
    assert_eq!(cli.latency, Latency::Balanced);
    assert_eq!(receiver(&["--token", "abc"]).err().unwrap(), "--host is required");
    assert_eq!(receiver(&["--host", "h"]).err().unwrap(), "--token is required");
}

#[test]
fn the_receiver_reads_every_option() {
    let cli = match receiver(&[
        "--host", "h", "--token", "t", "--control-port", "7000", "--name", "n", "--sink", "null",
        "--sink-latency", "40", "--run-for", "60", "--latency", "Stable", "--simulate-loss", "10",
    ]) {
        Ok(receiver_cli::Parsed::Run(cli)) => cli,
        _ => panic!("should run"),
    };
    assert_eq!(cli.control_port, 7000);
    assert_eq!(cli.name, "n");
    assert_eq!(cli.sink.as_deref(), Some("null"));
    assert_eq!(cli.sink_latency_ms, 40);
    assert_eq!(cli.run_for_secs, Some(60));
    assert_eq!(cli.latency, Latency::Stable);
    assert_eq!(cli.simulate_loss, 10);
}

#[test]
fn the_receiver_explains_what_it_refuses() {
    assert!(matches!(receiver(&["--bogus", "-h"]), Err(ref e) if e == "unknown argument: --bogus"));
    assert!(matches!(receiver(&["-h", "--bogus"]), Ok(receiver_cli::Parsed::Help)));
    assert_eq!(receiver(&["--host"]).err().unwrap(), "--host requires a value");
    assert_eq!(
        receiver(&["--control-port", "70000"]).err().unwrap(),
        "--control-port: invalid value \"70000\""
    );
    assert_eq!(
        receiver(&["--latency", "fast"]).err().unwrap(),
        "--latency: expected low, balanced or stable, got \"fast\""
    );
    assert_eq!(
        receiver(&["--host", "h", "--token", "t", "--simulate-loss", "101"]).err().unwrap(),
        "--simulate-loss must be a percentage"
    );
}

#[test]
fn the_sender_has_defaults() {
    let cli = match sender(&[]) {
        Ok(sender_cli::Parsed::Run(cli)) => cli,
        _ => panic!("should run"),
    };
    assert_eq!(cli.control_port, 6996);
    assert_eq!(cli.media_port, 6997);
    assert_eq!(cli.bitrate_kbps, 128);
    assert!(cli.token.is_none());
    assert!(cli.static_client.is_none());
    assert!(cli.compat_ts.is_empty());
    assert_eq!(cli.name, "desk");
    assert!(!cli.no_discovery && !cli.no_qr);
}

#[test]
fn the_sender_reads_every_option() {
    let cli = match sender(&[
        "--control-port", "1", "--media-port", "2", "--bitrate", "64", "--token", "t",
        "--static-client", "10.0.0.9:5004", "--sdp-out", "/tmp/a.sdp", "--compat-ts",
        "10.0.0.8:1234", "--compat-ts", "[::1]:9", "--name", "n", "--no-discovery", "--no-qr",
    ]) {
        Ok(sender_cli::Parsed::Run(cli)) => cli,
        _ => panic!("should run"),
    };
    assert_eq!((cli.control_port, cli.media_port, cli.bitrate_kbps), (1, 2, 64));
    assert_eq!(cli.token.as_deref(), Some("t"));
    let client = cli.static_client.unwrap();
    assert_eq!((client.ip.as_str(), client.port), ("10.0.0.9", 5004));
    assert_eq!(cli.sdp_out.as_deref(), Some("/tmp/a.sdp"));
    assert_eq!(cli.compat_ts.len(), 2);
    assert!(cli.compat_ts[1].is_ipv6);
    assert_eq!(cli.name, "n");
    assert!(cli.no_discovery && cli.no_qr);
}

#[test]
fn the_sender_explains_what_it_refuses() {
    assert_eq!(
        sender(&["--sdp-out", "x"]).err().unwrap(),
        "--sdp-out requires --static-client"
    );
    assert_eq!(
        sender(&["--static-client", "nowhere"]).err().unwrap(),
        "--static-client: invalid value \"nowhere\""
    );
    assert_eq!(sender(&["--bitrate"]).err().unwrap(), "--bitrate requires a value");
    assert_eq!(sender(&["--verbose"]).err().unwrap(), "unknown argument: --verbose");
    assert!(matches!(sender(&["--help"]), Ok(sender_cli::Parsed::Help)));
}
