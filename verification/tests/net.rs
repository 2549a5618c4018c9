use ausha::net::Endpoint;

fn shown(e: &Endpoint) -> String {
    let mut s = String::new();
    e.push_to(&mut s);
    s
}

#[test]
fn addresses_display_like_socket_addresses() {
    let v4 = Endpoint { ip: "192.168.1.2".to_string(), port: 6997, is_ipv6: false };
    assert_eq!(shown(&v4), "192.168.1.2:6997");
    let v6 = Endpoint { ip: "fe80::1".to_string(), port: 80, is_ipv6: true };
    assert_eq!(shown(&v6), "[fe80::1]:80");
}
