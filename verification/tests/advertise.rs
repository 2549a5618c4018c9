use ausha::advertise::{hostname_from, route_source, service_host, service_properties, SERVICE_TYPE};

#[test]
fn the_route_to_the_internet_names_the_local_address() {
    let output = b"1.1.1.1 via 192.168.1.1 dev wlan0 src 192.168.1.23 uid 1000 \n    cache \n";
    assert_eq!(route_source(output), Some("192.168.1.23".to_string()));
}

#[test]
fn no_source_no_address() {
    assert_eq!(route_source(b"unreachable\n"), None);
    assert_eq!(route_source(b"1.1.1.1 dev lo src"), None);
}

#[test]
fn the_host_name_falls_back_when_unreadable_or_empty() {
    assert_eq!(hostname_from(Some("studio\n".to_string())), "studio");
    assert_eq!(hostname_from(Some("  \n".to_string())), "ausha");
    assert_eq!(hostname_from(None), "ausha");
}

#[test]
fn the_announcement_describes_the_stream() {
    assert_eq!(SERVICE_TYPE, "_ausha._tcp.local.");
    assert_eq!(service_host("studio"), "studio.local.");
    let properties = service_properties(96);
    let expected = [("ver", "1"), ("codec", "opus"), ("rate", "48000"), ("channels", "2"), ("bitrate", "96")];
    assert_eq!(properties.len(), expected.len());
    for ((k, v), (ek, ev)) in properties.iter().zip(expected) {
        assert_eq!((k.as_str(), v.as_str()), (ek, ev));
    }
}
