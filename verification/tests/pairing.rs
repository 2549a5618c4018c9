use ausha::pairing::{link, qr};

#[test]
fn builds_a_link_the_app_can_parse() {
    let link = link("192.168.1.5", 6996, "abc123", "my desktop");
    assert_eq!(link, "ausha://192.168.1.5:6996?token=abc123&name=my%20desktop");
}

#[test]
fn renders_square_and_quiet_zoned_for_a_terminal() {
    // Not on a terminal, as under the test harness: no colour codes.
    let rendered = qr("ausha://10.0.0.1:6996?token=deadbeef", false).expect("qr");
    let rows: Vec<&str> = rendered.lines().collect();
    assert!(rows.len() > 10, "should be a block of rows");

    // Two modules per row of characters, plus the quiet zone on each side.
    let width = rows[0].chars().filter(|c| !c.is_ascii_control()).count();
    assert!(width > rows.len(), "cells are taller than wide, so rows < columns");
}

#[test]
fn names_are_percent_escaped() {
    assert_eq!(
        link("10.0.0.2", 7000, "t", "Kim's PC/2"),
        "ausha://10.0.0.2:7000?token=t&name=Kim%27s%20PC%2F2"
    );
    assert_eq!(link("h", 1, "t", "a-b_c.d~"), "ausha://h:1?token=t&name=a-b_c.d~");
}

#[test]
fn a_terminal_gets_black_on_white_rows() {
    let plain = qr("ausha://10.0.0.1:6996?token=deadbeef", false).expect("qr");
    let colored = qr("ausha://10.0.0.1:6996?token=deadbeef", true).expect("qr");
    let rows: Vec<&str> = colored.split('\n').collect();
    assert_eq!(rows.len(), plain.lines().count());
    for (row, line) in rows.iter().zip(plain.lines()) {
        assert_eq!(*row, format!("\x1b[30;47m{line}\x1b[0m"));
    }
}
