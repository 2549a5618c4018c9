use ausha::ids::{format_token, random_ssrc, random_token, ssrc_from, token_from, tokens_match};

#[test]
fn a_token_is_twelve_lower_case_hex_digits() {
    let token = random_token().unwrap();
    assert_eq!(token.len(), 12);
    assert!(token.chars().all(|c| c.is_ascii_hexdigit() && !c.is_ascii_uppercase()));
    assert_eq!(token_from(0xffff_c838_87a9_3b03), "c83887a93b03");
}

#[test]
fn an_ssrc_is_odd_and_below_the_top_bit() {
    for _ in 0..100 {
        let ssrc = random_ssrc().unwrap();
        assert_eq!(ssrc % 2, 1);
        assert!(ssrc < 0x8000_0000);
    }
    assert_eq!(ssrc_from(0xffff_ffff_0000_0000), 1);
    assert_eq!(ssrc_from(0x1_8000_0005), 5);
}

#[test]
fn tokens_are_shown_in_groups_of_four() {
    assert_eq!(format_token("c83887a93b03"), "c838-87a9-3b03");
    assert_eq!(format_token("abcde"), "abcd-e");
    assert_eq!(format_token(""), "");
}

#[test]
fn tokens_match_exactly() {
    assert!(tokens_match("c83887a93b03", "c83887a93b03"));
    assert!(!tokens_match("c83887a93b03", "c83887a93b04"));
    assert!(!tokens_match("c838", "c83887a93b03"));
}
