use conf_service::number::parse_port;

#[test]
fn parse_port_reads_decimal() {
    assert_eq!(parse_port("0"), Some(0));
    assert_eq!(parse_port("11"), Some(11));
    assert_eq!(parse_port("14200"), Some(14200));
    assert_eq!(parse_port("65535"), Some(65535));
}

#[test]
fn parse_port_takes_plus_sign_and_leading_zeros() {
    assert_eq!(parse_port("+11"), Some(11));
    assert_eq!(parse_port("+0"), Some(0));
    assert_eq!(parse_port("00011"), Some(11));
    assert_eq!(parse_port("000000000000000000000000065535"), Some(65535));
}

#[test]
fn parse_port_refuses_what_is_no_port() {
    for bad in [
        "", "+", "++1", "-", "-0", "-1", "65536", "99999", "4294967296", "1 ", " 1", "1_0", "a",
        "1a", "0x10", "1.5", "١١", "1+",
    ] {
        assert_eq!(parse_port(bad), None, "{:?}", bad);
    }
}

#[test]
fn parse_port_agrees_with_std() {
    for text in ["0", "7", "+7", "007", "65535", "65536", "655350", "", "+", "-7", "７", "7\n"] {
        assert_eq!(parse_port(text), text.parse::<u16>().ok(), "{:?}", text);
    }
}
