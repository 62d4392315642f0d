use monitorhop::capabilities::parse_input_codes;

/// Synthetic reply in VESA MCCS capabilities format.
const FIXTURE: &str = "(prot(monitor)type(lcd)model(34GL750)cmds(01 02 03 0C E3 F3)vcp(02 04 05 08 10 12 14(05 08 0B 0C) 16 18 1A 52 60(0F 11 12) AC AE B2 B6 C6 C8 C9 D6(01 04) DF)mswhql(1)mccs_ver(2.1))";

#[test]
fn extracts_enumerated_values_for_feature_0x60() {
    assert_eq!(parse_input_codes(FIXTURE), vec![0x0F, 0x11, 0x12]);
}

#[test]
fn returns_empty_when_feature_0x60_is_not_enumerated() {
    let no_input_select = "(prot(monitor)type(lcd)vcp(02 04 05 08 10 12))";
    assert!(parse_input_codes(no_input_select).is_empty());
}

#[test]
fn returns_empty_when_there_is_no_vcp_group() {
    assert!(parse_input_codes("(prot(monitor)type(lcd))").is_empty());
}

#[test]
fn empty_reply_yields_nothing() {
    assert!(parse_input_codes("").is_empty());
}

#[test]
fn feature_code_with_leading_zeros_and_lowercase_values() {
    assert_eq!(parse_input_codes("vcp(060(0f 11 1b))"), vec![0x0f, 0x11, 0x1b]);
}

#[test]
fn tokens_that_are_not_hex_bytes_are_skipped() {
    assert_eq!(parse_input_codes("vcp(60(0F zz 100 +11 12))"), vec![0x0F, 0x11, 0x12]);
}

#[test]
fn scan_stops_where_the_vcp_group_closes() {
    assert!(parse_input_codes("vcp(02 04) 60(0F 11)").is_empty());
}

#[test]
fn only_the_first_vcp_group_is_read() {
    assert!(parse_input_codes("vcp(02) vcp(60(11))").is_empty());
}

#[test]
fn whitespace_of_any_kind_separates_values() {
    assert_eq!(parse_input_codes("vcp(60(0F\t11\n12\u{a0}13))"), vec![0x0F, 0x11, 0x12, 0x13]);
}

#[test]
fn unclosed_group_keeps_what_was_read() {
    assert_eq!(parse_input_codes("vcp(60(0F 11"), vec![0x0F]);
}

#[test]
fn every_byte_listed_after_a_0x60_parenthesis_is_collected() {
    assert_eq!(parse_input_codes("vcp(02 60(0F 11) 14(60(05)))"), vec![0x0F, 0x11, 0x05]);
}
