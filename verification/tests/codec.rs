//! Framing and decoding: commands, line splitting, register matching,
//! payload parsing.

use waterrower::catalog::{
    catalog, cmd_model_info, cmd_start, cmd_stop, frame_command, query_command, response_prefix,
    RegisterId, NUM_REGISTERS,
};
use waterrower::frames::{ingest_response, match_register, split_lines, RawValueMap};
use waterrower::parse::{parse_pace, parse_u32_radix};

#[test]
fn commands_are_protocol_text() {
    assert_eq!(cmd_start(), b"USB".to_vec());
    assert_eq!(cmd_stop(), b"EXIT".to_vec());
    assert_eq!(cmd_model_info(), b"IV?".to_vec());
    assert_eq!(frame_command(&cmd_start()), b"USB\n".to_vec());
}

#[test]
fn catalog_queries_and_prefixes() {
    let cat = catalog();
    assert_eq!(cat.len(), NUM_REGISTERS);
    assert_eq!(cat[0], RegisterId::DisplaySeconds);
    assert_eq!(query_command(RegisterId::DisplaySeconds), b"IRS1E1".to_vec());
    assert_eq!(query_command(RegisterId::Distance), b"IRD055".to_vec());
    assert_eq!(query_command(RegisterId::SecondsPer500mZone), b"IRD1A5".to_vec());
    assert_eq!(response_prefix(RegisterId::DisplaySeconds), b"IDS1E1".to_vec());
    assert_eq!(response_prefix(RegisterId::StrokeRateZone), b"IDS1A9".to_vec());
}

#[test]
fn split_lines_mirrors_str_lines() {
    let lines = split_lines(&b"A\r\nB\nC".to_vec());
    assert_eq!(lines, vec![b"A".to_vec(), b"B".to_vec(), b"C".to_vec()]);
    assert_eq!(split_lines(&b"".to_vec()), Vec::<Vec<u8>>::new());
    assert_eq!(split_lines(&b"\n\n".to_vec()), vec![b"".to_vec(), b"".to_vec()]);
    assert_eq!(split_lines(&b"X\n".to_vec()), vec![b"X".to_vec()]);
}

#[test]
fn match_register_needs_prefix_and_payload() {
    assert_eq!(match_register(&b"IDS1E105".to_vec()), Some(RegisterId::DisplaySeconds));
    assert_eq!(match_register(&b"IDD0550A".to_vec()), Some(RegisterId::Distance));
    assert_eq!(match_register(&b"IDS1E1".to_vec()), None);
    assert_eq!(match_register(&b"IDX1E105".to_vec()), None);
    assert_eq!(match_register(&b"IDD9990A".to_vec()), None);
}

#[test]
fn ingest_records_overwrites_and_counts_errors() {
    let mut raw = RawValueMap::new();
    let errors = ingest_response(&mut raw, &b"ERROR\nIDS1E105\nIDD9990A\njunk\n".to_vec());
    assert_eq!(errors, 1);
    assert_eq!(raw.get(RegisterId::DisplaySeconds), Some(&b"05".to_vec()));
    assert_eq!(raw.get(RegisterId::Distance), None);
    let errors2 = ingest_response(&mut raw, &b"IDS1E106\n".to_vec());
    assert_eq!(errors2, 0);
    assert_eq!(raw.get(RegisterId::DisplaySeconds), Some(&b"06".to_vec()));
}

#[test]
fn parse_u32_radix_decimal_and_hex() {
    assert_eq!(parse_u32_radix(&b"59".to_vec(), 10), Some(59));
    assert_eq!(parse_u32_radix(&b"119".to_vec(), 10), Some(119));
    assert_eq!(parse_u32_radix(&b"1E".to_vec(), 16), Some(30));
    assert_eq!(parse_u32_radix(&b"ff".to_vec(), 16), Some(255));
    assert_eq!(parse_u32_radix(&b"".to_vec(), 10), None);
    assert_eq!(parse_u32_radix(&b"1E".to_vec(), 10), None);
    assert_eq!(parse_u32_radix(&b"1G".to_vec(), 16), None);
    assert_eq!(parse_u32_radix(&b"4294967295".to_vec(), 10), Some(u32::MAX));
    assert_eq!(parse_u32_radix(&b"4294967296".to_vec(), 10), None);
    assert_eq!(parse_u32_radix(&b"FFFFFFFFF".to_vec(), 16), None);
}

#[test]
fn pace_decode_example() {
    assert_eq!(parse_pace(&b"0A01".to_vec()), Some(0x0A + 256 * 0x01));
    assert_eq!(parse_pace(&b"0A01".to_vec()), Some(266));
    assert_eq!(parse_pace(&b"9600".to_vec()), Some(150));
    // characters past the fourth are ignored, as the register slicing does
    assert_eq!(parse_pace(&b"0A01FF".to_vec()), Some(266));
    assert_eq!(parse_pace(&b"0A0".to_vec()), None);
    assert_eq!(parse_pace(&b"0A0Z".to_vec()), None);
}
