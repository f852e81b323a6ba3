use flow_control::codec::{decode_enrollment_ticket, parse_flow_id, TicketError};
use flow_control::registry::FlowControlId;

#[test]
fn ticket_hex_is_decoded() {
    // "7b7d" is the hex image of "{}"
    let input = b"7b7d".to_vec();
    assert_eq!(decode_enrollment_ticket(&input), Ok(b"{}".to_vec()));
}

#[test]
fn ticket_decoding_matches_by_hand() {
    let input = b"00ff10Ab".to_vec();
    assert_eq!(
        decode_enrollment_ticket(&input),
        Ok(vec![0x00, 0xff, 0x10, 0xab])
    );
}

#[test]
fn odd_length_ticket_is_rejected() {
    let input = b"abc".to_vec();
    assert_eq!(
        decode_enrollment_ticket(&input),
        Err(TicketError::DecodeFailed)
    );
}

#[test]
fn non_hex_ticket_is_rejected() {
    let input = b"zz00".to_vec();
    assert_eq!(
        decode_enrollment_ticket(&input),
        Err(TicketError::DecodeFailed)
    );
}

#[test]
fn empty_ticket_decodes_to_nothing() {
    let input = Vec::new();
    assert_eq!(decode_enrollment_ticket(&input), Ok(Vec::new()));
}

#[test]
fn flow_id_text_is_parsed() {
    let text = b"00000000000000ff".to_vec();
    assert_eq!(parse_flow_id(&text), Some(FlowControlId::new(255)));
    let text = b"0123456789abcdef".to_vec();
    assert_eq!(
        parse_flow_id(&text),
        Some(FlowControlId::new(0x0123456789abcdef))
    );
}

#[test]
fn largest_flow_id_is_parsed() {
    let text = b"ffffffffffffffff".to_vec();
    assert_eq!(parse_flow_id(&text), Some(FlowControlId::new(u64::MAX)));
}

#[test]
fn short_flow_id_text_is_rejected() {
    let text = b"00ff".to_vec();
    assert_eq!(parse_flow_id(&text), None);
}

#[test]
fn malformed_flow_id_text_is_rejected() {
    let text = b"000000000000000g".to_vec();
    assert_eq!(parse_flow_id(&text), None);
}
