use channel_cycle::node_id::{parse_node_id, NodeIdError};

#[test]
fn parses_mixed_case_hex() {
    assert_eq!(parse_node_id("0aF1ff"), Ok(vec![0x0a, 0xf1, 0xff]));
    assert_eq!(
        parse_node_id("02eec7245d6b7d2ccb30380bfbe2a3648cd7a942653f5aa340edcea1f283686619").unwrap().len(),
        33
    );
}

#[test]
fn empty_text_is_empty_id() {
    assert_eq!(parse_node_id(""), Ok(vec![]));
}

#[test]
fn rejects_odd_length_and_non_hex() {
    assert_eq!(parse_node_id("abc"), Err(NodeIdError::NotHex));
    assert_eq!(parse_node_id("0g"), Err(NodeIdError::NotHex));
    assert_eq!(parse_node_id("\u{e9}1"), Err(NodeIdError::NotHex));
    assert_eq!(parse_node_id(" 0a"), Err(NodeIdError::NotHex));
}
