use chakchat_core::PROTOCOL_VERSION;

#[test]
fn test_protocol_version() {
    assert_eq!(PROTOCOL_VERSION, 1);
}
