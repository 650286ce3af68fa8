use macp::MACP_VERSION;

#[test]
fn macp_version_value() {
    assert_eq!(MACP_VERSION, "1.0");
}
