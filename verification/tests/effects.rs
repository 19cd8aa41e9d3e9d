use raxis::effects::parse_clsid;

#[test]
fn test_parse_clsid() {
    let clsid = "A1B2C3D4-E5F6-7890-ABCD-EF1234567890";
    let result = parse_clsid(clsid);
    assert!(result.is_ok());
}
