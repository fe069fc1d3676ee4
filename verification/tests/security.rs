use cloak::security::ProtectedBuffer;

#[test]
fn protected_buffer_holds_and_wipes() {
    let mut b = ProtectedBuffer(vec![1, 2, 3]);
    assert_eq!(b.as_bytes(), &[1, 2, 3]);
    let c = b.clone();
    b.wipe();
    assert!(b.as_bytes().is_empty());
    assert_eq!(c.0, vec![1, 2, 3]);
}
