use com_notifier::text::{decimal_text, split};

#[test]
fn split_keeps_empty_pieces() {
    for s in ["", "/", "a", "a/b", "/a//b/", "комп/порт", "😀/"] {
        let expected: Vec<String> = s.split('/').map(|p| p.to_string()).collect();
        assert_eq!(split(s, '/'), expected);
        assert_eq!(split(s, '/').join("/"), s);
    }
}

#[test]
fn decimal_has_no_leading_zeros() {
    assert_eq!(decimal_text(0), "0");
    assert_eq!(decimal_text(9), "9");
    assert_eq!(decimal_text(10), "10");
    assert_eq!(decimal_text(1410), "1410");
    assert_eq!(decimal_text(u32::MAX), "4294967295");
}
