use balancebeam::bytes::{append_bytes, bytes_eq, copy_bytes};
use balancebeam::pmap::Mynum;
use balancebeam::util::align_addr_to_word;

#[test]
fn align_rounds_down() {
    assert_eq!(align_addr_to_word(13), 8);
    assert_eq!(align_addr_to_word(8), 8);
    assert_eq!(align_addr_to_word(7), 0);
    assert_eq!(align_addr_to_word(0), 0);
}

#[test]
fn mynum_tags_a_value() {
    let m = Mynum::new(4, "x");
    assert_eq!(m.index, 4);
    assert_eq!(m.value, "x");
}

#[test]
fn byte_helpers() {
    let a = b"abc".to_vec();
    let b = b"abc".to_vec();
    let c = b"abd".to_vec();
    let d = b"ab".to_vec();
    assert!(bytes_eq(&a, &b));
    assert!(!bytes_eq(&a, &c));
    assert!(!bytes_eq(&a, &d));
    assert_eq!(copy_bytes(&a), a);
    let mut buf = b"ab".to_vec();
    append_bytes(&mut buf, &b"cd".to_vec());
    assert_eq!(buf, b"abcd".to_vec());
}
