use object_backend::mangle::{contains_u64, copy_bytes, data_sym_name, mangle_name, push_decimal};

#[test]
fn first_specialization_keeps_the_plain_name() {
    assert_eq!(mangle_name(&b"main".to_vec(), 0), b"main".to_vec());
}

#[test]
fn later_specializations_carry_their_rank() {
    assert_eq!(mangle_name(&b"f".to_vec(), 1), b"f.1".to_vec());
    assert_eq!(mangle_name(&b"f".to_vec(), 12), b"f.12".to_vec());
    assert_eq!(mangle_name(&b"go".to_vec(), 205), b"go.205".to_vec());
}

#[test]
fn decimal_digits_most_significant_first() {
    let mut v = Vec::new();
    push_decimal(&mut v, 0);
    assert_eq!(v, b"0".to_vec());
    v.clear();
    push_decimal(&mut v, 7);
    assert_eq!(v, b"7".to_vec());
    v.clear();
    push_decimal(&mut v, 10);
    assert_eq!(v, b"10".to_vec());
    v.clear();
    push_decimal(&mut v, 90210);
    assert_eq!(v, b"90210".to_vec());
    v.clear();
    push_decimal(&mut v, u64::MAX);
    assert_eq!(v, b"18446744073709551615".to_vec());
}

#[test]
fn data_symbol_names_count_from_zero() {
    assert_eq!(data_sym_name(&b"main".to_vec(), 0), b"main.data0".to_vec());
    assert_eq!(data_sym_name(&b"main".to_vec(), 3), b"main.data3".to_vec());
}

#[test]
fn byte_copies_and_set_membership() {
    assert_eq!(copy_bytes(&b"abc".to_vec()), b"abc".to_vec());
    assert_eq!(copy_bytes(&Vec::new()), Vec::<u8>::new());
    let set = vec![3u64, 5, 8];
    assert!(contains_u64(&set, 5));
    assert!(!contains_u64(&set, 4));
    assert!(!contains_u64(&Vec::new(), 4));
}
