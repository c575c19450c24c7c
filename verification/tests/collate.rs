use byteserde::codegen::common::collate_errors;
use byteserde::codegen::struct_shared::{des_endian_method_xx, endian_attr, ser_endian_method_xx, Endian};

#[test]
fn test_collate_errors() {
    let field_errors = vec![vec!["a".to_string(), "b".to_string()], vec!["c".to_string(), "d".to_string()], vec![]];
    println!("field_errors: {:?}", field_errors);
    let result = collate_errors(field_errors);
    assert!(result.is_some());
    let msg = result.unwrap();
    println!("result: \n{}", msg);
    assert_eq!(msg, "a\nb\nc\nd");

    let field_errors: Vec<Vec<String>> = vec![vec![], vec![]];
    let result = collate_errors(field_errors);
    assert_eq!(result, None);
}

#[test]
fn collate_errors_skips_empty_messages() {
    let field_errors = vec![vec!["".to_string(), "x y".to_string()], vec!["".to_string()], vec!["z".to_string()]];
    assert_eq!(collate_errors(field_errors), Some("x y\nz".to_string()));
}

#[test]
fn collate_errors_needs_more_than_one_byte() {
    assert_eq!(collate_errors(vec![vec!["a".to_string()]]), None);
    assert_eq!(collate_errors(vec![vec!["é".to_string()]]), Some("é".to_string()));
    assert_eq!(collate_errors(vec![vec!["ab".to_string()]]), Some("ab".to_string()));
}

#[test]
fn endian_method_names() {
    assert_eq!(ser_endian_method_xx(&Endian::Big), "serialize_be");
    assert_eq!(ser_endian_method_xx(&Endian::Lit), "serialize_le");
    assert_eq!(ser_endian_method_xx(&Endian::Native), "serialize_ne");
    assert_eq!(ser_endian_method_xx(&Endian::NotSet), "serialize_ne");
    assert_eq!(des_endian_method_xx(&Endian::Big), "deserialize_be");
    assert_eq!(des_endian_method_xx(&Endian::Lit), "deserialize_le");
    assert_eq!(des_endian_method_xx(&Endian::NotSet), "deserialize_ne");
}

#[test]
fn field_endian_overrides_struct_endian() {
    assert_eq!(endian_attr(Endian::Big, Endian::NotSet), Endian::Big);
    assert_eq!(endian_attr(Endian::Big, Endian::Lit), Endian::Lit);
    assert_eq!(endian_attr(Endian::NotSet, Endian::NotSet), Endian::NotSet);
}
