use rust_npy_io::writer::dict::{prepare_descr, prepare_fortran_order, prepare_shape};
use rust_npy_io::writer::error::ValidationError;

#[test]
fn prepare_descr_normal() {
    assert_eq!(prepare_descr(r#"'<i8'"#), Ok(r#"'<i8'"#.to_string()));
    assert_eq!(prepare_descr(r#""<i8""#), Ok(r#""<i8""#.to_string()));
}

#[test]
fn prepare_fortran_order_normal() {
    assert_eq!(prepare_fortran_order(true), Ok(r"True".to_string()));
    assert_eq!(prepare_fortran_order(false), Ok(r"False".to_string()));
}

#[test]
fn prepare_shape_normal() {
    assert_eq!(prepare_shape(&[]), Ok(r"()".to_string()));
    assert_eq!(prepare_shape(&[1usize]), Ok(r"(1)".to_string()));
    assert_eq!(prepare_shape(&[1usize, 2usize]), Ok(r"(1,2)".to_string()));
}

#[test]
fn prepare_descr_corner() {
    assert_eq!(prepare_descr(r#""#), Err(ValidationError::EmptyDescr));
    assert_eq!(
        prepare_descr(r#"<i8"#),
        Err(ValidationError::unquoted_descr("<i8"))
    );
    let patterns = [r#"'"#, r#"""#];
    for pattern in patterns.iter() {
        assert_eq!(
            prepare_descr(pattern),
            Err(ValidationError::no_endian_specifier(pattern))
        );
    }
    let patterns = [r#"'hoge'"#, r#""hoge""#, r#"'''"#, r#"""""#];
    for pattern in patterns.iter() {
        assert_eq!(
            prepare_descr(pattern),
            Err(ValidationError::unexpected_endian_specifier(pattern))
        );
    }
}

#[test]
fn prepare_shape_corner() {
    let buf = [0usize];
    assert_eq!(
        prepare_shape(&buf),
        Err(ValidationError::NonPositiveShape(buf.to_vec()))
    );
    let buf = [1usize, 0usize, 2usize];
    assert_eq!(
        prepare_shape(&buf),
        Err(ValidationError::NonPositiveShape(buf.to_vec()))
    );
}
