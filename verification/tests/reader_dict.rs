use rust_npy_io::reader::dict::{fetch_descr, fetch_fortran_order, fetch_shape};
use rust_npy_io::reader::error::{IntErrorKind, ParseError};

#[test]
fn single_quotations() {
    let haystack = r#"'descr': '<i8', 'fortran_order': False, 'shape': (3, 5), "#;
    assert_eq!(fetch_descr(haystack), Ok(r#"'<i8'"#.to_string()));
    assert_eq!(fetch_fortran_order(haystack), Ok(false));
    assert_eq!(fetch_shape(haystack), Ok([3usize, 5usize].to_vec()));
}

#[test]
fn double_quotations() {
    let haystack = r#""descr": "<i8", "fortran_order": False, "shape": (3, 5), "#;
    assert_eq!(fetch_descr(haystack), Ok(r#""<i8""#.to_string()));
    assert_eq!(fetch_fortran_order(haystack), Ok(false));
    assert_eq!(fetch_shape(haystack), Ok([3usize, 5usize].to_vec()));
}

#[test]
fn inconsistent_quotations() {
    assert_eq!(
        fetch_descr(r#""descr':"<i8""#),
        Err(ParseError::missing_key_value_pairs("descr"))
    );
    assert_eq!(
        fetch_descr(r#"'descr":"<i8""#),
        Err(ParseError::missing_key_value_pairs("descr"))
    );
}

#[test]
fn fetch_descr_normal() {
    assert_eq!(fetch_descr(r#"'descr':'<f8'"#), Ok(r#"'<f8'"#.to_string()));
    assert_eq!(fetch_descr(r#"'descr' :"<f8""#), Ok(r#""<f8""#.to_string()));
    assert_eq!(fetch_descr(r#""descr": '<f8'"#), Ok(r#"'<f8'"#.to_string()));
    assert_eq!(
        fetch_descr(r#""descr" : "<f8""#),
        Ok(r#""<f8""#.to_string())
    );
}

#[test]
fn fetch_fortran_order_normal() {
    assert_eq!(fetch_fortran_order(r#"'fortran_order':True"#), Ok(true));
    assert_eq!(fetch_fortran_order(r#"'fortran_order' :False"#), Ok(false));
    assert_eq!(fetch_fortran_order(r#""fortran_order": True"#), Ok(true));
    assert_eq!(fetch_fortran_order(r#""fortran_order" : False"#), Ok(false));
}

#[test]
fn fetch_shape_normal() {
    assert_eq!(fetch_shape("'shape':()"), Ok(Vec::new()));
    assert_eq!(fetch_shape("'shape':( )"), Ok(Vec::new()));
    assert_eq!(fetch_shape("'shape': (2)"), Ok(vec![2]));
    assert_eq!(fetch_shape("'shape' :(2,)"), Ok(vec![2]));
    assert_eq!(fetch_shape("'shape': (42)"), Ok(vec![42]));
    assert_eq!(fetch_shape("'shape' :(42,)"), Ok(vec![42]));
    assert_eq!(fetch_shape("'shape' : (1, 2,  3)"), Ok(vec![1, 2, 3]));
}

#[test]
fn fetch_descr_corner() {
    assert_eq!(
        fetch_descr("'descr':<i8"),
        Err(ParseError::missing_key_value_pairs("descr"))
    );
    assert_eq!(
        fetch_descr("'descr':,"),
        Err(ParseError::missing_key_value_pairs("descr"))
    );
    assert_eq!(
        fetch_descr("'descr': ,"),
        Err(ParseError::missing_key_value_pairs("descr"))
    );
    assert_eq!(
        fetch_descr(r#"descr:"<i8""#),
        Err(ParseError::missing_key_value_pairs("descr"))
    );
    assert_eq!(
        fetch_descr(r#":"<i8""#),
        Err(ParseError::missing_key_value_pairs("descr"))
    );
    assert_eq!(
        fetch_descr("'descr': '<f8', 'descr': '<i8'"),
        Err(ParseError::multiple_key_value_pairs("descr"))
    );
}

#[test]
fn fetch_fortran_order_corner() {
    assert_eq!(
        fetch_fortran_order(r#""fortran_order':True"#),
        Err(ParseError::missing_key_value_pairs("fortran_order"))
    );
    assert_eq!(
        fetch_fortran_order(r#"'fortran_order":False"#),
        Err(ParseError::missing_key_value_pairs("fortran_order"))
    );
    assert_eq!(
        fetch_fortran_order(r#"'fortran_order':"True""#),
        Err(ParseError::missing_key_value_pairs("fortran_order"))
    );
    assert_eq!(
        fetch_fortran_order("'fortran_order':,"),
        Err(ParseError::missing_key_value_pairs("fortran_order"))
    );
    assert_eq!(
        fetch_fortran_order("'fortran_order': ,"),
        Err(ParseError::missing_key_value_pairs("fortran_order"))
    );
    assert_eq!(
        fetch_fortran_order(r#"fortran_order:"<i8""#),
        Err(ParseError::missing_key_value_pairs("fortran_order"))
    );
    assert_eq!(
        fetch_fortran_order(r#":False"#),
        Err(ParseError::missing_key_value_pairs("fortran_order"))
    );
    assert_eq!(
        fetch_fortran_order("'fortran_order': True, 'fortran_order': False"),
        Err(ParseError::multiple_key_value_pairs("fortran_order"))
    );
}

#[test]
fn fetch_shape_corner() {
    for input in ["'shape': (not_a_number)", "'shape': (1, two, 3)"] {
        let shape = fetch_shape(input);
        assert!(shape.is_err());
        if let Err(ParseError::ParseInt(e)) = shape {
            assert_eq!(e.kind(), &IntErrorKind::InvalidDigit);
        } else {
            panic!("unreachable");
        }
    }
    for input in ["'shape': (,)", "'shape': (,,)", "'shape': (0,,2)"] {
        let shape = fetch_shape(input);
        assert!(shape.is_err());
        if let Err(ParseError::ParseInt(e)) = shape {
            assert_eq!(e.kind(), &IntErrorKind::Empty);
        } else {
            panic!("unreachable");
        }
    }
}
