use rust_npy_io::bytes::{from_le_bytes, to_le_bytes};
use rust_npy_io::error::{ReadHeaderError, WriteHeaderError};
use rust_npy_io::reader::error::ParseError;
use rust_npy_io::reader::{
    check_magic_string, check_minor_version, fetch_header, fetch_header_len,
    fetch_major_version, ReadProgress, ReadStep,
};
use rust_npy_io::writer::error::ValidationError;
use rust_npy_io::writer::{
    check_layout, prepare_buffer_info, prepare_dictionary, prepare_padding, write_all,
};
use rust_npy_io::{can_read_header, can_write_header, read_header, write_header, Header};

const MAGIC: [u8; 6] = [0x93, b'N', b'U', b'M', b'P', b'Y'];

fn sample() -> Header {
    Header {
        descr: "'<f8'".to_string(),
        fortran_order: false,
        shape: vec![3, 5],
    }
}

#[test]
fn dictionary_of_sample_header() {
    let dict = prepare_dictionary(&sample()).unwrap();
    assert_eq!(
        dict,
        b"{'descr':'<f8','fortran_order':False,'shape':(3,5)}".to_vec()
    );
    assert_eq!(dict.len(), 51);
}

#[test]
fn dictionary_of_fortran_scalar() {
    let header = Header {
        descr: "\"|u1\"".to_string(),
        fortran_order: true,
        shape: vec![],
    };
    assert_eq!(
        prepare_dictionary(&header).unwrap(),
        b"{'descr':\"|u1\",'fortran_order':True,'shape':()}".to_vec()
    );
}

#[test]
fn dictionary_refuses_descr_before_shape() {
    let header = Header {
        descr: "f8".to_string(),
        fortran_order: false,
        shape: vec![0],
    };
    match prepare_dictionary(&header) {
        Err(WriteHeaderError::ValidationFailed(error)) => {
            assert_eq!(error, ValidationError::unquoted_descr("f8"))
        }
        other => panic!("unexpected: {:?}", other),
    }
    let header = Header {
        descr: "'<f8'".to_string(),
        fortran_order: false,
        shape: vec![2, 0],
    };
    match prepare_dictionary(&header) {
        Err(WriteHeaderError::ValidationFailed(error)) => {
            assert_eq!(error, ValidationError::NonPositiveShape(vec![2, 0]))
        }
        other => panic!("unexpected: {:?}", other),
    }
}

#[test]
fn buffer_info_of_small_dictionary() {
    assert!(check_layout(51));
    let info = prepare_buffer_info(51);
    assert_eq!(info.major_version(), 1);
    assert_eq!(info.header_len(), &vec![54u8, 0u8]);
    assert_eq!(info.padding_size(), 3);
}

#[test]
fn buffer_info_advances_a_block_on_a_full_one() {
    assert!(check_layout(64));
    let info = prepare_buffer_info(64);
    assert_eq!(info.major_version(), 1);
    assert_eq!(info.header_len(), &vec![118u8, 0u8]);
    assert_eq!(info.padding_size(), 54);
    let info = prepare_buffer_info(0);
    assert_eq!(info.header_len(), &vec![54u8, 0u8]);
    assert_eq!(info.padding_size(), 54);
}

#[test]
fn buffer_info_chooses_version_by_size() {
    // 65472 is the last size of whole blocks that the first version holds
    assert!(check_layout(65408));
    let info = prepare_buffer_info(65408);
    assert_eq!(info.major_version(), 1);
    assert_eq!(info.header_len(), &vec![0xb6u8, 0xffu8]);
    assert_eq!(info.padding_size(), 65472 - 10 - 65408);
    assert!(check_layout(65472));
    let info = prepare_buffer_info(65472);
    assert_eq!(info.major_version(), 2);
    assert_eq!(info.header_len(), &vec![0xf4u8, 0xffu8, 0x00u8, 0x00u8]);
    assert_eq!(info.padding_size(), 65536 - 12 - 65472);
}

#[test]
fn layout_has_no_room_behind_a_nearly_full_block() {
    assert!(check_layout(53));
    assert!(check_layout(54));
    assert!(!check_layout(55));
    assert!(!check_layout(60));
    assert!(!check_layout(63));
    assert!(check_layout(64));
    assert!(!check_layout(65472 + 53));
    assert!(check_layout(65472 + 52));
    assert!(!check_layout(usize::MAX));
}

#[test]
fn padding_is_spaces_and_a_newline() {
    let padding = prepare_padding(&prepare_buffer_info(51)).unwrap();
    assert_eq!(padding, vec![0x20u8, 0x20u8, 0x0au8]);
    let padding = prepare_padding(&prepare_buffer_info(53)).unwrap();
    assert_eq!(padding, vec![0x0au8]);
}

#[test]
fn padding_of_no_bytes_is_refused() {
    let info = prepare_buffer_info(54);
    assert_eq!(info.padding_size(), 0);
    assert!(matches!(
        prepare_padding(&info),
        Err(WriteHeaderError::ZeroPaddingSize)
    ));
}

#[test]
fn write_all_lays_the_fields_out_in_order() {
    let info = prepare_buffer_info(51);
    let buf = write_all(&info, &[1u8, 2u8, 3u8], &[9u8, 8u8]);
    assert_eq!(
        buf,
        vec![0x93, 0x4e, 0x55, 0x4d, 0x50, 0x59, 1, 0, 54, 0, 1, 2, 3, 9, 8]
    );
}

#[test]
fn written_header_end_to_end() {
    let header = sample();
    let bytes = write_header(&header).unwrap();
    assert_eq!(bytes.len(), 64);
    assert_eq!(&bytes[0..6], &MAGIC);
    assert_eq!(bytes[6], 1);
    assert_eq!(bytes[7], 0);
    assert_eq!(&bytes[8..10], &[54u8, 0u8]);
    assert_eq!(
        &bytes[10..61],
        b"{'descr':'<f8','fortran_order':False,'shape':(3,5)}"
    );
    assert_eq!(&bytes[61..64], &[0x20u8, 0x20u8, 0x0au8]);
    assert_eq!(read_header(&bytes).unwrap(), header);
}

#[test]
fn written_header_is_read_back() {
    let headers = [
        Header {
            descr: "'<f8'".to_string(),
            fortran_order: false,
            shape: vec![],
        },
        Header {
            descr: "\">i4\"".to_string(),
            fortran_order: true,
            shape: vec![7],
        },
        Header {
            descr: "'|b1'".to_string(),
            fortran_order: true,
            shape: vec![1, 2, 3, 4, 5, 6, 7, 8, 9, 10],
        },
        Header {
            descr: "'=c16'".to_string(),
            fortran_order: false,
            shape: vec![usize::MAX, 1],
        },
    ];
    for header in headers.iter() {
        let dict = prepare_dictionary(header).unwrap();
        assert!(check_layout(dict.len()));
        let bytes = write_header(header).unwrap();
        assert_eq!(bytes.len() % 64, 0);
        assert!(bytes.len() >= 10 + dict.len() + 1);
        assert!(bytes.len() < 10 + dict.len() + 1 + 64);
        assert_eq!(bytes[bytes.len() - 1], 0x0a);
        assert!(bytes[10 + dict.len()..bytes.len() - 1]
            .iter()
            .all(|&byte| byte == 0x20));
        assert_eq!(&read_header(&bytes).unwrap(), header);
    }
}

#[test]
fn written_header_with_four_byte_length_field() {
    let mut descr = String::from("'<");
    for _ in 0..70000 {
        descr.push('x');
    }
    descr.push('\'');
    let header = Header {
        descr,
        fortran_order: false,
        shape: vec![2],
    };
    let dict = prepare_dictionary(&header).unwrap();
    assert_eq!(dict.len(), 70047);
    assert!(check_layout(dict.len()));
    let bytes = write_header(&header).unwrap();
    assert_eq!(bytes.len(), 70080);
    assert_eq!(bytes[6], 2);
    assert_eq!(bytes[7], 0);
    assert_eq!(&bytes[8..12], &[0xb4u8, 0x11u8, 0x01u8, 0x00u8]);
    assert_eq!(&bytes[12..12 + dict.len()], &dict[..]);
    assert_eq!(bytes[bytes.len() - 1], 0x0a);
    assert_eq!(read_header(&bytes).unwrap(), header);
}

#[test]
fn written_header_without_room_for_the_newline() {
    let header = Header {
        descr: "'<f8'".to_string(),
        fortran_order: false,
        shape: vec![300, 50],
    };
    assert_eq!(prepare_dictionary(&header).unwrap().len(), 54);
    assert!(matches!(
        write_header(&header),
        Err(WriteHeaderError::ZeroPaddingSize)
    ));
}

#[test]
fn write_header_refuses_what_the_dictionary_refuses() {
    let header = Header {
        descr: "'hoge'".to_string(),
        fortran_order: false,
        shape: vec![1],
    };
    match write_header(&header) {
        Err(WriteHeaderError::ValidationFailed(error)) => {
            assert_eq!(error, ValidationError::unexpected_endian_specifier("'hoge'"))
        }
        other => panic!("unexpected: {:?}", other),
    }
}

#[test]
fn a_quote_inside_descr_is_not_read_back() {
    let header = Header {
        descr: "'<f8','descr':'<i8'".to_string(),
        fortran_order: true,
        shape: vec![1, 2, 3, 4],
    };
    let dict = prepare_dictionary(&header).unwrap();
    assert!(check_layout(dict.len()));
    let bytes = write_header(&header).unwrap();
    match read_header(&bytes) {
        Err(ReadHeaderError::ParseFailed(error)) => {
            assert_eq!(error, ParseError::multiple_key_value_pairs("descr"))
        }
        other => panic!("unexpected: {:?}", other),
    }
}

#[test]
fn magic_string_is_checked_byte_for_byte() {
    assert!(check_magic_string(&MAGIC).is_ok());
    match check_magic_string(&[0x93, b'N', b'U', b'M', b'P', b'X']) {
        Err(ReadHeaderError::InvalidMagicString(bytes)) => {
            assert_eq!(bytes, vec![0x93, b'N', b'U', b'M', b'P', b'X'])
        }
        other => panic!("unexpected: {:?}", other),
    }
    match check_magic_string(&[0x93, b'N']) {
        Err(ReadHeaderError::InvalidMagicString(bytes)) => assert_eq!(bytes, vec![0x93, b'N']),
        other => panic!("unexpected: {:?}", other),
    }
}

#[test]
fn versions_are_checked() {
    assert!(matches!(fetch_major_version(1), Ok(1)));
    assert!(matches!(fetch_major_version(2), Ok(2)));
    assert!(matches!(fetch_major_version(3), Ok(3)));
    assert!(matches!(
        fetch_major_version(0),
        Err(ReadHeaderError::InvalidMajorVersion(0))
    ));
    assert!(matches!(
        fetch_major_version(4),
        Err(ReadHeaderError::InvalidMajorVersion(4))
    ));
    assert!(check_minor_version(0).is_ok());
    assert!(matches!(
        check_minor_version(1),
        Err(ReadHeaderError::InvalidMinorVersion(1))
    ));
}

#[test]
fn header_len_is_little_endian_and_aligned() {
    assert!(matches!(fetch_header_len(&[54, 0], 1), Ok(54)));
    assert!(matches!(fetch_header_len(&[0x76, 0x01], 1), Ok(374)));
    assert!(matches!(
        fetch_header_len(&[55, 0], 1),
        Err(ReadHeaderError::InvalidHeaderSize(65))
    ));
    assert!(matches!(fetch_header_len(&[52, 0, 0, 0], 2), Ok(52)));
    assert!(matches!(fetch_header_len(&[0xf4, 0xff, 0, 0], 3), Ok(65524)));
    assert!(matches!(
        fetch_header_len(&[54, 0, 0, 0], 2),
        Err(ReadHeaderError::InvalidHeaderSize(66))
    ));
    assert!(matches!(
        fetch_header_len(&[52, 0, 0, 0], 0),
        Err(ReadHeaderError::InvalidMajorVersion(0))
    ));
    assert!(matches!(
        fetch_header_len(&[52, 0, 0, 0], 4),
        Err(ReadHeaderError::InvalidMajorVersion(4))
    ));
}

#[test]
fn fetch_header_wraps_the_failure_of_the_dictionary() {
    let header = fetch_header(b"{'descr':'<f8','fortran_order':True,'shape':(2,)}   \n").unwrap();
    assert_eq!(
        header,
        Header {
            descr: "'<f8'".to_string(),
            fortran_order: true,
            shape: vec![2],
        }
    );
    match fetch_header(b"{'descr':'<f8','shape':(2,)}") {
        Err(ReadHeaderError::ParseFailed(error)) => {
            assert_eq!(error, ParseError::missing_key_value_pairs("fortran_order"))
        }
        other => panic!("unexpected: {:?}", other),
    }
    assert!(matches!(
        fetch_header(&[0xff, 0xfe]),
        Err(ReadHeaderError::ParseFailed(ParseError::InvalidUTF8(_)))
    ));
}

#[test]
fn read_header_fails_where_the_source_ends() {
    let bytes = write_header(&sample()).unwrap();
    for len in [0usize, 5, 6, 7, 9, 10, 63] {
        match read_header(&bytes[..len]) {
            Err(ReadHeaderError::Io(error)) => {
                assert_eq!(error.kind(), std::io::ErrorKind::UnexpectedEof)
            }
            other => panic!("unexpected at {}: {:?}", len, other),
        }
    }
    let mut longer = bytes.clone();
    longer.extend_from_slice(&[1, 2, 3]);
    assert_eq!(read_header(&longer).unwrap(), sample());
}

#[test]
fn read_header_checks_each_field_in_turn() {
    let bytes = write_header(&sample()).unwrap();
    let mut bad = bytes.clone();
    bad[0] = 0x92;
    bad[6] = 9;
    assert!(matches!(
        read_header(&bad),
        Err(ReadHeaderError::InvalidMagicString(_))
    ));
    let mut bad = bytes.clone();
    bad[6] = 4;
    bad[7] = 1;
    assert!(matches!(
        read_header(&bad),
        Err(ReadHeaderError::InvalidMajorVersion(4))
    ));
    let mut bad = bytes.clone();
    bad[7] = 1;
    bad[8] = 55;
    assert!(matches!(
        read_header(&bad),
        Err(ReadHeaderError::InvalidMinorVersion(1))
    ));
    let mut bad = bytes.clone();
    bad[8] = 55;
    assert!(matches!(
        read_header(&bad),
        Err(ReadHeaderError::InvalidHeaderSize(65))
    ));
    let mut bad = bytes.clone();
    bad[6] = 3;
    assert!(matches!(
        read_header(&bad),
        Err(ReadHeaderError::InvalidHeaderSize(n)) if n == 12 + 54 + 0x277b * 65536
    ));
}

#[test]
fn steps_read_a_header_piece_by_piece() {
    let header = sample();
    let bytes = write_header(&header).unwrap();
    let mut step = ReadStep::first();
    let mut pos = 0usize;
    let mut wanted = Vec::new();
    let read = loop {
        let n = step.wanted();
        wanted.push(n);
        let piece = &bytes[pos..pos + n];
        assert!(step.can_take(piece));
        pos += n;
        match step.feed(piece).unwrap() {
            ReadProgress::Next(next) => step = next,
            ReadProgress::Done(header) => break header,
        }
    };
    assert_eq!(wanted, vec![6, 1, 1, 2, 54]);
    assert_eq!(pos, 64);
    assert_eq!(read, header);
}

#[test]
fn steps_refuse_pieces_of_another_size() {
    assert!(!ReadStep::MagicString.can_take(&[0x93, b'N']));
    assert!(ReadStep::HeaderLen { major_version: 2 }.can_take(&[0xff, 0xff, 0xff, 0xff]));
    assert!(!ReadStep::HeaderLen { major_version: 2 }.can_take(&[0xff, 0xff]));
    assert_eq!(ReadStep::HeaderLen { major_version: 3 }.wanted(), 4);
    assert_eq!(ReadStep::Dictionary { header_len: 118 }.wanted(), 118);
    assert!(matches!(
        ReadStep::MajorVersion.feed(&[7]),
        Err(ReadHeaderError::InvalidMajorVersion(7))
    ));
    assert_eq!(
        ReadStep::MinorVersion { major_version: 2 }.feed(&[0]).unwrap(),
        ReadProgress::Next(ReadStep::HeaderLen { major_version: 2 })
    );
}

#[test]
fn little_endian_numbers() {
    assert_eq!(to_le_bytes(0x1234, 2), vec![0x34, 0x12]);
    assert_eq!(to_le_bytes(0x0102_0304, 4), vec![4, 3, 2, 1]);
    assert_eq!(to_le_bytes(0x0102_0304, 2), vec![4, 3]);
    assert_eq!(to_le_bytes(5, 0), Vec::<u8>::new());
    assert_eq!(from_le_bytes(&[0x34, 0x12]), 0x1234);
    assert_eq!(from_le_bytes(&[4, 3, 2, 1]), 0x0102_0304);
    assert_eq!(from_le_bytes(&[0xff, 0xff, 0xff, 0xff]), 0xffff_ffff);
    assert_eq!(from_le_bytes(&[]), 0);
}

#[test]
fn headers_that_can_be_written_are_told_apart() {
    assert!(can_write_header(&sample()));
    let header = Header {
        descr: "'<f8'".to_string(),
        fortran_order: false,
        shape: vec![300, 50],
    };
    assert!(can_write_header(&header));
    let header = Header {
        descr: "'<f8'".to_string(),
        fortran_order: false,
        shape: vec![3000, 50],
    };
    assert_eq!(prepare_dictionary(&header).unwrap().len(), 55);
    assert!(!can_write_header(&header));
    let header = Header {
        descr: "f8".to_string(),
        fortran_order: false,
        shape: vec![3000, 50],
    };
    assert!(can_write_header(&header));
    assert!(matches!(
        write_header(&header),
        Err(WriteHeaderError::ValidationFailed(_))
    ));
}

#[test]
fn sources_that_can_be_read_are_told_apart() {
    let bytes = write_header(&sample()).unwrap();
    assert!(can_read_header(&bytes));
    assert!(can_read_header(&bytes[..9]));
    assert!(can_read_header(&[]));
    let mut large = bytes.clone();
    large[6] = 2;
    large[8] = 0xff;
    large[9] = 0xff;
    large[10] = 0xff;
    large[11] = 0xff;
    assert_eq!(can_read_header(&large), usize::BITS >= 64);
}
