use seismometer::ParseErrorKind;
use seismometer::Record;

#[test]
fn test_from() {
    let line = b"123456789,1,-2,3,-4,5,-6";
    let record = Record::from(line).unwrap();
    assert_eq!(record.timestamp_us, 123456789);
    assert_eq!(record.x_filt, 1);
    assert_eq!(record.y_filt, -2);
    assert_eq!(record.z_filt, 3);
    assert_eq!(record.x, -4);
    assert_eq!(record.y, 5);
    assert_eq!(record.z, -6);
}

#[test]
fn test_from_missing_fields() {
    let line = b"123456789,1,-2,3,-4,5";
    let record = Record::from(line);
    assert!(record.is_err());
}

#[test]
fn test_parse_next_invalid_number() {
    {
        // Negative unsigned number
        let result: Result<u32, _> = Record::parse_next_u32(Some(b"-123456789"), 3);
        assert!(result.is_err());

        let err = result.unwrap_err();
        assert_eq!(err.column, 3);
        assert_eq!(err.kind, ParseErrorKind::InvalidNumber);
    }

    {
        // Invalid char
        let result: Result<i32, _> = Record::parse_next_i32(Some(b"1a2"), 4);
        assert!(result.is_err());

        let err = result.unwrap_err();
        assert_eq!(err.column, 4);
        assert_eq!(err.kind, ParseErrorKind::InvalidNumber);
    }

    {
        // Missing field
        let result: Result<i32, _> = Record::parse_next_i32(None, 0);
        assert!(result.is_err());

        let err = result.unwrap_err();
        assert_eq!(err.column, 0);
        assert_eq!(err.kind, ParseErrorKind::MissingField);
    }

    {
        // Invalid UTF8
        let result: Result<i32, _> = Record::parse_next_i32(Some(b"\xFF"), 7);
        assert!(result.is_err());

        let err = result.unwrap_err();
        assert_eq!(err.column, 7);
        assert_eq!(err.kind, ParseErrorKind::InvalidUTF8);
    }
}

#[test]
fn parse_extremes_and_signs() {
    assert_eq!(Record::parse_next_i32(Some(b"-2147483648"), 0), Ok(i32::MIN));
    assert_eq!(Record::parse_next_i32(Some(b"2147483647"), 0), Ok(i32::MAX));
    assert_eq!(Record::parse_next_i32(Some(b"+17"), 0), Ok(17));
    assert_eq!(Record::parse_next_u64(Some(b"18446744073709551615"), 0), Ok(u64::MAX));

    let too_small = Record::parse_next_i32(Some(b"-2147483649"), 2).unwrap_err();
    assert_eq!(too_small.column, 2);
    assert_eq!(too_small.kind, ParseErrorKind::InvalidNumber);

    let too_big = Record::parse_next_u64(Some(b"18446744073709551616"), 1).unwrap_err();
    assert_eq!(too_big.kind, ParseErrorKind::InvalidNumber);

    let overflow_u32 = Record::parse_next_u32(Some(b"4294967296"), 5).unwrap_err();
    assert_eq!(overflow_u32.kind, ParseErrorKind::InvalidNumber);
    assert_eq!(Record::parse_next_u32(Some(b"4294967295"), 5), Ok(u32::MAX));

    let empty = Record::parse_next_i32(Some(b""), 6).unwrap_err();
    assert_eq!(empty.kind, ParseErrorKind::InvalidNumber);

    let bare_sign = Record::parse_next_i32(Some(b"+"), 0).unwrap_err();
    assert_eq!(bare_sign.kind, ParseErrorKind::InvalidNumber);

    // A multi-byte sequence that is valid UTF-8 but no number: the error
    // blames the text, not the encoding.
    let accented = Record::parse_next_i32(Some(b"\xC3\xA9"), 1).unwrap_err();
    assert_eq!(accented.kind, ParseErrorKind::InvalidNumber);
}

#[test]
fn from_ignores_extra_fields_and_blames_first_bad_column() {
    // Extra trailing fields are ignored.
    let record = Record::from(b"1,2,3,4,5,6,7,8,9").unwrap();
    assert_eq!(record.timestamp_us, 1);
    assert_eq!(record.z, 7);

    // The error names the first failing column.
    let err = Record::from(b"1,2,x,4,5,6,7").unwrap_err();
    assert_eq!(err.column, 2);
    assert_eq!(err.kind, ParseErrorKind::InvalidNumber);

    let err = Record::from(b"").unwrap_err();
    assert_eq!(err.column, 0);
    assert_eq!(err.kind, ParseErrorKind::InvalidNumber);

    // Wall time is stamped later by the source, not by the parser.
    let record = Record::from(b"10,0,0,0,0,0,0").unwrap();
    assert_eq!(record.timestamp_wall_us, 0);
}
