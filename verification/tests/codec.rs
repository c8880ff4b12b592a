use servoctl::codec::parse_value_str;
use servoctl::errors::CliError;
use servoctl::kinds::DataType;
use servoctl::value::TypedValue;

#[test]
fn scalar_bool() {
    assert_eq!(parse_value_str("true", DataType::Bool), Ok(TypedValue::Bool(vec![true])));
    assert_eq!(parse_value_str("false", DataType::Bool), Ok(TypedValue::Bool(vec![false])));
    assert_eq!(parse_value_str("tru", DataType::Bool), Err(CliError::MalformedValue));
}

#[test]
fn scalar_string_verbatim() {
    assert_eq!(
        parse_value_str("gain", DataType::Str),
        Ok(TypedValue::Str(vec![String::from("gain")]))
    );
    // A scalar string may hold commas; whitespace is stripped first.
    assert_eq!(
        parse_value_str("a b,c", DataType::Str),
        Ok(TypedValue::Str(vec![String::from("ab,c")]))
    );
    assert_eq!(parse_value_str("   ", DataType::Str), Err(CliError::MalformedValue));
}

#[test]
fn scalar_unsigned_kinds() {
    assert_eq!(parse_value_str("0", DataType::U8), Ok(TypedValue::U8(vec![0])));
    assert_eq!(parse_value_str("255", DataType::U8), Ok(TypedValue::U8(vec![255])));
    assert_eq!(parse_value_str("256", DataType::U8), Err(CliError::MalformedValue));
    assert_eq!(parse_value_str("65535", DataType::U16), Ok(TypedValue::U16(vec![65535])));
    assert_eq!(parse_value_str("65536", DataType::U16), Err(CliError::MalformedValue));
    assert_eq!(
        parse_value_str("4294967295", DataType::U32),
        Ok(TypedValue::U32(vec![4294967295]))
    );
    assert_eq!(parse_value_str("4294967296", DataType::U32), Err(CliError::MalformedValue));
    assert_eq!(
        parse_value_str("18446744073709551615", DataType::U64),
        Ok(TypedValue::U64(vec![u64::MAX]))
    );
    assert_eq!(
        parse_value_str("18446744073709551616", DataType::U64),
        Err(CliError::MalformedValue)
    );
    // No negative literal for an unsigned kind, not even negative zero.
    assert_eq!(parse_value_str("-0", DataType::U8), Err(CliError::MalformedValue));
    assert_eq!(parse_value_str("+7", DataType::U8), Ok(TypedValue::U8(vec![7])));
}

#[test]
fn scalar_signed_kinds() {
    assert_eq!(parse_value_str("-128", DataType::I8), Ok(TypedValue::I8(vec![-128])));
    assert_eq!(parse_value_str("127", DataType::I8), Ok(TypedValue::I8(vec![127])));
    assert_eq!(parse_value_str("-129", DataType::I8), Err(CliError::MalformedValue));
    assert_eq!(parse_value_str("128", DataType::I8), Err(CliError::MalformedValue));
    assert_eq!(parse_value_str("-32768", DataType::I16), Ok(TypedValue::I16(vec![-32768])));
    assert_eq!(
        parse_value_str("-2147483648", DataType::I32),
        Ok(TypedValue::I32(vec![i32::MIN]))
    );
    assert_eq!(
        parse_value_str("-9223372036854775808", DataType::I64),
        Ok(TypedValue::I64(vec![i64::MIN]))
    );
    assert_eq!(
        parse_value_str("9223372036854775807", DataType::I64),
        Ok(TypedValue::I64(vec![i64::MAX]))
    );
    assert_eq!(
        parse_value_str("-9223372036854775809", DataType::I64),
        Err(CliError::MalformedValue)
    );
    assert_eq!(parse_value_str("+42", DataType::I32), Ok(TypedValue::I32(vec![42])));
    assert_eq!(parse_value_str("4 2", DataType::I32), Ok(TypedValue::I32(vec![42])));
    assert_eq!(parse_value_str("", DataType::I32), Err(CliError::MalformedValue));
    assert_eq!(parse_value_str("-", DataType::I32), Err(CliError::MalformedValue));
    assert_eq!(parse_value_str("1e3", DataType::I32), Err(CliError::MalformedValue));
}

#[test]
fn scalar_float_literals_round_trip() {
    // The codec validates float grammar and keeps the literal; the value is
    // recovered by standard conversion when a frame is built.
    let tv = parse_value_str("1.5", DataType::F32).unwrap();
    match tv {
        TypedValue::F32(lits) => {
            assert_eq!(lits.len(), 1);
            assert_eq!(lits[0].parse::<f32>().unwrap(), 1.5f32);
        }
        _ => panic!("wrong kind"),
    }
    let tv = parse_value_str("-2.25e2", DataType::F64).unwrap();
    match tv {
        TypedValue::F64(lits) => {
            assert_eq!(lits[0].parse::<f64>().unwrap(), -225.0f64);
        }
        _ => panic!("wrong kind"),
    }
    assert_eq!(parse_value_str(".5", DataType::F32).unwrap().len(), 1);
    assert_eq!(parse_value_str("1.", DataType::F32).unwrap().len(), 1);
    assert_eq!(parse_value_str("1e", DataType::F32), Err(CliError::MalformedValue));
    assert_eq!(parse_value_str(".", DataType::F32), Err(CliError::MalformedValue));
    assert_eq!(parse_value_str("1.2.3", DataType::F64), Err(CliError::MalformedValue));
}

#[test]
fn vector_of_three_matches_elementwise() {
    assert_eq!(
        parse_value_str("[1,2,3]", DataType::U8),
        Ok(TypedValue::U8(vec![1, 2, 3]))
    );
    assert_eq!(
        parse_value_str("[ -1, 2 , -3 ]", DataType::I16),
        Ok(TypedValue::I16(vec![-1, 2, -3]))
    );
    assert_eq!(
        parse_value_str("[true,false,true]", DataType::Bool),
        Ok(TypedValue::Bool(vec![true, false, true]))
    );
    assert_eq!(
        parse_value_str("[a,b,c]", DataType::Str),
        Ok(TypedValue::Str(vec![
            String::from("a"),
            String::from("b"),
            String::from("c")
        ]))
    );
}

#[test]
fn vector_element_failure_fails_whole_vector() {
    assert_eq!(parse_value_str("[1,2,300]", DataType::U8), Err(CliError::MalformedValue));
    assert_eq!(parse_value_str("[1,,3]", DataType::U8), Err(CliError::MalformedValue));
    assert_eq!(parse_value_str("[]", DataType::U8), Err(CliError::MalformedValue));
    assert_eq!(parse_value_str("[1,2,]", DataType::U8), Err(CliError::MalformedValue));
}

#[test]
fn whitespace_never_changes_the_outcome() {
    assert_eq!(
        parse_value_str(" [1, 2,\t3]\n", DataType::U32),
        parse_value_str("[1,2,3]", DataType::U32)
    );
    // Malformed input fails the same way under any padding.
    assert_eq!(
        parse_value_str("  [1,2  ", DataType::U8),
        parse_value_str("[1,2", DataType::U8)
    );
    // Whitespace is stripped everywhere, even inside a literal.
    assert_eq!(parse_value_str("t r u e", DataType::Bool), Ok(TypedValue::Bool(vec![true])));
    assert_eq!(parse_value_str(" tr ux ", DataType::Bool), Err(CliError::MalformedValue));
}

#[test]
fn brackets_malformed_for_every_kind() {
    let kinds = [
        DataType::Bool,
        DataType::Str,
        DataType::U8,
        DataType::U16,
        DataType::U32,
        DataType::U64,
        DataType::I8,
        DataType::I16,
        DataType::I32,
        DataType::I64,
        DataType::F32,
        DataType::F64,
    ];
    for k in kinds {
        assert_eq!(parse_value_str("[1,2", k), Err(CliError::MalformedValue));
        assert_eq!(parse_value_str("1,2]", k), Err(CliError::MalformedValue));
        assert_eq!(parse_value_str("[[1],[2]]", k), Err(CliError::MalformedValue));
        assert_eq!(parse_value_str("a[b", k), Err(CliError::MalformedValue));
    }
}

#[test]
fn kind_names_round_trip() {
    let kinds = [
        DataType::Bool,
        DataType::Str,
        DataType::U8,
        DataType::U16,
        DataType::U32,
        DataType::U64,
        DataType::I8,
        DataType::I16,
        DataType::I32,
        DataType::I64,
        DataType::F32,
        DataType::F64,
    ];
    for k in kinds {
        assert_eq!(DataType::from_name(k.name()), Some(k));
    }
    assert_eq!(DataType::from_name("bool"), Some(DataType::Bool));
    assert_eq!(DataType::from_name("string"), Some(DataType::Str));
    assert_eq!(DataType::from_name("f32"), Some(DataType::F32));
    assert_eq!(DataType::from_name("float"), None);
    assert_eq!(DataType::from_name(""), None);
}

#[test]
fn error_descriptions() {
    assert_eq!(CliError::MissingArgument.describe(), "missing required argument");
    assert_eq!(CliError::MalformedValue.describe(), "malformed value literal");
}
