use rusql_alchemy::value::{
    decode, decode_args, encode, get_type_name, to_string, Arg, BindValue, CodecError, TypeTag,
    Value,
};

#[test]
fn encode_integers() {
    let a = encode(Value::Int(42));
    assert_eq!(a.value, "42");
    assert_eq!(a.ty, TypeTag::Integer);
    let a = encode(Value::Int(-7));
    assert_eq!(a.value, "-7");
    assert_eq!(a.ty, TypeTag::Integer);
    let a = encode(Value::Int(0));
    assert_eq!(a.value, "0");
    assert_eq!(a.ty, TypeTag::Integer);
}

#[test]
fn encode_bools_canonicalize_to_integers() {
    let t = encode(Value::Bool(true));
    assert_eq!((t.value.as_str(), t.ty), ("1", TypeTag::Integer));
    let f = encode(Value::Bool(false));
    assert_eq!((f.value.as_str(), f.ty), ("0", TypeTag::Integer));
}

#[test]
fn encode_text_float_null() {
    let a = encode(Value::Text("Jane".to_string()));
    assert_eq!((a.value.as_str(), a.ty), ("Jane", TypeTag::Text));
    let a = encode(Value::Float("80.1".to_string()));
    assert_eq!((a.value.as_str(), a.ty), ("80.1", TypeTag::Float));
    let a = encode(Value::Null);
    assert_eq!((a.value.as_str(), a.ty), ("null", TypeTag::Null));
}

#[test]
fn roundtrip_integers() {
    for v in [0i64, 1, -1, 42, -42, i64::MAX, i64::MIN] {
        let a = encode(Value::Int(v));
        assert_eq!(decode(&a.value, a.ty), Ok(BindValue::Int(v)));
    }
}

#[test]
fn roundtrip_floats() {
    for t in ["80.1", "-0.5", "2e10", "1.5E-3", "0.0"] {
        let a = encode(Value::Float(t.to_string()));
        assert_eq!(decode(&a.value, a.ty), Ok(BindValue::Float(t.to_string())));
    }
}

#[test]
fn roundtrip_strings() {
    for t in ["Jane", "", "admin", "a,b c"] {
        let a = encode(Value::Text(t.to_string()));
        assert_eq!(decode(&a.value, a.ty), Ok(BindValue::Text(t.to_string())));
    }
}

#[test]
fn roundtrip_booleans_become_integers() {
    let a = encode(Value::Bool(true));
    assert_eq!(decode(&a.value, a.ty), Ok(BindValue::Int(1)));
    let a = encode(Value::Bool(false));
    assert_eq!(decode(&a.value, a.ty), Ok(BindValue::Int(0)));
}

#[test]
fn roundtrip_null_binds_as_sql_null() {
    let a = encode(Value::Null);
    assert_eq!(decode(&a.value, a.ty), Ok(BindValue::Null));
}

#[test]
fn null_text_under_plain_text_tag_stays_a_string() {
    assert_eq!(
        decode("null", TypeTag::Text),
        Ok(BindValue::Text("null".to_string()))
    );
    assert_eq!(
        decode("other", TypeTag::Null),
        Ok(BindValue::Text("other".to_string()))
    );
}

#[test]
fn integer_parse_accepts_signs_and_leading_zeros() {
    assert_eq!(decode("+5", TypeTag::Integer), Ok(BindValue::Int(5)));
    assert_eq!(decode("007", TypeTag::Integer), Ok(BindValue::Int(7)));
    assert_eq!(decode("-0", TypeTag::Integer), Ok(BindValue::Int(0)));
}

#[test]
fn integer_decode_failures() {
    for t in ["", "abc", "12x", "1.5", "+", "-", "--1", "9223372036854775808"] {
        assert_eq!(decode(t, TypeTag::Integer), Err(CodecError::InvalidInteger), "{t}");
    }
    assert_eq!(
        decode("-9223372036854775808", TypeTag::Integer),
        Ok(BindValue::Int(i64::MIN))
    );
    assert_eq!(
        decode("-9223372036854775809", TypeTag::Integer),
        Err(CodecError::InvalidInteger)
    );
}

#[test]
fn float_decode_failures() {
    for t in ["", "abc", "1e", ".", "e5", "inf", "NaN", "--1.0", "1.2.3"] {
        assert_eq!(decode(t, TypeTag::Float), Err(CodecError::InvalidFloat), "{t}");
    }
}

#[test]
fn float_literal_shapes() {
    for t in [".5", "5.", "1e9", "-2E+3", "+0.25e-2"] {
        assert_eq!(decode(t, TypeTag::Float), Ok(BindValue::Float(t.to_string())), "{t}");
    }
}

#[test]
fn column_tag_never_binds() {
    assert_eq!(
        decode("Profile.user_id", TypeTag::Column),
        Err(CodecError::UnbindableColumn)
    );
}

#[test]
fn decode_args_in_order_and_first_failure_wins() {
    let args = vec![
        Arg { value: "42".to_string(), ty: TypeTag::Integer },
        Arg { value: "Jane".to_string(), ty: TypeTag::Text },
        Arg { value: "null".to_string(), ty: TypeTag::Null },
    ];
    assert_eq!(
        decode_args(&args),
        Ok(vec![
            BindValue::Int(42),
            BindValue::Text("Jane".to_string()),
            BindValue::Null,
        ])
    );
    let bad = vec![
        Arg { value: "x".to_string(), ty: TypeTag::Float },
        Arg { value: "y".to_string(), ty: TypeTag::Integer },
    ];
    assert_eq!(decode_args(&bad), Err(CodecError::InvalidFloat));
}

#[test]
fn to_string_matches_encode() {
    assert_eq!(to_string(Value::Bool(true)), "1");
    assert_eq!(to_string(Value::Int(-3)), "-3");
    assert_eq!(to_string(Value::Text("x".to_string())), "x");
    assert_eq!(to_string(Value::Null), "null");
}

#[test]
fn type_name_follows_the_value() {
    assert_eq!(get_type_name(&Value::Int(1)), TypeTag::Integer);
    assert_eq!(get_type_name(&Value::Bool(false)), TypeTag::Integer);
    assert_eq!(get_type_name(&Value::Float("1.0".to_string())), TypeTag::Float);
    assert_eq!(get_type_name(&Value::Text("t".to_string())), TypeTag::Text);
    assert_eq!(get_type_name(&Value::Null), TypeTag::Null);
}
