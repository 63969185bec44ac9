use s2_grpc_utils::convert::{pack_map, pack_present, unpack_field, unpack_map, unpack_present};
use s2_grpc_utils::enums::EnumMapping;
use s2_grpc_utils::payload::{pack_json_payload, unpack_json_payload, Any, JSON_TYPE_URL};
use s2_grpc_utils::result::Error;
use s2_grpc_utils::time::{DateTimeUtc, Duration, TimeDelta, Timestamp};
use s2_grpc_utils::value::{
    json_value_to_value, value_to_json_value, JsonNumber, JsonValue, Kind, Value, MAX_JSON_NEST,
};
use s2_grpc_utils::{S2ProtoPack, S2ProtoUnpack};

fn float(x: f64) -> JsonNumber {
    JsonNumber::Float(x.to_bits())
}

fn wire_number(x: f64) -> Value {
    Value { kind: Some(Kind::NumberValue(x.to_bits())) }
}

fn sample_json() -> JsonValue {
    JsonValue::Object(vec![
        ("name".to_string(), JsonValue::String("s2".to_string())),
        ("ok".to_string(), JsonValue::Bool(true)),
        ("none".to_string(), JsonValue::Null),
        (
            "list".to_string(),
            JsonValue::Array(vec![JsonValue::Number(float(1.5)), JsonValue::Number(float(-2.0))]),
        ),
    ])
}

fn sample_wire() -> Value {
    Value {
        kind: Some(Kind::StructValue(vec![
            ("name".to_string(), Value { kind: Some(Kind::StringValue("s2".to_string())) }),
            ("ok".to_string(), Value { kind: Some(Kind::BoolValue(true)) }),
            ("none".to_string(), Value { kind: Some(Kind::NullValue(0)) }),
            (
                "list".to_string(),
                Value { kind: Some(Kind::ListValue(vec![wire_number(1.5), wire_number(-2.0)])) },
            ),
        ])),
    }
}

/// A chain of arrays `levels` values deep, the innermost one empty.
fn nested_json(levels: usize) -> JsonValue {
    let mut v = JsonValue::Array(vec![]);
    for _ in 1..levels {
        v = JsonValue::Array(vec![v]);
    }
    v
}

/// A chain of lists `levels` values deep, the innermost one empty.
fn nested_wire(levels: usize) -> Value {
    let mut v = Value { kind: Some(Kind::ListValue(vec![])) };
    for _ in 1..levels {
        v = Value { kind: Some(Kind::ListValue(vec![v])) };
    }
    v
}

#[test]
fn scalars_round_trip() {
    assert_eq!(i64::unpack((-7_i64).pack().unwrap()).unwrap(), -7);
    assert_eq!(u64::unpack(u64::MAX.pack().unwrap()).unwrap(), u64::MAX);
    assert_eq!(i32::unpack(i32::MIN.pack().unwrap()).unwrap(), i32::MIN);
    assert_eq!(u32::unpack(42_u32.pack().unwrap()).unwrap(), 42);
    assert_eq!(bool::unpack(true.pack().unwrap()).unwrap(), true);
    assert_eq!(String::unpack("text".to_string().pack().unwrap()).unwrap(), "text");
    assert_eq!(Vec::<u8>::unpack(vec![0_u8, 255].pack().unwrap()).unwrap(), vec![0_u8, 255]);
}

#[test]
fn json_packs_to_wire_form() {
    assert_eq!(json_value_to_value(sample_json()).unwrap(), sample_wire());
}

#[test]
fn wire_unpacks_to_json_form() {
    assert_eq!(value_to_json_value(sample_wire()).unwrap(), sample_json());
}

#[test]
fn json_round_trips_through_wire() {
    let wire: Value = sample_json().pack().unwrap();
    assert_eq!(JsonValue::unpack(wire).unwrap(), sample_json());
}

#[test]
fn integer_numbers_pack_as_doubles() {
    let packed = json_value_to_value(JsonValue::Array(vec![
        JsonValue::Number(JsonNumber::PosInt(3)),
        JsonValue::Number(JsonNumber::NegInt(-2)),
        JsonValue::Number(JsonNumber::PosInt(u64::MAX)),
    ]))
    .unwrap();
    assert_eq!(
        packed,
        Value {
            kind: Some(Kind::ListValue(vec![
                wire_number(3.0),
                wire_number(-2.0),
                wire_number(u64::MAX as f64),
            ])),
        }
    );
    // Integers come back as doubles: the bridge is lossy there.
    assert_eq!(
        value_to_json_value(wire_number(3.0)).unwrap(),
        JsonValue::Number(float(3.0))
    );
}

#[test]
fn non_finite_numbers_read_as_null() {
    assert_eq!(value_to_json_value(wire_number(f64::NAN)).unwrap(), JsonValue::Null);
    assert_eq!(value_to_json_value(wire_number(f64::INFINITY)).unwrap(), JsonValue::Null);
    assert_eq!(value_to_json_value(wire_number(f64::NEG_INFINITY)).unwrap(), JsonValue::Null);
    assert_eq!(value_to_json_value(wire_number(-0.0)).unwrap(), JsonValue::Number(float(-0.0)));
}

#[test]
fn absent_kind_and_null_read_as_null() {
    assert_eq!(value_to_json_value(Value { kind: None }).unwrap(), JsonValue::Null);
    assert_eq!(
        value_to_json_value(Value { kind: Some(Kind::NullValue(3)) }).unwrap(),
        JsonValue::Null
    );
    assert_eq!(
        json_value_to_value(JsonValue::Null).unwrap(),
        Value { kind: Some(Kind::NullValue(0)) }
    );
}

#[test]
fn empty_containers_convert() {
    assert_eq!(
        json_value_to_value(JsonValue::Object(vec![])).unwrap(),
        Value { kind: Some(Kind::StructValue(vec![])) }
    );
    assert_eq!(
        value_to_json_value(Value { kind: Some(Kind::ListValue(vec![])) }).unwrap(),
        JsonValue::Array(vec![])
    );
}

#[test]
fn json_depth_limit() {
    assert_eq!(MAX_JSON_NEST, 100);
    // The innermost value stands at nest 99: one level under the limit.
    assert_eq!(json_value_to_value(nested_json(100)).unwrap(), nested_wire(100));
    // The innermost value stands at nest 100: at the limit.
    assert!(matches!(
        json_value_to_value(nested_json(101)),
        Err(Error::JsonValueNestedTooDeeply)
    ));
    assert!(matches!(
        json_value_to_value(nested_json(150)),
        Err(Error::JsonValueNestedTooDeeply)
    ));
}

#[test]
fn wire_depth_limit() {
    assert_eq!(value_to_json_value(nested_wire(100)).unwrap(), nested_json(100));
    assert!(matches!(
        value_to_json_value(nested_wire(101)),
        Err(Error::JsonValueNestedTooDeeply)
    ));
}

#[test]
fn deep_value_inside_object_fails_whole_conversion() {
    let v = JsonValue::Object(vec![
        ("a".to_string(), JsonValue::Bool(false)),
        ("b".to_string(), nested_json(100)),
    ]);
    assert!(matches!(json_value_to_value(v), Err(Error::JsonValueNestedTooDeeply)));
}

#[test]
fn required_field_absent_names_field() {
    let r: Result<JsonValue, Error> = unpack_field("json", None::<Value>);
    assert!(matches!(r, Err(Error::FieldValueNotPresent { field_name: "json" })));
    let r: Result<DateTimeUtc, Error> = unpack_field("created_at", None::<Timestamp>);
    assert!(matches!(r, Err(Error::FieldValueNotPresent { field_name: "created_at" })));
}

#[test]
fn optional_field_absent_is_none() {
    let r: Result<Option<JsonValue>, Error> = unpack_field("json_optional", None::<Value>);
    assert_eq!(r.unwrap(), None);
}

#[test]
fn required_value_absent_is_not_present() {
    let r: Result<TimeDelta, Error> = unpack_present(None::<Duration>);
    assert!(matches!(r, Err(Error::ValueNotPresent)));
    let r: Result<Option<Value>, Error> = pack_present::<Value, JsonValue>(JsonValue::Bool(true));
    assert_eq!(r.unwrap(), Some(Value { kind: Some(Kind::BoolValue(true)) }));
}

#[test]
fn field_error_keeps_other_errors() {
    let r: Result<JsonValue, Error> = unpack_field("json", Some(nested_wire(101)));
    assert!(matches!(r, Err(Error::JsonValueNestedTooDeeply)));
}

#[test]
fn optional_lifting() {
    let r: Option<Value> = Some(JsonValue::Null).pack().unwrap();
    assert_eq!(r, Some(Value { kind: Some(Kind::NullValue(0)) }));
    let r: Option<Value> = None::<JsonValue>.pack().unwrap();
    assert_eq!(r, None);
    let r: Option<JsonValue> = Option::<JsonValue>::unpack(Some(Value { kind: None })).unwrap();
    assert_eq!(r, Some(JsonValue::Null));
}

#[test]
fn list_unpack_names_failing_index() {
    let wire = vec![Some(wire_number(1.0)), Some(wire_number(2.0)), None, None];
    let r: Result<Vec<JsonValue>, Error> = Vec::<JsonValue>::unpack(wire);
    match r {
        Err(Error::ListElement { source, index }) => {
            assert_eq!(index, 2);
            assert!(matches!(*source, Error::ValueNotPresent));
        }
        other => panic!("unexpected {:?}", other),
    }
}

#[test]
fn list_pack_names_failing_index() {
    let domain = vec![JsonValue::Null, nested_json(101), JsonValue::Bool(true)];
    let r: Result<Vec<Value>, Error> = domain.pack();
    match r {
        Err(Error::ListElement { source, index }) => {
            assert_eq!(index, 1);
            assert!(matches!(*source, Error::JsonValueNestedTooDeeply));
        }
        other => panic!("unexpected {:?}", other),
    }
}

#[test]
fn list_round_trip_keeps_order() {
    let packed: Vec<Timestamp> = vec![
        DateTimeUtc::from_timestamp(3, 0).unwrap(),
        DateTimeUtc::from_timestamp(1, 5).unwrap(),
    ]
    .pack()
    .unwrap();
    assert_eq!(
        packed,
        vec![Timestamp { seconds: 3, nanos: 0 }, Timestamp { seconds: 1, nanos: 5 }]
    );
    let back: Vec<DateTimeUtc> = Vec::<DateTimeUtc>::unpack(packed).unwrap();
    assert_eq!(back[1].timestamp(), 1);
    assert_eq!(back[1].timestamp_subsec_nanos(), 5);
}

#[test]
fn map_entries_convert_key_and_value() {
    let r: Vec<(i64, Option<Value>)> =
        pack_map::<i64, Option<Value>, i64, JsonValue>(vec![(1, JsonValue::Bool(false))]).unwrap();
    assert_eq!(r, vec![(1, Some(Value { kind: Some(Kind::BoolValue(false)) }))]);
    let back: Vec<(i64, JsonValue)> = unpack_map::<i64, Option<Value>, i64, JsonValue>(r).unwrap();
    assert_eq!(back, vec![(1, JsonValue::Bool(false))]);
}

#[test]
fn map_entry_failure_is_wrapped() {
    let r = unpack_map::<i64, Option<Value>, i64, JsonValue>(vec![
        (1, Some(Value { kind: None })),
        (2, None),
    ]);
    match r {
        Err(Error::MapEntry { source }) => assert!(matches!(*source, Error::ValueNotPresent)),
        other => panic!("unexpected {:?}", other),
    }
}

#[test]
fn enum_discriminant_mapping() {
    let m = EnumMapping::new("Color", vec![0, 5, 7]).unwrap();
    assert_eq!(m.name(), "Color");
    assert_eq!(m.variant_count(), 3);
    assert_eq!(m.pack(1), 5);
    assert_eq!(m.unpack(5).unwrap(), 1);
    assert_eq!(m.unpack(m.pack(2)).unwrap(), 2);
    match m.unpack(3) {
        Err(Error::EnumDiscriminantNotFound { enum_name, discriminant }) => {
            assert_eq!(enum_name, "Color");
            assert_eq!(discriminant, 3);
        }
        other => panic!("unexpected {:?}", other),
    }
}

#[test]
fn enum_mapping_rejects_shared_discriminant() {
    assert!(EnumMapping::new("Color", vec![1, 2, 1]).is_none());
    assert!(EnumMapping::new("Empty", vec![]).is_some());
}

#[test]
fn enum_two_wire_targets_are_independent() {
    let first = EnumMapping::new("EnumModel", vec![0, 1]).unwrap();
    let second = EnumMapping::new("EnumModel", vec![10, 20]).unwrap();
    assert_eq!(first.unpack(1).unwrap(), 1);
    assert_eq!(second.unpack(20).unwrap(), 1);
    assert_eq!(first.pack(1), 1);
    assert_eq!(second.pack(1), 20);
    assert!(second.unpack(1).is_err());
    assert!(first.unpack(20).is_err());
}

#[test]
fn payload_round_trip() {
    let bytes = br#"{"a":[1,2],"b":null}"#.to_vec();
    let payload = pack_json_payload(bytes.clone());
    assert_eq!(payload.type_url, JSON_TYPE_URL);
    assert_eq!(payload.type_url, "s2/json");
    assert_eq!(unpack_json_payload(payload).unwrap(), bytes);
}

#[test]
fn payload_unknown_type_url_is_named() {
    let payload = Any { type_url: "type.googleapis.com/Other".to_string(), value: vec![1, 2] };
    match unpack_json_payload(payload) {
        Err(Error::JsonTypeUrlUnknown { type_url }) => {
            assert_eq!(type_url, "type.googleapis.com/Other")
        }
        other => panic!("unexpected {:?}", other),
    }
}

#[test]
fn timestamp_round_trip() {
    let ts = Timestamp { seconds: 1, nanos: 500_000_000 };
    let dt = DateTimeUtc::unpack(ts).unwrap();
    assert_eq!(dt.timestamp(), 1);
    assert_eq!(dt.timestamp_subsec_nanos(), 500_000_000);
    let back: Timestamp = dt.pack().unwrap();
    assert_eq!(back, Timestamp { seconds: 1, nanos: 500_000_000 });
}

#[test]
fn timestamp_before_epoch() {
    let dt = DateTimeUtc::unpack(Timestamp { seconds: -86_400, nanos: 1 }).unwrap();
    let back: Timestamp = dt.pack().unwrap();
    assert_eq!(back, Timestamp { seconds: -86_400, nanos: 1 });
}

#[test]
fn timestamp_out_of_range() {
    assert!(matches!(
        DateTimeUtc::unpack(Timestamp { seconds: 0, nanos: -1 }),
        Err(Error::TimestampOutOfRange { seconds: 0, nanos: -1 })
    ));
    assert!(matches!(
        DateTimeUtc::unpack(Timestamp { seconds: 0, nanos: 1_000_000_000 }),
        Err(Error::TimestampOutOfRange { .. })
    ));
    assert!(matches!(
        DateTimeUtc::unpack(Timestamp { seconds: i64::MAX, nanos: 0 }),
        Err(Error::TimestampOutOfRange { seconds: i64::MAX, nanos: 0 })
    ));
    assert!(DateTimeUtc::from_timestamp(i64::MIN, 0).is_none());
}

#[test]
fn optional_timestamp_slot() {
    let packed: Option<Timestamp> = DateTimeUtc::from_timestamp(7, 8).unwrap().pack().unwrap();
    assert_eq!(packed, Some(Timestamp { seconds: 7, nanos: 8 }));
    let r: Result<DateTimeUtc, Error> = DateTimeUtc::unpack(None::<Timestamp>);
    assert!(matches!(r, Err(Error::ValueNotPresent)));
}

#[test]
fn negative_duration_rejected() {
    let d = TimeDelta::new(-1, 0).unwrap();
    let r: Result<Duration, Error> = d.pack();
    assert!(matches!(r, Err(Error::ParseDuration { .. })));
    let d = TimeDelta::new(-5, 999_999_999).unwrap();
    let r: Result<Duration, Error> = d.pack();
    assert!(matches!(r, Err(Error::ParseDuration { .. })));
}

#[test]
fn duration_round_trip() {
    let d = TimeDelta::new(5, 250).unwrap();
    let w: Duration = d.pack().unwrap();
    assert_eq!(w, Duration { seconds: 5, nanos: 250 });
    let back = TimeDelta::unpack(w).unwrap();
    assert_eq!(back, TimeDelta::new(5, 250).unwrap());
    let zero: Duration = TimeDelta::new(0, 0).unwrap().pack().unwrap();
    assert_eq!(zero, Duration { seconds: 0, nanos: 0 });
}

#[test]
fn wire_duration_is_normalized() {
    let d = TimeDelta::unpack(Duration { seconds: 1, nanos: 1_500_000_000 }).unwrap();
    assert_eq!(d.secs(), 2);
    assert_eq!(d.nanos(), 500_000_000);
    let d = TimeDelta::unpack(Duration { seconds: 2, nanos: -1 }).unwrap();
    assert_eq!(d.secs(), 1);
    assert_eq!(d.nanos(), 999_999_999);
}

#[test]
fn wire_duration_negative_or_too_long_rejected() {
    assert!(matches!(
        TimeDelta::unpack(Duration { seconds: -1, nanos: 0 }),
        Err(Error::ParseDuration { .. })
    ));
    assert!(matches!(
        TimeDelta::unpack(Duration { seconds: i64::MIN, nanos: 0 }),
        Err(Error::ParseDuration { .. })
    ));
    assert!(matches!(
        TimeDelta::unpack(Duration { seconds: i64::MAX, nanos: 0 }),
        Err(Error::ParseDuration { .. })
    ));
    let largest = TimeDelta::unpack(Duration { seconds: 9_223_372_036_854_775, nanos: 807_000_000 });
    assert!(largest.is_ok());
    assert!(matches!(
        TimeDelta::unpack(Duration { seconds: 9_223_372_036_854_775, nanos: 807_000_001 }),
        Err(Error::ParseDuration { .. })
    ));
}

#[test]
fn time_delta_bounds() {
    assert!(TimeDelta::new(9_223_372_036_854_775, 807_000_000).is_some());
    assert!(TimeDelta::new(9_223_372_036_854_775, 807_000_001).is_none());
    assert!(TimeDelta::new(-9_223_372_036_854_776, 193_000_000).is_some());
    assert!(TimeDelta::new(-9_223_372_036_854_776, 192_999_999).is_none());
    assert!(TimeDelta::new(0, 1_000_000_000).is_none());
}

#[test]
fn decimal_text_round_trip() {
    let d = <bigdecimal::BigDecimal as S2ProtoUnpack<String>>::unpack("1.25".to_string()).unwrap();
    let text: String = d.pack().unwrap();
    assert_eq!(text, "1.25");
}

#[test]
fn decimal_parse_error() {
    let r = <bigdecimal::BigDecimal as S2ProtoUnpack<String>>::unpack("one".to_string());
    match r {
        Err(e) => {
            assert!(matches!(e, Error::ParseBigDecimal { .. }));
            assert!(e.message().starts_with("Parse decimal error: "));
        }
        Ok(d) => panic!("unexpected {:?}", d),
    }
}

#[test]
fn error_messages() {
    assert_eq!(
        Error::ValueNotPresent.message(),
        "Could not unpack a non-optional value from null"
    );
    assert_eq!(Error::JsonValueNestedTooDeeply.message(), "JSON value nested too deeply");
    assert_eq!(
        Error::JsonTypeUrlUnknown { type_url: "x/y".to_string() }.message(),
        "Could not convert json value from type_url: x/y"
    );
    assert_eq!(
        Error::ListElement { source: Box::new(Error::ValueNotPresent), index: 3 }.message(),
        "List element 3: Could not unpack a non-optional value from null"
    );
    assert_eq!(
        Error::MapEntry { source: Box::new(Error::JsonValueNestedTooDeeply) }.message(),
        "Map entry: JSON value nested too deeply"
    );
    assert_eq!(
        Error::EnumDiscriminantNotFound { enum_name: "Color", discriminant: -4 }.message(),
        "Enum discriminant is not found: enum type = Color, discriminant = -4"
    );
    assert_eq!(
        Error::Json { message: "EOF".to_string() }.message(),
        "JSON error: EOF"
    );
    assert_eq!(
        Error::ParseDuration { message: "negative".to_string() }.message(),
        "Could not convert duration: negative"
    );
    assert_eq!(
        Error::TimestampOutOfRange { seconds: 9, nanos: -1 }.message(),
        "Timestamp out of range: seconds = 9, nanos = -1"
    );
}

#[test]
fn decimal_from_borrowed_text() {
    let d = <bigdecimal::BigDecimal as S2ProtoUnpack<&str>>::unpack("-0.5").unwrap();
    let text: String = d.pack().unwrap();
    assert_eq!(text, "-0.5");
    assert!(matches!(
        <bigdecimal::BigDecimal as S2ProtoUnpack<&str>>::unpack(""),
        Err(Error::ParseBigDecimal { .. })
    ));
}

#[test]
fn duration_list_fails_at_first_negative() {
    let wire = vec![
        Duration { seconds: 1, nanos: 0 },
        Duration { seconds: -1, nanos: 0 },
        Duration { seconds: 2, nanos: 0 },
    ];
    match Vec::<TimeDelta>::unpack(wire) {
        Err(Error::ListElement { source, index }) => {
            assert_eq!(index, 1);
            assert!(matches!(*source, Error::ParseDuration { .. }));
        }
        other => panic!("unexpected {:?}", other),
    }
}

#[test]
fn negative_duration_message() {
    let r: Result<Duration, Error> = TimeDelta::new(-3, 0).unwrap().pack();
    let e = r.unwrap_err();
    assert!(matches!(&e, Error::ParseDuration { message }
        if message == "Source duration value is out of range for the target type"));
    assert_eq!(
        e.message(),
        "Could not convert duration: Source duration value is out of range for the target type"
    );
}

#[test]
fn enum_not_found_message() {
    let m = EnumMapping::new("EnumModel", vec![0, 1]).unwrap();
    let e = m.unpack(2).unwrap_err();
    assert_eq!(e.message(), "Enum discriminant is not found: enum type = EnumModel, discriminant = 2");
    let nested = Error::ListElement {
        source: Box::new(Error::MapEntry { source: Box::new(Error::ValueNotPresent) }),
        index: 10,
    };
    assert_eq!(
        nested.message(),
        "List element 10: Map entry: Could not unpack a non-optional value from null"
    );
    assert_eq!(
        Error::TimestampOutOfRange { seconds: i64::MIN, nanos: 0 }.message(),
        "Timestamp out of range: seconds = -9223372036854775808, nanos = 0"
    );
}

#[test]
fn integer_numbers_never_pack_to_null() {
    let packed = json_value_to_value(JsonValue::Number(JsonNumber::NegInt(i64::MIN))).unwrap();
    assert_eq!(packed, wire_number(i64::MIN as f64));
}

#[test]
fn ninety_nine_nested_arrays_fit_and_one_hundred_do_not() {
    let chain = |n: usize| {
        let mut v = JsonValue::Number(float(0.5));
        for _ in 0..n {
            v = JsonValue::Array(vec![v]);
        }
        v
    };
    assert!(json_value_to_value(chain(99)).is_ok());
    assert!(matches!(json_value_to_value(chain(100)), Err(Error::JsonValueNestedTooDeeply)));
}

#[test]
fn calendar_range_bounds() {
    assert!(DateTimeUtc::from_timestamp(-8_334_601_228_800, 0).is_some());
    assert!(DateTimeUtc::from_timestamp(-8_334_601_228_801, 999_999_999).is_none());
    assert!(DateTimeUtc::from_timestamp(8_210_266_876_799, 999_999_999).is_some());
    assert!(DateTimeUtc::from_timestamp(8_210_266_876_800, 0).is_none());
}
