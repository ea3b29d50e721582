use abigen_core::abi::{CustomType, Error, Property};
use abigen_core::codec::{from_token, into_token};
use abigen_core::codegen::{expand_custom_enum, expand_custom_struct};
use abigen_core::names::extract_custom_type_name_from_abi_property;
use abigen_core::params::{CallParameters, CompiledScript, TxParameters, DEFAULT_GAS_LIMIT};
use abigen_core::resolve::parse_param;
use abigen_core::types::{EnumVariants, ParamType, Token, Value};

fn prop(name: &str, type_field: &str, components: Option<Vec<Property>>) -> Property {
    Property {
        name: name.to_string(),
        type_field: type_field.to_string(),
        components,
    }
}

fn cocktail() -> Property {
    prop(
        "unused",
        "struct Cocktail",
        Some(vec![
            prop("long_island", "bool", None),
            prop("cosmopolitan", "u64", None),
            prop("mojito", "u32", None),
        ]),
    )
}

fn matcha_tea() -> Property {
    prop(
        "unused",
        "enum MatchaTea",
        Some(vec![
            prop("LongIsland", "u64", None),
            prop("MoscowMule", "bool", None),
        ]),
    )
}

fn matcha_catalog() -> EnumVariants {
    EnumVariants::new(vec![ParamType::U64, ParamType::Bool]).unwrap()
}

#[test]
fn cocktail_struct_codec() {
    let t = parse_param(&cocktail()).unwrap();
    assert_eq!(
        t,
        ParamType::Struct(vec![ParamType::Bool, ParamType::U64, ParamType::U32])
    );
    let v = Value::Struct(vec![Value::Bool(true), Value::U64(7), Value::U32(3)]);
    let tok = into_token(&t, &v);
    assert_eq!(
        tok,
        Token::Struct(vec![Token::Bool(true), Token::U64(7), Token::U32(3)])
    );
    assert_eq!(from_token(&t, &tok).unwrap(), v);
}

#[test]
fn matcha_tea_discriminants() {
    let t = parse_param(&matcha_tea()).unwrap();
    assert_eq!(t, ParamType::Enum(matcha_catalog()));
    let first = into_token(&t, &Value::Enum(0, Box::new(Value::U64(9))));
    assert_eq!(
        first,
        Token::Enum(Box::new((0, Token::U64(9), matcha_catalog())))
    );
    let tok = into_token(&t, &Value::Enum(1, Box::new(Value::Bool(true))));
    assert_eq!(
        tok,
        Token::Enum(Box::new((1, Token::Bool(true), matcha_catalog())))
    );
    assert_eq!(
        from_token(&t, &tok).unwrap(),
        Value::Enum(1, Box::new(Value::Bool(true)))
    );
    let bad = Token::Enum(Box::new((5, Token::Bool(true), matcha_catalog())));
    assert!(matches!(
        from_token(&t, &bad),
        Err(Error::InstantiationError(_))
    ));
}

#[test]
fn enum_without_variants_is_rejected() {
    let none = prop("unused", "enum Empty", None);
    let empty = prop("unused", "enum Empty", Some(vec![]));
    assert!(matches!(
        expand_custom_enum("Empty", &none),
        Err(Error::InvalidType(_))
    ));
    assert!(matches!(
        expand_custom_enum("Empty", &empty),
        Err(Error::InvalidType(_))
    ));
    assert!(matches!(parse_param(&none), Err(Error::InvalidType(_))));
    assert!(matches!(parse_param(&empty), Err(Error::InvalidType(_))));
}

#[test]
fn kind_mismatch_and_malformed_tags() {
    let p = prop("foo", "enum Foo", None);
    assert!(matches!(
        extract_custom_type_name_from_abi_property(&p, Some(CustomType::Struct)),
        Err(Error::InvalidType(_))
    ));
    assert_eq!(
        extract_custom_type_name_from_abi_property(&p, None).unwrap(),
        "Foo"
    );
    let p = prop("foo", "nowhitespacehere", None);
    assert!(matches!(
        extract_custom_type_name_from_abi_property(&p, None),
        Err(Error::MissingData(_))
    ));
    let p = prop("foo", "struct too many words", None);
    assert!(matches!(
        extract_custom_type_name_from_abi_property(&p, Some(CustomType::Struct)),
        Err(Error::MissingData(_))
    ));
    let p = prop("foo", "[struct Foo; 2]", None);
    assert_eq!(
        extract_custom_type_name_from_abi_property(&p, Some(CustomType::Struct)).unwrap(),
        "Foo"
    );
    let p = prop("foo", "  enum \t Bar  ", None);
    assert_eq!(
        extract_custom_type_name_from_abi_property(&p, Some(CustomType::Enum)).unwrap(),
        "Bar"
    );
}

#[test]
fn nested_enum_field_delegates() {
    let bar = || {
        prop(
            "bar",
            "enum Bar",
            Some(vec![prop("A", "u8", None), prop("B", "()", None)]),
        )
    };
    let outer = prop(
        "unused",
        "struct Outer",
        Some(vec![prop("count", "u16", None), bar()]),
    );
    let t = parse_param(&outer).unwrap();
    let bar_t = parse_param(&bar()).unwrap();
    let bar_v = Value::Enum(1, Box::new(Value::Unit));
    let v = Value::Struct(vec![Value::U16(4), Value::Enum(1, Box::new(Value::Unit))]);
    match into_token(&t, &v) {
        Token::Struct(slots) => {
            assert_eq!(slots.len(), 2);
            assert_eq!(slots[1], into_token(&bar_t, &bar_v));
        }
        other => panic!("expected a struct token, got {:?}", other),
    }
    let text = expand_custom_struct(&outer).unwrap();
    assert!(text.contains("pub bar : Bar"));
    assert!(text.contains("tokens . push (self . bar . into_token ())"));
    assert!(text.contains("bar : Bar :: from_token (next_token () ?) ?"));
    assert!(text.contains("types . push (Bar :: param_type ())"));
}

#[test]
fn arrays_and_strings_collapse_tags() {
    let arr = ParamType::Array(Box::new(ParamType::U8), 3);
    let v = Value::Array(vec![Value::U8(1), Value::U8(2), Value::U8(3)]);
    assert_eq!(
        into_token(&arr, &v),
        Token::Array(vec![Token::U8(1), Token::U8(2), Token::U8(3)])
    );
    let nested = ParamType::Array(Box::new(ParamType::Array(Box::new(ParamType::Bool), 1)), 1);
    let nv = Value::Array(vec![Value::Array(vec![Value::Bool(false)])]);
    assert!(matches!(into_token(&nested, &nv), Token::Array(_)));
    let s = ParamType::String(5);
    let sv = Value::String("hello".to_string());
    assert_eq!(into_token(&s, &sv), Token::String("hello".to_string()));
    assert!(matches!(
        from_token(&s, &Token::U8(1)),
        Err(Error::InstantiationError(_))
    ));

    let p = prop(
        "unused",
        "struct Holder",
        Some(vec![prop("bytes", "[u8; 3]", None), prop("name", "str[5]", None)]),
    );
    let text = expand_custom_struct(&p).unwrap();
    assert!(text.contains("pub bytes : :: std :: vec :: Vec < u8 >"));
    assert!(text.contains("tokens . push (self . bytes . into_token ())"));
    assert!(text.contains("types . push (ParamType :: Array (Box :: new (ParamType :: U8) , 3))"));
    assert!(text.contains("pub name : String"));
    assert!(text.contains("tokens . push (Token :: String (self . name))"));
    assert!(text.contains("types . push (ParamType :: String (5))"));
}

#[test]
fn nested_value_round_trip() {
    let p = prop(
        "unused",
        "struct City",
        Some(vec![
            prop(
                "district",
                "enum District",
                Some(vec![
                    prop("Park", "()", None),
                    prop(
                        "Block",
                        "struct Block",
                        Some(vec![prop("floors", "[u16; 2]", None), prop("code", "b256", None)]),
                    ),
                ]),
            ),
            prop("label", "str[3]", None),
            prop("small", "byte", None),
        ]),
    );
    let t = parse_param(&p).unwrap();
    let v = Value::Struct(vec![
        Value::Enum(
            1,
            Box::new(Value::Struct(vec![
                Value::Array(vec![Value::U16(10), Value::U16(20)]),
                Value::B256([7u8; 32]),
            ])),
        ),
        Value::String("abc".to_string()),
        Value::Byte(9),
    ]);
    let tok = into_token(&t, &v);
    assert_eq!(from_token(&t, &tok).unwrap(), v);
    let park = Value::Struct(vec![
        Value::Enum(0, Box::new(Value::Unit)),
        Value::String("xyz".to_string()),
        Value::Byte(0),
    ]);
    let tok = into_token(&t, &park);
    assert_eq!(from_token(&t, &tok).unwrap(), park);
}

#[test]
fn struct_decoding_errors() {
    let t = parse_param(&cocktail()).unwrap();
    let short = Token::Struct(vec![Token::Bool(true), Token::U64(7)]);
    assert!(matches!(
        from_token(&t, &short),
        Err(Error::InstantiationError(_))
    ));
    assert!(matches!(
        from_token(&t, &Token::U64(1)),
        Err(Error::InstantiationError(_))
    ));
    let wrong_field = Token::Struct(vec![Token::U64(1), Token::U64(7), Token::U32(3)]);
    assert!(matches!(
        from_token(&t, &wrong_field),
        Err(Error::InstantiationError(_))
    ));
    let long = Token::Struct(vec![
        Token::Bool(false),
        Token::U64(1),
        Token::U32(2),
        Token::U8(99),
    ]);
    assert_eq!(
        from_token(&t, &long).unwrap(),
        Value::Struct(vec![Value::Bool(false), Value::U64(1), Value::U32(2)])
    );
}

#[test]
fn unit_variant_ignores_payload() {
    let t = ParamType::Enum(EnumVariants::new(vec![ParamType::Unit, ParamType::U8]).unwrap());
    let tok = Token::Enum(Box::new((
        0,
        Token::U64(123),
        EnumVariants::new(vec![ParamType::Unit, ParamType::U8]).unwrap(),
    )));
    assert_eq!(
        from_token(&t, &tok).unwrap(),
        Value::Enum(0, Box::new(Value::Unit))
    );
    assert!(matches!(
        from_token(&t, &Token::Unit),
        Err(Error::InstantiationError(_))
    ));
    assert!(EnumVariants::new(vec![]).is_none());
}

#[test]
fn resolver_cases() {
    assert_eq!(parse_param(&prop("x", "()", None)).unwrap(), ParamType::Unit);
    assert_eq!(parse_param(&prop("x", "b256", None)).unwrap(), ParamType::B256);
    assert_eq!(
        parse_param(&prop("x", "str[12]", None)).unwrap(),
        ParamType::String(12)
    );
    assert_eq!(
        parse_param(&prop("x", "[u64; 7]", None)).unwrap(),
        ParamType::Array(Box::new(ParamType::U64), 7)
    );
    assert_eq!(
        parse_param(&prop("x", "[[u8; 2]; 3]", None)).unwrap(),
        ParamType::Array(Box::new(ParamType::Array(Box::new(ParamType::U8), 2)), 3)
    );
    assert_eq!(
        parse_param(&prop(
            "x",
            "[struct P; 2]",
            Some(vec![prop("a", "u32", None)])
        ))
        .unwrap(),
        ParamType::Array(Box::new(ParamType::Struct(vec![ParamType::U32])), 2)
    );
    for bad in [
        "u128",
        "[u64; x]",
        "[u64;7]",
        "str[]",
        "str[99999999999999999999999]",
        "struct S",
        "",
    ] {
        assert!(
            matches!(parse_param(&prop("x", bad, None)), Err(Error::InvalidType(_))),
            "{}",
            bad
        );
    }
    let bad_inner = prop(
        "x",
        "struct S",
        Some(vec![prop("a", "u8", None), prop("b", "float", None)]),
    );
    assert!(matches!(parse_param(&bad_inner), Err(Error::InvalidType(_))));
}

#[test]
fn field_names_become_snake_case() {
    let p = prop(
        "unused",
        "struct Drink",
        Some(vec![prop("LongIsland", "bool", None), prop("iceCubes", "u8", None)]),
    );
    let text = expand_custom_struct(&p).unwrap();
    assert!(text.contains("{ pub long_island : bool , pub ice_cubes : u8 }"));
    assert!(text.contains("Token :: Bool (self . long_island)"));
}

#[test]
fn enum_text_for_unit_and_custom_arrays() {
    let p = prop(
        "unused",
        "enum Shape",
        Some(vec![
            prop("Empty", "()", None),
            prop("Points", "[struct Point; 2]", Some(vec![prop("x", "u64", None)])),
        ]),
    );
    let text = expand_custom_enum("Shape", &p).unwrap();
    assert!(text.contains("pub enum Shape { Empty () , Points (:: std :: vec :: Vec < Point >) }"));
    assert!(text.contains("Shape :: Points (value) => (1u8 , value . into_token ())"));
    assert!(text.contains("Shape :: Empty () => (0u8 , Token :: Unit)"));
    assert!(text.contains("(0u8 , token , _) => Ok (Shape :: Empty ()) ,"));
    assert!(text.contains("types . push (ParamType :: Array (Box :: new (Point :: param_type ()) , 2))"));
    assert!(text.contains("(1u8 , token , _) => Ok (Shape :: Points (< :: std :: vec :: Vec < Point > > :: from_token (token) ?)) ,"));
}

#[test]
fn struct_generation_errors() {
    let no_fields = prop("unused", "struct Lonely", None);
    assert!(matches!(
        expand_custom_struct(&no_fields),
        Err(Error::InvalidType(_))
    ));
    let enum_tag = prop("unused", "enum Lonely", Some(vec![prop("a", "u8", None)]));
    assert!(matches!(
        expand_custom_struct(&enum_tag),
        Err(Error::InvalidType(_))
    ));
    let bad_tag = prop("unused", "Lonely", Some(vec![prop("a", "u8", None)]));
    assert!(matches!(
        expand_custom_struct(&bad_tag),
        Err(Error::MissingData(_))
    ));
    let bad_field = prop("unused", "struct S", Some(vec![prop("a", "float", None)]));
    assert!(matches!(
        expand_custom_struct(&bad_field),
        Err(Error::InvalidType(_))
    ));
}

#[test]
fn many_variants_get_their_index() {
    let cs: Vec<Property> = (0..12).map(|i| prop(&format!("V{}", i), "u8", None)).collect();
    let p = prop("unused", "enum Many", Some(cs));
    let text = expand_custom_enum("Many", &p).unwrap();
    assert!(text.contains("Many :: V11 (value) => (11u8 , Token :: U8 (value))"));
    let most: Vec<Property> = (0..256).map(|i| prop(&format!("V{}", i), "bool", None)).collect();
    let p = prop("unused", "enum Most", Some(most));
    let text = expand_custom_enum("Most", &p).unwrap();
    assert!(text.contains("Most :: V255 (value) => (255u8 , Token :: Bool (value))"));
    let too_many: Vec<Property> = (0..257).map(|i| prop(&format!("V{}", i), "u8", None)).collect();
    let p = prop("unused", "enum Many", Some(too_many));
    assert!(matches!(
        expand_custom_enum("Many", &p),
        Err(Error::InvalidType(_))
    ));
}

#[test]
fn parameters_and_defaults() {
    let tx = TxParameters::new(None, Some(5), None, Some(2));
    assert_eq!(tx.gas_price, 0);
    assert_eq!(tx.gas_limit, 5);
    assert_eq!(tx.byte_price, 0);
    assert_eq!(tx.maturity, 2);
    let d = TxParameters::default();
    assert_eq!(d.gas_limit, DEFAULT_GAS_LIMIT);
    assert_eq!(d.gas_limit, 1_000_000);
    let c = CallParameters::new(Some(10), None, None);
    assert_eq!(c.gas_to_forward, Some(10));
    assert_eq!(c.amount, 0);
    assert_eq!(c.asset_id, [0u8; 32]);
    let c = CallParameters::new(None, Some(3), Some([1u8; 32]));
    assert_eq!(c.amount, 3);
    assert_eq!(c.asset_id, [1u8; 32]);
    let c = CallParameters::default();
    assert_eq!(c.gas_to_forward, None);
    let s = CompiledScript {
        raw: vec![1, 2],
        target_network_url: "localhost".to_string(),
    };
    assert_eq!(s.clone().raw, vec![1, 2]);
}

#[test]
fn error_messages_name_what_failed() {
    let p = prop("foo", "enum Foo", None);
    assert_eq!(
        extract_custom_type_name_from_abi_property(&p, Some(CustomType::Struct)),
        Err(Error::InvalidType("Expected struct but enum was declared".to_string()))
    );
    let p = prop("foo", "nowhitespacehere", None);
    assert_eq!(
        extract_custom_type_name_from_abi_property(&p, Some(CustomType::Enum)),
        Err(Error::MissingData(
            "The declared type was not in the format `{enum,struct} name`".to_string()
        ))
    );
    let empty = prop("unused", "unused", Some(vec![]));
    assert_eq!(
        expand_custom_enum("TheEmptyEnum", &empty),
        Err(Error::InvalidType(
            "Enum 'TheEmptyEnum' must have at least one variant, and at most 256!".to_string()
        ))
    );
    let lonely = prop("unused", "struct Lonely", None);
    assert_eq!(
        expand_custom_struct(&lonely),
        Err(Error::InvalidType(
            "Struct 'Lonely' must have at least one field!".to_string()
        ))
    );
}

#[test]
fn struct_generation_propagates_the_first_error() {
    let bad = prop("b", "float", None);
    let p = prop(
        "unused",
        "struct S",
        Some(vec![prop("a", "u8", None), prop("b", "float", None), prop("c", "double", None)]),
    );
    assert_eq!(expand_custom_struct(&p), Err(parse_param(&bad).unwrap_err()));
    assert_eq!(
        expand_custom_struct(&p),
        Err(Error::InvalidType("Could not resolve type 'float'".to_string()))
    );
    let wrong_kind = prop("unused", "enum S", Some(vec![prop("a", "u8", None)]));
    assert_eq!(
        expand_custom_struct(&wrong_kind),
        Err(extract_custom_type_name_from_abi_property(&wrong_kind, Some(CustomType::Struct)).unwrap_err())
    );
    let nested_bad_name = prop(
        "unused",
        "struct S",
        Some(vec![prop("inner", "struct", Some(vec![prop("x", "u8", None)]))]),
    );
    assert!(matches!(
        expand_custom_struct(&nested_bad_name),
        Err(Error::MissingData(_))
    ));
}

#[test]
fn array_members_use_their_own_token() {
    let p = prop(
        "unused",
        "enum Shape",
        Some(vec![prop("Points", "[u64; 7]", None)]),
    );
    let text = expand_custom_enum("Shape", &p).unwrap();
    assert!(text.contains("Shape :: Points (value) => (0u8 , value . into_token ())"));
    assert!(!text.contains("vec ! ["));
    let t = parse_param(&prop("x", "[u64; 2]", None)).unwrap();
    let v = Value::Array(vec![Value::U64(1), Value::U64(2)]);
    let tok = into_token(&t, &v);
    assert_eq!(tok, Token::Array(vec![Token::U64(1), Token::U64(2)]));
    assert_eq!(from_token(&t, &tok).unwrap(), v);
}
