use strict_types::confinement::ConfinementError;
use strict_types::encoding::error::DecodeError;
use strict_types::encoding::ident::Ident;
use strict_types::encoding::reader::StrictReader;
use strict_types::value::reify::Error;
use strict_types::value::system::{SymTy, TypeSystem};
use strict_types::value::ty::{
    EnumVariants, Field, Primitive, SemId, Sizing, Ty, TypeSpec, UnionVariant, UnionVariants,
    Variant,
};
use strict_types::value::val::{StrictNum, StrictVal, TypedVal};

fn id(n: u128) -> SemId {
    SemId::new(0, 100 + n)
}

fn entry(n: u128, name: Option<&str>, ty: Ty) -> SymTy {
    SymTy { id: id(n), name: name.map(|s| s.to_string()), ty }
}

fn sizing(max: u64) -> Sizing {
    Sizing { min: 0, max }
}

fn test_system() -> TypeSystem {
    let mut sys = TypeSystem::new();
    let unicode = SemId::unicode_char();
    let ascii = SemId::ascii_char();
    assert!(sys.insert(entry(1, Some("TestLib.Name"), Ty::ListOf(unicode, sizing(255)))));
    assert!(sys.insert(entry(2, Some("TestLib.Ticker"), Ty::ListOf(ascii, sizing(8)))));
    let precision = EnumVariants {
        variants: vec![
            Variant { name: Ident::from_static("indivisible"), tag: 0 },
            Variant { name: Ident::from_static("twoDecimals"), tag: 2 },
        ],
    };
    assert!(sys.insert(entry(3, Some("TestLib.Precision"), Ty::Enum(precision))));
    let nominal = vec![
        Field { name: Ident::from_static("name"), ty: id(1) },
        Field { name: Ident::from_static("ticker"), ty: id(2) },
        Field { name: Ident::from_static("precision"), ty: id(3) },
    ];
    assert!(sys.insert(entry(4, Some("TestLib.Nominal"), Ty::Struct(nominal))));
    assert!(sys.insert(entry(5, Some("TestLib.U8"), Ty::Primitive(Primitive::U8))));
    assert!(sys.insert(entry(6, Some("TestLib.U16"), Ty::Primitive(Primitive::U16))));
    assert!(sys.insert(entry(7, Some("TestLib.Bytes"), Ty::ListOf(id(5), sizing(300)))));
    assert!(sys.insert(entry(8, Some("TestLib.Pair"), Ty::Tuple(vec![id(5), id(6)]))));
    let choice = UnionVariants {
        variants: vec![
            UnionVariant { name: Ident::from_static("small"), tag: 0, ty: id(5) },
            UnionVariant { name: Ident::from_static("pair"), tag: 1, ty: id(8) },
        ],
    };
    assert!(sys.insert(entry(9, Some("TestLib.Choice"), Ty::Union(choice))));
    assert!(sys.insert(entry(10, Some("TestLib.Words"), Ty::SetOf(id(6), sizing(255)))));
    assert!(sys.insert(entry(11, Some("TestLib.Table"), Ty::MapOf(id(5), id(6), sizing(255)))));
    assert!(sys.insert(entry(12, Some("TestLib.Array"), Ty::ArrayOf(id(5), 4))));
    assert!(sys.insert(entry(13, Some("TestLib.Char"), Ty::UnicodeChar)));
    assert!(sys.insert(entry(14, Some("TestLib.Dangling"), Ty::Tuple(vec![id(5), id(99)]))));
    assert!(sys.insert(entry(15, Some("TestLib.Huge"), Ty::ListOf(id(5), sizing(u64::MAX)))));
    assert!(sys.insert(entry(16, Some("TestLib.Text16"), Ty::ListOf(unicode, sizing(300)))));
    assert!(sys.insert(entry(17, Some("TestLib.I24"), Ty::Primitive(Primitive::I24))));
    assert!(sys.insert(entry(18, Some("TestLib.Other"), Ty::Primitive(Primitive::Other(77)))));
    assert!(sys.insert(entry(19, Some("TestLib.Letters"), Ty::SetOf(ascii, sizing(255)))));
    sys
}

fn load(sys: &TypeSystem, name: &str, bytes: Vec<u8>) -> (Result<TypedVal, Error>, Vec<u8>) {
    let mut reader = StrictReader::in_memory(bytes);
    let r = sys.load(TypeSpec::named(name), &mut reader);
    (r, reader.unbox())
}

fn loaded(sys: &TypeSystem, name: &str, bytes: Vec<u8>) -> StrictVal {
    let (r, rest) = load(sys, name, bytes);
    assert!(rest.is_empty());
    r.unwrap().val
}

fn nominal_bytes() -> Vec<u8> {
    let mut bytes = vec![9u8];
    bytes.extend_from_slice(b"Some name");
    bytes.push(4);
    bytes.extend_from_slice(b"TICK");
    bytes.push(2);
    bytes
}

#[test]
fn typify() {
    let sys = test_system();
    let (checked, rest) = load(&sys, "TestLib.Nominal", nominal_bytes());
    let checked = checked.unwrap();
    assert!(rest.is_empty());
    assert_eq!(checked.spec, TypeSpec::named("TestLib.Nominal"));
    assert_eq!(
        sys.render(&checked).unwrap(),
        r#"(name="Some name", ticker="TICK", precision=twoDecimals)"#
    );
}

#[test]
fn struct_fields_keep_declared_order() {
    let sys = test_system();
    let val = loaded(&sys, "TestLib.Nominal", nominal_bytes());
    assert_eq!(val.field_count(), 3);
    let names: Vec<String> =
        (0..3).map(|i| val.field_at(i).unwrap().0.to_string()).collect();
    assert_eq!(names, vec!["name", "ticker", "precision"]);
    assert_eq!(val.field_at(0).unwrap().1, &StrictVal::Text("Some name".to_string()));
    assert_eq!(val.field_at(1).unwrap().1, &StrictVal::Text("TICK".to_string()));
    assert_eq!(val.field_at(2).unwrap().1, &StrictVal::Enum(2));
    assert!(val.field_at(3).is_none());
    let expected = StrictVal::structure(vec![
        (Ident::from_static("name"), StrictVal::Text("Some name".to_string())),
        (Ident::from_static("ticker"), StrictVal::Text("TICK".to_string())),
        (Ident::from_static("precision"), StrictVal::enumer(2)),
    ]);
    assert_eq!(val, expected);
}

#[test]
fn structure_replaces_repeated_names_in_place() {
    let val = StrictVal::structure(vec![
        (Ident::from_static("a"), StrictVal::unsigned(1)),
        (Ident::from_static("b"), StrictVal::unsigned(2)),
        (Ident::from_static("a"), StrictVal::unsigned(3)),
    ]);
    assert_eq!(val.field_count(), 2);
    assert_eq!(val.field_at(0).unwrap().0.as_str(), "a");
    assert_eq!(val.field_at(0).unwrap().1, &StrictVal::unsigned(3));
    assert_eq!(val.field_at(1).unwrap().0.as_str(), "b");
    assert_eq!(StrictVal::unsigned(1).field_count(), 0);
    assert!(StrictVal::unsigned(1).field_at(0).is_none());
}

#[test]
fn load_reads_exactly_the_value() {
    let sys = test_system();
    let (r, rest) = load(&sys, "TestLib.U16", vec![0x34, 0x12, 0xAA, 0xBB]);
    assert_eq!(r.unwrap().val, StrictVal::unsigned(0x1234));
    assert_eq!(rest, vec![0xAA, 0xBB]);
}

#[test]
fn load_integers_of_every_width() {
    let mut sys = TypeSystem::new();
    let prims = [
        Primitive::U8,
        Primitive::U16,
        Primitive::U24,
        Primitive::U32,
        Primitive::U64,
        Primitive::U128,
        Primitive::I8,
        Primitive::I16,
        Primitive::I32,
        Primitive::I64,
        Primitive::I128,
    ];
    for (i, p) in prims.iter().enumerate() {
        assert!(sys.insert(SymTy { id: id(i as u128), name: None, ty: Ty::Primitive(*p) }));
    }
    let widths = [1usize, 2, 3, 4, 8, 16, 1, 2, 4, 8, 16];
    for (i, w) in widths.iter().enumerate() {
        let mut bytes = vec![0xFFu8; *w];
        bytes[0] = 0xFE;
        let mut reader = StrictReader::in_memory(bytes);
        let val = sys.load(TypeSpec::SemId(id(i as u128)), &mut reader).unwrap().val;
        let expected = if i < 6 {
            let all = if *w == 16 { u128::MAX } else { (1u128 << (8 * w)) - 1 };
            StrictVal::Number(StrictNum::Uint(all - 1))
        } else {
            StrictVal::Number(StrictNum::Int(-2))
        };
        assert_eq!(val, expected);
        assert_eq!(reader.unread_len(), 0);
    }
    let mut reader = StrictReader::in_memory(vec![0x03, 0x02, 0x01]);
    let val = sys.load(TypeSpec::SemId(id(2)), &mut reader).unwrap().val;
    assert_eq!(val, StrictVal::unsigned(0x010203));
    let mut reader = StrictReader::in_memory(vec![0x00, 0x80]);
    let val = sys.load(TypeSpec::SemId(id(7)), &mut reader).unwrap().val;
    assert_eq!(val, StrictVal::signed(-32768));
}

#[test]
fn load_truncated_integer_fails() {
    let sys = test_system();
    let (r, _) = load(&sys, "TestLib.U16", vec![1]);
    assert_eq!(r, Err(Error::Decode(DecodeError::UnexpectedEof)));
}

#[test]
fn load_absent_type_fails() {
    let sys = test_system();
    let (r, rest) = load(&sys, "TestLib.Missing", vec![1, 2]);
    assert_eq!(r, Err(Error::TypeAbsent(TypeSpec::named("TestLib.Missing"))));
    assert_eq!(rest, vec![1, 2]);
    let (r, _) = load(&sys, "TestLib.Dangling", vec![1, 2]);
    assert_eq!(r, Err(Error::TypeAbsent(TypeSpec::SemId(id(99)))));
}

#[test]
fn load_unsupported_shapes_fail() {
    let sys = test_system();
    let (r, _) = load(&sys, "TestLib.Array", vec![1, 2, 3, 4]);
    assert_eq!(
        r,
        Err(Error::NotImplemented(
            "loading a fixed-size array into a typed value is not yet implemented".to_string()
        ))
    );
    let (r, _) = load(&sys, "TestLib.Char", vec![65]);
    assert_eq!(
        r,
        Err(Error::NotImplemented(
            "loading a Unicode character into a typed value is not yet implemented".to_string()
        ))
    );
    let (r, _) = load(&sys, "TestLib.I24", vec![1, 2, 3]);
    assert_eq!(
        r,
        Err(Error::NotImplemented(
            "loading I24 into a typed value is not yet implemented".to_string()
        ))
    );
    let (r, _) = load(&sys, "TestLib.Other", vec![1, 2, 3]);
    assert_eq!(
        r,
        Err(Error::NotImplemented(
            "loading Primitive#77 into a typed value is not yet implemented".to_string()
        ))
    );
}

#[test]
fn load_enum_checks_the_tag() {
    let sys = test_system();
    assert_eq!(loaded(&sys, "TestLib.Precision", vec![0]), StrictVal::Enum(0));
    assert_eq!(loaded(&sys, "TestLib.Precision", vec![2]), StrictVal::Enum(2));
    for tag in [1u8, 3, 5, 255] {
        let (r, _) = load(&sys, "TestLib.Precision", vec![tag]);
        assert_eq!(
            r,
            Err(Error::Decode(DecodeError::EnumTagNotKnown("TestLib.Precision".to_string(), tag)))
        );
    }
    let (r, _) = load(&sys, "TestLib.Precision", vec![]);
    assert_eq!(r, Err(Error::Decode(DecodeError::UnexpectedEof)));
}

#[test]
fn enum_tag_error_names_the_identifier() {
    let sys = test_system();
    let mut reader = StrictReader::in_memory(vec![5]);
    let r = sys.load(TypeSpec::SemId(id(3)), &mut reader);
    let mut text = "0".repeat(62);
    text.push_str("67");
    assert_eq!(r, Err(Error::Decode(DecodeError::EnumTagNotKnown(text, 5))));
}

#[test]
fn load_union_reads_ordinal_then_payload() {
    let sys = test_system();
    assert_eq!(
        loaded(&sys, "TestLib.Choice", vec![0, 7]),
        StrictVal::union(0, StrictVal::unsigned(7))
    );
    assert_eq!(
        loaded(&sys, "TestLib.Choice", vec![1, 7, 1, 2]),
        StrictVal::union(
            1,
            StrictVal::tuple(vec![StrictVal::unsigned(7), StrictVal::unsigned(0x0201)])
        )
    );
    let (r, _) = load(&sys, "TestLib.Choice", vec![2, 7]);
    assert_eq!(
        r,
        Err(Error::Decode(DecodeError::EnumTagNotKnown("TestLib.Choice".to_string(), 2)))
    );
    let (r, _) = load(&sys, "TestLib.Choice", vec![1, 7, 1]);
    assert_eq!(r, Err(Error::Decode(DecodeError::UnexpectedEof)));
}

#[test]
fn load_list_with_two_byte_length() {
    let sys = test_system();
    assert_eq!(
        loaded(&sys, "TestLib.Bytes", vec![3, 0, 10, 20, 30]),
        StrictVal::ListOf(vec![
            StrictVal::unsigned(10),
            StrictVal::unsigned(20),
            StrictVal::unsigned(30)
        ])
    );
    let mut bytes = vec![0x2C, 0x01];
    bytes.extend(std::iter::repeat(7u8).take(300));
    match loaded(&sys, "TestLib.Bytes", bytes) {
        StrictVal::ListOf(items) => assert_eq!(items.len(), 300),
        other => panic!("not a list: {:?}", other),
    }
    assert_eq!(loaded(&sys, "TestLib.Bytes", vec![0, 0]), StrictVal::ListOf(vec![]));
}

#[test]
fn load_list_with_too_few_items_fails() {
    let sys = test_system();
    let (r, _) = load(&sys, "TestLib.Bytes", vec![3, 0, 10, 20]);
    assert_eq!(r, Err(Error::Decode(DecodeError::UnexpectedEof)));
    let (r, _) = load(&sys, "TestLib.Bytes", vec![3]);
    assert_eq!(r, Err(Error::Decode(DecodeError::UnexpectedEof)));
}

#[test]
fn load_list_without_tier_reads_eight_byte_length() {
    let sys = test_system();
    assert_eq!(
        loaded(&sys, "TestLib.Huge", vec![2, 0, 0, 0, 0, 0, 0, 0, 5, 6]),
        StrictVal::ListOf(vec![StrictVal::unsigned(5), StrictVal::unsigned(6)])
    );
}

#[test]
fn load_set_keeps_repeated_items() {
    let sys = test_system();
    assert_eq!(
        loaded(&sys, "TestLib.Words", vec![2, 1, 0, 1, 0]),
        StrictVal::SetOf(vec![StrictVal::unsigned(1), StrictVal::unsigned(1)])
    );
}

#[test]
fn load_map_reads_key_then_value() {
    let sys = test_system();
    assert_eq!(
        loaded(&sys, "TestLib.Table", vec![2, 9, 1, 0, 8, 2, 0]),
        StrictVal::MapOf(vec![
            (StrictVal::unsigned(9), StrictVal::unsigned(1)),
            (StrictVal::unsigned(8), StrictVal::unsigned(2)),
        ])
    );
    let (r, _) = load(&sys, "TestLib.Table", vec![2, 9, 1, 0, 8]);
    assert_eq!(r, Err(Error::Decode(DecodeError::UnexpectedEof)));
}

#[test]
fn load_tuple_reads_fields_in_order() {
    let sys = test_system();
    assert_eq!(
        loaded(&sys, "TestLib.Pair", vec![1, 2, 3]),
        StrictVal::tuple(vec![StrictVal::unsigned(1), StrictVal::unsigned(0x0302)])
    );
}

#[test]
fn tiny_texts_agree_on_ascii_content() {
    let sys = test_system();
    let bytes = vec![4, b'T', b'I', b'C', b'K'];
    let unicode = loaded(&sys, "TestLib.Name", bytes.clone());
    let ascii = loaded(&sys, "TestLib.Ticker", bytes.clone());
    assert_eq!(unicode, StrictVal::Text("TICK".to_string()));
    assert_eq!(ascii, unicode);
    assert_eq!(loaded(&sys, "TestLib.Letters", bytes), unicode);
}

#[test]
fn unicode_text_is_utf8() {
    let sys = test_system();
    let text = "naïve ☃";
    let mut bytes = vec![text.len() as u8];
    bytes.extend_from_slice(text.as_bytes());
    assert_eq!(loaded(&sys, "TestLib.Name", bytes.clone()), StrictVal::Text(text.to_string()));
    let (r, _) = load(&sys, "TestLib.Ticker", bytes);
    assert_eq!(r, Err(Error::Decode(DecodeError::Ascii)));
    let (r, _) = load(&sys, "TestLib.Name", vec![2, 0xC3, 0x28]);
    assert_eq!(r, Err(Error::Decode(DecodeError::Utf8)));
    let (r, _) = load(&sys, "TestLib.Name", vec![3, b'a']);
    assert_eq!(r, Err(Error::Decode(DecodeError::UnexpectedEof)));
}

#[test]
fn small_text_has_three_byte_length() {
    let sys = test_system();
    assert_eq!(
        loaded(&sys, "TestLib.Text16", vec![2, 0, 0, b'o', b'k']),
        StrictVal::Text("ok".to_string())
    );
    let mut bytes = vec![0, 0, 1];
    bytes.extend(std::iter::repeat(b'x').take(65536));
    let (r, _) = load(&sys, "TestLib.Text16", bytes);
    assert_eq!(
        r,
        Err(Error::Decode(DecodeError::Confinement(ConfinementError::Oversize {
            len: 65536,
            max_len: 65535
        })))
    );
}

#[test]
fn store_is_not_supported() {
    let sys = test_system();
    let obj = TypedVal { val: StrictVal::unsigned(1), spec: TypeSpec::named("TestLib.U8") };
    let mut sink = vec![1u8];
    let r = sys.store(TypeSpec::named("TestLib.U8"), obj, &mut sink);
    assert_eq!(r, Err(Error::NotImplemented("storing a typed value".to_string())));
    assert_eq!(sink, vec![1]);
}

#[test]
fn schema_accepts_only_what_keeps_it_layered() {
    let mut sys = TypeSystem::new();
    assert_eq!(sys.len(), 0);
    assert!(sys.insert(entry(1, Some("A"), Ty::Tuple(vec![id(2)]))));
    assert!(!sys.insert(entry(1, Some("B"), Ty::UnicodeChar)));
    assert!(!sys.insert(entry(3, Some("A"), Ty::UnicodeChar)));
    assert!(!sys.insert(entry(2, Some("C"), Ty::UnicodeChar)));
    assert!(!sys.insert(entry(4, Some("D"), Ty::ListOf(id(4), sizing(10)))));
    assert!(sys.insert(entry(5, None, Ty::MapOf(id(1), id(1), sizing(10)))));
    assert_eq!(sys.len(), 2);
    assert!(sys.refers_to(id(2)));
    assert!(sys.refers_to(id(1)));
    assert!(!sys.refers_to(id(5)));
    assert!(sys.find(&TypeSpec::named("A")).is_some());
    assert!(sys.find(&TypeSpec::SemId(id(5))).is_some());
    assert!(sys.find(&TypeSpec::named("B")).is_none());
}

#[test]
fn identifiers_as_text() {
    assert_eq!(SemId::new(0, 1), SemId::unicode_char());
    assert_eq!(SemId::new(0, 2), SemId::ascii_char());
    assert!(SemId::unicode_char().is_unicode_char());
    assert!(!SemId::unicode_char().is_ascii_char());
    assert!(SemId::ascii_char().is_ascii_char());
    let id = SemId::new(0x0123456789ABCDEF_0000000000000000, 0xFF);
    assert_eq!(
        id.to_string(),
        "0123456789abcdef0000000000000000000000000000000000000000000000ff"
    );
    assert_eq!(TypeSpec::named("Lib.Type").to_string(), "Lib.Type");
    assert_eq!(TypeSpec::SemId(id).to_string(), id.to_string());
    assert_eq!(TypeSpec::SemId(id).duplicate(), TypeSpec::SemId(id));
    assert_eq!(Primitive::U24.name(), "U24");
    assert_eq!(Primitive::Other(200).name(), "Primitive#200");
}

#[test]
fn render_every_shape() {
    let sys = test_system();
    let show = |name: &str, bytes: Vec<u8>| {
        let (r, _) = load(&sys, name, bytes);
        sys.render(&r.unwrap()).unwrap()
    };
    assert_eq!(show("TestLib.U16", vec![0x39, 0x30]), "12345");
    assert_eq!(show("TestLib.Pair", vec![1, 2, 0]), "(1, 2)");
    assert_eq!(show("TestLib.Bytes", vec![3, 0, 10, 20, 30]), "[10, 20, 30]");
    assert_eq!(show("TestLib.Bytes", vec![0, 0]), "[]");
    assert_eq!(show("TestLib.Words", vec![2, 1, 0, 2, 0]), "{1, 2}");
    assert_eq!(show("TestLib.Table", vec![2, 9, 1, 0, 8, 2, 0]), "{9 -> 1, 8 -> 2}");
    assert_eq!(show("TestLib.Choice", vec![1, 7, 1, 2]), "pair((7, 513))");
    assert_eq!(show("TestLib.Precision", vec![0]), "indivisible");
    assert_eq!(show("TestLib.Letters", vec![2, b'h', b'i']), "\"hi\"");
}

#[test]
fn render_signed_numbers() {
    let mut sys = TypeSystem::new();
    assert!(sys.insert(SymTy { id: id(1), name: None, ty: Ty::Primitive(Primitive::I128) }));
    let show = |n: i128| {
        let val = TypedVal { val: StrictVal::signed(n), spec: TypeSpec::SemId(id(1)) };
        sys.render(&val).unwrap()
    };
    assert_eq!(show(0), "0");
    assert_eq!(show(-1), "-1");
    assert_eq!(show(i128::MIN), i128::MIN.to_string());
    assert_eq!(show(i128::MAX), i128::MAX.to_string());
}

#[test]
fn render_refuses_a_value_of_another_shape() {
    let sys = test_system();
    let val = TypedVal { val: StrictVal::Enum(1), spec: TypeSpec::named("TestLib.Precision") };
    assert_eq!(sys.render(&val), None);
    let val = TypedVal { val: StrictVal::unsigned(1), spec: TypeSpec::named("TestLib.Pair") };
    assert_eq!(sys.render(&val), None);
    let val = TypedVal { val: StrictVal::unsigned(1), spec: TypeSpec::named("TestLib.Missing") };
    assert_eq!(sys.render(&val), None);
    let val = TypedVal {
        val: StrictVal::structure(vec![
            (Ident::from_static("ticker"), StrictVal::Text("T".to_string())),
            (Ident::from_static("name"), StrictVal::Text("N".to_string())),
            (Ident::from_static("precision"), StrictVal::Enum(0)),
        ]),
        spec: TypeSpec::named("TestLib.Nominal"),
    };
    assert_eq!(sys.render(&val), None);
}
