use strict_types::confinement::ConfinementError;
use strict_types::encoding::builders::{EnumWriter, UnionWriter};
use strict_types::encoding::ident::{Ident, InvalidIdent};
use strict_types::encoding::primitives::{read_int, read_u24, read_uint};
use strict_types::encoding::reader::StrictReader;
use strict_types::encoding::error::DecodeError;
use strict_types::encoding::text::{read_ascii, read_len, read_string};
use strict_types::encoding::traits::{
    DefineEnum, DefineStruct, DefineTuple, DefineUnion, StrictDecode, StrictEncode, StrictParent,
    ToIdent, ToMaybeIdent, TypedRead, TypedWrite, WriteEnum, WriteStruct, WriteTuple, WriteUnion,
};
use strict_types::encoding::writer::StrictWriter;

const NO_NAME: Option<&'static str> = None;

#[test]
fn identifiers_are_validated() {
    assert_eq!(Ident::try_from("field_1".to_string()).unwrap().as_str(), "field_1");
    assert_eq!(Ident::try_from("_x".to_string()).unwrap().to_string(), "_x");
    assert_eq!(Ident::try_from(String::new()), Err(InvalidIdent::Empty));
    assert_eq!(Ident::try_from("1abc".to_string()), Err(InvalidIdent::NonAlphabetic('1')));
    assert_eq!(Ident::try_from("ab-c d".to_string()), Err(InvalidIdent::InvalidChar('-')));
    assert_eq!(Ident::try_from("naïve".to_string()), Err(InvalidIdent::InvalidChar('ï')));
    let a = Ident::from_static("abc");
    assert!(a.same(&a.duplicate()));
    assert!(!a.same(&Ident::from_static("abd")));
}

#[test]
fn names_become_identifiers() {
    assert_eq!("tuple".to_ident().as_str(), "tuple");
    assert_eq!("owned".to_string().to_ident().as_str(), "owned");
    assert_eq!(Ident::from_static("id").to_ident().as_str(), "id");
    assert_eq!(Some("maybe").to_maybe_ident().unwrap().as_str(), "maybe");
    assert_eq!(NO_NAME.to_maybe_ident(), None);
}

#[test]
fn tuple_is_the_fields_in_order() {
    let writer = StrictWriter::in_memory(100);
    let tuple = writer.write_tuple("Lib", Some("Pair"));
    let tuple = tuple.write_field(&0x0102u16).unwrap();
    let tuple = tuple.write_field_ord(7, &0x03u8).unwrap();
    assert_eq!(tuple.complete().unbox(), vec![2, 1, 3]);
}

#[test]
fn struct_is_the_fields_without_names() {
    let writer = StrictWriter::in_memory(100);
    let fields = writer.write_struct("Lib", NO_NAME);
    let fields = fields.write_field("first", &1u8).unwrap();
    let fields = fields.write_field_ord("second".to_string(), 9, &-1i16).unwrap();
    assert_eq!(fields.complete().unbox(), vec![1, 0xFF, 0xFF]);
}

#[test]
fn write_type_is_a_tuple_of_one() {
    let writer = StrictWriter::in_memory(100);
    let writer = writer.write_type("Lib", Some("Wrapped"), &0xAABBCCDDu32).unwrap();
    assert_eq!(writer.unbox(), vec![0xDD, 0xCC, 0xBB, 0xAA]);
}

fn color_writer(limit: usize) -> EnumWriter {
    StrictWriter::in_memory(limit)
        .define_enum("Lib", Some("Color"))
        .define_variant("red", 0)
        .define_variant("green", 10)
        .define_variant("blue", 20)
        .complete()
}

#[test]
fn enum_is_the_tag_of_the_variant() {
    let colors = color_writer(100);
    assert_eq!(colors.tag_of(&Ident::from_static("green")), Some(10));
    assert_eq!(colors.tag_of(&Ident::from_static("pink")), None);
    let colors = colors.write_variant("blue").unwrap();
    assert_eq!(colors.complete().unbox(), vec![20]);
    let r = color_writer(0).write_variant("red");
    assert_eq!(r.err(), Some(ConfinementError::Oversize { len: 1, max_len: 0 }));
}

fn shape_writer(limit: usize) -> UnionWriter {
    StrictWriter::in_memory(limit)
        .define_union("Lib", Some("Shape"))
        .define_unit("none")
        .define_type::<u16, _>("side")
        .define_tuple("sides")
        .define_field::<u8>()
        .define_field_ord::<u8>(5)
        .complete()
        .define_struct("named")
        .define_field::<u8, _>("width")
        .define_field_ord::<u8, _>("height", 3)
        .complete()
        .complete()
}

#[test]
fn union_is_the_ordinal_then_the_payload() {
    let shapes = shape_writer(100);
    assert_eq!(shapes.ord_of(&Ident::from_static("none")), Some(0));
    assert_eq!(shapes.ord_of(&Ident::from_static("named")), Some(3));
    assert_eq!(shapes.ord_of(&Ident::from_static("other")), None);
    assert_eq!(shapes.write_unit("none").unwrap().complete().unbox(), vec![0]);
    let w = shape_writer(100).write_type("side", &0x0102u16).unwrap();
    assert_eq!(w.complete().unbox(), vec![1, 2, 1]);
    let w = shape_writer(100).write_tuple("sides").unwrap();
    let w = w.write_field(&3u8).unwrap().write_field(&4u8).unwrap();
    assert_eq!(w.complete().complete().unbox(), vec![2, 3, 4]);
    let w = shape_writer(100).write_struct("named").unwrap();
    let w = w.write_field("width", &5u8).unwrap().write_field("height", &6u8).unwrap();
    assert_eq!(w.complete().complete().unbox(), vec![3, 5, 6]);
}

#[test]
fn union_respects_the_limit() {
    let r = shape_writer(2).write_type("side", &0x0102u16);
    assert_eq!(r.err(), Some(ConfinementError::Oversize { len: 3, max_len: 2 }));
    let r = shape_writer(0).write_unit("none");
    assert_eq!(r.err(), Some(ConfinementError::Oversize { len: 1, max_len: 0 }));
}

#[test]
fn write_value_encodes_into_the_parent() {
    let w = StrictWriter::in_memory(10).write_value(&0x0102u16).unwrap();
    assert_eq!(w.count(), 2);
    let w = shape_writer(10).write_value(&7u8).unwrap();
    assert_eq!(w.complete().unbox(), vec![7]);
}

#[test]
fn placeholders_are_zero() {
    assert_eq!(u8::strict_encode_dumb(), 0);
    assert_eq!(i64::strict_encode_dumb(), 0);
    assert_eq!(u128::strict_encode_dumb(), 0);
}

#[test]
fn reader_stops_at_its_limit() {
    let mut reader = StrictReader::with(2, vec![1, 2, 3]);
    assert_eq!(reader.unread_len(), 2);
    assert_eq!(reader.read_raw(3).err(), Some(DecodeError::UnexpectedEof));
    assert_eq!(reader.read_raw(2), Ok(vec![1, 2]));
    assert_eq!(reader.read_raw(1).err(), Some(DecodeError::UnexpectedEof));
    assert_eq!(reader.unbox(), Vec::<u8>::new());
    let mut reader = StrictReader::with(10, vec![1, 2, 3]);
    assert_eq!(reader.read_raw(0), Ok(vec![]));
    assert_eq!(reader.read_raw(1), Ok(vec![1]));
    assert_eq!(reader.unbox(), vec![2, 3]);
}

#[test]
fn decode_reads_from_the_front() {
    let mut reader = StrictReader::in_memory(vec![0x01, 0x02, 0xFF, 0x10, 0x20, 0x30]);
    assert_eq!(u16::strict_decode(&mut reader), Ok(0x0201));
    assert_eq!(i8::strict_decode(&mut reader), Ok(-1));
    assert_eq!(read_u24(&mut reader), Ok(0x302010));
    assert_eq!(u8::strict_decode(&mut reader), Err(DecodeError::UnexpectedEof));
    let mut reader = StrictReader::in_memory(vec![0xFE, 0xFF, 0xFF, 0xFF, 0x01]);
    assert_eq!(read_int(&mut reader, 4), Ok(-2));
    assert_eq!(read_uint(&mut reader, 1), Ok(1));
}

#[test]
fn lengths_are_read_in_the_width_of_the_tier() {
    let bytes = vec![1u8, 2, 3, 4, 5, 6, 7, 8];
    let read = |max: u64| {
        let mut reader = StrictReader::in_memory(bytes.clone());
        (read_len(&mut reader, max).unwrap(), reader.unread_len())
    };
    assert_eq!(read(255), (0x01, 7));
    assert_eq!(read(256), (0x0201, 6));
    assert_eq!(read(65535), (0x030201, 5));
    assert_eq!(read(16777215), (0x04030201, 4));
    assert_eq!(read(4294967295), (0x0807060504030201, 0));
}

#[test]
fn bounded_texts() {
    let mut reader = StrictReader::in_memory(vec![2, b'h', b'i', 1, 0xC3]);
    assert_eq!(read_string::<_, 255>(&mut reader), Ok("hi".to_string()));
    assert_eq!(read_string::<_, 255>(&mut reader), Err(DecodeError::Utf8));
    let mut reader = StrictReader::in_memory(vec![2, 0, b'h', b'i']);
    assert_eq!(read_ascii::<_, 300>(&mut reader), Ok("hi".to_string()));
    let mut reader = StrictReader::in_memory(vec![1, 0x80]);
    assert_eq!(read_ascii::<_, 255>(&mut reader), Err(DecodeError::Ascii));
    let mut reader = StrictReader::in_memory(vec![3, b'a', b'b', b'c']);
    assert_eq!(
        read_ascii::<_, 2>(&mut reader),
        Err(DecodeError::Confinement(ConfinementError::Oversize { len: 3, max_len: 2 }))
    );
    let mut reader = StrictReader::in_memory(vec![3, b'a', b'b', b'c']);
    assert_eq!(
        read_string::<_, 2>(&mut reader),
        Err(DecodeError::Confinement(ConfinementError::Oversize { len: 3, max_len: 2 }))
    );
}
