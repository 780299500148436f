use strict_types::confinement::{ConfinedVec, ConfinementError};
use strict_types::encoding::error::{DecodeError, DeserializeError, SerializeError};
use strict_types::encoding::sizing::{len_tier, len_width, text_tier, LenTier, TextTier};
use strict_types::encoding::traits::{Deserialize, Serialize, StrictEncode, TypedWrite};
use strict_types::encoding::writer::StrictWriter;

#[test]
fn len_tier_boundaries() {
    assert_eq!(len_tier(0), Some(LenTier::U8));
    assert_eq!(len_tier(255), Some(LenTier::U8));
    assert_eq!(len_tier(256), Some(LenTier::U16));
    assert_eq!(len_tier(300), Some(LenTier::U16));
    assert_eq!(len_tier(65534), Some(LenTier::U16));
    assert_eq!(len_tier(65535), Some(LenTier::U24));
    assert_eq!(len_tier(16777214), Some(LenTier::U24));
    assert_eq!(len_tier(16777215), Some(LenTier::U32));
    assert_eq!(len_tier(4294967294), Some(LenTier::U32));
    assert_eq!(len_tier(4294967295), None);
    assert_eq!(len_tier(u64::MAX), None);
}

#[test]
fn len_width_by_tier() {
    assert_eq!(len_width(255), 1);
    assert_eq!(len_width(300), 2);
    assert_eq!(len_width(65535), 3);
    assert_eq!(len_width(16777215), 4);
    assert_eq!(len_width(4294967295), 8);
}

#[test]
fn text_tier_boundaries() {
    assert_eq!(text_tier(255), Some(TextTier::Tiny));
    assert_eq!(text_tier(256), Some(TextTier::Small));
    assert_eq!(text_tier(65535), Some(TextTier::Small));
    assert_eq!(text_tier(65536), Some(TextTier::Medium));
    assert_eq!(text_tier(16777215), Some(TextTier::Medium));
    assert_eq!(text_tier(16777216), Some(TextTier::Large));
    assert_eq!(text_tier(4294967295), Some(TextTier::Large));
    assert_eq!(text_tier(4294967296), None);
    assert_eq!(TextTier::Medium.capacity(), 16777215);
}

#[test]
fn integers_are_little_endian() {
    let data = 0x1234u16.to_strict_serialized::<16>().unwrap();
    assert_eq!(data.into_inner(), vec![0x34, 0x12]);
    let data = 0xA1B2C3D4u32.to_strict_serialized::<16>().unwrap();
    assert_eq!(data.into_inner(), vec![0xD4, 0xC3, 0xB2, 0xA1]);
    let data = (-2i16).to_strict_serialized::<16>().unwrap();
    assert_eq!(data.into_inner(), vec![0xFE, 0xFF]);
    let data = i128::MIN.to_strict_serialized::<16>().unwrap();
    let mut expected = vec![0u8; 15];
    expected.push(0x80);
    assert_eq!(data.into_inner(), expected);
}

#[test]
fn serialized_len_counts_bytes() {
    assert_eq!(7u8.strict_serialized_len(), Ok(1));
    assert_eq!(7u64.strict_serialized_len(), Ok(8));
    assert_eq!((-7i128).strict_serialized_len(), Ok(16));
}

#[test]
fn round_trip_of_integers() {
    let data = 0xDEADBEEFu32.to_strict_serialized::<4>().unwrap();
    assert_eq!(u32::from_strict_serialized::<4>(data), Ok(0xDEADBEEF));
    let data = (-12345i64).to_strict_serialized::<8>().unwrap();
    assert_eq!(i64::from_strict_serialized::<8>(data), Ok(-12345));
    let data = u128::MAX.to_strict_serialized::<16>().unwrap();
    assert_eq!(u128::from_strict_serialized::<16>(data), Ok(u128::MAX));
    let data = i8::MIN.to_strict_serialized::<1>().unwrap();
    assert_eq!(i8::from_strict_serialized::<1>(data), Ok(i8::MIN));
}

#[test]
fn trailing_bytes_are_refused() {
    let data = ConfinedVec::<u8, 0, 8>::try_from(vec![1, 0, 9]).unwrap();
    assert_eq!(
        u16::from_strict_serialized::<8>(data),
        Err(DeserializeError::DataNotEntirelyConsumed)
    );
    let exact = ConfinedVec::<u8, 0, 8>::try_from(vec![1, 0]).unwrap();
    assert_eq!(u16::from_strict_serialized::<8>(exact), Ok(1));
}

#[test]
fn truncated_bytes_are_refused() {
    let data = ConfinedVec::<u8, 0, 8>::try_from(vec![1, 0, 9]).unwrap();
    assert_eq!(
        u32::from_strict_serialized::<8>(data),
        Err(DeserializeError::Decode(DecodeError::UnexpectedEof))
    );
}

#[test]
fn oversize_serialization_is_refused() {
    let r = 1u64.to_strict_serialized::<7>();
    assert_eq!(
        r.err(),
        Some(SerializeError::Confinement(ConfinementError::Oversize { len: 8, max_len: 7 }))
    );
    assert!(1u64.to_strict_serialized::<8>().is_ok());
}

#[test]
fn confinement_bounds() {
    assert_eq!(
        ConfinedVec::<u8, 2, 3>::try_from(vec![1]).err(),
        Some(ConfinementError::Undersize { len: 1, min_len: 2 })
    );
    assert_eq!(
        ConfinedVec::<u8, 2, 3>::try_from(vec![1, 2, 3, 4]).err(),
        Some(ConfinementError::Oversize { len: 4, max_len: 3 })
    );
    let ok = ConfinedVec::<u8, 2, 3>::try_from(vec![1, 2, 3]).unwrap();
    assert_eq!(ok.len(), 3);
    assert_eq!(ok.as_slice(), &[1, 2, 3]);
}

#[test]
fn raw_len_prefix_by_tier() {
    let w = StrictWriter::in_memory(100).write_raw_len::<255>(7).unwrap();
    assert_eq!(w.unbox(), vec![7]);
    let w = StrictWriter::in_memory(100).write_raw_len::<300>(258).unwrap();
    assert_eq!(w.unbox(), vec![2, 1]);
    let w = StrictWriter::in_memory(100).write_raw_len::<65535>(0x010203).unwrap();
    assert_eq!(w.unbox(), vec![3, 2, 1]);
    let w = StrictWriter::in_memory(100).write_raw_len::<16777215>(0x01020304).unwrap();
    assert_eq!(w.unbox(), vec![4, 3, 2, 1]);
}

#[test]
fn raw_bytes_and_collections() {
    let w = StrictWriter::in_memory(100).write_raw_bytes::<255>(&[9, 8, 7]).unwrap();
    assert_eq!(w.unbox(), vec![3, 9, 8, 7]);
    let col = ConfinedVec::<u16, 0, 300>::try_from(vec![1, 2, 0x0304]).unwrap();
    let w = StrictWriter::in_memory(100).write_raw_collection(&col).unwrap();
    assert_eq!(w.unbox(), vec![3, 0, 1, 0, 2, 0, 4, 3]);
}

#[test]
fn writer_limit_is_enforced() {
    let w = StrictWriter::in_memory(3);
    let w = 1u16.strict_encode(w).unwrap();
    assert_eq!(w.count(), 2);
    let r = 1u16.strict_encode(w);
    assert_eq!(r.err(), Some(ConfinementError::Oversize { len: 4, max_len: 3 }));
}

#[test]
fn counter_keeps_nothing() {
    let w = StrictWriter::counter();
    let w = 5u64.strict_encode(w).unwrap();
    let w = w.write_raw_array([1u8, 2, 3]).unwrap();
    assert_eq!(w.count(), 11);
    assert_eq!(w.unbox(), Vec::<u8>::new());
}

#[test]
fn references_encode_as_what_they_refer_to() {
    let value = 0x0102u16;
    let w = (&value).strict_encode(StrictWriter::in_memory(10)).unwrap();
    assert_eq!(w.unbox(), vec![2, 1]);
    assert_eq!(<&u16 as StrictEncode>::strict_encode_dumb(), 0u16);
}

#[test]
fn file_content_is_the_encoding() {
    assert_eq!(0x0102u16.strict_serialize_to_file::<2>(), Ok(vec![2, 1]));
    assert_eq!(
        0x0102u16.strict_serialize_to_file::<1>(),
        Err(SerializeError::Confinement(ConfinementError::Oversize { len: 2, max_len: 1 }))
    );
}

#[test]
fn file_content_is_read_up_to_the_limit() {
    assert_eq!(u16::strict_deserialize_from_file::<2>(vec![2, 1]), Ok(0x0102));
    assert_eq!(u16::strict_deserialize_from_file::<8>(vec![2, 1]), Ok(0x0102));
    assert_eq!(
        u16::strict_deserialize_from_file::<8>(vec![2, 1, 0]),
        Err(DeserializeError::DataNotEntirelyConsumed)
    );
    assert_eq!(
        u16::strict_deserialize_from_file::<2>(vec![2, 1, 0]),
        Err(DeserializeError::DataNotEntirelyConsumed)
    );
    assert_eq!(
        u16::strict_deserialize_from_file::<1>(vec![2, 1]),
        Err(DeserializeError::Decode(DecodeError::UnexpectedEof))
    );
    assert_eq!(
        u16::strict_deserialize_from_file::<8>(vec![2]),
        Err(DeserializeError::Decode(DecodeError::UnexpectedEof))
    );
}
