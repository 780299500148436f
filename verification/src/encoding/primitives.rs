//! Integers on the wire: fixed width, least significant byte first, negative
//! numbers in two's complement.

use crate::confinement::ConfinementError;
use crate::encoding::error::{DecodeError, DecodeFailure};
use crate::encoding::le::{
    decode_twos, encode_twos, from_twos, get_le, le_bytes, le_value, lemma_le_bytes_len,
    lemma_le_value_bound, lemma_le_value_of_bytes, lemma_pow256_values, lemma_twos_round_trip,
    pow256, put_le, to_twos,
};
use crate::encoding::sizing::u24_from_le_bytes;
use crate::encoding::traits::{
    Deserialize, Serialize, StrictCodec, StrictDecode, StrictEncode, TypedRead, TypedWrite,
};
use crate::encoding::writer::StrictWriter;
use vstd::prelude::*;

verus! {

/// The unsigned number in the first `width` bytes of `bytes`, where there are
/// that many.
pub open spec fn decode_uint(bytes: Seq<u8>, width: nat) -> Option<nat> {
    if bytes.len() < width {
        None
    } else {
        Some(le_value(bytes.take(width as int)))
    }
}

/// The signed number in the first `width` bytes of `bytes`, where there are
/// that many.
pub open spec fn decode_int(bytes: Seq<u8>, width: nat) -> Option<int> {
    match decode_uint(bytes, width) {
        Some(code) => Some(from_twos(code, width)),
        None => None,
    }
}

/// Reads an unsigned number of `width` bytes.
pub fn read_uint<R: TypedRead>(reader: &mut R, width: usize) -> (r: Result<u128, DecodeError>)
    requires
        width <= 16,
    ensures
        match decode_uint(old(reader).remaining(), width as nat) {
            Some(value) => r is Ok
                && r->Ok_0 == value
                && value < pow256(width as nat)
                && final(reader).remaining() == old(reader).remaining().skip(width as int),
            None => r is Err
                && r->Err_0 is UnexpectedEof
                && final(reader).remaining() == old(reader).remaining(),
        },
{
    match reader.read_raw(width) {
        Ok(raw) => {
            proof {
                lemma_le_value_bound(raw@);
            }
            Ok(get_le(&raw))
        },
        Err(e) => Err(e),
    }
}

/// Reads a signed number of `width` bytes.
pub fn read_int<R: TypedRead>(reader: &mut R, width: usize) -> (r: Result<i128, DecodeError>)
    requires
        width == 1 || width == 2 || width == 4 || width == 8 || width == 16,
    ensures
        match decode_int(old(reader).remaining(), width as nat) {
            Some(value) => r is Ok
                && r->Ok_0 == value
                && -(pow256(width as nat) as int) <= 2 * value < pow256(width as nat)
                && final(reader).remaining() == old(reader).remaining().skip(width as int),
            None => r is Err
                && r->Err_0 is UnexpectedEof
                && final(reader).remaining() == old(reader).remaining(),
        },
{
    match read_uint(reader, width) {
        Ok(code) => Ok(decode_twos(code, width)),
        Err(e) => Err(e),
    }
}

/// Reads a 24-bit unsigned number.
pub fn read_u24<R: TypedRead>(reader: &mut R) -> (r: Result<u32, DecodeError>)
    ensures
        match decode_uint(old(reader).remaining(), 3) {
            Some(value) => r is Ok
                && r->Ok_0 == value
                && value <= 0xFF_FFFF
                && final(reader).remaining() == old(reader).remaining().skip(3),
            None => r is Err
                && r->Err_0 is UnexpectedEof
                && final(reader).remaining() == old(reader).remaining(),
        },
{
    match reader.read_raw(3) {
        Ok(raw) => {
            let bytes = [raw[0], raw[1], raw[2]];
            proof {
                assert(bytes@ =~= raw@);
                lemma_le_value_bound(raw@);
                lemma_pow256_values();
            }
            Ok(u24_from_le_bytes(bytes))
        },
        Err(e) => Err(e),
    }
}

impl StrictDecode for u8 {
    open spec fn spec_decode(bytes: Seq<u8>) -> Result<(u8, nat), DecodeFailure> {
        match decode_uint(bytes, 1) {
            Some(value) => Ok((value as u8, 1)),
            None => Err(DecodeFailure::UnexpectedEof),
        }
    }

    fn strict_decode<R: TypedRead>(reader: &mut R) -> (r: Result<u8, DecodeError>) {
        proof {
            lemma_pow256_values();
        }
        match read_uint(reader, 1) {
            Ok(value) => Ok(value as u8),
            Err(e) => Err(e),
        }
    }
}

impl StrictDecode for u16 {
    open spec fn spec_decode(bytes: Seq<u8>) -> Result<(u16, nat), DecodeFailure> {
        match decode_uint(bytes, 2) {
            Some(value) => Ok((value as u16, 2)),
            None => Err(DecodeFailure::UnexpectedEof),
        }
    }

    fn strict_decode<R: TypedRead>(reader: &mut R) -> (r: Result<u16, DecodeError>) {
        proof {
            lemma_pow256_values();
        }
        match read_uint(reader, 2) {
            Ok(value) => Ok(value as u16),
            Err(e) => Err(e),
        }
    }
}

impl StrictDecode for u32 {
    open spec fn spec_decode(bytes: Seq<u8>) -> Result<(u32, nat), DecodeFailure> {
        match decode_uint(bytes, 4) {
            Some(value) => Ok((value as u32, 4)),
            None => Err(DecodeFailure::UnexpectedEof),
        }
    }

    fn strict_decode<R: TypedRead>(reader: &mut R) -> (r: Result<u32, DecodeError>) {
        proof {
            lemma_pow256_values();
        }
        match read_uint(reader, 4) {
            Ok(value) => Ok(value as u32),
            Err(e) => Err(e),
        }
    }
}

impl StrictDecode for u64 {
    open spec fn spec_decode(bytes: Seq<u8>) -> Result<(u64, nat), DecodeFailure> {
        match decode_uint(bytes, 8) {
            Some(value) => Ok((value as u64, 8)),
            None => Err(DecodeFailure::UnexpectedEof),
        }
    }

    fn strict_decode<R: TypedRead>(reader: &mut R) -> (r: Result<u64, DecodeError>) {
        proof {
            lemma_pow256_values();
        }
        match read_uint(reader, 8) {
            Ok(value) => Ok(value as u64),
            Err(e) => Err(e),
        }
    }
}

impl StrictDecode for u128 {
    open spec fn spec_decode(bytes: Seq<u8>) -> Result<(u128, nat), DecodeFailure> {
        match decode_uint(bytes, 16) {
            Some(value) => Ok((value as u128, 16)),
            None => Err(DecodeFailure::UnexpectedEof),
        }
    }

    fn strict_decode<R: TypedRead>(reader: &mut R) -> (r: Result<u128, DecodeError>) {
        proof {
            lemma_pow256_values();
        }
        match read_uint(reader, 16) {
            Ok(value) => Ok(value as u128),
            Err(e) => Err(e),
        }
    }
}

impl StrictDecode for i8 {
    open spec fn spec_decode(bytes: Seq<u8>) -> Result<(i8, nat), DecodeFailure> {
        match decode_int(bytes, 1) {
            Some(value) => Ok((value as i8, 1)),
            None => Err(DecodeFailure::UnexpectedEof),
        }
    }

    fn strict_decode<R: TypedRead>(reader: &mut R) -> (r: Result<i8, DecodeError>) {
        proof {
            lemma_pow256_values();
        }
        match read_int(reader, 1) {
            Ok(value) => Ok(value as i8),
            Err(e) => Err(e),
        }
    }
}

impl StrictDecode for i16 {
    open spec fn spec_decode(bytes: Seq<u8>) -> Result<(i16, nat), DecodeFailure> {
        match decode_int(bytes, 2) {
            Some(value) => Ok((value as i16, 2)),
            None => Err(DecodeFailure::UnexpectedEof),
        }
    }

    fn strict_decode<R: TypedRead>(reader: &mut R) -> (r: Result<i16, DecodeError>) {
        proof {
            lemma_pow256_values();
        }
        match read_int(reader, 2) {
            Ok(value) => Ok(value as i16),
            Err(e) => Err(e),
        }
    }
}

impl StrictDecode for i32 {
    open spec fn spec_decode(bytes: Seq<u8>) -> Result<(i32, nat), DecodeFailure> {
        match decode_int(bytes, 4) {
            Some(value) => Ok((value as i32, 4)),
            None => Err(DecodeFailure::UnexpectedEof),
        }
    }

    fn strict_decode<R: TypedRead>(reader: &mut R) -> (r: Result<i32, DecodeError>) {
        proof {
            lemma_pow256_values();
        }
        match read_int(reader, 4) {
            Ok(value) => Ok(value as i32),
            Err(e) => Err(e),
        }
    }
}

impl StrictDecode for i64 {
    open spec fn spec_decode(bytes: Seq<u8>) -> Result<(i64, nat), DecodeFailure> {
        match decode_int(bytes, 8) {
            Some(value) => Ok((value as i64, 8)),
            None => Err(DecodeFailure::UnexpectedEof),
        }
    }

    fn strict_decode<R: TypedRead>(reader: &mut R) -> (r: Result<i64, DecodeError>) {
        proof {
            lemma_pow256_values();
        }
        match read_int(reader, 8) {
            Ok(value) => Ok(value as i64),
            Err(e) => Err(e),
        }
    }
}

impl StrictDecode for i128 {
    open spec fn spec_decode(bytes: Seq<u8>) -> Result<(i128, nat), DecodeFailure> {
        match decode_int(bytes, 16) {
            Some(value) => Ok((value as i128, 16)),
            None => Err(DecodeFailure::UnexpectedEof),
        }
    }

    fn strict_decode<R: TypedRead>(reader: &mut R) -> (r: Result<i128, DecodeError>) {
        proof {
            lemma_pow256_values();
        }
        match read_int(reader, 16) {
            Ok(value) => Ok(value as i128),
            Err(e) => Err(e),
        }
    }
}

/// The encoding of an unsigned number is decoded to the number.
pub proof fn lemma_decode_uint_encoded(value: nat, width: nat, rest: Seq<u8>)
    requires
        value < pow256(width),
    ensures
        le_bytes(value, width).len() == width,
        decode_uint(le_bytes(value, width) + rest, width) == Some(value),
{
    let bytes = le_bytes(value, width);
    lemma_le_bytes_len(value, width);
    lemma_le_value_of_bytes(value, width);
    assert((bytes + rest).take(width as int) =~= bytes);
    vstd::arithmetic::div_mod::lemma_small_mod(value, pow256(width));
}

impl StrictEncode for u8 {
    type Dumb = u8;

    open spec fn encoding(&self) -> Seq<u8> {
        le_bytes(*self as nat, 1)
    }

    fn strict_encode_dumb() -> (dumb: u8) {
        0
    }

    open spec fn canonical_dumb() -> u8 {
        0
    }

    fn strict_encode(&self, writer: StrictWriter) -> (r: Result<StrictWriter, ConfinementError>) {
        let mut bytes: Vec<u8> = Vec::new();
        put_le(&mut bytes, *self as u128, 1);
        assert(bytes@ =~= self.encoding());
        writer._write_raw::<1>(bytes.as_slice())
    }
}

impl StrictCodec for u8 {
    proof fn lemma_decode_encoded(value: u8, rest: Seq<u8>) {
        lemma_pow256_values();
        lemma_decode_uint_encoded(value as nat, 1, rest);
    }
}

impl Serialize for u8 {

}

impl Deserialize for u8 {

}

impl StrictEncode for u16 {
    type Dumb = u16;

    open spec fn encoding(&self) -> Seq<u8> {
        le_bytes(*self as nat, 2)
    }

    fn strict_encode_dumb() -> (dumb: u16) {
        0
    }

    open spec fn canonical_dumb() -> u16 {
        0
    }

    fn strict_encode(&self, writer: StrictWriter) -> (r: Result<StrictWriter, ConfinementError>) {
        let mut bytes: Vec<u8> = Vec::new();
        put_le(&mut bytes, *self as u128, 2);
        assert(bytes@ =~= self.encoding());
        writer._write_raw::<2>(bytes.as_slice())
    }
}

impl StrictCodec for u16 {
    proof fn lemma_decode_encoded(value: u16, rest: Seq<u8>) {
        lemma_pow256_values();
        lemma_decode_uint_encoded(value as nat, 2, rest);
    }
}

impl Serialize for u16 {

}

impl Deserialize for u16 {

}

impl StrictEncode for u32 {
    type Dumb = u32;

    open spec fn encoding(&self) -> Seq<u8> {
        le_bytes(*self as nat, 4)
    }

    fn strict_encode_dumb() -> (dumb: u32) {
        0
    }

    open spec fn canonical_dumb() -> u32 {
        0
    }

    fn strict_encode(&self, writer: StrictWriter) -> (r: Result<StrictWriter, ConfinementError>) {
        let mut bytes: Vec<u8> = Vec::new();
        put_le(&mut bytes, *self as u128, 4);
        assert(bytes@ =~= self.encoding());
        writer._write_raw::<4>(bytes.as_slice())
    }
}

impl StrictCodec for u32 {
    proof fn lemma_decode_encoded(value: u32, rest: Seq<u8>) {
        lemma_pow256_values();
        lemma_decode_uint_encoded(value as nat, 4, rest);
    }
}

impl Serialize for u32 {

}

impl Deserialize for u32 {

}

impl StrictEncode for u64 {
    type Dumb = u64;

    open spec fn encoding(&self) -> Seq<u8> {
        le_bytes(*self as nat, 8)
    }

    fn strict_encode_dumb() -> (dumb: u64) {
        0
    }

    open spec fn canonical_dumb() -> u64 {
        0
    }

    fn strict_encode(&self, writer: StrictWriter) -> (r: Result<StrictWriter, ConfinementError>) {
        let mut bytes: Vec<u8> = Vec::new();
        put_le(&mut bytes, *self as u128, 8);
        assert(bytes@ =~= self.encoding());
        writer._write_raw::<8>(bytes.as_slice())
    }
}

impl StrictCodec for u64 {
    proof fn lemma_decode_encoded(value: u64, rest: Seq<u8>) {
        lemma_pow256_values();
        lemma_decode_uint_encoded(value as nat, 8, rest);
    }
}

impl Serialize for u64 {

}

impl Deserialize for u64 {

}

impl StrictEncode for u128 {
    type Dumb = u128;

    open spec fn encoding(&self) -> Seq<u8> {
        le_bytes(*self as nat, 16)
    }

    fn strict_encode_dumb() -> (dumb: u128) {
        0
    }

    open spec fn canonical_dumb() -> u128 {
        0
    }

    fn strict_encode(&self, writer: StrictWriter) -> (r: Result<StrictWriter, ConfinementError>) {
        let mut bytes: Vec<u8> = Vec::new();
        put_le(&mut bytes, *self, 16);
        assert(bytes@ =~= self.encoding());
        writer._write_raw::<16>(bytes.as_slice())
    }
}

impl StrictCodec for u128 {
    proof fn lemma_decode_encoded(value: u128, rest: Seq<u8>) {
        lemma_pow256_values();
        lemma_decode_uint_encoded(value as nat, 16, rest);
    }
}

impl Serialize for u128 {

}

impl Deserialize for u128 {

}

impl StrictEncode for i8 {
    type Dumb = i8;

    open spec fn encoding(&self) -> Seq<u8> {
        le_bytes(to_twos(*self as int, 1), 1)
    }

    fn strict_encode_dumb() -> (dumb: i8) {
        0
    }

    open spec fn canonical_dumb() -> i8 {
        0
    }

    fn strict_encode(&self, writer: StrictWriter) -> (r: Result<StrictWriter, ConfinementError>) {
        proof {
            lemma_pow256_values();
        }
        let code = encode_twos(*self as i128, 1);
        let mut bytes: Vec<u8> = Vec::new();
        put_le(&mut bytes, code, 1);
        assert(bytes@ =~= self.encoding());
        writer._write_raw::<1>(bytes.as_slice())
    }
}

impl StrictCodec for i8 {
    proof fn lemma_decode_encoded(value: i8, rest: Seq<u8>) {
        lemma_pow256_values();
        lemma_twos_round_trip(value as int, 1);
        lemma_decode_uint_encoded(to_twos(value as int, 1), 1, rest);
    }
}

impl Serialize for i8 {

}

impl Deserialize for i8 {

}

impl StrictEncode for i16 {
    type Dumb = i16;

    open spec fn encoding(&self) -> Seq<u8> {
        le_bytes(to_twos(*self as int, 2), 2)
    }

    fn strict_encode_dumb() -> (dumb: i16) {
        0
    }

    open spec fn canonical_dumb() -> i16 {
        0
    }

    fn strict_encode(&self, writer: StrictWriter) -> (r: Result<StrictWriter, ConfinementError>) {
        proof {
            lemma_pow256_values();
        }
        let code = encode_twos(*self as i128, 2);
        let mut bytes: Vec<u8> = Vec::new();
        put_le(&mut bytes, code, 2);
        assert(bytes@ =~= self.encoding());
        writer._write_raw::<2>(bytes.as_slice())
    }
}

impl StrictCodec for i16 {
    proof fn lemma_decode_encoded(value: i16, rest: Seq<u8>) {
        lemma_pow256_values();
        lemma_twos_round_trip(value as int, 2);
        lemma_decode_uint_encoded(to_twos(value as int, 2), 2, rest);
    }
}

impl Serialize for i16 {

}

impl Deserialize for i16 {

}

impl StrictEncode for i32 {
    type Dumb = i32;

    open spec fn encoding(&self) -> Seq<u8> {
        le_bytes(to_twos(*self as int, 4), 4)
    }

    fn strict_encode_dumb() -> (dumb: i32) {
        0
    }

    open spec fn canonical_dumb() -> i32 {
        0
    }

    fn strict_encode(&self, writer: StrictWriter) -> (r: Result<StrictWriter, ConfinementError>) {
        proof {
            lemma_pow256_values();
        }
        let code = encode_twos(*self as i128, 4);
        let mut bytes: Vec<u8> = Vec::new();
        put_le(&mut bytes, code, 4);
        assert(bytes@ =~= self.encoding());
        writer._write_raw::<4>(bytes.as_slice())
    }
}

impl StrictCodec for i32 {
    proof fn lemma_decode_encoded(value: i32, rest: Seq<u8>) {
        lemma_pow256_values();
        lemma_twos_round_trip(value as int, 4);
        lemma_decode_uint_encoded(to_twos(value as int, 4), 4, rest);
    }
}

impl Serialize for i32 {

}

impl Deserialize for i32 {

}

impl StrictEncode for i64 {
    type Dumb = i64;

    open spec fn encoding(&self) -> Seq<u8> {
        le_bytes(to_twos(*self as int, 8), 8)
    }

    fn strict_encode_dumb() -> (dumb: i64) {
        0
    }

    open spec fn canonical_dumb() -> i64 {
        0
    }

    fn strict_encode(&self, writer: StrictWriter) -> (r: Result<StrictWriter, ConfinementError>) {
        proof {
            lemma_pow256_values();
        }
        let code = encode_twos(*self as i128, 8);
        let mut bytes: Vec<u8> = Vec::new();
        put_le(&mut bytes, code, 8);
        assert(bytes@ =~= self.encoding());
        writer._write_raw::<8>(bytes.as_slice())
    }
}

impl StrictCodec for i64 {
    proof fn lemma_decode_encoded(value: i64, rest: Seq<u8>) {
        lemma_pow256_values();
        lemma_twos_round_trip(value as int, 8);
        lemma_decode_uint_encoded(to_twos(value as int, 8), 8, rest);
    }
}

impl Serialize for i64 {

}

impl Deserialize for i64 {

}

impl StrictEncode for i128 {
    type Dumb = i128;

    open spec fn encoding(&self) -> Seq<u8> {
        le_bytes(to_twos(*self as int, 16), 16)
    }

    fn strict_encode_dumb() -> (dumb: i128) {
        0
    }

    open spec fn canonical_dumb() -> i128 {
        0
    }

    fn strict_encode(&self, writer: StrictWriter) -> (r: Result<StrictWriter, ConfinementError>) {
        proof {
            lemma_pow256_values();
        }
        let code = encode_twos(*self, 16);
        let mut bytes: Vec<u8> = Vec::new();
        put_le(&mut bytes, code, 16);
        assert(bytes@ =~= self.encoding());
        writer._write_raw::<16>(bytes.as_slice())
    }
}

impl StrictCodec for i128 {
    proof fn lemma_decode_encoded(value: i128, rest: Seq<u8>) {
        lemma_pow256_values();
        lemma_twos_round_trip(value as int, 16);
        lemma_decode_uint_encoded(to_twos(value as int, 16), 16, rest);
    }
}

impl Serialize for i128 {

}

impl Deserialize for i128 {

}

} // verus!
