//! Bounded text on the wire, and numbers written out as text.

use crate::confinement::{confinement_failure, ConfinementError};
use crate::encoding::error::{DecodeError, DecodeFailure};
use crate::encoding::le::{lemma_le_value_bound, lemma_pow256_values};
use crate::encoding::primitives::{decode_uint, read_u24};
use crate::encoding::sizing::{len_tier, spec_len_width, LenTier};
use crate::encoding::traits::{StrictDecode, TypedRead};
use amplify::ascii::AsciiString;
use amplify::confinement::Confined;
use vstd::prelude::*;
use vstd::utf8::{decode_utf8, encode_utf8, valid_utf8};

verus! {

/// The capacity of a tiny text.
pub const TINY: usize = 255;

/// The capacity of a small text.
pub const SMALL: usize = 65535;

/// The capacity of a medium text.
pub const MEDIUM: usize = 16777215;

/// The capacity of a large text.
pub const LARGE: usize = 4294967295;

#[verifier::external_type_specification]
#[verifier::external_body]
pub struct ExAsciiString(AsciiString);

/// The bytes of an ASCII string, one for each character.
pub uninterp spec fn ascii_bytes(text: AsciiString) -> Seq<u8>;

/// Whether every byte is an ASCII character.
pub open spec fn is_ascii_bytes(bytes: Seq<u8>) -> bool {
    forall|i: int| 0 <= i < bytes.len() ==> bytes[i] < 128
}

/// The characters that ASCII bytes stand for.
pub open spec fn ascii_chars(bytes: Seq<u8>) -> Seq<char> {
    Seq::new(bytes.len(), |i: int| bytes[i] as char)
}

/// `String::push` of std. Trusted: the character is appended.
#[verifier::external_body]
fn string_push(text: &mut String, c: char)
    ensures
        final(text)@ == old(text)@.push(c),
{
    text.push(c)
}

/// `String::from_utf8` of std. Trusted: it accepts exactly the valid UTF-8
/// byte strings, and the text holds the characters that the bytes encode.
#[verifier::external_body]
fn string_from_utf8(bytes: Vec<u8>) -> (r: Option<String>)
    ensures
        r is Some <==> valid_utf8(bytes@),
        r is Some ==> r->Some_0@ == decode_utf8(bytes@),
{
    match String::from_utf8(bytes) {
        Ok(text) => Some(text),
        Err(_) => None,
    }
}

/// Passes a text through `Confined::<String, 0, MAX_LEN>::try_from` and
/// `Confined::release` of amplify. Trusted: the text comes back unchanged
/// where its UTF-8 form has at most `MAX_LEN` bytes, and the error says so
/// where it has more.
#[verifier::external_body]
fn confine_string<const MAX_LEN: usize>(text: String) -> (r: Result<String, ConfinementError>)
    ensures
        encode_utf8(text@).len() <= MAX_LEN ==> r is Ok && r->Ok_0 == text,
        encode_utf8(text@).len() > MAX_LEN ==> r is Err && Some(r->Err_0) == confinement_failure(
            encode_utf8(text@).len() as usize,
            0,
            MAX_LEN,
        ),
{
    match Confined::<String, 0, MAX_LEN>::try_from(text) {
        Ok(confined) => Ok(confined.release()),
        Err(amplify::confinement::Error::Undersize { len, min_len }) => Err(
            ConfinementError::Undersize { len, min_len },
        ),
        Err(amplify::confinement::Error::Oversize { len, max_len }) => Err(
            ConfinementError::Oversize { len, max_len },
        ),
        Err(amplify::confinement::Error::OutOfBoundary { index, len }) => Err(
            ConfinementError::OutOfBoundary { index, len },
        ),
    }
}

/// `AsciiString::from_ascii` of the ascii crate. Trusted: it accepts exactly
/// the byte strings whose bytes are all below 128, and keeps the bytes.
#[verifier::external_body]
fn ascii_from_bytes(bytes: Vec<u8>) -> (r: Option<AsciiString>)
    ensures
        r is Some <==> is_ascii_bytes(bytes@),
        r is Some ==> ascii_bytes(r->Some_0) == bytes@,
{
    match AsciiString::from_ascii(bytes) {
        Ok(text) => Some(text),
        Err(_) => None,
    }
}

/// Passes an ASCII string through `Confined::<AsciiString, 0, MAX_LEN>::try_from`
/// and `Confined::release` of amplify. Trusted: the string comes back with
/// the same bytes where it has at most `MAX_LEN` of them, and the error says
/// so where it has more.
#[verifier::external_body]
fn confine_ascii<const MAX_LEN: usize>(text: AsciiString) -> (r: Result<
    AsciiString,
    ConfinementError,
>)
    ensures
        ascii_bytes(text).len() <= MAX_LEN ==> r is Ok && ascii_bytes(r->Ok_0) == ascii_bytes(text),
        ascii_bytes(text).len() > MAX_LEN ==> r is Err && Some(r->Err_0) == confinement_failure(
            ascii_bytes(text).len() as usize,
            0,
            MAX_LEN,
        ),
{
    match Confined::<AsciiString, 0, MAX_LEN>::try_from(text) {
        Ok(confined) => Ok(confined.release()),
        Err(amplify::confinement::Error::Undersize { len, min_len }) => Err(
            ConfinementError::Undersize { len, min_len },
        ),
        Err(amplify::confinement::Error::Oversize { len, max_len }) => Err(
            ConfinementError::Oversize { len, max_len },
        ),
        Err(amplify::confinement::Error::OutOfBoundary { index, len }) => Err(
            ConfinementError::OutOfBoundary { index, len },
        ),
    }
}

/// `to_string` on an `AsciiString`. Trusted: the text holds one character for
/// each byte, the one with that code.
#[verifier::external_body]
fn ascii_to_string(text: &AsciiString) -> (r: String)
    ensures
        r@ == ascii_chars(ascii_bytes(*text)),
{
    text.to_string()
}

/// What reading a bounded text gives at the front of `bytes`: the characters
/// and the number of bytes taken, or the failure. The text is framed by its
/// length in bytes, in the width that `max_len` selects. Its bytes are then
/// checked (all ASCII where `ascii`, valid UTF-8 otherwise), and last its
/// length against `max_len`.
pub open spec fn decode_text(bytes: Seq<u8>, max_len: usize, ascii: bool) -> Result<
    (Seq<char>, nat),
    DecodeFailure,
> {
    let width = spec_len_width(max_len as nat);
    match decode_uint(bytes, width) {
        None => Err(DecodeFailure::UnexpectedEof),
        Some(len) => if bytes.len() - width < len {
            Err(DecodeFailure::UnexpectedEof)
        } else {
            let body = bytes.subrange(width as int, (width + len) as int);
            if ascii && !is_ascii_bytes(body) {
                Err(DecodeFailure::Ascii)
            } else if !ascii && !valid_utf8(body) {
                Err(DecodeFailure::Utf8)
            } else if len > max_len {
                Err(
                    DecodeFailure::Confinement(
                        ConfinementError::Oversize { len: len as usize, max_len },
                    ),
                )
            } else if ascii {
                Ok((ascii_chars(body), width + len))
            } else {
                Ok((decode_utf8(body), width + len))
            }
        },
    }
}

/// Reads the length of a collection declared with at most `max_len` items.
pub fn read_len<R: TypedRead>(reader: &mut R, max_len: u64) -> (r: Result<u64, DecodeError>)
    ensures
        match decode_uint(old(reader).remaining(), spec_len_width(max_len as nat)) {
            Some(len) => r is Ok
                && r->Ok_0 == len
                && final(reader).remaining() == old(reader).remaining().skip(
                    spec_len_width(max_len as nat) as int,
                ),
            None => r is Err && r->Err_0 is UnexpectedEof,
        },
{
    proof {
        let bytes = reader.remaining();
        let width = spec_len_width(max_len as nat);
        if bytes.len() >= width {
            lemma_le_value_bound(bytes.take(width as int));
        }
        lemma_pow256_values();
    }
    match len_tier(max_len) {
        Some(LenTier::U8) => match u8::strict_decode(reader) {
            Ok(len) => Ok(len as u64),
            Err(e) => Err(e),
        },
        Some(LenTier::U16) => match u16::strict_decode(reader) {
            Ok(len) => Ok(len as u64),
            Err(e) => Err(e),
        },
        Some(LenTier::U24) => match read_u24(reader) {
            Ok(len) => Ok(len as u64),
            Err(e) => Err(e),
        },
        Some(LenTier::U32) => match u32::strict_decode(reader) {
            Ok(len) => Ok(len as u64),
            Err(e) => Err(e),
        },
        None => u64::strict_decode(reader),
    }
}

/// Reads the framed bytes of a text: its length, then that many bytes.
fn read_framed<R: TypedRead>(reader: &mut R, max_len: usize) -> (r: Result<Vec<u8>, DecodeError>)
    ensures
        ({
            let bytes = old(reader).remaining();
            let width = spec_len_width(max_len as nat);
            match decode_uint(bytes, width) {
                None => r is Err && r->Err_0 is UnexpectedEof,
                Some(len) => if bytes.len() - width < len {
                    r is Err && r->Err_0 is UnexpectedEof
                } else {
                    r is Ok
                        && r->Ok_0@ == bytes.subrange(width as int, (width + len) as int)
                        && final(reader).remaining() == bytes.skip((width + len) as int)
                },
            }
        }),
{
    let ghost bytes = reader.remaining();
    let ghost width = spec_len_width(max_len as nat);
    let len = match read_len(reader, max_len as u64) {
        Ok(len) => len,
        Err(e) => { return Err(e); },
    };
    proof {
        reader.lemma_remaining_bounded();
    }
    if len > usize::MAX as u64 {
        return Err(DecodeError::UnexpectedEof);
    }
    match reader.read_raw(len as usize) {
        Ok(body) => {
            proof {
                assert(bytes.skip(width as int).take(len as int) =~= bytes.subrange(
                    width as int,
                    (width + len) as int,
                ));
                assert(bytes.skip(width as int).skip(len as int) =~= bytes.skip(
                    (width + len) as int,
                ));
            }
            Ok(body)
        },
        Err(e) => Err(e),
    }
}

/// Reads a text of at most `MAX_LEN` bytes in UTF-8.
pub fn read_string<R: TypedRead, const MAX_LEN: usize>(reader: &mut R) -> (r: Result<
    String,
    DecodeError,
>)
    ensures
        match decode_text(old(reader).remaining(), MAX_LEN, false) {
            Ok((text, used)) => r is Ok
                && r->Ok_0@ == text
                && final(reader).remaining() == old(reader).remaining().skip(used as int),
            Err(failure) => r is Err && r->Err_0@ == failure,
        },
{
    let body = match read_framed(reader, MAX_LEN) {
        Ok(body) => body,
        Err(e) => { return Err(e); },
    };
    let ghost raw = body@;
    let text = match string_from_utf8(body) {
        Some(text) => text,
        None => { return Err(DecodeError::Utf8); },
    };
    proof {
        vstd::utf8::decode_utf8_encode_utf8(raw);
    }
    match confine_string::<MAX_LEN>(text) {
        Ok(text) => Ok(text),
        Err(e) => Err(DecodeError::Confinement(e)),
    }
}

/// Reads a text of at most `MAX_LEN` ASCII characters.
pub fn read_ascii<R: TypedRead, const MAX_LEN: usize>(reader: &mut R) -> (r: Result<
    String,
    DecodeError,
>)
    ensures
        match decode_text(old(reader).remaining(), MAX_LEN, true) {
            Ok((text, used)) => r is Ok
                && r->Ok_0@ == text
                && final(reader).remaining() == old(reader).remaining().skip(used as int),
            Err(failure) => r is Err && r->Err_0@ == failure,
        },
{
    let body = match read_framed(reader, MAX_LEN) {
        Ok(body) => body,
        Err(e) => { return Err(e); },
    };
    let text = match ascii_from_bytes(body) {
        Some(text) => text,
        None => { return Err(DecodeError::Ascii); },
    };
    match confine_ascii::<MAX_LEN>(text) {
        Ok(text) => Ok(ascii_to_string(&text)),
        Err(e) => Err(DecodeError::Confinement(e)),
    }
}

/// The character of a digit below ten.
pub open spec fn digit_char(digit: nat) -> char {
    (48 + digit) as char
}

/// The character of a digit below sixteen, in lower case.
pub open spec fn hex_digit_char(digit: nat) -> char {
    if digit < 10 {
        (48 + digit) as char
    } else {
        (87 + digit) as char
    }
}

/// A number in decimal, without leading zeros.
pub open spec fn spec_decimal(n: nat) -> Seq<char>
    decreases n,
{
    if n < 10 {
        seq![digit_char(n)]
    } else {
        spec_decimal(n / 10).push(digit_char(n % 10))
    }
}

/// The `digits` low-order hexadecimal digits of a number, most significant first.
pub open spec fn spec_hex(n: nat, digits: nat) -> Seq<char>
    decreases digits,
{
    if digits == 0 {
        Seq::empty()
    } else {
        spec_hex(n / 16, (digits - 1) as nat).push(hex_digit_char(n % 16))
    }
}

/// Appends a number in decimal to `out`.
pub fn push_decimal(out: &mut String, n: u128)
    ensures
        final(out)@ == old(out)@ + spec_decimal(n as nat),
    decreases n,
{
    if n >= 10 {
        push_decimal(out, n / 10);
    }
    let digit = (n % 10) as u8;
    string_push(out, (48u8 + digit) as char);
    proof {
        if n >= 10 {
            assert((old(out)@ + spec_decimal(n as nat / 10)).push(digit_char(n as nat % 10))
                =~= old(out)@ + spec_decimal(n as nat));
        } else {
            assert(old(out)@.push(digit_char(n as nat)) =~= old(out)@ + spec_decimal(n as nat));
        }
    }
}

/// Appends the `digits` low-order hexadecimal digits of a number to `out`.
pub fn push_hex(out: &mut String, n: u128, digits: usize)
    ensures
        final(out)@ == old(out)@ + spec_hex(n as nat, digits as nat),
    decreases digits,
{
    if digits == 0 {
        assert(old(out)@ + spec_hex(n as nat, 0) =~= old(out)@);
        return ;
    }
    push_hex(out, n / 16, digits - 1);
    let digit = (n % 16) as u8;
    let c = if digit < 10 {
        (48u8 + digit) as char
    } else {
        (87u8 + digit) as char
    };
    string_push(out, c);
    proof {
        assert((old(out)@ + spec_hex(n as nat / 16, (digits - 1) as nat)).push(
            hex_digit_char(n as nat % 16),
        ) =~= old(out)@ + spec_hex(n as nat, digits as nat));
    }
}

} // verus!
