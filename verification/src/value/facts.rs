//! What holds of every load.

use crate::encoding::error::DecodeFailure;
use crate::encoding::le::le_value;
use crate::encoding::primitives::decode_uint;
use crate::encoding::sizing::{spec_len_width, TextTier};
use crate::encoding::text::{ascii_chars, is_ascii_bytes};
use crate::value::reify::{load_number, load_text, text_form, ErrorView};
use crate::value::system::TypeSystem;
use crate::value::ty::{lemma_tag_position, Field, SemId, Ty, TypeSpecView};
use crate::value::val::{field_position, spec_insert, Value};
use vstd::prelude::*;
use vstd::utf8::{decode_utf8, encode_utf8, is_ascii_chars, valid_utf8};

verus! {

/// One byte read as a number is that byte.
pub proof fn lemma_decode_byte(bytes: Seq<u8>)
    requires
        bytes.len() > 0,
    ensures
        decode_uint(bytes, 1) == Some(bytes[0] as nat),
{
    let head = bytes.take(1);
    assert(head.drop_first() =~= Seq::<u8>::empty());
    assert(le_value(head.drop_first()) == 0);
    assert(le_value(head) == head[0] as nat + 256 * le_value(head.drop_first()));
}

/// A tag that an enumeration does not declare is refused: the load fails
/// with `EnumTagNotKnown`, which carries the reference to the type as text
/// and the tag.
pub proof fn lemma_unknown_enum_tag(sys: TypeSystem, spec: TypeSpecView, bytes: Seq<u8>)
    requires
        sys.spec_find(spec) is Some,
        sys.spec_find(spec)->Some_0.ty is Enum,
        bytes.len() > 0,
        !sys.spec_find(spec)->Some_0.ty->Enum_0.tags().contains(bytes[0]),
    ensures
        sys.spec_load(spec, bytes) == Err::<(Value, Seq<u8>), ErrorView>(
            ErrorView::Decode(DecodeFailure::EnumTagNotKnown(spec.text(), bytes[0])),
        ),
{
    lemma_decode_byte(bytes);
    let variants = sys.spec_find(spec)->Some_0.ty->Enum_0;
    lemma_tag_position(variants.tags(), bytes[0], 0);
}

/// An ordinal that a union does not declare is refused: the load fails with
/// `EnumTagNotKnown`, which carries the reference to the type as text and
/// the ordinal.
pub proof fn lemma_unknown_union_tag(sys: TypeSystem, spec: TypeSpecView, bytes: Seq<u8>)
    requires
        sys.spec_find(spec) is Some,
        sys.spec_find(spec)->Some_0.ty is Union,
        bytes.len() > 0,
        !sys.spec_find(spec)->Some_0.ty->Union_0.tags().contains(bytes[0]),
    ensures
        sys.spec_load(spec, bytes) == Err::<(Value, Seq<u8>), ErrorView>(
            ErrorView::Decode(DecodeFailure::EnumTagNotKnown(spec.text(), bytes[0])),
        ),
{
    lemma_decode_byte(bytes);
    let variants = sys.spec_find(spec)->Some_0.ty->Union_0;
    lemma_tag_position(variants.tags(), bytes[0], 0);
}

/// A declared tag of an enumeration is accepted and becomes the value.
pub proof fn lemma_known_enum_tag(sys: TypeSystem, spec: TypeSpecView, bytes: Seq<u8>)
    requires
        sys.spec_find(spec) is Some,
        sys.spec_find(spec)->Some_0.ty is Enum,
        bytes.len() > 0,
        sys.spec_find(spec)->Some_0.ty->Enum_0.tags().contains(bytes[0]),
    ensures
        sys.spec_load(spec, bytes) == Ok::<(Value, Seq<u8>), ErrorView>(
            (Value::Enum(bytes[0]), bytes.skip(1)),
        ),
{
    lemma_decode_byte(bytes);
    let variants = sys.spec_find(spec)->Some_0.ty->Enum_0;
    lemma_tag_position(variants.tags(), bytes[0], 0);
}

/// A fixed-size array and a bare Unicode character cannot be loaded: the
/// load fails with `NotImplemented`, whatever the bytes.
pub proof fn lemma_unsupported_shapes(sys: TypeSystem, spec: TypeSpecView, bytes: Seq<u8>)
    requires
        sys.spec_find(spec) is Some,
        sys.spec_find(spec)->Some_0.ty is ArrayOf || sys.spec_find(spec)->Some_0.ty is UnicodeChar,
    ensures
        sys.spec_load(spec, bytes) is Err,
        sys.spec_load(spec, bytes)->Err_0 is NotImplemented,
{
}

/// Whether no two of the fields have the same name.
pub open spec fn distinct_names(fields: Seq<Field>) -> bool {
    forall|i: int, j: int| 0 <= i < j < fields.len() ==> fields[i].name@ != fields[j].name@
}

proof fn lemma_field_position_none(entries: Seq<(Seq<char>, Value)>, name: Seq<char>, from: nat)
    requires
        forall|i: int| from <= i < entries.len() ==> entries[i].0 != name,
    ensures
        field_position(entries, name, from) is None,
    decreases entries.len() - from,
{
    if from < entries.len() {
        lemma_field_position_none(entries, name, from + 1);
    }
}

proof fn lemma_struct_names(
    sys: TypeSystem,
    fields: Seq<Field>,
    from: nat,
    rank: nat,
    bytes: Seq<u8>,
    acc: Seq<(Seq<char>, Value)>,
)
    requires
        distinct_names(fields),
        from <= fields.len(),
        acc.len() == from,
        forall|i: int| 0 <= i < from ==> acc[i].0 == fields[i].name@,
        sys.spec_load_struct(fields, from, rank, bytes, acc) is Ok,
    ensures
        ({
            let entries = sys.spec_load_struct(fields, from, rank, bytes, acc)->Ok_0.0;
            &&& entries.len() == fields.len()
            &&& forall|i: int| 0 <= i < fields.len() ==> entries[i].0 == fields[i].name@
        }),
    decreases fields.len() - from,
{
    if from < fields.len() {
        let name = fields[from as int].name@;
        let nested = sys.spec_load_nested(fields[from as int].ty, rank, bytes);
        let (val, rest) = nested->Ok_0;
        lemma_field_position_none(acc, name, 0);
        let grown = spec_insert(acc, name, val);
        assert(grown == acc.push((name, val)));
        lemma_struct_names(sys, fields, from + 1, rank, rest, grown);
    }
}

/// The fields of a loaded struct stand in the order in which the schema
/// declares them, under the declared names.
pub proof fn lemma_struct_fields_in_order(sys: TypeSystem, spec: TypeSpecView, bytes: Seq<u8>)
    requires
        sys.spec_find(spec) is Some,
        sys.spec_find(spec)->Some_0.ty is Struct,
        distinct_names(sys.spec_find(spec)->Some_0.ty->Struct_0@),
        sys.spec_load(spec, bytes) is Ok,
    ensures
        ({
            let fields = sys.spec_find(spec)->Some_0.ty->Struct_0@;
            let val = sys.spec_load(spec, bytes)->Ok_0.0;
            &&& val is Struct
            &&& val->Struct_0.len() == fields.len()
            &&& forall|i: int| 0 <= i < fields.len() ==> val->Struct_0[i].0 == fields[i].name@
        }),
{
    let fields = sys.spec_find(spec)->Some_0.ty->Struct_0@;
    lemma_struct_names(sys, fields, 0, sys.depth(spec), bytes, Seq::empty());
}

proof fn lemma_items_len(
    sys: TypeSystem,
    elem: SemId,
    count: nat,
    rank: nat,
    bytes: Seq<u8>,
    acc: Seq<Value>,
)
    ensures
        sys.spec_load_items(elem, count, rank, bytes, acc) is Ok ==> sys.spec_load_items(
            elem,
            count,
            rank,
            bytes,
            acc,
        )->Ok_0.0.len() == acc.len() + count,
    decreases count,
{
    if count > 0 {
        let nested = sys.spec_load_nested(elem, rank, bytes);
        if nested is Ok {
            let (item, rest) = nested->Ok_0;
            lemma_items_len(sys, elem, (count - 1) as nat, rank, rest, acc.push(item));
        }
    }
}

proof fn lemma_pairs_len(
    sys: TypeSystem,
    key: SemId,
    val: SemId,
    count: nat,
    rank: nat,
    bytes: Seq<u8>,
    acc: Seq<(Value, Value)>,
)
    ensures
        sys.spec_load_pairs(key, val, count, rank, bytes, acc) is Ok ==> sys.spec_load_pairs(
            key,
            val,
            count,
            rank,
            bytes,
            acc,
        )->Ok_0.0.len() == acc.len() + count,
    decreases count,
{
    if count > 0 {
        let first = sys.spec_load_nested(key, rank, bytes);
        if first is Ok {
            let (k, after_key) = first->Ok_0;
            let second = sys.spec_load_nested(val, rank, after_key);
            if second is Ok {
                let (v, rest) = second->Ok_0;
                lemma_pairs_len(sys, key, val, (count - 1) as nat, rank, rest, acc.push((k, v)));
            }
        }
    }
}

/// The number that the length prefix of a collection spells, for a
/// collection declared with at most `max` items.
pub open spec fn declared_count(bytes: Seq<u8>, max: u64) -> nat {
    le_value(bytes.take(spec_len_width(max as nat) as int))
}

/// A list, set or map that loads holds exactly as many items as its length
/// prefix says, never fewer.
pub proof fn lemma_collection_len(sys: TypeSystem, spec: TypeSpecView, bytes: Seq<u8>)
    requires
        sys.spec_find(spec) is Some,
        sys.spec_load(spec, bytes) is Ok,
    ensures
        ({
            let val = sys.spec_load(spec, bytes)->Ok_0.0;
            match sys.spec_find(spec)->Some_0.ty {
                Ty::ListOf(elem, sizing) => text_form(elem, sizing.max) is None ==> val is ListOf
                    && val->ListOf_0.len() == declared_count(bytes, sizing.max),
                Ty::SetOf(elem, sizing) => text_form(elem, sizing.max) is None ==> val is SetOf
                    && val->SetOf_0.len() == declared_count(bytes, sizing.max),
                Ty::MapOf(_, _, sizing) => val is MapOf && val->MapOf_0.len() == declared_count(
                    bytes,
                    sizing.max,
                ),
                _ => true,
            }
        }),
{
    let rank = sys.depth(spec);
    match sys.spec_find(spec)->Some_0.ty {
        Ty::ListOf(elem, sizing) => {
            let width = spec_len_width(sizing.max as nat);
            if text_form(elem, sizing.max) is None {
                lemma_items_len(
                    sys,
                    elem,
                    declared_count(bytes, sizing.max),
                    rank,
                    bytes.skip(width as int),
                    Seq::empty(),
                );
            }
        },
        Ty::SetOf(elem, sizing) => {
            let width = spec_len_width(sizing.max as nat);
            if text_form(elem, sizing.max) is None {
                lemma_items_len(
                    sys,
                    elem,
                    declared_count(bytes, sizing.max),
                    rank,
                    bytes.skip(width as int),
                    Seq::empty(),
                );
            }
        },
        Ty::MapOf(key, val, sizing) => {
            let width = spec_len_width(sizing.max as nat);
            lemma_pairs_len(
                sys,
                key,
                val,
                declared_count(bytes, sizing.max),
                rank,
                bytes.skip(width as int),
                Seq::empty(),
            );
        },
        _ => {},
    }
}

proof fn lemma_items_truncated(
    sys: TypeSystem,
    elem: SemId,
    width: nat,
    count: nat,
    rank: nat,
    bytes: Seq<u8>,
    acc: Seq<Value>,
)
    requires
        sys.depth(TypeSpecView::SemId(elem)) < rank,
        sys.spec_find(TypeSpecView::SemId(elem)) is Some,
        sys.spec_find(TypeSpecView::SemId(elem))->Some_0.ty is Primitive,
        sys.spec_find(TypeSpecView::SemId(elem))->Some_0.ty->Primitive_0.spec_layout() is Some,
        sys.spec_find(TypeSpecView::SemId(elem))->Some_0.ty->Primitive_0.spec_layout()->Some_0.0
            == width,
        bytes.len() < count * width,
    ensures
        sys.spec_load_items(elem, count, rank, bytes, acc) == Err::<
            (Seq<Value>, Seq<u8>),
            ErrorView,
        >(ErrorView::Decode(DecodeFailure::UnexpectedEof)),
    decreases count,
{
    if count == 0 {
        assert(count * width == 0) by (nonlinear_arith)
            requires
                count == 0,
        ;
    } else {
        let prim = sys.spec_find(TypeSpecView::SemId(elem))->Some_0.ty->Primitive_0;
        let nested = sys.spec_load_nested(elem, rank, bytes);
        assert(nested == load_number(prim, bytes));
        if bytes.len() >= width {
            assert(count * width == (count - 1) * width + width) by (nonlinear_arith);
            let (item, rest) = nested->Ok_0;
            assert(rest == bytes.skip(width as int));
            lemma_items_truncated(sys, elem, width, (count - 1) as nat, rank, rest, acc.push(item));
        }
    }
}

/// A list of integers whose length prefix claims more items than the bytes
/// hold does not load: the load fails with `UnexpectedEof`, and no shorter
/// list is handed out.
pub proof fn lemma_truncated_list(sys: TypeSystem, spec: TypeSpecView, bytes: Seq<u8>)
    requires
        sys.valid(),
        sys.spec_find(spec) is Some,
        sys.spec_find(spec)->Some_0.ty is ListOf,
        ({
            let elem = sys.spec_find(spec)->Some_0.ty->ListOf_0;
            let max = sys.spec_find(spec)->Some_0.ty->ListOf_1.max;
            let prefix = spec_len_width(max as nat);
            let item = sys.spec_find(TypeSpecView::SemId(elem));
            &&& text_form(elem, max) is None
            &&& item is Some
            &&& item->Some_0.ty is Primitive
            &&& item->Some_0.ty->Primitive_0.spec_layout() is Some
            &&& bytes.len() >= prefix
            &&& bytes.len() - prefix < declared_count(bytes, max)
                * item->Some_0.ty->Primitive_0.spec_layout()->Some_0.0
        }),
    ensures
        sys.spec_load(spec, bytes) == Err::<(Value, Seq<u8>), ErrorView>(
            ErrorView::Decode(DecodeFailure::UnexpectedEof),
        ),
{
    let elem = sys.spec_find(spec)->Some_0.ty->ListOf_0;
    let max = sys.spec_find(spec)->Some_0.ty->ListOf_1.max;
    let prefix = spec_len_width(max as nat);
    let width = sys.spec_find(
        TypeSpecView::SemId(elem),
    )->Some_0.ty->Primitive_0.spec_layout()->Some_0.0;
    assert(sys.spec_find(spec)->Some_0.ty.refs()[0] == elem);
    sys.lemma_nested_less_deep(spec, 0);
    lemma_items_truncated(
        sys,
        elem,
        width,
        declared_count(bytes, max),
        sys.depth(spec),
        bytes.skip(prefix as int),
        Seq::empty(),
    );
}

/// ASCII bytes are valid UTF-8 and stand for the same characters either way.
pub proof fn lemma_ascii_is_utf8(bytes: Seq<u8>)
    requires
        is_ascii_bytes(bytes),
    ensures
        valid_utf8(bytes),
        decode_utf8(bytes) == ascii_chars(bytes),
{
    let chars = ascii_chars(bytes);
    assert(is_ascii_chars(chars));
    vstd::utf8::is_ascii_chars_encode_utf8(chars);
    assert(encode_utf8(chars) =~= bytes);
    vstd::utf8::encode_utf8_valid_utf8(chars);
    vstd::utf8::encode_utf8_decode_utf8(chars);
}

/// A list of Unicode characters declared with at most 255 of them is read
/// as a tiny text in UTF-8, and a list of ASCII characters with that bound as
/// a tiny text in ASCII. Where the bytes of the text are ASCII, both give
/// the same text.
pub proof fn lemma_tiny_texts(
    sys: TypeSystem,
    unicode: TypeSpecView,
    ascii: TypeSpecView,
    bytes: Seq<u8>,
)
    requires
        sys.spec_find(unicode) is Some,
        sys.spec_find(unicode)->Some_0.ty is ListOf,
        sys.spec_find(unicode)->Some_0.ty->ListOf_0 == SemId::spec_unicode_char(),
        sys.spec_find(unicode)->Some_0.ty->ListOf_1.max <= 255,
        sys.spec_find(ascii) is Some,
        sys.spec_find(ascii)->Some_0.ty is ListOf,
        sys.spec_find(ascii)->Some_0.ty->ListOf_0 == SemId::spec_ascii_char(),
        sys.spec_find(ascii)->Some_0.ty->ListOf_1.max <= 255,
    ensures
        sys.spec_load(unicode, bytes) == load_text(TextTier::Tiny, false, bytes),
        sys.spec_load(ascii, bytes) == load_text(TextTier::Tiny, true, bytes),
        sys.spec_load(ascii, bytes) is Ok ==> sys.spec_load(unicode, bytes) == sys.spec_load(
            ascii,
            bytes,
        ),
{
    if sys.spec_load(ascii, bytes) is Ok {
        let len = decode_uint(bytes, 1)->Some_0;
        let body = bytes.subrange(1, (1 + len) as int);
        lemma_ascii_is_utf8(body);
    }
}

} // verus!
