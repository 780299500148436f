//! Reification: reading values from strict-encoded bytes by a schema.

use crate::encoding::error::{DecodeError, DecodeFailure};
use crate::encoding::le::{lemma_le_value_bound, lemma_pow256_values};
use crate::encoding::primitives::{decode_int, decode_uint, read_u24};
use crate::encoding::sizing::{spec_len_width, spec_text_tier, text_tier, TextTier};
use crate::encoding::text::{
    decode_text, read_ascii, read_len, read_string, LARGE, MEDIUM, SMALL, TINY,
};
use crate::encoding::traits::{StrictDecode, TypedRead};
use crate::value::system::TypeSystem;
use crate::value::ty::{
    lemma_tag_position, tag_position, Field, Primitive, SemId, Ty, TypeSpec, TypeSpecView,
};
use crate::value::val::{
    field_map_entries, spec_insert, FieldMap, StrictNum, StrictVal, TypedVal, Value,
};
use vstd::prelude::*;
use vstd::string::StringExecFns;

verus! {

/// Why a value could not be loaded or stored.
#[derive(PartialEq, Eq, Debug)]
pub enum Error {
    /// The schema holds no type under this reference.
    TypeAbsent(TypeSpec),
    /// The operation is not supported; the text says which.
    NotImplemented(String),
    /// The bytes do not decode.
    Decode(DecodeError),
}

/// An `Error` as a mathematical value.
pub enum ErrorView {
    TypeAbsent(TypeSpecView),
    NotImplemented(Seq<char>),
    Decode(DecodeFailure),
}

impl Error {
    /// The error as a mathematical value.
    pub open spec fn view(&self) -> ErrorView {
        match self {
            Error::TypeAbsent(spec) => ErrorView::TypeAbsent(spec@),
            Error::NotImplemented(what) => ErrorView::NotImplemented(what@),
            Error::Decode(e) => ErrorView::Decode(e@),
        }
    }
}

impl From<DecodeError> for Error {
    fn from(e: DecodeError) -> (r: Error) {
        Error::Decode(e)
    }
}

impl vstd::std_specs::convert::FromSpecImpl<DecodeError> for Error {
    open spec fn obeys_from_spec() -> bool {
        true
    }

    open spec fn from_spec(e: DecodeError) -> Error {
        Error::Decode(e)
    }
}

/// What loading gives at the front of some bytes: what was read and the
/// bytes that are left, or the failure.
pub type Loaded<T> = Result<(T, Seq<u8>), ErrorView>;

/// The text of the error for a shape that cannot be loaded.
pub open spec fn not_implemented(what: Seq<char>) -> Seq<char> {
    "loading "@ + what + " into a typed value is not yet implemented"@
}

/// The values of a sequence as mathematical values.
pub open spec fn views(vals: Seq<StrictVal>) -> Seq<Value> {
    Seq::new(vals.len(), |i: int| vals[i]@)
}

/// The pairs of a sequence as mathematical values.
pub open spec fn pair_views(pairs: Seq<(StrictVal, StrictVal)>) -> Seq<(Value, Value)> {
    Seq::new(pairs.len(), |i: int| (pairs[i].0@, pairs[i].1@))
}

/// What loading a primitive gives: an integer of the primitive's width, least
/// significant byte first, or the failure for a primitive that is not supported.
pub open spec fn load_number(prim: Primitive, bytes: Seq<u8>) -> Loaded<Value> {
    match prim.spec_layout() {
        None => Err(ErrorView::NotImplemented(not_implemented(prim.spec_name()))),
        Some((width, signed)) => if signed {
            match decode_int(bytes, width) {
                Some(n) => Ok((Value::Number(StrictNum::Int(n as i128)), bytes.skip(width as int))),
                None => Err(ErrorView::Decode(DecodeFailure::UnexpectedEof)),
            }
        } else {
            match decode_uint(bytes, width) {
                Some(n) => Ok(
                    (Value::Number(StrictNum::Uint(n as u128)), bytes.skip(width as int)),
                ),
                None => Err(ErrorView::Decode(DecodeFailure::UnexpectedEof)),
            }
        },
    }
}

/// The form in which a list or set of `elem` items, declared with at most
/// `max` of them, is a text: the capacity class of the text and whether it is
/// restricted to ASCII. `None` where the collection is no text.
pub open spec fn text_form(elem: SemId, max: u64) -> Option<(TextTier, bool)> {
    if elem == SemId::spec_unicode_char() {
        match spec_text_tier(max as nat) {
            Some(tier) => Some((tier, false)),
            None => None,
        }
    } else if elem == SemId::spec_ascii_char() {
        match spec_text_tier(max as nat) {
            Some(tier) => Some((tier, true)),
            None => None,
        }
    } else {
        None
    }
}

/// What loading a text gives: a bounded text of the capacity of its class.
pub open spec fn load_text(tier: TextTier, ascii: bool, bytes: Seq<u8>) -> Loaded<Value> {
    match decode_text(bytes, tier.spec_capacity() as usize, ascii) {
        Ok((text, used)) => Ok((Value::Text(text), bytes.skip(used as int))),
        Err(failure) => Err(ErrorView::Decode(failure)),
    }
}

impl TypeSystem {
    /// What loading a value of the type `spec` gives at the front of `bytes`.
    pub open spec fn spec_load(&self, spec: TypeSpecView, bytes: Seq<u8>) -> Loaded<Value>
        decreases self.depth(spec), 3nat, 0nat,
    {
        let rank = self.depth(spec);
        match self.spec_find(spec) {
            None => Err(ErrorView::TypeAbsent(spec)),
            Some(entry) => match entry.ty {
                Ty::Primitive(prim) => load_number(prim, bytes),
                Ty::UnicodeChar => Err(
                    ErrorView::NotImplemented(not_implemented("a Unicode character"@)),
                ),
                Ty::Enum(variants) => match decode_uint(bytes, 1) {
                    None => Err(ErrorView::Decode(DecodeFailure::UnexpectedEof)),
                    Some(tag) => if variants.spec_has_tag(tag as u8) {
                        Ok((Value::Enum(tag as u8), bytes.skip(1)))
                    } else {
                        Err(
                            ErrorView::Decode(
                                DecodeFailure::EnumTagNotKnown(spec.text(), tag as u8),
                            ),
                        )
                    },
                },
                Ty::Union(variants) => match decode_uint(bytes, 1) {
                    None => Err(ErrorView::Decode(DecodeFailure::UnexpectedEof)),
                    Some(tag) => match variants.spec_ty_by_ord(tag as u8) {
                        None => Err(
                            ErrorView::Decode(
                                DecodeFailure::EnumTagNotKnown(spec.text(), tag as u8),
                            ),
                        ),
                        Some(id) => match self.spec_load_nested(id, rank, bytes.skip(1)) {
                            Ok((payload, rest)) => Ok(
                                (Value::Union(tag as u8, Box::new(payload)), rest),
                            ),
                            Err(e) => Err(e),
                        },
                    },
                },
                Ty::Tuple(ids) => match self.spec_load_tuple(ids@, 0, rank, bytes, Seq::empty()) {
                    Ok((fields, rest)) => Ok((Value::Tuple(fields), rest)),
                    Err(e) => Err(e),
                },
                Ty::Struct(fields) => match self.spec_load_struct(
                    fields@,
                    0,
                    rank,
                    bytes,
                    Seq::empty(),
                ) {
                    Ok((entries, rest)) => Ok((Value::Struct(entries), rest)),
                    Err(e) => Err(e),
                },
                Ty::ArrayOf(_, _) => Err(
                    ErrorView::NotImplemented(not_implemented("a fixed-size array"@)),
                ),
                Ty::ListOf(elem, sizing) => match text_form(elem, sizing.max) {
                    Some((tier, ascii)) => load_text(tier, ascii, bytes),
                    None => match self.spec_load_counted(elem, sizing.max, rank, bytes) {
                        Ok((items, rest)) => Ok((Value::ListOf(items), rest)),
                        Err(e) => Err(e),
                    },
                },
                Ty::SetOf(elem, sizing) => match text_form(elem, sizing.max) {
                    Some((tier, ascii)) => load_text(tier, ascii, bytes),
                    None => match self.spec_load_counted(elem, sizing.max, rank, bytes) {
                        Ok((items, rest)) => Ok((Value::SetOf(items), rest)),
                        Err(e) => Err(e),
                    },
                },
                Ty::MapOf(key, val, sizing) => match decode_uint(
                    bytes,
                    spec_len_width(sizing.max as nat),
                ) {
                    None => Err(ErrorView::Decode(DecodeFailure::UnexpectedEof)),
                    Some(count) => match self.spec_load_pairs(
                        key,
                        val,
                        count,
                        rank,
                        bytes.skip(spec_len_width(sizing.max as nat) as int),
                        Seq::empty(),
                    ) {
                        Ok((pairs, rest)) => Ok((Value::MapOf(pairs), rest)),
                        Err(e) => Err(e),
                    },
                },
            },
        }
    }

    /// What loading a value of the type `id` gives, for a type nested in a
    /// type of depth `rank`. In a schema, a nested type is always less deep
    /// than the type around it; the other branch only keeps this definition
    /// well-founded.
    pub open spec fn spec_load_nested(&self, id: SemId, rank: nat, bytes: Seq<u8>) -> Loaded<
        Value,
    >
        decreases rank, 1nat, 0nat,
    {
        if self.depth(TypeSpecView::SemId(id)) < rank {
            self.spec_load(TypeSpecView::SemId(id), bytes)
        } else {
            Err(ErrorView::TypeAbsent(TypeSpecView::SemId(id)))
        }
    }

    /// What loading a counted collection gives: the number of items, in the
    /// width that the declared maximum selects, then the items.
    pub open spec fn spec_load_counted(&self, elem: SemId, max: u64, rank: nat, bytes: Seq<u8>)
        -> Loaded<Seq<Value>>
        decreases rank, 2nat, 0nat,
    {
        match decode_uint(bytes, spec_len_width(max as nat)) {
            None => Err(ErrorView::Decode(DecodeFailure::UnexpectedEof)),
            Some(count) => self.spec_load_items(
                elem,
                count,
                rank,
                bytes.skip(spec_len_width(max as nat) as int),
                Seq::empty(),
            ),
        }
    }

    /// What loading `count` more items of the type `elem` gives, after the
    /// items `acc`.
    pub open spec fn spec_load_items(
        &self,
        elem: SemId,
        count: nat,
        rank: nat,
        bytes: Seq<u8>,
        acc: Seq<Value>,
    ) -> Loaded<Seq<Value>>
        decreases rank, 1nat, count + 1,
    {
        if count == 0 {
            Ok((acc, bytes))
        } else {
            match self.spec_load_nested(elem, rank, bytes) {
                Ok((item, rest)) => self.spec_load_items(
                    elem,
                    (count - 1) as nat,
                    rank,
                    rest,
                    acc.push(item),
                ),
                Err(e) => Err(e),
            }
        }
    }

    /// What loading `count` more pairs of a key and a value gives, after the
    /// pairs `acc`.
    pub open spec fn spec_load_pairs(
        &self,
        key: SemId,
        val: SemId,
        count: nat,
        rank: nat,
        bytes: Seq<u8>,
        acc: Seq<(Value, Value)>,
    ) -> Loaded<Seq<(Value, Value)>>
        decreases rank, 1nat, count + 1,
    {
        if count == 0 {
            Ok((acc, bytes))
        } else {
            match self.spec_load_nested(key, rank, bytes) {
                Ok((k, after_key)) => match self.spec_load_nested(val, rank, after_key) {
                    Ok((v, rest)) => self.spec_load_pairs(
                        key,
                        val,
                        (count - 1) as nat,
                        rank,
                        rest,
                        acc.push((k, v)),
                    ),
                    Err(e) => Err(e),
                },
                Err(e) => Err(e),
            }
        }
    }

    /// What loading the fields of a tuple from the position `from` on gives,
    /// after the fields `acc`.
    pub open spec fn spec_load_tuple(
        &self,
        ids: Seq<SemId>,
        from: nat,
        rank: nat,
        bytes: Seq<u8>,
        acc: Seq<Value>,
    ) -> Loaded<Seq<Value>>
        decreases rank, 1nat, ids.len() - from + 1,
    {
        if from >= ids.len() {
            Ok((acc, bytes))
        } else {
            match self.spec_load_nested(ids[from as int], rank, bytes) {
                Ok((field, rest)) => self.spec_load_tuple(
                    ids,
                    from + 1,
                    rank,
                    rest,
                    acc.push(field),
                ),
                Err(e) => Err(e),
            }
        }
    }

    /// What loading the fields of a struct from the position `from` on gives,
    /// after the entries `acc`. Each field is inserted under its name.
    pub open spec fn spec_load_struct(
        &self,
        fields: Seq<Field>,
        from: nat,
        rank: nat,
        bytes: Seq<u8>,
        acc: Seq<(Seq<char>, Value)>,
    ) -> Loaded<Seq<(Seq<char>, Value)>>
        decreases rank, 1nat, fields.len() - from + 1,
    {
        if from >= fields.len() {
            Ok((acc, bytes))
        } else {
            match self.spec_load_nested(fields[from as int].ty, rank, bytes) {
                Ok((val, rest)) => self.spec_load_struct(
                    fields,
                    from + 1,
                    rank,
                    rest,
                    spec_insert(acc, fields[from as int].name@, val),
                ),
                Err(e) => Err(e),
            }
        }
    }
}

/// Whether `r` and the bytes `left` that a reader is left with are what
/// `expected` says.
pub open spec fn loaded_as(r: Result<StrictVal, Error>, left: Seq<u8>, expected: Loaded<Value>)
    -> bool {
    match expected {
        Ok((val, rest)) => r is Ok && r->Ok_0@ == val && left == rest,
        Err(e) => r is Err && r->Err_0@ == e,
    }
}

/// Whether `r` and the bytes `left` that a reader is left with are what
/// `expected` says.
pub open spec fn all_loaded_as(
    r: Result<Vec<StrictVal>, Error>,
    left: Seq<u8>,
    expected: Loaded<Seq<Value>>,
) -> bool {
    match expected {
        Ok((vals, rest)) => r is Ok && views(r->Ok_0@) == vals && left == rest,
        Err(e) => r is Err && r->Err_0@ == e,
    }
}

/// The error for a shape that cannot be loaded.
fn not_implemented_error(what: &str) -> (e: Error)
    ensures
        e@ == ErrorView::NotImplemented(not_implemented(what@)),
{
    let text = String::from_str("loading ").concat(what).concat(
        " into a typed value is not yet implemented",
    );
    Error::NotImplemented(text)
}

/// Loads a number of the primitive type `prim`.
pub fn load_primitive<R: TypedRead>(prim: Primitive, d: &mut R) -> (r: Result<StrictVal, Error>)
    ensures
        loaded_as(r, final(d).remaining(), load_number(prim, old(d).remaining())),
{
    proof {
        let bytes = d.remaining();
        lemma_pow256_values();
        if bytes.len() >= 1 {
            lemma_le_value_bound(bytes.take(1));
        }
        if bytes.len() >= 2 {
            lemma_le_value_bound(bytes.take(2));
        }
        if bytes.len() >= 3 {
            lemma_le_value_bound(bytes.take(3));
        }
        if bytes.len() >= 4 {
            lemma_le_value_bound(bytes.take(4));
        }
        if bytes.len() >= 8 {
            lemma_le_value_bound(bytes.take(8));
        }
        if bytes.len() >= 16 {
            lemma_le_value_bound(bytes.take(16));
        }
    }
    match prim {
        Primitive::U8 => match u8::strict_decode(d) {
            Ok(n) => Ok(StrictVal::unsigned(n as u128)),
            Err(e) => Err(Error::Decode(e)),
        },
        Primitive::U16 => match u16::strict_decode(d) {
            Ok(n) => Ok(StrictVal::unsigned(n as u128)),
            Err(e) => Err(Error::Decode(e)),
        },
        Primitive::U24 => match read_u24(d) {
            Ok(n) => Ok(StrictVal::unsigned(n as u128)),
            Err(e) => Err(Error::Decode(e)),
        },
        Primitive::U32 => match u32::strict_decode(d) {
            Ok(n) => Ok(StrictVal::unsigned(n as u128)),
            Err(e) => Err(Error::Decode(e)),
        },
        Primitive::U64 => match u64::strict_decode(d) {
            Ok(n) => Ok(StrictVal::unsigned(n as u128)),
            Err(e) => Err(Error::Decode(e)),
        },
        Primitive::U128 => match u128::strict_decode(d) {
            Ok(n) => Ok(StrictVal::unsigned(n)),
            Err(e) => Err(Error::Decode(e)),
        },
        Primitive::I8 => match i8::strict_decode(d) {
            Ok(n) => Ok(StrictVal::signed(n as i128)),
            Err(e) => Err(Error::Decode(e)),
        },
        Primitive::I16 => match i16::strict_decode(d) {
            Ok(n) => Ok(StrictVal::signed(n as i128)),
            Err(e) => Err(Error::Decode(e)),
        },
        Primitive::I32 => match i32::strict_decode(d) {
            Ok(n) => Ok(StrictVal::signed(n as i128)),
            Err(e) => Err(Error::Decode(e)),
        },
        Primitive::I64 => match i64::strict_decode(d) {
            Ok(n) => Ok(StrictVal::signed(n as i128)),
            Err(e) => Err(Error::Decode(e)),
        },
        Primitive::I128 => match i128::strict_decode(d) {
            Ok(n) => Ok(StrictVal::signed(n)),
            Err(e) => Err(Error::Decode(e)),
        },
        other => {
            let name = other.name();
            Err(not_implemented_error(name.as_str()))
        },
    }
}

/// Loads a text of the capacity class `tier`.
pub fn load_bounded_text<R: TypedRead>(tier: TextTier, ascii: bool, d: &mut R) -> (r: Result<
    StrictVal,
    Error,
>)
    ensures
        loaded_as(r, final(d).remaining(), load_text(tier, ascii, old(d).remaining())),
{
    let text = match tier {
        TextTier::Tiny => if ascii {
            read_ascii::<R, TINY>(d)
        } else {
            read_string::<R, TINY>(d)
        },
        TextTier::Small => if ascii {
            read_ascii::<R, SMALL>(d)
        } else {
            read_string::<R, SMALL>(d)
        },
        TextTier::Medium => if ascii {
            read_ascii::<R, MEDIUM>(d)
        } else {
            read_string::<R, MEDIUM>(d)
        },
        TextTier::Large => if ascii {
            read_ascii::<R, LARGE>(d)
        } else {
            read_string::<R, LARGE>(d)
        },
    };
    match text {
        Ok(text) => Ok(StrictVal::Text(text)),
        Err(e) => Err(Error::Decode(e)),
    }
}

/// Selects the form in which a list or set of `elem` items, declared with at
/// most `max` of them, is a text.
pub fn text_form_of(elem: SemId, max: u64) -> (form: Option<(TextTier, bool)>)
    ensures
        form == text_form(elem, max),
{
    if elem.is_unicode_char() {
        match text_tier(max) {
            Some(tier) => Some((tier, false)),
            None => None,
        }
    } else if elem.is_ascii_char() {
        match text_tier(max) {
            Some(tier) => Some((tier, true)),
            None => None,
        }
    } else {
        None
    }
}

impl TypeSystem {
    /// Writing a value out by the schema is not supported: nothing is
    /// written, and the error says so.
    pub fn store(&self, spec: TypeSpec, obj: TypedVal, e: &mut Vec<u8>) -> (r: Result<(), Error>)
        ensures
            r is Err,
            r->Err_0@ == ErrorView::NotImplemented("storing a typed value"@),
            final(e)@ == old(e)@,
    {
        Err(Error::NotImplemented(String::from_str("storing a typed value")))
    }

    /// Loads `len` items of the type `ty`.
    fn read_list<R: TypedRead>(
        &self,
        len: u64,
        ty: SemId,
        d: &mut R,
        Ghost(rank): Ghost<nat>,
    ) -> (r: Result<Vec<StrictVal>, Error>)
        requires
            self.depth(TypeSpecView::SemId(ty)) < rank,
        ensures
            all_loaded_as(
                r,
                final(d).remaining(),
                self.spec_load_items(ty, len as nat, rank, old(d).remaining(), Seq::empty()),
            ),
        decreases rank, 2nat, 0nat,
    {
        let mut list: Vec<StrictVal> = Vec::new();
        let mut i: u64 = 0;
        assert(views(list@) =~= Seq::<Value>::empty());
        while i < len
            invariant
                i <= len,
                self.depth(TypeSpecView::SemId(ty)) < rank,
                self.spec_load_items(ty, len as nat, rank, old(d).remaining(), Seq::empty())
                    == self.spec_load_items(
                    ty,
                    (len - i) as nat,
                    rank,
                    d.remaining(),
                    views(list@),
                ),
            decreases len - i,
        {
            proof {
                let cur = d.remaining();
                let acc = views(list@);
                assert(self.spec_load_nested(ty, rank, cur) == self.spec_load(
                    TypeSpecView::SemId(ty),
                    cur,
                ));
                assert(self.spec_load_items(ty, (len - i) as nat, rank, cur, acc)
                    == match self.spec_load_nested(ty, rank, cur) {
                    Ok((item, rest)) => self.spec_load_items(
                        ty,
                        (len - i - 1) as nat,
                        rank,
                        rest,
                        acc.push(item),
                    ),
                    Err(e) => Err(e),
                });
            }
            let item = match self.load(TypeSpec::SemId(ty), d) {
                Ok(item) => item,
                Err(e) => {
                    return Err(e);
                },
            };
            proof {
                assert(views(list@.push(item.val)) =~= views(list@).push(item.val@));
            }
            list.push(item.val);
            i = i + 1;
        }
        Ok(list)
    }

    /// Loads `len` pairs of a key of the type `key_ty` and a value of the type `ty`.
    fn read_map<R: TypedRead>(
        &self,
        len: u64,
        key_ty: SemId,
        ty: SemId,
        d: &mut R,
        Ghost(rank): Ghost<nat>,
    ) -> (r: Result<Vec<(StrictVal, StrictVal)>, Error>)
        requires
            self.depth(TypeSpecView::SemId(key_ty)) < rank,
            self.depth(TypeSpecView::SemId(ty)) < rank,
        ensures
            match self.spec_load_pairs(
                key_ty,
                ty,
                len as nat,
                rank,
                old(d).remaining(),
                Seq::empty(),
            ) {
                Ok((pairs, rest)) => r is Ok
                    && pair_views(r->Ok_0@) == pairs
                    && final(d).remaining() == rest,
                Err(e) => r is Err && r->Err_0@ == e,
            },
        decreases rank, 2nat, 0nat,
    {
        let mut list: Vec<(StrictVal, StrictVal)> = Vec::new();
        let mut i: u64 = 0;
        assert(pair_views(list@) =~= Seq::<(Value, Value)>::empty());
        while i < len
            invariant
                i <= len,
                self.depth(TypeSpecView::SemId(key_ty)) < rank,
                self.depth(TypeSpecView::SemId(ty)) < rank,
                self.spec_load_pairs(key_ty, ty, len as nat, rank, old(d).remaining(), Seq::empty())
                    == self.spec_load_pairs(
                    key_ty,
                    ty,
                    (len - i) as nat,
                    rank,
                    d.remaining(),
                    pair_views(list@),
                ),
            decreases len - i,
        {
            proof {
                let cur = d.remaining();
                let acc = pair_views(list@);
                assert(self.spec_load_nested(key_ty, rank, cur) == self.spec_load(
                    TypeSpecView::SemId(key_ty),
                    cur,
                ));
                assert(self.spec_load_pairs(key_ty, ty, (len - i) as nat, rank, cur, acc)
                    == match self.spec_load_nested(key_ty, rank, cur) {
                    Ok((k, after_key)) => match self.spec_load_nested(ty, rank, after_key) {
                        Ok((v, rest)) => self.spec_load_pairs(
                            key_ty,
                            ty,
                            (len - i - 1) as nat,
                            rank,
                            rest,
                            acc.push((k, v)),
                        ),
                        Err(e) => Err(e),
                    },
                    Err(e) => Err(e),
                });
            }
            let key = match self.load(TypeSpec::SemId(key_ty), d) {
                Ok(key) => key,
                Err(e) => {
                    return Err(e);
                },
            };
            proof {
                let cur = d.remaining();
                assert(self.spec_load_nested(ty, rank, cur) == self.spec_load(
                    TypeSpecView::SemId(ty),
                    cur,
                ));
            }
            let item = match self.load(TypeSpec::SemId(ty), d) {
                Ok(item) => item,
                Err(e) => {
                    return Err(e);
                },
            };
            proof {
                assert(pair_views(list@.push((key.val, item.val))) =~= pair_views(list@).push(
                    (key.val@, item.val@),
                ));
            }
            list.push((key.val, item.val));
            i = i + 1;
        }
        Ok(list)
    }

    /// Loads the fields of a tuple, in declared order.
    fn load_tuple<R: TypedRead>(
        &self,
        ids: &Vec<SemId>,
        d: &mut R,
        Ghost(rank): Ghost<nat>,
    ) -> (r: Result<Vec<StrictVal>, Error>)
        requires
            forall|k: int|
                0 <= k < ids@.len() ==> self.depth(TypeSpecView::SemId(#[trigger] ids@[k])) < rank,
        ensures
            all_loaded_as(
                r,
                final(d).remaining(),
                self.spec_load_tuple(ids@, 0, rank, old(d).remaining(), Seq::empty()),
            ),
        decreases rank, 2nat, 0nat,
    {
        let mut fields: Vec<StrictVal> = Vec::new();
        let mut i: usize = 0;
        assert(views(fields@) =~= Seq::<Value>::empty());
        while i < ids.len()
            invariant
                i <= ids@.len(),
                forall|k: int|
                    0 <= k < ids@.len() ==> self.depth(TypeSpecView::SemId(#[trigger] ids@[k]))
                        < rank,
                self.spec_load_tuple(ids@, 0, rank, old(d).remaining(), Seq::empty())
                    == self.spec_load_tuple(ids@, i as nat, rank, d.remaining(), views(fields@)),
            decreases ids@.len() - i,
        {
            proof {
                let cur = d.remaining();
                let acc = views(fields@);
                assert(self.spec_load_nested(ids@[i as int], rank, cur) == self.spec_load(
                    TypeSpecView::SemId(ids@[i as int]),
                    cur,
                ));
                assert(self.spec_load_tuple(ids@, i as nat, rank, cur, acc)
                    == match self.spec_load_nested(ids@[i as int], rank, cur) {
                    Ok((field, rest)) => self.spec_load_tuple(
                        ids@,
                        (i + 1) as nat,
                        rank,
                        rest,
                        acc.push(field),
                    ),
                    Err(e) => Err(e),
                });
            }
            let checked = match self.load(TypeSpec::SemId(ids[i]), d) {
                Ok(checked) => checked,
                Err(e) => {
                    return Err(e);
                },
            };
            proof {
                assert(views(fields@.push(checked.val)) =~= views(fields@).push(checked.val@));
            }
            fields.push(checked.val);
            i = i + 1;
        }
        Ok(fields)
    }

    /// Loads the fields of a struct, in declared order, each under its name.
    fn load_struct<R: TypedRead>(
        &self,
        reqs: &Vec<Field>,
        d: &mut R,
        Ghost(rank): Ghost<nat>,
    ) -> (r: Result<FieldMap, Error>)
        requires
            forall|k: int|
                0 <= k < reqs@.len() ==> self.depth(TypeSpecView::SemId(#[trigger] reqs@[k].ty))
                    < rank,
        ensures
            match self.spec_load_struct(reqs@, 0, rank, old(d).remaining(), Seq::empty()) {
                Ok((entries, rest)) => r is Ok
                    && field_map_entries(r->Ok_0) == entries
                    && final(d).remaining() == rest,
                Err(e) => r is Err && r->Err_0@ == e,
            },
        decreases rank, 2nat, 0nat,
    {
        let mut fields = FieldMap::with_capacity(reqs.len());
        let mut i: usize = 0;
        while i < reqs.len()
            invariant
                i <= reqs@.len(),
                forall|k: int|
                    0 <= k < reqs@.len() ==> self.depth(
                        TypeSpecView::SemId(#[trigger] reqs@[k].ty),
                    ) < rank,
                self.spec_load_struct(reqs@, 0, rank, old(d).remaining(), Seq::empty())
                    == self.spec_load_struct(
                    reqs@,
                    i as nat,
                    rank,
                    d.remaining(),
                    field_map_entries(fields),
                ),
            decreases reqs@.len() - i,
        {
            let field = &reqs[i];
            proof {
                let cur = d.remaining();
                let acc = field_map_entries(fields);
                assert(self.spec_load_nested(field.ty, rank, cur) == self.spec_load(
                    TypeSpecView::SemId(field.ty),
                    cur,
                ));
                assert(self.spec_load_struct(reqs@, i as nat, rank, cur, acc)
                    == match self.spec_load_nested(field.ty, rank, cur) {
                    Ok((val, rest)) => self.spec_load_struct(
                        reqs@,
                        (i + 1) as nat,
                        rank,
                        rest,
                        spec_insert(acc, field.name@, val),
                    ),
                    Err(e) => Err(e),
                });
            }
            let checked = match self.load(TypeSpec::SemId(field.ty), d) {
                Ok(checked) => checked,
                Err(e) => {
                    return Err(e);
                },
            };
            fields.insert(field.name.duplicate(), checked.val);
            i = i + 1;
        }
        Ok(fields)
    }

    /// Loads a value of the type `spec` from the front of `d`, reading
    /// exactly the bytes of the value.
    pub fn load<R: TypedRead>(&self, spec: TypeSpec, d: &mut R) -> (r: Result<TypedVal, Error>)
        ensures
            match self.spec_load(spec@, old(d).remaining()) {
                Ok((val, rest)) => r is Ok && r->Ok_0.val@ == val && r->Ok_0.spec@ == spec@
                    && final(d).remaining() == rest,
                Err(e) => r is Err && r->Err_0@ == e,
            },
        decreases self.depth(spec@), 3nat, 0nat,
    {
        let ghost rank = self.depth(spec@);
        let ghost bytes = d.remaining();
        let entry = match self.find(&spec) {
            Some(entry) => entry,
            None => {
                return Err(Error::TypeAbsent(spec));
            },
        };
        let loaded: Result<StrictVal, Error> = match &entry.ty {
            Ty::Primitive(prim) => load_primitive(*prim, d),
            Ty::UnicodeChar => Err(not_implemented_error("a Unicode character")),
            Ty::Enum(variants) => {
                proof {
                    lemma_pow256_values();
                    if bytes.len() >= 1 {
                        lemma_le_value_bound(bytes.take(1));
                    }
                }
                match u8::strict_decode(d) {
                    Err(e) => Err(Error::Decode(e)),
                    Ok(tag) => if !variants.has_tag(tag) {
                        Err(Error::Decode(DecodeError::EnumTagNotKnown(spec.to_string(), tag)))
                    } else {
                        Ok(StrictVal::enumer(tag))
                    },
                }
            },
            Ty::Union(variants) => {
                proof {
                    lemma_pow256_values();
                    if bytes.len() >= 1 {
                        lemma_le_value_bound(bytes.take(1));
                    }
                }
                match u8::strict_decode(d) {
                    Err(e) => Err(Error::Decode(e)),
                    Ok(tag) => match variants.ty_by_ord(tag) {
                        None => Err(
                            Error::Decode(DecodeError::EnumTagNotKnown(spec.to_string(), tag)),
                        ),
                        Some(ty) => {
                            proof {
                                lemma_tag_position(variants.tags(), tag, 0);
                                let i = tag_position(variants.tags(), tag, 0)->Some_0 as int;
                                assert(entry.ty.refs()[i] == ty);
                            }
                            match self.load(TypeSpec::SemId(ty), d) {
                                Ok(fields) => Ok(StrictVal::union(tag, fields.val)),
                                Err(e) => Err(e),
                            }
                        },
                    },
                }
            },
            Ty::Tuple(reqs) => {
                assert(entry.ty.refs() == reqs@);
                match self.load_tuple(reqs, d, Ghost(rank)) {
                    Ok(fields) => {
                        let val = StrictVal::Tuple(fields);
                        assert(val@->Tuple_0 =~= views(fields@));
                        Ok(val)
                    },
                    Err(e) => Err(e),
                }
            },
            Ty::Struct(reqs) => {
                assert forall|k: int| 0 <= k < reqs@.len() implies self.depth(
                    TypeSpecView::SemId(#[trigger] reqs@[k].ty),
                ) < rank by {
                    assert(entry.ty.refs()[k] == reqs@[k].ty);
                }
                match self.load_struct(reqs, d, Ghost(rank)) {
                    Ok(fields) => Ok(StrictVal::Struct(fields)),
                    Err(e) => Err(e),
                }
            },
            Ty::ArrayOf(_ty, _len) => Err(not_implemented_error("a fixed-size array")),
            Ty::ListOf(ty, sizing) => match text_form_of(*ty, sizing.max) {
                Some((tier, ascii)) => load_bounded_text(tier, ascii, d),
                None => {
                    assert(entry.ty.refs()[0] == *ty);
                    match read_len(d, sizing.max) {
                        Err(e) => Err(Error::Decode(e)),
                        Ok(len) => match self.read_list(len, *ty, d, Ghost(rank)) {
                            Ok(list) => {
                                let val = StrictVal::ListOf(list);
                                assert(val@->ListOf_0 =~= views(list@));
                                Ok(val)
                            },
                            Err(e) => Err(e),
                        },
                    }
                },
            },
            Ty::SetOf(ty, sizing) => match text_form_of(*ty, sizing.max) {
                Some((tier, ascii)) => load_bounded_text(tier, ascii, d),
                None => {
                    assert(entry.ty.refs()[0] == *ty);
                    match read_len(d, sizing.max) {
                        Err(e) => Err(Error::Decode(e)),
                        Ok(len) => match self.read_list(len, *ty, d, Ghost(rank)) {
                            Ok(list) => {
                                let val = StrictVal::SetOf(list);
                                assert(val@->SetOf_0 =~= views(list@));
                                Ok(val)
                            },
                            Err(e) => Err(e),
                        },
                    }
                },
            },
            Ty::MapOf(key_ty, ty, sizing) => {
                assert(entry.ty.refs()[0] == *key_ty && entry.ty.refs()[1] == *ty);
                match read_len(d, sizing.max) {
                    Err(e) => Err(Error::Decode(e)),
                    Ok(len) => match self.read_map(len, *key_ty, *ty, d, Ghost(rank)) {
                        Ok(list) => {
                            let val = StrictVal::MapOf(list);
                            assert(val@->MapOf_0 =~= pair_views(list@));
                            Ok(val)
                        },
                        Err(e) => Err(e),
                    },
                }
            },
        };
        match loaded {
            Ok(val) => Ok(TypedVal { val, spec }),
            Err(e) => Err(e),
        }
    }
}

} // verus!
