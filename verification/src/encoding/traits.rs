//! The protocol that readers, writers and encodable values follow.

use crate::confinement::{ConfinedVec, ConfinementError};
use crate::encoding::error::{
    DecodeError, DecodeFailure, DeserializeError, DeserializeFailure, SerializeError,
};
use crate::encoding::ident::{is_ident, Ident};
use crate::encoding::le::{le_bytes, lemma_le_bytes_mod, lemma_pow256_values, put_le};
use crate::encoding::reader::StrictReader;
use crate::encoding::primitives::{decode_uint, lemma_decode_uint_encoded};
use crate::encoding::sizing::{
    len_tier, spec_len_tier, spec_len_width, u24_to_le_bytes, LenTier,
};
use crate::encoding::writer::StrictWriter;
use vstd::prelude::*;

verus! {

/// Something that names an identifier.
pub trait ToIdent {
    /// Whether this can be taken for an identifier. A name written in the
    /// program always can; a text made at run time only where it is one.
    spec fn names_ident(&self) -> bool;

    /// The characters of the identifier.
    spec fn ident_text(&self) -> Seq<char>;

    /// The identifier.
    fn to_ident(&self) -> (id: Ident)
        requires
            self.names_ident(),
        ensures
            id@ == self.ident_text(),
    ;
}

impl ToIdent for &'static str {
    open spec fn names_ident(&self) -> bool {
        true
    }

    open spec fn ident_text(&self) -> Seq<char> {
        self@
    }

    fn to_ident(&self) -> (id: Ident) {
        Ident::from_static(*self)
    }
}

impl ToIdent for String {
    open spec fn names_ident(&self) -> bool {
        is_ident(self@)
    }

    open spec fn ident_text(&self) -> Seq<char> {
        self@
    }

    fn to_ident(&self) -> (id: Ident) {
        match Ident::try_from(self.clone()) {
            Ok(id) => id,
            Err(_) => vstd::pervasive::unreached(),
        }
    }
}

impl ToIdent for Ident {
    open spec fn names_ident(&self) -> bool {
        true
    }

    open spec fn ident_text(&self) -> Seq<char> {
        self@
    }

    fn to_ident(&self) -> (id: Ident) {
        self.duplicate()
    }
}

/// Something that may name an identifier.
pub trait ToMaybeIdent {
    /// Whether this names nothing, or something that can be taken for an
    /// identifier.
    spec fn names_maybe_ident(&self) -> bool;

    /// The characters of the identifier, where there is one.
    spec fn maybe_ident_text(&self) -> Option<Seq<char>>;

    /// The identifier, where there is one.
    fn to_maybe_ident(&self) -> (id: Option<Ident>)
        requires
            self.names_maybe_ident(),
        ensures
            match self.maybe_ident_text() {
                Some(text) => id is Some && id->Some_0@ == text,
                None => id is None,
            },
    ;
}

impl<T: ToIdent> ToMaybeIdent for Option<T> {
    open spec fn names_maybe_ident(&self) -> bool {
        match self {
            Some(n) => n.names_ident(),
            None => true,
        }
    }

    open spec fn maybe_ident_text(&self) -> Option<Seq<char>> {
        match self {
            Some(n) => Some(n.ident_text()),
            None => None,
        }
    }

    fn to_maybe_ident(&self) -> (id: Option<Ident>) {
        match self {
            Some(n) => Some(n.to_ident()),
            None => None,
        }
    }
}

/// A source of bytes that is read from its front.
pub trait TypedRead: Sized {
    /// The bytes that have not been read yet.
    spec fn remaining(&self) -> Seq<u8>;

    /// A source never holds more bytes than a machine can address.
    proof fn lemma_remaining_bounded(&self)
        ensures
            self.remaining().len() <= usize::MAX,
    ;

    /// Reads the next `len` bytes. Where fewer are left, fails and reads nothing.
    fn read_raw(&mut self, len: usize) -> (r: Result<Vec<u8>, DecodeError>)
        ensures
            len <= old(self).remaining().len() ==> r is Ok
                && r->Ok_0@ == old(self).remaining().take(len as int)
                && final(self).remaining() == old(self).remaining().skip(len as int),
            len > old(self).remaining().len() ==> r is Err && r->Err_0 is UnexpectedEof
                && final(self).remaining() == old(self).remaining(),
    ;
}

/// A value that can be read from strict-encoded bytes.
pub trait StrictDecode: Sized {
    /// What decoding gives at the front of `bytes`: the value and the number
    /// of bytes that it takes, or the failure.
    spec fn spec_decode(bytes: Seq<u8>) -> Result<(Self, nat), DecodeFailure>;

    /// Reads one value from `reader`, taking exactly the bytes of its encoding.
    fn strict_decode<R: TypedRead>(reader: &mut R) -> (r: Result<Self, DecodeError>)
        ensures
            match Self::spec_decode(old(reader).remaining()) {
                Ok((value, used)) => r is Ok && r->Ok_0 == value
                    && used <= old(reader).remaining().len()
                    && final(reader).remaining() == old(reader).remaining().skip(used as int),
                Err(failure) => r is Err && r->Err_0@ == failure,
            },
    ;
}

/// Something that bytes are written to: a writer, or a builder that is open
/// on a writer and passes the bytes on.
pub trait StrictParent: Sized {
    /// All the bytes written so far.
    spec fn written(&self) -> Seq<u8>;

    /// The largest number of bytes that may ever be written.
    spec fn limit(&self) -> nat;

    /// Whether this is `before` after `bytes` were written to it, and
    /// nothing else about it has changed.
    spec fn follows(&self, before: &Self, bytes: Seq<u8>) -> bool;

    /// What follows holds the bytes of what went before, and the new ones.
    proof fn lemma_follows(&self, before: &Self, bytes: Seq<u8>)
        requires
            self.follows(before, bytes),
        ensures
            self.written() == before.written() + bytes,
            self.limit() == before.limit(),
            self.written().len() <= self.limit(),
    ;

    /// Two writes in a row are one write of both byte strings.
    proof fn lemma_follows_twice(
        &self,
        between: &Self,
        before: &Self,
        first: Seq<u8>,
        then: Seq<u8>,
    )
        requires
            between.follows(before, first),
            self.follows(between, then),
        ensures
            self.follows(before, first + then),
    ;

    /// Writes the encoding of `value`, or fails where the limit has no room
    /// for it.
    fn write_value<T: StrictEncode>(self, value: &T) -> (r: Result<Self, ConfinementError>)
        ensures
            self.written().len() + value.encoding().len() <= self.limit() ==> r is Ok
                && r->Ok_0.follows(&self, value.encoding()),
            self.written().len() + value.encoding().len() > self.limit() ==> r is Err
                && r->Err_0 is Oversize && r->Err_0->max_len == self.limit(),
    ;
}

/// Whether the limit of `sink` leaves room for `bytes`.
pub open spec fn has_room<W: StrictParent>(sink: W, bytes: Seq<u8>) -> bool {
    sink.written().len() + bytes.len() <= sink.limit()
}

/// What every write promises: where the bytes fit under the limit, the
/// result is the writer after them; where they do not, the write fails with
/// an `Oversize` that names the limit.
pub open spec fn wrote<W: StrictParent>(before: W, bytes: Seq<u8>, r: Result<W, ConfinementError>)
    -> bool {
    if has_room(before, bytes) {
        r is Ok && r->Ok_0.follows(&before, bytes)
    } else {
        r is Err && r->Err_0 is Oversize && r->Err_0->max_len == before.limit()
    }
}

/// The length prefix of a collection of `len` items that is declared with at
/// most `max_len`: the low-order bytes of `len`, in the width of the tier.
pub open spec fn len_prefix(len: nat, max_len: nat) -> Seq<u8> {
    match spec_len_tier(max_len) {
        Some(tier) => le_bytes(len, tier.spec_width()),
        None => Seq::empty(),
    }
}

/// A length that is written for a collection is read back as it was: the
/// writer and the reader agree on the width of the prefix, and the prefix
/// holds every length up to the declared maximum.
pub proof fn lemma_len_prefix_read_back(len: nat, max_len: nat, rest: Seq<u8>)
    requires
        spec_len_tier(max_len) is Some,
        len <= max_len,
    ensures
        len_prefix(len, max_len).len() == spec_len_width(max_len),
        decode_uint(len_prefix(len, max_len) + rest, spec_len_width(max_len)) == Some(len),
{
    lemma_pow256_values();
    lemma_decode_uint_encoded(len, spec_len_width(max_len), rest);
}

/// Whether a length can be written for a collection declared with at most
/// `max_len` items: the maximum has a tier, and in the three-byte tier the
/// low 32 bits of the length are a 24-bit number.
pub open spec fn len_writable(len: nat, max_len: nat) -> bool {
    &&& spec_len_tier(max_len) is Some
    &&& spec_len_tier(max_len) == Some(LenTier::U24) ==> len % 0x1_0000_0000 <= 0xFF_FFFF
}

/// The encodings of the items from the position `from` on, one after another.
pub open spec fn encoding_of_all<T: StrictEncode>(items: Seq<T>, from: nat) -> Seq<u8>
    decreases items.len() - from,
{
    if from >= items.len() {
        Seq::empty()
    } else {
        items[from as int].encoding() + encoding_of_all(items, from + 1)
    }
}

/// The place of the first of `names`, at or after `from`, that is `name`.
pub open spec fn name_position(names: Seq<Seq<char>>, name: Seq<char>, from: nat) -> Option<nat>
    decreases names.len() - from,
{
    if from >= names.len() {
        None
    } else if names[from as int] == name {
        Some(from)
    } else {
        name_position(names, name, from + 1)
    }
}

/// The ordinal of the variant `name` of a union: the place at which the name
/// was first defined, where that place is below 256.
pub open spec fn spec_ord_of(names: Seq<Seq<char>>, name: Seq<char>) -> Option<u8> {
    match name_position(names, name, 0) {
        Some(i) => if i < 256 {
            Some(i as u8)
        } else {
            None
        },
        None => None,
    }
}

/// The names of the variants of an enumeration, in the order of definition.
pub open spec fn variant_names(variants: Seq<(Seq<char>, u8)>) -> Seq<Seq<char>> {
    Seq::new(variants.len(), |i: int| variants[i].0)
}

/// The tag of the variant `name` of an enumeration: that of the first
/// definition of the name.
pub open spec fn spec_tag_of(variants: Seq<(Seq<char>, u8)>, name: Seq<char>) -> Option<u8> {
    match name_position(variant_names(variants), name, 0) {
        Some(i) => Some(variants[i as int].1),
        None => None,
    }
}

/// Defines the fields of a tuple, in order.
pub trait DefineTuple<P: Sized>: Sized {
    /// What `complete` will hand back.
    spec fn parent(&self) -> P;

    /// For each field defined so far, the ordinal that it was pinned to, if any.
    spec fn ords(&self) -> Seq<Option<u8>>;

    /// Defines the next field.
    fn define_field<T: StrictEncode>(self) -> (r: Self)
        ensures
            r.parent() == self.parent(),
            r.ords() == self.ords().push(None::<u8>),
    ;

    /// Defines the next field and pins it to the ordinal `ord`.
    fn define_field_ord<T: StrictEncode>(self, ord: u8) -> (r: Self)
        ensures
            r.parent() == self.parent(),
            r.ords() == self.ords().push(Some(ord)),
    ;

    /// Closes the tuple and goes back to where it was opened.
    fn complete(self) -> (p: P)
        ensures
            p == self.parent(),
    ;
}

/// Writes the fields of a tuple, in order: each field as its encoding,
/// with nothing between the fields.
pub trait WriteTuple<P: StrictParent>: Sized {
    /// What `complete` will hand back.
    spec fn parent(&self) -> P;

    /// For each field written so far, the ordinal that it was pinned to, if any.
    spec fn ords(&self) -> Seq<Option<u8>>;

    /// Writes the next field.
    fn write_field<T: StrictEncode>(self, value: &T) -> (r: Result<Self, ConfinementError>)
        ensures
            has_room(self.parent(), value.encoding()) ==> r is Ok
                && r->Ok_0.parent().follows(&self.parent(), value.encoding())
                && r->Ok_0.ords() == self.ords().push(None::<u8>),
            !has_room(self.parent(), value.encoding()) ==> r is Err
                && r->Err_0 is Oversize
                && r->Err_0->max_len == self.parent().limit(),
    ;

    /// Writes the next field, pinned to the ordinal `ord`. The ordinal does
    /// not go on the wire.
    fn write_field_ord<T: StrictEncode>(self, ord: u8, value: &T) -> (r: Result<
        Self,
        ConfinementError,
    >)
        ensures
            has_room(self.parent(), value.encoding()) ==> r is Ok
                && r->Ok_0.parent().follows(&self.parent(), value.encoding())
                && r->Ok_0.ords() == self.ords().push(Some(ord)),
            !has_room(self.parent(), value.encoding()) ==> r is Err
                && r->Err_0 is Oversize
                && r->Err_0->max_len == self.parent().limit(),
    ;

    /// Closes the tuple and goes back to where it was opened.
    fn complete(self) -> (p: P)
        ensures
            p == self.parent(),
    ;
}

/// Defines the fields of a struct, in order.
pub trait DefineStruct<P: Sized>: Sized {
    /// What `complete` will hand back.
    spec fn parent(&self) -> P;

    /// For each field defined so far, its name and the ordinal that it was
    /// pinned to, if any.
    spec fn fields(&self) -> Seq<(Seq<char>, Option<u8>)>;

    /// Defines the next field.
    fn define_field<T: StrictEncode, N: ToIdent>(self, name: N) -> (r: Self)
        requires
            name.names_ident(),
        ensures
            r.parent() == self.parent(),
            r.fields() == self.fields().push((name.ident_text(), None::<u8>)),
    ;

    /// Defines the next field and pins it to the ordinal `ord`.
    fn define_field_ord<T: StrictEncode, N: ToIdent>(self, name: N, ord: u8) -> (r: Self)
        requires
            name.names_ident(),
        ensures
            r.parent() == self.parent(),
            r.fields() == self.fields().push((name.ident_text(), Some(ord))),
    ;

    /// Closes the struct and goes back to where it was opened.
    fn complete(self) -> (p: P)
        ensures
            p == self.parent(),
    ;
}

/// Writes the fields of a struct, in order: each field as its encoding. The
/// names do not go on the wire.
pub trait WriteStruct<P: StrictParent>: Sized {
    /// What `complete` will hand back.
    spec fn parent(&self) -> P;

    /// For each field written so far, its name and the ordinal that it was
    /// pinned to, if any.
    spec fn fields(&self) -> Seq<(Seq<char>, Option<u8>)>;

    /// Writes the next field.
    fn write_field<T: StrictEncode, N: ToIdent>(self, name: N, value: &T) -> (r: Result<
        Self,
        ConfinementError,
    >)
        requires
            name.names_ident(),
        ensures
            has_room(self.parent(), value.encoding()) ==> r is Ok
                && r->Ok_0.parent().follows(&self.parent(), value.encoding())
                && r->Ok_0.fields() == self.fields().push((name.ident_text(), None::<u8>)),
            !has_room(self.parent(), value.encoding()) ==> r is Err
                && r->Err_0 is Oversize
                && r->Err_0->max_len == self.parent().limit(),
    ;

    /// Writes the next field, pinned to the ordinal `ord`.
    fn write_field_ord<T: StrictEncode, N: ToIdent>(self, name: N, ord: u8, value: &T) -> (r:
        Result<Self, ConfinementError>)
        requires
            name.names_ident(),
        ensures
            has_room(self.parent(), value.encoding()) ==> r is Ok
                && r->Ok_0.parent().follows(&self.parent(), value.encoding())
                && r->Ok_0.fields() == self.fields().push((name.ident_text(), Some(ord))),
            !has_room(self.parent(), value.encoding()) ==> r is Err
                && r->Err_0 is Oversize
                && r->Err_0->max_len == self.parent().limit(),
    ;

    /// Closes the struct and goes back to where it was opened.
    fn complete(self) -> (p: P)
        ensures
            p == self.parent(),
    ;
}

/// Defines the variants of an enumeration, each with its tag.
pub trait DefineEnum: Sized {
    type Parent: StrictParent;

    type EnumWriter: WriteEnum<Parent = Self::Parent>;

    /// The writer that the enumeration was opened on.
    spec fn parent(&self) -> Self::Parent;

    /// The variants defined so far: name and tag, in the order of definition.
    spec fn variants(&self) -> Seq<(Seq<char>, u8)>;

    /// Defines the variant `name` with the tag `value`.
    fn define_variant<N: ToIdent>(self, name: N, value: u8) -> (r: Self)
        requires
            name.names_ident(),
        ensures
            r.parent() == self.parent(),
            r.variants() == self.variants().push((name.ident_text(), value)),
    ;

    /// Ends the definitions; what comes back writes one of the variants.
    fn complete(self) -> (w: Self::EnumWriter)
        ensures
            w.parent() == self.parent(),
            w.variants() == self.variants(),
    ;
}

/// Writes a variant of an enumeration: one byte, its tag.
pub trait WriteEnum: Sized {
    type Parent: StrictParent;

    /// What `complete` will hand back.
    spec fn parent(&self) -> Self::Parent;

    /// The variants that were defined: name and tag.
    spec fn variants(&self) -> Seq<(Seq<char>, u8)>;

    /// Writes the tag of the variant `name`, which must have been defined.
    fn write_variant<N: ToIdent>(self, name: N) -> (r: Result<Self, ConfinementError>)
        requires
            name.names_ident(),
            spec_tag_of(self.variants(), name.ident_text()) is Some,
        ensures
            self.parent().written().len() + 1 <= self.parent().limit() ==> r is Ok
                && r->Ok_0.parent().follows(
                &self.parent(),
                seq![spec_tag_of(self.variants(), name.ident_text())->Some_0],
            ) && r->Ok_0.variants() == self.variants(),
            self.parent().written().len() + 1 > self.parent().limit() ==> r is Err
                && r->Err_0 is Oversize
                && r->Err_0->max_len == self.parent().limit(),
    ;

    /// Closes the enumeration and goes back to the writer.
    fn complete(self) -> (p: Self::Parent)
        ensures
            p == self.parent(),
    ;
}

/// Defines the variants of a union. A variant has no payload, or one value,
/// or a tuple, or a struct. Its ordinal is its place in the order of
/// definition, counted from zero.
pub trait DefineUnion: Sized {
    type Parent: StrictParent;

    type TupleDefiner: DefineTuple<Self>;

    type StructDefiner: DefineStruct<Self>;

    type UnionWriter: WriteUnion<Parent = Self::Parent>;

    /// The writer that the union was opened on.
    spec fn parent(&self) -> Self::Parent;

    /// The names of the variants defined so far, in the order of definition.
    spec fn variants(&self) -> Seq<Seq<char>>;

    /// Defines the variant `name` without payload.
    fn define_unit<N: ToIdent>(self, name: N) -> (r: Self)
        requires
            name.names_ident(),
        ensures
            r.parent() == self.parent(),
            r.variants() == self.variants().push(name.ident_text()),
    ;

    /// Defines the variant `name` with one value of the type `T` as payload.
    fn define_type<T: StrictEncode, N: ToIdent>(self, name: N) -> (r: Self)
        requires
            name.names_ident(),
        ensures
            r.parent() == self.parent(),
            r.variants() == self.variants().push(name.ident_text()),
    {
        self.define_tuple(name).define_field::<T>().complete()
    }

    /// Defines the variant `name` with a tuple as payload, and opens the tuple.
    fn define_tuple<N: ToIdent>(self, name: N) -> (r: Self::TupleDefiner)
        requires
            name.names_ident(),
        ensures
            r.parent().parent() == self.parent(),
            r.parent().variants() == self.variants().push(name.ident_text()),
            r.ords() == Seq::<Option<u8>>::empty(),
    ;

    /// Defines the variant `name` with a struct as payload, and opens the struct.
    fn define_struct<N: ToIdent>(self, name: N) -> (r: Self::StructDefiner)
        requires
            name.names_ident(),
        ensures
            r.parent().parent() == self.parent(),
            r.parent().variants() == self.variants().push(name.ident_text()),
            r.fields() == Seq::<(Seq<char>, Option<u8>)>::empty(),
    ;

    /// Ends the definitions; what comes back writes one of the variants.
    fn complete(self) -> (w: Self::UnionWriter)
        ensures
            w.parent() == self.parent(),
            w.variants() == self.variants(),
    ;
}

/// Writes a variant of a union: one byte, its ordinal, then its payload.
pub trait WriteUnion: StrictParent {
    type Parent: StrictParent;

    type TupleWriter: WriteTuple<Self>;

    type StructWriter: WriteStruct<Self>;

    /// What `complete` will hand back.
    spec fn parent(&self) -> Self::Parent;

    /// The names of the variants that were defined, in the order of definition.
    spec fn variants(&self) -> Seq<Seq<char>>;

    /// Writes the variant `name`, which must have been defined without payload.
    fn write_unit<N: ToIdent>(self, name: N) -> (r: Result<Self, ConfinementError>)
        requires
            name.names_ident(),
            spec_ord_of(self.variants(), name.ident_text()) is Some,
        ensures
            self.written().len() + 1 <= self.limit() ==> r is Ok && r->Ok_0.follows(
                &self,
                seq![spec_ord_of(self.variants(), name.ident_text())->Some_0],
            ),
            self.written().len() + 1 > self.limit() ==> r is Err && r->Err_0 is Oversize
                && r->Err_0->max_len == self.limit(),
    ;

    /// Writes the variant `name` with the one value `value` as payload.
    fn write_type<T: StrictEncode, N: ToIdent>(self, name: N, value: &T) -> (r: Result<
        Self,
        ConfinementError,
    >)
        requires
            name.names_ident(),
            spec_ord_of(self.variants(), name.ident_text()) is Some,
        ensures
            self.written().len() + 1 + value.encoding().len() <= self.limit() ==> r is Ok
                && r->Ok_0.follows(
                &self,
                seq![spec_ord_of(self.variants(), name.ident_text())->Some_0] + value.encoding(),
            ),
            self.written().len() + 1 + value.encoding().len() > self.limit() ==> r is Err
                && r->Err_0 is Oversize
                && r->Err_0->max_len == self.limit(),
    {
        let ghost tag = seq![spec_ord_of(self.variants(), name.ident_text())->Some_0];
        match self.write_tuple(name) {
            Err(e) => Err(e),
            Ok(tuple) => {
                let ghost opened = tuple.parent();
                proof {
                    opened.lemma_follows(&self, tag);
                }
                match tuple.write_field(value) {
                    Err(e) => Err(e),
                    Ok(tuple) => {
                        proof {
                            tuple.parent().lemma_follows_twice(
                                &opened,
                                &self,
                                tag,
                                value.encoding(),
                            );
                        }
                        Ok(tuple.complete())
                    },
                }
            },
        }
    }

    /// Writes the ordinal of the variant `name` and opens its tuple.
    fn write_tuple<N: ToIdent>(self, name: N) -> (r: Result<Self::TupleWriter, ConfinementError>)
        requires
            name.names_ident(),
            spec_ord_of(self.variants(), name.ident_text()) is Some,
        ensures
            self.written().len() + 1 <= self.limit() ==> r is Ok && r->Ok_0.parent().follows(
                &self,
                seq![spec_ord_of(self.variants(), name.ident_text())->Some_0],
            ) && r->Ok_0.ords() == Seq::<Option<u8>>::empty(),
            self.written().len() + 1 > self.limit() ==> r is Err && r->Err_0 is Oversize
                && r->Err_0->max_len == self.limit(),
    ;

    /// Writes the ordinal of the variant `name` and opens its struct.
    fn write_struct<N: ToIdent>(self, name: N) -> (r: Result<Self::StructWriter, ConfinementError>)
        requires
            name.names_ident(),
            spec_ord_of(self.variants(), name.ident_text()) is Some,
        ensures
            self.written().len() + 1 <= self.limit() ==> r is Ok && r->Ok_0.parent().follows(
                &self,
                seq![spec_ord_of(self.variants(), name.ident_text())->Some_0],
            ) && r->Ok_0.fields() == Seq::<(Seq<char>, Option<u8>)>::empty(),
            self.written().len() + 1 > self.limit() ==> r is Err && r->Err_0 is Oversize
                && r->Err_0->max_len == self.limit(),
    ;

    /// Closes the union and goes back to the writer.
    fn complete(self) -> (p: Self::Parent)
        ensures
            p == self.parent(),
    ;
}

/// A writer of strict-encoded data.
pub trait TypedWrite: StrictParent {
    type TupleWriter: WriteTuple<Self>;

    type StructWriter: WriteStruct<Self>;

    type UnionDefiner: DefineUnion<Parent = Self>;

    type EnumDefiner: DefineEnum<Parent = Self>;

    /// Opens the definition of a union. Nothing is written.
    fn define_union<N: ToIdent, M: ToIdent>(self, ns: N, name: Option<M>) -> (r: Self::UnionDefiner)
        requires
            ns.names_ident(),
            name.names_maybe_ident(),
        ensures
            r.parent() == self,
            r.variants() == Seq::<Seq<char>>::empty(),
    ;

    /// Opens the definition of an enumeration. Nothing is written.
    fn define_enum<N: ToIdent, M: ToIdent>(self, ns: N, name: Option<M>) -> (r: Self::EnumDefiner)
        requires
            ns.names_ident(),
            name.names_maybe_ident(),
        ensures
            r.parent() == self,
            r.variants() == Seq::<(Seq<char>, u8)>::empty(),
    ;

    /// Opens a tuple. Nothing is written.
    fn write_tuple<N: ToIdent, M: ToIdent>(self, ns: N, name: Option<M>) -> (r: Self::TupleWriter)
        requires
            ns.names_ident(),
            name.names_maybe_ident(),
        ensures
            r.parent() == self,
            r.ords() == Seq::<Option<u8>>::empty(),
    ;

    /// Writes `value` as a tuple of one field.
    fn write_type<T: StrictEncode, N: ToIdent, M: ToIdent>(self, ns: N, name: Option<M>, value: &T)
        -> (r: Result<Self, ConfinementError>)
        requires
            ns.names_ident(),
            name.names_maybe_ident(),
        ensures
            wrote(self, value.encoding(), r),
    {
        match self.write_tuple(ns, name).write_field(value) {
            Ok(tuple) => Ok(tuple.complete()),
            Err(e) => Err(e),
        }
    }

    /// Opens a struct. Nothing is written.
    fn write_struct<N: ToIdent, M: ToIdent>(self, ns: N, name: Option<M>) -> (r: Self::StructWriter)
        requires
            ns.names_ident(),
            name.names_maybe_ident(),
        ensures
            r.parent() == self,
            r.fields() == Seq::<(Seq<char>, Option<u8>)>::empty(),
    ;

    /// Writes `bytes` as they are.
    fn _write_raw<const MAX_LEN: usize>(self, bytes: &[u8]) -> (r: Result<Self, ConfinementError>)
        ensures
            wrote(self, bytes@, r),
    ;

    /// Writes the bytes of an array as they are.
    fn write_raw_array<const LEN: usize>(self, raw: [u8; LEN]) -> (r: Result<
        Self,
        ConfinementError,
    >)
        ensures
            wrote(self, raw@, r),
    {
        self._write_raw::<LEN>(raw.as_slice())
    }

    /// Writes `bytes` behind their number, for a byte string declared with at
    /// most `MAX_LEN` bytes.
    fn write_raw_bytes<const MAX_LEN: usize>(self, bytes: &[u8]) -> (r: Result<
        Self,
        ConfinementError,
    >)
        requires
            len_writable(bytes@.len(), MAX_LEN as nat),
        ensures
            wrote(self, len_prefix(bytes@.len(), MAX_LEN as nat) + bytes@, r),
    {
        let ghost prefix = len_prefix(bytes@.len(), MAX_LEN as nat);
        match self.write_raw_len::<MAX_LEN>(bytes.len()) {
            Err(e) => Err(e),
            Ok(writer) => {
                proof {
                    writer.lemma_follows(&self, prefix);
                }
                match writer._write_raw::<MAX_LEN>(bytes) {
                    Err(e) => Err(e),
                    Ok(done) => {
                        proof {
                            done.lemma_follows_twice(&writer, &self, prefix, bytes@);
                        }
                        Ok(done)
                    },
                }
            },
        }
    }

    /// Writes the number of items of a collection declared with at most
    /// `MAX_LEN` of them, in the width of its tier.
    fn write_raw_len<const MAX_LEN: usize>(self, len: usize) -> (r: Result<Self, ConfinementError>)
        requires
            len_writable(len as nat, MAX_LEN as nat),
        ensures
            wrote(self, len_prefix(len as nat, MAX_LEN as nat), r),
    {
        match len_tier(MAX_LEN as u64) {
            Some(LenTier::U24) => {
                proof {
                    lemma_pow256_values();
                    lemma_le_bytes_mod(len as nat, 3);
                    lemma_le_bytes_mod(len as nat % 0x1_0000_0000, 3);
                    vstd::arithmetic::div_mod::lemma_mod_mod(len as int, 0x100_0000, 0x100);
                }
                self.write_raw_array::<3>(u24_to_le_bytes((len as u64 % 0x1_0000_0000u64) as u32))
            },
            Some(tier) => {
                let mut prefix: Vec<u8> = Vec::new();
                put_le(&mut prefix, len as u128, tier.width());
                assert(prefix@ =~= len_prefix(len as nat, MAX_LEN as nat));
                self._write_raw::<MAX_LEN>(prefix.as_slice())
            },
            None => {
                proof {
                    assert(false);
                }
                Ok(self)
            },
        }
    }

    /// Writes a confined collection: the number of its items, then each item
    /// in order.
    fn write_raw_collection<T: StrictEncode, const MIN_LEN: usize, const MAX_LEN: usize>(
        self,
        col: &ConfinedVec<T, MIN_LEN, MAX_LEN>,
    ) -> (r: Result<Self, ConfinementError>)
        requires
            len_writable(col@.len(), MAX_LEN as nat),
        ensures
            wrote(self, len_prefix(col@.len(), MAX_LEN as nat) + encoding_of_all(col@, 0), r),
    {
        let items = col.as_slice();
        let ghost prefix = len_prefix(col@.len(), MAX_LEN as nat);
        let ghost all = prefix + encoding_of_all(col@, 0);
        let mut writer = match self.write_raw_len::<MAX_LEN>(items.len()) {
            Ok(writer) => writer,
            Err(e) => {
                return Err(e);
            },
        };
        let mut i: usize = 0;
        let ghost mut done: Seq<u8> = prefix;
        proof {
            writer.lemma_follows(&self, prefix);
        }
        while i < items.len()
            invariant
                i <= items@.len(),
                items@ == col@,
                all == len_prefix(col@.len(), MAX_LEN as nat) + encoding_of_all(col@, 0),
                writer.follows(&self, done),
                done + encoding_of_all(col@, i as nat) == all,
            decreases items@.len() - i,
        {
            let ghost enc = items@[i as int].encoding();
            let ghost before = writer;
            proof {
                writer.lemma_follows(&self, done);
                assert(done + enc + encoding_of_all(col@, (i + 1) as nat) =~= all);
                assert(all.len() == done.len() + enc.len() + encoding_of_all(
                    col@,
                    (i + 1) as nat,
                ).len());
            }
            writer = match writer.write_value(&items[i]) {
                Ok(next) => next,
                Err(e) => {
                    return Err(e);
                },
            };
            proof {
                writer.lemma_follows_twice(&before, &self, done, enc);
                writer.lemma_follows(&self, done + enc);
                done = done + enc;
            }
            i = i + 1;
        }
        proof {
            assert(done =~= all);
            writer.lemma_follows(&self, done);
        }
        Ok(writer)
    }
}

/// A value that can be written as strict-encoded bytes.
pub trait StrictEncode: Sized {
    /// The bytes that encode the value.
    spec fn encoding(&self) -> Seq<u8>;

    /// The type of the placeholder: the type itself, unless it has none of
    /// its own to offer.
    type Dumb;

    /// A placeholder value, for where only the shape of the type matters:
    /// always the same one, the canonical placeholder of the type.
    fn strict_encode_dumb() -> (dumb: Self::Dumb)
        ensures
            dumb == Self::canonical_dumb(),
    ;

    /// The canonical placeholder of the type.
    spec fn canonical_dumb() -> Self::Dumb;

    /// Writes the encoding of the value.
    fn strict_encode(&self, writer: StrictWriter) -> (r: Result<StrictWriter, ConfinementError>)
        ensures
            writer.took(self.encoding(), r),
    ;
}

impl<T: StrictEncode<Dumb = T>> StrictEncode for &T {
    type Dumb = T;

    open spec fn encoding(&self) -> Seq<u8> {
        (**self).encoding()
    }

    fn strict_encode_dumb() -> (dumb: T) {
        T::strict_encode_dumb()
    }

    open spec fn canonical_dumb() -> T {
        T::canonical_dumb()
    }

    fn strict_encode(&self, writer: StrictWriter) -> (r: Result<StrictWriter, ConfinementError>) {
        (*self).strict_encode(writer)
    }
}

/// A value that is read back from its encoding as it was.
pub trait StrictCodec: StrictEncode + StrictDecode {
    /// Decoding takes exactly the encoding of a value off the front of the
    /// bytes, whatever follows it, and gives the value.
    proof fn lemma_decode_encoded(value: Self, rest: Seq<u8>)
        ensures
            Self::spec_decode(value.encoding() + rest) == Ok::<(Self, nat), DecodeFailure>(
                (value, value.encoding().len()),
            ),
    ;
}

/// What deserializing `bytes` gives: the value that they decode to, where
/// decoding takes all of them.
pub open spec fn deserialized<T: StrictDecode>(bytes: Seq<u8>) -> Result<T, DeserializeFailure> {
    match T::spec_decode(bytes) {
        Ok((value, used)) => if used == bytes.len() {
            Ok(value)
        } else {
            Err(DeserializeFailure::DataNotEntirelyConsumed)
        },
        Err(failure) => Err(DeserializeFailure::Decode(failure)),
    }
}

/// What deserializing the content of a file gives, where at most `limit`
/// bytes of it are read: the value that the bytes read decode to, where
/// decoding takes the whole content.
pub open spec fn deserialized_within<T: StrictDecode>(content: Seq<u8>, limit: nat) -> Result<
    T,
    DeserializeFailure,
> {
    let read = if limit <= content.len() {
        content.take(limit as int)
    } else {
        content
    };
    match T::spec_decode(read) {
        Ok((value, used)) => if used == content.len() {
            Ok(value)
        } else {
            Err(DeserializeFailure::DataNotEntirelyConsumed)
        },
        Err(failure) => Err(DeserializeFailure::Decode(failure)),
    }
}

/// Serialization into memory.
pub trait Serialize: StrictEncode {
    /// The number of bytes of the encoding. Fails only where that number is
    /// more than a machine can count.
    fn strict_serialized_len(&self) -> (r: Result<usize, ConfinementError>)
        ensures
            self.encoding().len() <= usize::MAX ==> r is Ok && r->Ok_0 == self.encoding().len(),
            self.encoding().len() > usize::MAX ==> r is Err,
    {
        let counter = StrictWriter::counter();
        let ghost start = counter;
        match self.strict_encode(counter) {
            Ok(counter) => {
                Ok(counter.count())
            },
            Err(e) => Err(e),
        }
    }

    /// The encoding, where it has at most `MAX` bytes. A longer one is
    /// refused, and nothing of it is handed out.
    fn to_strict_serialized<const MAX: usize>(&self) -> (r: Result<
        ConfinedVec<u8, 0, MAX>,
        SerializeError,
    >)
        ensures
            self.encoding().len() <= MAX ==> r is Ok && r->Ok_0@ == self.encoding(),
            self.encoding().len() > MAX ==> r is Err && r->Err_0->Confinement_0 is Oversize
                && r->Err_0->Confinement_0->max_len == MAX,
    {
        let ast_data = StrictWriter::in_memory(MAX);
        let ghost start = ast_data;
        let data = match self.strict_encode(ast_data) {
            Ok(writer) => {
                writer.unbox()
            },
            Err(e) => {
                return Err(SerializeError::Confinement(e));
            },
        };
        match ConfinedVec::<u8, 0, MAX>::try_from(data) {
            Ok(confined) => Ok(confined),
            Err(e) => Err(SerializeError::Confinement(e)),
        }
    }

    /// The content of the file that holds the value: its encoding, where it
    /// has at most `MAX` bytes. A longer one is refused, so that no part of
    /// it reaches a file.
    fn strict_serialize_to_file<const MAX: usize>(&self) -> (r: Result<Vec<u8>, SerializeError>)
        ensures
            self.encoding().len() <= MAX ==> r is Ok && r->Ok_0@ == self.encoding(),
            self.encoding().len() > MAX ==> r is Err && r->Err_0->Confinement_0 is Oversize
                && r->Err_0->Confinement_0->max_len == MAX,
    {
        match self.to_strict_serialized::<MAX>() {
            Ok(content) => Ok(content.into_inner()),
            Err(e) => Err(e),
        }
    }
}

/// Deserialization from memory.
pub trait Deserialize: StrictDecode {
    /// The value that `ast_data` encodes. It is an error if bytes are left
    /// over once the value is read.
    fn from_strict_serialized<const MAX: usize>(ast_data: ConfinedVec<u8, 0, MAX>) -> (r: Result<
        Self,
        DeserializeError,
    >)
        ensures
            match deserialized::<Self>(ast_data@) {
                Ok(value) => r is Ok && r->Ok_0 == value,
                Err(failure) => r is Err && r->Err_0@ == failure,
            },
    {
        let data = ast_data.into_inner();
        assert(data@.take(data@.len() as int) =~= data@);
        let mut reader = StrictReader::with(MAX, data);
        let me = match Self::strict_decode(&mut reader) {
            Ok(me) => me,
            Err(e) => {
                return Err(DeserializeError::Decode(e));
            },
        };
        let rest = reader.unbox();
        assert(rest@.len() == 0 <==> Self::spec_decode(ast_data@)->Ok_0.1 == ast_data@.len());
        if rest.len() != 0 {
            return Err(DeserializeError::DataNotEntirelyConsumed);
        }
        Ok(me)
    }

    /// The value that the content of a file encodes, of which at most `MAX`
    /// bytes are read. It is an error if the value ends before the file does.
    fn strict_deserialize_from_file<const MAX: usize>(content: Vec<u8>) -> (r: Result<
        Self,
        DeserializeError,
    >)
        ensures
            match deserialized_within::<Self>(content@, MAX as nat) {
                Ok(value) => r is Ok && r->Ok_0 == value,
                Err(failure) => r is Err && r->Err_0@ == failure,
            },
    {
        let len = content.len();
        let mut reader = StrictReader::with(MAX, content);
        let ghost read = reader.remaining();
        let me = match Self::strict_decode(&mut reader) {
            Ok(me) => me,
            Err(e) => {
                return Err(DeserializeError::Decode(e));
            },
        };
        if reader.unread_len() != 0 || len > MAX {
            return Err(DeserializeError::DataNotEntirelyConsumed);
        }
        Ok(me)
    }
}

/// Serializing a value and deserializing the bytes gives the value back,
/// and decoding takes exactly as many bytes as encoding made.
pub proof fn lemma_serialized_round_trip<T: StrictCodec>(value: T)
    ensures
        deserialized::<T>(value.encoding()) == Ok::<T, DeserializeFailure>(value),
        T::spec_decode(value.encoding()) is Ok,
        T::spec_decode(value.encoding())->Ok_0.1 == value.encoding().len(),
{
    T::lemma_decode_encoded(value, Seq::empty());
    assert(value.encoding() + Seq::<u8>::empty() =~= value.encoding());
}

/// Bytes that hold the encoding of a value and then at least one byte more
/// do not deserialize: the data is not entirely consumed.
pub proof fn lemma_trailing_bytes_refused<T: StrictCodec>(value: T, extra: Seq<u8>)
    requires
        extra.len() > 0,
    ensures
        deserialized::<T>(value.encoding() + extra) == Err::<T, DeserializeFailure>(
            DeserializeFailure::DataNotEntirelyConsumed,
        ),
{
    T::lemma_decode_encoded(value, extra);
}

} // verus!
