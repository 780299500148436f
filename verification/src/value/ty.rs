//! The shapes of types, and the names by which a schema refers to them.

use crate::encoding::ident::FieldName;
use crate::encoding::text::{push_decimal, push_hex, spec_decimal, spec_hex};
use vstd::prelude::*;
use vstd::string::StringExecFns;

verus! {

/// The semantic identifier of a type: 256 bits that stand for its shape.
#[derive(PartialEq, Eq, Copy, Clone, Debug, Hash, Structural)]
pub struct SemId {
    /// The upper 128 bits.
    pub hi: u128,
    /// The lower 128 bits.
    pub lo: u128,
}

impl SemId {
    /// The identifier reserved for the type of a Unicode character.
    pub open spec fn spec_unicode_char() -> SemId {
        SemId { hi: 0, lo: 1 }
    }

    /// The identifier reserved for the type of an ASCII character.
    pub open spec fn spec_ascii_char() -> SemId {
        SemId { hi: 0, lo: 2 }
    }

    /// The identifier written out: 64 hexadecimal digits, the upper half first.
    pub open spec fn spec_text(self) -> Seq<char> {
        spec_hex(self.hi as nat, 32) + spec_hex(self.lo as nat, 32)
    }

    /// The identifier made of two halves.
    pub fn new(hi: u128, lo: u128) -> (id: SemId)
        ensures
            id == (SemId { hi, lo }),
    {
        SemId { hi, lo }
    }

    /// The identifier reserved for the type of a Unicode character.
    pub fn unicode_char() -> (id: SemId)
        ensures
            id == SemId::spec_unicode_char(),
    {
        SemId { hi: 0, lo: 1 }
    }

    /// The identifier reserved for the type of an ASCII character.
    pub fn ascii_char() -> (id: SemId)
        ensures
            id == SemId::spec_ascii_char(),
    {
        SemId { hi: 0, lo: 2 }
    }

    /// Whether this is the type of a Unicode character.
    pub fn is_unicode_char(&self) -> (b: bool)
        ensures
            b == (*self == SemId::spec_unicode_char()),
    {
        self.hi == 0 && self.lo == 1
    }

    /// Whether this is the type of an ASCII character.
    pub fn is_ascii_char(&self) -> (b: bool)
        ensures
            b == (*self == SemId::spec_ascii_char()),
    {
        self.hi == 0 && self.lo == 2
    }

    /// The identifier written out.
    pub fn to_string(&self) -> (text: String)
        ensures
            text@ == self.spec_text(),
    {
        let mut text = String::new();
        push_hex(&mut text, self.hi, 32);
        push_hex(&mut text, self.lo, 32);
        assert(text@ =~= self.spec_text());
        text
    }
}

/// A reference to an entry of a schema: by its semantic identifier, or by
/// its name qualified with that of its library.
#[derive(PartialEq, Eq, Clone, Debug)]
pub enum TypeSpec {
    SemId(SemId),
    Fqn(String),
}

impl From<SemId> for TypeSpec {
    fn from(id: SemId) -> (r: TypeSpec) {
        TypeSpec::SemId(id)
    }
}

impl vstd::std_specs::convert::FromSpecImpl<SemId> for TypeSpec {
    open spec fn obeys_from_spec() -> bool {
        true
    }

    open spec fn from_spec(id: SemId) -> TypeSpec {
        TypeSpec::SemId(id)
    }
}

/// A `TypeSpec` as a mathematical value.
pub enum TypeSpecView {
    SemId(SemId),
    Fqn(Seq<char>),
}

impl TypeSpecView {
    /// The reference written out: the name, or the identifier in hexadecimal.
    pub open spec fn text(self) -> Seq<char> {
        match self {
            TypeSpecView::SemId(id) => id.spec_text(),
            TypeSpecView::Fqn(name) => name,
        }
    }
}

impl TypeSpec {
    /// The reference as a mathematical value.
    pub open spec fn view(&self) -> TypeSpecView {
        match self {
            TypeSpec::SemId(id) => TypeSpecView::SemId(*id),
            TypeSpec::Fqn(name) => TypeSpecView::Fqn(name@),
        }
    }

    /// The reference to the type named `name`.
    pub fn named(name: &str) -> (spec: TypeSpec)
        ensures
            spec@ == TypeSpecView::Fqn(name@),
    {
        TypeSpec::Fqn(String::from_str(name))
    }

    /// The reference written out.
    pub fn to_string(&self) -> (text: String)
        ensures
            text@ == self@.text(),
    {
        match self {
            TypeSpec::SemId(id) => id.to_string(),
            TypeSpec::Fqn(name) => name.clone(),
        }
    }

    /// A copy of the reference.
    pub fn duplicate(&self) -> (spec: TypeSpec)
        ensures
            spec@ == self@,
    {
        match self {
            TypeSpec::SemId(id) => TypeSpec::SemId(*id),
            TypeSpec::Fqn(name) => TypeSpec::Fqn(name.clone()),
        }
    }
}

/// A primitive type.
#[derive(PartialEq, Eq, Copy, Clone, Debug, Structural)]
pub enum Primitive {
    U8,
    U16,
    U24,
    U32,
    U64,
    U128,
    I8,
    I16,
    I24,
    I32,
    I64,
    I128,
    /// Any other primitive, by its code.
    Other(u8),
}

impl Primitive {
    /// The width in bytes of an integer that can be loaded, and whether it
    /// is signed; `None` for the primitives that cannot be loaded.
    pub open spec fn spec_layout(self) -> Option<(nat, bool)> {
        match self {
            Primitive::U8 => Some((1, false)),
            Primitive::U16 => Some((2, false)),
            Primitive::U24 => Some((3, false)),
            Primitive::U32 => Some((4, false)),
            Primitive::U64 => Some((8, false)),
            Primitive::U128 => Some((16, false)),
            Primitive::I8 => Some((1, true)),
            Primitive::I16 => Some((2, true)),
            Primitive::I32 => Some((4, true)),
            Primitive::I64 => Some((8, true)),
            Primitive::I128 => Some((16, true)),
            Primitive::I24 => None,
            Primitive::Other(_) => None,
        }
    }

    /// The name of the primitive.
    pub open spec fn spec_name(self) -> Seq<char> {
        match self {
            Primitive::U8 => "U8"@,
            Primitive::U16 => "U16"@,
            Primitive::U24 => "U24"@,
            Primitive::U32 => "U32"@,
            Primitive::U64 => "U64"@,
            Primitive::U128 => "U128"@,
            Primitive::I8 => "I8"@,
            Primitive::I16 => "I16"@,
            Primitive::I24 => "I24"@,
            Primitive::I32 => "I32"@,
            Primitive::I64 => "I64"@,
            Primitive::I128 => "I128"@,
            Primitive::Other(code) => "Primitive#"@ + spec_decimal(code as nat),
        }
    }

    /// The name of the primitive.
    pub fn name(&self) -> (text: String)
        ensures
            text@ == self.spec_name(),
    {
        match self {
            Primitive::U8 => String::from_str("U8"),
            Primitive::U16 => String::from_str("U16"),
            Primitive::U24 => String::from_str("U24"),
            Primitive::U32 => String::from_str("U32"),
            Primitive::U64 => String::from_str("U64"),
            Primitive::U128 => String::from_str("U128"),
            Primitive::I8 => String::from_str("I8"),
            Primitive::I16 => String::from_str("I16"),
            Primitive::I24 => String::from_str("I24"),
            Primitive::I32 => String::from_str("I32"),
            Primitive::I64 => String::from_str("I64"),
            Primitive::I128 => String::from_str("I128"),
            Primitive::Other(code) => {
                let mut text = String::from_str("Primitive#");
                push_decimal(&mut text, *code as u128);
                text
            },
        }
    }
}

/// The bounds on the number of items in a collection.
#[derive(PartialEq, Eq, Copy, Clone, Debug, Structural)]
pub struct Sizing {
    pub min: u64,
    pub max: u64,
}

/// A variant of an enumeration: its name and its tag.
#[derive(PartialEq, Eq, Clone, Debug)]
pub struct Variant {
    pub name: FieldName,
    pub tag: u8,
}

/// The variants of an enumeration.
#[derive(PartialEq, Eq, Clone, Debug)]
pub struct EnumVariants {
    pub variants: Vec<Variant>,
}

/// A variant of a union: its name, its ordinal and the type of its payload.
#[derive(PartialEq, Eq, Clone, Debug)]
pub struct UnionVariant {
    pub name: FieldName,
    pub tag: u8,
    pub ty: SemId,
}

/// The variants of a union.
#[derive(PartialEq, Eq, Clone, Debug)]
pub struct UnionVariants {
    pub variants: Vec<UnionVariant>,
}

/// A field of a struct: its name and its type.
#[derive(PartialEq, Eq, Clone, Debug)]
pub struct Field {
    pub name: FieldName,
    pub ty: SemId,
}

/// The first position at or after `from` at which `tags` holds `tag`.
pub open spec fn tag_position(tags: Seq<u8>, tag: u8, from: nat) -> Option<nat>
    decreases tags.len() - from,
{
    if from >= tags.len() {
        None
    } else if tags[from as int] == tag {
        Some(from)
    } else {
        tag_position(tags, tag, from + 1)
    }
}

/// Where `tag_position` finds the tag, the tag stands, and not before.
pub proof fn lemma_tag_position(tags: Seq<u8>, tag: u8, from: nat)
    ensures
        match tag_position(tags, tag, from) {
            Some(i) => from <= i < tags.len() && tags[i as int] == tag,
            None => forall|j: int| from <= j < tags.len() ==> tags[j] != tag,
        },
    decreases tags.len() - from,
{
    if from < tags.len() && tags[from as int] != tag {
        lemma_tag_position(tags, tag, from + 1);
    }
}

impl EnumVariants {
    /// The tags of the variants, in declared order.
    pub open spec fn tags(&self) -> Seq<u8> {
        Seq::new(self.variants@.len(), |i: int| self.variants@[i].tag)
    }

    /// Whether a variant with this tag is declared.
    pub open spec fn spec_has_tag(&self, tag: u8) -> bool {
        tag_position(self.tags(), tag, 0) is Some
    }

    /// The name of the first declared variant with this tag.
    pub open spec fn spec_name_by_tag(&self, tag: u8) -> Option<Seq<char>> {
        match tag_position(self.tags(), tag, 0) {
            Some(i) => Some(self.variants@[i as int].name@),
            None => None,
        }
    }

    /// The first declared variant with this tag.
    pub fn variant_by_tag(&self, tag: u8) -> (r: Option<&Variant>)
        ensures
            match tag_position(self.tags(), tag, 0) {
                Some(i) => r == Some(&self.variants@[i as int]),
                None => r is None,
            },
    {
        let mut i: usize = 0;
        while i < self.variants.len()
            invariant
                i <= self.variants@.len(),
                tag_position(self.tags(), tag, 0) == tag_position(self.tags(), tag, i as nat),
            decreases self.variants@.len() - i,
        {
            assert(tag_position(self.tags(), tag, i as nat) == if self.tags()[i as int] == tag {
                Some(i as nat)
            } else {
                tag_position(self.tags(), tag, (i + 1) as nat)
            });
            if self.variants[i].tag == tag {
                return Some(&self.variants[i]);
            }
            i = i + 1;
        }
        None
    }

    /// Whether a variant with this tag is declared.
    pub fn has_tag(&self, tag: u8) -> (b: bool)
        ensures
            b == self.spec_has_tag(tag),
    {
        self.variant_by_tag(tag).is_some()
    }
}

impl UnionVariants {
    /// The ordinals of the variants, in declared order.
    pub open spec fn tags(&self) -> Seq<u8> {
        Seq::new(self.variants@.len(), |i: int| self.variants@[i].tag)
    }

    /// The type of the payload of the first declared variant with this ordinal.
    pub open spec fn spec_ty_by_ord(&self, tag: u8) -> Option<SemId> {
        match tag_position(self.tags(), tag, 0) {
            Some(i) => Some(self.variants@[i as int].ty),
            None => None,
        }
    }

    /// The first declared variant with this ordinal.
    pub fn variant_by_ord(&self, tag: u8) -> (r: Option<&UnionVariant>)
        ensures
            match tag_position(self.tags(), tag, 0) {
                Some(i) => r == Some(&self.variants@[i as int]),
                None => r is None,
            },
    {
        let mut i: usize = 0;
        while i < self.variants.len()
            invariant
                i <= self.variants@.len(),
                tag_position(self.tags(), tag, 0) == tag_position(self.tags(), tag, i as nat),
            decreases self.variants@.len() - i,
        {
            assert(tag_position(self.tags(), tag, i as nat) == if self.tags()[i as int] == tag {
                Some(i as nat)
            } else {
                tag_position(self.tags(), tag, (i + 1) as nat)
            });
            if self.variants[i].tag == tag {
                return Some(&self.variants[i]);
            }
            i = i + 1;
        }
        None
    }

    /// The type of the payload of the first declared variant with this ordinal.
    pub fn ty_by_ord(&self, tag: u8) -> (r: Option<SemId>)
        ensures
            r == self.spec_ty_by_ord(tag),
    {
        match self.variant_by_ord(tag) {
            Some(variant) => Some(variant.ty),
            None => None,
        }
    }
}

/// The shape of a type. Nested types are given by their identifiers.
#[derive(PartialEq, Eq, Clone, Debug)]
pub enum Ty {
    Primitive(Primitive),
    UnicodeChar,
    Enum(EnumVariants),
    Union(UnionVariants),
    Tuple(Vec<SemId>),
    Struct(Vec<Field>),
    ArrayOf(SemId, u16),
    ListOf(SemId, Sizing),
    SetOf(SemId, Sizing),
    MapOf(SemId, SemId, Sizing),
}

impl Ty {
    /// The identifiers of the types that this shape is built from.
    pub open spec fn refs(&self) -> Seq<SemId> {
        match self {
            Ty::Primitive(_) => Seq::empty(),
            Ty::UnicodeChar => Seq::empty(),
            Ty::Enum(_) => Seq::empty(),
            Ty::Union(variants) => Seq::new(
                variants.variants@.len(),
                |i: int| variants.variants@[i].ty,
            ),
            Ty::Tuple(ids) => ids@,
            Ty::Struct(fields) => Seq::new(fields@.len(), |i: int| fields@[i].ty),
            Ty::ArrayOf(elem, _) => seq![*elem],
            Ty::ListOf(elem, _) => seq![*elem],
            Ty::SetOf(elem, _) => seq![*elem],
            Ty::MapOf(key, val, _) => seq![*key, *val],
        }
    }

    /// Whether this shape is built from the type `id`.
    pub fn refers_to(&self, id: SemId) -> (b: bool)
        ensures
            b == self.refs().contains(id),
    {
        match self {
            Ty::Primitive(_) => false,
            Ty::UnicodeChar => false,
            Ty::Enum(_) => false,
            Ty::Union(variants) => {
                let mut i: usize = 0;
                while i < variants.variants.len()
                    invariant
                        i <= variants.variants@.len(),
                        self.refs().len() == variants.variants@.len(),
                        forall|k: int| 0 <= k < variants.variants@.len() ==> self.refs()[k]
                            == variants.variants@[k].ty,
                        forall|k: int| 0 <= k < i ==> self.refs()[k] != id,
                    decreases variants.variants@.len() - i,
                {
                    if variants.variants[i].ty == id {
                        assert(self.refs()[i as int] == id);
                        return true;
                    }
                    i = i + 1;
                }
                false
            },
            Ty::Tuple(ids) => {
                let mut i: usize = 0;
                while i < ids.len()
                    invariant
                        i <= ids@.len(),
                        self.refs() == ids@,
                        forall|k: int| 0 <= k < i ==> self.refs()[k] != id,
                    decreases ids@.len() - i,
                {
                    if ids[i] == id {
                        assert(self.refs()[i as int] == id);
                        return true;
                    }
                    i = i + 1;
                }
                false
            },
            Ty::Struct(fields) => {
                let mut i: usize = 0;
                while i < fields.len()
                    invariant
                        i <= fields@.len(),
                        self.refs().len() == fields@.len(),
                        forall|k: int| 0 <= k < fields@.len() ==> self.refs()[k] == fields@[k].ty,
                        forall|k: int| 0 <= k < i ==> self.refs()[k] != id,
                    decreases fields@.len() - i,
                {
                    if fields[i].ty == id {
                        assert(self.refs()[i as int] == id);
                        return true;
                    }
                    i = i + 1;
                }
                false
            },
            Ty::ArrayOf(elem, _) => {
                assert(self.refs()[0] == *elem);
                *elem == id
            },
            Ty::ListOf(elem, _) => {
                assert(self.refs()[0] == *elem);
                *elem == id
            },
            Ty::SetOf(elem, _) => {
                assert(self.refs()[0] == *elem);
                *elem == id
            },
            Ty::MapOf(key, val, _) => {
                assert(self.refs()[0] == *key && self.refs()[1] == *val);
                *key == id || *val == id
            },
        }
    }
}

} // verus!
