//! The builders of a writer of bytes: tuples, structs, enumerations and unions.

use crate::confinement::ConfinementError;
use crate::encoding::ident::Ident;
use crate::encoding::traits::{
    has_room, name_position, spec_ord_of, spec_tag_of, variant_names, DefineEnum, DefineStruct,
    DefineTuple, DefineUnion, StrictEncode, StrictParent, ToIdent, WriteEnum, WriteStruct,
    WriteTuple, WriteUnion,
};
use crate::encoding::writer::StrictWriter;
use vstd::prelude::*;

verus! {

/// The names of a sequence of identifiers.
pub open spec fn names_of(idents: Seq<Ident>) -> Seq<Seq<char>> {
    Seq::new(idents.len(), |i: int| idents[i]@)
}

/// The names and ordinals of the fields of a struct.
pub open spec fn fields_of(fields: Seq<(Ident, Option<u8>)>) -> Seq<(Seq<char>, Option<u8>)> {
    Seq::new(fields.len(), |i: int| (fields[i].0@, fields[i].1))
}

/// The names and tags of the variants of an enumeration.
pub open spec fn variants_of(variants: Seq<(Ident, u8)>) -> Seq<(Seq<char>, u8)> {
    Seq::new(variants.len(), |i: int| (variants[i].0@, variants[i].1))
}

/// Finds the place of the first of `names` that is `name`.
pub fn position_of(names: &Vec<Ident>, name: &Ident) -> (r: Option<usize>)
    ensures
        match name_position(names_of(names@), name@, 0) {
            Some(i) => r is Some && r->Some_0 == i && i < names@.len(),
            None => r is None,
        },
{
    let mut i: usize = 0;
    while i < names.len()
        invariant
            i <= names@.len(),
            name_position(names_of(names@), name@, 0) == name_position(
                names_of(names@),
                name@,
                i as nat,
            ),
        decreases names@.len() - i,
    {
        assert(name_position(names_of(names@), name@, i as nat) == if names_of(names@)[i as int]
            == name@ {
            Some(i as nat)
        } else {
            name_position(names_of(names@), name@, (i + 1) as nat)
        });
        if names[i].same(name) {
            return Some(i);
        }
        i = i + 1;
    }
    None
}

/// Writes the fields of a tuple to the writer or builder that it was opened on.
pub struct TupleWriter<P: StrictParent> {
    parent: P,
    ords: Vec<Option<u8>>,
}

impl<P: StrictParent> TupleWriter<P> {
    /// A tuple opened on `parent`, without fields yet.
    pub fn on(parent: P) -> (r: Self)
        ensures
            r.parent() == parent,
            r.ords() == Seq::<Option<u8>>::empty(),
    {
        TupleWriter { parent, ords: Vec::new() }
    }

    fn put<T: StrictEncode>(self, ord: Option<u8>, value: &T) -> (r: Result<Self, ConfinementError>)
        ensures
            has_room(self.parent(), value.encoding()) ==> r is Ok
                && r->Ok_0.parent().follows(&self.parent(), value.encoding())
                && r->Ok_0.ords() == self.ords().push(ord),
            !has_room(self.parent(), value.encoding()) ==> r is Err
                && r->Err_0 is Oversize
                && r->Err_0->max_len == self.parent().limit(),
    {
        let TupleWriter { parent, ords } = self;
        match parent.write_value(value) {
            Ok(parent) => {
                let mut ords = ords;
                ords.push(ord);
                Ok(TupleWriter { parent, ords })
            },
            Err(e) => Err(e),
        }
    }
}

impl<P: StrictParent> WriteTuple<P> for TupleWriter<P> {
    closed spec fn parent(&self) -> P {
        self.parent
    }

    closed spec fn ords(&self) -> Seq<Option<u8>> {
        self.ords@
    }

    fn write_field<T: StrictEncode>(self, value: &T) -> (r: Result<Self, ConfinementError>) {
        self.put(None, value)
    }

    fn write_field_ord<T: StrictEncode>(self, ord: u8, value: &T) -> (r: Result<
        Self,
        ConfinementError,
    >) {
        self.put(Some(ord), value)
    }

    fn complete(self) -> (p: P) {
        self.parent
    }
}

/// Writes the fields of a struct to the writer or builder that it was opened on.
pub struct StructWriter<P: StrictParent> {
    parent: P,
    fields: Vec<(Ident, Option<u8>)>,
}

impl<P: StrictParent> StructWriter<P> {
    /// A struct opened on `parent`, without fields yet.
    pub fn on(parent: P) -> (r: Self)
        ensures
            r.parent() == parent,
            r.fields() == Seq::<(Seq<char>, Option<u8>)>::empty(),
    {
        let r = StructWriter { parent, fields: Vec::new() };
        assert(r.fields() =~= Seq::<(Seq<char>, Option<u8>)>::empty());
        r
    }

    fn put<T: StrictEncode>(self, name: Ident, ord: Option<u8>, value: &T) -> (r: Result<
        Self,
        ConfinementError,
    >)
        ensures
            has_room(self.parent(), value.encoding()) ==> r is Ok
                && r->Ok_0.parent().follows(&self.parent(), value.encoding())
                && r->Ok_0.fields() == self.fields().push((name@, ord)),
            !has_room(self.parent(), value.encoding()) ==> r is Err
                && r->Err_0 is Oversize
                && r->Err_0->max_len == self.parent().limit(),
    {
        let StructWriter { parent, fields } = self;
        match parent.write_value(value) {
            Ok(parent) => {
                let mut fields = fields;
                let ghost before = fields@;
                fields.push((name, ord));
                assert(fields_of(fields@) =~= fields_of(before).push((name@, ord)));
                Ok(StructWriter { parent, fields })
            },
            Err(e) => Err(e),
        }
    }
}

impl<P: StrictParent> WriteStruct<P> for StructWriter<P> {
    closed spec fn parent(&self) -> P {
        self.parent
    }

    closed spec fn fields(&self) -> Seq<(Seq<char>, Option<u8>)> {
        fields_of(self.fields@)
    }

    fn write_field<T: StrictEncode, N: ToIdent>(self, name: N, value: &T) -> (r: Result<
        Self,
        ConfinementError,
    >) {
        self.put(name.to_ident(), None, value)
    }

    fn write_field_ord<T: StrictEncode, N: ToIdent>(self, name: N, ord: u8, value: &T) -> (r:
        Result<Self, ConfinementError>) {
        self.put(name.to_ident(), Some(ord), value)
    }

    fn complete(self) -> (p: P) {
        self.parent
    }
}

/// Collects the fields of a tuple that is being defined.
pub struct TupleDefiner<P> {
    parent: P,
    ords: Vec<Option<u8>>,
}

impl<P> TupleDefiner<P> {
    /// A tuple opened on `parent`, without fields yet.
    pub fn on(parent: P) -> (r: Self)
        ensures
            r.parent() == parent,
            r.ords() == Seq::<Option<u8>>::empty(),
    {
        TupleDefiner { parent, ords: Vec::new() }
    }
}

impl<P> DefineTuple<P> for TupleDefiner<P> {
    closed spec fn parent(&self) -> P {
        self.parent
    }

    closed spec fn ords(&self) -> Seq<Option<u8>> {
        self.ords@
    }

    fn define_field<T: StrictEncode>(self) -> (r: Self) {
        let TupleDefiner { parent, ords } = self;
        let mut ords = ords;
        ords.push(None);
        TupleDefiner { parent, ords }
    }

    fn define_field_ord<T: StrictEncode>(self, ord: u8) -> (r: Self) {
        let TupleDefiner { parent, ords } = self;
        let mut ords = ords;
        ords.push(Some(ord));
        TupleDefiner { parent, ords }
    }

    fn complete(self) -> (p: P) {
        self.parent
    }
}

/// Collects the fields of a struct that is being defined.
pub struct StructDefiner<P> {
    parent: P,
    fields: Vec<(Ident, Option<u8>)>,
}

impl<P> StructDefiner<P> {
    /// A struct opened on `parent`, without fields yet.
    pub fn on(parent: P) -> (r: Self)
        ensures
            r.parent() == parent,
            r.fields() == Seq::<(Seq<char>, Option<u8>)>::empty(),
    {
        let r = StructDefiner { parent, fields: Vec::new() };
        assert(r.fields() =~= Seq::<(Seq<char>, Option<u8>)>::empty());
        r
    }

    fn put(self, name: Ident, ord: Option<u8>) -> (r: Self)
        ensures
            r.parent() == self.parent(),
            r.fields() == self.fields().push((name@, ord)),
    {
        let StructDefiner { parent, fields } = self;
        let mut fields = fields;
        let ghost before = fields@;
        fields.push((name, ord));
        assert(fields_of(fields@) =~= fields_of(before).push((name@, ord)));
        StructDefiner { parent, fields }
    }
}

impl<P> DefineStruct<P> for StructDefiner<P> {
    closed spec fn parent(&self) -> P {
        self.parent
    }

    closed spec fn fields(&self) -> Seq<(Seq<char>, Option<u8>)> {
        fields_of(self.fields@)
    }

    fn define_field<T: StrictEncode, N: ToIdent>(self, name: N) -> (r: Self) {
        self.put(name.to_ident(), None)
    }

    fn define_field_ord<T: StrictEncode, N: ToIdent>(self, name: N, ord: u8) -> (r: Self) {
        self.put(name.to_ident(), Some(ord))
    }

    fn complete(self) -> (p: P) {
        self.parent
    }
}

/// Collects the variants of an enumeration that is being defined.
pub struct EnumDefiner {
    parent: StrictWriter,
    variants: Vec<(Ident, u8)>,
}

impl EnumDefiner {
    /// An enumeration opened on `parent`, without variants yet.
    pub fn on(parent: StrictWriter) -> (r: Self)
        ensures
            r.parent() == parent,
            r.variants() == Seq::<(Seq<char>, u8)>::empty(),
    {
        let r = EnumDefiner { parent, variants: Vec::new() };
        assert(r.variants() =~= Seq::<(Seq<char>, u8)>::empty());
        r
    }
}

impl DefineEnum for EnumDefiner {
    type Parent = StrictWriter;

    type EnumWriter = EnumWriter;

    closed spec fn parent(&self) -> StrictWriter {
        self.parent
    }

    closed spec fn variants(&self) -> Seq<(Seq<char>, u8)> {
        variants_of(self.variants@)
    }

    fn define_variant<N: ToIdent>(self, name: N, value: u8) -> (r: Self) {
        let EnumDefiner { parent, variants } = self;
        let mut variants = variants;
        let ghost before = variants@;
        let id = name.to_ident();
        variants.push((id, value));
        assert(variants_of(variants@) =~= variants_of(before).push((name.ident_text(), value)));
        EnumDefiner { parent, variants }
    }

    fn complete(self) -> (w: EnumWriter) {
        let EnumDefiner { parent, variants } = self;
        EnumWriter { parent, variants }
    }
}

/// Writes one variant of an enumeration that was defined.
pub struct EnumWriter {
    parent: StrictWriter,
    variants: Vec<(Ident, u8)>,
}

impl EnumWriter {
    /// The tag of the variant `name`: that of the first definition of the name.
    pub fn tag_of(&self, name: &Ident) -> (r: Option<u8>)
        ensures
            r == spec_tag_of(self.variants(), name@),
    {
        let mut i: usize = 0;
        let ghost names = variant_names(self.variants());
        while i < self.variants.len()
            invariant
                i <= self.variants@.len(),
                names == variant_names(variants_of(self.variants@)),
                name_position(names, name@, 0) == name_position(names, name@, i as nat),
            decreases self.variants@.len() - i,
        {
            assert(name_position(names, name@, i as nat) == if names[i as int] == name@ {
                Some(i as nat)
            } else {
                name_position(names, name@, (i + 1) as nat)
            });
            if self.variants[i].0.same(name) {
                return Some(self.variants[i].1);
            }
            i = i + 1;
        }
        None
    }
}

impl WriteEnum for EnumWriter {
    type Parent = StrictWriter;

    closed spec fn parent(&self) -> StrictWriter {
        self.parent
    }

    closed spec fn variants(&self) -> Seq<(Seq<char>, u8)> {
        variants_of(self.variants@)
    }

    fn write_variant<N: ToIdent>(self, name: N) -> (r: Result<Self, ConfinementError>) {
        let id = name.to_ident();
        let tag = match self.tag_of(&id) {
            Some(tag) => tag,
            None => vstd::pervasive::unreached(),
        };
        let EnumWriter { parent, variants } = self;
        match parent.write_bytes(&[tag]) {
            Ok(parent) => {
                assert([tag]@ =~= seq![tag]);
                Ok(EnumWriter { parent, variants })
            },
            Err(e) => Err(e),
        }
    }

    fn complete(self) -> (p: StrictWriter) {
        self.parent
    }
}

/// Collects the variants of a union that is being defined.
pub struct UnionDefiner {
    parent: StrictWriter,
    variants: Vec<Ident>,
}

impl UnionDefiner {
    /// A union opened on `parent`, without variants yet.
    pub fn on(parent: StrictWriter) -> (r: Self)
        ensures
            r.parent() == parent,
            r.variants() == Seq::<Seq<char>>::empty(),
    {
        let r = UnionDefiner { parent, variants: Vec::new() };
        assert(r.variants() =~= Seq::<Seq<char>>::empty());
        r
    }

    fn put(self, name: Ident) -> (r: Self)
        ensures
            r.parent() == self.parent(),
            r.variants() == self.variants().push(name@),
    {
        let UnionDefiner { parent, variants } = self;
        let mut variants = variants;
        let ghost before = variants@;
        variants.push(name);
        assert(names_of(variants@) =~= names_of(before).push(name@));
        UnionDefiner { parent, variants }
    }
}

impl DefineUnion for UnionDefiner {
    type Parent = StrictWriter;

    type TupleDefiner = TupleDefiner<UnionDefiner>;

    type StructDefiner = StructDefiner<UnionDefiner>;

    type UnionWriter = UnionWriter;

    closed spec fn parent(&self) -> StrictWriter {
        self.parent
    }

    closed spec fn variants(&self) -> Seq<Seq<char>> {
        names_of(self.variants@)
    }

    fn define_unit<N: ToIdent>(self, name: N) -> (r: Self) {
        self.put(name.to_ident())
    }

    fn define_tuple<N: ToIdent>(self, name: N) -> (r: TupleDefiner<UnionDefiner>) {
        TupleDefiner::on(self.put(name.to_ident()))
    }

    fn define_struct<N: ToIdent>(self, name: N) -> (r: StructDefiner<UnionDefiner>) {
        StructDefiner::on(self.put(name.to_ident()))
    }

    fn complete(self) -> (w: UnionWriter) {
        let UnionDefiner { parent, variants } = self;
        UnionWriter { parent, variants }
    }
}

/// Writes one variant of a union that was defined.
pub struct UnionWriter {
    parent: StrictWriter,
    variants: Vec<Ident>,
}

impl UnionWriter {
    /// The ordinal of the variant `name`: the place at which the name was
    /// first defined, where that place is below 256.
    pub fn ord_of(&self, name: &Ident) -> (r: Option<u8>)
        ensures
            r == spec_ord_of(self.variants(), name@),
    {
        match position_of(&self.variants, name) {
            Some(i) => if i < 256 {
                Some(i as u8)
            } else {
                None
            },
            None => None,
        }
    }

    fn write_ord(self, name: Ident) -> (r: Result<Self, ConfinementError>)
        requires
            spec_ord_of(self.variants(), name@) is Some,
        ensures
            self.written().len() + 1 <= self.limit() ==> r is Ok && r->Ok_0.follows(
                &self,
                seq![spec_ord_of(self.variants(), name@)->Some_0],
            ),
            self.written().len() + 1 > self.limit() ==> r is Err && r->Err_0 is Oversize
                && r->Err_0->max_len == self.limit(),
    {
        let ord = match self.ord_of(&name) {
            Some(ord) => ord,
            None => vstd::pervasive::unreached(),
        };
        let UnionWriter { parent, variants } = self;
        match parent.write_bytes(&[ord]) {
            Ok(parent) => {
                assert([ord]@ =~= seq![ord]);
                Ok(UnionWriter { parent, variants })
            },
            Err(e) => Err(e),
        }
    }
}

impl StrictParent for UnionWriter {
    closed spec fn written(&self) -> Seq<u8> {
        self.parent.written()
    }

    closed spec fn limit(&self) -> nat {
        self.parent.limit()
    }

    closed spec fn follows(&self, before: &Self, bytes: Seq<u8>) -> bool {
        self.parent.follows(&before.parent, bytes) && self.variants@ == before.variants@
    }

    proof fn lemma_follows(&self, before: &Self, bytes: Seq<u8>) {
    }

    proof fn lemma_follows_twice(
        &self,
        between: &Self,
        before: &Self,
        first: Seq<u8>,
        then: Seq<u8>,
    ) {
        self.parent.lemma_follows_twice(&between.parent, &before.parent, first, then);
    }

    fn write_value<T: StrictEncode>(self, value: &T) -> (r: Result<Self, ConfinementError>) {
        let UnionWriter { parent, variants } = self;
        match value.strict_encode(parent) {
            Ok(parent) => Ok(UnionWriter { parent, variants }),
            Err(e) => Err(e),
        }
    }
}

impl WriteUnion for UnionWriter {
    type Parent = StrictWriter;

    type TupleWriter = TupleWriter<UnionWriter>;

    type StructWriter = StructWriter<UnionWriter>;

    closed spec fn parent(&self) -> StrictWriter {
        self.parent
    }

    closed spec fn variants(&self) -> Seq<Seq<char>> {
        names_of(self.variants@)
    }

    fn write_unit<N: ToIdent>(self, name: N) -> (r: Result<Self, ConfinementError>) {
        self.write_ord(name.to_ident())
    }

    fn write_tuple<N: ToIdent>(self, name: N) -> (r: Result<
        TupleWriter<UnionWriter>,
        ConfinementError,
    >) {
        match self.write_ord(name.to_ident()) {
            Ok(union) => Ok(TupleWriter::on(union)),
            Err(e) => Err(e),
        }
    }

    fn write_struct<N: ToIdent>(self, name: N) -> (r: Result<
        StructWriter<UnionWriter>,
        ConfinementError,
    >) {
        match self.write_ord(name.to_ident()) {
            Ok(union) => Ok(StructWriter::on(union)),
            Err(e) => Err(e),
        }
    }

    fn complete(self) -> (p: StrictWriter) {
        self.parent
    }
}

} // verus!
