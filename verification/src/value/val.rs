//! Dynamically typed values: what the loader makes of bytes.

use crate::encoding::ident::FieldName;
use crate::value::ty::TypeSpec;
use indexmap::IndexMap;
use vstd::prelude::*;

verus! {

/// A number: unsigned or signed, of up to 128 bits.
#[derive(PartialEq, Eq, Copy, Clone, Debug, Structural)]
pub enum StrictNum {
    Uint(u128),
    Int(i128),
}

/// A `StrictVal` as a mathematical value.
pub enum Value {
    Number(StrictNum),
    Text(Seq<char>),
    Enum(u8),
    Union(u8, Box<Value>),
    Tuple(Seq<Value>),
    Struct(Seq<(Seq<char>, Value)>),
    ListOf(Seq<Value>),
    SetOf(Seq<Value>),
    MapOf(Seq<(Value, Value)>),
}

/// The fields of a struct value, by name, in the order in which the names
/// first came in. They are kept in an `indexmap::IndexMap`.
#[derive(PartialEq, Eq, Debug)]
#[verifier::external_body]
pub struct FieldMap {
    inner: IndexMap<FieldName, StrictVal>,
}

/// The names and values that a `FieldMap` holds, in its order.
pub uninterp spec fn field_map_entries(fields: FieldMap) -> Seq<(Seq<char>, Value)>;

/// The first position at or after `from` at which `entries` holds the name `name`.
pub open spec fn field_position(entries: Seq<(Seq<char>, Value)>, name: Seq<char>, from: nat)
    -> Option<nat>
    decreases entries.len() - from,
{
    if from >= entries.len() {
        None
    } else if entries[from as int].0 == name {
        Some(from)
    } else {
        field_position(entries, name, from + 1)
    }
}

/// The entries after `name` was given the value `val`: a name that is there
/// keeps its place and changes its value, a new name goes to the end.
pub open spec fn spec_insert(entries: Seq<(Seq<char>, Value)>, name: Seq<char>, val: Value) -> Seq<
    (Seq<char>, Value),
> {
    match field_position(entries, name, 0) {
        Some(i) => entries.update(i as int, (name, val)),
        None => entries.push((name, val)),
    }
}

/// The entries after each of `fields`, from the position `from` on, was
/// inserted in turn.
pub open spec fn spec_insert_all(
    entries: Seq<(Seq<char>, Value)>,
    fields: Seq<(Seq<char>, Value)>,
    from: nat,
) -> Seq<(Seq<char>, Value)>
    decreases fields.len() - from,
{
    if from >= fields.len() {
        entries
    } else {
        spec_insert_all(
            spec_insert(entries, fields[from as int].0, fields[from as int].1),
            fields,
            from + 1,
        )
    }
}

impl FieldMap {
    /// `IndexMap::with_capacity`. Trusted: the map is empty.
    #[verifier::external_body]
    pub(crate) fn with_capacity(n: usize) -> (fields: FieldMap)
        ensures
            field_map_entries(fields) == Seq::<(Seq<char>, Value)>::empty(),
    {
        FieldMap { inner: IndexMap::with_capacity(n) }
    }

    /// `IndexMap::insert`. Trusted: where the map holds the name, the name
    /// keeps its place and gets the new value; otherwise the pair goes to the
    /// end.
    #[verifier::external_body]
    pub(crate) fn insert(&mut self, name: FieldName, val: StrictVal)
        ensures
            field_map_entries(*final(self)) == spec_insert(
                field_map_entries(*old(self)),
                name@,
                val@,
            ),
    {
        self.inner.insert(name, val);
    }

    /// `IndexMap::len`. Trusted: the number of pairs.
    #[verifier::external_body]
    pub(crate) fn len(&self) -> (n: usize)
        ensures
            n == field_map_entries(*self).len(),
    {
        self.inner.len()
    }

    /// `IndexMap::get_index`. Trusted: the pair at that place in the order,
    /// and nothing past the end.
    #[verifier::external_body]
    pub(crate) fn get_index(&self, i: usize) -> (r: Option<(&FieldName, &StrictVal)>)
        ensures
            i < field_map_entries(*self).len() ==> r is Some && (r->Some_0.0@, r->Some_0.1@)
                == field_map_entries(*self)[i as int],
            i >= field_map_entries(*self).len() ==> r is None,
    {
        self.inner.get_index(i)
    }
}

/// A value whose shape is known only at run time.
#[derive(PartialEq, Eq, Debug)]
pub enum StrictVal {
    /// A number.
    Number(StrictNum),
    /// A text.
    Text(String),
    /// A variant of an enumeration, by its tag.
    Enum(u8),
    /// A variant of a union, by its ordinal, with its payload.
    Union(u8, Box<StrictVal>),
    /// The fields of a tuple, in order.
    Tuple(Vec<StrictVal>),
    /// The fields of a struct, by name, in order.
    Struct(FieldMap),
    /// The items of a list, in order.
    ListOf(Vec<StrictVal>),
    /// The items of a set, in the order in which they were read.
    SetOf(Vec<StrictVal>),
    /// The keys and values of a map, in the order in which they were read.
    MapOf(Vec<(StrictVal, StrictVal)>),
}

impl StrictVal {
    /// The value as a mathematical value.
    pub open spec fn view(&self) -> Value
        decreases self,
    {
        match self {
            StrictVal::Number(n) => Value::Number(*n),
            StrictVal::Text(text) => Value::Text(text@),
            StrictVal::Enum(tag) => Value::Enum(*tag),
            StrictVal::Union(tag, payload) => Value::Union(*tag, Box::new((**payload).view())),
            StrictVal::Tuple(fields) => Value::Tuple(
                Seq::new(
                    fields@.len(),
                    |i: int|
                        if 0 <= i < fields@.len() {
                            fields[i].view()
                        } else {
                            Value::Enum(0)
                        },
                ),
            ),
            StrictVal::Struct(fields) => Value::Struct(field_map_entries(*fields)),
            StrictVal::ListOf(items) => Value::ListOf(
                Seq::new(
                    items@.len(),
                    |i: int|
                        if 0 <= i < items@.len() {
                            items[i].view()
                        } else {
                            Value::Enum(0)
                        },
                ),
            ),
            StrictVal::SetOf(items) => Value::SetOf(
                Seq::new(
                    items@.len(),
                    |i: int|
                        if 0 <= i < items@.len() {
                            items[i].view()
                        } else {
                            Value::Enum(0)
                        },
                ),
            ),
            StrictVal::MapOf(pairs) => Value::MapOf(
                Seq::new(
                    pairs@.len(),
                    |i: int|
                        if 0 <= i < pairs@.len() {
                            (pairs[i].0.view(), pairs[i].1.view())
                        } else {
                            (Value::Enum(0), Value::Enum(0))
                        },
                ),
            ),
        }
    }

    /// An unsigned number.
    pub fn unsigned(n: u128) -> (val: StrictVal)
        ensures
            val@ == Value::Number(StrictNum::Uint(n)),
    {
        StrictVal::Number(StrictNum::Uint(n))
    }

    /// A signed number.
    pub fn signed(n: i128) -> (val: StrictVal)
        ensures
            val@ == Value::Number(StrictNum::Int(n)),
    {
        StrictVal::Number(StrictNum::Int(n))
    }

    /// A variant of an enumeration.
    pub fn enumer(tag: u8) -> (val: StrictVal)
        ensures
            val@ == Value::Enum(tag),
    {
        StrictVal::Enum(tag)
    }

    /// A variant of a union with its payload.
    pub fn union(tag: u8, payload: StrictVal) -> (val: StrictVal)
        ensures
            val@ == Value::Union(tag, Box::new(payload@)),
    {
        StrictVal::Union(tag, Box::new(payload))
    }

    /// A tuple of the given fields.
    pub fn tuple(fields: Vec<StrictVal>) -> (val: StrictVal)
        ensures
            val@ == Value::Tuple(Seq::new(fields@.len(), |i: int| fields@[i]@)),
    {
        let val = StrictVal::Tuple(fields);
        assert(val@->Tuple_0 =~= Seq::new(fields@.len(), |i: int| fields@[i]@));
        val
    }

    /// A struct of the given fields, inserted in order: a name that comes
    /// twice keeps its first place and its last value.
    pub fn structure(fields: Vec<(FieldName, StrictVal)>) -> (val: StrictVal)
        ensures
            val@ == Value::Struct(
                spec_insert_all(
                    Seq::empty(),
                    Seq::new(fields@.len(), |i: int| (fields@[i].0@, fields@[i].1@)),
                    0,
                ),
            ),
    {
        let ghost all = Seq::new(fields@.len(), |i: int| (fields@[i].0@, fields@[i].1@));
        let mut rest = fields;
        let mut map = FieldMap::with_capacity(rest.len());
        let ghost mut done: nat = 0;
        while rest.len() > 0
            invariant
                done + rest@.len() == all.len(),
                forall|i: int|
                    0 <= i < rest@.len() ==> (rest@[i].0@, rest@[i].1@) == all[done + i],
                spec_insert_all(field_map_entries(map), all, done) == spec_insert_all(
                    Seq::empty(),
                    all,
                    0,
                ),
            decreases rest@.len(),
        {
            let ghost before = rest@;
            let (name, val) = rest.remove(0);
            proof {
                assert(forall|i: int|
                    0 <= i < rest@.len() ==> rest@[i] == before[i + 1]);
                assert((name@, val@) == all[done as int]);
            }
            map.insert(name, val);
            proof {
                done = done + 1;
            }
        }
        StrictVal::Struct(map)
    }

    /// The number of fields of a struct value, and zero for another value.
    pub fn field_count(&self) -> (n: usize)
        ensures
            n == match self@ {
                Value::Struct(entries) => entries.len(),
                _ => 0,
            },
    {
        match self {
            StrictVal::Struct(fields) => fields.len(),
            _ => 0,
        }
    }

    /// The name and the value of the field at place `i` of a struct value.
    pub fn field_at(&self, i: usize) -> (r: Option<(&FieldName, &StrictVal)>)
        ensures
            match self@ {
                Value::Struct(entries) => if i < entries.len() {
                    r is Some && (r->Some_0.0@, r->Some_0.1@) == entries[i as int]
                } else {
                    r is None
                },
                _ => r is None,
            },
    {
        match self {
            StrictVal::Struct(fields) => fields.get_index(i),
            _ => None,
        }
    }
}

/// A value together with the reference to the type that it was read as.
#[derive(PartialEq, Eq, Debug)]
pub struct TypedVal {
    pub val: StrictVal,
    pub spec: TypeSpec,
}

} // verus!
