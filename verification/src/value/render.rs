//! Values written out as text, with the names that the schema gives them.

use crate::encoding::text::{push_decimal, spec_decimal};
use crate::value::reify::{pair_views, views};
use crate::value::system::TypeSystem;
use crate::value::ty::{lemma_tag_position, tag_position, Field, SemId, Ty, TypeSpec, TypeSpecView};
use crate::value::val::{StrictNum, StrictVal, TypedVal, Value};
use vstd::prelude::*;
use vstd::string::StringExecFns;

verus! {

/// A number in decimal, with a minus sign where it is negative.
pub open spec fn render_number(n: StrictNum) -> Seq<char> {
    match n {
        StrictNum::Uint(u) => spec_decimal(u as nat),
        StrictNum::Int(i) => if i < 0 {
            "-"@ + spec_decimal((-i) as nat)
        } else {
            spec_decimal(i as nat)
        },
    }
}

/// A text between double quotes.
pub open spec fn render_text(text: Seq<char>) -> Seq<char> {
    "\""@ + text + "\""@
}

/// What stands before the item at the place `at` of a sequence: nothing
/// before the first, a comma and a space before the others.
pub open spec fn separator(at: nat) -> Seq<char> {
    if at == 0 {
        Seq::empty()
    } else {
        ", "@
    }
}

impl TypeSystem {
    /// The value `val` of the type `spec` as text, where the value has the
    /// shape of the type: a number in decimal, a text in quotes, a variant
    /// of an enumeration by its name, a variant of a union by its name
    /// before its payload in brackets, a tuple and a struct in round
    /// brackets (the fields of a struct as name, `=` and value), a list
    /// in square brackets, a set and a map in braces (a pair as key, ` -> `
    /// and value).
    pub open spec fn spec_render(&self, spec: TypeSpecView, val: Value) -> Option<Seq<char>>
        decreases self.depth(spec), 3nat, 0nat,
    {
        let rank = self.depth(spec);
        match self.spec_find(spec) {
            None => None,
            Some(entry) => match (entry.ty, val) {
                (Ty::Primitive(_), Value::Number(n)) => Some(render_number(n)),
                (Ty::ListOf(_, _), Value::Text(text)) => Some(render_text(text)),
                (Ty::SetOf(_, _), Value::Text(text)) => Some(render_text(text)),
                (Ty::Enum(variants), Value::Enum(tag)) => variants.spec_name_by_tag(tag),
                (Ty::Union(variants), Value::Union(tag, payload)) => match tag_position(
                    variants.tags(),
                    tag,
                    0,
                ) {
                    None => None,
                    Some(i) => match self.spec_render_nested(
                        variants.variants@[i as int].ty,
                        rank,
                        *payload,
                    ) {
                        Some(text) => Some(variants.variants@[i as int].name@ + "("@ + text + ")"@),
                        None => None,
                    },
                },
                (Ty::Tuple(ids), Value::Tuple(vals)) => if ids@.len() != vals.len() {
                    None
                } else {
                    match self.spec_render_tuple(ids@, vals, 0, rank, Seq::empty()) {
                        Some(text) => Some("("@ + text + ")"@),
                        None => None,
                    }
                },
                (Ty::Struct(fields), Value::Struct(entries)) => if fields@.len() != entries.len() {
                    None
                } else {
                    match self.spec_render_struct(fields@, entries, 0, rank, Seq::empty()) {
                        Some(text) => Some("("@ + text + ")"@),
                        None => None,
                    }
                },
                (Ty::ListOf(elem, _), Value::ListOf(vals)) => match self.spec_render_items(
                    elem,
                    vals,
                    0,
                    rank,
                    Seq::empty(),
                ) {
                    Some(text) => Some("["@ + text + "]"@),
                    None => None,
                },
                (Ty::SetOf(elem, _), Value::SetOf(vals)) => match self.spec_render_items(
                    elem,
                    vals,
                    0,
                    rank,
                    Seq::empty(),
                ) {
                    Some(text) => Some("{"@ + text + "}"@),
                    None => None,
                },
                (Ty::MapOf(key, item, _), Value::MapOf(pairs)) => match self.spec_render_pairs(
                    key,
                    item,
                    pairs,
                    0,
                    rank,
                    Seq::empty(),
                ) {
                    Some(text) => Some("{"@ + text + "}"@),
                    None => None,
                },
                _ => None,
            },
        }
    }

    /// The text of a value of a type nested in a type of depth `rank`. In a
    /// schema, a nested type is always less deep than the type around it; the
    /// other branch only keeps this definition well-founded.
    pub open spec fn spec_render_nested(&self, id: SemId, rank: nat, val: Value) -> Option<
        Seq<char>,
    >
        decreases rank, 1nat, 0nat,
    {
        if self.depth(TypeSpecView::SemId(id)) < rank {
            self.spec_render(TypeSpecView::SemId(id), val)
        } else {
            None
        }
    }

    /// The text `acc` with the items from the place `from` on appended.
    pub open spec fn spec_render_items(
        &self,
        elem: SemId,
        vals: Seq<Value>,
        from: nat,
        rank: nat,
        acc: Seq<char>,
    ) -> Option<Seq<char>>
        decreases rank, 1nat, vals.len() - from + 1,
    {
        if from >= vals.len() {
            Some(acc)
        } else {
            match self.spec_render_nested(elem, rank, vals[from as int]) {
                Some(text) => self.spec_render_items(
                    elem,
                    vals,
                    from + 1,
                    rank,
                    acc + separator(from) + text,
                ),
                None => None,
            }
        }
    }

    /// The text `acc` with the pairs from the place `from` on appended.
    pub open spec fn spec_render_pairs(
        &self,
        key: SemId,
        item: SemId,
        pairs: Seq<(Value, Value)>,
        from: nat,
        rank: nat,
        acc: Seq<char>,
    ) -> Option<Seq<char>>
        decreases rank, 1nat, pairs.len() - from + 1,
    {
        if from >= pairs.len() {
            Some(acc)
        } else {
            match self.spec_render_nested(key, rank, pairs[from as int].0) {
                Some(k) => match self.spec_render_nested(item, rank, pairs[from as int].1) {
                    Some(v) => self.spec_render_pairs(
                        key,
                        item,
                        pairs,
                        from + 1,
                        rank,
                        acc + separator(from) + k + " -> "@ + v,
                    ),
                    None => None,
                },
                None => None,
            }
        }
    }

    /// The text `acc` with the fields of a tuple from the place `from` on appended.
    pub open spec fn spec_render_tuple(
        &self,
        ids: Seq<SemId>,
        vals: Seq<Value>,
        from: nat,
        rank: nat,
        acc: Seq<char>,
    ) -> Option<Seq<char>>
        decreases rank, 1nat, ids.len() - from + 1,
    {
        if from >= ids.len() || from >= vals.len() {
            Some(acc)
        } else {
            match self.spec_render_nested(ids[from as int], rank, vals[from as int]) {
                Some(text) => self.spec_render_tuple(
                    ids,
                    vals,
                    from + 1,
                    rank,
                    acc + separator(from) + text,
                ),
                None => None,
            }
        }
    }

    /// The text `acc` with the fields of a struct from the place `from` on
    /// appended. The fields of the value must stand under the declared
    /// names, in the declared order.
    pub open spec fn spec_render_struct(
        &self,
        fields: Seq<Field>,
        entries: Seq<(Seq<char>, Value)>,
        from: nat,
        rank: nat,
        acc: Seq<char>,
    ) -> Option<Seq<char>>
        decreases rank, 1nat, fields.len() - from + 1,
    {
        if from >= fields.len() || from >= entries.len() {
            Some(acc)
        } else if entries[from as int].0 != fields[from as int].name@ {
            None
        } else {
            match self.spec_render_nested(fields[from as int].ty, rank, entries[from as int].1) {
                Some(text) => self.spec_render_struct(
                    fields,
                    entries,
                    from + 1,
                    rank,
                    acc + separator(from) + entries[from as int].0 + "="@ + text,
                ),
                None => None,
            }
        }
    }
}

/// Appends a number in decimal, with a minus sign where it is negative.
pub fn push_number(out: &mut String, n: StrictNum)
    ensures
        final(out)@ == old(out)@ + render_number(n),
{
    match n {
        StrictNum::Uint(u) => push_decimal(out, u),
        StrictNum::Int(i) => if i < 0 {
            out.append("-");
            let magnitude = (-(i + 1)) as u128 + 1;
            push_decimal(out, magnitude);
            assert(out@ =~= old(out)@ + render_number(n));
        } else {
            push_decimal(out, i as u128);
        },
    }
}

fn push_separator(out: &mut String, at: usize)
    ensures
        final(out)@ == old(out)@ + separator(at as nat),
{
    if at != 0 {
        out.append(", ");
    } else {
        assert(out@ + Seq::<char>::empty() =~= out@);
    }
}

impl TypeSystem {
    /// Appends the text of `val` as a value of the type `spec`, and says
    /// whether the value has the shape of the type. Where it does not, what
    /// was appended is of no use.
    pub fn render_into(&self, spec: &TypeSpec, val: &StrictVal, out: &mut String) -> (done: bool)
        ensures
            match self.spec_render(spec@, val@) {
                Some(text) => done && final(out)@ == old(out)@ + text,
                None => !done,
            },
        decreases self.depth(spec@), 3nat, 0nat,
    {
        let ghost rank = self.depth(spec@);
        let ghost start = out@;
        let entry = match self.find(spec) {
            Some(entry) => entry,
            None => {
                return false;
            },
        };
        match (&entry.ty, val) {
            (Ty::Primitive(_), StrictVal::Number(n)) => {
                push_number(out, *n);
                true
            },
            (Ty::ListOf(_, _), StrictVal::Text(text)) => {
                out.append("\"");
                out.append(text.as_str());
                out.append("\"");
                assert(out@ =~= start + render_text(text@));
                true
            },
            (Ty::SetOf(_, _), StrictVal::Text(text)) => {
                out.append("\"");
                out.append(text.as_str());
                out.append("\"");
                assert(out@ =~= start + render_text(text@));
                true
            },
            (Ty::Enum(variants), StrictVal::Enum(tag)) => match variants.variant_by_tag(*tag) {
                Some(variant) => {
                    out.append(variant.name.as_str());
                    true
                },
                None => false,
            },
            (Ty::Union(variants), StrictVal::Union(tag, payload)) => match variants.variant_by_ord(
                *tag,
            ) {
                None => false,
                Some(variant) => {
                    proof {
                        lemma_tag_position(variants.tags(), *tag, 0);
                        let i = tag_position(variants.tags(), *tag, 0)->Some_0 as int;
                        assert(entry.ty.refs()[i] == variant.ty);
                    }
                    out.append(variant.name.as_str());
                    out.append("(");
                    if !self.render_into(&TypeSpec::SemId(variant.ty), payload, out) {
                        return false;
                    }
                    let ghost inner = self.spec_render(
                        TypeSpecView::SemId(variant.ty),
                        payload@,
                    )->Some_0;
                    out.append(")");
                    assert(out@ =~= start + (variant.name@ + "("@ + inner + ")"@));
                    true
                },
            },
            (Ty::Tuple(ids), StrictVal::Tuple(vals)) => {
                if ids.len() != vals.len() {
                    return false;
                }
                assert(entry.ty.refs() == ids@);
                assert(val@->Tuple_0 =~= views(vals@));
                out.append("(");
                if !self.render_tuple(ids, vals, out, Ghost(rank)) {
                    return false;
                }
                let ghost inner = self.spec_render_tuple(
                    ids@,
                    views(vals@),
                    0,
                    rank,
                    Seq::empty(),
                )->Some_0;
                out.append(")");
                assert(out@ =~= start + ("("@ + inner + ")"@));
                true
            },
            (Ty::Struct(fields), StrictVal::Struct(_)) => {
                if fields.len() != val.field_count() {
                    return false;
                }
                assert forall|k: int| 0 <= k < fields@.len() implies self.depth(
                    TypeSpecView::SemId(#[trigger] fields@[k].ty),
                ) < rank by {
                    assert(entry.ty.refs()[k] == fields@[k].ty);
                }
                out.append("(");
                if !self.render_struct(fields, val, out, Ghost(rank)) {
                    return false;
                }
                let ghost inner = self.spec_render_struct(
                    fields@,
                    val@->Struct_0,
                    0,
                    rank,
                    Seq::empty(),
                )->Some_0;
                out.append(")");
                assert(out@ =~= start + ("("@ + inner + ")"@));
                true
            },
            (Ty::ListOf(elem, _), StrictVal::ListOf(vals)) => {
                assert(entry.ty.refs()[0] == *elem);
                assert(val@->ListOf_0 =~= views(vals@));
                out.append("[");
                if !self.render_items(*elem, vals, out, Ghost(rank)) {
                    return false;
                }
                let ghost inner = self.spec_render_items(
                    *elem,
                    views(vals@),
                    0,
                    rank,
                    Seq::empty(),
                )->Some_0;
                out.append("]");
                assert(out@ =~= start + ("["@ + inner + "]"@));
                true
            },
            (Ty::SetOf(elem, _), StrictVal::SetOf(vals)) => {
                assert(entry.ty.refs()[0] == *elem);
                assert(val@->SetOf_0 =~= views(vals@));
                out.append("{");
                if !self.render_items(*elem, vals, out, Ghost(rank)) {
                    return false;
                }
                let ghost inner = self.spec_render_items(
                    *elem,
                    views(vals@),
                    0,
                    rank,
                    Seq::empty(),
                )->Some_0;
                out.append("}");
                assert(out@ =~= start + ("{"@ + inner + "}"@));
                true
            },
            (Ty::MapOf(key, item, _), StrictVal::MapOf(pairs)) => {
                assert(entry.ty.refs()[0] == *key && entry.ty.refs()[1] == *item);
                assert(val@->MapOf_0 =~= pair_views(pairs@));
                out.append("{");
                if !self.render_pairs(*key, *item, pairs, out, Ghost(rank)) {
                    return false;
                }
                let ghost inner = self.spec_render_pairs(
                    *key,
                    *item,
                    pair_views(pairs@),
                    0,
                    rank,
                    Seq::empty(),
                )->Some_0;
                out.append("}");
                assert(out@ =~= start + ("{"@ + inner + "}"@));
                true
            },
            _ => false,
        }
    }

    /// Appends the items of a list or of a set.
    fn render_items(&self, elem: SemId, vals: &Vec<StrictVal>, out: &mut String, Ghost(rank): Ghost<
        nat,
    >) -> (done: bool)
        requires
            self.depth(TypeSpecView::SemId(elem)) < rank,
        ensures
            match self.spec_render_items(elem, views(vals@), 0, rank, Seq::empty()) {
                Some(text) => done && final(out)@ == old(out)@ + text,
                None => !done,
            },
        decreases rank, 2nat, 0nat,
    {
        let ghost all = views(vals@);
        let mut i: usize = 0;
        let ghost mut acc: Seq<char> = Seq::empty();
        assert(out@ =~= old(out)@ + acc);
        while i < vals.len()
            invariant
                i <= vals@.len(),
                all == views(vals@),
                self.depth(TypeSpecView::SemId(elem)) < rank,
                out@ == old(out)@ + acc,
                self.spec_render_items(elem, all, 0, rank, Seq::empty())
                    == self.spec_render_items(elem, all, i as nat, rank, acc),
            decreases vals@.len() - i,
        {
            proof {
                let v = all[i as int];
                assert(v == vals@[i as int]@);
                assert(self.spec_render_nested(elem, rank, v) == self.spec_render(
                    TypeSpecView::SemId(elem),
                    v,
                ));
                assert(self.spec_render_items(elem, all, i as nat, rank, acc)
                    == match self.spec_render_nested(elem, rank, v) {
                    Some(text) => self.spec_render_items(
                        elem,
                        all,
                        (i + 1) as nat,
                        rank,
                        acc + separator(i as nat) + text,
                    ),
                    None => None,
                });
            }
            push_separator(out, i);
            if !self.render_into(&TypeSpec::SemId(elem), &vals[i], out) {
                return false;
            }
            proof {
                let text = self.spec_render(TypeSpecView::SemId(elem), vals@[i as int]@)->Some_0;
                assert(out@ =~= old(out)@ + (acc + separator(i as nat) + text));
                acc = acc + separator(i as nat) + text;
            }
            i = i + 1;
        }
        true
    }

    /// Appends the pairs of a map.
    fn render_pairs(
        &self,
        key: SemId,
        item: SemId,
        pairs: &Vec<(StrictVal, StrictVal)>,
        out: &mut String,
        Ghost(rank): Ghost<nat>,
    ) -> (done: bool)
        requires
            self.depth(TypeSpecView::SemId(key)) < rank,
            self.depth(TypeSpecView::SemId(item)) < rank,
        ensures
            match self.spec_render_pairs(key, item, pair_views(pairs@), 0, rank, Seq::empty()) {
                Some(text) => done && final(out)@ == old(out)@ + text,
                None => !done,
            },
        decreases rank, 2nat, 0nat,
    {
        let ghost all = pair_views(pairs@);
        let mut i: usize = 0;
        let ghost mut acc: Seq<char> = Seq::empty();
        assert(out@ =~= old(out)@ + acc);
        while i < pairs.len()
            invariant
                i <= pairs@.len(),
                all == pair_views(pairs@),
                self.depth(TypeSpecView::SemId(key)) < rank,
                self.depth(TypeSpecView::SemId(item)) < rank,
                out@ == old(out)@ + acc,
                self.spec_render_pairs(key, item, all, 0, rank, Seq::empty())
                    == self.spec_render_pairs(key, item, all, i as nat, rank, acc),
            decreases pairs@.len() - i,
        {
            proof {
                let k = all[i as int].0;
                let v = all[i as int].1;
                assert(k == pairs@[i as int].0@ && v == pairs@[i as int].1@);
                assert(self.spec_render_nested(key, rank, k) == self.spec_render(
                    TypeSpecView::SemId(key),
                    k,
                ));
                assert(self.spec_render_nested(item, rank, v) == self.spec_render(
                    TypeSpecView::SemId(item),
                    v,
                ));
                assert(self.spec_render_pairs(key, item, all, i as nat, rank, acc)
                    == match self.spec_render_nested(key, rank, k) {
                    Some(kt) => match self.spec_render_nested(item, rank, v) {
                        Some(vt) => self.spec_render_pairs(
                            key,
                            item,
                            all,
                            (i + 1) as nat,
                            rank,
                            acc + separator(i as nat) + kt + " -> "@ + vt,
                        ),
                        None => None,
                    },
                    None => None,
                });
            }
            push_separator(out, i);
            if !self.render_into(&TypeSpec::SemId(key), &pairs[i].0, out) {
                return false;
            }
            out.append(" -> ");
            if !self.render_into(&TypeSpec::SemId(item), &pairs[i].1, out) {
                return false;
            }
            proof {
                let kt = self.spec_render(TypeSpecView::SemId(key), pairs@[i as int].0@)->Some_0;
                let vt = self.spec_render(TypeSpecView::SemId(item), pairs@[i as int].1@)->Some_0;
                assert(out@ =~= old(out)@ + (acc + separator(i as nat) + kt + " -> "@ + vt));
                acc = acc + separator(i as nat) + kt + " -> "@ + vt;
            }
            i = i + 1;
        }
        true
    }

    /// Appends the fields of a tuple.
    fn render_tuple(&self, ids: &Vec<SemId>, vals: &Vec<StrictVal>, out: &mut String, Ghost(
        rank,
    ): Ghost<nat>) -> (done: bool)
        requires
            ids@.len() == vals@.len(),
            forall|k: int|
                0 <= k < ids@.len() ==> self.depth(TypeSpecView::SemId(#[trigger] ids@[k])) < rank,
        ensures
            match self.spec_render_tuple(ids@, views(vals@), 0, rank, Seq::empty()) {
                Some(text) => done && final(out)@ == old(out)@ + text,
                None => !done,
            },
        decreases rank, 2nat, 0nat,
    {
        let ghost all = views(vals@);
        let mut i: usize = 0;
        let ghost mut acc: Seq<char> = Seq::empty();
        assert(out@ =~= old(out)@ + acc);
        while i < ids.len()
            invariant
                i <= ids@.len(),
                ids@.len() == vals@.len(),
                all == views(vals@),
                forall|k: int|
                    0 <= k < ids@.len() ==> self.depth(TypeSpecView::SemId(#[trigger] ids@[k]))
                        < rank,
                out@ == old(out)@ + acc,
                self.spec_render_tuple(ids@, all, 0, rank, Seq::empty())
                    == self.spec_render_tuple(ids@, all, i as nat, rank, acc),
            decreases ids@.len() - i,
        {
            proof {
                let v = all[i as int];
                assert(v == vals@[i as int]@);
                assert(self.spec_render_nested(ids@[i as int], rank, v) == self.spec_render(
                    TypeSpecView::SemId(ids@[i as int]),
                    v,
                ));
                assert(self.spec_render_tuple(ids@, all, i as nat, rank, acc)
                    == match self.spec_render_nested(ids@[i as int], rank, v) {
                    Some(text) => self.spec_render_tuple(
                        ids@,
                        all,
                        (i + 1) as nat,
                        rank,
                        acc + separator(i as nat) + text,
                    ),
                    None => None,
                });
            }
            push_separator(out, i);
            if !self.render_into(&TypeSpec::SemId(ids[i]), &vals[i], out) {
                return false;
            }
            proof {
                let text = self.spec_render(
                    TypeSpecView::SemId(ids@[i as int]),
                    vals@[i as int]@,
                )->Some_0;
                assert(out@ =~= old(out)@ + (acc + separator(i as nat) + text));
                acc = acc + separator(i as nat) + text;
            }
            i = i + 1;
        }
        true
    }

    /// Appends the fields of a struct value.
    fn render_struct(&self, fields: &Vec<Field>, val: &StrictVal, out: &mut String, Ghost(
        rank,
    ): Ghost<nat>) -> (done: bool)
        requires
            val@ is Struct,
            fields@.len() == val@->Struct_0.len(),
            forall|k: int|
                0 <= k < fields@.len() ==> self.depth(
                    TypeSpecView::SemId(#[trigger] fields@[k].ty),
                ) < rank,
        ensures
            match self.spec_render_struct(fields@, val@->Struct_0, 0, rank, Seq::empty()) {
                Some(text) => done && final(out)@ == old(out)@ + text,
                None => !done,
            },
        decreases rank, 2nat, 0nat,
    {
        let ghost entries = val@->Struct_0;
        let mut i: usize = 0;
        let ghost mut acc: Seq<char> = Seq::empty();
        assert(out@ =~= old(out)@ + acc);
        while i < fields.len()
            invariant
                i <= fields@.len(),
                val@ == Value::Struct(entries),
                fields@.len() == entries.len(),
                forall|k: int|
                    0 <= k < fields@.len() ==> self.depth(
                        TypeSpecView::SemId(#[trigger] fields@[k].ty),
                    ) < rank,
                out@ == old(out)@ + acc,
                self.spec_render_struct(fields@, entries, 0, rank, Seq::empty())
                    == self.spec_render_struct(fields@, entries, i as nat, rank, acc),
            decreases fields@.len() - i,
        {
            let (name, item) = match val.field_at(i) {
                Some(pair) => pair,
                None => {
                    return false;
                },
            };
            proof {
                let v = entries[i as int].1;
                assert(self.spec_render_nested(fields@[i as int].ty, rank, v) == self.spec_render(
                    TypeSpecView::SemId(fields@[i as int].ty),
                    v,
                ));
                assert(self.spec_render_struct(fields@, entries, i as nat, rank, acc) == if
                    entries[i as int].0 != fields@[i as int].name@ {
                    None
                } else {
                    match self.spec_render_nested(fields@[i as int].ty, rank, v) {
                        Some(text) => self.spec_render_struct(
                            fields@,
                            entries,
                            (i + 1) as nat,
                            rank,
                            acc + separator(i as nat) + entries[i as int].0 + "="@ + text,
                        ),
                        None => None,
                    }
                });
            }
            if !name.same(&fields[i].name) {
                return false;
            }
            push_separator(out, i);
            out.append(name.as_str());
            out.append("=");
            if !self.render_into(&TypeSpec::SemId(fields[i].ty), item, out) {
                return false;
            }
            proof {
                let text = self.spec_render(
                    TypeSpecView::SemId(fields@[i as int].ty),
                    entries[i as int].1,
                )->Some_0;
                assert(out@ =~= old(out)@ + (acc + separator(i as nat) + entries[i as int].0 + "="@
                    + text));
                acc = acc + separator(i as nat) + entries[i as int].0 + "="@ + text;
            }
            i = i + 1;
        }
        true
    }

    /// The text of a loaded value, where the value has the shape of its type.
    pub fn render(&self, val: &TypedVal) -> (text: Option<String>)
        ensures
            match self.spec_render(val.spec@, val.val@) {
                Some(expected) => text is Some && text->Some_0@ == expected,
                None => text is None,
            },
    {
        let mut out = String::new();
        if self.render_into(&val.spec, &val.val, &mut out) {
            assert(Seq::<char>::empty() + out@ =~= out@);
            Some(out)
        } else {
            None
        }
    }
}

} // verus!
