//! The schema: a registry of type shapes, looked up by identifier or by name.

use crate::value::ty::{SemId, Ty, TypeSpec, TypeSpecView};
use vstd::prelude::*;

verus! {

/// An entry of the schema: a type shape under its identifier and, where it
/// has one, its qualified name.
#[derive(PartialEq, Eq, Clone, Debug)]
pub struct SymTy {
    pub id: SemId,
    pub name: Option<String>,
    pub ty: Ty,
}

impl SymTy {
    /// Whether `spec` refers to this entry.
    pub open spec fn answers(&self, spec: TypeSpecView) -> bool {
        match spec {
            TypeSpecView::SemId(id) => self.id == id,
            TypeSpecView::Fqn(name) => self.name is Some && self.name->Some_0@ == name,
        }
    }

    /// Whether `spec` refers to this entry.
    pub fn matches(&self, spec: &TypeSpec) -> (b: bool)
        ensures
            b == self.answers(spec@),
    {
        match spec {
            TypeSpec::SemId(id) => self.id == *id,
            TypeSpec::Fqn(name) => match &self.name {
                Some(own) => *own == *name,
                None => false,
            },
        }
    }
}

/// The position of the first of the first `n` entries to which `spec` refers.
pub open spec fn position_in(entries: Seq<SymTy>, spec: TypeSpecView, n: nat) -> Option<nat>
    decreases n,
{
    if n == 0 {
        None
    } else {
        match position_in(entries, spec, (n - 1) as nat) {
            Some(p) => Some(p),
            None => if entries[n - 1].answers(spec) {
                Some((n - 1) as nat)
            } else {
                None
            },
        }
    }
}

/// One more than the position of the entry to which `spec` refers, and zero
/// where it refers to none.
pub open spec fn depth_in(entries: Seq<SymTy>, spec: TypeSpecView) -> nat {
    match position_in(entries, spec, entries.len()) {
        Some(p) => p + 1,
        None => 0,
    }
}

/// Whether every entry is built only from types that stand before it, or
/// that the schema does not hold.
pub open spec fn layered(entries: Seq<SymTy>) -> bool {
    forall|i: int, k: int|
        0 <= i < entries.len() && 0 <= k < entries[i].ty.refs().len() ==> depth_in(
            entries,
            TypeSpecView::SemId(#[trigger] entries[i].ty.refs()[k]),
        ) <= i
}

/// Whether one of the entries is built from the type `id`.
pub open spec fn referred(entries: Seq<SymTy>, id: SemId) -> bool {
    exists|i: int| 0 <= i < entries.len() && #[trigger] entries[i].ty.refs().contains(id)
}

proof fn lemma_position_bound(entries: Seq<SymTy>, spec: TypeSpecView, n: nat)
    requires
        n <= entries.len(),
    ensures
        match position_in(entries, spec, n) {
            Some(p) => p < n && entries[p as int].answers(spec),
            None => forall|i: int| 0 <= i < n ==> !entries[i].answers(spec),
        },
    decreases n,
{
    if n > 0 {
        lemma_position_bound(entries, spec, (n - 1) as nat);
    }
}

proof fn lemma_position_stable(entries: Seq<SymTy>, spec: TypeSpecView, m: nat, n: nat)
    requires
        m <= n,
        position_in(entries, spec, m) is Some,
    ensures
        position_in(entries, spec, n) == position_in(entries, spec, m),
    decreases n,
{
    if m < n {
        lemma_position_stable(entries, spec, m, (n - 1) as nat);
    }
}

proof fn lemma_position_prefix(a: Seq<SymTy>, b: Seq<SymTy>, spec: TypeSpecView, n: nat)
    requires
        n <= a.len(),
        n <= b.len(),
        forall|i: int| 0 <= i < n ==> a[i] == b[i],
    ensures
        position_in(a, spec, n) == position_in(b, spec, n),
    decreases n,
{
    if n > 0 {
        lemma_position_prefix(a, b, spec, (n - 1) as nat);
    }
}

proof fn lemma_depth_push(entries: Seq<SymTy>, entry: SymTy, spec: TypeSpecView)
    ensures
        depth_in(entries.push(entry), spec) == if depth_in(entries, spec) > 0 {
            depth_in(entries, spec)
        } else if entry.answers(spec) {
            entries.len() + 1
        } else {
            0
        },
        depth_in(entries, spec) <= entries.len(),
{
    let grown = entries.push(entry);
    lemma_position_prefix(entries, grown, spec, entries.len());
    lemma_position_bound(entries, spec, entries.len());
    assert(grown[entries.len() as int] == entry);
}

proof fn lemma_layered_push(entries: Seq<SymTy>, entry: SymTy)
    requires
        layered(entries),
        !referred(entries, entry.id),
        !entry.ty.refs().contains(entry.id),
    ensures
        layered(entries.push(entry)),
{
    let grown = entries.push(entry);
    assert forall|i: int, k: int|
        0 <= i < grown.len() && 0 <= k < grown[i].ty.refs().len() implies depth_in(
        grown,
        TypeSpecView::SemId(#[trigger] grown[i].ty.refs()[k]),
    ) <= i by {
        let id = grown[i].ty.refs()[k];
        let spec = TypeSpecView::SemId(id);
        lemma_depth_push(entries, entry, spec);
        if i < entries.len() {
            assert(grown[i] == entries[i]);
            assert(entries[i].ty.refs().contains(id));
            assert(id != entry.id);
            assert(depth_in(entries, TypeSpecView::SemId(entries[i].ty.refs()[k])) <= i);
        } else {
            assert(grown[i] == entry);
            assert(entry.ty.refs().contains(id));
        }
    }
}

/// The schema: type shapes in the order in which they were registered. A
/// type is registered after the types that it is built from, so no type
/// is built from itself, however indirectly.
pub struct TypeSystem {
    types: Vec<SymTy>,
}

impl TypeSystem {
    #[verifier::type_invariant]
    spec fn well_founded(&self) -> bool {
        layered(self.types@)
    }

    /// Whether every entry is built only from types that stand before it, or
    /// that the schema does not hold. Every schema that this library hands
    /// out is valid.
    pub open spec fn valid(&self) -> bool {
        layered(self.entries())
    }

    /// In a valid schema, the types that an entry is built from lie less deep
    /// than the entry.
    pub proof fn lemma_nested_less_deep(&self, spec: TypeSpecView, k: int)
        requires
            self.valid(),
            self.spec_find(spec) is Some,
            0 <= k < self.spec_find(spec)->Some_0.ty.refs().len(),
        ensures
            self.depth(TypeSpecView::SemId(self.spec_find(spec)->Some_0.ty.refs()[k])) < self.depth(
                spec,
            ),
    {
        lemma_position_bound(self.entries(), spec, self.entries().len());
        let p = position_in(self.entries(), spec, self.entries().len())->Some_0 as int;
        assert(depth_in(
            self.entries(),
            TypeSpecView::SemId(self.entries()[p].ty.refs()[k]),
        ) <= p);
    }

    /// The entries, in the order of their registration.
    pub closed spec fn entries(&self) -> Seq<SymTy> {
        self.types@
    }

    /// The entry to which `spec` refers: the first that answers to it.
    pub open spec fn spec_find(&self, spec: TypeSpecView) -> Option<SymTy> {
        match position_in(self.entries(), spec, self.entries().len()) {
            Some(p) => Some(self.entries()[p as int]),
            None => None,
        }
    }

    /// One more than the position of the entry to which `spec` refers, and
    /// zero where it refers to none. It bounds how deep types nest below
    /// that entry.
    pub open spec fn depth(&self, spec: TypeSpecView) -> nat {
        depth_in(self.entries(), spec)
    }

    /// Whether `entry` can be registered: neither its identifier nor its
    /// name is taken, and no type, not even itself, is built from it yet.
    pub open spec fn accepts(&self, entry: SymTy) -> bool {
        &&& self.spec_find(TypeSpecView::SemId(entry.id)) is None
        &&& entry.name is Some ==> self.spec_find(TypeSpecView::Fqn(entry.name->Some_0@)) is None
        &&& !referred(self.entries(), entry.id)
        &&& !entry.ty.refs().contains(entry.id)
    }

    /// A schema without entries.
    pub fn new() -> (sys: TypeSystem)
        ensures
            sys.entries() == Seq::<SymTy>::empty(),
    {
        TypeSystem { types: Vec::new() }
    }

    /// The number of entries.
    pub fn len(&self) -> (n: usize)
        ensures
            n == self.entries().len(),
    {
        self.types.len()
    }

    /// Looks up the entry to which `spec` refers. The types that the entry
    /// is built from lie less deep than the entry.
    pub fn find(&self, spec: &TypeSpec) -> (r: Option<&SymTy>)
        ensures
            match self.spec_find(spec@) {
                Some(entry) => r == Some(&entry),
                None => r is None,
            },
            r is Some ==> forall|k: int|
                0 <= k < r->Some_0.ty.refs().len() ==> self.depth(
                    TypeSpecView::SemId(#[trigger] r->Some_0.ty.refs()[k]),
                ) < self.depth(spec@),
    {
        proof {
            use_type_invariant(self);
        }
        let mut i: usize = 0;
        while i < self.types.len()
            invariant
                i <= self.types@.len(),
                layered(self.types@),
                position_in(self.types@, spec@, i as nat) is None,
            decreases self.types@.len() - i,
        {
            if self.types[i].matches(spec) {
                proof {
                    assert(position_in(self.types@, spec@, (i + 1) as nat) == Some(i as nat));
                    lemma_position_stable(
                        self.types@,
                        spec@,
                        (i + 1) as nat,
                        self.types@.len(),
                    );
                    assert forall|k: int| 0 <= k < self.types@[i as int].ty.refs().len() implies
                        depth_in(
                        self.types@,
                        TypeSpecView::SemId(#[trigger] self.types@[i as int].ty.refs()[k]),
                    ) < i + 1 by {}
                }
                return Some(&self.types[i]);
            }
            i = i + 1;
        }
        None
    }

    /// Whether one of the entries is built from the type `id`.
    pub fn refers_to(&self, id: SemId) -> (b: bool)
        ensures
            b == referred(self.entries(), id),
    {
        let mut i: usize = 0;
        while i < self.types.len()
            invariant
                i <= self.types@.len(),
                forall|j: int| 0 <= j < i ==> !(#[trigger] self.types@[j].ty.refs().contains(id)),
            decreases self.types@.len() - i,
        {
            if self.types[i].ty.refers_to(id) {
                return true;
            }
            i = i + 1;
        }
        false
    }

    /// Registers `entry` at the end of the schema where the schema accepts
    /// it, and says whether it did.
    pub fn insert(&mut self, entry: SymTy) -> (done: bool)
        ensures
            done == old(self).accepts(entry),
            done ==> final(self).entries() == old(self).entries().push(entry),
            !done ==> final(self).entries() == old(self).entries(),
    {
        proof {
            use_type_invariant(&*self);
        }
        if self.find(&TypeSpec::SemId(entry.id)).is_some() {
            return false;
        }
        let taken = match &entry.name {
            Some(name) => {
                let by_name = TypeSpec::Fqn(name.clone());
                self.find(&by_name).is_some()
            },
            None => false,
        };
        if taken {
            return false;
        }
        if self.refers_to(entry.id) || entry.ty.refers_to(entry.id) {
            return false;
        }
        proof {
            lemma_layered_push(self.types@, entry);
        }
        let mut types: Vec<SymTy> = Vec::new();
        std::mem::swap(&mut self.types, &mut types);
        types.push(entry);
        self.types = types;
        true
    }
}

} // verus!
