//! A writer that keeps its bytes in memory, or only counts them.

use crate::confinement::ConfinementError;
use crate::encoding::builders::{EnumDefiner, StructWriter, TupleWriter, UnionDefiner};
use crate::encoding::traits::{StrictEncode, StrictParent, ToIdent, ToMaybeIdent, TypedWrite};
use vstd::prelude::*;

verus! {

/// Writes strict-encoded data up to a limit given at its creation. It either
/// keeps the bytes or only counts them.
pub struct StrictWriter {
    buf: Vec<u8>,
    log: Ghost<Seq<u8>>,
    count: usize,
    limit: usize,
    keeps: bool,
}

impl StrictWriter {
    #[verifier::type_invariant]
    spec fn consistent(&self) -> bool {
        &&& self.count == self.log@.len()
        &&& self.count <= self.limit
        &&& self.keeps ==> self.buf@ == self.log@
        &&& !self.keeps ==> self.buf@.len() == 0
    }

    /// Whether the writer keeps the bytes that it is given.
    pub closed spec fn keeps_bytes(&self) -> bool {
        self.keeps
    }

    /// All the bytes given to the writer so far.
    pub closed spec fn sent(&self) -> Seq<u8> {
        self.log@
    }

    /// The largest number of bytes that the writer takes.
    pub closed spec fn max_len(&self) -> nat {
        self.limit as nat
    }

    /// A writer that keeps the bytes in memory and takes at most `limit` of them.
    pub fn in_memory(limit: usize) -> (writer: StrictWriter)
        ensures
            writer.sent() == Seq::<u8>::empty(),
            writer.max_len() == limit,
            writer.keeps_bytes(),
    {
        StrictWriter { buf: Vec::new(), log: Ghost(Seq::empty()), count: 0, limit, keeps: true }
    }

    /// A writer that keeps nothing and counts the bytes.
    pub fn counter() -> (writer: StrictWriter)
        ensures
            writer.sent() == Seq::<u8>::empty(),
            writer.max_len() == usize::MAX,
            !writer.keeps_bytes(),
    {
        StrictWriter {
            buf: Vec::new(),
            log: Ghost(Seq::empty()),
            count: 0,
            limit: usize::MAX,
            keeps: false,
        }
    }

    /// The number of bytes written so far.
    pub fn count(&self) -> (n: usize)
        ensures
            n == self.sent().len(),
    {
        proof {
            use_type_invariant(self);
        }
        self.count
    }

    /// Ends the writing and returns the bytes that were kept: all that were
    /// written, or none where the writer only counts.
    pub fn unbox(self) -> (data: Vec<u8>)
        ensures
            data@ == if self.keeps_bytes() {
                self.sent()
            } else {
                Seq::empty()
            },
    {
        proof {
            use_type_invariant(&self);
        }
        self.buf
    }
}

/// Takes the names of a type for identifiers. A writer of bytes has no other
/// use for them: they matter to writers that collect definitions.
fn check_names<N: ToIdent, M: ToIdent>(ns: N, name: Option<M>)
    requires
        ns.names_ident(),
        name.names_maybe_ident(),
{
    ns.to_ident();
    name.to_maybe_ident();
}

impl StrictWriter {
    /// Whether this writer is `before` after `bytes` were written to it.
    pub open spec fn extends(&self, before: &Self, bytes: Seq<u8>) -> bool {
        &&& self.sent() == before.sent() + bytes
        &&& self.max_len() == before.max_len()
        &&& self.keeps_bytes() == before.keeps_bytes()
        &&& self.sent().len() <= self.max_len()
    }

    /// What a write to this writer promises: where the bytes fit under the
    /// limit, the result is the writer after them; where they do not, the
    /// write fails with an `Oversize` that names the limit.
    pub open spec fn took(&self, bytes: Seq<u8>, r: Result<StrictWriter, ConfinementError>)
        -> bool {
        if self.sent().len() + bytes.len() <= self.max_len() {
            r is Ok && r->Ok_0.extends(self, bytes)
        } else {
            r is Err && r->Err_0 is Oversize && r->Err_0->max_len == self.max_len()
        }
    }

    /// Writes `bytes` as they are, where the limit has room for them. The
    /// error says how many bytes there would have been, or the largest
    /// number that a machine can count where there would have been more.
    pub fn write_bytes(self, bytes: &[u8]) -> (r: Result<Self, ConfinementError>)
        ensures
            self.took(bytes@, r),
            r is Err ==> r->Err_0 == (ConfinementError::Oversize {
                len: if self.sent().len() + bytes@.len() <= usize::MAX {
                    (self.sent().len() + bytes@.len()) as usize
                } else {
                    usize::MAX
                },
                max_len: self.max_len() as usize,
            }),
    {
        proof {
            use_type_invariant(&self);
        }
        let StrictWriter { buf, log, count, limit, keeps } = self;
        let total = match count.checked_add(bytes.len()) {
            Some(total) => total,
            None => {
                return Err(ConfinementError::Oversize { len: usize::MAX, max_len: limit });
            },
        };
        if total > limit {
            return Err(ConfinementError::Oversize { len: total, max_len: limit });
        }
        let mut buf = buf;
        if keeps {
            let mut i: usize = 0;
            while i < bytes.len()
                invariant
                    i <= bytes@.len(),
                    buf@ == log@ + bytes@.take(i as int),
                decreases bytes@.len() - i,
            {
                buf.push(bytes[i]);
                assert(bytes@.take(i + 1) =~= bytes@.take(i as int).push(bytes@[i as int]));
                assert(buf@ =~= log@ + bytes@.take(i + 1));
                i = i + 1;
            }
            assert(bytes@.take(bytes@.len() as int) =~= bytes@);
        }
        Ok(StrictWriter { buf, log: Ghost(log@ + bytes@), count: total, limit, keeps })
    }
}

impl StrictParent for StrictWriter {
    open spec fn written(&self) -> Seq<u8> {
        self.sent()
    }

    open spec fn limit(&self) -> nat {
        self.max_len()
    }

    open spec fn follows(&self, before: &Self, bytes: Seq<u8>) -> bool {
        self.extends(before, bytes)
    }

    proof fn lemma_follows(&self, before: &Self, bytes: Seq<u8>) {
    }

    proof fn lemma_follows_twice(
        &self,
        between: &Self,
        before: &Self,
        first: Seq<u8>,
        then: Seq<u8>,
    ) {
        assert(before.sent() + first + then =~= before.sent() + (first + then));
    }

    fn write_value<T: StrictEncode>(self, value: &T) -> (r: Result<Self, ConfinementError>) {
        value.strict_encode(self)
    }
}

impl TypedWrite for StrictWriter {
    type TupleWriter = TupleWriter<StrictWriter>;

    type StructWriter = StructWriter<StrictWriter>;

    type UnionDefiner = UnionDefiner;

    type EnumDefiner = EnumDefiner;

    fn define_union<N: ToIdent, M: ToIdent>(self, ns: N, name: Option<M>) -> (r: UnionDefiner) {
        check_names(ns, name);
        UnionDefiner::on(self)
    }

    fn define_enum<N: ToIdent, M: ToIdent>(self, ns: N, name: Option<M>) -> (r: EnumDefiner) {
        check_names(ns, name);
        EnumDefiner::on(self)
    }

    fn write_tuple<N: ToIdent, M: ToIdent>(self, ns: N, name: Option<M>) -> (r: TupleWriter<
        StrictWriter,
    >) {
        check_names(ns, name);
        TupleWriter::on(self)
    }

    fn write_struct<N: ToIdent, M: ToIdent>(self, ns: N, name: Option<M>) -> (r: StructWriter<
        StrictWriter,
    >) {
        check_names(ns, name);
        StructWriter::on(self)
    }

    fn _write_raw<const MAX_LEN: usize>(self, bytes: &[u8]) -> (r: Result<Self, ConfinementError>) {
        self.write_bytes(bytes)
    }
}

} // verus!
