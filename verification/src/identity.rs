//! The identity value, the capability trait, and the composition rule that
//! derives one identity for a generic instantiation.
//!
//! An identity has two components: the *base* reserved from the persisted
//! counter for the declaration, and the *shape* computed from the identities
//! of the declaration's type arguments. A non-generic declaration has no type
//! arguments; its shape is the hash of the empty argument list, so two
//! non-generic declarations differ exactly in their bases.

use crate::store::{counter_of, lemma_monotonic_reservation, store_text_after};
use std::collections::hash_map::DefaultHasher;
use std::hash::Hasher;
use vstd::bytes::{spec_u64_to_le_bytes, u64_to_le_bytes};
use vstd::prelude::*;
use vstd::std_specs::hash::DefaultHasherAdditionalSpecFns;

verus! {

/// A type that can be identified by a unique `AccursedUnutterableTypeId`.
///
/// This trait is meant to be implemented only by the output of the identifier
/// allocator, which reserves a fresh base for each declaration; an
/// implementation written by hand can forge a colliding identity.
pub trait AccursedUnutterablyTypeIdentified {
    /// Returns the accursed unutterable type id for the type.
    ///
    /// It's suggested to use `AccursedUnutterableTypeId::of` instead.
    fn type_id() -> AccursedUnutterableTypeId;
}

/// The two components of one identity, base first, shape second.
#[derive(Debug, Clone, Copy, PartialEq, Eq, Hash, Structural)]
pub struct InternalAccursedUnutterableTypeId(u64, u64);

impl View for InternalAccursedUnutterableTypeId {
    type V = (u64, u64);

    closed spec fn view(&self) -> (u64, u64) {
        (self.0, self.1)
    }
}

impl InternalAccursedUnutterableTypeId {
    /// Packs a reserved base and a computed shape. Meant for generated code;
    /// calling it by hand defeats the uniqueness the allocator provides.
    pub fn __internal_new(s: u64, g: u64) -> (r: Self)
        ensures
            r@ == (s, g),
    {
        Self(s, g)
    }

    /// The base and shape components, in that order.
    pub fn inner(self) -> (r: (u64, u64))
        ensures
            r == self@,
    {
        (self.0, self.1)
    }
}

/// A unique type id for a type: an opaque value supporting equality, hashing
/// and debug formatting, produced only by the identifier allocator.
#[derive(Debug, Clone, Copy, PartialEq, Eq, Hash, Structural)]
pub struct AccursedUnutterableTypeId(InternalAccursedUnutterableTypeId);

impl View for AccursedUnutterableTypeId {
    type V = (u64, u64);

    closed spec fn view(&self) -> (u64, u64) {
        self.0@
    }
}

impl AccursedUnutterableTypeId {
    /// Wraps the two components. Meant for generated code only.
    pub fn __internal_new(inner: InternalAccursedUnutterableTypeId) -> (r: Self)
        ensures
            r@ == inner@,
    {
        Self(inner)
    }

    /// Returns the accursed unutterable type id for the type.
    pub fn of<T>() -> Self where T: AccursedUnutterablyTypeIdentified {
        T::type_id()
    }
}

/// The views of a list of identities, in order.
pub open spec fn views_of(ids: Seq<AccursedUnutterableTypeId>) -> Seq<(u64, u64)> {
    ids.map_values(|p: AccursedUnutterableTypeId| p@)
}

/// The byte chunks fed to the hasher for a list of identity components:
/// for each identity, in declared order, the little-endian bytes of its base
/// and then of its shape.
pub open spec fn id_chunks(ids: Seq<(u64, u64)>) -> Seq<Seq<u8>>
    decreases ids.len(),
{
    if ids.len() == 0 {
        Seq::empty()
    } else {
        id_chunks(ids.drop_last()).push(spec_u64_to_le_bytes(ids.last().0)).push(
            spec_u64_to_le_bytes(ids.last().1),
        )
    }
}

/// The shape component derived from a list of identity components: the
/// order-sensitive hash of their byte chunks.
pub open spec fn shape_of(ids: Seq<(u64, u64)>) -> u64 {
    DefaultHasher::spec_finish(id_chunks(ids))
}

/// Combines a declaration's reserved base with the identities of its type
/// arguments, in declared order, into the identity of the instantiation.
///
/// A non-generic declaration passes no arguments and gets the hash of the
/// empty list as its shape.
pub fn compose_identity(base: u64, params: &Vec<AccursedUnutterableTypeId>) -> (r:
    AccursedUnutterableTypeId)
    ensures
        r@ == (base, shape_of(views_of(params@))),
{
    let mut hasher = DefaultHasher::new();
    let mut i: usize = 0;
    while i < params.len()
        invariant
            i <= params.len(),
            hasher@ == id_chunks(views_of(params@.take(i as int))),
        decreases params.len() - i,
    {
        let (b, s) = params[i].0.inner();
        let base_bytes = u64_to_le_bytes(b);
        hasher.write(base_bytes.as_slice());
        let shape_bytes = u64_to_le_bytes(s);
        hasher.write(shape_bytes.as_slice());
        proof {
            let vs = views_of(params@.take(i + 1));
            assert(vs.drop_last() =~= views_of(params@.take(i as int)));
            assert(vs.last() == params@[i as int]@);
        }
        i += 1;
    }
    proof {
        assert(params@.take(params@.len() as int) =~= params@);
    }
    let shape = hasher.finish();
    AccursedUnutterableTypeId::__internal_new(InternalAccursedUnutterableTypeId::__internal_new(
        base,
        shape,
    ))
}

/// Identities whose bases differ are unequal, whatever their shapes.
///
/// The store hands every declaration of a session a distinct base, so the
/// identities of distinct non-generic declarations compare unequal.
pub proof fn lemma_distinct_bases_distinct_identities(
    a: AccursedUnutterableTypeId,
    b: AccursedUnutterableTypeId,
)
    requires
        a@.0 != b@.0,
    ensures
        a@ != b@,
{
}

/// Uniqueness of non-generic declarations: two declarations that made the
/// `i`-th and `j`-th reservation of one session hold distinct bases, and
/// identities with distinct bases are unequal whatever their shapes — so
/// the identities of distinct declarations of a session compare unequal.
pub proof fn lemma_unique_nongeneric_identities(
    t: Seq<u8>,
    i: nat,
    j: nat,
    a: AccursedUnutterableTypeId,
    b: AccursedUnutterableTypeId,
)
    requires
        i != j,
        counter_of(t) + i < u64::MAX,
        counter_of(t) + j < u64::MAX,
        a@.0 == counter_of(store_text_after(t, i)) + 1,
        b@.0 == counter_of(store_text_after(t, j)) + 1,
    ensures
        a@ != b@,
{
    lemma_monotonic_reservation(t, i);
    lemma_monotonic_reservation(t, j);
}

/// Instantiations of one generic declaration share the declaration's base;
/// their identities differ exactly when their shape components differ.
///
/// The shape is a 64-bit hash of the argument identities, so two distinct
/// argument lists are distinguished only as long as their hashes differ: a
/// hash collision makes the two instantiations indistinguishable. That
/// collision surface is accepted by design.
pub proof fn lemma_same_base_distinct_shapes(
    a: AccursedUnutterableTypeId,
    b: AccursedUnutterableTypeId,
)
    requires
        a@.0 == b@.0,
    ensures
        a@ != b@ <==> a@.1 != b@.1,
{
}

/// The shape computation is pure: it depends only on the argument identity
/// components, so repeated queries within one session, where every base is
/// fixed once reserved, return identical values.
pub proof fn lemma_shape_deterministic(ids1: Seq<(u64, u64)>, ids2: Seq<(u64, u64)>)
    requires
        ids1 == ids2,
    ensures
        shape_of(ids1) == shape_of(ids2),
{
}

} // verus!
