//! A process-wide-unique numeric identifier for every type that opts in.
//!
//! Each participating type declaration is assigned an identity built from two
//! components: a *base* drawn from a persisted, strictly increasing counter
//! shared by all generator invocations of one build session, and — for generic
//! declarations — a *shape* derived from the identities of the instantiating
//! type arguments through a deterministic, order-sensitive hash.
//!
//! The crate is organised bottom-up:
//!
//! - [`store`] holds the persisted-counter logic: parsing the counter file's
//!   decimal text (leniently, recovering from corruption), computing the next
//!   value, and formatting it for the write-back.
//! - [`allocator`] turns one annotated declaration into a generation plan:
//!   the reserved base together with the ordered type parameters that feed the
//!   shape computation.
//! - [`identity`] defines the identity value itself, the capability trait that
//!   generated code implements, and the shape composition rule.

pub mod allocator;
pub mod error;
pub mod identity;
pub mod store;

pub use error::AllocError;
pub use identity::{
    compose_identity, AccursedUnutterableTypeId, AccursedUnutterablyTypeIdentified,
    InternalAccursedUnutterableTypeId,
};
