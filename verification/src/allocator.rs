//! The identifier allocator's view of one annotated declaration, and the
//! decisions it makes for the generated implementation.
//!
//! The host code-generation framework parses the annotated declaration and
//! hands over a [`Declaration`]: the type's name and its ordered generic
//! parameter list. The allocator pairs the base reserved from the store with
//! the declaration's type parameters, in declared left-to-right order; those
//! parameters are the ones whose identities feed the shape computation of the
//! instantiation. Lifetime parameters carry no identity and are skipped;
//! const generic parameters are not supported and fail the generation step.

use crate::error::AllocError;
use vstd::prelude::*;

verus! {

/// One generic parameter of a declaration, by kind, with its name.
#[derive(Debug, Clone, PartialEq, Eq)]
pub enum GenericParamDecl {
    /// A lifetime parameter; it takes no part in the identity.
    Lifetime(String),
    /// A type parameter; its identity feeds the shape of an instantiation.
    Type(String),
    /// A const generic parameter; unsupported.
    Const(String),
}

/// The allocator's view of one annotated declaration.
#[derive(Debug)]
pub struct Declaration {
    /// The declared type's name.
    pub name: String,
    /// The generic parameters, in declared order.
    pub params: Vec<GenericParamDecl>,
}

/// What the generated implementation for one declaration is built from: the
/// base reserved for the declaration, and the type parameters whose
/// identities are composed into the shape.
#[derive(Debug)]
pub struct GenerationPlan {
    /// The base reserved from the store for this declaration. Every
    /// instantiation of the declaration shares it.
    pub base: u64,
    /// The names of the declaration's type parameters, in declared order:
    /// the order their identities are fed to the shape hash.
    pub type_params: Vec<String>,
}

/// Whether some parameter of the list is a const generic parameter.
pub open spec fn has_const_param(ps: Seq<GenericParamDecl>) -> bool {
    exists|i: int| 0 <= i < ps.len() && ps[i] is Const
}

/// The names of the type parameters of the list, in declared order, with
/// lifetime parameters skipped.
pub open spec fn type_param_names(ps: Seq<GenericParamDecl>) -> Seq<Seq<char>>
    decreases ps.len(),
{
    if ps.len() == 0 {
        Seq::empty()
    } else {
        let rest = type_param_names(ps.drop_last());
        match ps.last() {
            GenericParamDecl::Type(n) => rest.push(n@),
            _ => rest,
        }
    }
}

/// Decides what the generated implementation for one declaration holds:
/// the reserved base, and the declaration's type parameters in declared
/// order. Fails exactly when the declaration carries a const generic
/// parameter, which the generator does not support.
pub fn plan_declaration(decl: &Declaration, base: u64) -> (r: Result<GenerationPlan, AllocError>)
    ensures
        r is Ok <==> !has_const_param(decl.params@),
        r matches Ok(plan) ==> plan.base == base && plan.type_params@.map_values(|s: String| s@)
            == type_param_names(decl.params@),
        r matches Err(e) ==> e == AllocError::UnsupportedConstParam,
{
    let mut type_params: Vec<String> = Vec::new();
    let n = decl.params.len();
    let mut i: usize = 0;
    while i < n
        invariant
            0 <= i <= n,
            n == decl.params@.len(),
            !has_const_param(decl.params@.take(i as int)),
            type_params@.map_values(|s: String| s@) == type_param_names(
                decl.params@.take(i as int),
            ),
        decreases n - i,
    {
        proof {
            assert(decl.params@.take(i as int + 1).drop_last() =~= decl.params@.take(i as int));
            assert(decl.params@.take(i as int + 1).last() == decl.params@[i as int]);
        }
        match &decl.params[i] {
            GenericParamDecl::Const(_) => {
                proof {
                    assert(decl.params@[i as int] is Const);
                }
                return Err(AllocError::UnsupportedConstParam);
            },
            GenericParamDecl::Type(name) => {
                type_params.push(name.clone());
                proof {
                    assert(type_params@.map_values(|s: String| s@) =~= type_param_names(
                        decl.params@.take(i as int + 1),
                    ));
                }
            },
            GenericParamDecl::Lifetime(_) => {
                proof {
                    assert(type_params@.map_values(|s: String| s@) =~= type_param_names(
                        decl.params@.take(i as int + 1),
                    ));
                }
            },
        }
        proof {
            assert forall|q: int| 0 <= q < i + 1 implies !(#[trigger] decl.params@.take(
                i as int + 1,
            )[q] is Const) by {
                if q < i {
                    assert(decl.params@.take(i as int + 1)[q] == decl.params@.take(i as int)[q]);
                } else {
                    assert(decl.params@.take(i as int + 1)[q] == decl.params@[i as int]);
                }
            }
            assert(!has_const_param(decl.params@.take(i as int + 1)));
        }
        i += 1;
    }
    proof {
        assert(decl.params@.take(n as int) =~= decl.params@);
    }
    Ok(GenerationPlan { base, type_params })
}

} // verus!
