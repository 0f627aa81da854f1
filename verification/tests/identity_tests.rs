use accursed_unutterable_type_id::store::reserve_from_text;
use accursed_unutterable_type_id::{
    compose_identity, AccursedUnutterableTypeId, AccursedUnutterablyTypeIdentified,
    InternalAccursedUnutterableTypeId,
};

// The impls below stand in for what the identifier allocator generates for
// annotated declarations: each declaration holds the base it reserved, and
// composes it with the identities of its type arguments.

struct Uwu;
struct Owo;
struct Hi;
struct OhLord;

impl AccursedUnutterablyTypeIdentified for Uwu {
    fn type_id() -> AccursedUnutterableTypeId {
        compose_identity(1, &Vec::new())
    }
}

impl AccursedUnutterablyTypeIdentified for Owo {
    fn type_id() -> AccursedUnutterableTypeId {
        compose_identity(2, &Vec::new())
    }
}

impl AccursedUnutterablyTypeIdentified for Hi {
    fn type_id() -> AccursedUnutterableTypeId {
        compose_identity(3, &Vec::new())
    }
}

impl AccursedUnutterablyTypeIdentified for OhLord {
    fn type_id() -> AccursedUnutterableTypeId {
        compose_identity(4, &Vec::new())
    }
}

struct Wrapper<T> {
    _x: T,
}

impl<T: AccursedUnutterablyTypeIdentified> AccursedUnutterablyTypeIdentified for Wrapper<T> {
    fn type_id() -> AccursedUnutterableTypeId {
        let params = vec![AccursedUnutterableTypeId::of::<T>()];
        compose_identity(5, &params)
    }
}

#[test]
fn internal_components_round_trip() {
    let inner = InternalAccursedUnutterableTypeId::__internal_new(5, 7);
    assert_eq!(inner.inner(), (5, 7));
    let id = AccursedUnutterableTypeId::__internal_new(inner);
    let same = AccursedUnutterableTypeId::__internal_new(
        InternalAccursedUnutterableTypeId::__internal_new(5, 7),
    );
    assert_eq!(id, same);
}

#[test]
fn four_declarations_in_one_session_are_pairwise_distinct() {
    let ids = [
        AccursedUnutterableTypeId::of::<Uwu>(),
        AccursedUnutterableTypeId::of::<Owo>(),
        AccursedUnutterableTypeId::of::<Hi>(),
        AccursedUnutterableTypeId::of::<OhLord>(),
    ];
    for a in 0..ids.len() {
        for b in 0..ids.len() {
            if a != b {
                assert_ne!(ids[a], ids[b]);
            }
        }
    }
}

#[test]
fn session_reserved_bases_give_distinct_identities() {
    // a full session: four declarations reserve their bases through one
    // store, then each becomes an identity
    let mut text = Vec::new();
    let mut ids = Vec::new();
    for _ in 0..4 {
        let r = reserve_from_text(&text).unwrap();
        text = r.stored_text;
        ids.push(compose_identity(r.base, &Vec::new()));
    }
    for a in 0..ids.len() {
        for b in 0..ids.len() {
            if a != b {
                assert_ne!(ids[a], ids[b]);
            }
        }
    }
}

#[test]
fn generic_instantiations_with_distinct_arguments_differ() {
    let wrapped_uwu = AccursedUnutterableTypeId::of::<Wrapper<Uwu>>();
    let wrapped_owo = AccursedUnutterableTypeId::of::<Wrapper<Owo>>();
    assert_ne!(wrapped_uwu, wrapped_owo);
}

#[test]
fn nested_generic_instantiations_differ() {
    let once = AccursedUnutterableTypeId::of::<Wrapper<Uwu>>();
    let twice = AccursedUnutterableTypeId::of::<Wrapper<Wrapper<Uwu>>>();
    assert_ne!(once, twice);
}

#[test]
fn repeated_queries_are_identical() {
    let first = AccursedUnutterableTypeId::of::<Wrapper<Uwu>>();
    let second = AccursedUnutterableTypeId::of::<Wrapper<Uwu>>();
    assert_eq!(first, second);
}

#[test]
fn composition_is_deterministic() {
    let params = vec![
        AccursedUnutterableTypeId::of::<Uwu>(),
        AccursedUnutterableTypeId::of::<Owo>(),
    ];
    assert_eq!(compose_identity(9, &params), compose_identity(9, &params));
}

#[test]
fn composition_is_order_sensitive() {
    let uwu = AccursedUnutterableTypeId::of::<Uwu>();
    let owo = AccursedUnutterableTypeId::of::<Owo>();
    let forward = compose_identity(9, &vec![uwu, owo]);
    let backward = compose_identity(9, &vec![owo, uwu]);
    assert_ne!(forward, backward);
}

#[test]
fn distinct_bases_dominate_equal_shapes() {
    // two non-generic declarations share the empty argument list and hence
    // the shape; their bases alone keep them apart
    let a = compose_identity(1, &Vec::new());
    let b = compose_identity(2, &Vec::new());
    assert_ne!(a, b);
}

#[test]
fn same_arguments_under_distinct_declarations_differ() {
    // Wrapper<Uwu> against another declaration instantiated with Uwu
    let uwu = AccursedUnutterableTypeId::of::<Uwu>();
    let first = compose_identity(5, &vec![uwu]);
    let second = compose_identity(6, &vec![uwu]);
    assert_ne!(first, second);
}
