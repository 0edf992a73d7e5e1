use docmark::shape::ty_variant_eq;
use docmark::shape::unpack_args_item_ty;
use docmark::shape::unpack_kwargs_value_ty;
use docmark::shape::TyVariant;
use docmark::shape::TypeUnion;

fn atom(name: &str) -> TyVariant {
    TyVariant::Atom(name.to_string())
}

fn seq_of(elem: TyVariant) -> TyVariant {
    TyVariant::Sequence(Box::new(elem))
}

fn map_of(key: TyVariant, value: TyVariant) -> TyVariant {
    TyVariant::Mapping(Box::new(key), Box::new(value))
}

fn assert_atom(v: &TyVariant, name: &str) {
    match v {
        TyVariant::Atom(s) => assert_eq!(s, name),
        _ => panic!("expected an atomic type"),
    }
}

fn assert_unconstrained(v: &TyVariant) {
    match v {
        TyVariant::Unconstrained => {}
        _ => panic!("expected the unconstrained type"),
    }
}

#[test]
fn sequence_item_projection() {
    let u = TypeUnion { variants: vec![seq_of(atom("int")), map_of(atom("str"), atom("bool"))] };
    let r = unpack_args_item_ty(u);
    assert_eq!(r.variants.len(), 2);
    assert_atom(&r.variants[0], "int");
    assert_unconstrained(&r.variants[1]);
}

#[test]
fn mapping_value_projection() {
    let u = TypeUnion { variants: vec![seq_of(atom("int")), map_of(atom("str"), atom("bool"))] };
    let r = unpack_kwargs_value_ty(u);
    assert_eq!(r.variants.len(), 2);
    assert_unconstrained(&r.variants[0]);
    assert_atom(&r.variants[1], "bool");
}

#[test]
fn projection_deduplicates() {
    let u = TypeUnion { variants: vec![seq_of(atom("int")), seq_of(atom("int"))] };
    let r = unpack_args_item_ty(u);
    assert_eq!(r.variants.len(), 1);
    assert_atom(&r.variants[0], "int");

    let u2 = TypeUnion { variants: vec![atom("str"), map_of(atom("str"), atom("bool"))] };
    let r2 = unpack_args_item_ty(u2);
    assert_eq!(r2.variants.len(), 1);
    assert_unconstrained(&r2.variants[0]);
}

#[test]
fn projection_keeps_first_occurrence_order() {
    let u = TypeUnion { variants: vec![atom("str"), seq_of(atom("int"))] };
    let r = unpack_args_item_ty(u);
    assert_eq!(r.variants.len(), 2);
    assert_unconstrained(&r.variants[0]);
    assert_atom(&r.variants[1], "int");
}

#[test]
fn nested_sequence_projection() {
    let u = TypeUnion { variants: vec![seq_of(seq_of(atom("int")))] };
    let r = unpack_args_item_ty(u);
    assert_eq!(r.variants.len(), 1);
    match &r.variants[0] {
        TyVariant::Sequence(e) => assert_atom(e, "int"),
        _ => panic!("expected a sequence shape"),
    }
}

#[test]
fn empty_union_projects_empty() {
    let u = TypeUnion { variants: vec![] };
    let r = unpack_kwargs_value_ty(u);
    assert_eq!(r.variants.len(), 0);
}

#[test]
fn variant_shape_equality() {
    assert!(ty_variant_eq(&atom("a"), &atom("a")));
    assert!(!ty_variant_eq(&atom("a"), &atom("b")));
    assert!(!ty_variant_eq(&atom("a"), &TyVariant::Unconstrained));
    assert!(ty_variant_eq(&seq_of(atom("a")), &seq_of(atom("a"))));
    assert!(!ty_variant_eq(&seq_of(atom("a")), &map_of(atom("a"), atom("a"))));
    assert!(ty_variant_eq(
        &map_of(atom("k"), seq_of(atom("v"))),
        &map_of(atom("k"), seq_of(atom("v")))
    ));
}
