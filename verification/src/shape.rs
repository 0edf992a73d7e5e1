//! The type shape extractor: projects the item type of a structural role
//! (sequence element, mapping value) out of a union of type shapes,
//! letting variants of other shapes degrade to the unconstrained type.

use vstd::prelude::*;

verus! {

/// One structural variant of a type union.
pub enum TyVariant {
    /// The unconstrained ("any") type: no shape information.
    Unconstrained,
    /// A named atomic type, by its display text.
    Atom(String),
    /// A sequence-like shape with its element type.
    Sequence(Box<TyVariant>),
    /// A mapping-like shape with its key and value types.
    Mapping(Box<TyVariant>, Box<TyVariant>),
}

/// An ordered union of structural type variants.
pub struct TypeUnion {
    pub variants: Vec<TyVariant>,
}

/// The mathematical shape of a type variant, with names as text.
pub enum TyShape {
    Unconstrained,
    Atom(Seq<char>),
    Sequence(Box<TyShape>),
    Mapping(Box<TyShape>, Box<TyShape>),
}

/// The shape of a variant: its structure with every name read as text.
pub open spec fn vshape(v: TyVariant) -> TyShape
    decreases v,
{
    match v {
        TyVariant::Unconstrained => TyShape::Unconstrained,
        TyVariant::Atom(s) => TyShape::Atom(s@),
        TyVariant::Sequence(e) => TyShape::Sequence(Box::new(vshape(*e))),
        TyVariant::Mapping(k, val) => TyShape::Mapping(Box::new(vshape(*k)), Box::new(vshape(*val))),
    }
}

/// The shapes of a union's variants, in order.
pub open spec fn union_shapes(u: TypeUnion) -> Seq<TyShape> {
    u.variants@.map_values(|v: TyVariant| vshape(v))
}

/// What a variant contributes to the sequence-item projection: its
/// element type if it is sequence-like, the unconstrained type otherwise.
pub open spec fn item_shape(s: TyShape) -> TyShape {
    match s {
        TyShape::Sequence(e) => *e,
        _ => TyShape::Unconstrained,
    }
}

/// What a variant contributes to the mapping-value projection: its value
/// type if it is mapping-like, the unconstrained type otherwise.
pub open spec fn value_shape(s: TyShape) -> TyShape {
    match s {
        TyShape::Mapping(k, v) => *v,
        _ => TyShape::Unconstrained,
    }
}

/// The shapes with duplicates dropped, keeping the first occurrence of
/// each: an order-stable deduplication.
pub open spec fn dedup_shapes(s: Seq<TyShape>) -> Seq<TyShape>
    decreases s.len(),
{
    if s.len() == 0 {
        Seq::<TyShape>::empty()
    } else {
        let d = dedup_shapes(s.drop_last());
        if d.contains(s.last()) {
            d
        } else {
            d.push(s.last())
        }
    }
}

proof fn lemma_vshape_kinds(v: TyVariant)
    ensures
        (vshape(v) is Unconstrained) == (v is Unconstrained),
        (vshape(v) is Atom) == (v is Atom),
        (vshape(v) is Sequence) == (v is Sequence),
        (vshape(v) is Mapping) == (v is Mapping),
{
}

/// Decides whether two variants have the same shape.
pub fn ty_variant_eq(a: &TyVariant, b: &TyVariant) -> (r: bool)
    ensures
        r == (vshape(*a) == vshape(*b)),
    decreases *a,
{
    proof {
        lemma_vshape_kinds(*a);
        lemma_vshape_kinds(*b);
    }
    match a {
        TyVariant::Unconstrained => match b {
            TyVariant::Unconstrained => true,
            _ => false,
        },
        TyVariant::Atom(x) => match b {
            TyVariant::Atom(y) => x.eq(y),
            _ => false,
        },
        TyVariant::Sequence(x) => match b {
            TyVariant::Sequence(y) => ty_variant_eq(&**x, &**y),
            _ => false,
        },
        TyVariant::Mapping(xk, xv) => match b {
            TyVariant::Mapping(yk, yv) => ty_variant_eq(&**xk, &**yk) && ty_variant_eq(
                &**xv,
                &**yv,
            ),
            _ => false,
        },
    }
}

/// Whether some variant of `v` has the shape of `x`.
fn contains_variant(v: &Vec<TyVariant>, x: &TyVariant) -> (r: bool)
    ensures
        r == v@.map_values(|t: TyVariant| vshape(t)).contains(vshape(*x)),
{
    let ghost shapes = v@.map_values(|t: TyVariant| vshape(t));
    let mut i: usize = 0;
    while i < v.len()
        invariant
            i <= v@.len(),
            shapes == v@.map_values(|t: TyVariant| vshape(t)),
            shapes.len() == v@.len(),
            forall|j: int| 0 <= j < i ==> #[trigger] shapes[j] != vshape(*x),
        decreases v@.len() - i,
    {
        if ty_variant_eq(&v[i], x) {
            proof {
                assert(shapes[i as int] == vshape(*x));
            }
            return true;
        }
        i = i + 1;
    }
    proof {
        if shapes.contains(vshape(*x)) {
            let j = choose|j: int| 0 <= j < shapes.len() && shapes[j] == vshape(*x);
        }
    }
    false
}

/// The sequence-item projection of a union: each sequence-like variant
/// contributes its element type, every other variant the unconstrained
/// type; the contributions stand deduplicated, first occurrences kept, in
/// order.
pub fn unpack_args_item_ty(ty: TypeUnion) -> (r: TypeUnion)
    ensures
        union_shapes(r) == dedup_shapes(union_shapes(ty).map_values(|s: TyShape| item_shape(s))),
{
    let ghost all = union_shapes(ty).map_values(|s: TyShape| item_shape(s));
    let mut rest = ty.variants;
    let ghost orig = rest@;
    proof {
        assert(all =~= orig.map_values(|v: TyVariant| item_shape(vshape(v))));
    }
    let mut out: Vec<TyVariant> = Vec::new();
    let ghost mut done: int = 0;
    proof {
        assert(orig.subrange(0, 0) =~= Seq::<TyVariant>::empty());
        assert(out@.map_values(|t: TyVariant| vshape(t)) =~= dedup_shapes(all.subrange(0, 0)));
    }
    while rest.len() > 0
        invariant
            0 <= done <= orig.len(),
            all.len() == orig.len(),
            all == orig.map_values(|v: TyVariant| item_shape(vshape(v))),
            rest@ == orig.subrange(done, orig.len() as int),
            out@.map_values(|t: TyVariant| vshape(t)) == dedup_shapes(all.subrange(0, done)),
        decreases rest@.len(),
    {
        let v = rest.remove(0);
        proof {
            assert(v == orig[done]);
            assert(rest@ =~= orig.subrange(done + 1, orig.len() as int));
        }
        let c: TyVariant = match v {
            TyVariant::Sequence(e) => *e,
            _ => TyVariant::Unconstrained,
        };
        proof {
            assert(vshape(c) == all[done]);
        }
        push_if_new(&mut out, c);
        proof {
            let pre1 = all.subrange(0, done + 1);
            assert(pre1.drop_last() =~= all.subrange(0, done));
            assert(pre1.last() == all[done]);
            done = done + 1;
        }
    }
    proof {
        assert(all.subrange(0, all.len() as int) =~= all);
    }
    TypeUnion { variants: out }
}

/// The mapping-value projection of a union: each mapping-like variant
/// contributes its value type, every other variant the unconstrained
/// type; the contributions stand deduplicated, first occurrences kept, in
/// order.
pub fn unpack_kwargs_value_ty(ty: TypeUnion) -> (r: TypeUnion)
    ensures
        union_shapes(r) == dedup_shapes(union_shapes(ty).map_values(|s: TyShape| value_shape(s))),
{
    let ghost all = union_shapes(ty).map_values(|s: TyShape| value_shape(s));
    let mut rest = ty.variants;
    let ghost orig = rest@;
    proof {
        assert(all =~= orig.map_values(|v: TyVariant| value_shape(vshape(v))));
    }
    let mut out: Vec<TyVariant> = Vec::new();
    let ghost mut done: int = 0;
    proof {
        assert(orig.subrange(0, 0) =~= Seq::<TyVariant>::empty());
        assert(out@.map_values(|t: TyVariant| vshape(t)) =~= dedup_shapes(all.subrange(0, 0)));
    }
    while rest.len() > 0
        invariant
            0 <= done <= orig.len(),
            all.len() == orig.len(),
            all == orig.map_values(|v: TyVariant| value_shape(vshape(v))),
            rest@ == orig.subrange(done, orig.len() as int),
            out@.map_values(|t: TyVariant| vshape(t)) == dedup_shapes(all.subrange(0, done)),
        decreases rest@.len(),
    {
        let v = rest.remove(0);
        proof {
            assert(v == orig[done]);
            assert(rest@ =~= orig.subrange(done + 1, orig.len() as int));
        }
        let c: TyVariant = match v {
            TyVariant::Mapping(_, val) => *val,
            _ => TyVariant::Unconstrained,
        };
        proof {
            assert(vshape(c) == all[done]);
        }
        push_if_new(&mut out, c);
        proof {
            let pre1 = all.subrange(0, done + 1);
            assert(pre1.drop_last() =~= all.subrange(0, done));
            assert(pre1.last() == all[done]);
            done = done + 1;
        }
    }
    proof {
        assert(all.subrange(0, all.len() as int) =~= all);
    }
    TypeUnion { variants: out }
}

/// Appends a contribution unless a variant of the same shape is already
/// present.
fn push_if_new(out: &mut Vec<TyVariant>, c: TyVariant)
    ensures
        final(out)@.map_values(|t: TyVariant| vshape(t)) == ({
            let d = old(out)@.map_values(|t: TyVariant| vshape(t));
            if d.contains(vshape(c)) {
                d
            } else {
                d.push(vshape(c))
            }
        }),
{
    let present = contains_variant(out, &c);
    if !present {
        let ghost dv0 = out@.map_values(|t: TyVariant| vshape(t));
        out.push(c);
        proof {
            assert(out@.map_values(|t: TyVariant| vshape(t)) =~= dv0.push(vshape(c)));
        }
    }
}

} // verus!
