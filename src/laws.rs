use vstd::prelude::*;
use vstd::seq_lib::{lemma_no_dup_in_concat, seq_to_set_distributes_over_add};
use crate::derive::{
    accessor_name, candidate_names, index_name, POSITIONAL_LIMIT, define_from, gather, lens_output, named_part, named_parts,
    positional_part, positional_parts, prism_output, prism_part, prism_parts, review_output, review_part,
    review_parts,
};
use crate::directive::{directive_mode, OpticMutability};
use crate::emit::{
    built_variant, focus, member_impls, mode_caps, tier_block, AccessView, Capability, Family, ImplView, Tier,
};
use crate::model::{NamedField, PositionalField, Shape, TypeDeclaration, Variant};
use crate::derive::ErrorView;

verus! {

proof fn lemma_define_from(names: Seq<Seq<char>>, reg: Set<Seq<char>>)
    ensures
        define_from(names, reg).0.no_duplicates(),
        forall|i: int| 0 <= i < define_from(names, reg).0.len() ==> !reg.contains(#[trigger] define_from(names, reg).0[i]),
        define_from(names, reg).1 == reg + define_from(names, reg).0.to_set(),
        define_from(names, reg).0.to_set() == names.to_set().difference(reg),
    decreases names.len(),
{
    if names.len() > 0 {
        let p = names.drop_last();
        let x = names.last();
        lemma_define_from(p, reg);
        let (d, r) = define_from(p, reg);
        assert(names =~= p.push(x));
        p.lemma_push_to_set_commute(x);
        if !r.contains(x) {
            d.lemma_push_to_set_commute(x);
            assert(d.push(x).no_duplicates()) by {
                assert forall|i: int, j: int| 0 <= i < d.push(x).len() && 0 <= j < d.push(x).len() && i != j
                    implies d.push(x)[i] != d.push(x)[j] by {
                    if i < d.len() && j == d.len() {
                        assert(d.to_set().contains(d[i]));
                    } else if j < d.len() && i == d.len() {
                        assert(d.to_set().contains(d[j]));
                    }
                }
            }
            assert(r.insert(x) =~= reg + d.push(x).to_set());
            assert(d.push(x).to_set() =~= names.to_set().difference(reg));
        } else {
            assert(d.to_set() =~= names.to_set().difference(reg));
        }
    } else {
        assert(define_from(names, reg).0.to_set() =~= names.to_set().difference(reg));
        assert(reg + Seq::<Seq<char>>::empty().to_set() =~= reg);
    }
}

/// In a session of two accessor-definition derivations, whichever runs first,
/// no accessor name is defined twice, none that the registry held before is
/// defined again, and the names defined are exactly the offered names that
/// the registry did not hold.
pub proof fn law_each_name_defined_once(
    first: TypeDeclaration,
    second: TypeDeclaration,
    reg: Set<Seq<char>>,
)
    requires
        candidate_names(first.shape) is Some,
        candidate_names(second.shape) is Some,
    ensures
        ({
            let a = candidate_names(first.shape)->Some_0.0;
            let b = candidate_names(second.shape)->Some_0.0;
            let (da, ra) = define_from(a, reg);
            let (db, rb) = define_from(b, ra);
            let (eb, sb) = define_from(b, reg);
            let (ea, sa) = define_from(a, sb);
            &&& (da + db).no_duplicates()
            &&& (eb + ea).no_duplicates()
            &&& forall|i: int| 0 <= i < (da + db).len() ==> !reg.contains(#[trigger] (da + db)[i])
            &&& (da + db).to_set() == (a.to_set() + b.to_set()).difference(reg)
            &&& (eb + ea).to_set() == (da + db).to_set()
            &&& rb == sa
        }),
{
    let a = candidate_names(first.shape)->Some_0.0;
    let b = candidate_names(second.shape)->Some_0.0;
    lemma_session(a, b, reg);
    lemma_session(b, a, reg);
    let (da, ra) = define_from(a, reg);
    let (db, rb) = define_from(b, ra);
    let (eb, sb) = define_from(b, reg);
    let (ea, sa) = define_from(a, sb);
    assert((a.to_set() + b.to_set()).difference(reg) =~= (b.to_set() + a.to_set()).difference(reg));
    assert(rb =~= sa);
}

proof fn lemma_session(a: Seq<Seq<char>>, b: Seq<Seq<char>>, reg: Set<Seq<char>>)
    ensures
        ({
            let (da, ra) = define_from(a, reg);
            let (db, rb) = define_from(b, ra);
            &&& (da + db).no_duplicates()
            &&& forall|i: int| 0 <= i < (da + db).len() ==> !reg.contains(#[trigger] (da + db)[i])
            &&& (da + db).to_set() == (a.to_set() + b.to_set()).difference(reg)
            &&& rb == reg + (da + db).to_set()
        }),
{
    let (da, ra) = define_from(a, reg);
    let (db, rb) = define_from(b, ra);
    lemma_define_from(a, reg);
    lemma_define_from(b, ra);
    assert forall|i: int, j: int| 0 <= i < da.len() && 0 <= j < db.len() implies da[i] != db[j] by {
        assert(da.to_set().contains(da[i]));
        assert(!ra.contains(db[j]));
    }
    lemma_no_dup_in_concat(da, db);
    assert forall|i: int| 0 <= i < (da + db).len() implies !reg.contains(#[trigger] (da + db)[i]) by {
        if i >= da.len() {
            assert((da + db)[i] == db[i - da.len()]);
            assert(!ra.contains(db[i - da.len()]));
        } else {
            assert((da + db)[i] == da[i]);
        }
    }
    seq_to_set_distributes_over_add(da, db);
    assert((da + db).to_set() =~= (a.to_set() + b.to_set()).difference(reg));
    assert(rb =~= reg + (da + db).to_set());
}

/// Every mode grants at least the tiers of the modes below it, and strictly
/// more: `Ref` < `Mut` < `Move`, for struct fields and enum variants alike.
pub proof fn law_tiers_strictly_grow(lens: bool, accessor: Seq<char>, target: Seq<char>, access: AccessView)
    ensures
        ({
            let r = member_impls(mode_caps(lens, OpticMutability::Ref), accessor, target, access).to_set();
            let m = member_impls(mode_caps(lens, OpticMutability::Mut), accessor, target, access).to_set();
            let v = member_impls(mode_caps(lens, OpticMutability::Move), accessor, target, access).to_set();
            &&& r.subset_of(m) && r != m
            &&& m.subset_of(v) && m != v
        }),
{
    let r = member_impls(mode_caps(lens, OpticMutability::Ref), accessor, target, access);
    let m = member_impls(mode_caps(lens, OpticMutability::Mut), accessor, target, access);
    let v = member_impls(mode_caps(lens, OpticMutability::Move), accessor, target, access);
    let k = if lens { 3int } else { 2int };
    assert forall|x| r.to_set().contains(x) implies m.to_set().contains(x) by {
        let i = choose|i: int| 0 <= i < r.len() && r[i] == x;
        assert(m[i + k] == x);
    }
    assert forall|x| m.to_set().contains(x) implies v.to_set().contains(x) by {
        let i = choose|i: int| 0 <= i < m.len() && m[i] == x;
        assert(v[i + k] == x);
    }
    assert(m.to_set().contains(m[0]));
    if r.to_set().contains(m[0]) {
        let i = choose|i: int| 0 <= i < r.len() && r[i] == m[0];
        assert(r[i].capability == m[0].capability);
    }
    assert(v.to_set().contains(v[0]));
    if m.to_set().contains(v[0]) {
        let i = choose|i: int| 0 <= i < m.len() && m[i] == v[0];
        assert(m[i].capability == v[0].capability);
    }
}

proof fn lemma_gather_all(
    parts: Seq<Result<Seq<ImplView>, ErrorView>>,
    p: spec_fn(ImplView) -> bool,
)
    requires
        forall|k: int, j: int| 0 <= k < parts.len() && #[trigger] parts[k] is Ok && 0 <= j < parts[k]->Ok_0.len()
            ==> p(#[trigger] parts[k]->Ok_0[j]),
    ensures
        gather(parts) is Ok ==> forall|j: int| 0 <= j < gather(parts)->Ok_0.len() ==> p(#[trigger] gather(parts)->Ok_0[j]),
    decreases parts.len(),
{
    if parts.len() > 0 {
        let q = parts.drop_last();
        assert forall|k: int, j: int| 0 <= k < q.len() && #[trigger] q[k] is Ok && 0 <= j < q[k]->Ok_0.len()
            implies p(#[trigger] q[k]->Ok_0[j]) by {
            assert(q[k] == parts[k]);
        }
        lemma_gather_all(q, p);
        if gather(parts) is Ok {
            let v = gather(q)->Ok_0;
            let w = parts.last()->Ok_0;
            assert forall|j: int| 0 <= j < gather(parts)->Ok_0.len() implies p(#[trigger] gather(parts)->Ok_0[j]) by {
                assert(gather(parts)->Ok_0 == v + w);
                if j >= v.len() {
                    assert((v + w)[j] == w[j - v.len()]);
                    assert(parts[parts.len() - 1] == parts.last());
                }
            }
        }
    }
}

pub open spec fn reaches_member(i: ImplView) -> bool {
    i.access is Field || i.access is Index
}

/// A lens derived for a struct member is total: whatever the source, its body
/// hands on exactly the one result of an inner lens.
pub proof fn law_lens_total<T>(decl: TypeDeclaration, held: Option<Seq<char>>, x: T)
    requires
        lens_output(decl.shape) is Ok,
    ensures
        forall|j: int| 0 <= j < lens_output(decl.shape)->Ok_0.len()
            ==> #[trigger] focus(lens_output(decl.shape)->Ok_0[j].access, held, seq![x]) == seq![x],
{
    let p = |i: ImplView| reaches_member(i);
    match decl.shape {
        Shape::NamedStruct(fs) => {
            let parts = named_parts(fs@);
            assert forall|k: int, j: int| 0 <= k < parts.len() && #[trigger] parts[k] is Ok && 0 <= j < parts[k]->Ok_0.len()
                implies p(#[trigger] parts[k]->Ok_0[j]) by {
                assert(parts[k] == named_part(fs@[k]));
            }
            lemma_gather_all(parts, p);
        },
        Shape::PositionalStruct(fs) => {
            let parts = positional_parts(fs@);
            assert forall|k: int, j: int| 0 <= k < parts.len() && #[trigger] parts[k] is Ok && 0 <= j < parts[k]->Ok_0.len()
                implies p(#[trigger] parts[k]->Ok_0[j]) by {
                assert(parts[k] == positional_part(fs@[k], k as nat));
            }
            lemma_gather_all(parts, p);
        },
        _ => {},
    }
    let w = lens_output(decl.shape)->Ok_0;
    assert forall|j: int| 0 <= j < w.len() implies #[trigger] focus(w[j].access, held, seq![x]) == seq![x] by {
        assert(p(w[j]));
    }
}

pub open spec fn matches_variant(i: ImplView) -> bool {
    i.access is Variant && i.accessor == accessor_name(i.access->Variant_0)
}

/// A prism or traversal derived for an enum variant is partial: on a source
/// that holds another variant its body yields nothing, and on one that holds
/// its own variant it hands on what the inner optic yields.
pub proof fn law_prism_partial<T>(decl: TypeDeclaration, held: Option<Seq<char>>, inner: Seq<T>)
    requires
        prism_output(decl.shape) is Ok,
    ensures
        forall|j: int| 0 <= j < prism_output(decl.shape)->Ok_0.len() ==> {
            let i = #[trigger] prism_output(decl.shape)->Ok_0[j];
            &&& i.access is Variant
            &&& i.accessor == accessor_name(i.access->Variant_0)
            &&& held != Some(i.access->Variant_0) ==> focus(i.access, held, inner) == Seq::<T>::empty()
            &&& held == Some(i.access->Variant_0) ==> focus(i.access, held, inner) == inner
        },
{
    let p = |i: ImplView| matches_variant(i);
    if let Shape::Enum(vs) = decl.shape {
        let parts = prism_parts(vs@);
        assert forall|k: int, j: int| 0 <= k < parts.len() && #[trigger] parts[k] is Ok && 0 <= j < parts[k]->Ok_0.len()
            implies p(#[trigger] parts[k]->Ok_0[j]) by {
            assert(parts[k] == prism_part(vs@[k]));
        }
        lemma_gather_all(parts, p);
        let w = prism_output(decl.shape)->Ok_0;
        assert forall|j: int| 0 <= j < w.len() implies p(#[trigger] w[j]) by {}
    }
}

pub open spec fn prism_ref_for(p: ImplView, r: ImplView) -> bool {
    &&& p.accessor == r.accessor
    &&& p.target == r.target
    &&& p.access == r.access
    &&& p.capability == Capability::Optic(Family::Prism, Tier::Ref)
}

proof fn lemma_prism_ref_in_caps(m: OpticMutability)
    ensures
        exists|k: int| 0 <= k < mode_caps(false, m).len()
            && #[trigger] mode_caps(false, m)[k] == Capability::Optic(Family::Prism, Tier::Ref),
{
    match m {
        OpticMutability::Ref => assert(mode_caps(false, m)[1] == Capability::Optic(Family::Prism, Tier::Ref)),
        OpticMutability::Mut => assert(mode_caps(false, m)[3] == Capability::Optic(Family::Prism, Tier::Ref)),
        OpticMutability::Move => assert(mode_caps(false, m)[5] == Capability::Optic(Family::Prism, Tier::Ref)),
    }
}

pub open spec fn has_prism_ref(r: ImplView, wp: Seq<ImplView>) -> bool {
    exists|j: int| 0 <= j < wp.len() && prism_ref_for(#[trigger] wp[j], r)
}

pub open spec fn all_paired(wr: Seq<ImplView>, wp: Seq<ImplView>) -> bool {
    forall|i: int| 0 <= i < wr.len() ==> #[trigger] has_prism_ref(wr[i], wp)
}

proof fn lemma_review_pairs(vs: Seq<Variant>)
    requires
        gather(review_parts(vs)) is Ok,
        gather(prism_parts(vs)) is Ok,
    ensures
        all_paired(gather(review_parts(vs))->Ok_0, gather(prism_parts(vs))->Ok_0),
    decreases vs.len(),
{
    if vs.len() > 0 {
        let q = vs.drop_last();
        let last = vs.last();
        assert(review_parts(vs).drop_last() =~= review_parts(q));
        assert(prism_parts(vs).drop_last() =~= prism_parts(q));
        assert(review_parts(vs).last() == review_part(last));
        assert(prism_parts(vs).last() == prism_part(last));
        lemma_review_pairs(q);
        let wr0 = gather(review_parts(q))->Ok_0;
        let wp0 = gather(prism_parts(q))->Ok_0;
        let wr = gather(review_parts(vs))->Ok_0;
        let wp = gather(prism_parts(vs))->Ok_0;
        let lr = review_part(last)->Ok_0;
        let lp = prism_part(last)->Ok_0;
        assert(wr == wr0 + lr);
        assert(wp == wp0 + lp);
        assert forall|i: int| 0 <= i < wr.len() implies #[trigger] has_prism_ref(wr[i], wp) by {
            if i < wr0.len() {
                assert(wr[i] == wr0[i]);
                assert(has_prism_ref(wr0[i], wp0));
                let j = choose|j: int| 0 <= j < wp0.len() && prism_ref_for(#[trigger] wp0[j], wr0[i]);
                assert(wp[j] == wp0[j]);
            } else {
                let m = directive_mode(last.optic->Some_0@)->Some_0;
                lemma_prism_ref_in_caps(m);
                let k = choose|k: int| 0 <= k < mode_caps(false, m).len()
                    && #[trigger] mode_caps(false, m)[k] == Capability::Optic(Family::Prism, Tier::Ref);
                assert(wr[i] == lr[i - wr0.len()]);
                assert(wp[wp0.len() + k] == lp[k]);
                assert(prism_ref_for(wp[wp0.len() + k], wr[i]));
            }
        }
        assert(all_paired(wr, wp));
    } else {
        assert(gather(review_parts(vs))->Ok_0.len() == 0);
    }
}

/// A value built by a derived review, then matched by the read-only prism
/// derived for the same variant, gives back what the inner optic gives: for
/// every review impl there is a read-only prism impl of the same accessor,
/// target and variant, whose body hands on the inner result on that value.
pub proof fn law_review_then_prism<T>(decl: TypeDeclaration, inner: Seq<T>)
    requires
        review_output(decl.shape) is Ok,
        prism_output(decl.shape) is Ok,
    ensures
        forall|i: int| 0 <= i < review_output(decl.shape)->Ok_0.len() ==> exists|j: int|
            0 <= j < prism_output(decl.shape)->Ok_0.len() && {
                let p = #[trigger] prism_output(decl.shape)->Ok_0[j];
                let r = #[trigger] review_output(decl.shape)->Ok_0[i];
                &&& prism_ref_for(p, r)
                &&& focus(p.access, built_variant(r.access), inner) == inner
            },
{
    if let Shape::Enum(vs) = decl.shape {
        lemma_review_pairs(vs@);
        let wr = review_output(decl.shape)->Ok_0;
        let wp = prism_output(decl.shape)->Ok_0;
        assert(wr == gather(review_parts(vs@))->Ok_0);
        assert(wp == gather(prism_parts(vs@))->Ok_0);
        let p = |i: ImplView| matches_variant(i);
        let parts = review_parts(vs@);
        assert forall|k: int, j: int| 0 <= k < parts.len() && #[trigger] parts[k] is Ok && 0 <= j < parts[k]->Ok_0.len()
            implies p(#[trigger] parts[k]->Ok_0[j]) by {
            assert(parts[k] == review_part(vs@[k]));
        }
        lemma_gather_all(parts, p);
        assert forall|i: int| 0 <= i < wr.len() implies exists|j: int| 0 <= j < wp.len() && {
            let p = #[trigger] wp[j];
            let r = #[trigger] wr[i];
            &&& prism_ref_for(p, r)
            &&& focus(p.access, built_variant(r.access), inner) == inner
        } by {
            assert(has_prism_ref(wr[i], wp));
            let j = choose|j: int| 0 <= j < wp.len() && prism_ref_for(#[trigger] wp[j], wr[i]);
            assert(p(wr[i]));
            assert(prism_ref_for(wp[j], wr[i]));
            assert(focus(wp[j].access, built_variant(wr[i].access), inner) == inner);
        }
    }
}

proof fn lemma_gather_fails(parts: Seq<Result<Seq<ImplView>, ErrorView>>, k: int)
    requires
        0 <= k < parts.len(),
        parts[k] is Err,
    ensures
        gather(parts) is Err,
    decreases parts.len(),
{
    if k < parts.len() - 1 {
        assert(parts.drop_last()[k] == parts[k]);
        lemma_gather_fails(parts.drop_last(), k);
    }
}

/// A struct field annotated with anything but the three accepted forms makes
/// the lens derivation fail.
pub proof fn law_malformed_field_rejected(decl: TypeDeclaration, k: int)
    requires
        decl.shape is NamedStruct,
        0 <= k < decl.shape->NamedStruct_0@.len(),
        decl.shape->NamedStruct_0@[k].optic is Some,
        directive_mode(decl.shape->NamedStruct_0@[k].optic->Some_0@) is None,
    ensures
        lens_output(decl.shape) is Err,
{
    let fs = decl.shape->NamedStruct_0@;
    assert(named_parts(fs)[k] == named_part(fs[k]));
    lemma_gather_fails(named_parts(fs), k);
}

/// An enum variant annotated with anything but the three accepted forms makes
/// the prism derivation fail.
pub proof fn law_malformed_variant_rejected(decl: TypeDeclaration, k: int)
    requires
        decl.shape is Enum,
        0 <= k < decl.shape->Enum_0@.len(),
        decl.shape->Enum_0@[k].optic is Some,
        directive_mode(decl.shape->Enum_0@[k].optic->Some_0@) is None,
    ensures
        prism_output(decl.shape) is Err,
{
    let vs = decl.shape->Enum_0@;
    assert(prism_parts(vs)[k] == prism_part(vs[k]));
    lemma_gather_fails(prism_parts(vs), k);
}

/// Positional fields from index `POSITIONAL_LIMIT` on play no part in a lens
/// derivation: two field lists that agree below that index derive the same.
pub proof fn law_positional_scope(a: Seq<PositionalField>, b: Seq<PositionalField>)
    requires
        a.len() >= POSITIONAL_LIMIT,
        b.len() >= POSITIONAL_LIMIT,
        forall|i: int| 0 <= i < POSITIONAL_LIMIT ==> #[trigger] a[i] == b[i],
    ensures
        gather(positional_parts(a)) == gather(positional_parts(b)),
{
    assert(positional_parts(a) =~= positional_parts(b));
}

/// A positional field below `POSITIONAL_LIMIT` annotated with anything but the
/// three accepted forms makes the lens derivation fail.
pub proof fn law_malformed_positional_rejected(decl: TypeDeclaration, k: int)
    requires
        decl.shape is PositionalStruct,
        0 <= k < decl.shape->PositionalStruct_0@.len(),
        k < POSITIONAL_LIMIT,
        decl.shape->PositionalStruct_0@[k].optic is Some,
        directive_mode(decl.shape->PositionalStruct_0@[k].optic->Some_0@) is None,
    ensures
        lens_output(decl.shape) is Err,
{
    let fs = decl.shape->PositionalStruct_0@;
    assert(positional_parts(fs)[k] == positional_part(fs[k], k as nat));
    lemma_gather_fails(positional_parts(fs), k);
}

pub open spec fn impl_set(r: Result<Seq<ImplView>, ErrorView>) -> Set<ImplView> {
    r->Ok_0.to_set()
}

/// Three named fields alike but for their annotation, `(ref)`, `(mut)` and
/// none, contribute strictly growing sets of impls to a lens derivation.
pub proof fn law_lens_tiers_grow(r: NamedField, m: NamedField, v: NamedField)
    requires
        r.name@ == m.name@ && m.name@ == v.name@,
        r.ty@ == m.ty@ && m.ty@ == v.ty@,
        r.optic is Some && directive_mode(r.optic->Some_0@) == Some(OpticMutability::Ref),
        m.optic is Some && directive_mode(m.optic->Some_0@) == Some(OpticMutability::Mut),
        v.optic is Some && directive_mode(v.optic->Some_0@) == Some(OpticMutability::Move),
    ensures
        named_part(r) is Ok && named_part(m) is Ok && named_part(v) is Ok,
        impl_set(named_part(r)).subset_of(impl_set(named_part(m))),
        impl_set(named_part(r)) != impl_set(named_part(m)),
        impl_set(named_part(m)).subset_of(impl_set(named_part(v))),
        impl_set(named_part(m)) != impl_set(named_part(v)),
{
    law_tiers_strictly_grow(true, accessor_name(r.name@), r.ty@, AccessView::Field(r.name@));
}

/// Three positional fields at index `i` alike but for their annotation,
/// `(ref)`, `(mut)` and none, contribute strictly growing sets of impls to a
/// lens derivation.
pub proof fn law_positional_tiers_grow(r: PositionalField, m: PositionalField, v: PositionalField, i: nat)
    requires
        r.ty@ == m.ty@ && m.ty@ == v.ty@,
        r.optic is Some && directive_mode(r.optic->Some_0@) == Some(OpticMutability::Ref),
        m.optic is Some && directive_mode(m.optic->Some_0@) == Some(OpticMutability::Mut),
        v.optic is Some && directive_mode(v.optic->Some_0@) == Some(OpticMutability::Move),
    ensures
        positional_part(r, i) is Ok && positional_part(m, i) is Ok && positional_part(v, i) is Ok,
        impl_set(positional_part(r, i)).subset_of(impl_set(positional_part(m, i))),
        impl_set(positional_part(r, i)) != impl_set(positional_part(m, i)),
        impl_set(positional_part(m, i)).subset_of(impl_set(positional_part(v, i))),
        impl_set(positional_part(m, i)) != impl_set(positional_part(v, i)),
{
    law_tiers_strictly_grow(true, index_name(i), r.ty@, AccessView::Index(i));
}

/// Three variants alike but for their annotation, `(ref)`, `(mut)` and none,
/// contribute strictly growing sets of impls to a prism derivation.
pub proof fn law_prism_tiers_grow(r: Variant, m: Variant, v: Variant)
    requires
        r.name@ == m.name@ && m.name@ == v.name@,
        r.fields@.len() > 0 && m.fields@.len() > 0 && v.fields@.len() > 0,
        r.fields@[0]@ == m.fields@[0]@ && m.fields@[0]@ == v.fields@[0]@,
        r.optic is Some && directive_mode(r.optic->Some_0@) == Some(OpticMutability::Ref),
        m.optic is Some && directive_mode(m.optic->Some_0@) == Some(OpticMutability::Mut),
        v.optic is Some && directive_mode(v.optic->Some_0@) == Some(OpticMutability::Move),
    ensures
        prism_part(r) is Ok && prism_part(m) is Ok && prism_part(v) is Ok,
        impl_set(prism_part(r)).subset_of(impl_set(prism_part(m))),
        impl_set(prism_part(r)) != impl_set(prism_part(m)),
        impl_set(prism_part(m)).subset_of(impl_set(prism_part(v))),
        impl_set(prism_part(m)) != impl_set(prism_part(v)),
{
    law_tiers_strictly_grow(false, accessor_name(r.name@), r.fields@[0]@, AccessView::Variant(r.name@));
}

pub open spec fn not_lens(i: ImplView) -> bool {
    !(i.capability is Optic && i.capability->Optic_0 == Family::Lens)
}

/// A prism derivation never yields a lens impl: a variant's optics are partial.
pub proof fn law_prism_never_lens(decl: TypeDeclaration)
    requires
        prism_output(decl.shape) is Ok,
    ensures
        forall|j: int| 0 <= j < prism_output(decl.shape)->Ok_0.len() ==> not_lens(
            #[trigger] prism_output(decl.shape)->Ok_0[j],
        ),
{
    let p = |i: ImplView| not_lens(i);
    if let Shape::Enum(vs) = decl.shape {
        let parts = prism_parts(vs@);
        assert forall|k: int, j: int| 0 <= k < parts.len() && #[trigger] parts[k] is Ok && 0 <= j < parts[k]->Ok_0.len()
            implies p(#[trigger] parts[k]->Ok_0[j]) by {
            assert(parts[k] == prism_part(vs@[k]));
            if vs@[k].optic is Some && directive_mode(vs@[k].optic->Some_0@) is Some && vs@[k].fields@.len() > 0 {
                let m = directive_mode(vs@[k].optic->Some_0@)->Some_0;
                assert(forall|q: int| 0 <= q < mode_caps(false, m).len() ==> #[trigger] mode_caps(false, m)[q] is Optic
                    && mode_caps(false, m)[q]->Optic_0 != Family::Lens);
            }
        }
        lemma_gather_all(parts, p);
    }
}

} // verus!
