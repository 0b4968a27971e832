use vstd::prelude::*;
use crate::directive::{directive_mode, OpticMutability};
use crate::emit::{
    impl_views, member_impls, mode_caps, push_member_impls, Access, AccessView, Capability,
    Derived, ImplView, OpticImpl,
};
use crate::emit::{AccessorDef, AccessorFlavor};
use crate::model::{strings_view, NamedField, PositionalField, Shape, TypeDeclaration, Variant};
use crate::registry::NameRegistry;

verus! {

/// Why a derivation produced nothing.
#[derive(Debug)]
pub enum DeriveError {
    /// The derivation does not apply to the declaration's shape.
    ShapeMismatch,
    /// The annotation of the member with this accessor name is malformed.
    MalformedDirective(String),
    /// This annotated variant has no field to target.
    EmptyVariant(String),
}

pub enum ErrorView {
    ShapeMismatch,
    MalformedDirective(Seq<char>),
    EmptyVariant(Seq<char>),
}

impl View for DeriveError {
    type V = ErrorView;

    open spec fn view(&self) -> ErrorView {
        match self {
            DeriveError::ShapeMismatch => ErrorView::ShapeMismatch,
            DeriveError::MalformedDirective(s) => ErrorView::MalformedDirective(s@),
            DeriveError::EmptyVariant(s) => ErrorView::EmptyVariant(s@),
        }
    }
}

/// The three annotation forms that a derivation accepts.
pub open spec fn directive_help() -> Seq<char> {
    "only allow #[optic], #[optic(mut)] or #[optic(ref)] here"@
}

impl DeriveError {
    /// A message for the user; a malformed annotation's message names the
    /// accepted forms and the member's accessor.
    pub fn message(&self) -> (r: String)
        ensures
            self@ is MalformedDirective ==> r@ == directive_help() + ": "@ + self@->MalformedDirective_0,
            self@ is EmptyVariant ==> r@ == "an annotated variant needs a field: "@ + self@->EmptyVariant_0,
            self@ is ShapeMismatch ==> r@ == "this derivation does not apply to the type's shape"@,
    {
        match self {
            DeriveError::MalformedDirective(m) => {
                let mut r = String::from_str("only allow #[optic], #[optic(mut)] or #[optic(ref)] here");
                r.append(": ");
                r.append(m.as_str());
                r
            },
            DeriveError::EmptyVariant(v) => {
                let mut r = String::from_str("an annotated variant needs a field: ");
                r.append(v.as_str());
                r
            },
            DeriveError::ShapeMismatch => String::from_str("this derivation does not apply to the type's shape"),
        }
    }
}

/// Positional fields at this index or beyond get no accessor.
pub const POSITIONAL_LIMIT: usize = 7;

/// The accessor name of a named member: the name behind an underscore.
pub open spec fn accessor_name(name: Seq<char>) -> Seq<char> {
    seq!['_'] + name
}

pub open spec fn digit(i: nat) -> char {
    if i == 0 {
        '0'
    } else if i == 1 {
        '1'
    } else if i == 2 {
        '2'
    } else if i == 3 {
        '3'
    } else if i == 4 {
        '4'
    } else if i == 5 {
        '5'
    } else {
        '6'
    }
}

/// The accessor name of a positional field: its index behind an underscore.
pub open spec fn index_name(i: nat) -> Seq<char> {
    seq!['_', digit(i)]
}

/// What one named field contributes to a lens derivation.
pub open spec fn named_part(f: NamedField) -> Result<Seq<ImplView>, ErrorView> {
    match f.optic {
        None => Ok(seq![]),
        Some(p) => match directive_mode(p@) {
            None => Err(ErrorView::MalformedDirective(accessor_name(f.name@))),
            Some(m) => Ok(member_impls(mode_caps(true, m), accessor_name(f.name@), f.ty@, AccessView::Field(f.name@))),
        },
    }
}

/// What the positional field at index `i` contributes to a lens derivation.
pub open spec fn positional_part(f: PositionalField, i: nat) -> Result<Seq<ImplView>, ErrorView> {
    match f.optic {
        None => Ok(seq![]),
        Some(p) => match directive_mode(p@) {
            None => Err(ErrorView::MalformedDirective(index_name(i))),
            Some(m) => Ok(member_impls(mode_caps(true, m), index_name(i), f.ty@, AccessView::Index(i))),
        },
    }
}

/// What one variant contributes to a prism derivation.
pub open spec fn prism_part(v: Variant) -> Result<Seq<ImplView>, ErrorView> {
    match v.optic {
        None => Ok(seq![]),
        Some(p) => match directive_mode(p@) {
            None => Err(ErrorView::MalformedDirective(accessor_name(v.name@))),
            Some(m) => if v.fields@.len() == 0 {
                Err(ErrorView::EmptyVariant(v.name@))
            } else {
                Ok(member_impls(mode_caps(false, m), accessor_name(v.name@), v.fields@[0]@, AccessView::Variant(v.name@)))
            },
        },
    }
}

/// The single review impl of an annotated variant.
pub open spec fn review_impl(v: Variant) -> ImplView {
    ImplView {
        accessor: accessor_name(v.name@),
        target: v.fields@[0]@,
        access: AccessView::Variant(v.name@),
        capability: Capability::Review,
    }
}

/// What one variant contributes to a review derivation; the mode plays no part.
pub open spec fn review_part(v: Variant) -> Result<Seq<ImplView>, ErrorView> {
    match v.optic {
        None => Ok(seq![]),
        Some(_) => if v.fields@.len() == 0 {
            Err(ErrorView::EmptyVariant(v.name@))
        } else {
            Ok(seq![review_impl(v)])
        },
    }
}

/// The members' contributions in order, or the first member's error.
pub open spec fn gather(parts: Seq<Result<Seq<ImplView>, ErrorView>>) -> Result<Seq<ImplView>, ErrorView>
    decreases parts.len(),
{
    if parts.len() == 0 {
        Ok(seq![])
    } else {
        match gather(parts.drop_last()) {
            Err(e) => Err(e),
            Ok(v) => match parts.last() {
                Err(e) => Err(e),
                Ok(w) => Ok(v + w),
            },
        }
    }
}

pub open spec fn named_parts(fs: Seq<NamedField>) -> Seq<Result<Seq<ImplView>, ErrorView>> {
    Seq::new(fs.len(), |i: int| named_part(fs[i]))
}

pub open spec fn positional_count(n: nat) -> nat {
    if n < POSITIONAL_LIMIT {
        n
    } else {
        POSITIONAL_LIMIT as nat
    }
}

pub open spec fn positional_parts(fs: Seq<PositionalField>) -> Seq<Result<Seq<ImplView>, ErrorView>> {
    Seq::new(positional_count(fs.len()), |i: int| positional_part(fs[i], i as nat))
}

pub open spec fn prism_parts(vs: Seq<Variant>) -> Seq<Result<Seq<ImplView>, ErrorView>> {
    Seq::new(vs.len(), |i: int| prism_part(vs[i]))
}

pub open spec fn review_parts(vs: Seq<Variant>) -> Seq<Result<Seq<ImplView>, ErrorView>> {
    Seq::new(vs.len(), |i: int| review_part(vs[i]))
}

/// The impls a lens derivation yields for a shape.
pub open spec fn lens_output(shape: Shape) -> Result<Seq<ImplView>, ErrorView> {
    match shape {
        Shape::NamedStruct(fs) => gather(named_parts(fs@)),
        Shape::PositionalStruct(fs) => gather(positional_parts(fs@)),
        _ => Err(ErrorView::ShapeMismatch),
    }
}

/// The impls a prism derivation yields for a shape.
pub open spec fn prism_output(shape: Shape) -> Result<Seq<ImplView>, ErrorView> {
    match shape {
        Shape::Enum(vs) => gather(prism_parts(vs@)),
        _ => Err(ErrorView::ShapeMismatch),
    }
}

/// The impls a review derivation yields for a shape.
pub open spec fn review_output(shape: Shape) -> Result<Seq<ImplView>, ErrorView> {
    match shape {
        Shape::Enum(vs) => gather(review_parts(vs@)),
        _ => Err(ErrorView::ShapeMismatch),
    }
}

/// `r` is what `expected` describes, carrying the owner's name and generics.
pub open spec fn derived_as(
    r: Result<Derived, DeriveError>,
    decl: TypeDeclaration,
    expected: Result<Seq<ImplView>, ErrorView>,
) -> bool {
    match (r, expected) {
        (Ok(d), Ok(w)) => impl_views(d.impls@) == w && d.owner@ == decl.name@ && d.generics@ == decl.generics@,
        (Err(x), Err(e)) => x@ == e,
        _ => false,
    }
}

pub open spec fn impls_as(r: Result<Vec<OpticImpl>, DeriveError>, expected: Result<Seq<ImplView>, ErrorView>) -> bool {
    match (r, expected) {
        (Ok(v), Ok(w)) => impl_views(v@) == w,
        (Err(x), Err(e)) => x@ == e,
        _ => false,
    }
}

proof fn lemma_gather_err(parts: Seq<Result<Seq<ImplView>, ErrorView>>, i: int, e: ErrorView)
    requires
        0 <= i <= parts.len(),
        gather(parts.subrange(0, i)) == Err::<Seq<ImplView>, ErrorView>(e),
    ensures
        gather(parts) == Err::<Seq<ImplView>, ErrorView>(e),
    decreases parts.len() - i,
{
    if i < parts.len() {
        assert(parts.subrange(0, i + 1).drop_last() =~= parts.subrange(0, i));
        lemma_gather_err(parts, i + 1, e);
    } else {
        assert(parts.subrange(0, i) =~= parts);
    }
}

proof fn lemma_gather_step(parts: Seq<Result<Seq<ImplView>, ErrorView>>, i: int)
    requires
        0 <= i < parts.len(),
    ensures
        gather(parts.subrange(0, i + 1)) == match gather(parts.subrange(0, i)) {
            Err(e) => Err(e),
            Ok(v) => match parts[i] {
                Err(e) => Err(e),
                Ok(w) => Ok(v + w),
            },
        },
{
    assert(parts.subrange(0, i + 1).drop_last() =~= parts.subrange(0, i));
}

proof fn lemma_gather_start(parts: Seq<Result<Seq<ImplView>, ErrorView>>)
    ensures
        gather(parts.subrange(0, 0)) == Ok::<Seq<ImplView>, ErrorView>(impl_views(Seq::<OpticImpl>::empty())),
{
    assert(impl_views(Seq::<OpticImpl>::empty()) =~= Seq::<ImplView>::empty());
}

/// The accessor name `_<name>`.
pub fn make_accessor_name(name: &str) -> (r: String)
    ensures
        r@ == accessor_name(name@),
{
    let mut r = String::from_str("_");
    r.append(name);
    proof {
        reveal_strlit("_");
    }
    r
}

/// The accessor name `_<i>` of a positional field.
pub fn make_index_name(i: usize) -> (r: String)
    requires
        i < POSITIONAL_LIMIT,
    ensures
        r@ == index_name(i as nat),
{
    let r = if i == 0 {
        String::from_str("_0")
    } else if i == 1 {
        String::from_str("_1")
    } else if i == 2 {
        String::from_str("_2")
    } else if i == 3 {
        String::from_str("_3")
    } else if i == 4 {
        String::from_str("_4")
    } else if i == 5 {
        String::from_str("_5")
    } else {
        String::from_str("_6")
    };
    proof {
        reveal_strlit("_0");
        reveal_strlit("_1");
        reveal_strlit("_2");
        reveal_strlit("_3");
        reveal_strlit("_4");
        reveal_strlit("_5");
        reveal_strlit("_6");
        assert(r@ =~= index_name(i as nat));
    }
    r
}

fn named_lens_impls(fs: &Vec<NamedField>) -> (r: Result<Vec<OpticImpl>, DeriveError>)
    ensures
        impls_as(r, gather(named_parts(fs@))),
{
    let ghost parts = named_parts(fs@);
    let mut out: Vec<OpticImpl> = Vec::new();
    proof {
        lemma_gather_start(parts);
    }
    let mut i: usize = 0;
    while i < fs.len()
        invariant
            i <= fs@.len(),
            parts == named_parts(fs@),
            gather(parts.subrange(0, i as int)) == Ok::<Seq<ImplView>, ErrorView>(impl_views(out@)),
        decreases fs@.len() - i,
    {
        let f = &fs[i];
        proof {
            lemma_gather_step(parts, i as int);
            assert(parts[i as int] == named_part(fs@[i as int]));
        }
        match &f.optic {
            None => {
                proof {
                    assert(impl_views(out@) + seq![] =~= impl_views(out@));
                }
            },
            Some(p) => {
                let name = make_accessor_name(f.name.as_str());
                match OpticMutability::parse(p.as_str()) {
                    None => {
                        proof {
                            lemma_gather_err(parts, i + 1, ErrorView::MalformedDirective(name@));
                        }
                        return Err(DeriveError::MalformedDirective(name));
                    },
                    Some(m) => {
                        let access = Access::Field(f.name.clone());
                        push_member_impls(&mut out, true, m, &name, &f.ty, &access);
                    },
                }
            },
        }
        i = i + 1;
    }
    proof {
        assert(parts.subrange(0, fs@.len() as int) =~= parts);
    }
    Ok(out)
}

fn positional_lens_impls(fs: &Vec<PositionalField>) -> (r: Result<Vec<OpticImpl>, DeriveError>)
    ensures
        impls_as(r, gather(positional_parts(fs@))),
{
    let ghost parts = positional_parts(fs@);
    let n = if fs.len() < POSITIONAL_LIMIT {
        fs.len()
    } else {
        POSITIONAL_LIMIT
    };
    let mut out: Vec<OpticImpl> = Vec::new();
    proof {
        lemma_gather_start(parts);
    }
    let mut i: usize = 0;
    while i < n
        invariant
            i <= n,
            n == parts.len(),
            n <= fs@.len(),
            n <= POSITIONAL_LIMIT,
            parts == positional_parts(fs@),
            gather(parts.subrange(0, i as int)) == Ok::<Seq<ImplView>, ErrorView>(impl_views(out@)),
        decreases n - i,
    {
        let f = &fs[i];
        proof {
            lemma_gather_step(parts, i as int);
            assert(parts[i as int] == positional_part(fs@[i as int], i as nat));
        }
        match &f.optic {
            None => {
                proof {
                    assert(impl_views(out@) + seq![] =~= impl_views(out@));
                }
            },
            Some(p) => {
                let name = make_index_name(i);
                match OpticMutability::parse(p.as_str()) {
                    None => {
                        proof {
                            lemma_gather_err(parts, i + 1, ErrorView::MalformedDirective(name@));
                        }
                        return Err(DeriveError::MalformedDirective(name));
                    },
                    Some(m) => {
                        let access = Access::Index(i);
                        push_member_impls(&mut out, true, m, &name, &f.ty, &access);
                    },
                }
            },
        }
        i = i + 1;
    }
    proof {
        assert(parts.subrange(0, n as int) =~= parts);
    }
    Ok(out)
}

fn prism_impls(vs: &Vec<Variant>) -> (r: Result<Vec<OpticImpl>, DeriveError>)
    ensures
        impls_as(r, gather(prism_parts(vs@))),
{
    let ghost parts = prism_parts(vs@);
    let mut out: Vec<OpticImpl> = Vec::new();
    proof {
        lemma_gather_start(parts);
    }
    let mut i: usize = 0;
    while i < vs.len()
        invariant
            i <= vs@.len(),
            parts == prism_parts(vs@),
            gather(parts.subrange(0, i as int)) == Ok::<Seq<ImplView>, ErrorView>(impl_views(out@)),
        decreases vs@.len() - i,
    {
        let v = &vs[i];
        proof {
            lemma_gather_step(parts, i as int);
            assert(parts[i as int] == prism_part(vs@[i as int]));
        }
        match &v.optic {
            None => {
                proof {
                    assert(impl_views(out@) + seq![] =~= impl_views(out@));
                }
            },
            Some(p) => {
                let name = make_accessor_name(v.name.as_str());
                match OpticMutability::parse(p.as_str()) {
                    None => {
                        proof {
                            lemma_gather_err(parts, i + 1, ErrorView::MalformedDirective(name@));
                        }
                        return Err(DeriveError::MalformedDirective(name));
                    },
                    Some(m) => {
                        if v.fields.len() == 0 {
                            proof {
                                lemma_gather_err(parts, i + 1, ErrorView::EmptyVariant(v.name@));
                            }
                            return Err(DeriveError::EmptyVariant(v.name.clone()));
                        }
                        let access = Access::Variant(v.name.clone());
                        push_member_impls(&mut out, false, m, &name, &v.fields[0], &access);
                    },
                }
            },
        }
        i = i + 1;
    }
    proof {
        assert(parts.subrange(0, vs@.len() as int) =~= parts);
    }
    Ok(out)
}

fn review_impls(vs: &Vec<Variant>) -> (r: Result<Vec<OpticImpl>, DeriveError>)
    ensures
        impls_as(r, gather(review_parts(vs@))),
{
    let ghost parts = review_parts(vs@);
    let mut out: Vec<OpticImpl> = Vec::new();
    proof {
        lemma_gather_start(parts);
    }
    let mut i: usize = 0;
    while i < vs.len()
        invariant
            i <= vs@.len(),
            parts == review_parts(vs@),
            gather(parts.subrange(0, i as int)) == Ok::<Seq<ImplView>, ErrorView>(impl_views(out@)),
        decreases vs@.len() - i,
    {
        let v = &vs[i];
        proof {
            lemma_gather_step(parts, i as int);
            assert(parts[i as int] == review_part(vs@[i as int]));
        }
        if v.optic.is_some() {
            if v.fields.len() == 0 {
                proof {
                    lemma_gather_err(parts, i + 1, ErrorView::EmptyVariant(v.name@));
                }
                return Err(DeriveError::EmptyVariant(v.name.clone()));
            }
            let ghost o = impl_views(out@);
            out.push(
                OpticImpl {
                    accessor: make_accessor_name(v.name.as_str()),
                    target: v.fields[0].clone(),
                    access: Access::Variant(v.name.clone()),
                    capability: Capability::Review,
                },
            );
            proof {
                assert(impl_views(out@) =~= o + seq![review_impl(vs@[i as int])]);
            }
        } else {
            proof {
                assert(impl_views(out@) + seq![] =~= impl_views(out@));
            }
        }
        i = i + 1;
    }
    proof {
        assert(parts.subrange(0, vs@.len() as int) =~= parts);
    }
    Ok(out)
}

fn finish(decl: &TypeDeclaration, r: Result<Vec<OpticImpl>, DeriveError>) -> (d: Result<Derived, DeriveError>)
    ensures
        forall|e: Result<Seq<ImplView>, ErrorView>| impls_as(r, e) ==> derived_as(d, *decl, e),
{
    match r {
        Ok(impls) => Ok(Derived { owner: decl.name.clone(), generics: decl.generics.copy(), impls }),
        Err(e) => Err(e),
    }
}

/// Derives the `Review` impls of an enum: one per annotated variant, which
/// builds the variant around what the inner optic builds. Any other shape is
/// refused.
pub fn derive_review(decl: &TypeDeclaration) -> (r: Result<Derived, DeriveError>)
    ensures
        derived_as(r, *decl, review_output(decl.shape)),
{
    match &decl.shape {
        Shape::Enum(vs) => finish(decl, review_impls(vs)),
        _ => Err(DeriveError::ShapeMismatch),
    }
}

/// Derives the traversal and prism impls of an enum's annotated variants, in
/// the tiers each annotation grants. Any other shape is refused.
pub fn derive_prism(decl: &TypeDeclaration) -> (r: Result<Derived, DeriveError>)
    ensures
        derived_as(r, *decl, prism_output(decl.shape)),
{
    match &decl.shape {
        Shape::Enum(vs) => finish(decl, prism_impls(vs)),
        _ => Err(DeriveError::ShapeMismatch),
    }
}

/// Derives the traversal, prism and lens impls of a struct's annotated fields,
/// in the tiers each annotation grants. Positional fields from index
/// `POSITIONAL_LIMIT` on are left out. Any other shape is refused.
pub fn derive_lens(decl: &TypeDeclaration) -> (r: Result<Derived, DeriveError>)
    ensures
        derived_as(r, *decl, lens_output(decl.shape)),
{
    match &decl.shape {
        Shape::NamedStruct(fs) => finish(decl, named_lens_impls(fs)),
        Shape::PositionalStruct(fs) => finish(decl, positional_lens_impls(fs)),
        _ => Err(DeriveError::ShapeMismatch),
    }
}

/// The accessor names of the annotated variants, in order.
pub open spec fn variant_names(vs: Seq<Variant>) -> Seq<Seq<char>>
    decreases vs.len(),
{
    if vs.len() == 0 {
        seq![]
    } else if vs.last().optic is Some {
        variant_names(vs.drop_last()).push(accessor_name(vs.last().name@))
    } else {
        variant_names(vs.drop_last())
    }
}

/// The accessor names of the annotated named fields, in order.
pub open spec fn field_names(fs: Seq<NamedField>) -> Seq<Seq<char>>
    decreases fs.len(),
{
    if fs.len() == 0 {
        seq![]
    } else if fs.last().optic is Some {
        field_names(fs.drop_last()).push(accessor_name(fs.last().name@))
    } else {
        field_names(fs.drop_last())
    }
}

/// The accessor names of the annotated positional fields among the first `n`,
/// in order.
pub open spec fn positional_names(fs: Seq<PositionalField>, n: nat) -> Seq<Seq<char>>
    decreases n,
{
    if n == 0 {
        seq![]
    } else if fs[n - 1].optic is Some {
        positional_names(fs, (n - 1) as nat).push(index_name((n - 1) as nat))
    } else {
        positional_names(fs, (n - 1) as nat)
    }
}

/// The names whose accessors an accessor-definition derivation considers, and
/// the flavor of those accessors; `None` where the shape is refused. Positional
/// fields count up to `POSITIONAL_LIMIT`.
pub open spec fn candidate_names(shape: Shape) -> Option<(Seq<Seq<char>>, AccessorFlavor)> {
    match shape {
        Shape::Enum(vs) => Some((variant_names(vs@), AccessorFlavor::Variant)),
        Shape::NamedStruct(fs) => Some((field_names(fs@), AccessorFlavor::Field)),
        Shape::PositionalStruct(fs) => Some((positional_names(fs@, positional_count(fs@.len())), AccessorFlavor::Field)),
        Shape::Other => None,
    }
}

/// The names defined, in order, when `names` are offered to a registry that
/// holds `reg`, with the registry's contents afterwards: a name is defined
/// only when the registry does not hold it yet.
pub open spec fn define_from(names: Seq<Seq<char>>, reg: Set<Seq<char>>) -> (Seq<Seq<char>>, Set<Seq<char>>)
    decreases names.len(),
{
    if names.len() == 0 {
        (seq![], reg)
    } else {
        let (d, r) = define_from(names.drop_last(), reg);
        if r.contains(names.last()) {
            (d, r)
        } else {
            (d.push(names.last()), r.insert(names.last()))
        }
    }
}

pub open spec fn def_names(defs: Seq<AccessorDef>) -> Seq<Seq<char>> {
    defs.map_values(|d: AccessorDef| d.name@)
}

fn variant_accessor_names(vs: &Vec<Variant>) -> (r: Vec<String>)
    ensures
        strings_view(r@) == variant_names(vs@),
{
    let mut r: Vec<String> = Vec::new();
    let mut i: usize = 0;
    while i < vs.len()
        invariant
            i <= vs@.len(),
            strings_view(r@) == variant_names(vs@.subrange(0, i as int)),
        decreases vs@.len() - i,
    {
        let ghost r0 = r@;
        proof {
            assert(vs@.subrange(0, i + 1).drop_last() =~= vs@.subrange(0, i as int));
        }
        if vs[i].optic.is_some() {
            r.push(make_accessor_name(vs[i].name.as_str()));
            proof {
                assert(strings_view(r@) =~= strings_view(r0).push(accessor_name(vs@[i as int].name@)));
            }
        }
        i = i + 1;
    }
    proof {
        assert(vs@.subrange(0, vs@.len() as int) =~= vs@);
    }
    r
}

fn positional_accessor_names(fs: &Vec<PositionalField>) -> (r: Vec<String>)
    ensures
        strings_view(r@) == positional_names(fs@, positional_count(fs@.len())),
{
    let n = if fs.len() < POSITIONAL_LIMIT {
        fs.len()
    } else {
        POSITIONAL_LIMIT
    };
    let mut r: Vec<String> = Vec::new();
    let mut i: usize = 0;
    while i < n
        invariant
            i <= n,
            n == positional_count(fs@.len()),
            n <= fs@.len(),
            n <= POSITIONAL_LIMIT,
            strings_view(r@) == positional_names(fs@, i as nat),
        decreases n - i,
    {
        let ghost r0 = r@;
        if fs[i].optic.is_some() {
            r.push(make_index_name(i));
            proof {
                assert(strings_view(r@) =~= strings_view(r0).push(index_name(i as nat)));
            }
        }
        i = i + 1;
    }
    r
}

fn field_accessor_names(fs: &Vec<NamedField>) -> (r: Vec<String>)
    ensures
        strings_view(r@) == field_names(fs@),
{
    let mut r: Vec<String> = Vec::new();
    let mut i: usize = 0;
    while i < fs.len()
        invariant
            i <= fs@.len(),
            strings_view(r@) == field_names(fs@.subrange(0, i as int)),
        decreases fs@.len() - i,
    {
        let ghost r0 = r@;
        proof {
            assert(fs@.subrange(0, i + 1).drop_last() =~= fs@.subrange(0, i as int));
        }
        if fs[i].optic.is_some() {
            r.push(make_accessor_name(fs[i].name.as_str()));
            proof {
                assert(strings_view(r@) =~= strings_view(r0).push(accessor_name(fs@[i as int].name@)));
            }
        }
        i = i + 1;
    }
    proof {
        assert(fs@.subrange(0, fs@.len() as int) =~= fs@);
    }
    r
}

/// Defines, in order, an accessor for each of `names` that `registry` does not
/// hold yet, and records it there.
pub fn define_accessors(registry: &mut NameRegistry, names: &Vec<String>, flavor: AccessorFlavor) -> (r: Vec<AccessorDef>)
    ensures
        define_from(strings_view(names@), old(registry)@) == (def_names(r@), final(registry)@),
        forall|i: int| 0 <= i < r@.len() ==> #[trigger] r@[i].flavor == flavor,
{
    let ghost ns = strings_view(names@);
    let ghost reg0 = registry@;
    let mut r: Vec<AccessorDef> = Vec::new();
    let mut i: usize = 0;
    proof {
        assert(def_names(r@) =~= Seq::<Seq<char>>::empty());
    }
    while i < names.len()
        invariant
            i <= names@.len(),
            ns == strings_view(names@),
            define_from(ns.subrange(0, i as int), reg0) == (def_names(r@), registry@),
            forall|j: int| 0 <= j < r@.len() ==> #[trigger] r@[j].flavor == flavor,
        decreases names@.len() - i,
    {
        let name = names[i].as_str();
        proof {
            assert(ns.subrange(0, i + 1).drop_last() =~= ns.subrange(0, i as int));
            assert(ns.subrange(0, i + 1).last() == name@);
        }
        if !registry.contains(name) {
            registry.reserve(name);
            let ghost r0 = r@;
            r.push(AccessorDef { name: names[i].clone(), flavor });
            proof {
                assert(def_names(r@) =~= def_names(r0).push(name@));
            }
        }
        i = i + 1;
    }
    proof {
        assert(ns.subrange(0, names@.len() as int) =~= ns);
    }
    r
}

/// Derives the accessor type definitions of a declaration's annotated members:
/// one for each accessor name that `registry` does not hold yet, which is then
/// recorded. Positional fields from index `POSITIONAL_LIMIT` on are left out;
/// a union or other unsupported shape is refused and leaves the registry as it
/// was.
pub fn derive_optic(registry: &mut NameRegistry, decl: &TypeDeclaration) -> (r: Result<Vec<AccessorDef>, DeriveError>)
    ensures
        match candidate_names(decl.shape) {
            None => r is Err && r->Err_0@ == ErrorView::ShapeMismatch && final(registry)@ == old(registry)@,
            Some((names, flavor)) => r is Ok && define_from(names, old(registry)@) == (def_names(r->Ok_0@), final(registry)@)
                && forall|i: int| 0 <= i < r->Ok_0@.len() ==> #[trigger] r->Ok_0@[i].flavor == flavor,
        },
{
    match &decl.shape {
        Shape::Enum(vs) => {
            let names = variant_accessor_names(vs);
            Ok(define_accessors(registry, &names, AccessorFlavor::Variant))
        },
        Shape::NamedStruct(fs) => {
            let names = field_accessor_names(fs);
            Ok(define_accessors(registry, &names, AccessorFlavor::Field))
        },
        Shape::PositionalStruct(fs) => {
            let names = positional_accessor_names(fs);
            Ok(define_accessors(registry, &names, AccessorFlavor::Field))
        },
        Shape::Other => Err(DeriveError::ShapeMismatch),
    }
}

} // verus!
