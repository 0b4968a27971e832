use vstd::prelude::*;
use crate::directive::OpticMutability;
use crate::model::Generics;

verus! {

/// A capability tier of a generated impl.
#[derive(Clone, Copy, Debug, PartialEq, Eq, Structural)]
pub enum Tier {
    /// By shared reference (`TraversalRef`, `PrismRef`, `LensRef`).
    Ref,
    /// By mutable reference (`TraversalMut`, `PrismMut`, `LensMut`).
    Mut,
    /// By value (`Traversal`, `Prism`, `Lens`).
    Move,
}

/// An optic family: zero or more targets, zero or one, or exactly one.
#[derive(Clone, Copy, Debug, PartialEq, Eq, Structural)]
pub enum Family {
    Traversal,
    Prism,
    Lens,
}

/// Which trait a generated impl implements.
#[derive(Clone, Copy, Debug, PartialEq, Eq, Structural)]
pub enum Capability {
    /// The construction-only `Review` trait.
    Review,
    Optic(Family, Tier),
}

/// The trait of the optic vocabulary that a capability implements.
pub open spec fn trait_of(c: Capability) -> Seq<char> {
    match c {
        Capability::Review => "Review"@,
        Capability::Optic(Family::Traversal, Tier::Move) => "Traversal"@,
        Capability::Optic(Family::Traversal, Tier::Mut) => "TraversalMut"@,
        Capability::Optic(Family::Traversal, Tier::Ref) => "TraversalRef"@,
        Capability::Optic(Family::Prism, Tier::Move) => "Prism"@,
        Capability::Optic(Family::Prism, Tier::Mut) => "PrismMut"@,
        Capability::Optic(Family::Prism, Tier::Ref) => "PrismRef"@,
        Capability::Optic(Family::Lens, Tier::Move) => "Lens"@,
        Capability::Optic(Family::Lens, Tier::Mut) => "LensMut"@,
        Capability::Optic(Family::Lens, Tier::Ref) => "LensRef"@,
    }
}

/// The trait's method that a generated impl defines.
pub open spec fn method_of(c: Capability) -> Seq<char> {
    match c {
        Capability::Review => "review"@,
        Capability::Optic(Family::Traversal, Tier::Move) => "traverse"@,
        Capability::Optic(Family::Traversal, Tier::Mut) => "traverse_mut"@,
        Capability::Optic(Family::Traversal, Tier::Ref) => "traverse_ref"@,
        Capability::Optic(Family::Prism, Tier::Move) => "pm"@,
        Capability::Optic(Family::Prism, Tier::Mut) => "pm_mut"@,
        Capability::Optic(Family::Prism, Tier::Ref) => "pm_ref"@,
        Capability::Optic(Family::Lens, Tier::Move) => "view"@,
        Capability::Optic(Family::Lens, Tier::Mut) => "view_mut"@,
        Capability::Optic(Family::Lens, Tier::Ref) => "view_ref"@,
    }
}

/// The name of the inner optic's type parameter in a generated impl.
pub open spec fn inner_param_of(c: Capability) -> Seq<char> {
    match c {
        Capability::Review => "Rv"@,
        Capability::Optic(Family::Traversal, Tier::Move) => "Tr"@,
        Capability::Optic(Family::Traversal, Tier::Mut) => "Tr"@,
        Capability::Optic(Family::Traversal, Tier::Ref) => "Tr"@,
        Capability::Optic(Family::Prism, Tier::Move) => "Pm"@,
        Capability::Optic(Family::Prism, Tier::Mut) => "Pm"@,
        Capability::Optic(Family::Prism, Tier::Ref) => "Pm"@,
        Capability::Optic(Family::Lens, Tier::Move) => "Ls"@,
        Capability::Optic(Family::Lens, Tier::Mut) => "Ls"@,
        Capability::Optic(Family::Lens, Tier::Ref) => "Ls"@,
    }
}

impl Capability {
    /// The trait's name.
    pub fn trait_name(&self) -> (r: &'static str)
        ensures
            r@ == trait_of(*self),
    {
        match self {
            Capability::Review => "Review",
            Capability::Optic(Family::Traversal, Tier::Move) => "Traversal",
            Capability::Optic(Family::Traversal, Tier::Mut) => "TraversalMut",
            Capability::Optic(Family::Traversal, Tier::Ref) => "TraversalRef",
            Capability::Optic(Family::Prism, Tier::Move) => "Prism",
            Capability::Optic(Family::Prism, Tier::Mut) => "PrismMut",
            Capability::Optic(Family::Prism, Tier::Ref) => "PrismRef",
            Capability::Optic(Family::Lens, Tier::Move) => "Lens",
            Capability::Optic(Family::Lens, Tier::Mut) => "LensMut",
            Capability::Optic(Family::Lens, Tier::Ref) => "LensRef",
        }
    }

    /// The method's name.
    pub fn method_name(&self) -> (r: &'static str)
        ensures
            r@ == method_of(*self),
    {
        match self {
            Capability::Review => "review",
            Capability::Optic(Family::Traversal, Tier::Move) => "traverse",
            Capability::Optic(Family::Traversal, Tier::Mut) => "traverse_mut",
            Capability::Optic(Family::Traversal, Tier::Ref) => "traverse_ref",
            Capability::Optic(Family::Prism, Tier::Move) => "pm",
            Capability::Optic(Family::Prism, Tier::Mut) => "pm_mut",
            Capability::Optic(Family::Prism, Tier::Ref) => "pm_ref",
            Capability::Optic(Family::Lens, Tier::Move) => "view",
            Capability::Optic(Family::Lens, Tier::Mut) => "view_mut",
            Capability::Optic(Family::Lens, Tier::Ref) => "view_ref",
        }
    }

    /// The inner optic's type parameter.
    pub fn inner_param(&self) -> (r: &'static str)
        ensures
            r@ == inner_param_of(*self),
    {
        match self {
            Capability::Review => "Rv",
            Capability::Optic(Family::Traversal, Tier::Move) => "Tr",
            Capability::Optic(Family::Traversal, Tier::Mut) => "Tr",
            Capability::Optic(Family::Traversal, Tier::Ref) => "Tr",
            Capability::Optic(Family::Prism, Tier::Move) => "Pm",
            Capability::Optic(Family::Prism, Tier::Mut) => "Pm",
            Capability::Optic(Family::Prism, Tier::Ref) => "Pm",
            Capability::Optic(Family::Lens, Tier::Move) => "Ls",
            Capability::Optic(Family::Lens, Tier::Mut) => "Ls",
            Capability::Optic(Family::Lens, Tier::Ref) => "Ls",
        }
    }
}

/// The two kinds of accessor type definitions: the one for enum variants also
/// derives equality and `Debug`; the one for struct fields allows its
/// lower-case name.
#[derive(Clone, Copy, Debug, PartialEq, Eq, Structural)]
pub enum AccessorFlavor {
    Variant,
    Field,
}

/// How a generated impl reaches its target inside the source value.
#[derive(Debug)]
pub enum Access {
    /// Through the named field.
    Field(String),
    /// Through the positional field of this index.
    Index(usize),
    /// Through the payload of this variant; a source holding another variant
    /// has no target.
    Variant(String),
}

pub enum AccessView {
    Field(Seq<char>),
    Index(nat),
    Variant(Seq<char>),
}

impl View for Access {
    type V = AccessView;

    open spec fn view(&self) -> AccessView {
        match self {
            Access::Field(s) => AccessView::Field(s@),
            Access::Index(i) => AccessView::Index(*i as nat),
            Access::Variant(s) => AccessView::Variant(s@),
        }
    }
}

impl Access {
    pub fn copy(&self) -> (r: Access)
        ensures
            r@ == self@,
    {
        match self {
            Access::Field(s) => Access::Field(s.clone()),
            Access::Index(i) => Access::Index(*i),
            Access::Variant(s) => Access::Variant(s.clone()),
        }
    }
}

/// What the body of a generated traversal-like impl yields, given the variant
/// that the source holds (`None` for a struct) and what the inner optic yields
/// on the member reached: a field or position always hands on the inner result;
/// a variant hands it on only when the source holds that variant, and yields
/// nothing otherwise.
pub open spec fn focus<T>(access: AccessView, held: Option<Seq<char>>, inner: Seq<T>) -> Seq<T> {
    match access {
        AccessView::Variant(v) => if held == Some(v) {
            inner
        } else {
            seq![]
        },
        _ => inner,
    }
}

/// The variant that a value built by a review impl with this access holds.
pub open spec fn built_variant(access: AccessView) -> Option<Seq<char>> {
    match access {
        AccessView::Variant(v) => Some(v),
        _ => None,
    }
}

/// A generated accessor type: `pub struct <name><Optic>(pub Optic);`.
#[derive(Debug)]
pub struct AccessorDef {
    pub name: String,
    pub flavor: AccessorFlavor,
}

/// One generated impl of `capability`'s trait for the accessor type `accessor`
/// over the owning type, whose inner optic is applied to the value of type
/// `target` that `access` reaches.
#[derive(Debug)]
pub struct OpticImpl {
    pub accessor: String,
    pub target: String,
    pub access: Access,
    pub capability: Capability,
}

pub struct ImplView {
    pub accessor: Seq<char>,
    pub target: Seq<char>,
    pub access: AccessView,
    pub capability: Capability,
}

impl View for OpticImpl {
    type V = ImplView;

    open spec fn view(&self) -> ImplView {
        ImplView {
            accessor: self.accessor@,
            target: self.target@,
            access: self.access@,
            capability: self.capability,
        }
    }
}

/// The impls derived for one owning type, with the owner's name and generics,
/// which every impl carries over.
#[derive(Debug)]
pub struct Derived {
    pub owner: String,
    pub generics: Generics,
    pub impls: Vec<OpticImpl>,
}

pub open spec fn impl_views(v: Seq<OpticImpl>) -> Seq<ImplView> {
    v.map_values(|i: OpticImpl| i@)
}

/// The impls of one tier: a struct field gets all three families, an enum
/// variant the traversal and the prism.
pub open spec fn tier_block(lens: bool, t: Tier) -> Seq<Capability> {
    if lens {
        seq![
            Capability::Optic(Family::Traversal, t),
            Capability::Optic(Family::Prism, t),
            Capability::Optic(Family::Lens, t),
        ]
    } else {
        seq![Capability::Optic(Family::Traversal, t), Capability::Optic(Family::Prism, t)]
    }
}

/// The tiers a mode grants: `Ref` the read-only one, `Mut` also the mutable
/// one, `Move` also the owning one.
pub open spec fn mode_caps(lens: bool, m: OpticMutability) -> Seq<Capability> {
    match m {
        OpticMutability::Ref => tier_block(lens, Tier::Ref),
        OpticMutability::Mut => tier_block(lens, Tier::Mut) + tier_block(lens, Tier::Ref),
        OpticMutability::Move => tier_block(lens, Tier::Move) + tier_block(lens, Tier::Mut)
            + tier_block(lens, Tier::Ref),
    }
}

pub open spec fn member_impls(
    caps: Seq<Capability>,
    accessor: Seq<char>,
    target: Seq<char>,
    access: AccessView,
) -> Seq<ImplView> {
    caps.map_values(|c: Capability| ImplView { accessor, target, access, capability: c })
}

proof fn lemma_member_impls_append(
    a: Seq<Capability>,
    b: Seq<Capability>,
    accessor: Seq<char>,
    target: Seq<char>,
    access: AccessView,
)
    ensures
        member_impls(a + b, accessor, target, access) == member_impls(a, accessor, target, access)
            + member_impls(b, accessor, target, access),
{
    assert(member_impls(a + b, accessor, target, access) =~= member_impls(a, accessor, target, access)
        + member_impls(b, accessor, target, access));
}

fn push_impl(out: &mut Vec<OpticImpl>, accessor: &String, target: &String, access: &Access, c: Capability)
    ensures
        impl_views(final(out)@) == impl_views(old(out)@).push(
            (ImplView { accessor: accessor@, target: target@, access: access@, capability: c }),
        ),
{
    let ghost o = out@;
    out.push(OpticImpl { accessor: accessor.clone(), target: target.clone(), access: access.copy(), capability: c });
    proof {
        assert(impl_views(out@) =~= impl_views(o).push(
            ImplView { accessor: accessor@, target: target@, access: access@, capability: c },
        ));
    }
}

fn push_tier(out: &mut Vec<OpticImpl>, lens: bool, t: Tier, accessor: &String, target: &String, access: &Access)
    ensures
        impl_views(final(out)@) == impl_views(old(out)@) + member_impls(tier_block(lens, t), accessor@, target@, access@),
{
    let ghost o = impl_views(out@);
    push_impl(out, accessor, target, access, Capability::Optic(Family::Traversal, t));
    push_impl(out, accessor, target, access, Capability::Optic(Family::Prism, t));
    if lens {
        push_impl(out, accessor, target, access, Capability::Optic(Family::Lens, t));
    }
    proof {
        assert(impl_views(out@) =~= o + member_impls(tier_block(lens, t), accessor@, target@, access@));
    }
}

/// Appends the impls that mode `m` grants to one member, tier by tier from
/// the owning one down.
pub fn push_member_impls(
    out: &mut Vec<OpticImpl>,
    lens: bool,
    m: OpticMutability,
    accessor: &String,
    target: &String,
    access: &Access,
)
    ensures
        impl_views(final(out)@) == impl_views(old(out)@) + member_impls(mode_caps(lens, m), accessor@, target@, access@),
{
    let ghost o = impl_views(out@);
    let ghost a = accessor@;
    let ghost ty = target@;
    let ghost x = access@;
    match m {
        OpticMutability::Ref => {
            push_tier(out, lens, Tier::Ref, accessor, target, access);
        },
        OpticMutability::Mut => {
            push_tier(out, lens, Tier::Mut, accessor, target, access);
            push_tier(out, lens, Tier::Ref, accessor, target, access);
            proof {
                lemma_member_impls_append(tier_block(lens, Tier::Mut), tier_block(lens, Tier::Ref), a, ty, x);
                assert(impl_views(out@) =~= o + member_impls(mode_caps(lens, m), a, ty, x));
            }
        },
        OpticMutability::Move => {
            push_tier(out, lens, Tier::Move, accessor, target, access);
            push_tier(out, lens, Tier::Mut, accessor, target, access);
            push_tier(out, lens, Tier::Ref, accessor, target, access);
            proof {
                lemma_member_impls_append(tier_block(lens, Tier::Move), tier_block(lens, Tier::Mut), a, ty, x);
                lemma_member_impls_append(
                    tier_block(lens, Tier::Move) + tier_block(lens, Tier::Mut),
                    tier_block(lens, Tier::Ref),
                    a,
                    ty,
                    x,
                );
                assert(impl_views(out@) =~= o + member_impls(mode_caps(lens, m), a, ty, x));
            }
        },
    }
}

} // verus!
