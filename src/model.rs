use vstd::prelude::*;

verus! {

/// An enum variant: its name, the types of its fields (only the first is ever
/// a target) and, when annotated, the annotation's payload.
#[derive(Debug)]
pub struct Variant {
    pub name: String,
    pub fields: Vec<String>,
    pub optic: Option<String>,
}

/// A named struct field: its name, declared type and annotation payload.
#[derive(Debug)]
pub struct NamedField {
    pub name: String,
    pub ty: String,
    pub optic: Option<String>,
}

/// A positional struct field; its index is its place in the field list.
#[derive(Debug)]
pub struct PositionalField {
    pub ty: String,
    pub optic: Option<String>,
}

/// The shape of a declaration.
#[derive(Debug)]
pub enum Shape {
    Enum(Vec<Variant>),
    NamedStruct(Vec<NamedField>),
    PositionalStruct(Vec<PositionalField>),
    /// A union, a field-less struct or any shape that no derivation supports.
    Other,
}

/// The generic parameters and where-clause predicates of a declaration, each as
/// source text.
#[derive(Debug)]
pub struct Generics {
    pub params: Vec<String>,
    pub predicates: Vec<String>,
}

/// The subject of a derivation.
#[derive(Debug)]
pub struct TypeDeclaration {
    pub name: String,
    pub generics: Generics,
    pub shape: Shape,
}

pub open spec fn strings_view(v: Seq<String>) -> Seq<Seq<char>> {
    v.map_values(|s: String| s@)
}

pub struct GenericsView {
    pub params: Seq<Seq<char>>,
    pub predicates: Seq<Seq<char>>,
}

impl View for Generics {
    type V = GenericsView;

    open spec fn view(&self) -> GenericsView {
        GenericsView { params: strings_view(self.params@), predicates: strings_view(self.predicates@) }
    }
}

/// A copy of a list of strings.
pub fn copy_strings(v: &Vec<String>) -> (r: Vec<String>)
    ensures
        strings_view(r@) == strings_view(v@),
{
    let mut r: Vec<String> = Vec::new();
    let mut i: usize = 0;
    while i < v.len()
        invariant
            i <= v@.len(),
            strings_view(r@) == strings_view(v@.subrange(0, i as int)),
        decreases v@.len() - i,
    {
        let ghost r0 = r@;
        let s = v[i].clone();
        r.push(s);
        proof {
            assert(r@ =~= r0.push(v@[i as int]));
            assert(strings_view(r0.push(v@[i as int])) =~= strings_view(r0).push(v@[i as int]@));
            assert(v@.subrange(0, i + 1) =~= v@.subrange(0, i as int).push(v@[i as int]));
            assert(strings_view(r@) =~= strings_view(v@.subrange(0, i + 1)));
        }
        i = i + 1;
    }
    proof {
        assert(v@.subrange(0, v@.len() as int) =~= v@);
    }
    r
}

impl Generics {
    pub fn copy(&self) -> (r: Generics)
        ensures
            r@ == self@,
    {
        Generics { params: copy_strings(&self.params), predicates: copy_strings(&self.predicates) }
    }
}

} // verus!
