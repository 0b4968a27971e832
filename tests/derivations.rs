use lens_rs_derive::derive::{derive_lens, derive_optic, derive_prism, derive_review, DeriveError};
use lens_rs_derive::directive::OpticMutability;
use lens_rs_derive::emit::{Access, AccessorFlavor, Capability, Family, OpticImpl, Tier};
use lens_rs_derive::model::{Generics, NamedField, PositionalField, Shape, TypeDeclaration, Variant};
use lens_rs_derive::registry::NameRegistry;

fn s(x: &str) -> String {
    x.to_string()
}

fn no_generics() -> Generics {
    Generics { params: vec![], predicates: vec![] }
}

fn variant(name: &str, fields: &[&str], optic: Option<&str>) -> Variant {
    Variant { name: s(name), fields: fields.iter().map(|f| s(f)).collect(), optic: optic.map(s) }
}

fn field(name: &str, ty: &str, optic: Option<&str>) -> NamedField {
    NamedField { name: s(name), ty: s(ty), optic: optic.map(s) }
}

fn decl(name: &str, shape: Shape) -> TypeDeclaration {
    TypeDeclaration { name: s(name), generics: no_generics(), shape }
}

fn caps(impls: &[OpticImpl]) -> Vec<Capability> {
    impls.iter().map(|i| i.capability).collect()
}

fn optic(f: Family, t: Tier) -> Capability {
    Capability::Optic(f, t)
}

#[test]
fn parse_empty_payload_is_move() {
    assert_eq!(OpticMutability::parse(""), Some(OpticMutability::Move));
    assert_eq!(OpticMutability::parse("  "), Some(OpticMutability::Move));
}

#[test]
fn parse_parenthesised_keywords() {
    assert_eq!(OpticMutability::parse("(mut)"), Some(OpticMutability::Mut));
    assert_eq!(OpticMutability::parse("(ref)"), Some(OpticMutability::Ref));
    assert_eq!(OpticMutability::parse(" ( mut ) "), Some(OpticMutability::Mut));
}

#[test]
fn parse_refuses_other_payloads() {
    assert_eq!(OpticMutability::parse("(foo)"), None);
    assert_eq!(OpticMutability::parse("mut"), None);
    assert_eq!(OpticMutability::parse("(mut x)"), None);
    assert_eq!(OpticMutability::parse("(mut) x"), None);
    assert_eq!(OpticMutability::parse("()"), None);
    assert_eq!(OpticMutability::parse("(m ut)"), None);
}

#[test]
fn registry_starts_with_reserved_names() {
    let r = NameRegistry::new();
    for n in ["_Ok", "_Err", "_Some", "_None"] {
        assert!(r.contains(n));
    }
    assert!(!r.contains("_id"));
}

#[test]
fn registry_reserve_is_idempotent() {
    let mut r = NameRegistry::new();
    r.reserve("_id");
    r.reserve("_id");
    assert!(r.contains("_id"));
    assert!(!r.contains("_i"));
}

#[test]
fn optic_defines_each_name_once_per_session() {
    let mut reg = NameRegistry::new();
    let a = decl("A", Shape::NamedStruct(vec![field("id", "u32", Some("")), field("x", "u8", None)]));
    let b = decl("B", Shape::NamedStruct(vec![field("id", "u64", Some("(ref)")), field("name", "String", Some(""))]));
    let da = derive_optic(&mut reg, &a).unwrap();
    assert_eq!(da.len(), 1);
    assert_eq!(da[0].name, "_id");
    assert_eq!(da[0].flavor, AccessorFlavor::Field);
    let db = derive_optic(&mut reg, &b).unwrap();
    assert_eq!(db.len(), 1);
    assert_eq!(db[0].name, "_name");
    assert!(derive_optic(&mut reg, &a).unwrap().is_empty());
}

#[test]
fn optic_skips_reserved_variant_names() {
    let mut reg = NameRegistry::new();
    let e = decl(
        "Maybe",
        Shape::Enum(vec![variant("Some", &["T"], Some("")), variant("Leaf", &["u8"], Some("")), variant("Other", &[], None)]),
    );
    let d = derive_optic(&mut reg, &e).unwrap();
    assert_eq!(d.len(), 1);
    assert_eq!(d[0].name, "_Leaf");
    assert_eq!(d[0].flavor, AccessorFlavor::Variant);
    assert!(reg.contains("_Leaf"));
}

#[test]
fn optic_defines_positional_accessors_by_index() {
    let mut reg = NameRegistry::new();
    let t = decl(
        "P",
        Shape::PositionalStruct(vec![
            PositionalField { ty: s("u8"), optic: None },
            PositionalField { ty: s("u16"), optic: Some(s("")) },
        ]),
    );
    let d = derive_optic(&mut reg, &t).unwrap();
    assert_eq!(d.len(), 1);
    assert_eq!(d[0].name, "_1");
    assert_eq!(d[0].flavor, AccessorFlavor::Field);
    assert!(reg.contains("_1"));
    assert!(!reg.contains("_0"));
}

#[test]
fn optic_positional_names_shared_across_types() {
    let mut reg = NameRegistry::new();
    let a = decl("A", Shape::PositionalStruct(vec![PositionalField { ty: s("u8"), optic: Some(s("")) }]));
    let b = decl("B", Shape::PositionalStruct(vec![PositionalField { ty: s("i8"), optic: Some(s("(ref)")) }]));
    let da = derive_optic(&mut reg, &a).unwrap();
    let db = derive_optic(&mut reg, &b).unwrap();
    assert_eq!(da.len() + db.len(), 1);
    assert_eq!(da[0].name, "_0");
}

#[test]
fn optic_positional_index_seven_is_out_of_scope() {
    let mut reg = NameRegistry::new();
    let mut fs: Vec<PositionalField> = (0..8).map(|_| PositionalField { ty: s("u8"), optic: None }).collect();
    fs[7].optic = Some(s(""));
    assert!(derive_optic(&mut reg, &decl("Wide", Shape::PositionalStruct(fs))).unwrap().is_empty());
    assert!(!reg.contains("_7"));
}

#[test]
fn malformed_positional_directive_is_rejected() {
    let fs = vec![PositionalField { ty: s("u8"), optic: Some(s("(foo)")) }];
    let e = derive_lens(&decl("T", Shape::PositionalStruct(fs))).unwrap_err();
    assert!(matches!(&e, DeriveError::MalformedDirective(m) if m == "_0"));
}

#[test]
fn capability_names() {
    assert_eq!(Capability::Review.trait_name(), "Review");
    assert_eq!(Capability::Review.method_name(), "review");
    assert_eq!(Capability::Review.inner_param(), "Rv");
    let c = optic(Family::Traversal, Tier::Mut);
    assert_eq!((c.trait_name(), c.method_name(), c.inner_param()), ("TraversalMut", "traverse_mut", "Tr"));
    let c = optic(Family::Prism, Tier::Move);
    assert_eq!((c.trait_name(), c.method_name(), c.inner_param()), ("Prism", "pm", "Pm"));
    let c = optic(Family::Lens, Tier::Ref);
    assert_eq!((c.trait_name(), c.method_name(), c.inner_param()), ("LensRef", "view_ref", "Ls"));
}

#[test]
fn optic_refuses_other_shapes() {
    let mut reg = NameRegistry::new();
    assert!(matches!(derive_optic(&mut reg, &decl("U", Shape::Other)), Err(DeriveError::ShapeMismatch)));
}

#[test]
fn lens_move_field_gets_all_tiers() {
    let d = decl("P", Shape::NamedStruct(vec![field("x", "i32", Some("")), field("y", "i32", None)]));
    let out = derive_lens(&d).unwrap();
    assert_eq!(out.owner, "P");
    assert_eq!(
        caps(&out.impls),
        vec![
            optic(Family::Traversal, Tier::Move),
            optic(Family::Prism, Tier::Move),
            optic(Family::Lens, Tier::Move),
            optic(Family::Traversal, Tier::Mut),
            optic(Family::Prism, Tier::Mut),
            optic(Family::Lens, Tier::Mut),
            optic(Family::Traversal, Tier::Ref),
            optic(Family::Prism, Tier::Ref),
            optic(Family::Lens, Tier::Ref),
        ]
    );
    for i in &out.impls {
        assert_eq!(i.accessor, "_x");
        assert_eq!(i.target, "i32");
        assert!(matches!(&i.access, Access::Field(f) if f == "x"));
    }
}

#[test]
fn lens_tiers_shrink_with_mode() {
    let m = derive_lens(&decl("P", Shape::NamedStruct(vec![field("x", "i32", Some("(mut)"))]))).unwrap();
    assert_eq!(
        caps(&m.impls),
        vec![
            optic(Family::Traversal, Tier::Mut),
            optic(Family::Prism, Tier::Mut),
            optic(Family::Lens, Tier::Mut),
            optic(Family::Traversal, Tier::Ref),
            optic(Family::Prism, Tier::Ref),
            optic(Family::Lens, Tier::Ref),
        ]
    );
    let r = derive_lens(&decl("P", Shape::NamedStruct(vec![field("x", "i32", Some("(ref)"))]))).unwrap();
    assert_eq!(
        caps(&r.impls),
        vec![optic(Family::Traversal, Tier::Ref), optic(Family::Prism, Tier::Ref), optic(Family::Lens, Tier::Ref)]
    );
}

#[test]
fn lens_keeps_owner_generics() {
    let d = TypeDeclaration {
        name: s("W"),
        generics: Generics { params: vec![s("T")], predicates: vec![s("T : Clone")] },
        shape: Shape::NamedStruct(vec![field("inner", "T", Some("(ref)"))]),
    };
    let out = derive_lens(&d).unwrap();
    assert_eq!(out.generics.params, vec![s("T")]);
    assert_eq!(out.generics.predicates, vec![s("T : Clone")]);
}

#[test]
fn lens_positional_uses_field_index() {
    let fs = vec![
        PositionalField { ty: s("u8"), optic: None },
        PositionalField { ty: s("u16"), optic: None },
        PositionalField { ty: s("u32"), optic: Some(s("(ref)")) },
    ];
    let out = derive_lens(&decl("T", Shape::PositionalStruct(fs))).unwrap();
    assert_eq!(out.impls.len(), 3);
    for i in &out.impls {
        assert_eq!(i.accessor, "_2");
        assert_eq!(i.target, "u32");
        assert!(matches!(i.access, Access::Index(2)));
    }
}

#[test]
fn lens_positional_index_seven_is_out_of_scope() {
    let mut fs: Vec<PositionalField> = (0..8).map(|_| PositionalField { ty: s("u8"), optic: None }).collect();
    fs[7].optic = Some(s(""));
    let out = derive_lens(&decl("Wide", Shape::PositionalStruct(fs))).unwrap();
    assert!(out.impls.is_empty());
}

#[test]
fn lens_refuses_enums() {
    let e = decl("E", Shape::Enum(vec![variant("A", &["u8"], Some(""))]));
    assert!(matches!(derive_lens(&e), Err(DeriveError::ShapeMismatch)));
    assert!(matches!(derive_lens(&decl("U", Shape::Other)), Err(DeriveError::ShapeMismatch)));
}

#[test]
fn malformed_field_directive_is_rejected() {
    let d = decl("P", Shape::NamedStruct(vec![field("a", "u8", Some("")), field("b", "u8", Some("(foo)"))]));
    let e = derive_lens(&d).unwrap_err();
    assert!(matches!(&e, DeriveError::MalformedDirective(m) if m == "_b"));
    let msg = e.message();
    assert!(msg.contains("#[optic]") && msg.contains("#[optic(mut)]") && msg.contains("#[optic(ref)]"));
    assert!(msg.ends_with("_b"));
}

#[test]
fn malformed_variant_directive_is_rejected() {
    let d = decl("E", Shape::Enum(vec![variant("A", &["u8"], Some("(foo)"))]));
    let e = derive_prism(&d).unwrap_err();
    assert!(matches!(&e, DeriveError::MalformedDirective(m) if m == "_A"));
    assert_eq!(e.message(), "only allow #[optic], #[optic(mut)] or #[optic(ref)] here: _A");
}

#[test]
fn prism_tiers_and_access() {
    let d = decl(
        "E",
        Shape::Enum(vec![variant("A", &["u8", "u16"], Some("")), variant("B", &["u8"], None), variant("C", &["i64"], Some("(ref)"))]),
    );
    let out = derive_prism(&d).unwrap();
    assert_eq!(
        caps(&out.impls),
        vec![
            optic(Family::Traversal, Tier::Move),
            optic(Family::Prism, Tier::Move),
            optic(Family::Traversal, Tier::Mut),
            optic(Family::Prism, Tier::Mut),
            optic(Family::Traversal, Tier::Ref),
            optic(Family::Prism, Tier::Ref),
            optic(Family::Traversal, Tier::Ref),
            optic(Family::Prism, Tier::Ref),
        ]
    );
    assert_eq!(out.impls[0].accessor, "_A");
    assert_eq!(out.impls[0].target, "u8");
    assert!(matches!(&out.impls[0].access, Access::Variant(v) if v == "A"));
    assert_eq!(out.impls[7].accessor, "_C");
    assert_eq!(out.impls[7].target, "i64");
}

#[test]
fn prism_refuses_structs_and_empty_variants() {
    let st = decl("P", Shape::NamedStruct(vec![field("x", "u8", Some(""))]));
    assert!(matches!(derive_prism(&st), Err(DeriveError::ShapeMismatch)));
    let e = decl("E", Shape::Enum(vec![variant("Unit", &[], Some(""))]));
    assert!(matches!(derive_prism(&e), Err(DeriveError::EmptyVariant(v)) if v == "Unit"));
}

#[test]
fn review_one_impl_per_annotated_variant() {
    let d = decl(
        "E",
        Shape::Enum(vec![variant("A", &["u8"], Some("(ref)")), variant("B", &["u8"], None), variant("C", &["String"], Some(""))]),
    );
    let out = derive_review(&d).unwrap();
    assert_eq!(caps(&out.impls), vec![Capability::Review, Capability::Review]);
    assert_eq!(out.impls[0].accessor, "_A");
    assert_eq!(out.impls[1].accessor, "_C");
    assert_eq!(out.impls[1].target, "String");
    assert!(matches!(&out.impls[1].access, Access::Variant(v) if v == "C"));
}

#[test]
fn review_matches_a_read_only_prism() {
    let d = decl("E", Shape::Enum(vec![variant("A", &["u8"], Some("(mut)"))]));
    let r = derive_review(&d).unwrap();
    let p = derive_prism(&d).unwrap();
    let found = p.impls.iter().any(|i| {
        i.capability == optic(Family::Prism, Tier::Ref)
            && i.accessor == r.impls[0].accessor
            && i.target == r.impls[0].target
    });
    assert!(found);
}

#[test]
fn review_refuses_structs() {
    let st = decl("P", Shape::NamedStruct(vec![field("x", "u8", Some(""))]));
    assert!(matches!(derive_review(&st), Err(DeriveError::ShapeMismatch)));
    let e = decl("E", Shape::Enum(vec![variant("Unit", &[], Some(""))]));
    assert!(matches!(derive_review(&e), Err(DeriveError::EmptyVariant(v)) if v == "Unit"));
}
