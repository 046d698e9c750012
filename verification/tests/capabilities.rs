//! The capability catalogue and the supertrait translation.

use dyn_derive::capability::{
    capability_of, entry_for, translate_capabilities, CapabilityKind, FactoryBound,
    ForwardingStyle, InstanceBound,
};

const CATALOGUE: [(&str, &str, &str); 25] = [
    ("PartialEq", "eq", "dyn_eq"),
    ("PartialOrd", "partial_cmp", "dyn_partial_cmp"),
    ("Clone", "clone", "dyn_clone"),
    ("Neg", "neg", "dyn_neg"),
    ("Not", "not", "dyn_not"),
    ("Add", "add", "dyn_add"),
    ("Sub", "sub", "dyn_sub"),
    ("Mul", "mul", "dyn_mul"),
    ("Div", "div", "dyn_div"),
    ("Rem", "rem", "dyn_rem"),
    ("BitAnd", "bitand", "dyn_bitand"),
    ("BitOr", "bitor", "dyn_bitor"),
    ("BitXor", "bitxor", "dyn_bitxor"),
    ("Shl", "shl", "dyn_shl"),
    ("Shr", "shr", "dyn_shr"),
    ("AddAssign", "add_assign", "dyn_add_assign"),
    ("SubAssign", "sub_assign", "dyn_sub_assign"),
    ("MulAssign", "mul_assign", "dyn_mul_assign"),
    ("DivAssign", "div_assign", "dyn_div_assign"),
    ("RemAssign", "rem_assign", "dyn_rem_assign"),
    ("BitAndAssign", "bitand_assign", "dyn_bitand_assign"),
    ("BitOrAssign", "bitor_assign", "dyn_bitor_assign"),
    ("BitXorAssign", "bitxor_assign", "dyn_bitxor_assign"),
    ("ShlAssign", "shl_assign", "dyn_shl_assign"),
    ("ShrAssign", "shr_assign", "dyn_shr_assign"),
];

/// Every catalogue capability yields exactly one forwarding entry whose
/// dynamic method name is the concrete method name prefixed consistently.
#[test]
fn catalogue_is_complete_and_consistently_prefixed() {
    for (name, method, dyn_method) in CATALOGUE.iter() {
        let kind = capability_of(&name.to_string())
            .unwrap_or_else(|| panic!("{} missing from the catalogue", name));
        let entry = entry_for(kind);
        assert_eq!(&entry.method, method);
        assert_eq!(&entry.dyn_method, dyn_method);
        assert_eq!(entry.dyn_method, format!("dyn_{}", entry.method));
    }
}

#[test]
fn catalogue_rejects_foreign_names() {
    assert_eq!(capability_of(&"Debug".to_string()), None);
    assert_eq!(capability_of(&"Sized".to_string()), None);
    assert_eq!(capability_of(&"".to_string()), None);
}

#[test]
fn entry_paths_name_the_twin_traits() {
    assert_eq!(
        entry_for(CapabilityKind::Equality).opaque_path,
        "::dyn_std::cmp::PartialEq"
    );
    assert_eq!(
        entry_for(CapabilityKind::Cloning).opaque_path,
        "::dyn_std::clone::Clone"
    );
    assert_eq!(
        entry_for(CapabilityKind::Addition).opaque_path,
        "::dyn_std::ops::Add"
    );
    assert_eq!(
        entry_for(CapabilityKind::Ordering).style,
        ForwardingStyle::Comparison
    );
    assert_eq!(
        entry_for(CapabilityKind::Complement).style,
        ForwardingStyle::UnaryValue
    );
    assert_eq!(
        entry_for(CapabilityKind::ShiftRightAssign).style,
        ForwardingStyle::CompoundAssign
    );
}

#[test]
fn translation_produces_one_impl_per_capability() {
    let caps: Vec<String> = CATALOGUE.iter().map(|(n, _, _)| n.to_string()).collect();
    let t = translate_capabilities(&caps);
    assert_eq!(t.impls.len(), 25);
    for (i, (name, _, _)) in CATALOGUE.iter().enumerate() {
        assert_eq!(Some(t.impls[i]), capability_of(&name.to_string()));
    }
}

#[test]
fn sizedness_moves_from_the_dynamic_sibling_to_the_factory() {
    let caps = vec![
        "Sized".to_string(),
        "Clone".to_string(),
        "Debug".to_string(),
    ];
    let t = translate_capabilities(&caps);
    // The dynamic-safe sibling loses the sizedness bound, translates the
    // clone capability, keeps the unknown bound, and gains the
    // type-erasure marker.
    assert_eq!(
        t.instance_bounds,
        vec![
            InstanceBound::Translated(CapabilityKind::Cloning),
            InstanceBound::Kept("Debug".to_string()),
            InstanceBound::DynAny,
        ]
    );
    // The factory keeps sizedness where it stood and gains the static
    // lifetime.
    assert_eq!(
        t.factory_bounds,
        vec![
            FactoryBound::SizedBound,
            FactoryBound::Kept("Clone".to_string()),
            FactoryBound::Kept("Debug".to_string()),
            FactoryBound::StaticLifetime,
        ]
    );
    assert_eq!(t.impls, vec![CapabilityKind::Cloning]);
}

#[test]
fn sizedness_is_reinstated_when_absent() {
    let caps = vec!["Add".to_string()];
    let t = translate_capabilities(&caps);
    assert_eq!(
        t.factory_bounds,
        vec![
            FactoryBound::OperatorOutputSelf(CapabilityKind::Addition),
            FactoryBound::SizedBound,
            FactoryBound::StaticLifetime,
        ]
    );
    assert_eq!(
        t.instance_bounds,
        vec![
            InstanceBound::Translated(CapabilityKind::Addition),
            InstanceBound::DynAny,
        ]
    );
}
