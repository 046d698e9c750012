//! End-to-end scenarios: whole-interface transformation and the runtime
//! meaning of the generated conversions.

use dyn_derive::classify::OccurrenceShape;
use dyn_derive::equality::{
    equal_values, DataShape, DataValue, DataVariant, FieldList,
};
use dyn_derive::generate::{Direction, GenExpr};
use dyn_derive::model::{
    ClosureKind, GenError, InterfaceDefinition, MethodParameter, MethodSignature, ReceiverKind,
    TypeExpression,
};
use dyn_derive::rewrite::{
    build_interface, get_full_name, transform, RawInterface, RawParameter, RawParamKind, Sibling,
};
use dyn_derive::values::{
    call_exclusive, call_once, call_shared, convert_value, FuncBody, FuncValue, Value,
};

fn named(path: &str, args: Vec<TypeExpression>) -> TypeExpression {
    TypeExpression::Named {
        path: path.to_string(),
        args,
    }
}

fn self_ty() -> TypeExpression {
    named("Meta", vec![])
}

fn meta_interface(methods: Vec<MethodSignature>) -> InterfaceDefinition {
    InterfaceDefinition {
        name: "Meta".to_string(),
        generics: vec![],
        capabilities: vec!["PartialEq".to_string(), "Clone".to_string()],
        methods,
    }
}

/// Scenario A: `combine(&self, other: Self) -> Self` on an interface
/// declaring equality and cloning.
#[test]
fn combine_method_is_rewritten_onto_the_dynamic_sibling() {
    let iface = meta_interface(vec![MethodSignature {
        name: "combine".to_string(),
        receiver: ReceiverKind::ByReference,
        params: vec![MethodParameter {
            name: "other".to_string(),
            ty: self_ty(),
        }],
        ret: self_ty(),
    }]);
    let bundle = transform(&iface).unwrap();
    assert_eq!(bundle.interface_name, "Meta");
    assert_eq!(bundle.instance_name, "MetaInstance");
    assert_eq!(bundle.constructor_name, "MetaConstructor");
    assert_eq!(bundle.constructor_methods.len(), 0);
    assert_eq!(bundle.instance_methods.len(), 1);
    let m = &bundle.instance_methods[0];
    assert_eq!(m.name, "combine");
    assert_eq!(m.target, Sibling::DynamicSafe);
    assert_eq!(m.receiver, ReceiverKind::ByReference);
    assert!(!m.boxed_receiver);
    // The parameter and the return type both become the opaque handle.
    let handle = TypeExpression::Boxed {
        inner: Box::new(named("MetaInstance", vec![])),
    };
    assert_eq!(m.params[0].ty, handle);
    assert_eq!(m.ret, handle);
    // The body unwraps the argument, calls the concrete method, and wraps
    // the result.
    assert_eq!(
        m.body,
        GenExpr::WrapHandle {
            arg: Box::new(GenExpr::SelfCall {
                method: "combine".to_string(),
                args: vec![GenExpr::Downcast {
                    mode: dyn_derive::generate::AccessMode::Owned,
                    arg: Box::new(GenExpr::Param { depth: 0, index: 0 }),
                }],
            }),
        }
    );
}

/// Scenario A at the value level: two texts wrapped as opaque handles,
/// combined concretely, and the result wrapped and unwrapped again.
#[test]
fn combine_values_round_trip() {
    let foo = Value::Text("foo".to_string());
    let bar = Value::Text("bar".to_string());
    let h_foo = convert_value(&OccurrenceShape::Direct, Direction::Wrap, &foo).unwrap();
    let h_bar = convert_value(&OccurrenceShape::Direct, Direction::Wrap, &bar).unwrap();
    // Equality of two handles wrapping the same text.
    let h_foo2 = convert_value(&OccurrenceShape::Direct, Direction::Wrap, &foo).unwrap();
    assert_eq!(h_foo, h_foo2);
    // Unwrap both sides, combine concretely, wrap and unwrap the result.
    let a = convert_value(&OccurrenceShape::Direct, Direction::Unwrap, &h_foo).unwrap();
    let b = convert_value(&OccurrenceShape::Direct, Direction::Unwrap, &h_bar).unwrap();
    let (sa, sb) = match (&a, &b) {
        (Value::Text(x), Value::Text(y)) => (x.clone(), y.clone()),
        other => panic!("expected texts, got {:?}", other),
    };
    let combined = Value::Text(format!("{}{}", sa, sb));
    let wrapped = convert_value(&OccurrenceShape::Direct, Direction::Wrap, &combined).unwrap();
    let unwrapped = convert_value(&OccurrenceShape::Direct, Direction::Unwrap, &wrapped).unwrap();
    assert_eq!(unwrapped, Value::Text("foobar".to_string()));
}

/// Scenario B: `transform(&self, items: Vec<Self>) -> Vec<Self>` — a
/// container of three handles unwraps, round-trips through the arity-one
/// map primitive, and rewraps preserving order.
#[test]
fn container_of_three_preserves_order() {
    let shape = OccurrenceShape::GenericArgs {
        args: vec![dyn_derive::classify::ArgShape {
            shape: OccurrenceShape::Direct,
            original: self_ty(),
            converted: named("MetaInstance", vec![]),
        }],
    };
    let items = Value::Container(vec![
        vec![Value::Text("a".to_string())],
        vec![Value::Text("b".to_string())],
        vec![Value::Text("c".to_string())],
    ]);
    let wrapped = convert_value(&shape, Direction::Wrap, &items).unwrap();
    match &wrapped {
        Value::Container(entries) => {
            assert_eq!(entries.len(), 3);
            assert_eq!(
                entries[0][0],
                Value::Handle(Box::new(Value::Text("a".to_string())))
            );
            assert_eq!(
                entries[2][0],
                Value::Handle(Box::new(Value::Text("c".to_string())))
            );
        }
        other => panic!("expected a container, got {:?}", other),
    }
    let back = convert_value(&shape, Direction::Unwrap, &wrapped).unwrap();
    assert_eq!(back, items);
}

/// Round trips for the remaining shape categories: tuples of arity two
/// and three, boxes, and references.
#[test]
fn tuple_box_reference_round_trips() {
    let pair_shape = OccurrenceShape::TupleElems {
        elems: vec![OccurrenceShape::Direct, OccurrenceShape::NoConversion],
    };
    let pair = Value::Tuple(vec![
        Value::Text("x".to_string()),
        Value::Number(7),
    ]);
    let w = convert_value(&pair_shape, Direction::Wrap, &pair).unwrap();
    assert_eq!(convert_value(&pair_shape, Direction::Unwrap, &w).unwrap(), pair);

    let triple_shape = OccurrenceShape::TupleElems {
        elems: vec![
            OccurrenceShape::Direct,
            OccurrenceShape::Direct,
            OccurrenceShape::NoConversion,
        ],
    };
    let triple = Value::Tuple(vec![
        Value::Number(1),
        Value::Number(2),
        Value::Number(3),
    ]);
    let w = convert_value(&triple_shape, Direction::Wrap, &triple).unwrap();
    assert_eq!(
        convert_value(&triple_shape, Direction::Unwrap, &w).unwrap(),
        triple
    );

    let boxed_shape = OccurrenceShape::Wrapped {
        wrapper: dyn_derive::classify::WrapperKind::OwnedBox,
        inner: Box::new(OccurrenceShape::Direct),
    };
    let boxed = Value::Boxed(Box::new(Value::Number(42)));
    let w = convert_value(&boxed_shape, Direction::Wrap, &boxed).unwrap();
    assert_eq!(
        convert_value(&boxed_shape, Direction::Unwrap, &w).unwrap(),
        boxed
    );

    let ref_shape = OccurrenceShape::Wrapped {
        wrapper: dyn_derive::classify::WrapperKind::SharedRef,
        inner: Box::new(OccurrenceShape::Direct),
    };
    let v = Value::Number(5);
    let w = convert_value(&ref_shape, Direction::Wrap, &v).unwrap();
    assert_eq!(convert_value(&ref_shape, Direction::Unwrap, &w).unwrap(), v);
}

/// A direct unwrap of something that is not a handle is the loud
/// invariant violation of the generated downcast.
#[test]
fn mismatched_downcast_fails_loudly() {
    let v = Value::Number(1);
    assert!(convert_value(&OccurrenceShape::Direct, Direction::Unwrap, &v).is_err());
}

fn once_crossing() -> OccurrenceShape {
    OccurrenceShape::ClosureCrossing {
        kind: ClosureKind::OnceCall,
        args: vec![OccurrenceShape::Direct],
        ret: Box::new(OccurrenceShape::Direct),
    }
}

/// Scenario C: `apply_once(&self, f: Box<dyn FnOnce(Self) -> Self>)` —
/// the adapter is consumed by its single invocation; the value moves into
/// `call_once`, so a second invocation does not compile.
#[test]
fn once_adapter_invoked_exactly_once() {
    let base = FuncValue {
        kind: ClosureKind::OnceCall,
        body: FuncBody::Identity,
    };
    let adapted = convert_value(&once_crossing(), Direction::Wrap, &Value::Func(Box::new(base)))
        .unwrap();
    let f = match adapted {
        Value::Func(f) => *f,
        other => panic!("expected a closure value, got {:?}", other),
    };
    assert_eq!(f.kind, ClosureKind::OnceCall);
    // The adapter unwraps the handle it receives, runs the captured
    // closure, and wraps what comes back.
    let arg = Value::Handle(Box::new(Value::Text("once".to_string())));
    let out = call_once(f, vec![arg]).unwrap();
    assert_eq!(out, Value::Handle(Box::new(Value::Text("once".to_string()))));
    // `f` has moved into `call_once`; using it again is rejected at
    // compile time, which is exactly the cardinality the crossing asks.
}

/// A shared adapter can be invoked any number of times without consuming
/// its capture.
#[test]
fn shared_adapter_invoked_repeatedly() {
    let base = FuncValue {
        kind: ClosureKind::SharedCall,
        body: FuncBody::Identity,
    };
    let crossing = OccurrenceShape::ClosureCrossing {
        kind: ClosureKind::SharedCall,
        args: vec![OccurrenceShape::Direct],
        ret: Box::new(OccurrenceShape::Direct),
    };
    let adapted = convert_value(&crossing, Direction::Wrap, &Value::Func(Box::new(base))).unwrap();
    let f = match adapted {
        Value::Func(f) => *f,
        other => panic!("expected a closure value, got {:?}", other),
    };
    for i in 0..4 {
        let arg = Value::Handle(Box::new(Value::Number(i)));
        let out = call_shared(&f, vec![arg]).unwrap();
        assert_eq!(out, Value::Handle(Box::new(Value::Number(i))));
    }
}

/// An exclusive adapter needs exclusive access on each invocation and is
/// left intact by it.
#[test]
fn exclusive_adapter_needs_exclusive_access() {
    let base = FuncValue {
        kind: ClosureKind::ExclusiveCall,
        body: FuncBody::Identity,
    };
    let crossing = OccurrenceShape::ClosureCrossing {
        kind: ClosureKind::ExclusiveCall,
        args: vec![OccurrenceShape::Direct],
        ret: Box::new(OccurrenceShape::Direct),
    };
    let adapted = convert_value(&crossing, Direction::Wrap, &Value::Func(Box::new(base))).unwrap();
    let mut f = match adapted {
        Value::Func(f) => *f,
        other => panic!("expected a closure value, got {:?}", other),
    };
    let out1 = call_exclusive(&mut f, vec![Value::Handle(Box::new(Value::Number(1)))]).unwrap();
    let out2 = call_exclusive(&mut f, vec![Value::Handle(Box::new(Value::Number(2)))]).unwrap();
    assert_eq!(out1, Value::Handle(Box::new(Value::Number(1))));
    assert_eq!(out2, Value::Handle(Box::new(Value::Number(2))));
}

/// Scenario C as the rewriter sees it: the boxed once-closure parameter.
#[test]
fn apply_once_method_keeps_call_cardinality() {
    let iface = meta_interface(vec![MethodSignature {
        name: "apply_once".to_string(),
        receiver: ReceiverKind::ByReference,
        params: vec![MethodParameter {
            name: "f".to_string(),
            ty: TypeExpression::Boxed {
                inner: Box::new(TypeExpression::Closure {
                    kind: ClosureKind::OnceCall,
                    args: vec![self_ty()],
                    ret: Box::new(self_ty()),
                }),
            },
        }],
        ret: self_ty(),
    }]);
    let bundle = transform(&iface).unwrap();
    let m = &bundle.instance_methods[0];
    // Inside the body the adapter closure for the parameter keeps the
    // once-call cardinality.
    fn find_adapter(e: &GenExpr) -> Option<ClosureKind> {
        match e {
            GenExpr::AdapterClosure { kind, .. } => Some(*kind),
            GenExpr::WrapHandle { arg } | GenExpr::Rebox { arg } | GenExpr::Unbox { arg } => {
                find_adapter(arg)
            }
            GenExpr::SelfCall { args, .. } | GenExpr::FactoryCall { args, .. } => {
                args.iter().find_map(find_adapter)
            }
            _ => None,
        }
    }
    assert_eq!(find_adapter(&m.body), Some(ClosureKind::OnceCall));
}

/// Receiverless methods land on the factory sibling; by-value receivers
/// become owned opaque handles.
#[test]
fn receivers_are_rewritten() {
    let iface = meta_interface(vec![
        MethodSignature {
            name: "make".to_string(),
            receiver: ReceiverKind::Static,
            params: vec![],
            ret: self_ty(),
        },
        MethodSignature {
            name: "consume".to_string(),
            receiver: ReceiverKind::ByValue,
            params: vec![],
            ret: named("i32", vec![]),
        },
    ]);
    let bundle = transform(&iface).unwrap();
    assert_eq!(bundle.constructor_methods.len(), 1);
    assert_eq!(bundle.instance_methods.len(), 1);
    let make = &bundle.constructor_methods[0];
    assert_eq!(make.target, Sibling::Factory);
    // The factory sibling's entry gains a reference receiver.
    assert_eq!(make.receiver, ReceiverKind::ByReference);
    match &make.body {
        GenExpr::WrapHandle { arg } => match &**arg {
            GenExpr::FactoryCall { method, args } => {
                assert_eq!(method, "make");
                assert!(args.is_empty());
            }
            other => panic!("expected a factory call, got {:?}", other),
        },
        other => panic!("expected the result to be wrapped, got {:?}", other),
    }
    let consume = &bundle.instance_methods[0];
    assert_eq!(consume.receiver, ReceiverKind::ByValue);
    assert!(consume.boxed_receiver);
    // An i32 result needs no wrapping.
    assert_eq!(
        consume.body,
        GenExpr::SelfCall {
            method: "consume".to_string(),
            args: vec![],
        }
    );
}

/// A failing position anywhere aborts the whole transformation.
#[test]
fn transformation_is_atomic() {
    let iface = meta_interface(vec![
        MethodSignature {
            name: "fine".to_string(),
            receiver: ReceiverKind::ByReference,
            params: vec![],
            ret: self_ty(),
        },
        MethodSignature {
            name: "broken".to_string(),
            receiver: ReceiverKind::ByReference,
            params: vec![MethodParameter {
                name: "xs".to_string(),
                ty: TypeExpression::Unsupported {
                    kind: dyn_derive::model::UnsupportedKind::Slice,
                    parts: vec![self_ty()],
                },
            }],
            ret: named("i32", vec![]),
        },
    ]);
    assert_eq!(
        transform(&iface),
        Err(GenError::UnsupportedShape(
            dyn_derive::model::UnsupportedKind::Slice
        ))
    );
}

#[test]
fn builder_validates_dynamic_parameters() {
    let ok = RawInterface {
        name: "Meta".to_string(),
        params: vec![RawParameter {
            name: "T".to_string(),
            kind: RawParamKind::Type,
            dynamic: true,
            bounds: vec![dyn_derive::model::CapabilityRef {
                name: "Data".to_string(),
                assoc_args: vec![],
            }],
        }],
        capabilities: vec![],
        methods: vec![],
    };
    let built = build_interface(ok).unwrap();
    assert!(built.generics[0].dynamic);
    assert_eq!(built.generics[0].capability.as_ref().unwrap().name, "Data");

    let missing_bound = RawInterface {
        name: "Meta".to_string(),
        params: vec![RawParameter {
            name: "T".to_string(),
            kind: RawParamKind::Type,
            dynamic: true,
            bounds: vec![],
        }],
        capabilities: vec![],
        methods: vec![],
    };
    assert_eq!(
        build_interface(missing_bound),
        Err(GenError::MalformedInterface)
    );

    let const_generic = RawInterface {
        name: "Meta".to_string(),
        params: vec![RawParameter {
            name: "N".to_string(),
            kind: RawParamKind::ConstGeneric,
            dynamic: false,
            bounds: vec![],
        }],
        capabilities: vec![],
        methods: vec![],
    };
    assert_eq!(
        build_interface(const_generic),
        Err(GenError::UnsupportedShape(
            dyn_derive::model::UnsupportedKind::ConstGeneric
        ))
    );
}

#[test]
fn full_name_carries_generics() {
    let iface = InterfaceDefinition {
        name: "Meta".to_string(),
        generics: vec![
            dyn_derive::model::GenericParameter {
                name: "T".to_string(),
                kind: dyn_derive::model::GenericParamKind::Type,
                dynamic: false,
                capability: None,
                static_bounds: vec![],
            },
            dyn_derive::model::GenericParameter {
                name: "'a".to_string(),
                kind: dyn_derive::model::GenericParamKind::Lifetime,
                dynamic: false,
                capability: None,
                static_bounds: vec![],
            },
        ],
        capabilities: vec![],
        methods: vec![],
    };
    let (full, tuple) = get_full_name(&iface);
    assert_eq!(
        full,
        named("Meta", vec![named("T", vec![]), named("'a", vec![])])
    );
    // Only type parameters reach the instance tuple.
    assert_eq!(
        tuple,
        TypeExpression::Tuple {
            elems: vec![named("T", vec![])]
        }
    );
}

/// Scenario D: structural equality on an enum with a unit variant, a
/// positional variant and a named-fields variant.
#[test]
fn derived_equality_is_structural() {
    let shape = DataShape::TaggedUnion {
        name: "E".to_string(),
        variants: vec![
            DataVariant {
                name: "A".to_string(),
                fields: FieldList::Unit,
            },
            DataVariant {
                name: "B".to_string(),
                fields: FieldList::Unnamed(1),
            },
            DataVariant {
                name: "C".to_string(),
                fields: FieldList::Named(vec!["x".to_string(), "y".to_string()]),
            },
        ],
    };
    let imp = dyn_derive::equality::derive(&shape).unwrap();
    assert_eq!(imp.arms.len(), 3);
    assert!(imp.tagged);

    let b1 = DataValue { variant: 1, fields: vec![1] };
    let b1x = DataValue { variant: 1, fields: vec![1] };
    let b2 = DataValue { variant: 1, fields: vec![2] };
    let a = DataValue { variant: 0, fields: vec![] };
    let c12 = DataValue { variant: 2, fields: vec![1, 2] };
    let c12x = DataValue { variant: 2, fields: vec![1, 2] };

    assert_eq!(equal_values(&imp, &b1, &b1x), Ok(true));
    assert_eq!(equal_values(&imp, &b1, &b2), Ok(false));
    assert_eq!(equal_values(&imp, &a, &b1), Ok(false));
    assert_eq!(equal_values(&imp, &c12, &c12x), Ok(true));
    // Zero-field variants are trivially equal.
    let a2 = DataValue { variant: 0, fields: vec![] };
    assert_eq!(equal_values(&imp, &a, &a2), Ok(true));
}

#[test]
fn equality_generator_handles_records_and_refuses_untagged_unions() {
    let record = DataShape::Record {
        name: "P".to_string(),
        fields: FieldList::Named(vec!["x".to_string(), "y".to_string()]),
    };
    let imp = dyn_derive::equality::derive(&record).unwrap();
    assert_eq!(imp.arms.len(), 1);
    assert!(!imp.tagged);
    let p1 = DataValue { variant: 0, fields: vec![3, 4] };
    let p2 = DataValue { variant: 0, fields: vec![3, 4] };
    let p3 = DataValue { variant: 0, fields: vec![3, 5] };
    assert_eq!(equal_values(&imp, &p1, &p2), Ok(true));
    assert_eq!(equal_values(&imp, &p1, &p3), Ok(false));

    let union = DataShape::UntaggedUnion {
        name: "U".to_string(),
    };
    assert_eq!(dyn_derive::equality::derive(&union), Err(GenError::UnsupportedDataShape));

    // An all-variants-absent union is trivially equal.
    let empty = DataShape::TaggedUnion {
        name: "Never".to_string(),
        variants: vec![],
    };
    let imp = dyn_derive::equality::derive(&empty).unwrap();
    let v = DataValue { variant: 0, fields: vec![] };
    let w = DataValue { variant: 9, fields: vec![1] };
    assert_eq!(equal_values(&imp, &v, &w), Ok(true));
}

/// Containers of arity two and three: each entry converts slot by slot,
/// and the whole container round-trips.
#[test]
fn container_arity_two_and_three_round_trip() {
    let pair_args = vec![
        dyn_derive::classify::ArgShape {
            shape: OccurrenceShape::NoConversion,
            original: named("K", vec![]),
            converted: named("K", vec![]),
        },
        dyn_derive::classify::ArgShape {
            shape: OccurrenceShape::Direct,
            original: self_ty(),
            converted: named("MetaInstance", vec![]),
        },
    ];
    let shape = OccurrenceShape::GenericArgs { args: pair_args };
    let map_like = Value::Container(vec![
        vec![Value::Number(1), Value::Text("one".to_string())],
        vec![Value::Number(2), Value::Text("two".to_string())],
    ]);
    let wrapped = convert_value(&shape, Direction::Wrap, &map_like).unwrap();
    match &wrapped {
        Value::Container(entries) => {
            // The key slot is untouched, the value slot is wrapped.
            assert_eq!(entries[0][0], Value::Number(1));
            assert_eq!(
                entries[0][1],
                Value::Handle(Box::new(Value::Text("one".to_string())))
            );
        }
        other => panic!("expected a container, got {:?}", other),
    }
    assert_eq!(convert_value(&shape, Direction::Unwrap, &wrapped).unwrap(), map_like);

    let triple_args = vec![
        dyn_derive::classify::ArgShape {
            shape: OccurrenceShape::Direct,
            original: self_ty(),
            converted: named("MetaInstance", vec![]),
        },
        dyn_derive::classify::ArgShape {
            shape: OccurrenceShape::NoConversion,
            original: named("K", vec![]),
            converted: named("K", vec![]),
        },
        dyn_derive::classify::ArgShape {
            shape: OccurrenceShape::Direct,
            original: self_ty(),
            converted: named("MetaInstance", vec![]),
        },
    ];
    let shape = OccurrenceShape::GenericArgs { args: triple_args };
    let v = Value::Container(vec![vec![
        Value::Number(1),
        Value::Number(2),
        Value::Number(3),
    ]]);
    let wrapped = convert_value(&shape, Direction::Wrap, &v).unwrap();
    assert_eq!(convert_value(&shape, Direction::Unwrap, &wrapped).unwrap(), v);
}

/// A dynamic parameter converts exactly like the interface type itself,
/// to the owned box of its capability bound.
#[test]
fn dynamic_parameter_transforms_to_its_capability_handle() {
    let iface = InterfaceDefinition {
        name: "Meta".to_string(),
        generics: vec![dyn_derive::model::GenericParameter {
            name: "T".to_string(),
            kind: dyn_derive::model::GenericParamKind::Type,
            dynamic: true,
            capability: Some(dyn_derive::model::CapabilityRef {
                name: "Data".to_string(),
                assoc_args: vec![],
            }),
            static_bounds: vec![],
        }],
        capabilities: vec![],
        methods: vec![MethodSignature {
            name: "feed".to_string(),
            receiver: ReceiverKind::ByReference,
            params: vec![MethodParameter {
                name: "value".to_string(),
                ty: named("T", vec![]),
            }],
            ret: TypeExpression::Tuple { elems: vec![] },
        }],
    };
    let bundle = transform(&iface).unwrap();
    let m = &bundle.instance_methods[0];
    // The parameter's type becomes Box<Data>.
    assert_eq!(
        m.params[0].ty,
        TypeExpression::Boxed {
            inner: Box::new(named("Data", vec![]))
        }
    );
    // The interface's own handle carries the generic parameter.
    assert_eq!(
        bundle.context.self_handle,
        TypeExpression::Boxed {
            inner: Box::new(named("MetaInstance", vec![named("T", vec![])]))
        }
    );
}
