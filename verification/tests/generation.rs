//! Classification and code generation on concrete type expressions.

use dyn_derive::classify::{
    classify, rewrite_type, ArgShape, DynParamEntry, InterfaceContext, OccurrenceShape,
    WrapperKind,
};
use dyn_derive::generate::{generate, AccessMode, Direction, GenExpr};
use dyn_derive::model::{ClosureKind, GenError, TypeExpression, UnsupportedKind};

fn named(path: &str, args: Vec<TypeExpression>) -> TypeExpression {
    TypeExpression::Named {
        path: path.to_string(),
        args,
    }
}

fn self_ty() -> TypeExpression {
    named("Meta", vec![])
}

fn ctx() -> InterfaceContext {
    InterfaceContext {
        self_name: "Meta".to_string(),
        self_handle: TypeExpression::Boxed {
            inner: Box::new(named("MetaInstance", vec![])),
        },
        dynamics: vec![DynParamEntry {
            name: "T".to_string(),
            handle: TypeExpression::Boxed {
                inner: Box::new(named("Data", vec![])),
            },
        }],
    }
}

#[test]
fn classify_no_occurrence_is_no_conversion() {
    // Shape purity: no occurrence of the interface type or a dynamic
    // parameter anywhere means nothing to convert.
    let t = named("Vec", vec![named("i32", vec![])]);
    assert_eq!(classify(&t, &ctx()), Ok(OccurrenceShape::NoConversion));

    let u = TypeExpression::Tuple {
        elems: vec![named("i32", vec![]), named("String", vec![])],
    };
    assert_eq!(classify(&u, &ctx()), Ok(OccurrenceShape::NoConversion));
}

#[test]
fn classify_direct_positions() {
    assert_eq!(classify(&self_ty(), &ctx()), Ok(OccurrenceShape::Direct));
    // A dynamic parameter is just as direct as the interface type itself.
    assert_eq!(
        classify(&named("T", vec![]), &ctx()),
        Ok(OccurrenceShape::Direct)
    );
    // An ordinary parameter name is not.
    assert_eq!(
        classify(&named("U", vec![]), &ctx()),
        Ok(OccurrenceShape::NoConversion)
    );
}

#[test]
fn classify_container_of_self() {
    let t = named("Vec", vec![self_ty()]);
    let r = classify(&t, &ctx()).unwrap();
    match r {
        OccurrenceShape::GenericArgs { args } => {
            assert_eq!(args.len(), 1);
            assert_eq!(args[0].shape, OccurrenceShape::Direct);
            assert_eq!(args[0].original, self_ty());
            assert_eq!(
                args[0].converted,
                TypeExpression::Boxed {
                    inner: Box::new(named("MetaInstance", vec![]))
                }
            );
        }
        other => panic!("expected a generic-args shape, got {:?}", other),
    }
}

#[test]
fn classify_boxed_named_box_path() {
    // `Box<Self>` handed over as a named path still counts as a box.
    let t = named("Box", vec![self_ty()]);
    assert_eq!(
        classify(&t, &ctx()),
        Ok(OccurrenceShape::Wrapped {
            wrapper: WrapperKind::OwnedBox,
            inner: Box::new(OccurrenceShape::Direct),
        })
    );
    // A box with the wrong arity around an occurrence fails fast.
    let bad = named("Box", vec![self_ty(), self_ty()]);
    assert_eq!(classify(&bad, &ctx()), Err(GenError::UnsupportedBoxArity));
    // Without any occurrence it is left alone.
    let harmless = named("Box", vec![]);
    assert_eq!(classify(&harmless, &ctx()), Ok(OccurrenceShape::NoConversion));
}

#[test]
fn classify_closure_under_reference() {
    // `&dyn Fn(Self) -> Self`
    let t = TypeExpression::Reference {
        inner: Box::new(TypeExpression::Closure {
            kind: ClosureKind::SharedCall,
            args: vec![self_ty()],
            ret: Box::new(self_ty()),
        }),
        mutable: false,
    };
    assert_eq!(
        classify(&t, &ctx()),
        Ok(OccurrenceShape::Wrapped {
            wrapper: WrapperKind::SharedRef,
            inner: Box::new(OccurrenceShape::ClosureCrossing {
                kind: ClosureKind::SharedCall,
                args: vec![OccurrenceShape::Direct],
                ret: Box::new(OccurrenceShape::Direct),
            }),
        })
    );
}

#[test]
fn classify_non_closure_under_reference_fails() {
    // Only closures and direct occurrences may sit beneath a reference.
    let t = TypeExpression::Reference {
        inner: Box::new(named("Vec", vec![self_ty()])),
        mutable: false,
    };
    assert_eq!(classify(&t, &ctx()), Err(GenError::UnsupportedUnderReference));
}

#[test]
fn classify_unsupported_with_occurrence_fails() {
    // A slice containing the interface type is refused outright ...
    let t = TypeExpression::Unsupported {
        kind: UnsupportedKind::Slice,
        parts: vec![self_ty()],
    };
    assert_eq!(
        classify(&t, &ctx()),
        Err(GenError::UnsupportedShape(UnsupportedKind::Slice))
    );
    // ... while one without any occurrence passes through untouched.
    let u = TypeExpression::Unsupported {
        kind: UnsupportedKind::Slice,
        parts: vec![named("u8", vec![])],
    };
    assert_eq!(classify(&u, &ctx()), Ok(OccurrenceShape::NoConversion));
}

#[test]
fn rewrite_substitutes_handles() {
    let t = named("Vec", vec![self_ty()]);
    assert_eq!(
        rewrite_type(&t, &ctx()),
        named(
            "Vec",
            vec![TypeExpression::Boxed {
                inner: Box::new(named("MetaInstance", vec![]))
            }]
        )
    );
    // No occurrence: byte-identical structure.
    let u = named("Vec", vec![named("i32", vec![])]);
    assert_eq!(rewrite_type(&u, &ctx()), u);
}

#[test]
fn generate_direct_conversions() {
    let src = GenExpr::Param { depth: 0, index: 0 };
    assert_eq!(
        generate(&OccurrenceShape::Direct, src, Direction::Unwrap, 0),
        GenExpr::Downcast {
            mode: AccessMode::Owned,
            arg: Box::new(GenExpr::Param { depth: 0, index: 0 }),
        }
    );
    let src = GenExpr::Param { depth: 0, index: 0 };
    assert_eq!(
        generate(&OccurrenceShape::Direct, src, Direction::Wrap, 0),
        GenExpr::WrapHandle {
            arg: Box::new(GenExpr::Param { depth: 0, index: 0 }),
        }
    );
}

#[test]
fn generate_no_conversion_is_identity() {
    let src = GenExpr::Param { depth: 0, index: 3 };
    assert_eq!(
        generate(&OccurrenceShape::NoConversion, src, Direction::Unwrap, 0),
        GenExpr::Param { depth: 0, index: 3 }
    );
}

#[test]
fn generate_closure_adapter_inverts_variance() {
    // Fn(DynamicParam) -> Self: the adapter converts its received
    // argument in the opposite direction from its produced result.
    let crossing = OccurrenceShape::ClosureCrossing {
        kind: ClosureKind::SharedCall,
        args: vec![OccurrenceShape::Direct],
        ret: Box::new(OccurrenceShape::Direct),
    };
    let src = GenExpr::Param { depth: 0, index: 0 };
    let out = generate(&crossing, src, Direction::Unwrap, 0);
    match out {
        GenExpr::AdapterClosure {
            kind,
            depth,
            params,
            body,
        } => {
            // Cardinality preserved.
            assert_eq!(kind, ClosureKind::SharedCall);
            assert_eq!(depth, 1);
            assert_eq!(params, 1);
            // The body wraps (outer direction is Unwrap, so the received
            // argument is wrapped) and then unwraps the produced result.
            match *body {
                GenExpr::Downcast { mode, arg } => {
                    assert_eq!(mode, AccessMode::Owned);
                    match *arg {
                        GenExpr::Invoke { callee, args } => {
                            assert_eq!(*callee, GenExpr::Param { depth: 0, index: 0 });
                            assert_eq!(
                                args,
                                vec![GenExpr::WrapHandle {
                                    arg: Box::new(GenExpr::Param { depth: 1, index: 0 }),
                                }]
                            );
                        }
                        other => panic!("expected an invocation, got {:?}", other),
                    }
                }
                other => panic!("expected a downcast of the result, got {:?}", other),
            }
        }
        other => panic!("expected an adapter closure, got {:?}", other),
    }
}

#[test]
fn generate_once_adapter_keeps_cardinality() {
    let crossing = OccurrenceShape::ClosureCrossing {
        kind: ClosureKind::OnceCall,
        args: vec![OccurrenceShape::Direct],
        ret: Box::new(OccurrenceShape::Direct),
    };
    let src = GenExpr::Param { depth: 0, index: 0 };
    match generate(&crossing, src, Direction::Unwrap, 0) {
        GenExpr::AdapterClosure { kind, .. } => assert_eq!(kind, ClosureKind::OnceCall),
        other => panic!("expected an adapter closure, got {:?}", other),
    }
}

#[test]
fn generate_tuple_preserves_positions() {
    let shape = OccurrenceShape::TupleElems {
        elems: vec![OccurrenceShape::NoConversion, OccurrenceShape::Direct],
    };
    let src = GenExpr::Param { depth: 0, index: 0 };
    assert_eq!(
        generate(&shape, src, Direction::Wrap, 0),
        GenExpr::LetTuple {
            source: Box::new(GenExpr::Param { depth: 0, index: 0 }),
            arity: 2,
            depth: 1,
            body: vec![
                GenExpr::Param { depth: 1, index: 0 },
                GenExpr::WrapHandle {
                    arg: Box::new(GenExpr::Param { depth: 1, index: 1 }),
                },
            ],
        }
    );
}

#[test]
fn generate_map_adapters_align_with_arguments() {
    let t = named(
        "Result",
        vec![named("i32", vec![]), self_ty()],
    );
    let shape = classify(&t, &ctx()).unwrap();
    let src = GenExpr::Param { depth: 0, index: 0 };
    match generate(&shape, src, Direction::Unwrap, 0) {
        GenExpr::MapContainer { source, adapters } => {
            assert_eq!(*source, GenExpr::Param { depth: 0, index: 0 });
            assert_eq!(adapters.len(), 2);
            assert!(adapters[0].is_none());
            assert!(adapters[1].is_some());
        }
        other => panic!("expected a map of the container, got {:?}", other),
    }
}

#[test]
fn arg_shape_records_both_types() {
    let t = named("Vec", vec![named("T", vec![])]);
    match classify(&t, &ctx()).unwrap() {
        OccurrenceShape::GenericArgs { args } => {
            let ArgShape {
                original,
                converted,
                ..
            } = &args[0];
            assert_eq!(original, &named("T", vec![]));
            assert_eq!(
                converted,
                &TypeExpression::Boxed {
                    inner: Box::new(named("Data", vec![]))
                }
            );
        }
        other => panic!("expected a generic-args shape, got {:?}", other),
    }
}

#[test]
fn classify_multiple_function_bounds_fail() {
    // More than one function-capability bound in a single type position
    // is explicitly unsupported once an occurrence is involved.
    let t = TypeExpression::Unsupported {
        kind: UnsupportedKind::MultipleFunctionBounds,
        parts: vec![self_ty()],
    };
    assert_eq!(
        classify(&t, &ctx()),
        Err(GenError::UnsupportedShape(
            UnsupportedKind::MultipleFunctionBounds
        ))
    );
}

#[test]
fn classify_nested_once_closures() {
    // `Box<dyn FnOnce(Self) -> Box<dyn FnOnce(Self) -> Self>>`: the
    // nested crossing keeps its own cardinality at every depth.
    let inner = TypeExpression::Boxed {
        inner: Box::new(TypeExpression::Closure {
            kind: ClosureKind::OnceCall,
            args: vec![self_ty()],
            ret: Box::new(self_ty()),
        }),
    };
    let t = TypeExpression::Boxed {
        inner: Box::new(TypeExpression::Closure {
            kind: ClosureKind::OnceCall,
            args: vec![self_ty()],
            ret: Box::new(inner),
        }),
    };
    let shape = classify(&t, &ctx()).unwrap();
    match shape {
        OccurrenceShape::Wrapped { wrapper, inner } => {
            assert_eq!(wrapper, WrapperKind::OwnedBox);
            match *inner {
                OccurrenceShape::ClosureCrossing { kind, args, ret } => {
                    assert_eq!(kind, ClosureKind::OnceCall);
                    assert_eq!(args, vec![OccurrenceShape::Direct]);
                    match *ret {
                        OccurrenceShape::Wrapped { inner, .. } => match *inner {
                            OccurrenceShape::ClosureCrossing { kind, .. } => {
                                assert_eq!(kind, ClosureKind::OnceCall)
                            }
                            other => panic!("expected a nested crossing, got {:?}", other),
                        },
                        other => panic!("expected a boxed crossing, got {:?}", other),
                    }
                }
                other => panic!("expected a closure crossing, got {:?}", other),
            }
        }
        other => panic!("expected a boxed shape, got {:?}", other),
    }
}
