//! The boundary code generator.
//!
//! `generate` turns an occurrence shape into the expression that converts a
//! value across the concrete/opaque boundary.  `Unwrap` converts an opaque
//! value into its concrete representation (arguments flowing into a
//! concrete implementation); `Wrap` converts a concrete value into a new
//! opaque handle (results flowing out).  At a closure crossing the two
//! directions invert: the adapter converts what it receives with the
//! opposite direction from what it produces.
//!
//! Generated expressions bind variables by depth: the rewritten method's
//! own parameters sit at depth 0, and every adapter closure or tuple
//! destructuring introduces binders one level deeper.  The depth counter
//! saturates at the machine maximum instead of overflowing; a type nested
//! that deeply cannot be represented in memory anyway.

use vstd::prelude::*;

use crate::classify::{ArgShape, OccurrenceShape, SpecArgShape, SpecShape, WrapperKind,
    is_no_conversion, lemma_arg_shape_models_index, lemma_shape_models_index, shape_model,
    shape_models, arg_shape_models};
use crate::model::ClosureKind;

verus! {

/// The direction of one conversion.
#[derive(Clone, Copy, Debug, PartialEq, Eq, Structural)]
pub enum Direction {
    /// Opaque to concrete, for values flowing into the implementation.
    Unwrap,
    /// Concrete to opaque, for values flowing out of it.
    Wrap,
}

/// The opposite direction; arguments of a generated adapter convert with
/// the flip of the direction its result converts with.
pub open spec fn flip(d: Direction) -> Direction {
    match d {
        Direction::Unwrap => Direction::Wrap,
        Direction::Wrap => Direction::Unwrap,
    }
}

/// Exec twin of `flip`.
pub fn flip_direction(d: Direction) -> (r: Direction)
    ensures
        r == flip(d),
{
    match d {
        Direction::Unwrap => Direction::Wrap,
        Direction::Wrap => Direction::Unwrap,
    }
}

/// How a checked downcast takes its input.
#[derive(Clone, Copy, Debug, PartialEq, Eq, Structural)]
pub enum AccessMode {
    Owned,
    Shared,
    Exclusive,
}

/// A generated target-language expression.
#[derive(Debug, PartialEq, Eq)]
pub enum GenExpr {
    /// A variable bound at binder depth `depth`, position `index`.
    Param { depth: usize, index: usize },
    /// Checked downcast of an opaque handle to the concrete type; aborts
    /// the running program when the dynamic type does not match.
    Downcast { mode: AccessMode, arg: Box<GenExpr> },
    /// Construction of a new opaque boxed handle around a concrete value.
    WrapHandle { arg: Box<GenExpr> },
    /// Take the value out of an owned box.
    Unbox { arg: Box<GenExpr> },
    /// Put a converted value back into a fresh box.
    Rebox { arg: Box<GenExpr> },
    /// A call of the generic map primitive of the container: one adapter
    /// closure per generic argument that carries a shape, `None` for the
    /// arguments that need no conversion.
    MapContainer { source: Box<GenExpr>, adapters: Vec<Option<GenExpr>> },
    /// Destructure a tuple of `arity` elements into binders at depth
    /// `depth` and rebuild it from the converted elements, in order.
    LetTuple { source: Box<GenExpr>, arity: usize, depth: usize, body: Vec<GenExpr> },
    /// A closure literal with `params` parameters at depth `depth`; its
    /// call-cardinality is exactly `kind`.
    AdapterClosure { kind: ClosureKind, depth: usize, params: usize, body: Box<GenExpr> },
    /// A shared or exclusive borrow of the inner expression.
    Borrow { mutable: bool, arg: Box<GenExpr> },
    /// Invocation of a converted callee.
    Invoke { callee: Box<GenExpr>, args: Vec<GenExpr> },
    /// A call of a static entry point of the concrete factory type.
    FactoryCall { method: String, args: Vec<GenExpr> },
    /// A call of a method on the stored concrete receiver.
    SelfCall { method: String, args: Vec<GenExpr> },
}

/// Mathematical mirror of `GenExpr`.
#[verifier::ext_equal]
pub enum SpecExpr {
    Param { depth: usize, index: usize },
    Downcast { mode: AccessMode, arg: Box<SpecExpr> },
    WrapHandle { arg: Box<SpecExpr> },
    Unbox { arg: Box<SpecExpr> },
    Rebox { arg: Box<SpecExpr> },
    MapContainer { source: Box<SpecExpr>, adapters: Seq<Option<SpecExpr>> },
    LetTuple { source: Box<SpecExpr>, arity: usize, depth: usize, body: Seq<SpecExpr> },
    AdapterClosure { kind: ClosureKind, depth: usize, params: usize, body: Box<SpecExpr> },
    Borrow { mutable: bool, arg: Box<SpecExpr> },
    Invoke { callee: Box<SpecExpr>, args: Seq<SpecExpr> },
    FactoryCall { method: Seq<char>, args: Seq<SpecExpr> },
    SelfCall { method: Seq<char>, args: Seq<SpecExpr> },
}

pub open spec fn expr_model(e: GenExpr) -> SpecExpr
    decreases e, 0nat,
{
    match e {
        GenExpr::Param { depth, index } => SpecExpr::Param { depth, index },
        GenExpr::Downcast { mode, arg } => SpecExpr::Downcast {
            mode,
            arg: Box::new(expr_model(*arg)),
        },
        GenExpr::WrapHandle { arg } => SpecExpr::WrapHandle { arg: Box::new(expr_model(*arg)) },
        GenExpr::Unbox { arg } => SpecExpr::Unbox { arg: Box::new(expr_model(*arg)) },
        GenExpr::Rebox { arg } => SpecExpr::Rebox { arg: Box::new(expr_model(*arg)) },
        GenExpr::MapContainer { source, adapters } => SpecExpr::MapContainer {
            source: Box::new(expr_model(*source)),
            adapters: opt_expr_models(adapters@),
        },
        GenExpr::LetTuple { source, arity, depth, body } => SpecExpr::LetTuple {
            source: Box::new(expr_model(*source)),
            arity,
            depth,
            body: expr_models(body@),
        },
        GenExpr::AdapterClosure { kind, depth, params, body } => SpecExpr::AdapterClosure {
            kind,
            depth,
            params,
            body: Box::new(expr_model(*body)),
        },
        GenExpr::Borrow { mutable, arg } => SpecExpr::Borrow {
            mutable,
            arg: Box::new(expr_model(*arg)),
        },
        GenExpr::Invoke { callee, args } => SpecExpr::Invoke {
            callee: Box::new(expr_model(*callee)),
            args: expr_models(args@),
        },
        GenExpr::FactoryCall { method, args } => SpecExpr::FactoryCall {
            method: method@,
            args: expr_models(args@),
        },
        GenExpr::SelfCall { method, args } => SpecExpr::SelfCall {
            method: method@,
            args: expr_models(args@),
        },
    }
}

pub open spec fn expr_models(s: Seq<GenExpr>) -> Seq<SpecExpr>
    decreases s, s.len(),
{
    if s.len() == 0 {
        Seq::empty()
    } else {
        expr_models(s.drop_last()).push(expr_model(s.last()))
    }
}

pub open spec fn opt_expr_models(s: Seq<Option<GenExpr>>) -> Seq<Option<SpecExpr>>
    decreases s, s.len(),
{
    if s.len() == 0 {
        Seq::empty()
    } else {
        opt_expr_models(s.drop_last()).push(
            match s.last() {
                Option::Some(e) => Option::Some(expr_model(e)),
                Option::None => Option::None,
            },
        )
    }
}

impl View for GenExpr {
    type V = SpecExpr;

    open spec fn view(&self) -> SpecExpr {
        expr_model(*self)
    }
}

pub proof fn lemma_expr_models_index(s: Seq<GenExpr>, i: int)
    requires
        0 <= i < s.len(),
    ensures
        expr_models(s).len() == s.len(),
        expr_models(s)[i] == expr_model(s[i]),
    decreases s.len(),
{
    lemma_expr_models_len(s);
    if i < s.len() - 1 {
        lemma_expr_models_index(s.drop_last(), i);
    } else {
        lemma_expr_models_len(s.drop_last());
    }
}

pub proof fn lemma_expr_models_len(s: Seq<GenExpr>)
    ensures
        expr_models(s).len() == s.len(),
    decreases s.len(),
{
    if s.len() > 0 {
        lemma_expr_models_len(s.drop_last());
    }
}

pub proof fn lemma_opt_expr_models_index(s: Seq<Option<GenExpr>>, i: int)
    requires
        0 <= i < s.len(),
    ensures
        opt_expr_models(s).len() == s.len(),
        opt_expr_models(s)[i] == match s[i] {
            Option::Some(e) => Option::Some(expr_model(e)),
            Option::None => Option::<SpecExpr>::None,
        },
    decreases s.len(),
{
    lemma_opt_expr_models_len(s);
    if i < s.len() - 1 {
        lemma_opt_expr_models_index(s.drop_last(), i);
    } else {
        lemma_opt_expr_models_len(s.drop_last());
    }
}

pub proof fn lemma_opt_expr_models_len(s: Seq<Option<GenExpr>>)
    ensures
        opt_expr_models(s).len() == s.len(),
    decreases s.len(),
{
    if s.len() > 0 {
        lemma_opt_expr_models_len(s.drop_last());
    }
}

/// One binder level deeper, saturating at the machine maximum.
pub open spec fn next_depth(d: usize) -> usize {
    if d < usize::MAX {
        (d + 1) as usize
    } else {
        d
    }
}

/// The conversion expression for one occurrence shape.
pub open spec fn spec_generate(shape: SpecShape, src: SpecExpr, dir: Direction, depth: usize) -> SpecExpr
    decreases shape, 0nat,
{
    match shape {
        SpecShape::Direct => match dir {
            Direction::Unwrap => SpecExpr::Downcast { mode: AccessMode::Owned, arg: Box::new(src) },
            Direction::Wrap => SpecExpr::WrapHandle { arg: Box::new(src) },
        },
        SpecShape::GenericArgs { args } => SpecExpr::MapContainer {
            source: Box::new(src),
            adapters: spec_adapters(args, dir, depth),
        },
        SpecShape::TupleElems { elems } => SpecExpr::LetTuple {
            source: Box::new(src),
            arity: elems.len() as usize,
            depth: next_depth(depth),
            body: spec_tuple_body(elems, dir, depth),
        },
        SpecShape::Wrapped { wrapper: WrapperKind::OwnedBox, inner } => SpecExpr::Rebox {
            arg: Box::new(
                spec_generate(*inner, SpecExpr::Unbox { arg: Box::new(src) }, dir, depth),
            ),
        },
        SpecShape::Wrapped { wrapper, inner } => {
            let mutable = wrapper == WrapperKind::ExclusiveRef;
            if *inner is Direct {
                match dir {
                    Direction::Unwrap => SpecExpr::Downcast {
                        mode: if mutable {
                            AccessMode::Exclusive
                        } else {
                            AccessMode::Shared
                        },
                        arg: Box::new(src),
                    },
                    Direction::Wrap => SpecExpr::Borrow {
                        mutable,
                        arg: Box::new(SpecExpr::WrapHandle { arg: Box::new(src) }),
                    },
                }
            } else {
                SpecExpr::Borrow { mutable, arg: Box::new(spec_generate(*inner, src, dir, depth)) }
            }
        },
        SpecShape::ClosureCrossing { kind, args, ret } => SpecExpr::AdapterClosure {
            kind,
            depth: next_depth(depth),
            params: args.len() as usize,
            body: Box::new(spec_generate(
                *ret,
                SpecExpr::Invoke {
                    callee: Box::new(src),
                    args: spec_crossing_args(args, dir, next_depth(depth)),
                },
                dir,
                next_depth(depth),
            )),
        },
        SpecShape::NoConversion => src,
    }
}

/// Adapter closures of the generic map primitive, one per argument that
/// carries a shape, aligned with the argument list.
pub open spec fn spec_adapters(args: Seq<SpecArgShape>, dir: Direction, depth: usize) -> Seq<
    Option<SpecExpr>,
>
    decreases args, args.len(),
{
    if args.len() == 0 {
        Seq::empty()
    } else {
        spec_adapters(args.drop_last(), dir, depth).push(spec_adapter_for(args.last(), dir, depth))
    }
}

pub open spec fn spec_adapter_for(a: SpecArgShape, dir: Direction, depth: usize) -> Option<
    SpecExpr,
>
    decreases a, 0nat,
{
    if a.shape is NoConversion {
        Option::None
    } else {
        Option::Some(
            SpecExpr::AdapterClosure {
                kind: ClosureKind::SharedCall,
                depth: next_depth(depth),
                params: 1,
                body: Box::new(spec_generate(
                    a.shape,
                    SpecExpr::Param { depth: next_depth(depth), index: 0 },
                    dir,
                    next_depth(depth),
                )),
            },
        )
    }
}

/// Converted tuple elements: element `i` converts the binder at position
/// `i`, one depth deeper, in the same direction.
pub open spec fn spec_tuple_body(elems: Seq<SpecShape>, dir: Direction, depth: usize) -> Seq<
    SpecExpr,
>
    decreases elems, elems.len(),
{
    if elems.len() == 0 {
        Seq::empty()
    } else {
        spec_tuple_body(elems.drop_last(), dir, depth).push(
            spec_generate(
                elems.last(),
                SpecExpr::Param { depth: next_depth(depth), index: (elems.len() - 1) as usize },
                dir,
                next_depth(depth),
            ),
        )
    }
}

/// Converted arguments handed to the captured closure inside a generated
/// adapter: each adapter parameter converts in the **opposite** direction
/// from the adapter's own result.
pub open spec fn spec_crossing_args(args: Seq<SpecShape>, dir: Direction, depth: usize) -> Seq<
    SpecExpr,
>
    decreases args, args.len(),
{
    if args.len() == 0 {
        Seq::empty()
    } else {
        spec_crossing_args(args.drop_last(), dir, depth).push(
            spec_generate(
                args.last(),
                SpecExpr::Param { depth, index: (args.len() - 1) as usize },
                flip(dir),
                depth,
            ),
        )
    }
}

pub proof fn lemma_crossing_args_index(args: Seq<SpecShape>, dir: Direction, depth: usize, i: int)
    requires
        0 <= i < args.len(),
    ensures
        spec_crossing_args(args, dir, depth).len() == args.len(),
        spec_crossing_args(args, dir, depth)[i] == spec_generate(
            args[i],
            SpecExpr::Param { depth, index: i as usize },
            flip(dir),
            depth,
        ),
    decreases args.len(),
{
    lemma_crossing_args_len(args, dir, depth);
    if i < args.len() - 1 {
        lemma_crossing_args_index(args.drop_last(), dir, depth, i);
    } else {
        lemma_crossing_args_len(args.drop_last(), dir, depth);
    }
}

pub proof fn lemma_crossing_args_len(args: Seq<SpecShape>, dir: Direction, depth: usize)
    ensures
        spec_crossing_args(args, dir, depth).len() == args.len(),
    decreases args.len(),
{
    if args.len() > 0 {
        lemma_crossing_args_len(args.drop_last(), dir, depth);
    }
}

pub proof fn lemma_tuple_body_index(elems: Seq<SpecShape>, dir: Direction, depth: usize, i: int)
    requires
        0 <= i < elems.len(),
    ensures
        spec_tuple_body(elems, dir, depth).len() == elems.len(),
        spec_tuple_body(elems, dir, depth)[i] == spec_generate(
            elems[i],
            SpecExpr::Param { depth: next_depth(depth), index: i as usize },
            dir,
            next_depth(depth),
        ),
    decreases elems.len(),
{
    lemma_tuple_body_len(elems, dir, depth);
    if i < elems.len() - 1 {
        lemma_tuple_body_index(elems.drop_last(), dir, depth, i);
    } else {
        lemma_tuple_body_len(elems.drop_last(), dir, depth);
    }
}

pub proof fn lemma_tuple_body_len(elems: Seq<SpecShape>, dir: Direction, depth: usize)
    ensures
        spec_tuple_body(elems, dir, depth).len() == elems.len(),
    decreases elems.len(),
{
    if elems.len() > 0 {
        lemma_tuple_body_len(elems.drop_last(), dir, depth);
    }
}

pub proof fn lemma_adapters_index(args: Seq<SpecArgShape>, dir: Direction, depth: usize, i: int)
    requires
        0 <= i < args.len(),
    ensures
        spec_adapters(args, dir, depth).len() == args.len(),
        spec_adapters(args, dir, depth)[i] == spec_adapter_for(args[i], dir, depth),
    decreases args.len(),
{
    lemma_adapters_len(args, dir, depth);
    if i < args.len() - 1 {
        lemma_adapters_index(args.drop_last(), dir, depth, i);
    } else {
        lemma_adapters_len(args.drop_last(), dir, depth);
    }
}

pub proof fn lemma_adapters_len(args: Seq<SpecArgShape>, dir: Direction, depth: usize)
    ensures
        spec_adapters(args, dir, depth).len() == args.len(),
    decreases args.len(),
{
    if args.len() > 0 {
        lemma_adapters_len(args.drop_last(), dir, depth);
    }
}

/// Generation for `NoConversion` is the identity on the source
/// expression: a position without occurrences is emitted unchanged.
pub proof fn lemma_no_conversion_identity(src: SpecExpr, dir: Direction, depth: usize)
    ensures
        spec_generate(SpecShape::NoConversion, src, dir, depth) == src,
{
}

/// Variance correctness: the adapter generated for a closure crossing
/// converts each received argument with the direction **opposite** to the
/// outer direction, invokes the captured closure on the converted
/// arguments, and converts the produced result with the outer direction
/// itself.
pub proof fn lemma_variance_inversion(
    kind: ClosureKind,
    args: Seq<SpecShape>,
    ret: SpecShape,
    src: SpecExpr,
    dir: Direction,
    depth: usize,
)
    ensures
        spec_generate(
            (SpecShape::ClosureCrossing { kind, args, ret: Box::new(ret) }),
            src,
            dir,
            depth,
        ) == (SpecExpr::AdapterClosure {
            kind,
            depth: next_depth(depth),
            params: args.len() as usize,
            body: Box::new(spec_generate(
                ret,
                (SpecExpr::Invoke {
                    callee: Box::new(src),
                    args: spec_crossing_args(args, dir, next_depth(depth)),
                }),
                dir,
                next_depth(depth),
            )),
        }),
        (forall|i: int| 0 <= i < args.len() ==> spec_crossing_args(args, dir, next_depth(depth))[i]
            == spec_generate(
            #[trigger] args[i],
            (SpecExpr::Param { depth: next_depth(depth), index: i as usize }),
            flip(dir),
            next_depth(depth),
        )),
{
    assert forall|i: int| 0 <= i < args.len() implies spec_crossing_args(
        args,
        dir,
        next_depth(depth),
    )[i] == spec_generate(
        #[trigger] args[i],
        SpecExpr::Param { depth: next_depth(depth), index: i as usize },
        flip(dir),
        next_depth(depth),
    ) by {
        lemma_crossing_args_index(args, dir, next_depth(depth), i);
    }
}

/// Cardinality preservation: the generated adapter for a closure crossing
/// is a closure literal whose call-cardinality is exactly the crossing's
/// kind, also when the crossing sits beneath a reference.
pub proof fn lemma_cardinality_preserved(
    kind: ClosureKind,
    args: Seq<SpecShape>,
    ret: Box<SpecShape>,
    src: SpecExpr,
    dir: Direction,
    depth: usize,
)
    ensures
        (spec_generate((SpecShape::ClosureCrossing { kind, args, ret }), src, dir, depth) matches
            SpecExpr::AdapterClosure { kind: k, .. } && k == kind),
        (spec_generate(
            (SpecShape::Wrapped {
                wrapper: WrapperKind::SharedRef,
                inner: Box::new(SpecShape::ClosureCrossing { kind, args, ret }),
            }),
            src,
            dir,
            depth,
        ) matches SpecExpr::Borrow { arg, .. } && (*arg matches SpecExpr::AdapterClosure {
            kind: k2,
            ..
        } && k2 == kind)),
        (spec_generate(
            (SpecShape::Wrapped {
                wrapper: WrapperKind::ExclusiveRef,
                inner: Box::new(SpecShape::ClosureCrossing { kind, args, ret }),
            }),
            src,
            dir,
            depth,
        ) matches SpecExpr::Borrow { arg, .. } && (*arg matches SpecExpr::AdapterClosure {
            kind: k3,
            ..
        } && k3 == kind)),
{
}

/// Exec twin of `next_depth`.
fn bump_depth(d: usize) -> (r: usize)
    ensures
        r == next_depth(d),
{
    if d < usize::MAX {
        d + 1
    } else {
        d
    }
}

/// The conversion expression for one occurrence shape.
pub fn generate(shape: &OccurrenceShape, src: GenExpr, dir: Direction, depth: usize) -> (r:
    GenExpr)
    ensures
        r@ == spec_generate(shape@, src@, dir, depth),
    decreases shape, 0nat,
{
    match shape {
        OccurrenceShape::Direct => {
            let r = match dir {
                Direction::Unwrap => GenExpr::Downcast {
                    mode: AccessMode::Owned,
                    arg: Box::new(src),
                },
                Direction::Wrap => GenExpr::WrapHandle { arg: Box::new(src) },
            };
            proof {
                assert(r@ =~= spec_generate(shape@, src@, dir, depth));
            }
            r
        },
        OccurrenceShape::GenericArgs { args } => {
            proof {
                assert(decreases_to!(*shape => (*shape)->GenericArgs_args));
            }
            let adapters = build_adapters(args, dir, depth);
            let r = GenExpr::MapContainer { source: Box::new(src), adapters };
            proof {
                assert(r@ =~= spec_generate(shape@, src@, dir, depth));
            }
            r
        },
        OccurrenceShape::TupleElems { elems } => {
            proof {
                assert(decreases_to!(*shape => (*shape)->TupleElems_elems));
                lemma_shape_models_len_pub(elems@);
            }
            let nd = bump_depth(depth);
            let body = build_tuple_body(elems, dir, depth);
            let r = GenExpr::LetTuple { source: Box::new(src), arity: elems.len(), depth: nd, body };
            proof {
                assert(r@ =~= spec_generate(shape@, src@, dir, depth));
            }
            r
        },
        OccurrenceShape::Wrapped { wrapper: WrapperKind::OwnedBox, inner } => {
            proof {
                assert(decreases_to!(*shape => (*shape)->Wrapped_inner));
            }
            let converted = generate(inner, GenExpr::Unbox { arg: Box::new(src) }, dir, depth);
            let r = GenExpr::Rebox { arg: Box::new(converted) };
            proof {
                assert(r@ =~= spec_generate(shape@, src@, dir, depth));
            }
            r
        },
        OccurrenceShape::Wrapped { wrapper, inner } => {
            let mutable = *wrapper == WrapperKind::ExclusiveRef;
            match &**inner {
                OccurrenceShape::Direct => {
                    let r = match dir {
                        Direction::Unwrap => GenExpr::Downcast {
                            mode: if mutable {
                                AccessMode::Exclusive
                            } else {
                                AccessMode::Shared
                            },
                            arg: Box::new(src),
                        },
                        Direction::Wrap => GenExpr::Borrow {
                            mutable,
                            arg: Box::new(GenExpr::WrapHandle { arg: Box::new(src) }),
                        },
                    };
                    proof {
                        reveal_with_fuel(expr_model, 3);
                        assert(r@ =~= spec_generate(shape@, src@, dir, depth));
                    }
                    r
                },
                _ => {
                    proof {
                        assert(decreases_to!(*shape => (*shape)->Wrapped_inner));
                    }
                    let converted = generate(inner, src, dir, depth);
                    let r = GenExpr::Borrow { mutable, arg: Box::new(converted) };
                    proof {
                        assert(r@ =~= spec_generate(shape@, src@, dir, depth));
                    }
                    r
                },
            }
        },
        OccurrenceShape::ClosureCrossing { kind, args, ret } => {
            let nd = bump_depth(depth);
            proof {
                assert(decreases_to!(*shape => (*shape)->ClosureCrossing_args));
                assert(decreases_to!(*shape => (*shape)->ClosureCrossing_ret));
                lemma_shape_models_len_pub(args@);
            }
            let crossing = build_crossing_args(args, dir, nd);
            let body = generate(
                ret,
                GenExpr::Invoke { callee: Box::new(src), args: crossing },
                dir,
                nd,
            );
            let r = GenExpr::AdapterClosure {
                kind: *kind,
                depth: nd,
                params: args.len(),
                body: Box::new(body),
            };
            proof {
                assert(r@ =~= spec_generate(shape@, src@, dir, depth));
            }
            r
        },
        OccurrenceShape::NoConversion => {
            proof {
                assert(src@ =~= spec_generate(shape@, src@, dir, depth));
            }
            src
        },
    }
}

proof fn lemma_shape_models_len_pub(s: Seq<OccurrenceShape>)
    ensures
        shape_models(s).len() == s.len(),
{
    if s.len() > 0 {
        lemma_shape_models_index(s, 0);
    }
}

/// One adapter closure per converted generic argument, aligned with the
/// argument list.
fn build_adapters(args: &Vec<ArgShape>, dir: Direction, depth: usize) -> (r: Vec<Option<GenExpr>>)
    ensures
        r@.len() == args@.len(),
        opt_expr_models(r@) == spec_adapters(arg_shape_models(args@), dir, depth),
    decreases args, args@.len(),
{
    let ghost m = arg_shape_models(args@);
    proof {
        if args@.len() > 0 {
            lemma_arg_shape_models_index(args@, 0);
        }
    }
    let nd = bump_depth(depth);
    let mut out: Vec<Option<GenExpr>> = Vec::new();
    let mut k: usize = 0;
    while k < args.len()
        invariant
            k <= args@.len(),
            m == arg_shape_models(args@),
            m.len() == args@.len(),
            out@.len() == k,
            nd == next_depth(depth),
            forall|i: int| 0 <= i < k ==> (match #[trigger] out@[i] {
                Option::Some(e) => Option::Some(expr_model(e)),
                Option::None => Option::None,
            }) == spec_adapter_for(m[i], dir, depth),
        decreases args@.len() - k,
    {
        proof {
            assert(decreases_to!(*args => (*args)@));
            assert(decreases_to!((*args)@ => (*args)@[k as int]));
            assert(decreases_to!((*args)@[k as int] => (*args)@[k as int].shape));
            lemma_arg_shape_models_index(args@, k as int);
        }
        let entry = if is_no_conversion(&args[k].shape) {
            Option::None
        } else {
            let body = generate(
                &args[k].shape,
                GenExpr::Param { depth: nd, index: 0 },
                dir,
                nd,
            );
            Option::Some(
                GenExpr::AdapterClosure {
                    kind: ClosureKind::SharedCall,
                    depth: nd,
                    params: 1,
                    body: Box::new(body),
                },
            )
        };
        out.push(entry);
        k = k + 1;
    }
    proof {
        lemma_opt_expr_models_len(out@);
        lemma_adapters_len(m, dir, depth);
        assert forall|i: int| 0 <= i < out@.len() implies opt_expr_models(out@)[i]
            == spec_adapters(m, dir, depth)[i] by {
            lemma_opt_expr_models_index(out@, i);
            lemma_adapters_index(m, dir, depth, i);
        }
        assert(opt_expr_models(out@) =~= spec_adapters(m, dir, depth));
    }
    out
}

/// The converted elements of a destructured tuple, in positional order.
fn build_tuple_body(elems: &Vec<OccurrenceShape>, dir: Direction, depth: usize) -> (r: Vec<
    GenExpr,
>)
    ensures
        r@.len() == elems@.len(),
        expr_models(r@) == spec_tuple_body(shape_models(elems@), dir, depth),
    decreases elems, elems@.len(),
{
    let ghost m = shape_models(elems@);
    proof {
        lemma_shape_models_len_pub(elems@);
    }
    let nd = bump_depth(depth);
    let mut out: Vec<GenExpr> = Vec::new();
    let mut k: usize = 0;
    while k < elems.len()
        invariant
            k <= elems@.len(),
            m == shape_models(elems@),
            m.len() == elems@.len(),
            out@.len() == k,
            nd == next_depth(depth),
            forall|i: int| 0 <= i < k ==> expr_model(#[trigger] out@[i]) == spec_generate(
                m[i],
                (SpecExpr::Param { depth: next_depth(depth), index: i as usize }),
                dir,
                next_depth(depth),
            ),
        decreases elems@.len() - k,
    {
        proof {
            assert(decreases_to!(*elems => (*elems)@));
            assert(decreases_to!((*elems)@ => (*elems)@[k as int]));
            lemma_shape_models_index(elems@, k as int);
        }
        let converted = generate(
            &elems[k],
            GenExpr::Param { depth: nd, index: k },
            dir,
            nd,
        );
        out.push(converted);
        k = k + 1;
    }
    proof {
        lemma_expr_models_len(out@);
        lemma_tuple_body_len(m, dir, depth);
        assert forall|i: int| 0 <= i < out@.len() implies expr_models(out@)[i] == spec_tuple_body(
            m,
            dir,
            depth,
        )[i] by {
            lemma_expr_models_index(out@, i);
            lemma_tuple_body_index(m, dir, depth, i);
        }
        assert(expr_models(out@) =~= spec_tuple_body(m, dir, depth));
    }
    out
}

/// The converted arguments handed to the captured closure inside a
/// generated adapter; each converts opposite to the adapter's own
/// direction.  `depth` is the adapter's own binder depth.
fn build_crossing_args(args: &Vec<OccurrenceShape>, dir: Direction, depth: usize) -> (r: Vec<
    GenExpr,
>)
    ensures
        r@.len() == args@.len(),
        expr_models(r@) == spec_crossing_args(shape_models(args@), dir, depth),
    decreases args, args@.len(),
{
    let ghost m = shape_models(args@);
    proof {
        lemma_shape_models_len_pub(args@);
    }
    let mut out: Vec<GenExpr> = Vec::new();
    let mut k: usize = 0;
    while k < args.len()
        invariant
            k <= args@.len(),
            m == shape_models(args@),
            m.len() == args@.len(),
            out@.len() == k,
            forall|i: int| 0 <= i < k ==> expr_model(#[trigger] out@[i]) == spec_generate(
                m[i],
                (SpecExpr::Param { depth, index: i as usize }),
                flip(dir),
                depth,
            ),
        decreases args@.len() - k,
    {
        proof {
            assert(decreases_to!(*args => (*args)@));
            assert(decreases_to!((*args)@ => (*args)@[k as int]));
            lemma_shape_models_index(args@, k as int);
        }
        let flipped = flip_direction(dir);
        let converted = generate(
            &args[k],
            GenExpr::Param { depth, index: k },
            flipped,
            depth,
        );
        out.push(converted);
        k = k + 1;
    }
    proof {
        lemma_expr_models_len(out@);
        lemma_crossing_args_len(m, dir, depth);
        assert forall|i: int| 0 <= i < out@.len() implies expr_models(out@)[i]
            == spec_crossing_args(m, dir, depth)[i] by {
            lemma_expr_models_index(out@, i);
            lemma_crossing_args_index(m, dir, depth, i);
        }
        assert(expr_models(out@) =~= spec_crossing_args(m, dir, depth));
    }
    out
}

} // verus!
