//! The runtime meaning of generated conversions.
//!
//! Generated adapters run far away, inside the user's compiled program.
//! This module gives them a semantics the verifier can reason about: a
//! small model of runtime values, a conversion function over occurrence
//! shapes that mirrors exactly what the generated expressions do, and an
//! application function for adapter closures.  The round-trip and
//! cardinality laws of the library are stated and proved against this
//! semantics, and the executable interpreter lets a test drive a whole
//! scenario end to end.

use vstd::prelude::*;

use crate::classify::{ArgShape, OccurrenceShape, SpecArgShape, SpecShape, WrapperKind,
    arg_shape_model, arg_shape_models, lemma_arg_shape_models_index, lemma_shape_models_index,
    shape_model, shape_models};
use crate::generate::{Direction, flip};
use crate::model::ClosureKind;

verus! {

/// A runtime value crossing the boundary.
#[derive(Debug, PartialEq)]
pub enum Value {
    /// A concrete ground value carrying text.
    Text(String),
    /// A concrete ground value carrying an integer.
    Number(i64),
    /// An opaque, type-erased handle around a concrete value.
    Handle(Box<Value>),
    /// An owned boxed value.
    Boxed(Box<Value>),
    /// A tuple of values.
    Tuple(Vec<Value>),
    /// A generic container: each entry holds one value per type argument
    /// of the container.
    Container(Vec<Vec<Value>>),
    /// A closure-like value.
    Func(Box<FuncValue>),
}

/// A closure-like value: its call-cardinality and what it does.
#[derive(Debug, PartialEq)]
pub struct FuncValue {
    pub kind: ClosureKind,
    pub body: FuncBody,
}

#[derive(Debug, PartialEq)]
pub enum FuncBody {
    /// Returns its argument unchanged.
    Identity,
    /// Returns a fixed value.
    Constant(Box<Value>),
    /// A generated boundary adapter around a captured closure: arguments
    /// convert opposite to `dir`, the result converts with `dir`.
    Adapter {
        arg_shapes: Vec<OccurrenceShape>,
        ret_shape: Box<OccurrenceShape>,
        dir: Direction,
        inner: Box<FuncValue>,
    },
}

/// Mathematical mirror of `Value`.
#[verifier::ext_equal]
pub enum SpecValue {
    Text(Seq<char>),
    Number(i64),
    Handle(Box<SpecValue>),
    Boxed(Box<SpecValue>),
    Tuple(Seq<SpecValue>),
    Container(Seq<Seq<SpecValue>>),
    Func(Box<SpecFunc>),
}

#[verifier::ext_equal]
pub struct SpecFunc {
    pub kind: ClosureKind,
    pub body: SpecFuncBody,
}

#[verifier::ext_equal]
pub enum SpecFuncBody {
    Identity,
    Constant(Box<SpecValue>),
    Adapter {
        arg_shapes: Seq<SpecShape>,
        ret_shape: Box<SpecShape>,
        dir: Direction,
        inner: Box<SpecFunc>,
    },
}

pub open spec fn value_model(v: Value) -> SpecValue
    decreases v, 1nat, 0nat,
{
    match v {
        Value::Text(s) => SpecValue::Text(s@),
        Value::Number(n) => SpecValue::Number(n),
        Value::Handle(b) => SpecValue::Handle(Box::new(value_model(*b))),
        Value::Boxed(b) => SpecValue::Boxed(Box::new(value_model(*b))),
        Value::Tuple(vs) => SpecValue::Tuple(value_models(vs@)),
        Value::Container(es) => SpecValue::Container(entry_models(es@)),
        Value::Func(f) => SpecValue::Func(Box::new(func_model(*f))),
    }
}

pub open spec fn value_models(s: Seq<Value>) -> Seq<SpecValue>
    decreases s, 0nat, s.len(),
{
    if s.len() == 0 {
        Seq::empty()
    } else {
        value_models(s.drop_last()).push(value_model(s.last()))
    }
}

pub open spec fn entry_models(s: Seq<Vec<Value>>) -> Seq<Seq<SpecValue>>
    decreases s, 0nat, s.len(),
{
    if s.len() == 0 {
        Seq::empty()
    } else {
        entry_models(s.drop_last()).push(value_models(s.last()@))
    }
}

pub open spec fn func_model(f: FuncValue) -> SpecFunc
    decreases f, 1nat, 0nat,
{
    SpecFunc { kind: f.kind, body: func_body_model(f.body) }
}

pub open spec fn func_body_model(b: FuncBody) -> SpecFuncBody
    decreases b, 1nat, 0nat,
{
    match b {
        FuncBody::Identity => SpecFuncBody::Identity,
        FuncBody::Constant(v) => SpecFuncBody::Constant(Box::new(value_model(*v))),
        FuncBody::Adapter { arg_shapes, ret_shape, dir, inner } => SpecFuncBody::Adapter {
            arg_shapes: shape_models(arg_shapes@),
            ret_shape: Box::new(shape_model(*ret_shape)),
            dir,
            inner: Box::new(func_model(*inner)),
        },
    }
}

impl View for Value {
    type V = SpecValue;

    open spec fn view(&self) -> SpecValue {
        value_model(*self)
    }
}

impl View for FuncValue {
    type V = SpecFunc;

    open spec fn view(&self) -> SpecFunc {
        func_model(*self)
    }
}

pub proof fn lemma_value_models_index(s: Seq<Value>, i: int)
    requires
        0 <= i < s.len(),
    ensures
        value_models(s).len() == s.len(),
        value_models(s)[i] == value_model(s[i]),
    decreases s.len(),
{
    lemma_value_models_len(s);
    if i < s.len() - 1 {
        lemma_value_models_index(s.drop_last(), i);
    } else {
        lemma_value_models_len(s.drop_last());
    }
}

pub proof fn lemma_value_models_len(s: Seq<Value>)
    ensures
        value_models(s).len() == s.len(),
    decreases s.len(),
{
    if s.len() > 0 {
        lemma_value_models_len(s.drop_last());
    }
}

pub proof fn lemma_entry_models_index(s: Seq<Vec<Value>>, i: int)
    requires
        0 <= i < s.len(),
    ensures
        entry_models(s).len() == s.len(),
        entry_models(s)[i] == value_models(s[i]@),
    decreases s.len(),
{
    lemma_entry_models_len(s);
    if i < s.len() - 1 {
        lemma_entry_models_index(s.drop_last(), i);
    } else {
        lemma_entry_models_len(s.drop_last());
    }
}

pub proof fn lemma_entry_models_len(s: Seq<Vec<Value>>)
    ensures
        entry_models(s).len() == s.len(),
    decreases s.len(),
{
    if s.len() > 0 {
        lemma_entry_models_len(s.drop_last());
    }
}

/// Whether a value has the form the conversion for `shape` expects in
/// direction `dir`.  This is exactly the condition under which the
/// generated code succeeds; a direct unwrap of anything but a handle is
/// the loud invariant violation of the generated downcast.
pub open spec fn fits(shape: SpecShape, dir: Direction, v: SpecValue) -> bool
    decreases shape, 2nat, 0nat,
{
    match shape {
        SpecShape::Direct => match dir {
            Direction::Wrap => true,
            Direction::Unwrap => v is Handle,
        },
        SpecShape::GenericArgs { args } => {
            &&& v is Container
            &&& forall|i: int|
                0 <= i < v->Container_0.len() ==> {
                    &&& (#[trigger] v->Container_0[i]).len() == args.len()
                    &&& forall|j: int|
                        0 <= j < args.len() ==> fits(
                            (#[trigger] args[j]).shape,
                            dir,
                            v->Container_0[i][j],
                        )
                }
        },
        SpecShape::TupleElems { elems } => {
            &&& v is Tuple
            &&& v->Tuple_0.len() == elems.len()
            &&& forall|i: int|
                0 <= i < elems.len() ==> fits(#[trigger] elems[i], dir, v->Tuple_0[i])
        },
        SpecShape::Wrapped { wrapper: WrapperKind::OwnedBox, inner } => {
            &&& v is Boxed
            &&& fits(*inner, dir, *v->Boxed_0)
        },
        SpecShape::Wrapped { wrapper: _, inner } => fits(*inner, dir, v),
        SpecShape::ClosureCrossing { .. } => v is Func,
        SpecShape::NoConversion => true,
    }
}

/// The value-level meaning of the conversion generated for `shape` in
/// direction `dir`.  On values that do not fit, it leaves the offending
/// position unchanged; the executable interpreter reports those loudly.
pub open spec fn spec_convert(shape: SpecShape, dir: Direction, v: SpecValue) -> SpecValue
    decreases shape, 2nat, 0nat,
{
    match shape {
        SpecShape::Direct => match dir {
            Direction::Wrap => SpecValue::Handle(Box::new(v)),
            Direction::Unwrap => match v {
                SpecValue::Handle(b) => *b,
                _ => v,
            },
        },
        SpecShape::GenericArgs { args } => match v {
            SpecValue::Container(entries) => SpecValue::Container(
                convert_entries(args, dir, entries),
            ),
            _ => v,
        },
        SpecShape::TupleElems { elems } => match v {
            SpecValue::Tuple(vs) => SpecValue::Tuple(convert_tuple(elems, dir, vs)),
            _ => v,
        },
        SpecShape::Wrapped { wrapper: WrapperKind::OwnedBox, inner } => match v {
            SpecValue::Boxed(b) => SpecValue::Boxed(Box::new(spec_convert(*inner, dir, *b))),
            _ => v,
        },
        SpecShape::Wrapped { wrapper: _, inner } => spec_convert(*inner, dir, v),
        SpecShape::ClosureCrossing { kind, args, ret } => match v {
            SpecValue::Func(f) => SpecValue::Func(
                Box::new(
                    SpecFunc {
                        kind,
                        body: SpecFuncBody::Adapter {
                            arg_shapes: args,
                            ret_shape: ret,
                            dir,
                            inner: f,
                        },
                    },
                ),
            ),
            _ => v,
        },
        SpecShape::NoConversion => v,
    }
}

/// Convert every entry of a generic container, preserving entry count and
/// order.
pub open spec fn convert_entries(
    args: Seq<SpecArgShape>,
    dir: Direction,
    entries: Seq<Seq<SpecValue>>,
) -> Seq<Seq<SpecValue>>
    decreases args, 1nat, entries.len(),
{
    if entries.len() == 0 {
        Seq::empty()
    } else {
        convert_entries(args, dir, entries.drop_last()).push(
            convert_slots(args, dir, entries.last()),
        )
    }
}

/// Convert one container entry: slot `j` converts with the shape of the
/// `j`-th generic argument.
pub open spec fn convert_slots(
    args: Seq<SpecArgShape>,
    dir: Direction,
    entry: Seq<SpecValue>,
) -> Seq<SpecValue>
    decreases args, 0nat, entry.len(),
{
    if entry.len() == 0 {
        Seq::empty()
    } else {
        let j = entry.len() - 1;
        convert_slots(args, dir, entry.drop_last()).push(
            if j < args.len() {
                spec_convert(args[j].shape, dir, entry.last())
            } else {
                entry.last()
            },
        )
    }
}

/// Convert the elements of a tuple, in positional order.
pub open spec fn convert_tuple(
    elems: Seq<SpecShape>,
    dir: Direction,
    vs: Seq<SpecValue>,
) -> Seq<SpecValue>
    decreases elems, 0nat, vs.len(),
{
    if vs.len() == 0 {
        Seq::empty()
    } else {
        let i = vs.len() - 1;
        convert_tuple(elems, dir, vs.drop_last()).push(
            if i < elems.len() {
                spec_convert(elems[i], dir, vs.last())
            } else {
                vs.last()
            },
        )
    }
}

pub proof fn lemma_convert_slots_index(
    args: Seq<SpecArgShape>,
    dir: Direction,
    entry: Seq<SpecValue>,
    j: int,
)
    requires
        0 <= j < entry.len(),
        entry.len() <= args.len(),
    ensures
        convert_slots(args, dir, entry).len() == entry.len(),
        convert_slots(args, dir, entry)[j] == spec_convert(args[j].shape, dir, entry[j]),
    decreases entry.len(),
{
    lemma_convert_slots_len(args, dir, entry);
    if j < entry.len() - 1 {
        lemma_convert_slots_index(args, dir, entry.drop_last(), j);
    } else {
        lemma_convert_slots_len(args, dir, entry.drop_last());
    }
}

pub proof fn lemma_convert_slots_len(args: Seq<SpecArgShape>, dir: Direction, entry: Seq<SpecValue>)
    ensures
        convert_slots(args, dir, entry).len() == entry.len(),
    decreases entry.len(),
{
    if entry.len() > 0 {
        lemma_convert_slots_len(args, dir, entry.drop_last());
    }
}

pub proof fn lemma_convert_entries_index(
    args: Seq<SpecArgShape>,
    dir: Direction,
    entries: Seq<Seq<SpecValue>>,
    i: int,
)
    requires
        0 <= i < entries.len(),
    ensures
        convert_entries(args, dir, entries).len() == entries.len(),
        convert_entries(args, dir, entries)[i] == convert_slots(args, dir, entries[i]),
    decreases entries.len(),
{
    lemma_convert_entries_len(args, dir, entries);
    if i < entries.len() - 1 {
        lemma_convert_entries_index(args, dir, entries.drop_last(), i);
    } else {
        lemma_convert_entries_len(args, dir, entries.drop_last());
    }
}

pub proof fn lemma_convert_entries_len(
    args: Seq<SpecArgShape>,
    dir: Direction,
    entries: Seq<Seq<SpecValue>>,
)
    ensures
        convert_entries(args, dir, entries).len() == entries.len(),
    decreases entries.len(),
{
    if entries.len() > 0 {
        lemma_convert_entries_len(args, dir, entries.drop_last());
    }
}

pub proof fn lemma_convert_tuple_index(
    elems: Seq<SpecShape>,
    dir: Direction,
    vs: Seq<SpecValue>,
    i: int,
)
    requires
        0 <= i < vs.len(),
        vs.len() <= elems.len(),
    ensures
        convert_tuple(elems, dir, vs).len() == vs.len(),
        convert_tuple(elems, dir, vs)[i] == spec_convert(elems[i], dir, vs[i]),
    decreases vs.len(),
{
    lemma_convert_tuple_len(elems, dir, vs);
    if i < vs.len() - 1 {
        lemma_convert_tuple_index(elems, dir, vs.drop_last(), i);
    } else {
        lemma_convert_tuple_len(elems, dir, vs.drop_last());
    }
}

pub proof fn lemma_convert_tuple_len(elems: Seq<SpecShape>, dir: Direction, vs: Seq<SpecValue>)
    ensures
        convert_tuple(elems, dir, vs).len() == vs.len(),
    decreases vs.len(),
{
    if vs.len() > 0 {
        lemma_convert_tuple_len(elems, dir, vs.drop_last());
    }
}

/// The value an adapter or base closure produces on given arguments.
pub open spec fn spec_apply(f: SpecFunc, args: Seq<SpecValue>) -> SpecValue
    decreases f,
{
    match f.body {
        SpecFuncBody::Identity => {
            if args.len() == 1 {
                args[0]
            } else {
                SpecValue::Tuple(args)
            }
        },
        SpecFuncBody::Constant(c) => *c,
        SpecFuncBody::Adapter { arg_shapes, ret_shape, dir, inner } => spec_convert(
            *ret_shape,
            dir,
            spec_apply(*inner, adapter_args(arg_shapes, dir, args)),
        ),
    }
}

/// The arguments an adapter hands to its captured closure: each received
/// argument converted in the direction **opposite** to the adapter's own.
pub open spec fn adapter_args(
    shapes: Seq<SpecShape>,
    dir: Direction,
    args: Seq<SpecValue>,
) -> Seq<SpecValue>
    decreases args.len(),
{
    if args.len() == 0 {
        Seq::empty()
    } else {
        let i = args.len() - 1;
        adapter_args(shapes, dir, args.drop_last()).push(
            if i < shapes.len() {
                spec_convert(shapes[i], flip(dir), args.last())
            } else {
                args.last()
            },
        )
    }
}

pub proof fn lemma_adapter_args_index(
    shapes: Seq<SpecShape>,
    dir: Direction,
    args: Seq<SpecValue>,
    i: int,
)
    requires
        0 <= i < args.len(),
        args.len() <= shapes.len(),
    ensures
        adapter_args(shapes, dir, args).len() == args.len(),
        adapter_args(shapes, dir, args)[i] == spec_convert(shapes[i], flip(dir), args[i]),
    decreases args.len(),
{
    lemma_adapter_args_len(shapes, dir, args);
    if i < args.len() - 1 {
        lemma_adapter_args_index(shapes, dir, args.drop_last(), i);
    } else {
        lemma_adapter_args_len(shapes, dir, args.drop_last());
    }
}

pub proof fn lemma_adapter_args_len(shapes: Seq<SpecShape>, dir: Direction, args: Seq<SpecValue>)
    ensures
        adapter_args(shapes, dir, args).len() == args.len(),
    decreases args.len(),
{
    if args.len() > 0 {
        lemma_adapter_args_len(shapes, dir, args.drop_last());
    }
}

/// A shape without closure crossings.
pub open spec fn first_order(shape: SpecShape) -> bool
    decreases shape, 1nat,
{
    match shape {
        SpecShape::Direct => true,
        SpecShape::GenericArgs { args } => first_order_args(args),
        SpecShape::TupleElems { elems } => first_order_list(elems),
        SpecShape::Wrapped { inner, .. } => first_order(*inner),
        SpecShape::ClosureCrossing { .. } => false,
        SpecShape::NoConversion => true,
    }
}

pub open spec fn first_order_list(s: Seq<SpecShape>) -> bool
    decreases s, 0nat, s.len(),
{
    if s.len() == 0 {
        true
    } else {
        first_order(s.last()) && first_order_list(s.drop_last())
    }
}

pub open spec fn first_order_args(s: Seq<SpecArgShape>) -> bool
    decreases s, 0nat, s.len(),
{
    if s.len() == 0 {
        true
    } else {
        first_order(s.last().shape) && first_order_args(s.drop_last())
    }
}

pub proof fn lemma_first_order_list_index(s: Seq<SpecShape>, i: int)
    requires
        first_order_list(s),
        0 <= i < s.len(),
    ensures
        first_order(s[i]),
    decreases s.len(),
{
    if i < s.len() - 1 {
        lemma_first_order_list_index(s.drop_last(), i);
    }
}

pub proof fn lemma_first_order_args_index(s: Seq<SpecArgShape>, i: int)
    requires
        first_order_args(s),
        0 <= i < s.len(),
    ensures
        first_order(s[i].shape),
    decreases s.len(),
{
    if i < s.len() - 1 {
        lemma_first_order_args_index(s.drop_last(), i);
    }
}

/// Round trip: for every first-order shape, wrapping a fitting concrete
/// value and unwrapping it again yields the value itself.
pub proof fn lemma_round_trip(shape: SpecShape, v: SpecValue)
    requires
        first_order(shape),
        fits(shape, Direction::Wrap, v),
    ensures
        fits(shape, Direction::Unwrap, spec_convert(shape, Direction::Wrap, v)),
        spec_convert(shape, Direction::Unwrap, spec_convert(shape, Direction::Wrap, v)) == v,
    decreases shape, 2nat,
{
    match shape {
        SpecShape::Direct => {},
        SpecShape::GenericArgs { args } => {
            let entries = v->Container_0;
            let wrapped = convert_entries(args, Direction::Wrap, entries);
            lemma_convert_entries_len(args, Direction::Wrap, entries);
            assert forall|i: int| 0 <= i < wrapped.len() implies {
                &&& (#[trigger] wrapped[i]).len() == args.len()
                &&& forall|j: int|
                    0 <= j < args.len() ==> fits(
                        (#[trigger] args[j]).shape,
                        Direction::Unwrap,
                        wrapped[i][j],
                    )
            } by {
                lemma_convert_entries_index(args, Direction::Wrap, entries, i);
                lemma_convert_slots_len(args, Direction::Wrap, entries[i]);
                assert forall|j: int| 0 <= j < args.len() implies fits(
                    (#[trigger] args[j]).shape,
                    Direction::Unwrap,
                    wrapped[i][j],
                ) by {
                    lemma_convert_slots_index(args, Direction::Wrap, entries[i], j);
                    lemma_first_order_args_index(args, j);
                    assert(decreases_to!(args => args[j]));
                    assert(decreases_to!(args[j] => args[j].shape));
                    lemma_round_trip(args[j].shape, entries[i][j]);
                }
            }
            let back = convert_entries(args, Direction::Unwrap, wrapped);
            lemma_convert_entries_len(args, Direction::Unwrap, wrapped);
            assert forall|i: int| 0 <= i < entries.len() implies #[trigger] back[i]
                == entries[i] by {
                lemma_convert_entries_index(args, Direction::Unwrap, wrapped, i);
                lemma_convert_entries_index(args, Direction::Wrap, entries, i);
                lemma_convert_slots_len(args, Direction::Wrap, entries[i]);
                lemma_convert_slots_len(args, Direction::Unwrap, wrapped[i]);
                assert forall|j: int| 0 <= j < entries[i].len() implies #[trigger] convert_slots(
                    args,
                    Direction::Unwrap,
                    wrapped[i],
                )[j] == entries[i][j] by {
                    lemma_convert_slots_index(args, Direction::Unwrap, wrapped[i], j);
                    lemma_convert_slots_index(args, Direction::Wrap, entries[i], j);
                    lemma_first_order_args_index(args, j);
                    assert(decreases_to!(args => args[j]));
                    assert(decreases_to!(args[j] => args[j].shape));
                    lemma_round_trip(args[j].shape, entries[i][j]);
                }
                assert(back[i] =~= entries[i]);
            }
            assert(back =~= entries);
            assert(spec_convert(shape, Direction::Unwrap, spec_convert(shape, Direction::Wrap, v))
                =~= v);
        },
        SpecShape::TupleElems { elems } => {
            let vs = v->Tuple_0;
            let wrapped = convert_tuple(elems, Direction::Wrap, vs);
            lemma_convert_tuple_len(elems, Direction::Wrap, vs);
            assert forall|i: int| 0 <= i < elems.len() implies fits(
                #[trigger] elems[i],
                Direction::Unwrap,
                wrapped[i],
            ) by {
                lemma_convert_tuple_index(elems, Direction::Wrap, vs, i);
                lemma_first_order_list_index(elems, i);
                assert(decreases_to!(elems => elems[i]));
                lemma_round_trip(elems[i], vs[i]);
            }
            let back = convert_tuple(elems, Direction::Unwrap, wrapped);
            lemma_convert_tuple_len(elems, Direction::Unwrap, wrapped);
            assert forall|i: int| 0 <= i < vs.len() implies #[trigger] back[i] == vs[i] by {
                lemma_convert_tuple_index(elems, Direction::Unwrap, wrapped, i);
                lemma_convert_tuple_index(elems, Direction::Wrap, vs, i);
                lemma_first_order_list_index(elems, i);
                assert(decreases_to!(elems => elems[i]));
                lemma_round_trip(elems[i], vs[i]);
            }
            assert(back =~= vs);
            assert(spec_convert(shape, Direction::Unwrap, spec_convert(shape, Direction::Wrap, v))
                =~= v);
        },
        SpecShape::Wrapped { wrapper: WrapperKind::OwnedBox, inner } => {
            lemma_round_trip(*inner, *v->Boxed_0);
            assert(spec_convert(shape, Direction::Unwrap, spec_convert(shape, Direction::Wrap, v))
                =~= v);
        },
        SpecShape::Wrapped { wrapper: _, inner } => {
            lemma_round_trip(*inner, v);
        },
        SpecShape::ClosureCrossing { .. } => {},
        SpecShape::NoConversion => {},
    }
}

/// The adapter built for a closure crossing carries exactly the
/// crossing's call-cardinality.
pub proof fn lemma_adapter_kind(
    kind: ClosureKind,
    args: Seq<SpecShape>,
    ret: Box<SpecShape>,
    dir: Direction,
    f: SpecFunc,
)
    ensures
        (spec_convert(
            (SpecShape::ClosureCrossing { kind, args, ret }),
            dir,
            SpecValue::Func(Box::new(f)),
        ) matches SpecValue::Func(g) && g.kind == kind),
{
}

/// Round trip through a closure crossing: wrapping a closure and
/// unwrapping it again yields a closure that behaves identically on every
/// fitting argument list, when the crossing's argument and result shapes
/// are first order.
pub proof fn lemma_adapter_round_trip(
    kind: ClosureKind,
    arg_shapes: Seq<SpecShape>,
    ret_shape: SpecShape,
    f: SpecFunc,
    args: Seq<SpecValue>,
)
    requires
        first_order_list(arg_shapes),
        first_order(ret_shape),
        args.len() == arg_shapes.len(),
        forall|i: int|
            0 <= i < args.len() ==> fits(#[trigger] arg_shapes[i], Direction::Wrap, args[i]),
        fits(ret_shape, Direction::Wrap, spec_apply(f, args)),
    ensures
        (spec_convert(
            (SpecShape::ClosureCrossing {
                kind,
                args: arg_shapes,
                ret: Box::new(ret_shape),
            }),
            Direction::Unwrap,
            spec_convert(
                (SpecShape::ClosureCrossing {
                    kind,
                    args: arg_shapes,
                    ret: Box::new(ret_shape),
                }),
                Direction::Wrap,
                SpecValue::Func(Box::new(f)),
            ),
        ) matches SpecValue::Func(g) && spec_apply(*g, args) == spec_apply(f, args)),
{
    let crossing = SpecShape::ClosureCrossing {
        kind,
        args: arg_shapes,
        ret: Box::new(ret_shape),
    };
    let mid = SpecFunc {
        kind,
        body: SpecFuncBody::Adapter {
            arg_shapes,
            ret_shape: Box::new(ret_shape),
            dir: Direction::Wrap,
            inner: Box::new(f),
        },
    };
    let outer = SpecFunc {
        kind,
        body: SpecFuncBody::Adapter {
            arg_shapes,
            ret_shape: Box::new(ret_shape),
            dir: Direction::Unwrap,
            inner: Box::new(mid),
        },
    };
    assert(spec_convert(crossing, Direction::Wrap, SpecValue::Func(Box::new(f)))
        == SpecValue::Func(Box::new(mid)));
    assert(spec_convert(crossing, Direction::Unwrap, SpecValue::Func(Box::new(mid)))
        == SpecValue::Func(Box::new(outer)));

    let wargs = adapter_args(arg_shapes, Direction::Unwrap, args);
    lemma_adapter_args_len(arg_shapes, Direction::Unwrap, args);
    let inner_args = adapter_args(arg_shapes, Direction::Wrap, wargs);
    lemma_adapter_args_len(arg_shapes, Direction::Wrap, wargs);
    assert forall|i: int| 0 <= i < args.len() implies #[trigger] inner_args[i] == args[i] by {
        lemma_adapter_args_index(arg_shapes, Direction::Wrap, wargs, i);
        lemma_adapter_args_index(arg_shapes, Direction::Unwrap, args, i);
        lemma_first_order_list_index(arg_shapes, i);
        lemma_round_trip(arg_shapes[i], args[i]);
    }
    assert(inner_args =~= args);
    assert(spec_apply(mid, wargs) == spec_convert(
        ret_shape,
        Direction::Wrap,
        spec_apply(f, args),
    ));
    lemma_round_trip(ret_shape, spec_apply(f, args));
    assert(spec_apply(outer, args) == spec_apply(f, args));
}

/// A copy of a shape with the same mathematical model.
pub fn shape_duplicate(s: &OccurrenceShape) -> (r: OccurrenceShape)
    ensures
        r@ == s@,
    decreases s, 1nat, 0nat,
{
    match s {
        OccurrenceShape::Direct => OccurrenceShape::Direct,
        OccurrenceShape::GenericArgs { args } => {
            proof {
                assert(decreases_to!(*s => (*s)->GenericArgs_args));
            }
            let out = arg_shapes_duplicate(args);
            let r = OccurrenceShape::GenericArgs { args: out };
            proof {
                assert(r@ =~= s@);
            }
            r
        },
        OccurrenceShape::TupleElems { elems } => {
            proof {
                assert(decreases_to!(*s => (*s)->TupleElems_elems));
            }
            let out = shapes_duplicate(elems);
            let r = OccurrenceShape::TupleElems { elems: out };
            proof {
                assert(r@ =~= s@);
            }
            r
        },
        OccurrenceShape::Wrapped { wrapper, inner } => {
            let r = OccurrenceShape::Wrapped {
                wrapper: *wrapper,
                inner: Box::new(shape_duplicate(inner)),
            };
            proof {
                assert(r@ =~= s@);
            }
            r
        },
        OccurrenceShape::ClosureCrossing { kind, args, ret } => {
            proof {
                assert(decreases_to!(*s => (*s)->ClosureCrossing_args));
            }
            let out = shapes_duplicate(args);
            let r = OccurrenceShape::ClosureCrossing {
                kind: *kind,
                args: out,
                ret: Box::new(shape_duplicate(ret)),
            };
            proof {
                assert(r@ =~= s@);
            }
            r
        },
        OccurrenceShape::NoConversion => OccurrenceShape::NoConversion,
    }
}

pub fn shapes_duplicate(ss: &Vec<OccurrenceShape>) -> (r: Vec<OccurrenceShape>)
    ensures
        r@.len() == ss@.len(),
        shape_models(r@) == shape_models(ss@),
    decreases ss, 0nat, ss@.len(),
{
    let mut out: Vec<OccurrenceShape> = Vec::new();
    let mut k: usize = 0;
    while k < ss.len()
        invariant
            k <= ss@.len(),
            out@.len() == k,
            forall|i: int| 0 <= i < k ==> shape_model(#[trigger] out@[i]) == shape_model(ss@[i]),
        decreases ss@.len() - k,
    {
        proof {
            assert(decreases_to!(*ss => (*ss)@));
            assert(decreases_to!((*ss)@ => (*ss)@[k as int]));
        }
        out.push(shape_duplicate(&ss[k]));
        k = k + 1;
    }
    proof {
        lemma_shape_models_agree(out@, ss@);
    }
    out
}

proof fn lemma_shape_models_agree(a: Seq<OccurrenceShape>, b: Seq<OccurrenceShape>)
    requires
        a.len() == b.len(),
        forall|i: int| 0 <= i < a.len() ==> shape_model(#[trigger] a[i]) == shape_model(b[i]),
    ensures
        shape_models(a) == shape_models(b),
    decreases a.len(),
{
    if a.len() > 0 {
        assert forall|i: int| 0 <= i < a.drop_last().len() implies shape_model(
            #[trigger] a.drop_last()[i],
        ) == shape_model(b.drop_last()[i]) by {
            assert(a.drop_last()[i] == a[i]);
            assert(b.drop_last()[i] == b[i]);
            assert(shape_model(a[i]) == shape_model(b[i]));
        }
        lemma_shape_models_agree(a.drop_last(), b.drop_last());
        assert(shape_model(a.last()) == shape_model(b.last()));
        assert(shape_models(a) =~= shape_models(b));
    } else {
        assert(shape_models(a) =~= shape_models(b));
    }
}

pub fn arg_shapes_duplicate(ss: &Vec<ArgShape>) -> (r: Vec<ArgShape>)
    ensures
        r@.len() == ss@.len(),
        arg_shape_models(r@) == arg_shape_models(ss@),
    decreases ss, 0nat, ss@.len(),
{
    let mut out: Vec<ArgShape> = Vec::new();
    let mut k: usize = 0;
    while k < ss.len()
        invariant
            k <= ss@.len(),
            out@.len() == k,
            forall|i: int| 0 <= i < k ==> arg_shape_model(#[trigger] out@[i]) == arg_shape_model(
                ss@[i],
            ),
        decreases ss@.len() - k,
    {
        proof {
            assert(decreases_to!(*ss => (*ss)@));
            assert(decreases_to!((*ss)@ => (*ss)@[k as int]));
            assert(decreases_to!((*ss)@[k as int] => (*ss)@[k as int].shape));
        }
        let entry = ArgShape {
            shape: shape_duplicate(&ss[k].shape),
            original: ss[k].original.duplicate(),
            converted: ss[k].converted.duplicate(),
        };
        proof {
            assert(arg_shape_model(entry) =~= arg_shape_model(ss@[k as int]));
        }
        out.push(entry);
        k = k + 1;
    }
    proof {
        lemma_arg_models_agree(out@, ss@);
    }
    out
}

proof fn lemma_arg_models_agree(a: Seq<ArgShape>, b: Seq<ArgShape>)
    requires
        a.len() == b.len(),
        forall|i: int| 0 <= i < a.len() ==> arg_shape_model(#[trigger] a[i]) == arg_shape_model(
            b[i],
        ),
    ensures
        arg_shape_models(a) == arg_shape_models(b),
    decreases a.len(),
{
    if a.len() > 0 {
        assert forall|i: int| 0 <= i < a.drop_last().len() implies arg_shape_model(
            #[trigger] a.drop_last()[i],
        ) == arg_shape_model(b.drop_last()[i]) by {
            assert(a.drop_last()[i] == a[i]);
            assert(b.drop_last()[i] == b[i]);
            assert(arg_shape_model(a[i]) == arg_shape_model(b[i]));
        }
        lemma_arg_models_agree(a.drop_last(), b.drop_last());
        assert(arg_shape_model(a.last()) == arg_shape_model(b.last()));
        assert(arg_shape_models(a) =~= arg_shape_models(b));
    } else {
        assert(arg_shape_models(a) =~= arg_shape_models(b));
    }
}

/// A copy of a runtime value with the same mathematical model.
pub fn dup_value(v: &Value) -> (r: Value)
    ensures
        r@ == v@,
    decreases v, 2nat, 0nat,
{
    match v {
        Value::Text(s) => Value::Text(s.clone()),
        Value::Number(n) => Value::Number(*n),
        Value::Handle(b) => {
            let r = Value::Handle(Box::new(dup_value(b)));
            proof {
                assert(r@ =~= v@);
            }
            r
        },
        Value::Boxed(b) => {
            let r = Value::Boxed(Box::new(dup_value(b)));
            proof {
                assert(r@ =~= v@);
            }
            r
        },
        Value::Tuple(vs) => {
            proof {
                assert(decreases_to!(*v => (*v)->Tuple_0));
            }
            let out = dup_values(vs);
            let r = Value::Tuple(out);
            proof {
                assert(r@ =~= v@);
            }
            r
        },
        Value::Container(es) => {
            proof {
                assert(decreases_to!(*v => (*v)->Container_0));
            }
            let out = dup_entries(es);
            let r = Value::Container(out);
            proof {
                assert(r@ =~= v@);
            }
            r
        },
        Value::Func(f) => {
            let r = Value::Func(Box::new(dup_func(f)));
            proof {
                assert(r@ =~= v@);
            }
            r
        },
    }
}

pub fn dup_values(vs: &Vec<Value>) -> (r: Vec<Value>)
    ensures
        r@.len() == vs@.len(),
        value_models(r@) == value_models(vs@),
    decreases vs, 1nat, vs@.len(),
{
    let mut out: Vec<Value> = Vec::new();
    let mut k: usize = 0;
    while k < vs.len()
        invariant
            k <= vs@.len(),
            out@.len() == k,
            forall|i: int| 0 <= i < k ==> value_model(#[trigger] out@[i]) == value_model(vs@[i]),
        decreases vs@.len() - k,
    {
        proof {
            assert(decreases_to!(*vs => (*vs)@));
            assert(decreases_to!((*vs)@ => (*vs)@[k as int]));
        }
        out.push(dup_value(&vs[k]));
        k = k + 1;
    }
    proof {
        lemma_value_models_agree(out@, vs@);
    }
    out
}

proof fn lemma_value_models_agree(a: Seq<Value>, b: Seq<Value>)
    requires
        a.len() == b.len(),
        forall|i: int| 0 <= i < a.len() ==> value_model(#[trigger] a[i]) == value_model(b[i]),
    ensures
        value_models(a) == value_models(b),
    decreases a.len(),
{
    if a.len() > 0 {
        assert forall|i: int| 0 <= i < a.drop_last().len() implies value_model(
            #[trigger] a.drop_last()[i],
        ) == value_model(b.drop_last()[i]) by {
            assert(a.drop_last()[i] == a[i]);
            assert(b.drop_last()[i] == b[i]);
            assert(value_model(a[i]) == value_model(b[i]));
        }
        lemma_value_models_agree(a.drop_last(), b.drop_last());
        assert(value_model(a.last()) == value_model(b.last()));
        assert(value_models(a) =~= value_models(b));
    } else {
        assert(value_models(a) =~= value_models(b));
    }
}

pub fn dup_entries(es: &Vec<Vec<Value>>) -> (r: Vec<Vec<Value>>)
    ensures
        r@.len() == es@.len(),
        entry_models(r@) == entry_models(es@),
    decreases es, 1nat, es@.len(),
{
    let mut out: Vec<Vec<Value>> = Vec::new();
    let mut k: usize = 0;
    while k < es.len()
        invariant
            k <= es@.len(),
            out@.len() == k,
            forall|i: int| 0 <= i < k ==> value_models(#[trigger] out@[i]@) == value_models(
                es@[i]@,
            ),
        decreases es@.len() - k,
    {
        proof {
            assert(decreases_to!(*es => (*es)@));
            assert(decreases_to!((*es)@ => (*es)@[k as int]));
            assert(decreases_to!((*es)@[k as int] => (*es)@[k as int]@));
        }
        out.push(dup_values(&es[k]));
        k = k + 1;
    }
    proof {
        lemma_entry_models_agree(out@, es@);
    }
    out
}

proof fn lemma_entry_models_agree(a: Seq<Vec<Value>>, b: Seq<Vec<Value>>)
    requires
        a.len() == b.len(),
        forall|i: int| 0 <= i < a.len() ==> value_models(#[trigger] a[i]@) == value_models(b[i]@),
    ensures
        entry_models(a) == entry_models(b),
    decreases a.len(),
{
    if a.len() > 0 {
        assert forall|i: int| 0 <= i < a.drop_last().len() implies value_models(
            #[trigger] a.drop_last()[i]@,
        ) == value_models(b.drop_last()[i]@) by {
            assert(a.drop_last()[i] == a[i]);
            assert(b.drop_last()[i] == b[i]);
            assert(value_models(a[i]@) == value_models(b[i]@));
        }
        lemma_entry_models_agree(a.drop_last(), b.drop_last());
        assert(value_models(a.last()@) == value_models(b.last()@));
        assert(entry_models(a) =~= entry_models(b));
    } else {
        assert(entry_models(a) =~= entry_models(b));
    }
}

/// A copy of a closure value with the same mathematical model.
pub fn dup_func(f: &FuncValue) -> (r: FuncValue)
    ensures
        r@ == f@,
    decreases f, 2nat, 0nat,
{
    let body = match &f.body {
        FuncBody::Identity => FuncBody::Identity,
        FuncBody::Constant(v) => {
            proof {
                assert(decreases_to!(*f => f.body));
                assert(decreases_to!(f.body => f.body->Constant_0));
            }
            FuncBody::Constant(Box::new(dup_value(v)))
        },
        FuncBody::Adapter { arg_shapes, ret_shape, dir, inner } => {
            proof {
                assert(decreases_to!(*f => f.body));
                assert(decreases_to!(f.body => f.body->Adapter_inner));
            }
            FuncBody::Adapter {
                arg_shapes: shapes_duplicate(arg_shapes),
                ret_shape: Box::new(shape_duplicate(ret_shape)),
                dir: *dir,
                inner: Box::new(dup_func(inner)),
            }
        },
    };
    let r = FuncValue { kind: f.kind, body };
    proof {
        assert(r@ =~= f@);
    }
    r
}

/// The loud failure of generated conversion code: the opaque handle's
/// dynamic type does not match what the adapter expects.  This signals an
/// invariant violation elsewhere, not a recoverable condition.
#[derive(Clone, Copy, Debug, PartialEq, Eq, Structural)]
pub enum ConversionFault {
    TypeMismatch,
}

/// Run the conversion generated for `shape` on a runtime value.  It
/// succeeds exactly on values that fit the shape, and then returns
/// precisely the converted value of the semantics.
pub fn convert_value(shape: &OccurrenceShape, dir: Direction, v: &Value) -> (r: Result<
    Value,
    ConversionFault,
>)
    ensures
        r is Ok <==> fits(shape@, dir, v@),
        (r matches Ok(w) ==> w@ == spec_convert(shape@, dir, v@)),
    decreases shape, 2nat, 0nat,
{
    match shape {
        OccurrenceShape::Direct => match dir {
            Direction::Wrap => {
                let r = Value::Handle(Box::new(dup_value(v)));
                proof {
                    assert(r@ =~= spec_convert(shape@, dir, v@));
                }
                Result::Ok(r)
            },
            Direction::Unwrap => match v {
                Value::Handle(b) => Result::Ok(dup_value(b)),
                _ => Result::Err(ConversionFault::TypeMismatch),
            },
        },
        OccurrenceShape::GenericArgs { args } => match v {
            Value::Container(es) => {
                proof {
                    assert(decreases_to!(*shape => (*shape)->GenericArgs_args));
                    lemma_entry_models_len(es@);
                }
                match convert_container(args, dir, es) {
                    Result::Err(e) => Result::Err(e),
                    Result::Ok(w) => {
                        let r = Value::Container(w);
                        proof {
                            assert(r@ =~= spec_convert(shape@, dir, v@));
                        }
                        Result::Ok(r)
                    },
                }
            },
            _ => Result::Err(ConversionFault::TypeMismatch),
        },
        OccurrenceShape::TupleElems { elems } => match v {
            Value::Tuple(vs) => {
                proof {
                    assert(decreases_to!(*shape => (*shape)->TupleElems_elems));
                }
                match convert_elems(elems, dir, vs) {
                    Result::Err(e) => Result::Err(e),
                    Result::Ok(w) => {
                        let r = Value::Tuple(w);
                        proof {
                            assert(r@ =~= spec_convert(shape@, dir, v@));
                        }
                        Result::Ok(r)
                    },
                }
            },
            _ => Result::Err(ConversionFault::TypeMismatch),
        },
        OccurrenceShape::Wrapped { wrapper: WrapperKind::OwnedBox, inner } => match v {
            Value::Boxed(b) => {
                proof {
                    assert(decreases_to!(*shape => (*shape)->Wrapped_inner));
                }
                match convert_value(inner, dir, b) {
                    Result::Err(e) => Result::Err(e),
                    Result::Ok(w) => {
                        let r = Value::Boxed(Box::new(w));
                        proof {
                            assert(r@ =~= spec_convert(shape@, dir, v@));
                        }
                        Result::Ok(r)
                    },
                }
            },
            _ => Result::Err(ConversionFault::TypeMismatch),
        },
        OccurrenceShape::Wrapped { wrapper: _, inner } => {
            proof {
                assert(decreases_to!(*shape => (*shape)->Wrapped_inner));
            }
            convert_value(inner, dir, v)
        },
        OccurrenceShape::ClosureCrossing { kind, args, ret } => match v {
            Value::Func(f) => {
                let dup_shapes = shapes_duplicate(args);
                let dup_ret = shape_duplicate(ret);
                let dup_inner = dup_func(f);
                let fv = FuncValue {
                    kind: *kind,
                    body: FuncBody::Adapter {
                        arg_shapes: dup_shapes,
                        ret_shape: Box::new(dup_ret),
                        dir,
                        inner: Box::new(dup_inner),
                    },
                };
                proof {
                    assert(fv@ =~~= SpecFunc {
                        kind: *kind,
                        body: SpecFuncBody::Adapter {
                            arg_shapes: shape_models(args@),
                            ret_shape: Box::new(shape_model(**ret)),
                            dir,
                            inner: Box::new(func_model(**f)),
                        },
                    });
                    assert(spec_convert(shape@, dir, v@) matches SpecValue::Func(g) && *g == fv@);
                }
                let r = Value::Func(Box::new(fv));
                proof {
                    assert(r@ =~~= spec_convert(shape@, dir, v@));
                }
                Result::Ok(r)
            },
            _ => Result::Err(ConversionFault::TypeMismatch),
        },
        OccurrenceShape::NoConversion => Result::Ok(dup_value(v)),
    }
}

/// Convert every entry of a container value.
fn convert_container(args: &Vec<ArgShape>, dir: Direction, es: &Vec<Vec<Value>>) -> (r: Result<
    Vec<Vec<Value>>,
    ConversionFault,
>)
    ensures
        r is Ok <==> (forall|i: int|
            0 <= i < es@.len() ==> {
                &&& (#[trigger] entry_models(es@)[i]).len() == arg_shape_models(args@).len()
                &&& forall|j: int|
                    0 <= j < arg_shape_models(args@).len() ==> fits(
                        (#[trigger] arg_shape_models(args@)[j]).shape,
                        dir,
                        entry_models(es@)[i][j],
                    )
            }),
        (r matches Ok(w) ==> {
            &&& w@.len() == es@.len()
            &&& entry_models(w@) == convert_entries(arg_shape_models(args@), dir, entry_models(es@))
        }),
    decreases args, 1nat, 0nat,
{
    let ghost ma = arg_shape_models(args@);
    let ghost me = entry_models(es@);
    proof {
        lemma_entry_models_len(es@);
    }
    let mut out: Vec<Vec<Value>> = Vec::new();
    let mut k: usize = 0;
    while k < es.len()
        invariant
            k <= es@.len(),
            ma == arg_shape_models(args@),
            me == entry_models(es@),
            me.len() == es@.len(),
            out@.len() == k,
            forall|i: int| 0 <= i < k ==> {
                &&& (#[trigger] me[i]).len() == ma.len()
                &&& (forall|j: int| 0 <= j < ma.len() ==> fits((#[trigger] ma[j]).shape, dir, me[i][j]))
                &&& value_models(out@[i]@) == convert_slots(ma, dir, me[i])
            },
        decreases es@.len() - k,
    {
        proof {
            assert(decreases_to!(*es => (*es)@));
            assert(decreases_to!((*es)@ => (*es)@[k as int]));
            lemma_entry_models_index(es@, k as int);
        }
        match convert_entry(args, dir, &es[k]) {
            Result::Err(e) => {
                return Result::Err(e);
            },
            Result::Ok(w) => {
                out.push(w);
            },
        }
        k = k + 1;
    }
    proof {
        lemma_entry_models_len(out@);
        lemma_convert_entries_len(ma, dir, me);
        assert forall|i: int| 0 <= i < out@.len() implies entry_models(out@)[i] == convert_entries(
            ma,
            dir,
            me,
        )[i] by {
            lemma_entry_models_index(out@, i);
            lemma_convert_entries_index(ma, dir, me, i);
        }
        assert(entry_models(out@) =~= convert_entries(ma, dir, me));
    }
    Result::Ok(out)
}

/// Convert one container entry, slot by slot.
fn convert_entry(args: &Vec<ArgShape>, dir: Direction, entry: &Vec<Value>) -> (r: Result<
    Vec<Value>,
    ConversionFault,
>)
    ensures
        r is Ok <==> (value_models(entry@).len() == arg_shape_models(args@).len() && (forall|
            j: int,
        |
            0 <= j < arg_shape_models(args@).len() ==> fits(
                (#[trigger] arg_shape_models(args@)[j]).shape,
                dir,
                value_models(entry@)[j],
            ))),
        (r matches Ok(w) ==> value_models(w@) == convert_slots(
            arg_shape_models(args@),
            dir,
            value_models(entry@),
        )),
    decreases args, 0nat, 0nat,
{
    let ghost ma = arg_shape_models(args@);
    let ghost mv = value_models(entry@);
    proof {
        lemma_value_models_len(entry@);
        if args@.len() > 0 {
            lemma_arg_shape_models_index(args@, 0);
        }
    }
    if entry.len() != args.len() {
        return Result::Err(ConversionFault::TypeMismatch);
    }
    let mut out: Vec<Value> = Vec::new();
    let mut j: usize = 0;
    while j < entry.len()
        invariant
            j <= entry@.len(),
            entry@.len() == args@.len(),
            ma == arg_shape_models(args@),
            mv == value_models(entry@),
            mv.len() == entry@.len(),
            ma.len() == args@.len(),
            out@.len() == j,
            forall|i: int| 0 <= i < j ==> {
                &&& fits((#[trigger] ma[i]).shape, dir, mv[i])
                &&& value_model(out@[i]) == spec_convert(ma[i].shape, dir, mv[i])
            },
        decreases entry@.len() - j,
    {
        proof {
            assert(decreases_to!(*args => (*args)@));
            assert(decreases_to!((*args)@ => (*args)@[j as int]));
            assert(decreases_to!((*args)@[j as int] => (*args)@[j as int].shape));
            lemma_arg_shape_models_index(args@, j as int);
            lemma_value_models_index(entry@, j as int);
        }
        match convert_value(&args[j].shape, dir, &entry[j]) {
            Result::Err(e) => {
                return Result::Err(e);
            },
            Result::Ok(w) => {
                out.push(w);
            },
        }
        j = j + 1;
    }
    proof {
        lemma_value_models_len(out@);
        lemma_convert_slots_len(ma, dir, mv);
        assert forall|i: int| 0 <= i < out@.len() implies value_models(out@)[i] == convert_slots(
            ma,
            dir,
            mv,
        )[i] by {
            lemma_value_models_index(out@, i);
            lemma_convert_slots_index(ma, dir, mv, i);
        }
        assert(value_models(out@) =~= convert_slots(ma, dir, mv));
    }
    Result::Ok(out)
}

/// Convert the elements of a tuple value, in positional order.
fn convert_elems(elems: &Vec<OccurrenceShape>, dir: Direction, vs: &Vec<Value>) -> (r: Result<
    Vec<Value>,
    ConversionFault,
>)
    ensures
        r is Ok <==> (value_models(vs@).len() == shape_models(elems@).len() && (forall|i: int|
            0 <= i < shape_models(elems@).len() ==> fits(
                #[trigger] shape_models(elems@)[i],
                dir,
                value_models(vs@)[i],
            ))),
        (r matches Ok(w) ==> value_models(w@) == convert_tuple(
            shape_models(elems@),
            dir,
            value_models(vs@),
        )),
    decreases elems, 0nat, 0nat,
{
    let ghost msh = shape_models(elems@);
    let ghost mv = value_models(vs@);
    proof {
        lemma_value_models_len(vs@);
        if elems@.len() > 0 {
            lemma_shape_models_index(elems@, 0);
        }
    }
    if vs.len() != elems.len() {
        return Result::Err(ConversionFault::TypeMismatch);
    }
    let mut out: Vec<Value> = Vec::new();
    let mut j: usize = 0;
    while j < vs.len()
        invariant
            j <= vs@.len(),
            vs@.len() == elems@.len(),
            msh == shape_models(elems@),
            mv == value_models(vs@),
            mv.len() == vs@.len(),
            msh.len() == elems@.len(),
            out@.len() == j,
            forall|i: int| 0 <= i < j ==> {
                &&& fits(#[trigger] msh[i], dir, mv[i])
                &&& value_model(out@[i]) == spec_convert(msh[i], dir, mv[i])
            },
        decreases vs@.len() - j,
    {
        proof {
            assert(decreases_to!(*elems => (*elems)@));
            assert(decreases_to!((*elems)@ => (*elems)@[j as int]));
            lemma_shape_models_index(elems@, j as int);
            lemma_value_models_index(vs@, j as int);
        }
        match convert_value(&elems[j], dir, &vs[j]) {
            Result::Err(e) => {
                return Result::Err(e);
            },
            Result::Ok(w) => {
                out.push(w);
            },
        }
        j = j + 1;
    }
    proof {
        lemma_value_models_len(out@);
        lemma_convert_tuple_len(msh, dir, mv);
        assert forall|i: int| 0 <= i < out@.len() implies value_models(out@)[i] == convert_tuple(
            msh,
            dir,
            mv,
        )[i] by {
            lemma_value_models_index(out@, i);
            lemma_convert_tuple_index(msh, dir, mv, i);
        }
        assert(value_models(out@) =~= convert_tuple(msh, dir, mv));
    }
    Result::Ok(out)
}

/// The condition under which applying a closure value succeeds: every
/// conversion performed by the adapters along the way fits.
pub open spec fn apply_fits(f: SpecFunc, args: Seq<SpecValue>) -> bool
    decreases f,
{
    match f.body {
        SpecFuncBody::Identity => true,
        SpecFuncBody::Constant(_) => true,
        SpecFuncBody::Adapter { arg_shapes, ret_shape, dir, inner } => {
            &&& args.len() == arg_shapes.len()
            &&& (forall|i: int|
                0 <= i < args.len() ==> fits(#[trigger] arg_shapes[i], flip(dir), args[i]))
            &&& apply_fits(*inner, adapter_args(arg_shapes, dir, args))
            &&& fits(*ret_shape, dir, spec_apply(*inner, adapter_args(arg_shapes, dir, args)))
        },
    }
}

/// Shared evaluation core of the three invocation disciplines.
#[verifier::loop_isolation(false)]
fn invoke(f: &FuncValue, args: Vec<Value>) -> (r: Result<Value, ConversionFault>)
    ensures
        r is Ok <==> apply_fits(f@, value_models(args@)),
        (r matches Ok(w) ==> w@ == spec_apply(f@, value_models(args@))),
    decreases f,
{
    let ghost mv = value_models(args@);
    proof {
        lemma_value_models_len(args@);
    }
    match &f.body {
        FuncBody::Identity => {
            if args.len() == 1 {
                proof {
                    lemma_value_models_index(args@, 0);
                }
                let mut args = args;
                let x = args.pop().unwrap();
                Result::Ok(x)
            } else {
                Result::Ok(Value::Tuple(args))
            }
        },
        FuncBody::Constant(c) => Result::Ok(dup_value(c)),
        FuncBody::Adapter { arg_shapes, ret_shape, dir, inner } => {
            let ghost msh = shape_models(arg_shapes@);
            proof {
                if arg_shapes@.len() > 0 {
                    lemma_shape_models_index(arg_shapes@, 0);
                }
            }
            if args.len() != arg_shapes.len() {
                return Result::Err(ConversionFault::TypeMismatch);
            }
            let flipped = crate::generate::flip_direction(*dir);
            let mut conv: Vec<Value> = Vec::new();
            let mut j: usize = 0;
            while j < args.len()
                invariant
                    j <= args@.len(),
                    args@.len() == arg_shapes@.len(),
                    mv == value_models(args@),
                    mv.len() == args@.len(),
                    msh == shape_models(arg_shapes@),
                    msh.len() == arg_shapes@.len(),
                    flipped == flip(*dir),
                    conv@.len() == j,
                    forall|i: int| 0 <= i < j ==> {
                        &&& fits(#[trigger] msh[i], flip(*dir), mv[i])
                        &&& value_model(conv@[i]) == spec_convert(msh[i], flip(*dir), mv[i])
                    },
                decreases args@.len() - j,
            {
                proof {
                    lemma_shape_models_index(arg_shapes@, j as int);
                    lemma_value_models_index(args@, j as int);
                }
                match convert_value(&arg_shapes[j], flipped, &args[j]) {
                    Result::Err(e) => {
                        proof {
                            assert(f@.body matches SpecFuncBody::Adapter { arg_shapes: s2, .. }
                                && s2 == msh);
                            assert(!fits(msh[j as int], flip(*dir), mv[j as int]));
                            assert(!apply_fits(f@, mv));
                        }
                        return Result::Err(e);
                    },
                    Result::Ok(w) => {
                        conv.push(w);
                    },
                }
                j = j + 1;
            }
            proof {
                assert(decreases_to!(*f => f.body));
                assert(decreases_to!(f.body => f.body->Adapter_inner));
                lemma_value_models_len(conv@);
                lemma_adapter_args_len(msh, *dir, mv);
                assert forall|i: int| 0 <= i < conv@.len() implies value_models(conv@)[i]
                    == adapter_args(msh, *dir, mv)[i] by {
                    lemma_value_models_index(conv@, i);
                    lemma_adapter_args_index(msh, *dir, mv, i);
                }
                assert(value_models(conv@) =~= adapter_args(msh, *dir, mv));
            }
            match invoke(inner, conv) {
                Result::Err(e) => Result::Err(e),
                Result::Ok(mid) => {
                    match convert_value(ret_shape, *dir, &mid) {
                        Result::Err(e) => Result::Err(e),
                        Result::Ok(out) => Result::Ok(out),
                    }
                },
            }
        },
    }
}

/// Invoke a call-once closure value; the value is consumed by the call,
/// so a second invocation of the same adapter is rejected by the
/// borrow checker, exactly as the generated adapter behaves.
pub fn call_once(f: FuncValue, args: Vec<Value>) -> (r: Result<Value, ConversionFault>)
    ensures
        r is Ok <==> apply_fits(f@, value_models(args@)),
        (r matches Ok(w) ==> w@ == spec_apply(f@, value_models(args@))),
{
    invoke(&f, args)
}

/// Invoke a shared-callable closure value; shared access suffices and
/// the capture is never consumed, so it may be called any number of
/// times.
pub fn call_shared(f: &FuncValue, args: Vec<Value>) -> (r: Result<Value, ConversionFault>)
    requires
        f@.kind == ClosureKind::SharedCall,
    ensures
        r is Ok <==> apply_fits(f@, value_models(args@)),
        (r matches Ok(w) ==> w@ == spec_apply(f@, value_models(args@))),
{
    invoke(f, args)
}

/// Invoke an exclusive-callable closure value; each invocation demands
/// exclusive access, and the value itself is left unchanged.
pub fn call_exclusive(f: &mut FuncValue, args: Vec<Value>) -> (r: Result<Value, ConversionFault>)
    requires
        old(f)@.kind != ClosureKind::OnceCall,
    ensures
        *final(f) == *old(f),
        r is Ok <==> apply_fits(old(f)@, value_models(args@)),
        (r matches Ok(w) ==> w@ == spec_apply(old(f)@, value_models(args@))),
{
    invoke(f, args)
}

} // verus!
