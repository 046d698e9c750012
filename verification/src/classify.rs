//! The occurrence classifier.
//!
//! `classify` inspects one type expression and computes an
//! `OccurrenceShape`: a description of every position inside the type where
//! a value has to be converted between its concrete representation and the
//! opaque-handle representation.  `rewrite_type` performs the matching
//! substitution on the type itself, replacing every direct occurrence of
//! the interface's own type or of a dynamic parameter with the opaque
//! handle type recorded in the context.

use vstd::prelude::*;

use crate::model::{ClosureKind, GenError, SpecType, TypeExpression, string_eq, type_model, type_models, lemma_type_models_index, lemma_type_models_len};
use vstd::string::StringExecFns;

verus! {

/// The wrapper a converted position sits beneath.
#[derive(Clone, Copy, Debug, PartialEq, Eq, Structural)]
pub enum WrapperKind {
    OwnedBox,
    SharedRef,
    ExclusiveRef,
}

/// One generic argument of a converted container position: its shape plus
/// the argument's type before and after substitution (the pair is needed
/// later to type the adapter closures of the generic map primitive).
#[derive(Debug, PartialEq, Eq)]
pub struct ArgShape {
    pub shape: OccurrenceShape,
    pub original: TypeExpression,
    pub converted: TypeExpression,
}

/// Where, inside one type position, conversion is required.
#[derive(Debug, PartialEq, Eq)]
pub enum OccurrenceShape {
    /// The whole position is exactly the interface type or exactly a
    /// dynamic parameter.
    Direct,
    /// A named container whose generic arguments need conversion.
    GenericArgs { args: Vec<ArgShape> },
    /// A tuple, converted element by element in positional order.
    TupleElems { elems: Vec<OccurrenceShape> },
    /// A converted position beneath a box or a reference.
    Wrapped { wrapper: WrapperKind, inner: Box<OccurrenceShape> },
    /// A closure boundary: arguments and result convert with opposite
    /// variance.
    ClosureCrossing { kind: ClosureKind, args: Vec<OccurrenceShape>, ret: Box<OccurrenceShape> },
    /// Nothing to convert; the position is emitted unchanged.
    NoConversion,
}

#[verifier::ext_equal]
pub struct SpecArgShape {
    pub shape: SpecShape,
    pub original: SpecType,
    pub converted: SpecType,
}

/// Mathematical mirror of `OccurrenceShape`.
#[verifier::ext_equal]
pub enum SpecShape {
    Direct,
    GenericArgs { args: Seq<SpecArgShape> },
    TupleElems { elems: Seq<SpecShape> },
    Wrapped { wrapper: WrapperKind, inner: Box<SpecShape> },
    ClosureCrossing { kind: ClosureKind, args: Seq<SpecShape>, ret: Box<SpecShape> },
    NoConversion,
}

pub open spec fn shape_model(s: OccurrenceShape) -> SpecShape
    decreases s, 0int,
{
    match s {
        OccurrenceShape::Direct => SpecShape::Direct,
        OccurrenceShape::GenericArgs { args } => SpecShape::GenericArgs {
            args: arg_shape_models(args@),
        },
        OccurrenceShape::TupleElems { elems } => SpecShape::TupleElems {
            elems: shape_models(elems@),
        },
        OccurrenceShape::Wrapped { wrapper, inner } => SpecShape::Wrapped {
            wrapper,
            inner: Box::new(shape_model(*inner)),
        },
        OccurrenceShape::ClosureCrossing { kind, args, ret } => SpecShape::ClosureCrossing {
            kind,
            args: shape_models(args@),
            ret: Box::new(shape_model(*ret)),
        },
        OccurrenceShape::NoConversion => SpecShape::NoConversion,
    }
}

pub open spec fn shape_models(s: Seq<OccurrenceShape>) -> Seq<SpecShape>
    decreases s, s.len(),
{
    if s.len() == 0 {
        Seq::empty()
    } else {
        shape_models(s.drop_last()).push(shape_model(s.last()))
    }
}

pub open spec fn arg_shape_model(a: ArgShape) -> SpecArgShape
    decreases a, 0int,
{
    SpecArgShape {
        shape: shape_model(a.shape),
        original: a.original@,
        converted: a.converted@,
    }
}

pub open spec fn arg_shape_models(s: Seq<ArgShape>) -> Seq<SpecArgShape>
    decreases s, s.len(),
{
    if s.len() == 0 {
        Seq::empty()
    } else {
        arg_shape_models(s.drop_last()).push(arg_shape_model(s.last()))
    }
}

impl View for OccurrenceShape {
    type V = SpecShape;

    open spec fn view(&self) -> SpecShape {
        shape_model(*self)
    }
}

impl View for ArgShape {
    type V = SpecArgShape;

    open spec fn view(&self) -> SpecArgShape {
        arg_shape_model(*self)
    }
}

pub proof fn lemma_shape_models_index(s: Seq<OccurrenceShape>, i: int)
    requires
        0 <= i < s.len(),
    ensures
        shape_models(s).len() == s.len(),
        shape_models(s)[i] == shape_model(s[i]),
    decreases s.len(),
{
    lemma_shape_models_len(s);
    if i < s.len() - 1 {
        lemma_shape_models_index(s.drop_last(), i);
    } else {
        lemma_shape_models_len(s.drop_last());
    }
}

pub proof fn lemma_shape_models_len(s: Seq<OccurrenceShape>)
    ensures
        shape_models(s).len() == s.len(),
    decreases s.len(),
{
    if s.len() > 0 {
        lemma_shape_models_len(s.drop_last());
    }
}

pub proof fn lemma_arg_shape_models_index(s: Seq<ArgShape>, i: int)
    requires
        0 <= i < s.len(),
    ensures
        arg_shape_models(s).len() == s.len(),
        arg_shape_models(s)[i] == arg_shape_model(s[i]),
    decreases s.len(),
{
    lemma_arg_shape_models_len(s);
    if i < s.len() - 1 {
        lemma_arg_shape_models_index(s.drop_last(), i);
    } else {
        lemma_arg_shape_models_len(s.drop_last());
    }
}

pub proof fn lemma_arg_shape_models_len(s: Seq<ArgShape>)
    ensures
        arg_shape_models(s).len() == s.len(),
    decreases s.len(),
{
    if s.len() > 0 {
        lemma_arg_shape_models_len(s.drop_last());
    }
}

/// One declared dynamic parameter: its name and the opaque handle type a
/// direct occurrence of it converts to.
#[derive(Debug, PartialEq, Eq)]
pub struct DynParamEntry {
    pub name: String,
    pub handle: TypeExpression,
}

#[verifier::ext_equal]
pub struct SpecDynParam {
    pub name: Seq<char>,
    pub handle: SpecType,
}

impl View for DynParamEntry {
    type V = SpecDynParam;

    open spec fn view(&self) -> SpecDynParam {
        SpecDynParam { name: self.name@, handle: self.handle@ }
    }
}

/// The immutable context threaded through classification and generation:
/// the interface's own name, the opaque handle type standing for it, and
/// the table of dynamic parameters.
#[derive(Debug, PartialEq, Eq)]
pub struct InterfaceContext {
    pub self_name: String,
    pub self_handle: TypeExpression,
    pub dynamics: Vec<DynParamEntry>,
}

#[verifier::ext_equal]
pub struct SpecContext {
    pub self_name: Seq<char>,
    pub self_handle: SpecType,
    pub dynamics: Seq<SpecDynParam>,
}

pub open spec fn dyn_models(s: Seq<DynParamEntry>) -> Seq<SpecDynParam> {
    Seq::new(s.len(), |i: int| s[i]@)
}

impl View for InterfaceContext {
    type V = SpecContext;

    open spec fn view(&self) -> SpecContext {
        SpecContext {
            self_name: self.self_name@,
            self_handle: self.self_handle@,
            dynamics: dyn_models(self.dynamics@),
        }
    }
}

/// First dynamic-parameter entry whose name matches, scanned from index
/// `i` on.
pub open spec fn dyn_lookup_from(s: Seq<SpecDynParam>, path: Seq<char>, i: int) -> Option<
    SpecType,
>
    decreases s.len() - i,
{
    if i < 0 || i >= s.len() {
        Option::None
    } else if s[i].name == path {
        Option::Some(s[i].handle)
    } else {
        dyn_lookup_from(s, path, i + 1)
    }
}

pub open spec fn dyn_lookup(s: Seq<SpecDynParam>, path: Seq<char>) -> Option<SpecType> {
    dyn_lookup_from(s, path, 0)
}

/// The opaque type a direct occurrence of `path` converts to, if `path`
/// is the interface type or a dynamic parameter.
pub open spec fn direct_target(ctx: SpecContext, path: Seq<char>) -> Option<SpecType> {
    if path == ctx.self_name {
        Option::Some(ctx.self_handle)
    } else {
        dyn_lookup(ctx.dynamics, path)
    }
}

pub open spec fn is_direct(ctx: SpecContext, path: Seq<char>) -> bool {
    direct_target(ctx, path) is Some
}

/// The path of the owned-box pointer type, recognised even when the front
/// end hands it over as an ordinary named type.
pub open spec fn box_path() -> Seq<char> {
    "Box"@
}

/// Whether the interface's own type or a dynamic parameter occurs
/// anywhere inside `t`.
pub open spec fn has_occurrence(t: SpecType, ctx: SpecContext) -> bool
    decreases t, 0int,
{
    match t {
        SpecType::Named { path, args } => is_direct(ctx, path) || any_occurrence(args, ctx),
        SpecType::Tuple { elems } => any_occurrence(elems, ctx),
        SpecType::Reference { inner, .. } => has_occurrence(*inner, ctx),
        SpecType::Boxed { inner } => has_occurrence(*inner, ctx),
        SpecType::Closure { args, ret, .. } => any_occurrence(args, ctx) || has_occurrence(
            *ret,
            ctx,
        ),
        SpecType::Unsupported { parts, .. } => any_occurrence(parts, ctx),
    }
}

pub open spec fn any_occurrence(s: Seq<SpecType>, ctx: SpecContext) -> bool
    decreases s, s.len(),
{
    if s.len() == 0 {
        false
    } else {
        has_occurrence(s.last(), ctx) || any_occurrence(s.drop_last(), ctx)
    }
}

pub proof fn lemma_any_occurrence_iff(s: Seq<SpecType>, ctx: SpecContext)
    ensures
        any_occurrence(s, ctx) <==> exists|i: int|
            0 <= i < s.len() && has_occurrence(#[trigger] s[i], ctx),
    decreases s.len(),
{
    if s.len() > 0 {
        lemma_any_occurrence_iff(s.drop_last(), ctx);
        if any_occurrence(s, ctx) {
            if has_occurrence(s.last(), ctx) {
                assert(has_occurrence(s[s.len() - 1], ctx));
            } else {
                let i = choose|i: int|
                    0 <= i < s.drop_last().len() && has_occurrence(#[trigger] s.drop_last()[i], ctx);
                assert(s.drop_last()[i] == s[i]);
                assert(has_occurrence(s[i], ctx));
            }
        }
        if exists|i: int| 0 <= i < s.len() && has_occurrence(#[trigger] s[i], ctx) {
            let i = choose|i: int| 0 <= i < s.len() && has_occurrence(#[trigger] s[i], ctx);
            if i == s.len() - 1 {
                assert(has_occurrence(s.last(), ctx));
            } else {
                assert(s.drop_last()[i] == s[i]);
                assert(any_occurrence(s.drop_last(), ctx));
            }
        }
    }
}

/// Substitution: every direct occurrence of the interface type or of a
/// dynamic parameter is replaced by its opaque handle type; everything
/// else keeps its structure.
pub open spec fn spec_rewrite(t: SpecType, ctx: SpecContext) -> SpecType
    decreases t, 0int,
{
    match t {
        SpecType::Named { path, args } => match direct_target(ctx, path) {
            Option::Some(handle) => handle,
            Option::None => SpecType::Named { path, args: spec_rewrite_all(args, ctx) },
        },
        SpecType::Tuple { elems } => SpecType::Tuple { elems: spec_rewrite_all(elems, ctx) },
        SpecType::Reference { inner, mutable } => SpecType::Reference {
            inner: Box::new(spec_rewrite(*inner, ctx)),
            mutable,
        },
        SpecType::Boxed { inner } => SpecType::Boxed {
            inner: Box::new(spec_rewrite(*inner, ctx)),
        },
        SpecType::Closure { kind, args, ret } => SpecType::Closure {
            kind,
            args: spec_rewrite_all(args, ctx),
            ret: Box::new(spec_rewrite(*ret, ctx)),
        },
        SpecType::Unsupported { .. } => t,
    }
}

pub open spec fn spec_rewrite_all(s: Seq<SpecType>, ctx: SpecContext) -> Seq<SpecType>
    decreases s, s.len(),
{
    if s.len() == 0 {
        Seq::empty()
    } else {
        spec_rewrite_all(s.drop_last(), ctx).push(spec_rewrite(s.last(), ctx))
    }
}

pub proof fn lemma_rewrite_all_index(s: Seq<SpecType>, ctx: SpecContext, i: int)
    requires
        0 <= i < s.len(),
    ensures
        spec_rewrite_all(s, ctx).len() == s.len(),
        spec_rewrite_all(s, ctx)[i] == spec_rewrite(s[i], ctx),
    decreases s.len(),
{
    lemma_rewrite_all_len(s, ctx);
    if i < s.len() - 1 {
        lemma_rewrite_all_index(s.drop_last(), ctx, i);
    } else {
        lemma_rewrite_all_len(s.drop_last(), ctx);
    }
}

pub proof fn lemma_rewrite_all_len(s: Seq<SpecType>, ctx: SpecContext)
    ensures
        spec_rewrite_all(s, ctx).len() == s.len(),
    decreases s.len(),
{
    if s.len() > 0 {
        lemma_rewrite_all_len(s.drop_last(), ctx);
    }
}

/// Classification of one type position.
pub open spec fn spec_classify(t: SpecType, ctx: SpecContext) -> Result<SpecShape, GenError>
    decreases t, 0int,
{
    match t {
        SpecType::Named { path, args } => {
            if is_direct(ctx, path) {
                Result::Ok(SpecShape::Direct)
            } else if path == box_path() {
                if args.len() == 1 {
                    match spec_classify(args[0], ctx) {
                        Result::Err(e) => Result::Err(e),
                        Result::Ok(SpecShape::NoConversion) => Result::Ok(SpecShape::NoConversion),
                        Result::Ok(sh) => Result::Ok(
                            SpecShape::Wrapped { wrapper: WrapperKind::OwnedBox, inner: Box::new(sh) },
                        ),
                    }
                } else if any_occurrence(args, ctx) {
                    Result::Err(GenError::UnsupportedBoxArity)
                } else {
                    Result::Ok(SpecShape::NoConversion)
                }
            } else {
                match spec_classify_prefix(args, ctx, args.len() as int) {
                    Result::Err(e) => Result::Err(e),
                    Result::Ok(shapes) => {
                        if all_no_conversion(shapes) {
                            Result::Ok(SpecShape::NoConversion)
                        } else {
                            Result::Ok(
                                SpecShape::GenericArgs {
                                    args: Seq::new(
                                        args.len(),
                                        |i: int|
                                            SpecArgShape {
                                                shape: shapes[i],
                                                original: args[i],
                                                converted: spec_rewrite(args[i], ctx),
                                            },
                                    ),
                                },
                            )
                        }
                    },
                }
            }
        },
        SpecType::Tuple { elems } => match spec_classify_prefix(elems, ctx, elems.len() as int) {
            Result::Err(e) => Result::Err(e),
            Result::Ok(shapes) => {
                if all_no_conversion(shapes) {
                    Result::Ok(SpecShape::NoConversion)
                } else {
                    Result::Ok(SpecShape::TupleElems { elems: shapes })
                }
            },
        },
        SpecType::Reference { inner, mutable } => match spec_classify(*inner, ctx) {
            Result::Err(e) => Result::Err(e),
            Result::Ok(SpecShape::NoConversion) => Result::Ok(SpecShape::NoConversion),
            Result::Ok(SpecShape::Direct) => Result::Ok(
                SpecShape::Wrapped {
                    wrapper: ref_wrapper(mutable),
                    inner: Box::new(SpecShape::Direct),
                },
            ),
            Result::Ok(SpecShape::ClosureCrossing { kind, args, ret }) => Result::Ok(
                SpecShape::Wrapped {
                    wrapper: ref_wrapper(mutable),
                    inner: Box::new(SpecShape::ClosureCrossing { kind, args, ret }),
                },
            ),
            Result::Ok(_) => Result::Err(GenError::UnsupportedUnderReference),
        },
        SpecType::Boxed { inner } => match spec_classify(*inner, ctx) {
            Result::Err(e) => Result::Err(e),
            Result::Ok(SpecShape::NoConversion) => Result::Ok(SpecShape::NoConversion),
            Result::Ok(sh) => Result::Ok(
                SpecShape::Wrapped { wrapper: WrapperKind::OwnedBox, inner: Box::new(sh) },
            ),
        },
        SpecType::Closure { kind, args, ret } => {
            match spec_classify_prefix(args, ctx, args.len() as int) {
                Result::Err(e) => Result::Err(e),
                Result::Ok(arg_shapes) => match spec_classify(*ret, ctx) {
                    Result::Err(e) => Result::Err(e),
                    Result::Ok(ret_shape) => {
                        if all_no_conversion(arg_shapes) && ret_shape is NoConversion {
                            Result::Ok(SpecShape::NoConversion)
                        } else {
                            Result::Ok(
                                SpecShape::ClosureCrossing {
                                    kind,
                                    args: arg_shapes,
                                    ret: Box::new(ret_shape),
                                },
                            )
                        }
                    },
                },
            }
        },
        SpecType::Unsupported { kind, parts } => {
            if any_occurrence(parts, ctx) {
                Result::Err(GenError::UnsupportedShape(kind))
            } else {
                Result::Ok(SpecShape::NoConversion)
            }
        },
    }
}

pub open spec fn ref_wrapper(mutable: bool) -> WrapperKind {
    if mutable {
        WrapperKind::ExclusiveRef
    } else {
        WrapperKind::SharedRef
    }
}

pub open spec fn all_no_conversion(shapes: Seq<SpecShape>) -> bool {
    forall|i: int| 0 <= i < shapes.len() ==> #[trigger] shapes[i] == SpecShape::NoConversion
}

/// Classification of the first `n` elements, stopping at the first
/// failure.
pub open spec fn spec_classify_prefix(s: Seq<SpecType>, ctx: SpecContext, n: int) -> Result<
    Seq<SpecShape>,
    GenError,
>
    decreases s, n,
{
    if n <= 0 || n > s.len() {
        Result::Ok(Seq::empty())
    } else {
        match spec_classify_prefix(s, ctx, n - 1) {
            Result::Err(e) => Result::Err(e),
            Result::Ok(pre) => match spec_classify(s[n - 1], ctx) {
                Result::Err(e) => Result::Err(e),
                Result::Ok(sh) => Result::Ok(pre.push(sh)),
            },
        }
    }
}

pub proof fn lemma_classify_prefix_len(s: Seq<SpecType>, ctx: SpecContext, n: int)
    requires
        0 <= n <= s.len(),
        spec_classify_prefix(s, ctx, n) is Ok,
    ensures
        spec_classify_prefix(s, ctx, n)->Ok_0.len() == n,
    decreases n,
{
    if n > 0 {
        lemma_classify_prefix_len(s, ctx, n - 1);
    }
}

/// Once a prefix has failed, every longer prefix fails the same way.
pub proof fn lemma_classify_prefix_err(s: Seq<SpecType>, ctx: SpecContext, n: int, m: int)
    requires
        0 <= n <= m <= s.len(),
        spec_classify_prefix(s, ctx, n) is Err,
    ensures
        spec_classify_prefix(s, ctx, m) == spec_classify_prefix(s, ctx, n),
    decreases m - n,
{
    if m > n {
        lemma_classify_prefix_err(s, ctx, n, m - 1);
    }
}

/// Whether anything is left to convert in this shape.
pub fn is_no_conversion(s: &OccurrenceShape) -> (r: bool)
    ensures
        r == (shape_model(*s) is NoConversion),
{
    match s {
        OccurrenceShape::NoConversion => true,
        _ => false,
    }
}

/// Index of the first dynamic parameter with this name.
pub fn find_dynamic(dynamics: &Vec<DynParamEntry>, path: &String) -> (r: Option<usize>)
    ensures
        match r {
            Option::Some(i) => i < dynamics@.len() && dyn_lookup(dyn_models(dynamics@), path@)
                == Option::Some(dynamics@[i as int]@.handle),
            Option::None => dyn_lookup(dyn_models(dynamics@), path@) is None,
        },
{
    let ghost m = dyn_models(dynamics@);
    let mut k: usize = 0;
    while k < dynamics.len()
        invariant
            k <= dynamics@.len(),
            m == dyn_models(dynamics@),
            dyn_lookup_from(m, path@, 0) == dyn_lookup_from(m, path@, k as int),
        decreases dynamics@.len() - k,
    {
        if string_eq(&dynamics[k].name, path) {
            proof {
                assert(m[k as int] == dynamics@[k as int]@);
            }
            return Option::Some(k);
        }
        proof {
            assert(m[k as int] == dynamics@[k as int]@);
        }
        k = k + 1;
    }
    Option::None
}

/// Whether the interface type or a dynamic parameter occurs inside `t`.
pub fn occurs(t: &TypeExpression, ctx: &InterfaceContext) -> (r: bool)
    ensures
        r == has_occurrence(t@, ctx@),
    decreases t, 0nat,
{
    match t {
        TypeExpression::Named { path, args } => {
            if string_eq(path, &ctx.self_name) {
                true
            } else if find_dynamic(&ctx.dynamics, path).is_some() {
                true
            } else {
                proof {
                    assert(decreases_to!(*t => (*t)->Named_args));
                }
                occurs_any(args, ctx)
            }
        },
        TypeExpression::Tuple { elems } => {
            proof {
                assert(decreases_to!(*t => (*t)->Tuple_elems));
            }
            occurs_any(elems, ctx)
        },
        TypeExpression::Reference { inner, .. } => occurs(inner, ctx),
        TypeExpression::Boxed { inner } => occurs(inner, ctx),
        TypeExpression::Closure { args, ret, .. } => {
            proof {
                assert(decreases_to!(*t => (*t)->Closure_args));
            }
            let in_args = occurs_any(args, ctx);
            in_args || occurs(ret, ctx)
        },
        TypeExpression::Unsupported { parts, .. } => {
            proof {
                assert(decreases_to!(*t => (*t)->Unsupported_parts));
            }
            occurs_any(parts, ctx)
        },
    }
}

/// Whether an occurrence is inside any element of the list.
pub fn occurs_any(ts: &Vec<TypeExpression>, ctx: &InterfaceContext) -> (r: bool)
    ensures
        r == any_occurrence(type_models(ts@), ctx@),
    decreases ts, ts@.len(),
{
    let ghost m = type_models(ts@);
    proof {
        lemma_type_models_len(ts@);
        lemma_any_occurrence_iff(m, ctx@);
    }
    let mut k: usize = 0;
    while k < ts.len()
        invariant
            k <= ts@.len(),
            m == type_models(ts@),
            m.len() == ts@.len(),
            forall|i: int| 0 <= i < k ==> !has_occurrence(#[trigger] m[i], ctx@),
        decreases ts@.len() - k,
    {
        proof {
            assert(decreases_to!(*ts => (*ts)@));
            assert(decreases_to!((*ts)@ => (*ts)@[k as int]));
            lemma_type_models_index(ts@, k as int);
        }
        if occurs(&ts[k], ctx) {
            proof {
                lemma_any_occurrence_iff(m, ctx@);
            }
            return true;
        }
        k = k + 1;
    }
    proof {
        lemma_any_occurrence_iff(m, ctx@);
    }
    false
}

/// Substitution on a type: every direct occurrence becomes its opaque
/// handle type.
pub fn rewrite_type(t: &TypeExpression, ctx: &InterfaceContext) -> (r: TypeExpression)
    ensures
        r@ == spec_rewrite(t@, ctx@),
    decreases t, 0nat,
{
    match t {
        TypeExpression::Named { path, args } => {
            if string_eq(path, &ctx.self_name) {
                ctx.self_handle.duplicate()
            } else {
                match find_dynamic(&ctx.dynamics, path) {
                    Option::Some(i) => ctx.dynamics[i].handle.duplicate(),
                    Option::None => {
                        proof {
                            assert(decreases_to!(*t => (*t)->Named_args));
                        }
                        let out = rewrite_all(args, ctx);
                        let r = TypeExpression::Named { path: path.clone(), args: out };
                        proof {
                            assert(r@ =~= spec_rewrite(t@, ctx@));
                        }
                        r
                    },
                }
            }
        },
        TypeExpression::Tuple { elems } => {
            proof {
                assert(decreases_to!(*t => (*t)->Tuple_elems));
            }
            let out = rewrite_all(elems, ctx);
            let r = TypeExpression::Tuple { elems: out };
            proof {
                assert(r@ =~= spec_rewrite(t@, ctx@));
            }
            r
        },
        TypeExpression::Reference { inner, mutable } => {
            let r = TypeExpression::Reference {
                inner: Box::new(rewrite_type(inner, ctx)),
                mutable: *mutable,
            };
            proof {
                assert(r@ =~= spec_rewrite(t@, ctx@));
            }
            r
        },
        TypeExpression::Boxed { inner } => {
            let r = TypeExpression::Boxed { inner: Box::new(rewrite_type(inner, ctx)) };
            proof {
                assert(r@ =~= spec_rewrite(t@, ctx@));
            }
            r
        },
        TypeExpression::Closure { kind, args, ret } => {
            proof {
                assert(decreases_to!(*t => (*t)->Closure_args));
            }
            let out = rewrite_all(args, ctx);
            let r = TypeExpression::Closure {
                kind: *kind,
                args: out,
                ret: Box::new(rewrite_type(ret, ctx)),
            };
            proof {
                assert(r@ =~= spec_rewrite(t@, ctx@));
            }
            r
        },
        TypeExpression::Unsupported { kind, parts } => {
            let r = t.duplicate();
            proof {
                assert(t@ is Unsupported);
                assert(spec_rewrite(t@, ctx@) == t@);
            }
            r
        },
    }
}

/// Elementwise substitution on an argument list.
pub fn rewrite_all(ts: &Vec<TypeExpression>, ctx: &InterfaceContext) -> (r: Vec<TypeExpression>)
    ensures
        r@.len() == ts@.len(),
        type_models(r@) == spec_rewrite_all(type_models(ts@), ctx@),
    decreases ts, ts@.len(),
{
    let ghost m = type_models(ts@);
    proof {
        lemma_type_models_len(ts@);
    }
    let mut out: Vec<TypeExpression> = Vec::new();
    let mut k: usize = 0;
    while k < ts.len()
        invariant
            k <= ts@.len(),
            m == type_models(ts@),
            m.len() == ts@.len(),
            out@.len() == k,
            forall|i: int| 0 <= i < k ==> type_model(#[trigger] out@[i]) == spec_rewrite(
                m[i],
                ctx@,
            ),
        decreases ts@.len() - k,
    {
        proof {
            assert(decreases_to!(*ts => (*ts)@));
            assert(decreases_to!((*ts)@ => (*ts)@[k as int]));
            lemma_type_models_index(ts@, k as int);
        }
        out.push(rewrite_type(&ts[k], ctx));
        k = k + 1;
    }
    proof {
        lemma_rewrite_all_pointwise(out@, m, ctx@);
    }
    out
}

/// A list whose element models are the rewritten element models is, as a
/// list, the rewritten list.
pub proof fn lemma_rewrite_all_pointwise(a: Seq<TypeExpression>, b: Seq<SpecType>, ctx: SpecContext)
    requires
        a.len() == b.len(),
        forall|i: int| 0 <= i < a.len() ==> type_model(#[trigger] a[i]) == spec_rewrite(
            b[i],
            ctx,
        ),
    ensures
        type_models(a) == spec_rewrite_all(b, ctx),
    decreases a.len(),
{
    if a.len() > 0 {
        assert forall|i: int| 0 <= i < a.drop_last().len() implies type_model(
            #[trigger] a.drop_last()[i],
        ) == spec_rewrite(b.drop_last()[i], ctx) by {
            assert(a.drop_last()[i] == a[i]);
            assert(b.drop_last()[i] == b[i]);
            assert(type_model(a[i]) == spec_rewrite(b[i], ctx));
        }
        lemma_rewrite_all_pointwise(a.drop_last(), b.drop_last(), ctx);
        assert(type_model(a.last()) == spec_rewrite(b.last(), ctx));
        assert(type_models(a) =~= spec_rewrite_all(b, ctx));
    } else {
        assert(type_models(a) =~= spec_rewrite_all(b, ctx));
    }
}

/// The mathematical value of a classification result.
pub open spec fn classify_result(r: Result<OccurrenceShape, GenError>) -> Result<
    SpecShape,
    GenError,
> {
    match r {
        Result::Ok(s) => Result::Ok(shape_model(s)),
        Result::Err(e) => Result::Err(e),
    }
}

/// Classify one type position: where, inside it, conversion is required.
pub fn classify(t: &TypeExpression, ctx: &InterfaceContext) -> (r: Result<
    OccurrenceShape,
    GenError,
>)
    ensures
        classify_result(r) == spec_classify(t@, ctx@),
    decreases t, 0nat,
{
    match t {
        TypeExpression::Named { path, args } => {
            if string_eq(path, &ctx.self_name) {
                Result::Ok(OccurrenceShape::Direct)
            } else if find_dynamic(&ctx.dynamics, path).is_some() {
                Result::Ok(OccurrenceShape::Direct)
            } else {
                let box_name = String::from_str("Box");
                if string_eq(path, &box_name) {
                    proof {
                        assert(decreases_to!(*t => (*t)->Named_args));
                        assert(decreases_to!((*t)->Named_args => (*t)->Named_args@));
                        lemma_type_models_len(args@);
                    }
                    if args.len() == 1 {
                        proof {
                            assert(decreases_to!((*t)->Named_args@ => (*t)->Named_args@[0int]));
                            lemma_type_models_index(args@, 0int);
                        }
                        match classify(&args[0], ctx) {
                            Result::Err(e) => Result::Err(e),
                            Result::Ok(sh) => {
                                if is_no_conversion(&sh) {
                                    Result::Ok(OccurrenceShape::NoConversion)
                                } else {
                                    Result::Ok(
                                        OccurrenceShape::Wrapped {
                                            wrapper: WrapperKind::OwnedBox,
                                            inner: Box::new(sh),
                                        },
                                    )
                                }
                            },
                        }
                    } else {
                        if occurs_any(args, ctx) {
                            Result::Err(GenError::UnsupportedBoxArity)
                        } else {
                            Result::Ok(OccurrenceShape::NoConversion)
                        }
                    }
                } else {
                    proof {
                        assert(decreases_to!(*t => (*t)->Named_args));
                        lemma_type_models_len(args@);
                    }
                    match classify_generic_args(args, ctx) {
                        Result::Err(e) => Result::Err(e),
                        Result::Ok((built, all_none)) => {
                            if all_none {
                                Result::Ok(OccurrenceShape::NoConversion)
                            } else {
                                let r = Result::Ok(OccurrenceShape::GenericArgs { args: built });
                                proof {
                                    lemma_type_models_len(args@);
                                    let sm = type_models(args@);
                                    assert(arg_shape_models(built@) =~= Seq::new(
                                        sm.len(),
                                        |i: int|
                                            SpecArgShape {
                                                shape: spec_classify_prefix(
                                                    sm,
                                                    ctx@,
                                                    sm.len() as int,
                                                )->Ok_0[i],
                                                original: sm[i],
                                                converted: spec_rewrite(sm[i], ctx@),
                                            },
                                    ));
                                    assert(classify_result(r) == spec_classify(t@, ctx@));
                                }
                                r
                            }
                        },
                    }
                }
            }
        },
        TypeExpression::Tuple { elems } => {
            proof {
                assert(decreases_to!(*t => (*t)->Tuple_elems));
                lemma_type_models_len(elems@);
            }
            match classify_each(elems, ctx) {
                Result::Err(e) => Result::Err(e),
                Result::Ok((shapes, all_none)) => {
                    if all_none {
                        Result::Ok(OccurrenceShape::NoConversion)
                    } else {
                        Result::Ok(OccurrenceShape::TupleElems { elems: shapes })
                    }
                },
            }
        },
        TypeExpression::Reference { inner, mutable } => {
            match classify(inner, ctx) {
                Result::Err(e) => Result::Err(e),
                Result::Ok(sh) => {
                    match sh {
                        OccurrenceShape::NoConversion => Result::Ok(OccurrenceShape::NoConversion),
                        OccurrenceShape::Direct => Result::Ok(
                            OccurrenceShape::Wrapped {
                                wrapper: if *mutable {
                                    WrapperKind::ExclusiveRef
                                } else {
                                    WrapperKind::SharedRef
                                },
                                inner: Box::new(OccurrenceShape::Direct),
                            },
                        ),
                        OccurrenceShape::ClosureCrossing { kind, args, ret } => Result::Ok(
                            OccurrenceShape::Wrapped {
                                wrapper: if *mutable {
                                    WrapperKind::ExclusiveRef
                                } else {
                                    WrapperKind::SharedRef
                                },
                                inner: Box::new(
                                    OccurrenceShape::ClosureCrossing { kind, args, ret },
                                ),
                            },
                        ),
                        _ => Result::Err(GenError::UnsupportedUnderReference),
                    }
                },
            }
        },
        TypeExpression::Boxed { inner } => {
            match classify(inner, ctx) {
                Result::Err(e) => Result::Err(e),
                Result::Ok(sh) => {
                    if is_no_conversion(&sh) {
                        Result::Ok(OccurrenceShape::NoConversion)
                    } else {
                        Result::Ok(
                            OccurrenceShape::Wrapped {
                                wrapper: WrapperKind::OwnedBox,
                                inner: Box::new(sh),
                            },
                        )
                    }
                },
            }
        },
        TypeExpression::Closure { kind, args, ret } => {
            proof {
                assert(decreases_to!(*t => (*t)->Closure_args));
                lemma_type_models_len(args@);
            }
            match classify_each(args, ctx) {
                Result::Err(e) => Result::Err(e),
                Result::Ok((shapes, all_none)) => {
                    match classify(ret, ctx) {
                        Result::Err(e) => Result::Err(e),
                        Result::Ok(ret_shape) => {
                            if all_none && is_no_conversion(&ret_shape) {
                                Result::Ok(OccurrenceShape::NoConversion)
                            } else {
                                Result::Ok(
                                    OccurrenceShape::ClosureCrossing {
                                        kind: *kind,
                                        args: shapes,
                                        ret: Box::new(ret_shape),
                                    },
                                )
                            }
                        },
                    }
                },
            }
        },
        TypeExpression::Unsupported { kind, parts } => {
            proof {
                assert(decreases_to!(*t => (*t)->Unsupported_parts));
            }
            if occurs_any(parts, ctx) {
                Result::Err(GenError::UnsupportedShape(*kind))
            } else {
                Result::Ok(OccurrenceShape::NoConversion)
            }
        },
    }
}

/// Classify every element of a list; used for tuple elements and closure
/// arguments, where only the shapes are needed.
pub fn classify_each(ts: &Vec<TypeExpression>, ctx: &InterfaceContext) -> (r: Result<
    (Vec<OccurrenceShape>, bool),
    GenError,
>)
    ensures
        match r {
            Result::Ok(pair) => {
                &&& spec_classify_prefix(type_models(ts@), ctx@, ts@.len() as int)
                    == Result::<Seq<SpecShape>, GenError>::Ok(shape_models(pair.0@))
                &&& pair.0@.len() == ts@.len()
                &&& (pair.1 <==> all_no_conversion(shape_models(pair.0@)))
            },
            Result::Err(e) => spec_classify_prefix(type_models(ts@), ctx@, ts@.len() as int)
                == Result::<Seq<SpecShape>, GenError>::Err(e),
        },
    decreases ts, ts@.len(),
{
    let ghost m = type_models(ts@);
    proof {
        lemma_type_models_len(ts@);
    }
    let mut out: Vec<OccurrenceShape> = Vec::new();
    let mut all_none: bool = true;
    let mut k: usize = 0;
    while k < ts.len()
        invariant
            k <= ts@.len(),
            m == type_models(ts@),
            m.len() == ts@.len(),
            out@.len() == k,
            spec_classify_prefix(m, ctx@, k as int) == Result::<Seq<SpecShape>, GenError>::Ok(
                shape_models(out@),
            ),
            all_none <==> all_no_conversion(shape_models(out@)),
        decreases ts@.len() - k,
    {
        proof {
            assert(decreases_to!(*ts => (*ts)@));
            assert(decreases_to!((*ts)@ => (*ts)@[k as int]));
            lemma_type_models_index(ts@, k as int);
            lemma_shape_models_len(out@);
        }
        match classify(&ts[k], ctx) {
            Result::Err(e) => {
                proof {
                    lemma_classify_prefix_err(m, ctx@, k as int + 1, m.len() as int);
                }
                return Result::Err(e);
            },
            Result::Ok(sh) => {
                let none_here = is_no_conversion(&sh);
                proof {
                    assert(shape_models(out@.push(sh)) == shape_models(out@).push(
                        shape_model(sh),
                    )) by {
                        assert(out@.push(sh).drop_last() =~= out@);
                        assert(out@.push(sh).last() == sh);
                    }
                    assert(all_no_conversion(shape_models(out@).push(shape_model(sh))) <==> (
                    all_no_conversion(shape_models(out@)) && shape_model(sh)
                        is NoConversion)) by {
                        let p = shape_models(out@).push(shape_model(sh));
                        assert(p.last() == shape_model(sh));
                        assert forall|i: int| 0 <= i < shape_models(out@).len() implies
                            #[trigger] shape_models(out@)[i] == p[i] by {}
                    }
                }
                if !none_here {
                    all_none = false;
                }
                out.push(sh);
            },
        }
        k = k + 1;
    }
    Result::Ok((out, all_none))
}

/// Classify every generic argument of a named container, recording for
/// each the argument type before and after substitution.
pub fn classify_generic_args(ts: &Vec<TypeExpression>, ctx: &InterfaceContext) -> (r: Result<
    (Vec<ArgShape>, bool),
    GenError,
>)
    ensures
        match r {
            Result::Ok(pair) => {
                &&& spec_classify_prefix(type_models(ts@), ctx@, ts@.len() as int) matches
                    Result::Ok(shapes)
                &&& pair.0@.len() == ts@.len()
                &&& arg_shape_models(pair.0@) == Seq::new(
                    ts@.len(),
                    |i: int|
                        SpecArgShape {
                            shape: spec_classify_prefix(
                                type_models(ts@),
                                ctx@,
                                ts@.len() as int,
                            )->Ok_0[i],
                            original: type_models(ts@)[i],
                            converted: spec_rewrite(type_models(ts@)[i], ctx@),
                        },
                )
                &&& (pair.1 <==> all_no_conversion(
                    spec_classify_prefix(type_models(ts@), ctx@, ts@.len() as int)->Ok_0,
                ))
            },
            Result::Err(e) => spec_classify_prefix(type_models(ts@), ctx@, ts@.len() as int)
                == Result::<Seq<SpecShape>, GenError>::Err(e),
        },
    decreases ts, ts@.len(),
{
    let ghost m = type_models(ts@);
    proof {
        lemma_type_models_len(ts@);
    }
    let mut out: Vec<ArgShape> = Vec::new();
    let mut all_none: bool = true;
    let mut k: usize = 0;
    proof {
        assert(Seq::new(0 as nat, |i: int| arg_shape_model(out@[i]).shape)
            =~= Seq::<SpecShape>::empty());
    }
    while k < ts.len()
        invariant
            k <= ts@.len(),
            m == type_models(ts@),
            m.len() == ts@.len(),
            out@.len() == k,
            spec_classify_prefix(m, ctx@, k as int) == Result::<Seq<SpecShape>, GenError>::Ok(
                Seq::new(k as nat, |i: int| arg_shape_model(out@[i]).shape),
            ),
            forall|i: int| 0 <= i < k ==> {
                &&& (#[trigger] arg_shape_model(out@[i])).original == m[i]
                &&& arg_shape_model(out@[i]).converted == spec_rewrite(m[i], ctx@)
            },
            all_none <==> all_no_conversion(Seq::new(k as nat, |i: int| arg_shape_model(out@[i]).shape)),
        decreases ts@.len() - k,
    {
        proof {
            assert(decreases_to!(*ts => (*ts)@));
            assert(decreases_to!((*ts)@ => (*ts)@[k as int]));
            lemma_type_models_index(ts@, k as int);
        }
        match classify(&ts[k], ctx) {
            Result::Err(e) => {
                proof {
                    lemma_classify_prefix_err(m, ctx@, k as int + 1, m.len() as int);
                }
                return Result::Err(e);
            },
            Result::Ok(sh) => {
                let none_here = is_no_conversion(&sh);
                let conv = rewrite_type(&ts[k], ctx);
                let orig = ts[k].duplicate();
                let ghost old_out = out@;
                let ghost old_seq = Seq::new(k as nat, |i: int| arg_shape_model(old_out[i]).shape);
                let entry = ArgShape { shape: sh, original: orig, converted: conv };
                if !none_here {
                    all_none = false;
                }
                out.push(entry);
                proof {
                    let new_seq = Seq::new(
                        (k + 1) as nat,
                        |i: int| arg_shape_model(out@[i]).shape,
                    );
                    assert(new_seq =~= old_seq.push(shape_model(sh)));
                    assert(all_no_conversion(new_seq) <==> (all_no_conversion(old_seq)
                        && shape_model(sh) is NoConversion)) by {
                        assert(new_seq.last() == shape_model(sh));
                        assert forall|i: int| 0 <= i < old_seq.len() implies #[trigger] old_seq[i]
                            == new_seq[i] by {}
                    }
                }
            },
        }
        k = k + 1;
    }
    let r = Result::Ok((out, all_none));
    proof {
        lemma_classify_prefix_len(m, ctx@, m.len() as int);
        assert(arg_shape_models(out@) =~= Seq::new(
            ts@.len(),
            |i: int|
                SpecArgShape {
                    shape: spec_classify_prefix(m, ctx@, ts@.len() as int)->Ok_0[i],
                    original: m[i],
                    converted: spec_rewrite(m[i], ctx@),
                },
        )) by {
            lemma_arg_shape_models_len(out@);
            assert forall|i: int| 0 <= i < out@.len() implies arg_shape_models(out@)[i]
                == SpecArgShape {
                shape: spec_classify_prefix(m, ctx@, ts@.len() as int)->Ok_0[i],
                original: m[i],
                converted: spec_rewrite(m[i], ctx@),
            } by {
                lemma_arg_shape_models_index(out@, i);
            }
        }
    }
    r
}

/// Shape purity: a type in which neither the interface type nor a dynamic
/// parameter occurs always classifies to `NoConversion`.
pub proof fn lemma_shape_purity(t: SpecType, ctx: SpecContext)
    requires
        !has_occurrence(t, ctx),
    ensures
        spec_classify(t, ctx) == Result::<SpecShape, GenError>::Ok(SpecShape::NoConversion),
    decreases t, 0nat,
{
    match t {
        SpecType::Named { path, args } => {
            lemma_any_occurrence_iff(args, ctx);
            if path == box_path() {
                if args.len() == 1 {
                    lemma_shape_purity(args[0], ctx);
                }
            } else {
                lemma_purity_prefix(args, ctx, args.len() as int);
            }
        },
        SpecType::Tuple { elems } => {
            lemma_any_occurrence_iff(elems, ctx);
            lemma_purity_prefix(elems, ctx, elems.len() as int);
        },
        SpecType::Reference { inner, .. } => {
            lemma_shape_purity(*inner, ctx);
        },
        SpecType::Boxed { inner } => {
            lemma_shape_purity(*inner, ctx);
        },
        SpecType::Closure { kind, args, ret } => {
            lemma_any_occurrence_iff(args, ctx);
            lemma_purity_prefix(args, ctx, args.len() as int);
            lemma_shape_purity(*ret, ctx);
        },
        SpecType::Unsupported { .. } => {},
    }
}

proof fn lemma_purity_prefix(s: Seq<SpecType>, ctx: SpecContext, n: int)
    requires
        0 <= n <= s.len(),
        forall|i: int| 0 <= i < s.len() ==> !has_occurrence(#[trigger] s[i], ctx),
    ensures
        spec_classify_prefix(s, ctx, n) == Result::<Seq<SpecShape>, GenError>::Ok(
            Seq::new(n as nat, |i: int| SpecShape::NoConversion),
        ),
    decreases s, n,
{
    if n <= 0 {
        assert(Seq::new(0 as nat, |i: int| SpecShape::NoConversion) =~= Seq::<
            SpecShape,
        >::empty());
    } else {
        lemma_purity_prefix(s, ctx, n - 1);
        lemma_shape_purity(s[n - 1], ctx);
        assert(Seq::new(n as nat, |i: int| SpecShape::NoConversion) =~= Seq::new(
            (n - 1) as nat,
            |i: int| SpecShape::NoConversion,
        ).push(SpecShape::NoConversion));
    }
}

/// A type with no occurrence is left untouched by substitution.
pub proof fn lemma_rewrite_identity(t: SpecType, ctx: SpecContext)
    requires
        !has_occurrence(t, ctx),
    ensures
        spec_rewrite(t, ctx) == t,
    decreases t, 0nat,
{
    match t {
        SpecType::Named { path, args } => {
            lemma_any_occurrence_iff(args, ctx);
            lemma_rewrite_all_identity(args, ctx);
            assert(spec_rewrite(t, ctx) =~= t);
        },
        SpecType::Tuple { elems } => {
            lemma_any_occurrence_iff(elems, ctx);
            lemma_rewrite_all_identity(elems, ctx);
            assert(spec_rewrite(t, ctx) =~= t);
        },
        SpecType::Reference { inner, .. } => {
            lemma_rewrite_identity(*inner, ctx);
            assert(spec_rewrite(t, ctx) =~= t);
        },
        SpecType::Boxed { inner } => {
            lemma_rewrite_identity(*inner, ctx);
            assert(spec_rewrite(t, ctx) =~= t);
        },
        SpecType::Closure { kind, args, ret } => {
            lemma_any_occurrence_iff(args, ctx);
            lemma_rewrite_all_identity(args, ctx);
            lemma_rewrite_identity(*ret, ctx);
            assert(spec_rewrite(t, ctx) =~= t);
        },
        SpecType::Unsupported { .. } => {},
    }
}

proof fn lemma_rewrite_all_identity(s: Seq<SpecType>, ctx: SpecContext)
    requires
        forall|i: int| 0 <= i < s.len() ==> !has_occurrence(#[trigger] s[i], ctx),
    ensures
        spec_rewrite_all(s, ctx) == s,
    decreases s, s.len(),
{
    if s.len() > 0 {
        assert forall|i: int| 0 <= i < s.drop_last().len() implies !has_occurrence(
            #[trigger] s.drop_last()[i],
            ctx,
        ) by {
            assert(s.drop_last()[i] == s[i]);
        }
        lemma_rewrite_all_identity(s.drop_last(), ctx);
        lemma_rewrite_identity(s.last(), ctx);
        assert(spec_rewrite_all(s, ctx) =~= s);
    } else {
        assert(spec_rewrite_all(s, ctx) =~= s);
    }
}

/// The converse of shape purity: classification answers `NoConversion`
/// only for a type without any occurrence, so together the two lemmas pin
/// the classifier's `NoConversion` answer exactly.
pub proof fn lemma_no_conversion_only_without_occurrence(t: SpecType, ctx: SpecContext)
    requires
        spec_classify(t, ctx) == Result::<SpecShape, GenError>::Ok(SpecShape::NoConversion),
    ensures
        !has_occurrence(t, ctx),
    decreases t, 0nat,
{
    match t {
        SpecType::Named { path, args } => {
            lemma_any_occurrence_iff(args, ctx);
            if path == box_path() {
                if args.len() == 1 {
                    lemma_no_conversion_only_without_occurrence(args[0], ctx);
                    assert forall|i: int| 0 <= i < args.len() implies !has_occurrence(
                        #[trigger] args[i],
                        ctx,
                    ) by {
                        assert(args[i] == args[0]);
                    }
                }
            } else {
                lemma_prefix_no_conversion(args, ctx, args.len() as int);
            }
        },
        SpecType::Tuple { elems } => {
            lemma_any_occurrence_iff(elems, ctx);
            lemma_prefix_no_conversion(elems, ctx, elems.len() as int);
        },
        SpecType::Reference { inner, .. } => {
            lemma_no_conversion_only_without_occurrence(*inner, ctx);
        },
        SpecType::Boxed { inner } => {
            lemma_no_conversion_only_without_occurrence(*inner, ctx);
        },
        SpecType::Closure { kind, args, ret } => {
            lemma_any_occurrence_iff(args, ctx);
            lemma_prefix_no_conversion(args, ctx, args.len() as int);
            lemma_no_conversion_only_without_occurrence(*ret, ctx);
        },
        SpecType::Unsupported { .. } => {},
    }
}

proof fn lemma_prefix_no_conversion(s: Seq<SpecType>, ctx: SpecContext, n: int)
    requires
        0 <= n <= s.len(),
        spec_classify_prefix(s, ctx, n) matches Result::Ok(shapes) && all_no_conversion(shapes),
    ensures
        forall|i: int| 0 <= i < n ==> !has_occurrence(#[trigger] s[i], ctx),
    decreases s, n,
{
    if n > 0 {
        let pre = spec_classify_prefix(s, ctx, n - 1)->Ok_0;
        lemma_classify_prefix_len(s, ctx, n - 1);
        assert forall|i: int| 0 <= i < pre.len() implies #[trigger] pre[i]
            == SpecShape::NoConversion by {
            assert(spec_classify_prefix(s, ctx, n)->Ok_0[i] == pre[i]);
        }
        lemma_prefix_no_conversion(s, ctx, n - 1);
        assert(spec_classify_prefix(s, ctx, n)->Ok_0.last() == SpecShape::NoConversion);
        assert(spec_classify(s[n - 1], ctx) == Result::<SpecShape, GenError>::Ok(
            SpecShape::NoConversion,
        ));
        lemma_no_conversion_only_without_occurrence(s[n - 1], ctx);
    }
}

} // verus!
