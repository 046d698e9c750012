//! The interface model builder, the method signature rewriter, and the
//! whole-interface transformation.
//!
//! The builder validates the front end's raw form into an immutable
//! `InterfaceDefinition`.  The rewriter sends every method with a receiver
//! to the dynamic-safe sibling and every receiverless method to the
//! factory sibling, rewrites its signature over the opaque handle types,
//! and synthesizes its forwarding body: unwrap the parameters, call the
//! underlying concrete method, wrap the result.  `transform` runs the
//! whole pipeline for one interface and assembles the output bundle; any
//! failure aborts the transformation with no partial output.

use vstd::prelude::*;
use vstd::string::StringExecFns;

use crate::capability::{CapabilityKind, FactoryBound, InstanceBound, cap_views, fb_models,
    ib_models, spec_factory_bounds, spec_impls, spec_instance_bounds, translate_capabilities};
use crate::classify::{DynParamEntry, InterfaceContext, SpecContext, SpecDynParam, SpecShape,
    classify, dyn_models, lemma_classify_prefix_err, lemma_classify_prefix_len, rewrite_type,
    spec_classify, spec_classify_prefix, spec_rewrite, shape_model};
use crate::generate::{Direction, GenExpr, SpecExpr, expr_model, expr_models, generate,
    lemma_expr_models_index, lemma_expr_models_len, spec_generate};
use crate::model::{CapabilityRef, GenError, GenericParamKind, GenericParameter,
    InterfaceDefinition, MethodSignature, ReceiverKind, SpecCapRef, SpecGenericParam,
    SpecInterface, SpecMethod, SpecType, TypeExpression, duplicate_all, lemma_type_models_index,
    lemma_type_models_len, param_wf, interface_wf, type_model, type_models};

verus! {

/// The kind of a raw generic parameter, before validation.
#[derive(Clone, Copy, Debug, PartialEq, Eq, Structural)]
pub enum RawParamKind {
    Type,
    Lifetime,
    ConstGeneric,
}

/// A generic parameter as the front end hands it over.
#[derive(Debug, PartialEq, Eq)]
pub struct RawParameter {
    pub name: String,
    pub kind: RawParamKind,
    pub dynamic: bool,
    pub bounds: Vec<CapabilityRef>,
}

/// An interface as the front end hands it over.
#[derive(Debug, PartialEq, Eq)]
pub struct RawInterface {
    pub name: String,
    pub params: Vec<RawParameter>,
    pub capabilities: Vec<String>,
    pub methods: Vec<MethodSignature>,
}

#[verifier::ext_equal]
pub struct SpecRawParam {
    pub name: Seq<char>,
    pub kind: RawParamKind,
    pub dynamic: bool,
    pub bounds: Seq<SpecCapRef>,
}

#[verifier::ext_equal]
pub struct SpecRawInterface {
    pub name: Seq<char>,
    pub params: Seq<SpecRawParam>,
    pub capabilities: Seq<Seq<char>>,
    pub methods: Seq<SpecMethod>,
}

impl View for RawParameter {
    type V = SpecRawParam;

    open spec fn view(&self) -> SpecRawParam {
        SpecRawParam {
            name: self.name@,
            kind: self.kind,
            dynamic: self.dynamic,
            bounds: Seq::new(self.bounds@.len(), |i: int| self.bounds@[i]@),
        }
    }
}

impl View for RawInterface {
    type V = SpecRawInterface;

    open spec fn view(&self) -> SpecRawInterface {
        SpecRawInterface {
            name: self.name@,
            params: Seq::new(self.params@.len(), |i: int| self.params@[i]@),
            capabilities: cap_views(self.capabilities@),
            methods: Seq::new(self.methods@.len(), |i: int| self.methods@[i]@),
        }
    }
}

/// Validation of one raw parameter.
pub open spec fn spec_build_param(p: SpecRawParam) -> Result<SpecGenericParam, GenError> {
    if p.kind == RawParamKind::ConstGeneric {
        Result::Err(GenError::UnsupportedShape(crate::model::UnsupportedKind::ConstGeneric))
    } else if p.dynamic && p.bounds.len() != 1 {
        Result::Err(GenError::MalformedInterface)
    } else {
        Result::Ok(
            SpecGenericParam {
                name: p.name,
                kind: if p.kind == RawParamKind::Lifetime {
                    GenericParamKind::Lifetime
                } else {
                    GenericParamKind::Type
                },
                dynamic: p.dynamic,
                capability: if p.dynamic {
                    Option::Some(p.bounds[0])
                } else {
                    Option::None
                },
                static_bounds: if p.dynamic {
                    Seq::empty()
                } else {
                    Seq::new(p.bounds.len(), |i: int| p.bounds[i].name)
                },
            },
        )
    }
}

pub open spec fn spec_build_params(params: Seq<SpecRawParam>, n: int) -> Result<
    Seq<SpecGenericParam>,
    GenError,
>
    decreases n,
{
    if n <= 0 || n > params.len() {
        Result::Ok(Seq::empty())
    } else {
        match spec_build_params(params, n - 1) {
            Result::Err(e) => Result::Err(e),
            Result::Ok(pre) => match spec_build_param(params[n - 1]) {
                Result::Err(e) => Result::Err(e),
                Result::Ok(g) => Result::Ok(pre.push(g)),
            },
        }
    }
}

/// Validation of a whole raw interface: each dynamic parameter carries
/// exactly one capability bound, and const generics are refused.
pub open spec fn spec_build(raw: SpecRawInterface) -> Result<SpecInterface, GenError> {
    match spec_build_params(raw.params, raw.params.len() as int) {
        Result::Err(e) => Result::Err(e),
        Result::Ok(gens) => Result::Ok(
            SpecInterface {
                name: raw.name,
                generics: gens,
                capabilities: raw.capabilities,
                methods: raw.methods,
            },
        ),
    }
}

pub proof fn lemma_build_params_err(params: Seq<SpecRawParam>, n: int, m: int)
    requires
        0 <= n <= m <= params.len(),
        spec_build_params(params, n) is Err,
    ensures
        spec_build_params(params, m) == spec_build_params(params, n),
    decreases m - n,
{
    if m > n {
        lemma_build_params_err(params, n, m - 1);
    }
}

/// A copy of a capability reference with the same mathematical model.
pub fn cap_ref_duplicate(c: &CapabilityRef) -> (r: CapabilityRef)
    ensures
        r@ == c@,
{
    let r = CapabilityRef { name: c.name.clone(), assoc_args: duplicate_all(&c.assoc_args) };
    proof {
        assert(r@ =~= c@);
    }
    r
}

/// Build the immutable interface definition from the raw form: separate
/// ordinary generic parameters from dynamic ones, each dynamic parameter
/// carrying exactly one capability bound; refuse const generics.  On
/// success the result satisfies the interface invariant.
pub fn build_interface(raw: RawInterface) -> (r: Result<InterfaceDefinition, GenError>)
    ensures
        (r matches Result::Ok(d) ==> spec_build(raw@) == Result::<SpecInterface, GenError>::Ok(
            d@,
        )),
        (r matches Result::Err(e) ==> spec_build(raw@) == Result::<SpecInterface, GenError>::Err(
            e,
        )),
        (r matches Result::Ok(d) ==> interface_wf(d@)),
{
    let ghost pv = raw@.params;
    proof {
        assert(pv.len() == raw.params@.len());
    }
    let mut generics: Vec<GenericParameter> = Vec::new();
    let mut k: usize = 0;
    while k < raw.params.len()
        invariant
            k <= raw.params@.len(),
            pv == raw@.params,
            pv.len() == raw.params@.len(),
            generics@.len() == k,
            spec_build_params(pv, k as int) matches Result::Ok(pre) && pre == Seq::new(
                k as nat,
                |i: int| generics@[i]@,
            ),
            forall|i: int| 0 <= i < k ==> param_wf(#[trigger] generics@[i]@),
        decreases raw.params@.len() - k,
    {
        let p = &raw.params[k];
        proof {
            assert(pv[k as int] == raw.params@[k as int]@);
        }
        if p.kind == RawParamKind::ConstGeneric {
            proof {
                lemma_build_params_err(pv, k as int + 1, pv.len() as int);
            }
            return Result::Err(
                GenError::UnsupportedShape(crate::model::UnsupportedKind::ConstGeneric),
            );
        }
        if p.dynamic && p.bounds.len() != 1 {
            proof {
                lemma_build_params_err(pv, k as int + 1, pv.len() as int);
            }
            return Result::Err(GenError::MalformedInterface);
        }
        let capability = if p.dynamic {
            Option::Some(cap_ref_duplicate(&p.bounds[0]))
        } else {
            Option::None
        };
        let mut static_bounds: Vec<String> = Vec::new();
        if !p.dynamic {
            let mut j: usize = 0;
            while j < p.bounds.len()
                invariant
                    j <= p.bounds@.len(),
                    static_bounds@.len() == j,
                    forall|i: int| 0 <= i < j ==> #[trigger] static_bounds@[i]@
                        == p.bounds@[i]@.name,
                decreases p.bounds@.len() - j,
            {
                static_bounds.push(p.bounds[j].name.clone());
                j = j + 1;
            }
        }
        let g = GenericParameter {
            name: p.name.clone(),
            kind: if p.kind == RawParamKind::Lifetime {
                GenericParamKind::Lifetime
            } else {
                GenericParamKind::Type
            },
            dynamic: p.dynamic,
            capability,
            static_bounds,
        };
        proof {
            assert(spec_build_param(pv[k as int]) matches Result::Ok(sg) && sg =~= g@);
            assert(Seq::new((k + 1) as nat, |i: int| generics@.push(g)[i]@) =~= Seq::new(
                k as nat,
                |i: int| generics@[i]@,
            ).push(g@));
        }
        generics.push(g);
        k = k + 1;
    }
    let d = InterfaceDefinition {
        name: raw.name,
        generics,
        capabilities: raw.capabilities,
        methods: raw.methods,
    };
    proof {
        assert(spec_build(raw@) matches Result::Ok(si) && si =~= d@);
        assert(interface_wf(d@));
    }
    Result::Ok(d)
}

/// Every generic parameter of the interface as a bare named type.
pub open spec fn all_param_refs(gens: Seq<SpecGenericParam>) -> Seq<SpecType> {
    Seq::new(gens.len(), |j: int| SpecType::Named { path: gens[j].name, args: Seq::empty() })
}

/// The interface's full name with all of its generic parameters applied,
/// as a type expression.
pub open spec fn spec_full_name(i: SpecInterface) -> SpecType {
    SpecType::Named { path: i.name, args: all_param_refs(i.generics) }
}

/// The type parameters of the interface, as a tuple type carrying one
/// position per type parameter (lifetimes are left out).
pub open spec fn spec_type_param_refs(gens: Seq<SpecGenericParam>) -> Seq<SpecType>
    decreases gens.len(),
{
    if gens.len() == 0 {
        Seq::empty()
    } else {
        spec_type_param_refs(gens.drop_last()) + (if gens.last().kind == GenericParamKind::Type {
            seq![SpecType::Named { path: gens.last().name, args: Seq::empty() }]
        } else {
            Seq::empty()
        })
    }
}

pub open spec fn spec_instance_tuple(i: SpecInterface) -> SpecType {
    SpecType::Tuple { elems: spec_type_param_refs(i.generics) }
}

/// The interface's full name applied to its generic parameters, and the
/// tuple of its type parameters used to pin the opaque instance type.
pub fn get_full_name(iface: &InterfaceDefinition) -> (r: (TypeExpression, TypeExpression))
    ensures
        r.0@ == spec_full_name(iface@),
        r.1@ == spec_instance_tuple(iface@),
{
    let ghost gv = iface@.generics;
    let mut all_args: Vec<TypeExpression> = Vec::new();
    let mut type_args: Vec<TypeExpression> = Vec::new();
    let mut k: usize = 0;
    proof {
        assert(gv.len() == iface.generics@.len());
        assert(type_models(type_args@) =~= spec_type_param_refs(gv.take(0)));
    }
    while k < iface.generics.len()
        invariant
            k <= iface.generics@.len(),
            gv == iface@.generics,
            gv.len() == iface.generics@.len(),
            all_args@.len() == k,
            forall|i: int| 0 <= i < k ==> type_model(#[trigger] all_args@[i]) == (SpecType::Named {
                path: gv[i].name,
                args: Seq::empty(),
            }),
            type_models(type_args@) == spec_type_param_refs(gv.take(k as int)),
        decreases iface.generics@.len() - k,
    {
        proof {
            assert(gv[k as int] == iface.generics@[k as int]@);
            assert(gv.take(k + 1).drop_last() =~= gv.take(k as int));
        }
        let g = &iface.generics[k];
        let empty1: Vec<TypeExpression> = Vec::new();
        let named = TypeExpression::Named { path: g.name.clone(), args: empty1 };
        proof {
            assert(named->Named_args@.len() == 0);
            assert(type_models(named->Named_args@) =~= Seq::<SpecType>::empty());
            assert(type_model(named) =~= (SpecType::Named { path: gv[k as int].name, args: Seq::empty() }));
        }
        if g.kind == GenericParamKind::Type {
            let empty2: Vec<TypeExpression> = Vec::new();
            let named2 = TypeExpression::Named { path: g.name.clone(), args: empty2 };
            let ghost old_models = type_models(type_args@);
            proof {
                assert(named2->Named_args@.len() == 0);
                assert(type_models(named2->Named_args@) =~= Seq::<SpecType>::empty());
                assert(type_model(named2) =~= (SpecType::Named {
                    path: gv[k as int].name,
                    args: Seq::empty(),
                }));
                assert(type_models(type_args@.push(named2)) == type_models(type_args@).push(
                    type_model(named2),
                )) by {
                    assert(type_args@.push(named2).drop_last() =~= type_args@);
                }
                assert(old_models.push(type_model(named2)) =~= spec_type_param_refs(
                    gv.take(k + 1),
                ));
            }
            type_args.push(named2);
        } else {
            proof {
                assert(spec_type_param_refs(gv.take(k + 1)) =~= spec_type_param_refs(
                    gv.take(k as int),
                ));
            }
        }
        all_args.push(named);
        k = k + 1;
    }
    let full = TypeExpression::Named { path: iface.name.clone(), args: all_args };
    let tuple = TypeExpression::Tuple { elems: type_args };
    proof {
        assert(gv.take(gv.len() as int) =~= gv);
        lemma_type_models_len(full->Named_args@);
        assert forall|j: int| 0 <= j < gv.len() implies type_models(full->Named_args@)[j]
            == (SpecType::Named { path: gv[j].name, args: Seq::empty() }) by {
            lemma_type_models_index(full->Named_args@, j);
        }
        assert(type_models(full->Named_args@) =~= Seq::new(
            iface@.generics.len(),
            |j: int| SpecType::Named { path: iface@.generics[j].name, args: Seq::empty() },
        ));
        assert(full@ =~= spec_full_name(iface@));
        assert(tuple@ =~= spec_instance_tuple(iface@));
    }
    (full, tuple)
}

/// Which sibling interface a rewritten method belongs to.
#[derive(Clone, Copy, Debug, PartialEq, Eq, Structural)]
pub enum Sibling {
    /// The dynamic-safe sibling, used through the opaque handle.
    DynamicSafe,
    /// The factory sibling, keeping the static entry points.
    Factory,
}

/// One parameter of a rewritten method, with its substituted type.
#[derive(Debug, PartialEq, Eq)]
pub struct RewrittenParam {
    pub name: String,
    pub ty: TypeExpression,
}

/// One method of a sibling interface, together with its synthesized
/// forwarding body.
#[derive(Debug, PartialEq, Eq)]
pub struct RewrittenMethod {
    pub target: Sibling,
    pub name: String,
    /// The rewritten receiver: a receiverless method gains a reference
    /// receiver on the factory sibling.
    pub receiver: ReceiverKind,
    /// Whether the original by-value receiver becomes an owned opaque
    /// handle.
    pub boxed_receiver: bool,
    pub params: Vec<RewrittenParam>,
    pub ret: TypeExpression,
    pub body: GenExpr,
}

#[verifier::ext_equal]
pub struct SpecRewrittenParam {
    pub name: Seq<char>,
    pub ty: SpecType,
}

#[verifier::ext_equal]
pub struct SpecRewrittenMethod {
    pub target: Sibling,
    pub name: Seq<char>,
    pub receiver: ReceiverKind,
    pub boxed_receiver: bool,
    pub params: Seq<SpecRewrittenParam>,
    pub ret: SpecType,
    pub body: SpecExpr,
}

impl View for RewrittenParam {
    type V = SpecRewrittenParam;

    open spec fn view(&self) -> SpecRewrittenParam {
        SpecRewrittenParam { name: self.name@, ty: self.ty@ }
    }
}

impl View for RewrittenMethod {
    type V = SpecRewrittenMethod;

    open spec fn view(&self) -> SpecRewrittenMethod {
        SpecRewrittenMethod {
            target: self.target,
            name: self.name@,
            receiver: self.receiver,
            boxed_receiver: self.boxed_receiver,
            params: Seq::new(self.params@.len(), |i: int| self.params@[i]@),
            ret: self.ret@,
            body: self.body@,
        }
    }
}

pub open spec fn param_types(params: Seq<crate::model::SpecMethodParam>) -> Seq<SpecType> {
    Seq::new(params.len(), |i: int| params[i].ty)
}

/// The unwrap expressions of the method body, one per parameter, each
/// converting the parameter at depth zero.
pub open spec fn spec_unwrap_args(shapes: Seq<SpecShape>) -> Seq<SpecExpr> {
    Seq::new(
        shapes.len(),
        |i: int|
            spec_generate(
                shapes[i],
                SpecExpr::Param { depth: 0, index: i as usize },
                Direction::Unwrap,
                0,
            ),
    )
}

pub open spec fn spec_rewritten_params(
    params: Seq<crate::model::SpecMethodParam>,
    ctx: SpecContext,
) -> Seq<SpecRewrittenParam> {
    Seq::new(
        params.len(),
        |i: int| SpecRewrittenParam { name: params[i].name, ty: spec_rewrite(params[i].ty, ctx) },
    )
}

/// The call at the heart of the synthesized body: a method with a
/// receiver calls the stored concrete value, a receiverless one calls the
/// concrete factory type.
pub open spec fn spec_callee(m: SpecMethod, args: Seq<SpecExpr>) -> SpecExpr {
    if m.receiver == ReceiverKind::Static {
        SpecExpr::FactoryCall { method: m.name, args }
    } else {
        SpecExpr::SelfCall { method: m.name, args }
    }
}

/// Rewrite one method: classify every parameter and the return type,
/// unwrap the parameters, call the underlying concrete method, wrap the
/// result.
pub open spec fn spec_rewrite_method(m: SpecMethod, ctx: SpecContext) -> Result<
    SpecRewrittenMethod,
    GenError,
> {
    let tys = param_types(m.params);
    match spec_classify_prefix(tys, ctx, tys.len() as int) {
        Result::Err(e) => Result::Err(e),
        Result::Ok(shapes) => match spec_classify(m.ret, ctx) {
            Result::Err(e) => Result::Err(e),
            Result::Ok(ret_shape) => Result::Ok(
                SpecRewrittenMethod {
                    target: if m.receiver == ReceiverKind::Static {
                        Sibling::Factory
                    } else {
                        Sibling::DynamicSafe
                    },
                    name: m.name,
                    receiver: if m.receiver == ReceiverKind::Static {
                        ReceiverKind::ByReference
                    } else {
                        m.receiver
                    },
                    boxed_receiver: m.receiver == ReceiverKind::ByValue,
                    params: spec_rewritten_params(m.params, ctx),
                    ret: spec_rewrite(m.ret, ctx),
                    body: spec_generate(
                        ret_shape,
                        spec_callee(m, spec_unwrap_args(shapes)),
                        Direction::Wrap,
                        0,
                    ),
                },
            ),
        },
    }
}

pub open spec fn rewrite_method_result(r: Result<RewrittenMethod, GenError>) -> Result<
    SpecRewrittenMethod,
    GenError,
> {
    match r {
        Result::Ok(m) => Result::Ok(m@),
        Result::Err(e) => Result::Err(e),
    }
}

/// Exec twin of `spec_rewrite_method`.
pub fn rewrite_method(m: &MethodSignature, ctx: &InterfaceContext) -> (r: Result<
    RewrittenMethod,
    GenError,
>)
    ensures
        rewrite_method_result(r) == spec_rewrite_method(m@, ctx@),
{
    let ghost tys = param_types(m@.params);
    proof {
        assert(tys.len() == m.params@.len());
        assert(forall|i: int| 0 <= i < tys.len() ==> tys[i] == type_model(
            #[trigger] m.params@[i].ty,
        ));
    }
    let mut unwraps: Vec<GenExpr> = Vec::new();
    let mut new_params: Vec<RewrittenParam> = Vec::new();
    let mut k: usize = 0;
    while k < m.params.len()
        invariant
            k <= m.params@.len(),
            tys == param_types(m@.params),
            tys.len() == m.params@.len(),
            forall|i: int| 0 <= i < tys.len() ==> tys[i] == type_model(
                #[trigger] m.params@[i].ty,
            ),
            unwraps@.len() == k,
            new_params@.len() == k,
            spec_classify_prefix(tys, ctx@, k as int) is Ok,
            forall|i: int| 0 <= i < k ==> expr_model(#[trigger] unwraps@[i]) == spec_generate(
                spec_classify_prefix(tys, ctx@, k as int)->Ok_0[i],
                (SpecExpr::Param { depth: 0, index: i as usize }),
                Direction::Unwrap,
                0,
            ),
            forall|i: int| 0 <= i < k ==> (#[trigger] new_params@[i])@ == (SpecRewrittenParam {
                name: m.params@[i].name@,
                ty: spec_rewrite(type_model(m.params@[i].ty), ctx@),
            }),
        decreases m.params@.len() - k,
    {
        let ghost pre = spec_classify_prefix(tys, ctx@, k as int)->Ok_0;
        match classify(&m.params[k].ty, ctx) {
            Result::Err(e) => {
                proof {
                    lemma_classify_prefix_err(tys, ctx@, k as int + 1, tys.len() as int);
                }
                return Result::Err(e);
            },
            Result::Ok(sh) => {
                let unwrap_expr = generate(
                    &sh,
                    GenExpr::Param { depth: 0, index: k },
                    Direction::Unwrap,
                    0,
                );
                let rp = RewrittenParam {
                    name: m.params[k].name.clone(),
                    ty: rewrite_type(&m.params[k].ty, ctx),
                };
                proof {
                    assert(spec_classify_prefix(tys, ctx@, k as int + 1)->Ok_0 =~= pre.push(
                        shape_model(sh),
                    ));
                    lemma_classify_prefix_len(tys, ctx@, k as int);
                }
                unwraps.push(unwrap_expr);
                new_params.push(rp);
            },
        }
        k = k + 1;
    }
    match classify(&m.ret, ctx) {
        Result::Err(e) => Result::Err(e),
        Result::Ok(ret_shape) => {
            let ghost shapes = spec_classify_prefix(tys, ctx@, tys.len() as int)->Ok_0;
            proof {
                lemma_classify_prefix_len(tys, ctx@, tys.len() as int);
                lemma_expr_models_len(unwraps@);
                assert forall|i: int| 0 <= i < unwraps@.len() implies expr_models(unwraps@)[i]
                    == spec_unwrap_args(shapes)[i] by {
                    lemma_expr_models_index(unwraps@, i);
                }
                assert(expr_models(unwraps@) =~= spec_unwrap_args(shapes));
            }
            let is_static = match m.receiver {
                ReceiverKind::Static => true,
                _ => false,
            };
            let callee = if is_static {
                GenExpr::FactoryCall { method: m.name.clone(), args: unwraps }
            } else {
                GenExpr::SelfCall { method: m.name.clone(), args: unwraps }
            };
            proof {
                assert(callee@ =~= spec_callee(m@, spec_unwrap_args(shapes)));
            }
            let body = generate(&ret_shape, callee, Direction::Wrap, 0);
            let new_ret = rewrite_type(&m.ret, ctx);
            let rm = RewrittenMethod {
                target: if is_static {
                    Sibling::Factory
                } else {
                    Sibling::DynamicSafe
                },
                name: m.name.clone(),
                receiver: match m.receiver {
                    ReceiverKind::Static => ReceiverKind::ByReference,
                    ReceiverKind::ByReference => ReceiverKind::ByReference,
                    ReceiverKind::ByValue => ReceiverKind::ByValue,
                },
                boxed_receiver: match m.receiver {
                    ReceiverKind::ByValue => true,
                    _ => false,
                },
                params: new_params,
                ret: new_ret,
                body,
            };
            proof {
                assert(rm@ =~= spec_rewrite_method(m@, ctx@)->Ok_0) by {
                    assert(Seq::new(rm.params@.len(), |i: int| rm.params@[i]@)
                        =~= spec_rewritten_params(m@.params, ctx@));
                }
                assert(spec_rewrite_method(m@, ctx@) is Ok);
            }
            Result::Ok(rm)
        },
    }
}

/// The dynamic-parameter table of the substitution context: each dynamic
/// parameter converts to an owned box of its capability bound.
pub open spec fn spec_dyn_entries(gens: Seq<SpecGenericParam>) -> Seq<SpecDynParam>
    decreases gens.len(),
{
    if gens.len() == 0 {
        Seq::empty()
    } else {
        spec_dyn_entries(gens.drop_last()) + (if gens.last().dynamic && gens.last().capability
            is Some {
            seq![
                SpecDynParam {
                    name: gens.last().name,
                    handle: SpecType::Boxed {
                        inner: Box::new(
                            SpecType::Named {
                                path: gens.last().capability->0.name,
                                args: gens.last().capability->0.assoc_args,
                            },
                        ),
                    },
                },
            ]
        } else {
            Seq::empty()
        })
    }
}

/// The substitution context of one interface: its own name maps to an
/// owned box of the dynamic-safe sibling, and each dynamic parameter to an
/// owned box of its capability bound.
pub open spec fn spec_mk_context(i: SpecInterface) -> SpecContext {
    SpecContext {
        self_name: i.name,
        self_handle: SpecType::Boxed {
            inner: Box::new(
                SpecType::Named {
                    path: i.name + "Instance"@,
                    args: all_param_refs(i.generics),
                },
            ),
        },
        dynamics: spec_dyn_entries(i.generics),
    }
}

pub open spec fn spec_method_list(methods: Seq<SpecMethod>, ctx: SpecContext, n: int) -> Result<
    Seq<SpecRewrittenMethod>,
    GenError,
>
    decreases n,
{
    if n <= 0 || n > methods.len() {
        Result::Ok(Seq::empty())
    } else {
        match spec_method_list(methods, ctx, n - 1) {
            Result::Err(e) => Result::Err(e),
            Result::Ok(pre) => match spec_rewrite_method(methods[n - 1], ctx) {
                Result::Err(e) => Result::Err(e),
                Result::Ok(rm) => Result::Ok(pre.push(rm)),
            },
        }
    }
}

pub proof fn lemma_method_list_err(methods: Seq<SpecMethod>, ctx: SpecContext, n: int, m: int)
    requires
        0 <= n <= m <= methods.len(),
        spec_method_list(methods, ctx, n) is Err,
    ensures
        spec_method_list(methods, ctx, m) == spec_method_list(methods, ctx, n),
    decreases m - n,
{
    if m > n {
        lemma_method_list_err(methods, ctx, n, m - 1);
    }
}

/// The rewritten methods belonging to one sibling, in order.
pub open spec fn sibling_filter(s: Seq<SpecRewrittenMethod>, t: Sibling) -> Seq<
    SpecRewrittenMethod,
>
    decreases s.len(),
{
    if s.len() == 0 {
        Seq::empty()
    } else {
        sibling_filter(s.drop_last(), t) + (if s.last().target == t {
            seq![s.last()]
        } else {
            Seq::empty()
        })
    }
}

/// Everything the transformation produces for one interface.
#[derive(Debug, PartialEq, Eq)]
pub struct OutputBundle {
    pub interface_name: String,
    pub instance_name: String,
    pub constructor_name: String,
    pub instance_bounds: Vec<InstanceBound>,
    pub factory_bounds: Vec<FactoryBound>,
    pub capability_impls: Vec<CapabilityKind>,
    pub instance_methods: Vec<RewrittenMethod>,
    pub constructor_methods: Vec<RewrittenMethod>,
    pub context: InterfaceContext,
}

#[verifier::ext_equal]
pub struct SpecBundle {
    pub interface_name: Seq<char>,
    pub instance_name: Seq<char>,
    pub constructor_name: Seq<char>,
    pub instance_bounds: Seq<crate::capability::SpecInstanceBound>,
    pub factory_bounds: Seq<crate::capability::SpecFactoryBound>,
    pub capability_impls: Seq<CapabilityKind>,
    pub instance_methods: Seq<SpecRewrittenMethod>,
    pub constructor_methods: Seq<SpecRewrittenMethod>,
    pub context: SpecContext,
}

impl View for OutputBundle {
    type V = SpecBundle;

    open spec fn view(&self) -> SpecBundle {
        SpecBundle {
            interface_name: self.interface_name@,
            instance_name: self.instance_name@,
            constructor_name: self.constructor_name@,
            instance_bounds: ib_models(self.instance_bounds@),
            factory_bounds: fb_models(self.factory_bounds@),
            capability_impls: self.capability_impls@,
            instance_methods: Seq::new(
                self.instance_methods@.len(),
                |i: int| self.instance_methods@[i]@,
            ),
            constructor_methods: Seq::new(
                self.constructor_methods@.len(),
                |i: int| self.constructor_methods@[i]@,
            ),
            context: self.context@,
        }
    }
}

/// The whole transformation of one interface: translate its capability
/// bounds, rewrite every method onto its sibling, and assemble the
/// output.  Any failure aborts with no partial output.
pub open spec fn spec_transform(i: SpecInterface) -> Result<SpecBundle, GenError> {
    let ctx = spec_mk_context(i);
    match spec_method_list(i.methods, ctx, i.methods.len() as int) {
        Result::Err(e) => Result::Err(e),
        Result::Ok(all) => Result::Ok(
            SpecBundle {
                interface_name: i.name,
                instance_name: i.name + "Instance"@,
                constructor_name: i.name + "Constructor"@,
                instance_bounds: spec_instance_bounds(i.capabilities),
                factory_bounds: spec_factory_bounds(i.capabilities),
                capability_impls: spec_impls(i.capabilities),
                instance_methods: sibling_filter(all, Sibling::DynamicSafe),
                constructor_methods: sibling_filter(all, Sibling::Factory),
                context: ctx,
            },
        ),
    }
}

pub open spec fn transform_result(r: Result<OutputBundle, GenError>) -> Result<
    SpecBundle,
    GenError,
> {
    match r {
        Result::Ok(b) => Result::Ok(b@),
        Result::Err(e) => Result::Err(e),
    }
}

/// Exec twin of `spec_transform`.
pub fn transform(iface: &InterfaceDefinition) -> (r: Result<OutputBundle, GenError>)
    ensures
        transform_result(r) == spec_transform(iface@),
{
    let instance_name = iface.name.clone().concat("Instance");
    let constructor_name = iface.name.clone().concat("Constructor");
    let ghost gv = iface@.generics;
    let mut handle_args: Vec<TypeExpression> = Vec::new();
    let mut dynamics: Vec<DynParamEntry> = Vec::new();
    let mut k: usize = 0;
    proof {
        assert(gv.len() == iface.generics@.len());
        assert(dyn_models(dynamics@) =~= spec_dyn_entries(gv.take(0)));
    }
    while k < iface.generics.len()
        invariant
            k <= iface.generics@.len(),
            gv == iface@.generics,
            gv.len() == iface.generics@.len(),
            handle_args@.len() == k,
            forall|i: int| 0 <= i < k ==> type_model(#[trigger] handle_args@[i])
                == (SpecType::Named { path: gv[i].name, args: Seq::empty() }),
            dyn_models(dynamics@) == spec_dyn_entries(gv.take(k as int)),
        decreases iface.generics@.len() - k,
    {
        proof {
            assert(gv[k as int] == iface.generics@[k as int]@);
            assert(gv.take(k + 1).drop_last() =~= gv.take(k as int));
            assert(gv.take(k + 1).last() == gv[k as int]);
        }
        let g = &iface.generics[k];
        let empty_args: Vec<TypeExpression> = Vec::new();
        let named = TypeExpression::Named { path: g.name.clone(), args: empty_args };
        proof {
            assert(named->Named_args@.len() == 0);
            assert(type_models(named->Named_args@) =~= Seq::<SpecType>::empty());
            assert(type_model(named) =~= (SpecType::Named {
                path: gv[k as int].name,
                args: Seq::empty(),
            }));
        }
        handle_args.push(named);
        if g.dynamic {
            match &g.capability {
                Option::Some(c) => {
                    let entry = DynParamEntry {
                        name: g.name.clone(),
                        handle: TypeExpression::Boxed {
                            inner: Box::new(
                                TypeExpression::Named {
                                    path: c.name.clone(),
                                    args: duplicate_all(&c.assoc_args),
                                },
                            ),
                        },
                    };
                    proof {
                        reveal_with_fuel(type_model, 3);
                        let step = spec_dyn_entries(gv.take(k + 1));
                        assert(step =~= spec_dyn_entries(gv.take(k as int)) + seq![
                            SpecDynParam {
                                name: gv[k as int].name,
                                handle: SpecType::Boxed {
                                    inner: Box::new(
                                        SpecType::Named {
                                            path: gv[k as int].capability->0.name,
                                            args: gv[k as int].capability->0.assoc_args,
                                        },
                                    ),
                                },
                            },
                        ]);
                        assert(entry@ =~~= (SpecDynParam {
                            name: gv[k as int].name,
                            handle: SpecType::Boxed {
                                inner: Box::new(
                                    SpecType::Named {
                                        path: gv[k as int].capability->0.name,
                                        args: gv[k as int].capability->0.assoc_args,
                                    },
                                ),
                            },
                        }));
                        assert(dyn_models(dynamics@.push(entry)) =~= step);
                    }
                    dynamics.push(entry);
                },
                Option::None => {
                    proof {
                        assert(dyn_models(dynamics@) =~= spec_dyn_entries(gv.take(k + 1)));
                    }
                },
            }
        } else {
            proof {
                assert(dyn_models(dynamics@) =~= spec_dyn_entries(gv.take(k + 1)));
            }
        }
        k = k + 1;
    }
    let inner_named = TypeExpression::Named { path: instance_name.clone(), args: handle_args };
    let self_handle = TypeExpression::Boxed { inner: Box::new(inner_named) };
    proof {
        reveal_with_fuel(type_model, 3);
        assert(gv.take(gv.len() as int) =~= gv);
        let ha = self_handle->Boxed_inner->Named_args;
        lemma_type_models_len(ha@);
        assert forall|i: int| 0 <= i < gv.len() implies type_models(ha@)[i] == (SpecType::Named {
            path: gv[i].name,
            args: Seq::empty(),
        }) by {
            lemma_type_models_index(ha@, i);
        }
        assert(type_models(ha@) =~= all_param_refs(gv));
        assert(self_handle@ =~= spec_mk_context(iface@).self_handle);
    }
    let ctx = InterfaceContext { self_name: iface.name.clone(), self_handle, dynamics };
    proof {
        assert(gv.take(gv.len() as int) =~= gv);
        assert(ctx@ =~= spec_mk_context(iface@));
    }
    let translation = translate_capabilities(&iface.capabilities);
    let ghost mv = iface@.methods;
    let mut instance_methods: Vec<RewrittenMethod> = Vec::new();
    let mut constructor_methods: Vec<RewrittenMethod> = Vec::new();
    let mut j: usize = 0;
    proof {
        assert(mv.len() == iface.methods@.len());
        assert(Seq::new(instance_methods@.len(), |i: int| instance_methods@[i]@)
            =~= sibling_filter(spec_method_list(mv, ctx@, 0)->Ok_0, Sibling::DynamicSafe));
        assert(Seq::new(constructor_methods@.len(), |i: int| constructor_methods@[i]@)
            =~= sibling_filter(spec_method_list(mv, ctx@, 0)->Ok_0, Sibling::Factory));
    }
    while j < iface.methods.len()
        invariant
            j <= iface.methods@.len(),
            mv == iface@.methods,
            mv.len() == iface.methods@.len(),
            ctx@ == spec_mk_context(iface@),
            spec_method_list(mv, ctx@, j as int) is Ok,
            Seq::new(instance_methods@.len(), |i: int| instance_methods@[i]@) == sibling_filter(
                spec_method_list(mv, ctx@, j as int)->Ok_0,
                Sibling::DynamicSafe,
            ),
            Seq::new(constructor_methods@.len(), |i: int| constructor_methods@[i]@)
                == sibling_filter(
                spec_method_list(mv, ctx@, j as int)->Ok_0,
                Sibling::Factory,
            ),
        decreases iface.methods@.len() - j,
    {
        let ghost pre = spec_method_list(mv, ctx@, j as int)->Ok_0;
        proof {
            assert(mv[j as int] == iface.methods@[j as int]@);
        }
        match rewrite_method(&iface.methods[j], &ctx) {
            Result::Err(e) => {
                proof {
                    lemma_method_list_err(mv, ctx@, j as int + 1, mv.len() as int);
                }
                return Result::Err(e);
            },
            Result::Ok(rm) => {
                let ghost post = pre.push(rm@);
                proof {
                    assert(spec_method_list(mv, ctx@, j as int + 1)->Ok_0 =~= post);
                    assert(post.drop_last() =~= pre);
                }
                let is_instance = match rm.target {
                    Sibling::DynamicSafe => true,
                    Sibling::Factory => false,
                };
                if is_instance {
                    proof {
                        assert(Seq::new(
                            instance_methods@.push(rm).len(),
                            |i: int| instance_methods@.push(rm)[i]@,
                        ) =~= sibling_filter(post, Sibling::DynamicSafe));
                        assert(Seq::new(
                            constructor_methods@.len(),
                            |i: int| constructor_methods@[i]@,
                        ) =~= sibling_filter(post, Sibling::Factory));
                    }
                    instance_methods.push(rm);
                } else {
                    proof {
                        assert(Seq::new(
                            constructor_methods@.push(rm).len(),
                            |i: int| constructor_methods@.push(rm)[i]@,
                        ) =~= sibling_filter(post, Sibling::Factory));
                        assert(Seq::new(
                            instance_methods@.len(),
                            |i: int| instance_methods@[i]@,
                        ) =~= sibling_filter(post, Sibling::DynamicSafe));
                    }
                    constructor_methods.push(rm);
                }
            },
        }
        j = j + 1;
    }
    let b = OutputBundle {
        interface_name: iface.name.clone(),
        instance_name,
        constructor_name,
        instance_bounds: translation.instance_bounds,
        factory_bounds: translation.factory_bounds,
        capability_impls: translation.impls,
        instance_methods,
        constructor_methods,
        context: ctx,
    };
    proof {
        assert(mv.take(mv.len() as int) =~= mv);
        assert(spec_method_list(mv, ctx@, mv.len() as int) is Ok);
        assert(b@ =~= spec_transform(iface@)->Ok_0);
        assert(spec_transform(iface@) is Ok);
    }
    Result::Ok(b)
}

} // verus!
