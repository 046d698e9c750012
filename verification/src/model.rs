//! The structured model of interfaces and type expressions.
//!
//! An interface definition is built once from the front end's raw form and
//! then treated as immutable input by every later stage.  Each executable
//! type has a mathematical mirror (`Spec...`) built from `Seq` and
//! `Seq<char>`; every contract in this crate speaks about those mirrors,
//! reached through the `View` impls (`x@`).

use vstd::prelude::*;

verus! {

/// How many times a closure-like value may be invoked: repeatedly through
/// shared access, repeatedly through exclusive access, or exactly once.
#[derive(Clone, Copy, Debug, PartialEq, Eq, Structural)]
pub enum ClosureKind {
    SharedCall,
    ExclusiveCall,
    OnceCall,
}

/// Type positions that are refused outright rather than silently passed
/// through.
#[derive(Clone, Copy, Debug, PartialEq, Eq, Structural)]
pub enum UnsupportedKind {
    Slice,
    Pointer,
    ImplTrait,
    ConstGeneric,
    MultipleFunctionBounds,
}

/// A type expression, as the front end hands it over.
#[derive(Debug, PartialEq, Eq)]
pub enum TypeExpression {
    /// A path with generic arguments, `Name<A, B>`.
    Named { path: String, args: Vec<TypeExpression> },
    /// A tuple `(A, B, ...)`; the empty tuple stands for "no value".
    Tuple { elems: Vec<TypeExpression> },
    /// A shared or exclusive reference `&A` / `&mut A`.
    Reference { inner: Box<TypeExpression>, mutable: bool },
    /// An owned, heap-allocated value `Box<A>`.
    Boxed { inner: Box<TypeExpression> },
    /// A closure type with its call-cardinality.
    Closure { kind: ClosureKind, args: Vec<TypeExpression>, ret: Box<TypeExpression> },
    /// A shape the generator does not support (a slice, a raw pointer, an
    /// existential type, a const generic, or a position with several
    /// function bounds), carrying whatever inner types it mentions.
    Unsupported { kind: UnsupportedKind, parts: Vec<TypeExpression> },
}

/// Mathematical mirror of `TypeExpression`.
#[verifier::ext_equal]
pub enum SpecType {
    Named { path: Seq<char>, args: Seq<SpecType> },
    Tuple { elems: Seq<SpecType> },
    Reference { inner: Box<SpecType>, mutable: bool },
    Boxed { inner: Box<SpecType> },
    Closure { kind: ClosureKind, args: Seq<SpecType>, ret: Box<SpecType> },
    Unsupported { kind: UnsupportedKind, parts: Seq<SpecType> },
}

pub open spec fn type_model(t: TypeExpression) -> SpecType
    decreases t,
{
    match t {
        TypeExpression::Named { path, args } => SpecType::Named {
            path: path@,
            args: type_models(args@),
        },
        TypeExpression::Tuple { elems } => SpecType::Tuple { elems: type_models(elems@) },
        TypeExpression::Reference { inner, mutable } => SpecType::Reference {
            inner: Box::new(type_model(*inner)),
            mutable,
        },
        TypeExpression::Boxed { inner } => SpecType::Boxed { inner: Box::new(type_model(*inner)) },
        TypeExpression::Closure { kind, args, ret } => SpecType::Closure {
            kind,
            args: type_models(args@),
            ret: Box::new(type_model(*ret)),
        },
        TypeExpression::Unsupported { kind, parts } => SpecType::Unsupported {
            kind,
            parts: type_models(parts@),
        },
    }
}

pub open spec fn type_models(s: Seq<TypeExpression>) -> Seq<SpecType>
    decreases s, s.len(),
{
    if s.len() == 0 {
        Seq::empty()
    } else {
        type_models(s.drop_last()).push(type_model(s.last()))
    }
}

impl View for TypeExpression {
    type V = SpecType;

    open spec fn view(&self) -> SpecType {
        type_model(*self)
    }
}

pub proof fn lemma_type_models_len(s: Seq<TypeExpression>)
    ensures
        type_models(s).len() == s.len(),
    decreases s.len(),
{
    if s.len() > 0 {
        lemma_type_models_len(s.drop_last());
    }
}

pub proof fn lemma_type_models_index(s: Seq<TypeExpression>, i: int)
    requires
        0 <= i < s.len(),
    ensures
        type_models(s).len() == s.len(),
        type_models(s)[i] == type_model(s[i]),
    decreases s.len(),
{
    lemma_type_models_len(s);
    if i < s.len() - 1 {
        lemma_type_models_index(s.drop_last(), i);
    } else {
        lemma_type_models_len(s.drop_last());
    }
}

/// Receiver of a method: none (an associated, static-style method), by
/// reference, or by owned value.
#[derive(Clone, Copy, Debug, PartialEq, Eq, Structural)]
pub enum ReceiverKind {
    Static,
    ByReference,
    ByValue,
}

/// A reference to a capability bound: its name plus optional associated
/// type arguments.
#[derive(Debug, PartialEq, Eq)]
pub struct CapabilityRef {
    pub name: String,
    pub assoc_args: Vec<TypeExpression>,
}

#[verifier::ext_equal]
pub struct SpecCapRef {
    pub name: Seq<char>,
    pub assoc_args: Seq<SpecType>,
}

impl View for CapabilityRef {
    type V = SpecCapRef;

    open spec fn view(&self) -> SpecCapRef {
        SpecCapRef { name: self.name@, assoc_args: type_models(self.assoc_args@) }
    }
}

#[derive(Clone, Copy, Debug, PartialEq, Eq, Structural)]
pub enum GenericParamKind {
    Type,
    Lifetime,
}

/// One generic parameter of the interface.  A parameter marked `dynamic`
/// carries exactly one capability bound; an ordinary parameter carries a
/// list of static bound names.
#[derive(Debug, PartialEq, Eq)]
pub struct GenericParameter {
    pub name: String,
    pub kind: GenericParamKind,
    pub dynamic: bool,
    pub capability: Option<CapabilityRef>,
    pub static_bounds: Vec<String>,
}

#[verifier::ext_equal]
pub struct SpecGenericParam {
    pub name: Seq<char>,
    pub kind: GenericParamKind,
    pub dynamic: bool,
    pub capability: Option<SpecCapRef>,
    pub static_bounds: Seq<Seq<char>>,
}

impl View for GenericParameter {
    type V = SpecGenericParam;

    open spec fn view(&self) -> SpecGenericParam {
        SpecGenericParam {
            name: self.name@,
            kind: self.kind,
            dynamic: self.dynamic,
            capability: match self.capability {
                Option::Some(c) => Option::Some(c@),
                Option::None => Option::None,
            },
            static_bounds: Seq::new(self.static_bounds@.len(), |i: int| self.static_bounds@[i]@),
        }
    }
}

#[derive(Debug, PartialEq, Eq)]
pub struct MethodParameter {
    pub name: String,
    pub ty: TypeExpression,
}

#[verifier::ext_equal]
pub struct SpecMethodParam {
    pub name: Seq<char>,
    pub ty: SpecType,
}

impl View for MethodParameter {
    type V = SpecMethodParam;

    open spec fn view(&self) -> SpecMethodParam {
        SpecMethodParam { name: self.name@, ty: self.ty@ }
    }
}

#[derive(Debug, PartialEq, Eq)]
pub struct MethodSignature {
    pub name: String,
    pub receiver: ReceiverKind,
    pub params: Vec<MethodParameter>,
    pub ret: TypeExpression,
}

#[verifier::ext_equal]
pub struct SpecMethod {
    pub name: Seq<char>,
    pub receiver: ReceiverKind,
    pub params: Seq<SpecMethodParam>,
    pub ret: SpecType,
}

impl View for MethodSignature {
    type V = SpecMethod;

    open spec fn view(&self) -> SpecMethod {
        SpecMethod {
            name: self.name@,
            receiver: self.receiver,
            params: Seq::new(self.params@.len(), |i: int| self.params@[i]@),
            ret: self.ret@,
        }
    }
}

/// The immutable input to every later stage.
#[derive(Debug, PartialEq, Eq)]
pub struct InterfaceDefinition {
    pub name: String,
    pub generics: Vec<GenericParameter>,
    /// Capability-bound names on the interface itself.
    pub capabilities: Vec<String>,
    pub methods: Vec<MethodSignature>,
}

#[verifier::ext_equal]
pub struct SpecInterface {
    pub name: Seq<char>,
    pub generics: Seq<SpecGenericParam>,
    pub capabilities: Seq<Seq<char>>,
    pub methods: Seq<SpecMethod>,
}

impl View for InterfaceDefinition {
    type V = SpecInterface;

    open spec fn view(&self) -> SpecInterface {
        SpecInterface {
            name: self.name@,
            generics: Seq::new(self.generics@.len(), |i: int| self.generics@[i]@),
            capabilities: Seq::new(self.capabilities@.len(), |i: int| self.capabilities@[i]@),
            methods: Seq::new(self.methods@.len(), |i: int| self.methods@[i]@),
        }
    }
}

/// Every failure is fatal for the whole transformation: there is no
/// partial output.
#[derive(Clone, Copy, Debug, PartialEq, Eq, Structural)]
pub enum GenError {
    /// The input is not a well-formed interface definition.
    MalformedInterface,
    /// A slice, pointer, existential type or const generic stands in a
    /// position the generator would have to convert through.
    UnsupportedShape(UnsupportedKind),
    /// The boxed-pointer path was used with an argument count other than
    /// exactly one.
    UnsupportedBoxArity,
    /// A non-closure conversion was found beneath a reference.
    UnsupportedUnderReference,
    /// The equality generator was given a shape with nothing to compare.
    UnsupportedDataShape,
}

/// A dynamic parameter carries exactly one capability bound; an ordinary
/// one carries none.
pub open spec fn param_wf(p: SpecGenericParam) -> bool {
    p.dynamic <==> p.capability is Some
}

pub open spec fn interface_wf(i: SpecInterface) -> bool {
    forall|k: int| 0 <= k < i.generics.len() ==> #[trigger] param_wf(i.generics[k])
}

/// Content equality of two names.
pub fn string_eq(a: &String, b: &String) -> (r: bool)
    ensures
        r == (a@ == b@),
{
    a.eq(b)
}

impl TypeExpression {
    /// A copy with the same mathematical model.
    pub fn duplicate(&self) -> (r: Self)
        ensures
            r@ == self@,
        decreases self,
    {
        match self {
            TypeExpression::Named { path, args } => {
                proof {
                    assert(decreases_to!(*self => (*self)->Named_args));
                }
                let out_args = duplicate_all(args);
                let r = TypeExpression::Named { path: path.clone(), args: out_args };
                proof {
                    assert(r@ =~= self@);
                }
                r
            },
            TypeExpression::Tuple { elems } => {
                proof {
                    assert(decreases_to!(*self => (*self)->Tuple_elems));
                }
                let out_elems = duplicate_all(elems);
                let r = TypeExpression::Tuple { elems: out_elems };
                proof {
                    assert(r@ =~= self@);
                }
                r
            },
            TypeExpression::Reference { inner, mutable } => {
                let r = TypeExpression::Reference {
                    inner: Box::new(inner.duplicate()),
                    mutable: *mutable,
                };
                proof {
                    assert(r@ =~= self@);
                }
                r
            },
            TypeExpression::Boxed { inner } => {
                let r = TypeExpression::Boxed { inner: Box::new(inner.duplicate()) };
                proof {
                    assert(r@ =~= self@);
                }
                r
            },
            TypeExpression::Closure { kind, args, ret } => {
                proof {
                    assert(decreases_to!(*self => (*self)->Closure_args));
                }
                let out_args = duplicate_all(args);
                let r = TypeExpression::Closure {
                    kind: *kind,
                    args: out_args,
                    ret: Box::new(ret.duplicate()),
                };
                proof {
                    assert(r@ =~= self@);
                }
                r
            },
            TypeExpression::Unsupported { kind, parts } => {
                proof {
                    assert(decreases_to!(*self => (*self)->Unsupported_parts));
                }
                let out_parts = duplicate_all(parts);
                let r = TypeExpression::Unsupported { kind: *kind, parts: out_parts };
                proof {
                    assert(r@ =~= self@);
                }
                r
            },
        }
    }
}

/// Elementwise `duplicate` of a whole argument list.
pub fn duplicate_all(ts: &Vec<TypeExpression>) -> (r: Vec<TypeExpression>)
    ensures
        type_models(r@) == type_models(ts@),
        r@.len() == ts@.len(),
    decreases *ts,
{
    let mut out: Vec<TypeExpression> = Vec::new();
    let mut k: usize = 0;
    while k < ts.len()
        invariant
            k <= ts@.len(),
            out@.len() == k,
            forall|i: int| 0 <= i < k ==> #[trigger] type_model(out@[i]) == type_model(ts@[i]),
        decreases ts@.len() - k,
    {
        proof {
            assert(decreases_to!(*ts => (*ts)@));
            assert(decreases_to!((*ts)@ => (*ts)@[k as int]));
        }
        out.push(ts[k].duplicate());
        k = k + 1;
    }
    proof {
        lemma_models_agree(out@, ts@);
    }
    out
}

/// Two lists whose elements have the same models have the same list model.
pub proof fn lemma_models_agree(a: Seq<TypeExpression>, b: Seq<TypeExpression>)
    requires
        a.len() == b.len(),
        forall|i: int| 0 <= i < a.len() ==> #[trigger] type_model(a[i]) == type_model(b[i]),
    ensures
        type_models(a) == type_models(b),
    decreases a.len(),
{
    if a.len() > 0 {
        assert forall|i: int| 0 <= i < a.drop_last().len() implies #[trigger] type_model(
            a.drop_last()[i],
        ) == type_model(b.drop_last()[i]) by {
            assert(a.drop_last()[i] == a[i]);
            assert(b.drop_last()[i] == b[i]);
            assert(type_model(a[i]) == type_model(b[i]));
        }
        lemma_models_agree(a.drop_last(), b.drop_last());
        assert(type_model(a.last()) == type_model(b.last()));
        assert(type_models(a) =~= type_models(b));
    } else {
        assert(type_models(a) =~= type_models(b));
    }
}

} // verus!
