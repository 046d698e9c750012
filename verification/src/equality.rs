//! The standalone structural-equality generator.
//!
//! From a data-shape definition — a record or a tagged union — it produces
//! a field-by-field (record) or arm-by-arm (union) equality
//! implementation: pairs of same-variant fields compare structurally and
//! conjoin, mismatched variants are unequal, zero-field variants and an
//! all-variants-absent union are trivially equal.  A shape that is neither
//! a record nor a tagged union is refused.
//!
//! `equal_values` is the runtime meaning of the generated implementation,
//! over a small model of data values; its contract states that the
//! generated comparison decides exactly structural equality.

use vstd::prelude::*;

use crate::model::GenError;
use crate::values::ConversionFault;

verus! {

/// The fields of a record or of one union variant.
#[derive(Debug, PartialEq, Eq)]
pub enum FieldList {
    /// Named fields, compared in declaration order.
    Named(Vec<String>),
    /// Positional fields, compared in positional order.
    Unnamed(usize),
    /// No fields at all; such values are trivially equal.
    Unit,
}

#[verifier::ext_equal]
pub enum SpecFieldList {
    Named(Seq<Seq<char>>),
    Unnamed(usize),
    Unit,
}

impl View for FieldList {
    type V = SpecFieldList;

    open spec fn view(&self) -> SpecFieldList {
        match self {
            FieldList::Named(ns) => SpecFieldList::Named(
                Seq::new(ns@.len(), |i: int| ns@[i]@),
            ),
            FieldList::Unnamed(n) => SpecFieldList::Unnamed(*n),
            FieldList::Unit => SpecFieldList::Unit,
        }
    }
}

/// One variant of a tagged union.
#[derive(Debug, PartialEq, Eq)]
pub struct DataVariant {
    pub name: String,
    pub fields: FieldList,
}

#[verifier::ext_equal]
pub struct SpecDataVariant {
    pub name: Seq<char>,
    pub fields: SpecFieldList,
}

impl View for DataVariant {
    type V = SpecDataVariant;

    open spec fn view(&self) -> SpecDataVariant {
        SpecDataVariant { name: self.name@, fields: self.fields@ }
    }
}

/// A data-shape definition handed to the equality generator.
#[derive(Debug, PartialEq, Eq)]
pub enum DataShape {
    /// A record with one set of fields.
    Record { name: String, fields: FieldList },
    /// A tagged union of variants.
    TaggedUnion { name: String, variants: Vec<DataVariant> },
    /// An untagged union; equality cannot be derived for it.
    UntaggedUnion { name: String },
}

#[verifier::ext_equal]
pub enum SpecDataShape {
    Record { name: Seq<char>, fields: SpecFieldList },
    TaggedUnion { name: Seq<char>, variants: Seq<SpecDataVariant> },
    UntaggedUnion { name: Seq<char> },
}

impl View for DataShape {
    type V = SpecDataShape;

    open spec fn view(&self) -> SpecDataShape {
        match self {
            DataShape::Record { name, fields } => SpecDataShape::Record {
                name: name@,
                fields: fields@,
            },
            DataShape::TaggedUnion { name, variants } => SpecDataShape::TaggedUnion {
                name: name@,
                variants: Seq::new(variants@.len(), |i: int| variants@[i]@),
            },
            DataShape::UntaggedUnion { name } => SpecDataShape::UntaggedUnion { name: name@ },
        }
    }
}

/// One comparison arm of the generated implementation.
#[derive(Debug, PartialEq, Eq)]
pub struct EqualityArm {
    pub name: String,
    pub fields: FieldList,
}

#[verifier::ext_equal]
pub struct SpecEqualityArm {
    pub name: Seq<char>,
    pub fields: SpecFieldList,
}

impl View for EqualityArm {
    type V = SpecEqualityArm;

    open spec fn view(&self) -> SpecEqualityArm {
        SpecEqualityArm { name: self.name@, fields: self.fields@ }
    }
}

/// The generated equality implementation: one comparison arm per variant
/// (a record counts as its only variant); on a tagged shape, mismatched
/// variants compare unequal.
#[derive(Debug, PartialEq, Eq)]
pub struct EqualityImpl {
    pub target: String,
    pub arms: Vec<EqualityArm>,
    pub tagged: bool,
}

#[verifier::ext_equal]
pub struct SpecEqualityImpl {
    pub target: Seq<char>,
    pub arms: Seq<SpecEqualityArm>,
    pub tagged: bool,
}

impl View for EqualityImpl {
    type V = SpecEqualityImpl;

    open spec fn view(&self) -> SpecEqualityImpl {
        SpecEqualityImpl {
            target: self.target@,
            arms: Seq::new(self.arms@.len(), |i: int| self.arms@[i]@),
            tagged: self.tagged,
        }
    }
}

pub open spec fn spec_derive(d: SpecDataShape) -> Result<SpecEqualityImpl, GenError> {
    match d {
        SpecDataShape::Record { name, fields } => Result::Ok(
            SpecEqualityImpl {
                target: name,
                arms: seq![SpecEqualityArm { name, fields }],
                tagged: false,
            },
        ),
        SpecDataShape::TaggedUnion { name, variants } => Result::Ok(
            SpecEqualityImpl {
                target: name,
                arms: Seq::new(
                    variants.len(),
                    |i: int| SpecEqualityArm { name: variants[i].name, fields: variants[i].fields },
                ),
                tagged: true,
            },
        ),
        SpecDataShape::UntaggedUnion { .. } => Result::Err(GenError::UnsupportedDataShape),
    }
}

pub open spec fn derive_result(r: Result<EqualityImpl, GenError>) -> Result<
    SpecEqualityImpl,
    GenError,
> {
    match r {
        Result::Ok(i) => Result::Ok(i@),
        Result::Err(e) => Result::Err(e),
    }
}

/// A copy of a field list with the same mathematical model.
fn field_list_duplicate(f: &FieldList) -> (r: FieldList)
    ensures
        r@ == f@,
{
    match f {
        FieldList::Named(ns) => {
            let mut out: Vec<String> = Vec::new();
            let mut k: usize = 0;
            while k < ns.len()
                invariant
                    k <= ns@.len(),
                    out@.len() == k,
                    forall|i: int| 0 <= i < k ==> #[trigger] out@[i]@ == ns@[i]@,
                decreases ns@.len() - k,
            {
                out.push(ns[k].clone());
                k = k + 1;
            }
            let r = FieldList::Named(out);
            proof {
                assert(r@ =~= f@);
            }
            r
        },
        FieldList::Unnamed(n) => FieldList::Unnamed(*n),
        FieldList::Unit => FieldList::Unit,
    }
}

/// Derive the structural-equality implementation of a data shape: one arm
/// per variant, each comparing same-position fields pairwise.  An
/// untagged union is refused.
pub fn derive(d: &DataShape) -> (r: Result<EqualityImpl, GenError>)
    ensures
        derive_result(r) == spec_derive(d@),
{
    match d {
        DataShape::Record { name, fields } => {
            let mut arms: Vec<EqualityArm> = Vec::new();
            arms.push(EqualityArm { name: name.clone(), fields: field_list_duplicate(fields) });
            let imp = EqualityImpl { target: name.clone(), arms, tagged: false };
            proof {
                assert(imp@ =~= spec_derive(d@)->Ok_0);
            }
            Result::Ok(imp)
        },
        DataShape::TaggedUnion { name, variants } => {
            let mut arms: Vec<EqualityArm> = Vec::new();
            let mut k: usize = 0;
            while k < variants.len()
                invariant
                    k <= variants@.len(),
                    arms@.len() == k,
                    forall|i: int| 0 <= i < k ==> (#[trigger] arms@[i])@ == (SpecEqualityArm {
                        name: variants@[i]@.name,
                        fields: variants@[i]@.fields,
                    }),
                decreases variants@.len() - k,
            {
                arms.push(
                    EqualityArm {
                        name: variants[k].name.clone(),
                        fields: field_list_duplicate(&variants[k].fields),
                    },
                );
                k = k + 1;
            }
            let imp = EqualityImpl { target: name.clone(), arms, tagged: true };
            proof {
                assert(imp@.arms =~= spec_derive(d@)->Ok_0.arms);
                assert(imp@ =~= spec_derive(d@)->Ok_0);
            }
            Result::Ok(imp)
        },
        DataShape::UntaggedUnion { .. } => Result::Err(GenError::UnsupportedDataShape),
    }
}

/// A runtime value of a derived data shape: which variant it carries (a
/// record always carries variant zero) and its field values in order.
#[derive(Debug, PartialEq, Eq)]
pub struct DataValue {
    pub variant: usize,
    pub fields: Vec<i64>,
}

#[verifier::ext_equal]
pub struct SpecDataValue {
    pub variant: usize,
    pub fields: Seq<i64>,
}

impl View for DataValue {
    type V = SpecDataValue;

    open spec fn view(&self) -> SpecDataValue {
        SpecDataValue { variant: self.variant, fields: self.fields@ }
    }
}

/// How many fields an arm compares.
pub open spec fn field_count(f: SpecFieldList) -> nat {
    match f {
        SpecFieldList::Named(ns) => ns.len(),
        SpecFieldList::Unnamed(n) => n as nat,
        SpecFieldList::Unit => 0,
    }
}

/// A value conforms to the implementation when its variant exists and it
/// carries exactly the fields that variant declares.
pub open spec fn conforms(imp: SpecEqualityImpl, v: SpecDataValue) -> bool {
    &&& (v.variant as int) < imp.arms.len()
    &&& v.fields.len() == field_count(imp.arms[v.variant as int].fields)
}

/// Exec twin of `field_count`.
pub fn field_count_of(f: &FieldList) -> (r: usize)
    ensures
        r == field_count(f@),
{
    match f {
        FieldList::Named(ns) => ns.len(),
        FieldList::Unnamed(n) => *n,
        FieldList::Unit => 0,
    }
}

/// Run the derived equality implementation on two values.  On conforming
/// values it decides exactly structural equality: equal variant and
/// pairwise equal fields; on a tagged shape with no variants at all every
/// pair of values is trivially equal.  A value whose variant or field
/// count does not match the shape is an invariant violation and is
/// reported loudly.
#[verifier::loop_isolation(false)]
pub fn equal_values(imp: &EqualityImpl, a: &DataValue, b: &DataValue) -> (r: Result<
    bool,
    ConversionFault,
>)
    ensures
        r is Ok <==> (imp@.arms.len() == 0 || (conforms(imp@, a@) && conforms(imp@, b@))),
        (r matches Ok(e) ==> e == (imp@.arms.len() == 0 || (a@.variant == b@.variant && a@.fields
            == b@.fields))),
{
    if imp.arms.len() == 0 {
        return Result::Ok(true);
    }
    if a.variant >= imp.arms.len() || b.variant >= imp.arms.len() {
        return Result::Err(ConversionFault::TypeMismatch);
    }
    let na = field_count_of(&imp.arms[a.variant].fields);
    let nb = field_count_of(&imp.arms[b.variant].fields);
    if a.fields.len() != na || b.fields.len() != nb {
        return Result::Err(ConversionFault::TypeMismatch);
    }
    proof {
        assert(imp@.arms.len() == imp.arms@.len());
        assert(imp@.arms[a.variant as int] == imp.arms@[a.variant as int]@);
        assert(imp@.arms[b.variant as int] == imp.arms@[b.variant as int]@);
        assert(conforms(imp@, a@));
        assert(conforms(imp@, b@));
    }
    if a.variant != b.variant {
        return Result::Ok(false);
    }
    let mut k: usize = 0;
    while k < a.fields.len()
        invariant
            k <= a.fields@.len(),
            a.fields@.len() == b.fields@.len(),
            forall|i: int| 0 <= i < k ==> a.fields@[i] == b.fields@[i],
        decreases a.fields@.len() - k,
    {
        if a.fields[k] != b.fields[k] {
            return Result::Ok(false);
        }
        k = k + 1;
    }
    proof {
        assert(a@.fields =~= b@.fields);
    }
    Result::Ok(true)
}

} // verus!
