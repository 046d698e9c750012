//! The supertrait / capability translator.
//!
//! A fixed catalogue maps capability-bound names (equality, ordering,
//! cloning, the unary and binary operators and their compound-assignment
//! variants) to the dynamic-safe twin trait to substitute on the sibling
//! interface, the concrete method name, the dynamic double-dispatch method
//! name, and the form of the forwarding implementation.  A bound outside
//! the catalogue passes through unchanged; a `Sized`-like bound is
//! stripped from the dynamic-safe sibling and reinstated on the factory
//! sibling.

use vstd::prelude::*;
use vstd::string::StringExecFns;

use crate::model::string_eq;

verus! {

/// The capabilities of the fixed catalogue.
#[derive(Clone, Copy, Debug, PartialEq, Eq, Structural)]
pub enum CapabilityKind {
    Equality,
    Ordering,
    Cloning,
    Negation,
    Complement,
    Addition,
    Subtraction,
    Multiplication,
    Division,
    Remainder,
    BitAnd,
    BitOr,
    BitXor,
    ShiftLeft,
    ShiftRight,
    AdditionAssign,
    SubtractionAssign,
    MultiplicationAssign,
    DivisionAssign,
    RemainderAssign,
    BitAndAssign,
    BitOrAssign,
    BitXorAssign,
    ShiftLeftAssign,
    ShiftRightAssign,
}

/// The form of the forwarding implementation a capability needs.
#[derive(Clone, Copy, Debug, PartialEq, Eq, Structural)]
pub enum ForwardingStyle {
    /// `&self` plus a type-erased reference, as for equality and ordering.
    Comparison,
    /// `&self` producing a fresh opaque handle.
    CloneHandle,
    /// An owned receiver producing an owned result.
    UnaryValue,
    /// An owned receiver plus a type-erased owned operand.
    BinaryValue,
    /// `&mut self` plus a type-erased owned operand.
    CompoundAssign,
}

/// The source-level name of a catalogue capability.
pub open spec fn spec_trait_name(k: CapabilityKind) -> Seq<char> {
    match k {
        CapabilityKind::Equality => "PartialEq"@,
        CapabilityKind::Ordering => "PartialOrd"@,
        CapabilityKind::Cloning => "Clone"@,
        CapabilityKind::Negation => "Neg"@,
        CapabilityKind::Complement => "Not"@,
        CapabilityKind::Addition => "Add"@,
        CapabilityKind::Subtraction => "Sub"@,
        CapabilityKind::Multiplication => "Mul"@,
        CapabilityKind::Division => "Div"@,
        CapabilityKind::Remainder => "Rem"@,
        CapabilityKind::BitAnd => "BitAnd"@,
        CapabilityKind::BitOr => "BitOr"@,
        CapabilityKind::BitXor => "BitXor"@,
        CapabilityKind::ShiftLeft => "Shl"@,
        CapabilityKind::ShiftRight => "Shr"@,
        CapabilityKind::AdditionAssign => "AddAssign"@,
        CapabilityKind::SubtractionAssign => "SubAssign"@,
        CapabilityKind::MultiplicationAssign => "MulAssign"@,
        CapabilityKind::DivisionAssign => "DivAssign"@,
        CapabilityKind::RemainderAssign => "RemAssign"@,
        CapabilityKind::BitAndAssign => "BitAndAssign"@,
        CapabilityKind::BitOrAssign => "BitOrAssign"@,
        CapabilityKind::BitXorAssign => "BitXorAssign"@,
        CapabilityKind::ShiftLeftAssign => "ShlAssign"@,
        CapabilityKind::ShiftRightAssign => "ShrAssign"@,
    }
}

/// The concrete method each capability forwards.
pub open spec fn spec_method_name(k: CapabilityKind) -> Seq<char> {
    match k {
        CapabilityKind::Equality => "eq"@,
        CapabilityKind::Ordering => "partial_cmp"@,
        CapabilityKind::Cloning => "clone"@,
        CapabilityKind::Negation => "neg"@,
        CapabilityKind::Complement => "not"@,
        CapabilityKind::Addition => "add"@,
        CapabilityKind::Subtraction => "sub"@,
        CapabilityKind::Multiplication => "mul"@,
        CapabilityKind::Division => "div"@,
        CapabilityKind::Remainder => "rem"@,
        CapabilityKind::BitAnd => "bitand"@,
        CapabilityKind::BitOr => "bitor"@,
        CapabilityKind::BitXor => "bitxor"@,
        CapabilityKind::ShiftLeft => "shl"@,
        CapabilityKind::ShiftRight => "shr"@,
        CapabilityKind::AdditionAssign => "add_assign"@,
        CapabilityKind::SubtractionAssign => "sub_assign"@,
        CapabilityKind::MultiplicationAssign => "mul_assign"@,
        CapabilityKind::DivisionAssign => "div_assign"@,
        CapabilityKind::RemainderAssign => "rem_assign"@,
        CapabilityKind::BitAndAssign => "bitand_assign"@,
        CapabilityKind::BitOrAssign => "bitor_assign"@,
        CapabilityKind::BitXorAssign => "bitxor_assign"@,
        CapabilityKind::ShiftLeftAssign => "shl_assign"@,
        CapabilityKind::ShiftRightAssign => "shr_assign"@,
    }
}

pub open spec fn spec_style(k: CapabilityKind) -> ForwardingStyle {
    match k {
        CapabilityKind::Equality => ForwardingStyle::Comparison,
        CapabilityKind::Ordering => ForwardingStyle::Comparison,
        CapabilityKind::Cloning => ForwardingStyle::CloneHandle,
        CapabilityKind::Negation => ForwardingStyle::UnaryValue,
        CapabilityKind::Complement => ForwardingStyle::UnaryValue,
        CapabilityKind::Addition => ForwardingStyle::BinaryValue,
        CapabilityKind::Subtraction => ForwardingStyle::BinaryValue,
        CapabilityKind::Multiplication => ForwardingStyle::BinaryValue,
        CapabilityKind::Division => ForwardingStyle::BinaryValue,
        CapabilityKind::Remainder => ForwardingStyle::BinaryValue,
        CapabilityKind::BitAnd => ForwardingStyle::BinaryValue,
        CapabilityKind::BitOr => ForwardingStyle::BinaryValue,
        CapabilityKind::BitXor => ForwardingStyle::BinaryValue,
        CapabilityKind::ShiftLeft => ForwardingStyle::BinaryValue,
        CapabilityKind::ShiftRight => ForwardingStyle::BinaryValue,
        _ => ForwardingStyle::CompoundAssign,
    }
}

/// An operator capability whose factory-side bound must fix the operator
/// output to the implementing type itself.
pub open spec fn needs_self_output(k: CapabilityKind) -> bool {
    spec_style(k) == ForwardingStyle::UnaryValue || spec_style(k) == ForwardingStyle::BinaryValue
}

/// The catalogue lookup: which capability, if any, a bound name denotes.
pub open spec fn spec_capability_of(name: Seq<char>) -> Option<CapabilityKind> {
    if name == spec_trait_name(CapabilityKind::Equality) {
        Option::Some(CapabilityKind::Equality)
    } else if name == spec_trait_name(CapabilityKind::Ordering) {
        Option::Some(CapabilityKind::Ordering)
    } else if name == spec_trait_name(CapabilityKind::Cloning) {
        Option::Some(CapabilityKind::Cloning)
    } else if name == spec_trait_name(CapabilityKind::Negation) {
        Option::Some(CapabilityKind::Negation)
    } else if name == spec_trait_name(CapabilityKind::Complement) {
        Option::Some(CapabilityKind::Complement)
    } else if name == spec_trait_name(CapabilityKind::Addition) {
        Option::Some(CapabilityKind::Addition)
    } else if name == spec_trait_name(CapabilityKind::Subtraction) {
        Option::Some(CapabilityKind::Subtraction)
    } else if name == spec_trait_name(CapabilityKind::Multiplication) {
        Option::Some(CapabilityKind::Multiplication)
    } else if name == spec_trait_name(CapabilityKind::Division) {
        Option::Some(CapabilityKind::Division)
    } else if name == spec_trait_name(CapabilityKind::Remainder) {
        Option::Some(CapabilityKind::Remainder)
    } else if name == spec_trait_name(CapabilityKind::BitAnd) {
        Option::Some(CapabilityKind::BitAnd)
    } else if name == spec_trait_name(CapabilityKind::BitOr) {
        Option::Some(CapabilityKind::BitOr)
    } else if name == spec_trait_name(CapabilityKind::BitXor) {
        Option::Some(CapabilityKind::BitXor)
    } else if name == spec_trait_name(CapabilityKind::ShiftLeft) {
        Option::Some(CapabilityKind::ShiftLeft)
    } else if name == spec_trait_name(CapabilityKind::ShiftRight) {
        Option::Some(CapabilityKind::ShiftRight)
    } else if name == spec_trait_name(CapabilityKind::AdditionAssign) {
        Option::Some(CapabilityKind::AdditionAssign)
    } else if name == spec_trait_name(CapabilityKind::SubtractionAssign) {
        Option::Some(CapabilityKind::SubtractionAssign)
    } else if name == spec_trait_name(CapabilityKind::MultiplicationAssign) {
        Option::Some(CapabilityKind::MultiplicationAssign)
    } else if name == spec_trait_name(CapabilityKind::DivisionAssign) {
        Option::Some(CapabilityKind::DivisionAssign)
    } else if name == spec_trait_name(CapabilityKind::RemainderAssign) {
        Option::Some(CapabilityKind::RemainderAssign)
    } else if name == spec_trait_name(CapabilityKind::BitAndAssign) {
        Option::Some(CapabilityKind::BitAndAssign)
    } else if name == spec_trait_name(CapabilityKind::BitOrAssign) {
        Option::Some(CapabilityKind::BitOrAssign)
    } else if name == spec_trait_name(CapabilityKind::BitXorAssign) {
        Option::Some(CapabilityKind::BitXorAssign)
    } else if name == spec_trait_name(CapabilityKind::ShiftLeftAssign) {
        Option::Some(CapabilityKind::ShiftLeftAssign)
    } else if name == spec_trait_name(CapabilityKind::ShiftRightAssign) {
        Option::Some(CapabilityKind::ShiftRightAssign)
    } else {
        Option::None
    }
}

/// Exec twin of the catalogue lookup.
pub fn capability_of(name: &String) -> (r: Option<CapabilityKind>)
    ensures
        r == spec_capability_of(name@),
{
    if string_eq(name, &trait_name_of(CapabilityKind::Equality)) {
        Option::Some(CapabilityKind::Equality)
    } else if string_eq(name, &trait_name_of(CapabilityKind::Ordering)) {
        Option::Some(CapabilityKind::Ordering)
    } else if string_eq(name, &trait_name_of(CapabilityKind::Cloning)) {
        Option::Some(CapabilityKind::Cloning)
    } else if string_eq(name, &trait_name_of(CapabilityKind::Negation)) {
        Option::Some(CapabilityKind::Negation)
    } else if string_eq(name, &trait_name_of(CapabilityKind::Complement)) {
        Option::Some(CapabilityKind::Complement)
    } else if string_eq(name, &trait_name_of(CapabilityKind::Addition)) {
        Option::Some(CapabilityKind::Addition)
    } else if string_eq(name, &trait_name_of(CapabilityKind::Subtraction)) {
        Option::Some(CapabilityKind::Subtraction)
    } else if string_eq(name, &trait_name_of(CapabilityKind::Multiplication)) {
        Option::Some(CapabilityKind::Multiplication)
    } else if string_eq(name, &trait_name_of(CapabilityKind::Division)) {
        Option::Some(CapabilityKind::Division)
    } else if string_eq(name, &trait_name_of(CapabilityKind::Remainder)) {
        Option::Some(CapabilityKind::Remainder)
    } else if string_eq(name, &trait_name_of(CapabilityKind::BitAnd)) {
        Option::Some(CapabilityKind::BitAnd)
    } else if string_eq(name, &trait_name_of(CapabilityKind::BitOr)) {
        Option::Some(CapabilityKind::BitOr)
    } else if string_eq(name, &trait_name_of(CapabilityKind::BitXor)) {
        Option::Some(CapabilityKind::BitXor)
    } else if string_eq(name, &trait_name_of(CapabilityKind::ShiftLeft)) {
        Option::Some(CapabilityKind::ShiftLeft)
    } else if string_eq(name, &trait_name_of(CapabilityKind::ShiftRight)) {
        Option::Some(CapabilityKind::ShiftRight)
    } else if string_eq(name, &trait_name_of(CapabilityKind::AdditionAssign)) {
        Option::Some(CapabilityKind::AdditionAssign)
    } else if string_eq(name, &trait_name_of(CapabilityKind::SubtractionAssign)) {
        Option::Some(CapabilityKind::SubtractionAssign)
    } else if string_eq(name, &trait_name_of(CapabilityKind::MultiplicationAssign)) {
        Option::Some(CapabilityKind::MultiplicationAssign)
    } else if string_eq(name, &trait_name_of(CapabilityKind::DivisionAssign)) {
        Option::Some(CapabilityKind::DivisionAssign)
    } else if string_eq(name, &trait_name_of(CapabilityKind::RemainderAssign)) {
        Option::Some(CapabilityKind::RemainderAssign)
    } else if string_eq(name, &trait_name_of(CapabilityKind::BitAndAssign)) {
        Option::Some(CapabilityKind::BitAndAssign)
    } else if string_eq(name, &trait_name_of(CapabilityKind::BitOrAssign)) {
        Option::Some(CapabilityKind::BitOrAssign)
    } else if string_eq(name, &trait_name_of(CapabilityKind::BitXorAssign)) {
        Option::Some(CapabilityKind::BitXorAssign)
    } else if string_eq(name, &trait_name_of(CapabilityKind::ShiftLeftAssign)) {
        Option::Some(CapabilityKind::ShiftLeftAssign)
    } else if string_eq(name, &trait_name_of(CapabilityKind::ShiftRightAssign)) {
        Option::Some(CapabilityKind::ShiftRightAssign)
    } else {
        Option::None
    }
}

/// Exec name of a catalogue capability.
pub fn trait_name_of(k: CapabilityKind) -> (r: String)
    ensures
        r@ == spec_trait_name(k),
{
    match k {
        CapabilityKind::Equality => String::from_str("PartialEq"),
        CapabilityKind::Ordering => String::from_str("PartialOrd"),
        CapabilityKind::Cloning => String::from_str("Clone"),
        CapabilityKind::Negation => String::from_str("Neg"),
        CapabilityKind::Complement => String::from_str("Not"),
        CapabilityKind::Addition => String::from_str("Add"),
        CapabilityKind::Subtraction => String::from_str("Sub"),
        CapabilityKind::Multiplication => String::from_str("Mul"),
        CapabilityKind::Division => String::from_str("Div"),
        CapabilityKind::Remainder => String::from_str("Rem"),
        CapabilityKind::BitAnd => String::from_str("BitAnd"),
        CapabilityKind::BitOr => String::from_str("BitOr"),
        CapabilityKind::BitXor => String::from_str("BitXor"),
        CapabilityKind::ShiftLeft => String::from_str("Shl"),
        CapabilityKind::ShiftRight => String::from_str("Shr"),
        CapabilityKind::AdditionAssign => String::from_str("AddAssign"),
        CapabilityKind::SubtractionAssign => String::from_str("SubAssign"),
        CapabilityKind::MultiplicationAssign => String::from_str("MulAssign"),
        CapabilityKind::DivisionAssign => String::from_str("DivAssign"),
        CapabilityKind::RemainderAssign => String::from_str("RemAssign"),
        CapabilityKind::BitAndAssign => String::from_str("BitAndAssign"),
        CapabilityKind::BitOrAssign => String::from_str("BitOrAssign"),
        CapabilityKind::BitXorAssign => String::from_str("BitXorAssign"),
        CapabilityKind::ShiftLeftAssign => String::from_str("ShlAssign"),
        CapabilityKind::ShiftRightAssign => String::from_str("ShrAssign"),
    }
}

/// Catalogue soundness: looking a catalogue name up yields its own
/// capability, and distinct capabilities have distinct names.
pub proof fn lemma_catalogue_names()
    ensures
        forall|k: CapabilityKind| #[trigger] spec_capability_of(spec_trait_name(k))
            == Option::Some(k),
        forall|k1: CapabilityKind, k2: CapabilityKind|
            k1 != k2 ==> #[trigger] spec_trait_name(k1) != #[trigger] spec_trait_name(k2),
{
    reveal_strlit("PartialEq");
    reveal_strlit("PartialOrd");
    reveal_strlit("Clone");
    reveal_strlit("Neg");
    reveal_strlit("Not");
    reveal_strlit("Add");
    reveal_strlit("Sub");
    reveal_strlit("Mul");
    reveal_strlit("Div");
    reveal_strlit("Rem");
    reveal_strlit("BitAnd");
    reveal_strlit("BitOr");
    reveal_strlit("BitXor");
    reveal_strlit("Shl");
    reveal_strlit("Shr");
    reveal_strlit("AddAssign");
    reveal_strlit("SubAssign");
    reveal_strlit("MulAssign");
    reveal_strlit("DivAssign");
    reveal_strlit("RemAssign");
    reveal_strlit("BitAndAssign");
    reveal_strlit("BitOrAssign");
    reveal_strlit("BitXorAssign");
    reveal_strlit("ShlAssign");
    reveal_strlit("ShrAssign");
    assert forall|k: CapabilityKind| #[trigger] spec_capability_of(spec_trait_name(k))
        == Option::Some(k) by {
        lemma_catalogue_case(k);
    }
    assert forall|k1: CapabilityKind, k2: CapabilityKind| k1 != k2 implies #[trigger] spec_trait_name(
        k1,
    ) != #[trigger] spec_trait_name(k2) by {
        if spec_trait_name(k1) == spec_trait_name(k2) {
            lemma_catalogue_case(k1);
            lemma_catalogue_case(k2);
        }
    }
}

#[verifier::rlimit(100)]
#[verifier::spinoff_prover]
proof fn lemma_catalogue_case(k: CapabilityKind)
    ensures
        spec_capability_of(spec_trait_name(k)) == Option::Some(k),
{
    reveal_strlit("PartialEq");
    reveal_strlit("PartialOrd");
    reveal_strlit("Clone");
    reveal_strlit("Neg");
    reveal_strlit("Not");
    reveal_strlit("Add");
    reveal_strlit("Sub");
    reveal_strlit("Mul");
    reveal_strlit("Div");
    reveal_strlit("Rem");
    reveal_strlit("BitAnd");
    reveal_strlit("BitOr");
    reveal_strlit("BitXor");
    reveal_strlit("Shl");
    reveal_strlit("Shr");
    reveal_strlit("AddAssign");
    reveal_strlit("SubAssign");
    reveal_strlit("MulAssign");
    reveal_strlit("DivAssign");
    reveal_strlit("RemAssign");
    reveal_strlit("BitAndAssign");
    reveal_strlit("BitOrAssign");
    reveal_strlit("BitXorAssign");
    reveal_strlit("ShlAssign");
    reveal_strlit("ShrAssign");
    assert("PartialEq"@.len() == 9);
    assert("PartialOrd"@.len() == 10);
    assert("Clone"@.len() == 5);
    assert("Neg"@.len() == 3);
    assert("Not"@.len() == 3);
    assert("Add"@.len() == 3);
    assert("Sub"@.len() == 3);
    assert("Mul"@.len() == 3);
    assert("Div"@.len() == 3);
    assert("Rem"@.len() == 3);
    assert("BitAnd"@.len() == 6);
    assert("BitOr"@.len() == 5);
    assert("BitXor"@.len() == 6);
    assert("Shl"@.len() == 3);
    assert("Shr"@.len() == 3);
    assert("AddAssign"@.len() == 9);
    assert("SubAssign"@.len() == 9);
    assert("MulAssign"@.len() == 9);
    assert("DivAssign"@.len() == 9);
    assert("RemAssign"@.len() == 9);
    assert("BitAndAssign"@.len() == 12);
    assert("BitOrAssign"@.len() == 11);
    assert("BitXorAssign"@.len() == 12);
    assert("ShlAssign"@.len() == 9);
    assert("ShrAssign"@.len() == 9);
    assert("PartialEq"@[0] == 'P' && "PartialEq"@[1] == 'a' && "PartialEq"@[2] == 'r' && "PartialEq"@[3] == 't');
    assert("AddAssign"@[0] == 'A' && "AddAssign"@[1] == 'd' && "AddAssign"@[2] == 'd' && "AddAssign"@[3] == 'A');
    assert("SubAssign"@[0] == 'S' && "SubAssign"@[1] == 'u' && "SubAssign"@[2] == 'b' && "SubAssign"@[3] == 'A');
    assert("MulAssign"@[0] == 'M' && "MulAssign"@[1] == 'u' && "MulAssign"@[2] == 'l' && "MulAssign"@[3] == 'A');
    assert("DivAssign"@[0] == 'D' && "DivAssign"@[1] == 'i' && "DivAssign"@[2] == 'v' && "DivAssign"@[3] == 'A');
    assert("RemAssign"@[0] == 'R' && "RemAssign"@[1] == 'e' && "RemAssign"@[2] == 'm' && "RemAssign"@[3] == 'A');
    assert("ShlAssign"@[0] == 'S' && "ShlAssign"@[1] == 'h' && "ShlAssign"@[2] == 'l' && "ShlAssign"@[3] == 'A');
    assert("ShrAssign"@[0] == 'S' && "ShrAssign"@[1] == 'h' && "ShrAssign"@[2] == 'r' && "ShrAssign"@[3] == 'A');
    assert("Clone"@[0] == 'C' && "Clone"@[1] == 'l' && "Clone"@[2] == 'o' && "Clone"@[3] == 'n');
    assert("BitOr"@[0] == 'B' && "BitOr"@[1] == 'i' && "BitOr"@[2] == 't' && "BitOr"@[3] == 'O');
    assert("Neg"@[0] == 'N' && "Neg"@[1] == 'e' && "Neg"@[2] == 'g');
    assert("Not"@[0] == 'N' && "Not"@[1] == 'o' && "Not"@[2] == 't');
    assert("Add"@[0] == 'A' && "Add"@[1] == 'd' && "Add"@[2] == 'd');
    assert("Sub"@[0] == 'S' && "Sub"@[1] == 'u' && "Sub"@[2] == 'b');
    assert("Mul"@[0] == 'M' && "Mul"@[1] == 'u' && "Mul"@[2] == 'l');
    assert("Div"@[0] == 'D' && "Div"@[1] == 'i' && "Div"@[2] == 'v');
    assert("Rem"@[0] == 'R' && "Rem"@[1] == 'e' && "Rem"@[2] == 'm');
    assert("Shl"@[0] == 'S' && "Shl"@[1] == 'h' && "Shl"@[2] == 'l');
    assert("Shr"@[0] == 'S' && "Shr"@[1] == 'h' && "Shr"@[2] == 'r');
    assert("BitAnd"@[0] == 'B' && "BitAnd"@[1] == 'i' && "BitAnd"@[2] == 't' && "BitAnd"@[3] == 'A');
    assert("BitXor"@[0] == 'B' && "BitXor"@[1] == 'i' && "BitXor"@[2] == 't' && "BitXor"@[3] == 'X');
    assert("BitAndAssign"@[0] == 'B' && "BitAndAssign"@[1] == 'i' && "BitAndAssign"@[2] == 't' && "BitAndAssign"@[3] == 'A');
    assert("BitXorAssign"@[0] == 'B' && "BitXorAssign"@[1] == 'i' && "BitXorAssign"@[2] == 't' && "BitXorAssign"@[3] == 'X');
    match k {
        CapabilityKind::Equality => {
            assert(spec_capability_of(spec_trait_name(k)) == Option::Some(k));
        },
        CapabilityKind::Ordering => {
            assert(spec_capability_of(spec_trait_name(k)) == Option::Some(k));
        },
        CapabilityKind::Cloning => {
            assert(spec_capability_of(spec_trait_name(k)) == Option::Some(k));
        },
        CapabilityKind::Negation => {
            assert(spec_capability_of(spec_trait_name(k)) == Option::Some(k));
        },
        CapabilityKind::Complement => {
            assert(spec_capability_of(spec_trait_name(k)) == Option::Some(k));
        },
        CapabilityKind::Addition => {
            assert(spec_capability_of(spec_trait_name(k)) == Option::Some(k));
        },
        CapabilityKind::Subtraction => {
            assert(spec_capability_of(spec_trait_name(k)) == Option::Some(k));
        },
        CapabilityKind::Multiplication => {
            assert(spec_capability_of(spec_trait_name(k)) == Option::Some(k));
        },
        CapabilityKind::Division => {
            assert(spec_capability_of(spec_trait_name(k)) == Option::Some(k));
        },
        CapabilityKind::Remainder => {
            assert(spec_capability_of(spec_trait_name(k)) == Option::Some(k));
        },
        CapabilityKind::BitAnd => {
            assert(spec_capability_of(spec_trait_name(k)) == Option::Some(k));
        },
        CapabilityKind::BitOr => {
            assert(spec_capability_of(spec_trait_name(k)) == Option::Some(k));
        },
        CapabilityKind::BitXor => {
            assert(spec_capability_of(spec_trait_name(k)) == Option::Some(k));
        },
        CapabilityKind::ShiftLeft => {
            assert(spec_capability_of(spec_trait_name(k)) == Option::Some(k));
        },
        CapabilityKind::ShiftRight => {
            assert(spec_capability_of(spec_trait_name(k)) == Option::Some(k));
        },
        CapabilityKind::AdditionAssign => {
            assert(spec_capability_of(spec_trait_name(k)) == Option::Some(k));
        },
        CapabilityKind::SubtractionAssign => {
            assert(spec_capability_of(spec_trait_name(k)) == Option::Some(k));
        },
        CapabilityKind::MultiplicationAssign => {
            assert(spec_capability_of(spec_trait_name(k)) == Option::Some(k));
        },
        CapabilityKind::DivisionAssign => {
            assert(spec_capability_of(spec_trait_name(k)) == Option::Some(k));
        },
        CapabilityKind::RemainderAssign => {
            assert(spec_capability_of(spec_trait_name(k)) == Option::Some(k));
        },
        CapabilityKind::BitAndAssign => {
            assert(spec_capability_of(spec_trait_name(k)) == Option::Some(k));
        },
        CapabilityKind::BitOrAssign => {
            assert(spec_capability_of(spec_trait_name(k)) == Option::Some(k));
        },
        CapabilityKind::BitXorAssign => {
            assert(spec_capability_of(spec_trait_name(k)) == Option::Some(k));
        },
        CapabilityKind::ShiftLeftAssign => {
            assert(spec_capability_of(spec_trait_name(k)) == Option::Some(k));
        },
        CapabilityKind::ShiftRightAssign => {
            assert(spec_capability_of(spec_trait_name(k)) == Option::Some(k));
        },
    }
}

/// One catalogue entry, ready for rendering.
#[derive(Debug, PartialEq, Eq)]
pub struct CapabilityEntry {
    /// Path of the dynamic-safe twin trait substituted on the sibling.
    pub opaque_path: String,
    /// The concrete method the capability forwards.
    pub method: String,
    /// The dynamic double-dispatch method of the opaque handle.
    pub dyn_method: String,
    /// The form of the forwarding implementation.
    pub style: ForwardingStyle,
}

/// The module of the dynamic-safe twin trait.
pub open spec fn spec_twin_module(k: CapabilityKind) -> Seq<char> {
    match spec_style(k) {
        ForwardingStyle::Comparison => "cmp"@,
        ForwardingStyle::CloneHandle => "clone"@,
        _ => "ops"@,
    }
}

/// Catalogue entry construction.  The dynamic method name is always the
/// concrete method name prefixed with `dyn_`.
pub fn entry_for(k: CapabilityKind) -> (e: CapabilityEntry)
    ensures
        e.method@ == spec_method_name(k),
        e.dyn_method@ == "dyn_"@ + spec_method_name(k),
        e.style == spec_style(k),
        e.opaque_path@ == "::dyn_std::"@ + spec_twin_module(k) + "::"@ + spec_trait_name(k),
{
    let method = method_name_of(k);
    let dyn_method = String::from_str("dyn_").concat(method.as_str());
    let style = style_of(k);
    let module = match style {
        ForwardingStyle::Comparison => String::from_str("cmp"),
        ForwardingStyle::CloneHandle => String::from_str("clone"),
        _ => String::from_str("ops"),
    };
    let opaque_path = String::from_str("::dyn_std::").concat(module.as_str()).concat(
        String::from_str("::").as_str(),
    ).concat(trait_name_of(k).as_str());
    CapabilityEntry { opaque_path, method, dyn_method, style }
}

/// Exec concrete method name of a catalogue capability.
pub fn method_name_of(k: CapabilityKind) -> (r: String)
    ensures
        r@ == spec_method_name(k),
{
    match k {
        CapabilityKind::Equality => String::from_str("eq"),
        CapabilityKind::Ordering => String::from_str("partial_cmp"),
        CapabilityKind::Cloning => String::from_str("clone"),
        CapabilityKind::Negation => String::from_str("neg"),
        CapabilityKind::Complement => String::from_str("not"),
        CapabilityKind::Addition => String::from_str("add"),
        CapabilityKind::Subtraction => String::from_str("sub"),
        CapabilityKind::Multiplication => String::from_str("mul"),
        CapabilityKind::Division => String::from_str("div"),
        CapabilityKind::Remainder => String::from_str("rem"),
        CapabilityKind::BitAnd => String::from_str("bitand"),
        CapabilityKind::BitOr => String::from_str("bitor"),
        CapabilityKind::BitXor => String::from_str("bitxor"),
        CapabilityKind::ShiftLeft => String::from_str("shl"),
        CapabilityKind::ShiftRight => String::from_str("shr"),
        CapabilityKind::AdditionAssign => String::from_str("add_assign"),
        CapabilityKind::SubtractionAssign => String::from_str("sub_assign"),
        CapabilityKind::MultiplicationAssign => String::from_str("mul_assign"),
        CapabilityKind::DivisionAssign => String::from_str("div_assign"),
        CapabilityKind::RemainderAssign => String::from_str("rem_assign"),
        CapabilityKind::BitAndAssign => String::from_str("bitand_assign"),
        CapabilityKind::BitOrAssign => String::from_str("bitor_assign"),
        CapabilityKind::BitXorAssign => String::from_str("bitxor_assign"),
        CapabilityKind::ShiftLeftAssign => String::from_str("shl_assign"),
        CapabilityKind::ShiftRightAssign => String::from_str("shr_assign"),
    }
}

/// Exec forwarding style of a catalogue capability.
pub fn style_of(k: CapabilityKind) -> (r: ForwardingStyle)
    ensures
        r == spec_style(k),
{
    match k {
        CapabilityKind::Equality => ForwardingStyle::Comparison,
        CapabilityKind::Ordering => ForwardingStyle::Comparison,
        CapabilityKind::Cloning => ForwardingStyle::CloneHandle,
        CapabilityKind::Negation => ForwardingStyle::UnaryValue,
        CapabilityKind::Complement => ForwardingStyle::UnaryValue,
        CapabilityKind::Addition => ForwardingStyle::BinaryValue,
        CapabilityKind::Subtraction => ForwardingStyle::BinaryValue,
        CapabilityKind::Multiplication => ForwardingStyle::BinaryValue,
        CapabilityKind::Division => ForwardingStyle::BinaryValue,
        CapabilityKind::Remainder => ForwardingStyle::BinaryValue,
        CapabilityKind::BitAnd => ForwardingStyle::BinaryValue,
        CapabilityKind::BitOr => ForwardingStyle::BinaryValue,
        CapabilityKind::BitXor => ForwardingStyle::BinaryValue,
        CapabilityKind::ShiftLeft => ForwardingStyle::BinaryValue,
        CapabilityKind::ShiftRight => ForwardingStyle::BinaryValue,
        _ => ForwardingStyle::CompoundAssign,
    }
}

/// A bound of the dynamic-safe sibling interface.
#[derive(Debug, PartialEq, Eq)]
pub enum InstanceBound {
    /// A catalogue capability, replaced by its dynamic-safe twin trait.
    Translated(CapabilityKind),
    /// A bound outside the catalogue, passed through unchanged.
    Kept(String),
    /// The type-erasure marker bound every dynamic-safe sibling carries.
    DynAny,
}

/// A bound of the factory sibling interface.
#[derive(Debug, PartialEq, Eq)]
pub enum FactoryBound {
    /// A bound kept as written.
    Kept(String),
    /// An operator bound whose output is pinned to the implementing type.
    OperatorOutputSelf(CapabilityKind),
    /// The sizedness bound: stripped from the dynamic-safe sibling and
    /// reinstated here.
    SizedBound,
    /// The static-lifetime bound the factory sibling always carries.
    StaticLifetime,
}

#[verifier::ext_equal]
pub enum SpecInstanceBound {
    Translated(CapabilityKind),
    Kept(Seq<char>),
    DynAny,
}

#[verifier::ext_equal]
pub enum SpecFactoryBound {
    Kept(Seq<char>),
    OperatorOutputSelf(CapabilityKind),
    SizedBound,
    StaticLifetime,
}

impl View for InstanceBound {
    type V = SpecInstanceBound;

    open spec fn view(&self) -> SpecInstanceBound {
        match self {
            InstanceBound::Translated(k) => SpecInstanceBound::Translated(*k),
            InstanceBound::Kept(n) => SpecInstanceBound::Kept(n@),
            InstanceBound::DynAny => SpecInstanceBound::DynAny,
        }
    }
}

impl View for FactoryBound {
    type V = SpecFactoryBound;

    open spec fn view(&self) -> SpecFactoryBound {
        match self {
            FactoryBound::Kept(n) => SpecFactoryBound::Kept(n@),
            FactoryBound::OperatorOutputSelf(k) => SpecFactoryBound::OperatorOutputSelf(*k),
            FactoryBound::SizedBound => SpecFactoryBound::SizedBound,
            FactoryBound::StaticLifetime => SpecFactoryBound::StaticLifetime,
        }
    }
}

/// The rewritten bounds of both siblings plus the forwarding
/// implementations owed for the capabilities found.
#[derive(Debug, PartialEq, Eq)]
pub struct CapabilityTranslation {
    pub instance_bounds: Vec<InstanceBound>,
    pub factory_bounds: Vec<FactoryBound>,
    pub impls: Vec<CapabilityKind>,
}

pub open spec fn cap_views(s: Seq<String>) -> Seq<Seq<char>> {
    Seq::new(s.len(), |i: int| s[i]@)
}

pub open spec fn ib_models(s: Seq<InstanceBound>) -> Seq<SpecInstanceBound> {
    Seq::new(s.len(), |i: int| s[i]@)
}

pub open spec fn fb_models(s: Seq<FactoryBound>) -> Seq<SpecFactoryBound> {
    Seq::new(s.len(), |i: int| s[i]@)
}

pub open spec fn sized_name() -> Seq<char> {
    "Sized"@
}

/// What one bound contributes to the dynamic-safe sibling.
pub open spec fn inst_step(name: Seq<char>) -> Seq<SpecInstanceBound> {
    if name == sized_name() {
        Seq::empty()
    } else {
        match spec_capability_of(name) {
            Option::Some(k) => seq![SpecInstanceBound::Translated(k)],
            Option::None => seq![SpecInstanceBound::Kept(name)],
        }
    }
}

pub open spec fn spec_instance_mapped(caps: Seq<Seq<char>>) -> Seq<SpecInstanceBound>
    decreases caps.len(),
{
    if caps.len() == 0 {
        Seq::empty()
    } else {
        spec_instance_mapped(caps.drop_last()) + inst_step(caps.last())
    }
}

/// The bounds of the dynamic-safe sibling: the capability bounds rewritten
/// to their twins, sizedness stripped, and the type-erasure marker
/// appended.
pub open spec fn spec_instance_bounds(caps: Seq<Seq<char>>) -> Seq<SpecInstanceBound> {
    spec_instance_mapped(caps).push(SpecInstanceBound::DynAny)
}

/// What one bound contributes to the factory sibling.
pub open spec fn fact_step(name: Seq<char>) -> Seq<SpecFactoryBound> {
    if name == sized_name() {
        seq![SpecFactoryBound::SizedBound]
    } else {
        match spec_capability_of(name) {
            Option::Some(k) => if needs_self_output(k) {
                seq![SpecFactoryBound::OperatorOutputSelf(k)]
            } else {
                seq![SpecFactoryBound::Kept(name)]
            },
            Option::None => seq![SpecFactoryBound::Kept(name)],
        }
    }
}

pub open spec fn spec_factory_mapped(caps: Seq<Seq<char>>) -> Seq<SpecFactoryBound>
    decreases caps.len(),
{
    if caps.len() == 0 {
        Seq::empty()
    } else {
        spec_factory_mapped(caps.drop_last()) + fact_step(caps.last())
    }
}

pub open spec fn has_sized(caps: Seq<Seq<char>>) -> bool
    decreases caps.len(),
{
    if caps.len() == 0 {
        false
    } else {
        caps.last() == sized_name() || has_sized(caps.drop_last())
    }
}

/// The bounds of the factory sibling: operator outputs pinned to the
/// implementing type, sizedness reinstated if it was not already there,
/// and the static-lifetime bound appended.
pub open spec fn spec_factory_bounds(caps: Seq<Seq<char>>) -> Seq<SpecFactoryBound> {
    (spec_factory_mapped(caps) + (if has_sized(caps) {
        Seq::empty()
    } else {
        seq![SpecFactoryBound::SizedBound]
    })).push(SpecFactoryBound::StaticLifetime)
}

/// The forwarding implementations owed: one per catalogue capability
/// found, in order.
pub open spec fn spec_impls(caps: Seq<Seq<char>>) -> Seq<CapabilityKind>
    decreases caps.len(),
{
    if caps.len() == 0 {
        Seq::empty()
    } else {
        spec_impls(caps.drop_last()) + (match spec_capability_of(caps.last()) {
            Option::Some(k) => seq![k],
            Option::None => Seq::empty(),
        })
    }
}

/// Rewrite the capability bounds of an interface for both siblings and
/// collect the forwarding implementations owed.
pub fn translate_capabilities(caps: &Vec<String>) -> (r: CapabilityTranslation)
    ensures
        ib_models(r.instance_bounds@) == spec_instance_bounds(cap_views(caps@)),
        fb_models(r.factory_bounds@) == spec_factory_bounds(cap_views(caps@)),
        r.impls@ == spec_impls(cap_views(caps@)),
{
    let ghost cv = cap_views(caps@);
    let sized_str = String::from_str("Sized");
    let mut instance_bounds: Vec<InstanceBound> = Vec::new();
    let mut factory_bounds: Vec<FactoryBound> = Vec::new();
    let mut impls: Vec<CapabilityKind> = Vec::new();
    let mut saw_sized: bool = false;
    let mut k: usize = 0;
    proof {
        assert(cv.take(0) =~= Seq::<Seq<char>>::empty());
        assert(ib_models(instance_bounds@) =~= spec_instance_mapped(cv.take(0)));
        assert(fb_models(factory_bounds@) =~= spec_factory_mapped(cv.take(0)));
        assert(impls@ =~= spec_impls(cv.take(0)));
    }
    while k < caps.len()
        invariant
            k <= caps@.len(),
            cv == cap_views(caps@),
            cv.len() == caps@.len(),
            sized_str@ == sized_name(),
            ib_models(instance_bounds@) == spec_instance_mapped(cv.take(k as int)),
            fb_models(factory_bounds@) == spec_factory_mapped(cv.take(k as int)),
            impls@ == spec_impls(cv.take(k as int)),
            saw_sized == has_sized(cv.take(k as int)),
        decreases caps@.len() - k,
    {
        let ghost pre = cv.take(k as int);
        proof {
            assert(cv.take(k + 1) =~= pre.push(cv[k as int]));
            assert(cv.take(k + 1).drop_last() =~= pre);
            assert(cv[k as int] == caps@[k as int]@);
        }
        let name = &caps[k];
        if string_eq(name, &sized_str) {
            saw_sized = true;
            factory_bounds.push(FactoryBound::SizedBound);
            proof {
                lemma_sized_not_catalogue();
                assert(ib_models(instance_bounds@) =~= spec_instance_mapped(cv.take(k + 1)));
                assert(fb_models(factory_bounds@) =~= spec_factory_mapped(cv.take(k + 1)));
                assert(impls@ =~= spec_impls(cv.take(k + 1)));
            }
        } else {
            match capability_of(name) {
                Option::Some(cap) => {
                    instance_bounds.push(InstanceBound::Translated(cap));
                    impls.push(cap);
                    let is_op = match style_of(cap) {
                        ForwardingStyle::UnaryValue => true,
                        ForwardingStyle::BinaryValue => true,
                        _ => false,
                    };
                    if is_op {
                        factory_bounds.push(FactoryBound::OperatorOutputSelf(cap));
                    } else {
                        factory_bounds.push(FactoryBound::Kept(name.clone()));
                    }
                    proof {
                        assert(ib_models(instance_bounds@) =~= spec_instance_mapped(
                            cv.take(k + 1),
                        ));
                        assert(fb_models(factory_bounds@) =~= spec_factory_mapped(cv.take(k + 1)));
                        assert(impls@ =~= spec_impls(cv.take(k + 1)));
                    }
                },
                Option::None => {
                    instance_bounds.push(InstanceBound::Kept(name.clone()));
                    factory_bounds.push(FactoryBound::Kept(name.clone()));
                    proof {
                        assert(ib_models(instance_bounds@) =~= spec_instance_mapped(
                            cv.take(k + 1),
                        ));
                        assert(fb_models(factory_bounds@) =~= spec_factory_mapped(cv.take(k + 1)));
                        assert(impls@ =~= spec_impls(cv.take(k + 1)));
                    }
                },
            }
        }
        k = k + 1;
    }
    proof {
        assert(cv.take(caps@.len() as int) =~= cv);
    }
    if !saw_sized {
        factory_bounds.push(FactoryBound::SizedBound);
    }
    factory_bounds.push(FactoryBound::StaticLifetime);
    instance_bounds.push(InstanceBound::DynAny);
    let r = CapabilityTranslation { instance_bounds, factory_bounds, impls };
    proof {
        assert(ib_models(r.instance_bounds@) =~= spec_instance_bounds(cv));
        assert(fb_models(r.factory_bounds@) =~= spec_factory_bounds(cv));
    }
    r
}

pub open spec fn count_kind(s: Seq<CapabilityKind>, k: CapabilityKind) -> int
    decreases s.len(),
{
    if s.len() == 0 {
        0
    } else {
        count_kind(s.drop_last(), k) + if s.last() == k {
            1int
        } else {
            0int
        }
    }
}

pub open spec fn count_cap(caps: Seq<Seq<char>>, k: CapabilityKind) -> int
    decreases caps.len(),
{
    if caps.len() == 0 {
        0
    } else {
        count_cap(caps.drop_last(), k) + if spec_capability_of(caps.last()) == Option::Some(k) {
            1int
        } else {
            0int
        }
    }
}

/// Capability table completeness: for each catalogue capability among the
/// interface's bounds, the translator produces exactly one forwarding
/// implementation; together with `lemma_catalogue_names` and the naming
/// contract of `entry_for`, each such implementation forwards through a
/// dynamic method named by prefixing the concrete method consistently.
pub proof fn lemma_one_impl_per_capability(caps: Seq<Seq<char>>, k: CapabilityKind)
    ensures
        count_kind(spec_impls(caps), k) == count_cap(caps, k),
    decreases caps.len(),
{
    if caps.len() > 0 {
        lemma_one_impl_per_capability(caps.drop_last(), k);
        match spec_capability_of(caps.last()) {
            Option::Some(kk) => {
                let step = seq![kk];
                assert((spec_impls(caps.drop_last()) + step).drop_last() =~= spec_impls(
                    caps.drop_last(),
                ));
                assert((spec_impls(caps.drop_last()) + step).last() == kk);
            },
            Option::None => {
                assert(spec_impls(caps.drop_last()) + Seq::<CapabilityKind>::empty()
                    =~= spec_impls(caps.drop_last()));
            },
        }
    }
}

/// The sizedness bound is no catalogue capability.
pub proof fn lemma_sized_not_catalogue()
    ensures
        spec_capability_of(sized_name()) is None,
{
    reveal_strlit("Sized");
    reveal_strlit("PartialEq");
    reveal_strlit("PartialOrd");
    reveal_strlit("Clone");
    reveal_strlit("Neg");
    reveal_strlit("Not");
    reveal_strlit("Add");
    reveal_strlit("Sub");
    reveal_strlit("Mul");
    reveal_strlit("Div");
    reveal_strlit("Rem");
    reveal_strlit("BitAnd");
    reveal_strlit("BitOr");
    reveal_strlit("BitXor");
    reveal_strlit("Shl");
    reveal_strlit("Shr");
    reveal_strlit("AddAssign");
    reveal_strlit("SubAssign");
    reveal_strlit("MulAssign");
    reveal_strlit("DivAssign");
    reveal_strlit("RemAssign");
    reveal_strlit("BitAndAssign");
    reveal_strlit("BitOrAssign");
    reveal_strlit("BitXorAssign");
    reveal_strlit("ShlAssign");
    reveal_strlit("ShrAssign");
    assert("Sized"@.len() == 5);
    assert("Clone"@.len() == 5);
    assert("BitOr"@.len() == 5);
    assert("Sized"@[0] == 'S' && "Clone"@[0] == 'C' && "BitOr"@[0] == 'B');
}

} // verus!
