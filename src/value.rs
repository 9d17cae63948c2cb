use vstd::prelude::*;

verus! {

/// A handle to an allocation owned by a [`crate::heap::Heap`].
///
/// Handles are cheap copies; two handles are equal exactly when they name the
/// same allocation.
#[derive(Clone, Copy, Debug, PartialEq, Eq, Structural, Hash)]
pub struct Reference {
    pub index: usize,
}

/// A runtime value and constant-pool element.
///
/// A number is held as the bit pattern of an IEEE-754 double; arithmetic on it
/// is carried out by the embedding program.
#[derive(Clone, Copy, Debug, PartialEq, Eq, Structural, Hash)]
pub enum Value {
    Nil,
    Boolean(bool),
    Number(u64),
    String(Reference),
    Function(Reference),
}

/// Truthiness: `nil` and `false` are false, every other value is true.
pub open spec fn truthy(v: Value) -> bool {
    match v {
        Value::Nil => false,
        Value::Boolean(b) => b,
        _ => true,
    }
}

impl Value {
    /// The truthiness of this value.
    pub fn boolean(&self) -> (r: bool)
        ensures
            r == truthy(*self),
    {
        match self {
            Value::Boolean(b) => *b,
            Value::Nil => false,
            _ => true,
        }
    }
}

} // verus!
