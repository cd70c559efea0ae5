//! The runtime values that environments bind.

use vstd::prelude::*;

verus! {

/// A handle to a list that lives in a heap. Freezing the handle makes the
/// list read-only for everyone who reaches it through this value.
#[derive(Clone, Copy, Debug, PartialEq, Eq, Structural)]
pub struct ListRef {
    pub id: u64,
    pub frozen: bool,
}

/// A runtime value as far as scoping needs it: immediates, strings, and
/// mutable lists held in a heap.
#[derive(Debug, PartialEq, Eq)]
pub enum Value {
    NoneValue,
    Bool(bool),
    Int(i64),
    Str(String),
    List(ListRef),
}

/// The name of the runtime type of `v`.
pub open spec fn type_name_of(v: Value) -> Seq<char> {
    match v {
        Value::NoneValue => "NoneType"@,
        Value::Bool(_) => "bool"@,
        Value::Int(_) => "int"@,
        Value::Str(_) => "string"@,
        Value::List(_) => "list"@,
    }
}

/// The heap-resident part of `v` that a trace starts from: lists have
/// one, immediates and strings none.
pub open spec fn gc_head_of(v: Value) -> Option<ListRef> {
    match v {
        Value::List(l) => Some(l),
        _ => None,
    }
}

/// `v` after the transition to the immutable state.
pub open spec fn frozen_value(v: Value) -> Value {
    match v {
        Value::List(l) => Value::List(ListRef { id: l.id, frozen: true }),
        _ => v,
    }
}

/// Whether `v` no longer admits mutation.
pub open spec fn is_immutable(v: Value) -> bool {
    match v {
        Value::List(l) => l.frozen,
        _ => true,
    }
}

impl Value {
    /// A copy of this value (a list copy is another handle to the same list).
    pub fn duplicate(&self) -> (r: Value)
        ensures
            r == *self,
    {
        match self {
            Value::NoneValue => Value::NoneValue,
            Value::Bool(b) => Value::Bool(*b),
            Value::Int(i) => Value::Int(*i),
            Value::Str(s) => Value::Str(s.clone()),
            Value::List(l) => Value::List(*l),
        }
    }

    /// The name of this value's runtime type.
    pub fn runtime_type_name(&self) -> (r: &'static str)
        ensures
            r@ == type_name_of(*self),
    {
        match self {
            Value::NoneValue => "NoneType",
            Value::Bool(_) => "bool",
            Value::Int(_) => "int",
            Value::Str(_) => "string",
            Value::List(_) => "list",
        }
    }

    /// The heap-resident part of this value that a trace starts from, if any.
    pub fn gc_head(&self) -> (r: Option<ListRef>)
        ensures
            r == gc_head_of(*self),
    {
        match self {
            Value::List(l) => Some(*l),
            _ => None,
        }
    }

    /// Makes this value immutable.
    pub fn make_immutable(&mut self)
        ensures
            *final(self) == frozen_value(*old(self)),
            is_immutable(*final(self)),
    {
        if let Value::List(l) = self {
            l.frozen = true;
        }
    }

    /// Whether this value no longer admits mutation.
    pub fn is_frozen(&self) -> (r: bool)
        ensures
            r == is_immutable(*self),
    {
        match self {
            Value::List(l) => l.frozen,
            _ => true,
        }
    }
}

} // verus!
