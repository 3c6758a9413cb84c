use vstd::prelude::*;

verus! {

/// A value of the virtual machine. A float is held by its IEEE-754 bit pattern
/// (`f32::to_bits`); the library does no floating point.
#[derive(Debug, Copy, Clone, PartialEq, Eq, Structural)]
pub enum Value {
    Null,
    IntValue(i32),
    FloatValue(u32),
    RefValue { ptr: u32, len: u32 },
}

/// The kinds of values a slot can be declared to hold.
#[derive(Debug, Clone, Copy, PartialEq, Eq, Structural)]
pub enum ValueType {
    Null,
    Int,
    Float,
    Address,
}

impl ValueType {
    /// Whether `value` may be stored in a slot of this type.
    pub fn assignable(&self, value: &Value) -> (b: bool)
        ensures
            b == match (*self, *value) {
                (ValueType::Null, Value::Null) => true,
                (ValueType::Int, Value::IntValue(_)) => true,
                (ValueType::Float, Value::FloatValue(_)) => true,
                (ValueType::Address, Value::RefValue { .. }) => true,
                _ => false,
            },
    {
        match (self, value) {
            (ValueType::Null, Value::Null) => true,
            (ValueType::Int, Value::IntValue(_)) => true,
            (ValueType::Float, Value::FloatValue(_)) => true,
            (ValueType::Address, Value::RefValue { .. }) => true,
            _ => false,
        }
    }
}

impl Value {
    /// The integer this value holds; it must hold one.
    pub fn try_as_int(&self) -> (v: i32)
        requires
            self is IntValue,
        ensures
            *self == Value::IntValue(v),
    {
        match self {
            Value::IntValue(v) => *v,
            _ => 0,
        }
    }

    /// The bit pattern of the float this value holds; it must hold one.
    pub fn try_as_float(&self) -> (v: u32)
        requires
            self is FloatValue,
        ensures
            *self == Value::FloatValue(v),
    {
        match self {
            Value::FloatValue(v) => *v,
            _ => 0,
        }
    }
}

} // verus!
