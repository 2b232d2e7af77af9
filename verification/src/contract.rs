//! The interface contract: the types a value may have, the operations that
//! cross the boundary and the signature of each.

use vstd::prelude::*;
use crate::fault::CallError;

verus! {

/// The type of one parameter or result.
#[derive(Debug, Clone, Copy, PartialEq, Eq, Structural)]
pub enum ValueType {
    /// A 32-bit signed integer.
    S32,
    /// A 32-bit unsigned integer.
    U32,
    /// Text.
    Text,
}

/// A typed value, as a component sees it on its own side of the boundary.
#[derive(Debug, Clone, PartialEq, Eq)]
pub enum Value {
    S32(i32),
    U32(u32),
    Text(String),
}

/// The mathematical content of a [`Value`].
pub enum ValueModel {
    S32(i32),
    U32(u32),
    Text(Seq<char>),
}

impl View for Value {
    type V = ValueModel;

    open spec fn view(&self) -> ValueModel {
        match *self {
            Value::S32(x) => ValueModel::S32(x),
            Value::U32(x) => ValueModel::U32(x),
            Value::Text(t) => ValueModel::Text(t@),
        }
    }
}

impl ValueModel {
    /// The type that a value belongs to.
    pub open spec fn value_type(self) -> ValueType {
        match self {
            ValueModel::S32(_) => ValueType::S32,
            ValueModel::U32(_) => ValueType::U32,
            ValueModel::Text(_) => ValueType::Text,
        }
    }
}

impl Value {
    /// The type that this value belongs to.
    pub fn value_type(&self) -> (ty: ValueType)
        ensures
            ty == self@.value_type(),
    {
        match self {
            Value::S32(_) => ValueType::S32,
            Value::U32(_) => ValueType::U32,
            Value::Text(_) => ValueType::Text,
        }
    }
}

/// The contents of a list of values.
pub open spec fn values_model(values: Seq<Value>) -> Seq<ValueModel> {
    values.map_values(|v: Value| v@)
}

/// The contents of the outcome of a call.
pub open spec fn value_outcome(r: Result<Value, CallError>) -> Result<ValueModel, CallError> {
    match r {
        Ok(v) => Ok(v@),
        Err(e) => Err(e),
    }
}

/// The contents of a list of values or of the failure in its place.
pub open spec fn values_outcome(r: Result<Vec<Value>, CallError>) -> Result<
    Seq<ValueModel>,
    CallError,
> {
    match r {
        Ok(values) => Ok(values_model(values@)),
        Err(e) => Err(e),
    }
}

/// An operation that an interface offers.
#[derive(Debug, Clone, Copy, PartialEq, Eq, Structural)]
pub enum Operation {
    /// `add(a: s32, b: s32) -> s32`
    Add,
    /// `eval_expression(expr: text) -> u32`
    EvalExpression,
}

impl Operation {
    /// The types of the parameters, in order.
    pub open spec fn params(self) -> Seq<ValueType> {
        match self {
            Operation::Add => seq![ValueType::S32, ValueType::S32],
            Operation::EvalExpression => seq![ValueType::Text],
        }
    }

    /// The type of the single result.
    pub open spec fn result(self) -> ValueType {
        match self {
            Operation::Add => ValueType::S32,
            Operation::EvalExpression => ValueType::U32,
        }
    }

    /// The types of the parameters, in order.
    pub fn param_types(self) -> (types: Vec<ValueType>)
        ensures
            types@ == self.params(),
    {
        let mut types: Vec<ValueType> = Vec::new();
        match self {
            Operation::Add => {
                types.push(ValueType::S32);
                types.push(ValueType::S32);
            },
            Operation::EvalExpression => {
                types.push(ValueType::Text);
            },
        }
        types
    }

    /// The type of the single result.
    pub fn result_type(self) -> (ty: ValueType)
        ensures
            ty == self.result(),
    {
        match self {
            Operation::Add => ValueType::S32,
            Operation::EvalExpression => ValueType::U32,
        }
    }
}

} // verus!
