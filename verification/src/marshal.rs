//! Marshaling: how a value crosses the boundary between two instances.
//!
//! Instances share no memory, so a value never crosses as a reference. The
//! sender lowers it to a wire form that owns a copy of the data: a number
//! becomes a 64-bit word, text becomes its UTF-8 bytes. The receiver lifts the
//! wire form against the type that the contract declares for the slot, and
//! rejects a word outside the range of that type and bytes that are not
//! UTF-8 before the value reaches any component's logic.

use vstd::prelude::*;
use vstd::utf8::{decode_utf8, encode_utf8, valid_utf8};
use vstd::utf8::{encode_utf8_decode_utf8, encode_utf8_valid_utf8};
use crate::contract::{Value, ValueModel, ValueType, value_outcome, values_model, values_outcome};
use crate::fault::CallError;

verus! {

/// A value in transit.
#[derive(Debug, Clone, PartialEq, Eq)]
pub enum Wire {
    /// A number of either integer type.
    Word(i64),
    /// The bytes of a text.
    Bytes(Vec<u8>),
}

/// The mathematical content of a [`Wire`].
pub enum WireModel {
    Word(i64),
    Bytes(Seq<u8>),
}

impl View for Wire {
    type V = WireModel;

    open spec fn view(&self) -> WireModel {
        match *self {
            Wire::Word(x) => WireModel::Word(x),
            Wire::Bytes(b) => WireModel::Bytes(b@),
        }
    }
}

/// The contents of what an instance hands back.
pub open spec fn wire_outcome(r: Result<Wire, CallError>) -> Result<WireModel, CallError> {
    match r {
        Ok(w) => Ok(w@),
        Err(e) => Err(e),
    }
}

/// The contents of a list of wire forms.
pub open spec fn wires_model(wires: Seq<Wire>) -> Seq<WireModel> {
    wires.map_values(|w: Wire| w@)
}

/// The wire form of a value.
pub open spec fn lowered(v: ValueModel) -> WireModel {
    match v {
        ValueModel::S32(x) => WireModel::Word(x as i64),
        ValueModel::U32(x) => WireModel::Word(x as i64),
        ValueModel::Text(t) => WireModel::Bytes(encode_utf8(t)),
    }
}

/// The value that a wire form stands for at a slot of type `ty`, or a contract
/// violation where it stands for none.
pub open spec fn lifted(w: WireModel, ty: ValueType) -> Result<ValueModel, CallError> {
    match (w, ty) {
        (WireModel::Word(x), ValueType::S32) => if i32::MIN <= x <= i32::MAX {
            Ok(ValueModel::S32(x as i32))
        } else {
            Err(CallError::ContractViolation)
        },
        (WireModel::Word(x), ValueType::U32) => if 0 <= x <= u32::MAX {
            Ok(ValueModel::U32(x as u32))
        } else {
            Err(CallError::ContractViolation)
        },
        (WireModel::Bytes(b), ValueType::Text) => if valid_utf8(b) {
            Ok(ValueModel::Text(decode_utf8(b)))
        } else {
            Err(CallError::ContractViolation)
        },
        _ => Err(CallError::ContractViolation),
    }
}

/// True when the wire forms `wires` fill the slots `types` one for one.
pub open spec fn all_liftable(wires: Seq<WireModel>, types: Seq<ValueType>) -> bool {
    &&& wires.len() == types.len()
    &&& forall|i: int| 0 <= i < wires.len() ==> (#[trigger] lifted(wires[i], types[i])) is Ok
}

/// The values that a list of wire forms stands for at the slots `types`, or
/// a contract violation where the list is too short, too long or holds a
/// wire form that its slot rejects.
pub open spec fn lifted_all(wires: Seq<WireModel>, types: Seq<ValueType>) -> Result<
    Seq<ValueModel>,
    CallError,
> {
    if all_liftable(wires, types) {
        Ok(Seq::new(wires.len(), |i: int| lifted(wires[i], types[i])->Ok_0))
    } else {
        Err(CallError::ContractViolation)
    }
}

/// Lowering a value and lifting it at a slot of its own type gives the value
/// back: nothing is lost on the way across.
pub proof fn lemma_lift_lower(v: ValueModel)
    ensures
        lifted(lowered(v), v.value_type()) == Ok::<ValueModel, CallError>(v),
{
    match v {
        ValueModel::S32(x) => {},
        ValueModel::U32(x) => {},
        ValueModel::Text(t) => {
            encode_utf8_valid_utf8(t);
            encode_utf8_decode_utf8(t);
        },
    }
}

/// `std::str::Utf8Error`, the error of `std::str::from_utf8`, as an opaque
/// type: nothing is claimed of what it holds.
#[verifier::external_type_specification]
#[verifier::external_body]
pub struct ExUtf8Error(std::str::Utf8Error);

/// Calls `std::str::from_utf8`, which succeeds exactly on the byte strings
/// that are valid UTF-8 and then yields the text that those very bytes encode.
/// Nothing is said of the error, which tells where the first invalid byte
/// stands.
#[verifier::external_body]
fn str_from_utf8(bytes: &[u8]) -> (r: Result<&str, std::str::Utf8Error>)
    ensures
        r is Ok <==> valid_utf8(bytes@),
        r is Ok ==> r->Ok_0@ == decode_utf8(bytes@),
{
    std::str::from_utf8(bytes)
}

impl Value {
    /// Lowers the value to its wire form, which owns a copy of the data.
    pub fn lower(&self) -> (w: Wire)
        ensures
            w@ == lowered(self@),
    {
        match self {
            Value::S32(x) => Wire::Word(*x as i64),
            Value::U32(x) => Wire::Word(*x as i64),
            Value::Text(t) => Wire::Bytes(t.as_str().as_bytes_vec()),
        }
    }
}

impl Wire {
    /// Lifts the wire form at a slot of type `ty`.
    pub fn lift(&self, ty: ValueType) -> (r: Result<Value, CallError>)
        ensures
            value_outcome(r) == lifted(self@, ty),
    {
        match self {
            Wire::Word(x) => {
                match ty {
                    ValueType::S32 => {
                        if -2147483648 <= *x && *x <= 2147483647 {
                            Ok(Value::S32(*x as i32))
                        } else {
                            Err(CallError::ContractViolation)
                        }
                    },
                    ValueType::U32 => {
                        if 0 <= *x && *x <= 4294967295 {
                            Ok(Value::U32(*x as u32))
                        } else {
                            Err(CallError::ContractViolation)
                        }
                    },
                    ValueType::Text => Err(CallError::ContractViolation),
                }
            },
            Wire::Bytes(b) => {
                match ty {
                    ValueType::Text => {
                        match str_from_utf8(b.as_slice()) {
                            Ok(s) => Ok(Value::Text(s.to_owned())),
                            Err(_) => Err(CallError::ContractViolation),
                        }
                    },
                    _ => Err(CallError::ContractViolation),
                }
            },
        }
    }
}

/// Lowers a list of values, in order.
pub fn lower_all(values: &Vec<Value>) -> (wires: Vec<Wire>)
    ensures
        wires_model(wires@) == values_model(values@).map_values(|v: ValueModel| lowered(v)),
{
    let mut wires: Vec<Wire> = Vec::new();
    let mut i: usize = 0;
    while i < values.len()
        invariant
            i <= values.len(),
            wires.len() == i,
            forall|j: int| 0 <= j < i ==> wires[j]@ == lowered(#[trigger] values[j]@),
        decreases values.len() - i,
    {
        wires.push(values[i].lower());
        i += 1;
    }
    wires
}

/// Lifts a list of wire forms at the slots `types`, one for one.
pub fn lift_all(wires: &Vec<Wire>, types: &Vec<ValueType>) -> (r: Result<Vec<Value>, CallError>)
    ensures
        values_outcome(r) == lifted_all(wires_model(wires@), types@),
{
    if wires.len() != types.len() {
        return Err(CallError::ContractViolation);
    }
    let ghost ws = wires_model(wires@);
    let mut values: Vec<Value> = Vec::new();
    let mut i: usize = 0;
    while i < wires.len()
        invariant
            i <= wires.len(),
            wires.len() == types.len(),
            ws == wires_model(wires@),
            values.len() == i,
            forall|j: int|
                0 <= j < i ==> (#[trigger] lifted(ws[j], types[j])) == Ok::<ValueModel, CallError>(
                    values[j]@,
                ),
        decreases wires.len() - i,
    {
        match wires[i].lift(types[i]) {
            Ok(v) => {
                values.push(v);
            },
            Err(e) => {
                assert(!(lifted(ws[i as int], types[i as int]) is Ok));
                return Err(e);
            },
        }
        i += 1;
    }
    proof {
        assert(values_model(values@) =~= Seq::new(
            ws.len(),
            |i: int| lifted(ws[i], types@[i])->Ok_0,
        ));
    }
    Ok(values)
}

} // verus!
