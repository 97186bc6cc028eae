use crate::ir::value::Value;
use vstd::prelude::*;

verus! {

/// The catalogue of primitive gates, and `Custom` for a name that is none of
/// them. `Custom` occurs only while names are being resolved: a circuit that
/// parsing returns holds none.
#[derive(Debug, PartialEq)]
pub enum GateType {
    /// Hadamard gate
    H,
    /// Pauli-X gate (NOT)
    X,
    /// Pauli-Y gate
    Y,
    /// Pauli-Z gate
    Z,
    /// Controlled-NOT gate
    CX,
    /// Rotation around the X axis by an angle
    RX(Value),
    /// Rotation around the Y axis by an angle
    RY(Value),
    /// Rotation around the Z axis by an angle
    RZ(Value),
    /// General single-qubit gate U(theta, phi, lambda)
    U(Value, Value, Value),
    /// Identity gate
    ID,
    /// S gate
    S,
    /// Inverse of the S gate
    Sdg,
    /// T gate
    T,
    /// Inverse of the T gate
    Tdg,
    /// Swap gate
    SWAP,
    /// Toffoli gate
    CCX,
    /// A gate that the user defined
    Custom(String),
}

/// What a [`GateType`] stands for in contracts.
pub enum GateTypeView {
    H,
    X,
    Y,
    Z,
    CX,
    RX(Value),
    RY(Value),
    RZ(Value),
    U(Value, Value, Value),
    ID,
    S,
    Sdg,
    T,
    Tdg,
    SWAP,
    CCX,
    Custom(Seq<char>),
}

impl View for GateType {
    type V = GateTypeView;

    open spec fn view(&self) -> GateTypeView {
        match self {
            GateType::H => GateTypeView::H,
            GateType::X => GateTypeView::X,
            GateType::Y => GateTypeView::Y,
            GateType::Z => GateTypeView::Z,
            GateType::CX => GateTypeView::CX,
            GateType::RX(a) => GateTypeView::RX(*a),
            GateType::RY(a) => GateTypeView::RY(*a),
            GateType::RZ(a) => GateTypeView::RZ(*a),
            GateType::U(a, b, c) => GateTypeView::U(*a, *b, *c),
            GateType::ID => GateTypeView::ID,
            GateType::S => GateTypeView::S,
            GateType::Sdg => GateTypeView::Sdg,
            GateType::T => GateTypeView::T,
            GateType::Tdg => GateTypeView::Tdg,
            GateType::SWAP => GateTypeView::SWAP,
            GateType::CCX => GateTypeView::CCX,
            GateType::Custom(name) => GateTypeView::Custom(name@),
        }
    }
}

impl GateType {
    /// Whether this gate is one of the catalogue, not a user's.
    pub fn is_primitive(&self) -> (r: bool)
        ensures
            r == !(self@ is Custom),
    {
        match self {
            GateType::Custom(_) => false,
            _ => true,
        }
    }
}

impl Clone for GateType {
    fn clone(&self) -> (r: Self)
        ensures
            r@ == self@,
    {
        match self {
            GateType::H => GateType::H,
            GateType::X => GateType::X,
            GateType::Y => GateType::Y,
            GateType::Z => GateType::Z,
            GateType::CX => GateType::CX,
            GateType::RX(a) => GateType::RX(a.clone()),
            GateType::RY(a) => GateType::RY(a.clone()),
            GateType::RZ(a) => GateType::RZ(a.clone()),
            GateType::U(a, b, c) => GateType::U(a.clone(), b.clone(), c.clone()),
            GateType::ID => GateType::ID,
            GateType::S => GateType::S,
            GateType::Sdg => GateType::Sdg,
            GateType::T => GateType::T,
            GateType::Tdg => GateType::Tdg,
            GateType::SWAP => GateType::SWAP,
            GateType::CCX => GateType::CCX,
            GateType::Custom(name) => GateType::Custom(name.clone()),
        }
    }
}

} // verus!
