//! The intermediate representation that parsing produces.

pub mod circuit;
pub mod gates;
pub mod operations;
pub mod value;

pub use circuit::Circuit;
pub use circuit::CircuitView;
pub use gates::GateType;
pub use gates::GateTypeView;
pub use operations::Operation;
pub use operations::OperationView;
pub use value::Value;
