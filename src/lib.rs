//! Constraint-system core of a STARK verifier: validated chip and machine
//! descriptions, a node language over traces and variables, and the quotient
//! identity check at an out-of-domain point.
//!
//! The base field is BabyBear and the extension its degree-four binomial
//! extension; both are held as plain values.

pub mod chip;
pub mod chip_metadata;
pub mod field;
pub mod machine_metadata;
pub mod node;
pub mod zerofier;

pub use chip::{ChipData, DataError};
pub use chip_metadata::{
    checked_next_power_of_two, is_power_of_two, ChipError, ChipMetadata, RawChipMetadata,
};
pub use field::{unflatten_extension, ExtFelt, Felt, D, P, TWO_ADICITY, W};
pub use machine_metadata::{MachineError, MachineMetadata, RawMachineMetadata};
pub use node::{Expression, FieldType, Node, NodeError, NodesInfo, VarScope};
pub use zerofier::{Exponent, ZerofierExpression};
