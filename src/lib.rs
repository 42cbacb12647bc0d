//! Height-gated protocol configuration and builtin-contract lookup for a
//! blockchain execution engine.

pub mod address;
pub mod params;
pub mod builtin;
pub mod registry;
pub mod machine;

pub use address::{Address, AddressOrder};
pub use builtin::Builtin;
pub use machine::{new_machine, Configuration, Machine, SpecCreationRules};
pub use params::{CardinalNumber, CommonParams};
pub use registry::BuiltinRegistry;
