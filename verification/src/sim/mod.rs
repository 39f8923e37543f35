pub mod cell;
pub mod fns;
pub mod schedule;
pub mod sim;
pub mod state;

pub use fns::BinaryMapOpFn;
pub use fns::OpFns;
pub use fns::TernaryMapFn;
pub use fns::UnaryMapOpFn;
pub use state::SimState;
pub use state::StateRef;
pub use cell::CellSimModel;
pub use state::WireState;
pub use cell::CellWires;
pub use sim::Sim;
pub use sim::MAX_DELTA_CYCLES;
