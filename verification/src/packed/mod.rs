pub mod logic_array64;
pub mod logic_slice;

pub use logic_array64::LogicArray64;
pub use logic_slice::LogicSlice;
