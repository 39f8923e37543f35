pub mod cell;
pub mod edge;
pub mod logic;
pub mod module;
pub mod port;
pub mod wires;

pub use edge::Edge;
pub use edge::Edge_Len;
pub use edge::Edge_Variants;
pub use logic::Logic;
pub use logic::Logic_Len;
pub use logic::Logic_Variants;
pub use wires::HWire;
pub use wires::HWireOrLogic;
pub use port::Dir;
pub use port::In;
pub use port::Out;
pub use port::Port;
pub use cell::AddCell;
pub use cell::BinaryMapOpCell;
pub use cell::Cell;
pub use cell::CellInPort;
pub use cell::CellOutPort;
pub use cell::DFlipFlopCell;
pub use cell::HCell;
pub use cell::MuxCell;
pub use cell::TernaryMapOpCell;
pub use cell::UnaryMapOpCell;
pub use module::port_lookup;
pub use module::Module;
pub use module::ModuleInPort;
pub use module::ModuleOutPort;
