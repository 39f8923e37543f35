pub mod connection;
pub mod json;
pub mod parser;

pub use json::Cell;
pub use json::CellType;
pub use json::Module;
pub use json::Net;
pub use json::Netlist;
pub use json::Port;
pub use json::PortDirection;
pub use json::Value;
pub use connection::find_connection;
pub use connection::parse_connections;
pub use parser::parse_add;
pub use parser::parse_binary;
pub use parser::parse_cell;
pub use parser::parse_flipflop;
pub use parser::parse_module;
pub use parser::parse_netlist;
pub use parser::parse_ternary;
pub use parser::parse_unary;
pub use parser::parse_wires;
pub use connection::Connection;
