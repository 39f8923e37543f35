use vstd::prelude::*;

verus! {

/// A value of a netlist description, as far as the mapping onto cells looks
/// at it: an unsigned number, a text, or anything else.
#[derive(Debug, Clone, PartialEq, Eq)]
pub enum Value {
    Number(u64),
    String(String),
    Other,
}

/// A netlist description: modules by name.
#[derive(Debug, Clone)]
pub struct Netlist {
    pub modules: Vec<(String, Module)>,
}

/// The description of a module: ports, cells and net names, each by name.
#[derive(Debug, Clone)]
pub struct Module {
    pub ports: Vec<(String, Port)>,
    pub cells: Vec<(String, Cell)>,
    pub netnames: Vec<(String, Net)>,
}

/// The description of a port of a module.
#[derive(Debug, Clone)]
pub struct Port {
    pub direction: PortDirection,
    pub bits: Vec<Value>,
}

/// The direction of a port or of a connection of a cell.
#[derive(Debug, Clone, Copy, PartialEq, Eq, Structural)]
pub enum PortDirection {
    Input,
    Output,
}

/// The description of a cell: its kind, and directions, connections and
/// parameters by name.
#[derive(Debug, Clone)]
pub struct Cell {
    pub cell_type: CellType,
    pub port_directions: Vec<(String, PortDirection)>,
    pub connections: Vec<(String, Vec<Value>)>,
    pub parameters: Vec<(String, Value)>,
}

/// The kinds of cells that a netlist description may name.
#[derive(Debug, Clone, Copy, PartialEq, Eq, Structural)]
pub enum CellType {
    AND,
    OR,
    NOT,
    DFF,
    Add,
    SyntAND,
    SyntOR,
    SyntXOR,
    SyntNAND,
    SyntNOR,
    SyntXNOR,
    SyntAND_NOT,
    SyntOR_NOT,
    SyntNOT,
    SyntDFFPos,
    SyntAOI3,
    SyntOAI3,
}

/// The description of a net: the wires under a name.
#[derive(Debug, Clone)]
pub struct Net {
    pub bits: Vec<usize>,
}

} // verus!
