use crate::model::Edge;
use crate::model::HWire;
use crate::model::HWireOrLogic;
use crate::model::In;
use crate::model::Out;
use crate::model::Port;
use crate::ops::BinaryMapOp;
use crate::ops::TernaryMapOp;
use crate::ops::UnaryMapOp;
use vstd::prelude::*;

verus! {

/// The handle of a cell: its index in the module's list of cells.
pub type HCell = usize;

/// An input port of a cell: each element is a wire or a tied value.
pub type CellInPort = Port<In, HWireOrLogic>;

/// An output port of a cell: each element is a wire.
pub type CellOutPort = Port<Out, HWire>;

/// The cells of a netlist.
#[derive(Debug, Clone)]
pub enum Cell {
    UnaryMapOpCell(UnaryMapOpCell),
    BinaryMapOpCell(BinaryMapOpCell),
    TernaryMapOpCell(TernaryMapOpCell),
    DFlipFlopCell(DFlipFlopCell),
    AddCell(AddCell),
    MuxCell(MuxCell),
}

/// Applies an operator of one operand to each element of `port_a`.
#[derive(Debug, Clone)]
pub struct UnaryMapOpCell {
    pub name: String,
    pub op: UnaryMapOp,
    pub port_a: CellInPort,
    pub port_y: CellOutPort,
}

/// Applies an operator of two operands element by element.
#[derive(Debug, Clone)]
pub struct BinaryMapOpCell {
    pub name: String,
    pub op: BinaryMapOp,
    pub port_a: CellInPort,
    pub port_b: CellInPort,
    pub port_y: CellOutPort,
}

/// Applies an operator of three operands element by element.
#[derive(Debug, Clone)]
pub struct TernaryMapOpCell {
    pub name: String,
    pub op: TernaryMapOp,
    pub port_a: CellInPort,
    pub port_b: CellInPort,
    pub port_c: CellInPort,
    pub port_y: CellOutPort,
}

/// Takes `port_d` over to `port_q` when the clock shows the edge `polarity`.
#[derive(Debug, Clone)]
pub struct DFlipFlopCell {
    pub name: String,
    pub polarity: Edge,
    pub port_clk: CellInPort,
    pub port_d: CellInPort,
    pub port_q: CellOutPort,
}

/// Adds `port_a` and `port_b`, lowest bit first, with a carry that ripples.
#[derive(Debug, Clone)]
pub struct AddCell {
    pub name: String,
    pub port_a: CellInPort,
    pub port_b: CellInPort,
    pub port_y: CellOutPort,
}

/// Hands on `port_a` where the select is low and `port_b` where it is high.
#[derive(Debug, Clone)]
pub struct MuxCell {
    pub name: String,
    pub port_a: CellInPort,
    pub port_b: CellInPort,
    pub port_s: CellInPort,
    pub port_y: CellOutPort,
}

impl UnaryMapOpCell {
    /// The ports have one width.
    pub open spec fn wf(&self) -> bool {
        self.port_a.width() == self.port_y.width()
    }
}

impl BinaryMapOpCell {
    /// The ports have one width.
    pub open spec fn wf(&self) -> bool {
        &&& self.port_a.width() == self.port_y.width()
        &&& self.port_b.width() == self.port_y.width()
    }
}

impl TernaryMapOpCell {
    /// The ports have one width.
    pub open spec fn wf(&self) -> bool {
        &&& self.port_a.width() == self.port_y.width()
        &&& self.port_b.width() == self.port_y.width()
        &&& self.port_c.width() == self.port_y.width()
    }
}

impl DFlipFlopCell {
    /// The clock is one element wide, and data goes in as wide as it comes out.
    pub open spec fn wf(&self) -> bool {
        &&& self.port_clk.width() == 1
        &&& self.port_d.width() == self.port_q.width()
    }
}

impl AddCell {
    /// The ports have one width.
    pub open spec fn wf(&self) -> bool {
        &&& self.port_a.width() == self.port_y.width()
        &&& self.port_b.width() == self.port_y.width()
    }
}

impl MuxCell {
    /// The select is one element wide, the other ports have one width.
    pub open spec fn wf(&self) -> bool {
        &&& self.port_s.width() == 1
        &&& self.port_a.width() == self.port_y.width()
        &&& self.port_b.width() == self.port_y.width()
    }
}

impl Cell {
    /// The widths of the cell's ports fit its kind.
    pub open spec fn wf(&self) -> bool {
        match self {
            Cell::UnaryMapOpCell(cell) => cell.wf(),
            Cell::BinaryMapOpCell(cell) => cell.wf(),
            Cell::TernaryMapOpCell(cell) => cell.wf(),
            Cell::DFlipFlopCell(cell) => cell.wf(),
            Cell::AddCell(cell) => cell.wf(),
            Cell::MuxCell(cell) => cell.wf(),
        }
    }

    /// Whether the cell is clocked: what it computes shows on its output only
    /// after the delta cycle.
    pub open spec fn is_clocked(&self) -> bool {
        self is DFlipFlopCell
    }

    /// Whether the cell is clocked.
    pub fn clocked(&self) -> (r: bool)
        ensures
            r == self.is_clocked(),
    {
        match self {
            Cell::DFlipFlopCell(_) => true,
            _ => false,
        }
    }

    /// Whether the widths of the cell's ports fit its kind.
    pub fn check_widths(&self) -> (ok: bool)
        ensures
            ok == self.wf(),
    {
        match self {
            Cell::UnaryMapOpCell(cell) => cell.port_a.items().len() == cell.port_y.items().len(),
            Cell::BinaryMapOpCell(cell) => {
                let width = cell.port_y.items().len();
                cell.port_a.items().len() == width && cell.port_b.items().len() == width
            },
            Cell::TernaryMapOpCell(cell) => {
                let width = cell.port_y.items().len();
                cell.port_a.items().len() == width && cell.port_b.items().len() == width
                    && cell.port_c.items().len() == width
            },
            Cell::DFlipFlopCell(cell) => {
                cell.port_clk.items().len() == 1 && cell.port_d.items().len()
                    == cell.port_q.items().len()
            },
            Cell::AddCell(cell) => {
                let width = cell.port_y.items().len();
                cell.port_a.items().len() == width && cell.port_b.items().len() == width
            },
            Cell::MuxCell(cell) => {
                let width = cell.port_y.items().len();
                cell.port_s.items().len() == 1 && cell.port_a.items().len() == width
                    && cell.port_b.items().len() == width
            },
        }
    }
}

} // verus!
