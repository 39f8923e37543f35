use vstd::prelude::*;

verus! {

/// Why a module cannot be turned into a simulation.
#[derive(Debug, Clone, Copy, PartialEq, Eq, Structural)]
pub enum ConstructionFault {
    /// The wire is driven more than once.
    DuplicateDriver { wire: usize },
    /// Some cells wait for each other within one delta cycle.
    CombinationalCycle,
    /// The element at the position of an output is tied to a value.
    ConstantOutput { position: usize },
    /// The widths of the ports of the cell do not fit its kind.
    WidthMismatch { cell: usize },
    /// A wire handle is as large as handles get, which leaves no room to
    /// count the wires.
    WireOutOfRange,
}

/// Why an argument was turned down.
#[derive(Debug, Clone, Copy, PartialEq, Eq, Structural)]
pub enum ArgumentFault {
    /// A port of width `actual` was addressed with `requested` values.
    WrongWidth { requested: usize, actual: usize },
    /// A set of booleans without any element has no logic value.
    EmptyBoolSet,
}

/// Why a netlist description cannot be mapped onto cells. A position counts
/// within the list that the fault speaks of.
#[derive(Debug, Clone, Copy, PartialEq, Eq, Structural)]
pub enum FormatFault {
    /// The element of a list of wires is neither a handle that fits nor a text.
    IllegalWire { position: usize },
    /// The element of a list of wires is a text other than `0`, `1` and `X`.
    IllegalWireConstant { position: usize },
    /// The direction is given for a name that no connection has.
    DirectionWithoutConnection { position: usize },
    /// The parameter names no connection and is not `WIDTH`.
    UnrecognizedProperty { position: usize },
    /// The parameter is given for a name that no connection has.
    PropertyWithoutConnection { position: usize },
    /// The parameter `SIGNED` of a connection is neither 0 nor 1.
    IllegalSigned { position: usize },
    /// The parameter `WIDTH` of a connection is no unsigned number.
    IllegalWidth { position: usize },
    /// The parameter `POLARITY` of a connection is no unsigned number.
    IllegalPolarity { position: usize },
    /// The parameter of a connection is none of `SIGNED`, `WIDTH` and `POLARITY`.
    UnknownProperty { position: usize },
    /// The connections of a cell are declared with widths that differ.
    WidthsNotMatching,
}

/// The errors of the simulator.
#[derive(Debug, Clone, PartialEq, Eq)]
pub enum SimError {
    /// A netlist description cannot be mapped onto cells.
    FormatError(FormatFault),
    /// Nothing carries the requested name.
    NotFound { name: String },
    /// A value handed in by the caller does not fit.
    InvalidArgument(ArgumentFault),
    /// The module cannot be scheduled.
    ConstructionError(ConstructionFault),
    /// A frame did not settle within `cycles` delta cycles.
    SimulationError { cycles: usize },
}

} // verus!
