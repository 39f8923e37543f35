use crate::common::collections::inputs_as_slice;
use crate::common::collections::inputs_from_vec;
use crate::common::ConstructionFault;
use crate::common::FormatFault;
use crate::common::SimError;
use crate::common::Vec4;
use crate::json::connection::connections_of;
use crate::json::connection::find_connection;
use crate::json::connection::first_connection;
use crate::json::connection::parse_connections;
use crate::json::connection::Connection;
use crate::json::connection::ConnectionView;
use crate::json::Cell;
use crate::json::CellType;
use crate::json::Module;
use crate::json::Netlist;
use crate::json::Port;
use crate::json::PortDirection;
use crate::json::Value;
use crate::model;
use crate::model::CellInPort;
use crate::model::CellOutPort;
use crate::model::Dir;
use crate::model::Edge;
use crate::model::HWire;
use crate::model::HWireOrLogic;
use crate::model::Logic;
use crate::ops::BinaryMapOp;
use crate::ops::TernaryMapOp;
use crate::ops::UnaryMapOp;
use std::marker::PhantomData;
use vstd::prelude::*;
use vstd::slice::slice_to_vec;

verus! {

/// The element of a port that a value of the description stands for: a
/// number is the handle of a wire, if it fits a handle, and a text is the
/// value that the element is tied to.
pub open spec fn wire_of(value: Value) -> Option<HWireOrLogic> {
    match value {
        Value::Number(h_wire) => if h_wire <= usize::MAX {
            Some(HWireOrLogic::HWire(h_wire as usize))
        } else {
            None
        },
        Value::String(text) => match Logic::of_text(text@) {
            Some(logic) => Some(HWireOrLogic::Logic(logic)),
            None => None,
        },
        Value::Other => None,
    }
}

/// What is wrong with a value that stands for no element of a port.
pub open spec fn wire_fault(value: Value, position: usize) -> FormatFault {
    match value {
        Value::String(_) => FormatFault::IllegalWireConstant { position },
        _ => FormatFault::IllegalWire { position },
    }
}

/// The position of the first value that stands for no element of a port, or
/// the number of values where all stand for one.
pub open spec fn first_illegal(values: Seq<Value>) -> int
    decreases values.len(),
{
    if values.len() == 0 {
        0
    } else if wire_of(values[0]) is None {
        0
    } else {
        1 + first_illegal(values.drop_first())
    }
}

/// The elements of a port that a list of values stands for, or what is
/// wrong with the first value that stands for none.
pub open spec fn wires_of(values: Seq<Value>) -> Result<Seq<HWireOrLogic>, FormatFault> {
    let at = first_illegal(values);
    if at == values.len() {
        Ok(Seq::new(values.len(), |i: int| wire_of(values[i])->Some_0))
    } else {
        Err(wire_fault(values[at], at as usize))
    }
}

/// The elements of a port that a list of values of the description stands for.
pub fn parse_wires(json_wires: &Vec<Value>) -> (r: Result<Vec4<HWireOrLogic>, SimError>)
    ensures
        match wires_of(json_wires@) {
            Ok(wires) => r matches Ok(list) && list@ == wires,
            Err(fault) => r == Err::<Vec4<HWireOrLogic>, SimError>(SimError::FormatError(fault)),
        },
{
    let mut wires: Vec<HWireOrLogic> = Vec::new();
    let mut i: usize = 0;
    assert(json_wires@.skip(0) =~= json_wires@);
    while i < json_wires.len()
        invariant
            i <= json_wires@.len(),
            wires@.len() == i,
            forall|k: int| 0 <= k < i ==> wire_of(json_wires@[k]) == Some(#[trigger] wires@[k]),
            first_illegal(json_wires@) == i + first_illegal(json_wires@.skip(i as int)),
        decreases json_wires@.len() - i,
    {
        let ghost rest = json_wires@.skip(i as int);
        assert(rest[0] == json_wires@[i as int]);
        let wire = match &json_wires[i] {
            Value::Number(h_wire) => {
                if *h_wire > usize::MAX as u64 {
                    return Err(SimError::FormatError(FormatFault::IllegalWire { position: i }));
                }
                HWireOrLogic::HWire(*h_wire as usize)
            },
            Value::String(text) => match Logic::from_str(text.as_str()) {
                Some(logic) => HWireOrLogic::Logic(logic),
                None => {
                    return Err(
                        SimError::FormatError(FormatFault::IllegalWireConstant { position: i }),
                    );
                },
            },
            Value::Other => {
                return Err(SimError::FormatError(FormatFault::IllegalWire { position: i }));
            },
        };
        wires.push(wire);
        assert(rest.drop_first() == json_wires@.skip(i + 1));
        i += 1;
    }
    assert(wires@ =~= Seq::new(json_wires@.len(), |k: int| wire_of(json_wires@[k])->Some_0));
    Ok(inputs_from_vec(wires))
}

/// Why a cell or a port of a description cannot be mapped.
pub enum Fault {
    /// Something in the description is out of form.
    Format(FormatFault),
    /// No connection has the name.
    Missing(Seq<char>),
    /// The element at the position of an output is tied to a value.
    ConstantOutput(int),
}

/// The error that reports a fault.
pub open spec fn reports(error: SimError, fault: Fault) -> bool {
    match fault {
        Fault::Format(format) => error == SimError::FormatError(format),
        Fault::Missing(name) => error == (SimError::NotFound { name: error->name }) && error->name@
            == name,
        Fault::ConstantOutput(position) => 0 <= position <= usize::MAX && error
            == SimError::ConstructionError(
            ConstructionFault::ConstantOutput { position: position as usize },
        ),
    }
}

/// The port holds the name and the elements of the connection.
pub open spec fn is_in_port(port: CellInPort, connection: ConnectionView) -> bool {
    port.name@ == connection.name && port.wires@ == connection.wires
}

/// The port holds the name of the connection and the wires that are its
/// elements.
pub open spec fn is_out_port(port: CellOutPort, connection: ConnectionView) -> bool {
    port.name@ == connection.name && holds_wires(port.wires@, connection.wires)
}

/// The handles are those of the elements, which are all wires.
pub open spec fn holds_wires(h_wires: Seq<HWire>, wires: Seq<HWireOrLogic>) -> bool {
    &&& h_wires.len() == wires.len()
    &&& forall|i: int| 0 <= i < wires.len() ==>
        wires[i] == HWireOrLogic::HWire(#[trigger] h_wires[i])
}

/// What keeps the elements of a list from being the wires of an output.
pub open spec fn output_fault(wires: Seq<HWireOrLogic>) -> Option<Fault> {
    let at = HWireOrLogic::first_constant(wires);
    if at < wires.len() {
        Some(Fault::ConstantOutput(at))
    } else {
        None
    }
}

/// The connection with a name.
pub open spec fn named(connections: Seq<ConnectionView>, name: Seq<char>) -> ConnectionView {
    connections[first_connection(connections, name)]
}

/// No connection has the name.
pub open spec fn lacks(connections: Seq<ConnectionView>, name: Seq<char>) -> bool {
    first_connection(connections, name) == connections.len()
}

/// The connections of a cell whose description is in form.
pub open spec fn connected(json_cell: &Cell) -> Seq<ConnectionView> {
    connections_of(json_cell)->Ok_0
}

/// What keeps a description from being mapped onto a cell with the
/// connections `a` and `y`: a description out of form, a connection that is
/// missing, or an output that is tied. No widths are compared.
pub open spec fn fault_of_two(json_cell: &Cell, a: Seq<char>, y: Seq<char>) -> Option<Fault> {
    match connections_of(json_cell) {
        Err(fault) => Some(Fault::Format(fault)),
        Ok(connections) => if lacks(connections, a) {
            Some(Fault::Missing(a))
        } else if lacks(connections, y) {
            Some(Fault::Missing(y))
        } else {
            output_fault(named(connections, y).wires)
        },
    }
}

/// What keeps a description from being mapped onto a cell with the
/// connections `a`, `b` and `y`: a description out of form, a connection
/// that is missing, declared widths that differ, or an output that is tied.
/// The width of `a` is compared only where `with_first` says so.
pub open spec fn fault_of_three(
    json_cell: &Cell,
    a: Seq<char>,
    b: Seq<char>,
    y: Seq<char>,
    with_first: bool,
) -> Option<Fault> {
    match connections_of(json_cell) {
        Err(fault) => Some(Fault::Format(fault)),
        Ok(connections) => if lacks(connections, a) {
            Some(Fault::Missing(a))
        } else if lacks(connections, b) {
            Some(Fault::Missing(b))
        } else if lacks(connections, y) {
            Some(Fault::Missing(y))
        } else if (with_first && named(connections, a).width != named(connections, b).width)
            || named(connections, b).width != named(connections, y).width {
            Some(Fault::Format(FormatFault::WidthsNotMatching))
        } else {
            output_fault(named(connections, y).wires)
        },
    }
}

/// What keeps a description from being mapped onto a cell with the
/// connections `a`, `b`, `c` and `y`: a description out of form, a
/// connection that is missing, declared widths that differ, or an output
/// that is tied.
pub open spec fn fault_of_four(
    json_cell: &Cell,
    a: Seq<char>,
    b: Seq<char>,
    c: Seq<char>,
    y: Seq<char>,
) -> Option<Fault> {
    match connections_of(json_cell) {
        Err(fault) => Some(Fault::Format(fault)),
        Ok(connections) => if lacks(connections, a) {
            Some(Fault::Missing(a))
        } else if lacks(connections, b) {
            Some(Fault::Missing(b))
        } else if lacks(connections, c) {
            Some(Fault::Missing(c))
        } else if lacks(connections, y) {
            Some(Fault::Missing(y))
        } else if named(connections, a).width != named(connections, b).width || named(
            connections,
            b,
        ).width != named(connections, c).width || named(connections, c).width != named(
            connections,
            y,
        ).width {
            Some(Fault::Format(FormatFault::WidthsNotMatching))
        } else {
            output_fault(named(connections, y).wires)
        },
    }
}

/// What the mapping of a description onto a cell of two operands comes to.
pub open spec fn binary_parsed(
    cell_name: Seq<char>,
    json_cell: &Cell,
    names: (Seq<char>, Seq<char>, Seq<char>),
    op: BinaryMapOp,
    r: Result<model::Cell, SimError>,
) -> bool {
    match fault_of_three(json_cell, names.0, names.1, names.2, true) {
        Some(fault) => r matches Err(error) && reports(error, fault),
        None => {
            &&& r matches Ok(model::Cell::BinaryMapOpCell(cell))
            &&& cell.name@ == cell_name
            &&& cell.op == op
            &&& is_in_port(cell.port_a, named(connected(json_cell), names.0))
            &&& is_in_port(cell.port_b, named(connected(json_cell), names.1))
            &&& is_out_port(cell.port_y, named(connected(json_cell), names.2))
        },
    }
}

/// What the mapping of a description onto a cell of one operand comes to.
pub open spec fn unary_parsed(
    cell_name: Seq<char>,
    json_cell: &Cell,
    names: (Seq<char>, Seq<char>),
    op: UnaryMapOp,
    r: Result<model::Cell, SimError>,
) -> bool {
    match fault_of_two(json_cell, names.0, names.1) {
        Some(fault) => r matches Err(error) && reports(error, fault),
        None => {
            &&& r matches Ok(model::Cell::UnaryMapOpCell(cell))
            &&& cell.name@ == cell_name
            &&& cell.op == op
            &&& is_in_port(cell.port_a, named(connected(json_cell), names.0))
            &&& is_out_port(cell.port_y, named(connected(json_cell), names.1))
        },
    }
}

/// The edge that a flip-flop waits for: the one that is given, or else what
/// the polarity of the clock says, rising where it is above 0.
pub open spec fn edge_of(polarity: Option<Edge>, clock_polarity: u32) -> Edge {
    match polarity {
        Some(edge) => edge,
        None => if clock_polarity > 0 {
            Edge::POSITIVE
        } else {
            Edge::NEGATIVE
        },
    }
}

/// What the mapping of a description onto a flip-flop comes to; the width of
/// the clock is not compared.
pub open spec fn flipflop_parsed(
    cell_name: Seq<char>,
    json_cell: &Cell,
    names: (Seq<char>, Seq<char>, Seq<char>),
    polarity: Option<Edge>,
    r: Result<model::Cell, SimError>,
) -> bool {
    match fault_of_three(json_cell, names.0, names.1, names.2, false) {
        Some(fault) => r matches Err(error) && reports(error, fault),
        None => {
            &&& r matches Ok(model::Cell::DFlipFlopCell(cell))
            &&& cell.name@ == cell_name
            &&& cell.polarity == edge_of(polarity, named(connected(json_cell), names.0).polarity)
            &&& is_in_port(cell.port_clk, named(connected(json_cell), names.0))
            &&& is_in_port(cell.port_d, named(connected(json_cell), names.1))
            &&& is_out_port(cell.port_q, named(connected(json_cell), names.2))
        },
    }
}

/// What the mapping of a description onto an adder comes to.
pub open spec fn add_parsed(
    cell_name: Seq<char>,
    json_cell: &Cell,
    names: (Seq<char>, Seq<char>, Seq<char>),
    r: Result<model::Cell, SimError>,
) -> bool {
    match fault_of_three(json_cell, names.0, names.1, names.2, true) {
        Some(fault) => r matches Err(error) && reports(error, fault),
        None => {
            &&& r matches Ok(model::Cell::AddCell(cell))
            &&& cell.name@ == cell_name
            &&& is_in_port(cell.port_a, named(connected(json_cell), names.0))
            &&& is_in_port(cell.port_b, named(connected(json_cell), names.1))
            &&& is_out_port(cell.port_y, named(connected(json_cell), names.2))
        },
    }
}

/// What the mapping of a description onto a cell of three operands comes to.
pub open spec fn ternary_parsed(
    cell_name: Seq<char>,
    json_cell: &Cell,
    names: (Seq<char>, Seq<char>, Seq<char>, Seq<char>),
    op: TernaryMapOp,
    r: Result<model::Cell, SimError>,
) -> bool {
    match fault_of_four(json_cell, names.0, names.1, names.2, names.3) {
        Some(fault) => r matches Err(error) && reports(error, fault),
        None => {
            &&& r matches Ok(model::Cell::TernaryMapOpCell(cell))
            &&& cell.name@ == cell_name
            &&& cell.op == op
            &&& is_in_port(cell.port_a, named(connected(json_cell), names.0))
            &&& is_in_port(cell.port_b, named(connected(json_cell), names.1))
            &&& is_in_port(cell.port_c, named(connected(json_cell), names.2))
            &&& is_out_port(cell.port_y, named(connected(json_cell), names.3))
        },
    }
}

/// The connection as an input port.
fn in_port(connection: &Connection) -> (port: CellInPort)
    ensures
        is_in_port(port, connection@),
{
    CellInPort {
        name: connection.name.to_owned(),
        wires: inputs_from_vec(slice_to_vec(inputs_as_slice(&connection.wires))),
        dir: PhantomData,
    }
}

/// The connection as an output port, if none of its elements is tied.
fn out_port(connection: &Connection) -> (r: Result<CellOutPort, SimError>)
    ensures
        match output_fault(connection@.wires) {
            Some(fault) => r matches Err(error) && reports(error, fault),
            None => r matches Ok(port) && is_out_port(port, connection@),
        },
{
    connection.to_out_port()
}

/// The cell of two operands that a description stands for, with its
/// connections found under the given names.
pub fn parse_binary(
    cell_name: &str,
    json_cell: &Cell,
    connection_names: (&str, &str, &str),
    op: BinaryMapOp,
) -> (r: Result<model::Cell, SimError>)
    ensures
        binary_parsed(
            cell_name@,
            json_cell,
            (connection_names.0@, connection_names.1@, connection_names.2@),
            op,
            r,
        ),
{
    let ghost fault = fault_of_three(
        json_cell,
        connection_names.0@,
        connection_names.1@,
        connection_names.2@,
        true,
    );
    let connections = match parse_connections(json_cell) {
        Ok(connections) => connections,
        Err(error) => {
            assert(fault == Some(Fault::Format(connections_of(json_cell)->Err_0)));
            return Err(error);
        },
    };
    let conn_a = match find_connection(&connections, connection_names.0) {
        Ok(connection) => connection,
        Err(error) => {
            assert(fault == Some(Fault::Missing(connection_names.0@)));
            return Err(error);
        },
    };
    let conn_b = match find_connection(&connections, connection_names.1) {
        Ok(connection) => connection,
        Err(error) => {
            assert(fault == Some(Fault::Missing(connection_names.1@)));
            return Err(error);
        },
    };
    let conn_y = match find_connection(&connections, connection_names.2) {
        Ok(connection) => connection,
        Err(error) => {
            assert(fault == Some(Fault::Missing(connection_names.2@)));
            return Err(error);
        },
    };
    if conn_a.width != conn_b.width || conn_b.width != conn_y.width {
        assert(fault == Some(Fault::Format(FormatFault::WidthsNotMatching)));
        return Err(SimError::FormatError(FormatFault::WidthsNotMatching));
    }
    assert(fault == output_fault(conn_y@.wires));
    let port_y = match out_port(conn_y) {
        Ok(port) => port,
        Err(error) => {
            return Err(error);
        },
    };
    Ok(
        model::Cell::BinaryMapOpCell(
            model::BinaryMapOpCell {
                name: cell_name.to_owned(),
                op,
                port_a: in_port(conn_a),
                port_b: in_port(conn_b),
                port_y,
            },
        ),
    )
}

/// The cell of one operand that a description stands for, with its
/// connections found under the given names.
pub fn parse_unary(
    cell_name: &str,
    json_cell: &Cell,
    connection_names: (&str, &str),
    op: UnaryMapOp,
) -> (r: Result<model::Cell, SimError>)
    ensures
        unary_parsed(cell_name@, json_cell, (connection_names.0@, connection_names.1@), op, r),
{
    let ghost fault = fault_of_two(json_cell, connection_names.0@, connection_names.1@);
    let connections = match parse_connections(json_cell) {
        Ok(connections) => connections,
        Err(error) => {
            assert(fault == Some(Fault::Format(connections_of(json_cell)->Err_0)));
            return Err(error);
        },
    };
    let conn_a = match find_connection(&connections, connection_names.0) {
        Ok(connection) => connection,
        Err(error) => {
            assert(fault == Some(Fault::Missing(connection_names.0@)));
            return Err(error);
        },
    };
    let conn_y = match find_connection(&connections, connection_names.1) {
        Ok(connection) => connection,
        Err(error) => {
            assert(fault == Some(Fault::Missing(connection_names.1@)));
            return Err(error);
        },
    };
    assert(fault == output_fault(conn_y@.wires));
    let port_y = match out_port(conn_y) {
        Ok(port) => port,
        Err(error) => {
            return Err(error);
        },
    };
    Ok(
        model::Cell::UnaryMapOpCell(
            model::UnaryMapOpCell {
                name: cell_name.to_owned(),
                op,
                port_a: in_port(conn_a),
                port_y,
            },
        ),
    )
}

/// The flip-flop that a description stands for, with its connections found
/// under the given names; where no edge is given, the polarity of the
/// clock decides.
pub fn parse_flipflop(
    cell_name: &str,
    json_cell: &Cell,
    connection_names: (&str, &str, &str),
    polarity: Option<Edge>,
) -> (r: Result<model::Cell, SimError>)
    ensures
        flipflop_parsed(
            cell_name@,
            json_cell,
            (connection_names.0@, connection_names.1@, connection_names.2@),
            polarity,
            r,
        ),
{
    let ghost fault = fault_of_three(
        json_cell,
        connection_names.0@,
        connection_names.1@,
        connection_names.2@,
        false,
    );
    let connections = match parse_connections(json_cell) {
        Ok(connections) => connections,
        Err(error) => {
            assert(fault == Some(Fault::Format(connections_of(json_cell)->Err_0)));
            return Err(error);
        },
    };
    let conn_clk = match find_connection(&connections, connection_names.0) {
        Ok(connection) => connection,
        Err(error) => {
            assert(fault == Some(Fault::Missing(connection_names.0@)));
            return Err(error);
        },
    };
    let conn_d = match find_connection(&connections, connection_names.1) {
        Ok(connection) => connection,
        Err(error) => {
            assert(fault == Some(Fault::Missing(connection_names.1@)));
            return Err(error);
        },
    };
    let conn_q = match find_connection(&connections, connection_names.2) {
        Ok(connection) => connection,
        Err(error) => {
            assert(fault == Some(Fault::Missing(connection_names.2@)));
            return Err(error);
        },
    };
    if conn_d.width != conn_q.width {
        assert(fault == Some(Fault::Format(FormatFault::WidthsNotMatching)));
        return Err(SimError::FormatError(FormatFault::WidthsNotMatching));
    }
    assert(fault == output_fault(conn_q@.wires));
    let port_q = match out_port(conn_q) {
        Ok(port) => port,
        Err(error) => {
            return Err(error);
        },
    };
    let polarity = match polarity {
        Some(edge) => edge,
        None => if conn_clk.polarity > 0 {
            Edge::POSITIVE
        } else {
            Edge::NEGATIVE
        },
    };
    Ok(
        model::Cell::DFlipFlopCell(
            model::DFlipFlopCell {
                name: cell_name.to_owned(),
                polarity,
                port_clk: in_port(conn_clk),
                port_d: in_port(conn_d),
                port_q,
            },
        ),
    )
}

/// The adder that a description stands for, with its connections found
/// under the given names.
pub fn parse_add(cell_name: &str, json_cell: &Cell, connection_names: (&str, &str, &str)) -> (r:
    Result<model::Cell, SimError>)
    ensures
        add_parsed(
            cell_name@,
            json_cell,
            (connection_names.0@, connection_names.1@, connection_names.2@),
            r,
        ),
{
    let ghost fault = fault_of_three(
        json_cell,
        connection_names.0@,
        connection_names.1@,
        connection_names.2@,
        true,
    );
    let connections = match parse_connections(json_cell) {
        Ok(connections) => connections,
        Err(error) => {
            assert(fault == Some(Fault::Format(connections_of(json_cell)->Err_0)));
            return Err(error);
        },
    };
    let conn_a = match find_connection(&connections, connection_names.0) {
        Ok(connection) => connection,
        Err(error) => {
            assert(fault == Some(Fault::Missing(connection_names.0@)));
            return Err(error);
        },
    };
    let conn_b = match find_connection(&connections, connection_names.1) {
        Ok(connection) => connection,
        Err(error) => {
            assert(fault == Some(Fault::Missing(connection_names.1@)));
            return Err(error);
        },
    };
    let conn_y = match find_connection(&connections, connection_names.2) {
        Ok(connection) => connection,
        Err(error) => {
            assert(fault == Some(Fault::Missing(connection_names.2@)));
            return Err(error);
        },
    };
    if conn_a.width != conn_b.width || conn_b.width != conn_y.width {
        assert(fault == Some(Fault::Format(FormatFault::WidthsNotMatching)));
        return Err(SimError::FormatError(FormatFault::WidthsNotMatching));
    }
    assert(fault == output_fault(conn_y@.wires));
    let port_y = match out_port(conn_y) {
        Ok(port) => port,
        Err(error) => {
            return Err(error);
        },
    };
    Ok(
        model::Cell::AddCell(
            model::AddCell {
                name: cell_name.to_owned(),
                port_a: in_port(conn_a),
                port_b: in_port(conn_b),
                port_y,
            },
        ),
    )
}

/// The cell of three operands that a description stands for, with its
/// connections found under the given names.
pub fn parse_ternary(
    cell_name: &str,
    json_cell: &Cell,
    connection_names: (&str, &str, &str, &str),
    op: TernaryMapOp,
) -> (r: Result<model::Cell, SimError>)
    ensures
        ternary_parsed(
            cell_name@,
            json_cell,
            (
                connection_names.0@,
                connection_names.1@,
                connection_names.2@,
                connection_names.3@,
            ),
            op,
            r,
        ),
{
    let ghost fault = fault_of_four(
        json_cell,
        connection_names.0@,
        connection_names.1@,
        connection_names.2@,
        connection_names.3@,
    );
    let connections = match parse_connections(json_cell) {
        Ok(connections) => connections,
        Err(error) => {
            assert(fault == Some(Fault::Format(connections_of(json_cell)->Err_0)));
            return Err(error);
        },
    };
    let conn_a = match find_connection(&connections, connection_names.0) {
        Ok(connection) => connection,
        Err(error) => {
            assert(fault == Some(Fault::Missing(connection_names.0@)));
            return Err(error);
        },
    };
    let conn_b = match find_connection(&connections, connection_names.1) {
        Ok(connection) => connection,
        Err(error) => {
            assert(fault == Some(Fault::Missing(connection_names.1@)));
            return Err(error);
        },
    };
    let conn_c = match find_connection(&connections, connection_names.2) {
        Ok(connection) => connection,
        Err(error) => {
            assert(fault == Some(Fault::Missing(connection_names.2@)));
            return Err(error);
        },
    };
    let conn_y = match find_connection(&connections, connection_names.3) {
        Ok(connection) => connection,
        Err(error) => {
            assert(fault == Some(Fault::Missing(connection_names.3@)));
            return Err(error);
        },
    };
    if conn_a.width != conn_b.width || conn_b.width != conn_c.width || conn_c.width
        != conn_y.width {
        assert(fault == Some(Fault::Format(FormatFault::WidthsNotMatching)));
        return Err(SimError::FormatError(FormatFault::WidthsNotMatching));
    }
    assert(fault == output_fault(conn_y@.wires));
    let port_y = match out_port(conn_y) {
        Ok(port) => port,
        Err(error) => {
            return Err(error);
        },
    };
    Ok(
        model::Cell::TernaryMapOpCell(
            model::TernaryMapOpCell {
                name: cell_name.to_owned(),
                op,
                port_a: in_port(conn_a),
                port_b: in_port(conn_b),
                port_c: in_port(conn_c),
                port_y,
            },
        ),
    )
}

/// What the mapping of the description of a cell onto a cell comes to: the
/// kind of the description decides on the kind of cell, on its operator and
/// on the names under which its connections are found.
pub open spec fn cell_parsed(cell_name: Seq<char>, json_cell: &Cell, r: Result<
    model::Cell,
    SimError,
>) -> bool {
    match json_cell.cell_type {
        CellType::AND | CellType::SyntAND => binary_parsed(
            cell_name,
            json_cell,
            ("A"@, "B"@, "Y"@),
            BinaryMapOp::AND,
            r,
        ),
        CellType::OR | CellType::SyntOR => binary_parsed(
            cell_name,
            json_cell,
            ("A"@, "B"@, "Y"@),
            BinaryMapOp::OR,
            r,
        ),
        CellType::NOT | CellType::SyntNOT => unary_parsed(
            cell_name,
            json_cell,
            ("A"@, "Y"@),
            UnaryMapOp::NOT,
            r,
        ),
        CellType::DFF => flipflop_parsed(cell_name, json_cell, ("CLK"@, "D"@, "Q"@), None, r),
        CellType::Add => add_parsed(cell_name, json_cell, ("A"@, "B"@, "Y"@), r),
        CellType::SyntDFFPos => flipflop_parsed(
            cell_name,
            json_cell,
            ("C"@, "D"@, "Q"@),
            Some(Edge::POSITIVE),
            r,
        ),
        CellType::SyntNAND => binary_parsed(
            cell_name,
            json_cell,
            ("A"@, "B"@, "Y"@),
            BinaryMapOp::NAND,
            r,
        ),
        CellType::SyntNOR => binary_parsed(
            cell_name,
            json_cell,
            ("A"@, "B"@, "Y"@),
            BinaryMapOp::NOR,
            r,
        ),
        CellType::SyntXOR => binary_parsed(
            cell_name,
            json_cell,
            ("A"@, "B"@, "Y"@),
            BinaryMapOp::XOR,
            r,
        ),
        CellType::SyntXNOR => binary_parsed(
            cell_name,
            json_cell,
            ("A"@, "B"@, "Y"@),
            BinaryMapOp::XNOR,
            r,
        ),
        CellType::SyntAND_NOT => binary_parsed(
            cell_name,
            json_cell,
            ("A"@, "B"@, "Y"@),
            BinaryMapOp::AND_NOT,
            r,
        ),
        CellType::SyntOR_NOT => binary_parsed(
            cell_name,
            json_cell,
            ("A"@, "B"@, "Y"@),
            BinaryMapOp::OR_NOT,
            r,
        ),
        CellType::SyntAOI3 => ternary_parsed(
            cell_name,
            json_cell,
            ("A"@, "B"@, "C"@, "Y"@),
            TernaryMapOp::AND_OR_INV,
            r,
        ),
        CellType::SyntOAI3 => ternary_parsed(
            cell_name,
            json_cell,
            ("A"@, "B"@, "C"@, "Y"@),
            TernaryMapOp::OR_AND_INV,
            r,
        ),
    }
}

/// The cell that the description of a cell stands for.
pub fn parse_cell(cell_name: &str, json_cell: &Cell) -> (r: Result<model::Cell, SimError>)
    ensures
        cell_parsed(cell_name@, json_cell, r),
{
    match json_cell.cell_type {
        CellType::AND | CellType::SyntAND => parse_binary(
            cell_name,
            json_cell,
            ("A", "B", "Y"),
            BinaryMapOp::AND,
        ),
        CellType::OR | CellType::SyntOR => parse_binary(
            cell_name,
            json_cell,
            ("A", "B", "Y"),
            BinaryMapOp::OR,
        ),
        CellType::NOT | CellType::SyntNOT => parse_unary(
            cell_name,
            json_cell,
            ("A", "Y"),
            UnaryMapOp::NOT,
        ),
        CellType::DFF => parse_flipflop(cell_name, json_cell, ("CLK", "D", "Q"), None),
        CellType::Add => parse_add(cell_name, json_cell, ("A", "B", "Y")),
        CellType::SyntDFFPos => parse_flipflop(
            cell_name,
            json_cell,
            ("C", "D", "Q"),
            Some(Edge::POSITIVE),
        ),
        CellType::SyntNAND => parse_binary(cell_name, json_cell, ("A", "B", "Y"),
            BinaryMapOp::NAND),
        CellType::SyntNOR => parse_binary(cell_name, json_cell, ("A", "B", "Y"), BinaryMapOp::NOR),
        CellType::SyntXOR => parse_binary(cell_name, json_cell, ("A", "B", "Y"), BinaryMapOp::XOR),
        CellType::SyntXNOR => parse_binary(cell_name, json_cell, ("A", "B", "Y"),
            BinaryMapOp::XNOR),
        CellType::SyntAND_NOT => parse_binary(
            cell_name,
            json_cell,
            ("A", "B", "Y"),
            BinaryMapOp::AND_NOT,
        ),
        CellType::SyntOR_NOT => parse_binary(
            cell_name,
            json_cell,
            ("A", "B", "Y"),
            BinaryMapOp::OR_NOT,
        ),
        CellType::SyntAOI3 => parse_ternary(
            cell_name,
            json_cell,
            ("A", "B", "C", "Y"),
            TernaryMapOp::AND_OR_INV,
        ),
        CellType::SyntOAI3 => parse_ternary(
            cell_name,
            json_cell,
            ("A", "B", "C", "Y"),
            TernaryMapOp::OR_AND_INV,
        ),
    }
}

/// What keeps the description of a cell from being mapped onto a cell.
pub open spec fn cell_fault(json_cell: &Cell) -> Option<Fault> {
    match json_cell.cell_type {
        CellType::NOT | CellType::SyntNOT => fault_of_two(json_cell, "A"@, "Y"@),
        CellType::DFF => fault_of_three(json_cell, "CLK"@, "D"@, "Q"@, false),
        CellType::SyntDFFPos => fault_of_three(json_cell, "C"@, "D"@, "Q"@, false),
        CellType::SyntAOI3 | CellType::SyntOAI3 => fault_of_four(
            json_cell,
            "A"@,
            "B"@,
            "C"@,
            "Y"@,
        ),
        _ => fault_of_three(json_cell, "A"@, "B"@, "Y"@, true),
    }
}

/// A description is mapped onto a cell exactly if nothing keeps it from
/// that, and else the error reports what does.
pub proof fn lemma_cell_outcome(cell_name: Seq<char>, json_cell: &Cell, r: Result<
    model::Cell,
    SimError,
>)
    requires
        cell_parsed(cell_name, json_cell, r),
    ensures
        r is Ok <==> cell_fault(json_cell) is None,
        r matches Err(error) ==> reports(error, cell_fault(json_cell)->Some_0),
{
}

/// What keeps the description of a port of a module from being mapped onto
/// a port: a list of wires out of form, or an element that is tied.
pub open spec fn port_fault(json_port: &Port) -> Option<Fault> {
    match wires_of(json_port.bits@) {
        Err(fault) => Some(Fault::Format(fault)),
        Ok(wires) => output_fault(wires),
    }
}

/// The port holds the name and the wires of the description.
pub open spec fn is_port<D: Dir>(port: model::Port<D, HWire>, entry: (String, Port)) -> bool {
    port.name@ == entry.0@ && holds_wires(port.wires@, wires_of(entry.1.bits@)->Ok_0)
}

/// The positions of the ports of a direction among the first `upto`
/// described ports, in their order.
pub open spec fn positions(entries: Seq<(String, Port)>, direction: PortDirection,
    upto: int) -> Seq<
    int,
>
    decreases upto,
{
    if upto <= 0 {
        Seq::empty()
    } else if entries[upto - 1].1.direction == direction {
        positions(entries, direction, upto - 1).push(upto - 1)
    } else {
        positions(entries, direction, upto - 1)
    }
}

/// The ports are those of a direction among the first `upto` described
/// ports, in their order.
pub open spec fn are_ports<D: Dir>(
    ports: Seq<model::Port<D, HWire>>,
    entries: Seq<(String, Port)>,
    direction: PortDirection,
    upto: int,
) -> bool {
    let at = positions(entries, direction, upto);
    &&& ports.len() == at.len()
    &&& forall|i: int|
        #![trigger ports[i]]
        #![trigger at[i]]
        0 <= i < ports.len() ==> 0 <= at[i] < upto && is_port(ports[i], entries[at[i]])
}

/// Nothing keeps any of the first `upto` described ports from being mapped.
pub open spec fn ports_fit(entries: Seq<(String, Port)>, upto: int) -> bool {
    forall|i: int| 0 <= i < upto ==> port_fault(&(#[trigger] entries[i]).1) is None
}

/// Nothing keeps any of the first `upto` described cells from being mapped.
pub open spec fn cells_fit(entries: Seq<(String, Cell)>, upto: int) -> bool {
    forall|i: int| 0 <= i < upto ==> cell_fault(&(#[trigger] entries[i]).1) is None
}

/// The error reports what keeps the first described port that does not
/// fit from being mapped, or, where all ports fit, the first such cell.
pub open spec fn module_fails(json_module: &Module, error: SimError) -> bool {
    let ports = json_module.ports@;
    let cells = json_module.cells@;
    ||| exists|p: int|
        0 <= p < ports.len() && ports_fit(ports, p) && port_fault(&(#[trigger] ports[p]).1) is Some
            && reports(error, port_fault(&ports[p].1)->Some_0)
    ||| ports_fit(ports, ports.len() as int) && exists|c: int|
        0 <= c < cells.len() && cells_fit(cells, c) && cell_fault(&(#[trigger] cells[c]).1) is Some
            && reports(error, cell_fault(&cells[c].1)->Some_0)
}

/// Nothing keeps the description of a module from being mapped.
pub open spec fn module_fits(json_module: &Module) -> bool {
    ports_fit(json_module.ports@, json_module.ports@.len() as int) && cells_fit(
        json_module.cells@,
        json_module.cells@.len() as int,
    )
}

/// What the mapping of the description of a module onto a module comes to:
/// the module has the name, the described input ports as its input ports
/// and the described output ports as its output ports, each in their order,
/// and a cell for every described cell, in their order.
pub open spec fn module_parsed(name: Seq<char>, json_module: &Module, r: Result<
    model::Module,
    SimError,
>) -> bool {
    match r {
        Ok(module) => {
            &&& module_fits(json_module)
            &&& module.name@ == name
            &&& are_ports(
                module.in_ports@,
                json_module.ports@,
                PortDirection::Input,
                json_module.ports@.len() as int,
            )
            &&& are_ports(
                module.out_ports@,
                json_module.ports@,
                PortDirection::Output,
                json_module.ports@.len() as int,
            )
            &&& module.cells@.len() == json_module.cells@.len()
            &&& forall|i: int|
                0 <= i < module.cells@.len() ==> cell_parsed(
                    json_module.cells@[i].0@,
                    &json_module.cells@[i].1,
                    Ok(#[trigger] module.cells@[i]),
                )
        },
        Err(error) => module_fails(json_module, error),
    }
}

/// The ports of a direction among the described ports stay what they are
/// when the next described port has another direction, and get one more port
/// behind them when it has the direction.
pub proof fn lemma_ports_step<D: Dir>(
    before: Seq<model::Port<D, HWire>>,
    after: Seq<model::Port<D, HWire>>,
    entries: Seq<(String, Port)>,
    direction: PortDirection,
    upto: int,
)
    requires
        0 <= upto < entries.len(),
        are_ports(before, entries, direction, upto),
        entries[upto].1.direction != direction ==> after == before,
        entries[upto].1.direction == direction ==> after.len() == before.len() + 1
            && after.drop_last() == before && is_port(after.last(), entries[upto]),
    ensures
        are_ports(after, entries, direction, upto + 1),
{
    let at = positions(entries, direction, upto + 1);
    let at_before = positions(entries, direction, upto);
    assert forall|i: int|
        #![trigger after[i]]
        #![trigger at[i]]
        0 <= i < after.len() implies 0 <= at[i] < upto + 1 && is_port(after[i], entries[at[i]]) by {
        if i < before.len() {
            assert(after[i] == before[i]);
            assert(at[i] == at_before[i]);
        } else {
            assert(after[i] == after.last());
            assert(at[i] == upto);
        }
    }
}

/// The wires of a described port of a module.
fn parse_port_wires(json_port: &Port) -> (r: Result<Vec4<HWire>, SimError>)
    ensures
        match port_fault(json_port) {
            Some(fault) => r matches Err(error) && reports(error, fault),
            None => r matches Ok(list) && holds_wires(list@, wires_of(json_port.bits@)->Ok_0),
        },
{
    let wires = match parse_wires(&json_port.bits) {
        Ok(wires) => wires,
        Err(error) => {
            return Err(error);
        },
    };
    HWireOrLogic::only_HWires(inputs_as_slice(&wires))
}

/// The module that a description stands for.
pub fn parse_module(name: &str, json_module: &Module) -> (r: Result<model::Module, SimError>)
    ensures
        module_parsed(name@, json_module, r),
{
    let mut cells: Vec<model::Cell> = Vec::new();
    let mut in_ports: Vec<model::ModuleInPort> = Vec::new();
    let mut out_ports: Vec<model::ModuleOutPort> = Vec::new();
    let ghost ports = json_module.ports@;

    let mut p: usize = 0;
    while p < json_module.ports.len()
        invariant
            p <= ports.len(),
            ports == json_module.ports@,
            ports_fit(ports, p as int),
            are_ports(in_ports@, ports, PortDirection::Input, p as int),
            are_ports(out_ports@, ports, PortDirection::Output, p as int),
        decreases ports.len() - p,
    {
        let entry = &json_module.ports[p];
        let wires = match parse_port_wires(&entry.1) {
            Ok(wires) => wires,
            Err(error) => {
                return Err(error);
            },
        };
        let ghost ins_before = in_ports@;
        let ghost outs_before = out_ports@;
        match entry.1.direction {
            PortDirection::Input => {
                in_ports.push(model::Port { name: entry.0.clone(), wires, dir: PhantomData });
            },
            PortDirection::Output => {
                out_ports.push(model::Port { name: entry.0.clone(), wires, dir: PhantomData });
            },
        }
        proof {
            assert(ports[p as int] == *entry);
            assert(in_ports@.drop_last() =~= ins_before || in_ports@ == ins_before);
            assert(out_ports@.drop_last() =~= outs_before || out_ports@ == outs_before);
            lemma_ports_step(ins_before, in_ports@, ports, PortDirection::Input, p as int);
            lemma_ports_step(outs_before, out_ports@, ports, PortDirection::Output, p as int);
        }
        p += 1;
    }
    let ghost described = json_module.cells@;
    let mut c: usize = 0;
    while c < json_module.cells.len()
        invariant
            c <= described.len(),
            described == json_module.cells@,
            ports == json_module.ports@,
            ports_fit(ports, ports.len() as int),
            cells_fit(described, c as int),
            cells@.len() == c,
            forall|i: int|
                0 <= i < c ==> cell_parsed(described[i].0@, &described[i].1,
                    Ok(#[trigger] cells@[i])),
        decreases described.len() - c,
    {
        let entry = &json_module.cells[c];
        let parsed = parse_cell(entry.0.as_str(), &entry.1);
        proof {
            lemma_cell_outcome(entry.0@, &entry.1, parsed);
        }
        let cell = match parsed {
            Ok(cell) => cell,
            Err(error) => {
                return Err(error);
            },
        };
        cells.push(cell);
        c += 1;
    }
    Ok(model::Module { name: name.to_owned(), cells, in_ports, out_ports })
}

/// The error reports what keeps the first described module that does not
/// fit from being mapped.
pub open spec fn netlist_fails(json_netlist: &Netlist, error: SimError) -> bool {
    let modules = json_netlist.modules@;
    exists|m: int|
        0 <= m < modules.len() && (forall|i: int| 0 <= i < m ==>
            module_fits(&(#[trigger] modules[i]).1))
            && module_fails(&(#[trigger] modules[m]).1, error)
}

/// The modules that a netlist description stands for, in the order of the
/// description.
pub fn parse_netlist(json_netlist: &Netlist) -> (r: Result<Vec<model::Module>, SimError>)
    ensures
        match r {
            Ok(modules) => {
                &&& modules@.len() == json_netlist.modules@.len()
                &&& forall|i: int|
                    0 <= i < modules@.len() ==> module_parsed(
                        json_netlist.modules@[i].0@,
                        &json_netlist.modules@[i].1,
                        Ok(#[trigger] modules@[i]),
                    )
            },
            Err(error) => netlist_fails(json_netlist, error),
        },
{
    let mut modules: Vec<model::Module> = Vec::new();
    let ghost described = json_netlist.modules@;
    let mut m: usize = 0;
    while m < json_netlist.modules.len()
        invariant
            m <= described.len(),
            described == json_netlist.modules@,
            modules@.len() == m,
            forall|i: int| 0 <= i < m ==> module_fits(&(#[trigger] described[i]).1),
            forall|i: int|
                0 <= i < m ==> module_parsed(
                    described[i].0@,
                    &described[i].1,
                    Ok(#[trigger] modules@[i]),
                ),
        decreases described.len() - m,
    {
        let entry = &json_netlist.modules[m];
        let module = match parse_module(entry.0.as_str(), &entry.1) {
            Ok(module) => module,
            Err(error) => {
                assert(module_fails(&described[m as int].1, error));
                return Err(error);
            },
        };
        modules.push(module);
        m += 1;
    }
    Ok(modules)
}

} // verus!
