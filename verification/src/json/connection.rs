use crate::common::collections::inputs_as_slice;
use crate::common::collections::inputs_from_vec;
use crate::common::has_name::str_eq;
use crate::common::ArgumentFault;
use crate::common::ConstructionFault;
use crate::common::FormatFault;
use crate::common::HasName;
use crate::common::SimError;
use crate::common::Vec4;
use crate::json::parser::parse_wires;
use crate::json::parser::wires_of;
use crate::json::Cell;
use crate::json::PortDirection;
use crate::json::Value;
use crate::model::CellInPort;
use crate::model::CellOutPort;
use crate::model::HWireOrLogic;
use std::marker::PhantomData;
use vstd::prelude::*;
use vstd::slice::slice_to_vec;

verus! {

/// A connection of a cell of a netlist description: the wires under a name,
/// and what the description says of them.
pub struct Connection<'a> {
    pub name: &'a str,
    pub wires: Vec4<HWireOrLogic>,
    pub direction: PortDirection,
    pub signed: bool,
    pub polarity: u32,
    pub width: u32,
}

/// What a connection holds.
pub struct ConnectionView {
    pub name: Seq<char>,
    pub wires: Seq<HWireOrLogic>,
    pub direction: PortDirection,
    pub signed: bool,
    pub polarity: u32,
    pub width: u32,
}

impl View for Connection<'_> {
    type V = ConnectionView;

    open spec fn view(&self) -> ConnectionView {
        ConnectionView {
            name: self.name@,
            wires: self.wires@,
            direction: self.direction,
            signed: self.signed,
            polarity: self.polarity,
            width: self.width,
        }
    }
}

impl<'a> HasName for Connection<'a> {
    open spec fn name_chars(&self) -> Seq<char> {
        self.name@
    }

    fn name(&self) -> (name: &str) {
        self.name
    }
}

impl<'a> Connection<'a> {
    /// The connection as an input port of `L` elements, or of any number of
    /// elements where `L` is 0.
    pub fn to_in_port<const L: usize>(&self) -> (r: Result<CellInPort, SimError>)
        ensures
            L != 0 && self.wires@.len() != L ==> self.wires@.len() <= usize::MAX && r == Err::<
                CellInPort,
                SimError,
            >(
                SimError::InvalidArgument(
                    ArgumentFault::WrongWidth { requested: L, actual: self.wires@.len() as usize },
                ),
            ),
            L == 0 || self.wires@.len() == L ==> (r matches Ok(port) && port.name@ == self.name@
                && port.wires@ == self.wires@),
    {
        let wires = inputs_as_slice(&self.wires);
        if L != 0 && wires.len() != L {
            return Err(
                SimError::InvalidArgument(
                    ArgumentFault::WrongWidth { requested: L, actual: wires.len() },
                ),
            );
        }
        Ok(
            CellInPort {
                name: self.name.to_owned(),
                wires: inputs_from_vec(slice_to_vec(wires)),
                dir: PhantomData,
            },
        )
    }

    /// The connection as an output port; none of its elements may be tied.
    pub fn to_out_port(&self) -> (r: Result<CellOutPort, SimError>)
        ensures
            match r {
                Ok(port) => {
                    &&& HWireOrLogic::first_constant(self.wires@) == self.wires@.len()
                    &&& port.name@ == self.name@
                    &&& port.wires@.len() == self.wires@.len()
                    &&& forall|i: int|
                        0 <= i < self.wires@.len() ==> self.wires@[i] == HWireOrLogic::HWire(
                            #[trigger] port.wires@[i],
                        )
                },
                Err(error) => {
                    &&& 0 <= HWireOrLogic::first_constant(self.wires@) < self.wires@.len()
                        <= usize::MAX
                    &&& error == SimError::ConstructionError(
                        ConstructionFault::ConstantOutput {
                            position: HWireOrLogic::first_constant(self.wires@) as usize,
                        },
                    )
                },
            },
    {
        match HWireOrLogic::only_HWires(inputs_as_slice(&self.wires)) {
            Ok(wires) => Ok(CellOutPort { name: self.name.to_owned(), wires, dir: PhantomData }),
            Err(error) => Err(error),
        }
    }
}

/// The position of the first connection with a name, or the number of
/// connections where none has it.
pub open spec fn first_connection(connections: Seq<ConnectionView>, name: Seq<char>) -> int
    decreases connections.len(),
{
    if connections.len() == 0 {
        0
    } else if connections[0].name == name {
        0
    } else {
        1 + first_connection(connections.drop_first(), name)
    }
}

/// A list of connections with those that the description of a cell lists
/// entered behind it, each an input that is unsigned, of positive polarity
/// and one wire wide until the description says otherwise.
pub open spec fn listed(
    connections: Seq<ConnectionView>,
    entries: Seq<(String, Vec<Value>)>,
) -> Result<Seq<ConnectionView>, FormatFault>
    decreases entries.len(),
{
    if entries.len() == 0 {
        Ok(connections)
    } else {
        match wires_of(entries[0].1@) {
            Err(fault) => Err(fault),
            Ok(wires) => listed(
                connections.push(
                    ConnectionView {
                        name: entries[0].0@,
                        wires,
                        direction: PortDirection::Input,
                        signed: false,
                        polarity: 1,
                        width: 1,
                    },
                ),
                entries.drop_first(),
            ),
        }
    }
}

/// The connections after a direction was entered at the first connection
/// with the name, if there is one.
pub open spec fn with_direction(
    connections: Seq<ConnectionView>,
    name: Seq<char>,
    direction: PortDirection,
    position: usize,
) -> Result<Seq<ConnectionView>, FormatFault> {
    let at = first_connection(connections, name);
    if at == connections.len() {
        Err(FormatFault::DirectionWithoutConnection { position })
    } else {
        Ok(connections.update(at, ConnectionView { direction, ..connections[at] }))
    }
}

/// The connections after the directions that the description gives were
/// entered, one after the other; `position` is the position of the first
/// of them in the description.
pub open spec fn directed(
    connections: Seq<ConnectionView>,
    directions: Seq<(String, PortDirection)>,
    position: nat,
) -> Result<Seq<ConnectionView>, FormatFault>
    decreases directions.len(),
{
    if directions.len() == 0 {
        Ok(connections)
    } else {
        match with_direction(connections, directions[0].0@, directions[0].1, position as usize) {
            Err(fault) => Err(fault),
            Ok(after) => directed(after, directions.drop_first(), position + 1),
        }
    }
}

/// The name of a parameter in two parts, before and behind its first
/// underscore.
pub open spec fn in_two(key: Seq<char>, head: Seq<char>, tail: Seq<char>) -> bool {
    key == head + seq!['_'] + tail && !head.contains('_')
}

/// The connections after one parameter was entered. A parameter is named
/// by the name of a connection, an underscore and one of `SIGNED`, `WIDTH`
/// and `POLARITY`; a parameter `WIDTH` of the cell itself is passed over.
pub open spec fn with_parameter(
    connections: Seq<ConnectionView>,
    key: Seq<char>,
    value: Value,
    position: usize,
) -> Result<Seq<ConnectionView>, FormatFault> {
    if !key.contains('_') {
        if key == "WIDTH"@ {
            Ok(connections)
        } else {
            Err(FormatFault::UnrecognizedProperty { position })
        }
    } else {
        let (head, tail) = choose|head: Seq<char>, tail: Seq<char>| in_two(key, head, tail);
        let at = first_connection(connections, head);
        if at == connections.len() {
            Err(FormatFault::PropertyWithoutConnection { position })
        } else if tail == "SIGNED"@ {
            match value {
                Value::Number(number) => if number <= 1 {
                    Ok(
                        connections.update(
                            at,
                            ConnectionView { signed: number == 1, ..connections[at] },
                        ),
                    )
                } else {
                    Err(FormatFault::IllegalSigned { position })
                },
                _ => Err(FormatFault::IllegalSigned { position }),
            }
        } else if tail == "WIDTH"@ {
            match value {
                Value::Number(number) => Ok(
                    connections.update(
                        at,
                        ConnectionView { width: low_word(number), ..connections[at] },
                    ),
                ),
                _ => Err(FormatFault::IllegalWidth { position }),
            }
        } else if tail == "POLARITY"@ {
            match value {
                Value::Number(number) => Ok(
                    connections.update(
                        at,
                        ConnectionView { polarity: low_word(number), ..connections[at] },
                    ),
                ),
                _ => Err(FormatFault::IllegalPolarity { position }),
            }
        } else {
            Err(FormatFault::UnknownProperty { position })
        }
    }
}

/// The lower 32 bits of a number.
pub open spec fn low_word(number: u64) -> u32 {
    (number % 0x1_0000_0000) as u32
}

/// The connections after the parameters that the description gives were
/// entered, one after the other; `position` is the position of the first
/// of them in the description.
pub open spec fn configured(
    connections: Seq<ConnectionView>,
    parameters: Seq<(String, Value)>,
    position: nat,
) -> Result<Seq<ConnectionView>, FormatFault>
    decreases parameters.len(),
{
    if parameters.len() == 0 {
        Ok(connections)
    } else {
        match with_parameter(connections, parameters[0].0@, parameters[0].1, position as usize) {
            Err(fault) => Err(fault),
            Ok(after) => configured(after, parameters.drop_first(), position + 1),
        }
    }
}

/// The connections of a cell as its description gives them: the listed
/// connections with the directions and then the parameters entered, or
/// what is wrong with the first entry that does not fit.
pub open spec fn connections_of(json_cell: &Cell) -> Result<Seq<ConnectionView>, FormatFault> {
    match listed(Seq::empty(), json_cell.connections@) {
        Err(fault) => Err(fault),
        Ok(connections) => match directed(connections, json_cell.port_directions@, 0) {
            Err(fault) => Err(fault),
            Ok(connections) => configured(connections, json_cell.parameters@, 0),
        },
    }
}

/// The views of a list of connections.
pub open spec fn views(connections: Seq<Connection>) -> Seq<ConnectionView> {
    Seq::new(connections.len(), |i: int| connections[i]@)
}

/// `str::split_once` at an underscore: the parts of a text before and
/// behind its first underscore, or nothing where it has none.
#[verifier::external_body]
fn split_at_underscore(text: &str) -> (parts: Option<(&str, &str)>)
    ensures
        match parts {
            Some((head, tail)) => in_two(text@, head@, tail@),
            None => !text@.contains('_'),
        },
{
    text.split_once('_')
}

/// A text has one way only to fall in two at its first underscore.
pub proof fn lemma_in_two_unique(
    key: Seq<char>,
    head: Seq<char>,
    tail: Seq<char>,
    other_head: Seq<char>,
    other_tail: Seq<char>,
)
    requires
        in_two(key, head, tail),
        in_two(key, other_head, other_tail),
    ensures
        head == other_head,
        tail == other_tail,
        key.contains('_'),
{
    assert(key[head.len() as int] == '_');
    assert(key[other_head.len() as int] == '_');
    if head.len() < other_head.len() {
        assert(other_head[head.len() as int] == key[head.len() as int]);
        assert(other_head.contains('_'));
    }
    if other_head.len() < head.len() {
        assert(head[other_head.len() as int] == key[other_head.len() as int]);
        assert(head.contains('_'));
    }
    assert(head =~= key.take(head.len() as int));
    assert(other_head =~= key.take(head.len() as int));
    assert(tail =~= key.skip(head.len() as int + 1));
    assert(other_tail =~= key.skip(head.len() as int + 1));
}

/// The first connection with a name.
pub fn find_connection<'b, 'a>(connections: &'b Vec<Connection<'a>>, name: &str) -> (found: Result<
    &'b Connection<'a>,
    SimError,
>)
    ensures
        found_connection(views(connections@), name@, found),
{
    match position_of(connections, name) {
        Some(at) => Ok(&connections[at]),
        None => Err(SimError::NotFound { name: name.to_owned() }),
    }
}

/// What the search for a connection with a name comes to: the first
/// connection with the name, or that no connection has it.
pub open spec fn found_connection(
    connections: Seq<ConnectionView>,
    name: Seq<char>,
    found: Result<&Connection, SimError>,
) -> bool {
    let at = first_connection(connections, name);
    if at < connections.len() {
        found matches Ok(connection) && connection@ == connections[at]
    } else {
        at == connections.len() && is_not_found(found, name)
    }
}

/// The result is the error that nothing carries the name.
pub open spec fn is_not_found<T>(r: Result<T, SimError>, name: Seq<char>) -> bool {
    &&& r matches Err(error)
    &&& error == (SimError::NotFound { name: error->name })
    &&& error->name@ == name
}

/// The position of the first connection with a name.
fn position_of(connections: &Vec<Connection>, name: &str) -> (at: Option<usize>)
    ensures
        match at {
            Some(at) => at < connections@.len() && at == first_connection(
                views(connections@),
                name@,
            ),
            None => first_connection(views(connections@), name@) == connections@.len(),
        },
{
    let ghost all = views(connections@);
    let mut i: usize = 0;
    assert(all.skip(0) =~= all);
    while i < connections.len()
        invariant
            i <= connections@.len(),
            all == views(connections@),
            first_connection(all, name@) == i + first_connection(all.skip(i as int), name@),
        decreases connections@.len() - i,
    {
        let ghost rest = all.skip(i as int);
        assert(rest[0] == connections@[i as int]@);
        if str_eq(connections[i].name, name) {
            return Some(i);
        }
        assert(rest.drop_first() =~= all.skip(i + 1));
        i += 1;
    }
    None
}

/// The connections of a cell of a netlist description.
pub fn parse_connections(json_cell: &Cell) -> (r: Result<Vec<Connection>, SimError>)
    ensures
        match connections_of(json_cell) {
            Ok(expected) => r matches Ok(connections) && views(connections@) == expected,
            Err(fault) => r matches Err(error) && error == SimError::FormatError(fault),
        },
{
    let mut connections: Vec<Connection> = Vec::new();
    let ghost entries = json_cell.connections@;
    let mut i: usize = 0;
    assert(entries.skip(0) =~= entries);
    assert(views(connections@) =~= Seq::<ConnectionView>::empty());
    while i < json_cell.connections.len()
        invariant
            i <= entries.len(),
            connections@.len() == i,
            entries == json_cell.connections@,
            listed(Seq::empty(), entries) == listed(views(connections@), entries.skip(i as int)),
        decreases entries.len() - i,
    {
        let ghost rest = entries.skip(i as int);
        let ghost before = views(connections@);
        assert(rest[0] == entries[i as int]);
        let entry = &json_cell.connections[i];
        let wires = match parse_wires(&entry.1) {
            Ok(wires) => wires,
            Err(error) => {
                return Err(error);
            },
        };
        connections.push(
            Connection {
                name: entry.0.as_str(),
                wires,
                direction: PortDirection::Input,
                signed: false,
                polarity: 1,
                width: 1,
            },
        );
        proof {
            assert(rest.drop_first() =~= entries.skip(i + 1));
            assert(views(connections@) =~= before.push(connections@[i as int]@));
        }
        i += 1;
    }
    let ghost directions = json_cell.port_directions@;
    let ghost listed_all = views(connections@);
    let mut i: usize = 0;
    assert(directions.skip(0) =~= directions);
    while i < json_cell.port_directions.len()
        invariant
            i <= directions.len(),
            directions == json_cell.port_directions@,
            listed(Seq::empty(), json_cell.connections@) == Ok::<Seq<ConnectionView>, FormatFault>(
                listed_all,
            ),
            directed(listed_all, directions, 0) == directed(
                views(connections@),
                directions.skip(i as int),
                i as nat,
            ),
        decreases directions.len() - i,
    {
        let ghost rest = directions.skip(i as int);
        let ghost before = views(connections@);
        assert(rest[0] == directions[i as int]);
        let entry = &json_cell.port_directions[i];
        match position_of(&connections, entry.0.as_str()) {
            Some(at) => {
                connections[at].direction = entry.1;
            },
            None => {
                return Err(
                    SimError::FormatError(FormatFault::DirectionWithoutConnection { position: i }),
                );
            },
        }
        proof {
            assert(rest.drop_first() =~= directions.skip(i + 1));
            let at = first_connection(before, entry.0@);
            assert(views(connections@) =~= before.update(
                at,
                ConnectionView { direction: entry.1, ..before[at] },
            ));
        }
        i += 1;
    }
    let ghost parameters = json_cell.parameters@;
    let ghost directed_all = views(connections@);
    let mut i: usize = 0;
    assert(parameters.skip(0) =~= parameters);
    while i < json_cell.parameters.len()
        invariant
            i <= parameters.len(),
            parameters == json_cell.parameters@,
            listed(Seq::empty(), json_cell.connections@) == Ok::<Seq<ConnectionView>, FormatFault>(
                listed_all,
            ),
            directed(listed_all, json_cell.port_directions@, 0) == Ok::<
                Seq<ConnectionView>,
                FormatFault,
            >(directed_all),
            configured(directed_all, parameters, 0) == configured(
                views(connections@),
                parameters.skip(i as int),
                i as nat,
            ),
        decreases parameters.len() - i,
    {
        let ghost rest = parameters.skip(i as int);
        let ghost before = views(connections@);
        assert(rest[0] == parameters[i as int]);
        assert(rest.drop_first() =~= parameters.skip(i + 1));
        let entry = &json_cell.parameters[i];
        let parameter = entry.0.as_str();
        let (connection_name, parameter_name) = match split_at_underscore(parameter) {
            Some(parts) => parts,
            None => {
                if str_eq(parameter, "WIDTH") {
                    i += 1;
                    continue ;
                }
                return Err(
                    SimError::FormatError(FormatFault::UnrecognizedProperty { position: i }),
                );
            },
        };
        proof {
            let (head, tail) = choose|head: Seq<char>, tail: Seq<char>|
                in_two(parameter@, head, tail);
            lemma_in_two_unique(parameter@, connection_name@, parameter_name@, head, tail);
        }
        let at = match position_of(&connections, connection_name) {
            Some(at) => at,
            None => {
                return Err(
                    SimError::FormatError(FormatFault::PropertyWithoutConnection { position: i }),
                );
            },
        };
        if str_eq(parameter_name, "SIGNED") {
            connections[at].signed = match &entry.1 {
                Value::Number(0) => false,
                Value::Number(1) => true,
                _ => {
                    return Err(SimError::FormatError(FormatFault::IllegalSigned { position: i }));
                },
            };
            assert(views(connections@) =~= before.update(
                at as int,
                ConnectionView { signed: connections@[at as int].signed, ..before[at as int] },
            ));
        } else if str_eq(parameter_name, "WIDTH") {
            connections[at].width = match &entry.1 {
                Value::Number(number) => low_word_of(*number),
                _ => {
                    return Err(SimError::FormatError(FormatFault::IllegalWidth { position: i }));
                },
            };
            assert(views(connections@) =~= before.update(
                at as int,
                ConnectionView { width: connections@[at as int].width, ..before[at as int] },
            ));
        } else if str_eq(parameter_name, "POLARITY") {
            connections[at].polarity = match &entry.1 {
                Value::Number(number) => low_word_of(*number),
                _ => {
                    return Err(
                        SimError::FormatError(FormatFault::IllegalPolarity { position: i }),
                    );
                },
            };
            assert(views(connections@) =~= before.update(
                at as int,
                ConnectionView { polarity: connections@[at as int].polarity, ..before[at as int] },
            ));
        } else {
            return Err(SimError::FormatError(FormatFault::UnknownProperty { position: i }));
        }
        i += 1;
    }
    Ok(connections)
}

/// The lower 32 bits of a number.
fn low_word_of(number: u64) -> (word: u32)
    ensures
        word == low_word(number),
{
    (number % 0x1_0000_0000) as u32
}

} // verus!
