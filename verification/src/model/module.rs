use crate::common::find_by_name;
use crate::common::first_named;
use crate::common::ArgumentFault;
use crate::common::ConstructionFault;
use crate::common::HasName;
use crate::common::SimError;
use crate::model::Cell;
use crate::model::Dir;
use crate::model::HWire;
use crate::model::In;
use crate::model::Out;
use crate::model::Port;
use crate::sim::CellSimModel;
use vstd::prelude::*;

verus! {

/// A port through which values enter a module.
pub type ModuleInPort = Port<In, HWire>;

/// A port through which values leave a module.
pub type ModuleOutPort = Port<Out, HWire>;

/// A flat netlist: cells, and the ports through which the module is driven
/// and read.
#[derive(Debug, Clone)]
pub struct Module {
    pub name: String,
    pub cells: Vec<Cell>,
    pub in_ports: Vec<ModuleInPort>,
    pub out_ports: Vec<ModuleOutPort>,
}

/// What a lookup by name and width finds among ports: the first port with the
/// name, if it has the width.
pub open spec fn port_lookup<D: Dir>(
    ports: Seq<Port<D, HWire>>,
    name: Seq<char>,
    width: usize,
    found: Result<&Port<D, HWire>, SimError>,
) -> bool {
    let first = first_named(ports, name);
    if first == ports.len() {
        &&& found matches Err(error)
        &&& error == (SimError::NotFound { name: error->name })
        &&& error->name@ == name
    } else if ports[first].width() != width {
        &&& ports[first].width() <= usize::MAX
        &&& found == Err::<&Port<D, HWire>, SimError>(
            SimError::InvalidArgument(
                ArgumentFault::WrongWidth { requested: width,
                    actual: ports[first].width() as usize },
            ),
        )
    } else {
        &&& found matches Ok(port)
        &&& *port == ports[first]
    }
}

impl Module {
    /// The widths of the ports of every cell fit its kind.
    pub open spec fn widths_fit(&self) -> bool {
        forall|c: int| 0 <= c < self.cells@.len() ==> (#[trigger] self.cells@[c]).wf()
    }

    /// The widths of the ports of every cell fit its kind, and every wire
    /// handle leaves room to count the wires.
    pub open spec fn wf(&self) -> bool {
        &&& forall|c: int|
            0 <= c < self.cells@.len() ==> (#[trigger] self.cells@[c]).fits(usize::MAX as nat)
        &&& forall|p: int|
            0 <= p < self.in_ports@.len() ==> (#[trigger] self.in_ports@[p]).below(
                usize::MAX as nat,
            )
        &&& forall|p: int|
            0 <= p < self.out_ports@.len() ==> (#[trigger] self.out_ports@[p]).below(
                usize::MAX as nat,
            )
    }

    /// The error with which the check of a module fails: the first cell
    /// whose widths do not fit, or, where all widths fit, a wire handle that is
    /// too large.
    pub open spec fn validate_fails_with(&self, error: SimError) -> bool {
        ||| {
            &&& error matches SimError::ConstructionError(ConstructionFault::WidthMismatch { cell })
            &&& cell < self.cells@.len()
            &&& !self.cells@[cell as int].wf()
            &&& forall|c: int| 0 <= c < cell ==> (#[trigger] self.cells@[c]).wf()
        }
        ||| {
            &&& error == SimError::ConstructionError(ConstructionFault::WireOutOfRange)
            &&& self.widths_fit()
        }
    }

    /// Checks what a simulation takes for granted of a module: widths first,
    /// cell by cell, then the wire handles.
    pub fn validate(&self) -> (r: Result<(), SimError>)
        ensures
            r is Ok <==> self.wf(),
            r matches Err(error) ==> self.validate_fails_with(error),
    {
        let mut c: usize = 0;
        while c < self.cells.len()
            invariant
                c <= self.cells@.len(),
                forall|k: int| 0 <= k < c ==> (#[trigger] self.cells@[k]).wf(),
            decreases self.cells@.len() - c,
        {
            if !self.cells[c].check_widths() {
                return Err(
                    SimError::ConstructionError(ConstructionFault::WidthMismatch { cell: c }),
                );
            }
            c += 1;
        }
        let mut c: usize = 0;
        while c < self.cells.len()
            invariant
                c <= self.cells@.len(),
                self.widths_fit(),
                forall|k: int|
                    0 <= k < c ==> (#[trigger] self.cells@[k]).fits(usize::MAX as nat),
            decreases self.cells@.len() - c,
        {
            if !self.cells[c].is_below(usize::MAX) {
                return Err(SimError::ConstructionError(ConstructionFault::WireOutOfRange));
            }
            c += 1;
        }
        let mut p: usize = 0;
        while p < self.in_ports.len()
            invariant
                p <= self.in_ports@.len(),
                self.widths_fit(),
                forall|k: int|
                    0 <= k < p ==> (#[trigger] self.in_ports@[k]).below(usize::MAX as nat),
            decreases self.in_ports@.len() - p,
        {
            if !self.in_ports[p].is_below(usize::MAX) {
                return Err(SimError::ConstructionError(ConstructionFault::WireOutOfRange));
            }
            p += 1;
        }
        let mut p: usize = 0;
        while p < self.out_ports.len()
            invariant
                p <= self.out_ports@.len(),
                self.widths_fit(),
                forall|k: int|
                    0 <= k < p ==> (#[trigger] self.out_ports@[k]).below(usize::MAX as nat),
            decreases self.out_ports@.len() - p,
        {
            if !self.out_ports[p].is_below(usize::MAX) {
                return Err(SimError::ConstructionError(ConstructionFault::WireOutOfRange));
            }
            p += 1;
        }
        Ok(())
    }

    /// The input port with the name, if it is `L` wires wide.
    pub fn get_in_port<const L: usize>(&self, name: &str) -> (found: Result<&ModuleInPort,
        SimError>)
        ensures
            port_lookup(self.in_ports@, name@, L, found),
    {
        self.get_port_dynamic(self.in_ports.as_slice(), name, L)
    }

    /// The output port with the name, if it is `L` wires wide.
    pub fn get_out_port<const L: usize>(&self, name: &str) -> (found: Result<
        &ModuleOutPort,
        SimError,
    >)
        ensures
            port_lookup(self.out_ports@, name@, L, found),
    {
        self.get_port_dynamic(self.out_ports.as_slice(), name, L)
    }

    /// The first of the ports with the name, if it is `width` wires wide.
    pub fn get_port_dynamic<'a, D: Dir>(
        &self,
        ports: &'a [Port<D, HWire>],
        name: &str,
        width: usize,
    ) -> (found: Result<&'a Port<D, HWire>, SimError>)
        ensures
            port_lookup(ports@, name@, width, found),
    {
        let port = match find_by_name(ports, name) {
            Ok(port) => port,
            Err(error) => {
                return Err(error);
            },
        };
        let actual = port.items().len();
        if actual != width {
            return Err(
                SimError::InvalidArgument(ArgumentFault::WrongWidth { requested: width, actual }),
            );
        }
        Ok(port)
    }
}

impl HasName for Module {
    open spec fn name_chars(&self) -> Seq<char> {
        self.name@
    }

    fn name(&self) -> (name: &str) {
        self.name.as_str()
    }
}

} // verus!
