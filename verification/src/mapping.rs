//! The correspondence between guest function indices and supervisor function indices.

use vstd::prelude::*;

verus! {

/// Index of a function inside the supervisor.
///
/// This is typically an index in the default table of the supervisor, however the exact meaning
/// of this index depends on the implementation of the dispatch function.
#[derive(Copy, Clone, Debug, PartialEq, Eq, Structural)]
pub struct SupervisorFuncIndex(pub usize);

impl From<SupervisorFuncIndex> for usize {
    fn from(index: SupervisorFuncIndex) -> (r: usize) {
        index.0
    }
}

impl vstd::std_specs::convert::FromSpecImpl<SupervisorFuncIndex> for usize {
    open spec fn obeys_from_spec() -> bool {
        true
    }

    open spec fn from_spec(index: SupervisorFuncIndex) -> usize {
        index.0
    }
}

/// Index of a function within the guest index space.
///
/// This is the index by which an engine asks for a host function.
#[derive(Copy, Clone, Debug, PartialEq, Eq, Structural)]
pub struct GuestFuncIndex(pub usize);

/// This struct holds a mapping from the guest index space to the supervisor.
pub struct GuestToSupervisorFunctionMapping {
    /// Positions of elements in this vector are interpreted as indices of guest functions and
    /// are mapped to the corresponding supervisor function indices.
    pub funcs: Vec<SupervisorFuncIndex>,
}

impl View for GuestToSupervisorFunctionMapping {
    type V = Seq<SupervisorFuncIndex>;

    open spec fn view(&self) -> Seq<SupervisorFuncIndex> {
        self.funcs@
    }
}

/// The supervisor function that stands at guest index `guest_func_idx` of `funcs`.
pub open spec fn supervisor_func(
    funcs: Seq<SupervisorFuncIndex>,
    guest_func_idx: GuestFuncIndex,
) -> Option<SupervisorFuncIndex> {
    if guest_func_idx.0 < funcs.len() {
        Some(funcs[guest_func_idx.0 as int])
    } else {
        None
    }
}

impl GuestToSupervisorFunctionMapping {
    /// Create an empty function mapping.
    pub fn new() -> (r: GuestToSupervisorFunctionMapping)
        ensures
            r@ == Seq::<SupervisorFuncIndex>::empty(),
    {
        GuestToSupervisorFunctionMapping { funcs: Vec::new() }
    }

    /// Add a new supervisor function to the mapping.
    /// Returns a newly assigned guest function index.
    pub fn define(&mut self, supervisor_func: SupervisorFuncIndex) -> (r: GuestFuncIndex)
        ensures
            final(self)@ == old(self)@.push(supervisor_func),
            r.0 == old(self)@.len(),
    {
        let idx: usize = self.funcs.len();
        self.funcs.push(supervisor_func);
        GuestFuncIndex(idx)
    }

    /// Find a supervisor function index by its corresponding guest function index.
    pub fn func_by_guest_index(&self, guest_func_idx: GuestFuncIndex) -> (r: Option<
        SupervisorFuncIndex,
    >)
        ensures
            r == supervisor_func(self@, guest_func_idx),
    {
        if guest_func_idx.0 < self.funcs.len() {
            Some(self.funcs[guest_func_idx.0])
        } else {
            None
        }
    }
}

/// The guest index that `define` hands out finds the function that was defined, and every index
/// handed out before finds what it found before.
pub proof fn law_defined_function_is_found(
    funcs: Seq<SupervisorFuncIndex>,
    supervisor_func_idx: SupervisorFuncIndex,
    assigned: GuestFuncIndex,
    earlier: GuestFuncIndex,
)
    requires
        assigned.0 == funcs.len(),
        earlier.0 < funcs.len(),
    ensures
        supervisor_func(funcs.push(supervisor_func_idx), assigned) == Some(supervisor_func_idx),
        supervisor_func(funcs.push(supervisor_func_idx), earlier) == supervisor_func(
            funcs,
            earlier,
        ),
{
}

} // verus!
