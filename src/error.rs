use vstd::prelude::*;

verus! {

/// Why an input could not be turned into a circuit assignment.
#[derive(Debug, Clone, Copy, PartialEq, Eq, Structural)]
pub enum InputError {
    /// A field is absent from the input document or has the wrong shape.
    AssignmentMissing,
    /// A value does not fit in the circuit's field.
    Unsatisfiable,
}

} // verus!
