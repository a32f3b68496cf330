use vstd::prelude::*;

verus! {

/// Why an attack could not be armed.
#[derive(Clone, Copy, Debug, PartialEq, Eq, Structural)]
pub enum AttackError {
    /// The program holds more instructions than the machine has slots.
    AttackToLong,
}

} // verus!
