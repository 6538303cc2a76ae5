//! Locations in the witness: wire slots, public inputs, and virtual advice.

use vstd::prelude::*;

verus! {

/// The number of wire slots each gate instance owns.
pub const NUM_WIRES: usize = 9;

/// Wire slots below this index participate in the permutation argument.
pub const NUM_ROUTED_WIRES: usize = 6;

/// The number of constant (preprocessed) polynomials.
pub const NUM_CONSTANTS: usize = 6;

/// How many degree-bounded components the quotient polynomial is split into.
pub const QUOTIENT_POLYNOMIAL_DEGREE_MULTIPLIER: usize = 7;

/// One input/output slot of one gate instance.
#[derive(Copy, Clone, PartialEq, Eq, Structural, Debug)]
pub struct Wire {
    /// The position index of this slot's owning placement.
    pub gate: usize,
    /// The slot index within that instance.
    pub input: usize,
}

impl Wire {
    /// A wire participates in the permutation argument when its slot index
    /// lies in the routed range.
    pub fn is_routable(&self) -> (r: bool)
        ensures
            r == (self.input < NUM_ROUTED_WIRES),
    {
        self.input < NUM_ROUTED_WIRES
    }
}

/// A location in the witness.
#[derive(Copy, Clone, PartialEq, Eq, Structural, Debug)]
pub enum Target2 {
    Wire(Wire),
    PublicInput { index: usize },
    VirtualAdviceTarget { index: usize },
}

/// Whether a target may participate in the permutation (copy-constraint)
/// argument.
pub open spec fn routable(t: Target2) -> bool {
    match t {
        Target2::Wire(w) => w.input < NUM_ROUTED_WIRES,
        Target2::PublicInput { .. } => true,
        Target2::VirtualAdviceTarget { .. } => false,
    }
}

impl Target2 {
    /// The target for slot `input` of the placement at position `gate`.
    pub fn wire(gate: usize, input: usize) -> (r: Target2)
        ensures
            r == Target2::Wire(Wire { gate, input }),
    {
        Target2::Wire(Wire { gate, input })
    }

    pub fn is_routable(&self) -> (r: bool)
        ensures
            r == routable(*self),
    {
        match self {
            Target2::Wire(wire) => wire.is_routable(),
            Target2::PublicInput { .. } => true,
            Target2::VirtualAdviceTarget { .. } => false,
        }
    }
}

/// A staged public-input slot; its witness location is always routable.
#[derive(Copy, Clone, PartialEq, Eq, Structural, Debug)]
pub struct PublicInput {
    pub index: usize,
}

impl PublicInput {
    /// The witness location this public input occupies.
    pub fn routable_target(&self) -> (r: Target2)
        ensures
            r == (Target2::PublicInput { index: self.index }),
            routable(r),
    {
        Target2::PublicInput { index: self.index }
    }
}

} // verus!
