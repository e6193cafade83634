use vstd::prelude::*;

verus! {

/// Whether a stream renderer is writing what it receives.
#[derive(Debug, Clone, Copy, PartialEq, Eq, Structural)]
pub enum RenderState {
    Idle,
    Rendering,
}

} // verus!
