use vstd::prelude::*;

verus! {

/// Whether an effect processes the sound or lets it through.
#[derive(Debug, Clone, Copy, PartialEq, Eq, Structural)]
pub enum State {
    Enabled,
    Disabled,
}

} // verus!
