use vstd::prelude::*;

verus! {

/// The function that sees each command of the gamepad channel before it is
/// sent, and may change it.
pub struct CommandListener<F> {
    pub callback: F,
}

impl<F> CommandListener<F> {
    /// A listener that calls `callback`.
    pub fn new(callback: F) -> (listener: CommandListener<F>)
        ensures
            listener.callback == callback,
    {
        CommandListener { callback }
    }
}

} // verus!
