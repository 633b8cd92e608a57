use vstd::prelude::*;

verus! {

/// Controller button mask that ends the update loop (the Back button).
pub const EXIT_BUTTON: u16 = 0x1000;

/// Whether the polled button state asks for teardown.
pub fn exit_requested(buttons: u16) -> (r: bool)
    ensures
        r == (buttons & EXIT_BUTTON != 0),
{
    buttons & EXIT_BUTTON != 0
}

} // verus!
