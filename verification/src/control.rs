//! One flag, so the unload key is answerable no matter where the worker is.
//!
//! Setup can sit in a long metadata scan. Every long loop of the library takes
//! a poll of this flag and gives up as soon as the poll answers true.

use vstd::prelude::*;

verus! {

/// The cooperative abort flag. Once raised it is never lowered.
pub struct Control {
    pub abort: bool,
}

impl Control {
    pub fn new() -> (c: Self)
        ensures
            !c.abort,
    {
        Control { abort: false }
    }
}

pub fn request_abort(c: &mut Control)
    ensures
        final(c).abort,
{
    c.abort = true;
}

pub fn aborted(c: &Control) -> (r: bool)
    ensures
        r == c.abort,
{
    c.abort
}

} // verus!
