use vstd::prelude::*;

verus! {

/// Messages seen so far, and the one picked for a closer look.
pub struct DebugState<M> {
    pub messages: Vec<M>,
    pub selected: Option<M>,
}

impl<M> DebugState<M> {
    pub fn new() -> (r: Self)
        ensures
            r.messages@.len() == 0,
            r.selected is None,
    {
        DebugState { messages: Vec::new(), selected: None }
    }
}

} // verus!
