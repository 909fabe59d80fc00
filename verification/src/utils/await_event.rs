//! Bookkeeping for replies that a node still waits for.

use vstd::prelude::*;

verus! {

/// The ids of the requests a node has sent out, the ids that replies have
/// answered so far, and whether either list changed since it was last read.
#[derive(Debug)]
pub struct ExpectedMessages {
    pub changed: bool,
    pub msg_id: Vec<usize>,
    pub responses: Vec<usize>,
}

impl Default for ExpectedMessages {
    /// Nothing sent, nothing answered, nothing changed.
    fn default() -> (e: ExpectedMessages)
        ensures
            !e.changed,
            e.msg_id@ == Seq::<usize>::empty(),
            e.responses@ == Seq::<usize>::empty(),
    {
        ExpectedMessages { changed: false, msg_id: Vec::new(), responses: Vec::new() }
    }
}

} // verus!
