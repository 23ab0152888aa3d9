//! One supervised helper process, held by its logical name.
use vstd::prelude::*;

verus! {

/// What one call of `kill` does to a slot: the slot is left empty and the
/// handle it held, if any, is handed out to be terminated.
pub open spec fn kill_step<H>(before: Option<H>, after: Option<H>, request: Option<H>) -> bool {
    &&& after is None
    &&& request == before
}

/// The slot of one helper: a stable name and at most one live handle.
///
/// `H` is whatever the application uses to reach a spawned process. A handle
/// that leaves the slot through `kill` is the caller's to terminate.
pub struct ProcessSlot<H> {
    name: String,
    handle: Option<H>,
}

impl<H> View for ProcessSlot<H> {
    type V = Option<H>;

    closed spec fn view(&self) -> Option<H> {
        self.handle
    }
}

impl<H> ProcessSlot<H> {
    /// The slot's logical name.
    pub closed spec fn name_spec(&self) -> Seq<char> {
        self.name@
    }

    /// An empty slot for the helper called `name`.
    pub fn new(name: String) -> (s: Self)
        ensures
            s@ is None,
            s.name_spec() == name@,
    {
        ProcessSlot { name, handle: None }
    }

    pub fn name(&self) -> (r: &String)
        ensures
            r@ == self.name_spec(),
    {
        &self.name
    }

    /// Whether the slot holds a live handle.
    pub fn is_populated(&self) -> (r: bool)
        ensures
            r == self@ is Some,
    {
        self.handle.is_some()
    }

    /// Stores a newly spawned handle. A slot is filled at most once: calling
    /// this on a populated slot is a programming error, ruled out here.
    pub fn set(&mut self, handle: H)
        requires
            old(self)@ is None,
        ensures
            final(self)@ == Some(handle),
            final(self).name_spec() == old(self).name_spec(),
    {
        self.handle = Some(handle);
    }

    /// Takes the handle out of the slot, leaving it empty, and returns it to
    /// be terminated. Each handle stored is handed out once: a second call
    /// finds nothing to do.
    pub fn kill(&mut self) -> (r: Option<H>)
        ensures
            kill_step(old(self)@, final(self)@, r),
            final(self).name_spec() == old(self).name_spec(),
    {
        self.handle.take()
    }
}

/// Killing a slot any number of times in a row yields at most one
/// termination request: the first call hands out the handle the slot held,
/// and every later call hands out nothing.
pub proof fn lemma_kill_idempotent<H>(states: Seq<Option<H>>, requests: Seq<Option<H>>)
    requires
        states.len() == requests.len() + 1,
        forall|i: int|
            0 <= i < requests.len() ==> kill_step(states[i], states[i + 1], #[trigger] requests[i]),
    ensures
        requests.len() > 0 ==> requests[0] == states[0],
        forall|i: int| 1 <= i < requests.len() ==> #[trigger] requests[i] is None,
        forall|i: int, j: int|
            0 <= i < requests.len() && 0 <= j < requests.len() && requests[i] is Some
                && requests[j] is Some ==> i == j,
{
    assert forall|i: int| 1 <= i < requests.len() implies #[trigger] requests[i] is None by {
        assert(kill_step(states[i - 1], states[i], requests[i - 1]));
        assert(kill_step(states[i], states[i + 1], requests[i]));
    }
    if requests.len() > 0 {
        assert(kill_step(states[0], states[1], requests[0]));
    }
}

} // verus!
