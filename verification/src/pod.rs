use vstd::prelude::*;

verus! {

/// One worker of a pipeline stage: the name of its stage and the handle of
/// its thread.
pub struct ThreadPod<H> {
    stage: &'static str,
    handle: H,
}

impl<H> ThreadPod<H> {
    /// The name of the worker's stage.
    pub closed spec fn stage_name(&self) -> &'static str {
        self.stage
    }

    /// The handle of the worker's thread.
    pub closed spec fn thread(&self) -> H {
        self.handle
    }

    /// A worker of stage `stage` running on `handle`.
    pub fn new(stage: &'static str, handle: H) -> (p: Self)
        ensures
            p.stage_name() == stage,
            p.thread() == handle,
    {
        ThreadPod { stage, handle }
    }

    /// The name of the worker's stage.
    pub fn stage(&self) -> (s: &'static str)
        ensures
            s == self.stage_name(),
    {
        self.stage
    }

    /// The handle of the worker's thread.
    pub fn handle(&self) -> (h: &H)
        ensures
            *h == self.thread(),
    {
        &self.handle
    }
}

} // verus!
