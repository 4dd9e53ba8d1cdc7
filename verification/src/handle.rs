//! The life of an object handle on the foreign side.
//!
//! A handle stands for a native object. It may be used from several threads
//! at once, so every step on it is one atomic step, and whatever the threads
//! do arrives here as some sequence of such steps. The handle is disposed of
//! once; the native object is released when the handle has been disposed of
//! and no call on it is under way, and at no other time.

use vstd::prelude::*;

verus! {

/// A step on a handle.
#[derive(Clone, Copy, Debug, PartialEq, Eq, Structural)]
pub enum HandleEvent {
    /// The owner disposes of the handle.
    Dispose,
    /// A call on the object is about to start.
    BeginCall,
    /// A call on the object has ended.
    EndCall,
}

/// What a step asks of the one who made it.
#[derive(Clone, Copy, Debug, PartialEq, Eq, Structural)]
pub enum HandleAction {
    /// Go on; the native object stays.
    Proceed,
    /// Go on, and release the native object now.
    Release,
    /// The handle has been disposed of: report it, and touch nothing.
    FailDisposed,
    /// More calls are under way than can be counted: report it.
    FailTooManyCalls,
    /// No call is under way that could end: report it.
    FailNoCall,
}

/// The state of a handle: how many calls on it are under way, and whether
/// it has been disposed of.
#[derive(Clone, Copy, Debug, PartialEq, Eq, Structural)]
pub struct Handle {
    pub calls: u64,
    pub disposed: bool,
}

impl Handle {
    /// Whether the native object has been released: the handle has been
    /// disposed of and no call is under way.
    pub open spec fn released(self) -> bool {
        self.disposed && self.calls == 0
    }

    /// The state after a step.
    pub open spec fn after(self, event: HandleEvent) -> Handle {
        match event {
            HandleEvent::Dispose => Handle { calls: self.calls, disposed: true },
            HandleEvent::BeginCall => if self.disposed || self.calls == u64::MAX {
                self
            } else {
                Handle { calls: (self.calls + 1) as u64, disposed: false }
            },
            HandleEvent::EndCall => if self.calls == 0 {
                self
            } else {
                Handle { calls: (self.calls - 1) as u64, disposed: self.disposed }
            },
        }
    }

    /// What a step asks of the one who made it.
    pub open spec fn action(self, event: HandleEvent) -> HandleAction {
        match event {
            HandleEvent::Dispose => if self.disposed {
                HandleAction::FailDisposed
            } else if self.calls == 0 {
                HandleAction::Release
            } else {
                HandleAction::Proceed
            },
            HandleEvent::BeginCall => if self.disposed {
                HandleAction::FailDisposed
            } else if self.calls == u64::MAX {
                HandleAction::FailTooManyCalls
            } else {
                HandleAction::Proceed
            },
            HandleEvent::EndCall => if self.calls == 0 {
                HandleAction::FailNoCall
            } else if self.disposed && self.calls == 1 {
                HandleAction::Release
            } else {
                HandleAction::Proceed
            },
        }
    }

    /// The state after a sequence of steps.
    pub open spec fn after_all(self, events: Seq<HandleEvent>) -> Handle
        decreases events.len(),
    {
        if events.len() == 0 {
            self
        } else {
            self.after_all(events.drop_last()).after(events.last())
        }
    }

    /// How often a sequence of steps releases the native object.
    pub open spec fn releases(self, events: Seq<HandleEvent>) -> nat
        decreases events.len(),
    {
        if events.len() == 0 {
            0
        } else {
            let before = self.after_all(events.drop_last());
            self.releases(events.drop_last()) + if before.action(events.last())
                == HandleAction::Release {
                1nat
            } else {
                0nat
            }
        }
    }

    /// A handle that has just been made: in use, with no call under way.
    pub fn new() -> (r: Handle)
        ensures
            r == (Handle { calls: 0, disposed: false }),
    {
        Handle { calls: 0, disposed: false }
    }

    /// Takes one step on the handle, and says what the step asks for.
    pub fn step(&mut self, event: HandleEvent) -> (r: HandleAction)
        ensures
            r == old(self).action(event),
            *final(self) == old(self).after(event),
    {
        match event {
            HandleEvent::Dispose => {
                if self.disposed {
                    HandleAction::FailDisposed
                } else {
                    self.disposed = true;
                    if self.calls == 0 {
                        HandleAction::Release
                    } else {
                        HandleAction::Proceed
                    }
                }
            },
            HandleEvent::BeginCall => {
                if self.disposed {
                    HandleAction::FailDisposed
                } else if self.calls == u64::MAX {
                    HandleAction::FailTooManyCalls
                } else {
                    self.calls = self.calls + 1;
                    HandleAction::Proceed
                }
            },
            HandleEvent::EndCall => {
                if self.calls == 0 {
                    HandleAction::FailNoCall
                } else {
                    self.calls = self.calls - 1;
                    if self.disposed && self.calls == 0 {
                        HandleAction::Release
                    } else {
                        HandleAction::Proceed
                    }
                }
            },
        }
    }
}

/// Whatever the steps and their order: the native object of a fresh handle
/// is released once if the handle ends up disposed of with no call under
/// way, and not at all otherwise. It is never released twice.
pub proof fn lemma_released_once(events: Seq<HandleEvent>)
    ensures
        ({
            let start = Handle { calls: 0, disposed: false };
            start.releases(events) == if start.after_all(events).released() {
                1nat
            } else {
                0nat
            }
        }),
    decreases events.len(),
{
    if events.len() > 0 {
        lemma_released_once(events.drop_last());
    }
}

/// Once a handle has been disposed of, it stays so whatever follows.
pub proof fn lemma_disposed_for_good(state: Handle, events: Seq<HandleEvent>)
    requires
        state.disposed,
    ensures
        state.after_all(events).disposed,
    decreases events.len(),
{
    if events.len() > 0 {
        lemma_disposed_for_good(state, events.drop_last());
    }
}

/// After a handle has been disposed of, and whatever steps were taken
/// since, disposing of it again fails and a new call fails; neither
/// releases the native object or lets a call through.
pub proof fn lemma_disposed_fails(state: Handle, events: Seq<HandleEvent>)
    requires
        state.disposed,
    ensures
        state.after_all(events).action(HandleEvent::Dispose) == HandleAction::FailDisposed,
        state.after_all(events).action(HandleEvent::BeginCall) == HandleAction::FailDisposed,
{
    lemma_disposed_for_good(state, events);
}

/// No call is let through on a handle whose native object has been
/// released, and none can end on it.
pub proof fn lemma_no_call_after_release(state: Handle, events: Seq<HandleEvent>)
    requires
        state.released(),
    ensures
        state.after_all(events).released(),
        state.after_all(events).action(HandleEvent::BeginCall) == HandleAction::FailDisposed,
        state.after_all(events).action(HandleEvent::EndCall) == HandleAction::FailNoCall,
        state.releases(events) == 0,
    decreases events.len(),
{
    if events.len() > 0 {
        lemma_no_call_after_release(state, events.drop_last());
    }
}

} // verus!
