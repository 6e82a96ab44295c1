//! The core's interrupt mask, and the locking discipline on it.
//!
//! The runtime holds interrupts off while it sets itself up and lets them in
//! once that is done. A resource lock holds them off for as long as its body
//! runs. This core cannot mask by priority level, so a lock masks every
//! interrupt, whatever the resource's ceiling: that is more than the
//! priority ceiling protocol asks for, and so no less safe.

use vstd::prelude::*;

verus! {

/// Whether the core takes an interrupt of the given priority under a mask
/// that lets interrupts in (`enabled`) or holds them off. Priority 0 is the
/// base level: what runs there is never dispatched by an interrupt.
pub open spec fn admits(enabled: bool, priority: u8) -> bool {
    enabled && priority > 0
}

/// The mask in force while a resource with the given ceiling is locked,
/// where `prior` was in force before: every interrupt is held off.
pub open spec fn held(prior: bool, ceiling: u8) -> bool {
    false
}

/// While a resource is locked, the core takes no interrupt at or below the
/// resource's ceiling: no task that could touch the resource runs.
pub proof fn lemma_lock_excludes_ceiling(prior: bool, ceiling: u8, priority: u8)
    requires
        priority <= ceiling,
    ensures
        !admits(held(prior, ceiling), priority),
{
}

/// The core's interrupt mask as the runtime drives it.
pub struct InterruptMask {
    enabled: bool,
}

/// The mask that was in force when a lock was taken, to be put back when
/// the lock is given up.
pub struct RestoreState {
    enabled: bool,
}

impl View for RestoreState {
    type V = bool;

    closed spec fn view(&self) -> bool {
        self.enabled
    }
}

impl View for InterruptMask {
    type V = bool;

    /// Whether interrupts are let in.
    closed spec fn view(&self) -> bool {
        self.enabled
    }
}

impl InterruptMask {
    /// The mask as it is at reset: interrupts are held off.
    pub fn new() -> (mask: Self)
        ensures
            !mask@,
    {
        InterruptMask { enabled: false }
    }

    /// Whether interrupts are let in.
    pub fn is_enabled(&self) -> (enabled: bool)
        ensures
            enabled == self@,
    {
        self.enabled
    }

    /// Whether the core would take an interrupt of the given priority now.
    pub fn admits(&self, priority: u8) -> (taken: bool)
        ensures
            taken == admits(self@, priority),
    {
        self.enabled && priority > 0
    }

    /// Raises the mask for a lock on a resource with the given ceiling, and
    /// hands back the mask that was in force.
    pub fn acquire(&mut self, ceiling: u8) -> (prior: RestoreState)
        ensures
            prior@ == old(self)@,
            final(self)@ == held(old(self)@, ceiling),
    {
        let prior = RestoreState { enabled: self.enabled };
        self.enabled = false;
        prior
    }

    /// Puts back the mask that was in force when the lock was taken.
    pub fn release(&mut self, prior: RestoreState)
        ensures
            final(self)@ == prior@,
    {
        self.enabled = prior.enabled;
    }

    /// Runs `f` on `resource` with the mask raised for the given ceiling,
    /// and puts the prior mask back before handing on what `f` returned.
    ///
    /// The body is shown the mask it runs under: one that admits no
    /// priority at or below the ceiling.
    pub fn lock<T, R, F: FnOnce(&mut T, &InterruptMask) -> R>(
        &mut self,
        resource: &mut T,
        ceiling: u8,
        f: F,
    ) -> (result: R)
        requires
            forall|access: &mut T, mask: &InterruptMask|
                *access == *old(resource) && mask@ == held(old(self)@, ceiling) ==> call_requires(
                    f,
                    (access, mask),
                ),
        ensures
            final(self)@ == old(self)@,
            exists|access: &mut T, mask: &InterruptMask|
                {
                    &&& *access == *old(resource)
                    &&& *final(access) == *final(resource)
                    &&& mask@ == held(old(self)@, ceiling)
                    &&& call_ensures(f, (access, mask), result)
                },
    {
        let prior = self.acquire(ceiling);
        let result = f(resource, &*self);
        self.release(prior);
        result
    }
}

/// Holds interrupts off.
pub fn disable(mask: &mut InterruptMask)
    ensures
        !final(mask)@,
{
    mask.enabled = false;
}

/// Lets interrupts in. The runtime does this once, when the resources, the
/// dispatchers and the timer are set up.
pub fn enable(mask: &mut InterruptMask)
    ensures
        final(mask)@,
{
    mask.enabled = true;
}

} // verus!
