//! Runtime entry points that generated application code calls: pending a
//! dispatcher, running a task body, and locking a shared resource.

use vstd::prelude::*;

verus! {

/// Implemented by a device's interrupt enumeration so that the runtime can
/// pend any of its lines.
pub trait R52Interrupt {
    /// Marks this interrupt as pending in the interrupt controller.
    fn pend(self);
}

/// Sets the given interrupt as pending: the device's own `pend` is called on
/// it, once.
///
/// The handler is not run here: the controller takes the interrupt once the
/// core's mask and the running priority allow it.
#[inline]
pub fn pend<I>(interrupt: I) where I: R52Interrupt
    ensures
        call_ensures(I::pend, (interrupt,), ()),
{
    interrupt.pend();
}

/// Runs `f` at the given logical priority.
///
/// The priority is already in force when a handler is entered, so the body
/// is simply called, exactly once.
#[inline(always)]
pub fn run<F>(_priority: u8, f: F) where F: FnOnce()
    requires
        call_requires(f, ()),
    ensures
        call_ensures(f, (), ()),
{
    f();
}

/// What a lock body may assume: it is handed exclusive access to the
/// resource as it was when the lock was taken.
pub open spec fn body_accepts<T, R, F: FnOnce(&mut T) -> R>(f: F, before: T) -> bool {
    forall|access: &mut T| *access == before ==> call_requires(f, (access,))
}

/// Calls the body on the resource.
fn enter<T, R, F: FnOnce(&mut T) -> R>(resource: &mut T, f: F) -> (result: R)
    requires
        body_accepts(f, *old(resource)),
    ensures
        exists|access: &mut T|
            *access == *old(resource) && *final(access) == *final(resource) && call_ensures(
                f,
                (access,),
                result,
            ),
{
    f(resource)
}

/// `critical_section::with`: acquires the global critical section, calls the
/// closure once, and releases the section again before the result is handed
/// back. The contract claims only that: some run of the body took the
/// resource from its old value to its new one and gave the result.
#[verifier::external_body]
fn in_critical_section<T, R, F: FnOnce(&mut T) -> R>(resource: &mut T, f: F) -> (result: R)
    requires
        body_accepts(f, *old(resource)),
    ensures
        exists|access: &mut T|
            *access == *old(resource) && *final(access) == *final(resource) && call_ensures(
                f,
                (access,),
                result,
            ),
{
    critical_section::with(|_cs| enter(resource, f))
}

/// Runs `f` with exclusive access to `resource` and hands back its result:
/// one run of the body takes the resource from its old value to its new one.
///
/// This core cannot mask interrupts by priority level, so whatever the
/// ceiling, the body runs inside the global critical section: nothing
/// preempts it, and the mask that was in force before is restored on the way
/// out. The model of that discipline is in [`crate::interrupt`].
#[inline(always)]
pub fn lock<T, R, F: FnOnce(&mut T) -> R>(resource: &mut T, _ceiling: u8, f: F) -> (result: R)
    requires
        body_accepts(f, *old(resource)),
    ensures
        exists|access: &mut T|
            *access == *old(resource) && *final(access) == *final(resource) && call_ensures(
                f,
                (access,),
                result,
            ),
{
    in_critical_section(resource, f)
}

/// Stand-in for the core peripherals; this backend exposes none.
pub struct Peripherals;

impl Peripherals {
    /// Hands out the core peripherals. There are none, so there is nothing
    /// that a second call could alias.
    pub fn steal() -> (p: Self)
        ensures
            p == Peripherals,
    {
        Peripherals
    }
}

} // verus!
