//! The application description that the static analysis and the code
//! generation hooks read: the declared tasks, their priorities, and the
//! interrupts set aside as dispatchers.

use vstd::prelude::*;

verus! {

/// A task that is spawned by software and run by a dispatcher.
#[derive(Clone, Debug, PartialEq, Eq)]
pub struct SoftwareTask {
    /// The task's name.
    pub name: String,
    /// The task's static priority; 0 runs cooperatively at base level.
    pub priority: u8,
}

/// A task bound to one interrupt vector.
#[derive(Clone, Debug, PartialEq, Eq)]
pub struct HardwareTask {
    /// The task's name.
    pub name: String,
    /// The interrupt that the task is bound to.
    pub binds: String,
    /// The task's static priority.
    pub priority: u8,
}

/// A declared application.
#[derive(Clone, Debug, PartialEq, Eq)]
pub struct App {
    /// Path of the device crate, as written in the declaration.
    pub device: String,
    /// Whether the application asks for the core peripherals.
    pub core: bool,
    /// The interrupts set aside to dispatch software tasks, in declaration order.
    pub dispatchers: Vec<String>,
    /// The software tasks, in declaration order.
    pub software_tasks: Vec<SoftwareTask>,
    /// The hardware tasks, in declaration order.
    pub hardware_tasks: Vec<HardwareTask>,
}

/// What the analysis of an application hands to code generation.
#[derive(Clone, Copy, Debug, PartialEq, Eq)]
pub struct Analysis {
    /// The highest priority among the asynchronous tasks, if there is one.
    pub max_async_prio: Option<u8>,
}

} // verus!
