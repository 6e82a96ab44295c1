//! What this backend contributes to the code generated for an application.
//!
//! Each hook says what is to be emitted as plain values: a path, a list of
//! statements, the parts of an impl. Turning those into tokens is left to
//! the caller.

use crate::analysis::DispatchError;
use crate::syntax::{Analysis, App};
use vstd::prelude::*;
use vstd::string::StringExecFns;

verus! {

/// A statement or item that the generated code is to hold.
#[derive(Clone, Debug, PartialEq, Eq)]
pub enum Stmt {
    /// `let _ = <module>::<name>;`: names an interrupt, so that the build
    /// fails where the device has none of that name.
    UseInterrupt { module: String, name: String },
    /// The exported byte constant that holds the highest priority that
    /// asynchronous drivers may use.
    AsyncMaxLogicalPrio { value: u8 },
}

/// A statement as plain values.
pub enum StmtView {
    UseInterrupt { module: Seq<char>, name: Seq<char> },
    AsyncMaxLogicalPrio { value: u8 },
}

impl View for Stmt {
    type V = StmtView;

    open spec fn view(&self) -> StmtView {
        match self {
            Stmt::UseInterrupt { module, name } => StmtView::UseInterrupt {
                module: module@,
                name: name@,
            },
            Stmt::AsyncMaxLogicalPrio { value } => StmtView::AsyncMaxLogicalPrio { value: *value },
        }
    }
}

/// The parts of the `Mutex` impl that is generated for one shared resource.
#[derive(Clone, Debug, PartialEq, Eq)]
pub struct MutexImpl<'a> {
    /// The conditional-compilation attributes to put on the impl.
    pub cfgs: &'a [String],
    /// The path of the resource proxy that gets the impl.
    pub path: String,
    /// The type of the resource.
    pub ty: &'a str,
    /// The resource's priority ceiling, handed to `lock`.
    pub ceiling: u8,
    /// The expression that yields the resource, handed to `lock`.
    pub ptr: &'a str,
}

/// The name of the device's interrupt enumeration.
pub open spec fn interrupt_ident_text() -> Seq<char> {
    "Interrupt"@
}

/// The path of the device's interrupt enumeration.
pub open spec fn interrupt_mod_text(device: Seq<char>) -> Seq<char> {
    device + "::"@ + interrupt_ident_text()
}

/// The path of the proxy of the resource `name`.
pub open spec fn proxy_path(resources_prefix: bool, name: Seq<char>) -> Seq<char> {
    if resources_prefix {
        "shared_resources::"@ + name
    } else {
        name
    }
}

/// The interrupts that an application names: first its dispatchers, then
/// what its hardware tasks are bound to, each in declaration order.
pub open spec fn named_interrupts(app: App) -> Seq<Seq<char>> {
    Seq::new(
        app.dispatchers@.len() + app.hardware_tasks@.len(),
        |i: int|
            if i < app.dispatchers@.len() {
                app.dispatchers@[i]@
            } else {
                app.hardware_tasks@[i - app.dispatchers@.len()].binds@
            },
    )
}

/// The name of the device's interrupt enumeration.
pub fn interrupt_ident() -> (ident: String)
    ensures
        ident@ == interrupt_ident_text(),
{
    String::from_str("Interrupt")
}

/// The path of the device's interrupt enumeration.
pub fn interrupt_mod(app: &App) -> (path: String)
    ensures
        path@ == interrupt_mod_text(app.device@),
{
    let mut path = app.device.clone();
    path.append("::");
    let ident = interrupt_ident();
    path.append(ident.as_str());
    path
}

/// The `Mutex` impl for one shared resource: its `lock` takes the global
/// critical section through `export::lock`, with the resource's ceiling.
pub fn impl_mutex<'a>(
    _app: &App,
    _analysis: &Analysis,
    cfgs: &'a [String],
    resources_prefix: bool,
    name: &str,
    ty: &'a str,
    ceiling: u8,
    ptr: &'a str,
) -> (item: MutexImpl<'a>)
    ensures
        item.cfgs@ == cfgs@,
        item.path@ == proxy_path(resources_prefix, name@),
        item.ty@ == ty@,
        item.ceiling == ceiling,
        item.ptr@ == ptr@,
{
    let path = if resources_prefix {
        let mut path = String::from_str("shared_resources::");
        path.append(name);
        path
    } else {
        String::from_str(name)
    };
    MutexImpl { cfgs, path, ty, ceiling, ptr }
}

/// Assertions to add to the generated code: none.
pub fn extra_assertions(_app: &App, _analysis: &Analysis) -> (stmts: Vec<Stmt>)
    ensures
        stmts@.len() == 0,
{
    Vec::new()
}

/// Adjusts the application before code is generated for it: this backend
/// has no core peripherals to hand out. Never fails.
pub fn pre_init_preprocessing(app: &mut App, _analysis: &Analysis) -> (done: Result<
    (),
    DispatchError,
>)
    ensures
        done is Ok,
        !final(app).core,
        final(app).device == old(app).device,
        final(app).dispatchers == old(app).dispatchers,
        final(app).software_tasks == old(app).software_tasks,
        final(app).hardware_tasks == old(app).hardware_tasks,
{
    app.core = false;
    Ok(())
}

/// The checks to run before initialisation: every dispatcher and every
/// interrupt that a hardware task is bound to is named once.
pub fn pre_init_checks(app: &App, _analysis: &Analysis) -> (stmts: Vec<Stmt>)
    ensures
        stmts@.len() == named_interrupts(*app).len(),
        forall|i: int|
            0 <= i < stmts@.len() ==> (#[trigger] stmts@[i])@ == (StmtView::UseInterrupt {
                module: interrupt_mod_text(app.device@),
                name: named_interrupts(*app)[i],
            }),
{
    let mut stmts: Vec<Stmt> = Vec::new();
    let mut i: usize = 0;
    while i < app.dispatchers.len()
        invariant
            0 <= i <= app.dispatchers@.len(),
            stmts@.len() == i,
            forall|k: int|
                0 <= k < i ==> (#[trigger] stmts@[k])@ == (StmtView::UseInterrupt {
                    module: interrupt_mod_text(app.device@),
                    name: named_interrupts(*app)[k],
                }),
        decreases app.dispatchers@.len() - i,
    {
        let module = interrupt_mod(app);
        let name = app.dispatchers[i].clone();
        stmts.push(Stmt::UseInterrupt { module, name });
        i += 1;
    }
    let mut j: usize = 0;
    while j < app.hardware_tasks.len()
        invariant
            0 <= j <= app.hardware_tasks@.len(),
            stmts@.len() == app.dispatchers@.len() + j,
            forall|k: int|
                0 <= k < stmts@.len() ==> (#[trigger] stmts@[k])@ == (StmtView::UseInterrupt {
                    module: interrupt_mod_text(app.device@),
                    name: named_interrupts(*app)[k],
                }),
        decreases app.hardware_tasks@.len() - j,
    {
        let module = interrupt_mod(app);
        let name = app.hardware_tasks[j].binds.clone();
        stmts.push(Stmt::UseInterrupt { module, name });
        j += 1;
    }
    stmts
}

/// Statements that enable interrupts before initialisation: none.
pub fn pre_init_enable_interrupts(_app: &App, _analysis: &Analysis) -> (stmts: Vec<Stmt>)
    ensures
        stmts@.len() == 0,
{
    Vec::new()
}

/// Statements to run on entry to an interrupt handler: none.
pub fn interrupt_entry(_app: &App, _analysis: &Analysis) -> (stmts: Vec<Stmt>)
    ensures
        stmts@.len() == 0,
{
    Vec::new()
}

/// Statements to run on exit from an interrupt handler: none.
pub fn interrupt_exit(_app: &App, _analysis: &Analysis) -> (stmts: Vec<Stmt>)
    ensures
        stmts@.len() == 0,
{
    Vec::new()
}

/// Statements that check for a stack overflow before initialisation: none.
pub fn check_stack_overflow_before_init(_app: &App, _analysis: &Analysis) -> (stmts: Vec<Stmt>)
    ensures
        stmts@.len() == 0,
{
    Vec::new()
}

/// Statements to run on entry to a dispatcher of asynchronous tasks: none.
pub fn async_entry(_app: &App, _analysis: &Analysis, _dispatcher_name: &str) -> (stmts: Vec<Stmt>)
    ensures
        stmts@.len() == 0,
{
    Vec::new()
}

/// The highest priority that asynchronous drivers may use: the highest
/// among the asynchronous tasks, or the highest there is where the
/// application has none.
pub open spec fn async_prio_limit_value(analysis: Analysis) -> u8 {
    match analysis.max_async_prio {
        Some(max) => max,
        None => u8::MAX,
    }
}

/// The item that exports the priority limit for asynchronous drivers.
pub fn async_prio_limit(_app: &App, analysis: &Analysis) -> (stmts: Vec<Stmt>)
    ensures
        stmts@.len() == 1,
        stmts@[0]@ == (StmtView::AsyncMaxLogicalPrio { value: async_prio_limit_value(*analysis) }),
{
    let value = match analysis.max_async_prio {
        Some(max) => max,
        None => u8::MAX,
    };
    let mut stmts: Vec<Stmt> = Vec::new();
    stmts.push(Stmt::AsyncMaxLogicalPrio { value });
    stmts
}

/// Configuration to put on a dispatcher's handler: none.
pub fn handler_config(_app: &App, _analysis: &Analysis, _dispatcher_name: &str) -> (stmts: Vec<
    Stmt,
>)
    ensures
        stmts@.len() == 0,
{
    Vec::new()
}

/// Modules to add to the generated code: none.
pub fn extra_modules(_app: &App, _analysis: &Analysis) -> (stmts: Vec<Stmt>)
    ensures
        stmts@.len() == 0,
{
    Vec::new()
}

} // verus!
