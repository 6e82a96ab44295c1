//! The schedulability check: are there enough dispatcher interrupts for the
//! priority levels at which software tasks run?
//!
//! Every priority level above 0 that some software task uses needs a
//! dispatcher of its own. Two levels never share one: the dispatcher's
//! interrupt priority is what lets the higher level preempt the lower.

use crate::syntax::{App, SoftwareTask};
use crate::text::{decimal, decimal_text};
use std::collections::HashSet;
use vstd::prelude::*;
use vstd::string::StringExecFns;

verus! {

broadcast use vstd::std_specs::hash::group_hash_axioms;

/// The priority levels that need a dispatcher: those above 0 at which at
/// least one software task runs.
pub open spec fn dispatched_levels(tasks: Seq<SoftwareTask>) -> Set<u8> {
    Set::new(
        |level: u8|
            level > 0 && exists|i: int| 0 <= i < tasks.len() && #[trigger] tasks[i].priority == level,
    )
}

/// Whether the task at `index` is the last one declared that a dispatcher has to run.
pub open spec fn is_last_dispatched(tasks: Seq<SoftwareTask>, index: int) -> bool {
    &&& 0 <= index < tasks.len()
    &&& tasks[index].priority > 0
    &&& forall|j: int| index < j < tasks.len() ==> (#[trigger] tasks[j]).priority == 0
}

/// The text of the diagnostic for too few dispatchers.
pub open spec fn shortage_text(need: nat, given: nat) -> Seq<char> {
    "not enough interrupts to dispatch all software tasks (need: "@ + decimal(need)
        + "; given: "@ + decimal(given) + ")"@
}

/// The declared dispatchers do not cover the priority levels in use.
#[derive(Clone, Copy, Debug, PartialEq, Eq, Structural)]
pub struct DispatchError {
    /// Index, among the software tasks, of the task that the diagnostic is
    /// attached to: the last one declared with a priority above 0.
    pub task: usize,
    /// How many dispatchers the application needs.
    pub need: usize,
    /// How many dispatchers the application declares.
    pub given: usize,
}

impl DispatchError {
    /// The diagnostic to report at the offending task's declaration.
    pub fn message(&self) -> (text: String)
        ensures
            text@ == shortage_text(self.need as nat, self.given as nat),
    {
        let mut text = String::from_str(
            "not enough interrupts to dispatch all software tasks (need: ",
        );
        let need = decimal_text(self.need);
        text.append(need.as_str());
        text.append("; given: ");
        let given = decimal_text(self.given);
        text.append(given.as_str());
        text.append(")");
        text
    }
}

/// The levels are among the 255 priorities above 0, so there are finitely
/// many of them, and no more than there are tasks.
pub proof fn lemma_dispatched_levels_bounded(tasks: Seq<SoftwareTask>)
    ensures
        dispatched_levels(tasks).finite(),
        dispatched_levels(tasks).len() <= tasks.len(),
        dispatched_levels(tasks).len() <= 255,
    decreases tasks.len(),
{
    if tasks.len() == 0 {
        assert(dispatched_levels(tasks) =~= Set::<u8>::empty());
    } else {
        let rest = tasks.drop_last();
        lemma_dispatched_levels_bounded(rest);
        lemma_levels_step(tasks, tasks.len() - 1);
        assert(tasks.take(tasks.len() - 1) =~= rest);
        assert(tasks.take(tasks.len() as int) =~= tasks);
    }
    let all = Set::new(|level: u8| level > 0);
    assert(all.finite() && all.len() == 255) by {
        lemma_positive_levels();
    }
    vstd::set_lib::lemma_len_subset(dispatched_levels(tasks), all);
}

proof fn lemma_positive_levels()
    ensures
        Set::new(|level: u8| level > 0).finite(),
        Set::new(|level: u8| level > 0).len() == 255,
{
    let all = Set::new(|level: u8| level > 0);
    let ints = vstd::set_lib::set_int_range(1, 256);
    vstd::set_lib::lemma_int_range(1, 256);
    let image = ints.map(|i: int| i as u8);
    assert(image =~= all) by {
        assert forall|level: u8| all.contains(level) implies image.contains(level) by {
            assert(ints.contains(level as int));
            assert((level as int) as u8 == level);
        }
    }
    vstd::set_lib::lemma_map_size(ints, image, |i: int| i as u8);
}

/// One more task adds its own level, if that is above 0, and nothing else.
proof fn lemma_levels_step(tasks: Seq<SoftwareTask>, i: int)
    requires
        0 <= i < tasks.len(),
    ensures
        dispatched_levels(tasks.take(i + 1)) == if tasks[i].priority > 0 {
            dispatched_levels(tasks.take(i)).insert(tasks[i].priority)
        } else {
            dispatched_levels(tasks.take(i))
        },
{
    let before = tasks.take(i);
    let after = tasks.take(i + 1);
    let level = tasks[i].priority;
    let expected = if level > 0 {
        dispatched_levels(before).insert(level)
    } else {
        dispatched_levels(before)
    };
    assert forall|q: u8| dispatched_levels(after).contains(q) implies expected.contains(q) by {
        let j = choose|j: int| 0 <= j < after.len() && #[trigger] after[j].priority == q;
        if j < i {
            assert(before[j].priority == q);
        }
    }
    assert forall|q: u8| expected.contains(q) implies dispatched_levels(after).contains(q) by {
        if q == level && level > 0 {
            assert(after[i].priority == q);
        } else {
            let j = choose|j: int| 0 <= j < before.len() && #[trigger] before[j].priority == q;
            assert(after[j].priority == q);
        }
    }
    assert(dispatched_levels(after) =~= expected);
}

/// Collects the levels that need a dispatcher, and finds the last task
/// declared at one of them.
fn levels_in_use(tasks: &Vec<SoftwareTask>) -> (found: (HashSet<u8>, Option<usize>))
    ensures
        found.0@ == dispatched_levels(tasks@),
        match found.1 {
            Some(index) => is_last_dispatched(tasks@, index as int),
            None => dispatched_levels(tasks@) == Set::<u8>::empty(),
        },
{
    let mut last: Option<usize> = None;
    let mut priorities: HashSet<u8> = HashSet::new();
    let mut i: usize = 0;
    while i < tasks.len()
        invariant
            0 <= i <= tasks@.len(),
            priorities@ == dispatched_levels(tasks@.take(i as int)),
            match last {
                Some(index) => is_last_dispatched(tasks@.take(i as int), index as int),
                None => forall|j: int| 0 <= j < i ==> (#[trigger] tasks@[j]).priority == 0,
            },
        decreases tasks@.len() - i,
    {
        let priority = tasks[i].priority;
        proof {
            lemma_levels_step(tasks@, i as int);
        }
        if priority > 0 {
            priorities.insert(priority);
            last = Some(i);
        }
        i += 1;
    }
    assert(tasks@.take(i as int) =~= tasks@);
    if last.is_none() {
        assert(dispatched_levels(tasks@) =~= Set::<u8>::empty());
    }
    (priorities, last)
}

/// Checks that the declared dispatchers suffice for the software tasks.
///
/// Tasks at priority 0 run cooperatively and need none. Each other level
/// in use needs one dispatcher to itself, so the check passes exactly when
/// the declared dispatchers are at least as many as those levels.
pub fn architecture_specific_analysis(app: &App) -> (checked: Result<(), DispatchError>)
    ensures
        checked is Ok <==> dispatched_levels(app.software_tasks@).len() <= app.dispatchers@.len(),
        checked matches Err(e) ==> {
            &&& e.need == dispatched_levels(app.software_tasks@).len()
            &&& e.given == app.dispatchers@.len()
            &&& is_last_dispatched(app.software_tasks@, e.task as int)
        },
{
    let (priorities, last) = levels_in_use(&app.software_tasks);
    let need = priorities.len();
    let given = app.dispatchers.len();
    if let Some(task) = last {
        if need > given {
            return Err(DispatchError { task, need, given });
        }
    }
    Ok(())
}

/// The levels in use that lie above `level`.
pub open spec fn levels_above(tasks: Seq<SoftwareTask>, level: u8) -> Set<u8> {
    Set::new(|other: u8| dispatched_levels(tasks).contains(other) && other > level)
}

/// The place, among the declared dispatchers, of the one that runs the
/// software tasks of priority `level`: the levels in use take the
/// dispatchers in the order of their declaration, the highest level first.
pub open spec fn dispatcher_of(tasks: Seq<SoftwareTask>, level: u8) -> nat {
    levels_above(tasks, level).len()
}

/// Two levels in use never share a dispatcher. Each level's place is below
/// the number of levels in use: where at least that many dispatchers are
/// declared, every level in use has one.
pub proof fn lemma_dispatchers_are_not_shared(tasks: Seq<SoftwareTask>, first: u8, second: u8)
    requires
        dispatched_levels(tasks).contains(first),
        dispatched_levels(tasks).contains(second),
        first != second,
    ensures
        dispatcher_of(tasks, first) != dispatcher_of(tasks, second),
        dispatcher_of(tasks, first) < dispatched_levels(tasks).len(),
{
    lemma_dispatched_levels_bounded(tasks);
    let levels = dispatched_levels(tasks);
    let (low, high) = if first < second {
        (first, second)
    } else {
        (second, first)
    };
    let above_low = levels_above(tasks, low);
    let above_high = levels_above(tasks, high);
    vstd::set_lib::lemma_len_subset(above_low, levels);
    assert(above_high.subset_of(above_low.remove(high)));
    vstd::set_lib::lemma_len_subset(above_high, above_low.remove(high));
    assert(levels_above(tasks, first).subset_of(levels.remove(first)));
    vstd::set_lib::lemma_len_subset(levels_above(tasks, first), levels.remove(first));
}

/// Finds the dispatcher that runs the software tasks of priority `level`.
///
/// There is one exactly when some software task runs at that level, the
/// level is above 0, and the declared dispatchers reach that far.
pub fn dispatcher_for(app: &App, level: u8) -> (slot: Option<usize>)
    ensures
        slot is Some <==> dispatched_levels(app.software_tasks@).contains(level) && dispatcher_of(
            app.software_tasks@,
            level,
        ) < app.dispatchers@.len(),
        slot matches Some(index) ==> index == dispatcher_of(app.software_tasks@, level),
{
    let (levels, _) = levels_in_use(&app.software_tasks);
    if !levels.contains(&level) {
        return None;
    }
    let ghost in_use = dispatched_levels(app.software_tasks@);
    let mut count: usize = 0;
    let mut other: u16 = level as u16 + 1;
    proof {
        assert(Set::new(|x: u8| in_use.contains(x) && level < x && x < other) =~= Set::<u8>::empty());
    }
    while other <= 255
        invariant
            level < other <= 256,
            levels@ == in_use,
            in_use == dispatched_levels(app.software_tasks@),
            Set::new(|x: u8| in_use.contains(x) && level < x && x < other).finite(),
            count == Set::new(|x: u8| in_use.contains(x) && level < x && x < other).len(),
            count <= other - level - 1,
        decreases 256 - other,
    {
        let ghost seen = Set::new(|x: u8| in_use.contains(x) && level < x && x < other);
        let ghost next = Set::new(|x: u8| in_use.contains(x) && level < x && x < other + 1);
        let candidate = other as u8;
        if levels.contains(&candidate) {
            proof {
                assert(next =~= seen.insert(candidate));
            }
            count += 1;
        } else {
            proof {
                assert(next =~= seen);
            }
        }
        other += 1;
    }
    proof {
        assert(Set::new(|x: u8| in_use.contains(x) && level < x && x < other) =~= levels_above(
            app.software_tasks@,
            level,
        ));
    }
    if count < app.dispatchers.len() {
        Some(count)
    } else {
        None
    }
}

} // verus!
