//! What holds of the table and of schedules across several calls, stated over
//! the models that the contracts of those calls use.

use vstd::prelude::*;

use crate::config::Schedule;
use crate::scheduler::{due, texts, CronJob};

verus! {

/// Asking a schedule twice for its next invocation at one instant gives one
/// answer: the computation keeps no cursor.
pub proof fn law_next_invocation_repeats(
    schedule: Schedule,
    now: i64,
    first: Option<i64>,
    second: Option<i64>,
)
    requires
        first == schedule.next_invocation(now),
        second == schedule.next_invocation(now),
    ensures
        first == second,
{
}

/// The activation flag is no gate: two schedules with the same rule are due
/// at the same instants, whatever their flags say.
pub proof fn law_activation_does_not_gate(
    one: Schedule,
    other: Schedule,
    scanned_at: i64,
    now: i64,
)
    requires
        one.source() == other.source(),
    ensures
        due(one.next_invocation(scanned_at), now) == due(other.next_invocation(scanned_at), now),
{
}

/// A schedule whose rule has no further match is never due.
pub proof fn law_exhausted_rule_is_never_due(schedule: Schedule, scanned_at: i64, now: i64)
    requires
        schedule.next_invocation(scanned_at) is None,
    ensures
        !due(schedule.next_invocation(scanned_at), now),
{
}

/// Names are unique. A first `insert_job` under a free name reports a new
/// entry (`first`); a second one under the same name reports none
/// (`second`), and from then on the name leads to the second schedule alone,
/// all other entries being as they were.
pub proof fn law_insert_twice_keeps_the_second(
    start: CronJob,
    once: CronJob,
    twice: CronJob,
    job_name: Seq<char>,
    earlier: Schedule,
    later: Schedule,
    first: bool,
    second: bool,
)
    requires
        !start@.contains_key(job_name),
        first == !start@.contains_key(job_name),
        once@ == start@.insert(job_name, earlier),
        second == !once@.contains_key(job_name),
        twice@ == once@.insert(job_name, later),
    ensures
        first,
        !second,
        twice@.contains_key(job_name),
        twice@[job_name] == later,
        twice@ == start@.insert(job_name, later),
{
    assert(twice@ =~= start@.insert(job_name, later));
}

/// Removing a registered job reports it (`removed`), leaves no entry under
/// its name, and touches no other entry.
pub proof fn law_remove_forgets_the_name(
    start: CronJob,
    after: CronJob,
    job_name: Seq<char>,
    removed: bool,
)
    requires
        start@.contains_key(job_name),
        removed == start@.contains_key(job_name),
        after@ == start@.remove(job_name),
    ensures
        removed,
        !after@.contains_key(job_name),
        forall|other: Seq<char>|
            other != job_name ==> (after@.contains_key(other) == start@.contains_key(other)),
        forall|other: Seq<char>|
            other != job_name && start@.contains_key(other) ==> after@[other] == start@[other],
{
}

/// A job that was inserted and removed again leaves the table as it was
/// before, if its name was free.
pub proof fn law_insert_then_remove_restores(
    start: CronJob,
    once: CronJob,
    after: CronJob,
    job_name: Seq<char>,
    schedule: Schedule,
)
    requires
        !start@.contains_key(job_name),
        once@ == start@.insert(job_name, schedule),
        after@ == once@.remove(job_name),
    ensures
        after@ == start@,
{
    assert(after@ =~= start@);
}

/// The enumeration of active names follows the flag: right after a job was
/// inserted, its name is listed exactly if its schedule is marked active,
/// and every other name is listed exactly if it was listed before.
pub proof fn law_enumeration_follows_the_flag(
    start: CronJob,
    after: CronJob,
    job_name: Seq<char>,
    schedule: Schedule,
    before: Seq<String>,
    listed: Seq<String>,
)
    requires
        after@ == start@.insert(job_name, schedule),
        forall|name: Seq<char>|
            texts(before).contains(name) <==> (start@.contains_key(name) && start@[name].active()),
        forall|name: Seq<char>|
            texts(listed).contains(name) <==> (after@.contains_key(name) && after@[name].active()),
    ensures
        texts(listed).contains(job_name) <==> schedule.active(),
        forall|name: Seq<char>|
            name != job_name ==> (texts(listed).contains(name) <==> texts(before).contains(name)),
{
}

} // verus!
