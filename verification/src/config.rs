//! A job's schedule and the builder that assembles one.

use vstd::prelude::*;

use crate::clock;
use crate::error::{BuildError, ParseError};
use crate::job::Job;
use crate::rule::{is_cron_expression, next_invocation_spec, Rule};

verus! {

/// `tokio::sync::Mutex`, the execution guard around a job's body. What it
/// holds and whether it is free cannot be seen from here.
#[verifier::external_type_specification]
#[verifier::external_body]
#[verifier::reject_recursive_types(T)]
pub struct ExMutex<T: ?Sized>(tokio::sync::Mutex<T>);

/// `tokio::sync::MutexGuard`, the proof that the guard is held. Dropping it
/// frees the guard.
#[verifier::external_type_specification]
#[verifier::external_body]
#[verifier::reject_recursive_types(T)]
pub struct ExMutexGuard<'a, T: ?Sized>(tokio::sync::MutexGuard<'a, T>);

/// Collects the parts of a schedule. Whether anything is missing is found
/// out by `build`.
#[derive(Debug)]
pub struct SchduleBuilder {
    schedule: Option<Rule>,
    active: Option<bool>,
}

impl Default for SchduleBuilder {
    fn default() -> (builder: Self)
        ensures
            builder.rule() is None,
            builder.activation() is None,
    {
        SchduleBuilder { schedule: None, active: None }
    }
}

impl SchduleBuilder {
    /// The rule given so far, if any.
    pub closed spec fn rule(&self) -> Option<Rule> {
        self.schedule
    }

    /// The activation flag given so far, if any.
    pub closed spec fn activation(&self) -> Option<bool> {
        self.active
    }

    /// A builder with nothing set.
    pub fn new() -> (builder: Self)
        ensures
            builder.rule() is None,
            builder.activation() is None,
    {
        SchduleBuilder { schedule: None, active: None }
    }

    /// Sets the rule, replacing an earlier one.
    pub fn with_schedule(&mut self, schedule: Rule) -> (builder: &mut Self)
        ensures
            builder.rule() == Some(schedule),
            builder.activation() == old(self).activation(),
            *final(self) == *final(builder),
    {
        self.schedule = Some(schedule);
        self
    }

    /// Sets the activation flag, replacing an earlier one.
    pub fn activate(&mut self, activate: bool) -> (builder: &mut Self)
        ensures
            builder.rule() == old(self).rule(),
            builder.activation() == Some(activate),
            *final(self) == *final(builder),
    {
        self.active = Some(activate);
        self
    }

    /// Reads the rule from a cron expression and sets it. A text that is no
    /// cron expression is reported and leaves the builder as it was.
    pub fn with_schedule_str(&mut self, schedule: &str) -> (outcome: Result<&mut Self, ParseError>)
        ensures
            outcome is Ok <==> is_cron_expression(schedule@),
            outcome matches Ok(builder) ==> {
                &&& builder.rule() matches Some(parsed)
                &&& parsed@ == schedule@
                &&& builder.activation() == old(self).activation()
                &&& *final(self) == *final(builder)
            },
            outcome matches Err(error) ==> {
                &&& *final(self) == *old(self)
                &&& error.expression@ == schedule@
            },
    {
        match Rule::parse(schedule) {
            Ok(parsed) => {
                self.schedule = Some(parsed);
                Ok(self)
            },
            Err(error) => Err(error),
        }
    }

    /// Assembles the schedule around the job's body. The rule is asked for
    /// first, then the activation flag; nothing else can fail.
    pub fn build<T>(self, callback: T) -> (built: Result<Schedule, BuildError>) where T: Job
        ensures
            match built {
                Ok(schedule) => {
                    &&& self.rule() == Some(schedule.rule())
                    &&& self.activation() == Some(schedule.active())
                },
                Err(BuildError::MissingSchedule) => self.rule() is None,
                Err(BuildError::MissingActivation) => {
                    &&& self.rule() is Some
                    &&& self.activation() is None
                },
            },
    {
        let schedule = match self.schedule {
            Some(given) => given,
            None => {
                return Err(BuildError::MissingSchedule);
            },
        };
        let active = match self.active {
            Some(given) => given,
            None => {
                return Err(BuildError::MissingActivation);
            },
        };
        Ok(Schedule { schedule, active, callback: guard_new(Box::new(callback)) })
    }
}

/// One job: its cron rule, whether it is reported as active, and its body
/// behind an execution guard.
pub struct Schedule {
    schedule: Rule,
    active: bool,
    callback: tokio::sync::Mutex<Box<dyn Job>>,
}

/// Puts a job's body behind a fresh `tokio::sync::Mutex`.
#[verifier::external_body]
fn guard_new(job: Box<dyn Job>) -> (guard: tokio::sync::Mutex<Box<dyn Job>>) {
    tokio::sync::Mutex::new(job)
}

/// Calls `tokio::sync::Mutex::try_lock`, which never waits. Whether the
/// guard is free depends on what other tasks are doing, so either answer may
/// come back.
#[verifier::external_body]
fn try_acquire<'a>(guard: &'a tokio::sync::Mutex<Box<dyn Job>>) -> (held: Option<
    tokio::sync::MutexGuard<'a, Box<dyn Job>>,
>) {
    guard.try_lock().ok()
}

/// Reaches the body through a held guard, by `DerefMut` of
/// `tokio::sync::MutexGuard`.
#[verifier::external_body]
fn held_job<'a, 'b>(held: &'a mut tokio::sync::MutexGuard<'b, Box<dyn Job>>) -> (job: &'a mut Box<
    dyn Job,
>) {
    &mut **held
}

/// Executes the body behind the guard if the guard was acquired, and drops
/// the fire otherwise. The guard is given back on return.
fn execute(held: Option<tokio::sync::MutexGuard<'_, Box<dyn Job>>>) -> (executed: bool)
    ensures
        executed == held is Some,
{
    match held {
        Some(mut guard) => {
            let job = held_job(&mut guard);
            job.run();
            true
        },
        None => false,
    }
}

impl Schedule {
    /// The rule that the schedule was built with.
    pub closed spec fn rule(&self) -> Rule {
        self.schedule
    }

    /// The activation flag that the schedule was built with.
    pub closed spec fn active(&self) -> bool {
        self.active
    }

    /// The cron expression of the rule.
    pub open spec fn source(&self) -> Seq<char> {
        self.rule()@
    }

    /// The next invocation as seen from the instant `now`.
    pub open spec fn next_invocation(&self, now: i64) -> Option<i64> {
        next_invocation_spec(self.source(), now)
    }

    /// A builder with nothing set.
    pub fn builder() -> (builder: SchduleBuilder)
        ensures
            builder.rule() is None,
            builder.activation() is None,
    {
        SchduleBuilder::new()
    }

    /// The rule of this schedule, which is always a valid one.
    pub fn get_schedule(&self) -> (rule: &Rule)
        ensures
            *rule == self.rule(),
            is_cron_expression(self.source()),
    {
        let text = self.schedule.source();
        &self.schedule
    }

    /// Whether the job is reported as active. The flag does not decide
    /// whether the job fires.
    pub fn is_active(&self) -> (active: bool)
        ensures
            active == self.active(),
    {
        self.active
    }

    /// The first instant strictly after `now` at which the rule matches, or
    /// `None` if it never matches again. Nothing is remembered between calls.
    pub fn next_invocation_after(&self, now: i64) -> (next: Option<i64>)
        ensures
            next == self.next_invocation(now),
    {
        self.schedule.next_invocation_after(now)
    }

    /// The next invocation as seen from the current reading of the clock.
    pub fn get_next_invocation(&self) -> (next: Option<i64>)
        ensures
            exists|now: i64| next == self.next_invocation(now),
    {
        let now: i64 = clock::now();
        let next = self.next_invocation_after(now);
        assert(next == self.next_invocation(now));
        next
    }

    /// Executes the body unless an earlier execution of this schedule still
    /// holds the guard, in which case the fire is dropped: it is neither
    /// queued nor tried again. Returns whether the body was executed. The
    /// guard is released when the body is done, however it ends.
    pub fn run(&self) -> (executed: bool) {
        execute(try_acquire(&self.callback))
    }
}

} // verus!
