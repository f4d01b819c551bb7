//! The job table and one poll of it.

use std::sync::Arc;
use vstd::prelude::*;

use crate::clock;
use crate::config::Schedule;

verus! {

/// The table of jobs, each under a name of its own, and the delay between
/// two polls. Its view maps every name to the schedule registered under it.
///
/// A schedule sits behind a shared handle: whoever holds a handle keeps the
/// schedule alive and can run it, whatever happens to the table afterwards.
pub struct CronJob {
    delay: u64,
    schedules: Vec<(String, Arc<Schedule>)>,
}

/// The names of a list of entries, in the order of the entries.
spec fn names_of(entries: Seq<(String, Arc<Schedule>)>) -> Seq<Seq<char>> {
    entries.map_values(|entry: (String, Arc<Schedule>)| entry.0@)
}

/// In a list without repeated names, a name is found where it stands.
proof fn lemma_index_of_distinct(names: Seq<Seq<char>>, at: int)
    requires
        names.no_duplicates(),
        0 <= at < names.len(),
    ensures
        names.contains(names[at]),
        names.index_of(names[at]) == at,
{
    assert(names.contains(names[at]));
    let found = names.index_of(names[at]);
    assert(0 <= found < names.len() && names[found] == names[at]);
}

/// The texts of a list of names, in the order of the list.
pub open spec fn texts(names: Seq<String>) -> Seq<Seq<char>> {
    names.map_values(|name: String| name@)
}

/// How the result of a scan reads: each name as text, beside the next
/// invocation that was computed for it.
pub open spec fn scan_view(list: Seq<(String, Option<i64>)>) -> Seq<(Seq<char>, Option<i64>)> {
    list.map_values(|entry: (String, Option<i64>)| (entry.0@, entry.1))
}

/// How a list of jobs to dispatch reads: each name as text, beside the
/// schedule that its handle leads to.
pub open spec fn dispatch_view(jobs: Seq<(String, Arc<Schedule>)>) -> Seq<(Seq<char>, Schedule)> {
    jobs.map_values(|job: (String, Arc<Schedule>)| (job.0@, *job.1))
}

/// A job is due at `now` when a next invocation was computed for it and that
/// instant is `now` or earlier.
pub open spec fn due(next: Option<i64>, now: i64) -> bool {
    next matches Some(instant) && instant <= now
}

/// Whether a job with the given next invocation is due at `now`.
pub fn is_due(next: Option<i64>, now: i64) -> (fire: bool)
    ensures
        fire == due(next, now),
{
    match next {
        Some(instant) => instant <= now,
        None => false,
    }
}

impl View for CronJob {
    type V = Map<Seq<char>, Schedule>;

    closed spec fn view(&self) -> Map<Seq<char>, Schedule> {
        let names = names_of(self.schedules@);
        Map::new(
            |name: Seq<char>| names.contains(name),
            |name: Seq<char>| *self.schedules@[names.index_of(name)].1,
        )
    }
}

impl CronJob {
    #[verifier::type_invariant]
    spec fn names_are_distinct(&self) -> bool {
        names_of(self.schedules@).no_duplicates()
    }

    /// The delay between two polls, in milliseconds.
    pub closed spec fn delay(&self) -> u64 {
        self.delay
    }

    /// An empty table that is to be polled every `delay` milliseconds.
    pub fn new(delay: u64) -> (table: Self)
        ensures
            table@ == Map::<Seq<char>, Schedule>::empty(),
            table.delay() == delay,
    {
        let table = CronJob { delay, schedules: Vec::new() };
        assert(table@ =~= Map::<Seq<char>, Schedule>::empty());
        table
    }

    /// The delay between two polls, in milliseconds.
    pub fn get_delay(&self) -> (delay: u64)
        ensures
            delay == self.delay(),
    {
        self.delay
    }

    /// Where the entry of the given name stands, if there is one.
    fn position(&self, job_name: &String) -> (found: Option<usize>)
        ensures
            match found {
                Some(at) => at < self.schedules.len() && self.schedules[at as int].0@ == job_name@,
                None => !names_of(self.schedules@).contains(job_name@),
            },
    {
        let mut at: usize = 0;
        while at < self.schedules.len()
            invariant
                at <= self.schedules.len(),
                forall|before: int| 0 <= before < at ==> self.schedules[before].0@ != job_name@,
            decreases self.schedules.len() - at,
        {
            if self.schedules[at].0 == *job_name {
                return Some(at);
            }
            at += 1;
        }
        None
    }

    /// Whether a job is registered under the name.
    pub fn has_job(&self, job_name: &str) -> (present: bool)
        ensures
            present == self@.contains_key(job_name@),
    {
        let name = job_name.to_string();
        match self.position(&name) {
            Some(at) => {
                assert(names_of(self.schedules@)[at as int] == job_name@);
                true
            },
            None => false,
        }
    }

    /// Registers the schedule under the name. Returns `true` if the name was
    /// free, and `false` if the schedule took the place of an earlier one.
    /// A handle to the earlier schedule that is still held elsewhere stays
    /// good.
    pub fn insert_job(&mut self, job_name: &str, schedule: Schedule) -> (created: bool)
        ensures
            created == !old(self)@.contains_key(job_name@),
            final(self)@ == old(self)@.insert(job_name@, schedule),
            final(self).delay() == old(self).delay(),
    {
        proof {
            use_type_invariant(&*self);
        }
        let name = job_name.to_string();
        let ghost before = self.schedules@;
        let ghost names = names_of(before);
        match self.position(&name) {
            Some(at) => {
                let mut entries: Vec<(String, Arc<Schedule>)> = Vec::new();
                std::mem::swap(&mut self.schedules, &mut entries);
                entries.set(at, (name, Arc::new(schedule)));
                assert(names_of(entries@) =~= names);
                self.schedules = entries;
                proof {
                    let after = self.schedules@;
                    assert(names_of(after) =~= names);
                    assert(names[at as int] == job_name@);
                    lemma_index_of_distinct(names, at as int);
                    assert forall|other: Seq<char>| names.contains(other) && other != job_name@
                    implies names.index_of(other) != at by {
                        let found = names.index_of(other);
                        assert(0 <= found < names.len() && names[found] == other);
                    }
                    assert(self@ =~= old(self)@.insert(job_name@, schedule));
                }
                false
            },
            None => {
                let mut entries: Vec<(String, Arc<Schedule>)> = Vec::new();
                std::mem::swap(&mut self.schedules, &mut entries);
                entries.push((name, Arc::new(schedule)));
                assert(names_of(entries@) =~= names.push(job_name@));
                self.schedules = entries;
                proof {
                    let after = self.schedules@;
                    let grown = names_of(after);
                    assert forall|other: Seq<char>| grown.contains(other) <==> (names.contains(other)
                        || other == job_name@) by {
                        if names.contains(other) {
                            let found = names.index_of(other);
                            assert(0 <= found < names.len() && names[found] == other);
                            assert(grown[found] == other);
                        }
                        if other == job_name@ {
                            assert(grown[names.len() as int] == other);
                        }
                    }
                    assert forall|other: Seq<char>| names.contains(other) implies grown.index_of(
                        other,
                    ) == names.index_of(other) by {
                        let found = names.index_of(other);
                        assert(0 <= found < names.len() && names[found] == other);
                        assert(grown[found] == other);
                        assert(grown.contains(other));
                        let again = grown.index_of(other);
                        assert(0 <= again < grown.len() && grown[again] == other);
                    }
                    assert(grown.contains(job_name@));
                    let last = grown.index_of(job_name@);
                    assert(0 <= last < grown.len() && grown[last] == job_name@);
                    assert(last == names.len());
                    assert(self@ =~= old(self)@.insert(job_name@, schedule));
                }
                true
            },
        }
    }

    /// Takes the job of the given name out of the table. Returns `true` if
    /// there was one. A handle to its schedule that is still held elsewhere
    /// stays good.
    pub fn remove_job(&mut self, job_name: &str) -> (removed: bool)
        ensures
            removed == old(self)@.contains_key(job_name@),
            final(self)@ == old(self)@.remove(job_name@),
            final(self).delay() == old(self).delay(),
    {
        proof {
            use_type_invariant(&*self);
        }
        let name = job_name.to_string();
        let ghost before = self.schedules@;
        let ghost names = names_of(before);
        match self.position(&name) {
            Some(at) => {
                let mut entries: Vec<(String, Arc<Schedule>)> = Vec::new();
                std::mem::swap(&mut self.schedules, &mut entries);
                entries.remove(at);
                assert(names_of(entries@) =~= names.remove(at as int));
                self.schedules = entries;
                proof {
                    let after = self.schedules@;
                    let fewer = names_of(after);
                    assert(names[at as int] == job_name@);
                    assert(after =~= before.remove(at as int));
                    assert forall|other: Seq<char>| fewer.contains(other) <==> (names.contains(other)
                        && other != job_name@) by {
                        if fewer.contains(other) {
                            let found = fewer.index_of(other);
                            assert(0 <= found < fewer.len() && fewer[found] == other);
                            let origin = if found < at { found } else { found + 1 };
                            assert(names[origin] == other);
                        }
                        if names.contains(other) && other != job_name@ {
                            let found = names.index_of(other);
                            assert(0 <= found < names.len() && names[found] == other);
                            let target = if found < at { found } else { found - 1 };
                            assert(fewer[target] == other);
                        }
                    }
                    assert forall|other: Seq<char>| fewer.contains(other) implies after[fewer.index_of(
                        other,
                    )] == before[names.index_of(other)] by {
                        let found = fewer.index_of(other);
                        assert(0 <= found < fewer.len() && fewer[found] == other);
                        let origin = if found < at { found } else { found + 1 };
                        assert(names[origin] == other);
                        lemma_index_of_distinct(names, origin);
                    }
                    assert(self@ =~= old(self)@.remove(job_name@));
                }
                true
            },
            None => {
                assert(self@ =~= old(self)@.remove(job_name@));
                false
            },
        }
    }

    /// A handle to the schedule registered under the name, if there is one.
    pub fn get_job(&self, job_name: &str) -> (handle: Option<Arc<Schedule>>)
        ensures
            match handle {
                Some(shared) => self@.contains_key(job_name@) && *shared == self@[job_name@],
                None => !self@.contains_key(job_name@),
            },
    {
        proof {
            use_type_invariant(self);
        }
        let name = job_name.to_string();
        match self.position(&name) {
            Some(at) => {
                proof {
                    assert(names_of(self.schedules@)[at as int] == job_name@);
                    lemma_index_of_distinct(names_of(self.schedules@), at as int);
                }
                Some(self.schedules[at].1.clone())
            },
            None => None,
        }
    }

    /// The names of the jobs whose schedule is marked active, each once, in
    /// no particular order.
    pub fn get_job_names(&self) -> (active_names: Vec<String>)
        ensures
            texts(active_names@).no_duplicates(),
            forall|name: Seq<char>|
                texts(active_names@).contains(name) <==> (self@.contains_key(name)
                    && self@[name].active()),
    {
        proof {
            use_type_invariant(self);
        }
        let ghost names = names_of(self.schedules@);
        let ghost mut origin: Seq<int> = Seq::empty();
        let mut active_names: Vec<String> = Vec::new();
        let mut at: usize = 0;
        while at < self.schedules.len()
            invariant
                at <= self.schedules.len(),
                names == names_of(self.schedules@),
                names.no_duplicates(),
                origin.len() == active_names.len(),
                forall|k: int|
                    0 <= k < origin.len() ==> 0 <= #[trigger] origin[k] < at
                        && self.schedules[origin[k]].1.active() && active_names[k]@
                        == names[origin[k]],
                forall|j: int, k: int|
                    0 <= j < k < origin.len() ==> #[trigger] origin[j] < #[trigger] origin[k],
                forall|i: int|
                    0 <= i < at && (#[trigger] self.schedules[i]).1.active() ==> origin.contains(i),
            decreases self.schedules.len() - at,
        {
            if self.schedules[at].1.is_active() {
                let name = self.schedules[at].0.clone();
                active_names.push(name);
                proof {
                    let earlier = origin;
                    origin = origin.push(at as int);
                    assert forall|i: int|
                        0 <= i < at + 1 && (#[trigger] self.schedules[i]).1.active()
                    implies origin.contains(i) by {
                        if i < at {
                            let k = earlier.index_of(i);
                            assert(earlier.contains(i));
                            assert(0 <= k < earlier.len() && earlier[k] == i);
                            assert(origin[k] == i);
                        } else {
                            assert(origin[earlier.len() as int] == i);
                        }
                    }
                }
            }
            at += 1;
        }
        proof {
            let listed = texts(active_names@);
            assert forall|j: int, k: int| 0 <= j < listed.len() && 0 <= k < listed.len() && j != k
            implies listed[j] != listed[k] by {
                assert(origin[j] != origin[k]);
            }
            assert forall|name: Seq<char>|
                listed.contains(name) <==> (self@.contains_key(name) && self@[name].active()) by {
                if listed.contains(name) {
                    let k = listed.index_of(name);
                    assert(0 <= k < listed.len() && listed[k] == name);
                    lemma_index_of_distinct(names, origin[k]);
                }
                if self@.contains_key(name) && self@[name].active() {
                    let i = names.index_of(name);
                    assert(0 <= i < names.len() && names[i] == name);
                    assert(self.schedules[i].1.active());
                    assert(origin.contains(i));
                    let k = origin.index_of(i);
                    assert(0 <= k < origin.len() && origin[k] == i);
                    assert(listed[k] == name);
                }
            }
        }
        active_names
    }

    /// Whether `pairs` is a scan of this table at the instant `now`: every
    /// job once, beside its next invocation as seen from `now`.
    pub open spec fn is_scan(&self, pairs: Seq<(Seq<char>, Option<i64>)>, now: i64) -> bool {
        &&& pairs.map_values(|pair: (Seq<char>, Option<i64>)| pair.0).no_duplicates()
        &&& forall|name: Seq<char>, next: Option<i64>|
            pairs.contains((name, next)) <==> (self@.contains_key(name) && next
                == self@[name].next_invocation(now))
    }

    /// The jobs to dispatch at `now` for the scan results `pairs`: those that
    /// are due and still in the table, in the order of `pairs`.
    pub open spec fn dispatch(&self, pairs: Seq<(Seq<char>, Option<i64>)>, now: i64) -> Seq<
        (Seq<char>, Schedule),
    > {
        pairs.filter_map(
            |pair: (Seq<char>, Option<i64>)|
                if due(pair.1, now) && self@.contains_key(pair.0) {
                    Some((pair.0, self@[pair.0]))
                } else {
                    None
                },
        )
    }

    /// Scans the table: asks every schedule, active or not, for its next
    /// invocation as seen from `now`.
    pub fn upcoming(&self, now: i64) -> (list: Vec<(String, Option<i64>)>)
        ensures
            self.is_scan(scan_view(list@), now),
    {
        proof {
            use_type_invariant(self);
        }
        let ghost names = names_of(self.schedules@);
        let mut list: Vec<(String, Option<i64>)> = Vec::new();
        let mut at: usize = 0;
        while at < self.schedules.len()
            invariant
                at <= self.schedules.len(),
                list.len() == at,
                forall|k: int|
                    0 <= k < at ==> (#[trigger] list[k]).0@ == self.schedules[k].0@ && list[k].1
                        == self.schedules[k].1.next_invocation(now),
            decreases self.schedules.len() - at,
        {
            let name = self.schedules[at].0.clone();
            let next = self.schedules[at].1.next_invocation_after(now);
            list.push((name, next));
            at += 1;
        }
        proof {
            let pairs = scan_view(list@);
            assert(pairs.map_values(|pair: (Seq<char>, Option<i64>)| pair.0) =~= names);
            assert forall|name: Seq<char>, next: Option<i64>|
                pairs.contains((name, next)) <==> (self@.contains_key(name) && next
                    == self@[name].next_invocation(now)) by {
                if pairs.contains((name, next)) {
                    let k = pairs.index_of((name, next));
                    assert(0 <= k < pairs.len() && pairs[k] == (name, next));
                    assert(names[k] == name);
                    lemma_index_of_distinct(names, k);
                }
                if self@.contains_key(name) && next == self@[name].next_invocation(now) {
                    let k = names.index_of(name);
                    assert(0 <= k < names.len() && names[k] == name);
                    assert(pairs[k] == (name, next));
                }
            }
        }
        list
    }

    /// Picks the jobs to dispatch: for every scan result that is due at
    /// `now`, the name and a handle to the schedule registered under it.
    pub fn due_jobs(&self, upcoming: &Vec<(String, Option<i64>)>, now: i64) -> (jobs: Vec<
        (String, Arc<Schedule>),
    >)
        ensures
            dispatch_view(jobs@) == self.dispatch(scan_view(upcoming@), now),
    {
        proof {
            use_type_invariant(self);
        }
        let ghost pairs = scan_view(upcoming@);
        let ghost pick = |pair: (Seq<char>, Option<i64>)|
            if due(pair.1, now) && self@.contains_key(pair.0) {
                Some((pair.0, self@[pair.0]))
            } else {
                None
            };
        let mut jobs: Vec<(String, Arc<Schedule>)> = Vec::new();
        let mut at: usize = 0;
        assert(pairs.take(0).filter_map(pick) =~= Seq::empty());
        while at < upcoming.len()
            invariant
                at <= upcoming.len(),
                pairs == scan_view(upcoming@),
                names_of(self.schedules@).no_duplicates(),
                pick == |pair: (Seq<char>, Option<i64>)|
                    if due(pair.1, now) && self@.contains_key(pair.0) {
                        Some((pair.0, self@[pair.0]))
                    } else {
                        None
                    },
                dispatch_view(jobs@) =~= pairs.take(at as int).filter_map(pick),
            decreases upcoming.len() - at,
        {
            let ghost chosen = dispatch_view(jobs@);
            proof {
                pairs.lemma_filter_map_take_succ(pick, at as int);
            }
            if is_due(upcoming[at].1, now) {
                match self.position(&upcoming[at].0) {
                    Some(found) => {
                        proof {
                            let names = names_of(self.schedules@);
                            assert(names[found as int] == pairs[at as int].0);
                            lemma_index_of_distinct(names, found as int);
                        }
                        let name = upcoming[at].0.clone();
                        let handle = self.schedules[found].1.clone();
                        jobs.push((name, handle));
                        assert(dispatch_view(jobs@) =~= chosen.push(
                            (pairs[at as int].0, self@[pairs[at as int].0]),
                        ));
                    },
                    None => {},
                }
            }
            at += 1;
        }
        assert(pairs.take(at as int) =~= pairs);
        jobs
    }

    /// One poll of the table: reads the clock and scans, then reads the
    /// clock again and picks the jobs that are due by then. Running them is
    /// left to the caller.
    pub fn poll(&self) -> (jobs: Vec<(String, Arc<Schedule>)>)
        ensures
            exists|scanned_at: i64, now: i64, pairs: Seq<(Seq<char>, Option<i64>)>|
                self.is_scan(pairs, scanned_at) && dispatch_view(jobs@) == self.dispatch(
                    pairs,
                    now,
                ),
    {
        let scanned_at: i64 = clock::now();
        let list = self.upcoming(scanned_at);
        let now: i64 = clock::now();
        let jobs = self.due_jobs(&list, now);
        assert(self.is_scan(scan_view(list@), scanned_at) && dispatch_view(jobs@) == self.dispatch(
            scan_view(list@),
            now,
        ));
        jobs
    }
}

} // verus!
