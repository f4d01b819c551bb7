use cronal::{CronJob, Schedule};

fn nothing() {}

fn schedule(text: &str, active: bool) -> Schedule {
    let mut builder = Schedule::builder();
    builder.with_schedule_str(text).ok().unwrap().activate(active);
    builder.build(nothing).ok().unwrap()
}

fn sorted(mut names: Vec<String>) -> Vec<String> {
    names.sort();
    names
}

#[test]
fn new_table_is_empty() {
    let table = CronJob::new(50);
    assert_eq!(table.get_delay(), 50);
    assert!(!table.has_job("a"));
    assert!(table.get_job("a").is_none());
    assert!(table.get_job_names().is_empty());
    assert!(table.upcoming(0).is_empty());
}

#[test]
fn second_insert_under_a_name_replaces_the_first() {
    let mut table = CronJob::new(50);
    assert!(table.insert_job("a", schedule("0 * * * * *", true)));
    assert!(!table.insert_job("a", schedule("30 * * * * *", false)));
    assert!(table.has_job("a"));
    let found = table.get_job("a").unwrap();
    assert_eq!(found.get_schedule().source(), "30 * * * * *");
    assert!(!found.is_active());
    assert!(table.get_job_names().is_empty());
    assert_eq!(table.upcoming(0).len(), 1);
}

#[test]
fn handle_to_a_replaced_schedule_stays_good() {
    let mut table = CronJob::new(50);
    table.insert_job("a", schedule("0 * * * * *", true));
    let old = table.get_job("a").unwrap();
    table.insert_job("a", schedule("30 * * * * *", false));
    assert_eq!(old.get_schedule().source(), "0 * * * * *");
    assert!(old.is_active());
    assert_eq!(old.next_invocation_after(0), Some(60));
}

#[test]
fn names_are_told_apart() {
    let mut table = CronJob::new(50);
    assert!(table.insert_job("a", schedule("0 * * * * *", true)));
    assert!(table.insert_job("b", schedule("1 * * * * *", true)));
    assert!(table.insert_job("", schedule("2 * * * * *", true)));
    assert!(table.insert_job("A", schedule("3 * * * * *", true)));
    assert!(table.has_job("a") && table.has_job("b") && table.has_job("") && table.has_job("A"));
    assert!(!table.has_job("ab"));
    assert_eq!(table.get_job("b").unwrap().get_schedule().source(), "1 * * * * *");
    assert_eq!(table.get_job("").unwrap().get_schedule().source(), "2 * * * * *");
    assert_eq!(sorted(table.get_job_names()), vec!["", "A", "a", "b"]);
}

#[test]
fn remove_reports_whether_there_was_a_job() {
    let mut table = CronJob::new(50);
    assert!(!table.remove_job("a"));
    table.insert_job("a", schedule("0 * * * * *", true));
    table.insert_job("b", schedule("0 * * * * *", true));
    table.insert_job("c", schedule("0 * * * * *", true));
    assert!(table.remove_job("b"));
    assert!(!table.has_job("b"));
    assert!(table.get_job("b").is_none());
    assert!(!table.remove_job("b"));
    assert!(table.has_job("a") && table.has_job("c"));
    assert_eq!(sorted(table.get_job_names()), vec!["a", "c"]);
    assert!(table.remove_job("a"));
    assert!(table.remove_job("c"));
    assert!(table.get_job_names().is_empty());
}

#[test]
fn removed_name_can_be_used_again() {
    let mut table = CronJob::new(50);
    assert!(table.insert_job("a", schedule("0 * * * * *", true)));
    assert!(table.remove_job("a"));
    assert!(table.insert_job("a", schedule("5 * * * * *", true)));
    assert_eq!(table.get_job("a").unwrap().get_schedule().source(), "5 * * * * *");
}

#[test]
fn only_active_jobs_are_named() {
    let mut table = CronJob::new(50);
    table.insert_job("on", schedule("0 * * * * *", true));
    table.insert_job("off", schedule("0 * * * * *", false));
    assert_eq!(table.get_job_names(), vec!["on"]);
    assert!(table.has_job("off"));
}

#[test]
fn names_follow_the_latest_flag() {
    let mut table = CronJob::new(50);
    table.insert_job("a", schedule("0 * * * * *", false));
    table.insert_job("b", schedule("0 * * * * *", true));
    assert_eq!(table.get_job_names(), vec!["b"]);
    table.insert_job("a", schedule("0 * * * * *", true));
    table.insert_job("b", schedule("0 * * * * *", false));
    assert_eq!(table.get_job_names(), vec!["a"]);
    table.remove_job("a");
    assert!(table.get_job_names().is_empty());
}

#[test]
fn delay_is_kept_as_given() {
    assert_eq!(CronJob::new(0).get_delay(), 0);
    assert_eq!(CronJob::new(u64::MAX).get_delay(), u64::MAX);
    let mut table = CronJob::new(250);
    table.insert_job("a", schedule("0 * * * * *", true));
    table.remove_job("a");
    assert_eq!(table.get_delay(), 250);
}
