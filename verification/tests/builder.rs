use std::str::FromStr;
use cronal::error::BuildError;
use cronal::rule::Rule;
use cronal::{SchduleBuilder, Schedule};

fn nothing() {}

fn every_minute() -> Rule {
    Rule::parse("0 * * * * *").unwrap()
}

#[test]
fn build_without_rule_reports_missing_schedule() {
    let mut builder = Schedule::builder();
    builder.activate(true);
    assert_eq!(builder.build(nothing).err(), Some(BuildError::MissingSchedule));
}

#[test]
fn build_without_anything_reports_missing_schedule_first() {
    let builder = SchduleBuilder::new();
    assert_eq!(builder.build(nothing).err(), Some(BuildError::MissingSchedule));
}

#[test]
fn build_without_activation_reports_missing_activation() {
    let mut builder = Schedule::builder();
    builder.with_schedule(every_minute());
    assert_eq!(builder.build(nothing).err(), Some(BuildError::MissingActivation));
}

#[test]
fn build_with_both_parts_keeps_them() {
    let mut builder = Schedule::builder();
    builder.with_schedule(every_minute()).activate(true);
    let built = builder.build(nothing).ok().unwrap();
    assert_eq!(built.get_schedule().source(), "0 * * * * *");
    assert!(built.is_active());
}

#[test]
fn inactive_schedule_builds() {
    let mut builder = Schedule::builder();
    builder.activate(false).with_schedule(every_minute());
    let built = builder.build(nothing).ok().unwrap();
    assert_eq!(built.get_schedule().source(), "0 * * * * *");
    assert!(!built.is_active());
}

#[test]
fn later_setting_replaces_earlier_one() {
    let mut builder = Schedule::builder();
    builder.with_schedule(every_minute()).activate(true);
    builder.with_schedule(Rule::parse("30 15 * * * *").unwrap()).activate(false);
    let built = builder.build(nothing).ok().unwrap();
    assert_eq!(built.get_schedule().source(), "30 15 * * * *");
    assert!(!built.is_active());
}

#[test]
fn rule_from_text_is_kept() {
    let mut builder = Schedule::builder();
    builder.with_schedule_str("0 30 9 * * Mon-Fri").ok().unwrap().activate(true);
    let built = builder.build(nothing).ok().unwrap();
    assert_eq!(built.get_schedule().source(), "0 30 9 * * Mon-Fri");
}

#[test]
fn bad_text_is_reported_and_leaves_the_builder_alone() {
    let mut builder = Schedule::builder();
    builder.with_schedule(every_minute()).activate(true);
    let error = builder.with_schedule_str("every now and then").err().unwrap();
    assert_eq!(error.expression, "every now and then");
    assert!(!error.reason.is_empty());
    let built = builder.build(nothing).ok().unwrap();
    assert_eq!(built.get_schedule().source(), "0 * * * * *");
}

#[test]
fn bad_text_alone_leaves_the_rule_missing() {
    let mut builder = Schedule::builder();
    builder.activate(true);
    assert!(builder.with_schedule_str("").is_err());
    assert_eq!(builder.build(nothing).err(), Some(BuildError::MissingSchedule));
}

#[test]
fn parse_accepts_what_the_cron_crate_accepts() {
    for text in ["0 * * * * *", "* * * * * * *", "@daily", "0 0 12 1 Jan *", "0 0 0 30 Feb *"] {
        assert_eq!(Rule::parse(text).is_ok(), cron::Schedule::from_str(text).is_ok(), "{}", text);
        assert_eq!(Rule::parse(text).ok().unwrap().source(), text);
    }
    for text in ["", "* * *", "61 * * * * *", "a b c d e f", "0 * * * * * * *"] {
        assert_eq!(Rule::parse(text).is_ok(), cron::Schedule::from_str(text).is_ok(), "{}", text);
        assert!(Rule::parse(text).is_err(), "{}", text);
    }
}

#[test]
fn parse_error_carries_the_parser_explanation() {
    let theirs = cron::Schedule::from_str("61 * * * * *").err().unwrap().to_string();
    let ours = Rule::parse("61 * * * * *").err().unwrap();
    assert_eq!(ours.reason, theirs);
    assert_eq!(ours.expression, "61 * * * * *");
}

#[test]
fn cloned_rule_has_the_same_source() {
    let rule = every_minute();
    assert_eq!(rule.clone().source(), rule.source());
}

#[test]
fn build_error_messages() {
    assert_eq!(BuildError::MissingSchedule.message(), "a schedule was not specified");
    assert_eq!(
        BuildError::MissingActivation.message(),
        "the schedule was not specified as active or not"
    );
}
