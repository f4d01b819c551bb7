//! Cron rules: reading one from text, and asking one for its next match.
//!
//! A rule is kept as the cron expression it was read from; the `cron` crate
//! judges the expression and evaluates it. Instants are whole seconds since
//! the Unix epoch, in UTC.

use std::str::FromStr;
use vstd::prelude::*;

use crate::error::ParseError;

verus! {

/// `cron::error::Error`, the parser's complaint about a text. It is only
/// carried from the parser to `describe`.
#[verifier::external_type_specification]
#[verifier::external_body]
pub struct ExCronError(cron::error::Error);

/// Whether `cron::Schedule::from_str` accepts the text.
pub uninterp spec fn is_cron_expression(text: Seq<char>) -> bool;

/// The first instant after `after` that the rule written as `expression`
/// matches: what the iterator of `cron::Schedule::after` yields first.
/// `None` when the rule matches no later instant, or when the text is no rule.
pub uninterp spec fn next_match(expression: Seq<char>, after: i64) -> Option<i64>;

/// The latest instant that the calendar of `chrono` can represent: the last
/// second of the year 262142.
pub const LAST_INSTANT: i64 = 8_210_266_876_799;

/// Calls `cron::Schedule::from_str` and keeps only whether it succeeded,
/// with the error if it did not. The text passes exactly when it is a cron
/// expression.
#[verifier::external_body]
fn try_expression(text: &str) -> (outcome: Result<(), cron::error::Error>)
    ensures
        outcome is Ok <==> is_cron_expression(text@),
{
    cron::Schedule::from_str(text).map(|_| ())
}

/// Renders a `cron::error::Error` through its `Display` impl. Nothing is
/// claimed about the wording.
#[verifier::external_body]
fn describe(error: &cron::error::Error) -> (reason: String) {
    error.to_string()
}

/// Takes the first item of `cron::Schedule::after` for the rule written as
/// `expression`, started at the given second. The result depends on the text
/// and on that second alone; a second that the calendar cannot represent
/// gives `None`. The evaluation steps one second past `after`, so the last
/// representable instant is left out.
#[verifier::external_body]
fn next_after(expression: &str, after: i64) -> (next: Option<i64>)
    requires
        after < LAST_INSTANT,
    ensures
        next == next_match(expression@, after),
{
    let rule = cron::Schedule::from_str(expression).ok()?;
    let start = chrono::DateTime::from_timestamp(after, 0)?;
    rule.after(&start).next().map(|found| found.timestamp())
}

/// What `Rule::next_invocation_after` returns: the rule's next match where
/// the calendar can hold the second after `now`, and nothing from there on.
pub open spec fn next_invocation_spec(expression: Seq<char>, now: i64) -> Option<i64> {
    if now < LAST_INSTANT {
        next_match(expression, now)
    } else {
        None
    }
}

/// A cron rule. Its view is the expression it was read from, which is
/// always one that the parser accepts.
#[derive(Debug)]
pub struct Rule {
    expression: String,
}

impl View for Rule {
    type V = Seq<char>;

    closed spec fn view(&self) -> Seq<char> {
        self.expression@
    }
}

impl Clone for Rule {
    fn clone(&self) -> (copy: Self)
        ensures
            copy@ == self@,
    {
        proof {
            use_type_invariant(self);
        }
        Rule { expression: self.expression.clone() }
    }
}

impl Rule {
    #[verifier::type_invariant]
    spec fn accepted(&self) -> bool {
        is_cron_expression(self.expression@)
    }

    /// Reads a rule from a cron expression.
    pub fn parse(text: &str) -> (parsed: Result<Rule, ParseError>)
        ensures
            parsed is Ok <==> is_cron_expression(text@),
            parsed matches Ok(rule) ==> rule@ == text@,
            parsed matches Err(error) ==> error.expression@ == text@,
    {
        match try_expression(text) {
            Ok(_) => Ok(Rule { expression: text.to_string() }),
            Err(error) => Err(
                ParseError { expression: text.to_string(), reason: describe(&error) },
            ),
        }
    }

    /// The cron expression of the rule.
    pub fn source(&self) -> (text: &str)
        ensures
            text@ == self@,
            is_cron_expression(self@),
    {
        proof {
            use_type_invariant(self);
        }
        self.expression.as_str()
    }

    /// The first instant strictly after `now` at which the rule matches, if
    /// any.
    pub fn next_invocation_after(&self, now: i64) -> (next: Option<i64>)
        ensures
            next == next_invocation_spec(self@, now),
    {
        if now < LAST_INSTANT {
            next_after(self.expression.as_str(), now)
        } else {
            None
        }
    }
}

} // verus!
