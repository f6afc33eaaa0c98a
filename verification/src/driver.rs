//! Clicking an element that may not yet take a click.
//!
//! A remote browser often reports an element as not interactable for a moment
//! after it appears. That one failure is retried at once; every other failure
//! is handed on. The number of retries is unbounded unless the policy sets a
//! ceiling.

use vstd::prelude::*;

verus! {

/// What the transport said of one attempt to click.
#[derive(Clone, Copy, Debug, PartialEq, Eq, Structural)]
pub enum ClickOutcome {
    Clicked,
    /// The element cannot take a click right now.
    NotInteractable,
    /// Any other failure.
    Failed,
}

/// What to do after an attempt.
#[derive(Clone, Copy, Debug, PartialEq, Eq, Structural)]
pub enum ClickDecision {
    /// The click went through.
    Done,
    /// Click again, without delay.
    Retry,
    /// Hand the transport's error on.
    Propagate,
    /// The ceiling on retries is reached: give up.
    Exhausted,
}

/// How long to keep retrying.
#[derive(Clone, Copy, Debug, PartialEq, Eq, Structural)]
pub struct RetryPolicy {
    /// The most retries allowed; `None` for no ceiling.
    pub ceiling: Option<u32>,
}

/// The decision after an attempt that followed `retries` retries.
pub open spec fn spec_after_click(
    policy: RetryPolicy,
    retries: u32,
    outcome: ClickOutcome,
) -> ClickDecision {
    match outcome {
        ClickOutcome::Clicked => ClickDecision::Done,
        ClickOutcome::Failed => ClickDecision::Propagate,
        ClickOutcome::NotInteractable => match policy.ceiling {
            None => ClickDecision::Retry,
            Some(most) => if retries < most {
                ClickDecision::Retry
            } else {
                ClickDecision::Exhausted
            },
        },
    }
}

impl RetryPolicy {
    /// Retry for as long as the element is not interactable.
    pub fn unbounded() -> (p: RetryPolicy)
        ensures
            p.ceiling is None,
    {
        RetryPolicy { ceiling: None }
    }

    /// Retry at most `most` times.
    pub fn at_most(most: u32) -> (p: RetryPolicy)
        ensures
            p.ceiling == Some(most),
    {
        RetryPolicy { ceiling: Some(most) }
    }

    /// Decides what follows an attempt that was preceded by `retries` retries.
    pub fn after_click(&self, retries: u32, outcome: ClickOutcome) -> (d: ClickDecision)
        ensures
            d == spec_after_click(*self, retries, outcome),
    {
        match outcome {
            ClickOutcome::Clicked => ClickDecision::Done,
            ClickOutcome::Failed => ClickDecision::Propagate,
            ClickOutcome::NotInteractable => match self.ceiling {
                None => ClickDecision::Retry,
                Some(most) => if retries < most {
                    ClickDecision::Retry
                } else {
                    ClickDecision::Exhausted
                },
            },
        }
    }
}

/// Only the transient failure is ever retried, and under a ceiling never more
/// often than the ceiling allows.
pub proof fn lemma_retry_only_transient(policy: RetryPolicy, retries: u32, outcome: ClickOutcome)
    ensures
        spec_after_click(policy, retries, outcome) == ClickDecision::Retry ==> outcome
            == ClickOutcome::NotInteractable,
        spec_after_click(policy, retries, outcome) == ClickDecision::Retry ==> (
        policy.ceiling matches Some(most) ==> retries < most),
{
}

} // verus!
