//! The retry policy of a page fetch: at most three attempts, a fixed pause
//! after each failed one. The caller performs the attempts and the pauses and
//! reports each attempt's result; the policy says what to do next.

use vstd::prelude::*;

verus! {

/// How many attempts a fetch makes at most.
pub const MAX_ATTEMPTS: u32 = 3;

/// The pause after a failed attempt, in seconds.
pub const RETRY_DELAY_SECS: u64 = 2;

/// What one attempt to fetch a page gave.
#[derive(Clone, Debug, PartialEq, Eq)]
pub enum Attempt {
    /// The page text arrived.
    Succeeded(String),
    /// The attempt failed, whatever the cause.
    Failed,
}

impl View for Attempt {
    /// `Some(text)` for a success, `None` for a failure.
    type V = Option<Seq<char>>;

    open spec fn view(&self) -> Option<Seq<char>> {
        match self {
            Attempt::Succeeded(t) => Some(t@),
            Attempt::Failed => None,
        }
    }
}

/// How a fetch ended.
#[derive(Clone, Debug, PartialEq, Eq)]
pub enum FetchOutcome {
    /// The page text.
    Fetched(String),
    /// Every attempt failed.
    Exhausted,
}

impl View for FetchOutcome {
    /// `Some(text)` for a fetched page, `None` once attempts ran out.
    type V = Option<Seq<char>>;

    open spec fn view(&self) -> Option<Seq<char>> {
        match self {
            FetchOutcome::Fetched(t) => Some(t@),
            FetchOutcome::Exhausted => None,
        }
    }
}

/// What the caller does after reporting an attempt.
#[derive(Clone, Debug, PartialEq, Eq)]
pub enum NextStep {
    /// Wait this many seconds, then attempt again.
    RetryAfter(u64),
    /// The fetch is over.
    Finish(FetchOutcome),
}

/// Attempts left after an attempt that gave `a`, with `left` before it.
pub open spec fn left_after(left: nat, a: Option<Seq<char>>) -> nat {
    match a {
        Some(_) => left,
        None => if left > 0 {
            (left - 1) as nat
        } else {
            0
        },
    }
}

/// The outcome that an attempt giving `a` ends the fetch with, with `left`
/// attempts before it; `None` where another attempt follows.
pub open spec fn ends_with(left: nat, a: Option<Seq<char>>) -> Option<Option<Seq<char>>> {
    match a {
        Some(t) => Some(Some(t)),
        None => if left_after(left, a) == 0 {
            Some(None)
        } else {
            None
        },
    }
}

/// The outcome of a fetch with `left` attempts, whose attempts give `attempts`
/// in turn; `None` where it is not over when they run out.
pub open spec fn outcome_of(left: nat, attempts: Seq<Option<Seq<char>>>) -> Option<Option<Seq<char>>>
    decreases attempts.len(),
{
    if attempts.len() == 0 {
        None
    } else {
        match ends_with(left, attempts[0]) {
            Some(o) => Some(o),
            None => outcome_of(left_after(left, attempts[0]), attempts.drop_first()),
        }
    }
}

/// The state of one page fetch: how many attempts are left.
pub struct Fetcher {
    attempts_left: u32,
}

impl View for Fetcher {
    type V = nat;

    closed spec fn view(&self) -> nat {
        self.attempts_left as nat
    }
}

impl Fetcher {
    /// A fetch that has made no attempt yet.
    pub fn new() -> (r: Fetcher)
        ensures
            r@ == MAX_ATTEMPTS as nat,
    {
        Fetcher { attempts_left: MAX_ATTEMPTS }
    }

    /// How many attempts are left.
    pub fn attempts_left(&self) -> (r: u32)
        ensures
            r as nat == self@,
    {
        self.attempts_left
    }

    /// Takes in what an attempt gave and says what follows: a success ends
    /// the fetch with the page; a failure uses up an attempt and asks for a
    /// pause and another attempt, or ends the fetch as exhausted when none is
    /// left.
    pub fn record(&mut self, attempt: Attempt) -> (r: NextStep)
        ensures
            final(self)@ == left_after(old(self)@, attempt@),
            match r {
                NextStep::RetryAfter(secs) => secs == RETRY_DELAY_SECS && ends_with(
                    old(self)@,
                    attempt@,
                ) is None,
                NextStep::Finish(o) => ends_with(old(self)@, attempt@) == Some(o@),
            },
    {
        match attempt {
            Attempt::Succeeded(text) => NextStep::Finish(FetchOutcome::Fetched(text)),
            Attempt::Failed => {
                if self.attempts_left > 0 {
                    self.attempts_left = self.attempts_left - 1;
                }
                if self.attempts_left == 0 {
                    NextStep::Finish(FetchOutcome::Exhausted)
                } else {
                    NextStep::RetryAfter(RETRY_DELAY_SECS)
                }
            },
        }
    }
}

/// A fetch is over within its attempts: whatever the first three attempts
/// give, a fresh fetch has ended by then.
pub proof fn lemma_fetch_bounded(attempts: Seq<Option<Seq<char>>>)
    requires
        attempts.len() >= MAX_ATTEMPTS,
    ensures
        outcome_of(MAX_ATTEMPTS as nat, attempts) is Some,
{
    let a1 = attempts.drop_first();
    let a2 = a1.drop_first();
    assert(outcome_of(1, a2) is Some);
    assert(outcome_of(2, a1) is Some);
}

/// A fetch whose first three attempts all fail ends as exhausted.
pub proof fn lemma_three_failures_exhaust(attempts: Seq<Option<Seq<char>>>)
    requires
        attempts.len() >= MAX_ATTEMPTS,
        attempts[0] is None,
        attempts[1] is None,
        attempts[2] is None,
    ensures
        outcome_of(MAX_ATTEMPTS as nat, attempts) == Some(None::<Seq<char>>),
{
    let a1 = attempts.drop_first();
    let a2 = a1.drop_first();
    assert(outcome_of(1, a2) == Some(None::<Seq<char>>));
    assert(outcome_of(2, a1) == Some(None::<Seq<char>>));
}

} // verus!
