//! What an extraction reports while it runs and when it ends.

use vstd::prelude::*;

verus! {

/// A share of the work: `done` of `total` entries are written.
///
/// A fraction always has `done <= total` and `total > 0`, so it stands for a
/// number from 0 to 1.
#[derive(Clone, Copy, Debug, PartialEq, Eq, Structural)]
pub struct Fraction {
    done: usize,
    total: usize,
}

/// A fraction as plain values.
pub ghost struct FractionView {
    pub done: nat,
    pub total: nat,
}

impl FractionView {
    /// The fraction lies between 0 and 1.
    pub open spec fn in_range(self) -> bool {
        self.done <= self.total && self.total > 0
    }

    /// `self` is at most `other`, as rational numbers.
    pub open spec fn le(self, other: FractionView) -> bool {
        self.done * other.total <= other.done * self.total
    }

    /// The fraction is 1: everything is written.
    pub open spec fn is_whole(self) -> bool {
        self.done == self.total
    }
}

impl View for Fraction {
    type V = FractionView;

    closed spec fn view(&self) -> FractionView {
        FractionView { done: self.done as nat, total: self.total as nat }
    }
}

impl Fraction {
    #[verifier::type_invariant]
    spec fn in_range(&self) -> bool {
        self.done <= self.total && self.total > 0
    }

    /// The fraction `done / total`, where that is a number from 0 to 1.
    pub fn new(done: usize, total: usize) -> (fraction: Option<Fraction>)
        ensures
            fraction is Some <==> done <= total && total > 0,
            fraction matches Some(f) ==> f@ == (FractionView { done: done as nat, total: total as nat }),
    {
        if done <= total && total > 0 {
            Some(Fraction { done, total })
        } else {
            None
        }
    }

    /// Nothing is written yet: the fraction 0, as `0 / 1`.
    pub fn zero() -> (fraction: Fraction)
        ensures
            fraction@ == (FractionView { done: 0, total: 1 }),
    {
        Fraction { done: 0, total: 1 }
    }

    /// The number of entries written.
    pub fn done(&self) -> (done: usize)
        ensures
            done == self@.done,
            self@.in_range(),
    {
        proof {
            use_type_invariant(self);
        }
        self.done
    }

    /// The number of entries to write, never 0.
    pub fn total(&self) -> (total: usize)
        ensures
            total == self@.total,
            self@.in_range(),
    {
        proof {
            use_type_invariant(self);
        }
        self.total
    }
}

/// What the progress stream carries.
#[derive(Clone, Copy, Debug, PartialEq, Eq, Structural)]
pub enum ProgressEvent {
    /// So much of the work is done.
    Fraction(Fraction),
    /// The stream is finished. This is neither a fraction nor an error.
    Done,
}

/// A progress event as plain values.
pub ghost enum ProgressView {
    Fraction(FractionView),
    Done,
}

impl View for ProgressEvent {
    type V = ProgressView;

    open spec fn view(&self) -> ProgressView {
        match self {
            ProgressEvent::Fraction(f) => ProgressView::Fraction(f@),
            ProgressEvent::Done => ProgressView::Done,
        }
    }
}

/// How an extraction ended.
#[derive(Clone, Debug, PartialEq, Eq)]
pub enum ExtractionOutcome {
    /// Every entry to write was written.
    Success,
    /// The extraction stopped; the message says why.
    Failure(String),
}

/// An outcome as plain values.
pub ghost enum OutcomeView {
    Success,
    Failure(Seq<char>),
}

impl View for ExtractionOutcome {
    type V = OutcomeView;

    open spec fn view(&self) -> OutcomeView {
        match self {
            ExtractionOutcome::Success => OutcomeView::Success,
            ExtractionOutcome::Failure(message) => OutcomeView::Failure(message@),
        }
    }
}

/// The message of a failure whose cause is the input/output error described
/// by `description`.
pub open spec fn io_failure_message(description: Seq<char>) -> Seq<char> {
    "Error during export: "@ + description
}

/// The message of a failure where the worker ended without a result.
pub open spec fn worker_failure_message() -> Seq<char> {
    "extraction failed"@
}

impl ExtractionOutcome {
    /// The failure that an input/output error with this description causes.
    pub fn io_failure(description: &str) -> (outcome: ExtractionOutcome)
        ensures
            outcome@ == OutcomeView::Failure(io_failure_message(description@)),
    {
        let message = String::from_str("Error during export: ").concat(description);
        ExtractionOutcome::Failure(message)
    }

    /// The failure of a worker that ended without a result.
    pub fn worker_failure() -> (outcome: ExtractionOutcome)
        ensures
            outcome@ == OutcomeView::Failure(worker_failure_message()),
    {
        ExtractionOutcome::Failure(String::from_str("extraction failed"))
    }

    /// The outcome of a run, given what joining the worker gave: the worker's
    /// own outcome where it left one, the worker failure where it left none.
    pub fn of_worker(joined: Option<ExtractionOutcome>) -> (outcome: ExtractionOutcome)
        ensures
            outcome@ == match joined {
                Some(own) => own@,
                None => OutcomeView::Failure(worker_failure_message()),
            },
    {
        match joined {
            Some(own) => own,
            None => ExtractionOutcome::worker_failure(),
        }
    }

    /// A copy of this outcome.
    pub fn duplicate(&self) -> (copy: ExtractionOutcome)
        ensures
            copy@ == self@,
    {
        match self {
            ExtractionOutcome::Success => ExtractionOutcome::Success,
            ExtractionOutcome::Failure(message) => ExtractionOutcome::Failure(message.clone()),
        }
    }
}

} // verus!
