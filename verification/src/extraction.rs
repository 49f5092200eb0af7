//! The extraction run as a state machine.
//!
//! The worker that owns the bundle reader and the output directory asks the
//! machine what to do, does it, and reports back how it went. The machine
//! decides which entries are written, what progress is reported and when, and
//! how the run ends; it does no input or output itself.

use crate::filter::{should_extract, should_take};
use crate::progress::{
    io_failure_message, worker_failure_message, ExtractionOutcome, Fraction, FractionView,
    OutcomeView, ProgressEvent, ProgressView,
};
use vstd::prelude::*;

verus! {

/// The paths of `paths` as plain values, in the same order.
pub open spec fn path_views(paths: Seq<String>) -> Seq<Seq<char>> {
    paths.map_values(|p: String| p@)
}

/// The paths that an extraction writes, in the order of the bundle.
pub open spec fn extractable(paths: Seq<Seq<char>>, skip_resources: bool) -> Seq<Seq<char>> {
    paths.filter(|p: Seq<char>| should_extract(p, skip_resources))
}

/// The number of entries that an extraction writes.
pub open spec fn extractable_count(paths: Seq<Seq<char>>, skip_resources: bool) -> nat {
    extractable(paths, skip_resources).len()
}

/// One more path adds one to the count if it is written and nothing if not.
pub proof fn lemma_count_push(paths: Seq<Seq<char>>, path: Seq<char>, skip_resources: bool)
    ensures
        extractable_count(paths.push(path), skip_resources) == extractable_count(
            paths,
            skip_resources,
        ) + if should_extract(path, skip_resources) {
            1nat
        } else {
            0nat
        },
{
    paths.lemma_filter_len_push(|p: Seq<char>| should_extract(p, skip_resources), path);
}

/// The count over the first `n` paths, one step at a time.
pub proof fn lemma_count_take(paths: Seq<Seq<char>>, n: int, skip_resources: bool)
    requires
        0 <= n < paths.len(),
    ensures
        extractable_count(paths.take(n + 1), skip_resources) == extractable_count(
            paths.take(n),
            skip_resources,
        ) + if should_extract(paths[n], skip_resources) {
            1nat
        } else {
            0nat
        },
        extractable_count(paths.take(n + 1), skip_resources) <= extractable_count(
            paths,
            skip_resources,
        ),
{
    assert(paths.take(n + 1) =~= paths.take(n).push(paths[n]));
    lemma_count_push(paths.take(n), paths[n], skip_resources);
    paths.lemma_filter_take_len(|p: Seq<char>| should_extract(p, skip_resources), n + 1);
}

/// Counts the entries that an extraction writes: all of them when resources
/// are kept, all but the companion resources when they are skipped.
pub fn count_extractable(paths: &Vec<String>, skip_resources: bool) -> (total: usize)
    ensures
        total == extractable_count(path_views(paths@), skip_resources),
{
    let ghost views = path_views(paths@);
    let mut total: usize = 0;
    let mut i: usize = 0;
    proof {
        assert(views.take(0) =~= Seq::<Seq<char>>::empty());
        reveal(Seq::filter);
    }
    while i < paths.len()
        invariant
            i <= paths.len(),
            views == path_views(paths@),
            total <= i,
            total == extractable_count(views.take(i as int), skip_resources),
        decreases paths.len() - i,
    {
        proof {
            lemma_count_take(views, i as int, skip_resources);
        }
        if should_take(paths[i].as_str(), skip_resources) {
            total += 1;
        }
        i += 1;
    }
    assert(views.take(i as int) =~= views);
    total
}

/// What the worker reports of the action it was given.
#[derive(Clone, Debug, PartialEq, Eq)]
pub enum Reply {
    /// The action was carried out.
    Done,
    /// The action failed; the text describes the error.
    Failed(String),
}

/// A reply as plain values.
pub ghost enum ReplyView {
    Done,
    Failed(Seq<char>),
}

impl View for Reply {
    type V = ReplyView;

    open spec fn view(&self) -> ReplyView {
        match self {
            Reply::Done => ReplyView::Done,
            Reply::Failed(description) => ReplyView::Failed(description@),
        }
    }
}

/// What the worker is to do next.
#[derive(Clone, Debug, PartialEq, Eq)]
pub enum Action {
    /// Pass over the entry at `index` without reading its bytes.
    Skip { index: usize },
    /// Read the entry at `index` in full and write it to `path` under the
    /// output directory, creating the directories that are missing.
    Write { index: usize, path: String },
    /// Send the event on the progress stream and wait until it is taken.
    Emit(ProgressEvent),
    /// Reveal the output directory. A failure to do so is of no account.
    Reveal,
    /// Fire the completion signal: the run has ended with this outcome.
    Complete(ExtractionOutcome),
}

/// An action as plain values.
pub ghost enum ActionView {
    Skip { index: nat },
    Write { index: nat, path: Seq<char> },
    Emit(ProgressView),
    Reveal,
    Complete(OutcomeView),
}

impl View for Action {
    type V = ActionView;

    open spec fn view(&self) -> ActionView {
        match self {
            Action::Skip { index } => ActionView::Skip { index: *index as nat },
            Action::Write { index, path } => ActionView::Write { index: *index as nat, path: path@ },
            Action::Emit(event) => ActionView::Emit(event@),
            Action::Reveal => ActionView::Reveal,
            Action::Complete(outcome) => ActionView::Complete(outcome@),
        }
    }
}

/// Where a run stands.
pub ghost enum PhaseView {
    /// Going through the entries; behind the last one the stream is closed.
    Entries,
    /// An entry was written and its progress is being reported.
    Reporting,
    /// The stream is closed and the output directory is being revealed.
    Revealing,
    /// The run has ended.
    Finished(OutcomeView),
}

/// A run as plain values: the paths of the bundle's entries in the order of
/// the bundle, whether resources are skipped, how many entries are dealt with,
/// and where the run stands.
pub ghost struct ExtractionView {
    pub paths: Seq<Seq<char>>,
    pub skip_resources: bool,
    pub cursor: nat,
    pub phase: PhaseView,
}

impl ExtractionView {
    /// A run that has dealt with no entry yet.
    pub open spec fn start(paths: Seq<Seq<char>>, skip_resources: bool) -> ExtractionView {
        ExtractionView { paths, skip_resources, cursor: 0, phase: PhaseView::Entries }
    }

    /// The cursor is within the entries, and progress is reported only of an
    /// entry that was written.
    pub open spec fn wf(self) -> bool {
        &&& self.cursor <= self.paths.len()
        &&& self.phase is Reporting ==> self.cursor > 0 && should_extract(
            self.paths[self.cursor - 1],
            self.skip_resources,
        )
    }

    /// The number of entries that the run writes in all.
    pub open spec fn total(self) -> nat {
        extractable_count(self.paths, self.skip_resources)
    }

    /// The number of entries written so far.
    pub open spec fn written(self) -> nat {
        extractable_count(self.paths.take(self.cursor as int), self.skip_resources)
    }

    /// The run has ended.
    pub open spec fn finished(self) -> bool {
        self.phase is Finished
    }

    /// What the worker is to do in this state.
    pub open spec fn pending(self) -> ActionView {
        match self.phase {
            PhaseView::Entries => if self.cursor < self.paths.len() {
                if should_extract(self.paths[self.cursor as int], self.skip_resources) {
                    ActionView::Write { index: self.cursor, path: self.paths[self.cursor as int] }
                } else {
                    ActionView::Skip { index: self.cursor }
                }
            } else {
                ActionView::Emit(ProgressView::Done)
            },
            PhaseView::Reporting => ActionView::Emit(
                ProgressView::Fraction(FractionView { done: self.written(), total: self.total() }),
            ),
            PhaseView::Revealing => ActionView::Reveal,
            PhaseView::Finished(outcome) => ActionView::Complete(outcome),
        }
    }

    /// The state that follows when the worker has answered the pending action
    /// with `reply`.
    ///
    /// A write or a skip that failed ends the run with the failure that the
    /// error's description gives. An event that could not be sent ends it with
    /// the worker failure. A failure to reveal the directory is passed over.
    /// Once the run has ended nothing changes any more.
    pub open spec fn after(self, reply: ReplyView) -> ExtractionView {
        match self.phase {
            PhaseView::Entries => if self.cursor < self.paths.len() {
                match reply {
                    ReplyView::Done => ExtractionView {
                        cursor: self.cursor + 1,
                        phase: if should_extract(self.paths[self.cursor as int], self.skip_resources) {
                            PhaseView::Reporting
                        } else {
                            PhaseView::Entries
                        },
                        ..self
                    },
                    ReplyView::Failed(description) => ExtractionView {
                        phase: PhaseView::Finished(
                            OutcomeView::Failure(io_failure_message(description)),
                        ),
                        ..self
                    },
                }
            } else {
                match reply {
                    ReplyView::Done => ExtractionView { phase: PhaseView::Revealing, ..self },
                    ReplyView::Failed(_) => ExtractionView {
                        phase: PhaseView::Finished(OutcomeView::Failure(worker_failure_message())),
                        ..self
                    },
                }
            },
            PhaseView::Reporting => match reply {
                ReplyView::Done => ExtractionView { phase: PhaseView::Entries, ..self },
                ReplyView::Failed(_) => ExtractionView {
                    phase: PhaseView::Finished(OutcomeView::Failure(worker_failure_message())),
                    ..self
                },
            },
            PhaseView::Revealing => ExtractionView {
                phase: PhaseView::Finished(OutcomeView::Success),
                ..self
            },
            PhaseView::Finished(_) => self,
        }
    }
}

enum Phase {
    Entries,
    Reporting,
    Revealing,
    Finished(ExtractionOutcome),
}

impl View for Phase {
    type V = PhaseView;

    closed spec fn view(&self) -> PhaseView {
        match self {
            Phase::Entries => PhaseView::Entries,
            Phase::Reporting => PhaseView::Reporting,
            Phase::Revealing => PhaseView::Revealing,
            Phase::Finished(outcome) => PhaseView::Finished(outcome@),
        }
    }
}

/// One extraction run.
pub struct Extraction {
    paths: Vec<String>,
    skip_resources: bool,
    total: usize,
    written: usize,
    cursor: usize,
    phase: Phase,
}

impl View for Extraction {
    type V = ExtractionView;

    closed spec fn view(&self) -> ExtractionView {
        ExtractionView {
            paths: path_views(self.paths@),
            skip_resources: self.skip_resources,
            cursor: self.cursor as nat,
            phase: self.phase@,
        }
    }
}

impl Extraction {
    #[verifier::type_invariant]
    spec fn consistent(&self) -> bool {
        &&& self@.wf()
        &&& self.total == self@.total()
        &&& self.written == self@.written()
    }

    /// A run over the entries with these paths, given in the order in which
    /// the bundle yields them.
    pub fn start(paths: Vec<String>, skip_resources: bool) -> (run: Extraction)
        ensures
            run@ == ExtractionView::start(path_views(paths@), skip_resources),
            run@.wf(),
    {
        let total = count_extractable(&paths, skip_resources);
        proof {
            assert(path_views(paths@).take(0) =~= Seq::<Seq<char>>::empty());
            reveal(Seq::filter);
        }
        Extraction { paths, skip_resources, total, written: 0, cursor: 0, phase: Phase::Entries }
    }

    /// The number of entries that the run writes in all.
    pub fn total(&self) -> (total: usize)
        ensures
            total == self@.total(),
    {
        proof {
            use_type_invariant(self);
        }
        self.total
    }

    /// The number of entries written so far.
    pub fn written(&self) -> (written: usize)
        ensures
            written == self@.written(),
            written <= self@.total(),
    {
        proof {
            use_type_invariant(self);
            self@.lemma_written_bounds();
        }
        self.written
    }

    /// Whether the run has ended.
    pub fn is_finished(&self) -> (finished: bool)
        ensures
            finished == self@.finished(),
    {
        match self.phase {
            Phase::Finished(_) => true,
            _ => false,
        }
    }

    /// What the worker is to do now. Asking again gives the same answer: only
    /// `step` moves the run on.
    pub fn current(&self) -> (action: Action)
        ensures
            action@ == self@.pending(),
            self@.wf(),
    {
        proof {
            use_type_invariant(self);
            self@.lemma_written_bounds();
        }
        match &self.phase {
            Phase::Entries => {
                if self.cursor < self.paths.len() {
                    if should_take(self.paths[self.cursor].as_str(), self.skip_resources) {
                        Action::Write { index: self.cursor, path: self.paths[self.cursor].clone() }
                    } else {
                        Action::Skip { index: self.cursor }
                    }
                } else {
                    Action::Emit(ProgressEvent::Done)
                }
            },
            Phase::Reporting => {
                match Fraction::new(self.written, self.total) {
                    Some(fraction) => Action::Emit(ProgressEvent::Fraction(fraction)),
                    None => {
                        proof {
                            assert(false);
                        }
                        Action::Emit(ProgressEvent::Done)
                    },
                }
            },
            Phase::Revealing => Action::Reveal,
            Phase::Finished(outcome) => Action::Complete(outcome.duplicate()),
        }
    }

    /// Takes the worker's reply to the pending action and gives the state that
    /// follows, with the action that is pending there.
    pub fn step(self, reply: Reply) -> (next: (Extraction, Action))
        ensures
            next.0@ == self@.after(reply@),
            next.1@ == next.0@.pending(),
            next.0@.wf(),
    {
        proof {
            use_type_invariant(&self);
            self@.lemma_written_bounds();
        }
        let ghost old_view = self@;
        let Extraction { paths, skip_resources, total, written, cursor, phase } = self;
        let run = match phase {
            Phase::Entries => {
                if cursor < paths.len() {
                    match reply {
                        Reply::Done => {
                            proof {
                                lemma_count_take(path_views(paths@), cursor as int, skip_resources);
                            }
                            if should_take(paths[cursor].as_str(), skip_resources) {
                                Extraction {
                                    paths,
                                    skip_resources,
                                    total,
                                    written: written + 1,
                                    cursor: cursor + 1,
                                    phase: Phase::Reporting,
                                }
                            } else {
                                Extraction {
                                    paths,
                                    skip_resources,
                                    total,
                                    written,
                                    cursor: cursor + 1,
                                    phase: Phase::Entries,
                                }
                            }
                        },
                        Reply::Failed(description) => Extraction {
                            paths,
                            skip_resources,
                            total,
                            written,
                            cursor,
                            phase: Phase::Finished(
                                ExtractionOutcome::io_failure(description.as_str()),
                            ),
                        },
                    }
                } else {
                    match reply {
                        Reply::Done => Extraction {
                            paths,
                            skip_resources,
                            total,
                            written,
                            cursor,
                            phase: Phase::Revealing,
                        },
                        Reply::Failed(_) => Extraction {
                            paths,
                            skip_resources,
                            total,
                            written,
                            cursor,
                            phase: Phase::Finished(ExtractionOutcome::worker_failure()),
                        },
                    }
                }
            },
            Phase::Reporting => match reply {
                Reply::Done => Extraction {
                    paths,
                    skip_resources,
                    total,
                    written,
                    cursor,
                    phase: Phase::Entries,
                },
                Reply::Failed(_) => Extraction {
                    paths,
                    skip_resources,
                    total,
                    written,
                    cursor,
                    phase: Phase::Finished(ExtractionOutcome::worker_failure()),
                },
            },
            Phase::Revealing => Extraction {
                paths,
                skip_resources,
                total,
                written,
                cursor,
                phase: Phase::Finished(ExtractionOutcome::Success),
            },
            Phase::Finished(outcome) => Extraction {
                paths,
                skip_resources,
                total,
                written,
                cursor,
                phase: Phase::Finished(outcome),
            },
        };
        assert(run@ == old_view.after(reply@));
        let action = run.current();
        (run, action)
    }
}

impl ExtractionView {
    /// No more is written than there is to write, and while progress is
    /// reported at least one entry is written.
    pub proof fn lemma_written_bounds(self)
        requires
            self.wf(),
        ensures
            self.written() <= self.total(),
            self.phase is Reporting ==> self.written() >= 1,
    {
        self.paths.lemma_filter_take_len(
            |p: Seq<char>| should_extract(p, self.skip_resources),
            self.cursor as int,
        );
        if self.phase is Reporting {
            lemma_count_take(self.paths, self.cursor - 1, self.skip_resources);
        }
    }
}

} // verus!
