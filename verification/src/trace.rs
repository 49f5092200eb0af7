//! What holds of a whole extraction run, whatever the worker replies.
//!
//! A run is followed through a sequence of replies, one for each action that
//! was pending in turn. The events that were sent are those whose sending the
//! worker confirmed.

use crate::extraction::{
    extractable_count, lemma_count_take, ActionView, ExtractionView, PhaseView, ReplyView,
};
use crate::progress::{io_failure_message, FractionView, OutcomeView, ProgressView};
use vstd::prelude::*;

verus! {

/// The reports of the first `count` of `total` written entries: `1 / total`,
/// `2 / total`, and so on.
pub open spec fn fractions(count: nat, total: nat) -> Seq<ProgressView> {
    Seq::new(
        count,
        |k: int| ProgressView::Fraction(FractionView { done: (k + 1) as nat, total: total }),
    )
}

/// The whole progress stream of a run that writes `total` entries: one report
/// for each entry, then the end of the stream.
pub open spec fn full_progress(total: nat) -> Seq<ProgressView> {
    fractions(total, total).push(ProgressView::Done)
}

/// Every reply says that the action was carried out.
pub open spec fn all_done(replies: Seq<ReplyView>) -> bool {
    forall|i: int| 0 <= i < replies.len() ==> replies[i] == ReplyView::Done
}

impl ExtractionView {
    /// The state after the worker has answered the pending actions, one after
    /// another, with `replies`.
    pub open spec fn run(self, replies: Seq<ReplyView>) -> ExtractionView
        decreases replies.len(),
    {
        if replies.len() == 0 {
            self
        } else {
            self.run(replies.drop_last()).after(replies.last())
        }
    }

    /// The events that were sent while the worker gave `replies`: each event
    /// that was pending when the worker replied that the action was done.
    pub open spec fn delivered(self, replies: Seq<ReplyView>) -> Seq<ProgressView>
        decreases replies.len(),
    {
        if replies.len() == 0 {
            Seq::empty()
        } else {
            let earlier = replies.drop_last();
            let sent = self.delivered(earlier);
            match (self.run(earlier).pending(), replies.last()) {
                (ActionView::Emit(event), ReplyView::Done) => sent.push(event),
                _ => sent,
            }
        }
    }

    /// The number of actions that a run in this state still has to carry out
    /// before it has ended, if none of them fails.
    pub open spec fn steps_left(self) -> nat {
        let entries = (self.paths.len() - self.cursor) as nat;
        let reports = (self.total() - self.written()) as nat;
        match self.phase {
            PhaseView::Entries => entries + reports + 2,
            PhaseView::Reporting => entries + reports + 3,
            PhaseView::Revealing => 1,
            PhaseView::Finished(_) => 0,
        }
    }

    /// What was sent fits where the run stands: a report for each entry
    /// written and reported, the end of the stream once it is closed, and
    /// after a failure no more than that.
    pub open spec fn on_track(self, sent: Seq<ProgressView>) -> bool {
        &&& self.wf()
        &&& match self.phase {
            PhaseView::Entries => sent == fractions(self.written(), self.total()),
            PhaseView::Reporting => sent == fractions((self.written() - 1) as nat, self.total()),
            PhaseView::Revealing => sent == full_progress(self.total()),
            PhaseView::Finished(OutcomeView::Success) => sent == full_progress(self.total()),
            PhaseView::Finished(OutcomeView::Failure(_)) => sent.is_prefix_of(
                full_progress(self.total()),
            ),
        }
    }

    /// One reply keeps the run on track.
    pub proof fn lemma_step_on_track(self, sent: Seq<ProgressView>, reply: ReplyView)
        requires
            self.on_track(sent),
        ensures
            self.after(reply).on_track(
                match (self.pending(), reply) {
                    (ActionView::Emit(event), ReplyView::Done) => sent.push(event),
                    _ => sent,
                },
            ),
            self.after(reply).paths == self.paths,
            self.after(reply).skip_resources == self.skip_resources,
    {
        let next = self.after(reply);
        let total = self.total();
        let full = full_progress(total);
        self.lemma_written_bounds();
        assert(next.total() == total);
        match self.phase {
            PhaseView::Entries => {
                if self.cursor < self.paths.len() {
                    lemma_count_take(self.paths, self.cursor as int, self.skip_resources);
                    if reply is Failed {
                        assert(fractions(self.written(), total).is_prefix_of(full));
                    }
                } else {
                    assert(self.paths.take(self.cursor as int) =~= self.paths);
                    if reply is Failed {
                        assert(fractions(total, total).is_prefix_of(full));
                    }
                }
            },
            PhaseView::Reporting => {
                let before = (self.written() - 1) as nat;
                if reply is Failed {
                    assert(fractions(before, total).is_prefix_of(full));
                } else {
                    assert(fractions(before, total).push(
                        ProgressView::Fraction(
                            FractionView { done: self.written(), total: total },
                        ),
                    ) =~= fractions(self.written(), total));
                }
            },
            PhaseView::Revealing => {},
            PhaseView::Finished(_) => {},
        }
    }

    /// A run that is on track stays so through any replies.
    pub proof fn lemma_run_on_track(self, replies: Seq<ReplyView>)
        requires
            self.on_track(Seq::empty()),
        ensures
            self.run(replies).on_track(self.delivered(replies)),
            self.run(replies).paths == self.paths,
            self.run(replies).skip_resources == self.skip_resources,
        decreases replies.len(),
    {
        if replies.len() > 0 {
            let earlier = replies.drop_last();
            self.lemma_run_on_track(earlier);
            self.run(earlier).lemma_step_on_track(self.delivered(earlier), replies.last());
        }
    }

    /// A reply that the action was done brings a run that has not ended one
    /// step nearer to its end, and never to a failure.
    pub proof fn lemma_done_counts_down(self)
        requires
            self.wf(),
            !(self.phase is Finished),
        ensures
            self.after(ReplyView::Done).steps_left() == self.steps_left() - 1,
            self.after(ReplyView::Done).wf(),
            self.after(ReplyView::Done).phase is Finished ==> self.after(ReplyView::Done).phase
                == PhaseView::Finished(OutcomeView::Success),
    {
        self.lemma_written_bounds();
        if self.phase is Entries {
            if self.cursor < self.paths.len() {
                lemma_count_take(self.paths, self.cursor as int, self.skip_resources);
            } else {
                assert(self.paths.take(self.cursor as int) =~= self.paths);
            }
        }
    }

    /// Through replies that all say done, a run counts its steps down and
    /// ends, if it ends, in success.
    pub proof fn lemma_all_done_counts_down(self, replies: Seq<ReplyView>)
        requires
            self.wf(),
            !(self.phase is Finished),
            all_done(replies),
        ensures
            self.run(replies).wf(),
            replies.len() <= self.steps_left() ==> self.run(replies).steps_left()
                == self.steps_left() - replies.len(),
            replies.len() >= self.steps_left() ==> self.run(replies).phase == PhaseView::Finished(
                OutcomeView::Success,
            ),
            self.run(replies).phase is Finished ==> self.run(replies).phase
                == PhaseView::Finished(OutcomeView::Success),
        decreases replies.len(),
    {
        if replies.len() > 0 {
            let earlier = replies.drop_last();
            assert(all_done(earlier)) by {
                assert forall|i: int| 0 <= i < earlier.len() implies earlier[i]
                    == ReplyView::Done by {
                    assert(earlier[i] == replies[i]);
                }
            }
            assert(replies.last() == ReplyView::Done);
            self.lemma_all_done_counts_down(earlier);
            let before = self.run(earlier);
            if !(before.phase is Finished) {
                before.lemma_done_counts_down();
            }
        }
    }
}

/// The stream of any run, whatever the worker replies, is a beginning of the
/// full stream: the reports `1 / total`, `2 / total`, ... come in this order and
/// without gaps, and nothing follows the end of the stream.
pub proof fn law_stream_is_prefix(
    paths: Seq<Seq<char>>,
    skip_resources: bool,
    replies: Seq<ReplyView>,
)
    ensures
        ExtractionView::start(paths, skip_resources).delivered(replies).is_prefix_of(
            full_progress(extractable_count(paths, skip_resources)),
        ),
{
    let start = ExtractionView::start(paths, skip_resources);
    lemma_start_on_track(paths, skip_resources);
    start.lemma_run_on_track(replies);
    let total = extractable_count(paths, skip_resources);
    let end = start.run(replies);
    end.lemma_written_bounds();
    assert(end.total() == total);
    match end.phase {
        PhaseView::Entries => {
            assert(fractions(end.written(), total).is_prefix_of(full_progress(total)));
        },
        PhaseView::Reporting => {
            assert(fractions((end.written() - 1) as nat, total).is_prefix_of(full_progress(total)));
        },
        _ => {},
    }
}

/// A run that has ended in success has sent the full stream: the outcome is
/// never a success before the end of the stream was sent.
pub proof fn law_success_follows_stream(
    paths: Seq<Seq<char>>,
    skip_resources: bool,
    replies: Seq<ReplyView>,
)
    requires
        ExtractionView::start(paths, skip_resources).run(replies).phase == PhaseView::Finished(
            OutcomeView::Success,
        ),
    ensures
        ExtractionView::start(paths, skip_resources).delivered(replies) == full_progress(
            extractable_count(paths, skip_resources),
        ),
{
    lemma_start_on_track(paths, skip_resources);
    ExtractionView::start(paths, skip_resources).lemma_run_on_track(replies);
}

/// Where no action fails, a run over `n` entries of which `total` are written
/// has ended in success after `n + total + 2` replies, and has sent the full
/// stream: a report for each written entry, then the end of the stream.
pub proof fn law_unfailing_run_succeeds(
    paths: Seq<Seq<char>>,
    skip_resources: bool,
    replies: Seq<ReplyView>,
)
    requires
        all_done(replies),
        replies.len() >= paths.len() + extractable_count(paths, skip_resources) + 2,
    ensures
        ExtractionView::start(paths, skip_resources).run(replies).phase == PhaseView::Finished(
            OutcomeView::Success,
        ),
        ExtractionView::start(paths, skip_resources).delivered(replies) == full_progress(
            extractable_count(paths, skip_resources),
        ),
{
    let start = ExtractionView::start(paths, skip_resources);
    lemma_start_on_track(paths, skip_resources);
    start.lemma_all_done_counts_down(replies);
    law_success_follows_stream(paths, skip_resources, replies);
}

/// Where nothing is to be written, an unfailing run sends the end of the
/// stream and nothing else, and ends in success.
pub proof fn law_nothing_to_write(
    paths: Seq<Seq<char>>,
    skip_resources: bool,
    replies: Seq<ReplyView>,
)
    requires
        extractable_count(paths, skip_resources) == 0,
        all_done(replies),
        replies.len() >= paths.len() + 2,
    ensures
        ExtractionView::start(paths, skip_resources).run(replies).phase == PhaseView::Finished(
            OutcomeView::Success,
        ),
        ExtractionView::start(paths, skip_resources).delivered(replies) == seq![ProgressView::Done],
{
    law_unfailing_run_succeeds(paths, skip_resources, replies);
    assert(full_progress(0) =~= seq![ProgressView::Done]);
}

/// When an entry cannot be written, the run has ended: the outcome is the
/// failure that carries the error's description, and whatever the worker
/// replies afterwards, nothing more is sent and the outcome stays.
pub proof fn law_failed_write_ends_run(
    state: ExtractionView,
    description: Seq<char>,
    later: Seq<ReplyView>,
)
    requires
        state.wf(),
        state.pending() is Write || state.pending() is Skip,
    ensures
        state.after(ReplyView::Failed(description)).run(later).phase == PhaseView::Finished(
            OutcomeView::Failure(io_failure_message(description)),
        ),
        state.after(ReplyView::Failed(description)).delivered(later) == Seq::<
            ProgressView,
        >::empty(),
    decreases later.len(),
{
    if later.len() > 0 {
        law_failed_write_ends_run(state, description, later.drop_last());
    }
}

/// The full stream holds a report for each written entry and then its end,
/// which comes last and only there. Every report is a number greater than 0
/// and at most 1, a later report is no less than an earlier one, and the last
/// report is 1.
pub proof fn law_reports_rise(total: nat)
    ensures
        full_progress(total).len() == total + 1,
        full_progress(total).last() == ProgressView::Done,
        forall|i: int|
            0 <= i < total ==> (#[trigger] full_progress(total)[i]) == ProgressView::Fraction(
                FractionView { done: (i + 1) as nat, total: total },
            ),
        forall|done: nat|
            1 <= done <= total ==> #[trigger] (FractionView { done: done, total: total }).in_range(),
        forall|earlier: nat, later: nat|
            1 <= earlier <= later <= total ==> #[trigger] (FractionView {
                done: earlier,
                total: total,
            }).le(FractionView { done: later, total: total }),
        total > 0 ==> (FractionView { done: total, total: total }).is_whole(),
{
    assert forall|earlier: nat, later: nat| 1 <= earlier <= later <= total implies #[trigger] (
    FractionView { done: earlier, total: total }).le(
        FractionView { done: later, total: total },
    ) by {
        assert(earlier * total <= later * total) by (nonlinear_arith)
            requires
                earlier <= later,
                total >= 0,
        ;
    }
}

/// A run that has dealt with nothing has sent nothing, and is on track.
pub proof fn lemma_start_on_track(paths: Seq<Seq<char>>, skip_resources: bool)
    ensures
        ExtractionView::start(paths, skip_resources).on_track(Seq::empty()),
        ExtractionView::start(paths, skip_resources).steps_left() == paths.len()
            + extractable_count(paths, skip_resources) + 2,
{
    let start = ExtractionView::start(paths, skip_resources);
    assert(paths.take(0) =~= Seq::<Seq<char>>::empty());
    reveal(Seq::filter);
    assert(start.written() == 0);
    assert(fractions(0, start.total()) =~= Seq::<ProgressView>::empty());
}

} // verus!
