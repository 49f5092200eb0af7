//! An export as the interface sees it: it asks for the export, takes the
//! events of the progress stream as they come, and at last the outcome.

use crate::extraction::{extractable_count, ExtractionView, PhaseView, ReplyView};
use crate::progress::{ExtractionOutcome, OutcomeView, ProgressEvent, ProgressView};
use crate::state::{Message, StateView};
use crate::trace::{full_progress, law_success_follows_stream};
use vstd::prelude::*;

verus! {

impl StateView {
    /// The state after one event of the progress stream: a report is shown,
    /// the end of the stream takes the progress away.
    pub open spec fn after_event(self, event: ProgressView) -> StateView {
        StateView {
            export_progress: match event {
                ProgressView::Fraction(fraction) => Some(fraction),
                ProgressView::Done => None,
            },
            ..self
        }
    }

    /// The state after the events of a progress stream, taken in order.
    pub open spec fn after_stream(self, events: Seq<ProgressView>) -> StateView
        decreases events.len(),
    {
        if events.len() == 0 {
            self
        } else {
            self.after_stream(events.drop_last()).after_event(events.last())
        }
    }

    /// A stream changes nothing but the progress, and leaves the progress
    /// that its last event gives.
    pub proof fn lemma_stream_shows_last(self, events: Seq<ProgressView>)
        ensures
            self.after_stream(events).path == self.path,
            self.after_stream(events).selection == self.selection,
            self.after_stream(events).skip_resources == self.skip_resources,
            self.after_stream(events).error == self.error,
            events.len() > 0 ==> self.after_stream(events).export_progress
                == self.after_event(events.last()).export_progress,
            events.len() == 0 ==> self.after_stream(events) == self,
        decreases events.len(),
    {
        if events.len() > 0 {
            self.lemma_stream_shows_last(events.drop_last());
        }
    }
}

/// The message that hands an event to the interface does to the state what
/// the event says.
pub proof fn law_progress_message(state: StateView, event: ProgressEvent)
    ensures
        state.after(
            Message::SetProgress(
                match event {
                    ProgressEvent::Fraction(fraction) => Some(fraction),
                    ProgressEvent::Done => None,
                },
            ),
        ) == state.after_event(event@),
{
}

/// However an export ends, the interface is free again afterwards. Let the
/// interface ask for an export, take the events that the run sent, whatever
/// the worker replied, and then the outcome with which the run ended. Then
/// another export can be started, a failure is shown with its message and a
/// success shows none, and the bundle, its listing and the filter are as they
/// were.
pub proof fn law_ended_export_frees_interface(
    state: StateView,
    paths: Seq<Seq<char>>,
    skip_resources: bool,
    replies: Seq<ReplyView>,
    outcome: ExtractionOutcome,
)
    requires
        ExtractionView::start(paths, skip_resources).run(replies).phase == PhaseView::Finished(
            outcome@,
        ),
    ensures
        ({
            let sent = ExtractionView::start(paths, skip_resources).delivered(replies);
            let end = state.after(Message::Export).after_stream(sent).after(
                Message::Finished(outcome),
            );
            &&& end.can_run()
            &&& end.error == match outcome@ {
                OutcomeView::Success => None,
                OutcomeView::Failure(message) => Some(message),
            }
            &&& end.path == state.path
            &&& end.selection == state.selection
            &&& end.skip_resources == state.skip_resources
        }),
{
    let sent = ExtractionView::start(paths, skip_resources).delivered(replies);
    let asked = state.after(Message::Export);
    asked.lemma_stream_shows_last(sent);
    if outcome@ is Success {
        law_success_follows_stream(paths, skip_resources, replies);
        let total = extractable_count(paths, skip_resources);
        assert(full_progress(total).last() == ProgressView::Done);
    }
}

} // verus!
