//! The state of the interface and the decisions that it takes.
//!
//! `State::update` takes one message and says what is to be done next. The
//! program around the library does it (shows a dialog, reads a bundle's
//! index, runs an export) and comes back with the message that tells how it
//! went.

use crate::catalog::{
    entry_paths, entry_views, numeric_sorted, BundleEntry, Catalog, EntryView,
};
use crate::extraction::extractable;
use crate::filter::{should_extract, should_take};
use crate::paths::{ExportSource, ExtractionRequest};
use crate::progress::{ExtractionOutcome, Fraction, FractionView, ProgressEvent};
use std::path::PathBuf;
use vstd::prelude::*;

verus! {

/// What the interface is told.
#[derive(Debug, Clone)]
pub enum Message {
    /// The user asks to select a bundle.
    OpenPicker,
    /// The user has selected the bundle at this path.
    Selected(PathBuf),
    /// The index of the selected bundle was read: these are its entries, in
    /// the order of the bundle.
    CatalogRead(Vec<BundleEntry>),
    /// The user asks for an export.
    Export,
    /// The user has chosen the output directory for the export that was
    /// started from this source, or has chosen none.
    OutputChosen(ExportSource, Option<PathBuf>),
    /// The progress stream has yielded a report (`Some`) or has ended
    /// (`None`).
    SetProgress(Option<Fraction>),
    /// The export has ended with this outcome.
    Finished(ExtractionOutcome),
    /// The user has set whether companion resources are left out.
    SetSkipResources(bool),
    /// Something failed; the text says what.
    Error(String),
}

impl Message {
    /// The message that hands an event of the progress stream to the
    /// interface: a report as it is, the end of the stream as no report.
    pub fn progress(event: ProgressEvent) -> (message: Message)
        ensures
            message == Message::SetProgress(
                match event {
                    ProgressEvent::Fraction(fraction) => Some(fraction),
                    ProgressEvent::Done => None,
                },
            ),
    {
        match event {
            ProgressEvent::Fraction(fraction) => Message::SetProgress(Some(fraction)),
            ProgressEvent::Done => Message::SetProgress(None),
        }
    }
}

/// What is to be done after a message.
#[derive(Debug, Clone, PartialEq, Eq)]
pub enum Command {
    /// Nothing is to be done.
    Nothing,
    /// Let the user select a bundle file; a selection comes back as
    /// `Message::Selected`.
    PickBundle,
    /// Read the index of the bundle at this path; the entries come back as
    /// `Message::CatalogRead`, the description of an error that kept them
    /// from being read as `Message::Error`.
    ReadCatalog(PathBuf),
    /// Let the user choose an output directory; the choice comes back, with
    /// this source, as `Message::OutputChosen`.
    PickOutputFolder(ExportSource),
    /// Run this export; its progress comes back as `Message::SetProgress`, its
    /// outcome as `Message::Finished`.
    Extract(ExtractionRequest),
}

/// One line of the listing.
#[derive(Debug, Clone, PartialEq, Eq)]
pub struct Row {
    /// The entry's path.
    pub path: String,
    /// The entry's size in bytes.
    pub size: usize,
    /// Whether the line is dimmed: an export would leave the entry out.
    pub dimmed: bool,
}

/// A line of the listing as plain values.
pub ghost struct RowView {
    pub path: Seq<char>,
    pub size: nat,
    pub dimmed: bool,
}

impl View for Row {
    type V = RowView;

    open spec fn view(&self) -> RowView {
        RowView { path: self.path@, size: self.size as nat, dimmed: self.dimmed }
    }
}

/// The lines of `rows` as plain values, in the same order.
pub open spec fn row_views(rows: Seq<Row>) -> Seq<RowView> {
    rows.map_values(|r: Row| r@)
}

/// The line that shows `entry`: dimmed when an export would leave it out.
pub open spec fn row_of(entry: EntryView, skip_resources: bool) -> RowView {
    RowView {
        path: entry.path,
        size: entry.size,
        dimmed: !should_extract(entry.path, skip_resources),
    }
}

/// The state of the interface.
pub struct State {
    path: Option<PathBuf>,
    selection: Option<Catalog>,
    skip_resources: bool,
    error: Option<String>,
    export_progress: Option<Fraction>,
}

/// The state as plain values.
pub ghost struct StateView {
    /// The selected bundle.
    pub path: Option<PathBuf>,
    /// The catalog of the bundle whose index was read last.
    pub selection: Option<Seq<EntryView>>,
    /// Whether an export leaves companion resources out.
    pub skip_resources: bool,
    /// The failure that is shown.
    pub error: Option<Seq<char>>,
    /// The progress of the export that is under way; `None` when none is.
    pub export_progress: Option<FractionView>,
}

impl StateView {
    /// The state in which the program starts.
    pub open spec fn initial() -> StateView {
        StateView {
            path: None,
            selection: None,
            skip_resources: true,
            error: None,
            export_progress: None,
        }
    }

    /// The state after `message`.
    ///
    /// A selected bundle becomes the current one; its catalog follows when its
    /// index is read, and until then, or if reading fails, the catalog that
    /// was shown stays. Asking for an export clears the failure and sets the
    /// progress to 0. Choosing no output directory, or choosing one while no
    /// bundle was selected, ends the export before it began. A failed export
    /// shows its message and ends the export, so that another can be started.
    pub open spec fn after(self, message: Message) -> StateView {
        match message {
            Message::OpenPicker => self,
            Message::Selected(path) => StateView { path: Some(path), ..self },
            Message::CatalogRead(entries) => StateView {
                selection: Some(numeric_sorted(entry_views(entries@))),
                ..self
            },
            Message::Export => StateView {
                error: None,
                export_progress: Some(FractionView { done: 0, total: 1 }),
                ..self
            },
            Message::OutputChosen(source, choice) => if source.bundle_path is Some
                && choice is Some {
                self
            } else {
                StateView { export_progress: None, ..self }
            },
            Message::SetProgress(progress) => StateView {
                export_progress: match progress {
                    Some(fraction) => Some(fraction@),
                    None => None,
                },
                ..self
            },
            Message::Finished(outcome) => match outcome {
                ExtractionOutcome::Success => self,
                ExtractionOutcome::Failure(text) => StateView {
                    error: Some(text@),
                    export_progress: None,
                    ..self
                },
            },
            Message::SetSkipResources(skip) => StateView { skip_resources: skip, ..self },
            Message::Error(text) => StateView { error: Some(text@), ..self },
        }
    }

    /// What is to be done after `message` in this state.
    pub open spec fn command(self, message: Message) -> Command {
        match message {
            Message::OpenPicker => Command::PickBundle,
            Message::Selected(path) => Command::ReadCatalog(path),
            Message::Export => Command::PickOutputFolder(
                ExportSource { bundle_path: self.path, skip_resources: self.skip_resources },
            ),
            Message::OutputChosen(source, choice) => match (source.bundle_path, choice) {
                (Some(bundle_path), Some(output_dir)) => Command::Extract(
                    ExtractionRequest {
                        bundle_path,
                        output_dir,
                        skip_resources: source.skip_resources,
                    },
                ),
                _ => Command::Nothing,
            },
            _ => Command::Nothing,
        }
    }

    /// Whether an export can be started: none is under way.
    pub open spec fn can_run(self) -> bool {
        self.export_progress is None
    }

    /// The lines of the listing: one for each entry of the catalog, in its
    /// order; none where no catalog is loaded.
    pub open spec fn rows(self) -> Seq<RowView> {
        match self.selection {
            Some(entries) => entries.map_values(|e: EntryView| row_of(e, self.skip_resources)),
            None => Seq::empty(),
        }
    }
}

impl View for State {
    type V = StateView;

    closed spec fn view(&self) -> StateView {
        StateView {
            path: self.path,
            selection: match self.selection {
                Some(catalog) => Some(catalog@),
                None => None,
            },
            skip_resources: self.skip_resources,
            error: match self.error {
                Some(text) => Some(text@),
                None => None,
            },
            export_progress: match self.export_progress {
                Some(fraction) => Some(fraction@),
                None => None,
            },
        }
    }
}

impl Default for State {
    /// No bundle, no catalog, no failure, no export; resources are skipped.
    fn default() -> (state: State)
        ensures
            state@ == StateView::initial(),
    {
        State {
            path: None,
            selection: None,
            error: None,
            skip_resources: true,
            export_progress: None,
        }
    }
}

/// The paths of the lines that are not dimmed, in the order of the listing.
pub open spec fn bright_paths(rows: Seq<RowView>) -> Seq<Seq<char>> {
    rows.filter(|r: RowView| !r.dimmed).map_values(|r: RowView| r.path)
}

/// The lines that show `entries` and are not dimmed name the entries that an
/// export of `entries` writes.
pub proof fn lemma_bright_rows(entries: Seq<EntryView>, skip_resources: bool)
    ensures
        bright_paths(entries.map_values(|e: EntryView| row_of(e, skip_resources))) == extractable(
            entry_paths(entries),
            skip_resources,
        ),
    decreases entries.len(),
{
    let shown = |e: EntryView| row_of(e, skip_resources);
    let bright = |r: RowView| !r.dimmed;
    let written = |p: Seq<char>| should_extract(p, skip_resources);
    let row_path = |r: RowView| r.path;
    reveal(Seq::filter);
    if entries.len() == 0 {
        assert(entries.map_values(shown) =~= Seq::<RowView>::empty());
        assert(entry_paths(entries) =~= Seq::<Seq<char>>::empty());
        assert(Seq::<RowView>::empty().filter(bright).map_values(row_path) =~= Seq::<
            Seq<char>,
        >::empty());
    } else {
        let front = entries.drop_last();
        let last = entries.last();
        lemma_bright_rows(front, skip_resources);
        assert(entries.map_values(shown) =~= front.map_values(shown).push(shown(last)));
        assert(entry_paths(entries) =~= entry_paths(front).push(last.path));
        front.map_values(shown).lemma_filter_push(shown(last), bright);
        entry_paths(front).lemma_filter_push(last.path, written);
        if should_extract(last.path, skip_resources) {
            assert(front.map_values(shown).filter(bright).push(shown(last)).map_values(row_path)
                =~= front.map_values(shown).filter(bright).map_values(row_path).push(last.path));
        }
    }
}

/// The listing previews the export: the lines that are not dimmed name the
/// entries that an export of the listed entries writes, and in the order of
/// the listing.
pub proof fn law_listing_previews_export(state: StateView)
    ensures
        bright_paths(state.rows()) == match state.selection {
            Some(entries) => extractable(entry_paths(entries), state.skip_resources),
            None => Seq::empty(),
        },
{
    match state.selection {
        Some(entries) => {
            lemma_bright_rows(entries, state.skip_resources);
        },
        None => {
            reveal(Seq::filter);
            assert(bright_paths(Seq::<RowView>::empty()) =~= Seq::<Seq<char>>::empty());
        },
    }
}

/// An export that is asked for is under way until its stream ends or it
/// fails: until then no other can be started, and from then on one can.
pub proof fn law_export_occupies_interface(
    state: StateView,
    report: Fraction,
    failure: String,
)
    ensures
        !state.after(Message::Export).can_run(),
        !state.after(Message::SetProgress(Some(report))).can_run(),
        state.after(Message::SetProgress(None)).can_run(),
        state.after(Message::Finished(ExtractionOutcome::Failure(failure))).can_run(),
        state.after(Message::Finished(ExtractionOutcome::Failure(failure))).error == Some(
            failure@,
        ),
        state.after(Message::Finished(ExtractionOutcome::Success)) == state,
{
}

impl State {
    /// Takes one message: moves the state on and says what is to be done.
    pub fn update(&mut self, message: Message) -> (command: Command)
        ensures
            final(self)@ == old(self)@.after(message),
            command == old(self)@.command(message),
    {
        match message {
            Message::OpenPicker => Command::PickBundle,
            Message::Selected(path) => {
                let command = Command::ReadCatalog(path.clone());
                self.path = Some(path);
                command
            },
            Message::CatalogRead(entries) => {
                self.selection = Some(Catalog::build(entries));
                Command::Nothing
            },
            Message::Export => {
                self.error = None;
                self.export_progress = Some(Fraction::zero());
                let bundle_path = match &self.path {
                    Some(path) => Some(path.clone()),
                    None => None,
                };
                Command::PickOutputFolder(
                    ExportSource { bundle_path, skip_resources: self.skip_resources },
                )
            },
            Message::OutputChosen(source, choice) => {
                let ExportSource { bundle_path, skip_resources } = source;
                match (bundle_path, choice) {
                    (Some(bundle_path), Some(output_dir)) => Command::Extract(
                        ExtractionRequest { bundle_path, output_dir, skip_resources },
                    ),
                    _ => {
                        self.export_progress = None;
                        Command::Nothing
                    },
                }
            },
            Message::SetProgress(progress) => {
                self.export_progress = progress;
                Command::Nothing
            },
            Message::Finished(outcome) => {
                match outcome {
                    ExtractionOutcome::Success => {},
                    ExtractionOutcome::Failure(text) => {
                        self.error = Some(text);
                        self.export_progress = None;
                    },
                }
                Command::Nothing
            },
            Message::SetSkipResources(skip) => {
                self.skip_resources = skip;
                Command::Nothing
            },
            Message::Error(text) => {
                self.error = Some(text);
                Command::Nothing
            },
        }
    }

    /// Whether an export would write the entry at `path`, as the filter is
    /// set now. The listing and the export both go by this.
    pub fn should_take(&self, path: &str) -> (take: bool)
        ensures
            take == should_extract(path@, self@.skip_resources),
    {
        should_take(path, self.skip_resources)
    }

    /// Whether an export can be started: none is under way.
    pub fn can_run(&self) -> (free: bool)
        ensures
            free == self@.can_run(),
    {
        self.export_progress.is_none()
    }

    /// The lines of the listing: one for each entry of the catalog, in its
    /// order, dimmed where an export would leave the entry out.
    pub fn rows(&self) -> (rows: Vec<Row>)
        ensures
            row_views(rows@) == self@.rows(),
    {
        let mut rows: Vec<Row> = Vec::new();
        match &self.selection {
            Some(catalog) => {
                let entries = catalog.entries();
                let mut i: usize = 0;
                while i < entries.len()
                    invariant
                        i <= entries.len(),
                        entry_views(entries@) == catalog@,
                        self.selection == Some(*catalog),
                        row_views(rows@) == catalog@.take(i as int).map_values(
                            |e: EntryView| row_of(e, self.skip_resources),
                        ),
                    decreases entries.len() - i,
                {
                    let entry = &entries[i];
                    let dimmed = !should_take(entry.path.as_str(), self.skip_resources);
                    rows.push(Row { path: entry.path.clone(), size: entry.size, dimmed });
                    proof {
                        let shown = |e: EntryView| row_of(e, self.skip_resources);
                        assert(catalog@[i as int] == entry@);
                        assert(catalog@.take(i + 1).map_values(shown) =~= catalog@.take(
                            i as int,
                        ).map_values(shown).push(row_of(entry@, self.skip_resources)));
                    }
                    i += 1;
                }
                assert(catalog@.take(i as int) =~= catalog@);
            },
            None => {},
        }
        rows
    }

    /// The selected bundle.
    pub fn path(&self) -> (path: Option<&PathBuf>)
        ensures
            match path {
                Some(selected) => self@.path == Some(*selected),
                None => self@.path is None,
            },
    {
        self.path.as_ref()
    }

    /// The catalog of the bundle whose index was read last.
    pub fn selection(&self) -> (selection: Option<&Catalog>)
        ensures
            match selection {
                Some(catalog) => self@.selection == Some(catalog@),
                None => self@.selection is None,
            },
    {
        self.selection.as_ref()
    }

    /// Whether an export leaves companion resources out.
    pub fn skip_resources(&self) -> (skip: bool)
        ensures
            skip == self@.skip_resources,
    {
        self.skip_resources
    }

    /// The failure that is shown.
    pub fn error(&self) -> (error: Option<&String>)
        ensures
            match error {
                Some(text) => self@.error == Some(text@),
                None => self@.error is None,
            },
    {
        self.error.as_ref()
    }

    /// The progress of the export that is under way.
    pub fn export_progress(&self) -> (progress: Option<Fraction>)
        ensures
            match progress {
                Some(fraction) => self@.export_progress == Some(fraction@),
                None => self@.export_progress is None,
            },
    {
        self.export_progress
    }
}

} // verus!
