//! Replay: which stored commands to write out, and when to ask for a tag.

use crate::structure::{ParrotData, Tag};
use crate::text::{trim, trimmed};
use vstd::prelude::*;

verus! {

/// Why a replay failed.
#[derive(Debug, PartialEq, Eq)]
pub enum ReplayError {
    /// The selector could not be launched, or its output could not be read.
    SelectionError,
}

/// What a replay comes to, for the caller to carry out.
#[derive(Debug, PartialEq, Eq)]
pub enum ReplayStep {
    /// Write these commands out, one per line, in this order.
    Play(Vec<String>),
    /// No recording is stored under this tag; report it.
    NotFound(Tag),
    /// Nothing is stored, so there is nothing to choose from; report it.
    NoRecordings,
    /// No tag was given: offer these tags to the selector and come back with
    /// what it yields.
    Select(Vec<Tag>),
    /// The selector ended without a choice; report it.
    NoTagSelected,
}

/// A [`ReplayStep`] as mathematical values.
pub enum ReplayStepView {
    Play(Seq<Seq<char>>),
    NotFound(Seq<char>),
    NoRecordings,
    Select(Seq<Seq<char>>),
    NoTagSelected,
}

impl View for ReplayStep {
    type V = ReplayStepView;

    open spec fn view(&self) -> ReplayStepView {
        match self {
            ReplayStep::Play(commands) => ReplayStepView::Play(commands.deep_view()),
            ReplayStep::NotFound(tag) => ReplayStepView::NotFound(tag@),
            ReplayStep::NoRecordings => ReplayStepView::NoRecordings,
            ReplayStep::Select(tags) => ReplayStepView::Select(tags.deep_view()),
            ReplayStep::NoTagSelected => ReplayStepView::NoTagSelected,
        }
    }
}

/// How the run of the selector went, as the caller that ran it saw it.
#[derive(Debug)]
pub enum Selection {
    /// It could not be launched, or its output could not be read.
    Failed,
    /// It ended without a successful selection.
    Cancelled,
    /// It ended with a selection; what it wrote out.
    Chosen(String),
}

/// What is written out for `tag`: its commands in stored order, and nothing
/// where the tag is not stored.
pub open spec fn played(recordings: Map<Seq<char>, Seq<Seq<char>>>, tag: Seq<char>) -> Seq<
    Seq<char>,
> {
    if recordings.contains_key(tag) {
        recordings[tag]
    } else {
        Seq::empty()
    }
}

/// Whether a recording is stored under `tag`.
pub fn recording_exists(tag: &str, data: &ParrotData) -> (exists: bool)
    ensures
        exists == data@.recordings.contains_key(tag@),
{
    data.recordings.contains_key(tag)
}

/// The commands to write out for `tag`, in stored order: none where the tag
/// is not stored. The commands are text to be written, never run.
pub fn play_recording(tag: &str, data: &ParrotData) -> (commands: Vec<String>)
    ensures
        commands.deep_view() == played(data@.recordings, tag@),
{
    match data.recordings.get(tag) {
        Some(stored) => {
            let commands = stored.clone();
            assert(commands.deep_view() =~= stored.deep_view());
            commands
        },
        None => {
            let commands: Vec<String> = Vec::new();
            assert(commands.deep_view() =~= Seq::<Seq<char>>::empty());
            commands
        },
    }
}

/// The first step of a replay. With a tag, its commands are played, or the
/// tag is reported as not found. Without one, the stored tags are handed out
/// for selection, or it is reported that nothing is stored.
pub fn run(tag: Option<String>, data: &ParrotData) -> (step: ReplayStep)
    ensures
        step@ == match tag {
            Some(given) => if data@.recordings.contains_key(given@) {
                ReplayStepView::Play(data@.recordings[given@])
            } else {
                ReplayStepView::NotFound(given@)
            },
            None => if data@.recordings.is_empty() {
                ReplayStepView::NoRecordings
            } else {
                ReplayStepView::Select(data.recordings.tags())
            },
        },
{
    match tag {
        Some(given) => {
            if !recording_exists(given.as_str(), data) {
                return ReplayStep::NotFound(given);
            }
            ReplayStep::Play(play_recording(given.as_str(), data))
        },
        None => {
            if data.recordings.is_empty() {
                return ReplayStep::NoRecordings;
            }
            ReplayStep::Select(data.recordings.keys())
        },
    }
}

/// The step after the selector has run. A selector that failed is an error.
/// One that ended without a choice is reported. Otherwise what it wrote,
/// without the white space around it, is the tag whose commands are played;
/// for a tag that is not stored nothing is played.
pub fn selected(selection: Selection, data: &ParrotData) -> (result: Result<
    ReplayStep,
    ReplayError,
>)
    ensures
        match selection {
            Selection::Failed => result matches Err(ReplayError::SelectionError),
            Selection::Cancelled => result matches Ok(step) && step@
                == ReplayStepView::NoTagSelected,
            Selection::Chosen(output) => result matches Ok(step) && step@ == ReplayStepView::Play(
                played(data@.recordings, trimmed(output@)),
            ),
        },
{
    match selection {
        Selection::Failed => Err(ReplayError::SelectionError),
        Selection::Cancelled => Ok(ReplayStep::NoTagSelected),
        Selection::Chosen(output) => {
            let tag = trim(output.as_str());
            Ok(ReplayStep::Play(play_recording(tag.as_str(), data)))
        },
    }
}

} // verus!
