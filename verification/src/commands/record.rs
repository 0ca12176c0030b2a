//! The recording session: start, add, stop and abort, and capture from an
//! edited buffer.

use crate::structure::{ParrotData, ParrotDataView, RecordingEntry, RecordingEntryView, Tag};
use crate::text::{blank, is_blank, lemma_line_end, lines, lines_of};
use vstd::prelude::*;
use vstd::string::StringExecFns;

verus! {

/// What a recording operation did, for the caller to report.
#[derive(Debug, PartialEq, Eq)]
pub enum RecordNotice {
    /// A session was opened for this tag.
    Started(Tag),
    /// A session is already open; the request to start another was refused.
    AlreadyRecording,
    /// This command was appended to the open session.
    Added(String),
    /// No session is open; this command was not kept.
    NotRecording(String),
    /// The open session was stored under this tag and closed.
    Stopped(Tag),
    /// No session is open; there was nothing to stop.
    NothingToStop,
    /// Whatever session was open is gone.
    Aborted,
    /// The edited buffer held no command; nothing was stored.
    NoCommands,
    /// The commands of the edited buffer were stored under this tag.
    Recorded(Tag),
}

/// A [`RecordNotice`] as mathematical values.
pub enum RecordNoticeView {
    Started(Seq<char>),
    AlreadyRecording,
    Added(Seq<char>),
    NotRecording(Seq<char>),
    Stopped(Seq<char>),
    NothingToStop,
    Aborted,
    NoCommands,
    Recorded(Seq<char>),
}

impl View for RecordNotice {
    type V = RecordNoticeView;

    open spec fn view(&self) -> RecordNoticeView {
        match self {
            RecordNotice::Started(tag) => RecordNoticeView::Started(tag@),
            RecordNotice::AlreadyRecording => RecordNoticeView::AlreadyRecording,
            RecordNotice::Added(command) => RecordNoticeView::Added(command@),
            RecordNotice::NotRecording(command) => RecordNoticeView::NotRecording(command@),
            RecordNotice::Stopped(tag) => RecordNoticeView::Stopped(tag@),
            RecordNotice::NothingToStop => RecordNoticeView::NothingToStop,
            RecordNotice::Aborted => RecordNoticeView::Aborted,
            RecordNotice::NoCommands => RecordNoticeView::NoCommands,
            RecordNotice::Recorded(tag) => RecordNoticeView::Recorded(tag@),
        }
    }
}

/// std's error type for input and output. Nothing is known of a value of it.
#[verifier::external_type_specification]
#[verifier::external_body]
pub struct ExIoError(std::io::Error);

/// Why a capture from an edited buffer failed.
#[derive(Debug)]
pub enum RecordError {
    /// Input or output failed.
    IoError(std::io::Error),
    /// The buffer could not be created, or could not be read back.
    TempFileError(String),
    /// The editor could not be launched.
    EditorSpawnError(String),
}

impl From<std::io::Error> for RecordError {
    /// An error of input or output as a [`RecordError`].
    fn from(error: std::io::Error) -> (converted: Self) {
        RecordError::IoError(error)
    }
}

impl vstd::std_specs::convert::FromSpecImpl<std::io::Error> for RecordError {
    open spec fn obeys_from_spec() -> bool {
        true
    }

    open spec fn from_spec(error: std::io::Error) -> Self {
        RecordError::IoError(error)
    }
}

/// How the editing of a buffer went, as the caller that ran the editor saw it.
#[derive(Debug)]
pub enum EditorSession {
    /// The buffer could not be created; the reason, in words.
    BufferNotCreated(String),
    /// The editor could not be launched; the reason, in words.
    EditorNotSpawned(String),
    /// The editor ran, but the buffer could not be read back.
    BufferNotRead,
    /// The editor ran; the buffer's contents after it.
    Edited(String),
}

/// What the buffer holds when the editor is opened on it: one comment line
/// that says what to do, and an empty line. It holds no command.
pub const BUFFER_HEADER: &'static str =
    "# Enter your commands below. Save and exit to finish recording.\n\n";

/// Whether a line of an edited buffer is a command: it is not blank, and the
/// comment marker `#` is not its first character.
pub open spec fn is_command(line: Seq<char>) -> bool {
    !is_blank(line) && !(line.len() > 0 && line[0] == '#')
}

/// The commands that an edited buffer holds: its lines that are commands, in
/// the order of the buffer.
pub open spec fn commands_in(content: Seq<char>) -> Seq<Seq<char>> {
    lines_of(content).filter(|line: Seq<char>| is_command(line))
}

/// The header holds no command: a buffer that is left as it was stores
/// nothing.
pub proof fn lemma_header_holds_no_command()
    ensures
        commands_in(BUFFER_HEADER@).len() == 0,
{
    reveal_strlit("# Enter your commands below. Save and exit to finish recording.\n\n");
    let text = BUFFER_HEADER@;
    lemma_line_end(text, 63);
    let rest = text.skip(64);
    lemma_line_end(rest, 0);
    assert(rest.skip(1).len() == 0);
    let first = text.take(63);
    let second = rest.take(0);
    assert(lines_of(rest.skip(1)) =~= Seq::<Seq<char>>::empty());
    assert(lines_of(rest) =~= seq![second]);
    assert(lines_of(text) =~= seq![first, second]);
    assert(first[0] == '#');
    assert(second.len() == 0);
    let keep = |line: Seq<char>| is_command(line);
    reveal_with_fuel(Seq::filter, 3);
    let all = seq![first, second];
    assert(all.drop_last() =~= seq![first]);
    assert(seq![first].drop_last() =~= Seq::<Seq<char>>::empty());
    assert(all.filter(keep) =~= Seq::<Seq<char>>::empty());
}

/// The state after `commands` are stored under `tag`: the tag's earlier
/// commands are replaced, an open session is left alone.
pub open spec fn stored(
    state: ParrotDataView,
    tag: Seq<char>,
    commands: Seq<Seq<char>>,
) -> ParrotDataView {
    ParrotDataView {
        current_recording: state.current_recording,
        recordings: state.recordings.insert(tag, commands),
    }
}

/// The state after `start`: a session in progress stays as it is, otherwise
/// an empty session for `tag` is opened.
pub open spec fn started(state: ParrotDataView, tag: Seq<char>) -> ParrotDataView {
    if state.recording() {
        state
    } else {
        ParrotDataView {
            current_recording: Some(RecordingEntryView { tag, data: Seq::empty() }),
            recordings: state.recordings,
        }
    }
}

/// The state after `add`: the command goes to the end of the open session;
/// without a session nothing changes.
pub open spec fn added(state: ParrotDataView, command: Seq<char>) -> ParrotDataView {
    match state.current_recording {
        Some(entry) => ParrotDataView {
            current_recording: Some(
                RecordingEntryView { tag: entry.tag, data: entry.data.push(command) },
            ),
            recordings: state.recordings,
        },
        None => state,
    }
}

/// The state after adding each of `commands` in turn.
pub open spec fn added_all(state: ParrotDataView, commands: Seq<Seq<char>>) -> ParrotDataView
    decreases commands.len(),
{
    if commands.len() == 0 {
        state
    } else {
        added(added_all(state, commands.drop_last()), commands.last())
    }
}

/// The state after `stop`: the open session is stored under its tag, in place
/// of whatever that tag held, and closed; without a session nothing changes.
pub open spec fn stopped(state: ParrotDataView) -> ParrotDataView {
    match state.current_recording {
        Some(entry) => ParrotDataView {
            current_recording: None,
            recordings: state.recordings.insert(entry.tag, entry.data),
        },
        None => state,
    }
}

/// The state after `abort`: no session, the stored recordings untouched.
pub open spec fn aborted(state: ParrotDataView) -> ParrotDataView {
    ParrotDataView { current_recording: None, recordings: state.recordings }
}

/// Opens a recording session for `tag`, unless one is open already: then the
/// request is refused, the open session keeps its tag and `tag` is dropped.
pub fn start(tag: String, data: &mut ParrotData) -> (notice: RecordNotice)
    ensures
        final(data)@ == started(old(data)@, tag@),
        final(data).recordings == old(data).recordings,
        notice@ == if old(data)@.recording() {
            RecordNoticeView::AlreadyRecording
        } else {
            RecordNoticeView::Started(tag@)
        },
{
    if data.current_recording.is_some() {
        return RecordNotice::AlreadyRecording;
    }
    let entry = RecordingEntry { tag: tag.clone(), data: Vec::new() };
    assert(entry.data.deep_view() =~= Seq::<Seq<char>>::empty());
    data.current_recording = Some(entry);
    RecordNotice::Started(tag)
}

/// Appends `command` to the open session, as it is: empty and repeated
/// commands are kept. Without a session nothing is changed.
pub fn add(command: String, data: &mut ParrotData) -> (notice: RecordNotice)
    ensures
        final(data)@ == added(old(data)@, command@),
        final(data).recordings == old(data).recordings,
        notice@ == if old(data)@.recording() {
            RecordNoticeView::Added(command@)
        } else {
            RecordNoticeView::NotRecording(command@)
        },
{
    match data.current_recording.take() {
        Some(mut entry) => {
            let ghost before = entry.data.deep_view();
            entry.data.push(command.clone());
            assert(entry.data.deep_view() =~= before.push(command@));
            data.current_recording = Some(entry);
            RecordNotice::Added(command)
        },
        None => RecordNotice::NotRecording(command),
    }
}

/// Closes the open session and stores its commands under its tag, replacing
/// what the tag held before. Without a session nothing is changed.
pub fn stop(data: &mut ParrotData) -> (notice: RecordNotice)
    ensures
        final(data)@ == stopped(old(data)@),
        match old(data)@.current_recording {
            Some(entry) => {
                &&& notice@ == RecordNoticeView::Stopped(entry.tag)
                &&& final(data).recordings.tags() == if old(data)@.recordings.contains_key(
                    entry.tag,
                ) {
                    old(data).recordings.tags()
                } else {
                    old(data).recordings.tags().push(entry.tag)
                }
            },
            None => {
                &&& notice@ == RecordNoticeView::NothingToStop
                &&& final(data).recordings == old(data).recordings
            },
        },
{
    match data.current_recording.take() {
        Some(current) => {
            let tag = current.tag.clone();
            data.recordings.insert(current.tag, current.data);
            RecordNotice::Stopped(tag)
        },
        None => RecordNotice::NothingToStop,
    }
}

/// Drops the open session with everything taken so far. Never fails, and may
/// be repeated.
pub fn abort(data: &mut ParrotData) -> (notice: RecordNotice)
    ensures
        final(data)@ == aborted(old(data)@),
        final(data).recordings == old(data).recordings,
        notice@ == RecordNoticeView::Aborted,
{
    data.current_recording = None;
    RecordNotice::Aborted
}

/// The commands that the edited buffer `content` holds, in its order.
pub fn commands_from(content: &str) -> (commands: Vec<String>)
    ensures
        commands.deep_view() == commands_in(content@),
{
    let all = lines(content);
    let mut commands: Vec<String> = Vec::new();
    let ghost keep = |line: Seq<char>| is_command(line);
    let mut i: usize = 0;
    proof {
        reveal_with_fuel(Seq::filter, 1);
        assert(all.deep_view().take(0).filter(keep) =~= Seq::<Seq<char>>::empty());
        assert(commands.deep_view() =~= Seq::<Seq<char>>::empty());
    }
    while i < all.len()
        invariant
            i <= all@.len(),
            keep == |line: Seq<char>| is_command(line),
            commands.deep_view() == all.deep_view().take(i as int).filter(keep),
        decreases all@.len() - i,
    {
        let line = &all[i];
        let comment = !line.as_str().is_empty() && line.as_str().get_char(0) == '#';
        let ghost before = commands.deep_view();
        proof {
            let seen = all.deep_view().take(i as int);
            assert(all.deep_view().take(i + 1) =~= seen.push(line@));
            seen.lemma_filter_push(line@, keep);
        }
        if !blank(line.as_str()) && !comment {
            commands.push(line.clone());
            assert(commands.deep_view() =~= before.push(line@));
        }
        i = i + 1;
    }
    assert(all.deep_view().take(all@.len() as int) =~= all.deep_view());
    commands
}

/// Stores what an editing session yielded under `tag`, in place of what the
/// tag held before. A buffer without commands stores nothing, and a session
/// that failed stores nothing and is reported as an error that says which
/// step failed. `editor` is the program that was asked to edit the buffer.
pub fn interactive(tag: String, data: &mut ParrotData, editor: &str, session: EditorSession) -> (result:
    Result<RecordNotice, RecordError>)
    ensures
        match session {
            EditorSession::BufferNotCreated(reason) => {
                &&& *final(data) == *old(data)
                &&& result matches Err(RecordError::TempFileError(message))
                &&& message@ == "Failed to create temporary file: "@ + reason@
            },
            EditorSession::EditorNotSpawned(reason) => {
                &&& *final(data) == *old(data)
                &&& result matches Err(RecordError::EditorSpawnError(message))
                &&& message@ == "Failed to spawn editor "@ + editor@ + ": "@ + reason@
            },
            EditorSession::BufferNotRead => {
                &&& *final(data) == *old(data)
                &&& result matches Err(RecordError::TempFileError(message))
                &&& message@ == "Failed to read temporary file"@
            },
            EditorSession::Edited(content) => {
                &&& result matches Ok(notice)
                &&& if commands_in(content@).len() == 0 {
                    &&& *final(data) == *old(data)
                    &&& notice@ == RecordNoticeView::NoCommands
                } else {
                    &&& final(data)@ == stored(old(data)@, tag@, commands_in(content@))
                    &&& final(data).current_recording == old(data).current_recording
                    &&& final(data).recordings.tags() == if old(data)@.recordings.contains_key(
                        tag@,
                    ) {
                        old(data).recordings.tags()
                    } else {
                        old(data).recordings.tags().push(tag@)
                    }
                    &&& notice@ == RecordNoticeView::Recorded(tag@)
                }
            },
        },
{
    match session {
        EditorSession::BufferNotCreated(reason) => {
            let message = "Failed to create temporary file: ".to_owned().concat(reason.as_str());
            Err(RecordError::TempFileError(message))
        },
        EditorSession::EditorNotSpawned(reason) => {
            let message = "Failed to spawn editor ".to_owned().concat(editor).concat(": ").concat(
                reason.as_str(),
            );
            Err(RecordError::EditorSpawnError(message))
        },
        EditorSession::BufferNotRead => {
            Err(RecordError::TempFileError("Failed to read temporary file".to_owned()))
        },
        EditorSession::Edited(content) => {
            let commands = commands_from(content.as_str());
            if commands.len() == 0 {
                return Ok(RecordNotice::NoCommands);
            }
            data.recordings.insert(tag.clone(), commands);
            Ok(RecordNotice::Recorded(tag))
        },
    }
}

/// Adding a sequence of commands to an open session appends the whole
/// sequence to it, in order, and touches nothing else.
pub proof fn lemma_added_all_appends(state: ParrotDataView, commands: Seq<Seq<char>>)
    requires
        state.recording(),
    ensures
        added_all(state, commands) == (ParrotDataView {
            current_recording: Some(
                RecordingEntryView {
                    tag: state.current_recording->0.tag,
                    data: state.current_recording->0.data + commands,
                },
            ),
            recordings: state.recordings,
        }),
    decreases commands.len(),
{
    let entry = state.current_recording->0;
    if commands.len() == 0 {
        assert(entry.data + commands =~= entry.data);
    } else {
        lemma_added_all_appends(state, commands.drop_last());
        assert((entry.data + commands.drop_last()).push(commands.last()) =~= entry.data
            + commands);
    }
}

/// Starting from a store with no session open, `start(tag)`, then `add` for
/// each command in turn, then `stop` leaves exactly those commands stored
/// under `tag`, in the order given, and no session open.
pub proof fn lemma_session_is_stored(
    state: ParrotDataView,
    tag: Seq<char>,
    commands: Seq<Seq<char>>,
)
    requires
        !state.recording(),
    ensures
        !stopped(added_all(started(state, tag), commands)).recording(),
        stopped(added_all(started(state, tag), commands)).recordings == state.recordings.insert(
            tag,
            commands,
        ),
        stopped(added_all(started(state, tag), commands)).recordings[tag] == commands,
{
    lemma_added_all_appends(started(state, tag), commands);
    assert(Seq::<Seq<char>>::empty() + commands =~= commands);
}

/// Starting from a store with no session open, a second `start` is ignored:
/// the session keeps the tag of the first, whatever the second asked for.
pub proof fn lemma_second_start_is_ignored(
    state: ParrotDataView,
    first: Seq<char>,
    second: Seq<char>,
)
    requires
        !state.recording(),
    ensures
        started(started(state, first), second) == started(state, first),
        started(started(state, first), second).current_recording->0.tag == first,
{
}

/// `start`, `add`, `abort` leaves the stored recordings as they were, so a tag
/// that had no entry has none afterwards, and leaves no session open.
pub proof fn lemma_abort_discards(state: ParrotDataView, tag: Seq<char>, command: Seq<char>)
    ensures
        aborted(added(started(state, tag), command)).recordings == state.recordings,
        !aborted(added(started(state, tag), command)).recording(),
        !state.recordings.contains_key(tag) ==> !aborted(
            added(started(state, tag), command),
        ).recordings.contains_key(tag),
{
}

/// `stop` with no session open changes nothing.
pub proof fn lemma_stop_when_idle(state: ParrotDataView)
    requires
        !state.recording(),
    ensures
        stopped(state) == state,
{
}

/// `add` with no session open changes nothing.
pub proof fn lemma_add_when_idle(state: ParrotDataView, command: Seq<char>)
    requires
        !state.recording(),
    ensures
        added(state, command) == state,
{
}

} // verus!
