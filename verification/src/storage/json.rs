//! The store as one JSON document in a file.
//!
//! The document has two fields: `current_recording`, which is `null` or an
//! object with the fields `tag` (a string) and `data` (an array of strings),
//! and `recordings`, an object with one array of strings per tag.

use crate::storage::StorageError;
use crate::structure::{ParrotData, ParrotDataView, RecordingEntry, RecordingEntryView, Recordings};
use std::path::PathBuf;
use vstd::prelude::*;

verus! {

/// std's owned file path. Nothing is known of a value of it.
#[verifier::external_type_specification]
#[verifier::external_body]
pub struct ExPathBuf(PathBuf);

/// The file that holds the store.
pub struct JsonFileStorage<'a> {
    file_path: &'a PathBuf,
}

/// The store as the document holds it: the open session, and the recordings
/// as one member per tag, in the order of the document. A document from
/// elsewhere may hold a tag more than once; then its last member counts.
#[derive(Debug)]
pub struct Document {
    pub current_recording: Option<RecordingEntry>,
    pub recordings: Vec<RecordingEntry>,
}

/// What a [`Document`] holds, as mathematical values.
pub struct DocumentView {
    pub current_recording: Option<RecordingEntryView>,
    pub recordings: Seq<RecordingEntryView>,
}

impl View for Document {
    type V = DocumentView;

    open spec fn view(&self) -> DocumentView {
        DocumentView {
            current_recording: match self.current_recording {
                Some(entry) => Some(entry@),
                None => None,
            },
            recordings: Seq::new(self.recordings@.len(), |i: int| self.recordings@[i]@),
        }
    }
}

/// The mapping that the members of a document describe.
pub open spec fn members_map(members: Seq<RecordingEntryView>) -> Map<Seq<char>, Seq<Seq<char>>>
    decreases members.len(),
{
    if members.len() == 0 {
        Map::empty()
    } else {
        members_map(members.drop_last()).insert(members.last().tag, members.last().data)
    }
}

/// The tags of the members of a document, each where it occurs first.
pub open spec fn members_tags(members: Seq<RecordingEntryView>) -> Seq<Seq<char>>
    decreases members.len(),
{
    if members.len() == 0 {
        Seq::empty()
    } else if members_tags(members.drop_last()).contains(members.last().tag) {
        members_tags(members.drop_last())
    } else {
        members_tags(members.drop_last()).push(members.last().tag)
    }
}

/// The members of the document of a store: one per tag, in the order of
/// `tags`, each with the commands that `recordings` holds for it.
pub open spec fn members_of(
    tags: Seq<Seq<char>>,
    recordings: Map<Seq<char>, Seq<Seq<char>>>,
) -> Seq<RecordingEntryView> {
    Seq::new(tags.len(), |i: int| RecordingEntryView { tag: tags[i], data: recordings[tags[i]] })
}

/// The document of a store whose tags are kept in the order `tags`: the open
/// session as it is, and one member per tag.
pub open spec fn encoded(tags: Seq<Seq<char>>, state: ParrotDataView) -> DocumentView {
    DocumentView {
        current_recording: state.current_recording,
        recordings: members_of(tags, state.recordings),
    }
}

/// The store that a document describes.
pub open spec fn decoded(document: DocumentView) -> ParrotDataView {
    ParrotDataView {
        current_recording: document.current_recording,
        recordings: members_map(document.recordings),
    }
}

/// Writing a store as a document and reading the document back gives the
/// store again: the same recordings under the same tags, in the same order.
pub proof fn lemma_document_round_trip(
    tags: Seq<Seq<char>>,
    recordings: Map<Seq<char>, Seq<Seq<char>>>,
)
    requires
        tags.no_duplicates(),
        forall|tag: Seq<char>| tags.contains(tag) <==> recordings.contains_key(tag),
    ensures
        members_map(members_of(tags, recordings)) == recordings,
        members_tags(members_of(tags, recordings)) == tags,
    decreases tags.len(),
{
    let members = members_of(tags, recordings);
    if tags.len() == 0 {
        assert forall|tag: Seq<char>| !recordings.contains_key(tag) by {
            assert(!tags.contains(tag));
        }
        assert(recordings =~= Map::empty());
        assert(tags =~= Seq::empty());
    } else {
        let last = tags.last();
        let rest = tags.drop_last();
        let fewer = recordings.remove(last);
        assert(tags.contains(last));
        assert forall|tag: Seq<char>| rest.contains(tag) <==> fewer.contains_key(tag) by {
            if rest.contains(tag) {
                let i = choose|i: int| 0 <= i < rest.len() && rest[i] == tag;
                assert(tags[i] == tag);
                assert(tags.contains(tag));
            }
            if fewer.contains_key(tag) {
                assert(recordings.contains_key(tag));
                assert(tags.contains(tag));
                let i = choose|i: int| 0 <= i < tags.len() && tags[i] == tag;
                assert(rest[i] == tag);
            }
        }
        lemma_document_round_trip(rest, fewer);
        assert(members.drop_last() =~= members_of(rest, fewer));
        assert(members.last().tag == last && members.last().data == recordings[last]);
        assert(fewer.insert(last, recordings[last]) =~= recordings);
        assert(!rest.contains(last));
        assert(rest.push(last) =~= tags);
    }
}

/// The store as a document: the open session as it is, and one member per
/// tag in the order in which the tags are kept.
pub fn encode(data: &ParrotData) -> (document: Document)
    ensures
        document@ == encoded(data.recordings.tags(), data@),
        decoded(document@) == data@,
        members_tags(document@.recordings) == data.recordings.tags(),
{
    let current_recording = match &data.current_recording {
        Some(entry) => {
            let data = entry.data.clone();
            assert(data.deep_view() =~= entry.data.deep_view());
            Some(RecordingEntry { tag: entry.tag.clone(), data })
        },
        None => None,
    };
    let entries = data.recordings.entries();
    let ghost tags = data.recordings.tags();
    let ghost held = data@.recordings;
    let mut recordings: Vec<RecordingEntry> = Vec::new();
    let mut i: usize = 0;
    while i < entries.len()
        invariant
            i <= entries@.len(),
            entries@.len() == tags.len(),
            forall|k: int|
                0 <= k < entries@.len() ==> (#[trigger] entries@[k])@.tag == tags[k]
                    && entries@[k]@.data == held[tags[k]],
            recordings@.len() == i,
            forall|k: int| 0 <= k < i ==> (#[trigger] recordings@[k])@ == members_of(tags, held)[k],
        decreases entries@.len() - i,
    {
        let entry = &entries[i];
        let commands = entry.data.clone();
        assert(commands.deep_view() =~= entry.data.deep_view());
        recordings.push(RecordingEntry { tag: entry.tag.clone(), data: commands });
        i = i + 1;
    }
    let document = Document { current_recording, recordings };
    proof {
        assert(document@.recordings =~= members_of(tags, held));
        data.recordings.lemma_tags_are_keys();
        lemma_document_round_trip(tags, held);
    }
    document
}

/// The store that a document describes: its open session as it is, and each
/// member stored under its tag in the order of the document, a later member
/// in place of an earlier one with the same tag.
pub fn decode(document: Document) -> (data: ParrotData)
    ensures
        data@ == decoded(document@),
        data.recordings.tags() == members_tags(document@.recordings),
{
    let ghost members = document@.recordings;
    let Document { current_recording, recordings: entries } = document;
    let ghost held = entries@;
    let mut recordings = Recordings::new();
    assert(members.take(0) =~= Seq::empty());
    for entry in it: entries
        invariant
            it.seq() == held,
            held.len() == members.len(),
            forall|k: int| 0 <= k < held.len() ==> (#[trigger] held[k])@ == members[k],
            recordings@ == members_map(members.take(it.index() as int)),
            recordings.tags() == members_tags(members.take(it.index() as int)),
    {
        proof {
            let next = members.take(it.index() + 1);
            assert(next.drop_last() =~= members.take(it.index() as int));
            assert(next.last() == members[it.index() as int]);
            assert(entry@ == members[it.index() as int]);
            recordings.lemma_tags_are_keys();
        }
        recordings.insert(entry.tag, entry.data);
    }
    assert(members.take(members.len() as int) =~= members);
    ParrotData { current_recording, recordings }
}

/// How reading the backing file went, as the caller that read it saw it.
#[derive(Debug)]
pub enum FileRead {
    /// The file did not exist and could not be created.
    NotCreated,
    /// The file could not be opened.
    NotOpened,
    /// The file was read, but what it holds is no store: a file that was
    /// just created, or one with other contents.
    Malformed,
    /// The file was read and held this document.
    Held(Document),
}

/// A [`FileRead`] as mathematical values.
pub enum FileReadView {
    NotCreated,
    NotOpened,
    Malformed,
    Held(DocumentView),
}

impl View for FileRead {
    type V = FileReadView;

    open spec fn view(&self) -> FileReadView {
        match self {
            FileRead::NotCreated => FileReadView::NotCreated,
            FileRead::NotOpened => FileReadView::NotOpened,
            FileRead::Malformed => FileReadView::Malformed,
            FileRead::Held(document) => FileReadView::Held(document@),
        }
    }
}

/// How writing the backing file went, as the caller that wrote it saw it.
#[derive(Debug)]
pub enum FileWrite {
    /// The file could not be created or emptied.
    NotCreated,
    /// The store was encoded, but its bytes could not be written to the file.
    NotWritten,
    /// The store could not be encoded.
    NotEncoded,
    /// The file now holds the store and nothing else.
    Written,
}

/// What a load yields for each way the reading of the file went. Only a file
/// that cannot be had is an error; what the file holds never is.
pub open spec fn load_of(read: FileReadView) -> Result<ParrotDataView, StorageError> {
    match read {
        FileReadView::NotCreated => Err(StorageError::Io),
        FileReadView::NotOpened => Err(StorageError::Io),
        FileReadView::Malformed => Ok(ParrotDataView::empty()),
        FileReadView::Held(document) => Ok(decoded(document)),
    }
}

/// What a save yields for each way the writing of the file went. A file that
/// cannot be created or written is an input and output error; a store that
/// cannot be encoded is a write error.
pub open spec fn save_of(write: FileWrite) -> Result<(), StorageError> {
    match write {
        FileWrite::NotCreated => Err(StorageError::Io),
        FileWrite::NotWritten => Err(StorageError::Io),
        FileWrite::NotEncoded => Err(StorageError::Write),
        FileWrite::Written => Ok(()),
    }
}

/// A load that reads the document which a save wrote gives the saved store
/// back: the same session, the same recordings under the same tags, and the
/// tags in the same order.
pub proof fn lemma_load_after_save(tags: Seq<Seq<char>>, state: ParrotDataView)
    requires
        tags.no_duplicates(),
        forall|tag: Seq<char>| tags.contains(tag) <==> state.recordings.contains_key(tag),
    ensures
        load_of(FileReadView::Held(encoded(tags, state))) == Ok::<ParrotDataView, StorageError>(
            state,
        ),
        members_tags(encoded(tags, state).recordings) == tags,
{
    lemma_document_round_trip(tags, state.recordings);
}

/// A load from a file that holds no store, be it a file that was just
/// created or one with any other contents, gives the empty store: no session
/// and no recording. Nothing of what the file held is kept.
pub proof fn lemma_load_of_no_store()
    ensures
        load_of(FileReadView::Malformed) == Ok::<ParrotDataView, StorageError>(
            ParrotDataView::empty(),
        ),
        !ParrotDataView::empty().recording(),
        ParrotDataView::empty().recordings.is_empty(),
{
}

/// A load fails only where the file cannot be created or opened, and then
/// with the input and output error. It never fails on what the file holds.
pub proof fn lemma_load_fails_on_the_file_alone(read: FileReadView)
    ensures
        load_of(read) is Err <==> (read is NotCreated || read is NotOpened),
        load_of(read) is Err ==> load_of(read) == Err::<ParrotDataView, StorageError>(
            StorageError::Io,
        ),
        (read is Malformed || read is Held) ==> load_of(read) is Ok,
{
}

impl<'a> JsonFileStorage<'a> {
    /// The path of the backing file.
    pub closed spec fn path(&self) -> &'a PathBuf {
        self.file_path
    }

    /// The storage in the file at `file_path`.
    pub fn new(file_path: &'a PathBuf) -> (storage: Self)
        ensures
            storage.path() == file_path,
    {
        JsonFileStorage { file_path: file_path }
    }

    /// The path of the backing file.
    pub fn file_path(&self) -> (file_path: &'a PathBuf)
        ensures
            file_path == self.path(),
    {
        self.file_path
    }

    /// What a load yields after the file was read. A file that cannot be
    /// created or opened is an error. A file that holds no store yields the
    /// empty store, silently: a load does not fail on what the file holds.
    /// A document that was read yields the store that it describes.
    pub fn loaded(read: FileRead) -> (result: Result<ParrotData, StorageError>)
        ensures
            load_of(read@) == match result {
                Ok(data) => Ok::<ParrotDataView, StorageError>(data@),
                Err(error) => Err::<ParrotDataView, StorageError>(error),
            },
            result matches Ok(data) ==> data.recordings.tags() == match read {
                FileRead::Held(document) => members_tags(document@.recordings),
                _ => Seq::<Seq<char>>::empty(),
            },
    {
        match read {
            FileRead::NotCreated => Err(StorageError::Io),
            FileRead::NotOpened => Err(StorageError::Io),
            FileRead::Malformed => Ok(ParrotData::default()),
            FileRead::Held(document) => Ok(decode(document)),
        }
    }

    /// What a save yields after the file was written. A file that could not
    /// be created, or to which the bytes could not be written, is an input
    /// and output error. A store that could not be encoded is a write error.
    pub fn saved(write: FileWrite) -> (result: Result<(), StorageError>)
        ensures
            result == save_of(write),
    {
        match write {
            FileWrite::NotCreated => Err(StorageError::Io),
            FileWrite::NotWritten => Err(StorageError::Io),
            FileWrite::NotEncoded => Err(StorageError::Write),
            FileWrite::Written => Ok(()),
        }
    }
}

} // verus!
