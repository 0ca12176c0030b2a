use parrot::commands::record::{add, start, stop};
use parrot::storage::json::{decode, encode, Document, FileRead, FileWrite, JsonFileStorage};
use parrot::storage::{Storage, StorageError};
use parrot::structure::{ParrotData, RecordingEntry};
use std::path::PathBuf;

struct Kept {
    document: Option<Document>,
}

impl Storage for Kept {
    fn save(&mut self, data: &ParrotData) -> Result<(), StorageError> {
        self.document = Some(encode(data));
        JsonFileStorage::saved(FileWrite::Written)
    }

    fn load(&self) -> Result<ParrotData, StorageError> {
        let read = match &self.document {
            Some(document) => FileRead::Held(encode(&decode(copy(document)))),
            None => FileRead::Malformed,
        };
        JsonFileStorage::loaded(read)
    }
}

fn strings(items: &[&str]) -> Vec<String> {
    items.iter().map(|s| s.to_string()).collect()
}

fn member(tag: &str, commands: &[&str]) -> RecordingEntry {
    RecordingEntry { tag: tag.to_string(), data: strings(commands) }
}

fn copy(document: &Document) -> Document {
    Document {
        current_recording: document
            .current_recording
            .as_ref()
            .map(|e| RecordingEntry { tag: e.tag.clone(), data: e.data.clone() }),
        recordings: document
            .recordings
            .iter()
            .map(|e| RecordingEntry { tag: e.tag.clone(), data: e.data.clone() })
            .collect(),
    }
}

fn sample() -> ParrotData {
    let mut data = ParrotData::default();
    start("b".to_string(), &mut data);
    add("z".to_string(), &mut data);
    stop(&mut data);
    start("a".to_string(), &mut data);
    add("x".to_string(), &mut data);
    add("y".to_string(), &mut data);
    stop(&mut data);
    start("open".to_string(), &mut data);
    add("w".to_string(), &mut data);
    data
}

#[test]
fn encode_lists_a_member_per_tag() {
    let document = encode(&sample());
    let current = document.current_recording.as_ref().unwrap();
    assert_eq!(current.tag, "open");
    assert_eq!(current.data, strings(&["w"]));
    assert_eq!(document.recordings.len(), 2);
    assert_eq!(document.recordings[0].tag, "b");
    assert_eq!(document.recordings[0].data, strings(&["z"]));
    assert_eq!(document.recordings[1].tag, "a");
    assert_eq!(document.recordings[1].data, strings(&["x", "y"]));
}

#[test]
fn encode_of_the_empty_store() {
    let document = encode(&ParrotData::default());
    assert!(document.current_recording.is_none());
    assert!(document.recordings.is_empty());
}

#[test]
fn decode_gives_back_what_encode_took() {
    let data = decode(encode(&sample()));
    assert_eq!(data.recordings.keys(), strings(&["b", "a"]));
    assert_eq!(data.recordings.get("a").unwrap(), &strings(&["x", "y"]));
    assert_eq!(data.recordings.get("b").unwrap(), &strings(&["z"]));
    let current = data.current_recording.as_ref().unwrap();
    assert_eq!(current.tag, "open");
    assert_eq!(current.data, strings(&["w"]));
    let empty = decode(encode(&ParrotData::default()));
    assert!(empty.current_recording.is_none());
    assert!(empty.recordings.is_empty());
}

#[test]
fn decode_lets_the_last_member_of_a_tag_count() {
    let document = Document {
        current_recording: None,
        recordings: vec![
            member("a", &["first"]),
            member("b", &["other"]),
            member("a", &["second", "third"]),
        ],
    };
    let data = decode(document);
    assert!(data.current_recording.is_none());
    assert_eq!(data.recordings.len(), 2);
    assert_eq!(data.recordings.keys(), strings(&["a", "b"]));
    assert_eq!(data.recordings.get("a").unwrap(), &strings(&["second", "third"]));
    assert_eq!(data.recordings.get("b").unwrap(), &strings(&["other"]));
}

#[test]
fn new_keeps_the_path() {
    let path = PathBuf::from("/tmp/somewhere/parrot.json");
    let storage = JsonFileStorage::new(&path);
    assert_eq!(storage.file_path(), &path);
}

#[test]
fn load_fails_where_the_file_cannot_be_had() {
    assert_eq!(JsonFileStorage::loaded(FileRead::NotCreated).unwrap_err(), StorageError::Io);
    assert_eq!(JsonFileStorage::loaded(FileRead::NotOpened).unwrap_err(), StorageError::Io);
}

#[test]
fn load_of_a_malformed_file_is_the_empty_store() {
    let data = JsonFileStorage::loaded(FileRead::Malformed).unwrap();
    assert!(data.current_recording.is_none());
    assert!(data.recordings.is_empty());
}

#[test]
fn load_hands_on_what_was_read() {
    let mut held = ParrotData::default();
    start("a".to_string(), &mut held);
    add("x".to_string(), &mut held);
    stop(&mut held);
    start("open".to_string(), &mut held);
    add("y".to_string(), &mut held);
    let data = JsonFileStorage::loaded(FileRead::Held(encode(&held))).unwrap();
    assert_eq!(data.recordings.keys(), vec!["a".to_string()]);
    assert_eq!(data.recordings.get("a").unwrap(), &vec!["x".to_string()]);
    let current = data.current_recording.unwrap();
    assert_eq!(current.tag, "open");
    assert_eq!(current.data, vec!["y".to_string()]);
}

#[test]
fn save_says_which_step_failed() {
    assert_eq!(JsonFileStorage::saved(FileWrite::NotCreated), Err(StorageError::Io));
    assert_eq!(JsonFileStorage::saved(FileWrite::NotWritten), Err(StorageError::Io));
    assert_eq!(JsonFileStorage::saved(FileWrite::NotEncoded), Err(StorageError::Write));
    assert_eq!(JsonFileStorage::saved(FileWrite::Written), Ok(()));
}

#[test]
fn storage_can_be_implemented() {
    let mut kept = Kept { document: None };
    assert!(kept.load().unwrap().recordings.is_empty());
    kept.save(&sample()).unwrap();
    let data = kept.load().unwrap();
    assert_eq!(data.recordings.keys(), strings(&["b", "a"]));
    assert_eq!(data.recordings.get("a").unwrap(), &strings(&["x", "y"]));
    assert_eq!(data.current_recording.unwrap().tag, "open");
}
