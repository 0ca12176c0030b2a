use parrot::structure::{ParrotData, RecordingEntry, Recordings};

fn strings(items: &[&str]) -> Vec<String> {
    items.iter().map(|s| s.to_string()).collect()
}

#[test]
fn default_store_is_empty() {
    let data = ParrotData::default();
    assert!(data.current_recording.is_none());
    assert!(data.recordings.is_empty());
    assert_eq!(data.recordings.len(), 0);
    assert!(data.recordings.keys().is_empty());
    assert!(data.recordings.entries().is_empty());
}

#[test]
fn default_entry_is_empty() {
    let entry = RecordingEntry::default();
    assert_eq!(entry.tag, "");
    assert!(entry.data.is_empty());
}

#[test]
fn insert_and_get() {
    let mut recordings = Recordings::new();
    recordings.insert("a".to_string(), strings(&["x", "y"]));
    recordings.insert("b".to_string(), strings(&["z"]));
    assert!(!recordings.is_empty());
    assert_eq!(recordings.len(), 2);
    assert_eq!(recordings.get("a").unwrap(), &strings(&["x", "y"]));
    assert_eq!(recordings.get("b").unwrap(), &strings(&["z"]));
    assert!(recordings.get("c").is_none());
    assert!(recordings.get("").is_none());
    assert!(recordings.contains_key("a"));
    assert!(!recordings.contains_key("ab"));
}

#[test]
fn insert_replaces_in_place() {
    let mut recordings = Recordings::default();
    recordings.insert("a".to_string(), strings(&["x", "y"]));
    recordings.insert("b".to_string(), strings(&["z"]));
    recordings.insert("a".to_string(), strings(&["w"]));
    assert_eq!(recordings.len(), 2);
    assert_eq!(recordings.keys(), strings(&["a", "b"]));
    assert_eq!(recordings.get("a").unwrap(), &strings(&["w"]));
    let entries = recordings.entries();
    assert_eq!(entries[0].tag, "a");
    assert_eq!(entries[0].data, strings(&["w"]));
    assert_eq!(entries[1].tag, "b");
    assert_eq!(entries[1].data, strings(&["z"]));
}

#[test]
fn tags_are_compared_by_their_characters() {
    let mut recordings = Recordings::new();
    recordings.insert("caf\u{e9}".to_string(), strings(&["one"]));
    recordings.insert("cafe\u{301}".to_string(), strings(&["two"]));
    recordings.insert("".to_string(), strings(&["three"]));
    assert_eq!(recordings.len(), 3);
    assert_eq!(recordings.get("caf\u{e9}").unwrap(), &strings(&["one"]));
    assert_eq!(recordings.get("cafe\u{301}").unwrap(), &strings(&["two"]));
    assert_eq!(recordings.get("").unwrap(), &strings(&["three"]));
    assert!(!recordings.contains_key("cafe"));
}
