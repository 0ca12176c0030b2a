use parrot::commands::record::{add, start, stop};
use parrot::commands::replay::{
    play_recording, recording_exists, run, selected, ReplayError, ReplayStep, Selection,
};
use parrot::structure::ParrotData;

fn strings(items: &[&str]) -> Vec<String> {
    items.iter().map(|s| s.to_string()).collect()
}

fn recorded(tag: &str, commands: &[&str], data: &mut ParrotData) {
    start(tag.to_string(), data);
    for command in commands {
        add(command.to_string(), data);
    }
    stop(data);
}

#[test]
fn replay_of_a_recorded_session() {
    let mut data = ParrotData::default();
    start("deploy".to_string(), &mut data);
    add("docker build .".to_string(), &mut data);
    add("docker push".to_string(), &mut data);
    stop(&mut data);
    let step = run(Some("deploy".to_string()), &data);
    assert_eq!(step, ReplayStep::Play(strings(&["docker build .", "docker push"])));
}

#[test]
fn replay_of_a_missing_tag() {
    let mut data = ParrotData::default();
    recorded("deploy", &["docker build ."], &mut data);
    let step = run(Some("missing".to_string()), &data);
    assert_eq!(step, ReplayStep::NotFound("missing".to_string()));
    let step = run(Some("missing".to_string()), &ParrotData::default());
    assert_eq!(step, ReplayStep::NotFound("missing".to_string()));
}

#[test]
fn replay_of_an_empty_recording_plays_nothing() {
    let mut data = ParrotData::default();
    recorded("empty", &[], &mut data);
    assert_eq!(run(Some("empty".to_string()), &data), ReplayStep::Play(Vec::new()));
}

#[test]
fn replay_without_tag_and_without_recordings() {
    let data = ParrotData::default();
    assert_eq!(run(None, &data), ReplayStep::NoRecordings);
}

#[test]
fn replay_without_tag_offers_every_tag() {
    let mut data = ParrotData::default();
    recorded("b", &["z"], &mut data);
    recorded("a", &["x", "y"], &mut data);
    recorded("b", &["w"], &mut data);
    assert_eq!(run(None, &data), ReplayStep::Select(strings(&["b", "a"])));
}

#[test]
fn replay_ignores_the_open_session() {
    let mut data = ParrotData::default();
    start("open".to_string(), &mut data);
    add("x".to_string(), &mut data);
    assert_eq!(run(None, &data), ReplayStep::NoRecordings);
    assert_eq!(run(Some("open".to_string()), &data), ReplayStep::NotFound("open".to_string()));
}

#[test]
fn selection_that_failed_is_an_error() {
    let mut data = ParrotData::default();
    recorded("a", &["x"], &mut data);
    assert_eq!(selected(Selection::Failed, &data), Err(ReplayError::SelectionError));
}

#[test]
fn selection_that_was_cancelled_is_reported() {
    let mut data = ParrotData::default();
    recorded("a", &["x"], &mut data);
    assert_eq!(selected(Selection::Cancelled, &data), Ok(ReplayStep::NoTagSelected));
}

#[test]
fn selection_is_trimmed_and_played() {
    let mut data = ParrotData::default();
    recorded("a", &["x", "y"], &mut data);
    recorded("two words", &["z"], &mut data);
    let step = selected(Selection::Chosen("a\n".to_string()), &data);
    assert_eq!(step, Ok(ReplayStep::Play(strings(&["x", "y"]))));
    let step = selected(Selection::Chosen("  two words \r\n".to_string()), &data);
    assert_eq!(step, Ok(ReplayStep::Play(strings(&["z"]))));
}

#[test]
fn selection_of_an_unknown_tag_plays_nothing() {
    let mut data = ParrotData::default();
    recorded("a", &["x"], &mut data);
    let step = selected(Selection::Chosen("b\n".to_string()), &data);
    assert_eq!(step, Ok(ReplayStep::Play(Vec::new())));
    let step = selected(Selection::Chosen(String::new()), &data);
    assert_eq!(step, Ok(ReplayStep::Play(Vec::new())));
}

#[test]
fn recording_exists_and_play_recording() {
    let mut data = ParrotData::default();
    recorded("a", &["x", "y"], &mut data);
    assert!(recording_exists("a", &data));
    assert!(!recording_exists("A", &data));
    assert!(!recording_exists("", &data));
    assert_eq!(play_recording("a", &data), strings(&["x", "y"]));
    assert!(play_recording("b", &data).is_empty());
}
