//! The query and commit policy, and whole-session scenarios driven
//! through the state machine.

use mpd_isearch::fsm::step;
use mpd_isearch::fsm::Event;
use mpd_isearch::fsm::State;
use mpd_isearch::model::ConstraintModel;
use mpd_isearch::model::FilterType;
use mpd_isearch::session::commit_first_command;
use mpd_isearch::session::commit_followup_commands;
use mpd_isearch::session::screen_lines;
use mpd_isearch::session::search_command;
use mpd_isearch::session::CommitError;

fn lines(raw: &[&str]) -> Vec<String> {
    raw.iter().map(|s| String::from(*s)).collect()
}

fn model_artist_foo() -> ConstraintModel {
    let mut m = ConstraintModel::new();
    let mut s = step(State::NeedType, &mut m, Event::Char('a'));
    for ch in ['f', 'o', 'o'] {
        s = step(s, &mut m, Event::Char(ch));
    }
    assert_eq!(s, State::NeedTerm);
    m
}

#[test]
fn no_query_for_empty_model() {
    let m = ConstraintModel::new();
    assert!(search_command(&m).is_none());
}

#[test]
fn search_command_text() {
    let m = model_artist_foo();
    assert_eq!(search_command(&m).unwrap(), "search artist \"foo\" ");
}

#[test]
fn commit_on_empty_model_sends_nothing() {
    let m = ConstraintModel::new();
    assert!(commit_first_command(&m).is_none());
    let follow = commit_followup_commands(&m, &lines(&["playlistlength: 3"]));
    assert_eq!(follow.unwrap(), Vec::<String>::new());
}

#[test]
fn commit_sequence_text() {
    let m = model_artist_foo();
    assert_eq!(commit_first_command(&m).unwrap(), "status");
    let follow = commit_followup_commands(
        &m,
        &lines(&["volume: 100", "playlistlength: 3", "state: stop"]),
    );
    assert_eq!(
        follow.unwrap(),
        vec![String::from("searchadd artist \"foo\" "), String::from("play 3")]
    );
}

#[test]
fn commit_with_malformed_status_is_fatal() {
    let m = model_artist_foo();
    let follow = commit_followup_commands(&m, &lines(&["volume: 100"]));
    assert_eq!(follow, Err(CommitError::MalformedStatus));
    let follow2 = commit_followup_commands(&m, &lines(&["playlistlength: x3"]));
    assert_eq!(follow2, Err(CommitError::MalformedStatus));
}

#[test]
fn screen_rows_constraints_before_matches() {
    let m = model_artist_foo();
    let files = lines(&["a.flac", "b.flac"]);
    let rows = screen_lines(&m, &files, 10);
    assert_eq!(
        rows,
        vec![
            String::from("Filters:"),
            String::from("artist: foo"),
            String::from("a.flac"),
            String::from("b.flac"),
        ]
    );
}

#[test]
fn screen_rows_stop_before_last_row() {
    let m = model_artist_foo();
    let files = lines(&["a.flac", "b.flac", "c.flac"]);
    // Height 4 leaves rows 0..=2: header, one constraint, one match line.
    let rows = screen_lines(&m, &files, 4);
    assert_eq!(
        rows,
        vec![
            String::from("Filters:"),
            String::from("artist: foo"),
            String::from("a.flac"),
        ]
    );
    // Height 2 leaves a single row for the header alone.
    let rows2 = screen_lines(&m, &files, 2);
    assert_eq!(rows2, vec![String::from("Filters:")]);
    // Degenerate screens draw nothing at all.
    assert!(screen_lines(&m, &files, 1).is_empty());
    assert!(screen_lines(&m, &files, 0).is_empty());
}

#[test]
fn session_scenario_live_search_then_abandon() {
    // Keys: a f o o Enter Escape.
    let events = [
        Event::Char('a'),
        Event::Char('f'),
        Event::Char('o'),
        Event::Char('o'),
        Event::Enter,
        Event::Escape,
    ];
    let mut m = ConstraintModel::new();
    let mut state = State::NeedType;
    let mut sent: Vec<String> = Vec::new();
    for e in events {
        assert!(!state.is_exit_state());
        state = step(state, &mut m, e);
        if !state.is_exit_state() {
            // One query per keystroke once the model is non-empty.
            if let Some(cmd) = search_command(&m) {
                sent.push(cmd);
            }
        }
    }
    assert_eq!(state, State::ShouldExit);
    assert_eq!(m.len(), 1);
    assert_eq!(m.get(0).filter_type, FilterType::Artist);
    assert_eq!(m.get(0).term, "foo");
    assert_eq!(
        sent,
        vec![
            String::from("search artist \"\" "),
            String::from("search artist \"f\" "),
            String::from("search artist \"fo\" "),
            String::from("search artist \"foo\" "),
            String::from("search artist \"foo\" "),
        ]
    );
    // Abandoned session: no commit commands at all.
    assert!(state != State::ShouldCommit);
}

#[test]
fn session_scenario_immediate_commit_is_noop() {
    let mut m = ConstraintModel::new();
    let state = step(State::NeedType, &mut m, Event::Enter);
    assert_eq!(state, State::ShouldCommit);
    assert_eq!(m.len(), 0);
    // The empty-model commit is short-circuited: not even status goes out.
    assert!(commit_first_command(&m).is_none());
    assert_eq!(
        commit_followup_commands(&m, &lines(&[])).unwrap(),
        Vec::<String>::new()
    );
}
