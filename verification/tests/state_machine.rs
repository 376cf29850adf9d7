//! The input state machine and the constraint model, driven with
//! concrete key events.

use mpd_isearch::fsm::step;
use mpd_isearch::fsm::Event;
use mpd_isearch::fsm::State;
use mpd_isearch::model::Constraint;
use mpd_isearch::model::ConstraintModel;
use mpd_isearch::model::FilterType;

#[test]
fn filter_type_mapping() {
    let cases = [
        (' ', FilterType::Any),
        ('t', FilterType::Title),
        ('T', FilterType::Track),
        ('d', FilterType::Disc),
        ('b', FilterType::Album),
        ('a', FilterType::Artist),
        ('A', FilterType::AlbumArtist),
    ];
    for (ch, expected) in cases {
        let c = Constraint::new(ch).unwrap();
        assert_eq!(c.filter_type, expected);
        assert_eq!(c.term, "");
    }
    assert!(Constraint::new('x').is_none());
    assert!(Constraint::new('B').is_none());
    assert!(Constraint::new('\n').is_none());
}

#[test]
fn constraint_strings() {
    let mut c = Constraint::new('a').unwrap();
    c.term = String::from("foo");
    assert_eq!(c.to_mpd_string(), "artist \"foo\" ");
    assert_eq!(c.to_display_string(), "artist: foo");

    let empty = Constraint::new('t').unwrap();
    assert_eq!(empty.to_mpd_string(), "title \"\" ");
    assert_eq!(empty.to_display_string(), "title: ");
}

#[test]
fn quote_in_term_is_sent_unescaped() {
    let mut c = Constraint::new('b').unwrap();
    c.term = String::from("f\"o");
    assert_eq!(c.to_mpd_string(), "album \"f\"o\" ");
}

#[test]
fn exit_states() {
    assert!(!State::NeedType.is_exit_state());
    assert!(!State::NeedTerm.is_exit_state());
    assert!(State::ShouldCommit.is_exit_state());
    assert!(State::ShouldExit.is_exit_state());
}

#[test]
fn enter_and_escape_from_need_type() {
    let mut m = ConstraintModel::new();
    assert_eq!(step(State::NeedType, &mut m, Event::Enter), State::ShouldCommit);
    assert_eq!(m.len(), 0);

    let mut m2 = ConstraintModel::new();
    assert_eq!(step(State::NeedType, &mut m2, Event::Escape), State::ShouldExit);
    assert_eq!(m2.len(), 0);

    // Independent of model contents: same outcome with a constraint held.
    let mut m3 = ConstraintModel::new();
    assert_eq!(step(State::NeedType, &mut m3, Event::Char('a')), State::NeedTerm);
    assert_eq!(step(State::NeedTerm, &mut m3, Event::Enter), State::NeedType);
    assert_eq!(step(State::NeedType, &mut m3, Event::Enter), State::ShouldCommit);
    assert_eq!(m3.len(), 1);
}

#[test]
fn backspace_on_empty_model_is_idempotent() {
    let mut m = ConstraintModel::new();
    let s1 = step(State::NeedType, &mut m, Event::Backspace);
    assert_eq!(s1, State::NeedType);
    assert_eq!(m.len(), 0);
    let s2 = step(s1, &mut m, Event::Backspace);
    assert_eq!(s2, State::NeedType);
    assert_eq!(m.len(), 0);
}

#[test]
fn unmapped_character_is_ignored_awaiting_type() {
    let mut m = ConstraintModel::new();
    assert_eq!(step(State::NeedType, &mut m, Event::Char('z')), State::NeedType);
    assert_eq!(m.len(), 0);
    assert_eq!(step(State::NeedType, &mut m, Event::Other), State::NeedType);
    assert_eq!(m.len(), 0);
}

#[test]
fn term_editing_accepts_alphanumeric_and_whitespace() {
    let mut m = ConstraintModel::new();
    let mut s = step(State::NeedType, &mut m, Event::Char('a'));
    for ch in ['f', 'o', 'o', ' ', '9'] {
        s = step(s, &mut m, Event::Char(ch));
        assert_eq!(s, State::NeedTerm);
    }
    assert_eq!(m.get(0).term, "foo 9");

    // Punctuation neither extends the term nor changes the state.
    s = step(s, &mut m, Event::Char('%'));
    assert_eq!(s, State::NeedTerm);
    assert_eq!(m.get(0).term, "foo 9");
    s = step(s, &mut m, Event::Other);
    assert_eq!(s, State::NeedTerm);
    assert_eq!(m.get(0).term, "foo 9");
}

#[test]
fn backspace_in_term_keeps_or_drops_constraint() {
    let mut m = ConstraintModel::new();
    let mut s = step(State::NeedType, &mut m, Event::Char('a'));
    s = step(s, &mut m, Event::Char('f'));
    assert_eq!(m.get(0).term, "f");

    // Non-empty term: one character goes, the constraint count does not.
    s = step(s, &mut m, Event::Backspace);
    assert_eq!(s, State::NeedTerm);
    assert_eq!(m.len(), 1);
    assert_eq!(m.get(0).term, "");

    // Empty term: the in-progress constraint goes, back to awaiting a type.
    s = step(s, &mut m, Event::Backspace);
    assert_eq!(s, State::NeedType);
    assert_eq!(m.len(), 0);
}

#[test]
fn backspace_across_constraint_boundary() {
    let mut m = ConstraintModel::new();
    let mut s = step(State::NeedType, &mut m, Event::Char('a'));
    s = step(s, &mut m, Event::Char('x'));
    s = step(s, &mut m, Event::Enter);
    s = step(s, &mut m, Event::Char('b'));
    assert_eq!(s, State::NeedTerm);
    assert_eq!(m.len(), 2);

    // Finalize the second constraint, then backspace from NeedType:
    // the last constraint is popped and editing resumes on the previous one.
    s = step(s, &mut m, Event::Enter);
    s = step(s, &mut m, Event::Backspace);
    assert_eq!(s, State::NeedTerm);
    assert_eq!(m.len(), 1);
    assert_eq!(m.get(0).filter_type, FilterType::Artist);

    // With only one constraint left, removing it lands in NeedType,
    // never in term editing over an empty model.
    s = step(s, &mut m, Event::Enter);
    s = step(s, &mut m, Event::Backspace);
    assert_eq!(s, State::NeedType);
    assert_eq!(m.len(), 0);
}

#[test]
fn fragments_follow_creation_order() {
    let mut m = ConstraintModel::new();
    let mut s = step(State::NeedType, &mut m, Event::Char('a'));
    s = step(s, &mut m, Event::Char('f'));
    s = step(s, &mut m, Event::Enter);
    s = step(s, &mut m, Event::Char('b'));
    s = step(s, &mut m, Event::Char('g'));
    // A detour through backspaces leaves the net model intact.
    s = step(s, &mut m, Event::Char('h'));
    s = step(s, &mut m, Event::Backspace);
    assert_eq!(s, State::NeedTerm);
    assert_eq!(m.to_search_fragment(), "artist \"f\" album \"g\" ");
}

#[test]
fn empty_model_has_empty_fragment() {
    let m = ConstraintModel::new();
    assert_eq!(m.to_search_fragment(), "");
}
