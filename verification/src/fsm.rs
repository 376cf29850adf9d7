//! The input state machine: states, input events, and the transition
//! function that interprets one key press against the constraint model.
//!
//! The machine keeps one invariant by construction: term editing
//! (`NeedTerm`) is only ever entered while the model holds at least one
//! constraint, so the constraint being edited is always `model.last()`.
//! For that reason a backspace that removes a whole constraint lands in
//! `NeedTerm` only when a previous constraint remains to edit, and in
//! `NeedType` otherwise.

use crate::model::spec_pop_term_char;
use crate::model::spec_push_term_char;
use crate::model::spec_type_of_char;
use crate::model::Constraint;
use crate::model::ConstraintModel;
use crate::model::FilterType;
use crate::strutil::spec_char_is_alphanumeric;
use crate::strutil::spec_char_is_whitespace;
use vstd::prelude::*;

verus! {

/// The four states of the input state machine. `ShouldCommit` and
/// `ShouldExit` are terminal: no further input event is accepted there.
#[derive(Clone, Copy, Debug, PartialEq, Eq, Structural)]
pub enum State {
    NeedType,
    NeedTerm,
    ShouldCommit,
    ShouldExit,
}

impl State {
    /// True exactly on the two terminal states, which end the input loop.
    pub fn is_exit_state(&self) -> (r: bool)
        ensures
            r == (*self == State::ShouldCommit || *self == State::ShouldExit),
    {
        match *self {
            State::ShouldExit => true,
            State::ShouldCommit => true,
            _ => false,
        }
    }
}

/// One logical key press, mapped beforehand from the raw input device.
/// Everything without semantic meaning is normalized to `Other`.
#[derive(Clone, Copy, Debug, PartialEq, Eq, Structural)]
pub enum Event {
    Escape,
    Enter,
    Backspace,
    Char(char),
    Other,
}

/// Whether a character may extend a search term: alphanumeric or
/// whitespace. Anything else is ignored while a term is being typed.
pub open spec fn spec_is_term_char(c: char) -> bool {
    spec_char_is_alphanumeric(c) || spec_char_is_whitespace(c)
}

/// The state and model that hold after one event. Terminal states accept
/// no event and are left unchanged here; the executable `step` excludes
/// them outright.
pub open spec fn spec_step(s: State, m: Seq<(FilterType, Seq<char>)>, e: Event) -> (
    State,
    Seq<(FilterType, Seq<char>)>,
) {
    match s {
        State::NeedType => match e {
            Event::Escape => (State::ShouldExit, m),
            Event::Enter => (State::ShouldCommit, m),
            Event::Backspace => if m.len() == 0 {
                (State::NeedType, m)
            } else if m.len() == 1 {
                (State::NeedType, m.drop_last())
            } else {
                (State::NeedTerm, m.drop_last())
            },
            Event::Char(c) => match spec_type_of_char(c) {
                Some(t) => (State::NeedTerm, m.push((t, Seq::<char>::empty()))),
                None => (State::NeedType, m),
            },
            Event::Other => (State::NeedType, m),
        },
        State::NeedTerm => match e {
            Event::Escape => (State::ShouldExit, m),
            Event::Enter => (State::NeedType, m),
            Event::Backspace => if m.len() == 0 {
                (State::NeedType, m)
            } else if m.last().1.len() > 0 {
                (State::NeedTerm, spec_pop_term_char(m))
            } else {
                (State::NeedType, m.drop_last())
            },
            Event::Char(c) => if spec_is_term_char(c) {
                (State::NeedTerm, spec_push_term_char(m, c))
            } else {
                (State::NeedTerm, m)
            },
            Event::Other => (State::NeedTerm, m),
        },
        State::ShouldCommit => (s, m),
        State::ShouldExit => (s, m),
    }
}

/// The invariant the machine maintains: term editing always has a
/// constraint to edit.
pub open spec fn spec_valid(s: State, m: Seq<(FilterType, Seq<char>)>) -> bool {
    s == State::NeedTerm ==> m.len() > 0
}

/// Advances the machine by one event, mutating the model as the
/// transition demands. Terminal states accept no further event.
pub fn step(state: State, model: &mut ConstraintModel, event: Event) -> (r: State)
    requires
        state != State::ShouldCommit && state != State::ShouldExit,
        spec_valid(state, old(model)@),
    ensures
        r == spec_step(state, old(model)@, event).0,
        final(model)@ == spec_step(state, old(model)@, event).1,
        spec_valid(r, final(model)@),
{
    match state {
        State::NeedType => match event {
            Event::Escape => State::ShouldExit,
            Event::Enter => State::ShouldCommit,
            Event::Backspace => {
                model.pop();
                if model.is_empty() {
                    State::NeedType
                } else {
                    State::NeedTerm
                }
            },
            Event::Char(c) => match Constraint::new(c) {
                Some(con) => {
                    model.push(con);
                    State::NeedTerm
                },
                None => State::NeedType,
            },
            Event::Other => State::NeedType,
        },
        State::NeedTerm => match event {
            Event::Escape => State::ShouldExit,
            Event::Enter => State::NeedType,
            Event::Backspace => match model.pop_term_char() {
                Some(_) => State::NeedTerm,
                None => {
                    model.pop();
                    State::NeedType
                },
            },
            Event::Char(c) => {
                if c.is_alphanumeric() || c.is_whitespace() {
                    model.push_term_char(c);
                }
                State::NeedTerm
            },
            Event::Other => State::NeedTerm,
        },
        State::ShouldCommit => {
            proof {
                assert(false);
            }
            state
        },
        State::ShouldExit => {
            proof {
                assert(false);
            }
            state
        },
    }
}

/// The state and model after a whole sequence of events, applied in
/// order from the front.
pub open spec fn spec_run(s: State, m: Seq<(FilterType, Seq<char>)>, events: Seq<Event>) -> (
    State,
    Seq<(FilterType, Seq<char>)>,
)
    decreases events.len(),
{
    if events.len() == 0 {
        (s, m)
    } else {
        let next = spec_step(s, m, events.first());
        spec_run(next.0, next.1, events.drop_first())
    }
}

/// One step keeps the machine's invariant: from a valid state and model,
/// the next state and model are valid again.
pub proof fn lemma_step_preserves_validity(
    s: State,
    m: Seq<(FilterType, Seq<char>)>,
    e: Event,
)
    requires
        spec_valid(s, m),
    ensures
        spec_valid(spec_step(s, m, e).0, spec_step(s, m, e).1),
{
}

/// Any sequence of events keeps the machine's invariant: term editing is
/// reachable only with a non-empty model, however the session ran.
pub proof fn lemma_run_preserves_validity(
    s: State,
    m: Seq<(FilterType, Seq<char>)>,
    events: Seq<Event>,
)
    requires
        spec_valid(s, m),
    ensures
        spec_valid(spec_run(s, m, events).0, spec_run(s, m, events).1),
    decreases events.len(),
{
    if events.len() > 0 {
        let next = spec_step(s, m, events.first());
        lemma_step_preserves_validity(s, m, events.first());
        lemma_run_preserves_validity(next.0, next.1, events.drop_first());
    }
}

/// However a session ran — whatever filter keys, term characters and
/// backspaces arrived, in whatever order — the query text for the model
/// it reached is one `<type> "<term>" ` fragment per remaining
/// constraint, concatenated in creation order.
pub proof fn lemma_run_fragments(events: Seq<Event>)
    ensures
        ({
            let m = spec_run(State::NeedType, Seq::<(FilterType, Seq<char>)>::empty(), events).1;
            crate::model::spec_fragments(m) == m.map_values(
                |c: (FilterType, Seq<char>)| crate::model::spec_fragment(c),
            ).flatten_alt()
        }),
{
    let m = spec_run(State::NeedType, Seq::<(FilterType, Seq<char>)>::empty(), events).1;
    crate::model::lemma_fragment_per_constraint(m);
}

/// Backspace while a term is being edited: with a non-empty term it
/// removes one character and never changes the constraint count; with an
/// empty term it removes exactly the one in-progress constraint and
/// returns to awaiting a filter type.
pub proof fn lemma_backspace_in_term(m: Seq<(FilterType, Seq<char>)>)
    requires
        m.len() > 0,
    ensures
        m.last().1.len() > 0 ==> spec_step(State::NeedTerm, m, Event::Backspace).0
            == State::NeedTerm && spec_step(State::NeedTerm, m, Event::Backspace).1.len()
            == m.len(),
        m.last().1.len() == 0 ==> spec_step(State::NeedTerm, m, Event::Backspace).0
            == State::NeedType && spec_step(State::NeedTerm, m, Event::Backspace).1.len()
            == m.len() - 1,
{
}

/// Backspace while awaiting a filter type on an empty model is
/// idempotent: it changes neither the state nor the model, and applying
/// it again changes nothing either.
pub proof fn lemma_backspace_empty_idempotent(m: Seq<(FilterType, Seq<char>)>)
    requires
        m.len() == 0,
    ensures
        spec_step(State::NeedType, m, Event::Backspace) == (State::NeedType, m),
        spec_step(
            spec_step(State::NeedType, m, Event::Backspace).0,
            spec_step(State::NeedType, m, Event::Backspace).1,
            Event::Backspace,
        ) == spec_step(State::NeedType, m, Event::Backspace),
{
}

/// From `NeedType`, Enter always commits and Escape always exits,
/// whatever the model holds; neither touches the model.
pub proof fn lemma_enter_escape_terminal(m: Seq<(FilterType, Seq<char>)>)
    ensures
        spec_step(State::NeedType, m, Event::Enter) == (State::ShouldCommit, m),
        spec_step(State::NeedType, m, Event::Escape) == (State::ShouldExit, m),
{
}

} // verus!
