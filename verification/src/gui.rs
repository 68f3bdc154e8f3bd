//! The decisions of the graphical front end: a text input, a button, and
//! the result of the last lookup.

use vstd::prelude::*;

use crate::rdict::FetchedResult;
use crate::text::{trim, trim_str};

verus! {

/// What the window shows under the input line.
pub enum TranslationState {
    Empty,
    Loading,
    Error(String),
    Translation(FetchedResult),
}

/// The window's state.
pub struct State {
    pub text_input_content: String,
    pub translation_result: TranslationState,
}

impl State {
    /// An empty input and nothing shown.
    pub fn new() -> (s: Self)
        ensures
            s.text_input_content@.len() == 0,
            s.translation_result is Empty,
    {
        State { text_input_content: String::new(), translation_result: TranslationState::Empty }
    }
}

/// What the window reacts to.
pub enum Message {
    /// The input line was edited.
    ContentChanged(String),
    /// The lookup was asked for.
    Submit,
    /// A lookup finished.
    TranslationResult(FetchedResult),
    /// A lookup failed (its message).
    TranslationError(String),
}

/// The work that a message starts.
pub enum Task {
    /// Nothing to do.
    Idle,
    /// Look up this text.
    Lookup(String),
}

/// Applies a message to the window's state: edits replace the input, a
/// submitted non-blank input starts a lookup of it and shows the loading
/// state (a blank one is ignored), and finished lookups are shown.
pub fn update(state: &mut State, message: Message) -> (task: Task)
    ensures
        match message {
            Message::ContentChanged(c) => {
                &&& final(state).text_input_content == c
                &&& final(state).translation_result == old(state).translation_result
                &&& task is Idle
            },
            Message::Submit => if trim(old(state).text_input_content@).len() == 0 {
                &&& *final(state) == *old(state)
                &&& task is Idle
            } else {
                &&& final(state).text_input_content == old(state).text_input_content
                &&& final(state).translation_result is Loading
                &&& task matches Task::Lookup(t) && t@ == old(state).text_input_content@
            },
            Message::TranslationResult(r) => {
                &&& final(state).text_input_content == old(state).text_input_content
                &&& final(state).translation_result == TranslationState::Translation(r)
                &&& task is Idle
            },
            Message::TranslationError(e) => {
                &&& final(state).text_input_content == old(state).text_input_content
                &&& final(state).translation_result == TranslationState::Error(e)
                &&& task is Idle
            },
        },
{
    match message {
        Message::ContentChanged(content) => {
            state.text_input_content = content;
            Task::Idle
        },
        Message::Submit => {
            let trimmed = trim_str(state.text_input_content.as_str());
            if trimmed.as_str().is_empty() {
                return Task::Idle;
            }
            state.translation_result = TranslationState::Loading;
            let text_input_content = state.text_input_content.clone();
            Task::Lookup(text_input_content)
        },
        Message::TranslationResult(msg) => {
            state.translation_result = TranslationState::Translation(msg);
            Task::Idle
        },
        Message::TranslationError(err) => {
            state.translation_result = TranslationState::Error(err);
            Task::Idle
        },
    }
}

} // verus!
