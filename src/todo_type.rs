//! The four annotation kinds and the marker words that name them.
use vstd::prelude::*;

use crate::chars::{chars_of, matches_at, occurs_at};
use crate::todo::{parse_line, probe_line, LineMismatch};

verus! {

/// The category of an annotation, named by the marker word that introduces it.
#[derive(PartialEq, Eq, Structural, Debug, Clone, Copy)]
pub enum TodoType {
    Todo,
    Fix,
    Warning,
    Note,
}

/// The marker word of each kind, matched case-sensitively.
pub open spec fn kind_token(k: TodoType) -> Seq<char> {
    match k {
        TodoType::Todo => seq!['T', 'O', 'D', 'O'],
        TodoType::Fix => seq!['F', 'I', 'X'],
        TodoType::Warning => seq!['W', 'A', 'R', 'N', 'I', 'N', 'G'],
        TodoType::Note => seq!['N', 'O', 'T', 'E'],
    }
}

/// The kind whose marker word is exactly `w`, if any.
pub open spec fn kind_of_word(w: Seq<char>) -> Option<TodoType> {
    if w == kind_token(TodoType::Todo) {
        Some(TodoType::Todo)
    } else if w == kind_token(TodoType::Fix) {
        Some(TodoType::Fix)
    } else if w == kind_token(TodoType::Warning) {
        Some(TodoType::Warning)
    } else if w == kind_token(TodoType::Note) {
        Some(TodoType::Note)
    } else {
        None
    }
}

/// The kind whose marker word starts at index `i` of `s`, trying the words in
/// the order TODO, FIX, WARNING, NOTE.
pub open spec fn kind_at(s: Seq<char>, i: int) -> Option<TodoType> {
    if occurs_at(s, i, kind_token(TodoType::Todo)) {
        Some(TodoType::Todo)
    } else if occurs_at(s, i, kind_token(TodoType::Fix)) {
        Some(TodoType::Fix)
    } else if occurs_at(s, i, kind_token(TodoType::Warning)) {
        Some(TodoType::Warning)
    } else if occurs_at(s, i, kind_token(TodoType::Note)) {
        Some(TodoType::Note)
    } else {
        None
    }
}

impl TodoType {
    /// The marker word of this kind.
    pub fn token(&self) -> (r: Vec<char>)
        ensures
            r@ == kind_token(*self),
    {
        match self {
            TodoType::Todo => vec!['T', 'O', 'D', 'O'],
            TodoType::Fix => vec!['F', 'I', 'X'],
            TodoType::Warning => vec!['W', 'A', 'R', 'N', 'I', 'N', 'G'],
            TodoType::Note => vec!['N', 'O', 'T', 'E'],
        }
    }

    /// The marker word of this kind as a string.
    pub fn label(&self) -> (r: &'static str)
        ensures
            r@ == kind_token(*self),
    {
        proof {
            reveal_strlit("TODO");
            reveal_strlit("FIX");
            reveal_strlit("WARNING");
            reveal_strlit("NOTE");
        }
        match self {
            TodoType::Todo => "TODO",
            TodoType::Fix => "FIX",
            TodoType::Warning => "WARNING",
            TodoType::Note => "NOTE",
        }
    }

    /// The kind named by the marker word `input`; the word must be one of the four.
    pub fn from(input: &str) -> (r: TodoType)
        requires
            kind_of_word(input@) is Some,
        ensures
            kind_of_word(input@) == Some(r),
    {
        let w = chars_of(input);
        assert(w@.subrange(0, w@.len() as int) == w@);
        if w.len() == 4 && matches_at(&w, 0, &TodoType::Todo.token()) {
            proof { lemma_whole_match(w@, kind_token(TodoType::Todo)); }
            TodoType::Todo
        } else if w.len() == 3 && matches_at(&w, 0, &TodoType::Fix.token()) {
            proof { lemma_whole_match(w@, kind_token(TodoType::Fix)); }
            TodoType::Fix
        } else if w.len() == 7 && matches_at(&w, 0, &TodoType::Warning.token()) {
            proof { lemma_whole_match(w@, kind_token(TodoType::Warning)); }
            TodoType::Warning
        } else {
            TodoType::Note
        }
    }
}

proof fn lemma_whole_match(w: Seq<char>, t: Seq<char>)
    requires
        w.len() == t.len(),
        occurs_at(w, 0, t),
    ensures
        w == t,
{
    assert(w.subrange(0, w.len() as int) == w);
}

/// Whether `input` is a line that holds an annotation: the kind of its marker
/// word where it does, and why not where it does not.
pub fn contains_todo_type(input: &str) -> (r: Result<TodoType, LineMismatch>)
    ensures
        match parse_line(input@) {
            Ok(m) => r == Ok::<TodoType, LineMismatch>(m.kind),
            Err(e) => r == Err::<TodoType, LineMismatch>(e),
        },
{
    let s = chars_of(input);
    match probe_line(&s) {
        Ok(m) => Ok(m.kind),
        Err(e) => Err(e),
    }
}

/// The kind whose marker word starts at index `i` of `s`.
pub fn kind_at_index(s: &Vec<char>, i: usize) -> (r: Option<TodoType>)
    ensures
        r == kind_at(s@, i as int),
{
    if matches_at(s, i, &TodoType::Todo.token()) {
        Some(TodoType::Todo)
    } else if matches_at(s, i, &TodoType::Fix.token()) {
        Some(TodoType::Fix)
    } else if matches_at(s, i, &TodoType::Warning.token()) {
        Some(TodoType::Warning)
    } else if matches_at(s, i, &TodoType::Note.token()) {
        Some(TodoType::Note)
    } else {
        None
    }
}

} // verus!
