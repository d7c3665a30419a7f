//! The line grammar of an annotation and the record built from a match.
use vstd::prelude::*;

use crate::chars::{
    alphabetic, blank, chars_of, is_alpha, is_blank, is_space, matches_at, occurs_at, string_of_range,
    whitespace,
};
use crate::todo_type::{contains_todo_type, kind_at, kind_at_index, kind_token, TodoType};

verus! {

/// The line comment opener `//`.
pub open spec fn line_open() -> Seq<char> {
    seq!['/', '/']
}

/// The block comment opener `<!--`.
pub open spec fn block_open() -> Seq<char> {
    seq!['<', '!', '-', '-']
}

/// The block comment closer `-->`.
pub open spec fn block_close() -> Seq<char> {
    seq!['-', '-', '>']
}

/// The first index at or after `i` that does not hold a blank character.
pub open spec fn skip_blanks(s: Seq<char>, i: int) -> int
    decreases s.len() - i,
{
    if 0 <= i < s.len() && is_blank(s[i]) {
        skip_blanks(s, i + 1)
    } else {
        i
    }
}

/// The first index at or after `i` that holds an alphabetic character, or the end.
pub open spec fn skip_non_alpha(s: Seq<char>, i: int) -> int
    decreases s.len() - i,
{
    if 0 <= i < s.len() && !alphabetic(s[i]) {
        skip_non_alpha(s, i + 1)
    } else {
        i
    }
}

/// The first index at or after `i`, and before `hi`, that does not hold whitespace
/// (or `hi`).
pub open spec fn skip_space_to(s: Seq<char>, i: int, hi: int) -> int
    decreases hi - i,
{
    if 0 <= i < hi && hi <= s.len() && whitespace(s[i]) {
        skip_space_to(s, i + 1, hi)
    } else {
        i
    }
}

/// The end of `s[lo..j]` once trailing whitespace is removed.
pub open spec fn trim_end_to(s: Seq<char>, lo: int, j: int) -> int
    decreases j - lo,
{
    if lo < j && 0 < j <= s.len() && whitespace(s[j - 1]) {
        trim_end_to(s, lo, j - 1)
    } else {
        j
    }
}

/// The length of the comment opener at index `i`: 4 for `<!--`, 2 for `//`, 0 for none.
pub open spec fn opener_len(s: Seq<char>, i: int) -> int {
    if occurs_at(s, i, block_open()) {
        4
    } else if occurs_at(s, i, line_open()) {
        2
    } else {
        0
    }
}

/// Why a line holds no annotation.
#[derive(PartialEq, Eq, Structural, Debug, Clone, Copy)]
pub enum LineMismatch {
    /// After the leading blanks there is no `//` or `<!--`.
    NoCommentOpen,
    /// The comment opener is not followed by one of the four marker words.
    UnrecognizedToken,
    /// The marker word ends the line or runs on into a letter.
    MissingSeparator,
}

/// Where an annotation was found on a line: its kind, its 1-based column, and
/// the bounds of its message within the line.
pub struct Marker {
    pub kind: TodoType,
    pub column: int,
    pub text_start: int,
    pub text_end: int,
}

/// The index where the marker word is looked for: after the leading blanks, the
/// comment opener and at most one space.
pub open spec fn word_start(s: Seq<char>) -> int {
    let b = skip_blanks(s, 0);
    let p = b + opener_len(s, b);
    if p < s.len() && s[p] == ' ' {
        p + 1
    } else {
        p
    }
}

/// The bounds of the message that starts at index `m`: trailing whitespace, then
/// one trailing `-->`, then surrounding whitespace are removed.
pub open spec fn text_bounds(s: Seq<char>, m: int) -> (int, int) {
    let e1 = trim_end_to(s, m, s.len() as int);
    let e2 = if e1 - m >= 3 && occurs_at(s, e1 - 3, block_close()) {
        trim_end_to(s, m, e1 - 3)
    } else {
        e1
    };
    (skip_space_to(s, m, e2), e2)
}

/// The annotation on line `s`, or why there is none.
///
/// The line is: blanks, `//` or `<!--`, an optional space, a marker word, at
/// least one non-alphabetic separator, and the message, which starts at the
/// next alphabetic character.  The column is the 1-based index just after the
/// opener and its optional space.
pub open spec fn parse_line(s: Seq<char>) -> Result<Marker, LineMismatch> {
    let b = skip_blanks(s, 0);
    if opener_len(s, b) == 0 {
        Err(LineMismatch::NoCommentOpen)
    } else {
        let k = word_start(s);
        match kind_at(s, k) {
            None => Err(LineMismatch::UnrecognizedToken),
            Some(kind) => {
                let e = k + kind_token(kind).len();
                if e >= s.len() || alphabetic(s[e]) {
                    Err(LineMismatch::MissingSeparator)
                } else {
                    let (st, en) = text_bounds(s, skip_non_alpha(s, e));
                    Ok(Marker { kind, column: k + 1, text_start: st, text_end: en })
                }
            },
        }
    }
}

/// Whether line `s` holds an annotation.
pub open spec fn is_annotation(s: Seq<char>) -> bool {
    parse_line(s) is Ok
}

/// An annotation found on a line, with its message bounds as indices.
pub struct LineMatch {
    pub kind: TodoType,
    pub column: usize,
    pub text_start: usize,
    pub text_end: usize,
}

impl View for LineMatch {
    type V = Marker;

    open spec fn view(&self) -> Marker {
        Marker {
            kind: self.kind,
            column: self.column as int,
            text_start: self.text_start as int,
            text_end: self.text_end as int,
        }
    }
}

/// Looks for an annotation on the line `s`.
pub fn probe_line(s: &Vec<char>) -> (r: Result<LineMatch, LineMismatch>)
    ensures
        match r {
            Ok(m) => parse_line(s@) == Ok::<Marker, LineMismatch>(m@),
            Err(e) => parse_line(s@) == Err::<Marker, LineMismatch>(e),
        },
        r matches Ok(m) ==> 0 <= m.text_start <= m.text_end <= s@.len(),
{
    let n = s.len();
    let mut b: usize = 0;
    while b < n && blank(s[b])
        invariant
            n == s@.len(),
            b <= n,
            skip_blanks(s@, 0) == skip_blanks(s@, b as int),
        decreases n - b,
    {
        b = b + 1;
    }
    let open_len: usize = if matches_at(s, b, &vec!['<', '!', '-', '-']) {
        4
    } else if matches_at(s, b, &vec!['/', '/']) {
        2
    } else {
        0
    };
    if open_len == 0 {
        return Err(LineMismatch::NoCommentOpen);
    }
    let p = b + open_len;
    let k = if p < n && s[p] == ' ' {
        p + 1
    } else {
        p
    };
    let kind = match kind_at_index(s, k) {
        None => {
            return Err(LineMismatch::UnrecognizedToken);
        },
        Some(kind) => kind,
    };
    let e = k + kind.token().len();
    if e >= n || is_alpha(s[e]) {
        return Err(LineMismatch::MissingSeparator);
    }
    let mut m: usize = e;
    while m < n && !is_alpha(s[m])
        invariant
            n == s@.len(),
            e <= m <= n,
            skip_non_alpha(s@, e as int) == skip_non_alpha(s@, m as int),
        decreases n - m,
    {
        m = m + 1;
    }
    let e1 = trim_end(s, m, n);
    let e2 = if e1 - m >= 3 && matches_at(s, e1 - 3, &vec!['-', '-', '>']) {
        trim_end(s, m, e1 - 3)
    } else {
        e1
    };
    let mut st: usize = m;
    while st < e2 && is_space(s[st])
        invariant
            n == s@.len(),
            m <= st <= e2 <= n,
            skip_space_to(s@, m as int, e2 as int) == skip_space_to(s@, st as int, e2 as int),
        decreases e2 - st,
    {
        st = st + 1;
    }
    Ok(LineMatch { kind, column: k + 1, text_start: st, text_end: e2 })
}

/// One annotation: where it is, what it says and of which kind it is.
/// `line_number` holds the 1-based line and the 1-based column.
pub struct Todo {
    pub file_path: String,
    pub line_number: (usize, usize),
    pub text: String,
    pub todo_type: TodoType,
}

/// The mathematical value of a `Todo`.
pub struct TodoView {
    pub file_path: Seq<char>,
    pub line: int,
    pub column: int,
    pub text: Seq<char>,
    pub kind: TodoType,
}

impl View for Todo {
    type V = TodoView;

    open spec fn view(&self) -> TodoView {
        TodoView {
            file_path: self.file_path@,
            line: self.line_number.0 as int,
            column: self.line_number.1 as int,
            text: self.text@,
            kind: self.todo_type,
        }
    }
}

/// The annotation on line `s`, the line at 0-based index `index` of the file
/// at `path`, if the line holds one.
pub open spec fn todo_of_line(s: Seq<char>, index: int, path: Seq<char>) -> Option<TodoView> {
    match parse_line(s) {
        Ok(m) => Some(
            TodoView {
                file_path: path,
                line: index + 1,
                column: m.column,
                text: s.subrange(m.text_start, m.text_end),
                kind: m.kind,
            },
        ),
        Err(_) => None,
    }
}

/// The annotation on the line `s`, at 0-based index `index` of the file at `path`.
pub fn todo_from_chars(s: &Vec<char>, index: usize, path: String) -> (r: Option<Todo>)
    requires
        index < usize::MAX,
    ensures
        match r {
            Some(t) => todo_of_line(s@, index as int, path@) == Some(t@),
            None => todo_of_line(s@, index as int, path@) is None,
        },
{
    match probe_line(s) {
        Ok(m) => Some(
            Todo {
                file_path: path,
                line_number: (index + 1, m.column),
                text: string_of_range(s, m.text_start, m.text_end),
                todo_type: m.kind,
            },
        ),
        Err(_) => None,
    }
}

/// The annotation on `input`, the line at 0-based index `line_number` of the
/// file at `file_path`, or `None` where the line holds none.
pub fn parse_todo(input: &str, line_number: usize, file_path: String) -> (r: Option<Todo>)
    requires
        line_number < usize::MAX,
    ensures
        match r {
            Some(t) => todo_of_line(input@, line_number as int, file_path@) == Some(t@),
            None => todo_of_line(input@, line_number as int, file_path@) is None,
        },
{
    if contains_todo_type(input).is_ok() {
        Some(Todo::from((line_number, input, file_path)))
    } else {
        None
    }
}

impl Todo {
    /// The annotation on a line known to hold one, from its 0-based index, its
    /// text and the path of its file.
    pub fn from(args: (usize, &str, String)) -> (r: Todo)
        requires
            args.0 < usize::MAX,
            todo_of_line(args.1@, args.0 as int, args.2@) is Some,
        ensures
            todo_of_line(args.1@, args.0 as int, args.2@) == Some(r@),
    {
        let (line_number, text, path) = args;
        let s = chars_of(text);
        todo_from_chars(&s, line_number, path).unwrap()
    }
}

/// A comment opener followed by a word that is none of the four marker words
/// yields no annotation on that line.
pub proof fn lemma_unrecognized_token(s: Seq<char>, index: int, path: Seq<char>)
    requires
        opener_len(s, skip_blanks(s, 0)) != 0,
        kind_at(s, word_start(s)) is None,
    ensures
        parse_line(s) == Err::<Marker, LineMismatch>(LineMismatch::UnrecognizedToken),
        todo_of_line(s, index, path) is None,
{
}

/// The end of `s[lo..hi]` once trailing whitespace is removed.
pub(crate) fn trim_end(s: &Vec<char>, lo: usize, hi: usize) -> (r: usize)
    requires
        lo <= hi <= s@.len(),
    ensures
        r == trim_end_to(s@, lo as int, hi as int),
        lo <= r <= hi,
{
    let mut j: usize = hi;
    while j > lo && is_space(s[j - 1])
        invariant
            lo <= j <= hi <= s@.len(),
            trim_end_to(s@, lo as int, hi as int) == trim_end_to(s@, lo as int, j as int),
        decreases j - lo,
    {
        j = j - 1;
    }
    j
}

} // verus!
