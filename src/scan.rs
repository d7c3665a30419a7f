//! Scanning the text of one file for annotations.
use vstd::prelude::*;

use crate::chars::{chars_of, contains_chars, contains_seq, copy_range, occurs_at};
use crate::todo::{
    block_open, is_annotation, line_open, opener_len, skip_blanks, todo_from_chars,
    todo_of_line, Todo, TodoView,
};

verus! {

/// Splitting `s[0..n]` into lines: the bounds of the lines ended so far and the
/// start of the current line.  A line ends at `\n`; a `\r` just before it is
/// not part of the line.
pub open spec fn split_state(s: Seq<char>, n: int) -> (Seq<(int, int)>, int)
    decreases n,
{
    if n <= 0 {
        (Seq::empty(), 0)
    } else {
        let (done, start) = split_state(s, n - 1);
        if s[n - 1] == '\n' {
            let end = if n - 2 >= start && s[n - 2] == '\r' {
                n - 2
            } else {
                n - 1
            };
            (done.push((start, end)), n)
        } else {
            (done, start)
        }
    }
}

/// The bounds of the lines of `s`; text after the last `\n` is a last line.
pub open spec fn line_bounds(s: Seq<char>) -> Seq<(int, int)> {
    let (done, start) = split_state(s, s.len() as int);
    if start < s.len() {
        done.push((start, s.len() as int))
    } else {
        done
    }
}

/// The lines of `s`.
pub open spec fn lines_of(s: Seq<char>) -> Seq<Seq<char>> {
    line_bounds(s).map_values(|b: (int, int)| s.subrange(b.0, b.1))
}

/// Whether `s` holds a comment opener anywhere.
pub open spec fn has_comment_marker(s: Seq<char>) -> bool {
    contains_seq(s, line_open()) || contains_seq(s, block_open())
}

/// Whether an annotation on `line` passes the needle: there is none, or the
/// line contains it.
pub open spec fn passes_needle(line: Seq<char>, needle: Option<Seq<char>>) -> bool {
    match needle {
        Some(n) => contains_seq(line, n),
        None => true,
    }
}

/// The annotations of the first `j` lines that pass the needle, in line order.
pub open spec fn todos_upto(
    lines: Seq<Seq<char>>,
    j: int,
    path: Seq<char>,
    needle: Option<Seq<char>>,
) -> Seq<TodoView>
    decreases j,
{
    if j <= 0 {
        Seq::empty()
    } else {
        let prev = todos_upto(lines, j - 1, path, needle);
        match todo_of_line(lines[j - 1], j - 1, path) {
            Some(t) => if passes_needle(lines[j - 1], needle) {
                prev.push(t)
            } else {
                prev
            },
            None => prev,
        }
    }
}

/// How many of the first `j` lines hold an annotation.
pub open spec fn detected_upto(lines: Seq<Seq<char>>, j: int) -> nat
    decreases j,
{
    if j <= 0 {
        0
    } else {
        detected_upto(lines, j - 1) + if is_annotation(lines[j - 1]) {
            1nat
        } else {
            0nat
        }
    }
}

/// How many of the first `j` lines hold an annotation that the needle drops.
pub open spec fn filtered_upto(lines: Seq<Seq<char>>, j: int, needle: Option<Seq<char>>) -> nat
    decreases j,
{
    if j <= 0 {
        0
    } else {
        filtered_upto(lines, j - 1, needle) + if is_annotation(lines[j - 1]) && !passes_needle(
            lines[j - 1],
            needle,
        ) {
            1nat
        } else {
            0nat
        }
    }
}

/// What scanning one file yields.
pub struct FileScanView {
    pub todos: Seq<TodoView>,
    pub ok: bool,
    pub filtered: nat,
}

/// Scanning the text `s` of the file at `path`: a text without `//` and `<!--`
/// is OK at once; otherwise each line is probed, the file is OK when no line
/// holds an annotation, and annotations whose line lacks the needle are counted
/// as filtered instead of kept.
pub open spec fn scan_text(s: Seq<char>, path: Seq<char>, needle: Option<Seq<char>>) -> FileScanView {
    if !has_comment_marker(s) {
        FileScanView { todos: Seq::empty(), ok: true, filtered: 0 }
    } else {
        full_scan(s, path, needle)
    }
}

/// Scanning the text `s` line by line, without the shortcut for texts that
/// hold no comment opener.
pub open spec fn full_scan(s: Seq<char>, path: Seq<char>, needle: Option<Seq<char>>) -> FileScanView {
    let ls = lines_of(s);
    FileScanView {
        todos: todos_upto(ls, ls.len() as int, path, needle),
        ok: detected_upto(ls, ls.len() as int) == 0,
        filtered: filtered_upto(ls, ls.len() as int, needle),
    }
}

/// A text that holds neither `//` nor `<!--` is OK with no annotations, and the
/// line-by-line scan agrees: the shortcut never changes the result.
pub proof fn lemma_shortcut_agrees(s: Seq<char>, path: Seq<char>, needle: Option<Seq<char>>)
    requires
        !has_comment_marker(s),
    ensures
        scan_text(s, path, needle) == (FileScanView { todos: Seq::empty(), ok: true, filtered: 0 }),
        full_scan(s, path, needle) == scan_text(s, path, needle),
{
    let ls = lines_of(s);
    lemma_line_bounds(s);
    assert forall|j: int| 0 <= j < ls.len() implies !is_annotation(#[trigger] ls[j]) by {
        let (a, b) = line_bounds(s)[j];
        assert(ls[j] == s.subrange(a, b));
        if is_annotation(ls[j]) {
            let k = skip_blanks(ls[j], 0);
            if opener_len(ls[j], k) == 4 {
                lemma_occurs_in_subrange(s, a, b, k, block_open());
                assert(contains_seq(s, block_open()));
            } else {
                lemma_occurs_in_subrange(s, a, b, k, line_open());
                assert(contains_seq(s, line_open()));
            }
        }
    }
    lemma_no_annotations(ls, ls.len() as int, path, needle);
}

proof fn lemma_occurs_in_subrange(s: Seq<char>, a: int, b: int, i: int, t: Seq<char>)
    requires
        0 <= a <= b <= s.len(),
        occurs_at(s.subrange(a, b), i, t),
    ensures
        occurs_at(s, a + i, t),
{
    assert(s.subrange(a, b).subrange(i, i + t.len()) =~= s.subrange(a + i, a + i + t.len()));
}

proof fn lemma_no_annotations(
    lines: Seq<Seq<char>>,
    j: int,
    path: Seq<char>,
    needle: Option<Seq<char>>,
)
    requires
        j <= lines.len(),
        forall|k: int| 0 <= k < lines.len() ==> !is_annotation(#[trigger] lines[k]),
    ensures
        todos_upto(lines, j, path, needle) == Seq::<TodoView>::empty(),
        detected_upto(lines, j) == 0,
        filtered_upto(lines, j, needle) == 0,
    decreases j,
{
    if j > 0 {
        lemma_no_annotations(lines, j - 1, path, needle);
        assert(!is_annotation(lines[j - 1]));
    }
}

/// Filtering by a needle changes only which annotations are kept: whether the
/// file is OK does not depend on it, every annotation that it drops is counted
/// as filtered, and every annotation kept lies on a line that contains it.
pub proof fn lemma_needle_filtering(s: Seq<char>, path: Seq<char>, needle: Seq<char>)
    ensures
        scan_text(s, path, Some(needle)).ok == scan_text(s, path, None).ok,
        scan_text(s, path, None).filtered == 0,
        scan_text(s, path, None).todos.len() == scan_text(s, path, Some(needle)).todos.len()
            + scan_text(s, path, Some(needle)).filtered,
        forall|i: int|
            0 <= i < scan_text(s, path, Some(needle)).todos.len() ==> {
                let t = #[trigger] scan_text(s, path, Some(needle)).todos[i];
                &&& 1 <= t.line <= lines_of(s).len()
                &&& contains_seq(lines_of(s)[t.line - 1], needle)
            },
{
    let ls = lines_of(s);
    lemma_filter_upto(ls, ls.len() as int, path, needle);
}

proof fn lemma_filter_upto(lines: Seq<Seq<char>>, j: int, path: Seq<char>, needle: Seq<char>)
    requires
        0 <= j <= lines.len(),
    ensures
        filtered_upto(lines, j, None) == 0,
        todos_upto(lines, j, path, None).len() == todos_upto(lines, j, path, Some(needle)).len()
            + filtered_upto(lines, j, Some(needle)),
        forall|i: int|
            0 <= i < todos_upto(lines, j, path, Some(needle)).len() ==> {
                let t = #[trigger] todos_upto(lines, j, path, Some(needle))[i];
                &&& 1 <= t.line <= j
                &&& contains_seq(lines[t.line - 1], needle)
            },
    decreases j,
{
    if j > 0 {
        lemma_filter_upto(lines, j - 1, path, needle);
        let prev = todos_upto(lines, j - 1, path, Some(needle));
        let cur = todos_upto(lines, j, path, Some(needle));
        assert forall|i: int| 0 <= i < cur.len() implies {
            let t = #[trigger] cur[i];
            &&& 1 <= t.line <= j
            &&& contains_seq(lines[t.line - 1], needle)
        } by {
            if i < prev.len() {
                assert(cur[i] == prev[i]);
            }
        }
    }
}

/// The values of a sequence of annotations.
pub open spec fn todos_view(v: Seq<Todo>) -> Seq<TodoView> {
    v.map_values(|t: Todo| t@)
}

/// The value of an optional needle.
pub open spec fn needle_view(n: Option<Vec<char>>) -> Option<Seq<char>> {
    match n {
        Some(v) => Some(v@),
        None => None,
    }
}

/// The bounds of a sequence of line bounds, as integers.
pub open spec fn bounds_view(v: Seq<(usize, usize)>) -> Seq<(int, int)> {
    v.map_values(|p: (usize, usize)| (p.0 as int, p.1 as int))
}

proof fn lemma_split_state_bounds(s: Seq<char>, n: int)
    requires
        0 <= n <= s.len(),
    ensures
        ({
            let (done, start) = split_state(s, n);
            &&& 0 <= start <= n
            &&& done.len() <= start
            &&& forall|j: int|
                0 <= j < done.len() ==> 0 <= (#[trigger] done[j]).0 <= done[j].1 <= start
        }),
    decreases n,
{
    if n > 0 {
        lemma_split_state_bounds(s, n - 1);
    }
}

pub(crate) proof fn lemma_line_bounds(s: Seq<char>)
    ensures
        line_bounds(s).len() <= s.len(),
        forall|j: int|
            0 <= j < line_bounds(s).len() ==> 0 <= (#[trigger] line_bounds(s)[j]).0
                <= line_bounds(s)[j].1 <= s.len(),
{
    lemma_split_state_bounds(s, s.len() as int);
}

/// The bounds of the lines of `s`.
pub(crate) fn split_lines(s: &Vec<char>) -> (r: Vec<(usize, usize)>)
    ensures
        bounds_view(r@) == line_bounds(s@),
{
    let n = s.len();
    let mut done: Vec<(usize, usize)> = Vec::new();
    let mut start: usize = 0;
    let mut i: usize = 0;
    while i < n
        invariant
            n == s@.len(),
            i <= n,
            (bounds_view(done@), start as int) == split_state(s@, i as int),
        decreases n - i,
    {
        proof { lemma_split_state_bounds(s@, i as int); }
        if s[i] == '\n' {
            let end = if i >= 1 && i - 1 >= start && s[i - 1] == '\r' {
                i - 1
            } else {
                i
            };
            done.push((start, end));
            assert(bounds_view(done@) =~= split_state(s@, i as int).0.push(
                (start as int, end as int),
            ));
            start = i + 1;
        }
        i = i + 1;
    }
    proof { lemma_split_state_bounds(s@, n as int); }
    if start < n {
        done.push((start, n));
        assert(bounds_view(done@) =~= line_bounds(s@));
    }
    done
}

/// What scanning one file yields: the annotations kept, whether the file is OK
/// (it holds no annotation), and how many annotations the needle dropped.
pub struct FileScan {
    pub todos: Vec<Todo>,
    pub ok: bool,
    pub filtered: usize,
}

impl View for FileScan {
    type V = FileScanView;

    open spec fn view(&self) -> FileScanView {
        FileScanView { todos: todos_view(self.todos@), ok: self.ok, filtered: self.filtered as nat }
    }
}

/// Scans `contents`, the text of the file at `path`, keeping only annotations
/// whose line contains `needle` where one is given.
pub fn scan_file(contents: &str, path: &String, needle: &Option<String>) -> (r: FileScan)
    ensures
        r@ == scan_text(
            contents@,
            path@,
            match needle {
                Some(n) => Some(n@),
                None => None,
            },
        ),
{
    let n: Option<Vec<char>> = match needle {
        Some(n) => Some(chars_of(n.as_str())),
        None => None,
    };
    let s = chars_of(contents);
    scan_chars(&s, path, &n)
}

/// Scans the characters `s` of the file at `path`.
pub fn scan_chars(s: &Vec<char>, path: &String, needle: &Option<Vec<char>>) -> (r: FileScan)
    ensures
        r@ == scan_text(s@, path@, needle_view(*needle)),
        r.filtered <= s@.len(),
{
    if !contains_chars(s, &vec!['/', '/']) && !contains_chars(s, &vec!['<', '!', '-', '-']) {
        let r = FileScan { todos: Vec::new(), ok: true, filtered: 0 };
        assert(todos_view(r.todos@) =~= Seq::<TodoView>::empty());
        return r;
    }
    let bounds = split_lines(s);
    proof {
        lemma_line_bounds(s@);
        assert forall|k: int| 0 <= k < bounds@.len() implies 0 <= (#[trigger] bounds@[k]).0
            <= bounds@[k].1 <= s@.len() by {
            assert(bounds_view(bounds@)[k] == line_bounds(s@)[k]);
        }
    }
    let ghost ls = lines_of(s@);
    let ghost nd = needle_view(*needle);
    let mut todos: Vec<Todo> = Vec::new();
    let mut detected: usize = 0;
    let mut filtered: usize = 0;
    let mut j: usize = 0;
    while j < bounds.len()
        invariant
            bounds_view(bounds@) == line_bounds(s@),
            ls == lines_of(s@),
            nd == needle_view(*needle),
            bounds@.len() <= s@.len(),
            forall|k: int|
                0 <= k < bounds@.len() ==> 0 <= (#[trigger] bounds@[k]).0 <= bounds@[k].1
                    <= s@.len(),
            j <= bounds@.len(),
            todos_view(todos@) == todos_upto(ls, j as int, path@, nd),
            detected == detected_upto(ls, j as int),
            filtered == filtered_upto(ls, j as int, nd),
            detected <= j,
            filtered <= j,
        decreases bounds@.len() - j,
    {
        let (a, b) = bounds[j];
        assert(bounds_view(bounds@)[j as int] == (a as int, b as int));
        let line = copy_range(s, a, b);
        assert(line@ == ls[j as int]);
        match todo_from_chars(&line, j, path.clone()) {
            Some(t) => {
                detected = detected + 1;
                let keep = match needle {
                    Some(n) => contains_chars(&line, n),
                    None => true,
                };
                if keep {
                    todos.push(t);
                    assert(todos_view(todos@) =~= todos_upto(ls, j as int, path@, nd).push(t@));
                } else {
                    filtered = filtered + 1;
                }
            },
            None => {},
        }
        j = j + 1;
    }
    FileScan { todos, ok: detected == 0, filtered }
}

} // verus!
