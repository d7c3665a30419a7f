//! Choosing which entries of a directory walk to scan, and scanning them.
use vstd::prelude::*;

use crate::chars::{chars_of, is_space, string_of_range};
use crate::scan::{
    bounds_view, lemma_line_bounds, line_bounds, needle_view, scan_chars, scan_text,
    split_lines, todos_view,
};
use crate::todo::{skip_space_to, trim_end, trim_end_to, Todo, TodoView};

verus! {

/// The values of a sequence of strings.
pub open spec fn strings_view(v: Seq<String>) -> Seq<Seq<char>> {
    v.map_values(|x: String| x@)
}

/// What a scan is told: the ignore list, the allowed file extensions and the
/// optional needle.
pub struct ScanConfig {
    pub ignore: Vec<String>,
    pub extensions: Vec<String>,
    pub needle: Option<String>,
}

/// The value of a `ScanConfig`.
pub struct ScanConfigView {
    pub ignore: Seq<Seq<char>>,
    pub extensions: Seq<Seq<char>>,
    pub needle: Option<Seq<char>>,
}

impl View for ScanConfig {
    type V = ScanConfigView;

    open spec fn view(&self) -> ScanConfigView {
        ScanConfigView {
            ignore: strings_view(self.ignore@),
            extensions: strings_view(self.extensions@),
            needle: match self.needle {
                Some(n) => Some(n@),
                None => None,
            },
        }
    }
}

/// One entry of a directory walk: its path, the path of its parent directory,
/// whether it is a directory, its file extension if it has one, and its text
/// where it was read.
pub struct Entry {
    pub path: String,
    pub parent: String,
    pub is_dir: bool,
    pub extension: Option<String>,
    pub contents: Option<String>,
}

/// The value of an `Entry`.
pub struct EntryView {
    pub path: Seq<char>,
    pub parent: Seq<char>,
    pub is_dir: bool,
    pub extension: Option<Seq<char>>,
    pub contents: Option<Seq<char>>,
}

impl View for Entry {
    type V = EntryView;

    open spec fn view(&self) -> EntryView {
        EntryView {
            path: self.path@,
            parent: self.parent@,
            is_dir: self.is_dir,
            extension: match self.extension {
                Some(x) => Some(x@),
                None => None,
            },
            contents: match self.contents {
                Some(c) => Some(c@),
                None => None,
            },
        }
    }
}

/// Whether an entry is to be scanned: neither its path nor its parent's path is
/// on the ignore list, it is not a directory, and it has an allowed extension.
pub open spec fn is_candidate_spec(
    cfg: ScanConfigView,
    path: Seq<char>,
    parent: Seq<char>,
    is_dir: bool,
    extension: Option<Seq<char>>,
) -> bool {
    &&& !cfg.ignore.contains(path)
    &&& !cfg.ignore.contains(parent)
    &&& !is_dir
    &&& match extension {
        Some(x) => cfg.extensions.contains(x),
        None => false,
    }
}

/// Whether `entry` is to be scanned.
pub open spec fn entry_is_candidate(cfg: ScanConfigView, e: EntryView) -> bool {
    is_candidate_spec(cfg, e.path, e.parent, e.is_dir, e.extension)
}

/// The text of an entry, empty where it was not read.
pub open spec fn text_of(e: EntryView) -> Seq<char> {
    match e.contents {
        Some(c) => c,
        None => Seq::empty(),
    }
}

/// What a scan of a directory walk yields: the annotations kept, in walk order,
/// and the counts of entries visited, of scanned files without annotations, and
/// of annotations that the needle dropped.
pub struct ScanView {
    pub todos: Seq<TodoView>,
    pub files_scanned: nat,
    pub ok_files: nat,
    pub filtered: nat,
}

/// Scanning the first `j` entries of a walk.  Every entry counts as visited;
/// each candidate's text is scanned.
pub open spec fn scan_upto(cfg: ScanConfigView, es: Seq<EntryView>, j: int) -> ScanView
    decreases j,
{
    if j <= 0 {
        ScanView { todos: Seq::empty(), files_scanned: 0, ok_files: 0, filtered: 0 }
    } else {
        let prev = scan_upto(cfg, es, j - 1);
        let e = es[j - 1];
        if entry_is_candidate(cfg, e) {
            let f = scan_text(text_of(e), e.path, cfg.needle);
            ScanView {
                todos: prev.todos + f.todos,
                files_scanned: prev.files_scanned + 1,
                ok_files: prev.ok_files + if f.ok {
                    1nat
                } else {
                    0nat
                },
                filtered: prev.filtered + f.filtered,
            }
        } else {
            ScanView { files_scanned: prev.files_scanned + 1, ..prev }
        }
    }
}

/// Scanning a whole walk.
pub open spec fn scan_walk(cfg: ScanConfigView, es: Seq<EntryView>) -> ScanView {
    scan_upto(cfg, es, es.len() as int)
}

/// The values of a sequence of entries.
pub open spec fn entries_view(v: Seq<Entry>) -> Seq<EntryView> {
    v.map_values(|e: Entry| e@)
}

/// The total length of the texts of the first `j` entries.
pub open spec fn text_total(es: Seq<EntryView>, j: int) -> nat
    decreases j,
{
    if j <= 0 {
        0
    } else {
        text_total(es, j - 1) + text_of(es[j - 1]).len()
    }
}

/// The counters of a scan.
pub struct ScanSummary {
    pub files_scanned: usize,
    pub ok_files: usize,
    pub filtered: usize,
}

/// The result of scanning a walk.
pub struct ScanReport {
    pub todos: Vec<Todo>,
    pub summary: ScanSummary,
}

impl View for ScanReport {
    type V = ScanView;

    open spec fn view(&self) -> ScanView {
        ScanView {
            todos: todos_view(self.todos@),
            files_scanned: self.summary.files_scanned as nat,
            ok_files: self.summary.ok_files as nat,
            filtered: self.summary.filtered as nat,
        }
    }
}

/// Whether `s` is on the list `v`.
fn list_contains(v: &Vec<String>, s: &String) -> (r: bool)
    ensures
        r == strings_view(v@).contains(s@),
{
    let mut i: usize = 0;
    while i < v.len()
        invariant
            i <= v@.len(),
            forall|k: int| 0 <= k < i ==> v@[k]@ != s@,
        decreases v@.len() - i,
    {
        if v[i] == *s {
            assert(strings_view(v@)[i as int] == s@);
            return true;
        }
        i = i + 1;
    }
    assert forall|k: int| 0 <= k < strings_view(v@).len() implies strings_view(v@)[k] != s@ by {
        assert(strings_view(v@)[k] == v@[k]@);
    }
    false
}

impl ScanConfig {
    /// Whether the entry at `path`, in the directory at `parent`, is to be
    /// scanned.
    pub fn is_candidate(
        &self,
        path: &String,
        parent: &String,
        is_dir: bool,
        extension: &Option<String>,
    ) -> (r: bool)
        ensures
            r == is_candidate_spec(
                self@,
                path@,
                parent@,
                is_dir,
                match extension {
                    Some(x) => Some(x@),
                    None => None,
                },
            ),
    {
        if list_contains(&self.ignore, path) || list_contains(&self.ignore, parent) || is_dir {
            return false;
        }
        match extension {
            Some(x) => list_contains(&self.extensions, x),
            None => false,
        }
    }
}

/// Scans the entries of a walk, in order.  Every candidate must have been read.
pub fn scan_entries(config: &ScanConfig, entries: &Vec<Entry>) -> (r: ScanReport)
    requires
        forall|i: int|
            0 <= i < entries@.len() && entry_is_candidate(config@, #[trigger] entries@[i]@)
                ==> entries@[i].contents is Some,
        text_total(entries_view(entries@), entries@.len() as int) <= usize::MAX,
    ensures
        r@ == scan_walk(config@, entries_view(entries@)),
{
    let ghost es = entries_view(entries@);
    let needle: Option<Vec<char>> = match &config.needle {
        Some(n) => Some(chars_of(n.as_str())),
        None => None,
    };
    assert(needle_view(needle) == config@.needle);
    let mut todos: Vec<Todo> = Vec::new();
    let mut files_scanned: usize = 0;
    let mut ok_files: usize = 0;
    let mut filtered: usize = 0;
    let mut j: usize = 0;
    assert(todos_view(todos@) =~= Seq::<TodoView>::empty());
    while j < entries.len()
        invariant
            es == entries_view(entries@),
            needle_view(needle) == config@.needle,
            forall|i: int|
                0 <= i < entries@.len() && entry_is_candidate(config@, #[trigger] entries@[i]@)
                    ==> entries@[i].contents is Some,
            text_total(es, entries@.len() as int) <= usize::MAX,
            j <= entries@.len(),
            files_scanned == j,
            ok_files <= j,
            filtered <= text_total(es, j as int),
            (ScanView {
                todos: todos_view(todos@),
                files_scanned: files_scanned as nat,
                ok_files: ok_files as nat,
                filtered: filtered as nat,
            }) == scan_upto(config@, es, j as int),
        decreases entries@.len() - j,
    {
        let e = &entries[j];
        assert(es[j as int] == e@);
        proof { lemma_text_total_grows(es, j as int + 1, entries@.len() as int); }
        if config.is_candidate(&e.path, &e.parent, e.is_dir, &e.extension) {
            if let Some(text) = &e.contents {
                let chars = chars_of(text.as_str());
                let mut f = scan_chars(&chars, &e.path, &needle);
                let ghost old_todos = todos@;
                let ghost new_todos = f.todos@;
                todos.append(&mut f.todos);
                assert(todos_view(todos@) =~= todos_view(old_todos) + todos_view(new_todos));
                if f.ok {
                    ok_files = ok_files + 1;
                }
                filtered = filtered + f.filtered;
            }
        }
        files_scanned = files_scanned + 1;
        j = j + 1;
    }
    ScanReport { todos, summary: ScanSummary { files_scanned, ok_files, filtered } }
}

/// Scanning is repeatable: the same walk under the same configuration yields
/// the same annotations, in the same order, and the same counts.
pub proof fn lemma_scan_repeatable(cfg: ScanConfigView, first: Seq<EntryView>, second: Seq<EntryView>)
    requires
        first == second,
    ensures
        scan_walk(cfg, first) == scan_walk(cfg, second),
        scan_walk(cfg, first).files_scanned == first.len(),
{
    lemma_files_scanned(cfg, first, first.len() as int);
}

proof fn lemma_files_scanned(cfg: ScanConfigView, es: Seq<EntryView>, j: int)
    requires
        0 <= j,
    ensures
        scan_upto(cfg, es, j).files_scanned == j,
    decreases j,
{
    if j > 0 {
        lemma_files_scanned(cfg, es, j - 1);
    }
}

/// The entry that line `b` of `s` adds to an ignore list: the line without
/// surrounding whitespace, unless that is empty or starts with `#`.
pub open spec fn ignore_entry(s: Seq<char>, b: (int, int)) -> Option<Seq<char>> {
    let st = skip_space_to(s, b.0, b.1);
    let en = trim_end_to(s, st, b.1);
    if en > st && s[st] != '#' {
        Some(s.subrange(st, en))
    } else {
        None
    }
}

/// The ignore-list entries of the first `j` lines, whose bounds are `bs`.
pub open spec fn ignore_upto(s: Seq<char>, bs: Seq<(int, int)>, j: int) -> Seq<Seq<char>>
    decreases j,
{
    if j <= 0 {
        Seq::empty()
    } else {
        let prev = ignore_upto(s, bs, j - 1);
        match ignore_entry(s, bs[j - 1]) {
            Some(x) => prev.push(x),
            None => prev,
        }
    }
}

/// The ignore list that the text `s` describes, in line order.
pub open spec fn ignore_list_of(s: Seq<char>) -> Seq<Seq<char>> {
    ignore_upto(s, line_bounds(s), line_bounds(s).len() as int)
}

/// The ignore list in the text `text`: one path per line, surrounding
/// whitespace removed, blank lines and lines starting with `#` left out.
pub fn parse_ignore_list(text: &str) -> (r: Vec<String>)
    ensures
        strings_view(r@) == ignore_list_of(text@),
{
    let s = chars_of(text);
    let bounds = split_lines(&s);
    proof {
        lemma_line_bounds(s@);
        assert forall|k: int| 0 <= k < bounds@.len() implies 0 <= (#[trigger] bounds@[k]).0
            <= bounds@[k].1 <= s@.len() by {
            assert(bounds_view(bounds@)[k] == line_bounds(s@)[k]);
        }
    }
    let mut r: Vec<String> = Vec::new();
    let mut j: usize = 0;
    assert(strings_view(r@) =~= Seq::<Seq<char>>::empty());
    while j < bounds.len()
        invariant
            s@ == text@,
            bounds_view(bounds@) == line_bounds(s@),
            forall|k: int|
                0 <= k < bounds@.len() ==> 0 <= (#[trigger] bounds@[k]).0 <= bounds@[k].1
                    <= s@.len(),
            j <= bounds@.len(),
            strings_view(r@) == ignore_upto(s@, line_bounds(s@), j as int),
        decreases bounds@.len() - j,
    {
        let (a, b) = bounds[j];
        assert(bounds_view(bounds@)[j as int] == (a as int, b as int));
        let mut st: usize = a;
        while st < b && is_space(s[st])
            invariant
                a <= st <= b <= s@.len(),
                skip_space_to(s@, a as int, b as int) == skip_space_to(s@, st as int, b as int),
            decreases b - st,
        {
            st = st + 1;
        }
        let en = trim_end(&s, st, b);
        if en > st && s[st] != '#' {
            let x = string_of_range(&s, st, en);
            r.push(x);
            assert(strings_view(r@) =~= ignore_upto(s@, line_bounds(s@), j as int).push(x@));
        }
        j = j + 1;
    }
    r
}

proof fn lemma_text_total_grows(es: Seq<EntryView>, j: int, k: int)
    requires
        j <= k,
    ensures
        text_total(es, j) <= text_total(es, k),
    decreases k - j,
{
    if j < k {
        lemma_text_total_grows(es, j, k - 1);
    }
}

} // verus!
