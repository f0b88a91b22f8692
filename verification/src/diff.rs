//! A review branch's own changes against main, shaped for showing.
//!
//! Git computes the diff, `unidiff` takes its text apart, and what is left here is who may see it and how each file, hunk
//! and line is presented. Nothing here needs a remote.
use vstd::prelude::*;

use crate::pr::{branch_on_offer, offered_branch};
use crate::seqs::{models, opt_model};
use crate::store::model::{ColumnId, Ticket, TicketId, TicketModel};
use crate::text::{
    after_last, all_digits, behind_last, chars, concat2, concat3, concat4, concat5, decimal, decimal_reads_back, has_prefix,
    is_digit, lemma_after_last, lines,
    lines_spec, matches_at, number_upto, occurs_at, parse_upto, same, slice, strip_prefix, strip_prefix_spec, to_decimal,
    trim_end_of, trim_end_of_spec, Text,
};

verus! {

broadcast use crate::seqs::group_models;

// ---- the text of a diff ---------------------------------------------------------------------------------------------

/// A file header: the marker, and a name behind it.
pub open spec fn names_file(line: Text, marker: Text) -> bool {
    has_prefix(line, marker) && line.len() > marker.len() && line[marker.len() as int] != '\t'
}

/// A digit, or what may be one: beyond ASCII other scripts have digits of their own.
pub open spec fn digit_like(c: char) -> bool {
    is_digit(c) || c as u32 >= 128
}

/// Where the digits that begin at `i` end.
pub open spec fn digits_end(s: Text, i: int) -> int
    decreases s.len() - i,
{
    if 0 <= i < s.len() && digit_like(s[i]) {
        digits_end(s, i + 1)
    } else {
        i
    }
}

/// Where a range, `12` or `12,3`, that begins at `i` ends; `None` where there is none.
pub open spec fn range_end(s: Text, i: int) -> Option<int> {
    let e = digits_end(s, i);
    if e == i {
        None
    } else if e < s.len() && s[e] == ',' && digits_end(s, e + 1) > e + 1 {
        Some(digits_end(s, e + 1))
    } else {
        Some(e)
    }
}

/// The two numbers of the range that begins at `i`; a length that is left out is one.
pub open spec fn range_at(s: Text, i: int) -> (Text, Text) {
    let e = digits_end(s, i);
    if e < s.len() && s[e] == ',' && digits_end(s, e + 1) > e + 1 {
        (s.subrange(i, e), s.subrange(e + 1, digits_end(s, e + 1)))
    } else {
        (s.subrange(i, e), "1"@)
    }
}

/// A hunk header: `@@ -1,2 +3,4 @@`.
pub open spec fn hunk_header(s: Text) -> bool {
    has_prefix(s, "@@ -"@) && match range_end(s, 4) {
        Some(i) => occurs_at(s, " +"@, i) && match range_end(s, i + 2) {
            Some(j) => occurs_at(s, " @@"@, j),
            None => false,
        },
        None => false,
    }
}

/// The first header of any kind is a target's, with no source before it.
pub open spec fn target_first(ls: Seq<Text>) -> bool
    decreases ls.len(),
{
    if ls.len() == 0 {
        false
    } else if names_file(ls[0], "--- "@) || hunk_header(ls[0]) {
        false
    } else if names_file(ls[0], "+++ "@) {
        true
    } else {
        target_first(ls.subrange(1, ls.len() as int))
    }
}

/// Numbers in ASCII digits that fit the machine's word, and so do the end of the range and the number of a line that is
/// `n` lines behind its start.
pub open spec fn fits(range: (Text, Text), n: nat) -> bool {
    match (number_upto(range.0, usize::MAX as nat), number_upto(range.1, usize::MAX as nat)) {
        (Some(start), Some(length)) => start + length <= usize::MAX && start + n <= usize::MAX,
        _ => false,
    }
}

/// A line of a text of `n` lines whose ranges, if it is a hunk header, fit.
pub open spec fn sane(s: Text, n: nat) -> bool {
    hunk_header(s) ==> fits(range_at(s, 4), n) && fits(range_at(s, range_end(s, 4)->0 + 2), n)
}

/// A text that can be taken apart: no target header comes before every source header, and no hunk header holds a range
/// that does not fit.
pub open spec fn parseable(raw: Text) -> bool {
    let ls = lines_spec(raw);
    !target_first(ls) && forall|i: int| 0 <= i < ls.len() ==> sane(#[trigger] ls[i], ls.len())
}

fn file_header(line: &Vec<char>, marker: &Vec<char>) -> (r: bool)
    ensures
        r == names_file(line@, marker@),
{
    let n: usize = marker.len();
    matches_at(line, 0, marker) && line.len() > n && line[n] != '\t'
}

fn end_of_digits(s: &Vec<char>, i: usize) -> (r: usize)
    requires
        i <= s@.len(),
    ensures
        r == digits_end(s@, i as int),
        i <= r <= s@.len(),
{
    let mut e: usize = i;
    while e < s.len() && (crate::text::digit(s[e]) || s[e] as u32 >= 128)
        invariant
            i <= e <= s@.len(),
            digits_end(s@, i as int) == digits_end(s@, e as int),
        decreases s@.len() - e,
    {
        e = e + 1;
    }
    e
}

fn end_of_range(s: &Vec<char>, i: usize) -> (r: Option<usize>)
    requires
        i <= s@.len(),
    ensures
        match r {
            Some(e) => range_end(s@, i as int) == Some(e as int) && i < e <= s@.len(),
            None => range_end(s@, i as int) is None,
        },
{
    let e: usize = end_of_digits(s, i);
    if e == i {
        return None;
    }
    if e < s.len() && s[e] == ',' {
        let f: usize = end_of_digits(s, e + 1);
        if f > e + 1 {
            return Some(f);
        }
    }
    Some(e)
}

fn is_hunk_header(s: &Vec<char>) -> (r: bool)
    ensures
        r == hunk_header(s@),
{
    proof {
        reveal_strlit("@@ -");
        reveal_strlit(" +");
    }
    let n: usize = s.len();
    if !matches_at(s, 0, &chars("@@ -")) {
        return false;
    }
    let i: usize = match end_of_range(s, 4) {
        Some(i) => i,
        None => return false,
    };
    if !matches_at(s, i, &chars(" +")) {
        return false;
    }
    assert(i + 2 <= n);
    match end_of_range(s, i + 2) {
        Some(j) => matches_at(s, j, &chars(" @@")),
        None => false,
    }
}

fn range_fits(s: &Vec<char>, i: usize, n: usize) -> (r: bool)
    requires
        i <= s@.len(),
    ensures
        r == fits(range_at(s@, i as int), n as nat),
{
    let e: usize = end_of_digits(s, i);
    let mut length: String = "1".to_owned();
    if e < s.len() && s[e] == ',' {
        let f: usize = end_of_digits(s, e + 1);
        if f > e + 1 {
            length = slice(s, e + 1, f);
        }
    }
    let most: usize = usize::MAX;
    match (parse_upto(&slice(s, i, e), most as u64), parse_upto(&length, most as u64)) {
        (Some(start), Some(length)) => {
            let start: usize = start as usize;
            length as usize <= most - start && n <= most - start
        },
        _ => false,
    }
}

fn is_sane(s: &Vec<char>, n: usize) -> (r: bool)
    ensures
        r == sane(s@, n as nat),
{
    if !is_hunk_header(s) {
        return true;
    }
    proof {
        reveal_strlit("@@ -");
        reveal_strlit(" +");
    }
    let end: usize = s.len();
    match end_of_range(s, 4) {
        Some(i) => {
            assert(i + 2 <= end);
            range_fits(s, 4, n) && range_fits(s, i + 2, n)
        },
        None => true,
    }
}

/// Whether a text can be taken apart.
pub fn can_parse(raw: &str) -> (r: bool)
    ensures
        r == parseable(raw@),
{
    let all: Vec<String> = lines(raw);
    let ghost ls = models(all@);
    let (source, target): (Vec<char>, Vec<char>) = (chars("--- "), chars("+++ "));
    let mut headed: bool = false;
    let mut i: usize = 0;
    proof {
        assert(ls.subrange(0, ls.len() as int) =~= ls);
    }
    while i < all.len()
        invariant
            ls == models(all@),
            ls == lines_spec(raw@),
            source@ == "--- "@,
            target@ == "+++ "@,
            i <= all@.len(),
            forall|j: int| 0 <= j < i ==> sane(#[trigger] ls[j], ls.len()),
            headed ==> !target_first(ls),
            !headed ==> target_first(ls) == target_first(ls.subrange(i as int, ls.len() as int)),
        decreases all@.len() - i,
    {
        let line: Vec<char> = chars(&all[i]);
        proof {
            let rest = ls.subrange(i as int, ls.len() as int);
            assert(rest[0] == all@[i as int]@);
            assert(ls[i as int] == line@);
            assert(rest.subrange(1, rest.len() as int) =~= ls.subrange(i + 1, ls.len() as int));
        }
        if !is_sane(&line, all.len()) {
            return false;
        }
        if !headed {
            if file_header(&line, &source) || is_hunk_header(&line) {
                headed = true;
            } else if file_header(&line, &target) {
                return false;
            }
        }
        i = i + 1;
    }
    true
}

// ---- what the text holds --------------------------------------------------------------------------------------------

/// One line of a hunk: its number in the source and in the target, its marker, and its text.
#[derive(Debug)]
pub struct PatchLine(pub Option<usize>, pub Option<usize>, pub String, pub String);

/// One hunk: where it starts in the source and how long it is there, the same for the target, its section, its lines.
#[derive(Debug)]
pub struct PatchHunk(pub usize, pub usize, pub usize, pub usize, pub String, pub Vec<PatchLine>);

/// One file: its name in the source and in the target, how many lines were added and removed, its hunks.
#[derive(Debug)]
pub struct PatchFile(pub String, pub String, pub usize, pub usize, pub Vec<PatchHunk>);

pub struct PatchLineModel {
    pub old_no: Option<usize>,
    pub new_no: Option<usize>,
    pub marker: Text,
    pub text: Text,
}

pub struct PatchHunkModel {
    pub source_start: usize,
    pub source_length: usize,
    pub target_start: usize,
    pub target_length: usize,
    pub section: Text,
    pub lines: Seq<PatchLineModel>,
}

pub struct PatchFileModel {
    pub source: Text,
    pub target: Text,
    pub added: usize,
    pub removed: usize,
    pub hunks: Seq<PatchHunkModel>,
}

impl View for PatchLine {
    type V = PatchLineModel;

    open spec fn view(&self) -> PatchLineModel {
        PatchLineModel { old_no: self.0, new_no: self.1, marker: self.2@, text: self.3@ }
    }
}

impl View for PatchHunk {
    type V = PatchHunkModel;

    open spec fn view(&self) -> PatchHunkModel {
        PatchHunkModel {
            source_start: self.0,
            source_length: self.1,
            target_start: self.2,
            target_length: self.3,
            section: self.4@,
            lines: models(self.5@),
        }
    }
}

impl View for PatchFile {
    type V = PatchFileModel;

    open spec fn view(&self) -> PatchFileModel {
        PatchFileModel {
            source: self.0@,
            target: self.1@,
            added: self.2,
            removed: self.3,
            hunks: models(self.4@),
        }
    }
}

/// What `unidiff` finds in a text: the changed files, or what is wrong with it.
pub uninterp spec fn patches(raw: Seq<char>) -> Result<Seq<PatchFileModel>, Seq<char>>;

/// `unidiff::PatchSet::parse`, its files, hunks and lines copied field by field, with each file's `added` and `removed`
/// counts: the outcome depends on the text alone, and an error is known by what it displays. It panics on a target header
/// that no source header precedes, and on line numbers that do not fit the machine's word or are no ASCII digits.
#[verifier::external_body]
fn read_patch(raw: &str) -> (r: Result<Vec<PatchFile>, String>)
    requires
        parseable(raw@),
    ensures
        match r {
            Ok(files) => patches(raw@) == Ok::<Seq<PatchFileModel>, Text>(models(files@)),
            Err(e) => patches(raw@) == Err::<Seq<PatchFileModel>, Text>(e@),
        },
{
    let mut patch = unidiff::PatchSet::new();
    patch.parse(raw).map_err(|e| e.to_string())?;
    Ok(patch.files().iter().map(|f| PatchFile(
        f.source_file.clone(), f.target_file.clone(), f.added(), f.removed(),
        f.hunks().iter().map(|h| PatchHunk(
            h.source_start, h.source_length, h.target_start, h.target_length, h.section_header.clone(),
            h.lines().iter().map(|l| PatchLine(
                l.source_line_no, l.target_line_no, l.line_type.clone(), l.value.clone(),
            )).collect(),
        )).collect(),
    )).collect())
}

// ---- how it is shown ------------------------------------------------------------------------------------------------

/// One shown line: its numbers, each absent on the side without it, how its row is tinted, and its text without the marker.
#[derive(Debug, PartialEq, Eq)]
pub struct DiffLine {
    pub old_no: Option<usize>,
    pub new_no: Option<usize>,
    /// `dl-add`, `dl-del` or `dl-ctx`.
    pub css: &'static str,
    pub text: String,
}

/// One hunk: its header and its lines.
#[derive(Debug, PartialEq, Eq)]
pub struct DiffHunk {
    pub header: String,
    pub lines: Vec<DiffLine>,
}

/// One changed file. A binary or pure rename has no hunks.
#[derive(Debug, PartialEq, Eq)]
pub struct FileDiff {
    pub path: String,
    /// The former path, present only on a rename.
    pub old_path: Option<String>,
    /// `added`, `modified`, `deleted` or `renamed`.
    pub status: &'static str,
    pub added: usize,
    pub deleted: usize,
    /// The highlighter's name for the file's language, where it has one.
    pub lang: Option<&'static str>,
    pub hunks: Vec<DiffHunk>,
}

pub struct DiffLineModel {
    pub old_no: Option<usize>,
    pub new_no: Option<usize>,
    pub css: Text,
    pub text: Text,
}

pub struct DiffHunkModel {
    pub header: Text,
    pub lines: Seq<DiffLineModel>,
}

pub struct FileDiffModel {
    pub path: Text,
    pub old_path: Option<Text>,
    pub status: Text,
    pub added: usize,
    pub deleted: usize,
    pub lang: Option<Text>,
    pub hunks: Seq<DiffHunkModel>,
}

impl View for DiffLine {
    type V = DiffLineModel;

    open spec fn view(&self) -> DiffLineModel {
        DiffLineModel { old_no: self.old_no, new_no: self.new_no, css: self.css@, text: self.text@ }
    }
}

impl View for DiffHunk {
    type V = DiffHunkModel;

    open spec fn view(&self) -> DiffHunkModel {
        DiffHunkModel { header: self.header@, lines: models(self.lines@) }
    }
}

impl View for FileDiff {
    type V = FileDiffModel;

    open spec fn view(&self) -> FileDiffModel {
        FileDiffModel {
            path: self.path@,
            old_path: opt_model(self.old_path),
            status: self.status@,
            added: self.added,
            deleted: self.deleted,
            lang: match self.lang {
                Some(l) => Some(l@),
                None => None,
            },
            hunks: models(self.hunks@),
        }
    }
}

/// The languages the highlighter knows, by extension.
pub open spec fn language(ext: Text) -> Option<Text> {
    if ext == "rs"@ {
        Some("rust"@)
    } else if ext == "ts"@ || ext == "tsx"@ {
        Some("typescript"@)
    } else if ext == "js"@ || ext == "jsx"@ || ext == "mjs"@ || ext == "cjs"@ {
        Some("javascript"@)
    } else if ext == "py"@ {
        Some("python"@)
    } else if ext == "go"@ {
        Some("go"@)
    } else if ext == "c"@ || ext == "h"@ {
        Some("c"@)
    } else if ext == "cpp"@ || ext == "cc"@ || ext == "cxx"@ || ext == "hpp"@ || ext == "hxx"@ {
        Some("cpp"@)
    } else if ext == "java"@ {
        Some("java"@)
    } else if ext == "rb"@ {
        Some("ruby"@)
    } else if ext == "php"@ {
        Some("php"@)
    } else if ext == "cs"@ {
        Some("csharp"@)
    } else if ext == "kt"@ || ext == "kts"@ {
        Some("kotlin"@)
    } else if ext == "swift"@ {
        Some("swift"@)
    } else if ext == "sh"@ || ext == "bash"@ || ext == "zsh"@ {
        Some("bash"@)
    } else if ext == "json"@ {
        Some("json"@)
    } else if ext == "yaml"@ || ext == "yml"@ {
        Some("yaml"@)
    } else if ext == "toml"@ {
        Some("ini"@)
    } else if ext == "md"@ || ext == "markdown"@ {
        Some("markdown"@)
    } else if ext == "html"@ || ext == "htm"@ || ext == "xml"@ || ext == "svg"@ {
        Some("xml"@)
    } else if ext == "css"@ {
        Some("css"@)
    } else if ext == "scss"@ || ext == "sass"@ {
        Some("scss"@)
    } else if ext == "sql"@ {
        Some("sql"@)
    } else if ext == "lua"@ {
        Some("lua"@)
    } else if ext == "diff"@ || ext == "patch"@ {
        Some("diff"@)
    } else {
        None
    }
}

/// The language of a path: that of what stands behind its last dot, if it has one.
pub open spec fn language_of(path: Text) -> Option<Text> {
    if path.contains('.') {
        language(after_last(path, '.'))
    } else {
        None
    }
}

/// The highlighter's name for a path's language. `None`, an unknown or missing extension, is shown plain.
pub fn lang_for(path: &str) -> (r: Option<&'static str>)
    ensures
        match r {
            Some(l) => language_of(path@) == Some(l@),
            None => language_of(path@) is None,
        },
{
    let (behind, dotted): (String, bool) = behind_last(path, '.');
    if !dotted {
        return None;
    }
    let ext: &str = behind.as_str();
    if same(ext, "rs") {
        Some("rust")
    } else if same(ext, "ts") || same(ext, "tsx") {
        Some("typescript")
    } else if same(ext, "js") || same(ext, "jsx") || same(ext, "mjs") || same(ext, "cjs") {
        Some("javascript")
    } else if same(ext, "py") {
        Some("python")
    } else if same(ext, "go") {
        Some("go")
    } else if same(ext, "c") || same(ext, "h") {
        Some("c")
    } else if same(ext, "cpp") || same(ext, "cc") || same(ext, "cxx") || same(ext, "hpp") || same(ext, "hxx") {
        Some("cpp")
    } else if same(ext, "java") {
        Some("java")
    } else if same(ext, "rb") {
        Some("ruby")
    } else if same(ext, "php") {
        Some("php")
    } else if same(ext, "cs") {
        Some("csharp")
    } else if same(ext, "kt") || same(ext, "kts") {
        Some("kotlin")
    } else if same(ext, "swift") {
        Some("swift")
    } else if same(ext, "sh") || same(ext, "bash") || same(ext, "zsh") {
        Some("bash")
    } else if same(ext, "json") {
        Some("json")
    } else if same(ext, "yaml") || same(ext, "yml") {
        Some("yaml")
    } else if same(ext, "toml") {
        Some("ini")
    } else if same(ext, "md") || same(ext, "markdown") {
        Some("markdown")
    } else if same(ext, "html") || same(ext, "htm") || same(ext, "xml") || same(ext, "svg") {
        Some("xml")
    } else if same(ext, "css") {
        Some("css")
    } else if same(ext, "scss") || same(ext, "sass") {
        Some("scss")
    } else if same(ext, "sql") {
        Some("sql")
    } else if same(ext, "lua") {
        Some("lua")
    } else if same(ext, "diff") || same(ext, "patch") {
        Some("diff")
    } else {
        None
    }
}

/// A file name without git's `a/` or `b/`; the absent side of an add or delete has none.
pub open spec fn bare(file: Text) -> Text {
    if file == "/dev/null"@ {
        Seq::empty()
    } else {
        match strip_prefix_spec(file, "a/"@) {
            Some(rest) => rest,
            None => match strip_prefix_spec(file, "b/"@) {
                Some(rest) => rest,
                None => file,
            },
        }
    }
}

fn bare_name(file: &str) -> (r: String)
    ensures
        r@ == bare(file@),
{
    if same(file, "/dev/null") {
        return String::new();
    }
    match strip_prefix(file, "a/") {
        Some(rest) => rest,
        None => match strip_prefix(file, "b/") {
            Some(rest) => rest,
            None => file.to_owned(),
        },
    }
}

/// How a line is shown.
pub open spec fn shown_line(l: PatchLineModel) -> DiffLineModel {
    DiffLineModel {
        old_no: l.old_no,
        new_no: l.new_no,
        css: if l.marker == "+"@ {
            "dl-add"@
        } else if l.marker == "-"@ {
            "dl-del"@
        } else {
            "dl-ctx"@
        },
        text: trim_end_of_spec(l.text, "\n\r"@),
    }
}

/// How a hunk is shown: its ranges, its section where it has one, and its lines.
pub open spec fn shown_hunk(h: PatchHunkModel) -> DiffHunkModel {
    let ranges = "@@ -"@ + decimal(h.source_start as nat) + ","@ + decimal(h.source_length as nat) + (" +"@ + decimal(
        h.target_start as nat,
    ) + ","@ + decimal(h.target_length as nat) + " @@"@);
    DiffHunkModel {
        header: if h.section.len() == 0 {
            ranges
        } else {
            ranges + " "@ + h.section
        },
        lines: Seq::new(h.lines.len(), |i: int| shown_line(h.lines[i])),
    }
}

/// The file exists on the target side only.
pub open spec fn is_new(f: PatchFileModel) -> bool {
    f.hunks.len() == 1 && f.hunks[0].source_start == 0 && f.hunks[0].source_length == 0
}

/// The file exists on the source side only.
pub open spec fn is_gone(f: PatchFileModel) -> bool {
    f.hunks.len() == 1 && f.hunks[0].target_start == 0 && f.hunks[0].target_length == 0
}

/// How a file is shown.
pub open spec fn shown_file(f: PatchFileModel) -> FileDiffModel {
    let (old_name, new_name) = (bare(f.source), bare(f.target));
    let gone = !is_new(f) && is_gone(f);
    let renamed = !is_new(f) && !is_gone(f) && old_name != new_name;
    let path = if gone {
        old_name
    } else {
        new_name
    };
    FileDiffModel {
        path,
        old_path: if renamed {
            Some(old_name)
        } else {
            None
        },
        status: if is_new(f) {
            "added"@
        } else if gone {
            "deleted"@
        } else if renamed {
            "renamed"@
        } else {
            "modified"@
        },
        added: f.added,
        deleted: f.removed,
        lang: language_of(path),
        hunks: Seq::new(f.hunks.len(), |i: int| shown_hunk(f.hunks[i])),
    }
}

/// How the files are shown.
pub open spec fn shown_files(fs: Seq<PatchFileModel>) -> Seq<FileDiffModel> {
    Seq::new(fs.len(), |i: int| shown_file(fs[i]))
}

fn diff_line(l: &PatchLine) -> (r: DiffLine)
    ensures
        r@ == shown_line(l@),
{
    let css: &'static str = if same(&l.2, "+") {
        "dl-add"
    } else if same(&l.2, "-") {
        "dl-del"
    } else {
        "dl-ctx"
    };
    DiffLine { old_no: l.0, new_no: l.1, css, text: trim_end_of(&l.3, "\n\r") }
}

fn hunk(h: &PatchHunk) -> (r: DiffHunk)
    ensures
        r@ == shown_hunk(h@),
{
    let source: String = concat4("@@ -", &to_decimal(h.0 as u64), ",", &to_decimal(h.1 as u64));
    let target: String = concat5(" +", &to_decimal(h.2 as u64), ",", &to_decimal(h.3 as u64), " @@");
    let ranges: String = concat2(&source, &target);
    let header: String = if h.4.as_str().is_empty() {
        ranges
    } else {
        concat3(&ranges, " ", &h.4)
    };
    let ghost all = models(h.5@);
    let mut lines: Vec<DiffLine> = Vec::new();
    let mut i: usize = 0;
    while i < h.5.len()
        invariant
            all == models(h.5@),
            i <= h.5@.len(),
            lines@.len() == i,
            forall|j: int| 0 <= j < i ==> (#[trigger] lines@[j])@ == shown_line(all[j]),
        decreases h.5@.len() - i,
    {
        assert(all[i as int] == h.5@[i as int]@);
        lines.push(diff_line(&h.5[i]));
        i = i + 1;
    }
    assert(models(lines@) =~= shown_hunk(h@).lines);
    DiffHunk { header, lines }
}

fn file_diff(f: &PatchFile) -> (r: FileDiff)
    ensures
        r@ == shown_file(f@),
{
    let old_name: String = bare_name(&f.0);
    let new_name: String = bare_name(&f.1);
    let ghost all = models(f.4@);
    let one: bool = f.4.len() == 1;
    proof {
        if one {
            assert(all[0] == f.4@[0]@);
        }
    }
    let new: bool = one && f.4[0].0 == 0 && f.4[0].1 == 0;
    let gone: bool = !new && one && f.4[0].2 == 0 && f.4[0].3 == 0;
    let mut hunks: Vec<DiffHunk> = Vec::new();
    let mut i: usize = 0;
    while i < f.4.len()
        invariant
            all == models(f.4@),
            i <= f.4@.len(),
            hunks@.len() == i,
            forall|j: int| 0 <= j < i ==> (#[trigger] hunks@[j])@ == shown_hunk(all[j]),
        decreases f.4@.len() - i,
    {
        assert(all[i as int] == f.4@[i as int]@);
        hunks.push(hunk(&f.4[i]));
        i = i + 1;
    }
    assert(models(hunks@) =~= shown_file(f@).hunks);
    let renamed: bool = !new && !gone && !same(&old_name, &new_name);
    let status: &'static str = if new {
        "added"
    } else if gone {
        "deleted"
    } else if renamed {
        "renamed"
    } else {
        "modified"
    };
    let old_path: Option<String> = if renamed { Some(old_name.clone()) } else { None };
    let path: String = if gone { old_name } else { new_name };
    let lang: Option<&'static str> = lang_for(&path);
    FileDiff { path, old_path, status, added: f.2, deleted: f.3, lang, hunks }
}

/// How the files of a patch are shown.
pub fn show(files: &Vec<PatchFile>) -> (r: Vec<FileDiff>)
    ensures
        models(r@) == shown_files(models(files@)),
{
    let ghost all = models(files@);
    let mut out: Vec<FileDiff> = Vec::new();
    let mut i: usize = 0;
    while i < files.len()
        invariant
            all == models(files@),
            i <= files@.len(),
            out@.len() == i,
            forall|j: int| 0 <= j < i ==> (#[trigger] out@[j])@ == shown_file(all[j]),
        decreases files@.len() - i,
    {
        assert(all[i as int] == files@[i as int]@);
        out.push(file_diff(&files[i]));
        i = i + 1;
    }
    assert(models(out@) =~= shown_files(all));
    out
}

/// A unified diff, file by file, as it is shown.
pub fn parse(raw: &str) -> (r: Result<Vec<FileDiff>, String>)
    requires
        parseable(raw@),
    ensures
        match (patches(raw@), r) {
            (Ok(fs), Ok(files)) => models(files@) == shown_files(fs),
            (Err(e), Err(text)) => text@ == "parsing the unified diff: "@ + e,
            _ => false,
        },
{
    match read_patch(raw) {
        Ok(files) => Ok(show(&files)),
        Err(e) => Err(concat2("parsing the unified diff: ", &e)),
    }
}

// ---- who may see it -------------------------------------------------------------------------------------------------

/// Whether the button shows: a review ticket worked here, whose branch still exists locally. No remote is needed.
pub fn eligible(t: &Ticket, branch_exists: bool) -> (r: bool)
    ensures
        r == (offered_branch(t@) is Some && branch_exists),
{
    branch_on_offer(t).is_some() && branch_exists
}

/// A computed diff: what of, against what, and the files. No files means that the branch changes nothing.
#[derive(Debug)]
pub struct Diff {
    pub branch: String,
    pub main: String,
    pub files: Vec<FileDiff>,
}

/// What computing a diff may need to find out.
#[derive(Debug, Clone, Copy, PartialEq, Eq, Structural)]
pub enum DiffQuestion {
    /// Whether the ticket's branch exists locally.
    Branch,
    /// The branch to diff against.
    Main,
}

/// What is known so far.
#[derive(Debug)]
pub struct DiffFacts {
    pub branch_exists: Option<bool>,
    pub main: Option<Option<String>>,
}

/// The next step.
#[derive(Debug)]
pub enum DiffStep {
    /// Find something out about this branch.
    Ask(DiffQuestion, String),
    Refuse(String),
    /// Diff `branch` against `main`.
    Go { branch: String, main: String },
}

pub enum DiffStepModel {
    Ask(DiffQuestion, Text),
    Refuse(Text),
    Go { branch: Text, main: Text },
}

impl View for DiffStep {
    type V = DiffStepModel;

    open spec fn view(&self) -> DiffStepModel {
        match self {
            DiffStep::Ask(q, branch) => DiffStepModel::Ask(*q, branch@),
            DiffStep::Refuse(why) => DiffStepModel::Refuse(why@),
            DiffStep::Go { branch, main } => DiffStepModel::Go { branch: branch@, main: main@ },
        }
    }
}

/// The next step: everything the button's visibility rested on is checked again.
pub open spec fn compute_spec(id: Text, ticket: Option<TicketModel>, facts: DiffFacts) -> DiffStepModel {
    match ticket {
        None => DiffStepModel::Refuse(id + " not found on the board"@),
        Some(t) => if t.column.id() != ColumnId::Review || t.column.branch() is None {
            DiffStepModel::Refuse(id + " is not a review ticket with a branch — nothing to diff"@)
        } else if t.external is Some {
            DiffStepModel::Refuse(id + " is external — its branch is worked elsewhere"@)
        } else {
            let branch = t.column.branch()->Some_0;
            match (facts.branch_exists, facts.main) {
                (None, _) => DiffStepModel::Ask(DiffQuestion::Branch, branch),
                (Some(false), _) => DiffStepModel::Refuse(
                    "branch "@ + branch + " no longer exists locally — already merged and deleted?"@,
                ),
                (Some(true), None) => DiffStepModel::Ask(DiffQuestion::Main, branch),
                (Some(true), Some(None)) => DiffStepModel::Refuse(
                    "no main branch is configured or detectable to diff against"@,
                ),
                (Some(true), Some(Some(main))) => DiffStepModel::Go { branch, main: main@ },
            }
        },
    }
}

/// The diff of a review ticket's branch against main: the next step, given what is known.
pub fn compute(id: &TicketId, ticket: Option<&Ticket>, facts: &DiffFacts) -> (r: DiffStep)
    ensures
        r@ == compute_spec(
            id@,
            match ticket {
                Some(t) => Some(t@),
                None => None,
            },
            *facts,
        ),
{
    let t: &Ticket = match ticket {
        Some(t) => t,
        None => return DiffStep::Refuse(concat2(&id.0, " not found on the board")),
    };
    if t.column.id() != ColumnId::Review {
        return DiffStep::Refuse(concat2(&id.0, " is not a review ticket with a branch — nothing to diff"));
    }
    let branch: &str = match t.column.branch() {
        Some(b) => b,
        None => return DiffStep::Refuse(concat2(&id.0, " is not a review ticket with a branch — nothing to diff")),
    };
    if t.external.is_some() {
        return DiffStep::Refuse(concat2(&id.0, " is external — its branch is worked elsewhere"));
    }
    match facts.branch_exists {
        None => return DiffStep::Ask(DiffQuestion::Branch, branch.to_owned()),
        Some(alive) => {
            if !alive {
                return DiffStep::Refuse(
                    concat3("branch ", branch, " no longer exists locally — already merged and deleted?"),
                );
            }
        },
    }
    match &facts.main {
        None => DiffStep::Ask(DiffQuestion::Main, branch.to_owned()),
        Some(None) => DiffStep::Refuse("no main branch is configured or detectable to diff against".to_owned()),
        Some(Some(main)) => DiffStep::Go { branch: branch.to_owned(), main: main.clone() },
    }
}

// ---- laws -----------------------------------------------------------------------------------------------------------

/// A diff is computed only of a ticket that was eligible for one: of a live branch, in review, worked here.
pub proof fn only_eligible_tickets_are_diffed(id: Text, ticket: Option<TicketModel>, facts: DiffFacts)
    ensures
        compute_spec(id, ticket, facts) matches DiffStepModel::Go { branch, .. } ==> {
            &&& ticket matches Some(t) && offered_branch(t) == Some(branch)
            &&& facts.branch_exists == Some(true)
        },
{
}

/// A shown line keeps the numbers of the line it shows, and its text but for what is cut off at the end.
pub proof fn shown_lines_keep_their_numbers(l: PatchLineModel)
    ensures
        shown_line(l).old_no == l.old_no && shown_line(l).new_no == l.new_no,
        has_prefix(l.text, shown_line(l).text),
{
    lemma_trimmed_is_prefix(l.text, "\n\r"@);
}

proof fn lemma_trimmed_is_prefix(s: Text, set: Text)
    ensures
        has_prefix(s, trim_end_of_spec(s, set)),
    decreases s.len(),
{
    let cut = trim_end_of_spec(s, set);
    if s.len() > 0 && set.contains(s.last()) {
        lemma_trimmed_is_prefix(s.drop_last(), set);
        assert(s.subrange(0, cut.len() as int) =~= s.drop_last().subrange(0, cut.len() as int));
    } else {
        assert(s.subrange(0, s.len() as int) =~= s);
    }
}

/// What a request for a diff comes to, test by test; it goes on exactly for a ticket under review, worked here, whose branch
/// is there, against a main branch that is known.
pub proof fn a_diff_is_of_the_branch_against_main(id: Text, t: TicketModel, facts: DiffFacts)
    ensures
        ({
            let step = compute_spec(id, Some(t), facts);
            let offered = t.column is Review && t.column.branch() is Some;
            let branch = t.column.branch()->0;
            let own = offered && t.external is None;
            &&& compute_spec(id, None, facts) == DiffStepModel::Refuse(id + " not found on the board"@)
            &&& !offered ==> step == DiffStepModel::Refuse(id + " is not a review ticket with a branch — nothing to diff"@)
            &&& offered && t.external is Some ==> step == DiffStepModel::Refuse(
                id + " is external — its branch is worked elsewhere"@,
            )
            &&& own && facts.branch_exists is None ==> step == DiffStepModel::Ask(DiffQuestion::Branch, branch)
            &&& own && facts.branch_exists == Some(false) ==> step == DiffStepModel::Refuse(
                "branch "@ + branch + " no longer exists locally — already merged and deleted?"@,
            )
            &&& own && facts.branch_exists == Some(true) && facts.main is None ==> step == DiffStepModel::Ask(
                DiffQuestion::Main,
                branch,
            )
            &&& own && facts.branch_exists == Some(true) && facts.main is Some && facts.main->0 is None ==> step
                == DiffStepModel::Refuse("no main branch is configured or detectable to diff against"@)
            &&& own && facts.branch_exists == Some(true) && facts.main is Some && facts.main->0 is Some ==> step == (
            DiffStepModel::Go { branch, main: (facts.main->0->0)@ })
        }),
{
}

/// A file's status follows from where it exists and what it is called: added where it is new, else deleted where it is gone,
/// else renamed where its name changed, and modified otherwise. It goes by its new name, unless it is gone; only a rename
/// shows the old one. Its counts are the patch's own.
pub proof fn a_file_is_shown_for_what_happened_to_it(f: PatchFileModel)
    ensures
        ({
            let s = shown_file(f);
            let fresh = f.hunks.len() == 1 && f.hunks[0].source_start == 0 && f.hunks[0].source_length == 0;
            let gone = f.hunks.len() == 1 && f.hunks[0].target_start == 0 && f.hunks[0].target_length == 0;
            let same_name = bare(f.source) == bare(f.target);
            &&& fresh ==> s.status == "added"@ && s.path == bare(f.target) && s.old_path is None
            &&& !fresh && gone ==> s.status == "deleted"@ && s.path == bare(f.source) && s.old_path is None
            &&& !fresh && !gone && !same_name ==> s.status == "renamed"@ && s.path == bare(f.target) && s.old_path == Some(
                bare(f.source),
            )
            &&& !fresh && !gone && same_name ==> s.status == "modified"@ && s.path == bare(f.target) && s.old_path is None
            &&& s.added == f.added && s.deleted == f.removed && s.lang == language_of(s.path)
            &&& s.hunks.len() == f.hunks.len()
            &&& forall|i: int| 0 <= i < f.hunks.len() ==> #[trigger] s.hunks[i] == shown_hunk(f.hunks[i])
        }),
{
}

/// Git's side of a name is taken off, once; the absent side has no name, and any other name stays as it is.
pub proof fn a_name_loses_its_side(name: Text)
    ensures
        bare("/dev/null"@).len() == 0,
        bare("a/"@ + name) == name,
        bare("b/"@ + name) == name,
        name != "/dev/null"@ && !has_prefix(name, "a/"@) && !has_prefix(name, "b/"@) ==> bare(name) == name,
{
    reveal_strlit("/dev/null");
    reveal_strlit("a/");
    reveal_strlit("b/");
    let left = "a/"@ + name;
    let right = "b/"@ + name;
    assert(left[0] == 'a' && right[0] == 'b' && "/dev/null"@[0] == '/');
    assert(left.subrange(0, 2) =~= "a/"@);
    assert(right.subrange(0, 2) =~= "b/"@);
    assert(left.subrange(2, left.len() as int) =~= name);
    assert(right.subrange(2, right.len() as int) =~= name);
    assert(right.subrange(0, 2)[0] != "a/"@[0]);
    assert(left != "/dev/null"@ && right != "/dev/null"@);
}

/// A hunk shows its ranges and behind them its section where it has one, and each of its lines with the numbers it has on
/// either side, as an addition, a deletion or context, without its line break.
pub proof fn a_hunk_shows_its_lines(h: PatchHunkModel, i: int)
    requires
        0 <= i < h.lines.len(),
    ensures
        ({
            let s = shown_hunk(h);
            let ranges = "@@ -"@ + decimal(h.source_start as nat) + ","@ + decimal(h.source_length as nat) + (" +"@ + decimal(
                h.target_start as nat,
            ) + ","@ + decimal(h.target_length as nat) + " @@"@);
            &&& h.section.len() == 0 ==> s.header == ranges
            &&& h.section.len() > 0 ==> s.header == ranges + " "@ + h.section
            &&& s.lines.len() == h.lines.len()
            &&& s.lines[i].old_no == h.lines[i].old_no && s.lines[i].new_no == h.lines[i].new_no
            &&& h.lines[i].marker == "+"@ ==> s.lines[i].css == "dl-add"@
            &&& h.lines[i].marker == "-"@ ==> s.lines[i].css == "dl-del"@
            &&& h.lines[i].marker != "+"@ && h.lines[i].marker != "-"@ ==> s.lines[i].css == "dl-ctx"@
            &&& s.lines[i].text == trim_end_of_spec(h.lines[i].text, "\n\r"@)
        }),
{
    reveal_strlit("+");
    reveal_strlit("-");
    assert("+"@[0] != "-"@[0]);
}

/// A path's language is told by what stands behind its last dot, wherever the file lies; a path without a dot has none.
pub proof fn a_language_is_told_by_the_extension(stem: Text, ext: Text, path: Text)
    requires
        !ext.contains('.'),
        !path.contains('.'),
    ensures
        language_of(stem + "."@ + ext) == language(ext),
        language_of(path) is None,
{
    reveal_strlit(".");
    let whole = stem + "."@ + ext;
    let at = stem.len() as int;
    assert(whole[at] == '.');
    assert(whole.contains('.'));
    assert forall|k: int| at < k < whole.len() implies #[trigger] whole[k] != '.' by {
        assert(whole[k] == ext[k - at - 1]);
    }
    lemma_after_last(whole, '.', at + 1);
    assert(whole.subrange(at + 1, whole.len() as int) =~= ext);
}

/// Which extensions each language of the highlighter goes by.
#[verifier::spinoff_prover]
#[verifier::rlimit(50)]
pub proof fn each_language_has_its_extensions(ext: Text)
    ensures
        language(ext) == Some("rust"@) <==> ext == "rs"@,
        language(ext) == Some("typescript"@) <==> ext == "ts"@ || ext == "tsx"@,
        language(ext) == Some("javascript"@) <==> ext == "js"@ || ext == "jsx"@ || ext == "mjs"@ || ext == "cjs"@,
        language(ext) == Some("python"@) <==> ext == "py"@,
        language(ext) == Some("go"@) <==> ext == "go"@,
        language(ext) == Some("c"@) <==> ext == "c"@ || ext == "h"@,
        language(ext) == Some("cpp"@) <==> ext == "cpp"@ || ext == "cc"@ || ext == "cxx"@ || ext == "hpp"@ || ext == "hxx"@,
        language(ext) == Some("java"@) <==> ext == "java"@,
        language(ext) == Some("ruby"@) <==> ext == "rb"@,
        language(ext) == Some("php"@) <==> ext == "php"@,
        language(ext) == Some("csharp"@) <==> ext == "cs"@,
        language(ext) == Some("kotlin"@) <==> ext == "kt"@ || ext == "kts"@,
        language(ext) == Some("swift"@) <==> ext == "swift"@,
        language(ext) == Some("bash"@) <==> ext == "sh"@ || ext == "bash"@ || ext == "zsh"@,
        language(ext) == Some("json"@) <==> ext == "json"@,
        language(ext) == Some("yaml"@) <==> ext == "yaml"@ || ext == "yml"@,
        language(ext) == Some("ini"@) <==> ext == "toml"@,
        language(ext) == Some("markdown"@) <==> ext == "md"@ || ext == "markdown"@,
        language(ext) == Some("xml"@) <==> ext == "html"@ || ext == "htm"@ || ext == "xml"@ || ext == "svg"@,
        language(ext) == Some("css"@) <==> ext == "css"@,
        language(ext) == Some("scss"@) <==> ext == "scss"@ || ext == "sass"@,
        language(ext) == Some("sql"@) <==> ext == "sql"@,
        language(ext) == Some("lua"@) <==> ext == "lua"@,
        language(ext) == Some("diff"@) <==> ext == "diff"@ || ext == "patch"@,
{
    reveal_strlit("rust");
    assert("rust"@.len() == 4 && "rust"@[0] == 'r' && "rust"@[1] == 'u' && "rust"@[2] == 's');
    reveal_strlit("rs");
    assert("rs"@.len() == 2 && "rs"@[0] == 'r' && "rs"@[1] == 's');
    reveal_strlit("typescript");
    assert("typescript"@.len() == 10 && "typescript"@[0] == 't' && "typescript"@[1] == 'y' && "typescript"@[2] == 'p');
    reveal_strlit("ts");
    assert("ts"@.len() == 2 && "ts"@[0] == 't' && "ts"@[1] == 's');
    reveal_strlit("tsx");
    assert("tsx"@.len() == 3 && "tsx"@[0] == 't' && "tsx"@[1] == 's' && "tsx"@[2] == 'x');
    reveal_strlit("javascript");
    assert("javascript"@.len() == 10 && "javascript"@[0] == 'j' && "javascript"@[1] == 'a' && "javascript"@[2] == 'v');
    reveal_strlit("js");
    assert("js"@.len() == 2 && "js"@[0] == 'j' && "js"@[1] == 's');
    reveal_strlit("jsx");
    assert("jsx"@.len() == 3 && "jsx"@[0] == 'j' && "jsx"@[1] == 's' && "jsx"@[2] == 'x');
    reveal_strlit("mjs");
    assert("mjs"@.len() == 3 && "mjs"@[0] == 'm' && "mjs"@[1] == 'j' && "mjs"@[2] == 's');
    reveal_strlit("cjs");
    assert("cjs"@.len() == 3 && "cjs"@[0] == 'c' && "cjs"@[1] == 'j' && "cjs"@[2] == 's');
    reveal_strlit("python");
    assert("python"@.len() == 6 && "python"@[0] == 'p' && "python"@[1] == 'y' && "python"@[2] == 't');
    reveal_strlit("py");
    assert("py"@.len() == 2 && "py"@[0] == 'p' && "py"@[1] == 'y');
    reveal_strlit("go");
    assert("go"@.len() == 2 && "go"@[0] == 'g' && "go"@[1] == 'o');
    reveal_strlit("c");
    assert("c"@.len() == 1 && "c"@[0] == 'c');
    reveal_strlit("h");
    assert("h"@.len() == 1 && "h"@[0] == 'h');
    reveal_strlit("cpp");
    assert("cpp"@.len() == 3 && "cpp"@[0] == 'c' && "cpp"@[1] == 'p' && "cpp"@[2] == 'p');
    reveal_strlit("cc");
    assert("cc"@.len() == 2 && "cc"@[0] == 'c' && "cc"@[1] == 'c');
    reveal_strlit("cxx");
    assert("cxx"@.len() == 3 && "cxx"@[0] == 'c' && "cxx"@[1] == 'x' && "cxx"@[2] == 'x');
    reveal_strlit("hpp");
    assert("hpp"@.len() == 3 && "hpp"@[0] == 'h' && "hpp"@[1] == 'p' && "hpp"@[2] == 'p');
    reveal_strlit("hxx");
    assert("hxx"@.len() == 3 && "hxx"@[0] == 'h' && "hxx"@[1] == 'x' && "hxx"@[2] == 'x');
    reveal_strlit("java");
    assert("java"@.len() == 4 && "java"@[0] == 'j' && "java"@[1] == 'a' && "java"@[2] == 'v');
    reveal_strlit("ruby");
    assert("ruby"@.len() == 4 && "ruby"@[0] == 'r' && "ruby"@[1] == 'u' && "ruby"@[2] == 'b');
    reveal_strlit("rb");
    assert("rb"@.len() == 2 && "rb"@[0] == 'r' && "rb"@[1] == 'b');
    reveal_strlit("php");
    assert("php"@.len() == 3 && "php"@[0] == 'p' && "php"@[1] == 'h' && "php"@[2] == 'p');
    reveal_strlit("csharp");
    assert("csharp"@.len() == 6 && "csharp"@[0] == 'c' && "csharp"@[1] == 's' && "csharp"@[2] == 'h');
    reveal_strlit("cs");
    assert("cs"@.len() == 2 && "cs"@[0] == 'c' && "cs"@[1] == 's');
    reveal_strlit("kotlin");
    assert("kotlin"@.len() == 6 && "kotlin"@[0] == 'k' && "kotlin"@[1] == 'o' && "kotlin"@[2] == 't');
    reveal_strlit("kt");
    assert("kt"@.len() == 2 && "kt"@[0] == 'k' && "kt"@[1] == 't');
    reveal_strlit("kts");
    assert("kts"@.len() == 3 && "kts"@[0] == 'k' && "kts"@[1] == 't' && "kts"@[2] == 's');
    reveal_strlit("swift");
    assert("swift"@.len() == 5 && "swift"@[0] == 's' && "swift"@[1] == 'w' && "swift"@[2] == 'i');
    reveal_strlit("bash");
    assert("bash"@.len() == 4 && "bash"@[0] == 'b' && "bash"@[1] == 'a' && "bash"@[2] == 's');
    reveal_strlit("sh");
    assert("sh"@.len() == 2 && "sh"@[0] == 's' && "sh"@[1] == 'h');
    reveal_strlit("zsh");
    assert("zsh"@.len() == 3 && "zsh"@[0] == 'z' && "zsh"@[1] == 's' && "zsh"@[2] == 'h');
    reveal_strlit("json");
    assert("json"@.len() == 4 && "json"@[0] == 'j' && "json"@[1] == 's' && "json"@[2] == 'o');
    reveal_strlit("yaml");
    assert("yaml"@.len() == 4 && "yaml"@[0] == 'y' && "yaml"@[1] == 'a' && "yaml"@[2] == 'm');
    reveal_strlit("yml");
    assert("yml"@.len() == 3 && "yml"@[0] == 'y' && "yml"@[1] == 'm' && "yml"@[2] == 'l');
    reveal_strlit("ini");
    assert("ini"@.len() == 3 && "ini"@[0] == 'i' && "ini"@[1] == 'n' && "ini"@[2] == 'i');
    reveal_strlit("toml");
    assert("toml"@.len() == 4 && "toml"@[0] == 't' && "toml"@[1] == 'o' && "toml"@[2] == 'm');
    reveal_strlit("markdown");
    assert("markdown"@.len() == 8 && "markdown"@[0] == 'm' && "markdown"@[1] == 'a' && "markdown"@[2] == 'r');
    reveal_strlit("md");
    assert("md"@.len() == 2 && "md"@[0] == 'm' && "md"@[1] == 'd');
    reveal_strlit("xml");
    assert("xml"@.len() == 3 && "xml"@[0] == 'x' && "xml"@[1] == 'm' && "xml"@[2] == 'l');
    reveal_strlit("html");
    assert("html"@.len() == 4 && "html"@[0] == 'h' && "html"@[1] == 't' && "html"@[2] == 'm');
    reveal_strlit("htm");
    assert("htm"@.len() == 3 && "htm"@[0] == 'h' && "htm"@[1] == 't' && "htm"@[2] == 'm');
    reveal_strlit("svg");
    assert("svg"@.len() == 3 && "svg"@[0] == 's' && "svg"@[1] == 'v' && "svg"@[2] == 'g');
    reveal_strlit("css");
    assert("css"@.len() == 3 && "css"@[0] == 'c' && "css"@[1] == 's' && "css"@[2] == 's');
    reveal_strlit("scss");
    assert("scss"@.len() == 4 && "scss"@[0] == 's' && "scss"@[1] == 'c' && "scss"@[2] == 's');
    reveal_strlit("sass");
    assert("sass"@.len() == 4 && "sass"@[0] == 's' && "sass"@[1] == 'a' && "sass"@[2] == 's');
    reveal_strlit("sql");
    assert("sql"@.len() == 3 && "sql"@[0] == 's' && "sql"@[1] == 'q' && "sql"@[2] == 'l');
    reveal_strlit("lua");
    assert("lua"@.len() == 3 && "lua"@[0] == 'l' && "lua"@[1] == 'u' && "lua"@[2] == 'a');
    reveal_strlit("diff");
    assert("diff"@.len() == 4 && "diff"@[0] == 'd' && "diff"@[1] == 'i' && "diff"@[2] == 'f');
    reveal_strlit("patch");
    assert("patch"@.len() == 5 && "patch"@[0] == 'p' && "patch"@[1] == 'a' && "patch"@[2] == 't');
}

/// A hunk header is read as its two ranges, each a start and a length.
pub proof fn a_hunk_header_gives_its_ranges(a: nat, b: nat, c: nat, d: nat, section: Text)
    ensures
        ({
            let s = "@@ -"@ + decimal(a) + ","@ + decimal(b) + " +"@ + decimal(c) + ","@ + decimal(d) + " @@"@ + section;
            &&& hunk_header(s)
            &&& range_at(s, 4) == (decimal(a), decimal(b))
            &&& range_end(s, 4) is Some
            &&& range_at(s, range_end(s, 4)->0 + 2) == (decimal(c), decimal(d))
        }),
{
    reveal_strlit("@@ -");
    reveal_strlit(",");
    reveal_strlit(" +");
    reveal_strlit(" @@");
    decimal_reads_back(a);
    decimal_reads_back(b);
    decimal_reads_back(c);
    decimal_reads_back(d);
    let (p, q, r, t) = (decimal(a), decimal(b), decimal(c), decimal(d));
    let s = "@@ -"@ + p + ","@ + q + " +"@ + r + ","@ + t + " @@"@ + section;
    let e1 = 4 + p.len() as int;
    let e2 = e1 + 1 + q.len() as int;
    let e3 = e2 + 2 + r.len() as int;
    let e4 = e3 + 1 + t.len() as int;
    assert(s.subrange(0, 4) =~= "@@ -"@);
    assert(s.subrange(4, e1) =~= p);
    assert(s[e1] == ',');
    assert(s.subrange(e1 + 1, e2) =~= q);
    assert(s.subrange(e2, e2 + 2) =~= " +"@);
    assert(s[e2] == ' ');
    assert(s.subrange(e2 + 2, e3) =~= r);
    assert(s[e3] == ',');
    assert(s.subrange(e3 + 1, e4) =~= t);
    assert(s.subrange(e4, e4 + 3) =~= " @@"@);
    assert(s[e4] == ' ');
    lemma_digits_end(s, 4, p);
    lemma_digits_end(s, e1 + 1, q);
    lemma_digits_end(s, e2 + 2, r);
    lemma_digits_end(s, e3 + 1, t);
}

proof fn lemma_digits_end(s: Text, i: int, d: Text)
    requires
        0 <= i && i + d.len() < s.len(),
        all_digits(d),
        s.subrange(i, i + d.len()) == d,
        !digit_like(s[i + d.len()]),
    ensures
        digits_end(s, i) == i + d.len(),
    decreases d.len(),
{
    if d.len() > 0 {
        let rest = d.subrange(1, d.len() as int);
        assert(s.subrange(i, i + d.len())[0] == s[i]);
        assert(is_digit(d[0]));
        assert(s.subrange(i + 1, i + 1 + rest.len()) =~= s.subrange(i, i + d.len()).subrange(1, d.len() as int));
        lemma_digits_end(s, i + 1, rest);
    }
}

/// A target comes first when it is the first header of any kind.
pub proof fn the_first_header_decides(ls: Seq<Text>, i: int)
    requires
        0 <= i < ls.len(),
        forall|k: int|
            0 <= k < i ==> !names_file(#[trigger] ls[k], "--- "@) && !names_file(ls[k], "+++ "@) && !hunk_header(ls[k]),
    ensures
        names_file(ls[i], "--- "@) || hunk_header(ls[i]) ==> !target_first(ls),
        names_file(ls[i], "+++ "@) && !names_file(ls[i], "--- "@) && !hunk_header(ls[i]) ==> target_first(ls),
    decreases ls.len(),
{
    if i > 0 {
        let rest = ls.subrange(1, ls.len() as int);
        assert(!names_file(ls[0], "--- "@));
        assert(rest[i - 1] == ls[i]);
        assert forall|k: int| 0 <= k < i - 1 implies !names_file(#[trigger] rest[k], "--- "@) && !names_file(rest[k], "+++ "@)
            && !hunk_header(rest[k]) by {
            assert(rest[k] == ls[k + 1]);
        }
        the_first_header_decides(rest, i - 1);
    }
}

/// A range fits when its end, and every line number behind its start, is a number of the machine's word.
pub proof fn a_range_fits_the_machine(start: nat, length: nat, n: nat)
    ensures
        fits((decimal(start), decimal(length)), n) <==> start + length <= usize::MAX && start + n <= usize::MAX,
{
    decimal_reads_back(start);
    decimal_reads_back(length);
}

/// Every file of a patch is shown, in order.
pub proof fn every_file_is_shown(fs: Seq<PatchFileModel>, i: int)
    requires
        0 <= i < fs.len(),
    ensures
        shown_files(fs).len() == fs.len(),
        shown_files(fs)[i] == shown_file(fs[i]),
{
}

} // verus!
