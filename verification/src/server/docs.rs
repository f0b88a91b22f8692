//! The documentation viewer: which embedded files are pages, what they are called, and which names off a URL are safe.
use vstd::prelude::*;

use crate::seqs::{models, opt_model};
use crate::text::{
    after_last, behind_last, chars, concat2, contains, contains_char, has_prefix, has_text, lemma_after_last,
    lemma_split_ahead, lemma_unsplit, lines, lines_spec, occurs_at, same, slice, split, split_spec, starts_with, strip_prefix, strip_prefix_spec, strip_suffix, strip_suffix_spec, text_lt,
    to_uppercase, trim, trim_spec, uppercase, Text,
};

verus! {

broadcast use crate::seqs::group_models;

/// One entry of the table of contents.
#[derive(Debug)]
pub struct DocEntry {
    pub file: String,
    pub title: String,
}

pub struct DocEntryModel {
    pub file: Text,
    pub title: Text,
}

impl View for DocEntry {
    type V = DocEntryModel;

    open spec fn view(&self) -> DocEntryModel {
        DocEntryModel { file: self.file@, title: self.title@ }
    }
}

impl Clone for DocEntry {
    fn clone(&self) -> (r: DocEntry)
        ensures
            r@ == self@,
    {
        DocEntry { file: self.file.clone(), title: self.title.clone() }
    }
}

/// An embedded file: its name and its bytes.
pub struct DocFile {
    pub name: String,
    pub bytes: Vec<u8>,
}

// ---- titles ---------------------------------------------------------------------------------------------------------

/// `std::str::from_utf8` of the standard library: the text the bytes encode, `None` when they are no valid UTF-8.
#[verifier::external_body]
fn utf8(bytes: &[u8]) -> (r: Option<String>)
    ensures
        match r {
            Some(s) => vstd::utf8::valid_utf8(bytes@) && s@ == vstd::utf8::decode_utf8(bytes@),
            None => !vstd::utf8::valid_utf8(bytes@),
        },
{
    std::str::from_utf8(bytes).ok().map(str::to_owned)
}

/// The text that some bytes encode; bytes that are no UTF-8 count as no text.
pub open spec fn text_of(bytes: Seq<u8>) -> Text {
    if vstd::utf8::valid_utf8(bytes) {
        vstd::utf8::decode_utf8(bytes)
    } else {
        Seq::empty()
    }
}

/// The first line that is not blank, trimmed.
pub open spec fn first_line(ls: Seq<Text>) -> Option<Text>
    decreases ls.len(),
{
    if ls.len() == 0 {
        None
    } else {
        match first_line(ls.drop_last()) {
            Some(l) => Some(l),
            None => if trim_spec(ls.last()).len() > 0 {
                Some(trim_spec(ls.last()))
            } else {
                None
            },
        }
    }
}

/// The text of the heading that a document opens with; empty when it opens with none.
pub open spec fn heading(text: Text) -> Text {
    match first_line(lines_spec(text)) {
        Some(l) => match strip_prefix_spec(l, "# "@) {
            Some(h) => trim_spec(h),
            None => Seq::empty(),
        },
        None => Seq::empty(),
    }
}

/// The name with dashes and underscores as spaces.
pub open spec fn spaced(s: Text) -> Text {
    Seq::new(
        s.len(),
        |i: int|
            if s[i] == '-' || s[i] == '_' {
                ' '
            } else {
                s[i]
            },
    )
}

/// A file name as a title: no `.md`, spaces for dashes and underscores, the first character in upper case.
pub open spec fn humanised(filename: Text) -> Text {
    let stem = match strip_suffix_spec(filename, ".md"@) {
        Some(s) => s,
        None => filename,
    };
    let words = spaced(stem);
    if words.len() == 0 {
        words
    } else {
        uppercase(words[0]) + words.subrange(1, words.len() as int)
    }
}

/// A document's title: its opening heading, else its file name made readable.
pub open spec fn title_spec(text: Text, filename: Text) -> Text {
    if heading(text).len() > 0 {
        heading(text)
    } else {
        humanised(filename)
    }
}

fn first_nonblank(ls: &Vec<String>) -> (r: Option<String>)
    ensures
        opt_model(r) == first_line(models(ls@)),
{
    let ghost all = models(ls@);
    let mut found: Option<String> = None;
    let mut i: usize = 0;
    while i < ls.len()
        invariant
            all == models(ls@),
            i <= ls@.len(),
            opt_model(found) == first_line(all.take(i as int)),
        decreases ls@.len() - i,
    {
        proof {
            assert(all.take(i + 1).drop_last() =~= all.take(i as int));
            assert(all.take(i + 1).last() == ls@[i as int]@);
        }
        if found.is_none() {
            let line: String = trim(&ls[i]);
            if !line.as_str().is_empty() {
                found = Some(line);
            }
        }
        i = i + 1;
    }
    assert(all.take(all.len() as int) =~= all);
    found
}

/// A file name with spaces for dashes and underscores and no `.md`.
fn spaced_stem(filename: &str) -> (r: Vec<char>)
    ensures
        r@ == spaced(
            match strip_suffix_spec(filename@, ".md"@) {
                Some(s) => s,
                None => filename@,
            },
        ),
{
    let stem: String = match strip_suffix(filename, ".md") {
        Some(s) => s,
        None => filename.to_owned(),
    };
    let v: Vec<char> = chars(&stem);
    let mut out: Vec<char> = Vec::new();
    let mut i: usize = 0;
    while i < v.len()
        invariant
            v@ == stem@,
            i <= v@.len(),
            out@ == spaced(stem@).take(i as int),
        decreases v@.len() - i,
    {
        let c: char = v[i];
        out.push(
            if c == '-' || c == '_' {
                ' '
            } else {
                c
            },
        );
        i = i + 1;
        assert(out@ =~= spaced(stem@).take(i as int));
    }
    assert(out@ =~= spaced(stem@));
    out
}

/// A file name as a title.
pub fn humanise_filename(filename: &str) -> (r: String)
    ensures
        r@ == humanised(filename@),
{
    let words: Vec<char> = spaced_stem(filename);
    if words.len() == 0 {
        let r: String = String::new();
        assert(r@ =~= words@);
        return r;
    }
    concat2(&to_uppercase(words[0]), &slice(&words, 1, words.len()))
}

/// The title of a document's text.
pub fn title_of(text: &str, filename: &str) -> (r: String)
    ensures
        r@ == title_spec(text@, filename@),
{
    let ls: Vec<String> = lines(text);
    match first_nonblank(&ls) {
        Some(line) => match strip_prefix(&line, "# ") {
            Some(h) => {
                let h: String = trim(&h);
                if !h.as_str().is_empty() {
                    return h;
                }
            },
            None => {},
        },
        None => {},
    }
    humanise_filename(filename)
}

/// A document's title: the heading it opens with, else its file name made readable.
pub fn derive_title(bytes: &[u8], filename: &str) -> (r: String)
    ensures
        r@ == title_spec(text_of(bytes@), filename@),
{
    let text: String = match utf8(bytes) {
        Some(s) => s,
        None => String::new(),
    };
    assert(text@ =~= text_of(bytes@));
    title_of(&text, filename)
}

// ---- names ----------------------------------------------------------------------------------------------------------

/// A file name that cannot lead out of its directory and is not hidden.
pub open spec fn safe_name(name: Text) -> bool {
    name.len() > 0 && !name.contains('/') && !name.contains('\\') && !has_text(name, ".."@) && !has_prefix(name, "."@)
}

/// A path each of whose segments is a safe file name.
pub open spec fn safe_path(path: Text) -> bool {
    path.len() > 0 && !path.contains('\\') && forall|i: int|
        0 <= i < split_spec(path, '/').len() ==> safe_name(#[trigger] split_spec(path, '/')[i])
}

/// Guard a file name that arrived off a URL.
pub fn safe_filename(name: &str) -> (r: bool)
    ensures
        r == safe_name(name@),
{
    !name.is_empty() && !contains_char(name, '/') && !contains_char(name, '\\') && !contains(name, "..") && !starts_with(
        name,
        ".",
    )
}

/// Guard a path that arrived off a URL, segment by segment.
pub fn safe_asset_path(path: &str) -> (r: bool)
    ensures
        r == safe_path(path@),
{
    if path.is_empty() || contains_char(path, '\\') {
        return false;
    }
    let segments: Vec<String> = split(path, '/');
    let ghost all = split_spec(path@, '/');
    let mut i: usize = 0;
    while i < segments.len()
        invariant
            models(segments@) == all,
            all == split_spec(path@, '/'),
            i <= segments@.len(),
            forall|j: int| 0 <= j < i ==> safe_name(#[trigger] all[j]),
        decreases segments@.len() - i,
    {
        assert(segments@[i as int]@ == models(segments@)[i as int]);
        if !safe_filename(&segments[i]) {
            assert(!safe_name(all[i as int]));
            return false;
        }
        i = i + 1;
    }
    assert(segments@.len() == all.len());
    true
}

/// The extension `md`, in any case.
pub open spec fn is_md(ext: Text) -> bool {
    ext.len() == 2 && (ext[0] == 'm' || ext[0] == 'M') && (ext[1] == 'd' || ext[1] == 'D')
}

/// A page of the table of contents: a markdown file at the top level. A name that only has a dot in front has no
/// extension.
pub open spec fn is_page(path: Text) -> bool {
    !path.contains('/') && path.contains('.') && is_md(after_last(path, '.')) && path.len() > after_last(path, '.').len() + 1
}

/// Whether an embedded file is a page.
pub fn is_top_level_markdown(path: &str) -> (r: bool)
    ensures
        r == is_page(path@),
{
    if contains_char(path, '/') {
        return false;
    }
    let (ext, dotted) = behind_last(path, '.');
    let e: Vec<char> = chars(&ext);
    let p: Vec<char> = chars(path);
    dotted && e.len() == 2 && (e[0] == 'm' || e[0] == 'M') && (e[1] == 'd' || e[1] == 'D') && p.len() > e.len() + 1
}

/// The content type that the part of a path behind its last dot names.
pub open spec fn content_type_of(ext: Text) -> Text {
    if ext == "svg"@ {
        "image/svg+xml"@
    } else if ext == "png"@ {
        "image/png"@
    } else if ext == "jpg"@ || ext == "jpeg"@ {
        "image/jpeg"@
    } else if ext == "gif"@ {
        "image/gif"@
    } else {
        "application/octet-stream"@
    }
}

/// The content type of a document's asset.
pub fn content_type(path: &str) -> (r: &'static str)
    ensures
        r@ == content_type_of(after_last(path@, '.')),
{
    let ext: String = behind_last(path, '.').0;
    if same(&ext, "svg") {
        "image/svg+xml"
    } else if same(&ext, "png") {
        "image/png"
    } else if same(&ext, "jpg") || same(&ext, "jpeg") {
        "image/jpeg"
    } else if same(&ext, "gif") {
        "image/gif"
    } else {
        "application/octet-stream"
    }
}

// ---- the table of contents ------------------------------------------------------------------------------------------

/// The entries with `e` in its place by file name, behind any of the same name.
pub open spec fn entry_inserted(s: Seq<DocEntryModel>, e: DocEntryModel) -> Seq<DocEntryModel>
    decreases s.len(),
{
    if s.len() > 0 && text_lt(e.file, s.last().file) {
        entry_inserted(s.drop_last(), e).push(s.last())
    } else {
        s.push(e)
    }
}

proof fn lemma_entry_inserted(s: Seq<DocEntryModel>, e: DocEntryModel, i: int)
    requires
        0 <= i <= s.len(),
        forall|j: int| i <= j < s.len() ==> text_lt(e.file, (#[trigger] s[j]).file),
        i > 0 ==> !text_lt(e.file, s[i - 1].file),
    ensures
        entry_inserted(s, e) == s.insert(i, e),
    decreases s.len(),
{
    if i < s.len() {
        assert(text_lt(e.file, s[s.len() - 1].file));
        lemma_entry_inserted(s.drop_last(), e, i);
        assert(s.drop_last().insert(i, e).push(s.last()) =~= s.insert(i, e));
    } else {
        assert(s.push(e) =~= s.insert(i, e));
    }
}

fn insert_entry(v: &mut Vec<DocEntry>, e: DocEntry)
    ensures
        models(final(v)@) == entry_inserted(models(old(v)@), e@),
{
    let ghost s = models(v@);
    let mut i: usize = v.len();
    while i > 0 && crate::text::before(&e.file, &v[i - 1].file)
        invariant
            i <= v@.len(),
            s == models(v@),
            forall|j: int| i <= j < v@.len() ==> text_lt(e@.file, (#[trigger] s[j]).file),
        decreases i,
    {
        i = i - 1;
    }
    proof {
        if i > 0 {
            assert(s[i - 1] == v@[i - 1]@);
        }
        lemma_entry_inserted(s, e@, i as int);
    }
    v.insert(i, e);
}

/// The pages among `files`, each under its title, by file name.
pub open spec fn toc(files: Seq<DocFile>) -> Seq<DocEntryModel>
    decreases files.len(),
{
    if files.len() == 0 {
        Seq::empty()
    } else {
        let before = toc(files.drop_last());
        let f = files.last();
        if is_page(f.name@) {
            entry_inserted(before, DocEntryModel { file: f.name@, title: title_spec(text_of(f.bytes@), f.name@) })
        } else {
            before
        }
    }
}

/// The table of contents: the markdown files at the top level, by file name.
pub fn list_docs(files: &Vec<DocFile>) -> (r: Vec<DocEntry>)
    ensures
        models(r@) == toc(files@),
{
    let mut out: Vec<DocEntry> = Vec::new();
    let mut i: usize = 0;
    while i < files.len()
        invariant
            i <= files@.len(),
            models(out@) == toc(files@.take(i as int)),
        decreases files@.len() - i,
    {
        let f: &DocFile = &files[i];
        proof {
            assert(files@.take(i + 1).drop_last() =~= files@.take(i as int));
            assert(files@.take(i + 1).last() == f);
        }
        if is_top_level_markdown(&f.name) {
            let title: String = derive_title(f.bytes.as_slice(), &f.name);
            let entry: DocEntry = DocEntry { file: f.name.clone(), title };
            insert_entry(&mut out, entry);
        }
        i = i + 1;
    }
    assert(files@.take(files@.len() as int) =~= files@);
    out
}

/// The fragment that shows one page.
pub open spec fn article(name: Text) -> Text {
    "<article class=\"prose prose-sm max-w-none\" data-md-src=\"/raw/docs/"@ + name + "\"></article>"@
}

/// The fragment for one page, when the name is safe and names an embedded file.
pub fn page(name: &str, embedded: bool) -> (r: Option<String>)
    ensures
        opt_model(r) == if safe_name(name@) && embedded {
            Some(article(name@))
        } else {
            None
        },
{
    if safe_filename(name) && embedded {
        Some(
            crate::text::concat3(
                "<article class=\"prose prose-sm max-w-none\" data-md-src=\"/raw/docs/",
                name,
                "\"></article>",
            ),
        )
    } else {
        None
    }
}

/// By file name, in order.
pub open spec fn in_order(s: Seq<DocEntryModel>) -> bool {
    forall|i: int, j: int| 0 <= i < j < s.len() ==> !text_lt((#[trigger] s[j]).file, (#[trigger] s[i]).file)
}

proof fn lemma_inserted_in_order(s: Seq<DocEntryModel>, e: DocEntryModel)
    requires
        in_order(s),
    ensures
        in_order(entry_inserted(s, e)),
        forall|k: int|
            0 <= k < entry_inserted(s, e).len() ==> (#[trigger] entry_inserted(s, e)[k]) == e || s.contains(
                entry_inserted(s, e)[k],
            ),
    decreases s.len(),
{
    let r = entry_inserted(s, e);
    if s.len() > 0 && text_lt(e.file, s.last().file) {
        let front = s.drop_last();
        let before = entry_inserted(front, e);
        lemma_inserted_in_order(front, e);
        assert forall|k: int| 0 <= k < r.len() implies (#[trigger] r[k]) == e || s.contains(r[k]) by {
            if k < before.len() {
                assert(before[k] == r[k]);
                if before[k] != e {
                    let m = front.index_of(before[k]);
                    assert(s[m] == r[k]);
                }
            } else {
                assert(s[s.len() - 1] == r[k]);
            }
        }
        assert forall|i: int, j: int| 0 <= i < j < r.len() implies !text_lt((#[trigger] r[j]).file, (#[trigger] r[i]).file) by {
            if j < before.len() {
                assert(before[i] == r[i] && before[j] == r[j]);
            } else {
                assert(before[i] == r[i]);
                if before[i] == e {
                    crate::text::text_order_is_total(e.file, s.last().file);
                } else {
                    let m = front.index_of(before[i]);
                    assert(s[m] == r[i]);
                    assert(s[s.len() - 1] == r[j]);
                }
            }
        }
    } else {
        assert forall|k: int| 0 <= k < r.len() implies (#[trigger] r[k]) == e || s.contains(r[k]) by {
            if k < s.len() {
                assert(s[k] == r[k]);
            }
        }
        assert forall|i: int, j: int| 0 <= i < j < r.len() implies !text_lt((#[trigger] r[j]).file, (#[trigger] r[i]).file) by {
            if j == s.len() {
                lemma_not_below(s, e, i);
            }
        }
    }
}

proof fn lemma_not_below(s: Seq<DocEntryModel>, e: DocEntryModel, i: int)
    requires
        in_order(s),
        0 <= i < s.len(),
        !text_lt(e.file, s.last().file),
    ensures
        !text_lt(e.file, s[i].file),
{
    let last = s[s.len() - 1];
    if i < s.len() - 1 && text_lt(e.file, s[i].file) {
        assert(!text_lt(last.file, s[i].file));
        crate::text::text_order_is_total(s[i].file, last.file);
        if text_lt(s[i].file, last.file) {
            crate::text::text_order_is_transitive(e.file, s[i].file, last.file);
        }
    }
}

/// The table of contents is in order by file name, and lists markdown files of the top level only.
pub proof fn the_toc_is_in_order(files: Seq<DocFile>)
    ensures
        in_order(toc(files)),
        forall|k: int| 0 <= k < toc(files).len() ==> is_page((#[trigger] toc(files)[k]).file),
    decreases files.len(),
{
    if files.len() > 0 {
        the_toc_is_in_order(files.drop_last());
        let before = toc(files.drop_last());
        let f = files.last();
        if is_page(f.name@) {
            let e = DocEntryModel { file: f.name@, title: title_spec(text_of(f.bytes@), f.name@) };
            lemma_inserted_in_order(before, e);
            assert forall|k: int| 0 <= k < toc(files).len() implies is_page((#[trigger] toc(files)[k]).file) by {
                assert(toc(files)[k] == entry_inserted(before, e)[k]);
                if toc(files)[k] != e {
                    let m = before.index_of(toc(files)[k]);
                    assert(is_page(before[m].file));
                }
            }
        }
    }
}

/// A page is called by the heading it opens with: the text behind `# ` on its first line that is not blank.
pub proof fn a_page_is_called_by_its_heading(ls: Seq<Text>, i: int)
    requires
        0 <= i < ls.len() && trim_spec(ls[i]).len() > 0,
        forall|k: int| 0 <= k < i ==> trim_spec(#[trigger] ls[k]).len() == 0,
    ensures
        first_line(ls) == Some(trim_spec(ls[i])),
    decreases ls.len(),
{
    let before = ls.drop_last();
    if i < before.len() {
        assert(before[i] == ls[i]);
        assert forall|k: int| 0 <= k < i implies trim_spec(#[trigger] before[k]).len() == 0 by {
            assert(before[k] == ls[k]);
        }
        a_page_is_called_by_its_heading(before, i);
    } else {
        lemma_all_blank(before);
    }
}

proof fn lemma_all_blank(ls: Seq<Text>)
    requires
        forall|k: int| 0 <= k < ls.len() ==> trim_spec(#[trigger] ls[k]).len() == 0,
    ensures
        first_line(ls) is None,
    decreases ls.len(),
{
    if ls.len() > 0 {
        let before = ls.drop_last();
        assert forall|k: int| 0 <= k < before.len() implies trim_spec(#[trigger] before[k]).len() == 0 by {
            assert(before[k] == ls[k]);
        }
        lemma_all_blank(before);
        assert(trim_spec(ls[ls.len() - 1]).len() == 0);
    }
}

/// The title is the heading where the document opens with one, and the file's name made readable where it does not.
pub proof fn a_title_is_the_heading_or_the_name(text: Text, filename: Text)
    ensures
        ({
            let opening = first_line(lines_spec(text));
            let headed = opening is Some && has_prefix(opening->0, "# "@) && trim_spec(
                (opening->0).subrange(2, (opening->0).len() as int),
            ).len() > 0;
            &&& headed ==> title_spec(text, filename) == trim_spec((opening->0).subrange(2, (opening->0).len() as int))
            &&& !headed ==> title_spec(text, filename) == humanised(filename)
        }),
{
    reveal_strlit("# ");
}

/// A file's name is made readable: without `.md`, with a space for each dash and underscore, and a capital in front.
pub proof fn a_name_is_made_readable(first: char, rest: Text)
    requires
        first != '-' && first != '_',
    ensures
        humanised(seq![first] + rest + ".md"@) == uppercase(first) + Seq::new(
            rest.len(),
            |i: int|
                if rest[i] == '-' || rest[i] == '_' {
                    ' '
                } else {
                    rest[i]
                },
        ),
{
    reveal_strlit(".md");
    let stem = seq![first] + rest;
    let name = stem + ".md"@;
    assert(name.subrange(stem.len() as int, name.len() as int) =~= ".md"@);
    assert(name.subrange(0, stem.len() as int) =~= stem);
    assert(strip_suffix_spec(name, ".md"@) == Some(stem));
    let words = spaced(stem);
    assert(words[0] == first);
    assert(words.subrange(1, words.len() as int) =~= Seq::new(
        rest.len(),
        |i: int|
            if rest[i] == '-' || rest[i] == '_' {
                ' '
            } else {
                rest[i]
            },
    ));
}

/// A safe name is not empty, not hidden, holds no separator of either kind, and nowhere two dots.
pub proof fn a_safe_name_stays_in_its_directory(name: Text)
    ensures
        safe_name(name) <==> name.len() > 0 && name[0] != '.' && (forall|i: int|
            0 <= i < name.len() ==> #[trigger] name[i] != '/' && name[i] != '\\') && (forall|i: int|
            0 <= i < name.len() - 1 ==> !(#[trigger] name[i] == '.' && name[i + 1] == '.')),
{
    reveal_strlit("..");
    reveal_strlit(".");
    if name.len() > 0 {
        assert(name.subrange(0, 1)[0] == name[0]);
        if name[0] == '.' {
            assert(name.subrange(0, 1) =~= "."@);
            assert(has_prefix(name, "."@));
        }
    }
    if has_text(name, ".."@) {
        let i = choose|i: int| occurs_at(name, ".."@, i);
        assert(name.subrange(i, i + 2)[0] == name[i] && name.subrange(i, i + 2)[1] == name[i + 1]);
        assert(name[i] == '.' && name[i + 1] == '.');
    } else {
        assert forall|i: int| 0 <= i < name.len() - 1 implies !(#[trigger] name[i] == '.' && name[i + 1] == '.') by {
            if name[i] == '.' && name[i + 1] == '.' {
                assert(name.subrange(i, i + 2) =~= ".."@);
                assert(occurs_at(name, ".."@, i));
            }
        }
    }
}

/// A page is a file of the top level with a name in front of `.md`, in any case.
pub proof fn a_page_is_a_markdown_file(stem: Text, file: Text)
    requires
        stem.len() > 0 && !stem.contains('/'),
        !file.contains('.'),
    ensures
        is_page(stem + ".md"@) && is_page(stem + ".MD"@),
        !is_page(file),
        !is_page(".md"@),
        !is_page("docs/"@ + stem + ".md"@),
{
    reveal_strlit(".md");
    reveal_strlit(".MD");
    reveal_strlit("docs/");
    lemma_page(stem, ".md"@);
    lemma_page(stem, ".MD"@);
    lemma_after_last(".md"@, '.', 1);
    let deep = "docs/"@ + stem + ".md"@;
    assert(deep[4] == '/');
    assert(deep.contains('/'));
}

proof fn lemma_page(stem: Text, end: Text)
    requires
        stem.len() > 0 && !stem.contains('/'),
        end.len() == 3 && end[0] == '.' && (end[1] == 'm' || end[1] == 'M') && (end[2] == 'd' || end[2] == 'D'),
    ensures
        is_page(stem + end),
{
    let whole = stem + end;
    let at = stem.len() as int;
    assert(whole[at] == '.' && whole[at + 1] == end[1] && whole[at + 2] == end[2]);
    assert(whole.contains('.'));
    lemma_after_last(whole, '.', at + 1);
    let ext = whole.subrange(at + 1, whole.len() as int);
    assert(ext.len() == 2 && ext[0] == end[1] && ext[1] == end[2]);
    if whole.contains('/') {
        let k = choose|k: int| 0 <= k < whole.len() && whole[k] == '/';
        if k < at {
            assert(stem[k] == '/');
        } else {
            assert(whole[k] == end[k - at]);
        }
    }
}

/// Every page among the files is in the table of contents once, under its title, and nothing else is.
pub proof fn the_toc_lists_every_page(files: Seq<DocFile>)
    ensures
        toc(files).len() == files.filter(|f: DocFile| is_page(f.name@)).len(),
        forall|i: int|
            0 <= i < files.len() && is_page((#[trigger] files[i]).name@) ==> toc(files).contains(
                DocEntryModel { file: files[i].name@, title: title_spec(text_of(files[i].bytes@), files[i].name@) },
            ),
    decreases files.len(),
{
    reveal(Seq::filter);
    if files.len() > 0 {
        let before = files.drop_last();
        the_toc_lists_every_page(before);
        let f = files.last();
        let e = DocEntryModel { file: f.name@, title: title_spec(text_of(f.bytes@), f.name@) };
        if is_page(f.name@) {
            lemma_entry_there(toc(before), e);
        }
        assert forall|i: int| 0 <= i < files.len() && is_page((#[trigger] files[i]).name@) implies toc(files).contains(
            DocEntryModel { file: files[i].name@, title: title_spec(text_of(files[i].bytes@), files[i].name@) },
        ) by {
            if i < before.len() {
                assert(before[i] == files[i]);
            }
        }
    }
}

proof fn lemma_entry_there(s: Seq<DocEntryModel>, e: DocEntryModel)
    ensures
        entry_inserted(s, e).len() == s.len() + 1,
        entry_inserted(s, e).contains(e),
        forall|x: DocEntryModel| #[trigger] s.contains(x) ==> entry_inserted(s, e).contains(x),
    decreases s.len(),
{
    let after = entry_inserted(s, e);
    if s.len() > 0 && text_lt(e.file, s.last().file) {
        let shorter = s.drop_last();
        lemma_entry_there(shorter, e);
        let inner = entry_inserted(shorter, e);
        let k = choose|k: int| 0 <= k < inner.len() && inner[k] == e;
        assert(after[k] == e);
        assert forall|x: DocEntryModel| #[trigger] s.contains(x) implies after.contains(x) by {
            let i = choose|i: int| 0 <= i < s.len() && s[i] == x;
            if i < shorter.len() {
                assert(shorter[i] == x);
                assert(shorter.contains(x));
                let m = choose|m: int| 0 <= m < inner.len() && inner[m] == x;
                assert(after[m] == x);
            } else {
                assert(after.last() == x);
                assert(after[after.len() - 1] == x);
            }
        }
    } else {
        assert(after[s.len() as int] == e);
        assert forall|x: DocEntryModel| #[trigger] s.contains(x) implies after.contains(x) by {
            let i = choose|i: int| 0 <= i < s.len() && s[i] == x;
            assert(after[i] == x);
        }
    }
}

/// Which type of content each extension of an embedded file names; any other is plain bytes.
pub proof fn an_extension_names_its_type(ext: Text)
    ensures
        content_type_of(ext) == "image/svg+xml"@ <==> ext == "svg"@,
        content_type_of(ext) == "image/png"@ <==> ext == "png"@,
        content_type_of(ext) == "image/jpeg"@ <==> ext == "jpg"@ || ext == "jpeg"@,
        content_type_of(ext) == "image/gif"@ <==> ext == "gif"@,
        content_type_of(ext) == "application/octet-stream"@ <==> ext != "svg"@ && ext != "png"@ && ext != "jpg"@ && ext
            != "jpeg"@ && ext != "gif"@,
{
    reveal_strlit("svg");
    reveal_strlit("png");
    reveal_strlit("jpg");
    reveal_strlit("jpeg");
    reveal_strlit("gif");
    reveal_strlit("image/svg+xml");
    reveal_strlit("image/png");
    reveal_strlit("image/jpeg");
    reveal_strlit("image/gif");
    reveal_strlit("application/octet-stream");
    assert("svg"@[0] == 's' && "png"@[0] == 'p' && "jpg"@[0] == 'j' && "gif"@[0] == 'g' && "jpeg"@.len() == 4);
    assert("image/svg+xml"@.len() == 13 && "image/png"@.len() == 9 && "image/jpeg"@.len() == 10 && "image/gif"@.len() == 9);
    assert("image/png"@[6] == 'p' && "image/gif"@[6] == 'g' && "application/octet-stream"@.len() == 24);
}

/// A safe path is made of safe names, and one name by itself is a safe path exactly when it is safe.
pub proof fn a_safe_path_is_made_of_safe_names(name: Text, rest: Text)
    requires
        !name.contains('/'),
    ensures
        safe_path(name) <==> safe_name(name),
        safe_path(rest) && safe_name(name) ==> safe_path(name + "/"@ + rest),
        !safe_name(name) ==> !safe_path(name + "/"@ + rest),
        safe_path(name + "/"@ + rest) ==> safe_name(name),
{
    reveal_strlit("/");
    lemma_unsplit(name, '/');
    lemma_split_ahead(name, '/', rest);
    let whole = name + "/"@ + rest;
    assert(name + seq!['/'] + rest =~= whole);
    let pieces = split_spec(whole, '/');
    let more = split_spec(rest, '/');
    assert(pieces =~= seq![name] + more);
    assert(pieces[0] == name);
    assert(split_spec(name, '/')[0] == name);
    if safe_path(rest) && safe_name(name) {
        assert forall|i: int| 0 <= i < pieces.len() implies safe_name(#[trigger] pieces[i]) by {
            if i > 0 {
                assert(pieces[i] == more[i - 1]);
            }
        }
        if whole.contains('\\') {
            let k = choose|k: int| 0 <= k < whole.len() && whole[k] == '\\';
            if k < name.len() {
                assert(name[k] == '\\');
            } else if k > name.len() {
                assert(rest[k - name.len() - 1] == '\\');
            }
        }
    }
}

/// A page is shown by a fragment that fetches its text by name.
pub proof fn a_page_is_fetched_by_name(name: Text)
    ensures
        article(name) == "<article class=\"prose prose-sm max-w-none\" data-md-src=\"/raw/docs/"@ + name + "\"></article>"@,
{
}

} // verus!
