//! Strings as sequences of characters: the text operations the rest of the library is built from, each proved against a
//! specification on `Seq<char>`.
use vstd::prelude::*;

use crate::seqs::{lemma_position, models, opt_model, position};

verus! {

/// A piece of text, as contracts speak of it.
pub type Text = Seq<char>;

/// `String::push` of the standard library appends one character at the end and leaves the rest alone.
pub assume_specification[ String::push ](s: &mut String, c: char)
    ensures
        final(s)@ == old(s)@.push(c),
;

/// What `str::to_lowercase` makes of a text. It follows Unicode's case tables, so it is named here rather than written out.
pub uninterp spec fn lowercase(s: Seq<char>) -> Seq<char>;

/// `str::to_lowercase` of the standard library; the result is a function of the text alone. It lowercases ASCII letters as
/// `to_ascii_lowercase` does, and so a text of ASCII characters comes out as that function has it.
#[verifier::external_body]
pub(crate) fn to_lowercase(s: &str) -> (r: String)
    ensures
        r@ == lowercase(s@),
        is_ascii(s@) ==> r@ == ascii_lowered(s@),
{
    s.to_lowercase()
}

/// Only ASCII characters.
pub open spec fn is_ascii(s: Text) -> bool {
    forall|i: int| 0 <= i < s.len() ==> (#[trigger] s[i] as u32) < 128
}

/// An ASCII letter in lower case; any other character as it is.
pub open spec fn ascii_lower_char(c: char) -> char {
    if 'A' <= c && c <= 'Z' {
        ((c as u32) + 32) as char
    } else {
        c
    }
}

/// The ASCII letters of a text in lower case.
pub open spec fn ascii_lowered(s: Text) -> Text {
    Seq::new(s.len(), |i: int| ascii_lower_char(s[i]))
}

/// A text in lower case: ASCII letters by their own table, anything more by Unicode's.
pub open spec fn lowered(s: Text) -> Text {
    if is_ascii(s) {
        ascii_lowered(s)
    } else {
        lowercase(s)
    }
}

/// A string in lower case.
pub fn lower(s: &str) -> (r: String)
    ensures
        r@ == lowered(s@),
{
    to_lowercase(s)
}

/// The ASCII letters of a string in lower case.
pub fn lower_ascii(s: &str) -> (r: String)
    ensures
        r@ == ascii_lowered(s@),
{
    let v: Vec<char> = chars(s);
    let mut out: String = String::new();
    let mut i: usize = 0;
    while i < v.len()
        invariant
            v@ == s@,
            i <= v@.len(),
            out@ == ascii_lowered(s@.take(i as int)),
        decreases v@.len() - i,
    {
        let c: char = v[i];
        out.push(if 'A' <= c && c <= 'Z' { (c as u8 + 32) as char } else { c });
        assert(ascii_lowered(s@.take(i + 1)) =~= ascii_lowered(s@.take(i as int)).push(ascii_lower_char(s@[i as int])));
        i = i + 1;
    }
    assert(s@.take(s@.len() as int) =~= s@);
    out
}

/// What `char::to_uppercase` makes of one character: Unicode may expand it to several.
pub uninterp spec fn uppercase(c: char) -> Seq<char>;

/// `char::to_uppercase` of the standard library, its characters gathered in a string.
#[verifier::external_body]
pub(crate) fn to_uppercase(c: char) -> (r: String)
    ensures
        r@ == uppercase(c),
{
    c.to_uppercase().to_string()
}

// ---- characters -----------------------------------------------------------------------------------------------------

/// Unicode's White_Space property.
pub open spec fn is_white(c: char) -> bool {
    let n = c as u32;
    9 <= n <= 13 || n == 32 || n == 0x85 || n == 0xa0 || n == 0x1680 || 0x2000 <= n <= 0x200a || n == 0x2028 || n == 0x2029
        || n == 0x202f || n == 0x205f || n == 0x3000
}

pub fn white(c: char) -> (r: bool)
    ensures
        r == is_white(c),
{
    let n: u32 = c as u32;
    9 <= n && n <= 13 || n == 32 || n == 0x85 || n == 0xa0 || n == 0x1680 || 0x2000 <= n && n <= 0x200a || n == 0x2028
        || n == 0x2029 || n == 0x202f || n == 0x205f || n == 0x3000
}

/// An ASCII digit.
pub open spec fn is_digit(c: char) -> bool {
    '0' <= c <= '9'
}

/// An ASCII letter or digit.
pub open spec fn is_alnum(c: char) -> bool {
    is_digit(c) || 'a' <= c <= 'z' || 'A' <= c <= 'Z'
}

pub fn digit(c: char) -> (r: bool)
    ensures
        r == is_digit(c),
{
    '0' <= c && c <= '9'
}

pub fn alnum(c: char) -> (r: bool)
    ensures
        r == is_alnum(c),
{
    digit(c) || 'a' <= c && c <= 'z' || 'A' <= c && c <= 'Z'
}

// ---- building and taking apart --------------------------------------------------------------------------------------

/// The characters of a string, in order.
pub fn chars(s: &str) -> (r: Vec<char>)
    ensures
        r@ == s@,
{
    let mut v: Vec<char> = Vec::new();
    for c in it: s.chars()
        invariant
            v@ == s@.take(it.index()),
            it.seq() == s@,
    {
        v.push(c);
        assert(v@ =~= s@.take(it.index() + 1));
    }
    assert(s@.take(s@.len() as int) =~= s@);
    v
}

/// The characters from `from` up to `to`, as a string.
pub fn slice(v: &Vec<char>, from: usize, to: usize) -> (r: String)
    requires
        from <= to <= v@.len(),
    ensures
        r@ == v@.subrange(from as int, to as int),
{
    let mut out: String = String::new();
    let mut i: usize = from;
    while i < to
        invariant
            from <= i <= to <= v@.len(),
            out@ == v@.subrange(from as int, i as int),
        decreases to - i,
    {
        out.push(v[i]);
        i = i + 1;
        assert(out@ =~= v@.subrange(from as int, i as int));
    }
    out
}

/// Whether two strings hold the same text.
pub fn same(a: &str, b: &str) -> (r: bool)
    ensures
        r == (a@ == b@),
{
    a.to_owned() == b.to_owned()
}

pub fn concat2(a: &str, b: &str) -> (r: String)
    ensures
        r@ == a@ + b@,
{
    let mut out: String = a.to_owned();
    out.append(b);
    out
}

pub fn concat3(a: &str, b: &str, c: &str) -> (r: String)
    ensures
        r@ == a@ + b@ + c@,
{
    let mut out: String = a.to_owned();
    out.append(b);
    out.append(c);
    out
}

pub fn concat4(a: &str, b: &str, c: &str, d: &str) -> (r: String)
    ensures
        r@ == a@ + b@ + c@ + d@,
{
    let mut out: String = concat3(a, b, c);
    out.append(d);
    out
}

pub fn concat5(a: &str, b: &str, c: &str, d: &str, e: &str) -> (r: String)
    ensures
        r@ == a@ + b@ + c@ + d@ + e@,
{
    let mut out: String = concat4(a, b, c, d);
    out.append(e);
    out
}

/// Whether two optional strings hold the same text.
pub fn same_opt(a: &Option<String>, b: &Option<String>) -> (r: bool)
    ensures
        r == (opt_model(*a) == opt_model(*b)),
{
    match (a, b) {
        (Some(x), Some(y)) => same(x, y),
        (None, None) => true,
        _ => false,
    }
}

// ---- prefixes and suffixes ------------------------------------------------------------------------------------------

pub open spec fn has_prefix(s: Text, p: Text) -> bool {
    p.len() <= s.len() && s.subrange(0, p.len() as int) == p
}

pub open spec fn has_suffix(s: Text, p: Text) -> bool {
    p.len() <= s.len() && s.subrange(s.len() - p.len(), s.len() as int) == p
}

/// What is left of `s` after the prefix `p`, when it has that prefix.
pub open spec fn strip_prefix_spec(s: Text, p: Text) -> Option<Text> {
    if has_prefix(s, p) {
        Some(s.subrange(p.len() as int, s.len() as int))
    } else {
        None
    }
}

/// What is left of `s` before the suffix `p`, when it has that suffix.
pub open spec fn strip_suffix_spec(s: Text, p: Text) -> Option<Text> {
    if has_suffix(s, p) {
        Some(s.subrange(0, s.len() - p.len()))
    } else {
        None
    }
}

/// Whether the characters of `p` stand in `v` from `at` on.
pub fn matches_at(v: &Vec<char>, at: usize, p: &Vec<char>) -> (r: bool)
    requires
        at <= v@.len(),
    ensures
        r == (at + p@.len() <= v@.len() && v@.subrange(at as int, at + p@.len()) == p@),
{
    if v.len() - at < p.len() {
        return false;
    }
    let n: usize = v.len();
    let mut i: usize = 0;
    while i < p.len()
        invariant
            n == v@.len(),
            at + p@.len() <= n,
            i <= p@.len(),
            forall|j: int| 0 <= j < i ==> v@[at + j] == p@[j],
        decreases p@.len() - i,
    {
        if v[at + i] != p[i] {
            assert(v@.subrange(at as int, at + p@.len())[i as int] != p@[i as int]);
            return false;
        }
        i = i + 1;
    }
    assert(v@.subrange(at as int, at + p@.len()) =~= p@);
    true
}

pub fn starts_with(s: &str, p: &str) -> (r: bool)
    ensures
        r == has_prefix(s@, p@),
{
    let v: Vec<char> = chars(s);
    let q: Vec<char> = chars(p);
    matches_at(&v, 0, &q)
}

pub fn strip_prefix(s: &str, p: &str) -> (r: Option<String>)
    ensures
        opt_model(r) == strip_prefix_spec(s@, p@),
{
    let v: Vec<char> = chars(s);
    let q: Vec<char> = chars(p);
    if matches_at(&v, 0, &q) {
        Some(slice(&v, q.len(), v.len()))
    } else {
        None
    }
}

pub fn strip_suffix(s: &str, p: &str) -> (r: Option<String>)
    ensures
        opt_model(r) == strip_suffix_spec(s@, p@),
{
    let v: Vec<char> = chars(s);
    let q: Vec<char> = chars(p);
    if q.len() <= v.len() && matches_at(&v, v.len() - q.len(), &q) {
        Some(slice(&v, 0, v.len() - q.len()))
    } else {
        None
    }
}

// ---- searching ------------------------------------------------------------------------------------------------------

/// `p` stands in `s` at `i`.
pub open spec fn occurs_at(s: Text, p: Text, i: int) -> bool {
    0 <= i && i + p.len() <= s.len() && s.subrange(i, i + p.len()) == p
}

/// `p` stands somewhere in `s`.
pub open spec fn has_text(s: Text, p: Text) -> bool {
    exists|i: int| occurs_at(s, p, i)
}

pub fn contains(s: &str, p: &str) -> (r: bool)
    ensures
        r == has_text(s@, p@),
{
    let v: Vec<char> = chars(s);
    let q: Vec<char> = chars(p);
    if q.len() == 0 {
        assert(s@.subrange(0, 0) =~= p@);
        assert(occurs_at(s@, p@, 0));
        return true;
    }
    let n: usize = v.len();
    let mut i: usize = 0;
    while q.len() <= n - i
        invariant
            v@ == s@,
            q@ == p@,
            q@.len() > 0,
            n == v@.len(),
            i <= n,
            forall|j: int| 0 <= j < i ==> !occurs_at(s@, p@, j),
        decreases n - i,
    {
        if matches_at(&v, i, &q) {
            assert(occurs_at(s@, p@, i as int));
            return true;
        }
        i = i + 1;
    }
    false
}

/// Whether the character `c` stands in `s`.
pub fn contains_char(s: &str, c: char) -> (r: bool)
    ensures
        r == s@.contains(c),
{
    let v: Vec<char> = chars(s);
    let mut i: usize = 0;
    while i < v.len()
        invariant
            v@ == s@,
            i <= v@.len(),
            forall|j: int| 0 <= j < i ==> s@[j] != c,
        decreases v@.len() - i,
    {
        if v[i] == c {
            assert(s@[i as int] == c);
            return true;
        }
        i = i + 1;
    }
    false
}

/// The text before and after the first `c`.
pub open spec fn split_once_spec(s: Text, c: char) -> Option<(Text, Text)> {
    if s.contains(c) {
        Some((s.subrange(0, position(s, c)), s.subrange(position(s, c) + 1, s.len() as int)))
    } else {
        None
    }
}

pub fn split_once(s: &str, c: char) -> (r: Option<(String, String)>)
    ensures
        match r {
            Some(p) => split_once_spec(s@, c) == Some((p.0@, p.1@)),
            None => split_once_spec(s@, c) is None,
        },
{
    let v: Vec<char> = chars(s);
    let mut i: usize = 0;
    while i < v.len()
        invariant
            v@ == s@,
            i <= v@.len(),
            forall|j: int| 0 <= j < i ==> s@[j] != c,
        decreases v@.len() - i,
    {
        if v[i] == c {
            proof {
                lemma_position(s@, c, i as int);
                assert(s@[i as int] == c);
            }
            return Some((slice(&v, 0, i), slice(&v, i + 1, v.len())));
        }
        i = i + 1;
    }
    None
}

/// The text behind the last `c`, the whole text when there is none.
pub open spec fn after_last(s: Text, c: char) -> Text
    decreases s.len(),
{
    if s.len() == 0 || s.last() == c {
        Seq::empty()
    } else {
        after_last(s.drop_last(), c).push(s.last())
    }
}

pub proof fn lemma_after_last(s: Text, c: char, i: int)
    requires
        0 <= i <= s.len(),
        forall|j: int| i <= j < s.len() ==> s[j] != c,
        i > 0 ==> s[i - 1] == c,
    ensures
        after_last(s, c) == s.subrange(i, s.len() as int),
    decreases s.len(),
{
    if i < s.len() {
        lemma_after_last(s.drop_last(), c, i);
        assert(s.drop_last().subrange(i, s.len() - 1).push(s.last()) =~= s.subrange(i, s.len() as int));
    } else {
        assert(s.subrange(i, s.len() as int) =~= Seq::<char>::empty());
    }
}

/// The text behind the last `c`, and whether `c` stands there at all.
pub fn behind_last(s: &str, c: char) -> (r: (String, bool))
    ensures
        r.0@ == after_last(s@, c),
        r.1 == s@.contains(c),
{
    let v: Vec<char> = chars(s);
    let mut i: usize = v.len();
    while i > 0
        invariant
            v@ == s@,
            i <= v@.len(),
            forall|j: int| i <= j < s@.len() ==> s@[j] != c,
        decreases i,
    {
        if v[i - 1] == c {
            proof {
                lemma_after_last(s@, c, i as int);
                assert(s@[i - 1] == c);
            }
            return (slice(&v, i, v.len()), true);
        }
        i = i - 1;
    }
    proof {
        lemma_after_last(s@, c, 0);
    }
    (slice(&v, 0, v.len()), false)
}

// ---- trimming -------------------------------------------------------------------------------------------------------

pub open spec fn trim_start_spec(s: Text) -> Text
    decreases s.len(),
{
    if s.len() > 0 && is_white(s[0]) {
        trim_start_spec(s.subrange(1, s.len() as int))
    } else {
        s
    }
}

pub open spec fn trim_end_spec(s: Text) -> Text
    decreases s.len(),
{
    if s.len() > 0 && is_white(s.last()) {
        trim_end_spec(s.drop_last())
    } else {
        s
    }
}

/// The text without white space at either end.
pub open spec fn trim_spec(s: Text) -> Text {
    trim_end_spec(trim_start_spec(s))
}

pub fn trim_start(s: &str) -> (r: String)
    ensures
        r@ == trim_start_spec(s@),
{
    let v: Vec<char> = chars(s);
    let mut i: usize = 0;
    assert(s@.subrange(0, s@.len() as int) =~= s@);
    while i < v.len() && white(v[i])
        invariant
            v@ == s@,
            i <= v@.len(),
            trim_start_spec(s@) == trim_start_spec(s@.subrange(i as int, s@.len() as int)),
        decreases v@.len() - i,
    {
        proof {
            let t = s@.subrange(i as int, s@.len() as int);
            assert(t[0] == s@[i as int]);
            assert(t.subrange(1, t.len() as int) =~= s@.subrange(i + 1, s@.len() as int));
        }
        i = i + 1;
    }
    proof {
        let t = s@.subrange(i as int, s@.len() as int);
        if i < v@.len() {
            assert(t[0] == s@[i as int]);
        }
    }
    slice(&v, i, v.len())
}

pub fn trim_end(s: &str) -> (r: String)
    ensures
        r@ == trim_end_spec(s@),
{
    let v: Vec<char> = chars(s);
    let mut i: usize = v.len();
    assert(s@.subrange(0, s@.len() as int) =~= s@);
    while i > 0 && white(v[i - 1])
        invariant
            v@ == s@,
            i <= v@.len(),
            trim_end_spec(s@) == trim_end_spec(s@.subrange(0, i as int)),
        decreases i,
    {
        proof {
            let t = s@.subrange(0, i as int);
            assert(t.last() == s@[i - 1]);
            assert(t.drop_last() =~= s@.subrange(0, i - 1));
        }
        i = i - 1;
    }
    proof {
        let t = s@.subrange(0, i as int);
        if i > 0 {
            assert(t.last() == s@[i - 1]);
        }
    }
    slice(&v, 0, i)
}

pub fn trim(s: &str) -> (r: String)
    ensures
        r@ == trim_spec(s@),
{
    let t: String = trim_start(s);
    trim_end(&t)
}

/// The text without any of the characters `set` at its end.
pub open spec fn trim_end_of_spec(s: Text, set: Text) -> Text
    decreases s.len(),
{
    if s.len() > 0 && set.contains(s.last()) {
        trim_end_of_spec(s.drop_last(), set)
    } else {
        s
    }
}

pub fn trim_end_of(s: &str, set: &str) -> (r: String)
    ensures
        r@ == trim_end_of_spec(s@, set@),
{
    let v: Vec<char> = chars(s);
    let mut i: usize = v.len();
    assert(s@.subrange(0, s@.len() as int) =~= s@);
    while i > 0 && contains_char(set, v[i - 1])
        invariant
            v@ == s@,
            i <= v@.len(),
            trim_end_of_spec(s@, set@) == trim_end_of_spec(s@.subrange(0, i as int), set@),
        decreases i,
    {
        proof {
            let t = s@.subrange(0, i as int);
            assert(t.last() == s@[i - 1]);
            assert(t.drop_last() =~= s@.subrange(0, i - 1));
        }
        i = i - 1;
    }
    proof {
        let t = s@.subrange(0, i as int);
        if i > 0 {
            assert(t.last() == s@[i - 1]);
        }
    }
    slice(&v, 0, i)
}

// ---- splitting and joining ------------------------------------------------------------------------------------------

/// The pieces of `s` between the characters `c`: one more piece than there are such characters.
pub open spec fn split_spec(s: Text, c: char) -> Seq<Text>
    decreases s.len(),
{
    if s.len() == 0 {
        seq![Seq::empty()]
    } else {
        let before = split_spec(s.drop_last(), c);
        if s.last() == c {
            before.push(Seq::empty())
        } else {
            before.update(before.len() - 1, before.last().push(s.last()))
        }
    }
}

pub proof fn lemma_split_nonempty(s: Text, c: char)
    ensures
        split_spec(s, c).len() > 0,
    decreases s.len(),
{
    if s.len() > 0 {
        lemma_split_nonempty(s.drop_last(), c);
    }
}

pub fn split(s: &str, c: char) -> (r: Vec<String>)
    ensures
        models(r@) == split_spec(s@, c),
        r@.len() > 0,
{
    let v: Vec<char> = chars(s);
    let mut out: Vec<String> = Vec::new();
    let mut piece: String = String::new();
    let mut i: usize = 0;
    assert(models(out@).push(piece@) =~= split_spec(s@.take(0), c));
    while i < v.len()
        invariant
            v@ == s@,
            i <= v@.len(),
            models(out@).push(piece@) == split_spec(s@.take(i as int), c),
        decreases v@.len() - i,
    {
        let ghost done = models(out@);
        let ghost open_piece = piece@;
        proof {
            assert(s@.take(i + 1).drop_last() =~= s@.take(i as int));
        }
        if v[i] == c {
            out.push(piece);
            piece = String::new();
            assert(models(out@) =~= done.push(open_piece));
        } else {
            piece.push(v[i]);
            assert(done.push(piece@) =~= done.push(open_piece).update(done.len() as int, open_piece.push(v@[i as int])));
        }
        i = i + 1;
    }
    assert(s@.take(s@.len() as int) =~= s@);
    let ghost done = models(out@);
    let ghost last = piece@;
    out.push(piece);
    assert(models(out@) =~= done.push(last));
    out
}

/// The lines of a text: split at each newline, a carriage return before the newline dropped with it, and no empty line
/// for a newline at the very end.
pub open spec fn lines_spec(s: Text) -> Seq<Text> {
    let pieces = split_spec(s, '\n');
    let ended = Seq::new((pieces.len() - 1) as nat, |i: int| without_return(pieces[i]));
    if pieces.last().len() == 0 {
        ended
    } else {
        ended.push(pieces.last())
    }
}

/// A line without the carriage return at its end.
pub open spec fn without_return(s: Text) -> Text {
    if s.len() > 0 && s.last() == '\r' {
        s.drop_last()
    } else {
        s
    }
}

pub fn lines(s: &str) -> (r: Vec<String>)
    ensures
        models(r@) == lines_spec(s@),
{
    let pieces: Vec<String> = split(s, '\n');
    let mut out: Vec<String> = Vec::new();
    let last: usize = pieces.len() - 1;
    let mut i: usize = 0;
    while i < last
        invariant
            models(pieces@) == split_spec(s@, '\n'),
            last == pieces@.len() - 1,
            i <= last,
            out@.len() == i,
            forall|j: int| 0 <= j < i ==> #[trigger] out@[j]@ == without_return(pieces@[j]@),
        decreases last - i,
    {
        let v: Vec<char> = chars(pieces[i].as_str());
        if v.len() > 0 && v[v.len() - 1] == '\r' {
            let line: String = slice(&v, 0, v.len() - 1);
            assert(line@ =~= v@.drop_last());
            out.push(line);
        } else {
            out.push(pieces[i].clone());
        }
        i = i + 1;
    }
    if !pieces[last].as_str().is_empty() {
        out.push(pieces[last].clone());
    }
    proof {
        assert(models(pieces@).last() == pieces@[last as int]@);
        assert(models(out@) =~= lines_spec(s@));
    }
    out
}

/// The maximal runs of characters that are not white space.
pub open spec fn words_spec(s: Text) -> Seq<Text> {
    runs(s).0 + open_run(runs(s).1)
}

/// The finished runs of `s`, and the run that reaches its end.
pub open spec fn runs(s: Text) -> (Seq<Text>, Text)
    decreases s.len(),
{
    if s.len() == 0 {
        (Seq::empty(), Seq::empty())
    } else {
        let before = runs(s.drop_last());
        if is_white(s.last()) {
            (before.0 + open_run(before.1), Seq::empty())
        } else {
            (before.0, before.1.push(s.last()))
        }
    }
}

pub open spec fn open_run(run: Text) -> Seq<Text> {
    if run.len() == 0 {
        Seq::empty()
    } else {
        seq![run]
    }
}

pub fn words(s: &str) -> (r: Vec<String>)
    ensures
        models(r@) == words_spec(s@),
{
    let v: Vec<char> = chars(s);
    let mut out: Vec<String> = Vec::new();
    let mut run: String = String::new();
    let mut i: usize = 0;
    assert(models(out@) =~= runs(s@.take(0)).0);
    while i < v.len()
        invariant
            v@ == s@,
            i <= v@.len(),
            models(out@) == runs(s@.take(i as int)).0,
            run@ == runs(s@.take(i as int)).1,
        decreases v@.len() - i,
    {
        let ghost done = models(out@);
        proof {
            assert(s@.take(i + 1).drop_last() =~= s@.take(i as int));
        }
        if white(v[i]) {
            let ghost finished = run@;
            if !run.as_str().is_empty() {
                out.push(run);
            }
            run = String::new();
            assert(models(out@) =~= done + open_run(finished));
        } else {
            run.push(v[i]);
        }
        i = i + 1;
    }
    assert(s@.take(s@.len() as int) =~= s@);
    let ghost done = models(out@);
    let ghost last = run@;
    if !run.as_str().is_empty() {
        out.push(run);
    }
    assert(models(out@) =~= done + open_run(last));
    out
}

/// The pieces with `sep` between each two.
pub open spec fn join_spec(parts: Seq<Text>, sep: Text) -> Text
    decreases parts.len(),
{
    if parts.len() == 0 {
        Seq::empty()
    } else if parts.len() == 1 {
        parts[0]
    } else {
        join_spec(parts.drop_last(), sep) + sep + parts.last()
    }
}

pub fn join(parts: &Vec<String>, sep: &str) -> (r: String)
    ensures
        r@ == join_spec(models(parts@), sep@),
{
    let mut out: String = String::new();
    let mut i: usize = 0;
    while i < parts.len()
        invariant
            i <= parts@.len(),
            out@ == join_spec(models(parts@).take(i as int), sep@),
        decreases parts@.len() - i,
    {
        let ghost next = models(parts@).take(i + 1);
        proof {
            assert(next.drop_last() =~= models(parts@).take(i as int));
            assert(next.last() == parts@[i as int]@);
        }
        if i == 0 {
            out = parts[i].clone();
        } else {
            out.append(sep);
            out.append(parts[i].as_str());
        }
        i = i + 1;
    }
    assert(models(parts@).take(parts@.len() as int) =~= models(parts@));
    out
}

/// The part of `s` behind the last occurrence of `p` that starts no later than `at`.
pub open spec fn behind_from(s: Text, p: Text, at: int) -> Option<Text>
    decreases at + 1,
{
    if at < 0 {
        None
    } else if occurs_at(s, p, at) {
        Some(s.subrange(at + p.len(), s.len() as int))
    } else {
        behind_from(s, p, at - 1)
    }
}

/// The part of `s` behind the last occurrence of `p`, if it occurs at all.
pub open spec fn behind_text_spec(s: Text, p: Text) -> Option<Text> {
    behind_from(s, p, s.len() - p.len())
}

/// The part of a string behind the last occurrence of another.
pub fn behind_text(s: &str, p: &str) -> (r: Option<String>)
    ensures
        opt_model(r) == behind_text_spec(s@, p@),
{
    let v: Vec<char> = chars(s);
    let w: Vec<char> = chars(p);
    if v.len() < w.len() {
        return None;
    }
    let (n, m): (usize, usize) = (v.len(), w.len());
    let mut i: usize = n - m;
    loop
        invariant
            v@ == s@,
            w@ == p@,
            n == v@.len(),
            m == w@.len(),
            i + m <= n,
            behind_text_spec(s@, p@) == behind_from(s@, p@, i as int),
        decreases i,
    {
        if matches_at(&v, i, &w) {
            return Some(slice(&v, i + m, n));
        }
        if i == 0 {
            assert(behind_from(s@, p@, -1) is None);
            return None;
        }
        i = i - 1;
    }
}

/// Whether `s` is one of `list`.
pub fn listed(list: &Vec<String>, s: &str) -> (r: bool)
    ensures
        r == models(list@).contains(s@),
{
    let ghost all = models(list@);
    let mut i: usize = 0;
    while i < list.len()
        invariant
            all == models(list@),
            i <= list@.len(),
            forall|j: int| 0 <= j < i ==> #[trigger] all[j] != s@,
        decreases list@.len() - i,
    {
        assert(all[i as int] == list@[i as int]@);
        if same(&list[i], s) {
            return true;
        }
        i = i + 1;
    }
    false
}

// ---- numbers --------------------------------------------------------------------------------------------------------

pub open spec fn digit_char(d: nat) -> char {
    (('0' as u32) + d) as char
}

/// A number in decimal, without leading zeros.
pub open spec fn decimal(n: nat) -> Text
    decreases n,
{
    if n < 10 {
        seq![digit_char(n)]
    } else {
        decimal(n / 10).push(digit_char(n % 10))
    }
}

pub fn digit_of(d: u64) -> (r: char)
    requires
        d < 10,
    ensures
        r == digit_char(d as nat),
{
    (48u8 + d as u8) as char
}

pub fn to_decimal(n: u64) -> (r: String)
    ensures
        r@ == decimal(n as nat),
    decreases n,
{
    if n < 10 {
        let mut out: String = String::new();
        out.push(digit_of(n));
        assert(out@ =~= seq![digit_char(n as nat)]);
        out
    } else {
        let mut out: String = to_decimal(n / 10);
        out.push(digit_of(n % 10));
        out
    }
}

/// The value of a run of decimal digits.
pub open spec fn digits_value(s: Text) -> nat
    decreases s.len(),
{
    if s.len() == 0 {
        0
    } else {
        digits_value(s.drop_last()) * 10 + (s.last() as nat - '0' as nat) as nat
    }
}

pub open spec fn all_digits(s: Text) -> bool {
    forall|i: int| 0 <= i < s.len() ==> is_digit(#[trigger] s[i])
}

/// Whether a text holds nothing but digits.
pub fn only_digits(s: &str) -> (r: bool)
    ensures
        r == all_digits(s@),
{
    let v: Vec<char> = chars(s);
    let mut i: usize = 0;
    while i < v.len()
        invariant
            v@ == s@,
            i <= v@.len(),
            forall|j: int| 0 <= j < i ==> is_digit(#[trigger] s@[j]),
        decreases v@.len() - i,
    {
        if !digit(v[i]) {
            return false;
        }
        i = i + 1;
    }
    true
}

/// The digits of a number as a text may spell it: a leading `+` does not count.
pub open spec fn unsigned_digits(s: Text) -> Text {
    if s.len() > 0 && s[0] == '+' {
        s.subrange(1, s.len() as int)
    } else {
        s
    }
}

/// The number a text spells: an optional `+`, then at least one digit and nothing else.
pub open spec fn number(s: Text) -> Option<nat> {
    let d = unsigned_digits(s);
    if d.len() > 0 && all_digits(d) {
        Some(digits_value(d))
    } else {
        None
    }
}

/// The number a text spells, when it is at most `max`.
pub open spec fn number_upto(s: Text, max: nat) -> Option<nat> {
    match number(s) {
        Some(n) => if n <= max {
            Some(n)
        } else {
            None
        },
        None => None,
    }
}

pub proof fn lemma_digits_value_grows(s: Text, i: int)
    requires
        0 <= i <= s.len(),
        all_digits(s),
    ensures
        digits_value(s.take(i)) <= digits_value(s),
    decreases s.len() - i,
{
    if i == s.len() {
        assert(s.take(i) =~= s);
    } else {
        lemma_digits_value_grows(s, i + 1);
        assert(s.take(i + 1).drop_last() =~= s.take(i));
    }
}

/// Read a number no greater than `max`.
pub fn parse_upto(s: &str, max: u64) -> (r: Option<u64>)
    ensures
        match r {
            Some(n) => number_upto(s@, max as nat) == Some(n as nat),
            None => number_upto(s@, max as nat) is None,
        },
{
    let v: Vec<char> = chars(s);
    let start: usize = if v.len() > 0 && v[0] == '+' { 1 } else { 0 };
    let ghost d = unsigned_digits(s@);
    assert(d =~= v@.subrange(start as int, v@.len() as int));
    if start == v.len() {
        return None;
    }
    let mut k: usize = start;
    while k < v.len()
        invariant
            v@ == s@,
            start <= k <= v@.len(),
            d == v@.subrange(start as int, v@.len() as int),
            d == unsigned_digits(s@),
            forall|j: int| 0 <= j < k - start ==> is_digit(#[trigger] d[j]),
        decreases v@.len() - k,
    {
        if !digit(v[k]) {
            assert(!is_digit(d[k - start]));
            return None;
        }
        k = k + 1;
    }
    assert(all_digits(d));
    let mut n: u64 = 0;
    let mut i: usize = start;
    assert(d.take(0) =~= Seq::<char>::empty());
    while i < v.len()
        invariant
            v@ == s@,
            start <= i <= v@.len(),
            d == v@.subrange(start as int, v@.len() as int),
            d == unsigned_digits(s@),
            d.len() > 0,
            all_digits(d),
            n as nat == digits_value(d.take(i - start)),
            n <= max,
        decreases v@.len() - i,
    {
        let c: char = v[i];
        proof {
            assert(c == d[i - start]);
            assert(is_digit(d[i - start]));
            assert(d.take(i - start + 1).drop_last() =~= d.take(i - start));
            lemma_digits_value_grows(d, i - start + 1);
        }
        let low: u64 = (c as u32 - 48) as u64;
        if low > max || n > (max - low) / 10 {
            assert(n * 10 + low > max);
            return None;
        }
        n = n * 10 + low;
        i = i + 1;
    }
    assert(d.take(d.len() as int) =~= d);
    Some(n)
}

/// Reading back a number written in decimal gives the number.
pub proof fn decimal_reads_back(n: nat)
    ensures
        number(decimal(n)) == Some(n),
        all_digits(decimal(n)),
        decimal(n).len() > 0,
        digits_value(decimal(n)) == n,
    decreases n,
{
    let d = decimal(n);
    if n < 10 {
        assert(d.drop_last() =~= Seq::<char>::empty());
        assert(d.last() == digit_char(n));
        assert(digits_value(d.drop_last()) == 0);
    } else {
        decimal_reads_back(n / 10);
        assert(d.drop_last() =~= decimal(n / 10));
        assert(d.last() == digit_char(n % 10));
        assert forall|i: int| 0 <= i < d.len() implies is_digit(#[trigger] d[i]) by {
            if i < d.len() - 1 {
                assert(d[i] == decimal(n / 10)[i]);
            }
        }
    }
    assert(is_digit(d[0]));
    assert(unsigned_digits(d) == d);
}

/// Different numbers have different decimals.
pub proof fn decimal_is_injective(m: nat, n: nat)
    requires
        decimal(m) == decimal(n),
    ensures
        m == n,
{
    decimal_reads_back(m);
    decimal_reads_back(n);
}

// ---- order ----------------------------------------------------------------------------------------------------------

/// `a` comes before `b`, character by character.
pub open spec fn text_lt(a: Text, b: Text) -> bool
    decreases a.len(),
{
    if b.len() == 0 {
        false
    } else if a.len() == 0 {
        true
    } else if a[0] == b[0] {
        text_lt(a.subrange(1, a.len() as int), b.subrange(1, b.len() as int))
    } else {
        a[0] < b[0]
    }
}

pub fn before(a: &str, b: &str) -> (r: bool)
    ensures
        r == text_lt(a@, b@),
{
    let v: Vec<char> = chars(a);
    let w: Vec<char> = chars(b);
    let mut i: usize = 0;
    assert(a@.subrange(0, a@.len() as int) =~= a@);
    assert(b@.subrange(0, b@.len() as int) =~= b@);
    while i < v.len() && i < w.len() && v[i] == w[i]
        invariant
            v@ == a@,
            w@ == b@,
            i <= v@.len(),
            i <= w@.len(),
            text_lt(a@, b@) == text_lt(a@.subrange(i as int, a@.len() as int), b@.subrange(i as int, b@.len() as int)),
        decreases v@.len() - i,
    {
        proof {
            let s = a@.subrange(i as int, a@.len() as int);
            let t = b@.subrange(i as int, b@.len() as int);
            assert(s[0] == t[0]);
            assert(s.subrange(1, s.len() as int) =~= a@.subrange(i + 1, a@.len() as int));
            assert(t.subrange(1, t.len() as int) =~= b@.subrange(i + 1, b@.len() as int));
        }
        i = i + 1;
    }
    if i == w.len() {
        return false;
    }
    if i == v.len() {
        return true;
    }
    v[i] < w[i]
}

/// Two texts are equal, or one comes before the other, and not both.
pub proof fn text_order_is_total(a: Text, b: Text)
    ensures
        a == b || text_lt(a, b) || text_lt(b, a),
        !text_lt(a, a),
        text_lt(a, b) ==> !text_lt(b, a) && a != b,
    decreases a.len(),
{
    if a.len() > 0 {
        text_order_is_total(a.subrange(1, a.len() as int), a.subrange(1, a.len() as int));
    }
    if a.len() > 0 && b.len() > 0 && a[0] == b[0] {
        let s = a.subrange(1, a.len() as int);
        let t = b.subrange(1, b.len() as int);
        text_order_is_total(s, t);
        if s == t {
            assert(a =~= seq![a[0]] + s);
            assert(b =~= seq![b[0]] + t);
        }
    } else if a.len() == 0 && b.len() == 0 {
        assert(a =~= b);
    }
}

/// The order of texts is transitive.
pub proof fn text_order_is_transitive(a: Text, b: Text, c: Text)
    requires
        text_lt(a, b),
        text_lt(b, c),
    ensures
        text_lt(a, c),
    decreases a.len(),
{
    if a.len() > 0 && a[0] == b[0] && b[0] == c[0] {
        text_order_is_transitive(
            a.subrange(1, a.len() as int),
            b.subrange(1, b.len() as int),
            c.subrange(1, c.len() as int),
        );
    }
}

/// A sorted list of texts with `x` in its place, unless it is there already.
pub open spec fn inserted(s: Seq<Text>, x: Text) -> Seq<Text>
    decreases s.len(),
{
    if s.len() == 0 {
        seq![x]
    } else if s.last() == x {
        s
    } else if text_lt(s.last(), x) {
        s.push(x)
    } else {
        inserted(s.drop_last(), x).push(s.last())
    }
}

pub open spec fn sorted(s: Seq<Text>) -> bool {
    forall|i: int, j: int| 0 <= i < j < s.len() ==> text_lt(#[trigger] s[i], #[trigger] s[j])
}

proof fn lemma_inserted_at(s: Seq<Text>, x: Text, i: int)
    requires
        0 <= i <= s.len(),
        forall|j: int| i <= j < s.len() ==> s[j] != x && !text_lt(s[j], x),
        i == 0 || s[i - 1] == x || text_lt(s[i - 1], x),
    ensures
        inserted(s, x) == if i > 0 && s[i - 1] == x {
            s
        } else {
            s.insert(i, x)
        },
    decreases s.len(),
{
    if i < s.len() {
        lemma_inserted_at(s.drop_last(), x, i);
        if i > 0 && s[i - 1] == x {
            assert(s.drop_last().push(s.last()) =~= s);
        } else {
            assert(s.drop_last().insert(i, x).push(s.last()) =~= s.insert(i, x));
        }
    } else if s.len() > 0 {
        if s.last() != x {
            assert(s.push(x) =~= s.insert(i, x));
        }
    } else {
        assert(seq![x] =~= s.insert(0, x));
    }
}

/// Put `x` in its place in a sorted list, unless it is there already.
pub fn insert_sorted(v: &mut Vec<String>, x: String)
    ensures
        models(final(v)@) == inserted(models(old(v)@), x@),
{
    let ghost s = models(v@);
    let mut i: usize = v.len();
    while i > 0 && !(v[i - 1] == x) && !before(&v[i - 1], &x)
        invariant
            i <= v@.len(),
            s == models(v@),
            forall|j: int| i <= j < v@.len() ==> s[j] != x@ && !text_lt(s[j], x@),
        decreases i,
    {
        i = i - 1;
    }
    proof {
        if i > 0 {
            assert(s[i - 1] == v@[i - 1]@);
        }
        lemma_inserted_at(s, x@, i as int);
    }
    if i > 0 && v[i - 1] == x {
        return ;
    }
    v.insert(i, x);
    assert(models(v@) =~= s.insert(i as int, x@));
}

/// Inserting keeps a list sorted and adds exactly the new entry.
pub proof fn inserting_keeps_sorted(s: Seq<Text>, x: Text)
    requires
        sorted(s),
    ensures
        sorted(inserted(s, x)),
        forall|y: Text| #![trigger inserted(s, x).contains(y)] inserted(s, x).contains(y) <==> s.contains(y) || y == x,
    decreases s.len(),
{
    let r = inserted(s, x);
    if s.len() == 0 {
        assert(r[0] == x);
        assert forall|y: Text| #![trigger r.contains(y)] r.contains(y) <==> s.contains(y) || y == x by {
            if y == x {
                assert(r[0] == y);
            }
        }
    } else if s.last() == x {
        assert(s[s.len() - 1] == x);
    } else if text_lt(s.last(), x) {
        assert forall|i: int, j: int| 0 <= i < j < r.len() implies text_lt(#[trigger] r[i], #[trigger] r[j]) by {
            if j == s.len() {
                if i < s.len() - 1 {
                    text_order_is_transitive(s[i], s.last(), x);
                }
            }
        }
        assert forall|y: Text| #![trigger r.contains(y)] r.contains(y) <==> s.contains(y) || y == x by {
            if s.contains(y) {
                let k = choose|k: int| 0 <= k < s.len() && s[k] == y;
                assert(r[k] == y);
            }
            if y == x {
                assert(r[s.len() as int] == y);
            }
        }
    } else {
        let front = s.drop_last();
        let ins = inserted(front, x);
        inserting_keeps_sorted(front, x);
        text_order_is_total(x, s.last());
        assert forall|i: int, j: int| 0 <= i < j < r.len() implies text_lt(#[trigger] r[i], #[trigger] r[j]) by {
            if j == r.len() - 1 {
                assert(ins.contains(ins[i]));
                if ins[i] != x {
                    assert(front.contains(ins[i]));
                    let k = choose|k: int| 0 <= k < front.len() && front[k] == ins[i];
                    assert(s[k] == ins[i]);
                }
            }
        }
        assert forall|y: Text| #![trigger r.contains(y)] r.contains(y) <==> s.contains(y) || y == x by {
            if r.contains(y) {
                let k = choose|k: int| 0 <= k < r.len() && r[k] == y;
                if k < ins.len() {
                    assert(ins.contains(y));
                    if y != x {
                        assert(front.contains(y));
                        let m = choose|m: int| 0 <= m < front.len() && front[m] == y;
                        assert(s[m] == y);
                    }
                } else {
                    assert(s[s.len() - 1] == y);
                }
            }
            if s.contains(y) || y == x {
                if y == s.last() {
                    assert(r[r.len() - 1] == y);
                } else {
                    if y != x {
                        let m = choose|m: int| 0 <= m < s.len() && s[m] == y;
                        assert(front[m] == y);
                    }
                    assert(ins.contains(y));
                    let k = choose|k: int| 0 <= k < ins.len() && ins[k] == y;
                    assert(r[k] == y);
                }
            }
        }
    }
}

/// What stands behind a path segment is found from the end: digits behind `segment`, with or without a closing slash, are
/// what the text has behind that segment.
pub proof fn digits_stand_behind_their_segment(host: Text, segment: Text, digits: Text)
    requires
        segment.len() >= 2 && segment[0] == '/' && segment.last() == '/',
        segment[1] != '/' && !is_digit(segment[1]),
        forall|k: int| 0 < k < segment.len() - 1 ==> #[trigger] segment[k] != '/',
        digits.len() > 0 && all_digits(digits),
    ensures
        behind_text_spec(host + segment + digits, segment) == Some(digits),
        behind_text_spec(host + segment + digits + "/"@, segment) == Some(digits + "/"@),
        trim_end_of_spec(digits, "/"@) == digits,
        trim_end_of_spec(digits + "/"@, "/"@) == digits,
{
    reveal_strlit("/");
    let open = host + segment + digits;
    let closed = open + "/"@;
    let at = host.len() as int;
    let end = (host.len() + segment.len()) as int;
    assert(open.subrange(at, end) =~= segment);
    assert(closed.subrange(at, end) =~= segment);
    assert(open.subrange(end, open.len() as int) =~= digits);
    assert(closed.subrange(end, closed.len() as int) =~= digits + "/"@);
    assert(is_digit(digits[0]) && is_digit(digits.last()));
    assert forall|k: int| end <= k < end + digits.len() implies is_digit(#[trigger] open[k]) && is_digit(closed[k]) by {
        assert(open[k] == digits[k - end] && closed[k] == digits[k - end]);
    }
    lemma_behind_last(open, segment, at, open.len() - segment.len(), digits.len());
    lemma_behind_last(closed, segment, at, closed.len() - segment.len(), digits.len());
    assert(!"/"@.contains(digits.last()));
    assert((digits + "/"@).drop_last() =~= digits);
    assert((digits + "/"@).last() == "/"@[0]);
    assert("/"@.contains((digits + "/"@).last()));
    assert(trim_end_of_spec(digits, "/"@) == digits);
}

proof fn lemma_behind_last(s: Text, p: Text, i: int, at: int, digits: nat)
    requires
        0 <= i <= at,
        at + p.len() <= s.len(),
        p.len() >= 2 && p[0] == '/' && p.last() == '/' && !is_digit(p[1]) && p[1] != '/',
        forall|k: int| 0 < k < p.len() - 1 ==> #[trigger] p[k] != '/',
        digits > 0,
        s.subrange(i, (i + p.len()) as int) == p,
        i + p.len() + digits <= s.len() <= i + p.len() + digits + 1,
        forall|k: int| i + p.len() <= k < i + p.len() + digits ==> is_digit(#[trigger] s[k]),
    ensures
        behind_from(s, p, at) == Some(s.subrange((i + p.len()) as int, s.len() as int)),
    decreases at - i,
{
    if at > i {
        if occurs_at(s, p, at) {
            assert(s.subrange(at, (at + p.len()) as int)[0] == s[at]);
            assert(s.subrange(at, (at + p.len()) as int)[1] == s[at + 1]);
            if at < i + p.len() {
                assert(s.subrange(i, (i + p.len()) as int)[at - i] == s[at]);
                assert(p[at - i] == '/');
                assert(at - i == p.len() - 1);
                assert(is_digit(s[at + 1]));
            } else {
                assert(is_digit(s[at]));
            }
            assert(false);
        }
        lemma_behind_last(s, p, i, at - 1, digits);
    } else {
        assert(occurs_at(s, p, i));
    }
}

// ---- what trimming, splitting and lowering leave --------------------------------------------------------------------

/// Trimming takes the white space off both ends, all of it, and nothing else.
pub proof fn trimming_takes_the_white_ends(left: Text, kept: Text, right: Text)
    requires
        forall|i: int| 0 <= i < left.len() ==> is_white(#[trigger] left[i]),
        forall|i: int| 0 <= i < right.len() ==> is_white(#[trigger] right[i]),
        kept.len() > 0 && !is_white(kept[0]) && !is_white(kept.last()),
    ensures
        trim_start_spec(left + kept + right) == kept + right,
        trim_end_spec(left + kept + right) == left + kept,
        trim_spec(left + kept + right) == kept,
        trim_spec(left + right).len() == 0,
{
    lemma_trim_start(left, kept + right);
    assert(left + kept + right =~= left + (kept + right));
    lemma_trim_end(left + kept, right);
    lemma_trim_end(kept, right);
    lemma_trim_start(left, right);
    lemma_trim_all(right);
}

proof fn lemma_trim_start(left: Text, rest: Text)
    requires
        forall|i: int| 0 <= i < left.len() ==> is_white(#[trigger] left[i]),
    ensures
        trim_start_spec(left + rest) == trim_start_spec(rest),
    decreases left.len(),
{
    if left.len() == 0 {
        assert(left + rest =~= rest);
    } else {
        let fewer = left.subrange(1, left.len() as int);
        assert((left + rest)[0] == left[0]);
        assert((left + rest).subrange(1, (left + rest).len() as int) =~= fewer + rest);
        lemma_trim_start(fewer, rest);
    }
}

proof fn lemma_trim_end(rest: Text, right: Text)
    requires
        forall|i: int| 0 <= i < right.len() ==> is_white(#[trigger] right[i]),
        rest.len() > 0 && !is_white(rest.last()),
    ensures
        trim_end_spec(rest + right) == rest,
    decreases right.len(),
{
    if right.len() == 0 {
        assert(rest + right =~= rest);
    } else {
        assert((rest + right).last() == right[right.len() - 1]);
        assert((rest + right).drop_last() =~= rest + right.drop_last());
        lemma_trim_end(rest, right.drop_last());
    }
}

proof fn lemma_trim_all(s: Text)
    requires
        forall|i: int| 0 <= i < s.len() ==> is_white(#[trigger] s[i]),
    ensures
        trim_start_spec(s).len() == 0,
    decreases s.len(),
{
    if s.len() > 0 {
        assert(is_white(s[0]));
        lemma_trim_all(s.subrange(1, s.len() as int));
    }
}

/// Splitting loses nothing: the pieces joined again are the text, and no piece holds the separator.
pub proof fn splitting_is_undone_by_joining(s: Text, c: char)
    ensures
        join_spec(split_spec(s, c), seq![c]) == s,
        forall|i: int| 0 <= i < split_spec(s, c).len() ==> !(#[trigger] split_spec(s, c)[i]).contains(c),
    decreases s.len(),
{
    lemma_split_nonempty(s, c);
    if s.len() == 0 {
        assert(s =~= Seq::empty());
    } else {
        let shorter = s.drop_last();
        splitting_is_undone_by_joining(shorter, c);
        lemma_split_nonempty(shorter, c);
        let before = split_spec(shorter, c);
        let after = split_spec(s, c);
        if s.last() == c {
            assert(after.drop_last() =~= before);
            assert(join_spec(after, seq![c]) =~= join_spec(before, seq![c]) + seq![c] + Seq::<char>::empty());
            assert(shorter + seq![c] + Seq::<char>::empty() =~= s);
        } else {
            let longer = before.last().push(s.last());
            assert(after.drop_last() =~= before.drop_last());
            assert(after.last() == longer);
            if before.len() == 1 {
                assert(before[0].push(s.last()) =~= s);
            } else {
                assert(join_spec(before.drop_last(), seq![c]) + seq![c] + longer =~= (join_spec(before.drop_last(), seq![c])
                    + seq![c] + before.last()).push(s.last()));
                assert(shorter.push(s.last()) =~= s);
            }
            assert forall|i: int| 0 <= i < after.len() implies !(#[trigger] after[i]).contains(c) by {
                if i < after.len() - 1 {
                    assert(after[i] == before[i]);
                } else if after[i].contains(c) {
                    let k = choose|k: int| 0 <= k < longer.len() && longer[k] == c;
                    assert(before.last()[k] == c);
                    assert(!before[before.len() - 1].contains(c));
                }
            }
        }
    }
}

/// White space parts two words: those on its left come first, then those on its right. A run without any is one word.
pub proof fn white_space_parts_words(left: Text, between: char, right: Text)
    requires
        is_white(between),
    ensures
        words_spec(left.push(between) + right) == words_spec(left) + words_spec(right),
        (forall|i: int| 0 <= i < right.len() ==> !is_white(#[trigger] right[i])) && right.len() > 0 ==> words_spec(right)
            == seq![right],
{
    lemma_runs_apart(left, between, right);
    assert(words_spec(left) + runs(right).0 + open_run(runs(right).1) =~= words_spec(left) + words_spec(right));
    if (forall|i: int| 0 <= i < right.len() ==> !is_white(#[trigger] right[i])) && right.len() > 0 {
        lemma_whole_run(right);
        assert(words_spec(right) =~= seq![right]);
    }
}

proof fn lemma_runs_apart(left: Text, between: char, right: Text)
    requires
        is_white(between),
    ensures
        runs(left.push(between) + right).0 == words_spec(left) + runs(right).0,
        runs(left.push(between) + right).1 == runs(right).1,
    decreases right.len(),
{
    let whole = left.push(between) + right;
    if right.len() == 0 {
        assert(whole =~= left.push(between));
        assert(whole.drop_last() =~= left);
        assert(words_spec(left) + Seq::<Text>::empty() =~= words_spec(left));
    } else {
        lemma_runs_apart(left, between, right.drop_last());
        assert(whole.drop_last() =~= left.push(between) + right.drop_last());
        assert(whole.last() == right.last());
        let before = runs(right.drop_last());
        assert(words_spec(left) + before.0 + open_run(before.1) =~= words_spec(left) + (before.0 + open_run(before.1)));
    }
}

proof fn lemma_whole_run(s: Text)
    requires
        forall|i: int| 0 <= i < s.len() ==> !is_white(#[trigger] s[i]),
    ensures
        runs(s).0 == Seq::<Text>::empty() && runs(s).1 == s,
    decreases s.len(),
{
    if s.len() > 0 {
        assert(!is_white(s[s.len() - 1]));
        lemma_whole_run(s.drop_last());
        assert(s.drop_last().push(s.last()) =~= s);
    } else {
        assert(s =~= Seq::empty());
    }
}

/// A newline ends a line: what stands before it is a line, without a carriage return at its end, and the rest is read as it
/// would be by itself.
pub proof fn a_newline_ends_a_line(line: Text, rest: Text)
    requires
        !line.contains('\n'),
    ensures
        lines_spec(line + "\n"@ + rest) == seq![without_return(line)] + lines_spec(rest),
        lines_spec(Seq::empty()).len() == 0,
        line.len() > 0 ==> lines_spec(line) == seq![line],
{
    reveal_strlit("\n");
    let whole = line + "\n"@ + rest;
    lemma_split_ahead(line, '\n', rest);
    assert(line + seq!['\n'] + rest =~= whole);
    lemma_split_nonempty(rest, '\n');
    let pieces = split_spec(rest, '\n');
    assert(split_spec(whole, '\n') =~= seq![line] + pieces);
    assert((seq![line] + pieces).last() == pieces.last());
    assert(lines_spec(whole) =~= seq![without_return(line)] + lines_spec(rest));
    assert(split_spec(Seq::empty(), '\n').last().len() == 0);
    lemma_unsplit(line, '\n');
    assert(lines_spec(Seq::empty()) =~= Seq::empty());
    if line.len() > 0 {
        assert(lines_spec(line) =~= seq![line]);
    }
}

pub(crate) proof fn lemma_unsplit(s: Text, c: char)
    requires
        !s.contains(c),
    ensures
        split_spec(s, c) == seq![s],
    decreases s.len(),
{
    if s.len() > 0 {
        assert(s[s.len() - 1] != c);
        if s.drop_last().contains(c) {
            let k = choose|k: int| 0 <= k < s.len() - 1 && s.drop_last()[k] == c;
            assert(s[k] == c);
        }
        lemma_unsplit(s.drop_last(), c);
        assert(s.drop_last().push(s.last()) =~= s);
        assert(split_spec(s, c) =~= seq![s]);
    } else {
        assert(s =~= Seq::empty());
    }
}

pub(crate) proof fn lemma_split_ahead(first: Text, c: char, rest: Text)
    requires
        !first.contains(c),
    ensures
        split_spec(first + seq![c] + rest, c) == seq![first] + split_spec(rest, c),
    decreases rest.len(),
{
    let whole = first + seq![c] + rest;
    lemma_split_nonempty(rest, c);
    if rest.len() == 0 {
        lemma_unsplit(first, c);
        assert(whole.drop_last() =~= first);
        assert(whole.last() == c);
        assert(split_spec(whole, c) =~= seq![first] + split_spec(rest, c));
    } else {
        let shorter = rest.drop_last();
        lemma_split_ahead(first, c, shorter);
        lemma_split_nonempty(shorter, c);
        assert(whole.drop_last() =~= first + seq![c] + shorter);
        assert(whole.last() == rest.last());
        assert(split_spec(whole, c) =~= seq![first] + split_spec(rest, c));
    }
}

/// Lowering changes ASCII capitals only, each to its small letter; what is lowered stays as it is.
pub proof fn lowering_changes_capitals_only(s: Text, i: int)
    requires
        0 <= i < s.len(),
    ensures
        ascii_lowered(s).len() == s.len(),
        !('A' <= s[i] <= 'Z') ==> ascii_lowered(s)[i] == s[i],
        'A' <= s[i] <= 'Z' ==> 'a' <= ascii_lowered(s)[i] <= 'z' && (ascii_lowered(s)[i] as u32) - (s[i] as u32) == 32,
        ascii_lowered(ascii_lowered(s)) == ascii_lowered(s),
{
    assert(ascii_lowered(ascii_lowered(s)) =~= ascii_lowered(s));
}

/// Texts are ordered by the first character in which they differ; one that the other goes on from comes before it.
pub proof fn the_first_difference_orders(common: Text, a: char, b: char, left: Text, right: Text)
    requires
        a < b,
    ensures
        text_lt(common.push(a) + left, common.push(b) + right),
        text_lt(common, common.push(a) + left),
    decreases common.len(),
{
    let s = common.push(a) + left;
    let t = common.push(b) + right;
    if common.len() == 0 {
        assert(s[0] == a && t[0] == b);
    } else {
        let more = common.subrange(1, common.len() as int);
        the_first_difference_orders(more, a, b, left, right);
        assert(s[0] == common[0] && t[0] == common[0]);
        assert(s.subrange(1, s.len() as int) =~= more.push(a) + left);
        assert(t.subrange(1, t.len() as int) =~= more.push(b) + right);
    }
}

} // verus!
