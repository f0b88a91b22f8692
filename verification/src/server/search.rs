//! The filter bar's query grammar: a comma-separated conjunction of terms over the board's tickets and epics.
//!
//! A fragment is either a bare phrase searched across a ticket's user-facing text, or a `key: value` term narrowing one
//! field. Everything is case-insensitive, and terms combine by conjunction only. Parsing never fails: anything the grammar
//! does not recognise degrades to a free-text phrase.
use vstd::prelude::*;

use crate::seqs::{models, opt_model};
use crate::store::derive::{EpicView, EpicViewModel, TicketView, TicketViewModel};
use crate::store::model::{ColumnId, ColumnModel, ExternalModel, PrModel, Status, Ticket, TicketModel};
use crate::text::{
    chars, concat4, concat5, contains, decimal, has_prefix, has_text, is_white, lower, lowered, same, split_once, split_once_spec,
    starts_with, strip_prefix, strip_prefix_spec, strip_suffix, strip_suffix_spec, to_decimal, trim, trim_end_spec, trim_spec,
    trim_start_spec, Text,
};

verus! {

broadcast use crate::seqs::group_models;

/// One term of a query.
#[derive(Debug, PartialEq)]
pub enum Term {
    /// A phrase searched across the ticket's user-facing text.
    Text(String),
    Label(String),
    Epic(String),
    /// Filed under no epic.
    NoEpic,
    Id(String),
    Note(String),
    Status(Status),
    Column(ColumnId),
    /// Done and not discarded.
    Landed(bool),
    Discarded(bool),
    Blocked(bool),
    /// May land without a human seeing the merge, by its own grant or its epic's.
    AutoMerge(bool),
    ChangesRequested(bool),
}

pub enum TermModel {
    Text(Text),
    Label(Text),
    Epic(Text),
    NoEpic,
    Id(Text),
    Note(Text),
    Status(Status),
    Column(ColumnId),
    Landed(bool),
    Discarded(bool),
    Blocked(bool),
    AutoMerge(bool),
    ChangesRequested(bool),
}

impl View for Term {
    type V = TermModel;

    open spec fn view(&self) -> TermModel {
        match *self {
            Term::Text(p) => TermModel::Text(p@),
            Term::Label(p) => TermModel::Label(p@),
            Term::Epic(p) => TermModel::Epic(p@),
            Term::NoEpic => TermModel::NoEpic,
            Term::Id(p) => TermModel::Id(p@),
            Term::Note(p) => TermModel::Note(p@),
            Term::Status(s) => TermModel::Status(s),
            Term::Column(c) => TermModel::Column(c),
            Term::Landed(want) => TermModel::Landed(want),
            Term::Discarded(want) => TermModel::Discarded(want),
            Term::Blocked(want) => TermModel::Blocked(want),
            Term::AutoMerge(want) => TermModel::AutoMerge(want),
            Term::ChangesRequested(want) => TermModel::ChangesRequested(want),
        }
    }
}

/// A parsed search query: a conjunction of terms.
#[derive(Debug)]
pub struct Query {
    pub terms: Vec<Term>,
}

// ---- parsing --------------------------------------------------------------------------------------------------------

/// The pieces between commas outside double quotes: those finished, the one that reaches the end, and whether that end is
/// inside quotes.
pub open spec fn cut(s: Text) -> (Seq<Text>, Text, bool)
    decreases s.len(),
{
    if s.len() == 0 {
        (Seq::empty(), Seq::empty(), false)
    } else {
        let (done, piece, quoted) = cut(s.drop_last());
        if s.last() == '"' {
            (done, piece.push('"'), !quoted)
        } else if s.last() == ',' && !quoted {
            (done.push(piece), Seq::empty(), quoted)
        } else {
            (done, piece.push(s.last()), quoted)
        }
    }
}

/// The pieces without white space around them, blank ones dropped.
pub open spec fn nonblank(pieces: Seq<Text>) -> Seq<Text>
    decreases pieces.len(),
{
    if pieces.len() == 0 {
        Seq::empty()
    } else {
        let before = nonblank(pieces.drop_last());
        let piece = trim_spec(pieces.last());
        if piece.len() == 0 {
            before
        } else {
            before.push(piece)
        }
    }
}

/// The fragments of a query: split at the commas outside double quotes, trimmed, blank ones dropped.
pub open spec fn fragments_spec(raw: Text) -> Seq<Text> {
    nonblank(cut(raw).0.push(cut(raw).1))
}

/// The text inside one layer of double quotes, when the text wears them.
pub open spec fn unquoted(s: Text) -> Option<Text> {
    match strip_prefix_spec(s, "\""@) {
        Some(rest) => strip_suffix_spec(rest, "\""@),
        None => None,
    }
}

/// What to search for: trimmed, in lower case, never empty.
pub open spec fn needle_spec(s: Text) -> Option<Text> {
    let n = lowered(trim_spec(s));
    if n.len() == 0 {
        None
    } else {
        Some(n)
    }
}

/// A status by name, or by any prefix of one; the first in workflow order wins.
pub open spec fn status_spec(v: Text) -> Option<Status> {
    if has_prefix("draft"@, v) {
        Some(Status::Draft)
    } else if has_prefix("stub"@, v) {
        Some(Status::Stub)
    } else if has_prefix("review"@, v) {
        Some(Status::Review)
    } else if has_prefix("ready"@, v) {
        Some(Status::Ready)
    } else {
        None
    }
}

pub open spec fn boolean_spec(v: Text) -> Option<bool> {
    if v == "true"@ || v == "yes"@ || v == "y"@ || v == "1"@ || v == "on"@ {
        Some(true)
    } else if v == "false"@ || v == "no"@ || v == "n"@ || v == "0"@ || v == "off"@ {
        Some(false)
    } else {
        None
    }
}

/// The term a key makes of a needle. `None` for an unknown key, and for a value the key cannot take.
pub open spec fn keyed_spec(key: Text, v: Text) -> Option<TermModel> {
    if key == "text"@ {
        Some(TermModel::Text(v))
    } else if key == "label"@ {
        Some(TermModel::Label(v))
    } else if key == "epic"@ {
        if v == "none"@ || v == "null"@ {
            Some(TermModel::NoEpic)
        } else {
            Some(TermModel::Epic(v))
        }
    } else if key == "id"@ {
        Some(TermModel::Id(v))
    } else if key == "note"@ {
        Some(TermModel::Note(v))
    } else if key == "status"@ {
        match status_spec(v) {
            Some(s) => Some(TermModel::Status(s)),
            None => None,
        }
    } else if key == "col"@ || key == "column"@ {
        match ColumnId::named(v) {
            Some(c) => Some(TermModel::Column(c)),
            None => None,
        }
    } else {
        match boolean_spec(v) {
            None => None,
            Some(want) => if key == "landed"@ {
                Some(TermModel::Landed(want))
            } else if key == "discarded"@ {
                Some(TermModel::Discarded(want))
            } else if key == "blocked"@ {
                Some(TermModel::Blocked(want))
            } else if key == "auto-merge"@ {
                Some(TermModel::AutoMerge(want))
            } else if key == "changes-requested"@ {
                Some(TermModel::ChangesRequested(want))
            } else {
                None
            },
        }
    }
}

/// A free-text term, when there is anything to search for.
pub open spec fn phrase(s: Text) -> Option<TermModel> {
    match needle_spec(s) {
        Some(n) => Some(TermModel::Text(n)),
        None => None,
    }
}

/// The term a fragment stands for. One wrapped in quotes is free text; a known key before the first colon with a value it
/// can take makes a keyed term; anything else is free text.
pub open spec fn term_spec(f: Text) -> Option<TermModel> {
    match unquoted(f) {
        Some(inner) => phrase(inner),
        None => match split_once_spec(f, ':') {
            None => phrase(f),
            Some(kv) => {
                let value = trim_spec(kv.1);
                let inner = match unquoted(value) {
                    Some(v) => v,
                    None => value,
                };
                match needle_spec(inner) {
                    None => phrase(f),
                    Some(n) => match keyed_spec(lowered(trim_spec(kv.0)), n) {
                        Some(t) => Some(t),
                        None => phrase(f),
                    },
                }
            },
        },
    }
}

/// The terms that some fragments stand for, in order.
pub open spec fn terms_spec(fs: Seq<Text>) -> Seq<TermModel>
    decreases fs.len(),
{
    if fs.len() == 0 {
        Seq::empty()
    } else {
        let before = terms_spec(fs.drop_last());
        match term_spec(fs.last()) {
            Some(t) => before.push(t),
            None => before,
        }
    }
}

/// The terms of a raw query.
pub open spec fn query_spec(raw: Text) -> Seq<TermModel> {
    terms_spec(fragments_spec(raw))
}

/// Split on the commas outside double quotes, trim, and drop what is blank.
pub fn fragments(raw: &str) -> (r: Vec<String>)
    ensures
        models(r@) == fragments_spec(raw@),
{
    let v: Vec<char> = chars(raw);
    let mut pieces: Vec<String> = Vec::new();
    let mut piece: String = String::new();
    let mut quoted: bool = false;
    let mut i: usize = 0;
    assert(models(pieces@) =~= cut(raw@.take(0)).0);
    assert(piece@ =~= cut(raw@.take(0)).1);
    while i < v.len()
        invariant
            v@ == raw@,
            i <= v@.len(),
            cut(raw@.take(i as int)) == (models(pieces@), piece@, quoted),
        decreases v@.len() - i,
    {
        proof {
            assert(raw@.take(i + 1).drop_last() =~= raw@.take(i as int));
            assert(raw@.take(i + 1).last() == v@[i as int]);
        }
        let c: char = v[i];
        if c == '"' {
            quoted = !quoted;
            piece.push(c);
        } else if c == ',' && !quoted {
            pieces.push(piece);
            piece = String::new();
            assert(piece@ =~= Seq::<char>::empty());
        } else {
            piece.push(c);
        }
        i = i + 1;
    }
    assert(raw@.take(raw@.len() as int) =~= raw@);
    pieces.push(piece);
    let ghost all = models(pieces@);
    let mut out: Vec<String> = Vec::new();
    let mut k: usize = 0;
    while k < pieces.len()
        invariant
            all == models(pieces@),
            k <= pieces@.len(),
            models(out@) == nonblank(all.take(k as int)),
        decreases pieces@.len() - k,
    {
        proof {
            assert(all.take(k + 1).drop_last() =~= all.take(k as int));
            assert(all.take(k + 1).last() == pieces@[k as int]@);
        }
        let trimmed: String = trim(&pieces[k]);
        if !trimmed.as_str().is_empty() {
            out.push(trimmed);
        }
        k = k + 1;
    }
    assert(all.take(all.len() as int) =~= all);
    out
}

/// Strip one layer of surrounding double quotes, if the string wears them.
fn unquote(s: &str) -> (r: Option<String>)
    ensures
        opt_model(r) == unquoted(s@),
{
    match strip_prefix(s, "\"") {
        Some(rest) => strip_suffix(&rest, "\""),
        None => None,
    }
}

/// A lower-case, non-empty needle. Empty needles are never stored: a term that matches everything would make a query that
/// hides nothing look like a filter.
fn needle(s: &str) -> (r: Option<String>)
    ensures
        opt_model(r) == needle_spec(s@),
{
    let n: String = lower(&trim(s));
    if n.as_str().is_empty() {
        None
    } else {
        Some(n)
    }
}

/// A status by name or prefix, from a needle.
pub fn status(v: &str) -> (r: Option<Status>)
    ensures
        r == status_spec(v@),
{
    if starts_with("draft", v) {
        Some(Status::Draft)
    } else if starts_with("stub", v) {
        Some(Status::Stub)
    } else if starts_with("review", v) {
        Some(Status::Review)
    } else if starts_with("ready", v) {
        Some(Status::Ready)
    } else {
        None
    }
}

/// A boolean, from a needle.
pub fn boolean(v: &str) -> (r: Option<bool>)
    ensures
        r == boolean_spec(v@),
{
    if same(v, "true") || same(v, "yes") || same(v, "y") || same(v, "1") || same(v, "on") {
        Some(true)
    } else if same(v, "false") || same(v, "no") || same(v, "n") || same(v, "0") || same(v, "off") {
        Some(false)
    } else {
        None
    }
}

/// The term a lower-case key makes of a needle.
pub fn keyed(key: &str, value: String) -> (r: Option<Term>)
    ensures
        opt_model(r) == keyed_spec(key@, value@),
{
    if same(key, "text") {
        return Some(Term::Text(value));
    }
    if same(key, "label") {
        return Some(Term::Label(value));
    }
    if same(key, "epic") {
        if same(&value, "none") || same(&value, "null") {
            return Some(Term::NoEpic);
        }
        return Some(Term::Epic(value));
    }
    if same(key, "id") {
        return Some(Term::Id(value));
    }
    if same(key, "note") {
        return Some(Term::Note(value));
    }
    if same(key, "status") {
        return match status(&value) {
            Some(s) => Some(Term::Status(s)),
            None => None,
        };
    }
    if same(key, "col") || same(key, "column") {
        return match ColumnId::parse(&value) {
            Ok(c) => Some(Term::Column(c)),
            Err(_) => None,
        };
    }
    let want: bool = match boolean(&value) {
        Some(b) => b,
        None => return None,
    };
    if same(key, "landed") {
        Some(Term::Landed(want))
    } else if same(key, "discarded") {
        Some(Term::Discarded(want))
    } else if same(key, "blocked") {
        Some(Term::Blocked(want))
    } else if same(key, "auto-merge") {
        Some(Term::AutoMerge(want))
    } else if same(key, "changes-requested") {
        Some(Term::ChangesRequested(want))
    } else {
        None
    }
}

fn free_phrase(s: &str) -> (r: Option<Term>)
    ensures
        opt_model(r) == phrase(s@),
{
    match needle(s) {
        Some(n) => Some(Term::Text(n)),
        None => None,
    }
}

/// One fragment as a term, or `None` when it carries nothing to search for.
pub fn term(fragment: &str) -> (r: Option<Term>)
    ensures
        opt_model(r) == term_spec(fragment@),
{
    match unquote(fragment) {
        Some(inner) => return free_phrase(&inner),
        None => {},
    }
    match split_once(fragment, ':') {
        None => free_phrase(fragment),
        Some(kv) => {
            let (key, value) = kv;
            let value: String = trim(&value);
            let inner: String = match unquote(&value) {
                Some(v) => v,
                None => value,
            };
            match needle(&inner) {
                None => free_phrase(fragment),
                Some(n) => {
                    let key: String = lower(&trim(&key));
                    match keyed(&key, n) {
                        Some(t) => Some(t),
                        None => free_phrase(fragment),
                    }
                },
            }
        },
    }
}

// ---- matching -------------------------------------------------------------------------------------------------------

/// `needle`, already in lower case, stands in `haystack`, whatever the case there.
pub open spec fn mentions(haystack: Text, needle: Text) -> bool {
    has_text(lowered(haystack), needle)
}

/// Some text of the list mentions the needle.
pub open spec fn any_mentions(list: Seq<Text>, needle: Text) -> bool {
    exists|i: int| 0 <= i < list.len() && mentions(#[trigger] list[i], needle)
}

/// A binding as a reader sees it: `github issue#42`.
pub open spec fn external_text(e: ExternalModel) -> Text {
    e.provider + " "@ + e.kind + "#"@ + decimal(e.number as nat)
}

/// A pull request as a phrase finds it: `#7 https://…`.
pub open spec fn pr_text(pr: PrModel) -> Text {
    "#"@ + decimal(pr.number as nat) + " "@ + pr.url
}

/// The text a bare phrase searches: id, title, body, labels, branch, binding and pull request. Not the notes.
pub open spec fn free_text_spec(p: Text, t: TicketModel) -> bool {
    ||| mentions(t.id, p)
    ||| mentions(t.title, p)
    ||| mentions(t.body, p)
    ||| any_mentions(t.labels, p)
    ||| (t.column.branch() matches Some(b) && mentions(b, p))
    ||| (t.external matches Some(e) && mentions(external_text(e), p))
    ||| (t.pr matches Some(pr) && mentions(pr_text(pr), p))
}

/// Some epic called `id` has a title that mentions `p`.
pub open spec fn epic_titled(epics: Seq<EpicViewModel>, id: Text, p: Text) -> bool {
    exists|i: int| 0 <= i < epics.len() && (#[trigger] epics[i]).epic.id == id && mentions(epics[i].epic.title, p)
}

/// The ticket's epic answers to `p`, by id or by title.
pub open spec fn epic_named_spec(p: Text, t: TicketModel, epics: Seq<EpicViewModel>) -> bool {
    t.epic matches Some(id) && (mentions(id, p) || epic_titled(epics, id, p))
}

/// Some note mentions the needle.
pub open spec fn noted_spec(p: Text, t: TicketModel) -> bool {
    exists|i: int| 0 <= i < t.notes.len() && mentions((#[trigger] t.notes[i]).text, p)
}

/// The ticket satisfies the term.
pub open spec fn admits_ticket_spec(term: TermModel, t: TicketViewModel, epics: Seq<EpicViewModel>) -> bool {
    match term {
        TermModel::Text(p) => free_text_spec(p, t.ticket),
        TermModel::Label(p) => any_mentions(t.ticket.labels, p),
        TermModel::Epic(p) => epic_named_spec(p, t.ticket, epics),
        TermModel::NoEpic => t.ticket.epic is None,
        TermModel::Id(p) => mentions(t.ticket.id, p),
        TermModel::Note(p) => noted_spec(p, t.ticket),
        TermModel::Status(s) => t.ticket.status == s,
        TermModel::Column(c) => t.ticket.column.id() == c,
        TermModel::Landed(want) => t.ticket.column.landed() == want,
        TermModel::Discarded(want) => (t.ticket.column is Done && !t.ticket.column.landed()) == want,
        TermModel::Blocked(want) => t.blocked == want,
        TermModel::AutoMerge(want) => t.auto_merge_effective == want,
        TermModel::ChangesRequested(want) => t.ticket.changes_requested == want,
    }
}

/// The epic satisfies the term. A term that only a ticket can satisfy excludes every epic.
pub open spec fn admits_epic_spec(term: TermModel, e: EpicViewModel) -> bool {
    match term {
        TermModel::Text(p) => mentions(e.epic.id, p) || mentions(e.epic.title, p) || mentions(e.epic.body, p),
        TermModel::Epic(p) => mentions(e.epic.id, p) || mentions(e.epic.title, p),
        TermModel::Status(s) => e.epic.status == s,
        _ => false,
    }
}

/// The ticket satisfies every term.
pub open spec fn admitted(terms: Seq<TermModel>, t: TicketViewModel, epics: Seq<EpicViewModel>) -> bool {
    forall|i: int| 0 <= i < terms.len() ==> admits_ticket_spec(#[trigger] terms[i], t, epics)
}

/// The epic satisfies every term.
pub open spec fn epic_admitted(terms: Seq<TermModel>, e: EpicViewModel) -> bool {
    forall|i: int| 0 <= i < terms.len() ==> admits_epic_spec(#[trigger] terms[i], e)
}

/// Substring match against a lower-case needle.
fn mentioned(haystack: &str, needle: &str) -> (r: bool)
    ensures
        r == mentions(haystack@, needle@),
{
    contains(&lower(haystack), needle)
}

fn any_mentioned(list: &Vec<String>, needle: &str) -> (r: bool)
    ensures
        r == any_mentions(models(list@), needle@),
{
    let ghost all = models(list@);
    let mut i: usize = 0;
    while i < list.len()
        invariant
            all == models(list@),
            i <= list@.len(),
            forall|j: int| 0 <= j < i ==> !mentions(#[trigger] all[j], needle@),
        decreases list@.len() - i,
    {
        if mentioned(&list[i], needle) {
            assert(mentions(all[i as int], needle@));
            return true;
        }
        i = i + 1;
    }
    false
}

/// A binding as a reader sees it.
pub fn render_external(e: &crate::store::model::External) -> (r: String)
    ensures
        r@ == external_text(e@),
{
    concat5(&e.provider, " ", &e.kind, "#", &to_decimal(e.number))
}

fn free_text(p: &str, t: &Ticket) -> (r: bool)
    ensures
        r == free_text_spec(p@, t@),
{
    if mentioned(&t.id.0, p) || mentioned(&t.title, p) || mentioned(&t.body, p) || any_mentioned(&t.labels, p) {
        return true;
    }
    if let Some(b) = t.column.branch() {
        if mentioned(b, p) {
            return true;
        }
    }
    if let Some(e) = &t.external {
        if mentioned(&render_external(e), p) {
            return true;
        }
    }
    if let Some(pr) = &t.pr {
        if mentioned(&concat4("#", &to_decimal(pr.number), " ", &pr.url), p) {
            return true;
        }
    }
    false
}

fn epic_named(p: &str, t: &Ticket, epics: &[EpicView]) -> (r: bool)
    ensures
        r == epic_named_spec(p@, t@, models(epics@)),
{
    let id: &crate::store::model::EpicId = match &t.epic {
        Some(id) => id,
        None => return false,
    };
    if mentioned(&id.0, p) {
        return true;
    }
    let ghost all = models(epics@);
    let mut i: usize = 0;
    while i < epics.len()
        invariant
            all == models(epics@),
            t@.epic == Some(id@),
            i <= epics@.len(),
            forall|j: int| 0 <= j < i ==> !((#[trigger] all[j]).epic.id == id@ && mentions(all[j].epic.title, p@)),
        decreases epics@.len() - i,
    {
        if epics[i].epic.id.same(id) && mentioned(&epics[i].epic.title, p) {
            assert(all[i as int] == epics@[i as int]@);
            assert(epic_titled(all, id@, p@));
            return true;
        }
        i = i + 1;
    }
    false
}

fn noted(p: &str, t: &Ticket) -> (r: bool)
    ensures
        r == noted_spec(p@, t@),
{
    let ghost all = t@.notes;
    let mut i: usize = 0;
    while i < t.notes.len()
        invariant
            all == models(t.notes@),
            i <= t.notes@.len(),
            forall|j: int| 0 <= j < i ==> !mentions((#[trigger] all[j]).text, p@),
        decreases t.notes@.len() - i,
    {
        if mentioned(&t.notes[i].text, p) {
            assert(mentions(all[i as int].text, p@));
            return true;
        }
        i = i + 1;
    }
    false
}

fn admits_ticket(term: &Term, t: &TicketView, epics: &[EpicView]) -> (r: bool)
    ensures
        r == admits_ticket_spec(term@, t@, models(epics@)),
{
    match term {
        Term::Text(p) => free_text(p, &t.ticket),
        Term::Label(p) => any_mentioned(&t.ticket.labels, p),
        Term::Epic(p) => epic_named(p, &t.ticket, epics),
        Term::NoEpic => t.ticket.epic.is_none(),
        Term::Id(p) => mentioned(&t.ticket.id.0, p),
        Term::Note(p) => noted(p, &t.ticket),
        Term::Status(s) => t.ticket.status == *s,
        Term::Column(c) => t.ticket.column.id() == *c,
        Term::Landed(want) => t.ticket.column.landed() == *want,
        Term::Discarded(want) => (t.ticket.column.id() == ColumnId::Done && !t.ticket.column.landed()) == *want,
        Term::Blocked(want) => t.blocked == *want,
        Term::AutoMerge(want) => t.auto_merge_effective == *want,
        Term::ChangesRequested(want) => t.ticket.changes_requested == *want,
    }
}

fn admits_epic(term: &Term, e: &EpicView) -> (r: bool)
    ensures
        r == admits_epic_spec(term@, e@),
{
    match term {
        Term::Text(p) => mentioned(&e.epic.id.0, p) || mentioned(&e.epic.title, p) || mentioned(&e.epic.body, p),
        Term::Epic(p) => mentioned(&e.epic.id.0, p) || mentioned(&e.epic.title, p),
        Term::Status(s) => e.epic.status == *s,
        _ => false,
    }
}

impl Query {
    /// Parse a raw query string. Never fails; a blank query yields no terms.
    pub fn parse(raw: &str) -> (r: Query)
        ensures
            models(r.terms@) == query_spec(raw@),
    {
        let pieces: Vec<String> = fragments(raw);
        let ghost all = models(pieces@);
        let mut terms: Vec<Term> = Vec::new();
        let mut i: usize = 0;
        while i < pieces.len()
            invariant
                all == models(pieces@),
                i <= pieces@.len(),
                models(terms@) == terms_spec(all.take(i as int)),
            decreases pieces@.len() - i,
        {
            proof {
                assert(all.take(i + 1).drop_last() =~= all.take(i as int));
                assert(all.take(i + 1).last() == pieces@[i as int]@);
            }
            if let Some(t) = term(&pieces[i]) {
                terms.push(t);
            }
            i = i + 1;
        }
        assert(all.take(all.len() as int) =~= all);
        Query { terms }
    }

    /// Whether this query has no terms, and so hides nothing.
    pub fn is_empty(&self) -> (r: bool)
        ensures
            r == (self.terms@.len() == 0),
    {
        self.terms.len() == 0
    }

    /// Whether a ticket satisfies every term. `epics` resolves `epic:`, which matches the epic's title too.
    pub fn matches(&self, t: &TicketView, epics: &[EpicView]) -> (r: bool)
        ensures
            r == admitted(models(self.terms@), t@, models(epics@)),
    {
        let ghost all = models(self.terms@);
        let mut i: usize = 0;
        while i < self.terms.len()
            invariant
                all == models(self.terms@),
                i <= self.terms@.len(),
                forall|j: int| 0 <= j < i ==> admits_ticket_spec(#[trigger] all[j], t@, models(epics@)),
            decreases self.terms@.len() - i,
        {
            if !admits_ticket(&self.terms[i], t, epics) {
                assert(!admits_ticket_spec(all[i as int], t@, models(epics@)));
                return false;
            }
            i = i + 1;
        }
        true
    }

    /// Whether an epic satisfies every term.
    pub fn matches_epic(&self, e: &EpicView) -> (r: bool)
        ensures
            r == epic_admitted(models(self.terms@), e@),
    {
        let ghost all = models(self.terms@);
        let mut i: usize = 0;
        while i < self.terms.len()
            invariant
                all == models(self.terms@),
                i <= self.terms@.len(),
                forall|j: int| 0 <= j < i ==> admits_epic_spec(#[trigger] all[j], e@),
            decreases self.terms@.len() - i,
        {
            if !admits_epic(&self.terms[i], e) {
                assert(!admits_epic_spec(all[i as int], e@));
                return false;
            }
            i = i + 1;
        }
        true
    }
}

// ---- laws -----------------------------------------------------------------------------------------------------------

/// The needle of a term is not empty.
pub open spec fn has_needle(t: TermModel) -> bool {
    match t {
        TermModel::Text(p) => p.len() > 0,
        TermModel::Label(p) => p.len() > 0,
        TermModel::Epic(p) => p.len() > 0,
        TermModel::Id(p) => p.len() > 0,
        TermModel::Note(p) => p.len() > 0,
        _ => true,
    }
}

proof fn lemma_terms_have_needles(fs: Seq<Text>)
    ensures
        forall|i: int| 0 <= i < terms_spec(fs).len() ==> has_needle(#[trigger] terms_spec(fs)[i]),
    decreases fs.len(),
{
    if fs.len() > 0 {
        lemma_terms_have_needles(fs.drop_last());
        let before = terms_spec(fs.drop_last());
        let all = terms_spec(fs);
        assert forall|i: int| 0 <= i < all.len() implies has_needle(#[trigger] all[i]) by {
            if i < before.len() {
                assert(all[i] == before[i]);
            } else {
                assert(Some(all[i]) == term_spec(fs.last()));
            }
        }
    }
}

/// No query ever stores a term with an empty needle.
pub proof fn needles_are_never_empty(raw: Text)
    ensures
        forall|i: int| 0 <= i < query_spec(raw).len() ==> has_needle(#[trigger] query_spec(raw)[i]),
{
    lemma_terms_have_needles(fragments_spec(raw));
}

/// A ticket nothing was written on, as readers see it.
pub open spec fn blank_ticket(blocked: bool, auto_merge: bool, epic: Option<Text>, column: ColumnModel, status: Status, sent_back: bool) -> TicketViewModel {
    TicketViewModel {
        ticket: TicketModel {
            column,
            auto_merge,
            changes_requested: sent_back,
            ..crate::ops::new_ticket(
                Seq::empty(),
                Seq::empty(),
                epic,
                status,
                Seq::empty(),
                Seq::empty(),
                None,
                None,
                auto_merge,
                Seq::empty(),
            )
        },
        blocked,
        auto_merge_effective: auto_merge,
        claim: None,
    }
}

/// A query parses to no terms exactly when it admits every ticket, so a board is filtered exactly when something may be
/// hidden.
pub proof fn a_query_is_empty_iff_it_hides_nothing(raw: Text)
    ensures
        query_spec(raw).len() == 0 <==> forall|t: TicketViewModel, epics: Seq<EpicViewModel>|
            #[trigger] admitted(query_spec(raw), t, epics),
        query_spec(raw).len() == 0 ==> forall|e: EpicViewModel| #[trigger] epic_admitted(query_spec(raw), e),
{
    let terms = query_spec(raw);
    if terms.len() > 0 {
        needles_are_never_empty(raw);
        let term = terms[0];
        assert(has_needle(term));
        let none = Seq::<EpicViewModel>::empty();
        let done = |discarded: bool| ColumnModel::Done {
            branch: None,
            completed_at: crate::time::Timestamp { secs: 0, nanos: 0 },
            discarded,
        };
        let t = match term {
            TermModel::NoEpic => blank_ticket(false, false, Some(Seq::empty()), ColumnModel::Todo, Status::Ready, false),
            TermModel::Status(s) => blank_ticket(
                false,
                false,
                None,
                ColumnModel::Todo,
                if s == Status::Ready {
                    Status::Draft
                } else {
                    Status::Ready
                },
                false,
            ),
            TermModel::Column(c) => blank_ticket(
                false,
                false,
                None,
                if c == ColumnId::Todo {
                    done(false)
                } else {
                    ColumnModel::Todo
                },
                Status::Ready,
                false,
            ),
            TermModel::Landed(want) => blank_ticket(false, false, None, done(want), Status::Ready, false),
            TermModel::Discarded(want) => blank_ticket(false, false, None, done(!want), Status::Ready, false),
            TermModel::Blocked(want) => blank_ticket(!want, false, None, ColumnModel::Todo, Status::Ready, false),
            TermModel::AutoMerge(want) => blank_ticket(false, !want, None, ColumnModel::Todo, Status::Ready, false),
            TermModel::ChangesRequested(want) => blank_ticket(
                false,
                false,
                None,
                ColumnModel::Todo,
                Status::Ready,
                !want,
            ),
            _ => blank_ticket(false, false, None, ColumnModel::Todo, Status::Ready, false),
        };
        assert forall|p: Text| p.len() > 0 implies !#[trigger] mentions(Seq::<char>::empty(), p) by {
            if has_text(Seq::<char>::empty(), p) {
                let i = choose|i: int| crate::text::occurs_at(Seq::<char>::empty(), p, i);
                assert(false);
            }
        }
        assert(!admits_ticket_spec(term, t, none));
        assert(!admitted(terms, t, none));
    }
}

/// Terms combine by conjunction: more terms admit no more tickets.
pub proof fn terms_only_narrow(terms: Seq<TermModel>, more: Seq<TermModel>, t: TicketViewModel, epics: Seq<EpicViewModel>)
    ensures
        admitted(terms + more, t, epics) <==> admitted(terms, t, epics) && admitted(more, t, epics),
{
    let all = terms + more;
    if admitted(all, t, epics) {
        assert forall|i: int| 0 <= i < terms.len() implies admits_ticket_spec(#[trigger] terms[i], t, epics) by {
            assert(all[i] == terms[i]);
        }
        assert forall|i: int| 0 <= i < more.len() implies admits_ticket_spec(#[trigger] more[i], t, epics) by {
            assert(all[terms.len() + i] == more[i]);
        }
    }
}

/// Only white space.
pub open spec fn blank(s: Text) -> bool {
    forall|i: int| 0 <= i < s.len() ==> is_white(#[trigger] s[i])
}

/// Something to search for, spelled without commas and double quotes and without white space at either end.
pub open spec fn plain(s: Text) -> bool {
    &&& s.len() > 0 && !is_white(s[0]) && !is_white(s.last())
    &&& forall|i: int| 0 <= i < s.len() ==> #[trigger] s[i] != ',' && s[i] != '"'
}

proof fn lemma_trim_start(a: Text, x: Text)
    requires
        blank(a),
        x.len() > 0,
        !is_white(x[0]),
    ensures
        trim_start_spec(a + x) == x,
    decreases a.len(),
{
    let s = a + x;
    if a.len() == 0 {
        assert(s =~= x);
    } else {
        let rest = a.subrange(1, a.len() as int);
        assert(s.subrange(1, s.len() as int) =~= rest + x);
        assert(s[0] == a[0]);
        lemma_trim_start(rest, x);
    }
}

proof fn lemma_trim_end(x: Text, b: Text)
    requires
        blank(b),
        x.len() > 0,
        !is_white(x.last()),
    ensures
        trim_end_spec(x + b) == x,
    decreases b.len(),
{
    let s = x + b;
    if b.len() == 0 {
        assert(s =~= x);
    } else {
        assert(s.drop_last() =~= x + b.drop_last());
        assert(s.last() == b.last());
        assert(is_white(b[b.len() - 1]));
        lemma_trim_end(x, b.drop_last());
    }
}

/// White space around a text does not count.
proof fn lemma_trimmed(a: Text, w: Text, b: Text)
    requires
        blank(a),
        blank(b),
        w.len() > 0,
        !is_white(w[0]),
        !is_white(w.last()),
    ensures
        trim_spec(a + w + b) == w,
{
    assert(a + w + b =~= a + (w + b));
    lemma_trim_start(a, w + b);
    lemma_trim_end(w, b);
}

proof fn lemma_uncut(s: Text)
    requires
        forall|i: int| 0 <= i < s.len() ==> #[trigger] s[i] != ',' && s[i] != '"',
    ensures
        cut(s) == (Seq::<Text>::empty(), s, false),
    decreases s.len(),
{
    if s.len() > 0 {
        lemma_uncut(s.drop_last());
        assert(s[s.len() - 1] == s.last());
        assert(s.drop_last().push(s.last()) =~= s);
    }
}

proof fn lemma_one_fragment(a: Text, w: Text, b: Text)
    requires
        blank(a),
        blank(b),
        plain(w),
    ensures
        fragments_spec(a + w + b) == seq![w],
{
    let s = a + w + b;
    assert forall|i: int| 0 <= i < s.len() implies #[trigger] s[i] != ',' && s[i] != '"' by {
        if i < a.len() {
            assert(is_white(a[i]));
        } else if i < a.len() + w.len() {
            assert(s[i] == w[i - a.len()]);
        } else {
            assert(s[i] == b[i - a.len() - w.len()]);
            assert(is_white(b[i - a.len() - w.len()]));
        }
    }
    lemma_uncut(s);
    lemma_trimmed(a, w, b);
    let pieces = Seq::<Text>::empty().push(s);
    assert(pieces.drop_last() =~= Seq::<Text>::empty());
    assert(nonblank(pieces) =~= seq![w]) by {
        reveal_with_fuel(nonblank, 2);
    }
}

proof fn lemma_one_term(raw: Text, f: Text)
    requires
        fragments_spec(raw) == seq![f],
    ensures
        query_spec(raw) == match term_spec(f) {
            Some(t) => seq![t],
            None => Seq::<TermModel>::empty(),
        },
{
    assert(seq![f].drop_last() =~= Seq::<Text>::empty());
    reveal_with_fuel(terms_spec, 2);
    if let Some(t) = term_spec(f) {
        assert(Seq::<TermModel>::empty().push(t) =~= seq![t]);
    }
}

/// A bare phrase is searched for as it is, in lower case, whatever white space is around it.
pub proof fn a_phrase_is_free_text(a: Text, w: Text, b: Text)
    requires
        blank(a),
        blank(b),
        plain(w),
        !w.contains(':'),
        lowered(w).len() > 0,
    ensures
        query_spec(a + w + b) == seq![TermModel::Text(lowered(w))],
{
    lemma_one_fragment(a, w, b);
    lemma_one_term(a + w + b, w);
    lemma_unquoted(w);
    lemma_trimmed(Seq::empty(), w, Seq::empty());
    assert(Seq::<char>::empty() + w + Seq::<char>::empty() =~= w);
}

proof fn lemma_unquoted(w: Text)
    requires
        w.len() > 0,
        w[0] != '"',
    ensures
        unquoted(w) is None,
{
    reveal_strlit("\"");
    if has_prefix(w, "\""@) {
        assert(w.subrange(0, 1)[0] == "\""@[0]);
    }
}

/// The names of the keys, all different.
proof fn lemma_keys_differ(k: Text)
    ensures
        "text"@ != "label"@ && "text"@ != "epic"@ && "text"@ != "id"@ && "text"@ != "note"@ && "text"@ != "status"@,
        "text"@ != "col"@ && "text"@ != "column"@ && "label"@ != "epic"@ && "label"@ != "id"@ && "label"@ != "note"@,
        "label"@ != "status"@ && "label"@ != "col"@ && "label"@ != "column"@ && "epic"@ != "id"@ && "epic"@ != "note"@,
        "epic"@ != "status"@ && "epic"@ != "col"@ && "epic"@ != "column"@ && "id"@ != "note"@ && "id"@ != "status"@,
        "id"@ != "col"@ && "id"@ != "column"@ && "note"@ != "status"@ && "note"@ != "col"@ && "note"@ != "column"@,
        "status"@ != "col"@ && "status"@ != "column"@,
        k == "landed"@ || k == "discarded"@ || k == "blocked"@ || k == "auto-merge"@ || k == "changes-requested"@ ==> k
            != "text"@ && k != "label"@ && k != "epic"@ && k != "id"@ && k != "note"@ && k != "status"@ && k != "col"@ && k
            != "column"@,
        "landed"@ != "discarded"@ && "landed"@ != "blocked"@ && "landed"@ != "auto-merge"@ && "landed"@
            != "changes-requested"@,
        "discarded"@ != "blocked"@ && "discarded"@ != "auto-merge"@ && "discarded"@ != "changes-requested"@,
        "blocked"@ != "auto-merge"@ && "blocked"@ != "changes-requested"@ && "auto-merge"@ != "changes-requested"@,
{
    reveal_strlit("text");
    reveal_strlit("label");
    reveal_strlit("epic");
    reveal_strlit("id");
    reveal_strlit("note");
    reveal_strlit("status");
    reveal_strlit("col");
    reveal_strlit("column");
    reveal_strlit("landed");
    reveal_strlit("discarded");
    reveal_strlit("blocked");
    reveal_strlit("auto-merge");
    reveal_strlit("changes-requested");
    assert("text"@[0] == 't' && "label"@[0] == 'l' && "epic"@[0] == 'e' && "id"@[0] == 'i' && "note"@[0] == 'n');
    assert("status"@[0] == 's' && "col"@[0] == 'c' && "column"@[0] == 'c');
    assert("landed"@[0] == 'l' && "discarded"@[0] == 'd' && "blocked"@[0] == 'b' && "auto-merge"@[0] == 'a');
    assert("changes-requested"@[0] == 'c');
    assert(k == "landed"@ ==> k.len() == 6 && k[0] == 'l');
    assert(k == "discarded"@ ==> k[0] == 'd');
    assert(k == "blocked"@ ==> k[0] == 'b');
    assert(k == "auto-merge"@ ==> k[0] == 'a');
    assert(k == "changes-requested"@ ==> k.len() == 17 && k[0] == 'c');
    assert(k == "text"@ ==> k[0] == 't');
    assert(k == "label"@ ==> k.len() == 5 && k[0] == 'l');
    assert(k == "epic"@ ==> k[0] == 'e');
    assert(k == "id"@ ==> k[0] == 'i');
    assert(k == "note"@ ==> k[0] == 'n');
    assert(k == "status"@ ==> k[0] == 's');
    assert(k == "col"@ ==> k.len() == 3 && k[0] == 'c');
    assert(k == "column"@ ==> k.len() == 6 && k[0] == 'c');
}

/// What `key: value` asks for. Keys and values are read whatever their case and the white space around them.
///
/// `text`, `label`, `epic`, `id` and `note` look for the value in the field they name; `epic: none` asks for tickets of no
/// epic. `status` takes a status by its name or by the beginning of one, the first in workflow order; `col` and `column` take a
/// column by its name; the rest take a yes or a no. A key that is none of these is no key, and the whole is a phrase.
#[verifier::spinoff_prover]
#[verifier::rlimit(60)]
pub proof fn a_keyed_term_asks_for_its_field(a: Text, k: Text, c: Text, v: Text, w: Text, b: Text)
    requires
        blank(a),
        blank(c),
        blank(v),
        blank(b),
        plain(k),
        plain(w),
        !k.contains(':'),
        lowered(w).len() > 0,
    ensures
        ({
            let terms = query_spec(a + (k + c + ":"@ + v + w) + b);
            let (key, value) = (lowered(k), lowered(w));
            let yes = value == "true"@ || value == "yes"@ || value == "y"@ || value == "1"@ || value == "on"@;
            let no = value == "false"@ || value == "no"@ || value == "n"@ || value == "0"@ || value == "off"@;
            &&& key == "text"@ ==> terms == seq![TermModel::Text(value)]
            &&& key == "label"@ ==> terms == seq![TermModel::Label(value)]
            &&& key == "id"@ ==> terms == seq![TermModel::Id(value)]
            &&& key == "note"@ ==> terms == seq![TermModel::Note(value)]
            &&& key == "epic"@ && (value == "none"@ || value == "null"@) ==> terms == seq![TermModel::NoEpic]
            &&& key == "epic"@ && value != "none"@ && value != "null"@ ==> terms == seq![TermModel::Epic(value)]
            &&& key == "status"@ && has_prefix("draft"@, value) ==> terms == seq![TermModel::Status(Status::Draft)]
            &&& key == "status"@ && !has_prefix("draft"@, value) && has_prefix("stub"@, value) ==> terms
                == seq![TermModel::Status(Status::Stub)]
            &&& key == "status"@ && !has_prefix("draft"@, value) && !has_prefix("stub"@, value) && has_prefix(
                "review"@,
                value,
            ) ==> terms == seq![TermModel::Status(Status::Review)]
            &&& key == "status"@ && !has_prefix("draft"@, value) && !has_prefix("stub"@, value) && !has_prefix(
                "review"@,
                value,
            ) && has_prefix("ready"@, value) ==> terms == seq![TermModel::Status(Status::Ready)]
            &&& key == "col"@ || key == "column"@ ==> {
                &&& value == "todo"@ ==> terms == seq![TermModel::Column(ColumnId::Todo)]
                &&& value == "doing"@ ==> terms == seq![TermModel::Column(ColumnId::Doing)]
                &&& value == "review"@ ==> terms == seq![TermModel::Column(ColumnId::Review)]
                &&& value == "done"@ ==> terms == seq![TermModel::Column(ColumnId::Done)]
            }
            &&& key == "landed"@ && yes ==> terms == seq![TermModel::Landed(true)]
            &&& key == "landed"@ && no ==> terms == seq![TermModel::Landed(false)]
            &&& key == "discarded"@ && yes ==> terms == seq![TermModel::Discarded(true)]
            &&& key == "discarded"@ && no ==> terms == seq![TermModel::Discarded(false)]
            &&& key == "blocked"@ && yes ==> terms == seq![TermModel::Blocked(true)]
            &&& key == "blocked"@ && no ==> terms == seq![TermModel::Blocked(false)]
            &&& key == "auto-merge"@ && yes ==> terms == seq![TermModel::AutoMerge(true)]
            &&& key == "auto-merge"@ && no ==> terms == seq![TermModel::AutoMerge(false)]
            &&& key == "changes-requested"@ && yes ==> terms == seq![TermModel::ChangesRequested(true)]
            &&& key == "changes-requested"@ && no ==> terms == seq![TermModel::ChangesRequested(false)]
        }),
{
    let f = k + c + ":"@ + v + w;
    lemma_keyed_term(a, k, c, v, w, b);
    let (key, value) = (lowered(k), lowered(w));
    lemma_keys_differ(key);
    assert(lowered(trim_spec(k)) == key) by {
        lemma_trimmed(Seq::empty(), k, Seq::empty());
        assert(Seq::<char>::empty() + k + Seq::<char>::empty() =~= k);
    }
    lemma_values_differ(value);
}

/// A key that is none of the names is no key: the whole fragment is a phrase.
pub proof fn an_unknown_key_is_free_text(a: Text, k: Text, c: Text, v: Text, w: Text, b: Text)
    requires
        blank(a),
        blank(c),
        blank(v),
        blank(b),
        plain(k),
        plain(w),
        !k.contains(':'),
        lowered(w).len() > 0,
        lowered(k + c + ":"@ + v + w).len() > 0,
        !seq![
            "text"@,
            "label"@,
            "epic"@,
            "id"@,
            "note"@,
            "status"@,
            "col"@,
            "column"@,
            "landed"@,
            "discarded"@,
            "blocked"@,
            "auto-merge"@,
            "changes-requested"@,
        ].contains(lowered(k)),
    ensures
        query_spec(a + (k + c + ":"@ + v + w) + b) == seq![TermModel::Text(lowered(k + c + ":"@ + v + w))],
{
    let f = k + c + ":"@ + v + w;
    let keys = seq![
        "text"@,
        "label"@,
        "epic"@,
        "id"@,
        "note"@,
        "status"@,
        "col"@,
        "column"@,
        "landed"@,
        "discarded"@,
        "blocked"@,
        "auto-merge"@,
        "changes-requested"@,
    ];
    lemma_keyed_term(a, k, c, v, w, b);
    assert forall|i: int| 0 <= i < keys.len() implies #[trigger] keys[i] != lowered(k) by {
        if keys[i] == lowered(k) {
            assert(keys.contains(lowered(k)));
        }
    }
    assert(keys[0] == "text"@ && keys[1] == "label"@ && keys[2] == "epic"@ && keys[3] == "id"@ && keys[4] == "note"@);
    assert(keys[5] == "status"@ && keys[6] == "col"@ && keys[7] == "column"@ && keys[8] == "landed"@);
    assert(keys[9] == "discarded"@ && keys[10] == "blocked"@ && keys[11] == "auto-merge"@ && keys[12]
        == "changes-requested"@);
    lemma_trimmed(Seq::empty(), f, Seq::empty());
    assert(Seq::<char>::empty() + f + Seq::<char>::empty() =~= f);
}

/// The beginnings of the words that stand for a status, a column, a yes or a no.
proof fn lemma_values_differ(x: Text)
    ensures
        "todo"@ != "doing"@ && "todo"@ != "review"@ && "todo"@ != "done"@ && "doing"@ != "review"@ && "doing"@ != "done"@,
        "review"@ != "done"@,
        x == "false"@ || x == "no"@ || x == "n"@ || x == "0"@ || x == "off"@ ==> x != "true"@ && x != "yes"@ && x != "y"@
            && x != "1"@ && x != "on"@,
{
    reveal_strlit("todo");
    reveal_strlit("doing");
    reveal_strlit("review");
    reveal_strlit("done");
    reveal_strlit("true");
    reveal_strlit("yes");
    reveal_strlit("y");
    reveal_strlit("1");
    reveal_strlit("on");
    reveal_strlit("false");
    reveal_strlit("no");
    reveal_strlit("n");
    reveal_strlit("0");
    reveal_strlit("off");
    assert("todo"@[0] == 't' && "review"@[0] == 'r' && "doing"@[2] == 'i' && "done"@[2] == 'n');
    assert("true"@[0] == 't' && "yes"@[0] == 'y' && "y"@[0] == 'y' && "1"@[0] == '1' && "on"@[0] == 'o');
    assert("false"@[0] == 'f' && "no"@[0] == 'n' && "n"@[0] == 'n' && "0"@[0] == '0' && "off"@[0] == 'o');
    assert(x == "false"@ ==> x[0] == 'f');
    assert(x == "no"@ || x == "n"@ ==> x[0] == 'n');
    assert(x == "0"@ ==> x[0] == '0');
    assert(x == "off"@ ==> x[0] == 'o' && x.len() == 3);
    assert(x == "on"@ ==> x[0] == 'o' && x.len() == 2);
    assert(x == "true"@ ==> x[0] == 't');
    assert(x == "yes"@ || x == "y"@ ==> x[0] == 'y');
    assert(x == "1"@ ==> x[0] == '1');
}

proof fn lemma_keyed_term(a: Text, k: Text, c: Text, v: Text, w: Text, b: Text)
    requires
        blank(a),
        blank(c),
        blank(v),
        blank(b),
        plain(k),
        plain(w),
        !k.contains(':'),
        lowered(w).len() > 0,
    ensures
        ({
            let f = k + c + ":"@ + v + w;
            &&& f.len() > 0 && !is_white(f[0]) && !is_white(f.last())
            &&& query_spec(a + f + b) == match keyed_spec(lowered(k), lowered(w)) {
                Some(t) => seq![t],
                None => match phrase(f) {
                    Some(t) => seq![t],
                    None => Seq::<TermModel>::empty(),
                },
            }
        }),
{
    reveal_strlit(":");
    let f = k + c + ":"@ + v + w;
    assert(f[0] == k[0] && f.last() == w.last());
    assert forall|i: int| 0 <= i < f.len() implies #[trigger] f[i] != ',' && f[i] != '"' by {
        if i < k.len() {
            assert(f[i] == k[i]);
        } else if i < k.len() + c.len() {
            assert(f[i] == c[i - k.len()]);
            assert(is_white(c[i - k.len()]));
        } else if i == k.len() + c.len() {
            assert(f[i] == ':');
        } else if i < k.len() + c.len() + 1 + v.len() {
            assert(f[i] == v[i - k.len() - c.len() - 1]);
            assert(is_white(v[i - k.len() - c.len() - 1]));
        } else {
            assert(f[i] == w[i - k.len() - c.len() - 1 - v.len()]);
        }
    }
    lemma_one_fragment(a, f, b);
    lemma_one_term(a + f + b, f);
    lemma_unquoted(f);
    let p = (k.len() + c.len()) as int;
    assert(f[p] == ':');
    assert forall|i: int| 0 <= i < p implies f[i] != ':' by {
        if i < k.len() {
            assert(f[i] == k[i]);
            if k[i] == ':' {
                assert(k.contains(':'));
            }
        } else {
            assert(f[i] == c[i - k.len()]);
            assert(is_white(c[i - k.len()]));
        }
    }
    crate::seqs::lemma_position(f, ':', p);
    assert(f.contains(':'));
    assert(f.subrange(0, p) =~= Seq::<char>::empty() + k + c);
    assert(f.subrange(p + 1, f.len() as int) =~= v + w + Seq::<char>::empty());
    lemma_trimmed(Seq::empty(), k, c);
    lemma_trimmed(v, w, Seq::empty());
    lemma_unquoted(w);
    lemma_trimmed(Seq::empty(), w, Seq::empty());
    assert(Seq::<char>::empty() + w + Seq::<char>::empty() =~= w);
}

/// A comma outside double quotes separates the terms of a query: what it asks for is what both sides ask for.
pub proof fn a_comma_joins_two_queries(left: Text, right: Text)
    requires
        !cut(left).2,
    ensures
        query_spec(left + ","@ + right) == query_spec(left) + query_spec(right),
{
    reveal_strlit(",");
    lemma_cut_after(left, right);
    let (l, r) = (cut(left), cut(right));
    let all = cut(left + ","@ + right);
    assert(all.0.push(all.1) =~= l.0.push(l.1) + r.0.push(r.1));
    lemma_nonblank_add(l.0.push(l.1), r.0.push(r.1));
    lemma_terms_add(fragments_spec(left), fragments_spec(right));
}

proof fn lemma_cut_after(left: Text, right: Text)
    requires
        !cut(left).2,
    ensures
        cut(left + ","@ + right) == (cut(left).0.push(cut(left).1) + cut(right).0, cut(right).1, cut(right).2),
    decreases right.len(),
{
    reveal_strlit(",");
    let s = left + ","@ + right;
    if right.len() == 0 {
        assert(s.drop_last() =~= left);
        assert(s.last() == ',');
        assert(cut(left).0.push(cut(left).1) + cut(right).0 =~= cut(left).0.push(cut(left).1));
    } else {
        assert(s.drop_last() =~= left + ","@ + right.drop_last());
        assert(s.last() == right.last());
        lemma_cut_after(left, right.drop_last());
        let before = cut(left).0.push(cut(left).1);
        let (done, piece, quoted) = cut(right.drop_last());
        assert((before + done).push(piece) =~= before + done.push(piece));
    }
}

proof fn lemma_nonblank_add(a: Seq<Text>, b: Seq<Text>)
    ensures
        nonblank(a + b) == nonblank(a) + nonblank(b),
    decreases b.len(),
{
    if b.len() == 0 {
        assert(a + b =~= a);
        assert(nonblank(a) + nonblank(b) =~= nonblank(a));
    } else {
        assert((a + b).drop_last() =~= a + b.drop_last());
        lemma_nonblank_add(a, b.drop_last());
        let piece = trim_spec(b.last());
        assert(nonblank(a) + nonblank(b.drop_last()).push(piece) =~= (nonblank(a) + nonblank(b.drop_last())).push(piece));
    }
}

proof fn lemma_terms_add(a: Seq<Text>, b: Seq<Text>)
    ensures
        terms_spec(a + b) == terms_spec(a) + terms_spec(b),
    decreases b.len(),
{
    if b.len() == 0 {
        assert(a + b =~= a);
        assert(terms_spec(a) + terms_spec(b) =~= terms_spec(a));
    } else {
        assert((a + b).drop_last() =~= a + b.drop_last());
        lemma_terms_add(a, b.drop_last());
        if let Some(t) = term_spec(b.last()) {
            assert(terms_spec(a) + terms_spec(b.drop_last()).push(t) =~= (terms_spec(a) + terms_spec(b.drop_last())).push(t));
        }
    }
}

proof fn lemma_cut_quoted(w: Text)
    requires
        forall|i: int| 0 <= i < w.len() ==> #[trigger] w[i] != '"',
    ensures
        cut("\""@ + w) == (Seq::<Text>::empty(), "\""@ + w, true),
    decreases w.len(),
{
    reveal_strlit("\"");
    let s = "\""@ + w;
    if w.len() == 0 {
        assert(s.drop_last() =~= Seq::<char>::empty());
        assert(Seq::<char>::empty().push('"') =~= s);
        assert(cut(Seq::<char>::empty()) == (Seq::<Text>::empty(), Seq::<char>::empty(), false));
    } else {
        assert(s.drop_last() =~= "\""@ + w.drop_last());
        lemma_cut_quoted(w.drop_last());
        assert(w[w.len() - 1] == s.last());
        assert(("\""@ + w.drop_last()).push(w.last()) =~= s);
    }
}

/// What stands in double quotes is one phrase, commas, colons and keys included.
pub proof fn a_quoted_text_is_one_phrase(w: Text)
    requires
        w.len() > 0,
        !is_white(w[0]),
        !is_white(w.last()),
        forall|i: int| 0 <= i < w.len() ==> #[trigger] w[i] != '"',
        lowered(w).len() > 0,
    ensures
        query_spec("\""@ + w + "\""@) == seq![TermModel::Text(lowered(w))],
{
    reveal_strlit("\"");
    let s = "\""@ + w + "\""@;
    lemma_cut_quoted(w);
    assert(s.drop_last() =~= "\""@ + w);
    assert(s.last() == '"');
    assert(("\""@ + w).push('"') =~= s);
    let pieces = Seq::<Text>::empty().push(s);
    lemma_trimmed(Seq::empty(), s, Seq::empty());
    assert(Seq::<char>::empty() + s + Seq::<char>::empty() =~= s);
    assert(pieces.drop_last() =~= Seq::<Text>::empty());
    assert(nonblank(pieces) =~= seq![s]) by {
        reveal_with_fuel(nonblank, 2);
    }
    lemma_one_term(s, s);
    assert(s.subrange(0, 1) =~= "\""@);
    let rest = s.subrange(1, s.len() as int);
    assert(rest =~= w + "\""@);
    assert(rest.subrange(rest.len() - 1, rest.len() as int) =~= "\""@);
    assert(rest.subrange(0, rest.len() - 1) =~= w);
    lemma_trimmed(Seq::empty(), w, Seq::empty());
    assert(Seq::<char>::empty() + w + Seq::<char>::empty() =~= w);
}

/// `needle` stands somewhere in `text`, read in lower case.
pub open spec fn within(text: Text, needle: Text) -> bool {
    exists|before: Text, after: Text| lowered(text) == #[trigger] (before + needle + after)
}

proof fn lemma_within(text: Text, needle: Text)
    ensures
        mentions(text, needle) == within(text, needle),
{
    let low = lowered(text);
    if mentions(text, needle) {
        let i = choose|i: int| crate::text::occurs_at(low, needle, i);
        let (before, after) = (low.subrange(0, i), low.subrange(i + needle.len(), low.len() as int));
        assert(low =~= before + needle + after);
    }
    if within(text, needle) {
        let (before, after) = choose|before: Text, after: Text| low == #[trigger] (before + needle + after);
        assert(low.subrange(before.len() as int, before.len() as int + needle.len()) =~= needle);
        assert(crate::text::occurs_at(low, needle, before.len() as int));
    }
}

/// Which tickets a term admits. A term of a key looks at the field that its key names, and at nothing else: so two tickets
/// that agree there are admitted alike, whatever else is written on them.
pub proof fn a_term_looks_at_its_field(t: TicketViewModel, epics: Seq<EpicViewModel>, p: Text)
    ensures
        admits_ticket_spec(TermModel::Id(p), t, epics) <==> within(t.ticket.id, p),
        admits_ticket_spec(TermModel::Label(p), t, epics) <==> exists|i: int|
            0 <= i < t.ticket.labels.len() && within(#[trigger] t.ticket.labels[i], p),
        admits_ticket_spec(TermModel::Note(p), t, epics) <==> exists|i: int|
            0 <= i < t.ticket.notes.len() && within((#[trigger] t.ticket.notes[i]).text, p),
        admits_ticket_spec(TermModel::Epic(p), t, epics) <==> t.ticket.epic is Some && (within(t.ticket.epic->0, p) || exists|
            i: int,
        |
            0 <= i < epics.len() && (#[trigger] epics[i]).epic.id == t.ticket.epic->0 && within(epics[i].epic.title, p)),
        admits_ticket_spec(TermModel::NoEpic, t, epics) <==> t.ticket.epic is None,
        forall|s: Status| #[trigger] admits_ticket_spec(TermModel::Status(s), t, epics) <==> t.ticket.status == s,
        admits_ticket_spec(TermModel::Column(ColumnId::Todo), t, epics) <==> t.ticket.column is Todo,
        admits_ticket_spec(TermModel::Column(ColumnId::Doing), t, epics) <==> t.ticket.column is Doing,
        admits_ticket_spec(TermModel::Column(ColumnId::Review), t, epics) <==> t.ticket.column is Review,
        admits_ticket_spec(TermModel::Column(ColumnId::Done), t, epics) <==> t.ticket.column is Done,
        forall|want: bool|
            #[trigger] admits_ticket_spec(TermModel::Landed(want), t, epics) <==> (t.ticket.column is Done
                && !t.ticket.column->discarded) == want,
        forall|want: bool|
            #[trigger] admits_ticket_spec(TermModel::Discarded(want), t, epics) <==> (t.ticket.column is Done
                && t.ticket.column->discarded) == want,
        forall|want: bool| #[trigger] admits_ticket_spec(TermModel::Blocked(want), t, epics) <==> t.blocked == want,
        forall|want: bool|
            #[trigger] admits_ticket_spec(TermModel::AutoMerge(want), t, epics) <==> t.auto_merge_effective == want,
        forall|want: bool|
            #[trigger] admits_ticket_spec(TermModel::ChangesRequested(want), t, epics) <==> t.ticket.changes_requested == want,
{
    lemma_within(t.ticket.id, p);
    assert forall|x: Text| #[trigger] mentions(x, p) == within(x, p) by {
        lemma_within(x, p);
    }
    assert forall|i: int| 0 <= i < t.ticket.labels.len() implies mentions(#[trigger] t.ticket.labels[i], p) == within(
        t.ticket.labels[i],
        p,
    ) by {
        lemma_within(t.ticket.labels[i], p);
    }
    assert forall|i: int| 0 <= i < t.ticket.notes.len() implies mentions((#[trigger] t.ticket.notes[i]).text, p) == within(
        t.ticket.notes[i].text,
        p,
    ) by {
        lemma_within(t.ticket.notes[i].text, p);
    }
    assert forall|i: int| 0 <= i < epics.len() implies mentions((#[trigger] epics[i]).epic.title, p) == within(
        epics[i].epic.title,
        p,
    ) by {
        lemma_within(epics[i].epic.title, p);
    }
}

/// A bare phrase is looked for in what people wrote about the ticket or see on its card: its id, title, body, labels, branch,
/// binding and pull request. Its notes, its dependencies and its column are not searched.
pub proof fn a_phrase_looks_at_the_card(t: TicketViewModel, epics: Seq<EpicViewModel>, p: Text)
    ensures
        admits_ticket_spec(TermModel::Text(p), t, epics) <==> {
            ||| within(t.ticket.id, p)
            ||| within(t.ticket.title, p)
            ||| within(t.ticket.body, p)
            ||| exists|i: int| 0 <= i < t.ticket.labels.len() && within(#[trigger] t.ticket.labels[i], p)
            ||| t.ticket.column.branch() is Some && within(t.ticket.column.branch()->0, p)
            ||| t.ticket.external is Some && within(
                (t.ticket.external->0).provider + " "@ + (t.ticket.external->0).kind + "#"@ + decimal(
                    (t.ticket.external->0).number as nat,
                ),
                p,
            )
            ||| t.ticket.pr is Some && within(
                "#"@ + decimal((t.ticket.pr->0).number as nat) + " "@ + (t.ticket.pr->0).url,
                p,
            )
        },
{
    assert forall|x: Text| #[trigger] mentions(x, p) == within(x, p) by {
        lemma_within(x, p);
    }
    assert forall|i: int| 0 <= i < t.ticket.labels.len() implies mentions(#[trigger] t.ticket.labels[i], p) == within(
        t.ticket.labels[i],
        p,
    ) by {
        lemma_within(t.ticket.labels[i], p);
    }
}

/// Which epics a term admits: a phrase looks at the epic's id, title and body, `epic` at its id and title, `status` at its
/// status; what only a ticket can satisfy excludes every epic.
pub proof fn a_term_looks_at_an_epic(term: TermModel, e: EpicViewModel)
    ensures
        admits_epic_spec(term, e) <==> match term {
            TermModel::Text(p) => within(e.epic.id, p) || within(e.epic.title, p) || within(e.epic.body, p),
            TermModel::Epic(p) => within(e.epic.id, p) || within(e.epic.title, p),
            TermModel::Status(s) => e.epic.status == s,
            _ => false,
        },
{
    assert forall|x: Text, p: Text| #[trigger] mentions(x, p) == within(x, p) by {
        lemma_within(x, p);
    }
}

/// Asking for a ticket by its own id shows it, however the key and the id are spaced and whatever else is on the board.
pub proof fn a_ticket_is_found_by_its_id(a: Text, v: Text, b: Text, t: TicketViewModel, epics: Seq<EpicViewModel>)
    requires
        blank(a),
        blank(v),
        blank(b),
        plain(t.ticket.id),
        lowered(t.ticket.id).len() > 0,
    ensures
        admitted(query_spec(a + ("id"@ + Seq::<char>::empty() + ":"@ + v + t.ticket.id) + b), t, epics),
{
    reveal_strlit("id");
    let k = "id"@;
    assert(k[0] == 'i' && k[1] == 'd');
    assert(!k.contains(':'));
    assert(plain(k));
    assert(lowered(k) =~= k);
    a_keyed_term_asks_for_its_field(a, k, Seq::empty(), v, t.ticket.id, b);
    let low = lowered(t.ticket.id);
    let none = Seq::<char>::empty();
    assert(low =~= none + low + none);
    assert(within(t.ticket.id, low));
    a_term_looks_at_its_field(t, epics, low);
}

} // verus!
