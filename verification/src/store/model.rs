//! The board: tickets, epics and columns as the store keeps them.
//!
//! Two properties of the shape matter everywhere else. [`Column`] carries exactly the fields of the state it names, so a
//! ticket cannot sit in one column with another column's data. And priority is the order of [`Board::tickets`]: among
//! tickets that share a column, earlier means higher on the board.
use vstd::prelude::*;

use crate::seqs::{clone_strings, lemma_position, lemma_position_least, models, opt_model, position};
use crate::text::{
    all_digits, concat2, concat3, decimal, digits_value, is_digit, only_digits, parse_upto, same, strip_prefix,
    strip_prefix_spec, to_decimal, Text,
};
use crate::time::Timestamp;

verus! {

broadcast use crate::seqs::group_models;

/// The board schema this library reads and writes. Schema 1 had three columns; schema 2 added `review` between `doing`
/// and `done`.
pub const CURRENT_SCHEMA: u32 = 2;

// ---- columns, statuses, efforts -------------------------------------------------------------------------------------

/// The four workflow states, in board order.
#[derive(Debug, Clone, Copy, PartialEq, Eq, Structural, Hash)]
pub enum ColumnId {
    Todo,
    Doing,
    Review,
    Done,
}

impl ColumnId {
    /// All columns in board order.
    pub const ALL: [ColumnId; 4] = [ColumnId::Todo, ColumnId::Doing, ColumnId::Review, ColumnId::Done];

    /// The wire name.
    pub open spec fn name(self) -> Text {
        match self {
            ColumnId::Todo => "todo"@,
            ColumnId::Doing => "doing"@,
            ColumnId::Review => "review"@,
            ColumnId::Done => "done"@,
        }
    }

    /// The wire name (`todo` / `doing` / `review` / `done`).
    pub fn as_str(self) -> (r: &'static str)
        ensures
            r@ == self.name(),
    {
        match self {
            ColumnId::Todo => "todo",
            ColumnId::Doing => "doing",
            ColumnId::Review => "review",
            ColumnId::Done => "done",
        }
    }

    /// The column a wire name spells.
    pub open spec fn named(s: Text) -> Option<ColumnId> {
        if s == "todo"@ {
            Some(ColumnId::Todo)
        } else if s == "doing"@ {
            Some(ColumnId::Doing)
        } else if s == "review"@ {
            Some(ColumnId::Review)
        } else if s == "done"@ {
            Some(ColumnId::Done)
        } else {
            None
        }
    }

    /// Read a wire name; anything else is refused with the names that would do.
    pub fn parse(s: &str) -> (r: Result<ColumnId, String>)
        ensures
            match r {
                Ok(c) => ColumnId::named(s@) == Some(c),
                Err(e) => ColumnId::named(s@) is None && e@ == "'"@ + s@ + "' is not a column (todo/doing/review/done)"@,
            },
    {
        if same(s, "todo") {
            Ok(ColumnId::Todo)
        } else if same(s, "doing") {
            Ok(ColumnId::Doing)
        } else if same(s, "review") {
            Ok(ColumnId::Review)
        } else if same(s, "done") {
            Ok(ColumnId::Done)
        } else {
            Err(concat3("'", s, "' is not a column (todo/doing/review/done)"))
        }
    }
}

impl std::str::FromStr for ColumnId {
    type Err = String;

    fn from_str(s: &str) -> Result<ColumnId, String> {
        ColumnId::parse(s)
    }
}

/// Reading a column's wire name gives the column back.
pub proof fn column_names_invert(c: ColumnId)
    ensures
        ColumnId::named(c.name()) == Some(c),
{
    reveal_strlit("todo");
    reveal_strlit("doing");
    reveal_strlit("review");
    reveal_strlit("done");
    assert("doing"@[1] == 'o' && "done"@[1] == 'o' && "doing"@.len() == 5 && "done"@.len() == 4 && "todo"@.len() == 4);
    assert("todo"@[0] == 't' && "done"@[0] == 'd');
    assert("review"@.len() == 6);
}

/// How well-defined a ticket or epic is, apart from where its work stands.
#[derive(Debug, Clone, Copy, PartialEq, Eq, Structural)]
pub enum Status {
    /// Still being defined by the user. Ignored from a work point of view.
    Draft,
    /// A rough outline the user wants fleshed out.
    Stub,
    /// Fleshed out and awaiting the user's verdict.
    Review,
    /// Fully specified and ready to be picked up.
    Ready,
}

impl Status {
    pub open spec fn name(self) -> Text {
        match self {
            Status::Draft => "draft"@,
            Status::Stub => "stub"@,
            Status::Review => "review"@,
            Status::Ready => "ready"@,
        }
    }

    /// The wire name (`draft` / `stub` / `review` / `ready`).
    pub fn as_str(self) -> (r: &'static str)
        ensures
            r@ == self.name(),
    {
        match self {
            Status::Draft => "draft",
            Status::Stub => "stub",
            Status::Review => "review",
            Status::Ready => "ready",
        }
    }

    pub open spec fn named(s: Text) -> Option<Status> {
        if s == "draft"@ {
            Some(Status::Draft)
        } else if s == "stub"@ {
            Some(Status::Stub)
        } else if s == "review"@ {
            Some(Status::Review)
        } else if s == "ready"@ {
            Some(Status::Ready)
        } else {
            None
        }
    }

    /// Read a wire name; anything else is refused with the names that would do.
    pub fn parse(s: &str) -> (r: Result<Status, String>)
        ensures
            match r {
                Ok(c) => Status::named(s@) == Some(c),
                Err(e) => Status::named(s@) is None && e@ == "'"@ + s@ + "' is not a status (draft/stub/review/ready)"@,
            },
    {
        if same(s, "draft") {
            Ok(Status::Draft)
        } else if same(s, "stub") {
            Ok(Status::Stub)
        } else if same(s, "review") {
            Ok(Status::Review)
        } else if same(s, "ready") {
            Ok(Status::Ready)
        } else {
            Err(concat3("'", s, "' is not a status (draft/stub/review/ready)"))
        }
    }
}

impl std::str::FromStr for Status {
    type Err = String;

    fn from_str(s: &str) -> Result<Status, String> {
        Status::parse(s)
    }
}

/// Reading a status's wire name gives the status back.
pub proof fn status_names_invert(s: Status)
    ensures
        Status::named(s.name()) == Some(s),
{
    reveal_strlit("draft");
    reveal_strlit("stub");
    reveal_strlit("review");
    reveal_strlit("ready");
    assert("draft"@[0] == 'd' && "ready"@[0] == 'r' && "draft"@.len() == 5 && "ready"@.len() == 5);
    assert("stub"@.len() == 4 && "review"@.len() == 6);
}

/// How much reasoning effort a ticket's work deserves.
#[derive(Debug, Clone, Copy, PartialEq, Eq, Structural)]
pub enum Effort {
    Low,
    Medium,
    High,
    Xhigh,
    Max,
}

impl Effort {
    /// Every level, highest-intent last.
    pub const ALL: [Effort; 5] = [Effort::Low, Effort::Medium, Effort::High, Effort::Xhigh, Effort::Max];

    pub open spec fn name(self) -> Text {
        match self {
            Effort::Low => "low"@,
            Effort::Medium => "medium"@,
            Effort::High => "high"@,
            Effort::Xhigh => "xhigh"@,
            Effort::Max => "max"@,
        }
    }

    /// The wire name (`low` / `medium` / `high` / `xhigh` / `max`).
    pub fn as_str(self) -> (r: &'static str)
        ensures
            r@ == self.name(),
    {
        match self {
            Effort::Low => "low",
            Effort::Medium => "medium",
            Effort::High => "high",
            Effort::Xhigh => "xhigh",
            Effort::Max => "max",
        }
    }

    pub open spec fn named(s: Text) -> Option<Effort> {
        if s == "low"@ {
            Some(Effort::Low)
        } else if s == "medium"@ {
            Some(Effort::Medium)
        } else if s == "high"@ {
            Some(Effort::High)
        } else if s == "xhigh"@ {
            Some(Effort::Xhigh)
        } else if s == "max"@ {
            Some(Effort::Max)
        } else {
            None
        }
    }

    /// Read a wire name; anything else is refused with the names that would do.
    pub fn parse(s: &str) -> (r: Result<Effort, String>)
        ensures
            match r {
                Ok(c) => Effort::named(s@) == Some(c),
                Err(e) => Effort::named(s@) is None && e@ == "'"@ + s@
                    + "' is not an effort level (low/medium/high/xhigh/max)"@,
            },
    {
        if same(s, "low") {
            Ok(Effort::Low)
        } else if same(s, "medium") {
            Ok(Effort::Medium)
        } else if same(s, "high") {
            Ok(Effort::High)
        } else if same(s, "xhigh") {
            Ok(Effort::Xhigh)
        } else if same(s, "max") {
            Ok(Effort::Max)
        } else {
            Err(concat3("'", s, "' is not an effort level (low/medium/high/xhigh/max)"))
        }
    }
}

impl std::str::FromStr for Effort {
    type Err = String;

    fn from_str(s: &str) -> Result<Effort, String> {
        Effort::parse(s)
    }
}

/// Reading an effort's wire name gives the effort back.
pub proof fn effort_names_invert(e: Effort)
    ensures
        Effort::named(e.name()) == Some(e),
{
    reveal_strlit("low");
    reveal_strlit("medium");
    reveal_strlit("high");
    reveal_strlit("xhigh");
    reveal_strlit("max");
    assert("low"@[0] == 'l' && "max"@[0] == 'm' && "low"@.len() == 3 && "max"@.len() == 3);
    assert("medium"@.len() == 6 && "high"@.len() == 4 && "xhigh"@.len() == 5);
}

// ---- ids ------------------------------------------------------------------------------------------------------------

/// A ticket id, e.g. `K-7`.
#[derive(Debug, PartialEq, Eq, Hash)]
pub struct TicketId(pub String);

/// An epic id, e.g. `EP-2`.
#[derive(Debug, PartialEq, Eq, Hash)]
pub struct EpicId(pub String);

impl View for TicketId {
    type V = Text;

    open spec fn view(&self) -> Text {
        self.0@
    }
}

impl View for EpicId {
    type V = Text;

    open spec fn view(&self) -> Text {
        self.0@
    }
}

impl Clone for TicketId {
    fn clone(&self) -> (r: TicketId)
        ensures
            r@ == self@,
    {
        TicketId(self.0.clone())
    }
}

impl Clone for EpicId {
    fn clone(&self) -> (r: EpicId)
        ensures
            r@ == self@,
    {
        EpicId(self.0.clone())
    }
}

impl TicketId {
    /// The id as text.
    pub fn to_string(&self) -> (r: String)
        ensures
            r@ == self@,
    {
        self.0.clone()
    }

    /// Whether two ids are the same.
    pub fn same(&self, other: &TicketId) -> (r: bool)
        ensures
            r == (self@ == other@),
    {
        self.0 == other.0
    }
}

impl EpicId {
    /// The id as text.
    pub fn to_string(&self) -> (r: String)
        ensures
            r@ == self@,
    {
        self.0.clone()
    }

    /// Whether two ids are the same.
    pub fn same(&self, other: &EpicId) -> (r: bool)
        ensures
            r == (self@ == other@),
    {
        self.0 == other.0
    }
}

/// Whether an optional epic reference names `id`.
pub fn is_epic(epic: &Option<EpicId>, id: &EpicId) -> (r: bool)
    ensures
        r == (opt_model(*epic) == Some(id@)),
{
    match epic {
        Some(e) => e.same(id),
        None => false,
    }
}

/// Copy a list of ticket ids.
pub fn clone_ids(v: &Vec<TicketId>) -> (r: Vec<TicketId>)
    ensures
        models(r@) == models(v@),
{
    let r: Vec<TicketId> = v.clone();
    assert forall|i: int| 0 <= i < v@.len() implies #[trigger] r@[i]@ == v@[i]@ by {
        assert(cloned::<TicketId>(v@[i], r@[i]));
    }
    assert(models(r@) =~= models(v@));
    r
}

// ---- columns with their data ----------------------------------------------------------------------------------------

/// A ticket's workflow state, with that state's own data.
#[derive(Debug, PartialEq)]
pub enum Column {
    /// Ready to be worked, or blocked and waiting. Carries nothing.
    Todo,
    /// Claimed and in progress.
    Doing {
        /// Who is working the ticket.
        owner: String,
        /// The ticket's branch, filled in when its worktree starts.
        branch: Option<String>,
    },
    /// Code-complete but not landed. Nobody owns a review ticket.
    Review {
        /// The branch carrying the finished work.
        branch: Option<String>,
    },
    /// Landed in the main branch, or explicitly discarded.
    Done {
        /// The branch the work landed on.
        branch: Option<String>,
        completed_at: Timestamp,
        /// True when the work was retired without landing: closed, but it satisfies no dependency.
        discarded: bool,
    },
}

/// A column as contracts speak of it.
pub enum ColumnModel {
    Todo,
    Doing { owner: Text, branch: Option<Text> },
    Review { branch: Option<Text> },
    Done { branch: Option<Text>, completed_at: Timestamp, discarded: bool },
}

impl ColumnModel {
    pub open spec fn id(self) -> ColumnId {
        match self {
            ColumnModel::Todo => ColumnId::Todo,
            ColumnModel::Doing { .. } => ColumnId::Doing,
            ColumnModel::Review { .. } => ColumnId::Review,
            ColumnModel::Done { .. } => ColumnId::Done,
        }
    }

    pub open spec fn branch(self) -> Option<Text> {
        match self {
            ColumnModel::Todo => None,
            ColumnModel::Doing { branch, .. } => branch,
            ColumnModel::Review { branch } => branch,
            ColumnModel::Done { branch, .. } => branch,
        }
    }

    /// Landed: done, and not discarded.
    pub open spec fn landed(self) -> bool {
        self matches ColumnModel::Done { discarded, .. } && !discarded
    }
}

impl View for Column {
    type V = ColumnModel;

    open spec fn view(&self) -> ColumnModel {
        match *self {
            Column::Todo => ColumnModel::Todo,
            Column::Doing { owner, branch } => ColumnModel::Doing { owner: owner@, branch: opt_model(branch) },
            Column::Review { branch } => ColumnModel::Review { branch: opt_model(branch) },
            Column::Done { branch, completed_at, discarded } => ColumnModel::Done {
                branch: opt_model(branch),
                completed_at,
                discarded,
            },
        }
    }
}

/// Copy an optional string.
pub fn clone_opt(o: &Option<String>) -> (r: Option<String>)
    ensures
        opt_model(r) == opt_model(*o),
{
    match o {
        Some(s) => Some(s.clone()),
        None => None,
    }
}

impl Clone for Column {
    fn clone(&self) -> (r: Column)
        ensures
            r@ == self@,
    {
        match self {
            Column::Todo => Column::Todo,
            Column::Doing { owner, branch } => Column::Doing { owner: owner.clone(), branch: clone_opt(branch) },
            Column::Review { branch } => Column::Review { branch: clone_opt(branch) },
            Column::Done { branch, completed_at, discarded } => Column::Done {
                branch: clone_opt(branch),
                completed_at: *completed_at,
                discarded: *discarded,
            },
        }
    }
}

impl Column {
    /// The workflow state this value sits in, without its data.
    pub fn id(&self) -> (r: ColumnId)
        ensures
            r == self@.id(),
    {
        match self {
            Column::Todo => ColumnId::Todo,
            Column::Doing { .. } => ColumnId::Doing,
            Column::Review { .. } => ColumnId::Review,
            Column::Done { .. } => ColumnId::Done,
        }
    }

    /// The branch recorded on this state, if any.
    pub fn branch(&self) -> (r: Option<&str>)
        ensures
            match r {
                Some(b) => self@.branch() == Some(b@),
                None => self@.branch() is None,
            },
    {
        let recorded: &Option<String> = match self {
            Column::Todo => return None,
            Column::Doing { branch, .. } => branch,
            Column::Review { branch } => branch,
            Column::Done { branch, .. } => branch,
        };
        match recorded {
            Some(b) => Some(b.as_str()),
            None => None,
        }
    }

    /// The branch recorded on this state, as an owned copy.
    pub fn branch_owned(&self) -> (r: Option<String>)
        ensures
            opt_model(r) == self@.branch(),
    {
        match self.branch() {
            Some(b) => Some(b.to_owned()),
            None => None,
        }
    }

    /// Whether the work landed: done, and not discarded.
    pub fn landed(&self) -> (r: bool)
        ensures
            r == self@.landed(),
    {
        match self {
            Column::Done { discarded, .. } => !*discarded,
            _ => false,
        }
    }
}

// ---- tickets and epics ----------------------------------------------------------------------------------------------

/// The lifecycle of a bound pull request.
#[derive(Debug, Clone, Copy, PartialEq, Eq, Structural)]
pub enum PrState {
    Open,
    Merged,
    /// Closed without merging.
    Closed,
}

impl Default for PrState {
    fn default() -> (r: PrState)
        ensures
            r == PrState::Open,
    {
        PrState::Open
    }
}

impl PrState {
    /// Whether this is the default state.
    pub fn is_open(&self) -> (r: bool)
        ensures
            r == (*self == PrState::Open),
    {
        matches!(self, PrState::Open)
    }
}

/// A ticket's bound pull request: what identifies it, and the last polled answers.
#[derive(Debug, PartialEq)]
pub struct PrRef {
    pub number: u64,
    pub url: String,
    pub state: PrState,
    /// The commit the request merged as: it must reach the main branch before the ticket counts as landed.
    pub merged_commit: Option<String>,
}

pub struct PrModel {
    pub number: u64,
    pub url: Text,
    pub state: PrState,
    pub merged_commit: Option<Text>,
}

impl View for PrRef {
    type V = PrModel;

    open spec fn view(&self) -> PrModel {
        PrModel {
            number: self.number,
            url: self.url@,
            state: self.state,
            merged_commit: opt_model(self.merged_commit),
        }
    }
}

impl Clone for PrRef {
    fn clone(&self) -> (r: PrRef)
        ensures
            r@ == self@,
    {
        PrRef {
            number: self.number,
            url: self.url.clone(),
            state: self.state,
            merged_commit: clone_opt(&self.merged_commit),
        }
    }
}

impl PrRef {
    /// Whether two references say the same thing.
    pub fn same(&self, other: &PrRef) -> (r: bool)
        ensures
            r == (self@ == other@),
    {
        self.number == other.number && self.url == other.url && self.state == other.state
            && crate::text::same_opt(&self.merged_commit, &other.merged_commit)
    }
}

/// A binding to a work item in another system, e.g. GitHub issue 42, with what polling it has observed.
#[derive(Debug, PartialEq)]
pub struct External {
    pub provider: String,
    pub kind: String,
    pub number: u64,
    /// The item was last seen closed.
    pub closed: bool,
    /// A label on the item that asks for a human.
    pub flag: Option<String>,
    /// The items it was split into, once those are mirrored as tickets.
    pub sub_issues: Vec<u64>,
}

pub struct ExternalModel {
    pub provider: Text,
    pub kind: Text,
    pub number: u64,
    pub closed: bool,
    pub flag: Option<Text>,
    pub sub_issues: Seq<u64>,
}

impl View for External {
    type V = ExternalModel;

    open spec fn view(&self) -> ExternalModel {
        ExternalModel {
            provider: self.provider@,
            kind: self.kind@,
            number: self.number,
            closed: self.closed,
            flag: opt_model(self.flag),
            sub_issues: self.sub_issues@,
        }
    }
}

impl ExternalModel {
    /// A binding to a GitHub issue of which nothing has been observed yet.
    pub open spec fn issue(number: u64) -> ExternalModel {
        ExternalModel {
            provider: "github"@,
            kind: "issue"@,
            number,
            closed: false,
            flag: None,
            sub_issues: Seq::empty(),
        }
    }

    pub open spec fn is_issue(self) -> bool {
        self.provider == "github"@ && self.kind == "issue"@
    }
}

impl Clone for External {
    fn clone(&self) -> (r: External)
        ensures
            r@ == self@,
    {
        let sub_issues: Vec<u64> = self.sub_issues.clone();
        assert(sub_issues@ =~= self.sub_issues@);
        External {
            provider: self.provider.clone(),
            kind: self.kind.clone(),
            number: self.number,
            closed: self.closed,
            flag: clone_opt(&self.flag),
            sub_issues,
        }
    }
}

impl External {
    /// A binding to GitHub issue `number`, with nothing observed yet.
    pub fn github_issue(number: u64) -> (r: External)
        ensures
            r@ == ExternalModel::issue(number),
    {
        External {
            provider: "github".to_owned(),
            kind: "issue".to_owned(),
            number,
            closed: false,
            flag: None,
            sub_issues: Vec::new(),
        }
    }

    /// Whether this names a GitHub issue.
    pub fn is_github_issue(&self) -> (r: bool)
        ensures
            r == self@.is_issue(),
    {
        same(&self.provider, "github") && same(&self.kind, "issue")
    }
}

/// One entry in a ticket's progress log.
#[derive(Debug, PartialEq)]
pub struct Note {
    pub at: Timestamp,
    /// Who wrote it. Absent for hand-added notes.
    pub author: Option<String>,
    pub text: String,
}

pub struct NoteModel {
    pub at: Timestamp,
    pub author: Option<Text>,
    pub text: Text,
}

impl View for Note {
    type V = NoteModel;

    open spec fn view(&self) -> NoteModel {
        NoteModel { at: self.at, author: opt_model(self.author), text: self.text@ }
    }
}

impl Clone for Note {
    fn clone(&self) -> (r: Note)
        ensures
            r@ == self@,
    {
        Note { at: self.at, author: clone_opt(&self.author), text: self.text.clone() }
    }
}

/// A group of tickets. An epic stores no column: its place on the board is derived from its tickets.
#[derive(Debug, PartialEq)]
pub struct Epic {
    pub id: EpicId,
    pub title: String,
    /// The colour its tickets' cards carry.
    pub color: String,
    pub status: Status,
    pub body: String,
    /// Let every ticket in this epic land without a human looking at the merge.
    pub auto_merge: bool,
}

pub struct EpicModel {
    pub id: Text,
    pub title: Text,
    pub color: Text,
    pub status: Status,
    pub body: Text,
    pub auto_merge: bool,
}

impl View for Epic {
    type V = EpicModel;

    open spec fn view(&self) -> EpicModel {
        EpicModel {
            id: self.id@,
            title: self.title@,
            color: self.color@,
            status: self.status,
            body: self.body@,
            auto_merge: self.auto_merge,
        }
    }
}

impl Clone for Epic {
    fn clone(&self) -> (r: Epic)
        ensures
            r@ == self@,
    {
        Epic {
            id: self.id.clone(),
            title: self.title.clone(),
            color: self.color.clone(),
            status: self.status,
            body: self.body.clone(),
            auto_merge: self.auto_merge,
        }
    }
}

/// A unit of work.
#[derive(Debug, PartialEq)]
pub struct Ticket {
    pub id: TicketId,
    pub title: String,
    /// The epic this ticket belongs to.
    pub epic: Option<EpicId>,
    pub status: Status,
    /// The spec of the work, stored raw.
    pub body: String,
    pub labels: Vec<String>,
    /// The model this ticket's work should run on. Absent means whatever the session is running.
    pub model: Option<String>,
    pub effort: Option<Effort>,
    /// This ticket's own say on landing without a human looking at the merge; its epic may grant it too.
    pub auto_merge: bool,
    /// Until every ticket named here has landed, this one is blocked.
    pub depends_on: Vec<TicketId>,
    /// Progress log, newest last.
    pub notes: Vec<Note>,
    /// Binding to a work item in another system.
    pub external: Option<External>,
    /// The pull request tracking this ticket's branch.
    pub pr: Option<PrRef>,
    /// Sent back from review, with feedback that is not yet addressed.
    pub changes_requested: bool,
    /// A human cleared this to land.
    pub accepted: bool,
    /// A landing attempt hit something only a human can resolve.
    pub landing_blocked: bool,
    /// Workflow state and that state's data.
    pub column: Column,
}

pub struct TicketModel {
    pub id: Text,
    pub title: Text,
    pub epic: Option<Text>,
    pub status: Status,
    pub body: Text,
    pub labels: Seq<Text>,
    pub model: Option<Text>,
    pub effort: Option<Effort>,
    pub auto_merge: bool,
    pub depends_on: Seq<Text>,
    pub notes: Seq<NoteModel>,
    pub external: Option<ExternalModel>,
    pub pr: Option<PrModel>,
    pub changes_requested: bool,
    pub accepted: bool,
    pub landing_blocked: bool,
    pub column: ColumnModel,
}

impl View for Ticket {
    type V = TicketModel;

    open spec fn view(&self) -> TicketModel {
        TicketModel {
            id: self.id@,
            title: self.title@,
            epic: opt_model(self.epic),
            status: self.status,
            body: self.body@,
            labels: models(self.labels@),
            model: opt_model(self.model),
            effort: self.effort,
            auto_merge: self.auto_merge,
            depends_on: models(self.depends_on@),
            notes: models(self.notes@),
            external: opt_model(self.external),
            pr: opt_model(self.pr),
            changes_requested: self.changes_requested,
            accepted: self.accepted,
            landing_blocked: self.landing_blocked,
            column: self.column@,
        }
    }
}

/// Copy a progress log.
pub fn clone_notes(v: &Vec<Note>) -> (r: Vec<Note>)
    ensures
        models(r@) == models(v@),
{
    let r: Vec<Note> = v.clone();
    assert forall|i: int| 0 <= i < v@.len() implies #[trigger] r@[i]@ == v@[i]@ by {
        assert(cloned::<Note>(v@[i], r@[i]));
    }
    assert(models(r@) =~= models(v@));
    r
}

/// Copy an optional epic reference.
pub fn clone_epic_ref(o: &Option<EpicId>) -> (r: Option<EpicId>)
    ensures
        opt_model(r) == opt_model(*o),
{
    match o {
        Some(e) => Some(e.clone()),
        None => None,
    }
}

/// Copy an optional pull request reference.
pub fn clone_pr(o: &Option<PrRef>) -> (r: Option<PrRef>)
    ensures
        opt_model(r) == opt_model(*o),
{
    match o {
        Some(p) => Some(p.clone()),
        None => None,
    }
}

/// Copy an optional binding.
pub fn clone_external(o: &Option<External>) -> (r: Option<External>)
    ensures
        opt_model(r) == opt_model(*o),
{
    match o {
        Some(e) => Some(e.clone()),
        None => None,
    }
}

impl Clone for Ticket {
    fn clone(&self) -> (r: Ticket)
        ensures
            r@ == self@,
    {
        Ticket {
            id: self.id.clone(),
            title: self.title.clone(),
            epic: clone_epic_ref(&self.epic),
            status: self.status,
            body: self.body.clone(),
            labels: clone_strings(&self.labels),
            model: clone_opt(&self.model),
            effort: self.effort,
            auto_merge: self.auto_merge,
            depends_on: clone_ids(&self.depends_on),
            notes: clone_notes(&self.notes),
            external: clone_external(&self.external),
            pr: clone_pr(&self.pr),
            changes_requested: self.changes_requested,
            accepted: self.accepted,
            landing_blocked: self.landing_blocked,
            column: self.column.clone(),
        }
    }
}

// ---- the board ------------------------------------------------------------------------------------------------------

/// Metadata for one of the four fixed columns. Membership is never stored here.
#[derive(Debug, PartialEq)]
pub struct ColumnMeta {
    pub id: ColumnId,
    pub title: String,
}

pub struct ColumnMetaModel {
    pub id: ColumnId,
    pub title: Text,
}

impl View for ColumnMeta {
    type V = ColumnMetaModel;

    open spec fn view(&self) -> ColumnMetaModel {
        ColumnMetaModel { id: self.id, title: self.title@ }
    }
}

impl Clone for ColumnMeta {
    fn clone(&self) -> (r: ColumnMeta)
        ensures
            r@ == self@,
    {
        ColumnMeta { id: self.id, title: self.title.clone() }
    }
}

/// The whole board.
#[derive(Debug, PartialEq)]
pub struct Board {
    /// Board format version: changes only when the shape does.
    pub schema: u32,
    /// Optimistic-concurrency counter, advanced by every write.
    pub version: u64,
    /// The number the next ticket id takes. It never falls back, so a number is issued once in a board's life.
    pub next_ticket_seq: u64,
    /// The number the next epic id takes.
    pub next_epic_seq: u64,
    pub columns: Vec<ColumnMeta>,
    pub epics: Vec<Epic>,
    /// Array order is priority.
    pub tickets: Vec<Ticket>,
}

pub struct BoardModel {
    pub schema: u32,
    pub version: u64,
    pub next_ticket_seq: u64,
    pub next_epic_seq: u64,
    pub columns: Seq<ColumnMetaModel>,
    pub epics: Seq<EpicModel>,
    pub tickets: Seq<TicketModel>,
}

impl View for Board {
    type V = BoardModel;

    open spec fn view(&self) -> BoardModel {
        BoardModel {
            schema: self.schema,
            version: self.version,
            next_ticket_seq: self.next_ticket_seq,
            next_epic_seq: self.next_epic_seq,
            columns: models(self.columns@),
            epics: models(self.epics@),
            tickets: models(self.tickets@),
        }
    }
}

/// The ids of some tickets, in order.
pub open spec fn ticket_ids(ts: Seq<TicketModel>) -> Seq<Text> {
    Seq::new(ts.len(), |i: int| ts[i].id)
}

/// The ids of some epics, in order.
pub open spec fn epic_ids(es: Seq<EpicModel>) -> Seq<Text> {
    Seq::new(es.len(), |i: int| es[i].id)
}

/// The number that an id of the form `<prefix><digits>` carries, when it fits; any other id counts as nothing.
pub open spec fn suffix(id: Text, prefix: Text) -> nat {
    match strip_prefix_spec(id, prefix) {
        Some(n) => if n.len() > 0 && all_digits(n) && digits_value(n) <= u64::MAX {
            digits_value(n)
        } else {
            0
        },
        None => 0,
    }
}

/// The greatest number an id of the form `<prefix><digits>` carries.
pub open spec fn top_suffix(ids: Seq<Text>, prefix: Text) -> nat
    decreases ids.len(),
{
    if ids.len() == 0 {
        0
    } else {
        let rest = top_suffix(ids.drop_last(), prefix);
        let n = suffix(ids.last(), prefix);
        if n > rest {
            n
        } else {
            rest
        }
    }
}

impl BoardModel {
    /// Where the ticket `id` first stands; the number of tickets when it does not.
    pub open spec fn ticket_at(self, id: Text) -> int {
        position(ticket_ids(self.tickets), id)
    }

    pub open spec fn has_ticket(self, id: Text) -> bool {
        self.ticket_at(id) < self.tickets.len()
    }

    pub open spec fn ticket(self, id: Text) -> Option<TicketModel> {
        if self.has_ticket(id) {
            Some(self.tickets[self.ticket_at(id)])
        } else {
            None
        }
    }

    pub open spec fn epic_at(self, id: Text) -> int {
        position(epic_ids(self.epics), id)
    }

    pub open spec fn has_epic(self, id: Text) -> bool {
        self.epic_at(id) < self.epics.len()
    }

    pub open spec fn epic(self, id: Text) -> Option<EpicModel> {
        if self.has_epic(id) {
            Some(self.epics[self.epic_at(id)])
        } else {
            None
        }
    }

    /// The ticket counter as minting sees it: never below one past the highest ticket id in use.
    pub open spec fn ticket_seq(self) -> nat {
        let floor = top_suffix(ticket_ids(self.tickets), "K-"@) + 1;
        if self.next_ticket_seq > floor {
            self.next_ticket_seq as nat
        } else {
            floor
        }
    }

    /// The epic counter, by the same rule.
    pub open spec fn epic_seq(self) -> nat {
        let floor = top_suffix(epic_ids(self.epics), "EP-"@) + 1;
        if self.next_epic_seq > floor {
            self.next_epic_seq as nat
        } else {
            floor
        }
    }

    /// Both counters, floored above the ids in use, still fit their fields.
    pub open spec fn counters_fit(self) -> bool {
        self.ticket_seq() <= u64::MAX && self.epic_seq() <= u64::MAX
    }

    /// The board with both counters floored above every id in use.
    pub open spec fn reconciled(self) -> BoardModel {
        BoardModel {
            next_ticket_seq: self.ticket_seq() as u64,
            next_epic_seq: self.epic_seq() as u64,
            ..self
        }
    }

    /// The board with one more ticket id taken.
    pub open spec fn minted_ticket(self) -> BoardModel {
        BoardModel { next_ticket_seq: (self.ticket_seq() + 1) as u64, ..self }
    }

    /// The board with one more epic id taken.
    pub open spec fn minted_epic(self) -> BoardModel {
        BoardModel { next_epic_seq: (self.epic_seq() + 1) as u64, ..self }
    }

    /// The board's tickets in `column`, in priority order.
    pub open spec fn tickets_in(self, column: ColumnId) -> Seq<TicketModel> {
        in_column(self.tickets, column)
    }

    /// The board as `init` seeds it.
    pub open spec fn empty() -> BoardModel {
        BoardModel {
            schema: CURRENT_SCHEMA,
            version: 0,
            next_ticket_seq: 1,
            next_epic_seq: 1,
            columns: seq![
                ColumnMetaModel { id: ColumnId::Todo, title: "To do"@ },
                ColumnMetaModel { id: ColumnId::Doing, title: "Doing"@ },
                ColumnMetaModel { id: ColumnId::Review, title: "Review"@ },
                ColumnMetaModel { id: ColumnId::Done, title: "Done"@ },
            ],
            epics: Seq::empty(),
            tickets: Seq::empty(),
        }
    }
}

/// Those of some tickets that sit in `column`, in order.
pub open spec fn in_column(ts: Seq<TicketModel>, column: ColumnId) -> Seq<TicketModel>
    decreases ts.len(),
{
    if ts.len() == 0 {
        Seq::empty()
    } else {
        let before = in_column(ts.drop_last(), column);
        if ts.last().column.id() == column {
            before.push(ts.last())
        } else {
            before
        }
    }
}

/// The id of the n-th ticket.
pub open spec fn ticket_name(n: nat) -> Text {
    "K-"@ + decimal(n)
}

/// The id of the n-th epic.
pub open spec fn epic_name(n: nat) -> Text {
    "EP-"@ + decimal(n)
}

/// Copy a list of column metadata.
pub fn clone_columns(v: &Vec<ColumnMeta>) -> (r: Vec<ColumnMeta>)
    ensures
        models(r@) == models(v@),
{
    let r: Vec<ColumnMeta> = v.clone();
    assert forall|i: int| 0 <= i < v@.len() implies #[trigger] r@[i]@ == v@[i]@ by {
        assert(cloned::<ColumnMeta>(v@[i], r@[i]));
    }
    assert(models(r@) =~= models(v@));
    r
}

impl Clone for Board {
    fn clone(&self) -> (r: Board)
        ensures
            r@ == self@,
    {
        let columns: Vec<ColumnMeta> = clone_columns(&self.columns);
        let epics: Vec<Epic> = self.epics.clone();
        let tickets: Vec<Ticket> = self.tickets.clone();
        proof {
            assert forall|i: int| 0 <= i < self.epics@.len() implies #[trigger] epics@[i]@ == self.epics@[i]@ by {
                assert(cloned::<Epic>(self.epics@[i], epics@[i]));
            }
            assert forall|i: int| 0 <= i < self.tickets@.len() implies #[trigger] tickets@[i]@ == self.tickets@[i]@ by {
                assert(cloned::<Ticket>(self.tickets@[i], tickets@[i]));
            }
            assert(models(epics@) =~= models(self.epics@));
            assert(models(tickets@) =~= models(self.tickets@));
        }
        Board {
            schema: self.schema,
            version: self.version,
            next_ticket_seq: self.next_ticket_seq,
            next_epic_seq: self.next_epic_seq,
            columns,
            epics,
            tickets,
        }
    }
}

impl Board {
    /// An empty board with the four columns.
    pub fn empty() -> (r: Board)
        ensures
            r@ == BoardModel::empty(),
    {
        let columns: Vec<ColumnMeta> = vec![
            ColumnMeta { id: ColumnId::Todo, title: "To do".to_owned() },
            ColumnMeta { id: ColumnId::Doing, title: "Doing".to_owned() },
            ColumnMeta { id: ColumnId::Review, title: "Review".to_owned() },
            ColumnMeta { id: ColumnId::Done, title: "Done".to_owned() },
        ];
        let board: Board = Board {
            schema: CURRENT_SCHEMA,
            version: 0,
            next_ticket_seq: 1,
            next_epic_seq: 1,
            columns,
            epics: Vec::new(),
            tickets: Vec::new(),
        };
        proof {
            assert(board@.columns =~= BoardModel::empty().columns);
        }
        board
    }

    /// Where the ticket `id` first stands.
    pub fn ticket_index(&self, id: &TicketId) -> (r: Option<usize>)
        ensures
            match r {
                Some(i) => i < self.tickets@.len() && i == self@.ticket_at(id@) && self@.has_ticket(id@)
                    && self.tickets@[i as int].id@ == id@,
                None => !self@.has_ticket(id@),
            },
    {
        let mut i: usize = 0;
        while i < self.tickets.len()
            invariant
                i <= self.tickets@.len(),
                forall|j: int| 0 <= j < i ==> self@.tickets[j].id != id@,
            decreases self.tickets@.len() - i,
        {
            assert(self@.tickets[i as int] == self.tickets@[i as int]@);
            if self.tickets[i].id.same(id) {
                proof {
                    lemma_position(ticket_ids(self@.tickets), id@, i as int);
                }
                return Some(i);
            }
            i = i + 1;
        }
        proof {
            lemma_position(ticket_ids(self@.tickets), id@, i as int);
        }
        None
    }

    /// The ticket `id`.
    pub fn ticket(&self, id: &TicketId) -> (r: Option<&Ticket>)
        ensures
            match r {
                Some(t) => self@.ticket(id@) == Some(t@),
                None => self@.ticket(id@) is None,
            },
    {
        match self.ticket_index(id) {
            Some(i) => Some(&self.tickets[i]),
            None => None,
        }
    }

    /// The ticket `id`, to change in place.
    pub fn ticket_mut(&mut self, id: &TicketId) -> (r: Option<&mut Ticket>)
        ensures
            match r {
                Some(t) => old(self)@.ticket(id@) == Some(t@) && final(self)@ == (BoardModel {
                    tickets: old(self)@.tickets.update(old(self)@.ticket_at(id@), final(t)@),
                    ..old(self)@
                }),
                None => old(self)@.ticket(id@) is None && final(self)@ == old(self)@,
            },
    {
        match self.ticket_index(id) {
            Some(i) => Some(&mut self.tickets[i]),
            None => None,
        }
    }

    /// Where the epic `id` first stands.
    pub fn epic_index(&self, id: &EpicId) -> (r: Option<usize>)
        ensures
            match r {
                Some(i) => i < self.epics@.len() && i == self@.epic_at(id@) && self@.has_epic(id@)
                    && self.epics@[i as int].id@ == id@,
                None => !self@.has_epic(id@),
            },
    {
        let mut i: usize = 0;
        while i < self.epics.len()
            invariant
                i <= self.epics@.len(),
                forall|j: int| 0 <= j < i ==> self@.epics[j].id != id@,
            decreases self.epics@.len() - i,
        {
            assert(self@.epics[i as int] == self.epics@[i as int]@);
            if self.epics[i].id.same(id) {
                proof {
                    lemma_position(epic_ids(self@.epics), id@, i as int);
                }
                return Some(i);
            }
            i = i + 1;
        }
        proof {
            lemma_position(epic_ids(self@.epics), id@, i as int);
        }
        None
    }

    /// The epic `id`.
    pub fn epic(&self, id: &EpicId) -> (r: Option<&Epic>)
        ensures
            match r {
                Some(e) => self@.epic(id@) == Some(e@),
                None => self@.epic(id@) is None,
            },
    {
        match self.epic_index(id) {
            Some(i) => Some(&self.epics[i]),
            None => None,
        }
    }

    /// The epic `id`, to change in place.
    pub fn epic_mut(&mut self, id: &EpicId) -> (r: Option<&mut Epic>)
        ensures
            match r {
                Some(e) => old(self)@.epic(id@) == Some(e@) && final(self)@ == (BoardModel {
                    epics: old(self)@.epics.update(old(self)@.epic_at(id@), final(e)@),
                    ..old(self)@
                }),
                None => old(self)@.epic(id@) is None && final(self)@ == old(self)@,
            },
    {
        match self.epic_index(id) {
            Some(i) => Some(&mut self.epics[i]),
            None => None,
        }
    }

    /// Tickets sitting in `column`, in priority order.
    pub fn tickets_in(&self, column: ColumnId) -> (r: Vec<&Ticket>)
        ensures
            models(r@) == self@.tickets_in(column),
    {
        let mut out: Vec<&Ticket> = Vec::new();
        let mut i: usize = 0;
        assert(models(out@) =~= in_column(self@.tickets.take(0), column));
        while i < self.tickets.len()
            invariant
                i <= self.tickets@.len(),
                models(out@) == in_column(self@.tickets.take(i as int), column),
            decreases self.tickets@.len() - i,
        {
            proof {
                let next = self@.tickets.take(i + 1);
                assert(next.drop_last() =~= self@.tickets.take(i as int));
                assert(next.last() == self.tickets@[i as int]@);
            }
            if self.tickets[i].column.id() == column {
                out.push(&self.tickets[i]);
            }
            i = i + 1;
        }
        assert(self@.tickets.take(self@.tickets.len() as int) =~= self@.tickets);
        out
    }

    /// The ticket counter as minting sees it.
    fn ticket_seq(&self) -> (r: u64)
        requires
            self@.ticket_seq() <= u64::MAX,
        ensures
            r == self@.ticket_seq(),
    {
        let mut top: u64 = 0;
        let mut i: usize = 0;
        let ghost ids = ticket_ids(self@.tickets);
        while i < self.tickets.len()
            invariant
                ids == ticket_ids(self@.tickets),
                i <= self.tickets@.len(),
                top == top_suffix(ids.take(i as int), "K-"@),
            decreases self.tickets@.len() - i,
        {
            let n: u64 = numeric_suffix(&self.tickets[i].id.0, "K-");
            proof {
                assert(ids.take(i + 1).drop_last() =~= ids.take(i as int));
                assert(ids.take(i + 1).last() == self.tickets@[i as int].id@);
            }
            if n > top {
                top = n;
            }
            i = i + 1;
        }
        assert(ids.take(ids.len() as int) =~= ids);
        if self.next_ticket_seq > top && self.next_ticket_seq - 1 > top {
            self.next_ticket_seq
        } else {
            top + 1
        }
    }

    /// The epic counter, by the same rule.
    fn epic_seq(&self) -> (r: u64)
        requires
            self@.epic_seq() <= u64::MAX,
        ensures
            r == self@.epic_seq(),
    {
        let mut top: u64 = 0;
        let mut i: usize = 0;
        let ghost ids = epic_ids(self@.epics);
        while i < self.epics.len()
            invariant
                ids == epic_ids(self@.epics),
                i <= self.epics@.len(),
                top == top_suffix(ids.take(i as int), "EP-"@),
            decreases self.epics@.len() - i,
        {
            let n: u64 = numeric_suffix(&self.epics[i].id.0, "EP-");
            proof {
                assert(ids.take(i + 1).drop_last() =~= ids.take(i as int));
                assert(ids.take(i + 1).last() == self.epics@[i as int].id@);
            }
            if n > top {
                top = n;
            }
            i = i + 1;
        }
        assert(ids.take(ids.len() as int) =~= ids);
        if self.next_epic_seq > top && self.next_epic_seq - 1 > top {
            self.next_epic_seq
        } else {
            top + 1
        }
    }

    /// The id the next ticket would get, without minting it.
    pub fn next_ticket_id(&self) -> (r: TicketId)
        requires
            self@.ticket_seq() <= u64::MAX,
        ensures
            r@ == ticket_name(self@.ticket_seq()),
    {
        TicketId(concat2("K-", &to_decimal(self.ticket_seq())))
    }

    /// The id the next epic would get, without minting it.
    pub fn next_epic_id(&self) -> (r: EpicId)
        requires
            self@.epic_seq() <= u64::MAX,
        ensures
            r@ == epic_name(self@.epic_seq()),
    {
        EpicId(concat2("EP-", &to_decimal(self.epic_seq())))
    }

    /// Take the next ticket id and advance the counter past it. Deleting the ticket later never gives the number back.
    pub fn mint_ticket_id(&mut self) -> (r: TicketId)
        requires
            old(self)@.ticket_seq() < u64::MAX,
        ensures
            r@ == ticket_name(old(self)@.ticket_seq()),
            final(self)@ == old(self)@.minted_ticket(),
    {
        let id: TicketId = self.next_ticket_id();
        self.next_ticket_seq = self.ticket_seq() + 1;
        id
    }

    /// Take `count` consecutive ticket ids, before any of their tickets is on the board.
    pub fn mint_ticket_ids(&mut self, count: usize) -> (r: Vec<TicketId>)
        requires
            old(self)@.ticket_seq() + count <= u64::MAX,
        ensures
            r@.len() == count,
            forall|i: int| 0 <= i < count ==> (#[trigger] r@[i])@ == ticket_name((old(self)@.ticket_seq() + i) as nat),
            final(self)@ == old(self)@.minted_tickets(count as nat),
    {
        let mut out: Vec<TicketId> = Vec::new();
        let ghost first = self@.ticket_seq();
        let ghost start = self@;
        while out.len() < count
            invariant
                start == old(self)@,
                first == start.ticket_seq(),
                first + count <= u64::MAX,
                out@.len() <= count,
                forall|i: int| 0 <= i < out@.len() ==> (#[trigger] out@[i])@ == ticket_name((first + i) as nat),
                self@ == start.minted_tickets(out@.len() as nat),
                self@.ticket_seq() == first + out@.len(),
            decreases count - out@.len(),
        {
            out.push(self.mint_ticket_id());
        }
        out
    }

    /// Take the next epic id and advance the counter past it.
    pub fn mint_epic_id(&mut self) -> (r: EpicId)
        requires
            old(self)@.epic_seq() < u64::MAX,
        ensures
            r@ == epic_name(old(self)@.epic_seq()),
            final(self)@ == old(self)@.minted_epic(),
    {
        let id: EpicId = self.next_epic_id();
        self.next_epic_seq = self.epic_seq() + 1;
        id
    }

    /// Floor both counters above every id in use.
    pub fn reconcile_id_seqs(&mut self)
        requires
            old(self)@.counters_fit(),
        ensures
            final(self)@ == old(self)@.reconciled(),
    {
        self.next_ticket_seq = self.ticket_seq();
        self.next_epic_seq = self.epic_seq();
    }
}

impl BoardModel {
    /// The board with `count` more ticket ids taken.
    pub open spec fn minted_tickets(self, count: nat) -> BoardModel {
        if count == 0 {
            self
        } else {
            BoardModel { next_ticket_seq: (self.ticket_seq() + count) as u64, ..self }
        }
    }
}

/// The number an id of the form `<prefix><digits>` carries, zero for any other id.
fn numeric_suffix(id: &str, prefix: &str) -> (r: u64)
    ensures
        r == suffix(id@, prefix@),
{
    match strip_prefix(id, prefix) {
        Some(n) => {
            if !only_digits(&n) {
                return 0;
            }
            proof {
                if n@.len() > 0 {
                    assert(is_digit(n@[0]));
                }
            }
            match parse_upto(&n, u64::MAX) {
                Some(k) => k,
                None => 0,
            }
        },
        None => 0,
    }
}

// ---- migration ------------------------------------------------------------------------------------------------------

/// Where a column's metadata first stands; the number of columns when it does not.
pub open spec fn column_at(cs: Seq<ColumnMetaModel>, id: ColumnId) -> int {
    position(Seq::new(cs.len(), |i: int| cs[i].id), id)
}

/// The columns with `review` inserted before `done`, unless it is there already.
pub open spec fn with_review(cs: Seq<ColumnMetaModel>) -> Seq<ColumnMetaModel> {
    if column_at(cs, ColumnId::Review) < cs.len() {
        cs
    } else {
        cs.insert(column_at(cs, ColumnId::Done), ColumnMetaModel { id: ColumnId::Review, title: "Review"@ })
    }
}

/// What loading an older board makes of it: floored counters, and the review column where schema 1 lacked it. Tickets
/// stay as they are.
pub open spec fn migrated(b: BoardModel) -> BoardModel {
    if b.schema == CURRENT_SCHEMA {
        b.reconciled()
    } else {
        BoardModel { schema: CURRENT_SCHEMA, columns: with_review(b.columns), ..b.reconciled() }
    }
}

fn column_index(columns: &Vec<ColumnMeta>, id: ColumnId) -> (r: usize)
    ensures
        r == column_at(models(columns@), id),
        r <= columns@.len(),
{
    let ghost ids = Seq::new(columns@.len(), |i: int| models(columns@)[i].id);
    let mut i: usize = 0;
    while i < columns.len()
        invariant
            ids == Seq::new(columns@.len(), |i: int| models(columns@)[i].id),
            i <= columns@.len(),
            forall|j: int| 0 <= j < i ==> ids[j] != id,
        decreases columns@.len() - i,
    {
        if columns[i].id == id {
            proof {
                lemma_position(ids, id, i as int);
            }
            return i;
        }
        i = i + 1;
    }
    proof {
        lemma_position(ids, id, i as int);
    }
    i
}

/// Upgrade an older board in memory. Answers whether the schema changed; a schema newer than this library understands
/// is refused with the version found, and the board is left alone.
pub fn migrate(board: &mut Board) -> (r: Result<bool, u32>)
    requires
        old(board)@.schema <= CURRENT_SCHEMA ==> old(board)@.counters_fit(),
    ensures
        match r {
            Ok(changed) => old(board)@.schema <= CURRENT_SCHEMA && final(board)@ == migrated(old(board)@) && changed == (
            old(board)@.schema != CURRENT_SCHEMA),
            Err(found) => old(board)@.schema > CURRENT_SCHEMA && found == old(board)@.schema && final(board)@ == old(
                board,
            )@,
        },
{
    if board.schema > CURRENT_SCHEMA {
        return Err(board.schema);
    }
    board.reconcile_id_seqs();
    if board.schema == CURRENT_SCHEMA {
        return Ok(false);
    }
    if column_index(&board.columns, ColumnId::Review) == board.columns.len() {
        let at: usize = column_index(&board.columns, ColumnId::Done);
        board.columns.insert(at, ColumnMeta { id: ColumnId::Review, title: "Review".to_owned() });
    }
    board.schema = CURRENT_SCHEMA;
    Ok(true)
}

// ---- laws of the id counters ----------------------------------------------------------------------------------------

pub proof fn lemma_suffix_of_name(n: nat, prefix: Text)
    requires
        n <= u64::MAX,
    ensures
        suffix(prefix + decimal(n), prefix) == n,
{
    let id = prefix + decimal(n);
    assert(id.subrange(0, prefix.len() as int) =~= prefix);
    assert(id.subrange(prefix.len() as int, id.len() as int) =~= decimal(n));
    crate::text::decimal_reads_back(n);
}

pub(crate) proof fn lemma_top_suffix(ids: Seq<Text>, prefix: Text, i: int)
    requires
        0 <= i < ids.len(),
    ensures
        suffix(ids[i], prefix) <= top_suffix(ids, prefix),
    decreases ids.len(),
{
    if i < ids.len() - 1 {
        lemma_top_suffix(ids.drop_last(), prefix, i);
    }
}

/// The greatest number that some ids carry is no greater than that of any ids that hold them all.
pub proof fn lemma_top_suffix_within(some: Seq<Text>, all: Seq<Text>, prefix: Text)
    requires
        forall|i: int| 0 <= i < some.len() ==> all.contains(#[trigger] some[i]),
    ensures
        top_suffix(some, prefix) <= top_suffix(all, prefix),
    decreases some.len(),
{
    if some.len() > 0 {
        assert(all.contains(some[some.len() - 1]));
        let k = choose|k: int| 0 <= k < all.len() && all[k] == some.last();
        lemma_top_suffix(all, prefix, k);
        assert forall|i: int| 0 <= i < some.drop_last().len() implies all.contains(#[trigger] some.drop_last()[i]) by {
            assert(all.contains(some[i]));
        }
        lemma_top_suffix_within(some.drop_last(), all, prefix);
    }
}

/// The id the next ticket gets is worn by no ticket on the board, hand-named ones included.
pub proof fn next_ticket_id_is_fresh(b: BoardModel)
    requires
        b.ticket_seq() <= u64::MAX,
    ensures
        !b.has_ticket(ticket_name(b.ticket_seq())),
        forall|i: int| 0 <= i < b.tickets.len() ==> (#[trigger] b.tickets[i]).id != ticket_name(b.ticket_seq()),
{
    let name = ticket_name(b.ticket_seq());
    let ids = ticket_ids(b.tickets);
    lemma_suffix_of_name(b.ticket_seq(), "K-"@);
    assert forall|i: int| 0 <= i < b.tickets.len() implies (#[trigger] b.tickets[i]).id != name by {
        lemma_top_suffix(ids, "K-"@, i);
        assert(ids[i] == b.tickets[i].id);
    }
    lemma_position_least(ids, name);
}

/// The id the next epic gets is worn by no epic on the board.
pub proof fn next_epic_id_is_fresh(b: BoardModel)
    requires
        b.epic_seq() <= u64::MAX,
    ensures
        !b.has_epic(epic_name(b.epic_seq())),
        forall|i: int| 0 <= i < b.epics.len() ==> (#[trigger] b.epics[i]).id != epic_name(b.epic_seq()),
{
    let name = epic_name(b.epic_seq());
    let ids = epic_ids(b.epics);
    lemma_suffix_of_name(b.epic_seq(), "EP-"@);
    assert forall|i: int| 0 <= i < b.epics.len() implies (#[trigger] b.epics[i]).id != name by {
        lemma_top_suffix(ids, "EP-"@, i);
        assert(ids[i] == b.epics[i].id);
    }
    lemma_position_least(ids, name);
}

/// A ticket number is issued once: after minting, no board whose counter has not fallen back, whatever tickets it still
/// holds, gives the same id again.
pub proof fn ticket_ids_are_minted_once(b: BoardModel, later: BoardModel)
    requires
        b.ticket_seq() < u64::MAX,
        later.next_ticket_seq >= b.minted_ticket().next_ticket_seq,
    ensures
        later.ticket_seq() > b.ticket_seq(),
        ticket_name(later.ticket_seq()) != ticket_name(b.ticket_seq()),
{
    let (m, n) = (later.ticket_seq(), b.ticket_seq());
    if ticket_name(m) == ticket_name(n) {
        assert(ticket_name(m).subrange(2, ticket_name(m).len() as int) =~= decimal(m)) by {
            reveal_strlit("K-");
        }
        assert(ticket_name(n).subrange(2, ticket_name(n).len() as int) =~= decimal(n)) by {
            reveal_strlit("K-");
        }
        crate::text::decimal_is_injective(m, n);
    }
}

/// Different numbers give different ticket ids, so a batch of minted ids holds no id twice.
pub proof fn ticket_names_differ(m: nat, n: nat)
    requires
        m != n,
    ensures
        ticket_name(m) != ticket_name(n),
{
    if ticket_name(m) == ticket_name(n) {
        reveal_strlit("K-");
        assert(ticket_name(m).subrange(2, ticket_name(m).len() as int) =~= decimal(m));
        assert(ticket_name(n).subrange(2, ticket_name(n).len() as int) =~= decimal(n));
        crate::text::decimal_is_injective(m, n);
    }
}

/// Flooring the counters twice is flooring them once, and it never lowers them.
pub proof fn reconciling_is_idempotent(b: BoardModel)
    requires
        b.counters_fit(),
    ensures
        b.reconciled().reconciled() == b.reconciled(),
        b.reconciled().next_ticket_seq >= b.next_ticket_seq,
        b.reconciled().next_epic_seq >= b.next_epic_seq,
        b.reconciled().counters_fit(),
{
}

/// Migrating a migrated board changes nothing, and migrating never touches tickets, epics or the version.
pub proof fn migrating_is_idempotent(b: BoardModel)
    requires
        b.counters_fit(),
        b.schema <= CURRENT_SCHEMA,
    ensures
        migrated(migrated(b)) == migrated(b),
        migrated(b).schema == CURRENT_SCHEMA,
        migrated(b).tickets == b.tickets,
        migrated(b).epics == b.epics,
        migrated(b).version == b.version,
{
}

/// A ticket stands in the column it is kept in; it has the branch that is kept there, and in `todo` none. It has landed when
/// it is done and was not discarded.
pub proof fn a_column_says_where_the_ticket_stands(c: ColumnModel)
    ensures
        c.id() == ColumnId::Todo <==> c is Todo,
        c.id() == ColumnId::Doing <==> c is Doing,
        c.id() == ColumnId::Review <==> c is Review,
        c.id() == ColumnId::Done <==> c is Done,
        c is Todo ==> c.branch() is None,
        c is Doing ==> c.branch() == c->Doing_branch,
        c is Review ==> c.branch() == c->Review_branch,
        c is Done ==> c.branch() == c->Done_branch,
        c.landed() <==> c is Done && !c->discarded,
{
}

/// A binding to an issue names GitHub, the kind and the number, is open, and has neither a flag nor parts. Only a binding to
/// an issue of GitHub counts as one.
pub proof fn a_fresh_binding_is_an_open_issue(e: ExternalModel, number: u64)
    ensures
        ({
            let x = ExternalModel::issue(number);
            &&& x.is_issue() && x.number == number && !x.closed && x.flag is None && x.sub_issues.len() == 0
            &&& x.provider == "github"@ && x.kind == "issue"@
        }),
        e.is_issue() <==> e.provider == "github"@ && e.kind == "issue"@,
{
}

/// An item is found by its id: the first under it, and none when nothing stands under it. A column's tickets are those that
/// stand in it, in board order.
pub proof fn an_item_is_found_by_its_id(b: BoardModel, id: Text, column: ColumnId)
    ensures
        b.ticket(id) is None <==> forall|i: int| 0 <= i < b.tickets.len() ==> (#[trigger] b.tickets[i]).id != id,
        b.ticket(id) matches Some(t) ==> t.id == id && b.tickets.contains(t),
        b.epic(id) is None <==> forall|i: int| 0 <= i < b.epics.len() ==> (#[trigger] b.epics[i]).id != id,
        b.epic(id) matches Some(e) ==> e.id == id && b.epics.contains(e),
        b.tickets_in(column) == b.tickets.filter(|t: TicketModel| t.column.id() == column),
{
    let ts = ticket_ids(b.tickets);
    lemma_position_least(ts, id);
    if b.ticket(id) is Some {
        assert(ts[b.ticket_at(id)] == id);
        assert(b.tickets[b.ticket_at(id)].id == id);
    } else {
        assert forall|i: int| 0 <= i < b.tickets.len() implies (#[trigger] b.tickets[i]).id != id by {
            assert(ts[i] == b.tickets[i].id);
        }
    }
    let es = epic_ids(b.epics);
    lemma_position_least(es, id);
    if b.epic(id) is Some {
        assert(es[b.epic_at(id)] == id);
        assert(b.epics[b.epic_at(id)].id == id);
    } else {
        assert forall|i: int| 0 <= i < b.epics.len() implies (#[trigger] b.epics[i]).id != id by {
            assert(es[i] == b.epics[i].id);
        }
    }
    lemma_in_column(b.tickets, column);
}

proof fn lemma_in_column(ts: Seq<TicketModel>, column: ColumnId)
    ensures
        in_column(ts, column) == ts.filter(|t: TicketModel| t.column.id() == column),
    decreases ts.len(),
{
    reveal(Seq::filter);
    if ts.len() > 0 {
        lemma_in_column(ts.drop_last(), column);
    }
}

/// The next number is the counter, unless an id in use has reached it: then it is the one behind the highest id in use.
pub proof fn the_next_number_is_above_every_id(b: BoardModel)
    ensures
        b.ticket_seq() >= b.next_ticket_seq && b.ticket_seq() > top_suffix(ticket_ids(b.tickets), "K-"@),
        b.ticket_seq() == b.next_ticket_seq || b.ticket_seq() == top_suffix(ticket_ids(b.tickets), "K-"@) + 1,
        b.epic_seq() >= b.next_epic_seq && b.epic_seq() > top_suffix(epic_ids(b.epics), "EP-"@),
        b.epic_seq() == b.next_epic_seq || b.epic_seq() == top_suffix(epic_ids(b.epics), "EP-"@) + 1,
{
}

} // verus!
