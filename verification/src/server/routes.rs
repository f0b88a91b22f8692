//! From a form to an operation, and from a refusal to a toast.
use vstd::prelude::*;

use crate::config::{Config, ConfigModel};
use crate::ops::{EpicPatch, Op, OpError, OpErrorModel, TicketPatch};
use crate::seqs::{models, opt_model};
use crate::store::derive::{auto_merge, may_auto_merge};
use crate::store::model::{Board, ColumnId, Effort, EpicId, Status, TicketId};
use crate::store::{StoreError, StoreErrorModel};
use crate::text::{concat2, lines, lines_spec, number_upto, parse_upto, split, split_spec, trim, trim_spec, Text};

verus! {

broadcast use crate::seqs::group_models;

// ---- errors ---------------------------------------------------------------------------------------------------------

/// The HTTP statuses a refusal answers with.
pub const NOT_FOUND: u16 = 404;

pub const CONFLICT: u16 = 409;

pub const UNPROCESSABLE: u16 = 422;

pub const INTERNAL_ERROR: u16 = 500;

/// A failed request, shown as a toast. `refresh` asks the browser to fetch the board again at once.
#[derive(Debug, PartialEq)]
pub struct AppError {
    pub status: u16,
    pub message: String,
    pub refresh: bool,
}

pub struct AppErrorModel {
    pub status: u16,
    pub message: Text,
    pub refresh: bool,
}

impl View for AppError {
    type V = AppErrorModel;

    open spec fn view(&self) -> AppErrorModel {
        AppErrorModel { status: self.status, message: self.message@, refresh: self.refresh }
    }
}

/// An input that makes no sense.
pub open spec fn bad_request_error(message: Text) -> AppErrorModel {
    AppErrorModel { status: UNPROCESSABLE, message, refresh: false }
}

/// Something that is not on the board.
pub open spec fn not_found_error(what: Text) -> AppErrorModel {
    AppErrorModel { status: NOT_FOUND, message: what + " not found"@, refresh: false }
}

/// How a refused operation is answered. A stale version also asks for a refresh: the user acted on a board that no longer
/// exists.
pub open spec fn op_error(e: OpErrorModel) -> AppErrorModel {
    match e {
        OpErrorModel::Store(StoreErrorModel::VersionConflict { .. }) => AppErrorModel {
            status: CONFLICT,
            message: "Board changed under you — try again"@,
            refresh: true,
        },
        OpErrorModel::NotFound(_) => AppErrorModel { status: NOT_FOUND, message: e.message(), refresh: false },
        OpErrorModel::AlreadyClaimed { .. } => AppErrorModel { status: CONFLICT, message: e.message(), refresh: false },
        OpErrorModel::Invalid(_) => AppErrorModel { status: UNPROCESSABLE, message: e.message(), refresh: false },
        OpErrorModel::External(_) => AppErrorModel { status: UNPROCESSABLE, message: e.message(), refresh: false },
        OpErrorModel::Store(_) => AppErrorModel { status: INTERNAL_ERROR, message: e.message(), refresh: false },
    }
}

impl AppError {
    pub fn not_found(what: &str) -> (r: AppError)
        ensures
            r@ == not_found_error(what@),
    {
        AppError { status: NOT_FOUND, message: concat2(what, " not found"), refresh: false }
    }

    pub fn bad_request(message: String) -> (r: AppError)
        ensures
            r@ == bad_request_error(message@),
    {
        AppError { status: UNPROCESSABLE, message, refresh: false }
    }

    /// How a refused operation is answered.
    pub fn from_op(e: &OpError) -> (r: AppError)
        ensures
            r@ == op_error(e@),
    {
        if e.version_conflict().is_some() {
            return AppError {
                status: CONFLICT,
                message: "Board changed under you — try again".to_owned(),
                refresh: true,
            };
        }
        let status: u16 = match e {
            OpError::NotFound(_) => NOT_FOUND,
            OpError::AlreadyClaimed { .. } => CONFLICT,
            OpError::Invalid(_) => UNPROCESSABLE,
            OpError::External(_) => UNPROCESSABLE,
            OpError::Store(_) => INTERNAL_ERROR,
        };
        AppError { status, message: e.to_string(), refresh: false }
    }

    /// How an unreadable store is answered.
    pub fn from_store(e: &StoreError) -> (r: AppError)
        ensures
            r@ == (AppErrorModel { status: INTERNAL_ERROR, message: e@.message(), refresh: false }),
    {
        AppError { status: INTERNAL_ERROR, message: e.to_string(), refresh: false }
    }
}

/// The headers of a toast: it goes to the toasts, and a stale board is fetched again at once.
pub open spec fn toast_headers(refresh: bool) -> Seq<(Text, Text)> {
    let base = Seq::<(Text, Text)>::empty().push(("hx-retarget"@, "#toasts"@)).push(("hx-reswap"@, "beforeend"@));
    if refresh {
        base.push(("hx-trigger"@, "kanban:refresh-now"@))
    } else {
        base
    }
}

/// One header of a response.
#[derive(Debug, PartialEq, Eq)]
pub struct Header {
    pub name: &'static str,
    pub value: &'static str,
}

impl View for Header {
    type V = (Text, Text);

    open spec fn view(&self) -> (Text, Text) {
        (self.name@, self.value@)
    }
}

impl AppError {
    /// The headers the toast is sent with.
    pub fn headers(&self) -> (r: Vec<Header>)
        ensures
            models(r@) == toast_headers(self@.refresh),
    {
        let mut out: Vec<Header> = Vec::new();
        out.push(Header { name: "hx-retarget", value: "#toasts" });
        out.push(Header { name: "hx-reswap", value: "beforeend" });
        if self.refresh {
            out.push(Header { name: "hx-trigger", value: "kanban:refresh-now" });
        }
        out
    }
}

/// A pane that is there, or that its subject was not found.
pub fn or_not_found<T>(pane: Option<T>, what: &str) -> (r: Result<T, AppError>)
    ensures
        match (pane, r) {
            (Some(p), Ok(got)) => got == p,
            (None, Err(e)) => e@ == not_found_error(what@),
            _ => false,
        },
{
    match pane {
        Some(p) => Ok(p),
        None => Err(AppError::not_found(what)),
    }
}

/// The spec of a ticket, raw.
pub fn raw_ticket(board: &Board, id: &TicketId) -> (r: Result<String, AppError>)
    ensures
        match (board@.ticket(id@), r) {
            (Some(t), Ok(body)) => body@ == t.body,
            (None, Err(e)) => e@ == not_found_error(id@),
            _ => false,
        },
{
    match board.ticket(id) {
        Some(t) => Ok(t.body.clone()),
        None => Err(AppError::not_found(&id.0)),
    }
}

/// The spec of an epic, raw.
pub fn raw_epic(board: &Board, id: &EpicId) -> (r: Result<String, AppError>)
    ensures
        match (board@.epic(id@), r) {
            (Some(e), Ok(body)) => body@ == e.body,
            (None, Err(e)) => e@ == not_found_error(id@),
            _ => false,
        },
{
    match board.epic(id) {
        Some(e) => Ok(e.body.clone()),
        None => Err(AppError::not_found(&id.0)),
    }
}

// ---- fields ---------------------------------------------------------------------------------------------------------

/// The board version the client was looking at, from the header every mutation carries.
pub fn client_version(header: Option<&str>) -> (r: Result<u64, AppError>)
    ensures
        ({
            let read = match header {
                Some(h) => number_upto(h@, u64::MAX as nat),
                None => None,
            };
            match r {
                Ok(v) => read == Some(v as nat),
                Err(e) => read is None && e@ == bad_request_error("missing or malformed X-Board-Version header"@),
            }
        }),
{
    match header {
        Some(h) => match parse_upto(h, u64::MAX) {
            Some(v) => return Ok(v),
            None => {},
        },
        None => {},
    }
    Err(AppError::bad_request("missing or malformed X-Board-Version header".to_owned()))
}

fn parse_status(s: &str) -> (r: Result<Status, AppError>)
    ensures
        match r {
            Ok(v) => Status::named(s@) == Some(v),
            Err(e) => Status::named(s@) is None && e@ == bad_request_error(
                "'"@ + s@ + "' is not a status (draft/stub/review/ready)"@,
            ),
        },
{
    match Status::parse(s) {
        Ok(v) => Ok(v),
        Err(e) => Err(AppError::bad_request(e)),
    }
}

fn parse_column(s: &str) -> (r: Result<ColumnId, AppError>)
    ensures
        match r {
            Ok(v) => ColumnId::named(s@) == Some(v),
            Err(e) => ColumnId::named(s@) is None && e@ == bad_request_error(
                "'"@ + s@ + "' is not a column (todo/doing/review/done)"@,
            ),
        },
{
    match ColumnId::parse(s) {
        Ok(v) => Ok(v),
        Err(e) => Err(AppError::bad_request(e)),
    }
}

/// The effort a form field asks for: blank means none, anything else must name a level.
pub open spec fn effort_field(s: Text) -> Result<Option<Effort>, AppErrorModel> {
    let t = trim_spec(s);
    if t.len() == 0 {
        Ok(None)
    } else {
        match Effort::named(t) {
            Some(e) => Ok(Some(e)),
            None => Err(
                bad_request_error("'"@ + t + "' is not an effort level (low/medium/high/xhigh/max)"@),
            ),
        }
    }
}

fn parse_effort(s: &str) -> (r: Result<Option<Effort>, AppError>)
    ensures
        match r {
            Ok(v) => effort_field(s@) == Ok::<Option<Effort>, AppErrorModel>(v),
            Err(e) => effort_field(s@) == Err::<Option<Effort>, AppErrorModel>(e@),
        },
{
    let t: String = trim(s);
    if t.as_str().is_empty() {
        return Ok(None);
    }
    match Effort::parse(&t) {
        Ok(e) => Ok(Some(e)),
        Err(e) => Err(AppError::bad_request(e)),
    }
}

/// A field whose empty value means none.
pub open spec fn chosen(s: Text) -> Option<Text> {
    if s.len() == 0 {
        None
    } else {
        Some(s)
    }
}

/// `""`, an unselected option, means none.
pub fn opt(s: String) -> (r: Option<String>)
    ensures
        opt_model(r) == chosen(s@),
{
    if s.as_str().is_empty() {
        None
    } else {
        Some(s)
    }
}

/// The model field is free text: trimmed, and blank means none.
fn parse_model(s: &str) -> (r: Option<String>)
    ensures
        opt_model(r) == chosen(trim_spec(s@)),
{
    opt(trim(s))
}

/// The pieces without white space around them, empty ones dropped.
pub open spec fn trimmed(pieces: Seq<Text>) -> Seq<Text>
    decreases pieces.len(),
{
    if pieces.len() == 0 {
        Seq::empty()
    } else {
        let before = trimmed(pieces.drop_last());
        let t = trim_spec(pieces.last());
        if t.len() == 0 {
            before
        } else {
            before.push(t)
        }
    }
}

fn trim_all(pieces: &Vec<String>) -> (r: Vec<String>)
    ensures
        models(r@) == trimmed(models(pieces@)),
{
    let ghost all = models(pieces@);
    let mut out: Vec<String> = Vec::new();
    let mut i: usize = 0;
    while i < pieces.len()
        invariant
            all == models(pieces@),
            i <= pieces@.len(),
            models(out@) == trimmed(all.take(i as int)),
        decreases pieces@.len() - i,
    {
        proof {
            assert(all.take(i + 1).drop_last() =~= all.take(i as int));
            assert(all.take(i + 1).last() == pieces@[i as int]@);
        }
        let t: String = trim(&pieces[i]);
        if !t.as_str().is_empty() {
            out.push(t);
        }
        i = i + 1;
    }
    assert(all.take(all.len() as int) =~= all);
    out
}

/// Split a comma-separated field into trimmed, non-empty entries.
pub fn csv(s: &str) -> (r: Vec<String>)
    ensures
        models(r@) == trimmed(split_spec(s@, ',')),
{
    trim_all(&split(s, ','))
}

/// The non-blank lines of a field, trimmed.
pub fn entries(s: &str) -> (r: Vec<String>)
    ensures
        models(r@) == trimmed(lines_spec(s@)),
{
    trim_all(&lines(s))
}

fn ticket_ids_of(v: Vec<String>) -> (r: Vec<TicketId>)
    ensures
        models(r@) == models(v@),
{
    let mut out: Vec<TicketId> = Vec::new();
    let mut i: usize = 0;
    while i < v.len()
        invariant
            i <= v@.len(),
            out@.len() == i,
            forall|j: int| 0 <= j < i ==> (#[trigger] out@[j])@ == v@[j]@,
        decreases v@.len() - i,
    {
        out.push(TicketId(v[i].clone()));
        i = i + 1;
    }
    assert(models(out@) =~= models(v@));
    out
}

fn epic_choice(s: String) -> (r: Option<EpicId>)
    ensures
        opt_model(r) == chosen(s@),
{
    match opt(s) {
        Some(e) => Some(EpicId(e)),
        None => None,
    }
}

// ---- tickets --------------------------------------------------------------------------------------------------------

/// The create form of a ticket.
pub struct CreateTicketForm {
    pub title: String,
    pub body: String,
    pub epic: String,
    pub labels: String,
    pub depends_on: String,
    pub status: String,
    pub model: String,
    pub effort: String,
    /// What a checked handover box posts; empty when it is not checked.
    pub minesweeper: String,
}

/// The status a create form has when it does not say.
pub fn default_create_status() -> (r: String)
    ensures
        r@ == "draft"@,
{
    "draft".to_owned()
}

/// The status a create form asks for: handing the ticket over implies that its spec is ready.
pub open spec fn asked_status(form: CreateTicketForm) -> Option<Status> {
    if form.minesweeper@.len() > 0 {
        Some(Status::Ready)
    } else {
        Status::named(form.status@)
    }
}

/// `op` is what the form asks for.
pub open spec fn creates_ticket(form: CreateTicketForm, op: Op) -> bool {
    match op {
        Op::CreateTicket { title, body, epic, labels, depends_on, status, model, effort, auto_merge } => {
            &&& title@ == form.title@
            &&& body@ == form.body@
            &&& opt_model(epic) == chosen(form.epic@)
            &&& models(labels@) == trimmed(split_spec(form.labels@, ','))
            &&& models(depends_on@) == trimmed(split_spec(form.depends_on@, ','))
            &&& asked_status(form) == Some(status)
            &&& opt_model(model) == chosen(trim_spec(form.model@))
            &&& effort_field(form.effort@) == Ok::<Option<Effort>, AppErrorModel>(effort)
            &&& !auto_merge
        },
        _ => false,
    }
}

/// The operation a create form asks for. A bad status is refused before a bad effort.
pub fn create_ticket(form: CreateTicketForm) -> (r: Result<Op, AppError>)
    ensures
        match r {
            Ok(op) => creates_ticket(form, op),
            Err(e) => if asked_status(form) is None {
                e@ == bad_request_error("'"@ + form.status@ + "' is not a status (draft/stub/review/ready)"@)
            } else {
                effort_field(form.effort@) == Err::<Option<Effort>, AppErrorModel>(e@)
            },
        },
{
    let status: Status = if !form.minesweeper.as_str().is_empty() {
        Status::Ready
    } else {
        match parse_status(&form.status) {
            Ok(s) => s,
            Err(e) => return Err(e),
        }
    };
    let effort: Option<Effort> = match parse_effort(&form.effort) {
        Ok(e) => e,
        Err(e) => return Err(e),
    };
    Ok(
        Op::CreateTicket {
            title: form.title,
            body: form.body,
            epic: epic_choice(form.epic),
            labels: csv(&form.labels),
            depends_on: ticket_ids_of(csv(&form.depends_on)),
            status,
            model: parse_model(&form.model),
            effort,
            auto_merge: false,
        },
    )
}

/// The edit form of a ticket.
pub struct UpdateTicketForm {
    pub title: String,
    pub body: String,
    pub epic: String,
    pub labels: String,
    pub depends_on: String,
    pub model: String,
    pub effort: String,
}

/// `patch` sets every field the form has, so that an emptied input clears it, and leaves the auto-merge grant alone.
pub open spec fn patches(form: UpdateTicketForm, patch: TicketPatch) -> bool {
    &&& opt_model(patch.title) == Some(form.title@)
    &&& opt_model(patch.body) == Some(form.body@)
    &&& patch.labels matches Some(l) && models(l@) == trimmed(split_spec(form.labels@, ','))
    &&& patch.depends_on matches Some(d) && models(d@) == trimmed(split_spec(form.depends_on@, ','))
    &&& patch.epic matches Some(e) && opt_model(e) == chosen(form.epic@)
    &&& patch.model matches Some(m) && opt_model(m) == chosen(trim_spec(form.model@))
    &&& patch.effort matches Some(level) && effort_field(form.effort@) == Ok::<Option<Effort>, AppErrorModel>(level)
    &&& patch.auto_merge is None
}

/// The operation an edit form asks for.
pub fn update_ticket(id: TicketId, form: UpdateTicketForm) -> (r: Result<Op, AppError>)
    ensures
        match r {
            Ok(op) => op matches Op::UpdateTicket { id: of, patch } && of == id && patches(form, patch),
            Err(e) => effort_field(form.effort@) == Err::<Option<Effort>, AppErrorModel>(e@),
        },
{
    let effort: Option<Effort> = match parse_effort(&form.effort) {
        Ok(e) => e,
        Err(e) => return Err(e),
    };
    let patch: TicketPatch = TicketPatch {
        title: Some(form.title),
        body: Some(form.body),
        labels: Some(csv(&form.labels)),
        depends_on: Some(ticket_ids_of(csv(&form.depends_on))),
        epic: Some(epic_choice(form.epic)),
        model: Some(parse_model(&form.model)),
        effort: Some(effort),
        auto_merge: None,
    };
    Ok(Op::UpdateTicket { id, patch })
}

/// What saving an edit form with the handover box checked does besides: the ticket becomes ready, and is handed over then.
pub fn ready_for_handover(id: TicketId, checkbox: &str) -> (r: Option<Op>)
    ensures
        if checkbox@.len() > 0 {
            r matches Some(op) && (op matches Op::SetTicketStatus { id: of, status } && of == id && status == Status::Ready)
        } else {
            r is None
        },
{
    if checkbox.is_empty() {
        None
    } else {
        Some(Op::SetTicketStatus { id, status: Status::Ready })
    }
}

/// A drop of a dragged card.
pub struct MoveForm {
    pub to: String,
    pub position: Option<usize>,
}

/// The operation a drop asks for. Whoever sits at the browser owns a card dropped into `doing`.
pub fn move_ticket(id: TicketId, form: MoveForm, owner: &str) -> (r: Result<Op, AppError>)
    ensures
        match r {
            Ok(op) => op matches Op::MoveTicket { id: of, to, position, owner: o, branch } && of == id && ColumnId::named(
                form.to@,
            ) == Some(to) && position == form.position && opt_model(o) == Some(owner@) && branch is None,
            Err(e) => ColumnId::named(form.to@) is None && e@ == bad_request_error(
                "'"@ + form.to@ + "' is not a column (todo/doing/review/done)"@,
            ),
        },
{
    let to: ColumnId = match parse_column(&form.to) {
        Ok(c) => c,
        Err(e) => return Err(e),
    };
    Ok(Op::MoveTicket { id, to, position: form.position, owner: Some(owner.to_owned()), branch: None })
}

/// A status button.
pub struct StatusForm {
    pub status: String,
}

/// The operation a ticket's status button asks for.
pub fn ticket_status(id: TicketId, form: StatusForm) -> (r: Result<Op, AppError>)
    ensures
        match r {
            Ok(op) => op matches Op::SetTicketStatus { id: of, status } && of == id && Status::named(form.status@) == Some(
                status,
            ),
            Err(e) => Status::named(form.status@) is None && e@ == bad_request_error(
                "'"@ + form.status@ + "' is not a status (draft/stub/review/ready)"@,
            ),
        },
{
    match parse_status(&form.status) {
        Ok(status) => Ok(Op::SetTicketStatus { id, status }),
        Err(e) => Err(e),
    }
}

/// `patch` sets the auto-merge grant and nothing else.
pub open spec fn only_auto_merge(patch: TicketPatch, on: bool) -> bool {
    patch.title is None && patch.body is None && patch.labels is None && patch.depends_on is None && patch.epic is None
        && patch.model is None && patch.effort is None && patch.auto_merge == Some(on)
}

/// The operation a ticket's auto-merge toggle asks for: the opposite of what the pane showed, written to the ticket's own
/// flag only.
pub fn ticket_auto_merge(board: &Board, id: TicketId) -> (r: Result<Op, AppError>)
    ensures
        match r {
            Ok(op) => board@.ticket(id@) matches Some(t) && op matches Op::UpdateTicket { id: of, patch } && of == id
                && only_auto_merge(patch, !may_auto_merge(t, board@)),
            Err(e) => board@.ticket(id@) is None && e@ == not_found_error(id@),
        },
{
    let on: bool = match board.ticket(&id) {
        Some(t) => auto_merge(t, board),
        None => return Err(AppError::not_found(&id.0)),
    };
    let mut patch: TicketPatch = TicketPatch::default();
    patch.auto_merge = Some(!on);
    Ok(Op::UpdateTicket { id, patch })
}

/// A note.
pub struct NoteForm {
    pub text: String,
}

/// The operation a note form asks for.
pub fn add_note(id: TicketId, form: NoteForm, author: &str) -> (r: Op)
    ensures
        r matches Op::AddNote { id: of, text, author: a } && of == id && text@ == form.text@ && opt_model(a) == Some(author@),
{
    Op::AddNote { id, text: form.text, author: Some(author.to_owned()) }
}

/// Why a ticket is discarded from the board: who did it, and the comment when there is one.
pub open spec fn discard_reason(owner: Text, comment: Text) -> Text {
    if trim_spec(comment).len() == 0 {
        "discarded from the board by "@ + owner
    } else {
        "discarded from the board by "@ + owner + ": "@ + trim_spec(comment)
    }
}

/// The operation the discard button asks for.
pub fn discard_ticket(id: TicketId, owner: &str, comment: &str) -> (r: Op)
    ensures
        r matches Op::DiscardTicket { id: of, reason } && of == id && reason@ == discard_reason(owner@, comment@),
{
    let said: String = trim(comment);
    let reason: String = if said.as_str().is_empty() {
        concat2("discarded from the board by ", owner)
    } else {
        crate::text::concat4("discarded from the board by ", owner, ": ", &said)
    };
    Op::DiscardTicket { id, reason }
}

/// Why a ticket gets no review pane.
pub open spec fn not_reviewable(id: Text) -> Text {
    id + " is not a review ticket to judge here"@
}

/// The review pane, or why there is none: only a review ticket that is worked here can be judged here.
pub fn or_not_reviewable<T>(pane: Option<T>, id: &TicketId) -> (r: Result<T, AppError>)
    ensures
        match (pane, r) {
            (Some(p), Ok(got)) => got == p,
            (None, Err(e)) => e@ == bad_request_error(not_reviewable(id@)),
            _ => false,
        },
{
    match pane {
        Some(p) => Ok(p),
        None => Err(AppError::bad_request(concat2(&id.0, " is not a review ticket to judge here"))),
    }
}

/// The operation the send-back button asks for.
pub fn request_changes(id: TicketId, owner: &str, comment: String) -> (r: Op)
    ensures
        r matches Op::RequestChanges { id: of, comment: said, author } && of == id && said == comment && author@ == owner@,
{
    Op::RequestChanges { id, comment, author: owner.to_owned() }
}

/// The operations the accept button asks for: the ticket is done, kept, and the comment is the last word on its log, when
/// there is one.
pub fn accept_ticket(id: TicketId, owner: &str, comment: &str) -> (r: Vec<Op>)
    ensures
        r@.len() == (if trim_spec(comment@).len() == 0 {
            1nat
        } else {
            2nat
        }),
        r@[0] matches Op::MoveTicket { id: of, to, position, owner: by, branch } && of@ == id@ && to == ColumnId::Done
            && position is None && by is None && branch is None,
        r@.len() == 2 ==> crate::ops::is_note(r@[1], id@, trim_spec(comment@), owner@),
{
    let said: String = trim(comment);
    let mut ops: Vec<Op> = Vec::new();
    ops.push(Op::MoveTicket { id: id.clone(), to: ColumnId::Done, position: None, owner: None, branch: None });
    if !said.as_str().is_empty() {
        ops.push(Op::AddNote { id, text: said, author: Some(owner.to_owned()) });
    }
    ops
}

/// The operation the delete button asks for.
pub fn delete_ticket(id: TicketId) -> (r: Op)
    ensures
        r matches Op::DeleteTicket { id: of } && of == id,
{
    Op::DeleteTicket { id }
}

/// The note that records a pull request: whether it was created or was open already.
pub open spec fn pr_note_text(created: bool, url: Text) -> Text {
    if created {
        "PR created: "@ + url
    } else {
        "PR already open: "@ + url
    }
}

/// The operation that records a pull request on the card.
pub fn create_pr(id: TicketId, created: bool, url: &str, author: &str) -> (r: Op)
    ensures
        r matches Op::AddNote { id: of, text, author: a } && of == id && text@ == pr_note_text(created, url@) && opt_model(a)
            == Some(author@),
{
    let text: String = if created {
        concat2("PR created: ", url)
    } else {
        concat2("PR already open: ", url)
    };
    Op::AddNote { id, text, author: Some(author.to_owned()) }
}

// ---- epics ----------------------------------------------------------------------------------------------------------

/// The create form of an epic.
pub struct CreateEpicForm {
    pub title: String,
    pub body: String,
    pub color: String,
    pub status: String,
}

/// The operation an epic's create form asks for.
pub fn create_epic(form: CreateEpicForm) -> (r: Result<Op, AppError>)
    ensures
        match r {
            Ok(op) => op matches Op::CreateEpic { title, color, body, status, auto_merge } && title@ == form.title@
                && opt_model(color) == chosen(form.color@) && body@ == form.body@ && Status::named(form.status@) == Some(
                status,
            ) && !auto_merge,
            Err(e) => Status::named(form.status@) is None && e@ == bad_request_error(
                "'"@ + form.status@ + "' is not a status (draft/stub/review/ready)"@,
            ),
        },
{
    let status: Status = match parse_status(&form.status) {
        Ok(s) => s,
        Err(e) => return Err(e),
    };
    Ok(Op::CreateEpic { title: form.title, color: opt(form.color), body: form.body, status, auto_merge: false })
}

/// The edit form of an epic.
pub struct UpdateEpicForm {
    pub title: String,
    pub color: String,
    pub body: String,
}

/// The operation an epic's edit form asks for. No colour leaves the colour alone.
pub fn update_epic(id: EpicId, form: UpdateEpicForm) -> (r: Op)
    ensures
        r matches Op::UpdateEpic { id: of, patch } && of == id && opt_model(patch.title) == Some(form.title@) && opt_model(
            patch.color,
        ) == chosen(form.color@) && opt_model(patch.body) == Some(form.body@) && patch.auto_merge is None,
{
    let patch: EpicPatch = EpicPatch {
        title: Some(form.title),
        color: opt(form.color),
        body: Some(form.body),
        auto_merge: None,
    };
    Op::UpdateEpic { id, patch }
}

/// The operation an epic's status button asks for.
pub fn epic_status(id: EpicId, form: StatusForm) -> (r: Result<Op, AppError>)
    ensures
        match r {
            Ok(op) => op matches Op::SetEpicStatus { id: of, status } && of == id && Status::named(form.status@) == Some(status),
            Err(e) => Status::named(form.status@) is None && e@ == bad_request_error(
                "'"@ + form.status@ + "' is not a status (draft/stub/review/ready)"@,
            ),
        },
{
    match parse_status(&form.status) {
        Ok(status) => Ok(Op::SetEpicStatus { id, status }),
        Err(e) => Err(e),
    }
}

/// The operation an epic's auto-merge toggle asks for.
pub fn epic_auto_merge(board: &Board, id: EpicId) -> (r: Result<Op, AppError>)
    ensures
        match r {
            Ok(op) => board@.epic(id@) matches Some(e) && op matches Op::UpdateEpic { id: of, patch } && of == id
                && patch.auto_merge == Some(!e.auto_merge) && patch.title is None && patch.color is None && patch.body is None,
            Err(e) => board@.epic(id@) is None && e@ == not_found_error(id@),
        },
{
    let on: bool = match board.epic(&id) {
        Some(e) => e.auto_merge,
        None => return Err(AppError::not_found(&id.0)),
    };
    let mut patch: EpicPatch = EpicPatch::default();
    patch.auto_merge = Some(!on);
    Ok(Op::UpdateEpic { id, patch })
}

/// The operation an epic's delete button asks for.
pub fn delete_epic(id: EpicId) -> (r: Op)
    ensures
        r matches Op::DeleteEpic { id: of } && of == id,
{
    Op::DeleteEpic { id }
}

// ---- settings -------------------------------------------------------------------------------------------------------

/// The settings form: every key, as text.
pub struct SettingsForm {
    pub worktree_root: String,
    pub copy_to_worktrees: String,
    pub max_workers: String,
    pub idle_time: String,
    pub port: String,
    pub main_branch: String,
    pub poll_interval: String,
    /// What a checked box posts; empty when it is not checked.
    pub minesweeper: String,
    pub minesweeper_label: String,
    pub minesweeper_flag_labels: String,
    pub models: String,
}

/// A numeric field: blank means unset, anything else must be a number no greater than `max`.
pub open spec fn number_field(raw: Text, max: nat, field: Text) -> Result<Option<nat>, AppErrorModel> {
    let t = trim_spec(raw);
    if t.len() == 0 {
        Ok(None)
    } else {
        match number_upto(t, max) {
            Some(n) => Ok(Some(n)),
            None => Err(bad_request_error(field + " must be a whole number (or empty)"@)),
        }
    }
}

fn number(raw: &str, max: u64, field: &str) -> (r: Result<Option<u64>, AppError>)
    ensures
        match r {
            Ok(Some(n)) => number_field(raw@, max as nat, field@) == Ok::<Option<nat>, AppErrorModel>(Some(n as nat)) && n
                <= max,
            Ok(None) => number_field(raw@, max as nat, field@) == Ok::<Option<nat>, AppErrorModel>(None),
            Err(e) => number_field(raw@, max as nat, field@) == Err::<Option<nat>, AppErrorModel>(e@),
        },
{
    let t: String = trim(raw);
    if t.as_str().is_empty() {
        return Ok(None);
    }
    match parse_upto(&t, max) {
        Some(n) => Ok(Some(n)),
        None => Err(AppError::bad_request(concat2(field, " must be a whole number (or empty)"))),
    }
}

/// The configuration a settings form asks for, or the first numeric field that is no number.
pub open spec fn settings_spec(form: SettingsForm) -> Result<ConfigModel, AppErrorModel> {
    match number_field(form.max_workers@, usize::MAX as nat, "max_workers"@) {
        Err(e) => Err(e),
        Ok(workers) => match number_field(form.idle_time@, u64::MAX as nat, "idle_time"@) {
            Err(e) => Err(e),
            Ok(idle) => match number_field(form.port@, u16::MAX as nat, "port"@) {
                Err(e) => Err(e),
                Ok(port) => match number_field(form.poll_interval@, u64::MAX as nat, "poll_interval"@) {
                    Err(e) => Err(e),
                    Ok(poll) => Ok(
                        ConfigModel {
                            worktree_root: chosen(trim_spec(form.worktree_root@)),
                            copy_to_worktrees: trimmed(lines_spec(form.copy_to_worktrees@)),
                            max_workers: match workers {
                                Some(n) => Some(n as usize),
                                None => None,
                            },
                            idle_time: match idle {
                                Some(n) => Some(n as u64),
                                None => None,
                            },
                            port: match port {
                                Some(n) => Some(n as u16),
                                None => None,
                            },
                            main_branch: chosen(trim_spec(form.main_branch@)),
                            poll_interval: match poll {
                                Some(n) => Some(n as u64),
                                None => None,
                            },
                            minesweeper: Some(form.minesweeper@.len() > 0),
                            minesweeper_label: chosen(trim_spec(form.minesweeper_label@)),
                            minesweeper_flag_labels: trimmed(split_spec(form.minesweeper_flag_labels@, ',')),
                            models: trimmed(lines_spec(form.models@)),
                        },
                    ),
                },
            },
        },
    }
}

impl SettingsForm {
    /// Empty fields mean unset; a numeric field that is no number is refused.
    pub fn into_config(self) -> (r: Result<Config, AppError>)
        ensures
            match r {
                Ok(c) => settings_spec(self) == Ok::<ConfigModel, AppErrorModel>(c@),
                Err(e) => settings_spec(self) == Err::<ConfigModel, AppErrorModel>(e@),
            },
    {
        let max_workers: Option<usize> = match number(&self.max_workers, usize::MAX as u64, "max_workers") {
            Ok(Some(n)) => Some(n as usize),
            Ok(None) => None,
            Err(e) => return Err(e),
        };
        let idle_time: Option<u64> = match number(&self.idle_time, u64::MAX, "idle_time") {
            Ok(n) => n,
            Err(e) => return Err(e),
        };
        let port: Option<u16> = match number(&self.port, u16::MAX as u64, "port") {
            Ok(Some(n)) => Some(n as u16),
            Ok(None) => None,
            Err(e) => return Err(e),
        };
        let poll_interval: Option<u64> = match number(&self.poll_interval, u64::MAX, "poll_interval") {
            Ok(n) => n,
            Err(e) => return Err(e),
        };
        Ok(
            Config {
                worktree_root: opt(trim(&self.worktree_root)),
                copy_to_worktrees: entries(&self.copy_to_worktrees),
                max_workers,
                idle_time,
                port,
                main_branch: opt(trim(&self.main_branch)),
                poll_interval,
                minesweeper: Some(!self.minesweeper.as_str().is_empty()),
                minesweeper_label: opt(trim(&self.minesweeper_label)),
                minesweeper_flag_labels: csv(&self.minesweeper_flag_labels),
                models: entries(&self.models),
            },
        )
    }
}

// ---- laws -----------------------------------------------------------------------------------------------------------

/// How each refusal is answered: what is not there with 404, a claim in the way or a stale version with 409, an operation
/// that makes no sense with 422, and a store in trouble with 500. Only a stale version asks for the board again.
pub proof fn refusals_have_their_status(e: OpErrorModel)
    ensures
        ({
            let stale = e is Store && e->Store_0 is VersionConflict;
            let a = op_error(e);
            &&& a.refresh <==> stale
            &&& a.status == 404 <==> e is NotFound
            &&& a.status == 409 <==> e is AlreadyClaimed || stale
            &&& a.status == 422 <==> e is Invalid || e is External
            &&& a.status == 500 <==> e is Store && !stale
            &&& stale ==> a.message == "Board changed under you — try again"@
            &&& !stale ==> a.message == e.message()
        }),
        bad_request_error(e.message()).status == 422 && !bad_request_error(e.message()).refresh,
        not_found_error(e.message()).status == 404 && not_found_error(e.message()).message == e.message() + " not found"@,
{
}

/// A toast goes to the toasts, at their end; a board is fetched again exactly when it is stale.
pub proof fn a_toast_names_its_place(refresh: bool)
    ensures
        toast_headers(refresh).contains(("hx-retarget"@, "#toasts"@)),
        toast_headers(refresh).contains(("hx-reswap"@, "beforeend"@)),
        toast_headers(refresh).len() == if refresh {
            3int
        } else {
            2
        },
        refresh ==> toast_headers(refresh).contains(("hx-trigger"@, "kanban:refresh-now"@)),
{
    let h = toast_headers(refresh);
    assert(h[0] == ("hx-retarget"@, "#toasts"@) && h[1] == ("hx-reswap"@, "beforeend"@));
    if refresh {
        assert(h[2] == ("hx-trigger"@, "kanban:refresh-now"@));
    }
}

/// The pieces of a list field are taken in order, each without the white space around it, and blank ones are left out.
pub proof fn a_list_field_is_trimmed(pieces: Seq<Text>)
    ensures
        trimmed(pieces) == pieces.filter(|p: Text| trim_spec(p).len() > 0).map_values(|p: Text| trim_spec(p)),
    decreases pieces.len(),
{
    reveal(Seq::filter);
    let said = |p: Text| trim_spec(p).len() > 0;
    let bare = |p: Text| trim_spec(p);
    if pieces.len() > 0 {
        a_list_field_is_trimmed(pieces.drop_last());
        let before = pieces.drop_last().filter(said);
        if said(pieces.last()) {
            assert(before.push(pieces.last()).map_values(bare) =~= before.map_values(bare).push(bare(pieces.last())));
        }
    } else {
        assert(pieces.filter(said).map_values(bare) =~= Seq::<Text>::empty());
    }
}

/// An effort field is none when blank, the level it names when it names one, and refused otherwise.
pub proof fn an_effort_field_names_a_level(s: Text)
    ensures
        trim_spec(s).len() == 0 ==> effort_field(s) == Ok::<Option<Effort>, AppErrorModel>(None),
        trim_spec(s).len() > 0 ==> (effort_field(s) is Ok <==> Effort::named(trim_spec(s)) is Some),
        trim_spec(s).len() > 0 && effort_field(s) is Ok ==> effort_field(s)->Ok_0 is Some && (effort_field(s)->Ok_0->0).name()
            == trim_spec(s),
        effort_field(s) matches Err(e) ==> e.status == 422,
{
}

/// A ticket is created as the form says. An epic that is not chosen is none, and so is a model left blank; lists are split at
/// commas. Ticking the handover makes it ready, whatever else the form says; nothing created here may land unseen.
pub proof fn a_form_creates_what_it_says(form: CreateTicketForm, op: Op)
    requires
        creates_ticket(form, op),
    ensures
        op is CreateTicket,
        op->CreateTicket_title@ == form.title@ && op->CreateTicket_body@ == form.body@,
        form.epic@.len() == 0 ==> op->CreateTicket_epic is None,
        form.epic@.len() > 0 ==> opt_model(op->CreateTicket_epic) == Some(form.epic@),
        models(op->CreateTicket_labels@) == trimmed(split_spec(form.labels@, ',')),
        models(op->CreateTicket_depends_on@) == trimmed(split_spec(form.depends_on@, ',')),
        form.minesweeper@.len() > 0 ==> op->CreateTicket_status == Status::Ready,
        form.minesweeper@.len() == 0 ==> op->CreateTicket_status.name() == form.status@,
        trim_spec(form.model@).len() == 0 ==> op->CreateTicket_model is None,
        trim_spec(form.model@).len() > 0 ==> opt_model(op->CreateTicket_model) == Some(trim_spec(form.model@)),
        effort_field(form.effort@) == Ok::<Option<Effort>, AppErrorModel>(op->CreateTicket_effort),
        !op->CreateTicket_auto_merge,
{
}

/// Saving a ticket's form sets every field it shows, so that an emptied one is cleared, and leaves the grant to land alone.
pub proof fn a_saved_form_sets_every_field(form: UpdateTicketForm, patch: TicketPatch)
    requires
        patches(form, patch),
    ensures
        opt_model(patch.title) == Some(form.title@) && opt_model(patch.body) == Some(form.body@),
        patch.labels is Some && models((patch.labels->0)@) == trimmed(split_spec(form.labels@, ',')),
        patch.depends_on is Some && models((patch.depends_on->0)@) == trimmed(split_spec(form.depends_on@, ',')),
        patch.epic is Some && (form.epic@.len() == 0 ==> patch.epic->0 is None) && (form.epic@.len() > 0 ==> opt_model(
            patch.epic->0,
        ) == Some(form.epic@)),
        patch.model is Some && (trim_spec(form.model@).len() == 0 ==> patch.model->0 is None) && (trim_spec(form.model@).len()
            > 0 ==> opt_model(patch.model->0) == Some(trim_spec(form.model@))),
        patch.effort is Some && effort_field(form.effort@) == Ok::<Option<Effort>, AppErrorModel>(patch.effort->0),
        patch.auto_merge is None,
{
}

/// The switch of the grant changes nothing else.
pub proof fn the_grant_is_switched_alone(patch: TicketPatch, on: bool)
    requires
        only_auto_merge(patch, on),
    ensures
        patch.auto_merge == Some(on),
        patch.title is None && patch.body is None && patch.labels is None && patch.depends_on is None && patch.epic is None
            && patch.model is None && patch.effort is None,
{
}

/// A numeric setting is unset when blank, the number it spells when that is small enough, and refused otherwise.
pub proof fn a_numeric_setting_is_a_number(raw: Text, max: nat, field: Text)
    ensures
        trim_spec(raw).len() == 0 ==> number_field(raw, max, field) == Ok::<Option<nat>, AppErrorModel>(None),
        trim_spec(raw).len() > 0 && number_upto(trim_spec(raw), max) is Some ==> number_field(raw, max, field) == Ok::<
            Option<nat>,
            AppErrorModel,
        >(number_upto(trim_spec(raw), max)),
        trim_spec(raw).len() > 0 && number_upto(trim_spec(raw), max) is None ==> number_field(raw, max, field) == Err::<
            Option<nat>,
            AppErrorModel,
        >(AppErrorModel { status: 422, message: field + " must be a whole number (or empty)"@, refresh: false }),
{
}

/// Saving the settings takes every field from the input of its name, or none at all when a number is no number; the first
/// such input is named.
pub proof fn settings_are_saved_whole(form: SettingsForm)
    ensures
        ({
            let r = settings_spec(form);
            let workers = number_field(form.max_workers@, usize::MAX as nat, "max_workers"@);
            let idle = number_field(form.idle_time@, u64::MAX as nat, "idle_time"@);
            let port = number_field(form.port@, u16::MAX as nat, "port"@);
            let poll = number_field(form.poll_interval@, u64::MAX as nat, "poll_interval"@);
            &&& r is Ok <==> workers is Ok && idle is Ok && port is Ok && poll is Ok
            &&& workers matches Err(e) ==> r == Err::<ConfigModel, AppErrorModel>(e)
            &&& workers is Ok && idle is Err ==> r == Err::<ConfigModel, AppErrorModel>(idle->Err_0)
            &&& workers is Ok && idle is Ok && port is Err ==> r == Err::<ConfigModel, AppErrorModel>(port->Err_0)
            &&& workers is Ok && idle is Ok && port is Ok && poll is Err ==> r == Err::<ConfigModel, AppErrorModel>(
                poll->Err_0,
            )
            &&& r matches Ok(c) ==> {
                &&& c.worktree_root == chosen(trim_spec(form.worktree_root@))
                &&& c.copy_to_worktrees == trimmed(lines_spec(form.copy_to_worktrees@))
                &&& c.max_workers is Some <==> workers->Ok_0 is Some
                &&& c.max_workers is Some ==> (c.max_workers->0) as nat == workers->Ok_0->0
                &&& c.idle_time is Some <==> idle->Ok_0 is Some
                &&& c.idle_time is Some ==> (c.idle_time->0) as nat == idle->Ok_0->0
                &&& c.port is Some <==> port->Ok_0 is Some
                &&& c.port is Some ==> (c.port->0) as nat == port->Ok_0->0
                &&& c.poll_interval is Some <==> poll->Ok_0 is Some
                &&& c.poll_interval is Some ==> (c.poll_interval->0) as nat == poll->Ok_0->0
                &&& c.main_branch == chosen(trim_spec(form.main_branch@))
                &&& c.minesweeper == Some(form.minesweeper@.len() > 0)
                &&& c.minesweeper_label == chosen(trim_spec(form.minesweeper_label@))
                &&& c.minesweeper_flag_labels == trimmed(split_spec(form.minesweeper_flag_labels@, ','))
                &&& c.models == trimmed(lines_spec(form.models@))
            }
        }),
        chosen(form.port@) is None <==> form.port@.len() == 0,
        form.port@.len() > 0 ==> chosen(form.port@) == Some(form.port@),
{
}

/// A discard says who did it, and behind that the comment when it says anything.
pub proof fn a_discard_says_who_and_why(owner: Text, comment: Text)
    ensures
        trim_spec(comment).len() == 0 ==> discard_reason(owner, comment) == "discarded from the board by "@ + owner,
        trim_spec(comment).len() > 0 ==> discard_reason(owner, comment) == "discarded from the board by "@ + owner + ": "@
            + trim_spec(comment),
        pr_note_text(true, owner) == "PR created: "@ + owner,
        pr_note_text(false, owner) == "PR already open: "@ + owner,
{
}

/// A pane that judges is refused by the ticket's name.
pub proof fn a_refused_verdict_names_its_ticket(id: Text)
    ensures
        not_reviewable(id) == id + " is not a review ticket to judge here"@,
{
}

} // verus!
