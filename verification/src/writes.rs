//! What a pass over the board writes: its operations as data, and which refusals are no failure of the pass.
use vstd::prelude::*;

use crate::minesweeper::DELEGATE_AGENT;
use crate::ops::{is_landing, is_note, is_set_pr, note_op, Op, OpError, SubIssueModel, SubIssueSpec};
use crate::seqs::{models, opt_model};
use crate::store::model::{clone_opt, ColumnId, External, ExternalModel, PrModel, PrRef, TicketId};
use crate::text::Text;

verus! {

broadcast use crate::seqs::group_models;

/// One write of a pass.
#[derive(Debug)]
pub enum Write {
    /// Record the ticket's pull request.
    Request { id: TicketId, pr: PrRef },
    /// Note something on the card, in the board's own name.
    Note { id: TicketId, text: String },
    /// Land the ticket, where it is still in review on that branch.
    Land { id: TicketId, branch: Option<String>, reason: String },
    /// Move the ticket to the bottom of review, on that branch.
    Review { id: TicketId, head: String },
    /// Mirror the items a delegated work item was split into.
    Mirror { id: TicketId, children: Vec<SubIssueSpec> },
    /// Write the observed work item onto the ticket.
    Bind { id: TicketId, external: External },
}

pub enum WriteModel {
    Request { id: Text, pr: PrModel },
    Note { id: Text, text: Text },
    Land { id: Text, branch: Option<Text>, reason: Text },
    Review { id: Text, head: Text },
    Mirror { id: Text, children: Seq<SubIssueModel> },
    Bind { id: Text, external: ExternalModel },
}

impl View for Write {
    type V = WriteModel;

    open spec fn view(&self) -> WriteModel {
        match self {
            Write::Request { id, pr } => WriteModel::Request { id: id@, pr: pr@ },
            Write::Note { id, text } => WriteModel::Note { id: id@, text: text@ },
            Write::Land { id, branch, reason } => WriteModel::Land { id: id@, branch: opt_model(*branch), reason: reason@ },
            Write::Review { id, head } => WriteModel::Review { id: id@, head: head@ },
            Write::Mirror { id, children } => WriteModel::Mirror { id: id@, children: models(children@) },
            Write::Bind { id, external } => WriteModel::Bind { id: id@, external: external@ },
        }
    }
}

impl WriteModel {
    /// The ticket it is made on.
    pub open spec fn ticket(self) -> Text {
        match self {
            WriteModel::Request { id, .. } => id,
            WriteModel::Note { id, .. } => id,
            WriteModel::Land { id, .. } => id,
            WriteModel::Review { id, .. } => id,
            WriteModel::Mirror { id, .. } => id,
            WriteModel::Bind { id, .. } => id,
        }
    }
}

/// `op` is the operation of a write.
pub open spec fn carries_out(op: Op, w: WriteModel) -> bool {
    match w {
        WriteModel::Request { id, pr } => is_set_pr(op, id, pr),
        WriteModel::Note { id, text } => is_note(op, id, text, "kanban"@),
        WriteModel::Land { id, branch, reason } => is_landing(op, id, branch, reason),
        WriteModel::Review { id, head } => op matches Op::MoveTicket { id: of, to, position, owner, branch: b } && of@ == id
            && to == ColumnId::Review && position is None && owner is None && opt_model(b) == Some(head),
        WriteModel::Mirror { id, children } => op matches Op::MirrorSubIssues { parent, agent, children: specs } && parent@
            == id && agent@ == DELEGATE_AGENT@ && models(specs@) == children,
        WriteModel::Bind { id, external } => op matches Op::BindExternal { id: of, external: e } && of@ == id && opt_model(e)
            == Some(external),
    }
}

/// The sub-issues, copied.
fn clone_specs(v: &Vec<SubIssueSpec>) -> (r: Vec<SubIssueSpec>)
    ensures
        models(r@) == models(v@),
{
    let mut out: Vec<SubIssueSpec> = Vec::new();
    let mut i: usize = 0;
    while i < v.len()
        invariant
            i <= v@.len(),
            out@.len() == i,
            forall|j: int| 0 <= j < i ==> (#[trigger] out@[j])@ == v@[j]@,
        decreases v@.len() - i,
    {
        out.push(v[i].clone());
        i = i + 1;
    }
    assert(models(out@) =~= models(v@));
    out
}

impl Write {
    /// The ticket it is made on.
    pub fn ticket(&self) -> (r: &TicketId)
        ensures
            r@ == self@.ticket(),
    {
        match self {
            Write::Request { id, .. } => id,
            Write::Note { id, .. } => id,
            Write::Land { id, .. } => id,
            Write::Review { id, .. } => id,
            Write::Mirror { id, .. } => id,
            Write::Bind { id, .. } => id,
        }
    }

    /// The operation that carries it out.
    pub fn op(&self) -> (r: Op)
        ensures
            carries_out(r, self@),
    {
        match self {
            Write::Request { id, pr } => Op::SetPr { id: id.clone(), pr: Some(pr.clone()) },
            Write::Note { id, text } => note_op(id, text.clone()),
            Write::Land { id, branch, reason } => Op::LandTicket {
                id: id.clone(),
                expected_branch: clone_opt(branch),
                reason: reason.clone(),
            },
            Write::Review { id, head } => Op::MoveTicket {
                id: id.clone(),
                to: ColumnId::Review,
                position: None,
                owner: None,
                branch: Some(head.clone()),
            },
            Write::Mirror { id, children } => Op::MirrorSubIssues {
                parent: id.clone(),
                agent: DELEGATE_AGENT.to_owned(),
                children: clone_specs(children),
            },
            Write::Bind { id, external } => Op::BindExternal { id: id.clone(), external: Some(external.clone()) },
        }
    }

    /// Whether the pass goes on when the board refuses this write. A landing is tried again from fresh state by the next
    /// offline pass, whatever stopped it; a move that the board has overtaken has become pointless.
    pub fn tolerates(&self, e: &OpError) -> (r: bool)
        ensures
            r == match self@ {
                WriteModel::Land { .. } => true,
                WriteModel::Review { .. } => *e is Invalid,
                _ => false,
            },
    {
        match self {
            Write::Land { .. } => true,
            Write::Review { .. } => match e {
                OpError::Invalid(_) => true,
                _ => false,
            },
            _ => false,
        }
    }
}

// ---- laws -----------------------------------------------------------------------------------------------------------

/// Every write is made on the ticket it names, by an operation on that ticket.
pub proof fn a_write_is_made_on_its_ticket(op: Op, w: WriteModel)
    requires
        carries_out(op, w),
    ensures
        match op {
            Op::SetPr { id, pr } => id@ == w.ticket() && w is Request && opt_model(pr) == Some(w->Request_pr),
            Op::AddNote { id, text, author } => id@ == w.ticket() && w is Note && text@ == w->Note_text && opt_model(author)
                == Some("kanban"@),
            Op::LandTicket { id, expected_branch: branch, reason } => id@ == w.ticket() && w is Land && opt_model(branch) == w->Land_branch
                && reason@ == w->Land_reason,
            Op::MoveTicket { id, to, position, owner, branch } => id@ == w.ticket() && w is Review && to == ColumnId::Review
                && position is None && owner is None && opt_model(branch) == Some(w->Review_head),
            Op::MirrorSubIssues { parent, agent, children } => parent@ == w.ticket() && w is Mirror && agent@
                == "minesweeper"@ && models(children@) == w->Mirror_children,
            Op::BindExternal { id, external } => id@ == w.ticket() && w is Bind && opt_model(external) == Some(
                w->Bind_external,
            ),
            _ => false,
        },
{
}

} // verus!
