//! Live claims: who is doing something to a ticket right now, and since when.
//!
//! Two kinds of record share the list: ownership of a ticket being worked, and the short in-flight marker on a review
//! ticket being landed.
use vstd::prelude::*;

use super::model::{clone_opt, TicketId};
use crate::seqs::{lemma_position, lemma_position_least, models, opt_model, position};
use crate::text::Text;
use crate::time::{within, Timestamp};

verus! {

broadcast use crate::seqs::group_models;

/// What a live record means.
#[derive(Debug, Clone, Copy, PartialEq, Eq, Structural)]
pub enum ClaimKind {
    /// Somebody owns this ticket and is working it.
    Work,
    /// A review ticket is being landed right now. Not ownership: an interlock against a second landing.
    Landing,
}

impl Default for ClaimKind {
    fn default() -> (r: ClaimKind)
        ensures
            r == ClaimKind::Work,
    {
        ClaimKind::Work
    }
}

/// One live record.
#[derive(Debug, PartialEq)]
pub struct Claim {
    pub ticket: TicketId,
    /// Who is working it.
    pub agent: String,
    pub since: Timestamp,
    /// The ticket's worktree on this machine.
    pub path: Option<String>,
    pub kind: ClaimKind,
}

pub struct ClaimModel {
    pub ticket: Text,
    pub agent: Text,
    pub since: Timestamp,
    pub path: Option<Text>,
    pub kind: ClaimKind,
}

impl View for Claim {
    type V = ClaimModel;

    open spec fn view(&self) -> ClaimModel {
        ClaimModel {
            ticket: self.ticket@,
            agent: self.agent@,
            since: self.since,
            path: opt_model(self.path),
            kind: self.kind,
        }
    }
}

impl Clone for Claim {
    fn clone(&self) -> (r: Claim)
        ensures
            r@ == self@,
    {
        Claim {
            ticket: self.ticket.clone(),
            agent: self.agent.clone(),
            since: self.since,
            path: clone_opt(&self.path),
            kind: self.kind,
        }
    }
}

impl Claim {
    /// Whether this record is an in-flight landing rather than ownership of the work.
    pub fn is_landing(&self) -> (r: bool)
        ensures
            r == (self.kind == ClaimKind::Landing),
    {
        self.kind == ClaimKind::Landing
    }

    /// Whether two records say the same thing.
    pub fn same(&self, other: &Claim) -> (r: bool)
        ensures
            r == (self@ == other@),
    {
        self.ticket.same(&other.ticket) && self.agent == other.agent && self.since == other.since
            && crate::text::same_opt(&self.path, &other.path) && self.kind == other.kind
    }
}

/// How many seconds an in-flight landing stays believable. A landing is seconds of git; anything still marked after this
/// crashed or was killed, and the ticket has to become landable again.
pub const LANDING_STALE_AFTER: u32 = 900;

/// The tickets that some records are on, in order.
pub open spec fn claimed(cs: Seq<ClaimModel>) -> Seq<Text> {
    Seq::new(cs.len(), |i: int| cs[i].ticket)
}

/// Where the record on `ticket` first stands; the number of records when there is none.
pub open spec fn claim_at(cs: Seq<ClaimModel>, ticket: Text) -> int {
    position(claimed(cs), ticket)
}

/// The record on `ticket`.
pub open spec fn found(cs: Seq<ClaimModel>, ticket: Text) -> Option<ClaimModel> {
    if claim_at(cs, ticket) < cs.len() {
        Some(cs[claim_at(cs, ticket)])
    } else {
        None
    }
}

/// The records without the one on `ticket`.
pub open spec fn removed(cs: Seq<ClaimModel>, ticket: Text) -> Seq<ClaimModel> {
    if claim_at(cs, ticket) < cs.len() {
        cs.remove(claim_at(cs, ticket))
    } else {
        cs
    }
}

/// The records with `c` in place of any on the same ticket.
pub open spec fn upserted(cs: Seq<ClaimModel>, c: ClaimModel) -> Seq<ClaimModel> {
    removed(cs, c.ticket).push(c)
}

/// The records without the one on `ticket` if that is a landing.
pub open spec fn without_landing(cs: Seq<ClaimModel>, ticket: Text) -> Seq<ClaimModel> {
    match found(cs, ticket) {
        Some(c) => if c.kind == ClaimKind::Landing {
            removed(cs, ticket)
        } else {
            cs
        },
        None => cs,
    }
}

/// A landing on `ticket` is in flight and recent enough to believe.
pub open spec fn landing_live(cs: Seq<ClaimModel>, ticket: Text, now: Timestamp) -> bool {
    found(cs, ticket) matches Some(c) && c.kind == ClaimKind::Landing && now.instant() - c.since.instant()
        < LANDING_STALE_AFTER * 1_000_000_000
}

/// Where the record on `ticket` first stands.
pub fn claim_index(claims: &[Claim], ticket: &TicketId) -> (r: Option<usize>)
    ensures
        match r {
            Some(i) => i < claims@.len() && i == claim_at(models(claims@), ticket@),
            None => claim_at(models(claims@), ticket@) == claims@.len(),
        },
{
    let ghost ids = claimed(models(claims@));
    let mut i: usize = 0;
    while i < claims.len()
        invariant
            ids == claimed(models(claims@)),
            i <= claims@.len(),
            forall|j: int| 0 <= j < i ==> ids[j] != ticket@,
        decreases claims@.len() - i,
    {
        if claims[i].ticket.same(ticket) {
            proof {
                assert(ids[i as int] == claims@[i as int].ticket@);
                lemma_position(ids, ticket@, i as int);
            }
            return Some(i);
        }
        i = i + 1;
    }
    proof {
        lemma_position(ids, ticket@, i as int);
    }
    None
}

/// The live record on `ticket`, whatever kind it is.
pub fn find<'a>(claims: &'a [Claim], ticket: &TicketId) -> (r: Option<&'a Claim>)
    ensures
        match r {
            Some(c) => found(models(claims@), ticket@) == Some(c@),
            None => found(models(claims@), ticket@) is None,
        },
{
    match claim_index(claims, ticket) {
        Some(i) => Some(&claims[i]),
        None => None,
    }
}

/// Whether a landing on `ticket` is in flight and recent enough to believe.
pub fn landing_in_flight(claims: &[Claim], ticket: &TicketId, now: Timestamp) -> (r: bool)
    ensures
        r == landing_live(models(claims@), ticket@, now),
{
    match find(claims, ticket) {
        Some(c) => c.is_landing() && within(now, c.since, LANDING_STALE_AFTER),
        None => false,
    }
}

/// Drop the record on `ticket` only if it is an in-flight landing, leaving real ownership alone.
pub fn remove_landing(claims: &mut Vec<Claim>, ticket: &TicketId)
    ensures
        models(final(claims)@) == without_landing(models(old(claims)@), ticket@),
{
    let landing: bool = match find(claims.as_slice(), ticket) {
        Some(c) => c.is_landing(),
        None => false,
    };
    if landing {
        let _ = remove(claims, ticket);
    }
}

/// Insert `claim`, replacing any existing record on the same ticket.
pub fn upsert(claims: &mut Vec<Claim>, claim: Claim)
    ensures
        models(final(claims)@) == upserted(models(old(claims)@), claim@),
{
    let _ = remove(claims, &claim.ticket);
    claims.push(claim);
}

/// Drop the record on `ticket`, returning it if one was live.
pub fn remove(claims: &mut Vec<Claim>, ticket: &TicketId) -> (r: Option<Claim>)
    ensures
        models(final(claims)@) == removed(models(old(claims)@), ticket@),
        opt_model(r) == found(models(old(claims)@), ticket@),
{
    match claim_index(claims.as_slice(), ticket) {
        Some(i) => Some(claims.remove(i)),
        None => None,
    }
}

/// Whether two lists of records say the same thing.
pub fn same_claims(a: &Vec<Claim>, b: &Vec<Claim>) -> (r: bool)
    ensures
        r == (models(a@) == models(b@)),
{
    if a.len() != b.len() {
        assert(models(a@).len() != models(b@).len());
        return false;
    }
    let mut i: usize = 0;
    while i < a.len()
        invariant
            a@.len() == b@.len(),
            i <= a@.len(),
            forall|j: int| 0 <= j < i ==> models(a@)[j] == models(b@)[j],
        decreases a@.len() - i,
    {
        if !a[i].same(&b[i]) {
            assert(models(a@)[i as int] != models(b@)[i as int]);
            return false;
        }
        i = i + 1;
    }
    assert(models(a@) =~= models(b@));
    true
}

/// Copy a list of records.
pub fn clone_claims(v: &Vec<Claim>) -> (r: Vec<Claim>)
    ensures
        models(r@) == models(v@),
{
    let r: Vec<Claim> = v.clone();
    assert forall|i: int| 0 <= i < v@.len() implies #[trigger] r@[i]@ == v@[i]@ by {
        assert(cloned::<Claim>(v@[i], r@[i]));
    }
    assert(models(r@) =~= models(v@));
    r
}

// ---- laws -----------------------------------------------------------------------------------------------------------

/// No ticket has two records.
pub open spec fn one_each(cs: Seq<ClaimModel>) -> bool {
    forall|i: int, j: int| 0 <= i < j < cs.len() ==> (#[trigger] cs[i]).ticket != (#[trigger] cs[j]).ticket
}

/// What `upsert` records is what `find` then answers, no other ticket's record changes, and no ticket gets two records.
pub proof fn upsert_then_find(cs: Seq<ClaimModel>, c: ClaimModel, other: Text)
    requires
        one_each(cs),
    ensures
        one_each(upserted(cs, c)),
        found(upserted(cs, c), c.ticket) == Some(c),
        other != c.ticket ==> found(upserted(cs, c), other) == found(cs, other),
{
    remove_then_find(cs, c.ticket, other);
    let rest = removed(cs, c.ticket);
    let new = upserted(cs, c);
    lemma_position_least(claimed(rest), c.ticket);
    assert forall|j: int| 0 <= j < rest.len() implies claimed(new)[j] != c.ticket by {
        assert(claimed(new)[j] == claimed(rest)[j]);
    }
    assert(claimed(new)[rest.len() as int] == c.ticket);
    lemma_position(claimed(new), c.ticket, rest.len() as int);
    assert forall|i: int, j: int| 0 <= i < j < new.len() implies (#[trigger] new[i]).ticket != (#[trigger] new[j]).ticket by {
        assert(new[i] == rest[i]);
        if j < rest.len() {
            assert(new[j] == rest[j]);
        } else {
            assert(claimed(new)[i] != c.ticket);
        }
    }
    if other != c.ticket {
        lemma_position_least(claimed(rest), other);
        let k = claim_at(rest, other);
        if k < rest.len() {
            assert forall|j: int| 0 <= j < k implies claimed(new)[j] != other by {
                assert(claimed(new)[j] == claimed(rest)[j]);
            }
            assert(claimed(new)[k] == claimed(rest)[k]);
            lemma_position(claimed(new), other, k);
        } else {
            assert forall|j: int| 0 <= j < new.len() implies claimed(new)[j] != other by {
                if j < rest.len() {
                    assert(claimed(new)[j] == claimed(rest)[j]);
                }
            }
            lemma_position(claimed(new), other, new.len() as int);
        }
    }
}

/// After `remove` nothing is recorded on the ticket, and every other ticket's record is as before.
pub proof fn remove_then_find(cs: Seq<ClaimModel>, ticket: Text, other: Text)
    requires
        one_each(cs),
    ensures
        one_each(removed(cs, ticket)),
        found(removed(cs, ticket), ticket) is None,
        other != ticket ==> found(removed(cs, ticket), other) == found(cs, other),
{
    let rest = removed(cs, ticket);
    let at = claim_at(cs, ticket);
    lemma_position_least(claimed(cs), ticket);
    lemma_position_least(claimed(rest), ticket);
    if at < cs.len() {
        assert forall|j: int| 0 <= j < rest.len() implies claimed(rest)[j] != ticket by {
            assert(cs[at].ticket == ticket);
            if j < at {
                assert(rest[j] == cs[j]);
            } else {
                assert(rest[j] == cs[j + 1]);
            }
        }
        if other != ticket {
            lemma_position_least(claimed(cs), other);
            let k = claim_at(cs, other);
            let m = if k < at {
                k
            } else {
                k - 1
            };
            assert(k != at);
            assert forall|j: int| 0 <= j < m implies claimed(rest)[j] != other by {
                if j < at {
                    assert(rest[j] == cs[j]);
                    assert(claimed(cs)[j] != other);
                } else {
                    assert(rest[j] == cs[j + 1]);
                    assert(claimed(cs)[j + 1] != other);
                }
            }
            if k < cs.len() {
                assert(rest[m] == cs[k]);
            }
            lemma_position(claimed(rest), other, m);
        }
    }
}

/// Dropping a landing marker never drops ownership, and leaves no landing marker on the ticket.
pub proof fn remove_landing_spares_ownership(cs: Seq<ClaimModel>, ticket: Text)
    requires
        one_each(cs),
    ensures
        found(cs, ticket) matches Some(c) && c.kind == ClaimKind::Work ==> without_landing(cs, ticket) == cs,
        !(found(without_landing(cs, ticket), ticket) matches Some(c) && c.kind == ClaimKind::Landing),
{
    remove_then_find(cs, ticket, ticket);
}

/// A landing is believed for a quarter of an hour, and only a landing is; ownership never counts as one.
pub proof fn a_landing_is_believed_while_it_is_recent(cs: Seq<ClaimModel>, ticket: Text, now: Timestamp)
    ensures
        landing_live(cs, ticket, now) <==> found(cs, ticket) is Some && (found(cs, ticket)->0).kind == ClaimKind::Landing && now.secs
            * 1_000_000_000 + now.nanos < (found(cs, ticket)->0).since.secs * 1_000_000_000 + (found(
            cs,
            ticket,
        )->0).since.nanos + LANDING_STALE_AFTER * 1_000_000_000,
{
}

/// A record is found by the ticket it is on, and by nothing else; taking it away or replacing it leaves the others.
pub proof fn a_record_is_found_by_its_ticket(cs: Seq<ClaimModel>, ticket: Text, i: int)
    requires
        one_each(cs),
        0 <= i < cs.len(),
    ensures
        found(cs, ticket) == Some(cs[i]) <==> cs[i].ticket == ticket,
        found(cs, ticket) is Some ==> (found(cs, ticket)->0).ticket == ticket,
{
    lemma_position_least(claimed(cs), ticket);
    if cs[i].ticket == ticket {
        assert(claimed(cs)[i] == ticket);
        assert(claimed(cs).contains(ticket));
        let k = claim_at(cs, ticket);
        if k < i {
            assert(cs[k].ticket != cs[i].ticket);
        } else if i < k {
            assert(cs[i].ticket != cs[k].ticket);
        }
    }
}

} // verus!
