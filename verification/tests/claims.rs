use claude_kanban::name::assistant;
use claude_kanban::store::claims::{
    find, landing_in_flight, remove, remove_landing, upsert, Claim, ClaimKind, LANDING_STALE_AFTER,
};
use claude_kanban::store::model::TicketId;
use claude_kanban::time::Timestamp;

fn at(secs: i64) -> Timestamp {
    Timestamp { secs, nanos: 0 }
}

fn claim(id: &str, agent: &str) -> Claim {
    Claim {
        ticket: TicketId(id.into()),
        agent: agent.into(),
        since: at(1_700_000_000),
        path: None,
        kind: ClaimKind::Work,
    }
}

#[test]
fn a_landing_is_believed_until_it_goes_stale() {
    let id = TicketId("K-1".into());
    let now = at(1_700_000_000);
    let mut claims = vec![Claim { kind: ClaimKind::Landing, ..claim("K-1", &assistant()) }];
    assert!(landing_in_flight(&claims, &id, now), "a landing taken just now is in hand");

    claims[0].since = at(1_700_000_000 - i64::from(LANDING_STALE_AFTER) - 1);
    assert!(!landing_in_flight(&claims, &id, now), "a stale landing must not wedge the ticket forever");

    let owned = vec![claim("K-1", &assistant())];
    assert!(!landing_in_flight(&owned, &id, now));
}

#[test]
fn remove_landing_spares_real_ownership() {
    let id = TicketId("K-1".into());
    let mut owned = vec![claim("K-1", &assistant())];
    remove_landing(&mut owned, &id);
    assert_eq!(owned.len(), 1, "a worker's claim is not a landing marker to clean up");

    let mut landing = vec![Claim { kind: ClaimKind::Landing, ..claim("K-1", &assistant()) }];
    remove_landing(&mut landing, &id);
    assert!(landing.is_empty());
}

#[test]
fn upsert_replaces_a_claim_on_the_same_ticket() {
    let mut claims = vec![claim("K-1", &assistant())];
    upsert(&mut claims, claim("K-1", "someone-else"));
    assert_eq!(claims.len(), 1);
    assert_eq!(claims[0].agent, "someone-else");
}

#[test]
fn remove_returns_the_dropped_claim() {
    let mut claims = vec![claim("K-1", &assistant()), claim("K-2", &assistant())];
    assert_eq!(remove(&mut claims, &TicketId("K-1".into())).unwrap().ticket.0, "K-1");
    assert!(remove(&mut claims, &TicketId("K-1".into())).is_none());
    assert_eq!(claims.len(), 1);
}

#[test]
fn an_upserted_claim_is_the_one_found() {
    let mut claims = vec![claim("K-1", &assistant()), claim("K-2", "other")];
    upsert(&mut claims, claim("K-1", "third"));
    assert_eq!(find(&claims, &TicketId("K-1".into())).unwrap().agent, "third");
    assert_eq!(find(&claims, &TicketId("K-2".into())).unwrap().agent, "other");
    assert!(find(&claims, &TicketId("K-3".into())).is_none());
}

#[test]
fn a_landing_goes_stale_at_the_cutoff_exactly() {
    let id = TicketId("K-1".into());
    let claims = vec![Claim { kind: ClaimKind::Landing, ..claim("K-1", &assistant()) }];
    assert!(landing_in_flight(&claims, &id, Timestamp { secs: 1_700_000_000 + 899, nanos: 999_999_999 }));
    assert!(!landing_in_flight(&claims, &id, at(1_700_000_000 + 900)));
}
