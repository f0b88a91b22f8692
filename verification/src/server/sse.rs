//! Live updates: which changes of the store are worth telling a browser about, and what it is told.
use vstd::prelude::*;

use crate::seqs::models;
use crate::store::{BOARD_FILE, CLAIMS_FILE};
use crate::text::{same, Text};

verus! {

/// How many milliseconds of events count as one change: one write of the store is several.
pub const DEBOUNCE_MILLIS: u64 = 100;

/// How many seconds pass between signs of life on an idle stream.
pub const KEEP_ALIVE_SECS: u64 = 15;

/// The name of the event.
pub const EVENT: &'static str = "board-changed";

/// Some of the files is the board or the claims.
pub open spec fn touches_store(names: Seq<Text>) -> bool {
    exists|i: int| 0 <= i < names.len() && ((#[trigger] names[i]) == BOARD_FILE@ || names[i] == CLAIMS_FILE@)
}

/// Whether a change of these files is worth a refresh: claims show on cards, so they count as well as the board.
pub fn interesting(names: &Vec<String>) -> (r: bool)
    ensures
        r == touches_store(models(names@)),
{
    let ghost all = models(names@);
    let mut i: usize = 0;
    while i < names.len()
        invariant
            all == models(names@),
            i <= names@.len(),
            forall|j: int| 0 <= j < i ==> (#[trigger] all[j]) != BOARD_FILE@ && all[j] != CLAIMS_FILE@,
        decreases names@.len() - i,
    {
        assert(all[i as int] == names@[i as int]@);
        if same(&names[i], BOARD_FILE) || same(&names[i], CLAIMS_FILE) {
            return true;
        }
        i = i + 1;
    }
    false
}

/// The version a browser is told of: 0 when the board could not be read, which equals no version that it shows.
pub fn announced(version: Option<u64>) -> (r: u64)
    ensures
        r == match version {
            Some(v) => v,
            None => 0,
        },
{
    match version {
        Some(v) => v,
        None => 0,
    }
}

/// A change is worth telling when it touched the board or the claims, whatever else it touched.
pub proof fn board_and_claims_are_worth_telling(names: Seq<Text>, other: Text)
    requires
        other != "board.json"@ && other != "claims.json"@,
    ensures
        touches_store(names) <==> names.contains("board.json"@) || names.contains("claims.json"@),
        touches_store(names.push(other)) == touches_store(names),
{
    if touches_store(names) {
        let i = choose|i: int| 0 <= i < names.len() && ((#[trigger] names[i]) == BOARD_FILE@ || names[i] == CLAIMS_FILE@);
        assert(names.contains(names[i]));
        assert(names.push(other)[i] == names[i]);
    }
    if touches_store(names.push(other)) {
        let all = names.push(other);
        let i = choose|i: int| 0 <= i < all.len() && ((#[trigger] all[i]) == BOARD_FILE@ || all[i] == CLAIMS_FILE@);
        assert(names[i] == all[i]);
    }
}

} // verus!
