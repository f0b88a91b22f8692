//! Which requests a loopback server answers.
//!
//! The threat is the user's own browser running someone else's page. An exact `Host` allowlist stops a page that re-points
//! its own name at this machine; a custom header on every mutation stops a form posted from elsewhere, which cannot set
//! one; a present but wrong `Origin` is refused as well.
use vstd::prelude::*;

use crate::seqs::models;
use crate::text::{listed, same, Text};

verus! {

/// The header that carries the board version on mutations.
pub const VERSION_HEADER: &'static str = "x-board-version";

/// What a request shows the guard.
pub struct Asked {
    pub method: String,
    /// The `Host` header, where it is there and readable.
    pub host: Option<String>,
    pub has_version: bool,
    /// The `Origin` header, where it is there; within, what it says, where that is readable text.
    pub origin: Option<Option<String>>,
}

/// The request names no origin, or one on the list. One that cannot be read is not on it.
pub open spec fn origin_allowed(asked: Asked, origins: Seq<Text>) -> bool {
    match asked.origin {
        None => true,
        Some(None) => false,
        Some(Some(o)) => origins.contains(o@),
    }
}

/// Why a request is refused; `None` when it passes.
pub open spec fn refusal(asked: Asked, hosts: Seq<Text>, origins: Seq<Text>) -> Option<Text> {
    if !(asked.host matches Some(h) && hosts.contains(h@)) {
        Some("this board only answers to localhost"@)
    } else if asked.method@ == "GET"@ || asked.method@ == "HEAD"@ {
        None
    } else if !asked.has_version {
        Some("mutations need the X-Board-Version header (are you using the board UI?)"@)
    } else if !origin_allowed(asked, origins) {
        Some("cross-origin mutations are not allowed"@)
    } else {
        None
    }
}

/// The one gate every request passes.
pub fn guard(asked: &Asked, hosts: &Vec<String>, origins: &Vec<String>) -> (r: Option<&'static str>)
    ensures
        match r {
            Some(why) => refusal(*asked, models(hosts@), models(origins@)) == Some(why@),
            None => refusal(*asked, models(hosts@), models(origins@)) is None,
        },
{
    let host_ok: bool = match &asked.host {
        Some(h) => listed(hosts, h),
        None => false,
    };
    if !host_ok {
        return Some("this board only answers to localhost");
    }
    if same(&asked.method, "GET") || same(&asked.method, "HEAD") {
        return None;
    }
    if !asked.has_version {
        return Some("mutations need the X-Board-Version header (are you using the board UI?)");
    }
    let origin_ok: bool = match &asked.origin {
        None => true,
        Some(None) => false,
        Some(Some(o)) => listed(origins, o),
    };
    if !origin_ok {
        return Some("cross-origin mutations are not allowed");
    }
    None
}

/// A request whose host is not on the list is refused, whatever else it shows.
pub proof fn strangers_are_refused(asked: Asked, hosts: Seq<Text>, origins: Seq<Text>)
    requires
        !(asked.host matches Some(h) && hosts.contains(h@)),
    ensures
        refusal(asked, hosts, origins) is Some,
{
}

/// A mutation passes only with the version header, and never with the origin of another site.
pub proof fn mutations_need_the_header(asked: Asked, hosts: Seq<Text>, origins: Seq<Text>)
    requires
        asked.method@ != "GET"@,
        asked.method@ != "HEAD"@,
        refusal(asked, hosts, origins) is None,
    ensures
        asked.has_version,
        asked.origin is None || (asked.origin matches Some(Some(o)) && origins.contains(o@)),
{
}

/// A request passes exactly when it is made to a host on the list and either only reads, or carries the version and comes
/// from a page of the board's own or from none. A refusal names the first of these that fails.
pub proof fn a_request_passes_on_its_merits(asked: Asked, hosts: Seq<Text>, origins: Seq<Text>)
    ensures
        ({
            let known = asked.host is Some && hosts.contains((asked.host->0)@);
            let reads = asked.method@ == "GET"@ || asked.method@ == "HEAD"@;
            let own = asked.origin is None || (asked.origin->0 is Some && origins.contains((asked.origin->0->0)@));
            let r = refusal(asked, hosts, origins);
            &&& r is None <==> known && (reads || asked.has_version && own)
            &&& !known ==> r == Some("this board only answers to localhost"@)
            &&& known && !reads && !asked.has_version ==> r == Some(
                "mutations need the X-Board-Version header (are you using the board UI?)"@,
            )
            &&& known && !reads && asked.has_version && !own ==> r == Some("cross-origin mutations are not allowed"@)
        }),
{
}

} // verus!
