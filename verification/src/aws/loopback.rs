//! The loopback redirect as a port-bearing registration: one URI per port.

use vstd::prelude::*;
use vstd::string::*;

use crate::auth::loopback::{self as shared, param, request_target};
use crate::text::{decimal, to_decimal, views};

verus! {

/// The loopback ports to register and to bind, in order.
pub const LOOPBACK_PORTS: [u16; 4] = [53690, 53691, 53692, 53693];

/// The redirect URI of a port.
pub open spec fn port_uri(port: u16) -> Seq<char> {
    "http://127.0.0.1:"@ + decimal(port as nat) + "/callback"@
}

/// The redirect URIs to register, one per port, with the literal loopback address.
pub fn redirect_uris() -> (result: Vec<String>)
    ensures
        views(result@) == LOOPBACK_PORTS@.map_values(|p: u16| port_uri(p)),
{
    let mut out: Vec<String> = Vec::new();
    let mut i: usize = 0;
    while i < LOOPBACK_PORTS.len()
        invariant
            i <= LOOPBACK_PORTS@.len(),
            out@.len() == i,
            forall|j: int| 0 <= j < i ==> (#[trigger] out@[j])@ == port_uri(LOOPBACK_PORTS@[j]),
        decreases LOOPBACK_PORTS@.len() - i,
    {
        let mut uri = "http://127.0.0.1:".to_owned();
        uri.push_str(to_decimal(LOOPBACK_PORTS[i] as u64).as_str());
        uri.push_str("/callback");
        out.push(uri);
        i = i + 1;
    }
    assert(views(out@) =~= LOOPBACK_PORTS@.map_values(|p: u16| port_uri(p)));
    out
}

/// The request target of a request's first line.
pub fn first_request_target<'a>(req: &'a str) -> (result: Option<&'a str>)
    ensures
        match result {
            Some(target) => request_target(req@) == Some(target@),
            None => request_target(req@) is None,
        },
{
    shared::first_request_target(req)
}

/// Pull one parameter's value out of a `k=v&k2=v2` query.
pub fn query_param(query: &str, key: &str) -> (result: Option<String>)
    ensures
        match result {
            Some(value) => param(query@, key@) == Some(value@),
            None => param(query@, key@) is None,
        },
{
    shared::query_param(query, key)
}

} // verus!
