//! The answers to an administrator's requests.
use crate::database::ClientRow;
use crate::registry::{records, Registry};
use crate::structs::{AdminRequest, AdminResult, ErrorCodes};
use crate::text::str_equal;
use vstd::prelude::*;

verus! {

/// Whether the administrator asks for the clients that are online.
pub open spec fn is_query(action: Seq<char>) -> bool {
    action == "query"@
}

/// Answers a request of an administrator at time `now`. The one request
/// served is `query`: its answer holds the clients that the registry has
/// heard of within the last `timeout` seconds, in the registry's order.
/// Any other request is refused as unsupported.
pub fn admin_query(registry: &Registry, request: &AdminRequest, now: u32, timeout: u32) -> (r:
    Result<AdminResult<ClientRow>, ErrorCodes>)
    ensures
        is_query(request@) ==> r is Ok && records(r->Ok_0.result@) == registry@.active_since(
            now - timeout,
        ),
        !is_query(request@) ==> r is Err && r->Err_0 == ErrorCodes::UnsupportedMethod,
{
    if str_equal(request.get_action().as_str(), "query") {
        Ok(AdminResult { result: registry.list_active_since(now as i64 - timeout as i64) })
    } else {
        Err(ErrorCodes::UnsupportedMethod)
    }
}

} // verus!
