use vstd::prelude::*;
use crate::actor::Response;
use crate::registry::{dispatch_post, Registry};
use crate::store::StoreError;
use crate::text::str_eq;

verus! {

/// The route that selects the counter actor: any path under its
/// prefix, suffix included, is forwarded verbatim.
pub open spec fn counter_route(path: Seq<char>) -> bool {
    path.len() >= 3 && path.subrange(0, 3) == "/x/"@
}

/// The route that selects the second named actor.
pub open spec fn user_route(path: Seq<char>) -> bool {
    path == "/user"@
}

fn has_counter_prefix(path: &str) -> (r: bool)
    ensures
        r == counter_route(path@),
{
    let n = path.unicode_len();
    if n >= 3 {
        let head = path.substring_char(0, 3);
        str_eq(head, "/x/")
    } else {
        false
    }
}

/// Parse the incoming path, pick the fixed logical name of the matched
/// route, and forward the request through the registry; the response
/// comes back verbatim. An unmatched route is answered with a generic
/// rejection and reaches no actor at all.
pub fn front_door(registry: &mut Registry, path: &str) -> (r: Result<Response, StoreError>)
    requires
        old(registry).wf(),
        (old(registry).lookup("A"@) matches Some(c) ==> c.call_count() < usize::MAX),
        (old(registry).lookup("B"@) matches Some(c) ==> c.call_count() < usize::MAX),
    ensures
        final(registry).wf(),
        user_route(path@) ==> dispatch_post(*old(registry), *final(registry), "B"@, path@, r),
        !user_route(path@) && counter_route(path@) ==> dispatch_post(
            *old(registry),
            *final(registry),
            "A"@,
            path@,
            r,
        ),
        !user_route(path@) && !counter_route(path@) ==> r == Ok::<Response, StoreError>(
            Response::RouteNotFound,
        ) && *final(registry) == *old(registry),
{
    if str_eq(path, "/user") {
        registry.resolve_and_dispatch("B", path)
    } else if has_counter_prefix(path) {
        registry.resolve_and_dispatch("A", path)
    } else {
        Ok(Response::RouteNotFound)
    }
}

} // verus!
