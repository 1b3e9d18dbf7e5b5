//! The HTTP surface. The handlers themselves are transport work — routing,
//! JSON payloads, status codes — and live outside this crate; they resolve
//! the request's identity with `session::resolve_begin`, guard the operation
//! with `UserAuth::verify_access_to` or `UserAuth::required_member_of_begin`,
//! and only then touch the backing store.

use vstd::prelude::*;

verus! {

/// Payload of a team-creation request.
pub struct CreateTeamRequest {
    pub name: String,
}

/// Marker for the team API: the team routes are grouped under it.
pub struct TeamApi;

} // verus!
