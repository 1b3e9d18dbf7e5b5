//! Teams and the team-membership capability.
//!
//! A user is a member of a team iff the user owns the team or appears in the
//! team's explicit membership associations ([`spec_membership`]). The fact is
//! memoized in the shared [`AuthCache`] under the
//! `team:<team_id>:member:<user_id>` namespace with the same single-flight
//! and time-to-live semantics as session resolution. Fetching the ownership
//! and association rows is a backing-store read performed by the caller;
//! [`compute_membership`] derives the fact from what was fetched.

use vstd::prelude::*;
use vstd::string::*;

use crate::auth::{AccessStep, AccessibleResource, AuthCache, AuthError, AuthFact,
    CapabilityLookup, MemberStep, UserAuth, has_access_begin, has_access_finish};
use crate::cache::{spec_begin_kind, spec_begin_next, spec_expiry, spec_fresh_value, spec_pending,
    GetStep, Slot};
use crate::session::is_session_key;

verus! {

/// A team record as this core reads it: its identifier, its owner, its name,
/// and its creation instant (seconds of the epoch).
pub struct Team {
    pub team_id: String,
    pub owner_id: String,
    pub name: String,
    pub created_at: i64,
}

impl Team {
    /// Does `user_id` own this team?
    pub fn is_owner(&self, user_id: &String) -> (b: bool)
        ensures
            b == (self.owner_id@ == user_id@),
    {
        self.owner_id == *user_id
    }
}

/// The membership fact: `user` is a member of a team owned by `owner` with
/// explicit members `members` iff `user` owns it or appears among them.
pub open spec fn spec_membership(owner: Seq<char>, members: Seq<String>, user: Seq<char>) -> bool {
    owner == user || exists|i: int| 0 <= i < members.len() && members[i]@ == user
}

/// Derive the membership fact from what the backing store answered: the
/// team's owner and its explicit membership associations.
pub fn compute_membership(owner_id: &String, member_ids: &Vec<String>, user_id: &String) -> (b:
    bool)
    ensures
        b == spec_membership(owner_id@, member_ids@, user_id@),
{
    if *owner_id == *user_id {
        return true;
    }
    let n = member_ids.len();
    let mut i: usize = 0;
    while i < n
        invariant
            n == member_ids@.len(),
            i <= n,
            forall|j: int| 0 <= j < i ==> member_ids@[j]@ != user_id@,
        decreases n - i,
    {
        if member_ids[i] == *user_id {
            return true;
        }
        i += 1;
    }
    false
}

/// The cache key under which a team's membership fact for a user is
/// memoized.
pub open spec fn spec_member_key(team: Seq<char>, user: Seq<char>) -> Seq<char> {
    "team:"@ + team + ":member:"@ + user
}

/// Membership keys live outside the session namespace: the namespaces cannot
/// collide, whatever the identifiers hold.
pub proof fn lemma_member_key_not_session(team: Seq<char>, user: Seq<char>)
    ensures
        !is_session_key(spec_member_key(team, user)),
{
    reveal_strlit("session:");
    reveal_strlit("team:");
    let k = spec_member_key(team, user);
    assert(k[0] == 't');
    if is_session_key(k) {
        assert(k.subrange(0, "session:"@.len() as int)[0] == k[0]);
        assert(false);
    }
}

/// Distinct team/user pairs memoize under distinct keys, for identifiers
/// free of the `:` separator: the `team:` namespace never conflates two
/// membership facts.
pub proof fn lemma_member_key_injective(t1: Seq<char>, u1: Seq<char>, t2: Seq<char>, u2: Seq<char>)
    requires
        spec_member_key(t1, u1) == spec_member_key(t2, u2),
        forall|i: int| 0 <= i < t1.len() ==> t1[i] != ':',
        forall|i: int| 0 <= i < t2.len() ==> t2[i] != ':',
    ensures
        t1 == t2,
        u1 == u2,
{
    reveal_strlit("team:");
    reveal_strlit(":member:");
    let k = spec_member_key(t1, u1);
    assert(k.len() == 5 + t1.len() + 8 + u1.len());
    assert(k.len() == 5 + t2.len() + 8 + u2.len());
    // the first separator after the prefix sits right after the team part,
    // so the team identifiers have the same length
    if t1.len() < t2.len() {
        let i = 5 + t1.len() as int;
        assert(k[i] == ":member:"@[0]);
        assert(k[i] == t2[t1.len() as int]);
        assert(false);
    }
    if t2.len() < t1.len() {
        let i = 5 + t2.len() as int;
        assert(k[i] == ":member:"@[0]);
        assert(k[i] == t1[t2.len() as int]);
        assert(false);
    }
    assert forall|i: int| 0 <= i < t1.len() implies t1[i] == t2[i] by {
        assert(k[5 + i] == t1[i]);
        assert(k[5 + i] == t2[i]);
    }
    assert(t1 =~= t2);
    assert forall|i: int| 0 <= i < u1.len() implies u1[i] == u2[i] by {
        assert(k[5 + t1.len() + 8 + i] == u1[i]);
        assert(k[5 + t2.len() + 8 + i] == u2[i]);
    }
    assert(u1 =~= u2);
}

pub fn member_cache_key(team_id: &str, user_id: &str) -> (k: String)
    ensures
        k@ == spec_member_key(team_id@, user_id@),
{
    let mut k = String::new();
    k.append("team:");
    k.append(team_id);
    k.append(":member:");
    k.append(user_id);
    proof {
        assert(k@ =~= spec_member_key(team_id@, user_id@));
    }
    k
}

/// A team as a protected resource: the capability contract for the team with
/// this identifier.
pub struct TeamId<'a>(pub &'a str);

impl<'a> AccessibleResource for TeamId<'a> {
    open spec fn resource_key(&self, user_id: Seq<char>) -> Seq<char> {
        spec_member_key(self.0@, user_id)
    }

    proof fn lemma_resource_key_not_session(&self, user_id: Seq<char>) {
        lemma_member_key_not_session(self.0@, user_id);
    }

    fn access_cache_key(&self, user_id: &String) -> (k: String) {
        member_cache_key(self.0, user_id.as_str())
    }
}

impl Team {
    /// Begin the memoized membership check for `user_id` in `team_id`. On
    /// `LeadMembershipLookup` the caller reads ownership and associations
    /// from the backing store, derives the fact (`compute_membership`), and
    /// reports through `is_member_finish`.
    pub fn is_member_begin(
        cache: &mut AuthCache,
        team_id: &String,
        user_id: &String,
        now: u64,
    ) -> (s: MemberStep)
        requires
            old(cache).wf(),
        ensures
            final(cache).wf(),
            final(cache).spec_ttl() == old(cache).spec_ttl(),
            final(cache).model() == spec_begin_next(
                old(cache).model(),
                spec_member_key(team_id@, user_id@),
                now,
            ),
            (match s {
                MemberStep::MemberKnown(b) => spec_begin_kind(
                    old(cache).model(),
                    spec_member_key(team_id@, user_id@),
                    now,
                ) == GetStep::HitFresh && spec_fresh_value(
                    old(cache).model(),
                    spec_member_key(team_id@, user_id@),
                ) == AuthFact::MemberFact(b),
                MemberStep::LeadMembershipLookup => spec_begin_kind(
                    old(cache).model(),
                    spec_member_key(team_id@, user_id@),
                    now,
                ) == GetStep::LeadCompute,
                MemberStep::AwaitMembershipFlight => spec_begin_kind(
                    old(cache).model(),
                    spec_member_key(team_id@, user_id@),
                    now,
                ) == GetStep::JoinWait,
            }),
    {
        let tid = TeamId(team_id.as_str());
        has_access_begin(&tid, cache, user_id, now)
    }

    /// Fold the backing-store outcome of a membership check back into the
    /// cache. An answer — member or not — is memoized and returned; a failed
    /// read propagates as `TransientFailure`, uncached, never coerced into a
    /// cached `false`.
    pub fn is_member_finish(
        cache: &mut AuthCache,
        team_id: &String,
        user_id: &String,
        outcome: CapabilityLookup,
        now: u64,
    ) -> (r: Result<bool, AuthError>)
        requires
            old(cache).wf(),
            spec_pending(old(cache).model(), spec_member_key(team_id@, user_id@)),
        ensures
            final(cache).wf(),
            final(cache).spec_ttl() == old(cache).spec_ttl(),
            (outcome matches CapabilityLookup::AccessFact(b) ==> r == Ok::<bool, AuthError>(b)
                && final(cache).model() == old(cache).model().insert(
                spec_member_key(team_id@, user_id@),
                (Slot::Ready {
                    value: AuthFact::MemberFact(b),
                    expires_at: spec_expiry(now, old(cache).spec_ttl()),
                }),
            )),
            (outcome is LookupFailed ==> r == Err::<bool, AuthError>(AuthError::TransientFailure)
                && final(cache).model() == old(cache).model().remove(
                spec_member_key(team_id@, user_id@),
            )),
    {
        let tid = TeamId(team_id.as_str());
        has_access_finish(&tid, cache, user_id, outcome, now)
    }
}

impl UserAuth {
    /// Fail unless the identity is authenticated and a member of the team:
    /// anonymous identities are denied `Unauthenticated` with nothing read or
    /// cached; a cached non-membership denies `Forbidden`; a miss hands the
    /// backing-store read to the caller.
    pub fn required_member_of_begin(
        &self,
        cache: &mut AuthCache,
        team_id: &String,
        now: u64,
    ) -> (s: AccessStep)
        requires
            old(cache).wf(),
        ensures
            final(cache).wf(),
            final(cache).spec_ttl() == old(cache).spec_ttl(),
            self is Anonymous ==> s == AccessStep::Denied(AuthError::Unauthenticated)
                && final(cache).model() == old(cache).model(),
            self is Authenticated ==> ({
                let k = spec_member_key(team_id@, self->Authenticated_0.user_id@);
                let m0 = old(cache).model();
                final(cache).model() == spec_begin_next(m0, k, now) && (match s {
                    AccessStep::Granted => spec_begin_kind(m0, k, now) == GetStep::HitFresh
                        && spec_fresh_value(m0, k) == AuthFact::MemberFact(true),
                    AccessStep::Denied(e) => e == AuthError::Forbidden && spec_begin_kind(
                        m0,
                        k,
                        now,
                    ) == GetStep::HitFresh && spec_fresh_value(m0, k) == AuthFact::MemberFact(
                        false,
                    ),
                    AccessStep::NeedResourceRead => spec_begin_kind(m0, k, now)
                        == GetStep::LeadCompute,
                    AccessStep::AwaitResourceFlight => spec_begin_kind(m0, k, now)
                        == GetStep::JoinWait,
                })
            }),
    {
        let tid = TeamId(team_id.as_str());
        self.verify_access_to(&tid, cache, now)
    }

    /// Fold the backing-store outcome of a membership requirement back into
    /// the cache and decide, as `verify_access_finish` does for any resource.
    pub fn required_member_of_finish(
        &self,
        cache: &mut AuthCache,
        team_id: &String,
        outcome: CapabilityLookup,
        now: u64,
    ) -> (r: Result<(), AuthError>)
        requires
            old(cache).wf(),
            self is Authenticated,
            spec_pending(
                old(cache).model(),
                spec_member_key(team_id@, self->Authenticated_0.user_id@),
            ),
        ensures
            final(cache).wf(),
            final(cache).spec_ttl() == old(cache).spec_ttl(),
            (outcome matches CapabilityLookup::AccessFact(b) ==> final(cache).model() == old(
                cache,
            ).model().insert(
                spec_member_key(team_id@, self->Authenticated_0.user_id@),
                (Slot::Ready {
                    value: AuthFact::MemberFact(b),
                    expires_at: spec_expiry(now, old(cache).spec_ttl()),
                }),
            ) && (b ==> r == Ok::<(), AuthError>(())) && (!b ==> r == Err::<(), AuthError>(
                AuthError::Forbidden,
            ))),
            (outcome is LookupFailed ==> final(cache).model() == old(cache).model().remove(
                spec_member_key(team_id@, self->Authenticated_0.user_id@),
            ) && r == Err::<(), AuthError>(AuthError::TransientFailure)),
    {
        let tid = TeamId(team_id.as_str());
        self.verify_access_finish(&tid, cache, outcome, now)
    }
}

} // verus!
