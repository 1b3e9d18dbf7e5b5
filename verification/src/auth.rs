//! Identity, the shared authorization cache, and the capability protocol.
//!
//! [`UserAuth`] is the result of resolving a request: `Authenticated` with a
//! session, or `Anonymous`. Every authorization decision is a pure function
//! of this value. [`AuthCache`] is the process-wide memoizing single-flight
//! cache shared by session resolution and capability checks; its keys are
//! namespaced (`session:<raw-token>` for sessions, resource-chosen keys such
//! as `team:<team_id>:member:<user_id>` outside that namespace for access
//! facts) and a well-formedness invariant keeps the namespaces from ever
//! serving each other's entries. [`AccessibleResource`] is the uniform
//! contract a protected resource implements so that `verify_access_to` can
//! check access for any resource type without resource-specific session
//! logic.

use vstd::pervasive::unreached;
use vstd::prelude::*;

use crate::cache::{spec_begin_kind, spec_begin_next, spec_expiry, spec_fresh, spec_fresh_value,
    spec_pending, spec_waiters, GetStep, MemoCache, Slot};
use crate::session::{is_session_key, lemma_session_key_is_session, session_cache_key,
    spec_session_key, Session};

verus! {

/// The error taxonomy of this core.
#[derive(Clone, Copy, PartialEq, Eq, Structural, Debug)]
pub enum AuthError {
    /// No credential was presented, or the credential resolves to no active
    /// session. Distinct from `Forbidden`: the caller should log in.
    Unauthenticated,
    /// The credential resolves to a valid identity, but the capability check
    /// for the requested resource answered no.
    Forbidden,
    /// The backing store could not answer during a compute step. Never
    /// cached and never coerced into a denial; the next request retries.
    TransientFailure,
}

/// The resolved identity of a request.
pub enum UserAuth {
    Authenticated(Session),
    Anonymous,
}

/// A fact memoized in the shared cache: a resolved session record, or the
/// boolean outcome of a resource's access check.
pub enum AuthFact {
    SessionFact(Session),
    MemberFact(bool),
}

impl Clone for AuthFact {
    fn clone(&self) -> (r: Self)
        ensures
            r == *self,
    {
        match self {
            AuthFact::SessionFact(s) => AuthFact::SessionFact(s.clone()),
            AuthFact::MemberFact(b) => AuthFact::MemberFact(*b),
        }
    }
}

/// Every ready entry's fact matches its namespace: session keys hold session
/// records and nothing else does.
spec fn wf_model(m: Map<Seq<char>, Slot<AuthFact>>) -> bool {
    forall|k: Seq<char>| #[trigger]
        m.contains_key(k) && m[k] is Ready ==> (is_session_key(k) <==> m[k]->value
            is SessionFact)
}

proof fn lemma_wf_begin(m: Map<Seq<char>, Slot<AuthFact>>, k: Seq<char>, now: u64)
    requires
        wf_model(m),
    ensures
        wf_model(spec_begin_next(m, k, now)),
{
    let m2 = spec_begin_next(m, k, now);
    assert forall|k2: Seq<char>| #[trigger]
        m2.contains_key(k2) && m2[k2] is Ready implies (is_session_key(k2) <==> m2[k2]->value
        is SessionFact) by {
        if !spec_fresh(m, k, now) && k2 != k {
            assert(m.contains_key(k2) && m[k2] == m2[k2]);
        }
    }
}

proof fn lemma_wf_insert_ready(m: Map<Seq<char>, Slot<AuthFact>>, k: Seq<char>, f: AuthFact, e: u64)
    requires
        wf_model(m),
        is_session_key(k) <==> f is SessionFact,
    ensures
        wf_model(m.insert(k, (Slot::Ready { value: f, expires_at: e }))),
{
    let m2 = m.insert(k, (Slot::Ready { value: f, expires_at: e }));
    assert forall|k2: Seq<char>| #[trigger]
        m2.contains_key(k2) && m2[k2] is Ready implies (is_session_key(k2) <==> m2[k2]->value
        is SessionFact) by {
        if k2 != k {
            assert(m.contains_key(k2) && m[k2] == m2[k2]);
        }
    }
}

proof fn lemma_wf_remove(m: Map<Seq<char>, Slot<AuthFact>>, k: Seq<char>)
    requires
        wf_model(m),
    ensures
        wf_model(m.remove(k)),
{
    let m2 = m.remove(k);
    assert forall|k2: Seq<char>| #[trigger]
        m2.contains_key(k2) && m2[k2] is Ready implies (is_session_key(k2) <==> m2[k2]->value
        is SessionFact) by {
        assert(m.contains_key(k2) && m[k2] == m2[k2]);
    }
}

/// What the session resolver must do next after consulting the cache.
pub enum SessionStep {
    /// A fresh session record is cached for this credential.
    SessionCached(Session),
    /// This caller leads the lookup: it performs the backing-store read and
    /// reports through `session_finish_ok` or `session_finish_err`.
    LeadSessionLookup,
    /// A lookup for the same credential is in flight; wait for its outcome.
    AwaitSessionFlight,
}

/// What a capability check must do next after consulting the cache.
#[derive(Clone, Copy, PartialEq, Eq, Structural, Debug)]
pub enum MemberStep {
    /// A fresh access fact is cached.
    MemberKnown(bool),
    /// This caller leads the lookup: it performs the backing-store read and
    /// reports through `member_finish_ok` or `member_finish_err`.
    LeadMembershipLookup,
    /// A lookup for the same fact is in flight; wait for its outcome.
    AwaitMembershipFlight,
}

/// The process-wide authorization cache: one single-flight memoizing table
/// shared by session resolution and capability checks, constructed once at
/// process start and threaded through request handling.
pub struct AuthCache {
    cache: MemoCache<AuthFact>,
}

impl AuthCache {
    /// Everything the contracts say about the cache is said of this map.
    pub closed spec fn model(self) -> Map<Seq<char>, Slot<AuthFact>> {
        self.cache.model()
    }

    pub closed spec fn spec_ttl(self) -> u64 {
        self.cache.spec_ttl()
    }

    pub closed spec fn wf(self) -> bool {
        self.cache.wf() && wf_model(self.cache.model())
    }

    pub fn new(ttl: u64) -> (c: Self)
        ensures
            c.wf(),
            c.model() == Map::<Seq<char>, Slot<AuthFact>>::empty(),
            c.spec_ttl() == ttl,
    {
        AuthCache { cache: MemoCache::new(ttl) }
    }

    pub fn ttl(&self) -> (t: u64)
        ensures
            t == self.spec_ttl(),
    {
        self.cache.ttl()
    }

    /// Is a session lookup for this credential in flight? Lets an unverified
    /// caller test the precondition of the finish operations.
    pub fn session_pending(&self, token: &String) -> (b: bool)
        requires
            self.wf(),
        ensures
            b == spec_pending(self.model(), spec_session_key(token@)),
    {
        let key = session_cache_key(token);
        self.cache.is_pending(&key)
    }

    /// Is an access-fact lookup under this key in flight? Lets an unverified
    /// caller test the precondition of the finish operations.
    pub fn member_pending(&self, key: &String) -> (b: bool)
        requires
            self.wf(),
        ensures
            b == spec_pending(self.model(), key@),
    {
        self.cache.is_pending(key)
    }

    /// Begin the memoized session lookup for a raw credential.
    pub fn session_begin(&mut self, token: &String, now: u64) -> (s: SessionStep)
        requires
            old(self).wf(),
        ensures
            final(self).wf(),
            final(self).spec_ttl() == old(self).spec_ttl(),
            final(self).model() == spec_begin_next(
                old(self).model(),
                spec_session_key(token@),
                now,
            ),
            (match s {
                SessionStep::SessionCached(sess) => spec_begin_kind(
                    old(self).model(),
                    spec_session_key(token@),
                    now,
                ) == GetStep::HitFresh && spec_fresh_value(old(self).model(), spec_session_key(token@))
                    == AuthFact::SessionFact(sess),
                SessionStep::LeadSessionLookup => spec_begin_kind(
                    old(self).model(),
                    spec_session_key(token@),
                    now,
                ) == GetStep::LeadCompute,
                SessionStep::AwaitSessionFlight => spec_begin_kind(
                    old(self).model(),
                    spec_session_key(token@),
                    now,
                ) == GetStep::JoinWait,
            }),
    {
        let key = session_cache_key(token);
        proof {
            lemma_session_key_is_session(token@);
            lemma_wf_begin(self.cache.model(), key@, now);
        }
        let step = self.cache.get_begin(&key, now);
        match step {
            GetStep::HitFresh => {
                let f = self.cache.read_fresh(&key, now);
                match f {
                    AuthFact::SessionFact(sess) => SessionStep::SessionCached(sess.clone()),
                    AuthFact::MemberFact(_) => {
                        proof {
                            assert(false);
                        }
                        unreached()
                    },
                }
            },
            GetStep::LeadCompute => SessionStep::LeadSessionLookup,
            GetStep::JoinWait => SessionStep::AwaitSessionFlight,
        }
    }

    /// The leading session lookup found an active session: memoize it.
    /// Returns how many waiters share this outcome.
    pub fn session_finish_ok(&mut self, token: &String, session: Session, now: u64) -> (w: u64)
        requires
            old(self).wf(),
            spec_pending(old(self).model(), spec_session_key(token@)),
        ensures
            final(self).wf(),
            final(self).spec_ttl() == old(self).spec_ttl(),
            final(self).model() == old(self).model().insert(
                spec_session_key(token@),
                (Slot::Ready {
                    value: AuthFact::SessionFact(session),
                    expires_at: spec_expiry(now, old(self).spec_ttl()),
                }),
            ),
            w == spec_waiters(old(self).model(), spec_session_key(token@)),
    {
        let key = session_cache_key(token);
        proof {
            lemma_session_key_is_session(token@);
            lemma_wf_insert_ready(
                self.cache.model(),
                key@,
                AuthFact::SessionFact(session),
                spec_expiry(now, self.cache.spec_ttl()),
            );
        }
        self.cache.finish_ok(&key, AuthFact::SessionFact(session), now)
    }

    /// The leading session lookup failed — no active session, or the backing
    /// store errored. The failure is not cached. Returns how many waiters
    /// share this outcome.
    pub fn session_finish_err(&mut self, token: &String) -> (w: u64)
        requires
            old(self).wf(),
            spec_pending(old(self).model(), spec_session_key(token@)),
        ensures
            final(self).wf(),
            final(self).spec_ttl() == old(self).spec_ttl(),
            final(self).model() == old(self).model().remove(spec_session_key(token@)),
            w == spec_waiters(old(self).model(), spec_session_key(token@)),
    {
        let key = session_cache_key(token);
        proof {
            lemma_wf_remove(self.cache.model(), key@);
        }
        self.cache.finish_err(&key)
    }

    /// Begin the memoized access-fact lookup under a resource-chosen key,
    /// which must live outside the session namespace.
    pub fn member_begin(&mut self, key: &String, now: u64) -> (s: MemberStep)
        requires
            old(self).wf(),
            !is_session_key(key@),
        ensures
            final(self).wf(),
            final(self).spec_ttl() == old(self).spec_ttl(),
            final(self).model() == spec_begin_next(old(self).model(), key@, now),
            (match s {
                MemberStep::MemberKnown(b) => spec_begin_kind(old(self).model(), key@, now)
                    == GetStep::HitFresh && spec_fresh_value(old(self).model(), key@)
                    == AuthFact::MemberFact(b),
                MemberStep::LeadMembershipLookup => spec_begin_kind(old(self).model(), key@, now)
                    == GetStep::LeadCompute,
                MemberStep::AwaitMembershipFlight => spec_begin_kind(old(self).model(), key@, now)
                    == GetStep::JoinWait,
            }),
    {
        proof {
            lemma_wf_begin(self.cache.model(), key@, now);
        }
        let step = self.cache.get_begin(key, now);
        match step {
            GetStep::HitFresh => {
                let f = self.cache.read_fresh(key, now);
                match f {
                    AuthFact::MemberFact(b) => MemberStep::MemberKnown(*b),
                    AuthFact::SessionFact(_) => {
                        proof {
                            assert(false);
                        }
                        unreached()
                    },
                }
            },
            GetStep::LeadCompute => MemberStep::LeadMembershipLookup,
            GetStep::JoinWait => MemberStep::AwaitMembershipFlight,
        }
    }

    /// The leading access-fact lookup produced an answer: memoize it. A
    /// `false` answer is a successful computation ("confirmed not a member")
    /// and is cached like any other value. Returns how many waiters share
    /// this outcome.
    pub fn member_finish_ok(&mut self, key: &String, fact: bool, now: u64) -> (w: u64)
        requires
            old(self).wf(),
            !is_session_key(key@),
            spec_pending(old(self).model(), key@),
        ensures
            final(self).wf(),
            final(self).spec_ttl() == old(self).spec_ttl(),
            final(self).model() == old(self).model().insert(
                key@,
                (Slot::Ready {
                    value: AuthFact::MemberFact(fact),
                    expires_at: spec_expiry(now, old(self).spec_ttl()),
                }),
            ),
            w == spec_waiters(old(self).model(), key@),
    {
        proof {
            lemma_wf_insert_ready(
                self.cache.model(),
                key@,
                AuthFact::MemberFact(fact),
                spec_expiry(now, self.cache.spec_ttl()),
            );
        }
        self.cache.finish_ok(key, AuthFact::MemberFact(fact), now)
    }

    /// The leading access-fact lookup could not determine an answer. The
    /// failure propagates and is not cached — it is never coerced into a
    /// cached `false`. Returns how many waiters share this outcome.
    pub fn member_finish_err(&mut self, key: &String) -> (w: u64)
        requires
            old(self).wf(),
            spec_pending(old(self).model(), key@),
        ensures
            final(self).wf(),
            final(self).spec_ttl() == old(self).spec_ttl(),
            final(self).model() == old(self).model().remove(key@),
            w == spec_waiters(old(self).model(), key@),
    {
        proof {
            lemma_wf_remove(self.cache.model(), key@);
        }
        self.cache.finish_err(key)
    }
}

/// The capability contract: a protected resource chooses the cache key under
/// which its access fact for a given user is memoized, outside the session
/// namespace. The generic machinery (`verify_access_to` and the access-check
/// drivers) needs nothing else from the resource, so new resource types are
/// added by implementing this trait alone.
pub trait AccessibleResource {
    /// The cache key of this resource's access fact for `user_id`.
    spec fn resource_key(&self, user_id: Seq<char>) -> Seq<char>;

    /// Resource keys live outside the session namespace, so an access fact
    /// can never be served as a session record or the other way round.
    proof fn lemma_resource_key_not_session(&self, user_id: Seq<char>)
        ensures
            !is_session_key(self.resource_key(user_id)),
    ;

    /// Build the cache key as a string.
    fn access_cache_key(&self, user_id: &String) -> (k: String)
        ensures
            k@ == self.resource_key(user_id@),
    ;
}

/// Outcome of the backing-store read behind a capability check.
#[derive(Clone, Copy, PartialEq, Eq, Structural, Debug)]
pub enum CapabilityLookup {
    /// The store answered whether the user has access.
    AccessFact(bool),
    /// The store could not be reached or errored.
    LookupFailed,
}

/// Begin a memoized capability check: does `user_id` have access to
/// `resource`? On `LeadMembershipLookup` the caller performs the
/// backing-store read and reports through [`has_access_finish`].
pub fn has_access_begin<R: AccessibleResource>(
    resource: &R,
    cache: &mut AuthCache,
    user_id: &String,
    now: u64,
) -> (s: MemberStep)
    requires
        old(cache).wf(),
    ensures
        final(cache).wf(),
        final(cache).spec_ttl() == old(cache).spec_ttl(),
        final(cache).model() == spec_begin_next(
            old(cache).model(),
            resource.resource_key(user_id@),
            now,
        ),
        (match s {
            MemberStep::MemberKnown(b) => spec_begin_kind(
                old(cache).model(),
                resource.resource_key(user_id@),
                now,
            ) == GetStep::HitFresh && spec_fresh_value(
                old(cache).model(),
                resource.resource_key(user_id@),
            ) == AuthFact::MemberFact(b),
            MemberStep::LeadMembershipLookup => spec_begin_kind(
                old(cache).model(),
                resource.resource_key(user_id@),
                now,
            ) == GetStep::LeadCompute,
            MemberStep::AwaitMembershipFlight => spec_begin_kind(
                old(cache).model(),
                resource.resource_key(user_id@),
                now,
            ) == GetStep::JoinWait,
        }),
{
    let key = resource.access_cache_key(user_id);
    proof {
        resource.lemma_resource_key_not_session(user_id@);
    }
    cache.member_begin(&key, now)
}

/// Fold the backing-store outcome of a capability check back into the cache:
/// an answer is memoized and returned; a failed read propagates as
/// `TransientFailure`, uncached, never coerced into a denial.
pub fn has_access_finish<R: AccessibleResource>(
    resource: &R,
    cache: &mut AuthCache,
    user_id: &String,
    outcome: CapabilityLookup,
    now: u64,
) -> (r: Result<bool, AuthError>)
    requires
        old(cache).wf(),
        spec_pending(old(cache).model(), resource.resource_key(user_id@)),
    ensures
        final(cache).wf(),
        final(cache).spec_ttl() == old(cache).spec_ttl(),
        (outcome matches CapabilityLookup::AccessFact(b) ==> r == Ok::<bool, AuthError>(b)
            && final(cache).model() == old(cache).model().insert(
            resource.resource_key(user_id@),
            (Slot::Ready {
                value: AuthFact::MemberFact(b),
                expires_at: spec_expiry(now, old(cache).spec_ttl()),
            }),
        )),
        (outcome is LookupFailed ==> r == Err::<bool, AuthError>(AuthError::TransientFailure)
            && final(cache).model() == old(cache).model().remove(
            resource.resource_key(user_id@),
        )),
{
    let key = resource.access_cache_key(user_id);
    proof {
        resource.lemma_resource_key_not_session(user_id@);
    }
    match outcome {
        CapabilityLookup::AccessFact(b) => {
            cache.member_finish_ok(&key, b, now);
            Ok(b)
        },
        CapabilityLookup::LookupFailed => {
            cache.member_finish_err(&key);
            Err(AuthError::TransientFailure)
        },
    }
}

/// What a guarded operation must do next after `verify_access_to`.
#[derive(Clone, Copy, PartialEq, Eq, Structural, Debug)]
pub enum AccessStep {
    /// The identity is authenticated and has access: proceed.
    Granted,
    /// Access is denied: `Unauthenticated` for an anonymous identity,
    /// `Forbidden` for an authenticated identity whose capability check
    /// answered no.
    Denied(AuthError),
    /// The caller leads the backing-store read for the access fact and
    /// reports through `verify_access_finish`.
    NeedResourceRead,
    /// A read for the same fact is in flight; wait for its outcome.
    AwaitResourceFlight,
}

impl UserAuth {
    /// The resolved session, if the identity is authenticated.
    pub fn ok(&self) -> (r: Option<&Session>)
        ensures
            self is Authenticated ==> (r matches Some(s) && *s == self->Authenticated_0),
            self is Anonymous ==> r is None,
    {
        match self {
            UserAuth::Authenticated(session) => Some(session),
            UserAuth::Anonymous => None,
        }
    }

    /// Fail unless the identity is authenticated. An anonymous identity is
    /// rejected as `Unauthenticated` — never silently downgraded.
    pub fn required(&self) -> (r: Result<&Session, AuthError>)
        ensures
            self is Authenticated ==> (r matches Ok(s) && *s == self->Authenticated_0),
            self is Anonymous ==> (r matches Err(e) && e == AuthError::Unauthenticated),
    {
        match self {
            UserAuth::Authenticated(session) => Ok(session),
            UserAuth::Anonymous => Err(AuthError::Unauthenticated),
        }
    }

    /// The authenticated user's identifier, if any.
    pub fn user_id(&self) -> (r: Option<&str>)
        ensures
            self is Authenticated ==> (r matches Some(u) && u@ == self->Authenticated_0.user_id@),
            self is Anonymous ==> r is None,
    {
        match self {
            UserAuth::Authenticated(session) => Some(session.user_id.as_str()),
            UserAuth::Anonymous => None,
        }
    }

    /// Check access to a protected resource. An anonymous identity is always
    /// denied `Unauthenticated`, whatever the resource's own rules, and
    /// nothing is read or cached for it. For an authenticated identity the
    /// resource's memoized access fact decides: a cached `false` denies with
    /// `Forbidden` — distinct from `Unauthenticated` — and a miss hands the
    /// backing-store read to the caller.
    pub fn verify_access_to<R: AccessibleResource>(
        &self,
        resource: &R,
        cache: &mut AuthCache,
        now: u64,
    ) -> (s: AccessStep)
        requires
            old(cache).wf(),
        ensures
            final(cache).wf(),
            final(cache).spec_ttl() == old(cache).spec_ttl(),
            self is Anonymous ==> s == AccessStep::Denied(AuthError::Unauthenticated)
                && final(cache).model() == old(cache).model(),
            self is Authenticated ==> ({
                let k = resource.resource_key(self->Authenticated_0.user_id@);
                let m0 = old(cache).model();
                final(cache).model() == spec_begin_next(m0, k, now) && (match s {
                    AccessStep::Granted => spec_begin_kind(m0, k, now) == GetStep::HitFresh
                        && spec_fresh_value(m0, k) == AuthFact::MemberFact(true),
                    AccessStep::Denied(e) => e == AuthError::Forbidden && spec_begin_kind(
                        m0,
                        k,
                        now,
                    ) == GetStep::HitFresh && spec_fresh_value(m0, k) == AuthFact::MemberFact(
                        false,
                    ),
                    AccessStep::NeedResourceRead => spec_begin_kind(m0, k, now)
                        == GetStep::LeadCompute,
                    AccessStep::AwaitResourceFlight => spec_begin_kind(m0, k, now)
                        == GetStep::JoinWait,
                })
            }),
    {
        match self {
            UserAuth::Anonymous => AccessStep::Denied(AuthError::Unauthenticated),
            UserAuth::Authenticated(session) => {
                let step = has_access_begin(resource, cache, &session.user_id, now);
                match step {
                    MemberStep::MemberKnown(true) => AccessStep::Granted,
                    MemberStep::MemberKnown(false) => AccessStep::Denied(AuthError::Forbidden),
                    MemberStep::LeadMembershipLookup => AccessStep::NeedResourceRead,
                    MemberStep::AwaitMembershipFlight => AccessStep::AwaitResourceFlight,
                }
            },
        }
    }

    /// Fold the backing-store outcome of an access check back into the cache
    /// and decide: access confirmed is granted, access denied is `Forbidden`
    /// (the identity is known — this is not `Unauthenticated`), and a failed
    /// read propagates as `TransientFailure`, uncached.
    pub fn verify_access_finish<R: AccessibleResource>(
        &self,
        resource: &R,
        cache: &mut AuthCache,
        outcome: CapabilityLookup,
        now: u64,
    ) -> (r: Result<(), AuthError>)
        requires
            old(cache).wf(),
            self is Authenticated,
            spec_pending(old(cache).model(), resource.resource_key(self->Authenticated_0.user_id@)),
        ensures
            final(cache).wf(),
            final(cache).spec_ttl() == old(cache).spec_ttl(),
            (outcome matches CapabilityLookup::AccessFact(b) ==> final(cache).model() == old(
                cache,
            ).model().insert(
                resource.resource_key(self->Authenticated_0.user_id@),
                (Slot::Ready {
                    value: AuthFact::MemberFact(b),
                    expires_at: spec_expiry(now, old(cache).spec_ttl()),
                }),
            ) && (b ==> r == Ok::<(), AuthError>(())) && (!b ==> r == Err::<(), AuthError>(
                AuthError::Forbidden,
            ))),
            (outcome is LookupFailed ==> final(cache).model() == old(cache).model().remove(
                resource.resource_key(self->Authenticated_0.user_id@),
            ) && r == Err::<(), AuthError>(AuthError::TransientFailure)),
    {
        match self {
            UserAuth::Authenticated(session) => {
                let checked = has_access_finish(resource, cache, &session.user_id, outcome, now);
                match checked {
                    Ok(true) => Ok(()),
                    Ok(false) => Err(AuthError::Forbidden),
                    Err(e) => Err(e),
                }
            },
            UserAuth::Anonymous => unreached(),
        }
    }
}

} // verus!
