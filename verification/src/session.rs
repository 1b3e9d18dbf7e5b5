//! Sessions and the session resolver.
//!
//! A request's `Authorization` header either carries a bearer credential or
//! it does not. With no credential, resolution is `Anonymous` and nothing
//! else happens — in particular no backing-store read. With a credential,
//! the resolver memoizes the lookup in the shared [`AuthCache`] under the
//! `session:<raw-token>` namespace; on a miss the caller performs the
//! backing-store read (hash the token, fetch the active session by that
//! hash) and reports the outcome through [`resolve_finish`].

use vstd::prelude::*;
use vstd::string::*;

use crate::auth::{AuthCache, AuthError, SessionStep, UserAuth};
use crate::auth::AuthFact;
use crate::cache::{spec_begin_kind, spec_begin_next, spec_expiry, spec_fresh_value, spec_pending,
    GetStep, Slot};

verus! {

/// Identity evidence bound to a user: an opaque session identifier and the
/// identifier of the owning user. The raw bearer token is never stored; the
/// backing store indexes sessions by the token's one-way hash, and this core
/// only ever sees the resolved record.
pub struct Session {
    pub session_id: String,
    pub user_id: String,
}

impl Clone for Session {
    fn clone(&self) -> (r: Self)
        ensures
            r == *self,
    {
        Session { session_id: self.session_id.clone(), user_id: self.user_id.clone() }
    }
}

/// The bearer credential carried by an `Authorization` header value, if any:
/// the part after the `Bearer ` prefix, provided it is non-empty.
pub open spec fn spec_bearer_token(h: Seq<char>) -> Option<Seq<char>> {
    if h.len() > "Bearer "@.len() && h.subrange(0, "Bearer "@.len() as int) == "Bearer "@ {
        Option::Some(h.subrange("Bearer "@.len() as int, h.len() as int))
    } else {
        Option::None
    }
}

/// The credential presented by a request, given its `Authorization` header:
/// none when the header is absent or does not carry a bearer credential.
pub open spec fn spec_credential(header: Option<&String>) -> Option<Seq<char>> {
    match header {
        Option::Some(h) => spec_bearer_token(h@),
        Option::None => Option::None,
    }
}

/// Extract the bearer credential from an `Authorization` header value.
pub fn extract_bearer(header: &str) -> (r: Option<String>)
    ensures
        r is Some <==> spec_bearer_token(header@) is Some,
        r matches Some(t) ==> spec_bearer_token(header@) == Option::Some(t@),
{
    proof {
        reveal_strlit("Bearer ");
    }
    let p: &str = "Bearer ";
    let hlen = header.unicode_len();
    if hlen <= 7 {
        return None;
    }
    let mut i: usize = 0;
    while i < 7
        invariant
            i <= 7,
            p@ == "Bearer "@,
            p@.len() == 7,
            hlen == header@.len(),
            hlen > 7,
            forall|j: int| 0 <= j < i ==> header@[j] == "Bearer "@[j],
        decreases 7 - i,
    {
        let hc = header.get_char(i);
        let pc = p.get_char(i);
        if hc != pc {
            proof {
                assert(header@.subrange(0, 7)[i as int] != "Bearer "@[i as int]);
            }
            return None;
        }
        i += 1;
    }
    proof {
        assert(header@.subrange(0, 7) =~= "Bearer "@);
    }
    let t = header.substring_char(7, hlen);
    Some(t.to_owned())
}

/// The cache key under which a credential's session lookup is memoized:
/// the raw token under the `session:` namespace.
pub open spec fn spec_session_key(token: Seq<char>) -> Seq<char> {
    "session:"@ + token
}

/// A key in the `session:` namespace.
pub open spec fn is_session_key(k: Seq<char>) -> bool {
    k.len() >= "session:"@.len() && k.subrange(0, "session:"@.len() as int) == "session:"@
}

pub proof fn lemma_session_key_is_session(token: Seq<char>)
    ensures
        is_session_key(spec_session_key(token)),
{
    assert(("session:"@ + token).subrange(0, "session:"@.len() as int) =~= "session:"@);
}

/// Distinct credentials memoize under distinct keys: the `session:` namespace
/// never conflates two tokens.
pub proof fn lemma_session_key_injective(t1: Seq<char>, t2: Seq<char>)
    requires
        spec_session_key(t1) == spec_session_key(t2),
    ensures
        t1 == t2,
{
    let n = "session:"@.len() as int;
    assert(t1 =~= spec_session_key(t1).subrange(n, spec_session_key(t1).len() as int));
    assert(t2 =~= spec_session_key(t2).subrange(n, spec_session_key(t2).len() as int));
}

pub fn session_cache_key(token: &String) -> (k: String)
    ensures
        k@ == spec_session_key(token@),
{
    let mut k = String::new();
    k.append("session:");
    k.append(token.as_str());
    proof {
        assert(k@ =~= "session:"@ + token@);
    }
    k
}

/// What a request's resolution must do next.
pub enum ResolveStep {
    /// Resolution is complete: `Anonymous` when no credential was presented,
    /// `Authenticated` when a fresh session record was cached.
    Resolved(UserAuth),
    /// This caller leads the session lookup for the carried raw token: it
    /// hashes the token, fetches the active session by that hash, and reports
    /// through [`resolve_finish`].
    NeedSessionLookup(String),
    /// A lookup for the same credential is in flight; wait for its outcome.
    AwaitSessionFlight(String),
}

/// Outcome of the backing-store read behind a session lookup.
pub enum SessionLookup {
    /// An active session matches the credential's hash.
    ActiveSession(Session),
    /// No active session matches: the credential is invalid.
    NoActiveSession,
    /// The store could not be reached or errored.
    LookupFailed,
}

/// Resolve a request's `Authorization` header to an identity, phase one.
/// With no credential presented the result is `Anonymous` at once: the cache
/// is untouched and no backing-store read is requested. With a credential,
/// the memoized lookup begins under `session:<raw-token>`.
pub fn resolve_begin(cache: &mut AuthCache, header: Option<&String>, now: u64) -> (s: ResolveStep)
    requires
        old(cache).wf(),
    ensures
        final(cache).wf(),
        final(cache).spec_ttl() == old(cache).spec_ttl(),
        spec_credential(header) is None ==> (s matches ResolveStep::Resolved(a) && a is Anonymous
            && final(cache).model() == old(cache).model()),
        (spec_credential(header) matches Some(t) ==> ({
            let k = spec_session_key(t);
            let m0 = old(cache).model();
            final(cache).model() == spec_begin_next(m0, k, now) && (match s {
                ResolveStep::Resolved(a) => spec_begin_kind(m0, k, now) == GetStep::HitFresh && (
                a matches UserAuth::Authenticated(sess) && spec_fresh_value(m0, k)
                    == AuthFact::SessionFact(sess)),
                ResolveStep::NeedSessionLookup(tok) => spec_begin_kind(m0, k, now)
                    == GetStep::LeadCompute && tok@ == t,
                ResolveStep::AwaitSessionFlight(tok) => spec_begin_kind(m0, k, now)
                    == GetStep::JoinWait && tok@ == t,
            })
        })),
{
    let h = match header {
        Some(h) => h,
        None => {
            return ResolveStep::Resolved(UserAuth::Anonymous);
        },
    };
    let tok = extract_bearer(h.as_str());
    match tok {
        None => ResolveStep::Resolved(UserAuth::Anonymous),
        Some(token) => {
            let step = cache.session_begin(&token, now);
            match step {
                SessionStep::SessionCached(sess) => ResolveStep::Resolved(
                    UserAuth::Authenticated(sess),
                ),
                SessionStep::LeadSessionLookup => ResolveStep::NeedSessionLookup(token),
                SessionStep::AwaitSessionFlight => ResolveStep::AwaitSessionFlight(token),
            }
        },
    }
}

/// Resolve a request's identity, phase two: fold the backing-store outcome
/// of the leading session lookup back into the cache. An active session is
/// memoized and yields `Authenticated`; a credential matching no session
/// fails with `Unauthenticated` — a hard failure, never a downgrade to
/// `Anonymous` — and a failed read fails with `TransientFailure`; neither
/// failure is cached, so the next request retries.
pub fn resolve_finish(
    cache: &mut AuthCache,
    token: &String,
    outcome: SessionLookup,
    now: u64,
) -> (r: Result<UserAuth, AuthError>)
    requires
        old(cache).wf(),
        spec_pending(old(cache).model(), spec_session_key(token@)),
    ensures
        final(cache).wf(),
        final(cache).spec_ttl() == old(cache).spec_ttl(),
        (outcome matches SessionLookup::ActiveSession(sess) ==> r == Ok::<UserAuth, AuthError>(
            UserAuth::Authenticated(sess),
        ) && final(cache).model() == old(cache).model().insert(
            spec_session_key(token@),
            (Slot::Ready {
                value: AuthFact::SessionFact(sess),
                expires_at: spec_expiry(now, old(cache).spec_ttl()),
            }),
        )),
        outcome is NoActiveSession ==> r == Err::<UserAuth, AuthError>(AuthError::Unauthenticated)
            && final(cache).model() == old(cache).model().remove(spec_session_key(token@)),
        outcome is LookupFailed ==> r == Err::<UserAuth, AuthError>(AuthError::TransientFailure)
            && final(cache).model() == old(cache).model().remove(spec_session_key(token@)),
{
    match outcome {
        SessionLookup::ActiveSession(sess) => {
            let resolved = sess.clone();
            cache.session_finish_ok(token, sess, now);
            Ok(UserAuth::Authenticated(resolved))
        },
        SessionLookup::NoActiveSession => {
            cache.session_finish_err(token);
            Err(AuthError::Unauthenticated)
        },
        SessionLookup::LookupFailed => {
            cache.session_finish_err(token);
            Err(AuthError::TransientFailure)
        },
    }
}

} // verus!
