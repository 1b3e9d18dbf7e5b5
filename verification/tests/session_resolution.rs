use engine::auth::{AuthCache, AuthError, UserAuth};
use engine::session::{
    extract_bearer, resolve_begin, resolve_finish, session_cache_key, ResolveStep, Session,
    SessionLookup,
};

fn session(session_id: &str, user_id: &str) -> Session {
    Session { session_id: String::from(session_id), user_id: String::from(user_id) }
}

#[test]
fn bearer_extraction() {
    assert_eq!(extract_bearer("Bearer abc"), Some(String::from("abc")));
    // no prefix: no credential presented
    assert_eq!(extract_bearer("abc"), None);
    assert_eq!(extract_bearer(""), None);
    // prefix with nothing after it: no credential presented
    assert_eq!(extract_bearer("Bearer "), None);
    // only the leading prefix is stripped; the rest is the opaque token
    assert_eq!(extract_bearer("Bearer a b"), Some(String::from("a b")));
    assert_eq!(extract_bearer("Bearer Bearer x"), Some(String::from("Bearer x")));
    // the prefix match is exact
    assert_eq!(extract_bearer("bearer abc"), None);
}

#[test]
fn session_key_namespacing() {
    assert_eq!(session_cache_key(&String::from("abc")), String::from("session:abc"));
}

/// No `Authorization` header: resolution is `Anonymous` at once, with no
/// backing-store read requested.
#[test]
fn no_header_resolves_anonymous() {
    let mut cache = AuthCache::new(30);
    let step = resolve_begin(&mut cache, None, 100);
    match step {
        ResolveStep::Resolved(UserAuth::Anonymous) => {},
        _ => panic!("expected immediate anonymous resolution"),
    }
    // a header without a bearer credential behaves the same
    let header = String::from("Basic xyz");
    let step = resolve_begin(&mut cache, Some(&header), 100);
    match step {
        ResolveStep::Resolved(UserAuth::Anonymous) => {},
        _ => panic!("expected immediate anonymous resolution"),
    }
}

/// A credential no session hashes to: resolution fails with Unauthenticated,
/// and `required` on an anonymous identity fails the same way.
#[test]
fn unknown_credential_fails_unauthenticated() {
    let mut cache = AuthCache::new(30);
    let header = String::from("Bearer abc");

    let token = match resolve_begin(&mut cache, Some(&header), 100) {
        ResolveStep::NeedSessionLookup(token) => token,
        _ => panic!("expected to lead the session lookup"),
    };
    assert_eq!(token, String::from("abc"));

    // the backing store finds no active session for the token's hash
    let resolved = resolve_finish(&mut cache, &token, SessionLookup::NoActiveSession, 100);
    match resolved {
        Err(AuthError::Unauthenticated) => {},
        _ => panic!("expected Unauthenticated"),
    }

    // required() on an anonymous identity is the same hard failure
    let anon = UserAuth::Anonymous;
    match anon.required() {
        Err(AuthError::Unauthenticated) => {},
        _ => panic!("expected Unauthenticated"),
    }

    // the failure was not cached: the next request leads a fresh lookup
    match resolve_begin(&mut cache, Some(&header), 101) {
        ResolveStep::NeedSessionLookup(_) => {},
        _ => panic!("expected a fresh lookup after the uncached failure"),
    }
}

/// A resolved session is memoized: the second identical request is served
/// from the cache, and concurrent identical requests share one lookup.
#[test]
fn session_resolution_is_memoized_and_single_flight() {
    let mut cache = AuthCache::new(30);
    let header = String::from("Bearer tok1");

    let token = match resolve_begin(&mut cache, Some(&header), 100) {
        ResolveStep::NeedSessionLookup(token) => token,
        _ => panic!("expected to lead the session lookup"),
    };

    // a second request for the same credential while the lookup is in flight
    match resolve_begin(&mut cache, Some(&header), 100) {
        ResolveStep::AwaitSessionFlight(t) => assert_eq!(t, String::from("tok1")),
        _ => panic!("expected to wait on the in-flight lookup"),
    }

    let resolved =
        resolve_finish(&mut cache, &token, SessionLookup::ActiveSession(session("s1", "u1")), 100);
    match resolved {
        Ok(UserAuth::Authenticated(s)) => {
            assert_eq!(s.session_id, String::from("s1"));
            assert_eq!(s.user_id, String::from("u1"));
        },
        _ => panic!("expected an authenticated identity"),
    }

    // within the time-to-live the record is served from the cache
    match resolve_begin(&mut cache, Some(&header), 120) {
        ResolveStep::Resolved(UserAuth::Authenticated(s)) => {
            assert_eq!(s.user_id, String::from("u1"));
        },
        _ => panic!("expected the cached session"),
    }

    // after expiry the lookup runs again
    match resolve_begin(&mut cache, Some(&header), 130) {
        ResolveStep::NeedSessionLookup(_) => {},
        _ => panic!("expected a fresh lookup after expiry"),
    }
}

/// A backing-store error during resolution propagates as a transient failure
/// and is not cached.
#[test]
fn store_error_propagates_uncached() {
    let mut cache = AuthCache::new(30);
    let header = String::from("Bearer tok2");

    let token = match resolve_begin(&mut cache, Some(&header), 100) {
        ResolveStep::NeedSessionLookup(token) => token,
        _ => panic!("expected to lead the session lookup"),
    };
    match resolve_finish(&mut cache, &token, SessionLookup::LookupFailed, 100) {
        Err(AuthError::TransientFailure) => {},
        _ => panic!("expected TransientFailure"),
    }
    match resolve_begin(&mut cache, Some(&header), 100) {
        ResolveStep::NeedSessionLookup(_) => {},
        _ => panic!("expected a clean retry"),
    }
}

#[test]
fn identity_accessors() {
    let auth = UserAuth::Authenticated(session("s1", "u1"));
    assert_eq!(auth.user_id(), Some("u1"));
    assert!(auth.ok().is_some());
    assert_eq!(auth.ok().unwrap().session_id, String::from("s1"));
    match auth.required() {
        Ok(s) => assert_eq!(s.user_id, String::from("u1")),
        Err(_) => panic!("expected the session"),
    }

    let anon = UserAuth::Anonymous;
    assert_eq!(anon.user_id(), None);
    assert!(anon.ok().is_none());
}
