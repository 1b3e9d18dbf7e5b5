use engine::auth::{
    AccessStep, AuthCache, AuthError, CapabilityLookup, MemberStep, UserAuth,
};
use engine::session::Session;
use engine::team::{compute_membership, member_cache_key, Team, TeamId};

fn authed(user_id: &str) -> UserAuth {
    UserAuth::Authenticated(Session {
        session_id: String::from("s"),
        user_id: String::from(user_id),
    })
}

#[test]
fn member_key_namespacing() {
    assert_eq!(member_cache_key("t1", "u1"), String::from("team:t1:member:u1"));
}

/// Membership is ownership or explicit association: a team owned by `u2`
/// with `u1` as an explicit member admits `u1` and `u2` and nobody else.
#[test]
fn membership_is_owner_or_explicit_member() {
    let owner = String::from("u2");
    let members = vec![String::from("u1")];
    assert!(compute_membership(&owner, &members, &String::from("u1")));
    assert!(compute_membership(&owner, &members, &String::from("u2")));
    assert!(!compute_membership(&owner, &members, &String::from("u3")));
    // nobody is a member of a team with no owner match and no associations
    assert!(!compute_membership(&owner, &Vec::new(), &String::from("u1")));
}

#[test]
fn team_owner_check() {
    let team = Team {
        team_id: String::from("t1"),
        owner_id: String::from("u2"),
        name: String::from("a team"),
        created_at: 1700000000,
    };
    assert!(team.is_owner(&String::from("u2")));
    assert!(!team.is_owner(&String::from("u1")));
}

/// An anonymous identity is always denied Unauthenticated, whatever the
/// resource, and nothing is read or cached for it.
#[test]
fn anonymous_access_always_unauthenticated() {
    let mut cache = AuthCache::new(30);
    let anon = UserAuth::Anonymous;
    let step = anon.verify_access_to(&TeamId("t1"), &mut cache, 100);
    assert_eq!(step, AccessStep::Denied(AuthError::Unauthenticated));

    // the cache was untouched: an authenticated check still misses
    let user = authed("u1");
    let step = user.verify_access_to(&TeamId("t1"), &mut cache, 100);
    assert_eq!(step, AccessStep::NeedResourceRead);
}

/// An authenticated identity whose capability check answers no is denied
/// Forbidden — not Unauthenticated — both when the answer arrives and when
/// it is later served from the cache.
#[test]
fn denied_capability_is_forbidden() {
    let mut cache = AuthCache::new(30);
    let user = authed("u3");
    let team = TeamId("t1");

    assert_eq!(user.verify_access_to(&team, &mut cache, 100), AccessStep::NeedResourceRead);
    let decided = user.verify_access_finish(
        &team,
        &mut cache,
        CapabilityLookup::AccessFact(false),
        100,
    );
    match decided {
        Err(AuthError::Forbidden) => {},
        _ => panic!("expected Forbidden"),
    }

    // the confirmed non-membership is cached and still denies Forbidden
    assert_eq!(
        user.verify_access_to(&team, &mut cache, 110),
        AccessStep::Denied(AuthError::Forbidden)
    );
}

/// A granted capability is cached and grants again within the window.
#[test]
fn granted_capability_is_cached() {
    let mut cache = AuthCache::new(30);
    let user = authed("u1");
    let team = TeamId("t1");

    assert_eq!(user.verify_access_to(&team, &mut cache, 100), AccessStep::NeedResourceRead);
    let decided =
        user.verify_access_finish(&team, &mut cache, CapabilityLookup::AccessFact(true), 100);
    assert!(decided.is_ok());
    assert_eq!(user.verify_access_to(&team, &mut cache, 110), AccessStep::Granted);
}

/// Scenario: team `t` owned by `u1`, time-to-live 30. The first membership
/// check reads the backing store; the second, inside the window, is served
/// from the cache with no second read; after expiry a third check reads the
/// backing store again.
#[test]
fn membership_cached_within_ttl_reread_after() {
    let mut cache = AuthCache::new(30);
    let team_id = String::from("t");
    let user_id = String::from("u1");
    let owner = String::from("u1");
    let mut store_reads: u32 = 0;

    // first call at t=0: uncached, this caller leads the backing-store read
    let step = Team::is_member_begin(&mut cache, &team_id, &user_id, 0);
    assert_eq!(step, MemberStep::LeadMembershipLookup);
    store_reads += 1;
    let fact = compute_membership(&owner, &Vec::new(), &user_id);
    assert!(fact);
    let r = Team::is_member_finish(
        &mut cache,
        &team_id,
        &user_id,
        CapabilityLookup::AccessFact(fact),
        0,
    );
    assert_eq!(r, Ok(true));

    // second call inside the window: served from the cache, no second read
    let step = Team::is_member_begin(&mut cache, &team_id, &user_id, 10);
    assert_eq!(step, MemberStep::MemberKnown(true));
    assert_eq!(store_reads, 1);

    // third call after expiry: the backing store is read again
    let step = Team::is_member_begin(&mut cache, &team_id, &user_id, 30);
    assert_eq!(step, MemberStep::LeadMembershipLookup);
    store_reads += 1;
    let r = Team::is_member_finish(
        &mut cache,
        &team_id,
        &user_id,
        CapabilityLookup::AccessFact(true),
        30,
    );
    assert_eq!(r, Ok(true));
    assert_eq!(store_reads, 2);
}

/// A failed membership read propagates as a transient failure, is never
/// coerced into a cached `false`, and the next check retries cleanly.
#[test]
fn membership_store_failure_propagates_uncached() {
    let mut cache = AuthCache::new(30);
    let team_id = String::from("t");
    let user_id = String::from("u1");

    assert_eq!(
        Team::is_member_begin(&mut cache, &team_id, &user_id, 0),
        MemberStep::LeadMembershipLookup
    );
    let r = Team::is_member_finish(
        &mut cache,
        &team_id,
        &user_id,
        CapabilityLookup::LookupFailed,
        0,
    );
    assert_eq!(r, Err(AuthError::TransientFailure));

    // not cached as false: the next check leads a fresh read
    assert_eq!(
        Team::is_member_begin(&mut cache, &team_id, &user_id, 0),
        MemberStep::LeadMembershipLookup
    );
}

/// `required_member_of` composes the same pieces: anonymous identities are
/// rejected without any read; members pass; non-members are Forbidden.
#[test]
fn required_member_of_flows() {
    let mut cache = AuthCache::new(30);
    let team_id = String::from("t1");

    let anon = UserAuth::Anonymous;
    assert_eq!(
        anon.required_member_of_begin(&mut cache, &team_id, 0),
        AccessStep::Denied(AuthError::Unauthenticated)
    );

    let user = authed("u1");
    assert_eq!(
        user.required_member_of_begin(&mut cache, &team_id, 0),
        AccessStep::NeedResourceRead
    );
    let r = user.required_member_of_finish(
        &mut cache,
        &team_id,
        CapabilityLookup::AccessFact(true),
        0,
    );
    assert_eq!(r, Ok(()));
    assert_eq!(user.required_member_of_begin(&mut cache, &team_id, 10), AccessStep::Granted);

    let outsider = authed("u9");
    assert_eq!(
        outsider.required_member_of_begin(&mut cache, &team_id, 10),
        AccessStep::NeedResourceRead
    );
    let r = outsider.required_member_of_finish(
        &mut cache,
        &team_id,
        CapabilityLookup::AccessFact(false),
        10,
    );
    assert_eq!(r, Err(AuthError::Forbidden));
}

/// Concurrent membership checks for the same key share one flight; checks
/// for different users or teams do not interfere.
#[test]
fn membership_single_flight_per_key() {
    let mut cache = AuthCache::new(30);
    let team_id = String::from("t1");
    let u1 = String::from("u1");
    let u2 = String::from("u2");

    assert_eq!(
        Team::is_member_begin(&mut cache, &team_id, &u1, 0),
        MemberStep::LeadMembershipLookup
    );
    assert_eq!(
        Team::is_member_begin(&mut cache, &team_id, &u1, 0),
        MemberStep::AwaitMembershipFlight
    );
    // a different user's check is an independent key
    assert_eq!(
        Team::is_member_begin(&mut cache, &team_id, &u2, 0),
        MemberStep::LeadMembershipLookup
    );
}
