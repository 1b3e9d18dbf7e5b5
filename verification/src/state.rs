//! Process-wide state and configuration.
//!
//! The configuration records hold what the process reads from its
//! environment at start; reading the environment, opening the database pool
//! and the object stores, and the queue connections all happen outside this
//! crate. [`AppState`] carries what the verified core works with: the
//! configuration, the shared authorization cache, and the pinning-cluster
//! handle.

use vstd::prelude::*;

use crate::auth::{AuthCache, AuthFact};
use crate::cache::Slot;
use crate::ipfs::IPFSModule;

verus! {

pub struct S3Config {
    pub endpoint_url: String,
    pub region: String,
    pub bucket_name: String,
    pub access_key: String,
    pub secret_key: String,
}

pub struct S3PreviewsConfig {
    pub endpoint_url: String,
    pub region: String,
    pub bucket_name: String,
    pub access_key: String,
    pub secret_key: String,
}

pub struct S3CarConfig {
    pub endpoint_url: String,
    pub region: String,
    pub bucket_name: String,
    pub access_key: String,
    pub secret_key: String,
}

pub struct AMQPConfig {
    pub addr: String,
    pub previews_queue: Option<String>,
    pub car_queue: Option<String>,
    pub car_result_queue: Option<String>,
}

pub struct GithubAppConfig {
    pub client_id: String,
    pub client_secret: String,
}

pub struct IPFSConfig {
    pub cluster_url: String,
    pub public_cluster_url: String,
}

pub struct AppConfig {
    pub database_url: String,
    pub s3: S3Config,
    pub s3_previews: Option<S3PreviewsConfig>,
    pub s3_car: Option<S3CarConfig>,
    pub github_app: Option<GithubAppConfig>,
    pub amqp: Option<AMQPConfig>,
    pub ipfs: Option<IPFSConfig>,
}

/// What the verified core carries through request handling: the loaded
/// configuration, the shared authorization cache (created once, empty), and
/// the pinning-cluster handle when one is configured.
pub struct AppState {
    pub config: AppConfig,
    pub cache: AuthCache,
    pub ipfs: Option<IPFSModule>,
}

impl AppState {
    /// Assemble the state from a loaded configuration: a fresh, empty
    /// authorization cache with the given time-to-live, and a pinning
    /// handle exactly when the configuration names a cluster.
    pub fn new(config: AppConfig, cache_ttl: u64) -> (st: Self)
        ensures
            st.cache.wf(),
            st.cache.model() == Map::<Seq<char>, Slot<AuthFact>>::empty(),
            st.cache.spec_ttl() == cache_ttl,
            st.config == config,
            config.ipfs matches Some(c) ==> (st.ipfs matches Some(m) && m.cluster_url@
                == c.cluster_url@ && m.public_cluster_url@ == c.public_cluster_url@),
            config.ipfs is None ==> st.ipfs is None,
    {
        let ipfs = match &config.ipfs {
            Some(c) => Some(IPFSModule::new(c.cluster_url.clone(), c.public_cluster_url.clone())),
            None => None,
        };
        AppState { cache: AuthCache::new(cache_ttl), ipfs, config }
    }
}

} // verus!
