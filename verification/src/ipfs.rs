//! Handle to the IPFS pinning cluster: the two cluster endpoints the rest of
//! the system talks to. The network traffic itself happens outside this crate.

use vstd::prelude::*;

verus! {

pub struct IPFSModule {
    pub cluster_url: String,
    pub public_cluster_url: String,
}

impl IPFSModule {
    pub fn new(cluster_url: String, public_cluster_url: String) -> (m: Self)
        ensures
            m.cluster_url@ == cluster_url@,
            m.public_cluster_url@ == public_cluster_url@,
    {
        Self { cluster_url, public_cluster_url }
    }
}

} // verus!
