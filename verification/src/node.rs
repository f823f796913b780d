//! The cross-platform node core: its identity, platform and data directory.
use vstd::prelude::*;
use crate::random::{is_uuid_v4_text, new_uuid};
use crate::resources::{Platform, platform_name};

verus! {

/// A node of the network.
#[derive(Debug)]
pub struct FlovenetNode {
    pub peer_id: String,
    pub platform: Platform,
    pub data_dir: String,
}

impl FlovenetNode {
    /// The node with peer id `flovenet-<uuid>` on `platform`, keeping its data in `data_dir`.
    pub fn with_uuid(uuid: &str, platform: Platform, data_dir: String) -> (n: FlovenetNode)
        ensures
            n.peer_id@ == "flovenet-"@ + uuid@,
            n.platform == platform,
            n.data_dir@ == data_dir@,
    {
        let mut peer_id = "flovenet-".to_owned();
        peer_id.append(uuid);
        FlovenetNode { peer_id, platform, data_dir }
    }

    /// A node with a fresh random peer id `flovenet-<uuid>`.
    pub fn create(platform: Platform, data_dir: String) -> (n: FlovenetNode)
        ensures
            exists|u: Seq<char>| is_uuid_v4_text(u) && n.peer_id@ == "flovenet-"@ + u,
            n.platform == platform,
            n.data_dir@ == data_dir@,
    {
        let uuid = new_uuid();
        let n = Self::with_uuid(uuid.as_str(), platform, data_dir);
        assert(is_uuid_v4_text(uuid@) && n.peer_id@ == "flovenet-"@ + uuid@);
        n
    }

    /// The node's peer id.
    pub fn peer_id_str(&self) -> (s: String)
        ensures
            s@ == self.peer_id@,
    {
        self.peer_id.clone()
    }

    /// The name of the node's platform.
    pub fn platform_str(&self) -> (s: String)
        ensures
            s@ == platform_name(self.platform),
    {
        self.platform.as_str().to_owned()
    }
}

} // verus!
