use vstd::prelude::*;
use crate::hex::{hex_seq, to_hex};
use crate::{canonical_pair, spec_canonical_pair};
use vstd::string::StringExecFns;

verus! {

/// The naming policy of a file-backed repository: where a device or session
/// record lives under a base directory. The file names are pure text
/// computations; the adapter that actually reads and writes them lives
/// outside the core.
pub struct FileKeystore {
    base_path: String,
}

/// The file name of a device record: the device id under `devices`.
pub open spec fn spec_device_path(base: Seq<char>, id: u128) -> Seq<char> {
    base + "/devices/"@ + hex_seq(id, 32) + ".json"@
}

/// The file name of a session record: the canonical pair under `sessions`,
/// so both orderings of a pair name exactly one file.
pub open spec fn spec_session_path(base: Seq<char>, a: u128, b: u128) -> Seq<char> {
    base + "/sessions/"@ + hex_seq(spec_canonical_pair(a, b).0, 32) + "_"@ + hex_seq(
        spec_canonical_pair(a, b).1,
        32,
    ) + ".json"@
}

/// The storage address of a pair is the same in either order.
pub proof fn lemma_session_path_symmetric(base: Seq<char>, a: u128, b: u128)
    ensures
        spec_session_path(base, a, b) == spec_session_path(base, b, a),
{
}

impl FileKeystore {
    pub closed spec fn spec_base(&self) -> Seq<char> {
        self.base_path@
    }

    pub fn new(base_path: String) -> (r: FileKeystore)
        ensures
            r.spec_base() == base_path@,
    {
        FileKeystore { base_path }
    }

    /// The file name under which the device record with this id is stored.
    pub fn device_path(&self, device_id: u128) -> (r: String)
        ensures
            r@ == spec_device_path(self.spec_base(), device_id),
    {
        let mut r = self.base_path.clone();
        r.append("/devices/");
        let hex = to_hex(device_id, 32);
        r.append(hex.as_str());
        r.append(".json");
        proof {
            assert(r@ =~= spec_device_path(self.spec_base(), device_id));
        }
        r
    }

    /// The file name under which the session record of this pair is stored,
    /// the same whichever endpoint comes first.
    pub fn session_path(&self, local_id: u128, remote_id: u128) -> (r: String)
        ensures
            r@ == spec_session_path(self.spec_base(), local_id, remote_id),
            r@ == spec_session_path(self.spec_base(), remote_id, local_id),
    {
        let key = canonical_pair(local_id, remote_id);
        let mut r = self.base_path.clone();
        r.append("/sessions/");
        let first = to_hex(key.0, 32);
        r.append(first.as_str());
        r.append("_");
        let second = to_hex(key.1, 32);
        r.append(second.as_str());
        r.append(".json");
        proof {
            assert(r@ =~= spec_session_path(self.spec_base(), local_id, remote_id));
            lemma_session_path_symmetric(self.spec_base(), local_id, remote_id);
        }
        r
    }
}

} // verus!
