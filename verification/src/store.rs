use vstd::prelude::*;
use crate::device::{Device, DeviceV};
use crate::errors::MeshError;
use crate::session::{Session, SessionV};
use crate::spec_canonical_pair;

verus! {

/// The canonical storage key of a session record: the unordered pair of its
/// endpoints.
pub open spec fn session_key(s: SessionV) -> (u128, u128) {
    spec_canonical_pair(s.local_device_id, s.remote_device_id)
}

pub open spec fn dev_views(s: Seq<Device>) -> Seq<DeviceV> {
    Seq::new(s.len(), |i: int| s[i]@)
}

pub open spec fn sess_views(s: Seq<Session>) -> Seq<SessionV> {
    Seq::new(s.len(), |i: int| s[i]@)
}

/// The first device record with the given id, if any.
pub open spec fn find_dev(vs: Seq<DeviceV>, id: u128) -> Option<DeviceV>
    decreases vs.len(),
{
    if vs.len() == 0 {
        None
    } else if vs[0].id == id {
        Some(vs[0])
    } else {
        find_dev(vs.drop_first(), id)
    }
}

/// The device records left after removing every one with the given id.
pub open spec fn drop_dev(vs: Seq<DeviceV>, id: u128) -> Seq<DeviceV>
    decreases vs.len(),
{
    if vs.len() == 0 {
        vs
    } else if vs[0].id == id {
        drop_dev(vs.drop_first(), id)
    } else {
        seq![vs[0]] + drop_dev(vs.drop_first(), id)
    }
}

/// The first session record stored under the given canonical key, if any.
pub open spec fn find_sess(vs: Seq<SessionV>, key: (u128, u128)) -> Option<SessionV>
    decreases vs.len(),
{
    if vs.len() == 0 {
        None
    } else if session_key(vs[0]) == key {
        Some(vs[0])
    } else {
        find_sess(vs.drop_first(), key)
    }
}

/// The session records left after removing every one stored under the given
/// canonical key.
pub open spec fn drop_sess_key(vs: Seq<SessionV>, key: (u128, u128)) -> Seq<SessionV>
    decreases vs.len(),
{
    if vs.len() == 0 {
        vs
    } else if session_key(vs[0]) == key {
        drop_sess_key(vs.drop_first(), key)
    } else {
        seq![vs[0]] + drop_sess_key(vs.drop_first(), key)
    }
}

/// The session records left after removing every one that references the
/// given device as either endpoint.
pub open spec fn drop_sess_dev(vs: Seq<SessionV>, id: u128) -> Seq<SessionV>
    decreases vs.len(),
{
    if vs.len() == 0 {
        vs
    } else if vs[0].local_device_id == id || vs[0].remote_device_id == id {
        drop_sess_dev(vs.drop_first(), id)
    } else {
        seq![vs[0]] + drop_sess_dev(vs.drop_first(), id)
    }
}

proof fn lemma_find_dev_push(vs: Seq<DeviceV>, d: DeviceV, x: u128)
    ensures
        find_dev(vs.push(d), x) == (if find_dev(vs, x) is Some {
            find_dev(vs, x)
        } else if d.id == x {
            Some(d)
        } else {
            None::<DeviceV>
        }),
    decreases vs.len(),
{
    if vs.len() == 0 {
        assert(vs.push(d).drop_first() =~= vs);
    } else {
        assert(vs.push(d).drop_first() =~= vs.drop_first().push(d));
        lemma_find_dev_push(vs.drop_first(), d, x);
    }
}

proof fn lemma_find_dev_drop(vs: Seq<DeviceV>, id: u128, x: u128)
    ensures
        x == id ==> find_dev(drop_dev(vs, id), x) is None,
        x != id ==> find_dev(drop_dev(vs, id), x) == find_dev(vs, x),
    decreases vs.len(),
{
    if vs.len() > 0 {
        lemma_find_dev_drop(vs.drop_first(), id, x);
        if vs[0].id != id {
            let t = seq![vs[0]] + drop_dev(vs.drop_first(), id);
            assert(t[0] == vs[0]);
            assert(t.drop_first() =~= drop_dev(vs.drop_first(), id));
        }
    }
}

proof fn lemma_find_dev_exists(vs: Seq<DeviceV>, x: u128)
    ensures
        find_dev(vs, x) is Some <==> exists|j: int| 0 <= j < vs.len() && vs[j].id == x,
    decreases vs.len(),
{
    if vs.len() > 0 {
        lemma_find_dev_exists(vs.drop_first(), x);
        if vs[0].id != x {
            if find_dev(vs.drop_first(), x) is Some {
                let j = choose|j: int|
                    0 <= j < vs.drop_first().len() && vs.drop_first()[j].id == x;
                assert(vs[j + 1].id == x);
            }
            if exists|j: int| 0 <= j < vs.len() && vs[j].id == x {
                let j = choose|j: int| 0 <= j < vs.len() && vs[j].id == x;
                assert(vs.drop_first()[j - 1].id == x);
            }
        }
    }
}

proof fn lemma_find_sess_push(vs: Seq<SessionV>, s: SessionV, k: (u128, u128))
    ensures
        find_sess(vs.push(s), k) == (if find_sess(vs, k) is Some {
            find_sess(vs, k)
        } else if session_key(s) == k {
            Some(s)
        } else {
            None::<SessionV>
        }),
    decreases vs.len(),
{
    if vs.len() == 0 {
        assert(vs.push(s).drop_first() =~= vs);
    } else {
        assert(vs.push(s).drop_first() =~= vs.drop_first().push(s));
        lemma_find_sess_push(vs.drop_first(), s, k);
    }
}

proof fn lemma_find_sess_drop_key(vs: Seq<SessionV>, key: (u128, u128), k: (u128, u128))
    ensures
        k == key ==> find_sess(drop_sess_key(vs, key), k) is None,
        k != key ==> find_sess(drop_sess_key(vs, key), k) == find_sess(vs, k),
    decreases vs.len(),
{
    if vs.len() > 0 {
        lemma_find_sess_drop_key(vs.drop_first(), key, k);
        if session_key(vs[0]) != key {
            let t = seq![vs[0]] + drop_sess_key(vs.drop_first(), key);
            assert(t[0] == vs[0]);
            assert(t.drop_first() =~= drop_sess_key(vs.drop_first(), key));
        }
    }
}

proof fn lemma_find_sess_drop_dev(vs: Seq<SessionV>, id: u128, k: (u128, u128))
    ensures
        k.0 == id || k.1 == id ==> find_sess(drop_sess_dev(vs, id), k) is None,
        k.0 != id && k.1 != id ==> find_sess(drop_sess_dev(vs, id), k) == find_sess(vs, k),
    decreases vs.len(),
{
    if vs.len() > 0 {
        lemma_find_sess_drop_dev(vs.drop_first(), id, k);
        if !(vs[0].local_device_id == id || vs[0].remote_device_id == id) {
            let t = seq![vs[0]] + drop_sess_dev(vs.drop_first(), id);
            assert(t[0] == vs[0]);
            assert(t.drop_first() =~= drop_sess_dev(vs.drop_first(), id));
        }
    }
}

proof fn lemma_find_dev_is_id(vs: Seq<DeviceV>, id: u128)
    ensures
        find_dev(vs, id) matches Some(dv) ==> dv.id == id,
    decreases vs.len(),
{
    if vs.len() > 0 {
        lemma_find_dev_is_id(vs.drop_first(), id);
    }
}

proof fn lemma_find_sess_is_keyed(vs: Seq<SessionV>, k: (u128, u128))
    ensures
        find_sess(vs, k) matches Some(sv) ==> session_key(sv) == k,
    decreases vs.len(),
{
    if vs.len() > 0 {
        lemma_find_sess_is_keyed(vs.drop_first(), k);
    }
}

/// Whether an id already stands in a list of ids.
fn contains_id(v: &Vec<u128>, x: u128) -> (b: bool)
    ensures
        b == v@.contains(x),
{
    let n = v.len();
    let mut i: usize = 0;
    while i < n
        invariant
            0 <= i <= n,
            n == v@.len(),
            forall|j: int| 0 <= j < i ==> v@[j] != x,
        decreases n - i,
    {
        if v[i] == x {
            proof {
                assert(v@[i as int] == x);
            }
            return true;
        }
        i = i + 1;
    }
    proof {
        assert(!v@.contains(x));
    }
    false
}

/// One node's repository of device and session records. Sessions are
/// addressed by the canonical unordered pair of their endpoints, so a pair
/// has exactly one storage slot regardless of which endpoint is local, and
/// saving a session for a pair replaces the pair's previous record.
pub struct MeshStore {
    devices: Vec<Device>,
    sessions: Vec<Session>,
}

impl MeshStore {
    /// The device record stored under the given id.
    pub closed spec fn spec_device(&self, id: u128) -> Option<DeviceV> {
        find_dev(dev_views(self.devices@), id)
    }

    /// The session record stored under the given canonical key.
    pub closed spec fn spec_session_at(&self, key: (u128, u128)) -> Option<SessionV> {
        find_sess(sess_views(self.sessions@), key)
    }

    /// The session record stored for the pair `(a, b)`, in either order.
    pub open spec fn spec_session(&self, a: u128, b: u128) -> Option<SessionV> {
        self.spec_session_at(spec_canonical_pair(a, b))
    }

    /// Lookup is symmetric in the pair: both orderings name the same record.
    pub proof fn lemma_session_symmetric(&self, a: u128, b: u128)
        ensures
            self.spec_session(a, b) == self.spec_session(b, a),
    {
    }

    /// A stored device record carries the id it is stored under.
    pub proof fn lemma_device_id_of(&self, id: u128)
        ensures
            self.spec_device(id) matches Some(dv) ==> dv.id == id,
    {
        lemma_find_dev_is_id(dev_views(self.devices@), id);
    }

    /// A stored session record's endpoint pair is the pair it is stored
    /// under.
    pub proof fn lemma_session_key_of(&self, a: u128, b: u128)
        ensures
            self.spec_session(a, b) matches Some(sv) ==> session_key(sv)
                == spec_canonical_pair(a, b),
    {
        lemma_find_sess_is_keyed(sess_views(self.sessions@), spec_canonical_pair(a, b));
    }

    pub fn new() -> (r: MeshStore)
        ensures
            forall|id: u128| r.spec_device(id) is None,
            forall|k: (u128, u128)| r.spec_session_at(k) is None,
    {
        let r = MeshStore { devices: Vec::new(), sessions: Vec::new() };
        proof {
            assert(dev_views(r.devices@) =~= Seq::<DeviceV>::empty());
            assert(sess_views(r.sessions@) =~= Seq::<SessionV>::empty());
        }
        r
    }

    /// Stores a device record, replacing any record with the same id and
    /// touching nothing else.
    pub fn save_device(&mut self, d: Device)
        ensures
            final(self).spec_device(d@.id) == Some(d@),
            forall|x: u128| x != d@.id ==> final(self).spec_device(x) == old(self).spec_device(x),
            forall|k: (u128, u128)| final(self).spec_session_at(k) == old(self).spec_session_at(k),
    {
        let ghost vs0 = dev_views(self.devices@);
        let id = d.id;
        let n = self.devices.len();
        let mut kept: Vec<Device> = Vec::new();
        let mut i: usize = 0;
        proof {
            assert(vs0.skip(0) =~= vs0);
            assert(dev_views(kept@) + drop_dev(vs0.skip(0), id) =~= drop_dev(vs0, id));
        }
        while i < n
            invariant
                0 <= i <= n,
                n == self.devices.len(),
                vs0 == dev_views(self.devices@),
                self.sessions@ == old(self).sessions@,
                id == d.id,
                dev_views(kept@) + drop_dev(vs0.skip(i as int), id) == drop_dev(vs0, id),
            decreases n - i,
        {
            proof {
                assert(vs0.skip(i as int)[0] == vs0[i as int]);
                assert(vs0.skip(i as int).drop_first() =~= vs0.skip(i + 1));
            }
            let dev = &self.devices[i];
            if dev.id != id {
                let ghost kept_pre = dev_views(kept@);
                kept.push(dev.clone());
                proof {
                    assert(dev_views(kept@) =~= kept_pre.push(vs0[i as int]));
                    assert(kept_pre.push(vs0[i as int]) + drop_dev(vs0.skip(i + 1), id) =~= kept_pre
                        + (seq![vs0[i as int]] + drop_dev(vs0.skip(i + 1), id)));
                }
            }
            i = i + 1;
        }
        proof {
            assert(vs0.skip(n as int) =~= Seq::<DeviceV>::empty());
            assert(dev_views(kept@) + drop_dev(vs0.skip(n as int), id) =~= dev_views(kept@));
        }
        let ghost kept_pre = dev_views(kept@);
        let ghost dv = d@;
        kept.push(d);
        self.devices = kept;
        proof {
            assert(dev_views(self.devices@) =~= drop_dev(vs0, id).push(dv));
            assert forall|x: u128| true implies #[trigger] self.spec_device(x) == (if x == dv.id {
                Some(dv)
            } else {
                find_dev(vs0, x)
            }) by {
                lemma_find_dev_push(drop_dev(vs0, id), dv, x);
                lemma_find_dev_drop(vs0, id, x);
            }
        }
    }

    /// Loads the device stored under `id`, and names the missing id when
    /// there is none.
    pub fn load_device(&self, id: u128) -> (r: Result<Device, MeshError>)
        ensures
            self.spec_device(id) matches Some(dv) ==> (r matches Ok(d) && d@ == dv),
            self.spec_device(id) is None ==> (r matches Err(e) && e matches
                MeshError::DeviceNotFound(x) && x == id),
    {
        let ghost vs = dev_views(self.devices@);
        let n = self.devices.len();
        let mut i: usize = 0;
        proof {
            assert(vs.skip(0) =~= vs);
        }
        while i < n
            invariant
                0 <= i <= n,
                n == self.devices.len(),
                vs == dev_views(self.devices@),
                find_dev(vs, id) == find_dev(vs.skip(i as int), id),
            decreases n - i,
        {
            proof {
                assert(vs.skip(i as int)[0] == vs[i as int]);
                assert(vs.skip(i as int).drop_first() =~= vs.skip(i + 1));
            }
            let dev = &self.devices[i];
            if dev.id == id {
                return Ok(dev.clone());
            }
            i = i + 1;
        }
        proof {
            assert(vs.skip(n as int) =~= Seq::<DeviceV>::empty());
        }
        Err(MeshError::DeviceNotFound(id))
    }

    /// The ids of all stored devices, each listed exactly once.
    pub fn get_all_device_ids(&self) -> (r: Vec<u128>)
        ensures
            forall|x: u128| r@.contains(x) <==> self.spec_device(x) is Some,
            forall|a: int, b: int| 0 <= a < b < r@.len() ==> r@[a] != r@[b],
    {
        let ghost vs = dev_views(self.devices@);
        let n = self.devices.len();
        let mut r: Vec<u128> = Vec::new();
        let mut i: usize = 0;
        while i < n
            invariant
                0 <= i <= n,
                n == self.devices.len(),
                vs == dev_views(self.devices@),
                forall|x: u128|
                    r@.contains(x) <==> exists|j: int| 0 <= j < i && vs[j].id == x,
                forall|a: int, b: int| 0 <= a < b < r@.len() ==> r@[a] != r@[b],
            decreases n - i,
        {
            let id = self.devices[i].id;
            let ghost r_pre = r@;
            if !contains_id(&r, id) {
                r.push(id);
                proof {
                    assert forall|a: int, b: int| 0 <= a < b < r@.len() implies r@[a]
                        != r@[b] by {
                        if b == r@.len() - 1 {
                            assert(r_pre.contains(r_pre[a]));
                        }
                    }
                }
            }
            proof {
                assert forall|x: u128|
                    r@.contains(x) <==> exists|j: int| 0 <= j < i + 1 && vs[j].id == x by {
                    if r@.contains(x) {
                        let k = choose|k: int| 0 <= k < r@.len() && r@[k] == x;
                        if k < r_pre.len() {
                            assert(r_pre.contains(x));
                        } else {
                            assert(vs[i as int].id == x);
                        }
                    }
                    if exists|j: int| 0 <= j < i + 1 && vs[j].id == x {
                        let j = choose|j: int| 0 <= j < i + 1 && vs[j].id == x;
                        if j < i {
                            assert(r_pre.contains(x));
                            let k = choose|k: int| 0 <= k < r_pre.len() && r_pre[k] == x;
                            assert(r@[k] == x);
                        } else {
                            if r_pre.contains(x) {
                                let k = choose|k: int| 0 <= k < r_pre.len() && r_pre[k] == x;
                                assert(r@[k] == x);
                            } else {
                                assert(r@[r@.len() - 1] == x);
                            }
                        }
                    }
                }
            }
            i = i + 1;
        }
        proof {
            assert forall|x: u128| r@.contains(x) <==> self.spec_device(x) is Some by {
                lemma_find_dev_exists(vs, x);
            }
        }
        r
    }

    /// Stores a session record under the canonical key of its pair,
    /// replacing any record of the same pair and touching nothing else.
    pub fn save_session(&mut self, s: Session)
        ensures
            final(self).spec_session_at(session_key(s@)) == Some(s@),
            forall|k: (u128, u128)|
                k != session_key(s@) ==> final(self).spec_session_at(k) == old(
                    self,
                ).spec_session_at(k),
            forall|x: u128| final(self).spec_device(x) == old(self).spec_device(x),
    {
        let ghost vs0 = sess_views(self.sessions@);
        let key = crate::canonical_pair(s.local_device_id, s.remote_device_id);
        let n = self.sessions.len();
        let mut kept: Vec<Session> = Vec::new();
        let mut i: usize = 0;
        proof {
            assert(vs0.skip(0) =~= vs0);
            assert(sess_views(kept@) + drop_sess_key(vs0.skip(0), key) =~= drop_sess_key(
                vs0,
                key,
            ));
        }
        while i < n
            invariant
                0 <= i <= n,
                n == self.sessions.len(),
                vs0 == sess_views(self.sessions@),
                self.devices@ == old(self).devices@,
                key == session_key(s@),
                sess_views(kept@) + drop_sess_key(vs0.skip(i as int), key) == drop_sess_key(
                    vs0,
                    key,
                ),
            decreases n - i,
        {
            proof {
                assert(vs0.skip(i as int)[0] == vs0[i as int]);
                assert(vs0.skip(i as int).drop_first() =~= vs0.skip(i + 1));
            }
            let sess = &self.sessions[i];
            let k_i = crate::canonical_pair(sess.local_device_id, sess.remote_device_id);
            if !(k_i.0 == key.0 && k_i.1 == key.1) {
                let ghost kept_pre = sess_views(kept@);
                kept.push(sess.clone());
                proof {
                    assert(sess_views(kept@) =~= kept_pre.push(vs0[i as int]));
                    assert(kept_pre.push(vs0[i as int]) + drop_sess_key(vs0.skip(i + 1), key)
                        =~= kept_pre + (seq![vs0[i as int]] + drop_sess_key(
                        vs0.skip(i + 1),
                        key,
                    )));
                }
            }
            i = i + 1;
        }
        proof {
            assert(vs0.skip(n as int) =~= Seq::<SessionV>::empty());
            assert(sess_views(kept@) + drop_sess_key(vs0.skip(n as int), key) =~= sess_views(
                kept@,
            ));
        }
        let ghost kept_pre = sess_views(kept@);
        let ghost sv = s@;
        kept.push(s);
        self.sessions = kept;
        proof {
            assert(sess_views(self.sessions@) =~= drop_sess_key(vs0, key).push(sv));
            assert forall|k: (u128, u128)| true implies #[trigger] self.spec_session_at(k) == (
            if k == session_key(sv) {
                Some(sv)
            } else {
                find_sess(vs0, k)
            }) by {
                lemma_find_sess_push(drop_sess_key(vs0, key), sv, k);
                lemma_find_sess_drop_key(vs0, key, k);
            }
        }
    }

    /// Loads the session stored for the pair `(local, remote)`, in either
    /// order, and names the missing pair when there is none.
    pub fn load_session(&self, local_device_id: u128, remote_device_id: u128) -> (r: Result<
        Session,
        MeshError,
    >)
        ensures
            self.spec_session(local_device_id, remote_device_id) matches Some(sv) ==> (r matches
                Ok(s) && s@ == sv),
            self.spec_session(local_device_id, remote_device_id) is None ==> (r matches Err(e)
                && e matches MeshError::SessionNotFound(a, b) && a == local_device_id && b
                == remote_device_id),
    {
        let ghost vs = sess_views(self.sessions@);
        let key = crate::canonical_pair(local_device_id, remote_device_id);
        let n = self.sessions.len();
        let mut i: usize = 0;
        proof {
            assert(vs.skip(0) =~= vs);
        }
        while i < n
            invariant
                0 <= i <= n,
                n == self.sessions.len(),
                vs == sess_views(self.sessions@),
                key == spec_canonical_pair(local_device_id, remote_device_id),
                find_sess(vs, key) == find_sess(vs.skip(i as int), key),
            decreases n - i,
        {
            proof {
                assert(vs.skip(i as int)[0] == vs[i as int]);
                assert(vs.skip(i as int).drop_first() =~= vs.skip(i + 1));
            }
            let sess = &self.sessions[i];
            let k_i = crate::canonical_pair(sess.local_device_id, sess.remote_device_id);
            if k_i.0 == key.0 && k_i.1 == key.1 {
                return Ok(sess.clone());
            }
            i = i + 1;
        }
        proof {
            assert(vs.skip(n as int) =~= Seq::<SessionV>::empty());
        }
        Err(MeshError::SessionNotFound(local_device_id, remote_device_id))
    }

    /// Deletes the device stored under `id` together with every session that
    /// references it as either endpoint, and touches nothing else.
    pub fn delete_device(&mut self, id: u128)
        ensures
            final(self).spec_device(id) is None,
            forall|x: u128| x != id ==> final(self).spec_device(x) == old(self).spec_device(x),
            forall|k: (u128, u128)|
                k.0 == id || k.1 == id ==> final(self).spec_session_at(k) is None,
            forall|k: (u128, u128)|
                k.0 != id && k.1 != id ==> final(self).spec_session_at(k) == old(
                    self,
                ).spec_session_at(k),
    {
        let ghost vs0 = dev_views(self.devices@);
        let ghost ss0 = sess_views(self.sessions@);
        let n = self.devices.len();
        let mut kept: Vec<Device> = Vec::new();
        let mut i: usize = 0;
        proof {
            assert(vs0.skip(0) =~= vs0);
            assert(dev_views(kept@) + drop_dev(vs0.skip(0), id) =~= drop_dev(vs0, id));
        }
        while i < n
            invariant
                0 <= i <= n,
                n == self.devices.len(),
                vs0 == dev_views(self.devices@),
                ss0 == sess_views(self.sessions@),
                dev_views(kept@) + drop_dev(vs0.skip(i as int), id) == drop_dev(vs0, id),
            decreases n - i,
        {
            proof {
                assert(vs0.skip(i as int)[0] == vs0[i as int]);
                assert(vs0.skip(i as int).drop_first() =~= vs0.skip(i + 1));
            }
            let dev = &self.devices[i];
            if dev.id != id {
                let ghost kept_pre = dev_views(kept@);
                kept.push(dev.clone());
                proof {
                    assert(dev_views(kept@) =~= kept_pre.push(vs0[i as int]));
                    assert(kept_pre.push(vs0[i as int]) + drop_dev(vs0.skip(i + 1), id) =~= kept_pre
                        + (seq![vs0[i as int]] + drop_dev(vs0.skip(i + 1), id)));
                }
            }
            i = i + 1;
        }
        proof {
            assert(vs0.skip(n as int) =~= Seq::<DeviceV>::empty());
            assert(dev_views(kept@) + drop_dev(vs0.skip(n as int), id) =~= dev_views(kept@));
        }
        self.devices = kept;
        let m = self.sessions.len();
        let mut kept_s: Vec<Session> = Vec::new();
        let mut j: usize = 0;
        proof {
            assert(ss0.skip(0) =~= ss0);
            assert(sess_views(kept_s@) + drop_sess_dev(ss0.skip(0), id) =~= drop_sess_dev(
                ss0,
                id,
            ));
        }
        while j < m
            invariant
                0 <= j <= m,
                m == self.sessions.len(),
                ss0 == sess_views(self.sessions@),
                dev_views(self.devices@) == drop_dev(vs0, id),
                sess_views(kept_s@) + drop_sess_dev(ss0.skip(j as int), id) == drop_sess_dev(
                    ss0,
                    id,
                ),
            decreases m - j,
        {
            proof {
                assert(ss0.skip(j as int)[0] == ss0[j as int]);
                assert(ss0.skip(j as int).drop_first() =~= ss0.skip(j + 1));
            }
            let sess = &self.sessions[j];
            if !(sess.local_device_id == id || sess.remote_device_id == id) {
                let ghost kept_pre = sess_views(kept_s@);
                kept_s.push(sess.clone());
                proof {
                    assert(sess_views(kept_s@) =~= kept_pre.push(ss0[j as int]));
                    assert(kept_pre.push(ss0[j as int]) + drop_sess_dev(ss0.skip(j + 1), id)
                        =~= kept_pre + (seq![ss0[j as int]] + drop_sess_dev(
                        ss0.skip(j + 1),
                        id,
                    )));
                }
            }
            j = j + 1;
        }
        proof {
            assert(ss0.skip(m as int) =~= Seq::<SessionV>::empty());
            assert(sess_views(kept_s@) + drop_sess_dev(ss0.skip(m as int), id) =~= sess_views(
                kept_s@,
            ));
        }
        self.sessions = kept_s;
        proof {
            assert(dev_views(self.devices@) == drop_dev(vs0, id));
            assert(sess_views(self.sessions@) == drop_sess_dev(ss0, id));
            assert forall|x: u128| true implies #[trigger] self.spec_device(x) == (if x == id {
                None::<DeviceV>
            } else {
                find_dev(vs0, x)
            }) by {
                lemma_find_dev_drop(vs0, id, x);
            }
            assert forall|k: (u128, u128)| true implies #[trigger] self.spec_session_at(k) == (
            if k.0 == id || k.1 == id {
                None::<SessionV>
            } else {
                find_sess(ss0, k)
            }) by {
                lemma_find_sess_drop_dev(ss0, id, k);
            }
        }
    }
}

} // verus!
