use airic_mesh::canonical_pair;
use airic_mesh::device::Device;
use airic_mesh::errors::MeshError;
use airic_mesh::keystore::FileKeystore;
use airic_mesh::session::Session;
use airic_mesh::store::MeshStore;

fn sample_device(name: &str) -> Device {
    Device::new(name.to_string()).expect("device creation")
}

fn sample_session(local: u128, remote: u128) -> Session {
    Session {
        id: 1,
        local_device_id: local,
        remote_device_id: remote,
        pickled_session: "state".to_string(),
        created_at: 7,
    }
}

#[test]
fn canonical_pair_is_symmetric() {
    assert_eq!(canonical_pair(3, 9), canonical_pair(9, 3));
    assert_eq!(canonical_pair(3, 9), (3, 9));
    assert_eq!(canonical_pair(9, 3), (3, 9));
    assert_eq!(canonical_pair(4, 4), (4, 4));
}

#[test]
fn session_path_is_symmetric() {
    let ks = FileKeystore::new("/tmp/mesh".to_string());
    let p1 = ks.session_path(3, 9);
    let p2 = ks.session_path(9, 3);
    assert_eq!(p1, p2);
    assert_eq!(
        p1,
        "/tmp/mesh/sessions/00000000000000000000000000000003_00000000000000000000000000000009.json"
    );
    assert_eq!(
        ks.device_path(3),
        "/tmp/mesh/devices/00000000000000000000000000000003.json"
    );
}

#[test]
fn device_save_load_and_delete() {
    let mut store = MeshStore::new();
    let d = sample_device("first");
    let id = d.id;
    assert!(matches!(store.load_device(id), Err(MeshError::DeviceNotFound(x)) if x == id));
    store.save_device(d);
    let loaded = store.load_device(id).expect("saved device loads");
    assert_eq!(loaded.id, id);
    assert_eq!(loaded.name, "first");
    let ids = store.get_all_device_ids();
    assert!(ids.contains(&id));
    store.delete_device(id);
    assert!(matches!(store.load_device(id), Err(MeshError::DeviceNotFound(_))));
}

#[test]
fn session_lookup_is_symmetric_and_replacing() {
    let mut store = MeshStore::new();
    assert!(matches!(
        store.load_session(3, 9),
        Err(MeshError::SessionNotFound(3, 9))
    ));
    store.save_session(sample_session(3, 9));
    // both orderings reach the one slot of the pair
    let s1 = store.load_session(3, 9).expect("stored session loads");
    let s2 = store.load_session(9, 3).expect("stored session loads both ways");
    assert_eq!(s1.id, s2.id);
    // a newer session of the same pair replaces the older one
    let mut newer = sample_session(3, 9);
    newer.id = 2;
    newer.pickled_session = "advanced".to_string();
    store.save_session(newer);
    let s3 = store.load_session(3, 9).expect("replacement loads");
    assert_eq!(s3.id, 2);
    assert_eq!(s3.pickled_session, "advanced");
}

#[test]
fn delete_device_cascades_to_sessions() {
    let mut store = MeshStore::new();
    store.save_session(sample_session(1, 2));
    store.save_session(sample_session(2, 3));
    store.save_session(sample_session(4, 5));
    store.delete_device(2);
    assert!(matches!(store.load_session(1, 2), Err(MeshError::SessionNotFound(_, _))));
    assert!(matches!(store.load_session(2, 3), Err(MeshError::SessionNotFound(_, _))));
    assert!(matches!(store.load_session(3, 2), Err(MeshError::SessionNotFound(_, _))));
    assert!(store.load_session(4, 5).is_ok());
}
