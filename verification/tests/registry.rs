use fusebridge::mountinfo::{parse, MountEntry};
use fusebridge::registry::{
    is_same_mount, Identity, MountRecord, Registry, DEFAULT_MAX_MOUNTS, MAX_MOUNTS_PER_APP,
};

fn identity(unique: Option<u64>, id: &str) -> Identity {
    Identity { unique, id: id.into() }
}

fn record(path: &str, app_id: &str) -> MountRecord {
    MountRecord {
        path: path.into(),
        app_id: app_id.into(),
        fstype: "fuse".into(),
        source: "fs".into(),
        identity: identity(None, "41"),
    }
}

fn row(path: &str, app_id: &str) -> (String, String, String, String) {
    (path.into(), app_id.into(), "fuse".into(), "fs".into())
}

fn table(places: &[&str]) -> Result<Vec<MountEntry>, String> {
    let mut text = String::new();
    for place in places {
        text.push_str(&format!("41 30 0:70 / {place} rw - fuse fs rw\n"));
    }
    Ok(parse(&text))
}

#[test]
fn a_place_is_claimed_once() {
    let mut registry = Registry::new();
    assert_eq!(registry.reserve("/r/d", "a", 64), Ok(()));
    assert_eq!(
        registry.reserve("/r/d/", "b", 64),
        Err("'/r/d/' is already being mounted".into())
    );
    registry.release("/r/d");
    assert_eq!(registry.reserve("/r/d", "b", 64), Ok(()));
    registry.record(record("/r/d", "b"));
    assert_eq!(
        registry.reserve("/r/d", "a", 64),
        Err("'/r/d' is already mounted via this daemon".into())
    );
}

#[test]
fn the_ceiling_counts_what_is_in_flight() {
    let mut registry = Registry::new();
    assert_eq!(registry.reserve("/r/a", "a", 2), Ok(()));
    assert_eq!(registry.reserve("/r/b", "b", 2), Ok(()));
    let full = Err("the limit of 2 live mounts is reached".to_string());
    assert_eq!(registry.reserve("/r/c", "c", 2), full);
    registry.record(record("/r/a", "a"));
    assert_eq!(registry.reserve("/r/c", "c", 2), full);
    registry.release("/r/b");
    assert_eq!(registry.reserve("/r/c", "c", 2), Ok(()));
}

#[test]
fn enforces_the_mount_limit() {
    let mut registry = Registry::new();
    for place in ["/r/a", "/r/b"] {
        registry.reserve(place, "app", 2).unwrap();
        registry.record(record(place, "app"));
    }
    let err = registry.reserve("/r/c", "app", 2).unwrap_err();
    assert!(err.contains("limit of 2 live mounts"), "{err}");
    assert!(registry.remove("/r/a").is_some());
    assert_eq!(registry.reserve("/r/c", "app", 2), Ok(()));
}

#[test]
fn one_application_cannot_use_up_the_session() {
    let mut registry = Registry::new();
    for i in 0..MAX_MOUNTS_PER_APP {
        registry.reserve(&format!("/r/{i}"), "greedy", DEFAULT_MAX_MOUNTS).unwrap();
        if i % 2 == 0 {
            registry.record(record(&format!("/r/{i}"), "greedy"));
        }
    }
    assert_eq!(
        registry.reserve("/r/more", "greedy", DEFAULT_MAX_MOUNTS),
        Err("the limit of 16 live mounts for one application is reached".into())
    );
    assert_eq!(registry.reserve("/r/more", "modest", DEFAULT_MAX_MOUNTS), Ok(()));
}

#[test]
fn a_record_is_found_and_forgotten() {
    let mut registry = Registry::new();
    assert!(registry.find("/r/d").is_none());
    registry.record(record("/r/d", "a"));
    registry.record(record("/r/e", "a"));
    registry.record(record("/r/d", "b"));
    assert_eq!(registry.find("/r/d").unwrap().app_id, "b");
    assert_eq!(registry.list_mounts(), vec![row("/r/e", "a"), row("/r/d", "b")]);
    assert_eq!(registry.remove("/r/d").unwrap().app_id, "b");
    assert!(registry.remove("/r/d").is_none());
    assert_eq!(registry.list_mounts(), vec![row("/r/e", "a")]);
}

#[test]
fn a_record_goes_only_when_two_readings_agree() {
    let mut registry = Registry::new();
    registry.record(record("/r/a", "a"));
    registry.record(record("/r/b", "b"));
    let unreadable: Result<Vec<MountEntry>, String> = Err("busy".into());
    registry.sweep_stale(&unreadable, &table(&[]));
    registry.sweep_stale(&table(&[]), &unreadable);
    registry.sweep_stale(&table(&["/r/a"]), &table(&["/r/b"]));
    assert_eq!(registry.list_mounts().len(), 2);
    registry.sweep_stale(&table(&["/r/b"]), &table(&["/r/b"]));
    assert_eq!(registry.list_mounts(), vec![row("/r/b", "b")]);
}

#[test]
fn numbers_that_never_come_back_decide() {
    assert!(is_same_mount(&identity(Some(7), "41"), &identity(Some(7), "42")));
    assert!(!is_same_mount(&identity(Some(7), "41"), &identity(Some(8), "41")));
    assert!(is_same_mount(&identity(None, "41"), &identity(Some(8), "41")));
    assert!(!is_same_mount(&identity(Some(7), "41"), &identity(None, "42")));
}

#[test]
fn no_place_occurs_twice_whatever_is_done() {
    let mut registry = Registry::new();
    // Recorded without a claim, recorded again under another spelling.
    registry.record(record("/r/d", "a"));
    registry.record(record("/r//d/", "b"));
    assert_eq!(registry.list_mounts(), vec![row("/r//d/", "b")]);
    // Recorded over somebody's claim: the claim is gone.
    registry.reserve("/r/e", "a", 3).unwrap();
    registry.record(record("/r/e", "b"));
    registry.remove("/r/e");
    assert_eq!(registry.reserve("/r/e", "c", 2), Ok(()));
}
