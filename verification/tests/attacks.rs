//! Requests as a hostile application would make them, driven through the
//! stages with the events that the rest of the system would bring.
use fusebridge::caller::{identify_caller, Caller, Pinned};
use fusebridge::error::BridgeError;
use fusebridge::flatpak::InfoReading;
use fusebridge::mountinfo::{parse, MountEntry};
use fusebridge::policy::{Listing, Liveness, Probe};
use fusebridge::registry::{Identity, MountRecord, Registry};
use fusebridge::removal::{begin_unmount, continue_unmount, finish_unmount, sight, UnmountStage};
use fusebridge::removal::{HelperOutcome, Sighting};
use fusebridge::request::{conclude, is_verified, Event, LaunchFault, MountRequest, Stage};

type Table = Result<Vec<MountEntry>, String>;

fn strings(v: &[&str]) -> Vec<String> {
    v.iter().map(|s| s.to_string()).collect()
}

fn roots() -> Vec<String> {
    strings(&["/home/u/root"])
}

fn request(options: &[&str], mountpoint: &str) -> Result<MountRequest, BridgeError> {
    let caller = Caller { pid: 7, app_id: "org.example.App".into() };
    MountRequest::new(caller, strings(options), mountpoint.into(), &roots(), 1000)
}

fn found(path: &str) -> Event {
    Event::Probed(Probe::Found {
        path: path.into(),
        is_dir: true,
        uid: 1000,
        listing: Listing::Empty,
    })
}

/// A table with FUSE mounts of these numbers at these places.
fn table(mounts: &[(&str, &str)]) -> Table {
    let mut text = String::from("20 1 8:1 / / rw - ext4 /dev/sda1 rw\n");
    for (id, place) in mounts {
        text.push_str(&format!("{id} 20 0:{id} / {place} rw - fuse.app src rw\n"));
    }
    Ok(parse(&text))
}

fn reason(stage: &Stage) -> String {
    match stage {
        Stage::Refused { answer: BridgeError::AccessDenied(why), .. } => format!("denied: {why}"),
        Stage::Refused { answer: BridgeError::Failed(why), .. } => format!("failed: {why}"),
        other => panic!("not refused: {other:?}"),
    }
}

/// Takes a request for the drive up to the wait for its mount.
fn waiting(request: &MountRequest, before: &[(&str, &str)]) -> Stage {
    let mut stage = Stage::Resolve;
    for event in [
        found("/home/u/root/drive"),
        Event::Claimed(Ok(())),
        Event::TableRead(table(before)),
        Event::Surveyed { connections: None, table: table(before) },
        Event::Launched(Ok(())),
    ] {
        stage = request.advance(stage, event);
    }
    assert!(matches!(stage, Stage::Wait { .. }), "{stage:?}");
    stage
}

fn collected(held: bool, landed: &str) -> Event {
    Event::Collected { held, connections: None, landed: Some(landed.into()), unique: Some(9) }
}

#[test]
fn refuses_a_mountpoint_outside_the_allowed_root() {
    let r = request(&[], "/home/u/elsewhere").unwrap();
    let err = reason(&r.advance(Stage::Resolve, found("/home/u/elsewhere")));
    assert!(err.contains("outside the allowed mount roots"), "{err}");
}

#[test]
fn refuses_the_allowed_root_itself() {
    let r = request(&[], "/home/u/root").unwrap();
    let err = reason(&r.advance(Stage::Resolve, found("/home/u/root")));
    assert!(err.contains("outside the allowed mount roots"), "{err}");
}

#[test]
fn refuses_a_non_empty_mountpoint() {
    let r = request(&[], "/home/u/root/drive").unwrap();
    let err = reason(&r.advance(
        Stage::Resolve,
        Event::Probed(Probe::Found {
            path: "/home/u/root/drive".into(),
            is_dir: true,
            uid: 1000,
            listing: Listing::Occupied,
        }),
    ));
    assert!(err.contains("is not empty"), "{err}");
}

#[test]
fn refuses_a_symlink_that_leaves_the_root() {
    let r = request(&[], "/home/u/root/drive").unwrap();
    let err = reason(&r.advance(Stage::Resolve, found("/home/u/victim")));
    assert!(err.contains("outside the allowed mount roots"), "{err}");
}

#[test]
fn refuses_a_parent_symlink_that_leaves_the_root() {
    let r = request(&[], "/home/u/root/a/.ssh").unwrap();
    let err = reason(&r.advance(Stage::Resolve, found("/home/u/victim/.ssh")));
    assert!(err.contains("outside the allowed mount roots"), "{err}");
}

#[test]
fn refuses_allow_other() {
    match request(&["rw", "allow_other"], "/home/u/root/drive") {
        Err(BridgeError::AccessDenied(err)) => assert!(err.contains("allow_other"), "{err}"),
        _ => panic!("allow_other must be refused"),
    }
}

#[test]
fn refuses_a_caller_that_is_not_a_flatpak_app() {
    let pinned = Pinned { pid: 7, uid: Ok(1000), info: InfoReading::Missing };
    assert_eq!(
        identify_caller(Ok(pinned), 1000, false),
        Err(BridgeError::AccessDenied("caller is not a Flatpak application".into()))
    );
}

#[test]
fn mounts_and_unmounts_a_clean_mountpoint() {
    let place = "/home/u/root/drive";
    let r = request(&[], place).unwrap();
    let mut registry = Registry::new();

    let mut stage = r.advance(Stage::Resolve, found(place));
    let claimed = r.claim(&mut registry, place, &table(&[]), &table(&[]), 64);
    stage = r.advance(stage, claimed);
    for event in [
        Event::TableRead(table(&[])),
        Event::Surveyed { connections: None, table: table(&[]) },
        Event::Launched(Ok(())),
        Event::Waited { exit: None, elapsed: 50, table: table(&[]) },
        Event::Waited { exit: Some(true), elapsed: 100, table: table(&[("41", place)]) },
        collected(true, place),
        Event::Sent(Ok(())),
    ] {
        stage = r.advance(stage, event);
    }
    assert!(matches!(stage, Stage::Mounted { watch: false, .. }), "{stage:?}");
    assert_eq!(conclude(stage, &Some(place.into()), &mut registry), Ok(()));

    let listed = registry.list_mounts();
    assert_eq!(listed.len(), 1);
    assert_eq!(listed[0].0, place);
    assert_eq!(listed[0].1, "org.example.App");
    assert_eq!(listed[0].2, "fuse.app");
    assert_eq!(listed[0].3, "src");
    // The claim is gone with the request.
    assert!(registry.remove(place).is_some());
    assert_eq!(registry.reserve(place, "other", 1), Ok(()));
    registry.release(place);

    let identity = Identity { unique: Some(9), id: "41".into() };
    registry.record(MountRecord {
        path: place.into(),
        app_id: "org.example.App".into(),
        fstype: "fuse.app".into(),
        source: "src".into(),
        identity,
    });
    let stage = begin_unmount(&registry, place, "org.example.App", &roots());
    assert!(matches!(stage, UnmountStage::Look));
    let sighting = sight(table(&[("41", place)]), place, Some(9));
    match continue_unmount(&mut registry, place, &sighting, true) {
        UnmountStage::Run(arguments) => {
            assert_eq!(arguments, strings(&["-u", "-z", "--", place]))
        }
        other => panic!("not run: {other:?}"),
    }
    assert_eq!(finish_unmount(&mut registry, place, &HelperOutcome::Succeeded), Ok(()));
    assert!(registry.list_mounts().is_empty());
}

#[test]
fn refuses_to_unmount_a_mount_it_did_not_create() {
    let registry = Registry::new();
    match begin_unmount(&registry, "/home/u/root/foreign", "org.example.App", &roots()) {
        UnmountStage::Answer(Err(BridgeError::AccessDenied(err))) => {
            assert!(err.contains("was not mounted through this daemon"), "{err}")
        }
        other => panic!("not refused: {other:?}"),
    }
}

#[test]
fn a_component_swap_cannot_redirect_the_mount() {
    let r = request(&[], "/home/u/root/drive").unwrap();
    let stranger = ("40", "/home/u/portal");
    let astray = ("41", "/home/u/.ssh");

    // The helper says it succeeded, but nothing is on the approved directory.
    let mut stage = waiting(&r, &[stranger]);
    stage = r.advance(
        stage,
        Event::Waited { exit: Some(true), elapsed: 50, table: table(&[stranger]) },
    );
    assert!(matches!(stage, Stage::Wait { .. }));
    stage = r.advance(
        stage,
        Event::Waited { exit: None, elapsed: 1051, table: table(&[stranger]) },
    );
    assert!(matches!(stage, Stage::Collect { found: None, timed_out: false, .. }));
    stage = r.advance(stage, collected(true, "/home/u/root/drive"));
    // One early reading shows nothing, and decides nothing.
    stage = r.advance(stage, Event::Watched { elapsed: 0, table: table(&[stranger]) });
    assert!(matches!(stage, Stage::Watch { .. }));
    let newcomer = ("42", "/home/u/archive");
    stage = r.advance(
        stage,
        Event::Watched { elapsed: 25, table: table(&[stranger, astray, newcomer]) },
    );
    match &stage {
        Stage::AskHeld { candidates, .. } => {
            assert_eq!(*candidates, strings(&["/home/u/.ssh", "/home/u/archive"]))
        }
        other => panic!("not asking: {other:?}"),
    }
    stage = r.advance(stage, Event::Answered(vec![Liveness::Silent, Liveness::Answering]));
    assert!(matches!(stage, Stage::LetGo { .. }));
    stage = r.advance(stage, Event::Answered(vec![Liveness::Disconnected, Liveness::Answering]));
    match &stage {
        Stage::Remove { places, .. } => assert_eq!(*places, strings(&["/home/u/.ssh"])),
        other => panic!("not removing: {other:?}"),
    }
    stage = r.advance(stage, Event::Removed(vec![]));
    stage = r.advance(stage, Event::Complained("  no luck\n".into()));
    assert_eq!(reason(&stage), "failed: fusermount3 did not mount: no luck");
}

#[test]
fn a_stranger_s_filesystem_is_never_unmounted() {
    let r = request(&[], "/home/u/root/drive").unwrap();
    let dead = ("40", "/home/u/dead");
    let mut stage = waiting(&r, &[dead]);
    for event in [
        Event::Waited { exit: Some(false), elapsed: 50, table: table(&[dead]) },
        collected(false, "/home/u/root/drive"),
        Event::Watched { elapsed: 2000, table: table(&[dead]) },
    ] {
        stage = r.advance(stage, event);
    }
    match &stage {
        Stage::AskHeld { candidates, .. } => assert!(candidates.is_empty()),
        other => panic!("not asking: {other:?}"),
    }
    stage = r.advance(stage, Event::Answered(vec![]));
    stage = r.advance(stage, Event::Answered(vec![Liveness::Disconnected]));
    match &stage {
        Stage::Remove { places, .. } => assert!(places.is_empty()),
        other => panic!("not removing: {other:?}"),
    }
}

#[test]
fn a_mount_that_was_not_asked_is_left_alone() {
    let r = request(&[], "/home/u/root/drive").unwrap();
    let mut stage = waiting(&r, &[]);
    for event in [
        Event::Waited { exit: Some(false), elapsed: 50, table: table(&[]) },
        collected(true, "/home/u/root/drive"),
        Event::Watched {
            elapsed: 25,
            table: table(&[("41", "/home/u/.ssh"), ("42", "/home/u/archive")]),
        },
        // Only the first of the two candidates was asked.
        Event::Answered(vec![Liveness::Silent]),
    ] {
        stage = r.advance(stage, event);
    }
    match &stage {
        Stage::LetGo { candidates, .. } => assert_eq!(*candidates, strings(&["/home/u/.ssh"])),
        other => panic!("not letting go: {other:?}"),
    }
    stage = r.advance(
        stage,
        Event::Answered(vec![Liveness::Disconnected, Liveness::Disconnected]),
    );
    match &stage {
        Stage::Remove { places, .. } => assert_eq!(*places, strings(&["/home/u/.ssh"])),
        other => panic!("not removing: {other:?}"),
    }
}

#[test]
fn without_auto_unmount_a_closed_socket_leaves_the_mount_alone() {
    let r = request(&["rw"], "/home/u/root/drive").unwrap();
    let mut stage = waiting(&r, &[]);
    for event in [
        Event::Waited { exit: None, elapsed: 50, table: table(&[("41", "/home/u/root/drive")]) },
        collected(true, "/home/u/root/drive"),
        Event::Sent(Ok(())),
    ] {
        stage = r.advance(stage, event);
    }
    // Nothing watches over the application, so nothing follows its end.
    assert!(matches!(stage, Stage::Mounted { watch: false, .. }), "{stage:?}");
}

#[test]
fn a_moved_directory_is_not_handed_over() {
    let r = request(&[], "/home/u/root/drive").unwrap();
    let mut stage = waiting(&r, &[]);
    for event in [
        Event::Waited { exit: None, elapsed: 50, table: table(&[("41", "/home/u/root/drive")]) },
        collected(true, "/home/u/root/moved"),
    ] {
        stage = r.advance(stage, event);
    }
    assert!(matches!(stage, Stage::Revert { .. }), "{stage:?}");
    stage = r.advance(stage, Event::Reverted);
    stage = r.advance(stage, Event::Complained(String::new()));
    assert_eq!(
        reason(&stage),
        "failed: the mountpoint moved to '/home/u/root/moved' during the mount"
    );
}

#[test]
fn a_helper_that_never_mounts_times_out() {
    let r = request(&[], "/home/u/root/drive").unwrap();
    let mut stage = waiting(&r, &[]);
    stage = r.advance(stage, Event::Waited { exit: None, elapsed: 15000, table: table(&[]) });
    assert!(matches!(stage, Stage::Wait { .. }));
    for event in [
        Event::Waited { exit: None, elapsed: 15001, table: table(&[]) },
        collected(false, "/home/u/root/drive"),
        Event::Watched { elapsed: 2000, table: Err("busy".into()) },
        Event::Answered(vec![]),
        Event::Answered(vec![]),
        Event::Removed(strings(&["/left"])),
        Event::Complained("x".into()),
    ] {
        stage = r.advance(stage, event);
    }
    assert_eq!(reason(&stage), "failed: timed out waiting for the mount to appear");
    match stage {
        Stage::Refused { left_behind, .. } => assert_eq!(left_behind, strings(&["/left"])),
        other => panic!("not refused: {other:?}"),
    }
}

#[test]
fn an_undeliverable_descriptor_takes_the_mount_back() {
    let r = request(&["auto_unmount"], "/home/u/root/drive").unwrap();
    let mut stage = waiting(&r, &[]);
    for event in [
        Event::Waited { exit: None, elapsed: 50, table: table(&[("41", "/home/u/root/drive")]) },
        collected(true, "/home/u/root/drive"),
        Event::Sent(Err("broken pipe".into())),
    ] {
        stage = r.advance(stage, event);
    }
    assert!(matches!(stage, Stage::TakeBack { .. }), "{stage:?}");
    stage = r.advance(stage, Event::Reverted);
    assert_eq!(reason(&stage), "failed: cannot hand over the fuse descriptor: broken pipe");
    // The answer is final.
    stage = r.advance(stage, Event::Sent(Ok(())));
    assert!(matches!(stage, Stage::Refused { .. }));
}

#[test]
fn auto_unmount_is_watched_over() {
    let r = request(&["rw", "auto_unmount"], "/home/u/root/drive").unwrap();
    assert_eq!(r.helper_args(), strings(&["-o", "rw", "--", "."]));
    let mut stage = waiting(&r, &[]);
    for event in [
        Event::Waited { exit: None, elapsed: 50, table: table(&[("41", "/home/u/root/drive")]) },
        collected(true, "/home/u/root/drive"),
        Event::Sent(Ok(())),
    ] {
        stage = r.advance(stage, event);
    }
    assert!(matches!(stage, Stage::Mounted { watch: true, .. }), "{stage:?}");
}

#[test]
fn a_request_is_refused_with_the_reason_of_its_stage() {
    let r = request(&[], "/home/u/root/drive").unwrap();
    let path = || "/home/u/root/drive".to_string();
    assert_eq!(
        reason(&r.advance(Stage::Claim { path: path() }, Event::Claimed(Err("full".into())))),
        "denied: full"
    );
    let look = r.advance(
        Stage::Look { path: path() },
        Event::TableRead(table(&[("41", "/home/u/root/drive")])),
    );
    assert_eq!(reason(&look), "denied: '/home/u/root/drive' is already a mountpoint");
    assert_eq!(
        reason(&r.advance(Stage::Look { path: path() }, Event::TableRead(Err("e".into())))),
        "failed: cannot read mountinfo: e"
    );
    assert_eq!(
        reason(&r.advance(
            Stage::Survey { path: path() },
            Event::Surveyed { connections: None, table: Err("e".into()) }
        )),
        "failed: cannot read mountinfo: e"
    );
    let launch = |fault| {
        let ready = r.advance(
            Stage::Survey { path: path() },
            Event::Surveyed { connections: None, table: table(&[]) },
        );
        reason(&r.advance(ready, Event::Launched(Err(fault))))
    };
    assert_eq!(
        launch(LaunchFault::SocketPair("e".into())),
        "failed: cannot create a socket pair: e"
    );
    assert_eq!(
        launch(LaunchFault::SocketTimeout("e".into())),
        "failed: cannot set a socket timeout: e"
    );
    assert_eq!(
        launch(LaunchFault::Spawn("e".into())),
        "failed: cannot run /usr/bin/fusermount3: e"
    );
    let wait = waiting(&r, &[]);
    assert_eq!(
        reason(&r.advance(wait, Event::Waited { exit: None, elapsed: 0, table: Err("e".into()) })),
        "failed: cannot read mountinfo: e"
    );
    // An event that was not asked for changes nothing.
    assert!(matches!(r.advance(Stage::Resolve, Event::Sent(Ok(()))), Stage::Resolve));
}

#[test]
fn a_refused_request_gives_up_its_claim() {
    let place = "/home/u/root/drive";
    let r = request(&[], place).unwrap();
    let mut registry = Registry::new();
    assert!(matches!(
        r.claim(&mut registry, place, &table(&[]), &table(&[]), 1),
        Event::Claimed(Ok(()))
    ));
    let refused = Stage::Refused {
        answer: BridgeError::Failed("no".into()),
        left_behind: vec![],
    };
    assert_eq!(
        conclude(refused, &Some(place.into()), &mut registry),
        Err(BridgeError::Failed("no".into()))
    );
    assert!(matches!(
        r.claim(&mut registry, place, &table(&[]), &table(&[]), 1),
        Event::Claimed(Ok(()))
    ));
}

#[test]
fn several_applications_can_mount_at_once() {
    let mut registry = Registry::new();
    for i in 0..4 {
        registry.reserve(&format!("/home/u/root/d{i}"), "app", 64).unwrap();
    }
    for i in 0..4 {
        registry.record(MountRecord {
            path: format!("/home/u/root/d{i}"),
            app_id: "app".into(),
            fstype: "fuse".into(),
            source: "s".into(),
            identity: Identity { unique: None, id: format!("{i}") },
        });
    }
    assert_eq!(registry.list_mounts().len(), 4, "every mount must be recorded");
}

#[test]
fn only_a_fuse_mount_that_is_held_in_place_is_verified() {
    let entry = table(&[("41", "/home/u/root/d")]).unwrap().pop();
    let plain = table(&[]).unwrap().pop();
    let landed = Some("/home/u/root/d".to_string());
    let at = "/home/u/root/d";
    assert!(is_verified(&entry, &landed, at, &roots(), true));
    assert!(!is_verified(&entry, &landed, at, &roots(), false));
    assert!(!is_verified(&plain, &landed, at, &roots(), true));
    assert!(!is_verified(&None, &landed, at, &roots(), true));
    assert!(!is_verified(&entry, &None, at, &roots(), true));
    assert!(!is_verified(&entry, &landed, at, &[], true));
}

#[test]
fn a_sighting_tells_nothing_from_unreadable() {
    assert!(matches!(sight(table(&[]), "/x", None), Sighting::Nothing));
    assert!(matches!(sight(Err("e".into()), "/x", None), Sighting::Unreadable(_)));
}
