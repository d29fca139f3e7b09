use fusebridge::error::BridgeError;
use fusebridge::registry::{Identity, MountRecord, Registry};
use fusebridge::removal::{
    begin_unmount, continue_unmount, finish_unmount, left_behind, HelperOutcome, Removal,
    RemovalStep, Sighting, UnmountStage, REVERT_ATTEMPTS,
};
use fusebridge::watch::{take_down, watch_on, WatchEvent, WatchStage};

fn strings(v: &[&str]) -> Vec<String> {
    v.iter().map(|s| s.to_string()).collect()
}

fn identity(unique: u64) -> Identity {
    Identity { unique: Some(unique), id: "41".into() }
}

fn books() -> Registry {
    let mut registry = Registry::new();
    registry.record(MountRecord {
        path: "/r/d".into(),
        app_id: "org.a".into(),
        fstype: "fuse".into(),
        source: "s".into(),
        identity: identity(1),
    });
    registry
}

fn denied(stage: UnmountStage) -> String {
    match stage {
        UnmountStage::Answer(Err(BridgeError::AccessDenied(why))) => why,
        other => panic!("not denied: {other:?}"),
    }
}

#[test]
fn an_unmount_is_refused_with_its_reason() {
    let registry = books();
    let roots = strings(&["/r"]);
    assert_eq!(
        denied(begin_unmount(&registry, "/nowhere", "org.a", &roots)),
        "'/nowhere' is outside the allowed mount roots"
    );
    assert_eq!(
        denied(begin_unmount(&registry, "/r/e", "org.a", &roots)),
        "'/r/e' was not mounted through this daemon"
    );
    assert_eq!(
        denied(begin_unmount(&registry, "/r/d", "org.b", &roots)),
        "mount belongs to a different application"
    );
    assert!(matches!(begin_unmount(&registry, "/r/d", "org.a", &roots), UnmountStage::Look));
}

#[test]
fn a_mount_that_is_gone_is_only_forgotten() {
    let mut registry = books();
    let stage = continue_unmount(&mut registry, "/r/d", &Sighting::Nothing, false);
    assert!(matches!(stage, UnmountStage::Answer(Ok(()))));
    assert!(registry.list_mounts().is_empty());
}

#[test]
fn a_stranger_that_took_the_place_is_left_alone() {
    let mut registry = books();
    let stage = continue_unmount(&mut registry, "/r/d", &Sighting::Mount(identity(2)), false);
    assert_eq!(denied(stage), "'/r/d' was not mounted through this daemon");
    assert!(registry.list_mounts().is_empty());
    let stage = continue_unmount(&mut registry, "/r/d", &Sighting::Mount(identity(2)), false);
    assert_eq!(denied(stage), "'/r/d' was not mounted through this daemon");
}

#[test]
fn an_unreadable_table_changes_nothing() {
    let mut registry = books();
    match continue_unmount(&mut registry, "/r/d", &Sighting::Unreadable("e".into()), false) {
        UnmountStage::Answer(Err(e)) => {
            assert_eq!(e, BridgeError::Failed("cannot read mountinfo: e".into()))
        }
        other => panic!("unexpected: {other:?}"),
    }
    assert_eq!(registry.list_mounts().len(), 1);
}

#[test]
fn a_failed_helper_keeps_the_record() {
    let mut registry = books();
    match continue_unmount(&mut registry, "/r/d", &Sighting::Mount(identity(1)), false) {
        UnmountStage::Run(arguments) => assert_eq!(arguments, strings(&["-u", "--", "/r/d"])),
        other => panic!("unexpected: {other:?}"),
    }
    let failed = HelperOutcome::Failed {
        status: "exit status: 1".into(),
        complaint: b" busy \xff\n".to_vec(),
    };
    assert_eq!(
        finish_unmount(&mut registry, "/r/d", &failed),
        Err(BridgeError::Failed(
            "fusermount3 -u failed (exit status: 1): busy \u{fffd}".into()
        ))
    );
    assert_eq!(
        finish_unmount(&mut registry, "/r/d", &HelperOutcome::NotRun("e".into())),
        Err(BridgeError::Failed("cannot run /usr/bin/fusermount3: e".into()))
    );
    assert_eq!(registry.list_mounts().len(), 1);
}

#[test]
fn a_removal_is_repeated_until_the_mount_is_gone() {
    let mut removal = Removal::of_place("/r/d");
    for _ in 0..3 {
        match removal.proceed(&Sighting::Mount(identity(5))) {
            RemovalStep::Run(arguments) => {
                assert_eq!(arguments, strings(&["-u", "-z", "--", "/r/d"]))
            }
            other => panic!("unexpected: {other:?}"),
        }
    }
    assert!(matches!(removal.proceed(&Sighting::Nothing), RemovalStep::Gone));
}

#[test]
fn a_removal_ends() {
    let mut removal = Removal::of_place("/r/d");
    let mut tries: u32 = 0;
    while let RemovalStep::Run(_) = removal.proceed(&Sighting::Mount(identity(5))) {
        tries += 1;
    }
    assert_eq!(tries, REVERT_ATTEMPTS);
    let mut removal = Removal::of_place("/r/d");
    assert!(matches!(
        removal.proceed(&Sighting::Unreadable("e".into())),
        RemovalStep::LeftBehind
    ));
}

#[test]
fn a_removal_leaves_another_mount_alone() {
    let mut removal = Removal::of_mount("/r/d", identity(1));
    assert!(matches!(removal.proceed(&Sighting::Mount(identity(1))), RemovalStep::Run(_)));
    assert!(matches!(removal.proceed(&Sighting::Mount(identity(2))), RemovalStep::Gone));
}

#[test]
fn what_could_not_be_removed_is_told() {
    let places = strings(&["/a", "/b", "/c"]);
    assert_eq!(left_behind(&places, &vec![true, false]), strings(&["/b", "/c"]));
}

#[test]
fn auto_unmount_removes_the_mount_when_the_application_dies() {
    let mut stage = WatchStage::Poll;
    // Still there while the application lives.
    for event in [
        WatchEvent::Interrupted,
        WatchEvent::Ready { stop: false, socket: false },
        WatchEvent::Ready { stop: false, socket: true },
        WatchEvent::Got(1),
        WatchEvent::Ready { stop: false, socket: true },
        WatchEvent::Interrupted,
    ] {
        stage = watch_on(stage, event);
    }
    assert!(matches!(stage, WatchStage::Poll), "{stage:?}");
    stage = watch_on(stage, WatchEvent::Ready { stop: false, socket: true });
    stage = watch_on(stage, WatchEvent::Got(0));
    assert!(matches!(stage, WatchStage::TakeDown));

    let mut registry = books();
    let (app_id, mut removal) = take_down(&mut registry, "/r/d").unwrap();
    assert_eq!(app_id, "org.a");
    assert!(registry.list_mounts().is_empty());
    assert!(matches!(removal.proceed(&Sighting::Mount(identity(1))), RemovalStep::Run(_)));
    assert!(take_down(&mut registry, "/r/d").is_none());
}

#[test]
fn a_watch_that_is_stopped_or_fails_takes_nothing_down() {
    let stopped = watch_on(WatchStage::Poll, WatchEvent::Ready { stop: true, socket: true });
    assert!(matches!(watch_on(stopped, WatchEvent::Got(0)), WatchStage::Leave));
    match watch_on(WatchStage::Poll, WatchEvent::Failed("e".into())) {
        WatchStage::GiveUp(e) => assert_eq!(e, "e"),
        other => panic!("unexpected: {other:?}"),
    }
    assert!(matches!(
        watch_on(WatchStage::Read, WatchEvent::Failed("e".into())),
        WatchStage::GiveUp(_)
    ));
}
