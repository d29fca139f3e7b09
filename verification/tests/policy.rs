use fusebridge::path::{path_inside, resolved_or, same_path};
use fusebridge::policy::{
    check_mountpoint, check_options, inside_allowed, is_ours, liveness, may_check, may_unmount,
    mount_arguments, unmount_arguments, wants_auto_unmount, we_made, without_auto_unmount, Listing,
    Liveness, Probe, MAX_ABANDONED_CHECKS,
};

fn strings(v: &[&str]) -> Vec<String> {
    v.iter().map(|s| s.to_string()).collect()
}

fn found(path: &str) -> Probe {
    Probe::Found { path: path.into(), is_dir: true, uid: 1000, listing: Listing::Empty }
}

#[test]
fn rejects_allow_other() {
    assert!(check_options(&["rw".into(), "allow_other".into()]).is_err());
    assert!(check_options(&["allow_root".into()]).is_err());
    assert!(check_options(&["rw".into(), "fsname=x".into()]).is_ok());
}

#[test]
fn rejects_option_smuggling() {
    assert!(check_options(&["rw,allow_other".into()]).is_err());
}

#[test]
fn rejects_padded_and_valued_spellings() {
    assert_eq!(
        check_options(&strings(&["rw", " allow_other"])),
        Err("mount option 'allow_other' is not allowed".into())
    );
    assert_eq!(
        check_options(&strings(&["allow_root = 1"])),
        Err("mount option 'allow_root' is not allowed".into())
    );
    assert_eq!(
        check_options(&strings(&["a,b"])),
        Err("malformed mount option 'a,b'".into())
    );
    assert_eq!(check_options(&strings(&["allow_others", ""])), Ok(()));
}

#[test]
fn mountpoint_must_be_inside_root_not_the_root() {
    let allowed = strings(&["/tmp/fb/root"]);
    assert!(check_mountpoint("/tmp/fb/root/drive", &found("/tmp/fb/root/drive"), 1000, &allowed).is_ok());
    assert!(check_mountpoint("/tmp/fb/root", &found("/tmp/fb/root"), 1000, &allowed).is_err());
    assert!(check_mountpoint("/", &found("/"), 1000, &allowed).is_err());

    let occupied = Probe::Found {
        path: "/tmp/fb/root/drive".into(),
        is_dir: true,
        uid: 1000,
        listing: Listing::Occupied,
    };
    assert!(check_mountpoint("/tmp/fb/root/drive", &occupied, 1000, &allowed).is_err());
}

#[test]
fn symlink_out_of_root_is_rejected() {
    let allowed = strings(&["/tmp/fb/root"]);
    // The link resolves to a path outside the root.
    assert!(check_mountpoint("/tmp/fb/root/link", &found("/tmp/fb/outside"), 1000, &allowed).is_err());
}

#[test]
fn every_refusal_of_a_mountpoint_says_why() {
    let roots = strings(&["/r", "/s"]);
    let says = |probe: Probe| check_mountpoint("raw", &probe, 1000, &roots).unwrap_err();
    assert_eq!(
        says(Probe::Unresolved("gone".into())),
        "mountpoint 'raw' cannot be resolved: gone"
    );
    assert_eq!(
        says(Probe::NoStat { path: "/r/d".into(), error: "no".into() }),
        "cannot stat '/r/d': no"
    );
    assert!(says(Probe::Silent).contains("not responding"));
    assert!(says(Probe::NotTried).contains("not responding"));
    let at = |is_dir, uid, listing| Probe::Found { path: "/r/d".into(), is_dir, uid, listing };
    assert_eq!(says(at(false, 1000, Listing::Empty)), "'/r/d' is not a directory");
    assert_eq!(
        says(at(true, 0, Listing::Empty)),
        "'/r/d' is owned by uid 0, not by the session user"
    );
    assert_eq!(
        says(at(true, 1000, Listing::Unread("denied".into()))),
        "cannot read '/r/d': denied"
    );
    assert_eq!(says(at(true, 1000, Listing::Occupied)), "'/r/d' is not empty");
    assert_eq!(says(found("/t/d")), "'/t/d' is outside the allowed mount roots (/r, /s)");
    assert_eq!(check_mountpoint("raw", &found("/s/d"), 1000, &roots), Ok("/s/d".into()));
}

#[test]
fn abandoned_checks_are_capped() {
    assert!(may_check(0));
    assert!(may_check(MAX_ABANDONED_CHECKS - 1));
    assert!(!may_check(MAX_ABANDONED_CHECKS));
}

#[test]
fn a_path_is_inside_by_component() {
    assert!(path_inside("/r/a", "/r"));
    assert!(path_inside("/r/a/b", "/r/"));
    assert!(!path_inside("/r", "/r"));
    assert!(!path_inside("/r/", "/r"));
    assert!(!path_inside("/rx/a", "/r"));
    assert!(path_inside("/r", "/"));
    assert!(same_path("/a//b/.", "/a/b"));
    assert!(!same_path("/a/../a", "/a"));
    assert!(inside_allowed("/s/x", &strings(&["/r", "/s"])));
    assert!(!inside_allowed("/s/x", &[]));
    assert_eq!(resolved_or("raw".into(), None), "raw");
    assert_eq!(resolved_or("raw".into(), Some("/x".into())), "/x");
}

#[test]
fn auto_unmount_is_taken_by_the_daemon_not_passed_on() {
    let options = strings(&["rw", "auto_unmount", "fsname=x"]);
    assert!(wants_auto_unmount(&options));
    assert_eq!(without_auto_unmount(&options), strings(&["rw", "fsname=x"]));
    assert_eq!(mount_arguments(&options), strings(&["-o", "rw,fsname=x", "--", "."]));
    assert_eq!(mount_arguments(&strings(&["auto_unmount"])), strings(&["--", "."]));
    assert!(!wants_auto_unmount(&strings(&["rw"])));
}

#[test]
fn the_helper_finds_the_options_that_were_checked() {
    let options = strings(&["rw", "fsname=a b", "auto_unmount", "subtype=x"]);
    assert!(check_options(&options).is_ok());
    let list = mount_arguments(&options)[1].clone();
    let parts: Vec<&str> = list.split(',').collect();
    assert_eq!(parts, vec!["rw", "fsname=a b", "subtype=x"]);
}

#[test]
fn unmounting_names_the_place_behind_the_options() {
    assert_eq!(unmount_arguments("/r/d", false), strings(&["-u", "--", "/r/d"]));
    assert_eq!(unmount_arguments("-z", true), strings(&["-u", "-z", "--", "-z"]));
}

#[test]
fn only_a_mount_that_died_with_our_descriptor_is_ours() {
    let all = [Liveness::Answering, Liveness::Disconnected, Liveness::Silent];
    for was in all {
        for now in all {
            let expected = was != Liveness::Disconnected && now == Liveness::Disconnected;
            assert_eq!(is_ours(was, now), expected, "{was:?} to {now:?}");
        }
    }
    let places = strings(&["/ours", "/served", "/dead", "/unasked"]);
    let was = vec![Liveness::Silent, Liveness::Answering, Liveness::Disconnected];
    let now = vec![
        Liveness::Disconnected,
        Liveness::Answering,
        Liveness::Disconnected,
        Liveness::Disconnected,
    ];
    assert_eq!(we_made(&places, &was, &now), strings(&["/ours", "/unasked"]));
}

#[test]
fn an_abandoned_mount_gives_its_own_error() {
    assert_eq!(liveness(false, None, 107), Liveness::Silent);
    assert_eq!(liveness(true, Some(107), 107), Liveness::Disconnected);
    assert_eq!(liveness(true, Some(2), 107), Liveness::Answering);
    assert_eq!(liveness(true, None, 107), Liveness::Answering);
}

#[test]
fn unmount_is_restricted_to_the_owning_app() {
    assert!(may_unmount("org.a", "org.a"));
    assert!(!may_unmount("org.a", "org.b"));
}
