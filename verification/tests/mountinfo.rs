use fusebridge::mountinfo::{
    could_be_from_this_operation, find, fuse_connections, fuse_keys, fusectl_mounted, lossy_text,
    misplaced_candidates, new_connections, parse, unescape, MountEntry,
};

fn strings(v: &[&str]) -> Vec<String> {
    v.iter().map(|s| s.to_string()).collect()
}

#[test]
fn parses_regular_line() {
    let line = "36 35 98:0 / /mnt/data rw,noatime master:1 - ext4 /dev/sda1 rw";
    let e = &parse(line)[0];
    assert_eq!(e.mount_point, "/mnt/data");
    assert_eq!(e.fstype, "ext4");
    assert_eq!(e.source, "/dev/sda1");
}

#[test]
fn parses_fuse_line_with_escaped_space() {
    let line = "1210 32 0:70 / /home/u/Cloud\\040Drives/d rw,nosuid,nodev - fuse.rclone :local: rw,user_id=1000";
    let e = &parse(line)[0];
    assert_eq!(e.mount_point, "/home/u/Cloud Drives/d");
    assert_eq!(e.fstype, "fuse.rclone");
    assert_eq!(e.source, ":local:");
}

#[test]
fn skips_garbage_and_finds_topmost() {
    let content = "garbage line\n\
        36 35 98:0 / /m rw - ext4 /dev/sda1 rw\n\
        37 36 0:70 / /m rw - fuse.rclone :local: rw\n";
    let entries = parse(content);
    assert_eq!(entries.len(), 2);
    let top = find(&entries, "/m").unwrap();
    assert_eq!(top.fstype, "fuse.rclone");
}

#[test]
fn unescapes_backslash() {
    assert_eq!(unescape("a\\134b"), "a\\b");
    assert_eq!(unescape("no_escapes"), "no_escapes");
    assert_eq!(unescape("trail\\"), "trail\\");
}

#[test]
fn unescapes_every_special_character_and_leaves_other_backslashes() {
    assert_eq!(unescape("\\040\\011\\012\\134"), " \t\n\\");
    assert_eq!(unescape("\\04"), "\\04");
    assert_eq!(unescape("\\048"), "\\048");
    assert_eq!(unescape("\\400"), "\\400");
    assert_eq!(unescape("\\+40"), " ");
    assert_eq!(unescape("\\303\\251t\\303\\251"), "été");
}

#[test]
fn bytes_that_are_no_text_are_replaced() {
    assert_eq!(lossy_text(&[0x61, 0xff, 0x62]), "a\u{fffd}b");
    assert_eq!(lossy_text(&[0xc3, 0xa9]), "é");
    assert_eq!(unescape("a\\377"), "a\u{fffd}");
}

#[test]
fn a_line_of_another_shape_is_skipped() {
    assert!(parse("").is_empty());
    assert!(parse("36 35 98:0 / /m rw - ext4 /dev/sda1").is_empty());
    assert!(parse("36 35 98:0 / - rw a b c d e f").is_empty());
    assert!(parse("36 35 98:0 / /m rw a b c - ext4").is_empty());
    let e = &parse("36 35 98:0 / /m rw a b c - ext4 src\r\n")[0];
    assert_eq!(e.source, "src");
}

#[test]
fn a_bad_line_takes_no_other_with_it() {
    let good = "36 35 98:0 / /m rw - ext4 /dev/sda1 rw\n";
    let both = format!("{good}- - -\n{good}");
    assert_eq!(parse(&both).len(), 2);
    assert_eq!(parse(&both)[1], parse(good)[0]);
}

#[test]
fn places_are_found_by_component() {
    let table = parse("36 35 98:0 / /m/a rw - ext4 /dev/sda1 rw\n");
    assert!(find(&table, "/m//a/").is_some());
    assert!(find(&table, "/m/./a").is_some());
    assert!(find(&table, "/m").is_none());
    assert!(find(&table, "m/a").is_none());
}

fn fuse_at(id: &str, place: &str) -> MountEntry {
    MountEntry {
        id: id.into(),
        device: "0:70".into(),
        mount_point: place.into(),
        fstype: "fuse".into(),
        source: "fs".into(),
    }
}

#[test]
fn a_mount_is_recognised_by_number_and_place() {
    assert_eq!(fuse_at("41", "/a b").key(), "41 /a b");
    assert_eq!(fuse_at("41", "/a").connection(), "70");
    let mut odd = fuse_at("41", "/a");
    odd.device = "none".into();
    assert_eq!(odd.connection(), "");
}

#[test]
fn only_new_fuse_mounts_elsewhere_may_be_strays() {
    let before = fuse_keys(&vec![fuse_at("41", "/old")]);
    assert_eq!(before, vec!["41 /old"]);
    let seen = |e: &MountEntry, ours: &Option<Vec<String>>| {
        could_be_from_this_operation(e, "/approved", &before, ours)
    };
    assert!(!seen(&fuse_at("41", "/old"), &None));
    assert!(!seen(&fuse_at("50", "/approved/"), &None));
    // The number came back at another place: a new mount.
    assert!(seen(&fuse_at("41", "/victim"), &None));
    let mut plain = fuse_at("50", "/victim");
    plain.fstype = "ext4".into();
    assert!(!seen(&plain, &None));
    // A connection that was there before rules a mount out.
    assert!(!seen(&fuse_at("50", "/victim"), &Some(strings(&["71"]))));
    assert!(seen(&fuse_at("50", "/victim"), &Some(strings(&["70"]))));
    assert!(!seen(&fuse_at("50", "/victim"), &Some(vec![])));

    let table = vec![fuse_at("41", "/old"), fuse_at("50", "/victim"), fuse_at("51", "/approved")];
    assert_eq!(
        misplaced_candidates(&table, &before, &None, "/approved"),
        vec!["/victim"]
    );
}

#[test]
fn connections_that_are_not_published_are_not_empty() {
    let unpublished = parse("36 35 98:0 / /sys rw - sysfs sysfs rw\n");
    assert!(!fusectl_mounted(&unpublished));
    assert_eq!(fuse_connections(&unpublished, Some(vec![])), None);
    let published = parse("30 25 0:29 / /sys/fs/fuse/connections rw - fusectl fusectl rw\n");
    assert!(fusectl_mounted(&published));
    assert_eq!(fuse_connections(&published, Some(vec![])), Some(vec![]));

    let old = Some(strings(&["70", "71"]));
    let now = Some(strings(&["71", "72"]));
    assert_eq!(new_connections(&old, &now), Some(strings(&["72"])));
    assert_eq!(new_connections(&None, &now), None);
    assert_eq!(new_connections(&old, &None), None);
}
