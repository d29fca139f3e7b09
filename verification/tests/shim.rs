use fusebridge::shim::{
    bad_comm_fd, call_error_message, comm_fd, complaint, mount_refused, parse_args, run,
    unmount_refused, version_line, wants_quiet, Args, CallError, Plan, USAGE,
};

fn strings(v: &[&str]) -> Vec<String> {
    v.iter().map(|s| s.to_string()).collect()
}

fn parse(v: &[&str]) -> Args {
    parse_args(&strings(v)).unwrap()
}

#[test]
fn libfuse_mount_form() {
    // libfuse: fusermount3 -o rw,nosuid -- /mnt/point
    let a = parse(&["-o", "rw,nosuid,fsname=x", "--", "/mnt/point"]);
    assert!(!a.unmount);
    assert_eq!(a.options, vec!["rw", "nosuid", "fsname=x"]);
    assert_eq!(a.mountpoint.as_deref(), Some("/mnt/point"));
}

#[test]
fn bazil_mount_form() {
    // bazil/fuse: fusermount -o opts -- dir
    let a = parse(&["-o", "ro", "--", "dir"]);
    assert_eq!(a.options, vec!["ro"]);
    assert_eq!(a.mountpoint.as_deref(), Some("dir"));
}

/// The form libfuse 3.18.2 uses to unmount, and the one a sandboxed
/// application reaches, since it is only tried after its own `umount2` was
/// refused.
#[test]
fn libfuse_long_unmount_form() {
    // libfuse: fusermount3 --unmount --quiet --lazy -- /mnt/point
    let a = parse(&["--unmount", "--quiet", "--lazy", "--", "/mnt/point"]);
    assert!(a.unmount, "an unmount request must not become a mount");
    assert!(a.quiet && a.lazy);
    assert!(a.options.is_empty());
    assert_eq!(a.mountpoint.as_deref(), Some("/mnt/point"));
}

/// The two-phase form has to be recognised by name, so that it can be
/// declined deliberately and the library falls back.
#[test]
fn libfuse_sync_init_form_is_declined_by_name() {
    let a = parse_args(&strings(&["--sync-init", "-o", "rw,nosuid", "--", "/mnt/x"]))
        .expect("the form must parse, so that it can be declined deliberately");
    assert!(a.sync_init, "--sync-init must be recognised");
    assert_eq!(a.mountpoint.as_deref(), Some("/mnt/x"));
    assert_eq!(a.options, vec!["rw", "nosuid"]);
}

#[test]
fn libfuse_watchdog_form() {
    // libfuse: fusermount3 --auto-unmount -- /mnt/point
    let a = parse(&["--auto-unmount", "--", "/mnt/point"]);
    assert!(a.watchdog, "the watchdog form must be recognised as such");
    assert!(!a.unmount);
    assert!(a.options.is_empty());
    assert_eq!(a.mountpoint.as_deref(), Some("/mnt/point"));
}

/// With options it is an ordinary mount that also wants cleanup, which is
/// the mount option the daemon implements.
#[test]
fn auto_unmount_flag_with_options_is_the_mount_option() {
    let a = parse(&["--auto-unmount", "-o", "rw", "--", "/mnt/point"]);
    assert!(!a.watchdog);
    assert_eq!(a.options, vec!["rw", "auto_unmount"]);
}

#[test]
fn long_option_forms() {
    assert_eq!(
        parse(&["--options", "rw,ro", "--", "/m"]).options,
        ["rw", "ro"]
    );
    assert_eq!(
        parse(&["--options=rw,ro", "--", "/m"]).options,
        ["rw", "ro"]
    );
    assert!(parse(&["--version"]).version);
    assert!(parse(&["--help"]).help);
    assert!(parse(&["-h"]).help);
}

#[test]
fn quiet_is_honoured_in_both_spellings() {
    let q = |v: &[&str]| wants_quiet(&strings(v));
    assert!(q(&["--unmount", "--quiet", "--lazy"]));
    assert!(q(&["-u", "-q", "-z"]));
    assert!(q(&["-uqz"]));
    assert!(!q(&["--unmount", "--lazy"]));
    assert!(!q(&["-o", "quiet_is_not_a_flag_here", "--", "/m"]));
}

/// The real helper answers `unrecognized option '--x'` and fails; taking it
/// for a mountpoint is how an unmount could become a mount.
#[test]
fn unknown_long_flag_is_rejected_not_taken_for_a_mountpoint() {
    let err = parse_args(&strings(&["--totally-bogus"])).unwrap_err();
    assert!(err.contains("unrecognized option"), "{err}");
}

#[test]
fn libfuse_unmount_form() {
    // libfuse: fusermount3 -u -q -z -- /mnt/point
    let a = parse(&["-u", "-q", "-z", "--", "/mnt/point"]);
    assert!(a.unmount && a.quiet && a.lazy);
    assert_eq!(a.mountpoint.as_deref(), Some("/mnt/point"));
}

#[test]
fn clustered_flags_and_bare_mountpoint() {
    let a = parse(&["-uz", "/m"]);
    assert!(a.unmount && a.lazy && !a.quiet);
    assert_eq!(a.mountpoint.as_deref(), Some("/m"));
}

#[test]
fn attached_o_value() {
    let a = parse(&["-orw,dev", "/m"]);
    assert_eq!(a.options, vec!["rw", "dev"]);
}

#[test]
fn version_flag() {
    assert!(parse(&["--version"]).version);
    assert!(parse(&["-V"]).version);
}

#[test]
fn unknown_flag_rejected() {
    assert!(parse_args(&strings(&["-x"])).is_err());
}

#[test]
fn a_command_line_comes_to_a_plan() {
    let plan = |v: &[&str]| run(&strings(v));
    assert_eq!(
        plan(&["-o", "rw,ro", "--", "-x"]),
        Ok(Plan::Mount { mountpoint: "-x".into(), options: strings(&["rw", "ro"]) })
    );
    assert_eq!(plan(&["--version", "--help"]), Ok(Plan::Version));
    assert_eq!(plan(&["-h"]), Ok(Plan::Help));
    assert_eq!(plan(&[]), Err("no mountpoint given".into()));
    assert_eq!(plan(&["--"]), Err("no mountpoint given".into()));
    assert!(plan(&["--sync-init", "x"]).unwrap_err().starts_with("--sync-init asks for"));
    assert!(plan(&["--auto-unmount", "x"]).unwrap_err().starts_with("--auto-unmount without"));
    assert_eq!(
        plan(&["--auto-unmount", "-o", "rw", "x"]),
        Ok(Plan::Mount { mountpoint: "x".into(), options: strings(&["rw", "auto_unmount"]) })
    );
    assert_eq!(plan(&["-o"]), Err(format!("-o requires an argument\n{USAGE}")));
}

#[test]
fn an_unmount_is_an_unmount_in_every_spelling() {
    let expected = Ok(Plan::Unmount { mountpoint: "/m".into(), lazy: true });
    for v in [
        &["-u", "-q", "-z", "--", "/m"][..],
        &["--unmount", "--quiet", "--lazy", "--", "/m"],
        &["-uqz", "--", "/m"],
        &["/m", "-uz"],
    ] {
        assert_eq!(run(&strings(v)), expected);
    }
    assert_eq!(
        run(&strings(&["-o", "rw", "-u", "/m"])),
        Ok(Plan::Unmount { mountpoint: "/m".into(), lazy: false })
    );
}

#[test]
fn the_socket_is_named_by_the_environment() {
    assert_eq!(comm_fd(&Some("5".into())), Ok(5));
    assert_eq!(comm_fd(&Some("-1".into())), Ok(-1));
    assert_eq!(
        comm_fd(&Some("x".into())),
        Err("bad _FUSE_COMMFD value: invalid digit found in string".into())
    );
    assert_eq!(bad_comm_fd("e"), "bad _FUSE_COMMFD value: e");
    assert!(comm_fd(&Some("2147483648".into())).is_err());
    assert!(comm_fd(&None).unwrap_err().starts_with("_FUSE_COMMFD is not set. This fusermount3"));
}

#[test]
fn errors_are_put_into_words() {
    let method = CallError::Method { name: "org.E".into(), message: "no".into() };
    assert_eq!(call_error_message(&method), "no [org.E]");
    assert_eq!(mount_refused(&method), "mount refused: no [org.E]");
    assert_eq!(
        unmount_refused(&CallError::Other("gone".into())),
        "unmount refused: gone"
    );
    assert_eq!(
        complaint(&strings(&["-u"]), "no"),
        Some("fusermount3 (fusebridge-shim): no".into())
    );
    assert_eq!(complaint(&strings(&["-uq"]), "no"), None);
    assert_eq!(
        version_line("0.1.0"),
        "fusermount3 version: 0.1.0 (fusebridge-shim, forwards to io.github.stektus.FuseBridge1)"
    );
    assert!(USAGE.contains("\n -o, --options opt[,opt...]  mount options\n"));
}
