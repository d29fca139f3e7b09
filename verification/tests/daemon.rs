use fusebridge::daemon::{bus_warning, ending_complaint, parse_daemon_args, DaemonArgs, Ending, USAGE};

fn parse(v: &[&str]) -> DaemonArgs {
    let args: Vec<String> = v.iter().map(|s| s.to_string()).collect();
    parse_daemon_args(&args)
}

#[test]
fn an_empty_command_line_serves_with_the_defaults() {
    let a = parse(&[]);
    assert!(a.roots.is_empty() && a.default_root && !a.allow_unsandboxed && !a.require_pidfd);
    assert_eq!(a.max_mounts, 64);
    assert!(matches!(a.ending, Ending::Serve));
}

#[test]
fn every_flag_is_read() {
    let a = parse(&[
        "--allow-root", "/a", "--allow-root", "--help", "--max-mounts", "2", "--allow-unsandboxed",
        "--no-default-root", "--require-pidfd",
    ]);
    assert_eq!(a.roots, vec!["/a", "--help"]);
    assert_eq!(a.max_mounts, 2);
    assert!(a.allow_unsandboxed && !a.default_root && a.require_pidfd);
    assert!(matches!(a.ending, Ending::Serve));
}

#[test]
fn a_bad_command_line_ends_where_it_is_bad() {
    let a = parse(&["--allow-root", "/a", "--what", "--allow-root", "/b"]);
    assert_eq!(a.roots, vec!["/a"]);
    assert_eq!(ending_complaint(&a.ending), Some("unknown argument '--what'".into()));
    assert!(matches!(parse(&["--allow-root"]).ending, Ending::MissingDirectory));
    for limit in [&["--max-mounts"][..], &["--max-mounts", "0"], &["--max-mounts", "-1"],
        &["--max-mounts", "x"], &["--max-mounts", "99999999999999999999"]]
    {
        let a = parse(limit);
        assert_eq!(
            ending_complaint(&a.ending),
            Some("--max-mounts needs a positive number".into())
        );
    }
    assert_eq!(parse(&["--max-mounts", "+7"]).max_mounts, 7);
    assert!(matches!(parse(&["-h", "--what"]).ending, Ending::Help));
    assert_eq!(ending_complaint(&Ending::Help), None);
    assert!(USAGE.starts_with("usage: fusebridged [--allow-root <dir>]..."));
}

#[test]
fn an_old_bus_is_warned_about() {
    assert_eq!(bus_warning(Some(true), true), None);
    assert_eq!(bus_warning(None, true), None);
    assert!(bus_warning(Some(false), true).unwrap().ends_with("every request will be refused"));
    assert!(bus_warning(Some(false), false).unwrap().contains("identified by pid"));
}
