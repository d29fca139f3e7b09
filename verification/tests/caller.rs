use fusebridge::caller::{
    check_sender, choose_pin, confirm_pid, identify_caller, pid_of_fdinfo, sender_of, Credentials,
    Pin, Pinned,
};
use fusebridge::error::BridgeError;
use fusebridge::flatpak::{app_id_of_pid, InfoReading};

const NO_NAME: &str = "unusable sender name: Invalid bus name. See https://dbus.freedesktop.org/doc/dbus-specification.html#message-protocol-names-bus";

fn denied(why: &str) -> BridgeError {
    BridgeError::AccessDenied(why.into())
}

fn failed(why: &str) -> BridgeError {
    BridgeError::Failed(why.into())
}

#[test]
fn senders_are_bus_names() {
    for name in [":1.42", ":a.b-c_d", "org.freedesktop.DBus", "io.github.x", "_a.-b"] {
        assert_eq!(check_sender(name), Ok(()), "{name}");
    }
    let long = format!("a.{}", "b".repeat(253));
    assert_eq!(check_sender(&long), Ok(()));
    let longer = format!("a.{}", "b".repeat(254));
    for name in ["", ":", ":1", "a", "a..b", ".a.b", "a.b.", "a.1b", "1a.b", "a.b c", "a.é", &longer] {
        assert_eq!(check_sender(name), Err(failed(NO_NAME)), "{name}");
    }
}

#[test]
fn a_message_without_a_sender_is_refused() {
    assert_eq!(sender_of(Some(":1.2".into())), Ok(":1.2".into()));
    assert_eq!(sender_of(None), Err(denied("no sender on message")));
}

#[test]
fn a_caller_is_pinned_by_descriptor_where_there_is_one() {
    let with = Ok(Credentials { has_descriptor: true, process_id: Some(7) });
    let without = Ok(Credentials { has_descriptor: false, process_id: Some(7) });
    let neither = Ok(Credentials { has_descriptor: false, process_id: None });
    assert_eq!(choose_pin(&with, false), Ok(Pin::ByDescriptor));
    assert_eq!(choose_pin(&without, false), Ok(Pin::ByPid(7)));
    assert_eq!(choose_pin(&neither, false), Err(denied("caller pid unavailable")));
    assert_eq!(
        choose_pin(&Err("e".into()), false),
        Err(failed("cannot get caller credentials: e"))
    );
    assert_eq!(
        choose_pin(&without, true),
        Err(denied(
            "this bus cannot identify callers by descriptor (needs dbus >= 1.16) and --require-pidfd is set"
        ))
    );
}

#[test]
fn require_pidfd_changes_nothing_on_a_bus_that_supplies_them() {
    let with = Ok(Credentials { has_descriptor: true, process_id: None });
    assert_eq!(choose_pin(&with, true), choose_pin(&with, false));
}

#[test]
fn a_pidfd_pins_this_process() {
    let info = "pos:\t0\nflags:\t02000002\nmnt_id:\t15\nPid:\t4242\nNSpid:\t4242\n";
    assert_eq!(pid_of_fdinfo(info), Some(4242));
    assert_eq!(confirm_pid(Some(4242), Some(4242)), Some(4242));
}

#[test]
fn a_pidfd_whose_process_died_is_refused() {
    assert_eq!(pid_of_fdinfo("pos:\t0\nPid:\t-1\n"), None);
    assert_eq!(pid_of_fdinfo("pos:\t0\n"), None);
    assert_eq!(pid_of_fdinfo("Pid:\tx\nPid:\t5\n"), None);
    assert_eq!(pid_of_fdinfo("Pid:\t0\n"), None);
    assert_eq!(pid_of_fdinfo("Pid:\t4294967296\n"), None);
    assert_eq!(pid_of_fdinfo("Pid: +4294967295\n"), Some(4294967295));
    assert_eq!(confirm_pid(Some(7), None), None);
    assert_eq!(confirm_pid(None, Some(7)), None);
    assert_eq!(confirm_pid(Some(7), Some(8)), None);
    assert_eq!(confirm_pid(None, None), None);
}

fn pinned(uid: Result<u32, String>, info: InfoReading) -> Result<Pinned, String> {
    Ok(Pinned { pid: 7, uid, info })
}

#[test]
fn a_caller_is_served_as_its_application() {
    let info = || InfoReading::Content("[Application]\nname=org.a\n".into());
    let caller = identify_caller(pinned(Ok(1000), info()), 1000, false).unwrap();
    assert_eq!((caller.pid, caller.app_id.as_str()), (7, "org.a"));
    assert_eq!(
        identify_caller(pinned(Ok(0), info()), 1000, true),
        Err(denied("caller uid 0 does not match session user"))
    );
    assert_eq!(
        identify_caller(pinned(Err("e".into()), info()), 1000, false),
        Err(failed("cannot read caller uid: e"))
    );
    assert_eq!(identify_caller(Err("dead".into()), 1000, false), Err(denied("caller: dead")));
    assert_eq!(
        identify_caller(pinned(Ok(1000), InfoReading::Failed("e".into())), 1000, true),
        Err(failed("cannot inspect caller (pid 7): e"))
    );
    let other = identify_caller(pinned(Ok(1000), InfoReading::Missing), 1000, true).unwrap();
    assert_eq!(other.app_id, "(unsandboxed)");
    assert_eq!(
        identify_caller(pinned(Ok(1000), InfoReading::Missing), 1000, false),
        Err(denied("caller is not a Flatpak application"))
    );
}

#[test]
fn this_process_is_not_a_flatpak_app() {
    assert_eq!(app_id_of_pid(&InfoReading::Missing), Ok(None));
}

#[test]
fn dead_pid_is_an_error_not_an_identity() {
    assert!(app_id_of_pid(&InfoReading::Failed("No such process".into())).is_err());
}

#[test]
fn a_sandbox_without_a_name_is_still_a_sandbox() {
    let info = InfoReading::Content("[Instance]\nid=1\n".into());
    assert_eq!(app_id_of_pid(&info), Ok(Some("unknown".into())));
}
