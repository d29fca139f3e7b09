//! Who is asking: deciding what a request's sender may be taken for.
//!
//! A process number is a poor handle. The bus reads it once, when the
//! connection is made, and the number can name somebody else by the time it
//! is used. So a caller is pinned by a descriptor where the bus supplies
//! one, and its user and its application are both read through the one
//! handle that was pinned.
use vstd::prelude::*;

use crate::error::BridgeError;
#[allow(unused_imports)]
use crate::error::Refusal;
use crate::flatpak::{app_id_of_pid, InfoReading};
#[allow(unused_imports)]
use crate::flatpak::{identity_in, Identification};
use crate::number::parse_i64;
#[allow(unused_imports)]
use crate::number::integer;
use crate::text::{concat2, concat3, decimal_text, lines_of, skip_chars, starts_with, trim_text};
#[allow(unused_imports)]
use crate::text::{decimal, lines, optional_text, split, trim, views};

verus! {

/// The characters of a bus name's elements.
pub open spec fn is_name_char(c: char) -> bool {
    'a' <= c <= 'z' || 'A' <= c <= 'Z' || '0' <= c <= '9' || c == '_' || c == '-'
}

/// Whether a text is an element of a bus name.
pub open spec fn is_element(s: Seq<char>, may_start_with_digit: bool) -> bool {
    &&& s.len() > 0
    &&& forall|i: int| 0 <= i < s.len() ==> is_name_char(#[trigger] s[i])
    &&& may_start_with_digit || !('0' <= s[0] <= '9')
}

/// Whether a text is two or more elements with dots between them.
pub open spec fn is_dotted(s: Seq<char>, may_start_with_digit: bool) -> bool {
    let elements = split(s, '.');
    &&& elements.len() >= 2
    &&& forall|i: int|
        0 <= i < elements.len() ==> is_element(#[trigger] elements[i], may_start_with_digit)
}

/// Whether a text names a connection: a unique name, which starts with a
/// colon, or a well-known one.
pub open spec fn is_bus_name(s: Seq<char>) -> bool {
    &&& s.len() <= 255
    &&& (s.len() > 0 && s[0] == ':' && is_dotted(s.skip(1), true)) || is_dotted(s, false)
}

/// What is said of a text that is no bus name.
pub open spec fn no_bus_name() -> Seq<char> {
    "Invalid bus name. See https://dbus.freedesktop.org/doc/dbus-specification.html#message-protocol-names-bus"@
}

/// Calls `BusName::try_from` on a text. Claimed of it: it accepts unique and
/// well-known bus names and nothing else, and it refuses everything else
/// with the same words.
#[verifier::external_body]
fn bus_name_fault(name: &str) -> (fault: Option<String>)
    ensures
        match fault {
            None => is_bus_name(name@),
            Some(e) => !is_bus_name(name@) && e@ == no_bus_name(),
        },
{
    zbus::names::BusName::try_from(name).err().map(|e| e.to_string())
}

/// The answer to a sender's name.
pub open spec fn sender_verdict(sender: Seq<char>) -> Result<(), Refusal> {
    if is_bus_name(sender) {
        Ok(())
    } else {
        Err(Refusal::Failed("unusable sender name: "@ + no_bus_name()))
    }
}

/// Checks that a sender can be asked about.
pub fn check_sender(sender: &str) -> (checked: Result<(), BridgeError>)
    ensures
        crate::error::answer(checked) == sender_verdict(sender@),
{
    match bus_name_fault(sender) {
        None => Ok(()),
        Some(e) => Err(BridgeError::Failed(concat2("unusable sender name: ", e.as_str()))),
    }
}

/// Whom a message came from, or why it is not served.
pub open spec fn sender_answer(sender: Option<Seq<char>>) -> Result<Seq<char>, Refusal> {
    match sender {
        Some(name) => Ok(name),
        None => Err(Refusal::AccessDenied("no sender on message"@)),
    }
}

/// The name of the connection a message came from, which is what the caller
/// is identified by.
pub fn sender_of(sender: Option<String>) -> (name: Result<String, BridgeError>)
    ensures
        match (name, sender_answer(optional_text(sender))) {
            (Ok(n), Ok(due)) => n@ == due,
            (Err(e), Err(due)) => e@ == due,
            _ => false,
        },
{
    match sender {
        Some(name) => Ok(name),
        None => Err(BridgeError::AccessDenied("no sender on message".to_owned())),
    }
}

/// What the bus says of a connection, as far as it is used.
#[derive(Debug, Clone, Copy)]
pub struct Credentials {
    /// Whether a descriptor of the process came with them.
    pub has_descriptor: bool,
    pub process_id: Option<u32>,
}

/// How a caller is to be pinned.
#[derive(Debug, Clone, Copy, PartialEq, Eq, Structural)]
pub enum Pin {
    ByDescriptor,
    ByPid(u32),
}

/// How a caller with these credentials is to be pinned, or why not at all.
pub open spec fn pin_verdict(credentials: Result<Credentials, String>, require_pidfd: bool) -> Result<
    Pin,
    Refusal,
> {
    match credentials {
        Err(e) => Err(Refusal::Failed("cannot get caller credentials: "@ + e@)),
        Ok(found) => if found.has_descriptor {
            Ok(Pin::ByDescriptor)
        } else if require_pidfd {
            Err(
                Refusal::AccessDenied(
                    "this bus cannot identify callers by descriptor (needs dbus >= 1.16) and --require-pidfd is set"@,
                ),
            )
        } else {
            match found.process_id {
                Some(pid) => Ok(Pin::ByPid(pid)),
                None => Err(Refusal::AccessDenied("caller pid unavailable"@)),
            }
        },
    }
}

/// Decides how to pin a caller. A bus that is too old to supply a descriptor
/// leaves only the number, unless that is not to be relied on.
pub fn choose_pin(credentials: &Result<Credentials, String>, require_pidfd: bool) -> (pin: Result<
    Pin,
    BridgeError,
>)
    ensures
        match (pin, pin_verdict(*credentials, require_pidfd)) {
            (Ok(chosen), Ok(due)) => chosen == due,
            (Err(e), Err(due)) => e@ == due,
            _ => false,
        },
{
    match credentials {
        Err(e) => Err(
            BridgeError::Failed(concat2("cannot get caller credentials: ", e.as_str())),
        ),
        Ok(found) => if found.has_descriptor {
            Ok(Pin::ByDescriptor)
        } else if require_pidfd {
            Err(
                BridgeError::AccessDenied(
                    "this bus cannot identify callers by descriptor (needs dbus >= 1.16) and --require-pidfd is set".to_owned(),
                ),
            )
        } else {
            match found.process_id {
                Some(pid) => Ok(Pin::ByPid(pid)),
                None => Err(BridgeError::AccessDenied("caller pid unavailable".to_owned())),
            }
        },
    }
}

/// The number on the first `Pid:` line of a descriptor's information.
pub open spec fn pid_field(all: Seq<Seq<char>>) -> Option<int>
    decreases all.len(),
{
    if all.len() == 0 {
        None
    } else if "Pid:"@.is_prefix_of(all[0]) {
        match integer(trim(all[0].skip(4))) {
            Some(n) => if i64::MIN <= n <= i64::MAX {
                Some(n)
            } else {
                None
            },
            None => None,
        }
    } else {
        pid_field(all.skip(1))
    }
}

/// The process a descriptor names: a reaped process is reported as -1, and
/// process numbers are positive.
pub open spec fn described_pid(content: Seq<char>) -> Option<u32> {
    match pid_field(lines(content)) {
        Some(n) => if 0 < n <= u32::MAX {
            Some(n as u32)
        } else {
            None
        },
        None => None,
    }
}

/// Reads the process number out of what `/proc/self/fdinfo` says of a
/// process descriptor. `None` where it names no living process.
pub fn pid_of_fdinfo(content: &str) -> (pid: Option<u32>)
    ensures
        pid == described_pid(content@),
{
    proof {
        reveal_strlit("Pid:");
    }
    let all = lines_of(content);
    let ghost texts = lines(content@);
    let mut i: usize = 0;
    assert(texts.skip(0) == texts);
    while i < all.len()
        invariant
            i <= all.len(),
            texts == views(all@),
            "Pid:"@.len() == 4,
            pid_field(texts) == pid_field(texts.skip(i as int)),
        ensures
            i < all.len() ==> "Pid:"@.is_prefix_of(texts[i as int]),
            i <= all.len(),
            pid_field(texts) == pid_field(texts.skip(i as int)),
        decreases all.len() - i,
    {
        assert(texts[i as int] == all@[i as int]@);
        assert(texts.skip(i as int)[0] == texts[i as int]);
        if starts_with(all[i].as_str(), "Pid:") {
            break;
        }
        assert(texts.skip(i as int).skip(1) == texts.skip(i as int + 1));
        i += 1;
    }
    if i < all.len() {
        assert(texts[i as int] == all@[i as int]@);
        assert(texts.skip(i as int)[0] == texts[i as int]);
        let value = skip_chars(all[i].as_str(), 4);
        let digits = trim_text(value.as_str());
        match parse_i64(digits.as_str()) {
            Some(n) => if n > 0 && n <= 4294967295 {
                Some(n as u32)
            } else {
                None
            },
            None => None,
        }
    } else {
        assert(texts.skip(i as int) == Seq::<Seq<char>>::empty());
        None
    }
}

/// The process that two readings of its descriptor agree on.
pub open spec fn confirmed(before: Option<u32>, after: Option<u32>) -> Option<u32> {
    if before == after {
        before
    } else {
        None
    }
}

/// Whether what was opened under a process's number between two readings of
/// its descriptor belongs to that process: both readings name it. A number
/// that was given back in between would read as -1 from then on.
pub fn confirm_pid(before: Option<u32>, after: Option<u32>) -> (pid: Option<u32>)
    ensures
        pid == confirmed(before, after),
{
    match (before, after) {
        (Some(first), Some(second)) => if first == second {
            Some(first)
        } else {
            None
        },
        _ => None,
    }
}

/// What was read through the handle on a pinned caller.
#[derive(Debug)]
pub struct Pinned {
    pub pid: u32,
    pub uid: Result<u32, String>,
    pub info: InfoReading,
}

/// A caller that may be served.
#[derive(Debug, PartialEq, Eq)]
pub struct Caller {
    pub pid: u32,
    pub app_id: String,
}

/// The judgement on a caller: its process and application, or why it is not
/// served.
pub open spec fn caller_verdict(
    pinned: Result<Pinned, String>,
    euid: u32,
    allow_unsandboxed: bool,
) -> Result<(u32, Seq<char>), Refusal> {
    match pinned {
        Err(e) => Err(Refusal::AccessDenied("caller: "@ + e@)),
        Ok(found) => match found.uid {
            Err(e) => Err(Refusal::Failed("cannot read caller uid: "@ + e@)),
            Ok(uid) => if uid != euid {
                Err(
                    Refusal::AccessDenied(
                        "caller uid "@ + decimal(uid as nat) + " does not match session user"@,
                    ),
                )
            } else {
                match identity_in(found.info) {
                    Identification::Application(id) => Ok((found.pid, id)),
                    Identification::Unsandboxed => if allow_unsandboxed {
                        Ok((found.pid, "(unsandboxed)"@))
                    } else {
                        Err(Refusal::AccessDenied("caller is not a Flatpak application"@))
                    },
                    Identification::Unreadable(e) => Err(
                        Refusal::Failed(
                            "cannot inspect caller (pid "@ + decimal(found.pid as nat) + "): "@ + e,
                        ),
                    ),
                }
            },
        },
    }
}

/// Decides whether a pinned caller is served, and as whom. Only processes of
/// the session user are, and only sandboxed applications unless others are
/// explicitly allowed.
pub fn identify_caller(pinned: Result<Pinned, String>, euid: u32, allow_unsandboxed: bool) -> (caller:
    Result<Caller, BridgeError>)
    ensures
        match (caller, caller_verdict(pinned, euid, allow_unsandboxed)) {
            (Ok(found), Ok(due)) => found.pid == due.0 && found.app_id@ == due.1,
            (Err(e), Err(due)) => e@ == due,
            _ => false,
        },
{
    let found = match pinned {
        Err(e) => { return Err(BridgeError::AccessDenied(concat2("caller: ", e.as_str()))); },
        Ok(found) => found,
    };
    let pid: u32 = found.pid;
    match &found.uid {
        Err(e) => {
            return Err(BridgeError::Failed(concat2("cannot read caller uid: ", e.as_str())));
        },
        Ok(uid) => if *uid != euid {
            let number = decimal_text(*uid as u64);
            return Err(
                BridgeError::AccessDenied(
                    concat3("caller uid ", number.as_str(), " does not match session user"),
                ),
            );
        },
    }
    match app_id_of_pid(&found.info) {
        Ok(Some(app_id)) => Ok(Caller { pid, app_id }),
        Ok(None) => if allow_unsandboxed {
            Ok(Caller { pid, app_id: "(unsandboxed)".to_owned() })
        } else {
            Err(BridgeError::AccessDenied("caller is not a Flatpak application".to_owned()))
        },
        Err(e) => {
            let number = decimal_text(pid as u64);
            let start = concat3("cannot inspect caller (pid ", number.as_str(), "): ");
            Err(BridgeError::Failed(concat2(start.as_str(), e.as_str())))
        },
    }
}

/// A caller is served only if its user was read and is the session user, and
/// only as a sandboxed application unless others are allowed.
pub proof fn law_only_the_session_user_is_served(
    pinned: Result<Pinned, String>,
    euid: u32,
    allow_unsandboxed: bool,
)
    ensures
        caller_verdict(pinned, euid, allow_unsandboxed) is Ok ==> {
            &&& pinned matches Ok(found)
            &&& found.uid matches Ok(uid)
            &&& uid == euid
            &&& identity_in(found.info) is Application || (identity_in(found.info) is Unsandboxed
                && allow_unsandboxed)
        },
{
}

/// Where descriptors are insisted on, no caller is ever pinned by its number
/// alone; where the bus supplies a descriptor, insisting changes nothing.
pub proof fn law_require_pidfd(credentials: Result<Credentials, String>)
    ensures
        pin_verdict(credentials, true) is Ok ==> pin_verdict(credentials, true)
            == Ok::<Pin, Refusal>(Pin::ByDescriptor),
        (credentials matches Ok(found) && found.has_descriptor) ==> pin_verdict(credentials, true)
            == pin_verdict(credentials, false),
{
}

/// A descriptor whose process was reaped (its number reads as -1) never
/// confirms an identity.
pub proof fn law_a_reaped_process_is_nobody(content: Seq<char>)
    requires
        pid_field(lines(content)) == Some(-1int),
    ensures
        described_pid(content) is None,
{
}

} // verus!
