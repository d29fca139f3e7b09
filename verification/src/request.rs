//! A request to mount, from the first look at it to its answer.
//!
//! The mount helper resolves the mountpoint's path again when it runs, so a
//! caller that swaps a component of it at the right moment can steer the
//! mount elsewhere. What such a mount would be worth is taken away instead:
//! the helper hands the `/dev/fuse` descriptor to the daemon, and the
//! application gets it only once the mount is confirmed to be on the
//! approved directory. Otherwise the descriptor is closed, which leaves the
//! mount dead, and the mount is removed.
//!
//! A request is a sequence of stages. Each stage says what is to be done
//! next; what came of it is handed back as an event.
use vstd::prelude::*;

use crate::caller::Caller;
use crate::error::BridgeError;
#[allow(unused_imports)]
use crate::error::Refusal;
use crate::mountinfo::{find, fuse_keys, misplaced_candidates, new_connections, MountEntry};
#[allow(unused_imports)]
use crate::mountinfo::{
    connections_between, entries, fuse_keys_in, is_fuse, optional_entry, optional_views,
    stray_places, topmost, Entry,
};
use crate::path::same_path;
#[allow(unused_imports)]
use crate::path::same_place;
use crate::policy::{
    check_mountpoint, check_options, inside_allowed, mount_arguments, wants_auto_unmount, we_made,
    Liveness, Probe,
};
#[allow(unused_imports)]
use crate::policy::{
    asks_auto_unmount, died_among, helper_arguments, inside_any, is_first_fault, mountpoint_verdict,
    options_allowed,
};
use crate::registry::{Identity, MountRecord, Registry};
#[allow(unused_imports)]
use crate::registry::{
    claim_fault, orderly, still_there, with_claim, with_mount, without_claim, Books, MountIdentity, Record,
};
use crate::text::{concat2, concat3, copy_texts, starts_with, trim_text};
#[allow(unused_imports)]
use crate::text::{optional_text, trim, views};

verus! {

/// The program that performs the privileged step.
pub const FUSERMOUNT: &'static str = "/usr/bin/fusermount3";

/// How long to wait for the mount to appear after starting the helper, in
/// milliseconds.
pub const MOUNT_TIMEOUT: u64 = 15000;

/// How long after the helper's exit the mount may still appear.
pub const POST_EXIT_GRACE: u64 = 1000;

/// How often to look meanwhile.
pub const MOUNT_POLL: u64 = 50;

/// How long to wait for the helper to hand over the descriptor.
pub const FD_TIMEOUT: u64 = 5000;

/// How long to spend on looking at a mountpoint.
pub const RESOLVE_TIMEOUT: u64 = 5000;

/// How long to wait for a mount to say whether it is still connected. One
/// that was abandoned answers at once.
pub const LIVENESS_TIMEOUT: u64 = 500;

/// How long to keep looking for a mount that went astray. The helper can
/// still be attaching it, so one reading that shows nothing decides nothing.
pub const STRAY_WATCH: u64 = 2000;

/// How often to look meanwhile.
pub const STRAY_POLL: u64 = 25;

/// A request whose options were found acceptable.
pub struct MountRequest {
    caller: Caller,
    options: Vec<String>,
    mountpoint: String,
    roots: Vec<String>,
    euid: u32,
}

/// The same, as plain values.
pub ghost struct Asked {
    pub pid: u32,
    pub app_id: Seq<char>,
    pub options: Seq<Seq<char>>,
    pub mountpoint: Seq<char>,
    pub roots: Seq<Seq<char>>,
    pub euid: u32,
}

impl View for MountRequest {
    type V = Asked;

    closed spec fn view(&self) -> Asked {
        Asked {
            pid: self.caller.pid,
            app_id: self.caller.app_id@,
            options: views(self.options@),
            mountpoint: self.mountpoint@,
            roots: views(self.roots@),
            euid: self.euid,
        }
    }
}

/// What is known once a place was claimed and looked at.
#[derive(Debug)]
pub struct Ground {
    /// The approved directory.
    pub path: String,
    /// What the FUSE mounts of that moment are recognised by.
    pub before: Vec<String>,
    /// The FUSE connections of that moment, where they are published.
    pub connections: Option<Vec<String>>,
}

/// The same, as plain values.
pub ghost struct Known {
    pub path: Seq<char>,
    pub before: Seq<Seq<char>>,
    pub connections: Option<Seq<Seq<char>>>,
}

impl View for Ground {
    type V = Known;

    open spec fn view(&self) -> Known {
        Known {
            path: self.path@,
            before: views(self.before@),
            connections: optional_views(self.connections),
        }
    }
}

/// The helper's end: whether it was a success, and when it was noticed.
#[derive(Debug, Clone, Copy)]
pub struct Exit {
    pub success: bool,
    pub at: u64,
}

/// Why there is no mount to hand over.
#[derive(Debug)]
pub enum Failure {
    TimedOut,
    /// The approved directory is somewhere else now.
    Moved(String),
    NotMounted,
}

/// The same, as plain text.
pub ghost enum Fault {
    TimedOut,
    Moved(Seq<char>),
    NotMounted,
}

impl View for Failure {
    type V = Fault;

    open spec fn view(&self) -> Fault {
        match self {
            Failure::TimedOut => Fault::TimedOut,
            Failure::Moved(to) => Fault::Moved(to@),
            Failure::NotMounted => Fault::NotMounted,
        }
    }
}

/// What is to be done next.
#[derive(Debug)]
pub enum Stage {
    /// Look at the mountpoint and hold it open.
    Resolve,
    /// Claim the place in the registry.
    Claim { path: String },
    /// Read the mount table.
    Look { path: String },
    /// List the FUSE connections and read the mount table.
    Survey { path: String },
    /// Start the helper, with a socket of the daemon's own.
    Launch { ground: Ground },
    /// See whether the helper has ended, and read the mount table.
    Wait { ground: Ground, exit: Option<Exit> },
    /// Take the descriptor, list the connections, and see where the held
    /// directory is.
    Collect { ground: Ground, found: Option<MountEntry>, timed_out: bool },
    /// Send the descriptor to the application.
    HandOver { path: String, entry: MountEntry, unique: Option<u64> },
    /// Read the mount table, still holding the descriptor.
    Watch { path: String, before: Vec<String>, fresh: Option<Vec<String>>, failure: Failure },
    /// Ask these mounts whether they answer, still holding the descriptor.
    AskHeld { candidates: Vec<String>, failure: Failure },
    /// Drop the descriptor, and ask again.
    LetGo { candidates: Vec<String>, was: Vec<Liveness>, failure: Failure },
    /// Remove these mounts.
    Remove { places: Vec<String>, failure: Failure },
    /// Drop the descriptor, and remove the mount at the approved directory.
    Revert { path: String, failure: Failure },
    /// End the helper and read what it complained about.
    Complain { failure: Failure, left_behind: Vec<String> },
    /// Drop the descriptor, remove the mount and end the helper.
    TakeBack { path: String, error: String },
    /// Answer that it is mounted: record it, and watch over the application
    /// where that was asked for.
    Mounted { record: MountRecord, watch: bool },
    /// Answer that it is not.
    Refused { answer: BridgeError, left_behind: Vec<String> },
}

/// The same, as plain values.
pub ghost enum Phase {
    Resolve,
    Claim { path: Seq<char> },
    Look { path: Seq<char> },
    Survey { path: Seq<char> },
    Launch { ground: Known },
    Wait { ground: Known, exit: Option<Exit> },
    Collect { ground: Known, found: Option<Entry>, timed_out: bool },
    HandOver { path: Seq<char>, entry: Entry, unique: Option<u64> },
    Watch {
        path: Seq<char>,
        before: Seq<Seq<char>>,
        fresh: Option<Seq<Seq<char>>>,
        failure: Fault,
    },
    AskHeld { candidates: Seq<Seq<char>>, failure: Fault },
    LetGo { candidates: Seq<Seq<char>>, was: Seq<Liveness>, failure: Fault },
    Remove { places: Seq<Seq<char>>, failure: Fault },
    Revert { path: Seq<char>, failure: Fault },
    Complain { failure: Fault, left_behind: Seq<Seq<char>> },
    TakeBack { path: Seq<char>, error: Seq<char> },
    Mounted { record: Record, watch: bool },
    Refused { answer: Refusal, left_behind: Seq<Seq<char>> },
}

impl View for Stage {
    type V = Phase;

    open spec fn view(&self) -> Phase {
        match self {
            Stage::Resolve => Phase::Resolve,
            Stage::Claim { path } => Phase::Claim { path: path@ },
            Stage::Look { path } => Phase::Look { path: path@ },
            Stage::Survey { path } => Phase::Survey { path: path@ },
            Stage::Launch { ground } => Phase::Launch { ground: ground@ },
            Stage::Wait { ground, exit } => Phase::Wait { ground: ground@, exit: *exit },
            Stage::Collect { ground, found, timed_out } => Phase::Collect {
                ground: ground@,
                found: optional_entry(*found),
                timed_out: *timed_out,
            },
            Stage::HandOver { path, entry, unique } => Phase::HandOver {
                path: path@,
                entry: entry@,
                unique: *unique,
            },
            Stage::Watch { path, before, fresh, failure } => Phase::Watch {
                path: path@,
                before: views(before@),
                fresh: optional_views(*fresh),
                failure: failure@,
            },
            Stage::AskHeld { candidates, failure } => Phase::AskHeld {
                candidates: views(candidates@),
                failure: failure@,
            },
            Stage::LetGo { candidates, was, failure } => Phase::LetGo {
                candidates: views(candidates@),
                was: was@,
                failure: failure@,
            },
            Stage::Remove { places, failure } => Phase::Remove {
                places: views(places@),
                failure: failure@,
            },
            Stage::Revert { path, failure } => Phase::Revert { path: path@, failure: failure@ },
            Stage::Complain { failure, left_behind } => Phase::Complain {
                failure: failure@,
                left_behind: views(left_behind@),
            },
            Stage::TakeBack { path, error } => Phase::TakeBack { path: path@, error: error@ },
            Stage::Mounted { record, watch } => Phase::Mounted { record: record@, watch: *watch },
            Stage::Refused { answer, left_behind } => Phase::Refused {
                answer: answer@,
                left_behind: views(left_behind@),
            },
        }
    }
}

/// Why the helper could not be started.
#[derive(Debug)]
pub enum LaunchFault {
    SocketPair(String),
    SocketTimeout(String),
    Spawn(String),
}

/// What came of what a stage asked for. Times are in milliseconds since the
/// stage was first entered.
#[derive(Debug)]
pub enum Event {
    Probed(Probe),
    Claimed(Result<(), String>),
    TableRead(Result<Vec<MountEntry>, String>),
    Surveyed { connections: Option<Vec<String>>, table: Result<Vec<MountEntry>, String> },
    Launched(Result<(), LaunchFault>),
    /// `exit` tells whether the helper succeeded, once it has ended.
    Waited { exit: Option<bool>, elapsed: u64, table: Result<Vec<MountEntry>, String> },
    Collected {
        held: bool,
        connections: Option<Vec<String>>,
        landed: Option<String>,
        unique: Option<u64>,
    },
    Watched { elapsed: u64, table: Result<Vec<MountEntry>, String> },
    Answered(Vec<Liveness>),
    /// The mounts that could not be removed.
    Removed(Vec<String>),
    Reverted,
    Complained(String),
    Sent(Result<(), String>),
}

/// A refusal that leaves nothing behind.
pub open spec fn refused(answer: Refusal) -> Phase {
    Phase::Refused { answer, left_behind: Seq::empty() }
}

/// The answer when the mount table cannot be read.
pub open spec fn unreadable_table(e: Seq<char>) -> Refusal {
    Refusal::Failed("cannot read mountinfo: "@ + e)
}

/// The answer when the helper could not be started.
pub open spec fn launch_refusal(fault: LaunchFault) -> Refusal {
    match fault {
        LaunchFault::SocketPair(e) => Refusal::Failed("cannot create a socket pair: "@ + e@),
        LaunchFault::SocketTimeout(e) => Refusal::Failed("cannot set a socket timeout: "@ + e@),
        LaunchFault::Spawn(e) => Refusal::Failed("cannot run "@ + FUSERMOUNT@ + ": "@ + e@),
    }
}

/// What is known of the helper's end after one more look.
pub open spec fn exit_noticed(exit: Option<Exit>, now: Option<bool>, elapsed: u64) -> Option<Exit> {
    match (exit, now) {
        (None, Some(success)) => Some(Exit { success, at: elapsed }),
        _ => exit,
    }
}

/// Whether there is no point in waiting on: the helper has failed, or has
/// been gone for too long.
pub open spec fn helper_is_done(exit: Option<Exit>, elapsed: u64) -> bool {
    exit matches Some(e) && (!e.success || elapsed > e.at + POST_EXIT_GRACE)
}

/// Whether the helper has had long enough.
pub open spec fn helper_is_late(exit: Option<Exit>, elapsed: u64) -> bool {
    exit is None && elapsed > MOUNT_TIMEOUT
}

/// What follows a look at the mount table while waiting.
pub open spec fn after_wait(
    ground: Known,
    exit: Option<Exit>,
    elapsed: u64,
    table: Seq<Entry>,
) -> Phase {
    let entry = topmost(table, ground.path);
    if entry is Some || helper_is_done(exit, elapsed) {
        Phase::Collect { ground, found: entry, timed_out: false }
    } else if helper_is_late(exit, elapsed) {
        Phase::Collect { ground, found: entry, timed_out: true }
    } else {
        Phase::Wait { ground, exit }
    }
}

/// Whether a mount may be handed to the application: it is a FUSE mount on
/// the approved directory, that directory is still where it was approved and
/// is allowed, and the daemon holds the mount's descriptor.
pub open spec fn verified(
    entry: Option<Entry>,
    landed: Option<Seq<char>>,
    path: Seq<char>,
    roots: Seq<Seq<char>>,
    held: bool,
) -> bool {
    &&& entry matches Some(e) && is_fuse(e.fstype)
    &&& landed matches Some(l) && same_place(l, path)
    &&& inside_any(path, roots)
    &&& held
}

/// Why a mount that was not confirmed is not there.
pub open spec fn failure_of(timed_out: bool, landed: Option<Seq<char>>, path: Seq<char>) -> Fault {
    if timed_out {
        Fault::TimedOut
    } else {
        match landed {
            Some(l) => if same_place(l, path) {
                Fault::NotMounted
            } else {
                Fault::Moved(l)
            },
            None => Fault::NotMounted,
        }
    }
}

/// What follows once it is known what the helper did. Only when nothing
/// appeared on the approved directory can a mount have gone astray.
pub open spec fn after_collect(
    roots: Seq<Seq<char>>,
    ground: Known,
    entry: Option<Entry>,
    timed_out: bool,
    held: bool,
    connections: Option<Seq<Seq<char>>>,
    landed: Option<Seq<char>>,
    unique: Option<u64>,
) -> Phase {
    let failure = failure_of(timed_out, landed, ground.path);
    if verified(entry, landed, ground.path, roots, held) {
        Phase::HandOver { path: ground.path, entry: entry->0, unique }
    } else if entry is None {
        Phase::Watch {
            path: ground.path,
            before: ground.before,
            fresh: connections_between(ground.connections, connections),
            failure,
        }
    } else {
        Phase::Revert { path: ground.path, failure }
    }
}

/// The mounts that may have gone astray according to a reading; one that
/// failed shows none.
pub open spec fn strays_in(
    table: Result<Vec<MountEntry>, String>,
    path: Seq<char>,
    before: Seq<Seq<char>>,
    fresh: Option<Seq<Seq<char>>>,
) -> Seq<Seq<char>> {
    match table {
        Ok(t) => stray_places(entries(t@), path, before, fresh),
        Err(_) => Seq::empty(),
    }
}

/// The candidates that have an answer. One that was not asked while the
/// descriptor was held cannot be told from a stranger's mount afterwards.
pub open spec fn with_answer(candidates: Seq<Seq<char>>, answers: Seq<Liveness>) -> Seq<Seq<char>> {
    if answers.len() < candidates.len() {
        candidates.take(answers.len() as int)
    } else {
        candidates
    }
}

/// The words for a failure, given what the helper complained about.
pub open spec fn failure_reason(failure: Fault, complaint: Seq<char>) -> Seq<char> {
    match failure {
        Fault::TimedOut => "timed out waiting for the mount to appear"@,
        Fault::Moved(to) => "the mountpoint moved to '"@ + to + "' during the mount"@,
        Fault::NotMounted => "fusermount3 did not mount: "@ + trim(complaint),
    }
}

/// The stage that follows an event. An event that a stage did not ask for
/// changes nothing.
pub open spec fn next_phase(asked: Asked, phase: Phase, event: Event) -> Phase {
    match (phase, event) {
        (Phase::Resolve, Event::Probed(probe)) => match mountpoint_verdict(
            asked.mountpoint,
            probe,
            asked.euid,
            asked.roots,
        ) {
            Ok(path) => Phase::Claim { path },
            Err(reason) => refused(Refusal::AccessDenied(reason)),
        },
        (Phase::Claim { path }, Event::Claimed(claim)) => match claim {
            Ok(()) => Phase::Look { path },
            Err(reason) => refused(Refusal::AccessDenied(reason@)),
        },
        (Phase::Look { path }, Event::TableRead(table)) => match table {
            Ok(t) => if topmost(entries(t@), path) is Some {
                refused(Refusal::AccessDenied("'"@ + path + "' is already a mountpoint"@))
            } else {
                Phase::Survey { path }
            },
            Err(e) => refused(unreadable_table(e@)),
        },
        (Phase::Survey { path }, Event::Surveyed { connections, table }) => match table {
            Ok(t) => Phase::Launch {
                ground: Known {
                    path,
                    before: fuse_keys_in(entries(t@)),
                    connections: optional_views(connections),
                },
            },
            Err(e) => refused(unreadable_table(e@)),
        },
        (Phase::Launch { ground }, Event::Launched(outcome)) => match outcome {
            Ok(()) => Phase::Wait { ground, exit: None },
            Err(fault) => refused(launch_refusal(fault)),
        },
        (Phase::Wait { ground, exit }, Event::Waited { exit: now, elapsed, table }) => match table {
            Ok(t) => after_wait(ground, exit_noticed(exit, now, elapsed), elapsed, entries(t@)),
            Err(e) => refused(unreadable_table(e@)),
        },
        (
            Phase::Collect { ground, found: entry, timed_out },
            Event::Collected { held, connections, landed, unique },
        ) => after_collect(
            asked.roots,
            ground,
            entry,
            timed_out,
            held,
            optional_views(connections),
            optional_text(landed),
            unique,
        ),
        (Phase::HandOver { path, entry, unique }, Event::Sent(outcome)) => match outcome {
            Ok(()) => Phase::Mounted {
                record: Record {
                    path,
                    app_id: asked.app_id,
                    fstype: entry.fstype,
                    source: entry.source,
                    identity: MountIdentity { unique, id: entry.id },
                },
                watch: asks_auto_unmount(asked.options),
            },
            Err(e) => Phase::TakeBack { path, error: e@ },
        },
        (Phase::Watch { path, before, fresh, failure }, Event::Watched { elapsed, table }) => {
            let candidates = strays_in(table, path, before, fresh);
            if candidates.len() > 0 || elapsed >= STRAY_WATCH {
                Phase::AskHeld { candidates, failure }
            } else {
                phase
            }
        },
        (Phase::AskHeld { candidates, failure }, Event::Answered(was)) => Phase::LetGo {
            candidates: with_answer(candidates, was@),
            was: was@,
            failure,
        },
        (Phase::LetGo { candidates, was, failure }, Event::Answered(now)) => Phase::Remove {
            places: died_among(candidates, was, now@),
            failure,
        },
        (Phase::Remove { places, failure }, Event::Removed(left)) => Phase::Complain {
            failure,
            left_behind: views(left@),
        },
        (Phase::Revert { path, failure }, Event::Reverted) => Phase::Complain {
            failure,
            left_behind: Seq::empty(),
        },
        (Phase::Complain { failure, left_behind }, Event::Complained(complaint)) => Phase::Refused {
            answer: Refusal::Failed(failure_reason(failure, complaint@)),
            left_behind,
        },
        (Phase::TakeBack { path, error }, Event::Reverted) => refused(
            Refusal::Failed("cannot hand over the fuse descriptor: "@ + error),
        ),
        _ => phase,
    }
}

/// A request as it is taken in.
pub open spec fn taken_in(
    caller: Caller,
    options: Seq<Seq<char>>,
    mountpoint: Seq<char>,
    roots: Seq<Seq<char>>,
    euid: u32,
) -> Asked {
    Asked { pid: caller.pid, app_id: caller.app_id@, options, mountpoint, roots, euid }
}

/// What comes of claiming a place after a sweep, and the books afterwards.
pub open spec fn claim_outcome(
    books: Books,
    app_id: Seq<char>,
    path: Seq<char>,
    first: Result<Vec<MountEntry>, String>,
    second: Result<Vec<MountEntry>, String>,
    max: nat,
) -> (Result<(), Seq<char>>, Books) {
    let swept = Books { mounts: still_there(books.mounts, first, second), claims: books.claims };
    match claim_fault(swept, path, app_id, max) {
        None => (Ok(()), with_claim(swept, path, app_id)),
        Some(fault) => (Err(fault), swept),
    }
}

/// The answer that a request ends with. One that has none yet is given up.
pub open spec fn final_answer(phase: Phase) -> Result<(), Refusal> {
    match phase {
        Phase::Mounted { record, watch } => Ok(()),
        Phase::Refused { answer, left_behind } => Err(answer),
        _ => Err(Refusal::Failed("the request was given up"@)),
    }
}

/// Refuses, leaving nothing behind.
fn refuse(answer: BridgeError) -> (stage: Stage)
    ensures
        stage@ == refused(answer@),
{
    let left_behind: Vec<String> = Vec::new();
    assert(views(left_behind@) == Seq::<Seq<char>>::empty());
    Stage::Refused { answer, left_behind }
}

fn refuse_unreadable(e: &str) -> (stage: Stage)
    ensures
        stage@ == refused(unreadable_table(e@)),
{
    refuse(BridgeError::Failed(concat2("cannot read mountinfo: ", e)))
}

fn refuse_launch(fault: LaunchFault) -> (stage: Stage)
    ensures
        stage@ == refused(launch_refusal(fault)),
{
    let reason = match fault {
        LaunchFault::SocketPair(e) => concat2("cannot create a socket pair: ", e.as_str()),
        LaunchFault::SocketTimeout(e) => concat2("cannot set a socket timeout: ", e.as_str()),
        LaunchFault::Spawn(e) => {
            let start = concat3("cannot run ", FUSERMOUNT, ": ");
            concat2(start.as_str(), e.as_str())
        },
    };
    refuse(BridgeError::Failed(reason))
}

fn wait_on(
    ground: Ground,
    exit: Option<Exit>,
    elapsed: u64,
    table: &Vec<MountEntry>,
) -> (stage: Stage)
    ensures
        stage@ == after_wait(ground@, exit, elapsed, entries(table@)),
{
    let entry = find(table, ground.path.as_str());
    let done = match exit {
        Some(e) => !e.success || (elapsed > e.at && elapsed - e.at > POST_EXIT_GRACE),
        None => false,
    };
    let late = match exit {
        Some(_) => false,
        None => elapsed > MOUNT_TIMEOUT,
    };
    if entry.is_some() || done {
        Stage::Collect { ground, found: entry, timed_out: false }
    } else if late {
        Stage::Collect { ground, found: entry, timed_out: true }
    } else {
        Stage::Wait { ground, exit }
    }
}

/// Whether a mount may be handed to the application.
pub fn is_verified(
    entry: &Option<MountEntry>,
    landed: &Option<String>,
    path: &str,
    roots: &[String],
    held: bool,
) -> (yes: bool)
    ensures
        yes == verified(
            optional_entry(*entry),
            optional_text(*landed),
            path@,
            views(roots@),
            held,
        ),
{
    let is_fuse_mount = match entry {
        Some(e) => starts_with(e.fstype.as_str(), "fuse"),
        None => false,
    };
    let is_in_place = match landed {
        Some(l) => same_path(l.as_str(), path),
        None => false,
    };
    is_fuse_mount && is_in_place && inside_allowed(path, roots) && held
}

fn why_not(timed_out: bool, landed: &Option<String>, path: &str) -> (failure: Failure)
    ensures
        failure@ == failure_of(timed_out, optional_text(*landed), path@),
{
    if timed_out {
        return Failure::TimedOut;
    }
    match landed {
        Some(l) => if same_path(l.as_str(), path) {
            Failure::NotMounted
        } else {
            Failure::Moved(l.clone())
        },
        None => Failure::NotMounted,
    }
}

fn words_for(failure: &Failure, complaint: &str) -> (reason: String)
    ensures
        reason@ == failure_reason(failure@, complaint@),
{
    match failure {
        Failure::TimedOut => "timed out waiting for the mount to appear".to_owned(),
        Failure::Moved(to) => concat3(
            "the mountpoint moved to '",
            to.as_str(),
            "' during the mount",
        ),
        Failure::NotMounted => {
            let words = trim_text(complaint);
            concat2("fusermount3 did not mount: ", words.as_str())
        },
    }
}

impl MountRequest {
    /// Takes a request in. Options that must not reach the helper are
    /// refused before anything else is looked at.
    pub fn new(
        caller: Caller,
        options: Vec<String>,
        mountpoint: String,
        roots: &[String],
        euid: u32,
    ) -> (request: Result<MountRequest, BridgeError>)
        ensures
            match request {
                Ok(r) => {
                    &&& options_allowed(views(options@))
                    &&& r@ == taken_in(
                        caller,
                        views(options@),
                        mountpoint@,
                        views(roots@),
                        euid,
                    )
                },
                Err(e) => e@ matches Refusal::AccessDenied(reason) && is_first_fault(
                    views(options@),
                    reason,
                ),
            },
    {
        match check_options(options.as_slice()) {
            Err(reason) => Err(BridgeError::AccessDenied(reason)),
            Ok(()) => Ok(
                MountRequest { caller, options, mountpoint, roots: copy_texts(roots), euid },
            ),
        }
    }

    /// The arguments to start the helper with.
    pub fn helper_args(&self) -> (arguments: Vec<String>)
        ensures
            views(arguments@) == helper_arguments(self@.options),
    {
        mount_arguments(self.options.as_slice())
    }

    fn collect(
        &self,
        ground: Ground,
        entry: Option<MountEntry>,
        timed_out: bool,
        held: bool,
        connections: Option<Vec<String>>,
        landed: Option<String>,
        unique: Option<u64>,
    ) -> (stage: Stage)
        ensures
            stage@ == after_collect(
                self@.roots,
                ground@,
                optional_entry(entry),
                timed_out,
                held,
                optional_views(connections),
                optional_text(landed),
                unique,
            ),
    {
        let failure = why_not(timed_out, &landed, ground.path.as_str());
        let good = is_verified(
            &entry,
            &landed,
            ground.path.as_str(),
            self.roots.as_slice(),
            held,
        );
        match entry {
            Some(e) => if good {
                Stage::HandOver { path: ground.path, entry: e, unique }
            } else {
                Stage::Revert { path: ground.path, failure }
            },
            None => {
                let fresh = new_connections(&ground.connections, &connections);
                Stage::Watch { path: ground.path, before: ground.before, fresh, failure }
            },
        }
    }

    /// Claims a place for this request, after forgetting mounts that two
    /// readings of the table agree are gone.
    pub fn claim(
        &self,
        registry: &mut Registry,
        path: &str,
        first: &Result<Vec<MountEntry>, String>,
        second: &Result<Vec<MountEntry>, String>,
        max_mounts: usize,
    ) -> (event: Event)
        ensures
            ({
                let due = claim_outcome(
                    old(registry)@,
                    self@.app_id,
                    path@,
                    *first,
                    *second,
                    max_mounts as nat,
                );
                &&& match due.0 {
                    Ok(()) => event == Event::Claimed(Ok(())),
                    Err(fault) => event matches Event::Claimed(Err(reason)) && reason@ == fault,
                }
                &&& final(registry)@ == due.1
            }),
            orderly(final(registry)@),
    {
        registry.sweep_stale(first, second);
        let ghost swept = Books {
            mounts: still_there(old(registry)@.mounts, *first, *second),
            claims: old(registry)@.claims,
        };
        assert(registry@ == swept);
        let outcome = registry.reserve(path, self.caller.app_id.as_str(), max_mounts);
        match outcome {
            Ok(()) => Event::Claimed(Ok(())),
            Err(reason) => Event::Claimed(Err(reason)),
        }
    }

    /// Goes on to the next stage.
    pub fn advance(&self, stage: Stage, event: Event) -> (next: Stage)
        ensures
            next@ == next_phase(self@, stage@, event),
    {
        match stage {
            Stage::Resolve => match event {
                Event::Probed(probe) => match check_mountpoint(
                    self.mountpoint.as_str(),
                    &probe,
                    self.euid,
                    self.roots.as_slice(),
                ) {
                    Ok(path) => Stage::Claim { path },
                    Err(reason) => refuse(BridgeError::AccessDenied(reason)),
                },
                _ => Stage::Resolve,
            },
            Stage::Claim { path } => match event {
                Event::Claimed(Ok(())) => Stage::Look { path },
                Event::Claimed(Err(reason)) => refuse(BridgeError::AccessDenied(reason)),
                _ => Stage::Claim { path },
            },
            Stage::Look { path } => match event {
                Event::TableRead(Ok(table)) => if find(&table, path.as_str()).is_some() {
                    refuse(
                        BridgeError::AccessDenied(
                            concat3("'", path.as_str(), "' is already a mountpoint"),
                        ),
                    )
                } else {
                    Stage::Survey { path }
                },
                Event::TableRead(Err(e)) => refuse_unreadable(e.as_str()),
                _ => Stage::Look { path },
            },
            Stage::Survey { path } => match event {
                Event::Surveyed { connections, table: Ok(table) } => Stage::Launch {
                    ground: Ground { path, before: fuse_keys(&table), connections },
                },
                Event::Surveyed { connections: _, table: Err(e) } => refuse_unreadable(e.as_str()),
                _ => Stage::Survey { path },
            },
            Stage::Launch { ground } => match event {
                Event::Launched(Ok(())) => Stage::Wait { ground, exit: None },
                Event::Launched(Err(fault)) => refuse_launch(fault),
                _ => Stage::Launch { ground },
            },
            Stage::Wait { ground, exit } => match event {
                Event::Waited { exit: now, elapsed, table: Ok(table) } => {
                    let noticed = match (exit, now) {
                        (None, Some(success)) => Some(Exit { success, at: elapsed }),
                        _ => exit,
                    };
                    wait_on(ground, noticed, elapsed, &table)
                },
                Event::Waited { exit: _, elapsed: _, table: Err(e) } => refuse_unreadable(
                    e.as_str(),
                ),
                _ => Stage::Wait { ground, exit },
            },
            Stage::Collect { ground, found: entry, timed_out } => match event {
                Event::Collected { held, connections, landed, unique } => self.collect(
                    ground,
                    entry,
                    timed_out,
                    held,
                    connections,
                    landed,
                    unique,
                ),
                _ => Stage::Collect { ground, found: entry, timed_out },
            },
            Stage::HandOver { path, entry, unique } => match event {
                Event::Sent(Ok(())) => Stage::Mounted {
                    record: MountRecord {
                        path,
                        app_id: self.caller.app_id.clone(),
                        fstype: entry.fstype,
                        source: entry.source,
                        identity: Identity { unique, id: entry.id },
                    },
                    watch: wants_auto_unmount(self.options.as_slice()),
                },
                Event::Sent(Err(error)) => Stage::TakeBack { path, error },
                _ => Stage::HandOver { path, entry, unique },
            },
            Stage::Watch { path, before, fresh, failure } => match event {
                Event::Watched { elapsed, table } => {
                    let candidates = match &table {
                        Ok(t) => misplaced_candidates(t, &before, &fresh, path.as_str()),
                        Err(_) => Vec::new(),
                    };
                    assert(views(candidates@) == strays_in(
                        table,
                        path@,
                        views(before@),
                        optional_views(fresh),
                    ));
                    assert(views(candidates@).len() == candidates.len());
                    if candidates.len() > 0 || elapsed >= STRAY_WATCH {
                        Stage::AskHeld { candidates, failure }
                    } else {
                        Stage::Watch { path, before, fresh, failure }
                    }
                },
                _ => Stage::Watch { path, before, fresh, failure },
            },
            Stage::AskHeld { candidates, failure } => match event {
                Event::Answered(was) => {
                    let mut candidates = candidates;
                    let ghost all = candidates@;
                    candidates.truncate(was.len());
                    assert(views(candidates@) =~= with_answer(views(all), was@));
                    Stage::LetGo { candidates, was, failure }
                },
                _ => Stage::AskHeld { candidates, failure },
            },
            Stage::LetGo { candidates, was, failure } => match event {
                Event::Answered(now) => Stage::Remove {
                    places: we_made(&candidates, &was, &now),
                    failure,
                },
                _ => Stage::LetGo { candidates, was, failure },
            },
            Stage::Remove { places, failure } => match event {
                Event::Removed(left_behind) => Stage::Complain { failure, left_behind },
                _ => Stage::Remove { places, failure },
            },
            Stage::Revert { path, failure } => match event {
                Event::Reverted => {
                    let left_behind: Vec<String> = Vec::new();
                    assert(views(left_behind@) == Seq::<Seq<char>>::empty());
                    Stage::Complain { failure, left_behind }
                },
                _ => Stage::Revert { path, failure },
            },
            Stage::Complain { failure, left_behind } => match event {
                Event::Complained(complaint) => Stage::Refused {
                    answer: BridgeError::Failed(words_for(&failure, complaint.as_str())),
                    left_behind,
                },
                _ => Stage::Complain { failure, left_behind },
            },
            Stage::TakeBack { path, error } => match event {
                Event::Reverted => refuse(
                    BridgeError::Failed(
                        concat2("cannot hand over the fuse descriptor: ", error.as_str()),
                    ),
                ),
                _ => Stage::TakeBack { path, error },
            },
            Stage::Mounted { record, watch } => Stage::Mounted { record, watch },
            Stage::Refused { answer, left_behind } => Stage::Refused { answer, left_behind },
        }
    }
}

/// The books after a request: a mount is recorded in place of the claim on
/// its place, and a refused request gives up the claim it had.
pub open spec fn concluded(books: Books, phase: Phase, claim: Option<Seq<char>>) -> Books {
    match phase {
        Phase::Mounted { record, watch } => with_mount(books, record),
        _ => match claim {
            Some(path) => without_claim(books, path),
            None => books,
        },
    }
}

/// Ends a request, however it ended, and gives its answer. `claim` is the
/// place that it had claimed, if it got that far. A request that has no
/// answer yet is given up.
pub fn conclude(stage: Stage, claim: &Option<String>, registry: &mut Registry) -> (result: Result<
    (),
    BridgeError,
>)
    ensures
        final(registry)@ == concluded(old(registry)@, stage@, optional_text(*claim)),
        crate::error::answer(result) == final_answer(stage@),
        orderly(final(registry)@),
{
    proof {
        use_type_invariant(&*registry);
    }
    match stage {
        Stage::Mounted { record, watch: _ } => {
            registry.record(record);
            Ok(())
        },
        Stage::Refused { answer, left_behind: _ } => {
            if let Some(path) = claim {
                registry.release(path.as_str());
            }
            Err(answer)
        },
        _ => {
            if let Some(path) = claim {
                registry.release(path.as_str());
            }
            Err(BridgeError::Failed("the request was given up".to_owned()))
        },
    }
}

} // verus!
