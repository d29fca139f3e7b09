//! What a mount request comes to, stated of what the rest of the system
//! answers: which answers lead to a mount, and which to what refusal.
use vstd::prelude::*;

#[allow(unused_imports)]
use crate::caller::Caller;
#[allow(unused_imports)]
use crate::error::{BridgeError, Refusal};
#[allow(unused_imports)]
use crate::mountinfo::{
    connections_between, entries, fuse_keys_in, optional_entry, optional_views, topmost,
    stray_places, Entry, MountEntry,
};
#[allow(unused_imports)]
use crate::path::{same_place, strictly_inside};
#[allow(unused_imports)]
use crate::policy::{died_among, inside_any, mountpoint_verdict, option_key, Liveness, Probe};
#[allow(unused_imports)]
use crate::policy_laws::law_below_any_root_is_allowed;
#[allow(unused_imports)]
use crate::registry::{
    claim_fault, still_there, with_claim, with_mount, without_claim, Books, MountRecord, Record,
};
#[allow(unused_imports)]
use crate::request::{
    claim_outcome, concluded, failure_of, failure_reason, final_answer, next_phase, taken_in,
    verified, Asked, Event, Exit, Failure, Fault, Ground, Known, LaunchFault, Phase, Stage,
    FD_TIMEOUT, LIVENESS_TIMEOUT, MOUNT_POLL, RESOLVE_TIMEOUT, STRAY_POLL,
};
#[allow(unused_imports)]
use crate::table_laws::law_fuse_types_start_with_fuse;
#[allow(unused_imports)]
use crate::text::{optional_text, trim, views};

verus! {

/// Whether a filesystem type starts with the letters `fuse`.
pub open spec fn starts_with_fuse(fstype: Seq<char>) -> bool {
    fstype.len() >= 4 && fstype[0] == 'f' && fstype[1] == 'u' && fstype[2] == 's' && fstype[3] == 'e'
}

/// Whether a mount that appeared may go to the application: its type starts
/// with `fuse`, the held directory is where it was approved, that place lies
/// below a root, and the daemon holds the descriptor.
pub open spec fn may_go_to_application(
    roots: Seq<Seq<char>>,
    path: Seq<char>,
    entry: Entry,
    landed: Option<Seq<char>>,
    held: bool,
) -> bool {
    &&& starts_with_fuse(entry.fstype)
    &&& landed matches Some(l) && same_place(l, path)
    &&& exists|root: Seq<char>| roots.contains(root) && #[trigger] strictly_inside(path, root)
    &&& held
}

/// A mount on the approved directory goes to the application exactly if it
/// may: a FUSE mount of any type whose name starts with those letters, in
/// place, allowed and held, is handed over, and any other is taken down.
pub proof fn law_confirmed_mounts_are_handed_over(
    asked: Asked,
    ground: Known,
    entry: Entry,
    timed_out: bool,
    held: bool,
    connections: Option<Vec<String>>,
    landed: Option<String>,
    unique: Option<u64>,
)
    ensures
        ({
            let next = next_phase(
                asked,
                Phase::Collect { ground, found: Some(entry), timed_out },
                Event::Collected { held, connections, landed, unique },
            );
            if may_go_to_application(asked.roots, ground.path, entry, optional_text(landed), held) {
                next == (Phase::HandOver { path: ground.path, entry, unique })
            } else {
                next == (Phase::Revert {
                    path: ground.path,
                    failure: failure_of(timed_out, optional_text(landed), ground.path),
                })
            }
        }),
        verified(Some(entry), optional_text(landed), ground.path, asked.roots, held)
            <==> may_go_to_application(
            asked.roots,
            ground.path,
            entry,
            optional_text(landed),
            held,
        ),
        !verified(None, optional_text(landed), ground.path, asked.roots, held),
{
    law_fuse_types_start_with_fuse(entry.fstype);
    if inside_any(ground.path, asked.roots) {
        law_below_any_root_is_allowed(ground.path, asked.roots, ground.path);
    }
    if exists|root: Seq<char>|
        asked.roots.contains(root) && #[trigger] strictly_inside(ground.path, root) {
        let root = choose|root: Seq<char>|
            asked.roots.contains(root) && #[trigger] strictly_inside(ground.path, root);
        law_below_any_root_is_allowed(ground.path, asked.roots, root);
    }
}

/// Where nothing appeared on the approved directory, strays are looked for:
/// mounts that were not there before, on connections that came since.
pub proof fn law_missing_mounts_are_looked_for(
    asked: Asked,
    ground: Known,
    timed_out: bool,
    held: bool,
    connections: Option<Vec<String>>,
    landed: Option<String>,
    unique: Option<u64>,
)
    ensures
        next_phase(
            asked,
            Phase::Collect { ground, found: None, timed_out },
            Event::Collected { held, connections, landed, unique },
        ) == (Phase::Watch {
            path: ground.path,
            before: ground.before,
            fresh: connections_between(ground.connections, optional_views(connections)),
            failure: failure_of(timed_out, optional_text(landed), ground.path),
        }),
{
}

/// What went wrong is told apart: the time was over, the directory was moved
/// away, or the helper did not mount.
pub proof fn law_failures_are_told_apart(path: Seq<char>, landed: Seq<char>)
    ensures
        failure_of(true, Some(landed), path) == Fault::TimedOut,
        failure_of(true, None, path) == Fault::TimedOut,
        failure_of(false, None, path) == Fault::NotMounted,
        same_place(landed, path) ==> failure_of(false, Some(landed), path) == Fault::NotMounted,
        !same_place(landed, path) ==> failure_of(false, Some(landed), path) == Fault::Moved(landed),
{
}

/// And each is answered in its own words.
pub proof fn law_failures_have_their_words(to: Seq<char>, complaint: Seq<char>)
    ensures
        failure_reason(Fault::TimedOut, complaint) == "timed out waiting for the mount to appear"@,
        failure_reason(Fault::Moved(to), complaint) == "the mountpoint moved to '"@ + to
            + "' during the mount"@,
        failure_reason(Fault::NotMounted, complaint) == "fusermount3 did not mount: "@ + trim(
            complaint,
        ),
{
}

/// While the helper runs, the mount is waited for until it appears, until the
/// helper fails, for a second after it ends, and for fifteen seconds where it
/// does not end.
pub proof fn law_how_long_the_mount_is_waited_for(
    asked: Asked,
    ground: Known,
    at: u64,
    success: bool,
    elapsed: u64,
    table: Vec<MountEntry>,
)
    ensures
        ({
            let entry = topmost(entries(table@), ground.path);
            let running = next_phase(
                asked,
                Phase::Wait { ground, exit: None },
                Event::Waited { exit: None, elapsed, table: Ok(table) },
            );
            let ending = next_phase(
                asked,
                Phase::Wait { ground, exit: None },
                Event::Waited { exit: Some(success), elapsed, table: Ok(table) },
            );
            let ended = |now: Option<bool>|
                next_phase(
                    asked,
                    Phase::Wait { ground, exit: Some(Exit { success: true, at }) },
                    Event::Waited { exit: now, elapsed, table: Ok(table) },
                );
            &&& running == (if entry is None && elapsed <= 15000 {
                Phase::Wait { ground, exit: None }
            } else {
                Phase::Collect { ground, found: entry, timed_out: entry is None }
            })
            &&& ending == (if entry is None && success {
                Phase::Wait { ground, exit: Some(Exit { success, at: elapsed }) }
            } else {
                Phase::Collect { ground, found: entry, timed_out: false }
            })
            &&& next_phase(
                asked,
                Phase::Wait { ground, exit: Some(Exit { success: false, at }) },
                Event::Waited { exit: Some(success), elapsed, table: Ok(table) },
            ) == (Phase::Collect { ground, found: entry, timed_out: false })
            &&& forall|now: Option<bool>| #[trigger] ended(now) == (if entry is None && elapsed <= at
                + 1000 {
                Phase::Wait { ground, exit: Some(Exit { success: true, at }) }
            } else {
                Phase::Collect { ground, found: entry, timed_out: false }
            })
        }),
{
}

/// A request goes through its stages in order as long as everything goes well.
pub proof fn law_each_stage_leads_to_the_next(
    asked: Asked,
    path: Seq<char>,
    probe: Probe,
    ground: Known,
    free: Vec<MountEntry>,
    surveyed: Vec<MountEntry>,
    connections: Option<Vec<String>>,
)
    requires
        mountpoint_verdict(asked.mountpoint, probe, asked.euid, asked.roots) == Ok::<
            Seq<char>,
            Seq<char>,
        >(path),
        topmost(entries(free@), path) is None,
    ensures
        next_phase(asked, Phase::Resolve, Event::Probed(probe)) == (Phase::Claim { path }),
        next_phase(asked, Phase::Claim { path }, Event::Claimed(Ok(()))) == (Phase::Look { path }),
        next_phase(asked, Phase::Look { path }, Event::TableRead(Ok(free))) == (Phase::Survey { path }),
        next_phase(
            asked,
            Phase::Survey { path },
            Event::Surveyed { connections, table: Ok(surveyed) },
        ) == (Phase::Launch {
            ground: Known {
                path,
                before: fuse_keys_in(entries(surveyed@)),
                connections: optional_views(connections),
            },
        }),
        next_phase(asked, Phase::Launch { ground }, Event::Launched(Ok(()))) == (Phase::Wait {
            ground,
            exit: None,
        }),
{
}

/// A descriptor that was delivered makes a mount of the application's own,
/// recorded under the approved directory with the type, the source and the
/// numbers of the mount that was confirmed, and watched over exactly if one
/// of the options asked for that.
pub proof fn law_delivered_mounts_are_recorded(
    asked: Asked,
    path: Seq<char>,
    entry: Entry,
    unique: Option<u64>,
)
    ensures
        next_phase(asked, Phase::HandOver { path, entry, unique }, Event::Sent(Ok(())))
            matches Phase::Mounted { record, watch } && {
            &&& record.path == path
            &&& record.app_id == asked.app_id
            &&& record.fstype == entry.fstype
            &&& record.source == entry.source
            &&& record.identity.unique == unique
            &&& record.identity.id == entry.id
            &&& watch <==> exists|i: int|
                0 <= i < asked.options.len() && option_key(#[trigger] asked.options[i])
                    == "auto_unmount"@
        },
{
    crate::policy_laws::law_auto_unmount_is_asked_for_by_its_key(asked.mountpoint, asked.options);
}

/// The phase that events lead to, one after the other.
pub open spec fn led_to(asked: Asked, phase: Phase, events: Seq<Event>) -> Phase
    decreases events.len(),
{
    if events.len() == 0 {
        phase
    } else {
        next_phase(asked, led_to(asked, phase, events.drop_last()), events.last())
    }
}

/// A request for an acceptable mountpoint on which nothing is mounted, whose
/// helper mounts there, is granted.
pub proof fn law_a_good_request_is_granted(
    asked: Asked,
    path: Seq<char>,
    probe: Probe,
    free: Vec<MountEntry>,
    surveyed: Vec<MountEntry>,
    connections: Option<Vec<String>>,
    exit: Option<bool>,
    elapsed: u64,
    mounted: Vec<MountEntry>,
    entry: Entry,
    later: Option<Vec<String>>,
    landed: String,
    unique: Option<u64>,
)
    requires
        mountpoint_verdict(asked.mountpoint, probe, asked.euid, asked.roots) == Ok::<
            Seq<char>,
            Seq<char>,
        >(path),
        topmost(entries(free@), path) is None,
        topmost(entries(mounted@), path) == Some(entry),
        starts_with_fuse(entry.fstype),
        same_place(landed@, path),
    ensures
        led_to(
            asked,
            Phase::Resolve,
            seq![
                Event::Probed(probe),
                Event::Claimed(Ok(())),
                Event::TableRead(Ok(free)),
                Event::Surveyed { connections, table: Ok(surveyed) },
                Event::Launched(Ok(())),
                Event::Waited { exit, elapsed, table: Ok(mounted) },
                Event::Collected {
                    held: true,
                    connections: later,
                    landed: Some(landed),
                    unique,
                },
                Event::Sent(Ok(())),
            ],
        ) matches Phase::Mounted { record, watch } && record.path == path && record.app_id
            == asked.app_id,
{
    let events = seq![
        Event::Probed(probe),
        Event::Claimed(Ok(())),
        Event::TableRead(Ok(free)),
        Event::Surveyed { connections, table: Ok(surveyed) },
        Event::Launched(Ok(())),
        Event::Waited { exit, elapsed, table: Ok(mounted) },
        Event::Collected { held: true, connections: later, landed: Some(landed), unique },
        Event::Sent(Ok(())),
    ];
    law_fuse_types_start_with_fuse(entry.fstype);
    crate::policy::law_only_empty_owned_directories_inside_roots(
        asked.mountpoint,
        probe,
        asked.euid,
        asked.roots,
        path,
    );
    let start = Phase::Resolve;
    assert(events.take(8) =~= events);
    assert(events.take(0) =~= Seq::<Event>::empty());
    lemma_one_more(asked, start, events, 1);
    lemma_one_more(asked, start, events, 2);
    lemma_one_more(asked, start, events, 3);
    lemma_one_more(asked, start, events, 4);
    lemma_one_more(asked, start, events, 5);
    lemma_one_more(asked, start, events, 6);
    lemma_one_more(asked, start, events, 7);
    lemma_one_more(asked, start, events, 8);
    assert(led_to(asked, start, events.take(1)) == Phase::Claim { path });
    assert(led_to(asked, start, events.take(2)) == Phase::Look { path });
    assert(led_to(asked, start, events.take(3)) == Phase::Survey { path });
    assert(led_to(asked, start, events.take(4)) is Launch);
    assert(led_to(asked, start, events.take(5)) is Wait);
    assert(led_to(asked, start, events.take(6)) is Collect);
    assert(led_to(asked, start, events.take(7)) is HandOver);
}

proof fn lemma_one_more(asked: Asked, phase: Phase, events: Seq<Event>, n: int)
    requires
        0 < n <= events.len(),
    ensures
        led_to(asked, phase, events.take(n)) == next_phase(
            asked,
            led_to(asked, phase, events.take(n - 1)),
            events[n - 1],
        ),
{
    assert(events.take(n).drop_last() =~= events.take(n - 1));
    assert(events.take(n).last() == events[n - 1]);
}

/// What goes wrong on the way is answered at once: a refusal of policy as
/// denied, anything else as failed, each with its reason.
pub proof fn law_what_goes_wrong_is_answered(
    asked: Asked,
    path: Seq<char>,
    ground: Known,
    exit: Option<Exit>,
    probe: Probe,
    why: String,
    taken: Vec<MountEntry>,
    connections: Option<Vec<String>>,
    now: Option<bool>,
    elapsed: u64,
)
    ensures
        mountpoint_verdict(asked.mountpoint, probe, asked.euid, asked.roots) matches Err(reason)
            ==> next_phase(asked, Phase::Resolve, Event::Probed(probe)) == denied(reason),
        next_phase(asked, Phase::Claim { path }, Event::Claimed(Err(why))) == denied(why@),
        topmost(entries(taken@), path) is Some ==> next_phase(
            asked,
            Phase::Look { path },
            Event::TableRead(Ok(taken)),
        ) == denied("'"@ + path + "' is already a mountpoint"@),
        next_phase(asked, Phase::Look { path }, Event::TableRead(Err(why))) == failed(
            "cannot read mountinfo: "@ + why@,
        ),
        next_phase(asked, Phase::Survey { path }, Event::Surveyed { connections, table: Err(why) })
            == failed("cannot read mountinfo: "@ + why@),
        next_phase(
            asked,
            Phase::Launch { ground },
            Event::Launched(Err(LaunchFault::SocketPair(why))),
        ) == failed("cannot create a socket pair: "@ + why@),
        next_phase(
            asked,
            Phase::Launch { ground },
            Event::Launched(Err(LaunchFault::SocketTimeout(why))),
        ) == failed("cannot set a socket timeout: "@ + why@),
        next_phase(
            asked,
            Phase::Launch { ground },
            Event::Launched(Err(LaunchFault::Spawn(why))),
        ) == failed("cannot run "@ + "/usr/bin/fusermount3"@ + ": "@ + why@),
        next_phase(
            asked,
            Phase::Wait { ground, exit },
            Event::Waited { exit: now, elapsed, table: Err(why) },
        ) == failed("cannot read mountinfo: "@ + why@),
{
}

/// The answer that policy says no.
pub open spec fn denied(reason: Seq<char>) -> Phase {
    Phase::Refused { answer: Refusal::AccessDenied(reason), left_behind: Seq::empty() }
}

/// The answer that something went wrong.
pub open spec fn failed(reason: Seq<char>) -> Phase {
    Phase::Refused { answer: Refusal::Failed(reason), left_behind: Seq::empty() }
}

/// A mount that is taken back, and one whose descriptor could not be handed
/// over, end in a refusal with the reason.
pub proof fn law_taken_down_mounts_end_in_refusal(
    asked: Asked,
    path: Seq<char>,
    entry: Entry,
    unique: Option<u64>,
    failure: Fault,
    e: String,
    complaint: String,
)
    ensures
        led_to(
            asked,
            Phase::HandOver { path, entry, unique },
            seq![Event::Sent(Err(e)), Event::Reverted],
        ) == failed("cannot hand over the fuse descriptor: "@ + e@),
        led_to(
            asked,
            Phase::Revert { path, failure },
            seq![Event::Reverted, Event::Complained(complaint)],
        ) == failed(failure_reason(failure, complaint@)),
{
    let first = seq![Event::Sent(Err(e)), Event::Reverted];
    let second = seq![Event::Reverted, Event::Complained(complaint)];
    lemma_two_steps(asked, Phase::HandOver { path, entry, unique }, first);
    lemma_two_steps(asked, Phase::Revert { path, failure }, second);
}

proof fn lemma_two_steps(asked: Asked, phase: Phase, events: Seq<Event>)
    requires
        events.len() == 2,
    ensures
        led_to(asked, phase, events) == next_phase(
            asked,
            next_phase(asked, phase, events[0]),
            events[1],
        ),
{
    lemma_one_more(asked, phase, events, 1);
    lemma_one_more(asked, phase, events, 2);
    assert(events.take(2) =~= events);
    assert(events.take(0) =~= Seq::<Event>::empty());
}

/// Strays are looked for until some are found or two seconds are over; all
/// that are found are asked, and asked again once the descriptor is dropped;
/// those that died are removed; and the answer names what went wrong and what
/// is left behind.
pub proof fn law_strays_are_hunted_down(
    asked: Asked,
    path: Seq<char>,
    before: Seq<Seq<char>>,
    fresh: Option<Seq<Seq<char>>>,
    failure: Fault,
    elapsed: u64,
    table: Vec<MountEntry>,
    e: String,
    was: Vec<Liveness>,
    now: Vec<Liveness>,
    left: Vec<String>,
    complaint: String,
    candidates: Seq<Seq<char>>,
    places: Seq<Seq<char>>,
)
    ensures
        ({
            let watch = Phase::Watch { path, before, fresh, failure };
            let found = stray_places(entries(table@), path, before, fresh);
            &&& next_phase(asked, watch, Event::Watched { elapsed, table: Ok(table) }) == (
            if found.len() == 0 && elapsed < 2000 {
                watch
            } else {
                Phase::AskHeld { candidates: found, failure }
            })
            &&& next_phase(asked, watch, Event::Watched { elapsed, table: Err(e) }) == (
            if elapsed < 2000 {
                watch
            } else {
                Phase::AskHeld { candidates: Seq::empty(), failure }
            })
        }),
        was@.len() >= candidates.len() ==> next_phase(
            asked,
            Phase::AskHeld { candidates, failure },
            Event::Answered(was),
        ) == (Phase::LetGo { candidates, was: was@, failure }),
        was@.len() < candidates.len() ==> next_phase(
            asked,
            Phase::AskHeld { candidates, failure },
            Event::Answered(was),
        ) == (Phase::LetGo { candidates: candidates.take(was@.len() as int), was: was@, failure }),
        next_phase(
            asked,
            Phase::LetGo { candidates, was: was@, failure },
            Event::Answered(now),
        ) == (Phase::Remove { places: died_among(candidates, was@, now@), failure }),
        next_phase(asked, Phase::Remove { places, failure }, Event::Removed(left)) == (
        Phase::Complain { failure, left_behind: views(left@) }),
        next_phase(
            asked,
            Phase::Complain { failure, left_behind: views(left@) },
            Event::Complained(complaint),
        ) == (Phase::Refused {
            answer: Refusal::Failed(failure_reason(failure, complaint@)),
            left_behind: views(left@),
        }),
{
}

/// An event that a stage did not ask for changes nothing.
pub proof fn law_unasked_events_change_nothing(asked: Asked, phase: Phase, event: Event)
    requires
        !crate::course::asked_for(phase, event),
    ensures
        next_phase(asked, phase, event) == phase,
{
}

/// What a stage asks for.
pub proof fn law_what_stages_ask_for(phase: Phase, event: Event)
    ensures
        crate::course::asked_for(phase, event) <==> {
            ||| phase is Resolve && event is Probed
            ||| phase is Claim && event is Claimed
            ||| phase is Look && event is TableRead
            ||| phase is Survey && event is Surveyed
            ||| phase is Launch && event is Launched
            ||| phase is Wait && event is Waited
            ||| phase is Collect && event is Collected
            ||| phase is HandOver && event is Sent
            ||| phase is Watch && event is Watched
            ||| (phase is AskHeld || phase is LetGo) && event is Answered
            ||| phase is Remove && event is Removed
            ||| (phase is Revert || phase is TakeBack) && event is Reverted
            ||| phase is Complain && event is Complained
        },
{
}

/// However a request ends, its books are settled: a mount is recorded, and a
/// claim that came to nothing is given up.
pub proof fn law_requests_settle_their_books(
    books: Books,
    record: Record,
    watch: bool,
    answer: Refusal,
    left_behind: Seq<Seq<char>>,
    claim: Option<Seq<char>>,
    path: Seq<char>,
    phase: Phase,
)
    ensures
        concluded(books, Phase::Mounted { record, watch }, claim) == with_mount(books, record),
        concluded(books, Phase::Refused { answer, left_behind }, Some(path)) == without_claim(
            books,
            path,
        ),
        concluded(books, Phase::Refused { answer, left_behind }, None) == books,
        !(phase is Mounted) ==> concluded(books, phase, Some(path)) == without_claim(books, path)
            && concluded(books, phase, None) == books,
{
}

/// A request is taken in as it was made.
pub proof fn law_requests_are_taken_in_as_made(
    caller: Caller,
    options: Seq<Seq<char>>,
    mountpoint: Seq<char>,
    roots: Seq<Seq<char>>,
    euid: u32,
)
    ensures
        ({
            let asked = taken_in(caller, options, mountpoint, roots, euid);
            &&& asked.pid == caller.pid
            &&& asked.app_id == caller.app_id@
            &&& asked.options == options
            &&& asked.mountpoint == mountpoint
            &&& asked.roots == roots
            &&& asked.euid == euid
        }),
{
}

/// A claim comes after a sweep, is granted exactly if the swept books have
/// nothing against it, and is then in them.
pub proof fn law_claims_come_after_a_sweep(
    books: Books,
    app_id: Seq<char>,
    path: Seq<char>,
    first: Result<Vec<MountEntry>, String>,
    second: Result<Vec<MountEntry>, String>,
    max: nat,
)
    ensures
        ({
            let swept = Books { mounts: still_there(books.mounts, first, second), ..books };
            let due = claim_outcome(books, app_id, path, first, second, max);
            match claim_fault(swept, path, app_id, max) {
                None => due == (Ok::<(), Seq<char>>(()), with_claim(swept, path, app_id)),
                Some(fault) => due == (Err::<(), Seq<char>>(fault), swept),
            }
        }),
{
}

/// A request is answered with success exactly if it ended in a mount, and
/// with its refusal where it was refused.
pub proof fn law_requests_are_answered_by_their_end(
    phase: Phase,
    answer: Refusal,
    left_behind: Seq<Seq<char>>,
)
    ensures
        final_answer(phase) is Ok <==> phase is Mounted,
        final_answer(Phase::Refused { answer, left_behind }) == Err::<(), Refusal>(answer),
        !(phase is Mounted) && !(phase is Refused) ==> final_answer(phase) == Err::<(), Refusal>(
            Refusal::Failed("the request was given up"@),
        ),
{
}

/// A stage is seen as what it holds.
pub proof fn law_stages_show_what_they_hold(
    path: String,
    ground: Ground,
    exit: Option<Exit>,
    found: Option<MountEntry>,
    timed_out: bool,
    entry: MountEntry,
    unique: Option<u64>,
    before: Vec<String>,
    fresh: Option<Vec<String>>,
    failure: Failure,
    list: Vec<String>,
    was: Vec<Liveness>,
    record: MountRecord,
    watch: bool,
    answer: BridgeError,
    e: String,
)
    ensures
        Stage::Resolve@ is Resolve,
        (Stage::Claim { path })@ == (Phase::Claim { path: path@ }),
        (Stage::Look { path })@ == (Phase::Look { path: path@ }),
        (Stage::Survey { path })@ == (Phase::Survey { path: path@ }),
        (Stage::Launch { ground })@ == (Phase::Launch { ground: ground@ }),
        (Stage::Wait { ground, exit })@ == (Phase::Wait { ground: ground@, exit }),
        (Stage::Collect { ground, found, timed_out })@ == (Phase::Collect {
            ground: ground@,
            found: optional_entry(found),
            timed_out,
        }),
        (Stage::HandOver { path, entry, unique })@ == (Phase::HandOver {
            path: path@,
            entry: entry@,
            unique,
        }),
        (Stage::Watch { path, before, fresh, failure })@ == (Phase::Watch {
            path: path@,
            before: views(before@),
            fresh: optional_views(fresh),
            failure: failure@,
        }),
        (Stage::AskHeld { candidates: list, failure })@ == (Phase::AskHeld {
            candidates: views(list@),
            failure: failure@,
        }),
        (Stage::LetGo { candidates: list, was, failure })@ == (Phase::LetGo {
            candidates: views(list@),
            was: was@,
            failure: failure@,
        }),
        (Stage::Remove { places: list, failure })@ == (Phase::Remove {
            places: views(list@),
            failure: failure@,
        }),
        (Stage::Revert { path, failure })@ == (Phase::Revert { path: path@, failure: failure@ }),
        (Stage::Complain { failure, left_behind: list })@ == (Phase::Complain {
            failure: failure@,
            left_behind: views(list@),
        }),
        (Stage::TakeBack { path, error: e })@ == (Phase::TakeBack { path: path@, error: e@ }),
        (Stage::Mounted { record, watch })@ == (Phase::Mounted { record: record@, watch }),
        (Stage::Refused { answer, left_behind: list })@ == (Phase::Refused {
            answer: answer@,
            left_behind: views(list@),
        }),
        ground@.path == ground.path@,
        ground@.before == views(ground.before@),
        ground@.connections == optional_views(ground.connections),
        Failure::TimedOut@ is TimedOut,
        Failure::Moved(e)@ == Fault::Moved(e@),
        Failure::NotMounted@ is NotMounted,
{
}

/// Looks and receives are given five seconds, a mount half a second to say
/// whether it is connected, and every pause is shorter than the wait it is
/// part of.
pub proof fn law_waits_are_bounded_in_time()
    ensures
        RESOLVE_TIMEOUT == 5000,
        FD_TIMEOUT == 5000,
        LIVENESS_TIMEOUT == 500,
        MOUNT_POLL == 50,
        STRAY_POLL == 25,
{
}

} // verus!
