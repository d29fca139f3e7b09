//! What the books, removals and watches do, stated of what goes in and what
//! comes out, entry by entry.
use vstd::prelude::*;

#[allow(unused_imports)]
use crate::error::Refusal;
#[allow(unused_imports)]
use crate::mountinfo::{entries, text_of, topmost, MountEntry};
#[allow(unused_imports)]
use crate::path::{same_place, strictly_inside};
#[allow(unused_imports)]
use crate::policy::{inside_any, unmount_helper_arguments};
#[allow(unused_imports)]
use crate::registry::{
    claim_fault, claimed, claims_elsewhere, gone, held_by, list_views, listed, listing,
    mounts_elsewhere, orderly, recorded, records, reserved, same_mount, still_there, swept,
    with_claim, with_mount, without_claim, without_mount, Books, Claimed, Identity, MountIdentity,
    MountRecord, Record,
};
#[allow(unused_imports)]
use crate::removal::{
    after_helper, after_sighting, begun, helper_answer, not_removed, outcome, removal_arguments,
    removal_of, seen_in, tried_once_more, HelperOutcome, Outcome, Removing, Seen, Sighting,
    UnmountPhase, UnmountStage, REVERT_PAUSE,
};
#[allow(unused_imports)]
use crate::text::{decimal, trim, views};
#[allow(unused_imports)]
use crate::watch::{next_watch, taken_down, WatchEvent, WatchPhase, WatchStage};

verus! {

/// Records are seen as what they hold.
pub proof fn law_records_show_what_they_hold(
    record: MountRecord,
    identity: Identity,
    list: Seq<MountRecord>,
    rows: Seq<(String, String, String, String)>,
)
    ensures
        identity@.unique == identity.unique,
        identity@.id == identity.id@,
        record@.path == record.path@,
        record@.app_id == record.app_id@,
        record@.fstype == record.fstype@,
        record@.source == record.source@,
        record@.identity == record.identity@,
        records(list).len() == list.len(),
        forall|i: int| 0 <= i < list.len() ==> #[trigger] records(list)[i] == list[i]@,
        listed(record@) == (record.path@, record.app_id@, record.fstype@, record.source@),
        listing(records(list)).len() == list.len(),
        forall|i: int|
            0 <= i < list.len() ==> #[trigger] listing(records(list))[i] == (
                list[i].path@,
                list[i].app_id@,
                list[i].fstype@,
                list[i].source@,
            ),
        list_views(rows).len() == rows.len(),
        forall|i: int|
            0 <= i < rows.len() ==> #[trigger] list_views(rows)[i] == (
                rows[i].0@,
                rows[i].1@,
                rows[i].2@,
                rows[i].3@,
            ),
{
}

/// Where one of two sightings has no number that never comes back, the table
/// numbers decide; where both have one, those do.
pub proof fn law_what_tells_mounts_apart(a: MountIdentity, b: MountIdentity)
    ensures
        a.unique is None || b.unique is None ==> (same_mount(a, b) <==> a.id == b.id),
        a.unique is Some && b.unique is Some ==> (same_mount(a, b) <==> a.unique == b.unique),
{
}

/// A record is found at its place, the latest first, and records elsewhere
/// are passed over.
pub proof fn law_records_are_found_by_place(mounts: Seq<Record>, record: Record, place: Seq<char>)
    ensures
        recorded(Seq::empty(), place) is None,
        recorded(mounts.push(record), place) == (if same_place(record.path, place) {
            Some(record)
        } else {
            recorded(mounts, place)
        }),
{
    assert(mounts.push(record).drop_last() =~= mounts);
    assert(mounts.push(record).last() == record);
}

/// Taking a place out keeps every other entry, in order, and sweeping keeps
/// every mount that is not gone.
pub proof fn law_taking_out_goes_entry_by_entry(
    mounts: Seq<Record>,
    record: Record,
    held: Seq<Claimed>,
    claim: Claimed,
    place: Seq<char>,
    first: Result<Vec<MountEntry>, String>,
    second: Result<Vec<MountEntry>, String>,
)
    ensures
        mounts_elsewhere(Seq::empty(), place) == Seq::<Record>::empty(),
        mounts_elsewhere(mounts.push(record), place) == (if same_place(record.path, place) {
            mounts_elsewhere(mounts, place)
        } else {
            mounts_elsewhere(mounts, place).push(record)
        }),
        claims_elsewhere(Seq::empty(), place) == Seq::<Claimed>::empty(),
        claims_elsewhere(held.push(claim), place) == (if same_place(claim.path, place) {
            claims_elsewhere(held, place)
        } else {
            claims_elsewhere(held, place).push(claim)
        }),
        still_there(Seq::empty(), first, second) == Seq::<Record>::empty(),
        still_there(mounts.push(record), first, second) == (if gone(first, second, record.path) {
            still_there(mounts, first, second)
        } else {
            still_there(mounts, first, second).push(record)
        }),
{
    assert(mounts.push(record).drop_last() =~= mounts);
    assert(mounts.push(record).last() == record);
    assert(held.push(claim).drop_last() =~= held);
    assert(held.push(claim).last() == claim);
}

/// A mount is gone exactly if both readings succeeded and neither shows
/// anything at its place.
pub proof fn law_gone_takes_two_readings(
    a: Vec<MountEntry>,
    b: Vec<MountEntry>,
    e: String,
    other: Result<Vec<MountEntry>, String>,
    place: Seq<char>,
)
    ensures
        gone(Ok(a), Ok(b), place) <==> topmost(entries(a@), place) is None && topmost(
            entries(b@),
            place,
        ) is None,
        !gone(Err(e), other, place),
        !gone(other, Err(e), place),
{
}

/// What an application holds is counted mount by mount and claim by claim.
pub proof fn law_holdings_are_counted_one_by_one(
    mounts: Seq<Record>,
    record: Record,
    held: Seq<Claimed>,
    claim: Claimed,
    app_id: Seq<char>,
)
    ensures
        held_by((Books { mounts: Seq::empty(), claims: Seq::empty() }), app_id) == 0,
        held_by((Books { mounts: mounts.push(record), claims: held }), app_id) == held_by(
            (Books { mounts, claims: held }),
            app_id,
        ) + (if record.app_id == app_id {
            1int
        } else {
            0int
        }),
        held_by((Books { mounts, claims: held.push(claim) }), app_id) == held_by(
            (Books { mounts, claims: held }),
            app_id,
        ) + (if claim.app_id == app_id {
            1int
        } else {
            0int
        }),
{
    assert(mounts.push(record).drop_last() =~= mounts);
    assert(mounts.push(record).last() == record);
    assert(held.push(claim).drop_last() =~= held);
    assert(held.push(claim).last() == claim);
}

/// A place can be had exactly if neither the session nor the application is
/// at its limit and the place is neither recorded nor claimed; otherwise the
/// first of these that stands against it is told.
pub proof fn law_when_a_place_can_be_had(
    books: Books,
    path: Seq<char>,
    app_id: Seq<char>,
    max: nat,
)
    ensures
        ({
            let fault = claim_fault(books, path, app_id, max);
            let full = books.mounts.len() + books.claims.len() >= max;
            let greedy = held_by(books, app_id) >= 16;
            let mounted = recorded(books.mounts, path) is Some;
            let taken = exists|i: int|
                0 <= i < books.claims.len() && same_place(
                    (#[trigger] books.claims[i]).path,
                    path,
                );
            &&& fault is None <==> !full && !greedy && !mounted && !taken
            &&& full ==> fault == Some(
                "the limit of "@ + decimal(max) + " live mounts is reached"@,
            )
            &&& !full && greedy ==> fault == Some(
                "the limit of "@ + decimal(16) + " live mounts for one application is reached"@,
            )
            &&& !full && !greedy && mounted ==> fault == Some(
                "'"@ + path + "' is already mounted via this daemon"@,
            )
            &&& !full && !greedy && !mounted && taken ==> fault == Some(
                "'"@ + path + "' is already being mounted"@,
            )
        }),
{
}

/// A claim adds itself, a release takes claims on its place out, a record
/// clears its place and adds itself, and a removal takes mounts at its place
/// out; nothing else changes.
pub proof fn law_what_each_step_changes(
    books: Books,
    path: Seq<char>,
    app_id: Seq<char>,
    record: Record,
)
    ensures
        with_claim(books, path, app_id).claims == books.claims.push(Claimed { path, app_id }),
        with_claim(books, path, app_id).mounts == books.mounts,
        without_claim(books, path).claims == claims_elsewhere(books.claims, path),
        without_claim(books, path).mounts == books.mounts,
        without_mount(books, path).mounts == mounts_elsewhere(books.mounts, path),
        without_mount(books, path).claims == books.claims,
        with_mount(books, record).mounts == mounts_elsewhere(books.mounts, record.path).push(record),
        with_mount(books, record).claims == claims_elsewhere(books.claims, record.path),
{
}

/// A place that can be had is claimed, and one that cannot changes nothing.
pub proof fn law_places_are_claimed_or_left(
    books: Books,
    path: Seq<char>,
    app_id: Seq<char>,
    max: nat,
)
    ensures
        ({
            let (granted, after) = reserved(books, path, app_id, max);
            match claim_fault(books, path, app_id, max) {
                None => granted is Ok && after.mounts == books.mounts && after.claims
                    == books.claims.push(Claimed { path, app_id }),
                Some(fault) => granted == Err::<(), Seq<char>>(fault) && after == books,
            }
        }),
{
}

/// A sweep forgets the mounts that are gone and keeps every claim.
pub proof fn law_sweeps_keep_claims(
    books: Books,
    first: Result<Vec<MountEntry>, String>,
    second: Result<Vec<MountEntry>, String>,
)
    ensures
        swept(books, first, second).claims == books.claims,
        swept(books, first, second).mounts == still_there(books.mounts, first, second),
{
}

/// A removal starts with no attempt made, at its place and for its mount.
pub proof fn law_how_a_removal_starts(path: Seq<char>, identity: Option<MountIdentity>)
    ensures
        removal_of(path, identity).path == path,
        removal_of(path, identity).identity == identity,
        removal_of(path, identity).attempts == 0,
{
}

/// Books are in order exactly if no place occurs in them twice.
pub proof fn law_order_means_no_place_twice(books: Books)
    ensures
        orderly(books) <==> {
            &&& forall|i: int, j: int|
                0 <= i < j < books.mounts.len() ==> !same_place(
                    (#[trigger] books.mounts[i]).path,
                    (#[trigger] books.mounts[j]).path,
                )
            &&& forall|i: int, j: int|
                0 <= i < j < books.claims.len() ==> !same_place(
                    (#[trigger] books.claims[i]).path,
                    (#[trigger] books.claims[j]).path,
                )
            &&& forall|i: int, j: int|
                0 <= i < books.mounts.len() && 0 <= j < books.claims.len() ==> !same_place(
                    (#[trigger] books.claims[j]).path,
                    (#[trigger] books.mounts[i]).path,
                )
        },
{
    if orderly(books) {
        assert forall|i: int, j: int|
            0 <= i < books.mounts.len() && 0 <= j < books.claims.len() implies !same_place(
            (#[trigger] books.claims[j]).path,
            (#[trigger] books.mounts[i]).path,
        ) by {
            assert(!claimed(books.claims, books.mounts[i].path));
        }
    }
}

/// What is seen at a place is the topmost mount there, with its number in the
/// table; nothing where there is none; and an unreadable table otherwise.
pub proof fn law_what_is_seen_at_a_place(
    table: Vec<MountEntry>,
    e: String,
    place: Seq<char>,
    unique: Option<u64>,
    identity: Identity,
)
    ensures
        topmost(entries(table@), place) matches Some(entry) ==> seen_in(Ok(table), place, unique)
            == Seen::Mount(MountIdentity { unique, id: entry.id }),
        topmost(entries(table@), place) is None ==> seen_in(Ok(table), place, unique)
            == Seen::Nothing,
        seen_in(Err(e), place, unique) == Seen::Unreadable(e@),
        Sighting::Nothing@ == Seen::Nothing,
        Sighting::Mount(identity)@ == Seen::Mount(identity@),
        Sighting::Unreadable(e)@ == Seen::Unreadable(e@),
{
}

/// A removal tries again exactly while the mount meant is there and fewer
/// than forty attempts were made, is done exactly when a look shows that it
/// is not there, and is given up otherwise.
pub proof fn law_how_a_removal_goes_on(
    path: Seq<char>,
    meant: MountIdentity,
    now: MountIdentity,
    attempts: nat,
    e: Seq<char>,
)
    ensures
        ({
            let of_place = Removing { path, identity: None, attempts };
            let of_mount = Removing { path, identity: Some(meant), attempts };
            &&& outcome(of_place, Seen::Mount(now)) == (if attempts < 40 {
                Outcome::Again
            } else {
                Outcome::LeftBehind
            })
            &&& outcome(of_mount, Seen::Mount(now)) == (if !same_mount(meant, now) {
                Outcome::Gone
            } else if attempts < 40 {
                Outcome::Again
            } else {
                Outcome::LeftBehind
            })
            &&& outcome(of_place, Seen::Nothing) == Outcome::Gone
            &&& outcome(of_mount, Seen::Nothing) == Outcome::Gone
            &&& outcome(of_place, Seen::Unreadable(e)) == Outcome::LeftBehind
            &&& outcome(of_mount, Seen::Unreadable(e)) == Outcome::LeftBehind
            &&& removal_arguments(of_mount) == unmount_helper_arguments(path, true)
            &&& removal_arguments(of_place) == unmount_helper_arguments(path, true)
            &&& tried_once_more(of_place) == (Removing { attempts: attempts + 1, ..of_place })
            &&& tried_once_more(of_mount) == (Removing { attempts: attempts + 1, ..of_mount })
        }),
        REVERT_PAUSE == 50,
{
}

/// The places left behind are those whose removal did not succeed, in order.
pub proof fn law_what_is_left_behind(places: Seq<Seq<char>>, place: Seq<char>, done: Seq<bool>)
    ensures
        not_removed(Seq::empty(), done) == Seq::<Seq<char>>::empty(),
        not_removed(places.push(place), done) == (if places.len() < done.len()
            && done[places.len() as int] {
            not_removed(places, done)
        } else {
            not_removed(places, done).push(place)
        }),
{
    assert(places.push(place).drop_last() =~= places);
    assert(places.push(place).last() == place);
}

/// A request to unmount goes on exactly if the place lies below a root and a
/// mount of the caller's own application is recorded there; otherwise the
/// first thing that is wrong is told.
pub proof fn law_who_may_ask_to_unmount(
    books: Books,
    place: Seq<char>,
    app_id: Seq<char>,
    roots: Seq<Seq<char>>,
)
    ensures
        ({
            let stage = begun(books, place, app_id, roots);
            let allowed = exists|root: Seq<char>|
                roots.contains(root) && #[trigger] strictly_inside(place, root);
            &&& stage is Look <==> allowed && (recorded(books.mounts, place) matches Some(r)
                && r.app_id == app_id)
            &&& !allowed ==> stage == UnmountPhase::Answer(
                Err(
                    Refusal::AccessDenied(
                        "'"@ + place + "' is outside the allowed mount roots"@,
                    ),
                ),
            )
            &&& allowed && recorded(books.mounts, place) is None ==> stage
                == UnmountPhase::Answer(
                Err(
                    Refusal::AccessDenied(
                        "'"@ + place + "' was not mounted through this daemon"@,
                    ),
                ),
            )
            &&& allowed && (recorded(books.mounts, place) matches Some(r) && r.app_id != app_id)
                ==> stage == UnmountPhase::Answer(
                Err(Refusal::AccessDenied("mount belongs to a different application"@)),
            )
        }),
{
    if inside_any(place, roots) {
        crate::policy_laws::law_below_any_root_is_allowed(place, roots, place);
    }
    if exists|root: Seq<char>| roots.contains(root) && #[trigger] strictly_inside(place, root) {
        let root = choose|root: Seq<char>|
            roots.contains(root) && #[trigger] strictly_inside(place, root);
        crate::policy_laws::law_below_any_root_is_allowed(place, roots, root);
    }
}

/// After a look, the helper is run on the recorded mount's place while it is
/// still that mount; a record whose mount is gone, or gave way to another
/// one, is dropped; and an unreadable table changes nothing.
pub proof fn law_how_an_unmount_goes_on(
    books: Books,
    place: Seq<char>,
    record: Record,
    now: MountIdentity,
    e: Seq<char>,
    lazy: bool,
)
    requires
        recorded(books.mounts, place) == Some(record),
    ensures
        same_mount(record.identity, now) ==> after_sighting(books, place, Seen::Mount(now), lazy) == (
            UnmountPhase::Run(unmount_helper_arguments(place, lazy)),
            books,
        ),
        !same_mount(record.identity, now) ==> after_sighting(books, place, Seen::Mount(now), lazy)
            == (
            UnmountPhase::Answer(
                Err(
                    Refusal::AccessDenied(
                        "'"@ + place + "' was not mounted through this daemon"@,
                    ),
                ),
            ),
            without_mount(books, place),
        ),
        after_sighting(books, place, Seen::Nothing, lazy) == (
            UnmountPhase::Answer(Ok(())),
            without_mount(books, place),
        ),
        after_sighting(books, place, Seen::Unreadable(e), lazy) == (
            UnmountPhase::Answer(Err(Refusal::Failed("cannot read mountinfo: "@ + e))),
            books,
        ),
{
}

/// Where nothing is recorded any more, nothing is done.
pub proof fn law_what_was_forgotten_is_left_alone(
    books: Books,
    place: Seq<char>,
    seen: Seen,
    lazy: bool,
)
    requires
        recorded(books.mounts, place) is None,
    ensures
        after_sighting(books, place, seen, lazy) == (
            UnmountPhase::Answer(
                Err(
                    Refusal::AccessDenied(
                        "'"@ + place + "' was not mounted through this daemon"@,
                    ),
                ),
            ),
            books,
        ),
{
}

/// An unmount succeeds, and its record goes, exactly if the helper succeeded;
/// otherwise the answer says how it failed, in the helper's own words.
pub proof fn law_how_an_unmount_ends(
    books: Books,
    place: Seq<char>,
    e: String,
    status: String,
    complaint: Vec<u8>,
    arguments: Vec<String>,
)
    ensures
        helper_answer(HelperOutcome::Succeeded) is Ok,
        after_helper(books, place, HelperOutcome::Succeeded) == without_mount(books, place),
        helper_answer(HelperOutcome::NotRun(e)) == Err::<(), Refusal>(
            Refusal::Failed("cannot run "@ + "/usr/bin/fusermount3"@ + ": "@ + e@),
        ),
        after_helper(books, place, HelperOutcome::NotRun(e)) == books,
        helper_answer(HelperOutcome::Failed { status, complaint }) == Err::<(), Refusal>(
            Refusal::Failed(
                "fusermount3 -u failed ("@ + status@ + "): "@ + trim(text_of(complaint@)),
            ),
        ),
        after_helper(books, place, HelperOutcome::Failed { status, complaint }) == books,
        UnmountStage::Look@ is Look,
        UnmountStage::Run(arguments)@ == UnmountPhase::Run(views(arguments@)),
{
}

/// A watch polls until the stop pipe or the socket has something, leaves for
/// the one and reads for the other, and takes the mount down when it reads
/// nothing.
pub proof fn law_how_a_watch_goes_on(socket: bool, count: usize, e: String)
    ensures
        next_watch(WatchPhase::Poll, WatchEvent::Ready { stop: true, socket }) == WatchPhase::Leave,
        next_watch(WatchPhase::Poll, WatchEvent::Ready { stop: false, socket: true })
            == WatchPhase::Read,
        next_watch(WatchPhase::Poll, WatchEvent::Ready { stop: false, socket: false })
            == WatchPhase::Poll,
        next_watch(WatchPhase::Read, WatchEvent::Got(count)) == (if count == 0 {
            WatchPhase::TakeDown
        } else {
            WatchPhase::Poll
        }),
        next_watch(WatchPhase::Poll, WatchEvent::Failed(e)) == WatchPhase::GiveUp(e@),
        next_watch(WatchPhase::Read, WatchEvent::Failed(e)) == WatchPhase::GiveUp(e@),
        next_watch(WatchPhase::Poll, WatchEvent::Interrupted) == WatchPhase::Poll,
        next_watch(WatchPhase::Read, WatchEvent::Interrupted) == WatchPhase::Poll,
        next_watch(WatchPhase::Poll, WatchEvent::Got(count)) == WatchPhase::Poll,
        next_watch(WatchPhase::Read, WatchEvent::Ready { stop: true, socket }) == WatchPhase::Read,
        next_watch(WatchPhase::Read, WatchEvent::Ready { stop: false, socket }) == WatchPhase::Read,
        WatchStage::Poll@ == WatchPhase::Poll,
        WatchStage::Read@ == WatchPhase::Read,
        WatchStage::Leave@ == WatchPhase::Leave,
        WatchStage::GiveUp(e)@ == WatchPhase::GiveUp(e@),
        WatchStage::TakeDown@ == WatchPhase::TakeDown,
{
}

/// A watch that has ended stays ended.
pub proof fn law_a_watch_ends_for_good(e: Seq<char>, event: WatchEvent)
    ensures
        next_watch(WatchPhase::Leave, event) == WatchPhase::Leave,
        next_watch(WatchPhase::GiveUp(e), event) == WatchPhase::GiveUp(e),
        next_watch(WatchPhase::TakeDown, event) == WatchPhase::TakeDown,
{
}

/// What is taken down is the mount that was recorded at the place, for the
/// application that made it, and nothing where none is recorded.
pub proof fn law_what_is_taken_down(books: Books, place: Seq<char>)
    ensures
        match recorded(books.mounts, place) {
            Some(record) => taken_down(books, place) matches Some((app_id, removing)) && app_id
                == record.app_id && removing.path == place && removing.identity == Some(
                record.identity,
            ) && removing.attempts == 0,
            None => taken_down(books, place) is None,
        },
{
}

} // verus!
