//! What holds of every course that a mount request can take, whatever the
//! application, the helper and the rest of the session do meanwhile.
use vstd::prelude::*;

#[allow(unused_imports)]
use crate::mountinfo::{
    connections_between, entries, fuse_keys_in, is_fuse, may_be_stray, optional_views, topmost,
    Entry, MountEntry,
};
#[allow(unused_imports)]
use crate::path::same_place;
#[allow(unused_imports)]
use crate::policy::{
    answer_at, asks_auto_unmount, died_between, inside_any,
    law_only_what_died_with_the_descriptor_is_ours, law_only_empty_owned_directories_inside_roots,
    Probe,
};
#[allow(unused_imports)]
use crate::ledger::{
    law_records_keep_order_and_limits, law_releases_keep_order_and_limits, within_limits,
};
#[allow(unused_imports)]
use crate::registry::{claimed, orderly, Books};
#[allow(unused_imports)]
use crate::request::{
    concluded, next_phase, strays_in, with_answer, verified, Asked, Event, Exit, Known, Phase,
    MOUNT_TIMEOUT, POST_EXIT_GRACE, STRAY_WATCH,
};
#[allow(unused_imports)]
use crate::text::optional_text;

verus! {

/// Whether phases and events are a course of a request: it starts with a
/// look at the mountpoint, and every event leads from one phase to the next.
pub open spec fn is_course(asked: Asked, phases: Seq<Phase>, events: Seq<Event>) -> bool {
    &&& phases.len() == events.len() + 1
    &&& phases[0] == Phase::Resolve
    &&& forall|i: int|
        0 <= i < events.len() ==> phases[i + 1] == next_phase(
            asked,
            phases[i],
            #[trigger] events[i],
        )
}

/// Whether the descriptor was delivered to the application at a step.
pub open spec fn delivers(phase: Phase, event: Event) -> bool {
    phase is HandOver && event matches Event::Sent(Ok(()))
}

/// Whether it was delivered at any step.
pub open spec fn delivered(phases: Seq<Phase>, events: Seq<Event>) -> bool {
    exists|i: int| 0 <= i < events.len() && delivers(phases[i], #[trigger] events[i])
}

/// A course without its last step is a course.
proof fn lemma_shorter(asked: Asked, phases: Seq<Phase>, events: Seq<Event>)
    requires
        is_course(asked, phases, events),
        events.len() > 0,
    ensures
        is_course(asked, phases.drop_last(), events.drop_last()),
        phases.last() == next_phase(asked, phases.drop_last().last(), events.last()),
{
    let front = events.drop_last();
    assert forall|i: int| 0 <= i < front.len() implies phases.drop_last()[i + 1] == next_phase(
        asked,
        phases.drop_last()[i],
        #[trigger] front[i],
    ) by {
        assert(front[i] == events[i]);
    }
    let n = events.len() - 1;
    assert(phases[n + 1] == next_phase(asked, phases[n], events[n]));
}

/// The application holds the descriptor exactly if the request is answered
/// with success: a refused request never leaves it with one, and a granted
/// one always does.
pub proof fn law_the_descriptor_goes_with_success(
    asked: Asked,
    phases: Seq<Phase>,
    events: Seq<Event>,
)
    requires
        is_course(asked, phases, events),
    ensures
        delivered(phases, events) <==> phases.last() is Mounted,
    decreases events.len(),
{
    if events.len() > 0 {
        let front = phases.drop_last();
        let earlier = events.drop_last();
        let n = events.len() - 1;
        lemma_shorter(asked, phases, events);
        law_the_descriptor_goes_with_success(asked, front, earlier);
        assert(front.last() == phases[n]);
        if delivered(front, earlier) {
            let i = choose|i: int| 0 <= i < earlier.len() && delivers(front[i], #[trigger] earlier[i]);
            assert(delivers(phases[i], events[i]));
        }
        if delivered(phases, events) {
            let i = choose|i: int| 0 <= i < events.len() && delivers(phases[i], #[trigger] events[i]);
            if i < n {
                assert(delivers(front[i], earlier[i]));
            }
        }
        if phases.last() is Mounted && !(front.last() is Mounted) {
            assert(delivers(phases[n], events[n]));
        }
    }
}

/// An answer, once given, stays as it is.
pub proof fn law_answers_are_final(asked: Asked, phase: Phase, event: Event)
    requires
        phase is Mounted || phase is Refused,
    ensures
        next_phase(asked, phase, event) == phase,
{
}

/// The step at which a phase was first entered.
proof fn lemma_entered(asked: Asked, phases: Seq<Phase>, events: Seq<Event>, i: int) -> (j: int)
    requires
        is_course(asked, phases, events),
        0 <= i < phases.len(),
        phases[i] != Phase::Resolve,
    ensures
        0 <= j < i,
        phases[j] != phases[i],
        next_phase(asked, phases[j], events[j]) == phases[i],
        forall|m: int| j < m <= i ==> #[trigger] phases[m] == phases[i],
    decreases i,
{
    assert(phases[i - 1 + 1] == next_phase(asked, phases[i - 1], events[i - 1]));
    if phases[i - 1] == phases[i] {
        lemma_entered(asked, phases, events, i - 1)
    } else {
        i - 1
    }
}

/// The place that a phase is about.
pub open spec fn place_of(phase: Phase) -> Option<Seq<char>> {
    match phase {
        Phase::Claim { path } => Some(path),
        Phase::Look { path } => Some(path),
        Phase::Survey { path } => Some(path),
        Phase::Launch { ground } => Some(ground.path),
        Phase::Wait { ground, exit } => Some(ground.path),
        Phase::Collect { ground, found: entry, timed_out } => Some(ground.path),
        Phase::HandOver { path, entry, unique } => Some(path),
        Phase::Watch { path, before, fresh, failure } => Some(path),
        Phase::Revert { path, failure } => Some(path),
        Phase::TakeBack { path, error } => Some(path),
        Phase::Mounted { record, watch } => Some(record.path),
        _ => None,
    }
}

/// Whether a look found an empty directory of the session user strictly
/// inside an allowed root, at this path.
pub open spec fn approves(asked: Asked, event: Event, path: Seq<char>) -> bool {
    &&& event matches Event::Probed(probe)
    &&& probe matches Probe::Found { path: found, is_dir, uid, listing }
    &&& found@ == path
    &&& is_dir
    &&& uid == asked.euid
    &&& listing is Empty
    &&& inside_any(path, asked.roots)
}

/// Whatever place a request deals with, it was found to be an empty
/// directory of the session user, strictly inside an allowed root.
pub proof fn law_only_approved_places(
    asked: Asked,
    phases: Seq<Phase>,
    events: Seq<Event>,
    i: int,
    path: Seq<char>,
)
    requires
        is_course(asked, phases, events),
        0 <= i < phases.len(),
        place_of(phases[i]) == Some(path),
    ensures
        exists|j: int| 0 <= j < i && phases[j] is Resolve && approves(asked, #[trigger] events[j], path),
    decreases i,
{
    let j = lemma_entered(asked, phases, events, i);
    if phases[j] is Resolve {
        let probe = events[j]->Probed_0;
        law_only_empty_owned_directories_inside_roots(
            asked.mountpoint,
            probe,
            asked.euid,
            asked.roots,
            path,
        );
        assert(approves(asked, events[j], path));
    } else {
        assert(place_of(phases[j]) == Some(path));
        law_only_approved_places(asked, phases, events, j, path);
    }
}

/// Whether a phase comes after the helper was to be started.
pub open spec fn past_launch(phase: Phase) -> bool {
    match phase {
        Phase::Launch { .. } | Phase::Wait { .. } | Phase::Collect { .. } | Phase::HandOver { .. }
        | Phase::Watch { .. } | Phase::Revert { .. } | Phase::TakeBack { .. }
        | Phase::Mounted { .. } => true,
        _ => false,
    }
}

/// Whether a reading shows nothing mounted at a place.
pub open spec fn shows_free(event: Event, path: Seq<char>) -> bool {
    event matches Event::TableRead(Ok(table)) && topmost(entries(table@), path) is None
}

/// The helper is only ever started for a place that was claimed and on which
/// nothing was mounted.
pub proof fn law_launched_only_on_claimed_free_places(
    asked: Asked,
    phases: Seq<Phase>,
    events: Seq<Event>,
    i: int,
    path: Seq<char>,
)
    requires
        is_course(asked, phases, events),
        0 <= i < phases.len(),
        past_launch(phases[i]),
        place_of(phases[i]) == Some(path),
    ensures
        exists|j: int|
            0 <= j < i && phases[j] == (Phase::Claim { path }) && #[trigger] events[j]
                matches Event::Claimed(Ok(())),
        exists|k: int|
            0 <= k < i && phases[k] == (Phase::Look { path }) && shows_free(
                #[trigger] events[k],
                path,
            ),
    decreases i,
{
    let j = lemma_entered(asked, phases, events, i);
    if past_launch(phases[j]) {
        law_launched_only_on_claimed_free_places(asked, phases, events, j, path);
    } else {
        assert(phases[j] == Phase::Survey { path });
        let k = lemma_entered(asked, phases, events, j);
        assert(phases[k] == Phase::Look { path });
        assert(shows_free(events[k], path));
        let m = lemma_entered(asked, phases, events, k);
        assert(phases[m] == Phase::Claim { path });
        assert(events[m] matches Event::Claimed(Ok(())));
    }
}

/// Whether it was confirmed at a step that the mount at a place may be handed
/// over: the helper's FUSE mount is on the approved directory, the directory
/// is still where it was approved, and the daemon holds the descriptor.
pub open spec fn confirms(asked: Asked, phase: Phase, event: Event, path: Seq<char>, entry: Entry) -> bool {
    &&& phase matches Phase::Collect { ground, found: seen, timed_out }
    &&& event matches Event::Collected { held, connections, landed, unique }
    &&& ground.path == path
    &&& seen == Some(entry)
    &&& verified(seen, optional_text(landed), path, asked.roots, held)
}

/// Nothing is handed over, and nothing is answered with success, that was
/// not confirmed first.
pub proof fn law_nothing_unconfirmed_is_handed_over(
    asked: Asked,
    phases: Seq<Phase>,
    events: Seq<Event>,
    i: int,
)
    requires
        is_course(asked, phases, events),
        0 <= i < phases.len(),
        phases[i] is HandOver || phases[i] is Mounted,
    ensures
        exists|j: int, entry: Entry|
            0 <= j < i && #[trigger] confirms(
                asked,
                phases[j],
                events[j],
                place_of(phases[i])->0,
                entry,
            ),
    decreases i,
{
    let j = lemma_entered(asked, phases, events, i);
    if phases[i] is Mounted {
        assert(phases[j] is HandOver);
        law_nothing_unconfirmed_is_handed_over(asked, phases, events, j);
    } else {
        let entry = phases[i]->HandOver_entry;
        assert(confirms(asked, phases[j], events[j], place_of(phases[i])->0, entry));
    }
}

/// A mount that appeared on the approved directory and cannot be confirmed
/// is taken down; one that did not appear is looked for elsewhere.
pub proof fn law_unconfirmed_mounts_are_reverted(
    asked: Asked,
    ground: Known,
    entry: Option<Entry>,
    timed_out: bool,
    held: bool,
    connections: Option<Vec<String>>,
    landed: Option<String>,
    unique: Option<u64>,
)
    requires
        !verified(entry, optional_text(landed), ground.path, asked.roots, held),
    ensures
        ({
            let next = next_phase(
                asked,
                Phase::Collect { ground, found: entry, timed_out },
                Event::Collected { held, connections, landed, unique },
            );
            if entry is Some {
                next matches Phase::Revert { path, failure } && path == ground.path
            } else {
                next matches Phase::Watch { path, before, fresh, failure } && path == ground.path
                    && before == ground.before
            }
        }),
{
}

/// A mount that cannot be handed over is taken down.
pub proof fn law_undeliverable_mounts_are_taken_back(
    asked: Asked,
    path: Seq<char>,
    entry: Entry,
    unique: Option<u64>,
    e: String,
)
    ensures
        next_phase(asked, Phase::HandOver { path, entry, unique }, Event::Sent(Err(e)))
            == (Phase::TakeBack { path, error: e@ }),
{
}

/// Waiting for the mount ends: when the helper's time is over, and when it
/// has been gone for long enough.
pub proof fn law_waiting_ends(
    asked: Asked,
    ground: Known,
    exit: Option<Exit>,
    now: Option<bool>,
    elapsed: u64,
    table: Result<Vec<MountEntry>, String>,
)
    requires
        match exit {
            Some(e) => elapsed > e.at + POST_EXIT_GRACE,
            None => now is None && elapsed > MOUNT_TIMEOUT,
        },
    ensures
        !(next_phase(asked, Phase::Wait { ground, exit }, Event::Waited { exit: now, elapsed, table })
            is Wait),
{
}

/// Looking for a stray mount ends.
pub proof fn law_watching_ends(
    asked: Asked,
    phase: Phase,
    elapsed: u64,
    table: Result<Vec<MountEntry>, String>,
)
    requires
        phase is Watch,
        elapsed >= STRAY_WATCH,
    ensures
        next_phase(asked, phase, Event::Watched { elapsed, table }) is AskHeld,
{
}

/// Whether a place is that of a mount that may have gone astray: it was not
/// there at the survey, it is there when watched for, and it is on a FUSE
/// connection that appeared between the survey and the collection, where
/// connections are published.
pub open spec fn strayed(
    surveyed: Event,
    collected: Event,
    watched: Event,
    path: Seq<char>,
    place: Seq<char>,
    entry: Entry,
) -> bool {
    &&& surveyed matches Event::Surveyed { connections: then, table: Ok(earlier) }
    &&& collected matches Event::Collected { held, connections: now, landed, unique }
    &&& watched matches Event::Watched { elapsed, table: Ok(later) }
    &&& entries(later@).contains(entry)
    &&& entry.mount_point == place
    &&& may_be_stray(
        entry,
        path,
        fuse_keys_in(entries(earlier@)),
        connections_between(optional_views(then), optional_views(now)),
    )
}

/// Whether the mount at a place was asked while the descriptor was held and
/// was connected then, and was disconnected after it was dropped.
pub open spec fn died_with_descriptor(
    held: Phase,
    answers_held: Event,
    answers_after: Event,
    place: Seq<char>,
) -> bool {
    &&& held matches Phase::AskHeld { candidates, failure }
    &&& answers_held matches Event::Answered(was)
    &&& answers_after matches Event::Answered(now)
    &&& exists|at: int|
        0 <= at < candidates.len() && at < was@.len() && at < now@.len()
            && #[trigger] candidates[at] == place && died_between(was@[at], now@[at])
}

/// What was known when the helper was started is still known while it is
/// waited for.
proof fn lemma_surveyed(
    asked: Asked,
    phases: Seq<Phase>,
    events: Seq<Event>,
    i: int,
    ground: Known,
) -> (j: int)
    requires
        is_course(asked, phases, events),
        0 <= i < phases.len(),
        phases[i] == (Phase::Launch { ground }) || (phases[i] matches Phase::Wait { ground: g, exit }
            && g == ground) || (phases[i] matches Phase::Collect { ground: g, found, timed_out } && g
            == ground),
    ensures
        0 <= j < i,
        phases[j] == (Phase::Survey { path: ground.path }),
        events[j] matches Event::Surveyed { connections, table: Ok(t) } && ground.before
            == fuse_keys_in(entries(t@)) && ground.connections == optional_views(connections),
    decreases i,
{
    let j = lemma_entered(asked, phases, events, i);
    if phases[i] is Launch {
        j
    } else {
        lemma_surveyed(asked, phases, events, j, ground)
    }
}

/// A mount is only ever removed elsewhere than on the approved directory if
/// it was not there before the helper was started, is a FUSE mount that
/// appeared meanwhile, and went from connected to disconnected when the
/// daemon dropped its descriptor. Everybody else's mounts are left alone.
pub proof fn law_only_our_own_strays_are_removed(
    asked: Asked,
    phases: Seq<Phase>,
    events: Seq<Event>,
    i: int,
    places: Seq<Seq<char>>,
    place: Seq<char>,
)
    requires
        is_course(asked, phases, events),
        0 <= i < phases.len(),
        phases[i] matches Phase::Remove { places: p, failure } && p == places,
        places.contains(place),
    ensures
        exists|s: int, c: int, w: int, path: Seq<char>, entry: Entry|
            0 <= s < c < w < i && phases[s] == (Phase::Survey { path }) && #[trigger] strayed(
                events[s],
                events[c],
                events[w],
                path,
                place,
                entry,
            ),
        exists|h: int, l: int|
            0 <= h < l < i && phases[l] is LetGo && #[trigger] died_with_descriptor(
                phases[h],
                events[h],
                events[l],
                place,
            ),
{
    let l = lemma_entered(asked, phases, events, i);
    assert(phases[l] is LetGo);
    let candidates = phases[l]->LetGo_candidates;
    let was = phases[l]->LetGo_was;
    let now = events[l]->Answered_0;
    let h = lemma_entered(asked, phases, events, l);
    assert(phases[h] is AskHeld);
    let asked_of = phases[h]->AskHeld_candidates;
    assert(candidates == with_answer(asked_of, was));
    law_only_what_died_with_the_descriptor_is_ours(candidates, was, now@, place);
    let at = choose|at: int|
        0 <= at < candidates.len() && #[trigger] candidates[at] == place && died_between(
            answer_at(was, at),
            answer_at(now@, at),
        );
    assert(asked_of[at] == place);
    assert(died_with_descriptor(phases[h], events[h], events[l], place));
    let w = lemma_entered(asked, phases, events, h);
    assert(phases[w] is Watch);
    let path = phases[w]->Watch_path;
    let before = phases[w]->Watch_before;
    let fresh = phases[w]->Watch_fresh;
    let table = events[w]->Watched_table;
    assert(asked_of == strays_in(table, path, before, fresh));
    assert(table is Ok);
    assert(asked_of.contains(place));
    let later = entries(table->Ok_0@);
    crate::mount_table::law_strays_are_listed(later, path, before, fresh, place);
    let k = choose|k: int|
        0 <= k < later.len() && (#[trigger] later[k]).mount_point == place && may_be_stray(
            later[k],
            path,
            before,
            fresh,
        );
    assert(later.contains(later[k]));
    let c = lemma_entered(asked, phases, events, w);
    assert(phases[c] is Collect);
    let ground = phases[c]->Collect_ground;
    let s = lemma_surveyed(asked, phases, events, c, ground);
    assert(strayed(events[s], events[c], events[w], path, place, later[k]));
}

/// That nothing went astray is concluded only from a look that came when the
/// time for looking was over.
pub proof fn law_nothing_astray_only_after_the_deadline(
    asked: Asked,
    phases: Seq<Phase>,
    events: Seq<Event>,
    i: int,
)
    requires
        is_course(asked, phases, events),
        0 <= i < phases.len(),
        phases[i] matches Phase::AskHeld { candidates, failure } && candidates.len() == 0,
    ensures
        exists|w: int|
            0 <= w < i && phases[w] is Watch && (#[trigger] events[w] matches Event::Watched {
                elapsed,
                table,
            } && elapsed >= STRAY_WATCH),
{
    let w = lemma_entered(asked, phases, events, i);
    assert(phases[w] is Watch);
    assert(events[w] matches Event::Watched { elapsed, table } && elapsed >= STRAY_WATCH);
}

/// A mount that was there before the helper was started is never removed by
/// the search for strays, and neither is one on the approved directory.
pub proof fn law_strangers_and_the_approved_place_are_no_strays(
    surveyed: Event,
    collected: Event,
    watched: Event,
    path: Seq<char>,
    place: Seq<char>,
    entry: Entry,
)
    requires
        strayed(surveyed, collected, watched, path, place, entry),
    ensures
        surveyed matches Event::Surveyed { connections, table: Ok(earlier) } && !entries(
            earlier@,
        ).contains(entry),
        !same_place(place, path),
        is_fuse(entry.fstype),
{
    let earlier = entries(surveyed->Surveyed_table->Ok_0@);
    let fresh = connections_between(
        optional_views(surveyed->Surveyed_connections),
        optional_views(collected->Collected_connections),
    );
    if earlier.contains(entry) {
        crate::mount_table::law_known_mounts_are_no_strays(earlier, entry, path, fresh);
    }
}

/// A mount is watched over exactly if its application asked for that.
pub proof fn law_watched_over_exactly_if_asked(
    asked: Asked,
    phases: Seq<Phase>,
    events: Seq<Event>,
    i: int,
)
    requires
        is_course(asked, phases, events),
        0 <= i < phases.len(),
        phases[i] is Mounted,
    ensures
        phases[i]->Mounted_watch == asks_auto_unmount(asked.options),
        phases[i]->Mounted_record.app_id == asked.app_id,
{
    let j = lemma_entered(asked, phases, events, i);
    assert(phases[j] is HandOver);
}

/// How far a phase is from an answer.
pub open spec fn distance(phase: Phase) -> nat {
    match phase {
        Phase::Resolve => 14,
        Phase::Claim { .. } => 13,
        Phase::Look { .. } => 12,
        Phase::Survey { .. } => 11,
        Phase::Launch { .. } => 10,
        Phase::Wait { .. } => 9,
        Phase::Collect { .. } => 8,
        Phase::HandOver { .. } => 7,
        Phase::Watch { .. } => 6,
        Phase::AskHeld { .. } => 5,
        Phase::LetGo { .. } => 4,
        Phase::Remove { .. } => 3,
        Phase::Revert { .. } => 3,
        Phase::Complain { .. } => 2,
        Phase::TakeBack { .. } => 1,
        Phase::Mounted { .. } => 0,
        Phase::Refused { .. } => 0,
    }
}

/// Whether an event is what a phase asked for.
pub open spec fn asked_for(phase: Phase, event: Event) -> bool {
    match phase {
        Phase::Resolve => event is Probed,
        Phase::Claim { .. } => event is Claimed,
        Phase::Look { .. } => event is TableRead,
        Phase::Survey { .. } => event is Surveyed,
        Phase::Launch { .. } => event is Launched,
        Phase::Wait { .. } => event is Waited,
        Phase::Collect { .. } => event is Collected,
        Phase::HandOver { .. } => event is Sent,
        Phase::Watch { .. } => event is Watched,
        Phase::AskHeld { .. } => event is Answered,
        Phase::LetGo { .. } => event is Answered,
        Phase::Remove { .. } => event is Removed,
        Phase::Revert { .. } => event is Reverted,
        Phase::Complain { .. } => event is Complained,
        Phase::TakeBack { .. } => event is Reverted,
        _ => false,
    }
}

/// A request never goes back, and what a phase asked for always brings it
/// nearer to its answer, except while it waits for the mount or watches for
/// strays, which both end.
pub proof fn law_requests_move_on(asked: Asked, phase: Phase, event: Event)
    ensures
        distance(next_phase(asked, phase, event)) <= distance(phase),
        asked_for(phase, event) && !(phase is Wait) && !(phase is Watch) ==> distance(
            next_phase(asked, phase, event),
        ) < distance(phase),
{
}

/// Later phases are no further from the answer.
proof fn lemma_nearer(asked: Asked, phases: Seq<Phase>, events: Seq<Event>, i: int, j: int)
    requires
        is_course(asked, phases, events),
        0 <= i <= j < phases.len(),
    ensures
        distance(phases[j]) <= distance(phases[i]),
    decreases j - i,
{
    if i < j {
        lemma_nearer(asked, phases, events, i, j - 1);
        assert(phases[j - 1 + 1] == next_phase(asked, phases[j - 1], events[j - 1]));
        law_requests_move_on(asked, phases[j - 1], events[j - 1]);
    }
}

/// Whether a phase has the daemon drop the descriptor.
pub open spec fn drops_descriptor(phase: Phase) -> bool {
    phase is LetGo || phase is Revert || phase is TakeBack
}

/// A request that got as far as taking the descriptor and is refused has had
/// the descriptor dropped, so that whatever was mounted with it is dead.
pub proof fn law_refusals_drop_the_descriptor(
    asked: Asked,
    phases: Seq<Phase>,
    events: Seq<Event>,
    c: int,
    i: int,
)
    requires
        is_course(asked, phases, events),
        0 <= c < i < phases.len(),
        phases[c] is Collect,
        events[c] is Collected,
        phases[i] is Refused,
    ensures
        exists|k: int| c < k < i && drops_descriptor(#[trigger] phases[k]),
{
    let j = lemma_entered(asked, phases, events, i);
    assert(phases[c + 1] == next_phase(asked, phases[c], events[c]));
    assert(distance(phases[c + 1]) < distance(phases[c]));
    assert(c < j) by {
        if j < c {
            assert(phases[c] == phases[i]);
        } else if j == c {
            assert(phases[c + 1] == phases[i]);
        }
    }
    lemma_nearer(asked, phases, events, c + 1, j);
    if phases[j] is TakeBack {
        assert(drops_descriptor(phases[j]));
    } else {
        assert(phases[j] is Complain);
        let k = lemma_entered(asked, phases, events, j);
        assert(c < k) by {
            if k < c {
                assert(phases[c] == phases[j]);
            } else if k == c {
                assert(phases[c + 1] == phases[j]);
            }
        }
        if phases[k] is Revert {
            assert(drops_descriptor(phases[k]));
        } else {
            assert(phases[k] is Remove);
            let m = lemma_entered(asked, phases, events, k);
            assert(c < m) by {
                if m < c {
                    assert(phases[c] == phases[k]);
                } else if m == c {
                    assert(phases[c + 1] == phases[k]);
                }
            }
            assert(drops_descriptor(phases[m]));
        }
    }
}

/// However a request ends, the books stay in order and within both limits,
/// and its claim is gone: what is in flight never outlives its request.
pub proof fn law_conclusions_keep_order_and_limits(
    books: Books,
    phase: Phase,
    at: int,
    max: nat,
)
    requires
        orderly(books),
        within_limits(books, max),
        0 <= at < books.claims.len(),
        phase matches Phase::Mounted { record, watch } ==> record.path == books.claims[at].path
            && record.app_id == books.claims[at].app_id,
    ensures
        ({
            let path = books.claims[at].path;
            let after = concluded(books, phase, Some(path));
            &&& orderly(after)
            &&& within_limits(after, max)
            &&& !claimed(after.claims, path)
            &&& phase matches Phase::Mounted { record, watch } ==> after.mounts
                == books.mounts.push(record)
            &&& phase is Refused ==> after.mounts == books.mounts
        }),
{
    let path = books.claims[at].path;
    crate::ledger::lemma_claims_elsewhere(books.claims, path);
    match phase {
        Phase::Mounted { record, watch } => {
            law_records_keep_order_and_limits(books, at, record, max);
        },
        _ => {
            law_releases_keep_order_and_limits(books, path, max);
        },
    }
}

/// What is mounted is recorded for the application that asked, under the
/// directory that was approved, with the identity of the mount that was
/// confirmed there.
pub proof fn law_what_is_confirmed_is_what_is_recorded(
    asked: Asked,
    phases: Seq<Phase>,
    events: Seq<Event>,
    i: int,
)
    requires
        is_course(asked, phases, events),
        0 <= i < phases.len(),
        phases[i] is Mounted,
    ensures
        exists|j: int, entry: Entry|
            {
                &&& 0 <= j < i
                &&& #[trigger] confirms(
                    asked,
                    phases[j],
                    events[j],
                    phases[i]->Mounted_record.path,
                    entry,
                )
                &&& phases[i]->Mounted_record.fstype == entry.fstype
                &&& phases[i]->Mounted_record.source == entry.source
                &&& phases[i]->Mounted_record.identity.id == entry.id
                &&& phases[i]->Mounted_record.app_id == asked.app_id
            },
{
    let h = lemma_entered(asked, phases, events, i);
    assert(phases[h] is HandOver);
    let j = lemma_entered(asked, phases, events, h);
    let entry = phases[h]->HandOver_entry;
    assert(confirms(asked, phases[j], events[j], phases[i]->Mounted_record.path, entry));
}

} // verus!
