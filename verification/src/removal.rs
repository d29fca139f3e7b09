//! Taking a mount down that must not stay, or that its owner wants gone.
use vstd::prelude::*;

use crate::error::BridgeError;
#[allow(unused_imports)]
use crate::error::{answer, Refusal};
use crate::mountinfo::{find, lossy_text, MountEntry};
#[allow(unused_imports)]
use crate::mountinfo::{entries, text_of, topmost};
use crate::policy::{inside_allowed, may_unmount, unmount_arguments};
#[allow(unused_imports)]
use crate::policy::{inside_any, unmount_helper_arguments};
use crate::registry::{is_same_mount, Identity, Registry};
#[allow(unused_imports)]
use crate::registry::{orderly, recorded, same_mount, with_mount, without_mount, Books, MountIdentity, Record};
use crate::request::FUSERMOUNT;
use crate::text::{concat2, concat3, trim_text};
#[allow(unused_imports)]
use crate::text::{trim, views};

verus! {

/// How often to try to remove a mount that must not stay.
pub const REVERT_ATTEMPTS: u32 = 40;

/// The pause between two attempts, in milliseconds.
pub const REVERT_PAUSE: u64 = 50;

/// What is mounted at a place, as far as it can be told.
#[derive(Debug)]
pub enum Sighting {
    Nothing,
    Mount(Identity),
    Unreadable(String),
}

/// The same, as plain values.
pub ghost enum Seen {
    Nothing,
    Mount(MountIdentity),
    Unreadable(Seq<char>),
}

impl View for Sighting {
    type V = Seen;

    open spec fn view(&self) -> Seen {
        match self {
            Sighting::Nothing => Seen::Nothing,
            Sighting::Mount(identity) => Seen::Mount(identity@),
            Sighting::Unreadable(e) => Seen::Unreadable(e@),
        }
    }
}

/// What a reading of the mount table shows at a place.
pub open spec fn seen_in(
    table: Result<Vec<MountEntry>, String>,
    place: Seq<char>,
    unique: Option<u64>,
) -> Seen {
    match table {
        Ok(t) => match topmost(entries(t@), place) {
            Some(entry) => Seen::Mount(MountIdentity { unique, id: entry.id }),
            None => Seen::Nothing,
        },
        Err(e) => Seen::Unreadable(e@),
    }
}

/// Looks a place up in a reading of the mount table. `unique` is the number
/// that the kernel gives the mount there and never hands out again, where it
/// has one.
pub fn sight(table: Result<Vec<MountEntry>, String>, place: &str, unique: Option<u64>) -> (sighting:
    Sighting)
    ensures
        sighting@ == seen_in(table, place@, unique),
{
    match table {
        Ok(t) => match find(&t, place) {
            Some(entry) => Sighting::Mount(Identity { unique, id: entry.id }),
            None => Sighting::Nothing,
        },
        Err(e) => Sighting::Unreadable(e),
    }
}

/// The removal of a mount. Unmounting names a path, and a path can be
/// swapped like any other, so it is repeated until the mount is gone.
#[derive(Debug)]
pub struct Removal {
    path: String,
    identity: Option<Identity>,
    attempts: u32,
}

/// The same, as plain values.
pub ghost struct Removing {
    pub path: Seq<char>,
    /// The mount meant, where that matters; otherwise whatever is there.
    pub identity: Option<MountIdentity>,
    pub attempts: nat,
}

impl View for Removal {
    type V = Removing;

    closed spec fn view(&self) -> Removing {
        Removing {
            path: self.path@,
            identity: match self.identity {
                Some(i) => Some(i@),
                None => None,
            },
            attempts: self.attempts as nat,
        }
    }
}

/// Whether the mount that is to go is still there.
pub open spec fn remains(meant: Option<MountIdentity>, seen: Seen) -> bool {
    seen matches Seen::Mount(now) && (meant matches Some(identity) ==> same_mount(identity, now))
}

/// What a removal comes to after a look at its place.
pub ghost enum Outcome {
    /// Try once more.
    Again,
    /// The mount is gone.
    Gone,
    /// It is not, or it cannot be told.
    LeftBehind,
}

pub open spec fn outcome(removing: Removing, seen: Seen) -> Outcome {
    if seen is Unreadable {
        Outcome::LeftBehind
    } else if !remains(removing.identity, seen) {
        Outcome::Gone
    } else if removing.attempts < REVERT_ATTEMPTS {
        Outcome::Again
    } else {
        Outcome::LeftBehind
    }
}

/// What the helper is run with to remove a mount that must not stay.
pub open spec fn removal_arguments(removing: Removing) -> Seq<Seq<char>> {
    unmount_helper_arguments(removing.path, true)
}

/// A removal after one more attempt.
pub open spec fn tried_once_more(removing: Removing) -> Removing {
    Removing { attempts: removing.attempts + 1, ..removing }
}

/// What is to be done next about a removal.
#[derive(Debug)]
pub enum RemovalStep {
    /// Run the helper with these arguments, pause, and look again.
    Run(Vec<String>),
    Gone,
    LeftBehind,
}

/// A removal that is still to be tried: of one mount, or of whatever is at a
/// place.
pub open spec fn removal_of(path: Seq<char>, identity: Option<MountIdentity>) -> Removing {
    Removing { path, identity, attempts: 0 }
}

impl Removal {
    /// The removal of whatever is mounted at a place.
    pub fn of_place(path: &str) -> (removal: Removal)
        ensures
            removal@ == removal_of(path@, None),
    {
        Removal { path: path.to_owned(), identity: None, attempts: 0 }
    }

    /// The removal of one mount; another one at the same place is left alone.
    pub fn of_mount(path: &str, identity: Identity) -> (removal: Removal)
        ensures
            removal@ == removal_of(path@, Some(identity@)),
    {
        Removal { path: path.to_owned(), identity: Some(identity), attempts: 0 }
    }

    /// Goes on after a look at the place.
    pub fn proceed(&mut self, sighting: &Sighting) -> (step: RemovalStep)
        ensures
            match outcome(old(self)@, sighting@) {
                Outcome::Again => {
                    &&& step matches RemovalStep::Run(arguments) && views(arguments@)
                        == removal_arguments(old(self)@)
                    &&& final(self)@ == tried_once_more(old(self)@)
                },
                Outcome::Gone => step is Gone && final(self)@ == old(self)@,
                Outcome::LeftBehind => step is LeftBehind && final(self)@ == old(self)@,
            },
    {
        let there = match sighting {
            Sighting::Unreadable(_) => { return RemovalStep::LeftBehind; },
            Sighting::Nothing => false,
            Sighting::Mount(now) => match &self.identity {
                Some(meant) => is_same_mount(meant, now),
                None => true,
            },
        };
        if !there {
            RemovalStep::Gone
        } else if self.attempts < REVERT_ATTEMPTS {
            self.attempts = self.attempts + 1;
            RemovalStep::Run(unmount_arguments(self.path.as_str(), true))
        } else {
            RemovalStep::LeftBehind
        }
    }
}

/// A removal is only called done when a look shows that the mount is gone.
pub proof fn law_gone_means_gone(removing: Removing, seen: Seen)
    ensures
        outcome(removing, seen) is Gone ==> !(seen is Unreadable) && !remains(
            removing.identity,
            seen,
        ),
{
}

/// The helper is never run against another mount than the one meant, nor
/// against a place where nothing is mounted.
pub proof fn law_only_the_mount_meant_is_removed(removing: Removing, seen: Seen)
    requires
        outcome(removing, seen) is Again,
    ensures
        seen matches Seen::Mount(now) && (removing.identity matches Some(meant) ==> same_mount(
            meant,
            now,
        )),
{
}

/// Every attempt counts, and after the last one the removal ends.
pub proof fn law_removals_end(removing: Removing, seen: Seen)
    requires
        removing.attempts >= REVERT_ATTEMPTS,
    ensures
        !(outcome(removing, seen) is Again),
{
}

/// The places whose removal did not succeed, in order.
pub open spec fn not_removed(places: Seq<Seq<char>>, gone: Seq<bool>) -> Seq<Seq<char>>
    decreases places.len(),
{
    if places.len() == 0 {
        Seq::empty()
    } else {
        let last = places.len() - 1;
        let earlier = not_removed(places.drop_last(), gone);
        if last < gone.len() && gone[last] {
            earlier
        } else {
            earlier.push(places.last())
        }
    }
}

/// The places whose mounts are left behind, given whether each is gone.
pub fn left_behind(places: &Vec<String>, gone: &Vec<bool>) -> (left: Vec<String>)
    ensures
        views(left@) == not_removed(views(places@), gone@),
{
    let ghost texts = views(places@);
    let mut left: Vec<String> = Vec::new();
    let mut i: usize = 0;
    assert(views(left@) == not_removed(texts.take(0), gone@));
    while i < places.len()
        invariant
            i <= places.len(),
            texts == views(places@),
            views(left@) == not_removed(texts.take(i as int), gone@),
        decreases places.len() - i,
    {
        proof {
            assert(texts.take(i as int + 1).drop_last() == texts.take(i as int));
            assert(texts.take(i as int + 1).last() == places@[i as int]@);
        }
        if !(i < gone.len() && gone[i]) {
            let place = places[i].clone();
            proof {
                crate::text::lemma_views_push(left@, place);
            }
            left.push(place);
        }
        i += 1;
    }
    assert(texts.take(i as int) == texts);
    left
}

/// What is next about a request to unmount.
#[derive(Debug)]
pub enum UnmountStage {
    /// Look at what is mounted there.
    Look,
    /// Run the helper with these arguments.
    Run(Vec<String>),
    Answer(Result<(), BridgeError>),
}

/// The same, as plain values.
pub ghost enum UnmountPhase {
    Look,
    Run(Seq<Seq<char>>),
    Answer(Result<(), Refusal>),
}

impl View for UnmountStage {
    type V = UnmountPhase;

    open spec fn view(&self) -> UnmountPhase {
        match self {
            UnmountStage::Look => UnmountPhase::Look,
            UnmountStage::Run(arguments) => UnmountPhase::Run(views(arguments@)),
            UnmountStage::Answer(result) => UnmountPhase::Answer(answer(*result)),
        }
    }
}

/// The answer where a mount is not the daemon's.
pub open spec fn not_ours(place: Seq<char>) -> Refusal {
    Refusal::AccessDenied("'"@ + place + "' was not mounted through this daemon"@)
}

/// Why a request to unmount is refused without looking at what is mounted.
pub open spec fn unmount_refusal(
    books: Books,
    place: Seq<char>,
    app_id: Seq<char>,
    roots: Seq<Seq<char>>,
) -> Option<Refusal> {
    if !inside_any(place, roots) {
        Some(Refusal::AccessDenied("'"@ + place + "' is outside the allowed mount roots"@))
    } else {
        match recorded(books.mounts, place) {
            None => Some(not_ours(place)),
            Some(record) => if record.app_id == app_id {
                None
            } else {
                Some(Refusal::AccessDenied("mount belongs to a different application"@))
            },
        }
    }
}

/// What follows a look at a place that its owner wants unmounted, and the
/// books afterwards. A record outlives its mount, so what is mounted there
/// now may be a stranger's.
pub open spec fn after_sighting(books: Books, place: Seq<char>, seen: Seen, lazy: bool) -> (
    UnmountPhase,
    Books,
) {
    match recorded(books.mounts, place) {
        None => (UnmountPhase::Answer(Err(not_ours(place))), books),
        Some(record) => match seen {
            Seen::Unreadable(e) => (
                UnmountPhase::Answer(Err(Refusal::Failed("cannot read mountinfo: "@ + e))),
                books,
            ),
            Seen::Nothing => (UnmountPhase::Answer(Ok(())), without_mount(books, place)),
            Seen::Mount(now) => if same_mount(record.identity, now) {
                (UnmountPhase::Run(unmount_helper_arguments(place, lazy)), books)
            } else {
                (UnmountPhase::Answer(Err(not_ours(place))), without_mount(books, place))
            },
        },
    }
}

/// What came of running the helper.
#[derive(Debug)]
pub enum HelperOutcome {
    NotRun(String),
    /// It failed: how it ended, and what it wrote.
    Failed { status: String, complaint: Vec<u8> },
    Succeeded,
}

/// The answer after the helper was run.
pub open spec fn helper_answer(outcome: HelperOutcome) -> Result<(), Refusal> {
    match outcome {
        HelperOutcome::NotRun(e) => Err(
            Refusal::Failed("cannot run "@ + FUSERMOUNT@ + ": "@ + e@),
        ),
        HelperOutcome::Failed { status, complaint } => Err(
            Refusal::Failed(
                "fusermount3 -u failed ("@ + status@ + "): "@ + trim(text_of(complaint@)),
            ),
        ),
        HelperOutcome::Succeeded => Ok(()),
    }
}

/// What a request to unmount starts with.
pub open spec fn begun(
    books: Books,
    place: Seq<char>,
    app_id: Seq<char>,
    roots: Seq<Seq<char>>,
) -> UnmountPhase {
    match unmount_refusal(books, place, app_id, roots) {
        Some(refusal) => UnmountPhase::Answer(Err(refusal)),
        None => UnmountPhase::Look,
    }
}

/// The books after the helper was run.
pub open spec fn after_helper(books: Books, place: Seq<char>, outcome: HelperOutcome) -> Books {
    if outcome is Succeeded {
        without_mount(books, place)
    } else {
        books
    }
}

/// Decides whether a request to unmount may go on: only for a mount that was
/// made through the daemon, strictly inside the allowed roots, and only for
/// the application that made it.
pub fn begin_unmount(registry: &Registry, place: &str, app_id: &str, roots: &[String]) -> (stage:
    UnmountStage)
    ensures
        stage@ == begun(registry@, place@, app_id@, views(roots@)),
{
    if !inside_allowed(place, roots) {
        return UnmountStage::Answer(
            Err(
                BridgeError::AccessDenied(
                    concat3("'", place, "' is outside the allowed mount roots"),
                ),
            ),
        );
    }
    match registry.find(place) {
        None => UnmountStage::Answer(Err(deny_not_ours(place))),
        Some(record) => if may_unmount(record.app_id.as_str(), app_id) {
            UnmountStage::Look
        } else {
            UnmountStage::Answer(
                Err(
                    BridgeError::AccessDenied(
                        "mount belongs to a different application".to_owned(),
                    ),
                ),
            )
        },
    }
}

fn deny_not_ours(place: &str) -> (error: BridgeError)
    ensures
        error@ == not_ours(place@),
{
    BridgeError::AccessDenied(concat3("'", place, "' was not mounted through this daemon"))
}

/// Goes on with a request to unmount after a look at the place.
pub fn continue_unmount(registry: &mut Registry, place: &str, sighting: &Sighting, lazy: bool) -> (stage:
    UnmountStage)
    ensures
        (stage@, final(registry)@) == after_sighting(old(registry)@, place@, sighting@, lazy),
        orderly(final(registry)@),
{
    proof {
        use_type_invariant(&*registry);
    }
    let record = match registry.find(place) {
        None => { return UnmountStage::Answer(Err(deny_not_ours(place))); },
        Some(record) => record,
    };
    match sighting {
        Sighting::Unreadable(e) => UnmountStage::Answer(
            Err(BridgeError::Failed(concat2("cannot read mountinfo: ", e.as_str()))),
        ),
        Sighting::Nothing => {
            let _ = registry.remove(place);
            UnmountStage::Answer(Ok(()))
        },
        Sighting::Mount(now) => if is_same_mount(&record.identity, now) {
            UnmountStage::Run(unmount_arguments(place, lazy))
        } else {
            let _ = registry.remove(place);
            UnmountStage::Answer(Err(deny_not_ours(place)))
        },
    }
}

/// Ends a request to unmount after the helper was run: the record goes
/// exactly if the mount did.
pub fn finish_unmount(registry: &mut Registry, place: &str, outcome: &HelperOutcome) -> (result:
    Result<(), BridgeError>)
    ensures
        answer(result) == helper_answer(*outcome),
        final(registry)@ == after_helper(old(registry)@, place@, *outcome),
        orderly(final(registry)@),
{
    proof {
        use_type_invariant(&*registry);
    }
    match outcome {
        HelperOutcome::NotRun(e) => {
            let start = concat3("cannot run ", FUSERMOUNT, ": ");
            Err(BridgeError::Failed(concat2(start.as_str(), e.as_str())))
        },
        HelperOutcome::Failed { status, complaint } => {
            let start = concat3("fusermount3 -u failed (", status.as_str(), "): ");
            let text = lossy_text(complaint.as_slice());
            let words = trim_text(text.as_str());
            Err(BridgeError::Failed(concat2(start.as_str(), words.as_str())))
        },
        HelperOutcome::Succeeded => {
            let _ = registry.remove(place);
            Ok(())
        },
    }
}

/// The helper is run only on a mount strictly inside the allowed roots that
/// was made through the daemon, for the application that made it, and only
/// while it is still that mount which is there.
pub proof fn law_only_owners_unmount_their_own(
    books: Books,
    place: Seq<char>,
    app_id: Seq<char>,
    roots: Seq<Seq<char>>,
    seen: Seen,
    lazy: bool,
)
    requires
        unmount_refusal(books, place, app_id, roots) is None,
        after_sighting(books, place, seen, lazy).0 is Run,
    ensures
        inside_any(place, roots),
        recorded(books.mounts, place) matches Some(record) && record.app_id == app_id && (seen
            matches Seen::Mount(now) && same_mount(record.identity, now)),
        after_sighting(books, place, seen, lazy).0 == UnmountPhase::Run(
            unmount_helper_arguments(place, lazy),
        ),
{
}

/// A mount that is not in the books, or is another application's, is never
/// unmounted, and the books stay as they are.
pub proof fn law_foreign_mounts_are_refused(
    books: Books,
    place: Seq<char>,
    app_id: Seq<char>,
    roots: Seq<Seq<char>>,
)
    requires
        recorded(books.mounts, place) matches Some(record) ==> record.app_id != app_id,
    ensures
        unmount_refusal(books, place, app_id, roots) is Some,
{
}

/// A stranger's mount that took a recorded mount's place is left alone, and
/// the record that no longer means anything goes.
pub proof fn law_a_stranger_in_place_is_left_alone(
    books: Books,
    place: Seq<char>,
    record: Record,
    now: MountIdentity,
    lazy: bool,
)
    requires
        recorded(books.mounts, place) == Some(record),
        !same_mount(record.identity, now),
    ensures
        after_sighting(books, place, Seen::Mount(now), lazy) == (
            UnmountPhase::Answer(Err(not_ours(place))),
            without_mount(books, place),
        ),
        outcome(
            Removing { path: place, identity: Some(record.identity), attempts: 0 },
            Seen::Mount(now),
        ) is Gone,
{
}

/// What an application mounted through the daemon it can unmount: the
/// request is not refused, the helper is run on the mount while it is there,
/// and afterwards the books hold nothing at its place. No other application
/// can.
pub proof fn law_what_was_mounted_can_be_unmounted(
    books: Books,
    record: Record,
    other: Seq<char>,
    roots: Seq<Seq<char>>,
    now: MountIdentity,
    lazy: bool,
)
    requires
        inside_any(record.path, roots),
        same_mount(record.identity, now),
    ensures
        ({
            let held = with_mount(books, record);
            &&& unmount_refusal(held, record.path, record.app_id, roots) is None
            &&& after_sighting(held, record.path, Seen::Mount(now), lazy) == (
                UnmountPhase::Run(unmount_helper_arguments(record.path, lazy)),
                held,
            )
            &&& recorded(without_mount(held, record.path).mounts, record.path) is None
            &&& other != record.app_id ==> unmount_refusal(held, record.path, other, roots) is Some
        }),
{
    crate::ledger::law_remove_undoes_record(books, record);
}

} // verus!
