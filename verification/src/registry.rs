//! What the daemon knows about mounts: the ones it made, and the places it is
//! in the middle of mounting on. Both are decided on together.
use vstd::prelude::*;

use crate::mountinfo::{find, MountEntry};
#[allow(unused_imports)]
use crate::mountinfo::{entries, topmost};
use crate::path::same_path;
#[allow(unused_imports)]
use crate::ledger::{
    law_claims_keep_order, law_records_keep_order, law_releases_keep_order,
    law_removals_keep_order, law_sweeps_keep_order,
};
#[allow(unused_imports)]
use crate::path::same_place;
use crate::text::{concat3, decimal_text, same_text};
#[allow(unused_imports)]
use crate::text::decimal;

verus! {

/// The ceiling on live mounts where none is configured. Mount table entries
/// are a finite resource of the whole session.
pub const DEFAULT_MAX_MOUNTS: usize = 64;

/// How many live mounts one application may hold. A ceiling alone would let
/// the first application to reach it shut out all others.
pub const MAX_MOUNTS_PER_APP: usize = 16;

/// What tells a mount from another one at the same place.
#[derive(Debug, PartialEq, Eq)]
pub struct Identity {
    /// The number that the kernel never hands out again, where it has one.
    pub unique: Option<u64>,
    /// The number in the mount table, which may come back.
    pub id: String,
}

/// The same, as plain values.
pub ghost struct MountIdentity {
    pub unique: Option<u64>,
    pub id: Seq<char>,
}

impl View for Identity {
    type V = MountIdentity;

    open spec fn view(&self) -> MountIdentity {
        MountIdentity { unique: self.unique, id: self.id@ }
    }
}

impl Clone for Identity {
    fn clone(&self) -> (copy: Self)
        ensures
            copy@ == self@,
    {
        Identity { unique: self.unique, id: self.id.clone() }
    }
}

/// Whether two sightings are of the same mount: by the numbers that never
/// come back where both have one, by the other ones otherwise.
pub open spec fn same_mount(a: MountIdentity, b: MountIdentity) -> bool {
    match (a.unique, b.unique) {
        (Some(x), Some(y)) => x == y,
        _ => a.id == b.id,
    }
}

/// Whether a mount is still the one that was recorded.
pub fn is_same_mount(recorded: &Identity, now: &Identity) -> (same: bool)
    ensures
        same == same_mount(recorded@, now@),
{
    match (recorded.unique, now.unique) {
        (Some(x), Some(y)) => x == y,
        _ => same_text(recorded.id.as_str(), now.id.as_str()),
    }
}

/// A mount that was made through the daemon.
#[derive(Debug)]
pub struct MountRecord {
    pub path: String,
    pub app_id: String,
    pub fstype: String,
    pub source: String,
    pub identity: Identity,
}

/// The same, as plain values.
pub ghost struct Record {
    pub path: Seq<char>,
    pub app_id: Seq<char>,
    pub fstype: Seq<char>,
    pub source: Seq<char>,
    pub identity: MountIdentity,
}

impl View for MountRecord {
    type V = Record;

    open spec fn view(&self) -> Record {
        Record {
            path: self.path@,
            app_id: self.app_id@,
            fstype: self.fstype@,
            source: self.source@,
            identity: self.identity@,
        }
    }
}

impl Clone for MountRecord {
    fn clone(&self) -> (copy: Self)
        ensures
            copy@ == self@,
    {
        MountRecord {
            path: self.path.clone(),
            app_id: self.app_id.clone(),
            fstype: self.fstype.clone(),
            source: self.source.clone(),
            identity: self.identity.clone(),
        }
    }
}

/// A place that a request is mounting on, and for whom.
#[derive(Debug)]
struct Claim {
    path: String,
    app_id: String,
}

/// The same, as plain text.
pub ghost struct Claimed {
    pub path: Seq<char>,
    pub app_id: Seq<char>,
}

impl View for Claim {
    type V = Claimed;

    closed spec fn view(&self) -> Claimed {
        Claimed { path: self.path@, app_id: self.app_id@ }
    }
}

/// Mounts and claims.
#[derive(Debug)]
pub struct Registry {
    mounts: Vec<MountRecord>,
    in_progress: Vec<Claim>,
}

/// What a registry holds, oldest first.
pub ghost struct Books {
    pub mounts: Seq<Record>,
    pub claims: Seq<Claimed>,
}

/// Records as plain values.
pub open spec fn records(list: Seq<MountRecord>) -> Seq<Record> {
    list.map_values(|r: MountRecord| r@)
}

spec fn claims(list: Seq<Claim>) -> Seq<Claimed> {
    list.map_values(|c: Claim| c@)
}

impl View for Registry {
    type V = Books;

    closed spec fn view(&self) -> Books {
        Books { mounts: records(self.mounts@), claims: claims(self.in_progress@) }
    }
}

/// The mount recorded at a place.
pub open spec fn recorded(mounts: Seq<Record>, place: Seq<char>) -> Option<Record>
    decreases mounts.len(),
{
    if mounts.len() == 0 {
        None
    } else if same_place(mounts.last().path, place) {
        Some(mounts.last())
    } else {
        recorded(mounts.drop_last(), place)
    }
}

/// The mounts recorded elsewhere.
pub open spec fn mounts_elsewhere(mounts: Seq<Record>, place: Seq<char>) -> Seq<Record>
    decreases mounts.len(),
{
    if mounts.len() == 0 {
        Seq::empty()
    } else {
        let earlier = mounts_elsewhere(mounts.drop_last(), place);
        if same_place(mounts.last().path, place) {
            earlier
        } else {
            earlier.push(mounts.last())
        }
    }
}

/// The claims on other places.
pub open spec fn claims_elsewhere(held: Seq<Claimed>, place: Seq<char>) -> Seq<Claimed>
    decreases held.len(),
{
    if held.len() == 0 {
        Seq::empty()
    } else {
        let earlier = claims_elsewhere(held.drop_last(), place);
        if same_place(held.last().path, place) {
            earlier
        } else {
            earlier.push(held.last())
        }
    }
}

/// Whether a place is claimed.
pub open spec fn claimed(held: Seq<Claimed>, place: Seq<char>) -> bool {
    exists|i: int| 0 <= i < held.len() && same_place((#[trigger] held[i]).path, place)
}

/// Whether no two mounts are recorded at one place.
pub open spec fn mounts_apart(mounts: Seq<Record>) -> bool {
    forall|i: int, j: int|
        0 <= i < j < mounts.len() ==> !same_place(
            (#[trigger] mounts[i]).path,
            (#[trigger] mounts[j]).path,
        )
}

/// Whether no two claims are on one place.
pub open spec fn claims_apart(held: Seq<Claimed>) -> bool {
    forall|i: int, j: int|
        0 <= i < j < held.len() ==> !same_place(
            (#[trigger] held[i]).path,
            (#[trigger] held[j]).path,
        )
}

/// Whether books are in order: no place is recorded twice, claimed twice, or
/// both recorded and claimed.
pub open spec fn orderly(books: Books) -> bool {
    &&& mounts_apart(books.mounts)
    &&& claims_apart(books.claims)
    &&& forall|i: int|
        0 <= i < books.mounts.len() ==> !claimed(books.claims, (#[trigger] books.mounts[i]).path)
}

/// How many mounts an application holds.
pub open spec fn mounts_of(mounts: Seq<Record>, app_id: Seq<char>) -> nat
    decreases mounts.len(),
{
    if mounts.len() == 0 {
        0
    } else {
        mounts_of(mounts.drop_last(), app_id) + if mounts.last().app_id == app_id {
            1nat
        } else {
            0nat
        }
    }
}

/// How many claims an application holds.
pub open spec fn claims_of(held: Seq<Claimed>, app_id: Seq<char>) -> nat
    decreases held.len(),
{
    if held.len() == 0 {
        0
    } else {
        claims_of(held.drop_last(), app_id) + if held.last().app_id == app_id {
            1nat
        } else {
            0nat
        }
    }
}

/// What an application holds in all, requests in flight included.
pub open spec fn held_by(books: Books, app_id: Seq<char>) -> nat {
    mounts_of(books.mounts, app_id) + claims_of(books.claims, app_id)
}

/// The judgement on a claim: why the place cannot be had, if it cannot.
pub open spec fn claim_fault(books: Books, path: Seq<char>, app_id: Seq<char>, max: nat) -> Option<
    Seq<char>,
> {
    if books.mounts.len() + books.claims.len() >= max {
        Some("the limit of "@ + decimal(max) + " live mounts is reached"@)
    } else if held_by(books, app_id) >= MAX_MOUNTS_PER_APP {
        Some(
            "the limit of "@ + decimal(MAX_MOUNTS_PER_APP as nat)
                + " live mounts for one application is reached"@,
        )
    } else if recorded(books.mounts, path) is Some {
        Some("'"@ + path + "' is already mounted via this daemon"@)
    } else if claimed(books.claims, path) {
        Some("'"@ + path + "' is already being mounted"@)
    } else {
        None
    }
}

/// The books with one more claim.
pub open spec fn with_claim(books: Books, path: Seq<char>, app_id: Seq<char>) -> Books {
    Books { claims: books.claims.push(Claimed { path, app_id }), ..books }
}

/// The books with no claim on a place.
pub open spec fn without_claim(books: Books, path: Seq<char>) -> Books {
    Books { claims: claims_elsewhere(books.claims, path), ..books }
}

/// The books with no mount at a place.
pub open spec fn without_mount(books: Books, path: Seq<char>) -> Books {
    Books { mounts: mounts_elsewhere(books.mounts, path), ..books }
}

/// The books with a mount in place of the claim on its place.
pub open spec fn with_mount(books: Books, record: Record) -> Books {
    Books {
        mounts: mounts_elsewhere(books.mounts, record.path).push(record),
        claims: claims_elsewhere(books.claims, record.path),
    }
}

/// Whether two readings of the mount table agree that nothing is mounted at a
/// place. A reading that failed says nothing.
pub open spec fn gone(
    first: Result<Vec<MountEntry>, String>,
    second: Result<Vec<MountEntry>, String>,
    place: Seq<char>,
) -> bool {
    match (first, second) {
        (Ok(a), Ok(b)) => topmost(entries(a@), place) is None && topmost(entries(b@), place) is None,
        _ => false,
    }
}

/// The mounts that are not gone.
pub open spec fn still_there(
    mounts: Seq<Record>,
    first: Result<Vec<MountEntry>, String>,
    second: Result<Vec<MountEntry>, String>,
) -> Seq<Record>
    decreases mounts.len(),
{
    if mounts.len() == 0 {
        Seq::empty()
    } else {
        let earlier = still_there(mounts.drop_last(), first, second);
        if gone(first, second, mounts.last().path) {
            earlier
        } else {
            earlier.push(mounts.last())
        }
    }
}

/// Books after a sweep.
pub open spec fn swept(
    books: Books,
    first: Result<Vec<MountEntry>, String>,
    second: Result<Vec<MountEntry>, String>,
) -> Books {
    Books { mounts: still_there(books.mounts, first, second), ..books }
}

/// What comes of asking for a place, and the books afterwards.
pub open spec fn reserved(books: Books, path: Seq<char>, app_id: Seq<char>, max: nat) -> (
    Result<(), Seq<char>>,
    Books,
) {
    match claim_fault(books, path, app_id, max) {
        None => (Ok(()), with_claim(books, path, app_id)),
        Some(fault) => (Err(fault), books),
    }
}

/// One listed mount: place, application, filesystem type and source.
pub open spec fn listed(record: Record) -> (Seq<char>, Seq<char>, Seq<char>, Seq<char>) {
    (record.path, record.app_id, record.fstype, record.source)
}

/// All listed mounts, oldest first.
pub open spec fn listing(mounts: Seq<Record>) -> Seq<
    (Seq<char>, Seq<char>, Seq<char>, Seq<char>),
> {
    mounts.map_values(|r: Record| listed(r))
}

/// Listed mounts as plain text.
pub open spec fn list_views(list: Seq<(String, String, String, String)>) -> Seq<
    (Seq<char>, Seq<char>, Seq<char>, Seq<char>),
> {
    list.map_values(|row: (String, String, String, String)| (row.0@, row.1@, row.2@, row.3@))
}

fn table_shows_nothing(table: &Result<Vec<MountEntry>, String>, place: &str) -> (nothing: bool)
    ensures
        nothing == (table matches Ok(t) && topmost(entries(t@), place@) is None),
{
    match table {
        Ok(t) => match find(t, place) {
            Some(_) => false,
            None => true,
        },
        Err(_) => false,
    }
}

/// Takes the claims on a place out of a list.
fn drop_claims(list: &mut Vec<Claim>, path: &str)
    ensures
        claims(final(list)@) == claims_elsewhere(claims(old(list)@), path@),
{
    let ghost before = claims(list@);
    let mut i: usize = 0;
    let ghost mut seen: int = 0;
    proof {
        assert(claims(list@.take(0)) == claims_elsewhere(before.take(0), path@));
        assert(claims(list@.skip(0)) == before.skip(0));
    }
    while i < list.len()
        invariant
            0 <= i <= list.len(),
            i <= seen <= before.len(),
            before.len() - seen == list.len() - i,
            claims(list@.take(i as int)) == claims_elsewhere(before.take(seen), path@),
            claims(list@.skip(i as int)) == before.skip(seen),
        decreases list.len() - i,
    {
        let ghost now = list@;
        proof {
            assert(before.skip(seen)[0] == before[seen]);
            assert(claims(now.skip(i as int))[0] == now[i as int]@);
            assert(before.take(seen + 1).drop_last() == before.take(seen));
            assert(before.take(seen + 1).last() == before[seen]);
            assert(before.skip(seen).skip(1) == before.skip(seen + 1));
            assert(claims(now.skip(i as int)).skip(1) == claims(now.skip(i as int + 1)));
        }
        if same_path(list[i].path.as_str(), path) {
            let _ = list.remove(i);
            proof {
                assert(list@.take(i as int) == now.take(i as int));
                assert(list@.skip(i as int) == now.skip(i as int + 1));
                seen = seen + 1;
            }
        } else {
            proof {
                assert(claims(now.take(i as int + 1)) == claims(now.take(i as int)).push(
                    now[i as int]@,
                ));
                seen = seen + 1;
            }
            i += 1;
        }
    }
    proof {
        assert(list@.take(i as int) == list@);
        assert(before.take(seen) == before);
    }
}

/// Takes the mounts at a place out of a list.
fn drop_mounts(list: &mut Vec<MountRecord>, path: &str)
    ensures
        records(final(list)@) == mounts_elsewhere(records(old(list)@), path@),
{
    let ghost before = records(list@);
    let mut i: usize = 0;
    let ghost mut seen: int = 0;
    proof {
        assert(records(list@.take(0)) == mounts_elsewhere(before.take(0), path@));
        assert(records(list@.skip(0)) == before.skip(0));
    }
    while i < list.len()
        invariant
            0 <= i <= list.len(),
            i <= seen <= before.len(),
            before.len() - seen == list.len() - i,
            records(list@.take(i as int)) == mounts_elsewhere(before.take(seen), path@),
            records(list@.skip(i as int)) == before.skip(seen),
        decreases list.len() - i,
    {
        let ghost now = list@;
        proof {
            assert(before.skip(seen)[0] == before[seen]);
            assert(records(now.skip(i as int))[0] == now[i as int]@);
            assert(before.take(seen + 1).drop_last() == before.take(seen));
            assert(before.take(seen + 1).last() == before[seen]);
            assert(before.skip(seen).skip(1) == before.skip(seen + 1));
            assert(records(now.skip(i as int)).skip(1) == records(now.skip(i as int + 1)));
        }
        if same_path(list[i].path.as_str(), path) {
            let _ = list.remove(i);
            proof {
                assert(list@.take(i as int) == now.take(i as int));
                assert(list@.skip(i as int) == now.skip(i as int + 1));
                seen = seen + 1;
            }
        } else {
            proof {
                assert(records(now.take(i as int + 1)) == records(now.take(i as int)).push(
                    now[i as int]@,
                ));
                seen = seen + 1;
            }
            i += 1;
        }
    }
    proof {
        assert(list@.take(i as int) == list@);
        assert(before.take(seen) == before);
    }
}

/// Takes the mounts that are gone out of a list.
fn drop_gone(
    list: &mut Vec<MountRecord>,
    first: &Result<Vec<MountEntry>, String>,
    second: &Result<Vec<MountEntry>, String>,
)
    ensures
        records(final(list)@) == still_there(records(old(list)@), *first, *second),
{
    let ghost before = records(list@);
    let mut i: usize = 0;
    let ghost mut seen: int = 0;
    proof {
        assert(records(list@.take(0)) == still_there(before.take(0), *first, *second));
        assert(records(list@.skip(0)) == before.skip(0));
    }
    while i < list.len()
        invariant
            0 <= i <= list.len(),
            i <= seen <= before.len(),
            before.len() - seen == list.len() - i,
            records(list@.take(i as int)) == still_there(before.take(seen), *first, *second),
            records(list@.skip(i as int)) == before.skip(seen),
        decreases list.len() - i,
    {
        let ghost now = list@;
        proof {
            assert(before.skip(seen)[0] == before[seen]);
            assert(records(now.skip(i as int))[0] == now[i as int]@);
            assert(before.take(seen + 1).drop_last() == before.take(seen));
            assert(before.take(seen + 1).last() == before[seen]);
            assert(before.skip(seen).skip(1) == before.skip(seen + 1));
            assert(records(now.skip(i as int)).skip(1) == records(now.skip(i as int + 1)));
        }
        if table_shows_nothing(first, list[i].path.as_str()) && table_shows_nothing(
            second,
            list[i].path.as_str(),
        ) {
            let _ = list.remove(i);
            proof {
                assert(list@.take(i as int) == now.take(i as int));
                assert(list@.skip(i as int) == now.skip(i as int + 1));
                seen = seen + 1;
            }
        } else {
            proof {
                assert(records(now.take(i as int + 1)) == records(now.take(i as int)).push(
                    now[i as int]@,
                ));
                seen = seen + 1;
            }
            i += 1;
        }
    }
    proof {
        assert(list@.take(i as int) == list@);
        assert(before.take(seen) == before);
    }
}

impl Registry {
    /// No place is recorded twice, claimed twice, or both recorded and
    /// claimed.
    #[verifier::type_invariant]
    pub open spec fn in_order(self) -> bool {
        orderly(self@)
    }

    pub fn new() -> (registry: Self)
        ensures
            registry@.mounts.len() == 0,
            registry@.claims.len() == 0,
            orderly(registry@),
    {
        Registry { mounts: Vec::new(), in_progress: Vec::new() }
    }

    /// The mount recorded at a place.
    pub fn find(&self, path: &str) -> (record: Option<MountRecord>)
        ensures
            match record {
                Some(r) => recorded(self@.mounts, path@) == Some(r@),
                None => recorded(self@.mounts, path@) is None,
            },
    {
        let mut i: usize = self.mounts.len();
        let ghost all = records(self.mounts@);
        assert(all.take(i as int) == all);
        while i > 0
            invariant
                i <= self.mounts.len(),
                all == records(self.mounts@),
                recorded(all, path@) == recorded(all.take(i as int), path@),
            decreases i,
        {
            proof {
                assert(all.take(i as int).last() == self.mounts@[i as int - 1]@);
                assert(all.take(i as int).drop_last() == all.take(i as int - 1));
            }
            if same_path(self.mounts[i - 1].path.as_str(), path) {
                return Some(self.mounts[i - 1].clone());
            }
            i -= 1;
        }
        None
    }

    /// How many live mounts and claims there are for an application.
    fn count_for(&self, app_id: &str) -> (count: usize)
        requires
            self@.mounts.len() + self@.claims.len() <= usize::MAX,
        ensures
            count == held_by(self@, app_id@),
    {
        let mut count: usize = 0;
        let mut i: usize = 0;
        let ghost made = records(self.mounts@);
        let ghost held = claims(self.in_progress@);
        while i < self.mounts.len()
            invariant
                i <= self.mounts.len(),
                made == records(self.mounts@),
                self.mounts@.len() + self.in_progress@.len() <= usize::MAX,
                count == mounts_of(made.take(i as int), app_id@),
                count <= i,
            decreases self.mounts.len() - i,
        {
            proof {
                assert(made.take(i as int + 1).drop_last() == made.take(i as int));
                assert(made.take(i as int + 1).last() == self.mounts@[i as int]@);
            }
            if same_text(self.mounts[i].app_id.as_str(), app_id) {
                count += 1;
            }
            i += 1;
        }
        assert(made.take(i as int) == made);
        let mut k: usize = 0;
        while k < self.in_progress.len()
            invariant
                k <= self.in_progress.len(),
                held == claims(self.in_progress@),
                self.mounts@.len() + self.in_progress@.len() <= usize::MAX,
                mounts_of(made, app_id@) <= self.mounts@.len(),
                count == mounts_of(made, app_id@) + claims_of(held.take(k as int), app_id@),
                count <= mounts_of(made, app_id@) + k,
            decreases self.in_progress.len() - k,
        {
            proof {
                assert(held.take(k as int + 1).drop_last() == held.take(k as int));
                assert(held.take(k as int + 1).last() == self.in_progress@[k as int]@);
            }
            if same_text(self.in_progress[k].app_id.as_str(), app_id) {
                count += 1;
            }
            k += 1;
        }
        assert(held.take(k as int) == held);
        count
    }

    fn is_claimed(&self, path: &str) -> (yes: bool)
        ensures
            yes == claimed(self@.claims, path@),
    {
        let mut i: usize = 0;
        let ghost held = claims(self.in_progress@);
        while i < self.in_progress.len()
            invariant
                i <= self.in_progress.len(),
                held == claims(self.in_progress@),
                forall|k: int| 0 <= k < i ==> !same_place((#[trigger] held[k]).path, path@),
            decreases self.in_progress.len() - i,
        {
            assert(held[i as int] == self.in_progress@[i as int]@);
            if same_path(self.in_progress[i].path.as_str(), path) {
                return true;
            }
            i += 1;
        }
        false
    }

    /// Claims a place for a request. Two requests that name the same place
    /// must not both go on, and what is in flight counts against both limits.
    pub fn reserve(&mut self, path: &str, app_id: &str, max_mounts: usize) -> (claim: Result<
        (),
        String,
    >)
        ensures
            match (claim, reserved(old(self)@, path@, app_id@, max_mounts as nat).0) {
                (Ok(()), Ok(())) => true,
                (Err(reason), Err(due)) => reason@ == due,
                _ => false,
            },
            final(self)@ == reserved(old(self)@, path@, app_id@, max_mounts as nat).1,
            orderly(final(self)@),
    {
        proof {
            use_type_invariant(&*self);
        }
        if self.mounts.len() >= max_mounts || self.in_progress.len() >= max_mounts
            - self.mounts.len() {
            let number = decimal_text(max_mounts as u64);
            return Err(concat3("the limit of ", number.as_str(), " live mounts is reached"));
        }
        if self.count_for(app_id) >= MAX_MOUNTS_PER_APP {
            let number = decimal_text(MAX_MOUNTS_PER_APP as u64);
            return Err(
                concat3(
                    "the limit of ",
                    number.as_str(),
                    " live mounts for one application is reached",
                ),
            );
        }
        if let Some(_) = self.find(path) {
            return Err(concat3("'", path, "' is already mounted via this daemon"));
        }
        if self.is_claimed(path) {
            return Err(concat3("'", path, "' is already being mounted"));
        }
        proof {
            law_claims_keep_order(self@, path@, app_id@, max_mounts as nat);
        }
        let claim = Claim { path: path.to_owned(), app_id: app_id.to_owned() };
        let mut held: Vec<Claim> = Vec::new();
        std::mem::swap(&mut held, &mut self.in_progress);
        proof {
            assert(claims(held@.push(claim)) == claims(held@).push(claim@));
        }
        held.push(claim);
        self.in_progress = held;
        Ok(())
    }

    /// Gives up the claim on a place.
    pub fn release(&mut self, path: &str)
        ensures
            final(self)@ == without_claim(old(self)@, path@),
            orderly(final(self)@),
    {
        proof {
            use_type_invariant(&*self);
            law_releases_keep_order(self@, path@);
        }
        let mut held: Vec<Claim> = Vec::new();
        std::mem::swap(&mut held, &mut self.in_progress);
        drop_claims(&mut held, path);
        self.in_progress = held;
    }

    /// Forgets the mount at a place.
    pub fn remove(&mut self, path: &str) -> (record: Option<MountRecord>)
        ensures
            final(self)@ == without_mount(old(self)@, path@),
            match record {
                Some(r) => recorded(old(self)@.mounts, path@) == Some(r@),
                None => recorded(old(self)@.mounts, path@) is None,
            },
            orderly(final(self)@),
    {
        let record = self.find(path);
        proof {
            use_type_invariant(&*self);
            law_removals_keep_order(self@, path@);
        }
        let mut made: Vec<MountRecord> = Vec::new();
        std::mem::swap(&mut made, &mut self.mounts);
        drop_mounts(&mut made, path);
        self.mounts = made;
        record
    }

    /// Records a mount, in place of the claim on its place.
    pub fn record(&mut self, record: MountRecord)
        ensures
            final(self)@ == with_mount(old(self)@, record@),
            orderly(final(self)@),
    {
        proof {
            use_type_invariant(&*self);
            law_records_keep_order(self@, record@);
        }
        let _ = self.remove(record.path.as_str());
        self.release(record.path.as_str());
        let mut made: Vec<MountRecord> = Vec::new();
        std::mem::swap(&mut made, &mut self.mounts);
        proof {
            assert(records(made@.push(record)) == records(made@).push(record@));
        }
        made.push(record);
        self.mounts = made;
    }

    /// Forgets mounts that are gone. Forgetting costs the ability to unmount
    /// later, so a record goes only when two readings of the mount table
    /// agree, and never because a reading failed.
    pub fn sweep_stale(
        &mut self,
        first: &Result<Vec<MountEntry>, String>,
        second: &Result<Vec<MountEntry>, String>,
    )
        ensures
            final(self)@ == swept(old(self)@, *first, *second),
            orderly(final(self)@),
    {
        proof {
            use_type_invariant(&*self);
            law_sweeps_keep_order(self@, *first, *second);
        }
        let mut made: Vec<MountRecord> = Vec::new();
        std::mem::swap(&mut made, &mut self.mounts);
        drop_gone(&mut made, first, second);
        self.mounts = made;
    }

    /// Lists the mounts: place, application, filesystem type and source.
    pub fn list_mounts(&self) -> (list: Vec<(String, String, String, String)>)
        ensures
            list_views(list@) == listing(self@.mounts),
            mounts_apart(self@.mounts),
    {
        proof {
            use_type_invariant(self);
        }
        let mut list: Vec<(String, String, String, String)> = Vec::new();
        let mut i: usize = 0;
        while i < self.mounts.len()
            invariant
                i <= self.mounts.len(),
                list.len() == i,
                forall|k: int|
                    0 <= k < i ==> {
                        let row = #[trigger] list@[k];
                        (row.0@, row.1@, row.2@, row.3@) == listed(self.mounts@[k]@)
                    },
            decreases self.mounts.len() - i,
        {
            let record = &self.mounts[i];
            list.push(
                (
                    record.path.clone(),
                    record.app_id.clone(),
                    record.fstype.clone(),
                    record.source.clone(),
                ),
            );
            i += 1;
        }
        assert(list_views(list@) =~= listing(self@.mounts));
        list
    }
}

} // verus!
