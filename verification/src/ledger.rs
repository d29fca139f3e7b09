//! What holds of the daemon's books of mounts and claims, whatever is done
//! to them.
use vstd::prelude::*;

#[allow(unused_imports)]
use crate::mountinfo::MountEntry;
#[allow(unused_imports)]
use crate::path::same_place;
#[allow(unused_imports)]
use crate::registry::{
    claim_fault, claimed, claims_apart, claims_elsewhere, claims_of, gone, held_by, mounts_apart,
    mounts_elsewhere, mounts_of, orderly, recorded, same_mount, still_there, with_claim, with_mount, without_claim, without_mount, Books,
    Claimed, MountIdentity, Record, MAX_MOUNTS_PER_APP,
};

verus! {

/// Whether books keep to both limits, requests in flight included.
pub open spec fn within_limits(books: Books, max: nat) -> bool {
    &&& books.mounts.len() + books.claims.len() <= max
    &&& forall|app_id: Seq<char>| #[trigger] held_by(books, app_id) <= MAX_MOUNTS_PER_APP
}

/// Something is recorded at a place exactly if one of the records names it.
proof fn lemma_recorded(mounts: Seq<Record>, place: Seq<char>)
    ensures
        recorded(mounts, place) is None <==> forall|i: int|
            0 <= i < mounts.len() ==> !same_place((#[trigger] mounts[i]).path, place),
        recorded(mounts, place) matches Some(r) ==> mounts.contains(r) && same_place(r.path, place),
    decreases mounts.len(),
{
    if mounts.len() > 0 {
        let front = mounts.drop_last();
        lemma_recorded(front, place);
        assert(mounts[mounts.len() - 1] == mounts.last());
        if recorded(mounts, place) is None {
            assert forall|i: int| 0 <= i < mounts.len() implies !same_place(
                (#[trigger] mounts[i]).path,
                place,
            ) by {
                if i < front.len() {
                    assert(front[i] == mounts[i]);
                }
            }
        } else if !same_place(mounts.last().path, place) {
            let r = recorded(front, place)->0;
            let k = choose|k: int| 0 <= k < front.len() && front[k] == r;
            assert(mounts[k] == r);
        }
    }
}

/// Taking a place out leaves mounts that were there, and none at the place.
proof fn lemma_mounts_elsewhere(mounts: Seq<Record>, place: Seq<char>)
    ensures
        mounts_elsewhere(mounts, place).len() <= mounts.len(),
        forall|app_id: Seq<char>| #[trigger]
            mounts_of(mounts_elsewhere(mounts, place), app_id) <= mounts_of(mounts, app_id),
        forall|k: int|
            0 <= k < mounts_elsewhere(mounts, place).len() ==> {
                &&& mounts.contains(#[trigger] mounts_elsewhere(mounts, place)[k])
                &&& !same_place(mounts_elsewhere(mounts, place)[k].path, place)
            },
        recorded(mounts, place) is None ==> mounts_elsewhere(mounts, place) == mounts,
        mounts_apart(mounts) ==> mounts_apart(mounts_elsewhere(mounts, place)),
    decreases mounts.len(),
{
    if mounts.len() > 0 {
        let front = mounts.drop_last();
        let earlier = mounts_elsewhere(front, place);
        let all = mounts_elsewhere(mounts, place);
        lemma_mounts_elsewhere(front, place);
        assert forall|app_id: Seq<char>| #[trigger]
            mounts_of(all, app_id) <= mounts_of(mounts, app_id) by {
            assert(mounts_of(earlier, app_id) <= mounts_of(front, app_id));
            if !same_place(mounts.last().path, place) {
                assert(all.drop_last() == earlier);
            }
        }
        assert forall|k: int| 0 <= k < all.len() implies {
            &&& mounts.contains(#[trigger] all[k])
            &&& !same_place(all[k].path, place)
        } by {
            if k < earlier.len() {
                assert(all[k] == earlier[k]);
                let i = choose|i: int| 0 <= i < front.len() && front[i] == earlier[k];
                assert(mounts[i] == all[k]);
            } else {
                assert(mounts[mounts.len() - 1] == all[k]);
            }
        }
        if recorded(mounts, place) is None {
            assert(all =~= mounts);
        }
        if mounts_apart(mounts) {
            assert(mounts_apart(front));
            assert forall|i: int, j: int| 0 <= i < j < all.len() implies !same_place(
                (#[trigger] all[i]).path,
                (#[trigger] all[j]).path,
            ) by {
                assert(all[i] == earlier[i]);
                if j < earlier.len() {
                    assert(all[j] == earlier[j]);
                } else {
                    let at = choose|at: int| 0 <= at < front.len() && front[at] == earlier[i];
                    assert(mounts[at] == all[i]);
                    assert(mounts[mounts.len() - 1] == all[j]);
                }
            }
        }
    }
}

/// Taking a place out leaves claims that were there, and none on the place.
pub proof fn lemma_claims_elsewhere(held: Seq<Claimed>, place: Seq<char>)
    ensures
        claims_elsewhere(held, place).len() <= held.len(),
        forall|app_id: Seq<char>| #[trigger]
            claims_of(claims_elsewhere(held, place), app_id) <= claims_of(held, app_id),
        forall|k: int|
            0 <= k < claims_elsewhere(held, place).len() ==> {
                &&& held.contains(#[trigger] claims_elsewhere(held, place)[k])
                &&& !same_place(claims_elsewhere(held, place)[k].path, place)
            },
        !claimed(held, place) ==> claims_elsewhere(held, place) == held,
        claims_apart(held) ==> claims_apart(claims_elsewhere(held, place)),
    decreases held.len(),
{
    if held.len() > 0 {
        let front = held.drop_last();
        let earlier = claims_elsewhere(front, place);
        let all = claims_elsewhere(held, place);
        lemma_claims_elsewhere(front, place);
        assert forall|app_id: Seq<char>| #[trigger]
            claims_of(all, app_id) <= claims_of(held, app_id) by {
            assert(claims_of(earlier, app_id) <= claims_of(front, app_id));
            if !same_place(held.last().path, place) {
                assert(all.drop_last() == earlier);
            }
        }
        assert forall|k: int| 0 <= k < all.len() implies {
            &&& held.contains(#[trigger] all[k])
            &&& !same_place(all[k].path, place)
        } by {
            if k < earlier.len() {
                assert(all[k] == earlier[k]);
                let i = choose|i: int| 0 <= i < front.len() && front[i] == earlier[k];
                assert(held[i] == all[k]);
            } else {
                assert(held[held.len() - 1] == all[k]);
            }
        }
        if !claimed(held, place) {
            assert(!same_place(held[held.len() - 1].path, place));
            if claimed(front, place) {
                let i = choose|i: int|
                    0 <= i < front.len() && same_place((#[trigger] front[i]).path, place);
                assert(same_place(held[i].path, place));
            }
            assert(all =~= held);
        }
        if claims_apart(held) {
            assert(claims_apart(front));
            assert forall|i: int, j: int| 0 <= i < j < all.len() implies !same_place(
                (#[trigger] all[i]).path,
                (#[trigger] all[j]).path,
            ) by {
                assert(all[i] == earlier[i]);
                if j < earlier.len() {
                    assert(all[j] == earlier[j]);
                } else {
                    let at = choose|at: int| 0 <= at < front.len() && front[at] == earlier[i];
                    assert(held[at] == all[i]);
                    assert(held[held.len() - 1] == all[j]);
                }
            }
        }
    }
}

/// A claim that there is one of goes when its place is taken out, and with
/// it one of its application's.
proof fn lemma_one_claim_less(held: Seq<Claimed>, at: int, place: Seq<char>)
    requires
        0 <= at < held.len(),
        same_place(held[at].path, place),
        claims_apart(held),
    ensures
        claims_elsewhere(held, place).len() == held.len() - 1,
        forall|app_id: Seq<char>| #[trigger]
            claims_of(claims_elsewhere(held, place), app_id) == claims_of(held, app_id) - (if held[at].app_id
                == app_id {
                1int
            } else {
                0int
            }),
    decreases held.len(),
{
    let front = held.drop_last();
    let earlier = claims_elsewhere(front, place);
    let all = claims_elsewhere(held, place);
    let last = held.len() - 1;
    assert(claims_apart(front));
    if at == last {
        if claimed(front, place) {
            let i = choose|i: int|
                0 <= i < front.len() && same_place((#[trigger] front[i]).path, place);
            assert(!same_place(held[i].path, held[last].path));
        }
        lemma_claims_elsewhere(front, place);
    } else {
        assert(!same_place(held[at].path, held[last].path));
        lemma_one_claim_less(front, at, place);
        assert forall|app_id: Seq<char>| #[trigger]
            claims_of(all, app_id) == claims_of(held, app_id) - (if held[at].app_id == app_id {
                1int
            } else {
                0int
            }) by {
            assert(all.drop_last() == earlier);
            assert(claims_of(earlier, app_id) == claims_of(front, app_id) - (if front[at].app_id
                == app_id {
                1int
            } else {
                0int
            }));
        }
    }
}

/// What is left after a sweep was there before.
proof fn lemma_still_there(
    mounts: Seq<Record>,
    first: Result<Vec<MountEntry>, String>,
    second: Result<Vec<MountEntry>, String>,
)
    ensures
        still_there(mounts, first, second).len() <= mounts.len(),
        forall|app_id: Seq<char>| #[trigger]
            mounts_of(still_there(mounts, first, second), app_id) <= mounts_of(mounts, app_id),
        forall|k: int|
            0 <= k < still_there(mounts, first, second).len() ==> mounts.contains(
                #[trigger] still_there(mounts, first, second)[k],
            ),
        mounts_apart(mounts) ==> mounts_apart(still_there(mounts, first, second)),
    decreases mounts.len(),
{
    if mounts.len() > 0 {
        let front = mounts.drop_last();
        let earlier = still_there(front, first, second);
        let all = still_there(mounts, first, second);
        lemma_still_there(front, first, second);
        assert forall|app_id: Seq<char>| #[trigger]
            mounts_of(all, app_id) <= mounts_of(mounts, app_id) by {
            assert(mounts_of(earlier, app_id) <= mounts_of(front, app_id));
            if !gone(first, second, mounts.last().path) {
                assert(all.drop_last() == earlier);
            }
        }
        assert forall|k: int| 0 <= k < all.len() implies mounts.contains(#[trigger] all[k]) by {
            if k < earlier.len() {
                assert(all[k] == earlier[k]);
                let i = choose|i: int| 0 <= i < front.len() && front[i] == earlier[k];
                assert(mounts[i] == all[k]);
            } else {
                assert(mounts[mounts.len() - 1] == all[k]);
            }
        }
        if mounts_apart(mounts) {
            assert(mounts_apart(front));
            assert forall|i: int, j: int| 0 <= i < j < all.len() implies !same_place(
                (#[trigger] all[i]).path,
                (#[trigger] all[j]).path,
            ) by {
                assert(all[i] == earlier[i]);
                if j < earlier.len() {
                    assert(all[j] == earlier[j]);
                } else {
                    let at = choose|at: int| 0 <= at < front.len() && front[at] == earlier[i];
                    assert(mounts[at] == all[i]);
                    assert(mounts[mounts.len() - 1] == all[j]);
                }
            }
        }
    }
}

/// Empty books are in order and within any limits.
pub proof fn law_new_books_are_in_order(books: Books, max: nat)
    requires
        books.mounts.len() == 0,
        books.claims.len() == 0,
    ensures
        orderly(books),
        within_limits(books, max),
{
}

/// A claim that is granted keeps the books in order.
pub proof fn law_claims_keep_order(books: Books, path: Seq<char>, app_id: Seq<char>, max: nat)
    requires
        orderly(books),
        claim_fault(books, path, app_id, max) is None,
    ensures
        orderly(with_claim(books, path, app_id)),
{
    let after = with_claim(books, path, app_id);
    lemma_recorded(books.mounts, path);
    assert forall|i: int, j: int| 0 <= i < j < after.claims.len() implies !same_place(
        (#[trigger] after.claims[i]).path,
        (#[trigger] after.claims[j]).path,
    ) by {
        assert(after.claims[i] == books.claims[i]);
        if j < books.claims.len() {
            assert(after.claims[j] == books.claims[j]);
        }
    }
    assert forall|i: int| 0 <= i < after.mounts.len() implies !claimed(
        after.claims,
        (#[trigger] after.mounts[i]).path,
    ) by {
        let place = books.mounts[i].path;
        assert(!claimed(books.claims, place));
        if claimed(after.claims, place) {
            let k = choose|k: int|
                0 <= k < after.claims.len() && same_place((#[trigger] after.claims[k]).path, place);
            if k < books.claims.len() {
                assert(same_place(books.claims[k].path, place));
            }
        }
    }
}

/// A claim that is granted keeps the books in order and within both limits.
pub proof fn law_claims_keep_order_and_limits(
    books: Books,
    path: Seq<char>,
    app_id: Seq<char>,
    max: nat,
)
    requires
        orderly(books),
        within_limits(books, max),
        claim_fault(books, path, app_id, max) is None,
    ensures
        orderly(with_claim(books, path, app_id)),
        within_limits(with_claim(books, path, app_id), max),
{
    law_claims_keep_order(books, path, app_id, max);
    let after = with_claim(books, path, app_id);
    assert forall|other: Seq<char>| #[trigger] held_by(after, other) <= MAX_MOUNTS_PER_APP by {
        assert(held_by(books, other) <= MAX_MOUNTS_PER_APP);
        assert(after.claims.drop_last() == books.claims);
        assert(after.claims.last().app_id == app_id);
    }
}

/// Giving up a claim keeps the books in order.
pub proof fn law_releases_keep_order(books: Books, path: Seq<char>)
    requires
        orderly(books),
    ensures
        orderly(without_claim(books, path)),
{
    let after = without_claim(books, path);
    lemma_claims_elsewhere(books.claims, path);
    assert forall|i: int| 0 <= i < after.mounts.len() implies !claimed(
        after.claims,
        (#[trigger] after.mounts[i]).path,
    ) by {
        lemma_fewer_claims(books.claims, after.claims, books.mounts[i].path);
    }
}

/// Giving up a claim keeps the books in order and within both limits.
pub proof fn law_releases_keep_order_and_limits(books: Books, path: Seq<char>, max: nat)
    requires
        orderly(books),
        within_limits(books, max),
    ensures
        orderly(without_claim(books, path)),
        within_limits(without_claim(books, path), max),
{
    law_releases_keep_order(books, path);
    let after = without_claim(books, path);
    lemma_claims_elsewhere(books.claims, path);
    assert forall|app_id: Seq<char>| #[trigger] held_by(after, app_id) <= MAX_MOUNTS_PER_APP by {
        assert(held_by(books, app_id) <= MAX_MOUNTS_PER_APP);
        assert(claims_of(after.claims, app_id) <= claims_of(books.claims, app_id));
    }
}

/// What is claimed by some of the claims is claimed by all of them.
proof fn lemma_fewer_claims(all: Seq<Claimed>, some: Seq<Claimed>, place: Seq<char>)
    requires
        forall|k: int| 0 <= k < some.len() ==> all.contains(#[trigger] some[k]),
        !claimed(all, place),
    ensures
        !claimed(some, place),
{
    if claimed(some, place) {
        let k = choose|k: int| 0 <= k < some.len() && same_place((#[trigger] some[k]).path, place);
        let i = choose|i: int| 0 <= i < all.len() && all[i] == some[k];
        assert(same_place(all[i].path, place));
    }
}

/// Recording a mount keeps the books in order, whether its place was claimed,
/// recorded or neither: the place is cleared first.
pub proof fn law_records_keep_order(books: Books, record: Record)
    requires
        orderly(books),
    ensures
        orderly(with_mount(books, record)),
{
    let after = with_mount(books, record);
    let rest = mounts_elsewhere(books.mounts, record.path);
    lemma_mounts_elsewhere(books.mounts, record.path);
    lemma_claims_elsewhere(books.claims, record.path);
    assert forall|i: int, j: int| 0 <= i < j < after.mounts.len() implies !same_place(
        (#[trigger] after.mounts[i]).path,
        (#[trigger] after.mounts[j]).path,
    ) by {
        assert(after.mounts[i] == rest[i]);
        if j < rest.len() {
            assert(after.mounts[j] == rest[j]);
        }
    }
    assert forall|i: int| 0 <= i < after.mounts.len() implies !claimed(
        after.claims,
        (#[trigger] after.mounts[i]).path,
    ) by {
        if i < rest.len() {
            assert(after.mounts[i] == rest[i]);
            let k = choose|k: int| 0 <= k < books.mounts.len() && books.mounts[k] == rest[i];
            lemma_fewer_claims(books.claims, after.claims, books.mounts[k].path);
        }
    }
}

/// Recording a mount on a place that its application has claimed keeps the
/// books in order and within both limits: the claim becomes the mount.
pub proof fn law_records_keep_order_and_limits(books: Books, at: int, record: Record, max: nat)
    requires
        orderly(books),
        within_limits(books, max),
        0 <= at < books.claims.len(),
        same_place(books.claims[at].path, record.path),
        books.claims[at].app_id == record.app_id,
    ensures
        orderly(with_mount(books, record)),
        within_limits(with_mount(books, record), max),
        with_mount(books, record).mounts == books.mounts.push(record),
{
    let after = with_mount(books, record);
    lemma_recorded(books.mounts, record.path);
    lemma_mounts_elsewhere(books.mounts, record.path);
    lemma_claims_elsewhere(books.claims, record.path);
    lemma_one_claim_less(books.claims, at, record.path);
    assert(recorded(books.mounts, record.path) is None) by {
        if recorded(books.mounts, record.path) is Some {
            let r = recorded(books.mounts, record.path)->0;
            let i = choose|i: int| 0 <= i < books.mounts.len() && books.mounts[i] == r;
            assert(same_place(books.claims[at].path, books.mounts[i].path));
            assert(claimed(books.claims, books.mounts[i].path));
        }
    }
    assert(after.mounts == books.mounts.push(record));
    law_records_keep_order(books, record);
    assert forall|app_id: Seq<char>| #[trigger] held_by(after, app_id) <= MAX_MOUNTS_PER_APP by {
        assert(held_by(books, app_id) <= MAX_MOUNTS_PER_APP);
        assert(after.mounts.drop_last() == books.mounts);
        assert(after.mounts.last() == record);
        assert(claims_of(after.claims, app_id) == claims_of(books.claims, app_id) - (if books.claims[at].app_id
            == app_id {
            1int
        } else {
            0int
        }));
    }
}

/// Forgetting a mount keeps the books in order.
pub proof fn law_removals_keep_order(books: Books, path: Seq<char>)
    requires
        orderly(books),
    ensures
        orderly(without_mount(books, path)),
{
    let after = without_mount(books, path);
    lemma_mounts_elsewhere(books.mounts, path);
    assert forall|i: int| 0 <= i < after.mounts.len() implies !claimed(
        after.claims,
        (#[trigger] after.mounts[i]).path,
    ) by {
        let k = choose|k: int| 0 <= k < books.mounts.len() && books.mounts[k] == after.mounts[i];
        assert(!claimed(books.claims, books.mounts[k].path));
    }
}

/// Forgetting a mount keeps the books in order and within both limits.
pub proof fn law_removals_keep_order_and_limits(books: Books, path: Seq<char>, max: nat)
    requires
        orderly(books),
        within_limits(books, max),
    ensures
        orderly(without_mount(books, path)),
        within_limits(without_mount(books, path), max),
{
    law_removals_keep_order(books, path);
    let after = without_mount(books, path);
    lemma_mounts_elsewhere(books.mounts, path);
    assert forall|app_id: Seq<char>| #[trigger] held_by(after, app_id) <= MAX_MOUNTS_PER_APP by {
        assert(held_by(books, app_id) <= MAX_MOUNTS_PER_APP);
        assert(mounts_of(after.mounts, app_id) <= mounts_of(books.mounts, app_id));
    }
}

/// A sweep keeps the books in order.
pub proof fn law_sweeps_keep_order(
    books: Books,
    first: Result<Vec<MountEntry>, String>,
    second: Result<Vec<MountEntry>, String>,
)
    requires
        orderly(books),
    ensures
        orderly((Books { mounts: still_there(books.mounts, first, second), ..books })),
{
    let after = Books { mounts: still_there(books.mounts, first, second), ..books };
    lemma_still_there(books.mounts, first, second);
    assert forall|i: int| 0 <= i < after.mounts.len() implies !claimed(
        after.claims,
        (#[trigger] after.mounts[i]).path,
    ) by {
        let k = choose|k: int| 0 <= k < books.mounts.len() && books.mounts[k] == after.mounts[i];
        assert(!claimed(books.claims, books.mounts[k].path));
    }
}

/// A sweep keeps the books in order and within both limits.
pub proof fn law_sweeps_keep_order_and_limits(
    books: Books,
    first: Result<Vec<MountEntry>, String>,
    second: Result<Vec<MountEntry>, String>,
    max: nat,
)
    requires
        orderly(books),
        within_limits(books, max),
    ensures
        orderly((Books { mounts: still_there(books.mounts, first, second), ..books })),
        within_limits((Books { mounts: still_there(books.mounts, first, second), ..books }), max),
{
    law_sweeps_keep_order(books, first, second);
    let after = Books { mounts: still_there(books.mounts, first, second), ..books };
    lemma_still_there(books.mounts, first, second);
    assert forall|app_id: Seq<char>| #[trigger] held_by(after, app_id) <= MAX_MOUNTS_PER_APP by {
        assert(held_by(books, app_id) <= MAX_MOUNTS_PER_APP);
        assert(mounts_of(after.mounts, app_id) <= mounts_of(books.mounts, app_id));
    }
}

/// A sweep keeps a mount exactly if one of the readings failed or shows
/// something mounted at its place.
pub proof fn law_sweeps_forget_only_what_is_gone_twice(
    mounts: Seq<Record>,
    first: Result<Vec<MountEntry>, String>,
    second: Result<Vec<MountEntry>, String>,
    record: Record,
)
    ensures
        still_there(mounts, first, second).contains(record) <==> mounts.contains(record) && !gone(
            first,
            second,
            record.path,
        ),
    decreases mounts.len(),
{
    if mounts.len() > 0 {
        let front = mounts.drop_last();
        let earlier = still_there(front, first, second);
        let all = still_there(mounts, first, second);
        law_sweeps_forget_only_what_is_gone_twice(front, first, second, record);
        assert(mounts[mounts.len() - 1] == mounts.last());
        if all.contains(record) {
            let k = choose|k: int| 0 <= k < all.len() && all[k] == record;
            if k < earlier.len() {
                assert(earlier[k] == record);
                let i = choose|i: int| 0 <= i < front.len() && front[i] == record;
                assert(mounts[i] == record);
            }
        }
        if mounts.contains(record) && !gone(first, second, record.path) {
            let i = choose|i: int| 0 <= i < mounts.len() && mounts[i] == record;
            if i < front.len() {
                assert(front[i] == record);
                let k = choose|k: int| 0 <= k < earlier.len() && earlier[k] == record;
                assert(all[k] == record);
            } else {
                assert(all[all.len() - 1] == record);
            }
        }
    }
}

/// A mount table that could not be read makes the daemon forget nothing.
pub proof fn law_a_failed_reading_forgets_nothing(
    mounts: Seq<Record>,
    first: Result<Vec<MountEntry>, String>,
    second: Result<Vec<MountEntry>, String>,
)
    requires
        first is Err || second is Err,
    ensures
        still_there(mounts, first, second) == mounts,
    decreases mounts.len(),
{
    if mounts.len() > 0 {
        law_a_failed_reading_forgets_nothing(mounts.drop_last(), first, second);
        assert(still_there(mounts, first, second) =~= mounts);
    }
}

/// While a place is claimed, no other request can claim it, whoever asks and
/// however the path is spelled.
pub proof fn law_a_claimed_place_is_not_given_twice(
    books: Books,
    path: Seq<char>,
    app_id: Seq<char>,
    spelling: Seq<char>,
    other: Seq<char>,
    max: nat,
)
    requires
        same_place(path, spelling),
    ensures
        claim_fault(with_claim(books, path, app_id), spelling, other, max) is Some,
{
    let after = with_claim(books, path, app_id);
    assert(same_place(after.claims[after.claims.len() - 1].path, spelling));
    assert(claimed(after.claims, spelling));
}

/// While a mount is recorded, its place cannot be claimed.
pub proof fn law_a_mounted_place_is_not_claimed(
    books: Books,
    i: int,
    path: Seq<char>,
    app_id: Seq<char>,
    max: nat,
)
    requires
        0 <= i < books.mounts.len(),
        same_place(books.mounts[i].path, path),
    ensures
        claim_fault(books, path, app_id, max) is Some,
{
    lemma_recorded(books.mounts, path);
}

/// Giving a claim up leaves the books as they were before it was granted.
pub proof fn law_release_undoes_reserve(
    books: Books,
    path: Seq<char>,
    app_id: Seq<char>,
    max: nat,
)
    requires
        claim_fault(books, path, app_id, max) is None,
    ensures
        without_claim(with_claim(books, path, app_id), path) == books,
{
    let after = with_claim(books, path, app_id);
    lemma_claims_elsewhere(books.claims, path);
    assert(after.claims.drop_last() == books.claims);
    assert(after.claims.last().path == path);
}

/// A mount that was recorded is found at its place, and forgetting it
/// removes it and nothing else.
pub proof fn law_remove_undoes_record(books: Books, record: Record)
    ensures
        recorded(with_mount(books, record).mounts, record.path) == Some(record),
        without_mount(with_mount(books, record), record.path).mounts == mounts_elsewhere(
            books.mounts,
            record.path,
        ),
        recorded(without_mount(with_mount(books, record), record.path).mounts, record.path) is None,
{
    let rest = mounts_elsewhere(books.mounts, record.path);
    let after = with_mount(books, record);
    assert(after.mounts.drop_last() == rest);
    assert(after.mounts.last() == record);
    lemma_mounts_elsewhere(books.mounts, record.path);
    lemma_recorded(rest, record.path);
    lemma_mounts_elsewhere(rest, record.path);
}

/// Where the kernel gives both sightings a number that never comes back, two
/// mounts are the same exactly if those numbers agree, even where their
/// table numbers agree too.
pub proof fn law_unique_numbers_decide(a: MountIdentity, b: MountIdentity, x: u64, y: u64)
    requires
        a.unique == Some(x),
        b.unique == Some(y),
    ensures
        same_mount(a, b) <==> x == y,
{
}

/// Something that is done to the books.
pub ghost enum Step {
    Reserve { path: Seq<char>, app_id: Seq<char> },
    Release { path: Seq<char> },
    Record { record: Record },
    Remove { path: Seq<char> },
    Sweep { first: Result<Vec<MountEntry>, String>, second: Result<Vec<MountEntry>, String> },
}

/// The books after a step.
pub open spec fn after_step(books: Books, step: Step, max: nat) -> Books {
    match step {
        Step::Reserve { path, app_id } => if claim_fault(books, path, app_id, max) is None {
            with_claim(books, path, app_id)
        } else {
            books
        },
        Step::Release { path } => without_claim(books, path),
        Step::Record { record } => with_mount(books, record),
        Step::Remove { path } => without_mount(books, path),
        Step::Sweep { first, second } => Books {
            mounts: still_there(books.mounts, first, second),
            ..books
        },
    }
}

/// Whether a step is one that requests take: a mount is recorded only on a
/// place that its application has claimed.
pub open spec fn is_proper(books: Books, step: Step) -> bool {
    step matches Step::Record { record } ==> exists|at: int|
        0 <= at < books.claims.len() && same_place(
            (#[trigger] books.claims[at]).path,
            record.path,
        ) && books.claims[at].app_id == record.app_id
}

/// Whether states of the books and steps are a history: they start empty, and
/// every step leads from one state to the next.
pub open spec fn is_history(states: Seq<Books>, steps: Seq<Step>, max: nat) -> bool {
    &&& states.len() == steps.len() + 1
    &&& states[0].mounts.len() == 0
    &&& states[0].claims.len() == 0
    &&& forall|i: int|
        0 <= i < steps.len() ==> states[i + 1] == after_step(states[i], #[trigger] steps[i], max)
}

/// Whatever is done in whatever order, the books are always in order.
pub proof fn law_books_are_always_in_order(
    states: Seq<Books>,
    steps: Seq<Step>,
    max: nat,
    i: int,
)
    requires
        is_history(states, steps, max),
        0 <= i < states.len(),
    ensures
        orderly(states[i]),
    decreases i,
{
    if i > 0 {
        law_books_are_always_in_order(states, steps, max, i - 1);
        let books = states[i - 1];
        let step = steps[i - 1];
        assert(states[i - 1 + 1] == after_step(books, step, max));
        match step {
            Step::Reserve { path, app_id } => if claim_fault(books, path, app_id, max) is None {
                law_claims_keep_order(books, path, app_id, max);
            },
            Step::Release { path } => law_releases_keep_order(books, path),
            Step::Record { record } => law_records_keep_order(books, record),
            Step::Remove { path } => law_removals_keep_order(books, path),
            Step::Sweep { first, second } => law_sweeps_keep_order(books, first, second),
        }
    }
}

/// Whatever requests come in whatever order, the books are never beyond
/// either limit: every mount that is recorded takes the place of a claim.
pub proof fn law_books_stay_within_limits(
    states: Seq<Books>,
    steps: Seq<Step>,
    max: nat,
    i: int,
)
    requires
        is_history(states, steps, max),
        forall|k: int| 0 <= k < steps.len() ==> is_proper(states[k], #[trigger] steps[k]),
        0 <= i < states.len(),
    ensures
        within_limits(states[i], max),
    decreases i,
{
    if i == 0 {
        law_new_books_are_in_order(states[0], max);
    } else {
        law_books_are_always_in_order(states, steps, max, i - 1);
        law_books_stay_within_limits(states, steps, max, i - 1);
        let books = states[i - 1];
        let step = steps[i - 1];
        assert(is_proper(books, step));
        assert(states[i - 1 + 1] == after_step(books, step, max));
        match step {
            Step::Reserve { path, app_id } => if claim_fault(books, path, app_id, max) is None {
                law_claims_keep_order_and_limits(books, path, app_id, max);
            },
            Step::Release { path } => law_releases_keep_order_and_limits(books, path, max),
            Step::Record { record } => {
                let at = choose|at: int|
                    0 <= at < books.claims.len() && same_place(
                        (#[trigger] books.claims[at]).path,
                        record.path,
                    ) && books.claims[at].app_id == record.app_id;
                law_records_keep_order_and_limits(books, at, record, max);
            },
            Step::Remove { path } => law_removals_keep_order_and_limits(books, path, max),
            Step::Sweep { first, second } => law_sweeps_keep_order_and_limits(
                books,
                first,
                second,
                max,
            ),
        }
    }
}

} // verus!
