//! What holds of options, mountpoints and helper arguments, stated of the
//! texts that come in and go out.
use vstd::prelude::*;

#[allow(unused_imports)]
use crate::path::strictly_inside;
#[allow(unused_imports)]
use crate::path_laws::{absolute, are_names, law_everything_below_is_inside};
#[allow(unused_imports)]
use crate::policy::{
    asks_auto_unmount, can_check, died_among, died_between, helper_arguments, inside_any,
    is_auto_unmount, is_blank, is_first_fault, lemma_first_piece, mountpoint_verdict, option_fault,
    option_key, options_allowed, other_options, owns, said_by, unmount_helper_arguments, Listing,
    Liveness, Probe,
};
#[allow(unused_imports)]
use crate::text::{decimal, join, split};
#[allow(unused_imports)]
use crate::text_laws::{is_bare, law_trimming_takes_off_what_is_around};

verus! {

/// An option's key is what stands before its first `=`, or the whole option,
/// less the white space around it.
pub proof fn law_an_option_is_called_by_its_key(
    before: Seq<char>,
    key: Seq<char>,
    after: Seq<char>,
    value: Seq<char>,
)
    requires
        is_blank(before),
        is_blank(after),
        is_bare(key),
        !key.contains('='),
    ensures
        option_key(before + key + after) == key,
        option_key((before + key + after).push('=') + value) == key,
{
    let padded = before + key + after;
    assert(!padded.contains('=')) by {
        if padded.contains('=') {
            let i = choose|i: int| 0 <= i < padded.len() && padded[i] == '=';
            let a = before.len() as int;
            let b = a + key.len() as int;
            if i < a {
                assert(crate::text::is_white_space(before[i]));
            } else if i < b {
                assert(key[i - a] == '=');
            } else {
                assert(crate::text::is_white_space(after[i - b]));
            }
        }
    }
    law_trimming_takes_off_what_is_around(before, key, after);
    lemma_first_piece(padded, value);
}

/// An option is refused exactly if its key is `allow_other` or `allow_root`,
/// or if it holds a comma, and the refusal names what is refused.
pub proof fn law_options_are_refused_by_key_and_comma(option: Seq<char>)
    ensures
        option_fault(option) is Some <==> option_key(option) == "allow_other"@ || option_key(option)
            == "allow_root"@ || option.contains(','),
        option_key(option) == "allow_other"@ ==> option_fault(option) == Some(
            "mount option '"@ + "allow_other"@ + "' is not allowed"@,
        ),
        option_key(option) == "allow_root"@ ==> option_fault(option) == Some(
            "mount option '"@ + "allow_root"@ + "' is not allowed"@,
        ),
        option.contains(',') && option_key(option) != "allow_other"@ && option_key(option)
            != "allow_root"@ ==> option_fault(option) == Some(
            "malformed mount option '"@ + option + "'"@,
        ),
{
}

/// Options are accepted exactly if each of them is, and otherwise the first
/// that is not says why.
pub proof fn law_options_are_judged_one_by_one(
    good: Seq<Seq<char>>,
    option: Seq<char>,
    rest: Seq<Seq<char>>,
    fault: Seq<char>,
)
    requires
        options_allowed(good),
    ensures
        options_allowed(Seq::empty()),
        options_allowed(good.push(option) + rest) <==> option_fault(option) is None
            && options_allowed(rest),
        option_fault(option) matches Some(why) ==> (is_first_fault(good.push(option) + rest, fault)
            <==> fault == why),
{
    let all = good.push(option) + rest;
    let n = good.len() as int;
    assert(all[n] == option);
    if options_allowed(all) {
        assert forall|i: int| 0 <= i < rest.len() implies option_fault(#[trigger] rest[i]) is None by {
            assert(all[n + 1 + i] == rest[i]);
        }
    }
    if option_fault(option) is None && options_allowed(rest) {
        assert forall|i: int| 0 <= i < all.len() implies option_fault(#[trigger] all[i]) is None by {
            if i < n {
                assert(all[i] == good[i]);
            } else if i > n {
                assert(all[i] == rest[i - n - 1]);
            }
        }
    }
    if option_fault(option) is Some {
        let why = option_fault(option)->0;
        assert(all.take(n) =~= good);
        if fault == why {
            assert(is_first_fault(all, fault));
        }
        if is_first_fault(all, fault) {
            let i = choose|i: int|
                #![trigger all[i]]
                0 <= i < all.len() && option_fault(all[i]) == Some(fault) && options_allowed(
                    all.take(i),
                );
            if i < n {
                assert(all[i] == good[i]);
            } else if i > n {
                assert(all.take(i)[n] == option);
            }
        }
    }
}

/// An option asks for the mount to go with its application exactly if its key
/// is `auto_unmount`; options ask for it exactly if one of them does.
pub proof fn law_auto_unmount_is_asked_for_by_its_key(option: Seq<char>, options: Seq<Seq<char>>)
    ensures
        is_auto_unmount(option) <==> option_key(option) == "auto_unmount"@,
        asks_auto_unmount(options) <==> exists|i: int|
            0 <= i < options.len() && option_key(#[trigger] options[i]) == "auto_unmount"@,
{
    if asks_auto_unmount(options) {
        let i = choose|i: int| 0 <= i < options.len() && is_auto_unmount(#[trigger] options[i]);
        assert(option_key(options[i]) == "auto_unmount"@);
    }
    if exists|i: int|
        0 <= i < options.len() && option_key(#[trigger] options[i]) == "auto_unmount"@ {
        let i = choose|i: int|
            0 <= i < options.len() && option_key(#[trigger] options[i]) == "auto_unmount"@;
        assert(is_auto_unmount(options[i]));
    }
}

/// Whether an option is for the helper.
pub open spec fn is_for_helper() -> spec_fn(Seq<char>) -> bool {
    |option: Seq<char>| option_key(option) != "auto_unmount"@
}

/// Every option but `auto_unmount` is passed on, as it was given, in the order
/// and number in which it was given.
pub proof fn law_all_other_options_are_passed_on(options: Seq<Seq<char>>)
    ensures
        other_options(options) == options.filter(is_for_helper()),
        !asks_auto_unmount(options) ==> other_options(options) == options,
    decreases options.len(),
{
    reveal(Seq::filter);
    if options.len() > 0 {
        let front = options.drop_last();
        law_all_other_options_are_passed_on(front);
        assert(options[options.len() - 1] == options.last());
        if !asks_auto_unmount(options) {
            assert(!is_auto_unmount(options[options.len() - 1]));
            assert(!asks_auto_unmount(front)) by {
                if asks_auto_unmount(front) {
                    let i = choose|i: int|
                        0 <= i < front.len() && is_auto_unmount(#[trigger] front[i]);
                    assert(is_auto_unmount(options[i]));
                }
            }
            assert(other_options(options) =~= options);
        }
    } else {
        assert(other_options(options) =~= options);
    }
}

/// The helper is given the options that are passed on, one comma between any
/// two, behind `-o`, where there are any, and then the directory it stands
/// in, behind `--`. Taken apart at its commas the list is those options.
pub proof fn law_the_helper_is_given_every_option(options: Seq<Seq<char>>)
    requires
        options_allowed(options),
    ensures
        ({
            let arguments = helper_arguments(options);
            let passed = options.filter(is_for_helper());
            let n = arguments.len() as int;
            &&& n >= 2
            &&& arguments[n - 2] == seq!['-', '-']
            &&& arguments[n - 1] == seq!['.']
            &&& passed.len() == 0 ==> n == 2
            &&& passed.len() > 0 ==> n == 4 && arguments[0] == seq!['-', 'o'] && split(
                arguments[1],
                ',',
            ) == passed && arguments[1] == join(passed, seq![','])
        }),
{
    reveal_strlit("-o");
    reveal_strlit("--");
    reveal_strlit(".");
    reveal_strlit(",");
    assert("-o"@ =~= seq!['-', 'o']);
    assert("--"@ =~= seq!['-', '-']);
    assert("."@ =~= seq!['.']);
    assert(","@ =~= seq![',']);
    law_all_other_options_are_passed_on(options);
    crate::policy::law_the_helper_sees_only_checked_options(options);
}

/// The unmount helper is told to unmount, lazily exactly if that was asked
/// for, and is given the place as it is, alone behind `--`.
pub proof fn law_the_unmount_helper_is_given_the_place(place: Seq<char>, lazy: bool)
    ensures
        ({
            let arguments = unmount_helper_arguments(place, lazy);
            let n = arguments.len() as int;
            &&& n == (if lazy {
                4int
            } else {
                3int
            })
            &&& arguments[0] == seq!['-', 'u']
            &&& arguments[n - 2] == seq!['-', '-']
            &&& arguments[n - 1] == place
            &&& lazy ==> arguments[1] == seq!['-', 'z']
        }),
{
    reveal_strlit("-u");
    reveal_strlit("-z");
    reveal_strlit("--");
    assert("-u"@ =~= seq!['-', 'u']);
    assert("-z"@ =~= seq!['-', 'z']);
    assert("--"@ =~= seq!['-', '-']);
}

/// Requests to unmount different places never run the helper on the same one.
pub proof fn law_different_places_have_different_arguments(
    a: Seq<char>,
    b: Seq<char>,
    lazy: bool,
    hurried: bool,
)
    ensures
        unmount_helper_arguments(a, lazy) == unmount_helper_arguments(b, hurried) <==> a == b && lazy
            == hurried,
{
    law_the_unmount_helper_is_given_the_place(a, lazy);
    law_the_unmount_helper_is_given_the_place(b, hurried);
}

/// A path is allowed exactly if it lies below one of the roots, at whatever
/// depth.
pub proof fn law_below_any_root_is_allowed(path: Seq<char>, roots: Seq<Seq<char>>, root: Seq<char>)
    ensures
        roots.contains(root) && strictly_inside(path, root) ==> inside_any(path, roots),
        inside_any(path, roots) ==> exists|r: Seq<char>|
            roots.contains(r) && #[trigger] strictly_inside(path, r),
        inside_any(path, roots.push(root)) <==> inside_any(path, roots) || strictly_inside(path, root),
{
    if roots.contains(root) && strictly_inside(path, root) {
        let i = choose|i: int| 0 <= i < roots.len() && roots[i] == root;
        assert(strictly_inside(path, roots[i]));
    }
    let more = roots.push(root);
    if inside_any(path, roots) {
        let i = choose|i: int| 0 <= i < roots.len() && strictly_inside(path, #[trigger] roots[i]);
        assert(roots.contains(roots[i]));
        assert(more[i] == roots[i]);
    }
    if strictly_inside(path, root) {
        assert(more[roots.len() as int] == root);
    }
    if inside_any(path, more) {
        let i = choose|i: int| 0 <= i < more.len() && strictly_inside(path, #[trigger] more[i]);
        if i < roots.len() {
            assert(strictly_inside(path, roots[i]));
        }
    }
}

/// Every empty directory of the session user below a root is accepted, however
/// many steps below, and under the very path that was found.
pub proof fn law_directories_below_a_root_are_accepted(
    raw: Seq<char>,
    found: String,
    euid: u32,
    roots: Seq<Seq<char>>,
    root: Seq<Seq<char>>,
    more: Seq<Seq<char>>,
)
    requires
        are_names(root),
        are_names(more),
        more.len() > 0,
        roots.contains(absolute(root)),
        found@ == absolute(root + more),
    ensures
        mountpoint_verdict(
            raw,
            Probe::Found { path: found, is_dir: true, uid: euid, listing: Listing::Empty },
            euid,
            roots,
        ) == Ok::<Seq<char>, Seq<char>>(absolute(root + more)),
{
    law_everything_below_is_inside(root, more);
    law_below_any_root_is_allowed(found@, roots, absolute(root));
}

/// Everything else is refused with the first thing that is wrong: it leads
/// nowhere, cannot be examined, does not answer, is no directory, is somebody
/// else's, cannot be read, is not empty, or is not allowed.
pub proof fn law_other_mountpoints_are_refused(
    raw: Seq<char>,
    path: String,
    e: String,
    uid: u32,
    euid: u32,
    listing: Listing,
    roots: Seq<Seq<char>>,
)
    ensures
        mountpoint_verdict(raw, Probe::Unresolved(e), euid, roots) == Err::<Seq<char>, Seq<char>>(
            "mountpoint '"@ + raw + "' cannot be resolved: "@ + e@,
        ),
        mountpoint_verdict(raw, Probe::NoStat { path, error: e }, euid, roots) == Err::<
            Seq<char>,
            Seq<char>,
        >("cannot stat '"@ + path@ + "': "@ + e@),
        mountpoint_verdict(raw, Probe::Silent, euid, roots) == Err::<Seq<char>, Seq<char>>(
            "mountpoint '"@ + raw + "' is not responding"@,
        ),
        mountpoint_verdict(raw, Probe::NotTried, euid, roots) is Err,
        mountpoint_verdict(raw, Probe::Found { path, is_dir: false, uid, listing }, euid, roots)
            == Err::<Seq<char>, Seq<char>>("'"@ + path@ + "' is not a directory"@),
        uid != euid ==> mountpoint_verdict(
            raw,
            Probe::Found { path, is_dir: true, uid, listing },
            euid,
            roots,
        ) == Err::<Seq<char>, Seq<char>>(
            "'"@ + path@ + "' is owned by uid "@ + decimal(uid as nat)
                + ", not by the session user"@,
        ),
        mountpoint_verdict(
            raw,
            Probe::Found { path, is_dir: true, uid: euid, listing: Listing::Unread(e) },
            euid,
            roots,
        ) == Err::<Seq<char>, Seq<char>>("cannot read '"@ + path@ + "': "@ + e@),
        mountpoint_verdict(
            raw,
            Probe::Found { path, is_dir: true, uid: euid, listing: Listing::Occupied },
            euid,
            roots,
        ) == Err::<Seq<char>, Seq<char>>("'"@ + path@ + "' is not empty"@),
        !inside_any(path@, roots) ==> mountpoint_verdict(
            raw,
            Probe::Found { path, is_dir: true, uid: euid, listing: Listing::Empty },
            euid,
            roots,
        ) == Err::<Seq<char>, Seq<char>>(
            "'"@ + path@ + "' is outside the allowed mount roots ("@ + join(roots, ", "@) + ")"@,
        ),
{
}

/// A mount says that it is disconnected exactly if it answered in time with
/// that error, and is silent exactly if it did not answer.
pub proof fn law_what_a_mount_says(answered: bool, error: Option<i32>, not_connected: i32)
    ensures
        said_by(answered, error, not_connected) == Liveness::Silent <==> !answered,
        said_by(answered, error, not_connected) == Liveness::Disconnected <==> answered && error
            == Some(not_connected),
{
}

/// A mount is this operation's exactly if it was not disconnected before and
/// is disconnected now.
pub proof fn law_only_the_change_to_disconnected_counts(was: Liveness, now: Liveness)
    ensures
        died_between(was, Liveness::Disconnected) <==> was == Liveness::Answering || was
            == Liveness::Silent,
        now == Liveness::Answering || now == Liveness::Silent ==> !died_between(was, now),
{
}

/// The places of this operation's mounts are picked out place by place, in
/// order, each by its own two answers.
pub proof fn law_our_own_are_picked_place_by_place(
    places: Seq<Seq<char>>,
    place: Seq<char>,
    was: Seq<Liveness>,
    now: Seq<Liveness>,
)
    ensures
        died_among(Seq::empty(), was, now) == Seq::<Seq<char>>::empty(),
        places.len() < was.len() && places.len() < now.len() ==> died_among(
            places.push(place),
            was,
            now,
        ) == died_among(places, was, now) + (if died_between(
            was[places.len() as int],
            now[places.len() as int],
        ) {
            seq![place]
        } else {
            Seq::empty()
        }),
        places.len() >= now.len() ==> died_among(places.push(place), was, now) == died_among(
            places,
            was,
            now,
        ),
{
    assert(places.push(place).drop_last() =~= places);
    assert(places.push(place).last() == place);
    if places.len() < was.len() && places.len() < now.len() {
        assert(died_among(places.push(place), was, now) =~= died_among(places, was, now) + (
        if died_between(was[places.len() as int], now[places.len() as int]) {
            seq![place]
        } else {
            Seq::empty()
        }));
    }
}

/// An application may unmount what it owns, and nobody else may.
pub proof fn law_ownership_is_by_application(owner: Seq<char>, caller: Seq<char>)
    ensures
        owns(owner, owner),
        owns(owner, caller) ==> owner == caller,
{
}

/// The fewer looks are waiting for an answer, the sooner another may start,
/// and some number of them is too many.
pub proof fn law_looks_are_bounded(fewer: nat, more: nat)
    ensures
        can_check(0),
        can_check(more) && fewer <= more ==> can_check(fewer),
        more >= 16 ==> !can_check(more),
        more < 16 ==> can_check(more),
{
}

} // verus!
