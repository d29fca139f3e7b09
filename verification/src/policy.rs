//! Mountpoint and mount-option policy.
//!
//! Anything that was not explicitly configured is refused: a mountpoint must
//! be an empty directory owned by the session user, strictly inside one of
//! the allowed roots. This is the defence against mountpoint shadowing
//! (mounting over `~/.ssh` and the like).
use vstd::prelude::*;

use crate::path::path_inside;
#[allow(unused_imports)]
use crate::path::strictly_inside;
use crate::text::{
    concat2, concat3, contains_char, decimal_text, join_texts, same_text, split_text, trim_text,
};
#[allow(unused_imports)]
use crate::text::{
    decimal, is_white_space, join, law_split_undoes_join, lemma_split_extend, split, trim, trim_end,
    trim_start, views,
};
#[allow(unused_imports)]
use crate::error::text_answer;

verus! {

/// What an option is called: the text before its first `=`, without the
/// white space around it.
pub open spec fn option_key(option: Seq<char>) -> Seq<char> {
    trim(split(option, '=')[0])
}

/// The options that would expose a sandboxed filesystem to other users of
/// the machine.
pub open spec fn is_forbidden(key: Seq<char>) -> bool {
    key == "allow_other"@ || key == "allow_root"@
}

/// What is wrong with an option, if anything is.
pub open spec fn option_fault(option: Seq<char>) -> Option<Seq<char>> {
    let key = option_key(option);
    if is_forbidden(key) {
        Some("mount option '"@ + key + "' is not allowed"@)
    } else if option.contains(',') {
        Some("malformed mount option '"@ + option + "'"@)
    } else {
        None
    }
}

/// Whether all options may be passed on.
pub open spec fn options_allowed(options: Seq<Seq<char>>) -> bool {
    forall|i: int| 0 <= i < options.len() ==> option_fault(#[trigger] options[i]) is None
}

/// Whether `fault` is what is wrong with the first option that has a fault.
pub open spec fn is_first_fault(options: Seq<Seq<char>>, fault: Seq<char>) -> bool {
    exists|i: int|
        #![trigger options[i]]
        0 <= i < options.len() && option_fault(options[i]) == Some(fault) && options_allowed(
            options.take(i),
        )
}

/// Reads an option's key.
fn key_of(option: &str) -> (key: String)
    ensures
        key@ == option_key(option@),
{
    let parts = split_text(option, '=');
    proof {
        crate::text::lemma_split_shape(option@, '=');
        assert(views(parts@)[0] == parts@[0]@);
    }
    trim_text(parts[0].as_str())
}

/// Refuses options that must not reach the mount helper, and options that
/// smuggle further ones in behind a comma.
pub fn check_options(options: &[String]) -> (checked: Result<(), String>)
    ensures
        match checked {
            Ok(()) => options_allowed(views(options@)),
            Err(fault) => is_first_fault(views(options@), fault@),
        },
{
    let ghost texts = views(options@);
    let mut i: usize = 0;
    while i < options.len()
        invariant
            i <= options.len(),
            texts == views(options@),
            options_allowed(texts.take(i as int)),
        decreases options.len() - i,
    {
        assert(texts[i as int] == options@[i as int]@);
        let key = key_of(options[i].as_str());
        if same_text(key.as_str(), "allow_other") || same_text(key.as_str(), "allow_root") {
            return Err(concat3("mount option '", key.as_str(), "' is not allowed"));
        }
        if contains_char(options[i].as_str(), ',') {
            return Err(concat3("malformed mount option '", options[i].as_str(), "'"));
        }
        proof {
            assert forall|k: int| 0 <= k < i + 1 implies option_fault(
                #[trigger] texts.take(i as int + 1)[k],
            ) is None by {
                if k < i {
                    assert(texts.take(i as int)[k] == texts.take(i as int + 1)[k]);
                }
            }
        }
        i += 1;
    }
    assert(texts.take(i as int) == texts);
    Ok(())
}

/// Whether a text is nothing but white space.
pub open spec fn is_blank(s: Seq<char>) -> bool {
    forall|i: int| 0 <= i < s.len() ==> is_white_space(#[trigger] s[i])
}

/// White space in front does not matter to what is left after trimming.
pub proof fn lemma_trim_start(blank: Seq<char>, s: Seq<char>)
    requires
        is_blank(blank),
    ensures
        trim_start(blank + s) == trim_start(s),
    decreases blank.len(),
{
    if blank.len() == 0 {
        assert(blank + s =~= s);
    } else {
        let rest = blank.drop_first();
        assert forall|i: int| 0 <= i < rest.len() implies is_white_space(#[trigger] rest[i]) by {
            assert(rest[i] == blank[i + 1]);
        }
        lemma_trim_start(rest, s);
        assert((blank + s)[0] == blank[0]);
        assert((blank + s).drop_first() =~= rest + s);
    }
}

/// White space behind does not matter either.
pub proof fn lemma_trim_end(s: Seq<char>, blank: Seq<char>)
    requires
        is_blank(blank),
    ensures
        trim_end(s + blank) == trim_end(s),
    decreases blank.len(),
{
    if blank.len() == 0 {
        assert(s + blank =~= s);
    } else {
        let rest = blank.drop_last();
        assert forall|i: int| 0 <= i < rest.len() implies is_white_space(#[trigger] rest[i]) by {
            assert(rest[i] == blank[i]);
        }
        lemma_trim_end(s, rest);
        assert((s + blank).last() == blank[blank.len() - 1]);
        assert((s + blank).drop_last() =~= s + rest);
    }
}

/// The first piece is what stands before the first separator.
pub proof fn lemma_first_piece(front: Seq<char>, value: Seq<char>)
    requires
        !front.contains('='),
    ensures
        split(front, '=') == seq![front],
        split(front.push('=') + value, '=').len() > 1,
        split(front.push('=') + value, '=')[0] == front,
    decreases value.len(),
{
    let empty = Seq::<char>::empty();
    lemma_split_extend(empty, front, '=');
    assert(empty + front =~= front);
    assert(split(empty, '=') == seq![empty]);
    assert(seq![empty].drop_last().push(front) =~= seq![front]);
    assert(empty + front == front);
    let all = front.push('=') + value;
    if value.len() == 0 {
        assert(all =~= front.push('='));
        assert(all.drop_last() =~= front);
    } else {
        lemma_first_piece(front, value.drop_last());
        assert(all.drop_last() =~= front.push('=') + value.drop_last());
    }
}

/// A forbidden option is refused however it is spelled: with white space
/// around it, and with or without a value.
pub proof fn law_forbidden_options_are_refused_however_spelled(
    before: Seq<char>,
    key: Seq<char>,
    after: Seq<char>,
    value: Seq<char>,
)
    requires
        is_forbidden(key),
        is_blank(before),
        is_blank(after),
    ensures
        option_fault(before + key + after) == Some("mount option '"@ + key + "' is not allowed"@),
        option_fault((before + key + after).push('=') + value) == Some(
            "mount option '"@ + key + "' is not allowed"@,
        ),
{
    reveal_strlit("allow_other");
    reveal_strlit("allow_root");
    let padded = before + key + after;
    assert(!key.contains('='));
    assert(!padded.contains('=')) by {
        if padded.contains('=') {
            let i = choose|i: int| 0 <= i < padded.len() && padded[i] == '=';
            let a = before.len() as int;
            let b = a + key.len() as int;
            if i < a {
                assert(is_white_space(before[i]));
            } else if i < b {
                assert(key[i - a] == '=');
            } else {
                assert(is_white_space(after[i - b]));
            }
        }
    }
    assert(padded =~= before + (key + after));
    lemma_trim_start(before, key + after);
    assert((key + after)[0] == 'a');
    assert(trim_start(key + after) == key + after);
    lemma_trim_end(key, after);
    assert(!is_white_space(key.last()));
    assert(trim(padded) == key);
    lemma_first_piece(padded, value);
}

/// Whether a path lies strictly inside one of the roots.
pub open spec fn inside_any(path: Seq<char>, roots: Seq<Seq<char>>) -> bool {
    exists|i: int| 0 <= i < roots.len() && strictly_inside(path, #[trigger] roots[i])
}

/// True if `path` sits strictly inside one of the allowed roots.
pub fn inside_allowed(path: &str, allowed_roots: &[String]) -> (inside: bool)
    ensures
        inside == inside_any(path@, views(allowed_roots@)),
{
    let mut i: usize = 0;
    while i < allowed_roots.len()
        invariant
            i <= allowed_roots.len(),
            forall|k: int|
                0 <= k < i ==> !strictly_inside(path@, #[trigger] views(allowed_roots@)[k]),
        decreases allowed_roots.len() - i,
    {
        assert(views(allowed_roots@)[i as int] == allowed_roots@[i as int]@);
        if path_inside(path, allowed_roots[i].as_str()) {
            return true;
        }
        i += 1;
    }
    false
}

/// What was found when a mountpoint was looked at.
#[derive(Debug)]
pub enum Probe {
    /// The path leads nowhere.
    Unresolved(String),
    /// The path leads to something that cannot be examined.
    NoStat { path: String, error: String },
    Found { path: String, is_dir: bool, uid: u32, listing: Listing },
    /// The filesystem did not answer in time.
    Silent,
    /// Too many earlier looks are still waiting for an answer to start
    /// another one.
    NotTried,
}

/// What is in a directory.
#[derive(Debug)]
pub enum Listing {
    Unread(String),
    Empty,
    Occupied,
}

/// How many looks at a mountpoint may be waiting for a filesystem that does
/// not answer.
pub const MAX_ABANDONED_CHECKS: usize = 16;

/// Whether another look may be started while so many are waiting.
pub open spec fn can_check(abandoned: nat) -> bool {
    abandoned < MAX_ABANDONED_CHECKS
}

/// Whether another look at a mountpoint may be started.
pub fn may_check(abandoned: usize) -> (may: bool)
    ensures
        may == can_check(abandoned as nat),
{
    abandoned < MAX_ABANDONED_CHECKS
}

/// The judgement on a mountpoint: the path it resolves to, or why it is
/// refused.
pub open spec fn mountpoint_verdict(
    raw: Seq<char>,
    probe: Probe,
    euid: u32,
    roots: Seq<Seq<char>>,
) -> Result<Seq<char>, Seq<char>> {
    match probe {
        Probe::Unresolved(e) => Err("mountpoint '"@ + raw + "' cannot be resolved: "@ + e@),
        Probe::NoStat { path, error } => Err("cannot stat '"@ + path@ + "': "@ + error@),
        Probe::Silent => Err("mountpoint '"@ + raw + "' is not responding"@),
        Probe::NotTried => Err(
            "mountpoint '"@ + raw
                + "' was not checked: too many filesystems are not responding"@,
        ),
        Probe::Found { path, is_dir, uid, listing } => if !is_dir {
            Err("'"@ + path@ + "' is not a directory"@)
        } else if uid != euid {
            Err(
                "'"@ + path@ + "' is owned by uid "@ + decimal(uid as nat)
                    + ", not by the session user"@,
            )
        } else {
            match listing {
                Listing::Unread(e) => Err("cannot read '"@ + path@ + "': "@ + e@),
                Listing::Occupied => Err("'"@ + path@ + "' is not empty"@),
                Listing::Empty => if inside_any(path@, roots) {
                    Ok(path@)
                } else {
                    Err(
                        "'"@ + path@ + "' is outside the allowed mount roots ("@ + join(
                            roots,
                            ", "@,
                        ) + ")"@,
                    )
                },
            }
        },
    }
}

/// Judges a mountpoint by what was found there, and returns the path it
/// resolves to.
pub fn check_mountpoint(raw: &str, probe: &Probe, euid: u32, allowed_roots: &[String]) -> (checked:
    Result<String, String>)
    ensures
        text_answer(checked) == mountpoint_verdict(raw@, *probe, euid, views(allowed_roots@)),
{
    match probe {
        Probe::Unresolved(e) => {
            let start = concat3("mountpoint '", raw, "' cannot be resolved: ");
            Err(concat2(start.as_str(), e.as_str()))
        },
        Probe::NoStat { path, error } => {
            let start = concat3("cannot stat '", path.as_str(), "': ");
            Err(concat2(start.as_str(), error.as_str()))
        },
        Probe::Silent => Err(concat3("mountpoint '", raw, "' is not responding")),
        Probe::NotTried => Err(
            concat3(
                "mountpoint '",
                raw,
                "' was not checked: too many filesystems are not responding",
            ),
        ),
        Probe::Found { path, is_dir, uid, listing } => {
            if !*is_dir {
                return Err(concat3("'", path.as_str(), "' is not a directory"));
            }
            if *uid != euid {
                let start = concat3("'", path.as_str(), "' is owned by uid ");
                let number = decimal_text(*uid as u64);
                return Err(concat3(start.as_str(), number.as_str(), ", not by the session user"));
            }
            match listing {
                Listing::Unread(e) => {
                    let start = concat3("cannot read '", path.as_str(), "': ");
                    Err(concat2(start.as_str(), e.as_str()))
                },
                Listing::Occupied => Err(concat3("'", path.as_str(), "' is not empty")),
                Listing::Empty => if inside_allowed(path.as_str(), allowed_roots) {
                    Ok(path.clone())
                } else {
                    let start = concat3("'", path.as_str(), "' is outside the allowed mount roots (");
                    let roots = join_texts(allowed_roots, ", ");
                    Err(concat3(start.as_str(), roots.as_str(), ")"))
                },
            }
        },
    }
}

/// A mountpoint is accepted exactly if it is an empty directory of the
/// session user, strictly inside one of the allowed roots; the path that is
/// accepted is the one that was examined, not the one that was asked for.
pub proof fn law_only_empty_owned_directories_inside_roots(
    raw: Seq<char>,
    probe: Probe,
    euid: u32,
    roots: Seq<Seq<char>>,
    place: Seq<char>,
)
    ensures
        mountpoint_verdict(raw, probe, euid, roots) == Ok::<Seq<char>, Seq<char>>(place) <==> {
            &&& probe matches Probe::Found { path, is_dir, uid, listing }
            &&& path@ == place
            &&& is_dir
            &&& uid == euid
            &&& listing is Empty
            &&& inside_any(place, roots)
        },
{
}

/// No root is inside itself, so a single root is never accepted as a
/// mountpoint, however it is spelled.
pub proof fn law_the_root_itself_is_refused(
    raw: Seq<char>,
    probe: Probe,
    euid: u32,
    root: Seq<char>,
    spelling: Seq<char>,
)
    requires
        crate::path::same_place(spelling, root),
    ensures
        mountpoint_verdict(raw, probe, euid, seq![root]) != Ok::<Seq<char>, Seq<char>>(spelling),
{
    law_only_empty_owned_directories_inside_roots(raw, probe, euid, seq![root], spelling);
    if inside_any(spelling, seq![root]) {
        let i = choose|i: int| 0 <= i < 1 && strictly_inside(spelling, #[trigger] seq![root][i]);
        assert(seq![root][i] == root);
        crate::path::law_nothing_is_inside_itself(spelling, root);
    }
}

/// Whether an option asks for the mount to go when its application does.
pub open spec fn is_auto_unmount(option: Seq<char>) -> bool {
    option_key(option) == "auto_unmount"@
}

/// Whether any of these options does.
pub open spec fn asks_auto_unmount(options: Seq<Seq<char>>) -> bool {
    exists|i: int| 0 <= i < options.len() && is_auto_unmount(#[trigger] options[i])
}

/// The other options, in order.
pub open spec fn other_options(options: Seq<Seq<char>>) -> Seq<Seq<char>>
    decreases options.len(),
{
    if options.len() == 0 {
        Seq::empty()
    } else if is_auto_unmount(options.last()) {
        other_options(options.drop_last())
    } else {
        other_options(options.drop_last()).push(options.last())
    }
}

/// Whether the mount is to go when its application does.
pub fn wants_auto_unmount(options: &[String]) -> (wants: bool)
    ensures
        wants == asks_auto_unmount(views(options@)),
{
    let ghost texts = views(options@);
    let mut i: usize = 0;
    while i < options.len()
        invariant
            i <= options.len(),
            texts == views(options@),
            forall|k: int| 0 <= k < i ==> !is_auto_unmount(#[trigger] texts[k]),
        decreases options.len() - i,
    {
        assert(texts[i as int] == options@[i as int]@);
        let key = key_of(options[i].as_str());
        if same_text(key.as_str(), "auto_unmount") {
            return true;
        }
        i += 1;
    }
    false
}

/// The options to pass on. The helper could only watch the wrong socket, so
/// `auto_unmount` is not among them.
pub fn without_auto_unmount(options: &[String]) -> (others: Vec<String>)
    ensures
        views(others@) == other_options(views(options@)),
{
    let ghost texts = views(options@);
    let mut others: Vec<String> = Vec::new();
    let mut i: usize = 0;
    assert(views(others@) == other_options(texts.take(0)));
    while i < options.len()
        invariant
            i <= options.len(),
            texts == views(options@),
            views(others@) == other_options(texts.take(i as int)),
        decreases options.len() - i,
    {
        proof {
            assert(texts.take(i as int + 1).drop_last() == texts.take(i as int));
            assert(texts.take(i as int + 1).last() == options@[i as int]@);
        }
        let key = key_of(options[i].as_str());
        if !same_text(key.as_str(), "auto_unmount") {
            let option = options[i].clone();
            proof {
                crate::text::lemma_views_push(others@, option);
            }
            others.push(option);
        }
        i += 1;
    }
    assert(texts.take(i as int) == texts);
    others
}

/// What the mount helper is started with: the options as one list, and the
/// directory it stands in.
pub open spec fn helper_arguments(options: Seq<Seq<char>>) -> Seq<Seq<char>> {
    let others = other_options(options);
    if others.len() > 0 {
        seq!["-o"@, join(others, ","@), "--"@, "."@]
    } else {
        seq!["--"@, "."@]
    }
}

/// Builds the arguments that the mount helper is started with.
pub fn mount_arguments(options: &[String]) -> (arguments: Vec<String>)
    ensures
        views(arguments@) == helper_arguments(views(options@)),
{
    let others = without_auto_unmount(options);
    let mut arguments: Vec<String> = Vec::new();
    if others.len() > 0 {
        arguments.push("-o".to_owned());
        arguments.push(join_texts(others.as_slice(), ","));
    }
    arguments.push("--".to_owned());
    arguments.push(".".to_owned());
    assert(views(others@).len() == others.len());
    assert(views(arguments@) =~= helper_arguments(views(options@)));
    arguments
}

/// What the unmount helper is started with.
pub open spec fn unmount_helper_arguments(place: Seq<char>, lazy: bool) -> Seq<Seq<char>> {
    if lazy {
        seq!["-u"@, "-z"@, "--"@, place]
    } else {
        seq!["-u"@, "--"@, place]
    }
}

/// Builds the arguments that the unmount helper is started with.
pub fn unmount_arguments(place: &str, lazy: bool) -> (arguments: Vec<String>)
    ensures
        views(arguments@) == unmount_helper_arguments(place@, lazy),
{
    let mut arguments: Vec<String> = Vec::new();
    arguments.push("-u".to_owned());
    if lazy {
        arguments.push("-z".to_owned());
    }
    arguments.push("--".to_owned());
    arguments.push(place.to_owned());
    assert(views(arguments@) =~= unmount_helper_arguments(place@, lazy));
    arguments
}

/// Every option that is passed on is one of those asked for, and is not
/// `auto_unmount`.
proof fn lemma_other_options_come_from(options: Seq<Seq<char>>, i: int)
    requires
        0 <= i < other_options(options).len(),
    ensures
        options.contains(other_options(options)[i]),
        !is_auto_unmount(other_options(options)[i]),
    decreases options.len(),
{
    let front = options.drop_last();
    let earlier = other_options(front);
    if i < earlier.len() {
        lemma_other_options_come_from(front, i);
        let k = choose|k: int| 0 <= k < front.len() && front[k] == earlier[i];
        assert(options[k] == earlier[i]);
    } else {
        assert(options[options.len() - 1] == options.last());
    }
}

/// However the helper takes its option list apart, it finds exactly the
/// options that were checked: none of them is forbidden, none was hidden in
/// another one, and `auto_unmount` is not among them.
pub proof fn law_the_helper_sees_only_checked_options(options: Seq<Seq<char>>)
    requires
        options_allowed(options),
    ensures
        other_options(options).len() > 0 ==> split(helper_arguments(options)[1], ',')
            == other_options(options),
        forall|i: int|
            0 <= i < other_options(options).len() ==> {
                &&& options.contains(#[trigger] other_options(options)[i])
                &&& !is_forbidden(option_key(other_options(options)[i]))
                &&& !is_auto_unmount(other_options(options)[i])
            },
{
    let others = other_options(options);
    assert forall|i: int| 0 <= i < others.len() implies {
        &&& options.contains(#[trigger] others[i])
        &&& !is_forbidden(option_key(others[i]))
        &&& !is_auto_unmount(others[i])
        &&& !others[i].contains(',')
    } by {
        lemma_other_options_come_from(options, i);
        let k = choose|k: int| 0 <= k < options.len() && options[k] == others[i];
        assert(option_fault(options[k]) is None);
    }
    if others.len() > 0 {
        reveal_strlit(",");
        assert(","@ =~= seq![',']);
        law_split_undoes_join(others, ',');
    }
}

/// What a FUSE mount says when it is asked something.
#[derive(Debug, Clone, Copy, PartialEq, Eq, Structural)]
pub enum Liveness {
    /// Somebody is serving it.
    Answering,
    /// Nobody holds its descriptor any more.
    Disconnected,
    /// It is connected, and nobody answers.
    Silent,
}

/// What an attempt to examine a mount says about it.
pub open spec fn said_by(answered: bool, error: Option<i32>, not_connected: i32) -> Liveness {
    if !answered {
        Liveness::Silent
    } else if error == Some(not_connected) {
        Liveness::Disconnected
    } else {
        Liveness::Answering
    }
}

/// What an attempt to examine a mount says about it: the error it failed
/// with, if any came back in time. `not_connected` is the number of the
/// error that an abandoned mount gives.
pub fn liveness(answered: bool, error: Option<i32>, not_connected: i32) -> (state: Liveness)
    ensures
        state == said_by(answered, error, not_connected),
{
    if !answered {
        return Liveness::Silent;
    }
    match error {
        Some(number) => if number == not_connected {
            Liveness::Disconnected
        } else {
            Liveness::Answering
        },
        None => Liveness::Answering,
    }
}

/// Whether a mount is the one whose descriptor was dropped between two
/// looks: it was connected, and is not any more.
pub open spec fn died_between(was: Liveness, now: Liveness) -> bool {
    was != Liveness::Disconnected && now == Liveness::Disconnected
}

/// Whether a mount died with the descriptor that was dropped. A filesystem
/// that somebody serves answers throughout, and one that was disconnected
/// already belongs to a stranger.
pub fn is_ours(was: Liveness, now: Liveness) -> (ours: bool)
    ensures
        ours == died_between(was, now),
{
    was != Liveness::Disconnected && now == Liveness::Disconnected
}

/// The answer at a position of a list; a mount that was not asked counts as
/// silent.
pub open spec fn answer_at(answers: Seq<Liveness>, i: int) -> Liveness {
    if 0 <= i < answers.len() {
        answers[i]
    } else {
        Liveness::Silent
    }
}

/// Of these places, those whose mounts died between two rounds of asking.
pub open spec fn died_among(places: Seq<Seq<char>>, was: Seq<Liveness>, now: Seq<Liveness>) -> Seq<
    Seq<char>,
>
    decreases places.len(),
{
    if places.len() == 0 {
        Seq::empty()
    } else {
        let last = places.len() - 1;
        let earlier = died_among(places.drop_last(), was, now);
        if died_between(answer_at(was, last), answer_at(now, last)) {
            earlier.push(places.last())
        } else {
            earlier
        }
    }
}

fn answer_of(answers: &Vec<Liveness>, i: usize) -> (state: Liveness)
    ensures
        state == answer_at(answers@, i as int),
{
    if i < answers.len() {
        answers[i]
    } else {
        Liveness::Silent
    }
}

/// Of these places, those whose mounts this operation made. The proof is
/// what dropping the descriptor did to them: `was` is to be gathered while
/// it is held, of every place, and `now` after it was dropped.
pub fn we_made(places: &Vec<String>, was: &Vec<Liveness>, now: &Vec<Liveness>) -> (ours: Vec<
    String,
>)
    ensures
        views(ours@) == died_among(views(places@), was@, now@),
{
    let ghost texts = views(places@);
    let mut ours: Vec<String> = Vec::new();
    let mut i: usize = 0;
    assert(views(ours@) == died_among(texts.take(0), was@, now@));
    while i < places.len()
        invariant
            i <= places.len(),
            texts == views(places@),
            views(ours@) == died_among(texts.take(i as int), was@, now@),
        decreases places.len() - i,
    {
        proof {
            assert(texts.take(i as int + 1).drop_last() == texts.take(i as int));
            assert(texts.take(i as int + 1).last() == places@[i as int]@);
        }
        if is_ours(answer_of(was, i), answer_of(now, i)) {
            let place = places[i].clone();
            proof {
                crate::text::lemma_views_push(ours@, place);
            }
            ours.push(place);
        }
        i += 1;
    }
    assert(texts.take(i as int) == texts);
    ours
}

/// A place is taken for this operation's exactly if the mount there was
/// connected while the descriptor was held and was disconnected after it was
/// dropped. A mount that was not asked counts as silent in that round.
pub proof fn law_only_what_died_with_the_descriptor_is_ours(
    places: Seq<Seq<char>>,
    was: Seq<Liveness>,
    now: Seq<Liveness>,
    place: Seq<char>,
)
    ensures
        died_among(places, was, now).contains(place) <==> exists|i: int|
            0 <= i < places.len() && #[trigger] places[i] == place && died_between(
                answer_at(was, i),
                answer_at(now, i),
            ),
    decreases places.len(),
{
    let all = died_among(places, was, now);
    if places.len() > 0 {
        let front = places.drop_last();
        let earlier = died_among(front, was, now);
        law_only_what_died_with_the_descriptor_is_ours(front, was, now, place);
        assert(places[places.len() - 1] == places.last());
        if all.contains(place) {
            let k = choose|k: int| 0 <= k < all.len() && all[k] == place;
            if k < earlier.len() {
                assert(earlier[k] == place);
                let i = choose|i: int|
                    0 <= i < front.len() && #[trigger] front[i] == place && died_between(
                        answer_at(was, i),
                        answer_at(now, i),
                    );
                assert(places[i] == place);
            }
        }
        if exists|i: int|
            0 <= i < places.len() && #[trigger] places[i] == place && died_between(
                answer_at(was, i),
                answer_at(now, i),
            ) {
            let i = choose|i: int|
                0 <= i < places.len() && #[trigger] places[i] == place && died_between(
                    answer_at(was, i),
                    answer_at(now, i),
                );
            if i < front.len() {
                assert(front[i] == place);
                let k = choose|k: int| 0 <= k < earlier.len() && earlier[k] == place;
                assert(all[k] == place);
            } else {
                assert(all[all.len() - 1] == place);
            }
        }
    }
}

/// Whether what belongs to an owner belongs to a caller.
pub open spec fn owns(owner: Seq<char>, caller: Seq<char>) -> bool {
    owner == caller
}

/// Whether a caller may unmount: only the application that mounted.
pub fn may_unmount(owner: &str, caller: &str) -> (may: bool)
    ensures
        may == owns(owner@, caller@),
{
    same_text(owner, caller)
}

} // verus!
