//! What each argument does to the daemon's command line, whatever stands
//! around it, and what is said of how its reading ended.
use vstd::prelude::*;

#[allow(unused_imports)]
use crate::daemon::{
    complaint_about, defaults, read_args, warning_due, Asked, DaemonArgs, End, Ending, USAGE,
};
#[allow(unused_imports)]
use crate::number::natural;
#[allow(unused_imports)]
use crate::text::{decimal, views};

verus! {

/// The arguments in front of others.
proof fn lemma_in_front(a: Seq<char>, b: Seq<char>, rest: Seq<Seq<char>>)
    ensures
        (seq![a] + rest)[0] == a,
        (seq![a] + rest).len() == rest.len() + 1,
        (seq![a] + rest).skip(1) == rest,
        (seq![a, b] + rest)[0] == a,
        (seq![a, b] + rest)[1] == b,
        (seq![a, b] + rest).len() == rest.len() + 2,
        (seq![a, b] + rest).skip(2) == rest,
{
    assert((seq![a] + rest).skip(1) =~= rest);
    assert((seq![a, b] + rest).skip(2) =~= rest);
}

/// The words differ: in length, or where the lengths agree in a letter.
proof fn lemma_words_differ()
    ensures
        "--allow-root"@.len() == 12,
        "--max-mounts"@.len() == 12,
        "--allow-root"@[2] == 'a',
        "--max-mounts"@[2] == 'm',
        "--allow-unsandboxed"@.len() == 19,
        "--no-default-root"@.len() == 17,
        "--require-pidfd"@.len() == 15,
        "-h"@.len() == 2,
        "--help"@.len() == 6,
{
    reveal_strlit("--allow-root");
    reveal_strlit("--max-mounts");
    reveal_strlit("--allow-unsandboxed");
    reveal_strlit("--no-default-root");
    reveal_strlit("--require-pidfd");
    reveal_strlit("-h");
    reveal_strlit("--help");
}

/// Nothing said means: no roots but the default one, sandboxed callers only,
/// no descriptor demanded, sixty-four mounts, and serving.
pub proof fn law_what_is_served_by_default(seen: Asked)
    ensures
        read_args(Seq::empty(), seen) == seen,
        defaults().roots == Seq::<Seq<char>>::empty(),
        !defaults().allow_unsandboxed,
        defaults().default_root,
        !defaults().require_pidfd,
        defaults().max_mounts == 64,
        defaults().ending == End::Serve,
{
}

/// Each flag sets what it stands for and leaves all else as it was, wherever
/// it stands.
pub proof fn law_each_switch_sets_one_thing(seen: Asked, rest: Seq<Seq<char>>)
    ensures
        read_args(seq!["--allow-unsandboxed"@] + rest, seen) == read_args(
            rest,
            (Asked { allow_unsandboxed: true, ..seen }),
        ),
        read_args(seq!["--no-default-root"@] + rest, seen) == read_args(
            rest,
            (Asked { default_root: false, ..seen }),
        ),
        read_args(seq!["--require-pidfd"@] + rest, seen) == read_args(
            rest,
            (Asked { require_pidfd: true, ..seen }),
        ),
{
    lemma_words_differ();
    lemma_in_front("--allow-unsandboxed"@, "-h"@, rest);
    lemma_in_front("--no-default-root"@, "-h"@, rest);
    lemma_in_front("--require-pidfd"@, "-h"@, rest);
}

/// Every root that is named is kept, behind those named before it; one that
/// is missing ends the reading.
pub proof fn law_roots_are_kept_in_order(root: Seq<char>, seen: Asked, rest: Seq<Seq<char>>)
    ensures
        read_args(seq!["--allow-root"@, root] + rest, seen) == read_args(
            rest,
            (Asked { roots: seen.roots.push(root), ..seen }),
        ),
        read_args(seq!["--allow-root"@], seen) == (Asked { ending: End::MissingDirectory, ..seen }),
{
    lemma_words_differ();
    lemma_in_front("--allow-root"@, root, rest);
}

/// A positive number is the limit, the last one given counting; anything
/// else behind `--max-mounts`, or nothing, ends the reading.
pub proof fn law_only_positive_numbers_are_limits(
    text: Seq<char>,
    n: nat,
    seen: Asked,
    rest: Seq<Seq<char>>,
)
    requires
        n <= usize::MAX,
    ensures
        n > 0 ==> read_args(seq!["--max-mounts"@, decimal(n)] + rest, seen) == read_args(
            rest,
            (Asked { max_mounts: n, ..seen }),
        ),
        n > 0 && natural(text) == Some(n) ==> read_args(seq!["--max-mounts"@, text] + rest, seen)
            == read_args(rest, (Asked { max_mounts: n, ..seen })),
        !(natural(text) matches Some(m) && 0 < m <= usize::MAX) ==> read_args(
            seq!["--max-mounts"@, text] + rest,
            seen,
        ) == (Asked { ending: End::BadLimit, ..seen }),
        read_args(seq!["--max-mounts"@], seen) == (Asked { ending: End::BadLimit, ..seen }),
{
    lemma_words_differ();
    crate::text_laws::law_numbers_read_back(n);
    lemma_in_front("--max-mounts"@, decimal(n), rest);
    lemma_in_front("--max-mounts"@, text, rest);
}

/// Asking for help ends the reading, and so does every other argument, which
/// is then named; what was read before stays.
pub proof fn law_what_ends_the_reading(arg: Seq<char>, seen: Asked, rest: Seq<Seq<char>>)
    ensures
        read_args(seq!["-h"@] + rest, seen) == (Asked { ending: End::Help, ..seen }),
        read_args(seq!["--help"@] + rest, seen) == (Asked { ending: End::Help, ..seen }),
        arg != "--allow-root"@ && arg != "--max-mounts"@ && arg != "--allow-unsandboxed"@ && arg
            != "--no-default-root"@ && arg != "--require-pidfd"@ && arg != "-h"@ && arg
            != "--help"@ ==> read_args(seq![arg] + rest, seen) == (Asked {
            ending: End::Unknown(arg),
            ..seen
        }),
{
    lemma_words_differ();
    lemma_in_front("-h"@, arg, rest);
    lemma_in_front("--help"@, arg, rest);
    lemma_in_front(arg, arg, rest);
}

/// Only a bad limit and an unknown argument are worth words beyond the usage,
/// and an unknown argument is named in them.
pub proof fn law_what_is_said_of_an_ending(arg: Seq<char>)
    ensures
        complaint_about(End::BadLimit) == Some("--max-mounts needs a positive number"@),
        complaint_about(End::Unknown(arg)) == Some("unknown argument '"@ + arg + "'"@),
        complaint_about(End::Serve) is None,
        complaint_about(End::Help) is None,
        complaint_about(End::MissingDirectory) is None,
{
}

/// A bus is warned about exactly if it is known not to supply descriptors,
/// and what is said depends on whether they are required.
pub proof fn law_which_buses_are_warned_about(supplies: Option<bool>, require: bool)
    ensures
        warning_due(supplies, require) is Some <==> supplies == Some(false),
        warning_due(Some(false), true) == Some(
            "this bus does not supply caller pidfds (needs dbus >= 1.16) and --require-pidfd is set: every request will be refused"@,
        ),
        warning_due(Some(false), false) == Some(
            "this bus does not supply caller pidfds (needs dbus >= 1.16): callers are identified by pid, which a caller that hands off its connection and exits can make stale"@,
        ),
{
}

/// The usage lists every argument, and says where mountpoints are allowed.
pub proof fn law_what_the_usage_says()
    ensures
        USAGE@
            == "usage: fusebridged [--allow-root <dir>]... [--allow-unsandboxed]\n                   [--no-default-root] [--max-mounts <n>] [--require-pidfd]\n\nMountpoints are allowed only strictly inside the allowed roots\n(default: ~/CloudDrives, created if missing)."@,
{
}

/// Command lines are seen as what they hold.
pub proof fn law_command_lines_show_what_they_hold(args: DaemonArgs, arg: String)
    ensures
        args@.roots == views(args.roots@),
        args@.allow_unsandboxed == args.allow_unsandboxed,
        args@.default_root == args.default_root,
        args@.require_pidfd == args.require_pidfd,
        args@.max_mounts == args.max_mounts,
        args@.ending == args.ending@,
        Ending::Serve@ == End::Serve,
        Ending::Help@ == End::Help,
        Ending::MissingDirectory@ == End::MissingDirectory,
        Ending::BadLimit@ == End::BadLimit,
        Ending::Unknown(arg)@ == End::Unknown(arg@),
{
}

} // verus!
