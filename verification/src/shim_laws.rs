//! What each argument does to a command line of the program in the sandbox,
//! whatever stands around it, and what the program then does.
use vstd::prelude::*;

#[allow(unused_imports)]
use crate::number::{i32_complaint, integer};
#[allow(unused_imports)]
use crate::proto::{BUS_NAME, COMMFD_ENV, INTERFACE, OBJECT_PATH, VERSION};
#[allow(unused_imports)]
use crate::shim::{
    asks_quiet, bad_comm_fd_text, bad_letter, call_error_text, comm_fd_in, command_line,
    complaint_due, mount_refused_text, nothing, plan_for, planned, read, silent,
    unmount_refused_text, version_text, word, Args, CallError, Parsed, Plan, Planned,
    Word, USAGE,
};
#[allow(unused_imports)]
use crate::text::{decimal, optional_text, split, views};

verus! {

/// Reading takes the first argument and goes on with the rest.
proof fn lemma_first(arg: Seq<char>, rest: Seq<Seq<char>>)
    ensures
        (seq![arg] + rest)[0] == arg,
        (seq![arg] + rest).len() == rest.len() + 1,
        (seq![arg] + rest).skip(1) == rest,
{
    assert((seq![arg] + rest).skip(1) =~= rest);
}

/// Reading takes the first two arguments and goes on with the rest.
proof fn lemma_first_two(a: Seq<char>, b: Seq<char>, rest: Seq<Seq<char>>)
    ensures
        (seq![a, b] + rest)[0] == a,
        (seq![a, b] + rest)[1] == b,
        (seq![a, b] + rest).len() == rest.len() + 2,
        (seq![a, b] + rest).skip(2) == rest,
{
    assert((seq![a, b] + rest).skip(2) =~= rest);
}

/// What the option words are made of, and that they differ.
proof fn lemma_words()
    ensures
        "--"@ == seq!['-', '-'],
        "-"@ == seq!['-'],
        "-o"@ == seq!['-', 'o'],
        "-h"@ == seq!['-', 'h'],
        "-V"@ == seq!['-', 'V'],
        "-u"@ == seq!['-', 'u'],
        "-q"@ == seq!['-', 'q'],
        "-z"@ == seq!['-', 'z'],
        "--help"@ == seq!['-', '-', 'h', 'e', 'l', 'p'],
        "--version"@ == seq!['-', '-', 'v', 'e', 'r', 's', 'i', 'o', 'n'],
        "--unmount"@ == seq!['-', '-', 'u', 'n', 'm', 'o', 'u', 'n', 't'],
        "--quiet"@ == seq!['-', '-', 'q', 'u', 'i', 'e', 't'],
        "--lazy"@ == seq!['-', '-', 'l', 'a', 'z', 'y'],
        "--auto-unmount"@ == seq![
            '-', '-', 'a', 'u', 't', 'o', '-', 'u', 'n', 'm', 'o', 'u', 'n', 't',
        ],
        "--sync-init"@ == seq!['-', '-', 's', 'y', 'n', 'c', '-', 'i', 'n', 'i', 't'],
        "--options"@ == seq!['-', '-', 'o', 'p', 't', 'i', 'o', 'n', 's'],
        "--options="@ == seq!['-', '-', 'o', 'p', 't', 'i', 'o', 'n', 's', '='],
{
    reveal_strlit("--");
    reveal_strlit("-");
    reveal_strlit("-o");
    reveal_strlit("-h");
    reveal_strlit("-V");
    reveal_strlit("-u");
    reveal_strlit("-q");
    reveal_strlit("-z");
    reveal_strlit("--help");
    reveal_strlit("--version");
    reveal_strlit("--unmount");
    reveal_strlit("--quiet");
    reveal_strlit("--lazy");
    reveal_strlit("--auto-unmount");
    reveal_strlit("--sync-init");
    reveal_strlit("--options");
    reveal_strlit("--options=");
    assert("--"@ =~= seq!['-', '-']);
    assert("-"@ =~= seq!['-']);
    assert("-o"@ =~= seq!['-', 'o']);
    assert("-h"@ =~= seq!['-', 'h']);
    assert("-V"@ =~= seq!['-', 'V']);
    assert("-u"@ =~= seq!['-', 'u']);
    assert("-q"@ =~= seq!['-', 'q']);
    assert("-z"@ =~= seq!['-', 'z']);
    assert("--help"@ =~= seq!['-', '-', 'h', 'e', 'l', 'p']);
    assert("--version"@ =~= seq!['-', '-', 'v', 'e', 'r', 's', 'i', 'o', 'n']);
    assert("--unmount"@ =~= seq!['-', '-', 'u', 'n', 'm', 'o', 'u', 'n', 't']);
    assert("--quiet"@ =~= seq!['-', '-', 'q', 'u', 'i', 'e', 't']);
    assert("--lazy"@ =~= seq!['-', '-', 'l', 'a', 'z', 'y']);
    assert("--auto-unmount"@ =~= seq![
        '-', '-', 'a', 'u', 't', 'o', '-', 'u', 'n', 'm', 'o', 'u', 'n', 't',
    ]);
    assert("--sync-init"@ =~= seq!['-', '-', 's', 'y', 'n', 'c', '-', 'i', 'n', 'i', 't']);
    assert("--options"@ =~= seq!['-', '-', 'o', 'p', 't', 'i', 'o', 'n', 's']);
    assert("--options="@ =~= seq!['-', '-', 'o', 'p', 't', 'i', 'o', 'n', 's', '=']);
}

/// An empty command line asks for nothing, and everything read is read on top
/// of what was seen.
pub proof fn law_nothing_asks_for_nothing(seen: Parsed)
    ensures
        read(Seq::empty(), seen) == Ok::<Parsed, Seq<char>>(seen),
        !nothing().unmount,
        !nothing().lazy,
        !nothing().quiet,
        !nothing().version,
        !nothing().help,
        !nothing().watchdog,
        !nothing().sync_init,
        nothing().options == Seq::<Seq<char>>::empty(),
        nothing().mountpoint is None,
{
}

/// Each flag, in each of its spellings, sets what it stands for and leaves
/// all else as it was, wherever it stands.
pub proof fn law_each_flag_sets_one_thing(seen: Parsed, rest: Seq<Seq<char>>)
    ensures
        read(seq!["-h"@] + rest, seen) == read(rest, (Parsed { help: true, ..seen })),
        read(seq!["--help"@] + rest, seen) == read(rest, (Parsed { help: true, ..seen })),
        read(seq!["-V"@] + rest, seen) == read(rest, (Parsed { version: true, ..seen })),
        read(seq!["--version"@] + rest, seen) == read(rest, (Parsed { version: true, ..seen })),
        read(seq!["-u"@] + rest, seen) == read(rest, (Parsed { unmount: true, ..seen })),
        read(seq!["--unmount"@] + rest, seen) == read(rest, (Parsed { unmount: true, ..seen })),
        read(seq!["-q"@] + rest, seen) == read(rest, (Parsed { quiet: true, ..seen })),
        read(seq!["--quiet"@] + rest, seen) == read(rest, (Parsed { quiet: true, ..seen })),
        read(seq!["-z"@] + rest, seen) == read(rest, (Parsed { lazy: true, ..seen })),
        read(seq!["--lazy"@] + rest, seen) == read(rest, (Parsed { lazy: true, ..seen })),
        read(seq!["--auto-unmount"@] + rest, seen) == read(
            rest,
            (Parsed { watchdog: true, ..seen }),
        ),
        read(seq!["--sync-init"@] + rest, seen) == read(
            rest,
            (Parsed { sync_init: true, ..seen }),
        ),
{
    lemma_words();
    lemma_first("-h"@, rest);
    lemma_first("--help"@, rest);
    lemma_first("-V"@, rest);
    lemma_first("--version"@, rest);
    lemma_first("-u"@, rest);
    lemma_first("--unmount"@, rest);
    lemma_first("-q"@, rest);
    lemma_first("--quiet"@, rest);
    lemma_first("-z"@, rest);
    lemma_first("--lazy"@, rest);
    lemma_first("--auto-unmount"@, rest);
    lemma_first("--sync-init"@, rest);
    assert("--"@[1] == '-');
    assert(word("-h"@) == Word::Help && word("--help"@) == Word::Help) by {
        assert("-h"@[1] == 'h');
    }
    assert(word("-V"@) == Word::Version && word("--version"@) == Word::Version) by {
        assert("-V"@[1] == 'V' && "--version"@[2] == 'v');
    }
    assert(word("-u"@) == Word::Unmount && word("--unmount"@) == Word::Unmount) by {
        assert("-u"@[1] == 'u' && "--unmount"@[2] == 'u');
        assert("--version"@[2] == 'v');
    }
    assert(word("-q"@) == Word::Quiet && word("--quiet"@) == Word::Quiet) by {
        assert("-q"@[1] == 'q');
        assert("-u"@[1] == 'u' && "-V"@[1] == 'V' && "-h"@[1] == 'h');
    }
    assert(word("-z"@) == Word::Lazy && word("--lazy"@) == Word::Lazy) by {
        assert("-z"@[1] == 'z' && "--lazy"@[2] == 'l' && "--help"@[2] == 'h');
        assert("-q"@[1] == 'q' && "-u"@[1] == 'u' && "-V"@[1] == 'V' && "-h"@[1] == 'h');
    }
    assert(word("--auto-unmount"@) == Word::Watchdog);
    assert(word("--sync-init"@) == Word::SyncInit);
}

/// Mount options are added behind those already there, all of a list and in
/// its order, in each of their spellings.
pub proof fn law_options_are_added_in_order(list: Seq<char>, seen: Parsed, rest: Seq<Seq<char>>)
    ensures
        ({
            let after = Parsed { options: seen.options + split(list, ','), ..seen };
            &&& read(seq!["-o"@, list] + rest, seen) == read(rest, after)
            &&& read(seq!["--options"@, list] + rest, seen) == read(rest, after)
            &&& read(seq!["--options="@ + list] + rest, seen) == read(rest, after)
            &&& list.len() > 0 ==> read(seq!["-o"@ + list] + rest, seen) == read(rest, after)
        }),
        read(seq!["-o"@], seen) == Err::<Parsed, Seq<char>>("-o requires an argument"@),
        read(seq!["--options"@], seen) == Err::<Parsed, Seq<char>>("-o requires an argument"@),
{
    lemma_words();
    let long = "--options="@ + list;
    let short = "-o"@ + list;
    lemma_first_two("-o"@, list, rest);
    lemma_first_two("--options"@, list, rest);
    lemma_first(long, rest);
    lemma_first(short, rest);
    assert(word("-o"@) == Word::Options) by {
        assert("-o"@[1] == 'o');
        assert("-h"@[1] == 'h' && "-V"@[1] == 'V' && "-u"@[1] == 'u' && "-q"@[1] == 'q' && "-z"@[1]
            == 'z' && "--"@[1] == '-');
    }
    assert(word("--options"@) == Word::Options) by {
        assert("--options"@[2] == 'o' && "--version"@[2] == 'v' && "--unmount"@[2] == 'u');
    }
    assert(long.skip(10) =~= list);
    assert(long.subrange(0, 10) =~= "--options="@);
    assert(long[0] == '-' && long[1] == '-' && long[2] == 'o' && long[3] == 'p' && long[9] == '=');
    assert(word(long) == Word::Attached(list)) by {
        assert("--help"@[2] == 'h' && "--version"@[2] == 'v' && "--unmount"@[2] == 'u'
            && "--quiet"@[2] == 'q' && "--lazy"@[2] == 'l' && "--auto-unmount"@[2] == 'a'
            && "--sync-init"@[2] == 's');
        assert("--options"@.len() == 9 && long.len() >= 10);
    }
    if list.len() > 0 {
        assert(short.skip(2) =~= list);
        assert(short.subrange(0, 2) =~= "-o"@);
        assert(short[1] == 'o');
        assert(!"--options="@.is_prefix_of(short)) by {
            if "--options="@.is_prefix_of(short) {
                assert(short.subrange(0, 10)[1] == "--options="@[1]);
            }
        }
        assert(word(short) == Word::Attached(list)) by {
            assert("--"@[1] == '-' && "--help"@[1] == '-' && "--version"@[1] == '-'
                && "--unmount"@[1] == '-' && "--quiet"@[1] == '-' && "--lazy"@[1] == '-'
                && "--auto-unmount"@[1] == '-' && "--sync-init"@[1] == '-' && "--options"@[1]
                == '-');
            assert(short.len() >= 3);
        }
    }
}

/// What follows `--` is the mountpoint, whatever it looks like; a `--` with
/// nothing behind it says nothing.
pub proof fn law_the_mountpoint_may_follow_two_dashes(
    mountpoint: Seq<char>,
    seen: Parsed,
    rest: Seq<Seq<char>>,
)
    ensures
        read(seq!["--"@, mountpoint] + rest, seen) == read(
            rest,
            (Parsed { mountpoint: Some(mountpoint), ..seen }),
        ),
        read(seq!["--"@], seen) == Ok::<Parsed, Seq<char>>(seen),
{
    lemma_first_two("--"@, mountpoint, rest);
}

/// Whatever does not start with a dash, and a dash alone, is the mountpoint,
/// the last one given counting.
pub proof fn law_a_plain_argument_is_the_mountpoint(
    arg: Seq<char>,
    seen: Parsed,
    rest: Seq<Seq<char>>,
)
    requires
        arg.len() == 0 || arg[0] != '-' || arg.len() == 1,
    ensures
        read(seq![arg] + rest, seen) == read(rest, (Parsed { mountpoint: Some(arg), ..seen })),
{
    lemma_words();
    lemma_first(arg, rest);
    assert(word(arg) == Word::Mountpoint) by {
        if "-"@.is_prefix_of(arg) {
            assert(arg.subrange(0, 1)[0] == "-"@[0]);
        }
        if "--"@.is_prefix_of(arg) {
            assert(arg.subrange(0, 2)[0] == "--"@[0]);
        }
        if "-o"@.is_prefix_of(arg) {
            assert(arg.subrange(0, 2)[0] == "-o"@[0]);
        }
        if "--options="@.is_prefix_of(arg) {
            assert(arg.subrange(0, 10)[0] == "--options="@[0]);
        }
        assert("--"@[0] == '-' && "-h"@[0] == '-' && "--help"@[0] == '-' && "-V"@[0] == '-'
            && "--version"@[0] == '-' && "-u"@[0] == '-' && "--unmount"@[0] == '-' && "-q"@[0] == '-'
            && "--quiet"@[0] == '-' && "-z"@[0] == '-' && "--lazy"@[0] == '-'
            && "--auto-unmount"@[0] == '-' && "--sync-init"@[0] == '-' && "-o"@[0] == '-'
            && "--options"@[0] == '-');
        assert("-h"@.len() == 2 && "-V"@.len() == 2 && "-u"@.len() == 2 && "-q"@.len() == 2
            && "-z"@.len() == 2 && "-o"@.len() == 2 && "--"@.len() == 2);
    }
}

/// An argument with two dashes that is none of the known ones is an error
/// that names it, and nothing behind it is read.
pub proof fn law_unknown_long_options_are_errors(
    arg: Seq<char>,
    seen: Parsed,
    rest: Seq<Seq<char>>,
)
    requires
        arg.len() > 2,
        arg[0] == '-',
        arg[1] == '-',
        arg != "--help"@,
        arg != "--version"@,
        arg != "--unmount"@,
        arg != "--quiet"@,
        arg != "--lazy"@,
        arg != "--auto-unmount"@,
        arg != "--sync-init"@,
        arg != "--options"@,
        !"--options="@.is_prefix_of(arg),
    ensures
        read(seq![arg] + rest, seen) == Err::<Parsed, Seq<char>>(
            "unrecognized option '"@ + arg + "'"@,
        ),
{
    lemma_words();
    lemma_first(arg, rest);
    assert(arg.subrange(0, 2) =~= "--"@);
    assert(word(arg) == Word::UnknownLong) by {
        if "-o"@.is_prefix_of(arg) {
            assert(arg.subrange(0, 2)[1] == "-o"@[1]);
        }
        assert("-h"@.len() == 2 && "-V"@.len() == 2 && "-u"@.len() == 2 && "-q"@.len() == 2
            && "-z"@.len() == 2 && "-o"@.len() == 2 && "--"@.len() == 2);
    }
}

/// Letters behind one dash are flags one by one, in any number and order.
pub proof fn law_letters_are_flags(letters: Seq<char>, seen: Parsed, rest: Seq<Seq<char>>)
    requires
        letters.len() > 0,
        forall|i: int|
            0 <= i < letters.len() ==> #[trigger] letters[i] == 'u' || letters[i] == 'z'
                || letters[i] == 'q' || letters[i] == 'V' || letters[i] == 'h',
    ensures
        read(seq![seq!['-'] + letters] + rest, seen) == read(
            rest,
            (Parsed {
                unmount: seen.unmount || letters.contains('u'),
                lazy: seen.lazy || letters.contains('z'),
                quiet: seen.quiet || letters.contains('q'),
                version: seen.version || letters.contains('V'),
                help: seen.help || letters.contains('h'),
                watchdog: seen.watchdog,
                sync_init: seen.sync_init,
                options: seen.options,
                mountpoint: seen.mountpoint,
            }),
        ),
{
    let arg = seq!['-'] + letters;
    lemma_words();
    lemma_first(arg, rest);
    assert(arg[0] == '-' && arg[1] == letters[0]);
    lemma_one_dash(arg);
    if letters.len() == 1 {
        let c = letters[0];
        assert(letters =~= seq![c]);
        assert(letters.contains(c));
        assert(forall|d: char| letters.contains(d) ==> d == c);
        assert(arg =~= seq!['-', c]);
        law_each_flag_sets_one_thing(seen, rest);
    } else {
        assert(arg.len() > 2);
        assert(arg.skip(1) =~= letters);
        assert("-h"@.len() == 2 && "-V"@.len() == 2 && "-u"@.len() == 2 && "-q"@.len() == 2
            && "-z"@.len() == 2);
        assert(word(arg) == Word::Letters(letters));
        lemma_no_bad_letter(letters);
    }
}

/// The first letter behind a dash that is no flag is an error that names it,
/// whatever comes behind it.
pub proof fn law_unknown_letters_are_errors(
    front: Seq<char>,
    c: char,
    tail: Seq<char>,
    seen: Parsed,
    rest: Seq<Seq<char>>,
)
    requires
        forall|i: int|
            0 <= i < front.len() ==> #[trigger] front[i] == 'u' || front[i] == 'z' || front[i]
                == 'q' || front[i] == 'V' || front[i] == 'h',
        c != 'u' && c != 'z' && c != 'q' && c != 'V' && c != 'h',
        front.len() == 0 ==> c != '-' && c != 'o',
    ensures
        read(seq![seq!['-'] + front + seq![c] + tail] + rest, seen) == Err::<Parsed, Seq<char>>(
            "unsupported option '-"@ + seq![c] + "'"@,
        ),
{
    let letters = front + seq![c] + tail;
    let arg = seq!['-'] + front + seq![c] + tail;
    lemma_words();
    lemma_first(arg, rest);
    assert(arg =~= seq!['-'] + letters);
    assert(arg.skip(1) =~= letters);
    assert(arg[0] == '-' && arg[1] == letters[0]);
    if front.len() > 0 {
        assert(letters[0] == front[0]);
        assert(arg.len() > 2);
    } else {
        assert(letters[0] == c);
    }
    lemma_one_dash(arg);
    assert("-h"@[1] == 'h' && "-V"@[1] == 'V' && "-u"@[1] == 'u' && "-q"@[1] == 'q' && "-z"@[1]
        == 'z');
    assert("-h"@.len() == 2 && "-V"@.len() == 2 && "-u"@.len() == 2 && "-q"@.len() == 2 && "-z"@.len()
        == 2);
    assert(word(arg) == Word::Letters(letters));
    lemma_first_bad_letter(front, c, tail);
}

/// What a word with one dash and no `o` behind it is not.
proof fn lemma_one_dash(arg: Seq<char>)
    requires
        arg.len() >= 2,
        arg[0] == '-',
        arg[1] != '-',
        arg[1] != 'o',
    ensures
        "-"@.is_prefix_of(arg),
        !"--"@.is_prefix_of(arg),
        !"-o"@.is_prefix_of(arg),
        !"--options="@.is_prefix_of(arg),
        arg != "--"@,
        arg != "--help"@,
        arg != "--version"@,
        arg != "--unmount"@,
        arg != "--quiet"@,
        arg != "--lazy"@,
        arg != "--auto-unmount"@,
        arg != "--sync-init"@,
        arg != "-o"@,
        arg != "--options"@,
{
    lemma_words();
    assert(arg.subrange(0, 1) =~= "-"@);
    if "--"@.is_prefix_of(arg) {
        assert(arg.subrange(0, 2)[1] == "--"@[1]);
    }
    if "-o"@.is_prefix_of(arg) {
        assert(arg.subrange(0, 2)[1] == "-o"@[1]);
    }
    if "--options="@.is_prefix_of(arg) {
        assert(arg.subrange(0, 10)[1] == "--options="@[1]);
    }
    assert("--"@[1] == '-' && "--help"@[1] == '-' && "--version"@[1] == '-' && "--unmount"@[1]
        == '-' && "--quiet"@[1] == '-' && "--lazy"@[1] == '-' && "--auto-unmount"@[1] == '-'
        && "--sync-init"@[1] == '-' && "-o"@[1] == 'o' && "--options"@[1] == '-');
}

proof fn lemma_no_bad_letter(letters: Seq<char>)
    requires
        forall|i: int|
            0 <= i < letters.len() ==> #[trigger] letters[i] == 'u' || letters[i] == 'z'
                || letters[i] == 'q' || letters[i] == 'V' || letters[i] == 'h',
    ensures
        bad_letter(letters) is None,
    decreases letters.len(),
{
    if letters.len() > 0 {
        assert(letters[0] == 'u' || letters[0] == 'z' || letters[0] == 'q' || letters[0] == 'V'
            || letters[0] == 'h');
        let rest = letters.drop_first();
        assert forall|i: int| 0 <= i < rest.len() implies #[trigger] rest[i] == 'u' || rest[i]
            == 'z' || rest[i] == 'q' || rest[i] == 'V' || rest[i] == 'h' by {
            assert(rest[i] == letters[i + 1]);
        }
        lemma_no_bad_letter(rest);
    }
}

proof fn lemma_first_bad_letter(front: Seq<char>, c: char, tail: Seq<char>)
    requires
        forall|i: int|
            0 <= i < front.len() ==> #[trigger] front[i] == 'u' || front[i] == 'z' || front[i]
                == 'q' || front[i] == 'V' || front[i] == 'h',
        c != 'u' && c != 'z' && c != 'q' && c != 'V' && c != 'h',
    ensures
        bad_letter(front + seq![c] + tail) == Some(c),
    decreases front.len(),
{
    let letters = front + seq![c] + tail;
    if front.len() == 0 {
        assert(letters[0] == c);
    } else {
        assert(letters[0] == front[0]);
        let rest = front.drop_first();
        assert forall|i: int| 0 <= i < rest.len() implies #[trigger] rest[i] == 'u' || rest[i]
            == 'z' || rest[i] == 'q' || rest[i] == 'V' || rest[i] == 'h' by {
            assert(rest[i] == front[i + 1]);
        }
        assert(letters.drop_first() =~= rest + seq![c] + tail);
        lemma_first_bad_letter(rest, c, tail);
    }
}

/// A command line is what was read of it; `--auto-unmount` turns into the
/// mount option of that name exactly where there are mount options, and
/// nothing else is touched.
pub proof fn law_what_a_command_line_comes_to(args: Seq<Seq<char>>, seen: Parsed, fault: Seq<char>)
    ensures
        read(args, nothing()) == Ok::<Parsed, Seq<char>>(seen) ==> (command_line(args) matches Ok(
            asked,
        ) && {
            let turned = seen.watchdog && seen.options.len() > 0;
            &&& asked.options == (if turned {
                seen.options.push("auto_unmount"@)
            } else {
                seen.options
            })
            &&& asked.watchdog == (seen.watchdog && seen.options.len() == 0)
            &&& asked.unmount == seen.unmount
            &&& asked.lazy == seen.lazy
            &&& asked.quiet == seen.quiet
            &&& asked.version == seen.version
            &&& asked.help == seen.help
            &&& asked.sync_init == seen.sync_init
            &&& asked.mountpoint == seen.mountpoint
        }),
        read(args, nothing()) == Err::<Parsed, Seq<char>>(fault) ==> command_line(args) == Err::<
            Parsed,
            Seq<char>,
        >(fault) && planned(args) == Err::<Planned, Seq<char>>(fault + "\n"@ + USAGE@),
        command_line(args) matches Ok(asked) ==> planned(args) == plan_for(asked),
{
}

/// A command line that cannot be read is answered with what is wrong with it
/// and the usage.
pub proof fn law_what_the_usage_says(args: Seq<Seq<char>>, fault: Seq<char>)
    ensures
        read(args, nothing()) == Err::<Parsed, Seq<char>>(fault) ==> planned(args) == Err::<
            Planned,
            Seq<char>,
        >(
            fault + "\n"@
                + "fusermount3 (fusebridge-shim): [options] mountpoint\nOptions:\n -h, --help             print help\n -V, --version          print version\n -o, --options opt[,opt...]  mount options\n -u, --unmount          unmount\n -q, --quiet            quiet\n -z, --lazy             lazy unmount"@,
        ),
{
}

/// The version comes before help, help before what is declined, and what is
/// declined before a missing mountpoint; only then is anything asked of the
/// daemon, and it is asked for exactly what the command line gave.
pub proof fn law_what_is_asked_of_the_daemon(asked: Parsed)
    ensures
        plan_for(asked) == Ok::<Planned, Seq<char>>(Planned::Version) <==> asked.version,
        plan_for(asked) == Ok::<Planned, Seq<char>>(Planned::Help) <==> !asked.version
            && asked.help,
        ({
            let serves = !asked.version && !asked.help;
            let declines = asked.sync_init || asked.watchdog;
            &&& serves && asked.sync_init ==> plan_for(asked) == Err::<Planned, Seq<char>>(
                "--sync-init asks for the two-phase mount protocol, which this bridge does not implement yet. libfuse falls back to the classic helper protocol, which it does."@,
            )
            &&& serves && !asked.sync_init && asked.watchdog ==> plan_for(asked) == Err::<
                Planned,
                Seq<char>,
            >(
                "--auto-unmount without mount options asks this helper to watch over a mount somebody else made. The bridge removes only the mounts it made itself, so it will not do that. (A mount made through the bridge gets the same behaviour from the 'auto_unmount' mount option.)"@,
            )
            &&& serves && !declines && asked.mountpoint is None ==> plan_for(asked) == Err::<
                Planned,
                Seq<char>,
            >("no mountpoint given"@)
            &&& serves && !declines ==> (asked.mountpoint matches Some(mountpoint) ==> plan_for(
                asked,
            ) == Ok::<Planned, Seq<char>>(
                if asked.unmount {
                    Planned::Unmount { mountpoint, lazy: asked.lazy }
                } else {
                    Planned::Mount { mountpoint, options: asked.options }
                },
            ))
        }),
{
}

/// Silence is asked for by `--quiet` and by a `q` among the letters behind a
/// single dash, anywhere in the command line, and by nothing else.
pub proof fn law_who_asks_for_silence(args: Seq<Seq<char>>, arg: Seq<char>)
    ensures
        !silent(Seq::empty()),
        silent(args.push(arg)) <==> silent(args) || arg == "--quiet"@ || (arg.len() > 1 && arg[0]
            == '-' && arg[1] != '-' && arg.contains('q')),
{
    lemma_words();
    let more = args.push(arg);
    assert(asks_quiet(arg) <==> arg == "--quiet"@ || (arg.len() > 1 && arg[0] == '-' && arg[1]
        != '-' && arg.contains('q'))) by {
        if "-"@.is_prefix_of(arg) {
            assert(arg.subrange(0, 1)[0] == "-"@[0]);
            if arg.len() == 1 {
                assert(arg =~= seq!['-']);
            }
        }
        if arg.len() > 0 && arg[0] == '-' {
            assert(arg.subrange(0, 1) =~= "-"@);
        }
        if "--"@.is_prefix_of(arg) {
            assert(arg.subrange(0, 2)[1] == "--"@[1]);
        }
        if arg.len() > 1 && arg[0] == '-' && arg[1] == '-' {
            assert(arg.subrange(0, 2) =~= "--"@);
        }
    }
    assert(more[args.len() as int] == arg);
    if silent(args) {
        let i = choose|i: int| 0 <= i < args.len() && asks_quiet(#[trigger] args[i]);
        assert(more[i] == args[i]);
    }
    if silent(more) {
        let i = choose|i: int| 0 <= i < more.len() && asks_quiet(#[trigger] more[i]);
        if i < args.len() {
            assert(args[i] == more[i]);
        }
    }
}

/// The descriptor is the number that the variable holds, whichever sign it
/// has, as far as it fits; every other text is an error, and so is a variable
/// that is not set.
pub proof fn law_which_descriptor_is_used(text: Seq<char>, n: i32)
    ensures
        integer(text) == Some(n as int) ==> comm_fd_in(Some(text)) == Ok::<i32, Seq<char>>(n),
        comm_fd_in(Some(text)) is Ok <==> (integer(text) matches Some(m) && -0x8000_0000 <= m
            < 0x8000_0000),
        comm_fd_in(Some(text)) matches Err(e) ==> e == "bad "@ + "_FUSE_COMMFD"@ + " value: "@
            + i32_complaint(text),
        n >= 0 ==> comm_fd_in(Some(decimal(n as nat))) == Ok::<i32, Seq<char>>(n),
        comm_fd_in(None) == Err::<i32, Seq<char>>(
            "_FUSE_COMMFD"@
                + " is not set. This fusermount3 is the fusebridge shim; it only supports being called by a FUSE library, not direct mounting."@,
        ),
{
    if n >= 0 {
        crate::text_laws::law_numbers_read_back(n as nat);
        crate::text_laws::law_what_reads_as_a_number(decimal(n as nat));
    }
}

/// What is said of errors and of the version.
pub proof fn law_what_is_said(
    args: Seq<Seq<char>>,
    text: Seq<char>,
    name: String,
    message: String,
    words: String,
)
    ensures
        call_error_text(CallError::Method { name, message }) == message@ + " ["@ + name@ + "]"@,
        call_error_text(CallError::Other(words)) == words@,
        mount_refused_text(CallError::Method { name, message }) == "mount refused: "@ + (message@
            + " ["@ + name@ + "]"@),
        mount_refused_text(CallError::Other(words)) == "mount refused: "@ + words@,
        unmount_refused_text(CallError::Method { name, message }) == "unmount refused: "@ + (
        message@ + " ["@ + name@ + "]"@),
        unmount_refused_text(CallError::Other(words)) == "unmount refused: "@ + words@,
        complaint_due(args, text) is None <==> silent(args),
        complaint_due(args, text) matches Some(line) ==> line == "fusermount3 (fusebridge-shim): "@
            + text,
        version_text(text) == "fusermount3 version: "@ + text + " (fusebridge-shim, forwards to "@
            + "io.github.stektus.FuseBridge1"@ + ")"@,
        bad_comm_fd_text(text) == "bad "@ + "_FUSE_COMMFD"@ + " value: "@ + text,
{
}

/// What the programs call each other by: one name, as it stands and as a
/// path.
pub proof fn law_one_name_for_all()
    ensures
        INTERFACE@ == BUS_NAME@,
        BUS_NAME@ == "io.github.stektus.FuseBridge1"@,
        split(OBJECT_PATH@, '/') == seq![Seq::empty()] + split(BUS_NAME@, '.'),
        COMMFD_ENV@ == "_FUSE_COMMFD"@,
        VERSION@ == "0.1.0"@,
{
    reveal_strlit("io.github.stektus.FuseBridge1");
    reveal_strlit("/io/github/stektus/FuseBridge1");
    let io = seq!['i', 'o'];
    let github = seq!['g', 'i', 't', 'h', 'u', 'b'];
    let stektus = seq!['s', 't', 'e', 'k', 't', 'u', 's'];
    let bridge = seq!['F', 'u', 's', 'e', 'B', 'r', 'i', 'd', 'g', 'e', '1'];
    let names = seq![io, github, stektus, bridge];
    let parts = seq![Seq::empty()] + names;
    reveal_with_fuel(crate::text::join, 6);
    crate::text::law_split_undoes_join(names, '.');
    crate::text::law_split_undoes_join(parts, '/');
    assert(crate::text::join(names, seq!['.']) =~= BUS_NAME@);
    assert(crate::text::join(parts, seq!['/']) =~= OBJECT_PATH@);
}

/// Command lines and plans are seen as what they hold.
pub proof fn law_plans_show_what_they_hold(
    args: Args,
    mountpoint: String,
    options: Vec<String>,
    lazy: bool,
)
    ensures
        args@.unmount == args.unmount,
        args@.lazy == args.lazy,
        args@.quiet == args.quiet,
        args@.version == args.version,
        args@.help == args.help,
        args@.watchdog == args.watchdog,
        args@.sync_init == args.sync_init,
        args@.options == views(args.options@),
        args@.mountpoint == optional_text(args.mountpoint),
        Plan::Version@ == Planned::Version,
        Plan::Help@ == Planned::Help,
        (Plan::Unmount { mountpoint, lazy })@ == (Planned::Unmount {
            mountpoint: mountpoint@,
            lazy,
        }),
        (Plan::Mount { mountpoint, options })@ == (Planned::Mount {
            mountpoint: mountpoint@,
            options: views(options@),
        }),
{
}

} // verus!
