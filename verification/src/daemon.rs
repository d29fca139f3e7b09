//! The daemon's own command line, and what it says about the bus it is on.
use vstd::prelude::*;

use crate::number::parse_usize;
#[allow(unused_imports)]
use crate::number::natural;
use crate::registry::DEFAULT_MAX_MOUNTS;
use crate::text::{concat3, same_text};
#[allow(unused_imports)]
use crate::text::{optional_text, views};

verus! {

/// What the daemon prints when it is asked for help or does not understand.
pub const USAGE: &'static str = "usage: fusebridged [--allow-root <dir>]... [--allow-unsandboxed]\n                   [--no-default-root] [--max-mounts <n>] [--require-pidfd]\n\nMountpoints are allowed only strictly inside the allowed roots\n(default: ~/CloudDrives, created if missing).";

/// How reading the command line ended.
#[derive(Debug)]
pub enum Ending {
    /// It was read to its end: serve.
    Serve,
    Help,
    /// `--allow-root` without a directory.
    MissingDirectory,
    /// `--max-mounts` without a positive number.
    BadLimit,
    Unknown(String),
}

/// What a command line asks for. Roots that were named count even where the
/// reading ended badly behind them: they are resolved in order, before
/// anything else happens.
#[derive(Debug)]
pub struct DaemonArgs {
    pub roots: Vec<String>,
    pub allow_unsandboxed: bool,
    pub default_root: bool,
    pub require_pidfd: bool,
    pub max_mounts: usize,
    pub ending: Ending,
}

/// How reading ended, as plain text.
pub ghost enum End {
    Serve,
    Help,
    MissingDirectory,
    BadLimit,
    Unknown(Seq<char>),
}

/// What a command line asks for, as plain values.
pub ghost struct Asked {
    pub roots: Seq<Seq<char>>,
    pub allow_unsandboxed: bool,
    pub default_root: bool,
    pub require_pidfd: bool,
    pub max_mounts: nat,
    pub ending: End,
}

impl View for Ending {
    type V = End;

    open spec fn view(&self) -> End {
        match self {
            Ending::Serve => End::Serve,
            Ending::Help => End::Help,
            Ending::MissingDirectory => End::MissingDirectory,
            Ending::BadLimit => End::BadLimit,
            Ending::Unknown(arg) => End::Unknown(arg@),
        }
    }
}

impl View for DaemonArgs {
    type V = Asked;

    open spec fn view(&self) -> Asked {
        Asked {
            roots: views(self.roots@),
            allow_unsandboxed: self.allow_unsandboxed,
            default_root: self.default_root,
            require_pidfd: self.require_pidfd,
            max_mounts: self.max_mounts as nat,
            ending: self.ending@,
        }
    }
}

/// What an empty command line asks for.
pub open spec fn defaults() -> Asked {
    Asked {
        roots: Seq::empty(),
        allow_unsandboxed: false,
        default_root: true,
        require_pidfd: false,
        max_mounts: DEFAULT_MAX_MOUNTS as nat,
        ending: End::Serve,
    }
}

/// The limit that a text gives: a positive number.
pub open spec fn limit_in(text: Seq<char>) -> Option<nat> {
    match natural(text) {
        Some(n) => if 0 < n <= usize::MAX {
            Some(n)
        } else {
            None
        },
        None => None,
    }
}

/// What arguments ask for on top of what was seen before them.
pub open spec fn read_args(args: Seq<Seq<char>>, seen: Asked) -> Asked
    decreases args.len(),
{
    if args.len() == 0 {
        seen
    } else if args[0] == "--allow-root"@ {
        if args.len() > 1 {
            read_args(args.skip(2), Asked { roots: seen.roots.push(args[1]), ..seen })
        } else {
            Asked { ending: End::MissingDirectory, ..seen }
        }
    } else if args[0] == "--max-mounts"@ {
        if args.len() > 1 && limit_in(args[1]) is Some {
            read_args(args.skip(2), Asked { max_mounts: limit_in(args[1])->0, ..seen })
        } else {
            Asked { ending: End::BadLimit, ..seen }
        }
    } else if args[0] == "--allow-unsandboxed"@ {
        read_args(args.skip(1), Asked { allow_unsandboxed: true, ..seen })
    } else if args[0] == "--no-default-root"@ {
        read_args(args.skip(1), Asked { default_root: false, ..seen })
    } else if args[0] == "--require-pidfd"@ {
        read_args(args.skip(1), Asked { require_pidfd: true, ..seen })
    } else if args[0] == "-h"@ || args[0] == "--help"@ {
        Asked { ending: End::Help, ..seen }
    } else {
        Asked { ending: End::Unknown(args[0]), ..seen }
    }
}

fn limit_of(text: &str) -> (limit: Option<usize>)
    ensures
        match limit {
            Some(n) => limit_in(text@) == Some(n as nat),
            None => limit_in(text@) is None,
        },
{
    match parse_usize(text) {
        Some(n) => if n > 0 {
            Some(n)
        } else {
            None
        },
        None => None,
    }
}

/// Reads the daemon's command line.
pub fn parse_daemon_args(args: &[String]) -> (parsed: DaemonArgs)
    ensures
        parsed@ == read_args(views(args@), defaults()),
{
    let ghost texts = views(args@);
    let mut seen = DaemonArgs {
        roots: Vec::new(),
        allow_unsandboxed: false,
        default_root: true,
        require_pidfd: false,
        max_mounts: DEFAULT_MAX_MOUNTS,
        ending: Ending::Serve,
    };
    let mut i: usize = 0;
    proof {
        assert(texts.skip(0) == texts);
        assert(views(seen.roots@) == Seq::<Seq<char>>::empty());
    }
    while i < args.len()
        invariant
            i <= args.len(),
            texts == views(args@),
            read_args(texts, defaults()) == read_args(texts.skip(i as int), seen@),
        decreases args.len() - i,
    {
        let arg = args[i].as_str();
        let ghost rest = texts.skip(i as int);
        proof {
            assert(texts[i as int] == args@[i as int]@);
            assert(rest[0] == arg@);
            assert(rest.skip(1) == texts.skip(i as int + 1));
            if i + 1 < args.len() {
                assert(texts[i as int + 1] == args@[i as int + 1]@);
                assert(rest[1] == texts[i as int + 1]);
                assert(rest.skip(2) == texts.skip(i as int + 2));
            }
        }
        if same_text(arg, "--allow-root") {
            if args.len() - i <= 1 {
                seen.ending = Ending::MissingDirectory;
                return seen;
            }
            let root = args[i + 1].clone();
            proof {
                crate::text::lemma_views_push(seen.roots@, root);
            }
            seen.roots.push(root);
            i += 1;
        } else if same_text(arg, "--max-mounts") {
            if args.len() - i <= 1 {
                seen.ending = Ending::BadLimit;
                return seen;
            }
            match limit_of(args[i + 1].as_str()) {
                Some(n) => {
                    seen.max_mounts = n;
                },
                None => {
                    seen.ending = Ending::BadLimit;
                    return seen;
                },
            }
            i += 1;
        } else if same_text(arg, "--allow-unsandboxed") {
            seen.allow_unsandboxed = true;
        } else if same_text(arg, "--no-default-root") {
            seen.default_root = false;
        } else if same_text(arg, "--require-pidfd") {
            seen.require_pidfd = true;
        } else if same_text(arg, "-h") || same_text(arg, "--help") {
            seen.ending = Ending::Help;
            return seen;
        } else {
            seen.ending = Ending::Unknown(args[i].clone());
            return seen;
        }
        i += 1;
    }
    assert(texts.skip(i as int) == Seq::<Seq<char>>::empty());
    seen
}

/// The words that an ending is worth.
pub open spec fn complaint_about(ending: End) -> Option<Seq<char>> {
    match ending {
        End::BadLimit => Some("--max-mounts needs a positive number"@),
        End::Unknown(arg) => Some("unknown argument '"@ + arg + "'"@),
        _ => None,
    }
}

/// What is said of a command line that cannot be served, beyond the usage.
pub fn ending_complaint(ending: &Ending) -> (complaint: Option<String>)
    ensures
        optional_text(complaint) == complaint_about(ending@),
{
    match ending {
        Ending::BadLimit => Some("--max-mounts needs a positive number".to_owned()),
        Ending::Unknown(arg) => Some(concat3("unknown argument '", arg.as_str(), "'")),
        _ => None,
    }
}

/// The words that a bus is worth.
pub open spec fn warning_due(supplies_pidfd: Option<bool>, require_pidfd: bool) -> Option<
    Seq<char>,
> {
    if supplies_pidfd == Some(false) {
        if require_pidfd {
            Some(
                "this bus does not supply caller pidfds (needs dbus >= 1.16) and --require-pidfd is set: every request will be refused"@,
            )
        } else {
            Some(
                "this bus does not supply caller pidfds (needs dbus >= 1.16): callers are identified by pid, which a caller that hands off its connection and exits can make stale"@,
            )
        }
    } else {
        None
    }
}

/// What is to be said at startup about a bus: `supplies_pidfd` tells whether
/// it came with a descriptor when asked about the daemon's own connection,
/// where that could be asked.
pub fn bus_warning(supplies_pidfd: Option<bool>, require_pidfd: bool) -> (warning: Option<String>)
    ensures
        optional_text(warning) == warning_due(supplies_pidfd, require_pidfd),
{
    match supplies_pidfd {
        Some(supplies) => if supplies {
            None
        } else if require_pidfd {
            Some(
                "this bus does not supply caller pidfds (needs dbus >= 1.16) and --require-pidfd is set: every request will be refused".to_owned(),
            )
        } else {
            Some(
                "this bus does not supply caller pidfds (needs dbus >= 1.16): callers are identified by pid, which a caller that hands off its connection and exits can make stale".to_owned(),
            )
        },
        None => None,
    }
}

/// The limit on live mounts is always positive, whatever the command line.
pub proof fn law_the_limit_is_positive(args: Seq<Seq<char>>, seen: Asked)
    requires
        seen.max_mounts > 0,
    ensures
        read_args(args, seen).max_mounts > 0,
    decreases args.len(),
{
    if args.len() > 0 {
        if args[0] == "--allow-root"@ {
            if args.len() > 1 {
                law_the_limit_is_positive(
                    args.skip(2),
                    Asked { roots: seen.roots.push(args[1]), ..seen },
                );
            }
        } else if args[0] == "--max-mounts"@ {
            if args.len() > 1 && limit_in(args[1]) is Some {
                law_the_limit_is_positive(
                    args.skip(2),
                    Asked { max_mounts: limit_in(args[1])->0, ..seen },
                );
            }
        } else if args[0] == "--allow-unsandboxed"@ {
            law_the_limit_is_positive(args.skip(1), Asked { allow_unsandboxed: true, ..seen });
        } else if args[0] == "--no-default-root"@ {
            law_the_limit_is_positive(args.skip(1), Asked { default_root: false, ..seen });
        } else if args[0] == "--require-pidfd"@ {
            law_the_limit_is_positive(args.skip(1), Asked { require_pidfd: true, ..seen });
        }
    }
}

} // verus!
