//! The program that stands in for `fusermount3` inside the sandbox: reading
//! its command line the way `fusermount3` does, and deciding what to ask of
//! the daemon.
//!
//! The long options are read too. They are what libfuse uses to unmount, and
//! an option that is not recognised is an error rather than a mountpoint, so
//! that a request to unmount can never turn into one to mount.
use vstd::prelude::*;

use crate::number::parse_i32;
#[allow(unused_imports)]
use crate::number::{i32_complaint, integer};
use crate::proto::{BUS_NAME, COMMFD_ENV};
use crate::text::{concat2, concat3, contains_char, same_text, skip_chars, split_text, starts_with};
#[allow(unused_imports)]
use crate::text::{optional_text, split, views};

verus! {

/// What a command line asks for.
#[derive(Debug, PartialEq)]
pub struct Args {
    pub unmount: bool,
    pub lazy: bool,
    pub quiet: bool,
    pub version: bool,
    pub help: bool,
    /// `--auto-unmount` with no mount options: the caller has mounted by
    /// itself and wants the helper to stay around as a watchdog.
    pub watchdog: bool,
    /// `--sync-init`: the two-phase mount, in which the helper hands over
    /// `/dev/fuse` first and attaches the mount once told to.
    pub sync_init: bool,
    pub options: Vec<String>,
    pub mountpoint: Option<String>,
}

/// The same, as plain values.
pub ghost struct Parsed {
    pub unmount: bool,
    pub lazy: bool,
    pub quiet: bool,
    pub version: bool,
    pub help: bool,
    pub watchdog: bool,
    pub sync_init: bool,
    pub options: Seq<Seq<char>>,
    pub mountpoint: Option<Seq<char>>,
}

impl View for Args {
    type V = Parsed;

    open spec fn view(&self) -> Parsed {
        Parsed {
            unmount: self.unmount,
            lazy: self.lazy,
            quiet: self.quiet,
            version: self.version,
            help: self.help,
            watchdog: self.watchdog,
            sync_init: self.sync_init,
            options: views(self.options@),
            mountpoint: optional_text(self.mountpoint),
        }
    }
}

/// A command line that asks for nothing.
pub open spec fn nothing() -> Parsed {
    Parsed {
        unmount: false,
        lazy: false,
        quiet: false,
        version: false,
        help: false,
        watchdog: false,
        sync_init: false,
        options: Seq::empty(),
        mountpoint: None,
    }
}

/// What one argument is.
pub ghost enum Word {
    /// `--`: the next argument is the mountpoint, whatever it looks like.
    End,
    Help,
    Version,
    Unmount,
    Quiet,
    Lazy,
    Watchdog,
    SyncInit,
    /// The next argument lists mount options.
    Options,
    /// Mount options written into the argument itself.
    Attached(Seq<char>),
    UnknownLong,
    /// A dash and letters, each a flag.
    Letters(Seq<char>),
    Mountpoint,
}

pub open spec fn word(arg: Seq<char>) -> Word {
    if arg == "--"@ {
        Word::End
    } else if arg == "-h"@ || arg == "--help"@ {
        Word::Help
    } else if arg == "-V"@ || arg == "--version"@ {
        Word::Version
    } else if arg == "-u"@ || arg == "--unmount"@ {
        Word::Unmount
    } else if arg == "-q"@ || arg == "--quiet"@ {
        Word::Quiet
    } else if arg == "-z"@ || arg == "--lazy"@ {
        Word::Lazy
    } else if arg == "--auto-unmount"@ {
        Word::Watchdog
    } else if arg == "--sync-init"@ {
        Word::SyncInit
    } else if arg == "-o"@ || arg == "--options"@ {
        Word::Options
    } else if "--options="@.is_prefix_of(arg) {
        Word::Attached(arg.skip("--options="@.len() as int))
    } else if "-o"@.is_prefix_of(arg) {
        Word::Attached(arg.skip(2))
    } else if "--"@.is_prefix_of(arg) {
        Word::UnknownLong
    } else if "-"@.is_prefix_of(arg) && arg.len() > 1 {
        Word::Letters(arg.skip(1))
    } else {
        Word::Mountpoint
    }
}

/// The letters that are flags.
pub open spec fn is_flag_letter(c: char) -> bool {
    c == 'u' || c == 'z' || c == 'q' || c == 'V' || c == 'h'
}

/// The first letter that is no flag.
pub open spec fn bad_letter(letters: Seq<char>) -> Option<char>
    decreases letters.len(),
{
    if letters.len() == 0 {
        None
    } else if is_flag_letter(letters[0]) {
        bad_letter(letters.drop_first())
    } else {
        Some(letters[0])
    }
}

/// `seen` with the flags that letters stand for.
pub open spec fn with_letters(seen: Parsed, letters: Seq<char>) -> Parsed {
    Parsed {
        unmount: seen.unmount || letters.contains('u'),
        lazy: seen.lazy || letters.contains('z'),
        quiet: seen.quiet || letters.contains('q'),
        version: seen.version || letters.contains('V'),
        help: seen.help || letters.contains('h'),
        ..seen
    }
}

/// `seen` with the options of a comma-separated list behind its own.
pub open spec fn with_options(seen: Parsed, list: Seq<char>) -> Parsed {
    Parsed { options: seen.options + split(list, ','), ..seen }
}

/// What arguments ask for on top of what was seen before them, or what is
/// wrong with them.
pub open spec fn read(args: Seq<Seq<char>>, seen: Parsed) -> Result<Parsed, Seq<char>>
    decreases args.len(),
{
    if args.len() == 0 {
        Ok(seen)
    } else {
        let rest = args.skip(1);
        match word(args[0]) {
            Word::End => if args.len() > 1 {
                read(args.skip(2), Parsed { mountpoint: Some(args[1]), ..seen })
            } else {
                Ok(seen)
            },
            Word::Help => read(rest, Parsed { help: true, ..seen }),
            Word::Version => read(rest, Parsed { version: true, ..seen }),
            Word::Unmount => read(rest, Parsed { unmount: true, ..seen }),
            Word::Quiet => read(rest, Parsed { quiet: true, ..seen }),
            Word::Lazy => read(rest, Parsed { lazy: true, ..seen }),
            Word::Watchdog => read(rest, Parsed { watchdog: true, ..seen }),
            Word::SyncInit => read(rest, Parsed { sync_init: true, ..seen }),
            Word::Options => if args.len() > 1 {
                read(args.skip(2), with_options(seen, args[1]))
            } else {
                Err("-o requires an argument"@)
            },
            Word::Attached(list) => read(rest, with_options(seen, list)),
            Word::UnknownLong => Err("unrecognized option '"@ + args[0] + "'"@),
            Word::Letters(letters) => match bad_letter(letters) {
                Some(c) => Err("unsupported option '-"@ + seq![c] + "'"@),
                None => read(rest, with_letters(seen, letters)),
            },
            Word::Mountpoint => read(rest, Parsed { mountpoint: Some(args[0]), ..seen }),
        }
    }
}

/// `--auto-unmount` together with mount options is an ordinary mount that
/// also wants cleanup: the flag spelling of the `auto_unmount` option. Only
/// the bare form is the watchdog arrangement.
pub open spec fn settled(seen: Parsed) -> Parsed {
    if seen.watchdog && seen.options.len() > 0 {
        Parsed { watchdog: false, options: seen.options.push("auto_unmount"@), ..seen }
    } else {
        seen
    }
}

/// What a whole command line asks for, or what is wrong with it.
pub open spec fn command_line(args: Seq<Seq<char>>) -> Result<Parsed, Seq<char>> {
    match read(args, nothing()) {
        Ok(seen) => Ok(settled(seen)),
        Err(fault) => Err(fault),
    }
}

/// Finds the first letter that is no flag.
fn bad_letter_of(letters: &str) -> (bad: Option<String>)
    ensures
        match bad {
            Some(c) => bad_letter(letters@) is Some && c@ == seq![bad_letter(letters@)->0],
            None => bad_letter(letters@) is None,
        },
{
    let size: usize = letters.unicode_len();
    let mut i: usize = 0;
    assert(letters@.skip(0) == letters@);
    while i < size
        invariant
            i <= size,
            size == letters@.len(),
            bad_letter(letters@) == bad_letter(letters@.skip(i as int)),
        decreases size - i,
    {
        let c = letters.get_char(i);
        if !(c == 'u' || c == 'z' || c == 'q' || c == 'V' || c == 'h') {
            let text = letters.substring_char(i, i + 1).to_owned();
            assert(text@ == seq![c]);
            return Some(text);
        }
        assert(letters@.skip(i as int).drop_first() == letters@.skip(i as int + 1));
        i += 1;
    }
    None
}

/// Adds the options of a comma-separated list.
fn push_options(options: &mut Vec<String>, list: &str)
    ensures
        views(final(options)@) == views(old(options)@) + split(list@, ','),
{
    let mut more = split_text(list, ',');
    let ghost before = options@;
    let ghost added = more@;
    options.append(&mut more);
    assert(views(options@) == views(before) + views(added));
}

/// Reads a command line the way `fusermount3` does.
pub fn parse_args(args: &[String]) -> (parsed: Result<Args, String>)
    ensures
        match (parsed, command_line(views(args@))) {
            (Ok(found), Ok(asked)) => found@ == asked,
            (Err(message), Err(fault)) => message@ == fault,
            _ => false,
        },
{
    let ghost texts = views(args@);
    proof {
        reveal_strlit("--options=");
        reveal_strlit("-o");
        reveal_strlit("-");
        reveal_strlit("--");
    }
    let mut seen = Args {
        unmount: false,
        lazy: false,
        quiet: false,
        version: false,
        help: false,
        watchdog: false,
        sync_init: false,
        options: Vec::new(),
        mountpoint: None,
    };
    let mut i: usize = 0;
    assert(texts.skip(0) == texts);
    assert(seen@.options == Seq::<Seq<char>>::empty());
    while i < args.len()
        invariant
            i <= args.len(),
            texts == views(args@),
            read(texts, nothing()) == read(texts.skip(i as int), seen@),
            "--options="@.len() == 10,
            "-o"@.len() == 2,
            "-"@.len() == 1,
        decreases args.len() - i,
    {
        let arg = args[i].as_str();
        let ghost rest = texts.skip(i as int);
        proof {
            assert(texts[i as int] == args@[i as int]@);
            assert(rest[0] == arg@);
            assert(rest.skip(1) == texts.skip(i as int + 1));
        }
        if same_text(arg, "--") {
            if args.len() - i > 1 {
                proof {
                    assert(texts[i as int + 1] == args@[i as int + 1]@);
                    assert(rest.skip(2) == texts.skip(i as int + 2));
                }
                seen.mountpoint = Some(args[i + 1].clone());
                i += 1;
            }
        } else if same_text(arg, "-h") || same_text(arg, "--help") {
            seen.help = true;
        } else if same_text(arg, "-V") || same_text(arg, "--version") {
            seen.version = true;
        } else if same_text(arg, "-u") || same_text(arg, "--unmount") {
            seen.unmount = true;
        } else if same_text(arg, "-q") || same_text(arg, "--quiet") {
            seen.quiet = true;
        } else if same_text(arg, "-z") || same_text(arg, "--lazy") {
            seen.lazy = true;
        } else if same_text(arg, "--auto-unmount") {
            seen.watchdog = true;
        } else if same_text(arg, "--sync-init") {
            seen.sync_init = true;
        } else if same_text(arg, "-o") || same_text(arg, "--options") {
            if args.len() - i <= 1 {
                return Err("-o requires an argument".to_owned());
            }
            proof {
                assert(texts[i as int + 1] == args@[i as int + 1]@);
                assert(rest.skip(2) == texts.skip(i as int + 2));
            }
            push_options(&mut seen.options, args[i + 1].as_str());
            i += 1;
        } else if starts_with(arg, "--options=") {
            let list = skip_chars(arg, 10);
            push_options(&mut seen.options, list.as_str());
        } else if starts_with(arg, "-o") {
            let list = skip_chars(arg, 2);
            push_options(&mut seen.options, list.as_str());
        } else if starts_with(arg, "--") {
            return Err(concat3("unrecognized option '", arg, "'"));
        } else if starts_with(arg, "-") && arg.unicode_len() > 1 {
            let letters = skip_chars(arg, 1);
            if let Some(c) = bad_letter_of(letters.as_str()) {
                return Err(concat3("unsupported option '-", c.as_str(), "'"));
            }
            seen.unmount = seen.unmount || contains_char(letters.as_str(), 'u');
            seen.lazy = seen.lazy || contains_char(letters.as_str(), 'z');
            seen.quiet = seen.quiet || contains_char(letters.as_str(), 'q');
            seen.version = seen.version || contains_char(letters.as_str(), 'V');
            seen.help = seen.help || contains_char(letters.as_str(), 'h');
        } else {
            seen.mountpoint = Some(args[i].clone());
        }
        i += 1;
    }
    assert(texts.skip(i as int) == Seq::<Seq<char>>::empty());
    if seen.watchdog && seen.options.len() > 0 {
        seen.watchdog = false;
        let option = "auto_unmount".to_owned();
        proof {
            crate::text::lemma_views_push(seen.options@, option);
        }
        seen.options.push(option);
    }
    Ok(seen)
}

/// Whether one argument asks for silence.
pub open spec fn asks_quiet(arg: Seq<char>) -> bool {
    ||| arg == "--quiet"@
    ||| "-"@.is_prefix_of(arg) && !"--"@.is_prefix_of(arg) && arg.contains('q')
}

/// Whether any argument asks for silence.
pub open spec fn silent(args: Seq<Seq<char>>) -> bool {
    exists|i: int| 0 <= i < args.len() && asks_quiet(#[trigger] args[i])
}

/// Whether errors should be swallowed, decided without parsing: the parse
/// may itself be what failed.
pub fn wants_quiet(args: &[String]) -> (quiet: bool)
    ensures
        quiet == silent(views(args@)),
{
    let ghost texts = views(args@);
    let mut i: usize = 0;
    while i < args.len()
        invariant
            i <= args.len(),
            texts == views(args@),
            forall|k: int| 0 <= k < i ==> !asks_quiet(#[trigger] texts[k]),
        decreases args.len() - i,
    {
        assert(texts[i as int] == args@[i as int]@);
        let arg = args[i].as_str();
        if same_text(arg, "--quiet") || (starts_with(arg, "-") && !starts_with(arg, "--")
            && contains_char(arg, 'q')) {
            return true;
        }
        i += 1;
    }
    false
}

/// What the shim prints when it is asked for help.
pub const USAGE: &'static str = "fusermount3 (fusebridge-shim): [options] mountpoint\nOptions:\n -h, --help             print help\n -V, --version          print version\n -o, --options opt[,opt...]  mount options\n -u, --unmount          unmount\n -q, --quiet            quiet\n -z, --lazy             lazy unmount";

/// What the shim is to do.
#[derive(Debug, PartialEq)]
pub enum Plan {
    /// Print the version.
    Version,
    /// Print the usage.
    Help,
    /// Ask the daemon to unmount.
    Unmount { mountpoint: String, lazy: bool },
    /// Ask the daemon to mount.
    Mount { mountpoint: String, options: Vec<String> },
}

/// The same, as plain values.
pub ghost enum Planned {
    Version,
    Help,
    Unmount { mountpoint: Seq<char>, lazy: bool },
    Mount { mountpoint: Seq<char>, options: Seq<Seq<char>> },
}

impl View for Plan {
    type V = Planned;

    open spec fn view(&self) -> Planned {
        match self {
            Plan::Version => Planned::Version,
            Plan::Help => Planned::Help,
            Plan::Unmount { mountpoint, lazy } => Planned::Unmount {
                mountpoint: mountpoint@,
                lazy: *lazy,
            },
            Plan::Mount { mountpoint, options } => Planned::Mount {
                mountpoint: mountpoint@,
                options: views(options@),
            },
        }
    }
}

/// Why the two-phase mount is declined. The library that asks for it falls
/// back on the classic protocol.
pub open spec fn sync_init_declined() -> Seq<char> {
    "--sync-init asks for the two-phase mount protocol, which this bridge does not implement yet. libfuse falls back to the classic helper protocol, which it does."@
}

/// Why watching over somebody else's mount is declined.
pub open spec fn watchdog_declined() -> Seq<char> {
    "--auto-unmount without mount options asks this helper to watch over a mount somebody else made. The bridge removes only the mounts it made itself, so it will not do that. (A mount made through the bridge gets the same behaviour from the 'auto_unmount' mount option.)"@
}

/// What a command line comes to.
pub open spec fn plan_for(asked: Parsed) -> Result<Planned, Seq<char>> {
    if asked.version {
        Ok(Planned::Version)
    } else if asked.help {
        Ok(Planned::Help)
    } else if asked.sync_init {
        Err(sync_init_declined())
    } else if asked.watchdog {
        Err(watchdog_declined())
    } else {
        match asked.mountpoint {
            None => Err("no mountpoint given"@),
            Some(mountpoint) => if asked.unmount {
                Ok(Planned::Unmount { mountpoint, lazy: asked.lazy })
            } else {
                Ok(Planned::Mount { mountpoint, options: asked.options })
            },
        }
    }
}

/// Decides what to do about a command line that could be read.
pub fn plan(args: Args) -> (plan: Result<Plan, String>)
    ensures
        match (plan, plan_for(args@)) {
            (Ok(made), Ok(due)) => made@ == due,
            (Err(message), Err(due)) => message@ == due,
            _ => false,
        },
{
    if args.version {
        return Ok(Plan::Version);
    }
    if args.help {
        return Ok(Plan::Help);
    }
    if args.sync_init {
        return Err(
            "--sync-init asks for the two-phase mount protocol, which this bridge does not implement yet. libfuse falls back to the classic helper protocol, which it does.".to_owned(),
        );
    }
    if args.watchdog {
        return Err(
            "--auto-unmount without mount options asks this helper to watch over a mount somebody else made. The bridge removes only the mounts it made itself, so it will not do that. (A mount made through the bridge gets the same behaviour from the 'auto_unmount' mount option.)".to_owned(),
        );
    }
    match args.mountpoint {
        None => Err("no mountpoint given".to_owned()),
        Some(mountpoint) => if args.unmount {
            Ok(Plan::Unmount { mountpoint, lazy: args.lazy })
        } else {
            Ok(Plan::Mount { mountpoint, options: args.options })
        },
    }
}

/// What a whole command line comes to; one that cannot be read is answered
/// with the usage.
pub open spec fn planned(args: Seq<Seq<char>>) -> Result<Planned, Seq<char>> {
    match command_line(args) {
        Ok(asked) => plan_for(asked),
        Err(fault) => Err(fault + "\n"@ + USAGE@),
    }
}

/// Decides what to do about a command line.
pub fn run(args: &[String]) -> (outcome: Result<Plan, String>)
    ensures
        match (outcome, planned(views(args@))) {
            (Ok(made), Ok(due)) => made@ == due,
            (Err(message), Err(due)) => message@ == due,
            _ => false,
        },
{
    match parse_args(args) {
        Ok(parsed) => plan(parsed),
        Err(fault) => Err(concat3(fault.as_str(), "\n", USAGE)),
    }
}

/// The line that gives the version.
pub open spec fn version_text(version: Seq<char>) -> Seq<char> {
    "fusermount3 version: "@ + version + " (fusebridge-shim, forwards to "@ + BUS_NAME@ + ")"@
}

/// What is printed of the version.
pub fn version_line(version: &str) -> (line: String)
    ensures
        line@ == version_text(version@),
{
    let start = concat3("fusermount3 version: ", version, " (fusebridge-shim, forwards to ");
    concat3(start.as_str(), BUS_NAME, ")")
}

/// The descriptor that the environment names, or what is wrong with it.
pub open spec fn comm_fd_in(value: Option<Seq<char>>) -> Result<i32, Seq<char>> {
    match value {
        None => Err(
            COMMFD_ENV@
                + " is not set. This fusermount3 is the fusebridge shim; it only supports being called by a FUSE library, not direct mounting."@,
        ),
        Some(text) => match integer(text) {
            Some(n) => if i32::MIN <= n <= i32::MAX {
                Ok(n as i32)
            } else {
                Err("bad "@ + COMMFD_ENV@ + " value: "@ + i32_complaint(text))
            },
            None => Err("bad "@ + COMMFD_ENV@ + " value: "@ + i32_complaint(text)),
        },
    }
}

/// Reads the descriptor of the socket that the FUSE library left open, out
/// of the environment variable that names it.
pub fn comm_fd(value: &Option<String>) -> (fd: Result<i32, String>)
    ensures
        match (fd, comm_fd_in(optional_text(*value))) {
            (Ok(number), Ok(due)) => number == due,
            (Err(message), Err(due)) => message@ == due,
            _ => false,
        },
{
    match value {
        None => Err(
            concat2(
                COMMFD_ENV,
                " is not set. This fusermount3 is the fusebridge shim; it only supports being called by a FUSE library, not direct mounting.",
            ),
        ),
        Some(text) => match parse_i32(text.as_str()) {
            Ok(number) => Ok(number),
            Err(complaint) => Err(bad_comm_fd(complaint.as_str())),
        },
    }
}

/// The words for a value that is no number.
pub open spec fn bad_comm_fd_text(complaint: Seq<char>) -> Seq<char> {
    "bad "@ + COMMFD_ENV@ + " value: "@ + complaint
}

/// What is said of a value that is no number.
pub fn bad_comm_fd(complaint: &str) -> (message: String)
    ensures
        message@ == bad_comm_fd_text(complaint@),
{
    let start = concat3("bad ", COMMFD_ENV, " value: ");
    concat2(start.as_str(), complaint)
}

/// How a call to the daemon failed.
#[derive(Debug)]
pub enum CallError {
    /// The daemon answered with an error of this name.
    Method { name: String, message: String },
    /// Anything else, in the words of the bus.
    Other(String),
}

/// The words for a failed call.
pub open spec fn call_error_text(e: CallError) -> Seq<char> {
    match e {
        CallError::Method { name, message } => message@ + " ["@ + name@ + "]"@,
        CallError::Other(text) => text@,
    }
}

/// Puts a failed call into words.
pub fn call_error_message(e: &CallError) -> (text: String)
    ensures
        text@ == call_error_text(*e),
{
    match e {
        CallError::Method { name, message } => {
            let start = concat3(message.as_str(), " [", name.as_str());
            concat2(start.as_str(), "]")
        },
        CallError::Other(text) => text.clone(),
    }
}

/// The words for a mount that was not made.
pub open spec fn mount_refused_text(e: CallError) -> Seq<char> {
    "mount refused: "@ + call_error_text(e)
}

/// The words for a mount that was not taken down.
pub open spec fn unmount_refused_text(e: CallError) -> Seq<char> {
    "unmount refused: "@ + call_error_text(e)
}

/// What is said when the daemon did not mount.
pub fn mount_refused(e: &CallError) -> (text: String)
    ensures
        text@ == mount_refused_text(*e),
{
    let words = call_error_message(e);
    concat2("mount refused: ", words.as_str())
}

/// What is said when the daemon did not unmount.
pub fn unmount_refused(e: &CallError) -> (text: String)
    ensures
        text@ == unmount_refused_text(*e),
{
    let words = call_error_message(e);
    concat2("unmount refused: ", words.as_str())
}

/// The line that an error is worth.
pub open spec fn complaint_due(args: Seq<Seq<char>>, message: Seq<char>) -> Option<Seq<char>> {
    if silent(args) {
        None
    } else {
        Some("fusermount3 (fusebridge-shim): "@ + message)
    }
}

/// What is printed of an error: nothing where silence was asked for.
pub fn complaint(args: &[String], message: &str) -> (line: Option<String>)
    ensures
        optional_text(line) == complaint_due(views(args@), message@),
{
    if wants_quiet(args) {
        None
    } else {
        Some(concat2("fusermount3 (fusebridge-shim): ", message))
    }
}

/// A request to unmount reads the same in its three spellings, for every
/// mountpoint, one that looks like an option included.
pub proof fn law_unmount_spellings_agree(mountpoint: Seq<char>)
    ensures
        planned(seq!["-u"@, "-q"@, "-z"@, "--"@, mountpoint]) == Ok::<Planned, Seq<char>>(
            Planned::Unmount { mountpoint, lazy: true },
        ),
        planned(seq!["--unmount"@, "--quiet"@, "--lazy"@, "--"@, mountpoint]) == planned(
            seq!["-u"@, "-q"@, "-z"@, "--"@, mountpoint],
        ),
        planned(seq!["-uqz"@, "--"@, mountpoint]) == planned(
            seq!["-u"@, "-q"@, "-z"@, "--"@, mountpoint],
        ),
{
    reveal_literals();
    let end = seq!["--"@, mountpoint];
    let long = seq!["--unmount"@, "--quiet"@, "--lazy"@, "--"@, mountpoint];
    let short = seq!["-u"@, "-q"@, "-z"@, "--"@, mountpoint];
    let cluster = seq!["-uqz"@, "--"@, mountpoint];
    let u = Parsed { unmount: true, ..nothing() };
    let uq = Parsed { quiet: true, ..u };
    let uqz = Parsed { lazy: true, ..uq };
    let done = Parsed { mountpoint: Some(mountpoint), ..uqz };
    assert(word("--"@) == Word::End);
    assert(end.skip(2) == Seq::<Seq<char>>::empty());
    assert(read(end.skip(2), done) == Ok::<Parsed, Seq<char>>(done));
    assert(read(end, uqz) == Ok::<Parsed, Seq<char>>(done));

    assert(word("-z"@) == Word::Lazy && word("-q"@) == Word::Quiet && word("-u"@) == Word::Unmount);
    assert(short.skip(1).skip(1).skip(1) =~= end);
    assert(read(short.skip(1).skip(1), uq) == read(end, uqz));
    assert(read(short.skip(1), u) == read(short.skip(1).skip(1), uq));
    assert(read(short, nothing()) == read(short.skip(1), u));

    assert(word("--lazy"@) == Word::Lazy && word("--quiet"@) == Word::Quiet && word("--unmount"@)
        == Word::Unmount);
    assert(long.skip(1).skip(1).skip(1) =~= end);
    assert(read(long.skip(1).skip(1), uq) == read(end, uqz));
    assert(read(long.skip(1), u) == read(long.skip(1).skip(1), uq));
    assert(read(long, nothing()) == read(long.skip(1), u));

    let letters = "-uqz"@.skip(1);
    assert(letters =~= seq!['u', 'q', 'z']);
    assert(!"-o"@.is_prefix_of("-uqz"@)) by {
        if "-o"@.is_prefix_of("-uqz"@) {
            assert("-o"@[1] == "-uqz"@.subrange(0, 2)[1]);
        }
    }
    assert(!"--"@.is_prefix_of("-uqz"@)) by {
        if "--"@.is_prefix_of("-uqz"@) {
            assert("--"@[1] == "-uqz"@.subrange(0, 2)[1]);
        }
    }
    assert(!"--options="@.is_prefix_of("-uqz"@));
    assert("-"@ =~= "-uqz"@.subrange(0, 1));
    assert(word("-uqz"@) == Word::Letters(letters));
    assert(letters.drop_first().drop_first().drop_first() =~= Seq::<char>::empty());
    assert(bad_letter(Seq::<char>::empty()) is None);
    assert(bad_letter(letters.drop_first().drop_first()) is None);
    assert(bad_letter(letters.drop_first()) is None);
    assert(bad_letter(letters) is None);
    assert(letters[0] == 'u' && letters[1] == 'q' && letters[2] == 'z');
    assert(with_letters(nothing(), letters) == uqz) by {
        assert(letters.contains('u') && letters.contains('q') && letters.contains('z'));
        assert(!letters.contains('V') && !letters.contains('h'));
    }
    assert(cluster.skip(1) =~= end);
    assert(read(cluster, nothing()) == read(end, uqz));
}

/// What the option words are made of.
proof fn reveal_literals()
    ensures
        "--"@ == seq!['-', '-'],
        "-"@ == seq!['-'],
        "-o"@ == seq!['-', 'o'],
        "-h"@ == seq!['-', 'h'],
        "-V"@ == seq!['-', 'V'],
        "-u"@ == seq!['-', 'u'],
        "-q"@ == seq!['-', 'q'],
        "-z"@ == seq!['-', 'z'],
        "-uqz"@ == seq!['-', 'u', 'q', 'z'],
        "--help"@.len() == 6,
        "--help"@[2] == 'h',
        "--version"@.len() == 9,
        "--version"@[2] == 'v',
        "--unmount"@.len() == 9,
        "--unmount"@[2] == 'u',
        "--quiet"@.len() == 7,
        "--quiet"@[2] == 'q',
        "--lazy"@.len() == 6,
        "--lazy"@[2] == 'l',
        "--auto-unmount"@.len() == 14,
        "--sync-init"@.len() == 11,
        "--options"@.len() == 9,
        "--options"@[2] == 'o',
        "--options="@.len() == 10,
{
    reveal_strlit("--");
    reveal_strlit("-");
    reveal_strlit("-o");
    reveal_strlit("-h");
    reveal_strlit("-V");
    reveal_strlit("-u");
    reveal_strlit("-q");
    reveal_strlit("-z");
    reveal_strlit("-uqz");
    reveal_strlit("--help");
    reveal_strlit("--version");
    reveal_strlit("--unmount");
    reveal_strlit("--quiet");
    reveal_strlit("--lazy");
    reveal_strlit("--auto-unmount");
    reveal_strlit("--sync-init");
    reveal_strlit("--options");
    reveal_strlit("--options=");
}

/// Flags that were seen stay seen.
proof fn lemma_flags_stay(args: Seq<Seq<char>>, seen: Parsed)
    ensures
        read(args, seen) matches Ok(asked) ==> {
            &&& seen.unmount ==> asked.unmount
            &&& seen.version ==> asked.version
            &&& seen.help ==> asked.help
            &&& seen.sync_init ==> asked.sync_init
            &&& seen.watchdog ==> asked.watchdog
        },
    decreases args.len(),
{
    if args.len() > 0 {
        let rest = args.skip(1);
        match word(args[0]) {
            Word::End => if args.len() > 1 {
                lemma_flags_stay(args.skip(2), Parsed { mountpoint: Some(args[1]), ..seen });
            },
            Word::Help => lemma_flags_stay(rest, Parsed { help: true, ..seen }),
            Word::Version => lemma_flags_stay(rest, Parsed { version: true, ..seen }),
            Word::Unmount => lemma_flags_stay(rest, Parsed { unmount: true, ..seen }),
            Word::Quiet => lemma_flags_stay(rest, Parsed { quiet: true, ..seen }),
            Word::Lazy => lemma_flags_stay(rest, Parsed { lazy: true, ..seen }),
            Word::Watchdog => lemma_flags_stay(rest, Parsed { watchdog: true, ..seen }),
            Word::SyncInit => lemma_flags_stay(rest, Parsed { sync_init: true, ..seen }),
            Word::Options => if args.len() > 1 {
                lemma_flags_stay(args.skip(2), with_options(seen, args[1]));
            },
            Word::Attached(list) => lemma_flags_stay(rest, with_options(seen, list)),
            Word::UnknownLong => {},
            Word::Letters(letters) => if bad_letter(letters) is None {
                lemma_flags_stay(rest, with_letters(seen, letters));
            },
            Word::Mountpoint => lemma_flags_stay(
                rest,
                Parsed { mountpoint: Some(args[0]), ..seen },
            ),
        }
    }
}

/// Reading goes on behind arguments that could be read, unless they end in
/// a `--` that still waits for its mountpoint.
proof fn lemma_read_on(front: Seq<Seq<char>>, back: Seq<Seq<char>>, seen: Parsed)
    requires
        read(front, seen) is Ok,
        front.len() > 0 ==> front.last() != "--"@,
    ensures
        read(front + back, seen) == read(back, read(front, seen)->Ok_0),
    decreases front.len(),
{
    let all = front + back;
    if front.len() == 0 {
        assert(all =~= back);
    } else {
        assert(all[0] == front[0]);
        assert(all.skip(1) =~= front.skip(1) + back);
        if front.len() > 1 {
            assert(front.skip(1).last() == front.last());
            assert(all[1] == front[1]);
            assert(all.skip(2) =~= front.skip(2) + back);
            if front.len() > 2 {
                assert(front.skip(2).last() == front.last());
            }
        }
        let rest = front.skip(1);
        match word(front[0]) {
            Word::End => {
                assert(front.len() > 1);
                lemma_read_on(front.skip(2), back, Parsed { mountpoint: Some(front[1]), ..seen });
            },
            Word::Help => lemma_read_on(rest, back, Parsed { help: true, ..seen }),
            Word::Version => lemma_read_on(rest, back, Parsed { version: true, ..seen }),
            Word::Unmount => lemma_read_on(rest, back, Parsed { unmount: true, ..seen }),
            Word::Quiet => lemma_read_on(rest, back, Parsed { quiet: true, ..seen }),
            Word::Lazy => lemma_read_on(rest, back, Parsed { lazy: true, ..seen }),
            Word::Watchdog => lemma_read_on(rest, back, Parsed { watchdog: true, ..seen }),
            Word::SyncInit => lemma_read_on(rest, back, Parsed { sync_init: true, ..seen }),
            Word::Options => lemma_read_on(front.skip(2), back, with_options(seen, front[1])),
            Word::Attached(list) => lemma_read_on(rest, back, with_options(seen, list)),
            Word::UnknownLong => {},
            Word::Letters(letters) => lemma_read_on(rest, back, with_letters(seen, letters)),
            Word::Mountpoint => lemma_read_on(
                rest,
                back,
                Parsed { mountpoint: Some(front[0]), ..seen },
            ),
        }
    }
}

/// Whether an argument is a flag that asks to unmount.
pub open spec fn asks_unmount(arg: Seq<char>) -> bool {
    match word(arg) {
        Word::Unmount => true,
        Word::Letters(letters) => letters.contains('u'),
        _ => false,
    }
}

/// A command line that asks to unmount, in any spelling and anywhere among
/// its arguments, never asks the daemon to mount. The arguments in front
/// must be complete: an option list or a mountpoint that is still to come
/// would take the flag for itself.
pub proof fn law_an_unmount_never_becomes_a_mount(
    front: Seq<Seq<char>>,
    flag: Seq<char>,
    back: Seq<Seq<char>>,
)
    requires
        read(front, nothing()) is Ok,
        front.len() > 0 ==> front.last() != "--"@,
        asks_unmount(flag),
    ensures
        !(planned(front + seq![flag] + back) matches Ok(plan) && plan is Mount),
{
    let later = seq![flag] + back;
    let seen = read(front, nothing())->Ok_0;
    assert(front + seq![flag] + back =~= front + later);
    lemma_read_on(front, later, nothing());
    assert(later[0] == flag);
    match word(flag) {
        Word::Letters(letters) => if bad_letter(letters) is None {
            lemma_flags_stay(later.skip(1), with_letters(seen, letters));
        },
        _ => {
            lemma_flags_stay(later.skip(1), Parsed { unmount: true, ..seen });
        },
    }
}

/// The mountpoint comes from the arguments: either it follows `--`, or it
/// does not look like an option.
pub open spec fn gives_mountpoint(args: Seq<Seq<char>>, i: int, mountpoint: Seq<char>) -> bool {
    &&& 0 <= i < args.len()
    &&& args[i] == mountpoint
    &&& word(mountpoint) is Mountpoint || (i > 0 && args[i - 1] == "--"@)
}

/// What gives a mountpoint further on gives it in the whole as well.
proof fn lemma_gives_later(args: Seq<Seq<char>>, n: int, mountpoint: Seq<char>)
    requires
        0 <= n <= args.len(),
        exists|i: int| #[trigger] gives_mountpoint(args.skip(n), i, mountpoint),
    ensures
        exists|i: int| #[trigger] gives_mountpoint(args, i, mountpoint),
{
    let i = choose|i: int| #[trigger] gives_mountpoint(args.skip(n), i, mountpoint);
    assert(args.skip(n)[i] == args[i + n]);
    if i > 0 {
        assert(args.skip(n)[i - 1] == args[i + n - 1]);
    }
    assert(gives_mountpoint(args, i + n, mountpoint));
}

proof fn lemma_mountpoint(args: Seq<Seq<char>>, seen: Parsed, mountpoint: Seq<char>)
    requires
        read(args, seen) matches Ok(asked) && asked.mountpoint == Some(mountpoint),
        seen.mountpoint != Some(mountpoint),
    ensures
        exists|i: int| #[trigger] gives_mountpoint(args, i, mountpoint),
    decreases args.len(),
{
    if args.len() > 0 {
        let rest = args.skip(1);
        match word(args[0]) {
            Word::End => if args.len() > 1 {
                if args[1] == mountpoint {
                    assert(gives_mountpoint(args, 1, mountpoint));
                } else {
                    lemma_mountpoint(
                        args.skip(2),
                        Parsed { mountpoint: Some(args[1]), ..seen },
                        mountpoint,
                    );
                    lemma_gives_later(args, 2, mountpoint);
                }
            },
            Word::Help => {
                lemma_mountpoint(rest, Parsed { help: true, ..seen }, mountpoint);
                lemma_gives_later(args, 1, mountpoint);
            },
            Word::Version => {
                lemma_mountpoint(rest, Parsed { version: true, ..seen }, mountpoint);
                lemma_gives_later(args, 1, mountpoint);
            },
            Word::Unmount => {
                lemma_mountpoint(rest, Parsed { unmount: true, ..seen }, mountpoint);
                lemma_gives_later(args, 1, mountpoint);
            },
            Word::Quiet => {
                lemma_mountpoint(rest, Parsed { quiet: true, ..seen }, mountpoint);
                lemma_gives_later(args, 1, mountpoint);
            },
            Word::Lazy => {
                lemma_mountpoint(rest, Parsed { lazy: true, ..seen }, mountpoint);
                lemma_gives_later(args, 1, mountpoint);
            },
            Word::Watchdog => {
                lemma_mountpoint(rest, Parsed { watchdog: true, ..seen }, mountpoint);
                lemma_gives_later(args, 1, mountpoint);
            },
            Word::SyncInit => {
                lemma_mountpoint(rest, Parsed { sync_init: true, ..seen }, mountpoint);
                lemma_gives_later(args, 1, mountpoint);
            },
            Word::Options => if args.len() > 1 {
                lemma_mountpoint(args.skip(2), with_options(seen, args[1]), mountpoint);
                lemma_gives_later(args, 2, mountpoint);
            },
            Word::Attached(list) => {
                lemma_mountpoint(rest, with_options(seen, list), mountpoint);
                lemma_gives_later(args, 1, mountpoint);
            },
            Word::UnknownLong => {},
            Word::Letters(letters) => if bad_letter(letters) is None {
                lemma_mountpoint(rest, with_letters(seen, letters), mountpoint);
                lemma_gives_later(args, 1, mountpoint);
            },
            Word::Mountpoint => if args[0] == mountpoint {
                assert(gives_mountpoint(args, 0, mountpoint));
            } else {
                lemma_mountpoint(rest, Parsed { mountpoint: Some(args[0]), ..seen }, mountpoint);
                lemma_gives_later(args, 1, mountpoint);
            },
        }
    }
}

/// An option is never taken for the mountpoint: what is, either does not
/// look like an option or was put behind `--`.
pub proof fn law_options_are_no_mountpoints(args: Seq<Seq<char>>, mountpoint: Seq<char>)
    requires
        command_line(args) matches Ok(asked) && asked.mountpoint == Some(mountpoint),
    ensures
        exists|i: int| #[trigger] gives_mountpoint(args, i, mountpoint),
{
    lemma_mountpoint(args, nothing(), mountpoint);
}

/// What asks for silence further on asks for it in the whole as well.
proof fn lemma_silent_later(args: Seq<Seq<char>>, n: int)
    requires
        0 <= n <= args.len(),
        silent(args.skip(n)),
    ensures
        silent(args),
{
    let i = choose|i: int| 0 <= i < args.skip(n).len() && asks_quiet(#[trigger] args.skip(n)[i]);
    assert(asks_quiet(args[i + n]));
}

proof fn lemma_quiet(args: Seq<Seq<char>>, seen: Parsed)
    requires
        read(args, seen) matches Ok(asked) && asked.quiet,
        !seen.quiet,
    ensures
        silent(args),
    decreases args.len(),
{
    if args.len() > 0 {
        let rest = args.skip(1);
        match word(args[0]) {
            Word::End => if args.len() > 1 {
                lemma_quiet(args.skip(2), Parsed { mountpoint: Some(args[1]), ..seen });
                lemma_silent_later(args, 2);
            },
            Word::Help => {
                lemma_quiet(rest, Parsed { help: true, ..seen });
                lemma_silent_later(args, 1);
            },
            Word::Version => {
                lemma_quiet(rest, Parsed { version: true, ..seen });
                lemma_silent_later(args, 1);
            },
            Word::Unmount => {
                lemma_quiet(rest, Parsed { unmount: true, ..seen });
                lemma_silent_later(args, 1);
            },
            Word::Quiet => {
                reveal_literals();
                assert("-"@ =~= "-q"@.subrange(0, 1));
                assert(!"--"@.is_prefix_of("-q"@)) by {
                    if "--"@.is_prefix_of("-q"@) {
                        assert("--"@[1] == "-q"@.subrange(0, 2)[1]);
                    }
                }
                assert("-q"@[1] == 'q');
                assert(asks_quiet(args[0]));
            },
            Word::Lazy => {
                lemma_quiet(rest, Parsed { lazy: true, ..seen });
                lemma_silent_later(args, 1);
            },
            Word::Watchdog => {
                lemma_quiet(rest, Parsed { watchdog: true, ..seen });
                lemma_silent_later(args, 1);
            },
            Word::SyncInit => {
                lemma_quiet(rest, Parsed { sync_init: true, ..seen });
                lemma_silent_later(args, 1);
            },
            Word::Options => if args.len() > 1 {
                lemma_quiet(args.skip(2), with_options(seen, args[1]));
                lemma_silent_later(args, 2);
            },
            Word::Attached(list) => {
                lemma_quiet(rest, with_options(seen, list));
                lemma_silent_later(args, 1);
            },
            Word::UnknownLong => {},
            Word::Letters(letters) => if bad_letter(letters) is None {
                if letters.contains('q') {
                    let k = choose|k: int| 0 <= k < letters.len() && letters[k] == 'q';
                    assert(args[0][k + 1] == 'q');
                    assert(asks_quiet(args[0]));
                } else {
                    lemma_quiet(rest, with_letters(seen, letters));
                    lemma_silent_later(args, 1);
                }
            },
            Word::Mountpoint => {
                lemma_quiet(rest, Parsed { mountpoint: Some(args[0]), ..seen });
                lemma_silent_later(args, 1);
            },
        }
    }
}

/// Whoever asks for silence in a command line that can be read gets it, in
/// every spelling, although silence is decided without reading it.
pub proof fn law_quiet_is_honoured(args: Seq<Seq<char>>)
    requires
        command_line(args) matches Ok(asked) && asked.quiet,
    ensures
        silent(args),
{
    lemma_quiet(args, nothing());
}

/// A bare request to watch over a mount is never turned into a mount, and
/// one that comes with mount options is the `auto_unmount` option.
pub proof fn law_auto_unmount_flag(args: Seq<Seq<char>>)
    requires
        read(args, nothing()) matches Ok(seen) && seen.watchdog,
    ensures
        command_line(args) matches Ok(asked) && {
            &&& asked.watchdog ==> asked.options.len() == 0 && !(planned(args) matches Ok(plan)
                && plan is Mount)
            &&& !asked.watchdog ==> asked.options.last() == "auto_unmount"@
        },
{
}

} // verus!
