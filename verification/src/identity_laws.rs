//! What holds of identifying a caller, stated of the lines that it is read
//! from.
use vstd::prelude::*;

#[allow(unused_imports)]
use crate::caller::{
    caller_verdict, confirmed, described_pid, is_bus_name, is_dotted, is_element, is_name_char,
    no_bus_name, pid_field, pin_verdict, sender_answer, sender_verdict, Credentials, Pin, Pinned,
};
#[allow(unused_imports)]
use crate::error::{answer, text_answer, BridgeError, Refusal};
#[allow(unused_imports)]
use crate::flatpak::{
    app_id_in, given_name, gives_name, identity_in, is_header, lemma_names_grow,
    lemma_names_stand_in_section, names_at, names_in, open_section, trimmed_lines, Identification,
    InfoReading,
};
#[allow(unused_imports)]
use crate::number::{integer, is_digit};
#[allow(unused_imports)]
use crate::policy::is_blank;
#[allow(unused_imports)]
use crate::text::{
    decimal, is_white_space, join, law_split_undoes_join, lemma_split_shape, lines, split, trim,
    without_return,
};
#[allow(unused_imports)]
use crate::text_laws::{
    is_bare, law_every_text_is_trimmed_to_something_bare, law_lines_end_at_newlines,
    law_numbers_read_back, law_splitting_goes_side_by_side, law_trimming_takes_off_what_is_around,
};

verus! {

/// What stands on a line of a file, less the white space around it.
pub open spec fn line_of(content: Seq<char>, i: int) -> Seq<char> {
    trim(split(content, '\n')[i])
}

/// Whether a line of a file opens a section.
pub open spec fn opens_section(content: Seq<char>, i: int) -> bool {
    line_of(content, i).len() > 0 && line_of(content, i)[0] == '['
}

/// Whether a line of a file starts with `name=`.
pub open spec fn names_something(content: Seq<char>, i: int) -> bool {
    let line = line_of(content, i);
    &&& 0 <= i < split(content, '\n').len()
    &&& line.len() >= 5
    &&& line.take(5) == seq!['n', 'a', 'm', 'e', '=']
}

/// Whether a line stands in a section with this header: the last line in
/// front of it that opens a section is the header.
pub open spec fn stands_under(content: Seq<char>, i: int, header: Seq<char>) -> bool {
    exists|h: int|
        {
            &&& 0 <= h < i
            &&& #[trigger] line_of(content, h) == header
            &&& forall|k: int| h < k < i ==> !#[trigger] opens_section(content, k)
        }
}

/// Whether a line gives a name in a section with this header.
pub open spec fn names_under(content: Seq<char>, i: int, header: Seq<char>) -> bool {
    names_something(content, i) && stands_under(content, i, header)
}

/// The name that a line gives: what follows `name=`, less the white space
/// around it.
pub open spec fn name_on(content: Seq<char>, i: int) -> Seq<char> {
    trim(line_of(content, i).skip(5))
}

/// All lines of a file, less the white space around them.
spec fn all_lines(content: Seq<char>) -> Seq<Seq<char>> {
    Seq::new(split(content, '\n').len(), |i: int| line_of(content, i))
}

/// White space at the end does not survive trimming.
proof fn lemma_trim_push(s: Seq<char>, c: char)
    requires
        is_white_space(c),
    ensures
        trim(s.push(c)) == trim(s),
{
    law_every_text_is_trimmed_to_something_bare(s);
    let (before, after) = choose|before: Seq<char>, after: Seq<char>|
        is_blank(before) && is_blank(after) && s == #[trigger] (before + trim(s) + after);
    let longer = after.push(c);
    assert forall|i: int| 0 <= i < longer.len() implies is_white_space(#[trigger] longer[i]) by {
        if i < after.len() {
            assert(longer[i] == after[i]);
        }
    }
    assert(s.push(c) =~= before + trim(s) + longer);
    law_trimming_takes_off_what_is_around(before, trim(s), longer);
}

/// The names found are those on the lines of the file.
proof fn lemma_same_names(content: Seq<char>, header: Seq<char>)
    ensures
        names_in(trimmed_lines(content), header) == names_in(all_lines(content), header),
{
    let parts = split(content, '\n');
    let all = all_lines(content);
    let read = trimmed_lines(content);
    lemma_split_shape(content, '\n');
    assert forall|i: int| 0 <= i < parts.len() - 1 implies #[trigger] read[i] == all[i] by {
        let part = parts[i];
        assert(parts.drop_last()[i] == part);
        assert(lines(content)[i] == without_return(part));
        if part.len() > 0 && part.last() == '\r' {
            lemma_trim_push(part.drop_last(), '\r');
            assert(part =~= part.drop_last().push('\r'));
        }
    }
    if parts.last().len() == 0 {
        assert(read =~= all.drop_last());
        assert(parts.last() =~= Seq::<char>::empty());
        assert(all.last() == line_of(content, parts.len() - 1));
        assert(all.last() =~= Seq::<char>::empty()) by {
            law_trimming_takes_off_what_is_around(
                Seq::empty(),
                Seq::<char>::empty(),
                Seq::empty(),
            );
            assert(Seq::<char>::empty() + Seq::<char>::empty() + Seq::<char>::empty()
                =~= Seq::<char>::empty());
        }
        reveal_strlit("name=");
        assert(!gives_name(all.last()));
    } else {
        assert(read =~= all);
    }
}

/// The section open at the end of lines is the last header among them.
proof fn lemma_open_section(content: Seq<char>, n: int, header: Seq<char>)
    requires
        0 <= n <= split(content, '\n').len(),
        header.len() > 0,
        header[0] == '[',
    ensures
        open_section(all_lines(content).take(n)) == header <==> stands_under(content, n, header),
    decreases n,
{
    let all = all_lines(content);
    if n == 0 {
        assert(all.take(0) =~= Seq::<Seq<char>>::empty());
        assert(open_section(all.take(0)) == Seq::<char>::empty());
    } else {
        lemma_open_section(content, n - 1, header);
        assert(all.take(n).drop_last() =~= all.take(n - 1));
        assert(all.take(n).last() == line_of(content, n - 1));
        if is_header(line_of(content, n - 1)) {
            assert(opens_section(content, n - 1));
            if line_of(content, n - 1) == header {
                assert(stands_under(content, n, header));
            }
            if stands_under(content, n, header) {
                let h = choose|h: int|
                    {
                        &&& 0 <= h < n
                        &&& #[trigger] line_of(content, h) == header
                        &&& forall|k: int| h < k < n ==> !#[trigger] opens_section(content, k)
                    };
                assert(h == n - 1);
            }
        } else {
            assert(!opens_section(content, n - 1));
            if stands_under(content, n - 1, header) {
                let h = choose|h: int|
                    {
                        &&& 0 <= h < n - 1
                        &&& #[trigger] line_of(content, h) == header
                        &&& forall|k: int| h < k < n - 1 ==> !#[trigger] opens_section(content, k)
                    };
                assert forall|k: int| h < k < n implies !#[trigger] opens_section(content, k) by {
                    if k == n - 1 {
                    }
                }
                assert(line_of(content, h) == header);
            }
            if stands_under(content, n, header) {
                let h = choose|h: int|
                    {
                        &&& 0 <= h < n
                        &&& #[trigger] line_of(content, h) == header
                        &&& forall|k: int| h < k < n ==> !#[trigger] opens_section(content, k)
                    };
                assert(h != n - 1);
                assert(line_of(content, h) == header);
            }
        }
    }
}

/// A line gives a name under a header exactly if it is one of those counted.
proof fn lemma_names_at(content: Seq<char>, i: int, header: Seq<char>)
    requires
        0 <= i < split(content, '\n').len(),
        header.len() > 0,
        header[0] == '[',
    ensures
        names_at(all_lines(content), i, header) <==> names_under(content, i, header),
        names_under(content, i, header) ==> given_name(all_lines(content)[i]) == name_on(content, i),
{
    reveal_strlit("name=");
    lemma_open_section(content, i, header);
    let line = line_of(content, i);
    assert(all_lines(content)[i] == line);
    assert("name="@ =~= seq!['n', 'a', 'm', 'e', '=']);
    if line.len() >= 5 {
        assert(line.take(5) =~= line.subrange(0, 5));
        if line.take(5) == "name="@ {
            assert(line[0] == "name="@[0]);
        }
    }
}

/// The first name under a header comes first among those counted.
proof fn lemma_first_name(all: Seq<Seq<char>>, i: int, header: Seq<char>)
    requires
        names_at(all, i, header),
        forall|j: int| 0 <= j < i ==> !#[trigger] names_at(all, j, header),
    ensures
        names_in(all, header).len() > 0,
        names_in(all, header)[0] == given_name(all[i]),
{
    let front = all.take(i);
    assert(names_in(front, header).len() == 0) by {
        if names_in(front, header).len() > 0 {
            let at = lemma_names_stand_in_section(front, header, 0);
            assert(front.take(at) =~= all.take(at));
            assert(names_at(all, at, header));
        }
    }
    let next = all.take(i + 1);
    assert(next.drop_last() =~= front);
    assert(next.last() == all[i]);
    lemma_names_grow(all, i + 1, header);
    assert(names_in(next, header)[0] == given_name(all[i]));
    assert(names_in(all, header).subrange(0, names_in(next, header).len() as int)[0] == names_in(
        all,
        header,
    )[0]);
}

/// The last name under a header comes last among those counted.
proof fn lemma_last_name(all: Seq<Seq<char>>, i: int, n: int, header: Seq<char>)
    requires
        names_at(all, i, header),
        i < n <= all.len(),
        forall|j: int| i < j < n ==> !#[trigger] names_at(all, j, header),
    ensures
        names_in(all.take(n), header).len() > 0,
        names_in(all.take(n), header).last() == given_name(all[i]),
    decreases n,
{
    assert(all.take(n).drop_last() =~= all.take(n - 1));
    assert(all.take(n).last() == all[n - 1]);
    if n > i + 1 {
        assert(!names_at(all, n - 1, header));
        lemma_last_name(all, i, n - 1, header);
    }
}

/// The id in a file is the first name that stands under `[Application]`.
pub proof fn law_the_first_application_name_is_the_id(content: Seq<char>, i: int)
    requires
        names_under(content, i, "[Application]"@),
        forall|j: int| 0 <= j < i ==> !#[trigger] names_under(content, j, "[Application]"@),
    ensures
        app_id_in(content) == Some(name_on(content, i)),
{
    reveal_strlit("[Application]");
    let header = "[Application]"@;
    let all = all_lines(content);
    lemma_same_names(content, header);
    lemma_names_at(content, i, header);
    assert forall|j: int| 0 <= j < i implies !#[trigger] names_at(all, j, header) by {
        lemma_names_at(content, j, header);
    }
    lemma_first_name(all, i, header);
}

/// Nothing is counted where no line gives a name.
proof fn lemma_no_names(content: Seq<char>, header: Seq<char>)
    requires
        header.len() > 0,
        header[0] == '[',
        forall|j: int| !#[trigger] names_under(content, j, header),
    ensures
        names_in(trimmed_lines(content), header).len() == 0,
{
    lemma_same_names(content, header);
    let all = all_lines(content);
    if names_in(all, header).len() > 0 {
        let at = lemma_names_stand_in_section(all, header, 0);
        lemma_names_at(content, at, header);
    }
}

/// Where no application is named, the id is the last name that stands under
/// `[Runtime]`.
pub proof fn law_the_last_runtime_name_is_the_id(content: Seq<char>, i: int)
    requires
        forall|j: int| !#[trigger] names_under(content, j, "[Application]"@),
        names_under(content, i, "[Runtime]"@),
        forall|j: int| i < j ==> !#[trigger] names_under(content, j, "[Runtime]"@),
    ensures
        app_id_in(content) == Some(name_on(content, i)),
{
    reveal_strlit("[Application]");
    reveal_strlit("[Runtime]");
    let header = "[Runtime]"@;
    let all = all_lines(content);
    lemma_no_names(content, "[Application]"@);
    lemma_same_names(content, header);
    lemma_names_at(content, i, header);
    assert forall|j: int| i < j < all.len() implies !#[trigger] names_at(all, j, header) by {
        lemma_names_at(content, j, header);
    }
    lemma_last_name(all, i, all.len() as int, header);
    assert(all.take(all.len() as int) =~= all);
}

/// Where neither is named there is no id.
pub proof fn law_without_names_there_is_no_id(content: Seq<char>)
    requires
        forall|j: int| !#[trigger] names_under(content, j, "[Application]"@),
        forall|j: int| !#[trigger] names_under(content, j, "[Runtime]"@),
    ensures
        app_id_in(content) is None,
{
    reveal_strlit("[Application]");
    reveal_strlit("[Runtime]");
    lemma_no_names(content, "[Application]"@);
    lemma_no_names(content, "[Runtime]"@);
}

/// The text `[Application]`, a line's end and `name=`.
pub open spec fn application_start() -> Seq<char> {
    "[Application]"@.push('\n') + "name="@
}

/// A name that is written for an application is the id that is read back,
/// whole, whatever follows it.
pub proof fn law_an_application_s_name_reads_back(name: Seq<char>, rest: Seq<char>)
    requires
        !name.contains('\n'),
        is_bare(name),
    ensures
        app_id_in(application_start() + name + seq!['\n'] + rest) == Some(name),
{
    reveal_strlit("[Application]");
    reveal_strlit("name=");
    let content = application_start() + name + seq!['\n'] + rest;
    let first = "[Application]"@;
    let second = "name="@ + name;
    let empty = Seq::<char>::empty();
    assert(content =~= first.push('\n') + (second.push('\n') + rest));
    assert(!first.contains('\n'));
    assert(!second.contains('\n')) by {
        if second.contains('\n') {
            let i = choose|i: int| 0 <= i < second.len() && second[i] == '\n';
            if i >= 5 {
                assert(name[i - 5] == '\n');
            }
        }
    }
    law_splitting_goes_side_by_side(first, second.push('\n') + rest, '\n');
    law_splitting_goes_side_by_side(second, rest, '\n');
    assert(split(content, '\n')[0] == first);
    assert(split(content, '\n')[1] == second);
    law_trimming_takes_off_what_is_around(empty, first, empty);
    assert(empty + first + empty =~= first);
    assert(line_of(content, 0) == first);
    assert("name="@ =~= seq!['n', 'a', 'm', 'e', '=']);
    law_every_text_is_trimmed_to_something_bare(second);
    if name.len() > 0 {
        assert(second.last() == name.last());
    }
    law_trimming_takes_off_what_is_around(empty, second, empty);
    assert(empty + second + empty =~= second);
    assert(line_of(content, 1) == second);
    assert(second.take(5) =~= "name="@);
    assert(second.skip(5) =~= name);
    law_trimming_takes_off_what_is_around(empty, name, empty);
    assert(empty + name + empty =~= name);
    assert(names_something(content, 1));
    assert(stands_under(content, 1, first));
    assert(!names_under(content, 0, first));
    law_the_first_application_name_is_the_id(content, 1);
}

/// Two applications are taken for the same one exactly if they have the same
/// name.
pub proof fn law_applications_are_told_apart_by_name(a: Seq<char>, b: Seq<char>, rest: Seq<char>)
    requires
        !a.contains('\n'),
        !b.contains('\n'),
        is_bare(a),
        is_bare(b),
    ensures
        app_id_in(application_start() + a + seq!['\n'] + rest) == app_id_in(
            application_start() + b + seq!['\n'] + rest,
        ) <==> a == b,
{
    law_an_application_s_name_reads_back(a, rest);
    law_an_application_s_name_reads_back(b, rest);
}

/// A process is what its file says: an application where there is a file, by
/// the id in it or as `unknown`; nobody sandboxed where there is none; and
/// not to be told where it could not be read.
pub proof fn law_a_process_is_what_its_file_says(content: String, e: String)
    ensures
        app_id_in(content@) matches Some(id) ==> identity_in(InfoReading::Content(content))
            == Identification::Application(id),
        app_id_in(content@) is None ==> identity_in(InfoReading::Content(content))
            == Identification::Application("unknown"@),
        identity_in(InfoReading::Missing) == Identification::Unsandboxed,
        identity_in(InfoReading::Failed(e)) == Identification::Unreadable(e@),
{
}

/// A sandboxed process of the session user is served under its own number
/// and as its own application.
pub proof fn law_sandboxed_callers_are_served(
    pid: u32,
    euid: u32,
    info: InfoReading,
    id: Seq<char>,
    allow_unsandboxed: bool,
)
    requires
        identity_in(info) == Identification::Application(id),
    ensures
        caller_verdict(Ok(Pinned { pid, uid: Ok(euid), info }), euid, allow_unsandboxed) == Ok::<
            (u32, Seq<char>),
            Refusal,
        >((pid, id)),
{
}

/// Every other caller is answered with what is wrong with it, in this order:
/// it could not be pinned, its user could not be read or is another one, it
/// is not sandboxed, its file could not be read.
pub proof fn law_other_callers_are_told_why(
    pid: u32,
    uid: u32,
    euid: u32,
    info: InfoReading,
    e: String,
    allow_unsandboxed: bool,
)
    ensures
        caller_verdict(Err(e), euid, allow_unsandboxed) == Err::<(u32, Seq<char>), Refusal>(
            Refusal::AccessDenied("caller: "@ + e@),
        ),
        caller_verdict(Ok(Pinned { pid, uid: Err(e), info }), euid, allow_unsandboxed) == Err::<
            (u32, Seq<char>),
            Refusal,
        >(Refusal::Failed("cannot read caller uid: "@ + e@)),
        uid != euid ==> caller_verdict(Ok(Pinned { pid, uid: Ok(uid), info }), euid, allow_unsandboxed)
            == Err::<(u32, Seq<char>), Refusal>(
            Refusal::AccessDenied(
                "caller uid "@ + decimal(uid as nat) + " does not match session user"@,
            ),
        ),
        caller_verdict(Ok(Pinned { pid, uid: Ok(euid), info: InfoReading::Missing }), euid, true)
            == Ok::<(u32, Seq<char>), Refusal>((pid, "(unsandboxed)"@)),
        caller_verdict(Ok(Pinned { pid, uid: Ok(euid), info: InfoReading::Missing }), euid, false)
            == Err::<(u32, Seq<char>), Refusal>(
            Refusal::AccessDenied("caller is not a Flatpak application"@),
        ),
        caller_verdict(
            Ok(Pinned { pid, uid: Ok(euid), info: InfoReading::Failed(e) }),
            euid,
            allow_unsandboxed,
        ) == Err::<(u32, Seq<char>), Refusal>(
            Refusal::Failed("cannot inspect caller (pid "@ + decimal(pid as nat) + "): "@ + e@),
        ),
{
}

/// A caller is pinned by its descriptor wherever there is one, and by its
/// number only where there is none and numbers will do.
pub proof fn law_how_callers_are_pinned(pid: Option<u32>, number: u32, e: String, require: bool)
    ensures
        pin_verdict(Ok(Credentials { has_descriptor: true, process_id: pid }), require) == Ok::<
            Pin,
            Refusal,
        >(Pin::ByDescriptor),
        pin_verdict(
            Ok(Credentials { has_descriptor: false, process_id: Some(number) }),
            false,
        ) == Ok::<Pin, Refusal>(Pin::ByPid(number)),
        pin_verdict(Ok(Credentials { has_descriptor: false, process_id: None }), false) == Err::<
            Pin,
            Refusal,
        >(Refusal::AccessDenied("caller pid unavailable"@)),
        pin_verdict(Ok(Credentials { has_descriptor: false, process_id: pid }), true) == Err::<
            Pin,
            Refusal,
        >(
            Refusal::AccessDenied(
                "this bus cannot identify callers by descriptor (needs dbus >= 1.16) and --require-pidfd is set"@,
            ),
        ),
        pin_verdict(Err(e), require) == Err::<Pin, Refusal>(
            Refusal::Failed("cannot get caller credentials: "@ + e@),
        ),
{
}

/// A message is taken as its sender's, and without one it is refused.
pub proof fn law_messages_need_a_sender(name: Seq<char>)
    ensures
        sender_answer(Some(name)) == Ok::<Seq<char>, Refusal>(name),
        sender_answer(None) == Err::<Seq<char>, Refusal>(
            Refusal::AccessDenied("no sender on message"@),
        ),
{
}

/// The letters, digits and signs that a bus name is made of.
pub open spec fn is_word(s: Seq<char>) -> bool {
    s.len() > 0 && forall|i: int|
        0 <= i < s.len() ==> {
            ||| 'a' <= #[trigger] s[i] <= 'z'
            ||| 'A' <= s[i] <= 'Z'
            ||| '0' <= s[i] <= '9'
            ||| s[i] == '_'
            ||| s[i] == '-'
        }
}

/// A bus name is two or more words with dots between them, at most 255
/// characters: behind a colon any words, and without one only words that do
/// not start with a digit.
pub proof fn law_what_a_bus_name_is(words: Seq<Seq<char>>)
    requires
        words.len() > 0,
        forall|i: int| 0 <= i < words.len() ==> !(#[trigger] words[i]).contains('.'),
    ensures
        ({
            let name = seq![':'] + join(words, seq!['.']);
            is_bus_name(name) <==> name.len() <= 255 && words.len() >= 2 && forall|i: int|
                0 <= i < words.len() ==> is_word(#[trigger] words[i])
        }),
        ({
            let name = join(words, seq!['.']);
            words[0].len() == 0 || words[0][0] != ':' ==> (is_bus_name(name) <==> name.len() <= 255
                && words.len() >= 2 && forall|i: int|
                0 <= i < words.len() ==> is_word(#[trigger] words[i]) && !('0' <= words[i][0]
                    <= '9'))
        }),
{
    let plain = join(words, seq!['.']);
    let unique = seq![':'] + plain;
    law_split_undoes_join(words, '.');
    assert(unique.skip(1) =~= plain);
    lemma_elements(words);
    let marked = words.update(0, seq![':'] + words[0]);
    assert forall|i: int| 0 <= i < marked.len() implies !(#[trigger] marked[i]).contains('.') by {
        if i == 0 {
            assert forall|k: int| 0 <= k < marked[0].len() implies marked[0][k] != '.' by {
                if k > 0 {
                    assert(marked[0][k] == words[0][k - 1]);
                    assert(words[0].contains(words[0][k - 1]));
                }
            }
        }
    }
    law_split_undoes_join(marked, '.');
    lemma_join_in_front(words, seq![':'], seq!['.']);
    assert(split(unique, '.') == marked);
    assert(marked[0][0] == ':');
    assert(!is_element(marked[0], false));
    assert(!is_dotted(unique, false));
    if words[0].len() == 0 || words[0][0] != ':' {
        lemma_first_char(words);
    }
}

/// Elements of a bus name are words.
proof fn lemma_elements(words: Seq<Seq<char>>)
    ensures
        forall|i: int|
            0 <= i < words.len() ==> (is_word(#[trigger] words[i]) <==> is_element(words[i], true)),
        forall|i: int|
            0 <= i < words.len() ==> ((is_word(#[trigger] words[i]) && !('0' <= words[i][0] <= '9'))
                <==> is_element(words[i], false)),
{
    assert forall|i: int| 0 <= i < words.len() implies (is_word(#[trigger] words[i])
        <==> is_element(words[i], true)) by {
        let s = words[i];
        if is_word(s) {
            assert forall|k: int| 0 <= k < s.len() implies is_name_char(#[trigger] s[k]) by {}
        }
        if is_element(s, true) {
            assert forall|k: int| 0 <= k < s.len() implies ('a' <= #[trigger] s[k] <= 'z' || 'A'
                <= s[k] <= 'Z' || '0' <= s[k] <= '9' || s[k] == '_' || s[k] == '-') by {
                assert(is_name_char(s[k]));
            }
        }
    }
    assert forall|i: int| 0 <= i < words.len() implies ((is_word(#[trigger] words[i]) && !('0'
        <= words[i][0] <= '9')) <==> is_element(words[i], false)) by {
        assert(is_word(words[i]) <==> is_element(words[i], true));
    }
}

/// What stands in front of a joined text stands in front of its first piece.
proof fn lemma_join_in_front(parts: Seq<Seq<char>>, front: Seq<char>, sep: Seq<char>)
    requires
        parts.len() > 0,
    ensures
        join(parts.update(0, front + parts[0]), sep) == front + join(parts, sep),
    decreases parts.len(),
{
    let marked = parts.update(0, front + parts[0]);
    if parts.len() > 1 {
        lemma_join_in_front(parts.drop_last(), front, sep);
        assert(marked.drop_last() =~= parts.drop_last().update(0, front + parts.drop_last()[0]));
        assert(marked.last() == parts.last());
        assert(join(marked, sep) =~= front + join(parts, sep));
    }
}

/// A joined text starts as its first piece does, or with the separator.
proof fn lemma_first_char(words: Seq<Seq<char>>)
    requires
        words.len() > 0,
        words[0].len() == 0 || words[0][0] != ':',
    ensures
        ({
            let name = join(words, seq!['.']);
            name.len() > 0 ==> name[0] != ':' || words[0].len() == 0 && words.len() == 1
        }),
        join(words, seq!['.']).len() >= words[0].len(),
        words[0].len() > 0 ==> join(words, seq!['.'])[0] == words[0][0],
        words[0].len() == 0 && words.len() > 1 ==> join(words, seq!['.']).len() > 0 && join(
            words,
            seq!['.'],
        )[0] == '.',
    decreases words.len(),
{
    if words.len() > 1 {
        lemma_first_char(words.drop_last());
        let earlier = join(words.drop_last(), seq!['.']);
        assert(join(words, seq!['.']) == earlier + seq!['.'] + words.last());
        if words.len() == 2 {
            assert(words.drop_last() =~= seq![words[0]]);
            assert(earlier == words[0]);
        }
    }
}

/// A sender is accepted exactly if it is a bus name.
pub proof fn law_senders_are_bus_names(sender: Seq<char>)
    ensures
        sender_verdict(sender) is Ok <==> is_bus_name(sender),
        !is_bus_name(sender) ==> sender_verdict(sender) == Err::<(), Refusal>(
            Refusal::Failed("unusable sender name: "@ + no_bus_name()),
        ),
{
}

/// The number on the first line that starts with `Pid:` is the process's,
/// whatever stands on the other lines.
pub proof fn law_the_number_on_the_pid_line_is_read(
    before: Seq<char>,
    white: Seq<char>,
    n: u32,
    rest: Seq<char>,
)
    requires
        is_blank(white),
        !white.contains('\n'),
        n > 0,
        !before.contains('\n'),
        before.len() < 4 || before.take(4) != seq!['P', 'i', 'd', ':'],
        !(before.len() > 0 && before.last() == '\r'),
    ensures
        described_pid(pid_line(white, n) + rest) == Some(n),
        described_pid(before.push('\n') + pid_line(white, n) + rest) == Some(n),
{
    let number = decimal(n as nat);
    let line = seq!['P', 'i', 'd', ':'] + white + number;
    reveal_strlit("Pid:");
    assert("Pid:"@ =~= seq!['P', 'i', 'd', ':']);
    law_numbers_read_back(n as nat);
    assert(!line.contains('\n')) by {
        if line.contains('\n') {
            let i = choose|i: int| 0 <= i < line.len() && line[i] == '\n';
            let a = 4 + white.len();
            if i >= a {
                assert(is_digit(number[i - a]));
            } else if i >= 4 {
                assert(white[i - 4] == '\n');
            }
        }
    }
    assert(line.last() == number.last());
    assert(is_digit(number[number.len() - 1]));
    law_lines_end_at_newlines(line, rest);
    assert(pid_line(white, n) + rest =~= line.push('\n') + rest);
    let here = lines(line.push('\n') + rest);
    assert(here[0] == line);
    assert("Pid:"@ =~= line.subrange(0, 4));
    assert(line.skip(4) =~= white + number + Seq::<char>::empty());
    assert(is_digit(number[0]));
    law_trimming_takes_off_what_is_around(white, number, Seq::empty());
    assert(integer(number) == Some(n as int));
    assert(described_pid(pid_line(white, n) + rest) == Some(n));
    law_lines_end_at_newlines(before, line.push('\n') + rest);
    assert(before.push('\n') + pid_line(white, n) + rest =~= before.push('\n') + (line.push('\n')
        + rest));
    let all = lines(before.push('\n') + (line.push('\n') + rest));
    assert(all =~= seq![before] + here);
    assert(all.skip(1) =~= here);
    assert(!"Pid:"@.is_prefix_of(before)) by {
        if "Pid:"@.is_prefix_of(before) {
            assert(before.take(4) =~= before.subrange(0, 4));
        }
    }
}

/// The line that gives a process's number.
pub open spec fn pid_line(white: Seq<char>, n: u32) -> Seq<char> {
    seq!['P', 'i', 'd', ':'] + white + decimal(n as nat) + seq!['\n']
}

/// Whether a line starts with `Pid:`.
pub open spec fn is_pid_line(line: Seq<char>) -> bool {
    line.len() >= 4 && line.take(4) == seq!['P', 'i', 'd', ':']
}

proof fn lemma_pid_field(all: Seq<Seq<char>>, i: int)
    requires
        0 <= i <= all.len(),
        forall|k: int| 0 <= k < i ==> !is_pid_line(#[trigger] all[k]),
    ensures
        pid_field(all) == pid_field(all.skip(i)),
    decreases i,
{
    if i == 0 {
        assert(all.skip(0) =~= all);
    } else {
        lemma_pid_field(all, i - 1);
        let rest = all.skip(i - 1);
        assert(rest[0] == all[i - 1]);
        assert(rest.skip(1) =~= all.skip(i));
        lemma_pid_line(all[i - 1]);
    }
}

proof fn lemma_pid_line(line: Seq<char>)
    ensures
        "Pid:"@.is_prefix_of(line) <==> is_pid_line(line),
{
    reveal_strlit("Pid:");
    assert("Pid:"@ =~= seq!['P', 'i', 'd', ':']);
    if line.len() >= 4 {
        assert(line.take(4) =~= line.subrange(0, 4));
    }
}

/// The first line that starts with `Pid:` decides, wherever it stands: it
/// gives the number of a living process, or there is none.
pub proof fn law_the_first_pid_line_decides(content: Seq<char>, i: int, n: int)
    requires
        0 <= i < lines(content).len(),
        is_pid_line(lines(content)[i]),
        forall|k: int| 0 <= k < i ==> !is_pid_line(#[trigger] lines(content)[k]),
        integer(trim(lines(content)[i].skip(4))) == Some(n),
    ensures
        0 < n <= u32::MAX ==> described_pid(content) == Some(n as u32),
        !(0 < n <= u32::MAX) ==> described_pid(content) is None,
{
    let all = lines(content);
    lemma_pid_field(all, i);
    assert(all.skip(i)[0] == all[i]);
    lemma_pid_line(all[i]);
}

/// Where no line starts with `Pid:`, or what follows is no number, no process
/// is named.
pub proof fn law_without_a_number_no_process_is_named(content: Seq<char>, i: int)
    requires
        0 <= i <= lines(content).len(),
        forall|k: int| 0 <= k < i ==> !is_pid_line(#[trigger] lines(content)[k]),
        i < lines(content).len() ==> is_pid_line(lines(content)[i]) && integer(
            trim(lines(content)[i].skip(4)),
        ) is None,
    ensures
        described_pid(content) is None,
{
    let all = lines(content);
    lemma_pid_field(all, i);
    if i < all.len() {
        assert(all.skip(i)[0] == all[i]);
        lemma_pid_line(all[i]);
    } else {
        assert(all.skip(i) =~= Seq::<Seq<char>>::empty());
    }
}

/// A process is confirmed exactly if both readings name it.
pub proof fn law_both_readings_must_agree(before: Option<u32>, after: Option<u32>, pid: u32)
    ensures
        confirmed(before, after) == Some(pid) <==> before == Some(pid) && after == Some(pid),
{
}

/// Answers are seen as the words that they carry.
pub proof fn law_answers_show_their_words(why: String, text: String)
    ensures
        BridgeError::Failed(why)@ == Refusal::Failed(why@),
        BridgeError::AccessDenied(why)@ == Refusal::AccessDenied(why@),
        answer(Ok(())) == Ok::<(), Refusal>(()),
        answer(Err(BridgeError::Failed(why))) == Err::<(), Refusal>(Refusal::Failed(why@)),
        answer(Err(BridgeError::AccessDenied(why))) == Err::<(), Refusal>(
            Refusal::AccessDenied(why@),
        ),
        text_answer(Ok(text)) == Ok::<Seq<char>, Seq<char>>(text@),
        text_answer(Err(why)) == Err::<Seq<char>, Seq<char>>(why@),
{
}

} // verus!
