//! Identifying a sandboxed application by the `.flatpak-info` file at the
//! root of its mount namespace.
use vstd::prelude::*;

use crate::text::{lines_of, same_text, skip_chars, starts_with, trim_text};
#[allow(unused_imports)]
use crate::text::{lines, optional_text, trim, views};

verus! {

/// The lines of a file, each without the white space around it.
pub open spec fn trimmed_lines(content: Seq<char>) -> Seq<Seq<char>> {
    lines(content).map_values(|line: Seq<char>| trim(line))
}

/// Whether a line opens a section.
pub open spec fn is_header(line: Seq<char>) -> bool {
    line.len() > 0 && line[0] == '['
}

/// The section that is open at the end of these lines: the last header, or
/// nothing where there is none yet.
pub open spec fn open_section(all: Seq<Seq<char>>) -> Seq<char>
    decreases all.len(),
{
    if all.len() == 0 {
        Seq::empty()
    } else if is_header(all.last()) {
        all.last()
    } else {
        open_section(all.drop_last())
    }
}

/// Whether a line gives a name.
pub open spec fn gives_name(line: Seq<char>) -> bool {
    !is_header(line) && "name="@.is_prefix_of(line)
}

/// The name a line gives.
pub open spec fn given_name(line: Seq<char>) -> Seq<char> {
    trim(line.skip("name="@.len() as int))
}

/// The names given in sections headed `header`, in order.
pub open spec fn names_in(all: Seq<Seq<char>>, header: Seq<char>) -> Seq<Seq<char>>
    decreases all.len(),
{
    if all.len() == 0 {
        Seq::empty()
    } else {
        let before = names_in(all.drop_last(), header);
        if gives_name(all.last()) && open_section(all.drop_last()) == header {
            before.push(given_name(all.last()))
        } else {
            before
        }
    }
}

/// The id that a `.flatpak-info` file gives: the first name in an
/// application section; failing that, the last one in a runtime section.
pub open spec fn app_id_in(content: Seq<char>) -> Option<Seq<char>> {
    let all = trimmed_lines(content);
    let applications = names_in(all, "[Application]"@);
    let runtimes = names_in(all, "[Runtime]"@);
    if applications.len() > 0 {
        Some(applications[0])
    } else if runtimes.len() > 0 {
        Some(runtimes.last())
    } else {
        None
    }
}

/// Names found stay found as more lines follow.
pub proof fn lemma_names_grow(all: Seq<Seq<char>>, n: int, header: Seq<char>)
    requires
        0 <= n <= all.len(),
    ensures
        names_in(all.take(n), header).is_prefix_of(names_in(all, header)),
    decreases all.len() - n,
{
    if n == all.len() {
        assert(all.take(n) == all);
    } else {
        lemma_names_grow(all, n + 1, header);
        assert(all.take(n + 1).drop_last() == all.take(n));
        let near = names_in(all.take(n), header);
        let next = names_in(all.take(n + 1), header);
        let end = names_in(all, header);
        assert forall|i: int| 0 <= i < near.len() implies near[i] == end[i] by {
            assert(next[i] == near[i]);
            assert(end.subrange(0, next.len() as int)[i] == end[i]);
        }
        assert(near =~= end.subrange(0, near.len() as int));
    }
}

/// Extracts the application id from the content of `.flatpak-info`
/// (`[Application] name=`). A shell in a bare runtime carries `[Runtime]`
/// instead: still a sandboxed instance, so its name is accepted as the id.
pub fn parse_app_id(content: &str) -> (id: Option<String>)
    ensures
        optional_text(id) == app_id_in(content@),
{
    let all = lines_of(content);
    let ghost texts = trimmed_lines(content@);
    let mut section = String::new();
    let mut runtime_name: Option<String> = None;
    let mut i: usize = 0;
    proof {
        reveal_strlit("[");
        reveal_strlit("name=");
    }
    while i < all.len()
        invariant
            i <= all.len(),
            views(all@) == lines(content@),
            texts == trimmed_lines(content@),
            section@ == open_section(texts.take(i as int)),
            names_in(texts.take(i as int), "[Application]"@).len() == 0,
            match runtime_name {
                Some(name) => {
                    &&& names_in(texts.take(i as int), "[Runtime]"@).len() > 0
                    &&& names_in(texts.take(i as int), "[Runtime]"@).last() == name@
                },
                None => names_in(texts.take(i as int), "[Runtime]"@).len() == 0,
            },
            "["@.len() == 1,
            "["@[0] == '[',
            "name="@.len() == 5,
        decreases all.len() - i,
    {
        let line = trim_text(all[i].as_str());
        proof {
            assert(views(all@)[i as int] == all@[i as int]@);
            assert(texts[i as int] == line@);
            assert(texts.take(i as int + 1).drop_last() == texts.take(i as int));
            assert(texts.take(i as int + 1).last() == line@);
            if "["@.is_prefix_of(line@) {
                assert(line@.subrange(0, 1)[0] == line@[0]);
            }
            if is_header(line@) {
                assert("["@ =~= line@.subrange(0, 1));
            }
        }
        if starts_with(line.as_str(), "[") {
            section = line;
        } else if starts_with(line.as_str(), "name=") {
            let value = skip_chars(line.as_str(), 5);
            let name = trim_text(value.as_str());
            if same_text(section.as_str(), "[Application]") {
                proof {
                    let found = names_in(texts.take(i as int + 1), "[Application]"@);
                    assert(found[0] == name@);
                    lemma_names_grow(texts, i as int + 1, "[Application]"@);
                    assert(names_in(texts, "[Application]"@).subrange(0, 1)[0] == names_in(
                        texts,
                        "[Application]"@,
                    )[0]);
                }
                return Some(name);
            } else if same_text(section.as_str(), "[Runtime]") {
                runtime_name = Some(name);
            }
        }
        i += 1;
    }
    assert(texts.take(i as int) == texts);
    runtime_name
}

/// What came of reading a process's `.flatpak-info`.
#[derive(Debug)]
pub enum InfoReading {
    Content(String),
    /// There is no such file, so the process is not in a Flatpak sandbox.
    Missing,
    Failed(String),
}

/// Who a process is.
pub ghost enum Identification {
    Application(Seq<char>),
    Unsandboxed,
    Unreadable(Seq<char>),
}

/// Who a process is according to its `.flatpak-info`. A sandboxed process
/// whose file gives no name is still a sandboxed one.
pub open spec fn identity_in(info: InfoReading) -> Identification {
    match info {
        InfoReading::Content(content) => match app_id_in(content@) {
            Some(id) => Identification::Application(id),
            None => Identification::Application("unknown"@),
        },
        InfoReading::Missing => Identification::Unsandboxed,
        InfoReading::Failed(e) => Identification::Unreadable(e@),
    }
}

/// The application that a process is: `Ok(None)` when it is not in a Flatpak
/// sandbox, `Err` when its file could not be read.
pub fn app_id_of_pid(info: &InfoReading) -> (id: Result<Option<String>, String>)
    ensures
        match id {
            Ok(Some(name)) => identity_in(*info) == Identification::Application(name@),
            Ok(None) => identity_in(*info) == Identification::Unsandboxed,
            Err(e) => identity_in(*info) == Identification::Unreadable(e@),
        },
{
    match info {
        InfoReading::Content(content) => match parse_app_id(content.as_str()) {
            Some(id) => Ok(Some(id)),
            None => Ok(Some("unknown".to_owned())),
        },
        InfoReading::Missing => Ok(None),
        InfoReading::Failed(e) => Err(e.clone()),
    }
}

/// Whether a line gives a name inside a section headed `header`: the last
/// header in front of it is that one.
pub open spec fn names_at(all: Seq<Seq<char>>, at: int, header: Seq<char>) -> bool {
    0 <= at < all.len() && gives_name(all[at]) && open_section(all.take(at)) == header
}

/// Whether a line gives a name that can be an id.
pub open spec fn gives_id(all: Seq<Seq<char>>, at: int, id: Seq<char>) -> bool {
    &&& names_at(all, at, "[Application]"@) || names_at(all, at, "[Runtime]"@)
    &&& given_name(all[at]) == id
}

/// Every name counted for a section stands in that section.
pub proof fn lemma_names_stand_in_section(all: Seq<Seq<char>>, header: Seq<char>, i: int) -> (at: int)
    requires
        0 <= i < names_in(all, header).len(),
    ensures
        names_at(all, at, header),
        given_name(all[at]) == names_in(all, header)[i],
    decreases all.len(),
{
    let front = all.drop_last();
    let before = names_in(front, header);
    if i < before.len() {
        let at = lemma_names_stand_in_section(front, header, i);
        assert(front.take(at) == all.take(at));
        at
    } else {
        assert(all.take(all.len() - 1) == front);
        all.len() - 1
    }
}

/// An id is only ever a name that stands under an application's or a
/// runtime's own header: names in other sections are no identity.
pub proof fn law_ids_come_from_their_sections(content: Seq<char>, id: Seq<char>)
    requires
        app_id_in(content) == Some(id),
    ensures
        exists|at: int| #[trigger] gives_id(trimmed_lines(content), at, id),
{
    let all = trimmed_lines(content);
    let applications = names_in(all, "[Application]"@);
    let runtimes = names_in(all, "[Runtime]"@);
    if applications.len() > 0 {
        let at = lemma_names_stand_in_section(all, "[Application]"@, 0);
        assert(gives_id(trimmed_lines(content), at, id));
    } else if runtimes.len() > 0 {
        let at = lemma_names_stand_in_section(all, "[Runtime]"@, runtimes.len() - 1);
        assert(gives_id(trimmed_lines(content), at, id));
    }
}

/// A name given for an application wins over every runtime's, wherever the
/// two stand.
pub proof fn law_application_wins_over_runtime(content: Seq<char>)
    requires
        names_in(trimmed_lines(content), "[Application]"@).len() > 0,
    ensures
        app_id_in(content) == Some(names_in(trimmed_lines(content), "[Application]"@)[0]),
{
}

} // verus!
