//! What holds of the mount table, stated of its bytes, its fields and its
//! entries.
use vstd::prelude::*;
#[allow(unused_imports)]
use vstd::utf8::{
    decode_utf8, encode_utf8, encode_utf8_decode_utf8, encode_utf8_valid_utf8, valid_utf8,
};

#[allow(unused_imports)]
use crate::mountinfo::{
    appeared, conforms, connection_number, connections_between, entries, entry_key, fuse_keys_in,
    is_fuse, is_separator, line_entries, line_entry, may_be_stray, octal, optional_entry,
    optional_views, parsed, publishes_connections, stray_places, text_of, topmost, unescaped,
    unescaped_text, utf8_lossy, Entry, MountEntry,
};
#[allow(unused_imports)]
use crate::path::same_place;
#[allow(unused_imports)]
use crate::text::{join, law_split_undoes_join, lines, split, views};
#[allow(unused_imports)]
use crate::text_laws::{law_lines_end_at_newlines, law_splitting_goes_side_by_side};

verus! {

/// An entry is seen as what its fields hold.
pub proof fn law_entries_show_their_fields(entry: MountEntry, table: Seq<MountEntry>)
    ensures
        entry@.id == entry.id@,
        entry@.device == entry.device@,
        entry@.mount_point == entry.mount_point@,
        entry@.fstype == entry.fstype@,
        entry@.source == entry.source@,
        optional_entry(Some(entry)) == Some(entry@),
        optional_entry(None) is None,
        entries(table).len() == table.len(),
        forall|i: int| 0 <= i < table.len() ==> #[trigger] entries(table)[i] == table[i]@,
{
}

/// Whether a byte is an octal digit.
pub open spec fn is_octal_digit(b: u8) -> bool {
    48 <= b && b <= 55
}

/// A backslash and three octal digits stand for the byte that the digits
/// write, wherever they stand.
pub proof fn law_an_escape_stands_for_its_byte(a: u8, b: u8, c: u8, rest: Seq<u8>)
    requires
        48 <= a && a <= 51,
        is_octal_digit(b),
        is_octal_digit(c),
    ensures
        unescaped(seq![92u8, a, b, c] + rest) == seq![
            ((a - 48) * 64 + (b - 48) * 8 + (c - 48)) as u8,
        ] + unescaped(rest),
{
    let all = seq![92u8, a, b, c] + rest;
    assert(all.skip(4) =~= rest);
    assert(64 * (a - 48) + 8 * (b - 48) + (c - 48) == (a - 48) * 64 + (b - 48) * 8 + (c - 48))
        by (nonlinear_arith);
}

/// A byte that is no backslash stands for itself, and so does a backslash
/// that no three digits follow; two digits behind a plus sign count as three.
pub proof fn law_what_is_no_escape_stays(b: u8, rest: Seq<u8>)
    requires
        b == 92 ==> rest.len() < 3 || !is_octal_digit(rest[1]) || !is_octal_digit(rest[2]) || (
        rest[0] != 43 && !(48 <= rest[0] && rest[0] <= 51)),
    ensures
        unescaped(seq![b] + rest) == seq![b] + unescaped(rest),
        unescaped(Seq::empty()) == Seq::<u8>::empty(),
{
    let all = seq![b] + rest;
    assert(all.skip(1) =~= rest);
    if rest.len() >= 3 {
        assert(all[1] == rest[0] && all[2] == rest[1] && all[3] == rest[2]);
    }
    assert(unescaped(Seq::<u8>::empty()) =~= Seq::<u8>::empty());
}

/// A plus sign in front of two digits is the sign of their number.
pub proof fn law_a_signed_escape_stands_for_its_byte(b: u8, c: u8, rest: Seq<u8>)
    requires
        is_octal_digit(b),
        is_octal_digit(c),
    ensures
        unescaped(seq![92u8, 43u8, b, c] + rest) == seq![((b - 48) * 8 + (c - 48)) as u8]
            + unescaped(rest),
{
    let all = seq![92u8, 43u8, b, c] + rest;
    assert(all.skip(4) =~= rest);
}

/// Bytes that encode a text are that text, and undoing the escapes of a text
/// is undoing those of its bytes.
pub proof fn law_bytes_are_the_text_they_encode(s: Seq<char>, bytes: Seq<u8>)
    ensures
        text_of(encode_utf8(s)) == s,
        valid_utf8(bytes) ==> text_of(bytes) == decode_utf8(bytes),
        !valid_utf8(bytes) ==> text_of(bytes) == utf8_lossy(bytes),
        unescaped_text(s) == text_of(unescaped(encode_utf8(s))),
{
    encode_utf8_valid_utf8(s);
    encode_utf8_decode_utf8(s);
}

/// Whether the first lone dash among fields stands here.
pub open spec fn is_first_dash(fields: Seq<Seq<char>>, at: int) -> bool {
    &&& 0 <= at < fields.len()
    &&& fields[at] == seq!['-']
    &&& forall|k: int| 0 <= k < at ==> #[trigger] fields[k] != seq!['-']
}

/// Whether fields can stand on one line.
pub open spec fn fit_on_a_line(fields: Seq<Seq<char>>) -> bool {
    &&& fields.len() > 0
    &&& forall|i: int|
        0 <= i < fields.len() ==> !(#[trigger] fields[i]).contains(' ') && !fields[i].contains('\n')
    &&& !(join(fields, seq![' ']).len() > 0 && join(fields, seq![' ']).last() == '\r')
}

proof fn lemma_line_of_fields(fields: Seq<Seq<char>>)
    requires
        fit_on_a_line(fields),
    ensures
        lines(join(fields, seq![' ']).push('\n')) == seq![join(fields, seq![' '])],
        split(join(fields, seq![' ']), ' ') == fields,
{
    let line = join(fields, seq![' ']);
    let empty = Seq::<char>::empty();
    law_split_undoes_join(fields, ' ');
    assert(!seq![' '].contains('\n'));
    crate::mount_table::lemma_join_holds(fields, seq![' '], '\n');
    law_lines_end_at_newlines(line, empty);
    assert(line.push('\n') + empty =~= line.push('\n'));
    assert(seq![line] + Seq::<Seq<char>>::empty() =~= seq![line]);
}

/// A line of at least ten fields, whose first lone dash is not among the first
/// six and has two fields behind it, is read as a mount by the place of its
/// fields: number, device and mountpoint are the first, the third and the
/// fifth, and type and source follow the dash. Any other line is skipped.
pub proof fn law_a_line_is_read_by_its_fields(fields: Seq<Seq<char>>, at: int)
    requires
        fit_on_a_line(fields),
        is_first_dash(fields, at),
    ensures
        parsed(join(fields, seq![' ']).push('\n')) == (if fields.len() >= 10 && at >= 6
            && fields.len() > at + 2 {
            seq![
                Entry {
                    id: fields[0],
                    device: fields[2],
                    mount_point: unescaped_text(fields[4]),
                    fstype: fields[at + 1],
                    source: unescaped_text(fields[at + 2]),
                },
            ]
        } else {
            Seq::<Entry>::empty()
        }),
{
    reveal_strlit("-");
    assert("-"@ =~= seq!['-']);
    let line = join(fields, seq![' ']);
    lemma_line_of_fields(fields);
    assert(is_separator(fields, at));
    assert forall|k: int| #[trigger] is_separator(fields, k) implies k == at by {
        if k < at {
            assert(fields[k] != seq!['-']);
        } else if at < k {
            assert(fields[at] != "-"@);
        }
    }
    let all = seq![line];
    assert(all.last() == line);
    assert(all.drop_last() =~= Seq::<Seq<char>>::empty());
    assert(line_entries(Seq::<Seq<char>>::empty()) =~= Seq::<Entry>::empty());
    if fields.len() >= 10 && at >= 6 && fields.len() > at + 2 {
        assert(conforms(line));
        assert(line_entries(all) =~= seq![line_entry(line)]);
    } else {
        assert(!conforms(line));
        assert(line_entries(all) =~= Seq::<Entry>::empty());
    }
}

/// A line without a lone dash is skipped.
pub proof fn law_a_line_without_a_dash_is_skipped(fields: Seq<Seq<char>>)
    requires
        fit_on_a_line(fields),
        forall|k: int| 0 <= k < fields.len() ==> #[trigger] fields[k] != seq!['-'],
    ensures
        parsed(join(fields, seq![' ']).push('\n')) == Seq::<Entry>::empty(),
{
    reveal_strlit("-");
    assert("-"@ =~= seq!['-']);
    let line = join(fields, seq![' ']);
    lemma_line_of_fields(fields);
    assert forall|k: int| !(#[trigger] is_separator(fields, k)) by {
        if 0 <= k < fields.len() {
            assert(fields[k] != seq!['-']);
        }
    }
    assert(!conforms(line));
    let all = seq![line];
    assert(all.last() == line);
    assert(all.drop_last() =~= Seq::<Seq<char>>::empty());
    assert(line_entries(Seq::<Seq<char>>::empty()) =~= Seq::<Entry>::empty());
    assert(line_entries(all) =~= Seq::<Entry>::empty());
}

/// A table without lines has no entries.
pub proof fn law_an_empty_table_has_no_entries(place: Seq<char>)
    ensures
        parsed(Seq::empty()) == Seq::<Entry>::empty(),
        topmost(Seq::empty(), place) is None,
{
    law_lines_end_at_newlines(Seq::empty(), Seq::empty());
    assert(parsed(Seq::<char>::empty()) =~= Seq::<Entry>::empty());
}

/// Of all mounts at a place, however its path is written, the last is found,
/// and mounts at other places are passed over.
pub proof fn law_the_last_mount_at_a_place_is_found(
    table: Seq<Entry>,
    entry: Entry,
    others: Seq<Entry>,
    place: Seq<char>,
)
    requires
        same_place(entry.mount_point, place),
        forall|i: int| 0 <= i < others.len() ==> !same_place((#[trigger] others[i]).mount_point, place),
    ensures
        topmost(table.push(entry) + others, place) == Some(entry),
    decreases others.len(),
{
    let all = table.push(entry) + others;
    if others.len() == 0 {
        assert(all.last() == entry);
    } else {
        let front = others.drop_last();
        assert forall|i: int| 0 <= i < front.len() implies !same_place(
            (#[trigger] front[i]).mount_point,
            place,
        ) by {
            assert(front[i] == others[i]);
        }
        law_the_last_mount_at_a_place_is_found(table, entry, front, place);
        assert(all.drop_last() =~= table.push(entry) + front);
        assert(all.last() == others[others.len() - 1]);
    }
}

/// A filesystem is FUSE's exactly if its type starts with the letters `fuse`,
/// whatever follows them.
pub proof fn law_fuse_types_start_with_fuse(fstype: Seq<char>)
    ensures
        is_fuse(fstype) <==> fstype.len() >= 4 && fstype[0] == 'f' && fstype[1] == 'u' && fstype[2]
            == 's' && fstype[3] == 'e',
{
    reveal_strlit("fuse");
    if is_fuse(fstype) {
        assert("fuse"@ == fstype.subrange(0, 4));
        assert(fstype[0] == "fuse"@[0] && fstype[1] == "fuse"@[1] && fstype[2] == "fuse"@[2]
            && fstype[3] == "fuse"@[3]);
    }
    if fstype.len() >= 4 && fstype[0] == 'f' && fstype[1] == 'u' && fstype[2] == 's' && fstype[3]
        == 'e' {
        assert("fuse"@ =~= fstype.subrange(0, 4));
    }
}

/// What a mount is recognised by is its number, a space and its place.
pub proof fn law_a_key_is_written_from_number_and_place(entry: Entry)
    ensures
        entry_key(entry) == entry.id + seq![' '] + entry.mount_point,
{
    reveal_strlit(" ");
    assert(" "@ =~= seq![' ']);
}

/// A connection has the minor number of its mount's device.
pub proof fn law_a_connection_is_the_minor_number(
    entry: Entry,
    major: Seq<char>,
    minor: Seq<char>,
)
    requires
        !major.contains(':'),
        !minor.contains(':'),
        entry.device == major.push(':') + minor || entry.device == major,
    ensures
        entry.device == major.push(':') + minor ==> connection_number(entry) == minor,
        entry.device == major ==> connection_number(entry) == Seq::<char>::empty(),
{
    law_splitting_goes_side_by_side(major, minor, ':');
    law_splitting_goes_side_by_side(minor, minor, ':');
    if entry.device == major.push(':') + minor {
        assert(split(entry.device, ':') =~= seq![major, minor]);
    }
    if entry.device == major {
        assert(split(entry.device, ':') == seq![major]);
    }
}

/// Whatever a device's number is made of, the second part of it counts, and
/// without one there is no connection.
pub proof fn law_the_second_part_of_a_device_counts(entry: Entry, parts: Seq<Seq<char>>)
    requires
        parts.len() > 0,
        forall|i: int| 0 <= i < parts.len() ==> !(#[trigger] parts[i]).contains(':'),
        entry.device == join(parts, seq![':']),
    ensures
        parts.len() > 1 ==> connection_number(entry) == parts[1],
        parts.len() == 1 ==> connection_number(entry) == Seq::<char>::empty(),
{
    law_split_undoes_join(parts, ':');
}

/// A mount may be the operation's, gone astray, exactly if it is a FUSE mount
/// whose number and place were not both there before, is not on the approved
/// directory, and is on a connection that appeared meanwhile where those are
/// known.
pub proof fn law_a_stray_is_a_new_fuse_mount_elsewhere(
    entry: Entry,
    approved: Seq<char>,
    before: Seq<Seq<char>>,
    fresh: Seq<Seq<char>>,
)
    ensures
        may_be_stray(entry, approved, before, None) <==> is_fuse(entry.fstype) && !before.contains(
            entry.id + seq![' '] + entry.mount_point,
        ) && !same_place(entry.mount_point, approved),
        may_be_stray(entry, approved, before, Some(fresh)) <==> may_be_stray(
            entry,
            approved,
            before,
            None,
        ) && fresh.contains(connection_number(entry)),
{
    law_a_key_is_written_from_number_and_place(entry);
}

/// Strays, keys and new connections are picked out of a list entry by entry,
/// in order.
pub proof fn law_picking_goes_entry_by_entry(
    table: Seq<Entry>,
    entry: Entry,
    approved: Seq<char>,
    before: Seq<Seq<char>>,
    ours: Option<Seq<Seq<char>>>,
    now: Seq<Seq<char>>,
    number: Seq<char>,
)
    ensures
        stray_places(Seq::empty(), approved, before, ours) == Seq::<Seq<char>>::empty(),
        stray_places(table.push(entry), approved, before, ours) == stray_places(
            table,
            approved,
            before,
            ours,
        ) + (if may_be_stray(entry, approved, before, ours) {
            seq![entry.mount_point]
        } else {
            Seq::empty()
        }),
        fuse_keys_in(Seq::empty()) == Seq::<Seq<char>>::empty(),
        fuse_keys_in(table.push(entry)) == fuse_keys_in(table) + (if is_fuse(entry.fstype) {
            seq![entry.id + seq![' '] + entry.mount_point]
        } else {
            Seq::empty()
        }),
        appeared(before, Seq::empty()) == Seq::<Seq<char>>::empty(),
        appeared(before, now.push(number)) == appeared(before, now) + (if before.contains(number) {
            Seq::empty()
        } else {
            seq![number]
        }),
{
    law_a_key_is_written_from_number_and_place(entry);
    assert(table.push(entry).drop_last() =~= table);
    assert(table.push(entry).last() == entry);
    assert(now.push(number).drop_last() =~= now);
    assert(now.push(number).last() == number);
    assert(stray_places(table.push(entry), approved, before, ours) =~= stray_places(
        table,
        approved,
        before,
        ours,
    ) + (if may_be_stray(entry, approved, before, ours) {
        seq![entry.mount_point]
    } else {
        Seq::empty()
    }));
    assert(fuse_keys_in(table.push(entry)) =~= fuse_keys_in(table) + (if is_fuse(entry.fstype) {
        seq![entry.id + seq![' '] + entry.mount_point]
    } else {
        Seq::empty()
    }));
    assert(appeared(before, now.push(number)) =~= appeared(before, now) + (if before.contains(
        number,
    ) {
        Seq::empty()
    } else {
        seq![number]
    }));
}

/// New connections are told exactly if both readings were to be had.
pub proof fn law_new_connections_need_both_readings(
    then: Seq<Seq<char>>,
    now: Seq<Seq<char>>,
    list: Vec<String>,
)
    ensures
        connections_between(Some(then), Some(now)) == Some(appeared(then, now)),
        connections_between(None, Some(now)) is None,
        connections_between(Some(then), None) is None,
        connections_between(None, None) is None,
        optional_views(Some(list)) == Some(views(list@)),
        optional_views(None) is None,
{
}

/// The kernel publishes its connections exactly if the topmost mount on their
/// directory is `fusectl`'s, and only then does a listing of it count.
pub proof fn law_connections_are_published_by_fusectl(
    table: Seq<Entry>,
    entry: Entry,
    listing: Option<Seq<Seq<char>>>,
)
    ensures
        same_place(entry.mount_point, "/sys/fs/fuse/connections"@) ==> (publishes_connections(
            table.push(entry),
        ) <==> entry.fstype == "fusectl"@),
        !same_place(entry.mount_point, "/sys/fs/fuse/connections"@) ==> (publishes_connections(
            table.push(entry),
        ) <==> publishes_connections(table)),
        !publishes_connections(Seq::empty()),
        publishes_connections(table) ==> crate::mountinfo::published(table, listing) == listing,
        !publishes_connections(table) ==> crate::mountinfo::published(table, listing) is None,
{
    assert(table.push(entry).last() == entry);
    assert(table.push(entry).drop_last() =~= table);
}

} // verus!
