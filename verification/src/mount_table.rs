//! What holds of the mount table as a whole: that reading it gives back what
//! the kernel wrote, that it is read line by line, which of several mounts
//! at one place is found, and how a mount is told from another.
use vstd::prelude::*;
#[allow(unused_imports)]
use vstd::utf8::{
    decode_utf8, encode_scalar, encode_utf8, encode_utf8_decode_utf8, encode_utf8_valid_utf8,
    valid_utf8,
};

#[allow(unused_imports)]
use crate::mountinfo::{
    appeared, conforms, entry_key, fuse_keys_in, is_fuse, is_separator, line_entries, line_entry,
    may_be_stray, octal, parsed, stray_places, topmost, unescaped, unescaped_text, Entry,
};
#[allow(unused_imports)]
use crate::path::same_place;
#[allow(unused_imports)]
use crate::text::{join, law_split_undoes_join, lines, split, without_return};

verus! {

/// How the kernel writes one character into the table.
pub open spec fn escaped_char(c: char) -> Seq<char> {
    if c == ' ' {
        seq!['\\', '0', '4', '0']
    } else if c == '\t' {
        seq!['\\', '0', '1', '1']
    } else if c == '\n' {
        seq!['\\', '0', '1', '2']
    } else if c == '\\' {
        seq!['\\', '1', '3', '4']
    } else {
        seq![c]
    }
}

/// How the kernel writes a text into the table.
pub open spec fn escaped(s: Seq<char>) -> Seq<char>
    decreases s.len(),
{
    if s.len() == 0 {
        Seq::empty()
    } else {
        escaped_char(s[0]) + escaped(s.drop_first())
    }
}

/// Encoding goes piece by piece.
proof fn lemma_encode_concat(a: Seq<char>, b: Seq<char>)
    ensures
        encode_utf8(a + b) == encode_utf8(a) + encode_utf8(b),
    decreases a.len(),
{
    if a.len() == 0 {
        assert(a + b == b);
        assert(encode_utf8(a) + encode_utf8(b) == encode_utf8(b));
    } else {
        lemma_encode_concat(a.drop_first(), b);
        assert((a + b).drop_first() == a.drop_first() + b);
        assert(encode_utf8(a + b) == encode_scalar(a[0] as u32) + (encode_utf8(a.drop_first())
            + encode_utf8(b)));
        assert(encode_utf8(a + b) == encode_utf8(a) + encode_utf8(b));
    }
}

/// Whether bytes hold no backslash.
spec fn plain(bytes: Seq<u8>) -> bool {
    forall|i: int| 0 <= i < bytes.len() ==> bytes[i] != 0x5c
}

/// Only a backslash has a backslash in its encoding.
proof fn lemma_no_backslash(c: char)
    requires
        c != '\\',
    ensures
        plain(encode_scalar(c as u32)),
{
    let v = c as u32;
    assert(v != 0x5c);
    assert(v <= 0x7f && v != 0x5c ==> (v & 0x7f) as u8 != 0x5c) by (bit_vector);
    assert(0xC0 | ((v >> 6) & 0x1F) as u8 != 0x5c) by (bit_vector);
    assert(0xE0 | ((v >> 12) & 0x0F) as u8 != 0x5c) by (bit_vector);
    assert(0xF0 | ((v >> 18) & 0x7) as u8 != 0x5c) by (bit_vector);
    assert(0x80 | (v & 0x3F) as u8 != 0x5c) by (bit_vector);
    assert(0x80 | ((v >> 6) & 0x3F) as u8 != 0x5c) by (bit_vector);
    assert(0x80 | ((v >> 12) & 0x3F) as u8 != 0x5c) by (bit_vector);
}

/// Bytes without a backslash come through as they are.
proof fn lemma_plain_bytes(front: Seq<u8>, rest: Seq<u8>)
    requires
        plain(front),
    ensures
        unescaped(front + rest) == front + unescaped(rest),
    decreases front.len(),
{
    if front.len() == 0 {
        assert(front + rest == rest);
        assert(front + unescaped(rest) == unescaped(rest));
    } else {
        let tail = front.skip(1);
        assert forall|i: int| 0 <= i < tail.len() implies tail[i] != 0x5c by {
            assert(tail[i] == front[i + 1]);
        }
        lemma_plain_bytes(tail, rest);
        assert((front + rest).skip(1) == tail + rest);
        assert(seq![front[0]] + (tail + unescaped(rest)) == front + unescaped(rest));
    }
}

/// What an escaped ASCII character encodes to.
proof fn lemma_encode_ascii4(a: char, b: char, c: char, d: char)
    requires
        a <= '\u{7f}',
        b <= '\u{7f}',
        c <= '\u{7f}',
        d <= '\u{7f}',
    ensures
        encode_utf8(seq![a, b, c, d]) == seq![a as u8, b as u8, c as u8, d as u8],
{
    vstd::utf8::is_ascii_chars_encode_utf8(seq![a, b, c, d]);
    assert(encode_utf8(seq![a, b, c, d]) =~= seq![a as u8, b as u8, c as u8, d as u8]) by {
        let s = seq![a, b, c, d];
        assert(s[0] as u8 == encode_utf8(s)[0]);
        assert(s[1] as u8 == encode_utf8(s)[1]);
        assert(s[2] as u8 == encode_utf8(s)[2]);
        assert(s[3] as u8 == encode_utf8(s)[3]);
    }
}

proof fn lemma_encode_one(c: char)
    ensures
        encode_utf8(seq![c]) == encode_scalar(c as u32),
{
    assert(seq![c].drop_first() == Seq::<char>::empty());
    assert(encode_utf8(seq![c]) == encode_scalar(c as u32) + encode_utf8(Seq::<char>::empty()));
    assert(encode_utf8(Seq::<char>::empty()) == Seq::<u8>::empty());
    assert(encode_scalar(c as u32) + Seq::<u8>::empty() == encode_scalar(c as u32));
}

/// An escape of four bytes is read as one.
proof fn lemma_escape_bytes(four: Seq<u8>, rest: Seq<u8>, v: u8)
    requires
        four.len() == 4,
        four[0] == 0x5c,
        octal(four[1], four[2], four[3]) == Some(v),
    ensures
        unescaped(four + rest) == seq![v] + unescaped(rest),
{
    let all = four + rest;
    assert(all[0] == four[0] && all[1] == four[1] && all[2] == four[2] && all[3] == four[3]);
    assert(all.skip(4) == rest);
}

proof fn lemma_unescape_bytes(s: Seq<char>)
    ensures
        unescaped(encode_utf8(escaped(s))) == encode_utf8(s),
    decreases s.len(),
{
    if s.len() > 0 {
        let c = s[0];
        let tail = s.drop_first();
        lemma_unescape_bytes(tail);
        lemma_encode_concat(escaped_char(c), escaped(tail));
        let rest = encode_utf8(escaped(tail));
        let front = encode_utf8(escaped_char(c));
        assert(encode_utf8(escaped(s)) == front + rest);
        if c == ' ' || c == '\t' || c == '\n' || c == '\\' {
            let e = escaped_char(c);
            lemma_encode_ascii4(e[0], e[1], e[2], e[3]);
            assert(e == seq![e[0], e[1], e[2], e[3]]);
            let v = c as u8;
            assert(octal(front[1], front[2], front[3]) == Some(v));
            lemma_escape_bytes(front, rest, v);
            vstd::utf8::is_ascii_chars_encode_utf8(seq![c]);
            lemma_encode_one(c);
            assert(seq![c][0] as u8 == encode_utf8(seq![c])[0]);
            assert(encode_scalar(c as u32) == seq![v]);
        } else {
            lemma_encode_one(c);
            lemma_no_backslash(c);
            lemma_plain_bytes(front, rest);
        }
    } else {
        assert(encode_utf8(escaped(s)) == Seq::<u8>::empty());
        assert(encode_utf8(s) == Seq::<u8>::empty());
    }
}

/// Undoing the kernel's escapes gives back what was escaped, whatever it
/// was.
pub proof fn law_unescape_undoes_escape(s: Seq<char>)
    ensures
        unescaped_text(escaped(s)) == s,
{
    lemma_unescape_bytes(s);
    encode_utf8_valid_utf8(s);
    encode_utf8_decode_utf8(s);
}

/// Text without a backslash reads as itself.
pub proof fn law_unescape_keeps_plain_text(s: Seq<char>)
    requires
        !s.contains('\\'),
    ensures
        unescaped_text(s) == s,
{
    let bytes = encode_utf8(s);
    lemma_plain_text(s);
    lemma_plain_bytes(bytes, Seq::empty());
    assert(bytes + Seq::<u8>::empty() == bytes);
    assert(bytes + unescaped(Seq::<u8>::empty()) == bytes);
    encode_utf8_valid_utf8(s);
    encode_utf8_decode_utf8(s);
}

proof fn lemma_plain_text(s: Seq<char>)
    requires
        !s.contains('\\'),
    ensures
        plain(encode_utf8(s)),
    decreases s.len(),
{
    if s.len() > 0 {
        let tail = s.drop_first();
        assert(s[0] != '\\') by {
            if s[0] == '\\' {
                assert(s.contains('\\'));
            }
        }
        assert(!tail.contains('\\')) by {
            if tail.contains('\\') {
                let k = choose|k: int| 0 <= k < tail.len() && tail[k] == '\\';
                assert(s[k + 1] == '\\');
            }
        }
        lemma_plain_text(tail);
        lemma_no_backslash(s[0]);
    }
}

/// Escaping leaves no space and no newline.
proof fn lemma_escaped_is_one_field(s: Seq<char>)
    ensures
        !escaped(s).contains(' '),
        !escaped(s).contains('\n'),
    decreases s.len(),
{
    if s.len() > 0 {
        lemma_escaped_is_one_field(s.drop_first());
        let front = escaped_char(s[0]);
        let rest = escaped(s.drop_first());
        assert forall|k: int| 0 <= k < (front + rest).len() implies (front + rest)[k] != ' ' && (
        front + rest)[k] != '\n' by {
            if k >= front.len() {
                assert((front + rest)[k] == rest[k - front.len()]);
                assert(rest.contains(rest[k - front.len()]));
            }
        }
    }
}

/// What a join holds comes from a piece or from the separator.
pub proof fn lemma_join_holds(parts: Seq<Seq<char>>, sep: Seq<char>, c: char)
    requires
        !sep.contains(c),
        forall|i: int| 0 <= i < parts.len() ==> !(#[trigger] parts[i]).contains(c),
    ensures
        !join(parts, sep).contains(c),
    decreases parts.len(),
{
    if parts.len() > 1 {
        let front = parts.drop_last();
        assert forall|i: int| 0 <= i < front.len() implies !(#[trigger] front[i]).contains(c) by {
            assert(front[i] == parts[i]);
        }
        lemma_join_holds(front, sep, c);
        assert(parts[parts.len() - 1] == parts.last());
        let all = join(front, sep) + sep + parts.last();
        assert forall|k: int| 0 <= k < all.len() implies all[k] != c by {
            let a = join(front, sep).len() as int;
            let b = a + sep.len() as int;
            if k < a {
                assert(join(front, sep).contains(all[k]));
            } else if k < b {
                assert(all[k] == sep[k - a]);
                assert(sep.contains(all[k]));
            } else {
                assert(all[k] == parts.last()[k - b]);
                assert(parts.last().contains(all[k]));
            }
        }
    } else if parts.len() == 1 {
        assert(join(parts, sep) == parts[0]);
    }
}

/// A text without newlines is one piece.
proof fn lemma_one_line(line: Seq<char>)
    requires
        !line.contains('\n'),
    ensures
        split(line, '\n') == seq![line],
        lines(line.push('\n')) == seq![without_return(line)],
{
    let empty = Seq::<char>::empty();
    crate::text::lemma_split_extend(empty, line, '\n');
    assert(empty + line == line);
    assert(split(empty, '\n') == seq![empty]);
    assert(seq![empty].drop_last().push(line) == seq![line]);
    let ended = line.push('\n');
    assert(ended.drop_last() == line);
    assert(split(ended, '\n') == seq![line].push(empty));
    assert(split(ended, '\n').drop_last() == seq![line]);
    assert(lines(ended) =~= seq![without_return(line)]);
}

/// The fields of a line as the kernel writes them.
pub open spec fn kernel_fields(
    entry: Entry,
    parent: Seq<char>,
    root: Seq<char>,
    options: Seq<char>,
    optional: Seq<Seq<char>>,
    super_options: Seq<char>,
) -> Seq<Seq<char>> {
    seq![entry.id, parent, entry.device, root, escaped(entry.mount_point), options] + optional + seq![
        "-"@,
        entry.fstype,
        escaped(entry.source),
        super_options,
    ]
}

/// Whether a text can stand as a field of its own that is not taken for the
/// separator.
pub open spec fn is_field(s: Seq<char>) -> bool {
    !s.contains(' ') && !s.contains('\n') && s != "-"@
}

/// Reading a line that the kernel wrote gives back the mount it wrote about,
/// with its mountpoint and source as they are, spaces and all.
pub proof fn law_kernel_line_reads_back(
    entry: Entry,
    parent: Seq<char>,
    root: Seq<char>,
    options: Seq<char>,
    optional: Seq<Seq<char>>,
    super_options: Seq<char>,
)
    requires
        is_field(entry.id),
        is_field(parent),
        is_field(entry.device),
        is_field(root),
        entry.mount_point != "-"@,
        is_field(options),
        forall|i: int| 0 <= i < optional.len() ==> is_field(#[trigger] optional[i]),
        !entry.fstype.contains(' ') && !entry.fstype.contains('\n'),
        !super_options.contains(' ') && !super_options.contains('\n') && !super_options.contains(
            '\r',
        ),
    ensures
        parsed(
            join(
                kernel_fields(entry, parent, root, options, optional, super_options),
                " "@,
            ).push('\n'),
        ) == seq![entry],
{
    reveal_strlit(" ");
    reveal_strlit("-");
    assert(" "@ =~= seq![' ']);
    assert("-"@ =~= seq!['-']);
    let fields = kernel_fields(entry, parent, root, options, optional, super_options);
    let n = optional.len() as int;
    let mp = escaped(entry.mount_point);
    let source = escaped(entry.source);
    lemma_escaped_is_one_field(entry.mount_point);
    lemma_escaped_is_one_field(entry.source);
    law_unescape_undoes_escape(entry.mount_point);
    law_unescape_undoes_escape(entry.source);
    assert(mp != "-"@) by {
        assert(!"-"@.contains('\\'));
        law_unescape_keeps_plain_text("-"@);
    }
    assert(is_field(mp));
    assert forall|i: int| 0 <= i < fields.len() implies {
        &&& !(#[trigger] fields[i]).contains(' ')
        &&& !fields[i].contains('\n')
        &&& (i < 6 + n ==> fields[i] != "-"@)
    } by {
        if 6 <= i < 6 + n {
            assert(fields[i] == optional[i - 6]);
        }
        assert(!"-"@.contains(' ') && !"-"@.contains('\n'));
    }
    law_split_undoes_join(fields, ' ');
    let line = join(fields, " "@);
    assert(!" "@.contains('\n'));
    lemma_join_holds(fields, " "@, '\n');
    lemma_one_line(line);
    assert(without_return(line) == line) by {
        assert(fields.last() == super_options);
        assert(line == join(fields.drop_last(), " "@) + " "@ + super_options);
        if super_options.len() > 0 {
            assert(line.last() == super_options.last());
            assert(super_options.contains(super_options.last()));
        } else {
            assert(line.last() == ' ');
        }
    }
    assert(fields[6 + n] == "-"@);
    assert(is_separator(fields, 6 + n));
    assert(conforms(line));
    let at = choose|at: int| #[trigger] is_separator(fields, at);
    assert(at == 6 + n) by {
        if at < 6 + n {
            assert(fields[at] != "-"@);
        } else if at > 6 + n {
            assert(fields[6 + n] != "-"@);
        }
    }
    assert(line_entry(line) == entry);
    let all = lines(line.push('\n'));
    assert(all.last() == line);
    assert(all.drop_last() == Seq::<Seq<char>>::empty());
    assert(line_entries(Seq::<Seq<char>>::empty()) == Seq::<Entry>::empty());
    assert(line_entries(all) =~= seq![entry]);
}

/// A text ended by a newline and the text behind it have their lines one
/// after the other.
proof fn lemma_split_at_newline(head: Seq<char>, tail: Seq<char>)
    ensures
        split(head.push('\n') + tail, '\n') == split(head, '\n') + split(tail, '\n'),
    decreases tail.len(),
{
    let start = head.push('\n');
    crate::text::lemma_split_shape(head, '\n');
    crate::text::lemma_split_shape(tail, '\n');
    if tail.len() == 0 {
        assert(start + tail == start);
        assert(start.drop_last() == head);
        assert(split(start, '\n') =~= split(head, '\n') + split(tail, '\n'));
    } else {
        let front = tail.drop_last();
        lemma_split_at_newline(head, front);
        crate::text::lemma_split_shape(front, '\n');
        assert((start + tail).drop_last() == start + front);
        assert((start + tail).last() == tail.last());
        assert(split(start + tail, '\n') =~= split(head, '\n') + split(tail, '\n'));
    }
}

/// Entries of lines one after the other.
proof fn lemma_line_entries_concat(a: Seq<Seq<char>>, b: Seq<Seq<char>>)
    ensures
        line_entries(a + b) == line_entries(a) + line_entries(b),
    decreases b.len(),
{
    if b.len() == 0 {
        assert(a + b == a);
        assert(line_entries(a) + line_entries(b) == line_entries(a));
    } else {
        lemma_line_entries_concat(a, b.drop_last());
        assert((a + b).drop_last() == a + b.drop_last());
        assert((a + b).last() == b.last());
        assert(line_entries(a + b) =~= line_entries(a) + line_entries(b));
    }
}

/// The table is read line by line: what stands before a newline is read on
/// its own, whatever follows, so a line that makes no sense takes nothing
/// else with it.
pub proof fn law_table_reads_line_by_line(head: Seq<char>, tail: Seq<char>)
    ensures
        parsed(head.push('\n') + tail) == parsed(head.push('\n')) + parsed(tail),
{
    let start = head.push('\n');
    let empty = Seq::<char>::empty();
    lemma_split_at_newline(head, tail);
    lemma_split_at_newline(head, empty);
    assert(start + empty == start);
    crate::text::lemma_split_shape(head, '\n');
    crate::text::lemma_split_shape(tail, '\n');
    let h = split(head, '\n');
    let t = split(tail, '\n');
    let strip = |line: Seq<char>| without_return(line);
    assert(split(start, '\n').drop_last() == h);
    assert(split(start, '\n').last() == empty);
    assert(lines(start) == h.map_values(strip));
    assert((h + t).drop_last() == h + t.drop_last());
    assert((h + t).last() == t.last());
    assert((h + t.drop_last()).map_values(strip) =~= h.map_values(strip) + t.drop_last().map_values(
        strip,
    ));
    assert(lines(start + tail) =~= lines(start) + lines(tail));
    lemma_line_entries_concat(lines(start), lines(tail));
}

/// The mount attached last at a place is the one that is found there.
pub proof fn law_topmost_mount_is_found(table: Seq<Entry>, entry: Entry)
    ensures
        topmost(table.push(entry), entry.mount_point) == Some(entry),
{
    assert(table.push(entry).last() == entry);
}

/// A mount elsewhere does not change what is found at a place.
pub proof fn law_other_mounts_do_not_matter(table: Seq<Entry>, entry: Entry, place: Seq<char>)
    requires
        !same_place(entry.mount_point, place),
    ensures
        topmost(table.push(entry), place) == topmost(table, place),
{
    assert(table.push(entry).last() == entry);
    assert(table.push(entry).drop_last() == table);
}

/// Something is found at a place exactly if the table lists a mount there,
/// and what is found is listed there.
pub proof fn law_found_exactly_if_listed(table: Seq<Entry>, place: Seq<char>)
    ensures
        topmost(table, place) is Some <==> exists|i: int|
            0 <= i < table.len() && same_place((#[trigger] table[i]).mount_point, place),
        topmost(table, place) matches Some(e) ==> table.contains(e) && same_place(
            e.mount_point,
            place,
        ),
    decreases table.len(),
{
    if table.len() > 0 {
        let front = table.drop_last();
        law_found_exactly_if_listed(front, place);
        assert(table[table.len() - 1] == table.last());
        if topmost(front, place) is Some && !same_place(table.last().mount_point, place) {
            let i = choose|i: int|
                0 <= i < front.len() && same_place((#[trigger] front[i]).mount_point, place);
            assert(same_place(table[i].mount_point, place));
            let e = topmost(front, place)->0;
            let k = choose|k: int| 0 <= k < front.len() && front[k] == e;
            assert(table[k] == e);
        }
        if topmost(table, place) is None {
            assert forall|i: int| 0 <= i < table.len() implies !same_place(
                (#[trigger] table[i]).mount_point,
                place,
            ) by {
                if i < front.len() {
                    assert(table[i] == front[i]);
                }
            }
        }
    }
}

/// The keys of a table cover its FUSE mounts.
proof fn lemma_keys_cover(table: Seq<Entry>, entry: Entry)
    requires
        table.contains(entry),
        is_fuse(entry.fstype),
    ensures
        fuse_keys_in(table).contains(entry_key(entry)),
    decreases table.len(),
{
    let k = choose|k: int| 0 <= k < table.len() && table[k] == entry;
    let front = table.drop_last();
    if k == table.len() - 1 {
        let keys = fuse_keys_in(table);
        assert(keys[keys.len() - 1] == entry_key(entry));
    } else {
        assert(front[k] == entry);
        lemma_keys_cover(front, entry);
        let keys = fuse_keys_in(front);
        let j = choose|j: int| 0 <= j < keys.len() && keys[j] == entry_key(entry);
        assert(fuse_keys_in(table)[j] == entry_key(entry));
    }
}

/// A mount that was in the table when an operation started is never taken
/// for one that the operation caused, and neither is one on the approved
/// directory.
pub proof fn law_known_mounts_are_no_strays(
    earlier: Seq<Entry>,
    entry: Entry,
    approved: Seq<char>,
    ours: Option<Seq<Seq<char>>>,
)
    requires
        earlier.contains(entry) || same_place(entry.mount_point, approved),
    ensures
        !may_be_stray(entry, approved, fuse_keys_in(earlier), ours),
{
    if earlier.contains(entry) && is_fuse(entry.fstype) {
        lemma_keys_cover(earlier, entry);
    }
}

/// A place counts as a stray's only where the table lists a mount there that
/// may be one.
pub proof fn law_strays_are_listed(
    table: Seq<Entry>,
    approved: Seq<char>,
    before: Seq<Seq<char>>,
    ours: Option<Seq<Seq<char>>>,
    place: Seq<char>,
)
    ensures
        stray_places(table, approved, before, ours).contains(place) <==> exists|i: int|
            0 <= i < table.len() && (#[trigger] table[i]).mount_point == place && may_be_stray(
                table[i],
                approved,
                before,
                ours,
            ),
    decreases table.len(),
{
    let places = stray_places(table, approved, before, ours);
    if table.len() > 0 {
        let front = table.drop_last();
        let earlier = stray_places(front, approved, before, ours);
        law_strays_are_listed(front, approved, before, ours, place);
        assert(table[table.len() - 1] == table.last());
        if places.contains(place) {
            let k = choose|k: int| 0 <= k < places.len() && places[k] == place;
            if k < earlier.len() {
                assert(earlier[k] == place);
                let i = choose|i: int|
                    0 <= i < front.len() && (#[trigger] front[i]).mount_point == place
                        && may_be_stray(front[i], approved, before, ours);
                assert(table[i] == front[i]);
            }
        }
        if exists|i: int|
            0 <= i < table.len() && (#[trigger] table[i]).mount_point == place && may_be_stray(
                table[i],
                approved,
                before,
                ours,
            ) {
            let i = choose|i: int|
                0 <= i < table.len() && (#[trigger] table[i]).mount_point == place && may_be_stray(
                    table[i],
                    approved,
                    before,
                    ours,
                );
            if i < front.len() {
                assert(front[i] == table[i]);
                let k = choose|k: int| 0 <= k < earlier.len() && earlier[k] == place;
                assert(places[k] == place);
            } else {
                assert(places[places.len() - 1] == place);
            }
        }
    }
}

/// Mounts with numbers as the kernel writes them share a key only if they
/// share both number and place.
pub proof fn law_key_is_number_and_place(a: Entry, b: Entry)
    requires
        !a.id.contains(' '),
        !b.id.contains(' '),
        entry_key(a) == entry_key(b),
    ensures
        a.id == b.id,
        a.mount_point == b.mount_point,
{
    reveal_strlit(" ");
    let ka = entry_key(a);
    let kb = entry_key(b);
    assert(ka[a.id.len() as int] == ' ');
    assert(kb[b.id.len() as int] == ' ');
    if a.id.len() < b.id.len() {
        assert(kb[a.id.len() as int] == b.id[a.id.len() as int]);
        assert(b.id.contains(' '));
    }
    if b.id.len() < a.id.len() {
        assert(ka[b.id.len() as int] == a.id[b.id.len() as int]);
        assert(a.id.contains(' '));
    }
    assert(ka.take(a.id.len() as int) == a.id);
    assert(kb.take(b.id.len() as int) == b.id);
    assert(ka.skip(a.id.len() as int + 1) == a.mount_point);
    assert(kb.skip(b.id.len() as int + 1) == b.mount_point);
}

/// The numbers in a parsed table hold no space.
pub proof fn law_parsed_numbers_hold_no_space(content: Seq<char>, i: int)
    requires
        0 <= i < parsed(content).len(),
    ensures
        !parsed(content)[i].id.contains(' '),
{
    lemma_numbers_hold_no_space(lines(content), i);
}

proof fn lemma_numbers_hold_no_space(all: Seq<Seq<char>>, i: int)
    requires
        0 <= i < line_entries(all).len(),
    ensures
        !line_entries(all)[i].id.contains(' '),
    decreases all.len(),
{
    let earlier = line_entries(all.drop_last());
    if i < earlier.len() {
        lemma_numbers_hold_no_space(all.drop_last(), i);
    } else {
        crate::text::lemma_split_shape(all.last(), ' ');
        assert(!split(all.last(), ' ')[0].contains(' '));
    }
}

/// Only connections that were not there before count as new.
pub proof fn law_new_connections_are_new(
    before: Seq<Seq<char>>,
    now: Seq<Seq<char>>,
    number: Seq<char>,
)
    ensures
        appeared(before, now).contains(number) <==> now.contains(number) && !before.contains(
            number,
        ),
    decreases now.len(),
{
    if now.len() > 0 {
        let front = now.drop_last();
        let earlier = appeared(before, front);
        let all = appeared(before, now);
        law_new_connections_are_new(before, front, number);
        assert(now[now.len() - 1] == now.last());
        if all.contains(number) {
            let k = choose|k: int| 0 <= k < all.len() && all[k] == number;
            if k < earlier.len() {
                assert(earlier[k] == number);
                let i = choose|i: int| 0 <= i < front.len() && front[i] == number;
                assert(now[i] == number);
            }
        }
        if now.contains(number) && !before.contains(number) {
            let i = choose|i: int| 0 <= i < now.len() && now[i] == number;
            if i < front.len() {
                assert(front[i] == number);
                let k = choose|k: int| 0 <= k < earlier.len() && earlier[k] == number;
                assert(all[k] == number);
            } else {
                assert(all[all.len() - 1] == number);
            }
        }
    }
}

/// Where the kernel publishes no connections, that test rules nothing out: a
/// FUSE mount that is new and elsewhere may still be a stray.
pub proof fn law_unpublished_connections_rule_nothing_out(
    entry: Entry,
    approved: Seq<char>,
    before: Seq<Seq<char>>,
    then: Option<Seq<Seq<char>>>,
    now: Option<Seq<Seq<char>>>,
)
    requires
        then is None || now is None,
    ensures
        may_be_stray(entry, approved, before, crate::mountinfo::connections_between(then, now))
            <==> is_fuse(entry.fstype) && !before.contains(entry_key(entry)) && !same_place(
            entry.mount_point,
            approved,
        ),
{
}

} // verus!
