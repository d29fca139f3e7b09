//! The kernel's mount table, as `/proc/self/mountinfo` prints it: parsing
//! it, finding a mount by its mountpoint, and telling apart the mounts that
//! an operation may have caused from those that were there before.
use vstd::prelude::*;
#[allow(unused_imports)]
use vstd::utf8::{decode_utf8, encode_utf8, valid_utf8};

use crate::path::same_path;
#[allow(unused_imports)]
use crate::path::same_place;
use crate::text::{concat3, contains_text, lines_of, same_text, split_text, starts_with};
#[allow(unused_imports)]
use crate::text::{lines, split, views};

verus! {

/// One mount.
#[derive(Debug, PartialEq, Eq)]
pub struct MountEntry {
    /// The kernel's number for the mount. It is handed out again once the
    /// mount is gone.
    pub id: String,
    /// The device the filesystem is on, as `major:minor`.
    pub device: String,
    pub mount_point: String,
    pub fstype: String,
    pub source: String,
}

/// What a mount entry says, as plain text.
pub ghost struct Entry {
    pub id: Seq<char>,
    pub device: Seq<char>,
    pub mount_point: Seq<char>,
    pub fstype: Seq<char>,
    pub source: Seq<char>,
}

impl View for MountEntry {
    type V = Entry;

    open spec fn view(&self) -> Entry {
        Entry {
            id: self.id@,
            device: self.device@,
            mount_point: self.mount_point@,
            fstype: self.fstype@,
            source: self.source@,
        }
    }
}

impl Clone for MountEntry {
    fn clone(&self) -> (copy: Self)
        ensures
            copy@ == self@,
    {
        MountEntry {
            id: self.id.clone(),
            device: self.device.clone(),
            mount_point: self.mount_point.clone(),
            fstype: self.fstype.clone(),
            source: self.source.clone(),
        }
    }
}

/// The entries of a table.
pub open spec fn entries(table: Seq<MountEntry>) -> Seq<Entry> {
    table.map_values(|e: MountEntry| e@)
}

/// The number an octal digit stands for.
pub open spec fn octal_digit(b: u8) -> Option<int> {
    if 0x30 <= b <= 0x37 {
        Some(b - 0x30)
    } else {
        None
    }
}

/// The byte that three bytes spell in octal, if they spell one. A plus sign
/// may stand in front of two digits.
pub open spec fn octal(a: u8, b: u8, c: u8) -> Option<u8> {
    match (octal_digit(a), octal_digit(b), octal_digit(c)) {
        (Some(x), Some(y), Some(z)) => if 64 * x + 8 * y + z <= 255 {
            Some((64 * x + 8 * y + z) as u8)
        } else {
            None
        },
        (None, Some(y), Some(z)) => if a == 0x2b {
            Some((8 * y + z) as u8)
        } else {
            None
        },
        _ => None,
    }
}

/// Bytes with each escape (a backslash and three octal digits) replaced by
/// the byte it stands for. A backslash that starts no escape stays.
pub open spec fn unescaped(bytes: Seq<u8>) -> Seq<u8>
    decreases bytes.len(),
{
    if bytes.len() == 0 {
        Seq::empty()
    } else if bytes.len() > 3 && bytes[0] == 0x5c && octal(bytes[1], bytes[2], bytes[3]) is Some {
        seq![octal(bytes[1], bytes[2], bytes[3])->0] + unescaped(bytes.skip(4))
    } else {
        seq![bytes[0]] + unescaped(bytes.skip(1))
    }
}

/// What `String::from_utf8_lossy` makes of bytes that are not UTF-8.
pub uninterp spec fn utf8_lossy(bytes: Seq<u8>) -> Seq<char>;

/// The text that bytes hold: what they encode where they are UTF-8, and what
/// `String::from_utf8_lossy` makes of them where they are not.
pub open spec fn text_of(bytes: Seq<u8>) -> Seq<char> {
    if valid_utf8(bytes) {
        decode_utf8(bytes)
    } else {
        utf8_lossy(bytes)
    }
}

/// A field of the table with its escapes undone.
pub open spec fn unescaped_text(s: Seq<char>) -> Seq<char> {
    text_of(unescaped(encode_utf8(s)))
}

/// Calls `String::from_utf8_lossy`. Claimed of it: bytes that are UTF-8 come
/// back as the text they encode, and the result depends on the bytes alone.
/// Where the replacement characters go in bytes that are not UTF-8 is left
/// unsaid.
#[verifier::external_body]
fn from_utf8_lossy(bytes: &[u8]) -> (text: String)
    ensures
        valid_utf8(bytes@) ==> text@ == decode_utf8(bytes@),
        !valid_utf8(bytes@) ==> text@ == utf8_lossy(bytes@),
{
    String::from_utf8_lossy(bytes).into_owned()
}

/// The text that bytes hold.
pub fn lossy_text(bytes: &[u8]) -> (text: String)
    ensures
        text@ == text_of(bytes@),
{
    from_utf8_lossy(bytes)
}

fn octal_value(b: u8) -> (value: Option<u8>)
    ensures
        value is Some == octal_digit(b) is Some,
        value matches Some(v) ==> octal_digit(b) == Some(v as int) && v < 8,
{
    if 0x30 <= b && b <= 0x37 {
        Some(b - 0x30)
    } else {
        None
    }
}

fn octal_byte(a: u8, b: u8, c: u8) -> (byte: Option<u8>)
    ensures
        byte == octal(a, b, c),
{
    match (octal_value(a), octal_value(b), octal_value(c)) {
        (Some(x), Some(y), Some(z)) => {
            let sum: u16 = 64 * (x as u16) + 8 * (y as u16) + (z as u16);
            if sum <= 255 {
                Some(sum as u8)
            } else {
                None
            }
        },
        (None, Some(y), Some(z)) => if a == 0x2b {
            Some(8 * y + z)
        } else {
            None
        },
        _ => None,
    }
}

/// Undoes the octal escapes that the table uses for special characters
/// (`\040` space, `\011` tab, `\012` newline, `\134` backslash).
pub fn unescape(s: &str) -> (text: String)
    ensures
        text@ == unescaped_text(s@),
{
    let bytes = s.as_bytes();
    let mut out: Vec<u8> = Vec::new();
    let mut i: usize = 0;
    assert(bytes@.skip(0) == bytes@);
    assert(out@ + unescaped(bytes@) == unescaped(bytes@));
    while i < bytes.len()
        invariant
            i <= bytes.len(),
            bytes@ == encode_utf8(s@),
            out@ + unescaped(bytes@.skip(i as int)) == unescaped(bytes@),
        decreases bytes.len() - i,
    {
        let ghost rest = bytes@.skip(i as int);
        let ghost done = out@;
        let escape = if bytes[i] == 0x5c && bytes.len() - i > 3 {
            octal_byte(bytes[i + 1], bytes[i + 2], bytes[i + 3])
        } else {
            None
        };
        if let Some(v) = escape {
            out.push(v);
            proof {
                assert(rest.skip(4) == bytes@.skip(i as int + 4));
                assert(done + (seq![v] + unescaped(rest.skip(4))) == out@ + unescaped(
                    rest.skip(4),
                ));
            }
            i += 4;
        } else {
            out.push(bytes[i]);
            proof {
                assert(rest.skip(1) == bytes@.skip(i as int + 1));
                assert(done + (seq![rest[0]] + unescaped(rest.skip(1))) == out@ + unescaped(
                    rest.skip(1),
                ));
            }
            i += 1;
        }
    }
    proof {
        assert(bytes@.skip(i as int) == Seq::<u8>::empty());
        assert(out@ == unescaped(bytes@));
    }
    lossy_text(out.as_slice())
}

/// Where the lone `-` stands that ends a line's optional fields: the first
/// one.
pub open spec fn is_separator(fields: Seq<Seq<char>>, at: int) -> bool {
    &&& 0 <= at < fields.len()
    &&& fields[at] == "-"@
    &&& forall|k: int| 0 <= k < at ==> fields[k] != "-"@
}

/// Whether a line has the table's shape: at least ten fields, a separator
/// that is not among the first six, and at least two fields behind it.
pub open spec fn conforms(line: Seq<char>) -> bool {
    let fields = split(line, ' ');
    &&& fields.len() >= 10
    &&& exists|at: int| #[trigger]
        is_separator(fields, at) && 6 <= at && at + 2 < fields.len()
}

/// What a line of the right shape says.
pub open spec fn line_entry(line: Seq<char>) -> Entry {
    let fields = split(line, ' ');
    let at = choose|at: int| #[trigger] is_separator(fields, at);
    Entry {
        id: fields[0],
        device: fields[2],
        mount_point: unescaped_text(fields[4]),
        fstype: fields[at + 1],
        source: unescaped_text(fields[at + 2]),
    }
}

/// The entries that lines hold, in order; a line of another shape holds
/// none.
pub open spec fn line_entries(all: Seq<Seq<char>>) -> Seq<Entry>
    decreases all.len(),
{
    if all.len() == 0 {
        Seq::empty()
    } else if conforms(all.last()) {
        line_entries(all.drop_last()).push(line_entry(all.last()))
    } else {
        line_entries(all.drop_last())
    }
}

/// The entries of a table's text.
pub open spec fn parsed(content: Seq<char>) -> Seq<Entry> {
    line_entries(lines(content))
}

/// Finds the separator.
fn separator_of(fields: &Vec<String>) -> (at: Option<usize>)
    ensures
        match at {
            Some(k) => is_separator(views(fields@), k as int),
            None => forall|k: int| !is_separator(views(fields@), k),
        },
{
    let mut i: usize = 0;
    while i < fields.len()
        invariant
            i <= fields.len(),
            forall|k: int| 0 <= k < i ==> views(fields@)[k] != "-"@,
        decreases fields.len() - i,
    {
        assert(views(fields@)[i as int] == fields@[i as int]@);
        if same_text(fields[i].as_str(), "-") {
            return Some(i);
        }
        i += 1;
    }
    None
}

/// Reads one line of the table.
fn parse_line(line: &str) -> (entry: Option<MountEntry>)
    ensures
        match entry {
            Some(e) => conforms(line@) && e@ == line_entry(line@),
            None => !conforms(line@),
        },
{
    let fields = split_text(line, ' ');
    let ghost texts = split(line@, ' ');
    if fields.len() < 10 {
        assert(texts.len() == fields.len());
        return None;
    }
    let at = match separator_of(&fields) {
        Some(at) => at,
        None => { return None; },
    };
    proof {
        assert forall|k: int| is_separator(texts, k) implies k == at by {
            if k < at {
                assert(texts[k] != "-"@);
            } else if at < k {
                assert(texts[at as int] != "-"@);
            }
        }
    }
    if at < 6 || fields.len() - at <= 2 {
        return None;
    }
    assert(views(fields@)[0] == fields@[0]@);
    assert(views(fields@)[2] == fields@[2]@);
    assert(views(fields@)[4] == fields@[4]@);
    assert(views(fields@)[at + 1] == fields@[at + 1]@);
    assert(views(fields@)[at + 2] == fields@[at + 2]@);
    Some(
        MountEntry {
            id: fields[0].clone(),
            device: fields[2].clone(),
            mount_point: unescape(fields[4].as_str()),
            fstype: fields[at + 1].clone(),
            source: unescape(fields[at + 2].as_str()),
        },
    )
}

/// Parses the text of a mount table. Lines that do not conform are skipped.
pub fn parse(content: &str) -> (table: Vec<MountEntry>)
    ensures
        entries(table@) == parsed(content@),
{
    let all = lines_of(content);
    let mut table: Vec<MountEntry> = Vec::new();
    let mut i: usize = 0;
    assert(entries(table@) == line_entries(views(all@).take(0)));
    while i < all.len()
        invariant
            i <= all.len(),
            entries(table@) == line_entries(views(all@).take(i as int)),
        decreases all.len() - i,
    {
        proof {
            assert(views(all@).take(i as int + 1).drop_last() == views(all@).take(i as int));
            assert(views(all@).take(i as int + 1).last() == all@[i as int]@);
        }
        if let Some(entry) = parse_line(all[i].as_str()) {
            proof {
                assert(entries(table@.push(entry)) == entries(table@).push(entry@));
            }
            table.push(entry);
        }
        i += 1;
    }
    assert(views(all@).take(i as int) == views(all@));
    table
}

/// The topmost mount at a place: the last entry that names it.
pub open spec fn topmost(table: Seq<Entry>, place: Seq<char>) -> Option<Entry>
    decreases table.len(),
{
    if table.len() == 0 {
        None
    } else if same_place(table.last().mount_point, place) {
        Some(table.last())
    } else {
        topmost(table.drop_last(), place)
    }
}

/// An optional entry, as plain text.
pub open spec fn optional_entry(entry: Option<MountEntry>) -> Option<Entry> {
    match entry {
        Some(e) => Some(e@),
        None => None,
    }
}

/// Finds the entry for `mount_point`, if any. If several entries stack on
/// the same path, the last (topmost) wins.
pub fn find(table: &Vec<MountEntry>, mount_point: &str) -> (entry: Option<MountEntry>)
    ensures
        optional_entry(entry) == topmost(entries(table@), mount_point@),
{
    let mut i: usize = table.len();
    assert(entries(table@).take(i as int) == entries(table@));
    while i > 0
        invariant
            i <= table.len(),
            topmost(entries(table@), mount_point@) == topmost(
                entries(table@).take(i as int),
                mount_point@,
            ),
        decreases i,
    {
        proof {
            let front = entries(table@).take(i as int);
            assert(front.last() == table@[i as int - 1]@);
            assert(front.drop_last() == entries(table@).take(i as int - 1));
        }
        if same_path(table[i - 1].mount_point.as_str(), mount_point) {
            return Some(table[i - 1].clone());
        }
        i -= 1;
    }
    None
}

/// Whether a filesystem type is one of FUSE's.
pub open spec fn is_fuse(fstype: Seq<char>) -> bool {
    "fuse"@.is_prefix_of(fstype)
}

/// What a mount is recognised by across time. The kernel hands a number out
/// again once its mount is gone, so the place counts too.
pub open spec fn entry_key(entry: Entry) -> Seq<char> {
    entry.id + " "@ + entry.mount_point
}

/// The number of the FUSE connection behind a mount: the minor number of its
/// device.
pub open spec fn connection_number(entry: Entry) -> Seq<char> {
    let parts = split(entry.device, ':');
    if parts.len() > 1 {
        parts[1]
    } else {
        Seq::empty()
    }
}

/// An optional list of texts, as characters.
pub open spec fn optional_views(list: Option<Vec<String>>) -> Option<Seq<Seq<char>>> {
    match list {
        Some(l) => Some(views(l@)),
        None => None,
    }
}

/// Whether a mount could be the one an operation caused, gone astray: a FUSE
/// mount that was not there before, not on the approved directory, and on a
/// connection that appeared meanwhile. Where the kernel publishes no
/// connections, that last test is unavailable and rules nothing out.
pub open spec fn may_be_stray(
    entry: Entry,
    approved: Seq<char>,
    before: Seq<Seq<char>>,
    ours: Option<Seq<Seq<char>>>,
) -> bool {
    &&& is_fuse(entry.fstype)
    &&& !before.contains(entry_key(entry))
    &&& !same_place(entry.mount_point, approved)
    &&& (ours matches Some(numbers) ==> numbers.contains(connection_number(entry)))
}

impl MountEntry {
    /// What the mount is recognised by across time.
    pub fn key(&self) -> (key: String)
        ensures
            key@ == entry_key(self@),
    {
        concat3(self.id.as_str(), " ", self.mount_point.as_str())
    }

    /// The number of the FUSE connection behind the mount.
    pub fn connection(&self) -> (number: String)
        ensures
            number@ == connection_number(self@),
    {
        let parts = split_text(self.device.as_str(), ':');
        if parts.len() > 1 {
            assert(views(parts@)[1] == parts@[1]@);
            parts[1].clone()
        } else {
            String::new()
        }
    }
}

/// Whether a mount could be the one an operation caused, gone astray. This
/// narrows the field; it proves nothing on its own.
pub fn could_be_from_this_operation(
    entry: &MountEntry,
    approved: &str,
    before: &Vec<String>,
    ours: &Option<Vec<String>>,
) -> (could: bool)
    ensures
        could == may_be_stray(entry@, approved@, views(before@), optional_views(*ours)),
{
    if !starts_with(entry.fstype.as_str(), "fuse") {
        return false;
    }
    let key = entry.key();
    if contains_text(before.as_slice(), key.as_str()) || same_path(
        entry.mount_point.as_str(),
        approved,
    ) {
        return false;
    }
    match ours {
        Some(numbers) => {
            let number = entry.connection();
            contains_text(numbers.as_slice(), number.as_str())
        },
        None => true,
    }
}

/// The places of the entries that may have gone astray, in table order.
pub open spec fn stray_places(
    table: Seq<Entry>,
    approved: Seq<char>,
    before: Seq<Seq<char>>,
    ours: Option<Seq<Seq<char>>>,
) -> Seq<Seq<char>>
    decreases table.len(),
{
    if table.len() == 0 {
        Seq::empty()
    } else {
        let earlier = stray_places(table.drop_last(), approved, before, ours);
        if may_be_stray(table.last(), approved, before, ours) {
            earlier.push(table.last().mount_point)
        } else {
            earlier
        }
    }
}

/// Everything that could be the mount an operation caused, gone astray.
pub fn misplaced_candidates(
    table: &Vec<MountEntry>,
    before: &Vec<String>,
    ours: &Option<Vec<String>>,
    approved: &str,
) -> (places: Vec<String>)
    ensures
        views(places@) == stray_places(
            entries(table@),
            approved@,
            views(before@),
            optional_views(*ours),
        ),
{
    let mut places: Vec<String> = Vec::new();
    let mut i: usize = 0;
    let ghost all = entries(table@);
    assert(views(places@) == stray_places(
        all.take(0),
        approved@,
        views(before@),
        optional_views(*ours),
    ));
    while i < table.len()
        invariant
            i <= table.len(),
            all == entries(table@),
            views(places@) == stray_places(
                all.take(i as int),
                approved@,
                views(before@),
                optional_views(*ours),
            ),
        decreases table.len() - i,
    {
        proof {
            assert(all.take(i as int + 1).drop_last() == all.take(i as int));
            assert(all.take(i as int + 1).last() == table@[i as int]@);
        }
        if could_be_from_this_operation(&table[i], approved, before, ours) {
            let place = table[i].mount_point.clone();
            proof {
                crate::text::lemma_views_push(places@, place);
            }
            places.push(place);
        }
        i += 1;
    }
    assert(all.take(i as int) == all);
    places
}

/// The keys of the FUSE mounts in a table, in table order.
pub open spec fn fuse_keys_in(table: Seq<Entry>) -> Seq<Seq<char>>
    decreases table.len(),
{
    if table.len() == 0 {
        Seq::empty()
    } else if is_fuse(table.last().fstype) {
        fuse_keys_in(table.drop_last()).push(entry_key(table.last()))
    } else {
        fuse_keys_in(table.drop_last())
    }
}

/// What the FUSE mounts of a table are recognised by.
pub fn fuse_keys(table: &Vec<MountEntry>) -> (keys: Vec<String>)
    ensures
        views(keys@) == fuse_keys_in(entries(table@)),
{
    let mut keys: Vec<String> = Vec::new();
    let mut i: usize = 0;
    let ghost all = entries(table@);
    assert(views(keys@) == fuse_keys_in(all.take(0)));
    while i < table.len()
        invariant
            i <= table.len(),
            all == entries(table@),
            views(keys@) == fuse_keys_in(all.take(i as int)),
        decreases table.len() - i,
    {
        proof {
            assert(all.take(i as int + 1).drop_last() == all.take(i as int));
            assert(all.take(i as int + 1).last() == table@[i as int]@);
        }
        if starts_with(table[i].fstype.as_str(), "fuse") {
            let key = table[i].key();
            proof {
                crate::text::lemma_views_push(keys@, key);
            }
            keys.push(key);
        }
        i += 1;
    }
    assert(all.take(i as int) == all);
    keys
}

/// The connections in `now` that are not in `before`, in order.
pub open spec fn appeared(before: Seq<Seq<char>>, now: Seq<Seq<char>>) -> Seq<Seq<char>>
    decreases now.len(),
{
    if now.len() == 0 {
        Seq::empty()
    } else if before.contains(now.last()) {
        appeared(before, now.drop_last())
    } else {
        appeared(before, now.drop_last()).push(now.last())
    }
}

/// The connections that appeared between two readings, where both readings
/// were to be had.
pub open spec fn connections_between(
    before: Option<Seq<Seq<char>>>,
    now: Option<Seq<Seq<char>>>,
) -> Option<Seq<Seq<char>>> {
    match (before, now) {
        (Some(b), Some(n)) => Some(appeared(b, n)),
        _ => None,
    }
}

/// The connections that appeared between two readings. `None` means that
/// the kernel is not publishing them, which is not the same as none being
/// new.
pub fn new_connections(before: &Option<Vec<String>>, now: &Option<Vec<String>>) -> (fresh: Option<
    Vec<String>,
>)
    ensures
        optional_views(fresh) == connections_between(optional_views(*before), optional_views(*now)),
{
    let (old_ones, new_ones) = match (before, now) {
        (Some(b), Some(n)) => (b, n),
        _ => { return None; },
    };
    let mut fresh: Vec<String> = Vec::new();
    let mut i: usize = 0;
    let ghost known = views(old_ones@);
    let ghost all = views(new_ones@);
    assert(views(fresh@) == appeared(known, all.take(0)));
    while i < new_ones.len()
        invariant
            i <= new_ones.len(),
            known == views(old_ones@),
            all == views(new_ones@),
            views(fresh@) == appeared(known, all.take(i as int)),
        decreases new_ones.len() - i,
    {
        proof {
            assert(all.take(i as int + 1).drop_last() == all.take(i as int));
            assert(all.take(i as int + 1).last() == new_ones@[i as int]@);
        }
        if !contains_text(old_ones.as_slice(), new_ones[i].as_str()) {
            let number = new_ones[i].clone();
            proof {
                crate::text::lemma_views_push(fresh@, number);
            }
            fresh.push(number);
        }
        i += 1;
    }
    assert(all.take(i as int) == all);
    Some(fresh)
}

/// Where the kernel publishes FUSE connections.
pub const CONNECTIONS_DIR: &'static str = "/sys/fs/fuse/connections";

/// Whether the connection list is mounted according to a table. Without it
/// the directory is an ordinary empty one, which says nothing about
/// connections.
pub open spec fn publishes_connections(table: Seq<Entry>) -> bool {
    topmost(table, CONNECTIONS_DIR@) matches Some(e) && e.fstype == "fusectl"@
}

/// Whether the kernel is publishing its FUSE connections.
pub fn fusectl_mounted(table: &Vec<MountEntry>) -> (mounted: bool)
    ensures
        mounted == publishes_connections(entries(table@)),
{
    match find(table, CONNECTIONS_DIR) {
        Some(entry) => same_text(entry.fstype.as_str(), "fusectl"),
        None => false,
    }
}

/// What a listing of the connections' directory says: nothing, where the
/// kernel is not publishing them.
pub open spec fn published(table: Seq<Entry>, listing: Option<Seq<Seq<char>>>) -> Option<
    Seq<Seq<char>>,
> {
    if publishes_connections(table) {
        listing
    } else {
        None
    }
}

/// The connections that a listing of their directory shows. Where the kernel
/// is not publishing them the directory is an ordinary empty one, and the
/// listing says nothing.
pub fn fuse_connections(table: &Vec<MountEntry>, listing: Option<Vec<String>>) -> (connections:
    Option<Vec<String>>)
    ensures
        optional_views(connections) == published(entries(table@), optional_views(listing)),
{
    if fusectl_mounted(table) {
        listing
    } else {
        None
    }
}

} // verus!
