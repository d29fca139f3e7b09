//! What holds of text handling, stated of the texts themselves: what is put
//! together comes apart again, and what is taken apart goes together again.
use vstd::prelude::*;

#[allow(unused_imports)]
use crate::number::{digits_value, integer, is_digit, natural};
#[allow(unused_imports)]
use crate::policy::{is_blank, lemma_trim_end, lemma_trim_start};
#[allow(unused_imports)]
use crate::text::{
    decimal, is_white_space, join, lemma_split_extend, lemma_split_shape, lines, optional_text,
    split, trim, trim_end, trim_start, views, without_return,
};

verus! {

/// A list of texts is seen as what its texts hold, one for one.
pub proof fn law_views_show_every_text(list: Seq<String>)
    ensures
        views(list).len() == list.len(),
        forall|i: int| 0 <= i < list.len() ==> #[trigger] views(list)[i] == list[i]@,
{
}

/// An optional text is seen as what it holds, exactly if there is one.
pub proof fn law_optional_texts_show_their_text(text: Option<String>)
    ensures
        text matches Some(t) ==> optional_text(text) == Some(t@),
        text is None ==> optional_text(text) is None,
{
}

/// One piece joined is that piece, and no piece is nothing.
pub proof fn law_one_piece_joins_to_itself(piece: Seq<char>, sep: Seq<char>)
    ensures
        join(seq![piece], sep) == piece,
        join(Seq::empty(), sep) == Seq::<char>::empty(),
{
}

/// Two runs of pieces join to what each joins to, with the separator once
/// between them.
pub proof fn law_joining_goes_run_by_run(a: Seq<Seq<char>>, b: Seq<Seq<char>>, sep: Seq<char>)
    requires
        a.len() > 0,
        b.len() > 0,
    ensures
        join(a + b, sep) == join(a, sep) + sep + join(b, sep),
    decreases b.len(),
{
    assert((a + b).last() == b.last());
    assert((a + b).drop_last() =~= a + b.drop_last());
    if b.len() == 1 {
        assert(a + b.drop_last() =~= a);
    } else {
        law_joining_goes_run_by_run(a, b.drop_last(), sep);
        assert(join(a, sep) + sep + join(b.drop_last(), sep) + sep + b.last() =~= join(a, sep) + sep
            + (join(b.drop_last(), sep) + sep + b.last()));
    }
}

/// The pieces of a text hold no separator, and joined with it they are the
/// text again.
pub proof fn law_join_undoes_split(s: Seq<char>, sep: char)
    ensures
        split(s, sep).len() > 0,
        forall|i: int| 0 <= i < split(s, sep).len() ==> !(#[trigger] split(s, sep)[i]).contains(sep),
        join(split(s, sep), seq![sep]) == s,
    decreases s.len(),
{
    lemma_split_shape(s, sep);
    if s.len() > 0 {
        let front = s.drop_last();
        let head = split(front, sep);
        lemma_split_shape(front, sep);
        law_join_undoes_split(front, sep);
        assert(s =~= front.push(s.last()));
        if s.last() == sep {
            let all = head.push(Seq::<char>::empty());
            assert(all.drop_last() =~= head);
            assert(join(all, seq![sep]) == join(head, seq![sep]) + seq![sep] + all.last());
            assert(join(all, seq![sep]) =~= s);
        } else {
            let all = head.drop_last().push(head.last().push(s.last()));
            assert(all.drop_last() =~= head.drop_last());
            assert(all.last() == head.last().push(s.last()));
            if head.len() > 1 {
                assert(join(all, seq![sep]) == join(head.drop_last(), seq![sep]) + seq![sep]
                    + all.last());
                assert(join(all, seq![sep]) =~= join(head, seq![sep]).push(s.last()));
            }
        }
    } else {
        assert(join(split(s, sep), seq![sep]) =~= s);
    }
}

/// A text without the separator is one piece, and what stands on the two
/// sides of a separator is taken apart on its own.
pub proof fn law_splitting_goes_side_by_side(a: Seq<char>, b: Seq<char>, sep: char)
    ensures
        split(a.push(sep) + b, sep) == split(a, sep) + split(b, sep),
        !a.contains(sep) ==> split(a, sep) == seq![a],
    decreases b.len(),
{
    let empty = Seq::<char>::empty();
    lemma_split_shape(a, sep);
    lemma_split_shape(b, sep);
    if !a.contains(sep) {
        lemma_split_extend(empty, a, sep);
        assert(empty + a =~= a);
        assert(split(empty, sep) == seq![empty]);
        assert(seq![empty].drop_last().push(empty + a) =~= seq![a]);
    }
    let start = a.push(sep);
    if b.len() == 0 {
        assert(start + b =~= start);
        assert(start.drop_last() =~= a);
        assert(split(start, sep) =~= split(a, sep) + split(b, sep));
    } else {
        let front = b.drop_last();
        lemma_split_shape(front, sep);
        law_splitting_goes_side_by_side(a, front, sep);
        assert((start + b).drop_last() =~= start + front);
        assert((start + b).last() == b.last());
        assert(split(start + b, sep) =~= split(a, sep) + split(b, sep));
    }
}

/// A text of lines has those lines: a line ends at a newline, and a carriage
/// return right before it belongs to the ending. What follows the last
/// newline is a line as it stands, if there is anything.
pub proof fn law_lines_end_at_newlines(line: Seq<char>, rest: Seq<char>)
    requires
        !line.contains('\n'),
    ensures
        lines(Seq::empty()) == Seq::<Seq<char>>::empty(),
        line.len() > 0 ==> lines(line) == seq![line],
        lines(line.push('\r').push('\n') + rest) == seq![line] + lines(rest),
        !(line.len() > 0 && line.last() == '\r') ==> lines(line.push('\n') + rest) == seq![line]
            + lines(rest),
{
    law_splitting_goes_side_by_side(line, rest, '\n');
    let returned = line.push('\r');
    assert(!returned.contains('\n')) by {
        if returned.contains('\n') {
            let i = choose|i: int| 0 <= i < returned.len() && returned[i] == '\n';
            assert(line[i] == '\n');
        }
    }
    law_splitting_goes_side_by_side(returned, rest, '\n');
    lemma_split_shape(rest, '\n');
    assert(split(Seq::<char>::empty(), '\n') == seq![Seq::<char>::empty()]);
    assert(lines(Seq::empty()) =~= Seq::<Seq<char>>::empty());
    if line.len() > 0 {
        assert(lines(line) =~= seq![line]);
    }
    lemma_line_first(line, rest);
    lemma_line_first(returned, rest);
    assert(returned.drop_last() =~= line);
}

/// The first line is what stands before the first newline.
proof fn lemma_line_first(line: Seq<char>, rest: Seq<char>)
    requires
        !line.contains('\n'),
    ensures
        lines(line.push('\n') + rest) == seq![without_return(line)] + lines(rest),
{
    law_splitting_goes_side_by_side(line, rest, '\n');
    lemma_split_shape(rest, '\n');
    let parts = split(rest, '\n');
    let all = split(line.push('\n') + rest, '\n');
    assert(all =~= seq![line] + parts);
    assert(all.last() == parts.last());
    assert(all.drop_last() =~= seq![line] + parts.drop_last());
    assert(lines(line.push('\n') + rest) =~= seq![without_return(line)] + lines(rest));
}

/// White space is what Unicode says it is: the six control characters, the
/// space, and the separators.
pub proof fn law_white_space_is_unicode_s(c: char)
    ensures
        is_white_space(c) <==> {
            let code = c as int;
            (0x9 <= code && code <= 0xd) || code == 0x20 || code == 0x85 || code == 0xa0 || code
                == 0x1680 || (0x2000 <= code && code <= 0x200a) || code == 0x2028 || code == 0x2029
                || code == 0x202f || code == 0x205f || code == 0x3000
        },
{
}

/// Whether a text neither starts nor ends with white space.
pub open spec fn is_bare(s: Seq<char>) -> bool {
    s.len() > 0 ==> !is_white_space(s[0]) && !is_white_space(s[s.len() - 1])
}

/// Trimming takes off exactly the white space around a text.
pub proof fn law_trimming_takes_off_what_is_around(
    before: Seq<char>,
    core: Seq<char>,
    after: Seq<char>,
)
    requires
        is_blank(before),
        is_blank(after),
        is_bare(core),
    ensures
        trim(before + core + after) == core,
{
    assert(before + core + after =~= before + (core + after));
    lemma_trim_start(before, core + after);
    if core.len() > 0 {
        assert((core + after)[0] == core[0]);
        assert(trim_start(core + after) == core + after);
        lemma_trim_end(core, after);
    } else {
        assert(core + after =~= after + Seq::<char>::empty());
        lemma_trim_start(after, Seq::empty());
        assert(trim_end(Seq::<char>::empty()) =~= Seq::<char>::empty());
        assert(trim(before + core + after) =~= core);
    }
}

/// Every text is a bare one with white space around it, and the bare one is
/// what trimming leaves.
pub proof fn law_every_text_is_trimmed_to_something_bare(s: Seq<char>)
    ensures
        is_bare(trim(s)),
        exists|before: Seq<char>, after: Seq<char>|
            is_blank(before) && is_blank(after) && s == #[trigger] (before + trim(s) + after),
{
    let (before, rest) = lemma_start_blank(s);
    let after = lemma_end_blank(rest);
    assert(before + trim(s) + after =~= before + (trim(s) + after));
    if trim(s).len() > 0 {
        assert(trim(s)[0] == rest[0]);
    }
}

proof fn lemma_start_blank(s: Seq<char>) -> (r: (Seq<char>, Seq<char>))
    ensures
        is_blank(r.0),
        s == r.0 + r.1,
        r.1 == trim_start(s),
        r.1.len() > 0 ==> !is_white_space(r.1[0]),
    decreases s.len(),
{
    if s.len() > 0 && is_white_space(s[0]) {
        let (b, rest) = lemma_start_blank(s.drop_first());
        let before = seq![s[0]] + b;
        assert forall|i: int| 0 <= i < before.len() implies is_white_space(#[trigger] before[i]) by {
            if i > 0 {
                assert(before[i] == b[i - 1]);
            }
        }
        assert(before + rest =~= seq![s[0]] + s.drop_first());
        assert(s =~= seq![s[0]] + s.drop_first());
        (before, rest)
    } else {
        assert(Seq::<char>::empty() + s =~= s);
        (Seq::empty(), s)
    }
}

proof fn lemma_end_blank(s: Seq<char>) -> (after: Seq<char>)
    ensures
        is_blank(after),
        s == trim_end(s) + after,
        trim_end(s).len() > 0 ==> !is_white_space(trim_end(s).last()),
    decreases s.len(),
{
    if s.len() > 0 && is_white_space(s.last()) {
        let b = lemma_end_blank(s.drop_last());
        let after = b.push(s.last());
        assert forall|i: int| 0 <= i < after.len() implies is_white_space(#[trigger] after[i]) by {
            if i < b.len() {
                assert(after[i] == b[i]);
            }
        }
        assert(trim_end(s) + after =~= (trim_end(s) + b).push(s.last()));
        assert(s =~= s.drop_last().push(s.last()));
        after
    } else {
        assert(s + Seq::<char>::empty() =~= s);
        Seq::empty()
    }
}

/// A number that is written down reads back as that number, with or without a
/// plus sign, and is written without needless zeros.
pub proof fn law_numbers_read_back(n: nat)
    ensures
        digits_value(decimal(n)) == Some(n),
        natural(decimal(n)) == Some(n),
        natural(seq!['+'] + decimal(n)) == Some(n),
        decimal(n).len() > 0,
        decimal(n).len() > 1 ==> decimal(n)[0] != '0',
        forall|i: int| 0 <= i < decimal(n).len() ==> is_digit(#[trigger] decimal(n)[i]),
    decreases n,
{
    if n >= 10 {
        law_numbers_read_back(n / 10);
        let high = decimal(n / 10);
        assert(decimal(n).drop_last() =~= high);
        assert(n == 10 * (n / 10) + n % 10);
        assert(decimal(n)[0] == high[0]);
        if high.len() == 1 && high[0] == '0' {
            assert(digits_value(high) == Some(0nat));
        }
    }
    assert(is_digit(decimal(n)[0]));
    assert((seq!['+'] + decimal(n)).skip(1) =~= decimal(n));
}

/// A text reads as a number exactly if it is digits and nothing else, at
/// least one of them, behind a sign or none; zeros in front do not matter.
pub proof fn law_what_reads_as_a_number(s: Seq<char>)
    ensures
        digits_value(s) is Some <==> s.len() > 0 && forall|i: int|
            0 <= i < s.len() ==> '0' <= #[trigger] s[i] <= '9',
        digits_value(seq!['0'] + s) == (if s.len() == 0 {
            Some(0nat)
        } else {
            digits_value(s)
        }),
        natural(seq!['+'] + s) == digits_value(s),
        s.len() > 0 && s[0] != '+' ==> natural(s) == digits_value(s),
        natural(Seq::empty()) is None,
        integer(seq!['+'] + s) is Some <==> digits_value(s) is Some,
        integer(seq!['-'] + s) is Some <==> digits_value(s) is Some,
        digits_value(s) matches Some(n) ==> integer(s) == Some(n as int) && integer(seq!['+'] + s)
            == Some(n as int) && integer(seq!['-'] + s) == Some(-(n as int)),
        s.len() > 0 && s[0] != '+' && s[0] != '-' ==> (integer(s) is Some <==> digits_value(s)
            is Some),
        integer(Seq::empty()) is None,
    decreases s.len(),
{
    assert((seq!['+'] + s).skip(1) =~= s);
    assert((seq!['-'] + s).skip(1) =~= s);
    assert((seq!['+'] + s)[0] == '+');
    assert((seq!['-'] + s)[0] == '-');
    let more = seq!['0'] + s;
    if s.len() > 0 {
        let front = s.drop_last();
        law_what_reads_as_a_number(front);
        assert(more.drop_last() =~= seq!['0'] + front);
        assert(s =~= front.push(s.last()));
        assert(forall|i: int| 0 <= i < front.len() ==> front[i] == s[i]);
        if digits_value(s) is Some {
            assert forall|i: int| 0 <= i < s.len() implies '0' <= #[trigger] s[i] <= '9' by {
                if i < front.len() {
                    assert(front[i] == s[i]);
                }
            }
            assert('0' <= s[0] <= '9');
        }
        if forall|i: int| 0 <= i < s.len() ==> '0' <= #[trigger] s[i] <= '9' {
            assert('0' <= s[s.len() - 1] <= '9');
            assert forall|i: int| 0 <= i < front.len() implies '0' <= #[trigger] front[i] <= '9' by {
                assert(front[i] == s[i]);
            }
        }
    } else {
        assert(more =~= seq!['0']);
        assert(more.last() == '0');
    }
}

/// One more digit behind a number makes it ten times as large, and adds the
/// digit.
pub proof fn law_digits_count_from_the_right(s: Seq<char>, d: nat)
    requires
        d < 10,
    ensures
        digits_value(s) matches Some(n) ==> digits_value(s + decimal(d)) == Some(10 * n + d),
        digits_value(decimal(d)) == Some(d),
{
    law_numbers_read_back(d);
    assert(s + decimal(d) =~= s.push(decimal(d)[0]));
    assert((s + decimal(d)).drop_last() =~= s);
}

} // verus!
