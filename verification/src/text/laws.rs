//! What holds of texts: how they are cut up, put together, compared and counted.
use crate::text::{
    before, decimal, has_prefix, hex_char, hexadecimal, is_space, joined, lemma_decimal,
    lemma_position, lemma_position_is, lines, number, occurs, occurs_at, position,
    same_ignoring_ascii_case, split, split_once, trim_end, trim_start, trimmed,
};
use vstd::prelude::*;

verus! {

/// Whether a text is blank.
pub open spec fn is_blank(s: Seq<char>) -> bool {
    forall|i: int| 0 <= i < s.len() ==> is_space(#[trigger] s[i])
}

/// Blanks, tabs and line ends are white space; letters, digits and marks are not.
pub proof fn law_white_space(c: char)
    ensures
        c == ' ' || c == '\t' || c == '\n' || c == '\r' ==> is_space(c),
        '!' <= c <= '~' ==> !is_space(c),
{
}

/// Trimming takes the white space at both ends away, all of it and nothing else:
/// a text that begins and ends with something else is left of whatever blanks
/// stand around it.
pub proof fn law_trimming_takes_the_blanks_around(
    lead: Seq<char>,
    core: Seq<char>,
    tail: Seq<char>,
)
    requires
        is_blank(lead),
        is_blank(tail),
        core.len() > 0 ==> !is_space(core[0]) && !is_space(core.last()),
    ensures
        trimmed(lead + core + tail) == core,
        trim_end(core + tail) == core,
{
    lemma_trim_end(core, tail);
    if core.len() > 0 {
        lemma_trim_start(lead, core + tail);
        assert(lead + core + tail =~= lead + (core + tail));
        assert((core + tail)[0] == core[0]);
    } else {
        lemma_trim_blank(lead + core + tail);
        assert(core =~= Seq::<char>::empty());
    }
}

proof fn lemma_trim_end(core: Seq<char>, tail: Seq<char>)
    requires
        is_blank(tail),
        core.len() > 0 ==> !is_space(core.last()),
    ensures
        trim_end(core + tail) == core,
    decreases tail.len(),
{
    let s = core + tail;
    if tail.len() > 0 {
        assert(s.last() == tail[tail.len() - 1]);
        assert(s.drop_last() =~= core + tail.drop_last());
        lemma_trim_end(core, tail.drop_last());
    } else {
        assert(s =~= core);
    }
}

proof fn lemma_trim_start(lead: Seq<char>, rest: Seq<char>)
    requires
        is_blank(lead),
        rest.len() > 0 ==> !is_space(rest[0]),
    ensures
        trim_start(lead + rest) == rest,
    decreases lead.len(),
{
    let s = lead + rest;
    if lead.len() > 0 {
        assert(s[0] == lead[0]);
        assert(s.drop_first() =~= lead.drop_first() + rest);
        lemma_trim_start(lead.drop_first(), rest);
    } else {
        assert(s =~= rest);
    }
}

proof fn lemma_trim_blank(s: Seq<char>)
    requires
        is_blank(s),
    ensures
        trimmed(s) == Seq::<char>::empty(),
{
    let none = Seq::<char>::empty();
    lemma_trim_start(s, none);
    assert(s + none =~= s);
}

/// A text is split once at the first separator: what stands before it holds none.
pub proof fn law_splitting_once_cuts_at_the_first(head: Seq<char>, tail: Seq<char>, c: char)
    requires
        !head.contains(c),
    ensures
        split_once(head + seq![c] + tail, c) == Some((head, tail)),
        split_once(head, c) is None,
{
    let s = head + seq![c] + tail;
    assert forall|i: int| 0 <= i < head.len() implies s[i] != c by {
        assert(head.contains(head[i]));
    }
    lemma_position_is(s, c, head.len() as int);
    assert(s.take(head.len() as int) =~= head);
    assert(s.skip(head.len() as int + 1) =~= tail);
    assert forall|i: int| 0 <= i < head.len() implies head[i] != c by {
        assert(head.contains(head[i]));
    }
    lemma_position_is(head, c, head.len() as int);
}

/// Splitting a text and joining its pieces with the separator gives the text
/// back, and no piece holds the separator.
pub proof fn law_splitting_and_joining_gives_back(s: Seq<char>, c: char)
    ensures
        joined(split(s, c), seq![c]) == s,
        split(s, c).len() > 0,
        forall|i: int| 0 <= i < split(s, c).len() ==> !(#[trigger] split(s, c)[i]).contains(c),
    decreases s.len(),
{
    lemma_position(s, c);
    let k = position(s, c) as int;
    if k < s.len() {
        let rest = s.skip(k + 1);
        law_splitting_and_joining_gives_back(rest, c);
        let pieces = split(rest, c);
        let first = s.take(k);
        lemma_joined_first(first, pieces, seq![c]);
        assert(first + seq![c] + rest =~= s);
        assert(!first.contains(c)) by {
            if first.contains(c) {
                let i = choose|i: int| 0 <= i < first.len() && first[i] == c;
                assert(s[i] == c);
            }
        }
        assert forall|i: int| 0 <= i < split(s, c).len() implies !(#[trigger] split(
            s,
            c,
        )[i]).contains(c) by {
            if i > 0 {
                assert(split(s, c)[i] == pieces[i - 1]);
            }
        }
    } else {
        assert(!s.contains(c)) by {
            if s.contains(c) {
                let i = choose|i: int| 0 <= i < s.len() && s[i] == c;
                assert(s[i] != c);
            }
        }
    }
}

/// Joining goes from the front: the first part, the separator, and the rest.
proof fn lemma_joined_first(first: Seq<char>, rest: Seq<Seq<char>>, sep: Seq<char>)
    requires
        rest.len() > 0,
    ensures
        joined(seq![first] + rest, sep) == first + sep + joined(rest, sep),
    decreases rest.len(),
{
    let all = seq![first] + rest;
    assert(all.last() == rest.last());
    if rest.len() == 1 {
        assert(all.drop_last() =~= seq![first]);
        assert(joined(all.drop_last(), sep) == first);
        assert(joined(rest, sep) == rest[0]);
        assert(first + sep + rest.last() =~= first + sep + joined(rest, sep));
    } else {
        assert(all.drop_last() =~= seq![first] + rest.drop_last());
        lemma_joined_first(first, rest.drop_last(), sep);
        let mid = joined(rest.drop_last(), sep);
        assert(joined(all, sep) == joined(all.drop_last(), sep) + sep + all.last());
        assert((first + sep + mid) + sep + rest.last() =~= first + sep + (mid + sep
            + rest.last()));
    }
}

/// Joined parts stand in their order, with the separator between each two and
/// none at the ends.
pub proof fn law_joining_puts_the_separator_between(
    parts: Seq<Seq<char>>,
    last: Seq<char>,
    sep: Seq<char>,
)
    ensures
        joined(seq![last], sep) == last,
        parts.len() > 0 ==> joined(parts.push(last), sep) == joined(parts, sep) + sep + last,
        joined(Seq::<Seq<char>>::empty(), sep) == Seq::<char>::empty(),
{
    assert(parts.push(last).drop_last() =~= parts);
}

/// A line ends at a line feed, with or without a carriage return before it, and
/// the last one needs none.
pub proof fn law_lines_end_at_line_feeds(line: Seq<char>, rest: Seq<char>)
    requires
        !line.contains('\n'),
    ensures
        line.len() == 0 || line.last() != '\r' ==> lines(line + seq!['\n'] + rest) == seq![line]
            + lines(rest),
        lines(line + seq!['\r', '\n'] + rest) == seq![line] + lines(rest),
        line.len() > 0 ==> lines(line) == seq![line],
        lines(Seq::<char>::empty()) == Seq::<Seq<char>>::empty(),
{
    assert forall|i: int| 0 <= i < line.len() implies line[i] != '\n' by {
        assert(line.contains(line[i]));
    }
    let a = line + seq!['\n'] + rest;
    lemma_position_is(a, '\n', line.len() as int);
    assert(a.take(line.len() as int) =~= line);
    assert(a.skip(line.len() as int + 1) =~= rest);
    let b = line + seq!['\r', '\n'] + rest;
    lemma_position_is(b, '\n', line.len() as int + 1);
    assert(b.take(line.len() as int + 1) =~= line.push('\r'));
    assert(line.push('\r').drop_last() =~= line);
    assert(b.skip(line.len() as int + 2) =~= rest);
    lemma_position_is(line, '\n', line.len() as int);
}

/// A text begins with what it was put together from first, and holds each of the
/// parts that it was put together from.
pub proof fn law_a_text_holds_its_parts(a: Seq<char>, b: Seq<char>, c: Seq<char>)
    ensures
        has_prefix(a + b, a),
        occurs(b, a + b + c),
{
    assert((a + b).take(a.len() as int) =~= a);
    let all = a + b + c;
    assert(all.subrange(a.len() as int, a.len() as int + b.len()) =~= b);
    assert(occurs_at(b, all, a.len() as int));
}

/// Two texts are in the order of the first characters in which they differ, and a
/// text comes before whatever it is the beginning of.
pub proof fn law_order_is_decided_by_the_first_difference(
    same: Seq<char>,
    a: char,
    b: char,
    s: Seq<char>,
    t: Seq<char>,
)
    ensures
        a < b ==> before(same + seq![a] + s, same + seq![b] + t),
        a < b ==> !before(same + seq![b] + t, same + seq![a] + s),
        before(same, same + seq![a] + s),
        !before(same + seq![a] + s, same),
    decreases same.len(),
{
    let x = same + seq![a] + s;
    let y = same + seq![b] + t;
    if same.len() > 0 {
        let rest = same.drop_first();
        law_order_is_decided_by_the_first_difference(rest, a, b, s, t);
        assert(x.drop_first() =~= rest + seq![a] + s);
        assert(y.drop_first() =~= rest + seq![b] + t);
        assert(x[0] == same[0] && y[0] == same[0]);
    } else {
        assert(x[0] == a && y[0] == b);
    }
}

/// Letters are the same whatever their case, and only letters are.
pub proof fn law_only_the_case_of_letters_is_ignored(c: char, d: char)
    ensures
        'a' <= c <= 'z' && d as int == c as int - 32 ==> same_ignoring_ascii_case(
            seq![c],
            seq![d],
        ),
        c != d && !('a' <= c <= 'z') && !('A' <= c <= 'Z') ==> !same_ignoring_ascii_case(
            seq![c],
            seq![d],
        ),
        same_ignoring_ascii_case(seq![c], seq![c]),
{
    let a = seq![c];
    let b = seq![d];
    assert(a[0] == c && b[0] == d);
    if same_ignoring_ascii_case(a, b) {
        assert(crate::text::ascii_lower(a[0]) == crate::text::ascii_lower(b[0]));
    }
}

/// A number that was written in base ten is read as that number, with or without
/// a plus sign, as long as it is not over the limit.
pub proof fn law_a_written_number_is_read_back(n: nat, max: nat, d: nat)
    requires
        d < 10,
    ensures
        n <= max ==> number(decimal(n), max) == Some(n),
        n <= max ==> number(seq!['+'] + decimal(n), max) == Some(n),
        n > max ==> number(decimal(n), max) is None,
        decimal(d) == seq![('0' as int + d) as char],
        n > 0 ==> decimal(10 * n + d) == decimal(n) + decimal(d),
        number(Seq::<char>::empty(), max) is None,
{
    lemma_decimal(n);
    let plus = seq!['+'] + decimal(n);
    assert(plus.drop_first() =~= decimal(n));
    if n > 0 {
        let m = 10 * n + d;
        assert(m % 10 == d && m / 10 == n);
        assert(decimal(n).push(crate::text::digit_char(d)) =~= decimal(n) + decimal(d));
    }
}

/// A text with something else than digits in it is no number, but for one plus
/// sign in front.
pub proof fn law_only_digits_are_a_number(s: Seq<char>, max: nat, i: int)
    requires
        0 <= i < s.len(),
        !('0' <= s[i] <= '9'),
        i > 0 || s[0] != '+',
    ensures
        number(s, max) is None,
{
    let d = crate::text::strip_plus(s);
    if s[0] == '+' {
        assert(d[i - 1] == s[i]);
        assert(!crate::text::is_digit(d[i - 1]));
    } else {
        assert(!crate::text::is_digit(d[i]));
    }
}

/// The value of a text of digits in base sixteen.
pub open spec fn hex_value(s: Seq<char>) -> int
    decreases s.len(),
{
    if s.len() == 0 {
        0
    } else {
        hex_value(s.drop_last()) * 16 + hex_digit(s.last())
    }
}

/// The value of a digit in base sixteen.
pub open spec fn hex_digit(c: char) -> int {
    if '0' <= c <= '9' {
        c as int - '0' as int
    } else {
        c as int - 'a' as int + 10
    }
}

/// A number in base sixteen has that number's value, so no two numbers are
/// written the same.
pub proof fn law_base_sixteen_keeps_the_value(n: nat)
    ensures
        hex_value(hexadecimal(n)) == n,
        hexadecimal(n).len() > 0,
    decreases n,
{
    assert(hex_digit(hex_char(n % 16)) == n % 16);
    if n < 16 {
        let s = seq![hex_char(n)];
        assert(s.drop_last() =~= Seq::<char>::empty());
        assert(hex_value(s.drop_last()) == 0);
        assert(n % 16 == n);
    } else {
        law_base_sixteen_keeps_the_value(n / 16);
        let s = hexadecimal(n);
        assert(s.drop_last() =~= hexadecimal(n / 16));
        assert(n == (n / 16) * 16 + n % 16);
    }
}

} // verus!
