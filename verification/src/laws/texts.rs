//! Laws of text: how numbers are written and read, and how texts are searched and
//! trimmed.

use vstd::prelude::*;

use crate::text::{
    all_digits, decimal, digits, digits_value, fold, has_infix, has_prefix, hex, is_digit, is_space,
    read_int, stands_at, trim_back, trim_front, trimmed,
};

verus! {

/// A digit more at the end of a number is a digit more at the end of its text: the
/// text of ten times a number and something is the text of the number and the digit
/// of what was added. A number below ten is its digit alone.
pub proof fn numbers_are_written_digit_by_digit(n: nat, d: nat)
    requires
        d < 10,
    ensures
        n > 0 ==> digits(10 * n + d) == digits(n).push(('0' as u32 + d) as char),
        digits(d) == seq![('0' as u32 + d) as char],
{
    assert((10 * n + d) / 10 == n && (10 * n + d) % 10 == d);
    assert(d == 0 || d == 1 || d == 2 || d == 3 || d == 4 || d == 5 || d == 6 || d == 7 || d == 8
        || d == 9);
}

/// A negative number is written as the number without its sign behind a minus sign.
pub proof fn negative_numbers_have_a_minus_sign(n: nat)
    ensures
        decimal(n as int) == digits(n),
        n > 0 ==> decimal(-(n as int)) == seq!['-'] + digits(n),
{
}

/// A digit more at the end of a text makes the number ten times as large and adds the
/// digit.
pub proof fn numbers_are_read_digit_by_digit(s: Seq<char>, d: nat)
    requires
        d < 10,
    ensures
        digits_value(s.push(('0' as u32 + d) as char)) == 10 * digits_value(s) + d,
        digits_value(Seq::empty()) == 0,
{
    let c = ('0' as u32 + d) as char;
    assert(s.push(c).drop_last() =~= s);
    assert(s.push(c).last() == c);
    assert(d == 0 || d == 1 || d == 2 || d == 3 || d == 4 || d == 5 || d == 6 || d == 7 || d == 8
        || d == 9);
}

/// A number is read from its digits, with a plus sign before it or without, and where
/// it may be negative from digits behind a minus sign. Nothing else is a number.
pub proof fn what_reads_as_a_number(s: Seq<char>, signed: bool)
    ensures
        s.len() > 0 && (forall|i: int| 0 <= i < s.len() ==> '0' <= #[trigger] s[i] <= '9') ==> {
            &&& read_int(s, signed) == Some(digits_value(s))
            &&& read_int(seq!['+'] + s, signed) == Some(digits_value(s))
            &&& read_int(seq!['-'] + s, true) == Some(-digits_value(s))
            &&& read_int(seq!['-'] + s, false) is None
        },
        read_int(s, signed) is Some ==> {
            let body = if s[0] == '+' || s[0] == '-' { s.skip(1) } else { s };
            &&& s[0] == '-' ==> signed
            &&& body.len() > 0
            &&& forall|i: int| 0 <= i < body.len() ==> '0' <= #[trigger] body[i] <= '9'
        },
{
    if s.len() > 0 && forall|i: int| 0 <= i < s.len() ==> '0' <= #[trigger] s[i] <= '9' {
        assert(all_digits(s));
        assert(s[0] != '+' && s[0] != '-');
        assert((seq!['+'] + s).skip(1) =~= s);
        assert((seq!['-'] + s).skip(1) =~= s);
        assert((seq!['+'] + s)[0] == '+');
        assert((seq!['-'] + s)[0] == '-');
        assert(read_int(seq!['-'] + s, false) is None) by {
            let t = seq!['-'] + s;
            assert(!is_digit(t[0]));
        }
    }
    if read_int(s, signed) is Some {
        if s[0] == '-' && !signed {
            assert(is_digit(s[0]));
            assert(false);
        }
    }
}

/// A hexadecimal text is written digit by digit too, the last for what is left of
/// sixteens, and has as many digits as asked for.
pub proof fn hex_is_written_digit_by_digit(n: nat, d: nat, width: nat)
    requires
        d < 16,
    ensures
        hex(16 * n + d, width + 1) == hex(n, width).push(
            if d < 10 {
                ('0' as u32 + d) as char
            } else {
                ('a' as u32 + (d - 10)) as char
            },
        ),
        hex(n, width).len() == width,
    decreases width,
{
    assert((16 * n + d) / 16 == n && (16 * n + d) % 16 == d);
    assert(d == 0 || d == 1 || d == 2 || d == 3 || d == 4 || d == 5 || d == 6 || d == 7 || d == 8
        || d == 9 || d == 10 || d == 11 || d == 12 || d == 13 || d == 14 || d == 15);
    if width > 0 {
        hex_is_written_digit_by_digit(n / 16, 0, (width - 1) as nat);
    }
}

/// White space is blanks, tabs and line ends, and the spaces of other scripts.
pub proof fn what_is_white_space(c: char)
    ensures
        is_space(c) <==> c == ' ' || c == '\t' || c == '\n' || c == '\u{b}' || c == '\u{c}' || c
            == '\r' || c == '\u{85}' || c == '\u{a0}' || c == '\u{1680}' || '\u{2000}' <= c
            <= '\u{200a}' || c == '\u{2028}' || c == '\u{2029}' || c == '\u{202f}' || c
            == '\u{205f}' || c == '\u{3000}',
{
}

proof fn lemma_trim_front(s: Seq<char>) -> (from: int)
    ensures
        0 <= from <= s.len(),
        trim_front(s) == s.skip(from),
        forall|i: int| 0 <= i < from ==> is_space(#[trigger] s[i]),
        from < s.len() ==> !is_space(s[from]),
    decreases s.len(),
{
    if s.len() > 0 && is_space(s[0]) {
        let rest = lemma_trim_front(s.skip(1));
        assert(s.skip(1).skip(rest) =~= s.skip(rest + 1));
        assert forall|i: int| 0 <= i < rest + 1 implies is_space(#[trigger] s[i]) by {
            if i > 0 {
                assert(s.skip(1)[i - 1] == s[i]);
            }
        }
        rest + 1
    } else {
        assert(s.skip(0) =~= s);
        0
    }
}

proof fn lemma_trim_back(s: Seq<char>) -> (to: int)
    ensures
        0 <= to <= s.len(),
        trim_back(s) == s.take(to),
        forall|i: int| to <= i < s.len() ==> is_space(#[trigger] s[i]),
        to > 0 ==> !is_space(s[to - 1]),
    decreases s.len(),
{
    if s.len() > 0 && is_space(s.last()) {
        let to = lemma_trim_back(s.drop_last());
        assert(s.drop_last().take(to) =~= s.take(to));
        assert forall|i: int| to <= i < s.len() implies is_space(#[trigger] s[i]) by {
            if i < s.len() - 1 {
                assert(s.drop_last()[i] == s[i]);
            }
        }
        to
    } else {
        assert(s.take(s.len() as int) =~= s);
        s.len() as int
    }
}

/// Trimming takes the white space around a text and nothing else: what is left is the
/// text from its first to its last character that is not white space, in full.
pub proof fn trimming_takes_white_space_only(s: Seq<char>, from: int, to: int)
    requires
        0 <= from < to <= s.len(),
        forall|i: int| 0 <= i < from ==> is_space(#[trigger] s[i]),
        forall|i: int| to <= i < s.len() ==> is_space(#[trigger] s[i]),
        !is_space(s[from]),
        !is_space(s[to - 1]),
    ensures
        trimmed(s) == s.subrange(from, to),
{
    let a = lemma_trim_front(s);
    if a < from {
        assert(is_space(s[a]));
    } else if from < a {
        assert(is_space(s[from]));
    }
    let rest = s.skip(from);
    let b = lemma_trim_back(rest);
    assert(rest[to - from - 1] == s[to - 1]);
    if b < to - from {
        assert(is_space(rest[to - from - 1]));
    } else if to - from < b {
        assert(is_space(s[from + b - 1]));
        assert(rest[b - 1] == s[from + b - 1]);
    }
    assert(rest.take(b) =~= s.subrange(from, to));
}

/// Of a text of white space alone trimming leaves nothing, and of no other.
pub proof fn only_white_space_trims_to_nothing(s: Seq<char>)
    ensures
        trimmed(s).len() == 0 <==> forall|i: int| 0 <= i < s.len() ==> is_space(#[trigger] s[i]),
{
    let a = lemma_trim_front(s);
    let rest = s.skip(a);
    let b = lemma_trim_back(rest);
    if a < s.len() {
        assert(!is_space(s[a]));
        if b == 0 {
            assert(is_space(rest[0]));
            assert(rest[0] == s[a]);
        }
    }
}

/// A text begins with another just when it is that and something behind it.
pub proof fn what_begins_a_text(head: Seq<char>, rest: Seq<char>, s: Seq<char>)
    ensures
        has_prefix(head + rest, head),
        has_prefix(s, head) ==> s == head + s.skip(head.len() as int),
{
    assert((head + rest).take(head.len() as int) =~= head);
    if has_prefix(s, head) {
        assert(s =~= head + s.skip(head.len() as int));
    }
}

/// A text holds another just when it is something, that, and something.
pub proof fn what_a_text_holds(before: Seq<char>, part: Seq<char>, behind: Seq<char>, s: Seq<char>)
    ensures
        has_infix(before + part + behind, part),
        has_infix(s, part) ==> exists|i: int|
            0 <= i <= s.len() - part.len() && s == #[trigger] s.take(i) + part + s.skip(
                i + part.len(),
            ),
{
    let t = before + part + behind;
    let n = before.len() as int;
    assert(t.subrange(n, n + part.len()) =~= part);
    assert(stands_at(t, part, n));
    if has_infix(s, part) {
        let i = choose|i: int| #[trigger] stands_at(s, part, i);
        assert(s.subrange(i, i + part.len()) == part);
        assert(s =~= s.take(i) + s.subrange(i, i + part.len()) + s.skip(i + part.len()));
        assert(s == s.take(i) + part + s.skip(i + part.len()));
    }
}

/// Case is folded letter by letter: the capitals of ASCII become small letters, every
/// other character stays.
pub proof fn case_is_folded_letter_by_letter(s: Seq<char>, i: int)
    requires
        0 <= i < s.len(),
    ensures
        fold(s).len() == s.len(),
        'A' <= s[i] <= 'Z' ==> fold(s)[i] as u32 == s[i] as u32 + 32,
        !('A' <= s[i] <= 'Z') ==> fold(s)[i] == s[i],
{
}

} // verus!
