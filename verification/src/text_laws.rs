//! What trimming, lines, numbers and case come to on any text.
use crate::text;
use vstd::prelude::*;

verus! {

/// White space is what Unicode calls so, and nothing else.
pub proof fn law_white_space(c: char)
    ensures
        text::is_white_space(c) <==> seq![
            '\t',
            '\n',
            '\u{b}',
            '\u{c}',
            '\r',
            ' ',
            '\u{85}',
            '\u{a0}',
            '\u{1680}',
            '\u{2000}',
            '\u{2001}',
            '\u{2002}',
            '\u{2003}',
            '\u{2004}',
            '\u{2005}',
            '\u{2006}',
            '\u{2007}',
            '\u{2008}',
            '\u{2009}',
            '\u{200a}',
            '\u{2028}',
            '\u{2029}',
            '\u{202f}',
            '\u{205f}',
            '\u{3000}',
        ].contains(c),
{
    let all = seq![
        '\t',
        '\n',
        '\u{b}',
        '\u{c}',
        '\r',
        ' ',
        '\u{85}',
        '\u{a0}',
        '\u{1680}',
        '\u{2000}',
        '\u{2001}',
        '\u{2002}',
        '\u{2003}',
        '\u{2004}',
        '\u{2005}',
        '\u{2006}',
        '\u{2007}',
        '\u{2008}',
        '\u{2009}',
        '\u{200a}',
        '\u{2028}',
        '\u{2029}',
        '\u{202f}',
        '\u{205f}',
        '\u{3000}',
    ];
    let u = c as u32;
    if text::is_white_space(c) {
        let i: int = if u <= 0xd {
            u - 0x9
        } else if u == 0x20 {
            5
        } else if u == 0x85 {
            6
        } else if u == 0xa0 {
            7
        } else if u == 0x1680 {
            8
        } else if u <= 0x200a {
            u - 0x2000 + 9
        } else if u == 0x2028 {
            20
        } else if u == 0x2029 {
            21
        } else if u == 0x202f {
            22
        } else if u == 0x205f {
            23
        } else {
            24
        };
        assert(all[i] == c);
    }
}

/// A text that is white space from end to end.
pub open spec fn is_blank(s: Seq<char>) -> bool {
    forall|i: int| 0 <= i < s.len() ==> text::is_white_space(#[trigger] s[i])
}

/// A text with no white space at its ends. It is not empty.
pub open spec fn has_clean_ends(s: Seq<char>) -> bool {
    s.len() > 0 && !text::is_white_space(s[0]) && !text::is_white_space(s[s.len() - 1])
}

/// White space in front of a text is cut off.
proof fn lemma_trim_start(left: Seq<char>, s: Seq<char>)
    requires
        is_blank(left),
    ensures
        text::trim_start(left + s) == text::trim_start(s),
    decreases left.len(),
{
    if left.len() == 0 {
        assert(left + s == s);
    } else {
        let next = left.drop_first();
        assert forall|i: int| 0 <= i < next.len() implies text::is_white_space(
            #[trigger] next[i],
        ) by {
            assert(next[i] == left[i + 1]);
        }
        lemma_trim_start(next, s);
        assert((left + s)[0] == left[0]);
        assert((left + s).drop_first() == next + s);
    }
}

/// White space behind a text is cut off, and nothing else is.
pub proof fn law_trim_end(s: Seq<char>, right: Seq<char>)
    requires
        is_blank(right),
        s.len() > 0 ==> !text::is_white_space(s[s.len() - 1]),
    ensures
        text::trim_end(s + right) == s,
    decreases right.len(),
{
    if right.len() == 0 {
        assert(s + right == s);
    } else {
        let shorter = right.drop_last();
        assert forall|i: int| 0 <= i < shorter.len() implies text::is_white_space(
            #[trigger] shorter[i],
        ) by {
            assert(shorter[i] == right[i]);
        }
        law_trim_end(s, shorter);
        assert((s + right).last() == right[right.len() - 1]);
        assert((s + right).drop_last() == s + shorter);
    }
}

/// Trimming cuts off the white space at the ends of a text, whatever it is,
/// and leaves the text.
pub proof fn law_trim(left: Seq<char>, s: Seq<char>, right: Seq<char>)
    requires
        is_blank(left),
        is_blank(right),
        has_clean_ends(s),
    ensures
        text::trim(left + s + right) == s,
{
    assert(left + s + right == left + (s + right));
    lemma_trim_start(left, s + right);
    assert((s + right)[0] == s[0]);
    law_trim_end(s, right);
}

/// Nothing is left of white space alone.
pub proof fn law_trim_blank(s: Seq<char>)
    requires
        is_blank(s),
    ensures
        text::trim(s) == Seq::<char>::empty(),
{
    let none = Seq::<char>::empty();
    lemma_trim_start(s, none);
    assert(s + none == s);
}

/// Lines end with a line feed or with a carriage return and a line feed, and
/// the text behind the ending has the other lines.
pub proof fn law_lines(line: Seq<char>, rest: Seq<char>)
    requires
        !line.contains('\n'),
    ensures
        line.len() == 0 || line[line.len() - 1] != '\r' ==> text::lines(
            line + seq!['\n'] + rest,
        ) == seq![line] + text::lines(rest),
        text::lines(line + seq!['\r', '\n'] + rest) == seq![line] + text::lines(rest),
        line.len() > 0 ==> text::lines(line) == seq![line],
        text::lines(Seq::<char>::empty()) == Seq::<Seq<char>>::empty(),
{
    let n = line.len() as int;
    assert forall|j: int| 0 <= j < n implies line[j] != '\n' by {
        assert(line.contains(line[j]));
    }
    let a = line + seq!['\n'] + rest;
    assert(a[n] == '\n');
    assert forall|j: int| 0 <= j < n implies a[j] != '\n' by {
        assert(a[j] == line[j]);
    }
    text::lemma_position_is(a, '\n', n);
    assert(a.take(n) == line);
    assert(a.skip(n + 1) == rest);
    let b = line + seq!['\r', '\n'] + rest;
    assert(b[n] == '\r');
    assert(b[n + 1] == '\n');
    assert forall|j: int| 0 <= j < n + 1 implies b[j] != '\n' by {
        if j < n {
            assert(b[j] == line[j]);
        }
    }
    text::lemma_position_is(b, '\n', n + 1);
    assert(b.take(n + 1) == line.push('\r'));
    assert(line.push('\r').drop_last() == line);
    assert(b.skip(n + 2) == rest);
    text::lemma_position_is(line, '\n', n);
}

/// The number that a row of digits makes.
pub open spec fn number(digits: Seq<int>) -> int
    decreases digits.len(),
{
    if digits.len() == 0 {
        0
    } else {
        number(digits.drop_last()) * 10 + digits[digits.len() - 1]
    }
}

/// A row of digits as it is written.
pub open spec fn written_digits(digits: Seq<int>) -> Seq<char> {
    Seq::new(digits.len(), |i: int| ('0' as int + digits[i]) as char)
}

/// The value of written digits.
proof fn lemma_number(digits: Seq<int>)
    requires
        forall|i: int| 0 <= i < digits.len() ==> 0 <= #[trigger] digits[i] <= 9,
    ensures
        text::all_digits(written_digits(digits)),
        text::digits_value(written_digits(digits)) == number(digits),
    decreases digits.len(),
{
    if digits.len() > 0 {
        let shorter = digits.drop_last();
        assert forall|i: int| 0 <= i < shorter.len() implies 0 <= #[trigger] shorter[i] <= 9 by {
            assert(shorter[i] == digits[i]);
        }
        lemma_number(shorter);
        assert(written_digits(digits).drop_last() == written_digits(shorter));
        let last = digits[digits.len() - 1];
        assert(written_digits(digits).last() == ('0' as int + last) as char);
    }
}

/// One or more digits write their number, with leading zeros and a plus sign or
/// without, as long as it fits in 64 bits.
pub proof fn law_digits_are_a_number(digits: Seq<int>)
    requires
        digits.len() > 0,
        forall|i: int| 0 <= i < digits.len() ==> 0 <= #[trigger] digits[i] <= 9,
    ensures
        text::decimal(written_digits(digits)) == if number(digits) <= u64::MAX {
            Some(number(digits) as u64)
        } else {
            None
        },
        text::decimal(seq!['+'] + written_digits(digits)) == if number(digits) <= u64::MAX {
            Some(number(digits) as u64)
        } else {
            None
        },
{
    lemma_number(digits);
    let s = written_digits(digits);
    assert(text::is_digit(s[0]));
    assert((seq!['+'] + s).drop_first() == s);
}

/// Nothing but digits, perhaps behind a plus sign, is a number.
pub proof fn law_a_number_is_digits(s: Seq<char>)
    requires
        s.len() == 0 || s == seq!['+'] || exists|i: int|
            0 <= i < s.len() && !('0' <= #[trigger] s[i] <= '9') && !(i == 0 && s[i] == '+'),
    ensures
        text::decimal(s) is None,
{
    let digits = text::without_plus(s);
    if s == seq!['+'] {
        assert(digits.len() == 0);
    } else if s.len() > 0 {
        let i = choose|i: int|
            0 <= i < s.len() && !('0' <= #[trigger] s[i] <= '9') && !(i == 0 && s[i] == '+');
        if s[0] == '+' {
            assert(digits[i - 1] == s[i]);
            assert(!text::is_digit(digits[i - 1]));
        } else {
            assert(!text::is_digit(digits[i]));
        }
    }
}

/// Characters with the same code are the same.
proof fn lemma_same_code(x: char, y: char)
    ensures
        x as u32 == y as u32 ==> x == y,
        x as u32 == x as int,
        y as u32 == y as int,
{
}

/// Texts are the same but for case exactly if each two characters are the same,
/// or a letter from `A` to `Z` and its small form.
pub proof fn law_case(a: Seq<char>, b: Seq<char>)
    ensures
        text::same_ignoring_ascii_case(a, b) <==> a.len() == b.len() && forall|i: int|
            0 <= i < a.len() ==> (#[trigger] a[i] == b[i] || ('A' <= a[i] <= 'Z' && b[i] as int
                == a[i] as int + 32) || ('A' <= b[i] <= 'Z' && a[i] as int == b[i] as int + 32)),
{
    if text::same_ignoring_ascii_case(a, b) {
        assert forall|i: int| 0 <= i < a.len() implies (#[trigger] a[i] == b[i] || ('A' <= a[i]
            <= 'Z' && b[i] as int == a[i] as int + 32) || ('A' <= b[i] <= 'Z' && a[i] as int
            == b[i] as int + 32)) by {
            let (x, y) = (a[i], b[i]);
            assert(text::folded(x) == text::folded(y));
            lemma_same_code(x, y);
            assert('A' <= x <= 'Z' ==> text::folded(x) == x as int + 32);
            assert('A' <= y <= 'Z' ==> text::folded(y) == y as int + 32);
        }
    }
}

} // verus!
