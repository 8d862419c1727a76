//! Text as sequences of characters: white space, lines, separators and
//! decimal numbers, the way the standard library reads them in a `str`.
use vstd::prelude::*;
use vstd::string::*;

verus! {

/// `String::push`: the given character is appended to the end of the string.
pub assume_specification[ String::push ](s: &mut String, c: char)
    ensures
        final(s)@ == old(s)@.push(c),
;

/// The characters with the Unicode property `White_Space`.
pub open spec fn is_white_space(c: char) -> bool {
    let u = c as u32;
    ||| 0x9 <= u <= 0xd
    ||| u == 0x20
    ||| u == 0x85
    ||| u == 0xa0
    ||| u == 0x1680
    ||| 0x2000 <= u <= 0x200a
    ||| u == 0x2028
    ||| u == 0x2029
    ||| u == 0x202f
    ||| u == 0x205f
    ||| u == 0x3000
}

/// Tells white space apart from every other character.
pub fn white_space(c: char) -> (b: bool)
    ensures
        b == is_white_space(c),
{
    let u: u32 = c as u32;
    (0x9 <= u && u <= 0xd) || u == 0x20 || u == 0x85 || u == 0xa0 || u == 0x1680 || (0x2000 <= u
        && u <= 0x200a) || u == 0x2028 || u == 0x2029 || u == 0x202f || u == 0x205f || u == 0x3000
}

/// The characters of a string, one by one.
pub fn to_chars(s: &str) -> (v: Vec<char>)
    ensures
        v@ == s@,
{
    let mut v: Vec<char> = Vec::new();
    for c in it: s.chars()
        invariant
            v@ == it.seq().take(it.index() as int),
            it.seq() == s@,
    {
        v.push(c);
    }
    v
}

/// The string made of the given characters.
pub fn to_text(chars: &[char]) -> (s: String)
    ensures
        s@ == chars@,
{
    let mut s = String::new();
    for i in 0..chars.len()
        invariant
            s@ == chars@.take(i as int),
    {
        s.push(chars[i]);
    }
    s
}

/// A text without the white space it begins with.
pub open spec fn trim_start(s: Seq<char>) -> Seq<char>
    decreases s.len(),
{
    if s.len() > 0 && is_white_space(s[0]) {
        trim_start(s.drop_first())
    } else {
        s
    }
}

/// A text without the white space it ends with.
pub open spec fn trim_end(s: Seq<char>) -> Seq<char>
    decreases s.len(),
{
    if s.len() > 0 && is_white_space(s.last()) {
        trim_end(s.drop_last())
    } else {
        s
    }
}

/// A text without white space at either end.
pub open spec fn trim(s: Seq<char>) -> Seq<char> {
    trim_end(trim_start(s))
}

/// Cuts off trailing white space.
pub fn trimmed_end<'a>(s: &'a [char]) -> (r: &'a [char])
    ensures
        r@ == trim_end(s@),
{
    let mut end: usize = s.len();
    assert(s@.take(end as int) == s@);
    while end > 0 && white_space(s[end - 1])
        invariant
            end <= s@.len(),
            trim_end(s@) == trim_end(s@.take(end as int)),
        decreases end,
    {
        assert(s@.take(end as int).drop_last() == s@.take(end - 1));
        end = end - 1;
    }
    assert(s@.take(end as int) == s@.subrange(0, end as int));
    &s[0..end]
}

/// Cuts off white space at both ends.
pub fn trimmed<'a>(s: &'a [char]) -> (r: &'a [char])
    ensures
        r@ == trim(s@),
{
    let mut start: usize = 0;
    assert(s@.skip(0) == s@);
    while start < s.len() && white_space(s[start])
        invariant
            start <= s@.len(),
            trim_start(s@) == trim_start(s@.skip(start as int)),
        decreases s@.len() - start,
    {
        assert(s@.skip(start as int).drop_first() == s@.skip(start + 1));
        start = start + 1;
    }
    assert(s@.skip(start as int) == s@.subrange(start as int, s@.len() as int));
    trimmed_end(&s[start..s.len()])
}

/// Where something occurs first in a sequence; the sequence's length if it does
/// not occur.
pub open spec fn position<A>(s: Seq<A>, c: A) -> int
    decreases s.len(),
{
    if s.len() == 0 || s[0] == c {
        0
    } else {
        1 + position(s.drop_first(), c)
    }
}

/// The position of something is the least index that holds it.
pub proof fn lemma_position<A>(s: Seq<A>, c: A)
    ensures
        0 <= position(s, c) <= s.len(),
        position(s, c) < s.len() ==> s[position(s, c)] == c,
        forall|j: int| 0 <= j < position(s, c) ==> s[j] != c,
    decreases s.len(),
{
    if s.len() > 0 && s[0] != c {
        lemma_position(s.drop_first(), c);
        assert forall|j: int| 0 <= j < position(s, c) implies s[j] != c by {
            if j > 0 {
                assert(s.drop_first()[j - 1] != c);
            }
        }
    }
}

/// An index that holds something, with none before it that does, is its
/// position. So is the length where no index does.
pub proof fn lemma_position_is<A>(s: Seq<A>, c: A, i: int)
    requires
        0 <= i <= s.len(),
        i < s.len() ==> s[i] == c,
        forall|j: int| 0 <= j < i ==> s[j] != c,
    ensures
        position(s, c) == i,
{
    lemma_position(s, c);
}

/// Finds the first occurrence of a character.
pub fn find_char(s: &[char], c: char) -> (i: usize)
    ensures
        i == position(s@, c),
        i <= s@.len(),
{
    let mut i: usize = 0;
    while i < s.len() && s[i] != c
        invariant
            i <= s@.len(),
            forall|j: int| 0 <= j < i ==> s@[j] != c,
        decreases s@.len() - i,
    {
        i = i + 1;
    }
    proof {
        lemma_position_is(s@, c, i as int);
    }
    i
}

/// The pieces of a text between the occurrences of a separator: one piece more
/// than there are separators.
pub open spec fn split_on(s: Seq<char>, sep: char) -> Seq<Seq<char>>
    decreases s.len(),
{
    let i = position(s, sep);
    proof {
        lemma_position(s, sep);
    }
    if i < s.len() {
        seq![s.take(i)] + split_on(s.skip(i + 1), sep)
    } else {
        seq![s]
    }
}

/// The texts that a vector of pieces stands for.
pub open spec fn views(pieces: Seq<&[char]>) -> Seq<Seq<char>> {
    pieces.map_values(|p: &[char]| p@)
}

/// Splits a text at every occurrence of a separator.
pub fn split_pieces<'a>(s: &'a [char], sep: char) -> (pieces: Vec<&'a [char]>)
    ensures
        views(pieces@) == split_on(s@, sep),
{
    let mut pieces: Vec<&'a [char]> = Vec::new();
    let mut rest: &'a [char] = s;
    loop
        invariant
            views(pieces@) + split_on(rest@, sep) == split_on(s@, sep),
        ensures
            views(pieces@) + split_on(rest@, sep) == split_on(s@, sep),
            position(rest@, sep) == rest@.len(),
        decreases rest@.len(),
    {
        let i: usize = find_char(rest, sep);
        if i == rest.len() {
            break;
        }
        let ghost before = pieces@;
        let ghost whole = rest@;
        let piece = &rest[0..i];
        pieces.push(piece);
        rest = &rest[i + 1..rest.len()];
        proof {
            assert(piece@ == whole.take(i as int));
            assert(rest@ == whole.skip(i + 1));
            assert(views(pieces@) == views(before).push(piece@));
            assert(views(pieces@) + split_on(rest@, sep) == views(before) + (seq![piece@]
                + split_on(rest@, sep)));
        }
    }
    let ghost before = pieces@;
    pieces.push(rest);
    proof {
        assert(views(pieces@) == views(before).push(rest@));
        assert(views(pieces@) == views(before) + seq![rest@]);
    }
    pieces
}

/// Splitting texts with a separator between them gives the pieces of the one
/// and then the pieces of the other.
pub proof fn lemma_split_concat(a: Seq<char>, b: Seq<char>, sep: char)
    ensures
        split_on(a + seq![sep] + b, sep) == split_on(a, sep) + split_on(b, sep),
    decreases a.len(),
{
    let s = a + seq![sep] + b;
    let i = position(a, sep);
    lemma_position(a, sep);
    assert forall|j: int| 0 <= j < i implies s[j] != sep by {
        assert(s[j] == a[j]);
    }
    if i < a.len() {
        assert(s[i] == a[i]);
        lemma_position_is(s, sep, i);
        lemma_split_concat(a.skip(i + 1), b, sep);
        assert(s.skip(i + 1) == a.skip(i + 1) + seq![sep] + b);
        assert(s.take(i) == a.take(i));
        assert(split_on(s, sep) == seq![a.take(i)] + (split_on(a.skip(i + 1), sep) + split_on(
            b,
            sep,
        )));
    } else {
        lemma_position_is(s, sep, i);
        assert(s.take(i) == a);
        assert(s.skip(i + 1) == b);
    }
}

/// A text without the separator is its only piece.
pub proof fn lemma_split_single(s: Seq<char>, sep: char)
    requires
        !s.contains(sep),
    ensures
        split_on(s, sep) == seq![s],
{
    lemma_position(s, sep);
    if position(s, sep) < s.len() {
        assert(s.contains(s[position(s, sep)]));
    }
}

/// No piece of a text contains the separator.
pub proof fn lemma_split_pieces(s: Seq<char>, sep: char)
    ensures
        forall|k: int| 0 <= k < split_on(s, sep).len() ==> !(#[trigger] split_on(s, sep)[k]).contains(
            sep,
        ),
    decreases s.len(),
{
    let i = position(s, sep);
    lemma_position(s, sep);
    if i < s.len() {
        lemma_split_pieces(s.skip(i + 1), sep);
        let rest = split_on(s.skip(i + 1), sep);
        assert forall|k: int| 0 <= k < split_on(s, sep).len() implies !(#[trigger] split_on(
            s,
            sep,
        )[k]).contains(sep) by {
            if k > 0 {
                assert(split_on(s, sep)[k] == rest[k - 1]);
            }
        }
    }
}

/// What a filter keeps of a sequence and another is what it keeps of each.
pub proof fn lemma_filter_map_concat<A, B>(a: Seq<A>, b: Seq<A>, f: spec_fn(A) -> Option<B>)
    ensures
        (a + b).filter_map(f) == a.filter_map(f) + b.filter_map(f),
    decreases b.len(),
{
    if b.len() == 0 {
        assert(a + b == a);
    } else {
        lemma_filter_map_concat(a, b.drop_last(), f);
        assert((a + b).drop_last() == a + b.drop_last());
        assert((a + b).last() == b.last());
    }
}

/// A line of text without the carriage return it ends with.
pub open spec fn without_return(line: Seq<char>) -> Seq<char> {
    if line.len() > 0 && line.last() == '\r' {
        line.drop_last()
    } else {
        line
    }
}

/// The lines of a text. A line ends with a line feed, or with a carriage
/// return and a line feed, neither of which belongs to it. The last line needs
/// no ending; where it has none, a carriage return at its end belongs to it.
pub open spec fn lines(s: Seq<char>) -> Seq<Seq<char>>
    decreases s.len(),
{
    let i = position(s, '\n');
    proof {
        lemma_position(s, '\n');
    }
    if s.len() == 0 {
        seq![]
    } else if i < s.len() {
        seq![without_return(s.take(i))] + lines(s.skip(i + 1))
    } else {
        seq![s]
    }
}

/// Splits a text into its lines.
pub fn split_lines<'a>(s: &'a [char]) -> (pieces: Vec<&'a [char]>)
    ensures
        views(pieces@) == lines(s@),
{
    let mut pieces: Vec<&'a [char]> = Vec::new();
    let mut rest: &'a [char] = s;
    while rest.len() > 0
        invariant
            views(pieces@) + lines(rest@) == lines(s@),
        decreases rest@.len(),
    {
        let i: usize = find_char(rest, '\n');
        let ghost before = pieces@;
        let ghost whole = rest@;
        let line = &rest[0..i];
        if i == rest.len() {
            pieces.push(line);
            rest = &rest[i..i];
            proof {
                assert(line@ == whole);
                assert(views(pieces@) == views(before).push(line@));
                assert(views(pieces@) + lines(rest@) == views(before) + seq![line@]);
            }
        } else {
            let kept = if line.len() > 0 && line[line.len() - 1] == '\r' {
                &line[0..line.len() - 1]
            } else {
                line
            };
            pieces.push(kept);
            rest = &rest[i + 1..rest.len()];
            proof {
                assert(line@ == whole.take(i as int));
                assert(kept@ == without_return(line@));
                assert(rest@ == whole.skip(i + 1));
                assert(views(pieces@) == views(before).push(kept@));
                assert(views(pieces@) + lines(rest@) == views(before) + (seq![kept@] + lines(
                    rest@,
                )));
            }
        }
    }
    assert(views(pieces@) + lines(rest@) == views(pieces@));
    pieces
}

/// Whether two texts have the same characters.
pub fn same_text(a: &[char], b: &[char]) -> (same: bool)
    ensures
        same == (a@ == b@),
{
    if a.len() != b.len() {
        return false;
    }
    for i in 0..a.len()
        invariant
            a@.len() == b@.len(),
            a@.take(i as int) == b@.take(i as int),
    {
        if a[i] != b[i] {
            assert(a@[i as int] != b@[i as int]);
            return false;
        }
    }
    assert(a@.take(a@.len() as int) == a@);
    assert(b@.take(b@.len() as int) == b@);
    true
}

/// Whether a text is the given literal.
pub fn is_text(s: &[char], literal: &str) -> (same: bool)
    ensures
        same == (s@ == literal@),
{
    let l = to_chars(literal);
    same_text(s, l.as_slice())
}

/// Whether a text begins with the given one.
pub fn starts_with(s: &[char], prefix: &str) -> (b: bool)
    ensures
        b == prefix@.is_prefix_of(s@),
{
    let p = to_chars(prefix);
    p.len() <= s.len() && same_text(&s[0..p.len()], p.as_slice())
}

/// Whether a text ends with the given one.
pub fn ends_with(s: &[char], suffix: &str) -> (b: bool)
    ensures
        b == suffix@.is_suffix_of(s@),
{
    let p = to_chars(suffix);
    p.len() <= s.len() && same_text(&s[s.len() - p.len()..s.len()], p.as_slice())
}

/// The code of a character, with `A` to `Z` counted as `a` to `z`.
pub open spec fn folded(c: char) -> u32 {
    if 'A' <= c <= 'Z' {
        (c as u32 + 32) as u32
    } else {
        c as u32
    }
}

/// Whether two texts are the same but for the case of `A` to `Z`.
pub open spec fn same_ignoring_ascii_case(a: Seq<char>, b: Seq<char>) -> bool {
    &&& a.len() == b.len()
    &&& forall|i: int| 0 <= i < a.len() ==> folded(#[trigger] a[i]) == folded(b[i])
}

/// Maps `A` to `Z` onto `a` to `z`.
fn fold(c: char) -> (u: u32)
    ensures
        u == folded(c),
{
    if 'A' <= c && c <= 'Z' {
        c as u32 + 32
    } else {
        c as u32
    }
}

/// Whether a text is the given literal, but for the case of `A` to `Z`.
pub fn is_text_ignoring_ascii_case(s: &[char], literal: &str) -> (same: bool)
    ensures
        same == same_ignoring_ascii_case(s@, literal@),
{
    let l = to_chars(literal);
    if s.len() != l.len() {
        return false;
    }
    for i in 0..s.len()
        invariant
            s@.len() == l@.len(),
            l@ == literal@,
            forall|j: int| 0 <= j < i ==> folded(s@[j]) == folded(l@[j]),
    {
        if fold(s[i]) != fold(l[i]) {
            assert(folded(s@[i as int]) != folded(literal@[i as int]));
            return false;
        }
    }
    true
}

/// `0` to `9`.
pub open spec fn is_digit(c: char) -> bool {
    '0' <= c <= '9'
}

/// A row of digits.
pub open spec fn all_digits(s: Seq<char>) -> bool {
    forall|i: int| 0 <= i < s.len() ==> is_digit(#[trigger] s[i])
}

/// The number that a row of digits writes in base ten.
pub open spec fn digits_value(s: Seq<char>) -> nat
    decreases s.len(),
{
    if s.len() == 0 {
        0
    } else {
        digits_value(s.drop_last()) * 10 + (s.last() as u32 - '0' as u32) as nat
    }
}

/// A row of digits without the plus sign in front of it.
pub open spec fn without_plus(s: Seq<char>) -> Seq<char> {
    if s.len() > 0 && s[0] == '+' {
        s.drop_first()
    } else {
        s
    }
}

/// The number that a text writes: one or more digits, perhaps after a plus
/// sign, of a value that fits in 64 bits.
pub open spec fn decimal(s: Seq<char>) -> Option<u64> {
    let digits = without_plus(s);
    if digits.len() > 0 && all_digits(digits) && digits_value(digits) <= u64::MAX {
        Some(digits_value(digits) as u64)
    } else {
        None
    }
}

/// Every further digit makes a number at least as large.
proof fn lemma_digits_value_grows(s: Seq<char>, n: int)
    requires
        0 <= n <= s.len(),
        all_digits(s),
    ensures
        digits_value(s.take(n)) <= digits_value(s),
    decreases s.len(),
{
    if n < s.len() {
        let shorter = s.drop_last();
        assert(all_digits(shorter));
        lemma_digits_value_grows(shorter, n);
        assert(shorter.take(n) == s.take(n));
    } else {
        assert(s.take(n) == s);
    }
}

/// Reads a number of at most 64 bits in base ten.
pub fn parse_decimal(s: &[char]) -> (n: Option<u64>)
    ensures
        n == decimal(s@),
{
    let start: usize = if s.len() > 0 && s[0] == '+' {
        1
    } else {
        0
    };
    let digits = &s[start..s.len()];
    assert(digits@ == without_plus(s@));
    if digits.len() == 0 {
        return None;
    }
    let mut n: u64 = 0;
    for i in 0..digits.len()
        invariant
            digits@ == without_plus(s@),
            n == digits_value(digits@.take(i as int)),
            forall|j: int| 0 <= j < i ==> is_digit(digits@[j]),
    {
        let c = digits[i];
        if !('0' <= c && c <= '9') {
            assert(!is_digit(digits@[i as int]));
            return None;
        }
        let ghost next = digits@.take(i + 1);
        assert(next.drop_last() == digits@.take(i as int));
        let digit: u64 = (c as u32 - '0' as u32) as u64;
        assert(digits_value(next) == n * 10 + digit);
        if n > (u64::MAX - digit) / 10 {
            proof {
                if all_digits(digits@) {
                    lemma_digits_value_grows(digits@, i + 1);
                }
            }
            return None;
        }
        n = n * 10 + digit;
    }
    assert(digits@.take(digits@.len() as int) == digits@);
    Some(n)
}

/// A number written in base ten, without leading zeros.
pub open spec fn decimal_text(n: nat) -> Seq<char>
    decreases n,
{
    let last = ('0' as int + n % 10) as char;
    if n < 10 {
        seq![last]
    } else {
        decimal_text(n / 10).push(last)
    }
}

/// What is written of a number are digits with its value.
proof fn lemma_decimal_text(n: nat)
    ensures
        decimal_text(n).len() > 0,
        all_digits(decimal_text(n)),
        digits_value(decimal_text(n)) == n,
    decreases n,
{
    let s = decimal_text(n);
    if n < 10 {
        assert(s.drop_last() == Seq::<char>::empty());
        assert(digits_value(Seq::<char>::empty()) == 0);
    } else {
        lemma_decimal_text(n / 10);
        assert(s.drop_last() == decimal_text(n / 10));
    }
}

/// A number is read back from what is written of it.
pub proof fn law_decimal_round_trip(n: u64)
    ensures
        decimal(decimal_text(n as nat)) == Some(n),
        all_digits(decimal_text(n as nat)),
{
    lemma_decimal_text(n as nat);
    assert(is_digit(decimal_text(n as nat)[0]));
}

} // verus!
