//! Laws of the operations on texts.

use crate::numerals::{all_digits, decimal, digit, digits_value, number_in, unsigned_part};
use crate::text::{
    after_prefix, has_space, is_blank, is_space, joined, lemma_blank, lemma_first_index, lex_le,
    lowercase, lowercased, occurs, occurs_at, text_lines, trim_end, trim_start, trimmed,
    without_suffixes, words, CharClass,
};
use vstd::prelude::*;
use vstd::string::*;

verus! {

/// Whether every character of `s` belongs to `class`.
pub open spec fn all_in(s: Seq<char>, class: CharClass) -> bool {
    forall|i: int| 0 <= i < s.len() ==> class.has(#[trigger] s[i])
}

proof fn lemma_trim_start(a: Seq<char>, rest: Seq<char>, class: CharClass)
    requires
        all_in(a, class),
    ensures
        trim_start(a + rest, class) == trim_start(rest, class),
    decreases a.len(),
{
    if a.len() == 0 {
        assert(a + rest =~= rest);
    } else {
        let b = a.skip(1);
        assert forall|i: int| 0 <= i < b.len() implies class.has(#[trigger] b[i]) by {
            assert(b[i] == a[i + 1]);
        }
        lemma_trim_start(b, rest, class);
        assert((a + rest).skip(1) =~= b + rest);
        assert((a + rest)[0] == a[0]);
    }
}

proof fn lemma_trim_end(front: Seq<char>, b: Seq<char>, class: CharClass)
    requires
        all_in(b, class),
    ensures
        trim_end(front + b, class) == trim_end(front, class),
    decreases b.len(),
{
    if b.len() == 0 {
        assert(front + b =~= front);
    } else {
        let a = b.drop_last();
        assert forall|i: int| 0 <= i < a.len() implies class.has(#[trigger] a[i]) by {
            assert(a[i] == b[i]);
        }
        lemma_trim_end(front, a, class);
        assert((front + b).drop_last() =~= front + a);
        assert((front + b).last() == b.last());
        assert(b.last() == b[b.len() - 1]);
    }
}

/// Trimming takes off what belongs to the class at both ends, and nothing else: whatever stands
/// round a core that neither starts nor ends with a character of the class, the core is left.
pub proof fn law_trimming_leaves_the_core(
    before: Seq<char>,
    core: Seq<char>,
    after: Seq<char>,
    class: CharClass,
)
    requires
        all_in(before, class),
        all_in(after, class),
        core.len() > 0 ==> !class.has(core[0]) && !class.has(core.last()),
    ensures
        trimmed(before + core + after, class) == core,
{
    assert(before + core + after =~= before + (core + after));
    lemma_trim_start(before, core + after, class);
    if core.len() == 0 {
        assert(core + after =~= after + core);
        lemma_trim_start(after, core, class);
        assert(trim_start(core, class) == core);
    } else {
        assert((core + after)[0] == core[0]);
        assert(trim_start(core + after, class) == core + after);
        lemma_trim_end(core, after, class);
    }
}

/// The characters that are trimmed: white space, or the two quotation marks.
pub proof fn law_classes(c: char)
    ensures
        CharClass::White.has(c) == is_space(c),
        CharClass::Quote.has(c) <==> c == '"' || c == '\'',
{
}

/// A text is blank exactly when it has no character but white space.
pub proof fn law_blank_is_white_space_only(s: Seq<char>)
    ensures
        is_blank(s) <==> forall|i: int| 0 <= i < s.len() ==> is_space(#[trigger] s[i]),
{
    lemma_blank(s);
}

/// Words are found on either side of white space as they are found alone.
pub proof fn law_words_are_separated_by_space(a: Seq<char>, space: char, b: Seq<char>)
    requires
        is_space(space),
    ensures
        words(a + seq![space] + b) == words(a) + words(b),
    decreases b.len(),
{
    let s = a + seq![space] + b;
    if b.len() == 0 {
        assert(s.drop_last() =~= a);
        assert(s.last() == space);
        assert(words(a) + words(b) =~= words(a));
    } else {
        let front = b.drop_last();
        law_words_are_separated_by_space(a, space, front);
        assert(s.drop_last() =~= a + seq![space] + front);
        assert(s.last() == b.last());
        let done = words(a) + words(front);
        if is_space(b.last()) {
        } else if b.len() > 1 {
            assert(s[s.len() - 2] == b[b.len() - 2]);
            if !is_space(b[b.len() - 2]) {
                lemma_word_is_open(front);
                assert(done.drop_last() =~= words(a) + words(front).drop_last());
                assert(done.last() == words(front).last());
            }
            assert(words(s) =~= words(a) + words(b));
        } else {
            assert(s[s.len() - 2] == space);
            assert(front =~= seq![]);
            assert(words(s) =~= words(a) + words(b));
        }
    }
}

proof fn lemma_word_is_open(s: Seq<char>)
    requires
        s.len() > 0,
        !is_space(s.last()),
    ensures
        words(s).len() > 0,
{
}

/// A text without white space is one word.
pub proof fn law_word_is_one_word(s: Seq<char>)
    requires
        s.len() > 0,
        forall|i: int| 0 <= i < s.len() ==> !is_space(#[trigger] s[i]),
    ensures
        words(s) == seq![s],
    decreases s.len(),
{
    let front = s.drop_last();
    assert(!is_space(s[s.len() - 1]));
    if s.len() == 1 {
        assert(words(front) =~= seq![]);
        assert(s =~= seq![s.last()]);
        assert(words(s) =~= seq![s]);
    } else {
        assert forall|i: int| 0 <= i < front.len() implies !is_space(#[trigger] front[i]) by {
            assert(front[i] == s[i]);
        }
        law_word_is_one_word(front);
        assert(!is_space(s[s.len() - 2]));
        assert(words(front).last() == front);
        assert(front.push(s.last()) =~= s);
        assert(words(s) =~= seq![s]);
    }
}

/// Joining puts the separator between neighbours and nowhere else.
pub proof fn law_joining(parts: Seq<Seq<char>>, part: Seq<char>, sep: Seq<char>)
    ensures
        joined(seq![], sep) == Seq::<char>::empty(),
        joined(seq![part], sep) == part,
        parts.len() > 0 ==> joined(parts.push(part), sep) == joined(parts, sep) + sep + part,
{
    assert(parts.push(part).drop_last() =~= parts);
}

/// A line ends before its line feed, and before a carriage return in front of that; what follows
/// the line feed is read by itself.
pub proof fn law_lines_end_at_line_feeds(line: Seq<char>, rest: Seq<char>)
    requires
        !line.contains('\n'),
    ensures
        text_lines(line + seq!['\n'] + rest) == seq![
            if line.len() > 0 && line.last() == '\r' {
                line.drop_last()
            } else {
                line
            },
        ] + text_lines(rest),
        line.len() > 0 ==> text_lines(line) == seq![line],
        text_lines(seq![]) == Seq::<Seq<char>>::empty(),
{
    let s = line + seq!['\n'] + rest;
    assert forall|j: int| 0 <= j < line.len() implies #[trigger] s[j] != '\n' by {
        assert(s[j] == line[j]);
        assert(line.contains(line[j]));
    }
    lemma_first_index(s, '\n', line.len() as int);
    assert(s.take(line.len() as int) =~= line);
    assert(s.skip(line.len() as int + 1) =~= rest);
    assert forall|j: int| 0 <= j < line.len() implies #[trigger] line[j] != '\n' by {
        assert(line.contains(line[j]));
    }
    lemma_first_index(line, '\n', line.len() as int);
}

/// A suffix is taken off as often as it is there.
pub proof fn law_suffixes_are_taken_off(s: Seq<char>, suffix: Seq<char>)
    requires
        suffix.len() > 0,
    ensures
        without_suffixes(s + suffix, suffix) == without_suffixes(s, suffix),
        !suffix.is_suffix_of(s) ==> without_suffixes(s, suffix) == s,
{
    let t = s + suffix;
    assert(t.subrange(t.len() - suffix.len(), t.len() as int) =~= suffix);
    assert(t.take(t.len() - suffix.len()) =~= s);
}

/// A prefix is taken off exactly where the text starts with it.
pub proof fn law_prefix_is_taken_off(s: Seq<char>, prefix: Seq<char>, rest: Seq<char>)
    ensures
        after_prefix(s, prefix) == Some(rest) <==> s == prefix + rest,
{
    if after_prefix(s, prefix) == Some(rest) {
        assert(s =~= prefix + rest);
    }
    if s == prefix + rest {
        assert(s.skip(prefix.len() as int) =~= rest);
    }
}

/// A text occurs in another exactly where that consists of something, the text and something.
pub proof fn law_occurrence(hay: Seq<char>, before: Seq<char>, needle: Seq<char>, after: Seq<char>)
    ensures
        occurs(before + needle + after, needle),
        occurs(hay, needle) ==> exists|i: int|
            0 <= i <= hay.len() - needle.len() && hay == #[trigger] hay.take(i) + needle
                + hay.skip(i + needle.len()),
{
    let s = before + needle + after;
    assert(s.subrange(before.len() as int, before.len() as int + needle.len()) =~= needle);
    assert(occurs_at(s, needle, before.len() as int));
    if occurs(hay, needle) {
        let i = choose|i: int| occurs_at(hay, needle, i);
        assert(hay =~= hay.take(i) + needle + hay.skip(i + needle.len())) by {
            assert(hay =~= hay.take(i) + hay.subrange(i, i + needle.len()) + hay.skip(
                i + needle.len(),
            ));
        }
    }
}

/// Texts are ordered by the first character in which they differ, a proper prefix first.
pub proof fn law_order_of_texts(
    common: Seq<char>,
    a: Seq<char>,
    b: Seq<char>,
)
    ensures
        lex_le(common + a, common + b) == lex_le(a, b),
        lex_le(common, common + a),
        a.len() > 0 ==> !lex_le(common + a, common),
        a.len() > 0 && b.len() > 0 && a[0] != b[0] ==> lex_le(a, b) == (a[0] < b[0]),
    decreases common.len(),
{
    if common.len() == 0 {
        assert(common + a =~= a);
        assert(common + b =~= b);
    } else {
        let rest = common.skip(1);
        law_order_of_texts(rest, a, b);
        assert((common + a).skip(1) =~= rest + a);
        assert((common + b).skip(1) =~= rest + b);
        assert((common + a)[0] == common[0]);
        assert((common + b)[0] == common[0]);
    }
}

proof fn lemma_decimal(n: nat)
    ensures
        decimal(n).len() > 0,
        all_digits(decimal(n)),
        digits_value(decimal(n)) == n,
    decreases n,
{
    reveal_with_fuel(digits_value, 2);
    if n < 10 {
        assert(decimal(n).drop_last() =~= seq![]);
        lemma_digit(n as int);
    } else {
        lemma_decimal(n / 10);
        lemma_digit((n % 10) as int);
        let front = decimal(n / 10);
        let all = decimal(n);
        assert(all.drop_last() =~= front);
        assert forall|i: int| 0 <= i < all.len() implies '0' <= #[trigger] all[i] <= '9' by {
            if i < front.len() {
                assert(all[i] == front[i]);
            }
        }
    }
}

proof fn lemma_digit(d: int)
    requires
        0 <= d < 10,
    ensures
        '0' <= digit(d) <= '9',
        digit(d) as int - '0' as int == d,
{
    reveal_strlit("0123456789abcdef");
}

/// A number that is written in decimal is read back, as long as it is not too large; a sign of plus
/// may stand before it.
pub proof fn law_written_number_is_read_back(n: nat, max: nat)
    ensures
        number_in(decimal(n), max) == (if n <= max {
            Some(n)
        } else {
            None
        }),
        number_in(seq!['+'] + decimal(n), max) == number_in(decimal(n), max),
{
    lemma_decimal(n);
    assert('0' <= decimal(n)[0] <= '9');
    assert(unsigned_part(decimal(n)) == decimal(n));
    assert((seq!['+'] + decimal(n)).skip(1) =~= decimal(n));
}

/// A text with a character that is no digit, behind its first, is no number; nor is the empty text.
pub proof fn law_other_text_is_no_number(s: Seq<char>, i: int, max: nat)
    requires
        s.len() == 0 || 0 < i < s.len() && !('0' <= s[i] <= '9') || i == 0 && !('0' <= s[0] <= '9')
            && s[0] != '+' || s.len() == 1 && s[0] == '+',
    ensures
        number_in(s, max) is None,
{
    let digits = unsigned_part(s);
    if s.len() > 0 && digits.len() > 0 {
        let k = i - (s.len() - digits.len());
        assert(digits[k] == s[i]);
    }
}

/// White space is what Unicode has as such: 25 characters, and no others.
pub proof fn law_white_space(c: char)
    ensures
        is_space(c) <==> seq![
            '\u{9}',
            '\u{a}',
            '\u{b}',
            '\u{c}',
            '\u{d}',
            '\u{20}',
            '\u{85}',
            '\u{a0}',
            '\u{1680}',
            '\u{2000}',
            '\u{2001}',
            '\u{2002}',
            '\u{2003}',
            '\u{2004}',
            '\u{2005}',
            '\u{2006}',
            '\u{2007}',
            '\u{2008}',
            '\u{2009}',
            '\u{200a}',
            '\u{2028}',
            '\u{2029}',
            '\u{202f}',
            '\u{205f}',
            '\u{3000}',
        ].contains(c),
{
    let all = seq![
        '\u{9}',
        '\u{a}',
        '\u{b}',
        '\u{c}',
        '\u{d}',
        '\u{20}',
        '\u{85}',
        '\u{a0}',
        '\u{1680}',
        '\u{2000}',
        '\u{2001}',
        '\u{2002}',
        '\u{2003}',
        '\u{2004}',
        '\u{2005}',
        '\u{2006}',
        '\u{2007}',
        '\u{2008}',
        '\u{2009}',
        '\u{200a}',
        '\u{2028}',
        '\u{2029}',
        '\u{202f}',
        '\u{205f}',
        '\u{3000}',
    ];
    if is_space(c) {
        let k: int = if c <= '\u{d}' {
            c as int - 9
        } else if c == '\u{20}' {
            5
        } else if c == '\u{85}' {
            6
        } else if c == '\u{a0}' {
            7
        } else if c == '\u{1680}' {
            8
        } else if c <= '\u{200a}' {
            9 + c as int - 0x2000
        } else if c == '\u{2028}' {
            20
        } else if c == '\u{2029}' {
            21
        } else if c == '\u{202f}' {
            22
        } else if c == '\u{205f}' {
            23
        } else {
            24
        };
        assert(all[k] == c);
    }
}

/// A text has white space where one of its characters is; a text in lower case is what the standard
/// library makes of it, and of nothing nothing.
pub proof fn law_space_and_case(a: Seq<char>, b: Seq<char>, c: char)
    ensures
        has_space(a + b) <==> has_space(a) || has_space(b),
        has_space(seq![c]) <==> is_space(c),
        !has_space(seq![]),
        a.len() > 0 ==> lowercase(a) == lowercased(a),
        a.len() == 0 ==> lowercase(a) == a,
{
    if has_space(a) {
        let i = choose|i: int| 0 <= i < a.len() && is_space(#[trigger] a[i]);
        assert(is_space((a + b)[i]));
    }
    if has_space(b) {
        let i = choose|i: int| 0 <= i < b.len() && is_space(#[trigger] b[i]);
        assert(is_space((a + b)[a.len() + i]));
    }
    if has_space(a + b) {
        let i = choose|i: int| 0 <= i < (a + b).len() && is_space(#[trigger] (a + b)[i]);
        if i < a.len() {
            assert(is_space(a[i]));
        } else {
            assert(is_space(b[i - a.len()]));
        }
    }
    if is_space(c) {
        assert(is_space(seq![c][0]));
    }
}

/// A digit behind the digits of a number makes ten times the number and the digit, as long as that is
/// not too large; what was too large already stays so. Zeros in front change nothing.
pub proof fn law_digit_by_digit(s: Seq<char>, c: char, max: nat)
    requires
        s.len() > 0,
        forall|i: int| 0 <= i < s.len() ==> '0' <= #[trigger] s[i] <= '9',
        '0' <= c <= '9',
    ensures
        number_in(s.push(c), max) == (match number_in(s, max) {
            Some(n) => {
                let m = (10 * n + (c as int - '0' as int)) as nat;
                if m <= max {
                    Some(m)
                } else {
                    None
                }
            },
            None => None,
        }),
        number_in(seq!['0'] + s, max) == number_in(s, max),
{
    let t = s.push(c);
    assert(all_digits(s));
    assert(t.drop_last() =~= s);
    assert forall|i: int| 0 <= i < t.len() implies '0' <= #[trigger] t[i] <= '9' by {
        if i < s.len() {
            assert(t[i] == s[i]);
        }
    }
    assert('0' <= s[0] <= '9');
    assert('0' <= t[0] <= '9');
    let z = seq!['0'] + s;
    assert forall|i: int| 0 <= i < z.len() implies '0' <= #[trigger] z[i] <= '9' by {
        if i > 0 {
            assert(z[i] == s[i - 1]);
        }
    }
    assert('0' <= z[0] <= '9');
    lemma_leading_zero(s);
}

proof fn lemma_leading_zero(s: Seq<char>)
    ensures
        digits_value(seq!['0'] + s) == digits_value(s),
    decreases s.len(),
{
    let z = seq!['0'] + s;
    if s.len() == 0 {
        assert(z.drop_last() =~= seq![]);
        assert(digits_value(z.drop_last()) == 0);
    } else {
        lemma_leading_zero(s.drop_last());
        assert(z.drop_last() =~= seq!['0'] + s.drop_last());
        assert(z.last() == s.last());
    }
}

} // verus!
