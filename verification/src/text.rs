//! Text as sequences of characters: the string operations that the rest of the library
//! computes with, each beside the mathematical function that it computes.

use vstd::prelude::*;
use vstd::string::*;

verus! {

/// The Unicode `White_Space` property.
pub open spec fn is_space(c: char) -> bool {
    ||| '\u{9}' <= c <= '\u{d}'
    ||| c == ' '
    ||| c == '\u{85}'
    ||| c == '\u{a0}'
    ||| c == '\u{1680}'
    ||| '\u{2000}' <= c <= '\u{200a}'
    ||| c == '\u{2028}'
    ||| c == '\u{2029}'
    ||| c == '\u{202f}'
    ||| c == '\u{205f}'
    ||| c == '\u{3000}'
}

/// Whether `c` has the Unicode `White_Space` property.
pub fn is_whitespace(c: char) -> (r: bool)
    ensures
        r == is_space(c),
{
    ('\u{9}' <= c && c <= '\u{d}') || c == ' ' || c == '\u{85}' || c == '\u{a0}' || c == '\u{1680}'
        || ('\u{2000}' <= c && c <= '\u{200a}') || c == '\u{2028}' || c == '\u{2029}'
        || c == '\u{202f}' || c == '\u{205f}' || c == '\u{3000}'
}

/// The characters of `s`, in order.
pub fn to_chars(s: &str) -> (r: Vec<char>)
    ensures
        r@ == s@,
{
    let mut out: Vec<char> = Vec::new();
    for c in it: s.chars()
        invariant
            it.seq() == s@,
            out@ == s@.take(it.index() as int),
    {
        out.push(c);
    }
    assert(s@.take(s@.len() as int) == s@);
    out
}

/// Whether some character of `s` is white space.
pub open spec fn has_space(s: Seq<char>) -> bool {
    exists|i: int| 0 <= i < s.len() && is_space(#[trigger] s[i])
}

/// Whether some character of `s` is white space.
pub fn contains_whitespace(s: &str) -> (r: bool)
    ensures
        r == has_space(s@),
{
    let chars = to_chars(s);
    let mut i: usize = 0;
    while i < chars.len()
        invariant
            i <= chars.len(),
            chars@ == s@,
            forall|j: int| 0 <= j < i ==> !is_space(#[trigger] s@[j]),
        decreases chars.len() - i,
    {
        if is_whitespace(chars[i]) {
            assert(is_space(s@[i as int]));
            return true;
        }
        i = i + 1;
    }
    false
}

/// A set of characters that can be trimmed off the ends of a text.
#[derive(Debug, Clone, Copy, PartialEq, Eq, Structural)]
pub enum CharClass {
    /// Unicode white space.
    White,
    /// The two ASCII quotation marks.
    Quote,
}

impl CharClass {
    pub open spec fn has(self, c: char) -> bool {
        match self {
            CharClass::White => is_space(c),
            CharClass::Quote => c == '"' || c == '\'',
        }
    }

    /// Whether `c` belongs to the class.
    pub fn contains(self, c: char) -> (r: bool)
        ensures
            r == self.has(c),
    {
        match self {
            CharClass::White => is_whitespace(c),
            CharClass::Quote => c == '"' || c == '\'',
        }
    }
}

/// `s` without its leading characters of `class`.
pub open spec fn trim_start(s: Seq<char>, class: CharClass) -> Seq<char>
    decreases s.len(),
{
    if s.len() > 0 && class.has(s[0]) {
        trim_start(s.skip(1), class)
    } else {
        s
    }
}

/// `s` without its trailing characters of `class`.
pub open spec fn trim_end(s: Seq<char>, class: CharClass) -> Seq<char>
    decreases s.len(),
{
    if s.len() > 0 && class.has(s.last()) {
        trim_end(s.drop_last(), class)
    } else {
        s
    }
}

/// `s` without its leading and trailing characters of `class`.
pub open spec fn trimmed(s: Seq<char>, class: CharClass) -> Seq<char> {
    trim_end(trim_start(s, class), class)
}

/// Whether nothing of `s` is left once white space is trimmed.
pub open spec fn is_blank(s: Seq<char>) -> bool {
    trimmed(s, CharClass::White).len() == 0
}

/// Removes the characters of `class` from both ends of `s`.
pub fn trim(s: &str, class: CharClass) -> (r: &str)
    ensures
        r@ == trimmed(s@, class),
{
    let chars = to_chars(s);
    let mut start: usize = 0;
    assert(s@.skip(0) == s@);
    while start < chars.len() && class.contains(chars[start])
        invariant
            start <= chars.len(),
            chars@ == s@,
            trim_start(s@, class) == trim_start(s@.skip(start as int), class),
        decreases chars.len() - start,
    {
        assert(s@.skip(start as int).skip(1) == s@.skip(start + 1));
        start = start + 1;
    }
    assert(trim_start(s@, class) == s@.skip(start as int));
    let mut end: usize = chars.len();
    assert(s@.subrange(start as int, end as int) == s@.skip(start as int));
    while end > start && class.contains(chars[end - 1])
        invariant
            start <= end <= chars.len(),
            chars@ == s@,
            trimmed(s@, class) == trim_end(s@.subrange(start as int, end as int), class),
        decreases end,
    {
        assert(s@.subrange(start as int, end as int).drop_last() == s@.subrange(
            start as int,
            end - 1,
        ));
        end = end - 1;
    }
    s.substring_char(start, end)
}

/// A text is blank exactly when it holds white space only.
pub proof fn lemma_blank(s: Seq<char>)
    ensures
        is_blank(s) <==> (forall|i: int| 0 <= i < s.len() ==> is_space(#[trigger] s[i])),
    decreases s.len(),
{
    let class = CharClass::White;
    if s.len() > 0 && is_space(s[0]) {
        lemma_blank(s.skip(1));
        assert(trimmed(s, class) == trimmed(s.skip(1), class));
        if is_blank(s) {
            assert forall|i: int| 0 <= i < s.len() implies is_space(#[trigger] s[i]) by {
                if i > 0 {
                    assert(s.skip(1)[i - 1] == s[i]);
                }
            }
        }
    } else if s.len() > 0 {
        lemma_trim_end_keeps_first(s);
    }
}

proof fn lemma_trim_end_keeps_first(s: Seq<char>)
    requires
        s.len() > 0,
        !is_space(s[0]),
    ensures
        trim_end(s, CharClass::White).len() > 0,
    decreases s.len(),
{
    if is_space(s.last()) {
        lemma_trim_end_keeps_first(s.drop_last());
    }
}

/// Whether `needle` occurs in `hay` as a contiguous run.
pub open spec fn occurs(hay: Seq<char>, needle: Seq<char>) -> bool {
    exists|i: int| occurs_at(hay, needle, i)
}

/// Whether `needle` stands in `hay` at position `i`.
pub open spec fn occurs_at(hay: Seq<char>, needle: Seq<char>, i: int) -> bool {
    0 <= i <= hay.len() - needle.len() && hay.subrange(i, i + needle.len()) == needle
}

fn matches_at(hay: &Vec<char>, needle: &Vec<char>, i: usize) -> (r: bool)
    requires
        i + needle.len() <= hay.len(),
    ensures
        r == occurs_at(hay@, needle@, i as int),
{
    let mut k: usize = 0;
    while k < needle.len()
        invariant
            k <= needle.len(),
            i + needle.len() <= hay.len(),
            forall|j: int| 0 <= j < k ==> hay@[i + j] == #[trigger] needle@[j],
        decreases needle.len() - k,
    {
        if hay[i + k] != needle[k] {
            assert(hay@.subrange(i as int, i + needle@.len())[k as int] != needle@[k as int]);
            return false;
        }
        k = k + 1;
    }
    assert(hay@.subrange(i as int, i + needle@.len()) =~= needle@);
    true
}

/// Whether `needle` occurs in `hay`.
pub fn contains(hay: &str, needle: &str) -> (r: bool)
    ensures
        r == occurs(hay@, needle@),
{
    let hay_chars = to_chars(hay);
    let needle_chars = to_chars(needle);
    if needle_chars.len() > hay_chars.len() {
        return false;
    }
    let last: usize = hay_chars.len() - needle_chars.len();
    let mut i: usize = 0;
    while i <= last
        invariant
            i <= last + 1,
            last == hay@.len() - needle@.len(),
            last < usize::MAX || needle@.len() == 0,
            hay_chars@ == hay@,
            needle_chars@ == needle@,
            forall|j: int| 0 <= j < i ==> !occurs_at(hay@, needle@, j),
        decreases last + 1 - i,
    {
        if matches_at(&hay_chars, &needle_chars, i) {
            return true;
        }
        assert(i < usize::MAX) by {
            if needle@.len() == 0 {
                assert(hay@.subrange(i as int, i + 0) =~= needle@);
            }
        }
        i = i + 1;
    }
    false
}

/// Whether the character `c` occurs in `s`.
pub fn contains_char(s: &Vec<char>, start: usize, end: usize, c: char) -> (r: bool)
    requires
        start <= end <= s.len(),
    ensures
        r == s@.subrange(start as int, end as int).contains(c),
{
    let mut i: usize = start;
    while i < end
        invariant
            start <= i <= end <= s.len(),
            forall|j: int| start <= j < i ==> #[trigger] s@[j] != c,
        decreases end - i,
    {
        if s[i] == c {
            assert(s@.subrange(start as int, end as int)[i - start] == c);
            return true;
        }
        i = i + 1;
    }
    assert forall|j: int| 0 <= j < end - start implies #[trigger] s@.subrange(
        start as int,
        end as int,
    )[j] != c by {
        assert(s@[start + j] != c);
    }
    false
}

/// What follows `prefix` in `s`, if `s` starts with it.
pub open spec fn after_prefix(s: Seq<char>, prefix: Seq<char>) -> Option<Seq<char>> {
    if prefix.is_prefix_of(s) {
        Some(s.skip(prefix.len() as int))
    } else {
        None
    }
}

/// What follows `prefix` in `s`, if `s` starts with it.
pub fn strip_prefix<'a>(s: &'a str, prefix: &str) -> (r: Option<&'a str>)
    ensures
        match r {
            Some(rest) => after_prefix(s@, prefix@) == Some(rest@),
            None => after_prefix(s@, prefix@) is None,
        },
{
    let chars = to_chars(s);
    let head = to_chars(prefix);
    if head.len() > chars.len() {
        return None;
    }
    if matches_at(&chars, &head, 0) {
        assert(prefix@.is_prefix_of(s@));
        assert(s@.subrange(prefix@.len() as int, s@.len() as int) == s@.skip(prefix@.len() as int));
        Some(s.substring_char(head.len(), chars.len()))
    } else {
        None
    }
}

/// The maximal runs of characters of `s` that are not white space, in order.
pub open spec fn words(s: Seq<char>) -> Seq<Seq<char>>
    decreases s.len(),
{
    if s.len() == 0 {
        seq![]
    } else {
        let before = words(s.drop_last());
        let c = s.last();
        if is_space(c) {
            before
        } else if s.len() > 1 && !is_space(s[s.len() - 2]) {
            before.drop_last().push(before.last().push(c))
        } else {
            before.push(seq![c])
        }
    }
}

/// The views of a list of strings.
pub open spec fn views(list: Seq<String>) -> Seq<Seq<char>> {
    list.map_values(|s: String| s@)
}

/// The words of `s`, in order.
pub fn split_words(s: &str) -> (r: Vec<String>)
    ensures
        views(r@) == words(s@),
{
    let chars = to_chars(s);
    let mut out: Vec<String> = Vec::new();
    let mut start: usize = 0;
    let mut i: usize = 0;
    assert(views(out@) =~= words(s@.take(0)));
    while i < chars.len()
        invariant
            start <= i <= chars.len(),
            chars@ == s@,
            start < i ==> !is_space(s@[i - 1]),
            start == i && i > 0 ==> is_space(s@[i - 1]),
            words(s@.take(i as int)) == (if start < i {
                views(out@).push(s@.subrange(start as int, i as int))
            } else {
                views(out@)
            }),
        decreases chars.len() - i,
    {
        let ghost before = s@.take(i as int);
        let ghost after = s@.take(i + 1);
        assert(after.drop_last() == before);
        assert(after.last() == s@[i as int]);
        if is_whitespace(chars[i]) {
            if start < i {
                let ghost done = views(out@);
                out.push(s.substring_char(start, i).to_owned());
                assert(views(out@) =~= done.push(s@.subrange(start as int, i as int)));
            }
            start = i + 1;
        } else {
            if start < i {
                let ghost done = views(out@);
                let ghost cur = s@.subrange(start as int, i as int);
                assert(done.push(cur).drop_last() =~= done);
                assert(cur.push(s@[i as int]) =~= s@.subrange(start as int, i + 1));
            } else {
                assert(s@.subrange(start as int, i + 1) =~= seq![s@[i as int]]);
            }
        }
        i = i + 1;
    }
    assert(s@.take(s@.len() as int) == s@);
    if start < i {
        let ghost done = views(out@);
        out.push(s.substring_char(start, i).to_owned());
        assert(views(out@) =~= done.push(s@.subrange(start as int, i as int)));
    }
    out
}

/// The texts of `parts`, with `sep` between each two neighbours.
pub open spec fn joined(parts: Seq<Seq<char>>, sep: Seq<char>) -> Seq<char>
    decreases parts.len(),
{
    if parts.len() == 0 {
        seq![]
    } else if parts.len() == 1 {
        parts[0]
    } else {
        joined(parts.drop_last(), sep) + sep + parts.last()
    }
}

/// Concatenates `parts`, with `sep` between each two neighbours.
pub fn join(parts: &Vec<String>, sep: &str) -> (r: String)
    ensures
        r@ == joined(views(parts@), sep@),
{
    let mut out = String::new();
    let mut i: usize = 0;
    assert(views(parts@).take(0) =~= seq![]);
    while i < parts.len()
        invariant
            i <= parts.len(),
            out@ == joined(views(parts@).take(i as int), sep@),
        decreases parts.len() - i,
    {
        let ghost shorter = views(parts@).take(i as int);
        let ghost longer = views(parts@).take(i + 1);
        assert(longer.drop_last() =~= shorter);
        assert(longer.last() == parts@[i as int]@);
        if i > 0 {
            out.append(sep);
        }
        out.append(parts[i].as_str());
        if i == 0 {
            assert(out@ =~= longer[0]);
        }
        i = i + 1;
    }
    assert(views(parts@).take(parts@.len() as int) =~= views(parts@));
    out
}

/// The position of the first `x` in `s`, or the length of `s` where there is none.
pub open spec fn first_index<T>(s: Seq<T>, x: T) -> int
    decreases s.len(),
{
    if s.len() == 0 || s[0] == x {
        0
    } else {
        1 + first_index(s.skip(1), x)
    }
}

pub proof fn lemma_first_index<T>(s: Seq<T>, x: T, k: int)
    requires
        0 <= k <= s.len(),
        forall|j: int| 0 <= j < k ==> #[trigger] s[j] != x,
        k < s.len() ==> s[k] == x,
    ensures
        first_index(s, x) == k,
    decreases s.len(),
{
    if k > 0 {
        assert(s[0] != x);
        assert forall|j: int| 0 <= j < k - 1 implies #[trigger] s.skip(1)[j] != x by {
            assert(s[j + 1] != x);
        }
        lemma_first_index(s.skip(1), x, k - 1);
    }
}

pub proof fn lemma_first_index_bounds<T>(s: Seq<T>, x: T)
    ensures
        0 <= first_index(s, x) <= s.len(),
        first_index(s, x) < s.len() ==> s[first_index(s, x)] == x,
        forall|j: int| 0 <= j < first_index(s, x) ==> #[trigger] s[j] != x,
    decreases s.len(),
{
    if s.len() > 0 && s[0] != x {
        lemma_first_index_bounds(s.skip(1), x);
        assert forall|j: int| 0 <= j < first_index(s, x) implies #[trigger] s[j] != x by {
            if j > 0 {
                assert(s.skip(1)[j - 1] == s[j]);
            }
        }
    }
}

/// `s` without one trailing `x`.
pub open spec fn without_last<T>(s: Seq<T>, x: T) -> Seq<T> {
    if s.len() > 0 && s.last() == x {
        s.drop_last()
    } else {
        s
    }
}

/// The lines of `s`: each ends before an `lf`, or before a `cr` that stands directly before an
/// `lf`; the last line needs no `lf`, and a final `lf` starts no further line.
pub open spec fn lines<T>(s: Seq<T>, lf: T, cr: T) -> Seq<Seq<T>>
    decreases s.len(),
{
    proof {
        lemma_first_index_bounds(s, lf);
    }
    if s.len() == 0 {
        seq![]
    } else {
        let k = first_index(s, lf);
        if k == s.len() {
            seq![s]
        } else {
            seq![without_last(s.take(k), cr)] + lines(s.skip(k + 1), lf, cr)
        }
    }
}

/// The lines of a text.
pub open spec fn text_lines(s: Seq<char>) -> Seq<Seq<char>> {
    lines(s, '\n', '\r')
}

/// The line that starts at `pos`: where its text ends and where the next line starts.
pub fn next_line(chars: &Vec<char>, pos: usize) -> (r: (usize, usize))
    requires
        pos < chars.len(),
    ensures
        pos <= r.0 <= r.1 <= chars.len(),
        pos < r.1,
        text_lines(chars@.skip(pos as int)) == seq![chars@.subrange(pos as int, r.0 as int)]
            + text_lines(chars@.skip(r.1 as int)),
{
    let ghost rest = chars@.skip(pos as int);
    let mut i: usize = pos;
    while i < chars.len() && chars[i] != '\n'
        invariant
            pos <= i <= chars.len(),
            forall|j: int| pos <= j < i ==> #[trigger] chars@[j] != '\n',
        decreases chars.len() - i,
    {
        i = i + 1;
    }
    proof {
        assert forall|j: int| 0 <= j < i - pos implies #[trigger] rest[j] != '\n' by {
            assert(chars@[pos + j] != '\n');
        }
        lemma_first_index(rest, '\n', i - pos);
    }
    if i == chars.len() {
        assert(rest =~= chars@.subrange(pos as int, i as int));
        assert(chars@.skip(i as int) =~= seq![]);
        assert(text_lines(chars@.skip(i as int)) =~= seq![]);
        return (i, i);
    }
    assert(rest.take(i - pos) =~= chars@.subrange(pos as int, i as int));
    assert(rest.skip(i - pos + 1) =~= chars@.skip(i + 1));
    if i > pos && chars[i - 1] == '\r' {
        assert(rest.take(i - pos).drop_last() =~= chars@.subrange(pos as int, i - 1));
        (i - 1, i + 1)
    } else {
        (i, i + 1)
    }
}

/// `s` after every trailing repetition of `suffix` has been removed.
pub open spec fn without_suffixes(s: Seq<char>, suffix: Seq<char>) -> Seq<char>
    decreases s.len(),
{
    if suffix.len() > 0 && suffix.is_suffix_of(s) {
        without_suffixes(s.take(s.len() - suffix.len()), suffix)
    } else {
        s
    }
}

/// Removes every trailing repetition of `suffix` from `s`.
pub fn trim_end_matches<'a>(s: &'a str, suffix: &str) -> (r: &'a str)
    requires
        suffix@.len() > 0,
    ensures
        r@ == without_suffixes(s@, suffix@),
{
    let chars = to_chars(s);
    let tail = to_chars(suffix);
    let mut end: usize = chars.len();
    assert(s@.take(end as int) == s@);
    while end >= tail.len() && matches_at(&chars, &tail, end - tail.len())
        invariant
            end <= chars.len(),
            chars@ == s@,
            tail@ == suffix@,
            suffix@.len() > 0,
            without_suffixes(s@, suffix@) == without_suffixes(s@.take(end as int), suffix@),
        decreases end,
    {
        let ghost cur = s@.take(end as int);
        assert(cur.subrange(end - suffix@.len(), end as int) =~= s@.subrange(
            end - suffix@.len(),
            end as int,
        ));
        assert(suffix@.is_suffix_of(cur));
        assert(cur.take(end - suffix@.len()) =~= s@.take(end - suffix@.len()));
        end = end - tail.len();
    }
    proof {
        let cur = s@.take(end as int);
        if suffix@.is_suffix_of(cur) {
            assert(s@.subrange(end - suffix@.len(), end as int) =~= suffix@);
        }
        assert(s@.subrange(0, end as int) =~= cur);
    }
    s.substring_char(0, end)
}

/// What `str::to_lowercase` makes of a text.
pub uninterp spec fn lowercased(s: Seq<char>) -> Seq<char>;

/// `str::to_lowercase` maps a text to its lowercase equivalent by the Unicode case tables, so
/// its result is a function of the text alone. It puts one character or more in the place of each,
/// so the result is empty exactly where the text is. Nothing more is claimed of that function.
pub assume_specification[ str::to_lowercase ](s: &str) -> (r: String)
    ensures
        r@ == lowercased(s@),
        r@.len() == 0 <==> s@.len() == 0,
;

/// A text in lower case.
pub open spec fn lowercase(s: Seq<char>) -> Seq<char> {
    if s.len() == 0 {
        seq![]
    } else {
        lowercased(s)
    }
}

/// The text in lower case.
pub fn to_lower(s: &str) -> (r: String)
    ensures
        r@ == lowercase(s@),
        r@.len() == 0 <==> s@.len() == 0,
{
    let r = s.to_lowercase();
    assert(r@ =~= lowercase(s@));
    r
}

/// Whether `a` comes no later than `b` in the order of strings: by the first code point in which
/// they differ, a proper prefix first.
pub open spec fn lex_le(a: Seq<char>, b: Seq<char>) -> bool
    decreases a.len(),
{
    if a.len() == 0 {
        true
    } else if b.len() == 0 {
        false
    } else if a[0] != b[0] {
        a[0] < b[0]
    } else {
        lex_le(a.skip(1), b.skip(1))
    }
}

pub proof fn lemma_lex_total(a: Seq<char>, b: Seq<char>)
    ensures
        lex_le(a, b) || lex_le(b, a),
    decreases a.len(),
{
    if a.len() > 0 && b.len() > 0 {
        lemma_lex_total(a.skip(1), b.skip(1));
    }
}

pub proof fn lemma_lex_antisymmetric(a: Seq<char>, b: Seq<char>)
    requires
        lex_le(a, b),
        lex_le(b, a),
    ensures
        a == b,
    decreases a.len(),
{
    if a.len() > 0 && b.len() > 0 {
        lemma_lex_antisymmetric(a.skip(1), b.skip(1));
        assert(a =~= seq![a[0]] + a.skip(1));
        assert(b =~= seq![b[0]] + b.skip(1));
    } else {
        assert(a =~= b);
    }
}

pub proof fn lemma_lex_transitive(a: Seq<char>, b: Seq<char>, c: Seq<char>)
    requires
        lex_le(a, b),
        lex_le(b, c),
    ensures
        lex_le(a, c),
    decreases a.len(),
{
    if a.len() > 0 && b.len() > 0 && c.len() > 0 && a[0] == b[0] && b[0] == c[0] {
        lemma_lex_transitive(a.skip(1), b.skip(1), c.skip(1));
    }
}

/// Whether `a` comes no later than `b` in the order of strings.
pub fn le(a: &str, b: &str) -> (r: bool)
    ensures
        r == lex_le(a@, b@),
{
    let left = to_chars(a);
    let right = to_chars(b);
    let mut i: usize = 0;
    assert(a@.skip(0) == a@);
    assert(b@.skip(0) == b@);
    while i < left.len() && i < right.len() && left[i] == right[i]
        invariant
            i <= left.len(),
            i <= right.len(),
            left@ == a@,
            right@ == b@,
            lex_le(a@, b@) == lex_le(a@.skip(i as int), b@.skip(i as int)),
        decreases left.len() - i,
    {
        assert(a@.skip(i as int).skip(1) =~= a@.skip(i + 1));
        assert(b@.skip(i as int).skip(1) =~= b@.skip(i + 1));
        i = i + 1;
    }
    if i == left.len() {
        true
    } else if i == right.len() {
        false
    } else {
        left[i] < right[i]
    }
}

/// Whether `a` and `b` are the same text.
pub fn same(a: &str, b: &str) -> (r: bool)
    ensures
        r == (a@ == b@),
{
    let left = to_chars(a);
    let right = to_chars(b);
    if left.len() != right.len() {
        return false;
    }
    matches_at_start(&left, &right)
}

fn matches_at_start(left: &Vec<char>, right: &Vec<char>) -> (r: bool)
    requires
        left.len() == right.len(),
    ensures
        r == (left@ == right@),
{
    assert(left@.subrange(0, right@.len() as int) =~= left@);
    matches_at(left, right, 0)
}

} // verus!
