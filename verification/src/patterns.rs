//! The regular expressions that recognise parts of the agent's screen, and searching with them.

use vstd::prelude::*;
use vstd::string::*;
use vstd::utf8::*;

verus! {

/// A `[Model (context)]` footer; the groups are the model and the context.
pub const MODEL_PATTERN: &'static str = r"\[\s*([A-Z][\w\.\s-]+?)\s*(?:\(([^)]+)\))?\s*\]";

/// A percentage; the group is its number.
pub const PROGRESS_PATTERN: &'static str = r"(\d{1,3})\s*%";

/// A permission mode announcement; the group is the mode's label.
pub const MODE_PATTERN: &'static str =
    r"(?i)([A-Za-z][A-Za-z \t]*?(?:mode)?)[ \t]+on[ \t]+\(\S+[ \t]+to[ \t]+cycle\)";

/// A count of background shells; the group is its number.
pub const SHELLS_PATTERN: &'static str = r"(\d+)\s+shells?\b";

/// The remote control notice.
pub const REMOTE_PATTERN: &'static str = r"(?i)remote\s+control\s+active";

/// The focus marker.
pub const FOCUS_PATTERN: &'static str = r"(?i)\bfocus\b";

/// A selection screen (resume session, model picker, switch-to dialog) or a pagination footer.
/// These are the only screens on which the prompt is replaced wholesale rather than minimised to
/// a footer.
pub const MENU_PATTERN: &'static str =
    r"(?i)\b(resume session|select an?|switch to|choose)\b|\(\s*\d+\s+of\s+\d+\s*\)";

/// The "Press Ctrl-C again to exit" footer, which is up for about two seconds after an empty
/// Ctrl-C. A further Ctrl-C in that time would be the confirming press, and the agent would exit.
pub const EXIT_BANNER_PATTERN: &'static str = r"(?i)press ctrl-?c again";

/// The patterns above: each is a valid regular expression.
pub open spec fn is_pattern(pattern: Seq<char>) -> bool {
    ||| pattern == MODEL_PATTERN@
    ||| pattern == PROGRESS_PATTERN@
    ||| pattern == MODE_PATTERN@
    ||| pattern == SHELLS_PATTERN@
    ||| pattern == REMOTE_PATTERN@
    ||| pattern == FOCUS_PATTERN@
    ||| pattern == MENU_PATTERN@
    ||| pattern == EXIT_BANNER_PATTERN@
}

/// Where a group matched, in bytes: its start and its end. `None` for a group that took no part.
pub type Span = Option<(usize, usize)>;

/// The groups of each match, in order; group zero is the whole match.
pub open spec fn spans(found: Seq<Vec<Span>>) -> Seq<Seq<Span>> {
    found.map_values(|groups: Vec<Span>| groups@)
}

/// Whether every span of `found` delimits whole characters of `text`.
pub open spec fn spans_fit(found: Seq<Seq<Span>>, text: Seq<char>) -> bool {
    forall|i: int, j: int|
        #![trigger found[i][j]]
        0 <= i < found.len() && 0 <= j < found[i].len() ==> match found[i][j] {
            Some((a, b)) => span_fits(a as int, b as int, text),
            None => true,
        }
}

/// Whether the bytes from `a` to `b` hold whole characters of `text`.
pub open spec fn span_fits(a: int, b: int, text: Seq<char>) -> bool {
    &&& 0 <= a <= b <= encode_utf8(text).len()
    &&& is_char_boundary(encode_utf8(text), a)
    &&& is_char_boundary(encode_utf8(text), b)
}

/// The successive matches of a pattern in a text, as `Regex::captures_iter` yields them.
pub uninterp spec fn matches_of(pattern: Seq<char>, text: Seq<char>) -> Seq<Seq<Span>>;

/// Finds every match of `pattern` with `regex::Regex::captures_iter`. What it yields is a function
/// of the pattern and the text; each span is a pair of byte offsets that `str` slicing accepts.
/// `regex::Regex::new` accepts each of the patterns of this module.
#[verifier::external_body]
pub(crate) fn find_matches(pattern: &str, text: &str) -> (r: Vec<Vec<Span>>)
    requires
        is_pattern(pattern@),
    ensures
        spans(r@) == matches_of(pattern@, text@),
        spans_fit(spans(r@), text@),
{
    regex::Regex::new(pattern).unwrap().captures_iter(text)
        .map(|groups| groups.iter().map(|group| group.map(|m| (m.start(), m.end()))).collect())
        .collect()
}

/// Whether a pattern matches somewhere in a text, as `Regex::is_match` tells.
pub uninterp spec fn is_found(pattern: Seq<char>, text: Seq<char>) -> bool;

/// Tells with `regex::Regex::is_match` whether `pattern` matches anywhere in `text`, which is a
/// function of the two. `regex::Regex::new` accepts each of the patterns of this module.
#[verifier::external_body]
pub(crate) fn has_match(pattern: &str, text: &str) -> (r: bool)
    requires
        is_pattern(pattern@),
    ensures
        r == is_found(pattern@, text@),
{
    regex::Regex::new(pattern).unwrap().is_match(text)
}

/// The part of `text` between the bytes `a` and `b`.
pub open spec fn bytes_between(text: Seq<char>, a: int, b: int) -> Seq<char> {
    decode_utf8(encode_utf8(text).subrange(a, b))
}

proof fn lemma_boundary_in_prefix(bytes: Seq<u8>, a: int, b: int)
    requires
        valid_utf8(bytes),
        0 <= a <= b <= bytes.len(),
        is_char_boundary(bytes, a),
        is_char_boundary(bytes, b),
    ensures
        valid_utf8(bytes.subrange(0, b)),
        is_char_boundary(bytes.subrange(0, b), a),
{
    let front = bytes.subrange(0, b);
    valid_utf8_split(bytes, b);
    if a == b {
        is_char_boundary_start_end_of_seq(front);
    } else {
        is_char_boundary_iff_not_is_continuation_byte(bytes, a);
        is_char_boundary_iff_not_is_continuation_byte(front, a);
    }
}

/// The part of `text` between the bytes `a` and `b`.
pub fn slice<'a>(text: &'a str, a: usize, b: usize) -> (r: &'a str)
    requires
        span_fits(a as int, b as int, text@),
    ensures
        r@ == bytes_between(text@, a as int, b as int),
{
    proof {
        encode_utf8_valid_utf8(text@);
        lemma_boundary_in_prefix(encode_utf8(text@), a as int, b as int);
    }
    let (front, _) = text.split_at(b);
    let (_, r) = front.split_at(a);
    proof {
        assert(encode_utf8(r@) =~= encode_utf8(text@).subrange(a as int, b as int));
        encode_utf8_decode_utf8(r@);
    }
    r
}

} // verus!
