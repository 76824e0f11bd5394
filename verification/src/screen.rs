//! The terminal's alternate screen, on which the agent draws, and what is read off it.

use crate::bytes::lemma_encode_concat;
use crate::hashing::{hash_of, text_hash};
use crate::patterns::{bytes_between, has_match, is_found, slice, EXIT_BANNER_PATTERN};
use crate::status_parser::{parse_status, status_of, ParsedStatus, StatusView};
use vstd::prelude::*;
use vstd::string::*;
use vstd::utf8::*;

verus! {

/// What the pane's terminal shows.
#[derive(Debug, PartialEq)]
pub enum AltScreen {
    /// The terminal is gone.
    Gone,
    /// The alternate screen is not active.
    Inactive,
    /// The alternate screen is active and shows this text.
    Active { text: String },
}

/// The mathematical content of an `AltScreen`.
pub enum ScreenView {
    Gone,
    Inactive,
    Active { text: Seq<char> },
}

impl View for AltScreen {
    type V = ScreenView;

    open spec fn view(&self) -> ScreenView {
        match self {
            AltScreen::Gone => ScreenView::Gone,
            AltScreen::Inactive => ScreenView::Inactive,
            AltScreen::Active { text } => ScreenView::Active { text: text@ },
        }
    }
}

/// How many bytes at the end of the screen are searched for the exit banner. The banner is at the
/// very bottom, so the rest of a large screen need not be searched.
pub const BANNER_TAIL_BYTES: usize = 1500;

impl ScreenView {
    /// The hash of the screen: that of its text, zero where it is not active, and `last` where the
    /// terminal is gone.
    pub open spec fn hash(self, last: u64) -> u64 {
        match self {
            ScreenView::Gone => last,
            ScreenView::Inactive => 0,
            ScreenView::Active { text } => hash_of(text),
        }
    }

    /// The status that the screen shows. It is blank where the screen is not active.
    pub open spec fn status(self) -> StatusView {
        match self {
            ScreenView::Active { text } => status_of(text),
            _ => StatusView::blank(),
        }
    }

    /// Whether the screen shows the exit banner.
    pub open spec fn shows_exit_banner(self) -> bool {
        match self {
            ScreenView::Active { text } => is_found(EXIT_BANNER_PATTERN@, tail_of(text)),
            _ => false,
        }
    }
}

/// The first character boundary of `bytes` at `from` or behind it.
pub open spec fn boundary_from(bytes: Seq<u8>, from: int) -> int
    decreases bytes.len() - from,
{
    if from >= bytes.len() {
        bytes.len() as int
    } else if is_char_boundary(bytes, from) {
        from
    } else {
        boundary_from(bytes, from + 1)
    }
}

/// The byte at which the part of `text` starts that is searched for the exit banner: the first whole
/// character of the last `BANNER_TAIL_BYTES` bytes.
pub open spec fn tail_start(text: Seq<char>) -> int {
    let bytes = encode_utf8(text);
    if bytes.len() > BANNER_TAIL_BYTES {
        boundary_from(bytes, bytes.len() - BANNER_TAIL_BYTES)
    } else {
        0
    }
}

/// The part of `text` that is searched for the exit banner.
pub open spec fn tail_of(text: Seq<char>) -> Seq<char> {
    bytes_between(text, tail_start(text), encode_utf8(text).len() as int)
}

/// The end of `text` that is searched for the exit banner: the whole characters of its last
/// `BANNER_TAIL_BYTES` bytes.
pub fn screen_tail(text: &str) -> (r: &str)
    ensures
        r@ == tail_of(text@),
{
    let len: usize = text.as_bytes().len();
    proof {
        encode_utf8_valid_utf8(text@);
        is_char_boundary_start_end_of_seq(encode_utf8(text@));
    }
    if len <= BANNER_TAIL_BYTES {
        return slice(text, 0, len);
    }
    let mut start: usize = len - BANNER_TAIL_BYTES;
    while start < len && !text.is_char_boundary(start)
        invariant
            start <= len,
            len == encode_utf8(text@).len(),
            is_char_boundary(encode_utf8(text@), len as int),
            boundary_from(encode_utf8(text@), len - BANNER_TAIL_BYTES) == boundary_from(
                encode_utf8(text@),
                start as int,
            ),
        decreases len - start,
    {
        start = start + 1;
    }
    slice(text, start, len)
}

impl AltScreen {
    /// Whether the agent's footer shows the "Press Ctrl-C again to exit" banner.
    pub fn detect_exit_banner(&self) -> (r: bool)
        ensures
            r == self@.shows_exit_banner(),
    {
        match self {
            AltScreen::Active { text } => has_match(
                EXIT_BANNER_PATTERN,
                screen_tail(text.as_str()),
            ),
            _ => false,
        }
    }

    /// The status that the screen shows. It is blank where the screen is not active, as before the
    /// agent runs.
    pub fn read_parsed_status(&self) -> (r: ParsedStatus)
        ensures
            r@ == self@.status(),
    {
        match self {
            AltScreen::Active { text } => parse_status(text.as_str()),
            _ => ParsedStatus::default(),
        }
    }

    /// The hash of the screen, where `last` is the hash that was read before.
    pub fn read_alt_screen_hash(&self, last: u64) -> (r: u64)
        ensures
            r == self@.hash(last),
    {
        match self {
            AltScreen::Gone => last,
            AltScreen::Inactive => 0,
            AltScreen::Active { text } => text_hash(text.as_str()),
        }
    }
}

/// A screen of no more than `BANNER_TAIL_BYTES` bytes is searched whole.
pub proof fn law_short_screen_is_searched_whole(text: Seq<char>)
    requires
        encode_utf8(text).len() <= BANNER_TAIL_BYTES,
    ensures
        tail_of(text) == text,
{
    assert(encode_utf8(text).subrange(0, encode_utf8(text).len() as int) =~= encode_utf8(text));
    encode_utf8_decode_utf8(text);
}

pub proof fn lemma_boundary_from(bytes: Seq<u8>, from: int)
    requires
        valid_utf8(bytes),
        0 <= from <= bytes.len(),
    ensures
        from <= boundary_from(bytes, from) <= bytes.len(),
        is_char_boundary(bytes, boundary_from(bytes, from)),
        forall|i: int| from <= i < boundary_from(bytes, from) ==> !is_char_boundary(bytes, i),
    decreases bytes.len() - from,
{
    if from >= bytes.len() {
        is_char_boundary_start_end_of_seq(bytes);
    } else if !is_char_boundary(bytes, from) {
        lemma_boundary_from(bytes, from + 1);
    }
}

proof fn lemma_concat_boundary(a: Seq<u8>, b: Seq<u8>)
    requires
        valid_utf8(b),
        valid_utf8(a + b),
    ensures
        is_char_boundary(a + b, a.len() as int),
{
    is_char_boundary_start_end_of_seq(a + b);
    if b.len() > 0 {
        is_char_boundary_start_end_of_seq(b);
        is_char_boundary_iff_not_is_continuation_byte(b, 0);
        is_char_boundary_iff_not_is_continuation_byte(a + b, a.len() as int);
        assert((a + b)[a.len() as int] == b[0]);
    }
}

/// The end of the screen is searched, whatever stands above it: the part that is searched ends with
/// any end of the screen of no more than `BANNER_TAIL_BYTES` bytes, and is itself no longer than
/// that.
pub proof fn law_end_of_screen_is_searched(above: Seq<char>, end: Seq<char>)
    requires
        encode_utf8(end).len() <= BANNER_TAIL_BYTES,
    ensures
        end.is_suffix_of(tail_of(above + end)),
        encode_utf8(tail_of(above + end)).len() <= BANNER_TAIL_BYTES,
{
    let text = above + end;
    let bytes = encode_utf8(text);
    let low = encode_utf8(end);
    let cut = encode_utf8(above).len() as int;
    encode_utf8_valid_utf8(text);
    encode_utf8_valid_utf8(end);
    lemma_encode_concat(above, end);
    is_char_boundary_start_end_of_seq(bytes);
    lemma_concat_boundary(encode_utf8(above), low);
    if bytes.len() > BANNER_TAIL_BYTES {
        lemma_boundary_from(bytes, bytes.len() - BANNER_TAIL_BYTES);
    }
    let start = tail_start(text);
    assert(start <= cut);
    valid_utf8_split(bytes, start);
    let tail = bytes.subrange(start, bytes.len() as int);
    let front = bytes.subrange(start, cut);
    assert(tail =~= front + low);
    lemma_concat_boundary(front, low);
    valid_utf8_split(tail, front.len() as int);
    assert(tail.subrange(0, front.len() as int) =~= front);
    let mid = decode_utf8(front);
    decode_utf8_encode_utf8(front);
    lemma_encode_concat(mid, end);
    encode_utf8_decode_utf8(mid + end);
    assert(tail_of(text) == mid + end);
    assert((mid + end).subrange(mid.len() as int, (mid + end).len() as int) =~= end);
}

} // verus!
