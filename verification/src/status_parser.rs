//! Reads the agent's status footer out of the rendered text of the alternate screen. The screen
//! after parsing, and not the byte stream, is the source of truth: a console that sends only
//! differences never emits the bracketed strings in one piece.

use crate::bytes::lemma_encode_concat;
use crate::numerals::{number_in, parse_decimal};
use crate::patterns::{
    bytes_between, find_matches, has_match, is_found, matches_of, slice, span_fits, spans, spans_fit,
    Span, FOCUS_PATTERN, MENU_PATTERN, MODEL_PATTERN, MODE_PATTERN, PROGRESS_PATTERN,
    REMOTE_PATTERN, SHELLS_PATTERN,
};
use crate::text::{
    contains, contains_char, first_index, join, joined, lemma_first_index, lowercase, next_line,
    occurs, split_words, text_lines, to_chars, to_lower, trim, trim_end_matches, trimmed, without_suffixes,
    words, CharClass,
};
use vstd::prelude::*;
use vstd::string::*;
use vstd::utf8::*;

verus! {

/// What the screen says about the agent's state.
#[derive(Debug, PartialEq)]
pub struct ParsedStatus {
    pub model: Option<String>,
    pub context_info: Option<String>,
    pub progress: Option<u8>,
    pub mode: Option<String>,
    pub shells: Option<u32>,
    pub remote: bool,
    pub focused: bool,
    /// True when the screen shows the agent's input box: a top border with both of its corners
    /// and a bottom border with both of its corners, on separate lines. When false the user is on a
    /// menu or a confirmation screen rather than at the prompt.
    pub has_input_box: bool,
    /// True when the screen looks like one of the agent's selection screens.
    pub menu_mode: bool,
}

/// The mathematical content of a `ParsedStatus`.
pub struct StatusView {
    pub model: Option<Seq<char>>,
    pub context_info: Option<Seq<char>>,
    pub progress: Option<u8>,
    pub mode: Option<Seq<char>>,
    pub shells: Option<u32>,
    pub remote: bool,
    pub focused: bool,
    pub has_input_box: bool,
    pub menu_mode: bool,
}

/// The view of an optional string.
pub open spec fn opt_view(s: Option<String>) -> Option<Seq<char>> {
    match s {
        Some(s) => Some(s@),
        None => None,
    }
}

impl View for ParsedStatus {
    type V = StatusView;

    open spec fn view(&self) -> StatusView {
        StatusView {
            model: opt_view(self.model),
            context_info: opt_view(self.context_info),
            progress: self.progress,
            mode: opt_view(self.mode),
            shells: self.shells,
            remote: self.remote,
            focused: self.focused,
            has_input_box: self.has_input_box,
            menu_mode: self.menu_mode,
        }
    }
}

impl StatusView {
    /// The status of a screen that says nothing.
    pub open spec fn blank() -> StatusView {
        StatusView {
            model: None,
            context_info: None,
            progress: None,
            mode: None,
            shells: None,
            remote: false,
            focused: false,
            has_input_box: false,
            menu_mode: false,
        }
    }

    /// Whether the status footer says nothing.
    pub open spec fn is_empty(self) -> bool {
        &&& self.model is None
        &&& self.context_info is None
        &&& self.progress is None
        &&& self.mode is None
        &&& self.shells is None
        &&& !self.remote
        &&& !self.focused
    }

    /// Whether the screen asks a question: a menu, or neither an input box nor a footer.
    pub open spec fn is_question_mode(self) -> bool {
        self.menu_mode || (!self.has_input_box && self.model is None && !self.focused)
    }
}

impl Default for ParsedStatus {
    fn default() -> (r: Self)
        ensures
            r@ == StatusView::blank(),
    {
        ParsedStatus {
            model: None,
            context_info: None,
            progress: None,
            mode: None,
            shells: None,
            remote: false,
            focused: false,
            has_input_box: false,
            menu_mode: false,
        }
    }
}

fn clone_text(text: &Option<String>) -> (r: Option<String>)
    ensures
        opt_view(r) == opt_view(*text),
{
    match text {
        Some(t) => Some(t.clone()),
        None => None,
    }
}

impl Clone for ParsedStatus {
    fn clone(&self) -> (r: Self)
        ensures
            r@ == self@,
    {
        ParsedStatus {
            model: clone_text(&self.model),
            context_info: clone_text(&self.context_info),
            progress: self.progress,
            mode: clone_text(&self.mode),
            shells: self.shells,
            remote: self.remote,
            focused: self.focused,
            has_input_box: self.has_input_box,
            menu_mode: self.menu_mode,
        }
    }
}

impl ParsedStatus {
    /// Whether the status footer says nothing.
    pub fn is_empty(&self) -> (r: bool)
        ensures
            r == self@.is_empty(),
    {
        self.model.is_none() && self.context_info.is_none() && self.progress.is_none()
            && self.mode.is_none() && self.shells.is_none() && !self.remote && !self.focused
    }

    /// True when the overlay should hide so that it does not cover the agent's screen: either a
    /// recognisable menu, or neither an input box nor a status footer, which is what a
    /// confirmation prompt that takes over the whole screen looks like.
    pub fn is_question_mode(&self) -> (r: bool)
        ensures
            r == self@.is_question_mode(),
    {
        if self.menu_mode {
            return true;
        }
        let has_status_marker = self.model.is_some();
        let has_focus_marker = self.focused;
        !self.has_input_box && !has_status_marker && !has_focus_marker
    }
}

/// The category of a mode label.
#[derive(Debug, Clone, Copy, PartialEq, Eq, Structural)]
pub enum ModeKey {
    Plan,
    Auto,
    Bypass,
    Accept,
    Default,
}

/// The category of the mode label `mode`: the first of the four key words that occurs in it,
/// whatever its case.
pub open spec fn mode_key(mode: Seq<char>) -> ModeKey {
    let m = lowercase(mode);
    if occurs(m, "plan"@) {
        ModeKey::Plan
    } else if occurs(m, "auto"@) {
        ModeKey::Auto
    } else if occurs(m, "bypass"@) {
        ModeKey::Bypass
    } else if occurs(m, "accept"@) {
        ModeKey::Accept
    } else {
        ModeKey::Default
    }
}

impl ModeKey {
    /// The category of a mode label.
    pub fn from_label(mode: &str) -> (r: Self)
        ensures
            r == mode_key(mode@),
    {
        let m = to_lower(mode);
        Self::from_lowercase_label(m.as_str())
    }

    /// The category of a mode label that is already in lower case.
    pub fn from_lowercase_label(m: &str) -> (r: Self)
        ensures
            r == (if occurs(m@, "plan"@) {
                ModeKey::Plan
            } else if occurs(m@, "auto"@) {
                ModeKey::Auto
            } else if occurs(m@, "bypass"@) {
                ModeKey::Bypass
            } else if occurs(m@, "accept"@) {
                ModeKey::Accept
            } else {
                ModeKey::Default
            }),
    {
        if contains(m, "plan") {
            ModeKey::Plan
        } else if contains(m, "auto") {
            ModeKey::Auto
        } else if contains(m, "bypass") {
            ModeKey::Bypass
        } else if contains(m, "accept") {
            ModeKey::Accept
        } else {
            ModeKey::Default
        }
    }
}

/// The span of group `i` of a match, if the pattern has that group and it took part.
pub open spec fn group(groups: Seq<Span>, i: int) -> Span {
    if 0 <= i < groups.len() {
        groups[i]
    } else {
        None
    }
}

fn get_group(groups: &Vec<Span>, i: usize) -> (r: Span)
    ensures
        r == group(groups@, i as int),
{
    if i < groups.len() {
        groups[i]
    } else {
        None
    }
}

/// The last match of `found` whose group zero is there.
pub open spec fn last_match(found: Seq<Seq<Span>>) -> Option<Seq<Span>>
    decreases found.len(),
{
    if found.len() == 0 {
        None
    } else if group(found.last(), 0) is Some {
        Some(found.last())
    } else {
        last_match(found.drop_last())
    }
}

/// The text of group `i` of a match.
pub open spec fn group_text(text: Seq<char>, groups: Seq<Span>, i: int) -> Option<Seq<char>> {
    match group(groups, i) {
        Some((a, b)) => Some(bytes_between(text, a as int, b as int)),
        None => None,
    }
}

/// The text of group `i` of a match, without the white space around it.
pub open spec fn trimmed_group(text: Seq<char>, groups: Seq<Span>, i: int) -> Option<Seq<char>> {
    match group_text(text, groups, i) {
        Some(t) => Some(trimmed(t, CharClass::White)),
        None => None,
    }
}

/// The last model footer of the text and the context that it names.
pub open spec fn model_of(text: Seq<char>, models: Seq<Seq<Span>>) -> (
    Option<Seq<char>>,
    Option<Seq<char>>,
) {
    match last_match(models) {
        Some(groups) => (trimmed_group(text, groups, 1), trimmed_group(text, groups, 2)),
        None => (None, None),
    }
}

/// The text from the start of the last model footer to the end of its line.
pub open spec fn footer_of(text: Seq<char>, models: Seq<Seq<Span>>) -> Option<Seq<char>> {
    match last_match(models) {
        Some(groups) => {
            let (start, _) = group(groups, 0)->0;
            let rest = bytes_between(text, start as int, encode_utf8(text).len() as int);
            Some(rest.take(first_index(rest, '\n')))
        },
        None => None,
    }
}

/// The number in group one of the last match, if it is at most `max`.
pub open spec fn last_number(text: Seq<char>, found: Seq<Seq<Span>>, max: nat) -> Option<nat> {
    if found.len() == 0 {
        None
    } else {
        match group_text(text, found.last(), 1) {
            Some(t) => number_in(t, max),
            None => None,
        }
    }
}

/// A mode label in its normal form: single blanks between its words, lower case, without
/// trailing occurrences of the word "mode".
pub open spec fn normal_mode(label: Seq<char>) -> Seq<char> {
    trimmed(
        without_suffixes(lowercase(joined(words(label), " "@)), " mode"@),
        CharClass::White,
    )
}

/// The last mode that the text announces, in normal form.
pub open spec fn mode_of(text: Seq<char>, modes: Seq<Seq<Span>>) -> Option<Seq<char>> {
    if modes.len() == 0 {
        None
    } else {
        match group_text(text, modes.last(), 1) {
            Some(label) => if normal_mode(label).len() == 0 {
                None
            } else {
                Some(normal_mode(label))
            },
            None => None,
        }
    }
}

/// Whether a line is the top border of a box: it has both of the upper corners.
pub open spec fn is_top_border(line: Seq<char>) -> bool {
    line.contains('╭') && line.contains('╮')
}

/// Whether a line is the bottom border of a box: it has both of the lower corners.
pub open spec fn is_bottom_border(line: Seq<char>) -> bool {
    line.contains('╰') && line.contains('╯')
}

/// Whether the lines at `i` and `j` are the two borders of a box, which are on separate lines.
pub open spec fn is_box(lines: Seq<Seq<char>>, i: int, j: int) -> bool {
    &&& 0 <= i < lines.len()
    &&& 0 <= j < lines.len()
    &&& i != j
    &&& is_top_border(lines[i])
    &&& is_bottom_border(lines[j])
}

/// Whether the text shows both borders of the input box, on separate lines.
pub open spec fn input_box(text: Seq<char>) -> bool {
    exists|i: int, j: int| is_box(text_lines(text), i, j)
}

/// Whether the text shows the input box: a top border and a bottom border on separate lines.
/// Selection screens draw a search field with the same characters, so this alone does not tell the
/// prompt.
pub fn has_input_box(text: &str) -> (r: bool)
    ensures
        r == input_box(text@),
{
    let chars = to_chars(text);
    let mut top = false;
    let mut bottom = false;
    let mut pos: usize = 0;
    let ghost all = text_lines(text@);
    let ghost mut done: int = 0;
    let ghost mut top_at: int = 0;
    let ghost mut bottom_at: int = 0;
    assert(text@.skip(0) == text@);
    assert(all.skip(0) =~= all);
    while pos < chars.len()
        invariant
            pos <= chars.len(),
            chars@ == text@,
            all == text_lines(text@),
            0 <= done <= all.len(),
            text_lines(text@.skip(pos as int)) == all.skip(done),
            top ==> 0 <= top_at < done && is_top_border(all[top_at]),
            !top ==> forall|i: int| 0 <= i < done ==> !is_top_border(#[trigger] all[i]),
            bottom ==> 0 <= bottom_at < done && is_bottom_border(all[bottom_at]),
            !bottom ==> forall|i: int| 0 <= i < done ==> !is_bottom_border(#[trigger] all[i]),
            forall|i: int, j: int| i < done && j < done ==> !is_box(all, i, j),
        decreases chars.len() - pos,
    {
        let (end, next) = next_line(&chars, pos);
        let ghost line = text@.subrange(pos as int, end as int);
        proof {
            let rest = seq![line] + text_lines(text@.skip(next as int));
            assert(all.skip(done) == rest);
            assert(rest.len() > 0 && rest[0] == line);
            assert(all.skip(done)[0] == all[done]);
            assert(text_lines(text@.skip(next as int)) =~= all.skip(done + 1)) by {
                assert((seq![line] + text_lines(text@.skip(next as int))).skip(1)
                    =~= text_lines(text@.skip(next as int)));
                assert(all.skip(done).skip(1) =~= all.skip(done + 1));
            }
        }
        let is_top = contains_char(&chars, pos, end, '╭') && contains_char(&chars, pos, end, '╮');
        let is_bottom = contains_char(&chars, pos, end, '╰') && contains_char(
            &chars,
            pos,
            end,
            '╯',
        );
        if is_top && bottom {
            assert(is_box(all, done, bottom_at));
            return true;
        }
        if is_bottom && top {
            assert(is_box(all, top_at, done));
            return true;
        }
        if is_top {
            top = true;
            proof {
                top_at = done;
            }
        }
        if is_bottom {
            bottom = true;
            proof {
                bottom_at = done;
            }
        }
        proof {
            done = done + 1;
        }
        pos = next;
    }
    proof {
        assert(text@.skip(pos as int) =~= seq![]);
        assert(all.skip(done).len() == 0);
    }
    false
}

/// What the searches over a screen's text found.
pub struct ScreenMatches {
    pub models: Vec<Vec<Span>>,
    pub modes: Vec<Vec<Span>>,
    pub shells: Vec<Vec<Span>>,
    pub remote: bool,
    pub focused: bool,
    pub menu: bool,
}

impl ScreenMatches {
    /// Whether every span delimits whole characters of `text`.
    pub open spec fn fits(self, text: Seq<char>) -> bool {
        &&& spans_fit(spans(self.models@), text)
        &&& spans_fit(spans(self.modes@), text)
        &&& spans_fit(spans(self.shells@), text)
    }
}

/// The status of a screen with the text `text`, from what the searches over the text found and
/// from what the search for percentages found in its footer line `footer`.
pub open spec fn status_from(
    text: Seq<char>,
    models: Seq<Seq<Span>>,
    modes: Seq<Seq<Span>>,
    shells: Seq<Seq<Span>>,
    remote: bool,
    focused: bool,
    menu: bool,
    footer: Seq<char>,
    percentages: Seq<Seq<Span>>,
) -> StatusView {
    StatusView {
        model: model_of(text, models).0,
        context_info: model_of(text, models).1,
        progress: match last_number(footer, percentages, 100) {
            Some(n) => Some(n as u8),
            None => None,
        },
        mode: mode_of(text, modes),
        shells: match last_number(text, shells, u32::MAX as nat) {
            Some(n) => Some(n as u32),
            None => None,
        },
        remote,
        focused,
        has_input_box: input_box(text),
        menu_mode: menu,
    }
}

fn last_found(found: &Vec<Vec<Span>>) -> (r: Option<usize>)
    ensures
        match r {
            Some(i) => i < found.len() && last_match(spans(found@)) == Some(found@[i as int]@)
                && group(found@[i as int]@, 0) is Some,
            None => last_match(spans(found@)) is None,
        },
{
    let mut k: usize = found.len();
    let ghost all = spans(found@);
    assert(all.take(k as int) =~= all);
    while k > 0
        invariant
            k <= found.len(),
            all == spans(found@),
            last_match(all) == last_match(all.take(k as int)),
        decreases k,
    {
        assert(all.take(k as int).last() == found@[k - 1]@);
        assert(all.take(k as int).drop_last() =~= all.take(k - 1));
        if get_group(&found[k - 1], 0).is_some() {
            return Some(k - 1);
        }
        k = k - 1;
    }
    None
}

fn group_slice<'a>(text: &'a str, found: &Vec<Vec<Span>>, k: usize, i: usize) -> (r: Option<
    &'a str,
>)
    requires
        k < found.len(),
        spans_fit(spans(found@), text@),
    ensures
        match r {
            Some(t) => group_text(text@, found@[k as int]@, i as int) == Some(t@),
            None => group_text(text@, found@[k as int]@, i as int) is None,
        },
{
    match get_group(&found[k], i) {
        Some((a, b)) => {
            assert(spans(found@)[k as int][i as int] == Some((a, b)));
            Some(slice(text, a, b))
        },
        None => None,
    }
}

fn trimmed_slice(text: &str, found: &Vec<Vec<Span>>, k: usize, i: usize) -> (r: Option<String>)
    requires
        k < found.len(),
        spans_fit(spans(found@), text@),
    ensures
        opt_view(r) == trimmed_group(text@, found@[k as int]@, i as int),
{
    match group_slice(text, found, k, i) {
        Some(t) => Some(trim(t, CharClass::White).to_owned()),
        None => None,
    }
}

/// The text from the start of the last model footer to the end of its line. Progress is shown on
/// that line.
pub fn footer_line(text: &str, models: &Vec<Vec<Span>>) -> (r: Option<String>)
    requires
        spans_fit(spans(models@), text@),
    ensures
        opt_view(r) == footer_of(text@, spans(models@)),
{
    match last_found(models) {
        Some(k) => {
            let whole = get_group(&models[k], 0);
            match whole {
                Some((start, end)) => {
                    assert(spans(models@)[k as int][0] == Some((start, end)));
                    let len: usize = text.as_bytes().len();
                    proof {
                        encode_utf8_valid_utf8(text@);
                        is_char_boundary_start_end_of_seq(encode_utf8(text@));
                    }
                    let rest = slice(text, start, len);
                    Some(first_line(rest).to_owned())
                },
                None => None,
            }
        },
        None => None,
    }
}

/// The text up to the first line feed.
fn first_line(text: &str) -> (r: &str)
    ensures
        r@ == text@.take(first_index(text@, '\n')),
{
    let chars = to_chars(text);
    let mut i: usize = 0;
    while i < chars.len() && chars[i] != '\n'
        invariant
            i <= chars.len(),
            chars@ == text@,
            forall|j: int| 0 <= j < i ==> #[trigger] text@[j] != '\n',
        decreases chars.len() - i,
    {
        i = i + 1;
    }
    proof {
        lemma_first_index(text@, '\n', i as int);
        assert(text@.subrange(0, i as int) =~= text@.take(i as int));
    }
    text.substring_char(0, i)
}

fn number_of_last(text: &str, found: &Vec<Vec<Span>>, max: u32) -> (r: Option<u32>)
    requires
        spans_fit(spans(found@), text@),
    ensures
        match r {
            Some(n) => last_number(text@, spans(found@), max as nat) == Some(n as nat),
            None => last_number(text@, spans(found@), max as nat) is None,
        },
{
    if found.len() == 0 {
        return None;
    }
    assert(spans(found@).last() == found@[found@.len() - 1]@);
    match group_slice(text, found, found.len() - 1, 1) {
        Some(t) => parse_decimal(t, max),
        None => None,
    }
}

/// A mode label in its normal form.
pub fn normalize_mode(label: &str) -> (r: String)
    ensures
        r@ == normal_mode(label@),
{
    let parts = split_words(label);
    let lower = to_lower(join(&parts, " ").as_str());
    strip_mode_word(lower.as_str())
}

/// A label in lower case without trailing occurrences of the word "mode".
pub fn strip_mode_word(lower: &str) -> (r: String)
    ensures
        r@ == trimmed(without_suffixes(lower@, " mode"@), CharClass::White),
{
    proof {
        reveal_strlit(" mode");
    }
    let bare = trim_end_matches(lower, " mode");
    trim(bare, CharClass::White).to_owned()
}

fn last_mode(text: &str, modes: &Vec<Vec<Span>>) -> (r: Option<String>)
    requires
        spans_fit(spans(modes@), text@),
    ensures
        opt_view(r) == mode_of(text@, spans(modes@)),
{
    if modes.len() == 0 {
        return None;
    }
    assert(spans(modes@).last() == modes@[modes@.len() - 1]@);
    match group_slice(text, modes, modes.len() - 1, 1) {
        Some(label) => {
            let mode = normalize_mode(label);
            if mode.as_str().is_empty() {
                None
            } else {
                Some(mode)
            }
        },
        None => None,
    }
}

/// The status of a screen from what the searches found: `found` over its text `text`, and
/// `percentages` over its footer line `footer`.
pub fn assemble_status(
    text: &str,
    found: &ScreenMatches,
    footer: &str,
    percentages: &Vec<Vec<Span>>,
) -> (r: ParsedStatus)
    requires
        found.fits(text@),
        spans_fit(spans(percentages@), footer@),
    ensures
        r@ == status_from(
            text@,
            spans(found.models@),
            spans(found.modes@),
            spans(found.shells@),
            found.remote,
            found.focused,
            found.menu,
            footer@,
            spans(percentages@),
        ),
{
    let (model, context_info) = match last_found(&found.models) {
        Some(k) => (
            trimmed_slice(text, &found.models, k, 1),
            trimmed_slice(text, &found.models, k, 2),
        ),
        None => (None, None),
    };
    let progress: Option<u8> = match number_of_last(footer, percentages, 100) {
        Some(n) => Some(n as u8),
        None => None,
    };
    let mode = last_mode(text, &found.modes);
    let shells = number_of_last(text, &found.shells, u32::MAX);
    ParsedStatus {
        model,
        context_info,
        progress,
        mode,
        shells,
        remote: found.remote,
        focused: found.focused,
        has_input_box: has_input_box(text),
        menu_mode: found.menu,
    }
}

/// The status of a screen with the text `text`.
pub open spec fn status_of(text: Seq<char>) -> StatusView {
    let models = matches_of(MODEL_PATTERN@, text);
    let footer = match footer_of(text, models) {
        Some(line) => line,
        None => seq![],
    };
    let percentages = match footer_of(text, models) {
        Some(line) => matches_of(PROGRESS_PATTERN@, line),
        None => seq![],
    };
    if text.len() == 0 {
        StatusView::blank()
    } else {
        status_from(
            text,
            models,
            matches_of(MODE_PATTERN@, text),
            matches_of(SHELLS_PATTERN@, text),
            is_found(REMOTE_PATTERN@, text),
            is_found(FOCUS_PATTERN@, text),
            is_found(MENU_PATTERN@, text),
            footer,
            percentages,
        )
    }
}

/// Reads the status off the text of the screen. The text is laid out from top to bottom, so the
/// last footer is the latest, and it wins.
pub fn parse_status(text: &str) -> (r: ParsedStatus)
    ensures
        r@ == status_of(text@),
{
    if text.is_empty() {
        return ParsedStatus::default();
    }
    let found = ScreenMatches {
        models: find_matches(MODEL_PATTERN, text),
        modes: find_matches(MODE_PATTERN, text),
        shells: find_matches(SHELLS_PATTERN, text),
        remote: has_match(REMOTE_PATTERN, text),
        focused: has_match(FOCUS_PATTERN, text),
        menu: has_match(MENU_PATTERN, text),
    };
    match footer_line(text, &found.models) {
        Some(line) => {
            let percentages = find_matches(PROGRESS_PATTERN, line.as_str());
            assemble_status(text, &found, line.as_str(), &percentages)
        },
        None => {
            let none: Vec<Vec<Span>> = Vec::new();
            proof {
                reveal_strlit("");
                assert(""@ =~= seq![]);
                assert(spans(none@) =~= seq![]);
            }
            assemble_status(text, &found, "", &none)
        },
    }
}

/// An empty screen says nothing, and counts as a question.
pub proof fn law_empty_screen_is_blank()
    ensures
        status_of(seq![]) == StatusView::blank(),
        StatusView::blank().is_empty(),
        StatusView::blank().is_question_mode(),
{
}

/// Progress is a percentage: it never exceeds 100.
pub proof fn law_progress_is_a_percentage(text: Seq<char>)
    ensures
        status_of(text).progress matches Some(p) ==> p <= 100,
{
}

/// A mode is never empty, and the white space round it is trimmed.
pub proof fn law_mode_is_normal(text: Seq<char>)
    ensures
        status_of(text).mode matches Some(m) ==> m.len() > 0 && exists|label: Seq<char>|
            m == #[trigger] normal_mode(label),
{
    let modes = matches_of(MODE_PATTERN@, text);
    if let Some(m) = status_of(text).mode {
        if let Some(label) = group_text(text, modes.last(), 1) {
            assert(m == normal_mode(label));
        }
    }
}

/// Progress is read off the line of the model's footer only: without a footer there is none.
pub proof fn law_no_footer_no_progress(text: Seq<char>)
    requires
        footer_of(text, matches_of(MODEL_PATTERN@, text)) is None,
    ensures
        status_of(text).progress is None,
{
}

/// A single line shows no input box, whatever corners it has.
pub proof fn law_one_line_is_no_box(text: Seq<char>)
    requires
        !text.contains('\n'),
    ensures
        !input_box(text),
{
    if text.len() > 0 {
        assert forall|j: int| 0 <= j < text.len() implies #[trigger] text[j] != '\n' by {
            assert(text.contains(text[j]));
        }
        lemma_first_index(text, '\n', text.len() as int);
    }
    assert(text_lines(text).len() <= 1);
}

/// A screen with a model's footer is a question only if it is a menu.
pub proof fn law_footer_is_no_question(status: StatusView)
    requires
        status.model is Some,
    ensures
        status.is_question_mode() == status.menu_mode,
{
}

/// Whether the groups `low` are the groups `high`, found `by` bytes further down.
pub open spec fn is_shifted(low: Seq<Span>, high: Seq<Span>, by: int) -> bool {
    &&& low.len() == high.len()
    &&& forall|i: int|
        0 <= i < low.len() ==> match (#[trigger] low[i], high[i]) {
            (Some((a, b)), Some((c, d))) => a == c + by && b == d + by,
            (None, None) => true,
            _ => false,
        }
}

/// Whether every group of a match delimits whole characters of `text`.
pub open spec fn groups_fit(groups: Seq<Span>, text: Seq<char>) -> bool {
    forall|i: int|
        0 <= i < groups.len() ==> match #[trigger] groups[i] {
            Some((a, b)) => span_fits(a as int, b as int, text),
            None => true,
        }
}

proof fn lemma_bytes_below(above: Seq<char>, below: Seq<char>, a: int, b: int)
    requires
        0 <= a <= b <= encode_utf8(below).len(),
    ensures
        bytes_between(
            above + below,
            a + encode_utf8(above).len(),
            b + encode_utf8(above).len(),
        ) == bytes_between(below, a, b),
{
    let by = encode_utf8(above).len() as int;
    lemma_encode_concat(above, below);
    assert(encode_utf8(above + below).subrange(a + by, b + by) =~= encode_utf8(below).subrange(
        a,
        b,
    ));
}

proof fn lemma_group_below(
    above: Seq<char>,
    below: Seq<char>,
    low: Seq<Span>,
    high: Seq<Span>,
    i: int,
)
    requires
        is_shifted(low, high, encode_utf8(above).len() as int),
        groups_fit(high, below),
    ensures
        group_text(above + below, low, i) == group_text(below, high, i),
{
    if 0 <= i < low.len() {
        assert(low[i] is Some <==> high[i] is Some);
        if let Some((a, b)) = high[i] {
            lemma_bytes_below(above, below, a as int, b as int);
        }
    }
}

/// The bottom-most footer wins whatever stands above it: model, context and footer line depend only
/// on the last match and on the text from there on. `models` is found in `above + below`,
/// `footers` in `below`, and their last matches are the same place of the text.
pub proof fn law_footer_is_read_from_its_start(
    above: Seq<char>,
    below: Seq<char>,
    models: Seq<Seq<Span>>,
    footers: Seq<Seq<Span>>,
)
    requires
        last_match(models) is Some,
        last_match(footers) is Some,
        is_shifted(
            last_match(models)->0,
            last_match(footers)->0,
            encode_utf8(above).len() as int,
        ),
        groups_fit(last_match(footers)->0, below),
    ensures
        model_of(above + below, models) == model_of(below, footers),
        footer_of(above + below, models) == footer_of(below, footers),
{
    let low = last_match(models)->0;
    let high = last_match(footers)->0;
    lemma_group_below(above, below, low, high, 1);
    lemma_group_below(above, below, low, high, 2);
    lemma_last_match_has_whole(models);
    lemma_last_match_has_whole(footers);
    lemma_encode_concat(above, below);
    assert(low[0] is Some && high[0] is Some);
    let (start, _) = high[0]->0;
    lemma_bytes_below(above, below, start as int, encode_utf8(below).len() as int);
}

proof fn lemma_last_match_has_whole(found: Seq<Seq<Span>>)
    ensures
        last_match(found) matches Some(groups) ==> group(groups, 0) is Some,
    decreases found.len(),
{
    if found.len() > 0 && group(found.last(), 0) is None {
        lemma_last_match_has_whole(found.drop_last());
    }
}

/// Text above the last footer of a screen leaves the reading of that footer as it is. Where the
/// pattern finds that footer when it searches `above + below` and when it searches `below` alone,
/// both screens have one model, one context and one progress.
pub proof fn law_text_above_footer_is_ignored(above: Seq<char>, below: Seq<char>)
    requires
        below.len() > 0,
        last_match(matches_of(MODEL_PATTERN@, above + below)) is Some,
        last_match(matches_of(MODEL_PATTERN@, below)) is Some,
        is_shifted(
            last_match(matches_of(MODEL_PATTERN@, above + below))->0,
            last_match(matches_of(MODEL_PATTERN@, below))->0,
            encode_utf8(above).len() as int,
        ),
        groups_fit(last_match(matches_of(MODEL_PATTERN@, below))->0, below),
    ensures
        status_of(above + below).model == status_of(below).model,
        status_of(above + below).context_info == status_of(below).context_info,
        status_of(above + below).progress == status_of(below).progress,
{
    let models = matches_of(MODEL_PATTERN@, above + below);
    let footers = matches_of(MODEL_PATTERN@, below);
    law_footer_is_read_from_its_start(above, below, models, footers);
}

} // verus!
