//! Laws of what is read off the agent's screen.

use crate::bytes::lemma_encode_concat;
use crate::hashing::hash_of;
use crate::numerals::number_in;
use crate::patterns::{bytes_between, is_found, matches_of, Span};
use crate::screen::{
    law_end_of_screen_is_searched, lemma_boundary_from, tail_of, tail_start, BANNER_TAIL_BYTES,
    ScreenView,
};
use crate::laws::text::law_suffixes_are_taken_off;
use crate::status_parser::{
    footer_of, is_box, mode_key, normal_mode, status_from, status_of, ModeKey, StatusView,
};
use crate::text::{
    joined, lemma_first_index, lowercase, occurs, text_lines, trimmed, words, CharClass,
};
use vstd::prelude::*;
use vstd::string::*;
use vstd::utf8::*;

verus! {

/// A text between two byte positions is what stands there.
pub proof fn law_bytes_between(above: Seq<char>, middle: Seq<char>, below: Seq<char>)
    ensures
        bytes_between(
            above + middle + below,
            encode_utf8(above).len() as int,
            (encode_utf8(above).len() + encode_utf8(middle).len()) as int,
        ) == middle,
{
    lemma_encode_concat(above + middle, below);
    lemma_encode_concat(above, middle);
    let a = encode_utf8(above).len() as int;
    let b = a + encode_utf8(middle).len();
    assert(encode_utf8(above + middle + below).subrange(a, b) =~= encode_utf8(middle));
    encode_utf8_decode_utf8(middle);
}

proof fn lemma_tail_is_suffix(text: Seq<char>) -> (j: int)
    ensures
        0 <= j <= text.len(),
        tail_of(text) == text.skip(j),
{
    let bytes = encode_utf8(text);
    encode_utf8_valid_utf8(text);
    is_char_boundary_start_end_of_seq(bytes);
    if bytes.len() > BANNER_TAIL_BYTES {
        lemma_boundary_from(bytes, bytes.len() - BANNER_TAIL_BYTES);
    }
    let start = tail_start(text);
    valid_utf8_split(bytes, start);
    let front = decode_utf8(bytes.subrange(0, start));
    let back = tail_of(text);
    decode_utf8_encode_utf8(bytes.subrange(0, start));
    decode_utf8_encode_utf8(bytes.subrange(start, bytes.len() as int));
    lemma_encode_concat(front, back);
    assert(bytes =~= bytes.subrange(0, start) + bytes.subrange(start, bytes.len() as int));
    encode_utf8_decode_utf8(text);
    encode_utf8_decode_utf8(front + back);
    assert(text == front + back);
    assert(text.skip(front.len() as int) =~= back);
    front.len() as int
}

/// The exit banner is seen wherever it stands in the longest end of the screen of at most 1500
/// bytes: that end is searched as a whole, with its line breaks, and nothing above it.
pub proof fn law_banner_is_searched_in_the_whole_end(text: Seq<char>, k: int)
    requires
        0 <= k <= text.len(),
        encode_utf8(text.skip(k)).len() <= 1500,
        k > 0 ==> encode_utf8(text.skip(k - 1)).len() > 1500,
    ensures
        (ScreenView::Active { text }).shows_exit_banner() == is_found(
            r"(?i)press ctrl-?c again"@,
            text.skip(k),
        ),
{
    let j = lemma_tail_is_suffix(text);
    assert(text =~= text.take(k) + text.skip(k));
    law_end_of_screen_is_searched(text.take(k), text.skip(k));
    assert(text.skip(k).len() <= tail_of(text).len());
    assert(j <= k);
    if j < k {
        let longer = text.skip(k - 1);
        let between = text.subrange(j, k - 1);
        assert(text.skip(j) =~= between + longer);
        lemma_encode_concat(between, longer);
        assert(encode_utf8(tail_of(text)).len() <= BANNER_TAIL_BYTES);
    }
}

/// Where there is no active screen there is no banner and no status; the hash is zero, or stays as
/// it was where the terminal is gone.
pub proof fn law_other_screens_say_nothing(text: Seq<char>, last: u64)
    ensures
        !ScreenView::Gone.shows_exit_banner(),
        !ScreenView::Inactive.shows_exit_banner(),
        ScreenView::Gone.status() == StatusView::blank(),
        ScreenView::Inactive.status() == StatusView::blank(),
        (ScreenView::Active { text }).status() == status_of(text),
        ScreenView::Gone.hash(last) == last,
        ScreenView::Inactive.hash(last) == 0,
        (ScreenView::Active { text }).hash(last) == hash_of(text),
{
}

/// Menu, remote notice and focus marker are what their patterns find anywhere in the text, whatever
/// else the text has.
pub proof fn law_marks_are_found_anywhere(text: Seq<char>)
    requires
        text.len() > 0,
    ensures
        status_of(text).menu_mode == is_found(
            r"(?i)\b(resume session|select an?|switch to|choose)\b|\(\s*\d+\s+of\s+\d+\s*\)"@,
            text,
        ),
        status_of(text).remote == is_found(r"(?i)remote\s+control\s+active"@, text),
        status_of(text).focused == is_found(r"(?i)\bfocus\b"@, text),
{
}

/// A screen on which a menu is found is a question, whatever boxes, footers or marks it has.
pub proof fn law_menu_is_always_a_question(text: Seq<char>)
    requires
        text.len() > 0,
        is_found(
            r"(?i)\b(resume session|select an?|switch to|choose)\b|\(\s*\d+\s+of\s+\d+\s*\)"@,
            text,
        ),
    ensures
        status_of(text).is_question_mode(),
{
}

/// A screen is a question if it is a menu, or if it shows no input box, no model and no focus
/// marker; and otherwise not.
pub proof fn law_questions(status: StatusView)
    ensures
        status.menu_mode ==> status.is_question_mode(),
        status.has_input_box && !status.menu_mode ==> !status.is_question_mode(),
        status.model is Some && !status.menu_mode ==> !status.is_question_mode(),
        status.focused && !status.menu_mode ==> !status.is_question_mode(),
        !status.has_input_box && status.model is None && !status.focused
            ==> status.is_question_mode(),
{
}

/// A status says nothing exactly when it has no model, context, progress, mode or shells, and
/// neither remote notice nor focus marker. Boxes and menus do not count.
pub proof fn law_status_says_nothing(status: StatusView)
    ensures
        status.is_empty() <==> status.model is None && status.context_info is None
            && status.progress is None && status.mode is None && status.shells is None
            && !status.remote && !status.focused,
{
}

/// The input box is there exactly when one line has both upper corners and another both lower
/// corners.
pub proof fn law_input_box_has_two_borders(text: Seq<char>, i: int, j: int)
    requires
        text.len() > 0,
    ensures
        0 <= i < text_lines(text).len() && 0 <= j < text_lines(text).len() && i != j
            && text_lines(text)[i].contains('╭') && text_lines(text)[i].contains('╮')
            && text_lines(text)[j].contains('╰') && text_lines(text)[j].contains('╯')
            ==> status_of(text).has_input_box,
        status_of(text).has_input_box ==> exists|a: int, b: int|
            #![trigger text_lines(text)[a], text_lines(text)[b]]
            0 <= a < text_lines(text).len() && 0 <= b < text_lines(text).len() && a != b
                && text_lines(text)[a].contains('╭') && text_lines(text)[a].contains('╮')
                && text_lines(text)[b].contains('╰') && text_lines(text)[b].contains('╯'),
{
    let lines = text_lines(text);
    if 0 <= i < lines.len() && 0 <= j < lines.len() && i != j && lines[i].contains('╭')
        && lines[i].contains('╮') && lines[j].contains('╰') && lines[j].contains('╯') {
        assert(is_box(lines, i, j));
    }
    if status_of(text).has_input_box {
        let (a, b) = choose|a: int, b: int| is_box(lines, a, b);
        assert(lines[a].contains('╭') && lines[b].contains('╰'));
    }
}

/// The last footer names the model and its context, trimmed; without a footer there is neither.
pub proof fn law_last_footer_names_the_model(
    text: Seq<char>,
    models: Seq<Seq<Option<(usize, usize)>>>,
    whole: (usize, usize),
    name: (usize, usize),
    context: Option<(usize, usize)>,
)
    requires
        text.len() > 0,
        models == matches_of(
            r"\[\s*([A-Z][\w\.\s-]+?)\s*(?:\(([^)]+)\))?\s*\]"@,
            text,
        ),
    ensures
        models.len() == 0 ==> status_of(text).model is None && status_of(text).context_info is None
            && status_of(text).progress is None,
        models.len() > 0 && models.last() == seq![Some(whole), Some(name), context] ==> {
            &&& status_of(text).model == Some(
                trimmed(bytes_between(text, name.0 as int, name.1 as int), CharClass::White),
            )
            &&& status_of(text).context_info == match context {
                Some((a, b)) => Some(
                    trimmed(bytes_between(text, a as int, b as int), CharClass::White),
                ),
                None => None,
            }
        },
{
    if models.len() > 0 && models.last() == seq![Some(whole), Some(name), context] {
        assert(models.last()[0] == Some(whole));
        assert(models.last()[1] == Some(name));
        assert(models.last()[2] == context);
    }
}

/// Progress is the last percentage on the line of the last footer, from where the footer starts to
/// the end of the line, if it is at most 100.
pub proof fn law_progress_is_on_the_footer_line(
    above: Seq<char>,
    line: Seq<char>,
    below: Seq<char>,
    whole: (usize, usize),
    name: (usize, usize),
    context: Option<(usize, usize)>,
    percentage: (usize, usize),
    number: (usize, usize),
)
    requires
        line.len() > 0,
        !line.contains('\n'),
        below.len() == 0 || below[0] == '\n',
        matches_of(
            r"\[\s*([A-Z][\w\.\s-]+?)\s*(?:\(([^)]+)\))?\s*\]"@,
            above + line + below,
        ).len() > 0,
        matches_of(
            r"\[\s*([A-Z][\w\.\s-]+?)\s*(?:\(([^)]+)\))?\s*\]"@,
            above + line + below,
        ).last() == seq![Some(whole), Some(name), context],
        whole.0 == encode_utf8(above).len(),
    ensures
        matches_of(r"(\d{1,3})\s*%"@, line).len() == 0 ==> status_of(
            above + line + below,
        ).progress is None,
        matches_of(r"(\d{1,3})\s*%"@, line).len() > 0 && matches_of(
            r"(\d{1,3})\s*%"@,
            line,
        ).last() == seq![Some(percentage), Some(number)] ==> status_of(
            above + line + below,
        ).progress == match number_in(
            bytes_between(line, number.0 as int, number.1 as int),
            100,
        ) {
            Some(n) => Some(n as u8),
            None => None,
        },
{
    let text = above + line + below;
    let models = matches_of(r"\[\s*([A-Z][\w\.\s-]+?)\s*(?:\(([^)]+)\))?\s*\]"@, text);
    assert(models.last()[0] == Some(whole));
    lemma_encode_concat(above + line, below);
    lemma_encode_concat(above, line);
    lemma_encode_concat(line, below);
    let none: Seq<char> = seq![];
    let rest = line + below;
    law_bytes_between(above, rest, none);
    assert(above + rest + none =~= text);
    assert(bytes_between(text, whole.0 as int, encode_utf8(text).len() as int) == rest);
    assert forall|j: int| 0 <= j < line.len() implies #[trigger] rest[j] != '\n' by {
        assert(rest[j] == line[j]);
        assert(line.contains(line[j]));
    }
    lemma_first_index(rest, '\n', line.len() as int);
    assert(rest.take(line.len() as int) =~= line);
    assert(footer_of(text, models) == Some(line));
    let found = matches_of(r"(\d{1,3})\s*%"@, line);
    if found.len() > 0 && found.last() == seq![Some(percentage), Some(number)] {
        assert(found.last()[1] == Some(number));
    }
}

/// The number of shells is the last that is written, if it is not too large.
pub proof fn law_last_shell_count_is_read(
    text: Seq<char>,
    whole: (usize, usize),
    number: (usize, usize),
)
    requires
        text.len() > 0,
    ensures
        matches_of(r"(\d+)\s+shells?\b"@, text).len() == 0 ==> status_of(text).shells is None,
        matches_of(r"(\d+)\s+shells?\b"@, text).len() > 0 && matches_of(
            r"(\d+)\s+shells?\b"@,
            text,
        ).last() == seq![Some(whole), Some(number)] ==> status_of(text).shells == match number_in(
            bytes_between(text, number.0 as int, number.1 as int),
            0xffff_ffff,
        ) {
            Some(n) => Some(n as u32),
            None => None,
        },
{
    let found = matches_of(r"(\d+)\s+shells?\b"@, text);
    if found.len() > 0 && found.last() == seq![Some(whole), Some(number)] {
        assert(found.last()[1] == Some(number));
    }
}

/// The mode is the last that is announced, in its normal form, unless nothing is left of that.
pub proof fn law_last_mode_is_read(text: Seq<char>, whole: (usize, usize), label: (usize, usize))
    requires
        text.len() > 0,
    ensures
        matches_of(
            r"(?i)([A-Za-z][A-Za-z \t]*?(?:mode)?)[ \t]+on[ \t]+\(\S+[ \t]+to[ \t]+cycle\)"@,
            text,
        ).len() == 0 ==> status_of(text).mode is None,
        matches_of(
            r"(?i)([A-Za-z][A-Za-z \t]*?(?:mode)?)[ \t]+on[ \t]+\(\S+[ \t]+to[ \t]+cycle\)"@,
            text,
        ).len() > 0 && matches_of(
            r"(?i)([A-Za-z][A-Za-z \t]*?(?:mode)?)[ \t]+on[ \t]+\(\S+[ \t]+to[ \t]+cycle\)"@,
            text,
        ).last() == seq![Some(whole), Some(label)] ==> {
            let mode = normal_mode(bytes_between(text, label.0 as int, label.1 as int));
            status_of(text).mode == (if mode.len() == 0 {
                None
            } else {
                Some(mode)
            })
        },
{
    let found = matches_of(
        r"(?i)([A-Za-z][A-Za-z \t]*?(?:mode)?)[ \t]+on[ \t]+\(\S+[ \t]+to[ \t]+cycle\)"@,
        text,
    );
    if found.len() > 0 && found.last() == seq![Some(whole), Some(label)] {
        assert(found.last()[1] == Some(label));
    }
}

/// The normal form of a label is its words in lower case, with single blanks between them, without
/// the word "mode" as often as that is at their end.
pub proof fn law_normal_form_of_modes(label: Seq<char>, longer: Seq<char>)
    ensures
        !" mode"@.is_suffix_of(lowercase(joined(words(label), " "@))) ==> normal_mode(label)
            == trimmed(lowercase(joined(words(label), " "@)), CharClass::White),
        lowercase(joined(words(longer), " "@)) == lowercase(joined(words(label), " "@)) + " mode"@
            ==> normal_mode(longer) == normal_mode(label),
{
    reveal_strlit(" mode");
    law_suffixes_are_taken_off(lowercase(joined(words(label), " "@)), " mode"@);
}

/// The category of a mode is the first of the four key words that is in its label, in any case.
pub proof fn law_categories_of_modes(mode: Seq<char>)
    ensures
        occurs(lowercase(mode), "plan"@) ==> mode_key(mode) == ModeKey::Plan,
        mode_key(mode) == ModeKey::Plan ==> occurs(lowercase(mode), "plan"@),
        mode_key(mode) == ModeKey::Auto <==> occurs(lowercase(mode), "auto"@) && !occurs(
            lowercase(mode),
            "plan"@,
        ),
        mode_key(mode) == ModeKey::Bypass ==> occurs(lowercase(mode), "bypass"@) && !occurs(
            lowercase(mode),
            "auto"@,
        ),
        mode_key(mode) == ModeKey::Accept ==> occurs(lowercase(mode), "accept"@) && !occurs(
            lowercase(mode),
            "bypass"@,
        ),
        mode_key(mode) == ModeKey::Default <==> !occurs(lowercase(mode), "plan"@) && !occurs(
            lowercase(mode),
            "auto"@,
        ) && !occurs(lowercase(mode), "bypass"@) && !occurs(lowercase(mode), "accept"@),
{
}

/// Of an empty text nothing can be read.
pub proof fn law_empty_screen_says_nothing()
    ensures
        ({
            let none: Seq<char> = seq![];
            let status = status_of(none);
            &&& status == StatusView::blank()
            &&& status.model is None && status.context_info is None && status.progress is None
            &&& status.mode is None && status.shells is None
            &&& !status.remote && !status.focused && !status.has_input_box && !status.menu_mode
        }),
{
}

/// What was found on a screen is handed on as it is: a menu, the remote notice and the focus
/// marker, whatever else was found and whatever the text has.
pub proof fn law_marks_are_handed_on(
    text: Seq<char>,
    other: Seq<char>,
    models: Seq<Seq<Span>>,
    modes: Seq<Seq<Span>>,
    shells: Seq<Seq<Span>>,
    remote: bool,
    focused: bool,
    menu: bool,
    footer: Seq<char>,
    percentages: Seq<Seq<Span>>,
)
    ensures
        ({
            let status = status_from(
                text,
                models,
                modes,
                shells,
                remote,
                focused,
                menu,
                footer,
                percentages,
            );
            let bare = status_from(
                text,
                seq![],
                seq![],
                seq![],
                false,
                false,
                false,
                other,
                seq![],
            );
            &&& status.menu_mode == menu
            &&& status.remote == remote
            &&& status.focused == focused
            &&& status.has_input_box == bare.has_input_box
            &&& bare.model is None && bare.context_info is None && bare.progress is None
            &&& bare.mode is None && bare.shells is None
            &&& menu ==> status.is_question_mode()
            &&& text.len() > 0 ==> bare.has_input_box == status_of(text).has_input_box
        }),
{
}

/// Each part of a status is read off the matches for it alone.
pub proof fn law_parts_are_read_apart(
    text: Seq<char>,
    models: Seq<Seq<Span>>,
    modes: Seq<Seq<Span>>,
    shells: Seq<Seq<Span>>,
    marks: (bool, bool, bool),
    footer: Seq<char>,
    percentages: Seq<Seq<Span>>,
    whole: (usize, usize),
    part: (usize, usize),
)
    ensures
        ({
            let status = status_from(
                text,
                models,
                modes,
                shells,
                marks.0,
                marks.1,
                marks.2,
                footer,
                percentages,
            );
            let found = bytes_between(text, part.0 as int, part.1 as int);
            let matched: Seq<Span> = seq![Some(whole), Some(part)];
            &&& models.len() > 0 && models.last() == matched ==> status.model == Some(
                trimmed(found, CharClass::White),
            ) && status.context_info is None
            &&& modes.len() > 0 && modes.last() == matched && normal_mode(found).len() > 0
                ==> status.mode == Some(normal_mode(found))
            &&& modes.len() > 0 && modes.last() == matched && normal_mode(found).len() == 0
                ==> status.mode is None
            &&& shells.len() > 0 && shells.last() == matched ==> status.shells == match number_in(
                found,
                0xffff_ffff,
            ) {
                Some(n) => Some(n as u32),
                None => None,
            }
            &&& percentages.len() > 0 && percentages.last() == matched ==> status.progress
                == match number_in(bytes_between(footer, part.0 as int, part.1 as int), 100) {
                Some(n) => Some(n as u8),
                None => None,
            }
        }),
{
    let matched: Seq<Span> = seq![Some(whole), Some(part)];
    assert(matched[0] == Some(whole));
    assert(matched[1] == Some(part));
}

/// A match that lacks the part that is asked for gives nothing, though others before it have it; only
/// a footer that matched nowhere is passed over for the one before it.
pub proof fn law_missing_parts(
    text: Seq<char>,
    found: Seq<Seq<Span>>,
    last: Seq<Span>,
    footer: Seq<char>,
)
    requires
        last.len() < 2 || last[1] is None,
    ensures
        ({
            let all = found.push(last);
            let status = status_from(text, all, all, all, false, false, false, footer, all);
            let before = status_from(text, found, found, found, false, false, false, footer, found);
            &&& status.mode is None && status.shells is None && status.progress is None
            &&& last.len() > 0 && last[0] is Some ==> status.model is None
            &&& last.len() == 0 || last[0] is None ==> status.model == before.model
                && status.context_info == before.context_info && footer_of(text, all) == footer_of(
                text,
                found,
            )
        }),
{
    let all = found.push(last);
    assert(all.drop_last() =~= found);
    assert(all.last() == last);
}

} // verus!
