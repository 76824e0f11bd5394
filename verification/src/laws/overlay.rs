//! Laws of the overlay: what sending, editing, walking and completing do.

use crate::history_store::{is_appendable, line_of, lines_of, newest, stored, StoreView};
use crate::laws::screen::law_banner_is_searched_in_the_whole_end;
use crate::overlay::{
    draft_after, file_after, keeps_mirror, mirrors, ClaudePromptOverlayAction, EditOrigin,
    EditorEvent, EffectView, EventView, HistoryView, NavigationKey, OverlayView,
};
use crate::patterns::is_found;
use crate::popover::{popover_for, PopoverKind};
use crate::screen::ScreenView;
use crate::text::{is_space, lemma_blank};
use vstd::arithmetic::div_mod::*;
use vstd::prelude::*;
use vstd::string::*;
use vstd::utf8::*;

verus! {

/// Whether `after` differs from `before` in nothing but what sending changes: the history and the
/// place in it, the last prompt, that one is on its way, and the ticket of the draft.
pub open spec fn differs_by_sending(before: OverlayView, after: OverlayView) -> bool {
    &&& after.last_alt_hash == before.last_alt_hash
    &&& after.is_hidden == before.is_hidden
    &&& after.popover == before.popover
    &&& after.history_store == before.history_store
    &&& after.history_loaded == before.history_loaded
    &&& after.commands == before.commands
    &&& after.models == before.models
}

/// Sending any text that is not white space throughout, while no other is on its way: the editor is
/// emptied first; the agent's input is cleared by one keystroke, Ctrl-U while the banner is up and
/// Ctrl-C otherwise; the submission of exactly that text is put off by 80 ms, as the last effect;
/// and between the first and the keystroke nothing happens but to the history file.
pub proof fn law_sending(s: OverlayView, text: Seq<char>, banner: bool, at: int)
    requires
        !s.is_submitting,
        0 <= at < text.len(),
        !is_space(text[at]),
    ensures
        ({
            let (after, effects) = s.sent(text, banner);
            let n = effects.len() as int;
            &&& differs_by_sending(s, after)
            &&& after.is_submitting
            &&& after.last_sent == Some(text)
            &&& after.history_state is LiveDraft
            &&& after.draft_ticket as int == (s.draft_ticket + 1) % 0x1_0000_0000_0000_0000
            &&& after.draft_ticket != s.draft_ticket
            &&& n >= 4
            &&& effects[0] == EffectView::ClearBuffer
            &&& effects[n - 3] == EffectView::Emit(
                EventView::WriteRaw {
                    bytes: seq![
                        if banner {
                            0x15u8
                        } else {
                            0x03u8
                        },
                    ],
                },
            )
            &&& effects[n - 2] == EffectView::Notify
            &&& effects[n - 1] == (EffectView::SubmitAfter { delay_ms: 80, text })
            &&& forall|i: int|
                0 < i < n - 3 ==> (#[trigger] effects[i]) is AppendHistory || effects[i]
                    is RewriteHistory
        }),
{
    lemma_blank(text);
    let effects = s.sent(text, banner).1;
    assert(effects =~= seq![EffectView::ClearBuffer] + s.submitted(text, banner).1);
    assert forall|i: int| 0 < i < effects.len() - 3 implies (#[trigger] effects[i])
        is AppendHistory || effects[i] is RewriteHistory by {
        assert(effects[i] == s.pushed(text).1[i - 1]);
    }
}

/// A text of white space only is dropped, and while a prompt is on its way nothing happens at all.
pub proof fn law_sending_nothing(s: OverlayView, text: Seq<char>, banner: bool)
    ensures
        s.is_submitting ==> s.sent(text, banner) == (s, Seq::<EffectView>::empty()),
        !s.is_submitting && (forall|i: int| 0 <= i < text.len() ==> is_space(#[trigger] text[i]))
            ==> s.sent(text, banner) == (s, seq![EffectView::ClearBuffer]),
{
    lemma_blank(text);
}

/// Every prompt that is sent is recorded as the newest, whatever it says: behind all that was
/// there, the oldest dropped where there would be more than 200. Only an exact repeat of the newest
/// is not recorded again.
pub proof fn law_sent_prompt_is_recorded(s: OverlayView, text: Seq<char>, banner: bool, at: int)
    requires
        s.is_valid(),
        !s.is_submitting,
        0 <= at < text.len(),
        !is_space(text[at]),
    ensures
        ({
            let before = s.history;
            let after = s.sent(text, banner).0.history;
            &&& after.len() > 0
            &&& after.last() == text
            &&& after.len() <= 200
            &&& before.len() > 0 && before.last() == text ==> after == before
            &&& !(before.len() > 0 && before.last() == text) && before.len() < 200 ==> after
                == before.push(text)
            &&& !(before.len() > 0 && before.last() == text) && before.len() == 200 ==> after
                == before.skip(1).push(text)
        }),
{
    lemma_blank(text);
    let before = s.history;
    if !(before.len() > 0 && before.last() == text) && before.len() == 200 {
        assert(before.push(text).skip(1) =~= before.skip(1).push(text));
    }
}

/// A step back right after a prompt was sent shows exactly that prompt, and the step forward after
/// it gives the draft back.
pub proof fn law_step_back_after_sending_shows_the_prompt(
    s: OverlayView,
    text: Seq<char>,
    banner: bool,
    at: int,
    draft: Seq<char>,
    screen: ScreenView,
)
    requires
        s.is_valid(),
        s.popover is None,
        !s.is_submitting,
        0 <= at < text.len(),
        !is_space(text[at]),
    ensures
        ({
            let sent = s.sent(text, banner).0.finished(text).0;
            let up = sent.after_event(EditorEvent::Navigate(NavigationKey::Up), draft, screen);
            let down = up.0.after_event(
                EditorEvent::Navigate(NavigationKey::Down),
                text,
                screen,
            );
            &&& up.1 == seq![EffectView::ResetBuffer(text)]
            &&& down.1 == seq![EffectView::ResetBuffer(draft)]
            &&& down.0 == sent
        }),
{
    law_sent_prompt_is_recorded(s, text, banner, at);
    lemma_blank(text);
}

/// A prompt that is sent and not a repeat reaches the history file as one line that holds its
/// record, behind what is there; where the history is full, the file is then written anew from the
/// history. Without a store no file is touched.
pub proof fn law_sent_prompt_reaches_the_file(
    s: OverlayView,
    text: Seq<char>,
    banner: bool,
    at: int,
    contents: Seq<u8>,
)
    requires
        s.is_valid(),
        !s.is_submitting,
        0 <= at < text.len(),
        !is_space(text[at]),
    ensures
        ({
            let (after, effects) = s.sent(text, banner);
            let repeats = s.history.len() > 0 && s.history.last() == text;
            &&& s.history_store is None || repeats ==> file_after(contents, effects) == contents
            &&& s.history_store is Some && !repeats && s.history.len() < 200 ==> file_after(
                contents,
                effects,
            ) == contents + encode_utf8(line_of(text))
            &&& s.history_store is Some && !repeats && s.history.len() == 200 ==> file_after(
                contents,
                effects,
            ) == encode_utf8(lines_of(after.history))
        }),
{
    lemma_blank(text);
    let effects = s.sent(text, banner).1;
    let n = effects.len() as int;
    reveal_with_fuel(file_after, 7);
    let a = effects.drop_last();
    let b = a.drop_last();
    let c = b.drop_last();
    assert(effects =~= seq![EffectView::ClearBuffer] + s.submitted(text, banner).1);
    assert(c =~= seq![EffectView::ClearBuffer] + s.pushed(text).1);
    assert(file_after(contents, effects) == file_after(contents, c));
    if s.pushed(text).1.len() == 0 {
        assert(c.drop_last() =~= seq![]);
    } else if s.pushed(text).1.len() == 1 {
        assert(c.drop_last().drop_last() =~= seq![]);
        assert(c.last() == s.pushed(text).1[0]);
    } else {
        assert(c.last() == s.pushed(text).1[1]);
    }
}

/// The history file follows its two effects, in order, and no other.
pub proof fn law_file_follows_effects(
    contents: Seq<u8>,
    done: Seq<EffectView>,
    next: EffectView,
    text: Seq<char>,
)
    ensures
        file_after(contents, seq![]) == contents,
        next == EffectView::AppendHistory(text) ==> file_after(contents, done.push(next))
            == file_after(contents, done) + encode_utf8(text),
        next == EffectView::RewriteHistory(text) ==> file_after(contents, done.push(next))
            == encode_utf8(text),
        !(next is AppendHistory) && !(next is RewriteHistory) ==> file_after(
            contents,
            done.push(next),
        ) == file_after(contents, done),
{
    assert(done.push(next).drop_last() =~= done);
}

/// The draft file follows its two effects, in order, and no other.
pub proof fn law_draft_follows_effects(
    contents: Option<Seq<u8>>,
    done: Seq<EffectView>,
    next: EffectView,
    text: Seq<char>,
)
    ensures
        draft_after(contents, seq![]) == contents,
        next == EffectView::SaveDraft(text) ==> draft_after(contents, done.push(next)) == Some(
            encode_utf8(text),
        ),
        next == EffectView::ClearDraft ==> draft_after(contents, done.push(next)) is None,
        !(next is SaveDraft) && !(next is ClearDraft) ==> draft_after(contents, done.push(next))
            == draft_after(contents, done),
{
    assert(done.push(next).drop_last() =~= done);
}

/// That a file is in line with a history means that loading it, at most 200 entries, gives the
/// history.
pub proof fn law_mirrored_file_loads_as_history(
    history: Seq<Seq<char>>,
    contents: Seq<u8>,
    before: OverlayView,
    after: OverlayView,
    effects: Seq<EffectView>,
)
    ensures
        mirrors(history, contents) ==> newest(stored(contents), 200) == history,
        is_appendable(contents) ==> mirrors(newest(stored(contents), 200), contents),
        keeps_mirror(before, (after, effects)) && before.history_store is Some && mirrors(
            before.history,
            contents,
        ) ==> newest(stored(file_after(contents, effects)), 200) == after.history,
{
}

/// Enter without a popover sends, and so does the action, with or without a popover; the keystroke
/// that clears the input is Ctrl-U exactly where the exit banner is in the longest end of the
/// active screen of at most 1500 bytes.
pub proof fn law_enter_sends_past_the_banner(
    s: OverlayView,
    buffer: Seq<char>,
    at: int,
    text: Seq<char>,
    k: int,
)
    requires
        !s.is_submitting,
        0 <= at < buffer.len(),
        !is_space(buffer[at]),
        0 <= k <= text.len(),
        encode_utf8(text.skip(k)).len() <= 1500,
        k > 0 ==> encode_utf8(text.skip(k - 1)).len() > 1500,
    ensures
        ({
            let screen = ScreenView::Active { text };
            let up = is_found(r"(?i)press ctrl-?c again"@, text.skip(k));
            let sent = s.sent(buffer, up);
            let n = sent.1.len() as int;
            &&& s.after_action(ClaudePromptOverlayAction::Send, buffer, screen) == sent
            &&& s.popover is None ==> s.after_event(EditorEvent::Enter, buffer, screen) == sent
            &&& up ==> sent.1[n - 3] == EffectView::Emit(
                EventView::WriteRaw { bytes: seq![0x15u8] },
            )
            &&& !up ==> sent.1[n - 3] == EffectView::Emit(
                EventView::WriteRaw { bytes: seq![0x03u8] },
            )
        }),
{
    law_banner_is_searched_in_the_whole_end(text, k);
    law_sending(s, buffer, is_found(r"(?i)press ctrl-?c again"@, text.skip(k)), at);
}

/// Without an active screen there is no banner: sending clears with Ctrl-C.
pub proof fn law_enter_sends_without_a_screen(s: OverlayView, buffer: Seq<char>)
    ensures
        s.after_action(ClaudePromptOverlayAction::Send, buffer, ScreenView::Gone) == s.sent(
            buffer,
            false,
        ),
        s.after_action(ClaudePromptOverlayAction::Send, buffer, ScreenView::Inactive) == s.sent(
            buffer,
            false,
        ),
        s.popover is None ==> s.after_event(EditorEvent::Enter, buffer, ScreenView::Inactive)
            == s.sent(buffer, false),
        s.popover is None ==> s.after_event(EditorEvent::Enter, buffer, ScreenView::Gone)
            == s.sent(buffer, false),
{
}

/// When its time has come, exactly the text is submitted, the draft file is dropped if there is a
/// store, the overlay is drawn anew, and another prompt can be sent; nothing else changes.
pub proof fn law_finishing(s: OverlayView, text: Seq<char>)
    ensures
        !s.finished(text).0.is_submitting,
        (OverlayView { is_submitting: s.is_submitting, ..s.finished(text).0 }) == s,
        s.history_store is Some ==> s.finished(text).1 == seq![
            EffectView::Emit(EventView::Submit { text }),
            EffectView::ClearDraft,
            EffectView::Notify,
        ],
        s.history_store is None ==> s.finished(text).1 == seq![
            EffectView::Emit(EventView::Submit { text }),
            EffectView::Notify,
        ],
{
}

/// Escape: an open popover is closed and nothing else happens. Otherwise the agent is interrupted;
/// where the editor has nothing but white space and a prompt was sent, that prompt comes back as
/// the live draft.
pub proof fn law_escape(s: OverlayView, buffer: Seq<char>, screen: ScreenView, last: Seq<char>)
    ensures
        ({
            let (after, effects) = s.after_event(EditorEvent::Escape, buffer, screen);
            let blank = forall|i: int| 0 <= i < buffer.len() ==> is_space(#[trigger] buffer[i]);
            let interrupt = EffectView::Emit(EventView::WriteRaw { bytes: seq![0x03u8] });
            &&& s.popover is Some ==> effects == seq![EffectView::Notify] && after == (OverlayView {
                popover: None,
                ..s
            })
            &&& s.popover is None ==> (after, effects) == s.escaped(buffer)
            &&& blank && s.last_sent == Some(last) ==> s.escaped(buffer) == (
                OverlayView { history_state: HistoryView::LiveDraft, ..s },
                seq![interrupt, EffectView::ResetBuffer(last)],
            )
            &&& !blank || s.last_sent is None ==> s.escaped(buffer) == (s, seq![interrupt])
        }),
{
    lemma_blank(buffer);
}

/// Shift+Tab writes its escape sequence, and Tab without a popover moves the focus; other keys and
/// edits that are not the user's do nothing. The overlay stays as it is.
pub proof fn law_other_keys(s: OverlayView, buffer: Seq<char>, screen: ScreenView)
    ensures
        s.after_event(EditorEvent::Navigate(NavigationKey::ShiftTab), buffer, screen) == (
            s,
            seq![
                EffectView::Emit(
                    EventView::WriteRaw { bytes: seq![0x1bu8, '[' as u8, 'Z' as u8] },
                ),
            ],
        ),
        s.popover is None ==> s.after_event(
            EditorEvent::Navigate(NavigationKey::Tab),
            buffer,
            screen,
        ) == (s, seq![EffectView::Emit(EventView::FocusTerminal)]),
        s.after_event(EditorEvent::Navigate(NavigationKey::Other), buffer, screen) == (
            s,
            Seq::<EffectView>::empty(),
        ),
        s.after_event(EditorEvent::Edited(EditOrigin::System), buffer, screen) == (
            s,
            Seq::<EffectView>::empty(),
        ),
        s.after_event(EditorEvent::Other, buffer, screen) == (s, Seq::<EffectView>::empty()),
{
}

/// What the actions other than sending do.
pub proof fn law_other_actions(s: OverlayView, buffer: Seq<char>, screen: ScreenView)
    ensures
        s.after_action(ClaudePromptOverlayAction::Interrupt, buffer, screen) == (
            s,
            seq![EffectView::Emit(EventView::WriteRaw { bytes: seq![0x03u8] })],
        ),
        s.after_action(ClaudePromptOverlayAction::CycleMode, buffer, screen) == s.after_event(
            EditorEvent::Navigate(NavigationKey::ShiftTab),
            buffer,
            screen,
        ),
        s.after_action(ClaudePromptOverlayAction::FocusEditor, buffer, screen) == (
            s,
            seq![EffectView::FocusEditor],
        ),
        s.after_action(ClaudePromptOverlayAction::ToggleHide, buffer, screen) == (
            OverlayView { is_hidden: !s.is_hidden, ..s },
            seq![EffectView::Notify],
        ),
        s.toggled() == s.after_action(ClaudePromptOverlayAction::ToggleHide, buffer, screen),
{
}

/// After any edit of the user the popover is the one for the new text, the text is the live draft,
/// and its save is put off by 500 ms under a new ticket; nothing else changes.
pub proof fn law_edits_refresh_the_popover(s: OverlayView, buffer: Seq<char>, screen: ScreenView)
    ensures
        ({
            let (after, effects) = s.after_event(
                EditorEvent::Edited(EditOrigin::UserTyped),
                buffer,
                screen,
            );
            &&& after.popover == popover_for(buffer, s.popover, s.commands, s.models)
            &&& after.history_state is LiveDraft
            &&& after.draft_ticket as int == (s.draft_ticket + 1) % 0x1_0000_0000_0000_0000
            &&& after.draft_ticket != s.draft_ticket
            &&& (OverlayView {
                popover: s.popover,
                history_state: s.history_state,
                draft_ticket: s.draft_ticket,
                ..after
            }) == s
            &&& effects == seq![
                EffectView::Notify,
                EffectView::SaveDraftAfter { delay_ms: 500, ticket: after.draft_ticket },
            ]
        }),
        s.after_event(EditorEvent::Edited(EditOrigin::UserInitiated), buffer, screen)
            == s.after_event(EditorEvent::Edited(EditOrigin::UserTyped), buffer, screen),
        s.recomputed(buffer) == (
            OverlayView { popover: popover_for(buffer, s.popover, s.commands, s.models), ..s },
            seq![EffectView::Notify],
        ),
{
}

/// Enter and Tab on an open popover put the selected command and a blank into the editor, or
/// `/model `, and the selected model; the popover is then the one for that text. The prompt is not
/// sent, and nothing else changes.
pub proof fn law_enter_and_tab_complete(
    s: OverlayView,
    buffer: Seq<char>,
    screen: ScreenView,
    name: Seq<char>,
)
    requires
        s.popover matches Some(p) && 0 <= p.selected < p.items.len() && p.items[p.selected].name
            == name,
    ensures
        ({
            let text = match s.popover->0.kind {
                PopoverKind::Slash => name + " "@,
                PopoverKind::Model => "/model "@ + name,
            };
            let enter = s.after_event(EditorEvent::Enter, buffer, screen);
            &&& enter.0 == (OverlayView {
                popover: popover_for(text, s.popover, s.commands, s.models),
                ..s
            })
            &&& enter.1 == seq![EffectView::SetBuffer(text), EffectView::Notify]
            &&& s.after_event(EditorEvent::Navigate(NavigationKey::Tab), buffer, screen) == enter
            &&& s.completed() == enter
        }),
{
}

/// Up and Down on an open popover move the selection by one entry, round the ends, and change
/// nothing else; the history is not walked.
pub proof fn law_arrows_move_the_selection(s: OverlayView, buffer: Seq<char>, screen: ScreenView)
    requires
        s.popover matches Some(p) && 0 <= p.selected < p.items.len(),
    ensures
        ({
            let p = s.popover->0;
            let up = s.after_event(EditorEvent::Navigate(NavigationKey::Up), buffer, screen);
            let down = s.after_event(EditorEvent::Navigate(NavigationKey::Down), buffer, screen);
            &&& up.1 == seq![EffectView::Notify]
            &&& down.1 == seq![EffectView::Notify]
            &&& (OverlayView { popover: s.popover, ..up.0 }) == s
            &&& (OverlayView { popover: s.popover, ..down.0 }) == s
            &&& up.0.popover matches Some(q) && q.kind == p.kind && q.query == p.query && q.items
                == p.items && q.selected == (if p.selected == 0 {
                p.items.len() - 1
            } else {
                p.selected - 1
            })
            &&& down.0.popover matches Some(q) && q.kind == p.kind && q.query == p.query && q.items
                == p.items && q.selected == (if p.selected + 1 == p.items.len() {
                0
            } else {
                p.selected + 1
            })
        }),
{
    let p = s.popover->0;
    let n = p.items.len() as int;
    lemma_small_mod(p.selected as nat, n as nat);
    if p.selected == 0 {
        lemma_mod_add_multiples_vanish(-1, n);
        lemma_small_mod((n - 1) as nat, n as nat);
    } else {
        lemma_small_mod((p.selected - 1) as nat, n as nat);
    }
    if p.selected + 1 == n {
        lemma_mod_self_0(n);
    } else {
        lemma_small_mod((p.selected + 1) as nat, n as nat);
    }
}

/// Up without a popover shows the next older prompt, from the newest on, and keeps the draft; at
/// the oldest, and in an empty history, it does nothing.
pub proof fn law_up_shows_older_prompts(
    s: OverlayView,
    buffer: Seq<char>,
    screen: ScreenView,
    idx: int,
    draft: Seq<char>,
)
    ensures
        ({
            let (after, effects) = s.gone_back(buffer);
            let n = s.history.len() as int;
            &&& n == 0 ==> (after, effects) == (s, Seq::<EffectView>::empty())
            &&& n > 0 && s.history_state is LiveDraft ==> effects == seq![
                EffectView::ResetBuffer(s.history.last()),
            ] && after == (OverlayView {
                history_state: HistoryView::Browsing { idx: n - 1, draft: buffer },
                ..s
            })
            &&& n > 0 && idx > 0 && s.history_state == (HistoryView::Browsing { idx, draft })
                ==> effects == seq![EffectView::ResetBuffer(s.history[idx - 1])] && after == (
            OverlayView { history_state: HistoryView::Browsing { idx: idx - 1, draft }, ..s })
            &&& s.history_state == (HistoryView::Browsing { idx: 0, draft }) ==> (after, effects)
                == (s, Seq::<EffectView>::empty())
            &&& s.popover is None ==> s.after_event(
                EditorEvent::Navigate(NavigationKey::Up),
                buffer,
                screen,
            ) == (after, effects)
        }),
{
}

/// Down without a popover shows the next newer prompt; past the newest the draft comes back. On the
/// live draft it does nothing.
pub proof fn law_down_shows_newer_prompts(
    s: OverlayView,
    buffer: Seq<char>,
    screen: ScreenView,
    idx: int,
    draft: Seq<char>,
)
    ensures
        ({
            let (after, effects) = s.gone_forward();
            let n = s.history.len() as int;
            let browsing = s.history_state == (HistoryView::Browsing { idx, draft });
            &&& s.history_state is LiveDraft ==> (after, effects) == (
                s,
                Seq::<EffectView>::empty(),
            )
            &&& browsing && idx + 1 < n ==> effects == seq![
                EffectView::ResetBuffer(s.history[idx + 1]),
            ] && after == (OverlayView {
                history_state: HistoryView::Browsing { idx: idx + 1, draft },
                ..s
            })
            &&& browsing && idx + 1 >= n ==> effects == seq![EffectView::ResetBuffer(draft)]
                && after == (OverlayView { history_state: HistoryView::LiveDraft, ..s })
            &&& s.popover is None ==> s.after_event(
                EditorEvent::Navigate(NavigationKey::Down),
                buffer,
                screen,
            ) == (after, effects)
        }),
{
}

/// A step back is possible unless it leads past the end of the history; no other event is refused.
pub proof fn law_only_a_lost_step_back_is_refused(s: OverlayView, event: EditorEvent)
    ensures
        s.can_go_back() <==> (s.history_state matches HistoryView::Browsing { idx, .. } ==> idx <= 0
            || s.history.len() == 0 || idx - 1 < s.history.len()),
        s.accepts_event(event) <==> s.popover is Some || event != EditorEvent::Navigate(
            NavigationKey::Up,
        ) || s.can_go_back(),
{
}

/// The draft that is saved is what the user typed: the editor's text, or, while a prompt of the
/// history is shown, what was there before. It is saved for the newest edit only, and only where
/// the workspace is known.
pub proof fn law_what_is_saved(
    s: OverlayView,
    ticket: u64,
    buffer: Seq<char>,
    idx: int,
    draft: Seq<char>,
)
    ensures
        ticket != s.draft_ticket || s.history_store is None ==> s.saves_when_due(ticket, buffer)
            == Seq::<EffectView>::empty(),
        ticket == s.draft_ticket && s.history_store is Some && s.history_state is LiveDraft
            ==> s.saves_when_due(ticket, buffer) == seq![EffectView::SaveDraft(buffer)],
        ticket == s.draft_ticket && s.history_store is Some && s.history_state == (
        HistoryView::Browsing { idx, draft }) ==> s.saves_when_due(ticket, buffer) == seq![
            EffectView::SaveDraft(draft),
        ],
{
}

/// What is loaded for the workspace takes the place of the history, and a saved draft goes into an
/// editor that has nothing but white space and shows no prompt of the history. Nothing else
/// changes.
pub proof fn law_what_is_installed(
    s: OverlayView,
    store: StoreView,
    history: Seq<Seq<char>>,
    saved: Option<Seq<char>>,
    buffer: Seq<char>,
)
    ensures
        ({
            let (after, effects) = s.installed(store, history, saved, buffer);
            let blank = forall|i: int| 0 <= i < buffer.len() ==> is_space(#[trigger] buffer[i]);
            &&& after.history == history
            &&& after.history_store == Some(store)
            &&& after.history_loaded
            &&& (OverlayView {
                history: s.history,
                history_store: s.history_store,
                history_loaded: s.history_loaded,
                ..after
            }) == s
            &&& saved is Some && blank && s.history_state is LiveDraft ==> effects
                == seq![EffectView::ResetBuffer(saved->0)]
            &&& saved is None || !blank || !(s.history_state is LiveDraft) ==> effects == Seq::<
                EffectView,
            >::empty()
        }),
{
    lemma_blank(buffer);
}

/// The store is asked for once: as soon as the workspace is known, and never again once the history
/// is loaded or there is no directory for it.
pub proof fn law_store_is_wanted_once(s: OverlayView, knows: bool, has_dir: bool)
    ensures
        s.wants_store(knows, has_dir) <==> !s.history_loaded && knows && has_dir,
        knows && !has_dir ==> s.looked_for_store(knows, has_dir).history_loaded,
        !knows || has_dir ==> s.looked_for_store(knows, has_dir) == s,
        (OverlayView { history_loaded: s.history_loaded, ..s.looked_for_store(knows, has_dir) })
            == s,
{
}

/// A look at the screen draws the overlay anew exactly when the screen's hash has changed, and
/// keeps the new hash; nothing else changes.
pub proof fn law_looking(s: OverlayView, screen: ScreenView)
    ensures
        s.looked(screen).0 == (OverlayView { last_alt_hash: screen.hash(s.last_alt_hash), ..s }),
        screen.hash(s.last_alt_hash) != s.last_alt_hash ==> s.looked(screen).1 == seq![
            EffectView::Notify,
        ],
        screen.hash(s.last_alt_hash) == s.last_alt_hash ==> s.looked(screen).1 == Seq::<
            EffectView,
        >::empty(),
{
}

/// Adding a prompt to the history, and what is written for it: one line, and where the history was
/// full everything anew. A repeat of the newest adds and writes nothing, and without a store
/// nothing is written.
pub proof fn law_pushing(s: OverlayView, text: Seq<char>)
    requires
        s.is_valid(),
    ensures
        ({
            let (after, effects) = s.pushed(text);
            let repeats = s.history.len() > 0 && s.history.last() == text;
            let full = s.history.len() == 200;
            &&& (OverlayView { history: s.history, ..after }) == s
            &&& repeats ==> after == s && effects == Seq::<EffectView>::empty()
            &&& !repeats ==> after.history == (if full {
                s.history.skip(1)
            } else {
                s.history
            }).push(text)
            &&& s.history_store is None ==> effects == Seq::<EffectView>::empty()
            &&& s.history_store is Some && !repeats && !full ==> effects == seq![
                EffectView::AppendHistory(line_of(text)),
            ]
            &&& s.history_store is Some && !repeats && full ==> effects == seq![
                EffectView::AppendHistory(line_of(text)),
                EffectView::RewriteHistory(lines_of(after.history)),
            ]
        }),
{
    if s.history.len() == 200 {
        assert(s.history.push(text).skip(1) =~= s.history.skip(1).push(text));
    }
}

/// A text is sent where it has anything but white space and no prompt is on its way; the history
/// then is what adding it makes of it, and the effects are those of starting to submit it, behind
/// the emptying of the editor.
pub proof fn law_sending_is_recording_and_submitting(
    s: OverlayView,
    text: Seq<char>,
    banner: bool,
    at: int,
)
    ensures
        s.sends(text) ==> !s.is_submitting && exists|i: int|
            0 <= i < text.len() && !is_space(#[trigger] text[i]),
        !s.is_submitting && 0 <= at < text.len() && !is_space(text[at]) ==> s.sends(text),
        s.sends(text) ==> s.sent(text, banner).0.history == s.pushed(text).0.history,
        s.sends(text) ==> s.sent(text, banner).0 == s.submitted(text, banner).0,
        s.sends(text) ==> s.sent(text, banner).1 == seq![EffectView::ClearBuffer] + s.submitted(
            text,
            banner,
        ).1,
        s.submitted(text, banner).1.len() == s.pushed(text).1.len() + 3,
        s.submitted(text, banner).1.take(s.pushed(text).1.len() as int) == s.pushed(text).1,
        s.submitted(text, banner).0.history == s.pushed(text).0.history,
{
    lemma_blank(text);
    assert(s.submitted(text, banner).1.take(s.pushed(text).1.len() as int) =~= s.pushed(text).1);
}

/// The states that overlays can be in: a history of at most 200 prompts, a place in it below that,
/// a popover with a selection, a store for as many prompts.
pub proof fn law_valid_overlays(s: OverlayView)
    ensures
        s.is_valid() <==> s.history.len() <= 200 && (s.history_state matches HistoryView::Browsing {
            idx,
            ..
        } ==> 0 <= idx < 200) && (s.popover matches Some(p) ==> 0 <= p.selected < p.items.len()
            && p.items.len() <= 0x7fff_ffff) && s.commands.len() <= 0x7fff_ffff && s.models.len()
            <= 0x7fff_ffff && (s.history_store matches Some(store) ==> store.max_entries == 200),
{
}

/// Starting to submit a text, whatever it says: it is recorded, becomes the last prompt and is on
/// its way; the agent's input is cleared, and the submission of exactly that text is put off by 80
/// ms. Nothing else changes.
pub proof fn law_submitting(s: OverlayView, text: Seq<char>, banner: bool)
    ensures
        ({
            let (after, effects) = s.submitted(text, banner);
            let (recorded, written) = s.pushed(text);
            &&& after.history == recorded.history
            &&& after.last_sent == Some(text)
            &&& after.is_submitting
            &&& after.history_state is LiveDraft
            &&& after.draft_ticket as int == (s.draft_ticket + 1) % 0x1_0000_0000_0000_0000
            &&& differs_by_sending(s, after)
            &&& effects == written + seq![
                EffectView::Emit(
                    EventView::WriteRaw {
                        bytes: seq![
                            if banner {
                                0x15u8
                            } else {
                                0x03u8
                            },
                        ],
                    },
                ),
                EffectView::Notify,
                EffectView::SubmitAfter { delay_ms: 80, text },
            ]
        }),
{
}

/// Without a popover, and in one without a selection, there is nothing to complete and nothing
/// happens.
pub proof fn law_nothing_to_complete(s: OverlayView)
    ensures
        s.popover is None ==> s.completed() == (s, Seq::<EffectView>::empty()),
        s.popover matches Some(p) ==> !(0 <= p.selected < p.items.len()) ==> s.completed() == (
            s,
            Seq::<EffectView>::empty(),
        ),
{
}

} // verus!
