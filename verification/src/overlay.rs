//! The prompt overlay of a pane: its state, and what each event does to it.
//!
//! The overlay hosts an editor whose text is sent to the agent. It never touches the editor, the
//! terminal or the disk itself: each operation returns the effects that its host has to perform, in
//! order.

use crate::agent::AgentNames;
use crate::bytes::byte_lines;
use crate::hashing::hash_of;
use crate::history_store::{
    draft_in, file_view, is_appendable, law_appended_line_is_read_back, law_saved_draft_is_loaded,
    line_of, lines_of, newest, reads_as, stored, HistoryStore, StoreView,
};
use crate::popover::{
    law_moving_back_undoes, law_open_popover_has_selection, popover_for, popover_view,
    recomputed_popover, PopoverState, PopoverView,
};
use crate::screen::{AltScreen, ScreenView};
use crate::session::{session_on_screen, CliAgentSession};
use crate::slash_commands::{
    all_commands, builtin_models, entries, is_stable_sort, merged, models, CommandEntry,
    CommandView,
};
use crate::text::{is_blank, same, trim, views, CharClass};
use vstd::prelude::*;
use vstd::string::*;
use vstd::utf8::*;

verus! {

/// The scope of the overlay's key bindings.
pub const UI_NAME: &'static str = "ClaudePromptOverlay";

/// What marks the keymap context of the overlay's editor. The editor's own binding of Ctrl-G is off
/// where this is set, so that the overlay gets the keystroke.
pub const EDITOR_KEYMAP_FLAG: &'static str = "ClaudePromptOverlayEditor";

/// How many prompts the history keeps.
pub const HISTORY_MAX: usize = 200;

/// The delay between clearing the agent's input and sending the prompt. Without it the agent may get
/// the keystrokes too close together to reset its input before the prompt arrives.
pub const SUBMIT_PRECLEAR_DELAY_MS: u64 = 80;

/// How long the user's edits have to rest before the draft is saved, so that not every keystroke
/// reaches the disk.
pub const DRAFT_SAVE_DELAY_MS: u64 = 500;

/// The time between two looks at the alternate screen.
pub const RENDER_POLL_MS: u64 = 80;

/// Interrupts the agent, and clears its input.
pub const CTRL_C: u8 = 0x03;

/// Kills the line in the agent's input.
pub const CTRL_U: u8 = 0x15;

/// What the user asks of the overlay.
#[derive(Debug, Clone, Copy, PartialEq, Eq, Structural)]
pub enum ClaudePromptOverlayAction {
    /// Send the editor's text to the agent, as Enter does.
    Send,
    /// Ask the agent to interrupt the current run.
    Interrupt,
    /// Cycle the agent's permission mode.
    CycleMode,
    /// Hide the overlay, or show it again.
    ToggleHide,
    /// Move the keyboard focus to the editor.
    FocusEditor,
}

/// What the overlay asks of the terminal.
#[derive(Debug, PartialEq)]
pub enum ClaudePromptOverlayEvent {
    /// Write the text and a carriage return.
    Submit { text: String },
    /// Write the bytes as they are.
    WriteRaw { bytes: Vec<u8> },
    /// Move the keyboard focus from the overlay to the terminal.
    FocusTerminal,
}

/// The mathematical content of an event.
#[verifier::ext_equal]
pub enum EventView {
    Submit { text: Seq<char> },
    WriteRaw { bytes: Seq<u8> },
    FocusTerminal,
}

impl View for ClaudePromptOverlayEvent {
    type V = EventView;

    open spec fn view(&self) -> EventView {
        match self {
            ClaudePromptOverlayEvent::Submit { text } => EventView::Submit { text: text@ },
            ClaudePromptOverlayEvent::WriteRaw { bytes } => EventView::WriteRaw { bytes: bytes@ },
            ClaudePromptOverlayEvent::FocusTerminal => EventView::FocusTerminal,
        }
    }
}

/// Something that the overlay's host has to do.
#[derive(Debug, PartialEq)]
pub enum Effect {
    /// Hand an event to the terminal.
    Emit(ClaudePromptOverlayEvent),
    /// Draw the overlay anew.
    Notify,
    /// Move the keyboard focus to the editor.
    FocusEditor,
    /// Empty the editor and forget its edits.
    ClearBuffer,
    /// Put a text into the editor as an edit of the user, and the caret behind it.
    SetBuffer(String),
    /// Put a text into the editor as an edit of the system, and the caret behind it.
    ResetBuffer(String),
    /// Append a line to the history file.
    AppendHistory(String),
    /// Replace the contents of the history file.
    RewriteHistory(String),
    /// Replace the contents of the draft file by a draft.
    SaveDraft(String),
    /// Drop the draft file.
    ClearDraft,
    /// Call `draft_due` with the ticket after so many milliseconds.
    SaveDraftAfter { delay_ms: u64, ticket: u64 },
    /// Call `finish_submit` with the text after so many milliseconds.
    SubmitAfter { delay_ms: u64, text: String },
    /// Call `render_poll` after so many milliseconds.
    PollAfter { delay_ms: u64 },
}

/// The mathematical content of an effect.
#[verifier::ext_equal]
pub enum EffectView {
    Emit(EventView),
    Notify,
    FocusEditor,
    ClearBuffer,
    SetBuffer(Seq<char>),
    ResetBuffer(Seq<char>),
    AppendHistory(Seq<char>),
    RewriteHistory(Seq<char>),
    SaveDraft(Seq<char>),
    ClearDraft,
    SaveDraftAfter { delay_ms: u64, ticket: u64 },
    SubmitAfter { delay_ms: u64, text: Seq<char> },
    PollAfter { delay_ms: u64 },
}

impl View for Effect {
    type V = EffectView;

    open spec fn view(&self) -> EffectView {
        match self {
            Effect::Emit(event) => EffectView::Emit(event@),
            Effect::Notify => EffectView::Notify,
            Effect::FocusEditor => EffectView::FocusEditor,
            Effect::ClearBuffer => EffectView::ClearBuffer,
            Effect::SetBuffer(text) => EffectView::SetBuffer(text@),
            Effect::ResetBuffer(text) => EffectView::ResetBuffer(text@),
            Effect::AppendHistory(line) => EffectView::AppendHistory(line@),
            Effect::RewriteHistory(text) => EffectView::RewriteHistory(text@),
            Effect::SaveDraft(text) => EffectView::SaveDraft(text@),
            Effect::ClearDraft => EffectView::ClearDraft,
            Effect::SaveDraftAfter { delay_ms, ticket } => EffectView::SaveDraftAfter {
                delay_ms: *delay_ms,
                ticket: *ticket,
            },
            Effect::SubmitAfter { delay_ms, text } => EffectView::SubmitAfter {
                delay_ms: *delay_ms,
                text: text@,
            },
            Effect::PollAfter { delay_ms } => EffectView::PollAfter { delay_ms: *delay_ms },
        }
    }
}

/// The contents of a list of effects.
pub open spec fn effects(list: Seq<Effect>) -> Seq<EffectView> {
    list.map_values(|e: Effect| e@)
}

/// The effect of writing `bytes` to the terminal as they are.
pub open spec fn raw(bytes: Seq<u8>) -> EffectView {
    EffectView::Emit(EventView::WriteRaw { bytes })
}

/// What Shift+Tab sends, which cycles the agent's permission mode.
pub open spec fn cycle_mode_bytes() -> Seq<u8> {
    seq![0x1b, 0x5b, 0x5a]
}

/// Whether the editor shows the user's draft or a prompt of the history.
#[derive(Debug, PartialEq)]
pub enum HistoryState {
    LiveDraft,
    /// The editor shows the prompt at `idx`. `draft` is what the user had typed before.
    Browsing { idx: usize, draft: String },
}

/// The mathematical content of a `HistoryState`.
#[verifier::ext_equal]
pub enum HistoryView {
    LiveDraft,
    Browsing { idx: int, draft: Seq<char> },
}

impl View for HistoryState {
    type V = HistoryView;

    open spec fn view(&self) -> HistoryView {
        match self {
            HistoryState::LiveDraft => HistoryView::LiveDraft,
            HistoryState::Browsing { idx, draft } => HistoryView::Browsing {
                idx: *idx as int,
                draft: draft@,
            },
        }
    }
}

/// A key that the editor does not use itself.
#[derive(Debug, Clone, Copy, PartialEq, Eq, Structural)]
pub enum NavigationKey {
    ShiftTab,
    Tab,
    /// Up, with the caret in the first row.
    Up,
    /// Down, with the caret in the last row.
    Down,
    /// Any other key.
    Other,
}

/// Who edited the editor's text.
#[derive(Debug, Clone, Copy, PartialEq, Eq, Structural)]
pub enum EditOrigin {
    UserTyped,
    UserInitiated,
    /// Anyone else.
    System,
}

/// What the editor reports.
#[derive(Debug, Clone, Copy, PartialEq, Eq, Structural)]
pub enum EditorEvent {
    Enter,
    Escape,
    Navigate(NavigationKey),
    Edited(EditOrigin),
    /// Anything else.
    Other,
}

/// The prompt overlay of a pane.
#[derive(Debug)]
pub struct ClaudePromptOverlay {
    /// The hash of the alternate screen when it was last looked at. The overlay is drawn anew only
    /// when the hash changes.
    pub last_alt_hash: u64,
    /// The prompts that were sent, the newest last.
    pub history: Vec<String>,
    pub history_state: HistoryState,
    /// Whether the overlay is collapsed to a pill, so that the terminal behind it can be seen.
    pub is_hidden: bool,
    pub popover: Option<PopoverState>,
    /// The workspace's history on disk, once the workspace is known.
    pub history_store: Option<HistoryStore>,
    /// Whether the workspace is known. The history is then loaded, and not again.
    pub history_loaded: bool,
    /// The slash commands, as they were when the overlay was made.
    pub commands: Vec<CommandEntry>,
    pub models: Vec<CommandEntry>,
    /// The prompt that was sent last. Escape brings it back to an empty editor.
    pub last_sent: Option<String>,
    /// Whether a prompt is on its way: the agent's input is cleared and the prompt not yet sent.
    pub is_submitting: bool,
    /// The ticket of the newest edit. A save that is due for an older one is dropped.
    pub draft_ticket: u64,
}

/// The mathematical content of an overlay.
#[verifier::ext_equal]
pub struct OverlayView {
    pub last_alt_hash: u64,
    pub history: Seq<Seq<char>>,
    pub history_state: HistoryView,
    pub is_hidden: bool,
    pub popover: Option<PopoverView>,
    pub history_store: Option<StoreView>,
    pub history_loaded: bool,
    pub commands: Seq<CommandView>,
    pub models: Seq<CommandView>,
    pub last_sent: Option<Seq<char>>,
    pub is_submitting: bool,
    pub draft_ticket: u64,
}

impl View for ClaudePromptOverlay {
    type V = OverlayView;

    open spec fn view(&self) -> OverlayView {
        OverlayView {
            last_alt_hash: self.last_alt_hash,
            history: views(self.history@),
            history_state: self.history_state@,
            is_hidden: self.is_hidden,
            popover: popover_view(self.popover),
            history_store: match self.history_store {
                Some(store) => Some(store@),
                None => None,
            },
            history_loaded: self.history_loaded,
            commands: entries(self.commands@),
            models: entries(self.models@),
            last_sent: match self.last_sent {
                Some(text) => Some(text@),
                None => None,
            },
            is_submitting: self.is_submitting,
            draft_ticket: self.draft_ticket,
        }
    }
}

/// The ticket that follows `ticket`.
pub open spec fn next_ticket(ticket: u64) -> u64 {
    if ticket == u64::MAX {
        0
    } else {
        (ticket + 1) as u64
    }
}

/// An overlay after an operation, and the effects of the operation.
pub type Step = (OverlayView, Seq<EffectView>);

/// The contents of the history file after `effects`, where it held `contents` before.
pub open spec fn file_after(contents: Seq<u8>, effects: Seq<EffectView>) -> Seq<u8>
    decreases effects.len(),
{
    if effects.len() == 0 {
        contents
    } else {
        let before = file_after(contents, effects.drop_last());
        match effects.last() {
            EffectView::AppendHistory(line) => before + encode_utf8(line),
            EffectView::RewriteHistory(text) => encode_utf8(text),
            _ => before,
        }
    }
}

/// The contents of the draft file after `effects`, where it held `contents` before; `None` where
/// there is no such file.
pub open spec fn draft_after(contents: Option<Seq<u8>>, effects: Seq<EffectView>) -> Option<
    Seq<u8>,
>
    decreases effects.len(),
{
    if effects.len() == 0 {
        contents
    } else {
        match effects.last() {
            EffectView::SaveDraft(text) => Some(encode_utf8(text)),
            EffectView::ClearDraft => None,
            _ => draft_after(contents, effects.drop_last()),
        }
    }
}

/// Whether a history file with these contents is loaded as `history`, and can be appended to.
pub open spec fn mirrors(history: Seq<Seq<char>>, contents: Seq<u8>) -> bool {
    is_appendable(contents) && newest(stored(contents), HISTORY_MAX as nat) == history
}

/// Whether a step keeps the history file in line with the history: where the file was loaded as the
/// history before, it is loaded as the new history after the step's effects.
pub open spec fn keeps_mirror(before: OverlayView, after: Step) -> bool {
    before.history_store is Some ==> forall|contents: Seq<u8>| #[trigger]
        mirrors(before.history, contents) ==> mirrors(
            after.0.history,
            file_after(contents, after.1),
        )
}

impl OverlayView {
    /// What holds of every overlay: the history is bounded, and so is a position in it; an open
    /// popover has a selection.
    pub open spec fn is_valid(self) -> bool {
        &&& self.history.len() <= HISTORY_MAX
        &&& self.history_state matches HistoryView::Browsing { idx, .. } ==> 0 <= idx < HISTORY_MAX
        &&& self.popover matches Some(p) ==> p.is_valid() && p.items.len() <= i32::MAX
        &&& self.commands.len() <= i32::MAX
        &&& self.models.len() <= i32::MAX
        &&& self.history_store matches Some(store) ==> store.max_entries == HISTORY_MAX
    }

    /// Hiding the overlay, or showing it again.
    pub open spec fn toggled(self) -> Step {
        (OverlayView { is_hidden: !self.is_hidden, ..self }, seq![EffectView::Notify])
    }

    /// Opening, refreshing or closing the popover for the prompt `text`.
    pub open spec fn recomputed(self, text: Seq<char>) -> Step {
        (
            OverlayView {
                popover: popover_for(text, self.popover, self.commands, self.models),
                ..self
            },
            seq![EffectView::Notify],
        )
    }

    /// Inserting the popover's selection into the prompt.
    pub open spec fn completed(self) -> Step {
        let text = match self.popover {
            Some(p) => p.completion(),
            None => None,
        };
        match text {
            Some(t) => (
                self.recomputed(t).0,
                seq![EffectView::SetBuffer(t)] + self.recomputed(t).1,
            ),
            None => (self, seq![]),
        }
    }

    /// Adding a prompt to the history: one that repeats the newest is skipped, and the oldest is
    /// dropped where there would be too many. The history file follows.
    pub open spec fn pushed(self, text: Seq<char>) -> Step {
        if self.history.len() > 0 && self.history.last() == text {
            (self, seq![])
        } else {
            let all = self.history.push(text);
            let kept = newest(all, HISTORY_MAX as nat);
            let appends = if self.history_store is Some {
                seq![EffectView::AppendHistory(line_of(text))]
            } else {
                seq![]
            };
            let rewrites = if self.history_store is Some && all.len() > HISTORY_MAX {
                seq![EffectView::RewriteHistory(lines_of(kept))]
            } else {
                seq![]
            };
            (OverlayView { history: kept, ..self }, appends + rewrites)
        }
    }

    /// Starting to send the prompt `text`; `banner` tells whether the agent's exit banner is up. The
    /// agent's input is cleared, so that nothing that was typed into it precedes the prompt. Ctrl-C
    /// clears it, but would confirm the exit while the banner is up; Ctrl-U then clears it and
    /// dismisses the banner. A save of the draft that is still due is dropped.
    pub open spec fn submitted(self, text: Seq<char>, banner: bool) -> Step {
        let pushed = self.pushed(text);
        (
            OverlayView {
                last_sent: Some(text),
                history_state: HistoryView::LiveDraft,
                is_submitting: true,
                draft_ticket: next_ticket(self.draft_ticket),
                ..pushed.0
            },
            pushed.1 + seq![
                raw(
                    seq![
                        if banner {
                            CTRL_U
                        } else {
                            CTRL_C
                        },
                    ],
                ),
                EffectView::Notify,
                EffectView::SubmitAfter { delay_ms: SUBMIT_PRECLEAR_DELAY_MS, text },
            ],
        )
    }

    /// Whether sending the editor's text `buffer` sends a prompt: none is on its way, and the text is
    /// not blank.
    pub open spec fn sends(self, buffer: Seq<char>) -> bool {
        !self.is_submitting && !is_blank(buffer)
    }

    /// Sending the editor's text `buffer`.
    pub open spec fn sent(self, buffer: Seq<char>, banner: bool) -> Step {
        if self.is_submitting {
            (self, seq![])
        } else if is_blank(buffer) {
            (self, seq![EffectView::ClearBuffer])
        } else {
            (
                self.submitted(buffer, banner).0,
                seq![EffectView::ClearBuffer] + self.submitted(buffer, banner).1,
            )
        }
    }

    /// Sending a prompt whose time has come. Its draft is dropped, so that a restart does not bring
    /// back a prompt that was sent.
    pub open spec fn finished(self, text: Seq<char>) -> Step {
        let submit = seq![EffectView::Emit(EventView::Submit { text })];
        let drop = if self.history_store is Some {
            seq![EffectView::ClearDraft]
        } else {
            seq![]
        };
        (OverlayView { is_submitting: false, ..self }, submit + drop + seq![EffectView::Notify])
    }

    /// An edit of the user that makes `buffer` the editor's text: it is the live draft, its popover is
    /// opened, refreshed or closed, and its save is put off.
    pub open spec fn edited(self, buffer: Seq<char>) -> Step {
        let ticket = next_ticket(self.draft_ticket);
        let shown = (OverlayView {
            history_state: HistoryView::LiveDraft,
            draft_ticket: ticket,
            ..self
        }).recomputed(buffer);
        (
            shown.0,
            shown.1.push(
                EffectView::SaveDraftAfter { delay_ms: DRAFT_SAVE_DELAY_MS, ticket },
            ),
        )
    }

    /// The draft, where the editor's text is `buffer`: what the user typed, even while a prompt of the
    /// history is shown.
    pub open spec fn draft(self, buffer: Seq<char>) -> Seq<char> {
        match self.history_state {
            HistoryView::LiveDraft => buffer,
            HistoryView::Browsing { draft, .. } => draft,
        }
    }

    /// What is due for the edit with the ticket `ticket`: the draft is saved, if the user has not
    /// edited it since and the workspace is known.
    pub open spec fn saves_when_due(self, ticket: u64, buffer: Seq<char>) -> Seq<EffectView> {
        if ticket == self.draft_ticket && self.history_store is Some {
            seq![EffectView::SaveDraft(self.draft(buffer))]
        } else {
            seq![]
        }
    }

    /// Taking the workspace's history `history` and its saved draft `draft`. The draft goes into the
    /// editor, unless the user has already begun another.
    pub open spec fn installed(
        self,
        store: StoreView,
        history: Seq<Seq<char>>,
        draft: Option<Seq<char>>,
        buffer: Seq<char>,
    ) -> Step {
        (
            OverlayView { history, history_store: Some(store), history_loaded: true, ..self },
            match draft {
                Some(text) if self.history_state is LiveDraft && is_blank(buffer) => seq![
                    EffectView::ResetBuffer(text),
                ],
                _ => seq![],
            },
        )
    }

    /// Escape without a popover: the agent is interrupted, and an empty editor gets the prompt back
    /// that was sent last.
    pub open spec fn escaped(self, buffer: Seq<char>) -> Step {
        match self.last_sent {
            Some(prev) if is_blank(buffer) => (
                OverlayView { history_state: HistoryView::LiveDraft, ..self },
                seq![raw(seq![CTRL_C]), EffectView::ResetBuffer(prev)],
            ),
            _ => (self, seq![raw(seq![CTRL_C])]),
        }
    }

    /// The position in the history to which a step back leads.
    pub open spec fn position_back(self) -> Option<int> {
        if self.history.len() == 0 {
            None
        } else {
            match self.history_state {
                HistoryView::LiveDraft => Some(self.history.len() - 1),
                HistoryView::Browsing { idx, .. } => if idx > 0 {
                    Some(idx - 1)
                } else {
                    None
                },
            }
        }
    }

    /// Whether a step back leads to a prompt that is there. It does, unless the history has become
    /// shorter while the user was in it.
    pub open spec fn can_go_back(self) -> bool {
        match self.position_back() {
            Some(idx) => idx < self.history.len(),
            None => true,
        }
    }

    /// A step back in the history. The first one keeps what the editor holds as the draft.
    pub open spec fn gone_back(self, buffer: Seq<char>) -> Step {
        match self.position_back() {
            Some(idx) => {
                let draft = match self.history_state {
                    HistoryView::LiveDraft => buffer,
                    HistoryView::Browsing { draft, .. } => draft,
                };
                (
                    OverlayView { history_state: HistoryView::Browsing { idx, draft }, ..self },
                    seq![EffectView::ResetBuffer(self.history[idx])],
                )
            },
            None => (self, seq![]),
        }
    }

    /// A step forward in the history. Past the newest prompt the draft comes back.
    pub open spec fn gone_forward(self) -> Step {
        match self.history_state {
            HistoryView::LiveDraft => (self, seq![]),
            HistoryView::Browsing { idx, draft } => if idx + 1 < self.history.len() {
                (
                    OverlayView {
                        history_state: HistoryView::Browsing { idx: idx + 1, draft },
                        ..self
                    },
                    seq![EffectView::ResetBuffer(self.history[idx + 1])],
                )
            } else {
                (
                    OverlayView { history_state: HistoryView::LiveDraft, ..self },
                    seq![EffectView::ResetBuffer(draft)],
                )
            },
        }
    }

    /// Moving the popover's selection.
    pub open spec fn reselected(self, delta: int) -> Step {
        (
            OverlayView {
                popover: match self.popover {
                    Some(p) => Some(p.moved(delta)),
                    None => None,
                },
                ..self
            },
            seq![EffectView::Notify],
        )
    }

    /// What an event of the editor does; `buffer` is the editor's text.
    pub open spec fn after_event(
        self,
        event: EditorEvent,
        buffer: Seq<char>,
        screen: ScreenView,
    ) -> Step {
        match event {
            EditorEvent::Enter => if self.popover is Some {
                self.completed()
            } else {
                self.sent(buffer, screen.shows_exit_banner())
            },
            EditorEvent::Escape => if self.popover is Some {
                (OverlayView { popover: None, ..self }, seq![EffectView::Notify])
            } else {
                self.escaped(buffer)
            },
            EditorEvent::Navigate(NavigationKey::ShiftTab) => (
                self,
                seq![raw(cycle_mode_bytes())],
            ),
            EditorEvent::Navigate(NavigationKey::Tab) => if self.popover is Some {
                self.completed()
            } else {
                (self, seq![EffectView::Emit(EventView::FocusTerminal)])
            },
            EditorEvent::Navigate(NavigationKey::Up) => if self.popover is Some {
                self.reselected(-1)
            } else {
                self.gone_back(buffer)
            },
            EditorEvent::Navigate(NavigationKey::Down) => if self.popover is Some {
                self.reselected(1)
            } else {
                self.gone_forward()
            },
            EditorEvent::Edited(EditOrigin::UserTyped)
            | EditorEvent::Edited(EditOrigin::UserInitiated) => self.edited(buffer),
            _ => (self, seq![]),
        }
    }

    /// Whether an event of the editor can be handled: a step back needs a prompt to go to.
    pub open spec fn accepts_event(self, event: EditorEvent) -> bool {
        self.popover is None && event == EditorEvent::Navigate(NavigationKey::Up)
            ==> self.can_go_back()
    }

    /// What an action does; `buffer` is the editor's text.
    pub open spec fn after_action(
        self,
        action: ClaudePromptOverlayAction,
        buffer: Seq<char>,
        screen: ScreenView,
    ) -> Step {
        match action {
            ClaudePromptOverlayAction::Send => self.sent(buffer, screen.shows_exit_banner()),
            ClaudePromptOverlayAction::Interrupt => (self, seq![raw(seq![CTRL_C])]),
            ClaudePromptOverlayAction::CycleMode => (self, seq![raw(cycle_mode_bytes())]),
            ClaudePromptOverlayAction::ToggleHide => self.toggled(),
            ClaudePromptOverlayAction::FocusEditor => (self, seq![EffectView::FocusEditor]),
        }
    }

    /// Whether a store is to be loaded: the history is not loaded, the workspace is known, and the
    /// platform has a directory for local data.
    pub open spec fn wants_store(self, knows_workspace: bool, has_data_dir: bool) -> bool {
        !self.history_loaded && knows_workspace && has_data_dir
    }

    /// Looking for the workspace's store. Without a directory for local data there is nothing to
    /// load, now or later.
    pub open spec fn looked_for_store(
        self,
        knows_workspace: bool,
        has_data_dir: bool,
    ) -> OverlayView {
        if knows_workspace && !has_data_dir {
            OverlayView { history_loaded: true, ..self }
        } else {
            self
        }
    }

    /// Looking at the alternate screen.
    pub open spec fn looked(self, screen: ScreenView) -> Step {
        let hash = screen.hash(self.last_alt_hash);
        if hash != self.last_alt_hash {
            (OverlayView { last_alt_hash: hash, ..self }, seq![EffectView::Notify])
        } else {
            (self, seq![])
        }
    }
}

proof fn lemma_file_after_concat(contents: Seq<u8>, a: Seq<EffectView>, b: Seq<EffectView>)
    ensures
        file_after(contents, a + b) == file_after(file_after(contents, a), b),
    decreases b.len(),
{
    if b.len() == 0 {
        assert(a + b =~= a);
    } else {
        lemma_file_after_concat(contents, a, b.drop_last());
        assert((a + b).drop_last() =~= a + b.drop_last());
        assert((a + b).last() == b.last());
    }
}

/// Whether no effect of the list touches the history file.
pub open spec fn leaves_file(list: Seq<EffectView>) -> bool {
    forall|i: int|
        0 <= i < list.len() ==> !((#[trigger] list[i]) is AppendHistory) && !(list[i]
            is RewriteHistory)
}

proof fn lemma_file_stays(contents: Seq<u8>, list: Seq<EffectView>)
    requires
        leaves_file(list),
    ensures
        file_after(contents, list) == contents,
    decreases list.len(),
{
    if list.len() > 0 {
        let front = list.drop_last();
        assert forall|i: int| 0 <= i < front.len() implies !((#[trigger] front[i])
            is AppendHistory) && !(front[i] is RewriteHistory) by {
            assert(front[i] == list[i]);
        }
        lemma_file_stays(contents, front);
        assert(list.last() == list[list.len() - 1]);
    }
}

proof fn lemma_quiet_step_keeps_mirror(before: OverlayView, after: Step)
    requires
        leaves_file(after.1),
        after.0.history == before.history,
    ensures
        keeps_mirror(before, after),
{
    assert forall|contents: Seq<u8>| #[trigger] mirrors(before.history, contents) implies mirrors(
        after.0.history,
        file_after(contents, after.1),
    ) by {
        lemma_file_stays(contents, after.1);
    }
}

proof fn lemma_newest_push<T>(list: Seq<T>, x: T, max: nat)
    requires
        max > 0,
    ensures
        newest(newest(list, max).push(x), max) == newest(list.push(x), max),
{
    assert(newest(newest(list, max).push(x), max) =~= newest(list.push(x), max));
}

proof fn lemma_pushed_keeps_mirror(before: OverlayView, text: Seq<char>)
    requires
        before.is_valid(),
        before.history_store is Some ==> reads_as(line_of(text), text),
        before.history_store is Some ==> {
            let kept = newest(before.history.push(text), HISTORY_MAX as nat);
            kept.len() == before.history.len() + 1 || stored(encode_utf8(lines_of(kept))) == kept
                && is_appendable(encode_utf8(lines_of(kept)))
        },
    ensures
        keeps_mirror(before, before.pushed(text)),
{
    let after = before.pushed(text);
    let all = before.history.push(text);
    let kept = newest(all, HISTORY_MAX as nat);
    if before.history_store is Some {
        assert forall|contents: Seq<u8>| #[trigger] mirrors(before.history, contents) implies mirrors(
            after.0.history,
            file_after(contents, after.1),
        ) by {
            if before.history.len() > 0 && before.history.last() == text {
                lemma_file_stays(contents, after.1);
            } else {
                let line = line_of(text);
                let first = seq![EffectView::AppendHistory(line)];
                law_appended_line_is_read_back(contents, line, text);
                lemma_newest_push(stored(contents), text, HISTORY_MAX as nat);
                assert(first.drop_last() =~= seq![]);
                reveal_with_fuel(file_after, 2);
                assert(file_after(contents, first) == contents + encode_utf8(line));
                if all.len() > HISTORY_MAX {
                    let second = seq![EffectView::RewriteHistory(lines_of(kept))];
                    lemma_file_after_concat(contents, first, second);
                    assert(file_after(contents, after.1) == encode_utf8(lines_of(kept)));
                } else {
                    assert(after.1 =~= first);
                }
            }
        }
    }
}

impl ClaudePromptOverlay {
    /// What holds of every overlay.
    pub open spec fn wf(self) -> bool {
        self@.is_valid()
    }

    /// An overlay in the state it starts in, for the commands that `user` and `plugin` define.
    pub fn new(agent: &AgentNames, user: Vec<CommandEntry>, plugin: Vec<CommandEntry>) -> (r: Self)
        requires
            user@.len() + plugin@.len() <= i32::MAX - 30,
        ensures
            r.wf(),
            is_stable_sort(r@.commands, merged(agent@, entries(user@) + entries(plugin@))),
            r@ == (OverlayView {
                last_alt_hash: 0,
                history: seq![],
                history_state: HistoryView::LiveDraft,
                is_hidden: false,
                popover: None,
                history_store: None,
                history_loaded: false,
                commands: r@.commands,
                models: models(agent@),
                last_sent: None,
                is_submitting: false,
                draft_ticket: 0,
            }),
    {
        let r = ClaudePromptOverlay {
            last_alt_hash: 0,
            history: Vec::new(),
            history_state: HistoryState::LiveDraft,
            is_hidden: false,
            popover: None,
            history_store: None,
            history_loaded: false,
            commands: all_commands(agent, user, plugin),
            models: builtin_models(agent),
            last_sent: None,
            is_submitting: false,
            draft_ticket: 0,
        };
        assert(r@.history =~= seq![]);
        assert(r@.commands.len() == r.commands@.len());
        r
    }

    /// Hides the overlay, or shows it again.
    pub fn toggle_hidden(&mut self) -> (r: Vec<Effect>)
        requires
            old(self).wf(),
        ensures
            final(self).wf(),
            (final(self)@, effects(r@)) == old(self)@.toggled(),
            keeps_mirror(old(self)@, (final(self)@, effects(r@))),
    {
        self.is_hidden = !self.is_hidden;
        let out = one(Effect::Notify);
        proof {
            lemma_quiet_step_keeps_mirror(old(self)@, (self@, effects(out@)));
        }
        out
    }

    /// Opens, refreshes or closes the popover for the editor's text.
    pub fn recompute_popover(&mut self, text: &str) -> (r: Vec<Effect>)
        requires
            old(self).wf(),
        ensures
            final(self).wf(),
            (final(self)@, effects(r@)) == old(self)@.recomputed(text@),
            keeps_mirror(old(self)@, (final(self)@, effects(r@))),
    {
        let popover = recomputed_popover(text, &self.popover, &self.commands, &self.models);
        proof {
            assert(self@.commands.len() == self.commands@.len());
            assert(self@.models.len() == self.models@.len());
        }
        self.popover = popover;
        let out = one(Effect::Notify);
        proof {
            lemma_quiet_step_keeps_mirror(old(self)@, (self@, effects(out@)));
        }
        out
    }

    /// Inserts the popover's selection into the editor.
    pub fn popover_complete(&mut self) -> (r: Vec<Effect>)
        requires
            old(self).wf(),
        ensures
            final(self).wf(),
            (final(self)@, effects(r@)) == old(self)@.completed(),
            keeps_mirror(old(self)@, (final(self)@, effects(r@))),
    {
        let text = match &self.popover {
            Some(popover) => popover.completed_text(),
            None => None,
        };
        let mut out: Vec<Effect> = Vec::new();
        match text {
            Some(text) => {
                let mut redraw = self.recompute_popover(text.as_str());
                let ghost drawn = effects(redraw@);
                out.push(Effect::SetBuffer(text));
                out.append(&mut redraw);
                assert(effects(out@) =~= seq![EffectView::SetBuffer(text@)] + drawn);
            },
            None => {
                assert(effects(out@) =~= seq![]);
            },
        }
        proof {
            lemma_quiet_step_keeps_mirror(old(self)@, (self@, effects(out@)));
        }
        out
    }

    /// Adds a prompt to the history and its file.
    pub fn push_history(&mut self, text: &str) -> (r: Vec<Effect>)
        requires
            old(self).wf(),
        ensures
            final(self).wf(),
            (final(self)@, effects(r@)) == old(self)@.pushed(text@),
            keeps_mirror(old(self)@, (final(self)@, effects(r@))),
    {
        let ghost before = self@;
        let ghost all = before.history.push(text@);
        let mut out: Vec<Effect> = Vec::new();
        assert(effects(out@) =~= seq![]);
        let len: usize = self.history.len();
        assert(before.history.len() == len);
        if len > 0 {
            assert(before.history.last() == self.history@[len - 1]@);
            if same(self.history[len - 1].as_str(), text) {
                proof {
                    lemma_quiet_step_keeps_mirror(before, (self@, effects(out@)));
                }
                return out;
            }
        }
        match &self.history_store {
            Some(store) => {
                let line = store.append(text);
                out.push(Effect::AppendHistory(line));
                assert(effects(out@) =~= seq![EffectView::AppendHistory(line_of(text@))]);
            },
            None => {},
        }
        let ghost appended = effects(out@);
        self.history.push(text.to_owned());
        assert(views(self.history@) =~= all);
        if self.history.len() > HISTORY_MAX {
            let drop: usize = self.history.len() - HISTORY_MAX;
            let kept = self.history.split_off(drop);
            assert(views(kept@) =~= newest(all, HISTORY_MAX as nat));
            self.history = kept;
            match &self.history_store {
                Some(store) => {
                    let text = store.rewrite(&self.history);
                    out.push(Effect::RewriteHistory(text));
                    assert(effects(out@) =~= appended + seq![
                        EffectView::RewriteHistory(lines_of(self@.history)),
                    ]);
                },
                None => {},
            }
        }
        proof {
            assert(self@.history == newest(all, HISTORY_MAX as nat));
            assert(effects(out@) =~= before.pushed(text@).1);
            lemma_pushed_keeps_mirror(before, text@);
        }
        out
    }

    /// Starts to send the prompt `text`; `banner` tells whether the agent's exit banner is up.
    pub fn submit(&mut self, text: &str, banner: bool) -> (r: Vec<Effect>)
        requires
            old(self).wf(),
        ensures
            final(self).wf(),
            (final(self)@, effects(r@)) == old(self)@.submitted(text@, banner),
            keeps_mirror(old(self)@, (final(self)@, effects(r@))),
    {
        let mut out = self.push_history(text);
        let ghost pushed = effects(out@);
        let ghost state = self@;
        self.last_sent = Some(text.to_owned());
        self.history_state = HistoryState::LiveDraft;
        let clear_byte: u8 = if banner {
            CTRL_U
        } else {
            CTRL_C
        };
        let mut bytes: Vec<u8> = Vec::new();
        bytes.push(clear_byte);
        assert(bytes@ =~= seq![clear_byte]);
        out.push(Effect::Emit(ClaudePromptOverlayEvent::WriteRaw { bytes }));
        self.is_submitting = true;
        self.draft_ticket = ticket_after(self.draft_ticket);
        out.push(Effect::Notify);
        out.push(
            Effect::SubmitAfter { delay_ms: SUBMIT_PRECLEAR_DELAY_MS, text: text.to_owned() },
        );
        proof {
            let rest = seq![
                raw(seq![clear_byte]),
                EffectView::Notify,
                EffectView::SubmitAfter { delay_ms: SUBMIT_PRECLEAR_DELAY_MS, text: text@ },
            ];
            assert(effects(out@) =~= pushed + rest);
            assert forall|contents: Seq<u8>| #[trigger]
                mirrors(old(self)@.history, contents) && old(self)@.history_store is Some implies mirrors(
                self@.history,
                file_after(contents, pushed + rest),
            ) by {
                lemma_file_after_concat(contents, pushed, rest);
                lemma_file_stays(file_after(contents, pushed), rest);
                assert(mirrors(state.history, file_after(contents, pushed)));
            }
        }
        out
    }

    /// Sends the editor's text `buffer`. A prompt that is on its way blocks it, and blank text is
    /// dropped.
    pub fn handle_send(&mut self, buffer: &str, screen: &AltScreen) -> (r: Vec<Effect>)
        requires
            old(self).wf(),
        ensures
            final(self).wf(),
            (final(self)@, effects(r@)) == old(self)@.sent(buffer@, screen@.shows_exit_banner()),
            keeps_mirror(old(self)@, (final(self)@, effects(r@))),
    {
        let mut out: Vec<Effect> = Vec::new();
        assert(effects(out@) =~= seq![]);
        if self.is_submitting {
            proof {
                lemma_quiet_step_keeps_mirror(old(self)@, (self@, effects(out@)));
            }
            return out;
        }
        out.push(Effect::ClearBuffer);
        let ghost first = seq![EffectView::ClearBuffer];
        assert(effects(out@) =~= first);
        if trim(buffer, CharClass::White).is_empty() {
            proof {
                lemma_quiet_step_keeps_mirror(old(self)@, (self@, effects(out@)));
            }
            return out;
        }
        let banner = screen.detect_exit_banner();
        let mut rest = self.submit(buffer, banner);
        let ghost submitted = effects(rest@);
        out.append(&mut rest);
        proof {
            assert(effects(out@) =~= first + submitted);
            assert forall|contents: Seq<u8>| #[trigger]
                mirrors(old(self)@.history, contents) && old(self)@.history_store is Some implies mirrors(
                self@.history,
                file_after(contents, first + submitted),
            ) by {
                lemma_file_after_concat(contents, first, submitted);
                lemma_file_stays(contents, first);
            }
        }
        out
    }

    /// Sends a prompt, `SUBMIT_PRECLEAR_DELAY_MS` after the agent's input was cleared for it, and
    /// drops its draft.
    pub fn finish_submit(&mut self, text: String) -> (r: Vec<Effect>)
        requires
            old(self).wf(),
        ensures
            final(self).wf(),
            (final(self)@, effects(r@)) == old(self)@.finished(text@),
            keeps_mirror(old(self)@, (final(self)@, effects(r@))),
    {
        self.is_submitting = false;
        let mut out = one(Effect::Emit(ClaudePromptOverlayEvent::Submit { text }));
        if self.history_store.is_some() {
            out.push(Effect::ClearDraft);
        }
        out.push(Effect::Notify);
        proof {
            assert(effects(out@) =~= old(self)@.finished(text@).1);
            lemma_quiet_step_keeps_mirror(old(self)@, (self@, effects(out@)));
        }
        out
    }

    /// Escape without a popover: interrupts the agent, and brings the prompt that was sent last back
    /// to an empty editor.
    pub fn handle_escape(&mut self, buffer: &str) -> (r: Vec<Effect>)
        requires
            old(self).wf(),
        ensures
            final(self).wf(),
            (final(self)@, effects(r@)) == old(self)@.escaped(buffer@),
            keeps_mirror(old(self)@, (final(self)@, effects(r@))),
    {
        let mut out = one(interrupt());
        if trim(buffer, CharClass::White).is_empty() {
            match &self.last_sent {
                Some(prev) => {
                    out.push(Effect::ResetBuffer(prev.clone()));
                    self.history_state = HistoryState::LiveDraft;
                },
                None => {},
            }
        }
        proof {
            assert(effects(out@) =~= old(self)@.escaped(buffer@).1);
            lemma_quiet_step_keeps_mirror(old(self)@, (self@, effects(out@)));
        }
        out
    }

    /// Whether a step back in the history leads to a prompt that is there.
    pub fn can_go_back(&self) -> (r: bool)
        requires
            self.wf(),
        ensures
            r == self@.can_go_back(),
    {
        assert(self@.history.len() == self.history@.len());
        match &self.history_state {
            HistoryState::LiveDraft => true,
            HistoryState::Browsing { idx, .. } => self.history.len() == 0 || *idx == 0 || *idx - 1
                < self.history.len(),
        }
    }

    /// A step back in the history.
    pub fn history_prev(&mut self, buffer: &str) -> (r: Vec<Effect>)
        requires
            old(self).wf(),
            old(self)@.can_go_back(),
        ensures
            final(self).wf(),
            (final(self)@, effects(r@)) == old(self)@.gone_back(buffer@),
            keeps_mirror(old(self)@, (final(self)@, effects(r@))),
    {
        let mut out: Vec<Effect> = Vec::new();
        assert(effects(out@) =~= seq![]);
        assert(self@.history.len() == self.history@.len());
        proof {
            lemma_quiet_step_keeps_mirror(self@, (self@, effects(out@)));
        }
        if self.history.len() == 0 {
            return out;
        }
        let (idx, draft): (usize, String) = match &self.history_state {
            HistoryState::LiveDraft => (self.history.len() - 1, buffer.to_owned()),
            HistoryState::Browsing { idx, draft } => {
                if *idx == 0 {
                    return out;
                }
                (*idx - 1, draft.clone())
            },
        };
        out.push(Effect::ResetBuffer(self.history[idx].clone()));
        self.history_state = HistoryState::Browsing { idx, draft };
        proof {
            assert(effects(out@) =~= old(self)@.gone_back(buffer@).1);
            lemma_quiet_step_keeps_mirror(old(self)@, (self@, effects(out@)));
        }
        out
    }

    /// A step forward in the history.
    pub fn history_next(&mut self) -> (r: Vec<Effect>)
        requires
            old(self).wf(),
        ensures
            final(self).wf(),
            (final(self)@, effects(r@)) == old(self)@.gone_forward(),
            keeps_mirror(old(self)@, (final(self)@, effects(r@))),
    {
        let mut out: Vec<Effect> = Vec::new();
        assert(effects(out@) =~= seq![]);
        assert(self@.history.len() == self.history@.len());
        proof {
            lemma_quiet_step_keeps_mirror(self@, (self@, effects(out@)));
        }
        let (idx, draft): (usize, String) = match &self.history_state {
            HistoryState::LiveDraft => {
                return out;
            },
            HistoryState::Browsing { idx, draft } => (*idx, draft.clone()),
        };
        let next: usize = idx + 1;
        if next < self.history.len() {
            out.push(Effect::ResetBuffer(self.history[next].clone()));
            self.history_state = HistoryState::Browsing { idx: next, draft };
        } else {
            out.push(Effect::ResetBuffer(draft));
            self.history_state = HistoryState::LiveDraft;
        }
        proof {
            assert(effects(out@) =~= old(self)@.gone_forward().1);
            lemma_quiet_step_keeps_mirror(old(self)@, (self@, effects(out@)));
        }
        out
    }
}

impl ClaudePromptOverlay {
    /// Whether an event of the editor can be handled.
    pub fn accepts_event(&self, event: EditorEvent) -> (r: bool)
        requires
            self.wf(),
        ensures
            r == self@.accepts_event(event),
    {
        self.popover.is_some() || event != EditorEvent::Navigate(NavigationKey::Up)
            || self.can_go_back()
    }

    /// An edit of the user, which makes `buffer` the editor's text.
    fn handle_edit(&mut self, buffer: &str) -> (r: Vec<Effect>)
        requires
            old(self).wf(),
        ensures
            final(self).wf(),
            (final(self)@, effects(r@)) == old(self)@.edited(buffer@),
            keeps_mirror(old(self)@, (final(self)@, effects(r@))),
    {
        let ticket: u64 = ticket_after(self.draft_ticket);
        self.history_state = HistoryState::LiveDraft;
        self.draft_ticket = ticket;
        let mut out = self.recompute_popover(buffer);
        let ghost shown = effects(out@);
        out.push(Effect::SaveDraftAfter { delay_ms: DRAFT_SAVE_DELAY_MS, ticket });
        proof {
            assert(effects(out@) =~= shown.push(
                EffectView::SaveDraftAfter { delay_ms: DRAFT_SAVE_DELAY_MS, ticket },
            ));
            lemma_quiet_step_keeps_mirror(old(self)@, (self@, effects(out@)));
        }
        out
    }

    /// Saves the draft, `DRAFT_SAVE_DELAY_MS` after the edit with the ticket `ticket`, if that was the
    /// newest. `buffer` is the editor's text.
    pub fn draft_due(&self, ticket: u64, buffer: &str) -> (r: Vec<Effect>)
        ensures
            effects(r@) == self@.saves_when_due(ticket, buffer@),
            keeps_mirror(self@, (self@, effects(r@))),
    {
        let mut out: Vec<Effect> = Vec::new();
        if ticket == self.draft_ticket && self.history_store.is_some() {
            match &self.history_state {
                HistoryState::LiveDraft => {
                    out.push(Effect::SaveDraft(buffer.to_owned()));
                },
                HistoryState::Browsing { draft, .. } => {
                    out.push(Effect::SaveDraft(draft.clone()));
                },
            }
        }
        proof {
            assert(effects(out@) =~= self@.saves_when_due(ticket, buffer@));
            lemma_quiet_step_keeps_mirror(self@, (self@, effects(out@)));
        }
        out
    }

    /// Moves the selection of an open popover.
    fn move_popover(&mut self, delta: i32) -> (r: Vec<Effect>)
        requires
            old(self).wf(),
            old(self)@.popover is Some,
            -1 <= delta <= 1,
        ensures
            final(self).wf(),
            (final(self)@, effects(r@)) == old(self)@.reselected(delta as int),
            keeps_mirror(old(self)@, (final(self)@, effects(r@))),
    {
        let ghost before = self@;
        match self.popover.take() {
            Some(popover) => {
                let mut popover = popover;
                assert(popover@.items.len() == popover.items@.len());
                popover.move_selection(delta);
                proof {
                    let p = before.popover->0;
                    let n = p.items.len() as int;
                    assert(0 <= (p.selected + delta) % n < n);
                }
                self.popover = Some(popover);
            },
            None => {},
        }
        let out = one(Effect::Notify);
        proof {
            lemma_quiet_step_keeps_mirror(before, (self@, effects(out@)));
        }
        out
    }

    /// Handles an event of the editor; `buffer` is the editor's text.
    pub fn handle_editor_event(
        &mut self,
        event: EditorEvent,
        buffer: &str,
        screen: &AltScreen,
    ) -> (r: Vec<Effect>)
        requires
            old(self).wf(),
            old(self)@.accepts_event(event),
        ensures
            final(self).wf(),
            (final(self)@, effects(r@)) == old(self)@.after_event(event, buffer@, screen@),
            keeps_mirror(old(self)@, (final(self)@, effects(r@))),
    {
        match event {
            EditorEvent::Enter => if self.popover.is_some() {
                self.popover_complete()
            } else {
                self.handle_send(buffer, screen)
            },
            EditorEvent::Escape => if self.popover.is_some() {
                self.popover = None;
                let out = one(Effect::Notify);
                proof {
                    lemma_quiet_step_keeps_mirror(old(self)@, (self@, effects(out@)));
                }
                out
            } else {
                self.handle_escape(buffer)
            },
            EditorEvent::Navigate(NavigationKey::ShiftTab) => self.unchanged(cycle_mode()),
            EditorEvent::Navigate(NavigationKey::Tab) => if self.popover.is_some() {
                self.popover_complete()
            } else {
                self.unchanged(Effect::Emit(ClaudePromptOverlayEvent::FocusTerminal))
            },
            EditorEvent::Navigate(NavigationKey::Up) => if self.popover.is_some() {
                self.move_popover(-1)
            } else {
                self.history_prev(buffer)
            },
            EditorEvent::Navigate(NavigationKey::Down) => if self.popover.is_some() {
                self.move_popover(1)
            } else {
                self.history_next()
            },
            EditorEvent::Edited(EditOrigin::UserTyped)
            | EditorEvent::Edited(EditOrigin::UserInitiated) => self.handle_edit(buffer),
            _ => {
                let out: Vec<Effect> = Vec::new();
                assert(effects(out@) =~= seq![]);
                proof {
                    lemma_quiet_step_keeps_mirror(self@, (self@, effects(out@)));
                }
                out
            },
        }
    }

    fn unchanged(&self, effect: Effect) -> (r: Vec<Effect>)
        requires
            leaves_file(seq![effect@]),
        ensures
            effects(r@) == seq![effect@],
            keeps_mirror(self@, (self@, effects(r@))),
    {
        let out = one(effect);
        proof {
            lemma_quiet_step_keeps_mirror(self@, (self@, effects(out@)));
        }
        out
    }

    /// Handles an action; `buffer` is the editor's text.
    pub fn handle_action(
        &mut self,
        action: ClaudePromptOverlayAction,
        buffer: &str,
        screen: &AltScreen,
    ) -> (r: Vec<Effect>)
        requires
            old(self).wf(),
        ensures
            final(self).wf(),
            (final(self)@, effects(r@)) == old(self)@.after_action(action, buffer@, screen@),
            keeps_mirror(old(self)@, (final(self)@, effects(r@))),
    {
        match action {
            ClaudePromptOverlayAction::Send => self.handle_send(buffer, screen),
            ClaudePromptOverlayAction::Interrupt => self.unchanged(interrupt()),
            ClaudePromptOverlayAction::CycleMode => self.unchanged(cycle_mode()),
            ClaudePromptOverlayAction::ToggleHide => self.toggle_hidden(),
            ClaudePromptOverlayAction::FocusEditor => self.unchanged(Effect::FocusEditor),
        }
    }

    /// Hands the keyboard focus on to the editor when the overlay itself gets it.
    pub fn on_focus(&self, is_self_focused: bool) -> (r: Vec<Effect>)
        ensures
            effects(r@) == (if is_self_focused {
                seq![EffectView::FocusEditor, EffectView::Notify]
            } else {
                seq![]
            }),
    {
        let mut out: Vec<Effect> = Vec::new();
        if is_self_focused {
            out.push(Effect::FocusEditor);
            out.push(Effect::Notify);
            assert(effects(out@) =~= seq![EffectView::FocusEditor, EffectView::Notify]);
        } else {
            assert(effects(out@) =~= seq![]);
        }
        out
    }

    /// The store of the pane's workspace, where it has to be loaded now: the workspace's directory
    /// `pwd` is known, and the history is not loaded. `install_history` takes it with the contents of
    /// its file. On a platform without a directory for local data there is nothing to load.
    pub fn try_init_history(&mut self, pwd: Option<&str>, has_data_dir: bool) -> (r: Option<
        HistoryStore,
    >)
        requires
            old(self).wf(),
        ensures
            final(self).wf(),
            final(self)@ == old(self)@.looked_for_store(pwd is Some, has_data_dir),
            match r {
                Some(store) => old(self)@.wants_store(pwd is Some, has_data_dir) && store.is_for(
                    hash_of(pwd->0@),
                    HISTORY_MAX,
                ),
                None => !old(self)@.wants_store(pwd is Some, has_data_dir),
            },
    {
        if self.history_loaded {
            return None;
        }
        match pwd {
            Some(key) => {
                let store = HistoryStore::for_workspace(key, HISTORY_MAX, has_data_dir);
                if store.is_none() {
                    self.history_loaded = true;
                }
                store
            },
            None => None,
        }
    }

    /// Takes the history of the workspace and the draft that was saved there, from its store and the
    /// contents of the store's files as far as there are any. `buffer` is the editor's text.
    pub fn install_history(
        &mut self,
        store: HistoryStore,
        contents: Option<&[u8]>,
        draft: Option<Vec<u8>>,
        buffer: &str,
    ) -> (r: Vec<Effect>)
        requires
            old(self).wf(),
            store.max_entries == HISTORY_MAX,
        ensures
            final(self).wf(),
            (final(self)@, effects(r@)) == old(self)@.installed(
                store@,
                match contents {
                    Some(bytes) => newest(stored(bytes@), HISTORY_MAX as nat),
                    None => seq![],
                },
                draft_in(file_view(draft)),
                buffer@,
            ),
            contents matches Some(bytes) ==> is_appendable(bytes@) ==> mirrors(
                final(self)@.history,
                bytes@,
            ),
            contents is None ==> mirrors(final(self)@.history, seq![]),
    {
        self.history = store.load(contents);
        assert(self@.history.len() == self.history@.len());
        let mut out: Vec<Effect> = Vec::new();
        let is_live = match &self.history_state {
            HistoryState::LiveDraft => true,
            _ => false,
        };
        let saved = store.load_draft(draft);
        if is_live && trim(buffer, CharClass::White).is_empty() {
            match saved {
                Some(text) => {
                    out.push(Effect::ResetBuffer(text));
                    assert(effects(out@) =~= seq![EffectView::ResetBuffer(text@)]);
                },
                None => {
                    assert(effects(out@) =~= seq![]);
                },
            }
        } else {
            assert(effects(out@) =~= seq![]);
        }
        self.history_store = Some(store);
        self.history_loaded = true;
        proof {
            lemma_empty_file();
        }
        out
    }

    /// Looks at the alternate screen, as it is done every `RENDER_POLL_MS`: the overlay is drawn anew
    /// if the screen has changed, the history is loaded once the workspace is known, and an agent
    /// without a session gets one.
    pub fn render_poll(
        &mut self,
        screen: &AltScreen,
        pwd: Option<&str>,
        has_data_dir: bool,
        has_session: bool,
        should_auto_toggle_input: bool,
    ) -> (r: Poll)
        requires
            old(self).wf(),
        ensures
            final(self).wf(),
            final(self)@ == old(self)@.looked(screen@).0.looked_for_store(
                pwd is Some,
                has_data_dir,
            ),
            effects(r.effects@) == old(self)@.looked(screen@).1.push(
                EffectView::PollAfter { delay_ms: RENDER_POLL_MS },
            ),
            match r.store {
                Some(store) => old(self)@.wants_store(pwd is Some, has_data_dir) && store.is_for(
                    hash_of(pwd->0@),
                    HISTORY_MAX,
                ),
                None => !old(self)@.wants_store(pwd is Some, has_data_dir),
            },
            match r.session {
                Some(session) => !has_session && screen@.status().model is Some
                    && session.is_found_on_screen(should_auto_toggle_input),
                None => has_session || screen@.status().model is None,
            },
    {
        let mut out: Vec<Effect> = Vec::new();
        let hash: u64 = screen.read_alt_screen_hash(self.last_alt_hash);
        if hash != self.last_alt_hash {
            self.last_alt_hash = hash;
            out.push(Effect::Notify);
        }
        assert(effects(out@) =~= old(self)@.looked(screen@).1);
        let store = self.try_init_history(pwd, has_data_dir);
        let session = maybe_register_claude_from_alt_screen(
            screen,
            has_session,
            should_auto_toggle_input,
        );
        let ghost looked = effects(out@);
        out.push(Effect::PollAfter { delay_ms: RENDER_POLL_MS });
        assert(effects(out@) =~= looked.push(EffectView::PollAfter { delay_ms: RENDER_POLL_MS }));
        Poll { effects: out, store, session }
    }
}

/// What a look at the alternate screen asks of the host.
#[derive(Debug)]
pub struct Poll {
    pub effects: Vec<Effect>,
    /// The store to read and to hand to `install_history`.
    pub store: Option<HistoryStore>,
    /// The session to register for the pane, unless it has got one in the meantime.
    pub session: Option<CliAgentSession>,
}

/// The session to register for a pane with this screen, if it is to get one.
pub fn maybe_register_claude_from_alt_screen(
    screen: &AltScreen,
    has_session: bool,
    should_auto_toggle_input: bool,
) -> (r: Option<CliAgentSession>)
    ensures
        match r {
            Some(session) => !has_session && screen@.status().model is Some
                && session.is_found_on_screen(should_auto_toggle_input),
            None => has_session || screen@.status().model is None,
        },
{
    if has_session {
        return None;
    }
    let status = screen.read_parsed_status();
    session_on_screen(&status, has_session, should_auto_toggle_input)
}

proof fn lemma_empty_file()
    ensures
        mirrors(seq![], seq![]),
{
    assert(byte_lines(seq![]) =~= seq![]);
    assert(stored(seq![]) =~= seq![]);
}

/// The effect that cycles the agent's permission mode.
fn cycle_mode() -> (r: Effect)
    ensures
        r@ == raw(cycle_mode_bytes()),
{
    let mut bytes: Vec<u8> = Vec::new();
    bytes.push(0x1b);
    bytes.push(0x5b);
    bytes.push(0x5a);
    assert(bytes@ =~= cycle_mode_bytes());
    Effect::Emit(ClaudePromptOverlayEvent::WriteRaw { bytes })
}

/// A keystroke that is bound to an action while the overlay or its editor has the focus.
#[derive(Debug, PartialEq)]
pub struct KeyBinding {
    pub keystroke: String,
    pub action: ClaudePromptOverlayAction,
}

/// The keystrokes that are bound to actions. Ctrl-G is bound on the overlay too, because the
/// terminal's own binding is out of reach while the editor has the focus.
pub fn init() -> (r: Vec<KeyBinding>)
    ensures
        r@.len() == 2,
        r@[0].keystroke@ == "shift-tab"@,
        r@[0].action == ClaudePromptOverlayAction::CycleMode,
        r@[1].keystroke@ == "ctrl-g"@,
        r@[1].action == ClaudePromptOverlayAction::ToggleHide,
{
    let mut out: Vec<KeyBinding> = Vec::new();
    out.push(
        KeyBinding {
            keystroke: "shift-tab".to_owned(),
            action: ClaudePromptOverlayAction::CycleMode,
        },
    );
    out.push(
        KeyBinding {
            keystroke: "ctrl-g".to_owned(),
            action: ClaudePromptOverlayAction::ToggleHide,
        },
    );
    out
}

fn ticket_after(ticket: u64) -> (r: u64)
    ensures
        r == next_ticket(ticket),
{
    if ticket == u64::MAX {
        0
    } else {
        ticket + 1
    }
}

fn one(effect: Effect) -> (r: Vec<Effect>)
    ensures
        r@ == seq![effect],
        effects(r@) == seq![effect@],
{
    let mut out: Vec<Effect> = Vec::new();
    out.push(effect);
    assert(effects(out@) =~= seq![effect@]);
    out
}

/// The effect that interrupts the agent.
fn interrupt() -> (r: Effect)
    ensures
        r@ == raw(seq![CTRL_C]),
{
    let mut bytes: Vec<u8> = Vec::new();
    bytes.push(CTRL_C);
    assert(bytes@ =~= seq![CTRL_C]);
    Effect::Emit(ClaudePromptOverlayEvent::WriteRaw { bytes })
}

/// Hiding the overlay twice leaves it as it was.
pub proof fn law_toggling_twice_undoes(s: OverlayView)
    ensures
        s.toggled().0.toggled().0 == s,
{
}

/// While a prompt is on its way, nothing is sent and nothing is lost: sending again does nothing.
pub proof fn law_no_double_send(s: OverlayView, a: Seq<char>, b: Seq<char>, up: bool, still: bool)
    requires
        s.sends(a),
    ensures
        s.sent(a, up).0.is_submitting,
        s.sent(a, up).0.sent(b, still) == (s.sent(a, up).0, Seq::<EffectView>::empty()),
        s.sent(a, up).0.finished(a).0.is_submitting == false,
{
}

/// A prompt that is sent ends with its submission being put off; once its time has come, exactly
/// that text is submitted.
pub proof fn law_sent_prompt_is_submitted(s: OverlayView, text: Seq<char>, banner: bool)
    requires
        s.sends(text),
    ensures
        s.sent(text, banner).1.last() == (EffectView::SubmitAfter {
            delay_ms: SUBMIT_PRECLEAR_DELAY_MS,
            text,
        }),
        s.sent(text, banner).1[0] == EffectView::ClearBuffer,
        s.finished(text).1[0] == EffectView::Emit(EventView::Submit { text }),
        s.sent(text, banner).0.last_sent == Some(text),
{
}

/// A blank prompt is never sent.
pub proof fn law_blank_prompt_is_not_sent(s: OverlayView, buffer: Seq<char>, banner: bool)
    requires
        is_blank(buffer),
    ensures
        s.sent(buffer, banner).0 == s,
        forall|i: int|
            0 <= i < s.sent(buffer, banner).1.len() ==> (#[trigger] s.sent(buffer, banner).1[i])
                == EffectView::ClearBuffer,
{
}

/// Ctrl-C never confirms the exit: while the exit banner is up, sending writes none.
pub proof fn law_send_never_confirms_exit(s: OverlayView, buffer: Seq<char>, i: int)
    requires
        0 <= i < s.sent(buffer, true).1.len(),
    ensures
        s.sent(buffer, true).1[i] != raw(seq![CTRL_C]),
{
    let all = s.sent(buffer, true).1;
    if s.sends(buffer) {
        let pushed = s.pushed(buffer).1;
        assert(all =~= seq![EffectView::ClearBuffer] + s.submitted(buffer, true).1);
        assert(seq![CTRL_U][0] != seq![CTRL_C][0]);
        if 0 < i <= pushed.len() {
            assert(all[i] == pushed[i - 1]);
        }
    }
}

/// Before a prompt is submitted the agent's input is cleared: with Ctrl-U while the exit banner is
/// up, with Ctrl-C otherwise.
pub proof fn law_send_clears_input(s: OverlayView, buffer: Seq<char>, banner: bool)
    requires
        s.sends(buffer),
    ensures
        s.sent(buffer, banner).1[s.sent(buffer, banner).1.len() - 3] == raw(
            seq![
                if banner {
                    CTRL_U
                } else {
                    CTRL_C
                },
            ],
        ),
{
}

/// Escape interrupts the agent, and brings the prompt that was sent last back to an empty editor.
pub proof fn law_escape_restores_last_prompt(
    s: OverlayView,
    text: Seq<char>,
    banner: bool,
    buffer: Seq<char>,
)
    requires
        s.sends(text),
        is_blank(buffer),
    ensures
        s.sent(text, banner).0.finished(text).0.escaped(buffer).1 == seq![
            raw(seq![CTRL_C]),
            EffectView::ResetBuffer(text),
        ],
{
}

/// Escape on an open popover closes it and does nothing else: the agent is not interrupted.
pub proof fn law_escape_closes_popover_first(s: OverlayView, buffer: Seq<char>, screen: ScreenView)
    requires
        s.popover is Some,
    ensures
        s.after_event(EditorEvent::Escape, buffer, screen) == (
            OverlayView { popover: None, ..s },
            seq![EffectView::Notify],
        ),
{
}

/// The prompt that was added last is the newest of the history, which never outgrows its bound, and
/// what was there before it stays in order.
pub proof fn law_pushed_prompt_is_newest(s: OverlayView, text: Seq<char>)
    requires
        s.is_valid(),
    ensures
        s.pushed(text).0.history.len() > 0,
        s.pushed(text).0.history.last() == text,
        s.pushed(text).0.history.len() <= HISTORY_MAX,
        s.pushed(text).0.is_valid(),
        s.pushed(text).0.pushed(text) == (s.pushed(text).0, Seq::<EffectView>::empty()),
        s.pushed(text).0.history.drop_last().is_suffix_of(s.history) || s.pushed(text).0 == s,
{
}

/// The state after `n` steps back in the history, the editor holding `buffer` at the first.
pub open spec fn back(s: OverlayView, buffer: Seq<char>, n: nat) -> OverlayView
    decreases n,
{
    if n == 0 {
        s
    } else {
        back(s, buffer, (n - 1) as nat).gone_back(buffer).0
    }
}

/// The state after `n` steps forward in the history.
pub open spec fn forward(s: OverlayView, n: nat) -> OverlayView
    decreases n,
{
    if n == 0 {
        s
    } else {
        forward(s, (n - 1) as nat).gone_forward().0
    }
}

proof fn lemma_back(s: OverlayView, buffer: Seq<char>, n: nat)
    requires
        s.history_state is LiveDraft,
        0 < n <= s.history.len(),
    ensures
        back(s, buffer, n) == (OverlayView {
            history_state: HistoryView::Browsing { idx: s.history.len() - n, draft: buffer },
            ..s
        }),
    decreases n,
{
    reveal_with_fuel(back, 2);
    if n > 1 {
        lemma_back(s, buffer, (n - 1) as nat);
    }
}

proof fn lemma_forward(s: OverlayView, idx: int, draft: Seq<char>, n: nat)
    requires
        s.history_state == (HistoryView::Browsing { idx, draft }),
        0 <= idx,
        idx + n < s.history.len(),
    ensures
        forward(s, n) == (OverlayView {
            history_state: HistoryView::Browsing { idx: idx + n, draft },
            ..s
        }),
    decreases n,
{
    if n > 0 {
        lemma_forward(s, idx, draft, (n - 1) as nat);
    }
}

/// The n-th step back shows the n-th newest prompt, and keeps the draft.
pub proof fn law_steps_back_show_older_prompts(s: OverlayView, buffer: Seq<char>, n: nat)
    requires
        s.history_state is LiveDraft,
        0 < n <= s.history.len(),
    ensures
        back(s, buffer, (n - 1) as nat).gone_back(buffer).1 == seq![
            EffectView::ResetBuffer(s.history[s.history.len() - n]),
        ],
        back(s, buffer, n).can_go_back(),
        back(s, buffer, s.history.len()).gone_back(buffer) == (
            back(s, buffer, s.history.len()),
            Seq::<EffectView>::empty(),
        ),
{
    lemma_back(s, buffer, n);
    lemma_back(s, buffer, s.history.len());
    if n > 1 {
        lemma_back(s, buffer, (n - 1) as nat);
    }
}

/// Going back and then as far forward brings the draft back, whatever was passed on the way.
pub proof fn law_going_forward_restores_draft(s: OverlayView, buffer: Seq<char>, n: nat)
    requires
        s.history_state is LiveDraft,
        0 < n <= s.history.len(),
    ensures
        forward(back(s, buffer, n), n) == s,
        forward(back(s, buffer, n), (n - 1) as nat).gone_forward().1 == seq![
            EffectView::ResetBuffer(buffer),
        ],
{
    lemma_back(s, buffer, n);
    let there = back(s, buffer, n);
    lemma_forward(there, s.history.len() - n, buffer, (n - 1) as nat);
}

/// A draft is live again as soon as the user edits it, and the first step back starts at the newest
/// prompt.
pub proof fn law_editing_makes_draft_live(s: OverlayView, buffer: Seq<char>, screen: ScreenView)
    ensures
        s.after_event(EditorEvent::Edited(EditOrigin::UserTyped), buffer, screen).0.history_state
            is LiveDraft,
        s.after_event(EditorEvent::Edited(EditOrigin::System), buffer, screen) == (
            s,
            Seq::<EffectView>::empty(),
        ),
        s.history_state is LiveDraft ==> s.can_go_back(),
{
}

/// A screen that stays as it is draws nothing anew.
pub proof fn law_steady_screen_is_quiet(s: OverlayView, screen: ScreenView)
    ensures
        s.looked(screen).0.looked(screen) == (s.looked(screen).0, Seq::<EffectView>::empty()),
        s.looked(ScreenView::Gone) == (s, Seq::<EffectView>::empty()),
{
}

/// No step leaves the states that overlays can be in.
pub proof fn law_steps_keep_validity(
    s: OverlayView,
    event: EditorEvent,
    action: ClaudePromptOverlayAction,
    buffer: Seq<char>,
    screen: ScreenView,
)
    requires
        s.is_valid(),
        s.accepts_event(event),
    ensures
        s.after_event(event, buffer, screen).0.is_valid(),
        s.after_action(action, buffer, screen).0.is_valid(),
        s.finished(buffer).0.is_valid(),
{
    law_open_popover_has_selection(buffer, s.popover, s.commands, s.models);
    if let Some(p) = s.popover {
        if let Some(text) = p.completion() {
            law_open_popover_has_selection(text, s.popover, s.commands, s.models);
        }
        law_moving_back_undoes(p, 1);
        law_moving_back_undoes(p, -1);
    }
}

/// A prompt that was submitted leaves no draft: once it is sent, the draft file is gone, and a save
/// that was due for it is dropped, so that a restart does not bring it back.
pub proof fn law_submitted_prompt_leaves_no_draft(
    s: OverlayView,
    text: Seq<char>,
    banner: bool,
    contents: Option<Seq<u8>>,
    buffer: Seq<char>,
)
    requires
        s.sends(text),
        s.history_store is Some,
    ensures
        draft_in(draft_after(contents, s.sent(text, banner).0.finished(text).1)) is None,
        s.sent(text, banner).0.saves_when_due(s.draft_ticket, buffer).len() == 0,
        s.sent(text, banner).0.finished(text).0.saves_when_due(s.draft_ticket, buffer).len() == 0,
{
    let done = s.sent(text, banner).0.finished(text).1;
    reveal_with_fuel(draft_after, 3);
    assert(done.drop_last().last() == EffectView::ClearDraft);
}

/// A draft survives a restart: what the user typed is saved when its save is due, and an overlay that
/// starts in the workspace puts it into its editor.
pub proof fn law_draft_survives_restart(
    s: OverlayView,
    typed: Seq<char>,
    contents: Option<Seq<u8>>,
    fresh: OverlayView,
    store: StoreView,
    history: Seq<Seq<char>>,
    empty: Seq<char>,
)
    requires
        s.history_store is Some,
        typed.len() > 0,
        fresh.history_state is LiveDraft,
        is_blank(empty),
    ensures
        ({
            let edited = s.edited(typed);
            let ticket = edited.0.draft_ticket;
            let saved = draft_after(contents, edited.0.saves_when_due(ticket, typed));
            &&& edited.1.last() == (EffectView::SaveDraftAfter {
                delay_ms: DRAFT_SAVE_DELAY_MS,
                ticket,
            })
            &&& fresh.installed(store, history, draft_in(saved), empty).1 == seq![
                EffectView::ResetBuffer(typed),
            ]
        }),
{
    law_saved_draft_is_loaded(typed);
}

/// Saving is put off until the edits rest: a save that is due for an edit is dropped where another
/// edit followed it.
pub proof fn law_only_the_newest_edit_is_saved(
    s: OverlayView,
    first: Seq<char>,
    second: Seq<char>,
    buffer: Seq<char>,
)
    ensures
        s.edited(first).0.edited(second).0.saves_when_due(
            s.edited(first).0.draft_ticket,
            buffer,
        ).len() == 0,
{
}

/// Walking through the history does not touch the draft: what is due to be saved meanwhile is what
/// the user typed.
pub proof fn law_browsing_keeps_draft(s: OverlayView, typed: Seq<char>, n: nat, shown: Seq<char>)
    requires
        s.history_state is LiveDraft,
        0 < n <= s.history.len(),
    ensures
        back(s, typed, n).draft(shown) == typed,
        back(s, typed, n).draft_ticket == s.draft_ticket,
{
    lemma_back(s, typed, n);
}

} // verus!
