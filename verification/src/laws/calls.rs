//! Laws of the calls themselves: what a caller finds in what a call leaves behind.

use crate::agent::AgentNames;
use crate::dynamic_commands::{
    all_listed, claude_home_dir, commands_in, described, description_of, discover_plugin_commands,
    discover_user_commands, installs_of_text, listed, plugin_commands, read_description,
    settings_dir_name, CommandFile,
};
use crate::hashing::hash_of;
use crate::history_store::{
    draft_in, file_view, is_appendable, line_of, lines_of, newest, stored, HistoryStore, Removal,
};
use crate::laws::discovery::{are_other_lines, law_description_is_the_first_in_the_block};
use crate::laws::overlay::{
    law_edits_refresh_the_popover, law_enter_sends_past_the_banner, law_finishing, law_looking,
    law_pushing, law_sending, law_sent_prompt_is_recorded, law_store_is_wanted_once, law_submitting,
    law_what_is_installed,
};
use crate::laws::screen::{
    law_banner_is_searched_in_the_whole_end, law_marks_are_found_anywhere, law_marks_are_handed_on,
};
use crate::numerals::hexadecimal;
use crate::overlay::{
    effects, init, ClaudePromptOverlay, ClaudePromptOverlayAction, EditOrigin, EditorEvent, Effect,
    EffectView, EventView, HistoryView, KeyBinding, OverlayView, Poll,
};
use crate::patterns::{is_found, spans, Span};
use crate::popover::popover_for;
use crate::render::{
    is_row_for, label_view, progress_bar_chip, prompt_placeholder, render_status_chips, Palette,
    ProgressBar, Scene, SessionLabel, StatusRow,
};
use crate::screen::{AltScreen, ScreenView};
use crate::session::{
    is_claude_code_active, session_on_screen, CliAgent, CliAgentSession, InputState, SessionStatus,
};
use crate::slash_commands::{
    entries, has_name, law_built_in_commands_win, models, named, slash_commands, CommandEntry,
};
use crate::status_parser::{assemble_status, parse_status, ParsedStatus, ScreenMatches};
use crate::text::{is_space, lex_le, text_lines, views};
use vstd::prelude::*;
use vstd::string::*;
use vstd::utf8::*;

verus! {

/// The exit banner is detected exactly where it is in the longest end of the active screen of at
/// most 1500 bytes, wherever in that end it stands.
pub proof fn law_call_detect_exit_banner(screen: AltScreen, text: Seq<char>, k: int, r: bool)
    requires
        call_ensures(AltScreen::detect_exit_banner, (&screen,), r),
        screen@ == (ScreenView::Active { text }),
        0 <= k <= text.len(),
        encode_utf8(text.skip(k)).len() <= 1500,
        k > 0 ==> encode_utf8(text.skip(k - 1)).len() > 1500,
    ensures
        r == is_found(r"(?i)press ctrl-?c again"@, text.skip(k)),
{
    law_banner_is_searched_in_the_whole_end(text, k);
}

/// A parsed status is a menu exactly where the menu pattern is found, whatever else is on the
/// screen; and a menu is a question.
pub proof fn law_call_parse_status(text: &str, r: ParsedStatus, asks: bool)
    requires
        call_ensures(parse_status, (text,), r),
        call_ensures(ParsedStatus::is_question_mode, (&r,), asks),
        text@.len() > 0,
    ensures
        r.menu_mode == is_found(
            r"(?i)\b(resume session|select an?|switch to|choose)\b|\(\s*\d+\s+of\s+\d+\s*\)"@,
            text@,
        ),
        r.remote == is_found(r"(?i)remote\s+control\s+active"@, text@),
        r.focused == is_found(r"(?i)\bfocus\b"@, text@),
        r.menu_mode ==> asks,
        !r.menu_mode ==> (asks <==> !r.has_input_box && r.model is None && !r.focused),
{
    law_marks_are_found_anywhere(text@);
}

/// A status that is put together has the marks that were found, whatever the text has.
pub proof fn law_call_assemble_status(
    text: &str,
    found: ScreenMatches,
    footer: &str,
    percentages: Vec<Vec<Span>>,
    r: ParsedStatus,
)
    requires
        call_ensures(assemble_status, (text, &found, footer, &percentages), r),
    ensures
        r.menu_mode == found.menu,
        r.remote == found.remote,
        r.focused == found.focused,
{
    law_marks_are_handed_on(
        text@,
        footer@,
        spans(found.models@),
        spans(found.modes@),
        spans(found.shells@),
        found.remote,
        found.focused,
        found.menu,
        footer@,
        spans(percentages@),
    );
}

/// A description is read exactly where the first line opens a front matter block and a line of the
/// block gives one; it is that of the first such line, whatever other lines stand before it.
pub proof fn law_call_read_description(text: &str, at: int, r: Option<String>)
    requires
        call_ensures(read_description, (text,), r),
    ensures
        ({
            let lines = text_lines(text@);
            let opens = lines.len() > 0 && lines[0] == "---"@;
            &&& !opens ==> r is None
            &&& opens && 1 <= at < lines.len() && lines[at] != "---"@ && described(
                lines[at],
            ) is Some && are_other_lines(lines.subrange(1, at)) ==> (r matches Some(value) && described(
                lines[at],
            ) == Some(value@))
            &&& r is Some ==> exists|k: int|
                1 <= k < lines.len() && (#[trigger] lines[k]) != "---"@ && are_other_lines(
                    lines.subrange(1, k),
                ) && described(lines[k]) is Some
        }),
{
    law_description_is_the_first_in_the_block(text@, at);
    let lines = text_lines(text@);
    if r is Some {
        let first_at = |k: int|
            1 <= k < lines.len() && lines[k] != "---"@ && described(lines[k]) is Some
                && are_other_lines(lines.subrange(1, k));
        let k = choose|k: int| #[trigger]
            first_at(k) && description_of(text@) == described(lines[k]);
        assert(first_at(k));
        assert(lines[k] != "---"@);
    }
}

/// Every edit of the user leaves the popover for the new text, whatever popover was open, with the
/// edited text as the live draft that is saved after 500 ms.
pub proof fn law_call_edit(
    overlay: &mut ClaudePromptOverlay,
    event: EditorEvent,
    buffer: &str,
    screen: &AltScreen,
    r: Vec<Effect>,
)
    requires
        call_ensures(
            ClaudePromptOverlay::handle_editor_event,
            (overlay, event, buffer, screen),
            r,
        ),
        event == EditorEvent::Edited(EditOrigin::UserTyped) || event == EditorEvent::Edited(
            EditOrigin::UserInitiated,
        ),
    ensures
        final(overlay)@.popover == popover_for(
            buffer@,
            old(overlay)@.popover,
            old(overlay)@.commands,
            old(overlay)@.models,
        ),
        final(overlay)@.history_state is LiveDraft,
        final(overlay)@.history == old(overlay)@.history,
        effects(r@) == seq![
            EffectView::Notify,
            EffectView::SaveDraftAfter { delay_ms: 500, ticket: final(overlay)@.draft_ticket },
        ],
{
    law_edits_refresh_the_popover(old(overlay)@, buffer@, screen@);
}

/// Every prompt that is sent, whatever it says, is the newest of the history and the last prompt,
/// and exactly its text is submitted.
pub proof fn law_call_send(
    overlay: &mut ClaudePromptOverlay,
    buffer: &str,
    screen: &AltScreen,
    at: int,
    r: Vec<Effect>,
)
    requires
        call_ensures(ClaudePromptOverlay::handle_send, (overlay, buffer, screen), r),
        old(overlay)@.is_valid(),
        !old(overlay)@.is_submitting,
        0 <= at < buffer@.len(),
        !is_space(buffer@[at]),
    ensures
        final(overlay)@.history.len() > 0,
        final(overlay)@.history.last() == buffer@,
        final(overlay)@.last_sent == Some(buffer@),
        final(overlay)@.is_submitting,
        effects(r@).last() == (EffectView::SubmitAfter { delay_ms: 80, text: buffer@ }),
{
    let banner = screen@.shows_exit_banner();
    law_sent_prompt_is_recorded(old(overlay)@, buffer@, banner, at);
    law_sending(old(overlay)@, buffer@, banner, at);
}

/// So is every text whose submission is started.
pub proof fn law_call_submit(
    overlay: &mut ClaudePromptOverlay,
    text: &str,
    banner: bool,
    r: Vec<Effect>,
)
    requires
        call_ensures(ClaudePromptOverlay::submit, (overlay, text, banner), r),
        old(overlay)@.is_valid(),
    ensures
        final(overlay)@.history.len() > 0,
        final(overlay)@.history.last() == text@,
        final(overlay)@.last_sent == Some(text@),
        final(overlay)@.is_submitting,
        effects(r@).last() == (EffectView::SubmitAfter { delay_ms: 80, text: text@ }),
{
    law_submitting(old(overlay)@, text@, banner);
    law_pushing(old(overlay)@, text@);
}

/// Enter without a popover, and the action, send as well; with the banner up the input is cleared
/// with Ctrl-U.
pub proof fn law_call_enter(
    overlay: &mut ClaudePromptOverlay,
    buffer: &str,
    screen: &AltScreen,
    at: int,
    text: Seq<char>,
    k: int,
    r: Vec<Effect>,
)
    requires
        ({
            ||| old(overlay)@.popover is None && call_ensures(
                ClaudePromptOverlay::handle_editor_event,
                (overlay, EditorEvent::Enter, buffer, screen),
                r,
            )
            ||| call_ensures(
                ClaudePromptOverlay::handle_action,
                (overlay, ClaudePromptOverlayAction::Send, buffer, screen),
                r,
            )
        }),
        old(overlay)@.is_valid(),
        !old(overlay)@.is_submitting,
        0 <= at < buffer@.len(),
        !is_space(buffer@[at]),
        screen@ == (ScreenView::Active { text }),
        0 <= k <= text.len(),
        encode_utf8(text.skip(k)).len() <= 1500,
        k > 0 ==> encode_utf8(text.skip(k - 1)).len() > 1500,
    ensures
        final(overlay)@.history.len() > 0,
        final(overlay)@.history.last() == buffer@,
        final(overlay)@.last_sent == Some(buffer@),
        effects(r@)[effects(r@).len() - 3] == EffectView::Emit(
            EventView::WriteRaw {
                bytes: seq![
                    if is_found(r"(?i)press ctrl-?c again"@, text.skip(k)) {
                        0x15u8
                    } else {
                        0x03u8
                    },
                ],
            },
        ),
        effects(r@).last() == (EffectView::SubmitAfter { delay_ms: 80, text: buffer@ }),
{
    let up = is_found(r"(?i)press ctrl-?c again"@, text.skip(k));
    law_enter_sends_past_the_banner(old(overlay)@, buffer@, at, text, k);
    law_sent_prompt_is_recorded(old(overlay)@, buffer@, up, at);
    law_sending(old(overlay)@, buffer@, up, at);
}

/// A prompt that is added to the history becomes its newest.
pub proof fn law_call_push_history(
    overlay: &mut ClaudePromptOverlay,
    text: &str,
    r: Vec<Effect>,
)
    requires
        call_ensures(ClaudePromptOverlay::push_history, (overlay, text), r),
        old(overlay)@.is_valid(),
    ensures
        final(overlay)@.history.len() > 0,
        final(overlay)@.history.last() == text@,
{
    law_pushing(old(overlay)@, text@);
}

/// When the submission has come due, the text is submitted, the draft file is dropped where there
/// is a store, and another prompt can be sent.
pub proof fn law_call_finish_submit(
    overlay: &mut ClaudePromptOverlay,
    text: String,
    r: Vec<Effect>,
)
    requires
        call_ensures(ClaudePromptOverlay::finish_submit, (overlay, text), r),
    ensures
        final(overlay)@ == (OverlayView { is_submitting: false, ..old(overlay)@ }),
        effects(r@)[0] == EffectView::Emit(EventView::Submit { text: text@ }),
        old(overlay)@.history_store is Some <==> effects(r@).contains(EffectView::ClearDraft),
{
    law_finishing(old(overlay)@, text@);
    let all = effects(r@);
    if old(overlay)@.history_store is Some {
        assert(all[1] == EffectView::ClearDraft);
    } else {
        assert forall|i: int| 0 <= i < all.len() implies #[trigger] all[i]
            != EffectView::ClearDraft by {}
    }
}

/// Once the workspace's files are read, the history is what the newest 200 entries of its file are,
/// and the saved draft goes into a blank editor that shows no prompt of the history.
pub proof fn law_call_install_history(
    overlay: &mut ClaudePromptOverlay,
    store: HistoryStore,
    contents: Option<&[u8]>,
    draft: Option<Vec<u8>>,
    buffer: &str,
    r: Vec<Effect>,
)
    requires
        call_ensures(
            ClaudePromptOverlay::install_history,
            (overlay, store, contents, draft, buffer),
            r,
        ),
    ensures
        contents matches Some(bytes) ==> final(overlay)@.history == newest(stored(bytes@), 200),
        contents is None ==> final(overlay)@.history.len() == 0,
        final(overlay)@.history_store == Some(store@),
        final(overlay)@.history_loaded,
        ({
            let blank = forall|i: int| 0 <= i < buffer@.len() ==> is_space(#[trigger] buffer@[i]);
            let saved = draft_in(file_view(draft));
            &&& saved is Some && blank && old(overlay)@.history_state is LiveDraft ==> effects(r@)
                == seq![EffectView::ResetBuffer(saved->0)]
            &&& saved is None || !blank || !(old(overlay)@.history_state is LiveDraft) ==> r@.len()
                == 0
        }),
{
    let history = match contents {
        Some(bytes) => newest(stored(bytes@), 200),
        None => seq![],
    };
    law_what_is_installed(old(overlay)@, store@, history, draft_in(file_view(draft)), buffer@);
    assert(effects(r@).len() == r@.len());
}

/// A look at the screen keeps its hash, draws anew where that has changed, asks for the next look
/// after 80 ms, asks for the store of a workspace that is known but not loaded, and finds a session
/// where the pane has none and the screen names a model.
pub proof fn law_call_render_poll(
    overlay: &mut ClaudePromptOverlay,
    screen: &AltScreen,
    pwd: Option<&str>,
    has_data_dir: bool,
    has_session: bool,
    toggles: bool,
    r: Poll,
)
    requires
        call_ensures(
            ClaudePromptOverlay::render_poll,
            (overlay, screen, pwd, has_data_dir, has_session, toggles),
            r,
        ),
    ensures
        ({
            let before = old(overlay)@;
            let hash = screen@.hash(before.last_alt_hash);
            &&& final(overlay)@.last_alt_hash == hash
            &&& final(overlay)@.history_loaded == (before.history_loaded || pwd is Some
                && !has_data_dir)
            &&& effects(r.effects@) == (if hash == before.last_alt_hash {
                seq![EffectView::PollAfter { delay_ms: 80 }]
            } else {
                seq![EffectView::Notify, EffectView::PollAfter { delay_ms: 80 }]
            })
            &&& r.store is Some <==> !before.history_loaded && pwd is Some && has_data_dir
            &&& r.store matches Some(store) ==> store.max_entries == 200 && store.file_name@
                == hexadecimal(hash_of(pwd->0@) as nat, 16) + ".jsonl"@ && store.draft_name@
                == hexadecimal(hash_of(pwd->0@) as nat, 16) + ".draft"@
            &&& r.session is Some <==> !has_session && screen@.status().model is Some
            &&& r.session matches Some(session) ==> session.agent == CliAgent::ClaudeCode
                && session.status == SessionStatus::InProgress && session.input_state
                == InputState::Closed && session.should_auto_toggle_input == toggles
                && !session.has_listener && session.plugin_version is None
                && session.remote_host is None && session.draft_text is None
                && session.custom_command_prefix is None
        }),
{
    let before = old(overlay)@;
    law_looking(before, screen@);
    law_store_is_wanted_once(before, pwd is Some, has_data_dir);
    law_store_is_wanted_once(before.looked(screen@).0, pwd is Some, has_data_dir);
}

/// A session that is found: there is one exactly where the pane has none and the status names a
/// model, and it is in progress, closed and otherwise bare. The overlay is there for its own agent.
pub proof fn law_call_session(
    status: ParsedStatus,
    has_session: bool,
    toggles: bool,
    agent: Option<CliAgent>,
    r: Option<CliAgentSession>,
    active: bool,
)
    requires
        call_ensures(session_on_screen, (&status, has_session, toggles), r),
        call_ensures(is_claude_code_active, (agent,), active),
    ensures
        r is Some <==> !has_session && status.model is Some,
        r matches Some(session) ==> session.agent == CliAgent::ClaudeCode && session.status
            == SessionStatus::InProgress && session.input_state == InputState::Closed
            && session.should_auto_toggle_input == toggles && !session.has_listener
            && session.plugin_version is None && session.remote_host is None
            && session.draft_text is None && session.custom_command_prefix is None,
        active <==> agent is Some && agent->0 != CliAgent::Other,
{
    if let Some(a) = agent {
        assert(a == CliAgent::ClaudeCode || a == CliAgent::Other);
    }
}

/// A new overlay: shown, with an empty history and nothing on its way, without a popover, and with
/// the commands sorted by name, built-in ones before others of their names.
pub proof fn law_call_new(
    agent: AgentNames,
    user: Vec<CommandEntry>,
    plugin: Vec<CommandEntry>,
    r: ClaudePromptOverlay,
    i: int,
    j: int,
    name: Seq<char>,
)
    requires
        call_ensures(ClaudePromptOverlay::new, (&agent, user, plugin), r),
    ensures
        !r@.is_hidden && !r@.is_submitting && !r@.history_loaded,
        r@.history.len() == 0 && r@.history_state is LiveDraft && r@.last_sent is None,
        r@.popover is None && r@.history_store is None,
        r@.last_alt_hash == 0 && r@.draft_ticket == 0,
        r@.models == models(agent@),
        0 <= i < j < r@.commands.len() ==> lex_le(r@.commands[i].name, r@.commands[j].name),
        named(r@.commands, name) == (if has_name(slash_commands(agent@), name) {
            named(slash_commands(agent@), name)
        } else {
            named(entries(user@) + entries(plugin@), name)
        }),
{
    law_built_in_commands_win(agent@, entries(user@) + entries(plugin@), r@.commands, name);
}

/// The keys: Shift+Tab cycles the mode, Ctrl-G hides and shows.
pub proof fn law_call_init(r: Vec<KeyBinding>)
    requires
        call_ensures(init, (), r),
    ensures
        r@.len() == 2,
        exists|i: int|
            0 <= i < r@.len() && (#[trigger] r@[i]).keystroke@ == "shift-tab"@ && r@[i].action
                == ClaudePromptOverlayAction::CycleMode,
        exists|i: int|
            0 <= i < r@.len() && (#[trigger] r@[i]).keystroke@ == "ctrl-g"@ && r@[i].action
                == ClaudePromptOverlayAction::ToggleHide,
{
    assert(r@[0].action == ClaudePromptOverlayAction::CycleMode);
    assert(r@[1].action == ClaudePromptOverlayAction::ToggleHide);
}

/// The focus of the overlay goes on to its editor; a focus elsewhere changes nothing.
pub proof fn law_call_on_focus(overlay: ClaudePromptOverlay, is_self: bool, r: Vec<Effect>)
    requires
        call_ensures(ClaudePromptOverlay::on_focus, (&overlay, is_self), r),
    ensures
        is_self ==> effects(r@) == seq![EffectView::FocusEditor, EffectView::Notify],
        !is_self ==> r@.len() == 0,
{
    assert(effects(r@).len() == r@.len());
}

/// When a save has come due, what the user typed is saved, for the newest edit only and only where
/// there is a store.
pub proof fn law_call_draft_due(
    overlay: ClaudePromptOverlay,
    ticket: u64,
    buffer: &str,
    r: Vec<Effect>,
)
    requires
        call_ensures(ClaudePromptOverlay::draft_due, (&overlay, ticket, buffer), r),
    ensures
        ticket != overlay@.draft_ticket || overlay@.history_store is None ==> r@.len() == 0,
        ticket == overlay@.draft_ticket && overlay@.history_store is Some ==> effects(r@) == seq![
            EffectView::SaveDraft(
                match overlay@.history_state {
                    HistoryView::LiveDraft => buffer@,
                    HistoryView::Browsing { draft, .. } => draft,
                },
            ),
        ],
{
    assert(effects(r@).len() == r@.len());
}

/// What the store loads and saves.
pub proof fn law_call_store(
    store: HistoryStore,
    contents: Seq<u8>,
    entry: &str,
    line: String,
    kept: Vec<String>,
    text: String,
)
    requires
        call_ensures(HistoryStore::append, (&store, entry), line),
        call_ensures(HistoryStore::rewrite, (&store, &kept), text),
    ensures
        line@ == line_of(entry@),
        text@ == lines_of(views(kept@)),
        is_appendable(contents) ==> stored(contents + encode_utf8(line@)) == stored(contents).push(
            entry@,
        ),
        stored(encode_utf8(text@)) == views(kept@),
{
}

/// What is loaded is what the file holds, its newest entries and no more than the store keeps.
pub proof fn law_call_load(store: HistoryStore, bytes: &[u8], none: Vec<String>, r: Vec<String>)
    requires
        call_ensures(HistoryStore::load, (&store, None::<&[u8]>), none),
        call_ensures(HistoryStore::load, (&store, Some(bytes)), r),
    ensures
        none@.len() == 0,
        r@.len() <= store.max_entries,
        stored(bytes@).len() <= store.max_entries ==> views(r@) == stored(bytes@),
        stored(bytes@).len() > store.max_entries ==> r@.len() == store.max_entries && views(r@)
            == stored(bytes@).skip(stored(bytes@).len() - store.max_entries),
{
    assert(views(none@).len() == none@.len());
    assert(views(r@).len() == r@.len());
}

/// A draft that is saved is loaded again, unless it is empty; dropping a draft fails exactly where
/// the removal of its file did, with that failure.
pub proof fn law_call_drafts(
    store: HistoryStore,
    text: &str,
    saved: Vec<u8>,
    loaded: Option<String>,
    removal: Removal<u64>,
    dropped: Result<(), u64>,
)
    requires
        call_ensures(HistoryStore::save_draft, (&store, text), saved),
        call_ensures(HistoryStore::load_draft, (&store, Some(saved)), loaded),
        call_ensures(HistoryStore::clear_draft, (&store, removal), dropped),
    ensures
        text@.len() > 0 ==> (loaded matches Some(again) && again@ == text@),
        text@.len() == 0 ==> loaded is None,
        dropped is Err <==> removal is Failed,
        removal matches Removal::Failed(error) ==> dropped == Err::<(), u64>(error),
{
    crate::history_store::law_saved_draft_is_loaded(text@);
}

/// There is a store exactly where there is a directory for it, under the hash of the workspace.
pub proof fn law_call_for_workspace(
    key: &str,
    max: usize,
    has_data_dir: bool,
    r: Option<HistoryStore>,
)
    requires
        call_ensures(HistoryStore::for_workspace, (key, max, has_data_dir), r),
    ensures
        r is Some <==> has_data_dir,
        r matches Some(store) ==> store.max_entries == max && store.file_name@ == hexadecimal(
            hash_of(key@) as nat,
            16,
        ) + ".jsonl"@ && store.draft_name@ == hexadecimal(hash_of(key@) as nat, 16) + ".draft"@,
{
}

/// The agent's directories: the one that is named, else the one below the user's home; its name
/// there is a dot and the agent's.
pub proof fn law_call_directories(
    agent: AgentNames,
    name: String,
    named: Option<u64>,
    below_home: Option<u64>,
    r: Option<u64>,
)
    requires
        call_ensures(settings_dir_name, (&agent,), name),
        call_ensures(claude_home_dir::<u64>, (named, below_home), r),
    ensures
        name@ == seq!['.'] + agent@.slug,
        named is Some ==> r == named,
        named is None ==> r == below_home,
{
    reveal_strlit(".");
    assert("."@ =~= seq!['.']);
}

/// The commands that are discovered: the user's under no namespace, the plugins' under theirs, and
/// none of plugins without a manifest.
pub proof fn law_call_discovery(
    listing: Option<Vec<CommandFile>>,
    user: Vec<CommandEntry>,
    text: &str,
    listings: Vec<Option<Vec<CommandFile>>>,
    plugin: Vec<CommandEntry>,
    none: Vec<CommandEntry>,
)
    requires
        call_ensures(discover_user_commands, (&listing,), user),
        call_ensures(discover_plugin_commands, (Some(text), &listings), plugin),
        call_ensures(discover_plugin_commands, (None::<&str>, &listings), none),
    ensures
        entries(user@) == commands_in(None, listed(listing)),
        listing is None ==> user@.len() == 0,
        entries(plugin@) == plugin_commands(installs_of_text(text@), all_listed(listings@)),
        none@.len() == 0,
{
    assert(entries(user@).len() == user@.len());
    assert(entries(none@).len() == none@.len());
}

/// What the overlay draws and says.
pub proof fn law_call_drawing(
    overlay: ClaudePromptOverlay,
    screen: AltScreen,
    session: Option<SessionLabel>,
    palette: Palette,
    scene: Scene,
    row: Option<StatusRow>,
    agent: AgentNames,
    placeholder: String,
    progress: u8,
    bar: ProgressBar,
)
    requires
        call_ensures(ClaudePromptOverlay::render, (&overlay, &screen, &session, &palette), scene),
        call_ensures(render_status_chips, (&screen, &session, &palette), row),
        call_ensures(prompt_placeholder, (&agent,), placeholder),
        call_ensures(progress_bar_chip, (progress,), bar),
    ensures
        scene.shows(
            overlay@,
            screen@ is Active,
            screen@.status(),
            label_view(session),
            palette,
        ),
        overlay.is_hidden ==> scene is Pill,
        !overlay.is_hidden && screen@ is Active && screen@.status().menu_mode ==> scene is Nothing,
        !(screen@ is Active) && !overlay.is_hidden ==> scene is Prompt,
        is_row_for(row, screen@.status(), label_view(session), palette),
        session is None ==> row is None,
        placeholder@ == "Tell "@ + agent@.title + " what to do..."@,
        bar.filled_pct <= 100 && bar.filled_pct <= progress && (progress <= 100
            ==> bar.filled_pct == progress) && (progress > 100 ==> bar.filled_pct == 100),
{
}

/// An event of the editor leaves what the event means, for every event.
pub proof fn law_call_event(
    overlay: &mut ClaudePromptOverlay,
    event: EditorEvent,
    buffer: &str,
    screen: &AltScreen,
    r: Vec<Effect>,
)
    requires
        call_ensures(
            ClaudePromptOverlay::handle_editor_event,
            (overlay, event, buffer, screen),
            r,
        ),
    ensures
        (final(overlay)@, effects(r@)) == old(overlay)@.after_event(event, buffer@, screen@),
{
}

/// An action leaves what the action means, for every action.
pub proof fn law_call_action(
    overlay: &mut ClaudePromptOverlay,
    action: ClaudePromptOverlayAction,
    buffer: &str,
    screen: &AltScreen,
    r: Vec<Effect>,
)
    requires
        call_ensures(ClaudePromptOverlay::handle_action, (overlay, action, buffer, screen), r),
    ensures
        (final(overlay)@, effects(r@)) == old(overlay)@.after_action(action, buffer@, screen@),
{
}

} // verus!
