use cli_agent_prompt::agent::AgentNames;
use cli_agent_prompt::history_store::HistoryStore;
use cli_agent_prompt::overlay::{
    init, maybe_register_claude_from_alt_screen, ClaudePromptOverlay, ClaudePromptOverlayAction,
    ClaudePromptOverlayEvent, EditOrigin, EditorEvent, Effect, HistoryState, NavigationKey,
    HISTORY_MAX, RENDER_POLL_MS, SUBMIT_PRECLEAR_DELAY_MS,
};
use cli_agent_prompt::popover::PopoverKind;
use cli_agent_prompt::screen::AltScreen;
use cli_agent_prompt::session::{CliAgent, InputState, SessionStatus};
use cli_agent_prompt::slash_commands::CommandEntry;

fn agent() -> AgentNames {
    AgentNames {
        title: "Agent".to_string(),
        slug: "agent".to_string(),
        memory_file: "AGENT.md".to_string(),
    }
}

fn overlay() -> ClaudePromptOverlay {
    ClaudePromptOverlay::new(&agent(), Vec::new(), Vec::new())
}

fn stored_overlay() -> ClaudePromptOverlay {
    let mut o = overlay();
    let store = o.try_init_history(Some("/work"), true).unwrap();
    assert!(o.install_history(store, None, None, "").is_empty());
    o
}

fn active(text: &str) -> AltScreen {
    AltScreen::Active { text: text.to_string() }
}

fn raw(bytes: &[u8]) -> Effect {
    Effect::Emit(ClaudePromptOverlayEvent::WriteRaw { bytes: bytes.to_vec() })
}

fn submit_after(text: &str) -> Effect {
    Effect::SubmitAfter { delay_ms: SUBMIT_PRECLEAR_DELAY_MS, text: text.to_string() }
}

fn reset(text: &str) -> Effect {
    Effect::ResetBuffer(text.to_string())
}

fn send(o: &mut ClaudePromptOverlay, text: &str) -> Vec<Effect> {
    let out = o.handle_send(text, &AltScreen::Inactive);
    let mut expected = vec![Effect::Emit(ClaudePromptOverlayEvent::Submit {
        text: text.to_string(),
    })];
    if o.history_store.is_some() {
        expected.push(Effect::ClearDraft);
    }
    expected.push(Effect::Notify);
    assert_eq!(o.finish_submit(text.to_string()), expected);
    out
}

fn up(o: &mut ClaudePromptOverlay, buffer: &str) -> Vec<Effect> {
    let event = EditorEvent::Navigate(NavigationKey::Up);
    assert!(o.accepts_event(event));
    o.handle_editor_event(event, buffer, &AltScreen::Inactive)
}

fn down(o: &mut ClaudePromptOverlay) -> Vec<Effect> {
    o.handle_editor_event(
        EditorEvent::Navigate(NavigationKey::Down),
        "",
        &AltScreen::Inactive,
    )
}

fn typed(o: &mut ClaudePromptOverlay, buffer: &str) -> Vec<Effect> {
    o.handle_editor_event(
        EditorEvent::Edited(EditOrigin::UserTyped),
        buffer,
        &AltScreen::Inactive,
    )
}

/// The history file after the effects.
fn apply(file: &mut Vec<u8>, effects: &[Effect]) {
    for effect in effects {
        match effect {
            Effect::AppendHistory(line) => file.extend_from_slice(line.as_bytes()),
            Effect::RewriteHistory(text) => *file = text.as_bytes().to_vec(),
            _ => {}
        }
    }
}

#[test]
fn starts_empty() {
    let user = CommandEntry {
        name: "/aaa".to_string(),
        desc: "User command".to_string(),
        aliases: Vec::new(),
    };
    let o = ClaudePromptOverlay::new(&agent(), vec![user], Vec::new());
    assert_eq!(o.commands.len(), 31);
    assert_eq!(o.commands[0].name, "/aaa");
    assert_eq!(o.models.len(), 11);
    assert!(o.history.is_empty());
    assert!(!o.is_hidden && !o.is_submitting && !o.history_loaded);
    assert_eq!(o.history_state, HistoryState::LiveDraft);
    assert_eq!(o.popover, None);
    assert_eq!(o.last_sent, None);
    assert_eq!(o.last_alt_hash, 0);
}

#[test]
fn sending_clears_the_input_first() {
    let mut o = overlay();
    let out = o.handle_editor_event(EditorEvent::Enter, "hello", &AltScreen::Inactive);
    assert_eq!(
        out,
        vec![Effect::ClearBuffer, raw(&[0x03]), Effect::Notify, submit_after("hello")]
    );
    assert!(o.is_submitting);
    assert_eq!(o.history, vec!["hello"]);
    assert_eq!(o.last_sent.as_deref(), Some("hello"));
    // Enter again while the prompt is on its way.
    let again = o.handle_editor_event(EditorEvent::Enter, "more", &AltScreen::Inactive);
    assert!(again.is_empty());
    o.finish_submit("hello".to_string());
    assert!(!o.is_submitting);
}

#[test]
fn exit_banner_turns_ctrl_c_into_ctrl_u() {
    let mut o = overlay();
    let out = o.handle_send("hello", &active("Press Ctrl-C again to exit"));
    assert_eq!(out[1], raw(&[0x15]));
    let mut o = overlay();
    let out = o.handle_send("hello", &active("all quiet"));
    assert_eq!(out[1], raw(&[0x03]));
    let mut o = overlay();
    assert_eq!(o.submit("x", true)[0], raw(&[0x15]));
    assert_eq!(overlay().submit("x", false)[0], raw(&[0x03]));
}

#[test]
fn blank_prompts_are_dropped() {
    let mut o = overlay();
    let out = o.handle_send(" \n\t", &active("x"));
    assert_eq!(out, vec![Effect::ClearBuffer]);
    assert!(o.history.is_empty());
    assert!(!o.is_submitting);
}

#[test]
fn banner_is_seen_below_a_cut_character() {
    // The byte 1500 from the end is inside a character of three bytes.
    let text = format!("{}Press Ctrl-C again to exit", "─".repeat(500));
    let out = overlay().handle_send("hello", &active(&text));
    assert_eq!(out[1], raw(&[0x15]));
    let out = overlay().handle_send("hello", &active(&format!("─{}", "a".repeat(1498))));
    assert_eq!(out[1], raw(&[0x03]));
}

#[test]
fn actions() {
    let mut o = overlay();
    let screen = AltScreen::Inactive;
    assert_eq!(
        o.handle_action(ClaudePromptOverlayAction::Interrupt, "", &screen),
        vec![raw(&[0x03])]
    );
    assert_eq!(
        o.handle_action(ClaudePromptOverlayAction::CycleMode, "", &screen),
        vec![raw(&[0x1b, b'[', b'Z'])]
    );
    assert_eq!(
        o.handle_action(ClaudePromptOverlayAction::FocusEditor, "", &screen),
        vec![Effect::FocusEditor]
    );
    assert_eq!(
        o.handle_action(ClaudePromptOverlayAction::ToggleHide, "", &screen),
        vec![Effect::Notify]
    );
    assert!(o.is_hidden);
    assert_eq!(o.toggle_hidden(), vec![Effect::Notify]);
    assert!(!o.is_hidden);
    let out = o.handle_action(ClaudePromptOverlayAction::Send, "go", &screen);
    assert_eq!(out.last(), Some(&submit_after("go")));
}

#[test]
fn key_bindings() {
    let table = init();
    assert_eq!(table.len(), 2);
    assert_eq!(table[0].keystroke, "shift-tab");
    assert_eq!(table[0].action, ClaudePromptOverlayAction::CycleMode);
    assert_eq!(table[1].keystroke, "ctrl-g");
    assert_eq!(table[1].action, ClaudePromptOverlayAction::ToggleHide);
}

#[test]
fn tab_and_shift_tab() {
    let mut o = overlay();
    let screen = AltScreen::Inactive;
    assert_eq!(
        o.handle_editor_event(EditorEvent::Navigate(NavigationKey::Tab), "", &screen),
        vec![Effect::Emit(ClaudePromptOverlayEvent::FocusTerminal)]
    );
    assert_eq!(
        o.handle_editor_event(EditorEvent::Navigate(NavigationKey::ShiftTab), "", &screen),
        vec![raw(&[0x1b, 0x5b, 0x5a])]
    );
    assert!(o
        .handle_editor_event(EditorEvent::Navigate(NavigationKey::Other), "", &screen)
        .is_empty());
    assert!(o.handle_editor_event(EditorEvent::Other, "", &screen).is_empty());
}

#[test]
fn escape_interrupts_and_restores() {
    let mut o = overlay();
    assert_eq!(o.handle_escape(""), vec![raw(&[0x03])]);
    send(&mut o, "my prompt");
    let out = o.handle_editor_event(EditorEvent::Escape, "  ", &AltScreen::Inactive);
    assert_eq!(out, vec![raw(&[0x03]), reset("my prompt")]);
    let out = o.handle_editor_event(EditorEvent::Escape, "typing", &AltScreen::Inactive);
    assert_eq!(out, vec![raw(&[0x03])]);
}

#[test]
fn popover_takes_the_keys() {
    let mut o = overlay();
    let screen = AltScreen::Inactive;
    assert_eq!(
        typed(&mut o, "/mo"),
        vec![Effect::Notify, Effect::SaveDraftAfter { delay_ms: 500, ticket: 1 }]
    );
    let names = |o: &ClaudePromptOverlay| -> Vec<String> {
        o.popover.as_ref().unwrap().items.iter().map(|e| e.name.clone()).collect()
    };
    assert!(names(&o).contains(&"/model".to_string()));
    assert_eq!(up(&mut o, "/mo"), vec![Effect::Notify]);
    let count = names(&o).len();
    assert_eq!(o.popover.as_ref().unwrap().selected, count - 1);
    assert_eq!(down(&mut o), vec![Effect::Notify]);
    assert_eq!(o.popover.as_ref().unwrap().selected, 0);
    let out = o.handle_editor_event(EditorEvent::Escape, "/mo", &screen);
    assert_eq!(out, vec![Effect::Notify]);
    assert_eq!(o.popover, None);
}

#[test]
fn completing_model_chains_to_models() {
    let mut o = overlay();
    let screen = AltScreen::Inactive;
    typed(&mut o, "/model");
    assert_eq!(o.popover.as_ref().unwrap().items[0].name, "/model");
    let out = o.handle_editor_event(EditorEvent::Enter, "/model", &screen);
    assert_eq!(out, vec![Effect::SetBuffer("/model ".to_string()), Effect::Notify]);
    let p = o.popover.as_ref().unwrap();
    assert_eq!(p.kind, PopoverKind::Model);
    assert_eq!(p.items, o.models);
    down(&mut o);
    let out = o.handle_editor_event(
        EditorEvent::Navigate(NavigationKey::Tab),
        "/model ",
        &screen,
    );
    assert_eq!(out, vec![Effect::SetBuffer("/model opus".to_string()), Effect::Notify]);
    assert_eq!(o.popover.as_ref().unwrap().completed_text().as_deref(), Some("/model opus"));
}

#[test]
fn completing_another_command_closes_the_popover() {
    let mut o = overlay();
    typed(&mut o, "/hel");
    let out = o.popover_complete();
    assert_eq!(out, vec![Effect::SetBuffer("/help ".to_string()), Effect::Notify]);
    assert_eq!(o.popover, None);
    assert!(o.popover_complete().is_empty());
}

#[test]
fn history_is_walked_and_the_draft_restored() {
    let mut o = overlay();
    for text in ["one", "two", "three"] {
        send(&mut o, text);
    }
    assert_eq!(up(&mut o, "draft"), vec![reset("three")]);
    assert_eq!(up(&mut o, "three"), vec![reset("two")]);
    assert_eq!(up(&mut o, "two"), vec![reset("one")]);
    assert!(up(&mut o, "one").is_empty());
    assert_eq!(down(&mut o), vec![reset("two")]);
    assert_eq!(down(&mut o), vec![reset("three")]);
    assert_eq!(down(&mut o), vec![reset("draft")]);
    assert_eq!(o.history_state, HistoryState::LiveDraft);
    assert!(down(&mut o).is_empty());
}

#[test]
fn editing_leaves_the_history() {
    let mut o = overlay();
    assert!(up(&mut o, "draft").is_empty());
    send(&mut o, "one");
    up(&mut o, "draft");
    let out = o.handle_editor_event(
        EditorEvent::Edited(EditOrigin::System),
        "one",
        &AltScreen::Inactive,
    );
    assert!(out.is_empty());
    assert_eq!(
        o.history_state,
        HistoryState::Browsing { idx: 0, draft: "draft".to_string() }
    );
    typed(&mut o, "one!");
    assert_eq!(o.history_state, HistoryState::LiveDraft);
    assert_eq!(up(&mut o, "one!"), vec![reset("one")]);
    assert_eq!(down(&mut o), vec![reset("one!")]);
}

#[test]
fn a_shorter_history_can_put_a_step_back_out_of_reach() {
    let mut o = overlay();
    for text in ["one", "two", "three"] {
        send(&mut o, text);
    }
    up(&mut o, "");
    assert!(o.can_go_back());
    let store = o.try_init_history(Some("/work"), true).unwrap();
    o.install_history(store, Some(b"{\"text\":\"only\"}\n"), None, "three");
    assert_eq!(o.history, vec!["only"]);
    assert!(!o.can_go_back());
    assert!(!o.accepts_event(EditorEvent::Navigate(NavigationKey::Up)));
    assert!(o.accepts_event(EditorEvent::Enter));
    assert_eq!(down(&mut o), vec![reset("")]);
    assert!(o.can_go_back());
}

#[test]
fn repeated_prompts_are_kept_once() {
    let mut o = stored_overlay();
    assert_eq!(
        o.push_history("a"),
        vec![Effect::AppendHistory("{\"text\":\"a\",\"v\":1}\n".to_string())]
    );
    assert!(o.push_history("a").is_empty());
    o.push_history("b");
    o.push_history("a");
    assert_eq!(o.history, vec!["a", "b", "a"]);
}

#[test]
fn history_and_its_file_stay_bounded_and_alike() {
    let mut o = stored_overlay();
    let mut file: Vec<u8> = Vec::new();
    for i in 0..HISTORY_MAX + 5 {
        let text = format!("prompt {i}\nwith a second line");
        let out = send(&mut o, &text);
        apply(&mut file, &out);
        assert!(o.history.len() <= HISTORY_MAX);
        let rewritten = out.iter().any(|e| matches!(e, Effect::RewriteHistory(_)));
        assert_eq!(rewritten, i >= HISTORY_MAX);
        let store = HistoryStore::for_hash(0, HISTORY_MAX);
        assert_eq!(store.load(Some(&file)), o.history);
    }
    assert_eq!(o.history[0], "prompt 5\nwith a second line");
    assert_eq!(o.history.len(), HISTORY_MAX);
}

#[test]
fn without_a_store_nothing_is_written() {
    let mut o = overlay();
    let out = o.push_history("a");
    assert!(out.is_empty());
    assert_eq!(o.history, vec!["a"]);
}

#[test]
fn history_is_loaded_once_the_workspace_is_known() {
    let mut o = overlay();
    assert!(o.try_init_history(None, true).is_none());
    assert!(!o.history_loaded);
    let store = o.try_init_history(Some("/work"), true).unwrap();
    assert_eq!(
        store.file_name,
        HistoryStore::for_workspace("/work", HISTORY_MAX, true).unwrap().file_name
    );
    o.install_history(store, Some(b"{\"text\":\"old\"}\n"), None, "");
    assert_eq!(o.history, vec!["old"]);
    assert!(o.history_loaded);
    assert!(o.try_init_history(Some("/work"), true).is_none());
    let mut o = overlay();
    assert!(o.try_init_history(Some("/work"), false).is_none());
    assert!(o.history_loaded && o.history_store.is_none());
}

#[test]
fn polling_notices_changes() {
    let mut o = overlay();
    let poll_again = Effect::PollAfter { delay_ms: RENDER_POLL_MS };
    let poll = o.render_poll(&active("hello"), None, true, false, true);
    assert_eq!(poll.effects, vec![Effect::Notify, poll_again]);
    assert!(poll.store.is_none() && poll.session.is_none());
    let poll = o.render_poll(&active("hello"), Some("/work"), true, false, true);
    assert_eq!(poll.effects, vec![Effect::PollAfter { delay_ms: 80 }]);
    assert!(poll.store.is_some());
    let poll = o.render_poll(&AltScreen::Gone, None, true, false, true);
    assert_eq!(poll.effects.len(), 1);
    let poll = o.render_poll(&AltScreen::Inactive, None, true, false, true);
    assert_eq!(poll.effects.len(), 2);
    assert_eq!(o.last_alt_hash, 0);
}

#[test]
fn agent_on_the_screen_gets_a_session() {
    let screen = active("[Opus 4.7 (1M context)]  42%");
    let session = maybe_register_claude_from_alt_screen(&screen, false, true).unwrap();
    assert_eq!(session.agent, CliAgent::ClaudeCode);
    assert_eq!(session.status, SessionStatus::InProgress);
    assert_eq!(session.input_state, InputState::Closed);
    assert!(session.should_auto_toggle_input && !session.has_listener);
    assert_eq!(session.plugin_version, None);
    assert!(maybe_register_claude_from_alt_screen(&screen, true, true).is_none());
    assert!(maybe_register_claude_from_alt_screen(&active("$ ls"), false, true).is_none());
    assert!(maybe_register_claude_from_alt_screen(&AltScreen::Gone, false, true).is_none());
    let mut o = overlay();
    let poll = o.render_poll(&screen, None, true, false, false);
    assert!(!poll.session.unwrap().should_auto_toggle_input);
}

#[test]
fn focus_goes_to_the_editor() {
    let o = overlay();
    assert_eq!(o.on_focus(true), vec![Effect::FocusEditor, Effect::Notify]);
    assert!(o.on_focus(false).is_empty());
}

#[test]
fn drafts_are_saved_when_the_edits_rest() {
    let mut o = stored_overlay();
    assert_eq!(
        typed(&mut o, "he").last(),
        Some(&Effect::SaveDraftAfter { delay_ms: 500, ticket: 1 })
    );
    assert_eq!(
        typed(&mut o, "hello").last(),
        Some(&Effect::SaveDraftAfter { delay_ms: 500, ticket: 2 })
    );
    assert!(o.draft_due(1, "hello").is_empty());
    assert_eq!(o.draft_due(2, "hello"), vec![Effect::SaveDraft("hello".to_string())]);
    // Without a workspace there is no file.
    let mut o = overlay();
    typed(&mut o, "hello");
    assert!(o.draft_due(1, "hello").is_empty());
}

#[test]
fn drafts_are_what_the_user_typed() {
    let mut o = stored_overlay();
    send(&mut o, "old prompt");
    typed(&mut o, "draft");
    up(&mut o, "draft");
    assert_eq!(o.draft_due(2, "old prompt"), vec![Effect::SaveDraft("draft".to_string())]);
}

#[test]
fn submitted_prompts_leave_no_draft() {
    let mut o = stored_overlay();
    typed(&mut o, "hello");
    o.handle_send("hello", &AltScreen::Inactive);
    assert!(o.draft_due(1, "").is_empty());
    assert_eq!(
        o.finish_submit("hello".to_string()),
        vec![
            Effect::Emit(ClaudePromptOverlayEvent::Submit { text: "hello".to_string() }),
            Effect::ClearDraft,
            Effect::Notify,
        ]
    );
    let mut o = overlay();
    o.handle_send("hello", &AltScreen::Inactive);
    assert!(!o.finish_submit("hello".to_string()).contains(&Effect::ClearDraft));
}

#[test]
fn saved_drafts_come_back_at_the_start() {
    let saved = || Some(b"half a thought".to_vec());
    let mut o = overlay();
    let store = o.try_init_history(Some("/work"), true).unwrap();
    assert_eq!(o.install_history(store, None, saved(), " "), vec![reset("half a thought")]);
    // What the user has already typed stays.
    let mut o = overlay();
    let store = o.try_init_history(Some("/work"), true).unwrap();
    assert!(o.install_history(store, None, saved(), "typed").is_empty());
    // Nothing comes of an empty or broken file.
    for broken in [Some(Vec::new()), Some(vec![0xff]), None] {
        let mut o = overlay();
        let store = o.try_init_history(Some("/work"), true).unwrap();
        assert!(o.install_history(store, None, broken, "").is_empty());
    }
}
