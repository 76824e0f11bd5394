use cli_agent_prompt::status_parser::{
    assemble_status, footer_line, has_input_box, normalize_mode, parse_status, strip_mode_word,
    ModeKey, ParsedStatus, ScreenMatches,
};

#[test]
fn picks_last_model_when_multiple_in_text() {
    let text = "[Sonnet 4.6 (200k context)]  10%\nlater\n[Opus 4.7 (1M context)]  42%\n";
    let parsed = parse_status(text);
    assert_eq!(parsed.model.as_deref(), Some("Opus 4.7"));
    assert_eq!(parsed.context_info.as_deref(), Some("1M context"));
    assert_eq!(parsed.progress, Some(42));
}

#[test]
fn picks_last_mode_when_multiple_in_text() {
    let text = "auto mode on (shift+tab to cycle)\nlater\nplan mode on (shift+tab to cycle)\n";
    let parsed = parse_status(text);
    assert_eq!(parsed.mode.as_deref(), Some("plan"));
}

#[test]
fn extracts_shell_count() {
    assert_eq!(parse_status("auto mode on  · 1 shell").shells, Some(1));
    assert_eq!(parse_status("auto mode on  · 3 shells").shells, Some(3));
}

#[test]
fn detects_remote_control() {
    assert!(parse_status("[Opus 4.7]  14%        Remote Control active").remote);
    assert!(!parse_status("[Opus 4.7]  14%").remote);
}

#[test]
fn detects_input_box_borders() {
    let with_box = "\
╭───────────╮
│ > what's up │
╰───────────╯
[Opus 4.7]  0%";
    let parsed = parse_status(with_box);
    assert!(parsed.has_input_box);
    assert!(!parsed.is_question_mode());

    let without = "[Opus 4.7]  0%";
    assert!(!parse_status(without).has_input_box);
}

#[test]
fn detects_menu_screens() {
    let menu = "\
Resume session?
  - chat 1
  - chat 2
(2 of 2)";
    let parsed = parse_status(menu);
    assert!(parsed.menu_mode);
    assert!(parsed.is_question_mode());
}

#[test]
fn empty_screen_is_question_mode() {
    // No box, no model, no focus: looks like a confirmation prompt.
    assert!(parse_status("Are you sure? (y/n)").is_question_mode());
}

#[test]
fn empty_text_is_blank() {
    let parsed = parse_status("");
    assert_eq!(parsed, ParsedStatus::default());
    assert!(parsed.is_empty());
    assert!(parsed.is_question_mode());
}

#[test]
fn progress_is_read_off_the_footer_line() {
    assert_eq!(parse_status("77%\n[Opus 4.7]\n88%").progress, None);
    assert_eq!(parse_status("[Opus 4.7] 5% 100 %").progress, Some(100));
    assert_eq!(parse_status("[Opus 4.7] 101%").progress, None);
    assert_eq!(parse_status("[Opus 4.7] 5% then 999%").progress, None);
    assert_eq!(parse_status("50%").progress, None);
    assert_eq!(parse_status("é [Opus 4.7] ↵ 7%\r\n").progress, Some(7));
}

#[test]
fn model_without_context() {
    let parsed = parse_status("[Opus 4.7]");
    assert_eq!(parsed.model.as_deref(), Some("Opus 4.7"));
    assert_eq!(parsed.context_info, None);
    assert!(!parsed.is_empty());
    // The last footer wins, even where it has no context.
    let parsed = parse_status("[Opus 4.7 (1M context)]\n[Haiku 4.5]");
    assert_eq!(parsed.model.as_deref(), Some("Haiku 4.5"));
    assert_eq!(parsed.context_info, None);
    assert_eq!(parse_status("[lowercase]").model, None);
}

#[test]
fn modes_are_normalised() {
    let parsed = parse_status("Accept  Edits ON (shift+tab to cycle)");
    assert_eq!(parsed.mode.as_deref(), Some("accept edits"));
    assert_eq!(normalize_mode("  Plan \t Mode "), "plan");
    assert_eq!(normalize_mode("auto mode mode"), "auto");
    assert_eq!(normalize_mode("mode"), "mode");
    assert_eq!(strip_mode_word("a mode"), "a");
    assert_eq!(strip_mode_word("A MODE"), "A MODE");
}

#[test]
fn mode_keys() {
    assert_eq!(ModeKey::from_label("PLAN"), ModeKey::Plan);
    assert_eq!(ModeKey::from_label("auto-accept"), ModeKey::Auto);
    assert_eq!(ModeKey::from_label("Bypass permissions"), ModeKey::Bypass);
    assert_eq!(ModeKey::from_label("accept edits"), ModeKey::Accept);
    assert_eq!(ModeKey::from_label("normal"), ModeKey::Default);
    assert_eq!(ModeKey::from_lowercase_label("PLAN"), ModeKey::Default);
}

#[test]
fn last_shell_count_wins() {
    assert_eq!(parse_status("2 shells, 5 shells").shells, Some(5));
    assert_eq!(parse_status("4294967296 shells").shells, None);
    assert_eq!(parse_status("3 shellsort").shells, None);
    assert_eq!(parse_status("no shell").shells, None);
}

#[test]
fn focus_is_a_word_of_its_own() {
    assert!(parse_status("FOCUS").focused);
    assert!(!parse_status("focused").focused);
    assert!(!parse_status("focus").is_question_mode());
    assert!(!parse_status("focus").is_empty());
}

#[test]
fn menus() {
    for text in ["Select a model", "switch to main", "Choose:", "( 1 of 12 )"] {
        assert!(parse_status(text).menu_mode, "{text}");
    }
    assert!(!parse_status("selected").menu_mode);
    assert!(parse_status("[Opus 4.7] choose").is_question_mode());
}

#[test]
fn boxes_need_all_corners() {
    assert!(has_input_box("╭─╮\n╰─╯"));
    assert!(!has_input_box("╭─╮\n╰─"));
    assert!(!has_input_box("╭─\n╮\n╰─╯"));
    assert!(!has_input_box(""));
}

#[test]
fn borders_of_a_box_are_on_separate_lines() {
    assert!(!has_input_box("╭╮╰╯"));
    assert!(!parse_status("╭╮╰╯").has_input_box);
    assert!(parse_status("╭╮╰╯").is_question_mode());
    assert!(has_input_box("╭╮╰╯\n╭─╮"));
    assert!(has_input_box("╭╮╰╯\n╰─╯"));
    assert!(has_input_box("╭╮╰╯\n\n╭╮╰╯"));
    assert!(has_input_box("╰─╯\n╭─╮"));
    assert!(!has_input_box("╭─╮\n╭─╮"));
}

#[test]
fn text_above_the_last_footer_is_ignored() {
    let foot = "[Opus 4.7 (1M context)]  42%";
    let alone = parse_status(foot);
    for above in ["", "x", "[Sonnet 4.6]  10%", "[A", "é ─ ↵\n99%", "[[[", "3 shells ]"] {
        let parsed = parse_status(&format!("{above}\n{foot}"));
        assert_eq!(parsed.model.as_deref(), Some("Opus 4.7"), "{above}");
        assert_eq!(parsed.context_info.as_deref(), Some("1M context"), "{above}");
        assert_eq!(parsed.progress, Some(42), "{above}");
        assert_eq!(parsed.model, alone.model);
    }
}

#[test]
fn statuses_can_be_copied() {
    let parsed = parse_status("[Opus 4.7 (1M context)]  42%\nplan mode on (tab to cycle)");
    assert_eq!(parsed.clone(), parsed);
}

#[test]
fn status_is_assembled_from_matches() {
    let text = "x [Opus] 9% plan on 2 shells";
    let found = ScreenMatches {
        models: vec![vec![Some((2, 8)), Some((3, 7)), None]],
        modes: vec![vec![Some((12, 19)), Some((12, 16))]],
        shells: vec![vec![Some((20, 28)), Some((20, 21))]],
        remote: true,
        focused: false,
        menu: true,
    };
    assert_eq!(
        footer_line(text, &found.models).as_deref(),
        Some("[Opus] 9% plan on 2 shells")
    );
    let status = assemble_status(
        text,
        &found,
        "[Opus] 9%",
        &vec![vec![Some((7, 9)), Some((7, 8))]],
    );
    assert_eq!(
        status,
        ParsedStatus {
            model: Some("Opus".to_string()),
            context_info: None,
            progress: Some(9),
            mode: Some("plan".to_string()),
            shells: Some(2),
            remote: true,
            focused: false,
            has_input_box: false,
            menu_mode: true,
        }
    );
}
