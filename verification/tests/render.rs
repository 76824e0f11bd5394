use cli_agent_prompt::agent::AgentNames;
use cli_agent_prompt::overlay::{
    ClaudePromptOverlay, ClaudePromptOverlayAction, EditOrigin, EditorEvent,
};
use cli_agent_prompt::render::{
    gated_row, mode_chip_colors, progress_bar_chip, prompt_placeholder, render_popover, render_status_chips,
    selection_colors, status_row, Color, Palette, Scene, SessionLabel,
};
use cli_agent_prompt::screen::AltScreen;
use cli_agent_prompt::session::{is_claude_code_active, session_on_screen, CliAgent};
use cli_agent_prompt::status_parser::{ModeKey, ParsedStatus};

fn color(n: u8) -> Color {
    Color { r: n, g: n, b: n, a: 255 }
}

fn palette() -> Palette {
    Palette {
        red: color(1),
        green: color(2),
        yellow: color(3),
        blue: color(4),
        magenta: color(5),
        text_sub: color(6),
        neutral_text: color(7),
        neutral_surface: color(8),
        neutral_sub: color(10),
        neutral_border: color(9),
    }
}

fn label() -> SessionLabel {
    SessionLabel { agent: "Agent".to_string(), plugin_version: Some("1.2".to_string()) }
}

fn agent() -> AgentNames {
    AgentNames {
        title: "Agent".to_string(),
        slug: "agent".to_string(),
        memory_file: "AGENT.md".to_string(),
    }
}

fn full_status() -> ParsedStatus {
    ParsedStatus {
        model: Some("Opus 4.7".to_string()),
        context_info: Some("1M context".to_string()),
        progress: Some(42),
        mode: Some("plan".to_string()),
        shells: Some(3),
        remote: true,
        focused: true,
        has_input_box: true,
        menu_mode: false,
    }
}

#[test]
fn opacities() {
    let c = Color { r: 10, g: 20, b: 30, a: 200 };
    assert_eq!(c.with_alpha(30), Color { r: 10, g: 20, b: 30, a: 76 });
    assert_eq!(c.with_alpha(90).a, 229);
    assert_eq!(c.with_alpha(20).a, 51);
    assert_eq!(c.with_alpha(60).a, 153);
    assert_eq!(c.with_alpha(0).a, 0);
    assert_eq!(c.with_alpha(100).a, 255);
    assert_eq!(c.with_alpha(255).a, 255);
    assert_eq!(c.sub_color(), Color { r: 10, g: 20, b: 30, a: 130 });
    assert_eq!(color(0).sub_color().a, 165);
}

#[test]
fn mode_colors() {
    let p = palette();
    assert_eq!(mode_chip_colors(ModeKey::Plan, &p).text, p.green);
    assert_eq!(mode_chip_colors(ModeKey::Auto, &p).text, p.yellow);
    assert_eq!(mode_chip_colors(ModeKey::Bypass, &p).text, p.red);
    assert_eq!(mode_chip_colors(ModeKey::Accept, &p).text, p.magenta);
    let default = mode_chip_colors(ModeKey::Default, &p);
    assert_eq!(default.text, p.text_sub);
    assert_eq!(default.surface.a, 76);
    assert_eq!(default.border.a, 229);
    let selected = selection_colors(&p);
    assert_eq!(selected.text, p.blue);
    assert_eq!(selected.surface.a, 51);
    assert_eq!(selected.border.a, 153);
}

#[test]
fn full_row_of_chips() {
    let row = status_row(&full_status(), &label(), &palette());
    let texts: Vec<&str> = row.chips.iter().map(|c| c.text.as_str()).collect();
    assert_eq!(texts, vec!["plan", "Opus 4.7", "3 shells", "remote", "focus"]);
    assert_eq!(row.chips[1].sub.as_deref(), Some("1M context"));
    assert_eq!(row.chips[0].colors.text, palette().green);
    assert_eq!(row.chips[1].colors.text, palette().neutral_text);
    assert_eq!(row.chips[1].colors.surface, palette().neutral_surface);
    assert_eq!(row.chips[1].sub_color.a, 165);
    assert_eq!(row.chips[2].colors.text, palette().blue);
    assert_eq!(row.chips[3].colors.text, palette().magenta);
    assert_eq!(row.chips[4].colors.text, palette().green);
    let bar = row.progress.unwrap();
    assert_eq!(bar.filled_pct, 42);
    assert_eq!(bar.label, "42%");
}

#[test]
fn agent_stands_in_for_the_model() {
    let row = status_row(&ParsedStatus::default(), &label(), &palette());
    assert_eq!(row.chips.len(), 1);
    assert_eq!(row.chips[0].text, "Agent");
    assert_eq!(row.chips[0].sub.as_deref(), Some("v1.2"));
    assert_eq!(row.progress, None);
    let mut status = full_status();
    status.shells = Some(1);
    status.mode = None;
    let row = status_row(&status, &label(), &palette());
    assert_eq!(row.chips[1].text, "1 shell");
}

#[test]
fn progress_bars_are_full_at_most() {
    assert_eq!(progress_bar_chip(100).filled_pct, 100);
    assert_eq!(progress_bar_chip(101).filled_pct, 100);
    assert_eq!(progress_bar_chip(101).label, "101%");
    assert_eq!(progress_bar_chip(0).label, "0%");
}

#[test]
fn chips_need_a_terminal_and_a_session() {
    let screen = AltScreen::Active { text: "[Opus 4.7]  14%".to_string() };
    let session = Some(label());
    assert!(render_status_chips(&AltScreen::Gone, &session, &palette()).is_none());
    assert!(render_status_chips(&screen, &None, &palette()).is_none());
    let row = render_status_chips(&screen, &session, &palette()).unwrap();
    assert_eq!(row.chips[0].text, "Opus 4.7");
    assert_eq!(row.progress.unwrap().label, "14%");
    // A status that says nothing has no row.
    assert!(render_status_chips(&AltScreen::Inactive, &session, &palette()).is_none());
    let quiet = AltScreen::Active { text: "$ ls".to_string() };
    assert!(render_status_chips(&quiet, &session, &palette()).is_none());
    assert!(gated_row(&ParsedStatus::default(), &session, &palette()).is_none());
    assert!(gated_row(&full_status(), &None, &palette()).is_none());
    assert_eq!(gated_row(&full_status(), &session, &palette()).unwrap().chips.len(), 5);
    let shells = AltScreen::Active { text: "2 shells".to_string() };
    let row = render_status_chips(&shells, &session, &palette()).unwrap();
    assert_eq!(row.chips[0].text, "Agent");
}

#[test]
fn scenes_of_an_overlay() {
    let mut o = ClaudePromptOverlay::new(&agent(), Vec::new(), Vec::new());
    let screen = AltScreen::Active { text: "[Opus 4.7]  14%".to_string() };
    let prompt = |o: &ClaudePromptOverlay| match o.render(&screen, &Some(label()), &palette()) {
        Scene::Prompt(prompt) => prompt,
        _ => panic!("hidden"),
    };
    let scene = prompt(&o);
    assert_eq!(scene.hint, "Enter ↵ send · Shift+Enter newline");
    assert_eq!(scene.popover, None);
    assert_eq!(scene.status.unwrap().chips[0].text, "Opus 4.7");
    o.handle_editor_event(
        EditorEvent::Edited(EditOrigin::UserInitiated),
        "/",
        &AltScreen::Inactive,
    );
    let scene = prompt(&o);
    assert_eq!(scene.hint, "Enter ↵ select & send · Tab complete · Esc close");
    assert_eq!(scene.popover.unwrap().header, "Slash commands  (1/30)");
    o.handle_send("hello", &AltScreen::Inactive);
    assert_eq!(prompt(&o).hint, "Submitting prompt...");
    assert_eq!(o.hint(), "Submitting prompt...");
    let unknown = o.render(&screen, &None, &palette());
    assert!(matches!(unknown, Scene::Prompt(p) if p.status.is_none()));
    assert_eq!(o.on_click().action, ClaudePromptOverlayAction::FocusEditor);
    assert!(!o.on_click().stops_propagation);
    o.toggle_hidden();
    assert_eq!(o.render(&screen, &Some(label()), &palette()), Scene::Pill);
    assert_eq!(o.on_click().action, ClaudePromptOverlayAction::ToggleHide);
    assert!(o.on_click().stops_propagation);
    assert_eq!(prompt_placeholder(&agent()), "Tell Agent what to do...");
}

#[test]
fn selected_rows_are_highlighted() {
    let mut o = ClaudePromptOverlay::new(&agent(), Vec::new(), Vec::new());
    o.recompute_popover("/");
    let scene = render_popover(o.popover.as_ref().unwrap(), &palette());
    assert_eq!(scene.rows.len(), 8);
    assert_eq!(scene.header_color, palette().neutral_sub);
    assert_eq!(scene.rows[0].name_color, palette().blue);
    assert_eq!(scene.rows[0].highlight, Some(selection_colors(&palette())));
    assert_eq!(scene.rows[1].name_color, palette().neutral_text);
    assert_eq!(scene.rows[1].desc_color, palette().neutral_sub);
    assert_eq!(scene.rows[1].highlight, None);
}

#[test]
fn overlay_is_for_one_agent() {
    assert!(is_claude_code_active(Some(CliAgent::ClaudeCode)));
    assert!(!is_claude_code_active(Some(CliAgent::Other)));
    assert!(!is_claude_code_active(None));
    assert!(session_on_screen(&full_status(), false, false).is_some());
    assert!(session_on_screen(&full_status(), true, false).is_none());
    assert!(session_on_screen(&ParsedStatus::default(), false, false).is_none());
}

#[test]
fn questions_are_not_covered() {
    let mut o = ClaudePromptOverlay::new(&agent(), Vec::new(), Vec::new());
    let session = Some(label());
    for text in ["Are you sure? (y/n)", "[Opus 4.7]\nResume session?", ""] {
        let screen = AltScreen::Active { text: text.to_string() };
        assert_eq!(o.render(&screen, &session, &palette()), Scene::Nothing, "{text}");
    }
    // A screen that is not active has nothing that could be covered.
    let inactive = o.render(&AltScreen::Inactive, &session, &palette());
    assert!(matches!(inactive, Scene::Prompt(p) if p.status.is_none()));
    assert_eq!(
        o.render_over(true, &ParsedStatus::default(), &session, &palette()),
        Scene::Nothing
    );
    let shown = o.render_over(true, &full_status(), &session, &palette());
    assert!(matches!(shown, Scene::Prompt(p) if p.status.is_some()));
    o.toggle_hidden();
    assert_eq!(
        o.render_over(true, &ParsedStatus::default(), &session, &palette()),
        Scene::Pill
    );
}
