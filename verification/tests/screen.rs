use cli_agent_prompt::hashing::text_hash;
use cli_agent_prompt::screen::{screen_tail, AltScreen};
use cli_agent_prompt::status_parser::ParsedStatus;

fn active(text: &str) -> AltScreen {
    AltScreen::Active { text: text.to_string() }
}

#[test]
fn banner_is_found_whatever_its_case() {
    assert!(active("Press Ctrl-C again to exit").detect_exit_banner());
    assert!(active("press ctrlc AGAIN").detect_exit_banner());
    assert!(!active("Press Ctrl-D again").detect_exit_banner());
    assert!(!active("").detect_exit_banner());
    assert!(!AltScreen::Inactive.detect_exit_banner());
    assert!(!AltScreen::Gone.detect_exit_banner());
}

#[test]
fn only_the_end_of_the_screen_is_searched() {
    let far = format!("Press Ctrl-C again{}", "x".repeat(1500));
    assert!(!active(&far).detect_exit_banner());
    let near = format!("{}Press Ctrl-C again{}", "x".repeat(3000), "y".repeat(1400));
    assert!(active(&near).detect_exit_banner());
    assert_eq!(screen_tail(&far), "x".repeat(1500));
    assert_eq!(screen_tail("short"), "short");
}

#[test]
fn tail_starts_with_a_whole_character() {
    let text = format!("{}Press Ctrl-C again to exit", "─".repeat(500));
    assert_eq!(text.len(), 1526);
    assert!(!text.is_char_boundary(26));
    assert_eq!(
        screen_tail(&text),
        format!("{}Press Ctrl-C again to exit", "─".repeat(491))
    );
    assert!(active(&text).detect_exit_banner());
    assert_eq!(screen_tail(&"─".repeat(501)), "─".repeat(500));
    assert_eq!(screen_tail(&format!("{}a", "─".repeat(500))), format!("{}a", "─".repeat(499)));
    assert_eq!(screen_tail(&"─".repeat(500)), "─".repeat(500));
}

#[test]
fn hashes_of_screens() {
    assert_eq!(AltScreen::Gone.read_alt_screen_hash(9), 9);
    assert_eq!(AltScreen::Inactive.read_alt_screen_hash(9), 0);
    assert_eq!(active("x").read_alt_screen_hash(9), text_hash("x"));
    assert_ne!(active("x").read_alt_screen_hash(9), active("y").read_alt_screen_hash(9));
}

#[test]
fn status_of_an_inactive_screen_is_blank() {
    assert_eq!(AltScreen::Inactive.read_parsed_status(), ParsedStatus::default());
    assert_eq!(AltScreen::Gone.read_parsed_status(), ParsedStatus::default());
    let status = active("[Opus 4.7]").read_parsed_status();
    assert_eq!(status.model.as_deref(), Some("Opus 4.7"));
}
