use cli_agent_prompt::popover::{recomputed_popover, PopoverKind, PopoverState};
use cli_agent_prompt::slash_commands::{CommandEntry, PopoverTrigger};

fn entry(name: &str) -> CommandEntry {
    CommandEntry {
        name: name.to_string(),
        desc: "d".to_string(),
        aliases: Vec::new(),
    }
}

fn popover(count: usize, selected: usize) -> PopoverState {
    PopoverState {
        kind: PopoverKind::Slash,
        query: String::new(),
        items: (0..count).map(|i| entry(&format!("/c{i}"))).collect(),
        selected,
    }
}

#[test]
fn trigger_opens_with_the_first_match_selected() {
    let commands = vec![entry("/clear"), entry("/compact"), entry("/help")];
    let models = vec![entry("opus")];
    let p = PopoverState::from_trigger(
        PopoverTrigger::Slash { query: "C".to_string() },
        &commands,
        &models,
    )
    .unwrap();
    assert_eq!(p.kind, PopoverKind::Slash);
    assert_eq!(p.query, "C");
    assert_eq!(p.selected, 0);
    assert_eq!(p.items, vec![entry("/clear"), entry("/compact")]);
    let m = PopoverState::from_trigger(
        PopoverTrigger::Model { query: "".to_string() },
        &commands,
        &models,
    )
    .unwrap();
    assert_eq!(m.kind, PopoverKind::Model);
    assert_eq!(m.items, models);
    let none = PopoverState::from_trigger(
        PopoverTrigger::Model { query: "zzz".to_string() },
        &commands,
        &models,
    );
    assert_eq!(none, None);
}

#[test]
fn selection_wraps_round_the_ends() {
    let mut p = popover(3, 0);
    p.move_selection(-1);
    assert_eq!(p.selected, 2);
    p.move_selection(1);
    assert_eq!(p.selected, 0);
    p.move_selection(7);
    assert_eq!(p.selected, 1);
    p.move_selection(-7);
    assert_eq!(p.selected, 0);
    p.move_selection(-9);
    assert_eq!(p.selected, 0);
    p.move_selection(2);
    p.move_selection(3);
    assert_eq!(p.selected, 2);
    let mut empty = popover(0, 0);
    empty.move_selection(i32::MIN);
    assert_eq!(empty.selected, 0);
}

#[test]
fn completions() {
    assert_eq!(popover(3, 1).completed_text().as_deref(), Some("/c1 "));
    assert_eq!(popover(3, 3).completed_text(), None);
    let mut p = popover(1, 0);
    p.items[0].name = "/model".to_string();
    assert_eq!(p.completed_text().as_deref(), Some("/model "));
    p.kind = PopoverKind::Model;
    p.items[0].name = "opus".to_string();
    assert_eq!(p.completed_text().as_deref(), Some("/model opus"));
}

#[test]
fn at_most_eight_rows_end_with_the_selection() {
    let rows = popover(20, 10).visible_rows();
    let names: Vec<&str> = rows.iter().map(|r| r.name.as_str()).collect();
    assert_eq!(names, vec!["/c3", "/c4", "/c5", "/c6", "/c7", "/c8", "/c9", "/c10"]);
    assert!(rows[7].is_selected);
    assert_eq!(rows.iter().filter(|r| r.is_selected).count(), 1);
    let rows = popover(20, 3).visible_rows();
    assert_eq!(rows.len(), 8);
    assert_eq!(rows[0].name, "/c0");
    assert!(rows[3].is_selected);
    assert_eq!(popover(8, 7).visible_rows().len(), 8);
    assert_eq!(popover(2, 1).visible_rows().len(), 2);
}

#[test]
fn rows_show_aliases() {
    let mut p = popover(1, 0);
    assert_eq!(p.visible_rows()[0].desc, "d");
    p.items[0].aliases = vec!["/reset".to_string(), "/new".to_string()];
    assert_eq!(p.visible_rows()[0].desc, "d  (/reset, /new)");
}

#[test]
fn headers_count_the_selection() {
    assert_eq!(popover(12, 9).header_text(), "Slash commands  (10/12)");
    let mut p = popover(1, 0);
    p.kind = PopoverKind::Model;
    assert_eq!(p.header_text(), "Models  (1/1)");
    assert_eq!(popover(0, 0).header_text(), "Slash commands  (1/1)");
    assert!(popover(0, 0).visible_rows().is_empty());
}

#[test]
fn selection_survives_a_new_query() {
    let commands = vec![entry("/alpha"), entry("/beta"), entry("/gamma")];
    let models = vec![entry("opus")];
    let mut p = recomputed_popover("/", &None, &commands, &models);
    assert_eq!(p.as_ref().unwrap().selected, 0);
    p.as_mut().unwrap().move_selection(2);
    let p = recomputed_popover("/ma", &p, &commands, &models);
    let p = p.unwrap();
    assert_eq!(p.items, vec![entry("/gamma")]);
    assert_eq!(p.selected, 0);
    let wider = recomputed_popover("/a", &Some(p), &commands, &models);
    assert_eq!(wider.as_ref().unwrap().items.len(), 3);
    assert_eq!(wider.as_ref().unwrap().selected, 2);
    let lost = recomputed_popover("/bet", &wider, &commands, &models);
    assert_eq!(lost.as_ref().unwrap().selected, 0);
    assert_eq!(recomputed_popover("/bet x", &lost, &commands, &models), None);
    assert_eq!(recomputed_popover("/zzz", &lost, &commands, &models), None);
    let model = recomputed_popover("/model ", &lost, &commands, &models);
    assert_eq!(model.unwrap().kind, PopoverKind::Model);
}
