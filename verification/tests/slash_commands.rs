use cli_agent_prompt::agent::AgentNames;
use cli_agent_prompt::slash_commands::{
    all_commands, builtin_commands, builtin_models, detect_trigger, filter_entries, occurs_in_any,
    sort_by_name, CommandEntry, PopoverTrigger,
};

fn agent() -> AgentNames {
    AgentNames {
        title: "Agent".to_string(),
        slug: "agent".to_string(),
        memory_file: "AGENT.md".to_string(),
    }
}

#[test]
fn detects_slash_trigger() {
    assert_eq!(
        detect_trigger("/he"),
        Some(PopoverTrigger::Slash { query: "he".into() })
    );
    assert_eq!(
        detect_trigger("/"),
        Some(PopoverTrigger::Slash { query: "".into() })
    );
}

#[test]
fn detects_model_trigger() {
    assert_eq!(
        detect_trigger("/model "),
        Some(PopoverTrigger::Model { query: "".into() })
    );
    assert_eq!(
        detect_trigger("/model opus"),
        Some(PopoverTrigger::Model { query: "opus".into() })
    );
}

#[test]
fn no_trigger_for_plain_text() {
    assert_eq!(detect_trigger("hello"), None);
    assert_eq!(detect_trigger("/help and more"), None);
    assert_eq!(detect_trigger(""), None);
}

#[test]
fn filter_matches_name_and_desc() {
    let pool = builtin_commands(&agent());
    let r = filter_entries(&pool, "model");
    assert!(r.iter().any(|e| e.name == "/model"));

    let r = filter_entries(&pool, "memory");
    assert!(r.iter().any(|e| e.name == "/memory"));

    let r = filter_entries(&pool, "compact");
    assert!(r.iter().any(|e| e.name == "/compact"));
}

#[test]
fn filter_matches_alias() {
    let pool = builtin_commands(&agent());
    let r = filter_entries(&pool, "/reset");
    assert!(r.iter().any(|e| e.name == "/clear"));
}

fn entry(name: &str, desc: &str) -> CommandEntry {
    CommandEntry {
        name: name.to_string(),
        desc: desc.to_string(),
        aliases: Vec::new(),
    }
}

#[test]
fn triggers_are_ended_by_white_space() {
    assert_eq!(detect_trigger("/a\u{3000}b"), None);
    assert_eq!(detect_trigger("/he\n"), None);
    assert_eq!(detect_trigger("/model opus x"), None);
    assert_eq!(detect_trigger("/model\topus"), None);
    assert_eq!(detect_trigger(" /he"), None);
    assert_eq!(
        detect_trigger("/model"),
        Some(PopoverTrigger::Slash { query: "model".into() })
    );
    assert_eq!(
        detect_trigger("//"),
        Some(PopoverTrigger::Slash { query: "/".into() })
    );
}

#[test]
fn filter_ignores_case() {
    let pool = vec![entry("/Älpha", "First ONE"), entry("/beta", "second")];
    assert_eq!(filter_entries(&pool, "äLPHA"), vec![entry("/Älpha", "First ONE")]);
    assert_eq!(filter_entries(&pool, "one").len(), 1);
    assert_eq!(filter_entries(&pool, "S").len(), 2);
    assert_eq!(filter_entries(&pool, "zzz").len(), 0);
    assert_eq!(filter_entries(&pool, ""), pool);
    let aliases = vec!["/reset".to_string()];
    assert!(occurs_in_any("name", "desc", &aliases, "res"));
    assert!(!occurs_in_any("name", "desc", &aliases, "RES"));
}

#[test]
fn built_in_commands_win() {
    let user = vec![entry("/clear", "shadow"), entry("/zeta", "user"), entry("/alpha", "user")];
    let plugin = vec![entry("/alpha", "plugin"), entry("/help", "shadow")];
    let all = all_commands(&agent(), user, plugin);
    assert_eq!(all.len(), 33);
    let names: Vec<&str> = all.iter().map(|e| e.name.as_str()).collect();
    let mut sorted = names.clone();
    sorted.sort();
    assert_eq!(names, sorted);
    let clear: Vec<&CommandEntry> = all.iter().filter(|e| e.name == "/clear").collect();
    assert_eq!(clear.len(), 1);
    assert_eq!(clear[0].desc, "New conversation");
    assert_eq!(clear[0].aliases, vec!["/reset", "/new"]);
    let alpha: Vec<&str> =
        all.iter().filter(|e| e.name == "/alpha").map(|e| e.desc.as_str()).collect();
    assert_eq!(alpha, vec!["user", "plugin"]);
    assert_eq!(all.last().unwrap().name, "/zeta");
}

#[test]
fn sorting_keeps_the_order_of_equal_names() {
    let list = vec![entry("/b", "1"), entry("/a", "2"), entry("/b", "3"), entry("/a", "4")];
    let descs: Vec<String> = sort_by_name(list).into_iter().map(|e| e.desc).collect();
    assert_eq!(descs, vec!["2", "4", "1", "3"]);
}

#[test]
fn built_in_tables() {
    let commands = builtin_commands(&agent());
    assert_eq!(commands.len(), 30);
    assert_eq!(commands[0].aliases, vec!["/reset", "/new"]);
    assert_eq!(commands[20], entry("/init", "Initialize AGENT.md"));
    assert_eq!(commands[29], entry("/security-review", "Security review of pending changes"));
    let models = builtin_models(&agent());
    assert_eq!(models.len(), 11);
    assert_eq!(models[1], entry("opus", "Latest Agent Opus"));
    assert_eq!(models[5], entry("agent-opus-4-7", "Opus 4.7 — most capable"));
    assert_eq!(models[10], entry("agent-haiku-4-5", "Haiku 4.5 — fastest"));
}

#[test]
fn wider_queries_can_be_applied_first() {
    let pool = builtin_commands(&agent());
    for (wide, narrow) in [("RE", "review"), ("", "Mo"), ("mode", "MODEL"), ("", "")] {
        let direct = filter_entries(&pool, narrow);
        assert_eq!(filter_entries(&filter_entries(&pool, wide), narrow), direct);
        assert_eq!(filter_entries(&direct, narrow), direct);
        assert_eq!(filter_entries(&pool, &narrow.to_lowercase()), direct);
    }
}
