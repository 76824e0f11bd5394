use cli_agent_prompt::agent::AgentNames;
use cli_agent_prompt::dynamic_commands::{
    claude_home_dir, command_stem, commands_of_installs, discover_commands_in_dir,
    discover_plugin_commands, discover_user_commands, manifest_installs, plugin_installs,
    plugin_namespace, read_description, settings_dir_name, CommandFile, PluginInstall,
    PLUGIN_COMMAND_DESC, USER_COMMAND_DESC,
};

fn file(name: &str, text: &str) -> CommandFile {
    CommandFile {
        name: Some(name.to_string()),
        text: Some(text.to_string()),
    }
}

fn install(namespace: &str, install_path: &str) -> PluginInstall {
    PluginInstall {
        namespace: namespace.to_string(),
        install_path: install_path.to_string(),
    }
}

#[test]
fn parses_frontmatter_description() {
    let text = "---\ndescription: Do the foo thing\nallowed-tools: Read\n---\nbody\n";
    assert_eq!(
        read_description(text).as_deref(),
        Some("Do the foo thing")
    );
}

#[test]
fn discovers_user_commands_in_dir() {
    let dir = Some(vec![
        file("alpha.md", "---\ndescription: Alpha\n---\n\n"),
        file("beta.md", "no frontmatter\n"),
    ]);
    let mut got = discover_commands_in_dir(&dir, None);
    got.sort_by(|a, b| a.name.cmp(&b.name));
    assert_eq!(got.len(), 2);
    assert_eq!(got[0].name, "/alpha");
    assert_eq!(got[0].desc, "Alpha");
    assert_eq!(got[1].name, "/beta");
    assert_eq!(got[1].desc, USER_COMMAND_DESC);
}

#[test]
fn ignores_non_markdown_files() {
    let dir = Some(vec![file("x.txt", ""), file("y.json", "")]);
    assert!(discover_commands_in_dir(&dir, None).is_empty());
}

#[test]
fn plugin_commands_carry_their_namespace() {
    let dir = Some(vec![
        file("setup.md", "---\ndescription: Set it up\n---\n"),
        file("bare.md", ""),
    ]);
    let got = discover_commands_in_dir(&dir, Some("agent-hud"));
    assert_eq!(got.len(), 2);
    assert_eq!(got[0].name, "/agent-hud:setup");
    assert_eq!(got[0].desc, "Set it up");
    assert!(got[0].aliases.is_empty());
    assert_eq!(got[1].name, "/agent-hud:bare");
    assert_eq!(got[1].desc, PLUGIN_COMMAND_DESC);
}

#[test]
fn unreadable_directories_and_files() {
    assert!(discover_user_commands(&None).is_empty());
    let dir = Some(vec![
        CommandFile { name: None, text: Some("---\ndescription: x\n---".to_string()) },
        CommandFile { name: Some("a.md".to_string()), text: None },
    ]);
    let got = discover_user_commands(&dir);
    assert_eq!(got.len(), 1);
    assert_eq!(got[0].name, "/a");
    assert_eq!(got[0].desc, "User command");
}

#[test]
fn stems_of_markdown_files() {
    assert_eq!(command_stem("foo.md").as_deref(), Some("foo"));
    assert_eq!(command_stem("a.b.md").as_deref(), Some("a.b"));
    assert_eq!(command_stem("é.md").as_deref(), Some("é"));
    assert_eq!(command_stem("..md").as_deref(), Some("."));
    assert_eq!(command_stem(".md"), None);
    assert_eq!(command_stem("md"), None);
    assert_eq!(command_stem("foo.MD"), None);
    assert_eq!(command_stem("foo.mdx"), None);
    assert_eq!(command_stem("foo.md."), None);
    assert_eq!(command_stem(""), None);
    for name in ["foo.md", "a.b.md", "..md", ".md", "md", "foo.MD", "foo.md.", "foo", ".."] {
        let path = std::path::Path::new(name);
        let expected = if path.extension().map(|e| e == "md").unwrap_or(false) {
            path.file_stem().and_then(|s| s.to_str()).map(|s| s.to_string())
        } else {
            None
        };
        assert_eq!(command_stem(name), expected, "{name}");
    }
}

#[test]
fn descriptions_are_trimmed_and_unquoted() {
    assert_eq!(
        read_description("---\ndescription:   \"Quoted 'text'\"  \n---").as_deref(),
        Some("Quoted 'text")
    );
    assert_eq!(
        read_description("---\r\ndescription: crlf\r\n---\r\n").as_deref(),
        Some("crlf")
    );
    assert_eq!(
        read_description("---\ndescription: \"\"\ndescription: second\n").as_deref(),
        Some("second")
    );
    assert_eq!(read_description("---\ntitle: x\n---\ndescription: late\n"), None);
    assert_eq!(read_description("---\n description: indented\n---\n"), None);
    assert_eq!(read_description("--- \ndescription: x\n"), None);
    assert_eq!(read_description("description: x\n"), None);
    assert_eq!(read_description("---"), None);
    assert_eq!(read_description(""), None);
    assert_eq!(
        read_description("---\ndescription: open block").as_deref(),
        Some("open block")
    );
}

#[test]
fn namespaces_end_at_the_first_at_sign() {
    assert_eq!(plugin_namespace("hud@market"), "hud");
    assert_eq!(plugin_namespace("hud@a@b"), "hud");
    assert_eq!(plugin_namespace("hud"), "hud");
    assert_eq!(plugin_namespace("@market"), "");
    assert_eq!(plugin_namespace(""), "");
}

#[test]
fn manifest_lists_installs() {
    let text = "{\"plugins\":{\"zed@m\":[{\"installPath\":\"/z1\"},{\"path\":\"x\"},{\"installPath\":3},{\"installPath\":\"/z2\"}],\"alpha\":[{\"installPath\":\"/a\"}],\"odd@m\":{\"installPath\":\"/o\"}}}";
    let expected = vec![install("alpha", "/a"), install("zed", "/z1"), install("zed", "/z2")];
    assert_eq!(plugin_installs(text), expected);
    let value: serde_json::Value = serde_json::from_str(text).unwrap();
    assert_eq!(manifest_installs(&value), expected);
}

#[test]
fn broken_manifests_list_nothing() {
    assert!(plugin_installs("").is_empty());
    assert!(plugin_installs("{").is_empty());
    assert!(plugin_installs("[]").is_empty());
    assert!(plugin_installs("{}").is_empty());
    assert!(plugin_installs("{\"plugins\":[]}").is_empty());
    assert!(plugin_installs("{\"plugins\":{\"a\":null}}").is_empty());
}

#[test]
fn plugin_commands_follow_the_manifest() {
    let text = "{\"plugins\":{\"b@m\":[{\"installPath\":\"/b\"}],\"a@m\":[{\"installPath\":\"/a\"}]}}";
    let listings = vec![
        Some(vec![file("one.md", "")]),
        Some(vec![file("two.md", "---\ndescription: Two\n---"), file("x.txt", "")]),
    ];
    let got = discover_plugin_commands(Some(text), &listings);
    let names: Vec<&str> = got.iter().map(|e| e.name.as_str()).collect();
    assert_eq!(names, vec!["/a:one", "/b:two"]);
    assert_eq!(got[1].desc, "Two");
    assert!(discover_plugin_commands(None, &listings).is_empty());
    assert_eq!(discover_plugin_commands(Some(text), &vec![None]).len(), 0);
    let plugins = vec![install("p", "/p")];
    assert_eq!(commands_of_installs(&plugins, &listings)[0].name, "/p:one");
}

#[test]
fn home_directory_can_be_overridden() {
    assert_eq!(claude_home_dir(Some("/env"), Some("/home/.agent")), Some("/env"));
    assert_eq!(claude_home_dir(None, Some("/home/.agent")), Some("/home/.agent"));
    assert_eq!(claude_home_dir::<&str>(None, None), None);
    let agent = AgentNames {
        title: "Agent".to_string(),
        slug: "agent".to_string(),
        memory_file: "AGENT.md".to_string(),
    };
    assert_eq!(settings_dir_name(&agent), ".agent");
}
