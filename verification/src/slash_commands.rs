//! The agent's slash commands and model aliases, and choosing among them.
//!
//! The built-in commands are few and rarely change, so they are a fixed list and completion works
//! offline. The commands that users and plugins define are merged on top of them.

use crate::agent::{AgentNames, AgentView};
use crate::text::{
    after_prefix, contains, contains_whitespace, has_space, is_space, lemma_lex_antisymmetric,
    lemma_lex_total, lemma_lex_transitive, le, lex_le, lowercase, occurs, occurs_at, same, strip_prefix,
    to_lower, views,
};
use vstd::prelude::*;
use vstd::string::*;

verus! {

/// A built-in entry of the completion list.
#[derive(Debug, Clone, Copy)]
pub struct SlashEntry {
    pub name: &'static str,
    pub desc: &'static str,
    pub aliases: &'static [&'static str],
}

/// An entry of the completion list. Built-in entries are converted from `SlashEntry`, so that they
/// share one type with the entries that users and plugins define.
#[derive(Debug, PartialEq)]
pub struct CommandEntry {
    pub name: String,
    pub desc: String,
    pub aliases: Vec<String>,
}

/// The mathematical content of an entry.
pub struct CommandView {
    pub name: Seq<char>,
    pub desc: Seq<char>,
    pub aliases: Seq<Seq<char>>,
}

impl View for SlashEntry {
    type V = CommandView;

    open spec fn view(&self) -> CommandView {
        CommandView {
            name: self.name@,
            desc: self.desc@,
            aliases: self.aliases@.map_values(|a: &'static str| a@),
        }
    }
}

impl View for CommandEntry {
    type V = CommandView;

    open spec fn view(&self) -> CommandView {
        CommandView { name: self.name@, desc: self.desc@, aliases: views(self.aliases@) }
    }
}

/// The contents of a list of entries.
pub open spec fn entries(list: Seq<CommandEntry>) -> Seq<CommandView> {
    list.map_values(|e: CommandEntry| e@)
}

/// Copies a list of strings.
pub fn clone_strings(list: &Vec<String>) -> (r: Vec<String>)
    ensures
        views(r@) == views(list@),
{
    let mut out: Vec<String> = Vec::new();
    let mut i: usize = 0;
    while i < list.len()
        invariant
            i <= list.len(),
            out.len() == i,
            forall|j: int| 0 <= j < i ==> (#[trigger] out@[j])@ == list@[j]@,
        decreases list.len() - i,
    {
        out.push(list[i].clone());
        i = i + 1;
    }
    assert(views(out@) =~= views(list@));
    out
}

impl Clone for CommandEntry {
    fn clone(&self) -> (r: Self)
        ensures
            r@ == self@,
    {
        CommandEntry {
            name: self.name.clone(),
            desc: self.desc.clone(),
            aliases: clone_strings(&self.aliases),
        }
    }
}

impl vstd::std_specs::convert::FromSpecImpl<&SlashEntry> for CommandEntry {
    open spec fn obeys_from_spec() -> bool {
        false
    }

    open spec fn from_spec(s: &SlashEntry) -> Self {
        arbitrary()
    }
}

impl From<&SlashEntry> for CommandEntry {
    fn from(s: &SlashEntry) -> (r: Self)
        ensures
            r@ == s@,
    {
        let mut aliases: Vec<String> = Vec::new();
        let mut i: usize = 0;
        while i < s.aliases.len()
            invariant
                i <= s.aliases@.len(),
                aliases.len() == i,
                forall|j: int| 0 <= j < i ==> (#[trigger] aliases@[j])@ == s.aliases@[j]@,
            decreases s.aliases.len() - i,
        {
            aliases.push(s.aliases[i].to_owned());
            i = i + 1;
        }
        assert(views(aliases@) =~= s@.aliases);
        CommandEntry { name: s.name.to_owned(), desc: s.desc.to_owned(), aliases }
    }
}

/// An entry without aliases.
pub open spec fn unaliased(name: Seq<char>, desc: Seq<char>) -> CommandView {
    CommandView { name, desc, aliases: seq![] }
}

/// The built-in slash commands.
pub open spec fn slash_commands(agent: AgentView) -> Seq<CommandView> {
    seq![
        CommandView { name: "/clear"@, desc: "New conversation"@, aliases: seq!["/reset"@, "/new"@] },
        unaliased("/compact"@, "Compact conversation with optional focus"@),
        unaliased("/resume"@, "Resume a session or open picker"@),
        unaliased("/branch"@, "Fork current conversation"@),
        unaliased("/rename"@, "Rename current session"@),
        unaliased("/exit"@, "Exit the CLI"@),
        unaliased("/model"@, "Select/change AI model"@),
        unaliased("/effort"@, "Set effort level (low/medium/high/max)"@),
        unaliased("/config"@, "Open Settings interface"@),
        unaliased("/fast"@, "Toggle fast mode"@),
        unaliased("/theme"@, "Change color theme"@),
        unaliased("/plan"@, "Enter plan mode"@),
        unaliased("/diff"@, "View uncommitted changes"@),
        unaliased("/rewind"@, "Rewind conversation/code to prior point"@),
        unaliased("/review"@, "Review a pull request"@),
        unaliased("/context"@, "Visualize context usage"@),
        unaliased("/cost"@, "Show token usage stats"@),
        unaliased("/usage"@, "Show plan limits/rate limits"@),
        unaliased("/help"@, "Show help"@),
        unaliased("/doctor"@, "Diagnose installation"@),
        unaliased("/init"@, "Initialize "@ + agent.memory_file),
        unaliased("/memory"@, "Edit memory files"@),
        unaliased("/permissions"@, "Manage tool permissions"@),
        unaliased("/skills"@, "List available skills"@),
        unaliased("/mcp"@, "Manage MCP server connections"@),
        unaliased("/hooks"@, "View hook configurations"@),
        unaliased("/simplify"@, "Code review for quality/efficiency"@),
        unaliased("/loop"@, "Run a prompt repeatedly"@),
        unaliased("/schedule"@, "Create/manage scheduled tasks"@),
        unaliased("/security-review"@, "Security review of pending changes"@),
    ]
}

/// The model aliases that complete `/model <name>`.
pub open spec fn models(agent: AgentView) -> Seq<CommandView> {
    seq![
        unaliased("default"@, "Recommended default model"@),
        unaliased("opus"@, "Latest "@ + agent.title + " Opus"@),
        unaliased("sonnet"@, "Latest "@ + agent.title + " Sonnet"@),
        unaliased("haiku"@, "Latest "@ + agent.title + " Haiku"@),
        unaliased("opusplan"@, "Opus for planning, Sonnet for execution"@),
        unaliased(agent.slug + "-opus-4-7"@, "Opus 4.7 — most capable"@),
        unaliased(agent.slug + "-opus-4-6"@, "Opus 4.6"@),
        unaliased(agent.slug + "-opus-4-5"@, "Opus 4.5"@),
        unaliased(agent.slug + "-sonnet-4-6"@, "Sonnet 4.6"@),
        unaliased(agent.slug + "-sonnet-4-5"@, "Sonnet 4.5"@),
        unaliased(agent.slug + "-haiku-4-5"@, "Haiku 4.5 — fastest"@),
    ]
}

fn two(a: &str, b: &str) -> (r: String)
    ensures
        r@ == a@ + b@,
{
    a.to_owned().concat(b)
}

fn three(a: &str, b: &str, c: &str) -> (r: String)
    ensures
        r@ == a@ + b@ + c@,
{
    two(a, b).concat(c)
}

fn composed(name: String, desc: String) -> (r: CommandEntry)
    ensures
        r@ == unaliased(name@, desc@),
{
    let r = CommandEntry { name, desc, aliases: Vec::new() };
    assert(r@.aliases =~= seq![]);
    r
}

fn plain(name: &'static str, desc: &'static str) -> (r: CommandEntry)
    ensures
        r@ == unaliased(name@, desc@),
{
    let entry = SlashEntry { name, desc, aliases: &[] };
    assert(entry@.aliases =~= seq![]);
    CommandEntry::from(&entry)
}

fn clear_command() -> (r: CommandEntry)
    ensures
        forall|agent: AgentView| r@ == #[trigger] slash_commands(agent)[0],
{
    let entry = SlashEntry {
        name: "/clear",
        desc: "New conversation",
        aliases: &["/reset", "/new"],
    };
    assert(entry@.aliases =~= seq!["/reset"@, "/new"@]);
    CommandEntry::from(&entry)
}

/// The built-in slash commands.
pub fn builtin_commands(agent: &AgentNames) -> (r: Vec<CommandEntry>)
    ensures
        entries(r@) == slash_commands(agent@),
{
    let table: Vec<CommandEntry> = vec![
        clear_command(),
        plain("/compact", "Compact conversation with optional focus"),
        plain("/resume", "Resume a session or open picker"),
        plain("/branch", "Fork current conversation"),
        plain("/rename", "Rename current session"),
        plain("/exit", "Exit the CLI"),
        plain("/model", "Select/change AI model"),
        plain("/effort", "Set effort level (low/medium/high/max)"),
        plain("/config", "Open Settings interface"),
        plain("/fast", "Toggle fast mode"),
        plain("/theme", "Change color theme"),
        plain("/plan", "Enter plan mode"),
        plain("/diff", "View uncommitted changes"),
        plain("/rewind", "Rewind conversation/code to prior point"),
        plain("/review", "Review a pull request"),
        plain("/context", "Visualize context usage"),
        plain("/cost", "Show token usage stats"),
        plain("/usage", "Show plan limits/rate limits"),
        plain("/help", "Show help"),
        plain("/doctor", "Diagnose installation"),
        composed("/init".to_owned(), two("Initialize ", agent.memory_file.as_str())),
        plain("/memory", "Edit memory files"),
        plain("/permissions", "Manage tool permissions"),
        plain("/skills", "List available skills"),
        plain("/mcp", "Manage MCP server connections"),
        plain("/hooks", "View hook configurations"),
        plain("/simplify", "Code review for quality/efficiency"),
        plain("/loop", "Run a prompt repeatedly"),
        plain("/schedule", "Create/manage scheduled tasks"),
        plain("/security-review", "Security review of pending changes"),
    ];
    assert(entries(table@) =~= slash_commands(agent@));
    table
}

/// The model aliases that complete `/model <name>`.
pub fn builtin_models(agent: &AgentNames) -> (r: Vec<CommandEntry>)
    ensures
        entries(r@) == models(agent@),
{
    let table: Vec<CommandEntry> = vec![
        plain("default", "Recommended default model"),
        composed("opus".to_owned(), three("Latest ", agent.title.as_str(), " Opus")),
        composed("sonnet".to_owned(), three("Latest ", agent.title.as_str(), " Sonnet")),
        composed("haiku".to_owned(), three("Latest ", agent.title.as_str(), " Haiku")),
        plain("opusplan", "Opus for planning, Sonnet for execution"),
        composed(two(agent.slug.as_str(), "-opus-4-7"), "Opus 4.7 — most capable".to_owned()),
        composed(two(agent.slug.as_str(), "-opus-4-6"), "Opus 4.6".to_owned()),
        composed(two(agent.slug.as_str(), "-opus-4-5"), "Opus 4.5".to_owned()),
        composed(two(agent.slug.as_str(), "-sonnet-4-6"), "Sonnet 4.6".to_owned()),
        composed(two(agent.slug.as_str(), "-sonnet-4-5"), "Sonnet 4.5".to_owned()),
        composed(two(agent.slug.as_str(), "-haiku-4-5"), "Haiku 4.5 — fastest".to_owned()),
    ];
    assert(entries(table@) =~= models(agent@));
    table
}

/// What the text of the prompt asks completions for.
#[derive(Debug, PartialEq)]
pub enum PopoverTrigger {
    Slash { query: String },
    Model { query: String },
}

impl Clone for PopoverTrigger {
    fn clone(&self) -> (r: Self)
        ensures
            r@ == self@,
    {
        match self {
            PopoverTrigger::Slash { query } => PopoverTrigger::Slash { query: query.clone() },
            PopoverTrigger::Model { query } => PopoverTrigger::Model { query: query.clone() },
        }
    }
}

/// The mathematical content of a trigger.
pub enum TriggerView {
    Slash { query: Seq<char> },
    Model { query: Seq<char> },
}

impl View for PopoverTrigger {
    type V = TriggerView;

    open spec fn view(&self) -> TriggerView {
        match self {
            PopoverTrigger::Slash { query } => TriggerView::Slash { query: query@ },
            PopoverTrigger::Model { query } => TriggerView::Model { query: query@ },
        }
    }
}

/// What a prompt with the text `text` asks completions for: `/model ` and a word without white
/// space asks for a model, any other `/` and a word for a slash command, anything else for
/// nothing.
pub open spec fn trigger_of(text: Seq<char>) -> Option<TriggerView> {
    match after_prefix(text, "/model "@) {
        Some(rest) if !has_space(rest) => Some(TriggerView::Model { query: rest }),
        _ => match after_prefix(text, "/"@) {
            Some(rest) if !has_space(text) => Some(TriggerView::Slash { query: rest }),
            _ => None,
        },
    }
}

/// What a prompt with the text `text` asks completions for.
///
/// - `/<word>` (no white space): slash commands
/// - `/model ` or `/model <word>`: models
/// - anything else: nothing
pub fn detect_trigger(text: &str) -> (r: Option<PopoverTrigger>)
    ensures
        match r {
            Some(trigger) => trigger_of(text@) == Some(trigger@),
            None => trigger_of(text@) is None,
        },
{
    if let Some(rest) = strip_prefix(text, "/model ") {
        if !contains_whitespace(rest) {
            return Some(PopoverTrigger::Model { query: rest.to_owned() });
        }
    }
    if let Some(rest) = strip_prefix(text, "/") {
        if !contains_whitespace(text) {
            return Some(PopoverTrigger::Slash { query: rest.to_owned() });
        }
    }
    None
}

/// Whether the query `q`, which is in lower case, occurs in the name, the description or an alias
/// of `e`, whatever the case there.
pub open spec fn matches_query(e: CommandView, q: Seq<char>) -> bool {
    ||| occurs(lowercase(e.name), q)
    ||| occurs(lowercase(e.desc), q)
    ||| exists|i: int| 0 <= i < e.aliases.len() && occurs(lowercase(#[trigger] e.aliases[i]), q)
}

/// The entries of `pool` that match `query`, in order; all of them where the query is empty.
pub open spec fn filtered(pool: Seq<CommandView>, query: Seq<char>) -> Seq<CommandView> {
    if query.len() == 0 {
        pool
    } else {
        pool.filter(|e: CommandView| matches_query(e, lowercase(query)))
    }
}

/// Whether `q` occurs in `name`, in `desc` or in one of `aliases`.
pub fn occurs_in_any(name: &str, desc: &str, aliases: &Vec<String>, q: &str) -> (r: bool)
    ensures
        r == (occurs(name@, q@) || occurs(desc@, q@) || exists|i: int|
            0 <= i < aliases@.len() && occurs((#[trigger] aliases@[i])@, q@)),
{
    if contains(name, q) || contains(desc, q) {
        return true;
    }
    let mut i: usize = 0;
    while i < aliases.len()
        invariant
            i <= aliases.len(),
            forall|j: int| 0 <= j < i ==> !occurs((#[trigger] aliases@[j])@, q@),
        decreases aliases.len() - i,
    {
        if contains(aliases[i].as_str(), q) {
            return true;
        }
        i = i + 1;
    }
    false
}

fn lowercase_all(list: &Vec<String>) -> (r: Vec<String>)
    ensures
        r@.len() == list@.len(),
        forall|i: int| 0 <= i < list@.len() ==> (#[trigger] r@[i])@ == lowercase(list@[i]@),
{
    let mut out: Vec<String> = Vec::new();
    let mut i: usize = 0;
    while i < list.len()
        invariant
            i <= list.len(),
            out.len() == i,
            forall|j: int| 0 <= j < i ==> (#[trigger] out@[j])@ == lowercase(list@[j]@),
        decreases list.len() - i,
    {
        out.push(to_lower(list[i].as_str()));
        i = i + 1;
    }
    out
}

fn entry_matches(e: &CommandEntry, q: &str) -> (r: bool)
    ensures
        r == matches_query(e@, q@),
{
    let name = to_lower(e.name.as_str());
    let desc = to_lower(e.desc.as_str());
    let aliases = lowercase_all(&e.aliases);
    let r = occurs_in_any(name.as_str(), desc.as_str(), &aliases, q);
    proof {
        if matches_query(e@, q@) && !occurs(name@, q@) && !occurs(desc@, q@) {
            let i = choose|i: int|
                0 <= i < e@.aliases.len() && occurs(lowercase(#[trigger] e@.aliases[i]), q@);
            assert(aliases@[i]@ == lowercase(e@.aliases[i]));
        }
        if r && !occurs(name@, q@) && !occurs(desc@, q@) {
            let i = choose|i: int| 0 <= i < aliases@.len() && occurs((#[trigger] aliases@[i])@, q@);
            assert(e@.aliases[i] == e.aliases@[i]@);
        }
    }
    r
}

/// Copies of the entries of `pool` whose name, description or aliases contain `query`, whatever
/// the case. An empty query returns the whole pool.
pub fn filter_entries(pool: &[CommandEntry], query: &str) -> (r: Vec<CommandEntry>)
    ensures
        entries(r@) == filtered(entries(pool@), query@),
        r@.len() <= pool@.len(),
{
    let all = query.is_empty();
    let q = to_lower(query);
    let mut out: Vec<CommandEntry> = Vec::new();
    let mut i: usize = 0;
    let ghost keep = |e: CommandView| all || matches_query(e, q@);
    let ghost views = entries(pool@);
    assert(views.take(0) =~= seq![]);
    assert(entries(out@) =~= views.take(0).filter(keep));
    while i < pool.len()
        invariant
            i <= pool@.len(),
            views == entries(pool@),
            keep == (|e: CommandView| all || matches_query(e, q@)),
            entries(out@) == views.take(i as int).filter(keep),
            out@.len() <= i,
        decreases pool.len() - i,
    {
        let ghost before = entries(out@);
        let ghost prefix = views.take(i as int);
        let ghost e = views[i as int];
        assert(views.take(i + 1) =~= prefix.push(e));
        proof {
            prefix.lemma_filter_push(e, keep);
        }
        if all || entry_matches(&pool[i], q.as_str()) {
            out.push(pool[i].clone());
            assert(entries(out@) =~= before.push(e));
        }
        i = i + 1;
    }
    proof {
        assert(views.take(views.len() as int) =~= views);
        if all {
            lemma_filter_keeps_all(views, keep);
        } else {
            assert(keep =~= (|e: CommandView| matches_query(e, lowercase(query@))));
        }
    }
    out
}

proof fn lemma_filter_keeps_all<T>(s: Seq<T>, keep: spec_fn(T) -> bool)
    requires
        forall|i: int| 0 <= i < s.len() ==> keep(#[trigger] s[i]),
    ensures
        s.filter(keep) == s,
    decreases s.len(),
{
    reveal(Seq::filter);
    if s.len() > 0 {
        let front = s.drop_last();
        assert forall|i: int| 0 <= i < front.len() implies keep(#[trigger] front[i]) by {
            assert(front[i] == s[i]);
        }
        lemma_filter_keeps_all(front, keep);
        assert(front.push(s.last()) =~= s);
    }
}

/// The entries of `list` with the name `name`, in order.
pub open spec fn named(list: Seq<CommandView>, name: Seq<char>) -> Seq<CommandView> {
    list.filter(|e: CommandView| e.name == name)
}

/// Whether some entry of `list` has the name `name`.
pub open spec fn has_name(list: Seq<CommandView>, name: Seq<char>) -> bool {
    exists|i: int| 0 <= i < list.len() && (#[trigger] list[i]).name == name
}

/// Whether the names of `list` are in ascending order.
pub open spec fn sorted_by_name(list: Seq<CommandView>) -> bool {
    forall|i: int, j: int|
        0 <= i < j < list.len() ==> lex_le((#[trigger] list[i]).name, (#[trigger] list[j]).name)
}

/// Whether `sorted` holds the entries of `list` in ascending order of their names, entries with
/// one name in the order that they have in `list`.
pub open spec fn is_stable_sort(sorted: Seq<CommandView>, list: Seq<CommandView>) -> bool {
    &&& sorted_by_name(sorted)
    &&& forall|name: Seq<char>| #[trigger] named(sorted, name) == named(list, name)
}

/// The built-in commands, then those of `discovered` whose names no built-in command has.
pub open spec fn merged(agent: AgentView, discovered: Seq<CommandView>) -> Seq<CommandView> {
    slash_commands(agent) + discovered.filter(
        |e: CommandView| !has_name(slash_commands(agent), e.name),
    )
}

fn knows_name(list: &Vec<CommandEntry>, count: usize, name: &str) -> (r: bool)
    requires
        count <= list.len(),
    ensures
        r == has_name(entries(list@).take(count as int), name@),
{
    let mut i: usize = 0;
    let ghost known = entries(list@).take(count as int);
    while i < count
        invariant
            i <= count <= list.len(),
            known == entries(list@).take(count as int),
            forall|j: int| 0 <= j < i ==> (#[trigger] known[j]).name != name@,
        decreases count - i,
    {
        assert(known[i as int].name == list@[i as int].name@);
        if same(list[i].name.as_str(), name) {
            return true;
        }
        i = i + 1;
    }
    false
}

/// Appends the entries of `discovered` whose names none of the first `count` entries has.
fn append_new(list: &mut Vec<CommandEntry>, count: usize, discovered: Vec<CommandEntry>)
    requires
        count <= old(list).len(),
    ensures
        entries(final(list)@) == entries(old(list)@) + entries(discovered@).filter(
            |e: CommandView| !has_name(entries(old(list)@).take(count as int), e.name),
        ),
        final(list)@.len() <= old(list)@.len() + discovered@.len(),
{
    let ghost start = entries(list@);
    let ghost known = start.take(count as int);
    let ghost fresh = |e: CommandView| !has_name(known, e.name);
    let ghost found = entries(discovered@);
    let mut i: usize = 0;
    assert(found.take(0) =~= seq![]);
    assert(entries(list@) =~= start + found.take(0).filter(fresh));
    while i < discovered.len()
        invariant
            i <= discovered.len(),
            found == entries(discovered@),
            count <= start.len(),
            known == start.take(count as int),
            fresh == (|e: CommandView| !has_name(known, e.name)),
            entries(list@) == start + found.take(i as int).filter(fresh),
            list@.len() <= start.len() + i,
        decreases discovered.len() - i,
    {
        let ghost before = entries(list@);
        let ghost prefix = found.take(i as int);
        let ghost e = found[i as int];
        proof {
            assert(found.take(i + 1) =~= prefix.push(e));
            prefix.lemma_filter_push(e, fresh);
            assert(before.take(count as int) =~= known);
            assert(before.len() == list@.len());
        }
        if !knows_name(list, count, discovered[i].name.as_str()) {
            list.push(discovered[i].clone());
            assert(entries(list@) =~= before.push(e));
            assert(before.push(e) =~= start + prefix.filter(fresh).push(e));
        }
        i = i + 1;
    }
    assert(found.take(found.len() as int) =~= found);
}

proof fn lemma_named_insert(list: Seq<CommandView>, at: int, e: CommandView, name: Seq<char>)
    requires
        0 <= at <= list.len(),
        forall|i: int| at <= i < list.len() ==> (#[trigger] list[i]).name != e.name,
    ensures
        named(list.insert(at, e), name) == named(list.push(e), name),
{
    let p = |x: CommandView| x.name == name;
    let a = list.take(at);
    let b = list.skip(at);
    assert(list.insert(at, e) =~= a + (seq![e] + b));
    assert(list.push(e) =~= a + (b + seq![e]));
    Seq::filter_distributes_over_add(a, seq![e] + b, p);
    Seq::filter_distributes_over_add(a, b + seq![e], p);
    Seq::filter_distributes_over_add(seq![e], b, p);
    Seq::filter_distributes_over_add(b, seq![e], p);
    if e.name == name {
        assert forall|i: int| 0 <= i < b.len() implies !p(#[trigger] b[i]) by {
            assert(b[i] == list[at + i]);
        }
        lemma_filter_drops_all(b, p);
        assert(seq![e].filter(p) + b.filter(p) =~= b.filter(p) + seq![e].filter(p));
    } else {
        assert forall|i: int| 0 <= i < seq![e].len() implies !p(#[trigger] seq![e][i]) by {}
        lemma_filter_drops_all(seq![e], p);
        assert(seq![e].filter(p) + b.filter(p) =~= b.filter(p) + seq![e].filter(p));
    }
}

proof fn lemma_filter_drops_all<T>(s: Seq<T>, p: spec_fn(T) -> bool)
    requires
        forall|i: int| 0 <= i < s.len() ==> !p(#[trigger] s[i]),
    ensures
        s.filter(p) == Seq::<T>::empty(),
    decreases s.len(),
{
    reveal(Seq::filter);
    if s.len() > 0 {
        let front = s.drop_last();
        assert forall|i: int| 0 <= i < front.len() implies !p(#[trigger] front[i]) by {
            assert(front[i] == s[i]);
        }
        lemma_filter_drops_all(front, p);
    }
}

/// Inserts `e` into a list that is in order, behind the entries whose names are not greater.
fn insert_sorted(list: &mut Vec<CommandEntry>, e: CommandEntry)
    requires
        sorted_by_name(entries(old(list)@)),
    ensures
        final(list)@.len() == old(list)@.len() + 1,
        sorted_by_name(entries(final(list)@)),
        forall|name: Seq<char>| #[trigger]
            named(entries(final(list)@), name) == named(entries(old(list)@).push(e@), name),
{
    let ghost start = entries(list@);
    let mut at: usize = list.len();
    while at > 0 && !le(list[at - 1].name.as_str(), e.name.as_str())
        invariant
            at <= list.len(),
            start == entries(list@),
            sorted_by_name(start),
            forall|i: int| at <= i < start.len() ==> !lex_le((#[trigger] start[i]).name, e@.name),
        decreases at,
    {
        assert(start[at - 1].name == list@[at - 1].name@);
        at = at - 1;
    }
    proof {
        if at > 0 {
            assert(start[at - 1].name == list@[at - 1].name@);
        }
        let inserted = start.insert(at as int, e@);
        assert forall|i: int, j: int| 0 <= i < j < inserted.len() implies lex_le(
            (#[trigger] inserted[i]).name,
            (#[trigger] inserted[j]).name,
        ) by {
            if j == at {
                assert(inserted[i] == start[i]);
                if i < at - 1 {
                    assert(lex_le(start[i].name, start[at - 1].name));
                    lemma_lex_transitive(start[i].name, start[at - 1].name, e@.name);
                }
            } else if i == at {
                assert(inserted[j] == start[j - 1]);
                lemma_lex_total(e@.name, start[j - 1].name);
            } else {
                let a = if i < at {
                    i
                } else {
                    i - 1
                };
                let b = if j < at {
                    j
                } else {
                    j - 1
                };
                assert(inserted[i] == start[a]);
                assert(inserted[j] == start[b]);
                assert(lex_le(start[a].name, start[b].name));
            }
        }
        assert forall|i: int| at <= i < start.len() implies (#[trigger] start[i]).name != e@.name by {
            lemma_lex_total(e@.name, e@.name);
        }
        assert forall|name: Seq<char>| #[trigger]
            named(inserted, name) == named(start.push(e@), name) by {
            lemma_named_insert(start, at as int, e@, name);
        }
    }
    let ghost ev = e@;
    list.insert(at, e);
    assert(entries(list@) =~= start.insert(at as int, ev));
}

/// Sorts entries by name and keeps entries with one name in their order.
pub fn sort_by_name(list: Vec<CommandEntry>) -> (r: Vec<CommandEntry>)
    ensures
        is_stable_sort(entries(r@), entries(list@)),
        r@.len() == list@.len(),
{
    let mut out: Vec<CommandEntry> = Vec::new();
    let ghost all = entries(list@);
    let mut i: usize = 0;
    assert(all.take(0) =~= entries(out@));
    while i < list.len()
        invariant
            i <= list.len(),
            all == entries(list@),
            out@.len() == i,
            is_stable_sort(entries(out@), all.take(i as int)),
        decreases list.len() - i,
    {
        let ghost before = entries(out@);
        let ghost prefix = all.take(i as int);
        let ghost e = all[i as int];
        insert_sorted(&mut out, list[i].clone());
        proof {
            assert(all.take(i + 1) =~= prefix.push(e));
            assert forall|name: Seq<char>| #[trigger]
                named(entries(out@), name) == named(prefix.push(e), name) by {
                let p = |x: CommandView| x.name == name;
                before.lemma_filter_push(e, p);
                prefix.lemma_filter_push(e, p);
                assert(named(before, name) == named(prefix, name));
            }
        }
        i = i + 1;
    }
    assert(all.take(all.len() as int) =~= all);
    out
}

/// The built-in commands, those that users define and those of plugins. Built-in commands win on a
/// name conflict, so a user's file cannot shadow `/clear`. Sorted by name, so that the list is
/// stable.
pub fn all_commands(
    agent: &AgentNames,
    user: Vec<CommandEntry>,
    plugin: Vec<CommandEntry>,
) -> (r: Vec<CommandEntry>)
    ensures
        is_stable_sort(entries(r@), merged(agent@, entries(user@) + entries(plugin@))),
        r@.len() <= 30 + user@.len() + plugin@.len(),
{
    let mut out = builtin_commands(agent);
    let count: usize = out.len();
    let ghost fresh = |e: CommandView| !has_name(slash_commands(agent@), e.name);
    assert(slash_commands(agent@).take(slash_commands(agent@).len() as int) =~= slash_commands(agent@));
    append_new(&mut out, count, user);
    let ghost mid = entries(out@);
    assert(mid == slash_commands(agent@) + entries(user@).filter(fresh));
    assert(mid.take(count as int) =~= slash_commands(agent@));
    assert(mid.len() == out@.len());
    append_new(&mut out, count, plugin);
    proof {
        Seq::filter_distributes_over_add(entries(user@), entries(plugin@), fresh);
        assert(entries(out@) =~= merged(agent@, entries(user@) + entries(plugin@)));
    }
    sort_by_name(out)
}

proof fn lemma_named_first(list: Seq<CommandView>, name: Seq<char>)
    requires
        list.len() > 0,
    ensures
        named(list, name) == (if list[0].name == name {
            seq![list[0]] + named(list.skip(1), name)
        } else {
            named(list.skip(1), name)
        }),
{
    let p = |e: CommandView| e.name == name;
    let head = seq![list[0]];
    assert(list =~= head + list.skip(1));
    Seq::filter_distributes_over_add(head, list.skip(1), p);
    assert(head =~= Seq::<CommandView>::empty().push(list[0]));
    Seq::<CommandView>::empty().lemma_filter_push(list[0], p);
    assert(Seq::<CommandView>::empty().filter(p) =~= seq![]) by {
        lemma_filter_drops_all(Seq::<CommandView>::empty(), p);
    }
    assert(named(list, name) =~= head.filter(p) + named(list.skip(1), name));
    if list[0].name == name {
        assert(head.filter(p) =~= head);
    } else {
        assert(head.filter(p) =~= seq![]);
        assert(seq![] + named(list.skip(1), name) =~= named(list.skip(1), name));
    }
}

proof fn lemma_named_has_name(list: Seq<CommandView>, name: Seq<char>)
    ensures
        named(list, name).len() > 0 <==> has_name(list, name),
    decreases list.len(),
{
    if list.len() == 0 {
        lemma_filter_drops_all(list, |e: CommandView| e.name == name);
    } else {
        lemma_named_first(list, name);
        lemma_named_has_name(list.skip(1), name);
        let rest = list.skip(1);
        if has_name(list, name) && list[0].name != name {
            let i = choose|i: int| 0 <= i < list.len() && (#[trigger] list[i]).name == name;
            assert(rest[i - 1].name == name);
        }
        if has_name(rest, name) {
            let i = choose|i: int| 0 <= i < rest.len() && (#[trigger] rest[i]).name == name;
            assert(list[i + 1].name == name);
        }
    }
}

/// The order of the sorted list is fully determined: two stable sorts of one list are equal.
pub proof fn law_stable_sort_is_unique(
    a: Seq<CommandView>,
    b: Seq<CommandView>,
    list: Seq<CommandView>,
)
    requires
        is_stable_sort(a, list),
        is_stable_sort(b, list),
    ensures
        a == b,
{
    assert forall|name: Seq<char>| #[trigger] named(a, name) == named(b, name) by {
        assert(named(a, name) == named(list, name));
        assert(named(b, name) == named(list, name));
    }
    lemma_same_groups(a, b);
}

proof fn lemma_same_groups(a: Seq<CommandView>, b: Seq<CommandView>)
    requires
        sorted_by_name(a),
        sorted_by_name(b),
        forall|name: Seq<char>| #[trigger] named(a, name) == named(b, name),
    ensures
        a == b,
    decreases a.len(),
{
    if a.len() == 0 {
        if b.len() > 0 {
            lemma_named_has_name(a, b[0].name);
            lemma_named_has_name(b, b[0].name);
            assert(named(a, b[0].name) == named(b, b[0].name));
            assert(has_name(b, b[0].name));
        }
        assert(a =~= b);
    } else {
        let x = a[0].name;
        lemma_named_has_name(a, x);
        lemma_named_has_name(b, x);
        assert(has_name(a, x));
        assert(named(a, x) == named(b, x));
        assert(b.len() > 0);
        let y = b[0].name;
        lemma_named_has_name(a, y);
        lemma_named_has_name(b, y);
        assert(has_name(b, y));
        assert(named(a, y) == named(b, y));
        lemma_lex_total(x, x);
        lemma_lex_total(y, y);
        let i = choose|i: int| 0 <= i < b.len() && (#[trigger] b[i]).name == x;
        let j = choose|j: int| 0 <= j < a.len() && (#[trigger] a[j]).name == y;
        assert(lex_le(y, b[i].name));
        assert(lex_le(x, a[j].name));
        lemma_lex_antisymmetric(x, y);
        lemma_named_first(a, x);
        lemma_named_first(b, x);
        assert(named(a, x)[0] == a[0]);
        assert(named(b, x)[0] == b[0]);
        let ra = a.skip(1);
        let rb = b.skip(1);
        assert forall|name: Seq<char>| #[trigger] named(ra, name) == named(rb, name) by {
            lemma_named_first(a, name);
            lemma_named_first(b, name);
            assert(named(a, name) == named(b, name));
            if name == x {
                assert(named(a, name).skip(1) =~= named(ra, name));
                assert(named(b, name).skip(1) =~= named(rb, name));
            }
        }
        assert forall|k: int, l: int| 0 <= k < l < ra.len() implies lex_le(
            (#[trigger] ra[k]).name,
            (#[trigger] ra[l]).name,
        ) by {
            assert(ra[k] == a[k + 1] && ra[l] == a[l + 1]);
        }
        assert forall|k: int, l: int| 0 <= k < l < rb.len() implies lex_le(
            (#[trigger] rb[k]).name,
            (#[trigger] rb[l]).name,
        ) by {
            assert(rb[k] == b[k + 1] && rb[l] == b[l + 1]);
        }
        lemma_same_groups(ra, rb);
        assert(a =~= seq![a[0]] + ra);
        assert(b =~= seq![b[0]] + rb);
    }
}

proof fn lemma_named_fresh(list: Seq<CommandView>, known: Seq<CommandView>, name: Seq<char>)
    ensures
        named(list.filter(|e: CommandView| !has_name(known, e.name)), name) == (if has_name(
            known,
            name,
        ) {
            seq![]
        } else {
            named(list, name)
        }),
    decreases list.len(),
{
    let fresh = |e: CommandView| !has_name(known, e.name);
    let p = |e: CommandView| e.name == name;
    if list.len() == 0 {
        lemma_filter_drops_all(list, fresh);
        lemma_filter_drops_all(list.filter(fresh), p);
        lemma_filter_drops_all(list, p);
    } else {
        let front = list.drop_last();
        let e = list.last();
        assert(list =~= front.push(e));
        front.lemma_filter_push(e, fresh);
        front.lemma_filter_push(e, p);
        front.filter(fresh).lemma_filter_push(e, p);
        lemma_named_fresh(front, known, name);
    }
}

/// Built-in commands win on a name conflict: under the name of a built-in command the merged list
/// has what the built-in list has, and under any other name what was discovered.
pub proof fn law_built_in_commands_win(
    agent: AgentView,
    discovered: Seq<CommandView>,
    sorted: Seq<CommandView>,
    name: Seq<char>,
)
    requires
        is_stable_sort(sorted, merged(agent, discovered)),
    ensures
        named(sorted, name) == (if has_name(slash_commands(agent), name) {
            named(slash_commands(agent), name)
        } else {
            named(discovered, name)
        }),
{
    let known = slash_commands(agent);
    let fresh = discovered.filter(|e: CommandView| !has_name(known, e.name));
    assert(named(sorted, name) == named(merged(agent, discovered), name));
    Seq::filter_distributes_over_add(known, fresh, |e: CommandView| e.name == name);
    lemma_named_fresh(discovered, known, name);
    lemma_named_has_name(known, name);
    if has_name(known, name) {
        assert(named(known, name) + seq![] =~= named(known, name));
    } else {
        assert(named(known, name) =~= seq![]);
        assert(seq![] + named(discovered, name) =~= named(discovered, name));
    }
}

/// An empty query lists everything.
pub proof fn law_empty_query_lists_all(pool: Seq<CommandView>)
    ensures
        filtered(pool, seq![]) == pool,
{
}

proof fn lemma_empty_query_matches(e: CommandView, q: Seq<char>)
    requires
        q.len() == 0,
    ensures
        matches_query(e, q),
{
    assert(lowercase(e.name).subrange(0, 0) =~= q);
    assert(occurs_at(lowercase(e.name), q, 0));
}

/// A query lists the entries that match it, an empty one no less than any other.
proof fn lemma_filtered(pool: Seq<CommandView>, query: Seq<char>)
    ensures
        filtered(pool, query) == pool.filter(
            |e: CommandView| matches_query(e, lowercase(query)),
        ),
{
    if query.len() == 0 {
        let p = |e: CommandView| matches_query(e, lowercase(query));
        assert forall|i: int| 0 <= i < pool.len() implies p(#[trigger] pool[i]) by {
            lemma_empty_query_matches(pool[i], lowercase(query));
        }
        lemma_filter_keeps_all(pool, p);
    }
}

/// The case of a query does not matter: queries that are the same in lower case list the same.
pub proof fn law_query_case_is_ignored(pool: Seq<CommandView>, a: Seq<char>, b: Seq<char>)
    requires
        lowercase(a) == lowercase(b),
    ensures
        filtered(pool, a) == filtered(pool, b),
{
    lemma_filtered(pool, a);
    lemma_filtered(pool, b);
}

/// A query lists exactly the entries of the pool that match it, and listing again changes nothing.
pub proof fn law_query_lists_matches(pool: Seq<CommandView>, query: Seq<char>, e: CommandView)
    ensures
        filtered(pool, query).contains(e) <==> pool.contains(e) && matches_query(
            e,
            lowercase(query),
        ),
        filtered(filtered(pool, query), query) == filtered(pool, query),
        filtered(pool, query).len() <= pool.len(),
{
    let p = |x: CommandView| matches_query(x, lowercase(query));
    let kept = pool.filter(p);
    lemma_filtered(pool, query);
    lemma_filtered(kept, query);
    pool.lemma_filter_len(p);
    assert forall|i: int| 0 <= i < kept.len() implies p(#[trigger] kept[i]) by {
        pool.lemma_filter_pred(p, i);
    }
    if kept.contains(e) {
        pool.lemma_filter_contains_rev(p, e);
    }
    if pool.contains(e) && p(e) {
        let i = choose|i: int| 0 <= i < pool.len() && pool[i] == e;
        pool.lemma_filter_contains(p, i);
    }
    lemma_filter_keeps_all(kept, p);
}

/// Whether `part` is `list` with some entries left out.
pub open spec fn is_subsequence(part: Seq<CommandView>, list: Seq<CommandView>) -> bool
    decreases list.len(),
{
    if part.len() == 0 {
        true
    } else if list.len() == 0 {
        false
    } else {
        ||| part.last() == list.last() && is_subsequence(part.drop_last(), list.drop_last())
        ||| is_subsequence(part, list.drop_last())
    }
}

proof fn lemma_filter_is_subsequence(list: Seq<CommandView>, p: spec_fn(CommandView) -> bool)
    ensures
        is_subsequence(list.filter(p), list),
    decreases list.len(),
{
    if list.len() == 0 {
        lemma_filter_drops_all(list, p);
    } else {
        let front = list.drop_last();
        let e = list.last();
        assert(list =~= front.push(e));
        front.lemma_filter_push(e, p);
        lemma_filter_is_subsequence(front, p);
        if p(e) {
            assert(front.filter(p).push(e).drop_last() =~= front.filter(p));
        }
    }
}

proof fn lemma_occurs_inside(hay: Seq<char>, outer: Seq<char>, inner: Seq<char>)
    requires
        occurs(hay, outer),
        occurs(outer, inner),
    ensures
        occurs(hay, inner),
{
    let i = choose|i: int| occurs_at(hay, outer, i);
    let j = choose|j: int| occurs_at(outer, inner, j);
    assert(hay.subrange(i + j, i + j + inner.len()) =~= outer.subrange(j, j + inner.len()));
    assert(occurs_at(hay, inner, i + j));
}

proof fn lemma_wider_query_matches(e: CommandView, narrow: Seq<char>, wide: Seq<char>)
    requires
        matches_query(e, narrow),
        occurs(narrow, wide),
    ensures
        matches_query(e, wide),
{
    if occurs(lowercase(e.name), narrow) {
        lemma_occurs_inside(lowercase(e.name), narrow, wide);
    } else if occurs(lowercase(e.desc), narrow) {
        lemma_occurs_inside(lowercase(e.desc), narrow, wide);
    } else {
        let i = choose|i: int|
            0 <= i < e.aliases.len() && occurs(lowercase(#[trigger] e.aliases[i]), narrow);
        lemma_occurs_inside(lowercase(e.aliases[i]), narrow, wide);
    }
}

proof fn lemma_filter_wider_first(
    list: Seq<CommandView>,
    wide: spec_fn(CommandView) -> bool,
    narrow: spec_fn(CommandView) -> bool,
)
    requires
        forall|e: CommandView| #[trigger] narrow(e) ==> wide(e),
    ensures
        list.filter(wide).filter(narrow) == list.filter(narrow),
    decreases list.len(),
{
    if list.len() == 0 {
        lemma_filter_drops_all(list, wide);
        lemma_filter_drops_all(list.filter(wide), narrow);
        lemma_filter_drops_all(list, narrow);
    } else {
        let front = list.drop_last();
        let e = list.last();
        assert(list =~= front.push(e));
        front.lemma_filter_push(e, wide);
        front.lemma_filter_push(e, narrow);
        front.filter(wide).lemma_filter_push(e, narrow);
        lemma_filter_wider_first(front, wide, narrow);
    }
}

/// A wider query may be applied first: where the query `wide` occurs in the query `narrow`, whatever
/// the case, listing by `wide` and then by `narrow` is listing by `narrow`, and what `narrow` lists
/// is what `wide` lists with some entries left out.
pub proof fn law_wider_query_lists_more(
    pool: Seq<CommandView>,
    wide: Seq<char>,
    narrow: Seq<char>,
)
    requires
        occurs(lowercase(narrow), lowercase(wide)),
    ensures
        filtered(filtered(pool, wide), narrow) == filtered(pool, narrow),
        is_subsequence(filtered(pool, narrow), filtered(pool, wide)),
{
    let n = |e: CommandView| matches_query(e, lowercase(narrow));
    let w = |e: CommandView| matches_query(e, lowercase(wide));
    lemma_filtered(pool, narrow);
    lemma_filtered(pool, wide);
    lemma_filtered(pool.filter(w), narrow);
    assert forall|e: CommandView| #[trigger] n(e) implies w(e) by {
        lemma_wider_query_matches(e, lowercase(narrow), lowercase(wide));
    }
    lemma_filter_wider_first(pool, w, n);
    lemma_filter_is_subsequence(pool.filter(w), n);
}

/// Lowering a query first changes nothing, for a query that lowering twice leaves as lowering once
/// does.
pub proof fn law_lowered_query_lists_the_same(pool: Seq<CommandView>, query: Seq<char>)
    requires
        lowercase(lowercase(query)) == lowercase(query),
    ensures
        filtered(pool, lowercase(query)) == filtered(pool, query),
{
    law_query_case_is_ignored(pool, lowercase(query), query);
}

/// A slash and a word without white space ask for slash commands with that word as the query.
pub proof fn law_slash_word_asks_for_commands(word: Seq<char>)
    requires
        !has_space(word),
    ensures
        trigger_of("/"@ + word) == Some(TriggerView::Slash { query: word }),
{
    let text = "/"@ + word;
    reveal_strlit("/");
    reveal_strlit("/model ");
    assert forall|i: int| 0 <= i < text.len() implies !is_space(#[trigger] text[i]) by {
        if i > 0 {
            assert(text[i] == word[i - 1]);
        }
    }
    if "/model "@.is_prefix_of(text) {
        assert(text[6] == "/model "@[6]);
    }
    assert("/"@.is_prefix_of(text));
    assert(text.skip(1) =~= word);
}

/// `/model` and a word without white space behind a blank ask for models with that word as the
/// query; so does the blank alone.
pub proof fn law_model_word_asks_for_models(word: Seq<char>)
    requires
        !has_space(word),
    ensures
        trigger_of("/model "@ + word) == Some(TriggerView::Model { query: word }),
{
    let text = "/model "@ + word;
    assert("/model "@.is_prefix_of(text));
    assert(text.skip("/model "@.len() as int) =~= word);
}

/// A text that does not start with a slash asks for nothing.
pub proof fn law_plain_text_asks_for_nothing(text: Seq<char>)
    requires
        text.len() == 0 || text[0] != '/',
    ensures
        trigger_of(text) is None,
{
    reveal_strlit("/");
    reveal_strlit("/model ");
    if "/model "@.is_prefix_of(text) {
        assert(text[0] == "/model "@[0]);
    }
    if "/"@.is_prefix_of(text) {
        assert(text[0] == "/"@[0]);
    }
}

/// What is asked for never holds white space.
pub proof fn law_query_has_no_space(text: Seq<char>)
    ensures
        trigger_of(text) matches Some(TriggerView::Slash { query }) ==> !has_space(query) && text
            == "/"@ + query,
        trigger_of(text) matches Some(TriggerView::Model { query }) ==> !has_space(query) && text
            == "/model "@ + query,
{
    if let Some(TriggerView::Slash { query }) = trigger_of(text) {
        assert(text =~= "/"@ + query);
        if has_space(query) {
            let i = choose|i: int| 0 <= i < query.len() && is_space(#[trigger] query[i]);
            assert(text["/"@.len() + i] == query[i]);
        }
    }
    if let Some(TriggerView::Model { query }) = trigger_of(text) {
        assert(text =~= "/model "@ + query);
    }
}

} // verus!
