//! Laws of the commands: asking for them, listing, merging and completing them.

use crate::agent::AgentView;
use crate::numerals::decimal;
use crate::popover::{described, names, opened, popover_for, PopoverKind, PopoverView};
use crate::slash_commands::{
    filtered, has_name, is_stable_sort, law_model_word_asks_for_models,
    law_plain_text_asks_for_nothing, law_query_has_no_space, law_slash_word_asks_for_commands,
    matches_query, merged, models, named, slash_commands, trigger_of, CommandView, TriggerView,
};
use crate::text::{
    first_index, has_space, is_space, joined, lemma_first_index_bounds, lex_le, lowercase, occurs,
    occurs_at,
};
use vstd::prelude::*;
use vstd::string::*;

verus! {

/// Whether `needle` stands somewhere in the lower case of `hay`.
pub open spec fn is_in_lower(hay: Seq<char>, needle: Seq<char>) -> bool {
    exists|i: int|
        0 <= i && i + needle.len() <= lowercase(hay).len() && #[trigger] lowercase(hay).subrange(
            i,
            i + needle.len(),
        ) == needle
}

proof fn lemma_is_in_lower(hay: Seq<char>, needle: Seq<char>)
    ensures
        is_in_lower(hay, needle) == occurs(lowercase(hay), needle),
{
    let s = lowercase(hay);
    if occurs(s, needle) {
        let i = choose|i: int| occurs_at(s, needle, i);
        assert(s.subrange(i, i + needle.len()) == needle);
    }
    if is_in_lower(hay, needle) {
        let i = choose|i: int|
            0 <= i && i + needle.len() <= s.len() && #[trigger] s.subrange(i, i + needle.len())
                == needle;
        assert(occurs_at(s, needle, i));
    }
}

/// An entry is listed exactly when the query is empty, or is in its name, its description or one of
/// its aliases, both in lower case.
pub proof fn law_listed_entries(e: CommandView, query: Seq<char>)
    ensures
        filtered(seq![e], query) == (if query.len() == 0 || is_in_lower(e.name, lowercase(query))
            || is_in_lower(e.desc, lowercase(query)) || exists|i: int|
            0 <= i < e.aliases.len() && is_in_lower(#[trigger] e.aliases[i], lowercase(query)) {
            seq![e]
        } else {
            seq![]
        }),
{
    let q = lowercase(query);
    lemma_is_in_lower(e.name, q);
    lemma_is_in_lower(e.desc, q);
    assert forall|i: int| 0 <= i < e.aliases.len() implies is_in_lower(#[trigger] e.aliases[i], q)
        == occurs(lowercase(e.aliases[i]), q) by {
        lemma_is_in_lower(e.aliases[i], q);
    }
    let p = |x: CommandView| matches_query(x, q);
    let none = Seq::<CommandView>::empty();
    none.lemma_filter_push(e, p);
    assert(none.push(e) =~= seq![e]);
    reveal(Seq::filter);
    assert(none.filter(p) =~= none);
    if matches_query(e, q) && !occurs(lowercase(e.name), q) && !occurs(lowercase(e.desc), q) {
        let i = choose|i: int|
            0 <= i < e.aliases.len() && occurs(lowercase(#[trigger] e.aliases[i]), q);
        assert(is_in_lower(e.aliases[i], q));
    }
    if exists|i: int| 0 <= i < e.aliases.len() && is_in_lower(#[trigger] e.aliases[i], q) {
        let i = choose|i: int| 0 <= i < e.aliases.len() && is_in_lower(#[trigger] e.aliases[i], q);
        assert(occurs(lowercase(e.aliases[i]), q));
    }
}

/// Each entry is listed or not by itself, and what is listed stays in order.
pub proof fn law_listing_goes_entry_by_entry(
    a: Seq<CommandView>,
    b: Seq<CommandView>,
    query: Seq<char>,
)
    ensures
        filtered(a + b, query) == filtered(a, query) + filtered(b, query),
        filtered(seq![], query) == Seq::<CommandView>::empty(),
{
    let p = |e: CommandView| matches_query(e, lowercase(query));
    Seq::filter_distributes_over_add(a, b, p);
    reveal(Seq::filter);
    assert(Seq::<CommandView>::empty().filter(p) =~= Seq::<CommandView>::empty());
}

/// The popover for a text: there is one exactly when the text asks for completions and an entry
/// matches. It lists, for the text's query, the matching commands or models.
pub proof fn law_popover_lists_what_the_text_asks_for(
    text: Seq<char>,
    before: Option<PopoverView>,
    commands: Seq<CommandView>,
    models: Seq<CommandView>,
    word: Seq<char>,
)
    ensures
        text.len() == 0 || text[0] != '/' ==> popover_for(text, before, commands, models) is None,
        text == "/"@ + word && !has_space(word) ==> match popover_for(
            text,
            before,
            commands,
            models,
        ) {
            Some(p) => p.kind == PopoverKind::Slash && p.query == word && p.items == filtered(
                commands,
                word,
            ) && 0 <= p.selected < p.items.len(),
            None => filtered(commands, word).len() == 0,
        },
        text == "/model "@ + word && !has_space(word) ==> match popover_for(
            text,
            before,
            commands,
            models,
        ) {
            Some(p) => p.kind == PopoverKind::Model && p.query == word && p.items == filtered(
                models,
                word,
            ) && 0 <= p.selected < p.items.len(),
            None => filtered(models, word).len() == 0,
        },
        has_space(text) && !(exists|w: Seq<char>| text == #[trigger] ("/model "@ + w) && !has_space(
            w,
        )) ==> popover_for(text, before, commands, models) is None,
{
    if text.len() == 0 || text[0] != '/' {
        law_plain_text_asks_for_nothing(text);
    }
    if text == "/"@ + word && !has_space(word) {
        law_slash_word_asks_for_commands(word);
    }
    if text == "/model "@ + word && !has_space(word) {
        law_model_word_asks_for_models(word);
    }
    law_query_has_no_space(text);
    if let Some(TriggerView::Slash { query }) = trigger_of(text) {
        reveal_strlit("/");
        if has_space(text) {
            let i = choose|i: int| 0 <= i < text.len() && is_space(#[trigger] text[i]);
            assert(i > 0);
            assert(text[i] == query[i - 1]);
        }
    }
    if let Some(TriggerView::Model { query }) = trigger_of(text) {
        assert(text == "/model "@ + query);
    }
    if let Some(trigger) = trigger_of(text) {
        if let Some(fresh) = opened(trigger, commands, models) {
            if let Some(b) = before {
                if let Some(name) = b.selected_name() {
                    lemma_first_index_bounds(names(fresh.items), name);
                }
            }
        }
    }
}

/// The popover keeps the selected entry, by its name, where it is still listed, at its first place;
/// otherwise, and in a popover that opens, the first entry is selected.
pub proof fn law_popover_keeps_the_selection(
    text: Seq<char>,
    before: Option<PopoverView>,
    commands: Seq<CommandView>,
    models: Seq<CommandView>,
    at: int,
)
    requires
        popover_for(text, before, commands, models) is Some,
    ensures
        ({
            let p = popover_for(text, before, commands, models)->0;
            &&& before is None ==> p.selected == 0
            &&& before matches Some(b) ==> !(0 <= b.selected < b.items.len()) ==> p.selected == 0
            &&& before matches Some(b) ==> 0 <= b.selected < b.items.len() ==> {
                let name = b.items[b.selected].name;
                &&& 0 <= at < p.items.len() && p.items[at].name == name ==> p.selected <= at
                    && p.items[p.selected].name == name
                &&& (forall|i: int| 0 <= i < p.items.len() ==> (#[trigger] p.items[i]).name != name)
                    ==> p.selected == 0
            }
        }),
{
    let p = popover_for(text, before, commands, models)->0;
    let all = names(p.items);
    if let Some(b) = before {
        if let Some(name) = b.selected_name() {
            lemma_first_index_bounds(all, name);
            if 0 <= at < p.items.len() && p.items[at].name == name {
                assert(all[at] == name);
            }
            if forall|i: int| 0 <= i < p.items.len() ==> (#[trigger] p.items[i]).name != name {
                let k = first_index(all, name);
                if k < all.len() {
                    assert(p.items[k].name == name);
                }
            }
        }
    }
}

/// Moving the selection changes nothing of a popover but the selection, which is what the old one
/// and the move add up to, up to full rounds.
pub proof fn law_moving_is_counting(p: PopoverView, a: int, b: int)
    requires
        0 <= p.selected < p.items.len(),
    ensures
        p.moved(a).kind == p.kind,
        p.moved(a).query == p.query,
        p.moved(a).items == p.items,
        p.moved(0) == p,
        0 <= p.selected + a < p.items.len() ==> p.moved(a).selected == p.selected + a,
        p.moved(a).moved(b) == p.moved(a + b),
        (PopoverView { items: seq![], ..p }).moved(a) == (PopoverView { items: seq![], ..p }),
{
    let n = p.items.len() as int;
    vstd::arithmetic::div_mod::lemma_small_mod(p.selected as nat, n as nat);
    if 0 <= p.selected + a < n {
        vstd::arithmetic::div_mod::lemma_small_mod((p.selected + a) as nat, n as nat);
    }
    vstd::arithmetic::div_mod::lemma_add_mod_noop(p.selected + a, b, n);
    vstd::arithmetic::div_mod::lemma_mod_twice(p.selected + a, n);
    vstd::arithmetic::div_mod::lemma_add_mod_noop((p.selected + a) % n, b, n);
}

/// What is put into the editor: the selected command and a blank, or `/model ` and the selected
/// model. Without a selection there is nothing.
pub proof fn law_completions(p: PopoverView)
    ensures
        0 <= p.selected < p.items.len() && p.kind == PopoverKind::Slash ==> p.completion() == Some(
            p.items[p.selected].name + " "@,
        ),
        0 <= p.selected < p.items.len() && p.kind == PopoverKind::Model ==> p.completion() == Some(
            "/model "@ + p.items[p.selected].name,
        ),
        !(0 <= p.selected < p.items.len()) ==> p.completion() is None,
{
}

/// The rows of a popover are neighbouring entries, eight or as many as there are. They start at the
/// first as long as the selection is among the first eight; further down the selection is the last
/// row.
pub proof fn law_rows_of_a_popover(p: PopoverView, i: int)
    requires
        0 <= p.selected,
        p.selected < 8 || p.selected - 7 <= p.items.len(),
    ensures
        ({
            let start: int = if p.selected < 8 {
                0
            } else {
                p.selected - 7
            };
            &&& p.rows().len() == (if p.items.len() - start < 8 {
                p.items.len() - start
            } else {
                8
            })
            &&& 0 <= i < p.rows().len() ==> p.rows()[i].name == p.items[start + i].name
                && p.rows()[i].desc == described(p.items[start + i]) && (p.rows()[i].is_selected
                <==> start + i == p.selected)
        }),
{
}

/// A row's description is that of its entry, with the aliases in brackets behind two blanks, if
/// there are any.
pub proof fn law_described_rows(e: CommandView, alias: Seq<char>)
    ensures
        e.aliases.len() == 0 ==> described(e) == e.desc,
        e.aliases == seq![alias] ==> described(e) == e.desc + "  ("@ + alias + ")"@,
        e.aliases.len() > 0 ==> described(e) == e.desc + "  ("@ + joined(e.aliases, ", "@) + ")"@,
{
}

/// The header names what is listed, and counts the selection from one; the count of entries is
/// never less than one.
pub proof fn law_header_counts(p: PopoverView)
    requires
        0 <= p.selected,
    ensures
        p.items.len() == 0 && p.kind == PopoverKind::Slash ==> p.header() == "Slash commands"@
            + "  ("@ + decimal((p.selected + 1) as nat) + "/"@ + decimal(1) + ")"@,
        p.items.len() == 0 && p.kind == PopoverKind::Model ==> p.header() == "Models"@ + "  ("@
            + decimal((p.selected + 1) as nat) + "/"@ + decimal(1) + ")"@,
        p.items.len() > 0 && p.kind == PopoverKind::Slash ==> p.header() == "Slash commands"@
            + "  ("@ + decimal((p.selected + 1) as nat) + "/"@ + decimal(p.items.len()) + ")"@,
        p.items.len() > 0 && p.kind == PopoverKind::Model ==> p.header() == "Models"@ + "  ("@
            + decimal((p.selected + 1) as nat) + "/"@ + decimal(p.items.len()) + ")"@,
{
}

/// What is asked for: a slash and a word without white space, or `/model `, and such a word;
/// nothing else.
pub proof fn law_what_is_asked_for(text: Seq<char>, word: Seq<char>)
    ensures
        trigger_of(text) == Some(TriggerView::Slash { query: word }) <==> text == "/"@ + word
            && !has_space(word),
        trigger_of(text) == Some(TriggerView::Model { query: word }) <==> text == "/model "@ + word
            && !has_space(word),
{
    law_query_has_no_space(text);
    if text == "/"@ + word && !has_space(word) {
        law_slash_word_asks_for_commands(word);
    }
    if text == "/model "@ + word && !has_space(word) {
        law_model_word_asks_for_models(word);
    }
}

/// A sorted list has ascending names, and under each name what the other has under it, in order.
pub proof fn law_sorting_keeps_the_entries(
    sorted: Seq<CommandView>,
    list: Seq<CommandView>,
    i: int,
    j: int,
    name: Seq<char>,
)
    requires
        is_stable_sort(sorted, list),
    ensures
        0 <= i < j < sorted.len() ==> lex_le(sorted[i].name, sorted[j].name),
        named(sorted, name) == named(list, name),
{
}

/// A popover opens with the entries that match the query, of the commands or of the models, and
/// with the first of them selected; where none matches it does not open.
pub proof fn law_opening(query: Seq<char>, commands: Seq<CommandView>, models: Seq<CommandView>)
    ensures
        ({
            let slash = opened(TriggerView::Slash { query }, commands, models);
            let model = opened(TriggerView::Model { query }, commands, models);
            &&& slash is None <==> filtered(commands, query).len() == 0
            &&& model is None <==> filtered(models, query).len() == 0
            &&& slash matches Some(p) ==> p.kind == PopoverKind::Slash && p.query == query
                && p.items == filtered(commands, query) && p.selected == 0
            &&& model matches Some(p) ==> p.kind == PopoverKind::Model && p.query == query
                && p.items == filtered(models, query) && p.selected == 0
        }),
{
}

/// What is built in: the commands and the models of the agent, with their descriptions. Of the
/// commands only `/clear` goes by other names.
pub proof fn law_what_is_built_in(agent: AgentView, i: int)
    ensures
        ({
            let commands = seq![
                ("/clear"@, "New conversation"@),
                ("/compact"@, "Compact conversation with optional focus"@),
                ("/resume"@, "Resume a session or open picker"@),
                ("/branch"@, "Fork current conversation"@),
                ("/rename"@, "Rename current session"@),
                ("/exit"@, "Exit the CLI"@),
                ("/model"@, "Select/change AI model"@),
                ("/effort"@, "Set effort level (low/medium/high/max)"@),
                ("/config"@, "Open Settings interface"@),
                ("/fast"@, "Toggle fast mode"@),
                ("/theme"@, "Change color theme"@),
                ("/plan"@, "Enter plan mode"@),
                ("/diff"@, "View uncommitted changes"@),
                ("/rewind"@, "Rewind conversation/code to prior point"@),
                ("/review"@, "Review a pull request"@),
                ("/context"@, "Visualize context usage"@),
                ("/cost"@, "Show token usage stats"@),
                ("/usage"@, "Show plan limits/rate limits"@),
                ("/help"@, "Show help"@),
                ("/doctor"@, "Diagnose installation"@),
                ("/init"@, "Initialize "@ + agent.memory_file),
                ("/memory"@, "Edit memory files"@),
                ("/permissions"@, "Manage tool permissions"@),
                ("/skills"@, "List available skills"@),
                ("/mcp"@, "Manage MCP server connections"@),
                ("/hooks"@, "View hook configurations"@),
                ("/simplify"@, "Code review for quality/efficiency"@),
                ("/loop"@, "Run a prompt repeatedly"@),
                ("/schedule"@, "Create/manage scheduled tasks"@),
                ("/security-review"@, "Security review of pending changes"@),
            ];
            &&& slash_commands(agent).len() == commands.len()
            &&& 0 <= i < commands.len() ==> slash_commands(agent)[i].name == commands[i].0
                && slash_commands(agent)[i].desc == commands[i].1
            &&& 0 < i < commands.len() ==> slash_commands(agent)[i].aliases.len() == 0
            &&& slash_commands(agent)[0].aliases == seq!["/reset"@, "/new"@]
        }),
        ({
            let known = seq![
                ("default"@, "Recommended default model"@),
                ("opus"@, "Latest "@ + agent.title + " Opus"@),
                ("sonnet"@, "Latest "@ + agent.title + " Sonnet"@),
                ("haiku"@, "Latest "@ + agent.title + " Haiku"@),
                ("opusplan"@, "Opus for planning, Sonnet for execution"@),
                (agent.slug + "-opus-4-7"@, "Opus 4.7 — most capable"@),
                (agent.slug + "-opus-4-6"@, "Opus 4.6"@),
                (agent.slug + "-opus-4-5"@, "Opus 4.5"@),
                (agent.slug + "-sonnet-4-6"@, "Sonnet 4.6"@),
                (agent.slug + "-sonnet-4-5"@, "Sonnet 4.5"@),
                (agent.slug + "-haiku-4-5"@, "Haiku 4.5 — fastest"@),
            ];
            &&& models(agent).len() == known.len()
            &&& 0 <= i < known.len() ==> models(agent)[i].name == known[i].0
                && models(agent)[i].desc == known[i].1 && models(agent)[i].aliases.len() == 0
        }),
{
}

/// The entries under a name are those that have it, in order.
pub proof fn law_entries_under_a_name(
    a: Seq<CommandView>,
    e: CommandView,
    name: Seq<char>,
)
    ensures
        named(a.push(e), name) == (if e.name == name {
            named(a, name).push(e)
        } else {
            named(a, name)
        }),
        named(seq![], name) == Seq::<CommandView>::empty(),
        has_name(a.push(e), name) <==> has_name(a, name) || e.name == name,
        !has_name(seq![], name),
{
    let p = |x: CommandView| x.name == name;
    a.lemma_filter_push(e, p);
    reveal(Seq::filter);
    assert(Seq::<CommandView>::empty().filter(p) =~= Seq::<CommandView>::empty());
    let b = a.push(e);
    if has_name(a, name) {
        let i = choose|i: int| 0 <= i < a.len() && (#[trigger] a[i]).name == name;
        assert(b[i].name == name);
    }
    if e.name == name {
        assert(b[a.len() as int].name == name);
    }
    if has_name(b, name) && e.name != name {
        let i = choose|i: int| 0 <= i < b.len() && (#[trigger] b[i]).name == name;
        assert(a[i].name == name);
    }
}

/// A discovered command joins the list unless a built-in one has its name; the built-in commands
/// stay as they are, in front.
pub proof fn law_merging_command_by_command(
    agent: AgentView,
    discovered: Seq<CommandView>,
    e: CommandView,
)
    ensures
        merged(agent, seq![]) == slash_commands(agent),
        merged(agent, discovered.push(e)) == (if has_name(slash_commands(agent), e.name) {
            merged(agent, discovered)
        } else {
            merged(agent, discovered).push(e)
        }),
{
    let fresh = |x: CommandView| !has_name(slash_commands(agent), x.name);
    discovered.lemma_filter_push(e, fresh);
    reveal(Seq::filter);
    assert(Seq::<CommandView>::empty().filter(fresh) =~= Seq::<CommandView>::empty());
    assert(merged(agent, seq![]) =~= slash_commands(agent));
    assert(merged(agent, discovered.push(e)) =~= (if has_name(slash_commands(agent), e.name) {
        merged(agent, discovered)
    } else {
        merged(agent, discovered).push(e)
    }));
}

} // verus!
