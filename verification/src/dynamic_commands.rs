//! The slash commands that users and plugins define.
//!
//! A command is a Markdown file. Those of the user are in the `commands` directory of the agent's
//! home, those of a plugin in the `commands` directory of its installation. Where plugins are
//! installed stands in the manifest `plugins/installed_plugins.json` of the agent's home.

use crate::agent::AgentNames;
use crate::json::{document, entries_of, get, json_entries, json_list, json_of, parse, Json};
use crate::slash_commands::{entries, unaliased, CommandEntry, CommandView};
use crate::text::{
    after_prefix, first_index, lemma_first_index, next_line, same, strip_prefix, text_lines, to_chars,
    trim, trimmed, CharClass,
};
use serde_json::Value;
use vstd::prelude::*;
use vstd::string::*;

verus! {

/// The description of a user's command whose file gives none.
pub const USER_COMMAND_DESC: &'static str = "User command";

/// The description of a plugin's command whose file gives none.
pub const PLUGIN_COMMAND_DESC: &'static str = "Plugin command";

/// A file in a directory of commands.
#[derive(Debug, PartialEq)]
pub struct CommandFile {
    /// The file's name. `None` where it is not Unicode.
    pub name: Option<String>,
    /// What the file holds. `None` where it could not be read.
    pub text: Option<String>,
}

/// The mathematical content of a `CommandFile`.
pub struct FileView {
    pub name: Option<Seq<char>>,
    pub text: Option<Seq<char>>,
}

impl View for CommandFile {
    type V = FileView;

    open spec fn view(&self) -> FileView {
        FileView {
            name: match self.name {
                Some(name) => Some(name@),
                None => None,
            },
            text: match self.text {
                Some(text) => Some(text@),
                None => None,
            },
        }
    }
}

/// The contents of a list of files.
pub open spec fn files(list: Seq<CommandFile>) -> Seq<FileView> {
    list.map_values(|f: CommandFile| f@)
}

/// The files of a directory that may be unreadable, and then shows none.
pub open spec fn listed(listing: Option<Vec<CommandFile>>) -> Seq<FileView> {
    match listing {
        Some(list) => files(list@),
        None => seq![],
    }
}

/// The name of the agent's settings directory, below the user's home directory.
pub fn settings_dir_name(agent: &AgentNames) -> (r: String)
    ensures
        r@ == "."@ + agent@.slug,
{
    ".".to_owned().concat(agent.slug.as_str())
}

/// The agent's home: the directory that the environment names, else the settings directory below
/// the user's home directory.
pub fn claude_home_dir<P>(named: Option<P>, below_home: Option<P>) -> (r: Option<P>)
    ensures
        r == (if named is Some {
            named
        } else {
            below_home
        }),
{
    match named {
        Some(dir) => Some(dir),
        None => below_home,
    }
}

/// The stem of the file name `name` if it has the extension `md`. A name that starts with its only
/// dot has no extension.
pub open spec fn stem_of(name: Seq<char>) -> Option<Seq<char>> {
    if name.len() > 3 && ".md"@.is_suffix_of(name) {
        Some(name.take(name.len() - 3))
    } else {
        None
    }
}

/// The stem of the file name `name`, if it has the extension `md`.
pub fn command_stem(name: &str) -> (r: Option<String>)
    ensures
        match r {
            Some(stem) => stem_of(name@) == Some(stem@),
            None => stem_of(name@) is None,
        },
{
    let chars = to_chars(name);
    let n: usize = chars.len();
    proof {
        reveal_strlit(".md");
        assert(n > 3 ==> name@.subrange(n - 3, n as int) =~= seq![
            name@[n - 3],
            name@[n - 2],
            name@[n - 1],
        ]);
        assert(".md"@ =~= seq!['.', 'm', 'd']);
        if n > 3 && ".md"@.is_suffix_of(name@) {
            let tail = name@.subrange(n - 3, n as int);
            assert(tail[0] == '.' && tail[1] == 'm' && tail[2] == 'd');
        }
    }
    if n > 3 && chars[n - 3] == '.' && chars[n - 2] == 'm' && chars[n - 1] == 'd' {
        assert(name@.subrange(0, n - 3) =~= name@.take(n - 3));
        Some(name.substring_char(0, n - 3).to_owned())
    } else {
        None
    }
}

/// The description that a line of a front matter block gives: what follows `description:`, without
/// surrounding white space and then without surrounding quotation marks, if anything is left.
pub open spec fn described(line: Seq<char>) -> Option<Seq<char>> {
    match after_prefix(line, "description:"@) {
        Some(rest) => {
            let value = trimmed(trimmed(rest, CharClass::White), CharClass::Quote);
            if value.len() > 0 {
                Some(value)
            } else {
                None
            }
        },
        None => None,
    }
}

/// The first description that one of `lines` gives, before a line that closes the block.
pub open spec fn first_description(lines: Seq<Seq<char>>) -> Option<Seq<char>>
    decreases lines.len(),
{
    if lines.len() == 0 || lines[0] == "---"@ {
        None
    } else if described(lines[0]) is Some {
        described(lines[0])
    } else {
        first_description(lines.skip(1))
    }
}

/// The description in the front matter block at the top of a file.
pub open spec fn description_of(text: Seq<char>) -> Option<Seq<char>> {
    let lines = text_lines(text);
    if lines.len() > 0 && lines[0] == "---"@ {
        first_description(lines.skip(1))
    } else {
        None
    }
}

fn line_description(line: &str) -> (r: Option<String>)
    ensures
        match r {
            Some(value) => described(line@) == Some(value@),
            None => described(line@) is None,
        },
{
    match strip_prefix(line, "description:") {
        Some(rest) => {
            let value = trim(trim(rest, CharClass::White), CharClass::Quote);
            if value.is_empty() {
                None
            } else {
                Some(value.to_owned())
            }
        },
        None => None,
    }
}

/// The `description:` field of the front matter block at the top of a file that holds `text`.
/// `None` where there is no such block or no description in it.
pub fn read_description(text: &str) -> (r: Option<String>)
    ensures
        match r {
            Some(value) => description_of(text@) == Some(value@),
            None => description_of(text@) is None,
        },
{
    let chars = to_chars(text);
    if chars.len() == 0 {
        assert(text_lines(text@) =~= seq![]);
        return None;
    }
    assert(text@.skip(0) =~= text@);
    let (end, next) = next_line(&chars, 0);
    proof {
        let first = text@.subrange(0, end as int);
        let rest = text_lines(text@.skip(next as int));
        assert(text_lines(text@)[0] == first);
        assert(text_lines(text@).skip(1) =~= rest);
    }
    if !same(text.substring_char(0, end), "---") {
        return None;
    }
    let mut pos: usize = next;
    while pos < chars.len()
        invariant
            pos <= chars.len(),
            chars@ == text@,
            description_of(text@) == first_description(text_lines(text@.skip(pos as int))),
        decreases chars.len() - pos,
    {
        let (end, next) = next_line(&chars, pos);
        proof {
            let here = text_lines(text@.skip(pos as int));
            assert(here[0] == text@.subrange(pos as int, end as int));
            assert(here.skip(1) =~= text_lines(text@.skip(next as int)));
        }
        let line = text.substring_char(pos, end);
        if same(line, "---") {
            return None;
        }
        match line_description(line) {
            Some(value) => {
                return Some(value);
            },
            None => {},
        }
        pos = next;
    }
    assert(text@.skip(pos as int) =~= seq![]);
    assert(text_lines(text@.skip(pos as int)) =~= seq![]);
    None
}

/// The name of the command with the stem `stem`, in the namespace `prefix` if there is one.
pub open spec fn command_name(prefix: Option<Seq<char>>, stem: Seq<char>) -> Seq<char> {
    match prefix {
        Some(p) => "/"@ + p + ":"@ + stem,
        None => "/"@ + stem,
    }
}

/// The description of a command: what its file gives, else one that tells where it comes from.
pub open spec fn command_desc(prefix: Option<Seq<char>>, text: Option<Seq<char>>) -> Seq<char> {
    let given = match text {
        Some(t) => description_of(t),
        None => None,
    };
    match given {
        Some(desc) => desc,
        None => if prefix is Some {
            PLUGIN_COMMAND_DESC@
        } else {
            USER_COMMAND_DESC@
        },
    }
}

/// The command that a file defines, if it is a Markdown file.
pub open spec fn command_of(prefix: Option<Seq<char>>, file: FileView) -> Option<CommandView> {
    let stem = match file.name {
        Some(name) => stem_of(name),
        None => None,
    };
    match stem {
        Some(s) => Some(unaliased(command_name(prefix, s), command_desc(prefix, file.text))),
        None => None,
    }
}

/// The commands that the files of a directory define, in their order.
pub open spec fn commands_in(prefix: Option<Seq<char>>, list: Seq<FileView>) -> Seq<CommandView>
    decreases list.len(),
{
    if list.len() == 0 {
        seq![]
    } else {
        let before = commands_in(prefix, list.drop_last());
        match command_of(prefix, list.last()) {
            Some(command) => before.push(command),
            None => before,
        }
    }
}

/// The content of an optional text.
pub open spec fn prefix_view(prefix: Option<&str>) -> Option<Seq<char>> {
    match prefix {
        Some(p) => Some(p@),
        None => None,
    }
}

fn file_command(file: &CommandFile, prefix: Option<&str>) -> (r: Option<CommandEntry>)
    ensures
        match r {
            Some(command) => command_of(prefix_view(prefix), file@) == Some(command@),
            None => command_of(prefix_view(prefix), file@) is None,
        },
{
    let stem = match &file.name {
        Some(name) => match command_stem(name.as_str()) {
            Some(stem) => stem,
            None => {
                return None;
            },
        },
        None => {
            return None;
        },
    };
    let mut name = "/".to_owned();
    if let Some(p) = prefix {
        name.append(p);
        name.append(":");
    }
    name.append(stem.as_str());
    let given = match &file.text {
        Some(text) => read_description(text.as_str()),
        None => None,
    };
    let desc = match given {
        Some(desc) => desc,
        None => if prefix.is_some() {
            PLUGIN_COMMAND_DESC.to_owned()
        } else {
            USER_COMMAND_DESC.to_owned()
        },
    };
    let r = CommandEntry { name, desc, aliases: Vec::new() };
    assert(r@.aliases =~= seq![]);
    Some(r)
}

/// The commands of the directory with the given files: one for each `*.md` file, with the name
/// `/{stem}`, or `/{prefix}:{stem}` where there is a prefix. None where the directory could not be
/// read.
pub fn discover_commands_in_dir(listing: &Option<Vec<CommandFile>>, prefix: Option<&str>) -> (r: Vec<
    CommandEntry,
>)
    ensures
        entries(r@) == commands_in(prefix_view(prefix), listed(*listing)),
{
    let mut out: Vec<CommandEntry> = Vec::new();
    assert(entries(out@) =~= seq![]);
    match listing {
        Some(list) => {
            let ghost all = files(list@);
            let ghost p = prefix_view(prefix);
            let mut i: usize = 0;
            assert(all.take(0) =~= seq![]);
            while i < list.len()
                invariant
                    i <= list.len(),
                    all == files(list@),
                    p == prefix_view(prefix),
                    entries(out@) == commands_in(p, all.take(i as int)),
                decreases list.len() - i,
            {
                let ghost before = entries(out@);
                assert(all.take(i + 1).drop_last() =~= all.take(i as int));
                assert(all.take(i + 1).last() == list@[i as int]@);
                match file_command(&list[i], prefix) {
                    Some(command) => {
                        out.push(command);
                        assert(entries(out@) =~= before.push(command@));
                    },
                    None => {},
                }
                i = i + 1;
            }
            assert(all.take(all.len() as int) =~= all);
        },
        None => {},
    }
    out
}

/// The commands of the user, from the `commands` directory of the agent's home.
pub fn discover_user_commands(listing: &Option<Vec<CommandFile>>) -> (r: Vec<CommandEntry>)
    ensures
        entries(r@) == commands_in(None, listed(*listing)),
{
    discover_commands_in_dir(listing, None)
}

/// An installation of a plugin.
#[derive(Debug, PartialEq)]
pub struct PluginInstall {
    /// The namespace of the plugin's commands.
    pub namespace: String,
    /// The directory of the installation, which has the commands in a directory `commands`.
    pub install_path: String,
}

/// The mathematical content of a `PluginInstall`.
pub struct InstallView {
    pub namespace: Seq<char>,
    pub install_path: Seq<char>,
}

impl View for PluginInstall {
    type V = InstallView;

    open spec fn view(&self) -> InstallView {
        InstallView { namespace: self.namespace@, install_path: self.install_path@ }
    }
}

/// The contents of a list of installations.
pub open spec fn installs(list: Seq<PluginInstall>) -> Seq<InstallView> {
    list.map_values(|p: PluginInstall| p@)
}

/// The namespace of the plugin with the key `key`, which is `<name>@<marketplace>`: the part before
/// the `@`, or the whole key where there is none.
pub open spec fn namespace_of(key: Seq<char>) -> Seq<char> {
    key.take(first_index(key, '@'))
}

/// The namespace of the plugin with the key `key`.
pub fn plugin_namespace(key: &str) -> (r: String)
    ensures
        r@ == namespace_of(key@),
{
    let chars = to_chars(key);
    let mut i: usize = 0;
    while i < chars.len() && chars[i] != '@'
        invariant
            i <= chars.len(),
            forall|j: int| 0 <= j < i ==> #[trigger] chars@[j] != '@',
        decreases chars.len() - i,
    {
        i = i + 1;
    }
    proof {
        lemma_first_index(key@, '@', i as int);
        assert(key@.subrange(0, i as int) =~= key@.take(i as int));
    }
    key.substring_char(0, i).to_owned()
}

/// The installations that the items of a plugin's list give: those with a path.
pub open spec fn installs_in_list(namespace: Seq<char>, items: Seq<Json>) -> Seq<InstallView>
    decreases items.len(),
{
    if items.len() == 0 {
        seq![]
    } else {
        let before = installs_in_list(namespace, items.drop_last());
        let path = match items.last().field("installPath"@) {
            Some(value) => value.text(),
            None => None,
        };
        match path {
            Some(install_path) => before.push(InstallView { namespace, install_path }),
            None => before,
        }
    }
}

/// The installations that the entries of the manifest's plugin table give, in its order. An entry
/// that is no list gives none.
pub open spec fn installs_in_table(table: Seq<(Seq<char>, Json)>) -> Seq<InstallView>
    decreases table.len(),
{
    if table.len() == 0 {
        seq![]
    } else {
        let before = installs_in_table(table.drop_last());
        match table.last().1 {
            Json::Array(items) => before + installs_in_list(namespace_of(table.last().0), items),
            _ => before,
        }
    }
}

/// The installations that a manifest gives.
pub open spec fn installs_in(manifest: Json) -> Seq<InstallView> {
    match manifest.field("plugins"@) {
        Some(Json::Object(table)) => installs_in_table(table),
        _ => seq![],
    }
}

/// The installations that the text of a manifest gives. None where it is no document.
pub open spec fn installs_of_text(text: Seq<char>) -> Seq<InstallView> {
    match document(text) {
        Some(manifest) => installs_in(manifest),
        None => seq![],
    }
}

fn install_path_of(item: &Value) -> (r: Option<String>)
    ensures
        match r {
            Some(path) => json_of(*item).field("installPath"@) matches Some(value) && value.text()
                == Some(path@),
            None => match json_of(*item).field("installPath"@) {
                Some(value) => value.text() is None,
                None => true,
            },
        },
{
    match get(item, "installPath") {
        Some(value) => match value.as_str() {
            Some(path) => Some(path.to_owned()),
            None => None,
        },
        None => None,
    }
}

fn push_list(out: &mut Vec<PluginInstall>, namespace: &str, items: &Vec<Value>)
    ensures
        installs(final(out)@) == installs(old(out)@) + installs_in_list(
            namespace@,
            json_list(items@),
        ),
{
    let ghost start = installs(out@);
    let ghost all = json_list(items@);
    let mut i: usize = 0;
    assert(all.take(0) =~= seq![]);
    assert(start + installs_in_list(namespace@, all.take(0)) =~= start);
    while i < items.len()
        invariant
            i <= items.len(),
            all == json_list(items@),
            installs(out@) == start + installs_in_list(namespace@, all.take(i as int)),
        decreases items.len() - i,
    {
        let ghost before = installs(out@);
        let ghost done = installs_in_list(namespace@, all.take(i as int));
        assert(all.take(i + 1).drop_last() =~= all.take(i as int));
        assert(all.take(i + 1).last() == json_of(items@[i as int]));
        match install_path_of(&items[i]) {
            Some(install_path) => {
                let install = PluginInstall { namespace: namespace.to_owned(), install_path };
                let ghost view = install@;
                out.push(install);
                assert(installs(out@) =~= before.push(view));
                assert(before.push(view) =~= start + done.push(view));
            },
            None => {},
        }
        i = i + 1;
    }
    assert(all.take(all.len() as int) =~= all);
}

/// The installations that a parsed manifest gives.
pub fn manifest_installs(manifest: &Value) -> (r: Vec<PluginInstall>)
    ensures
        installs(r@) == installs_in(json_of(*manifest)),
{
    let mut out: Vec<PluginInstall> = Vec::new();
    assert(installs(out@) =~= seq![]);
    let plugins = match get(manifest, "plugins") {
        Some(plugins) => plugins,
        None => {
            return out;
        },
    };
    let list = match entries_of(plugins) {
        Some(list) => list,
        None => {
            return out;
        },
    };
    let ghost table = json_entries(list@);
    let mut i: usize = 0;
    assert(table.take(0) =~= seq![]);
    while i < list.len()
        invariant
            i <= list.len(),
            table == json_entries(list@),
            installs(out@) == installs_in_table(table.take(i as int)),
        decreases list.len() - i,
    {
        let (key, value) = list[i];
        let ghost before = installs(out@);
        assert(table.take(i + 1).drop_last() =~= table.take(i as int));
        assert(table.take(i + 1).last() == (key@, json_of(*value)));
        let namespace = plugin_namespace(key.as_str());
        match value.as_array() {
            Some(items) => {
                push_list(&mut out, namespace.as_str(), items);
            },
            None => {},
        }
        i = i + 1;
    }
    assert(table.take(table.len() as int) =~= table);
    out
}

/// The installations that the text of a manifest gives.
pub fn plugin_installs(text: &str) -> (r: Vec<PluginInstall>)
    ensures
        installs(r@) == installs_of_text(text@),
{
    match parse(text) {
        Ok(manifest) => manifest_installs(&manifest),
        Err(_) => {
            let r: Vec<PluginInstall> = Vec::new();
            assert(installs(r@) =~= seq![]);
            r
        },
    }
}

/// The files that each directory shows.
pub open spec fn all_listed(listings: Seq<Option<Vec<CommandFile>>>) -> Seq<Seq<FileView>> {
    listings.map_values(|l: Option<Vec<CommandFile>>| listed(l))
}

/// The commands of `plugins`, where the `commands` directory of the plugin at each position shows
/// the files at that position of `shown`. A plugin that `shown` does not reach has none.
pub open spec fn plugin_commands(plugins: Seq<InstallView>, shown: Seq<Seq<FileView>>) -> Seq<
    CommandView,
>
    decreases plugins.len(),
{
    if plugins.len() == 0 {
        seq![]
    } else {
        let last = plugins.len() - 1;
        let before = plugin_commands(plugins.drop_last(), shown);
        if last < shown.len() {
            before + commands_in(Some(plugins[last].namespace), shown[last])
        } else {
            before
        }
    }
}

/// The commands of the given installations; `listings` has the files of each one's `commands`
/// directory.
pub fn commands_of_installs(
    plugins: &Vec<PluginInstall>,
    listings: &Vec<Option<Vec<CommandFile>>>,
) -> (r: Vec<CommandEntry>)
    ensures
        entries(r@) == plugin_commands(installs(plugins@), all_listed(listings@)),
{
    let mut out: Vec<CommandEntry> = Vec::new();
    let ghost all = installs(plugins@);
    let ghost shown = all_listed(listings@);
    let mut i: usize = 0;
    assert(all.take(0) =~= seq![]);
    assert(entries(out@) =~= seq![]);
    while i < plugins.len()
        invariant
            i <= plugins.len(),
            all == installs(plugins@),
            shown == all_listed(listings@),
            entries(out@) == plugin_commands(all.take(i as int), shown),
        decreases plugins.len() - i,
    {
        assert(all.take(i + 1).drop_last() =~= all.take(i as int));
        assert(all.take(i + 1).last() == plugins@[i as int]@);
        if i < listings.len() {
            let ghost before = entries(out@);
            let mut found = discover_commands_in_dir(
                &listings[i],
                Some(plugins[i].namespace.as_str()),
            );
            let ghost added = entries(found@);
            assert(added == commands_in(Some(plugins@[i as int]@.namespace), shown[i as int]));
            out.append(&mut found);
            assert(entries(out@) =~= before + added);
        }
        i = i + 1;
    }
    assert(all.take(all.len() as int) =~= all);
    out
}

/// The commands of plugins. `manifest` is the text of the manifest, if it could be read;
/// `listings` has the files in the `commands` directory of each installation that it gives.
pub fn discover_plugin_commands(
    manifest: Option<&str>,
    listings: &Vec<Option<Vec<CommandFile>>>,
) -> (r: Vec<CommandEntry>)
    ensures
        entries(r@) == match manifest {
            Some(text) => plugin_commands(installs_of_text(text@), all_listed(listings@)),
            None => seq![],
        },
{
    match manifest {
        Some(text) => {
            let plugins = plugin_installs(text);
            commands_of_installs(&plugins, listings)
        },
        None => {
            let r: Vec<CommandEntry> = Vec::new();
            assert(entries(r@) =~= seq![]);
            r
        },
    }
}

/// The name of a command starts with a slash; that of a plugin's command goes on with the plugin's
/// namespace and a colon.
pub proof fn law_command_name_shape(prefix: Option<Seq<char>>, stem: Seq<char>)
    ensures
        command_name(prefix, stem).len() > 0,
        command_name(prefix, stem)[0] == '/',
        prefix matches Some(p) ==> (p + ":"@).is_prefix_of(command_name(prefix, stem).skip(1)),
        stem.is_suffix_of(command_name(prefix, stem)),
{
    reveal_strlit("/");
    reveal_strlit(":");
    let name = command_name(prefix, stem);
    match prefix {
        Some(p) => {
            assert(name.skip(1).subrange(0, (p + ":"@).len() as int) =~= p + ":"@);
        },
        None => {},
    }
    assert(name.subrange(name.len() - stem.len(), name.len() as int) =~= stem);
}

/// A command always has a description.
pub proof fn law_command_has_description(prefix: Option<Seq<char>>, text: Option<Seq<char>>)
    ensures
        command_desc(prefix, text).len() > 0,
{
    reveal_strlit("User command");
    reveal_strlit("Plugin command");
    if let Some(t) = text {
        if let Some(d) = description_of(t) {
            lemma_first_description_nonempty(text_lines(t).skip(1));
        }
    }
}

proof fn lemma_first_description_nonempty(lines: Seq<Seq<char>>)
    ensures
        first_description(lines) matches Some(d) ==> d.len() > 0,
    decreases lines.len(),
{
    if lines.len() > 0 && lines[0] != "---"@ && described(lines[0]) is None {
        lemma_first_description_nonempty(lines.skip(1));
    }
}

/// A directory gives no more commands than it has files, and each has no aliases.
pub proof fn law_commands_are_files(prefix: Option<Seq<char>>, list: Seq<FileView>)
    ensures
        commands_in(prefix, list).len() <= list.len(),
        forall|i: int|
            0 <= i < commands_in(prefix, list).len() ==> (#[trigger] commands_in(
                prefix,
                list,
            )[i]).aliases.len() == 0,
    decreases list.len(),
{
    if list.len() > 0 {
        law_commands_are_files(prefix, list.drop_last());
    }
}

/// Only Markdown files count: a directory without any gives no commands.
pub proof fn law_only_markdown_counts(prefix: Option<Seq<char>>, list: Seq<FileView>)
    requires
        forall|i: int|
            0 <= i < list.len() ==> ((#[trigger] list[i]).name matches Some(name) ==> !".md"@
                .is_suffix_of(name)),
    ensures
        commands_in(prefix, list).len() == 0,
    decreases list.len(),
{
    if list.len() > 0 {
        assert(list.last() == list[list.len() - 1]);
        let front = list.drop_last();
        assert forall|i: int| 0 <= i < front.len() implies ((#[trigger] front[i]).name matches Some(
            name,
        ) ==> !".md"@.is_suffix_of(name)) by {
            assert(front[i] == list[i]);
        }
        law_only_markdown_counts(prefix, front);
    }
}

/// The namespace of a key `<name>@<marketplace>` is the name; a key without `@` is its own.
pub proof fn law_namespace_is_the_name(name: Seq<char>, marketplace: Seq<char>)
    requires
        !name.contains('@'),
    ensures
        namespace_of(name + seq!['@'] + marketplace) == name,
        namespace_of(name) == name,
{
    let key = name + seq!['@'] + marketplace;
    assert forall|j: int| 0 <= j < name.len() implies #[trigger] key[j] != '@' by {
        assert(key[j] == name[j]);
    }
    assert forall|j: int| 0 <= j < name.len() implies #[trigger] name[j] != '@' by {
        assert(name.contains(name[j]));
    }
    lemma_first_index(key, '@', name.len() as int);
    lemma_first_index(name, '@', name.len() as int);
    assert(key.take(name.len() as int) =~= name);
    assert(name.take(name.len() as int) =~= name);
}

} // verus!
