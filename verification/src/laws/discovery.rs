//! Laws of the commands that files define.

use crate::dynamic_commands::{
    all_listed, command_of, commands_in, described, description_of, first_description, installs_in,
    installs_in_list, installs_in_table, installs_of_text, law_namespace_is_the_name, listed,
    namespace_of, plugin_commands, stem_of, CommandFile, FileView, InstallView,
};
use crate::json::{document, lookup, Json};
use crate::laws::text::{all_in, law_prefix_is_taken_off, law_trimming_leaves_the_core};
use crate::slash_commands::CommandView;
use crate::text::{after_prefix, first_index, lemma_first_index_bounds, text_lines, CharClass};
use vstd::prelude::*;
use vstd::string::*;

verus! {

/// Whether none of `lines` closes a front matter block or gives a description in it.
pub open spec fn are_other_lines(lines: Seq<Seq<char>>) -> bool {
    forall|i: int|
        0 <= i < lines.len() ==> (#[trigger] lines[i]) != "---"@ && described(lines[i]) is None
}

/// Lines that neither close a block nor give a description change nothing of what the lines behind
/// them give. So the description is that of the first line that gives one, whatever other lines
/// stand before it and whatever follows; a line that closes the block ends the search.
pub proof fn law_first_description_behind_other_lines(
    others: Seq<Seq<char>>,
    line: Seq<char>,
    rest: Seq<Seq<char>>,
)
    requires
        are_other_lines(others),
    ensures
        first_description(others + rest) == first_description(rest),
        first_description(others) is None,
        line != "---"@ && described(line) is Some ==> first_description(
            others + seq![line] + rest,
        ) == described(line),
        first_description(others + seq!["---"@] + rest) is None,
    decreases others.len(),
{
    let some = seq![line] + rest;
    let closed = seq!["---"@] + rest;
    assert(some[0] == line);
    assert(closed[0] == "---"@);
    assert(others + seq![line] + rest =~= others + some);
    assert(others + seq!["---"@] + rest =~= others + closed);
    if others.len() == 0 {
        assert(others + rest =~= rest);
        assert(others + some =~= some);
        assert(others + closed =~= closed);
    } else {
        let fewer = others.skip(1);
        assert forall|i: int| 0 <= i < fewer.len() implies (#[trigger] fewer[i]) != "---"@
            && described(fewer[i]) is None by {
            assert(fewer[i] == others[i + 1]);
        }
        law_first_description_behind_other_lines(fewer, line, rest);
        assert(others[0] != "---"@ && described(others[0]) is None);
        assert((others + rest).skip(1) =~= fewer + rest);
        assert((others + some).skip(1) =~= fewer + some);
        assert((others + closed).skip(1) =~= fewer + closed);
        assert(fewer + seq![line] + rest =~= fewer + some);
        assert(fewer + seq!["---"@] + rest =~= fewer + closed);
    }
}

/// A file has a description exactly when its first line opens a front matter block and some line of
/// the block gives one; the description then is that of the first such line.
pub proof fn law_description_is_the_first_in_the_block(text: Seq<char>, at: int)
    ensures
        ({
            let lines = text_lines(text);
            let first_at = |k: int|
                1 <= k < lines.len() && lines[k] != "---"@ && described(lines[k]) is Some
                    && are_other_lines(lines.subrange(1, k));
            &&& lines.len() == 0 || lines[0] != "---"@ ==> description_of(text) is None
            &&& lines.len() > 0 && lines[0] == "---"@ && first_at(at) ==> description_of(text)
                == described(lines[at])
            &&& description_of(text) is Some ==> lines.len() > 0 && lines[0] == "---"@ && exists|
                k: int,
            | #[trigger]
                first_at(k) && description_of(text) == described(lines[k])
        }),
{
    let lines = text_lines(text);
    let first_at = |k: int|
        1 <= k < lines.len() && lines[k] != "---"@ && described(lines[k]) is Some
            && are_other_lines(lines.subrange(1, k));
    if lines.len() > 0 && lines[0] == "---"@ {
        let block = lines.skip(1);
        if first_at(at) {
            let others = lines.subrange(1, at);
            law_first_description_behind_other_lines(others, lines[at], lines.skip(at + 1));
            assert(others + seq![lines[at]] + lines.skip(at + 1) =~= block);
        }
        if description_of(text) is Some {
            let k = lemma_first_description_at(block);
            assert(lines.subrange(1, k + 1) =~= block.take(k));
            assert(block[k] == lines[k + 1]);
            assert(first_at(k + 1));
        }
    }
}

proof fn lemma_first_description_at(lines: Seq<Seq<char>>) -> (k: int)
    requires
        first_description(lines) is Some,
    ensures
        0 <= k < lines.len(),
        lines[k] != "---"@,
        described(lines[k]) == first_description(lines),
        are_other_lines(lines.take(k)),
    decreases lines.len(),
{
    if described(lines[0]) is Some {
        assert(lines.take(0) =~= seq![]);
        0
    } else {
        let j = lemma_first_description_at(lines.skip(1));
        let others = lines.take(j + 1);
        assert(lines.skip(1)[j] == lines[j + 1]);
        assert forall|i: int| 0 <= i < others.len() implies (#[trigger] others[i]) != "---"@
            && described(others[i]) is None by {
            if i > 0 {
                assert(others[i] == lines.skip(1).take(j)[i - 1]);
            }
        }
        j + 1
    }
}

/// A line gives a description where it starts with `description:`: what follows, without white
/// space round it and without quotation marks round that.
pub proof fn law_line_gives_its_value(
    before: Seq<char>,
    open: Seq<char>,
    value: Seq<char>,
    close: Seq<char>,
    after: Seq<char>,
)
    requires
        all_in(before, CharClass::White),
        all_in(after, CharClass::White),
        all_in(open, CharClass::Quote),
        all_in(close, CharClass::Quote),
        (open + value + close).len() > 0 ==> !CharClass::White.has((open + value + close)[0])
            && !CharClass::White.has((open + value + close).last()),
        value.len() > 0 ==> !CharClass::Quote.has(value[0]) && !CharClass::Quote.has(value.last()),
    ensures
        described("description:"@ + before + open + value + close + after) == (if value.len() > 0 {
            Some(value)
        } else {
            None
        }),
{
    let core = open + value + close;
    let rest = before + core + after;
    let line = "description:"@ + before + open + value + close + after;
    assert(line =~= "description:"@ + rest);
    law_prefix_is_taken_off(line, "description:"@, rest);
    law_trimming_leaves_the_core(before, core, after, CharClass::White);
    law_trimming_leaves_the_core(open, value, close, CharClass::Quote);
}

/// A line that does not start with `description:` gives no description.
pub proof fn law_other_line_gives_none(line: Seq<char>)
    ensures
        described(line) is Some ==> line.len() >= 12 && line.take(12) == "description:"@,
        described(line) matches Some(value) ==> value.len() > 0,
{
    reveal_strlit("description:");
    if described(line) is Some {
        let rest = after_prefix(line, "description:"@)->0;
        law_prefix_is_taken_off(line, "description:"@, rest);
        assert(line.take(12) =~= "description:"@);
    }
}

/// A file name has a stem exactly when it is the stem, which is not empty, and `.md`.
pub proof fn law_stem_and_extension(name: Seq<char>, stem: Seq<char>)
    ensures
        stem_of(name) == Some(stem) <==> name == stem + ".md"@ && stem.len() > 0,
{
    reveal_strlit(".md");
    if stem_of(name) == Some(stem) {
        assert(name =~= stem + ".md"@);
    }
    if name == stem + ".md"@ && stem.len() > 0 {
        assert(name.subrange(name.len() - 3, name.len() as int) =~= ".md"@);
        assert(name.take(name.len() - 3) =~= stem);
    }
}

/// A Markdown file defines one command, under its stem: the description is what the file gives,
/// else tells where the command comes from. Any other file defines none.
pub proof fn law_command_of_a_file(prefix: Seq<char>, stem: Seq<char>, text: Option<Seq<char>>)
    requires
        stem.len() > 0,
    ensures
        ({
            let file = FileView { name: Some(stem + ".md"@), text };
            let given = match text {
                Some(t) => description_of(t),
                None => None,
            };
            let nothing: Seq<Seq<char>> = seq![];
            &&& command_of(None, file) == Some(
                CommandView {
                    name: "/"@ + stem,
                    desc: if given is Some {
                        given->0
                    } else {
                        "User command"@
                    },
                    aliases: nothing,
                },
            )
            &&& command_of(Some(prefix), file) == Some(
                CommandView {
                    name: "/"@ + prefix + ":"@ + stem,
                    desc: if given is Some {
                        given->0
                    } else {
                        "Plugin command"@
                    },
                    aliases: nothing,
                },
            )
        }),
{
    law_stem_and_extension(stem + ".md"@, stem);
}

/// A file without a readable name, or whose name is no stem and `.md`, defines no command.
pub proof fn law_other_files_define_nothing(prefix: Option<Seq<char>>, file: FileView)
    requires
        match file.name {
            Some(name) => forall|stem: Seq<char>|
                name == #[trigger] (stem + ".md"@) ==> stem.len() == 0,
            None => true,
        },
    ensures
        command_of(prefix, file) is None,
{
    if let Some(name) = file.name {
        if let Some(stem) = stem_of(name) {
            law_stem_and_extension(name, stem);
        }
    }
}

/// Each file of a directory defines its command by itself, in the directory's order.
pub proof fn law_commands_file_by_file(
    prefix: Option<Seq<char>>,
    a: Seq<FileView>,
    b: Seq<FileView>,
    file: FileView,
)
    ensures
        commands_in(prefix, a + b) == commands_in(prefix, a) + commands_in(prefix, b),
        commands_in(prefix, seq![file]) == (match command_of(prefix, file) {
            Some(command) => seq![command],
            None => seq![],
        }),
        commands_in(prefix, seq![]) == Seq::<CommandView>::empty(),
    decreases b.len(),
{
    assert(seq![file].drop_last() =~= seq![]);
    assert(commands_in(prefix, seq![]) =~= seq![]);
    assert(commands_in(prefix, seq![file].drop_last()) =~= seq![]);
    assert(seq![file].last() == file);
    if b.len() == 0 {
        assert(a + b =~= a);
        assert(commands_in(prefix, a) + commands_in(prefix, b) =~= commands_in(prefix, a));
    } else {
        let front = b.drop_last();
        law_commands_file_by_file(prefix, a, front, file);
        assert((a + b).drop_last() =~= a + front);
        assert((a + b).last() == b.last());
        assert(commands_in(prefix, a + b) =~= commands_in(prefix, a) + commands_in(prefix, b));
    }
}

/// Each plugin's commands are those of its own directory under its own namespace, in the order of
/// the plugins; a plugin without a directory has none.
pub proof fn law_commands_plugin_by_plugin(
    plugins: Seq<InstallView>,
    shown: Seq<Seq<FileView>>,
    plugin: InstallView,
)
    ensures
        plugin_commands(seq![], shown) == Seq::<CommandView>::empty(),
        plugins.len() < shown.len() ==> plugin_commands(plugins.push(plugin), shown)
            == plugin_commands(plugins, shown) + commands_in(
            Some(plugin.namespace),
            shown[plugins.len() as int],
        ),
        plugins.len() >= shown.len() ==> plugin_commands(plugins.push(plugin), shown)
            == plugin_commands(plugins, shown),
{
    assert(plugins.push(plugin).drop_last() =~= plugins);
}

/// The installations of a plugin: one for each item with a text under `installPath`, in order.
pub proof fn law_installs_item_by_item(namespace: Seq<char>, items: Seq<Json>, item: Json)
    ensures
        installs_in_list(namespace, seq![]) == Seq::<InstallView>::empty(),
        installs_in_list(namespace, items.push(item)) == match item.field("installPath"@) {
            Some(Json::Text(path)) => installs_in_list(namespace, items).push(
                InstallView { namespace, install_path: path },
            ),
            _ => installs_in_list(namespace, items),
        },
{
    assert(items.push(item).drop_last() =~= items);
}

/// The installations of a manifest: those of each plugin whose entry is a list, under the name in
/// its key, in the order of the entries. Entries of another form give none.
pub proof fn law_installs_entry_by_entry(
    table: Seq<(Seq<char>, Json)>,
    name: Seq<char>,
    marketplace: Seq<char>,
    items: Seq<Json>,
    other: Json,
)
    requires
        !name.contains('@'),
        other !is Array,
    ensures
        installs_in_table(seq![]) == Seq::<InstallView>::empty(),
        installs_in_table(table.push((name + seq!['@'] + marketplace, Json::Array(items))))
            == installs_in_table(table) + installs_in_list(name, items),
        installs_in_table(table.push((name, Json::Array(items)))) == installs_in_table(table)
            + installs_in_list(name, items),
        installs_in_table(table.push((name, other))) == installs_in_table(table),
{
    law_namespace_is_the_name(name, marketplace);
    let key = name + seq!['@'] + marketplace;
    assert(table.push((key, Json::Array(items))).drop_last() =~= table);
    assert(table.push((name, Json::Array(items))).drop_last() =~= table);
    assert(table.push((name, other)).drop_last() =~= table);
}

/// The namespace of a key is all of it before its first `@`.
pub proof fn law_namespace_ends_at_the_first_mark(key: Seq<char>, i: int)
    ensures
        !namespace_of(key).contains('@'),
        namespace_of(key).len() <= key.len(),
        namespace_of(key) == key.take(namespace_of(key).len() as int),
        0 <= i < key.len() && key[i] == '@' ==> namespace_of(key).len() <= i,
        !key.contains('@') ==> namespace_of(key) == key,
{
    lemma_first_index_bounds(key, '@');
    let n = namespace_of(key);
    if n.contains('@') {
        let j = choose|j: int| 0 <= j < n.len() && n[j] == '@';
        assert(key[j] == '@');
    }
    if !key.contains('@') {
        let k = first_index(key, '@');
        if k < key.len() {
            assert(key.contains(key[k]));
        }
        assert(n =~= key);
    }
}

/// The plugins of a manifest stand in the object under `plugins`. A text that is no document, and a
/// document without such an object, gives no installations.
pub proof fn law_manifest_has_a_table(
    text: Seq<char>,
    before: Seq<(Seq<char>, Json)>,
    table: Seq<(Seq<char>, Json)>,
    after: Seq<(Seq<char>, Json)>,
    manifest: Json,
)
    requires
        forall|i: int| 0 <= i < before.len() ==> (#[trigger] before[i]).0 != "plugins"@,
    ensures
        installs_in(Json::Object(before + seq![("plugins"@, Json::Object(table))] + after))
            == installs_in_table(table),
        installs_in(Json::Object(before)) == Seq::<InstallView>::empty(),
        manifest !is Object ==> installs_in(manifest) == Seq::<InstallView>::empty(),
        document(text) is None ==> installs_of_text(text) == Seq::<InstallView>::empty(),
        document(text) == Some(manifest) ==> installs_of_text(text) == installs_in(manifest),
{
    lemma_lookup(before, "plugins"@, Json::Object(table), after);
}

proof fn lemma_lookup(
    before: Seq<(Seq<char>, Json)>,
    key: Seq<char>,
    value: Json,
    after: Seq<(Seq<char>, Json)>,
)
    requires
        forall|i: int| 0 <= i < before.len() ==> (#[trigger] before[i]).0 != key,
    ensures
        lookup(before + seq![(key, value)] + after, key) == Some(value),
        lookup(before, key) is None,
    decreases before.len(),
{
    let all = before + seq![(key, value)] + after;
    if before.len() == 0 {
        assert(all[0] == (key, value));
    } else {
        let fewer = before.skip(1);
        assert forall|i: int| 0 <= i < fewer.len() implies (#[trigger] fewer[i]).0 != key by {
            assert(fewer[i] == before[i + 1]);
        }
        lemma_lookup(fewer, key, value, after);
        assert(all.skip(1) =~= fewer + seq![(key, value)] + after);
        assert(all[0] == before[0]);
    }
}

/// The value under a key of an object is that of the first entry with the key, whatever stands
/// before and after it; without one, and in any other value, there is none. Only a string is a
/// text.
pub proof fn law_fields_of_values(
    before: Seq<(Seq<char>, Json)>,
    key: Seq<char>,
    value: Json,
    after: Seq<(Seq<char>, Json)>,
    other: Json,
    text: Seq<char>,
)
    requires
        forall|i: int| 0 <= i < before.len() ==> (#[trigger] before[i]).0 != key,
    ensures
        Json::Object(before + seq![(key, value)] + after).field(key) == Some(value),
        Json::Object(before).field(key) is None,
        other !is Object ==> other.field(key) is None,
        other.text() == Some(text) <==> other == Json::Text(text),
{
    lemma_lookup(before, key, value, after);
}

/// A directory that can be read shows its files, one for one; one that cannot shows none.
pub proof fn law_directories_show_their_files(
    listings: Seq<Option<Vec<CommandFile>>>,
    list: Vec<CommandFile>,
    i: int,
)
    ensures
        listed(None).len() == 0,
        listed(Some(list)).len() == list@.len(),
        0 <= i < list@.len() ==> listed(Some(list))[i] == list@[i]@,
        all_listed(listings).len() == listings.len(),
        0 <= i < listings.len() ==> all_listed(listings)[i] == listed(listings[i]),
{
}

} // verus!
