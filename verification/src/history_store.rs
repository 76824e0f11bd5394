//! Prompt history of a workspace, as it is kept on disk.
//!
//! A history file holds one JSON record per line. Its name is a hash of the workspace's key, so that
//! it is ASCII and of bounded length.

use crate::bytes::{
    byte_lines, decode, is_terminated, lemma_encode_concat, lemma_encode_line_feed,
    lemma_encode_printable, lemma_lines_concat, lemma_single_line, next_byte_line,
};
use crate::hashing::{hash_of, text_hash};
use crate::json::{
    compact, document, get, json_of, keys_ascend, number_value, object_value, owned_entries,
    parse, print, text_value, Json,
};
use crate::numerals::{
    decimal, hexadecimal, is_hex_digit, lemma_hexadecimal_injective, lemma_hexadecimal_shape, power16,
    to_hexadecimal,
};
use crate::text::{is_blank, is_space, lemma_blank, lex_le, trim, views, CharClass};
use serde_json::Value;
use vstd::prelude::*;
use vstd::slice::slice_subrange;
use vstd::slice::slice_to_vec;
use vstd::string::*;
use vstd::utf8::*;

verus! {

/// The directory of the history files, below the platform's directory for local data.
pub const HISTORY_DIR: &'static str = "warp/cli_agent_history";

/// The version that each record carries.
pub const HISTORY_FILE_VERSION: u32 = 1;

/// The files in which a workspace's history and draft are kept.
#[derive(Debug)]
pub struct HistoryStore {
    /// The history file's name.
    pub file_name: String,
    /// The draft file's name. It holds the text that was typed but not sent, so that it survives a
    /// restart.
    pub draft_name: String,
    /// How many entries are loaded at most. Appending writes one line; rewriting the file keeps it
    /// from growing without bound.
    pub max_entries: usize,
}

/// The mathematical content of a `HistoryStore`.
#[verifier::ext_equal]
pub struct StoreView {
    pub file_name: Seq<char>,
    pub draft_name: Seq<char>,
    pub max_entries: nat,
}

impl View for HistoryStore {
    type V = StoreView;

    open spec fn view(&self) -> StoreView {
        StoreView {
            file_name: self.file_name@,
            draft_name: self.draft_name@,
            max_entries: self.max_entries as nat,
        }
    }
}

/// The name of the file with the extension `extension` for the workspace hash `hash`.
pub open spec fn file_name(hash: u64, extension: Seq<char>) -> Seq<char> {
    hexadecimal(hash as nat, 16) + extension
}

/// The record of an entry.
pub open spec fn record(entry: Seq<char>) -> Json {
    Json::Object(
        seq![
            ("text"@, Json::Text(entry)),
            ("v"@, Json::Number(decimal(HISTORY_FILE_VERSION as nat))),
        ],
    )
}

/// The line of an entry, with its line feed.
pub open spec fn line_of(entry: Seq<char>) -> Seq<char> {
    compact(record(entry)).push('\n')
}

/// The lines of several entries.
pub open spec fn lines_of(entries: Seq<Seq<char>>) -> Seq<char>
    decreases entries.len(),
{
    if entries.len() == 0 {
        seq![]
    } else {
        lines_of(entries.drop_last()) + line_of(entries.last())
    }
}

/// The entry that a record holds: its text, if it is an object with one.
pub open spec fn entry_of(value: Json) -> Option<Seq<char>> {
    match value.field("text"@) {
        Some(t) => t.text(),
        None => None,
    }
}

/// The entry that a line of a history file holds. A line that is blank, no document or no record
/// of an entry holds none.
pub open spec fn entry_in(line: Seq<char>) -> Option<Seq<char>> {
    if is_blank(line) {
        None
    } else {
        match document(line) {
            Some(value) => entry_of(value),
            None => None,
        }
    }
}

/// The entries of a file with the lines `lines`. Reading ends at a line that is not UTF-8.
pub open spec fn entries_in(lines: Seq<Seq<u8>>) -> Seq<Seq<char>>
    decreases lines.len(),
{
    if lines.len() == 0 || !valid_utf8(lines[0]) {
        seq![]
    } else {
        match entry_in(decode_utf8(lines[0])) {
            Some(entry) => seq![entry] + entries_in(lines.skip(1)),
            None => entries_in(lines.skip(1)),
        }
    }
}

/// The entries of a file with the contents `contents`, oldest first.
pub open spec fn stored(contents: Seq<u8>) -> Seq<Seq<char>> {
    entries_in(byte_lines(contents))
}

/// The last `max` items of `list`, or all of them if there are fewer.
pub open spec fn newest<T>(list: Seq<T>, max: nat) -> Seq<T> {
    if list.len() > max {
        list.skip(list.len() - max)
    } else {
        list
    }
}

/// Whether a line can be appended to a file with these contents: its last line is complete, and
/// every line is UTF-8.
pub open spec fn is_appendable(contents: Seq<u8>) -> bool {
    &&& is_terminated(contents)
    &&& forall|i: int|
        0 <= i < byte_lines(contents).len() ==> valid_utf8(#[trigger] byte_lines(contents)[i])
}

proof fn lemma_entries_push(lines: Seq<Seq<u8>>, line: Seq<u8>)
    requires
        forall|i: int| 0 <= i < lines.len() ==> valid_utf8(#[trigger] lines[i]),
        valid_utf8(line),
    ensures
        entries_in(lines.push(line)) == match entry_in(decode_utf8(line)) {
            Some(entry) => entries_in(lines).push(entry),
            None => entries_in(lines),
        },
    decreases lines.len(),
{
    reveal_with_fuel(entries_in, 2);
    if lines.len() == 0 {
        assert(lines.push(line).skip(1) =~= seq![]);
        assert(entries_in(lines.push(line)) =~= match entry_in(decode_utf8(line)) {
            Some(entry) => entries_in(lines).push(entry),
            None => entries_in(lines),
        });
    } else {
        assert(lines.push(line)[0] == lines[0]);
        assert(lines.push(line).skip(1) =~= lines.skip(1).push(line));
        assert forall|i: int| 0 <= i < lines.skip(1).len() implies valid_utf8(
            #[trigger] lines.skip(1)[i],
        ) by {
            assert(lines.skip(1)[i] == lines[i + 1]);
        }
        lemma_entries_push(lines.skip(1), line);
        assert(entries_in(lines.push(line)) =~= match entry_in(decode_utf8(line)) {
            Some(entry) => entries_in(lines).push(entry),
            None => entries_in(lines),
        });
    }
}

/// A text that is one complete line, without control characters, from which `entry` is read.
pub open spec fn reads_as(line: Seq<char>, entry: Seq<char>) -> bool {
    &&& line.len() > 0
    &&& line.last() == '\n'
    &&& forall|i: int| 0 <= i < line.len() - 1 ==> #[trigger] line[i] >= ' '
    &&& entry_in(line.drop_last()) == Some(entry)
}

/// A line appended to a file is read back behind the entries that were there, and another line can
/// be appended to it.
pub proof fn law_appended_line_is_read_back(contents: Seq<u8>, line: Seq<char>, entry: Seq<char>)
    requires
        is_appendable(contents),
        reads_as(line, entry),
    ensures
        stored(contents + encode_utf8(line)) == stored(contents).push(entry),
        is_appendable(contents + encode_utf8(line)),
{
    let body = line.drop_last();
    let bytes = encode_utf8(body);
    assert(line =~= body + seq!['\n']);
    lemma_encode_concat(body, seq!['\n']);
    lemma_encode_line_feed();
    assert(encode_utf8(line) =~= bytes.push(0x0a));
    assert forall|i: int| 0 <= i < body.len() implies #[trigger] body[i] >= ' ' by {
        assert(line[i] >= ' ');
    }
    lemma_encode_printable(body);
    lemma_single_line(bytes);
    lemma_lines_concat(contents, encode_utf8(line));
    let before = byte_lines(contents);
    let after = byte_lines(contents + encode_utf8(line));
    assert(after =~= before.push(bytes));
    encode_utf8_valid_utf8(body);
    encode_utf8_decode_utf8(body);
    lemma_entries_push(before, bytes);
    assert forall|i: int| 0 <= i < after.len() implies valid_utf8(#[trigger] after[i]) by {
        if i < before.len() {
            assert(after[i] == before[i]);
        }
    }
}

/// The entry that a parsed record holds.
pub fn record_text(value: &Value) -> (r: Option<String>)
    ensures
        match r {
            Some(text) => entry_of(json_of(*value)) == Some(text@),
            None => entry_of(json_of(*value)) is None,
        },
{
    match get(value, "text") {
        Some(found) => match found.as_str() {
            Some(text) => Some(text.to_owned()),
            None => None,
        },
        None => None,
    }
}

fn read_line(line: &str) -> (r: Option<String>)
    ensures
        match r {
            Some(text) => entry_in(line@) == Some(text@),
            None => entry_in(line@) is None,
        },
{
    if trim(line, CharClass::White).is_empty() {
        return None;
    }
    match parse(line) {
        Ok(value) => record_text(&value),
        Err(_) => None,
    }
}

/// The last `max` entries, or all of them if there are fewer.
pub fn keep_newest(entries: Vec<String>, max: usize) -> (r: Vec<String>)
    ensures
        views(r@) == newest(views(entries@), max as nat),
{
    if entries.len() > max {
        let mut all = entries;
        let drop: usize = all.len() - max;
        let r = all.split_off(drop);
        assert(views(r@) =~= views(entries@).skip(drop as int));
        r
    } else {
        entries
    }
}

fn write_line(entry: &str) -> (r: String)
    ensures
        r@ == line_of(entry@),
        reads_as(r@, entry@),
        document(r@.drop_last()) == Some(record(entry@)),
{
    let mut fields: Vec<(String, Value)> = Vec::new();
    fields.push(("text".to_owned(), text_value(entry)));
    fields.push(("v".to_owned(), number_value(HISTORY_FILE_VERSION)));
    let ghost model = seq![
        ("text"@, Json::Text(entry@)),
        ("v"@, Json::Number(decimal(HISTORY_FILE_VERSION as nat))),
    ];
    proof {
        assert(owned_entries(fields@) =~= model);
        reveal_strlit("text");
        reveal_strlit("v");
        assert(lex_le("text"@, "v"@));
        assert("text"@[0] != "v"@[0]);
        assert(keys_ascend(model));
    }
    let value = object_value(fields);
    let body = print(&value);
    proof {
        assert(json_of(value) == record(entry@));
        assert(model[0].1.is_plain());
        let version: u64 = 1;
        assert(model[1].1 == Json::Number(decimal(version as nat)));
        assert(model[1].1.is_plain());
        assert(record(entry@).is_flat_record());
        assert(entry_of(record(entry@)) == Some(entry@));
        lemma_blank(body@);
        assert(!is_space(body@[0]));
        assert(line_of(entry@).drop_last() =~= body@);
        reveal_strlit("\n");
        assert("\n"@ =~= seq!['\n']);
        assert(body@ + "\n"@ =~= line_of(entry@));
    }
    body.concat("\n")
}

fn read_entries(bytes: &[u8]) -> (r: Vec<String>)
    ensures
        views(r@) == stored(bytes@),
{
    let mut out: Vec<String> = Vec::new();
    let mut pos: usize = 0;
    assert(bytes@.skip(0) == bytes@);
    assert(views(out@) + stored(bytes@) =~= stored(bytes@));
    while pos < bytes.len()
        invariant
            pos <= bytes@.len(),
            views(out@) + entries_in(byte_lines(bytes@.skip(pos as int))) == stored(bytes@),
        decreases bytes.len() - pos,
    {
        let (end, next) = next_byte_line(bytes, pos);
        let ghost line = bytes@.subrange(pos as int, end as int);
        let ghost rest = byte_lines(bytes@.skip(next as int));
        let ghost before = views(out@);
        proof {
            let here = byte_lines(bytes@.skip(pos as int));
            assert(here == seq![line] + rest);
            assert(here[0] == line);
            assert(here.skip(1) =~= rest);
        }
        let text = match decode(slice_to_vec(slice_subrange(bytes, pos, end))) {
            Some(text) => text,
            None => {
                assert(before + entries_in(byte_lines(bytes@.skip(pos as int))) =~= before);
                return out;
            },
        };
        match read_line(text.as_str()) {
            Some(entry) => {
                out.push(entry);
                assert(views(out@) =~= before.push(entry@));
                assert(before.push(entry@) + entries_in(rest) =~= before + (seq![entry@]
                    + entries_in(rest)));
            },
            None => {},
        }
        pos = next;
    }
    assert(bytes@.skip(pos as int) =~= seq![]);
    assert(entries_in(byte_lines(bytes@.skip(pos as int))) =~= seq![]);
    assert(views(out@) =~= stored(bytes@));
    out
}

/// The contents of a file that may be missing.
pub open spec fn file_view(contents: Option<Vec<u8>>) -> Option<Seq<u8>> {
    match contents {
        Some(bytes) => Some(bytes@),
        None => None,
    }
}

/// The draft in a draft file with the given contents.
pub open spec fn draft_in(contents: Option<Seq<u8>>) -> Option<Seq<char>> {
    match contents {
        Some(bytes) if bytes.len() > 0 && valid_utf8(bytes) => Some(decode_utf8(bytes)),
        _ => None,
    }
}

/// How the removal of a file ended.
#[derive(Debug, PartialEq, Eq)]
pub enum Removal<E> {
    Removed,
    /// There was no such file.
    Missing,
    Failed(E),
}

impl HistoryStore {
    /// The store of the workspace with the key `workspace_key`, which is the directory of the
    /// pane. There is none on a platform without a directory for local data.
    pub fn for_workspace(workspace_key: &str, max_entries: usize, has_data_dir: bool) -> (r: Option<
        HistoryStore,
    >)
        ensures
            match r {
                Some(store) => has_data_dir && store.is_for(hash_of(workspace_key@), max_entries),
                None => !has_data_dir,
            },
    {
        if has_data_dir {
            Some(HistoryStore::for_hash(text_hash(workspace_key), max_entries))
        } else {
            None
        }
    }

    /// Whether this is the store of the workspaces with the hash `hash`.
    pub open spec fn is_for(self, hash: u64, max_entries: usize) -> bool {
        &&& self.file_name@ == file_name(hash, ".jsonl"@)
        &&& self.draft_name@ == file_name(hash, ".draft"@)
        &&& self.max_entries == max_entries
    }

    /// The store of the workspaces with the hash `hash`.
    pub fn for_hash(hash: u64, max_entries: usize) -> (r: HistoryStore)
        ensures
            r.is_for(hash, max_entries),
    {
        HistoryStore {
            file_name: to_hexadecimal(hash, 16).concat(".jsonl"),
            draft_name: to_hexadecimal(hash, 16).concat(".draft"),
            max_entries,
        }
    }

    /// The entries of a history file with the given contents, oldest first and no more than
    /// `max_entries` of the newest. None where there is no file.
    pub fn load(&self, contents: Option<&[u8]>) -> (r: Vec<String>)
        ensures
            views(r@) == match contents {
                Some(bytes) => newest(stored(bytes@), self.max_entries as nat),
                None => seq![],
            },
            r@.len() <= self.max_entries,
    {
        match contents {
            Some(bytes) => {
                let all = read_entries(bytes);
                let r = keep_newest(all, self.max_entries);
                assert(views(r@).len() == r@.len());
                r
            },
            None => {
                let r: Vec<String> = Vec::new();
                assert(views(r@) =~= seq![]);
                r
            },
        }
    }

    /// The line that is appended to the history file for `entry`. It holds the entry's record, and is
    /// read back as that entry.
    pub fn append(&self, entry: &str) -> (r: String)
        ensures
            r@ == line_of(entry@),
            reads_as(r@, entry@),
            document(r@.drop_last()) == Some(record(entry@)),
            forall|contents: Seq<u8>|
                is_appendable(contents) ==> #[trigger] stored(contents + encode_utf8(r@)) == stored(
                    contents,
                ).push(entry@) && is_appendable(contents + encode_utf8(r@)),
    {
        let line = write_line(entry);
        assert forall|contents: Seq<u8>| is_appendable(contents) implies #[trigger] stored(
            contents + encode_utf8(line@),
        ) == stored(contents).push(entry@) && is_appendable(contents + encode_utf8(line@)) by {
            law_appended_line_is_read_back(contents, line@, entry@);
        }
        line
    }

    /// The contents that replace those of the history file, when the number of its entries has
    /// drifted past `max_entries`. Each line holds an entry's record, and they are read back as the
    /// given entries.
    pub fn rewrite(&self, entries: &Vec<String>) -> (r: String)
        ensures
            r@ == lines_of(views(entries@)),
            stored(encode_utf8(r@)) == views(entries@),
            is_appendable(encode_utf8(r@)),
            forall|i: int|
                0 <= i < entries@.len() ==> document(line_of(#[trigger] entries@[i]@).drop_last())
                    == Some(record(entries@[i]@)),
    {
        let mut out = String::new();
        let mut i: usize = 0;
        let ghost all = views(entries@);
        assert(all.take(0) =~= seq![]);
        assert(encode_utf8(out@) =~= seq![]);
        assert(byte_lines(seq![]) =~= seq![]);
        assert(stored(seq![]) =~= seq![]);
        while i < entries.len()
            invariant
                i <= entries.len(),
                all == views(entries@),
                out@ == lines_of(all.take(i as int)),
                stored(encode_utf8(out@)) == all.take(i as int),
                is_appendable(encode_utf8(out@)),
                forall|j: int|
                    0 <= j < i ==> document(line_of(#[trigger] entries@[j]@).drop_last()) == Some(
                        record(entries@[j]@),
                    ),
            decreases entries.len() - i,
        {
            let line = write_line(entries[i].as_str());
            proof {
                let entry = entries@[i as int]@;
                law_appended_line_is_read_back(encode_utf8(out@), line@, entry);
                lemma_encode_concat(out@, line@);
                assert(all.take(i + 1).drop_last() =~= all.take(i as int));
                assert(all.take(i + 1).last() == entry);
                assert(all.take(i as int).push(entry) =~= all.take(i + 1));
            }
            out.append(line.as_str());
            i = i + 1;
        }
        assert(all.take(all.len() as int) =~= all);
        out
    }

    /// The draft in a draft file with the given contents. None where the file is missing, empty or
    /// not UTF-8; the editor then starts blank.
    pub fn load_draft(&self, contents: Option<Vec<u8>>) -> (r: Option<String>)
        ensures
            match r {
                Some(text) => draft_in(file_view(contents)) == Some(text@),
                None => draft_in(file_view(contents)) is None,
            },
    {
        match contents {
            Some(bytes) => match decode(bytes) {
                Some(text) => {
                    proof {
                        decode_utf8_encode_utf8(bytes@);
                    }
                    if text.as_str().is_empty() {
                        None
                    } else {
                        Some(text)
                    }
                },
                None => None,
            },
            None => None,
        }
    }

    /// The contents of the draft file for the draft `text`.
    pub fn save_draft(&self, text: &str) -> (r: Vec<u8>)
        ensures
            r@ == encode_utf8(text@),
    {
        slice_to_vec(text.as_bytes())
    }

    /// What dropping the draft file comes to: that it was missing is no failure.
    pub fn clear_draft<E>(&self, removal: Removal<E>) -> (r: Result<(), E>)
        ensures
            r == match removal {
                Removal::Failed(error) => Err::<(), E>(error),
                _ => Ok(()),
            },
    {
        match removal {
            Removal::Removed => Ok(()),
            Removal::Missing => Ok(()),
            Removal::Failed(error) => Err(error),
        }
    }
}

/// A saved draft is loaded as it was, but for an empty one, which is loaded as none.
pub proof fn law_saved_draft_is_loaded(text: Seq<char>)
    ensures
        draft_in(Some(encode_utf8(text))) == (if text.len() == 0 {
            None::<Seq<char>>
        } else {
            Some(text)
        }),
{
    encode_utf8_valid_utf8(text);
    encode_utf8_decode_utf8(text);
    if text.len() > 0 && encode_utf8(text).len() == 0 {
        assert(decode_utf8(encode_utf8(text)).len() == 0);
    }
}

/// The name of a history or draft file is sixteen hexadecimal digits and its extension.
pub proof fn law_file_name_shape(hash: u64, extension: Seq<char>)
    ensures
        file_name(hash, extension).len() == 16 + extension.len(),
        forall|i: int| 0 <= i < 16 ==> is_hex_digit(#[trigger] file_name(hash, extension)[i]),
        file_name(hash, extension).skip(16) == extension,
{
    lemma_hexadecimal_shape(hash as nat, 16);
    let digits = hexadecimal(hash as nat, 16);
    assert forall|i: int| 0 <= i < 16 implies is_hex_digit(
        #[trigger] file_name(hash, extension)[i],
    ) by {
        assert(file_name(hash, extension)[i] == digits[i]);
    }
    assert(file_name(hash, extension).skip(16) =~= extension);
}

/// Workspaces whose hashes differ have different files.
pub proof fn law_file_names_are_distinct(a: u64, b: u64, extension: Seq<char>)
    requires
        file_name(a, extension) == file_name(b, extension),
    ensures
        a == b,
{
    lemma_hexadecimal_shape(a as nat, 16);
    lemma_hexadecimal_shape(b as nat, 16);
    assert(file_name(a, extension).take(16) =~= hexadecimal(a as nat, 16));
    assert(file_name(b, extension).take(16) =~= hexadecimal(b as nat, 16));
    reveal_with_fuel(power16, 17);
    lemma_hexadecimal_injective(a as nat, b as nat, 16);
}

/// What is kept is the end of what there was, at most `max` of it, and nothing is lost where there
/// is no more.
pub proof fn law_newest_are_kept<T>(list: Seq<T>, max: nat)
    ensures
        newest(list, max).len() <= max,
        newest(list, max).is_suffix_of(list),
        list.len() <= max ==> newest(list, max) == list,
        newest(newest(list, max), max) == newest(list, max),
{
}

} // verus!
