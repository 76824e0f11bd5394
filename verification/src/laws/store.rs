//! Laws of the history and draft files.

use crate::bytes::{byte_lines, lemma_lines_concat};
use crate::hashing::{fed, hash_of};
use crate::history_store::{
    draft_in, entries_in, entry_in, entry_of, file_name, is_appendable, line_of, lines_of, newest,
    record, stored, HistoryStore,
};
use crate::json::{compact, document, Json};
use crate::laws::discovery::law_fields_of_values;
use crate::numerals::{decimal, hexadecimal};
use crate::text::{is_space, lemma_blank, lemma_first_index};
use std::collections::hash_map::DefaultHasher;
use vstd::prelude::*;
use vstd::std_specs::hash::*;
use vstd::string::*;
use vstd::utf8::*;

verus! {

/// Whether every line is UTF-8.
pub open spec fn are_text(lines: Seq<Seq<u8>>) -> bool {
    forall|i: int| 0 <= i < lines.len() ==> valid_utf8(#[trigger] lines[i])
}

/// Each line of a file gives its entry by itself, in the file's order, and a line without one gives
/// nothing; a line that is not UTF-8 ends the reading.
pub proof fn law_entries_line_by_line(
    before: Seq<Seq<u8>>,
    line: Seq<u8>,
    after: Seq<Seq<u8>>,
)
    requires
        are_text(before),
    ensures
        entries_in(seq![]) == Seq::<Seq<char>>::empty(),
        entries_in(before + after) == entries_in(before) + entries_in(after),
        valid_utf8(line) ==> entries_in(seq![line] + after) == (match entry_in(decode_utf8(line)) {
            Some(entry) => seq![entry],
            None => seq![],
        }) + entries_in(after),
        !valid_utf8(line) ==> entries_in(before + seq![line] + after) == entries_in(before),
    decreases before.len(),
{
    let here = seq![line] + after;
    assert(here[0] == line);
    assert(here.skip(1) =~= after);
    assert(before + seq![line] + after =~= before + here);
    if valid_utf8(line) {
        assert(entries_in(here) =~= (match entry_in(decode_utf8(line)) {
            Some(entry) => seq![entry],
            None => seq![],
        }) + entries_in(after));
    }
    if before.len() == 0 {
        assert(before + after =~= after);
        assert(before + here =~= here);
        assert(entries_in(before) + entries_in(after) =~= entries_in(after));
    } else {
        let fewer = before.skip(1);
        assert forall|i: int| 0 <= i < fewer.len() implies valid_utf8(#[trigger] fewer[i]) by {
            assert(fewer[i] == before[i + 1]);
        }
        law_entries_line_by_line(fewer, line, after);
        assert(valid_utf8(before[0]));
        assert((before + after).skip(1) =~= fewer + after);
        assert((before + after)[0] == before[0]);
        assert((before + here).skip(1) =~= fewer + here);
        assert((before + here)[0] == before[0]);
        assert(fewer + seq![line] + after =~= fewer + here);
        assert(entries_in(before + after) =~= entries_in(before) + entries_in(after));
        if !valid_utf8(line) {
            assert(entries_in(before + here) =~= entries_in(before));
        }
    }
}

/// A line gives the text under the key `text` of the object that it holds, whatever else the object
/// has. A line of white space, one that is no document, and one that holds anything else gives
/// none.
pub proof fn law_entry_of_a_line(
    line: Seq<char>,
    at: int,
    before: Seq<(Seq<char>, Json)>,
    entry: Seq<char>,
    after: Seq<(Seq<char>, Json)>,
    other: Json,
)
    requires
        forall|i: int| 0 <= i < before.len() ==> (#[trigger] before[i]).0 != "text"@,
        other !is Text,
    ensures
        (forall|i: int| 0 <= i < line.len() ==> is_space(#[trigger] line[i])) ==> entry_in(
            line,
        ) is None,
        document(line) is None ==> entry_in(line) is None,
        0 <= at < line.len() && !is_space(line[at]) && document(line) == Some(
            Json::Object(before + seq![("text"@, Json::Text(entry))] + after),
        ) ==> entry_in(line) == Some(entry),
        document(line) == Some(Json::Object(before + seq![("text"@, other)] + after)) ==> entry_in(
            line,
        ) is None,
        document(line) == Some(Json::Object(before)) ==> entry_in(line) is None,
        document(line) matches Some(value) ==> value !is Object ==> entry_in(line) is None,
{
    lemma_blank(line);
    law_fields_of_values(before, "text"@, Json::Text(entry), after, other, entry);
    law_fields_of_values(before, "text"@, other, after, other, entry);
}

/// A parsed record gives its entry as the line that holds it does.
pub proof fn law_entry_of_a_record(
    before: Seq<(Seq<char>, Json)>,
    entry: Seq<char>,
    after: Seq<(Seq<char>, Json)>,
    other: Json,
)
    requires
        forall|i: int| 0 <= i < before.len() ==> (#[trigger] before[i]).0 != "text"@,
        other !is Text,
    ensures
        entry_of(Json::Object(before + seq![("text"@, Json::Text(entry))] + after)) == Some(entry),
        entry_of(Json::Object(before + seq![("text"@, other)] + after)) is None,
        entry_of(Json::Object(before)) is None,
        other !is Object ==> entry_of(other) is None,
        entry_of(record(entry)) == Some(entry),
{
    law_fields_of_values(before, "text"@, Json::Text(entry), after, other, entry);
    law_fields_of_values(before, "text"@, other, after, other, entry);
}

/// A line of a file ends before its line feed, and before a carriage return in front of that; what
/// follows the line feed is read by itself.
pub proof fn law_file_lines_end_at_line_feeds(line: Seq<u8>, rest: Seq<u8>)
    requires
        !line.contains(0x0au8),
    ensures
        byte_lines(line + seq![0x0au8] + rest) == seq![
            if line.len() > 0 && line.last() == 0x0d {
                line.drop_last()
            } else {
                line
            },
        ] + byte_lines(rest),
        line.len() > 0 ==> byte_lines(line) == seq![line],
        byte_lines(seq![]) == Seq::<Seq<u8>>::empty(),
{
    let s = line + seq![0x0au8] + rest;
    assert forall|j: int| 0 <= j < line.len() implies #[trigger] s[j] != 0x0au8 by {
        assert(s[j] == line[j]);
        assert(line.contains(line[j]));
    }
    lemma_first_index(s, 0x0au8, line.len() as int);
    assert(s.take(line.len() as int) =~= line);
    assert(s.skip(line.len() as int + 1) =~= rest);
    assert forall|j: int| 0 <= j < line.len() implies #[trigger] line[j] != 0x0au8 by {
        assert(line.contains(line[j]));
    }
    lemma_first_index(line, 0x0au8, line.len() as int);
}

/// What a file holds is what its lines hold, first to last.
pub proof fn law_file_is_read_line_by_line(line: Seq<u8>, rest: Seq<u8>)
    requires
        !line.contains(0x0au8),
        line.len() > 0 ==> line.last() != 0x0d,
    ensures
        stored(seq![]) == Seq::<Seq<char>>::empty(),
        valid_utf8(line) ==> stored(line + seq![0x0au8] + rest) == (match entry_in(
            decode_utf8(line),
        ) {
            Some(entry) => seq![entry],
            None => seq![],
        }) + stored(rest),
        !valid_utf8(line) ==> stored(line + seq![0x0au8] + rest) == Seq::<Seq<char>>::empty(),
{
    law_file_lines_end_at_line_feeds(line, rest);
    law_entries_line_by_line(seq![], line, byte_lines(rest));
    assert(seq![line] + byte_lines(rest) =~= Seq::<Seq<u8>>::empty() + seq![line] + byte_lines(
        rest,
    ));
}

/// A line can be appended to an empty file, to a complete line of UTF-8, and to one such file
/// behind another; but not to a file whose last line has no line feed.
pub proof fn law_where_lines_are_appended(line: Seq<u8>, a: Seq<u8>, b: Seq<u8>)
    ensures
        is_appendable(seq![]),
        is_appendable(a) && is_appendable(b) ==> is_appendable(a + b),
        valid_utf8(line) && !line.contains(0x0au8) && (line.len() > 0 ==> line.last() != 0x0d)
            ==> is_appendable(line.push(0x0a)),
        a.len() > 0 && a.last() != 0x0a ==> !is_appendable(a),
{
    assert(byte_lines(seq![]) =~= seq![]);
    if is_appendable(a) && is_appendable(b) {
        lemma_lines_concat(a, b);
        let all = byte_lines(a + b);
        assert forall|i: int| 0 <= i < all.len() implies valid_utf8(#[trigger] all[i]) by {
            let n = byte_lines(a).len() as int;
            if i < n {
                assert(all[i] == byte_lines(a)[i]);
            } else {
                assert(all[i] == byte_lines(b)[i - n]);
            }
        }
        if b.len() > 0 {
            assert((a + b).last() == b.last());
        } else {
            assert(a + b =~= a);
        }
    }
    if valid_utf8(line) && !line.contains(0x0au8) && (line.len() > 0 ==> line.last() != 0x0d) {
        law_file_lines_end_at_line_feeds(line, seq![]);
        assert(line + seq![0x0au8] + Seq::<u8>::empty() =~= line.push(0x0a));
        assert(byte_lines(line.push(0x0a)) =~= seq![line]);
    }
}

/// What is kept of a list: all of it as long as it is not too long, otherwise its end.
pub proof fn law_the_end_is_kept<T>(older: Seq<T>, kept: Seq<T>)
    ensures
        newest(older + kept, kept.len()) == kept,
        newest(kept, kept.len() + older.len()) == kept,
{
    assert((older + kept).skip(older.len() as int) =~= kept);
}

/// A record is an object of the entry, under `text`, and the version, under `v`; a line is its
/// compact text and a line feed, and lines are written one behind the other.
pub proof fn law_written_lines(entries: Seq<Seq<char>>, entry: Seq<char>)
    ensures
        record(entry) == Json::Object(
            seq![("text"@, Json::Text(entry)), ("v"@, Json::Number("1"@))],
        ),
        line_of(entry) == compact(
            Json::Object(seq![("text"@, Json::Text(entry)), ("v"@, Json::Number("1"@))]),
        ) + seq!['\n'],
        lines_of(seq![]) == Seq::<char>::empty(),
        lines_of(seq![entry]) == line_of(entry),
        lines_of(entries.push(entry)) == lines_of(entries) + line_of(entry),
{
    reveal_strlit("1");
    reveal_strlit("0123456789abcdef");
    assert(decimal(1) =~= "1"@);
    assert(entries.push(entry).drop_last() =~= entries);
    assert(seq![entry].drop_last() =~= seq![]);
    assert(lines_of(seq![]) =~= seq![]);
    assert(lines_of(seq![entry].drop_last()) =~= seq![]);
    assert(lines_of(seq![entry]) =~= line_of(entry));
    assert(line_of(entry) =~= compact(record(entry)) + seq!['\n']);
}

/// A draft file holds the draft in UTF-8: a file that is missing, empty or not UTF-8 holds none,
/// any other the text that is encoded in it.
pub proof fn law_draft_is_the_text_of_the_file(bytes: Seq<u8>)
    ensures
        draft_in(None) is None,
        draft_in(Some(seq![])) is None,
        !valid_utf8(bytes) ==> draft_in(Some(bytes)) is None,
        valid_utf8(bytes) && bytes.len() > 0 ==> (draft_in(Some(bytes)) matches Some(text)
            && encode_utf8(text) == bytes),
{
    if valid_utf8(bytes) {
        decode_utf8_encode_utf8(bytes);
    }
}

/// The digits of a number in hexadecimal: each further digit to the right stands for sixteen times
/// less, and only as many as there is room for are written.
pub proof fn law_hexadecimal_digits(n: nat, d: int, width: nat)
    requires
        0 <= d < 16,
    ensures
        hexadecimal(n, 0) == Seq::<char>::empty(),
        hexadecimal((16 * n + d) as nat, width + 1) == hexadecimal(n, width).push(
            "0123456789abcdef"@[d],
        ),
{
    let m = (16 * n + d) as nat;
    assert(m / 16 == n && m % 16 == d);
    assert((width + 1 - 1) as nat == width);
}

/// The digits of a number in decimal.
pub proof fn law_decimal_digits(n: nat, d: int)
    requires
        0 <= d < 10,
    ensures
        decimal(d as nat) == seq!["0123456789"@[d]],
        n > 0 ==> decimal((10 * n + d) as nat) == decimal(n).push("0123456789"@[d]),
{
    reveal_strlit("0123456789");
    reveal_strlit("0123456789abcdef");
    let m = (10 * n + d) as nat;
    assert(m / 10 == n && m % 10 == d);
}

/// The files of a workspace: sixteen hexadecimal digits of its hash, which is that of a fresh
/// `DefaultHasher`, with the extension `.jsonl` for the history and `.draft` for the draft.
pub proof fn law_files_of_a_workspace(
    store: HistoryStore,
    key: Seq<char>,
    extension: Seq<char>,
    max: usize,
)
    ensures
        hash_of(key) == DefaultHasher::spec_finish(fed(key)),
        file_name(hash_of(key), extension) == hexadecimal(hash_of(key) as nat, 16) + extension,
        store.is_for(hash_of(key), max) <==> {
            &&& store.file_name@ == hexadecimal(hash_of(key) as nat, 16) + ".jsonl"@
            &&& store.draft_name@ == hexadecimal(hash_of(key) as nat, 16) + ".draft"@
            &&& store.max_entries == max
        },
{
}

} // verus!
