use cli_agent_prompt::hashing::text_hash;
use cli_agent_prompt::history_store::{keep_newest, record_text, HistoryStore, Removal};
use std::collections::hash_map::DefaultHasher;
use std::hash::{Hash, Hasher};

/// A store with its two files in memory.
struct TempStore {
    store: HistoryStore,
    file: Option<Vec<u8>>,
    draft: Option<Vec<u8>>,
}

impl TempStore {
    fn append(&mut self, entry: &str) {
        let line = self.store.append(entry);
        self.file
            .get_or_insert_with(Vec::new)
            .extend_from_slice(line.as_bytes());
    }

    fn rewrite(&mut self, entries: &[&str]) {
        let list: Vec<String> = entries.iter().map(|e| e.to_string()).collect();
        self.file = Some(self.store.rewrite(&list).into_bytes());
    }

    fn load(&self) -> Vec<String> {
        self.store.load(self.file.as_deref())
    }

    fn load_draft(&self) -> Option<String> {
        self.store.load_draft(self.draft.clone())
    }

    fn save_draft(&mut self, text: &str) {
        self.draft = Some(self.store.save_draft(text));
    }

    fn clear_draft(&mut self) -> Result<(), String> {
        let removal = match self.draft.take() {
            Some(_) => Removal::Removed,
            None => Removal::Missing,
        };
        self.store.clear_draft(removal)
    }
}

fn temp_store(max: usize) -> TempStore {
    TempStore {
        store: HistoryStore::for_hash(7, max),
        file: None,
        draft: None,
    }
}

#[test]
fn append_then_load_roundtrips() {
    let mut s = temp_store(10);
    s.append("hello");
    s.append("world");
    assert_eq!(s.load(), vec!["hello".to_string(), "world".to_string()]);
}

#[test]
fn load_caps_to_max() {
    let mut s = temp_store(2);
    for i in 0..5 {
        s.append(&format!("e{i}"));
    }
    let got = s.load();
    assert_eq!(got, vec!["e3".to_string(), "e4".to_string()]);
}

#[test]
fn rewrite_replaces_contents() {
    let mut s = temp_store(10);
    s.append("old");
    s.rewrite(&["a", "b"]);
    assert_eq!(s.load(), vec!["a".to_string(), "b".to_string()]);
}

#[test]
fn draft_round_trip_and_clear() {
    let mut s = temp_store(10);
    assert_eq!(s.load_draft(), None);
    s.save_draft("hello world");
    assert_eq!(s.load_draft().as_deref(), Some("hello world"));
    s.save_draft("updated");
    assert_eq!(s.load_draft().as_deref(), Some("updated"));
    s.clear_draft().unwrap();
    assert_eq!(s.load_draft(), None);
    // Clearing when already absent is a no-op, not an error.
    s.clear_draft().unwrap();
}

#[test]
fn record_is_one_line_with_keys_in_order() {
    let s = HistoryStore::for_hash(7, 10);
    assert_eq!(s.append("hello"), "{\"text\":\"hello\",\"v\":1}\n");
    assert_eq!(
        s.append("a\n\t\"b\"\\ \u{1} é ↵"),
        "{\"text\":\"a\\n\\t\\\"b\\\"\\\\ \\u0001 é ↵\",\"v\":1}\n"
    );
    let list = vec!["x".to_string(), "".to_string()];
    assert_eq!(
        s.rewrite(&list),
        "{\"text\":\"x\",\"v\":1}\n{\"text\":\"\",\"v\":1}\n"
    );
    assert_eq!(s.rewrite(&Vec::new()), "");
}

#[test]
fn lines_hold_the_whole_record() {
    let s = HistoryStore::for_hash(7, 10);
    for entry in ["hello", "", "a\n\"b\"\u{0}", "é ↵"] {
        let line = s.append(entry);
        let value: serde_json::Value = serde_json::from_str(line.trim_end_matches('\n')).unwrap();
        let record = value.as_object().unwrap();
        assert_eq!(record.len(), 2);
        assert_eq!(record["text"].as_str(), Some(entry));
        assert_eq!(record["v"].as_u64(), Some(1));
    }
}

#[test]
fn multi_line_and_unicode_prompts_roundtrip() {
    let mut s = temp_store(10);
    let prompts = ["line one\nline two\r\n", "ümläut \u{1F600}", "\u{2028}\u{0}", "  ", "{}"];
    for p in prompts {
        s.append(p);
    }
    assert_eq!(s.load(), prompts.to_vec());
}

#[test]
fn load_skips_lines_that_hold_no_entry() {
    let s = HistoryStore::for_hash(7, 10);
    let contents = "\n   \nnot json\n[\"text\"]\n\"text\"\n{\"text\":1}\n{\"v\":1}\n{\"text\":\"kept\"}\r\n{\"text\":\"last\",\"v\":2}";
    assert_eq!(s.load(Some(contents.as_bytes())), vec!["kept", "last"]);
    assert_eq!(s.load(None), Vec::<String>::new());
    assert_eq!(s.load(Some(b"")), Vec::<String>::new());
}

#[test]
fn load_ends_at_a_line_that_is_not_unicode() {
    let s = HistoryStore::for_hash(7, 10);
    let mut contents = b"{\"text\":\"a\"}\n".to_vec();
    contents.extend_from_slice(&[0xff, 0xfe, b'\n']);
    contents.extend_from_slice(b"{\"text\":\"b\"}\n");
    assert_eq!(s.load(Some(&contents)), vec!["a"]);
}

#[test]
fn keep_newest_keeps_the_end() {
    let list = |items: &[&str]| -> Vec<String> { items.iter().map(|s| s.to_string()).collect() };
    assert_eq!(keep_newest(list(&["a", "b", "c"]), 2), list(&["b", "c"]));
    assert_eq!(keep_newest(list(&["a", "b"]), 2), list(&["a", "b"]));
    assert_eq!(keep_newest(list(&["a", "b"]), 0), list(&[]));
}

#[test]
fn record_text_reads_the_text_field() {
    let parse = |s: &str| serde_json::from_str::<serde_json::Value>(s).unwrap();
    assert_eq!(
        record_text(&parse("{\"v\":1,\"text\":\"hi\"}")),
        Some("hi".to_string())
    );
    assert_eq!(record_text(&parse("{\"text\":null}")), None);
    assert_eq!(record_text(&parse("{\"texts\":\"hi\"}")), None);
    assert_eq!(record_text(&parse("[]")), None);
}

#[test]
fn file_names_are_the_hash_in_hexadecimal() {
    let s = HistoryStore::for_hash(0xabc, 3);
    assert_eq!(s.file_name, "0000000000000abc.jsonl");
    assert_eq!(s.draft_name, "0000000000000abc.draft");
    assert_eq!(s.max_entries, 3);
    assert_eq!(
        HistoryStore::for_hash(u64::MAX, 3).file_name,
        "ffffffffffffffff.jsonl"
    );
}

#[test]
fn workspace_key_selects_the_files() {
    let mut hasher = DefaultHasher::new();
    "/home/me/project".hash(&mut hasher);
    let hash = hasher.finish();
    let s = HistoryStore::for_workspace("/home/me/project", 200, true).unwrap();
    assert_eq!(s.file_name, format!("{hash:016x}.jsonl"));
    assert_eq!(s.draft_name, format!("{hash:016x}.draft"));
    assert_eq!(s.max_entries, 200);
    let other = HistoryStore::for_workspace("/home/me/other", 200, true).unwrap();
    assert_ne!(s.file_name, other.file_name);
    assert!(HistoryStore::for_workspace("/home/me/project", 200, false).is_none());
}

#[test]
fn text_hash_is_the_standard_hash() {
    for text in ["", "a", "longer than one block of the hasher", "é↵\u{1F600}"] {
        let mut hasher = DefaultHasher::new();
        text.hash(&mut hasher);
        assert_eq!(text_hash(text), hasher.finish());
    }
}

#[test]
fn unreadable_drafts_count_as_none() {
    let s = HistoryStore::for_hash(7, 10);
    assert_eq!(s.load_draft(Some(Vec::new())), None);
    assert_eq!(s.load_draft(Some(vec![0xff])), None);
    assert_eq!(s.load_draft(Some("é".as_bytes().to_vec())), Some("é".to_string()));
    assert_eq!(s.save_draft("é"), vec![0xc3, 0xa9]);
}

#[test]
fn failed_removal_is_reported() {
    let s = HistoryStore::for_hash(7, 10);
    assert_eq!(s.clear_draft(Removal::Failed("denied")), Err("denied"));
    assert_eq!(s.clear_draft(Removal::<&str>::Removed), Ok(()));
}
