//! The JSON file into which a storage saves the entries it compacts: an
//! array to which each compaction appends one object, keyed by the time of
//! the compaction, that lists the compacted entries.
use crate::error::Error;
use crate::types::EntryType;
use serde_json::Value;
use vstd::prelude::*;

verus! {

#[verifier::external_type_specification]
#[verifier::external_body]
pub struct ExJsonValue(serde_json::Value);

/// What `serde_json::from_str` reads from `text` as an array of JSON
/// values, or nothing where `text` is not one.
pub uninterp spec fn json_array_of(text: Seq<char>) -> Option<Seq<Value>>;

/// What `serde_json::to_string_pretty` writes for an array of values, or
/// nothing where it fails.
pub uninterp spec fn pretty_json_of(values: Seq<Value>) -> Option<Seq<char>>;

/// The JSON string `s` (`Value::String`).
pub uninterp spec fn json_str_of(s: Seq<char>) -> Value;

/// The JSON number `n` (`Value::from(u64)`).
pub uninterp spec fn json_u64_of(n: u64) -> Value;

/// The JSON boolean `b` (`Value::Bool`).
pub uninterp spec fn json_bool_of(b: bool) -> Value;

/// The JSON array of `vs` (`Value::Array`).
pub uninterp spec fn json_array_value_of(vs: Seq<Value>) -> Value;

/// The JSON object of the fields `fs` (`Value::Object` of the map that
/// `serde_json::Map::from_iter` builds from them).
pub uninterp spec fn json_object_of(fs: Seq<(Seq<char>, Value)>) -> Value;

#[verifier::external_body]
fn json_from_str(text: &str) -> (r: Result<Vec<Value>, String>)
    ensures
        r is Ok <==> json_array_of(text@) is Some,
        r matches Ok(v) ==> json_array_of(text@) == Some(v@),
{
    serde_json::from_str::<Vec<Value>>(text).map_err(|e| e.to_string())
}

#[verifier::external_body]
fn json_to_string_pretty(values: &Vec<Value>) -> (r: Result<String, String>)
    ensures
        r is Ok <==> pretty_json_of(values@) is Some,
        r matches Ok(t) ==> pretty_json_of(values@) == Some(t@),
{
    serde_json::to_string_pretty(values).map_err(|e| e.to_string())
}

#[verifier::external_body]
fn json_str(s: String) -> (r: Value)
    ensures
        r == json_str_of(s@),
{
    Value::String(s)
}

#[verifier::external_body]
fn json_u64(n: u64) -> (r: Value)
    ensures
        r == json_u64_of(n),
{
    Value::from(n)
}

#[verifier::external_body]
fn json_bool(b: bool) -> (r: Value)
    ensures
        r == json_bool_of(b),
{
    Value::Bool(b)
}

#[verifier::external_body]
fn json_array_value(vs: Vec<Value>) -> (r: Value)
    ensures
        r == json_array_value_of(vs@),
{
    Value::Array(vs)
}

#[verifier::external_body]
fn json_object(fs: Vec<(String, Value)>) -> (r: Value)
    ensures
        r == json_object_of(fs@.map_values(|f: (String, Value)| (f.0@, f.1))),
{
    Value::Object(fs.into_iter().collect())
}

/// A compacted entry as it is saved: its type, term and index, its data and
/// context as the entry formatter shows them, and its `sync_log` flag.
pub struct CompactedEntry {
    pub entry_type: EntryType,
    pub term: u64,
    pub index: u64,
    pub data: String,
    pub context: String,
    pub sync_log: bool,
}

pub struct CompactedEntryView {
    pub entry_type: EntryType,
    pub term: u64,
    pub index: u64,
    pub data: Seq<char>,
    pub context: Seq<char>,
    pub sync_log: bool,
}

impl View for CompactedEntry {
    type V = CompactedEntryView;

    open spec fn view(&self) -> CompactedEntryView {
        CompactedEntryView {
            entry_type: self.entry_type,
            term: self.term,
            index: self.index,
            data: self.data@,
            context: self.context@,
            sync_log: self.sync_log,
        }
    }
}

/// The name under which an entry type is saved.
pub open spec fn entry_type_name(t: EntryType) -> Seq<char> {
    match t {
        EntryType::EntryNormal => "EntryNormal"@,
        EntryType::EntryConfChange => "EntryConfChange"@,
        EntryType::EntryConfChangeV2 => "EntryConfChangeV2"@,
    }
}

/// Each entry type is saved under its own name, and distinct types under
/// distinct names, so that the saved log tells them apart.
pub proof fn law_entry_type_names()
    ensures
        entry_type_name(EntryType::EntryNormal) == "EntryNormal"@,
        entry_type_name(EntryType::EntryConfChange) == "EntryConfChange"@,
        entry_type_name(EntryType::EntryConfChangeV2) == "EntryConfChangeV2"@,
        forall|a: EntryType, b: EntryType| entry_type_name(a) == entry_type_name(b) ==> a == b,
{
    reveal_strlit("EntryNormal");
    reveal_strlit("EntryConfChange");
    reveal_strlit("EntryConfChangeV2");
    assert forall|a: EntryType, b: EntryType| entry_type_name(a) == entry_type_name(b) implies a == b by {
        assert(entry_type_name(a).len() == entry_type_name(b).len());
    }
}

/// The object saved for one compacted entry.
pub open spec fn entry_object_of(e: CompactedEntryView) -> Value {
    json_object_of(
        seq![
            ("entry_type"@, json_str_of(entry_type_name(e.entry_type))),
            ("term"@, json_u64_of(e.term)),
            ("index"@, json_u64_of(e.index)),
            ("data"@, json_str_of(e.data)),
            ("context"@, json_str_of(e.context)),
            ("sync_log"@, json_bool_of(e.sync_log)),
        ],
    )
}

/// The object that one compaction appends: the list of its entries under
/// the time of the compaction.
pub open spec fn compaction_record_of(timestamp: Seq<char>, entries: Seq<CompactedEntryView>) -> Value {
    json_object_of(
        seq![(timestamp, json_array_value_of(entries.map_values(|e: CompactedEntryView| entry_object_of(e))))],
    )
}

/// The values that a file with `contents` holds: none when it is empty.
pub open spec fn saved_values(contents: Seq<char>) -> Option<Seq<Value>> {
    if contents.len() == 0 {
        Some(Seq::empty())
    } else {
        json_array_of(contents)
    }
}

fn entry_type_text(t: EntryType) -> (r: String)
    ensures
        r@ == entry_type_name(t),
{
    proof {
        reveal_strlit("EntryNormal");
        reveal_strlit("EntryConfChange");
        reveal_strlit("EntryConfChangeV2");
    }
    match t {
        EntryType::EntryNormal => "EntryNormal".to_owned(),
        EntryType::EntryConfChange => "EntryConfChange".to_owned(),
        EntryType::EntryConfChangeV2 => "EntryConfChangeV2".to_owned(),
    }
}

fn field(name: &str, value: Value) -> (r: (String, Value))
    ensures
        r.0@ == name@,
        r.1 == value,
{
    (name.to_owned(), value)
}

fn entry_object(e: &CompactedEntry) -> (r: Value)
    ensures
        r == entry_object_of(e@),
{
    proof {
        reveal_strlit("entry_type");
        reveal_strlit("term");
        reveal_strlit("index");
        reveal_strlit("data");
        reveal_strlit("context");
        reveal_strlit("sync_log");
    }
    let mut fs: Vec<(String, Value)> = Vec::new();
    fs.push(field("entry_type", json_str(entry_type_text(e.entry_type))));
    fs.push(field("term", json_u64(e.term)));
    fs.push(field("index", json_u64(e.index)));
    fs.push(field("data", json_str(e.data.clone())));
    fs.push(field("context", json_str(e.context.clone())));
    fs.push(field("sync_log", json_bool(e.sync_log)));
    let ghost want = seq![
        ("entry_type"@, json_str_of(entry_type_name(e.entry_type))),
        ("term"@, json_u64_of(e.term)),
        ("index"@, json_u64_of(e.index)),
        ("data"@, json_str_of(e@.data)),
        ("context"@, json_str_of(e@.context)),
        ("sync_log"@, json_bool_of(e.sync_log)),
    ];
    assert(fs@.map_values(|f: (String, Value)| (f.0@, f.1)) =~= want);
    json_object(fs)
}

/// The object that a compaction at `timestamp` of `entries` appends.
pub fn compaction_record(timestamp: String, entries: &[CompactedEntry]) -> (r: Value)
    ensures
        r == compaction_record_of(timestamp@, entries@.map_values(|e: CompactedEntry| e@)),
{
    let mut items: Vec<Value> = Vec::new();
    let mut i: usize = 0;
    while i < entries.len()
        invariant
            i <= entries.len(),
            items@ =~= entries@.take(i as int).map_values(|e: CompactedEntry| entry_object_of(e@)),
        decreases entries.len() - i,
    {
        let item = entry_object(&entries[i]);
        items.push(item);
        i = i + 1;
        assert(items@ =~= entries@.take(i as int).map_values(|e: CompactedEntry| entry_object_of(e@)));
    }
    assert(entries@.take(entries.len() as int) =~= entries@);
    let ghost views = entries@.map_values(|e: CompactedEntry| e@);
    assert(items@ =~= views.map_values(|e: CompactedEntryView| entry_object_of(e)));
    let mut fs: Vec<(String, Value)> = Vec::new();
    fs.push((timestamp, json_array_value(items)));
    assert(fs@.map_values(|f: (String, Value)| (f.0@, f.1)) =~= seq![
        (timestamp@, json_array_value_of(views.map_values(|e: CompactedEntryView| entry_object_of(e)))),
    ]);
    json_object(fs)
}

/// The new contents of the compacted-log file whose contents are
/// `contents`, once the compaction at `timestamp` of `entries` is saved:
/// `None` (the file is left alone) when there are no entries; otherwise
/// the saved array with the compaction's object appended, written pretty.
/// Contents that are not a JSON array are an `Other` error.
pub fn compacted_log_text(contents: &str, timestamp: String, entries: &[CompactedEntry]) -> (r:
    Result<Option<String>, Error>)
    ensures
        entries@.len() == 0 ==> r matches Ok(None),
        entries@.len() > 0 ==> match saved_values(contents@) {
            None => r matches Err(e) && e is Other,
            Some(vs) => {
                let all = vs.push(
                    compaction_record_of(timestamp@, entries@.map_values(|e: CompactedEntry| e@)),
                );
                &&& (r is Ok <==> pretty_json_of(all) is Some)
                &&& r matches Ok(t) ==> (t matches Some(s) && pretty_json_of(all) == Some(s@))
                &&& r matches Err(e) ==> e is Other
            },
        },
{
    if entries.len() == 0 {
        return Ok(None);
    }
    let mut values = if contents.is_empty() {
        Vec::new()
    } else {
        match json_from_str(contents) {
            Ok(v) => v,
            Err(m) => {
                return Err(Error::Other(m));
            },
        }
    };
    let record = compaction_record(timestamp, entries);
    values.push(record);
    match json_to_string_pretty(&values) {
        Ok(t) => Ok(Some(t)),
        Err(m) => Err(Error::Other(m)),
    }
}

/// The new contents of a JSON file that holds an array of texts, once
/// `texts` are appended to it. Contents that are not a JSON array are an
/// `Other` error.
pub fn json_file_text(contents: &str, texts: &[String]) -> (r: Result<String, Error>)
    ensures
        match saved_values(contents@) {
            None => r matches Err(e) && e is Other,
            Some(vs) => {
                let all = vs + texts@.map_values(|t: String| json_str_of(t@));
                &&& (r is Ok <==> pretty_json_of(all) is Some)
                &&& r matches Ok(t) ==> pretty_json_of(all) == Some(t@)
                &&& r matches Err(e) ==> e is Other
            },
        },
{
    let mut values = if contents.is_empty() {
        Vec::new()
    } else {
        match json_from_str(contents) {
            Ok(v) => v,
            Err(m) => {
                return Err(Error::Other(m));
            },
        }
    };
    let ghost start = values@;
    let mut i: usize = 0;
    while i < texts.len()
        invariant
            i <= texts.len(),
            values@ =~= start + texts@.take(i as int).map_values(|t: String| json_str_of(t@)),
        decreases texts.len() - i,
    {
        values.push(json_str(texts[i].clone()));
        i = i + 1;
        assert(values@ =~= start + texts@.take(i as int).map_values(|t: String| json_str_of(t@)));
    }
    assert(texts@.take(texts.len() as int) =~= texts@);
    match json_to_string_pretty(&values) {
        Ok(t) => Ok(t),
        Err(m) => Err(Error::Other(m)),
    }
}

} // verus!
