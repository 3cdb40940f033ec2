use vstd::prelude::*;

use crate::entry::{text, Entry, EntryModel, Script, Tmux};

verus! {

/// A parsed JSON document.
#[derive(Debug, PartialEq, Eq)]
pub enum Json {
    Null,
    Bool(bool),
    /// The number as a `u64` where it is a non-negative integer that fits one,
    /// else `None`.
    Number(Option<u64>),
    Str(String),
    Array(Vec<Json>),
    /// The members of an object, in order.
    Object(Vec<(String, Json)>),
}

/// Why a configuration document was rejected.
#[derive(Debug, PartialEq, Eq, Structural)]
pub enum ConfigError {
    /// The document is not an array.
    NotAList,
    /// The element at this index matches neither entry shape.
    BadEntry(usize),
}

/// The value of the first member of `fields` named `key`.
pub open spec fn lookup(fields: Seq<(String, Json)>, key: Seq<char>) -> Option<Json>
    decreases fields.len(),
{
    if fields.len() == 0 {
        None
    } else if fields[0].0@ == key {
        Some(fields[0].1)
    } else {
        lookup(fields.drop_first(), key)
    }
}

/// Whether every item is a string.
pub open spec fn all_strings(items: Seq<Json>) -> bool {
    forall|i: int| 0 <= i < items.len() ==> (#[trigger] items[i]) is Str
}

/// The texts of items that are all strings.
pub open spec fn strings_of(items: Seq<Json>) -> Seq<Seq<char>> {
    items.map_values(
        |j: Json|
            match j {
                Json::Str(s) => s@,
                _ => Seq::empty(),
            },
    )
}

/// How an optional delay member reads: absent or null is no delay, an integer
/// that fits a `u32` is that delay; anything else does not fit.
pub open spec fn delay_of(d: Option<Json>) -> Option<Option<u32>> {
    match d {
        None => Some(None),
        Some(Json::Null) => Some(None),
        Some(Json::Number(Some(n))) => if n <= u32::MAX {
            Some(Some(n as u32))
        } else {
            None
        },
        _ => None,
    }
}

/// The session an object describes: a string `name`, an array of strings
/// `commands`, and an optional `delay`.
pub open spec fn session_of(fields: Seq<(String, Json)>) -> Option<EntryModel> {
    let n = lookup(fields, "name"@);
    let c = lookup(fields, "commands"@);
    let d = delay_of(lookup(fields, "delay"@));
    if n is Some && n->0 is Str && c is Some && c->0 is Array && all_strings(c->0->Array_0@)
        && d is Some {
        Some(
            EntryModel::Session {
                name: n->0->Str_0@,
                commands: strings_of(c->0->Array_0@),
                delay: d->0,
            },
        )
    } else {
        None
    }
}

/// The process an object describes: a string `command`.
pub open spec fn process_of(fields: Seq<(String, Json)>) -> Option<EntryModel> {
    let c = lookup(fields, "command"@);
    if c is Some && c->0 is Str {
        Some(EntryModel::Process { command: c->0->Str_0@ })
    } else {
        None
    }
}

/// The entry a value describes: an object of the session shape is a session;
/// otherwise one of the process shape is a process; anything else is none.
pub open spec fn entry_of(j: Json) -> Option<EntryModel> {
    match j {
        Json::Object(fields) => if session_of(fields@) is Some {
            session_of(fields@)
        } else {
            process_of(fields@)
        },
        _ => None,
    }
}

/// The value of the first member of `fields` named `key`.
pub fn find<'a>(fields: &'a Vec<(String, Json)>, key: &String) -> (r: Option<&'a Json>)
    ensures
        match r {
            Some(j) => lookup(fields@, key@) == Some(*j),
            None => lookup(fields@, key@) is None,
        },
{
    let mut i: usize = 0;
    proof {
        assert(fields@.skip(0) =~= fields@);
    }
    while i < fields.len()
        invariant
            i <= fields@.len(),
            lookup(fields@, key@) == lookup(fields@.skip(i as int), key@),
        decreases fields@.len() - i,
    {
        proof {
            assert(fields@.skip(i as int).drop_first() =~= fields@.skip(i + 1));
        }
        if fields[i].0 == *key {
            return Some(&fields[i].1);
        }
        i = i + 1;
    }
    None
}

/// Copies of the texts of `items`, if every item is a string.
pub fn strings_from(items: &Vec<Json>) -> (r: Option<Vec<String>>)
    ensures
        match r {
            Some(v) => all_strings(items@) && v.deep_view() == strings_of(items@),
            None => !all_strings(items@),
        },
{
    let mut out: Vec<String> = Vec::new();
    let mut i: usize = 0;
    while i < items.len()
        invariant
            i <= items@.len(),
            all_strings(items@.take(i as int)),
            out.deep_view() == strings_of(items@.take(i as int)),
        decreases items@.len() - i,
    {
        let ghost before = out.deep_view();
        match &items[i] {
            Json::Str(s) => {
                out.push(s.clone());
                proof {
                    assert(out.deep_view() =~= before.push(s@));
                }
            },
            _ => {
                return None;
            },
        }
        proof {
            assert(items@.take(i + 1) =~= items@.take(i as int).push(items@[i as int]));
            assert(strings_of(items@.take(i + 1)) =~= strings_of(items@.take(i as int)).push(
                items@[i as int]->Str_0@,
            ));
        }
        i = i + 1;
    }
    proof {
        assert(items@.take(items@.len() as int) =~= items@);
    }
    Some(out)
}

/// Reads an optional delay member.
pub fn delay_from(d: Option<&Json>) -> (r: Option<Option<u32>>)
    ensures
        r == delay_of(
            match d {
                Some(j) => Some(*j),
                None => None,
            },
        ),
{
    match d {
        None => Some(None),
        Some(Json::Null) => Some(None),
        Some(Json::Number(Some(n))) => if *n <= 4294967295u64 {
            Some(Some(*n as u32))
        } else {
            None
        },
        _ => None,
    }
}

/// The session an object describes, if it has the session shape.
pub fn session_from(fields: &Vec<(String, Json)>) -> (r: Option<Tmux>)
    ensures
        match r {
            Some(t) => session_of(fields@) == Some(Entry::Tmux(t)@),
            None => session_of(fields@) is None,
        },
{
    let name = find(fields, &text("name"));
    let commands = find(fields, &text("commands"));
    let delay = delay_from(find(fields, &text("delay")));
    match (name, commands, delay) {
        (Some(Json::Str(n)), Some(Json::Array(items)), Some(d)) => match strings_from(items) {
            Some(cs) => Some(Tmux { name: n.clone(), commands: cs, delay: d }),
            None => None,
        },
        _ => None,
    }
}

/// The process an object describes, if it has the process shape.
pub fn process_from(fields: &Vec<(String, Json)>) -> (r: Option<Script>)
    ensures
        match r {
            Some(s) => process_of(fields@) == Some(Entry::Script(s)@),
            None => process_of(fields@) is None,
        },
{
    match find(fields, &text("command")) {
        Some(Json::Str(c)) => Some(Script { command: c.clone() }),
        _ => None,
    }
}

/// The entry a value describes: the session shape is tried first, then the
/// process shape.
pub fn entry_from_json(j: &Json) -> (r: Option<Entry>)
    ensures
        match r {
            Some(e) => entry_of(*j) == Some(e@),
            None => entry_of(*j) is None,
        },
{
    match j {
        Json::Object(fields) => match session_from(fields) {
            Some(t) => Some(Entry::Tmux(t)),
            None => match process_from(fields) {
                Some(s) => Some(Entry::Script(s)),
                None => None,
            },
        },
        _ => None,
    }
}

/// The entries of a configuration document: an array whose every element
/// describes an entry, taken in order. All or nothing: the first element that
/// describes none rejects the whole document.
pub fn parse_config(doc: &Json) -> (r: Result<Vec<Entry>, ConfigError>)
    ensures
        match *doc {
            Json::Array(items) => match r {
                Ok(v) => {
                    &&& v@.len() == items@.len()
                    &&& forall|i: int| 0 <= i < v@.len() ==> entry_of(items@[i]) == Some(#[trigger] v@[i]@)
                },
                Err(e) => {
                    &&& e is BadEntry
                    &&& e->BadEntry_0 < items@.len()
                    &&& entry_of(items@[e->BadEntry_0 as int]) is None
                    &&& forall|i: int|
                        0 <= i < e->BadEntry_0 ==> (#[trigger] entry_of(items@[i])) is Some
                },
            },
            _ => r == Err::<Vec<Entry>, ConfigError>(ConfigError::NotAList),
        },
{
    match doc {
        Json::Array(items) => {
            let mut out: Vec<Entry> = Vec::new();
            let mut i: usize = 0;
            while i < items.len()
                invariant
                    *doc == Json::Array(*items),
                    i <= items@.len(),
                    out@.len() == i,
                    forall|k: int| 0 <= k < i ==> entry_of(items@[k]) == Some(#[trigger] out@[k]@),
                decreases items@.len() - i,
            {
                match entry_from_json(&items[i]) {
                    Some(e) => out.push(e),
                    None => {
                        proof {
                            assert forall|k: int| 0 <= k < i implies (#[trigger] entry_of(
                                items@[k],
                            )) is Some by {
                                assert(entry_of(items@[k]) == Some(out@[k]@));
                            }
                        }
                        return Err(ConfigError::BadEntry(i));
                    },
                }
                i = i + 1;
            }
            Ok(out)
        },
        _ => Err(ConfigError::NotAList),
    }
}

} // verus!
