use restart_controller::config::{entry_from_json, parse_config, ConfigError, Json};
use restart_controller::entry::{Entry, Script, Tmux};

fn s(x: &str) -> String {
    x.to_string()
}

fn str_(x: &str) -> Json {
    Json::Str(s(x))
}

fn obj(members: Vec<(&str, Json)>) -> Json {
    Json::Object(members.into_iter().map(|(k, v)| (s(k), v)).collect())
}

fn session(name: &str, commands: &[&str]) -> Vec<(&'static str, Json)> {
    vec![
        ("name", str_(name)),
        ("commands", Json::Array(commands.iter().map(|c| str_(c)).collect())),
    ]
}

#[test]
fn entry_count_matches_array() {
    let mut first = session("dev", &["ls", "pwd"]);
    first.push(("delay", Json::Number(Some(100))));
    let doc = Json::Array(vec![
        obj(first),
        obj(vec![("command", str_("echo hello world"))]),
        obj(session("empty", &[])),
    ]);
    let entries = parse_config(&doc).unwrap();
    assert_eq!(entries.len(), 3);
    assert_eq!(
        entries[0],
        Entry::Tmux(Tmux { name: s("dev"), commands: vec![s("ls"), s("pwd")], delay: Some(100) })
    );
    assert_eq!(entries[1], Entry::Script(Script { command: s("echo hello world") }));
    assert_eq!(entries[2], Entry::Tmux(Tmux { name: s("empty"), commands: vec![], delay: None }));
}

#[test]
fn empty_array_gives_no_entries() {
    assert_eq!(parse_config(&Json::Array(vec![])), Ok(vec![]));
}

#[test]
fn document_not_an_array() {
    assert_eq!(parse_config(&obj(vec![("command", str_("ls"))])), Err(ConfigError::NotAList));
    assert_eq!(parse_config(&Json::Null), Err(ConfigError::NotAList));
}

#[test]
fn element_of_neither_shape() {
    let doc = Json::Array(vec![
        obj(vec![("command", str_("ls"))]),
        obj(vec![("name", str_("x"))]),
        Json::Number(Some(3)),
    ]);
    assert_eq!(parse_config(&doc), Err(ConfigError::BadEntry(1)));
    let doc = Json::Array(vec![str_("ls")]);
    assert_eq!(parse_config(&doc), Err(ConfigError::BadEntry(0)));
}

#[test]
fn session_shape_is_tried_first() {
    let mut m = session("both", &["a"]);
    m.push(("command", str_("echo")));
    assert_eq!(
        entry_from_json(&obj(m)),
        Some(Entry::Tmux(Tmux { name: s("both"), commands: vec![s("a")], delay: None }))
    );
}

#[test]
fn bad_session_falls_back_to_process() {
    let mut m = session("x", &["a"]);
    m.push(("delay", Json::Number(None)));
    m.push(("command", str_("date")));
    assert_eq!(entry_from_json(&obj(m)), Some(Entry::Script(Script { command: s("date") })));
}

#[test]
fn delay_forms() {
    let mut m = session("x", &[]);
    m.push(("delay", Json::Null));
    assert_eq!(
        entry_from_json(&obj(m)),
        Some(Entry::Tmux(Tmux { name: s("x"), commands: vec![], delay: None }))
    );
    let mut m = session("x", &[]);
    m.push(("delay", Json::Number(Some(4294967295))));
    assert_eq!(
        entry_from_json(&obj(m)),
        Some(Entry::Tmux(Tmux { name: s("x"), commands: vec![], delay: Some(u32::MAX) }))
    );
    let mut m = session("x", &[]);
    m.push(("delay", Json::Number(Some(4294967296))));
    assert_eq!(entry_from_json(&obj(m)), None);
    let mut m = session("x", &[]);
    m.push(("delay", str_("10")));
    assert_eq!(entry_from_json(&obj(m)), None);
}

#[test]
fn commands_must_all_be_strings() {
    let m = vec![
        ("name", str_("x")),
        ("commands", Json::Array(vec![str_("a"), Json::Bool(true)])),
    ];
    assert_eq!(entry_from_json(&obj(m)), None);
    let m = vec![("name", str_("x")), ("commands", str_("a"))];
    assert_eq!(entry_from_json(&obj(m)), None);
}

#[test]
fn wrong_member_types() {
    assert_eq!(entry_from_json(&obj(vec![("command", Json::Number(Some(1)))])), None);
    let m = vec![("name", Json::Null), ("commands", Json::Array(vec![]))];
    assert_eq!(entry_from_json(&obj(m)), None);
}

#[test]
fn extra_members_are_ignored() {
    let m = vec![("comment", str_("nightly")), ("command", str_("backup --all"))];
    assert_eq!(entry_from_json(&obj(m)), Some(Entry::Script(Script { command: s("backup --all") })));
}

#[test]
fn first_member_of_a_name_counts() {
    let m = vec![("command", str_("first")), ("command", str_("second"))];
    assert_eq!(entry_from_json(&obj(m)), Some(Entry::Script(Script { command: s("first") })));
}
