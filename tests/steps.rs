use restart_controller::entry::{delay_millis, Entry, Invocation, Script, Step, Tmux};
use restart_controller::words::split_words;

fn s(x: &str) -> String {
    x.to_string()
}

fn spawn(program: &str, args: &[&str]) -> Step {
    Step::Spawn(Invocation { program: s(program), args: args.iter().map(|a| s(a)).collect() })
}

#[test]
fn session_with_three_commands() {
    let t = Tmux {
        name: s("work"),
        commands: vec![s("cd src"), s("vim"), s("make test")],
        delay: Some(100),
    };
    let expected = vec![
        spawn("tmux", &["new-session", "-d", "-s", "work"]),
        Step::Sleep(100),
        spawn("tmux", &["send-keys", "-t", "work", "cd src", "C-m"]),
        Step::Sleep(100),
        spawn("tmux", &["send-keys", "-t", "work", "vim", "C-m"]),
        Step::Sleep(100),
        spawn("tmux", &["send-keys", "-t", "work", "make test", "C-m"]),
        Step::Sleep(100),
        spawn("tmux", &["detach", "-s", "work"]),
    ];
    assert_eq!(t.steps(), expected);
    let spawns = t.steps().iter().filter(|x| matches!(x, Step::Spawn(_))).count();
    assert_eq!(spawns, 5);
}

#[test]
fn session_without_commands_or_delay() {
    let t = Tmux { name: s("idle"), commands: vec![], delay: None };
    assert_eq!(
        t.steps(),
        vec![
            spawn("tmux", &["new-session", "-d", "-s", "idle"]),
            Step::Sleep(0),
            spawn("tmux", &["detach", "-s", "idle"]),
        ]
    );
}

#[test]
fn session_without_commands_with_delay() {
    let t = Tmux { name: s("idle"), commands: vec![], delay: Some(250) };
    assert_eq!(
        t.steps(),
        vec![
            spawn("tmux", &["new-session", "-d", "-s", "idle"]),
            Step::Sleep(250),
            spawn("tmux", &["detach", "-s", "idle"]),
        ]
    );
}

#[test]
fn session_largest_delay() {
    let t = Tmux { name: s("x"), commands: vec![s("ls")], delay: Some(u32::MAX) };
    let steps = t.steps();
    assert_eq!(steps.len(), 5);
    assert_eq!(steps[1], Step::Sleep(4294967295));
    assert_eq!(steps[3], Step::Sleep(4294967295));
}

#[test]
fn delay_defaults_to_zero() {
    assert_eq!(delay_millis(None), 0);
    assert_eq!(delay_millis(Some(7)), 7);
}

#[test]
fn process_echo_hello_world() {
    let p = Script { command: s("echo hello world") };
    let i = p.invocation().unwrap();
    assert_eq!(i.program, "echo");
    assert_eq!(i.args, vec![s("hello"), s("world")]);
}

#[test]
fn process_with_irregular_spacing() {
    let p = Script { command: s("  ls\t-l \n\u{3000}-a  ") };
    let i = p.invocation().unwrap();
    assert_eq!(i.program, "ls");
    assert_eq!(i.args, vec![s("-l"), s("-a")]);
}

#[test]
fn process_without_arguments() {
    let p = Script { command: s("true") };
    let i = p.invocation().unwrap();
    assert_eq!(i.program, "true");
    assert!(i.args.is_empty());
}

#[test]
fn process_with_empty_command() {
    assert_eq!(Script { command: s("") }.invocation(), None);
    assert_eq!(Script { command: s(" \t\n ") }.invocation(), None);
    assert_eq!(Entry::Script(Script { command: s("   ") }).steps(), None);
}

#[test]
fn entry_steps_dispatch() {
    let e = Entry::Script(Script { command: s("echo hi") });
    assert_eq!(e.steps(), Some(vec![spawn("echo", &["hi"])]));
    let t = Entry::Tmux(Tmux { name: s("a"), commands: vec![s("top")], delay: Some(5) });
    assert_eq!(t.steps().unwrap().len(), 5);
}

#[test]
fn words_are_split_on_white_space() {
    assert_eq!(split_words("a  bc\u{2003}d"), vec![s("a"), s("bc"), s("d")]);
    assert_eq!(split_words(""), Vec::<String>::new());
    assert_eq!(split_words("single"), vec![s("single")]);
    assert_eq!(split_words("é ü"), vec![s("é"), s("ü")]);
}
