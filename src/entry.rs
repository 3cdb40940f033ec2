use vstd::prelude::*;

use crate::words::{split_words, words};

verus! {

/// A terminal-multiplexer session: created detached under `name`, fed each of
/// `commands` in order with `delay` milliseconds before each, then detached.
#[derive(Debug, PartialEq, Eq)]
pub struct Tmux {
    pub name: String,
    pub commands: Vec<String>,
    pub delay: Option<u32>,
}

/// A single process, given as a program name followed by its arguments,
/// separated by white space.
#[derive(Debug, PartialEq, Eq)]
pub struct Script {
    pub command: String,
}

/// One unit of work of a configuration.
#[derive(Debug, PartialEq, Eq)]
pub enum Entry {
    Tmux(Tmux),
    Script(Script),
}

/// What an entry holds, as plain values.
pub enum EntryModel {
    Session { name: Seq<char>, commands: Seq<Seq<char>>, delay: Option<u32> },
    Process { command: Seq<char> },
}

impl View for Entry {
    type V = EntryModel;

    open spec fn view(&self) -> EntryModel {
        match self {
            Entry::Tmux(t) => EntryModel::Session {
                name: t.name@,
                commands: t.commands.deep_view(),
                delay: t.delay,
            },
            Entry::Script(s) => EntryModel::Process { command: s.command@ },
        }
    }
}

/// A program to spawn, with its arguments.
#[derive(Debug, PartialEq, Eq)]
pub struct Invocation {
    pub program: String,
    pub args: Vec<String>,
}

impl View for Invocation {
    type V = (Seq<char>, Seq<Seq<char>>);

    open spec fn view(&self) -> (Seq<char>, Seq<Seq<char>>) {
        (self.program@, self.args.deep_view())
    }
}

/// One thing to do while running an entry: spawn a program and wait for it to
/// exit, or sleep for a number of milliseconds.
#[derive(Debug, PartialEq, Eq)]
pub enum Step {
    Spawn(Invocation),
    Sleep(u64),
}

/// A step as plain values.
pub enum StepModel {
    Spawn(Seq<char>, Seq<Seq<char>>),
    Sleep(u64),
}

impl View for Step {
    type V = StepModel;

    open spec fn view(&self) -> StepModel {
        match self {
            Step::Spawn(i) => StepModel::Spawn(i.program@, i.args.deep_view()),
            Step::Sleep(ms) => StepModel::Sleep(*ms),
        }
    }
}

/// The models of a sequence of steps.
pub open spec fn steps_model(s: Seq<Step>) -> Seq<StepModel> {
    s.map_values(|x: Step| x@)
}

/// The multiplexer's control program.
pub open spec fn control_program() -> Seq<char> {
    "tmux"@
}

/// The control invocation that creates the detached session `name`.
pub open spec fn new_session(name: Seq<char>) -> StepModel {
    StepModel::Spawn(control_program(), seq!["new-session"@, "-d"@, "-s"@, name])
}

/// The control invocation that types `command` into session `name`, then Enter.
pub open spec fn send_keys(name: Seq<char>, command: Seq<char>) -> StepModel {
    StepModel::Spawn(control_program(), seq!["send-keys"@, "-t"@, name, command, "C-m"@])
}

/// The control invocation that detaches session `name`.
pub open spec fn detach(name: Seq<char>) -> StepModel {
    StepModel::Spawn(control_program(), seq!["detach"@, "-s"@, name])
}

/// A sleep of `delay` milliseconds before each command, and the command sent.
pub open spec fn feed(name: Seq<char>, commands: Seq<Seq<char>>, delay: u64) -> Seq<StepModel>
    decreases commands.len(),
{
    if commands.len() == 0 {
        seq![]
    } else {
        feed(name, commands.drop_last(), delay) + seq![
            StepModel::Sleep(delay),
            send_keys(name, commands.last()),
        ]
    }
}

/// The whole session protocol: create, feed the commands, sleep once more, detach.
pub open spec fn session_steps(name: Seq<char>, commands: Seq<Seq<char>>, delay: u64) -> Seq<
    StepModel,
> {
    seq![new_session(name)] + feed(name, commands, delay) + seq![
        StepModel::Sleep(delay),
        detach(name),
    ]
}

/// The number of spawns among `s`.
pub open spec fn spawn_count(s: Seq<StepModel>) -> nat
    decreases s.len(),
{
    if s.len() == 0 {
        0
    } else {
        spawn_count(s.drop_last()) + if s.last() is Spawn {
            1nat
        } else {
            0nat
        }
    }
}

proof fn lemma_spawn_count_append(a: Seq<StepModel>, b: Seq<StepModel>)
    ensures
        spawn_count(a + b) == spawn_count(a) + spawn_count(b),
    decreases b.len(),
{
    if b.len() == 0 {
        assert(a + b =~= a);
    } else {
        assert((a + b).drop_last() =~= a + b.drop_last());
        lemma_spawn_count_append(a, b.drop_last());
    }
}

proof fn lemma_spawn_count_feed(name: Seq<char>, commands: Seq<Seq<char>>, delay: u64)
    ensures
        spawn_count(feed(name, commands, delay)) == commands.len(),
    decreases commands.len(),
{
    if commands.len() > 0 {
        let pair = seq![StepModel::Sleep(delay), send_keys(name, commands.last())];
        lemma_spawn_count_feed(name, commands.drop_last(), delay);
        lemma_spawn_count_append(feed(name, commands.drop_last(), delay), pair);
        lemma_spawn_count_pair(StepModel::Sleep(delay), send_keys(name, commands.last()));
    } else {
        assert(feed(name, commands, delay) == Seq::<StepModel>::empty());
    }
}

proof fn lemma_spawn_count_pair(a: StepModel, b: StepModel)
    ensures
        spawn_count(seq![a, b]) == spawn_count(seq![a]) + spawn_count(seq![b]),
        spawn_count(seq![a]) == if a is Spawn {
            1nat
        } else {
            0nat
        },
        spawn_count(seq![b]) == if b is Spawn {
            1nat
        } else {
            0nat
        },
{
    let e = Seq::<StepModel>::empty();
    assert(spawn_count(e) == 0);
    assert(seq![a, b].drop_last() =~= seq![a]);
    assert(seq![a, b].last() == b);
    assert(seq![a].drop_last() =~= e);
    assert(seq![a].last() == a);
    assert(seq![b].drop_last() =~= e);
    assert(seq![b].last() == b);
}

/// A session spawns the control program once to create it, once per command,
/// and once to detach it.
pub proof fn lemma_session_spawns(name: Seq<char>, commands: Seq<Seq<char>>, delay: u64)
    ensures
        spawn_count(session_steps(name, commands, delay)) == commands.len() + 2,
{
    let head = seq![new_session(name)];
    let tail = seq![StepModel::Sleep(delay), detach(name)];
    lemma_spawn_count_feed(name, commands, delay);
    lemma_spawn_count_append(head, feed(name, commands, delay));
    lemma_spawn_count_append(head + feed(name, commands, delay), tail);
    lemma_spawn_count_pair(new_session(name), new_session(name));
    lemma_spawn_count_pair(StepModel::Sleep(delay), detach(name));
}

/// A session of three commands creates the session, then sleeps before each
/// send, sleeps once more after the last send, and detaches.
pub proof fn lemma_three_commands(
    name: Seq<char>,
    c1: Seq<char>,
    c2: Seq<char>,
    c3: Seq<char>,
    delay: u64,
)
    ensures
        session_steps(name, seq![c1, c2, c3], delay) == seq![
            new_session(name),
            StepModel::Sleep(delay),
            send_keys(name, c1),
            StepModel::Sleep(delay),
            send_keys(name, c2),
            StepModel::Sleep(delay),
            send_keys(name, c3),
            StepModel::Sleep(delay),
            detach(name),
        ],
{
    let cs = seq![c1, c2, c3];
    assert(cs.drop_last() =~= seq![c1, c2]);
    assert(cs.drop_last().drop_last() =~= seq![c1]);
    assert(cs.drop_last().drop_last().drop_last() =~= Seq::<Seq<char>>::empty());
    let s = StepModel::Sleep(delay);
    assert(feed(name, seq![], delay) == Seq::<StepModel>::empty());
    assert(feed(name, seq![c1], delay) =~= seq![s, send_keys(name, c1)]);
    assert(feed(name, seq![c1, c2], delay) =~= seq![s, send_keys(name, c1), s, send_keys(name, c2)]);
    assert(feed(name, cs, delay) =~= seq![
        s,
        send_keys(name, c1),
        s,
        send_keys(name, c2),
        s,
        send_keys(name, c3),
    ]);
    assert(session_steps(name, cs, delay) =~= seq![
        new_session(name),
        StepModel::Sleep(delay),
        send_keys(name, c1),
        StepModel::Sleep(delay),
        send_keys(name, c2),
        StepModel::Sleep(delay),
        send_keys(name, c3),
        StepModel::Sleep(delay),
        detach(name),
    ]);
}

/// A session without commands creates the session, sleeps once, and detaches.
pub proof fn lemma_no_commands(name: Seq<char>, delay: Option<u32>)
    ensures
        session_steps(name, seq![], delay_ms(delay)) == seq![
            new_session(name),
            StepModel::Sleep(delay_ms(delay)),
            detach(name),
        ],
        delay is None ==> delay_ms(delay) == 0,
{
    assert(session_steps(name, seq![], delay_ms(delay)) =~= seq![
        new_session(name),
        StepModel::Sleep(delay_ms(delay)),
        detach(name),
    ]);
}

/// The delay of a session in milliseconds: 0 when none is given.
pub open spec fn delay_ms(delay: Option<u32>) -> u64 {
    match delay {
        Some(d) => d as u64,
        None => 0,
    }
}

/// The invocation a process entry makes: its first word is the program, the
/// rest are the arguments; none when the command has no word.
pub open spec fn process_invocation(command: Seq<char>) -> Option<(Seq<char>, Seq<Seq<char>>)> {
    let w = words(command);
    if w.len() == 0 {
        None
    } else {
        Some((w[0], w.drop_first()))
    }
}

/// The steps of running an entry; none for a process entry without a program.
pub open spec fn entry_steps(e: EntryModel) -> Option<Seq<StepModel>> {
    match e {
        EntryModel::Session { name, commands, delay } => Some(
            session_steps(name, commands, delay_ms(delay)),
        ),
        EntryModel::Process { command } => match process_invocation(command) {
            Some((p, a)) => Some(seq![StepModel::Spawn(p, a)]),
            None => None,
        },
    }
}

/// Milliseconds to wait before each command of a session, and once before detaching.
pub fn delay_millis(delay: Option<u32>) -> (r: u64)
    ensures
        r == delay_ms(delay),
{
    match delay {
        Some(d) => d as u64,
        None => 0,
    }
}

pub(crate) fn text(s: &str) -> (r: String)
    ensures
        r@ == s@,
{
    s.to_owned()
}

fn push_text(v: &mut Vec<String>, s: &str)
    ensures
        final(v).deep_view() == old(v).deep_view().push(s@),
{
    let ghost before = v.deep_view();
    v.push(text(s));
    proof {
        assert(v.deep_view() =~= before.push(s@));
    }
}

fn push_string(v: &mut Vec<String>, s: &String)
    ensures
        final(v).deep_view() == old(v).deep_view().push(s@),
{
    let ghost before = v.deep_view();
    v.push(s.clone());
    proof {
        assert(v.deep_view() =~= before.push(s@));
    }
}

fn control(args: Vec<String>) -> (r: Step)
    ensures
        r@ == StepModel::Spawn(control_program(), args.deep_view()),
{
    Step::Spawn(Invocation { program: text("tmux"), args })
}

impl Tmux {
    /// The steps that run this session, in order.
    pub fn steps(&self) -> (r: Vec<Step>)
        ensures
            steps_model(r@) == session_steps(self.name@, self.commands.deep_view(), delay_ms(self.delay)),
    {
        let delay = delay_millis(self.delay);
        let ghost name = self.name@;
        let ghost cmds = self.commands.deep_view();
        let mut out: Vec<Step> = Vec::new();
        let mut args: Vec<String> = Vec::new();
        push_text(&mut args, "new-session");
        push_text(&mut args, "-d");
        push_text(&mut args, "-s");
        push_string(&mut args, &self.name);
        proof {
            assert(args.deep_view() =~= seq!["new-session"@, "-d"@, "-s"@, name]);
        }
        out.push(control(args));
        proof {
            assert(cmds.take(0) =~= Seq::<Seq<char>>::empty());
            assert(feed(name, cmds.take(0), delay) == Seq::<StepModel>::empty());
            assert(steps_model(out@) =~= seq![new_session(name)] + feed(name, cmds.take(0), delay));
        }
        let mut i: usize = 0;
        while i < self.commands.len()
            invariant
                i <= self.commands@.len(),
                name == self.name@,
                cmds == self.commands.deep_view(),
                steps_model(out@) == seq![new_session(name)] + feed(name, cmds.take(i as int), delay),
            decreases self.commands@.len() - i,
        {
            let ghost before = out@;
            out.push(Step::Sleep(delay));
            let mut args: Vec<String> = Vec::new();
            push_text(&mut args, "send-keys");
            push_text(&mut args, "-t");
            push_string(&mut args, &self.name);
            push_string(&mut args, &self.commands[i]);
            push_text(&mut args, "C-m");
            proof {
                assert(args.deep_view() =~= seq!["send-keys"@, "-t"@, name, cmds[i as int], "C-m"@]);
            }
            out.push(control(args));
            proof {
                let t = cmds.take(i + 1);
                assert(t.drop_last() =~= cmds.take(i as int));
                assert(t.last() == cmds[i as int]);
                assert(steps_model(out@) =~= steps_model(before) + seq![
                    StepModel::Sleep(delay),
                    send_keys(name, cmds[i as int]),
                ]);
            }
            i = i + 1;
        }
        out.push(Step::Sleep(delay));
        let mut args: Vec<String> = Vec::new();
        push_text(&mut args, "detach");
        push_text(&mut args, "-s");
        push_string(&mut args, &self.name);
        proof {
            assert(args.deep_view() =~= seq!["detach"@, "-s"@, name]);
        }
        out.push(control(args));
        proof {
            assert(cmds.take(self.commands@.len() as int) =~= cmds);
            assert(steps_model(out@) =~= session_steps(name, cmds, delay));
        }
        out
    }
}

impl Script {
    /// The program and arguments this entry spawns: the first word of the
    /// command and the words after it; `None` when the command has no word.
    pub fn invocation(&self) -> (r: Option<Invocation>)
        ensures
            match r {
                Some(i) => process_invocation(self.command@) == Some(i@),
                None => process_invocation(self.command@) is None,
            },
    {
        let mut w = split_words(self.command.as_str());
        if w.len() == 0 {
            None
        } else {
            let ghost all = w.deep_view();
            let program = w.remove(0);
            proof {
                assert(w.deep_view() =~= all.drop_first());
            }
            Some(Invocation { program, args: w })
        }
    }
}

impl Entry {
    /// The steps that run this entry, in order; `None` for a process entry
    /// whose command names no program.
    pub fn steps(&self) -> (r: Option<Vec<Step>>)
        ensures
            match r {
                Some(s) => entry_steps(self@) == Some(steps_model(s@)),
                None => entry_steps(self@) is None,
            },
    {
        match self {
            Entry::Tmux(t) => Some(t.steps()),
            Entry::Script(s) => match s.invocation() {
                Some(i) => {
                    let out = vec![Step::Spawn(i)];
                    proof {
                        assert(steps_model(out@) =~= seq![out@[0]@]);
                    }
                    Some(out)
                },
                None => None,
            },
        }
    }
}

} // verus!
