//! One execution of a module against one host, as a state machine.
//!
//! The machine decides; the caller acts. Each call of `Execution::next`
//! reports the outcome of the previous action and receives the next one:
//! acquire a connection slot, connect, hand-shake, acquire the identity agent,
//! authenticate, release the agent, run each command in turn, release the
//! slot, done. Every path that acquired the slot releases it exactly once,
//! and the agent likewise.
//!
//! A command that fails ends the execution with `CommandFailed`; the outputs
//! of the commands that ran before it are not returned.

use vstd::prelude::*;
use crate::module::{python_command, python_invocation, ContentView, Module, ModuleContent};
use crate::text::pairs_view;

verus! {

/// Why an execution, or a request for one, failed.
#[derive(Clone, Copy, Debug, PartialEq, Eq, Structural)]
pub enum ExecError {
    /// No module of that name is registered.
    ModuleNotFound,
    /// The module kind or the authentication strategy is not supported.
    Unsupported,
    /// The TCP connection could not be made.
    Connection,
    /// The protocol handshake failed or timed out.
    Handshake,
    /// The agent or the remote host refused the identity.
    Authentication,
    /// The command at this position could not be run or its output read.
    CommandFailed(usize),
}

/// A failed execution or request: which module, against which target, and
/// in which phase.
#[derive(Clone, Debug)]
pub struct Failure {
    pub module: String,
    pub target: String,
    pub phase: ExecError,
}

/// How to prove identity to the remote host.
#[derive(Clone, Debug)]
pub enum AuthType {
    /// Any identity the local agent offers, for this user name.
    AgentFirst(String),
    /// The agent identity with the given key name, for this user name.
    AgentWithKeyName(String, String),
}

impl AuthType {
    /// The user name to hand to the identity agent; selecting a named key is
    /// not supported.
    pub fn auth(&self) -> (r: Result<String, ExecError>)
        ensures
            match self {
                AuthType::AgentFirst(u) => r is Ok && r->Ok_0@ == u@,
                AuthType::AgentWithKeyName(_, _) => r == Err::<String, ExecError>(ExecError::Unsupported),
            },
    {
        match self {
            AuthType::AgentFirst(u) => Ok(u.clone()),
            AuthType::AgentWithKeyName(_, _) => Err(ExecError::Unsupported),
        }
    }
}

/// The caller's gate on shared local resources, consulted by whoever carries
/// out an execution's actions: the handshake timeout in milliseconds, a slot
/// for each outbound connection, and exclusive use of the identity agent.
pub trait ConnectionProps {
    fn get_timeout(&self) -> u32;

    fn tcp_synchronization(&self);

    fn agent_synchronization(&self);

    fn tcp_release(&self);

    fn agent_release(&self);
}

/// The captured output of an execution.
#[derive(Clone, Debug)]
pub enum CommandOutput {
    /// Output per command name, in the order the commands ran.
    Multi(Vec<(String, String)>),
    /// The output of a single script.
    Single(String),
}

pub enum OutputView {
    Multi(Seq<(Seq<char>, Seq<char>)>),
    Single(Seq<char>),
}

impl CommandOutput {
    pub open spec fn view(&self) -> OutputView {
        match self {
            CommandOutput::Multi(v) => OutputView::Multi(pairs_view(v@)),
            CommandOutput::Single(s) => OutputView::Single(s@),
        }
    }
}

/// Where an execution stands: each stage but `Start` and `Finished` waits for
/// the outcome of the action that led to it.
#[derive(Clone, Copy, Debug, PartialEq, Eq, Structural)]
pub enum Stage {
    Start,
    AwaitSlot,
    AwaitConnect,
    AwaitHandshake,
    AwaitAgent,
    AwaitAuth,
    AwaitAgentRelease,
    AwaitCommand(usize),
    AwaitRelease,
    Finished,
}

/// What the caller is to do next.
#[derive(Clone, Copy, Debug, PartialEq, Eq, Structural)]
pub enum Action {
    /// Take a connection slot from the synchronization contract.
    AcquireSlot,
    /// Open the TCP connection to the target.
    Connect,
    /// Run the protocol handshake, under the contract's timeout.
    Handshake,
    /// Take the identity agent from the synchronization contract.
    AcquireAgent,
    /// Authenticate as `Execution::user` through the agent.
    Authenticate,
    /// Give the identity agent back.
    ReleaseAgent,
    /// Run the command at this position and capture its output.
    Run(usize),
    /// Give the connection slot back.
    ReleaseSlot,
    /// Nothing more; `Execution::outcome` holds the result.
    Done,
}

/// The outcome of the previous action.
#[derive(Clone, Debug)]
pub enum Event {
    Completed,
    Failed,
    /// A command ran and printed this text.
    Output(String),
}

/// The abstract state of an execution.
pub struct ExecState {
    pub commands: Seq<(Seq<char>, Seq<char>)>,
    pub single: bool,
    pub user: Seq<char>,
    pub stage: Stage,
    pub outputs: Seq<Seq<char>>,
    pub fault: Option<ExecError>,
    pub slot_held: bool,
    pub agent_held: bool,
    /// How many commands have been started.
    pub started: nat,
}

/// A fresh execution of the given commands.
pub open spec fn initial(commands: Seq<(Seq<char>, Seq<char>)>, single: bool, user: Seq<char>) -> ExecState {
    ExecState {
        commands,
        single,
        user,
        stage: Stage::Start,
        outputs: seq![],
        fault: None,
        slot_held: false,
        agent_held: false,
        started: 0,
    }
}

/// An execution refused before it started: it holds nothing and is done.
pub open spec fn refused() -> ExecState {
    ExecState {
        commands: seq![],
        single: false,
        user: seq![],
        stage: Stage::Finished,
        outputs: seq![],
        fault: Some(ExecError::Unsupported),
        slot_held: false,
        agent_held: false,
        started: 0,
    }
}

/// The commands a module's content runs and whether its output is single.
pub open spec fn plan_of(c: ContentView) -> Option<(Seq<(Seq<char>, Seq<char>)>, bool)> {
    match c {
        ContentView::Shell(t) => Some((t, false)),
        ContentView::Python(s) => Some((seq![(seq![], python_invocation(s))], true)),
        ContentView::Binary(_) => None,
    }
}

/// The state in which an execution of a module with these credentials starts.
pub open spec fn start_of(c: ContentView, a: AuthType) -> ExecState {
    match (plan_of(c), a) {
        (Some(p), AuthType::AgentFirst(u)) => initial(p.0, p.1, u@),
        _ => refused(),
    }
}

/// Releases the slot and waits for that to be done.
pub open spec fn closing(s: ExecState, fault: Option<ExecError>) -> ExecState {
    ExecState { stage: Stage::AwaitRelease, slot_held: false, fault, ..s }
}

/// One transition: the state after the event and the action it asks for.
pub open spec fn step(s: ExecState, e: Event) -> (ExecState, Action) {
    match s.stage {
        Stage::Start => (ExecState { stage: Stage::AwaitSlot, slot_held: true, ..s }, Action::AcquireSlot),
        Stage::AwaitSlot => (ExecState { stage: Stage::AwaitConnect, ..s }, Action::Connect),
        Stage::AwaitConnect => if e is Completed {
            (ExecState { stage: Stage::AwaitHandshake, ..s }, Action::Handshake)
        } else {
            (closing(s, Some(ExecError::Connection)), Action::ReleaseSlot)
        },
        Stage::AwaitHandshake => if e is Completed {
            (ExecState { stage: Stage::AwaitAgent, agent_held: true, ..s }, Action::AcquireAgent)
        } else {
            (closing(s, Some(ExecError::Handshake)), Action::ReleaseSlot)
        },
        Stage::AwaitAgent => (ExecState { stage: Stage::AwaitAuth, ..s }, Action::Authenticate),
        Stage::AwaitAuth => (
            ExecState {
                stage: Stage::AwaitAgentRelease,
                agent_held: false,
                fault: if e is Completed { s.fault } else { Some(ExecError::Authentication) },
                ..s
            },
            Action::ReleaseAgent,
        ),
        Stage::AwaitAgentRelease => if s.fault is Some || s.commands.len() == 0 {
            (closing(s, s.fault), Action::ReleaseSlot)
        } else {
            (ExecState { stage: Stage::AwaitCommand(0), started: 1, ..s }, Action::Run(0))
        },
        Stage::AwaitCommand(i) => match e {
            Event::Output(o) => {
                let t = ExecState { outputs: s.outputs.push(o@), ..s };
                if i + 1 < s.commands.len() {
                    (
                        ExecState { stage: Stage::AwaitCommand((i + 1) as usize), started: s.started + 1, ..t },
                        Action::Run((i + 1) as usize),
                    )
                } else {
                    (closing(t, t.fault), Action::ReleaseSlot)
                }
            },
            _ => (closing(s, Some(ExecError::CommandFailed(i))), Action::ReleaseSlot),
        },
        Stage::AwaitRelease => (ExecState { stage: Stage::Finished, ..s }, Action::Done),
        Stage::Finished => (s, Action::Done),
    }
}

/// The consistency of an execution's state.
pub open spec fn inv(s: ExecState) -> bool {
    &&& s.commands.len() <= usize::MAX
    &&& s.started <= s.commands.len()
    &&& s.outputs.len() <= s.started
    &&& s.single ==> s.commands.len() == 1
    &&& (s.slot_held <==> match s.stage {
        Stage::Start | Stage::AwaitRelease | Stage::Finished => false,
        _ => true,
    })
    &&& (s.agent_held <==> (s.stage == Stage::AwaitAgent || s.stage == Stage::AwaitAuth))
    &&& match s.stage {
        Stage::Start | Stage::AwaitSlot | Stage::AwaitConnect | Stage::AwaitHandshake
        | Stage::AwaitAgent | Stage::AwaitAuth => s.fault is None && s.started == 0,
        Stage::AwaitAgentRelease => s.started == 0 && (s.fault is None || s.fault == Some(
            ExecError::Authentication,
        )),
        Stage::AwaitCommand(i) => i < s.commands.len() && s.outputs.len() == i && s.started == i
            + 1 && s.fault is None,
        Stage::AwaitRelease | Stage::Finished => s.fault is None ==> s.outputs.len()
            == s.commands.len(),
    }
}

/// What a finished execution returns.
pub open spec fn outcome_of(s: ExecState) -> Result<OutputView, ExecError> {
    match s.fault {
        Some(e) => Err(e),
        None => if s.single {
            Ok(OutputView::Single(s.outputs[0]))
        } else {
            Ok(
                OutputView::Multi(
                    Seq::new(s.outputs.len(), |i: int| (s.commands[i].0, s.outputs[i])),
                ),
            )
        },
    }
}

proof fn lemma_step_inv(s: ExecState, e: Event)
    requires
        inv(s),
    ensures
        inv(step(s, e).0),
        step(s, e).0.commands == s.commands,
        step(s, e).0.single == s.single,
        step(s, e).0.user == s.user,
{
    let t = step(s, e).0;
    match s.stage {
        Stage::AwaitCommand(i) => {
            match e {
                Event::Output(o) => {
                    assert(t.outputs.len() == i + 1);
                    if i + 1 < s.commands.len() {
                        assert(t.stage == Stage::AwaitCommand((i + 1) as usize));
                    } else {
                        assert(t.stage == Stage::AwaitRelease);
                        assert(t.outputs.len() == t.commands.len());
                    }
                },
                _ => {},
            }
        },
        _ => {},
    }
}

impl Module {
    /// Starts an execution of this module with the credentials `auth`.
    pub fn execute(&self, auth: &AuthType) -> (r: Execution)
        ensures
            r@ == start_of(self@, *auth),
            inv(r@),
    {
        Execution::start(self, auth)
    }
}

/// A running execution.
pub struct Execution {
    commands: Vec<(String, String)>,
    single: bool,
    user: String,
    stage: Stage,
    outputs: Vec<String>,
    fault: Option<ExecError>,
    slot_held: bool,
    agent_held: bool,
    started: usize,
    module: String,
    target: String,
}

pub open spec fn strings_view(v: Seq<String>) -> Seq<Seq<char>> {
    v.map_values(|s: String| s@)
}

impl Execution {
    pub closed spec fn view(&self) -> ExecState {
        ExecState {
            commands: pairs_view(self.commands@),
            single: self.single,
            user: self.user@,
            stage: self.stage,
            outputs: strings_view(self.outputs@),
            fault: self.fault,
            slot_held: self.slot_held,
            agent_held: self.agent_held,
            started: self.started as nat,
        }
    }

    /// The name of the module being run, for error reports.
    pub closed spec fn module_label(&self) -> Seq<char> {
        self.module@
    }

    /// The target it runs against, for error reports.
    pub closed spec fn target_label(&self) -> Seq<char> {
        self.target@
    }

    /// Records which module runs against which target, for error reports.
    pub fn set_context(&mut self, module: &str, target: &str)
        ensures
            final(self)@ == old(self)@,
            final(self).module_label() == module@,
            final(self).target_label() == target@,
    {
        self.module = module.to_owned();
        self.target = target.to_owned();
    }

    fn refuse() -> (r: Execution)
        ensures
            r@ == refused(),
    {
        let r = Execution {
            commands: Vec::new(),
            single: false,
            user: String::new(),
            stage: Stage::Finished,
            outputs: Vec::new(),
            fault: Some(ExecError::Unsupported),
            slot_held: false,
            agent_held: false,
            started: 0,
            module: String::new(),
            target: String::new(),
        };
        assert(r@.commands =~= seq![]);
        assert(r@.outputs =~= seq![]);
        r
    }

    /// Starts an execution of `module` with the credentials `auth`. A binary
    /// module, or a named key, gives an execution that is refused at once.
    pub fn start(module: &Module, auth: &AuthType) -> (r: Execution)
        ensures
            r@ == start_of(module@, *auth),
            inv(r@),
    {
        let user = match auth.auth() {
            Ok(u) => u,
            Err(_) => return Execution::refuse(),
        };
        let mut commands: Vec<(String, String)> = Vec::new();
        let single = match &module.content {
            ModuleContent::Shell(t) => {
                let mut i: usize = 0;
                while i < t.len()
                    invariant
                        i <= t.len(),
                        pairs_view(commands@) =~= pairs_view(t@.subrange(0, i as int)),
                    decreases t.len() - i,
                {
                    commands.push((t[i].0.clone(), t[i].1.clone()));
                    assert(pairs_view(t@.subrange(0, i + 1)) =~= pairs_view(t@.subrange(0, i as int)).push((t@[i as int].0@, t@[i as int].1@)));
                    i = i + 1;
                }
                assert(t@.subrange(0, t.len() as int) =~= t@);
                false
            },
            ModuleContent::Python(s) => {
                commands.push((String::new(), python_command(s.as_str())));
                assert(pairs_view(commands@) =~= seq![(seq![], python_invocation(s@))]);
                true
            },
            ModuleContent::Binary(_) => return Execution::refuse(),
        };
        let r = Execution {
            commands,
            single,
            user,
            stage: Stage::Start,
            outputs: Vec::new(),
            fault: None,
            slot_held: false,
            agent_held: false,
            started: 0,
            module: String::new(),
            target: String::new(),
        };
        assert(r@.outputs =~= seq![]);
        r
    }

    /// The user name to authenticate as.
    pub fn user(&self) -> (r: &String)
        ensures
            r@ == self@.user,
    {
        &self.user
    }

    /// The text of the command at position `i`.
    pub fn command(&self, i: usize) -> (r: &String)
        requires
            i < self@.commands.len(),
        ensures
            r@ == self@.commands[i as int].1,
    {
        &self.commands[i].1
    }

    /// The name of the command at position `i`.
    pub fn command_name(&self, i: usize) -> (r: &String)
        requires
            i < self@.commands.len(),
        ensures
            r@ == self@.commands[i as int].0,
    {
        &self.commands[i].0
    }

    pub fn is_finished(&self) -> (r: bool)
        ensures
            r == (self@.stage == Stage::Finished),
    {
        matches!(self.stage, Stage::Finished)
    }

    fn close(&mut self, fault: Option<ExecError>)
        requires
            old(self)@.slot_held,
        ensures
            final(self)@ == closing(old(self)@, fault),
    {
        self.stage = Stage::AwaitRelease;
        self.slot_held = false;
        self.fault = fault;
    }

    /// Reports the outcome of the previous action and returns the next one.
    pub fn next(&mut self, event: Event) -> (r: Action)
        requires
            inv(old(self)@),
        ensures
            (final(self)@, r) == step(old(self)@, event),
            inv(final(self)@),
    {
        proof {
            lemma_step_inv(self@, event);
        }
        match self.stage {
            Stage::Start => {
                self.stage = Stage::AwaitSlot;
                self.slot_held = true;
                Action::AcquireSlot
            },
            Stage::AwaitSlot => {
                self.stage = Stage::AwaitConnect;
                Action::Connect
            },
            Stage::AwaitConnect => {
                if matches!(event, Event::Completed) {
                    self.stage = Stage::AwaitHandshake;
                    Action::Handshake
                } else {
                    self.close(Some(ExecError::Connection));
                    Action::ReleaseSlot
                }
            },
            Stage::AwaitHandshake => {
                if matches!(event, Event::Completed) {
                    self.stage = Stage::AwaitAgent;
                    self.agent_held = true;
                    Action::AcquireAgent
                } else {
                    self.close(Some(ExecError::Handshake));
                    Action::ReleaseSlot
                }
            },
            Stage::AwaitAgent => {
                self.stage = Stage::AwaitAuth;
                Action::Authenticate
            },
            Stage::AwaitAuth => {
                self.stage = Stage::AwaitAgentRelease;
                self.agent_held = false;
                if !matches!(event, Event::Completed) {
                    self.fault = Some(ExecError::Authentication);
                }
                Action::ReleaseAgent
            },
            Stage::AwaitAgentRelease => {
                if self.fault.is_some() || self.commands.len() == 0 {
                    let f = self.fault;
                    self.close(f);
                    Action::ReleaseSlot
                } else {
                    self.stage = Stage::AwaitCommand(0);
                    self.started = 1;
                    Action::Run(0)
                }
            },
            Stage::AwaitCommand(i) => {
                match event {
                    Event::Output(o) => {
                        self.outputs.push(o);
                        proof {
                            assert(strings_view(self.outputs@) =~= strings_view(old(self).outputs@).push(o@));
                        }
                        if i + 1 < self.commands.len() {
                            self.stage = Stage::AwaitCommand(i + 1);
                            self.started = self.started + 1;
                            Action::Run(i + 1)
                        } else {
                            let f = self.fault;
                            self.close(f);
                            Action::ReleaseSlot
                        }
                    },
                    _ => {
                        self.close(Some(ExecError::CommandFailed(i)));
                        Action::ReleaseSlot
                    },
                }
            },
            Stage::AwaitRelease => {
                self.stage = Stage::Finished;
                Action::Done
            },
            Stage::Finished => Action::Done,
        }
    }

    /// The result of a finished execution; a failure names the module, the
    /// target and the phase.
    pub fn outcome(&self) -> (r: Result<CommandOutput, Failure>)
        requires
            inv(self@),
            self@.stage == Stage::Finished,
        ensures
            match r {
                Ok(o) => outcome_of(self@) == Ok::<OutputView, ExecError>(o@),
                Err(f) => outcome_of(self@) == Err::<OutputView, ExecError>(f.phase)
                    && f.module@ == self.module_label() && f.target@ == self.target_label(),
            },
    {
        if let Some(e) = self.fault {
            return Err(Failure { module: self.module.clone(), target: self.target.clone(), phase: e });
        }
        if self.single {
            return Ok(CommandOutput::Single(self.outputs[0].clone()));
        }
        let mut m: Vec<(String, String)> = Vec::new();
        let mut i: usize = 0;
        while i < self.outputs.len()
            invariant
                inv(self@),
                self@.fault is None,
                i <= self.outputs.len(),
                pairs_view(m@) =~= Seq::new(i as nat, |j: int| (self@.commands[j].0, self@.outputs[j])),
            decreases self.outputs.len() - i,
        {
            let ghost pre = pairs_view(m@);
            m.push((self.commands[i].0.clone(), self.outputs[i].clone()));
            assert(pairs_view(m@) =~= pre.push((self@.commands[i as int].0, self@.outputs[i as int])));
            i = i + 1;
        }
        Ok(CommandOutput::Multi(m))
    }
}

} // verus!
