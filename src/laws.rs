//! What holds of every run of an execution and of every registry build.

use vstd::prelude::*;
use crate::module::{ContentView, ModuleFault};
use crate::registry::{find, map_of, registered, rejected};
use crate::session::{initial, inv, outcome_of, start_of, step, Action, AuthType, Event, ExecState, OutputView, Stage};

verus! {

/// The state after a sequence of events, with the actions asked for on the way.
pub open spec fn run(s: ExecState, events: Seq<Event>) -> (ExecState, Seq<Action>)
    decreases events.len(),
{
    if events.len() == 0 {
        (s, seq![])
    } else {
        let (t, acts) = run(s, events.drop_last());
        let (u, a) = step(t, events.last());
        (u, acts.push(a))
    }
}

/// How often an action occurs.
pub open spec fn count(acts: Seq<Action>, a: Action) -> nat
    decreases acts.len(),
{
    if acts.len() == 0 {
        0
    } else {
        count(acts.drop_last(), a) + if acts.last() == a {
            1nat
        } else {
            0nat
        }
    }
}

/// The positions of the commands that were started, in order.
pub open spec fn runs(acts: Seq<Action>) -> Seq<usize>
    decreases acts.len(),
{
    if acts.len() == 0 {
        seq![]
    } else {
        let r = runs(acts.drop_last());
        match acts.last() {
            Action::Run(i) => r.push(i),
            _ => r,
        }
    }
}

proof fn lemma_run(s0: ExecState, events: Seq<Event>)
    requires
        inv(s0),
        !s0.slot_held,
        !s0.agent_held,
        s0.stage == Stage::Start || s0.stage == Stage::Finished,
        s0.started == 0,
    ensures
        ({
            let (s, acts) = run(s0, events);
            &&& inv(s)
            &&& s0.stage == Stage::Finished ==> s == s0
            &&& s.commands == s0.commands
            &&& s.single == s0.single
            &&& acts.len() == events.len()
            &&& count(acts, Action::AcquireSlot) + (if s.stage == Stage::Start { 1nat } else { 0nat })
                == (if s0.stage == Stage::Start { 1nat } else { 0nat })
            &&& count(acts, Action::AcquireSlot) == count(acts, Action::ReleaseSlot) + (if s.slot_held { 1nat } else { 0nat })
            &&& count(acts, Action::AcquireAgent) == count(acts, Action::ReleaseAgent) + (if s.agent_held { 1nat } else { 0nat })
            &&& runs(acts) =~= Seq::new(s.started, |i: int| i as usize)
            &&& forall|p: int|
                0 <= p < acts.len() && (#[trigger] acts[p]) is Run && acts[p]->Run_0 > 0
                    ==> events[p] is Output
        }),
    decreases events.len(),
{
    if events.len() > 0 {
        let prev = events.drop_last();
        lemma_run(s0, prev);
        let (t, acts) = run(s0, prev);
        let (u, a) = step(t, events.last());
        let all = acts.push(a);
        assert(all.drop_last() =~= acts);
        assert(forall|p: int| 0 <= p < acts.len() ==> all[p] == acts[p]);
        assert(forall|p: int| 0 <= p < prev.len() ==> events[p] == prev[p]);
        match t.stage {
            Stage::AwaitCommand(i) => {
                if let Event::Output(_) = events.last() {
                    if i + 1 < t.commands.len() {
                        assert(runs(all) =~= runs(acts).push((i + 1) as usize));
                    }
                }
            },
            Stage::AwaitAgentRelease => {
                assert(runs(all) =~= runs(acts).push(a->Run_0) || runs(all) == runs(acts));
            },
            _ => {},
        }
        assert(runs(all) =~= Seq::new(u.started, |i: int| i as usize));
    }
}

/// Whatever the outcomes reported, an execution gives the connection slot
/// back as often as it took it, takes it once at most, and treats the identity
/// agent likewise; once it has finished it holds neither.
pub proof fn lemma_resources_balanced(c: ContentView, a: AuthType, events: Seq<Event>)
    requires
        inv(start_of(c, a)),
    ensures
        ({
            let (s, acts) = run(start_of(c, a), events);
            &&& count(acts, Action::AcquireSlot) <= 1
            &&& count(acts, Action::AcquireSlot) == count(acts, Action::ReleaseSlot) + (if s.slot_held { 1nat } else { 0nat })
            &&& count(acts, Action::AcquireAgent) == count(acts, Action::ReleaseAgent) + (if s.agent_held { 1nat } else { 0nat })
            &&& s.stage == Stage::Finished ==> !s.slot_held && !s.agent_held
                && count(acts, Action::AcquireSlot) == count(acts, Action::ReleaseSlot)
                && count(acts, Action::AcquireAgent) == count(acts, Action::ReleaseAgent)
        }),
{
    lemma_run(start_of(c, a), events);
}

/// An execution of a command module that finished without a fault answers
/// with one entry per declared command, under the command's name, in declared
/// order.
pub proof fn lemma_finished_run_answers_every_command(
    commands: Seq<(Seq<char>, Seq<char>)>,
    a: AuthType,
    events: Seq<Event>,
)
    requires
        commands.len() <= usize::MAX,
    ensures
        ({
            let (s, _) = run(start_of(ContentView::Shell(commands), a), events);
            s.stage == Stage::Finished && s.fault is None ==> match outcome_of(s) {
                Ok(OutputView::Multi(m)) => m.len() == commands.len() && forall|i: int|
                    0 <= i < m.len() ==> (#[trigger] m[i]).0 == commands[i].0,
                _ => false,
            }
        }),
{
    let s0 = start_of(ContentView::Shell(commands), a);
    assert(inv(s0));
    lemma_run(s0, events);
}

/// The events of an execution of `n` commands in which every action
/// succeeds: seven acknowledgements up to the first command, one output per
/// command, and the acknowledgement of the slot's release.
pub open spec fn all_succeed(events: Seq<Event>, n: nat) -> bool {
    &&& events.len() == n + 8
    &&& forall|i: int| 0 <= i < 7 ==> (#[trigger] events[i]) is Completed
    &&& events[n + 7int] is Completed
    &&& forall|j: int| 0 <= j < n ==> (#[trigger] events[7 + j as int]) is Output
}

/// The texts reported by the first `j` commands.
pub open spec fn reported(events: Seq<Event>, j: nat) -> Seq<Seq<char>> {
    Seq::new(j, |i: int| events[7 + i]->Output_0@)
}

/// Where an execution of `n` commands stands after `k` events of a run in
/// which every action succeeds.
pub open spec fn success_stage(k: nat, n: nat) -> Stage {
    if k == 0 {
        Stage::Start
    } else if k == 1 {
        Stage::AwaitSlot
    } else if k == 2 {
        Stage::AwaitConnect
    } else if k == 3 {
        Stage::AwaitHandshake
    } else if k == 4 {
        Stage::AwaitAgent
    } else if k == 5 {
        Stage::AwaitAuth
    } else if k == 6 {
        Stage::AwaitAgentRelease
    } else if k < n + 7 {
        Stage::AwaitCommand((k - 7) as usize)
    } else if k == n + 7 {
        Stage::AwaitRelease
    } else {
        Stage::Finished
    }
}

proof fn lemma_success_prefix(commands: Seq<(Seq<char>, Seq<char>)>, user: Seq<char>, events: Seq<Event>, k: nat)
    requires
        commands.len() <= usize::MAX,
        all_succeed(events, commands.len()),
        k <= events.len(),
    ensures
        ({
            let s = run(initial(commands, false, user), events.take(k as int)).0;
            &&& s.stage == success_stage(k, commands.len())
            &&& s.fault is None
            &&& s.commands == commands
            &&& s.outputs == reported(events, if k <= 7 { 0 } else if k <= commands.len() + 7 { (k - 7) as nat } else { commands.len() })
        }),
    decreases k,
{
    let n = commands.len();
    let s0 = initial(commands, false, user);
    if k == 0 {
        assert(reported(events, 0) =~= seq![]);
    } else {
        lemma_success_prefix(commands, user, events, (k - 1) as nat);
        lemma_run(s0, events.take(k - 1));
        assert(events.take(k as int).drop_last() =~= events.take(k - 1));
        assert(events.take(k as int).last() == events[k - 1]);
        let t = run(s0, events.take(k - 1)).0;
        if k == 7 {
            assert(reported(events, 0) =~= seq![]);
        }
        if 7 < k && k <= n + 7 {
            let j = (k - 8) as nat;
            assert(events[7 + j as int] is Output);
            assert(reported(events, j + 1nat) =~= reported(events, j).push(events[7 + j as int]->Output_0@));
        }
    }
}

/// A command module run in which every action succeeds finishes with one
/// entry per declared command, in declared order, each holding the command's
/// name and the text reported for it.
pub proof fn lemma_successful_run_answers_every_command(
    commands: Seq<(Seq<char>, Seq<char>)>,
    a: AuthType,
    events: Seq<Event>,
)
    requires
        commands.len() <= usize::MAX,
        a is AgentFirst,
        all_succeed(events, commands.len()),
    ensures
        ({
            let s = run(start_of(ContentView::Shell(commands), a), events).0;
            &&& s.stage == Stage::Finished
            &&& outcome_of(s) == Ok::<OutputView, crate::session::ExecError>(OutputView::Multi(
                Seq::new(commands.len(), |i: int| (commands[i].0, events[7 + i]->Output_0@)),
            ))
        }),
{
    let user = a->AgentFirst_0@;
    assert(start_of(ContentView::Shell(commands), a) == initial(commands, false, user));
    lemma_success_prefix(commands, user, events, events.len());
    assert(events.take(events.len() as int) =~= events);
    lemma_run(initial(commands, false, user), events);
    let s = run(initial(commands, false, user), events).0;
    assert(s.outputs == reported(events, commands.len()));
    assert(s.single == false);
    assert(Seq::new(s.outputs.len(), |i: int| (s.commands[i].0, s.outputs[i])) =~= Seq::new(
        commands.len(),
        |i: int| (commands[i].0, events[7 + i]->Output_0@),
    ));
}

/// Commands are started one at a time in declared order, and each one after
/// the first only once the one before it has reported its output.
pub proof fn lemma_commands_run_in_order(c: ContentView, a: AuthType, events: Seq<Event>)
    requires
        inv(start_of(c, a)),
    ensures
        ({
            let (s, acts) = run(start_of(c, a), events);
            &&& runs(acts) == Seq::new(s.started, |i: int| i as usize)
            &&& s.started <= s.commands.len()
            &&& forall|p: int|
                0 <= p < acts.len() && (#[trigger] acts[p]) is Run && acts[p]->Run_0 > 0
                    ==> events[p] is Output
        }),
{
    lemma_run(start_of(c, a), events);
}

/// The module that loaded last under `k`, if any.
pub open spec fn last_loaded(e: Seq<(Seq<char>, Result<ContentView, ModuleFault>)>, k: Seq<char>) -> Option<ContentView>
    decreases e.len(),
{
    if e.len() == 0 {
        None
    } else if e.last().0 == k && e.last().1 is Ok {
        Some(e.last().1->Ok_0)
    } else {
        last_loaded(e.drop_last(), k)
    }
}

proof fn lemma_find_registered(e: Seq<(Seq<char>, Result<ContentView, ModuleFault>)>, k: Seq<char>)
    ensures
        find(registered(e), k) == last_loaded(e, k),
    decreases e.len(),
{
    if e.len() > 0 {
        lemma_find_registered(e.drop_last(), k);
        let r = registered(e.drop_last());
        if e.last().1 is Ok {
            assert(r.push((e.last().0, e.last().1->Ok_0)).drop_last() =~= r);
        }
    }
}

proof fn lemma_last_loaded_absent(e: Seq<(Seq<char>, Result<ContentView, ModuleFault>)>, k: Seq<char>)
    requires
        forall|j: int| 0 <= j < e.len() && (#[trigger] e[j]).0 == k ==> e[j].1 is Err,
    ensures
        last_loaded(e, k) is None,
    decreases e.len(),
{
    if e.len() > 0 {
        assert(forall|j: int| 0 <= j < e.len() - 1 ==> e.drop_last()[j] == e[j]);
        lemma_last_loaded_absent(e.drop_last(), k);
    }
}

proof fn lemma_last_loaded_present(e: Seq<(Seq<char>, Result<ContentView, ModuleFault>)>, j: int)
    requires
        0 <= j < e.len(),
        e[j].1 is Ok,
        forall|l: int| j < l < e.len() ==> (#[trigger] e[l]).0 != e[j].0,
    ensures
        last_loaded(e, e[j].0) == Some(e[j].1->Ok_0),
    decreases e.len(),
{
    if j < e.len() - 1 {
        assert(forall|l: int| 0 <= l < e.len() - 1 ==> e.drop_last()[l] == e[l]);
        lemma_last_loaded_present(e.drop_last(), j);
    }
}

proof fn lemma_rejected_holds(e: Seq<(Seq<char>, Result<ContentView, ModuleFault>)>, i: int)
    requires
        0 <= i < e.len(),
        e[i].1 is Err,
    ensures
        rejected(e).contains((e[i].0, e[i].1->Err_0)),
    decreases e.len(),
{
    let r = rejected(e.drop_last());
    if i == e.len() - 1 {
        assert(rejected(e) == r.push((e[i].0, e[i].1->Err_0)));
        assert(rejected(e)[r.len() as int] == (e[i].0, e[i].1->Err_0));
    } else {
        assert(e.drop_last()[i] == e[i]);
        lemma_rejected_holds(e.drop_last(), i);
        let w = choose|w: int| 0 <= w < r.len() && r[w] == (e[i].0, e[i].1->Err_0);
        if e.last().1 is Err {
            assert(rejected(e)[w] == r[w]);
        }
    }
}

/// A module file that fails to load does not stop the build: it is reported
/// with its fault, it is left out of the registry (where no other file has its
/// key), and every file that loaded is registered (where no later file has its
/// key).
pub proof fn lemma_faulty_file_excluded(e: Seq<(Seq<char>, Result<ContentView, ModuleFault>)>, i: int)
    requires
        0 <= i < e.len(),
        e[i].1 is Err,
        forall|j: int| 0 <= j < e.len() && j != i ==> (#[trigger] e[j]).0 != e[i].0,
    ensures
        rejected(e).contains((e[i].0, e[i].1->Err_0)),
        !map_of(registered(e)).contains_key(e[i].0),
        forall|j: int|
            0 <= j < e.len() && (#[trigger] e[j]).1 is Ok && (forall|l: int|
                j < l < e.len() ==> (#[trigger] e[l]).0 != e[j].0) ==> map_of(
                registered(e),
            ).contains_key(e[j].0) && map_of(registered(e))[e[j].0] == e[j].1->Ok_0,
{
    lemma_rejected_holds(e, i);
    lemma_find_registered(e, e[i].0);
    lemma_last_loaded_absent(e, e[i].0);
    assert forall|j: int|
        0 <= j < e.len() && (#[trigger] e[j]).1 is Ok && (forall|l: int|
            j < l < e.len() ==> (#[trigger] e[l]).0 != e[j].0) implies map_of(
        registered(e),
    ).contains_key(e[j].0) && map_of(registered(e))[e[j].0] == e[j].1->Ok_0 by {
        lemma_find_registered(e, e[j].0);
        lemma_last_loaded_present(e, j);
    }
}

} // verus!
