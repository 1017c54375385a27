//! The execution engine: resolve a target by name and drive its command
//! sequence with fail-fast semantics.
//!
//! Spawning a host process is the caller's business.  The engine is a step
//! machine: [`run_start`] and [`run_resume`] decide, from the target and the
//! outcome of each spawn, whether the run has succeeded, has failed, or
//! which command to spawn next.  [`run_recorded`] drives the machine over a
//! recorded sequence of outcomes and is proved to follow the specification
//! model [`run_model`] / [`run_trace`] exactly.

use vstd::prelude::*;

use crate::config::Configuration;
use crate::config::ConfigurationView;
use crate::config::Target;

verus! {

/// Every way a target lookup or a target run can fail.  Each variant carries
/// the name or command string it concerns, so the caller can render a precise
/// diagnostic.
#[derive(Debug)]
pub enum ExecutionFailure {
    /// The requested target name is not declared in the configuration.
    UnknownTarget(String),
    /// The target declares no commands at all.
    EmptyCommandList,
    /// A command string has no whitespace-delimited token: nothing to spawn.
    MalformedCommand(String),
    /// Spawning the command failed; carries the command string and the
    /// underlying error message.
    SpawnFailure(String, String),
    /// The command ran but exited non-zero, or was ended by a signal (then
    /// the exit code is absent).
    CommandFailed(String, Option<i32>),
}

/// Whether the configuration binds `name` to some target.
pub open spec fn has_target(c: ConfigurationView, name: Seq<char>) -> bool {
    exists|i: int| 0 <= i < c.targets.len() && c.targets[i].0 == name
}

impl Configuration {
    /// Looks `name` up among the declared targets; exact string match only.
    pub fn resolve<'a>(&'a self, name: &String) -> (r: Result<&'a Target, ExecutionFailure>)
        ensures
            has_target(self@, name@) <==> r is Ok,
            r matches Ok(t) ==> exists|i: int|
                0 <= i < self@.targets.len() && self@.targets[i].0 == name@ && t@
                    == self@.targets[i].1,
            r matches Err(f) ==> f matches ExecutionFailure::UnknownTarget(n) && n@ == name@,
    {
        let n = self.target.len();
        for i in 0..n
            invariant
                n == self.target@.len(),
                forall|j: int| 0 <= j < i ==> self@.targets[j].0 != name@,
        {
            assert(self@.targets[i as int] == (
                self.target@[i as int].0@,
                self.target@[i as int].1@,
            ));
            if self.target[i].0 == *name {
                assert(self@.targets[i as int].0 == name@);
                assert(has_target(self@, name@));
                return Ok(&self.target[i].1);
            }
        }
        Err(ExecutionFailure::UnknownTarget(name.clone()))
    }
}

/// Zero targets resolve nothing: a configuration that declares no targets
/// binds no name, so any lookup is an unknown target.
pub proof fn lemma_resolve_zero_targets(c: ConfigurationView, name: Seq<char>)
    ensures
        c.targets.len() == 0 ==> !has_target(c, name),
{
}

/// The whitespace-delimited tokens of one command string.
pub uninterp spec fn command_tokens(s: Seq<char>) -> Seq<Seq<char>>;

/// Relies on `str::split_whitespace`: the pieces of `s` separated by Unicode
/// whitespace, in order; the result depends on the characters of `s` alone.
#[verifier::external_body]
fn split_command(s: &str) -> (r: Vec<String>)
    ensures
        r@.map_values(|t: String| t@) == command_tokens(s@),
{
    s.split_whitespace().map(|part| part.to_owned()).collect()
}

/// The outcome of one attempted command spawn, as the caller reports it
/// back: the spawn itself failed with a message, or the child exited with a
/// code (absent when a signal ended it).
#[derive(Debug)]
pub enum CommandOutcome {
    SpawnError(String),
    Exited(Option<i32>),
}

/// What the engine asks for next: spawn the command at `index`, split into
/// a program and its arguments; or the run is over.
#[derive(Debug)]
pub enum RunStep {
    Spawn { index: usize, program: String, args: Vec<String> },
    Succeeded,
    Failed(ExecutionFailure),
}

/// What the engine's next step must be when commands `0 .. i` have all
/// succeeded: success past the end, a malformed-command failure where the
/// command has no token, and otherwise a spawn of exactly the tokens of
/// command `i`.
pub open spec fn step_matches(r: RunStep, cmds: Seq<Seq<char>>, i: int) -> bool {
    if i >= cmds.len() {
        r is Succeeded
    } else if command_tokens(cmds[i]).len() == 0 {
        r matches RunStep::Failed(f) && f matches ExecutionFailure::MalformedCommand(c) && c@
            == cmds[i]
    } else {
        r matches RunStep::Spawn { index, program, args } && index == i && command_tokens(cmds[i])
            == seq![program@] + args@.map_values(|a: String| a@)
    }
}

/// The step the engine takes on reaching command `index`, before any outcome
/// of it is known.
fn step_for(target: &Target, index: usize) -> (r: RunStep)
    requires
        index <= target@.command.len(),
    ensures
        step_matches(r, target@.command, index as int),
{
    if index == target.command.len() {
        RunStep::Succeeded
    } else {
        assert(target@.command[index as int] == target.command@[index as int]@);
        let mut parts = split_command(target.command[index].as_str());
        let ghost before = parts@;
        if parts.len() == 0 {
            assert(before.map_values(|t: String| t@).len() == 0);
            RunStep::Failed(ExecutionFailure::MalformedCommand(target.command[index].clone()))
        } else {
            let program = parts.remove(0);
            proof {
                let tokens = command_tokens(target@.command[index as int]);
                assert(before.map_values(|t: String| t@) == tokens);
                assert forall|k: int| 0 <= k < tokens.len() implies tokens[k] == (seq![program@]
                    + parts@.map_values(|t: String| t@))[k] by {
                    assert(before.map_values(|t: String| t@)[k] == before[k]@);
                    if k > 0 {
                        assert(parts@[k - 1] == before[k]);
                        assert(parts@.map_values(|t: String| t@)[k - 1] == parts@[k - 1]@);
                    }
                }
                assert(tokens =~= seq![program@] + parts@.map_values(|t: String| t@));
            }
            RunStep::Spawn { index, program, args: parts }
        }
    }
}

/// Begins a run of `target`: fails at once when the command list is empty —
/// nothing is spawned then — and otherwise hands back the step for the first
/// command.
pub fn run_start(target: &Target) -> (r: RunStep)
    ensures
        target@.command.len() == 0 ==> (r matches RunStep::Failed(f)
            && f is EmptyCommandList),
        target@.command.len() > 0 ==> step_matches(r, target@.command, 0),
{
    if target.command.len() == 0 {
        RunStep::Failed(ExecutionFailure::EmptyCommandList)
    } else {
        step_for(target, 0)
    }
}

/// Consumes the outcome of the spawn of command `index`: a spawn error or a
/// non-zero (or absent) exit code fails the run identifying that command —
/// no later command is reached — and a zero exit moves on to the step for
/// the next command.
pub fn run_resume(target: &Target, index: usize, outcome: &CommandOutcome) -> (r: RunStep)
    requires
        index < target@.command.len(),
    ensures
        match *outcome {
            CommandOutcome::SpawnError(m) => r matches RunStep::Failed(f) && f
                matches ExecutionFailure::SpawnFailure(c, e)
                && c@ == target@.command[index as int] && e@ == m@,
            CommandOutcome::Exited(code) => if code == Some(0i32) {
                step_matches(r, target@.command, index as int + 1)
            } else {
                r matches RunStep::Failed(f) && f matches ExecutionFailure::CommandFailed(c, k)
                    && c@ == target@.command[index as int] && k == code
            },
        },
{
    assert(target@.command[index as int] == target.command@[index as int]@);
    match outcome {
        CommandOutcome::SpawnError(m) => RunStep::Failed(
            ExecutionFailure::SpawnFailure(target.command[index].clone(), m.clone()),
        ),
        CommandOutcome::Exited(code) => {
            let zero = match code {
                Some(c) => *c == 0,
                None => false,
            };
            if zero {
                let n = target.command.len();
                assert(index < n);
                step_for(target, index + 1)
            } else {
                RunStep::Failed(
                    ExecutionFailure::CommandFailed(target.command[index].clone(), *code),
                )
            }
        },
    }
}

/// The result of a whole run, abstractly: success, or the position and kind
/// of the failure that halted it.
pub enum ModelResult {
    Success,
    EmptyList,
    Malformed(int),
    SpawnFail(int),
    Failed { at: int, code: Option<i32> },
}

/// The run's result from command `i` on, given the outcome each command
/// would have: fail-fast at the first command that has no token, fails to
/// spawn, or exits non-zero.
pub open spec fn model_from(cmds: Seq<Seq<char>>, outs: Seq<CommandOutcome>, i: int) -> ModelResult
    decreases cmds.len() - i,
{
    if i < 0 || i >= cmds.len() {
        ModelResult::Success
    } else if command_tokens(cmds[i]).len() == 0 {
        ModelResult::Malformed(i)
    } else {
        match outs[i] {
            CommandOutcome::SpawnError(_) => ModelResult::SpawnFail(i),
            CommandOutcome::Exited(code) => if code == Some(0i32) {
                model_from(cmds, outs, i + 1)
            } else {
                ModelResult::Failed { at: i, code }
            },
        }
    }
}

/// The result of running a whole command list: an empty list fails as such,
/// before anything is spawned.
pub open spec fn run_model(cmds: Seq<Seq<char>>, outs: Seq<CommandOutcome>) -> ModelResult {
    if cmds.len() == 0 {
        ModelResult::EmptyList
    } else {
        model_from(cmds, outs, 0)
    }
}

/// The positions of the commands that are spawned from command `i` on, in
/// the order they are spawned.
pub open spec fn trace_from(cmds: Seq<Seq<char>>, outs: Seq<CommandOutcome>, i: int) -> Seq<int>
    decreases cmds.len() - i,
{
    if i < 0 || i >= cmds.len() {
        Seq::empty()
    } else if command_tokens(cmds[i]).len() == 0 {
        Seq::empty()
    } else {
        match outs[i] {
            CommandOutcome::SpawnError(_) => seq![i],
            CommandOutcome::Exited(code) => if code == Some(0i32) {
                seq![i] + trace_from(cmds, outs, i + 1)
            } else {
                seq![i]
            },
        }
    }
}

/// The positions of all the commands a run spawns, in order.
pub open spec fn run_trace(cmds: Seq<Seq<char>>, outs: Seq<CommandOutcome>) -> Seq<int> {
    trace_from(cmds, outs, 0)
}

/// The sequence `0, 1, .., n - 1`.
pub open spec fn index_trace(n: int) -> Seq<int> {
    Seq::new(n as nat, |k: int| k)
}

/// A zero exit: the one outcome that lets the run move on.
pub open spec fn succeeded_outcome(out: CommandOutcome) -> bool {
    out matches CommandOutcome::Exited(code) && code == Some(0i32)
}

/// Commands `0 .. i` all have tokens and all exited zero.
pub open spec fn prefix_ok(cmds: Seq<Seq<char>>, outs: Seq<CommandOutcome>, i: int) -> bool {
    forall|j: int|
        0 <= j < i ==> command_tokens(#[trigger] cmds[j]).len() > 0 && succeeded_outcome(outs[j])
}

/// How an exact run result renders a model result: same success, and each
/// failure kind carrying the command string (and message or exit code) of
/// the position the model names.
pub open spec fn result_matches_model(
    r: Result<(), ExecutionFailure>,
    m: ModelResult,
    cmds: Seq<Seq<char>>,
    outs: Seq<CommandOutcome>,
) -> bool {
    match m {
        ModelResult::Success => r is Ok,
        ModelResult::EmptyList => r matches Err(f) && f is EmptyCommandList,
        ModelResult::Malformed(i) => r matches Err(f) && f
            matches ExecutionFailure::MalformedCommand(c) && c@ == cmds[i],
        ModelResult::SpawnFail(i) => r matches Err(f) && f
            matches ExecutionFailure::SpawnFailure(c, e) && c@ == cmds[i] && (outs[i]
            matches CommandOutcome::SpawnError(m2) && e@ == m2@),
        ModelResult::Failed { at, code } => r matches Err(f) && f
            matches ExecutionFailure::CommandFailed(c, k) && c@ == cmds[at] && k == code,
    }
}

/// Skipping a fully-succeeded prefix changes neither the run's result nor
/// what is spawned after it: the prefix contributes exactly the spawns
/// `0 .. i`, in order.
proof fn lemma_prefix_skip(cmds: Seq<Seq<char>>, outs: Seq<CommandOutcome>, i: int)
    requires
        0 <= i <= cmds.len(),
        prefix_ok(cmds, outs, i),
    ensures
        model_from(cmds, outs, 0) == model_from(cmds, outs, i),
        trace_from(cmds, outs, 0) == index_trace(i) + trace_from(cmds, outs, i),
    decreases i,
{
    if i == 0 {
        assert(index_trace(0) + trace_from(cmds, outs, 0) =~= trace_from(cmds, outs, 0));
    } else {
        lemma_prefix_skip(cmds, outs, i - 1);
        assert(command_tokens(cmds[i - 1]).len() > 0 && succeeded_outcome(outs[i - 1]));
        assert(model_from(cmds, outs, i - 1) == model_from(cmds, outs, i));
        assert(trace_from(cmds, outs, i - 1) == seq![i - 1] + trace_from(cmds, outs, i));
        assert(index_trace(i) =~= index_trace(i - 1) + seq![i - 1]);
        assert(index_trace(i - 1) + (seq![i - 1] + trace_from(cmds, outs, i)) =~= (index_trace(
            i - 1,
        ) + seq![i - 1]) + trace_from(cmds, outs, i));
    }
}

/// An empty command list fails as the empty command list, and no command is
/// ever spawned, whatever the outcomes would have been.
pub proof fn lemma_run_empty_command_list(cmds: Seq<Seq<char>>, outs: Seq<CommandOutcome>)
    ensures
        cmds.len() == 0 ==> (run_model(cmds, outs) == ModelResult::EmptyList && run_trace(
            cmds,
            outs,
        ) == Seq::<int>::empty()),
{
}

/// A run over a non-empty command list in which every command has a token
/// and every outcome is a zero exit succeeds, and every command is spawned
/// exactly once, in declared order.
pub proof fn lemma_run_all_success(cmds: Seq<Seq<char>>, outs: Seq<CommandOutcome>)
    ensures
        (cmds.len() > 0 && prefix_ok(cmds, outs, cmds.len() as int)) ==> (run_model(cmds, outs)
            == ModelResult::Success && run_trace(cmds, outs) == index_trace(cmds.len() as int)),
{
    if cmds.len() > 0 && prefix_ok(cmds, outs, cmds.len() as int) {
        lemma_prefix_skip(cmds, outs, cmds.len() as int);
        assert(index_trace(cmds.len() as int) + trace_from(cmds, outs, cmds.len() as int)
            =~= index_trace(cmds.len() as int));
    }
}

/// Fail-fast: when everything before position `i` succeeded and the command
/// there exits non-zero (or by signal), the run fails identifying exactly
/// that position and exit code, and the commands spawned are exactly
/// `0 ..= i` — nothing after `i` is ever spawned.
pub proof fn lemma_run_fail_fast(cmds: Seq<Seq<char>>, outs: Seq<CommandOutcome>, i: int)
    ensures
        (0 <= i < cmds.len() && prefix_ok(cmds, outs, i) && command_tokens(cmds[i]).len() > 0
            && outs[i] is Exited && outs[i]->Exited_0 != Some(0i32)) ==> (run_model(cmds, outs)
            == (ModelResult::Failed { at: i, code: outs[i]->Exited_0 }) && run_trace(cmds, outs)
            == index_trace(i + 1)),
{
    if 0 <= i < cmds.len() && prefix_ok(cmds, outs, i) && command_tokens(cmds[i]).len() > 0
        && outs[i] is Exited && outs[i]->Exited_0 != Some(0i32) {
        lemma_prefix_skip(cmds, outs, i);
        assert(trace_from(cmds, outs, i) == seq![i]);
        assert(index_trace(i) + seq![i] =~= index_trace(i + 1));
    }
}

/// Runs `target` against a recorded outcome for each command, as a test
/// double for the host's process spawning: the engine's own decisions are
/// exactly those of the specification model.  Returns the run's result and
/// the positions of the commands that were spawned, in order.
pub fn run_recorded(target: &Target, outcomes: &Vec<CommandOutcome>) -> (r: (
    Result<(), ExecutionFailure>,
    Vec<usize>,
))
    requires
        target@.command.len() <= outcomes@.len(),
    ensures
        result_matches_model(r.0, run_model(target@.command, outcomes@), target@.command,
            outcomes@),
        r.1@.map_values(|u: usize| u as int) == run_trace(target@.command, outcomes@),
{
    let ghost cmds = target@.command;
    let ghost outs = outcomes@;
    let mut spawned: Vec<usize> = Vec::new();
    let mut step = run_start(target);
    if target.command.len() == 0 {
        match step {
            RunStep::Failed(f) => {
                assert(spawned@.map_values(|u: usize| u as int) =~= run_trace(cmds, outs));
                return (Err(f), spawned);
            },
            _ => unreached(),
        }
    }
    let ghost mut i: int = 0;
    assert(spawned@.map_values(|u: usize| u as int) =~= index_trace(0));
    loop
        invariant
            cmds == target@.command,
            outs == outcomes@,
            cmds.len() > 0,
            outs.len() >= cmds.len(),
            0 <= i <= cmds.len(),
            prefix_ok(cmds, outs, i),
            step_matches(step, cmds, i),
            spawned@.map_values(|u: usize| u as int) == index_trace(i),
        decreases cmds.len() - i,
    {
        match step {
            RunStep::Succeeded => {
                proof {
                    lemma_prefix_skip(cmds, outs, i);
                    assert(index_trace(i) + trace_from(cmds, outs, i) =~= index_trace(i));
                }
                return (Ok(()), spawned);
            },
            RunStep::Failed(f) => {
                proof {
                    lemma_prefix_skip(cmds, outs, i);
                    assert(index_trace(i) + trace_from(cmds, outs, i) =~= index_trace(i));
                }
                return (Err(f), spawned);
            },
            RunStep::Spawn { index, program: _, args: _ } => {
                assert(index == i);
                let ghost prev = spawned@;
                spawned.push(index);
                proof {
                    assert(prev.map_values(|u: usize| u as int).len() == prev.len());
                    assert(index_trace(i).len() == i);
                    assert(spawned@.len() == i + 1);
                    assert forall|k: int| 0 <= k < i + 1 implies #[trigger] spawned@[k] as int
                        == k by {
                        if k < i {
                            assert(spawned@[k] == prev[k]);
                            assert(prev.map_values(|u: usize| u as int)[k] == prev[k] as int);
                            assert(index_trace(i)[k] == k);
                        } else {
                            assert(spawned@[k] == index);
                        }
                    }
                    assert(spawned@.map_values(|u: usize| u as int) =~= index_trace(i + 1));
                }
                let out = &outcomes[index];
                let next = run_resume(target, index, out);
                match out {
                    CommandOutcome::SpawnError(_) => {
                        match next {
                            RunStep::Failed(f) => {
                                proof {
                                    lemma_prefix_skip(cmds, outs, i);
                                    assert(trace_from(cmds, outs, i) == seq![i]);
                                    assert(index_trace(i) + seq![i] =~= index_trace(i + 1));
                                }
                                return (Err(f), spawned);
                            },
                            _ => unreached(),
                        }
                    },
                    CommandOutcome::Exited(code) => {
                        let zero = match code {
                            Some(c) => *c == 0,
                            None => false,
                        };
                        if zero {
                            proof {
                                i = i + 1;
                            }
                            step = next;
                        } else {
                            match next {
                                RunStep::Failed(f) => {
                                    proof {
                                        lemma_prefix_skip(cmds, outs, i);
                                        assert(trace_from(cmds, outs, i) == seq![i]);
                                        assert(index_trace(i) + seq![i] =~= index_trace(i + 1));
                                    }
                                    return (Err(f), spawned);
                                },
                                _ => unreached(),
                            }
                        }
                    },
                }
            },
        }
    }
}

} // verus!
