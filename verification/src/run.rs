//! What a run is: the steps that it takes, where it ends, and with which
//! result.

use vstd::prelude::*;
use crate::dispatch::{
    broadcast_plan, call_decided, call_holds, lemma_call_deterministic, FyfthPlan,
};
use crate::host::{FyfthCommandError, FyfthError};
use crate::language::FyfthCommandSpec;
use crate::machine::{lemma_plain_errors, plain_step, FyfthState, FyfthStep};
use crate::regex_command::{lemma_bind_groups_keeps_names, regex_group_names};
use crate::variant::FyfthValue;

verus! {

/// The number of steps that a run may take.
pub const ITERATION_LIMIT: usize = 100_000;

/// The result of a command that a step ended with this error; `None` for an
/// error that no command ends with.
pub open spec fn command_result(error: Option<FyfthError>) -> Option<
    Result<(), FyfthCommandError>,
> {
    match error {
        None => Some(Ok(())),
        Some(FyfthError::SyntaxError) => Some(Err(FyfthCommandError::SyntaxError)),
        Some(FyfthError::TypeError) => Some(Err(FyfthCommandError::TypeError)),
        Some(FyfthError::DomainError) => Some(Err(FyfthCommandError::DomainError)),
        Some(_) => None,
    }
}

/// What holds of a step that runs the command with the index `index`, from
/// the state `popped`, in which the command has left the queue: an index that
/// names no command is a syntax error; else the command is called as
/// [`call_holds`] says, and the queue stays as it is.
pub open spec fn command_step_holds(
    commands: Seq<FyfthCommandSpec>,
    index: u32,
    popped: FyfthState,
    after: FyfthState,
    error: Option<FyfthError>,
) -> bool {
    if index >= commands.len() {
        after == popped && error == Some(FyfthError::SyntaxError)
    } else {
        &&& after.queue == popped.queue
        &&& command_result(error) matches Some(result) && call_holds(
            commands[index as int],
            popped.stack,
            popped.vars,
            after.stack,
            after.vars,
            result,
        )
    }
}

/// What holds of one step of a run: the entry at the front of the queue
/// leaves the queue and is carried out.
#[verifier::opaque]
pub open spec fn step_holds(
    commands: Seq<FyfthCommandSpec>,
    before: FyfthState,
    after: FyfthState,
    error: Option<FyfthError>,
) -> bool {
    before.queue.len() > 0 && {
        let popped = FyfthState {
            stack: before.stack,
            queue: before.queue.drop_first(),
            vars: before.vars,
        };
        match before.queue[0] {
            FyfthValue::LangFunc(index) => command_step_holds(commands, index, popped, after, error),
            entry => plain_step(entry, popped) == (FyfthStep { state: after, error }),
        }
    }
}

/// The state before the step `at` of a run that began in `start`.
pub open spec fn state_before(start: FyfthState, trace: Seq<FyfthStep>, at: int) -> FyfthState {
    if at <= 0 {
        start
    } else {
        trace[at - 1].state
    }
}

/// The steps that left `trace` are steps of a run from `start`: each starts
/// where the one before it ended, and none but the last has failed.
pub open spec fn steps_hold(
    commands: Seq<FyfthCommandSpec>,
    start: FyfthState,
    trace: Seq<FyfthStep>,
) -> bool {
    &&& forall|i: int|
        0 <= i < trace.len() ==> step_holds(
            commands,
            #[trigger] state_before(start, trace, i),
            trace[i].state,
            trace[i].error,
        )
    &&& forall|i: int| 0 <= i < trace.len() - 1 ==> (#[trigger] trace[i]).error is None
}

/// A run that has not failed goes on by one step.
pub proof fn lemma_steps_go_on(
    commands: Seq<FyfthCommandSpec>,
    start: FyfthState,
    trace: Seq<FyfthStep>,
    next: FyfthStep,
)
    requires
        steps_hold(commands, start, trace),
        trace.len() > 0 ==> trace.last().error is None,
        step_holds(commands, state_before(start, trace, trace.len() as int), next.state, next.error),
    ensures
        steps_hold(commands, start, trace.push(next)),
        state_before(start, trace.push(next), trace.len() as int + 1) == next.state,
{
    let longer = trace.push(next);
    assert forall|i: int| 0 <= i < longer.len() implies step_holds(
        commands,
        #[trigger] state_before(start, longer, i),
        longer[i].state,
        longer[i].error,
    ) by {
        if i < trace.len() {
            assert(longer[i] == trace[i]);
            assert(state_before(start, longer, i) == state_before(start, trace, i));
        } else {
            assert(state_before(start, longer, i) == state_before(start, trace, trace.len() as int));
        }
    }
    assert forall|i: int| 0 <= i < longer.len() - 1 implies (#[trigger] longer[i]).error is None by {
        assert(longer[i] == trace[i]);
    }
}

/// What holds of a run from `start` whose steps left `trace`. Each step
/// starts where the one before it ended. Only the last step may have failed,
/// and the run ends with its error. A run that did not fail goes on until the
/// queue is empty, but takes no more than [`ITERATION_LIMIT`] steps: if the
/// queue is not empty then, the run ends with the error
/// `IterationLimitExceeded`.
pub open spec fn run_holds(
    commands: Seq<FyfthCommandSpec>,
    start: FyfthState,
    trace: Seq<FyfthStep>,
    end: FyfthState,
    result: Result<(), FyfthError>,
) -> bool {
    &&& trace.len() <= ITERATION_LIMIT
    &&& steps_hold(commands, start, trace)
    &&& end == state_before(start, trace, trace.len() as int)
    &&& result == (if trace.len() > 0 && trace.last().error is Some {
        Err::<(), FyfthError>(trace.last().error->0)
    } else if end.queue.len() == 0 {
        Ok(())
    } else {
        Err(FyfthError::IterationLimitExceeded)
    })
    &&& trace.len() < ITERATION_LIMIT && !(trace.len() > 0 && trace.last().error is Some)
        ==> end.queue.len() == 0
}

/// A run ends with `IterationLimitExceeded` exactly when it has taken
/// [`ITERATION_LIMIT`] steps, none of them has failed, and the queue is not
/// empty: not before that many steps, and with no step more.
pub proof fn lemma_iteration_limit(
    commands: Seq<FyfthCommandSpec>,
    start: FyfthState,
    trace: Seq<FyfthStep>,
    end: FyfthState,
    result: Result<(), FyfthError>,
)
    requires
        run_holds(commands, start, trace, end, result),
    ensures
        result == Err::<(), FyfthError>(FyfthError::IterationLimitExceeded) <==> (trace.len()
            == ITERATION_LIMIT && end.queue.len() > 0 && forall|i: int|
            0 <= i < trace.len() ==> (#[trigger] trace[i]).error is None),
{
    if trace.len() > 0 {
        let last = trace.len() - 1;
        let before = state_before(start, trace, last);
        assert(step_holds(commands, before, trace[last].state, trace[last].error));
        lemma_step_errors(commands, before, trace[last].state, trace[last].error);
        if trace.last().error is None {
            assert forall|i: int| 0 <= i < trace.len() implies (#[trigger] trace[i]).error is None by {}
        }
    }
}

/// A step takes an entry off the queue, and fails with a syntax, type or
/// domain error only.
pub proof fn lemma_step_errors(
    commands: Seq<FyfthCommandSpec>,
    before: FyfthState,
    after: FyfthState,
    error: Option<FyfthError>,
)
    requires
        step_holds(commands, before, after, error),
    ensures
        before.queue.len() > 0,
        error != Some(FyfthError::IterationLimitExceeded),
        error != Some(FyfthError::LexError),
{
    reveal(step_holds);
    let popped = FyfthState {
        stack: before.stack,
        queue: before.queue.drop_first(),
        vars: before.vars,
    };
    lemma_plain_errors(before.queue[0], popped);
}

/// The state decides what the next step leaves: the entry at the front of the
/// queue is no command, or a command whose call the host has no say in.
pub open spec fn step_decided(commands: Seq<FyfthCommandSpec>, before: FyfthState) -> bool {
    before.queue.len() > 0 && match before.queue[0] {
        FyfthValue::LangFunc(index) => index >= commands.len() || call_decided(
            commands[index as int],
            before.stack,
            before.vars,
        ),
        _ => true,
    }
}

/// Where the state decides the step, all that [`step_holds`] allows is one
/// outcome.
pub proof fn lemma_step_deterministic(
    commands: Seq<FyfthCommandSpec>,
    before: FyfthState,
    first: FyfthStep,
    second: FyfthStep,
)
    requires
        step_decided(commands, before),
        step_holds(commands, before, first.state, first.error),
        step_holds(commands, before, second.state, second.error),
    ensures
        first == second,
{
    reveal(step_holds);
    match before.queue[0] {
        FyfthValue::LangFunc(index) => {
            if index < commands.len() {
                lemma_call_deterministic(
                    commands[index as int],
                    before.stack,
                    before.vars,
                    first.state.stack,
                    first.state.vars,
                    command_result(first.error)->0,
                    second.state.stack,
                    second.state.vars,
                    command_result(second.error)->0,
                );
            }
        },
        _ => {},
    }
}

/// The steps of a run agree with those of any other run from the same state,
/// as far as both go and the states decide the steps.
proof fn lemma_traces_agree(
    commands: Seq<FyfthCommandSpec>,
    start: FyfthState,
    first: Seq<FyfthStep>,
    first_end: FyfthState,
    first_result: Result<(), FyfthError>,
    second: Seq<FyfthStep>,
    second_end: FyfthState,
    second_result: Result<(), FyfthError>,
    upto: int,
)
    requires
        run_holds(commands, start, first, first_end, first_result),
        run_holds(commands, start, second, second_end, second_result),
        forall|i: int|
            0 <= i < first.len() ==> step_decided(commands, #[trigger] state_before(start, first, i)),
        0 <= upto <= first.len(),
        upto <= second.len(),
    ensures
        forall|i: int| 0 <= i < upto ==> first[i] == second[i],
    decreases upto,
{
    if upto > 0 {
        lemma_traces_agree(
            commands,
            start,
            first,
            first_end,
            first_result,
            second,
            second_end,
            second_result,
            upto - 1,
        );
        let at = upto - 1;
        assert(state_before(start, first, at) == state_before(start, second, at)) by {
            if at > 0 {
                assert(first[at - 1] == second[at - 1]);
            }
        }
        assert(step_decided(commands, state_before(start, first, at)));
        assert(step_holds(commands, state_before(start, first, at), first[at].state, first[at].error));
        assert(step_holds(
            commands,
            state_before(start, second, at),
            second[at].state,
            second[at].error,
        ));
        lemma_step_deterministic(commands, state_before(start, first, at), first[at], second[at]);
    }
}

/// A run in which the host has no say has one outcome: where the state before
/// each step of a run decides that step, any other run from the same state
/// takes the same steps, ends in the same state and with the same result.
pub proof fn lemma_run_deterministic(
    commands: Seq<FyfthCommandSpec>,
    start: FyfthState,
    first: Seq<FyfthStep>,
    first_end: FyfthState,
    first_result: Result<(), FyfthError>,
    second: Seq<FyfthStep>,
    second_end: FyfthState,
    second_result: Result<(), FyfthError>,
)
    requires
        run_holds(commands, start, first, first_end, first_result),
        run_holds(commands, start, second, second_end, second_result),
        forall|i: int|
            0 <= i < first.len() ==> step_decided(commands, #[trigger] state_before(start, first, i)),
    ensures
        first == second,
        first_end == second_end,
        first_result == second_result,
{
    let shorter = if first.len() <= second.len() {
        first.len() as int
    } else {
        second.len() as int
    };
    lemma_traces_agree(
        commands,
        start,
        first,
        first_end,
        first_result,
        second,
        second_end,
        second_result,
        shorter,
    );
    if first.len() < second.len() {
        let at = first.len() as int;
        assert(step_holds(commands, state_before(start, second, at), second[at].state, second[at].error));
        lemma_step_errors(commands, state_before(start, second, at), second[at].state, second[at].error);
        if at > 0 {
            assert(first[at - 1] == second[at - 1]);
            assert(second[at - 1].error is None);
        }
    } else if second.len() < first.len() {
        let at = second.len() as int;
        assert(step_holds(commands, state_before(start, first, at), first[at].state, first[at].error));
        lemma_step_errors(commands, state_before(start, first, at), first[at].state, first[at].error);
        if at > 0 {
            assert(first[at - 1] == second[at - 1]);
            assert(first[at - 1].error is None);
        }
    }
    assert(first =~= second);
}

/// A step in which the host has no say takes no variable away: every name
/// that is bound before the step is bound after it.
pub proof fn lemma_step_keeps_names(
    commands: Seq<FyfthCommandSpec>,
    before: FyfthState,
    after: FyfthState,
    error: Option<FyfthError>,
)
    requires
        step_decided(commands, before),
        step_holds(commands, before, after, error),
    ensures
        before.vars.dom().subset_of(after.vars.dom()),
{
    reveal(step_holds);
    match before.queue[0] {
        FyfthValue::LangFunc(index) => {
            if index < commands.len() {
                let command = commands[index as int];
                let arity = command.behaviors.len() as int;
                if before.stack.len() >= arity {
                    let args = before.stack.skip(before.stack.len() - arity);
                    match broadcast_plan(command.behaviors, args) {
                        FyfthPlan::Single => {
                            match (args[0], args[1]) {
                                (FyfthValue::Literal(text), FyfthValue::Literal(pattern)) => {
                                    lemma_bind_groups_keeps_names(
                                        before.vars,
                                        pattern,
                                        text,
                                        regex_group_names(pattern).len(),
                                    );
                                },
                                _ => {},
                            }
                        },
                        _ => {},
                    }
                }
            }
        },
        _ => {},
    }
}

/// A run on an empty queue takes no step and succeeds.
pub proof fn lemma_empty_queue(
    commands: Seq<FyfthCommandSpec>,
    start: FyfthState,
    trace: Seq<FyfthStep>,
    end: FyfthState,
    result: Result<(), FyfthError>,
)
    requires
        run_holds(commands, start, trace, end, result),
        start.queue.len() == 0,
    ensures
        trace.len() == 0,
        end == start,
        result == Ok::<(), FyfthError>(()),
{
    if trace.len() > 0 {
        assert(step_holds(commands, state_before(start, trace, 0), trace[0].state, trace[0].error));
        lemma_step_errors(commands, state_before(start, trace, 0), trace[0].state, trace[0].error);
    }
}

/// A run that succeeds leaves the queue empty.
pub proof fn lemma_success_empties_queue(
    commands: Seq<FyfthCommandSpec>,
    start: FyfthState,
    trace: Seq<FyfthStep>,
    end: FyfthState,
    result: Result<(), FyfthError>,
)
    requires
        run_holds(commands, start, trace, end, result),
        result is Ok,
    ensures
        end.queue.len() == 0,
{
}

} // verus!
