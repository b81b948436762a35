//! The interpreter: a stack, a queue of entries still to be run, the
//! variables, and the vocabulary.

use std::collections::VecDeque;
use std::sync::Arc;
use vstd::prelude::*;
use crate::environment::FyfthEnvironment;
use crate::host::{FyfthContext, FyfthError, FyfthHost};
use crate::language::{
    keywords_collide, prefixes_collide, share, FyfthConflict, FyfthLanguageExtension,
};
use crate::lexer::{lex_all, FyfthLexer, FyfthWord, FyfthWordSpec};
use crate::machine::{
    collect_step, define_step, done, dup_step, macro_end, plain_step, rotated_left, rotated_right,
    rotl_step, rotr_step, spread_step, swap_n_step, swap_step, swapped, unpack_step, FyfthState,
    FyfthStep,
};
use crate::output::{ends_with, extends, lemma_extends_self, report, reports};
use crate::parser::{
    classify, classify_word, code_holds, expand_prefix, lemma_lex_all_unfold, word_holds,
};
use crate::printer::{all_written, joined, plain_items, put_items};
use crate::run::{
    lemma_step_errors, lemma_steps_go_on, run_holds, state_before, step_holds, steps_hold,
    ITERATION_LIMIT,
};
use crate::variant::{copy_range, lemma_iter_view, views, FyfthValue, FyfthVariant};

verus! {

/// An interpreter of the language.
pub struct FyfthInterpreter {
    stack: Vec<FyfthVariant>,
    queue: VecDeque<FyfthVariant>,
    vars: FyfthEnvironment,
    lang: Arc<FyfthLanguageExtension>,
}

impl View for FyfthInterpreter {
    type V = FyfthState;

    closed spec fn view(&self) -> FyfthState {
        FyfthState { stack: views(self.stack@), queue: views(self.queue@), vars: self.vars@ }
    }
}

impl FyfthInterpreter {
    /// The vocabulary of the interpreter.
    pub closed spec fn language(&self) -> FyfthLanguageExtension {
        *self.lang
    }

    /// An interpreter with an empty stack, an empty queue and no variable.
    pub fn new(lang: Arc<FyfthLanguageExtension>) -> (interpreter: Self)
        ensures
            interpreter@.stack.len() == 0,
            interpreter@.queue.len() == 0,
            interpreter@.vars == Map::<Seq<char>, FyfthValue>::empty(),
            interpreter.language() == *lang,
    {
        FyfthInterpreter {
            stack: Vec::new(),
            queue: VecDeque::new(),
            vars: FyfthEnvironment::new(),
            lang,
        }
    }

    /// The stack, its top last.
    pub fn stack(&self) -> (stack: &Vec<FyfthVariant>)
        ensures
            views(stack@) == self@.stack,
    {
        &self.stack
    }

    /// The number of entries that are still to be run.
    pub fn queue_len(&self) -> (count: usize)
        ensures
            count == self@.queue.len(),
    {
        self.queue.len()
    }

    /// The variables.
    pub fn vars(&self) -> (vars: &FyfthEnvironment)
        ensures
            vars@ == self@.vars,
    {
        &self.vars
    }

    /// The vocabulary.
    pub fn lang(&self) -> (lang: &Arc<FyfthLanguageExtension>)
        ensures
            **lang == self.language(),
    {
        &self.lang
    }

    /// Puts an entry at the end of the queue.
    pub fn enqueue(&mut self, entry: FyfthVariant)
        ensures
            final(self)@ == (FyfthState { queue: old(self)@.queue.push(entry@), ..old(self)@ }),
            final(self).language() == old(self).language(),
    {
        self.queue.push_back(entry);
        assert(views(self.queue@) =~= views(old(self).queue@).push(entry@));
    }

    /// `iter`.
    fn step_collect(&mut self)
        ensures
            done(final(self)@) == collect_step(old(self)@),
            final(self).language() == old(self).language(),
    {
        let mut items: Vec<FyfthVariant> = Vec::new();
        core::mem::swap(&mut items, &mut self.stack);
        proof {
            lemma_iter_view(items);
        }
        self.stack.push(FyfthVariant::Iter(items));
        assert(views(self.stack@) =~= seq![FyfthValue::Iter(old(self)@.stack)]);
    }

    /// `dup`.
    fn step_dup(&mut self)
        ensures
            done(final(self)@) == dup_step(old(self)@),
            final(self).language() == old(self).language(),
    {
        let n = self.stack.len();
        if n > 0 {
            let copy = self.stack[n - 1].clone();
            self.stack.push(copy);
            assert(views(self.stack@) =~= old(self)@.stack.push(old(self)@.stack.last()));
        }
    }

    /// `swap`.
    fn step_swap(&mut self, output: &mut String) -> (error: Option<FyfthError>)
        ensures
            (FyfthStep { state: final(self)@, error }) == swap_step(old(self)@),
            final(self).language() == old(self).language(),
            error is None ==> final(output)@ == old(output)@,
            error is Some ==> reports(old(output)@, final(output)@),
    {
        let first = self.stack.pop();
        let second = self.stack.pop();
        match (first, second) {
            (Some(first), Some(second)) => {
                self.stack.push(first);
                self.stack.push(second);
                assert(views(self.stack@) =~= swapped(old(self)@.stack));
                None
            },
            _ => {
                assert(views(self.stack@) =~= Seq::<FyfthValue>::empty());
                report(output, "Syntax error: `swap` expects two items on the stack");
                Some(FyfthError::SyntaxError)
            },
        }
    }

    /// `swap_n`.
    fn step_swap_n(&mut self, output: &mut String) -> (error: Option<FyfthError>)
        ensures
            (FyfthStep { state: final(self)@, error }) == swap_n_step(old(self)@),
            final(self).language() == old(self).language(),
            error is None ==> final(output)@ == old(output)@,
            error is Some ==> reports(old(output)@, final(output)@),
    {
        let ghost before = old(self)@.stack;
        match self.stack.pop() {
            Some(FyfthVariant::Num(number)) => {
                assert(views(self.stack@) =~= before.drop_last());
                let index = number.truncate();
                let m = self.stack.len();
                if index < 0 || index as usize + 1 >= m {
                    report(output, "Error: not enough items on the stack to apply `swap_n`");
                    Some(FyfthError::DomainError)
                } else {
                    let ghost rest = views(self.stack@);
                    let lhs = m - 1 - index as usize;
                    let mut top = self.stack.pop().unwrap();
                    if lhs < m - 1 {
                        self.stack.set_and_swap(lhs, &mut top);
                    }
                    self.stack.push(top);
                    assert(views(self.stack@) =~= rest.update(m - 1 - index, rest[m - 1]).update(
                        m - 1,
                        rest[m - 1 - index],
                    ));
                    None
                }
            },
            Some(_) => {
                assert(views(self.stack@) =~= before.drop_last());
                report(output, "Syntax error: `swap_n` must follow a number");
                Some(FyfthError::SyntaxError)
            },
            None => {
                report(output, "Syntax error: `swap_n` must follow a number");
                Some(FyfthError::SyntaxError)
            },
        }
    }

    /// `rotr`.
    fn step_rotr(&mut self, output: &mut String) -> (error: Option<FyfthError>)
        ensures
            (FyfthStep { state: final(self)@, error }) == rotr_step(old(self)@),
            final(self).language() == old(self).language(),
            error is None ==> final(output)@ == old(output)@,
            error is Some ==> reports(old(output)@, final(output)@),
    {
        let ghost before = old(self)@.stack;
        match self.stack.pop() {
            Some(FyfthVariant::Num(number)) => {
                assert(views(self.stack@) =~= before.drop_last());
                let size = number.truncate();
                let m = self.stack.len();
                if size < 0 || size as usize > m {
                    report(output, "Error: not enough items on the stack to apply `rotr`");
                    Some(FyfthError::DomainError)
                } else if size <= 1 {
                    None
                } else {
                    let ghost rest = views(self.stack@);
                    let lhs = m - size as usize;
                    let last = self.stack.pop().unwrap();
                    self.stack.insert(lhs, last);
                    assert(views(self.stack@) =~= rotated_right(rest, size as int));
                    None
                }
            },
            Some(_) => {
                assert(views(self.stack@) =~= before.drop_last());
                report(output, "Syntax error: `rotr` must follow a number");
                Some(FyfthError::SyntaxError)
            },
            None => {
                report(output, "Syntax error: `rotr` must follow a number");
                Some(FyfthError::SyntaxError)
            },
        }
    }

    /// `rotl`.
    fn step_rotl(&mut self, output: &mut String) -> (error: Option<FyfthError>)
        ensures
            (FyfthStep { state: final(self)@, error }) == rotl_step(old(self)@),
            final(self).language() == old(self).language(),
            error is None ==> final(output)@ == old(output)@,
            error is Some ==> reports(old(output)@, final(output)@),
    {
        let ghost before = old(self)@.stack;
        match self.stack.pop() {
            Some(FyfthVariant::Num(number)) => {
                assert(views(self.stack@) =~= before.drop_last());
                let size = number.truncate();
                let m = self.stack.len();
                if size < 0 || size as usize > m {
                    report(output, "Error: not enough items on the stack to apply `rotl`");
                    Some(FyfthError::DomainError)
                } else if size <= 1 {
                    None
                } else {
                    let ghost rest = views(self.stack@);
                    let lhs = m - size as usize;
                    let moved = self.stack.remove(lhs);
                    self.stack.push(moved);
                    assert(views(self.stack@) =~= rotated_left(rest, size as int));
                    None
                }
            },
            Some(_) => {
                assert(views(self.stack@) =~= before.drop_last());
                report(output, "Syntax error: `rotl` must follow a number");
                Some(FyfthError::SyntaxError)
            },
            None => {
                report(output, "Syntax error: `rotl` must follow a number");
                Some(FyfthError::SyntaxError)
            },
        }
    }

    /// `queue`.
    #[verifier::loop_isolation(false)]
    fn step_unpack(&mut self, output: &mut String) -> (error: Option<FyfthError>)
        ensures
            (FyfthStep { state: final(self)@, error }) == unpack_step(old(self)@),
            final(self).language() == old(self).language(),
            error is None ==> final(output)@ == old(output)@,
            error is Some ==> reports(old(output)@, final(output)@),
    {
        let ghost before = old(self)@.stack;
        let ghost queue_before = old(self)@.queue;
        match self.stack.pop() {
            Some(FyfthVariant::Iter(items)) => {
                assert(views(self.stack@) =~= before.drop_last());
                proof {
                    lemma_iter_view(items);
                }
                let ghost all = views(items@);
                let mut items = items;
                assert(views(items@) + views(self.queue@) =~= all + queue_before);
                while items.len() > 0
                    invariant
                        views(items@) + views(self.queue@) == all + queue_before,
                        views(self.stack@) == before.drop_last(),
                        self.vars@ == old(self).vars@,
                        self.lang == old(self).lang,
                    decreases items.len(),
                {
                    let ghost items_before = views(items@);
                    let ghost queue_now = views(self.queue@);
                    let last = items.pop().unwrap();
                    self.queue.push_front(last);
                    assert(views(items@) + views(self.queue@) =~= items_before + queue_now);
                }
                assert(views(self.queue@) =~= views(items@) + views(self.queue@));
                None
            },
            Some(_) => {
                assert(views(self.stack@) =~= before.drop_last());
                report(output, "Syntax error: `run` expects the top of the stack to be `iter`");
                Some(FyfthError::TypeError)
            },
            None => {
                report(output, "Syntax error: `run` expects the top of the stack to be `iter`");
                Some(FyfthError::TypeError)
            },
        }
    }

    /// `push`.
    fn step_spread(&mut self, output: &mut String) -> (error: Option<FyfthError>)
        ensures
            (FyfthStep { state: final(self)@, error }) == spread_step(old(self)@),
            final(self).language() == old(self).language(),
            error is None ==> final(output)@ == old(output)@,
            error is Some ==> reports(old(output)@, final(output)@),
    {
        let ghost before = old(self)@.stack;
        match self.stack.pop() {
            Some(FyfthVariant::Iter(items)) => {
                assert(views(self.stack@) =~= before.drop_last());
                proof {
                    lemma_iter_view(items);
                }
                let mut items = items;
                let ghost all = views(items@);
                self.stack.append(&mut items);
                assert(views(self.stack@) =~= before.drop_last() + all);
                None
            },
            Some(_) => {
                assert(views(self.stack@) =~= before.drop_last());
                report(output, "Syntax error: `push` expects the top of the stack to be `iter`");
                Some(FyfthError::TypeError)
            },
            None => {
                report(output, "Syntax error: `push` expects the top of the stack to be `iter`");
                Some(FyfthError::TypeError)
            },
        }
    }

    /// `macro`.
    #[verifier::loop_isolation(false)]
    fn step_define(&mut self, output: &mut String) -> (error: Option<FyfthError>)
        ensures
            (FyfthStep { state: final(self)@, error }) == define_step(old(self)@),
            final(self).language() == old(self).language(),
            error is None ==> final(output)@ == old(output)@,
            error is Some ==> reports(old(output)@, final(output)@),
    {
        let ghost queue_before = old(self)@.queue;
        match self.queue.pop_front() {
            Some(FyfthVariant::Literal(name)) => {
                assert(views(self.queue@) =~= queue_before.drop_first());
                let ghost rest = views(self.queue@);
                let end = macro_body_end(&self.queue);
                let mut body: Vec<FyfthVariant> = Vec::new();
                while body.len() < end
                    invariant
                        body.len() <= end,
                        views(body@) + views(self.queue@) == rest,
                        views(self.stack@) == old(self)@.stack,
                        self.vars@ == old(self).vars@,
                        self.lang == old(self).lang,
                    decreases end - body.len(),
                {
                    let ghost body_before = views(body@);
                    let ghost queue_now = views(self.queue@);
                    assert(body_before.len() + queue_now.len() == rest.len());
                    let entry = self.queue.pop_front().unwrap();
                    body.push(entry);
                    assert(views(body@) + views(self.queue@) =~= body_before + queue_now);
                }
                proof {
                    lemma_iter_view(body);
                    assert(views(body@) =~= rest.take(end as int));
                    assert(views(self.queue@) =~= rest.skip(end as int));
                }
                self.vars.insert(name, FyfthVariant::Iter(body));
                None
            },
            Some(_) => {
                assert(views(self.queue@) =~= queue_before.drop_first());
                report(
                    output,
                    "Syntax error: `macro` needs to be followed by a name for the macro",
                );
                Some(FyfthError::SyntaxError)
            },
            None => {
                report(
                    output,
                    "Syntax error: `macro` needs to be followed by a name for the macro",
                );
                Some(FyfthError::SyntaxError)
            },
        }
    }
}

/// Where the body of the macro that begins at the front of `queue` ends.
#[verifier::loop_isolation(false)]
fn macro_body_end(queue: &VecDeque<FyfthVariant>) -> (end: usize)
    ensures
        end == macro_end(views(queue@), 0, 1),
        end <= queue.len(),
{
    let ghost entries = views(queue@);
    let mut depth: u128 = 1;
    let mut end: usize = 0;
    while end < queue.len()
        invariant
            end <= queue.len(),
            1 <= depth <= end + 1,
            macro_end(entries, 0, 1) == macro_end(entries, end as int, depth as int),
        decreases queue.len() - end,
    {
        assert(entries[end as int] == queue@[end as int]@);
        match &queue[end] {
            FyfthVariant::Macro => {
                depth += 1;
            },
            FyfthVariant::LineEnd => {
                if depth <= 1 {
                    return end;
                }
                depth -= 1;
            },
            _ => {},
        }
        end += 1;
    }
    end
}

impl FyfthInterpreter {
    /// Carries out an entry that is no command, once it has left the queue.
    pub(crate) fn step_plain(
        &mut self,
        current: FyfthVariant,
        output: &mut String,
    ) -> (error: Option<
        FyfthError,
    >)
        requires
            !(current@ is LangFunc),
        ensures
            (FyfthStep { state: final(self)@, error }) == plain_step(current@, old(self)@),
            final(self).language() == old(self).language(),
            error is None ==> final(output)@ == old(output)@,
            error is Some ==> reports(old(output)@, final(output)@),
    {
        match current {
            FyfthVariant::LineEnd => None,
            FyfthVariant::FnIter => {
                self.step_collect();
                None
            },
            FyfthVariant::Macro => self.step_define(output),
            FyfthVariant::FnQueue => self.step_unpack(output),
            FyfthVariant::FnPush => self.step_spread(output),
            FyfthVariant::FnDup => {
                self.step_dup();
                None
            },
            FyfthVariant::FnSwap => self.step_swap(output),
            FyfthVariant::FnSwapN => self.step_swap_n(output),
            FyfthVariant::FnRotRN => self.step_rotr(output),
            FyfthVariant::FnRotLN => self.step_rotl(output),
            value => {
                self.stack.push(value);
                assert(views(self.stack@) =~= old(self)@.stack.push(value@));
                None
            },
        }
    }

    /// One step of a run: the entry at the front of the queue leaves the queue
    /// and is carried out. The error of a step that failed is returned, and a
    /// diagnostic is added to the output.
    pub fn step<H: FyfthHost>(&mut self, world: &mut H, output: &mut String) -> (error: Option<
        FyfthError,
    >)
        requires
            old(self)@.queue.len() > 0,
        ensures
            step_holds(old(self).language().commands(), old(self)@, final(self)@, error),
            final(self).language() == old(self).language(),
            error is None ==> extends(old(output)@, final(output)@),
            error is Some ==> reports(old(output)@, final(output)@),
    {
        proof {
            reveal(step_holds);
        }
        let ghost before = self@;
        let current = self.queue.pop_front().unwrap();
        assert(views(self.queue@) =~= before.queue.drop_first());
        assert(current@ == before.queue[0]);
        match current {
            FyfthVariant::LangFunc(index) => {
                if (index as usize) < self.lang.command_count() {
                    let func = self.lang.command(index as usize);
                    let result = FyfthVariant::try_call_func(
                        FyfthContext {
                            output,
                            world,
                            vars: &mut self.vars,
                            lang: &*self.lang,
                        },
                        func,
                        &mut self.stack,
                    );
                    match result {
                        Ok(()) => None,
                        Err(error) => Some(error.into_run_error()),
                    }
                } else {
                    report(output, "Syntax error: the queue names a command that is not registered");
                    Some(FyfthError::SyntaxError)
                }
            },
            other => {
                let error = self.step_plain(other, output);
                proof {
                    lemma_extends_self(old(output)@);
                }
                error
            },
        }
    }
}

impl FyfthVariant {
    /// Runs what is in the queue of `interpreter`: step by step, until the
    /// queue is empty, a step fails, or the steps are used up. Returns the
    /// text that the run produced, and the error if there was one; with an
    /// error the text holds a diagnostic.
    pub fn run<H: FyfthHost>(interpreter: &mut FyfthInterpreter, world: &mut H) -> (outcome: (
        String,
        Result<(), FyfthError>,
    ))
        ensures
            exists|trace: Seq<FyfthStep>|
                run_holds(
                    old(interpreter).language().commands(),
                    old(interpreter)@,
                    trace,
                    final(interpreter)@,
                    outcome.1,
                ),
            final(interpreter).language() == old(interpreter).language(),
            outcome.1 is Err ==> outcome.0@.len() > 0,
            outcome.1 == Err::<(), FyfthError>(FyfthError::IterationLimitExceeded) ==> ends_with(
                outcome.0@,
                "Error: reached iteration limit"@,
            ),
    {
        let mut output = String::new();
        let mut steps: usize = 0;
        let mut failure: Option<FyfthError> = None;
        let ghost start = interpreter@;
        let ghost commands = interpreter.language().commands();
        let ghost mut trace: Seq<FyfthStep> = Seq::empty();
        while interpreter.queue.len() > 0 && failure.is_none() && steps < ITERATION_LIMIT
            invariant
                steps <= ITERATION_LIMIT,
                trace.len() == steps,
                interpreter.language() == old(interpreter).language(),
                commands == old(interpreter).language().commands(),
                start == old(interpreter)@,
                steps_hold(commands, start, trace),
                interpreter@ == state_before(start, trace, trace.len() as int),
                failure == (if trace.len() > 0 {
                    trace.last().error
                } else {
                    None
                }),
                failure is Some ==> output@.len() > 0,
            decreases ITERATION_LIMIT - steps,
        {
            let ghost earlier = trace;
            let error = interpreter.step(world, &mut output);
            proof {
                let next = FyfthStep { state: interpreter@, error };
                lemma_steps_go_on(commands, start, earlier, next);
                trace = earlier.push(next);
            }
            steps += 1;
            failure = error;
        }
        assert(interpreter@.queue.len() == interpreter.queue@.len());
        let result = match failure {
            Some(error) => Err(error),
            None => {
                if interpreter.queue.len() == 0 {
                    Ok(())
                } else {
                    let ghost before = output@;
                    report(&mut output, "Error: reached iteration limit");
                    proof {
                        reveal_strlit("Error: reached iteration limit");
                        let message = "Error: reached iteration limit"@;
                        assert(output@.subrange(output@.len() - message.len(), output@.len() as int)
                            =~= message);
                    }
                    Err(FyfthError::IterationLimitExceeded)
                }
            },
        };
        proof {
            if failure is Some {
                lemma_step_errors(
                    commands,
                    state_before(start, trace, trace.len() - 1),
                    trace.last().state,
                    trace.last().error,
                );
            }
        }
        assert(run_holds(commands, start, trace, interpreter@, result));
        (output, result)
    }
}

impl FyfthInterpreter {
    /// Runs what is in the queue: see [`FyfthVariant::run`].
    pub fn run<H: FyfthHost>(
        &mut self,
        world: &mut H,
    ) -> (outcome: (String, Result<(), FyfthError>))
        ensures
            exists|trace: Seq<FyfthStep>|
                run_holds(
                    old(self).language().commands(),
                    old(self)@,
                    trace,
                    final(self)@,
                    outcome.1,
                ),
            final(self).language() == old(self).language(),
            outcome.1 is Err ==> outcome.0@.len() > 0,
            outcome.1 == Err::<(), FyfthError>(FyfthError::IterationLimitExceeded) ==> ends_with(
                outcome.0@,
                "Error: reached iteration limit"@,
            ),
    {
        FyfthVariant::run(self, world)
    }
}

/// Puts entries at the end of a queue, in their order.
#[verifier::loop_isolation(false)]
fn append_entries(queue: &mut VecDeque<FyfthVariant>, entries: Vec<FyfthVariant>)
    ensures
        views(final(queue)@) == views(old(queue)@) + views(entries@),
{
    let ghost all = views(entries@);
    let ghost start = views(queue@);
    let mut entries = entries;
    let mut at: usize = 0;
    assert(start + all.take(0) =~= start);
    while at < entries.len()
        invariant
            at <= entries.len(),
            entries.len() == all.len(),
            forall|i: int| at <= i < entries.len() ==> (#[trigger] entries@[i])@ == all[i],
            views(queue@) == start + all.take(at as int),
        decreases entries.len() - at,
    {
        let ghost before = views(queue@);
        let mut slot = FyfthVariant::Nil;
        entries.set_and_swap(at, &mut slot);
        queue.push_back(slot);
        assert(views(queue@) =~= before.push(all[at as int]));
        assert(start + all.take(at as int + 1) =~= (start + all.take(at as int)).push(all[at as int]));
        at += 1;
    }
    assert(all.take(at as int) =~= all);
}

impl FyfthVariant {
    /// Reads a word: puts into the queue of `interpreter` the entries that the
    /// word stands for.
    pub fn parse<H: FyfthHost>(
        interpreter: &mut FyfthInterpreter,
        word: FyfthWord,
        world: &H,
    ) -> (result:
        Result<(), FyfthError>)
        ensures
            word_holds(
                old(interpreter).language().prefixes(),
                old(interpreter).language().commands(),
                word@,
                old(interpreter)@.queue,
                final(interpreter)@.queue,
                result,
            ),
            final(interpreter)@.stack == old(interpreter)@.stack,
            final(interpreter)@.vars == old(interpreter)@.vars,
            final(interpreter).language() == old(interpreter).language(),
    {
        let ghost queue = interpreter@.queue;
        match word.maybe_prefix {
            Some(index) => {
                if (index as usize) >= interpreter.lang.prefix_count() {
                    return Err(FyfthError::LexError);
                }
                let parser = interpreter.lang.prefix(index as usize).parser;
                match expand_prefix(parser, word.word.as_str(), &*interpreter.lang, world) {
                    Ok(entries) => {
                        let ghost added = views(entries@);
                        append_entries(&mut interpreter.queue, entries);
                        assert(interpreter@.queue == queue + added);
                        Ok(())
                    },
                    Err(_) => Err(FyfthError::LexError),
                }
            },
            None => {
                if word.in_quotes {
                    interpreter.queue.push_back(FyfthVariant::Literal(word.word));
                    assert(views(interpreter.queue@) =~= queue.push(FyfthValue::Literal(word@.word)));
                    Ok(())
                } else {
                    let number = world.parse_number(word.word.as_str());
                    let entry = classify_word(word.word, number, &*interpreter.lang);
                    interpreter.queue.push_back(entry);
                    assert(views(interpreter.queue@) =~= queue.push(
                        classify(word@.word, number, interpreter.language().commands()),
                    ));
                    Ok(())
                }
            },
        }
    }
}

impl FyfthInterpreter {
    /// Reads a source text: puts into the queue the entries that its words
    /// stand for, word by word. Reading stops at the first word that is an
    /// error or cannot be read.
    #[verifier::loop_isolation(false)]
    pub fn parse_code<H: FyfthHost>(&mut self, code: &str, world: &H) -> (result: Result<
        (),
        FyfthError,
    >)
        ensures
            exists|queues: Seq<Seq<FyfthValue>>|
                code_holds(
                    old(self).language().prefixes(),
                    old(self).language().commands(),
                    lex_all(code@, old(self).language().prefixes(), 0),
                    old(self)@.queue,
                    final(self)@.queue,
                    queues,
                    result,
                ),
            final(self)@.stack == old(self)@.stack,
            final(self)@.vars == old(self)@.vars,
            final(self).language() == old(self).language(),
    {
        let mut lexer = FyfthLexer::iter(code, share(&self.lang));
        let ghost prefixes = self.language().prefixes();
        let ghost commands = self.language().commands();
        let ghost all = lex_all(code@, prefixes, 0);
        let ghost mut queues: Seq<Seq<FyfthValue>> = seq![self@.queue];
        let ghost mut consumed: Seq<Result<FyfthWordSpec, FyfthError>> = Seq::empty();
        assert(consumed + lex_all(code@, prefixes, 0) =~= all);
        loop
            invariant
                lexer.text() == code@,
                lexer.prefixes() == prefixes,
                0 <= lexer.position(),
                self.language() == old(self).language(),
                prefixes == old(self).language().prefixes(),
                commands == old(self).language().commands(),
                self@.stack == old(self)@.stack,
                self@.vars == old(self)@.vars,
                all == consumed + lex_all(code@, prefixes, lexer.position()),
                queues.len() == consumed.len() + 1,
                queues[0] == old(self)@.queue,
                queues.last() == self@.queue,
                forall|i: int|
                    0 <= i < queues.len() - 1 ==> ((#[trigger] all[i]) matches Ok(word)
                        && word_holds(prefixes, commands, word, queues[i], queues[i + 1], Ok(()))),
            decreases code@.len() - lexer.position(),
        {
            let ghost position = lexer.position();
            proof {
                lemma_lex_all_unfold(code@, prefixes, position);
            }
            match lexer.next() {
                None => {
                    proof {
                        assert(all =~= consumed);
                        assert(code_holds(
                            prefixes,
                            commands,
                            all,
                            old(self)@.queue,
                            self@.queue,
                            queues,
                            Ok(()),
                        ));
                    }
                    return Ok(());
                },
                Some(Err(_)) => {
                    proof {
                        assert(all[consumed.len() as int] is Err);
                        assert(code_holds(
                            prefixes,
                            commands,
                            all,
                            old(self)@.queue,
                            self@.queue,
                            queues,
                            Err(FyfthError::LexError),
                        ));
                    }
                    return Err(FyfthError::LexError);
                },
                Some(Ok(word)) => {
                    let ghost shown = word@;
                    let ghost queue_before = self@.queue;
                    proof {
                        assert(all[consumed.len() as int] == Ok::<FyfthWordSpec, FyfthError>(shown));
                    }
                    match FyfthVariant::parse(self, word, world) {
                        Ok(()) => {
                            proof {
                                let earlier = queues;
                                queues = earlier.push(self@.queue);
                                let rest = lex_all(code@, prefixes, lexer.position());
                                consumed = consumed.push(Ok(shown));
                                assert(all =~= consumed + rest);
                                assert forall|i: int| 0 <= i < queues.len() - 1 implies ((
                                #[trigger] all[i]) matches Ok(word) && word_holds(
                                    prefixes,
                                    commands,
                                    word,
                                    queues[i],
                                    queues[i + 1],
                                    Ok(()),
                                )) by {
                                    if i < earlier.len() - 1 {
                                        assert(queues[i] == earlier[i]);
                                        assert(queues[i + 1] == earlier[i + 1]);
                                    }
                                }
                            }
                        },
                        Err(_) => {
                            proof {
                                assert(code_holds(
                                    prefixes,
                                    commands,
                                    all,
                                    old(self)@.queue,
                                    self@.queue,
                                    queues,
                                    Err(FyfthError::LexError),
                                ));
                            }
                            return Err(FyfthError::LexError);
                        },
                    }
                },
            }
        }
    }

    /// The stack as it is written for the user: its items from the lowest to
    /// the top, `delimiter` between two.
    pub fn pretty_print_stack<H: FyfthHost>(
        &self,
        world: &H,
        delimiter: &str,
        lang: &FyfthLanguageExtension,
    ) -> (text: String)
        ensures
            exists|parts: Seq<Seq<char>>|
                #![trigger all_written(self@.stack, lang.commands(), parts)]
                all_written(self@.stack, lang.commands(), parts) && text@ == joined(
                    parts,
                    parts.len(),
                    delimiter@,
                ),
            plain_items(
                self@.stack,
                self@.stack.len(),
                lang.commands(),
                delimiter@,
            ) matches Some(expected) ==> text@ == expected,
    {
        let mut buffer = String::new();
        put_items(&self.stack, &mut buffer, world, lang, delimiter);
        proof {
            let parts = choose|parts: Seq<Seq<char>>|
                #![trigger all_written(self@.stack, lang.commands(), parts)]
                all_written(self@.stack, lang.commands(), parts) && buffer@ == Seq::<char>::empty()
                    + joined(parts, parts.len(), delimiter@);
            assert(Seq::<char>::empty() + joined(parts, parts.len(), delimiter@) =~= joined(
                parts,
                parts.len(),
                delimiter@,
            ));
            let expected = plain_items(
                self@.stack,
                self@.stack.len(),
                lang.commands(),
                delimiter@,
            );
            if expected is Some {
                assert(Seq::<char>::empty() + expected->0 =~= expected->0);
            }
        }
        buffer
    }

    /// Adds the commands and prefixes of `extension` to the vocabulary of the
    /// interpreter, unless they collide with those that it has.
    pub fn add_language_extension(&mut self, extension: FyfthLanguageExtension) -> (merged: Result<
        (),
        FyfthConflict,
    >)
        requires
            old(self).language().commands().len() + extension.commands().len() <= u32::MAX,
        ensures
            final(self)@ == old(self)@,
            merged is Err ==> final(self).language().commands() == old(self).language().commands(),
            merged is Err ==> final(self).language().prefixes() == old(self).language().prefixes(),
            merged is Ok ==> final(self).language().commands() == old(self).language().commands()
                + extension.commands(),
            merged is Ok ==> final(self).language().prefixes() == old(self).language().prefixes()
                + extension.prefixes(),
            merged == (if keywords_collide(
                old(self).language().commands(),
                extension.commands(),
            ) {
                Err::<(), FyfthConflict>(FyfthConflict::Keyword)
            } else if prefixes_collide(
                old(self).language().prefixes(),
                extension.prefixes(),
            ) {
                Err(FyfthConflict::Prefix)
            } else {
                Ok(())
            }),
    {
        let mut lang: FyfthLanguageExtension = (*self.lang).clone();
        let merged = lang.merge(extension);
        self.lang = Arc::new(lang);
        merged
    }
}

impl Clone for FyfthInterpreter {
    /// A copy with the same stack, queue and variables, which shares the
    /// vocabulary.
    #[verifier::loop_isolation(false)]
    fn clone(&self) -> (copy: FyfthInterpreter)
        ensures
            copy@ == self@,
            copy.language() == self.language(),
    {
        let stack = copy_range(&self.stack, 0, self.stack.len());
        let mut queue: VecDeque<FyfthVariant> = VecDeque::new();
        let mut at: usize = 0;
        while at < self.queue.len()
            invariant
                at <= self.queue.len(),
                queue.len() == at,
                forall|i: int| 0 <= i < at ==> queue@[i]@ == self.queue@[i]@,
            decreases self.queue.len() - at,
        {
            queue.push_back(self.queue[at].clone());
            at += 1;
        }
        let copy = FyfthInterpreter {
            stack,
            queue,
            vars: self.vars.clone(),
            lang: share(&self.lang),
        };
        proof {
            assert(views(copy.stack@) =~= views(self.stack@));
            assert(views(copy.queue@) =~= views(self.queue@));
        }
        copy
    }
}

} // verus!
