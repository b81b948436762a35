//! The engine's rules as mathematics: what each control word does to the
//! stack, the queue and the variables.

use vstd::prelude::*;
use crate::host::FyfthError;
use crate::num::truncated;
use crate::variant::{is_value, FyfthValue};

verus! {

/// What an interpreter holds: the stack with its top last, the queue with its
/// front first, and the variables.
pub struct FyfthState {
    pub stack: Seq<FyfthValue>,
    pub queue: Seq<FyfthValue>,
    pub vars: Map<Seq<char>, FyfthValue>,
}

/// What a step leaves: the state after it, and the error if it failed.
pub struct FyfthStep {
    pub state: FyfthState,
    pub error: Option<FyfthError>,
}

/// A step that succeeded.
pub open spec fn done(state: FyfthState) -> FyfthStep {
    FyfthStep { state, error: None }
}

/// A step that failed.
pub open spec fn failed(state: FyfthState, error: FyfthError) -> FyfthStep {
    FyfthStep { state, error: Some(error) }
}

/// `state` with another stack.
pub open spec fn with_stack(state: FyfthState, stack: Seq<FyfthValue>) -> FyfthState {
    FyfthState { stack, queue: state.queue, vars: state.vars }
}

/// `iter`: the whole stack becomes one sequence, the only item of the stack.
pub open spec fn collect_step(state: FyfthState) -> FyfthStep {
    done(with_stack(state, seq![FyfthValue::Iter(state.stack)]))
}

/// `dup`: the top of the stack once more; nothing on an empty stack.
pub open spec fn dup_step(state: FyfthState) -> FyfthStep {
    if state.stack.len() == 0 {
        done(state)
    } else {
        done(with_stack(state, state.stack.push(state.stack.last())))
    }
}

/// `swap`: the two topmost items change places. With fewer than two items it
/// fails, and the stack is left empty.
pub open spec fn swap_step(state: FyfthState) -> FyfthStep {
    let n = state.stack.len() as int;
    if n >= 2 {
        done(with_stack(state, swapped(state.stack)))
    } else {
        failed(with_stack(state, Seq::empty()), FyfthError::SyntaxError)
    }
}

/// `swap_n`: takes a number N off the stack, then the top changes places with
/// the item N places below it. It fails without a number on top, and unless
/// N is zero or above and N + 1 is below the number of items that are left.
pub open spec fn swap_n_step(state: FyfthState) -> FyfthStep {
    if state.stack.len() == 0 {
        failed(state, FyfthError::SyntaxError)
    } else {
        let rest = state.stack.drop_last();
        let m = rest.len() as int;
        match state.stack.last() {
            FyfthValue::Num(number) => {
                let k = truncated(number.bits);
                if k < 0 || k + 1 >= m {
                    failed(with_stack(state, rest), FyfthError::DomainError)
                } else {
                    done(
                        with_stack(state, rest.update(m - 1 - k, rest[m - 1]).update(m - 1, rest[m - 1 - k])),
                    )
                }
            },
            _ => failed(with_stack(state, rest), FyfthError::SyntaxError),
        }
    }
}

/// The items with the last one moved to the place `size` from the end.
pub open spec fn rotated_right(items: Seq<FyfthValue>, size: int) -> Seq<FyfthValue> {
    items.drop_last().insert(items.len() - size, items.last())
}

/// The items with the one at the place `size` from the end moved to the end.
pub open spec fn rotated_left(items: Seq<FyfthValue>, size: int) -> Seq<FyfthValue> {
    items.remove(items.len() - size).push(items[items.len() - size])
}

/// `rotl` undoes `rotr` of the same size, and `rotr` undoes `rotl`.
pub proof fn lemma_rotations_are_inverse(items: Seq<FyfthValue>, size: int)
    requires
        1 <= size <= items.len(),
    ensures
        rotated_left(rotated_right(items, size), size) == items,
        rotated_right(rotated_left(items, size), size) == items,
        rotated_right(items, size).len() == items.len(),
        rotated_left(items, size).len() == items.len(),
{
    assert(rotated_left(rotated_right(items, size), size) =~= items);
    assert(rotated_right(rotated_left(items, size), size) =~= items);
}

/// What `swap` makes of a stack of two or more items.
pub open spec fn swapped(items: Seq<FyfthValue>) -> Seq<FyfthValue> {
    items.take(items.len() - 2).push(items[items.len() - 1]).push(items[items.len() - 2])
}

/// `swap` undoes `swap`.
pub proof fn lemma_swap_is_its_inverse(items: Seq<FyfthValue>)
    requires
        items.len() >= 2,
    ensures
        swapped(swapped(items)) == items,
{
    assert(swapped(swapped(items)) =~= items);
}

/// `rotr`: takes a number S off the stack, then the top moves to the place S
/// from the top, the items between moving up by one. It fails without a number
/// on top, and when S is negative or above the number of items left.
pub open spec fn rotr_step(state: FyfthState) -> FyfthStep {
    if state.stack.len() == 0 {
        failed(state, FyfthError::SyntaxError)
    } else {
        let rest = state.stack.drop_last();
        let m = rest.len() as int;
        match state.stack.last() {
            FyfthValue::Num(number) => {
                let size = truncated(number.bits);
                if size < 0 || size > m {
                    failed(with_stack(state, rest), FyfthError::DomainError)
                } else if size <= 1 {
                    done(with_stack(state, rest))
                } else {
                    done(with_stack(state, rotated_right(rest, size)))
                }
            },
            _ => failed(with_stack(state, rest), FyfthError::SyntaxError),
        }
    }
}

/// `rotl`: takes a number S off the stack, then the item at the place S from
/// the top moves to the top, the items above it moving down by one. It fails as
/// `rotr` does.
pub open spec fn rotl_step(state: FyfthState) -> FyfthStep {
    if state.stack.len() == 0 {
        failed(state, FyfthError::SyntaxError)
    } else {
        let rest = state.stack.drop_last();
        let m = rest.len() as int;
        match state.stack.last() {
            FyfthValue::Num(number) => {
                let size = truncated(number.bits);
                if size < 0 || size > m {
                    failed(with_stack(state, rest), FyfthError::DomainError)
                } else if size <= 1 {
                    done(with_stack(state, rest))
                } else {
                    done(with_stack(state, rotated_left(rest, size)))
                }
            },
            _ => failed(with_stack(state, rest), FyfthError::SyntaxError),
        }
    }
}

/// `queue`: takes a sequence off the stack and puts its items at the front of
/// the queue, in their order. It fails when the top of the stack is no
/// sequence; what was on top is taken off all the same.
pub open spec fn unpack_step(state: FyfthState) -> FyfthStep {
    if state.stack.len() == 0 {
        failed(state, FyfthError::TypeError)
    } else {
        let rest = state.stack.drop_last();
        match state.stack.last() {
            FyfthValue::Iter(items) => done(
                FyfthState { stack: rest, queue: items + state.queue, vars: state.vars },
            ),
            _ => failed(with_stack(state, rest), FyfthError::TypeError),
        }
    }
}

/// `push`: takes a sequence off the stack and puts its items onto the stack,
/// in their order. It fails as `queue` does.
pub open spec fn spread_step(state: FyfthState) -> FyfthStep {
    if state.stack.len() == 0 {
        failed(state, FyfthError::TypeError)
    } else {
        let rest = state.stack.drop_last();
        match state.stack.last() {
            FyfthValue::Iter(items) => done(with_stack(state, rest + items)),
            _ => failed(with_stack(state, rest), FyfthError::TypeError),
        }
    }
}

/// Where the body of a macro ends: the position at or after `from` of the `;`
/// that closes it, when `depth` macros are open at `from`; the length of the
/// queue if none closes it. Each `macro` in the body opens one more, each `;`
/// closes one.
pub open spec fn macro_end(queue: Seq<FyfthValue>, from: int, depth: int) -> int
    decreases queue.len() - from,
{
    if from >= queue.len() {
        queue.len() as int
    } else {
        match queue[from] {
            FyfthValue::Macro => macro_end(queue, from + 1, depth + 1),
            FyfthValue::LineEnd => if depth <= 1 {
                from
            } else {
                macro_end(queue, from + 1, depth - 1)
            },
            _ => macro_end(queue, from + 1, depth),
        }
    }
}

/// `macro`: the next entry of the queue is the macro's name, a text. What
/// follows it up to the `;` that closes the macro leaves the queue and is
/// bound to the name, as a sequence that is not run. The closing `;` stays.
/// It fails when the next entry is no text; that entry is taken off all the same.
pub open spec fn define_step(state: FyfthState) -> FyfthStep {
    if state.queue.len() == 0 {
        failed(state, FyfthError::SyntaxError)
    } else {
        let rest = state.queue.drop_first();
        match state.queue[0] {
            FyfthValue::Literal(name) => {
                let end = macro_end(rest, 0, 1);
                done(
                    FyfthState {
                        stack: state.stack,
                        queue: rest.skip(end),
                        vars: state.vars.insert(name, FyfthValue::Iter(rest.take(end))),
                    },
                )
            },
            _ => failed(
                FyfthState { stack: state.stack, queue: rest, vars: state.vars },
                FyfthError::SyntaxError,
            ),
        }
    }
}

/// An entry that the engine handles by itself: every entry but a command.
pub open spec fn is_plain(entry: FyfthValue) -> bool {
    !(entry is LangFunc)
}

/// What the engine does with `entry`, an entry that is no command, once it
/// has left the queue of `state`.
pub open spec fn plain_step(entry: FyfthValue, state: FyfthState) -> FyfthStep {
    match entry {
        FyfthValue::LineEnd => done(state),
        FyfthValue::FnIter => collect_step(state),
        FyfthValue::Macro => define_step(state),
        FyfthValue::FnQueue => unpack_step(state),
        FyfthValue::FnPush => spread_step(state),
        FyfthValue::FnDup => dup_step(state),
        FyfthValue::FnSwap => swap_step(state),
        FyfthValue::FnSwapN => swap_n_step(state),
        FyfthValue::FnRotRN => rotr_step(state),
        FyfthValue::FnRotLN => rotl_step(state),
        _ => done(with_stack(state, state.stack.push(entry))),
    }
}

/// The end of a macro's body lies within the queue.
pub proof fn lemma_macro_end_bounds(queue: Seq<FyfthValue>, from: int, depth: int)
    requires
        0 <= from <= queue.len(),
    ensures
        from <= macro_end(queue, from, depth) <= queue.len(),
    decreases queue.len() - from,
{
    if from < queue.len() {
        match queue[from] {
            FyfthValue::Macro => lemma_macro_end_bounds(queue, from + 1, depth + 1),
            FyfthValue::LineEnd => if depth > 1 {
                lemma_macro_end_bounds(queue, from + 1, depth - 1)
            },
            _ => lemma_macro_end_bounds(queue, from + 1, depth),
        }
    }
}

/// A step of the engine itself fails with a syntax, type or domain error only.
pub proof fn lemma_plain_errors(entry: FyfthValue, state: FyfthState)
    ensures
        plain_step(entry, state).error != Some(FyfthError::IterationLimitExceeded),
        plain_step(entry, state).error != Some(FyfthError::LexError),
{
}

/// A value that leaves the queue lands on top of the stack.
pub proof fn lemma_value_is_pushed(entry: FyfthValue, state: FyfthState)
    requires
        is_value(entry),
    ensures
        plain_step(entry, state) == done(with_stack(state, state.stack.push(entry))),
{
}

} // verus!
