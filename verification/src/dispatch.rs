//! How a command is called: which arguments it takes off the stack, when it
//! is applied to the items of its sequence arguments one by one, and what
//! becomes of its results.

use vstd::prelude::*;
use crate::commands::{
    append_outcome, eq_outcome, extend_outcome, filter_outcome, fuzzy_outcome, geq_outcome,
    get_outcome, index_outcome, leq_outcome, load_outcome, not_outcome, pop_outcome, result_value,
    reverse_outcome, select_outcome, set_outcome, store_outcome, store_vars, vec2_outcome,
    vec3_outcome,
};
use crate::environment::FyfthEnvironment;
use crate::host::{FyfthCommandError, FyfthContext, FyfthHost};
use crate::language::{
    accepts_arity, FnInfo, FyfthBroadcastBehavior, FyfthCommandSpec, FyfthFunc,
    FyfthLanguageExtension,
};
use crate::output::{
    extends, lemma_extends_self, lemma_extends_transitive, lemma_reports, put, report, reports,
};
use crate::regex_command::{regex_outcome, regex_vars};
use crate::text::{decimal, push_decimal};
use crate::variant::{lemma_iter_view, views, FyfthValue, FyfthVariant};

verus! {

/// What a command leaves: what it returns and the variables after it.
pub struct FyfthOutcome {
    pub result: Result<Option<FyfthValue>, FyfthCommandError>,
    pub vars: Map<Seq<char>, FyfthValue>,
}

/// What a command of the base vocabulary leaves, where its arguments and the
/// variables decide it. Where the host has a say, this is `None`.
pub open spec fn decided(
    func: FyfthFunc,
    args: Seq<FyfthValue>,
    vars: Map<Seq<char>, FyfthValue>,
) -> Option<
    FyfthOutcome,
> {
    match func {
        FyfthFunc::GetValue => match get_outcome(args) {
            Some(result) => Some(FyfthOutcome { result, vars }),
            None => None,
        },
        FyfthFunc::SetValue => match set_outcome(args) {
            Some(result) => Some(FyfthOutcome { result, vars }),
            None => None,
        },
        FyfthFunc::Store => Some(
            FyfthOutcome { result: store_outcome(args), vars: store_vars(args, vars) },
        ),
        FyfthFunc::Load => Some(FyfthOutcome { result: load_outcome(args, vars), vars }),
        FyfthFunc::Geq => Some(FyfthOutcome { result: geq_outcome(args), vars }),
        FyfthFunc::Leq => Some(FyfthOutcome { result: leq_outcome(args), vars }),
        FyfthFunc::Eq => Some(FyfthOutcome { result: eq_outcome(args), vars }),
        FyfthFunc::Not => Some(FyfthOutcome { result: not_outcome(args), vars }),
        FyfthFunc::Pop => Some(FyfthOutcome { result: pop_outcome(args), vars }),
        FyfthFunc::Index => Some(FyfthOutcome { result: index_outcome(args), vars }),
        FyfthFunc::Append => Some(FyfthOutcome { result: append_outcome(args), vars }),
        FyfthFunc::Extend => Some(FyfthOutcome { result: extend_outcome(args), vars }),
        FyfthFunc::Reverse => Some(FyfthOutcome { result: reverse_outcome(args), vars }),
        FyfthFunc::Filter => Some(FyfthOutcome { result: filter_outcome(args), vars }),
        FyfthFunc::Select => Some(FyfthOutcome { result: select_outcome(args), vars }),
        FyfthFunc::Vec2 => Some(FyfthOutcome { result: vec2_outcome(args), vars }),
        FyfthFunc::Vec3 => Some(FyfthOutcome { result: vec3_outcome(args), vars }),
        FyfthFunc::Fuzzy => Some(FyfthOutcome { result: fuzzy_outcome(args), vars }),
        FyfthFunc::Regex => Some(
            FyfthOutcome { result: regex_outcome(args), vars: regex_vars(args, vars) },
        ),
        _ => None,
    }
}

/// The commands that leave the variables as they are: all of the base
/// vocabulary but `store` and `regex`.
pub open spec fn keeps_vars(func: FyfthFunc) -> bool {
    !(func is Store || func is Regex || func is Host)
}

/// Carries out a command on its arguments. A command of the host writes to a
/// text of its own, which is added to the output.
pub fn call_command<H: FyfthHost>(
    ctx: FyfthContext<'_, H>,
    func: FyfthFunc,
    args: &[FyfthVariant],
) -> (result:
    Result<Option<FyfthVariant>, FyfthCommandError>)
    requires
        accepts_arity(func, args@.len()),
    ensures
        decided(func, views(args@), old(ctx.vars)@) matches Some(outcome) ==> result_value(result)
            == outcome.result && final(ctx.vars)@ == outcome.vars,
        keeps_vars(func) ==> final(ctx.vars)@ == old(ctx.vars)@,
        result is Err ==> reports(old(ctx.output)@, final(ctx.output)@),
        result is Ok ==> extends(old(ctx.output)@, final(ctx.output)@),
{
    proof {
        lemma_extends_self(ctx.output@);
    }
    match func {
        FyfthFunc::Entities => crate::host_commands::fyfth_func_entities(ctx, args),
        FyfthFunc::GetValue => crate::commands::fyfth_func_get(ctx, args),
        FyfthFunc::SetValue => crate::commands::fyfth_func_set(ctx, args),
        FyfthFunc::Add => crate::host_commands::fyfth_func_add(ctx, args),
        FyfthFunc::Sub => crate::host_commands::fyfth_func_sub(ctx, args),
        FyfthFunc::Mul => crate::host_commands::fyfth_func_mul(ctx, args),
        FyfthFunc::Div => crate::host_commands::fyfth_func_div(ctx, args),
        FyfthFunc::Print => crate::host_commands::fyfth_func_print(ctx, args),
        FyfthFunc::Store => crate::commands::fyfth_func_store(ctx, args),
        FyfthFunc::Load => crate::commands::fyfth_func_load(ctx, args),
        FyfthFunc::PrintVars => crate::host_commands::fyfth_func_print_vars(ctx, args),
        FyfthFunc::Geq => crate::commands::fyfth_func_geq(ctx, args),
        FyfthFunc::Leq => crate::commands::fyfth_func_leq(ctx, args),
        FyfthFunc::Eq => crate::commands::fyfth_func_eq(ctx, args),
        FyfthFunc::Not => crate::commands::fyfth_func_not(ctx, args),
        FyfthFunc::Name => crate::host_commands::fyfth_func_name(ctx, args),
        FyfthFunc::Pop => crate::commands::fyfth_func_pop(ctx, args),
        FyfthFunc::Index => crate::commands::fyfth_func_index(ctx, args),
        FyfthFunc::Enum => crate::commands::fyfth_func_enum(ctx, args),
        FyfthFunc::Len => crate::commands::fyfth_func_len(ctx, args),
        FyfthFunc::Type => crate::commands::fyfth_func_type(ctx, args),
        FyfthFunc::Append => crate::commands::fyfth_func_append(ctx, args),
        FyfthFunc::Extend => crate::commands::fyfth_func_extend(ctx, args),
        FyfthFunc::Reverse => crate::commands::fyfth_func_reverse(ctx, args),
        FyfthFunc::Filter => crate::commands::fyfth_func_filter(ctx, args),
        FyfthFunc::Select => crate::commands::fyfth_func_select(ctx, args),
        FyfthFunc::Mod => crate::commands::fyfth_func_mod(ctx, args),
        FyfthFunc::Vec2 => crate::commands::fyfth_func_vec2(ctx, args),
        FyfthFunc::Vec3 => crate::commands::fyfth_func_vec3(ctx, args),
        FyfthFunc::Quat => crate::host_commands::fyfth_func_quat(ctx, args),
        FyfthFunc::Fuzzy => crate::commands::fyfth_func_fuzzy(ctx, args),
        FyfthFunc::Regex => crate::regex_command::fyfth_func_regex(ctx, args),
        FyfthFunc::Sin => crate::host_commands::fyfth_func_sin(ctx, args),
        FyfthFunc::Cos => crate::host_commands::fyfth_func_cos(ctx, args),
        FyfthFunc::Tan => crate::host_commands::fyfth_func_tan(ctx, args),
        FyfthFunc::Atan => crate::host_commands::fyfth_func_atan(ctx, args),
        FyfthFunc::Atan2 => crate::host_commands::fyfth_func_atan2(ctx, args),
        FyfthFunc::Host(code) => {
            let mut text = String::new();
            let result = ctx.world.call(code, &mut text, ctx.vars, ctx.lang, args);
            let ghost before = ctx.output@;
            if result.is_err() && text.as_str().is_empty() {
                report(ctx.output, "Error: the command failed");
            } else {
                put(ctx.output, text.as_str());
                proof {
                    if text@.len() > 0 {
                        lemma_reports(before, text@);
                    }
                }
            }
            result
        },
    }
}

/// The argument at `at` is a sequence whose items the command is applied to.
pub open spec fn is_spread(
    behaviors: Seq<FyfthBroadcastBehavior>,
    args: Seq<FyfthValue>,
    at: int,
) -> bool {
    0 <= at < behaviors.len() && at < args.len() && behaviors[at] == FyfthBroadcastBehavior::MayIter
        && args[at] is Iter
}

/// The argument at `at` could be a sequence of items to apply the command to,
/// but is no sequence.
pub open spec fn is_lone(
    behaviors: Seq<FyfthBroadcastBehavior>,
    args: Seq<FyfthValue>,
    at: int,
) -> bool {
    0 <= at < behaviors.len() && at < args.len() && behaviors[at] == FyfthBroadcastBehavior::MayIter
        && !(args[at] is Iter)
}

/// How a command is to be called.
#[derive(Debug, Clone, Copy, PartialEq, Eq, Structural)]
pub enum FyfthPlan {
    /// Once, with the arguments as they are.
    Single,
    /// Once for each position below this count, with the item at that position
    /// in place of each sequence argument that is applied item by item.
    Each(usize),
    /// Not at all: the arguments do not fit together.
    Fail(FyfthCommandError),
}

/// How a command is to be called. It is applied item by item as soon as one
/// argument that may be is a sequence. Then every argument that may be a
/// sequence must be one, or the call is a type error; and all those sequences
/// must have one length, or the call is a domain error.
pub open spec fn broadcast_plan(
    behaviors: Seq<FyfthBroadcastBehavior>,
    args: Seq<FyfthValue>,
) -> FyfthPlan {
    if !exists|at: int| is_spread(behaviors, args, at) {
        FyfthPlan::Single
    } else if exists|at: int| is_lone(behaviors, args, at) {
        FyfthPlan::Fail(FyfthCommandError::TypeError)
    } else if exists|i: int, j: int|
        is_spread(behaviors, args, i) && is_spread(behaviors, args, j) && args[i]->Iter_0.len()
            != args[j]->Iter_0.len() {
        FyfthPlan::Fail(FyfthCommandError::DomainError)
    } else {
        let first = choose|at: int| is_spread(behaviors, args, at);
        FyfthPlan::Each(args[first]->Iter_0.len() as usize)
    }
}

/// The arguments of the call for the position `index`: the item at `index` in
/// place of each sequence that is applied item by item, the other arguments as
/// they are.
pub open spec fn item_args(
    behaviors: Seq<FyfthBroadcastBehavior>,
    args: Seq<FyfthValue>,
    index: int,
) -> Seq<FyfthValue> {
    Seq::new(
        args.len(),
        |at: int|
            if is_spread(behaviors, args, at) {
                args[at]->Iter_0[index]
            } else {
                args[at]
            },
    )
}

/// How a command with these behaviors is to be called on these arguments.
#[verifier::loop_isolation(false)]
pub fn plan_call(
    behaviors: &Vec<FyfthBroadcastBehavior>,
    args: &Vec<FyfthVariant>,
) -> (plan: FyfthPlan)
    requires
        behaviors.len() == args.len(),
    ensures
        plan == broadcast_plan(behaviors@, views(args@)),
        plan matches FyfthPlan::Each(count) ==> forall|at: int|
            is_spread(behaviors@, views(args@), at) ==> (#[trigger] views(args@)[at])->Iter_0.len()
                == count,
{
    let ghost shown = views(args@);
    let mut first: Option<usize> = None;
    let mut lone = false;
    let mut uneven = false;
    let mut at: usize = 0;
    while at < args.len()
        invariant
            at <= args.len(),
            lone <==> exists|i: int| i < at && is_lone(behaviors@, shown, i),
            first is None <==> !exists|i: int| i < at && is_spread(behaviors@, shown, i),
            first matches Some(count) ==> exists|i: int|
                i < at && is_spread(behaviors@, shown, i) && shown[i]->Iter_0.len() == count,
            uneven <==> exists|i: int, j: int|
                i < at && j < at && is_spread(behaviors@, shown, i) && is_spread(
                    behaviors@,
                    shown,
                    j,
                ) && shown[i]->Iter_0.len() != shown[j]->Iter_0.len(),
            !uneven && first is Some ==> forall|i: int|
                i < at && is_spread(behaviors@, shown, i) ==> (#[trigger] shown[i])->Iter_0.len()
                    == first->0,
        decreases args.len() - at,
    {
        let ghost was_uneven = uneven;
        let ghost was_first = first;
        match behaviors[at] {
            FyfthBroadcastBehavior::MayIter => {
                match &args[at] {
                    FyfthVariant::Iter(items) => {
                        proof {
                            lemma_iter_view(*items);
                        }
                        assert(is_spread(behaviors@, shown, at as int));
                        match first {
                            None => {
                                first = Some(items.len());
                            },
                            Some(count) => {
                                if items.len() != count {
                                    uneven = true;
                                }
                            },
                        }
                    },
                    _ => {
                        assert(is_lone(behaviors@, shown, at as int));
                        lone = true;
                    },
                }
            },
            FyfthBroadcastBehavior::IgnoreIter => {},
        }
        proof {
            if was_uneven {
                let (i, j) = choose|i: int, j: int|
                    i < at && j < at && is_spread(behaviors@, shown, i) && is_spread(
                        behaviors@,
                        shown,
                        j,
                    ) && shown[i]->Iter_0.len() != shown[j]->Iter_0.len();
                assert(i < at + 1 && j < at + 1);
            }
            if uneven && !was_uneven {
                let i = choose|i: int|
                    i < at && is_spread(behaviors@, shown, i) && shown[i]->Iter_0.len()
                        == was_first->0;
                assert(i < at + 1 && (at as int) < at + 1 && shown[i]->Iter_0.len()
                    != shown[at as int]->Iter_0.len());
            }
            if !uneven {
                assert forall|i: int, j: int|
                    i < at + 1 && j < at + 1 && is_spread(behaviors@, shown, i) && is_spread(
                        behaviors@,
                        shown,
                        j,
                    ) implies shown[i]->Iter_0.len() == shown[j]->Iter_0.len() by {
                    if was_first is Some {
                        if i < at {
                            assert(shown[i]->Iter_0.len() == was_first->0);
                        }
                        if j < at {
                            assert(shown[j]->Iter_0.len() == was_first->0);
                        }
                    }
                }
            }
            if first is Some && was_first is None {
                assert(is_spread(behaviors@, shown, at as int) && (at as int) < at + 1);
            }
            if was_first is Some {
                let i = choose|i: int|
                    i < at && is_spread(behaviors@, shown, i) && shown[i]->Iter_0.len()
                        == was_first->0;
                assert(i < at + 1);
            }
            if lone {
                if is_lone(behaviors@, shown, at as int) {
                    assert((at as int) < at + 1);
                } else {
                    let i = choose|i: int| i < at && is_lone(behaviors@, shown, i);
                    assert(i < at + 1);
                }
            }
        }
        at += 1;
    }
    proof {
        assert forall|i: int| is_spread(behaviors@, shown, i) implies i < at by {}
        assert forall|i: int| is_lone(behaviors@, shown, i) implies i < at by {}
    }
    match first {
        None => FyfthPlan::Single,
        Some(count) => {
            if lone {
                FyfthPlan::Fail(FyfthCommandError::TypeError)
            } else if uneven {
                FyfthPlan::Fail(FyfthCommandError::DomainError)
            } else {
                proof {
                    let chosen = choose|at: int| is_spread(behaviors@, shown, at);
                    assert(shown[chosen]->Iter_0.len() == count);
                }
                FyfthPlan::Each(count)
            }
        },
    }
}

/// The arguments of the call for the position `index`.
#[verifier::loop_isolation(false)]
pub fn broadcast_args(
    behaviors: &Vec<FyfthBroadcastBehavior>,
    args: &Vec<FyfthVariant>,
    index: usize,
) -> (items: Vec<FyfthVariant>)
    requires
        behaviors.len() == args.len(),
        forall|at: int|
            is_spread(behaviors@, views(args@), at) ==> index < (#[trigger] views(
                args@,
            )[at])->Iter_0.len(),
    ensures
        views(items@) == item_args(behaviors@, views(args@), index as int),
{
    let ghost shown = views(args@);
    let mut items: Vec<FyfthVariant> = Vec::new();
    let mut at: usize = 0;
    while at < args.len()
        invariant
            at <= args.len(),
            items.len() == at,
            forall|j: int|
                0 <= j < at ==> items@[j]@ == item_args(behaviors@, shown, index as int)[j],
        decreases args.len() - at,
    {
        let item = match (behaviors[at], &args[at]) {
            (FyfthBroadcastBehavior::MayIter, FyfthVariant::Iter(inner)) => {
                proof {
                    lemma_iter_view(*inner);
                    assert(is_spread(behaviors@, shown, at as int));
                    assert(index < shown[at as int]->Iter_0.len());
                }
                inner[index].clone()
            },
            _ => args[at].clone(),
        };
        items.push(item);
        at += 1;
    }
    assert(views(items@) =~= item_args(behaviors@, shown, index as int));
    items
}

/// The values of a list of results that are there, in order.
pub open spec fn present_values(replies: Seq<Option<FyfthValue>>) -> Seq<FyfthValue>
    decreases replies.len(),
{
    if replies.len() == 0 {
        Seq::empty()
    } else {
        let before = present_values(replies.drop_last());
        match replies.last() {
            Some(value) => before.push(value),
            None => before,
        }
    }
}

/// The results of a list, as values of the mathematical model.
pub open spec fn reply_views(replies: Seq<Option<FyfthVariant>>) -> Seq<Option<FyfthValue>> {
    Seq::new(
        replies.len(),
        |i: int|
            match replies[i] {
                Some(value) => Some(value@),
                None => None,
            },
    )
}

/// The sequence of the results of the calls of a command on the items of its
/// arguments: the values that the calls returned, in the order of the calls;
/// a call that returned nothing leaves no trace.
#[verifier::loop_isolation(false)]
pub fn collect_replies(replies: Vec<Option<FyfthVariant>>) -> (collected: FyfthVariant)
    ensures
        collected@ == FyfthValue::Iter(present_values(reply_views(replies@))),
{
    let ghost all = reply_views(replies@);
    let mut replies = replies;
    let mut kept: Vec<FyfthVariant> = Vec::new();
    let mut done: usize = 0;
    assert(all.take(0) =~= Seq::<Option<FyfthValue>>::empty());
    while done < replies.len()
        invariant
            done <= replies.len(),
            replies.len() == all.len(),
            forall|i: int|
                done <= i < replies.len() ==> (match #[trigger] replies@[i] {
                    Some(value) => Some(value@),
                    None => None,
                }) == all[i],
            views(kept@) == present_values(all.take(done as int)),
        decreases replies.len() - done,
    {
        let ghost before = views(kept@);
        let ghost current = replies@[done as int];
        proof {
            assert(all.take(done as int + 1).drop_last() =~= all.take(done as int));
            assert(all.take(done as int + 1).last() == all[done as int]);
            assert((match current {
                Some(value) => Some(value@),
                None => None,
            }) == all[done as int]);
        }
        let mut slot: Option<FyfthVariant> = None;
        replies.set_and_swap(done, &mut slot);
        match slot {
            Some(value) => {
                kept.push(value);
                assert(views(kept@) =~= before.push(all[done as int]->0));
            },
            None => {},
        }
        done += 1;
    }
    proof {
        assert(all.take(done as int) =~= all);
        lemma_iter_view(kept);
    }
    FyfthVariant::Iter(kept)
}

/// Where every call returned a value, the sequence of the results is as long
/// as the list of the calls.
pub proof fn lemma_all_present(replies: Seq<Option<FyfthValue>>)
    requires
        forall|i: int| 0 <= i < replies.len() ==> (#[trigger] replies[i]) is Some,
    ensures
        present_values(replies).len() == replies.len(),
        forall|i: int| 0 <= i < replies.len() ==> present_values(replies)[i] == replies[i]->0,
    decreases replies.len(),
{
    if replies.len() > 0 {
        let before = replies.drop_last();
        assert forall|i: int| 0 <= i < before.len() implies (#[trigger] before[i]) is Some by {
            assert(before[i] == replies[i]);
        }
        lemma_all_present(before);
        assert forall|i: int| 0 <= i < replies.len() implies present_values(replies)[i]
            == replies[i]->0 by {
            if i < before.len() {
                assert(before[i] == replies[i]);
            }
        }
    }
}

/// The sequence of the results is never longer than the list of the calls.
pub proof fn lemma_present_length(replies: Seq<Option<FyfthValue>>)
    ensures
        present_values(replies).len() <= replies.len(),
    decreases replies.len(),
{
    if replies.len() > 0 {
        lemma_present_length(replies.drop_last());
    }
}

/// The diagnostic of a command that finds too few items on the stack: it
/// names the command, the number of arguments that it takes, and the number
/// of items that the stack holds.
pub open spec fn arity_message(keyword: Seq<char>, arity: nat, depth: nat) -> Seq<char> {
    "Syntax error: function `"@ + keyword + "` expects "@ + decimal(arity)
        + " arguments but stack has only "@ + decimal(depth) + " items"@
}

/// The diagnostic of a command whose arguments do not fit together: it names
/// the command and says what does not fit.
pub open spec fn mismatch_message(keyword: Seq<char>, error: FyfthCommandError) -> Seq<char> {
    "Error: function `"@ + keyword + (if error == FyfthCommandError::DomainError {
        "` cannot combine iterators of differing lengths."@
    } else {
        "` cannot combine iterators with single values."@
    })
}

/// A result of one call fits what the command, its arguments and the
/// variables decide, if they decide it.
pub open spec fn reply_fits(
    func: FyfthFunc,
    args: Seq<FyfthValue>,
    vars: Map<Seq<char>, FyfthValue>,
    reply: Option<FyfthValue>,
) -> bool {
    keeps_vars(func) ==> (decided(func, args, vars) matches Some(outcome) ==> outcome.result == Ok::<
        Option<FyfthValue>,
        FyfthCommandError,
    >(reply))
}

/// The failure of one call fits what the command, its arguments and the
/// variables decide, if they decide it.
pub open spec fn failure_fits(
    func: FyfthFunc,
    args: Seq<FyfthValue>,
    vars: Map<Seq<char>, FyfthValue>,
    error: FyfthCommandError,
) -> bool {
    keeps_vars(func) ==> (decided(func, args, vars) matches Some(outcome) ==> outcome.result
        == Err::<Option<FyfthValue>, FyfthCommandError>(error))
}

/// The results of the calls for the first positions fit: the result at `i` is
/// that of the call for the position `i`.
pub open spec fn replies_fit(
    command: FyfthCommandSpec,
    args: Seq<FyfthValue>,
    vars: Map<Seq<char>, FyfthValue>,
    replies: Seq<Option<FyfthValue>>,
) -> bool {
    forall|i: int|
        0 <= i < replies.len() ==> reply_fits(
            command.func,
            item_args(command.behaviors, args, i),
            vars,
            #[trigger] replies[i],
        )
}

/// What holds after a command has been called once, on the arguments `args`
/// taken off a stack that `base` is left of. If it fails, nothing is put on
/// the stack; if it succeeds, at most the value that it returned. Where the
/// command, its arguments and the variables decide the result, it is that.
pub open spec fn single_holds(
    func: FyfthFunc,
    args: Seq<FyfthValue>,
    vars: Map<Seq<char>, FyfthValue>,
    base: Seq<FyfthValue>,
    stack_after: Seq<FyfthValue>,
    vars_after: Map<Seq<char>, FyfthValue>,
    result: Result<(), FyfthCommandError>,
) -> bool {
    &&& result is Err ==> stack_after == base
    &&& result is Ok ==> (stack_after == base || exists|value: FyfthValue|
        stack_after == base.push(value))
    &&& keeps_vars(func) ==> vars_after == vars
    &&& decided(func, args, vars) matches Some(outcome) ==> vars_after == outcome.vars
        && match outcome.result {
        Ok(Some(value)) => result is Ok && stack_after == base.push(value),
        Ok(None) => result is Ok && stack_after == base,
        Err(error) => result == Err::<(), FyfthCommandError>(error),
    }
}

/// All calls for the `count` positions succeeded with the results `replies`,
/// and the sequence of the values among them was put on the stack.
pub open spec fn each_succeeded(
    command: FyfthCommandSpec,
    args: Seq<FyfthValue>,
    vars: Map<Seq<char>, FyfthValue>,
    base: Seq<FyfthValue>,
    stack_after: Seq<FyfthValue>,
    count: nat,
    replies: Seq<Option<FyfthValue>>,
) -> bool {
    &&& replies.len() == count
    &&& stack_after == base.push(FyfthValue::Iter(present_values(replies)))
    &&& replies_fit(command, args, vars, replies)
}

/// The calls for the first positions succeeded with the results `replies`,
/// and the call for the next position failed with `error`.
pub open spec fn each_failed(
    command: FyfthCommandSpec,
    args: Seq<FyfthValue>,
    vars: Map<Seq<char>, FyfthValue>,
    count: nat,
    error: FyfthCommandError,
    replies: Seq<Option<FyfthValue>>,
) -> bool {
    &&& replies.len() < count
    &&& replies_fit(command, args, vars, replies)
    &&& failure_fits(
        command.func,
        item_args(command.behaviors, args, replies.len() as int),
        vars,
        error,
    )
}

/// What holds after a command has been called for the `count` positions, one
/// after the other. The first call that fails ends the command with its
/// error, and nothing is put on the stack. If all succeed, one sequence is put
/// on the stack: the values that the calls returned, in the order of the calls.
pub open spec fn each_holds(
    command: FyfthCommandSpec,
    args: Seq<FyfthValue>,
    vars: Map<Seq<char>, FyfthValue>,
    base: Seq<FyfthValue>,
    stack_after: Seq<FyfthValue>,
    vars_after: Map<Seq<char>, FyfthValue>,
    result: Result<(), FyfthCommandError>,
    count: nat,
) -> bool {
    &&& keeps_vars(command.func) ==> vars_after == vars
    &&& match result {
        Ok(()) => exists|replies: Seq<Option<FyfthValue>>|
            each_succeeded(command, args, vars, base, stack_after, count, replies),
        Err(error) => stack_after == base && exists|replies: Seq<Option<FyfthValue>>|
            each_failed(command, args, vars, count, error, replies),
    }
}

/// What holds after the call of a command. With fewer items on the stack than
/// the command takes arguments, the call is a syntax error, and stack and
/// variables stay as they are. Else the topmost items leave the stack, the
/// lowest of them as the first argument, and the command is called as
/// [`broadcast_plan`] says.
pub open spec fn call_holds(
    command: FyfthCommandSpec,
    stack: Seq<FyfthValue>,
    vars: Map<Seq<char>, FyfthValue>,
    stack_after: Seq<FyfthValue>,
    vars_after: Map<Seq<char>, FyfthValue>,
    result: Result<(), FyfthCommandError>,
) -> bool {
    let arity = command.behaviors.len() as int;
    if stack.len() < arity {
        result == Err::<(), FyfthCommandError>(FyfthCommandError::SyntaxError) && stack_after
            == stack && vars_after == vars
    } else {
        let base = stack.take(stack.len() - arity);
        let args = stack.skip(stack.len() - arity);
        match broadcast_plan(command.behaviors, args) {
            FyfthPlan::Fail(error) => result == Err::<(), FyfthCommandError>(error) && stack_after
                == base && vars_after == vars,
            FyfthPlan::Single => single_holds(
                command.func,
                args,
                vars,
                base,
                stack_after,
                vars_after,
                result,
            ),
            FyfthPlan::Each(count) => each_holds(
                command,
                args,
                vars,
                base,
                stack_after,
                vars_after,
                result,
                count as nat,
            ),
        }
    }
}

/// Calls a command once for each position below `count`, up to the first
/// call that fails.
#[verifier::loop_isolation(false)]
fn call_each<H: FyfthHost>(
    output: &mut String,
    world: &mut H,
    vars: &mut FyfthEnvironment,
    lang: &FyfthLanguageExtension,
    func: &FnInfo,
    args: &Vec<FyfthVariant>,
    count: usize,
) -> (result: Result<Vec<Option<FyfthVariant>>, FyfthCommandError>)
    requires
        func.broadcast_behaviors.len() == args.len(),
        accepts_arity(func.func, args@.len()),
        forall|at: int|
            is_spread(func.broadcast_behaviors@, views(args@), at) ==> (#[trigger] views(
                args@,
            )[at])->Iter_0.len() == count,
    ensures
        match result {
            Ok(replies) => replies.len() == count && replies_fit(
                func@,
                views(args@),
                old(vars)@,
                reply_views(replies@),
            ),
            Err(error) => exists|replies: Seq<Option<FyfthValue>>|
                each_failed(func@, views(args@), old(vars)@, count as nat, error, replies),
        },
        keeps_vars(func.func) ==> final(vars)@ == old(vars)@,
        result is Err ==> reports(old(output)@, final(output)@),
        result is Ok ==> extends(old(output)@, final(output)@),
{
    let mut replies: Vec<Option<FyfthVariant>> = Vec::new();
    let mut index: usize = 0;
    proof {
        lemma_extends_self(output@);
    }
    while index < count
        invariant
            index <= count,
            replies.len() == index,
            replies_fit(func@, views(args@), old(vars)@, reply_views(replies@)),
            keeps_vars(func.func) ==> vars@ == old(vars)@,
            extends(old(output)@, output@),
        decreases count - index,
    {
        let items = broadcast_args(&func.broadcast_behaviors, args, index);
        assert(views(items@).len() == items@.len());
        assert(views(items@).len() == views(args@).len());
        let ghost before = output@;
        let ghost earlier = reply_views(replies@);
        let reply = call_command(
            FyfthContext { output: &mut *output, world: &mut *world, vars: &mut *vars, lang },
            func.func,
            items.as_slice(),
        );
        proof {
            lemma_extends_transitive(old(output)@, before, output@);
        }
        match reply {
            Ok(value) => {
                replies.push(value);
                proof {
                    assert forall|i: int| 0 <= i < index + 1 implies reply_fits(
                        func.func,
                        item_args(func.broadcast_behaviors@, views(args@), i),
                        old(vars)@,
                        #[trigger] reply_views(replies@)[i],
                    ) by {
                        if i < index {
                            assert(reply_views(replies@)[i] == earlier[i]);
                        }
                    }
                }
            },
            Err(error) => {
                assert(each_failed(func@, views(args@), old(vars)@, count as nat, error, earlier));
                return Err(error);
            },
        }
        index += 1;
    }
    Ok(replies)
}

impl FyfthVariant {
    /// Calls a command on the topmost items of the stack.
    pub fn try_call_func<H: FyfthHost>(
        ctx: FyfthContext<'_, H>,
        func: &FnInfo,
        stack: &mut Vec<FyfthVariant>,
    ) -> (result:
        Result<(), FyfthCommandError>)
        requires
            accepts_arity(func.func, func.broadcast_behaviors@.len()),
        ensures
            call_holds(
                func@,
                views(old(stack)@),
                old(ctx.vars)@,
                views(final(stack)@),
                final(ctx.vars)@,
                result,
            ),
            result is Err ==> reports(old(ctx.output)@, final(ctx.output)@),
            result is Ok ==> extends(old(ctx.output)@, final(ctx.output)@),
            old(stack).len() < func.broadcast_behaviors.len() ==> final(ctx.output)@ == old(ctx.output)@ + arity_message(func.keyword@, func.broadcast_behaviors@.len(), old(stack)@.len()),
            old(stack).len() >= func.broadcast_behaviors.len() ==> (broadcast_plan(
                func.broadcast_behaviors@,
                views(old(stack)@).skip(old(stack).len() - func.broadcast_behaviors.len()),
            ) matches FyfthPlan::Fail(error) ==> final(ctx.output)@ == old(ctx.output)@
                + mismatch_message(func.keyword@, error)),
    {
        let arity = func.broadcast_behaviors.len();
        let ghost shown = views(stack@);
        if stack.len() < arity {
            report(ctx.output, "Syntax error: function `");
            let ghost a = ctx.output@;
            put(ctx.output, func.keyword.as_str());
            let ghost b = ctx.output@;
            put(ctx.output, "` expects ");
            let ghost c = ctx.output@;
            push_decimal(ctx.output, arity as u64);
            let ghost d = ctx.output@;
            put(ctx.output, " arguments but stack has only ");
            let ghost e = ctx.output@;
            push_decimal(ctx.output, stack.len() as u64);
            let ghost f = ctx.output@;
            put(ctx.output, " items");
            proof {
                reveal_strlit("Syntax error: function `");
                assert(d.subrange(0, c.len() as int) =~= c);
                assert(f.subrange(0, e.len() as int) =~= e);
                lemma_extends_transitive(a, b, c);
                lemma_extends_transitive(a, c, d);
                lemma_extends_transitive(a, d, e);
                lemma_extends_transitive(a, e, f);
                lemma_extends_transitive(a, f, ctx.output@);
                lemma_extends_transitive(old(ctx.output)@, a, ctx.output@);
            }
            return Err(FyfthCommandError::SyntaxError);
        }
        let args = stack.split_off(stack.len() - arity);
        let ghost base = views(stack@);
        proof {
            assert(base =~= shown.take(shown.len() - arity));
            assert(views(args@) =~= shown.skip(shown.len() - arity));
        }
        let FyfthContext { output, world, vars, lang } = ctx;
        match plan_call(&func.broadcast_behaviors, &args) {
            FyfthPlan::Fail(error) => {
                report(output, "Error: function `");
                let ghost a = output@;
                put(output, func.keyword.as_str());
                let ghost b = output@;
                match error {
                    FyfthCommandError::DomainError => put(
                        output,
                        "` cannot combine iterators of differing lengths.",
                    ),
                    _ => put(output, "` cannot combine iterators with single values."),
                }
                proof {
                    reveal_strlit("Error: function `");
                    lemma_extends_transitive(a, b, output@);
                    lemma_extends_transitive(old(ctx.output)@, a, output@);
                    assert(output@ =~= old(ctx.output)@ + mismatch_message(func.keyword@, error));
                }
                Err(error)
            },
            FyfthPlan::Single => {
                let reply = call_command(
                    FyfthContext { output, world, vars, lang },
                    func.func,
                    args.as_slice(),
                );
                match reply {
                    Ok(Some(value)) => {
                        stack.push(value);
                        assert(views(stack@) =~= base.push(value@));
                        Ok(())
                    },
                    Ok(None) => Ok(()),
                    Err(error) => Err(error),
                }
            },
            FyfthPlan::Each(count) => {
                match call_each(output, world, vars, lang, func, &args, count) {
                    Ok(replies) => {
                        let ghost shown_replies = reply_views(replies@);
                        let collected = collect_replies(replies);
                        stack.push(collected);
                        proof {
                            assert(views(stack@) =~= base.push(
                                FyfthValue::Iter(present_values(shown_replies)),
                            ));
                            assert(each_succeeded(
                                func@,
                                views(args@),
                                old(ctx.vars)@,
                                base,
                                views(stack@),
                                count as nat,
                                shown_replies,
                            ));
                        }
                        Ok(())
                    },
                    Err(error) => Err(error),
                }
            },
        }
    }
}

/// A command that finds fewer items on the stack than it takes arguments
/// fails with a syntax error, and the stack and the variables stay as they are.
pub proof fn lemma_too_few_arguments(
    command: FyfthCommandSpec,
    stack: Seq<FyfthValue>,
    vars: Map<Seq<char>, FyfthValue>,
    stack_after: Seq<FyfthValue>,
    vars_after: Map<Seq<char>, FyfthValue>,
    result: Result<(), FyfthCommandError>,
)
    requires
        call_holds(command, stack, vars, stack_after, vars_after, result),
        stack.len() < command.behaviors.len(),
    ensures
        result == Err::<(), FyfthCommandError>(FyfthCommandError::SyntaxError),
        stack_after == stack,
        vars_after == vars,
{
}

/// A command that is applied item by item to sequences of different lengths
/// fails with a domain error, and puts nothing on the stack.
pub proof fn lemma_uneven_sequences(
    command: FyfthCommandSpec,
    stack: Seq<FyfthValue>,
    vars: Map<Seq<char>, FyfthValue>,
    stack_after: Seq<FyfthValue>,
    vars_after: Map<Seq<char>, FyfthValue>,
    result: Result<(), FyfthCommandError>,
    first: int,
    second: int,
)
    requires
        call_holds(command, stack, vars, stack_after, vars_after, result),
        stack.len() >= command.behaviors.len(),
        forall|at: int|
            0 <= at < command.behaviors.len() ==> #[trigger] command.behaviors[at]
                == FyfthBroadcastBehavior::MayIter && stack[stack.len() - command.behaviors.len()
                + at] is Iter,
        0 <= first < command.behaviors.len(),
        0 <= second < command.behaviors.len(),
        stack[stack.len() - command.behaviors.len() + first]->Iter_0.len() != stack[stack.len()
            - command.behaviors.len() + second]->Iter_0.len(),
    ensures
        result == Err::<(), FyfthCommandError>(FyfthCommandError::DomainError),
        stack_after == stack.take(stack.len() - command.behaviors.len()),
        vars_after == vars,
{
    let arity = command.behaviors.len() as int;
    let args = stack.skip(stack.len() - arity);
    assert(is_spread(command.behaviors, args, first));
    assert(is_spread(command.behaviors, args, second));
    assert forall|at: int| !is_lone(command.behaviors, args, at) by {
        if 0 <= at < command.behaviors.len() {
            assert(command.behaviors[at] == FyfthBroadcastBehavior::MayIter);
        }
    }
}

/// A command that is applied item by item to sequences of one length, and
/// that returns a value for each position, puts on the stack a sequence of
/// that length.
pub proof fn lemma_even_sequences(
    command: FyfthCommandSpec,
    stack: Seq<FyfthValue>,
    vars: Map<Seq<char>, FyfthValue>,
    stack_after: Seq<FyfthValue>,
    vars_after: Map<Seq<char>, FyfthValue>,
    result: Result<(), FyfthCommandError>,
    count: nat,
)
    requires
        call_holds(command, stack, vars, stack_after, vars_after, result),
        result is Ok,
        command.behaviors.len() > 0,
        stack.len() >= command.behaviors.len(),
        count <= usize::MAX,
        forall|at: int|
            0 <= at < command.behaviors.len() ==> #[trigger] command.behaviors[at]
                == FyfthBroadcastBehavior::MayIter && stack[stack.len() - command.behaviors.len()
                + at] is Iter && stack[stack.len() - command.behaviors.len() + at]->Iter_0.len()
                == count,
    ensures
        stack_after.len() == stack.len() - command.behaviors.len() + 1,
        stack_after.last() matches FyfthValue::Iter(items) && items.len() <= count,
        exists|replies: Seq<Option<FyfthValue>>|
            replies.len() == count && #[trigger] present_values(replies)
                == stack_after.last()->Iter_0,
{
    let arity = command.behaviors.len() as int;
    let args = stack.skip(stack.len() - arity);
    let base = stack.take(stack.len() - arity);
    assert(is_spread(command.behaviors, args, 0)) by {
        assert(command.behaviors[0] == FyfthBroadcastBehavior::MayIter);
    }
    assert forall|at: int| !is_lone(command.behaviors, args, at) by {
        if 0 <= at < command.behaviors.len() {
            assert(command.behaviors[at] == FyfthBroadcastBehavior::MayIter);
        }
    }
    assert forall|i: int, j: int|
        is_spread(command.behaviors, args, i) && is_spread(command.behaviors, args, j) implies args[i]->Iter_0.len()
        == args[j]->Iter_0.len() by {
        assert(command.behaviors[i] == FyfthBroadcastBehavior::MayIter);
        assert(command.behaviors[j] == FyfthBroadcastBehavior::MayIter);
    }
    let chosen = choose|at: int| is_spread(command.behaviors, args, at);
    assert(command.behaviors[chosen] == FyfthBroadcastBehavior::MayIter);
    assert(args[chosen]->Iter_0.len() == count);
    assert(broadcast_plan(command.behaviors, args) == FyfthPlan::Each(count as usize));
    let replies = choose|replies: Seq<Option<FyfthValue>>|
        each_succeeded(command, args, vars, base, stack_after, count, replies);
    lemma_present_length(replies);
    assert(stack_after.last() == FyfthValue::Iter(present_values(replies)));
}

/// The command, the stack and the variables decide what the call of the
/// command leaves: the host has no say in it.
pub open spec fn call_decided(
    command: FyfthCommandSpec,
    stack: Seq<FyfthValue>,
    vars: Map<Seq<char>, FyfthValue>,
) -> bool {
    let arity = command.behaviors.len() as int;
    stack.len() < arity || {
        let args = stack.skip(stack.len() - arity);
        match broadcast_plan(command.behaviors, args) {
            FyfthPlan::Fail(_) => true,
            FyfthPlan::Single => decided(command.func, args, vars) is Some,
            FyfthPlan::Each(count) => keeps_vars(command.func) && forall|i: int|
                0 <= i < count ==> (#[trigger] decided(
                    command.func,
                    item_args(command.behaviors, args, i),
                    vars,
                )) is Some,
        }
    }
}

/// Where the command, the stack and the variables decide the call, all that
/// [`call_holds`] allows is one outcome.
pub proof fn lemma_call_deterministic(
    command: FyfthCommandSpec,
    stack: Seq<FyfthValue>,
    vars: Map<Seq<char>, FyfthValue>,
    first_stack: Seq<FyfthValue>,
    first_vars: Map<Seq<char>, FyfthValue>,
    first: Result<(), FyfthCommandError>,
    second_stack: Seq<FyfthValue>,
    second_vars: Map<Seq<char>, FyfthValue>,
    second: Result<(), FyfthCommandError>,
)
    requires
        call_decided(command, stack, vars),
        call_holds(command, stack, vars, first_stack, first_vars, first),
        call_holds(command, stack, vars, second_stack, second_vars, second),
    ensures
        first == second,
        first_stack == second_stack,
        first_vars == second_vars,
{
    let arity = command.behaviors.len() as int;
    if stack.len() >= arity {
        let base = stack.take(stack.len() - arity);
        let args = stack.skip(stack.len() - arity);
        match broadcast_plan(command.behaviors, args) {
            FyfthPlan::Each(count) => {
                let count = count as nat;
                match (first, second) {
                    (Ok(()), Ok(())) => {
                        let one = choose|replies: Seq<Option<FyfthValue>>|
                            each_succeeded(command, args, vars, base, first_stack, count, replies);
                        let two = choose|replies: Seq<Option<FyfthValue>>|
                            each_succeeded(command, args, vars, base, second_stack, count, replies);
                        assert forall|i: int| 0 <= i < count implies one[i] == two[i] by {
                            let outcome = decided(
                                command.func,
                                item_args(command.behaviors, args, i),
                                vars,
                            );
                            assert(outcome is Some);
                            assert(reply_fits(
                                command.func,
                                item_args(command.behaviors, args, i),
                                vars,
                                one[i],
                            ));
                            assert(reply_fits(
                                command.func,
                                item_args(command.behaviors, args, i),
                                vars,
                                two[i],
                            ));
                        }
                        assert(one =~= two);
                    },
                    (Ok(()), Err(error)) => {
                        let one = choose|replies: Seq<Option<FyfthValue>>|
                            each_succeeded(command, args, vars, base, first_stack, count, replies);
                        let two = choose|replies: Seq<Option<FyfthValue>>|
                            each_failed(command, args, vars, count, error, replies);
                        let at = two.len() as int;
                        assert(decided(command.func, item_args(command.behaviors, args, at), vars) is Some);
                        assert(reply_fits(
                            command.func,
                            item_args(command.behaviors, args, at),
                            vars,
                            one[at],
                        ));
                        assert(failure_fits(
                            command.func,
                            item_args(command.behaviors, args, at),
                            vars,
                            error,
                        ));
                        assert(false);
                    },
                    (Err(error), Ok(())) => {
                        let one = choose|replies: Seq<Option<FyfthValue>>|
                            each_failed(command, args, vars, count, error, replies);
                        let two = choose|replies: Seq<Option<FyfthValue>>|
                            each_succeeded(command, args, vars, base, second_stack, count, replies);
                        let at = one.len() as int;
                        assert(decided(command.func, item_args(command.behaviors, args, at), vars) is Some);
                        assert(reply_fits(
                            command.func,
                            item_args(command.behaviors, args, at),
                            vars,
                            two[at],
                        ));
                        assert(failure_fits(
                            command.func,
                            item_args(command.behaviors, args, at),
                            vars,
                            error,
                        ));
                        assert(false);
                    },
                    (Err(first_error), Err(second_error)) => {
                        let one = choose|replies: Seq<Option<FyfthValue>>|
                            each_failed(command, args, vars, count, first_error, replies);
                        let two = choose|replies: Seq<Option<FyfthValue>>|
                            each_failed(command, args, vars, count, second_error, replies);
                        if one.len() < two.len() {
                            let at = one.len() as int;
                            assert(decided(command.func, item_args(command.behaviors, args, at), vars) is Some);
                            assert(reply_fits(
                                command.func,
                                item_args(command.behaviors, args, at),
                                vars,
                                two[at],
                            ));
                            assert(failure_fits(
                                command.func,
                                item_args(command.behaviors, args, at),
                                vars,
                                first_error,
                            ));
                            assert(false);
                        } else if two.len() < one.len() {
                            let at = two.len() as int;
                            assert(decided(command.func, item_args(command.behaviors, args, at), vars) is Some);
                            assert(reply_fits(
                                command.func,
                                item_args(command.behaviors, args, at),
                                vars,
                                one[at],
                            ));
                            assert(failure_fits(
                                command.func,
                                item_args(command.behaviors, args, at),
                                vars,
                                second_error,
                            ));
                            assert(false);
                        } else {
                            let at = one.len() as int;
                            assert(decided(command.func, item_args(command.behaviors, args, at), vars) is Some);
                            assert(failure_fits(
                                command.func,
                                item_args(command.behaviors, args, at),
                                vars,
                                first_error,
                            ));
                            assert(failure_fits(
                                command.func,
                                item_args(command.behaviors, args, at),
                                vars,
                                second_error,
                            ));
                        }
                    },
                }
            },
            FyfthPlan::Single => {
                assert(decided(command.func, args, vars) is Some);
                match (first, second) {
                    (Ok(()), Ok(())) => {},
                    _ => {},
                }
            },
            FyfthPlan::Fail(_) => {},
        }
    }
    match (first, second) {
        (Ok(one), Ok(two)) => {
            assert(one == two);
            assert(first == second);
        },
        (Err(one), Err(two)) => {
            assert(one == two);
            assert(first == second);
        },
        _ => {
            assert(false);
        },
    }
}

} // verus!
