//! The commands of the base vocabulary whose results follow from their
//! arguments and the variables alone.

use vstd::prelude::*;
use crate::component::{try_find_component_by_name, BevyComponentRegistryError};
use crate::host::{
    FyfthCommandError, FyfthComponentInfo, FyfthContext, FyfthFieldRead, FyfthFieldWrite, FyfthHost,
};
use crate::num::{
    exponent_of, fraction_of, is_whole, num_le, sign_of, truncated, FyfthNum, MILLION_BITS,
};
use crate::output::{lemma_extends_transitive, put, report, reports};
use crate::printer::{kind_name, report_kinds};
use crate::text::{lowercase, str_eq};
use crate::util::{fuzzy_match, is_subsequence};
use crate::variant::{copy_range, lemma_iter_view, values_equal, views, FyfthValue, FyfthVariant};

verus! {

/// What a command returned, as a value of the mathematical model.
pub open spec fn result_value(result: Result<Option<FyfthVariant>, FyfthCommandError>) -> Result<
    Option<FyfthValue>,
    FyfthCommandError,
> {
    match result {
        Ok(Some(value)) => Ok(Some(value@)),
        Ok(None) => Ok(None),
        Err(error) => Err(error),
    }
}

/// A command that succeeds leaves the output as it is; one that fails adds a
/// diagnostic.
pub open spec fn told(failed: bool, before: Seq<char>, after: Seq<char>) -> bool {
    if failed {
        reports(before, after)
    } else {
        after == before
    }
}

/// The position that a number names in a sequence of `len` items: a number
/// that is zero or above names the position it truncates to; any other names
/// the position that many places before the end.
pub open spec fn resolve_index(number: FyfthNum, len: nat) -> int {
    if num_le(0, number.bits) {
        truncated(number.bits)
    } else {
        len + truncated(number.bits)
    }
}

/// A negative index counts from the end: it names the position `len + index`.
pub proof fn lemma_negative_index(number: FyfthNum, len: nat)
    requires
        truncated(number.bits) < 0,
    ensures
        resolve_index(number, len) == len + truncated(number.bits),
{
}

/// The item of `items` that `number` names, or a domain error if it names none.
pub open spec fn item_at(items: Seq<FyfthValue>, number: FyfthNum) -> Result<
    Option<FyfthValue>,
    FyfthCommandError,
> {
    let index = resolve_index(number, items.len());
    if 0 <= index < items.len() {
        Ok(Some(items[index]))
    } else {
        Err(FyfthCommandError::DomainError)
    }
}

/// The position that `number` names in a sequence of `len` items, if it names one.
pub fn resolve(number: FyfthNum, len: usize) -> (position: Option<usize>)
    ensures
        match position {
            Some(at) => at == resolve_index(number, len as nat) && at < len,
            None => !(0 <= resolve_index(number, len as nat) < len),
        },
{
    let whole: i128 = number.truncate() as i128;
    let index: i128 = if number.is_non_negative() {
        whole
    } else {
        len as i128 + whole
    };
    if 0 <= index && index < len as i128 {
        Some(index as usize)
    } else {
        None
    }
}

/// `index`: the item of a sequence that a number names.
pub open spec fn index_outcome(
    args: Seq<FyfthValue>,
) -> Result<Option<FyfthValue>, FyfthCommandError> {
    match (args[0], args[1]) {
        (FyfthValue::Iter(items), FyfthValue::Num(number)) => item_at(items, number),
        _ => Err(FyfthCommandError::TypeError),
    }
}

/// `index`: the item of the sequence `args[0]` that the number `args[1]` names.
pub fn fyfth_func_index<H: FyfthHost>(ctx: FyfthContext<'_, H>, args: &[FyfthVariant]) -> (result:
    Result<Option<FyfthVariant>, FyfthCommandError>)
    requires
        args.len() == 2,
    ensures
        result_value(result) == index_outcome(views(args@)),
        final(ctx.vars)@ == old(ctx.vars)@,
        told(result is Err, old(ctx.output)@, final(ctx.output)@),
{
    match (&args[0], &args[1]) {
        (FyfthVariant::Iter(items), FyfthVariant::Num(number)) => {
            proof {
                lemma_iter_view(*items);
            }
            match resolve(*number, items.len()) {
                Some(at) => Ok(Some(items[at].clone())),
                None => {
                    report(ctx.output, "Error: index out of range for the iterator.");
                    Err(FyfthCommandError::DomainError)
                },
            }
        },
        _ => {
            report(ctx.output, "Syntax error: the operation `index` needs to operate on `iter num`.");
            Err(FyfthCommandError::TypeError)
        },
    }
}

/// `append`: a sequence with one more item at its end.
pub open spec fn append_outcome(
    args: Seq<FyfthValue>,
) -> Result<Option<FyfthValue>, FyfthCommandError> {
    match args[0] {
        FyfthValue::Iter(items) => Ok(Some(FyfthValue::Iter(items.push(args[1])))),
        _ => Err(FyfthCommandError::TypeError),
    }
}

/// `append`: the sequence `args[0]` with `args[1]` added at its end.
pub fn fyfth_func_append<H: FyfthHost>(ctx: FyfthContext<'_, H>, args: &[FyfthVariant]) -> (result:
    Result<Option<FyfthVariant>, FyfthCommandError>)
    requires
        args.len() == 2,
    ensures
        result_value(result) == append_outcome(views(args@)),
        final(ctx.vars)@ == old(ctx.vars)@,
        told(result is Err, old(ctx.output)@, final(ctx.output)@),
{
    match &args[0] {
        FyfthVariant::Iter(items) => {
            let mut longer = copy_range(items, 0, items.len());
            let ghost copied = views(longer@);
            longer.push(args[1].clone());
            proof {
                lemma_iter_view(*items);
                lemma_iter_view(longer);
                assert(copied =~= views(items@));
                assert(views(longer@) =~= copied.push(args[1]@));
            }
            Ok(Some(FyfthVariant::Iter(longer)))
        },
        _ => {
            report(ctx.output, "Syntax error: the operation `append` needs to operate on `iter X`.");
            Err(FyfthCommandError::TypeError)
        },
    }
}

/// `extend`: two sequences, one after the other.
pub open spec fn extend_outcome(
    args: Seq<FyfthValue>,
) -> Result<Option<FyfthValue>, FyfthCommandError> {
    match (args[0], args[1]) {
        (FyfthValue::Iter(first), FyfthValue::Iter(second)) => Ok(
            Some(FyfthValue::Iter(first + second)),
        ),
        _ => Err(FyfthCommandError::TypeError),
    }
}

/// `extend`: the items of the sequence `args[0]`, then those of `args[1]`.
pub fn fyfth_func_extend<H: FyfthHost>(ctx: FyfthContext<'_, H>, args: &[FyfthVariant]) -> (result:
    Result<Option<FyfthVariant>, FyfthCommandError>)
    requires
        args.len() == 2,
    ensures
        result_value(result) == extend_outcome(views(args@)),
        final(ctx.vars)@ == old(ctx.vars)@,
        told(result is Err, old(ctx.output)@, final(ctx.output)@),
{
    match (&args[0], &args[1]) {
        (FyfthVariant::Iter(first), FyfthVariant::Iter(second)) => {
            let mut joined = copy_range(first, 0, first.len());
            let mut tail = copy_range(second, 0, second.len());
            let ghost head_view = views(joined@);
            let ghost tail_view = views(tail@);
            joined.append(&mut tail);
            proof {
                lemma_iter_view(*first);
                lemma_iter_view(*second);
                lemma_iter_view(joined);
                assert(views(joined@) =~= head_view + tail_view);
                assert(head_view =~= views(first@));
                assert(tail_view =~= views(second@));
            }
            Ok(Some(FyfthVariant::Iter(joined)))
        },
        _ => {
            report(
                ctx.output,
                "Syntax error: the operation `extend` needs to operate on two `iter` types.",
            );
            Err(FyfthCommandError::TypeError)
        },
    }
}

/// `reverse`: a sequence with its items in the opposite order.
pub open spec fn reverse_outcome(
    args: Seq<FyfthValue>,
) -> Result<Option<FyfthValue>, FyfthCommandError> {
    match args[0] {
        FyfthValue::Iter(items) => Ok(Some(FyfthValue::Iter(items.reverse()))),
        _ => Err(FyfthCommandError::TypeError),
    }
}

/// `reverse`: the items of the sequence `args[0]` from the last to the first.
#[verifier::loop_isolation(false)]
pub fn fyfth_func_reverse<H: FyfthHost>(ctx: FyfthContext<'_, H>, args: &[FyfthVariant]) -> (result:
    Result<Option<FyfthVariant>, FyfthCommandError>)
    requires
        args.len() == 1,
    ensures
        result_value(result) == reverse_outcome(views(args@)),
        final(ctx.vars)@ == old(ctx.vars)@,
        told(result is Err, old(ctx.output)@, final(ctx.output)@),
{
    match &args[0] {
        FyfthVariant::Iter(items) => {
            let mut turned: Vec<FyfthVariant> = Vec::new();
            let mut left: usize = items.len();
            while left > 0
                invariant
                    left <= items.len(),
                    turned.len() == items.len() - left,
                    forall|j: int|
                        0 <= j < turned.len() ==> turned@[j]@ == items@[items.len() - 1 - j]@,
                decreases left,
            {
                left -= 1;
                turned.push(items[left].clone());
            }
            proof {
                lemma_iter_view(*items);
                lemma_iter_view(turned);
                assert(views(turned@) =~= views(items@).reverse());
            }
            Ok(Some(FyfthVariant::Iter(turned)))
        },
        _ => {
            report(ctx.output, "Syntax error: the operation `reverse` needs to operate on `iter`.");
            Err(FyfthCommandError::TypeError)
        },
    }
}

/// `filter`: a value if the condition holds, nothing if it does not.
pub open spec fn filter_outcome(
    args: Seq<FyfthValue>,
) -> Result<Option<FyfthValue>, FyfthCommandError> {
    match args[1] {
        FyfthValue::Bool(keep) => if keep {
            Ok(Some(args[0]))
        } else {
            Ok(None)
        },
        _ => Err(FyfthCommandError::TypeError),
    }
}

/// `filter`: `args[0]` if the truth value `args[1]` is true, nothing if it is false.
pub fn fyfth_func_filter<H: FyfthHost>(ctx: FyfthContext<'_, H>, args: &[FyfthVariant]) -> (result:
    Result<Option<FyfthVariant>, FyfthCommandError>)
    requires
        args.len() == 2,
    ensures
        result_value(result) == filter_outcome(views(args@)),
        final(ctx.vars)@ == old(ctx.vars)@,
        told(result is Err, old(ctx.output)@, final(ctx.output)@),
{
    match &args[1] {
        FyfthVariant::Bool(keep) => {
            if *keep {
                Ok(Some(args[0].clone()))
            } else {
                Ok(None)
            }
        },
        _ => {
            report(ctx.output, "Syntax error: the operation `filter` needs to operate on `X bool`.");
            Err(FyfthCommandError::TypeError)
        },
    }
}

/// `select`: one of two values, by a condition.
pub open spec fn select_outcome(
    args: Seq<FyfthValue>,
) -> Result<Option<FyfthValue>, FyfthCommandError> {
    match args[0] {
        FyfthValue::Bool(condition) => if condition {
            Ok(Some(args[1]))
        } else {
            Ok(Some(args[2]))
        },
        _ => Err(FyfthCommandError::TypeError),
    }
}

/// `select`: `args[1]` if the truth value `args[0]` is true, `args[2]` if it is false.
pub fn fyfth_func_select<H: FyfthHost>(ctx: FyfthContext<'_, H>, args: &[FyfthVariant]) -> (result:
    Result<Option<FyfthVariant>, FyfthCommandError>)
    requires
        args.len() == 3,
    ensures
        result_value(result) == select_outcome(views(args@)),
        final(ctx.vars)@ == old(ctx.vars)@,
        told(result is Err, old(ctx.output)@, final(ctx.output)@),
{
    match &args[0] {
        FyfthVariant::Bool(condition) => {
            if *condition {
                Ok(Some(args[1].clone()))
            } else {
                Ok(Some(args[2].clone()))
            }
        },
        _ => {
            report(ctx.output, "Syntax error: the operation `select` needs to operate on `bool X Y`.");
            Err(FyfthCommandError::TypeError)
        },
    }
}

/// `not`: the opposite truth value.
pub open spec fn not_outcome(
    args: Seq<FyfthValue>,
) -> Result<Option<FyfthValue>, FyfthCommandError> {
    match args[0] {
        FyfthValue::Bool(condition) => Ok(Some(FyfthValue::Bool(!condition))),
        _ => Err(FyfthCommandError::TypeError),
    }
}

/// `not`: the opposite of the truth value `args[0]`.
pub fn fyfth_func_not<H: FyfthHost>(ctx: FyfthContext<'_, H>, args: &[FyfthVariant]) -> (result:
    Result<Option<FyfthVariant>, FyfthCommandError>)
    requires
        args.len() == 1,
    ensures
        result_value(result) == not_outcome(views(args@)),
        final(ctx.vars)@ == old(ctx.vars)@,
        told(result is Err, old(ctx.output)@, final(ctx.output)@),
{
    match &args[0] {
        FyfthVariant::Bool(condition) => Ok(Some(FyfthVariant::Bool(!*condition))),
        _ => {
            report(ctx.output, "Syntax error: the operation `not` needs to operate on `bool`.");
            Err(FyfthCommandError::TypeError)
        },
    }
}

/// `eq` and `eqq`: whether two values are equal.
pub open spec fn eq_outcome(
    args: Seq<FyfthValue>,
) -> Result<Option<FyfthValue>, FyfthCommandError> {
    Ok(Some(FyfthValue::Bool(values_equal(args[0], args[1]))))
}

/// `eq` and `eqq`: whether `args[0]` and `args[1]` are equal.
pub fn fyfth_func_eq<H: FyfthHost>(ctx: FyfthContext<'_, H>, args: &[FyfthVariant]) -> (result:
    Result<Option<FyfthVariant>, FyfthCommandError>)
    requires
        args.len() == 2,
    ensures
        result_value(result) == eq_outcome(views(args@)),
        final(ctx.vars)@ == old(ctx.vars)@,
        told(result is Err, old(ctx.output)@, final(ctx.output)@),
{
    Ok(Some(FyfthVariant::Bool(args[0].same_value(&args[1]))))
}

/// `pop`: nothing.
pub open spec fn pop_outcome(
    args: Seq<FyfthValue>,
) -> Result<Option<FyfthValue>, FyfthCommandError> {
    Ok(None)
}

/// `pop`: takes its argument and gives nothing back.
pub fn fyfth_func_pop<H: FyfthHost>(ctx: FyfthContext<'_, H>, args: &[FyfthVariant]) -> (result:
    Result<Option<FyfthVariant>, FyfthCommandError>)
    requires
        args.len() == 1,
    ensures
        result_value(result) == pop_outcome(views(args@)),
        final(ctx.vars)@ == old(ctx.vars)@,
        told(result is Err, old(ctx.output)@, final(ctx.output)@),
{
    Ok(None)
}

/// `geq`: whether the first number is at least the second.
pub open spec fn geq_outcome(
    args: Seq<FyfthValue>,
) -> Result<Option<FyfthValue>, FyfthCommandError> {
    match (args[0], args[1]) {
        (FyfthValue::Num(left), FyfthValue::Num(right)) => Ok(
            Some(FyfthValue::Bool(num_le(right.bits, left.bits))),
        ),
        _ => Err(FyfthCommandError::TypeError),
    }
}

/// `geq`: whether the number `args[0]` is at least the number `args[1]`.
pub fn fyfth_func_geq<H: FyfthHost>(ctx: FyfthContext<'_, H>, args: &[FyfthVariant]) -> (result:
    Result<Option<FyfthVariant>, FyfthCommandError>)
    requires
        args.len() == 2,
    ensures
        result_value(result) == geq_outcome(views(args@)),
        final(ctx.vars)@ == old(ctx.vars)@,
        told(result is Err, old(ctx.output)@, final(ctx.output)@),
{
    match (&args[0], &args[1]) {
        (FyfthVariant::Num(left), FyfthVariant::Num(right)) => Ok(
            Some(FyfthVariant::Bool(right.le(left))),
        ),
        _ => {
            report(
                ctx.output,
                "Syntax error: the operation `geq` needs to operate on two `num` types.",
            );
            Err(FyfthCommandError::TypeError)
        },
    }
}

/// `leq`: whether the first number is at most the second.
pub open spec fn leq_outcome(
    args: Seq<FyfthValue>,
) -> Result<Option<FyfthValue>, FyfthCommandError> {
    match (args[0], args[1]) {
        (FyfthValue::Num(left), FyfthValue::Num(right)) => Ok(
            Some(FyfthValue::Bool(num_le(left.bits, right.bits))),
        ),
        _ => Err(FyfthCommandError::TypeError),
    }
}

/// `leq`: whether the number `args[0]` is at most the number `args[1]`.
pub fn fyfth_func_leq<H: FyfthHost>(ctx: FyfthContext<'_, H>, args: &[FyfthVariant]) -> (result:
    Result<Option<FyfthVariant>, FyfthCommandError>)
    requires
        args.len() == 2,
    ensures
        result_value(result) == leq_outcome(views(args@)),
        final(ctx.vars)@ == old(ctx.vars)@,
        told(result is Err, old(ctx.output)@, final(ctx.output)@),
{
    match (&args[0], &args[1]) {
        (FyfthVariant::Num(left), FyfthVariant::Num(right)) => Ok(
            Some(FyfthVariant::Bool(left.le(right))),
        ),
        _ => {
            report(
                ctx.output,
                "Syntax error: the operation `leq` needs to operate on two `num` types.",
            );
            Err(FyfthCommandError::TypeError)
        },
    }
}

/// `vec2`: a pair of numbers.
pub open spec fn vec2_outcome(
    args: Seq<FyfthValue>,
) -> Result<Option<FyfthValue>, FyfthCommandError> {
    match (args[0], args[1]) {
        (FyfthValue::Num(x), FyfthValue::Num(y)) => Ok(Some(FyfthValue::Vec2(x, y))),
        _ => Err(FyfthCommandError::TypeError),
    }
}

/// `vec2`: the pair of the numbers `args[0]` and `args[1]`.
pub fn fyfth_func_vec2<H: FyfthHost>(ctx: FyfthContext<'_, H>, args: &[FyfthVariant]) -> (result:
    Result<Option<FyfthVariant>, FyfthCommandError>)
    requires
        args.len() == 2,
    ensures
        result_value(result) == vec2_outcome(views(args@)),
        final(ctx.vars)@ == old(ctx.vars)@,
        told(result is Err, old(ctx.output)@, final(ctx.output)@),
{
    match (&args[0], &args[1]) {
        (FyfthVariant::Num(x), FyfthVariant::Num(y)) => Ok(Some(FyfthVariant::Vec2(*x, *y))),
        _ => {
            report(ctx.output, "Syntax error: the operation `vec2` needs to operate on `num num`.");
            Err(FyfthCommandError::TypeError)
        },
    }
}

/// `vec3`: a triple of numbers.
pub open spec fn vec3_outcome(
    args: Seq<FyfthValue>,
) -> Result<Option<FyfthValue>, FyfthCommandError> {
    match (args[0], args[1], args[2]) {
        (FyfthValue::Num(x), FyfthValue::Num(y), FyfthValue::Num(z)) => Ok(
            Some(FyfthValue::Vec3(x, y, z)),
        ),
        _ => Err(FyfthCommandError::TypeError),
    }
}

/// `vec3`: the triple of the numbers `args[0]`, `args[1]` and `args[2]`.
pub fn fyfth_func_vec3<H: FyfthHost>(ctx: FyfthContext<'_, H>, args: &[FyfthVariant]) -> (result:
    Result<Option<FyfthVariant>, FyfthCommandError>)
    requires
        args.len() == 3,
    ensures
        result_value(result) == vec3_outcome(views(args@)),
        final(ctx.vars)@ == old(ctx.vars)@,
        told(result is Err, old(ctx.output)@, final(ctx.output)@),
{
    match (&args[0], &args[1], &args[2]) {
        (FyfthVariant::Num(x), FyfthVariant::Num(y), FyfthVariant::Num(z)) => Ok(
            Some(FyfthVariant::Vec3(*x, *y, *z)),
        ),
        _ => {
            report(
                ctx.output,
                "Syntax error: the operation `vec3` needs to operate on `num num num`.",
            );
            Err(FyfthCommandError::TypeError)
        },
    }
}

/// `fuzzy`: whether the letters of the second text occur in the first in
/// order, whatever their case. What is no text matches nothing.
pub open spec fn fuzzy_outcome(
    args: Seq<FyfthValue>,
) -> Result<Option<FyfthValue>, FyfthCommandError> {
    match (args[0], args[1]) {
        (FyfthValue::Literal(haystack), FyfthValue::Literal(needle)) => Ok(
            Some(FyfthValue::Bool(is_subsequence(lowercase(needle), lowercase(haystack)))),
        ),
        (_, FyfthValue::Literal(_)) => Ok(Some(FyfthValue::Bool(false))),
        _ => Err(FyfthCommandError::TypeError),
    }
}

/// `fuzzy`: whether the text `args[1]` matches `args[0]` loosely.
pub fn fyfth_func_fuzzy<H: FyfthHost>(ctx: FyfthContext<'_, H>, args: &[FyfthVariant]) -> (result:
    Result<Option<FyfthVariant>, FyfthCommandError>)
    requires
        args.len() == 2,
    ensures
        result_value(result) == fuzzy_outcome(views(args@)),
        final(ctx.vars)@ == old(ctx.vars)@,
        told(result is Err, old(ctx.output)@, final(ctx.output)@),
{
    match (&args[0], &args[1]) {
        (FyfthVariant::Literal(haystack), FyfthVariant::Literal(needle)) => Ok(
            Some(FyfthVariant::Bool(fuzzy_match(haystack.as_str(), needle.as_str()))),
        ),
        (_, FyfthVariant::Literal(_)) => Ok(Some(FyfthVariant::Bool(false))),
        _ => {
            report(ctx.output, "Syntax error: the operation `fuzzy` needs to operate on `X literal`.");
            Err(FyfthCommandError::TypeError)
        },
    }
}

/// `store`: binds a value to a name.
pub open spec fn store_outcome(
    args: Seq<FyfthValue>,
) -> Result<Option<FyfthValue>, FyfthCommandError> {
    match args[1] {
        FyfthValue::Literal(_) => Ok(None),
        _ => Err(FyfthCommandError::TypeError),
    }
}

/// The variables after `store`.
pub open spec fn store_vars(args: Seq<FyfthValue>, vars: Map<Seq<char>, FyfthValue>) -> Map<
    Seq<char>,
    FyfthValue,
> {
    match args[1] {
        FyfthValue::Literal(name) => vars.insert(name, args[0]),
        _ => vars,
    }
}

/// `store`: binds the value `args[0]` to the name `args[1]`, a text.
pub fn fyfth_func_store<H: FyfthHost>(ctx: FyfthContext<'_, H>, args: &[FyfthVariant]) -> (result:
    Result<Option<FyfthVariant>, FyfthCommandError>)
    requires
        args.len() == 2,
    ensures
        result_value(result) == store_outcome(views(args@)),
        final(ctx.vars)@ == store_vars(views(args@), old(ctx.vars)@),
        told(result is Err, old(ctx.output)@, final(ctx.output)@),
{
    match &args[1] {
        FyfthVariant::Literal(name) => {
            ctx.vars.insert(name.clone(), args[0].clone());
            Ok(None)
        },
        _ => {
            report(
                ctx.output,
                "Syntax error: the operation `store` needs to operate on `X literal`",
            );
            Err(FyfthCommandError::TypeError)
        },
    }
}

/// `load`: the value bound to a name.
pub open spec fn load_outcome(args: Seq<FyfthValue>, vars: Map<Seq<char>, FyfthValue>) -> Result<
    Option<FyfthValue>,
    FyfthCommandError,
> {
    match args[0] {
        FyfthValue::Literal(name) => if vars.contains_key(name) {
            Ok(Some(vars[name]))
        } else {
            Err(FyfthCommandError::DomainError)
        },
        _ => Err(FyfthCommandError::TypeError),
    }
}

/// `load`: the value bound to the name `args[0]`, a text.
pub fn fyfth_func_load<H: FyfthHost>(ctx: FyfthContext<'_, H>, args: &[FyfthVariant]) -> (result:
    Result<Option<FyfthVariant>, FyfthCommandError>)
    requires
        args.len() == 1,
    ensures
        result_value(result) == load_outcome(views(args@), old(ctx.vars)@),
        final(ctx.vars)@ == old(ctx.vars)@,
        told(result is Err, old(ctx.output)@, final(ctx.output)@),
{
    match &args[0] {
        FyfthVariant::Literal(name) => {
            match ctx.vars.get(name.as_str()) {
                Some(value) => Ok(Some(value.clone())),
                None => {
                    report(ctx.output, "Error: no variable of the name `");
                    let ghost first = ctx.output@;
                    put(ctx.output, name.as_str());
                    let ghost second = ctx.output@;
                    put(ctx.output, "` found");
                    proof {
                        lemma_extends_transitive(first, second, ctx.output@);
                        lemma_extends_transitive(old(ctx.output)@, first, ctx.output@);
                    }
                    Err(FyfthCommandError::DomainError)
                },
            }
        },
        _ => {
            report(ctx.output, "Syntax error: the operation `load` needs to operate on `literal`");
            Err(FyfthCommandError::TypeError)
        },
    }
}

/// The numbers of a sequence are the whole numbers from zero upwards, each at
/// the position that it names. This is stated of the positions that single
/// precision holds exactly.
pub open spec fn counts_up(items: Seq<FyfthValue>) -> bool {
    forall|i: int|
        0 <= i < items.len() && i < 0x100_0000 ==> (#[trigger] items[i] matches FyfthValue::Num(
            number,
        ) && !sign_of(number.bits) && is_whole(number.bits) && truncated(number.bits) == i)
}

/// The number of items that `enum` counts: the length of a sequence, or the
/// integer that a number from zero to a million truncates to.
pub open spec fn enum_count(arg: FyfthValue) -> Result<nat, FyfthCommandError> {
    match arg {
        FyfthValue::Iter(items) => Ok(items.len()),
        FyfthValue::Num(number) => if num_le(0, number.bits) && num_le(number.bits, MILLION_BITS) {
            Ok(truncated(number.bits) as nat)
        } else {
            Err(FyfthCommandError::DomainError)
        },
        _ => Err(FyfthCommandError::TypeError),
    }
}

/// The sequence of the first `count` whole numbers.
#[verifier::loop_isolation(false)]
fn count_up<H: FyfthHost>(world: &H, count: usize) -> (numbers: Vec<FyfthVariant>)
    ensures
        numbers.len() == count,
        counts_up(views(numbers@)),
{
    let mut numbers: Vec<FyfthVariant> = Vec::new();
    while numbers.len() < count
        invariant
            numbers.len() <= count,
            counts_up(views(numbers@)),
        decreases count - numbers.len(),
    {
        let at = numbers.len();
        let ghost before = views(numbers@);
        let number = if at < 0x100_0000 {
            FyfthNum::from_index(at as u32)
        } else if at <= i64::MAX as usize {
            world.number_from_integer(at as i64)
        } else {
            world.number_from_integer(i64::MAX)
        };
        numbers.push(FyfthVariant::Num(number));
        assert(views(numbers@) =~= before.push(FyfthValue::Num(number)));
    }
    numbers
}

/// `enum`: the whole numbers from zero up to, and without, a count: the
/// length of the sequence `args[0]`, or the integer that the number `args[0]`
/// truncates to, which must lie between zero and a million.
pub fn fyfth_func_enum<H: FyfthHost>(ctx: FyfthContext<'_, H>, args: &[FyfthVariant]) -> (result:
    Result<Option<FyfthVariant>, FyfthCommandError>)
    requires
        args.len() == 1,
    ensures
        match enum_count(args[0]@) {
            Ok(count) => result matches Ok(Some(numbers)) && numbers@ matches FyfthValue::Iter(
                items,
            ) && items.len() == count && counts_up(items),
            Err(error) => result matches Err(found) && found == error,
        },
        final(ctx.vars)@ == old(ctx.vars)@,
        told(result is Err, old(ctx.output)@, final(ctx.output)@),
{
    match &args[0] {
        FyfthVariant::Iter(items) => {
            proof {
                lemma_iter_view(*items);
            }
            let numbers = count_up(&*ctx.world, items.len());
            proof {
                lemma_iter_view(numbers);
            }
            Ok(Some(FyfthVariant::Iter(numbers)))
        },
        FyfthVariant::Num(number) => {
            if number.is_non_negative() && number.le(&FyfthNum::from_bits(MILLION_BITS)) {
                let count = number.truncate();
                proof {
                    lemma_truncated_to_million(number.bits);
                }
                let numbers = count_up(&*ctx.world, count as usize);
                proof {
                    lemma_iter_view(numbers);
                }
                Ok(Some(FyfthVariant::Iter(numbers)))
            } else {
                report(ctx.output, "Error: the number is not a valid `enum` range");
                Err(FyfthCommandError::DomainError)
            }
        },
        _ => {
            report(
                ctx.output,
                "Syntax error: the operation `enum` needs to operate on `iter` or `num`.",
            );
            Err(FyfthCommandError::TypeError)
        },
    }
}

/// A number from zero to a million truncates to an integer from zero to a million.
pub proof fn lemma_truncated_to_million(bits: u32)
    requires
        num_le(0, bits),
        num_le(bits, MILLION_BITS),
    ensures
        0 <= truncated(bits) <= 1_000_000,
{
    let e = exponent_of(bits);
    let f = fraction_of(bits);
    vstd::arithmetic::power2::lemma2_to64();
    if bits >= 0x8000_0000 {
        assert(bits == 0x8000_0000);
    } else {
        assert(bits <= 0x4974_2400);
        assert(e <= 146);
        if e >= 127 {
            let shift = (150 - e) as nat;
            assert(shift >= 4);
            vstd::arithmetic::power2::lemma_pow2_pos(shift);
            if e == 146 {
                assert(f <= 0x74_2400);
                assert(vstd::arithmetic::power2::pow2(4) == 16);
                assert((f + 0x80_0000) / 16 <= 1_000_000);
            } else {
                vstd::arithmetic::power2::lemma_pow2_strictly_increases(4, shift);
                let divisor = vstd::arithmetic::power2::pow2(shift);
                assert((f + 0x80_0000) / divisor <= 1_000_000) by (nonlinear_arith)
                    requires
                        divisor >= 17,
                        0 <= f < 0x80_0000,
                ;
            }

        }
    }
}

/// `len`: the number of items of a sequence.
pub fn fyfth_func_len<H: FyfthHost>(ctx: FyfthContext<'_, H>, args: &[FyfthVariant]) -> (result:
    Result<Option<FyfthVariant>, FyfthCommandError>)
    requires
        args.len() == 1,
    ensures
        match args[0]@ {
            FyfthValue::Iter(items) => result matches Ok(Some(FyfthVariant::Num(number))) && (
            items.len() < 0x100_0000 ==> !sign_of(number.bits) && is_whole(number.bits)
                && truncated(number.bits) == items.len()),
            _ => result matches Err(FyfthCommandError::TypeError),
        },
        final(ctx.vars)@ == old(ctx.vars)@,
        told(result is Err, old(ctx.output)@, final(ctx.output)@),
{
    match &args[0] {
        FyfthVariant::Iter(items) => {
            proof {
                lemma_iter_view(*items);
            }
            let count = items.len();
            let number = if count < 0x100_0000 {
                FyfthNum::from_index(count as u32)
            } else if count <= i64::MAX as usize {
                ctx.world.number_from_integer(count as i64)
            } else {
                ctx.world.number_from_integer(i64::MAX)
            };
            Ok(Some(FyfthVariant::Num(number)))
        },
        _ => {
            report(ctx.output, "Syntax error: the operation `len` needs to operate on `iter`.");
            Err(FyfthCommandError::TypeError)
        },
    }
}

/// `type`: the name of the kind of a value, as a text.
pub fn fyfth_func_type<H: FyfthHost>(ctx: FyfthContext<'_, H>, args: &[FyfthVariant]) -> (result:
    Result<Option<FyfthVariant>, FyfthCommandError>)
    requires
        args.len() == 1,
    ensures
        result matches Ok(Some(FyfthVariant::Literal(name))) && (kind_name(args[0]@) matches Some(
            expected,
        ) ==> name@ == expected),
        final(ctx.vars)@ == old(ctx.vars)@,
        told(result is Err, old(ctx.output)@, final(ctx.output)@),
{
    let mut name = String::new();
    args[0].pretty_print_type(&mut name, &*ctx.world);
    assert(Seq::<char>::empty() + name@ =~= name@);
    proof {
        if kind_name(args[0]@) is Some {
            assert(Seq::<char>::empty() + kind_name(args[0]@)->0 =~= kind_name(args[0]@)->0);
        }
    }
    Ok(Some(FyfthVariant::Literal(name)))
}

/// The remainder of the division of `left` by `right` that truncates towards
/// zero: it has the sign of `left`.
pub open spec fn truncating_rem(left: int, right: int) -> int {
    let magnitude = (if left < 0 {
        -left
    } else {
        left
    }) % (if right < 0 {
        -right
    } else {
        right
    });
    if left < 0 {
        -magnitude
    } else {
        magnitude
    }
}

/// `mod` on two numbers cannot be computed: the second truncates to zero, or
/// the quotient lies outside the 32-bit range.
pub open spec fn mod_undefined(left: FyfthNum, right: FyfthNum) -> bool {
    truncated(right.bits) == 0 || (truncated(left.bits) == -0x8000_0000 && truncated(right.bits)
        == -1)
}

/// `mod`: the remainder of the integers that two numbers truncate to. With
/// something else in place of the first number the result is `nil`.
pub fn fyfth_func_mod<H: FyfthHost>(ctx: FyfthContext<'_, H>, args: &[FyfthVariant]) -> (result:
    Result<Option<FyfthVariant>, FyfthCommandError>)
    requires
        args.len() == 2,
    ensures
        match (args[0]@, args[1]@) {
            (FyfthValue::Num(left), FyfthValue::Num(right)) => if mod_undefined(left, right) {
                result matches Err(FyfthCommandError::DomainError)
            } else {
                result matches Ok(Some(FyfthVariant::Num(number))) && ({
                    let rem = truncating_rem(truncated(left.bits), truncated(right.bits));
                    -0x100_0000 < rem < 0x100_0000 ==> is_whole(number.bits) && truncated(
                        number.bits,
                    ) == rem
                })
            },
            (_, FyfthValue::Num(_)) => result matches Ok(Some(FyfthVariant::Nil)),
            _ => result matches Err(FyfthCommandError::TypeError),
        },
        final(ctx.vars)@ == old(ctx.vars)@,
        told(result is Err, old(ctx.output)@, final(ctx.output)@),
{
    match (&args[0], &args[1]) {
        (FyfthVariant::Num(left), FyfthVariant::Num(right)) => {
            let x = left.truncate();
            let y = right.truncate();
            if y == 0 || (x == i32::MIN && y == -1) {
                report(ctx.output, "Error: `mod` cannot divide by this number");
                return Err(FyfthCommandError::DomainError);
            }
            let ax: u64 = if x < 0 {
                (-(x as i64)) as u64
            } else {
                x as u64
            };
            let ay: u64 = if y < 0 {
                (-(y as i64)) as u64
            } else {
                y as u64
            };
            let magnitude: u64 = ax % ay;
            assert(magnitude <= ax) by (nonlinear_arith)
                requires
                    magnitude == ax % ay,
                    ay > 0,
            ;
            let rem: i64 = if x < 0 {
                -(magnitude as i64)
            } else {
                magnitude as i64
            };
            let number = if -0x100_0000 < rem && rem < 0x100_0000 {
                FyfthNum::from_whole(rem as i32)
            } else {
                ctx.world.number_from_integer(rem)
            };
            Ok(Some(FyfthVariant::Num(number)))
        },
        (_, FyfthVariant::Num(_)) => Ok(Some(FyfthVariant::Nil)),
        _ => {
            report(
                ctx.output,
                "Syntax error: the operation `mod` needs to operate on `X num`. If X is not num it will return nil.",
            );
            Err(FyfthCommandError::TypeError)
        },
    }
}

/// The part of a pair, a triple or a rotation that a text names; a domain
/// error if it names none.
pub open spec fn part_named(parts: Seq<FyfthNum>, name: Seq<char>) -> Result<
    Option<FyfthValue>,
    FyfthCommandError,
> {
    if name == "x"@ && parts.len() >= 1 {
        Ok(Some(FyfthValue::Num(parts[0])))
    } else if name == "y"@ && parts.len() >= 2 {
        Ok(Some(FyfthValue::Num(parts[1])))
    } else if name == "z"@ && parts.len() >= 3 {
        Ok(Some(FyfthValue::Num(parts[2])))
    } else if name == "w"@ && parts.len() >= 4 {
        Ok(Some(FyfthValue::Num(parts[3])))
    } else {
        Err(FyfthCommandError::DomainError)
    }
}

/// `get`, where the engine decides by itself: the item of a sequence that a
/// number names, or the part of a pair, a triple or a rotation that a text
/// names. On an object or a component of the host, where the host decides,
/// this is `None`.
pub open spec fn get_outcome(args: Seq<FyfthValue>) -> Option<
    Result<Option<FyfthValue>, FyfthCommandError>,
> {
    match (args[0], args[1]) {
        (FyfthValue::Iter(items), FyfthValue::Num(number)) => Some(item_at(items, number)),
        (FyfthValue::Vec2(x, y), FyfthValue::Literal(name)) => Some(part_named(seq![x, y], name)),
        (FyfthValue::Vec3(x, y, z), FyfthValue::Literal(name)) => Some(
            part_named(seq![x, y, z], name),
        ),
        (FyfthValue::Quat(x, y, z, w), FyfthValue::Literal(name)) => Some(
            part_named(seq![x, y, z, w], name),
        ),
        (FyfthValue::Entity(_), FyfthValue::Literal(_)) => None,
        (FyfthValue::Component(_), FyfthValue::Literal(_)) => None,
        _ => Some(Err(FyfthCommandError::TypeError)),
    }
}

/// The part of `parts` that `name` names.
fn named_part(output: &mut String, parts: &Vec<FyfthNum>, name: &str) -> (result: Result<
    Option<FyfthVariant>,
    FyfthCommandError,
>)
    requires
        2 <= parts.len() <= 4,
    ensures
        result_value(result) == part_named(parts@, name@),
        told(result is Err, old(output)@, final(output)@),
{
    if str_eq(name, "x") {
        Ok(Some(FyfthVariant::Num(parts[0])))
    } else if str_eq(name, "y") {
        Ok(Some(FyfthVariant::Num(parts[1])))
    } else if str_eq(name, "z") && parts.len() >= 3 {
        Ok(Some(FyfthVariant::Num(parts[2])))
    } else if str_eq(name, "w") && parts.len() >= 4 {
        Ok(Some(FyfthVariant::Num(parts[3])))
    } else {
        report(output, "Error: the value has no such component");
        Err(FyfthCommandError::DomainError)
    }
}

/// Adds to `output` the diagnostic of a name that stands for several
/// component types, with the full paths of those types.
#[verifier::loop_isolation(false)]
fn report_ambiguous(
    output: &mut String,
    infos: &Vec<FyfthComponentInfo>,
    found: &Vec<usize>,
)
    requires
        forall|i: int| 0 <= i < found.len() ==> (#[trigger] found@[i]) < infos.len(),
    ensures
        reports(old(output)@, final(output)@),
{
    report(
        output,
        "Error: multiple components fit the name. Specify the name more clearly to avoid ambiguity. The matching components are:\n",
    );
    let mut at: usize = 0;
    while at < found.len()
        invariant
            at <= found.len(),
            reports(old(output)@, output@),
        decreases found.len() - at,
    {
        let ghost first = output@;
        put(output, "  ");
        let ghost second = output@;
        put(output, infos[found[at]].full_path.as_str());
        let ghost third = output@;
        put(output, "\n");
        proof {
            lemma_extends_transitive(first, second, third);
            lemma_extends_transitive(first, third, output@);
            lemma_extends_transitive(old(output)@, first, output@);
        }
        at += 1;
    }
}

/// `get`: the item of the sequence `args[0]` that the number `args[1]` names;
/// the part of the pair, triple or rotation `args[0]` that the text `args[1]`
/// names; the component of the object `args[0]` whose type the text `args[1]`
/// stands for; or the field of the component `args[0]` that the text
/// `args[1]` names.
pub fn fyfth_func_get<H: FyfthHost>(ctx: FyfthContext<'_, H>, args: &[FyfthVariant]) -> (result:
    Result<Option<FyfthVariant>, FyfthCommandError>)
    requires
        args.len() == 2,
    ensures
        get_outcome(views(args@)) matches Some(outcome) ==> result_value(result) == outcome,
        get_outcome(views(args@)) is None ==> (result matches Ok(Some(_)) || result matches Err(
            FyfthCommandError::DomainError,
        )),
        args[0]@ is Entity && args[1]@ is Literal && result is Ok ==> result matches Ok(
            Some(FyfthVariant::Component(_)),
        ),
        final(ctx.vars)@ == old(ctx.vars)@,
        told(result is Err, old(ctx.output)@, final(ctx.output)@),
{
    match (&args[0], &args[1]) {
        (FyfthVariant::Iter(items), FyfthVariant::Num(number)) => {
            proof {
                lemma_iter_view(*items);
            }
            match resolve(*number, items.len()) {
                Some(at) => Ok(Some(items[at].clone())),
                None => {
                    report(ctx.output, "Error: `get` tried getting an index outside of the iter");
                    Err(FyfthCommandError::DomainError)
                },
            }
        },
        (FyfthVariant::Vec2(x, y), FyfthVariant::Literal(name)) => {
            let parts = vec![*x, *y];
            assert(parts@ =~= seq![*x, *y]);
            named_part(ctx.output, &parts, name.as_str())
        },
        (FyfthVariant::Vec3(x, y, z), FyfthVariant::Literal(name)) => {
            let parts = vec![*x, *y, *z];
            assert(parts@ =~= seq![*x, *y, *z]);
            named_part(ctx.output, &parts, name.as_str())
        },
        (FyfthVariant::Quat(x, y, z, w), FyfthVariant::Literal(name)) => {
            let parts = vec![*x, *y, *z, *w];
            assert(parts@ =~= seq![*x, *y, *z, *w]);
            named_part(ctx.output, &parts, name.as_str())
        },
        (FyfthVariant::Entity(entity), FyfthVariant::Literal(name)) => {
            let infos = ctx.world.component_types();
            match try_find_component_by_name(&infos, name.as_str()) {
                Ok(index) => {
                    match ctx.world.extract_component(index, *entity) {
                        Some(component) => Ok(Some(FyfthVariant::Component(component))),
                        None => {
                            report(ctx.output, "Error: the entity does not contain the component `");
                            let ghost first = ctx.output@;
                            put(ctx.output, infos[index].full_path.as_str());
                            let ghost second = ctx.output@;
                            put(ctx.output, "`");
                            proof {
                                lemma_extends_transitive(first, second, ctx.output@);
                                lemma_extends_transitive(
                                    old(ctx.output)@,
                                    first,
                                    ctx.output@,
                                );
                            }
                            Err(FyfthCommandError::DomainError)
                        },
                    }
                },
                Err(BevyComponentRegistryError::NoMatchingComponent) => {
                    report(
                        ctx.output,
                        "Error: could not find the component in the registry. Make sure it is registered.",
                    );
                    Err(FyfthCommandError::DomainError)
                },
                Err(
                    BevyComponentRegistryError::MultipleMatchingComponents(found),
                ) => {
                    report_ambiguous(ctx.output, &infos, &found);
                    Err(FyfthCommandError::DomainError)
                },
            }
        },
        (FyfthVariant::Component(component), FyfthVariant::Literal(field)) => {
            match ctx.world.read_field(*component, field.as_str()) {
                FyfthFieldRead::Value(value) => Ok(Some(value)),
                FyfthFieldRead::Unsupported => {
                    report(ctx.output, "Error: the field of the component has an unsupported type");
                    Err(FyfthCommandError::DomainError)
                },
                FyfthFieldRead::NoSuchField => {
                    report(ctx.output, "Error: the component does not have such a field");
                    Err(FyfthCommandError::DomainError)
                },
                FyfthFieldRead::NotAStruct => {
                    report(ctx.output, "Error: the component is not a struct");
                    Err(FyfthCommandError::DomainError)
                },
            }
        },
        _ => {
            report_kinds(ctx.output, &*ctx.world, "get", args);
            Err(FyfthCommandError::TypeError)
        },
    }
}

/// `set`, where the engine decides by itself: a sequence with the item that a
/// number names replaced. On a component of the host, where the host
/// decides, this is `None`.
pub open spec fn set_outcome(args: Seq<FyfthValue>) -> Option<
    Result<Option<FyfthValue>, FyfthCommandError>,
> {
    match (args[0], args[1]) {
        (FyfthValue::Iter(items), FyfthValue::Num(number)) => {
            let index = resolve_index(number, items.len());
            if 0 <= index < items.len() {
                Some(Ok(Some(FyfthValue::Iter(items.update(index, args[2])))))
            } else {
                Some(Err(FyfthCommandError::DomainError))
            }
        },
        (FyfthValue::Component(_), FyfthValue::Literal(_)) => None,
        _ => Some(Err(FyfthCommandError::TypeError)),
    }
}

/// `set`: the sequence `args[0]` with the item that the number `args[1]`
/// names replaced by `args[2]`; or the component `args[0]` with the field that
/// the text `args[1]` names holding `args[2]`.
pub fn fyfth_func_set<H: FyfthHost>(ctx: FyfthContext<'_, H>, args: &[FyfthVariant]) -> (result:
    Result<Option<FyfthVariant>, FyfthCommandError>)
    requires
        args.len() == 3,
    ensures
        set_outcome(views(args@)) matches Some(outcome) ==> result_value(result) == outcome,
        set_outcome(views(args@)) is None ==> (result matches Ok(
            Some(FyfthVariant::Component(_)),
        ) || result matches Err(FyfthCommandError::DomainError)),
        final(ctx.vars)@ == old(ctx.vars)@,
        told(result is Err, old(ctx.output)@, final(ctx.output)@),
{
    match (&args[0], &args[1]) {
        (FyfthVariant::Iter(items), FyfthVariant::Num(number)) => {
            proof {
                lemma_iter_view(*items);
            }
            match resolve(*number, items.len()) {
                Some(at) => {
                    let mut changed = copy_range(items, 0, items.len());
                    let ghost copied = views(changed@);
                    assert(copied.len() == items.len());
                    assert(changed@.len() == copied.len());
                    changed.set(at, args[2].clone());
                    proof {
                        lemma_iter_view(changed);
                        assert(copied =~= views(items@));
                        assert(views(changed@) =~= copied.update(at as int, args[2]@));
                    }
                    Ok(Some(FyfthVariant::Iter(changed)))
                },
                None => {
                    report(ctx.output, "Error: `set` tried setting an index outside of the iter");
                    Err(FyfthCommandError::DomainError)
                },
            }
        },
        (FyfthVariant::Component(component), FyfthVariant::Literal(field)) => {
            match ctx.world.write_field(*component, field.as_str(), &args[2]) {
                FyfthFieldWrite::Written(changed) => Ok(
                    Some(FyfthVariant::Component(changed)),
                ),
                FyfthFieldWrite::Rejected => {
                    report(ctx.output, "Error: failed to set the field of the component to the value");
                    Err(FyfthCommandError::DomainError)
                },
                FyfthFieldWrite::NoSuchField => {
                    report(ctx.output, "Error: the component does not have such a field");
                    Err(FyfthCommandError::DomainError)
                },
                FyfthFieldWrite::NotAStruct => {
                    report(ctx.output, "Error: the component is not a struct");
                    Err(FyfthCommandError::DomainError)
                },
            }
        },
        _ => {
            report_kinds(ctx.output, &*ctx.world, "set", args);
            Err(FyfthCommandError::TypeError)
        },
    }
}

} // verus!
