//! The `regex` command: matching a text against a regular expression and
//! binding what its named groups captured.

use vstd::prelude::*;
use crate::commands::{result_value, told};
use crate::environment::FyfthEnvironment;
use crate::host::{FyfthCommandError, FyfthContext, FyfthHost};
use crate::output::{lemma_extends_transitive, put, report};
use crate::variant::{lemma_iter_view, views, FyfthValue, FyfthVariant};

verus! {

#[verifier::external_type_specification]
#[verifier::external_body]
pub struct ExRegex(regex::Regex);

#[verifier::external_type_specification]
#[verifier::external_body]
pub struct ExRegexError(regex::Error);

/// Whether `pattern` is a regular expression that `regex::Regex::new` accepts.
pub uninterp spec fn regex_valid(pattern: Seq<char>) -> bool;

/// The pattern that a regular expression was compiled from, which
/// `regex::Regex::as_str` returns.
pub uninterp spec fn regex_source(re: regex::Regex) -> Seq<char>;

/// Whether the regular expression `pattern` matches anywhere in `text`, as
/// `regex::Regex::is_match` tells.
pub uninterp spec fn regex_matches(pattern: Seq<char>, text: Seq<char>) -> bool;

/// The names of the groups of the regular expression `pattern`, in the order
/// of the groups, `None` for a group without a name, as
/// `regex::Regex::capture_names` yields them.
pub uninterp spec fn regex_group_names(pattern: Seq<char>) -> Seq<Option<Seq<char>>>;

/// For each match of the regular expression `pattern` in `text`, from left to
/// right and without overlap, as `regex::Regex::captures_iter` yields them:
/// what the group named `name` captured in it, `None` if the group took no
/// part in the match.
pub uninterp spec fn regex_group_texts(pattern: Seq<char>, text: Seq<char>, name: Seq<char>) -> Seq<
    Option<Seq<char>>,
>;

/// The texts of a list, as sequences.
pub open spec fn text_views(texts: Seq<Option<String>>) -> Seq<Option<Seq<char>>> {
    Seq::new(
        texts.len(),
        |i: int|
            match texts[i] {
                Some(text) => Some(text@),
                None => None,
            },
    )
}

/// Calls `regex::Regex::new`. It compiles `pattern`, or fails if `pattern` is
/// no regular expression or compiles to more than the size limit. The
/// compiled expression remembers the pattern it came from.
#[verifier::external_body]
fn compile(pattern: &str) -> (compiled: Result<regex::Regex, regex::Error>)
    ensures
        compiled is Ok <==> regex_valid(pattern@),
        compiled matches Ok(re) ==> regex_source(re) == pattern@,
{
    regex::Regex::new(pattern)
}

/// Calls the `to_string` of `regex::Error`: the text that describes the error.
#[verifier::external_body]
fn error_text(error: &regex::Error) -> (text: String)
{
    error.to_string()
}

/// Calls `regex::Regex::is_match`: whether the expression matches anywhere in
/// `text`.
#[verifier::external_body]
fn is_match(re: &regex::Regex, text: &str) -> (found: bool)
    ensures
        found == regex_matches(regex_source(*re), text@),
{
    re.is_match(text)
}

/// Calls `regex::Regex::capture_names`: one entry for each group of the
/// expression, the group's name or `None`.
#[verifier::external_body]
fn capture_names(re: &regex::Regex) -> (names: Vec<Option<String>>)
    ensures
        text_views(names@) == regex_group_names(regex_source(*re)),
{
    re.capture_names().map(|name| name.map(|n| n.to_string())).collect()
}

/// Calls `regex::Regex::captures_iter`, and `regex::Captures::name` on each
/// match: what the group named `name` captured in each match of the
/// expression in `text`.
#[verifier::external_body]
fn captures_named(re: &regex::Regex, text: &str, name: &str) -> (texts: Vec<Option<String>>)
    ensures
        text_views(texts@) == regex_group_texts(regex_source(*re), text@, name@),
{
    re.captures_iter(text).map(|found| found.name(name).map(|m| m.as_str().to_string())).collect()
}

/// The texts of a list that are there, in order.
pub open spec fn present(texts: Seq<Option<Seq<char>>>) -> Seq<Seq<char>>
    decreases texts.len(),
{
    if texts.len() == 0 {
        Seq::empty()
    } else {
        let before = present(texts.drop_last());
        match texts.last() {
            Some(text) => before.push(text),
            None => before,
        }
    }
}

/// Each text as a value.
pub open spec fn as_literals(texts: Seq<Seq<char>>) -> Seq<FyfthValue> {
    Seq::new(texts.len(), |i: int| FyfthValue::Literal(texts[i]))
}

/// The variables after what a group captured has been bound to its name:
/// nothing is bound if it captured nothing; the text, if it captured once; the
/// sequence of the texts, if it captured several times.
pub open spec fn bind_group(
    vars: Map<Seq<char>, FyfthValue>,
    name: Seq<char>,
    captured: Seq<Seq<char>>,
) -> Map<Seq<char>, FyfthValue> {
    if captured.len() == 0 {
        vars
    } else if captured.len() == 1 {
        vars.insert(name, FyfthValue::Literal(captured[0]))
    } else {
        vars.insert(name, FyfthValue::Iter(as_literals(captured)))
    }
}

/// The variables after the first `count` groups of `pattern` have been bound,
/// in their order, to what they captured in `text`.
pub open spec fn bind_groups(
    vars: Map<Seq<char>, FyfthValue>,
    pattern: Seq<char>,
    text: Seq<char>,
    count: nat,
) -> Map<Seq<char>, FyfthValue>
    decreases count,
{
    if count == 0 {
        vars
    } else {
        let before = bind_groups(vars, pattern, text, (count - 1) as nat);
        match regex_group_names(pattern)[count - 1] {
            Some(name) => bind_group(before, name, present(regex_group_texts(pattern, text, name))),
            None => before,
        }
    }
}

/// Binding what groups captured takes no binding away.
pub proof fn lemma_bind_groups_keeps_names(
    vars: Map<Seq<char>, FyfthValue>,
    pattern: Seq<char>,
    text: Seq<char>,
    count: nat,
)
    ensures
        vars.dom().subset_of(bind_groups(vars, pattern, text, count).dom()),
    decreases count,
{
    if count > 0 {
        lemma_bind_groups_keeps_names(vars, pattern, text, (count - 1) as nat);
    }
}

/// Binds to `name` what a group captured: `texts` holds, for each match, the
/// text that the group captured in it, if it took part in the match.
#[verifier::loop_isolation(false)]
pub fn bind_captures(vars: &mut FyfthEnvironment, name: &str, texts: Vec<Option<String>>)
    ensures
        final(vars)@ == bind_group(old(vars)@, name@, present(text_views(texts@))),
{
    let ghost all = text_views(texts@);
    let mut captured: Vec<FyfthVariant> = Vec::new();
    let mut texts = texts;
    let mut at: usize = 0;
    assert(all.take(0) =~= Seq::<Option<Seq<char>>>::empty());
    while at < texts.len()
        invariant
            at <= texts.len(),
            text_views(texts@) == all,
            views(captured@) == as_literals(present(all.take(at as int))),
        decreases texts.len() - at,
    {
        let ghost before = views(captured@);
        proof {
            assert(all.take(at as int + 1).drop_last() =~= all.take(at as int));
            assert(all.take(at as int + 1).last() == all[at as int]);
        }
        match &texts[at] {
            Some(text) => {
                captured.push(FyfthVariant::Literal(text.clone()));
                proof {
                    assert(all[at as int] == Some(text@));
                    let longer = present(all.take(at as int + 1));
                    assert(longer == present(all.take(at as int)).push(text@));
                    assert(views(captured@) =~= before.push(FyfthValue::Literal(text@)));
                    assert(views(captured@) =~= as_literals(longer));
                }
            },
            None => {
                proof {
                    assert(all[at as int] is None);
                    assert(present(all.take(at as int + 1)) == present(all.take(at as int)));
                }
            },
        }
        at += 1;
    }
    assert(all.take(at as int) =~= all);
    assert(views(captured@).len() == present(all).len());
    if captured.len() == 1 {
        let ghost shown = views(captured@);
        let only = captured.pop().unwrap();
        assert(only@ == shown[0]);
        assert(only@ == FyfthValue::Literal(present(all)[0]));
        vars.insert(String::from_str(name), only);
    } else if captured.len() > 1 {
        proof {
            lemma_iter_view(captured);
        }
        vars.insert(String::from_str(name), FyfthVariant::Iter(captured));
    }
}

/// Binds the named groups of `re` to what they captured in `text`.
#[verifier::loop_isolation(false)]
fn bind_all(vars: &mut FyfthEnvironment, re: &regex::Regex, text: &str)
    ensures
        final(vars)@ == bind_groups(
            old(vars)@,
            regex_source(*re),
            text@,
            regex_group_names(regex_source(*re)).len(),
        ),
{
    let names = capture_names(re);
    let ghost pattern = regex_source(*re);
    let mut at: usize = 0;
    while at < names.len()
        invariant
            at <= names.len(),
            text_views(names@) == regex_group_names(pattern),
            vars@ == bind_groups(old(vars)@, pattern, text@, at as nat),
        decreases names.len() - at,
    {
        assert(text_views(names@)[at as int] == regex_group_names(pattern)[at as int]);
        match &names[at] {
            Some(name) => {
                let texts = captures_named(re, text, name.as_str());
                bind_captures(vars, name.as_str(), texts);
            },
            None => {},
        }
        at += 1;
    }
}

/// `regex`: whether a regular expression matches in a text. What is no text
/// matches nothing. A pattern that is no regular expression is a domain error.
pub open spec fn regex_outcome(
    args: Seq<FyfthValue>,
) -> Result<Option<FyfthValue>, FyfthCommandError> {
    match (args[0], args[1]) {
        (FyfthValue::Literal(text), FyfthValue::Literal(pattern)) => if regex_valid(pattern) {
            Ok(Some(FyfthValue::Bool(regex_matches(pattern, text))))
        } else {
            Err(FyfthCommandError::DomainError)
        },
        (_, FyfthValue::Literal(_)) => Ok(Some(FyfthValue::Bool(false))),
        _ => Err(FyfthCommandError::TypeError),
    }
}

/// The variables after `regex`: where the expression matches, each of its
/// named groups is bound to what it captured.
pub open spec fn regex_vars(args: Seq<FyfthValue>, vars: Map<Seq<char>, FyfthValue>) -> Map<
    Seq<char>,
    FyfthValue,
> {
    match (args[0], args[1]) {
        (FyfthValue::Literal(text), FyfthValue::Literal(pattern)) => if regex_valid(pattern)
            && regex_matches(pattern, text) {
            bind_groups(vars, pattern, text, regex_group_names(pattern).len())
        } else {
            vars
        },
        _ => vars,
    }
}

/// `regex`: whether the regular expression `args[1]` matches in the text
/// `args[0]`; where it does, its named groups are bound as variables.
pub fn fyfth_func_regex<H: FyfthHost>(ctx: FyfthContext<'_, H>, args: &[FyfthVariant]) -> (result:
    Result<Option<FyfthVariant>, FyfthCommandError>)
    requires
        args.len() == 2,
    ensures
        result_value(result) == regex_outcome(views(args@)),
        final(ctx.vars)@ == regex_vars(views(args@), old(ctx.vars)@),
        told(result is Err, old(ctx.output)@, final(ctx.output)@),
{
    match (&args[0], &args[1]) {
        (FyfthVariant::Literal(text), FyfthVariant::Literal(pattern)) => {
            match compile(pattern.as_str()) {
                Ok(re) => {
                    if is_match(&re, text.as_str()) {
                        bind_all(ctx.vars, &re, text.as_str());
                        Ok(Some(FyfthVariant::Bool(true)))
                    } else {
                        Ok(Some(FyfthVariant::Bool(false)))
                    }
                },
                Err(error) => {
                    report(ctx.output, "Error: failed to parse regex: ");
                    let ghost first = ctx.output@;
                    let text = error_text(&error);
                    put(ctx.output, text.as_str());
                    proof {
                        lemma_extends_transitive(old(ctx.output)@, first, ctx.output@);
                    }
                    Err(FyfthCommandError::DomainError)
                },
            }
        },
        (_, FyfthVariant::Literal(_)) => Ok(Some(FyfthVariant::Bool(false))),
        _ => {
            report(ctx.output, "Syntax error: the operation `regex` needs to operate on `X literal`.");
            Err(FyfthCommandError::TypeError)
        },
    }
}

} // verus!
