//! The text that a run produces: values that are printed, and diagnostics.
//! Text is only ever added at its end.

use vstd::prelude::*;
use crate::text::string_push;

verus! {

/// `after` is `before` with a text added at its end.
pub open spec fn extends(before: Seq<char>, after: Seq<char>) -> bool {
    before.len() <= after.len() && after.subrange(0, before.len() as int) == before
}

/// `after` is `before` with a text that is not empty added at its end.
pub open spec fn reports(before: Seq<char>, after: Seq<char>) -> bool {
    before.len() < after.len() && after.subrange(0, before.len() as int) == before
}

/// `text` ends with `ending`.
pub open spec fn ends_with(text: Seq<char>, ending: Seq<char>) -> bool {
    ending.len() <= text.len() && text.subrange(text.len() - ending.len(), text.len() as int)
        == ending
}

/// Adding a text that is not empty makes a report.
pub proof fn lemma_reports(before: Seq<char>, added: Seq<char>)
    requires
        added.len() > 0,
    ensures
        reports(before, before + added),
{
    assert((before + added).subrange(0, before.len() as int) =~= before);
}

/// Adding to a text that extends another extends that one too.
pub proof fn lemma_extends_transitive(first: Seq<char>, second: Seq<char>, third: Seq<char>)
    requires
        extends(first, second),
        extends(second, third),
    ensures
        extends(first, third),
        reports(first, second) || reports(second, third) ==> reports(first, third),
{
    assert(third.subrange(0, first.len() as int) =~= second.subrange(0, first.len() as int));
}

/// Every text extends itself.
pub proof fn lemma_extends_self(text: Seq<char>)
    ensures
        extends(text, text),
{
    assert(text.subrange(0, text.len() as int) =~= text);
}

/// Adds `text` to `output`.
pub fn put(output: &mut String, text: &str)
    ensures
        final(output)@ == old(output)@ + text@,
        extends(old(output)@, final(output)@),
{
    output.append(text);
    assert((old(output)@ + text@).subrange(0, old(output)@.len() as int) =~= old(output)@);
}

/// Adds a diagnostic to the output: `message`, or a question mark in place of
/// an empty one.
pub fn report(output: &mut String, message: &str)
    ensures
        reports(old(output)@, final(output)@),
        message@.len() > 0 ==> final(output)@ == old(output)@ + message@,
{
    if message.is_empty() {
        string_push(output, '?');
        proof {
            lemma_reports(old(output)@, seq!['?']);
            assert(old(output)@.push('?') =~= old(output)@ + seq!['?']);
        }
    } else {
        output.append(message);
        proof {
            lemma_reports(old(output)@, message@);
        }
    }
}

} // verus!
