//! Text helpers shared by the tokenizer, the engine and the command vocabulary.

use vstd::prelude::*;
use vstd::std_specs::iter::IteratorSpec;

verus! {

/// Lower-case form of a text, as `str::to_lowercase` computes it (the Unicode
/// lower-case mapping, including its context-sensitive cases).
pub uninterp spec fn lowercase(text: Seq<char>) -> Seq<char>;

/// Calls `str::to_lowercase`. The result depends on the characters of the
/// argument alone; it is named by [`lowercase`] and not described further.
#[verifier::external_body]
pub(crate) fn to_lowercase(text: &str) -> (lowered: String)
    ensures
        lowered@ == lowercase(text@),
{
    text.to_lowercase()
}

/// Calls `String::push`, which appends one character to the end of the string.
#[verifier::external_body]
pub(crate) fn string_push(target: &mut String, ch: char)
    ensures
        final(target)@ == old(target)@.push(ch),
{
    target.push(ch)
}

/// Calls `str::eq`, which holds exactly when both slices hold the same
/// characters in the same order.
#[verifier::external_body]
pub(crate) fn str_eq(left: &str, right: &str) -> (same: bool)
    ensures
        same == (left@ == right@),
{
    left.eq(right)
}

/// The characters of `text`, in order.
pub fn chars_of(text: &str) -> (chars: Vec<char>)
    ensures
        chars@ == text@,
{
    let mut chars: Vec<char> = Vec::new();
    let mut rest = text.chars();
    loop
        invariant
            chars@ + rest.remaining() == text@,
            rest.obeys_prophetic_iter_laws(),
            rest.decrease() is Some,
        ensures
            chars@ == text@,
        decreases rest.decrease()->0,
    {
        match rest.next() {
            Some(ch) => {
                chars.push(ch);
            },
            None => {
                assert(rest.remaining().len() == 0);
                assert(chars@ + rest.remaining() =~= chars@);
                break ;
            },
        }
    }
    chars
}

/// Builds a string from the characters `chars[from..to]`.
pub fn string_of(chars: &Vec<char>, from: usize, to: usize) -> (text: String)
    requires
        from <= to <= chars.len(),
    ensures
        text@ == chars@.subrange(from as int, to as int),
{
    let mut text = String::new();
    let mut at: usize = from;
    while at < to
        invariant
            from <= at <= to <= chars.len(),
            text@ == chars@.subrange(from as int, at as int),
        decreases to - at,
    {
        string_push(&mut text, chars[at]);
        at += 1;
        assert(chars@.subrange(from as int, at as int) =~= chars@.subrange(
            from as int,
            at as int - 1,
        ).push(chars@[at as int - 1]));
    }
    text
}

/// The character that writes the decimal digit `digit`.
pub open spec fn digit_char(digit: nat) -> char {
    ((48 + digit) as u8) as char
}

/// Decimal notation of a natural number, without leading zeros.
pub open spec fn decimal(n: nat) -> Seq<char>
    decreases n,
{
    if n < 10 {
        seq![digit_char(n)]
    } else {
        decimal(n / 10).push(digit_char(n % 10))
    }
}

/// Appends the decimal notation of `n` to `target`.
pub fn push_decimal(target: &mut String, n: u64)
    ensures
        final(target)@ == old(target)@ + decimal(n as nat),
    decreases n,
{
    if n >= 10 {
        push_decimal(target, n / 10);
    }
    let digit: u8 = (n % 10) as u8;
    string_push(target, (48u8 + digit) as char);
    proof {
        if n >= 10 {
            assert(old(target)@ + decimal(n as nat) =~= (old(target)@ + decimal((n / 10) as nat)).push(
                digit_char((n % 10) as nat),
            ));
        } else {
            assert(old(target)@ + decimal(n as nat) =~= old(target)@.push(digit_char(n as nat)));
        }
    }
}

} // verus!
