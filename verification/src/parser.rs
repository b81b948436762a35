//! From a word of the source text to the entries that it puts into the queue.

use vstd::prelude::*;
use crate::host::{FyfthError, FyfthHost};
use crate::language::{
    find_command, FyfthCommandSpec, FyfthLanguageExtension, FyfthPrefixParser, PrefixInfo,
};
use crate::lexer::{lemma_lex_step_advances, lex_all, lex_step, FyfthWordSpec, LexStep};
use crate::num::FyfthNum;
use crate::text::str_eq;
use crate::variant::{views, FyfthValue, FyfthVariant};

verus! {

/// What a word of the fixed vocabulary of the engine stands for.
pub open spec fn control_word(word: Seq<char>) -> Option<FyfthValue> {
    if word == "nil"@ {
        Some(FyfthValue::Nil)
    } else if word == "iter"@ {
        Some(FyfthValue::FnIter)
    } else if word == "true"@ {
        Some(FyfthValue::Bool(true))
    } else if word == "false"@ {
        Some(FyfthValue::Bool(false))
    } else if word == "macro"@ {
        Some(FyfthValue::Macro)
    } else if word == "queue"@ {
        Some(FyfthValue::FnQueue)
    } else if word == "dup"@ {
        Some(FyfthValue::FnDup)
    } else if word == "swap"@ {
        Some(FyfthValue::FnSwap)
    } else if word == ";"@ {
        Some(FyfthValue::LineEnd)
    } else if word == "swap_n"@ {
        Some(FyfthValue::FnSwapN)
    } else if word == "rotr"@ {
        Some(FyfthValue::FnRotRN)
    } else if word == "rotl"@ {
        Some(FyfthValue::FnRotLN)
    } else if word == "push"@ {
        Some(FyfthValue::FnPush)
    } else {
        None
    }
}

/// What a word that is neither prefixed nor quoted stands for, given the
/// number that it writes, if it writes one: that number; else what the fixed
/// vocabulary of the engine says; else the command that the word names; else
/// the word itself, as a text.
pub open spec fn classify(
    word: Seq<char>,
    number: Option<FyfthNum>,
    commands: Seq<FyfthCommandSpec>,
) -> FyfthValue {
    match number {
        Some(n) => FyfthValue::Num(n),
        None => match control_word(word) {
            Some(value) => value,
            None => match find_command(commands, word) {
                Some(index) => FyfthValue::LangFunc(index as u32),
                None => FyfthValue::Literal(word),
            },
        },
    }
}

/// What `word` stands for in the fixed vocabulary of the engine.
pub fn parse_control_word(word: &str) -> (value: Option<FyfthVariant>)
    ensures
        match value {
            Some(found) => control_word(word@) == Some(found@),
            None => control_word(word@) is None,
        },
{
    if str_eq(word, "nil") {
        Some(FyfthVariant::Nil)
    } else if str_eq(word, "iter") {
        Some(FyfthVariant::FnIter)
    } else if str_eq(word, "true") {
        Some(FyfthVariant::Bool(true))
    } else if str_eq(word, "false") {
        Some(FyfthVariant::Bool(false))
    } else if str_eq(word, "macro") {
        Some(FyfthVariant::Macro)
    } else if str_eq(word, "queue") {
        Some(FyfthVariant::FnQueue)
    } else if str_eq(word, "dup") {
        Some(FyfthVariant::FnDup)
    } else if str_eq(word, "swap") {
        Some(FyfthVariant::FnSwap)
    } else if str_eq(word, ";") {
        Some(FyfthVariant::LineEnd)
    } else if str_eq(word, "swap_n") {
        Some(FyfthVariant::FnSwapN)
    } else if str_eq(word, "rotr") {
        Some(FyfthVariant::FnRotRN)
    } else if str_eq(word, "rotl") {
        Some(FyfthVariant::FnRotLN)
    } else if str_eq(word, "push") {
        Some(FyfthVariant::FnPush)
    } else {
        None
    }
}

/// What a word that is neither prefixed nor quoted stands for, given the
/// number that it writes, if it writes one.
pub fn classify_word(
    word: String,
    number: Option<FyfthNum>,
    lang: &FyfthLanguageExtension,
) -> (entry:
    FyfthVariant)
    ensures
        entry@ == classify(word@, number, lang.commands()),
{
    match number {
        Some(n) => FyfthVariant::Num(n),
        None => match parse_control_word(word.as_str()) {
            Some(value) => value,
            None => match lang.get_command_id(word.as_str()) {
                Some(index) => FyfthVariant::LangFunc(index),
                None => FyfthVariant::Literal(word),
            },
        },
    }
}

/// The entries that a base prefix makes of the word behind it, if the
/// vocabulary has the commands that they name. For a prefix of the host this
/// is `None`.
pub open spec fn base_expansion(
    parser: FyfthPrefixParser,
    word: Seq<char>,
    commands: Seq<FyfthCommandSpec>,
) -> Option<Result<Seq<FyfthValue>, ()>> {
    let load = find_command(commands, "load"@);
    let index = find_command(commands, "index"@);
    match parser {
        FyfthPrefixParser::Load => Some(
            match load {
                Some(load) => Ok(seq![FyfthValue::Literal(word), FyfthValue::LangFunc(load as u32)]),
                None => Err(()),
            },
        ),
        FyfthPrefixParser::QueueMacro => Some(
            match load {
                Some(load) => Ok(
                    seq![
                        FyfthValue::Literal(word),
                        FyfthValue::LangFunc(load as u32),
                        FyfthValue::FnQueue,
                    ],
                ),
                None => Err(()),
            },
        ),
        FyfthPrefixParser::FuzzyEntity => Some(
            match (load, index) {
                (Some(load), Some(index)) => Ok(
                    seq![
                        FyfthValue::Literal(word),
                        FyfthValue::Literal("fuzzent"@),
                        FyfthValue::LangFunc(load as u32),
                        FyfthValue::FnQueue,
                        FyfthValue::Num(FyfthNum { bits: 0 }),
                        FyfthValue::LangFunc(index as u32),
                    ],
                ),
                _ => Err(()),
            },
        ),
        FyfthPrefixParser::Host(_) => None,
    }
}

/// `*word` becomes: the word as text, `load`.
pub fn fyfth_prefix_load(word: &str, lang: &FyfthLanguageExtension) -> (entries: Result<
    Vec<FyfthVariant>,
    (),
>)
    ensures
        match base_expansion(FyfthPrefixParser::Load, word@, lang.commands())->0 {
            Ok(expected) => entries matches Ok(found) && views(found@) == expected,
            Err(_) => entries is Err,
        },
{
    match lang.get_command_id("load") {
        Some(load) => {
            let found = vec![
                FyfthVariant::Literal(String::from_str(word)),
                FyfthVariant::LangFunc(load),
            ];
            assert(views(found@) =~= seq![FyfthValue::Literal(word@), FyfthValue::LangFunc(load)]);
            Ok(found)
        },
        None => Err(()),
    }
}

/// `$word` becomes: the word as text, `load`, `queue`.
pub fn fyfth_prefix_queue_macro(word: &str, lang: &FyfthLanguageExtension) -> (entries: Result<
    Vec<FyfthVariant>,
    (),
>)
    ensures
        match base_expansion(FyfthPrefixParser::QueueMacro, word@, lang.commands())->0 {
            Ok(expected) => entries matches Ok(found) && views(found@) == expected,
            Err(_) => entries is Err,
        },
{
    match lang.get_command_id("load") {
        Some(load) => {
            let found = vec![
                FyfthVariant::Literal(String::from_str(word)),
                FyfthVariant::LangFunc(load),
                FyfthVariant::FnQueue,
            ];
            assert(views(found@) =~= seq![
                FyfthValue::Literal(word@),
                FyfthValue::LangFunc(load),
                FyfthValue::FnQueue,
            ]);
            Ok(found)
        },
        None => Err(()),
    }
}

/// `@word` becomes: the word as text, `"fuzzent"`, `load`, `queue`, `0`, `index`.
pub fn fyfth_prefix_fuzzy_entity(word: &str, lang: &FyfthLanguageExtension) -> (entries: Result<
    Vec<FyfthVariant>,
    (),
>)
    ensures
        match base_expansion(FyfthPrefixParser::FuzzyEntity, word@, lang.commands())->0 {
            Ok(expected) => entries matches Ok(found) && views(found@) == expected,
            Err(_) => entries is Err,
        },
{
    let load = match lang.get_command_id("load") {
        Some(load) => load,
        None => {
            return Err(());
        },
    };
    let index = match lang.get_command_id("index") {
        Some(index) => index,
        None => {
            return Err(());
        },
    };
    let found = vec![
        FyfthVariant::Literal(String::from_str(word)),
        FyfthVariant::Literal(String::from_str("fuzzent")),
        FyfthVariant::LangFunc(load),
        FyfthVariant::FnQueue,
        FyfthVariant::Num(FyfthNum::from_bits(0)),
        FyfthVariant::LangFunc(index),
    ];
    assert(views(found@) =~= seq![
        FyfthValue::Literal(word@),
        FyfthValue::Literal("fuzzent"@),
        FyfthValue::LangFunc(load),
        FyfthValue::FnQueue,
        FyfthValue::Num(FyfthNum { bits: 0 }),
        FyfthValue::LangFunc(index),
    ]);
    Ok(found)
}

/// The entries that a prefix makes of the word behind it.
pub fn expand_prefix<H: FyfthHost>(
    parser: FyfthPrefixParser,
    word: &str,
    lang: &FyfthLanguageExtension,
    world: &H,
) -> (entries: Result<Vec<FyfthVariant>, ()>)
    ensures
        base_expansion(parser, word@, lang.commands()) matches Some(outcome) ==> match outcome {
            Ok(expected) => entries matches Ok(found) && views(found@) == expected,
            Err(_) => entries is Err,
        },
{
    match parser {
        FyfthPrefixParser::Load => fyfth_prefix_load(word, lang),
        FyfthPrefixParser::QueueMacro => fyfth_prefix_queue_macro(word, lang),
        FyfthPrefixParser::FuzzyEntity => fyfth_prefix_fuzzy_entity(word, lang),
        FyfthPrefixParser::Host(code) => world.expand_prefix(code, word, lang),
    }
}

/// What holds after a word has been read. A prefixed word puts the entries
/// into the queue that its prefix makes of it; if the prefix cannot be
/// expanded, the word is a lex error and the queue stays as it is. A quoted
/// word puts itself into the queue as a text. Any other word puts one entry
/// into the queue: what [`classify`] says, given the number that the host
/// reads in it.
pub open spec fn word_holds(
    prefixes: Seq<PrefixInfo>,
    commands: Seq<FyfthCommandSpec>,
    word: FyfthWordSpec,
    queue: Seq<FyfthValue>,
    queue_after: Seq<FyfthValue>,
    result: Result<(), FyfthError>,
) -> bool {
    match word.maybe_prefix {
        Some(index) => if index < prefixes.len() {
            match base_expansion(prefixes[index as int].parser, word.word, commands) {
                Some(Ok(entries)) => result is Ok && queue_after == queue + entries,
                Some(Err(_)) => result == Err::<(), FyfthError>(FyfthError::LexError)
                    && queue_after == queue,
                None => if result is Ok {
                    exists|entries: Seq<FyfthValue>| queue_after == #[trigger] (queue + entries)
                } else {
                    result == Err::<(), FyfthError>(FyfthError::LexError) && queue_after == queue
                },
            }
        } else {
            result == Err::<(), FyfthError>(FyfthError::LexError) && queue_after == queue
        },
        None => result is Ok && if word.in_quotes {
            queue_after == queue.push(FyfthValue::Literal(word.word))
        } else {
            exists|number: Option<FyfthNum>|
                queue_after == queue.push(#[trigger] classify(word.word, number, commands))
        },
    }
}

/// What holds after a source text has been read, of the queues after each
/// of its words: each word is read as [`word_holds`] says; reading stops, with
/// a lex error, at the first word that is an error or cannot be read, and
/// what the words before it put into the queue stays there.
pub open spec fn code_holds(
    prefixes: Seq<PrefixInfo>,
    commands: Seq<FyfthCommandSpec>,
    words: Seq<Result<FyfthWordSpec, FyfthError>>,
    start: Seq<FyfthValue>,
    end: Seq<FyfthValue>,
    queues: Seq<Seq<FyfthValue>>,
    result: Result<(), FyfthError>,
) -> bool {
    &&& 1 <= queues.len() <= words.len() + 1
    &&& queues[0] == start
    &&& queues.last() == end
    &&& forall|i: int|
        0 <= i < queues.len() - 1 ==> ((#[trigger] words[i]) matches Ok(word) && word_holds(
            prefixes,
            commands,
            word,
            queues[i],
            queues[i + 1],
            Ok(()),
        ))
    &&& if queues.len() == words.len() + 1 {
        result is Ok
    } else {
        result == Err::<(), FyfthError>(FyfthError::LexError) && match words[queues.len() - 1] {
            Err(_) => true,
            Ok(word) => word_holds(
                prefixes,
                commands,
                word,
                queues.last(),
                queues.last(),
                Err(FyfthError::LexError),
            ),
        }
    }
}

/// The words of a text from a position on are the word that the next step
/// gives and the words from the position behind it on.
pub proof fn lemma_lex_all_unfold(text: Seq<char>, prefixes: Seq<PrefixInfo>, from: int)
    requires
        0 <= from,
    ensures
        lex_all(text, prefixes, from) == match lex_step(text, prefixes, from) {
            LexStep::Done => Seq::<Result<FyfthWordSpec, FyfthError>>::empty(),
            LexStep::Word { word, position } => seq![Ok(word)] + lex_all(text, prefixes, position),
            LexStep::Error { position } => seq![Err(FyfthError::LexError)] + lex_all(
                text,
                prefixes,
                position,
            ),
        },
{
    lemma_lex_step_advances(text, prefixes, from);
}

} // verus!
