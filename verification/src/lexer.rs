//! The tokenizer: from a source text to its words.
//!
//! A text is read line by line. A line ends at its first `#`; what follows is
//! a comment. What is left is cut into words at white space, except inside
//! double quotes.

use std::sync::Arc;
use vstd::prelude::*;
use crate::host::FyfthError;
use crate::language::{find_prefix, FyfthLanguageExtension, PrefixInfo};
use crate::text::{chars_of, string_of, string_push};

verus! {

/// A word of a source text.
#[derive(Debug)]
pub struct FyfthWord {
    /// The text of the word: without its prefix character, and for a quoted
    /// word without its quotes and with its escapes decoded.
    pub word: String,
    /// The index of the prefix that the word began with, if it began with one.
    pub maybe_prefix: Option<u32>,
    /// Whether the word was written in double quotes.
    pub in_quotes: bool,
    /// The characters that stood behind a backslash in a quoted word and name
    /// no escape. They are left out of the word.
    pub dropped_escapes: Vec<char>,
}

/// What a [`FyfthWord`] holds.
pub struct FyfthWordSpec {
    pub word: Seq<char>,
    pub maybe_prefix: Option<u32>,
    pub in_quotes: bool,
    pub dropped_escapes: Seq<char>,
}

impl View for FyfthWord {
    type V = FyfthWordSpec;

    open spec fn view(&self) -> FyfthWordSpec {
        FyfthWordSpec {
            word: self.word@,
            maybe_prefix: self.maybe_prefix,
            in_quotes: self.in_quotes,
            dropped_escapes: self.dropped_escapes@,
        }
    }
}

/// The characters with the Unicode property `White_Space`.
pub open spec fn is_whitespace_char(ch: char) -> bool {
    let code = ch as u32;
    ||| 0x09 <= code <= 0x0d
    ||| code == 0x20
    ||| code == 0x85
    ||| code == 0xa0
    ||| code == 0x1680
    ||| 0x2000 <= code <= 0x200a
    ||| code == 0x2028
    ||| code == 0x2029
    ||| code == 0x202f
    ||| code == 0x205f
    ||| code == 0x3000
}

/// Whether `ch` is white space.
pub fn is_whitespace(ch: char) -> (white: bool)
    ensures
        white == is_whitespace_char(ch),
{
    let code = ch as u32;
    (0x09 <= code && code <= 0x0d) || code == 0x20 || code == 0x85 || code == 0xa0 || code
        == 0x1680 || (0x2000 <= code && code <= 0x200a) || code == 0x2028 || code == 0x2029 || code
        == 0x202f || code == 0x205f || code == 0x3000
}

/// The first position at or after `from` that holds a `#` or a line feed; the
/// length of the text if there is none.
pub open spec fn first_stop(text: Seq<char>, from: int) -> int
    decreases text.len() - from,
{
    if from >= text.len() {
        text.len() as int
    } else if text[from] == '#' || text[from] == '\n' {
        from
    } else {
        first_stop(text, from + 1)
    }
}

/// The first position at or after `from` that holds a line feed; the length of
/// the text if there is none.
pub open spec fn line_break(text: Seq<char>, from: int) -> int
    decreases text.len() - from,
{
    if from >= text.len() {
        text.len() as int
    } else if text[from] == '\n' {
        from
    } else {
        line_break(text, from + 1)
    }
}

/// Where the line after the one that holds `from` begins.
pub open spec fn next_line(text: Seq<char>, from: int) -> int {
    let stop = line_break(text, from);
    if stop < text.len() {
        stop + 1
    } else {
        text.len() as int
    }
}

/// Where what is to be read of the line that holds `from` ends: at its
/// comment, or at its line end, a carriage return before the line feed
/// belonging to the line end.
pub open spec fn content_end(text: Seq<char>, from: int) -> int {
    let stop = first_stop(text, from);
    if from < stop < text.len() && text[stop] == '\n' && text[stop - 1] == '\r' {
        stop - 1
    } else {
        stop
    }
}

/// The first position in `from..limit` that holds no white space; `limit` if
/// there is none.
pub open spec fn skip_whitespace(text: Seq<char>, from: int, limit: int) -> int
    decreases limit - from,
{
    if from >= limit {
        limit
    } else if is_whitespace_char(text[from]) {
        skip_whitespace(text, from + 1, limit)
    } else {
        from
    }
}

/// The first position in `from..limit` that holds white space; `limit` if
/// there is none.
pub open spec fn word_end(text: Seq<char>, from: int, limit: int) -> int
    decreases limit - from,
{
    if from >= limit {
        limit
    } else if is_whitespace_char(text[from]) {
        from
    } else {
        word_end(text, from + 1, limit)
    }
}

/// The first position in `from..limit` that holds a double quote which no
/// backslash escapes; `limit` if there is none. `escaped` says whether the
/// character at `from` stands behind an escaping backslash.
pub open spec fn quote_end(text: Seq<char>, from: int, limit: int, escaped: bool) -> int
    decreases limit - from,
{
    if from >= limit {
        limit
    } else if text[from] == '\\' {
        quote_end(text, from + 1, limit, !escaped)
    } else if text[from] == '"' && !escaped {
        from
    } else {
        quote_end(text, from + 1, limit, false)
    }
}

/// What the escape `\ch` stands for, if it is one.
pub open spec fn escape_value(ch: char) -> Option<char> {
    if ch == 'n' {
        Some('\n')
    } else if ch == 't' {
        Some('\t')
    } else if ch == 'r' {
        Some('\r')
    } else if ch == '"' {
        Some('"')
    } else if ch == '\\' {
        Some('\\')
    } else {
        None
    }
}

/// The text between two quotes with its escapes decoded. A backslash and the
/// character behind it that name no escape are left out, and so is a
/// backslash at the very end.
pub open spec fn unescape(raw: Seq<char>) -> Seq<char>
    decreases raw.len(),
{
    if raw.len() == 0 {
        Seq::empty()
    } else if raw[0] != '\\' {
        seq![raw[0]] + unescape(raw.skip(1))
    } else if raw.len() == 1 {
        Seq::empty()
    } else {
        match escape_value(raw[1]) {
            Some(ch) => seq![ch] + unescape(raw.skip(2)),
            None => unescape(raw.skip(2)),
        }
    }
}

/// The characters that stand behind a backslash in `raw` and name no escape.
pub open spec fn dropped_escapes(raw: Seq<char>) -> Seq<char>
    decreases raw.len(),
{
    if raw.len() == 0 {
        Seq::empty()
    } else if raw[0] != '\\' {
        dropped_escapes(raw.skip(1))
    } else if raw.len() == 1 {
        Seq::empty()
    } else {
        match escape_value(raw[1]) {
            Some(_) => dropped_escapes(raw.skip(2)),
            None => seq![raw[1]] + dropped_escapes(raw.skip(2)),
        }
    }
}

/// What reading on from a position gives.
pub enum LexStep {
    /// Nothing is left but white space and comments.
    Done,
    /// A word, and the position behind it.
    Word { word: FyfthWordSpec, position: int },
    /// A prefix character with no word behind it on its line, and the position
    /// at which that line's content ends.
    Error { position: int },
}

/// The word that begins at `at`, a position before `limit` that holds no white
/// space, in a line whose content ends at `limit`.
pub open spec fn lex_word(
    text: Seq<char>,
    prefixes: Seq<PrefixInfo>,
    at: int,
    limit: int,
) -> LexStep {
    let prefix = if text[at] == '"' {
        None
    } else {
        find_prefix(prefixes, text[at])
    };
    let maybe_prefix = match prefix {
        Some(index) => Some(index as u32),
        None => None,
    };
    let start = if prefix is Some {
        skip_whitespace(text, at + 1, limit)
    } else {
        at
    };
    if start >= limit {
        LexStep::Error { position: limit }
    } else if text[start] == '"' {
        let close = quote_end(text, start + 1, limit, false);
        let raw = text.subrange(start + 1, close);
        LexStep::Word {
            word: FyfthWordSpec {
                word: unescape(raw),
                maybe_prefix,
                in_quotes: true,
                dropped_escapes: dropped_escapes(raw),
            },
            position: if close < limit {
                close + 1
            } else {
                limit
            },
        }
    } else {
        let end = word_end(text, start, limit);
        LexStep::Word {
            word: FyfthWordSpec {
                word: text.subrange(start, end),
                maybe_prefix,
                in_quotes: false,
                dropped_escapes: Seq::empty(),
            },
            position: end,
        }
    }
}

/// What reading on from `from` gives: lines that hold nothing but white space
/// and a comment are passed over.
pub open spec fn lex_step(text: Seq<char>, prefixes: Seq<PrefixInfo>, from: int) -> LexStep
    decreases text.len() - from,
{
    if from < 0 || from >= text.len() {
        LexStep::Done
    } else {
        let limit = content_end(text, from);
        let at = skip_whitespace(text, from, limit);
        if at >= limit {
            if next_line(text, from) > from {
                lex_step(text, prefixes, next_line(text, from))
            } else {
                LexStep::Done
            }
        } else {
            lex_word(text, prefixes, at, limit)
        }
    }
}

/// All that reading from `from` to the end gives, in order: each word, and
/// `Err` for each prefix character with no word behind it.
pub open spec fn lex_all(text: Seq<char>, prefixes: Seq<PrefixInfo>, from: int) -> Seq<
    Result<FyfthWordSpec, FyfthError>,
>
    decreases text.len() - from,
{
    match lex_step(text, prefixes, from) {
        LexStep::Done => Seq::empty(),
        LexStep::Word { word, position } => if from < position <= text.len() {
            seq![Ok(word)] + lex_all(text, prefixes, position)
        } else {
            seq![Ok(word)]
        },
        LexStep::Error { position } => if from < position <= text.len() {
            seq![Err(FyfthError::LexError)] + lex_all(text, prefixes, position)
        } else {
            seq![Err(FyfthError::LexError)]
        },
    }
}

#[verifier::loop_isolation(false)]
fn scan_first_stop(chars: &Vec<char>, from: usize) -> (stop: usize)
    requires
        from <= chars.len(),
    ensures
        stop == first_stop(chars@, from as int),
        from <= stop <= chars.len(),
        stop < chars.len() ==> chars@[stop as int] == '#' || chars@[stop as int] == '\n',
{
    let mut at: usize = from;
    while at < chars.len() && chars[at] != '#' && chars[at] != '\n'
        invariant
            from <= at <= chars.len(),
            first_stop(chars@, from as int) == first_stop(chars@, at as int),
        decreases chars.len() - at,
    {
        at += 1;
    }
    at
}

#[verifier::loop_isolation(false)]
fn scan_line_break(chars: &Vec<char>, from: usize) -> (stop: usize)
    requires
        from <= chars.len(),
    ensures
        stop == line_break(chars@, from as int),
        from <= stop <= chars.len(),
{
    let mut at: usize = from;
    while at < chars.len() && chars[at] != '\n'
        invariant
            from <= at <= chars.len(),
            line_break(chars@, from as int) == line_break(chars@, at as int),
        decreases chars.len() - at,
    {
        at += 1;
    }
    at
}

#[verifier::loop_isolation(false)]
fn scan_whitespace(chars: &Vec<char>, from: usize, limit: usize) -> (stop: usize)
    requires
        from <= limit <= chars.len(),
    ensures
        stop == skip_whitespace(chars@, from as int, limit as int),
        from <= stop <= limit,
        stop < limit ==> !is_whitespace_char(chars@[stop as int]),
{
    let mut at: usize = from;
    while at < limit && is_whitespace(chars[at])
        invariant
            from <= at <= limit,
            skip_whitespace(chars@, from as int, limit as int) == skip_whitespace(
                chars@,
                at as int,
                limit as int,
            ),
        decreases limit - at,
    {
        at += 1;
    }
    at
}

#[verifier::loop_isolation(false)]
fn scan_word(chars: &Vec<char>, from: usize, limit: usize) -> (stop: usize)
    requires
        from <= limit <= chars.len(),
    ensures
        stop == word_end(chars@, from as int, limit as int),
        from <= stop <= limit,
        from < limit && !is_whitespace_char(chars@[from as int]) ==> from < stop,
{
    let mut at: usize = from;
    while at < limit && !is_whitespace(chars[at])
        invariant
            from <= at <= limit,
            word_end(chars@, from as int, limit as int) == word_end(
                chars@,
                at as int,
                limit as int,
            ),
            from < limit && !is_whitespace_char(chars@[from as int]) && at == from ==> at < limit,
        decreases limit - at,
    {
        at += 1;
    }
    at
}

#[verifier::loop_isolation(false)]
fn scan_quote(chars: &Vec<char>, from: usize, limit: usize) -> (stop: usize)
    requires
        from <= limit <= chars.len(),
    ensures
        stop == quote_end(chars@, from as int, limit as int, false),
        from <= stop <= limit,
{
    let mut at: usize = from;
    let mut escaped = false;
    while at < limit
        invariant
            from <= at <= limit,
            quote_end(chars@, from as int, limit as int, false) == quote_end(
                chars@,
                at as int,
                limit as int,
                escaped,
            ),
        decreases limit - at,
    {
        let ch = chars[at];
        if ch == '\\' {
            escaped = !escaped;
        } else if ch == '"' && !escaped {
            return at;
        } else {
            escaped = false;
        }
        at += 1;
    }
    at
}

/// What the escape `\ch` stands for, if it is one.
fn escape(ch: char) -> (value: Option<char>)
    ensures
        value == escape_value(ch),
{
    if ch == 'n' {
        Some('\n')
    } else if ch == 't' {
        Some('\t')
    } else if ch == 'r' {
        Some('\r')
    } else if ch == '"' {
        Some('"')
    } else if ch == '\\' {
        Some('\\')
    } else {
        None
    }
}

#[verifier::loop_isolation(false)]
fn decode(chars: &Vec<char>, from: usize, to: usize) -> (decoded: (String, Vec<char>))
    requires
        from <= to <= chars.len(),
    ensures
        decoded.0@ == unescape(chars@.subrange(from as int, to as int)),
        decoded.1@ == dropped_escapes(chars@.subrange(from as int, to as int)),
{
    let ghost raw = chars@.subrange(from as int, to as int);
    let mut word = String::new();
    let mut dropped: Vec<char> = Vec::new();
    let mut at: usize = from;
    assert(raw.skip(0) =~= raw);
    assert(word@ + unescape(raw) =~= unescape(raw));
    assert(dropped@ + dropped_escapes(raw) =~= dropped_escapes(raw));
    while at < to
        invariant
            from <= at <= to,
            word@ + unescape(raw.skip(at - from)) == unescape(raw),
            dropped@ + dropped_escapes(raw.skip(at - from)) == dropped_escapes(raw),
        decreases to - at,
    {
        let ghost rest = raw.skip(at - from);
        let ghost word_before = word@;
        let ghost dropped_before = dropped@;
        assert(rest.len() == to - at);
        assert(rest[0] == chars@[at as int]);
        let ch = chars[at];
        if ch != '\\' {
            string_push(&mut word, ch);
            at += 1;
            proof {
                assert(rest.skip(1) =~= raw.skip(at - from));
                assert(word@ + unescape(rest.skip(1)) =~= word_before + (seq![ch] + unescape(
                    rest.skip(1),
                )));
            }
        } else if at + 1 >= to {
            at += 1;
            proof {
                assert(raw.skip(at - from).len() == 0);
                assert(word@ + unescape(raw.skip(at - from)) =~= word_before + unescape(rest));
                assert(dropped@ + dropped_escapes(raw.skip(at - from)) =~= dropped_before
                    + dropped_escapes(rest));
            }
        } else {
            assert(rest[1] == chars@[at as int + 1]);
            let behind = chars[at + 1];
            match escape(behind) {
                Some(value) => {
                    string_push(&mut word, value);
                },
                None => {
                    dropped.push(behind);
                },
            }
            at += 2;
            proof {
                assert(rest.skip(2) =~= raw.skip(at - from));
                if escape_value(behind) is Some {
                    assert(word@ + unescape(rest.skip(2)) =~= word_before + (seq![
                        escape_value(behind)->0,
                    ] + unescape(rest.skip(2))));
                } else {
                    assert(dropped@ + dropped_escapes(rest.skip(2)) =~= dropped_before + (seq![
                        behind,
                    ] + dropped_escapes(rest.skip(2))));
                }
            }
        }
    }
    proof {
        assert(raw.skip(at - from).len() == 0);
        assert(word@ + unescape(raw.skip(at - from)) =~= word@);
        assert(dropped@ + dropped_escapes(raw.skip(at - from)) =~= dropped@);
    }
    (word, dropped)
}

/// Reads the words of a source text one after the other.
#[derive(Debug)]
pub struct FyfthLexer {
    chars: Vec<char>,
    position: usize,
    lang: Arc<FyfthLanguageExtension>,
}

/// A step from a position inside the text leads further into the text.
pub proof fn lemma_lex_step_advances(text: Seq<char>, prefixes: Seq<PrefixInfo>, from: int)
    requires
        0 <= from,
    ensures
        match lex_step(text, prefixes, from) {
            LexStep::Done => true,
            LexStep::Word { position, .. } => from < position <= text.len(),
            LexStep::Error { position } => from < position <= text.len(),
        },
    decreases text.len() - from,
{
    if from < text.len() {
        let limit = content_end(text, from);
        lemma_first_stop_bounds(text, from);
        let at = skip_whitespace(text, from, limit);
        lemma_skip_whitespace_bounds(text, from, limit);
        if at >= limit {
            if next_line(text, from) > from {
                lemma_line_break_bounds(text, from);
                lemma_lex_step_advances(text, prefixes, next_line(text, from));
            }
        } else {
            let prefix = if text[at] == '"' {
                None
            } else {
                find_prefix(prefixes, text[at])
            };
            if prefix is Some {
                lemma_skip_whitespace_bounds(text, at + 1, limit);
            }
            let start = if prefix is Some {
                skip_whitespace(text, at + 1, limit)
            } else {
                at
            };
            if start < limit {
                if text[start] == '"' {
                    lemma_quote_end_bounds(text, start + 1, limit, false);
                } else {
                    lemma_word_end_bounds(text, start, limit);
                }
            }
        }
    }
}

proof fn lemma_first_stop_bounds(text: Seq<char>, from: int)
    requires
        0 <= from <= text.len(),
    ensures
        from <= first_stop(text, from) <= text.len(),
        from <= content_end(text, from) <= text.len(),
    decreases text.len() - from,
{
    if from < text.len() && !(text[from] == '#' || text[from] == '\n') {
        lemma_first_stop_bounds(text, from + 1);
    }
}

proof fn lemma_line_break_bounds(text: Seq<char>, from: int)
    requires
        0 <= from <= text.len(),
    ensures
        from <= line_break(text, from) <= text.len(),
        from < text.len() ==> from < next_line(text, from) <= text.len(),
    decreases text.len() - from,
{
    if from < text.len() && text[from] != '\n' {
        lemma_line_break_bounds(text, from + 1);
    }
}

proof fn lemma_skip_whitespace_bounds(text: Seq<char>, from: int, limit: int)
    requires
        0 <= from <= limit <= text.len(),
    ensures
        from <= skip_whitespace(text, from, limit) <= limit,
        skip_whitespace(text, from, limit) < limit ==> !is_whitespace_char(
            text[skip_whitespace(text, from, limit)],
        ),
    decreases limit - from,
{
    if from < limit && is_whitespace_char(text[from]) {
        lemma_skip_whitespace_bounds(text, from + 1, limit);
    }
}

proof fn lemma_word_end_bounds(text: Seq<char>, from: int, limit: int)
    requires
        0 <= from <= limit <= text.len(),
    ensures
        from <= word_end(text, from, limit) <= limit,
        from < limit && !is_whitespace_char(text[from]) ==> from < word_end(text, from, limit),
    decreases limit - from,
{
    if from < limit && !is_whitespace_char(text[from]) {
        lemma_word_end_bounds(text, from + 1, limit);
    }
}

proof fn lemma_quote_end_bounds(text: Seq<char>, from: int, limit: int, escaped: bool)
    requires
        0 <= from <= limit <= text.len(),
    ensures
        from <= quote_end(text, from, limit, escaped) <= limit,
    decreases limit - from,
{
    if from < limit {
        if text[from] == '\\' {
            lemma_quote_end_bounds(text, from + 1, limit, !escaped);
        } else if !(text[from] == '"' && !escaped) {
            lemma_quote_end_bounds(text, from + 1, limit, false);
        }
    }
}

impl FyfthLexer {
    /// The text that is read.
    pub closed spec fn text(&self) -> Seq<char> {
        self.chars@
    }

    /// The position from which reading goes on.
    pub closed spec fn position(&self) -> int {
        self.position as int
    }

    /// The prefixes of the vocabulary by which the text is read.
    pub closed spec fn prefixes(&self) -> Seq<PrefixInfo> {
        self.lang.prefixes()
    }

    /// The words that are still to come.
    pub open spec fn remaining(&self) -> Seq<Result<FyfthWordSpec, FyfthError>> {
        lex_all(self.text(), self.prefixes(), self.position())
    }

    #[verifier::type_invariant]
    spec fn valid(&self) -> bool {
        self.position <= self.chars@.len()
    }

    /// A lexer at the beginning of `code`.
    pub fn iter(code: &str, lang: Arc<FyfthLanguageExtension>) -> (lexer: Self)
        ensures
            lexer.text() == code@,
            lexer.position() == 0,
            lexer.prefixes() == lang.prefixes(),
    {
        FyfthLexer { chars: chars_of(code), position: 0, lang }
    }

    /// The next word, or `None` when the text holds no further word. After a
    /// prefix character with no word behind it on its line, which gives
    /// `Err`, reading goes on behind that line.
    #[verifier::loop_isolation(false)]
    pub fn next(&mut self) -> (word: Option<Result<FyfthWord, FyfthError>>)
        ensures
            final(self).text() == old(self).text(),
            final(self).prefixes() == old(self).prefixes(),
            match lex_step(old(self).text(), old(self).prefixes(), old(self).position()) {
                LexStep::Done => word is None && final(self).position() == old(self).text().len(),
                LexStep::Word { word: expected, position } => word matches Some(Ok(found))
                    && found@ == expected && final(self).position() == position,
                LexStep::Error { position } => word == Some(
                    Err::<FyfthWord, FyfthError>(FyfthError::LexError),
                ) && final(self).position() == position,
            },
            old(self).position() <= final(self).position() <= old(self).text().len(),
            word is Some ==> old(self).position() < final(self).position(),
    {
        proof {
            use_type_invariant(&*self);
        }
        let ghost text = self.chars@;
        let ghost prefixes = self.lang.prefixes();
        let ghost begin = self.position as int;
        let mut from: usize = self.position;
        while from < self.chars.len()
            invariant
                begin <= from <= self.chars.len(),
                self.chars@ == text,
                self.lang.prefixes() == prefixes,
                self.position <= self.chars.len(),
                lex_step(text, prefixes, begin) == lex_step(text, prefixes, from as int),
            decreases self.chars.len() - from,
        {
            let stop = scan_first_stop(&self.chars, from);
            let limit = if from < stop && stop < self.chars.len() && self.chars[stop] == '\n'
                && self.chars[stop - 1] == '\r' {
                stop - 1
            } else {
                stop
            };
            let at = scan_whitespace(&self.chars, from, limit);
            if at >= limit {
                let line_stop = scan_line_break(&self.chars, from);
                proof {
                    lemma_line_break_bounds(text, from as int);
                }
                from = if line_stop < self.chars.len() {
                    line_stop + 1
                } else {
                    self.chars.len()
                };
                continue ;
            }
            proof {
                lemma_lex_step_advances(text, prefixes, from as int);
            }
            let first = self.chars[at];
            let maybe_prefix = if first == '"' {
                None
            } else {
                self.lang.get_prefix(first)
            };
            let start = if maybe_prefix.is_some() {
                scan_whitespace(&self.chars, at + 1, limit)
            } else {
                at
            };
            if start >= limit {
                self.position = limit;
                return Some(Err(FyfthError::LexError));
            }
            if self.chars[start] == '"' {
                let close = scan_quote(&self.chars, start + 1, limit);
                let (word, dropped_escapes) = decode(&self.chars, start + 1, close);
                self.position = if close < limit {
                    close + 1
                } else {
                    limit
                };
                return Some(Ok(FyfthWord { word, maybe_prefix, in_quotes: true, dropped_escapes }));
            }
            let end = scan_word(&self.chars, start, limit);
            let word = string_of(&self.chars, start, end);
            self.position = end;
            return Some(
                Ok(FyfthWord { word, maybe_prefix, in_quotes: false, dropped_escapes: Vec::new() }),
            );
        }
        self.position = self.chars.len();
        None
    }
}

/// A line that holds nothing but white space and a comment gives no word:
/// the words from a position in such a line on are the words from the next
/// line on.
pub proof fn lemma_blank_line_is_passed_over(text: Seq<char>, prefixes: Seq<PrefixInfo>, from: int)
    requires
        0 <= from < text.len(),
        skip_whitespace(text, from, content_end(text, from)) >= content_end(text, from),
    ensures
        lex_all(text, prefixes, from) == lex_all(text, prefixes, next_line(text, from)),
        from < next_line(text, from) <= text.len(),
{
    lemma_line_break_bounds(text, from);
    lemma_lex_step_advances(text, prefixes, from);
    lemma_lex_step_advances(text, prefixes, next_line(text, from));
}

/// White space before a word does not change the word: the words from a
/// position that holds white space on are the words from the next position on.
pub proof fn lemma_leading_whitespace_is_passed_over(
    text: Seq<char>,
    prefixes: Seq<PrefixInfo>,
    from: int,
)
    requires
        0 <= from < text.len(),
        from < content_end(text, from),
        is_whitespace_char(text[from]),
    ensures
        lex_step(text, prefixes, from) == lex_step(text, prefixes, from + 1),
{
    lemma_first_stop_bounds(text, from);
    assert(first_stop(text, from) == first_stop(text, from + 1));
    let stop = first_stop(text, from);
    if from + 1 < text.len() {
        assert(content_end(text, from + 1) == content_end(text, from) || stop == from + 1);
        if stop == from + 1 {
            lemma_line_break_bounds(text, from);
            lemma_line_break_bounds(text, from + 1);
            assert(line_break(text, from) == line_break(text, from + 1));
        }
    }
}

} // verus!
