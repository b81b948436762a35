use std::sync::Arc;

use fyfth::host::FyfthError;
use fyfth::language::{FyfthLanguageExtension, FyfthPrefixParser};
use fyfth::lexer::{is_whitespace, FyfthLexer, FyfthWord};

fn collect(mut lexer: FyfthLexer) -> Vec<Result<FyfthWord, FyfthError>> {
    let mut found = Vec::new();
    while let Some(word) = lexer.next() {
        found.push(word);
    }
    found
}

fn words_of(input: &str) -> Vec<String> {
    let lang = FyfthLanguageExtension::base_fyfth();
    collect(FyfthLexer::iter(input, Arc::new(lang)))
        .into_iter()
        .map(|fw| fw.unwrap().word)
        .collect()
}

#[test]
fn test_lexer_simple() {
    let input = r#"foo bar baz"#;
    let lang = FyfthLanguageExtension::base_fyfth();
    let lexer = FyfthLexer::iter(input, Arc::new(lang));
    let commands: Vec<_> = collect(lexer).into_iter().map(|fw| fw.unwrap().word).collect();
    let expected = &["foo", "bar", "baz"];

    assert_eq!(&commands, expected);
}

#[test]
fn test_lexer_multi_line() {
    let input = r#"foo
bar
baz
"#;
    let lang = FyfthLanguageExtension::base_fyfth();
    let lexer = FyfthLexer::iter(input, Arc::new(lang));
    let commands: Vec<_> = collect(lexer).into_iter().map(|fw| fw.unwrap().word).collect();
    let expected = &["foo", "bar", "baz"];

    assert_eq!(&commands, expected);
}

#[test]
fn test_lexer_multi_line_with_comments() {
    let input = r#"foo          # this is the first command
bar                                       # and this is the second
baz                                       # and third
"#;
    let lang = FyfthLanguageExtension::base_fyfth();
    let lexer = FyfthLexer::iter(input, Arc::new(lang));
    let commands: Vec<_> = collect(lexer).into_iter().map(|fw| fw.unwrap().word).collect();
    let expected = &["foo", "bar", "baz"];

    assert_eq!(&commands, expected);
}

#[test]
fn test_lexer_multi_line_with_comments_quotes() {
    let input = r#""foo"        # this is the first command
bar                                       # and this is the second
"baz"                                     # and third
"#;
    let lang = FyfthLanguageExtension::base_fyfth();
    let lexer = FyfthLexer::iter(input, Arc::new(lang));
    let commands: Vec<_> = collect(lexer).into_iter().map(|fw| fw.unwrap().word).collect();
    let expected = &["foo", "bar", "baz"];

    assert_eq!(&commands, expected);
}

#[test]
fn test_lexer_multi_line_with_comments_quotes_missing_closing_quote() {
    let input = r#""foo         # this is the first command
bar                                       # and this is the second
"baz                                      # and third
"#;
    let lang = FyfthLanguageExtension::base_fyfth();
    let lexer = FyfthLexer::iter(input, Arc::new(lang));
    let commands: Vec<_> = collect(lexer).into_iter().map(|fw| fw.unwrap().word).collect();
    let expected = &[
        "foo         ",
        "bar",
        "baz                                      ",
    ];

    assert_eq!(&commands, expected);
}

#[test]
fn test_lexer_multi_line_with_comments_quotes_escaped_chars() {
    let input = r#""foo\nand or\nbar"      # this is the first command
bar                                                  # and this is the second
"baz\\\\\\"                                          # and third
"#;
    let lang = FyfthLanguageExtension::base_fyfth();
    let lexer = FyfthLexer::iter(input, Arc::new(lang));
    let commands: Vec<_> = collect(lexer).into_iter().map(|fw| fw.unwrap().word).collect();
    let expected = &["foo\nand or\nbar", "bar", "baz\\\\\\"];

    assert_eq!(&commands, expected);
}

#[test]
fn test_lexer_prefix() {
    let input = r#"@foo bar ^"foo bar" baz"#;
    let mut lang = FyfthLanguageExtension::new_empty();
    lang.with_prefix('@', FyfthPrefixParser::Host(0));
    lang.with_prefix('^', FyfthPrefixParser::Host(0));
    let lexer: Vec<_> = collect(FyfthLexer::iter(input, Arc::new(lang)));
    let command_words: Vec<_> = lexer
        .iter()
        .map(|fw| fw.as_ref().unwrap().word.clone())
        .collect();
    let command_prefixes: Vec<_> = lexer
        .iter()
        .map(|fw| fw.as_ref().unwrap().maybe_prefix)
        .collect();
    let expected_words = &["foo", "bar", "foo bar", "baz"];
    let expected_prefixes = &[Some(0), None, Some(1), None];

    assert_eq!(&command_words, expected_words);
    assert_eq!(&command_prefixes, expected_prefixes);
}

#[test]
fn words_are_found_between_blank_and_comment_lines() {
    let input = "\n   \n# nothing here\nfoo bar baz\n\n#\n   # more\n";
    assert_eq!(words_of(input), vec!["foo", "bar", "baz"]);
    assert_eq!(words_of("  \t foo\tbar \u{a0} baz  "), vec!["foo", "bar", "baz"]);
}

#[test]
fn quoted_word_is_decoded_and_unquoted() {
    let lang = FyfthLanguageExtension::base_fyfth();
    let found = collect(FyfthLexer::iter(r#""foo\nbar" baz"#, Arc::new(lang)));
    assert_eq!(found.len(), 2);
    let first = found[0].as_ref().unwrap();
    assert_eq!(first.word, "foo\nbar");
    assert!(first.in_quotes);
    assert_eq!(first.maybe_prefix, None);
    let second = found[1].as_ref().unwrap();
    assert_eq!(second.word, "baz");
    assert!(!second.in_quotes);
}

#[test]
fn unterminated_quote_runs_to_the_end() {
    let lang = FyfthLanguageExtension::base_fyfth();
    let found = collect(FyfthLexer::iter(r#""abc"#, Arc::new(lang)));
    assert_eq!(found.len(), 1);
    let word = found[0].as_ref().unwrap();
    assert_eq!(word.word, "abc");
    assert!(word.in_quotes);
}

#[test]
fn all_escapes_are_decoded() {
    assert_eq!(words_of(r#""a\tb\rc\"d\\e""#), vec!["a\tb\rc\"d\\e"]);
}

#[test]
fn unknown_escape_is_dropped_and_reported() {
    let lang = FyfthLanguageExtension::base_fyfth();
    let found = collect(FyfthLexer::iter(r#""a\qb\zc""#, Arc::new(lang)));
    let word = found[0].as_ref().unwrap();
    assert_eq!(word.word, "abc");
    assert_eq!(word.dropped_escapes, vec!['q', 'z']);
}

#[test]
fn backslash_at_end_of_quote_is_dropped() {
    assert_eq!(words_of("\"abc\\"), vec!["abc"]);
}

#[test]
fn escaped_quote_right_after_opening_quote() {
    assert_eq!(words_of(r#""\"abc" x"#), vec!["\"abc", "x"]);
}

#[test]
fn empty_quoted_word() {
    let lang = FyfthLanguageExtension::base_fyfth();
    let found = collect(FyfthLexer::iter(r#""" x"#, Arc::new(lang)));
    assert_eq!(found.len(), 2);
    assert_eq!(found[0].as_ref().unwrap().word, "");
    assert!(found[0].as_ref().unwrap().in_quotes);
    assert_eq!(found[1].as_ref().unwrap().word, "x");
}

#[test]
fn comment_starts_at_first_hash_even_inside_quotes() {
    assert_eq!(words_of("\"a # b\" c"), vec!["a "]);
    assert_eq!(words_of("foo#bar baz"), vec!["foo"]);
}

#[test]
fn carriage_return_before_line_feed_belongs_to_line_end() {
    assert_eq!(words_of("\"abc\r\nx\r\n"), vec!["abc", "x"]);
    assert_eq!(words_of("\"abc\r"), vec!["abc\r"]);
}

#[test]
fn quote_inside_a_word_is_part_of_the_word() {
    assert_eq!(words_of("foo\"bar baz"), vec!["foo\"bar", "baz"]);
}

#[test]
fn base_prefixes_are_recognized() {
    let lang = FyfthLanguageExtension::base_fyfth();
    let found = collect(FyfthLexer::iter("*a $b @c d * e", Arc::new(lang)));
    let prefixes: Vec<_> = found.iter().map(|w| w.as_ref().unwrap().maybe_prefix).collect();
    let words: Vec<_> = found.iter().map(|w| w.as_ref().unwrap().word.clone()).collect();
    assert_eq!(prefixes, vec![Some(0), Some(1), Some(2), None, Some(0)]);
    assert_eq!(words, vec!["a", "b", "c", "d", "e"]);
}

#[test]
fn prefix_applies_to_first_character_only() {
    let lang = FyfthLanguageExtension::base_fyfth();
    let found = collect(FyfthLexer::iter("**a a*b", Arc::new(lang)));
    assert_eq!(found[0].as_ref().unwrap().word, "*a");
    assert_eq!(found[0].as_ref().unwrap().maybe_prefix, Some(0));
    assert_eq!(found[1].as_ref().unwrap().word, "a*b");
    assert_eq!(found[1].as_ref().unwrap().maybe_prefix, None);
}

#[test]
fn prefix_without_word_is_a_lex_error() {
    let lang = FyfthLanguageExtension::base_fyfth();
    let found = collect(FyfthLexer::iter("foo @", Arc::new(lang)));
    assert_eq!(found.len(), 2);
    assert_eq!(found[0].as_ref().unwrap().word, "foo");
    assert_eq!(found[1].as_ref().unwrap_err(), &FyfthError::LexError);
}

#[test]
fn prefix_at_end_of_line_is_a_lex_error_and_reading_goes_on() {
    let lang = FyfthLanguageExtension::base_fyfth();
    let found = collect(FyfthLexer::iter("@   # nothing\nbar", Arc::new(lang)));
    assert_eq!(found.len(), 2);
    assert!(found[0].is_err());
    assert_eq!(found[1].as_ref().unwrap().word, "bar");
}

#[test]
fn empty_text_has_no_words() {
    assert!(words_of("").is_empty());
    assert!(words_of("   \n\n # only a comment").is_empty());
}

#[test]
fn lexer_is_restartable() {
    let first = words_of("a b c");
    let second = words_of("a b c");
    assert_eq!(first, second);
}

#[test]
fn whitespace_agrees_with_the_standard_library() {
    let mut code: u32 = 0;
    while code <= 0x10ffff {
        if let Some(ch) = char::from_u32(code) {
            assert_eq!(is_whitespace(ch), ch.is_whitespace(), "at {:x}", code);
        }
        code += 1;
    }
}
