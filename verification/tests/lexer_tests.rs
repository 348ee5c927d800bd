//! The adaptive lexer end to end: longest match, skipped rules, repeated
//! runs, recovery after an illegal character, and the stream discipline.

use antlr_rust::atn_deserializer::ATNDeserializer;
use antlr_rust::input_stream::InputStream;
use antlr_rust::lexer::BaseLexer;
use antlr_rust::lexer::LexerRecog;
use antlr_rust::lexer_atn_simulator::LexerATNSimulator;
use antlr_rust::token::OwningToken;
use antlr_rust::token::TOKEN_EOF;

struct PlainRecog;

impl LexerRecog for PlainRecog {
    fn sempred(&mut self, _rule_index: isize, _pred_index: isize) -> bool {
        true
    }

    fn action(&mut self, _rule_index: isize, _action_index: isize) {}
}

/// The two-rule word/whitespace lexer grammar used across these tests:
/// token 1 is a word over `a..z`, token 2 is whitespace and is skipped.
fn two_rule_lexer_words() -> Vec<u16> {
    vec![
        3, 24715, 42794, 33075, 47597, 16764, 15335, 30598, 22884, 2, 4, 16, 8, 1, 4, 2, 9, 2, 4,
        3, 9, 3, 3, 2, 6, 2, 9, 10, 2, 13, 2, 14, 2, 10, 3, 3, 3, 3, 3, 3, 3, 3, 2, 2, 4, 3, 3, 5,
        4, 3, 2, 3, 4, 2, 12, 12, 34, 34, 2, 16, 2, 3, 3, 2, 2, 2, 2, 5, 3, 2, 2, 2, 3, 8, 3, 2,
        2, 2, 5, 12, 3, 2, 2, 2, 7, 9, 4, 99, 124, 2, 8, 7, 3, 2, 2, 2, 9, 10, 3, 2, 2, 2, 10, 8,
        3, 2, 2, 2, 10, 11, 3, 2, 2, 2, 11, 4, 3, 2, 2, 2, 12, 13, 9, 2, 2, 2, 13, 14, 3, 2, 2, 2,
        14, 15, 8, 3, 2, 2, 15, 6, 3, 2, 2, 2, 4, 2, 10, 3, 8, 2, 2,
    ]
}

fn make_lexer(text: &str) -> BaseLexer<PlainRecog> {
    let words = two_rule_lexer_words();
    let d = ATNDeserializer::new(None);
    let atn = d.deserialize(&words).expect("well-formed serialized network");
    let sim = LexerATNSimulator::new_lexer_atnsimulator(atn);
    let input = InputStream::new(text).expect("input fits");
    BaseLexer::new_base_lexer(input, sim, PlainRecog)
}

fn lex_all(text: &str) -> Vec<OwningToken> {
    let mut lexer = make_lexer(text);
    lexer.get_all_tokens().expect("lexing terminates")
}

#[test]
fn words_and_skipped_whitespace() {
    let toks = lex_all("x y z");
    let types: Vec<isize> = toks.iter().map(|t| t.token_type).collect();
    assert_eq!(types, vec![1, 1, 1, TOKEN_EOF]);
    let texts: Vec<&str> = toks.iter().map(|t| t.text.as_str()).collect();
    assert_eq!(texts, vec!["x", "y", "z", ""]);
}

#[test]
fn longest_match_wins() {
    let toks = lex_all("abc de");
    assert_eq!(toks.len(), 3);
    assert_eq!(toks[0].text, "abc");
    assert_eq!((toks[0].start, toks[0].stop), (0, 2));
    assert_eq!(toks[1].text, "de");
    assert_eq!((toks[1].start, toks[1].stop), (4, 5));
    assert_eq!(toks[2].token_type, TOKEN_EOF);
}

#[test]
fn line_and_column_tracking() {
    let toks = lex_all("ab\ncd");
    assert_eq!(toks[0].line, 1);
    assert_eq!(toks[0].column, 0);
    assert_eq!(toks[1].line, 2);
    assert_eq!(toks[1].column, 0);
}

#[test]
fn empty_input_yields_only_eof() {
    let toks = lex_all("");
    assert_eq!(toks.len(), 1);
    assert_eq!(toks[0].token_type, TOKEN_EOF);
}

#[test]
fn repeated_runs_on_fresh_lexers_agree() {
    // two successive runs over fresh lexers yield the same token stream
    let first = lex_all("abc de\nf");
    let second = lex_all("abc de\nf");
    assert_eq!(first.len(), second.len());
    for (a, b) in first.iter().zip(second.iter()) {
        assert_eq!(a.token_type, b.token_type);
        assert_eq!(a.text, b.text);
        assert_eq!((a.start, a.stop), (b.start, b.stop));
        assert_eq!((a.line, a.column), (b.line, b.column));
    }
}

#[test]
fn cached_dfa_second_pass_agrees() {
    // the same lexer instance rewound re-lexes identically, now through the
    // cached DFA edges
    let mut lexer = make_lexer("ab cd");
    let first = lexer.get_all_tokens().expect("lexing terminates");
    match &mut lexer.input {
        Some(s) => s.reset(),
        None => panic!("input present"),
    }
    lexer.hit_eof = false;
    match &mut lexer.interpreter {
        Some(i) => {
            i.line = 1;
            i.char_position_in_line = 0;
        },
        None => panic!("interpreter present"),
    }
    let second = lexer.get_all_tokens().expect("lexing terminates");
    assert_eq!(first.len(), second.len());
    for (a, b) in first.iter().zip(second.iter()) {
        assert_eq!(a.token_type, b.token_type);
        assert_eq!(a.text, b.text);
    }
}

#[test]
fn recovery_after_one_illegal_character() {
    // '@' matches no rule: one error is reported, the character is
    // consumed, and the valid tokens around it still come out
    let mut lexer = make_lexer("x @ y");
    let toks = lexer.get_all_tokens().expect("lexing terminates");
    let types: Vec<isize> = toks.iter().map(|t| t.token_type).collect();
    assert_eq!(types, vec![1, 1, TOKEN_EOF]);
    assert_eq!(lexer.total_error_reports(), 1);
}

#[test]
fn every_error_is_reported_once() {
    let mut lexer = make_lexer("@@ x");
    let toks = lexer.get_all_tokens().expect("lexing terminates");
    let types: Vec<isize> = toks.iter().map(|t| t.token_type).collect();
    assert_eq!(types, vec![1, TOKEN_EOF]);
    assert_eq!(lexer.total_error_reports(), 2);
}

#[test]
fn stream_discipline_mark_release() {
    // marking, looking around, and releasing leaves the position alone
    let mut s = InputStream::new("abc").expect("input fits");
    assert_eq!(s.index(), 0);
    let m = s.mark();
    let idx0 = s.index();
    let _ = s.la(1);
    let _ = s.la(2);
    let _ = s.la(-1);
    s.release(m);
    assert_eq!(s.index(), idx0);
    // and after real work plus a rewind, the same holds around a mark
    s.consume().expect("not at end");
    let m2 = s.mark();
    let idx1 = s.index();
    let _ = s.la(1);
    s.release(m2);
    assert_eq!(s.index(), idx1);
}

#[test]
fn stream_lookahead_and_seek() {
    let mut s = InputStream::new("ab").expect("input fits");
    assert_eq!(s.la(1), 'a' as isize);
    assert_eq!(s.la(2), 'b' as isize);
    assert_eq!(s.la(3), -1);
    assert_eq!(s.la(-1), -1);
    s.consume().expect("not at end");
    assert_eq!(s.la(-1), 'a' as isize);
    assert_eq!(s.la(1), 'b' as isize);
    s.seek(0);
    assert_eq!(s.index(), 0);
    s.seek(99);
    assert_eq!(s.index(), 2);
    assert!(s.consume().is_err());
}
