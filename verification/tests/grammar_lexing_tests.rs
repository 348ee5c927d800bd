//! Lexing against hand-assembled serialized grammars: a comma-separated
//! values lexer, and a two-mode markup lexer whose declaration open pushes
//! the inside mode and whose special close pops it.

use antlr_rust::atn_deserializer::supported_uuid_words;
use antlr_rust::atn_deserializer::ATNDeserializer;
use antlr_rust::atn_serializer::atn_equals;
use antlr_rust::atn_serializer::serialize_atn;
use antlr_rust::input_stream::InputStream;
use antlr_rust::lexer::BaseLexer;
use antlr_rust::lexer::LexerRecog;
use antlr_rust::lexer_atn_simulator::LexerATNSimulator;
use antlr_rust::token::TOKEN_EOF;

struct PlainRecog;

impl LexerRecog for PlainRecog {
    fn sempred(&mut self, _rule_index: isize, _pred_index: isize) -> bool {
        true
    }

    fn action(&mut self, _rule_index: isize, _action_index: isize) {}
}

/// Builds serialized words: every value is stored shifted by +2, -1 as the
/// all-ones word.
struct Enc {
    out: Vec<u16>,
}

impl Enc {
    fn new(grammar_type: i64, max_token_type: i64) -> Enc {
        let mut out: Vec<u16> = vec![3];
        out.extend_from_slice(&supported_uuid_words());
        let mut e = Enc { out };
        e.w(grammar_type);
        e.w(max_token_type);
        e
    }

    fn w(&mut self, v: i64) {
        if v == -1 {
            self.out.push(0xffff);
        } else {
            self.out.push((v + 2) as u16);
        }
    }

    fn words(&mut self, vs: &[i64]) {
        for &v in vs {
            self.w(v);
        }
    }
}

const K_BASIC: i64 = 1;
const K_RULE_START: i64 = 2;
const K_TOKEN_START: i64 = 6;
const K_RULE_STOP: i64 = 7;
const T_EPS: i64 = 1;
const T_RANGE: i64 = 2;
const T_ATOM: i64 = 5;
const T_ACTION: i64 = 6;
const T_NOTSET: i64 = 8;

/// Comma-separated values lexer: COMMA is 1, NEWLINE is 2, TEXT is 3 (a
/// run of letters or digits).
fn csv_words() -> Vec<u16> {
    let mut e = Enc::new(0, 3);
    // states: kind, rule
    let states: &[(i64, i64)] = &[
        (K_TOKEN_START, -1),
        (K_RULE_START, 0),
        (K_RULE_STOP, 0),
        (K_RULE_START, 1),
        (K_RULE_STOP, 1),
        (K_RULE_START, 2),
        (K_RULE_STOP, 2),
        (K_BASIC, 0),
        (K_BASIC, 0),
        (K_BASIC, 1),
        (K_BASIC, 1),
        (K_BASIC, 2),
        (K_BASIC, 2),
    ];
    e.w(states.len() as i64);
    for &(k, r) in states {
        e.w(k);
        e.w(r);
    }
    e.w(0); // no non-greedy decisions
    e.w(0); // no precedence rules
    // rules: start state and token type
    e.w(3);
    e.words(&[1, 1, 3, 2, 5, 3]);
    // one mode
    e.words(&[1, 0]);
    // no set tables
    e.words(&[0, 0]);
    let edges: &[[i64; 6]] = &[
        [0, 1, T_EPS, 0, 0, 0],
        [0, 3, T_EPS, 0, 0, 0],
        [0, 5, T_EPS, 0, 0, 0],
        [1, 7, T_EPS, 0, 0, 0],
        [7, 8, T_ATOM, 44, 0, 0],
        [8, 2, T_EPS, 0, 0, 0],
        [3, 9, T_EPS, 0, 0, 0],
        [9, 10, T_ATOM, 10, 0, 0],
        [10, 4, T_EPS, 0, 0, 0],
        [5, 11, T_EPS, 0, 0, 0],
        [11, 12, T_RANGE, 48, 57, 0],
        [11, 12, T_RANGE, 65, 90, 0],
        [11, 12, T_RANGE, 97, 122, 0],
        [12, 11, T_EPS, 0, 0, 0],
        [12, 6, T_EPS, 0, 0, 0],
    ];
    e.w(edges.len() as i64);
    for ed in edges {
        e.words(ed);
    }
    // one decision (the token start), no lexer actions
    e.words(&[1, 0]);
    e.w(0);
    e.out
}

fn lex_types_and_texts(words: Vec<u16>, text: &str) -> (Vec<isize>, Vec<String>) {
    let d = ATNDeserializer::new(None);
    let atn = d.deserialize(&words).expect("well-formed serialized network");
    let sim = LexerATNSimulator::new_lexer_atnsimulator(atn);
    let input = InputStream::new(text).expect("input fits");
    let mut lexer = BaseLexer::new_base_lexer(input, sim, PlainRecog);
    let toks = lexer.get_all_tokens().expect("lexing terminates");
    let types = toks.iter().map(|t| t.token_type).collect();
    let texts = toks.iter().map(|t| t.text.clone()).collect();
    (types, texts)
}

#[test]
fn csv_token_sequence() {
    let (types, texts) = lex_types_and_texts(csv_words(), "V123,V2\nd1,d2");
    // TEXT, COMMA, TEXT, NEWLINE, TEXT, COMMA, TEXT, end of input
    assert_eq!(types, vec![3, 1, 3, 2, 3, 1, 3, TOKEN_EOF]);
    assert_eq!(
        texts,
        vec!["V123", ",", "V2", "\n", "d1", ",", "d2", ""],
    );
}

#[test]
fn csv_empty_fields() {
    let (types, _) = lex_types_and_texts(csv_words(), ",,\n");
    assert_eq!(types, vec![1, 1, 2, TOKEN_EOF]);
}

/// A two-mode markup lexer. Outside: DECL_OPEN is 1 (`<?xml`, pushes the
/// inside mode), OPEN is 2 (`<`). Inside: SPECIAL_CLOSE is 3 (`?>`, pops),
/// EQUALS is 4, STRING is 5, NAME is 6, and blank space is skipped.
fn markup_words() -> Vec<u16> {
    let mut e = Enc::new(0, 7);
    let states: &[(i64, i64)] = &[
        (K_TOKEN_START, -1), // 0: outside mode start
        (K_TOKEN_START, -1), // 1: inside mode start
        (K_RULE_START, 0),   // 2
        (K_RULE_STOP, 0),    // 3
        (K_BASIC, 0),        // 4
        (K_BASIC, 0),        // 5
        (K_BASIC, 0),        // 6
        (K_BASIC, 0),        // 7
        (K_BASIC, 0),        // 8
        (K_BASIC, 0),        // 9
        (K_BASIC, 0),        // 10
        (K_RULE_START, 1),   // 11
        (K_RULE_STOP, 1),    // 12
        (K_BASIC, 1),        // 13
        (K_BASIC, 1),        // 14
        (K_RULE_START, 2),   // 15
        (K_RULE_STOP, 2),    // 16
        (K_BASIC, 2),        // 17
        (K_BASIC, 2),        // 18
        (K_BASIC, 2),        // 19
        (K_BASIC, 2),        // 20
        (K_RULE_START, 3),   // 21
        (K_RULE_STOP, 3),    // 22
        (K_BASIC, 3),        // 23
        (K_BASIC, 3),        // 24
        (K_RULE_START, 4),   // 25
        (K_RULE_STOP, 4),    // 26
        (K_BASIC, 4),        // 27
        (K_BASIC, 4),        // 28
        (K_BASIC, 4),        // 29
        (K_BASIC, 4),        // 30
        (K_RULE_START, 5),   // 31
        (K_RULE_STOP, 5),    // 32
        (K_BASIC, 5),        // 33
        (K_BASIC, 5),        // 34
        (K_RULE_START, 6),   // 35
        (K_RULE_STOP, 6),    // 36
        (K_BASIC, 6),        // 37
        (K_BASIC, 6),        // 38
        (K_BASIC, 6),        // 39
    ];
    e.w(states.len() as i64);
    for &(k, r) in states {
        e.w(k);
        e.w(r);
    }
    e.w(0);
    e.w(0);
    e.w(7);
    e.words(&[2, 1, 11, 2, 15, 3, 21, 4, 25, 5, 31, 6, 35, 7]);
    e.words(&[2, 0, 1]);
    e.words(&[0, 0]);
    let edges: &[[i64; 6]] = &[
        // mode starts
        [0, 2, T_EPS, 0, 0, 0],
        [0, 11, T_EPS, 0, 0, 0],
        [1, 15, T_EPS, 0, 0, 0],
        [1, 21, T_EPS, 0, 0, 0],
        [1, 25, T_EPS, 0, 0, 0],
        [1, 31, T_EPS, 0, 0, 0],
        [1, 35, T_EPS, 0, 0, 0],
        // DECL_OPEN: '<' '?' 'x' 'm' 'l', then push the inside mode
        [2, 4, T_EPS, 0, 0, 0],
        [4, 5, T_ATOM, 60, 0, 0],
        [5, 6, T_ATOM, 63, 0, 0],
        [6, 7, T_ATOM, 120, 0, 0],
        [7, 8, T_ATOM, 109, 0, 0],
        [8, 9, T_ATOM, 108, 0, 0],
        [9, 10, T_ACTION, 0, 0, 0],
        [10, 3, T_EPS, 0, 0, 0],
        // OPEN: '<'
        [11, 13, T_EPS, 0, 0, 0],
        [13, 14, T_ATOM, 60, 0, 0],
        [14, 12, T_EPS, 0, 0, 0],
        // SPECIAL_CLOSE: '?' '>', then pop back outside
        [15, 17, T_EPS, 0, 0, 0],
        [17, 18, T_ATOM, 63, 0, 0],
        [18, 19, T_ATOM, 62, 0, 0],
        [19, 20, T_ACTION, 2, 1, 0],
        [20, 16, T_EPS, 0, 0, 0],
        // EQUALS: '='
        [21, 23, T_EPS, 0, 0, 0],
        [23, 24, T_ATOM, 61, 0, 0],
        [24, 22, T_EPS, 0, 0, 0],
        // STRING: '"' then digits, dots, or letters, then '"'
        [25, 27, T_EPS, 0, 0, 0],
        [27, 28, T_ATOM, 34, 0, 0],
        [28, 29, T_RANGE, 46, 57, 0],
        [28, 29, T_RANGE, 97, 122, 0],
        [29, 28, T_EPS, 0, 0, 0],
        [28, 30, T_ATOM, 34, 0, 0],
        [30, 26, T_EPS, 0, 0, 0],
        // NAME: letters
        [31, 33, T_EPS, 0, 0, 0],
        [33, 34, T_RANGE, 97, 122, 0],
        [34, 33, T_EPS, 0, 0, 0],
        [34, 32, T_EPS, 0, 0, 0],
        // blank space, skipped
        [35, 37, T_EPS, 0, 0, 0],
        [37, 38, T_ATOM, 32, 0, 0],
        [38, 39, T_ACTION, 6, 2, 0],
        [39, 36, T_EPS, 0, 0, 0],
    ];
    e.w(edges.len() as i64);
    for ed in edges {
        e.words(ed);
    }
    e.words(&[2, 0, 1]);
    // actions: push the inside mode, pop it, and skip
    e.w(3);
    e.words(&[5, 1, 0]);
    e.words(&[4, 0, 0]);
    e.words(&[6, 0, 0]);
    e.out
}

#[test]
fn markup_declaration_sequence() {
    let (types, texts) = lex_types_and_texts(markup_words(), "<?xml version=\"1.0\"?>");
    // the declaration open, the interior name, equals and string, then the
    // special close, in order
    assert_eq!(types, vec![1, 6, 4, 5, 3, TOKEN_EOF]);
    assert_eq!(texts[0], "<?xml");
    assert_eq!(texts[1], "version");
    assert_eq!(texts[2], "=");
    assert_eq!(texts[3], "\"1.0\"");
    assert_eq!(texts[4], "?>");
}

/// A lexer whose second rule matches any run of characters outside a
/// stored character set: COMMA is 1, REST is 2.
fn notset_words() -> Vec<u16> {
    let mut e = Enc::new(0, 2);
    let states: &[(i64, i64)] = &[
        (K_TOKEN_START, -1),
        (K_RULE_START, 0),
        (K_RULE_STOP, 0),
        (K_RULE_START, 1),
        (K_RULE_STOP, 1),
        (K_BASIC, 0),
        (K_BASIC, 0),
        (K_BASIC, 1),
        (K_BASIC, 1),
    ];
    e.w(states.len() as i64);
    for &(k, r) in states {
        e.w(k);
        e.w(r);
    }
    e.w(0);
    e.w(0);
    e.w(2);
    e.words(&[1, 1, 3, 2]);
    e.words(&[1, 0]);
    // one narrow set holding the newline and the comma
    e.words(&[1, 2, 0, 10, 10, 44, 44]);
    e.w(0);
    let edges: &[[i64; 6]] = &[
        [0, 1, T_EPS, 0, 0, 0],
        [0, 3, T_EPS, 0, 0, 0],
        [1, 5, T_EPS, 0, 0, 0],
        [5, 6, T_ATOM, 44, 0, 0],
        [6, 2, T_EPS, 0, 0, 0],
        [3, 7, T_EPS, 0, 0, 0],
        [7, 8, T_NOTSET, 0, 0, 0],
        [8, 7, T_EPS, 0, 0, 0],
        [8, 4, T_EPS, 0, 0, 0],
    ];
    e.w(edges.len() as i64);
    for ed in edges {
        e.words(ed);
    }
    e.words(&[1, 0]);
    e.w(0);
    e.out
}

#[test]
fn notset_rule_matches_everything_outside_the_set() {
    let (types, texts) = lex_types_and_texts(notset_words(), "ab,cd");
    assert_eq!(types, vec![2, 1, 2, TOKEN_EOF]);
    assert_eq!(texts, vec!["ab", ",", "cd", ""]);
}

#[test]
fn markup_network_round_trips() {
    let d = ATNDeserializer::new(None);
    let atn1 = d.deserialize(&markup_words()).expect("well-formed");
    let rewritten = serialize_atn(&atn1);
    let atn2 = d.deserialize(&rewritten).expect("reads back");
    assert!(atn_equals(&atn1, &atn2));
}

#[test]
fn lexing_agrees_after_round_trip() {
    let d = ATNDeserializer::new(None);
    let atn1 = d.deserialize(&csv_words()).expect("well-formed");
    let rewritten = serialize_atn(&atn1);
    let (t1, x1) = lex_types_and_texts(csv_words(), "ab,cd
ef");
    let (t2, x2) = lex_types_and_texts(rewritten, "ab,cd
ef");
    assert_eq!(t1, t2);
    assert_eq!(x1, x2);
}

#[test]
fn markup_open_outside_modes() {
    // a lone open bracket outside a declaration is the short token, and
    // the mode stack returns outside after a close
    let (types, _) = lex_types_and_texts(markup_words(), "<?xml a?><");
    assert_eq!(types, vec![1, 6, 3, 2, TOKEN_EOF]);
}
