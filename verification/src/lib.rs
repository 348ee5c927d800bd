//! Runtime library for an adaptive LL(*) recognizer: an augmented transition
//! network (ATN) loaded from a serialized form drives a DFA-backed lexer
//! simulator, with prediction contexts tracking rule call/return chains.

pub mod interval_set;
pub mod token;
pub mod atn_state;
pub mod transition;
pub mod prediction_context;
pub mod errors;
pub mod semantic_context;
pub mod lexer_action;
pub mod lexer_action_executor;
pub mod atn;
pub mod atn_deserializer;
pub mod atn_serializer;
pub mod int_stream;
pub mod input_stream;
pub mod atn_config;
pub mod atn_config_set;
pub mod dfa;
pub mod ll1_analyzer;
pub mod error_listener;
pub mod lexer;
pub mod lexer_atn_simulator;
pub mod tree;
pub mod parser_rule_context;
