//! Lexer actions: the operations an accepted lexer rule performs, read from
//! the serialized network and executed after the match is committed.

use vstd::prelude::*;

verus! {

pub const LEXER_ACTION_TYPE_CHANNEL: isize = 0;

pub const LEXER_ACTION_TYPE_CUSTOM: isize = 1;

pub const LEXER_ACTION_TYPE_MODE: isize = 2;

pub const LEXER_ACTION_TYPE_MORE: isize = 3;

pub const LEXER_ACTION_TYPE_POP_MODE: isize = 4;

pub const LEXER_ACTION_TYPE_PUSH_MODE: isize = 5;

pub const LEXER_ACTION_TYPE_SKIP: isize = 6;

pub const LEXER_ACTION_TYPE_TYPE: isize = 7;

#[derive(Clone, Copy, Debug, PartialEq, Eq, Structural)]
pub enum LexerAction {
    /// Move the token to the given channel.
    Channel(isize),
    /// Run user code identified by rule and action index; the only action
    /// whose effect depends on the input position.
    Custom { rule_index: isize, action_index: isize },
    /// Switch the lexer to the given mode.
    Mode(isize),
    /// Treat the next token as a continuation of this one.
    More,
    /// Pop the mode stack.
    PopMode,
    /// Push the current mode and switch to the given one.
    PushMode(isize),
    /// Drop the token entirely.
    Skip,
    /// Override the token's type.
    TokenType(isize),
}

impl LexerAction {
    /// Whether the action's effect depends on the exact input position when
    /// it runs.
    pub fn is_position_dependent(&self) -> (r: bool)
        ensures
            r == (self matches LexerAction::Custom { .. }),
    {
        match self {
            LexerAction::Custom { .. } => true,
            _ => false,
        }
    }
}

} // verus!
