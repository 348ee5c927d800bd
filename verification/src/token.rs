//! Tokens produced by the lexer: integer-typed, channelled, and carrying the
//! matched text together with its position in the source.

use vstd::prelude::*;

verus! {

pub const TOKEN_INVALID_TYPE: isize = 0;

pub const TOKEN_EPSILON: isize = -2;

pub const TOKEN_MIN_USER_TOKEN_TYPE: isize = 1;

pub const TOKEN_EOF: isize = -1;

pub const TOKEN_DEFAULT_CHANNEL: isize = 0;

pub const TOKEN_HIDDEN_CHANNEL: isize = 1;

/// The read side of a token, independent of how it is stored.
pub trait Token {
    fn get_token_type(&self) -> isize;

    fn get_channel(&self) -> isize;

    fn get_start(&self) -> isize;

    fn get_stop(&self) -> isize;

    fn get_line(&self) -> isize;

    fn get_column(&self) -> isize;

    fn get_text(&self) -> &str;

    fn get_token_index(&self) -> isize;

    fn set_token_index(&mut self, v: isize);

    fn to_owned_token(&self) -> OwningToken;
}

/// Equality of tokens up to the text's characters.
pub open spec fn token_ceq(a: OwningToken, b: OwningToken) -> bool {
    &&& a.token_type == b.token_type
    &&& a.channel == b.channel
    &&& a.start == b.start
    &&& a.stop == b.stop
    &&& a.token_index == b.token_index
    &&& a.line == b.line
    &&& a.column == b.column
    &&& a.text@ == b.text@
    &&& a.read_only == b.read_only
}

/// A token that owns its text.
#[derive(Debug, Clone)]
pub struct OwningToken {
    pub token_type: isize,
    pub channel: isize,
    pub start: isize,
    pub stop: isize,
    pub token_index: isize,
    pub line: isize,
    pub column: isize,
    pub text: String,
    pub read_only: bool,
}

impl Token for OwningToken {
    fn get_token_type(&self) -> (r: isize)
        ensures
            r == self.token_type,
    {
        self.token_type
    }

    fn get_channel(&self) -> (r: isize)
        ensures
            r == self.channel,
    {
        self.channel
    }

    fn get_start(&self) -> (r: isize)
        ensures
            r == self.start,
    {
        self.start
    }

    fn get_stop(&self) -> (r: isize)
        ensures
            r == self.stop,
    {
        self.stop
    }

    fn get_line(&self) -> (r: isize)
        ensures
            r == self.line,
    {
        self.line
    }

    fn get_column(&self) -> (r: isize)
        ensures
            r == self.column,
    {
        self.column
    }

    fn get_text(&self) -> (r: &str)
        ensures
            r@ == self.text@,
    {
        self.text.as_str()
    }

    fn get_token_index(&self) -> (r: isize)
        ensures
            r == self.token_index,
    {
        self.token_index
    }

    fn set_token_index(&mut self, v: isize)
        ensures
            *final(self) == (OwningToken { token_index: v, ..*old(self) }),
    {
        self.token_index = v;
    }

    fn to_owned_token(&self) -> (r: OwningToken)
        ensures
            r.token_type == self.token_type,
            r.channel == self.channel,
            r.start == self.start,
            r.stop == self.stop,
            r.token_index == self.token_index,
            r.line == self.line,
            r.column == self.column,
            r.text@ == self.text@,
            r.read_only == self.read_only,
    {
        OwningToken {
            token_type: self.token_type,
            channel: self.channel,
            start: self.start,
            stop: self.stop,
            token_index: self.token_index,
            line: self.line,
            column: self.column,
            text: clone_string(&self.text),
            read_only: self.read_only,
        }
    }
}

/// Relies on `String::clone`: the copy holds the same characters.
#[verifier::external_body]
pub(crate) fn clone_string(s: &String) -> (r: String)
    ensures
        r@ == s@,
{
    s.clone()
}

/// Relies on `str::to_string`: the copy holds the same characters.
#[verifier::external_body]
pub(crate) fn clone_str_to_string(s: &str) -> (r: String)
    ensures
        r@ == s@,
{
    s.to_string()
}

/// A token as most lexers emit it; wraps the owning representation.
#[derive(Debug)]
pub struct CommonToken {
    pub base: OwningToken,
}

impl CommonToken {
    /// A fresh token of the given type and channel covering `start..=stop`,
    /// with no text, position, or stream index assigned yet.
    pub fn new_common_token(token_type: isize, channel: isize, start: isize, stop: isize) -> (r:
        CommonToken)
        ensures
            r.base.token_type == token_type,
            r.base.channel == channel,
            r.base.start == start,
            r.base.stop == stop,
            r.base.token_index == -1,
            r.base.line == 0,
            r.base.column == -1,
            r.base.text@ == Seq::<char>::empty(),
            !r.base.read_only,
    {
        CommonToken {
            base: OwningToken {
                token_type,
                channel,
                start,
                stop,
                token_index: -1,
                line: 0,
                column: -1,
                text: String::new(),
                read_only: false,
            },
        }
    }

    /// An exact copy.
    pub fn clone(&self) -> (r: CommonToken)
        ensures
            r.base.token_type == self.base.token_type,
            r.base.channel == self.base.channel,
            r.base.start == self.base.start,
            r.base.stop == self.base.stop,
            r.base.token_index == self.base.token_index,
            r.base.line == self.base.line,
            r.base.column == self.base.column,
            r.base.text@ == self.base.text@,
            r.base.read_only == self.base.read_only,
    {
        CommonToken { base: self.base.to_owned_token() }
    }
}

} // verus!
