//! The token source around the simulator: drives `match_token`, runs the
//! accepted rule's actions, assembles tokens, recovers from errors, and
//! manages the mode stack.

use vstd::prelude::*;
use crate::errors::ANTLRError;
use crate::error_listener::DefaultErrorListener;
use crate::error_listener::ErrorListener;
use crate::input_stream::InputStream;
use crate::input_stream::codepoints_to_string;
use crate::int_stream::EOF;
use crate::lexer_action::LexerAction;
use crate::lexer_action_executor::LexerActionExecutor;
use crate::lexer_atn_simulator::LexerATNSimulator;
use crate::token::OwningToken;
use crate::token::TOKEN_DEFAULT_CHANNEL;
use crate::token::TOKEN_EOF;
use crate::token::TOKEN_HIDDEN_CHANNEL;
use crate::token::TOKEN_INVALID_TYPE;

verus! {

pub const LEXER_DEFAULT_MODE: usize = 0;

/// The token-type sentinel telling the lexer to continue the current token.
pub const LEXER_MORE: isize = -2;

/// The token-type sentinel telling the lexer to drop the current token.
pub const LEXER_SKIP: isize = -3;

pub const LEXER_DEFAULT_TOKEN_CHANNEL: isize = TOKEN_DEFAULT_CHANNEL;

pub const LEXER_HIDDEN: isize = TOKEN_HIDDEN_CHANNEL;

/// What generated lexers plug in: user predicates and custom actions.
pub trait LexerRecog {
    /// Evaluates the user predicate named by rule and predicate index.
    fn sempred(&mut self, rule_index: isize, pred_index: isize) -> bool;

    /// Runs the user action named by rule and action index.
    fn action(&mut self, rule_index: isize, action_index: isize);
}

/// The mutations lexer actions perform on their lexer.
pub trait Lexer {
    fn set_channel(&mut self, v: isize);

    fn push_mode(&mut self, m: usize);

    fn pop_mode(&mut self) -> Option<usize>;

    fn set_type(&mut self, t: isize);

    fn set_mode(&mut self, m: usize);

    fn more(&mut self);

    fn skip(&mut self);
}

/// A lexer: input stream, simulator, user hooks, error listeners, and the
/// state of the token being built.
pub struct BaseLexer<T: LexerRecog> {
    pub interpreter: Option<LexerATNSimulator>,
    pub input: Option<InputStream>,
    pub recog: T,
    pub error_listeners: Vec<DefaultErrorListener>,
    pub token_start_char_index: isize,
    pub token_start_line: isize,
    pub token_start_column: isize,
    pub token_type: isize,
    pub token: Option<OwningToken>,
    pub hit_eof: bool,
    pub channel: isize,
    pub mode_stack: Vec<usize>,
    pub mode: usize,
    pub text: Option<String>,
}

impl<T: LexerRecog> BaseLexer<T> {
    /// The lexer is runnable: it has a well-formed simulator and a valid
    /// stream.
    pub open spec fn wf(self) -> bool {
        &&& self.interpreter matches Some(i) && i.wf()
        &&& self.input matches Some(s) && s.inv()
    }

    /// A lexer over `input` driven by `interpreter`, with one recording
    /// error listener installed.
    pub fn new_base_lexer(input: InputStream, interpreter: LexerATNSimulator, recog: T) -> (r:
        BaseLexer<T>)
        requires
            interpreter.wf(),
            input.inv(),
        ensures
            r.wf(),
            r.mode == LEXER_DEFAULT_MODE,
            r.mode_stack@.len() == 0,
            !r.hit_eof,
            r.token_type == TOKEN_INVALID_TYPE,
            r.channel == TOKEN_DEFAULT_CHANNEL,
            r.token is None,
            r.text is None,
            r.token_start_char_index == 0,
            r.error_listeners@.len() == 1,
            r.interpreter matches Some(i) && i.line == 1 && i.char_position_in_line == 0,
    {
        let mut listeners: Vec<DefaultErrorListener> = Vec::new();
        listeners.push(DefaultErrorListener::new());
        let mut interpreter = interpreter;
        interpreter.line = 1;
        interpreter.char_position_in_line = 0;
        BaseLexer {
            interpreter: Some(interpreter),
            input: Some(input),
            recog,
            error_listeners: listeners,
            token_start_char_index: 0,
            token_start_line: 0,
            token_start_column: 0,
            token_type: TOKEN_INVALID_TYPE,
            token: None,
            hit_eof: false,
            channel: TOKEN_DEFAULT_CHANNEL,
            mode_stack: Vec::new(),
            mode: LEXER_DEFAULT_MODE,
            text: None,
        }
    }

    pub fn get_type(&self) -> (r: isize)
        ensures
            r == self.token_type,
    {
        self.token_type
    }

    /// The stream being lexed, for callers that need to look at it.
    pub fn get_input_stream(&mut self) -> (r: Option<&mut InputStream>)
        ensures
            r is Some <==> old(self).input is Some,
    {
        match &mut self.input {
            Some(s) => Some(s),
            None => None,
        }
    }

    pub fn get_source_name(&self) -> (r: String)
    {
        match &self.input {
            Some(s) => s.get_source_name(),
            None => "<none>".to_string(),
        }
    }

    /// The simulator driving this lexer.
    pub fn get_interpreter(&self) -> (r: Option<&LexerATNSimulator>)
        ensures
            r is Some <==> self.interpreter is Some,
    {
        match &self.interpreter {
            Some(i) => Some(i),
            None => None,
        }
    }

    /// The current input position.
    pub fn get_char_index(&self) -> (r: isize)
        requires
            self.wf(),
        ensures
            self.input matches Some(s) && r == s.index,
    {
        match &self.input {
            Some(s) => s.index() as isize,
            None => 0,
        }
    }

    pub fn get_line(&self) -> (r: isize)
        requires
            self.wf(),
        ensures
            self.interpreter matches Some(i) && r == i.line,
    {
        match &self.interpreter {
            Some(i) => i.get_line(),
            None => 0,
        }
    }

    pub fn get_char_position_in_line(&self) -> (r: isize)
        requires
            self.wf(),
        ensures
            self.interpreter matches Some(i) && r == i.char_position_in_line,
    {
        match &self.interpreter {
            Some(i) => i.get_char_position_in_line(),
            None => 0,
        }
    }

    /// The text consumed for the current token so far: an explicit override
    /// wins; otherwise the input slice from the token start to the current
    /// position.
    pub fn get_text(&self) -> (r: String)
        requires
            self.wf(),
        ensures
            self.text matches Some(t) ==> r@ == t@,
            self.text is None && (self.input matches Some(s2) && 0 <= self.token_start_char_index
                && self.token_start_char_index <= s2.index as int - 1 && s2.index as int - 1
                < s2.data@.len()) ==> (self.input matches Some(s2) && r@.len() == s2.index as int
                - self.token_start_char_index && forall|i: int|
                0 <= i < r@.len() ==> (#[trigger] r@[i]) as u32 == s2.data@[self.token_start_char_index + i]),
            self.text is None && !(self.input matches Some(s2) && 0 <= self.token_start_char_index
                && self.token_start_char_index <= s2.index as int - 1 && s2.index as int - 1
                < s2.data@.len()) ==> r@.len() == 0,
    {
        match &self.text {
            Some(t) => crate::token::clone_string(t),
            None => {
                match &self.input {
                    Some(s) => {
                        let start = self.token_start_char_index;
                        let stop = s.index() as isize - 1;
                        if 0 <= start && start <= stop && (stop as usize) < s.size() {
                            let cps = s.text_range(start as usize, stop as usize);
                            let out = codepoints_to_string(&cps);
                            proof {
                                assert forall|i: int| 0 <= i < out@.len() implies (
                                #[trigger] out@[i]) as u32 == s.data@[start as int + i] by {
                                    assert(cps@[i] == s.data@[start as int + i]);
                                    assert(s.data@[start as int + i] < 0x110000 && !(0xD800
                                        <= s.data@[start as int + i] < 0xE000));
                                }
                            }
                            out
                        } else {
                            String::new()
                        }
                    },
                    None => String::new(),
                }
            },
        }
    }

    /// Overrides the current token's text.
    pub fn set_text(&mut self, text: String)
        ensures
            final(self).text matches Some(t) && t@ == text@,
            final(self).wf() == old(self).wf(),
    {
        self.text = Some(text);
    }

    pub fn add_error_listener(&mut self, listener: DefaultErrorListener)
        ensures
            final(self).error_listeners@.len() == old(self).error_listeners@.len() + 1,
            final(self).wf() == old(self).wf(),
    {
        self.error_listeners.push(listener);
    }

    pub fn remove_error_listeners(&mut self)
        ensures
            final(self).error_listeners@.len() == 0,
            final(self).wf() == old(self).wf(),
            *final(self) == (BaseLexer { error_listeners: final(self).error_listeners, ..*old(self) }),
    {
        self.error_listeners = Vec::new();
    }

    /// The number of error reports received so far, over all listeners.
    pub fn total_error_reports(&self) -> (r: usize)
    {
        let n = self.error_listeners.len();
        let mut total: usize = 0;
        let mut i: usize = 0;
        while i < n
            invariant
                n == self.error_listeners@.len(),
            decreases n - i,
        {
            let c = self.error_listeners[i].error_count();
            if total <= usize::MAX - c {
                total = total + c;
            }
            i += 1;
        }
        total
    }

    /// Produces the next token: repeatedly matches, skipping tokens the
    /// grammar drops and extending over continued ones, recovering from
    /// lexer errors by reporting them and consuming one character.
    #[verifier::loop_isolation(false)]
    pub fn next_token(&mut self) -> (r: Result<OwningToken, ANTLRError>)
        requires
            old(self).wf(),
        ensures
            final(self).wf(),
            // past the end of input the end token is owed
            old(self).hit_eof ==> r is Ok,
            // a produced token is the end token or the one just built: its
            // type, start position and line/column are the recorded ones
            // and it ends at the position before the current one
            r matches Ok(t) ==> (t.token_type == TOKEN_EOF || (t.token_type == final(self).token_type
                && t.start == final(self).token_start_char_index && t.line == final(self).token_start_line
                && t.column == final(self).token_start_column && (final(self).input matches Some(
                s2,
            ) && t.stop == s2.index as int - 1))),
    {
        let raw_size = match &self.input {
            Some(s) => s.size(),
            None => 0,
        };
        let input_size: u64 = if raw_size < 0x4000_0000 {
            raw_size as u64
        } else {
            0x4000_0000u64
        };
        let mut outer_fuel: u64 = input_size * 2 + 64;
        let mut result_token: Option<OwningToken> = None;
        let mut failed: Option<ANTLRError> = None;
        while result_token.is_none() && failed.is_none() && outer_fuel > 0
            invariant
                self.wf(),
                old(self).hit_eof ==> self.hit_eof,
                outer_fuel <= input_size * 2 + 64,
                outer_fuel == input_size * 2 + 64 ==> (result_token is None && failed is None),
                old(self).hit_eof && outer_fuel < input_size * 2 + 64 ==> (result_token is Some
                    && failed is None),
                result_token matches Some(t) ==> (t.token_type == TOKEN_EOF || (t.token_type
                    == self.token_type && t.start == self.token_start_char_index && t.line
                    == self.token_start_line && t.column == self.token_start_column && (
                self.input matches Some(s2) && t.stop == s2.index as int - 1))),
            decreases outer_fuel,
        {
            outer_fuel = outer_fuel - 1;
            if self.hit_eof {
                self.emit_eof();
                result_token = self.token.take();
            } else {
                self.token = None;
                self.channel = LEXER_DEFAULT_TOKEN_CHANNEL;
                self.token_start_column = match &self.interpreter {
                    Some(i) => i.get_char_position_in_line(),
                    None => 0,
                };
                self.token_start_line = match &self.interpreter {
                    Some(i) => i.get_line(),
                    None => 0,
                };
                self.text = None;
                self.token_start_char_index = self.get_char_index();
                let mut inner_fuel: u64 = input_size * 2 + 64;
                let mut continue_outer = false;
                let mut have_type = false;
                while inner_fuel > 0 && !continue_outer && !have_type
                    invariant
                        self.wf(),
                        self.token is None,
                    decreases inner_fuel,
                {
                    inner_fuel = inner_fuel - 1;
                    self.token_type = TOKEN_INVALID_TYPE;
                    let mode = self.mode;
                    let start_index = self.get_char_index();
                    let step: Result<(isize, Option<LexerActionExecutor>), ANTLRError> = match (
                        &mut self.interpreter,
                        &mut self.input,
                    ) {
                        (Some(interp), Some(input)) => {
                            if mode < interp.decision_to_dfa.len() {
                                interp.match_token(mode, input, &mut self.recog)
                            } else {
                                Err(ANTLRError::IllegalStateError("invalid mode".to_string()))
                            }
                        },
                        _ => Err(ANTLRError::IllegalStateError("no input".to_string())),
                    };
                    let ttype: isize = match step {
                        Ok((t, exec)) => {
                            match exec {
                                Some(e) => {
                                    self.run_lexer_actions(e, start_index);
                                },
                                None => {},
                            }
                            t
                        },
                        Err(e) => {
                            self.notify_listeners();
                            match (&mut self.interpreter, &mut self.input) {
                                (Some(interp), Some(input)) => {
                                    interp.recover(input);
                                },
                                _ => {},
                            }
                            LEXER_SKIP
                        },
                    };
                    let at_eof = match &self.input {
                        Some(s) => s.la(1) == EOF,
                        None => true,
                    };
                    if at_eof {
                        self.hit_eof = true;
                    }
                    if self.token_type == TOKEN_INVALID_TYPE {
                        self.token_type = ttype;
                    }
                    if self.token_type == LEXER_SKIP {
                        continue_outer = true;
                    } else if self.token_type != LEXER_MORE {
                        have_type = true;
                    }
                }
                if inner_fuel == 0 && !continue_outer && !have_type {
                    failed = Some(
                        ANTLRError::IllegalStateError("lexer made no progress".to_string()),
                    );
                } else if have_type {
                    if self.token.is_none() {
                        self.emit();
                    }
                    result_token = self.token.take();
                }
            }
        }
        match failed {
            Some(e) => Err(e),
            None => match result_token {
                Some(t) => Ok(t),
                None => Err(ANTLRError::IllegalStateError("lexer made no progress".to_string())),
            },
        }
    }

    /// Runs the accepted rule's actions, seeking to each anchored action's
    /// position and restoring the stream afterwards.
    #[verifier::loop_isolation(false)]
    fn run_lexer_actions(&mut self, exec: LexerActionExecutor, start_index: isize)
        requires
            old(self).wf(),
        ensures
            final(self).wf(),
            final(self).token == old(self).token,
            // the stream comes back where it was
            final(self).input matches Some(s2) && old(self).input matches Some(so) && s2.index
                == so.index && s2.data == so.data,
    {
        let stop_index = self.get_char_index();
        let n = exec.actions.len();
        let mut i: usize = 0;
        while i < n
            invariant
                self.wf(),
                n == exec.actions@.len(),
                self.token == old(self).token,
                self.input matches Some(s2) && old(self).input matches Some(so) && s2.data
                    == so.data,
            decreases n - i,
        {
            let ia = exec.actions[i];
            if ia.offset >= 0 && start_index >= 0 && start_index <= 0x3fff_ffff - ia.offset {
                match &mut self.input {
                    Some(input) => {
                        input.seek(start_index + ia.offset);
                    },
                    None => {},
                }
            }
            match ia.action {
                LexerAction::Channel(c) => {
                    self.set_channel(c);
                },
                LexerAction::Custom { rule_index, action_index } => {
                    self.recog.action(rule_index, action_index);
                },
                LexerAction::Mode(m) => {
                    if m >= 0 {
                        self.set_mode(m as usize);
                    }
                },
                LexerAction::More => {
                    self.more();
                },
                LexerAction::PopMode => {
                    self.pop_mode();
                },
                LexerAction::PushMode(m) => {
                    if m >= 0 {
                        self.push_mode(m as usize);
                    }
                },
                LexerAction::Skip => {
                    self.skip();
                },
                LexerAction::TokenType(t) => {
                    self.set_type(t);
                },
            }
            i += 1;
        }
        if stop_index >= 0 {
            match &mut self.input {
                Some(input) => {
                    input.seek(stop_index);
                },
                None => {},
            }
        }
    }

    /// Reports a recognition error to every listener.
    fn notify_listeners(&mut self)
        requires
            old(self).wf(),
        ensures
            final(self).wf(),
            final(self).token == old(self).token,
    {
        let line = self.token_start_line;
        let column = self.token_start_column;
        let n = self.error_listeners.len();
        let mut i: usize = 0;
        while i < n
            invariant
                self.wf(),
                n == self.error_listeners@.len(),
                self.token == old(self).token,
            decreases n - i,
        {
            let listener = &mut self.error_listeners[i];
            listener.syntax_error(line, column, "token recognition error");
            i += 1;
        }
    }

    /// Hands a finished token to the stream.
    pub fn emit_token(&mut self, token: OwningToken)
        ensures
            *final(self) == (BaseLexer { token: Some(token), ..*old(self) }),
            final(self).wf() == old(self).wf(),
    {
        self.token = Some(token);
    }

    /// Builds the current token from the consumed range and the collected
    /// overrides.
    pub fn emit(&mut self)
        requires
            old(self).wf(),
        ensures
            final(self).wf(),
            final(self).token matches Some(t) && {
                &&& t.token_type == old(self).token_type
                &&& t.channel == old(self).channel
                &&& t.start == old(self).token_start_char_index
                &&& (old(self).input matches Some(s2) ==> t.stop == s2.index as int - 1)
                &&& t.line == old(self).token_start_line
                &&& t.column == old(self).token_start_column
                &&& (old(self).text matches Some(tx) ==> t.text@ == tx@)
            },
            final(self).text is None,
            final(self).hit_eof == old(self).hit_eof,
            final(self).input == old(self).input,
            final(self).interpreter == old(self).interpreter,
            final(self).token_type == old(self).token_type,
            final(self).token_start_char_index == old(self).token_start_char_index,
            final(self).token_start_line == old(self).token_start_line,
            final(self).token_start_column == old(self).token_start_column,
            final(self).mode == old(self).mode,
            final(self).mode_stack == old(self).mode_stack,
            final(self).channel == old(self).channel,
    {
        let stop = self.get_char_index() - 1;
        let text = self.get_text();
        let token = OwningToken {
            token_type: self.token_type,
            channel: self.channel,
            start: self.token_start_char_index,
            stop,
            token_index: -1,
            line: self.token_start_line,
            column: self.token_start_column,
            text,
            read_only: false,
        };
        self.text = None;
        self.emit_token(token);
    }

    /// Builds the end-of-input token, an empty token at the current
    /// position.
    pub fn emit_eof(&mut self)
        requires
            old(self).wf(),
        ensures
            final(self).wf(),
            final(self).token matches Some(t) && {
                &&& t.token_type == TOKEN_EOF
                &&& t.channel == LEXER_DEFAULT_TOKEN_CHANNEL
                &&& (old(self).input matches Some(s2) ==> t.start == s2.index as int && t.stop
                    == s2.index as int - 1)
                &&& t.text@.len() == 0
            },
            final(self).text == old(self).text,
            final(self).hit_eof == old(self).hit_eof,
            final(self).input == old(self).input,
            final(self).interpreter == old(self).interpreter,
            final(self).token_type == old(self).token_type,
            final(self).token_start_char_index == old(self).token_start_char_index,
            final(self).token_start_line == old(self).token_start_line,
            final(self).token_start_column == old(self).token_start_column,
            final(self).mode == old(self).mode,
            final(self).mode_stack == old(self).mode_stack,
            final(self).channel == old(self).channel,
    {
        let idx = self.get_char_index();
        let token = OwningToken {
            token_type: TOKEN_EOF,
            channel: LEXER_DEFAULT_TOKEN_CHANNEL,
            start: idx,
            stop: idx - 1,
            token_index: -1,
            line: self.get_line(),
            column: self.get_char_position_in_line(),
            text: String::new(),
            read_only: false,
        };
        self.emit_token(token);
    }

    /// Lexes the rest of the input into a vector, ending with the
    /// end-of-input token.
    #[verifier::loop_isolation(false)]
    pub fn get_all_tokens(&mut self) -> (r: Result<Vec<OwningToken>, ANTLRError>)
        requires
            old(self).wf(),
        ensures
            final(self).wf(),
            // a complete lexing ends with exactly one end-of-input token
            r matches Ok(v) ==> v@.len() >= 1 && v@.last().token_type == TOKEN_EOF && forall|
                i: int,
            |
                0 <= i < v@.len() - 1 ==> (#[trigger] v@[i]).token_type != TOKEN_EOF,
    {
        let raw_size = match &self.input {
            Some(s) => s.size(),
            None => 0,
        };
        let input_size: u64 = if raw_size < 0x4000_0000 {
            raw_size as u64
        } else {
            0x4000_0000u64
        };
        let mut fuel: u64 = input_size * 4 + 64;
        let mut out: Vec<OwningToken> = Vec::new();
        while fuel > 0
            invariant
                self.wf(),
                forall|i: int|
                    0 <= i < out@.len() ==> (#[trigger] out@[i]).token_type != TOKEN_EOF,
            decreases fuel,
        {
            fuel = fuel - 1;
            let tok = self.next_token()?;
            let is_eof = tok.token_type == TOKEN_EOF;
            out.push(tok);
            if is_eof {
                return Ok(out);
            }
        }
        Err(ANTLRError::IllegalStateError("lexer made no progress".to_string()))
    }
}

impl<T: LexerRecog> Lexer for BaseLexer<T> {
    fn set_channel(&mut self, v: isize)
        ensures
            *final(self) == (BaseLexer { channel: v, ..*old(self) }),
            final(self).wf() == old(self).wf(),
    {
        self.channel = v;
    }

    fn push_mode(&mut self, m: usize)
        ensures
            final(self).mode == m,
            final(self).mode_stack@ == old(self).mode_stack@.push(old(self).mode),
            final(self).input == old(self).input,
            final(self).interpreter == old(self).interpreter,
            final(self).token_type == old(self).token_type,
            final(self).text == old(self).text,
            final(self).token == old(self).token,
            final(self).wf() == old(self).wf(),
    {
        let cur = self.mode;
        self.mode_stack.push(cur);
        self.mode = m;
    }

    fn pop_mode(&mut self) -> (r: Option<usize>)
        ensures
            old(self).mode_stack@.len() == 0 ==> (r is None && *final(self) == *old(self)),
            old(self).mode_stack@.len() > 0 ==> (r == Some(old(self).mode_stack@.last())
                && final(self).mode == old(self).mode_stack@.last() && final(self).mode_stack@
                == old(self).mode_stack@.drop_last()),
            final(self).input == old(self).input,
            final(self).interpreter == old(self).interpreter,
            final(self).token_type == old(self).token_type,
            final(self).text == old(self).text,
            final(self).token == old(self).token,
            final(self).wf() == old(self).wf(),
    {
        if self.mode_stack.len() == 0 {
            return None;
        }
        let popped = self.mode_stack.pop();
        match popped {
            Some(m) => {
                self.mode = m;
                Some(m)
            },
            None => None,
        }
    }

    fn set_type(&mut self, t: isize)
        ensures
            *final(self) == (BaseLexer { token_type: t, ..*old(self) }),
            final(self).wf() == old(self).wf(),
    {
        self.token_type = t;
    }

    fn set_mode(&mut self, m: usize)
        ensures
            *final(self) == (BaseLexer { mode: m, ..*old(self) }),
            final(self).wf() == old(self).wf(),
    {
        self.mode = m;
    }

    fn more(&mut self)
        ensures
            *final(self) == (BaseLexer { token_type: LEXER_MORE, ..*old(self) }),
            final(self).wf() == old(self).wf(),
    {
        self.token_type = LEXER_MORE;
    }

    fn skip(&mut self)
        ensures
            *final(self) == (BaseLexer { token_type: LEXER_SKIP, ..*old(self) }),
            final(self).wf() == old(self).wf(),
    {
        self.token_type = LEXER_SKIP;
    }
}

} // verus!
