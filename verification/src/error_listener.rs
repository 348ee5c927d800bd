//! Listeners that receive syntax errors. The default listener records each
//! report, so a host can inspect or print them as it sees fit.

use vstd::prelude::*;

verus! {

/// Receives one report per syntax error: the position and a message.
pub trait ErrorListener {
    fn syntax_error(&mut self, line: isize, column: isize, msg: &str);
}

/// Records every report it receives, in order.
#[derive(Debug)]
pub struct DefaultErrorListener {
    pub errors: Vec<(isize, isize, String)>,
}

impl DefaultErrorListener {
    pub fn new() -> (r: DefaultErrorListener)
        ensures
            r.errors@.len() == 0,
    {
        DefaultErrorListener { errors: Vec::new() }
    }

    pub fn error_count(&self) -> (r: usize)
        ensures
            r == self.errors@.len(),
    {
        self.errors.len()
    }
}

impl ErrorListener for DefaultErrorListener {
    fn syntax_error(&mut self, line: isize, column: isize, msg: &str)
        ensures
            final(self).errors@.len() == old(self).errors@.len() + 1,
            final(self).errors@.last().0 == line,
            final(self).errors@.last().1 == column,
    {
        let text = crate::token::clone_str_to_string(msg);
        self.errors.push((line, column, text));
    }
}

} // verus!
