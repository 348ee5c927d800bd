//! Rule contexts: the interior nodes of the parse tree. A context is
//! created on rule entry, children are appended as the rule body runs, and
//! the node is finished on rule exit.

use vstd::prelude::*;
use vstd::string::*;
use crate::interval_set::Interval;
use crate::token::OwningToken;
use crate::tree::clone_node;
use crate::tree::node_cequal;
use crate::tree::LeafNode;
use crate::tree::ParseTreeNode;

verus! {

/// Structural equality of contexts: the same bookkeeping fields, tokens
/// equal up to text, and structurally equal children in the same order.
pub open spec fn ctx_cequal(a: BaseParserRuleContext, b: BaseParserRuleContext) -> bool
    decreases a,
{
    &&& a.invoking_state == b.invoking_state
    &&& a.rule_index == b.rule_index
    &&& a.alt_number == b.alt_number
    &&& final_token_eq(a.start, b.start)
    &&& final_token_eq(a.stop, b.stop)
    &&& a.parent_index == b.parent_index
    &&& a.children@.len() == b.children@.len()
    &&& forall|i: int|
        0 <= i < a.children@.len() ==> node_cequal(#[trigger] a.children@[i], b.children@[i])
}

/// An interior parse-tree node: the rule it instantiates, the state that
/// invoked it, its children in order, and the first and last tokens it
/// covers.
#[derive(Debug)]
pub struct BaseParserRuleContext {
    pub invoking_state: isize,
    pub rule_index: usize,
    pub alt_number: isize,
    pub start: Option<OwningToken>,
    pub stop: Option<OwningToken>,
    /// A non-owning handle to the parent: an index into whatever arena the
    /// host keeps its contexts in. Owning edges run parent-to-child only.
    pub parent_index: Option<usize>,
    /// The recognition error attached during recovery, if any.
    pub exception: Option<Box<crate::errors::ANTLRError>>,
    pub children: Vec<ParseTreeNode>,
}

impl BaseParserRuleContext {
    /// A fresh, childless context.
    pub fn new_parser_ctx(invoking_state: isize, rule_index: usize) -> (r: BaseParserRuleContext)
        ensures
            r.invoking_state == invoking_state,
            r.rule_index == rule_index,
            r.alt_number == 0,
            r.start is None,
            r.stop is None,
            r.parent_index is None,
            r.exception is None,
            r.children@.len() == 0,
    {
        BaseParserRuleContext {
            invoking_state,
            rule_index,
            alt_number: 0,
            start: None,
            stop: None,
            parent_index: None,
            exception: None,
            children: Vec::new(),
        }
    }

    /// Takes over another context's bookkeeping fields and its children
    /// (as structural copies), as rule re-labelling during left-recursion
    /// handling does; `other` itself is untouched.
    #[verifier::loop_isolation(false)]
    pub fn copy_from(&mut self, other: &BaseParserRuleContext)
        ensures
            final(self).invoking_state == other.invoking_state,
            final(self).rule_index == other.rule_index,
            final(self).parent_index == other.parent_index,
            final(self).alt_number == other.alt_number,
            final(self).exception is None,
            final_token_eq(final(self).start, other.start),
            final_token_eq(final(self).stop, other.stop),
            final(self).children@.len() == other.children@.len(),
            forall|i: int|
                0 <= i < other.children@.len() ==> node_cequal(
                    #[trigger] final(self).children@[i],
                    other.children@[i],
                ),
    {
        self.invoking_state = other.invoking_state;
        self.rule_index = other.rule_index;
        self.parent_index = other.parent_index;
        self.alt_number = other.alt_number;
        self.exception = None;
        self.start = clone_opt_token(&other.start);
        self.stop = clone_opt_token(&other.stop);
        let n = other.children.len();
        let mut kids: Vec<ParseTreeNode> = Vec::new();
        let mut i: usize = 0;
        while i < n
            invariant
                n == other.children@.len(),
                0 <= i <= n,
                kids@.len() == i,
                forall|k: int|
                    0 <= k < i ==> node_cequal(#[trigger] kids@[k], other.children@[k]),
            decreases n - i,
        {
            kids.push(clone_node(&other.children[i]));
            i += 1;
        }
        self.children = kids;
    }

    /// A structural copy of this whole context.
    #[verifier::loop_isolation(false)]
    pub fn deep_clone(&self) -> (r: BaseParserRuleContext)
        ensures
            ctx_cequal(r, *self),
        decreases self,
    {
        let n = self.children.len();
        let mut kids: Vec<ParseTreeNode> = Vec::new();
        let mut i: usize = 0;
        while i < n
            invariant
                n == self.children@.len(),
                0 <= i <= n,
                kids@.len() == i,
                forall|k: int|
                    0 <= k < i ==> node_cequal(#[trigger] kids@[k], self.children@[k]),
            decreases n - i,
        {
            kids.push(clone_node(&self.children[i]));
            i += 1;
        }
        BaseParserRuleContext {
            invoking_state: self.invoking_state,
            rule_index: self.rule_index,
            alt_number: self.alt_number,
            start: clone_opt_token(&self.start),
            stop: clone_opt_token(&self.stop),
            parent_index: self.parent_index,
            exception: None,
            children: kids,
        }
    }

    /// Records the parent handle.
    pub fn set_parent(&mut self, p: Option<usize>)
        ensures
            final(self).parent_index == p,
            final(self).children == old(self).children,
    {
        self.parent_index = p;
    }

    pub fn get_parent(&self) -> (r: Option<usize>)
        ensures
            r == self.parent_index,
    {
        self.parent_index
    }

    pub fn has_parent(&self) -> (r: bool)
        ensures
            r == (self.parent_index is Some),
    {
        match self.parent_index {
            Some(_) => true,
            None => false,
        }
    }

    /// Attaches the recognition error recovery caught in this rule.
    pub fn set_exception(&mut self, e: crate::errors::ANTLRError)
        ensures
            final(self).exception is Some,
            final(self).children == old(self).children,
    {
        self.exception = Some(Box::new(e));
    }

    pub fn get_invoking_state(&self) -> (r: isize)
        ensures
            r == self.invoking_state,
    {
        self.invoking_state
    }

    pub fn set_invoking_state(&mut self, s: isize)
        ensures
            *final(self) == (BaseParserRuleContext { invoking_state: s, ..*old(self) }),
    {
        self.invoking_state = s;
    }

    pub fn get_rule_index(&self) -> (r: usize)
        ensures
            r == self.rule_index,
    {
        self.rule_index
    }

    pub fn get_alt_number(&self) -> (r: isize)
        ensures
            r == self.alt_number,
    {
        self.alt_number
    }

    pub fn set_alt_number(&mut self, a: isize)
        ensures
            *final(self) == (BaseParserRuleContext { alt_number: a, ..*old(self) }),
    {
        self.alt_number = a;
    }

    pub fn set_start(&mut self, t: Option<OwningToken>)
        ensures
            final(self).start == t,
            final(self).children == old(self).children,
    {
        self.start = t;
    }

    pub fn set_stop(&mut self, t: Option<OwningToken>)
        ensures
            final(self).stop == t,
            final(self).children == old(self).children,
    {
        self.stop = t;
    }

    /// Appends a child node.
    pub fn add_child(&mut self, child: ParseTreeNode)
        ensures
            final(self).children@ == old(self).children@.push(child),
            final(self).invoking_state == old(self).invoking_state,
            final(self).rule_index == old(self).rule_index,
            final(self).start == old(self).start,
            final(self).stop == old(self).stop,
    {
        self.children.push(child);
    }

    /// Appends a token leaf.
    pub fn add_token_node(&mut self, token: OwningToken)
        ensures
            final(self).children@.len() == old(self).children@.len() + 1,
    {
        self.add_child(ParseTreeNode::Terminal(LeafNode::new(token, false)));
    }

    /// Appends an error leaf for a token consumed or invented during
    /// recovery.
    pub fn add_error_node(&mut self, bad_token: OwningToken)
        ensures
            final(self).children@.len() == old(self).children@.len() + 1,
    {
        self.add_child(ParseTreeNode::Error(LeafNode::new(bad_token, true)));
    }

    /// Removes the most recently added child, if any.
    pub fn remove_last_child(&mut self)
        ensures
            old(self).children@.len() == 0 ==> final(self).children@ == old(self).children@,
            old(self).children@.len() > 0 ==> final(self).children@ == old(
                self,
            ).children@.drop_last(),
    {
        if self.children.len() > 0 {
            let popped = self.children.pop();
            match popped {
                _ => {},
            }
        }
    }

    pub fn get_child_count(&self) -> (r: usize)
        ensures
            r == self.children@.len(),
    {
        self.children.len()
    }

    pub fn get_child(&self, i: usize) -> (r: Option<&ParseTreeNode>)
        ensures
            i < self.children@.len() ==> (r matches Some(c) && *c == self.children@[i as int]),
            i >= self.children@.len() ==> r is None,
    {
        if i < self.children.len() {
            Some(&self.children[i])
        } else {
            None
        }
    }

    pub fn get_children(&self) -> (r: &Vec<ParseTreeNode>)
        ensures
            r == &self.children,
    {
        &self.children
    }

    /// The token-index interval from the first to the last covered token.
    pub fn get_source_interval(&self) -> (r: Interval)
    {
        let a = match &self.start {
            Some(t) => t.token_index,
            None => -1,
        };
        let b = match &self.stop {
            Some(t) => t.token_index,
            None => -2,
        };
        Interval { a, b }
    }

    /// The concatenated text of all tokens added under this context, in
    /// order: each leaf's text, each nested rule's own concatenation.
    #[verifier::loop_isolation(false)]
    pub fn get_text(&self) -> (r: String)
        ensures
            r@ == crate::tree::ctx_text(*self),
        decreases self,
    {
        let mut out = String::new();
        let n = self.children.len();
        let mut i: usize = 0;
        while i < n
            invariant
                n == self.children@.len(),
                0 <= i <= n,
                out@ == crate::tree::ctx_text_upto(*self, i as int),
            decreases n - i,
        {
            let part = self.children[i].get_text();
            out.append(part.as_str());
            i += 1;
        }
        out
    }

    /// The tree below this node in list form: `(rule child1 .. childN)`
    /// with rule names looked up in `rule_names`, a leaf shown as its text.
    #[verifier::loop_isolation(false)]
    pub fn to_string_tree(&self, rule_names: &Vec<String>) -> (r: String)
        decreases self,
    {
        let mut out = String::new();
        if self.children.len() == 0 {
            let name = self.rule_display_name(rule_names);
            out.append(name.as_str());
            return out;
        }
        out.append("(");
        let name = self.rule_display_name(rule_names);
        out.append(name.as_str());
        let n = self.children.len();
        let mut i: usize = 0;
        while i < n
            invariant
                n == self.children@.len(),
                0 <= i <= n,
            decreases n - i,
        {
            out.append(" ");
            let part = node_to_string_tree(&self.children[i], rule_names);
            out.append(part.as_str());
            i += 1;
        }
        out.append(")");
        out
    }

    /// This context's display name: its rule's name if the table has one.
    fn rule_display_name(&self, rule_names: &Vec<String>) -> (r: String)
    {
        if self.rule_index < rule_names.len() {
            crate::token::clone_string(&rule_names[self.rule_index])
        } else {
            "<unknown>".to_string()
        }
    }

    /// To stand in for the whole-context display the host wants: the same
    /// list form without rule names.
    pub fn to_string(&self) -> (r: String)
    {
        let empty: Vec<String> = Vec::new();
        self.to_string_tree(&empty)
    }
}

/// The list form of any node.
#[verifier::loop_isolation(false)]
pub fn node_to_string_tree(node: &ParseTreeNode, rule_names: &Vec<String>) -> (r: String)
    decreases node,
{
    match node {
        ParseTreeNode::Terminal(l) => l.get_text(),
        ParseTreeNode::Error(l) => l.get_text(),
        ParseTreeNode::Rule(ctx) => (**ctx).to_string_tree(rule_names),
    }
}

/// A copy of an optional token.
fn clone_opt_token(t: &Option<OwningToken>) -> (r: Option<OwningToken>)
    ensures
        final_token_eq(r, *t),
{
    match t {
        Some(tok) => Some(crate::token::Token::to_owned_token(tok)),
        None => None,
    }
}

/// Equality of optional tokens up to the text's characters.
pub open spec fn final_token_eq(a: Option<OwningToken>, b: Option<OwningToken>) -> bool {
    match (a, b) {
        (Option::Some(x), Option::Some(y)) => {
            &&& x.token_type == y.token_type
            &&& x.channel == y.channel
            &&& x.start == y.start
            &&& x.stop == y.stop
            &&& x.token_index == y.token_index
            &&& x.line == y.line
            &&& x.column == y.column
            &&& x.text@ == y.text@
        },
        (Option::None, Option::None) => true,
        _ => false,
    }
}

} // verus!
