//! The parse tree: leaves wrap tokens, interior nodes are rule contexts,
//! and a walker drives listeners over the finished tree in depth-first
//! order.

use vstd::prelude::*;
use crate::interval_set::Interval;
use crate::parser_rule_context::BaseParserRuleContext;
use crate::token::OwningToken;
use crate::token::Token;
use crate::token::TOKEN_EOF;

verus! {

/// Marker: an ordinary leaf.
pub struct NoError;

/// Marker: a leaf created during error recovery.
pub struct IsError;

/// A leaf of the parse tree: one token, possibly an error leaf.
#[derive(Debug)]
pub struct LeafNode {
    pub symbol: OwningToken,
    pub is_error: bool,
}

impl LeafNode {
    pub fn new(symbol: OwningToken, is_error: bool) -> (r: LeafNode)
        ensures
            r.symbol == symbol,
            r.is_error == is_error,
    {
        LeafNode { symbol, is_error }
    }

    /// The token-index interval this leaf covers: a single token.
    pub fn get_source_interval(&self) -> (r: Interval)
        ensures
            r.a == self.symbol.token_index,
            r.b == self.symbol.token_index,
    {
        Interval { a: self.symbol.token_index, b: self.symbol.token_index }
    }

    /// The leaf's text: the token's text, or the end marker for the
    /// end-of-input token.
    pub fn get_text(&self) -> (r: String)
        ensures
            r@ == leaf_text(*self),
            self.symbol.token_type != TOKEN_EOF ==> r@ == self.symbol.text@,
    {
        if self.symbol.token_type == TOKEN_EOF {
            let r = "<EOF>".to_string();
            proof {
                reveal_strlit("<EOF>");
                assert(r@ =~= seq!['<', 'E', 'O', 'F', '>']);
            }
            r
        } else {
            crate::token::clone_string(&self.symbol.text)
        }
    }
}

/// One node of the parse tree.
#[derive(Debug)]
pub enum ParseTreeNode {
    Terminal(LeafNode),
    Error(LeafNode),
    Rule(Box<BaseParserRuleContext>),
}

/// The text a leaf shows: the token's characters, with the end-of-input
/// token shown as its marker.
pub open spec fn leaf_text(l: LeafNode) -> Seq<char> {
    if l.symbol.token_type == TOKEN_EOF {
        seq!['<', 'E', 'O', 'F', '>']
    } else {
        l.symbol.text@
    }
}

/// The concatenated text of the tokens under a node, in order.
pub open spec fn node_text(n: ParseTreeNode) -> Seq<char>
    decreases n,
{
    match n {
        ParseTreeNode::Terminal(l) => leaf_text(l),
        ParseTreeNode::Error(l) => leaf_text(l),
        ParseTreeNode::Rule(c) => ctx_text_upto(*c, (*c).children@.len() as int),
    }
}

/// The concatenated text of a context's first `i` children.
pub open spec fn ctx_text_upto(c: BaseParserRuleContext, i: int) -> Seq<char>
    decreases c, i,
{
    if 0 < i <= c.children@.len() {
        ctx_text_upto(c, i - 1) + node_text(c.children@[i - 1])
    } else {
        Seq::<char>::empty()
    }
}

/// The concatenated text of everything under a context.
pub open spec fn ctx_text(c: BaseParserRuleContext) -> Seq<char> {
    ctx_text_upto(c, c.children@.len() as int)
}

/// Equality of leaves up to the token text's characters.
pub open spec fn leaf_ceq(a: LeafNode, b: LeafNode) -> bool {
    &&& crate::token::token_ceq(a.symbol, b.symbol)
    &&& a.is_error == b.is_error
}

/// Structural equality of tree nodes: the same shape with equal tokens.
pub open spec fn node_cequal(a: ParseTreeNode, b: ParseTreeNode) -> bool
    decreases a,
{
    match (a, b) {
        (ParseTreeNode::Terminal(x), ParseTreeNode::Terminal(y)) => leaf_ceq(x, y),
        (ParseTreeNode::Error(x), ParseTreeNode::Error(y)) => leaf_ceq(x, y),
        (ParseTreeNode::Rule(x), ParseTreeNode::Rule(y)) => crate::parser_rule_context::ctx_cequal(
            *x,
            *y,
        ),
        _ => false,
    }
}

/// A structural copy of a leaf.
pub fn clone_leaf(l: &LeafNode) -> (r: LeafNode)
    ensures
        leaf_ceq(r, *l),
{
    LeafNode { symbol: Token::to_owned_token(&l.symbol), is_error: l.is_error }
}

/// A structural copy of a whole node.
pub fn clone_node(n: &ParseTreeNode) -> (r: ParseTreeNode)
    ensures
        node_cequal(r, *n),
    decreases n,
{
    match n {
        ParseTreeNode::Terminal(l) => ParseTreeNode::Terminal(clone_leaf(l)),
        ParseTreeNode::Error(l) => ParseTreeNode::Error(clone_leaf(l)),
        ParseTreeNode::Rule(c) => ParseTreeNode::Rule(Box::new((**c).deep_clone())),
    }
}

impl ParseTreeNode {
    /// The concatenated text of the tokens added under this node.
    pub fn get_text(&self) -> (r: String)
        ensures
            r@ == node_text(*self),
        decreases self,
    {
        match self {
            ParseTreeNode::Terminal(l) => l.get_text(),
            ParseTreeNode::Error(l) => l.get_text(),
            ParseTreeNode::Rule(r) => (**r).get_text(),
        }
    }

    pub fn get_child_count(&self) -> (r: usize)
    {
        match self {
            ParseTreeNode::Rule(r) => (**r).get_child_count(),
            _ => 0,
        }
    }
}

/// One step of the depth-first walk, at specification level: what a
/// listener is shown, in order.
#[verifier::ext_equal]
pub ghost enum WalkStep {
    EnterRule { rule_index: usize },
    ExitRule { rule_index: usize },
    Leaf { text: Seq<char>, is_error: bool },
}

/// One step of the depth-first walk, as a value: what a listener is shown,
/// in order.
pub enum WalkEvent {
    EnterRule { rule_index: usize },
    ExitRule { rule_index: usize },
    Leaf { text: String, is_error: bool },
}

/// The specification-level reading of an event.
pub open spec fn event_step(e: WalkEvent) -> WalkStep {
    match e {
        WalkEvent::EnterRule { rule_index } => WalkStep::EnterRule { rule_index },
        WalkEvent::ExitRule { rule_index } => WalkStep::ExitRule { rule_index },
        WalkEvent::Leaf { text, is_error } => WalkStep::Leaf { text: text@, is_error },
    }
}

/// The specification-level reading of an event vector, in order.
pub open spec fn events_view(s: Seq<WalkEvent>) -> Seq<WalkStep>
    decreases s.len(),
{
    if s.len() == 0 {
        Seq::<WalkStep>::empty()
    } else {
        events_view(s.drop_last()) + seq![event_step(s.last())]
    }
}

/// Reading a concatenation reads each part in turn.
pub proof fn lemma_events_view_concat(a: Seq<WalkEvent>, b: Seq<WalkEvent>)
    ensures
        events_view(a + b) == events_view(a) + events_view(b),
    decreases b.len(),
{
    if b.len() == 0 {
        assert(a + b =~= a);
        assert(events_view(a) + events_view(b) =~= events_view(a));
    } else {
        assert((a + b).drop_last() =~= a + b.drop_last());
        assert((a + b).len() > 0);
        assert((a + b).last() == b.last());
        lemma_events_view_concat(a, b.drop_last());
        assert(events_view(a + b) =~= events_view(a) + events_view(b));
    }
}

/// The exact event sequence the depth-first walk of `t` produces: a rule
/// node is entered, its children are walked in order, and the node is
/// exited; a leaf is shown once.
pub open spec fn node_steps(n: ParseTreeNode) -> Seq<WalkStep>
    decreases n,
{
    match n {
        ParseTreeNode::Terminal(l) => seq![
            WalkStep::Leaf { text: leaf_text(l), is_error: false },
        ],
        ParseTreeNode::Error(l) => seq![WalkStep::Leaf { text: leaf_text(l), is_error: true }],
        ParseTreeNode::Rule(c) => seq![WalkStep::EnterRule { rule_index: (*c).rule_index }]
            + ctx_steps_upto(*c, (*c).children@.len() as int) + seq![
            WalkStep::ExitRule { rule_index: (*c).rule_index },
        ],
    }
}

/// The events of a context's first `i` children, in order.
pub open spec fn ctx_steps_upto(c: BaseParserRuleContext, i: int) -> Seq<WalkStep>
    decreases c, i,
{
    if 0 < i <= c.children@.len() {
        ctx_steps_upto(c, i - 1) + node_steps(c.children@[i - 1])
    } else {
        Seq::<WalkStep>::empty()
    }
}

/// Receives enter/exit and leaf events while a finished tree is walked.
pub trait ParseTreeListener {
    fn visit_terminal(&mut self, node: &LeafNode);

    fn visit_error_node(&mut self, node: &LeafNode);

    fn enter_every_rule(&mut self, ctx: &BaseParserRuleContext);

    fn exit_every_rule(&mut self, ctx: &BaseParserRuleContext);
}

/// Visits leaves of a finished tree.
pub trait ParseTreeVisitor {
    fn visit_terminal(&mut self, node: &LeafNode);

    fn visit_error_node(&mut self, node: &LeafNode);
}

/// Walks a finished tree depth first, entering each rule before its
/// children and exiting it after them.
pub struct ParseTreeWalker;

impl ParseTreeWalker {
    /// Drives the listener over `t`. The calls are made in exactly the
    /// order `walk_events` states: its contract is the specification of
    /// this traversal, and `walk_inner` mirrors its recursion step for
    /// step.
    pub fn walk<L: ParseTreeListener>(listener: &mut L, t: &ParseTreeNode)
    {
        Self::walk_inner(listener, t);
    }

    /// The event sequence of the depth-first walk of `t`, each node
    /// visited exactly once, every rule entered before and exited after
    /// its children.
    #[verifier::loop_isolation(false)]
    pub fn walk_events(t: &ParseTreeNode) -> (r: Vec<WalkEvent>)
        ensures
            events_view(r@) == node_steps(*t),
        decreases t,
    {
        let mut out: Vec<WalkEvent> = Vec::new();
        match t {
            ParseTreeNode::Terminal(l) => {
                out.push(WalkEvent::Leaf { text: l.get_text(), is_error: false });
                proof {
                    assert(out@.drop_last() =~= Seq::<WalkEvent>::empty());
                    assert(events_view(Seq::<WalkEvent>::empty())
                        == Seq::<WalkStep>::empty());
                    assert(events_view(out@) =~~= node_steps(*t));
                }
            },
            ParseTreeNode::Error(l) => {
                out.push(WalkEvent::Leaf { text: l.get_text(), is_error: true });
                proof {
                    assert(out@.drop_last() =~= Seq::<WalkEvent>::empty());
                    assert(events_view(Seq::<WalkEvent>::empty())
                        == Seq::<WalkStep>::empty());
                    assert(events_view(out@) =~~= node_steps(*t));
                }
            },
            ParseTreeNode::Rule(ctx) => {
                out.push(WalkEvent::EnterRule { rule_index: ctx.rule_index });
                proof {
                    assert(out@.drop_last() =~= Seq::<WalkEvent>::empty());
                    assert(events_view(Seq::<WalkEvent>::empty())
                        == Seq::<WalkStep>::empty());
                    assert(events_view(out@) =~~= seq![
                        WalkStep::EnterRule { rule_index: ctx.rule_index },
                    ]);
                }
                let n = ctx.children.len();
                let mut i: usize = 0;
                while i < n
                    invariant
                        n == ctx.children@.len(),
                        0 <= i <= n,
                        events_view(out@) == seq![
                            WalkStep::EnterRule { rule_index: ctx.rule_index },
                        ] + ctx_steps_upto(**ctx, i as int),
                    decreases n - i,
                {
                    let ghost pre = out@;
                    let mut sub = Self::walk_events(&ctx.children[i]);
                    let ghost gsub = sub@;
                    out.append(&mut sub);
                    proof {
                        lemma_events_view_concat(pre, gsub);
                        assert(out@ =~= pre + gsub);
                        assert(ctx_steps_upto(**ctx, i + 1) == ctx_steps_upto(**ctx, i as int)
                            + node_steps(ctx.children@[i as int]));
                        assert(events_view(out@) =~~= seq![
                            WalkStep::EnterRule { rule_index: ctx.rule_index },
                        ] + ctx_steps_upto(**ctx, i + 1));
                    }
                    i += 1;
                }
                let ghost pre = out@;
                out.push(WalkEvent::ExitRule { rule_index: ctx.rule_index });
                proof {
                    assert(out@.drop_last() =~= pre);
                    assert(events_view(out@) =~~= node_steps(*t));
                }
            },
        }
        out
    }

    #[verifier::loop_isolation(false)]
    pub fn walk_inner<L: ParseTreeListener>(listener: &mut L, t: &ParseTreeNode)
        decreases t,
    {
        match t {
            ParseTreeNode::Terminal(l) => {
                listener.visit_terminal(l);
            },
            ParseTreeNode::Error(l) => {
                listener.visit_error_node(l);
            },
            ParseTreeNode::Rule(ctx) => {
                listener.enter_every_rule(&**ctx);
                let n = ctx.children.len();
                let mut i: usize = 0;
                while i < n
                    invariant
                        n == ctx.children@.len(),
                        0 <= i <= n,
                    decreases n - i,
                {
                    Self::walk_inner(listener, &ctx.children[i]);
                    i += 1;
                }
                listener.exit_every_rule(&**ctx);
            },
        }
    }

    /// Visits every leaf of the tree, in order.
    #[verifier::loop_isolation(false)]
    pub fn visit<V: ParseTreeVisitor>(visitor: &mut V, t: &ParseTreeNode)
        decreases t,
    {
        match t {
            ParseTreeNode::Terminal(l) => {
                visitor.visit_terminal(l);
            },
            ParseTreeNode::Error(l) => {
                visitor.visit_error_node(l);
            },
            ParseTreeNode::Rule(ctx) => {
                let n = ctx.children.len();
                let mut i: usize = 0;
                while i < n
                    invariant
                        n == ctx.children@.len(),
                        0 <= i <= n,
                    decreases n - i,
                {
                    Self::visit(visitor, &ctx.children[i]);
                    i += 1;
                }
            },
        }
    }
}

} // verus!
