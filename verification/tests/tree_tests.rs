//! Parse trees: building contexts, list-form printing, text collection,
//! and the listener walk.

use antlr_rust::parser_rule_context::BaseParserRuleContext;
use antlr_rust::token::OwningToken;
use antlr_rust::tree::LeafNode;
use antlr_rust::tree::ParseTreeListener;
use antlr_rust::tree::ParseTreeNode;
use antlr_rust::tree::ParseTreeWalker;
use antlr_rust::tree::WalkEvent;

fn tok(text: &str) -> OwningToken {
    OwningToken {
        token_type: 1,
        channel: 0,
        start: 0,
        stop: 0,
        token_index: 0,
        line: 1,
        column: 0,
        text: text.to_string(),
        read_only: false,
    }
}

fn leaf(text: &str) -> ParseTreeNode {
    ParseTreeNode::Terminal(LeafNode::new(tok(text), false))
}

/// Builds the left-leaning tree a left-recursive list rule produces for
/// three identifiers.
fn left_leaning_tree() -> BaseParserRuleContext {
    // a(x)
    let mut a1 = BaseParserRuleContext::new_parser_ctx(-1, 1);
    a1.add_child(leaf("x"));
    // a(a(x) y)
    let mut a2 = BaseParserRuleContext::new_parser_ctx(-1, 1);
    a2.add_child(ParseTreeNode::Rule(Box::new(a1)));
    a2.add_child(leaf("y"));
    // a(a(a(x) y) z)
    let mut a3 = BaseParserRuleContext::new_parser_ctx(-1, 1);
    a3.add_child(ParseTreeNode::Rule(Box::new(a2)));
    a3.add_child(leaf("z"));
    // s(a(..))
    let mut s = BaseParserRuleContext::new_parser_ctx(-1, 0);
    s.add_child(ParseTreeNode::Rule(Box::new(a3)));
    s
}

#[test]
fn left_leaning_tree_prints_in_list_form() {
    let s = left_leaning_tree();
    let rule_names: Vec<String> = vec!["s".to_string(), "a".to_string()];
    assert_eq!(s.to_string_tree(&rule_names), "(s (a (a (a x) y) z))");
}

#[test]
fn tree_text_concatenates_leaves() {
    let s = left_leaning_tree();
    assert_eq!(s.get_text(), "xyz");
}

struct Collector {
    log: String,
}

impl ParseTreeListener for Collector {
    fn visit_terminal(&mut self, node: &LeafNode) {
        self.log.push_str("terminal node ");
        self.log.push_str(&node.symbol.text);
        self.log.push('\n');
    }

    fn visit_error_node(&mut self, _node: &LeafNode) {
        self.log.push_str("error node\n");
    }

    fn enter_every_rule(&mut self, _ctx: &BaseParserRuleContext) {}

    fn exit_every_rule(&mut self, _ctx: &BaseParserRuleContext) {}
}

#[test]
fn walker_visits_terminals_in_order() {
    let s = left_leaning_tree();
    let root = ParseTreeNode::Rule(Box::new(s));
    let mut listener = Collector { log: String::new() };
    ParseTreeWalker::walk(&mut listener, &root);
    assert_eq!(listener.log, "terminal node x\nterminal node y\nterminal node z\n");
}

struct RuleCounter {
    enters: usize,
    exits: usize,
}

impl ParseTreeListener for RuleCounter {
    fn visit_terminal(&mut self, _node: &LeafNode) {}

    fn visit_error_node(&mut self, _node: &LeafNode) {}

    fn enter_every_rule(&mut self, _ctx: &BaseParserRuleContext) {
        self.enters += 1;
    }

    fn exit_every_rule(&mut self, _ctx: &BaseParserRuleContext) {
        self.exits += 1;
    }
}

#[test]
fn walk_events_mirror_listener_calls() {
    // the verified event sequence and the listener-driven walk agree
    let s = left_leaning_tree();
    let root = ParseTreeNode::Rule(Box::new(s));
    let mut listener = FullLog { log: Vec::new() };
    ParseTreeWalker::walk(&mut listener, &root);
    let events = ParseTreeWalker::walk_events(&root);
    let rendered: Vec<String> = events
        .iter()
        .map(|e| match e {
            WalkEvent::EnterRule { rule_index } => format!("enter {}", rule_index),
            WalkEvent::ExitRule { rule_index } => format!("exit {}", rule_index),
            WalkEvent::Leaf { text, is_error } => {
                if *is_error {
                    format!("error {}", text)
                } else {
                    format!("leaf {}", text)
                }
            },
        })
        .collect();
    assert_eq!(listener.log, rendered);
    assert_eq!(rendered[0], "enter 0");
    assert_eq!(rendered.last().unwrap(), "exit 0");
}

struct FullLog {
    log: Vec<String>,
}

impl ParseTreeListener for FullLog {
    fn visit_terminal(&mut self, node: &LeafNode) {
        self.log.push(format!("leaf {}", node.symbol.text));
    }

    fn visit_error_node(&mut self, node: &LeafNode) {
        self.log.push(format!("error {}", node.symbol.text));
    }

    fn enter_every_rule(&mut self, ctx: &BaseParserRuleContext) {
        self.log.push(format!("enter {}", ctx.rule_index));
    }

    fn exit_every_rule(&mut self, ctx: &BaseParserRuleContext) {
        self.log.push(format!("exit {}", ctx.rule_index));
    }
}

#[test]
fn walker_enters_and_exits_every_rule() {
    let s = left_leaning_tree();
    let root = ParseTreeNode::Rule(Box::new(s));
    let mut listener = RuleCounter { enters: 0, exits: 0 };
    ParseTreeWalker::walk(&mut listener, &root);
    assert_eq!(listener.enters, 4);
    assert_eq!(listener.exits, 4);
}

#[test]
fn context_child_bookkeeping() {
    let mut ctx = BaseParserRuleContext::new_parser_ctx(7, 2);
    assert_eq!(ctx.get_invoking_state(), 7);
    assert_eq!(ctx.get_rule_index(), 2);
    assert_eq!(ctx.get_child_count(), 0);
    ctx.add_token_node(tok("k"));
    ctx.add_error_node(tok("?"));
    assert_eq!(ctx.get_child_count(), 2);
    assert!(ctx.get_child(0).is_some());
    assert!(ctx.get_child(2).is_none());
    ctx.remove_last_child();
    assert_eq!(ctx.get_child_count(), 1);
}

#[test]
fn copy_from_takes_bookkeeping_and_children() {
    let mut src = BaseParserRuleContext::new_parser_ctx(3, 1);
    src.set_start(Some(tok("p")));
    src.add_token_node(tok("q"));
    src.add_token_node(tok("s"));
    let mut dst = BaseParserRuleContext::new_parser_ctx(-1, 0);
    dst.add_token_node(tok("r"));
    dst.copy_from(&src);
    assert_eq!(dst.get_invoking_state(), 3);
    assert_eq!(dst.get_rule_index(), 1);
    // the copy carries the source's children; the source keeps its own
    assert_eq!(dst.get_child_count(), 2);
    assert_eq!(dst.get_text(), "qs");
    assert_eq!(src.get_child_count(), 2);
    assert_eq!(src.get_text(), "qs");
}
