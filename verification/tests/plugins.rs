use std::cell::RefCell;
use std::collections::VecDeque;
use std::rc::Rc;

use aiscript_engine::ast::nodes::Node;
use aiscript_engine::common::error::{AiScriptBasicError, AiScriptBasicErrorKind};
use aiscript_engine::common::position::Position;
use aiscript_engine::common::string::Utf16String;
use aiscript_engine::lexer::token::{Token, TokenKind};
use aiscript_engine::lexer::token_stream::TokenStream;
use aiscript_engine::parser::parser::{Parser, ParserPlugin, PluginType};

/// Records its name when it runs, then clears the nodes or fails, as asked.
struct Recorder {
    name: &'static str,
    log: Rc<RefCell<Vec<String>>>,
    clear: bool,
    fail: bool,
}

impl ParserPlugin for Recorder {
    fn run(&mut self, nodes: &mut Vec<Node>) -> Result<(), AiScriptBasicError> {
        self.log.borrow_mut().push(format!("{}:{}", self.name, nodes.len()));
        if self.fail {
            return Err(AiScriptBasicError::new(AiScriptBasicErrorKind::Syntax, format!("{} refused", self.name), None));
        }
        if self.clear {
            nodes.clear();
        }
        Ok(())
    }
}

fn one_number() -> TokenStream {
    let mut tokens = VecDeque::new();
    tokens.push_back(Token {
        kind: TokenKind::NumberLiteral(Utf16String::from("1"), 1.0f64.to_bits()),
        pos: Position { line: 1, column: 1 },
        has_left_spacing: false,
    });
    TokenStream::new(tokens)
}

fn plugin(name: &'static str, log: &Rc<RefCell<Vec<String>>>, clear: bool, fail: bool) -> Box<dyn ParserPlugin> {
    Box::new(Recorder { name, log: log.clone(), clear, fail })
}

#[test]
fn transform_plugin_result_is_returned() {
    let log = Rc::new(RefCell::new(Vec::new()));
    let mut parser = Parser::new();
    parser.add_plugin(PluginType::Transform, plugin("clear", &log, true, false));
    let nodes = parser.parse(&mut one_number()).unwrap();
    assert!(nodes.is_empty());
    assert_eq!(*log.borrow(), vec!["clear:1".to_string()]);
}

#[test]
fn plugins_run_in_order_validations_first() {
    let log = Rc::new(RefCell::new(Vec::new()));
    let mut parser = Parser::new();
    parser.add_plugin(PluginType::Transform, plugin("t1", &log, true, false));
    parser.add_plugin(PluginType::Validate, plugin("v1", &log, false, false));
    parser.add_plugin(PluginType::Transform, plugin("t2", &log, false, false));
    parser.add_plugin(PluginType::Validate, plugin("v2", &log, false, false));
    let nodes = parser.parse(&mut one_number()).unwrap();
    assert!(nodes.is_empty());
    assert_eq!(*log.borrow(), vec!["v1:1", "v2:1", "t1:1", "t2:0"]);
}

#[test]
fn first_plugin_error_stops_the_rest() {
    let log = Rc::new(RefCell::new(Vec::new()));
    let mut parser = Parser::new();
    parser.add_plugin(PluginType::Validate, plugin("v1", &log, false, false));
    parser.add_plugin(PluginType::Validate, plugin("v2", &log, false, true));
    parser.add_plugin(PluginType::Transform, plugin("t1", &log, true, false));
    let err = parser.parse(&mut one_number()).unwrap_err();
    assert_eq!(err.message, "v2 refused");
    assert_eq!(*log.borrow(), vec!["v1:1", "v2:1"]);
}

#[test]
fn grammar_error_runs_no_plugin() {
    let log = Rc::new(RefCell::new(Vec::new()));
    let mut parser = Parser::new();
    parser.add_plugin(PluginType::Validate, plugin("v1", &log, false, false));
    let mut tokens = VecDeque::new();
    tokens.push_back(Token { kind: TokenKind::CloseParen, pos: Position { line: 1, column: 1 }, has_left_spacing: false });
    let err = parser.parse(&mut TokenStream::new(tokens)).unwrap_err();
    assert_eq!(err.message, "unexpected token: CloseParen");
    assert!(log.borrow().is_empty());
}
