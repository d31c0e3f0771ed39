use std::collections::VecDeque;

use aiscript_engine::ast::nodes::{
    BinaryArithmeticOperator, BinaryOperator, Expression, NamespaceMember, Node, Statement,
    StatementOrExpression,
};
use aiscript_engine::common::error::{AiScriptBasicError, AiScriptBasicErrorKind};
use aiscript_engine::common::position::Position;
use aiscript_engine::common::string::{Utf16Str, Utf16String};
use aiscript_engine::ir::ir::{DataItem, Instruction, Ir, UserFn};
use aiscript_engine::ir::translate::translate;
use aiscript_engine::lexer::token::{Token, TokenKind};
use aiscript_engine::lexer::token_stream::TokenStream;
use aiscript_engine::library::standard::{compile_program, core_not, CORE_NOT, PRINT};
use aiscript_engine::parser::parser::Parser;
use aiscript_engine::vm::values::{HeapCell, Value};
use aiscript_engine::vm::vm::{ArithOp, Vm, VmState};

// ---------------------------------------------------------------------------
// Helpers: a small scanner for the sources of the tests, and a host for the VM.
// ---------------------------------------------------------------------------

fn token(kind: TokenKind, line: usize, column: usize, has_left_spacing: bool) -> Token {
    Token { kind, pos: Position { line, column }, has_left_spacing }
}

fn is_word_char(c: char) -> bool {
    c.is_ascii_alphanumeric() || c == '_'
}

fn scan(source: &str) -> VecDeque<Token> {
    let chars: Vec<char> = source.chars().collect();
    let mut out = VecDeque::new();
    let mut i = 0;
    let mut line = 1;
    let mut column = 1;
    let mut spacing = false;
    while i < chars.len() {
        let c = chars[i];
        let (l, col) = (line, column);
        if c == ' ' || c == '\t' {
            spacing = true;
            i += 1;
            column += 1;
            continue;
        }
        if c == '\n' {
            out.push_back(token(TokenKind::NewLine, l, col, spacing));
            spacing = false;
            i += 1;
            line += 1;
            column = 1;
            continue;
        }
        let start = i;
        let kind = if c.is_ascii_alphabetic() || c == '_' {
            while i < chars.len()
                && (is_word_char(chars[i])
                    || (chars[i] == ':' && i + 1 < chars.len() && chars[i + 1].is_ascii_alphabetic()))
            {
                i += 1;
            }
            let word: String = chars[start..i].iter().collect();
            let units: Vec<u16> = word.encode_utf16().collect();
            TokenKind::for_word(&Utf16Str::new(&units))
        } else if c.is_ascii_digit() {
            while i < chars.len() && (chars[i].is_ascii_digit() || chars[i] == '.') {
                i += 1;
            }
            let text: String = chars[start..i].iter().collect();
            let value: f64 = text.parse().unwrap();
            TokenKind::NumberLiteral(Utf16String::from(text.as_str()), value.to_bits())
        } else if c == '\'' || c == '"' {
            i += 1;
            while chars[i] != c {
                i += 1;
            }
            let text: String = chars[start + 1..i].iter().collect();
            i += 1;
            TokenKind::StringLiteral(Utf16String::from(text.as_str()))
        } else {
            let next = if i + 1 < chars.len() { chars[i + 1] } else { '\0' };
            let (kind, len) = match (c, next) {
                (':', ':') => (TokenKind::Colon2, 2),
                (':', _) => (TokenKind::Colon, 1),
                ('=', '=') => (TokenKind::Eq2, 2),
                ('=', '>') => (TokenKind::Arrow, 2),
                ('=', _) => (TokenKind::Eq, 1),
                ('!', '=') => (TokenKind::NotEq, 2),
                ('!', _) => (TokenKind::Not, 1),
                ('+', '=') => (TokenKind::PlusEq, 2),
                ('+', _) => (TokenKind::Plus, 1),
                ('-', '=') => (TokenKind::MinusEq, 2),
                ('-', _) => (TokenKind::Minus, 1),
                ('&', '&') => (TokenKind::And2, 2),
                ('|', '|') => (TokenKind::Or2, 2),
                ('[', _) => (TokenKind::OpenBracket, 1),
                (']', _) => (TokenKind::CloseBracket, 1),
                ('{', _) => (TokenKind::OpenBrace, 1),
                ('}', _) => (TokenKind::CloseBrace, 1),
                ('(', _) => (TokenKind::OpenParen, 1),
                (')', _) => (TokenKind::CloseParen, 1),
                (',', _) => (TokenKind::Comma, 1),
                ('.', _) => (TokenKind::Dot, 1),
                (';', _) => (TokenKind::SemiColon, 1),
                ('<', _) => (TokenKind::Lt, 1),
                ('>', _) => (TokenKind::Gt, 1),
                ('*', _) => (TokenKind::Asterisk, 1),
                ('/', _) => (TokenKind::Slash, 1),
                _ => panic!("unexpected character {:?}", c),
            };
            i += len;
            kind
        };
        column += i - start;
        out.push_back(token(kind, l, col, spacing));
        spacing = false;
    }
    out
}

fn parse(source: &str) -> Vec<aiscript_engine::ast::nodes::Node> {
    let mut parser = Parser::new();
    let mut stream = TokenStream::new(scan(source));
    parser.parse(&mut stream).unwrap()
}

fn to_ir(source: &str) -> Ir {
    translate(&parse(source))
}

fn n(value: f64) -> u64 {
    value.to_bits()
}

fn data(items: &[&str]) -> Vec<DataItem> {
    items.iter().map(|s| DataItem::Str(Utf16String::from(*s))).collect()
}

fn program(data: Vec<DataItem>, register_length: usize, instructions: Vec<Instruction>) -> Ir {
    Ir {
        data,
        native_functions: Vec::new(),
        user_functions: vec![UserFn { register_length, instructions }],
        entry_point: 0,
    }
}

/// Runs the machine to its end, doing the host's part: the arithmetic on numbers, the
/// conversion of numbers to indices, and the native functions.
fn run(vm: &mut Vm, printed: &mut Vec<Value>) -> Result<(), AiScriptBasicError> {
    loop {
        if vm.step_would_panic() {
            panic!("not implemented");
        }
        match vm.exec()? {
            VmState::Exit => return Ok(()),
            VmState::Continue => {}
            VmState::AwaitArith { op, left, right } => {
                let (l, r) = (f64::from_bits(left), f64::from_bits(right));
                let value = match op {
                    ArithOp::Add => l + r,
                    ArithOp::Sub => l - r,
                };
                vm.resume_number(value.to_bits());
            }
            VmState::AwaitIndex { number } => {
                let index = f64::from_bits(number);
                let as_usize = index as usize;
                let found = if index == as_usize as f64 { Some(as_usize) } else { None };
                vm.resume_index(found, &format!("{}", index))?;
            }
            VmState::AwaitCall { function, args, capture: _ } => {
                let result = if function == CORE_NOT {
                    core_not(&args)?
                } else if function == PRINT {
                    printed.push(args.into_iter().next().unwrap());
                    Value::Null
                } else {
                    panic!("unknown native function");
                };
                vm.resume_call(result);
            }
        }
    }
}

fn run_ir(ir: &Ir) -> Vm<'_> {
    let mut vm = Vm::new(ir);
    run(&mut vm, &mut Vec::new()).unwrap();
    vm
}

fn num(value: &Value) -> f64 {
    match value {
        Value::Num(bits) => f64::from_bits(*bits),
        other => panic!("not a number: {:?}", other),
    }
}

fn array<'a>(vm: &'a Vm, value: &Value) -> &'a Vec<Value> {
    match value {
        Value::Arr(h) => match vm.cell(*h) {
            HeapCell::Arr(values) => values,
            _ => panic!(),
        },
        _ => panic!(),
    }
}

fn property<'a>(vm: &'a Vm, value: &Value, key: &str) -> Option<&'a Value> {
    let key: Vec<u16> = key.encode_utf16().collect();
    match value {
        Value::Obj(h) => match vm.cell(*h) {
            HeapCell::Obj(obj) => obj.0.get(&key),
            _ => panic!(),
        },
        _ => panic!(),
    }
}

fn exe(source: &str) -> Result<Value, AiScriptBasicError> {
    let ast = parse(source);
    let version = Utf16String::from("0.1.0+0.19.0");
    let ir = compile_program(&ast, version.as_utf16_str());
    let mut vm = Vm::new(&ir);
    let mut printed = Vec::new();
    run(&mut vm, &mut printed)?;
    Ok(printed.into_iter().last().unwrap_or(Value::Uninitialized))
}

// ---------------------------------------------------------------------------
// The translator and the machine on the same programs.
// ---------------------------------------------------------------------------

#[test]
fn arr_arr_literal() {
    let ir = to_ir("[1, 2, 3]");
    assert_eq!(
        ir,
        program(
            Vec::new(),
            2,
            vec![
                Instruction::Arr(0, 3),
                Instruction::Num(1, n(1.0)),
                Instruction::StoreIndex(1, 0, 0),
                Instruction::Num(1, n(2.0)),
                Instruction::StoreIndex(1, 0, 1),
                Instruction::Num(1, n(3.0)),
                Instruction::StoreIndex(1, 0, 2),
            ]
        )
    );
}

#[test]
fn arr_literal() {
    let ir = program(
        Vec::new(),
        4,
        vec![
            Instruction::Num(1, n(42.0)),
            Instruction::Bool(2, true),
            Instruction::Null(3),
            Instruction::Arr(0, 3),
            Instruction::StoreIndex(1, 0, 0),
            Instruction::StoreIndex(2, 0, 1),
            Instruction::StoreIndex(3, 0, 2),
        ],
    );
    let vm = run_ir(&ir);
    let arr = array(&vm, &vm.registers()[0]);
    assert_eq!(num(&arr[0]), 42.0);
    assert!(matches!(arr[1], Value::Bool(true)));
    assert!(matches!(arr[2], Value::Null));
}

#[test]
fn arr_index() {
    let ir = to_ir("[1][0]");
    assert_eq!(
        ir,
        program(
            Vec::new(),
            4,
            vec![
                Instruction::Arr(1, 1),
                Instruction::Num(2, n(1.0)),
                Instruction::StoreIndex(2, 1, 0),
                Instruction::Num(3, n(0.0)),
                Instruction::Load(0, 1, 3),
            ]
        )
    );
}

#[test]
fn assign_assign() {
    let ir = to_ir("\n        var a = 0\n        a = 1\n    ");
    assert_eq!(
        ir,
        program(
            Vec::new(),
            3,
            vec![
                Instruction::Num(1, n(0.0)),
                Instruction::Null(0),
                Instruction::Num(2, n(1.0)),
                Instruction::Move(1, 2),
                Instruction::Null(0),
            ]
        )
    );
}

#[test]
fn assign() {
    let ir = program(Vec::new(), 2, vec![Instruction::Num(0, n(42.0)), Instruction::Move(1, 0)]);
    let vm = run_ir(&ir);
    assert_eq!(num(&vm.registers()[0]), 42.0);
    assert_eq!(num(&vm.registers()[1]), 42.0);
}

#[test]
fn assign_index() {
    let ir = to_ir("let a = [1]; a[0] = 2");
    assert_eq!(
        ir,
        program(
            Vec::new(),
            6,
            vec![
                Instruction::Arr(1, 1),
                Instruction::Num(2, n(1.0)),
                Instruction::StoreIndex(2, 1, 0),
                Instruction::Null(0),
                Instruction::Num(3, n(2.0)),
                Instruction::Move(4, 1),
                Instruction::Num(5, n(0.0)),
                Instruction::Store(3, 4, 5),
                Instruction::Null(0),
            ]
        )
    );
}

#[test]
fn assign_prop() {
    let ir = to_ir("let o = {}; o.a = 1");
    assert_eq!(
        ir,
        program(
            data(&["a"]),
            4,
            vec![
                Instruction::Obj(1, 0),
                Instruction::Null(0),
                Instruction::Num(2, n(1.0)),
                Instruction::Move(3, 1),
                Instruction::StoreProp(2, 3, 0),
                Instruction::Null(0),
            ]
        )
    );
}

#[test]
fn assign_arr() {
    let ir = to_ir("var a = null; var b = null; [a, b] = [1, 2]");
    assert_eq!(
        ir,
        program(
            Vec::new(),
            6,
            vec![
                Instruction::Null(1),
                Instruction::Null(0),
                Instruction::Null(2),
                Instruction::Null(0),
                Instruction::Arr(3, 2),
                Instruction::Num(4, n(1.0)),
                Instruction::StoreIndex(4, 3, 0),
                Instruction::Num(4, n(2.0)),
                Instruction::StoreIndex(4, 3, 1),
                Instruction::LoadIndex(5, 3, 0),
                Instruction::Move(1, 5),
                Instruction::LoadIndex(5, 3, 1),
                Instruction::Move(2, 5),
                Instruction::Null(0),
            ]
        )
    );
}

#[test]
fn assign_obj() {
    let ir = to_ir("var a = null; var b = null; { a: a, b: b } = { a: 1, b: 2 }");
    assert_eq!(
        ir,
        program(
            data(&["a", "b"]),
            6,
            vec![
                Instruction::Null(1),
                Instruction::Null(0),
                Instruction::Null(2),
                Instruction::Null(0),
                Instruction::Obj(3, 2),
                Instruction::Num(4, n(1.0)),
                Instruction::StoreProp(4, 3, 0),
                Instruction::Num(4, n(2.0)),
                Instruction::StoreProp(4, 3, 1),
                Instruction::LoadProp(5, 3, 0),
                Instruction::Move(1, 5),
                Instruction::LoadProp(5, 3, 1),
                Instruction::Move(2, 5),
                Instruction::Null(0),
            ]
        )
    );
}

#[test]
fn block() {
    let ir = to_ir("eval { let a = 1; a }");
    assert_eq!(
        ir,
        program(
            Vec::new(),
            2,
            vec![Instruction::Num(1, n(1.0)), Instruction::Null(0), Instruction::Move(0, 1)]
        )
    );
}

#[test]
fn constants_const_null() {
    let ir = to_ir("let a = null");
    assert_eq!(ir, program(Vec::new(), 2, vec![Instruction::Null(1), Instruction::Null(0)]));
}

#[test]
fn const_null() {
    let ir = program(Vec::new(), 1, vec![Instruction::Null(0)]);
    let vm = run_ir(&ir);
    assert!(matches!(vm.registers()[0], Value::Null));
}

#[test]
fn constants_const_num() {
    let ir = to_ir("let a = 42");
    assert_eq!(ir, program(Vec::new(), 2, vec![Instruction::Num(1, n(42.0)), Instruction::Null(0)]));
}

#[test]
fn const_num() {
    let ir = program(Vec::new(), 1, vec![Instruction::Num(0, n(42.0))]);
    let vm = run_ir(&ir);
    assert_eq!(num(&vm.registers()[0]), 42.0);
}

#[test]
fn constants_const_bool() {
    let ir = to_ir("let a = true");
    assert_eq!(ir, program(Vec::new(), 2, vec![Instruction::Bool(1, true), Instruction::Null(0)]));
}

#[test]
fn const_bool() {
    let ir = program(Vec::new(), 1, vec![Instruction::Bool(0, true)]);
    let vm = run_ir(&ir);
    assert!(matches!(vm.registers()[0], Value::Bool(true)));
}

#[test]
fn constants_const_str() {
    let ir = to_ir("let a = 'Hello'");
    assert_eq!(ir, program(data(&["Hello"]), 2, vec![Instruction::Data(1, 0), Instruction::Null(0)]));
}

#[test]
fn const_str() {
    let ir = program(data(&["Hello"]), 1, vec![Instruction::Data(0, 0)]);
    let vm = run_ir(&ir);
    match &vm.registers()[0] {
        Value::Str(h) => match vm.cell(*h) {
            HeapCell::Str(s) => assert_eq!(s, &Utf16String::from("Hello")),
            _ => panic!(),
        },
        _ => panic!(),
    }
}

#[test]
fn if_only() {
    let ir = to_ir("if false 1");
    assert_eq!(
        ir,
        program(
            Vec::new(),
            1,
            vec![
                Instruction::Bool(0, false),
                Instruction::If(0, vec![Instruction::Num(0, n(1.0))], vec![Instruction::Null(0)]),
            ]
        )
    );
}

#[test]
fn if_else() {
    let ir = to_ir("if true 1 else 2");
    assert_eq!(
        ir,
        program(
            Vec::new(),
            1,
            vec![
                Instruction::Bool(0, true),
                Instruction::If(0, vec![Instruction::Num(0, n(1.0))], vec![Instruction::Num(0, n(2.0))]),
            ]
        )
    );
}

#[test]
fn if_elif_else() {
    let ir = to_ir("if false 1 elif true 2 else 3");
    assert_eq!(
        ir,
        program(
            Vec::new(),
            1,
            vec![
                Instruction::Bool(0, false),
                Instruction::If(
                    0,
                    vec![Instruction::Num(0, n(1.0))],
                    vec![
                        Instruction::Bool(0, true),
                        Instruction::If(0, vec![Instruction::Num(0, n(2.0))], vec![Instruction::Num(0, n(3.0))]),
                    ],
                ),
            ]
        )
    );
}

#[test]
fn define_arr() {
    let ir = to_ir("let [a, b] = [1, 2]");
    assert_eq!(
        ir,
        program(
            Vec::new(),
            5,
            vec![
                Instruction::Arr(1, 2),
                Instruction::Num(2, n(1.0)),
                Instruction::StoreIndex(2, 1, 0),
                Instruction::Num(2, n(2.0)),
                Instruction::StoreIndex(2, 1, 1),
                Instruction::LoadIndex(3, 1, 0),
                Instruction::LoadIndex(4, 1, 1),
                Instruction::Null(0),
            ]
        )
    );
}

#[test]
fn define_obj() {
    let ir = to_ir("let { a: a, b: b } = { a: 1, b: 2 }");
    assert_eq!(
        ir,
        program(
            data(&["a", "b"]),
            5,
            vec![
                Instruction::Obj(1, 2),
                Instruction::Num(2, n(1.0)),
                Instruction::StoreProp(2, 1, 0),
                Instruction::Num(2, n(2.0)),
                Instruction::StoreProp(2, 1, 1),
                Instruction::LoadProp(3, 1, 0),
                Instruction::LoadProp(4, 1, 1),
                Instruction::Null(0),
            ]
        )
    );
}

#[test]
fn exists_false() {
    let ir = to_ir("exists a");
    assert_eq!(ir, program(Vec::new(), 1, vec![Instruction::Bool(0, false)]));
}

#[test]
fn exists_true() {
    let ir = to_ir("\n        let a = 42\n        exists a\n    ");
    assert_eq!(
        ir,
        program(
            Vec::new(),
            2,
            vec![Instruction::Num(1, n(42.0)), Instruction::Null(0), Instruction::Bool(0, true)]
        )
    );
}

#[test]
fn expressions_not() {
    let ir = to_ir("!true");
    assert_eq!(ir, program(Vec::new(), 2, vec![Instruction::Bool(1, true), Instruction::Not(0, 1)]));
}

#[test]
fn not() {
    let ir = program(Vec::new(), 2, vec![Instruction::Bool(1, true), Instruction::Not(0, 1)]);
    let vm = run_ir(&ir);
    assert!(matches!(vm.registers()[0], Value::Bool(false)));
}

#[test]
fn namespace() {
    let ir = to_ir("\n            :: Ns {\n                let a = 0\n            }\n        ");
    assert_eq!(ir, program(Vec::new(), 2, vec![Instruction::Num(0, n(0.0)), Instruction::Null(1)]));
}

#[test]
fn obj_obj_literal() {
    let ir = to_ir("{ a: 1, b: 2, c: 3 }");
    assert_eq!(
        ir,
        program(
            data(&["a", "b", "c"]),
            2,
            vec![
                Instruction::Obj(0, 3),
                Instruction::Num(1, n(1.0)),
                Instruction::StoreProp(1, 0, 0),
                Instruction::Num(1, n(2.0)),
                Instruction::StoreProp(1, 0, 1),
                Instruction::Num(1, n(3.0)),
                Instruction::StoreProp(1, 0, 2),
            ]
        )
    );
}

#[test]
fn obj_literal() {
    let ir = program(
        data(&["a", "b", "c"]),
        4,
        vec![
            Instruction::Num(1, n(42.0)),
            Instruction::Bool(2, true),
            Instruction::Null(3),
            Instruction::Obj(0, 3),
            Instruction::StoreProp(1, 0, 0),
            Instruction::StoreProp(2, 0, 1),
            Instruction::StoreProp(3, 0, 2),
        ],
    );
    let vm = run_ir(&ir);
    let obj = &vm.registers()[0];
    assert_eq!(num(property(&vm, obj, "a").unwrap()), 42.0);
    assert!(matches!(property(&vm, obj, "b"), Some(Value::Bool(true))));
    assert!(matches!(property(&vm, obj, "c"), Some(Value::Null)));
}

#[test]
fn prop() {
    let ir = to_ir("{ a: 1 }.a");
    assert_eq!(
        ir,
        program(
            data(&["a"]),
            3,
            vec![
                Instruction::Obj(1, 1),
                Instruction::Num(2, n(1.0)),
                Instruction::StoreProp(2, 1, 0),
                Instruction::LoadProp(0, 1, 0),
            ]
        )
    );
}

#[test]
fn obj_index() {
    let ir = to_ir("{ a: 1 }[\"a\"]");
    assert_eq!(
        ir,
        program(
            data(&["a"]),
            4,
            vec![
                Instruction::Obj(1, 1),
                Instruction::Num(2, n(1.0)),
                Instruction::StoreProp(2, 1, 0),
                Instruction::Data(3, 0),
                Instruction::Load(0, 1, 3),
            ]
        )
    );
}

#[test]
fn store_and_load_index() {
    let ir = program(
        Vec::new(),
        2,
        vec![
            Instruction::Arr(0, 1),
            Instruction::Num(1, n(42.0)),
            Instruction::StoreIndex(1, 0, 0),
            Instruction::LoadIndex(0, 0, 0),
        ],
    );
    let vm = run_ir(&ir);
    assert_eq!(num(&vm.registers()[0]), 42.0);
}

#[test]
fn store_and_load() {
    let ir = program(
        Vec::new(),
        3,
        vec![
            Instruction::Arr(0, 1),
            Instruction::Num(1, n(42.0)),
            Instruction::Num(2, n(0.0)),
            Instruction::Store(1, 0, 2),
            Instruction::Load(0, 0, 2),
        ],
    );
    let vm = run_ir(&ir);
    assert_eq!(num(&vm.registers()[0]), 42.0);
}

#[test]
fn assign_add_assign() {
    let ir = program(
        Vec::new(),
        2,
        vec![Instruction::Num(0, n(1.0)), Instruction::Num(1, n(2.0)), Instruction::Add(1, 1, 0)],
    );
    let vm = run_ir(&ir);
    assert_eq!(num(&vm.registers()[0]), 1.0);
    assert_eq!(num(&vm.registers()[1]), 3.0);
}

#[test]
fn sub_assign() {
    let ir = program(
        Vec::new(),
        2,
        vec![Instruction::Num(0, n(1.0)), Instruction::Num(1, n(3.0)), Instruction::Sub(1, 1, 0)],
    );
    let vm = run_ir(&ir);
    assert_eq!(num(&vm.registers()[0]), 1.0);
    assert_eq!(num(&vm.registers()[1]), 2.0);
}

#[test]
fn test_if_true() {
    let ir = program(
        Vec::new(),
        2,
        vec![
            Instruction::Bool(1, true),
            Instruction::If(1, vec![Instruction::Num(0, n(1.0))], vec![Instruction::Num(0, n(2.0))]),
        ],
    );
    let vm = run_ir(&ir);
    assert_eq!(num(&vm.registers()[0]), 1.0);
}

#[test]
fn test_if_false() {
    let ir = program(
        Vec::new(),
        2,
        vec![
            Instruction::Bool(1, false),
            Instruction::If(1, vec![Instruction::Num(0, n(1.0))], vec![Instruction::Num(0, n(2.0))]),
        ],
    );
    let vm = run_ir(&ir);
    assert_eq!(num(&vm.registers()[0]), 2.0);
}

#[test]
fn empty() {
    let ir = Ir::default();
    let mut vm = Vm::new(&ir);
    assert!(run(&mut vm, &mut Vec::new()).is_ok());
}

#[test]
fn empty_empty() {
    assert!(matches!(exe("").unwrap(), Value::Uninitialized));
}

#[test]
fn nop() {
    let ir = program(Vec::new(), 1, vec![Instruction::Nop]);
    let mut vm = Vm::new(&ir);
    assert!(matches!(vm.step().unwrap(), VmState::Continue));
    assert!(matches!(vm.step().unwrap(), VmState::Exit));
}

#[test]
fn store_and_load_prop() {
    let ir = program(
        data(&["a"]),
        2,
        vec![
            Instruction::Obj(0, 1),
            Instruction::Num(1, n(42.0)),
            Instruction::StoreProp(1, 0, 0),
            Instruction::LoadProp(0, 0, 0),
        ],
    );
    let vm = run_ir(&ir);
    assert_eq!(num(&vm.registers()[0]), 42.0);
}

#[test]
fn panics() {
    let ir = program(
        Vec::new(),
        1,
        vec![Instruction::Panic(AiScriptBasicError::new(
            AiScriptBasicErrorKind::Runtime,
            "abort".to_owned(),
            None,
        ))],
    );
    let mut vm = Vm::new(&ir);
    assert!(vm.step().is_err());
}

#[test]
fn core_ai() {
    assert!(exe("Core:ai").is_ok());
}

#[test]
fn read_after_definition() {
    let ir = to_ir("let x = 1\nx");
    assert_eq!(
        ir.user_functions[0].instructions,
        vec![Instruction::Num(1, n(1.0)), Instruction::Null(0), Instruction::Move(0, 1)]
    );
    assert_eq!(ir.user_functions[0].register_length, 2);
}

// ---------------------------------------------------------------------------
// The shapes that the grammar gives to sources.
// ---------------------------------------------------------------------------

fn try_parse(source: &str) -> Result<Vec<Node>, AiScriptBasicError> {
    let mut parser = Parser::new();
    let mut stream = TokenStream::new(scan(source));
    parser.parse(&mut stream)
}

fn number_of(e: &Expression) -> f64 {
    match e {
        Expression::Num(n) => f64::from_bits(n.value),
        _ => panic!("not a number literal"),
    }
}

fn binary(e: &Expression, op: BinaryArithmeticOperator) -> (&Expression, &Expression) {
    match e {
        Expression::Binary(b) => {
            assert!(matches!(b.op, BinaryOperator::Arithmetic(o) if o == op));
            (&*b.left, &*b.right)
        }
        _ => panic!("not a binary expression"),
    }
}

#[test]
fn multiplication_binds_tighter_than_addition() {
    let nodes = parse("1 + 2 * 3");
    assert_eq!(nodes.len(), 1);
    let Node::Expr(e) = &nodes[0] else { panic!("not an expression") };
    let (left, right) = binary(e, BinaryArithmeticOperator::Add);
    assert_eq!(number_of(left), 1.0);
    let (l2, r2) = binary(right, BinaryArithmeticOperator::Mul);
    assert_eq!(number_of(l2), 2.0);
    assert_eq!(number_of(r2), 3.0);
}

#[test]
fn subtraction_associates_to_the_left() {
    let nodes = parse("1 - 2 - 3");
    let Node::Expr(e) = &nodes[0] else { panic!("not an expression") };
    let (left, right) = binary(e, BinaryArithmeticOperator::Sub);
    assert_eq!(number_of(right), 3.0);
    let (l2, r2) = binary(left, BinaryArithmeticOperator::Sub);
    assert_eq!(number_of(l2), 1.0);
    assert_eq!(number_of(r2), 2.0);
}

#[test]
fn do_while_is_a_loop_ending_in_its_exit_test() {
    let nodes = parse("do { 1 } while false");
    let Node::Statement(Statement::Loop(l)) = &nodes[0] else { panic!("not a loop") };
    assert_eq!(l.statements.len(), 2);
    assert!(matches!(&l.statements[0], StatementOrExpression::Expression(Expression::Block(_))));
    let StatementOrExpression::Expression(Expression::If(test)) = &l.statements[1] else {
        panic!("not an exit test")
    };
    assert!(matches!(&*test.cond, Expression::Not(n) if matches!(&*n.expr, Expression::Bool(b) if !b.value)));
    assert!(matches!(&*test.then_statement, StatementOrExpression::Statement(Statement::Break(_))));
    assert!(test.elseif.is_empty());
    assert!(test.else_statement.is_none());
}

#[test]
fn while_loop_tests_before_its_body() {
    let nodes = parse("while true { 1 }");
    let Node::Statement(Statement::Loop(l)) = &nodes[0] else { panic!("not a loop") };
    assert_eq!(l.statements.len(), 2);
    assert!(matches!(&l.statements[0], StatementOrExpression::Expression(Expression::If(_))));
}

#[test]
fn namespace_members_may_follow_a_semicolon() {
    let nodes = parse(":: Ns { ; let x = 1; var y = 2 }");
    let Node::Ns(ns) = &nodes[0] else { panic!("not a namespace") };
    assert_eq!(ns.name, Utf16String::from("Ns"));
    assert_eq!(ns.members.len(), 2);
    assert!(matches!(&ns.members[0], NamespaceMember::Def(d) if !d.is_mut));
    assert!(matches!(&ns.members[1], NamespaceMember::Def(d) if d.is_mut));
}

#[test]
fn two_statements_on_one_line_are_refused() {
    let err = try_parse("1 2").unwrap_err();
    assert_eq!(err.kind, AiScriptBasicErrorKind::Syntax);
    assert_eq!(err.message, "Multiple statements cannot be placed on a single line.");
}

#[test]
fn items_of_an_array_may_be_separated_by_new_lines() {
    let nodes = parse("[1\n2, 3]");
    let Node::Expr(Expression::Arr(a)) = &nodes[0] else { panic!("not an array") };
    let values: Vec<f64> = a.value.iter().map(number_of).collect();
    assert_eq!(values, vec![1.0, 2.0, 3.0]);
}

#[test]
fn for_range_without_comma_is_refused() {
    let err = try_parse("for let i = 1 2 { 3 }").unwrap_err();
    assert_eq!(err.kind, AiScriptBasicErrorKind::Syntax);
    assert_eq!(err.message, "separator expected");
    assert_eq!(err.pos, Some(Position { line: 1, column: 15 }));
}

#[test]
fn for_range_start_defaults_to_zero_at_the_name() {
    let nodes = parse("for let i, 3 { 1 }");
    let Node::Statement(Statement::For(f)) = &nodes[0] else { panic!("not a for") };
    match &f.iter {
        aiscript_engine::ast::nodes::ForIterator::Range { from, .. } => match from {
            Expression::Num(n) => {
                assert_eq!(n.value, 0);
                assert_eq!(n.loc.start, Position { line: 1, column: 9 });
                assert_eq!(n.loc.end, Position { line: 1, column: 9 });
            }
            _ => panic!("not a number"),
        },
        _ => panic!("not a range"),
    }
}

#[test]
fn break_ends_at_the_next_token() {
    let nodes = parse("loop { break }");
    let Node::Statement(Statement::Loop(l)) = &nodes[0] else { panic!("not a loop") };
    let StatementOrExpression::Statement(Statement::Break(b)) = &l.statements[0] else {
        panic!("not a break")
    };
    assert_eq!(b.loc.start, Position { line: 1, column: 8 });
    assert_eq!(b.loc.end, Position { line: 1, column: 14 });
}

#[test]
fn namespace_member_of_the_wrong_kind_is_refused() {
    let err = try_parse(":: Ns { 1 }").unwrap_err();
    assert_eq!(err.kind, AiScriptBasicErrorKind::Syntax);
    assert_eq!(err.message, "Multiple statements cannot be placed on a single line.");
}
