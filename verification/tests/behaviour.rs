use std::collections::VecDeque;

use aiscript_engine::ast::nodes::{Expression, Node, Statement};
use aiscript_engine::common::error::{AiScriptBasicError, AiScriptBasicErrorKind};
use aiscript_engine::common::position::Position;
use aiscript_engine::common::string::{Utf16Str, Utf16String};
use aiscript_engine::ir::ir::{DataItem, Instruction, Ir, UserFn};
use aiscript_engine::ir::path::Path;
use aiscript_engine::ir::support::supported;
use aiscript_engine::ir::translate::{translate, LibraryValue, Translator};
use aiscript_engine::lexer::token::{Token, TokenKind};
use aiscript_engine::lexer::token_stream::TokenStream;
use aiscript_engine::library::standard::{compile_program, core_not, print_library, std_library, version, CORE_NOT, PRINT};
use aiscript_engine::parser::parser::Parser;
use aiscript_engine::types::types::TSimple;
use aiscript_engine::vm::utils::{require_any, require_array, require_boolean, require_function, require_number, require_object};
use aiscript_engine::vm::values::{HeapCell, Value};
use aiscript_engine::vm::vm::{ArithOp, Vm, VmState};

fn utf16(s: &str) -> Utf16Str {
    let units: Vec<u16> = s.encode_utf16().collect();
    Utf16Str::new(&units)
}

fn tok(kind: TokenKind, spacing: bool) -> Token {
    Token { kind, pos: Position { line: 1, column: 1 }, has_left_spacing: spacing }
}

fn ident(s: &str) -> TokenKind {
    TokenKind::Identifier(Utf16String::from(s))
}

fn number(v: f64) -> TokenKind {
    TokenKind::NumberLiteral(Utf16String::from(format!("{}", v).as_str()), v.to_bits())
}

fn parse_tokens(kinds: Vec<(TokenKind, bool)>) -> Result<Vec<Node>, AiScriptBasicError> {
    let tokens: VecDeque<Token> = kinds.into_iter().map(|(k, s)| tok(k, s)).collect();
    let mut stream = TokenStream::new(tokens);
    Parser::new().parse(&mut stream)
}

fn program(data: Vec<DataItem>, register_length: usize, instructions: Vec<Instruction>) -> Ir {
    Ir { data, native_functions: Vec::new(), user_functions: vec![UserFn { register_length, instructions }], entry_point: 0 }
}

fn run(vm: &mut Vm) -> Result<(), AiScriptBasicError> {
    loop {
        assert!(!vm.step_would_panic());
        match vm.step()? {
            VmState::Exit => return Ok(()),
            VmState::Continue => {}
            VmState::AwaitArith { op, left, right } => {
                let (l, r) = (f64::from_bits(left), f64::from_bits(right));
                let v = match op {
                    ArithOp::Add => l + r,
                    ArithOp::Sub => l - r,
                };
                vm.resume_number(v.to_bits());
            }
            VmState::AwaitIndex { number } => {
                let f = f64::from_bits(number);
                let found = if f.is_nan() { None } else { Some(f as usize) };
                vm.resume_index(found, &format!("{}", f))?;
            }
            VmState::AwaitCall { function, args, .. } => {
                assert_eq!(function, CORE_NOT);
                let result = core_not(&args)?;
                vm.resume_call(result);
            }
        }
    }
}

fn num(v: &Value) -> f64 {
    match v {
        Value::Num(b) => f64::from_bits(*b),
        _ => panic!("not a number"),
    }
}

fn n(v: f64) -> u64 {
    v.to_bits()
}

fn runtime_error(ir: &Ir) -> AiScriptBasicError {
    let mut vm = Vm::new(ir);
    let err = run(&mut vm).unwrap_err();
    assert_eq!(err.kind, AiScriptBasicErrorKind::Runtime);
    assert!(err.pos.is_none());
    err
}

#[test]
fn simple_type_names_round_trip() {
    for t in [TSimple::Null, TSimple::Bool, TSimple::Num, TSimple::Str, TSimple::Any, TSimple::Void] {
        assert_eq!(TSimple::for_name(&t.name()), Some(t));
    }
    assert_eq!(TSimple::for_name(&utf16("int")), None);
    assert_eq!(TSimple::Num.name(), utf16("num"));
}

#[test]
fn keywords_and_identifiers() {
    assert!(matches!(TokenKind::for_word(&utf16("if")), TokenKind::IfKeyword));
    assert!(matches!(TokenKind::for_word(&utf16("exists")), TokenKind::ExistsKeyword));
    match TokenKind::for_word(&utf16("iff")) {
        TokenKind::Identifier(name) => assert_eq!(name, Utf16String::from("iff")),
        _ => panic!(),
    }
}

#[test]
fn unexpected_token_is_a_syntax_error() {
    let err = parse_tokens(vec![(TokenKind::CloseParen, false)]).unwrap_err();
    assert_eq!(err.kind, AiScriptBasicErrorKind::Syntax);
    assert_eq!(err.message, "unexpected token: CloseParen");
}

#[test]
fn version_is_text_after_plus() {
    assert_eq!(version(&utf16("1.2.3+0.19.0")), Utf16String::from("0.19.0"));
    assert_eq!(version(&utf16("a+b+c")), Utf16String::from("b+c"));
    assert_eq!(version(&utf16("x+")), Utf16String::new());
}

#[test]
fn standard_library_entries() {
    let lib = std_library(&utf16("0.1.0+0.19.0"));
    assert_eq!(lib.len(), 3);
    assert_eq!(lib[0].0, Utf16String::from("Core:v"));
    assert!(matches!(&lib[0].1, LibraryValue::Str(s) if *s == Utf16String::from("0.19.0")));
    assert_eq!(lib[1].0, Utf16String::from("Core:ai"));
    assert!(matches!(&lib[1].1, LibraryValue::Str(s) if *s == Utf16String::from("kawaii")));
    assert_eq!(lib[2].0, Utf16String::from("Core:not"));
    assert!(matches!(lib[2].1, LibraryValue::Fn(CORE_NOT)));
    let print = print_library();
    assert_eq!(print[0].0, Utf16String::from("print"));
    assert!(matches!(print[0].1, LibraryValue::Fn(PRINT)));
}

#[test]
fn compiled_program_links_library_first() {
    let ast = parse_tokens(vec![(ident("Core:ai"), false)]).unwrap();
    assert!(supported(&ast));
    let ir = compile_program(&ast, &utf16("0.1.0+0.19.0"));
    assert_eq!(ir.native_functions, vec![CORE_NOT, PRINT]);
    assert_eq!(ir.data, vec![DataItem::Str(Utf16String::from("0.19.0")), DataItem::Str(Utf16String::from("kawaii"))]);
    let code = &ir.user_functions[0].instructions;
    assert_eq!(code[0], Instruction::Data(0, 0));
    assert_eq!(code[1], Instruction::Data(1, 1));
    assert_eq!(code[2], Instruction::NativeFn(2, 0));
    assert_eq!(code[3], Instruction::NativeFn(3, 1));
    assert_eq!(code[4], Instruction::Move(4, 1));
    assert_eq!(ir.user_functions[0].register_length, 5);
}

#[test]
fn core_not_negates_booleans() {
    assert!(matches!(core_not(&vec![Value::Bool(true)]), Ok(Value::Bool(false))));
    assert!(matches!(core_not(&vec![Value::Bool(false), Value::Null]), Ok(Value::Bool(true))));
    let err = core_not(&vec![Value::Num(n(1.0))]).unwrap_err();
    assert_eq!(err.message, "Expect bool, but got num.");
}

#[test]
fn require_functions() {
    assert!(matches!(require_any(&Value::Null), Ok(Value::Null)));
    assert_eq!(require_any(&Value::Uninitialized).unwrap_err().message, "Expect any, but got nothing.");
    assert_eq!(require_number(&Value::Num(7)).unwrap(), 7);
    assert_eq!(require_number(&Value::Null).unwrap_err().message, "Expect number, but got null.");
    assert_eq!(require_boolean(&Value::Bool(true)).unwrap(), true);
    assert_eq!(require_boolean(&Value::Str(0)).unwrap_err().message, "Expect bool, but got str.");
    assert_eq!(require_function(&Value::Fn(3)).unwrap(), 3);
    assert_eq!(require_function(&Value::Arr(0)).unwrap_err().message, "Expect function, but got arr.");
    assert_eq!(require_object(&Value::Obj(2)).unwrap(), 2);
    assert_eq!(require_object(&Value::Bool(false)).unwrap_err().message, "Expect object, but got bool.");
    assert_eq!(require_array(&Value::Arr(1)).unwrap(), 1);
    assert_eq!(require_array(&Value::Obj(1)).unwrap_err().message, "Expect array, but got obj.");
}

#[test]
fn if_on_a_number_is_a_type_error() {
    let ir = program(Vec::new(), 1, vec![Instruction::Num(0, n(1.0)), Instruction::If(0, vec![], vec![])]);
    assert_eq!(runtime_error(&ir).message, "Expect bool, but got num.");
}

#[test]
fn adding_a_string_is_a_type_error() {
    let ir = program(
        vec![DataItem::Str(Utf16String::from("s"))],
        3,
        vec![Instruction::Num(0, n(1.0)), Instruction::Data(1, 0), Instruction::Add(2, 0, 1)],
    );
    assert_eq!(runtime_error(&ir).message, "Expect number, but got str.");
}

#[test]
fn index_out_of_range() {
    let ir = program(Vec::new(), 2, vec![Instruction::Arr(0, 1), Instruction::LoadIndex(1, 0, 5)]);
    assert_eq!(runtime_error(&ir).message, "Index out of range. index: 5 max: 0");
    let ir = program(
        Vec::new(),
        3,
        vec![Instruction::Arr(0, 2), Instruction::Num(1, n(2.5)), Instruction::Load(2, 0, 1)],
    );
    assert_eq!(runtime_error(&ir).message, "Index out of range. index: 2.5 max: 1");
    let ir = program(
        Vec::new(),
        3,
        vec![Instruction::Arr(0, 2), Instruction::Num(1, n(2.0)), Instruction::Store(1, 0, 1)],
    );
    assert_eq!(runtime_error(&ir).message, "Index out of range. index: 2 max: 1");
}

#[test]
fn wrong_targets_are_type_errors() {
    let ir = program(Vec::new(), 2, vec![Instruction::Arr(0, 0), Instruction::LoadProp(1, 0, 0)]);
    let ir = Ir { data: vec![DataItem::Str(Utf16String::from("a"))], ..ir };
    assert_eq!(runtime_error(&ir).message, "Expect object, but got arr.");
    let ir = program(Vec::new(), 2, vec![Instruction::Null(0), Instruction::Null(1), Instruction::StoreIndex(1, 0, 0)]);
    assert_eq!(runtime_error(&ir).message, "Expect array, but got null.");
    let ir = program(Vec::new(), 3, vec![Instruction::Null(0), Instruction::Null(1), Instruction::Call(2, 0, 1)]);
    assert_eq!(runtime_error(&ir).message, "Expect function, but got null.");
    let ir = Ir {
        native_functions: vec![CORE_NOT],
        ..program(Vec::new(), 3, vec![Instruction::NativeFn(0, 0), Instruction::Null(1), Instruction::Call(2, 0, 1)])
    };
    assert_eq!(runtime_error(&ir).message, "Expect array, but got null.");
}

#[test]
fn native_call_goes_to_the_host() {
    let ir = Ir {
        native_functions: vec![CORE_NOT],
        ..program(
            Vec::new(),
            4,
            vec![
                Instruction::NativeFn(0, 0),
                Instruction::Bool(3, true),
                Instruction::Arr(1, 1),
                Instruction::StoreIndex(3, 1, 0),
                Instruction::Call(2, 0, 1),
            ],
        )
    };
    let mut vm = Vm::new(&ir);
    run(&mut vm).unwrap();
    assert!(matches!(vm.registers()[2], Value::Bool(false)));
}

#[test]
fn store_prop_twice_replaces_in_place() {
    let ir = program(
        vec![DataItem::Str(Utf16String::from("a")), DataItem::Str(Utf16String::from("b"))],
        2,
        vec![
            Instruction::Obj(0, 2),
            Instruction::Num(1, n(1.0)),
            Instruction::StoreProp(1, 0, 0),
            Instruction::StoreProp(1, 0, 1),
            Instruction::Num(1, n(2.0)),
            Instruction::StoreProp(1, 0, 0),
            Instruction::LoadProp(1, 0, 1),
        ],
    );
    let mut vm = Vm::new(&ir);
    run(&mut vm).unwrap();
    assert_eq!(num(&vm.registers()[1]), 1.0);
    match &vm.registers()[0] {
        Value::Obj(h) => match vm.cell(*h) {
            HeapCell::Obj(obj) => {
                let keys: Vec<Vec<u16>> = obj.0.keys().cloned().collect();
                assert_eq!(keys, vec![vec![97u16], vec![98u16]]);
                assert_eq!(num(obj.0.get(&vec![97u16]).unwrap()), 2.0);
            }
            _ => panic!(),
        },
        _ => panic!(),
    }
}

#[test]
fn missing_property_reads_null() {
    let ir = program(
        vec![DataItem::Str(Utf16String::from("a"))],
        2,
        vec![Instruction::Obj(0, 0), Instruction::Num(1, n(1.0)), Instruction::LoadProp(1, 0, 0)],
    );
    let mut vm = Vm::new(&ir);
    run(&mut vm).unwrap();
    assert!(matches!(vm.registers()[1], Value::Null));
}

#[test]
fn panic_instruction_gives_its_error() {
    let ir = program(
        Vec::new(),
        1,
        vec![Instruction::Panic(AiScriptBasicError::new(AiScriptBasicErrorKind::Namespace, "boom".to_owned(), Some(Position { line: 2, column: 3 })))],
    );
    let mut vm = Vm::new(&ir);
    let err = vm.step().unwrap_err();
    assert_eq!(err.kind, AiScriptBasicErrorKind::Namespace);
    assert_eq!(err.message, "boom");
    assert_eq!(err.pos, Some(Position { line: 2, column: 3 }));
}

#[test]
fn runs_are_deterministic() {
    let ir = program(
        Vec::new(),
        3,
        vec![
            Instruction::Num(0, n(1.5)),
            Instruction::Num(1, n(2.25)),
            Instruction::Add(2, 0, 1),
            Instruction::Sub(2, 2, 0),
        ],
    );
    let mut a = Vm::new(&ir);
    let mut b = Vm::new(&ir);
    run(&mut a).unwrap();
    run(&mut b).unwrap();
    assert_eq!(num(&a.registers()[2]), 2.25);
    assert_eq!(num(&b.registers()[2]), num(&a.registers()[2]));
}

#[test]
fn nested_if_at_end_of_frame_exits() {
    // Leaving a finished frame moves back one level only; an outer frame that is also
    // finished then ends the run.
    let ir = program(
        Vec::new(),
        2,
        vec![
            Instruction::Bool(0, true),
            Instruction::If(0, vec![Instruction::If(0, vec![Instruction::Num(1, n(1.0))], vec![])], vec![]),
        ],
    );
    let mut vm = Vm::new(&ir);
    run(&mut vm).unwrap();
    assert_eq!(num(&vm.registers()[1]), 1.0);
}

#[test]
fn values_compare_like_numbers_and_texts() {
    let ir = program(
        vec![DataItem::Str(Utf16String::from("x")), DataItem::Str(Utf16String::from("x"))],
        0,
        vec![],
    );
    let vm = Vm::new(&ir);
    assert!(vm.value_eq(&Value::Num(n(0.0)), &Value::Num(n(-0.0))));
    assert!(!vm.value_eq(&Value::Num(n(f64::NAN)), &Value::Num(n(f64::NAN))));
    assert!(vm.value_eq(&Value::Num(n(3.0)), &Value::Num(n(3.0))));
    assert!(vm.value_eq(&Value::Str(0), &Value::Str(1)));
    assert!(!vm.value_eq(&Value::Null, &Value::Bool(false)));
    assert!(!vm.value_eq(&Value::Uninitialized, &Value::Uninitialized));
}

#[test]
fn unknown_identifier_panics_at_run_time() {
    let ast = parse_tokens(vec![(ident("x"), false)]).unwrap();
    let ir = translate(&ast);
    match &ir.user_functions[0].instructions[0] {
        Instruction::Panic(e) => {
            assert_eq!(e.kind, AiScriptBasicErrorKind::Runtime);
            assert_eq!(e.message, "No such variable 'x' in scope '<root>'");
        }
        other => panic!("{:?}", other),
    }
}

#[test]
fn assigning_an_immutable_variable_panics() {
    let ast = parse_tokens(vec![
        (TokenKind::LetKeyword, false),
        (ident("a"), true),
        (TokenKind::Eq, true),
        (number(1.0), true),
        (TokenKind::NewLine, false),
        (ident("a"), false),
        (TokenKind::Eq, true),
        (number(2.0), true),
    ])
    .unwrap();
    let ir = translate(&ast);
    let code = &ir.user_functions[0].instructions;
    assert!(matches!(&code[3], Instruction::Panic(e) if e.message == "Cannot assign to an immutable variable a."));
    assert_eq!(code[4], Instruction::Null(0));
}

#[test]
fn var_in_namespace_panics() {
    let ast = parse_tokens(vec![
        (TokenKind::Colon2, false),
        (ident("Ns"), true),
        (TokenKind::OpenBrace, true),
        (TokenKind::VarKeyword, true),
        (ident("a"), true),
        (TokenKind::Eq, true),
        (number(0.0), true),
        (TokenKind::CloseBrace, true),
    ])
    .unwrap();
    let ir = translate(&ast);
    match &ir.user_functions[0].instructions[0] {
        Instruction::Panic(e) => {
            assert_eq!(e.kind, AiScriptBasicErrorKind::Namespace);
            assert_eq!(e.message, "No \"var\" in namespace declaration: a");
            assert!(e.pos.is_some());
        }
        other => panic!("{:?}", other),
    }
}

#[test]
fn namespace_members_are_found_by_full_name() {
    let ast = parse_tokens(vec![
        (TokenKind::Colon2, false),
        (ident("Ns"), true),
        (TokenKind::OpenBrace, true),
        (TokenKind::LetKeyword, true),
        (ident("a"), true),
        (TokenKind::Eq, true),
        (number(3.0), true),
        (TokenKind::CloseBrace, true),
        (TokenKind::NewLine, false),
        (ident("Ns:a"), false),
    ])
    .unwrap();
    let ir = translate(&ast);
    let code = &ir.user_functions[0].instructions;
    assert_eq!(code[0], Instruction::Num(0, n(3.0)));
    assert_eq!(code[1], Instruction::Null(1));
    assert_eq!(code[2], Instruction::Move(1, 0));
}

#[test]
fn add_assign_reads_computes_and_writes() {
    let ast = parse_tokens(vec![
        (TokenKind::VarKeyword, false),
        (ident("a"), true),
        (TokenKind::Eq, true),
        (number(1.0), true),
        (TokenKind::NewLine, false),
        (ident("a"), false),
        (TokenKind::PlusEq, true),
        (number(2.0), true),
    ])
    .unwrap();
    let ir = translate(&ast);
    assert_eq!(
        ir.user_functions[0].instructions,
        vec![
            Instruction::Num(1, n(1.0)),
            Instruction::Null(0),
            Instruction::Num(2, n(2.0)),
            Instruction::Move(3, 1),
            Instruction::Add(4, 3, 2),
            Instruction::Move(1, 4),
            Instruction::Null(0),
        ]
    );
    let mut vm = Vm::new(&ir);
    run(&mut vm).unwrap();
    assert_eq!(num(&vm.registers()[1]), 3.0);
}

#[test]
fn logical_and_short_circuits() {
    let ast = parse_tokens(vec![(TokenKind::FalseKeyword, false), (TokenKind::And2, true), (TokenKind::TrueKeyword, true)]).unwrap();
    let ir = translate(&ast);
    assert_eq!(
        ir.user_functions[0].instructions,
        vec![Instruction::Bool(0, false), Instruction::If(0, vec![Instruction::Bool(0, true)], vec![])]
    );
}

#[test]
fn strings_are_stored_once() {
    let ast = parse_tokens(vec![
        (TokenKind::OpenBracket, false),
        (TokenKind::StringLiteral(Utf16String::from("s")), false),
        (TokenKind::Comma, false),
        (TokenKind::StringLiteral(Utf16String::from("s")), true),
        (TokenKind::CloseBracket, false),
    ])
    .unwrap();
    let ir = translate(&ast);
    assert_eq!(ir.data, vec![DataItem::Str(Utf16String::from("s"))]);
}

#[test]
fn unsupported_programs_are_refused() {
    let ast = parse_tokens(vec![(number(1.0), false), (TokenKind::Asterisk, true), (number(2.0), true)]).unwrap();
    assert!(!supported(&ast));
    let ast = parse_tokens(vec![(number(1.0), false), (TokenKind::Plus, true), (number(2.0), true)]).unwrap();
    assert!(supported(&ast));
}

#[test]
fn link_library_binds_names_at_root() {
    let mut translator = Translator::new();
    translator.link_library(vec![
        (Utf16String::from("x"), LibraryValue::Num(n(4.0))),
        (Utf16String::from("f"), LibraryValue::Fn(7)),
        (Utf16String::from("s"), LibraryValue::Str(Utf16String::from("t"))),
        (Utf16String::from("z"), LibraryValue::Null),
        (Utf16String::from("b"), LibraryValue::Bool(true)),
    ]);
    let ir = translator.build();
    assert_eq!(ir.native_functions, vec![7]);
    assert_eq!(
        ir.user_functions[0].instructions,
        vec![
            Instruction::Num(0, n(4.0)),
            Instruction::NativeFn(1, 0),
            Instruction::Data(2, 0),
            Instruction::Null(3),
            Instruction::Bool(4, true),
        ]
    );
}

#[test]
fn path_segments() {
    let p = Path::new(&utf16("A"));
    let q = p.resolve(&utf16("b"));
    assert!(p != q);
    assert!(q == Path::new(&utf16("A")).resolve(&utf16("b")));
}

#[test]
fn array_items_need_a_separator() {
    let err = parse_tokens(vec![
        (TokenKind::OpenBracket, false),
        (number(1.0), false),
        (number(2.0), true),
        (TokenKind::CloseBracket, false),
    ])
    .unwrap_err();
    assert_eq!(err.kind, AiScriptBasicErrorKind::Syntax);
    assert_eq!(err.message, "separator expected");
}

#[test]
fn parameters_need_a_separator() {
    let err = parse_tokens(vec![
        (TokenKind::At, false),
        (ident("f"), false),
        (TokenKind::OpenParen, false),
        (ident("a"), false),
        (ident("b"), true),
        (TokenKind::CloseParen, false),
        (TokenKind::OpenBrace, true),
        (TokenKind::CloseBrace, false),
    ])
    .unwrap_err();
    assert_eq!(err.kind, AiScriptBasicErrorKind::Syntax);
    assert_eq!(err.message, "separator expected");
}

#[test]
fn attribute_stands_on_the_definition_after_it() {
    let nodes = parse_tokens(vec![
        (TokenKind::OpenSharpBracket, false),
        (ident("x"), false),
        (number(1.0), true),
        (TokenKind::CloseBracket, false),
        (TokenKind::NewLine, false),
        (TokenKind::LetKeyword, false),
        (ident("a"), true),
        (TokenKind::Eq, true),
        (number(2.0), true),
    ])
    .unwrap();
    assert_eq!(nodes.len(), 1);
    let Node::Statement(Statement::Def(d)) = &nodes[0] else { panic!("not a definition") };
    assert_eq!(d.attr.len(), 1);
    assert_eq!(d.attr[0].name, Utf16String::from("x"));
    assert!(matches!(&d.attr[0].value, Expression::Num(n) if f64::from_bits(n.value) == 1.0));
    assert!(matches!(&d.expr, Expression::Num(n) if f64::from_bits(n.value) == 2.0));
    assert!(!d.is_mut);
}

#[test]
fn attribute_without_value_is_true() {
    let nodes = parse_tokens(vec![
        (TokenKind::OpenSharpBracket, false),
        (ident("x"), false),
        (TokenKind::CloseBracket, false),
        (TokenKind::NewLine, false),
        (TokenKind::VarKeyword, false),
        (ident("a"), true),
        (TokenKind::Eq, true),
        (number(2.0), true),
    ])
    .unwrap();
    let Node::Statement(Statement::Def(d)) = &nodes[0] else { panic!("not a definition") };
    assert!(matches!(&d.attr[0].value, Expression::Bool(b) if b.value));
    assert!(d.is_mut);
}

#[test]
fn attribute_on_an_expression_is_refused() {
    let err = parse_tokens(vec![
        (TokenKind::OpenSharpBracket, false),
        (ident("x"), false),
        (TokenKind::CloseBracket, false),
        (TokenKind::NewLine, false),
        (number(2.0), false),
    ])
    .unwrap_err();
    assert_eq!(err.kind, AiScriptBasicErrorKind::Syntax);
    assert_eq!(err.message, "invalid attribute.");
}

#[test]
fn fractional_index_drops_its_fraction() {
    let ir = program(
        Vec::new(),
        4,
        vec![
            Instruction::Arr(0, 2),
            Instruction::Num(1, n(5.0)),
            Instruction::Num(2, n(1.5)),
            Instruction::Store(1, 0, 2),
            Instruction::LoadIndex(3, 0, 1),
        ],
    );
    let mut vm = Vm::new(&ir);
    run(&mut vm).unwrap();
    assert_eq!(num(&vm.registers()[3]), 5.0);
}
