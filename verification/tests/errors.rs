use aiscript_engine::common::error::{AiScriptBasicError, AiScriptBasicErrorKind, AiScriptSyntaxError};
use aiscript_engine::common::position::Position;

#[test]
fn syntax_error_text_names_kind_message_and_position() {
    let e = AiScriptSyntaxError::new("abc".to_string(), Position { line: 3, column: 14 });
    assert_eq!(e.debug_text(), "Syntax: abc (3:14)");
    assert_eq!(e.into_basic().debug_text(), "Syntax: abc (3:14)");
}

#[test]
fn error_without_position_has_no_bracket() {
    let e = AiScriptBasicError::new(AiScriptBasicErrorKind::Runtime, "Expect bool, but got num.".to_string(), None);
    assert_eq!(e.debug_text(), "Runtime: Expect bool, but got num.");
    let e = AiScriptBasicError::new(AiScriptBasicErrorKind::Namespace, "x".to_string(), Some(Position { line: 10, column: 2 }));
    assert_eq!(e.debug_text(), "Namespace: x (10:2)");
}
