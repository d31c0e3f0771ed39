use aiscript_engine::common::path::NamePath;
use aiscript_engine::common::string::{Utf16Str, Utf16String};
use aiscript_engine::ir::scopes::{Scopes, Variable};

fn utf16(s: &str) -> Utf16Str {
    let units: Vec<u16> = s.encode_utf16().collect();
    Utf16Str::new(&units)
}

fn name_path(s: &str) -> NamePath {
    NamePath::from_string(Utf16String::from(s))
}

#[test]
fn scope_name() {
    let mut scopes = Scopes::new();
    assert!(scopes.is_root());
    assert_eq!(scopes.current_scope_name(), utf16("<root>"));

    scopes.push_namespace_scope(&utf16("Ns"));
    assert!(!scopes.is_root());
    assert_eq!(scopes.current_scope_name(), utf16("<anonymous>"));

    scopes.drop_local_scope();
    assert!(scopes.is_root());
    assert_eq!(scopes.current_scope_name(), utf16("<root>"));

    scopes.push_block_scope();
    assert!(!scopes.is_root());
    assert_eq!(scopes.current_scope_name(), utf16("<anonymous>"));
}

#[test]
fn resolve() {
    let mut scopes = Scopes::new();
    scopes.push_namespace_scope(&utf16("Ns"));
    assert_eq!(scopes.resolve(&name_path("a")), name_path("Ns:a"));
    assert_eq!(scopes.resolve(&name_path("Ns:b")), name_path("Ns:b"));
    assert_eq!(scopes.resolve(&name_path("Ns:Ns:c")), name_path("Ns:Ns:c"));
    scopes.drop_local_scope();
    assert!(scopes.is_root());
}

#[test]
fn add_to_root() {
    let mut scopes = Scopes::new();
    let variable_name = name_path("a");
    scopes.add(&variable_name, Default::default());
    assert!(scopes.is_defined(&name_path("a")));
    assert!(scopes.is_root());
}

#[test]
fn add_to_namespace() {
    let mut scopes = Scopes::new();
    let variable_name = name_path("a");
    scopes.push_namespace_scope(&utf16("Ns"));
    scopes.add(&variable_name, Default::default());
    assert!(scopes.is_defined(&name_path("a")));
    assert!(scopes.is_defined(&name_path("Ns:a")));
    scopes.drop_local_scope();
    assert!(scopes.is_root());
}

#[test]
fn add_to_block() {
    let mut scopes = Scopes::new();
    let variable_name = name_path("a");
    scopes.push_block_scope();
    scopes.add(&variable_name, Default::default());
    assert!(scopes.is_defined(&name_path("a")));
    scopes.drop_local_scope();
    assert!(scopes.is_root());
}

#[test]
fn block_variable_ends_with_block() {
    let mut scopes = Scopes::new();
    scopes.push_block_scope();
    scopes.add(&name_path("x"), Variable { is_mutable: true, register: 3 });
    assert_eq!(scopes.get(&name_path("x")), Some(Variable { is_mutable: true, register: 3 }));
    scopes.drop_local_scope();
    assert_eq!(scopes.get(&name_path("x")), None);
}

#[test]
fn outer_block_wins_lookup() {
    let mut scopes = Scopes::new();
    scopes.push_block_scope();
    scopes.add(&name_path("x"), Variable { is_mutable: false, register: 1 });
    scopes.push_block_scope();
    scopes.add(&name_path("x"), Variable { is_mutable: false, register: 2 });
    assert_eq!(scopes.get(&name_path("x")), Some(Variable { is_mutable: false, register: 1 }));
}

#[test]
fn redefinition_replaces_variable() {
    let mut scopes = Scopes::new();
    scopes.add(&name_path("a"), Variable { is_mutable: false, register: 0 });
    scopes.add(&name_path("a"), Variable { is_mutable: true, register: 5 });
    assert_eq!(scopes.get(&name_path("a")), Some(Variable { is_mutable: true, register: 5 }));
}

#[test]
fn assign_errors() {
    let mut scopes = Scopes::new();
    scopes.add(&name_path("c"), Variable { is_mutable: false, register: 0 });
    scopes.add(&name_path("v"), Variable { is_mutable: true, register: 1 });
    assert_eq!(scopes.assign(&name_path("v")), Ok(1));
    let err = scopes.assign(&name_path("c")).unwrap_err();
    assert_eq!(err.message, "Cannot assign to an immutable variable c.");
    let err = scopes.assign(&name_path("nope")).unwrap_err();
    assert_eq!(err.message, "No such variable 'nope' in scope '<root>'");
    scopes.push_block_scope();
    let err = scopes.assign(&name_path("nope")).unwrap_err();
    assert_eq!(err.message, "No such variable 'nope' in scope '<anonymous>'");
}
