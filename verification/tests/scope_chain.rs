use aiscript_engine::common::path::NamePath;
use aiscript_engine::common::string::Utf16String;
use aiscript_engine::ir::scope::Scope;

fn text(s: &str) -> Utf16String {
    Utf16String::from(s)
}

fn name_path(s: &str) -> NamePath {
    NamePath::from_string(Utf16String::from(s))
}

#[test]
fn default() {
    let scope = Scope::default();
    assert_eq!(scope.name, text("<anonymous>"));
    assert!(scope.parent.is_none());
    assert!(scope.ns_name.is_none());
    assert!(scope.variables.is_empty());
}

#[test]
fn new() {
    let scope = Scope::new();
    assert_eq!(scope.name, text("<root>"));
    assert!(scope.parent.is_none());
    assert!(scope.ns_name.is_none());
    assert!(scope.variables.is_empty());
}

#[test]
fn create_child_scope() {
    let parent = Scope::new();
    let child = parent.create_child_scope(text("<anonymous>"));
    assert_eq!(child.name, text("<anonymous>"));
    let parent = child.parent.as_ref().unwrap();
    assert_eq!(parent.name, text("<root>"));
    assert!(parent.parent.is_none());
    assert!(child.ns_name.is_none());
    assert!(child.variables.is_empty());
}

#[test]
fn create_child_namespace_scope() {
    let parent = Scope::new();
    let child = parent.create_child_namespace_scope(text("Ns"), text("<anonymous>"));
    assert_eq!(child.name, text("<anonymous>"));
    let parent = child.parent.as_ref().unwrap();
    assert_eq!(parent.name, text("<root>"));
    assert!(parent.parent.is_none());
    assert_eq!(child.ns_name.as_ref().unwrap(), &text("Ns"));
    assert!(child.variables.is_empty());
}

#[test]
fn scope_chain_add_in_namespace_adds_prefixed_name_to_parent() {
    let root = Scope::new();
    let mut ns = root.create_child_namespace_scope(text("Ns"), text("<anonymous>"));
    assert!(ns.add(name_path("a"), false));
    assert!(ns.is_defined(&name_path("a")));
    assert!(ns.is_defined(&name_path("Ns:a")));
    let parent = ns.parent.as_ref().unwrap();
    assert!(parent.is_defined(&name_path("Ns:a")));
    assert!(!parent.is_defined(&name_path("a")));
    assert!(!ns.add(name_path("a"), true));
    assert_eq!(ns.variables.len(), 1);
}

#[test]
fn scope_chain_get_finds_innermost_first() {
    let mut root = Scope::new();
    assert!(root.add(name_path("x"), false));
    let mut block = root.create_child_scope(text("<anonymous>"));
    assert!(block.add(name_path("y"), true));
    assert!(!block.add(name_path("x"), true));
    let x = block.get(&name_path("x")).unwrap();
    assert!(!x.is_mutable);
    let y = block.get(&name_path("y")).unwrap();
    assert!(y.is_mutable);
    assert!(block.get(&name_path("z")).is_none());
}
