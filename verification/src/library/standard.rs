use vstd::prelude::*;

use crate::ast::measure::nodes_size;
use crate::ast::nodes::Node;
use crate::common::error::EngineResult;
use crate::common::string::{utf16_encode, Utf16Str, Utf16String};
use crate::ir::compile::{code_view, initial_code};
use crate::ir::ir::{data_str, ir_wf, DataItem, Ir};
use crate::ir::translate::{
    lib_natives, library_view, link_code, node_ok, Library, LibraryValue, LibraryValueView,
    Translator,
};
use crate::vm::utils::{is_type_error, require_boolean};
use crate::vm::values::Value;

verus! {

/// The handle of `Core:not` among the native functions.
pub const CORE_NOT: usize = 0;

/// The handle of `print` among the native functions.
pub const PRINT: usize = 1;

/// The code unit of `+`.
pub const PLUS_UNIT: u16 = 43;

/// The place of the first `+` in `s`.
pub open spec fn first_plus(s: Seq<u16>) -> int {
    choose|k: int| 0 <= k < s.len() && s[k] == PLUS_UNIT && forall|j: int| 0 <= j < k ==> s[j] != PLUS_UNIT
}

/// The version of the language: what follows the first `+` of the package version.
pub fn version(package_version: &Utf16Str) -> (r: Utf16String)
    requires
        package_version@.contains(PLUS_UNIT),
    ensures
        r@ == package_version@.skip(first_plus(package_version@) + 1),
{
    let units = package_version.as_u16s();
    let mut i: usize = 0;
    while i < units.len() && units[i] != PLUS_UNIT
        invariant
            i <= units@.len(),
            units@ == package_version@,
            forall|j: int| 0 <= j < i ==> units@[j] != PLUS_UNIT,
            units@.contains(PLUS_UNIT),
        decreases units@.len() - i,
    {
        i = i + 1;
    }
    proof {
        let w = choose|w: int| 0 <= w < units@.len() && units@[w] == PLUS_UNIT;
        assert(i < units@.len());
        assert(units@[i as int] == PLUS_UNIT);
        let k = first_plus(units@);
        assert(k == i);
    }
    let mut result = Utf16String::new();
    let mut j: usize = i + 1;
    while j < units.len()
        invariant
            i < j <= units@.len(),
            result@ == units@.subrange(i + 1, j as int),
        decreases units@.len() - j,
    {
        result.push(units[j]);
        j = j + 1;
        assert(result@ =~= units@.subrange(i + 1, j as int));
    }
    assert(result@ =~= units@.skip(i + 1));
    result
}

/// `Core:not`: the negation of its first argument, which must be a boolean.
pub fn core_not(args: &Vec<Value>) -> (r: EngineResult<Value>)
    requires
        args@.len() > 0,
        !(args@[0] is Uninitialized),
    ensures
        args@[0] matches Value::Bool(b) ==> r == Ok::<Value, crate::common::error::AiScriptBasicError>(Value::Bool(!b)),
        !(args@[0] is Bool) ==> is_type_error(r, "bool"@, args@[0]),
{
    match require_boolean(&args[0]) {
        Ok(b) => Ok(Value::Bool(!b)),
        Err(e) => Err(e),
    }
}

/// The view of the standard library for the package version `package_version`.
pub open spec fn std_library_view(package_version: Seq<u16>) -> Seq<(Seq<u16>, LibraryValueView)> {
    seq![
        (utf16_encode("Core:v"@), LibraryValueView::Str(package_version.skip(first_plus(package_version) + 1))),
        (utf16_encode("Core:ai"@), LibraryValueView::Str(utf16_encode("kawaii"@))),
        (utf16_encode("Core:not"@), LibraryValueView::Fn(CORE_NOT)),
    ]
}

/// The view of the library with `print`.
pub open spec fn print_library_view() -> Seq<(Seq<u16>, LibraryValueView)> {
    seq![(utf16_encode("print"@), LibraryValueView::Fn(PRINT))]
}

/// What a program is translated after: the standard library, then `print`.
pub open spec fn linked_code(package_version: Seq<u16>) -> crate::ir::compile::CodeState {
    link_code(link_code(initial_code(), 0, std_library_view(package_version)), 1, print_library_view())
}

/// The standard library: `Core:v`, the version of the language; `Core:ai`; and the native
/// function `Core:not`.
pub fn std_library(package_version: &Utf16Str) -> (r: Library)
    requires
        package_version@.contains(PLUS_UNIT),
    ensures
        r@.len() == 3,
        r@[0].0@ == utf16_encode("Core:v"@),
        r@[0].1 matches LibraryValue::Str(s) && s@ == package_version@.skip(first_plus(package_version@) + 1),
        r@[1].0@ == utf16_encode("Core:ai"@),
        r@[1].1 matches LibraryValue::Str(s) && s@ == utf16_encode("kawaii"@),
        r@[2].0@ == utf16_encode("Core:not"@),
        r@[2].1 == LibraryValue::Fn(CORE_NOT),
        library_view(r@) == std_library_view(package_version@),
{
    let mut lib: Library = Vec::new();
    lib.push((Utf16String::from("Core:v"), LibraryValue::Str(version(package_version))));
    lib.push((Utf16String::from("Core:ai"), LibraryValue::Str(Utf16String::from("kawaii"))));
    lib.push((Utf16String::from("Core:not"), LibraryValue::Fn(CORE_NOT)));
    assert(library_view(lib@) =~= std_library_view(package_version@));
    lib
}

/// The library that a program run by the interpreter also has: the native function `print`.
pub fn print_library() -> (r: Library)
    ensures
        r@.len() == 1,
        r@[0].0@ == utf16_encode("print"@),
        r@[0].1 == LibraryValue::Fn(PRINT),
        library_view(r@) == print_library_view(),
{
    let mut lib: Library = Vec::new();
    lib.push((Utf16String::from("print"), LibraryValue::Fn(PRINT)));
    assert(library_view(lib@) =~= print_library_view());
    lib
}

/// The program that the interpreter runs for `program`: the standard library and `print`
/// linked, then the program translated.
pub fn compile_program(program: &[Node], package_version: &Utf16Str) -> (r: Ir)
    requires
        package_version@.contains(PLUS_UNIT),
        forall|i: int| 0 <= i < program@.len() ==> node_ok(#[trigger] program@[i]),
        5 + 8 * nodes_size(program@) <= usize::MAX,
    ensures
        ir_wf(r),
        r.entry_point == 0,
        r.native_functions@ == seq![CORE_NOT, PRINT],
        r.user_functions@.len() == 1,
        code_view(r.user_functions@[0].instructions@) == crate::ir::compile::compile_program(
            linked_code(package_version@),
            program@,
        ).block,
        r.data@.map_values(|d: DataItem| data_str(d)) == crate::ir::compile::compile_program(
            linked_code(package_version@),
            program@,
        ).data,
        r.user_functions@[0].register_length == crate::ir::compile::compile_program(
            linked_code(package_version@),
            program@,
        ).regs,
{
    let mut translator = Translator::new();
    let std = std_library(package_version);
    proof {
        reveal_with_fuel(lib_natives, 4);
        assert(std@.drop_last().drop_last().drop_last() =~= Seq::<(Utf16String, LibraryValue)>::empty());
    }
    translator.link_library(std);
    let print = print_library();
    proof {
        reveal_with_fuel(lib_natives, 2);
        assert(print@.drop_last() =~= Seq::<(Utf16String, LibraryValue)>::empty());
    }
    translator.link_library(print);
    translator.translate(program);
    let r = translator.build();
    proof {
        assert(r.native_functions@ =~= seq![CORE_NOT, PRINT]);
    }
    r
}

} // verus!
