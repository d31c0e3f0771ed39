use vstd::prelude::*;

use super::values::Value;
use super::vm::{expect_message, type_error};
use crate::common::error::{AiScriptBasicError, AiScriptBasicErrorKind, EngineResult};

verus! {

/// Whether `r` is the runtime error for a value of type `got` where `expected` was wanted.
pub open spec fn is_type_error<T>(r: EngineResult<T>, expected: Seq<char>, got: Value) -> bool {
    r matches Err(e) && e.kind == AiScriptBasicErrorKind::Runtime && e.pos is None && e.message@
        == expect_message(expected, got)
}

/// The value, if there is one: an uninitialized value is an error.
pub fn require_any(val: &Value) -> (r: EngineResult<Value>)
    ensures
        *val is Uninitialized ==> (r matches Err(e) && e.kind == AiScriptBasicErrorKind::Runtime
            && e.pos is None && e.message@ == "Expect any, but got nothing."@),
        !(*val is Uninitialized) ==> r == Ok::<Value, AiScriptBasicError>(*val),
{
    match val {
        Value::Uninitialized => Err(
            AiScriptBasicError::new(
                AiScriptBasicErrorKind::Runtime,
                "Expect any, but got nothing.".to_owned(),
                None,
            ),
        ),
        _ => Ok(val.copy()),
    }
}

/// The number of a number value, by its IEEE-754 bits; any other value is an error.
pub fn require_number(val: &Value) -> (r: EngineResult<u64>)
    requires
        !(*val is Uninitialized),
    ensures
        *val matches Value::Num(n) ==> r == Ok::<u64, AiScriptBasicError>(n),
        !(*val is Num) ==> is_type_error(r, "number"@, *val),
{
    match val {
        Value::Num(n) => Ok(*n),
        _ => Err(type_error("number", val)),
    }
}

/// The boolean of a boolean value; any other value is an error.
pub fn require_boolean(val: &Value) -> (r: EngineResult<bool>)
    requires
        !(*val is Uninitialized),
    ensures
        *val matches Value::Bool(b) ==> r == Ok::<bool, AiScriptBasicError>(b),
        !(*val is Bool) ==> is_type_error(r, "bool"@, *val),
{
    match val {
        Value::Bool(b) => Ok(*b),
        _ => Err(type_error("bool", val)),
    }
}

/// The heap handle of a function value; any other value is an error.
pub fn require_function(val: &Value) -> (r: EngineResult<usize>)
    requires
        !(*val is Uninitialized),
    ensures
        *val matches Value::Fn(h) ==> r == Ok::<usize, AiScriptBasicError>(h),
        !(*val is Fn) ==> is_type_error(r, "function"@, *val),
{
    match val {
        Value::Fn(h) => Ok(*h),
        _ => Err(type_error("function", val)),
    }
}

/// The heap handle of an object value; any other value is an error.
pub fn require_object(val: &Value) -> (r: EngineResult<usize>)
    requires
        !(*val is Uninitialized),
    ensures
        *val matches Value::Obj(h) ==> r == Ok::<usize, AiScriptBasicError>(h),
        !(*val is Obj) ==> is_type_error(r, "object"@, *val),
{
    match val {
        Value::Obj(h) => Ok(*h),
        _ => Err(type_error("object", val)),
    }
}

/// The heap handle of an array value; any other value is an error.
pub fn require_array(val: &Value) -> (r: EngineResult<usize>)
    requires
        !(*val is Uninitialized),
    ensures
        *val matches Value::Arr(h) ==> r == Ok::<usize, AiScriptBasicError>(h),
        !(*val is Arr) ==> is_type_error(r, "array"@, *val),
{
    match val {
        Value::Arr(h) => Ok(*h),
        _ => Err(type_error("array", val)),
    }
}

} // verus!
