use indexmap::IndexMap;
use vstd::prelude::*;

use super::object::obj_entries;
use crate::common::string::{Utf16Str, Utf16String};

verus! {

/// A value of the machine. Strings, objects, arrays, functions and errors live in the
/// machine's heap; a value holds the handle of its heap cell.
#[derive(Debug)]
pub enum Value {
    /// A register not yet written.
    Uninitialized,
    Null,
    Bool(bool),
    /// A number, given by its IEEE-754 bits.
    Num(u64),
    Str(usize),
    Obj(usize),
    Arr(usize),
    Fn(usize),
    /// The wrapper that marks a value given by `return`.
    Return(Box<Value>),
    Break,
    Continue,
    Error(usize),
}

/// Which function a closure calls.
#[derive(Clone, Copy, Debug, PartialEq, Eq, Structural)]
pub enum FnIndex {
    Native(usize),
    User(usize),
}

/// A closure: the function and the values it captured.
#[derive(Debug)]
pub struct VFn {
    pub index: FnIndex,
    pub capture: Vec<Value>,
}

/// An object: its entries in insertion order.
#[derive(Debug)]
pub struct VObj(pub IndexMap<Vec<u16>, Value>);

/// An error value.
#[derive(Debug)]
pub struct VError {
    pub value: Utf16String,
    pub info: Option<Value>,
}

/// A cell of the heap.
#[derive(Debug)]
pub enum HeapCell {
    Str(Utf16String),
    Arr(Vec<Value>),
    Obj(VObj),
    Fn(VFn),
    Error(VError),
}

/// What a heap cell holds.
pub enum CellView {
    Str(Seq<u16>),
    Arr(Seq<Value>),
    Obj(Seq<(Seq<u16>, Value)>),
    Fn(FnIndex, Seq<Value>),
    Error(Seq<u16>, Option<Value>),
}

impl View for HeapCell {
    type V = CellView;

    open spec fn view(&self) -> CellView {
        match self {
            HeapCell::Str(s) => CellView::Str(s@),
            HeapCell::Arr(v) => CellView::Arr(v@),
            HeapCell::Obj(o) => CellView::Obj(obj_entries(o.0)),
            HeapCell::Fn(f) => CellView::Fn(f.index, f.capture@),
            HeapCell::Error(e) => CellView::Error(e.value@, e.info),
        }
    }
}

impl Value {
    /// A copy of the value.
    pub fn copy(&self) -> (r: Value)
        ensures
            r == *self,
        decreases self,
    {
        match self {
            Value::Uninitialized => Value::Uninitialized,
            Value::Null => Value::Null,
            Value::Bool(b) => Value::Bool(*b),
            Value::Num(n) => Value::Num(*n),
            Value::Str(h) => Value::Str(*h),
            Value::Obj(h) => Value::Obj(*h),
            Value::Arr(h) => Value::Arr(*h),
            Value::Fn(h) => Value::Fn(*h),
            Value::Return(b) => Value::Return(Box::new((**b).copy())),
            Value::Break => Value::Break,
            Value::Continue => Value::Continue,
            Value::Error(h) => Value::Error(*h),
        }
    }

    /// The name of the type of the value, as text.
    pub open spec fn type_text(self) -> Seq<char> {
        match self {
            Value::Uninitialized => Seq::empty(),
            Value::Null => "null"@,
            Value::Bool(_) => "bool"@,
            Value::Num(_) => "num"@,
            Value::Str(_) => "str"@,
            Value::Obj(_) => "obj"@,
            Value::Arr(_) => "arr"@,
            Value::Fn(_) => "fn"@,
            Value::Return(_) => "return"@,
            Value::Break => "break"@,
            Value::Continue => "continue"@,
            Value::Error(_) => "error"@,
        }
    }

    /// The name of the type of the value, as text. Fails for an uninitialized value.
    pub fn type_text_of(&self) -> (r: &'static str)
        requires
            !(*self is Uninitialized),
        ensures
            r@ == self.type_text(),
    {
        match self {
            Value::Uninitialized => "",
            Value::Null => "null",
            Value::Bool(_) => "bool",
            Value::Num(_) => "num",
            Value::Str(_) => "str",
            Value::Obj(_) => "obj",
            Value::Arr(_) => "arr",
            Value::Fn(_) => "fn",
            Value::Return(_) => "return",
            Value::Break => "break",
            Value::Continue => "continue",
            Value::Error(_) => "error",
        }
    }

    /// The name of the type of the value, as code units.
    pub open spec fn type_units(self) -> Seq<u16> {
        match self {
            Value::Uninitialized => Seq::empty(),
            Value::Null => seq![110u16, 117u16, 108u16, 108u16],
            Value::Bool(_) => seq![98u16, 111u16, 111u16, 108u16],
            Value::Num(_) => seq![110u16, 117u16, 109u16],
            Value::Str(_) => seq![115u16, 116u16, 114u16],
            Value::Obj(_) => seq![111u16, 98u16, 106u16],
            Value::Arr(_) => seq![97u16, 114u16, 114u16],
            Value::Fn(_) => seq![102u16, 110u16],
            Value::Return(_) => seq![114u16, 101u16, 116u16, 117u16, 114u16, 110u16],
            Value::Break => seq![98u16, 114u16, 101u16, 97u16, 107u16],
            Value::Continue => seq![99u16, 111u16, 110u16, 116u16, 105u16, 110u16, 117u16, 101u16],
            Value::Error(_) => seq![101u16, 114u16, 114u16, 111u16, 114u16],
        }
    }

    /// The name of the type of the value. Reading an uninitialized value is an error of the
    /// caller, ruled out here.
    pub fn value_type_name(&self) -> (r: Utf16Str)
        requires
            !(*self is Uninitialized),
        ensures
            r@ == self.type_units(),
    {
        match self {
            Value::Uninitialized => Utf16Str::new(&[]),
            Value::Null => {
                let units: [u16; 4] = [110u16, 117u16, 108u16, 108u16];
                let r = Utf16Str::new(&units);
                assert(r@ =~= seq![110u16, 117u16, 108u16, 108u16]);
                r
            },
            Value::Bool(_) => {
                let units: [u16; 4] = [98u16, 111u16, 111u16, 108u16];
                let r = Utf16Str::new(&units);
                assert(r@ =~= seq![98u16, 111u16, 111u16, 108u16]);
                r
            },
            Value::Num(_) => {
                let units: [u16; 3] = [110u16, 117u16, 109u16];
                let r = Utf16Str::new(&units);
                assert(r@ =~= seq![110u16, 117u16, 109u16]);
                r
            },
            Value::Str(_) => {
                let units: [u16; 3] = [115u16, 116u16, 114u16];
                let r = Utf16Str::new(&units);
                assert(r@ =~= seq![115u16, 116u16, 114u16]);
                r
            },
            Value::Obj(_) => {
                let units: [u16; 3] = [111u16, 98u16, 106u16];
                let r = Utf16Str::new(&units);
                assert(r@ =~= seq![111u16, 98u16, 106u16]);
                r
            },
            Value::Arr(_) => {
                let units: [u16; 3] = [97u16, 114u16, 114u16];
                let r = Utf16Str::new(&units);
                assert(r@ =~= seq![97u16, 114u16, 114u16]);
                r
            },
            Value::Fn(_) => {
                let units: [u16; 2] = [102u16, 110u16];
                let r = Utf16Str::new(&units);
                assert(r@ =~= seq![102u16, 110u16]);
                r
            },
            Value::Return(_) => {
                let units: [u16; 6] = [114u16, 101u16, 116u16, 117u16, 114u16, 110u16];
                let r = Utf16Str::new(&units);
                assert(r@ =~= seq![114u16, 101u16, 116u16, 117u16, 114u16, 110u16]);
                r
            },
            Value::Break => {
                let units: [u16; 5] = [98u16, 114u16, 101u16, 97u16, 107u16];
                let r = Utf16Str::new(&units);
                assert(r@ =~= seq![98u16, 114u16, 101u16, 97u16, 107u16]);
                r
            },
            Value::Continue => {
                let units: [u16; 8] = [99u16, 111u16, 110u16, 116u16, 105u16, 110u16, 117u16, 101u16];
                let r = Utf16Str::new(&units);
                assert(r@ =~= seq![99u16, 111u16, 110u16, 116u16, 105u16, 110u16, 117u16, 101u16]);
                r
            },
            Value::Error(_) => {
                let units: [u16; 5] = [101u16, 114u16, 114u16, 111u16, 114u16];
                let r = Utf16Str::new(&units);
                assert(r@ =~= seq![101u16, 114u16, 114u16, 111u16, 114u16]);
                r
            },
        }
    }
}

} // verus!
