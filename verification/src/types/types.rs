use vstd::prelude::*;

use crate::ast::nodes::{NamedTypeSource, TypeSource};
use crate::common::error::{AiScriptBasicError, AiScriptBasicErrorKind, EngineResult};
use crate::common::string::{utf16_decode_lossy, Utf16Str, Utf16String};

verus! {

/// A type.
#[derive(Debug)]
pub enum Type {
    Simple(TSimple),
    Generic(TGeneric),
    Fn(TFn),
}

/// The types without parameters.
#[derive(Clone, Copy, Debug, PartialEq, Eq, Structural)]
pub enum TSimple {
    Null,
    Bool,
    Num,
    Str,
    Any,
    Void,
}

/// The types with one parameter.
#[derive(Debug)]
pub enum TGeneric {
    Arr(Box<Type>),
    Obj(Box<Type>),
}

/// A function type.
#[derive(Debug)]
pub struct TFn {
    pub args: Vec<Type>,
    pub result: Box<Type>,
}

impl TSimple {
    /// The name of the type, as code units.
    pub open spec fn name_spec(self) -> Seq<u16> {
        match self {
            TSimple::Null => seq![110u16, 117u16, 108u16, 108u16],
            TSimple::Bool => seq![98u16, 111u16, 111u16, 108u16],
            TSimple::Num => seq![110u16, 117u16, 109u16],
            TSimple::Str => seq![115u16, 116u16, 114u16],
            TSimple::Any => seq![97u16, 110u16, 121u16],
            TSimple::Void => seq![118u16, 111u16, 105u16, 100u16],
        }
    }

    /// The simple type with the given name, if there is one.
    pub open spec fn for_name_spec(name: Seq<u16>) -> Option<TSimple> {
        if name == seq![110u16, 117u16, 108u16, 108u16] {
            Some(TSimple::Null)
        } else if name == seq![98u16, 111u16, 111u16, 108u16] {
            Some(TSimple::Bool)
        } else if name == seq![110u16, 117u16, 109u16] {
            Some(TSimple::Num)
        } else if name == seq![115u16, 116u16, 114u16] {
            Some(TSimple::Str)
        } else if name == seq![97u16, 110u16, 121u16] {
            Some(TSimple::Any)
        } else if name == seq![118u16, 111u16, 105u16, 100u16] {
            Some(TSimple::Void)
        } else {
            None
        }
    }

    /// The name of the type.
    pub fn name(&self) -> (r: Utf16Str)
        ensures
            r@ == self.name_spec(),
    {
        match self {
            TSimple::Null => {
                let units: [u16; 4] = [110u16, 117u16, 108u16, 108u16];
                let r = Utf16Str::new(&units);
                assert(r@ =~= seq![110u16, 117u16, 108u16, 108u16]);
                r
            },
            TSimple::Bool => {
                let units: [u16; 4] = [98u16, 111u16, 111u16, 108u16];
                let r = Utf16Str::new(&units);
                assert(r@ =~= seq![98u16, 111u16, 111u16, 108u16]);
                r
            },
            TSimple::Num => {
                let units: [u16; 3] = [110u16, 117u16, 109u16];
                let r = Utf16Str::new(&units);
                assert(r@ =~= seq![110u16, 117u16, 109u16]);
                r
            },
            TSimple::Str => {
                let units: [u16; 3] = [115u16, 116u16, 114u16];
                let r = Utf16Str::new(&units);
                assert(r@ =~= seq![115u16, 116u16, 114u16]);
                r
            },
            TSimple::Any => {
                let units: [u16; 3] = [97u16, 110u16, 121u16];
                let r = Utf16Str::new(&units);
                assert(r@ =~= seq![97u16, 110u16, 121u16]);
                r
            },
            TSimple::Void => {
                let units: [u16; 4] = [118u16, 111u16, 105u16, 100u16];
                let r = Utf16Str::new(&units);
                assert(r@ =~= seq![118u16, 111u16, 105u16, 100u16]);
                r
            },
        }
    }

    /// The simple type with the given name, if there is one.
    pub fn for_name(name: &Utf16Str) -> (r: Option<TSimple>)
        ensures
            r == TSimple::for_name_spec(name@),
    {
        let units: [u16; 4] = [110u16, 117u16, 108u16, 108u16];
        assert(units@ =~= seq![110u16, 117u16, 108u16, 108u16]);
        if name.eq_u16s(&units) {
            return Some(TSimple::Null);
        }
        let units: [u16; 4] = [98u16, 111u16, 111u16, 108u16];
        assert(units@ =~= seq![98u16, 111u16, 111u16, 108u16]);
        if name.eq_u16s(&units) {
            return Some(TSimple::Bool);
        }
        let units: [u16; 3] = [110u16, 117u16, 109u16];
        assert(units@ =~= seq![110u16, 117u16, 109u16]);
        if name.eq_u16s(&units) {
            return Some(TSimple::Num);
        }
        let units: [u16; 3] = [115u16, 116u16, 114u16];
        assert(units@ =~= seq![115u16, 116u16, 114u16]);
        if name.eq_u16s(&units) {
            return Some(TSimple::Str);
        }
        let units: [u16; 3] = [97u16, 110u16, 121u16];
        assert(units@ =~= seq![97u16, 110u16, 121u16]);
        if name.eq_u16s(&units) {
            return Some(TSimple::Any);
        }
        let units: [u16; 4] = [118u16, 111u16, 105u16, 100u16];
        assert(units@ =~= seq![118u16, 111u16, 105u16, 100u16]);
        if name.eq_u16s(&units) {
            return Some(TSimple::Void);
        }
        None
    }
}

/// The code units of `arr`.
pub open spec fn arr_units() -> Seq<u16> {
    seq![97u16, 114u16, 114u16]
}

/// The code units of `obj`.
pub open spec fn obj_units() -> Seq<u16> {
    seq![111u16, 98u16, 106u16]
}

/// The code units of `, `.
pub open spec fn comma_space_units() -> Seq<u16> {
    seq![44u16, 32u16]
}

/// The name of a written type: `name`, `name<inner>`, or `@(args) {  }`.
pub open spec fn type_name_spec(src: TypeSource) -> Seq<u16>
    decreases src,
{
    match src {
        TypeSource::NamedTypeSource(n) => match n.inner {
            Some(inner) => n.name@ + seq![60u16] + type_name_spec(*inner) + seq![62u16],
            None => n.name@,
        },
        TypeSource::FnTypeSource(f) => seq![64u16, 40u16] + names_joined(f.args@) + seq![
            41u16,
            32u16,
            123u16,
            32u16,
            32u16,
            125u16,
        ],
    }
}

/// The names of the written types, with `, ` between each two.
pub open spec fn names_joined(args: Seq<TypeSource>) -> Seq<u16>
    decreases args,
{
    if args.len() == 0 {
        Seq::empty()
    } else if args.len() == 1 {
        type_name_spec(args[0])
    } else {
        names_joined(args.drop_last()) + comma_space_units() + type_name_spec(args.last())
    }
}

/// Whether every name in a written type is known.
pub open spec fn source_known(src: TypeSource) -> bool
    decreases src,
{
    match src {
        TypeSource::NamedTypeSource(n) => if TSimple::for_name_spec(n.name@) is Some {
            true
        } else if n.name@ == arr_units() || n.name@ == obj_units() {
            match n.inner {
                Some(inner) => source_known(*inner),
                None => true,
            }
        } else {
            false
        },
        TypeSource::FnTypeSource(f) => sources_known(f.args@) && source_known(*f.result),
    }
}

/// Whether every name in the written types is known.
pub open spec fn sources_known(srcs: Seq<TypeSource>) -> bool
    decreases srcs,
{
    if srcs.len() == 0 {
        true
    } else {
        sources_known(srcs.drop_last()) && source_known(srcs.last())
    }
}

/// The first named type, in reading order, whose name is not known.
pub open spec fn first_unknown(src: TypeSource) -> TypeSource
    decreases src,
{
    match src {
        TypeSource::NamedTypeSource(n) => if TSimple::for_name_spec(n.name@) is None && (
        n.name@ == arr_units() || n.name@ == obj_units()) && n.inner is Some {
            first_unknown(*n.inner.unwrap())
        } else {
            src
        },
        TypeSource::FnTypeSource(f) => if !sources_known(f.args@) {
            first_unknown_of(f.args@)
        } else {
            first_unknown(*f.result)
        },
    }
}

/// The first named type, in reading order, whose name is not known.
pub open spec fn first_unknown_of(srcs: Seq<TypeSource>) -> TypeSource
    decreases srcs,
{
    if srcs.len() == 0 {
        arbitrary()
    } else if !sources_known(srcs.drop_last()) {
        first_unknown_of(srcs.drop_last())
    } else {
        first_unknown(srcs.last())
    }
}

/// Whether `ty` is the type that the written type `src` denotes.
pub open spec fn denotes(ty: Type, src: TypeSource) -> bool
    decreases src,
{
    match src {
        TypeSource::NamedTypeSource(n) => match TSimple::for_name_spec(n.name@) {
            Some(k) => ty == Type::Simple(k),
            None => if n.name@ == arr_units() {
                ty matches Type::Generic(TGeneric::Arr(t)) && inner_denotes(*t, n.inner)
            } else if n.name@ == obj_units() {
                ty matches Type::Generic(TGeneric::Obj(t)) && inner_denotes(*t, n.inner)
            } else {
                false
            },
        },
        TypeSource::FnTypeSource(f) => ty matches Type::Fn(tf) && all_denote(tf.args@, f.args@)
            && denotes(*tf.result, *f.result),
    }
}

/// Whether `ty` is the parameter type of `arr` or `obj` written as `inner`: `any` when omitted.
pub open spec fn inner_denotes(ty: Type, inner: Option<Box<TypeSource>>) -> bool
    decreases inner,
{
    match inner {
        Some(src) => denotes(ty, *src),
        None => ty == Type::Simple(TSimple::Any),
    }
}

/// Whether each of `tys` is the type that the written type in the same place denotes.
pub open spec fn all_denote(tys: Seq<Type>, srcs: Seq<TypeSource>) -> bool
    decreases srcs,
{
    if srcs.len() == 0 {
        tys.len() == 0
    } else {
        tys.len() == srcs.len() && all_denote(tys.drop_last(), srcs.drop_last()) && denotes(
            tys.last(),
            srcs.last(),
        )
    }
}

/// The message for an unknown type.
pub open spec fn unknown_type_message(src: TypeSource) -> Seq<char> {
    "Unknown type: '"@ + utf16_decode_lossy(type_name_spec(src)) + "'"@
}


/// The name of a written type, as it appears in messages.
pub fn get_type_name_by_source(type_source: &TypeSource) -> (r: Utf16String)
    ensures
        r@ == type_name_spec(*type_source),
    decreases type_source,
{
    match type_source {
        TypeSource::NamedTypeSource(n) => {
            match &n.inner {
                Some(inner) => {
                    let inner_name = get_type_name_by_source(inner);
                    n.name.copy().concat_unit(60).concat(inner_name.as_utf16_str()).concat_unit(62)
                },
                None => n.name.copy(),
            }
        },
        TypeSource::FnTypeSource(f) => {
            let mut name = Utf16String::new();
            name.push(64);
            name.push(40);
            let ghost head = seq![64u16, 40u16];
            assert(name@ =~= head);
            let mut i: usize = 0;
            while i < f.args.len()
                invariant
                    *type_source == TypeSource::FnTypeSource(*f),
                    i <= f.args@.len(),
                    name@ == head + names_joined(f.args@.take(i as int)),
                decreases f.args@.len() - i,
            {
                let ghost before = name@;
                if i > 0 {
                    name.push(44);
                    name.push(32);
                }
                proof {
                    assert(*f == (*type_source)->FnTypeSource_0);
                    assert(decreases_to!(*type_source => (*type_source)->FnTypeSource_0));
                    assert(decreases_to!(*f => f.args));
                    assert(decreases_to!(f.args => f.args@));
                    assert(decreases_to!(f.args@ => f.args@[i as int]));
                }
                let arg_name = get_type_name_by_source(&f.args[i]);
                name.push_str(arg_name.as_utf16_str());
                proof {
                    let t = f.args@.take(i + 1);
                    assert(t.drop_last() =~= f.args@.take(i as int));
                    if i == 0 {
                        assert(names_joined(f.args@.take(0)) =~= Seq::<u16>::empty());
                        assert(name@ =~= head + names_joined(t));
                    } else {
                        assert(name@ =~= head + names_joined(t));
                    }
                }
                i = i + 1;
            }
            assert(f.args@.take(f.args@.len() as int) =~= f.args@);
            name.push(41);
            name.push(32);
            name.push(123);
            name.push(32);
            name.push(32);
            name.push(125);
            assert(name@ =~= type_name_spec(*type_source));
            name
        },
    }
}

/// The error for a named type whose name is not known.
fn unknown_type_error(type_source: &TypeSource) -> (r: AiScriptBasicError)
    ensures
        r.kind == AiScriptBasicErrorKind::Syntax,
        r.message@ == unknown_type_message(*type_source),
        r.pos == Some(type_source.loc_spec().start),
{
    let name = get_type_name_by_source(type_source);
    let text = name.to_display_string();
    let mut message = "Unknown type: '".to_owned();
    message.append(text.as_str());
    message.append("'");
    let start = match type_source {
        TypeSource::NamedTypeSource(n) => n.loc.start,
        TypeSource::FnTypeSource(f) => f.loc.start,
    };
    AiScriptBasicError::new(AiScriptBasicErrorKind::Syntax, message, Some(start))
}

/// The type that a written type denotes; an error names the first unknown type.
pub fn get_type_by_source(type_source: &TypeSource) -> (r: EngineResult<Type>)
    ensures
        r is Ok <==> source_known(*type_source),
        r matches Ok(ty) ==> denotes(ty, *type_source),
        r matches Err(e) ==> {
            &&& e.kind == AiScriptBasicErrorKind::Syntax
            &&& e.message@ == unknown_type_message(first_unknown(*type_source))
            &&& e.pos == Some(first_unknown(*type_source).loc_spec().start)
        },
    decreases type_source,
{
    match type_source {
        TypeSource::NamedTypeSource(named) => {
            if let Some(k) = TSimple::for_name(named.name.as_utf16_str()) {
                return Ok(Type::Simple(k));
            }
            let arr: [u16; 3] = [97, 114, 114];
            let obj: [u16; 3] = [111, 98, 106];
            assert(arr@ =~= arr_units());
            assert(obj@ =~= obj_units());
            if named.name.as_utf16_str().eq_u16s(&arr) {
                let inner = get_inner_type(named)?;
                return Ok(Type::Generic(TGeneric::Arr(Box::new(inner))));
            }
            if named.name.as_utf16_str().eq_u16s(&obj) {
                let inner = get_inner_type(named)?;
                return Ok(Type::Generic(TGeneric::Obj(Box::new(inner))));
            }
            Err(unknown_type_error(type_source))
        },
        TypeSource::FnTypeSource(f) => {
            let mut args: Vec<Type> = Vec::new();
            let mut i: usize = 0;
            while i < f.args.len()
                invariant
                    *type_source == TypeSource::FnTypeSource(*f),
                    i <= f.args@.len(),
                    args@.len() == i,
                    sources_known(f.args@.take(i as int)),
                    all_denote(args@, f.args@.take(i as int)),
                decreases f.args@.len() - i,
            {
                proof {
                    assert(*f == (*type_source)->FnTypeSource_0);
                    assert(decreases_to!(*type_source => (*type_source)->FnTypeSource_0));
                    assert(decreases_to!(*f => f.args));
                    assert(decreases_to!(f.args => f.args@));
                    assert(decreases_to!(f.args@ => f.args@[i as int]));
                    assert(f.args@.take(i + 1).drop_last() =~= f.args@.take(i as int));
                    assert(f.args@.take(i + 1).last() == f.args@[i as int]);
                    lemma_first_unknown_prefix(f.args@, i as int);
                }
                let ghost before = args@;
                match get_type_by_source(&f.args[i]) {
                    Ok(t) => {
                        args.push(t);
                        assert(args@.drop_last() =~= before);
                    },
                    Err(e) => {
                        proof {
                            lemma_sources_known_prefix(f.args@, i as int + 1);
                        }
                        return Err(e);
                    },
                }
                i = i + 1;
            }
            assert(f.args@.take(f.args@.len() as int) =~= f.args@);
            let result = get_type_by_source(&f.result)?;
            Ok(Type::Fn(TFn { args, result: Box::new(result) }))
        },
    }
}

/// Once a prefix has an unknown name, so does every longer prefix.
proof fn lemma_sources_known_prefix(srcs: Seq<TypeSource>, n: int)
    requires
        0 <= n <= srcs.len(),
        !sources_known(srcs.take(n)),
    ensures
        !sources_known(srcs),
    decreases srcs.len() - n,
{
    if n < srcs.len() {
        assert(srcs.take(n + 1).drop_last() =~= srcs.take(n));
        lemma_sources_known_prefix(srcs, n + 1);
    } else {
        assert(srcs.take(n) =~= srcs);
    }
}

/// When the first `i` written types are known and the next one is not, the first unknown
/// name of the whole list is that of the next one.
proof fn lemma_first_unknown_prefix(srcs: Seq<TypeSource>, i: int)
    requires
        0 <= i < srcs.len(),
        sources_known(srcs.take(i)),
    ensures
        !source_known(srcs[i]) ==> first_unknown_of(srcs) == first_unknown(srcs[i]),
    decreases srcs.len() - i,
{
    if !source_known(srcs[i]) {
        lemma_first_unknown_extend(srcs, srcs.len() as int, i);
        assert(srcs.take(srcs.len() as int) =~= srcs);
    }
}

/// The first unknown name of a list whose first unknown entry is at `i` is that entry's.
proof fn lemma_first_unknown_extend(srcs: Seq<TypeSource>, n: int, i: int)
    requires
        0 <= i < n <= srcs.len(),
        sources_known(srcs.take(i)),
        !source_known(srcs[i]),
    ensures
        first_unknown_of(srcs.take(n)) == first_unknown(srcs[i]),
        !sources_known(srcs.take(n)),
    decreases n - i,
{
    if n == i + 1 {
        assert(srcs.take(n).drop_last() =~= srcs.take(i));
    } else {
        lemma_first_unknown_extend(srcs, n - 1, i);
        assert(srcs.take(n).drop_last() =~= srcs.take(n - 1));
    }
}

/// The parameter type of `arr` or `obj`: `any` when omitted.
fn get_inner_type(type_source: &NamedTypeSource) -> (r: EngineResult<Type>)
    ensures
        r is Ok <==> match type_source.inner {
            Some(inner) => source_known(*inner),
            None => true,
        },
        r matches Ok(ty) ==> inner_denotes(ty, type_source.inner),
        r matches Err(e) ==> type_source.inner matches Some(inner) && {
            &&& e.kind == AiScriptBasicErrorKind::Syntax
            &&& e.message@ == unknown_type_message(first_unknown(*inner))
            &&& e.pos == Some(first_unknown(*inner).loc_spec().start)
        },
    decreases type_source,
{
    match &type_source.inner {
        Some(inner) => get_type_by_source(inner),
        None => Ok(Type::Simple(TSimple::Any)),
    }
}

} // verus!
