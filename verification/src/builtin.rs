use vstd::prelude::*;

use crate::display::obj_display;
use crate::environment::{bindings_view, builtin_bindings, lemma_bindings_view_push};
use crate::eval_error::{ErrV, EvalError};
use crate::object::{
    dup_objs, lemma_objs_view, lemma_objs_view_push, objs_view, res_view, BuiltinKind, Object,
    ValueV,
};
use vstd::string::StringExecFns;
use vstd::string::StrSliceExecFns;

verus! {

/// The table of built-in functions, as name/value bindings for the root
/// environment.
pub fn get_builtin_fns() -> (r: Vec<(String, Object)>)
    ensures
        bindings_view(r@) == builtin_bindings(),
{
    let mut out: Vec<(String, Object)> = Vec::new();
    let e0 = build_builtin("len", BuiltinKind::Len);
    proof {
        lemma_bindings_view_push(out@, e0);
    }
    out.push(e0);
    let e1 = build_builtin("first", BuiltinKind::First);
    proof {
        lemma_bindings_view_push(out@, e1);
    }
    out.push(e1);
    let e2 = build_builtin("last", BuiltinKind::Last);
    proof {
        lemma_bindings_view_push(out@, e2);
    }
    out.push(e2);
    let e3 = build_builtin("rest", BuiltinKind::Rest);
    proof {
        lemma_bindings_view_push(out@, e3);
    }
    out.push(e3);
    let e4 = build_builtin("push", BuiltinKind::Push);
    proof {
        lemma_bindings_view_push(out@, e4);
    }
    out.push(e4);
    proof {
        assert(bindings_view(out@) =~= builtin_bindings());
    }
    out
}

/// One entry of the table.
fn build_builtin(key: &str, f: BuiltinKind) -> (r: (String, Object))
    ensures
        r.0@ == key@,
        r.1@ == ValueV::Builtin(f),
{
    (key.to_owned(), Object::Builtin(f))
}

/// An array length (or a string's byte length) as an `i64`; lengths beyond
/// `i64::MAX` cannot occur in memory, and the conversion pins them to
/// `i64::MAX` so that it is total anyway.
pub open spec fn len_as_i64(n: int) -> i64 {
    if n <= i64::MAX {
        n as i64
    } else {
        i64::MAX
    }
}

/// What `len` yields: the character count of a string, the element count
/// of an array, and an `InvalidOperation` error on everything else.
pub open spec fn spec_builtin_len(args: Seq<ValueV>) -> Result<ValueV, ErrV> {
    if args.len() != 1 {
        Err(ErrV::InvalidParamCount { expected: 1, actual: args.len() as int })
    } else {
        match args[0] {
            ValueV::Str(s) => Ok(ValueV::Int(len_as_i64(s.len() as int))),
            ValueV::Array(a) => Ok(ValueV::Int(len_as_i64(a.len() as int))),
            v => Err(ErrV::InvalidOperation { operation: "len"@, object_type: obj_display(v) }),
        }
    }
}

/// What `first` yields: the first element of a nonempty array.
pub open spec fn spec_builtin_first(args: Seq<ValueV>) -> Result<ValueV, ErrV> {
    if args.len() != 1 {
        Err(ErrV::InvalidParamCount { expected: 1, actual: args.len() as int })
    } else {
        match args[0] {
            ValueV::Array(a) => if a.len() == 0 {
                Err(ErrV::IndexOutOfBounds { index: 0, max: 0 })
            } else {
                Ok(a[0])
            },
            v => Err(ErrV::InvalidOperation { operation: "first"@, object_type: obj_display(v) }),
        }
    }
}

/// What `last` yields: the last element of a nonempty array.
pub open spec fn spec_builtin_last(args: Seq<ValueV>) -> Result<ValueV, ErrV> {
    if args.len() != 1 {
        Err(ErrV::InvalidParamCount { expected: 1, actual: args.len() as int })
    } else {
        match args[0] {
            ValueV::Array(a) => if a.len() == 0 {
                Err(ErrV::IndexOutOfBounds { index: 0, max: 0 })
            } else {
                Ok(a.last())
            },
            v => Err(ErrV::InvalidOperation { operation: "first"@, object_type: obj_display(v) }),
        }
    }
}

/// What `rest` yields: a new array holding everything but the first
/// element; the argument array itself is never changed.
pub open spec fn spec_builtin_rest(args: Seq<ValueV>) -> Result<ValueV, ErrV> {
    if args.len() != 1 {
        Err(ErrV::InvalidParamCount { expected: 1, actual: args.len() as int })
    } else {
        match args[0] {
            ValueV::Array(a) => if a.len() == 0 {
                Err(ErrV::IndexOutOfBounds { index: 0, max: 0 })
            } else {
                Ok(ValueV::Array(a.subrange(1, a.len() as int)))
            },
            v => Err(ErrV::InvalidOperation { operation: "first"@, object_type: obj_display(v) }),
        }
    }
}

/// What `push` yields: a new array equal to the first argument with the
/// second appended; the argument array itself is never changed.
pub open spec fn spec_builtin_push(args: Seq<ValueV>) -> Result<ValueV, ErrV> {
    if args.len() != 2 {
        Err(ErrV::InvalidParamCount { expected: 2, actual: args.len() as int })
    } else {
        match args[0] {
            ValueV::Array(a) => Ok(ValueV::Array(a.push(args[1]))),
            v => Err(ErrV::InvalidOperation { operation: "first"@, object_type: obj_display(v) }),
        }
    }
}

/// What a built-in call yields, by kind.
pub open spec fn spec_apply_builtin(k: BuiltinKind, args: Seq<ValueV>) -> Result<ValueV, ErrV> {
    match k {
        BuiltinKind::Len => spec_builtin_len(args),
        BuiltinKind::First => spec_builtin_first(args),
        BuiltinKind::Last => spec_builtin_last(args),
        BuiltinKind::Rest => spec_builtin_rest(args),
        BuiltinKind::Push => spec_builtin_push(args),
    }
}

/// Rejects a call with the wrong number of arguments.
fn validate_param_count(expected: usize, actual: usize) -> (r: Result<(), EvalError>)
    ensures
        match r {
            Ok(_) => expected == actual,
            Err(e) => expected != actual && e@ == (ErrV::InvalidParamCount {
                expected: expected as int,
                actual: actual as int,
            }),
        },
{
    if expected != actual {
        return Err(EvalError::InvalidParamCount { expected, actual });
    }
    Ok(())
}

/// Hands back a copy of the argument's array contents, or the error the
/// built-ins report for a non-array argument.
fn get_array(obj: &Object) -> (r: Result<Vec<Object>, EvalError>)
    ensures
        match r {
            Ok(v) => obj@ matches ValueV::Array(a) && objs_view(v@) == a,
            Err(e) => !(obj@ is Array) && e@ == (ErrV::InvalidOperation {
                operation: "first"@,
                object_type: obj_display(obj@),
            }),
        },
{
    if let Object::Array(a) = obj {
        Ok(dup_objs(a))
    } else {
        Err(
            EvalError::InvalidOperation {
                operation: "first".to_owned(),
                object_type: obj.render(),
            },
        )
    }
}

/// `len` on one argument.
fn builtin_len(vals: &Vec<Object>) -> (r: Result<Object, EvalError>)
    ensures
        res_view(r) == spec_builtin_len(objs_view(vals@)),
{
    proof {
        lemma_objs_view(vals@);
    }
    if let Err(e) = validate_param_count(1, vals.len()) {
        return Err(e);
    }
    match &vals[0] {
        Object::String(s) => {
            let n = s.as_str().unicode_len();
            let len: i64 = if (n as u64) > 0x7fff_ffff_ffff_ffffu64 {
                i64::MAX
            } else {
                n as i64
            };
            Ok(Object::Int(len))
        },
        Object::Array(a) => {
            let n = a.len();
            let len: i64 = if (n as u64) > 0x7fff_ffff_ffff_ffffu64 {
                i64::MAX
            } else {
                n as i64
            };
            proof {
                lemma_objs_view(a@);
            }
            Ok(Object::Int(len))
        },
        v => Err(
            EvalError::InvalidOperation { operation: "len".to_owned(), object_type: v.render() },
        ),
    }
}

/// `first` on one argument.
fn builtin_first(vals: &Vec<Object>) -> (r: Result<Object, EvalError>)
    ensures
        res_view(r) == spec_builtin_first(objs_view(vals@)),
{
    proof {
        lemma_objs_view(vals@);
    }
    if let Err(e) = validate_param_count(1, vals.len()) {
        return Err(e);
    }
    let arr = match get_array(&vals[0]) {
        Ok(a) => a,
        Err(e) => {
            return Err(e);
        },
    };
    proof {
        lemma_objs_view(arr@);
    }
    if arr.len() == 0 {
        return Err(EvalError::IndexOutOfBounds { index: 0, max: 0 });
    }
    Ok(arr[0].duplicate())
}

/// `last` on one argument.
fn builtin_last(vals: &Vec<Object>) -> (r: Result<Object, EvalError>)
    ensures
        res_view(r) == spec_builtin_last(objs_view(vals@)),
{
    proof {
        lemma_objs_view(vals@);
    }
    if let Err(e) = validate_param_count(1, vals.len()) {
        return Err(e);
    }
    let arr = match get_array(&vals[0]) {
        Ok(a) => a,
        Err(e) => {
            return Err(e);
        },
    };
    proof {
        lemma_objs_view(arr@);
    }
    if arr.len() == 0 {
        return Err(EvalError::IndexOutOfBounds { index: 0, max: 0 });
    }
    let n = arr.len();
    Ok(arr[n - 1].duplicate())
}

/// `rest` on one argument.
fn builtin_rest(vals: &Vec<Object>) -> (r: Result<Object, EvalError>)
    ensures
        res_view(r) == spec_builtin_rest(objs_view(vals@)),
{
    proof {
        lemma_objs_view(vals@);
    }
    if let Err(e) = validate_param_count(1, vals.len()) {
        return Err(e);
    }
    let arr = match get_array(&vals[0]) {
        Ok(a) => a,
        Err(e) => {
            return Err(e);
        },
    };
    proof {
        lemma_objs_view(arr@);
    }
    if arr.len() == 0 {
        return Err(EvalError::IndexOutOfBounds { index: 0, max: 0 });
    }
    let n = arr.len();
    let mut out: Vec<Object> = Vec::new();
    let mut i: usize = 1;
    while i < n
        invariant
            1 <= i <= n,
            n == arr@.len(),
            objs_view(out@) == objs_view(arr@).subrange(1, i as int),
            objs_view(arr@).len() == n,
            forall|k: int| 0 <= k < n ==> objs_view(arr@)[k] == obj_view_of(arr@, k),
        decreases n - i,
    {
        let e = arr[i].duplicate();
        proof {
            lemma_objs_view_push(out@, e);
            lemma_objs_view(arr@);
            assert(objs_view(arr@).subrange(1, i as int).push(objs_view(arr@)[i as int])
                =~= objs_view(arr@).subrange(1, i + 1));
        }
        out.push(e);
        i = i + 1;
    }
    proof {
        lemma_objs_view(arr@);
    }
    Ok(Object::Array(out))
}

/// The model of one element, by index; a helper for stating loop
/// invariants.
pub open spec fn obj_view_of(s: Seq<Object>, i: int) -> ValueV {
    crate::object::obj_view(s[i])
}

/// `push` on two arguments.
fn builtin_push(vals: &Vec<Object>) -> (r: Result<Object, EvalError>)
    ensures
        res_view(r) == spec_builtin_push(objs_view(vals@)),
{
    proof {
        lemma_objs_view(vals@);
    }
    if let Err(e) = validate_param_count(2, vals.len()) {
        return Err(e);
    }
    let mut arr = match get_array(&vals[0]) {
        Ok(a) => a,
        Err(e) => {
            return Err(e);
        },
    };
    let extra = vals[1].duplicate();
    proof {
        lemma_objs_view_push(arr@, extra);
    }
    arr.push(extra);
    Ok(Object::Array(arr))
}

/// Applies the built-in of the given kind to already-evaluated arguments.
/// Every built-in is pure: it reads its arguments and builds its result
/// afresh, so the argument values are left exactly as they were.
pub fn apply_builtin(k: BuiltinKind, vals: &Vec<Object>) -> (r: Result<Object, EvalError>)
    ensures
        res_view(r) == spec_apply_builtin(k, objs_view(vals@)),
{
    match k {
        BuiltinKind::Len => builtin_len(vals),
        BuiltinKind::First => builtin_first(vals),
        BuiltinKind::Last => builtin_last(vals),
        BuiltinKind::Rest => builtin_rest(vals),
        BuiltinKind::Push => builtin_push(vals),
    }
}

} // verus!
