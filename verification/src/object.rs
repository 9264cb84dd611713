use vstd::prelude::*;

use crate::ast::{dup_names, names_view, stmts_view, BlockStatement, Identifier, StmtV};
use crate::display::{i64_display, i64_render, obj_display};
use crate::eval_error::{ErrV, EvalError};
use vstd::string::StrSliceExecFns;
use vstd::string::StringExecFns;

verus! {

/// The native functions installed into the root environment.
#[derive(Debug, PartialEq, Eq, Clone, Copy)]
pub enum BuiltinKind {
    Len,
    First,
    Last,
    Rest,
    Push,
}

/// A runtime value.  `Return` is an internal control signal used to unwind
/// a block early and never escapes to user code; a `Function` captures its
/// parameter names, its body, and the index of the environment scope it was
/// defined in.
#[derive(Debug, PartialEq, Default)]
pub enum Object {
    #[default]
    Null,
    String(String),
    Int(i64),
    Bool(bool),
    Return(Box<Object>),
    Function(Vec<Identifier>, BlockStatement, usize),
    Builtin(BuiltinKind),
    Array(Vec<Object>),
    Hash(Vec<(HashKey, HashPair)>),
}

/// The 64-bit digest under which a hash entry is stored.
#[derive(Debug, PartialEq, Eq, Hash, Clone, Copy)]
pub struct HashKey {
    key: u64,
}

impl View for HashKey {
    type V = u64;

    closed spec fn view(&self) -> u64 {
        self.key
    }
}

impl From<u64> for HashKey {
    fn from(value: u64) -> (r: Self) {
        HashKey { key: value }
    }
}

impl vstd::std_specs::convert::FromSpecImpl<u64> for HashKey {
    closed spec fn obeys_from_spec() -> bool {
        true
    }

    closed spec fn from_spec(value: u64) -> Self {
        HashKey { key: value }
    }
}

/// `HashKey::from` wraps the digest it is given.
pub broadcast proof fn lemma_hash_key_from(value: u64)
    ensures
        #[trigger] <HashKey as vstd::std_specs::convert::FromSpec<u64>>::from_spec(value)@
            == value,
        <HashKey as vstd::std_specs::convert::FromSpec<u64>>::obeys_from_spec(),
{
}

impl HashKey {
    /// The digest as a plain integer.
    pub fn value(&self) -> (r: u64)
        ensures
            r == self@,
    {
        self.key
    }
}

/// One hash entry: the key value as written, and the mapped value.
#[derive(Debug, PartialEq)]
pub struct HashPair {
    pub key: Object,
    pub value: Object,
}

/// The comparison operators of the language.
#[derive(Debug, PartialEq, Eq, Clone, Copy)]
pub enum ObjectComparison {
    GreaterThan,
    GreaterThanEqual,
    LessThan,
    LessThanEqual,
    Equal,
    NotEqual,
}

/// The mathematical model of an [`Object`]: strings are character
/// sequences, collections are `Seq`s, and a hash is the sequence of its
/// entries as `(digest, key, value)` triples in insertion order.
pub enum ValueV {
    Null,
    Str(Seq<char>),
    Int(i64),
    Bool(bool),
    Return(Box<ValueV>),
    Function(Seq<Seq<char>>, Seq<StmtV>, int),
    Builtin(BuiltinKind),
    Array(Seq<ValueV>),
    Hash(Seq<(u64, ValueV, ValueV)>),
}

/// The model of a value.
pub open spec fn obj_view(o: Object) -> ValueV
    decreases o,
{
    match o {
        Object::Null => ValueV::Null,
        Object::String(s) => ValueV::Str(s@),
        Object::Int(i) => ValueV::Int(i),
        Object::Bool(b) => ValueV::Bool(b),
        Object::Return(inner) => ValueV::Return(Box::new(obj_view(*inner))),
        Object::Function(params, body, env) => ValueV::Function(
            names_view(params@),
            stmts_view(body.statements@),
            env as int,
        ),
        Object::Builtin(k) => ValueV::Builtin(k),
        Object::Array(v) => ValueV::Array(objs_view(v@)),
        Object::Hash(entries) => ValueV::Hash(hash_entries_view(entries@)),
    }
}

/// The model of a sequence of values, element by element.
pub open spec fn objs_view(s: Seq<Object>) -> Seq<ValueV>
    decreases s,
{
    if s.len() == 0 {
        Seq::empty()
    } else {
        objs_view(s.drop_last()).push(obj_view(s.last()))
    }
}

/// The model of a sequence of hash entries.
pub open spec fn hash_entries_view(s: Seq<(HashKey, HashPair)>) -> Seq<(u64, ValueV, ValueV)>
    decreases s,
{
    if s.len() == 0 {
        Seq::empty()
    } else {
        hash_entries_view(s.drop_last()).push(
            (s.last().0@, obj_view(s.last().1.key), obj_view(s.last().1.value)),
        )
    }
}

/// `objs_view` maps the sequence element by element.
pub proof fn lemma_objs_view(s: Seq<Object>)
    ensures
        objs_view(s).len() == s.len(),
        forall|i: int| 0 <= i < s.len() ==> objs_view(s)[i] == obj_view(s[i]),
    decreases s.len(),
{
    if s.len() > 0 {
        lemma_objs_view(s.drop_last());
    }
}

/// Appending one value appends its model.
pub proof fn lemma_objs_view_push(s: Seq<Object>, x: Object)
    ensures
        objs_view(s.push(x)) == objs_view(s).push(obj_view(x)),
{
    assert(s.push(x).drop_last() =~= s);
    assert(s.push(x).last() == x);
}

/// `hash_entries_view` maps the sequence entry by entry.
pub proof fn lemma_hash_entries_view(s: Seq<(HashKey, HashPair)>)
    ensures
        hash_entries_view(s).len() == s.len(),
        forall|i: int| 0 <= i < s.len() ==> hash_entries_view(s)[i] == (
            s[i].0@,
            obj_view(s[i].1.key),
            obj_view(s[i].1.value),
        ),
    decreases s.len(),
{
    if s.len() > 0 {
        lemma_hash_entries_view(s.drop_last());
    }
}

/// Appending one entry appends its model.
pub proof fn lemma_hash_entries_view_push(s: Seq<(HashKey, HashPair)>, x: (HashKey, HashPair))
    ensures
        hash_entries_view(s.push(x)) == hash_entries_view(s).push(
            (x.0@, obj_view(x.1.key), obj_view(x.1.value)),
        ),
{
    assert(s.push(x).drop_last() =~= s);
    assert(s.push(x).last() == x);
}

impl View for Object {
    type V = ValueV;

    open spec fn view(&self) -> ValueV {
        obj_view(*self)
    }
}

/// Truthiness on the model: only `false` and `Null` are falsy.
pub open spec fn spec_truthy(v: ValueV) -> bool {
    match v {
        ValueV::Bool(b) => b,
        ValueV::Null => false,
        _ => true,
    }
}

impl Object {
    /// Only `Bool(false)` and `Null` are falsy; every other value,
    /// including `Int(0)`, the empty string and the empty array, is truthy.
    pub fn is_truthy(&self) -> (r: bool)
        ensures
            r == spec_truthy(self@),
    {
        match self {
            Object::Bool(b) => *b,
            Object::Null => false,
            _ => true,
        }
    }

    /// A structural copy with the same model; hand-written so verified
    /// callers know the value is preserved.
    pub fn duplicate(&self) -> (r: Object)
        ensures
            r@ == self@,
        decreases self,
    {
        match self {
            Object::Null => Object::Null,
            Object::String(s) => Object::String(s.clone()),
            Object::Int(i) => Object::Int(*i),
            Object::Bool(b) => Object::Bool(*b),
            Object::Return(inner) => Object::Return(Box::new(inner.duplicate())),
            Object::Function(params, body, env) => Object::Function(
                dup_names(params),
                body.duplicate(),
                *env,
            ),
            Object::Builtin(k) => Object::Builtin(*k),
            Object::Array(v) => Object::Array(dup_objs(v)),
            Object::Hash(entries) => Object::Hash(dup_hash_entries(entries)),
        }
    }
}

/// A copy of a value vector with the same element models.
pub fn dup_objs(v: &Vec<Object>) -> (r: Vec<Object>)
    ensures
        objs_view(r@) == objs_view(v@),
    decreases v,
{
    let mut out: Vec<Object> = Vec::new();
    let n = v.len();
    let mut i: usize = 0;
    while i < n
        invariant
            i <= n,
            n == v.len(),
            objs_view(out@) == objs_view(v@.subrange(0, i as int)),
        decreases n - i,
    {
        proof {
            assert(decreases_to!(v => v@));
            assert(decreases_to!(v@ => v@[i as int]));
        }
        let e = v[i].duplicate();
        proof {
            lemma_objs_view_push(out@, e);
            lemma_objs_view_push(v@.subrange(0, i as int), v@[i as int]);
            assert(v@.subrange(0, i as int).push(v@[i as int]) =~= v@.subrange(0, i + 1));
        }
        out.push(e);
        i = i + 1;
    }
    proof {
        assert(v@.subrange(0, n as int) =~= v@);
    }
    out
}

/// A copy of a hash entry vector with the same entry models.
pub fn dup_hash_entries(v: &Vec<(HashKey, HashPair)>) -> (r: Vec<(HashKey, HashPair)>)
    ensures
        hash_entries_view(r@) == hash_entries_view(v@),
    decreases v,
{
    let mut out: Vec<(HashKey, HashPair)> = Vec::new();
    let n = v.len();
    let mut i: usize = 0;
    while i < n
        invariant
            i <= n,
            n == v.len(),
            hash_entries_view(out@) == hash_entries_view(v@.subrange(0, i as int)),
        decreases n - i,
    {
        proof {
            assert(decreases_to!(v => v@));
            assert(decreases_to!(v@ => v@[i as int]));
            assert(decreases_to!(v@[i as int] => v@[i as int].1));
            assert(decreases_to!(v@[i as int].1 => v@[i as int].1.key));
            assert(decreases_to!(v@[i as int].1 => v@[i as int].1.value));
        }
        let hk = v[i].0;
        let k = v[i].1.key.duplicate();
        let val = v[i].1.value.duplicate();
        let entry = (hk, HashPair { key: k, value: val });
        proof {
            lemma_hash_entries_view_push(out@, entry);
            lemma_hash_entries_view_push(v@.subrange(0, i as int), v@[i as int]);
            assert(v@.subrange(0, i as int).push(v@[i as int]) =~= v@.subrange(0, i + 1));
        }
        out.push(entry);
        i = i + 1;
    }
    proof {
        assert(v@.subrange(0, n as int) =~= v@);
    }
    out
}

/// How a `Result` of evaluation looks in the model.
pub open spec fn res_view(r: Result<Object, EvalError>) -> Result<ValueV, ErrV> {
    match r {
        Ok(o) => Ok(o@),
        Err(e) => Err(e@),
    }
}

/// The FNV-1a offset basis.
pub open spec fn fnv_basis() -> u64 {
    0xcbf29ce484222325
}

/// One FNV-1a step: fold a byte into the digest.
pub open spec fn fnv_step(h: u64, b: u8) -> u64 {
    vstd::wrapping::u64_specs::wrapping_mul(h ^ (b as u64), 0x100000001b3)
}

/// FNV-1a over a byte sequence, starting from digest `h`.
pub open spec fn fnv_from(h: u64, bytes: Seq<u8>) -> u64
    decreases bytes.len(),
{
    if bytes.len() == 0 {
        h
    } else {
        fnv_from(fnv_step(h, bytes[0]), bytes.drop_first())
    }
}

/// Folding one leading byte first.
pub proof fn lemma_fnv_from_cons(h: u64, b: u8, rest: Seq<u8>)
    ensures
        fnv_from(h, seq![b] + rest) == fnv_from(fnv_step(h, b), rest),
{
    let s = seq![b] + rest;
    assert(s.len() >= 1);
    assert(s[0] == b);
    assert(s.drop_first() =~= rest);
}

/// The little-endian bytes of `u`, `n` bytes long.
pub open spec fn le_bytes(u: u64, n: nat) -> Seq<u8>
    decreases n,
{
    if n == 0 {
        Seq::empty()
    } else {
        seq![(u % 256) as u8] + le_bytes(u / 256, (n - 1) as nat)
    }
}

/// The two's-complement image of an `i64` in a `u64`.
pub open spec fn i64_to_u64(i: i64) -> u64 {
    if i >= 0 {
        i as u64
    } else {
        (i + 0x1_0000_0000_0000_0000) as u64
    }
}

/// The digest a value hashes to, or the error for an unhashable kind: the
/// FNV-1a hash of four zero bytes for `Null`, of a single `1` or `0` byte
/// for a boolean, of the eight little-endian two's-complement bytes for an
/// integer, and of the UTF-8 bytes for a string.
pub open spec fn spec_hash_key(v: ValueV) -> Result<u64, ErrV> {
    match v {
        ValueV::Null => Ok(fnv_from(fnv_basis(), le_bytes(0, 4))),
        ValueV::Str(s) => Ok(fnv_from(fnv_basis(), vstd::utf8::encode_utf8(s))),
        ValueV::Int(i) => Ok(fnv_from(fnv_basis(), le_bytes(i64_to_u64(i), 8))),
        ValueV::Bool(b) => Ok(fnv_from(fnv_basis(), if b { seq![1u8] } else { seq![0u8] })),
        _ => Err(ErrV::InvalidHashKeyType(obj_display(v))),
    }
}

/// One FNV-1a step, executably.
fn fnv_step_exec(h: u64, b: u8) -> (r: u64)
    ensures
        r == fnv_step(h, b),
{
    (h ^ (b as u64)).wrapping_mul(0x100000001b3)
}

/// FNV-1a over a byte slice.
fn fnv_over_bytes(bytes: &[u8]) -> (r: u64)
    ensures
        r == fnv_from(fnv_basis(), bytes@),
{
    let mut h: u64 = 0xcbf29ce484222325;
    let n = bytes.len();
    proof {
        assert(bytes@.subrange(0, n as int) =~= bytes@);
    }
    let mut i: usize = 0;
    while i < n
        invariant
            i <= n,
            n == bytes@.len(),
            fnv_from(fnv_basis(), bytes@) == fnv_from(h, bytes@.subrange(i as int, n as int)),
        decreases n - i,
    {
        let b = bytes[i];
        proof {
            let tail = bytes@.subrange(i as int, n as int);
            assert(tail[0] == b);
            assert(tail.drop_first() =~= bytes@.subrange(i + 1, n as int));
        }
        h = fnv_step_exec(h, b);
        i = i + 1;
    }
    proof {
        assert(bytes@.subrange(n as int, n as int) =~= Seq::<u8>::empty());
    }
    h
}

/// FNV-1a over the `n` low little-endian bytes of `u`.
fn fnv_over_le_bytes(u: u64, n: usize) -> (r: u64)
    ensures
        r == fnv_from(fnv_basis(), le_bytes(u, n as nat)),
{
    let mut h: u64 = 0xcbf29ce484222325;
    let mut acc: u64 = u;
    let mut j: usize = 0;
    while j < n
        invariant
            j <= n,
            fnv_from(fnv_basis(), le_bytes(u, n as nat)) == fnv_from(
                h,
                le_bytes(acc, (n - j) as nat),
            ),
        decreases n - j,
    {
        let b: u8 = (acc % 256) as u8;
        proof {
            lemma_fnv_from_cons(h, b, le_bytes(acc / 256, (n - j - 1) as nat));
        }
        h = fnv_step_exec(h, b);
        acc = acc / 256;
        j = j + 1;
    }
    h
}

impl Object {
    /// The digest under which this value may serve as a hash key; only
    /// `Null`, booleans, integers and strings are hashable, and any other
    /// kind is rejected with `InvalidHashKeyType`.
    pub fn hash_key(&self) -> (r: Result<HashKey, EvalError>)
        ensures
            match r {
                Ok(k) => spec_hash_key(self@) == Ok::<u64, ErrV>(k@),
                Err(e) => spec_hash_key(self@) == Err::<u64, ErrV>(e@),
            },
    {
        match self {
            Object::Null => Ok(HashKey::from(fnv_over_le_bytes(0, 4))),
            Object::String(s) => Ok(HashKey::from(fnv_over_bytes(s.as_str().as_bytes()))),
            Object::Int(i) => {
                let u: u64 = if *i >= 0 {
                    *i as u64
                } else {
                    let pos: u64 = (-(*i + 1)) as u64;
                    u64::MAX - pos
                };
                proof {
                    assert(u == i64_to_u64(*i));
                }
                Ok(HashKey::from(fnv_over_le_bytes(u, 8)))
            },
            Object::Bool(b) => {
                let byte: u64 = if *b { 1 } else { 0 };
                proof {
                    reveal_with_fuel(le_bytes, 3);
                    assert(le_bytes(1, 1) =~= seq![1u8]);
                    assert(le_bytes(0, 1) =~= seq![0u8]);
                }
                Ok(HashKey::from(fnv_over_le_bytes(byte, 1)))
            },
            k => Err(EvalError::InvalidHashKeyType(k.render())),
        }
    }
}

/// The magnitude of an `i64` as a `u64`.
fn abs_u64(i: i64) -> (r: u64)
    ensures
        r == if i >= 0 { i as int } else { -(i as int) },
{
    if i >= 0 {
        i as u64
    } else {
        ((-(i + 1)) as u64) + 1
    }
}

/// Truncated (round-toward-zero) division on the mathematical integers.
pub open spec fn trunc_div(a: int, b: int) -> int {
    let q = (if a >= 0 { a } else { -a }) / (if b >= 0 { b } else { -b });
    if (a < 0) != (b < 0) {
        -q
    } else {
        q
    }
}

/// What `/` yields on two `i64` values: truncated division, except that the
/// one overflowing case wraps to `i64::MIN`.
pub open spec fn i64_div_wrap(a: i64, b: i64) -> int {
    if a == i64::MIN && b == -1 {
        i64::MIN as int
    } else {
        trunc_div(a as int, b as int)
    }
}

/// Truncated division of two `i64` values, with the lone overflow case
/// wrapping.
fn div_i64(l: i64, r: i64) -> (q: i64)
    requires
        r != 0,
    ensures
        q == i64_div_wrap(l, r),
{
    if l == i64::MIN && r == -1 {
        return i64::MIN;
    }
    let neg = (l < 0) != (r < 0);
    let la = abs_u64(l);
    let rb = abs_u64(r);
    let qa: u64 = la / rb;
    if neg {
        if qa == 9223372036854775808 {
            proof {
                assert(i64_div_wrap(l, r) == i64::MIN as int);
            }
            i64::MIN
        } else {
            proof {
                assert(qa <= 0x8000_0000_0000_0000);
            }
            -(qa as i64)
        }
    } else {
        proof {
            assert(la / rb <= la) by (nonlinear_arith)
                requires rb >= 1;
            if la == 0x8000_0000_0000_0000 {
                assert(rb >= 2);
                assert(la / rb <= la / 2) by (nonlinear_arith)
                    requires rb >= 2 && la >= 0;
            }
            assert(qa <= 0x7fff_ffff_ffff_ffff);
        }
        qa as i64
    }
}

/// What `+` yields: integer addition (wrapping), string concatenation, a
/// `TypeMismatch` when only the left side is an integer, and
/// `InvalidOperator` otherwise.
pub open spec fn spec_add(l: ValueV, r: ValueV) -> Result<ValueV, ErrV> {
    match (l, r) {
        (ValueV::Int(a), ValueV::Int(b)) => Ok(
            ValueV::Int(vstd::wrapping::i64_specs::wrapping_add(a, b)),
        ),
        (ValueV::Str(a), ValueV::Str(b)) => Ok(ValueV::Str(a + b)),
        (ValueV::Int(a), rv) => Err(ErrV::TypeMismatch(i64_display(a), obj_display(rv))),
        (lv, rv) => Err(ErrV::InvalidOperator(obj_display(lv), "+"@, obj_display(rv))),
    }
}

/// What `-` yields: integer subtraction (wrapping), or the matching error.
pub open spec fn spec_sub(l: ValueV, r: ValueV) -> Result<ValueV, ErrV> {
    match (l, r) {
        (ValueV::Int(a), ValueV::Int(b)) => Ok(
            ValueV::Int(vstd::wrapping::i64_specs::wrapping_sub(a, b)),
        ),
        (ValueV::Int(a), rv) => Err(ErrV::TypeMismatch(i64_display(a), obj_display(rv))),
        (lv, rv) => Err(ErrV::InvalidOperator(obj_display(lv), "-"@, obj_display(rv))),
    }
}

/// What `*` yields: integer multiplication (wrapping), or the matching
/// error.
pub open spec fn spec_mul(l: ValueV, r: ValueV) -> Result<ValueV, ErrV> {
    match (l, r) {
        (ValueV::Int(a), ValueV::Int(b)) => Ok(
            ValueV::Int(vstd::wrapping::i64_specs::wrapping_mul(a, b)),
        ),
        (ValueV::Int(a), rv) => Err(ErrV::TypeMismatch(i64_display(a), obj_display(rv))),
        (lv, rv) => Err(ErrV::InvalidOperator(obj_display(lv), "*"@, obj_display(rv))),
    }
}

/// What `/` yields: truncated integer division; division by zero has no
/// defined semantics and is reported as `InvalidOperator`.
pub open spec fn spec_div(l: ValueV, r: ValueV) -> Result<ValueV, ErrV> {
    match (l, r) {
        (ValueV::Int(a), ValueV::Int(b)) => if b == 0 {
            Err(ErrV::InvalidOperator(i64_display(a), "/"@, i64_display(b)))
        } else {
            Ok(ValueV::Int(i64_div_wrap(a, b) as i64))
        },
        (ValueV::Int(a), rv) => Err(ErrV::TypeMismatch(i64_display(a), obj_display(rv))),
        (lv, rv) => Err(ErrV::InvalidOperator(obj_display(lv), "/"@, obj_display(rv))),
    }
}

impl Object {
    /// Addition: defined for two integers and for two strings.
    pub fn add(&self, rhs: &Object) -> (r: Result<Object, EvalError>)
        ensures
            res_view(r) == spec_add(self@, rhs@),
    {
        match (self, rhs) {
            (Object::Int(l), Object::Int(r2)) => Ok(Object::Int(l.wrapping_add(*r2))),
            (Object::String(l), Object::String(r2)) => Ok(
                Object::String(l.clone().concat(r2.as_str())),
            ),
            (Object::Int(l), rhs2) => Err(EvalError::TypeMismatch(i64_render(*l), rhs2.render())),
            (lhs, rhs2) => Err(
                EvalError::InvalidOperator(lhs.render(), "+".to_owned(), rhs2.render()),
            ),
        }
    }

    /// Subtraction: defined for two integers only.
    pub fn sub(&self, rhs: &Object) -> (r: Result<Object, EvalError>)
        ensures
            res_view(r) == spec_sub(self@, rhs@),
    {
        match (self, rhs) {
            (Object::Int(l), Object::Int(r2)) => Ok(Object::Int(l.wrapping_sub(*r2))),
            (Object::Int(l), rhs2) => Err(EvalError::TypeMismatch(i64_render(*l), rhs2.render())),
            (lhs, rhs2) => Err(
                EvalError::InvalidOperator(lhs.render(), "-".to_owned(), rhs2.render()),
            ),
        }
    }

    /// Multiplication: defined for two integers only.
    pub fn mul(&self, rhs: &Object) -> (r: Result<Object, EvalError>)
        ensures
            res_view(r) == spec_mul(self@, rhs@),
    {
        match (self, rhs) {
            (Object::Int(l), Object::Int(r2)) => Ok(Object::Int(l.wrapping_mul(*r2))),
            (Object::Int(l), rhs2) => Err(EvalError::TypeMismatch(i64_render(*l), rhs2.render())),
            (lhs, rhs2) => Err(
                EvalError::InvalidOperator(lhs.render(), "*".to_owned(), rhs2.render()),
            ),
        }
    }

    /// Division: defined for two integers with a nonzero divisor.
    pub fn div(&self, rhs: &Object) -> (r: Result<Object, EvalError>)
        ensures
            res_view(r) == spec_div(self@, rhs@),
    {
        match (self, rhs) {
            (Object::Int(l), Object::Int(r2)) => if *r2 == 0 {
                Err(EvalError::InvalidOperator(i64_render(*l), "/".to_owned(), i64_render(*r2)))
            } else {
                Ok(Object::Int(div_i64(*l, *r2)))
            },
            (Object::Int(l), rhs2) => Err(EvalError::TypeMismatch(i64_render(*l), rhs2.render())),
            (lhs, rhs2) => Err(
                EvalError::InvalidOperator(lhs.render(), "/".to_owned(), rhs2.render()),
            ),
        }
    }
}

/// The rendering of a comparison operator.
pub open spec fn comp_display(c: ObjectComparison) -> Seq<char> {
    match c {
        ObjectComparison::GreaterThan => ">"@,
        ObjectComparison::GreaterThanEqual => ">="@,
        ObjectComparison::LessThan => "<"@,
        ObjectComparison::LessThanEqual => "<="@,
        ObjectComparison::Equal => "=="@,
        ObjectComparison::NotEqual => "!="@,
    }
}

/// What a comparison yields.  Ordering comparisons are defined between two
/// integers only; equality is structural across matching kinds
/// (`Bool`/`Bool`, `String`/`String`, `Int`/`Int`, `Null`/`Null`), and
/// comparing mismatched kinds is an error rather than `false`.
pub open spec fn spec_compare(l: ValueV, r: ValueV, comp: ObjectComparison) -> Result<
    ValueV,
    ErrV,
> {
    match comp {
        ObjectComparison::GreaterThan | ObjectComparison::GreaterThanEqual
            | ObjectComparison::LessThan | ObjectComparison::LessThanEqual => match (l, r) {
            (ValueV::Int(a), ValueV::Int(b)) => Ok(
                ValueV::Bool(
                    match comp {
                        ObjectComparison::GreaterThan => a > b,
                        ObjectComparison::GreaterThanEqual => a >= b,
                        ObjectComparison::LessThan => a < b,
                        ObjectComparison::LessThanEqual => a <= b,
                        _ => false,
                    },
                ),
            ),
            (lv, rv) => Err(
                ErrV::InvalidOperator(obj_display(lv), comp_display(comp), obj_display(rv)),
            ),
        },
        ObjectComparison::Equal | ObjectComparison::NotEqual => match (l, r) {
            (ValueV::Bool(a), ValueV::Bool(b)) => Ok(
                ValueV::Bool(if comp is NotEqual { a != b } else { a == b }),
            ),
            (ValueV::Str(a), ValueV::Str(b)) => Ok(
                ValueV::Bool(if comp is NotEqual { a != b } else { a == b }),
            ),
            (ValueV::Int(a), ValueV::Int(b)) => Ok(
                ValueV::Bool(if comp is NotEqual { a != b } else { a == b }),
            ),
            (ValueV::Null, ValueV::Null) => Ok(ValueV::Bool(!(comp is NotEqual))),
            (lv, rv) => Err(
                ErrV::InvalidOperator(obj_display(lv), comp_display(comp), obj_display(rv)),
            ),
        },
    }
}

impl ObjectComparison {
    /// The operator as source text.
    pub fn render(&self) -> (r: String)
        ensures
            r@ == comp_display(*self),
    {
        match self {
            ObjectComparison::GreaterThan => ">".to_owned(),
            ObjectComparison::GreaterThanEqual => ">=".to_owned(),
            ObjectComparison::LessThan => "<".to_owned(),
            ObjectComparison::LessThanEqual => "<=".to_owned(),
            ObjectComparison::Equal => "==".to_owned(),
            ObjectComparison::NotEqual => "!=".to_owned(),
        }
    }
}

impl Object {
    /// Applies a comparison operator to two values.
    pub fn eval_obj_comparison(left: &Object, right: &Object, comp: ObjectComparison) -> (r:
        Result<Object, EvalError>)
        ensures
            res_view(r) == spec_compare(left@, right@, comp),
    {
        match comp {
            ObjectComparison::GreaterThan | ObjectComparison::GreaterThanEqual
                | ObjectComparison::LessThan | ObjectComparison::LessThanEqual => {
                match (left, right) {
                    (Object::Int(a), Object::Int(b)) => {
                        let res = match comp {
                            ObjectComparison::GreaterThan => *a > *b,
                            ObjectComparison::GreaterThanEqual => *a >= *b,
                            ObjectComparison::LessThan => *a < *b,
                            ObjectComparison::LessThanEqual => *a <= *b,
                            _ => false,
                        };
                        Ok(Object::Bool(res))
                    },
                    (lv, rv) => Err(
                        EvalError::InvalidOperator(lv.render(), comp.render(), rv.render()),
                    ),
                }
            },
            ObjectComparison::Equal | ObjectComparison::NotEqual => {
                let flip = matches!(comp, ObjectComparison::NotEqual);
                match (left, right) {
                    (Object::Bool(a), Object::Bool(b)) => {
                        let eq = *a == *b;
                        Ok(Object::Bool(if flip { !eq } else { eq }))
                    },
                    (Object::String(a), Object::String(b)) => {
                        let eq = *a == *b;
                        Ok(Object::Bool(if flip { !eq } else { eq }))
                    },
                    (Object::Int(a), Object::Int(b)) => {
                        let eq = *a == *b;
                        Ok(Object::Bool(if flip { !eq } else { eq }))
                    },
                    (Object::Null, Object::Null) => Ok(Object::Bool(!flip)),
                    (lv, rv) => Err(
                        EvalError::InvalidOperator(lv.render(), comp.render(), rv.render()),
                    ),
                }
            },
        }
    }
}

impl From<i64> for Object {
    fn from(v: i64) -> (r: Self) {
        Object::Int(v)
    }
}

impl vstd::std_specs::convert::FromSpecImpl<i64> for Object {
    open spec fn obeys_from_spec() -> bool {
        true
    }

    open spec fn from_spec(v: i64) -> Self {
        Object::Int(v)
    }
}

impl From<bool> for Object {
    fn from(v: bool) -> (r: Self) {
        Object::Bool(v)
    }
}

impl vstd::std_specs::convert::FromSpecImpl<bool> for Object {
    open spec fn obeys_from_spec() -> bool {
        true
    }

    open spec fn from_spec(v: bool) -> Self {
        Object::Bool(v)
    }
}

impl<'a> From<&'a str> for Object {
    fn from(s: &'a str) -> (r: Self) {
        Object::String(s.to_owned())
    }
}

impl<'a> vstd::std_specs::convert::FromSpecImpl<&'a str> for Object {
    open spec fn obeys_from_spec() -> bool {
        false
    }

    open spec fn from_spec(s: &'a str) -> Self {
        Object::String(choose|o: String| o@ == s@)
    }
}

} // verus!
