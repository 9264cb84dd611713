use vstd::prelude::*;

use crate::ast::{
    expr_size, exprs_size, exprs_view, lemma_exprs_size_elem, lemma_exprs_view,
    lemma_pairs_size_elem, lemma_pairs_view, lemma_stmts_size_elem, lemma_stmts_view, pairs_size,
    pairs_view, stmt_size, stmts_size, stmts_view, BlockStatement, Expression, ExprV, Program,
    Statement, StmtV,
};
use crate::builtin::{apply_builtin, len_as_i64, spec_apply_builtin};
use crate::display::{obj_display, token_display};
use crate::environment::{
    env_lookup, env_set, env_wf, lemma_env_push_wf, lemma_env_set_wf, Environment, ScopeV,
};
use crate::eval_error::{ErrV, EvalError};
use crate::node::{Node, NodeV};
use crate::object::{
    dup_objs, lemma_objs_view, lemma_objs_view_push, objs_view, res_view, spec_add, spec_compare,
    spec_div, spec_hash_key, spec_mul, spec_sub, spec_truthy, HashKey, HashPair, Object,
    ObjectComparison, ValueV,
};

verus! {

/// The recursion budget the plain entry points give the evaluator: user
/// programs nested deeper than this many function calls are cut off with a
/// `RecursionLimitReached` error instead of exhausting the host stack.
pub const EVAL_FUEL: u64 = 1024;

/// What unary minus yields on an integer: negation, with the one
/// overflowing case wrapping.
pub open spec fn i64_neg_wrap(i: i64) -> i64 {
    if i == i64::MIN {
        i64::MIN
    } else {
        (-(i as int)) as i64
    }
}

/// The first position holding digest `d`, or the sequence's length when no
/// entry holds it.
pub open spec fn hash_index_of(entries: Seq<(u64, ValueV, ValueV)>, d: u64) -> int
    decreases entries.len(),
{
    if entries.len() == 0 {
        0
    } else if entries[0].0 == d {
        0
    } else {
        1 + hash_index_of(entries.drop_first(), d)
    }
}

/// `hash_index_of` is the first matching position.
pub proof fn lemma_hash_index_of(entries: Seq<(u64, ValueV, ValueV)>, d: u64)
    ensures
        0 <= hash_index_of(entries, d) <= entries.len(),
        hash_index_of(entries, d) < entries.len() ==> entries[hash_index_of(entries, d)].0 == d,
        forall|k: int| 0 <= k < hash_index_of(entries, d) ==> entries[k].0 != d,
    decreases entries.len(),
{
    if entries.len() > 0 && entries[0].0 != d {
        lemma_hash_index_of(entries.drop_first(), d);
        let i = hash_index_of(entries, d);
        if i < entries.len() {
            assert(entries[i] == entries.drop_first()[i - 1]);
        }
        assert forall|k: int| 0 <= k < i implies entries[k].0 != d by {
            if k > 0 {
                assert(entries[k] == entries.drop_first()[k - 1]);
            }
        }
    }
}

/// The entries after `key`/`value` are stored under digest `d`: an entry
/// with an equal digest is overwritten in place, otherwise the new entry
/// goes at the end.
pub open spec fn hash_insert(
    entries: Seq<(u64, ValueV, ValueV)>,
    d: u64,
    key: ValueV,
    value: ValueV,
) -> Seq<(u64, ValueV, ValueV)> {
    let i = hash_index_of(entries, d);
    if i < entries.len() {
        entries.update(i, (d, key, value))
    } else {
        entries.push((d, key, value))
    }
}

/// The value stored under digest `d`, if any.
pub open spec fn hash_find(entries: Seq<(u64, ValueV, ValueV)>, d: u64) -> Option<ValueV> {
    let i = hash_index_of(entries, d);
    if i < entries.len() {
        Some(entries[i].2)
    } else {
        None
    }
}

/// What a hash index access yields: the stored value, or `Null` for a
/// missing key (a miss is not an error).
pub open spec fn spec_hash_lookup_value(entries: Seq<(u64, ValueV, ValueV)>, d: u64) -> ValueV {
    match hash_find(entries, d) {
        Some(v) => v,
        None => ValueV::Null,
    }
}

/// What an array index access yields: the element for an index inside
/// `[0, len)`, and an index-out-of-bounds error for any other integer,
/// negative indices included.
pub open spec fn spec_index_of_array(a: Seq<ValueV>, i: i64) -> Result<ValueV, ErrV> {
    if i < 0 || i >= a.len() {
        Err(ErrV::IndexOutOfBounds { index: i, max: len_as_i64(a.len() as int) })
    } else {
        Ok(a[i as int])
    }
}

/// Binds parameter names to argument values in order, later bindings
/// overwriting earlier ones of the same name.
pub open spec fn bind_params(
    b: Seq<(Seq<char>, ValueV)>,
    params: Seq<Seq<char>>,
    vals: Seq<ValueV>,
) -> Seq<(Seq<char>, ValueV)>
    decreases params.len(),
{
    if params.len() == 0 || vals.len() == 0 {
        b
    } else {
        bind_params(
            crate::environment::assoc_set(b, params[0], vals[0]),
            params.drop_first(),
            vals.drop_first(),
        )
    }
}

/// What an infix operator yields on two evaluated operands: arithmetic via
/// the rules of the value model, comparisons via structural comparison, and
/// `InvalidOperator` for any other token.
pub open spec fn spec_infix(t: crate::token::TokenV, l: ValueV, r: ValueV) -> Result<
    ValueV,
    ErrV,
> {
    match t {
        crate::token::TokenV::Dash => spec_sub(l, r),
        crate::token::TokenV::Plus => spec_add(l, r),
        crate::token::TokenV::ForwardSlash => spec_div(l, r),
        crate::token::TokenV::Asterisk => spec_mul(l, r),
        crate::token::TokenV::NotEqual => spec_compare(l, r, ObjectComparison::NotEqual),
        crate::token::TokenV::Equal => spec_compare(l, r, ObjectComparison::Equal),
        crate::token::TokenV::LessThan => spec_compare(l, r, ObjectComparison::LessThan),
        crate::token::TokenV::LessThanEqual => spec_compare(
            l,
            r,
            ObjectComparison::LessThanEqual,
        ),
        crate::token::TokenV::GreaterThan => spec_compare(l, r, ObjectComparison::GreaterThan),
        crate::token::TokenV::GreaterThanEqual => spec_compare(
            l,
            r,
            ObjectComparison::GreaterThanEqual,
        ),
        _ => Err(ErrV::InvalidOperator(obj_display(l), token_display(t), obj_display(r))),
    }
}

/// The big-step semantics of one expression: the outcome and the arena
/// afterwards.  Function calls burn one unit of fuel; everything else
/// recurses structurally.
pub open spec fn spec_eval_expr(e: ExprV, envs: Seq<ScopeV>, scope: int, fuel: nat) -> (
    Result<ValueV, ErrV>,
    Seq<ScopeV>,
)
    decreases fuel, e, 0int,
{
    match e {
        ExprV::Constant => (
            Err(ErrV::ImpossibleState("Constant expression???"@)),
            envs,
        ),
        ExprV::IntLiteral(i) => (Ok(ValueV::Int(i)), envs),
        ExprV::StringLiteral(s) => (Ok(ValueV::Str(s)), envs),
        ExprV::Bool(b) => (Ok(ValueV::Bool(b)), envs),
        ExprV::Identifier(name) => match env_lookup(envs, scope, name) {
            Some(v) => (Ok(v), envs),
            None => (Err(ErrV::IdentifierNotFount(name)), envs),
        },
        ExprV::FnExpression(params, body) => (
            (Ok(ValueV::Function(params, body, scope)), envs)
        ),
        ExprV::PrefixExpression(t, e1) => {
            let (r, envs1) = spec_eval_expr(*e1, envs, scope, fuel);
            match r {
                Err(err) => (Err(err), envs1),
                Ok(v) => match t {
                    crate::token::TokenV::Bang => (Ok(ValueV::Bool(!spec_truthy(v))), envs1),
                    crate::token::TokenV::Dash => (
                        Ok(
                            match v {
                                ValueV::Int(i) => ValueV::Int(i64_neg_wrap(i)),
                                _ => ValueV::Null,
                            },
                        ),
                        envs1,
                    ),
                    _ => (Err(ErrV::InvalidPrefix(t)), envs1),
                },
            }
        },
        ExprV::InfixExpression(t, l, r) => {
            let (rl, envs1) = spec_eval_expr(*l, envs, scope, fuel);
            match rl {
                Err(err) => (Err(err), envs1),
                Ok(lv) => {
                    let (rr, envs2) = spec_eval_expr(*r, envs1, scope, fuel);
                    match rr {
                        Err(err) => (Err(err), envs2),
                        Ok(rv) => (spec_infix(t, lv, rv), envs2),
                    }
                },
            }
        },
        ExprV::IfExpression(c, b1, b2) => {
            let (rc, envs1) = spec_eval_expr(*c, envs, scope, fuel);
            match rc {
                Err(err) => (Err(err), envs1),
                Ok(cv) => if spec_truthy(cv) {
                    spec_eval_block(b1, envs1, scope, fuel)
                } else {
                    match b2 {
                        Some(b) => spec_eval_block(b, envs1, scope, fuel),
                        None => (Ok(ValueV::Null), envs1),
                    }
                },
            }
        },
        ExprV::Arrary(elems) => {
            let (r, envs1) = spec_eval_exprs(elems, envs, scope, fuel);
            match r {
                Err(err) => (Err(err), envs1),
                Ok(vals) => (Ok(ValueV::Array(vals)), envs1),
            }
        },
        ExprV::MapLiteral(ps) => {
            let (r, envs1) = spec_eval_map_pairs(ps, Seq::empty(), envs, scope, fuel);
            match r {
                Err(err) => (Err(err), envs1),
                Ok(entries) => (Ok(ValueV::Hash(entries)), envs1),
            }
        },
        ExprV::IndexExpression(le, ie) => {
            let (rl, envs1) = spec_eval_expr(*le, envs, scope, fuel);
            match rl {
                Err(err) => (Err(err), envs1),
                Ok(lv) => match lv {
                    ValueV::Array(a) => {
                        let (ri, envs2) = spec_eval_expr(*ie, envs1, scope, fuel);
                        match ri {
                            Err(err) => (Err(err), envs2),
                            Ok(iv) => match iv {
                                ValueV::Int(i) => (spec_index_of_array(a, i), envs2),
                                _ => (
                                    Err(ErrV::InvalidObjectType("Int"@, obj_display(iv))),
                                    envs2,
                                ),
                            },
                        }
                    },
                    ValueV::Hash(entries) => {
                        let (ri, envs2) = spec_eval_expr(*ie, envs1, scope, fuel);
                        match ri {
                            Err(err) => (Err(err), envs2),
                            Ok(iv) => match spec_hash_key(iv) {
                                Err(err) => (Err(err), envs2),
                                Ok(d) => (Ok(spec_hash_lookup_value(entries, d)), envs2),
                            },
                        }
                    },
                    _ => (Err(ErrV::IndexOperatorNotSupported(obj_display(lv))), envs1),
                },
            }
        },
        ExprV::CallExpression(f, args) => {
            let (rf, envs1) = spec_eval_expr(*f, envs, scope, fuel);
            match rf {
                Err(err) => (Err(err), envs1),
                Ok(fv) => match fv {
                    ValueV::Builtin(k) => {
                        let (ra, envs2) = spec_eval_exprs(args, envs1, scope, fuel);
                        match ra {
                            Err(err) => (Err(err), envs2),
                            Ok(vals) => (spec_apply_builtin(k, vals), envs2),
                        }
                    },
                    ValueV::Function(params, body, fenv) => {
                        let (ra, envs2) = spec_eval_exprs(args, envs1, scope, fuel);
                        match ra {
                            Err(err) => (Err(err), envs2),
                            Ok(vals) => if params.len() != vals.len() {
                                (
                                    Err(
                                        ErrV::InvalidParamCount {
                                            expected: params.len() as int,
                                            actual: vals.len() as int,
                                        },
                                    ),
                                    envs2,
                                )
                            } else if !(0 <= fenv < envs2.len()) {
                                (Err(ErrV::ImpossibleState(obj_display(fv))), envs2)
                            } else if fuel == 0 {
                                (Err(ErrV::RecursionLimitReached), envs2)
                            } else {
                                let idx = envs2.len() as int;
                                let envs3 = envs2.push(
                                    ScopeV {
                                        bindings: bind_params(Seq::empty(), params, vals),
                                        outer: Some(fenv),
                                    },
                                );
                                let (rb, envs4) = spec_eval_block(
                                    body,
                                    envs3,
                                    idx,
                                    (fuel - 1) as nat,
                                );
                                match rb {
                                    Err(err) => (Err(err), envs4),
                                    Ok(v) => (
                                        Ok(
                                            match v {
                                                ValueV::Return(inner) => *inner,
                                                _ => v,
                                            },
                                        ),
                                        envs4,
                                    ),
                                }
                            },
                        }
                    },
                    _ => (Err(ErrV::ImpossibleState(obj_display(fv))), envs1),
                },
            }
        },
    }
}

/// The semantics of a list of expressions, evaluated left to right; the
/// first error stops everything.
pub open spec fn spec_eval_exprs(es: Seq<ExprV>, envs: Seq<ScopeV>, scope: int, fuel: nat) -> (
    Result<Seq<ValueV>, ErrV>,
    Seq<ScopeV>,
)
    decreases fuel, es, 0int,
{
    if es.len() == 0 {
        (Ok(Seq::empty()), envs)
    } else {
        let (r0, envs1) = spec_eval_expr(es[0], envs, scope, fuel);
        match r0 {
            Err(err) => (Err(err), envs1),
            Ok(v) => {
                let (rr, envs2) = spec_eval_exprs(es.drop_first(), envs1, scope, fuel);
                match rr {
                    Err(err) => (Err(err), envs2),
                    Ok(vs) => (Ok(seq![v] + vs), envs2),
                }
            },
        }
    }
}

/// The semantics of a map literal's pairs: each key, then its value, in
/// written order; an unhashable key stops everything; entries with equal
/// digests overwrite.
pub open spec fn spec_eval_map_pairs(
    ps: Seq<(ExprV, ExprV)>,
    entries: Seq<(u64, ValueV, ValueV)>,
    envs: Seq<ScopeV>,
    scope: int,
    fuel: nat,
) -> (Result<Seq<(u64, ValueV, ValueV)>, ErrV>, Seq<ScopeV>)
    decreases fuel, ps, 0int,
{
    if ps.len() == 0 {
        (Ok(entries), envs)
    } else {
        let (rk, envs1) = spec_eval_expr(ps[0].0, envs, scope, fuel);
        match rk {
            Err(err) => (Err(err), envs1),
            Ok(kv) => {
                let (rv, envs2) = spec_eval_expr(ps[0].1, envs1, scope, fuel);
                match rv {
                    Err(err) => (Err(err), envs2),
                    Ok(vv) => match spec_hash_key(kv) {
                        Err(err) => (Err(err), envs2),
                        Ok(d) => spec_eval_map_pairs(
                            ps.drop_first(),
                            hash_insert(entries, d, kv, vv),
                            envs2,
                            scope,
                            fuel,
                        ),
                    },
                }
            },
        }
    }
}

/// The semantics of one statement.
pub open spec fn spec_eval_stmt(st: StmtV, envs: Seq<ScopeV>, scope: int, fuel: nat) -> (
    Result<ValueV, ErrV>,
    Seq<ScopeV>,
)
    decreases fuel, st, 0int,
{
    match st {
        StmtV::ExpressionStatement(e) => spec_eval_expr(e, envs, scope, fuel),
        StmtV::Return(e) => {
            let (r, envs1) = spec_eval_expr(e, envs, scope, fuel);
            match r {
                Err(err) => (Err(err), envs1),
                Ok(v) => (Ok(ValueV::Return(Box::new(v))), envs1),
            }
        },
        StmtV::Let(name, e) => {
            let (r, envs1) = spec_eval_expr(e, envs, scope, fuel);
            match r {
                Err(err) => (Err(err), envs1),
                Ok(v) => (Ok(ValueV::Null), env_set(envs1, scope, name, v)),
            }
        },
    }
}

/// The semantics of a block: statements in order against the same scope; a
/// `Return` value stops the block at once and is handed outward still
/// wrapped; otherwise the block's value is the last statement's (or `Null`
/// for an empty block).
pub open spec fn spec_eval_block(stmts: Seq<StmtV>, envs: Seq<ScopeV>, scope: int, fuel: nat) -> (
    Result<ValueV, ErrV>,
    Seq<ScopeV>,
)
    decreases fuel, stmts, 1int,
{
    if stmts.len() == 0 {
        (Ok(ValueV::Null), envs)
    } else {
        let (r, envs1) = spec_eval_stmt(stmts[0], envs, scope, fuel);
        match r {
            Err(err) => (Err(err), envs1),
            Ok(v) => if v is Return {
                (Ok(v), envs1)
            } else if stmts.len() == 1 {
                (Ok(v), envs1)
            } else {
                spec_eval_block(stmts.drop_first(), envs1, scope, fuel)
            },
        }
    }
}

/// The semantics of a whole program: like a block, except that a `Return`
/// reaching the top is unwrapped to its inner value.
pub open spec fn spec_eval_program(stmts: Seq<StmtV>, envs: Seq<ScopeV>, scope: int, fuel: nat) -> (
    Result<ValueV, ErrV>,
    Seq<ScopeV>,
)
    decreases fuel, stmts, 2int,
{
    let (r, envs1) = spec_eval_block(stmts, envs, scope, fuel);
    match r {
        Err(err) => (Err(err), envs1),
        Ok(v) => (
            Ok(
                match v {
                    ValueV::Return(inner) => *inner,
                    _ => v,
                },
            ),
            envs1,
        ),
    }
}

/// The semantics of any node the evaluator accepts.
pub open spec fn spec_eval_node(n: NodeV, envs: Seq<ScopeV>, scope: int, fuel: nat) -> (
    Result<ValueV, ErrV>,
    Seq<ScopeV>,
) {
    match n {
        NodeV::BlockStatement(b) => spec_eval_block(b, envs, scope, fuel),
        NodeV::Program(p) => spec_eval_program(p, envs, scope, fuel),
        NodeV::Statement(s) => spec_eval_stmt(s, envs, scope, fuel),
        NodeV::Expression(e) => spec_eval_expr(e, envs, scope, fuel),
        NodeV::Object(o) => (Ok(o), envs),
    }
}

/// Negation of the operand's truthiness.
fn eval_bang_operator_expression(right: &Object) -> (r: Result<Object, EvalError>)
    ensures
        res_view(r) == Ok::<ValueV, ErrV>(ValueV::Bool(!spec_truthy(right@))),
{
    Ok(Object::Bool(!right.is_truthy()))
}

/// Unary minus: negates an integer; on any other operand it silently
/// yields `Null`, a quirk kept as observed.
fn eval_minus_operator_expression(right: &Object) -> (r: Result<Object, EvalError>)
    ensures
        res_view(r) == Ok::<ValueV, ErrV>(
            match right@ {
                ValueV::Int(i) => ValueV::Int(i64_neg_wrap(i)),
                _ => ValueV::Null,
            },
        ),
{
    match right {
        Object::Int(i) => if *i == i64::MIN {
            Ok(Object::Int(i64::MIN))
        } else {
            Ok(Object::Int(-*i))
        },
        _ => Ok(Object::Null),
    }
}

/// Dispatches an infix token over two evaluated operands.
fn eval_infix_objects(token: &crate::token::Token, left: &Object, right: &Object) -> (r: Result<
    Object,
    EvalError,
>)
    ensures
        res_view(r) == spec_infix(token@, left@, right@),
{
    match token {
        crate::token::Token::Dash => left.sub(right),
        crate::token::Token::Plus => left.add(right),
        crate::token::Token::ForwardSlash => left.div(right),
        crate::token::Token::Asterisk => left.mul(right),
        crate::token::Token::NotEqual => Object::eval_obj_comparison(
            left,
            right,
            ObjectComparison::NotEqual,
        ),
        crate::token::Token::Equal => Object::eval_obj_comparison(
            left,
            right,
            ObjectComparison::Equal,
        ),
        crate::token::Token::LessThan => Object::eval_obj_comparison(
            left,
            right,
            ObjectComparison::LessThan,
        ),
        crate::token::Token::LessThanEqual => Object::eval_obj_comparison(
            left,
            right,
            ObjectComparison::LessThanEqual,
        ),
        crate::token::Token::GreaterThan => Object::eval_obj_comparison(
            left,
            right,
            ObjectComparison::GreaterThan,
        ),
        crate::token::Token::GreaterThanEqual => Object::eval_obj_comparison(
            left,
            right,
            ObjectComparison::GreaterThanEqual,
        ),
        t => Err(EvalError::InvalidOperator(left.render(), t.render(), right.render())),
    }
}

/// The size of a node, for the evaluator's termination measure.
pub open spec fn node_size(n: NodeV) -> nat {
    match n {
        NodeV::BlockStatement(b) => stmts_size(b),
        NodeV::Program(b) => stmts_size(b),
        NodeV::Statement(s) => stmt_size(s),
        NodeV::Expression(e) => expr_size(e),
        NodeV::Object(_) => 0,
    }
}

/// Evaluates any node in scope `scope` of the arena, with an explicit
/// recursion budget.
pub fn eval(node: &Node, env: &mut Environment, scope: usize, fuel: u64) -> (r: Result<
    Object,
    EvalError,
>)
    requires
        env_wf(old(env)@),
        scope < old(env)@.len(),
    ensures
        env_wf(final(env)@),
        old(env)@.len() <= final(env)@.len(),
        res_view(r) == spec_eval_node(node@, old(env)@, scope as int, fuel as nat).0,
        final(env)@ == spec_eval_node(node@, old(env)@, scope as int, fuel as nat).1,
    decreases fuel, node_size(node@), 3int,
{
    match node {
        Node::BlockStatement(b) => eval_block(b, env, scope, fuel),
        Node::Program(p) => eval_program(p, env, scope, fuel),
        Node::Statement(s) => eval_statement(s, env, scope, fuel),
        Node::Expression(e) => eval_expression(e, env, scope, fuel),
        Node::Object(o) => Ok(o.duplicate()),
    }
}

/// Evaluates a whole program: a block whose `Return` outcome, if any, is
/// unwrapped at the top.
fn eval_program(block: &Program, env: &mut Environment, scope: usize, fuel: u64) -> (r: Result<
    Object,
    EvalError,
>)
    requires
        env_wf(old(env)@),
        scope < old(env)@.len(),
    ensures
        env_wf(final(env)@),
        old(env)@.len() <= final(env)@.len(),
        res_view(r) == spec_eval_program(block@, old(env)@, scope as int, fuel as nat).0,
        final(env)@ == spec_eval_program(block@, old(env)@, scope as int, fuel as nat).1,
    decreases fuel, stmts_size(block@), 2int,
{
    match eval_block(block, env, scope, fuel) {
        Err(e) => Err(e),
        Ok(v) => match v {
            Object::Return(inner) => Ok(*inner),
            other => Ok(other),
        },
    }
}

/// Evaluates the statements of a block in order against the same scope.
#[verifier::rlimit(60)]
fn eval_block(block: &BlockStatement, env: &mut Environment, scope: usize, fuel: u64) -> (r:
    Result<Object, EvalError>)
    requires
        env_wf(old(env)@),
        scope < old(env)@.len(),
    ensures
        env_wf(final(env)@),
        old(env)@.len() <= final(env)@.len(),
        res_view(r) == spec_eval_block(block@, old(env)@, scope as int, fuel as nat).0,
        final(env)@ == spec_eval_block(block@, old(env)@, scope as int, fuel as nat).1,
    decreases fuel, stmts_size(block@), 1int,
{
    let ghost bv = block@;
    let ghost env0 = env@;
    proof {
        lemma_stmts_view(block.statements@);
        assert(bv.subrange(0, bv.len() as int) =~= bv);
    }
    let n = block.statements.len();
    let mut result: Object = Object::Null;
    let mut i: usize = 0;
    while i < n
        invariant
            i <= n,
            n == block.statements@.len(),
            bv == block@,
            bv.len() == n,
            forall|k: int| 0 <= k < n ==> bv[k] == crate::ast::stmt_view(block.statements@[k]),
            env0 == old(env)@,
            env_wf(env@),
            env0.len() <= env@.len(),
            scope < env0.len(),
            i < n ==> spec_eval_block(bv, env0, scope as int, fuel as nat) == spec_eval_block(
                bv.subrange(i as int, n as int),
                env@,
                scope as int,
                fuel as nat,
            ),
            i == n ==> spec_eval_block(bv, env0, scope as int, fuel as nat) == (
                Ok::<ValueV, ErrV>(result@),
                env@,
            ),
        decreases n - i,
    {
        proof {
            lemma_stmts_size_elem(bv, i as int);
        }
        let ghost env_before = env@;
        let r = eval_statement(&block.statements[i], env, scope, fuel);
        proof {
            assert(bv.subrange(i as int, n as int)[0] == bv[i as int]);
            assert(bv.subrange(i as int, n as int).drop_first() =~= bv.subrange(
                i + 1,
                n as int,
            ));
        }
        match r {
            Err(e) => {
                return Err(e);
            },
            Ok(v) => {
                if matches!(v, Object::Return(_)) {
                    return Ok(v);
                }
                result = v;
                i = i + 1;
            },
        }
    }
    Ok(result)
}

/// Evaluates one statement.
fn eval_statement(statement: &Statement, env: &mut Environment, scope: usize, fuel: u64) -> (r:
    Result<Object, EvalError>)
    requires
        env_wf(old(env)@),
        scope < old(env)@.len(),
    ensures
        env_wf(final(env)@),
        old(env)@.len() <= final(env)@.len(),
        res_view(r) == spec_eval_stmt(statement@, old(env)@, scope as int, fuel as nat).0,
        final(env)@ == spec_eval_stmt(statement@, old(env)@, scope as int, fuel as nat).1,
    decreases fuel, stmt_size(statement@), 0int,
{
    match statement {
        Statement::ExpressionStatement(exp) => eval_expression(exp, env, scope, fuel),
        Statement::Return(exp) => {
            let v = match eval_expression(exp, env, scope, fuel) {
                Ok(v) => v,
                Err(e) => {
                    return Err(e);
                },
            };
            Ok(Object::Return(Box::new(v)))
        },
        Statement::Let(ident, exp) => {
            let v = match eval_expression(exp, env, scope, fuel) {
                Ok(v) => v,
                Err(e) => {
                    return Err(e);
                },
            };
            proof {
                lemma_env_set_wf(env@, scope as int, ident@, v@);
            }
            env.set(scope, ident.as_str(), v);
            Ok(Object::Null)
        },
    }
}

/// Evaluates a list of expressions left to right, collecting the values.
fn expressions_to_objects(values: &Vec<Expression>, env: &mut Environment, scope: usize, fuel: u64)
    -> (r: Result<Vec<Object>, EvalError>)
    requires
        env_wf(old(env)@),
        scope < old(env)@.len(),
    ensures
        env_wf(final(env)@),
        old(env)@.len() <= final(env)@.len(),
        match r {
            Ok(vals) => spec_eval_exprs(exprs_view(values@), old(env)@, scope as int, fuel as nat)
                == (Ok::<Seq<ValueV>, ErrV>(objs_view(vals@)), final(env)@),
            Err(e) => spec_eval_exprs(exprs_view(values@), old(env)@, scope as int, fuel as nat)
                == (Err::<Seq<ValueV>, ErrV>(e@), final(env)@),
        },
    decreases fuel, exprs_size(exprs_view(values@)), 1int,
{
    let ghost ev = exprs_view(values@);
    let ghost env0 = env@;
    proof {
        lemma_exprs_view(values@);
        assert(ev.subrange(0, ev.len() as int) =~= ev);
    }
    let n = values.len();
    let mut out: Vec<Object> = Vec::new();
    let mut i: usize = 0;
    while i < n
        invariant
            i <= n,
            n == values@.len(),
            ev == exprs_view(values@),
            ev.len() == n,
            forall|k: int| 0 <= k < n ==> ev[k] == crate::ast::expr_view(values@[k]),
            env0 == old(env)@,
            env_wf(env@),
            env0.len() <= env@.len(),
            scope < env0.len(),
            ({
                let full = spec_eval_exprs(ev, env0, scope as int, fuel as nat);
                let rest = spec_eval_exprs(
                    ev.subrange(i as int, n as int),
                    env@,
                    scope as int,
                    fuel as nat,
                );
                full == (match rest.0 {
                    Ok(vs) => (Ok::<Seq<ValueV>, ErrV>(objs_view(out@) + vs), rest.1),
                    Err(e) => (Err::<Seq<ValueV>, ErrV>(e), rest.1),
                })
            }),
        decreases n - i,
    {
        proof {
            lemma_exprs_size_elem(ev, i as int);
        }
        let r = eval_expression(&values[i], env, scope, fuel);
        proof {
            assert(ev.subrange(i as int, n as int)[0] == ev[i as int]);
            assert(ev.subrange(i as int, n as int).drop_first() =~= ev.subrange(i + 1, n as int));
        }
        match r {
            Err(e) => {
                return Err(e);
            },
            Ok(v) => {
                let ghost out_old = out@;
                proof {
                    lemma_objs_view_push(out_old, v);
                }
                out.push(v);
                i = i + 1;
                proof {
                    assert(out@ =~= out_old.push(v));
                    let rest = spec_eval_exprs(
                        ev.subrange(i as int, n as int),
                        env@,
                        scope as int,
                        fuel as nat,
                    );
                    match rest.0 {
                        Ok(vs) => {
                            assert(objs_view(out_old) + (seq![v@] + vs) =~= objs_view(out@)
                                + vs);
                        },
                        Err(_) => {},
                    }
                }
            },
        }
    }
    proof {
        assert(ev.subrange(n as int, n as int) =~= Seq::<ExprV>::empty());
        assert(objs_view(out@) + Seq::<ValueV>::empty() =~= objs_view(out@));
    }
    Ok(out)
}


/// Evaluates one expression in scope `scope`; the outcome and the arena's
/// new state are exactly those of `spec_eval_expr`.
#[verifier::rlimit(100)]
pub fn eval_expression(exp: &Expression, env: &mut Environment, scope: usize, fuel: u64) -> (r:
    Result<Object, EvalError>)
    requires
        env_wf(old(env)@),
        scope < old(env)@.len(),
    ensures
        env_wf(final(env)@),
        old(env)@.len() <= final(env)@.len(),
        res_view(r) == spec_eval_expr(exp@, old(env)@, scope as int, fuel as nat).0,
        final(env)@ == spec_eval_expr(exp@, old(env)@, scope as int, fuel as nat).1,
    decreases fuel, expr_size(exp@), 0int,
{
    match exp {
        Expression::Constant => Err(
            EvalError::ImpossibleState("Constant expression???".to_owned()),
        ),
        Expression::IntLiteral(i) => Ok(Object::Int(*i)),
        Expression::StringLiteral(s) => Ok(Object::String(s.clone())),
        Expression::Bool(b) => Ok(Object::Bool(*b)),
        Expression::Identifier(ident) => match env.get(scope, ident.as_str()) {
            Some(v) => Ok(v),
            None => Err(EvalError::IdentifierNotFount(ident.clone())),
        },
        Expression::FnExpression(idents, blk) => Ok(
            Object::Function(crate::ast::dup_names(idents), blk.duplicate(), scope),
        ),
        Expression::PrefixExpression(t, e1) => {
            let v = match eval_expression(e1, env, scope, fuel) {
                Ok(v) => v,
                Err(e) => {
                    return Err(e);
                },
            };
            match t {
                crate::token::Token::Bang => eval_bang_operator_expression(&v),
                crate::token::Token::Dash => eval_minus_operator_expression(&v),
                other => Err(EvalError::InvalidPrefix(other.duplicate())),
            }
        },
        Expression::InfixExpression(t, l, r2) => {
            let lv = match eval_expression(l, env, scope, fuel) {
                Ok(v) => v,
                Err(e) => {
                    return Err(e);
                },
            };
            let rv = match eval_expression(r2, env, scope, fuel) {
                Ok(v) => v,
                Err(e) => {
                    return Err(e);
                },
            };
            eval_infix_objects(t, &lv, &rv)
        },
        Expression::IfExpression(c, b1, b2) => {
            let cv = match eval_expression(c, env, scope, fuel) {
                Ok(v) => v,
                Err(e) => {
                    return Err(e);
                },
            };
            if cv.is_truthy() {
                eval_block(b1, env, scope, fuel)
            } else {
                match b2 {
                    Some(b) => eval_block(b, env, scope, fuel),
                    None => Ok(Object::Null),
                }
            }
        },
        Expression::Arrary(elems) => {
            let vals = match expressions_to_objects(elems, env, scope, fuel) {
                Ok(v) => v,
                Err(e) => {
                    return Err(e);
                },
            };
            Ok(Object::Array(vals))
        },
        Expression::MapLiteral(pairs) => {
            let ghost pv = pairs_view(pairs@);
            let ghost env0 = env@;
            proof {
                lemma_pairs_view(pairs@);
                assert(pv.subrange(0, pv.len() as int) =~= pv);
                assert(crate::object::hash_entries_view(Seq::empty())
                    =~= Seq::<(u64, ValueV, ValueV)>::empty());
            }
            let n = pairs.len();
            let mut entries: Vec<(HashKey, HashPair)> = Vec::new();
            let mut i: usize = 0;
            while i < n
                invariant
                    i <= n,
                    n == pairs@.len(),
                    pv == pairs_view(pairs@),
                    pv.len() == n,
                    forall|k: int| 0 <= k < n ==> pv[k] == (
                        crate::ast::expr_view(pairs@[k].0),
                        crate::ast::expr_view(pairs@[k].1),
                    ),
                    env0 == old(env)@,
                    exp@ == ExprV::MapLiteral(pv),
                    pairs_size(pv) < expr_size(exp@),
                    env_wf(env@),
                    env0.len() <= env@.len(),
                    scope < env0.len(),
                    spec_eval_map_pairs(pv, Seq::empty(), env0, scope as int, fuel as nat)
                        == spec_eval_map_pairs(
                        pv.subrange(i as int, n as int),
                        crate::object::hash_entries_view(entries@),
                        env@,
                        scope as int,
                        fuel as nat,
                    ),
                decreases n - i,
            {
                proof {
                    lemma_pairs_size_elem(pv, i as int);
                    assert(pv.subrange(i as int, n as int)[0] == pv[i as int]);
                    assert(pv.subrange(i as int, n as int).drop_first() =~= pv.subrange(
                        i + 1,
                        n as int,
                    ));
                }
                let kv = match eval_expression(&pairs[i].0, env, scope, fuel) {
                    Ok(v) => v,
                    Err(e) => {
                        return Err(e);
                    },
                };
                let vv = match eval_expression(&pairs[i].1, env, scope, fuel) {
                    Ok(v) => v,
                    Err(e) => {
                        return Err(e);
                    },
                };
                let hk = match kv.hash_key() {
                    Ok(h) => h,
                    Err(e) => {
                        return Err(e);
                    },
                };
                insert_hash_entry(&mut entries, hk, kv, vv);
                i = i + 1;
            }
            proof {
                assert(pv.subrange(n as int, n as int) =~= Seq::<(ExprV, ExprV)>::empty());
            }
            Ok(Object::Hash(entries))
        },
        Expression::IndexExpression(le, ie) => {
            let lv = match eval_expression(le, env, scope, fuel) {
                Ok(v) => v,
                Err(e) => {
                    return Err(e);
                },
            };
            match lv {
                Object::Array(a) => {
                    let iv = match eval_expression(ie, env, scope, fuel) {
                        Ok(v) => v,
                        Err(e) => {
                            return Err(e);
                        },
                    };
                    proof {
                        lemma_objs_view(a@);
                    }
                    match iv {
                        Object::Int(idx) => {
                            let n = a.len();
                            if idx < 0 || (idx as u64) >= (n as u64) {
                                let max: i64 = if (n as u64) > 0x7fff_ffff_ffff_ffffu64 {
                                    i64::MAX
                                } else {
                                    n as i64
                                };
                                return Err(EvalError::IndexOutOfBounds { index: idx, max });
                            }
                            Ok(a[idx as usize].duplicate())
                        },
                        other => Err(
                            EvalError::InvalidObjectType("Int".to_owned(), other.render()),
                        ),
                    }
                },
                Object::Hash(entries) => {
                    let iv = match eval_expression(ie, env, scope, fuel) {
                        Ok(v) => v,
                        Err(e) => {
                            return Err(e);
                        },
                    };
                    let hk = match iv.hash_key() {
                        Ok(h) => h,
                        Err(e) => {
                            return Err(e);
                        },
                    };
                    find_hash_entry(&entries, hk)
                },
                other => Err(EvalError::IndexOperatorNotSupported(other.render())),
            }
        },
        Expression::CallExpression(f, args) => {
            let res = match eval_expression(f, env, scope, fuel) {
                Ok(v) => v,
                Err(e) => {
                    return Err(e);
                },
            };
            match res {
                Object::Builtin(k) => {
                    let vals = match expressions_to_objects(args, env, scope, fuel) {
                        Ok(v) => v,
                        Err(e) => {
                            return Err(e);
                        },
                    };
                    apply_builtin(k, &vals)
                },
                Object::Function(params, body, fenv) => {
                    let vals = match expressions_to_objects(args, env, scope, fuel) {
                        Ok(v) => v,
                        Err(e) => {
                            return Err(e);
                        },
                    };
                    proof {
                        crate::ast::lemma_names_view(params@);
                        lemma_objs_view(vals@);
                    }
                    if params.len() != vals.len() {
                        return Err(
                            EvalError::InvalidParamCount {
                                expected: params.len(),
                                actual: vals.len(),
                            },
                        );
                    }
                    if fenv >= env.scope_count() {
                        let full = Object::Function(params, body, fenv);
                        return Err(EvalError::ImpossibleState(full.render()));
                    }
                    if fuel == 0 {
                        return Err(EvalError::RecursionLimitReached);
                    }
                    let ghost envs2 = env@;
                    let ghost pv = crate::ast::names_view(params@);
                    let ghost vv = objs_view(vals@);
                    proof {
                        lemma_env_push_wf(
                            env@,
                            ScopeV { bindings: Seq::empty(), outer: Some(fenv as int) },
                        );
                    }
                    let scoped = env.new_closed(fenv);
                    let np = params.len();
                    proof {
                        assert(env@[scoped as int] == (ScopeV {
                            bindings: Seq::<(Seq<char>, ValueV)>::empty(),
                            outer: Some(fenv as int),
                        }));
                        assert(pv.subrange(0, np as int) =~= pv);
                        assert(vv.subrange(0, np as int) =~= vv);
                        assert(env@ =~= envs2.push(
                            ScopeV {
                                bindings: env@[scoped as int].bindings,
                                outer: Some(fenv as int),
                            },
                        ));
                    }
                    let mut j: usize = 0;
                    while j < np
                        invariant
                            j <= np,
                            np == params@.len(),
                            pv == crate::ast::names_view(params@),
                            pv.len() == np,
                            vv.len() == np,
                            forall|k: int| 0 <= k < np ==> pv[k] == params@[k]@,
                            forall|k: int| 0 <= k < np ==> vv[k] == crate::object::obj_view(
                                vals@[k],
                            ),
                            np == vals@.len(),
                            scoped == envs2.len(),
                            env@.len() == envs2.len() + 1,
                            env_wf(env@),
                            env@ == envs2.push(
                                ScopeV {
                                    bindings: env@[scoped as int].bindings,
                                    outer: Some(fenv as int),
                                },
                            ),
                            bind_params(Seq::empty(), pv, vv) == bind_params(
                                env@[scoped as int].bindings,
                                pv.subrange(j as int, np as int),
                                vv.subrange(j as int, np as int),
                            ),
                        decreases np - j,
                    {
                        proof {
                            assert(pv.subrange(j as int, np as int)[0] == pv[j as int]);
                            assert(pv.subrange(j as int, np as int).drop_first() =~= pv.subrange(
                                j + 1,
                                np as int,
                            ));
                            assert(vv.subrange(j as int, np as int)[0] == vv[j as int]);
                            assert(vv.subrange(j as int, np as int).drop_first() =~= vv.subrange(
                                j + 1,
                                np as int,
                            ));
                            lemma_env_set_wf(env@, scoped as int, pv[j as int], vv[j as int]);
                        }
                        let av = vals[j].duplicate();
                        env.set(scoped, params[j].as_str(), av);
                        proof {
                            assert(env@ =~= envs2.push(
                                ScopeV {
                                    bindings: env@[scoped as int].bindings,
                                    outer: Some(fenv as int),
                                },
                            ));
                        }
                        j = j + 1;
                    }
                    proof {
                        assert(pv.subrange(np as int, np as int) =~= Seq::<Seq<char>>::empty());
                        assert(vv.subrange(np as int, np as int) =~= Seq::<ValueV>::empty());
                        assert(env@[scoped as int].bindings == bind_params(Seq::empty(), pv, vv));
                        assert(env@ == envs2.push(
                            ScopeV {
                                bindings: bind_params(Seq::empty(), pv, vv),
                                outer: Some(fenv as int),
                            },
                        ));
                    }
                    let result = match eval_block(&body, env, scoped, fuel - 1) {
                        Ok(v) => v,
                        Err(e) => {
                            return Err(e);
                        },
                    };
                    match result {
                        Object::Return(inner) => Ok(*inner),
                        other => Ok(other),
                    }
                },
                other => Err(EvalError::ImpossibleState(other.render())),
            }
        },
    }
}

/// Stores `key`/`value` under digest `hk` in the entry list: the first
/// entry with an equal digest is overwritten, otherwise the entry goes at
/// the end.
fn insert_hash_entry(entries: &mut Vec<(HashKey, HashPair)>, hk: HashKey, key: Object, value: Object)
    ensures
        crate::object::hash_entries_view(final(entries)@) == hash_insert(
            crate::object::hash_entries_view(old(entries)@),
            hk@,
            key@,
            value@,
        ),
{
    let ghost hv = crate::object::hash_entries_view(entries@);
    proof {
        crate::object::lemma_hash_entries_view(entries@);
        lemma_hash_index_of(hv, hk@);
    }
    let n = entries.len();
    let mut j: usize = 0;
    let mut found: bool = false;
    while j < n && !found
        invariant
            j <= n,
            n == entries@.len(),
            hv == crate::object::hash_entries_view(entries@),
            hv.len() == n,
            forall|k: int| 0 <= k < n ==> hv[k] == (
                entries@[k].0@,
                crate::object::obj_view(entries@[k].1.key),
                crate::object::obj_view(entries@[k].1.value),
            ),
            !found ==> forall|k: int| 0 <= k < j ==> hv[k].0 != hk@,
            found ==> j < n && hv[j as int].0 == hk@ && forall|k: int| 0 <= k < j ==> hv[k].0
                != hk@,
        decreases n - j, (if found { 0int } else { 1int }),
    {
        if entries[j].0.value() == hk.value() {
            found = true;
        } else {
            j = j + 1;
        }
    }
    let entry = (hk, HashPair { key, value });
    if found {
        proof {
            lemma_hash_index_of(hv, hk@);
            let idx = hash_index_of(hv, hk@);
            if idx < j {
                assert(hv[idx].0 == hk@);
                assert(false);
            }
            if idx > j {
                assert(hv[j as int].0 != hk@);
                assert(false);
            }
        }
        entries.set(j, entry);
        proof {
            crate::object::lemma_hash_entries_view(entries@);
            assert(crate::object::hash_entries_view(entries@) =~= hv.update(
                j as int,
                (entry.0@, entry.1.key@, entry.1.value@),
            ));
        }
    } else {
        proof {
            lemma_hash_index_of(hv, hk@);
            assert(hash_index_of(hv, hk@) == n as int);
            crate::object::lemma_hash_entries_view_push(entries@, entry);
        }
        entries.push(entry);
    }
}

/// Looks a digest up in a hash object's entries: the stored value, or
/// `Null` when the key is missing (a miss is not an error).
fn find_hash_entry(entries: &Vec<(HashKey, HashPair)>, hk: HashKey) -> (r: Result<
    Object,
    EvalError,
>)
    ensures
        res_view(r) == Ok::<ValueV, ErrV>(
            match hash_find(crate::object::hash_entries_view(entries@), hk@) {
                Some(v) => v,
                None => ValueV::Null,
            },
        ),
{
    let ghost hv = crate::object::hash_entries_view(entries@);
    proof {
        crate::object::lemma_hash_entries_view(entries@);
        lemma_hash_index_of(hv, hk@);
    }
    let n = entries.len();
    let mut j: usize = 0;
    while j < n
        invariant
            j <= n,
            n == entries@.len(),
            hv == crate::object::hash_entries_view(entries@),
            hv.len() == n,
            forall|k: int| 0 <= k < n ==> hv[k] == (
                entries@[k].0@,
                crate::object::obj_view(entries@[k].1.key),
                crate::object::obj_view(entries@[k].1.value),
            ),
            forall|k: int| 0 <= k < j ==> hv[k].0 != hk@,
        decreases n - j,
    {
        if entries[j].0.value() == hk.value() {
            proof {
                lemma_hash_index_of(hv, hk@);
                let idx = hash_index_of(hv, hk@);
                if idx < j {
                    assert(hv[idx].0 == hk@);
                    assert(false);
                }
                if idx > j {
                    assert(hv[j as int].0 != hk@);
                    assert(false);
                }
            }
            return Ok(entries[j].1.value.duplicate());
        }
        j = j + 1;
    }
    proof {
        lemma_hash_index_of(hv, hk@);
    }
    Ok(Object::Null)
}

} // verus!
