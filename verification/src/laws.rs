use vstd::prelude::*;

use crate::ast::ExprV;
use crate::environment::{assoc_set, env_lookup, env_set, ScopeV};
use crate::eval_error::ErrV;
use crate::eval::{spec_eval_block, spec_eval_expr, spec_eval_stmt, spec_infix};
use crate::object::{spec_truthy, ValueV};
use crate::token::TokenV;

verus! {

/// Evaluating an integer literal yields exactly that integer, touches no
/// binding, and never fails.
pub proof fn lemma_int_literal_exact(n: i64, envs: Seq<ScopeV>, scope: int, fuel: nat)
    ensures
        spec_eval_expr(ExprV::IntLiteral(n), envs, scope, fuel) == (
            Ok::<ValueV, ErrV>(ValueV::Int(n)),
            envs,
        ),
{
}

/// Integer arithmetic on two integer operands follows the value model's
/// wrapping arithmetic, for each of the four operators.
pub proof fn lemma_infix_int_arithmetic(a: i64, b: i64)
    ensures
        spec_infix(TokenV::Plus, ValueV::Int(a), ValueV::Int(b)) == Ok::<ValueV, ErrV>(
            ValueV::Int(vstd::wrapping::i64_specs::wrapping_add(a, b)),
        ),
        spec_infix(TokenV::Dash, ValueV::Int(a), ValueV::Int(b)) == Ok::<ValueV, ErrV>(
            ValueV::Int(vstd::wrapping::i64_specs::wrapping_sub(a, b)),
        ),
        spec_infix(TokenV::Asterisk, ValueV::Int(a), ValueV::Int(b)) == Ok::<ValueV, ErrV>(
            ValueV::Int(vstd::wrapping::i64_specs::wrapping_mul(a, b)),
        ),
        b != 0 ==> spec_infix(TokenV::ForwardSlash, ValueV::Int(a), ValueV::Int(b))
            == Ok::<ValueV, ErrV>(ValueV::Int(crate::object::i64_div_wrap(a, b) as i64)),
{
}

/// The `!` operator always yields a boolean: the negation of its operand's
/// truthiness, under which only `false` and `null` are falsy.
pub proof fn lemma_bang_is_negated_truthiness(
    e: ExprV,
    envs: Seq<ScopeV>,
    scope: int,
    fuel: nat,
)
    ensures
        ({
            let (r, envs1) = spec_eval_expr(e, envs, scope, fuel);
            r matches Ok(v) ==> spec_eval_expr(
                ExprV::PrefixExpression(TokenV::Bang, Box::new(e)),
                envs,
                scope,
                fuel,
            ) == (Ok::<ValueV, ErrV>(ValueV::Bool(!spec_truthy(v))), envs1)
        }),
{
}

/// Mismatched operands of `+` are a type error, never a silent coercion:
/// an integer plus anything that is not an integer reports both sides.
pub proof fn lemma_add_type_mismatch(a: i64, r: ValueV)
    requires
        !(r is Int),
    ensures
        spec_infix(TokenV::Plus, ValueV::Int(a), r) == Err::<ValueV, ErrV>(
            ErrV::TypeMismatch(
                crate::display::i64_display(a),
                crate::display::obj_display(r),
            ),
        ),
{
}

/// Whether the chain of scopes starting at `from` ever passes through
/// `target`.
pub open spec fn scope_reaches(envs: Seq<ScopeV>, from: int, target: int) -> bool
    decreases (if from >= 0 { from + 1 } else { 0 }),
{
    if !(0 <= from < envs.len()) {
        false
    } else if from == target {
        true
    } else {
        match envs[from].outer {
            Some(j) => if 0 <= j < from {
                scope_reaches(envs, j, target)
            } else {
                false
            },
            None => false,
        }
    }
}

/// Shadowing, not mutation: binding a name in one scope changes no lookup
/// whose scope chain does not pass through that scope.  In particular,
/// once an inner call scope is abandoned, every outer binding reads as
/// before.
pub proof fn lemma_set_shadows_not_mutates(
    envs: Seq<ScopeV>,
    inner: int,
    name: Seq<char>,
    v: ValueV,
    scope: int,
    key: Seq<char>,
)
    requires
        0 <= inner < envs.len(),
        !scope_reaches(envs, scope, inner),
    ensures
        env_lookup(env_set(envs, inner, name, v), scope, key) == env_lookup(envs, scope, key),
    decreases (if scope >= 0 { scope + 1 } else { 0 }),
{
    let envs2 = env_set(envs, inner, name, v);
    if 0 <= scope < envs.len() {
        assert(envs2[scope] == envs[scope]);
        match envs[scope].outer {
            Some(j) => {
                if 0 <= j < scope {
                    lemma_set_shadows_not_mutates(envs, inner, name, v, j, key);
                }
            },
            None => {},
        }
    }
}

/// A `let` in the current scope leaves every other scope's bindings
/// exactly as they were.
pub proof fn lemma_set_touches_one_scope(
    envs: Seq<ScopeV>,
    scope: int,
    name: Seq<char>,
    v: ValueV,
    other: int,
)
    requires
        0 <= scope < envs.len(),
        0 <= other < envs.len(),
        other != scope,
    ensures
        env_set(envs, scope, name, v)[other] == envs[other],
        env_set(envs, scope, name, v)[scope].bindings == assoc_set(
            envs[scope].bindings,
            name,
            v,
        ),
        env_set(envs, scope, name, v)[scope].outer == envs[scope].outer,
{
}

/// Return short-circuits: once a leading part of a block has evaluated to
/// a `Return`, the remaining statements are never evaluated — the whole
/// block's outcome and environment are those of the leading part.
pub proof fn lemma_return_short_circuits(
    stmts: Seq<crate::ast::StmtV>,
    k: int,
    envs: Seq<ScopeV>,
    scope: int,
    fuel: nat,
)
    requires
        0 < k <= stmts.len(),
        ({
            let (r, _e) = spec_eval_block(stmts.take(k), envs, scope, fuel);
            r matches Ok(v) && v is Return
        }),
    ensures
        spec_eval_block(stmts, envs, scope, fuel) == spec_eval_block(
            stmts.take(k),
            envs,
            scope,
            fuel,
        ),
    decreases k,
{
    let head = stmts.take(k);
    assert(head[0] == stmts[0]);
    let (r0, envs1) = spec_eval_stmt(stmts[0], envs, scope, fuel);
    match r0 {
        Err(_) => {},
        Ok(v) => {
            if v is Return {
            } else {
                if k == 1 {
                    assert(head.len() == 1);
                } else {
                    assert(head.drop_first() =~= stmts.drop_first().take(k - 1));
                    assert(stmts.len() > 1) by {
                        assert(k <= stmts.len());
                    }
                    lemma_return_short_circuits(
                        stmts.drop_first(),
                        k - 1,
                        envs1,
                        scope,
                        fuel,
                    );
                }
            }
        },
    }
}

/// The built-ins are pure: `push` builds a new array with the element
/// appended, and the argument array itself is part of the result only by
/// value — no built-in receives the environment at all, so no binding can
/// change.
pub proof fn lemma_push_is_pure(a: Seq<ValueV>, v: ValueV)
    ensures
        crate::builtin::spec_apply_builtin(
            crate::object::BuiltinKind::Push,
            seq![ValueV::Array(a), v],
        ) == Ok::<ValueV, ErrV>(ValueV::Array(a.push(v))),
{
    let args = seq![ValueV::Array(a), v];
    assert(args.len() == 2);
    assert(args[0] == ValueV::Array(a));
    assert(args[1] == v);
}

/// Indexing an array with an integer inside `[0, len)` yields that
/// element; any other integer is an index-out-of-bounds error, negative
/// indices included.
pub proof fn lemma_array_index_semantics(a: Seq<ValueV>, i: i64)
    ensures
        0 <= i < a.len() ==> crate::eval::spec_index_of_array(a, i) == Ok::<ValueV, ErrV>(
            a[i as int],
        ),
        (i < 0 || i >= a.len()) ==> crate::eval::spec_index_of_array(a, i) == Err::<
            ValueV,
            ErrV,
        >(
            ErrV::IndexOutOfBounds { index: i, max: crate::builtin::len_as_i64(a.len() as int) },
        ),
{
}

/// A hash lookup under a missing digest yields `Null`, not an error; a
/// present digest yields the stored value.
pub proof fn lemma_hash_miss_is_null(entries: Seq<(u64, ValueV, ValueV)>, d: u64)
    ensures
        crate::eval::hash_find(entries, d) is None ==> crate::eval::spec_hash_lookup_value(
            entries,
            d,
        ) == ValueV::Null,
        crate::eval::hash_find(entries, d) matches Some(v)
            ==> crate::eval::spec_hash_lookup_value(entries, d) == v,
{
}

/// The parser never abandons a program on a failed statement: every error
/// already recorded stays, the failing statement's error is appended, and
/// parsing resumes with the next statement.
pub proof fn lemma_parser_accumulates_errors(
    toks: Seq<TokenV>,
    p: int,
    stmts: Seq<crate::ast::StmtV>,
    errs: Seq<crate::parse_error::ParserError>,
    fuel: nat,
)
    ensures
        ({
            let (s1, e1, p1) = crate::parser::sp_program_loop(toks, p, stmts, errs, fuel);
            e1.len() >= errs.len() && e1.take(errs.len() as int) == errs
        }),
    decreases fuel,
{
    if !(crate::parser::tok_at(toks, p) is Eof) && fuel != 0 {
        let (r, errs1, p1) = crate::parser::sp_statement(toks, p, (fuel - 1) as nat);
        let stmts2 = match r {
            Ok(st) => stmts.push(st),
            Err(_) => stmts,
        };
        let errs2 = match r {
            Ok(_) => errs + errs1,
            Err(e) => if e is UnexpectedStatementStart {
                errs + errs1
            } else {
                errs + errs1 + seq![e]
            },
        };
        assert(errs2.take(errs.len() as int) =~= errs);
        lemma_parser_accumulates_errors(
            toks,
            crate::parser::sp_adv(toks, p1),
            stmts2,
            errs2,
            (fuel - 1) as nat,
        );
        let (s1, e1, p2) = crate::parser::sp_program_loop(
            toks,
            crate::parser::sp_adv(toks, p1),
            stmts2,
            errs2,
            (fuel - 1) as nat,
        );
        assert(e1.take(errs.len() as int) =~= errs) by {
            assert(e1.take(errs2.len() as int) == errs2);
            assert forall|i: int| 0 <= i < errs.len() implies e1[i] == errs[i] by {
                assert(e1.take(errs2.len() as int)[i] == errs2[i]);
                assert(errs2[i] == errs[i]);
            }
        }
    }
}

} // verus!
