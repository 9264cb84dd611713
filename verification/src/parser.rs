use vstd::prelude::*;

use crate::ast::{BlockStatement, Expression, ExprV, Identifier, Precedence, Program, Statement,
    StmtV};
use crate::lexer::{spec_tokenize, Lexer};
use crate::parse_error::{spec_token_type, ParserError, TokenType};
use crate::token::{lemma_tokens_view, lemma_tokens_view_push, tokens_view, Token, TokenV};

verus! {

/// The token at position `i`, or the end-of-input marker once the position
/// has run past the stream.
pub open spec fn tok_at(toks: Seq<TokenV>, i: int) -> TokenV {
    if 0 <= i < toks.len() {
        toks[i]
    } else {
        TokenV::Eof
    }
}

/// One step forward, saturating at the end of the stream.
pub open spec fn sp_adv(toks: Seq<TokenV>, p: int) -> int {
    if 0 <= p < toks.len() {
        p + 1
    } else {
        p
    }
}

/// The tokens that may open an expression.
pub open spec fn spec_is_prefix(t: TokenV) -> bool {
    match t {
        TokenV::Dash | TokenV::Bang | TokenV::Int(_) | TokenV::Ident(_) | TokenV::Bool(_)
            | TokenV::LParen | TokenV::LBrace | TokenV::LBracket | TokenV::If
            | TokenV::Function | TokenV::StrLit(_) => true,
        _ => false,
    }
}

/// The tokens that may continue an expression in infix position.
pub open spec fn spec_is_infix(t: TokenV) -> bool {
    match t {
        TokenV::Equal | TokenV::NotEqual | TokenV::LessThan | TokenV::LessThanEqual
            | TokenV::GreaterThanEqual | TokenV::GreaterThan | TokenV::Plus | TokenV::Dash
            | TokenV::ForwardSlash | TokenV::LParen | TokenV::LBracket | TokenV::Asterisk => true,
        _ => false,
    }
}

/// The recursion budget the parser starts with: generous enough for any
/// expression the token stream can spell, and saturating so that it is
/// defined for every stream length.
pub open spec fn parser_fuel(n: nat) -> nat {
    if 8 * n + 64 <= 0xffff_ffff_ffff_ffff {
        8 * n + 64
    } else {
        0xffff_ffff_ffff_ffff
    }
}

/// Precedence climbing, spec side: parse a prefix form at `p`, then fold
/// infix continuations while the upcoming operator binds tighter than
/// `prec`.  Results are the parsed model, the parse errors recorded along
/// the way (inside blocks), and the position after the expression.
pub open spec fn sp_expression(toks: Seq<TokenV>, p: int, prec: i8, fuel: nat) -> (
    Result<ExprV, ParserError>,
    Seq<ParserError>,
    int,
)
    decreases fuel,
{
    if fuel == 0 {
        (Err(ParserError::DepthLimit), Seq::empty(), p)
    } else if !spec_is_prefix(tok_at(toks, p)) {
        (Err(ParserError::NoValidPrefix(spec_token_type(tok_at(toks, p)))), Seq::empty(), p)
    } else {
        let (r, errs, p1) = sp_prefix_expression(toks, p, (fuel - 1) as nat);
        match r {
            Err(e) => (Err(e), errs, p1),
            Ok(left) => {
                let (r2, errs2, p2) = sp_expr_loop(toks, p1, left, prec, (fuel - 1) as nat);
                (r2, errs + errs2, p2)
            },
        }
    }
}

/// The infix-folding loop of precedence climbing.
pub open spec fn sp_expr_loop(toks: Seq<TokenV>, p: int, left: ExprV, prec: i8, fuel: nat) -> (
    Result<ExprV, ParserError>,
    Seq<ParserError>,
    int,
)
    decreases fuel,
{
    if fuel == 0 {
        (Err(ParserError::DepthLimit), Seq::empty(), p)
    } else {
        let peek = tok_at(toks, p + 1);
        if peek is Semicolon || !(prec < crate::ast::spec_precedence(peek)) {
            (Ok(left), Seq::empty(), p)
        } else if !spec_is_infix(peek) {
            (Ok(left), Seq::empty(), p)
        } else {
            let p1 = sp_adv(toks, p);
            let (r, errs, p2) = match tok_at(toks, p1) {
                TokenV::LParen => sp_call_expression(toks, p1, left, (fuel - 1) as nat),
                TokenV::LBracket => sp_array_index(toks, p1, left, (fuel - 1) as nat),
                _ => sp_infix_expression(toks, p1, left, (fuel - 1) as nat),
            };
            match r {
                Err(e) => (Err(e), errs, p2),
                Ok(l2) => {
                    let (r3, errs3, p3) = sp_expr_loop(toks, p2, l2, prec, (fuel - 1) as nat);
                    (r3, errs + errs3, p3)
                },
            }
        }
    }
}

/// A prefix form: a literal, an identifier, a grouped expression, an `if`,
/// a function literal, an array or map literal, or a unary operator
/// application.
pub open spec fn sp_prefix_expression(toks: Seq<TokenV>, p: int, fuel: nat) -> (
    Result<ExprV, ParserError>,
    Seq<ParserError>,
    int,
)
    decreases fuel,
{
    if fuel == 0 {
        (Err(ParserError::DepthLimit), Seq::empty(), p)
    } else {
        match tok_at(toks, p) {
            TokenV::Ident(name) => (Ok(ExprV::Identifier(name)), Seq::empty(), p),
            TokenV::Int(i) => (Ok(ExprV::IntLiteral(i)), Seq::empty(), p),
            TokenV::StrLit(s) => (Ok(ExprV::StringLiteral(s)), Seq::empty(), p),
            TokenV::Bool(b) => (Ok(ExprV::Bool(b)), Seq::empty(), p),
            TokenV::LParen => sp_grouped(toks, p, (fuel - 1) as nat),
            TokenV::If => sp_if(toks, p, (fuel - 1) as nat),
            TokenV::Function => sp_fn(toks, p, (fuel - 1) as nat),
            TokenV::LBracket => sp_array(toks, p, (fuel - 1) as nat),
            TokenV::LBrace => sp_hash(toks, p, (fuel - 1) as nat),
            t => {
                let p1 = sp_adv(toks, p);
                let (r, errs, p2) = sp_expression(toks, p1, 5, (fuel - 1) as nat);
                match r {
                    Err(e) => (Err(e), errs, p2),
                    Ok(e) => (Ok(ExprV::PrefixExpression(t, Box::new(e))), errs, p2),
                }
            },
        }
    }
}

/// An ordinary binary operator continuation: the operator is the current
/// token, and its right-hand side is parsed at the operator's own
/// precedence (left associativity).
pub open spec fn sp_infix_expression(toks: Seq<TokenV>, p: int, left: ExprV, fuel: nat) -> (
    Result<ExprV, ParserError>,
    Seq<ParserError>,
    int,
)
    decreases fuel,
{
    if fuel == 0 {
        (Err(ParserError::DepthLimit), Seq::empty(), p)
    } else {
        let t = tok_at(toks, p);
        let prec = crate::ast::spec_precedence(t);
        let p1 = sp_adv(toks, p);
        let (r, errs, p2) = sp_expression(toks, p1, prec, (fuel - 1) as nat);
        match r {
            Err(e) => (Err(e), errs, p2),
            Ok(rhs) => (
                Ok(ExprV::InfixExpression(t, Box::new(left), Box::new(rhs))),
                errs,
                p2,
            ),
        }
    }
}

/// A call continuation: the current token is the opening parenthesis.
pub open spec fn sp_call_expression(toks: Seq<TokenV>, p: int, left: ExprV, fuel: nat) -> (
    Result<ExprV, ParserError>,
    Seq<ParserError>,
    int,
)
    decreases fuel,
{
    if fuel == 0 {
        (Err(ParserError::DepthLimit), Seq::empty(), p)
    } else {
        let (r, errs, p1) = sp_call_arguments(toks, p, (fuel - 1) as nat);
        match r {
            Err(e) => (Err(e), errs, p1),
            Ok(args) => (Ok(ExprV::CallExpression(Box::new(left), args)), errs, p1),
        }
    }
}

/// A comma-separated argument list up to the closing parenthesis.
pub open spec fn sp_call_arguments(toks: Seq<TokenV>, p: int, fuel: nat) -> (
    Result<Seq<ExprV>, ParserError>,
    Seq<ParserError>,
    int,
)
    decreases fuel,
{
    if fuel == 0 {
        (Err(ParserError::DepthLimit), Seq::empty(), p)
    } else if tok_at(toks, p + 1) is RParent {
        (Ok(Seq::empty()), Seq::empty(), sp_adv(toks, p))
    } else {
        let p1 = sp_adv(toks, p);
        let (r, errs, p2) = sp_expression(toks, p1, 0, (fuel - 1) as nat);
        match r {
            Err(e) => (Err(e), errs, p2),
            Ok(e0) => {
                let (r2, errs2, p3) = sp_args_loop(toks, p2, seq![e0], (fuel - 1) as nat);
                (r2, errs + errs2, p3)
            },
        }
    }
}

/// The comma loop of an argument list, ending at the closing parenthesis.
pub open spec fn sp_args_loop(toks: Seq<TokenV>, p: int, acc: Seq<ExprV>, fuel: nat) -> (
    Result<Seq<ExprV>, ParserError>,
    Seq<ParserError>,
    int,
)
    decreases fuel,
{
    if fuel == 0 {
        (Err(ParserError::DepthLimit), Seq::empty(), p)
    } else if tok_at(toks, p + 1) is Comma {
        let pa = sp_adv(toks, sp_adv(toks, p));
        let (r, errs, p2) = sp_expression(toks, pa, 0, (fuel - 1) as nat);
        match r {
            Err(e) => (Err(e), errs, p2),
            Ok(e) => {
                let (r2, errs2, p3) = sp_args_loop(toks, p2, acc.push(e), (fuel - 1) as nat);
                (r2, errs + errs2, p3)
            },
        }
    } else if tok_at(toks, p + 1) is RParent {
        (Ok(acc), Seq::empty(), sp_adv(toks, p))
    } else {
        (
            Err(
                ParserError::WrongPeekToken {
                    expected_token: TokenType::Rparen,
                    actual_token: spec_token_type(tok_at(toks, p + 1)),
                },
            ),
            Seq::empty(),
            p,
        )
    }
}

/// An array literal: the current token is the opening bracket.
pub open spec fn sp_array(toks: Seq<TokenV>, p: int, fuel: nat) -> (
    Result<ExprV, ParserError>,
    Seq<ParserError>,
    int,
)
    decreases fuel,
{
    if fuel == 0 {
        (Err(ParserError::DepthLimit), Seq::empty(), p)
    } else if tok_at(toks, p + 1) is RBracket {
        (Ok(ExprV::Arrary(Seq::empty())), Seq::empty(), sp_adv(toks, p))
    } else {
        let p1 = sp_adv(toks, p);
        let (r, errs, p2) = sp_expression(toks, p1, 0, (fuel - 1) as nat);
        match r {
            Err(e) => (Err(e), errs, p2),
            Ok(e0) => {
                let (r2, errs2, p3) = sp_array_loop(toks, p2, seq![e0], (fuel - 1) as nat);
                match r2 {
                    Err(e) => (Err(e), errs + errs2, p3),
                    Ok(elems) => (Ok(ExprV::Arrary(elems)), errs + errs2, p3),
                }
            },
        }
    }
}

/// The comma loop of an array literal, ending at the closing bracket.
pub open spec fn sp_array_loop(toks: Seq<TokenV>, p: int, acc: Seq<ExprV>, fuel: nat) -> (
    Result<Seq<ExprV>, ParserError>,
    Seq<ParserError>,
    int,
)
    decreases fuel,
{
    if fuel == 0 {
        (Err(ParserError::DepthLimit), Seq::empty(), p)
    } else if tok_at(toks, p + 1) is Comma {
        let pa = sp_adv(toks, sp_adv(toks, p));
        let (r, errs, p2) = sp_expression(toks, pa, 0, (fuel - 1) as nat);
        match r {
            Err(e) => (Err(e), errs, p2),
            Ok(e) => {
                let (r2, errs2, p3) = sp_array_loop(toks, p2, acc.push(e), (fuel - 1) as nat);
                (r2, errs + errs2, p3)
            },
        }
    } else if tok_at(toks, p + 1) is RBracket {
        (Ok(acc), Seq::empty(), sp_adv(toks, p))
    } else {
        (
            Err(
                ParserError::WrongPeekToken {
                    expected_token: TokenType::RBracket,
                    actual_token: spec_token_type(tok_at(toks, p + 1)),
                },
            ),
            Seq::empty(),
            p,
        )
    }
}

/// An index continuation: the current token is the opening bracket after a
/// collection expression.
pub open spec fn sp_array_index(toks: Seq<TokenV>, p: int, left: ExprV, fuel: nat) -> (
    Result<ExprV, ParserError>,
    Seq<ParserError>,
    int,
)
    decreases fuel,
{
    if fuel == 0 {
        (Err(ParserError::DepthLimit), Seq::empty(), p)
    } else {
        let p1 = sp_adv(toks, p);
        let (r, errs, p2) = sp_expression(toks, p1, 0, (fuel - 1) as nat);
        match r {
            Err(e) => (Err(e), errs, p2),
            Ok(ix) => if tok_at(toks, p2 + 1) is RBracket {
                (
                    Ok(ExprV::IndexExpression(Box::new(left), Box::new(ix))),
                    errs,
                    sp_adv(toks, p2),
                )
            } else {
                (
                    Err(
                        ParserError::WrongPeekToken {
                            expected_token: TokenType::RBracket,
                            actual_token: spec_token_type(tok_at(toks, p2 + 1)),
                        },
                    ),
                    errs,
                    p2,
                )
            },
        }
    }
}

/// A parenthesized group.
pub open spec fn sp_grouped(toks: Seq<TokenV>, p: int, fuel: nat) -> (
    Result<ExprV, ParserError>,
    Seq<ParserError>,
    int,
)
    decreases fuel,
{
    if fuel == 0 {
        (Err(ParserError::DepthLimit), Seq::empty(), p)
    } else {
        let p1 = sp_adv(toks, p);
        let (r, errs, p2) = sp_expression(toks, p1, 0, (fuel - 1) as nat);
        match r {
            Err(e) => (Err(e), errs, p2),
            Ok(e) => if tok_at(toks, p2 + 1) is RParent {
                (Ok(e), errs, sp_adv(toks, p2))
            } else {
                (
                    Err(
                        ParserError::WrongPeekToken {
                            expected_token: TokenType::Rparen,
                            actual_token: spec_token_type(tok_at(toks, p2 + 1)),
                        },
                    ),
                    errs,
                    p2,
                )
            },
        }
    }
}

/// An `if` expression: parenthesized condition, consequence block, and an
/// optional `else` block.
pub open spec fn sp_if(toks: Seq<TokenV>, p: int, fuel: nat) -> (
    Result<ExprV, ParserError>,
    Seq<ParserError>,
    int,
)
    decreases fuel,
{
    if fuel == 0 {
        (Err(ParserError::DepthLimit), Seq::empty(), p)
    } else if !(tok_at(toks, p + 1) is LParen) {
        (
            Err(
                ParserError::WrongPeekToken {
                    expected_token: TokenType::Lparen,
                    actual_token: spec_token_type(tok_at(toks, p + 1)),
                },
            ),
            Seq::empty(),
            p,
        )
    } else {
        let p1 = sp_adv(toks, p);
        let p2 = sp_adv(toks, p1);
        let (rc, errs, p3) = sp_expression(toks, p2, 0, (fuel - 1) as nat);
        match rc {
            Err(e) => (Err(e), errs, p3),
            Ok(cond) => if !(tok_at(toks, p3 + 1) is RParent) {
                (
                    Err(
                        ParserError::WrongPeekToken {
                            expected_token: TokenType::Rparen,
                            actual_token: spec_token_type(tok_at(toks, p3 + 1)),
                        },
                    ),
                    errs,
                    p3,
                )
            } else {
                let p4 = sp_adv(toks, p3);
                if !(tok_at(toks, p4 + 1) is LBrace) {
                    (
                        Err(
                            ParserError::WrongPeekToken {
                                expected_token: TokenType::LSquirly,
                                actual_token: spec_token_type(tok_at(toks, p4 + 1)),
                            },
                        ),
                        errs,
                        p4,
                    )
                } else {
                    let p5 = sp_adv(toks, p4);
                    let (b1, errs2, p6) = sp_block(toks, p5, (fuel - 1) as nat);
                    if tok_at(toks, p6 + 1) is Else {
                        let p7 = sp_adv(toks, p6);
                        if !(tok_at(toks, p7 + 1) is LBrace) {
                            (
                                Err(
                                    ParserError::WrongPeekToken {
                                        expected_token: TokenType::LSquirly,
                                        actual_token: spec_token_type(tok_at(toks, p7 + 1)),
                                    },
                                ),
                                errs + errs2,
                                p7,
                            )
                        } else {
                            let p8 = sp_adv(toks, p7);
                            let (b2, errs3, p9) = sp_block(toks, p8, (fuel - 1) as nat);
                            (
                                Ok(ExprV::IfExpression(Box::new(cond), b1, Some(b2))),
                                errs + errs2 + errs3,
                                p9,
                            )
                        }
                    } else {
                        (
                            Ok(ExprV::IfExpression(Box::new(cond), b1, None)),
                            errs + errs2,
                            p6,
                        )
                    }
                }
            },
        }
    }
}

/// A function literal: parameter list, then body block.
pub open spec fn sp_fn(toks: Seq<TokenV>, p: int, fuel: nat) -> (
    Result<ExprV, ParserError>,
    Seq<ParserError>,
    int,
)
    decreases fuel,
{
    if fuel == 0 {
        (Err(ParserError::DepthLimit), Seq::empty(), p)
    } else if !(tok_at(toks, p + 1) is LParen) {
        (
            Err(
                ParserError::WrongPeekToken {
                    expected_token: TokenType::Lparen,
                    actual_token: spec_token_type(tok_at(toks, p + 1)),
                },
            ),
            Seq::empty(),
            p,
        )
    } else {
        let p1 = sp_adv(toks, p);
        let (rp, p2) = sp_fn_params(toks, p1, (fuel - 1) as nat);
        match rp {
            Err(e) => (Err(e), Seq::empty(), p2),
            Ok(params) => if !(tok_at(toks, p2 + 1) is LBrace) {
                (
                    Err(
                        ParserError::WrongPeekToken {
                            expected_token: TokenType::LSquirly,
                            actual_token: spec_token_type(tok_at(toks, p2 + 1)),
                        },
                    ),
                    Seq::empty(),
                    p2,
                )
            } else {
                let p3 = sp_adv(toks, p2);
                let (body, errs, p4) = sp_block(toks, p3, (fuel - 1) as nat);
                (Ok(ExprV::FnExpression(params, body)), errs, p4)
            },
        }
    }
}

/// A comma-separated parameter-name list up to the closing parenthesis.
pub open spec fn sp_fn_params(toks: Seq<TokenV>, p: int, fuel: nat) -> (
    Result<Seq<Seq<char>>, ParserError>,
    int,
)
    decreases fuel,
{
    if fuel == 0 {
        (Err(ParserError::DepthLimit), p)
    } else if tok_at(toks, p + 1) is RParent {
        (Ok(Seq::empty()), sp_adv(toks, p))
    } else {
        let p1 = sp_adv(toks, p);
        match tok_at(toks, p1) {
            TokenV::Ident(name) => sp_params_loop(toks, p1, seq![name], (fuel - 1) as nat),
            _ => (
                Err(
                    ParserError::WrongPeekToken {
                        expected_token: TokenType::Identifier,
                        actual_token: spec_token_type(tok_at(toks, p1 + 1)),
                    },
                ),
                p1,
            ),
        }
    }
}

/// The comma loop of a parameter list.
pub open spec fn sp_params_loop(toks: Seq<TokenV>, p: int, acc: Seq<Seq<char>>, fuel: nat) -> (
    Result<Seq<Seq<char>>, ParserError>,
    int,
)
    decreases fuel,
{
    if fuel == 0 {
        (Err(ParserError::DepthLimit), p)
    } else if tok_at(toks, p + 1) is Comma {
        let pa = sp_adv(toks, sp_adv(toks, p));
        match tok_at(toks, pa) {
            TokenV::Ident(name) => sp_params_loop(toks, pa, acc.push(name), (fuel - 1) as nat),
            _ => (
                Err(
                    ParserError::WrongPeekToken {
                        expected_token: TokenType::Identifier,
                        actual_token: spec_token_type(tok_at(toks, pa + 1)),
                    },
                ),
                pa,
            ),
        }
    } else if tok_at(toks, p + 1) is RParent {
        (Ok(acc), sp_adv(toks, p))
    } else {
        (
            Err(
                ParserError::WrongPeekToken {
                    expected_token: TokenType::Rparen,
                    actual_token: spec_token_type(tok_at(toks, p + 1)),
                },
            ),
            p,
        )
    }
}

/// A map literal: `key : value` pairs separated by commas, up to the
/// closing brace.
pub open spec fn sp_hash(toks: Seq<TokenV>, p: int, fuel: nat) -> (
    Result<ExprV, ParserError>,
    Seq<ParserError>,
    int,
)
    decreases fuel,
{
    if fuel == 0 {
        (Err(ParserError::DepthLimit), Seq::empty(), p)
    } else if tok_at(toks, p + 1) is RBrace {
        (Ok(ExprV::MapLiteral(Seq::empty())), Seq::empty(), sp_adv(toks, p))
    } else {
        let (r, errs, p1) = sp_hash_loop(toks, p, Seq::empty(), (fuel - 1) as nat);
        match r {
            Err(e) => (Err(e), errs, p1),
            Ok(pairs) => (Ok(ExprV::MapLiteral(pairs)), errs, p1),
        }
    }
}

/// The pair loop of a map literal.
pub open spec fn sp_hash_loop(
    toks: Seq<TokenV>,
    p: int,
    acc: Seq<(ExprV, ExprV)>,
    fuel: nat,
) -> (Result<Seq<(ExprV, ExprV)>, ParserError>, Seq<ParserError>, int)
    decreases fuel,
{
    if fuel == 0 {
        (Err(ParserError::DepthLimit), Seq::empty(), p)
    } else {
        let p1 = sp_adv(toks, p);
        let (rk, errs, p2) = sp_expression(toks, p1, 0, (fuel - 1) as nat);
        match rk {
            Err(e) => (Err(e), errs, p2),
            Ok(k) => if !(tok_at(toks, p2 + 1) is Colon) {
                (
                    Err(
                        ParserError::WrongPeekToken {
                            expected_token: TokenType::Colon,
                            actual_token: spec_token_type(tok_at(toks, p2 + 1)),
                        },
                    ),
                    errs,
                    p2,
                )
            } else {
                let p3 = sp_adv(toks, p2);
                let p4 = sp_adv(toks, p3);
                let (rv, errs2, p5) = sp_expression(toks, p4, 0, (fuel - 1) as nat);
                match rv {
                    Err(e) => (Err(e), errs + errs2, p5),
                    Ok(v) => if tok_at(toks, p5 + 1) is Comma {
                        let p6 = sp_adv(toks, p5);
                        let (r3, errs3, p7) = sp_hash_loop(
                            toks,
                            p6,
                            acc.push((k, v)),
                            (fuel - 1) as nat,
                        );
                        (r3, errs + errs2 + errs3, p7)
                    } else if tok_at(toks, p5 + 1) is RBrace {
                        (Ok(acc.push((k, v))), errs + errs2, sp_adv(toks, p5))
                    } else {
                        (
                            Err(
                                ParserError::WrongPeekToken {
                                    expected_token: TokenType::RSquirly,
                                    actual_token: spec_token_type(tok_at(toks, p5 + 1)),
                                },
                            ),
                            errs + errs2,
                            p5,
                        )
                    },
                }
            },
        }
    }
}

/// One statement: `let`, `return`, or an expression statement.
pub open spec fn sp_statement(toks: Seq<TokenV>, p: int, fuel: nat) -> (
    Result<StmtV, ParserError>,
    Seq<ParserError>,
    int,
)
    decreases fuel,
{
    if fuel == 0 {
        (Err(ParserError::DepthLimit), Seq::empty(), p)
    } else {
        match tok_at(toks, p) {
            TokenV::Let => sp_let(toks, p, (fuel - 1) as nat),
            TokenV::Return => sp_return(toks, p, (fuel - 1) as nat),
            _ => sp_expression_statement(toks, p, (fuel - 1) as nat),
        }
    }
}

/// `let <identifier> = <expression> ;` with the semicolon optional.
pub open spec fn sp_let(toks: Seq<TokenV>, p: int, fuel: nat) -> (
    Result<StmtV, ParserError>,
    Seq<ParserError>,
    int,
)
    decreases fuel,
{
    if fuel == 0 {
        (Err(ParserError::DepthLimit), Seq::empty(), p)
    } else {
        match tok_at(toks, p + 1) {
            TokenV::Ident(name) => {
                let p1 = sp_adv(toks, p);
                if !(tok_at(toks, p1 + 1) is Assign) {
                    (
                        Err(
                            ParserError::WrongPeekToken {
                                expected_token: TokenType::Assign,
                                actual_token: spec_token_type(tok_at(toks, p1 + 1)),
                            },
                        ),
                        Seq::empty(),
                        p1,
                    )
                } else {
                    let p2 = sp_adv(toks, p1);
                    let p3 = sp_adv(toks, p2);
                    let (re, errs, p4) = sp_expression(toks, p3, 0, (fuel - 1) as nat);
                    match re {
                        Err(e) => (Err(e), errs, p4),
                        Ok(e) => {
                            let p5 = if tok_at(toks, p4 + 1) is Semicolon {
                                sp_adv(toks, p4)
                            } else {
                                p4
                            };
                            (Ok(StmtV::Let(name, e)), errs, p5)
                        },
                    }
                }
            },
            other => (
                Err(
                    ParserError::WrongPeekToken {
                        expected_token: TokenType::Identifier,
                        actual_token: spec_token_type(other),
                    },
                ),
                Seq::empty(),
                p,
            ),
        }
    }
}

/// `return <expression> ;` with the semicolon optional.
pub open spec fn sp_return(toks: Seq<TokenV>, p: int, fuel: nat) -> (
    Result<StmtV, ParserError>,
    Seq<ParserError>,
    int,
)
    decreases fuel,
{
    if fuel == 0 {
        (Err(ParserError::DepthLimit), Seq::empty(), p)
    } else {
        let p1 = sp_adv(toks, p);
        let (re, errs, p2) = sp_expression(toks, p1, 0, (fuel - 1) as nat);
        match re {
            Err(e) => (Err(e), errs, p2),
            Ok(e) => {
                let p3 = if tok_at(toks, p2 + 1) is Semicolon {
                    sp_adv(toks, p2)
                } else {
                    p2
                };
                (Ok(StmtV::Return(e)), errs, p3)
            },
        }
    }
}

/// A bare expression as a statement, with an optional trailing semicolon.
pub open spec fn sp_expression_statement(toks: Seq<TokenV>, p: int, fuel: nat) -> (
    Result<StmtV, ParserError>,
    Seq<ParserError>,
    int,
)
    decreases fuel,
{
    if fuel == 0 {
        (Err(ParserError::DepthLimit), Seq::empty(), p)
    } else {
        let (re, errs, p1) = sp_expression(toks, p, 0, (fuel - 1) as nat);
        match re {
            Err(e) => (Err(e), errs, p1),
            Ok(e) => {
                let p2 = if tok_at(toks, p1 + 1) is Semicolon {
                    sp_adv(toks, p1)
                } else {
                    p1
                };
                (Ok(StmtV::ExpressionStatement(e)), errs, p2)
            },
        }
    }
}

/// A block body: statements until the closing brace (or the end of input,
/// for an unterminated block); failed statements are recorded and skipped.
pub open spec fn sp_block(toks: Seq<TokenV>, p: int, fuel: nat) -> (
    Seq<StmtV>,
    Seq<ParserError>,
    int,
)
    decreases fuel,
{
    if fuel == 0 {
        (Seq::empty(), Seq::empty(), p)
    } else {
        sp_block_loop(toks, sp_adv(toks, p), Seq::empty(), Seq::empty(), (fuel - 1) as nat)
    }
}

/// The statement loop of a block.
pub open spec fn sp_block_loop(
    toks: Seq<TokenV>,
    p: int,
    stmts: Seq<StmtV>,
    errs: Seq<ParserError>,
    fuel: nat,
) -> (Seq<StmtV>, Seq<ParserError>, int)
    decreases fuel,
{
    if tok_at(toks, p) is RBrace || tok_at(toks, p) is Eof {
        (stmts, errs, p)
    } else if fuel == 0 {
        (stmts, errs, p)
    } else {
        let (r, errs1, p1) = sp_statement(toks, p, (fuel - 1) as nat);
        let stmts2 = match r {
            Ok(st) => stmts.push(st),
            Err(_) => stmts,
        };
        let errs2 = match r {
            Ok(_) => errs + errs1,
            Err(e) => if e is UnexpectedStatementStart {
                errs + errs1
            } else {
                errs + errs1 + seq![e]
            },
        };
        sp_block_loop(toks, sp_adv(toks, p1), stmts2, errs2, (fuel - 1) as nat)
    }
}

/// A whole program: statements until the end of input; failed statements
/// are recorded and skipped, so one pass collects every syntax error.
pub open spec fn sp_program(toks: Seq<TokenV>, p: int, fuel: nat) -> (
    Seq<StmtV>,
    Seq<ParserError>,
    int,
)
    decreases fuel,
{
    sp_program_loop(toks, p, Seq::empty(), Seq::empty(), fuel)
}

/// The statement loop of a program.
pub open spec fn sp_program_loop(
    toks: Seq<TokenV>,
    p: int,
    stmts: Seq<StmtV>,
    errs: Seq<ParserError>,
    fuel: nat,
) -> (Seq<StmtV>, Seq<ParserError>, int)
    decreases fuel,
{
    if tok_at(toks, p) is Eof {
        (stmts, errs, p)
    } else if fuel == 0 {
        (stmts, errs, p)
    } else {
        let (r, errs1, p1) = sp_statement(toks, p, (fuel - 1) as nat);
        let stmts2 = match r {
            Ok(st) => stmts.push(st),
            Err(_) => stmts,
        };
        let errs2 = match r {
            Ok(_) => errs + errs1,
            Err(e) => if e is UnexpectedStatementStart {
                errs + errs1
            } else {
                errs + errs1 + seq![e]
            },
        };
        sp_program_loop(toks, sp_adv(toks, p1), stmts2, errs2, (fuel - 1) as nat)
    }
}

/// An exec parse result matches a spec parse result when the error is the
/// same or the parsed tree has the spec tree as its model.
pub open spec fn expr_result_matches(
    r: Result<Expression, ParserError>,
    s: Result<ExprV, ParserError>,
) -> bool {
    match r {
        Ok(e) => s == Ok::<ExprV, ParserError>(e@),
        Err(er) => s == Err::<ExprV, ParserError>(er),
    }
}

/// Statement-level counterpart of `expr_result_matches`.
pub open spec fn stmt_result_matches(
    r: Result<Statement, ParserError>,
    s: Result<StmtV, ParserError>,
) -> bool {
    match r {
        Ok(st) => s == Ok::<StmtV, ParserError>(st@),
        Err(er) => s == Err::<StmtV, ParserError>(er),
    }
}

/// A value that can be pulled out of a token, as `expect_peek` hands it
/// back: an identifier's name, an integer literal's value, or nothing.
pub trait ExtractValue: Sized {
    /// Whether the token carries a value of this kind.
    spec fn accepts(t: TokenV) -> bool;

    /// Whether `v` is the value the token carries.
    spec fn value_matches(v: Self, t: TokenV) -> bool;

    /// The token kind named in the error when extraction fails.
    spec fn expected_type() -> TokenType;

    /// Pulls the value out of the token, or reports the mismatch.
    fn extract(token: Token) -> (r: Result<Self, ParserError>)
        ensures
            match r {
                Ok(v) => Self::accepts(token@) && Self::value_matches(v, token@),
                Err(e) => !Self::accepts(token@) && e == (ParserError::WrongToken {
                    expected_token: Self::expected_type(),
                    actual_token: spec_token_type(token@),
                }),
            },
    ;
}

impl ExtractValue for String {
    open spec fn accepts(t: TokenV) -> bool {
        t is Ident
    }

    open spec fn value_matches(v: Self, t: TokenV) -> bool {
        t matches TokenV::Ident(name) && v@ == name
    }

    open spec fn expected_type() -> TokenType {
        TokenType::Identifier
    }

    fn extract(token: Token) -> (r: Result<Self, ParserError>) {
        if let Token::Ident(value) = token {
            Ok(value)
        } else {
            Err(
                ParserError::WrongToken {
                    expected_token: TokenType::Identifier,
                    actual_token: TokenType::from_token(&token),
                },
            )
        }
    }
}

impl ExtractValue for i64 {
    open spec fn accepts(t: TokenV) -> bool {
        t is Int
    }

    open spec fn value_matches(v: Self, t: TokenV) -> bool {
        t matches TokenV::Int(i) && v == i
    }

    open spec fn expected_type() -> TokenType {
        TokenType::Int
    }

    fn extract(token: Token) -> (r: Result<Self, ParserError>) {
        if let Token::Int(value) = token {
            Ok(value)
        } else {
            Err(
                ParserError::WrongToken {
                    expected_token: TokenType::Int,
                    actual_token: TokenType::from_token(&token),
                },
            )
        }
    }
}

impl ExtractValue for () {
    open spec fn accepts(t: TokenV) -> bool {
        true
    }

    open spec fn value_matches(v: Self, t: TokenV) -> bool {
        true
    }

    open spec fn expected_type() -> TokenType {
        TokenType::Eof
    }

    fn extract(_token: Token) -> (r: Result<Self, ParserError>) {
        Ok(())
    }
}

/// The parser: the full token stream, a cursor with one token of
/// lookahead, and the list of errors collected so far.
#[derive(Debug)]
pub struct Parser {
    tokens: Vec<Token>,
    pos: usize,
    cur_token: Token,
    peek_token: Token,
    input: String,
    pub parse_errors: Vec<ParserError>,
}

impl Parser {
    /// The model of the token stream.
    pub closed spec fn toks(&self) -> Seq<TokenV> {
        tokens_view(self.tokens@)
    }

    /// The cursor position.
    pub closed spec fn pos_spec(&self) -> int {
        self.pos as int
    }

    /// The source text the tokens came from.
    pub closed spec fn input_view(&self) -> Seq<char> {
        self.input@
    }

    /// The errors recorded so far.
    pub closed spec fn errors(&self) -> Seq<ParserError> {
        self.parse_errors@
    }

    /// Internal consistency: the cursor is inside the stream, and the two
    /// lookahead tokens cache the stream at the cursor.
    pub closed spec fn wf(&self) -> bool {
        &&& self.pos <= self.tokens@.len()
        &&& self.toks().len() == self.tokens@.len()
        &&& self.cur_token@ == tok_at(self.toks(), self.pos as int)
        &&& self.peek_token@ == tok_at(self.toks(), self.pos + 1)
    }

    /// The token at stream position `i` (end-of-input past the end).
    fn token_at(&self, i: usize) -> (r: Token)
        ensures
            r@ == tok_at(self.toks(), i as int),
    {
        proof {
            lemma_tokens_view(self.tokens@);
        }
        if i < self.tokens.len() {
            self.tokens[i].duplicate()
        } else {
            Token::Eof
        }
    }

    /// Builds a parser by draining the scanner's tokens up to the end of
    /// input.
    pub fn new(lex: Lexer) -> (r: Parser)
        requires
            lex.wf(),
        ensures
            r.wf(),
            r.toks() == spec_tokenize(lex@, lex.pos()),
            r.pos_spec() == 0,
            r.errors() == Seq::<ParserError>::empty(),
            r.input_view() == lex@,
    {
        let mut lex = lex;
        let input = lex.get_input();
        let ghost src = lex@;
        let ghost p0 = lex.pos();
        proof {
            lex.wf_bounds();
        }
        let mut tokens: Vec<Token> = Vec::new();
        let mut done = false;
        proof {
            assert(tokens_view(tokens@) =~= Seq::<TokenV>::empty());
            assert(tokens_view(tokens@) + spec_tokenize(src, p0) =~= spec_tokenize(src, p0));
        }
        while !done
            invariant
                lex.wf(),
                lex@ == src,
                !done ==> tokens_view(tokens@) + spec_tokenize(src, lex.pos()) == spec_tokenize(
                    src,
                    p0,
                ),
                done ==> tokens_view(tokens@) == spec_tokenize(src, p0),
                0 <= lex.pos() <= src.len(),
            decreases src.len() - lex.pos(), (if done { 0int } else { 1int }),
        {
            let ghost p = lex.pos();
            proof {
                crate::lexer::lemma_next_token_bounds(src, p);
            }
            let t = lex.next_token();
            if t.is_eof() {
                done = true;
                proof {
                    assert(spec_tokenize(src, p) =~= Seq::<TokenV>::empty());
                    assert(tokens_view(tokens@) + Seq::<TokenV>::empty() =~= tokens_view(
                        tokens@,
                    ));
                }
            } else {
                proof {
                    lemma_tokens_view_push(tokens@, t);
                    let (st, p1) = crate::lexer::spec_next_token(src, p);
                    assert(p1 >= p + 1 && p1 <= src.len());
                    assert(0 <= p < src.len());
                    assert(spec_tokenize(src, p) =~= seq![st] + spec_tokenize(src, p1));
                    assert(tokens_view(tokens@).push(t@) + spec_tokenize(src, p1)
                        =~= tokens_view(tokens@) + (seq![st] + spec_tokenize(src, p1)));
                }
                tokens.push(t);
            }
        }
        let cur_token = if tokens.len() > 0 {
            proof {
                lemma_tokens_view(tokens@);
            }
            tokens[0].duplicate()
        } else {
            Token::Eof
        };
        let peek_token = if tokens.len() > 1 {
            proof {
                lemma_tokens_view(tokens@);
            }
            tokens[1].duplicate()
        } else {
            Token::Eof
        };
        let r = Parser {
            tokens,
            pos: 0,
            cur_token,
            peek_token,
            input,
            parse_errors: Vec::new(),
        };
        proof {
            lemma_tokens_view(r.tokens@);
        }
        r
    }

    /// Hands back a copy of the source text.
    pub fn get_program_input(&self) -> (r: String)
        ensures
            r@ == self.input_view(),
    {
        self.input.clone()
    }

    /// Moves the cursor one token forward, saturating at the end.
    fn next_token(&mut self)
        requires
            old(self).wf(),
        ensures
            final(self).wf(),
            final(self).toks() == old(self).toks(),
            final(self).input_view() == old(self).input_view(),
            final(self).errors() == old(self).errors(),
            final(self).pos_spec() == sp_adv(old(self).toks(), old(self).pos_spec()),
    {
        if self.pos < self.tokens.len() {
            self.pos = self.pos + 1;
        }
        self.cur_token = self.token_at(self.pos);
        self.peek_token = if self.pos < self.tokens.len() {
            self.token_at(self.pos + 1)
        } else {
            Token::Eof
        };
    }

    /// The error for an unexpected upcoming token.
    fn peek_error(&self, expected_token: TokenType) -> (r: ParserError)
        requires
            self.wf(),
        ensures
            r == (ParserError::WrongPeekToken {
                expected_token,
                actual_token: spec_token_type(tok_at(self.toks(), self.pos_spec() + 1)),
            }),
    {
        ParserError::WrongPeekToken {
            expected_token,
            actual_token: TokenType::from_token(&self.peek_token),
        }
    }

    /// The error for an unexpected current token; like the original, it
    /// names the kind of the upcoming token.
    fn cur_error(&self, expected_token: TokenType) -> (r: ParserError)
        requires
            self.wf(),
        ensures
            r == (ParserError::WrongPeekToken {
                expected_token,
                actual_token: spec_token_type(tok_at(self.toks(), self.pos_spec() + 1)),
            }),
    {
        ParserError::WrongPeekToken {
            expected_token,
            actual_token: TokenType::from_token(&self.peek_token),
        }
    }

    /// If the upcoming token has the expected kind, steps onto it and pulls
    /// its value out; otherwise reports the mismatch without moving.
    fn expect_peek<T: ExtractValue>(&mut self, expected_token: TokenType) -> (r: Result<
        T,
        ParserError,
    >)
        requires
            old(self).wf(),
        ensures
            final(self).wf(),
            final(self).toks() == old(self).toks(),
            final(self).input_view() == old(self).input_view(),
            final(self).errors() == old(self).errors(),
            spec_token_type(tok_at(old(self).toks(), old(self).pos_spec() + 1)) == expected_token
                ==> {
                &&& final(self).pos_spec() == sp_adv(old(self).toks(), old(self).pos_spec())
                &&& match r {
                    Ok(v) => T::accepts(tok_at(old(self).toks(), old(self).pos_spec() + 1))
                        && T::value_matches(
                        v,
                        tok_at(old(self).toks(), old(self).pos_spec() + 1),
                    ),
                    Err(e) => !T::accepts(tok_at(old(self).toks(), old(self).pos_spec() + 1))
                        && e == (ParserError::WrongToken {
                        expected_token: T::expected_type(),
                        actual_token: spec_token_type(
                            tok_at(old(self).toks(), old(self).pos_spec() + 1),
                        ),
                    }),
                }
            },
            spec_token_type(tok_at(old(self).toks(), old(self).pos_spec() + 1)) != expected_token
                ==> {
                &&& final(self).pos_spec() == old(self).pos_spec()
                &&& r == Err::<T, ParserError>(
                    ParserError::WrongPeekToken {
                        expected_token,
                        actual_token: spec_token_type(
                            tok_at(old(self).toks(), old(self).pos_spec() + 1),
                        ),
                    },
                )
            },
    {
        if TokenType::from_token(&self.peek_token) == expected_token {
            self.next_token();
            proof {
                assert(self.cur_token@ == tok_at(old(self).toks(), old(self).pos_spec() + 1)) by {
                    if old(self).pos_spec() < old(self).toks().len() {
                    }
                }
            }
            T::extract(self.cur_token.duplicate())
        } else {
            Err(self.peek_error(expected_token))
        }
    }

    /// Whether the current token may open an expression.
    fn is_prefix_token(token: &Token) -> (r: bool)
        ensures
            r == spec_is_prefix(token@),
    {
        matches!(
            token,
            Token::Dash
                | Token::Bang
                | Token::Int(_)
                | Token::Ident(_)
                | Token::Bool(_)
                | Token::LParen
                | Token::LBrace
                | Token::LBracket
                | Token::If
                | Token::Function
                | Token::String(_)
        )
    }

    /// Whether a token may continue an expression in infix position.
    fn is_infix_token(token: &Token) -> (r: bool)
        ensures
            r == spec_is_infix(token@),
    {
        matches!(
            token,
            Token::Equal
                | Token::NotEqual
                | Token::LessThan
                | Token::LessThanEqual
                | Token::GreaterThanEqual
                | Token::GreaterThan
                | Token::Plus
                | Token::Dash
                | Token::ForwardSlash
                | Token::LParen
                | Token::LBracket
                | Token::Asterisk
        )
    }
}


/// The error accumulator of the block loop only prefixes what the loop
/// itself records.
#[verifier::rlimit(100)]
pub proof fn lemma_block_loop_errs(
    toks: Seq<TokenV>,
    p: int,
    stmts: Seq<StmtV>,
    errs: Seq<ParserError>,
    fuel: nat,
)
    ensures
        ({
            let (s1, e1, p1) = sp_block_loop(toks, p, stmts, errs, fuel);
            let (s0, e0, p0) = sp_block_loop(toks, p, stmts, Seq::empty(), fuel);
            s1 == s0 && p1 == p0 && e1 == errs + e0
        }),
    decreases fuel,
{
    if tok_at(toks, p) is RBrace || tok_at(toks, p) is Eof || fuel == 0 {
        assert(errs + Seq::<ParserError>::empty() =~= errs);
    } else {
        let (r, errs1, p1) = sp_statement(toks, p, (fuel - 1) as nat);
        let stmts2 = match r {
            Ok(st) => stmts.push(st),
            Err(_) => stmts,
        };
        let delta = match r {
            Ok(_) => errs1,
            Err(e) => if e is UnexpectedStatementStart {
                errs1
            } else {
                errs1 + seq![e]
            },
        };
        match r {
            Ok(_) => {},
            Err(e) => {
                if !(e is UnexpectedStatementStart) {
                    assert(errs + errs1 + seq![e] =~= errs + delta);
                    assert(Seq::<ParserError>::empty() + errs1 + seq![e]
                        =~= Seq::<ParserError>::empty() + delta);
                }
            },
        }
        let p2 = sp_adv(toks, p1);
        lemma_block_loop_errs(toks, p2, stmts2, errs + delta, (fuel - 1) as nat);
        lemma_block_loop_errs(toks, p2, stmts2, Seq::<ParserError>::empty() + delta, (fuel - 1) as nat);
        let tail = sp_block_loop(toks, p2, stmts2, Seq::empty(), (fuel - 1) as nat);
        assert((errs + delta) + tail.1 =~= errs + ((Seq::<ParserError>::empty() + delta) + tail.1));
    }
}

impl Parser {
    /// Parses one expression by precedence climbing.
    fn parse_expression(&mut self, precedence: i8, fuel: u64) -> (r: Result<
        Expression,
        ParserError,
    >)
        requires
            old(self).wf(),
        ensures
            final(self).wf(),
            final(self).toks() == old(self).toks(),
            final(self).input_view() == old(self).input_view(),
            ({
                let (r0, errs, p) = sp_expression(
                    old(self).toks(),
                    old(self).pos_spec(),
                    precedence,
                    fuel as nat,
                );
                expr_result_matches(r, r0) && final(self).errors() == old(self).errors() + errs
                    && final(self).pos_spec() == p
            }),
        decreases fuel,
    {
        if fuel == 0 {
            return Err(ParserError::DepthLimit);
        }
        if !Parser::is_prefix_token(&self.cur_token) {
            return Err(ParserError::NoValidPrefix(TokenType::from_token(&self.cur_token)));
        }
        let left = match self.parse_prefix_expression(fuel - 1) {
            Ok(e) => e,
            Err(e) => {
                return Err(e);
            },
        };
        self.parse_expr_continue(left, precedence, fuel - 1)
    }

    /// Folds infix continuations onto `left` while the upcoming operator
    /// binds tighter than `precedence`.
    fn parse_expr_continue(&mut self, left: Expression, precedence: i8, fuel: u64) -> (r: Result<
        Expression,
        ParserError,
    >)
        requires
            old(self).wf(),
        ensures
            final(self).wf(),
            final(self).toks() == old(self).toks(),
            final(self).input_view() == old(self).input_view(),
            ({
                let (r0, errs, p) = sp_expr_loop(
                    old(self).toks(),
                    old(self).pos_spec(),
                    left@,
                    precedence,
                    fuel as nat,
                );
                expr_result_matches(r, r0) && final(self).errors() == old(self).errors() + errs
                    && final(self).pos_spec() == p
            }),
        decreases fuel,
    {
        if fuel == 0 {
            return Err(ParserError::DepthLimit);
        }
        if matches!(self.peek_token, Token::Semicolon)
            || !(precedence < Precedence::from(&self.peek_token)) {
            return Ok(left);
        }
        if !Parser::is_infix_token(&self.peek_token) {
            return Ok(left);
        }
        self.next_token();
        let step = if matches!(self.cur_token, Token::LParen) {
            self.parse_call_expression(left, fuel - 1)
        } else if matches!(self.cur_token, Token::LBracket) {
            self.parse_array_index_expression(left, fuel - 1)
        } else {
            self.parse_infix_expression(left, fuel - 1)
        };
        let l2 = match step {
            Ok(e) => e,
            Err(e) => {
                return Err(e);
            },
        };
        self.parse_expr_continue(l2, precedence, fuel - 1)
    }

    /// An identifier in expression position.
    fn parse_identifier(&self, ident: &str) -> (r: Result<Expression, ParserError>)
        ensures
            r matches Ok(e) && e@ == ExprV::Identifier(ident@),
    {
        Ok(Expression::Identifier(ident.to_owned()))
    }

    /// An integer literal in expression position.
    fn parse_int_literal(&self, value: i64) -> (r: Result<Expression, ParserError>)
        ensures
            r matches Ok(e) && e@ == ExprV::IntLiteral(value),
    {
        Ok(Expression::IntLiteral(value))
    }

    /// A string literal in expression position.
    fn parse_string_literal(&self, value: &str) -> (r: Result<Expression, ParserError>)
        ensures
            r matches Ok(e) && e@ == ExprV::StringLiteral(value@),
    {
        Ok(Expression::StringLiteral(value.to_owned()))
    }

    /// A boolean literal in expression position.
    fn parse_bool(&self, b: bool) -> (r: Result<Expression, ParserError>)
        ensures
            r matches Ok(e) && e@ == ExprV::Bool(b),
    {
        Ok(Expression::Bool(b))
    }

    /// One prefix form.
    fn parse_prefix_expression(&mut self, fuel: u64) -> (r: Result<Expression, ParserError>)
        requires
            old(self).wf(),
        ensures
            final(self).wf(),
            final(self).toks() == old(self).toks(),
            final(self).input_view() == old(self).input_view(),
            ({
                let (r0, errs, p) = sp_prefix_expression(
                    old(self).toks(),
                    old(self).pos_spec(),
                    fuel as nat,
                );
                expr_result_matches(r, r0) && final(self).errors() == old(self).errors() + errs
                    && final(self).pos_spec() == p
            }),
        decreases fuel,
    {
        if fuel == 0 {
            return Err(ParserError::DepthLimit);
        }
        let cur = self.cur_token.duplicate();
        match cur {
            Token::Ident(i) => self.parse_identifier(i.as_str()),
            Token::Int(i) => self.parse_int_literal(i),
            Token::String(s) => self.parse_string_literal(s.as_str()),
            Token::Bool(b) => self.parse_bool(b),
            Token::LParen => self.parse_grouped_expression(fuel - 1),
            Token::If => self.parse_if_expression(fuel - 1),
            Token::Function => self.parse_fn_expression(fuel - 1),
            Token::LBracket => self.parse_array(fuel - 1),
            Token::LBrace => self.parse_hash(fuel - 1),
            token => {
                self.next_token();
                match self.parse_expression(Precedence::PREFIX, fuel - 1) {
                    Ok(e) => Ok(Expression::PrefixExpression(token, Box::new(e))),
                    Err(e) => Err(e),
                }
            },
        }
    }

    /// A parenthesized group.
    fn parse_grouped_expression(&mut self, fuel: u64) -> (r: Result<Expression, ParserError>)
        requires
            old(self).wf(),
        ensures
            final(self).wf(),
            final(self).toks() == old(self).toks(),
            final(self).input_view() == old(self).input_view(),
            ({
                let (r0, errs, p) = sp_grouped(old(self).toks(), old(self).pos_spec(), fuel as nat);
                expr_result_matches(r, r0) && final(self).errors() == old(self).errors() + errs
                    && final(self).pos_spec() == p
            }),
        decreases fuel,
    {
        if fuel == 0 {
            return Err(ParserError::DepthLimit);
        }
        self.next_token();
        let e = match self.parse_expression(Precedence::LOWEST, fuel - 1) {
            Ok(e) => e,
            Err(e) => {
                return Err(e);
            },
        };
        if matches!(self.peek_token, Token::RParent) {
            self.next_token();
            Ok(e)
        } else {
            Err(self.peek_error(TokenType::Rparen))
        }
    }

    /// An ordinary binary operator continuation.
    fn parse_infix_expression(&mut self, left_side: Expression, fuel: u64) -> (r: Result<
        Expression,
        ParserError,
    >)
        requires
            old(self).wf(),
        ensures
            final(self).wf(),
            final(self).toks() == old(self).toks(),
            final(self).input_view() == old(self).input_view(),
            ({
                let (r0, errs, p) = sp_infix_expression(
                    old(self).toks(),
                    old(self).pos_spec(),
                    left_side@,
                    fuel as nat,
                );
                expr_result_matches(r, r0) && final(self).errors() == old(self).errors() + errs
                    && final(self).pos_spec() == p
            }),
        decreases fuel,
    {
        if fuel == 0 {
            return Err(ParserError::DepthLimit);
        }
        let token = self.cur_token.duplicate();
        let prec = Precedence::from(&self.cur_token);
        self.next_token();
        let rhs = match self.parse_expression(prec, fuel - 1) {
            Ok(e) => e,
            Err(e) => {
                return Err(e);
            },
        };
        Ok(Expression::InfixExpression(token, Box::new(left_side), Box::new(rhs)))
    }

    /// A call continuation.
    fn parse_call_expression(&mut self, left_side: Expression, fuel: u64) -> (r: Result<
        Expression,
        ParserError,
    >)
        requires
            old(self).wf(),
        ensures
            final(self).wf(),
            final(self).toks() == old(self).toks(),
            final(self).input_view() == old(self).input_view(),
            ({
                let (r0, errs, p) = sp_call_expression(
                    old(self).toks(),
                    old(self).pos_spec(),
                    left_side@,
                    fuel as nat,
                );
                expr_result_matches(r, r0) && final(self).errors() == old(self).errors() + errs
                    && final(self).pos_spec() == p
            }),
        decreases fuel,
    {
        if fuel == 0 {
            return Err(ParserError::DepthLimit);
        }
        let params = match self.parse_call_arguments(fuel - 1) {
            Ok(v) => v,
            Err(e) => {
                return Err(e);
            },
        };
        Ok(Expression::CallExpression(Box::new(left_side), params))
    }

    /// A comma-separated argument list up to the closing parenthesis.
    fn parse_call_arguments(&mut self, fuel: u64) -> (r: Result<Vec<Expression>, ParserError>)
        requires
            old(self).wf(),
        ensures
            final(self).wf(),
            final(self).toks() == old(self).toks(),
            final(self).input_view() == old(self).input_view(),
            ({
                let (r0, errs, p) = sp_call_arguments(
                    old(self).toks(),
                    old(self).pos_spec(),
                    fuel as nat,
                );
                (match r {
                    Ok(v) => r0 == Ok::<Seq<ExprV>, ParserError>(crate::ast::exprs_view(v@)),
                    Err(e) => r0 == Err::<Seq<ExprV>, ParserError>(e),
                }) && final(self).errors() == old(self).errors() + errs && final(self).pos_spec()
                    == p
            }),
        decreases fuel,
    {
        if fuel == 0 {
            return Err(ParserError::DepthLimit);
        }
        if matches!(self.peek_token, Token::RParent) {
            self.next_token();
            let out: Vec<Expression> = Vec::new();
            proof {
                assert(crate::ast::exprs_view(out@) =~= Seq::<ExprV>::empty());
            }
            return Ok(out);
        }
        self.next_token();
        let e0 = match self.parse_expression(Precedence::LOWEST, fuel - 1) {
            Ok(e) => e,
            Err(e) => {
                return Err(e);
            },
        };
        let mut acc: Vec<Expression> = Vec::new();
        proof {
            crate::ast::lemma_exprs_view_push(acc@, e0);
            assert(crate::ast::exprs_view(acc@) =~= Seq::<ExprV>::empty());
        }
        acc.push(e0);
        proof {
            assert(crate::ast::exprs_view(acc@) =~= seq![crate::ast::expr_view(acc@[0])]);
        }
        self.parse_args_rest(acc, fuel - 1)
    }

    /// The comma loop of an argument list.
    fn parse_args_rest(&mut self, acc: Vec<Expression>, fuel: u64) -> (r: Result<
        Vec<Expression>,
        ParserError,
    >)
        requires
            old(self).wf(),
        ensures
            final(self).wf(),
            final(self).toks() == old(self).toks(),
            final(self).input_view() == old(self).input_view(),
            ({
                let (r0, errs, p) = sp_args_loop(
                    old(self).toks(),
                    old(self).pos_spec(),
                    crate::ast::exprs_view(acc@),
                    fuel as nat,
                );
                (match r {
                    Ok(v) => r0 == Ok::<Seq<ExprV>, ParserError>(crate::ast::exprs_view(v@)),
                    Err(e) => r0 == Err::<Seq<ExprV>, ParserError>(e),
                }) && final(self).errors() == old(self).errors() + errs && final(self).pos_spec()
                    == p
            }),
        decreases fuel,
    {
        if fuel == 0 {
            return Err(ParserError::DepthLimit);
        }
        if matches!(self.peek_token, Token::Comma) {
            self.next_token();
            self.next_token();
            let e = match self.parse_expression(Precedence::LOWEST, fuel - 1) {
                Ok(e) => e,
                Err(e) => {
                    return Err(e);
                },
            };
            let mut acc = acc;
            proof {
                crate::ast::lemma_exprs_view_push(acc@, e);
            }
            acc.push(e);
            self.parse_args_rest(acc, fuel - 1)
        } else if matches!(self.peek_token, Token::RParent) {
            self.next_token();
            Ok(acc)
        } else {
            Err(self.peek_error(TokenType::Rparen))
        }
    }

    /// An array literal.
    fn parse_array(&mut self, fuel: u64) -> (r: Result<Expression, ParserError>)
        requires
            old(self).wf(),
        ensures
            final(self).wf(),
            final(self).toks() == old(self).toks(),
            final(self).input_view() == old(self).input_view(),
            ({
                let (r0, errs, p) = sp_array(old(self).toks(), old(self).pos_spec(), fuel as nat);
                expr_result_matches(r, r0) && final(self).errors() == old(self).errors() + errs
                    && final(self).pos_spec() == p
            }),
        decreases fuel,
    {
        if fuel == 0 {
            return Err(ParserError::DepthLimit);
        }
        if matches!(self.peek_token, Token::RBracket) {
            self.next_token();
            let out: Vec<Expression> = Vec::new();
            proof {
                assert(crate::ast::exprs_view(out@) =~= Seq::<ExprV>::empty());
            }
            return Ok(Expression::Arrary(out));
        }
        self.next_token();
        let e0 = match self.parse_expression(Precedence::LOWEST, fuel - 1) {
            Ok(e) => e,
            Err(e) => {
                return Err(e);
            },
        };
        let mut acc: Vec<Expression> = Vec::new();
        proof {
            crate::ast::lemma_exprs_view_push(acc@, e0);
            assert(crate::ast::exprs_view(acc@) =~= Seq::<ExprV>::empty());
        }
        acc.push(e0);
        proof {
            assert(crate::ast::exprs_view(acc@) =~= seq![crate::ast::expr_view(acc@[0])]);
        }
        let elems = match self.parse_array_rest(acc, fuel - 1) {
            Ok(v) => v,
            Err(e) => {
                return Err(e);
            },
        };
        Ok(Expression::Arrary(elems))
    }

    /// The comma loop of an array literal.
    fn parse_array_rest(&mut self, acc: Vec<Expression>, fuel: u64) -> (r: Result<
        Vec<Expression>,
        ParserError,
    >)
        requires
            old(self).wf(),
        ensures
            final(self).wf(),
            final(self).toks() == old(self).toks(),
            final(self).input_view() == old(self).input_view(),
            ({
                let (r0, errs, p) = sp_array_loop(
                    old(self).toks(),
                    old(self).pos_spec(),
                    crate::ast::exprs_view(acc@),
                    fuel as nat,
                );
                (match r {
                    Ok(v) => r0 == Ok::<Seq<ExprV>, ParserError>(crate::ast::exprs_view(v@)),
                    Err(e) => r0 == Err::<Seq<ExprV>, ParserError>(e),
                }) && final(self).errors() == old(self).errors() + errs && final(self).pos_spec()
                    == p
            }),
        decreases fuel,
    {
        if fuel == 0 {
            return Err(ParserError::DepthLimit);
        }
        if matches!(self.peek_token, Token::Comma) {
            self.next_token();
            self.next_token();
            let e = match self.parse_expression(Precedence::LOWEST, fuel - 1) {
                Ok(e) => e,
                Err(e) => {
                    return Err(e);
                },
            };
            let mut acc = acc;
            proof {
                crate::ast::lemma_exprs_view_push(acc@, e);
            }
            acc.push(e);
            self.parse_array_rest(acc, fuel - 1)
        } else if matches!(self.peek_token, Token::RBracket) {
            self.next_token();
            Ok(acc)
        } else {
            Err(self.peek_error(TokenType::RBracket))
        }
    }

    /// An index continuation.
    fn parse_array_index_expression(&mut self, left: Expression, fuel: u64) -> (r: Result<
        Expression,
        ParserError,
    >)
        requires
            old(self).wf(),
        ensures
            final(self).wf(),
            final(self).toks() == old(self).toks(),
            final(self).input_view() == old(self).input_view(),
            ({
                let (r0, errs, p) = sp_array_index(
                    old(self).toks(),
                    old(self).pos_spec(),
                    left@,
                    fuel as nat,
                );
                expr_result_matches(r, r0) && final(self).errors() == old(self).errors() + errs
                    && final(self).pos_spec() == p
            }),
        decreases fuel,
    {
        if fuel == 0 {
            return Err(ParserError::DepthLimit);
        }
        self.next_token();
        let val = match self.parse_expression(Precedence::LOWEST, fuel - 1) {
            Ok(e) => e,
            Err(e) => {
                return Err(e);
            },
        };
        if matches!(self.peek_token, Token::RBracket) {
            self.next_token();
            Ok(Expression::IndexExpression(Box::new(left), Box::new(val)))
        } else {
            Err(self.peek_error(TokenType::RBracket))
        }
    }

    /// An `if` expression.
    #[verifier::rlimit(100)]
    #[verifier::spinoff_prover]
    fn parse_if_expression(&mut self, fuel: u64) -> (r: Result<Expression, ParserError>)
        requires
            old(self).wf(),
        ensures
            final(self).wf(),
            final(self).toks() == old(self).toks(),
            final(self).input_view() == old(self).input_view(),
            ({
                let (r0, errs, p) = sp_if(old(self).toks(), old(self).pos_spec(), fuel as nat);
                expr_result_matches(r, r0) && final(self).errors() == old(self).errors() + errs
                    && final(self).pos_spec() == p
            }),
        decreases fuel,
    {
        if fuel == 0 {
            return Err(ParserError::DepthLimit);
        }
        if !matches!(self.peek_token, Token::LParen) {
            return Err(self.peek_error(TokenType::Lparen));
        }
        self.next_token();
        self.next_token();
        let cond = match self.parse_expression(Precedence::LOWEST, fuel - 1) {
            Ok(e) => e,
            Err(e) => {
                return Err(e);
            },
        };
        if !matches!(self.peek_token, Token::RParent) {
            return Err(self.peek_error(TokenType::Rparen));
        }
        self.next_token();
        if !matches!(self.peek_token, Token::LBrace) {
            return Err(self.peek_error(TokenType::LSquirly));
        }
        self.next_token();
        let if_block = match self.parse_block_statement(fuel - 1) {
            Ok(b) => b,
            Err(e) => {
                return Err(e);
            },
        };
        if matches!(self.peek_token, Token::Else) {
            self.next_token();
            if !matches!(self.peek_token, Token::LBrace) {
                return Err(self.peek_error(TokenType::LSquirly));
            }
            self.next_token();
            let else_block = match self.parse_block_statement(fuel - 1) {
                Ok(b) => b,
                Err(e) => {
                    return Err(e);
                },
            };
            Ok(Expression::IfExpression(Box::new(cond), if_block, Some(else_block)))
        } else {
            Ok(Expression::IfExpression(Box::new(cond), if_block, None))
        }
    }

    /// A function literal.
    #[verifier::rlimit(100)]
    #[verifier::spinoff_prover]
    fn parse_fn_expression(&mut self, fuel: u64) -> (r: Result<Expression, ParserError>)
        requires
            old(self).wf(),
        ensures
            final(self).wf(),
            final(self).toks() == old(self).toks(),
            final(self).input_view() == old(self).input_view(),
            ({
                let (r0, errs, p) = sp_fn(old(self).toks(), old(self).pos_spec(), fuel as nat);
                expr_result_matches(r, r0) && final(self).errors() == old(self).errors() + errs
                    && final(self).pos_spec() == p
            }),
        decreases fuel,
    {
        if fuel == 0 {
            return Err(ParserError::DepthLimit);
        }
        if !matches!(self.peek_token, Token::LParen) {
            return Err(self.peek_error(TokenType::Lparen));
        }
        self.next_token();
        let params = match self.parse_fn_params(fuel - 1) {
            Ok(v) => v,
            Err(e) => {
                return Err(e);
            },
        };
        if !matches!(self.peek_token, Token::LBrace) {
            return Err(self.peek_error(TokenType::LSquirly));
        }
        self.next_token();
        let body = match self.parse_block_statement(fuel - 1) {
            Ok(b) => b,
            Err(e) => {
                return Err(e);
            },
        };
        Ok(Expression::FnExpression(params, body))
    }

    /// A comma-separated parameter-name list.
    fn parse_fn_params(&mut self, fuel: u64) -> (r: Result<Vec<Identifier>, ParserError>)
        requires
            old(self).wf(),
        ensures
            final(self).wf(),
            final(self).toks() == old(self).toks(),
            final(self).input_view() == old(self).input_view(),
            final(self).errors() == old(self).errors(),
            ({
                let (r0, p) = sp_fn_params(old(self).toks(), old(self).pos_spec(), fuel as nat);
                (match r {
                    Ok(v) => r0 == Ok::<Seq<Seq<char>>, ParserError>(crate::ast::names_view(v@)),
                    Err(e) => r0 == Err::<Seq<Seq<char>>, ParserError>(e),
                }) && final(self).pos_spec() == p
            }),
        decreases fuel,
    {
        if fuel == 0 {
            return Err(ParserError::DepthLimit);
        }
        if matches!(self.peek_token, Token::RParent) {
            self.next_token();
            let out: Vec<Identifier> = Vec::new();
            proof {
                assert(crate::ast::names_view(out@) =~= Seq::<Seq<char>>::empty());
            }
            return Ok(out);
        }
        self.next_token();
        let cur = self.cur_token.duplicate();
        match cur {
            Token::Ident(name) => {
                let mut ids: Vec<Identifier> = Vec::new();
                proof {
                    crate::ast::lemma_names_view_push(ids@, name);
                    assert(crate::ast::names_view(ids@) =~= Seq::<Seq<char>>::empty());
                }
                ids.push(name);
                proof {
                    assert(crate::ast::names_view(ids@) =~= seq![ids@[0]@]);
                }
                self.parse_params_rest(ids, fuel - 1)
            },
            _ => Err(self.cur_error(TokenType::Identifier)),
        }
    }

    /// The comma loop of a parameter list.
    fn parse_params_rest(&mut self, acc: Vec<Identifier>, fuel: u64) -> (r: Result<
        Vec<Identifier>,
        ParserError,
    >)
        requires
            old(self).wf(),
        ensures
            final(self).wf(),
            final(self).toks() == old(self).toks(),
            final(self).input_view() == old(self).input_view(),
            final(self).errors() == old(self).errors(),
            ({
                let (r0, p) = sp_params_loop(
                    old(self).toks(),
                    old(self).pos_spec(),
                    crate::ast::names_view(acc@),
                    fuel as nat,
                );
                (match r {
                    Ok(v) => r0 == Ok::<Seq<Seq<char>>, ParserError>(crate::ast::names_view(v@)),
                    Err(e) => r0 == Err::<Seq<Seq<char>>, ParserError>(e),
                }) && final(self).pos_spec() == p
            }),
        decreases fuel,
    {
        if fuel == 0 {
            return Err(ParserError::DepthLimit);
        }
        if matches!(self.peek_token, Token::Comma) {
            self.next_token();
            self.next_token();
            let cur = self.cur_token.duplicate();
            match cur {
                Token::Ident(name) => {
                    let mut acc = acc;
                    proof {
                        crate::ast::lemma_names_view_push(acc@, name);
                    }
                    acc.push(name);
                    self.parse_params_rest(acc, fuel - 1)
                },
                _ => Err(self.peek_error(TokenType::Identifier)),
            }
        } else if matches!(self.peek_token, Token::RParent) {
            self.next_token();
            Ok(acc)
        } else {
            Err(self.peek_error(TokenType::Rparen))
        }
    }

    /// A map literal.
    fn parse_hash(&mut self, fuel: u64) -> (r: Result<Expression, ParserError>)
        requires
            old(self).wf(),
        ensures
            final(self).wf(),
            final(self).toks() == old(self).toks(),
            final(self).input_view() == old(self).input_view(),
            ({
                let (r0, errs, p) = sp_hash(old(self).toks(), old(self).pos_spec(), fuel as nat);
                expr_result_matches(r, r0) && final(self).errors() == old(self).errors() + errs
                    && final(self).pos_spec() == p
            }),
        decreases fuel,
    {
        if fuel == 0 {
            return Err(ParserError::DepthLimit);
        }
        if matches!(self.peek_token, Token::RBrace) {
            self.next_token();
            let out: Vec<(Expression, Expression)> = Vec::new();
            proof {
                assert(crate::ast::pairs_view(out@) =~= Seq::<(ExprV, ExprV)>::empty());
            }
            return Ok(Expression::MapLiteral(out));
        }
        let out: Vec<(Expression, Expression)> = Vec::new();
        proof {
            assert(crate::ast::pairs_view(out@) =~= Seq::<(ExprV, ExprV)>::empty());
        }
        let pairs = match self.parse_hash_rest(out, fuel - 1) {
            Ok(v) => v,
            Err(e) => {
                return Err(e);
            },
        };
        Ok(Expression::MapLiteral(pairs))
    }

    /// The pair loop of a map literal.
    fn parse_hash_rest(&mut self, acc: Vec<(Expression, Expression)>, fuel: u64) -> (r: Result<
        Vec<(Expression, Expression)>,
        ParserError,
    >)
        requires
            old(self).wf(),
        ensures
            final(self).wf(),
            final(self).toks() == old(self).toks(),
            final(self).input_view() == old(self).input_view(),
            ({
                let (r0, errs, p) = sp_hash_loop(
                    old(self).toks(),
                    old(self).pos_spec(),
                    crate::ast::pairs_view(acc@),
                    fuel as nat,
                );
                (match r {
                    Ok(v) => r0 == Ok::<Seq<(ExprV, ExprV)>, ParserError>(
                        crate::ast::pairs_view(v@),
                    ),
                    Err(e) => r0 == Err::<Seq<(ExprV, ExprV)>, ParserError>(e),
                }) && final(self).errors() == old(self).errors() + errs && final(self).pos_spec()
                    == p
            }),
        decreases fuel,
    {
        if fuel == 0 {
            return Err(ParserError::DepthLimit);
        }
        self.next_token();
        let k = match self.parse_expression(Precedence::LOWEST, fuel - 1) {
            Ok(e) => e,
            Err(e) => {
                return Err(e);
            },
        };
        if !matches!(self.peek_token, Token::Colon) {
            return Err(self.peek_error(TokenType::Colon));
        }
        self.next_token();
        self.next_token();
        let v = match self.parse_expression(Precedence::LOWEST, fuel - 1) {
            Ok(e) => e,
            Err(e) => {
                return Err(e);
            },
        };
        let mut acc = acc;
        proof {
            crate::ast::lemma_pairs_view_push(acc@, (k, v));
        }
        acc.push((k, v));
        if matches!(self.peek_token, Token::Comma) {
            self.next_token();
            self.parse_hash_rest(acc, fuel - 1)
        } else if matches!(self.peek_token, Token::RBrace) {
            self.next_token();
            Ok(acc)
        } else {
            Err(self.peek_error(TokenType::RSquirly))
        }
    }

    /// One statement: `let`, `return`, or a bare expression.
    #[verifier::rlimit(100)]
    fn parse_statement(&mut self, fuel: u64) -> (r: Result<Statement, ParserError>)
        requires
            old(self).wf(),
        ensures
            final(self).wf(),
            final(self).toks() == old(self).toks(),
            final(self).input_view() == old(self).input_view(),
            ({
                let (r0, errs, p) = sp_statement(
                    old(self).toks(),
                    old(self).pos_spec(),
                    fuel as nat,
                );
                stmt_result_matches(r, r0) && final(self).errors() == old(self).errors() + errs
                    && final(self).pos_spec() == p
            }),
        decreases fuel,
    {
        if fuel == 0 {
            return Err(ParserError::DepthLimit);
        }
        if matches!(self.cur_token, Token::Let) {
            self.parse_let_statement(fuel - 1)
        } else if matches!(self.cur_token, Token::Return) {
            self.parse_return_statement(fuel - 1)
        } else {
            self.parse_expression_statement(fuel - 1)
        }
    }

    /// `let <identifier> = <expression> ;`
    #[verifier::rlimit(100)]
    #[verifier::spinoff_prover]
    fn parse_let_statement(&mut self, fuel: u64) -> (r: Result<Statement, ParserError>)
        requires
            old(self).wf(),
        ensures
            final(self).wf(),
            final(self).toks() == old(self).toks(),
            final(self).input_view() == old(self).input_view(),
            ({
                let (r0, errs, p) = sp_let(old(self).toks(), old(self).pos_spec(), fuel as nat);
                stmt_result_matches(r, r0) && final(self).errors() == old(self).errors() + errs
                    && final(self).pos_spec() == p
            }),
        decreases fuel,
    {
        if fuel == 0 {
            return Err(ParserError::DepthLimit);
        }
        let ident: String = match self.expect_peek::<String>(TokenType::Identifier) {
            Ok(v) => v,
            Err(e) => {
                return Err(e);
            },
        };
        match self.expect_peek::<()>(TokenType::Assign) {
            Ok(_) => {},
            Err(e) => {
                return Err(e);
            },
        }
        self.next_token();
        let exp = match self.parse_expression(Precedence::LOWEST, fuel - 1) {
            Ok(e) => e,
            Err(e) => {
                return Err(e);
            },
        };
        if matches!(self.peek_token, Token::Semicolon) {
            self.next_token();
        }
        Ok(Statement::Let(ident, exp))
    }

    /// `return <expression> ;`
    #[verifier::rlimit(100)]
    fn parse_return_statement(&mut self, fuel: u64) -> (r: Result<Statement, ParserError>)
        requires
            old(self).wf(),
        ensures
            final(self).wf(),
            final(self).toks() == old(self).toks(),
            final(self).input_view() == old(self).input_view(),
            ({
                let (r0, errs, p) = sp_return(old(self).toks(), old(self).pos_spec(), fuel as nat);
                stmt_result_matches(r, r0) && final(self).errors() == old(self).errors() + errs
                    && final(self).pos_spec() == p
            }),
        decreases fuel,
    {
        if fuel == 0 {
            return Err(ParserError::DepthLimit);
        }
        self.next_token();
        let exp = match self.parse_expression(Precedence::LOWEST, fuel - 1) {
            Ok(e) => e,
            Err(e) => {
                return Err(e);
            },
        };
        if matches!(self.peek_token, Token::Semicolon) {
            self.next_token();
        }
        Ok(Statement::Return(exp))
    }

    /// A bare expression as a statement.
    #[verifier::rlimit(100)]
    fn parse_expression_statement(&mut self, fuel: u64) -> (r: Result<Statement, ParserError>)
        requires
            old(self).wf(),
        ensures
            final(self).wf(),
            final(self).toks() == old(self).toks(),
            final(self).input_view() == old(self).input_view(),
            ({
                let (r0, errs, p) = sp_expression_statement(
                    old(self).toks(),
                    old(self).pos_spec(),
                    fuel as nat,
                );
                stmt_result_matches(r, r0) && final(self).errors() == old(self).errors() + errs
                    && final(self).pos_spec() == p
            }),
        decreases fuel,
    {
        if fuel == 0 {
            return Err(ParserError::DepthLimit);
        }
        let expression = match self.parse_expression(Precedence::LOWEST, fuel - 1) {
            Ok(e) => e,
            Err(e) => {
                return Err(e);
            },
        };
        if matches!(self.peek_token, Token::Semicolon) {
            self.next_token();
        }
        Ok(Statement::ExpressionStatement(expression))
    }

    /// A block body: statements up to the closing brace.
    #[verifier::rlimit(100)]
    fn parse_block_statement(&mut self, fuel: u64) -> (r: Result<BlockStatement, ParserError>)
        requires
            old(self).wf(),
        ensures
            final(self).wf(),
            final(self).toks() == old(self).toks(),
            final(self).input_view() == old(self).input_view(),
            ({
                let (stmts, errs, p) = sp_block(old(self).toks(), old(self).pos_spec(), fuel as nat);
                (match r {
                    Ok(b) => b@ == stmts,
                    Err(_) => false,
                }) && final(self).errors() == old(self).errors() + errs && final(self).pos_spec()
                    == p
            }),
        decreases fuel,
    {
        if fuel == 0 {
            let out: Vec<Statement> = Vec::new();
            proof {
                assert(crate::ast::stmts_view(out@) =~= Seq::<StmtV>::empty());
            }
            return Ok(BlockStatement { statements: out });
        }
        self.next_token();
        let out: Vec<Statement> = Vec::new();
        proof {
            assert(crate::ast::stmts_view(out@) =~= Seq::<StmtV>::empty());
            lemma_block_loop_errs(
                self.toks(),
                self.pos_spec(),
                Seq::empty(),
                self.errors(),
                (fuel - 1) as nat,
            );
        }
        let statements = self.parse_stmts_until_brace(out, fuel - 1);
        Ok(BlockStatement { statements })
    }

    /// The statement loop of a block; failed statements are recorded and
    /// skipped.
    #[verifier::rlimit(100)]
    fn parse_stmts_until_brace(&mut self, acc: Vec<Statement>, fuel: u64) -> (r: Vec<Statement>)
        requires
            old(self).wf(),
        ensures
            final(self).wf(),
            final(self).toks() == old(self).toks(),
            final(self).input_view() == old(self).input_view(),
            ({
                let (s2, e2, p2) = sp_block_loop(
                    old(self).toks(),
                    old(self).pos_spec(),
                    crate::ast::stmts_view(acc@),
                    old(self).errors(),
                    fuel as nat,
                );
                crate::ast::stmts_view(r@) == s2 && final(self).errors() == e2
                    && final(self).pos_spec() == p2
            }),
        decreases fuel,
    {
        if matches!(self.cur_token, Token::RBrace) || matches!(self.cur_token, Token::Eof) {
            return acc;
        }
        if fuel == 0 {
            return acc;
        }
        let mut acc = acc;
        match self.parse_statement(fuel - 1) {
            Ok(st) => {
                proof {
                    crate::ast::lemma_stmts_view_push(acc@, st);
                }
                acc.push(st);
            },
            Err(e) => {
                if !matches!(e, ParserError::UnexpectedStatementStart(_)) {
                    let ghost before = self.parse_errors@;
                    self.parse_errors.push(e);
                    proof {
                        assert(self.parse_errors@ =~= before + seq![e]);
                    }
                }
            },
        }
        self.next_token();
        self.parse_stmts_until_brace(acc, fuel - 1)
    }

    /// The statement loop of a program; failed statements are recorded and
    /// skipped.
    #[verifier::rlimit(100)]
    fn parse_stmts_until_eof(&mut self, acc: Vec<Statement>, fuel: u64) -> (r: Vec<Statement>)
        requires
            old(self).wf(),
        ensures
            final(self).wf(),
            final(self).toks() == old(self).toks(),
            final(self).input_view() == old(self).input_view(),
            ({
                let (s2, e2, p2) = sp_program_loop(
                    old(self).toks(),
                    old(self).pos_spec(),
                    crate::ast::stmts_view(acc@),
                    old(self).errors(),
                    fuel as nat,
                );
                crate::ast::stmts_view(r@) == s2 && final(self).errors() == e2
                    && final(self).pos_spec() == p2
            }),
        decreases fuel,
    {
        if matches!(self.cur_token, Token::Eof) {
            return acc;
        }
        if fuel == 0 {
            return acc;
        }
        let mut acc = acc;
        match self.parse_statement(fuel - 1) {
            Ok(st) => {
                proof {
                    crate::ast::lemma_stmts_view_push(acc@, st);
                }
                acc.push(st);
            },
            Err(e) => {
                if !matches!(e, ParserError::UnexpectedStatementStart(_)) {
                    let ghost before = self.parse_errors@;
                    self.parse_errors.push(e);
                    proof {
                        assert(self.parse_errors@ =~= before + seq![e]);
                    }
                }
            },
        }
        self.next_token();
        self.parse_stmts_until_eof(acc, fuel - 1)
    }

    /// How many parse errors have been recorded.
    pub fn error_count(&self) -> (n: usize)
        ensures
            n == self.errors().len(),
    {
        self.parse_errors.len()
    }

    /// Hands the recorded parse errors over.
    pub fn take_errors(self) -> (r: Vec<ParserError>)
        ensures
            r@ == self.errors(),
    {
        self.parse_errors
    }

    /// Parses the whole program, collecting every statement that parses
    /// and every error along the way.
    #[verifier::rlimit(100)]
    pub fn parse_program(&mut self) -> (program: Program)
        requires
            old(self).wf(),
        ensures
            final(self).wf(),
            final(self).toks() == old(self).toks(),
            final(self).input_view() == old(self).input_view(),
            ({
                let fuel = parser_fuel(old(self).toks().len());
                let (stmts, errs, p) = sp_program_loop(
                    old(self).toks(),
                    old(self).pos_spec(),
                    Seq::empty(),
                    old(self).errors(),
                    fuel,
                );
                program@ == stmts && final(self).errors() == errs && final(self).pos_spec() == p
            }),
    {
        let n = self.tokens.len();
        let fuel: u64 = if (n as u64) <= 0x1fff_ffff_ffff_fff7 {
            8 * (n as u64) + 64
        } else {
            u64::MAX
        };
        proof {
            assert(fuel as nat == parser_fuel(self.toks().len()));
        }
        let out: Vec<Statement> = Vec::new();
        proof {
            assert(crate::ast::stmts_view(out@) =~= Seq::<StmtV>::empty());
        }
        let statements = self.parse_stmts_until_eof(out, fuel);
        Program { statements }
    }
}

} // verus!
