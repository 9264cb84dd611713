use vstd::prelude::*;

use crate::ast::{BlockStatement, Expression, ExprV, Statement, StmtV};
use crate::object::{BuiltinKind, Object, ValueV};
use crate::token::{Token, TokenV};
use vstd::string::StringExecFns;

verus! {

/// The character for one decimal digit.
pub open spec fn digit_char(d: int) -> char {
    if d == 0 {
        '0'
    } else if d == 1 {
        '1'
    } else if d == 2 {
        '2'
    } else if d == 3 {
        '3'
    } else if d == 4 {
        '4'
    } else if d == 5 {
        '5'
    } else if d == 6 {
        '6'
    } else if d == 7 {
        '7'
    } else if d == 8 {
        '8'
    } else {
        '9'
    }
}

/// The decimal rendering of a natural number, most significant digit first.
pub open spec fn nat_display(n: nat) -> Seq<char>
    decreases n,
{
    if n < 10 {
        seq![digit_char(n as int)]
    } else {
        nat_display(n / 10).push(digit_char((n % 10) as int))
    }
}

/// The decimal rendering of a signed 64-bit integer.
pub open spec fn i64_display(i: i64) -> Seq<char> {
    if i < 0 {
        "-"@ + nat_display((-(i as int)) as nat)
    } else {
        nat_display(i as nat)
    }
}

/// The rendering of a boolean.
pub open spec fn bool_display(b: bool) -> Seq<char> {
    if b {
        "true"@
    } else {
        "false"@
    }
}

/// The rendering of a token, as it appears inside rendered statements.
pub open spec fn token_display(t: TokenV) -> Seq<char> {
    match t {
        TokenV::Ident(x) => x,
        TokenV::Int(x) => i64_display(x),
        TokenV::StrLit(x) => x,
        TokenV::Bool(b) => bool_display(b),
        TokenV::Illegal => "Illegal"@,
        TokenV::Eof => "Eof"@,
        TokenV::Assign => "="@,
        TokenV::Bang => "!"@,
        TokenV::Dash => "-"@,
        TokenV::ForwardSlash => "/"@,
        TokenV::Asterisk => "*"@,
        TokenV::Equal => "=="@,
        TokenV::NotEqual => "!="@,
        TokenV::LessThan => "<"@,
        TokenV::LessThanEqual => "<="@,
        TokenV::GreaterThan => ">"@,
        TokenV::GreaterThanEqual => ">="@,
        TokenV::Plus => "+"@,
        TokenV::Comma => ","@,
        TokenV::Semicolon => ";"@,
        TokenV::Colon => ":"@,
        TokenV::LParen => "("@,
        TokenV::RParent => ")"@,
        TokenV::LBrace => "{"@,
        TokenV::RBrace => "}"@,
        TokenV::LBracket => "["@,
        TokenV::RBracket => "]"@,
        TokenV::Function => "fn"@,
        TokenV::Let => "let"@,
        TokenV::If => "if"@,
        TokenV::Else => "else"@,
        TokenV::Return => "return"@,
    }
}

/// The rendering of an expression; parentheses around every prefix and
/// infix application make the grouping the parser chose visible.
pub open spec fn expr_display(e: ExprV) -> Seq<char>
    decreases e,
{
    match e {
        ExprV::Constant => "Constant expression???"@,
        ExprV::Identifier(i) => i,
        ExprV::IntLiteral(i) => i64_display(i),
        ExprV::StringLiteral(s) => s,
        ExprV::Bool(b) => bool_display(b),
        ExprV::PrefixExpression(op, e1) => "("@ + token_display(op) + expr_display(*e1) + ")"@,
        ExprV::InfixExpression(op, l, r) => "("@ + expr_display(*l) + " "@ + token_display(op)
            + " "@ + expr_display(*r) + ")"@,
        ExprV::IfExpression(c, b1, b2) => match b2 {
            Some(b) => "if "@ + expr_display(*c) + " "@ + block_display(b1) + " else "@
                + block_display(b),
            None => "if "@ + expr_display(*c) + " "@ + block_display(b1),
        },
        ExprV::FnExpression(params, body) => "fn("@ + names_join_display(params) + ") "@
            + block_display(body),
        ExprV::CallExpression(f, args) => expr_display(*f) + "("@ + exprs_join_display(args)
            + ")"@,
        ExprV::Arrary(elems) => "["@ + exprs_join_display(elems) + "]"@,
        ExprV::MapLiteral(pairs) => "{"@ + pairs_join_display(pairs) + "}"@,
        ExprV::IndexExpression(l, i) => expr_display(*l) + "["@ + expr_display(*i) + "]"@,
    }
}

/// Expression renderings joined with `", "`.
pub open spec fn exprs_join_display(s: Seq<ExprV>) -> Seq<char>
    decreases s,
{
    if s.len() == 0 {
        Seq::empty()
    } else if s.len() == 1 {
        expr_display(s[0])
    } else {
        exprs_join_display(s.drop_last()) + ", "@ + expr_display(s.last())
    }
}

/// Key/value renderings joined with `", "`, each pair as `key: value`.
pub open spec fn pairs_join_display(s: Seq<(ExprV, ExprV)>) -> Seq<char>
    decreases s,
{
    if s.len() == 0 {
        Seq::empty()
    } else if s.len() == 1 {
        expr_display(s[0].0) + ": "@ + expr_display(s[0].1)
    } else {
        pairs_join_display(s.drop_last()) + ", "@ + expr_display(s.last().0) + ": "@
            + expr_display(s.last().1)
    }
}

/// Parameter names joined with `" ,"`.
pub open spec fn names_join_display(s: Seq<Seq<char>>) -> Seq<char>
    decreases s,
{
    if s.len() == 0 {
        Seq::empty()
    } else if s.len() == 1 {
        s[0]
    } else {
        names_join_display(s.drop_last()) + " ,"@ + s.last()
    }
}

/// The rendering of a statement.
pub open spec fn stmt_display(s: StmtV) -> Seq<char>
    decreases s,
{
    match s {
        StmtV::Let(name, e) => "let "@ + name + " = "@ + expr_display(e) + ";"@,
        StmtV::Return(e) => "return "@ + expr_display(e) + ";"@,
        StmtV::ExpressionStatement(e) => expr_display(e),
    }
}

/// The rendering of a block: its statements' renderings, one after the
/// other with nothing in between.
pub open spec fn block_display(b: Seq<StmtV>) -> Seq<char>
    decreases b,
{
    if b.len() == 0 {
        Seq::empty()
    } else {
        block_display(b.drop_last()) + stmt_display(b.last())
    }
}

/// The name of a built-in function.
pub open spec fn builtin_name(k: BuiltinKind) -> Seq<char> {
    match k {
        BuiltinKind::Len => "len"@,
        BuiltinKind::First => "first"@,
        BuiltinKind::Last => "last"@,
        BuiltinKind::Rest => "rest"@,
        BuiltinKind::Push => "push"@,
    }
}

/// The rendering of a runtime value, used for interactive echo and inside
/// error messages.
pub open spec fn obj_display(v: ValueV) -> Seq<char>
    decreases v,
{
    match v {
        ValueV::Str(s) => s,
        ValueV::Int(i) => i64_display(i),
        ValueV::Bool(b) => bool_display(b),
        ValueV::Return(r) => "return "@ + obj_display(*r),
        ValueV::Null => "null"@,
        ValueV::Function(params, body, _env) => "fn("@ + names_join_display(params) + ") "@
            + block_display(body),
        ValueV::Builtin(k) => "fn("@ + builtin_name(k) + ") "@,
        ValueV::Array(elems) => "["@ + objs_join_display(elems) + "] "@,
        ValueV::Hash(entries) => "{"@ + hash_join_display(entries) + "}"@,
    }
}

/// Value renderings joined with `", "`.
pub open spec fn objs_join_display(s: Seq<ValueV>) -> Seq<char>
    decreases s,
{
    if s.len() == 0 {
        Seq::empty()
    } else if s.len() == 1 {
        obj_display(s[0])
    } else {
        objs_join_display(s.drop_last()) + ", "@ + obj_display(s.last())
    }
}

/// Hash entry renderings joined with `", "`, each entry as `key: value`.
pub open spec fn hash_join_display(s: Seq<(u64, ValueV, ValueV)>) -> Seq<char>
    decreases s,
{
    if s.len() == 0 {
        Seq::empty()
    } else if s.len() == 1 {
        obj_display(s[0].1) + ": "@ + obj_display(s[0].2)
    } else {
        hash_join_display(s.drop_last()) + ", "@ + obj_display(s.last().1) + ": "@
            + obj_display(s.last().2)
    }
}

/// One decimal digit as source text.
fn digit_str(d: u64) -> (r: &'static str)
    requires
        d < 10,
    ensures
        r@ == seq![digit_char(d as int)],
{
    proof {
        reveal_strlit("0");
        reveal_strlit("1");
        reveal_strlit("2");
        reveal_strlit("3");
        reveal_strlit("4");
        reveal_strlit("5");
        reveal_strlit("6");
        reveal_strlit("7");
        reveal_strlit("8");
        reveal_strlit("9");
    }
    if d == 0 {
        "0"
    } else if d == 1 {
        "1"
    } else if d == 2 {
        "2"
    } else if d == 3 {
        "3"
    } else if d == 4 {
        "4"
    } else if d == 5 {
        "5"
    } else if d == 6 {
        "6"
    } else if d == 7 {
        "7"
    } else if d == 8 {
        "8"
    } else {
        "9"
    }
}

/// Appends the decimal digits of `m`, most significant first.
fn push_nat_digits(out: &mut String, m: u64)
    ensures
        final(out)@ == old(out)@ + nat_display(m as nat),
    decreases m,
{
    if m >= 10 {
        push_nat_digits(out, m / 10);
        out.append(digit_str(m % 10));
        proof {
            assert(old(out)@ + nat_display((m / 10) as nat) + seq![
                digit_char((m % 10) as int),
            ] =~= old(out)@ + nat_display(m as nat));
        }
    } else {
        out.append(digit_str(m));
        proof {
            assert(old(out)@ + seq![digit_char(m as int)] =~= old(out)@ + nat_display(m as nat));
        }
    }
}

/// The decimal rendering of an integer as a fresh string.
pub fn i64_render(i: i64) -> (r: String)
    ensures
        r@ == i64_display(i),
{
    let mut out = String::new();
    if i < 0 {
        out.append("-");
        let mag: u64 = ((-(i + 1)) as u64) + 1;
        proof {
            assert(mag as nat == (-(i as int)) as nat);
        }
        push_nat_digits(&mut out, mag);
        proof {
            assert(Seq::<char>::empty() + "-"@ + nat_display(mag as nat) =~= i64_display(i));
        }
    } else {
        push_nat_digits(&mut out, i as u64);
        proof {
            assert(Seq::<char>::empty() + nat_display(i as nat) =~= i64_display(i));
        }
    }
    out
}

impl Token {
    /// The token as source text.
    pub fn render(&self) -> (r: String)
        ensures
            r@ == token_display(self@),
    {
        match self {
            Token::Ident(x) => x.clone(),
            Token::Int(x) => i64_render(*x),
            Token::String(x) => x.clone(),
            Token::Bool(b) => if *b {
                "true".to_owned()
            } else {
                "false".to_owned()
            },
            Token::Illegal => "Illegal".to_owned(),
            Token::Eof => "Eof".to_owned(),
            Token::Assign => "=".to_owned(),
            Token::Bang => "!".to_owned(),
            Token::Dash => "-".to_owned(),
            Token::ForwardSlash => "/".to_owned(),
            Token::Asterisk => "*".to_owned(),
            Token::Equal => "==".to_owned(),
            Token::NotEqual => "!=".to_owned(),
            Token::LessThan => "<".to_owned(),
            Token::LessThanEqual => "<=".to_owned(),
            Token::GreaterThan => ">".to_owned(),
            Token::GreaterThanEqual => ">=".to_owned(),
            Token::Plus => "+".to_owned(),
            Token::Comma => ",".to_owned(),
            Token::Semicolon => ";".to_owned(),
            Token::Colon => ":".to_owned(),
            Token::LParen => "(".to_owned(),
            Token::RParent => ")".to_owned(),
            Token::LBrace => "{".to_owned(),
            Token::RBrace => "}".to_owned(),
            Token::LBracket => "[".to_owned(),
            Token::RBracket => "]".to_owned(),
            Token::Function => "fn".to_owned(),
            Token::Let => "let".to_owned(),
            Token::If => "if".to_owned(),
            Token::Else => "else".to_owned(),
            Token::Return => "return".to_owned(),
        }
    }
}

/// Appends the renderings of `v`'s elements joined with `", "`.
fn append_exprs_joined(out: &mut String, v: &Vec<Expression>)
    ensures
        final(out)@ == old(out)@ + exprs_join_display(crate::ast::exprs_view(v@)),
    decreases v,
{
    let n = v.len();
    let mut i: usize = 0;
    while i < n
        invariant
            i <= n,
            n == v.len(),
            out@ == old(out)@ + exprs_join_display(
                crate::ast::exprs_view(v@.subrange(0, i as int)),
            ),
        decreases n - i,
    {
        proof {
            assert(decreases_to!(v => v@));
            assert(decreases_to!(v@ => v@[i as int]));
        }
        if i > 0 {
            out.append(", ");
        }
        let piece = v[i].render();
        out.append(piece.as_str());
        proof {
            crate::ast::lemma_exprs_view(v@.subrange(0, i as int));
            crate::ast::lemma_exprs_view(v@.subrange(0, i + 1));
            lemma_join_step_exprs(crate::ast::exprs_view(v@.subrange(0, i + 1)));
            assert(crate::ast::exprs_view(v@.subrange(0, i + 1)).drop_last() =~= crate::ast::exprs_view(
                v@.subrange(0, i as int),
            )) by {
                crate::ast::lemma_exprs_view(v@.subrange(0, i + 1));
                crate::ast::lemma_exprs_view(v@.subrange(0, i as int));
            }
            assert(out@ =~= old(out)@ + exprs_join_display(
                crate::ast::exprs_view(v@.subrange(0, i + 1)),
            ));
        }
        i = i + 1;
    }
    proof {
        assert(v@.subrange(0, n as int) =~= v@);
    }
}

/// Unfolds one joining step at the end of a nonempty sequence.
proof fn lemma_join_step_exprs(s: Seq<ExprV>)
    requires
        s.len() >= 1,
    ensures
        exprs_join_display(s) == if s.len() == 1 {
            expr_display(s[0])
        } else {
            exprs_join_display(s.drop_last()) + ", "@ + expr_display(s.last())
        },
{
}

/// Appends the renderings of the pairs joined with `", "`.
fn append_pairs_joined(out: &mut String, v: &Vec<(Expression, Expression)>)
    ensures
        final(out)@ == old(out)@ + pairs_join_display(crate::ast::pairs_view(v@)),
    decreases v,
{
    let n = v.len();
    let mut i: usize = 0;
    while i < n
        invariant
            i <= n,
            n == v.len(),
            out@ == old(out)@ + pairs_join_display(
                crate::ast::pairs_view(v@.subrange(0, i as int)),
            ),
        decreases n - i,
    {
        proof {
            assert(decreases_to!(v => v@));
            assert(decreases_to!(v@ => v@[i as int]));
            assert(decreases_to!(v@[i as int] => v@[i as int].0));
            assert(decreases_to!(v@[i as int] => v@[i as int].1));
        }
        if i > 0 {
            out.append(", ");
        }
        let k = v[i].0.render();
        out.append(k.as_str());
        out.append(": ");
        let w = v[i].1.render();
        out.append(w.as_str());
        proof {
            crate::ast::lemma_pairs_view(v@.subrange(0, i as int));
            crate::ast::lemma_pairs_view(v@.subrange(0, i + 1));
            assert(crate::ast::pairs_view(v@.subrange(0, i + 1)).drop_last() =~= crate::ast::pairs_view(
                v@.subrange(0, i as int),
            ));
            assert(out@ =~= old(out)@ + pairs_join_display(
                crate::ast::pairs_view(v@.subrange(0, i + 1)),
            ));
        }
        i = i + 1;
    }
    proof {
        assert(v@.subrange(0, n as int) =~= v@);
    }
}

/// Appends the parameter names joined with `" ,"`.
fn append_names_joined(out: &mut String, v: &Vec<String>)
    ensures
        final(out)@ == old(out)@ + names_join_display(crate::ast::names_view(v@)),
{
    let n = v.len();
    let mut i: usize = 0;
    while i < n
        invariant
            i <= n,
            n == v.len(),
            out@ == old(out)@ + names_join_display(
                crate::ast::names_view(v@.subrange(0, i as int)),
            ),
        decreases n - i,
    {
        if i > 0 {
            out.append(" ,");
        }
        out.append(v[i].as_str());
        proof {
            crate::ast::lemma_names_view(v@.subrange(0, i as int));
            crate::ast::lemma_names_view(v@.subrange(0, i + 1));
            assert(crate::ast::names_view(v@.subrange(0, i + 1)).drop_last() =~= crate::ast::names_view(
                v@.subrange(0, i as int),
            ));
            assert(out@ =~= old(out)@ + names_join_display(
                crate::ast::names_view(v@.subrange(0, i + 1)),
            ));
        }
        i = i + 1;
    }
    proof {
        assert(v@.subrange(0, n as int) =~= v@);
    }
}

impl Expression {
    /// The expression as source text, with explicit grouping.
    pub fn render(&self) -> (r: String)
        ensures
            r@ == expr_display(self@),
        decreases self,
    {
        match self {
            Expression::Constant => "Constant expression???".to_owned(),
            Expression::Identifier(i) => i.clone(),
            Expression::IntLiteral(i) => i64_render(*i),
            Expression::StringLiteral(s) => s.clone(),
            Expression::Bool(b) => if *b {
                "true".to_owned()
            } else {
                "false".to_owned()
            },
            Expression::PrefixExpression(op, e1) => {
                let mut out = "(".to_owned();
                let t = op.render();
                out.append(t.as_str());
                let inner = e1.render();
                out.append(inner.as_str());
                out.append(")");
                proof {
                    assert(out@ =~= expr_display(self@));
                }
                out
            },
            Expression::InfixExpression(op, l, r2) => {
                let mut out = "(".to_owned();
                let ls = l.render();
                out.append(ls.as_str());
                out.append(" ");
                let t = op.render();
                out.append(t.as_str());
                out.append(" ");
                let rs = r2.render();
                out.append(rs.as_str());
                out.append(")");
                proof {
                    assert(out@ =~= expr_display(self@));
                }
                out
            },
            Expression::IfExpression(c, b1, b2) => {
                let mut out = "if ".to_owned();
                let cs = c.render();
                out.append(cs.as_str());
                out.append(" ");
                let bs = b1.render();
                out.append(bs.as_str());
                match b2 {
                    Some(b) => {
                        out.append(" else ");
                        let es = b.render();
                        out.append(es.as_str());
                    },
                    None => {},
                }
                proof {
                    assert(out@ =~= expr_display(self@));
                }
                out
            },
            Expression::FnExpression(params, body) => {
                let mut out = "fn(".to_owned();
                append_names_joined(&mut out, params);
                out.append(") ");
                let bs = body.render();
                out.append(bs.as_str());
                proof {
                    assert(out@ =~= expr_display(self@));
                }
                out
            },
            Expression::CallExpression(f, args) => {
                let mut out = f.render();
                out.append("(");
                append_exprs_joined(&mut out, args);
                out.append(")");
                proof {
                    assert(out@ =~= expr_display(self@));
                }
                out
            },
            Expression::Arrary(elems) => {
                let mut out = "[".to_owned();
                append_exprs_joined(&mut out, elems);
                out.append("]");
                proof {
                    assert(out@ =~= expr_display(self@));
                }
                out
            },
            Expression::MapLiteral(pairs) => {
                let mut out = "{".to_owned();
                append_pairs_joined(&mut out, pairs);
                out.append("}");
                proof {
                    assert(out@ =~= expr_display(self@));
                }
                out
            },
            Expression::IndexExpression(l, i) => {
                let mut out = l.render();
                out.append("[");
                let is = i.render();
                out.append(is.as_str());
                out.append("]");
                proof {
                    assert(out@ =~= expr_display(self@));
                }
                out
            },
        }
    }
}

impl Statement {
    /// The statement as source text.
    pub fn render(&self) -> (r: String)
        ensures
            r@ == stmt_display(self@),
        decreases self,
    {
        match self {
            Statement::Let(name, e) => {
                let mut out = "let ".to_owned();
                out.append(name.as_str());
                out.append(" = ");
                let es = e.render();
                out.append(es.as_str());
                out.append(";");
                proof {
                    assert(out@ =~= stmt_display(self@));
                }
                out
            },
            Statement::Return(e) => {
                let mut out = "return ".to_owned();
                let es = e.render();
                out.append(es.as_str());
                out.append(";");
                proof {
                    assert(out@ =~= stmt_display(self@));
                }
                out
            },
            Statement::ExpressionStatement(e) => e.render(),
        }
    }
}

impl BlockStatement {
    /// The block as source text: its statements back to back.
    pub fn render(&self) -> (r: String)
        ensures
            r@ == block_display(self@),
        decreases self,
    {
        let mut out = String::new();
        let n = self.statements.len();
        let mut i: usize = 0;
        while i < n
            invariant
                i <= n,
                n == self.statements.len(),
                out@ == block_display(crate::ast::stmts_view(self.statements@.subrange(0, i as int))),
            decreases n - i,
        {
            proof {
                assert(decreases_to!(self => self.statements));
                assert(decreases_to!(self.statements => self.statements@));
                assert(decreases_to!(self.statements@ => self.statements@[i as int]));
            }
            let ss = self.statements[i].render();
            out.append(ss.as_str());
            proof {
                crate::ast::lemma_stmts_view(self.statements@.subrange(0, i as int));
                crate::ast::lemma_stmts_view(self.statements@.subrange(0, i + 1));
                assert(crate::ast::stmts_view(self.statements@.subrange(0, i + 1)).drop_last()
                    =~= crate::ast::stmts_view(self.statements@.subrange(0, i as int)));
                assert(out@ =~= block_display(
                    crate::ast::stmts_view(self.statements@.subrange(0, i + 1)),
                ));
            }
            i = i + 1;
        }
        proof {
            assert(self.statements@.subrange(0, n as int) =~= self.statements@);
        }
        out
    }
}

/// Appends the renderings of the array elements joined with `", "`.
fn append_objs_joined(out: &mut String, v: &Vec<Object>)
    ensures
        final(out)@ == old(out)@ + objs_join_display(crate::object::objs_view(v@)),
    decreases v,
{
    let n = v.len();
    let mut i: usize = 0;
    while i < n
        invariant
            i <= n,
            n == v.len(),
            out@ == old(out)@ + objs_join_display(
                crate::object::objs_view(v@.subrange(0, i as int)),
            ),
        decreases n - i,
    {
        proof {
            assert(decreases_to!(v => v@));
            assert(decreases_to!(v@ => v@[i as int]));
        }
        if i > 0 {
            out.append(", ");
        }
        let piece = v[i].render();
        out.append(piece.as_str());
        proof {
            crate::object::lemma_objs_view(v@.subrange(0, i as int));
            crate::object::lemma_objs_view(v@.subrange(0, i + 1));
            assert(crate::object::objs_view(v@.subrange(0, i + 1)).drop_last()
                =~= crate::object::objs_view(v@.subrange(0, i as int)));
            assert(out@ =~= old(out)@ + objs_join_display(
                crate::object::objs_view(v@.subrange(0, i + 1)),
            ));
        }
        i = i + 1;
    }
    proof {
        assert(v@.subrange(0, n as int) =~= v@);
    }
}

/// Appends the renderings of the hash entries joined with `", "`.
fn append_hash_joined(out: &mut String, v: &Vec<(crate::object::HashKey, crate::object::HashPair)>)
    ensures
        final(out)@ == old(out)@ + hash_join_display(crate::object::hash_entries_view(v@)),
    decreases v,
{
    let n = v.len();
    let mut i: usize = 0;
    while i < n
        invariant
            i <= n,
            n == v.len(),
            out@ == old(out)@ + hash_join_display(
                crate::object::hash_entries_view(v@.subrange(0, i as int)),
            ),
        decreases n - i,
    {
        proof {
            assert(decreases_to!(v => v@));
            assert(decreases_to!(v@ => v@[i as int]));
            assert(decreases_to!(v@[i as int] => v@[i as int].1));
            assert(decreases_to!(v@[i as int].1 => v@[i as int].1.key));
            assert(decreases_to!(v@[i as int].1 => v@[i as int].1.value));
        }
        if i > 0 {
            out.append(", ");
        }
        let ks = v[i].1.key.render();
        out.append(ks.as_str());
        out.append(": ");
        let vs = v[i].1.value.render();
        out.append(vs.as_str());
        proof {
            crate::object::lemma_hash_entries_view(v@.subrange(0, i as int));
            crate::object::lemma_hash_entries_view(v@.subrange(0, i + 1));
            assert(crate::object::hash_entries_view(v@.subrange(0, i + 1)).drop_last()
                =~= crate::object::hash_entries_view(v@.subrange(0, i as int)));
            assert(out@ =~= old(out)@ + hash_join_display(
                crate::object::hash_entries_view(v@.subrange(0, i + 1)),
            ));
        }
        i = i + 1;
    }
    proof {
        assert(v@.subrange(0, n as int) =~= v@);
    }
}

impl Object {
    /// The value as the interpreter shows it: strings bare, `null` for
    /// `Null`, arrays bracketed with a trailing space, functions with their
    /// parameter list and body.
    pub fn render(&self) -> (r: String)
        ensures
            r@ == obj_display(self@),
        decreases self,
    {
        match self {
            Object::String(s) => s.clone(),
            Object::Int(i) => i64_render(*i),
            Object::Bool(b) => if *b {
                "true".to_owned()
            } else {
                "false".to_owned()
            },
            Object::Return(inner) => {
                let mut out = "return ".to_owned();
                let is = inner.render();
                out.append(is.as_str());
                proof {
                    assert(out@ =~= obj_display(self@));
                }
                out
            },
            Object::Null => "null".to_owned(),
            Object::Function(params, body, _env) => {
                let mut out = "fn(".to_owned();
                append_names_joined(&mut out, params);
                out.append(") ");
                let bs = body.render();
                out.append(bs.as_str());
                proof {
                    assert(out@ =~= obj_display(self@));
                }
                out
            },
            Object::Builtin(k) => {
                let mut out = "fn(".to_owned();
                match k {
                    BuiltinKind::Len => out.append("len"),
                    BuiltinKind::First => out.append("first"),
                    BuiltinKind::Last => out.append("last"),
                    BuiltinKind::Rest => out.append("rest"),
                    BuiltinKind::Push => out.append("push"),
                }
                out.append(") ");
                proof {
                    assert(out@ =~= obj_display(self@));
                }
                out
            },
            Object::Array(elems) => {
                let mut out = "[".to_owned();
                append_objs_joined(&mut out, elems);
                out.append("] ");
                proof {
                    assert(out@ =~= obj_display(self@));
                }
                out
            },
            Object::Hash(entries) => {
                let mut out = "{".to_owned();
                append_hash_joined(&mut out, entries);
                out.append("}");
                proof {
                    assert(out@ =~= obj_display(self@));
                }
                out
            },
        }
    }
}

} // verus!
