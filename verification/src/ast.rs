use vstd::prelude::*;

use crate::token::{Token, TokenV};

verus! {

/// A name bound by `let` or used as a function parameter.
pub type Identifier = String;

/// One statement of a program.
#[derive(Debug, PartialEq)]
pub enum Statement {
    Let(Identifier, Expression),
    Return(Expression),
    ExpressionStatement(Expression),
}

/// One expression node of the syntax tree.
#[derive(Debug, PartialEq)]
pub enum Expression {
    Constant,
    Identifier(Identifier),
    IntLiteral(i64),
    StringLiteral(String),
    Bool(bool),
    PrefixExpression(Token, Box<Expression>),
    InfixExpression(Token, Box<Expression>, Box<Expression>),
    IfExpression(Box<Expression>, BlockStatement, Option<BlockStatement>),
    FnExpression(Vec<Identifier>, BlockStatement),
    CallExpression(Box<Expression>, Vec<Expression>),
    Arrary(Vec<Expression>),
    MapLiteral(Vec<(Expression, Expression)>),
    IndexExpression(Box<Expression>, Box<Expression>),
}

/// An ordered sequence of statements; also serves as the whole-program root.
#[derive(Debug, PartialEq)]
pub struct BlockStatement {
    pub statements: Vec<Statement>,
}

/// A whole program is simply its top-level block.
pub type Program = BlockStatement;

/// The mathematical model of a [`Statement`].
pub enum StmtV {
    Let(Seq<char>, ExprV),
    Return(ExprV),
    ExpressionStatement(ExprV),
}

/// The mathematical model of an [`Expression`]; blocks appear as sequences
/// of statement models, and all collections are `Seq`s.
pub enum ExprV {
    Constant,
    Identifier(Seq<char>),
    IntLiteral(i64),
    StringLiteral(Seq<char>),
    Bool(bool),
    PrefixExpression(TokenV, Box<ExprV>),
    InfixExpression(TokenV, Box<ExprV>, Box<ExprV>),
    IfExpression(Box<ExprV>, Seq<StmtV>, Option<Seq<StmtV>>),
    FnExpression(Seq<Seq<char>>, Seq<StmtV>),
    CallExpression(Box<ExprV>, Seq<ExprV>),
    Arrary(Seq<ExprV>),
    MapLiteral(Seq<(ExprV, ExprV)>),
    IndexExpression(Box<ExprV>, Box<ExprV>),
}

/// The model of an expression: its structure with every `Vec` replaced by a
/// `Seq`, every `String` by a `Seq<char>`, and every block by the sequence
/// of its statement models.
pub open spec fn expr_view(e: Expression) -> ExprV
    decreases e,
{
    match e {
        Expression::Constant => ExprV::Constant,
        Expression::Identifier(s) => ExprV::Identifier(s@),
        Expression::IntLiteral(i) => ExprV::IntLiteral(i),
        Expression::StringLiteral(s) => ExprV::StringLiteral(s@),
        Expression::Bool(b) => ExprV::Bool(b),
        Expression::PrefixExpression(t, e1) => ExprV::PrefixExpression(
            t@,
            Box::new(expr_view(*e1)),
        ),
        Expression::InfixExpression(t, e1, e2) => ExprV::InfixExpression(
            t@,
            Box::new(expr_view(*e1)),
            Box::new(expr_view(*e2)),
        ),
        Expression::IfExpression(c, b1, b2) => ExprV::IfExpression(
            Box::new(expr_view(*c)),
            stmts_view(b1.statements@),
            match b2 {
                Some(b) => Some(stmts_view(b.statements@)),
                None => None,
            },
        ),
        Expression::FnExpression(params, body) => ExprV::FnExpression(
            names_view(params@),
            stmts_view(body.statements@),
        ),
        Expression::CallExpression(f, args) => ExprV::CallExpression(
            Box::new(expr_view(*f)),
            exprs_view(args@),
        ),
        Expression::Arrary(elems) => ExprV::Arrary(exprs_view(elems@)),
        Expression::MapLiteral(pairs) => ExprV::MapLiteral(pairs_view(pairs@)),
        Expression::IndexExpression(e1, e2) => ExprV::IndexExpression(
            Box::new(expr_view(*e1)),
            Box::new(expr_view(*e2)),
        ),
    }
}

/// The model of one statement.
pub open spec fn stmt_view(s: Statement) -> StmtV
    decreases s,
{
    match s {
        Statement::Let(name, e) => StmtV::Let(name@, expr_view(e)),
        Statement::Return(e) => StmtV::Return(expr_view(e)),
        Statement::ExpressionStatement(e) => StmtV::ExpressionStatement(expr_view(e)),
    }
}

/// The model of a sequence of statements, statement by statement.
pub open spec fn stmts_view(s: Seq<Statement>) -> Seq<StmtV>
    decreases s,
{
    if s.len() == 0 {
        Seq::empty()
    } else {
        stmts_view(s.drop_last()).push(stmt_view(s.last()))
    }
}

/// The model of a sequence of expressions, element by element.
pub open spec fn exprs_view(s: Seq<Expression>) -> Seq<ExprV>
    decreases s,
{
    if s.len() == 0 {
        Seq::empty()
    } else {
        exprs_view(s.drop_last()).push(expr_view(s.last()))
    }
}

/// The model of a sequence of key/value expression pairs.
pub open spec fn pairs_view(s: Seq<(Expression, Expression)>) -> Seq<(ExprV, ExprV)>
    decreases s,
{
    if s.len() == 0 {
        Seq::empty()
    } else {
        pairs_view(s.drop_last()).push(
            (expr_view(s.last().0), expr_view(s.last().1)),
        )
    }
}

/// The model of a sequence of identifiers.
pub open spec fn names_view(s: Seq<String>) -> Seq<Seq<char>>
    decreases s,
{
    if s.len() == 0 {
        Seq::empty()
    } else {
        names_view(s.drop_last()).push(s.last()@)
    }
}

/// `stmts_view` maps the sequence element by element.
pub proof fn lemma_stmts_view(s: Seq<Statement>)
    ensures
        stmts_view(s).len() == s.len(),
        forall|i: int| 0 <= i < s.len() ==> stmts_view(s)[i] == stmt_view(s[i]),
    decreases s.len(),
{
    if s.len() > 0 {
        lemma_stmts_view(s.drop_last());
    }
}

/// `exprs_view` maps the sequence element by element.
pub proof fn lemma_exprs_view(s: Seq<Expression>)
    ensures
        exprs_view(s).len() == s.len(),
        forall|i: int| 0 <= i < s.len() ==> exprs_view(s)[i] == expr_view(s[i]),
    decreases s.len(),
{
    if s.len() > 0 {
        lemma_exprs_view(s.drop_last());
    }
}

/// `pairs_view` maps the sequence pair by pair.
pub proof fn lemma_pairs_view(s: Seq<(Expression, Expression)>)
    ensures
        pairs_view(s).len() == s.len(),
        forall|i: int| 0 <= i < s.len() ==> pairs_view(s)[i] == (expr_view(s[i].0), expr_view(s[i].1)),
    decreases s.len(),
{
    if s.len() > 0 {
        lemma_pairs_view(s.drop_last());
    }
}

/// `names_view` maps the sequence name by name.
pub proof fn lemma_names_view(s: Seq<String>)
    ensures
        names_view(s).len() == s.len(),
        forall|i: int| 0 <= i < s.len() ==> names_view(s)[i] == s[i]@,
    decreases s.len(),
{
    if s.len() > 0 {
        lemma_names_view(s.drop_last());
    }
}

impl View for Expression {
    type V = ExprV;

    open spec fn view(&self) -> ExprV {
        expr_view(*self)
    }
}

impl View for Statement {
    type V = StmtV;

    open spec fn view(&self) -> StmtV {
        stmt_view(*self)
    }
}

impl View for BlockStatement {
    type V = Seq<StmtV>;

    open spec fn view(&self) -> Seq<StmtV> {
        stmts_view(self.statements@)
    }
}

impl From<i64> for Expression {
    fn from(value: i64) -> (r: Self) {
        Expression::IntLiteral(value)
    }
}

impl vstd::std_specs::convert::FromSpecImpl<i64> for Expression {
    open spec fn obeys_from_spec() -> bool {
        true
    }

    open spec fn from_spec(value: i64) -> Self {
        Expression::IntLiteral(value)
    }
}

impl From<Vec<Expression>> for Expression {
    fn from(value: Vec<Expression>) -> (r: Self) {
        Expression::Arrary(value)
    }
}

impl vstd::std_specs::convert::FromSpecImpl<Vec<Expression>> for Expression {
    open spec fn obeys_from_spec() -> bool {
        true
    }

    open spec fn from_spec(value: Vec<Expression>) -> Self {
        Expression::Arrary(value)
    }
}

impl From<Vec<(Expression, Expression)>> for Expression {
    fn from(value: Vec<(Expression, Expression)>) -> (r: Self) {
        Expression::MapLiteral(value)
    }
}

impl vstd::std_specs::convert::FromSpecImpl<Vec<(Expression, Expression)>> for Expression {
    open spec fn obeys_from_spec() -> bool {
        true
    }

    open spec fn from_spec(value: Vec<(Expression, Expression)>) -> Self {
        Expression::MapLiteral(value)
    }
}

impl Expression {
    /// Builds an expression from any value with a conversion into
    /// [`Expression`]; an integer becomes an integer literal, a vector of
    /// expressions an array literal.
    pub fn new(value: impl Into<Expression>) -> (r: Self) {
        value.into()
    }
}

/// The parser's precedence levels, lowest binding strength first; the
/// numeric order is what drives precedence climbing.
pub struct Precedence;

impl Precedence {
    pub const LOWEST: i8 = 0;

    pub const EQUALS: i8 = 1;

    pub const LESS_GREATER: i8 = 2;

    pub const SUM: i8 = 3;

    pub const PRODUCT: i8 = 4;

    pub const PREFIX: i8 = 5;

    pub const CALL: i8 = 6;

    pub const INDEX: i8 = 7;

    /// The binding strength of `token` when it appears in infix position:
    /// equality binds weakest, then ordering, sums, products, and finally
    /// calls and index accesses; every other token gets `LOWEST`.
    pub fn from(token: &Token) -> (r: i8)
        ensures
            r == spec_precedence(token@),
    {
        match token {
            Token::Equal | Token::NotEqual => Precedence::EQUALS,
            Token::LessThan
            | Token::GreaterThan
            | Token::LessThanEqual
            | Token::GreaterThanEqual => Precedence::LESS_GREATER,
            Token::Plus | Token::Dash => Precedence::SUM,
            Token::Asterisk | Token::ForwardSlash => Precedence::PRODUCT,
            Token::LParen => Precedence::CALL,
            Token::LBracket => Precedence::INDEX,
            _ => Precedence::LOWEST,
        }
    }
}

/// The precedence table as a function on token models.
pub open spec fn spec_precedence(t: TokenV) -> i8 {
    match t {
        TokenV::Equal | TokenV::NotEqual => 1,
        TokenV::LessThan | TokenV::GreaterThan | TokenV::LessThanEqual
            | TokenV::GreaterThanEqual => 2,
        TokenV::Plus | TokenV::Dash => 3,
        TokenV::Asterisk | TokenV::ForwardSlash => 4,
        TokenV::LParen => 6,
        TokenV::LBracket => 7,
        _ => 0,
    }
}

/// Appending one statement appends its model.
pub proof fn lemma_stmts_view_push(s: Seq<Statement>, x: Statement)
    ensures
        stmts_view(s.push(x)) == stmts_view(s).push(stmt_view(x)),
{
    assert(s.push(x).drop_last() =~= s);
    assert(s.push(x).last() == x);
}

/// Appending one expression appends its model.
pub proof fn lemma_exprs_view_push(s: Seq<Expression>, x: Expression)
    ensures
        exprs_view(s.push(x)) == exprs_view(s).push(expr_view(x)),
{
    assert(s.push(x).drop_last() =~= s);
    assert(s.push(x).last() == x);
}

/// Appending one pair appends its model.
pub proof fn lemma_pairs_view_push(s: Seq<(Expression, Expression)>, x: (Expression, Expression))
    ensures
        pairs_view(s.push(x)) == pairs_view(s).push((expr_view(x.0), expr_view(x.1))),
{
    assert(s.push(x).drop_last() =~= s);
    assert(s.push(x).last() == x);
}

/// Appending one name appends its model.
pub proof fn lemma_names_view_push(s: Seq<String>, x: String)
    ensures
        names_view(s.push(x)) == names_view(s).push(x@),
{
    assert(s.push(x).drop_last() =~= s);
    assert(s.push(x).last() == x);
}

impl Expression {
    /// A structural copy with the same model; written by hand so verified
    /// callers know the tree is preserved, which a derived clone would not
    /// tell them.
    pub fn duplicate(&self) -> (r: Expression)
        ensures
            r@ == self@,
        decreases self,
    {
        match self {
            Expression::Constant => Expression::Constant,
            Expression::Identifier(s) => Expression::Identifier(s.clone()),
            Expression::IntLiteral(i) => Expression::IntLiteral(*i),
            Expression::StringLiteral(s) => Expression::StringLiteral(s.clone()),
            Expression::Bool(b) => Expression::Bool(*b),
            Expression::PrefixExpression(t, e1) => Expression::PrefixExpression(
                t.duplicate(),
                Box::new(e1.duplicate()),
            ),
            Expression::InfixExpression(t, e1, e2) => Expression::InfixExpression(
                t.duplicate(),
                Box::new(e1.duplicate()),
                Box::new(e2.duplicate()),
            ),
            Expression::IfExpression(c, b1, b2) => Expression::IfExpression(
                Box::new(c.duplicate()),
                b1.duplicate(),
                match b2 {
                    Some(b) => Some(b.duplicate()),
                    None => None,
                },
            ),
            Expression::FnExpression(params, body) => Expression::FnExpression(
                dup_names(params),
                body.duplicate(),
            ),
            Expression::CallExpression(f, args) => Expression::CallExpression(
                Box::new(f.duplicate()),
                dup_exprs(args),
            ),
            Expression::Arrary(v) => Expression::Arrary(dup_exprs(v)),
            Expression::MapLiteral(ps) => Expression::MapLiteral(dup_pairs(ps)),
            Expression::IndexExpression(e1, e2) => Expression::IndexExpression(
                Box::new(e1.duplicate()),
                Box::new(e2.duplicate()),
            ),
        }
    }
}

impl Statement {
    /// A structural copy with the same model.
    pub fn duplicate(&self) -> (r: Statement)
        ensures
            r@ == self@,
        decreases self,
    {
        match self {
            Statement::Let(name, e) => Statement::Let(name.clone(), e.duplicate()),
            Statement::Return(e) => Statement::Return(e.duplicate()),
            Statement::ExpressionStatement(e) => Statement::ExpressionStatement(e.duplicate()),
        }
    }
}

impl BlockStatement {
    /// A structural copy with the same model.
    pub fn duplicate(&self) -> (r: BlockStatement)
        ensures
            r@ == self@,
        decreases self,
    {
        let mut out: Vec<Statement> = Vec::new();
        let n = self.statements.len();
        let mut i: usize = 0;
        while i < n
            invariant
                i <= n,
                n == self.statements.len(),
                stmts_view(out@) == stmts_view(self.statements@.subrange(0, i as int)),
            decreases n - i,
        {
            proof {
                assert(decreases_to!(self => self.statements));
                assert(decreases_to!(self.statements => self.statements@));
                assert(decreases_to!(self.statements@ => self.statements@[i as int]));
            }
            let s = self.statements[i].duplicate();
            proof {
                lemma_stmts_view_push(out@, s);
                lemma_stmts_view_push(
                    self.statements@.subrange(0, i as int),
                    self.statements@[i as int],
                );
                assert(self.statements@.subrange(0, i as int).push(self.statements@[i as int])
                    =~= self.statements@.subrange(0, i + 1));
            }
            out.push(s);
            i = i + 1;
        }
        proof {
            assert(self.statements@.subrange(0, n as int) =~= self.statements@);
        }
        BlockStatement { statements: out }
    }
}

/// A copy of an expression vector with the same element models.
pub fn dup_exprs(v: &Vec<Expression>) -> (r: Vec<Expression>)
    ensures
        exprs_view(r@) == exprs_view(v@),
    decreases v,
{
    let mut out: Vec<Expression> = Vec::new();
    let n = v.len();
    let mut i: usize = 0;
    while i < n
        invariant
            i <= n,
            n == v.len(),
            exprs_view(out@) == exprs_view(v@.subrange(0, i as int)),
        decreases n - i,
    {
        proof {
            assert(decreases_to!(v => v@));
            assert(decreases_to!(v@ => v@[i as int]));
        }
        let e = v[i].duplicate();
        proof {
            lemma_exprs_view_push(out@, e);
            lemma_exprs_view_push(v@.subrange(0, i as int), v@[i as int]);
            assert(v@.subrange(0, i as int).push(v@[i as int]) =~= v@.subrange(0, i + 1));
        }
        out.push(e);
        i = i + 1;
    }
    proof {
        assert(v@.subrange(0, n as int) =~= v@);
    }
    out
}

/// A copy of a pair vector with the same element models.
pub fn dup_pairs(v: &Vec<(Expression, Expression)>) -> (r: Vec<(Expression, Expression)>)
    ensures
        pairs_view(r@) == pairs_view(v@),
    decreases v,
{
    let mut out: Vec<(Expression, Expression)> = Vec::new();
    let n = v.len();
    let mut i: usize = 0;
    while i < n
        invariant
            i <= n,
            n == v.len(),
            pairs_view(out@) == pairs_view(v@.subrange(0, i as int)),
        decreases n - i,
    {
        proof {
            assert(decreases_to!(v => v@));
            assert(decreases_to!(v@ => v@[i as int]));
            assert(decreases_to!(v@[i as int] => v@[i as int].0));
            assert(decreases_to!(v@[i as int] => v@[i as int].1));
        }
        let k = v[i].0.duplicate();
        let w = v[i].1.duplicate();
        let p = (k, w);
        proof {
            lemma_pairs_view_push(out@, p);
            lemma_pairs_view_push(v@.subrange(0, i as int), v@[i as int]);
            assert(v@.subrange(0, i as int).push(v@[i as int]) =~= v@.subrange(0, i + 1));
        }
        out.push(p);
        i = i + 1;
    }
    proof {
        assert(v@.subrange(0, n as int) =~= v@);
    }
    out
}

/// A copy of a name vector with the same element models.
pub fn dup_names(v: &Vec<String>) -> (r: Vec<String>)
    ensures
        names_view(r@) == names_view(v@),
{
    let mut out: Vec<String> = Vec::new();
    let n = v.len();
    let mut i: usize = 0;
    while i < n
        invariant
            i <= n,
            n == v.len(),
            names_view(out@) == names_view(v@.subrange(0, i as int)),
        decreases n - i,
    {
        let s = v[i].clone();
        proof {
            lemma_names_view_push(out@, s);
            lemma_names_view_push(v@.subrange(0, i as int), v@[i as int]);
            assert(v@.subrange(0, i as int).push(v@[i as int]) =~= v@.subrange(0, i + 1));
        }
        out.push(s);
        i = i + 1;
    }
    proof {
        assert(v@.subrange(0, n as int) =~= v@);
    }
    out
}

/// The size of an expression model: one more than the sizes of its parts.
/// Sizes bound the structural recursion of the evaluator.
pub open spec fn expr_size(e: ExprV) -> nat
    decreases e,
{
    match e {
        ExprV::Constant => 1,
        ExprV::Identifier(_) => 1,
        ExprV::IntLiteral(_) => 1,
        ExprV::StringLiteral(_) => 1,
        ExprV::Bool(_) => 1,
        ExprV::PrefixExpression(_, e1) => 1 + expr_size(*e1),
        ExprV::InfixExpression(_, e1, e2) => 1 + expr_size(*e1) + expr_size(*e2),
        ExprV::IfExpression(c, b1, b2) => 1 + expr_size(*c) + stmts_size(b1) + (match b2 {
            Some(b) => stmts_size(b),
            None => 0,
        }),
        ExprV::FnExpression(_, body) => 1 + stmts_size(body),
        ExprV::CallExpression(f, args) => 1 + expr_size(*f) + exprs_size(args),
        ExprV::Arrary(es) => 1 + exprs_size(es),
        ExprV::MapLiteral(ps) => 1 + pairs_size(ps),
        ExprV::IndexExpression(e1, e2) => 1 + expr_size(*e1) + expr_size(*e2),
    }
}

/// The size of a statement model.
pub open spec fn stmt_size(s: StmtV) -> nat
    decreases s,
{
    match s {
        StmtV::Let(_, e) => 1 + expr_size(e),
        StmtV::Return(e) => 1 + expr_size(e),
        StmtV::ExpressionStatement(e) => 1 + expr_size(e),
    }
}

/// The total size of a statement sequence.
pub open spec fn stmts_size(b: Seq<StmtV>) -> nat
    decreases b,
{
    if b.len() == 0 {
        0
    } else {
        stmt_size(b[0]) + stmts_size(b.drop_first())
    }
}

/// The total size of an expression sequence.
pub open spec fn exprs_size(s: Seq<ExprV>) -> nat
    decreases s,
{
    if s.len() == 0 {
        0
    } else {
        expr_size(s[0]) + exprs_size(s.drop_first())
    }
}

/// The total size of a pair sequence.
pub open spec fn pairs_size(s: Seq<(ExprV, ExprV)>) -> nat
    decreases s,
{
    if s.len() == 0 {
        0
    } else {
        expr_size(s[0].0) + expr_size(s[0].1) + pairs_size(s.drop_first())
    }
}

/// Each statement's size is bounded by its sequence's size.
pub proof fn lemma_stmts_size_elem(b: Seq<StmtV>, i: int)
    requires
        0 <= i < b.len(),
    ensures
        stmt_size(b[i]) <= stmts_size(b),
    decreases i,
{
    if i > 0 {
        lemma_stmts_size_elem(b.drop_first(), i - 1);
    }
}

/// Each expression's size is bounded by its sequence's size.
pub proof fn lemma_exprs_size_elem(s: Seq<ExprV>, i: int)
    requires
        0 <= i < s.len(),
    ensures
        expr_size(s[i]) <= exprs_size(s),
    decreases i,
{
    if i > 0 {
        lemma_exprs_size_elem(s.drop_first(), i - 1);
    }
}

/// Each pair's sizes are bounded by its sequence's size.
pub proof fn lemma_pairs_size_elem(s: Seq<(ExprV, ExprV)>, i: int)
    requires
        0 <= i < s.len(),
    ensures
        expr_size(s[i].0) <= pairs_size(s),
        expr_size(s[i].1) <= pairs_size(s),
    decreases i,
{
    if i > 0 {
        lemma_pairs_size_elem(s.drop_first(), i - 1);
    }
}

impl<'a> From<&'a str> for Expression {
    fn from(value: &'a str) -> (r: Self) {
        Expression::Identifier(value.to_owned())
    }
}

impl<'a> vstd::std_specs::convert::FromSpecImpl<&'a str> for Expression {
    open spec fn obeys_from_spec() -> bool {
        false
    }

    open spec fn from_spec(value: &'a str) -> Self {
        Expression::Identifier(choose|o: String| o@ == value@)
    }
}

} // verus!
