use vstd::prelude::*;

use crate::ast::{BlockStatement, Expression, ExprV, Statement, StmtV};
use crate::object::{Object, ValueV};

verus! {

/// Anything the evaluator can be handed: a whole program, one block, one
/// statement, one expression, or an already-computed value.
#[derive(Debug)]
pub enum Node {
    BlockStatement(BlockStatement),
    Program(crate::ast::Program),
    Object(Object),
    Statement(Statement),
    Expression(Expression),
}

/// The mathematical model of a [`Node`].
pub enum NodeV {
    BlockStatement(Seq<StmtV>),
    Program(Seq<StmtV>),
    Object(ValueV),
    Statement(StmtV),
    Expression(ExprV),
}

impl View for Node {
    type V = NodeV;

    open spec fn view(&self) -> NodeV {
        match self {
            Node::BlockStatement(b) => NodeV::BlockStatement(b@),
            Node::Program(p) => NodeV::Program(p@),
            Node::Object(o) => NodeV::Object(o@),
            Node::Statement(s) => NodeV::Statement(s@),
            Node::Expression(e) => NodeV::Expression(e@),
        }
    }
}

impl From<Object> for Node {
    fn from(v: Object) -> (r: Self) {
        Node::Object(v)
    }
}

impl vstd::std_specs::convert::FromSpecImpl<Object> for Node {
    open spec fn obeys_from_spec() -> bool {
        true
    }

    open spec fn from_spec(v: Object) -> Self {
        Node::Object(v)
    }
}

impl From<BlockStatement> for Node {
    fn from(value: BlockStatement) -> (r: Self) {
        Node::BlockStatement(value)
    }
}

impl vstd::std_specs::convert::FromSpecImpl<BlockStatement> for Node {
    open spec fn obeys_from_spec() -> bool {
        true
    }

    open spec fn from_spec(value: BlockStatement) -> Self {
        Node::BlockStatement(value)
    }
}

impl From<Statement> for Node {
    fn from(v: Statement) -> (r: Self) {
        Node::Statement(v)
    }
}

impl vstd::std_specs::convert::FromSpecImpl<Statement> for Node {
    open spec fn obeys_from_spec() -> bool {
        true
    }

    open spec fn from_spec(v: Statement) -> Self {
        Node::Statement(v)
    }
}

impl From<Expression> for Node {
    fn from(v: Expression) -> (r: Self) {
        Node::Expression(v)
    }
}

impl vstd::std_specs::convert::FromSpecImpl<Expression> for Node {
    open spec fn obeys_from_spec() -> bool {
        true
    }

    open spec fn from_spec(v: Expression) -> Self {
        Node::Expression(v)
    }
}

} // verus!
