use vstd::prelude::*;

verus! {

broadcast use {
    vstd::seq::axiom_seq_index_decreases,
    vstd::seq::axiom_seq_subrange_decreases,
    vstd::std_specs::vec::axiom_vec_decreases_to_view,
};

/// A node of the syntax tree. Each node owns its children.
#[derive(Debug, PartialEq, Eq)]
pub enum AstNode {
    StringLiteral(String),
    IntegerLiteral(i64),
    /// Parsed but never evaluated.
    Comment(String),
    VariableLookup(String),
    /// One `.attr` access on an expression.
    AttributeLookup { expr: Box<AstNode>, attr: String },
    /// One `::meth` lookup on an expression.
    MethodLookup { expr: Box<AstNode>, meth: String },
    FunctionCall { func: Box<AstNode>, args: Vec<AstNode> },
    List(Vec<AstNode>),
    StatementBlock(Vec<AstNode>),
    ExpressionBlock(Box<AstNode>),
    /// A `var` declaration.
    VariableCreation { ident: String, value: Box<AstNode> },
    /// An assignment to an existing place.
    Assignment { expr: Box<AstNode>, value: Box<AstNode> },
}

/// The mathematical model of a syntax tree.
pub enum Ast {
    StringLiteral(Seq<char>),
    IntegerLiteral(i64),
    Comment(Seq<char>),
    VariableLookup(Seq<char>),
    AttributeLookup(Box<Ast>, Seq<char>),
    MethodLookup(Box<Ast>, Seq<char>),
    FunctionCall(Box<Ast>, Seq<Ast>),
    List(Seq<Ast>),
    StatementBlock(Seq<Ast>),
    ExpressionBlock(Box<Ast>),
    VariableCreation(Seq<char>, Box<Ast>),
    Assignment(Box<Ast>, Box<Ast>),
}

/// The model of a node.
pub open spec fn ast_view(n: AstNode) -> Ast
    decreases n,
{
    match n {
        AstNode::StringLiteral(s) => Ast::StringLiteral(s@),
        AstNode::IntegerLiteral(v) => Ast::IntegerLiteral(v),
        AstNode::Comment(s) => Ast::Comment(s@),
        AstNode::VariableLookup(s) => Ast::VariableLookup(s@),
        AstNode::AttributeLookup { expr, attr } => Ast::AttributeLookup(
            Box::new(ast_view(*expr)),
            attr@,
        ),
        AstNode::MethodLookup { expr, meth } => Ast::MethodLookup(Box::new(ast_view(*expr)), meth@),
        AstNode::FunctionCall { func, args } => Ast::FunctionCall(
            Box::new(ast_view(*func)),
            asts_view(args@),
        ),
        AstNode::List(l) => Ast::List(asts_view(l@)),
        AstNode::StatementBlock(b) => Ast::StatementBlock(asts_view(b@)),
        AstNode::ExpressionBlock(e) => Ast::ExpressionBlock(Box::new(ast_view(*e))),
        AstNode::VariableCreation { ident, value } => Ast::VariableCreation(
            ident@,
            Box::new(ast_view(*value)),
        ),
        AstNode::Assignment { expr, value } => Ast::Assignment(
            Box::new(ast_view(*expr)),
            Box::new(ast_view(*value)),
        ),
    }
}

/// The models of a sequence of nodes.
pub open spec fn asts_view(s: Seq<AstNode>) -> Seq<Ast>
    decreases s,
{
    if s.len() == 0 {
        Seq::empty()
    } else {
        asts_view(s.drop_last()).push(ast_view(s.last()))
    }
}

impl View for AstNode {
    type V = Ast;

    open spec fn view(&self) -> Ast {
        ast_view(*self)
    }
}

pub proof fn lemma_asts_view_push(s: Seq<AstNode>, n: AstNode)
    ensures
        asts_view(s.push(n)) == asts_view(s).push(ast_view(n)),
{
    assert(s.push(n).drop_last() =~= s);
}

pub proof fn lemma_asts_view_index(s: Seq<AstNode>, i: int)
    requires
        0 <= i < s.len(),
    ensures
        asts_view(s)[i] == ast_view(s[i]),
        asts_view(s).subrange(0, i) == asts_view(s.subrange(0, i)),
    decreases s.len(),
{
    lemma_asts_view_len(s);
    lemma_asts_view_len(s.subrange(0, i));
    if i < s.len() - 1 {
        assert(s.drop_last().subrange(0, i) =~= s.subrange(0, i));
        lemma_asts_view_index(s.drop_last(), i);
        assert(asts_view(s).subrange(0, i) =~= asts_view(s.drop_last()).subrange(0, i));
    } else {
        assert(s.drop_last() =~= s.subrange(0, i));
        assert(asts_view(s).subrange(0, i) =~= asts_view(s.drop_last()));
    }
}

pub proof fn lemma_asts_view_len(s: Seq<AstNode>)
    ensures
        asts_view(s).len() == s.len(),
    decreases s.len(),
{
    if s.len() > 0 {
        lemma_asts_view_len(s.drop_last());
    }
}

} // verus!
