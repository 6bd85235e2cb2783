//! The grammar, over token models. Each production maps the remaining tokens
//! to the node it parses and the tokens after it, or to `None` where it does
//! not match; a production that does not match consumes nothing.
//!
//! ```text
//! expression    := primary ( '.' identifier | '::' identifier )*
//! primary       := string | integer | identifier | list | block
//!                | '(' call ')' | '(' expression ')'
//! call          := expression expression+
//!                | expression '`' expression '`' expression*
//! statement     := 'var' identifier '=' expression ';'
//!                | expression '=' expression ';'
//!                | method_lookup ';'
//!                | call ';'
//! list          := '[' expression* ']'
//! block         := '{' ( statement+ | expression? ) '}'
//! ```
//!
//! Each `.name` and each `::name` wraps the expression before it in one
//! lookup node, left to right. A call needs at least one argument; inside
//! parentheses a call is tried first, then a single expression. Guards of
//! the form `r.len() < ts.len()` hold whenever they are reached (every
//! production that matches consumes a token); they keep the recursion
//! well-founded.

use crate::ast::Ast;
use crate::token::TokenV;
use vstd::prelude::*;

verus! {

/// Whether the sequence starts with the given token.
pub open spec fn starts_with(ts: Seq<TokenV>, t: TokenV) -> bool {
    ts.len() > 0 && ts[0] == t
}

/// The `.name` and `::name` lookups that follow an expression.
pub open spec fn lookup_chain_spec(node: Ast, ts: Seq<TokenV>) -> (Ast, Seq<TokenV>)
    decreases ts.len(),
{
    if ts.len() >= 2 && ts[1] is Identifier && (ts[0] == TokenV::Dot || ts[0]
        == TokenV::DoubleColon) {
        let name = ts[1]->Identifier_0;
        let wrapped = if ts[0] == TokenV::Dot {
            Ast::AttributeLookup(Box::new(node), name)
        } else {
            Ast::MethodLookup(Box::new(node), name)
        };
        lookup_chain_spec(wrapped, ts.subrange(2, ts.len() as int))
    } else {
        (node, ts)
    }
}

/// `expression`.
pub open spec fn expression_spec(ts: Seq<TokenV>) -> Option<(Ast, Seq<TokenV>)>
    decreases ts.len(), 1int,
{
    if ts.len() == 0 {
        None
    } else {
        let rest = ts.drop_first();
        let primary: Option<(Ast, Seq<TokenV>)> = match ts[0] {
            TokenV::StringLiteral(s) => Some((Ast::StringLiteral(s), rest)),
            TokenV::IntegerLiteral(n) => Some((Ast::IntegerLiteral(n), rest)),
            TokenV::Identifier(x) => Some((Ast::VariableLookup(x), rest)),
            TokenV::LeftParenthesis => {
                let grouped: Option<(Ast, Seq<TokenV>)> = match expression_spec(rest) {
                    Some((node, r)) => if starts_with(r, TokenV::RightParenthesis) {
                        Some((node, r.drop_first()))
                    } else {
                        None
                    },
                    None => None,
                };
                match call_spec(rest) {
                    Some((node, r)) => if starts_with(r, TokenV::RightParenthesis) {
                        Some((node, r.drop_first()))
                    } else {
                        grouped
                    },
                    None => grouped,
                }
            },
            TokenV::LeftBracket => {
                let (items, r) = expressions_spec(rest);
                if starts_with(r, TokenV::RightBracket) {
                    Some((Ast::List(items), r.drop_first()))
                } else {
                    None
                }
            },
            TokenV::LeftCurly => match block_body_spec(rest) {
                (node, r) => if starts_with(r, TokenV::RightCurly) {
                    Some((node, r.drop_first()))
                } else {
                    None
                },
            },
            _ => None,
        };
        match primary {
            Some((node, r)) => Some(lookup_chain_spec(node, r)),
            None => None,
        }
    }
}

/// `expression*`: as many expressions as parse, in order.
pub open spec fn expressions_spec(ts: Seq<TokenV>) -> (Seq<Ast>, Seq<TokenV>)
    decreases ts.len(), 2int,
{
    match expression_spec(ts) {
        Some((node, r)) => if r.len() < ts.len() {
            let (more, r2) = expressions_spec(r);
            (seq![node] + more, r2)
        } else {
            (Seq::empty(), ts)
        },
        None => (Seq::empty(), ts),
    }
}

/// `call`: a callee and its arguments, or a first argument, the callee
/// between backticks, and the further arguments.
pub open spec fn call_spec(ts: Seq<TokenV>) -> Option<(Ast, Seq<TokenV>)>
    decreases ts.len(), 3int,
{
    match expression_spec(ts) {
        Some((head, r)) => if r.len() > ts.len() {
            None
        } else if starts_with(r, TokenV::Backtick) {
            match expression_spec(r.drop_first()) {
                Some((callee, r2)) => if starts_with(r2, TokenV::Backtick) && r2.len() <= ts.len() {
                    let (more, r3) = expressions_spec(r2.drop_first());
                    if starts_with(r3, TokenV::Backtick) {
                        None
                    } else {
                        Some((Ast::FunctionCall(Box::new(callee), seq![head] + more), r3))
                    }
                } else {
                    None
                },
                None => None,
            }
        } else {
            let (args, r2) = expressions_spec(r);
            if args.len() == 0 || starts_with(r2, TokenV::Backtick) {
                None
            } else {
                Some((Ast::FunctionCall(Box::new(head), args), r2))
            }
        },
        None => None,
    }
}

/// `statement`.
pub open spec fn statement_spec(ts: Seq<TokenV>) -> Option<(Ast, Seq<TokenV>)>
    decreases ts.len(), 4int,
{
    let declaration: Option<(Ast, Seq<TokenV>)> = if ts.len() >= 3 && ts[0] == TokenV::Var
        && ts[1] is Identifier && ts[2] == TokenV::Equals {
        match expression_spec(ts.subrange(3, ts.len() as int)) {
            Some((value, r)) => if starts_with(r, TokenV::Semicolon) {
                Some((Ast::VariableCreation(ts[1]->Identifier_0, Box::new(value)), r.drop_first()))
            } else {
                None
            },
            None => None,
        }
    } else {
        None
    };
    let assignment: Option<(Ast, Seq<TokenV>)> = match expression_spec(ts) {
        Some((place, r)) => if starts_with(r, TokenV::Equals) && r.len() <= ts.len() {
            match expression_spec(r.drop_first()) {
                Some((value, r2)) => if starts_with(r2, TokenV::Semicolon) {
                    Some((Ast::Assignment(Box::new(place), Box::new(value)), r2.drop_first()))
                } else {
                    None
                },
                None => None,
            }
        } else {
            None
        },
        None => None,
    };
    let method: Option<(Ast, Seq<TokenV>)> = match expression_spec(ts) {
        Some((node, r)) => if node is MethodLookup && starts_with(r, TokenV::Semicolon) {
            Some((node, r.drop_first()))
        } else {
            None
        },
        None => None,
    };
    let call: Option<(Ast, Seq<TokenV>)> = match call_spec(ts) {
        Some((node, r)) => if starts_with(r, TokenV::Semicolon) {
            Some((node, r.drop_first()))
        } else {
            None
        },
        None => None,
    };
    if declaration is Some {
        declaration
    } else if assignment is Some {
        assignment
    } else if method is Some {
        method
    } else {
        call
    }
}

/// `statement*`: as many statements as parse, in order.
pub open spec fn statements_spec(ts: Seq<TokenV>) -> (Seq<Ast>, Seq<TokenV>)
    decreases ts.len(), 5int,
{
    match statement_spec(ts) {
        Some((node, r)) => if r.len() < ts.len() {
            let (more, r2) = statements_spec(r);
            (seq![node] + more, r2)
        } else {
            (Seq::empty(), ts)
        },
        None => (Seq::empty(), ts),
    }
}

/// What stands between the braces of a block, up to the closing brace.
pub open spec fn block_body_spec(ts: Seq<TokenV>) -> (Ast, Seq<TokenV>)
    decreases ts.len(), 6int,
{
    let (stmts, r) = statements_spec(ts);
    if stmts.len() > 0 {
        (Ast::StatementBlock(stmts), r)
    } else {
        match expression_spec(ts) {
            Some((node, r2)) => (Ast::ExpressionBlock(Box::new(node)), r2),
            None => (Ast::StatementBlock(Seq::empty()), ts),
        }
    }
}

/// A whole program: statements up to the end of the tokens.
pub open spec fn program_spec(ts: Seq<TokenV>) -> Option<Seq<Ast>> {
    let (stmts, r) = statements_spec(ts);
    if r.len() == 0 {
        Some(stmts)
    } else {
        None
    }
}


/// A `.` that no identifier follows ends the expression before it: a name
/// followed by such a dot parses as the plain name, and the dot and all
/// after it are left, exactly as they were, for what comes next.
pub proof fn lemma_failed_attribute_falls_back(x: Seq<char>, rest: Seq<TokenV>)
    requires
        rest.len() == 0 || !(rest[0] is Identifier),
    ensures
        expression_spec(seq![TokenV::Identifier(x), TokenV::Dot] + rest) == Some(
            (Ast::VariableLookup(x), seq![TokenV::Dot] + rest),
        ),
{
    let ts = seq![TokenV::Identifier(x), TokenV::Dot] + rest;
    assert(ts.drop_first() =~= seq![TokenV::Dot] + rest);
    let after = seq![TokenV::Dot] + rest;
    assert(after.len() < 2 || !(after[1] is Identifier));
    assert(lookup_chain_spec(Ast::VariableLookup(x), after) == (Ast::VariableLookup(x), after));
}


/// A call in parentheses is an expression whose node is the call that the
/// call production parses inside the parentheses.
pub proof fn lemma_parenthesized_call(c: Seq<TokenV>, n: Ast)
    requires
        call_spec(c + seq![TokenV::RightParenthesis]) == Some((n, seq![TokenV::RightParenthesis])),
    ensures
        expression_spec(seq![TokenV::LeftParenthesis] + c + seq![TokenV::RightParenthesis]) == Some(
            (n, Seq::<TokenV>::empty()),
        ),
{
    let ts = seq![TokenV::LeftParenthesis] + c + seq![TokenV::RightParenthesis];
    assert(ts.drop_first() =~= c + seq![TokenV::RightParenthesis]);
    assert(seq![TokenV::RightParenthesis].drop_first() =~= Seq::<TokenV>::empty());
}

/// A call followed by `;` is a statement whose node is exactly that call:
/// no other kind of statement matches first.
pub proof fn lemma_statement_call(ts: Seq<TokenV>, n: Ast, r: Seq<TokenV>)
    requires
        call_spec(ts) == Some((n, seq![TokenV::Semicolon] + r)),
    ensures
        statement_spec(ts) == Some((n, r)),
{
    let (head, r1) = expression_spec(ts)->Some_0;
    if ts.len() > 0 && ts[0] == TokenV::Var {
        assert(expression_spec(ts) is None);
    }
    if !starts_with(r1, TokenV::Backtick) {
        let (args, r2) = expressions_spec(r1);
        assert(args.len() > 0);
        assert(expression_spec(r1) is Some);
        assert(!starts_with(r1, TokenV::Equals));
        assert(!starts_with(r1, TokenV::Semicolon));
    }
    assert((seq![TokenV::Semicolon] + r).drop_first() =~= r);
}

} // verus!
