use crate::ast::{Ast, AstNode, asts_view, lemma_asts_view_len, lemma_asts_view_push};
use crate::cursor::{TokenList, advance, at, is_empty, list_of, peek, remaining, share};
use crate::grammar::{
    block_body_spec, call_spec, expression_spec, expressions_spec, lookup_chain_spec, program_spec,
    statement_spec, statements_spec, starts_with,
};
use crate::token::{Token, TokenV, lex, tokenize};
use vstd::prelude::*;

verus! {

/// Why a text could not be parsed: a plain description.
#[derive(Debug, Clone, PartialEq, Eq)]
pub struct ParsingError(pub String);

impl ParsingError {
    pub fn new(message: &str) -> (r: ParsingError)
        ensures
            r.0@ == message@,
    {
        ParsingError(message.to_owned())
    }
}


/// Wraps `node` in the `.name` and `::name` lookups that follow it.
fn lookup_chain(base: AstNode, start: TokenList) -> (r: (TokenList, AstNode))
    ensures
        lookup_chain_spec(base@, remaining(start)) == (r.1@, remaining(r.0)),
        remaining(r.0).len() <= remaining(start).len(),
{
    let ghost goal = lookup_chain_spec(base@, remaining(start));
    let ghost len0 = remaining(start).len();
    let mut node = base;
    let mut tokens = start;
    loop
        invariant
            goal == lookup_chain_spec(base@, remaining(start)),
            len0 == remaining(start).len(),
            goal == lookup_chain_spec(node@, remaining(tokens)),
            remaining(tokens).len() <= len0,
        decreases remaining(tokens).len(),
    {
        let ghost ts = remaining(tokens);
        let is_dot = at(&tokens, &Token::Dot);
        let is_colons = at(&tokens, &Token::DoubleColon);
        if !is_dot && !is_colons {
            return (tokens, node);
        }
        let mut after = share(&tokens);
        advance(&mut after);
        let name = match peek(&after) {
            Some(Token::Identifier(x)) => x.clone(),
            _ => {
                return (tokens, node);
            },
        };
        advance(&mut after);
        assert(remaining(after) =~= ts.subrange(2, ts.len() as int));
        node = if is_dot {
            AstNode::AttributeLookup { expr: Box::new(node), attr: name }
        } else {
            AstNode::MethodLookup { expr: Box::new(node), meth: name }
        };
        tokens = after;
    }
}


/// What a production returns: the tokens after what it parsed and the node,
/// or the tokens it was given, untouched, and why it did not match.
pub type Parsed = Result<(TokenList, AstNode), (TokenList, ParsingError)>;

/// `r` is what a production whose model is `expected` returns on `input`.
pub open spec fn parsed_as(r: Parsed, input: Seq<TokenV>, expected: Option<(Ast, Seq<TokenV>)>) -> bool {
    match r {
        Ok((rest, node)) => expected == Some((node@, remaining(rest))) && remaining(rest).len()
            < input.len(),
        Err((back, _)) => expected is None && remaining(back) == input,
    }
}

/// Parses one expression.
fn expression(tokens: TokenList) -> (r: Parsed)
    ensures
        parsed_as(r, remaining(tokens), expression_spec(remaining(tokens))),
    decreases remaining(tokens).len(), 1int,
{
    let mut rest = share(&tokens);
    let primary: AstNode = match peek(&tokens) {
        None => {
            return Err((tokens, ParsingError::new("expected an expression, found the end")));
        },
        Some(Token::StringLiteral(s)) => {
            let s = s.clone();
            advance(&mut rest);
            AstNode::StringLiteral(s)
        },
        Some(Token::IntegerLiteral(n)) => {
            let n = *n;
            advance(&mut rest);
            AstNode::IntegerLiteral(n)
        },
        Some(Token::Identifier(x)) => {
            let x = x.clone();
            advance(&mut rest);
            AstNode::VariableLookup(x)
        },
        Some(Token::LeftParenthesis) => {
            advance(&mut rest);
            let call = match function_call(share(&rest)) {
                Ok((mut after, node)) => {
                    if at(&after, &Token::RightParenthesis) {
                        advance(&mut after);
                        Some((after, node))
                    } else {
                        None
                    }
                },
                Err(_) => None,
            };
            match call {
                Some((after, node)) => {
                    rest = after;
                    node
                },
                None => match expression(rest) {
                    Ok((mut after, node)) => {
                        if !at(&after, &Token::RightParenthesis) {
                            return Err((tokens, ParsingError::new("missing right parenthesis")));
                        }
                        advance(&mut after);
                        rest = after;
                        node
                    },
                    Err((_, e)) => {
                        return Err((tokens, e));
                    },
                },
            }
        },
        Some(Token::LeftBracket) => {
            advance(&mut rest);
            let (mut after, items) = expressions(rest, Vec::new());
            if !at(&after, &Token::RightBracket) {
                return Err((tokens, ParsingError::new("missing right bracket")));
            }
            advance(&mut after);
            rest = after;
            AstNode::List(items)
        },
        Some(Token::LeftCurly) => {
            advance(&mut rest);
            let (mut after, node) = block_body(rest);
            if !at(&after, &Token::RightCurly) {
                return Err((tokens, ParsingError::new("missing right curly")));
            }
            advance(&mut after);
            rest = after;
            node
        },
        Some(_) => {
            return Err((tokens, ParsingError::new("unexpected token")));
        },
    };
    let (after, node) = lookup_chain(primary, rest);
    Ok((after, node))
}

/// Parses as many expressions as follow, appending them to `acc`.
fn expressions(start: TokenList, acc: Vec<AstNode>) -> (r: (TokenList, Vec<AstNode>))
    ensures
        asts_view(r.1@) == asts_view(acc@) + expressions_spec(remaining(start)).0,
        remaining(r.0) == expressions_spec(remaining(start)).1,
        remaining(r.0).len() <= remaining(start).len(),
    decreases remaining(start).len(), 2int,
{
    let mut items = acc;
    let mut tokens = start;
    assert(asts_view(items@) + expressions_spec(remaining(tokens)).0 =~= asts_view(acc@)
        + expressions_spec(remaining(start)).0);
    loop
        invariant
            asts_view(items@) + expressions_spec(remaining(tokens)).0 == asts_view(acc@)
                + expressions_spec(remaining(start)).0,
            expressions_spec(remaining(tokens)).1 == expressions_spec(remaining(start)).1,
            remaining(tokens).len() <= remaining(start).len(),
        decreases remaining(tokens).len(),
    {
        match expression(share(&tokens)) {
            Ok((after, node)) => {
                proof {
                    lemma_asts_view_push(items@, node);
                    let more = expressions_spec(remaining(after)).0;
                    assert(asts_view(items@).push(node@) + more =~= asts_view(items@) + (seq![
                        node@,
                    ] + more));
                }
                items.push(node);
                tokens = after;
            },
            Err(_) => {
                assert(asts_view(items@) + Seq::<Ast>::empty() =~= asts_view(items@));
                return (tokens, items);
            },
        }
    }
}

/// Parses a function call: a callee and its arguments, or a first argument,
/// the callee between backticks, and the further arguments.
fn function_call(tokens: TokenList) -> (r: Parsed)
    ensures
        parsed_as(r, remaining(tokens), call_spec(remaining(tokens))),
    decreases remaining(tokens).len(), 3int,
{
    let (after_head, head) = match expression(share(&tokens)) {
        Ok(p) => p,
        Err((_, e)) => {
            return Err((tokens, e));
        },
    };
    if at(&after_head, &Token::Backtick) {
        let mut inner = share(&after_head);
        advance(&mut inner);
        let (mut after_callee, callee) = match expression(inner) {
            Ok(p) => p,
            Err((_, e)) => {
                return Err((tokens, e));
            },
        };
        if !at(&after_callee, &Token::Backtick) {
            return Err((tokens, ParsingError::new("expected a closing backtick")));
        }
        advance(&mut after_callee);
        let mut first_arg: Vec<AstNode> = Vec::new();
        proof {
            lemma_asts_view_push(first_arg@, head);
            assert(first_arg@.push(head) =~= seq![head]);
        }
        first_arg.push(head);
        let (rest, args) = expressions(after_callee, first_arg);
        if at(&rest, &Token::Backtick) {
            return Err((tokens, ParsingError::new("multiple backticks in function call")));
        }
        Ok((rest, AstNode::FunctionCall { func: Box::new(callee), args }))
    } else {
        let (rest, args) = expressions(after_head, Vec::new());
        proof {
            lemma_asts_view_len(args@);
            assert(asts_view(Seq::<AstNode>::empty()) + expressions_spec(remaining(after_head)).0
                =~= expressions_spec(remaining(after_head)).0);
        }
        if args.len() == 0 {
            return Err((tokens, ParsingError::new("a function call needs an argument")));
        }
        if at(&rest, &Token::Backtick) {
            return Err((tokens, ParsingError::new("backtick after the second argument")));
        }
        Ok((rest, AstNode::FunctionCall { func: Box::new(head), args }))
    }
}

/// Parses one statement, with its terminating `;`.
fn statement(tokens: TokenList) -> (r: Parsed)
    ensures
        parsed_as(r, remaining(tokens), statement_spec(remaining(tokens))),
    decreases remaining(tokens).len(), 4int,
{
    let ghost ts = remaining(tokens);
    if at(&tokens, &Token::Var) {
        let mut t = share(&tokens);
        advance(&mut t);
        let ident = match peek(&t) {
            Some(Token::Identifier(x)) => Some(x.clone()),
            _ => None,
        };
        if let Some(ident) = ident {
            advance(&mut t);
            if at(&t, &Token::Equals) {
                advance(&mut t);
                assert(remaining(t) =~= ts.subrange(3, ts.len() as int));
                if let Ok((mut after, value)) = expression(t) {
                    if at(&after, &Token::Semicolon) {
                        advance(&mut after);
                        return Ok((after, AstNode::VariableCreation { ident, value: Box::new(value) }));
                    }
                }
            }
        }
    }
    if let Ok((after_place, place)) = expression(share(&tokens)) {
        if at(&after_place, &Token::Equals) {
            let mut t = share(&after_place);
            advance(&mut t);
            if let Ok((mut after, value)) = expression(t) {
                if at(&after, &Token::Semicolon) {
                    advance(&mut after);
                    return Ok(
                        (after, AstNode::Assignment { expr: Box::new(place), value: Box::new(value) }),
                    );
                }
            }
        }
        if let AstNode::MethodLookup { .. } = place {
            if at(&after_place, &Token::Semicolon) {
                let mut after = after_place;
                advance(&mut after);
                return Ok((after, place));
            }
        }
    }
    match function_call(share(&tokens)) {
        Ok((mut after, node)) => {
            if at(&after, &Token::Semicolon) {
                advance(&mut after);
                Ok((after, node))
            } else {
                Err((tokens, ParsingError::new("expected a semicolon")))
            }
        },
        Err((_, e)) => Err((tokens, e)),
    }
}

/// Parses as many statements as follow.
fn statements(start: TokenList) -> (r: (TokenList, Vec<AstNode>))
    ensures
        asts_view(r.1@) == statements_spec(remaining(start)).0,
        remaining(r.0) == statements_spec(remaining(start)).1,
        remaining(r.0).len() <= remaining(start).len(),
    decreases remaining(start).len(), 5int,
{
    let mut items: Vec<AstNode> = Vec::new();
    let mut tokens = start;
    assert(asts_view(items@) + statements_spec(remaining(tokens)).0 =~= statements_spec(
        remaining(start),
    ).0);
    loop
        invariant
            asts_view(items@) + statements_spec(remaining(tokens)).0 == statements_spec(
                remaining(start),
            ).0,
            statements_spec(remaining(tokens)).1 == statements_spec(remaining(start)).1,
            remaining(tokens).len() <= remaining(start).len(),
        decreases remaining(tokens).len(),
    {
        match statement(share(&tokens)) {
            Ok((after, node)) => {
                proof {
                    lemma_asts_view_push(items@, node);
                    let more = statements_spec(remaining(after)).0;
                    assert(asts_view(items@).push(node@) + more =~= asts_view(items@) + (seq![
                        node@,
                    ] + more));
                }
                items.push(node);
                tokens = after;
            },
            Err(_) => {
                assert(asts_view(items@) + Seq::<Ast>::empty() =~= asts_view(items@));
                return (tokens, items);
            },
        }
    }
}

/// Parses what stands between the braces of a block: one or more
/// statements, or else a single expression, or else nothing.
fn block_body(tokens: TokenList) -> (r: (TokenList, AstNode))
    ensures
        block_body_spec(remaining(tokens)) == (r.1@, remaining(r.0)),
        remaining(r.0).len() <= remaining(tokens).len(),
    decreases remaining(tokens).len(), 6int,
{
    let (after, stmts) = statements(share(&tokens));
    proof {
        lemma_asts_view_len(stmts@);
    }
    if stmts.len() > 0 {
        return (after, AstNode::StatementBlock(stmts));
    }
    match expression(share(&tokens)) {
        Ok((after, node)) => (after, AstNode::ExpressionBlock(Box::new(node))),
        Err(_) => {
            let empty: Vec<AstNode> = Vec::new();
            assert(asts_view(empty@) =~= Seq::<Ast>::empty());
            (tokens, AstNode::StatementBlock(empty))
        },
    }
}

/// Parses a whole program: its statements, up to the end of the text.
/// Fails where the text does not tokenize, or where a statement does not
/// parse before the end; no partial result is given then.
pub fn parse(code: &str) -> (r: Result<Vec<AstNode>, ParsingError>)
    ensures
        match r {
            Ok(nodes) => lex(code@) is Some && program_spec(lex(code@)->Some_0) == Some(
                asts_view(nodes@),
            ),
            Err(_) => lex(code@) is None || program_spec(lex(code@)->Some_0) is None,
        },
{
    let tokens = match tokenize(code) {
        Ok(tokens) => tokens,
        Err(e) => {
            return Err(e);
        },
    };
    let start = list_of(tokens);
    let mut items: Vec<AstNode> = Vec::new();
    let mut rest = share(&start);
    assert(asts_view(items@) + statements_spec(remaining(rest)).0 =~= statements_spec(
        remaining(start),
    ).0);
    loop
        invariant
            asts_view(items@) + statements_spec(remaining(rest)).0 == statements_spec(
                remaining(start),
            ).0,
            statements_spec(remaining(rest)).1 == statements_spec(remaining(start)).1,
            lex(code@) == Some(remaining(start)),
        decreases remaining(rest).len(),
    {
        match statement(rest) {
            Ok((after, node)) => {
                proof {
                    lemma_asts_view_push(items@, node);
                    let more = statements_spec(remaining(after)).0;
                    assert(asts_view(items@).push(node@) + more =~= asts_view(items@) + (seq![
                        node@,
                    ] + more));
                }
                items.push(node);
                rest = after;
            },
            Err((back, e)) => {
                assert(asts_view(items@) + Seq::<Ast>::empty() =~= asts_view(items@));
                if is_empty(&back) {
                    return Ok(items);
                } else {
                    return Err(e);
                }
            },
        }
    }
}

} // verus!
