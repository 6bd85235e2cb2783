use crate::grammar::starts_with;
use crate::token::{Token, TokenV, tokens_view};
use rpds::List;
use vstd::prelude::*;

verus! {

/// A position in a token sequence: the tokens that remain, held in an
/// `rpds::List`, a persistent list, so that a copy is cheap and never
/// disturbs another one. Its contents are `list_items`.
#[verifier::external_body]
pub struct TokenList {
    list: List<Token>,
}

/// The tokens that a persistent list holds, first to last.
pub uninterp spec fn list_items(l: TokenList) -> Seq<Token>;

/// The models of the tokens that a list holds.
pub open spec fn remaining(l: TokenList) -> Seq<TokenV> {
    tokens_view(list_items(l))
}

/// Relies on `rpds::List`'s `FromIterator`: the list holds the items in the
/// order in which the iterator yields them.
#[verifier::external_body]
pub(crate) fn list_of(v: Vec<Token>) -> (r: TokenList)
    ensures
        list_items(r) == v@,
{
    TokenList { list: v.into_iter().collect() }
}

/// Relies on `rpds::List::first`: the first item, if any.
#[verifier::external_body]
pub(crate) fn first(l: &TokenList) -> (r: Option<&Token>)
    ensures
        match r {
            Some(t) => list_items(*l).len() > 0 && *t == list_items(*l)[0],
            None => list_items(*l).len() == 0,
        },
{
    l.list.first()
}

/// Relies on `rpds::List::drop_first_mut`: removes the first item, and tells
/// whether there was one.
#[verifier::external_body]
pub(crate) fn drop_first(l: &mut TokenList) -> (r: bool)
    ensures
        r == (list_items(*old(l)).len() > 0),
        list_items(*final(l)) == if r {
            list_items(*old(l)).drop_first()
        } else {
            list_items(*old(l))
        },
{
    l.list.drop_first_mut()
}

/// Relies on `Clone` for `rpds::List`: the copy shares the same items.
#[verifier::external_body]
pub(crate) fn share(l: &TokenList) -> (r: TokenList)
    ensures
        list_items(r) == list_items(*l),
{
    TokenList { list: l.list.clone() }
}

/// Relies on `rpds::List::is_empty`: whether the list holds no item.
#[verifier::external_body]
pub(crate) fn is_empty(l: &TokenList) -> (r: bool)
    ensures
        r == (list_items(*l).len() == 0),
{
    l.list.is_empty()
}


/// Whether two tokens are the same token.
pub fn same_token(a: &Token, b: &Token) -> (r: bool)
    ensures
        r == (a@ == b@),
{
    match (a, b) {
        (Token::StringLiteral(x), Token::StringLiteral(y)) => x.eq(y),
        (Token::Identifier(x), Token::Identifier(y)) => x.eq(y),
        (Token::IntegerLiteral(x), Token::IntegerLiteral(y)) => *x == *y,
        (Token::LeftCurly, Token::LeftCurly) => true,
        (Token::RightCurly, Token::RightCurly) => true,
        (Token::LeftBracket, Token::LeftBracket) => true,
        (Token::RightBracket, Token::RightBracket) => true,
        (Token::LeftParenthesis, Token::LeftParenthesis) => true,
        (Token::RightParenthesis, Token::RightParenthesis) => true,
        (Token::Equals, Token::Equals) => true,
        (Token::Semicolon, Token::Semicolon) => true,
        (Token::Dot, Token::Dot) => true,
        (Token::Backtick, Token::Backtick) => true,
        (Token::DoubleColon, Token::DoubleColon) => true,
        (Token::Var, Token::Var) => true,
        _ => false,
    }
}

/// The next token, if any.
pub(crate) fn peek(l: &TokenList) -> (r: Option<&Token>)
    ensures
        match r {
            Some(t) => remaining(*l).len() > 0 && t@ == remaining(*l)[0],
            None => remaining(*l).len() == 0,
        },
{
    first(l)
}

/// Moves past the next token.
pub(crate) fn advance(l: &mut TokenList)
    requires
        remaining(*old(l)).len() > 0,
    ensures
        remaining(*final(l)) == remaining(*old(l)).drop_first(),
{
    let ghost before = list_items(*l);
    drop_first(l);
    assert(tokens_view(before.drop_first()) =~= tokens_view(before).drop_first());
}

/// Whether the next token is `want`.
pub(crate) fn at(l: &TokenList, want: &Token) -> (r: bool)
    ensures
        r == starts_with(remaining(*l), want@),
{
    match peek(l) {
        Some(t) => same_token(t, want),
        None => false,
    }
}

} // verus!
