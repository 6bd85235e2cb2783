use peeking_take_while::PeekableExt;
use crate::parser::ParsingError;
use vstd::prelude::*;
use vstd::string::StrSliceExecFns;

verus! {

/// A lexical unit of the language.
#[derive(Debug, Clone, PartialEq, Eq)]
pub enum Token {
    StringLiteral(String),
    Identifier(String),
    IntegerLiteral(i64),
    LeftCurly,
    RightCurly,
    LeftBracket,
    RightBracket,
    LeftParenthesis,
    RightParenthesis,
    Equals,
    Semicolon,
    Dot,
    Backtick,
    DoubleColon,
    Var,
}

/// The mathematical model of a token: texts become character sequences.
pub enum TokenV {
    StringLiteral(Seq<char>),
    Identifier(Seq<char>),
    IntegerLiteral(i64),
    LeftCurly,
    RightCurly,
    LeftBracket,
    RightBracket,
    LeftParenthesis,
    RightParenthesis,
    Equals,
    Semicolon,
    Dot,
    Backtick,
    DoubleColon,
    Var,
}

impl View for Token {
    type V = TokenV;

    open spec fn view(&self) -> TokenV {
        match self {
            Token::StringLiteral(s) => TokenV::StringLiteral(s@),
            Token::Identifier(s) => TokenV::Identifier(s@),
            Token::IntegerLiteral(n) => TokenV::IntegerLiteral(*n),
            Token::LeftCurly => TokenV::LeftCurly,
            Token::RightCurly => TokenV::RightCurly,
            Token::LeftBracket => TokenV::LeftBracket,
            Token::RightBracket => TokenV::RightBracket,
            Token::LeftParenthesis => TokenV::LeftParenthesis,
            Token::RightParenthesis => TokenV::RightParenthesis,
            Token::Equals => TokenV::Equals,
            Token::Semicolon => TokenV::Semicolon,
            Token::Dot => TokenV::Dot,
            Token::Backtick => TokenV::Backtick,
            Token::DoubleColon => TokenV::DoubleColon,
            Token::Var => TokenV::Var,
        }
    }
}

/// The models of a sequence of tokens.
pub open spec fn tokens_view(ts: Seq<Token>) -> Seq<TokenV> {
    ts.map_values(|t: Token| t@)
}

/// A class of characters that a run of characters may be made of.
#[derive(Clone, Copy)]
pub enum CharClass {
    /// Letters, digits and `_`: what follows the first letter of an identifier.
    IdentTail,
    /// Decimal digits.
    Digit,
    /// Anything but `"`: the contents of a string literal.
    NotQuote,
}

pub open spec fn is_letter(c: char) -> bool {
    ('a' <= c && c <= 'z') || ('A' <= c && c <= 'Z')
}

pub open spec fn is_digit(c: char) -> bool {
    '0' <= c && c <= '9'
}

/// Unicode's White_Space property.
pub open spec fn is_white_space(c: char) -> bool {
    ('\u{9}' <= c && c <= '\u{d}') || c == ' ' || c == '\u{85}' || c == '\u{a0}'
        || c == '\u{1680}' || ('\u{2000}' <= c && c <= '\u{200a}') || c == '\u{2028}'
        || c == '\u{2029}' || c == '\u{202f}' || c == '\u{205f}' || c == '\u{3000}'
}

pub open spec fn class_admits(class: CharClass, c: char) -> bool {
    match class {
        CharClass::IdentTail => is_letter(c) || is_digit(c) || c == '_',
        CharClass::Digit => is_digit(c),
        CharClass::NotQuote => c != '"',
    }
}

impl CharClass {
    pub fn admits(self, c: char) -> (r: bool)
        ensures
            r == class_admits(self, c),
    {
        match self {
            CharClass::IdentTail => is_letter_exec(c) || is_digit_exec(c) || c == '_',
            CharClass::Digit => is_digit_exec(c),
            CharClass::NotQuote => c != '"',
        }
    }
}

fn is_letter_exec(c: char) -> (r: bool)
    ensures
        r == is_letter(c),
{
    ('a' <= c && c <= 'z') || ('A' <= c && c <= 'Z')
}

fn is_digit_exec(c: char) -> (r: bool)
    ensures
        r == is_digit(c),
{
    '0' <= c && c <= '9'
}

fn is_white_space_exec(c: char) -> (r: bool)
    ensures
        r == is_white_space(c),
{
    ('\u{9}' <= c && c <= '\u{d}') || c == ' ' || c == '\u{85}' || c == '\u{a0}'
        || c == '\u{1680}' || ('\u{2000}' <= c && c <= '\u{200a}') || c == '\u{2028}'
        || c == '\u{2029}' || c == '\u{202f}' || c == '\u{205f}' || c == '\u{3000}'
}

/// The end of the longest run of characters of `class` that starts at `i`.
pub open spec fn run_end(s: Seq<char>, i: int, class: CharClass) -> int
    decreases s.len() - i,
{
    if 0 <= i < s.len() && class_admits(class, s[i]) {
        run_end(s, i + 1, class)
    } else {
        i
    }
}

/// The position just after the first newline at or after `i`, or the end.
pub open spec fn line_end(s: Seq<char>, i: int) -> int
    decreases s.len() - i,
{
    if i < 0 || i >= s.len() {
        s.len() as int
    } else if s[i] == '\n' {
        i + 1
    } else {
        line_end(s, i + 1)
    }
}

/// The value of a sequence of decimal digits.
pub open spec fn digits_value(d: Seq<char>) -> int
    decreases d.len(),
{
    if d.len() == 0 {
        0
    } else {
        digits_value(d.drop_last()) * 10 + (d.last() as int - '0' as int)
    }
}

/// What the tokenizer does at one position.
pub enum Lexeme {
    /// Nothing is produced; tokenizing goes on at the given position.
    Skip(int),
    /// A token is produced; tokenizing goes on at the given position.
    Emit(TokenV, int),
    /// Tokenizing fails.
    Fail,
}

/// The integer literal whose digits start at `start`, negated when `negative`.
pub open spec fn number_at(s: Seq<char>, start: int, negative: bool) -> Lexeme {
    let end = run_end(s, start, CharClass::Digit);
    let d = s.subrange(start, end);
    let v = if negative { -digits_value(d) } else { digits_value(d) };
    if d.len() > 1 && d[0] == '0' {
        Lexeme::Fail
    } else if i64::MIN <= v <= i64::MAX {
        Lexeme::Emit(TokenV::IntegerLiteral(v as i64), end)
    } else {
        Lexeme::Fail
    }
}

pub open spec fn punctuation(c: char) -> Option<TokenV> {
    if c == '{' {
        Some(TokenV::LeftCurly)
    } else if c == '}' {
        Some(TokenV::RightCurly)
    } else if c == '[' {
        Some(TokenV::LeftBracket)
    } else if c == ']' {
        Some(TokenV::RightBracket)
    } else if c == '(' {
        Some(TokenV::LeftParenthesis)
    } else if c == ')' {
        Some(TokenV::RightParenthesis)
    } else if c == '=' {
        Some(TokenV::Equals)
    } else if c == ';' {
        Some(TokenV::Semicolon)
    } else if c == '.' {
        Some(TokenV::Dot)
    } else if c == '`' {
        Some(TokenV::Backtick)
    } else {
        None
    }
}

pub open spec fn keyword_or_identifier(w: Seq<char>) -> TokenV {
    if w == seq!['v', 'a', 'r'] {
        TokenV::Var
    } else {
        TokenV::Identifier(w)
    }
}

/// The step of the tokenizer at position `i` of `s`.
pub open spec fn lex_step(s: Seq<char>, i: int) -> Lexeme
    recommends
        0 <= i < s.len(),
{
    let c = s[i];
    if c == '#' {
        Lexeme::Skip(line_end(s, i + 1))
    } else if c == '"' {
        let e = run_end(s, i + 1, CharClass::NotQuote);
        Lexeme::Emit(TokenV::StringLiteral(s.subrange(i + 1, e)), if e < s.len() { e + 1 } else { e })
    } else if is_letter(c) {
        let e = run_end(s, i + 1, CharClass::IdentTail);
        Lexeme::Emit(keyword_or_identifier(s.subrange(i, e)), e)
    } else if c == '-' {
        if i + 1 < s.len() && is_digit(s[i + 1]) {
            number_at(s, i + 1, true)
        } else {
            Lexeme::Fail
        }
    } else if is_digit(c) {
        number_at(s, i, false)
    } else if is_white_space(c) {
        Lexeme::Skip(i + 1)
    } else if c == ':' {
        if i + 1 < s.len() && s[i + 1] == ':' {
            Lexeme::Emit(TokenV::DoubleColon, i + 2)
        } else {
            Lexeme::Fail
        }
    } else {
        match punctuation(c) {
            Some(t) => Lexeme::Emit(t, i + 1),
            None => Lexeme::Fail,
        }
    }
}

/// The tokens of `s` from position `i` on, or `None` where tokenizing fails.
pub open spec fn lex_from(s: Seq<char>, i: int) -> Option<Seq<TokenV>>
    decreases s.len() - i,
{
    if i < 0 || i >= s.len() {
        Some(Seq::empty())
    } else {
        match lex_step(s, i) {
            Lexeme::Skip(j) => if i < j <= s.len() {
                lex_from(s, j)
            } else {
                None
            },
            Lexeme::Emit(t, j) => if i < j <= s.len() {
                match lex_from(s, j) {
                    Some(rest) => Some(seq![t] + rest),
                    None => None,
                }
            } else {
                None
            },
            Lexeme::Fail => None,
        }
    }
}

/// The tokens of a source text, or `None` where tokenizing fails.
pub open spec fn lex(s: Seq<char>) -> Option<Seq<TokenV>> {
    lex_from(s, 0)
}


pub proof fn lemma_run_end(s: Seq<char>, i: int, class: CharClass)
    requires
        0 <= i <= s.len(),
    ensures
        i <= run_end(s, i, class) <= s.len(),
        forall|k: int| i <= k < run_end(s, i, class) ==> class_admits(class, #[trigger] s[k]),
        run_end(s, i, class) < s.len() ==> !class_admits(class, s[run_end(s, i, class)]),
    decreases s.len() - i,
{
    if i < s.len() && class_admits(class, s[i]) {
        lemma_run_end(s, i + 1, class);
    }
}

proof fn lemma_line_end(s: Seq<char>, i: int)
    requires
        0 <= i <= s.len(),
    ensures
        i <= line_end(s, i) <= s.len(),
    decreases s.len() - i,
{
    if i < s.len() && s[i] != '\n' {
        lemma_line_end(s, i + 1);
    }
}

proof fn lemma_digits_nonneg(d: Seq<char>)
    requires
        forall|k: int| 0 <= k < d.len() ==> is_digit(#[trigger] d[k]),
    ensures
        digits_value(d) >= 0,
    decreases d.len(),
{
    if d.len() > 0 {
        lemma_digits_nonneg(d.drop_last());
    }
}

proof fn lemma_digits_prefix(d: Seq<char>, m: int)
    requires
        0 <= m <= d.len(),
        forall|k: int| 0 <= k < d.len() ==> is_digit(#[trigger] d[k]),
    ensures
        digits_value(d.subrange(0, m)) <= digits_value(d),
    decreases d.len(),
{
    if m == d.len() {
        assert(d.subrange(0, m) =~= d);
    } else {
        lemma_digits_nonneg(d.drop_last());
        lemma_digits_prefix(d.drop_last(), m);
        assert(d.drop_last().subrange(0, m) =~= d.subrange(0, m));
    }
}

/// Relies on `str::chars`: the characters of the text, in order.
#[verifier::external_body]
fn chars_of(code: &str) -> (r: Vec<char>)
    ensures
        r@ == code@,
{
    code.chars().collect()
}

/// Relies on `PeekableExt::peeking_take_while`: it yields the items from the
/// start while the predicate holds, and leaves the first one that fails it.
#[verifier::external_body]
fn take_run(chars: &Vec<char>, start: usize, class: CharClass) -> (r: String)
    requires
        start <= chars@.len(),
    ensures
        r@ == chars@.subrange(start as int, run_end(chars@, start as int, class)),
{
    let mut it = chars[start..].iter().copied().peekable();
    it.peeking_take_while(|c| class.admits(*c)).collect()
}

/// The end of the run of `class` that starts at `start`, with the run itself.
fn run_from(chars: &Vec<char>, start: usize, class: CharClass) -> (r: (String, usize))
    requires
        start <= chars@.len(),
    ensures
        r.1 as int == run_end(chars@, start as int, class),
        r.0@ == chars@.subrange(start as int, r.1 as int),
{
    let run = take_run(chars, start, class);
    proof {
        lemma_run_end(chars@, start as int, class);
    }
    let len = chars.len();
    let n = run.as_str().unicode_len();
    (run, start + n)
}

/// The position after the end of the comment's line.
fn skip_line(chars: &Vec<char>, start: usize) -> (r: usize)
    requires
        start <= chars@.len(),
    ensures
        r as int == line_end(chars@, start as int),
{
    let mut i = start;
    while i < chars.len()
        invariant
            start <= i <= chars@.len(),
            line_end(chars@, start as int) == line_end(chars@, i as int),
        decreases chars@.len() - i,
    {
        if chars[i] == '\n' {
            return i + 1;
        }
        i = i + 1;
    }
    i
}

/// The integer literal whose digits start at `start`, and its end.
fn number_literal(chars: &Vec<char>, start: usize, negative: bool) -> (r: (Option<i64>, usize))
    requires
        start < chars@.len(),
    ensures
        r.1 as int == run_end(chars@, start as int, CharClass::Digit),
        r.0 == match number_at(chars@, start as int, negative) {
            Lexeme::Emit(TokenV::IntegerLiteral(v), _) => Some(v),
            _ => None::<i64>,
        },
{
    let ghost s = chars@;
    let end = run_from(chars, start, CharClass::Digit).1;
    proof {
        lemma_run_end(s, start as int, CharClass::Digit);
    }
    let ghost d = s.subrange(start as int, end as int);
    if end - start > 1 && chars[start] == '0' {
        return (None, end);
    }
    let mut mag: u64 = 0;
    let mut k = start;
    while k < end
        invariant
            start <= k <= end <= s.len(),
            s == chars@,
            d == s.subrange(start as int, end as int),
            forall|j: int| 0 <= j < d.len() ==> is_digit(#[trigger] d[j]),
            mag as int == digits_value(d.subrange(0, k - start)),
            mag <= 10_000_000_000_000_000_009u64,
            end as int == run_end(s, start as int, CharClass::Digit),
        decreases end - k,
    {
        let c = chars[k];
        assert(d[k - start] == c);
        assert(d.subrange(0, k - start + 1).drop_last() =~= d.subrange(0, k - start));
        if mag > 1_000_000_000_000_000_000u64 {
            proof {
                lemma_digits_prefix(d, k - start + 1);
            }
            return (None, end);
        }
        mag = mag * 10 + ((c as u32 - '0' as u32) as u64);
        k = k + 1;
    }
    assert(d.subrange(0, end - start) =~= d);
    if negative {
        if mag == 9_223_372_036_854_775_808u64 {
            (Some(i64::MIN), end)
        } else if mag < 9_223_372_036_854_775_808u64 {
            (Some(-(mag as i64)), end)
        } else {
            (None, end)
        }
    } else if mag <= 9_223_372_036_854_775_807u64 {
        (Some(mag as i64), end)
    } else {
        (None, end)
    }
}


/// Puts `prefix` before the tokens of a successful result.
pub open spec fn prepend(prefix: Seq<TokenV>, rest: Option<Seq<TokenV>>) -> Option<Seq<TokenV>> {
    match rest {
        Some(r) => Some(prefix + r),
        None => None,
    }
}

fn punctuation_token(c: char) -> (r: Option<Token>)
    ensures
        match r {
            Some(t) => punctuation(c) == Some(t@),
            None => punctuation(c) is None,
        },
{
    if c == '{' {
        Some(Token::LeftCurly)
    } else if c == '}' {
        Some(Token::RightCurly)
    } else if c == '[' {
        Some(Token::LeftBracket)
    } else if c == ']' {
        Some(Token::RightBracket)
    } else if c == '(' {
        Some(Token::LeftParenthesis)
    } else if c == ')' {
        Some(Token::RightParenthesis)
    } else if c == '=' {
        Some(Token::Equals)
    } else if c == ';' {
        Some(Token::Semicolon)
    } else if c == '.' {
        Some(Token::Dot)
    } else if c == '`' {
        Some(Token::Backtick)
    } else {
        None
    }
}

fn word_token(w: String) -> (r: Token)
    ensures
        r@ == keyword_or_identifier(w@),
{
    let keyword = "var".to_owned();
    proof {
        reveal_strlit("var");
        assert(keyword@ =~= seq!['v', 'a', 'r']);
    }
    if w == keyword {
        Token::Var
    } else {
        Token::Identifier(w)
    }
}

fn tokenizing_error() -> ParsingError {
    ParsingError::new("tokenizing error")
}

/// Splits source text into tokens. Comments (`#` to the end of the line) and
/// white space produce none; a `-` right before a digit negates the integer
/// literal that follows. Fails on an unknown character, a lone `:` or `-`, a
/// multi-digit literal with a leading zero, or a literal out of the `i64` range.
pub fn tokenize(code: &str) -> (r: Result<Vec<Token>, ParsingError>)
    ensures
        match r {
            Ok(ts) => lex(code@) == Some(tokens_view(ts@)),
            Err(_) => lex(code@) is None,
        },
{
    let chars = chars_of(code);
    let ghost s = chars@;
    let n = chars.len();
    let mut out: Vec<Token> = Vec::new();
    let mut i: usize = 0;
    assert(tokens_view(out@) + Seq::<TokenV>::empty() =~= Seq::<TokenV>::empty());
    assert(prepend(tokens_view(out@), lex_from(s, 0)) == lex_from(s, 0)) by {
        match lex_from(s, 0) {
            Some(r) => assert(tokens_view(out@) + r =~= r),
            None => {},
        }
    }
    while i < n
        invariant
            s == chars@,
            s == code@,
            n == s.len(),
            0 <= i <= n,
            lex(s) == prepend(tokens_view(out@), lex_from(s, i as int)),
        decreases n - i,
    {
        let c = chars[i];
        let ghost before = tokens_view(out@);
        let mut emitted: Option<Token> = None;
        let next: usize;
        if c == '#' {
            proof {
                lemma_line_end(s, i + 1);
            }
            next = skip_line(&chars, i + 1);
        } else if c == '"' {
            let (contents, e) = run_from(&chars, i + 1, CharClass::NotQuote);
            proof {
                lemma_run_end(s, i + 1, CharClass::NotQuote);
            }
            emitted = Some(Token::StringLiteral(contents));
            next = if e < n { e + 1 } else { e };
        } else if is_letter_exec(c) {
            let (w, e) = run_from(&chars, i, CharClass::IdentTail);
            proof {
                lemma_run_end(s, i + 1, CharClass::IdentTail);
            }
            emitted = Some(word_token(w));
            next = e;
        } else if c == '-' {
            if i + 1 < n && is_digit_exec(chars[i + 1]) {
                let (v, e) = number_literal(&chars, i + 1, true);
                proof {
                    lemma_run_end(s, i + 1, CharClass::Digit);
                }
                match v {
                    Some(v) => {
                        emitted = Some(Token::IntegerLiteral(v));
                    },
                    None => {
                        return Err(tokenizing_error());
                    },
                }
                next = e;
            } else {
                return Err(tokenizing_error());
            }
        } else if is_digit_exec(c) {
            let (v, e) = number_literal(&chars, i, false);
            proof {
                lemma_run_end(s, i as int, CharClass::Digit);
            }
            match v {
                Some(v) => {
                    emitted = Some(Token::IntegerLiteral(v));
                },
                None => {
                    return Err(tokenizing_error());
                },
            }
            next = e;
        } else if is_white_space_exec(c) {
            next = i + 1;
        } else if c == ':' {
            if i + 1 < n && chars[i + 1] == ':' {
                emitted = Some(Token::DoubleColon);
                next = i + 2;
            } else {
                return Err(tokenizing_error());
            }
        } else {
            match punctuation_token(c) {
                Some(t) => {
                    emitted = Some(t);
                    next = i + 1;
                },
                None => {
                    return Err(tokenizing_error());
                },
            }
        }
        match emitted {
            Some(t) => {
                assert(lex_step(s, i as int) == Lexeme::Emit(t@, next as int));
                out.push(t);
                proof {
                    assert(tokens_view(out@) =~= before.push(t@));
                    match lex_from(s, next as int) {
                        Some(r) => assert(before + (seq![t@] + r) =~= before.push(t@) + r),
                        None => {},
                    }
                }
            },
            None => {
                assert(lex_step(s, i as int) == Lexeme::Skip(next as int));
            },
        }
        i = next;
    }
    proof {
        assert(tokens_view(out@) + Seq::<TokenV>::empty() =~= tokens_view(out@));
    }
    Ok(out)
}

} // verus!
