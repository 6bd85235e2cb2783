use std::rc::Rc;
use tree_lang::ast::AstNode;
use tree_lang::chain_map::ChainMap;
use tree_lang::environment::Environment;
use tree_lang::eval::EvalError;
use tree_lang::parser::parse;
use tree_lang::scope::Scope;
use tree_lang::token::{tokenize, Token};
use tree_lang::value::{Builtin, Value};

fn s(text: &str) -> String {
    text.to_string()
}

fn var(name: &str) -> AstNode {
    AstNode::VariableLookup(s(name))
}

fn num(n: i64) -> AstNode {
    AstNode::IntegerLiteral(n)
}

fn call(func: AstNode, args: Vec<AstNode>) -> AstNode {
    AstNode::FunctionCall { func: Box::new(func), args }
}

fn run(scope: &mut Scope, code: &str) -> Result<Vec<Rc<Value>>, EvalError> {
    let mut results = Vec::new();
    for node in parse(code).unwrap() {
        results.push(scope.eval(node)?);
    }
    Ok(results)
}

#[test]
fn string_literal_token_has_no_escapes() {
    assert_eq!(tokenize("\"abc\""), Ok(vec![Token::StringLiteral(s("abc"))]));
    assert_eq!(tokenize("\"a\\n\""), Ok(vec![Token::StringLiteral(s("a\\n"))]));
}

#[test]
fn minus_before_digits_negates() {
    assert_eq!(tokenize("-5"), Ok(vec![Token::IntegerLiteral(-5)]));
    assert_eq!(tokenize("5 -3"), Ok(vec![Token::IntegerLiteral(5), Token::IntegerLiteral(-3)]));
}

#[test]
fn leading_zero_fails() {
    assert!(tokenize("01").is_err());
    assert_eq!(tokenize("0"), Ok(vec![Token::IntegerLiteral(0)]));
}

#[test]
fn integer_range_limits() {
    assert_eq!(
        tokenize("-9223372036854775808 9223372036854775807"),
        Ok(vec![Token::IntegerLiteral(i64::MIN), Token::IntegerLiteral(i64::MAX)])
    );
    assert!(tokenize("9223372036854775808").is_err());
    assert!(tokenize("99999999999999999999999").is_err());
}

#[test]
fn punctuation_keywords_and_comments() {
    assert_eq!(
        tokenize("var x_1 = {a}; # note\n[ ] ( ) . ` :: vars"),
        Ok(vec![
            Token::Var,
            Token::Identifier(s("x_1")),
            Token::Equals,
            Token::LeftCurly,
            Token::Identifier(s("a")),
            Token::RightCurly,
            Token::Semicolon,
            Token::LeftBracket,
            Token::RightBracket,
            Token::LeftParenthesis,
            Token::RightParenthesis,
            Token::Dot,
            Token::Backtick,
            Token::DoubleColon,
            Token::Identifier(s("vars")),
        ])
    );
}

#[test]
fn tokenizing_failures() {
    assert!(tokenize("a : b").is_err());
    assert!(tokenize("- 5").is_err());
    assert!(tokenize("a + b").is_err());
    assert_eq!(tokenize(""), Ok(vec![]));
    assert_eq!(tokenize("  # only a comment"), Ok(vec![]));
}

#[test]
fn declaration_then_lookup() {
    let mut scope = Scope::new();
    run(&mut scope, "var x = 5;").unwrap();
    let v = scope.eval(var("x")).unwrap();
    assert_eq!(*v, Value::Integer(5));
}

#[test]
fn redeclaration_fails() {
    let mut scope = Scope::new();
    assert_eq!(run(&mut scope, "var x = 1; var x = 2;"), Err(EvalError::AlreadyDefined));
    let v = scope.eval(var("x")).unwrap();
    assert_eq!(*v, Value::Integer(1));
}

#[test]
fn print_runs_arguments_together() {
    let mut scope = Scope::new();
    let results = run(&mut scope, "print \"a\" \"b\";").unwrap();
    assert_eq!(*results[0], Value::Unit);
    assert_eq!(scope.take_output(), vec![s("ab")]);
    assert_eq!(scope.take_output(), Vec::<String>::new());
}

#[test]
fn print_display_forms() {
    let mut scope = Scope::new();
    run(&mut scope, "var l = [1 \"a\" [-2 \"q\\\"] ]; print l 7 \"x\"; print [];").unwrap();
    assert_eq!(scope.take_output(), vec![s("[1 \"a\" [-2 \"q\\\\\"]]7x"), s("[]")]);
}

#[test]
fn blocks_parse_by_content() {
    assert_eq!(
        parse("f {};").unwrap(),
        vec![call(var("f"), vec![AstNode::StatementBlock(vec![])])]
    );
    assert_eq!(
        parse("f { 5 };").unwrap(),
        vec![call(var("f"), vec![AstNode::ExpressionBlock(Box::new(num(5)))])]
    );
    assert_eq!(
        parse("f { var x = 1; };").unwrap(),
        vec![call(
            var("f"),
            vec![AstNode::StatementBlock(vec![AstNode::VariableCreation {
                ident: s("x"),
                value: Box::new(num(1)),
            }])]
        )]
    );
    assert!(parse("f { var x = 1; 5 };").is_err());
}

#[test]
fn parenthesized_call_matches_statement_call() {
    let statement = parse("print 1 2;").unwrap();
    let wrapped = parse("f ( print 1 2 );").unwrap();
    assert_eq!(statement, vec![call(var("print"), vec![num(1), num(2)])]);
    match &wrapped[0] {
        AstNode::FunctionCall { args, .. } => assert_eq!(args[0], statement[0]),
        other => panic!("not a call: {:?}", other),
    }
    assert!(parse("f ( print 1 2 ;").is_err());
}

#[test]
fn failed_lookup_segment_backtracks() {
    assert_eq!(
        parse("f a.b 5;").unwrap(),
        vec![call(
            var("f"),
            vec![AstNode::AttributeLookup { expr: Box::new(var("a")), attr: s("b") }, num(5)]
        )]
    );
    assert_eq!(
        parse("[a . 5];"),
        parse("[a . 5];")
    );
    assert!(parse("f a . 5;").is_err());
    assert_eq!(
        parse("f [a] x::m;").unwrap(),
        vec![call(
            var("f"),
            vec![
                AstNode::List(vec![var("a")]),
                AstNode::MethodLookup { expr: Box::new(var("x")), meth: s("m") },
            ]
        )]
    );
}

#[test]
fn lookup_chains_nest_left_to_right() {
    assert_eq!(
        parse("a.b::c;").unwrap(),
        vec![AstNode::MethodLookup {
            expr: Box::new(AstNode::AttributeLookup { expr: Box::new(var("a")), attr: s("b") }),
            meth: s("c"),
        }]
    );
}

#[test]
fn zero_argument_call_is_rejected() {
    assert!(parse("f;").is_err());
    assert!(parse("( f );").is_err());
    assert_eq!(parse("f ( g );").unwrap(), vec![call(var("f"), vec![var("g")])]);
}

#[test]
fn backtick_infix_call() {
    assert_eq!(
        parse("1 `add` 2 3;").unwrap(),
        vec![call(var("add"), vec![num(1), num(2), num(3)])]
    );
    assert_eq!(parse("1 `add`;").unwrap(), vec![call(var("add"), vec![num(1)])]);
    assert!(parse("1 `f` 2 `g` 3;").is_err());
    assert!(parse("`f` 1;").is_err());
    assert!(parse("1 `f 2;").is_err());
    assert!(parse("1 2 `f` 3;").is_err());
}

#[test]
fn statements_and_assignment() {
    assert_eq!(
        parse("var x = 1; x = [2];").unwrap(),
        vec![
            AstNode::VariableCreation { ident: s("x"), value: Box::new(num(1)) },
            AstNode::Assignment {
                expr: Box::new(var("x")),
                value: Box::new(AstNode::List(vec![num(2)])),
            },
        ]
    );
    assert!(parse("var x = 1").is_err());
    assert_eq!(parse("").unwrap(), vec![]);
    assert!(parse("5 = ;").is_err());
}

#[test]
fn assignment_rebinds() {
    let mut scope = Scope::new();
    run(&mut scope, "var x = 1; x = \"two\";").unwrap();
    assert_eq!(*scope.eval(var("x")).unwrap(), Value::String(s("two")));
}

#[test]
fn evaluation_errors() {
    let mut scope = Scope::new();
    assert_eq!(run(&mut scope, "print y;"), Err(EvalError::UndefinedVariable));
    assert_eq!(run(&mut scope, "var n = 3; n 1;"), Err(EvalError::NotAFunction));
    assert_eq!(run(&mut scope, "print {};"), Err(EvalError::NotDisplayable));
    assert_eq!(run(&mut scope, "print a.b;"), Err(EvalError::UndefinedVariable));
    assert_eq!(scope.eval(AstNode::Comment(s("c"))), Err(EvalError::CommentReached));
    let target = AstNode::Assignment { expr: Box::new(num(1)), value: Box::new(num(2)) };
    assert_eq!(scope.eval(target), Err(EvalError::UnsupportedTarget));
    let lookup = AstNode::AttributeLookup { expr: Box::new(num(1)), attr: s("b") };
    assert_eq!(scope.eval(lookup), Err(EvalError::UnsupportedLookup));
}

#[test]
fn blocks_evaluate_to_themselves() {
    let mut scope = Scope::new();
    let v = scope.eval(AstNode::ExpressionBlock(Box::new(num(5)))).unwrap();
    assert_eq!(*v, Value::ExpressionBlock(Box::new(num(5))));
    assert_eq!(scope.take_output(), Vec::<String>::new());
}

#[test]
fn environment_prelude_and_new() {
    let mut env = Environment::prelude();
    env.eval(call(var("print"), vec![num(-12), AstNode::List(vec![])])).unwrap();
    assert_eq!(env.take_output(), vec![s("-12[]")]);
    let mut bare = Environment::new();
    assert_eq!(bare.eval(var("print")), Err(EvalError::UndefinedVariable));
}

#[test]
fn shadowing_in_inner_scope() {
    let mut scope = Scope::new();
    run(&mut scope, "var print = 1;").unwrap();
    assert_eq!(*scope.eval(var("print")).unwrap(), Value::Integer(1));
    let mut outer = Scope::prelude();
    assert_eq!(
        outer.eval(AstNode::VariableCreation { ident: s("print"), value: Box::new(num(1)) }),
        Err(EvalError::AlreadyDefined)
    );
}

#[test]
fn chain_map_frames() {
    let mut m: ChainMap<i64> = ChainMap::new();
    assert!(!m.set(s("a"), 1));
    assert!(m.set(s("a"), 2));
    assert_eq!(m.get(&s("a")), Some(&2));
    m.push_map();
    assert_eq!(m.get(&s("a")), Some(&2));
    assert!(!m.set(s("a"), 3));
    assert!(m.binds_innermost(&s("a")));
    assert_eq!(m.get(&s("a")), Some(&3));
    m.pop_map();
    assert_eq!(m.get(&s("a")), Some(&2));
    assert_eq!(m.get(&s("b")), None);
}

#[test]
fn builtin_function_value() {
    let v = Value::builtin_function("print", Builtin::Print);
    match v {
        Value::BuiltinFunction(d) => {
            assert_eq!(d.name, s("print"));
            assert_eq!(d.func, Builtin::Print);
        }
        other => panic!("not a builtin: {:?}", other),
    }
}

#[test]
fn display_of_values() {
    assert_eq!(Value::Integer(-40).display(), Some(s("-40")));
    assert_eq!(Value::Unit.display(), Some(s("()")));
    let list = Value::List(vec![Rc::new(Value::String(s("x y"))), Rc::new(Value::Unit)]);
    assert_eq!(list.display(), Some(s("[\"x y\" ()]")));
    assert_eq!(Value::StatementBlock(vec![]).display(), None);
}

#[test]
fn lookup_nodes_resolve_by_dotted_name() {
    let mut scope = Scope::new();
    let declare = AstNode::VariableCreation { ident: s("a.b::c"), value: Box::new(num(9)) };
    scope.eval(declare).unwrap();
    let lookup = AstNode::MethodLookup {
        expr: Box::new(AstNode::AttributeLookup { expr: Box::new(var("a")), attr: s("b") }),
        meth: s("c"),
    };
    assert_eq!(*scope.eval(lookup).unwrap(), Value::Integer(9));
    let other = AstNode::AttributeLookup { expr: Box::new(var("a")), attr: s("c") };
    assert_eq!(scope.eval(other), Err(EvalError::UndefinedVariable));
}

#[test]
fn plain_program_runs_without_error() {
    assert!(parse("var a = 1; print;").is_err());
    let mut fresh = Scope::new();
    run(&mut fresh, "var a = 1; var b = [a \"s\"]; print a b; print [b] 2;").unwrap();
    assert_eq!(fresh.take_output(), vec![s("1[1 \"s\"]"), s("[[1 \"s\"]]2")]);
}

#[test]
fn functions_display_their_name() {
    let mut scope = Scope::new();
    run(&mut scope, "print print; print [print \"p\"]; var f = print; f f 1;").unwrap();
    assert_eq!(scope.take_output(), vec![s("print"), s("[print \"p\"]"), s("print1")]);
    let v = Value::builtin_function("show", Builtin::Print);
    assert_eq!(v.display(), Some(s("show")));
}

#[test]
fn parenthesized_expression_as_lookup_base() {
    assert_eq!(
        parse("f (x).a (y)::m;").unwrap(),
        vec![call(
            var("f"),
            vec![
                AstNode::AttributeLookup { expr: Box::new(var("x")), attr: s("a") },
                AstNode::MethodLookup { expr: Box::new(var("y")), meth: s("m") },
            ]
        )]
    );
    assert_eq!(
        parse("f (g 1).a;").unwrap(),
        vec![call(
            var("f"),
            vec![AstNode::AttributeLookup { expr: Box::new(call(var("g"), vec![num(1)])), attr: s("a") }]
        )]
    );
    assert!(parse("f (x;").is_err());
}

#[test]
fn rebinding_replaces_the_entry() {
    let mut m: ChainMap<i64> = ChainMap::new();
    for i in 0..5 {
        m.set(s("a"), i);
    }
    assert_eq!(m.get(&s("a")), Some(&4));
    assert!(!m.set(s("b"), 1));
    assert!(m.set(s("b"), 2));
    assert_eq!(m.get(&s("b")), Some(&2));
    assert!(!m.binds_innermost(&s("c")));
}

#[test]
fn integer_display_edges() {
    assert_eq!(Value::Integer(0).display(), Some(s("0")));
    assert_eq!(Value::Integer(i64::MIN).display(), Some(s("-9223372036854775808")));
    assert_eq!(Value::Integer(i64::MAX).display(), Some(s("9223372036854775807")));
    assert_eq!(Value::Integer(1050).display(), Some(s("1050")));
}
