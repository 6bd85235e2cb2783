//! Properties that relate several evaluations, proved over the evaluator's
//! semantics.

use crate::ast::Ast;
use crate::chain_map::chain_lookup;
use crate::eval::{EvalError, EvalState, apply_spec, eval_all_spec, eval_spec, print_line};
use crate::value::{Builtin, ValueV, display, list_body};
use vstd::prelude::*;

verus! {

/// The name under which the prelude binds the printing built-in.
pub open spec fn print_name() -> Seq<char> {
    seq!['p', 'r', 'i', 'n', 't']
}

/// `print` resolves to the printing built-in in this state.
pub open spec fn print_bound(st: EvalState) -> bool {
    chain_lookup(st.frames, print_name()) matches Some(ValueV::BuiltinFunction(_, Builtin::Print))
}

/// Declaring a name that the innermost frame does not bind, with an integer
/// literal as its value, succeeds; looking the name up afterwards gives
/// that integer.
pub proof fn lemma_declare_then_lookup(st: EvalState, x: Seq<char>, n: i64)
    requires
        st.frames.len() > 0,
        !st.frames.last().contains_key(x),
    ensures
        ({
            let (r1, st1) = eval_spec(Ast::VariableCreation(x, Box::new(Ast::IntegerLiteral(n))), st);
            &&& r1 == Ok::<ValueV, EvalError>(ValueV::Unit)
            &&& eval_spec(Ast::VariableLookup(x), st1).0 == Ok::<ValueV, EvalError>(
                ValueV::Integer(n),
            )
        }),
{
    assert(eval_spec(Ast::IntegerLiteral(n), st) == (Ok::<ValueV, EvalError>(ValueV::Integer(n)), st));
    let st1 = eval_spec(Ast::VariableCreation(x, Box::new(Ast::IntegerLiteral(n))), st).1;
    assert(st1.frames.len() == st.frames.len());
    assert(st1.frames.last() == st.frames.last().insert(x, ValueV::Integer(n)));
}

/// Declaring the same name twice in one frame fails on the second
/// declaration, which changes nothing.
pub proof fn lemma_redeclaration_fails(st: EvalState, x: Seq<char>, a: Ast, b: i64)
    requires
        st.frames.len() > 0,
    ensures
        ({
            let (r1, st1) = eval_spec(Ast::VariableCreation(x, Box::new(a)), st);
            r1 is Ok ==> eval_spec(Ast::VariableCreation(x, Box::new(Ast::IntegerLiteral(b))), st1)
                == (Err::<ValueV, EvalError>(EvalError::AlreadyDefined), st1)
        }),
{
    let (ra, sta) = eval_spec(a, st);
    if ra is Ok {
        assert(sta.frames.len() == st.frames.len()) by {
            lemma_eval_keeps_frame_count(a, st);
        }
        let st1 = eval_spec(Ast::VariableCreation(x, Box::new(a)), st).1;
        assert(eval_spec(Ast::IntegerLiteral(b), st1) == (Ok::<ValueV, EvalError>(ValueV::Integer(b)), st1));
        if !sta.frames.last().contains_key(x) {
            assert(st1.frames.len() == sta.frames.len());
            assert(st1.frames.last() == sta.frames.last().insert(x, ra->Ok_0));
        }
    }
}

/// Evaluation never adds or removes a frame.
pub proof fn lemma_eval_keeps_frame_count(a: Ast, st: EvalState)
    requires
        st.frames.len() > 0,
    ensures
        eval_spec(a, st).1.frames.len() == st.frames.len(),
    decreases a,
{
    match a {
        Ast::List(items) => {
            lemma_eval_all_keeps_frame_count(items, st);
        },
        Ast::FunctionCall(f, args) => {
            lemma_eval_keeps_frame_count(*f, st);
            lemma_eval_all_keeps_frame_count(args, eval_spec(*f, st).1);
        },
        Ast::VariableCreation(_, v) => {
            lemma_eval_keeps_frame_count(*v, st);
        },
        Ast::Assignment(_, v) => {
            lemma_eval_keeps_frame_count(*v, st);
        },
        _ => {},
    }
}

/// Evaluating a sequence never adds or removes a frame.
pub proof fn lemma_eval_all_keeps_frame_count(items: Seq<Ast>, st: EvalState)
    requires
        st.frames.len() > 0,
    ensures
        eval_all_spec(items, st).1.frames.len() == st.frames.len(),
    decreases items,
{
    if items.len() > 0 {
        lemma_eval_all_keeps_frame_count(items.drop_last(), st);
        lemma_eval_keeps_frame_count(items.last(), eval_all_spec(items.drop_last(), st).1);
    }
}

/// Where `print` is bound to the printing built-in, `print s t` on two
/// string literals writes one line, `s` and `t` run together, gives
/// `Unit`, and leaves the frames as they were.
pub proof fn lemma_print_two_strings(st: EvalState, s: Seq<char>, t: Seq<char>)
    requires
        print_bound(st),
    ensures
        eval_spec(
            Ast::FunctionCall(
                Box::new(Ast::VariableLookup(print_name())),
                seq![Ast::StringLiteral(s), Ast::StringLiteral(t)],
            ),
            st,
        ) == (Ok::<ValueV, EvalError>(ValueV::Unit), EvalState {
            frames: st.frames,
            output: st.output.push(s + t),
        }),
{
    let one = seq![Ast::StringLiteral(s)];
    let args = seq![Ast::StringLiteral(s), Ast::StringLiteral(t)];
    assert(args.drop_last() =~= one);
    assert(one.drop_last() =~= Seq::<Ast>::empty());
    let v1 = seq![ValueV::Str(s)];
    let vs = seq![ValueV::Str(s), ValueV::Str(t)];
    assert(eval_all_spec(Seq::<Ast>::empty(), st) == (Ok::<Seq<ValueV>, EvalError>(Seq::empty()), st));
    assert(eval_spec(Ast::StringLiteral(s), st) == (Ok::<ValueV, EvalError>(ValueV::Str(s)), st));
    assert(eval_spec(Ast::StringLiteral(t), st) == (Ok::<ValueV, EvalError>(ValueV::Str(t)), st));
    assert(Seq::<ValueV>::empty().push(ValueV::Str(s)) =~= v1);
    assert(eval_all_spec(one, st) == (Ok::<Seq<ValueV>, EvalError>(v1), st));
    assert(v1.push(ValueV::Str(t)) =~= vs);
    assert(eval_all_spec(args, st) == (Ok::<Seq<ValueV>, EvalError>(vs), st));
    assert(vs.drop_last() =~= v1);
    assert(v1.drop_last() =~= Seq::<ValueV>::empty());
    assert(print_line(Seq::<ValueV>::empty()) == Some(Seq::<char>::empty()));
    assert(display(ValueV::Str(s)) == Some(s));
    assert(display(ValueV::Str(t)) == Some(t));
    assert(Seq::<char>::empty() + s =~= s);
    assert(print_line(v1) == Some(s));
    assert(print_line(vs) == Some(s + t));
    let callee = Ast::VariableLookup(print_name());
    assert(eval_spec(callee, st).1 == st);
    assert(eval_spec(callee, st).0 is Ok);
}


/// Every name in `shown` resolves to a value that has a display form.
pub open spec fn shows_names(st: EvalState, shown: Set<Seq<char>>) -> bool {
    forall|x: Seq<char>|
        #![trigger shown.contains(x)]
        shown.contains(x) ==> (chain_lookup(st.frames, x) matches Some(v) && display(v) is Some)
}

/// Every name in `fns` resolves to a built-in function.
pub open spec fn calls_builtins(st: EvalState, fns: Set<Seq<char>>) -> bool {
    forall|f: Seq<char>|
        #![trigger fns.contains(f)]
        fns.contains(f) ==> (chain_lookup(st.frames, f) matches Some(ValueV::BuiltinFunction(_, _)))
}

/// An expression made of literals, lists, names from `shown`, and calls,
/// through a name from `fns`, on at most two such expressions.
pub open spec fn plain_expr(a: Ast, shown: Set<Seq<char>>, fns: Set<Seq<char>>) -> bool
    decreases a,
{
    match a {
        Ast::StringLiteral(_) => true,
        Ast::IntegerLiteral(_) => true,
        Ast::VariableLookup(x) => shown.contains(x),
        Ast::List(items) => forall|i: int|
            0 <= i < items.len() ==> plain_expr(#[trigger] items[i], shown, fns),
        Ast::FunctionCall(f, args) => (*f matches Ast::VariableLookup(g) && fns.contains(g))
            && args.len() <= 2 && forall|i: int|
            0 <= i < args.len() ==> plain_expr(#[trigger] args[i], shown, fns),
        _ => false,
    }
}

/// The names that a sequence of statements declares with `var`.
pub open spec fn declared(stmts: Seq<Ast>) -> Set<Seq<char>>
    decreases stmts.len(),
{
    if stmts.len() == 0 {
        Set::empty()
    } else {
        let d = declared(stmts.drop_last());
        match stmts.last() {
            Ast::VariableCreation(x, _) => d.insert(x),
            _ => d,
        }
    }
}

/// The names known to hold a built-in function once the statements have
/// run, starting from `fns`: declaring a name as another such name adds
/// it; any other declaration of it removes it.
pub open spec fn callable_after(stmts: Seq<Ast>, fns: Set<Seq<char>>) -> Set<Seq<char>>
    decreases stmts.len(),
{
    if stmts.len() == 0 {
        fns
    } else {
        let c = callable_after(stmts.drop_last(), fns);
        match stmts.last() {
            Ast::VariableCreation(x, e) => if (*e matches Ast::VariableLookup(g) && c.contains(g)) {
                c.insert(x)
            } else {
                c.remove(x)
            },
            _ => c,
        }
    }
}

/// A program of `var` declarations and plain expressions, in which every
/// name is declared before it is used (or is in `shown`), every call goes
/// through a name that holds a built-in function at that point (starting
/// from those in `fns`), and no name is declared twice.
pub open spec fn plain_program(stmts: Seq<Ast>, shown: Set<Seq<char>>, fns: Set<Seq<char>>) -> bool
    decreases stmts.len(),
{
    if stmts.len() == 0 {
        true
    } else {
        let prefix = stmts.drop_last();
        let known = shown + declared(prefix);
        let callable = callable_after(prefix, fns);
        plain_program(prefix, shown, fns) && match stmts.last() {
            Ast::VariableCreation(x, e) => plain_expr(*e, known, callable) && !declared(
                prefix,
            ).contains(x),
            s => plain_expr(s, known, callable),
        }
    }
}

proof fn lemma_lookup_after_define(
    frames: Seq<Map<Seq<char>, ValueV>>,
    x: Seq<char>,
    v: ValueV,
    y: Seq<char>,
)
    requires
        frames.len() > 0,
    ensures
        chain_lookup(frames.update(frames.len() - 1, frames.last().insert(x, v)), y) == if y == x {
            Some(v)
        } else {
            chain_lookup(frames, y)
        },
{
    let f2 = frames.update(frames.len() - 1, frames.last().insert(x, v));
    assert(f2.drop_last() =~= frames.drop_last());
}

proof fn lemma_list_body_shows(vs: Seq<ValueV>)
    requires
        forall|i: int| 0 <= i < vs.len() ==> display(#[trigger] vs[i]) is Some,
    ensures
        list_body(vs) is Some,
        print_line(vs) is Some,
    decreases vs.len(),
{
    if vs.len() > 0 {
        lemma_list_body_shows(vs.drop_last());
        assert(display(vs[vs.len() - 1]) is Some);
    }
}

proof fn lemma_plain_expr(a: Ast, shown: Set<Seq<char>>, fns: Set<Seq<char>>, st: EvalState)
    requires
        st.frames.len() > 0,
        shows_names(st, shown),
        calls_builtins(st, fns),
        plain_expr(a, shown, fns),
    ensures
        eval_spec(a, st).0 is Ok,
        display(eval_spec(a, st).0->Ok_0) is Some,
        eval_spec(a, st).1.frames == st.frames,
    decreases a,
{
    match a {
        Ast::VariableLookup(x) => {
            assert(shown.contains(x));
        },
        Ast::List(items) => {
            lemma_plain_exprs(items, shown, fns, st);
            lemma_list_body_shows(eval_all_spec(items, st).0->Ok_0);
        },
        Ast::FunctionCall(f, args) => {
            let g = (*f)->VariableLookup_0;
            assert(fns.contains(g));
            let callee = Ast::VariableLookup(g);
            assert(eval_spec(callee, st).1 == st);
            lemma_plain_exprs(args, shown, fns, st);
            let (ra, st2) = eval_all_spec(args, st);
            lemma_list_body_shows(ra->Ok_0);
            let fv = eval_spec(callee, st).0->Ok_0;
            assert(fv is BuiltinFunction);
            assert(apply_spec(fv->BuiltinFunction_1, ra->Ok_0, st2).0 is Ok);
        },
        _ => {},
    }
}

proof fn lemma_plain_exprs(
    items: Seq<Ast>,
    shown: Set<Seq<char>>,
    fns: Set<Seq<char>>,
    st: EvalState,
)
    requires
        st.frames.len() > 0,
        shows_names(st, shown),
        calls_builtins(st, fns),
        forall|i: int| 0 <= i < items.len() ==> plain_expr(#[trigger] items[i], shown, fns),
    ensures
        eval_all_spec(items, st).0 is Ok,
        eval_all_spec(items, st).0->Ok_0.len() == items.len(),
        forall|i: int|
            0 <= i < items.len() ==> display(#[trigger] eval_all_spec(items, st).0->Ok_0[i]) is Some,
        eval_all_spec(items, st).1.frames == st.frames,
    decreases items,
{
    if items.len() > 0 {
        let prefix = items.drop_last();
        assert forall|i: int| 0 <= i < prefix.len() implies plain_expr(
            #[trigger] prefix[i],
            shown,
            fns,
        ) by {
            assert(prefix[i] == items[i]);
        }
        lemma_plain_exprs(prefix, shown, fns, st);
        let (r1, st1) = eval_all_spec(prefix, st);
        assert(shows_names(st1, shown));
        assert(calls_builtins(st1, fns));
        assert(plain_expr(items[items.len() - 1], shown, fns));
        lemma_plain_expr(items.last(), shown, fns, st1);
        let vs = r1->Ok_0;
        let v = eval_spec(items.last(), st1).0->Ok_0;
        assert forall|i: int| 0 <= i < items.len() implies display(#[trigger] vs.push(v)[i]) is Some by {
            if i < prefix.len() {
                assert(vs.push(v)[i] == vs[i]);
            }
        }
    }
}

proof fn lemma_plain_program(
    stmts: Seq<Ast>,
    shown: Set<Seq<char>>,
    fns: Set<Seq<char>>,
    st: EvalState,
)
    requires
        st.frames.len() > 0,
        shows_names(st, shown),
        calls_builtins(st, fns),
        plain_program(stmts, shown, fns),
        forall|x: Seq<char>|
            #![trigger declared(stmts).contains(x)]
            declared(stmts).contains(x) ==> !st.frames.last().contains_key(x),
    ensures
        ({
            let (r, st2) = eval_all_spec(stmts, st);
            &&& r is Ok
            &&& st2.frames.len() == st.frames.len()
            &&& shows_names(st2, shown + declared(stmts))
            &&& calls_builtins(st2, callable_after(stmts, fns))
            &&& forall|x: Seq<char>|
                #![trigger st2.frames.last().contains_key(x)]
                st2.frames.last().contains_key(x) ==> st.frames.last().contains_key(x) || declared(
                    stmts,
                ).contains(x)
        }),
    decreases stmts.len(),
{
    if stmts.len() == 0 {
        assert(shown + Set::<Seq<char>>::empty() =~= shown);
    } else {
        let prefix = stmts.drop_last();
        let known = shown + declared(prefix);
        let callable = callable_after(prefix, fns);
        assert forall|x: Seq<char>| #![trigger declared(prefix).contains(x)]
            declared(prefix).contains(x) implies !st.frames.last().contains_key(x) by {
            assert(declared(stmts).contains(x));
        }
        lemma_plain_program(prefix, shown, fns, st);
        let (r1, st1) = eval_all_spec(prefix, st);
        match stmts.last() {
            Ast::VariableCreation(x, e) => {
                lemma_plain_expr(*e, known, callable, st1);
                let (rv, st1e) = eval_spec(*e, st1);
                let v = rv->Ok_0;
                assert(declared(stmts).contains(x));
                assert(!st1e.frames.last().contains_key(x)) by {
                    if st1e.frames.last().contains_key(x) {
                        assert(st1.frames.last().contains_key(x));
                    }
                }
                let st2 = eval_spec(stmts.last(), st1).1;
                assert(st2.frames == st1.frames.update(
                    st1.frames.len() - 1,
                    st1.frames.last().insert(x, v),
                ));
                assert forall|y: Seq<char>| #![trigger (shown + declared(stmts)).contains(y)]
                    (shown + declared(stmts)).contains(y) implies (chain_lookup(st2.frames, y) matches Some(w)
                    && display(w) is Some) by {
                    lemma_lookup_after_define(st1.frames, x, v, y);
                    if y != x {
                        assert(known.contains(y));
                    }
                }
                let after = callable_after(stmts, fns);
                assert forall|y: Seq<char>| #![trigger after.contains(y)] after.contains(
                    y,
                ) implies (chain_lookup(st2.frames, y) matches Some(
                    ValueV::BuiltinFunction(_, _),
                )) by {
                    lemma_lookup_after_define(st1.frames, x, v, y);
                    if y == x {
                        let g = (*e)->VariableLookup_0;
                        assert(callable.contains(g));
                        assert(chain_lookup(st1.frames, g) matches Some(
                            ValueV::BuiltinFunction(_, _),
                        ));
                    } else {
                        assert(callable.contains(y));
                    }
                }
                assert forall|y: Seq<char>| #![trigger st2.frames.last().contains_key(y)]
                    st2.frames.last().contains_key(y) implies st.frames.last().contains_key(y)
                    || declared(stmts).contains(y) by {
                    if y != x {
                        assert(st1.frames.last().contains_key(y));
                    }
                }
            },
            s => {
                lemma_plain_expr(s, known, callable, st1);
                assert(declared(stmts) == declared(prefix));
                let st2 = eval_spec(s, st1).1;
                assert forall|y: Seq<char>| #![trigger (shown + declared(stmts)).contains(y)]
                    (shown + declared(stmts)).contains(y) implies (chain_lookup(st2.frames, y) matches Some(w)
                    && display(w) is Some) by {
                    assert(known.contains(y));
                }
            },
        }
    }
}

/// In a fresh scope (the prelude, and an empty frame for the program), a
/// program of `var` declarations and plain expressions (literals, lists,
/// declared names and `print`, and calls on at most two arguments through
/// a name that holds a built-in function, such as `print`) in which every
/// name is declared before use and none twice, evaluates statement by
/// statement without an error.
pub proof fn lemma_plain_programs_evaluate(stmts: Seq<Ast>, output: Seq<Seq<char>>)
    requires
        plain_program(stmts, set![print_name()], set![print_name()]),
    ensures
        eval_all_spec(
            stmts,
            EvalState { frames: seq![crate::scope::prelude_frame(), Map::empty()], output },
        ).0 is Ok,
{
    let st = EvalState { frames: seq![crate::scope::prelude_frame(), Map::empty()], output };
    assert(st.frames.drop_last() =~= seq![crate::scope::prelude_frame()]);
    let inner = seq![crate::scope::prelude_frame()];
    assert(inner.last().contains_key(print_name()));
    assert(chain_lookup(inner, print_name()) == Some(
        ValueV::BuiltinFunction(print_name(), Builtin::Print),
    ));
    assert(!st.frames.last().contains_key(print_name()));
    assert(chain_lookup(st.frames, print_name()) == chain_lookup(inner, print_name()));
    assert(display(ValueV::BuiltinFunction(print_name(), Builtin::Print)) is Some);
    assert(shows_names(st, set![print_name()]));
    assert(calls_builtins(st, set![print_name()]));
    lemma_plain_program(stmts, set![print_name()], set![print_name()], st);
}

} // verus!
