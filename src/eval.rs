//! The evaluator: a semantics over syntax-tree models, and the engine that
//! walks syntax trees against a chain of scopes and is proved to follow it.

use crate::ast::{Ast, AstNode, ast_view, asts_view, lemma_asts_view_index, lemma_asts_view_len};
use crate::chain_map::{ChainMap, chain_lookup};
use crate::value::{
    Builtin, Value, ValueV, display, lemma_values_view_index, lemma_values_view_len,
    lemma_values_view_push, value_view, values_view,
};
use std::rc::Rc;
use vstd::prelude::*;
use vstd::string::StringExecFns;

verus! {

broadcast use {
    vstd::seq::axiom_seq_index_decreases,
    vstd::seq::axiom_seq_subrange_decreases,
    vstd::std_specs::vec::group_vec_axioms,
};

/// Why an evaluation stopped. Every such condition ends the evaluation.
#[derive(Debug, Clone, Copy, PartialEq, Eq)]
pub enum EvalError {
    /// A name that no frame binds.
    UndefinedVariable,
    /// A lookup on something other than a name or another lookup.
    UnsupportedLookup,
    /// A call of a value that is not a function.
    NotAFunction,
    /// A `var` declaration of a name that the innermost frame binds already.
    AlreadyDefined,
    /// An assignment to something other than a plain name.
    UnsupportedTarget,
    /// A value with no display form handed to `print`.
    NotDisplayable,
    /// A comment reached the evaluator.
    CommentReached,
}

/// The model of the evaluator's state: the frames, innermost last, and the
/// lines written so far.
pub struct EvalState {
    pub frames: Seq<Map<Seq<char>, ValueV>>,
    pub output: Seq<Seq<char>>,
}

/// The models of the values in a chain of frames.
pub open spec fn frames_view(f: Seq<Map<Seq<char>, Rc<Value>>>) -> Seq<Map<Seq<char>, ValueV>> {
    f.map_values(|m: Map<Seq<char>, Rc<Value>>| frame_view(m))
}

/// The models of the values in one frame.
pub open spec fn frame_view(m: Map<Seq<char>, Rc<Value>>) -> Map<Seq<char>, ValueV> {
    m.map_values(|v: Rc<Value>| value_view(*v))
}

/// The models of the lines written.
pub open spec fn lines_view(out: Seq<String>) -> Seq<Seq<char>> {
    out.map_values(|s: String| s@)
}

pub open spec fn state_of(f: Seq<Map<Seq<char>, Rc<Value>>>, out: Seq<String>) -> EvalState {
    EvalState { frames: frames_view(f), output: lines_view(out) }
}

/// The model of an evaluation's result.
pub open spec fn result_view(r: Result<Rc<Value>, EvalError>) -> Result<ValueV, EvalError> {
    match r {
        Ok(v) => Ok(value_view(*v)),
        Err(e) => Err(e),
    }
}

/// The name under which a lookup node is bound: `a`, `a.b`, `a::m`, and so
/// on; `None` for any other node.
pub open spec fn binding_name(a: Ast) -> Option<Seq<char>>
    decreases a,
{
    match a {
        Ast::VariableLookup(x) => Some(x),
        Ast::AttributeLookup(e, n) => match binding_name(*e) {
            Some(b) => Some(b + seq!['.'] + n),
            None => None,
        },
        Ast::MethodLookup(e, n) => match binding_name(*e) {
            Some(b) => Some(b + seq![':', ':'] + n),
            None => None,
        },
        _ => None,
    }
}

/// The line that `print` writes for its arguments: their display forms run
/// together; `None` where one has none.
pub open spec fn print_line(vs: Seq<ValueV>) -> Option<Seq<char>>
    decreases vs.len(),
{
    if vs.len() == 0 {
        Some(Seq::empty())
    } else {
        match (print_line(vs.drop_last()), display(vs.last())) {
            (Some(a), Some(b)) => Some(a + b),
            _ => None,
        }
    }
}

/// Binds `k` to `v` in the innermost frame.
pub open spec fn define(st: EvalState, k: Seq<char>, v: ValueV) -> EvalState {
    EvalState {
        frames: st.frames.update(st.frames.len() - 1, st.frames.last().insert(k, v)),
        output: st.output,
    }
}

/// What calling a built-in function on evaluated arguments does.
pub open spec fn apply_spec(b: Builtin, args: Seq<ValueV>, st: EvalState) -> (
    Result<ValueV, EvalError>,
    EvalState,
) {
    match b {
        Builtin::Print => match print_line(args) {
            Some(line) => (Ok(ValueV::Unit), EvalState { frames: st.frames, output: st.output.push(line) }),
            None => (Err(EvalError::NotDisplayable), st),
        },
    }
}

/// The result of evaluating a node in a state, and the state after it.
pub open spec fn eval_spec(a: Ast, st: EvalState) -> (Result<ValueV, EvalError>, EvalState)
    decreases a,
{
    match a {
        Ast::StringLiteral(s) => (Ok(ValueV::Str(s)), st),
        Ast::IntegerLiteral(n) => (Ok(ValueV::Integer(n)), st),
        Ast::Comment(_) => (Err(EvalError::CommentReached), st),
        Ast::VariableLookup(_) | Ast::AttributeLookup(_, _) | Ast::MethodLookup(_, _) => {
            match binding_name(a) {
                Some(k) => match chain_lookup(st.frames, k) {
                    Some(v) => (Ok(v), st),
                    None => (Err(EvalError::UndefinedVariable), st),
                },
                None => (Err(EvalError::UnsupportedLookup), st),
            }
        },
        Ast::List(items) => {
            let (r, st2) = eval_all_spec(items, st);
            match r {
                Ok(vs) => (Ok(ValueV::List(vs)), st2),
                Err(e) => (Err(e), st2),
            }
        },
        Ast::StatementBlock(b) => (Ok(ValueV::StatementBlock(b)), st),
        Ast::ExpressionBlock(e) => (Ok(ValueV::ExpressionBlock(*e)), st),
        Ast::FunctionCall(f, args) => {
            let (rf, st1) = eval_spec(*f, st);
            match rf {
                Err(e) => (Err(e), st1),
                Ok(fv) => {
                    let (ra, st2) = eval_all_spec(args, st1);
                    match ra {
                        Err(e) => (Err(e), st2),
                        Ok(vs) => match fv {
                            ValueV::BuiltinFunction(_, b) => {
                                let (r, st3) = apply_spec(b, vs, st2);
                                match r {
                                    Ok(_) => (Ok(ValueV::Unit), st3),
                                    Err(e) => (Err(e), st3),
                                }
                            },
                            _ => (Err(EvalError::NotAFunction), st2),
                        },
                    }
                },
            }
        },
        Ast::VariableCreation(x, value) => {
            let (rv, st1) = eval_spec(*value, st);
            match rv {
                Err(e) => (Err(e), st1),
                Ok(v) => if st1.frames.last().contains_key(x) {
                    (Err(EvalError::AlreadyDefined), st1)
                } else {
                    (Ok(ValueV::Unit), define(st1, x, v))
                },
            }
        },
        Ast::Assignment(place, value) => {
            let (rv, st1) = eval_spec(*value, st);
            match rv {
                Err(e) => (Err(e), st1),
                Ok(v) => match *place {
                    Ast::VariableLookup(x) => (Ok(ValueV::Unit), define(st1, x, v)),
                    _ => (Err(EvalError::UnsupportedTarget), st1),
                },
            }
        },
    }
}

/// Evaluates nodes left to right, stopping at the first error.
pub open spec fn eval_all_spec(items: Seq<Ast>, st: EvalState) -> (
    Result<Seq<ValueV>, EvalError>,
    EvalState,
)
    decreases items,
{
    if items.len() == 0 {
        (Ok(Seq::empty()), st)
    } else {
        let (r, st1) = eval_all_spec(items.drop_last(), st);
        match r {
            Err(e) => (Err(e), st1),
            Ok(vs) => {
                let (rv, st2) = eval_spec(items.last(), st1);
                match rv {
                    Ok(v) => (Ok(vs.push(v)), st2),
                    Err(e) => (Err(e), st2),
                }
            },
        }
    }
}


proof fn lemma_frames_lookup(f: Seq<Map<Seq<char>, Rc<Value>>>, k: Seq<char>)
    ensures
        chain_lookup(frames_view(f), k) == match chain_lookup(f, k) {
            Some(v) => Some(value_view(*v)),
            None => None::<ValueV>,
        },
    decreases f.len(),
{
    if f.len() > 0 {
        assert(frames_view(f).drop_last() =~= frames_view(f.drop_last()));
        lemma_frames_lookup(f.drop_last(), k);
    }
}

proof fn lemma_frames_define(f: Seq<Map<Seq<char>, Rc<Value>>>, k: Seq<char>, v: Rc<Value>)
    requires
        f.len() > 0,
    ensures
        frames_view(f.update(f.len() - 1, f.last().insert(k, v))) == frames_view(f).update(
            f.len() - 1,
            frames_view(f).last().insert(k, value_view(*v)),
        ),
{
    assert(frame_view(f.last().insert(k, v)) =~= frame_view(f.last()).insert(k, value_view(*v)));
    assert(frames_view(f.update(f.len() - 1, f.last().insert(k, v))) =~= frames_view(f).update(
        f.len() - 1,
        frames_view(f).last().insert(k, value_view(*v)),
    ));
}

proof fn lemma_lines_push(out: Seq<String>, s: String)
    ensures
        lines_view(out.push(s)) == lines_view(out).push(s@),
{
    assert(lines_view(out.push(s)) =~= lines_view(out).push(s@));
}

/// The name under which a lookup node is bound.
fn binding_name_of(node: &AstNode) -> (r: Option<String>)
    ensures
        match r {
            Some(s) => binding_name(node@) == Some(s@),
            None => binding_name(node@) is None,
        },
    decreases node,
{
    match node {
        AstNode::VariableLookup(x) => Some(x.clone()),
        AstNode::AttributeLookup { expr, attr } => match binding_name_of(expr) {
            Some(mut b) => {
                proof {
                    reveal_strlit(".");
                }
                b.append(".");
                b.append(attr.as_str());
                Some(b)
            },
            None => None,
        },
        AstNode::MethodLookup { expr, meth } => match binding_name_of(expr) {
            Some(mut b) => {
                proof {
                    reveal_strlit("::");
                }
                b.append("::");
                b.append(meth.as_str());
                Some(b)
            },
            None => None,
        },
        _ => None,
    }
}

/// Relies on `Rc::clone`: another pointer to the same value.
#[verifier::external_body]
fn share_value(v: &Rc<Value>) -> (r: Rc<Value>)
    ensures
        r == *v,
{
    Rc::clone(v)
}

/// Resolves a lookup node through the chain.
fn lookup(vars: &ChainMap<Rc<Value>>, node: &AstNode) -> (r: Result<Rc<Value>, EvalError>)
    ensures
        match binding_name(node@) {
            Some(k) => match chain_lookup(vars@, k) {
                Some(v) => r == Ok::<Rc<Value>, EvalError>(v),
                None => r == Err::<Rc<Value>, EvalError>(EvalError::UndefinedVariable),
            },
            None => r == Err::<Rc<Value>, EvalError>(EvalError::UnsupportedLookup),
        },
{
    match binding_name_of(node) {
        Some(k) => match vars.get(&k) {
            Some(v) => Ok(share_value(v)),
            None => Err(EvalError::UndefinedVariable),
        },
        None => Err(EvalError::UnsupportedLookup),
    }
}

/// The line that `print` writes for `vals`.
fn print_text(vals: &Vec<Rc<Value>>) -> (r: Option<String>)
    ensures
        match r {
            Some(s) => print_line(values_view(vals@)) == Some(s@),
            None => print_line(values_view(vals@)) is None,
        },
{
    let mut line = String::new();
    let mut i: usize = 0;
    proof {
        lemma_values_view_len(vals@);
        assert(values_view(vals@).subrange(0, 0) =~= Seq::<ValueV>::empty());
    }
    while i < vals.len()
        invariant
            i <= vals@.len(),
            values_view(vals@).len() == vals@.len(),
            print_line(values_view(vals@).subrange(0, i as int)) == Some(line@),
        decreases vals@.len() - i,
    {
        proof {
            lemma_values_view_index(vals@, i as int);
            assert(values_view(vals@).subrange(0, i + 1).drop_last() =~= values_view(vals@).subrange(
                0,
                i as int,
            ));
        }
        match vals[i].display() {
            Some(t) => {
                line.append(t.as_str());
            },
            None => {
                proof {
                    lemma_print_line_prefix(values_view(vals@), i + 1);
                }
                return None;
            },
        }
        i = i + 1;
    }
    assert(values_view(vals@).subrange(0, vals@.len() as int) =~= values_view(vals@));
    Some(line)
}

proof fn lemma_print_line_prefix(vs: Seq<ValueV>, k: int)
    requires
        0 <= k <= vs.len(),
        print_line(vs.subrange(0, k)) is None,
    ensures
        print_line(vs) is None,
    decreases vs.len(),
{
    if k == vs.len() {
        assert(vs.subrange(0, k) =~= vs);
    } else {
        assert(vs.drop_last().subrange(0, k) =~= vs.subrange(0, k));
        lemma_print_line_prefix(vs.drop_last(), k);
    }
}

/// Calls a built-in function on evaluated arguments.
fn apply(b: Builtin, vals: &Vec<Rc<Value>>, out: &mut Vec<String>) -> (r: Result<(), EvalError>)
    ensures
        ({
            let (spec_r, spec_st) = apply_spec(
                b,
                values_view(vals@),
                EvalState { frames: Seq::empty(), output: lines_view(old(out)@) },
            );
            &&& spec_st.output == lines_view(final(out)@)
            &&& match (r, spec_r) {
                (Ok(_), Ok(_)) => true,
                (Err(e), Err(f)) => e == f,
                _ => false,
            }
        }),
{
    match b {
        Builtin::Print => match print_text(vals) {
            Some(line) => {
                proof {
                    lemma_lines_push(out@, line);
                }
                out.push(line);
                Ok(())
            },
            None => Err(EvalError::NotDisplayable),
        },
    }
}

/// Evaluates a node against a chain of frames, appending what `print`
/// writes to `out`.
pub(crate) fn eval_node(
    vars: &mut ChainMap<Rc<Value>>,
    out: &mut Vec<String>,
    node: AstNode,
) -> (r: Result<Rc<Value>, EvalError>)
    requires
        old(vars)@.len() > 0,
    ensures
        final(vars)@.len() == old(vars)@.len(),
        eval_spec(node@, state_of(old(vars)@, old(out)@)) == (
            result_view(r),
            state_of(final(vars)@, final(out)@),
        ),
    decreases node,
{
    match node {
        AstNode::StringLiteral(s) => Ok(Rc::new(Value::String(s))),
        AstNode::IntegerLiteral(n) => Ok(Rc::new(Value::Integer(n))),
        AstNode::Comment(_) => Err(EvalError::CommentReached),
        AstNode::VariableLookup(_) | AstNode::AttributeLookup { .. } | AstNode::MethodLookup {
            ..
        } => {
            proof {
                match binding_name(node@) {
                    Some(k) => lemma_frames_lookup(vars@, k),
                    None => {},
                }
            }
            lookup(vars, &node)
        },
        AstNode::List(items) => match eval_all(vars, out, items) {
            Ok(vals) => Ok(Rc::new(Value::List(vals))),
            Err(e) => Err(e),
        },
        AstNode::StatementBlock(b) => Ok(Rc::new(Value::StatementBlock(b))),
        AstNode::ExpressionBlock(e) => Ok(Rc::new(Value::ExpressionBlock(e))),
        AstNode::FunctionCall { func, args } => {
            let f = match eval_node(vars, out, *func) {
                Ok(f) => f,
                Err(e) => {
                    return Err(e);
                },
            };
            let vals = match eval_all(vars, out, args) {
                Ok(vals) => vals,
                Err(e) => {
                    return Err(e);
                },
            };
            match &*f {
                Value::BuiltinFunction(d) => {
                    let ghost before = vars@;
                    vars.push_map();
                    let r = apply(d.func, &vals, out);
                    vars.pop_map();
                    assert(before.push(Map::empty()).drop_last() =~= before);
                    assert(vars@ == before);
                    let res = match r {
                        Ok(_) => Ok(Rc::new(Value::Unit)),
                        Err(e) => Err(e),
                    };
                    res
                },
                _ => Err(EvalError::NotAFunction),
            }
        },
        AstNode::VariableCreation { ident, value } => {
            let v = match eval_node(vars, out, *value) {
                Ok(v) => v,
                Err(e) => {
                    return Err(e);
                },
            };
            assert(frames_view(vars@).last() == frame_view(vars@.last()));
            if vars.binds_innermost(&ident) {
                return Err(EvalError::AlreadyDefined);
            }
            proof {
                lemma_frames_define(vars@, ident@, v);
            }
            vars.set(ident, v);
            Ok(Rc::new(Value::Unit))
        },
        AstNode::Assignment { expr, value } => {
            let v = match eval_node(vars, out, *value) {
                Ok(v) => v,
                Err(e) => {
                    return Err(e);
                },
            };
            let place = *expr;
            let ghost place_view = ast_view(place);
            match place {
                AstNode::VariableLookup(x) => {
                    assert(place_view == Ast::VariableLookup(x@));
                    proof {
                        lemma_frames_define(vars@, x@, v);
                    }
                    vars.set(x, v);
                            Ok(Rc::new(Value::Unit))
                },
                _ => Err(EvalError::UnsupportedTarget),
            }
        },
    }
}

/// Evaluates nodes left to right, stopping at the first error.
fn eval_all(vars: &mut ChainMap<Rc<Value>>, out: &mut Vec<String>, items: Vec<AstNode>) -> (r: Result<
    Vec<Rc<Value>>,
    EvalError,
>)
    requires
        old(vars)@.len() > 0,
    ensures
        final(vars)@.len() == old(vars)@.len(),
        eval_all_spec(asts_view(items@), state_of(old(vars)@, old(out)@)) == (
            match r {
                Ok(vals) => Ok(values_view(vals@)),
                Err(e) => Err(e),
            },
            state_of(final(vars)@, final(out)@),
        ),
    decreases items,
{
    let ghost st0 = state_of(vars@, out@);
    let ghost all = asts_view(items@);
    let len = items.len();
    let ghost n = items@.len();
    let mut rest = items;
    let mut vals: Vec<Rc<Value>> = Vec::new();
    let mut i: usize = 0;
    proof {
        lemma_asts_view_len(items@);
        assert(all.subrange(0, 0) =~= Seq::<Ast>::empty());
        assert(values_view(vals@) =~= Seq::<ValueV>::empty());
        assert(rest@ =~= items@.subrange(0, n as int));
    }
    while rest.len() > 0
        invariant
            i <= n,
            n == len,
            n == items@.len(),
            all == asts_view(items@),
            all.len() == n,
            rest@ == items@.subrange(i as int, n as int),
            vars@.len() == old(vars)@.len(),
            old(vars)@.len() > 0,
            st0 == state_of(old(vars)@, old(out)@),
            eval_all_spec(all.subrange(0, i as int), st0) == (
                Ok::<Seq<ValueV>, EvalError>(values_view(vals@)),
                state_of(vars@, out@),
            ),
        decreases rest@.len(),
    {
        let item = rest.remove(0);
        proof {
            lemma_asts_view_index(items@, i as int);
            assert(item == items@[i as int]);
            assert(all.subrange(0, i + 1).drop_last() =~= all.subrange(0, i as int));
            assert(all.subrange(0, i + 1).last() == all[i as int]);
        }
        let v = match eval_node(vars, out, item) {
            Ok(v) => v,
            Err(e) => {
                proof {
                    lemma_eval_all_prefix_err(all, i + 1, st0);
                }
                return Err(e);
            },
        };
        proof {
            lemma_values_view_push(vals@, v);
        }
        vals.push(v);
        i = i + 1;
        assert(rest@ =~= items@.subrange(i as int, n as int));
    }
    assert(all.subrange(0, n as int) =~= all);
    Ok(vals)
}

proof fn lemma_eval_all_prefix_err(items: Seq<Ast>, k: int, st: EvalState)
    requires
        0 <= k <= items.len(),
        eval_all_spec(items.subrange(0, k), st).0 is Err,
    ensures
        eval_all_spec(items, st) == eval_all_spec(items.subrange(0, k), st),
    decreases items.len(),
{
    if k == items.len() {
        assert(items.subrange(0, k) =~= items);
    } else {
        assert(items.drop_last().subrange(0, k) =~= items.subrange(0, k));
        lemma_eval_all_prefix_err(items.drop_last(), k, st);
    }
}

} // verus!
