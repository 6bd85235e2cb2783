use crate::ast::AstNode;
use crate::chain_map::ChainMap;
use crate::eval::{
    EvalError, EvalState, eval_node, eval_spec, frame_view, frames_view, lines_view, result_view,
    state_of,
};
use crate::value::{Builtin, Value, ValueV};
use std::rc::Rc;
use vstd::prelude::*;

verus! {

/// The frame that the prelude provides: `print`, bound to the built-in.
pub open spec fn prelude_frame() -> Map<Seq<char>, ValueV> {
    let print = seq!['p', 'r', 'i', 'n', 't'];
    Map::empty().insert(print, ValueV::BuiltinFunction(print, Builtin::Print))
}

/// A fresh chain of frames whose only frame holds the prelude.
pub(crate) fn prelude_frames() -> (r: ChainMap<Rc<Value>>)
    ensures
        r@.len() == 1,
        state_of(r@, Seq::empty()).frames == seq![prelude_frame()],
{
    let mut vars: ChainMap<Rc<Value>> = ChainMap::new();
    let name = "print".to_owned();
    let f = Rc::new(Value::builtin_function("print", Builtin::Print));
    proof {
        reveal_strlit("print");
        assert(name@ =~= seq!['p', 'r', 'i', 'n', 't']);
    }
    vars.set(name, f);
    let ghost fr = state_of(vars@, Seq::empty()).frames;
    assert(fr[0] =~= prelude_frame());
    assert(fr =~= seq![prelude_frame()]);
    vars
}

/// An evaluation scope: a chain of frames, and the lines that `print` has
/// written and that no one has taken yet.
pub struct Scope {
    variables: ChainMap<Rc<Value>>,
    output: Vec<String>,
}

impl Scope {
    /// The model of the scope.
    pub closed spec fn state(&self) -> EvalState {
        state_of(self.variables@, self.output@)
    }

    /// A scope always has a frame.
    pub closed spec fn wf(&self) -> bool {
        self.variables@.len() > 0
    }

    /// The prelude, with an empty frame inside it for the program.
    pub fn new() -> (r: Scope)
        ensures
            r.wf(),
            r.state() == (EvalState { frames: seq![prelude_frame(), Map::empty()], output: seq![] }),
    {
        let mut ctx = Self::prelude();
        let ghost before = ctx.variables@;
        ctx.variables.push_map();
        proof {
            assert(frame_view(Map::empty()) =~= Map::<Seq<char>, ValueV>::empty());
            assert(frames_view(before.push(Map::empty())) =~= frames_view(before).push(
                frame_view(Map::empty()),
            ));
            assert(ctx.state().frames =~= seq![prelude_frame(), Map::empty()]);
            assert(ctx.state().output =~= Seq::<Seq<char>>::empty());
        }
        ctx
    }

    /// One frame holding the built-in functions: `print`.
    pub fn prelude() -> (r: Scope)
        ensures
            r.wf(),
            r.state() == (EvalState { frames: seq![prelude_frame()], output: seq![] }),
    {
        let ctx = Scope { variables: prelude_frames(), output: Vec::new() };
        assert(ctx.state().output =~= Seq::<Seq<char>>::empty());
        ctx
    }

    /// Evaluates a node. A block evaluates to itself, unrun; a call runs a
    /// built-in in a frame of its own and gives `Unit`.
    pub fn eval(&mut self, node: AstNode) -> (r: Result<Rc<Value>, EvalError>)
        requires
            old(self).wf(),
        ensures
            final(self).wf(),
            eval_spec(node@, old(self).state()) == (result_view(r), final(self).state()),
    {
        eval_node(&mut self.variables, &mut self.output, node)
    }

    /// Takes the lines written so far, oldest first.
    pub fn take_output(&mut self) -> (r: Vec<String>)
        ensures
            final(self).wf() == old(self).wf(),
            lines_view(r@) == old(self).state().output,
            final(self).state() == (EvalState { frames: old(self).state().frames, output: seq![] }),
    {
        let mut r: Vec<String> = Vec::new();
        std::mem::swap(&mut r, &mut self.output);
        assert(self.state().output =~= Seq::<Seq<char>>::empty());
        r
    }
}

} // verus!
