use crate::ast::AstNode;
use crate::chain_map::ChainMap;
use crate::eval::{EvalError, EvalState, eval_node, eval_spec, frame_view, lines_view, result_view, state_of};
use crate::scope::{prelude_frame, prelude_frames};
use crate::value::{Value, ValueV};
use std::rc::Rc;
use vstd::prelude::*;

verus! {

/// An evaluation environment: like a scope, but the program shares the
/// outermost frame with what the environment starts with.
pub struct Environment {
    variables: ChainMap<Rc<Value>>,
    output: Vec<String>,
}

impl Environment {
    /// The model of the environment.
    pub closed spec fn state(&self) -> EvalState {
        state_of(self.variables@, self.output@)
    }

    /// An environment always has a frame.
    pub closed spec fn wf(&self) -> bool {
        self.variables@.len() > 0
    }

    /// An environment with one empty frame.
    pub fn new() -> (r: Environment)
        ensures
            r.wf(),
            r.state() == (EvalState { frames: seq![Map::empty()], output: seq![] }),
    {
        let env = Environment { variables: ChainMap::new(), output: Vec::new() };
        assert(frame_view(Map::empty()) =~= Map::<Seq<char>, ValueV>::empty());
        assert(env.state().frames =~= seq![Map::<Seq<char>, ValueV>::empty()]);
        assert(env.state().output =~= Seq::<Seq<char>>::empty());
        env
    }

    /// An environment whose one frame holds the built-in functions: `print`.
    pub fn prelude() -> (r: Environment)
        ensures
            r.wf(),
            r.state() == (EvalState { frames: seq![prelude_frame()], output: seq![] }),
    {
        let env = Environment { variables: prelude_frames(), output: Vec::new() };
        assert(env.state().output =~= Seq::<Seq<char>>::empty());
        env
    }

    /// Evaluates a node. A block evaluates to itself, unrun; a call runs a
    /// built-in in a frame of its own and gives `Unit`.
    pub fn eval(&mut self, node: AstNode) -> (r: Result<Rc<Value>, EvalError>)
        requires
            old(self).wf(),
        ensures
            final(self).wf(),
            eval_spec(node@, old(self).state()) == (result_view(r), final(self).state()),
    {
        eval_node(&mut self.variables, &mut self.output, node)
    }

    /// Takes the lines written so far, oldest first.
    pub fn take_output(&mut self) -> (r: Vec<String>)
        ensures
            final(self).wf() == old(self).wf(),
            lines_view(r@) == old(self).state().output,
            final(self).state() == (EvalState { frames: old(self).state().frames, output: seq![] }),
    {
        let mut r: Vec<String> = Vec::new();
        std::mem::swap(&mut r, &mut self.output);
        assert(self.state().output =~= Seq::<Seq<char>>::empty());
        r
    }
}

} // verus!
