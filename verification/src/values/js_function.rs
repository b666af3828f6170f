use vstd::prelude::*;

use crate::engine::scope::Scope;
use crate::engine::state::{State, StateModel};
use crate::engine::tokens::{dup_tokens, tokens_view, Token};
use crate::utils::chars::dup_strings;
use crate::values::value_variant::{JSValueVariant, ValueModel};

verus! {

/// The bindings that calling a function with `args` creates: parameter
/// names zipped with argument values, in order, each mutable; extra
/// parameters or extra arguments are dropped.
pub open spec fn zip_bindings(params: Seq<Seq<char>>, args: Seq<ValueModel>) -> Seq<
    (Seq<char>, StateModel),
> {
    Seq::new(
        if params.len() <= args.len() {
            params.len()
        } else {
            args.len()
        },
        |i: int| (params[i], StateModel { value: args[i], mutable: true }),
    )
}

/// A runtime function value: its parameter names, its body as a token
/// sequence, and the handle of the lexical frame it captured. Calling
/// semantics beyond binding arguments into a scope are not modelled.
#[derive(Debug, PartialEq)]
pub struct JSFunction {
    pub argument_names: Vec<String>,
    pub instructions: Vec<Token>,
    pub frame: usize,
}

impl Clone for JSFunction {
    /// The clone carries the same parameter names, the same token models
    /// and the same captured frame.
    fn clone(&self) -> (r: JSFunction)
        ensures
            r.argument_names@ == self.argument_names@,
            tokens_view(r.instructions@) == tokens_view(self.instructions@),
            r.frame == self.frame,
    {
        JSFunction {
            argument_names: dup_strings(&self.argument_names),
            instructions: dup_tokens(&self.instructions),
            frame: self.frame,
        }
    }
}

impl JSFunction {
    /// The handle of the captured lexical frame.
    pub fn scope(&self) -> (r: usize)
        ensures
            r == self.frame,
    {
        self.frame
    }

    /// Binds the call's arguments into the frame `target` of `scope`, each
    /// parameter name to the argument at its position, mutably, in order.
    /// This is the part of calling a function the engine models.
    #[verifier::loop_isolation(false)]
    pub fn bind_arguments(&self, scope: &mut Scope, target: usize, arguments: Vec<JSValueVariant>)
        requires
            target < old(scope)@.len(),
        ensures
            final(scope)@.len() == old(scope)@.len(),
            forall|i: int|
                0 <= i < old(scope)@.len() && i != target ==> final(scope)@[i] == old(scope)@[i],
            final(scope)@[target as int].entries == old(scope)@[target as int].entries
                + zip_bindings(
                Seq::new(self.argument_names@.len(), |i: int| self.argument_names@[i]@),
                Seq::new(arguments@.len(), |i: int| arguments@[i]@),
            ),
            final(scope)@[target as int].parent == old(scope)@[target as int].parent,
            final(scope)@[target as int].instructions == old(scope)@[target as int].instructions,
    {
        let ghost params = Seq::new(self.argument_names@.len(), |i: int| self.argument_names@[i]@);
        let ghost argvs = Seq::new(arguments@.len(), |i: int| arguments@[i]@);
        let count = if self.argument_names.len() <= arguments.len() {
            self.argument_names.len()
        } else {
            arguments.len()
        };
        let mut i: usize = 0;
        while i < count
            invariant
                i <= count,
                count == zip_bindings(params, argvs).len(),
                scope@.len() == old(scope)@.len(),
                target < scope@.len(),
                forall|k: int|
                    0 <= k < old(scope)@.len() && k != target ==> scope@[k] == old(scope)@[k],
                scope@[target as int].entries == old(scope)@[target as int].entries + zip_bindings(
                    params,
                    argvs,
                ).subrange(0, i as int),
                scope@[target as int].parent == old(scope)@[target as int].parent,
                scope@[target as int].instructions == old(scope)@[target as int].instructions,
            decreases count - i,
        {
            let name = self.argument_names[i].clone();
            let value = arguments[i].clone();
            scope.insert_state(target, name, State::new(value, true));
            proof {
                let z = zip_bindings(params, argvs);
                assert(z.subrange(0, i as int).push(z[i as int]) =~= z.subrange(0, i as int + 1));
                assert((old(scope)@[target as int].entries + z.subrange(0, i as int)).push(
                    z[i as int],
                ) =~= old(scope)@[target as int].entries + z.subrange(0, i as int + 1));
            }
            i = i + 1;
        }
        proof {
            assert(zip_bindings(params, argvs).subrange(0, count as int) =~= zip_bindings(
                params,
                argvs,
            ));
        }
    }

    pub fn new(instructions: Vec<Token>, argument_names: Vec<String>, frame: usize) -> (r:
        JSFunction)
        ensures
            r.instructions == instructions,
            r.argument_names == argument_names,
            r.frame == frame,
    {
        JSFunction { argument_names, instructions, frame }
    }
}

} // verus!
