//! Code generation from an environment.

use crate::compiler::cpp::{compiled, generated, Generated, GeneratedView};
use crate::definition::output::TargetLanguage;
use crate::env::{Environment, EnvironmentView};
use crate::lisp::{Error, ErrorView};
use crate::compiler::order::has_cycle;
use crate::text::{replace_all, replaced};
use vstd::prelude::*;

pub mod cpp;
pub mod order;

verus! {

/// A name of the definition language as a C++ identifier: every `-`
/// becomes `_`, then every `?` is dropped.
pub open spec fn identifier_text(name: Seq<char>) -> Seq<char> {
    replaced(replaced(name, "-"@, "_"@), "?"@, ""@)
}

/// A name of the definition language as a C++ identifier.
pub fn compile_identifier(i: &str) -> (r: String)
    ensures
        r@ == identifier_text(i@),
{
    let dashed = replace_all(i, "-", "_");
    replace_all(dashed.as_str(), "?", "")
}

/// The models of a run of outputs, in order.
pub open spec fn all_generated_view(outputs: Seq<Generated>) -> Seq<GeneratedView> {
    outputs.map_values(|g: Generated| g@)
}

/// What a run writes for every output of `env`, output by output: for
/// each, everything that `compiled` gives for its folder. Where there is
/// no output nothing is written; otherwise the run fails where structs
/// depend on each other in a cycle.
pub open spec fn all_compiled(env: EnvironmentView) -> Result<Seq<GeneratedView>, ErrorView> {
    if env.outputs.len() == 0 {
        Ok(Seq::empty())
    } else {
        match generated(env) {
            Err(e) => Err(e),
            Ok(_) => Ok(
                Seq::new(
                    env.outputs.len(),
                    |i: int| compiled(env.outputs[i].folder, env)->Ok_0,
                ),
            ),
        }
    }
}

/// What a run writes for every output of `env`, output by output.
pub fn compile(env: &Environment) -> (r: Result<Vec<Generated>, Error>)
    ensures
        match r {
            Ok(outputs) => all_compiled(env@) == Ok::<_, ErrorView>(all_generated_view(outputs@)),
            Err(e) => all_compiled(env@) == Err::<Seq<GeneratedView>, _>(e@),
        },
        r is Ok <==> env@.outputs.len() == 0 || !has_cycle(env@.structs),
{
    let mut all: Vec<Generated> = Vec::new();
    let mut i: usize = 0;
    while i < env.outputs.len()
        invariant
            i <= env.outputs.len(),
            i > 0 ==> generated(env@) is Ok && !has_cycle(env@.structs),
            all_generated_view(all@) == Seq::new(
                i as nat,
                |k: int| compiled(env@.outputs[k].folder, env@)->Ok_0,
            ),
        decreases env.outputs.len() - i,
    {
        let output = &env.outputs[i];
        assert(env@.outputs[i as int] == output@);
        let ghost before = all_generated_view(all@);
        match output.language {
            TargetLanguage::Cpp => {
                let files = cpp::compile(output.folder.as_str(), env)?;
                all.push(files);
                assert(all_generated_view(all@) =~= before.push(files@));
            },
        }
        i += 1;
    }
    assert(env@.outputs.len() == env.outputs.len());
    assert(all_generated_view(all@) =~= all_compiled(env@)->Ok_0);
    Ok(all)
}

} // verus!
