//! Rules that say how the include lines of a module are written.

use crate::ir::Module;
use crate::text::{join, joined, push_text, strings_view};
use vstd::prelude::*;

verus! {

/// The operations supported for building the includes.
#[derive(Clone, Debug, PartialEq)]
pub enum IncludeOps {
    /// Writes the given text.
    Concat { value: String },
    /// Writes the name of the file that is included.
    IncludeName,
}

/// Rules for building includes.
#[derive(Clone, Debug, PartialEq)]
pub struct IncludeRules {
    pub ops: Vec<IncludeOps>,
}

/// What one operation writes for the file `file`.
pub open spec fn op_text(op: IncludeOps, file: Seq<char>) -> Seq<char> {
    match op {
        IncludeOps::Concat { value } => value@,
        IncludeOps::IncludeName => file,
    }
}

/// What the operations write for the file `file`, operation by operation.
pub open spec fn include_text(ops: Seq<IncludeOps>, file: Seq<char>) -> Seq<char> {
    joined(Seq::new(ops.len(), |i: int| op_text(ops[i], file)), ""@)
}

/// What the operations write for each of the files, file by file.
pub open spec fn includes_text(ops: Seq<IncludeOps>, includes: Seq<Seq<char>>) -> Seq<char> {
    joined(Seq::new(includes.len(), |i: int| include_text(ops, includes[i])), ""@)
}

impl IncludeRules {
    /// What the operations write for one included file.
    pub fn compile_include(&self, file: &str) -> (r: String)
        ensures
            r@ == include_text(self.ops@, file@),
    {
        let ghost wanted = Seq::new(self.ops@.len(), |i: int| op_text(self.ops@[i], file@));
        let mut pieces: Vec<String> = Vec::new();
        assert(strings_view(pieces@) =~= wanted.take(0));
        let mut i: usize = 0;
        while i < self.ops.len()
            invariant
                i <= self.ops.len(),
                wanted == Seq::new(self.ops@.len(), |i: int| op_text(self.ops@[i], file@)),
                strings_view(pieces@) == wanted.take(i as int),
            decreases self.ops.len() - i,
        {
            let piece = match &self.ops[i] {
                IncludeOps::Concat { value } => value.clone(),
                IncludeOps::IncludeName => String::from_str(file),
            };
            push_text(&mut pieces, piece);
            assert(strings_view(pieces@) =~= wanted.take(i + 1));
            i += 1;
        }
        assert(wanted.take(self.ops.len() as int) =~= wanted);
        join(&pieces, "")
    }

    /// Compiles the given module's includes.
    pub fn compile(&self, module: &Module) -> (r: String)
        ensures
            r@ == includes_text(self.ops@, strings_view(module.includes@)),
    {
        let ghost files = strings_view(module.includes@);
        let ghost wanted = Seq::new(files.len(), |i: int| include_text(self.ops@, files[i]));
        let mut pieces: Vec<String> = Vec::new();
        assert(strings_view(pieces@) =~= wanted.take(0));
        let mut i: usize = 0;
        while i < module.includes.len()
            invariant
                i <= module.includes.len(),
                files == strings_view(module.includes@),
                wanted == Seq::new(files.len(), |i: int| include_text(self.ops@, files[i])),
                strings_view(pieces@) == wanted.take(i as int),
            decreases module.includes.len() - i,
        {
            let piece = self.compile_include(module.includes[i].as_str());
            push_text(&mut pieces, piece);
            assert(strings_view(pieces@) =~= wanted.take(i + 1));
            i += 1;
        }
        assert(wanted.take(module.includes.len() as int) =~= wanted);
        join(&pieces, "")
    }
}

} // verus!
