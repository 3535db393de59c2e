//! The output of the generators and the assembler that puts it together.

use crate::text::{concatenate, concatenated, texts};
use vstd::prelude::*;

verus! {

/// The four generation strategies.
#[derive(Debug, Clone, Copy, PartialEq, Eq, Structural)]
pub enum GeneratorKind {
    /// The constructor factory.
    Factory,
    /// The fluent builder.
    Builder,
    /// The accessor pair of each field and the full constructor.
    Accessor,
    /// The query operation.
    Query,
}

impl GeneratorKind {
    /// The generator's name, for diagnostics.
    pub open spec fn name_of(self) -> Seq<char> {
        match self {
            GeneratorKind::Factory => "factory"@,
            GeneratorKind::Builder => "builder"@,
            GeneratorKind::Accessor => "accessor"@,
            GeneratorKind::Query => "query"@,
        }
    }

    /// The generator's name, for diagnostics.
    pub fn name(&self) -> (r: String)
        ensures
            r@ == self.name_of(),
    {
        match self {
            GeneratorKind::Factory => String::from_str("factory"),
            GeneratorKind::Builder => String::from_str("builder"),
            GeneratorKind::Accessor => String::from_str("accessor"),
            GeneratorKind::Query => String::from_str("query"),
        }
    }
}

/// What one run of one generator emitted.
#[derive(Debug, PartialEq, Eq)]
pub struct Artifact {
    /// The generator that emitted it.
    pub generator: GeneratorKind,
    /// The emitted source text; empty where the generator had nothing to emit.
    pub text: String,
}

/// The mathematical content of an [`Artifact`].
pub struct ArtifactView {
    pub generator: GeneratorKind,
    pub text: Seq<char>,
}

impl View for Artifact {
    type V = ArtifactView;

    open spec fn view(&self) -> ArtifactView {
        ArtifactView { generator: self.generator, text: self.text@ }
    }
}

/// The texts of a list of artifacts, in order.
pub open spec fn artifact_texts(artifacts: Seq<Artifact>) -> Seq<Seq<char>> {
    artifacts.map_values(|a: Artifact| a.text@)
}

/// The emission assembler: the texts of the artifacts, one after another in
/// the order in which the generators were asked for.
pub fn assemble(artifacts: Vec<Artifact>) -> (r: String)
    ensures
        r@ == concatenated(artifact_texts(artifacts@)),
{
    let mut artifacts = artifacts;
    let ghost given = artifact_texts(artifacts@);
    let mut pieces: Vec<String> = Vec::new();
    let mut i: usize = 0;
    while i < artifacts.len()
        invariant
            i <= artifacts.len(),
            artifacts.len() == given.len(),
            pieces.len() == i,
            forall|k: int| 0 <= k < i ==> (#[trigger] pieces@[k])@ == given[k],
            forall|k: int| i <= k < artifacts.len() ==> (#[trigger] artifacts@[k]).text@ == given[k],
        decreases artifacts.len() - i,
    {
        let mut piece = String::new();
        std::mem::swap(&mut artifacts[i].text, &mut piece);
        pieces.push(piece);
        i = i + 1;
    }
    assert(texts(pieces@) =~= given);
    concatenate(&pieces)
}

} // verus!
