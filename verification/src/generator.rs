//! The contract that every backend meets.

use crate::command::{CommandResult, CommandResultView};
use crate::error::{GenerationError, GenerationErrorView};
use crate::format::Format;
use crate::technique::{view_source, Technique, TechniqueView};
use vstd::prelude::*;

pub mod json;

verus! {

/// The model of what a generation returned.
pub open spec fn view_outcome(outcome: Result<Vec<CommandResult>, GenerationError>) -> Result<
    Seq<CommandResultView>,
    GenerationErrorView,
> {
    match outcome {
        Ok(results) => Ok(results@.map_values(|r: CommandResult| r@)),
        Err(e) => Err(e@),
    }
}

/// A backend: it renders a technique model into the artifacts of one
/// format.
///
/// What a backend returns is a function of the backend and of the arguments
/// of the call, named by `output`: a backend keeps no state between calls and
/// takes nothing from a clock or from chance.
pub trait Generator {
    /// The format that the backend produces. A backend states it by
    /// giving this function a body of its own; the default leaves it
    /// unstated.
    open spec fn produces(&self) -> Format {
        arbitrary()
    }

    /// What the backend returns for these arguments. A backend states it
    /// by giving this function a body of its own; the default leaves it
    /// unstated.
    open spec fn output(
        &self,
        model: TechniqueView,
        source: Seq<char>,
        destination: Option<Seq<char>>,
        embed_metadata: bool,
    ) -> Result<Seq<CommandResultView>, GenerationErrorView> {
        arbitrary()
    }

    /// The format that the backend produces.
    fn format(&self) -> (r: Format)
        ensures
            r == self.produces(),
    ;

    /// Renders the model. `source` says which input the technique came
    /// from, `destination` where the caller means the artifact to go, and
    /// `embed_metadata` whether the artifact is to hold the metadata of the
    /// build. The destination is a hint: a backend returns no result, one, or
    /// several. Every result bears the backend's format; an error bears the
    /// backend's format and the source reference. The model is not changed.
    fn generate(
        &self,
        model: &Technique,
        source: &str,
        destination: Option<&str>,
        embed_metadata: bool,
    ) -> (r: Result<Vec<CommandResult>, GenerationError>)
        ensures
            view_outcome(r) == self.output(
                model@,
                source@,
                view_source(destination),
                embed_metadata,
            ),
            r matches Ok(results) ==> forall|i: int|
                0 <= i < results@.len() ==> (#[trigger] results@[i])@.format == self.produces(),
            r matches Err(e) ==> e@.format == self.produces() && e@.source == source@,
    ;
}

/// What a backend returns is fixed by its arguments: two generations by
/// one backend, on the same model, with the same source reference,
/// destination and flag, return the same. Either both return results, equal
/// in number and one by one in format, destination and text, or both return
/// the same error.
pub proof fn lemma_generate_deterministic<G: Generator>(
    backend: G,
    model: TechniqueView,
    source: Seq<char>,
    destination: Option<Seq<char>>,
    embed_metadata: bool,
    first: Result<Vec<CommandResult>, GenerationError>,
    second: Result<Vec<CommandResult>, GenerationError>,
)
    requires
        view_outcome(first) == backend.output(model, source, destination, embed_metadata),
        view_outcome(second) == backend.output(model, source, destination, embed_metadata),
    ensures
        view_outcome(first) == view_outcome(second),
        first is Ok <==> second is Ok,
        first is Ok ==> first->Ok_0@.len() == second->Ok_0@.len(),
        first is Ok ==> forall|i: int|
            0 <= i < first->Ok_0@.len() ==> (#[trigger] first->Ok_0@[i])@ == second->Ok_0@[i]@,
        first is Err ==> first->Err_0@ == second->Err_0@,
{
    if first is Ok {
        let a = first->Ok_0@.map_values(|r: CommandResult| r@);
        let b = second->Ok_0@.map_values(|r: CommandResult| r@);
        assert(a == b);
        assert(a.len() == first->Ok_0@.len());
        assert(b.len() == second->Ok_0@.len());
        assert forall|i: int| 0 <= i < first->Ok_0@.len() implies (#[trigger] first->Ok_0@[i])@
            == second->Ok_0@[i]@ by {
            assert(a[i] == first->Ok_0@[i]@);
            assert(b[i] == second->Ok_0@[i]@);
        }
    }
}

} // verus!
