//! The backend that renders a technique as JSON text.

use crate::command::{CommandResult, CommandResultView};
use crate::error::{GenerationError, GenerationErrorView};
use crate::format::Format;
use crate::generator::Generator;
use crate::technique::tree::lemma_json_fault_none;
use crate::technique::{view_source, Technique, TechniqueView};
use vstd::prelude::*;
use vstd::string::StringExecFns;

verus! {

/// The JSON backend.
#[derive(Clone, Copy, Debug, Default)]
pub struct JSON;

impl JSON {
    /// The source reference that the metadata object holds, where the
    /// artifact is to hold one.
    pub open spec fn metadata(source: Seq<char>, embed_metadata: bool) -> Option<Seq<char>> {
        if embed_metadata {
            Some(source)
        } else {
            None
        }
    }
}

impl Generator for JSON {
    open spec fn produces(&self) -> Format {
        Format::JSON
    }

    /// One result: the compact text of the technique's tree, with the
    /// destination that the caller gave. Where a parameter holds a number
    /// that is not finite, the fault of the first such parameter.
    open spec fn output(
        &self,
        model: TechniqueView,
        source: Seq<char>,
        destination: Option<Seq<char>>,
        embed_metadata: bool,
    ) -> Result<Seq<CommandResultView>, GenerationErrorView> {
        match model.to_json(JSON::metadata(source, embed_metadata)) {
            Ok(tree) => Ok(
                seq![
                    CommandResultView {
                        format: Format::JSON,
                        destination,
                        content: Some(tree.render()),
                    },
                ],
            ),
            Err(fault) => Err(GenerationErrorView { format: Format::JSON, source, fault }),
        }
    }

    fn format(&self) -> (r: Format) {
        Format::JSON
    }

    fn generate(
        &self,
        model: &Technique,
        source: &str,
        destination: Option<&str>,
        embed_metadata: bool,
    ) -> (r: Result<Vec<CommandResult>, GenerationError>) {
        let metadata = if embed_metadata {
            Some(source)
        } else {
            None
        };
        assert(view_source(metadata) == JSON::metadata(source@, embed_metadata));
        match model.to_json(metadata) {
            Ok(tree) => {
                let target = match destination {
                    Some(path) => Some(String::from_str(path)),
                    None => None,
                };
                let mut results: Vec<CommandResult> = Vec::new();
                results.push(CommandResult::new(Format::JSON, target, Some(tree.to_text())));
                proof {
                    assert(results@.map_values(|r: CommandResult| r@) =~= seq![
                        CommandResultView {
                            format: Format::JSON,
                            destination: view_source(destination),
                            content: Some(tree@.render()),
                        },
                    ]);
                }
                Ok(results)
            },
            Err(fault) => Err(GenerationError::new(Format::JSON, source, fault)),
        }
    }
}

/// The JSON backend fails exactly when the value of some parameter holds
/// a number that is not finite, and then with the fault of a value that cannot
/// be represented. Otherwise it returns exactly one result: its format is
/// JSON, its destination the one that the caller gave, and its text the
/// compact text of the technique's tree, with the metadata object exactly when
/// the flag is set.
pub proof fn lemma_json_output(
    model: TechniqueView,
    source: Seq<char>,
    destination: Option<Seq<char>>,
    embed_metadata: bool,
)
    ensures
        JSON.output(model, source, destination, embed_metadata) is Err <==> exists|
            i: int,
            k: int,
        |
            0 <= i < model.calls.len() && 0 <= k < model.calls[i].parameters.len() && !(
            #[trigger] model.calls[i].parameters[k]).value.finite(),
        JSON.output(model, source, destination, embed_metadata) matches Err(e) ==> e.format
            == Format::JSON && e.source == source && e.fault is Unrepresentable,
        JSON.output(model, source, destination, embed_metadata) matches Ok(results) ==> {
            &&& results.len() == 1
            &&& results[0].format == Format::JSON
            &&& results[0].destination == destination
            &&& results[0].content == Some(
                model.json(JSON::metadata(source, embed_metadata)).render(),
            )
        },
{
    lemma_json_fault_none(model, model.calls.len() as int);
}

} // verus!
