//! What the assistant may ask the processing pipeline to do: which stages run,
//! over which part of the project, and how a failed stage is reported.
use vstd::prelude::*;

verus! {

/// A stage of the page pipeline.
#[derive(Clone, Copy, Debug, PartialEq, Eq, Structural)]
pub enum Stage {
    Detection,
    Ocr,
    Translation,
    Inpainting,
}

/// Which stages one pipeline run carries out.
#[derive(Clone, Copy, Debug, PartialEq, Eq, Structural)]
pub enum Operation {
    Full,
    Only { stage: Stage },
}

/// The operation the assistant names when it asks for a pipeline run.
#[derive(Clone, Copy, Debug, PartialEq, Eq, Structural)]
pub enum AgentPipelineOperation {
    Full,
    Detection,
    Ocr,
    Translation,
    Inpainting,
}

/// The pipeline operation the assistant's request stands for.
pub open spec fn operation_of(value: AgentPipelineOperation) -> Operation {
    match value {
        AgentPipelineOperation::Full => Operation::Full,
        AgentPipelineOperation::Detection => Operation::Only { stage: Stage::Detection },
        AgentPipelineOperation::Ocr => Operation::Only { stage: Stage::Ocr },
        AgentPipelineOperation::Translation => Operation::Only { stage: Stage::Translation },
        AgentPipelineOperation::Inpainting => Operation::Only { stage: Stage::Inpainting },
    }
}

impl From<AgentPipelineOperation> for Operation {
    fn from(value: AgentPipelineOperation) -> (op: Operation) {
        match value {
            AgentPipelineOperation::Full => Operation::Full,
            AgentPipelineOperation::Detection => Operation::Only { stage: Stage::Detection },
            AgentPipelineOperation::Ocr => Operation::Only { stage: Stage::Ocr },
            AgentPipelineOperation::Translation => Operation::Only { stage: Stage::Translation },
            AgentPipelineOperation::Inpainting => Operation::Only { stage: Stage::Inpainting },
        }
    }
}

impl vstd::std_specs::convert::FromSpecImpl<AgentPipelineOperation> for Operation {
    open spec fn obeys_from_spec() -> bool {
        true
    }

    open spec fn from_spec(v: AgentPipelineOperation) -> Operation {
        operation_of(v)
    }
}

/// The part of the project a pipeline run covers.
#[derive(Clone, Debug, PartialEq, Eq)]
pub enum PipelineScope {
    Project,
    Pages(Vec<String>),
    Entities(Vec<String>),
}

/// Why a pipeline request was refused.
#[derive(Clone, Copy, Debug, PartialEq, Eq, Structural)]
pub enum ScopeError {
    PagesAndElements,
}

impl ScopeError {
    /// The message shown for the error.
    pub fn message(&self) -> (m: String)
        ensures
            m@ == "pipeline scope cannot contain both pages and elements"@,
    {
        "pipeline scope cannot contain both pages and elements".to_owned()
    }
}

/// The assistant's request for a pipeline run: the operation, and the page or
/// element IDs it is limited to (none for the whole project).
#[derive(Clone, Debug, PartialEq, Eq)]
pub struct RunPipeline {
    pub operation: AgentPipelineOperation,
    pub pages: Vec<String>,
    pub elements: Vec<String>,
}

fn copy_strings(values: &Vec<String>) -> (out: Vec<String>)
    ensures
        out@.len() == values@.len(),
        forall|i: int| 0 <= i < values@.len() ==> #[trigger] out@[i]@ == values@[i]@,
{
    let mut out: Vec<String> = Vec::new();
    let mut i: usize = 0;
    while i < values.len()
        invariant
            i <= values@.len(),
            out@.len() == i,
            forall|k: int| 0 <= k < i ==> #[trigger] out@[k]@ == values@[k]@,
        decreases values.len() - i,
    {
        out.push(values[i].clone());
        i = i + 1;
    }
    out
}

/// The IDs are the same strings, in order.
pub open spec fn same_ids(a: Seq<String>, b: Seq<String>) -> bool {
    a.len() == b.len() && forall|i: int| 0 <= i < a.len() ==> #[trigger] a[i]@ == b[i]@
}

impl RunPipeline {
    /// The part of the project the run covers: the whole project when it names
    /// neither pages nor elements, the pages or the elements it names, and an
    /// error when it names both.
    pub fn scope(&self) -> (r: Result<PipelineScope, ScopeError>)
        ensures
            (self.pages@.len() == 0 && self.elements@.len() == 0) ==> r
                == Ok::<PipelineScope, ScopeError>(PipelineScope::Project),
            (self.pages@.len() > 0 && self.elements@.len() == 0) ==> (r matches Ok(
                PipelineScope::Pages(p),
            ) && same_ids(p@, self.pages@)),
            (self.pages@.len() == 0 && self.elements@.len() > 0) ==> (r matches Ok(
                PipelineScope::Entities(e),
            ) && same_ids(e@, self.elements@)),
            (self.pages@.len() > 0 && self.elements@.len() > 0) ==> r == Err::<
                PipelineScope,
                ScopeError,
            >(ScopeError::PagesAndElements),
    {
        let no_pages = self.pages.len() == 0;
        let no_elements = self.elements.len() == 0;
        if no_pages && no_elements {
            Ok(PipelineScope::Project)
        } else if !no_pages && no_elements {
            Ok(PipelineScope::Pages(copy_strings(&self.pages)))
        } else if no_pages && !no_elements {
            Ok(PipelineScope::Entities(copy_strings(&self.elements)))
        } else {
            Err(ScopeError::PagesAndElements)
        }
    }
}

/// What went wrong in a stage.
#[derive(Clone, Copy, Debug, PartialEq, Eq, Structural)]
pub enum ErrorKind {
    ModelLoad,
    Processing,
}

/// The context a failed stage is reported with: `failed to load <model>` when
/// its model did not load, `<model> failed` otherwise.
pub fn stage_error_message(kind: ErrorKind, model: &str) -> (m: String)
    ensures
        kind is ModelLoad ==> m@ == "failed to load "@ + model@,
        kind is Processing ==> m@ == model@ + " failed"@,
{
    match kind {
        ErrorKind::ModelLoad => {
            let mut m = "failed to load ".to_owned();
            m.append(model);
            m
        },
        ErrorKind::Processing => {
            let mut m = model.to_owned();
            m.append(" failed");
            m
        },
    }
}

} // verus!
