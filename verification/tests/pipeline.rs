use koharu::pipeline::{
    stage_error_message, AgentPipelineOperation, ErrorKind, Operation, PipelineScope,
    RunPipeline, ScopeError, Stage,
};

fn request(pages: &[&str], elements: &[&str]) -> RunPipeline {
    RunPipeline {
        operation: AgentPipelineOperation::Full,
        pages: pages.iter().map(|p| p.to_string()).collect(),
        elements: elements.iter().map(|e| e.to_string()).collect(),
    }
}

#[test]
fn pipeline_scope_follows_the_named_ids() {
    assert_eq!(request(&[], &[]).scope(), Ok(PipelineScope::Project));
    assert_eq!(
        request(&["p1", "p2"], &[]).scope(),
        Ok(PipelineScope::Pages(vec!["p1".to_owned(), "p2".to_owned()]))
    );
    assert_eq!(
        request(&[], &["e1"]).scope(),
        Ok(PipelineScope::Entities(vec!["e1".to_owned()]))
    );
    assert_eq!(
        request(&["p1"], &["e1"]).scope(),
        Err(ScopeError::PagesAndElements)
    );
    assert_eq!(
        ScopeError::PagesAndElements.message(),
        "pipeline scope cannot contain both pages and elements"
    );
}

#[test]
fn agent_operations_map_to_pipeline_operations() {
    assert_eq!(Operation::from(AgentPipelineOperation::Full), Operation::Full);
    assert_eq!(
        Operation::from(AgentPipelineOperation::Ocr),
        Operation::Only { stage: Stage::Ocr }
    );
    assert_eq!(
        Operation::from(AgentPipelineOperation::Inpainting),
        Operation::Only {
            stage: Stage::Inpainting
        }
    );
}

#[test]
fn failed_stages_name_their_model() {
    assert_eq!(
        stage_error_message(ErrorKind::ModelLoad, "lama"),
        "failed to load lama"
    );
    assert_eq!(stage_error_message(ErrorKind::Processing, "lama"), "lama failed");
}
