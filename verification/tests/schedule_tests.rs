use stripchat_recorder::meta::PpExecCode;
use stripchat_recorder::pipeline::{NodeInputRef, NodeResult, PipelineConfig, PipelineNode};
use stripchat_recorder::schedule::{Scheduler, Step};

fn node(module: &str) -> PipelineNode {
    PipelineNode {
        module_id: module.to_string(),
        node_id: None,
        params: Vec::new(),
        enabled: true,
        inputs: vec![(0, NodeInputRef { node_id: "0".to_string(), port: 0 })],
    }
}

#[test]
fn a_missing_module_result_is_recorded_once() {
    let pipeline = PipelineConfig { version: "1".to_string(), nodes: vec![node("absent")] };
    let arity: Vec<(String, usize)> = Vec::new();
    let mut s = Scheduler::new(&pipeline, &arity, &vec!["/v/a.mp4".to_string()], Vec::new());
    let result = match s.next_step(&pipeline, &arity, false) {
        Step::MissingModule { result } => result,
        other => panic!("unexpected step {:?}", other),
    };
    assert!(s.results.is_empty());
    assert_eq!(result.code, PpExecCode::Error);
    let again = result.clone();
    assert!(s.complete(&pipeline, &arity, result));
    assert!(!s.complete(&pipeline, &arity, again));
    assert_eq!(s.results.len(), 1);
    assert!(matches!(s.next_step(&pipeline, &arity, false), Step::Finished));
}

#[test]
fn a_node_result_is_not_recorded_twice() {
    let pipeline = PipelineConfig { version: "1".to_string(), nodes: vec![node("m")] };
    let arity: Vec<(String, usize)> = vec![("m".to_string(), 1)];
    let mut s = Scheduler::new(&pipeline, &arity, &vec!["/v/a.mp4".to_string()], Vec::new());
    let id = match s.next_step(&pipeline, &arity, false) {
        Step::RunModule { effective_id, .. } => effective_id,
        other => panic!("unexpected step {:?}", other),
    };
    let r = NodeResult {
        effective_id: id,
        module_id: "m".to_string(),
        code: PpExecCode::Done,
        message: String::new(),
        outputs: Vec::new(),
        inputs: Vec::new(),
    };
    assert!(s.complete(&pipeline, &arity, r.clone()));
    assert!(!s.complete(&pipeline, &arity, r));
    assert_eq!(s.results.len(), 1);
}
