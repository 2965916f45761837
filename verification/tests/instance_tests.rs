use bpmn_engine::execution_context::ExecutionContext;
use bpmn_engine::process::Process;
use bpmn_engine::process_instance::{FlowObjectState, ProcessInstance};
use bpmn_engine::token::{Token, TokenState};

fn token(id: &str, node: &str, state: TokenState) -> Token {
    Token {
        id: id.to_string(),
        current_node_id: node.to_string(),
        state,
        parent_token_id: None,
        child_tokens: Vec::new(),
        process_variables: Vec::new(),
    }
}

#[test]
fn test_add_token_and_get_active_tokens() {
    let mut instance = ProcessInstance::new(Process::new());
    instance.add_token(token("a", "n1", TokenState::Active));
    instance.add_token(token("b", "n2", TokenState::Paused));
    instance.add_token(token("c", "n3", TokenState::Active));
    instance.add_token(token("d", "n4", TokenState::Completed));

    let active = instance.get_active_tokens();
    assert_eq!(active.len(), 2);
    assert_eq!(active[0].id, "a");
    assert_eq!(active[1].id, "c");
}

#[test]
fn test_update_task_state_replaces_earlier_entry() {
    let mut instance = ProcessInstance::new(Process::new());
    instance.update_task_state("task7", FlowObjectState::Ready);
    instance.update_task_state("task8", FlowObjectState::Active);
    instance.update_task_state("task7", FlowObjectState::Completed);

    let entries: Vec<(String, FlowObjectState)> = instance.flow_object_states.clone();
    assert_eq!(entries.len(), 2);
    assert_eq!(entries[0], ("task8".to_string(), FlowObjectState::Active));
    assert_eq!(entries[1], ("task7".to_string(), FlowObjectState::Completed));
}

#[test]
fn test_execution_context_move_token() {
    let mut context = ExecutionContext {
        token: token("t", "here", TokenState::Active),
        variables: vec![("k".to_string(), "v".to_string())],
    };
    context.move_token("there");
    assert_eq!(context.token.current_node_id, "there");
    assert_eq!(context.token.id, "t");
    assert_eq!(context.variables, vec![("k".to_string(), "v".to_string())]);
}
