use edgeless_core::container_function::{
    apply_boot_result, step, BootData, CallReturn, ContainerFunctionRequest, FiniteStateMachine,
    FunctionInstanceInit, InputEventData, StepAction,
};
use edgeless_core::invocation::InstanceId;

fn event(msg: &str) -> InputEventData {
    InputEventData {
        src: InstanceId { node_id: [1u8; 16], function_id: [2u8; 16] },
        msg: msg.to_string(),
    }
}

fn boot() -> ContainerFunctionRequest {
    ContainerFunctionRequest::Boot(BootData { guest_api_host_endpoint: "host:7011".to_string() })
}

fn init() -> ContainerFunctionRequest {
    ContainerFunctionRequest::Init(FunctionInstanceInit {
        init_payload: "payload".to_string(),
        serialized_state: Vec::new(),
    })
}

#[test]
fn cast_and_call_before_init_are_no_ops() {
    for state in [FiniteStateMachine::PreBoot, FiniteStateMachine::Booted] {
        let (s, action) = step(state, ContainerFunctionRequest::Cast(event("x")));
        assert_eq!(s, state);
        assert_eq!(action, StepAction::Rejected);
        let (s, action) = step(state, ContainerFunctionRequest::Call(event("x")));
        assert_eq!(s, state);
        assert_eq!(action, StepAction::Reply(CallReturn::Error));
    }
}

#[test]
fn every_call_gets_exactly_one_reply() {
    for state in [
        FiniteStateMachine::PreBoot,
        FiniteStateMachine::Booted,
        FiniteStateMachine::Initialized,
        FiniteStateMachine::Stopped,
        FiniteStateMachine::Error,
    ] {
        let (_, action) = step(state, ContainerFunctionRequest::Call(event("ping")));
        assert!(matches!(action, StepAction::Reply(_)));
        // No other request kind ever answers with a reply.
        let (_, action) = step(state, ContainerFunctionRequest::Cast(event("ping")));
        assert!(!matches!(action, StepAction::Reply(_)));
        let (_, action) = step(state, ContainerFunctionRequest::Stop);
        assert!(!matches!(action, StepAction::Reply(_)));
    }
}

#[test]
fn call_in_initialized_echoes_the_payload() {
    let (s, action) = step(FiniteStateMachine::Initialized, ContainerFunctionRequest::Call(
        event("echo me"),
    ));
    assert_eq!(s, FiniteStateMachine::Initialized);
    assert_eq!(action, StepAction::Reply(CallReturn::Reply("echo me".to_string())));
}

#[test]
fn lifecycle_happy_path_in_submission_order() {
    // Requests processed one by one, in submission order; each action is the
    // effect of its request in the state the earlier requests produced.
    let mut state = FiniteStateMachine::PreBoot;
    let mut actions: Vec<StepAction> = Vec::new();

    let (s, a) = step(state, boot());
    state = s;
    actions.push(a);
    assert_eq!(state, FiniteStateMachine::PreBoot);
    state = apply_boot_result(state, true);
    assert_eq!(state, FiniteStateMachine::Booted);

    for req in [
        init(),
        ContainerFunctionRequest::Cast(event("first")),
        ContainerFunctionRequest::Call(event("second")),
        ContainerFunctionRequest::Stop,
    ] {
        let (s, a) = step(state, req);
        state = s;
        actions.push(a);
    }
    assert_eq!(state, FiniteStateMachine::Stopped);
    assert_eq!(
        actions,
        vec![
            StepAction::Connect("host:7011".to_string()),
            StepAction::Accepted,
            StepAction::Deliver(event("first")),
            StepAction::Reply(CallReturn::Reply("second".to_string())),
            StepAction::Accepted,
        ]
    );
}

#[test]
fn boot_outside_preboot_is_rejected() {
    for state in [
        FiniteStateMachine::Booted,
        FiniteStateMachine::Initialized,
        FiniteStateMachine::Stopped,
        FiniteStateMachine::Error,
    ] {
        let (s, action) = step(state, boot());
        assert_eq!(s, state);
        assert_eq!(action, StepAction::Rejected);
    }
}

#[test]
fn failed_boot_is_terminal() {
    let state = apply_boot_result(FiniteStateMachine::PreBoot, false);
    assert_eq!(state, FiniteStateMachine::Error);
    for req in [
        boot(),
        init(),
        ContainerFunctionRequest::Cast(event("x")),
        ContainerFunctionRequest::Stop,
    ] {
        let (s, action) = step(state, req);
        assert_eq!(s, FiniteStateMachine::Error);
        assert!(action == StepAction::Rejected);
    }
    let (s, action) = step(state, ContainerFunctionRequest::Call(event("x")));
    assert_eq!(s, FiniteStateMachine::Error);
    assert_eq!(action, StepAction::Reply(CallReturn::Error));
}

#[test]
fn stop_only_from_initialized() {
    let (s, a) = step(FiniteStateMachine::Initialized, ContainerFunctionRequest::Stop);
    assert_eq!(s, FiniteStateMachine::Stopped);
    assert_eq!(a, StepAction::Accepted);
    let (s, a) = step(FiniteStateMachine::Stopped, ContainerFunctionRequest::Stop);
    assert_eq!(s, FiniteStateMachine::Stopped);
    assert_eq!(a, StepAction::Rejected);
}
