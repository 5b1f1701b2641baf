//! The function instance actor's lifecycle state machine. All requests for
//! one instance reach the machine through a single ordered queue, so the
//! transitions below are the whole story: `step` says, for every state and
//! request, the next state and the single observable action; `apply_boot_result`
//! finishes a boot attempt once the remote identity check has come back.

use vstd::prelude::*;

verus! {

/// What a boot request carries: where the host-side endpoint lives.
#[derive(Clone, Debug, PartialEq)]
pub struct BootData {
    pub guest_api_host_endpoint: String,
}

/// What an init request carries: the initialization payload and a resumed
/// state snapshot.
#[derive(Clone, Debug, PartialEq)]
pub struct FunctionInstanceInit {
    pub init_payload: String,
    pub serialized_state: Vec<u8>,
}

/// An event handed to the instance: who sent it and the message text.
#[derive(Clone, Debug, PartialEq)]
pub struct InputEventData {
    pub src: crate::invocation::InstanceId,
    pub msg: String,
}

/// The reply to a call: a payload on success, or an error discriminant.
#[derive(Clone, Debug, PartialEq)]
pub enum CallReturn {
    Reply(String),
    Error,
}

/// A lifecycle or invocation request submitted to one instance's queue.
#[derive(Clone, Debug, PartialEq)]
pub enum ContainerFunctionRequest {
    Boot(BootData),
    Init(FunctionInstanceInit),
    Cast(InputEventData),
    Call(InputEventData),
    Stop,
}

/// The lifecycle states. `Error` is absorbing: it is entered only on a failed
/// boot and never left.
#[derive(Clone, Copy, Debug, PartialEq, Eq, Structural)]
pub enum FiniteStateMachine {
    PreBoot,
    Booted,
    Initialized,
    Stopped,
    Error,
}

/// The single observable action a step takes.
///
/// - `Rejected`: the request was invalid in the current state; it is logged
///   and dropped, and nothing reaches the guest.
/// - `Connect`: a boot attempt must connect to the given endpoint and verify
///   the instance's identity; `apply_boot_result` consumes the outcome.
/// - `Accepted`: the request was applied with no outward effect.
/// - `Deliver`: a fire-and-forget event goes to the guest.
/// - `Reply`: the answer owed to a call; every call gets exactly one.
#[derive(Clone, Debug, PartialEq)]
pub enum StepAction {
    Rejected,
    Connect(String),
    Accepted,
    Deliver(InputEventData),
    Reply(CallReturn),
}

/// The transition relation: next state and observable action for every state
/// and request.
///
/// - `Boot` is valid only in `PreBoot`; it starts a connection attempt and
///   leaves the state unchanged until the outcome is applied.
/// - `Init` is valid only in `Booted` and moves to `Initialized`.
/// - `Cast` is valid only in `Initialized`: the event is delivered, no state
///   change.
/// - `Call` always answers: the payload is echoed back in `Initialized`, and
///   the error discriminant is returned in every other state.
/// - `Stop` is valid only in `Initialized` and moves to `Stopped`.
/// - Every invalid request is rejected with the state unchanged.
pub open spec fn spec_step(s: FiniteStateMachine, r: ContainerFunctionRequest) -> (
    FiniteStateMachine,
    StepAction,
) {
    match r {
        ContainerFunctionRequest::Boot(boot_data) => match s {
            FiniteStateMachine::PreBoot => (
                FiniteStateMachine::PreBoot,
                StepAction::Connect(boot_data.guest_api_host_endpoint),
            ),
            _ => (s, StepAction::Rejected),
        },
        ContainerFunctionRequest::Init(_) => match s {
            FiniteStateMachine::Booted => (FiniteStateMachine::Initialized, StepAction::Accepted),
            _ => (s, StepAction::Rejected),
        },
        ContainerFunctionRequest::Cast(ev) => match s {
            FiniteStateMachine::Initialized => (
                FiniteStateMachine::Initialized,
                StepAction::Deliver(ev),
            ),
            _ => (s, StepAction::Rejected),
        },
        ContainerFunctionRequest::Call(ev) => match s {
            FiniteStateMachine::Initialized => (
                FiniteStateMachine::Initialized,
                StepAction::Reply(CallReturn::Reply(ev.msg)),
            ),
            _ => (s, StepAction::Reply(CallReturn::Error)),
        },
        ContainerFunctionRequest::Stop => match s {
            FiniteStateMachine::Initialized => (FiniteStateMachine::Stopped, StepAction::Accepted),
            _ => (s, StepAction::Rejected),
        },
    }
}

/// The outcome of a boot attempt: `Booted` when the connection and identity
/// check succeeded, the absorbing `Error` state otherwise.
pub open spec fn spec_apply_boot_result(s: FiniteStateMachine, ok: bool) -> FiniteStateMachine {
    if ok {
        FiniteStateMachine::Booted
    } else {
        FiniteStateMachine::Error
    }
}

/// Takes one request in the given state.
pub fn step(s: FiniteStateMachine, r: ContainerFunctionRequest) -> (out: (
    FiniteStateMachine,
    StepAction,
))
    ensures
        out == spec_step(s, r),
{
    match r {
        ContainerFunctionRequest::Boot(boot_data) => match s {
            FiniteStateMachine::PreBoot => (
                FiniteStateMachine::PreBoot,
                StepAction::Connect(boot_data.guest_api_host_endpoint),
            ),
            _ => (s, StepAction::Rejected),
        },
        ContainerFunctionRequest::Init(_) => match s {
            FiniteStateMachine::Booted => (FiniteStateMachine::Initialized, StepAction::Accepted),
            _ => (s, StepAction::Rejected),
        },
        ContainerFunctionRequest::Cast(ev) => match s {
            FiniteStateMachine::Initialized => (
                FiniteStateMachine::Initialized,
                StepAction::Deliver(ev),
            ),
            _ => (s, StepAction::Rejected),
        },
        ContainerFunctionRequest::Call(ev) => match s {
            FiniteStateMachine::Initialized => (
                FiniteStateMachine::Initialized,
                StepAction::Reply(CallReturn::Reply(ev.msg)),
            ),
            _ => (s, StepAction::Reply(CallReturn::Error)),
        },
        ContainerFunctionRequest::Stop => match s {
            FiniteStateMachine::Initialized => (FiniteStateMachine::Stopped, StepAction::Accepted),
            _ => (s, StepAction::Rejected),
        },
    }
}

/// Applies the outcome of the boot attempt that a `Connect` action started.
pub fn apply_boot_result(s: FiniteStateMachine, ok: bool) -> (out: FiniteStateMachine)
    requires
        s is PreBoot,
    ensures
        out == spec_apply_boot_result(s, ok),
{
    if ok {
        FiniteStateMachine::Booted
    } else {
        FiniteStateMachine::Error
    }
}

/// Runs a whole submission sequence from a starting state: the final state and
/// the actions, one per request, in submission order.
pub open spec fn spec_run(s: FiniteStateMachine, reqs: Seq<ContainerFunctionRequest>) -> (
    FiniteStateMachine,
    Seq<StepAction>,
)
    decreases reqs.len(),
{
    if reqs.len() == 0 {
        (s, Seq::empty())
    } else {
        let first = spec_step(s, reqs[0]);
        let rest = spec_run(first.0, reqs.drop_first());
        (rest.0, seq![first.1] + rest.1)
    }
}

/// Requests submitted before `Init` do not reach the guest: in any state but
/// `Initialized`, a cast is rejected with the state unchanged, and a call
/// leaves the state unchanged and answers only the error discriminant.
pub proof fn lemma_rejected_before_init(s: FiniteStateMachine, ev: InputEventData)
    requires
        !(s is Initialized),
    ensures
        spec_step(s, ContainerFunctionRequest::Cast(ev)) == (s, StepAction::Rejected),
        spec_step(s, ContainerFunctionRequest::Call(ev)) == (
            s,
            StepAction::Reply(CallReturn::Error),
        ),
{
}

/// Exactly one reply per call: a step answers with a reply if and only if the
/// request was a call, so over any submission sequence the replies are in
/// one-to-one correspondence with the calls.
pub proof fn lemma_exactly_one_reply(s: FiniteStateMachine, r: ContainerFunctionRequest)
    ensures
        (spec_step(s, r).1 is Reply) <==> (r is Call),
{
}

/// Over a whole run, the replies are exactly the answers to the calls: the
/// `i`-th action is a reply if and only if the `i`-th request was a call —
/// never zero replies for a call, never a second one.
pub proof fn lemma_replies_match_calls(s: FiniteStateMachine, reqs: Seq<ContainerFunctionRequest>)
    ensures
        spec_run(s, reqs).1.len() == reqs.len(),
        forall|i: int|
            0 <= i < reqs.len() ==> ((spec_run(s, reqs).1[i] is Reply) <==> (reqs[i] is Call)),
{
    lemma_fifo_order(s, reqs);
    assert forall|i: int|
        0 <= i < reqs.len() implies ((spec_run(s, reqs).1[i] is Reply) <==> (
    reqs[i] is Call)) by {
        lemma_exactly_one_reply(spec_run(s, reqs.take(i)).0, reqs[i]);
    }
}

/// First-in first-out: a run yields one action per request, and the `i`-th
/// action is exactly the action of the `i`-th request taken in the state the
/// earlier requests produced — observable effects happen in submission order.
pub proof fn lemma_fifo_order(s: FiniteStateMachine, reqs: Seq<ContainerFunctionRequest>)
    ensures
        spec_run(s, reqs).1.len() == reqs.len(),
        forall|i: int|
            0 <= i < reqs.len() ==> spec_run(s, reqs).1[i] == spec_step(
                spec_run(s, reqs.take(i)).0,
                reqs[i],
            ).1,
    decreases reqs.len(),
{
    if reqs.len() > 0 {
        let first = spec_step(s, reqs[0]);
        lemma_fifo_order(first.0, reqs.drop_first());
        assert forall|i: int|
            0 <= i < reqs.len() implies spec_run(s, reqs).1[i] == spec_step(
            spec_run(s, reqs.take(i)).0,
            reqs[i],
        ).1 by {
            if i == 0 {
                assert(reqs.take(0) =~= Seq::empty());
            } else {
                let rest = reqs.drop_first();
                assert(rest.take(i - 1) =~= reqs.take(i).drop_first());
                assert(reqs.take(i)[0] == reqs[0]);
                assert(spec_run(s, reqs.take(i)).0 == spec_run(first.0, rest.take(i - 1)).0);
                assert(spec_run(s, reqs).1[i] == spec_run(first.0, rest).1[i - 1]);
                assert(rest[i - 1] == reqs[i]);
            }
        }
    }
}

/// A failed boot is terminal: the identity-check failure moves the machine to
/// `Error`, and in `Error` every request is a no-op — the state never changes
/// and nothing is delivered or connected; calls still get their error reply.
pub proof fn lemma_boot_failure_is_absorbing(r: ContainerFunctionRequest)
    ensures
        spec_apply_boot_result(FiniteStateMachine::PreBoot, false) == FiniteStateMachine::Error,
        spec_step(FiniteStateMachine::Error, r).0 == FiniteStateMachine::Error,
        spec_step(FiniteStateMachine::Error, r).1 == StepAction::Rejected || spec_step(
            FiniteStateMachine::Error,
            r,
        ).1 == StepAction::Reply(CallReturn::Error),
{
}

/// A whole run from `Error` stays in `Error`.
pub proof fn lemma_error_run(reqs: Seq<ContainerFunctionRequest>)
    ensures
        spec_run(FiniteStateMachine::Error, reqs).0 == FiniteStateMachine::Error,
    decreases reqs.len(),
{
    if reqs.len() > 0 {
        lemma_error_run(reqs.drop_first());
    }
}

} // verus!
