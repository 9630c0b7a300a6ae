//! Proxy (placeholder) mode: the proxy answers the host itself until it is specialized,
//! then starts the child adapter once and passes the host's messages on to it.
use vstd::prelude::*;
use crate::grpc_handler::{heartbeat_reply, is_plain_reply, is_reload_reply, reload_reply, status_reply};
use crate::messages::{
    pairs_view, success, is_success, Content, FunctionMetadataResponse, InvocationRequest,
    StreamingMessage, WorkerInitRequest, WorkerInitResponse,
};
use crate::text::{str_eq, string_from};

verus! {

/// Version the proxy reports to the host.
pub const PROXY_VERSION: &'static str = "0.1.0";

/// The kinds of message from the host that the proxy tells apart.
#[derive(Debug, PartialEq, Eq, Structural, Clone, Copy)]
pub enum MessageKind {
    Init,
    Metadata,
    Reload,
    Heartbeat,
    Status,
    Terminate,
    Other,
}

/// The kind of a message.
pub open spec fn kind_of(msg: StreamingMessage) -> MessageKind {
    match msg.content {
        Some(Content::WorkerInitRequest(_)) => MessageKind::Init,
        Some(Content::FunctionsMetadataRequest(_)) => MessageKind::Metadata,
        Some(Content::FunctionEnvironmentReloadRequest(_)) => MessageKind::Reload,
        Some(Content::WorkerHeartbeat) => MessageKind::Heartbeat,
        Some(Content::WorkerStatusRequest) => MessageKind::Status,
        Some(Content::WorkerTerminate) => MessageKind::Terminate,
        _ => MessageKind::Other,
    }
}

/// The kind of a message.
pub fn message_kind(msg: &StreamingMessage) -> (k: MessageKind)
    ensures
        k == kind_of(*msg),
{
    match &msg.content {
        Some(Content::WorkerInitRequest(_)) => MessageKind::Init,
        Some(Content::FunctionsMetadataRequest(_)) => MessageKind::Metadata,
        Some(Content::FunctionEnvironmentReloadRequest(_)) => MessageKind::Reload,
        Some(Content::WorkerHeartbeat) => MessageKind::Heartbeat,
        Some(Content::WorkerStatusRequest) => MessageKind::Status,
        Some(Content::WorkerTerminate) => MessageKind::Terminate,
        _ => MessageKind::Other,
    }
}

/// What the proxy does, in order, about one message.
#[derive(Debug, PartialEq, Eq, Structural, Clone, Copy)]
pub enum ProxyAction {
    /// Answer the start request with the proxy's own capabilities.
    SendInitResponse,
    /// Answer the function listing with no functions.
    SendEmptyMetadata,
    /// Acknowledge the environment reload.
    SendReloadResponse,
    /// Echo the heartbeat.
    SendHeartbeat,
    /// Report the proxy healthy.
    SendStatus,
    /// Pass the message on to the child adapter.
    ForwardToChild,
    /// Start the child adapter.
    SpawnChild,
    /// Set the environment variables the message carries.
    ApplyEnvironment,
    /// Stop reading the host's messages.
    Stop,
}

/// Where the proxy stands.
#[derive(Debug, PartialEq, Eq, Structural, Clone, Copy)]
pub struct ProxyPhase {
    /// Waiting for specialization before starting the child.
    pub is_placeholder: bool,
    /// The child adapter runs.
    pub child_running: bool,
    /// The child adapter has been started (at most once).
    pub specialized: bool,
}

/// The child runs exactly when it has been started.
pub open spec fn phase_wf(p: ProxyPhase) -> bool {
    p.child_running == p.specialized
}

/// A message of kind `k` in phase `p` starts the child: the first start request when
/// not waiting for specialization, or the first environment reload.
pub open spec fn spawns(p: ProxyPhase, k: MessageKind) -> bool {
    ||| k == MessageKind::Init && !p.is_placeholder && !p.child_running
    ||| k == MessageKind::Reload && !p.specialized
}

/// The actions about a message of kind `k` in phase `p`.
pub open spec fn proxy_actions(p: ProxyPhase, k: MessageKind) -> Seq<ProxyAction> {
    match k {
        MessageKind::Init => if p.is_placeholder || !p.child_running {
            if !p.is_placeholder && !p.child_running {
                seq![ProxyAction::SendInitResponse, ProxyAction::SpawnChild]
            } else {
                seq![ProxyAction::SendInitResponse]
            }
        } else {
            seq![ProxyAction::ForwardToChild]
        },
        MessageKind::Metadata => if p.child_running {
            seq![ProxyAction::ForwardToChild]
        } else {
            seq![ProxyAction::SendEmptyMetadata]
        },
        MessageKind::Reload => if p.specialized {
            Seq::empty()
        } else {
            seq![ProxyAction::ApplyEnvironment, ProxyAction::SpawnChild, ProxyAction::SendReloadResponse]
        },
        MessageKind::Heartbeat => seq![ProxyAction::SendHeartbeat],
        MessageKind::Status => if p.child_running {
            seq![ProxyAction::ForwardToChild]
        } else {
            seq![ProxyAction::SendStatus]
        },
        MessageKind::Terminate => if p.child_running {
            seq![ProxyAction::ForwardToChild, ProxyAction::Stop]
        } else {
            seq![ProxyAction::Stop]
        },
        MessageKind::Other => if p.child_running {
            seq![ProxyAction::ForwardToChild]
        } else {
            Seq::empty()
        },
    }
}

/// The phase after the actions about a message of kind `k` in phase `p`: starting the
/// child makes it run and ends the placeholder wait for good.
pub open spec fn proxy_next(p: ProxyPhase, k: MessageKind) -> ProxyPhase {
    if spawns(p, k) {
        ProxyPhase { child_running: true, specialized: true, ..p }
    } else {
        p
    }
}

/// The proxy's state.
#[derive(Debug)]
pub struct ProxyState {
    pub phase: ProxyPhase,
    /// The last start request, kept to replay to the child.
    pub saved_init_request: Option<(String, WorkerInitRequest)>,
}

/// The phase the proxy starts in: waiting for specialization in placeholder mode, and
/// otherwise with the child started at once.
pub open spec fn initial_phase(is_placeholder: bool) -> ProxyPhase {
    ProxyPhase { is_placeholder, child_running: !is_placeholder, specialized: !is_placeholder }
}

/// What the proxy does when it starts, before any message: outside placeholder mode it
/// starts the child at once.
pub open spec fn initial_actions(is_placeholder: bool) -> Seq<ProxyAction> {
    if is_placeholder {
        Seq::empty()
    } else {
        seq![ProxyAction::SpawnChild]
    }
}

/// What the proxy does when it starts.
pub fn startup_actions(is_placeholder: bool) -> (actions: Vec<ProxyAction>)
    ensures
        actions@ == initial_actions(is_placeholder),
{
    let mut actions: Vec<ProxyAction> = Vec::new();
    if !is_placeholder {
        actions.push(ProxyAction::SpawnChild);
    }
    assert(actions@ =~= initial_actions(is_placeholder));
    actions
}

impl ProxyState {
    /// The state once the proxy has started: in placeholder mode no child yet; otherwise
    /// the child started by [`startup_actions`].
    pub fn new(is_placeholder: bool) -> (r: Self)
        ensures
            r.phase == initial_phase(is_placeholder),
            r.saved_init_request is None,
    {
        ProxyState {
            phase: ProxyPhase { is_placeholder, child_running: !is_placeholder, specialized: !is_placeholder },
            saved_init_request: None,
        }
    }

    /// Decide what to do about a message from the host, and move to the next phase.
    pub fn on_message(&mut self, msg: &StreamingMessage) -> (actions: Vec<ProxyAction>)
        ensures
            actions@ == proxy_actions(old(self).phase, kind_of(*msg)),
            final(self).phase == proxy_next(old(self).phase, kind_of(*msg)),
            match msg.content {
                Some(Content::WorkerInitRequest(req)) => final(self).saved_init_request matches Some(
                    (rid, saved),
                ) && rid@ == msg.request_id@ && saved.host_version@ == req.host_version@
                    && saved.function_app_directory@ == req.function_app_directory@,
                _ => final(self).saved_init_request == old(self).saved_init_request,
            },
    {
        let p = self.phase;
        let kind = message_kind(msg);
        let mut actions: Vec<ProxyAction> = Vec::new();
        match &msg.content {
            Some(Content::WorkerInitRequest(req)) => {
                self.saved_init_request = Some(
                    (
                        string_from(msg.request_id.as_str()),
                        WorkerInitRequest {
                            host_version: string_from(req.host_version.as_str()),
                            function_app_directory: string_from(req.function_app_directory.as_str()),
                        },
                    ),
                );
            },
            _ => {},
        }
        match kind {
            MessageKind::Init => {
                if p.is_placeholder || !p.child_running {
                    actions.push(ProxyAction::SendInitResponse);
                    if !p.is_placeholder && !p.child_running {
                        actions.push(ProxyAction::SpawnChild);
                    }
                } else {
                    actions.push(ProxyAction::ForwardToChild);
                }
            },
            MessageKind::Metadata => {
                if p.child_running {
                    actions.push(ProxyAction::ForwardToChild);
                } else {
                    actions.push(ProxyAction::SendEmptyMetadata);
                }
            },
            MessageKind::Reload => {
                if !p.specialized {
                    actions.push(ProxyAction::ApplyEnvironment);
                    actions.push(ProxyAction::SpawnChild);
                    actions.push(ProxyAction::SendReloadResponse);
                }
            },
            MessageKind::Heartbeat => {
                actions.push(ProxyAction::SendHeartbeat);
            },
            MessageKind::Status => {
                if p.child_running {
                    actions.push(ProxyAction::ForwardToChild);
                } else {
                    actions.push(ProxyAction::SendStatus);
                }
            },
            MessageKind::Terminate => {
                if p.child_running {
                    actions.push(ProxyAction::ForwardToChild);
                }
                actions.push(ProxyAction::Stop);
            },
            MessageKind::Other => {
                if p.child_running {
                    actions.push(ProxyAction::ForwardToChild);
                }
            },
        }
        assert(actions@ =~= proxy_actions(p, kind));
        let spawned = (kind == MessageKind::Init && !p.is_placeholder && !p.child_running) || (kind
            == MessageKind::Reload && !p.specialized);
        if spawned {
            self.phase = ProxyPhase { is_placeholder: p.is_placeholder, child_running: true, specialized: true };
        }
        actions
    }
}

/// The capabilities the proxy reports before specialization.
pub open spec fn proxy_capabilities() -> Seq<(Seq<char>, Seq<char>)> {
    seq![
        ("RpcHttpTriggerMetadataRemoved"@, "true"@),
        ("RpcHttpBodyOnly"@, "true"@),
        ("HandlesWorkerTerminateMessage"@, "true"@),
        ("WorkerStatus"@, "true"@),
    ]
}

/// `m` is the proxy's answer to the start request `request_id`.
pub open spec fn is_proxy_init_reply(m: StreamingMessage, request_id: Seq<char>) -> bool {
    &&& m.request_id@ == request_id
    &&& m.content matches Some(Content::WorkerInitResponse(r))
    &&& r.worker_version@ == PROXY_VERSION@
    &&& pairs_view(r.capabilities@) == proxy_capabilities()
    &&& is_success(r.result)
    &&& r.worker_metadata is None
}

/// The proxy's answer to a start request.
pub fn proxy_init_reply(request_id: &str) -> (m: StreamingMessage)
    ensures
        is_proxy_init_reply(m, request_id@),
{
    let mut capabilities: Vec<(String, String)> = Vec::new();
    capabilities.push((string_from("RpcHttpTriggerMetadataRemoved"), string_from("true")));
    capabilities.push((string_from("RpcHttpBodyOnly"), string_from("true")));
    capabilities.push((string_from("HandlesWorkerTerminateMessage"), string_from("true")));
    capabilities.push((string_from("WorkerStatus"), string_from("true")));
    assert(pairs_view(capabilities@) =~= proxy_capabilities());
    StreamingMessage {
        request_id: string_from(request_id),
        content: Some(
            Content::WorkerInitResponse(
                WorkerInitResponse {
                    worker_version: string_from(PROXY_VERSION),
                    capabilities,
                    result: success(),
                    worker_metadata: None,
                },
            ),
        ),
    }
}

/// `m` answers the function listing `request_id` with no functions.
pub open spec fn is_empty_metadata_reply(m: StreamingMessage, request_id: Seq<char>) -> bool {
    &&& m.request_id@ == request_id
    &&& m.content matches Some(Content::FunctionMetadataResponse(r))
    &&& r.function_metadata_results@.len() == 0
    &&& is_success(r.result)
    &&& !r.use_default_metadata_indexing
}

/// The proxy's answer to a function listing request before specialization.
pub fn empty_metadata_reply(request_id: &str) -> (m: StreamingMessage)
    ensures
        is_empty_metadata_reply(m, request_id@),
{
    StreamingMessage {
        request_id: string_from(request_id),
        content: Some(
            Content::FunctionMetadataResponse(
                FunctionMetadataResponse {
                    function_metadata_results: Vec::new(),
                    result: success(),
                    use_default_metadata_indexing: false,
                },
            ),
        ),
    }
}

/// `m` is the message the proxy sends to the host for `action` about a message with
/// id `request_id`.
pub open spec fn is_reply_for(action: ProxyAction, request_id: Seq<char>, m: StreamingMessage) -> bool {
    match action {
        ProxyAction::SendInitResponse => is_proxy_init_reply(m, request_id),
        ProxyAction::SendEmptyMetadata => is_empty_metadata_reply(m, request_id),
        ProxyAction::SendReloadResponse => is_reload_reply(m, request_id),
        ProxyAction::SendHeartbeat => is_plain_reply(m, request_id, Content::WorkerHeartbeat),
        ProxyAction::SendStatus => is_plain_reply(m, request_id, Content::WorkerStatusResponse),
        _ => false,
    }
}

/// Whether an action sends a message of the proxy's own to the host.
pub open spec fn sends_reply(action: ProxyAction) -> bool {
    ||| action == ProxyAction::SendInitResponse
    ||| action == ProxyAction::SendEmptyMetadata
    ||| action == ProxyAction::SendReloadResponse
    ||| action == ProxyAction::SendHeartbeat
    ||| action == ProxyAction::SendStatus
}

/// The message the proxy sends to the host for a sending action.
pub fn reply_for(action: ProxyAction, request_id: &str) -> (m: StreamingMessage)
    requires
        sends_reply(action),
    ensures
        is_reply_for(action, request_id@, m),
{
    match action {
        ProxyAction::SendInitResponse => proxy_init_reply(request_id),
        ProxyAction::SendEmptyMetadata => empty_metadata_reply(request_id),
        ProxyAction::SendReloadResponse => reload_reply(request_id),
        ProxyAction::SendHeartbeat => heartbeat_reply(request_id),
        _ => status_reply(request_id),
    }
}

// ---------------------------------------------------------------------------
// The child adapter
// ---------------------------------------------------------------------------

/// What the child adapter does about a message passed on by the proxy.
#[derive(Debug)]
pub enum ChildAction {
    /// Forward the invocation to the web application and send the response to the host.
    Invoke { request_id: String, request: InvocationRequest },
    /// Report the child healthy to the host.
    Send(StreamingMessage),
    /// Shut the web application down and stop.
    Stop,
    /// Nothing to do.
    Ignore,
}

/// `a` is what the child adapter does about `msg`.
pub open spec fn child_handles(msg: StreamingMessage, a: ChildAction) -> bool {
    match msg.content {
        Some(Content::InvocationRequest(req)) => a matches ChildAction::Invoke { request_id, request }
            && request_id == msg.request_id && request == req,
        Some(Content::WorkerTerminate) => a is Stop,
        Some(Content::WorkerStatusRequest) => a matches ChildAction::Send(m) && is_plain_reply(
            m,
            msg.request_id@,
            Content::WorkerStatusResponse,
        ),
        _ => a is Ignore,
    }
}

/// Decide what the child adapter does about a message.
pub fn child_step(msg: StreamingMessage) -> (a: ChildAction)
    ensures
        child_handles(msg, a),
{
    let request_id = msg.request_id;
    match msg.content {
        Some(Content::InvocationRequest(req)) => ChildAction::Invoke { request_id, request: req },
        Some(Content::WorkerTerminate) => ChildAction::Stop,
        Some(Content::WorkerStatusRequest) => ChildAction::Send(status_reply(request_id.as_str())),
        _ => ChildAction::Ignore,
    }
}

/// Placeholder mode is on when `WEBSITE_PLACEHOLDER_MODE` is exactly `1`.
pub fn placeholder_mode(value: Option<&str>) -> (r: bool)
    ensures
        r == (value matches Some(v) && v@ == "1"@),
{
    match value {
        Some(v) => str_eq(v, "1"),
        None => false,
    }
}

// ---------------------------------------------------------------------------
// Laws
// ---------------------------------------------------------------------------

/// Every step keeps a running child started, and once started the proxy stays so.
pub proof fn law_phase_invariant(p: ProxyPhase, k: MessageKind)
    requires
        phase_wf(p),
    ensures
        phase_wf(proxy_next(p, k)),
        p.specialized ==> proxy_next(p, k).specialized,
        p.child_running ==> proxy_next(p, k).child_running,
        proxy_next(p, k).is_placeholder == p.is_placeholder,
{
}

/// The child is started exactly when the actions say so, only by a proxy that has not
/// started one, so at most once over any run.
pub proof fn law_spawn_at_most_once(p: ProxyPhase, k: MessageKind)
    requires
        phase_wf(p),
    ensures
        spawns(p, k) <==> proxy_actions(p, k).contains(ProxyAction::SpawnChild),
        spawns(p, k) ==> !p.specialized && proxy_next(p, k).specialized,
        !spawns(p, k) ==> proxy_next(p, k) == p,
{
    let a = proxy_actions(p, k);
    if spawns(p, k) {
        if k == MessageKind::Init {
            assert(a[1] == ProxyAction::SpawnChild);
        } else {
            assert(a[1] == ProxyAction::SpawnChild);
        }
    } else {
        assert forall|i: int| 0 <= i < a.len() implies a[i] != ProxyAction::SpawnChild by {}
    }
}

/// In placeholder mode only the environment reload starts the child.
pub proof fn law_placeholder_waits_for_reload(p: ProxyPhase, k: MessageKind)
    requires
        p.is_placeholder,
        k != MessageKind::Reload,
    ensures
        !spawns(p, k),
        !proxy_actions(p, k).contains(ProxyAction::SpawnChild),
{
    let a = proxy_actions(p, k);
    assert forall|i: int| 0 <= i < a.len() implies a[i] != ProxyAction::SpawnChild by {}
}

/// Messages the proxy does not answer itself go to the child once it runs and are
/// dropped before.
pub proof fn law_other_messages_follow_child(p: ProxyPhase)
    ensures
        p.child_running ==> proxy_actions(p, MessageKind::Other) == seq![ProxyAction::ForwardToChild],
        !p.child_running ==> proxy_actions(p, MessageKind::Other).len() == 0,
{
}

/// A termination always ends the proxy's loop.
pub proof fn law_terminate_stops(p: ProxyPhase)
    ensures
        proxy_actions(p, MessageKind::Terminate).last() == ProxyAction::Stop,
{
}

/// Every message the proxy sends of its own answers under the request id of the
/// message it answers.
pub proof fn law_proxy_replies_keep_request_id(action: ProxyAction, request_id: Seq<char>, m: StreamingMessage)
    requires
        is_reply_for(action, request_id, m),
    ensures
        m.request_id@ == request_id,
{
}

/// The proxy starts well formed; outside placeholder mode its one start of the child is
/// the start-up action, after which no message starts it again and the host's messages
/// for the application go to the child from the first one on.
pub proof fn law_dedicated_child_from_start(k: MessageKind)
    ensures
        phase_wf(initial_phase(true)),
        phase_wf(initial_phase(false)),
        initial_actions(false) == seq![ProxyAction::SpawnChild],
        initial_actions(true).len() == 0,
        !spawns(initial_phase(false), k),
        k != MessageKind::Init && k != MessageKind::Heartbeat && k != MessageKind::Reload
            && k != MessageKind::Terminate ==> proxy_actions(initial_phase(false), k)
            == seq![ProxyAction::ForwardToChild],
{
}

/// Before specialization in placeholder mode the proxy answers the start request and
/// the function listing itself and passes neither on.
pub proof fn law_placeholder_stub_answers(p: ProxyPhase)
    requires
        p.is_placeholder,
    ensures
        proxy_actions(p, MessageKind::Init) == seq![ProxyAction::SendInitResponse],
        !p.child_running ==> proxy_actions(p, MessageKind::Metadata) == seq![ProxyAction::SendEmptyMetadata],
{
}

/// A heartbeat is always answered by the proxy itself and never passed on; a
/// termination is passed on exactly when a child runs, and ends the loop.
pub proof fn law_heartbeat_and_terminate(p: ProxyPhase)
    ensures
        proxy_actions(p, MessageKind::Heartbeat) == seq![ProxyAction::SendHeartbeat],
        proxy_actions(p, MessageKind::Terminate) == (if p.child_running {
            seq![ProxyAction::ForwardToChild, ProxyAction::Stop]
        } else {
            seq![ProxyAction::Stop]
        }),
{
}

} // verus!
