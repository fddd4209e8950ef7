//! The reply loop: a state machine that turns model outputs into gated
//! tool invocations and reconciles their results into the conversation.
//!
//! One invocation is a sequence of steps. The loop owns the conversation
//! between steps; the caller performs the returned actions (a model call,
//! a tool dispatch) and feeds the outcomes back in as events. Suspension
//! for user confirmation is an explicit pending table keyed by call id;
//! cancellation rolls the conversation back to the last fully-resolved
//! turn. Throughout, every tool response the loop appends answers an
//! earlier request and no id is answered twice.

use vstd::prelude::*;

use crate::args::ToolArguments;
use crate::clock::now_timestamp;
use crate::conversation::{conv_items, conversation_paired, has_request, has_response,
    lemma_push_no_response, lemma_push_response, lemma_truncate_paired, no_double_answer,
    responses_paired, Conversation};
use crate::message::{Content, ErrorData, Message, MessageContent, Role, ToolCall,
    ToolConfirmationRequest, ToolRequest, ToolResponse, ToolResult, INTERNAL_ERROR,
    METHOD_NOT_FOUND};
use crate::permission::{spec_decide, PermissionDecision, PermissionManager, PermissionMode};
use crate::registry::{some_route, ExtensionRegistry};

verus! {

/// Where the loop stands between steps.
#[derive(Clone, Copy, Debug, PartialEq, Eq, Structural)]
pub enum LoopPhase {
    /// The model has been asked for the next turn.
    AwaitingModel,
    /// Tool calls of the current turn are still unresolved.
    AwaitingTools,
    /// A terminal event has been emitted; no further steps are valid.
    Finished,
}

/// Why a pending call has not produced its response yet.
#[derive(Clone, Copy, Debug, PartialEq, Eq, Structural)]
pub enum PendingStatus {
    /// Parked until the caller supplies an approve/deny resolution.
    AwaitingConfirmation,
    /// Handed to the caller for execution; its outcome is awaited.
    Dispatched,
}

/// One unresolved tool call of the current turn.
#[derive(Debug, PartialEq, Eq)]
pub struct PendingCall {
    pub id: String,
    pub tool_name: String,
    pub arguments: ToolArguments,
    pub status: PendingStatus,
}

/// The kind of a terminal or per-call error surfaced to the caller.
#[derive(Clone, Copy, Debug, PartialEq, Eq, Structural)]
pub enum ErrorKind {
    ProviderError,
    ToolDispatchError,
    PermissionDenied,
    UnknownTool,
    DuplicateExtension,
}

/// One event of the emitted stream.
#[derive(Debug, PartialEq, Eq)]
pub enum AgentEvent {
    /// A message became part of the conversation.
    Message(Message),
    /// A tool call is parked until the caller approves or denies it.
    ToolConfirmationNeeded(ToolConfirmationRequest),
    /// The invocation ended in an error.
    Error { kind: ErrorKind, detail: String },
    /// The invocation was cancelled.
    Cancelled,
}

/// Work the caller must perform after a step.
#[derive(Debug, PartialEq, Eq)]
pub enum Action {
    /// Ask the model provider for the next turn.
    CallModel,
    /// Execute one tool call and feed the outcome back in. The tool name
    /// is the namespaced identifier; the caller resolves it through the
    /// registry.
    DispatchTool { id: String, tool_name: String, arguments: ToolArguments },
}

/// What one step hands back to the caller.
#[derive(Debug, PartialEq, Eq)]
pub struct StepOutput {
    pub actions: Vec<Action>,
    pub events: Vec<AgentEvent>,
}

/// One tool call the model requested.
#[derive(Debug, PartialEq, Eq)]
pub struct ToolCallRequest {
    pub id: String,
    pub tool_name: String,
    pub arguments: ToolArguments,
}

/// What the model provider returned for one turn.
#[derive(Debug, PartialEq, Eq)]
pub enum ModelOutput {
    /// A final message; the turn ends the invocation.
    Final(Message),
    /// One or more tool calls to gate and execute.
    ToolRequests(Vec<ToolCallRequest>),
    /// The provider call failed (network, auth, rate limit).
    ProviderFailure(String),
    /// The provider refused the conversation for length.
    ContextOverflow(String),
}

/// How the permission gate routes one requested call.
pub ghost enum Gate {
    /// Execute immediately.
    Dispatch,
    /// Park until the caller approves or denies.
    Confirm,
    /// Refuse by policy: a synthetic error response, no execution.
    Deny,
    /// The tool is not in the registry: a synthetic error response.
    Unknown,
}

/// How one requested call is routed: a tool absent from the registry is
/// turned down; known tools follow the permission decision.
pub open spec fn spec_gate(
    reg: ExtensionRegistry,
    pm: PermissionManager,
    mode: PermissionMode,
    tool: Seq<char>,
) -> Gate {
    if !some_route(reg.extensions@, tool) {
        Gate::Unknown
    } else {
        match spec_decide(pm.overrides_view(), pm.smart_view(), tool, mode) {
            PermissionDecision::Auto => Gate::Dispatch,
            PermissionDecision::Never => Gate::Deny,
            PermissionDecision::AskBefore => Gate::Confirm,
        }
    }
}

/// Whether the actions ask the caller to dispatch the call with this id.
pub open spec fn has_dispatch(actions: Seq<Action>, id: Seq<char>) -> bool {
    exists|j: int|
        0 <= j < actions.len() && actions[j] is DispatchTool && actions[j]->DispatchTool_id@ == id
}

/// Whether the actions ask the caller for another model turn.
pub open spec fn has_call_model(actions: Seq<Action>) -> bool {
    exists|j: int| 0 <= j < actions.len() && actions[j] is CallModel
}

/// Whether the events park the call with this id behind a confirmation.
pub open spec fn has_confirm_event(events: Seq<AgentEvent>, id: Seq<char>) -> bool {
    exists|j: int|
        0 <= j < events.len() && events[j] is ToolConfirmationNeeded
            && events[j]->ToolConfirmationNeeded_0.id@ == id
}

/// Whether a pending call with this id and status is recorded.
pub open spec fn pending_has(pending: Seq<PendingCall>, id: Seq<char>, status: PendingStatus) -> bool {
    exists|j: int| 0 <= j < pending.len() && pending[j].id@ == id && pending[j].status == status
}

/// Whether a pending call with this id is recorded, whatever its status.
pub open spec fn pending_has_id(pending: Seq<PendingCall>, id: Seq<char>) -> bool {
    exists|j: int| 0 <= j < pending.len() && pending[j].id@ == id
}

/// The reply loop for one conversation.
pub struct AgentLoop {
    pub conversation: Conversation,
    /// Number of leading messages that belong to fully-resolved turns.
    pub committed_len: usize,
    /// The unresolved tool calls of the current turn.
    pub pending: Vec<PendingCall>,
    pub phase: LoopPhase,
    pub mode: PermissionMode,
}

impl AgentLoop {
    /// The loop's structural invariant: the conversation stays paired, the
    /// pending table records distinct, requested, unanswered ids, the
    /// phase agrees with the pending table, and the committed prefix is a
    /// real prefix.
    pub open spec fn wf(&self) -> bool {
        &&& conversation_paired(self.conversation.messages@)
        &&& forall|p1: int, p2: int|
            0 <= p1 < p2 < self.pending@.len() ==> self.pending@[p1].id@ != self.pending@[p2].id@
        &&& forall|p: int| #![trigger self.pending@[p]]
            0 <= p < self.pending@.len() ==> has_request(
                conv_items(self.conversation.messages@),
                self.pending@[p].id@,
            ) && !has_response(conv_items(self.conversation.messages@), self.pending@[p].id@)
        &&& self.committed_len <= self.conversation.messages@.len()
        &&& (self.phase == LoopPhase::AwaitingTools <==> self.pending@.len() > 0)
    }

    /// Every conversation the loop produces keeps the pairing invariant:
    /// each tool response answers an earlier request, and no id is
    /// answered twice.
    pub proof fn lemma_loop_conversation_paired(&self)
        requires
            self.wf(),
        ensures
            responses_paired(conv_items(self.conversation.messages@)),
            no_double_answer(conv_items(self.conversation.messages@)),
    {
    }

    /// Begin an invocation on a caller-supplied conversation: the first
    /// action asks the model for a turn.
    pub fn start(conversation: Conversation, mode: PermissionMode) -> (r: (AgentLoop, StepOutput))
        requires
            conversation_paired(conversation.messages@),
        ensures
            r.0.wf(),
            r.0.phase == LoopPhase::AwaitingModel,
            r.0.mode == mode,
            r.0.conversation == conversation,
            r.0.committed_len == conversation.messages@.len(),
            r.0.pending@.len() == 0,
            r.1.actions@.len() == 1 && r.1.actions@[0] is CallModel,
            r.1.events@.len() == 0,
    {
        let committed_len = conversation.messages.len();
        let state = AgentLoop {
            conversation,
            committed_len,
            pending: Vec::new(),
            phase: LoopPhase::AwaitingModel,
            mode,
        };
        let mut actions: Vec<Action> = Vec::new();
        actions.push(Action::CallModel);
        (state, StepOutput { actions, events: Vec::new() })
    }

    /// Feed in what the model returned for the current turn.
    ///
    /// A final message is appended and emitted, and the invocation ends. A
    /// provider failure ends the invocation with the conversation exactly
    /// as it stood. A context-length failure appends a
    /// `ContextLengthExceeded` item and ends the invocation. Tool requests
    /// are appended as one assistant message and each call is routed
    /// through the permission gate: `Auto` dispatches at once, `Never` and
    /// unknown tools get synthetic error responses, `AskBefore` parks the
    /// call behind a confirmation event. The next model turn is requested
    /// only once every call of the turn has been resolved.
    pub fn on_model_output(
        &mut self,
        output: ModelOutput,
        registry: &ExtensionRegistry,
        permissions: &PermissionManager,
    ) -> (out: StepOutput)
        requires
            old(self).wf(),
            old(self).phase == LoopPhase::AwaitingModel,
            output matches ModelOutput::Final(msg) ==> forall|i: int|
                0 <= i < msg.content@.len() ==> !(#[trigger] msg.content@[i] is ToolResponse),
            output matches ModelOutput::ToolRequests(reqs) ==> reqs@.len() > 0 && (forall|
                a: int,
                b: int,
            |
                0 <= a < b < reqs@.len() ==> reqs@[a].id@ != reqs@[b].id@) && (forall|i: int|
                0 <= i < reqs@.len() ==> !has_response(
                    conv_items(old(self).conversation.messages@),
                    #[trigger] reqs@[i].id@,
                )),
        ensures
            final(self).wf(),
            final(self).mode == old(self).mode,
            match output {
                ModelOutput::Final(msg) => {
                    &&& final(self).phase == LoopPhase::Finished
                    &&& final(self).conversation.messages@ == old(self).conversation.messages@.push(msg)
                    &&& final(self).committed_len == final(self).conversation.messages@.len()
                    &&& out.actions@.len() == 0
                    &&& out.events@.len() == 1
                    &&& out.events@[0] is Message
                    &&& out.events@[0]->Message_0.deep_view() == msg.deep_view()
                },
                ModelOutput::ProviderFailure(detail) => {
                    &&& final(self).phase == LoopPhase::Finished
                    &&& final(self).conversation.messages@ == old(self).conversation.messages@
                    &&& out.actions@.len() == 0
                    &&& out.events@.len() == 1
                    &&& out.events@[0] is Error
                    &&& out.events@[0]->Error_kind == ErrorKind::ProviderError
                    &&& out.events@[0]->Error_detail == detail
                },
                ModelOutput::ContextOverflow(msg) => {
                    &&& final(self).phase == LoopPhase::Finished
                    &&& final(self).conversation.messages@.len() == old(self).conversation.messages@.len() + 1
                    &&& final(self).conversation.messages@.last().content@.len() == 1
                    &&& final(self).conversation.messages@.last().content@[0] is ContextLengthExceeded
                    &&& final(self).conversation.messages@.last().content@[0]->ContextLengthExceeded_0.msg@
                        == msg@
                    &&& out.actions@.len() == 0
                    &&& out.events@.len() == 1
                    &&& out.events@[0] is Error
                    &&& out.events@[0]->Error_kind == ErrorKind::ProviderError
                    &&& out.events@[0]->Error_detail@ == msg@
                },
                ModelOutput::ToolRequests(reqs) => {
                    &&& forall|i: int|
                        #![trigger reqs@[i]]
                        0 <= i < reqs@.len() ==> match spec_gate(
                            *registry,
                            *permissions,
                            old(self).mode,
                            reqs@[i].tool_name@,
                        ) {
                            Gate::Dispatch => has_dispatch(out.actions@, reqs@[i].id@)
                                && pending_has(
                                final(self).pending@,
                                reqs@[i].id@,
                                PendingStatus::Dispatched,
                            ),
                            Gate::Confirm => has_confirm_event(out.events@, reqs@[i].id@)
                                && pending_has(
                                final(self).pending@,
                                reqs@[i].id@,
                                PendingStatus::AwaitingConfirmation,
                            ),
                            Gate::Deny => has_response(
                                conv_items(final(self).conversation.messages@),
                                reqs@[i].id@,
                            ),
                            Gate::Unknown => has_response(
                                conv_items(final(self).conversation.messages@),
                                reqs@[i].id@,
                            ),
                        }
                    &&& forall|i: int|
                        #![trigger reqs@[i]]
                        0 <= i < reqs@.len() ==> has_request(
                            conv_items(final(self).conversation.messages@),
                            reqs@[i].id@,
                        )
                    &&& (final(self).pending@.len() == 0 ==> final(self).phase
                        == LoopPhase::AwaitingModel && has_call_model(out.actions@)
                        && final(self).committed_len == final(self).conversation.messages@.len())
                    &&& (final(self).pending@.len() > 0 ==> final(self).phase
                        == LoopPhase::AwaitingTools)
                },
            },
    {
        match output {
            ModelOutput::Final(msg) => {
                let emitted = msg.clone();
                proof {
                    lemma_push_no_response(self.conversation.messages@, msg);
                }
                self.conversation.push(msg);
                self.committed_len = self.conversation.len();
                self.phase = LoopPhase::Finished;
                let mut events: Vec<AgentEvent> = Vec::new();
                events.push(AgentEvent::Message(emitted));
                StepOutput { actions: Vec::new(), events }
            },
            ModelOutput::ProviderFailure(detail) => {
                self.phase = LoopPhase::Finished;
                self.pending = Vec::new();
                let mut events: Vec<AgentEvent> = Vec::new();
                events.push(AgentEvent::Error { kind: ErrorKind::ProviderError, detail });
                StepOutput { actions: Vec::new(), events }
            },
            ModelOutput::ContextOverflow(msg) => {
                let detail = msg.clone();
                let mut content: Vec<MessageContent> = Vec::new();
                content.push(MessageContent::context_length_exceeded(msg));
                let notice = Message::new(Role::Assistant, now_timestamp(), content);
                proof {
                    lemma_push_no_response(self.conversation.messages@, notice);
                }
                self.conversation.push(notice);
                self.phase = LoopPhase::Finished;
                let mut events: Vec<AgentEvent> = Vec::new();
                events.push(AgentEvent::Error { kind: ErrorKind::ProviderError, detail });
                StepOutput { actions: Vec::new(), events }
            },
            ModelOutput::ToolRequests(reqs) => self.handle_tool_requests(
                reqs,
                registry,
                permissions,
            ),
        }
    }

    /// Gate and record the tool calls of one turn.
    fn handle_tool_requests(
        &mut self,
        reqs: Vec<ToolCallRequest>,
        registry: &ExtensionRegistry,
        permissions: &PermissionManager,
    ) -> (out: StepOutput)
        requires
            old(self).wf(),
            old(self).phase == LoopPhase::AwaitingModel,
            reqs@.len() > 0,
            forall|a: int, b: int| 0 <= a < b < reqs@.len() ==> reqs@[a].id@ != reqs@[b].id@,
            forall|i: int|
                0 <= i < reqs@.len() ==> !has_response(
                    conv_items(old(self).conversation.messages@),
                    #[trigger] reqs@[i].id@,
                ),
        ensures
            final(self).wf(),
            final(self).mode == old(self).mode,
            forall|i: int|
                #![trigger reqs@[i]]
                0 <= i < reqs@.len() ==> match spec_gate(
                    *registry,
                    *permissions,
                    old(self).mode,
                    reqs@[i].tool_name@,
                ) {
                    Gate::Dispatch => has_dispatch(out.actions@, reqs@[i].id@) && pending_has(
                        final(self).pending@,
                        reqs@[i].id@,
                        PendingStatus::Dispatched,
                    ),
                    Gate::Confirm => has_confirm_event(out.events@, reqs@[i].id@) && pending_has(
                        final(self).pending@,
                        reqs@[i].id@,
                        PendingStatus::AwaitingConfirmation,
                    ),
                    Gate::Deny => has_response(
                        conv_items(final(self).conversation.messages@),
                        reqs@[i].id@,
                    ),
                    Gate::Unknown => has_response(
                        conv_items(final(self).conversation.messages@),
                        reqs@[i].id@,
                    ),
                },
            forall|i: int|
                #![trigger reqs@[i]]
                0 <= i < reqs@.len() ==> has_request(
                    conv_items(final(self).conversation.messages@),
                    reqs@[i].id@,
                ),
            final(self).pending@.len() == 0 ==> final(self).phase == LoopPhase::AwaitingModel
                && has_call_model(out.actions@)
                && final(self).committed_len == final(self).conversation.messages@.len(),
            final(self).pending@.len() > 0 ==> final(self).phase == LoopPhase::AwaitingTools,
    {
        let n = reqs.len();

        // One assistant message carrying every request of this turn.
        let mut content: Vec<MessageContent> = Vec::new();
        let mut i: usize = 0;
        while i < n
            invariant
                i <= n,
                n == reqs@.len(),
                content@.len() == i,
                forall|j: int|
                    #![trigger content@[j]]
                    0 <= j < i ==> content@[j] is ToolRequest && content@[j]->ToolRequest_0.id
                        == reqs@[j].id && !(content@[j] is ToolResponse),
            decreases n - i,
        {
            let req = &reqs[i];
            content.push(
                MessageContent::ToolRequest(
                    ToolRequest {
                        id: req.id.clone(),
                        tool_call: Ok(
                            ToolCall {
                                name: req.tool_name.clone(),
                                arguments: req.arguments.clone(),
                            },
                        ),
                    },
                ),
            );
            i = i + 1;
        }
        let request_msg = Message::new(Role::Assistant, now_timestamp(), content);
        let ghost gmsg = request_msg;
        proof {
            lemma_push_no_response(self.conversation.messages@, gmsg);
            crate::conversation::lemma_conv_items_push(self.conversation.messages@, gmsg);
        }
        self.conversation.push(request_msg);
        proof {
            assert forall|i2: int| 0 <= i2 < n implies has_request(
                conv_items(self.conversation.messages@),
                #[trigger] reqs@[i2].id@,
            ) by {
                let base = conv_items(old(self).conversation.messages@).len() as int;
                assert(conv_items(self.conversation.messages@)[base + i2] == gmsg.content@[i2]);
                assert(crate::conversation::request_item_id(
                    conv_items(self.conversation.messages@)[base + i2],
                ) == Some(reqs@[i2].id@));
            }
        }

        // Route each call through the permission gate.
        let mut actions: Vec<Action> = Vec::new();
        let mut events: Vec<AgentEvent> = Vec::new();
        let mut i: usize = 0;
        while i < n
            invariant
                i <= n,
                n == reqs@.len(),
                self.mode == old(self).mode,
                self.committed_len == old(self).committed_len,
                conversation_paired(self.conversation.messages@),
                self.committed_len <= self.conversation.messages@.len(),
                forall|a: int, b: int| 0 <= a < b < reqs@.len() ==> reqs@[a].id@ != reqs@[b].id@,
                forall|p1: int, p2: int|
                    0 <= p1 < p2 < self.pending@.len() ==> self.pending@[p1].id@
                        != self.pending@[p2].id@,
                forall|p: int|
                    #![trigger self.pending@[p]]
                    0 <= p < self.pending@.len() ==> has_request(
                        conv_items(self.conversation.messages@),
                        self.pending@[p].id@,
                    ) && !has_response(
                        conv_items(self.conversation.messages@),
                        self.pending@[p].id@,
                    ),
                // every pending id is one of the already-processed request ids
                forall|p: int|
                    #![trigger self.pending@[p]]
                    0 <= p < self.pending@.len() ==> exists|j: int|
                        0 <= j < i && reqs@[j].id@ == self.pending@[p].id@,
                // ids of unprocessed requests are requested and unanswered
                forall|j: int|
                    #![trigger reqs@[j]]
                    0 <= j < n ==> has_request(
                        conv_items(self.conversation.messages@),
                        reqs@[j].id@,
                    ),
                forall|j: int|
                    #![trigger reqs@[j]]
                    i <= j < n ==> !has_response(
                        conv_items(self.conversation.messages@),
                        reqs@[j].id@,
                    ),
                // processed requests have their gate outcome recorded
                forall|j: int|
                    #![trigger reqs@[j]]
                    0 <= j < i ==> match spec_gate(
                        *registry,
                        *permissions,
                        old(self).mode,
                        reqs@[j].tool_name@,
                    ) {
                        Gate::Dispatch => has_dispatch(actions@, reqs@[j].id@) && pending_has(
                            self.pending@,
                            reqs@[j].id@,
                            PendingStatus::Dispatched,
                        ),
                        Gate::Confirm => has_confirm_event(events@, reqs@[j].id@) && pending_has(
                            self.pending@,
                            reqs@[j].id@,
                            PendingStatus::AwaitingConfirmation,
                        ),
                        Gate::Deny => has_response(
                            conv_items(self.conversation.messages@),
                            reqs@[j].id@,
                        ),
                        Gate::Unknown => has_response(
                            conv_items(self.conversation.messages@),
                            reqs@[j].id@,
                        ),
                    },
            decreases n - i,
        {
            let req = &reqs[i];
            let ghost gate = spec_gate(*registry, *permissions, old(self).mode, reqs@[i as int].tool_name@);
            let ghost pending_before = self.pending@;
            let ghost msgs_before = self.conversation.messages@;
            let ghost actions_before = actions@;
            let ghost events_before = events@;
            match registry.resolve(&req.tool_name) {
                Err(_) => {
                    proof {
                        assert(gate is Unknown);
                    }
                    let mut text = String::new();
                    text.append("unknown tool: ");
                    text.append(req.tool_name.as_str());
                    self.append_error_response(
                        &req.id,
                        ErrorData { code: METHOD_NOT_FOUND, message: text },
                    );
                },
                Ok(target) => {
                    proof {
                        assert(some_route(registry.extensions@, reqs@[i as int].tool_name@));
                    }
                    match permissions.decide(&req.tool_name, self.mode) {
                        PermissionDecision::Auto => {
                            proof {
                                assert(gate is Dispatch);
                            }
                            let _ = target;
                            actions.push(
                                Action::DispatchTool {
                                    id: req.id.clone(),
                                    tool_name: req.tool_name.clone(),
                                    arguments: req.arguments.clone(),
                                },
                            );
                            self.pending.push(
                                PendingCall {
                                    id: req.id.clone(),
                                    tool_name: req.tool_name.clone(),
                                    arguments: req.arguments.clone(),
                                    status: PendingStatus::Dispatched,
                                },
                            );
                            proof {
                                assert(actions@[actions@.len() - 1] is DispatchTool);
                                assert(actions@[actions@.len() - 1]->DispatchTool_id@
                                    == reqs@[i as int].id@);
                                assert(self.pending@[self.pending@.len() - 1].id@
                                    == reqs@[i as int].id@);
                            }
                        },
                        PermissionDecision::Never => {
                            proof {
                                assert(gate is Deny);
                            }
                            let mut text = String::new();
                            text.append("execution denied by policy");
                            self.append_error_response(
                                &req.id,
                                ErrorData { code: INTERNAL_ERROR, message: text },
                            );
                        },
                        PermissionDecision::AskBefore => {
                            proof {
                                assert(gate is Confirm);
                            }
                            events.push(
                                AgentEvent::ToolConfirmationNeeded(
                                    ToolConfirmationRequest {
                                        id: req.id.clone(),
                                        tool_name: req.tool_name.clone(),
                                        arguments: req.arguments.clone(),
                                        prompt: None,
                                    },
                                ),
                            );
                            self.pending.push(
                                PendingCall {
                                    id: req.id.clone(),
                                    tool_name: req.tool_name.clone(),
                                    arguments: req.arguments.clone(),
                                    status: PendingStatus::AwaitingConfirmation,
                                },
                            );
                            proof {
                                assert(events@[events@.len() - 1] is ToolConfirmationNeeded);
                                assert(events@[events@.len() - 1]->ToolConfirmationNeeded_0.id@
                                    == reqs@[i as int].id@);
                                assert(self.pending@[self.pending@.len() - 1].id@
                                    == reqs@[i as int].id@);
                            }
                        },
                    }
                },
            }
            proof {
                assert forall|j: int| #![trigger reqs@[j]] 0 <= j < i + 1 implies match spec_gate(
                    *registry,
                    *permissions,
                    old(self).mode,
                    reqs@[j].tool_name@,
                ) {
                    Gate::Dispatch => has_dispatch(actions@, reqs@[j].id@) && pending_has(
                        self.pending@,
                        reqs@[j].id@,
                        PendingStatus::Dispatched,
                    ),
                    Gate::Confirm => has_confirm_event(events@, reqs@[j].id@) && pending_has(
                        self.pending@,
                        reqs@[j].id@,
                        PendingStatus::AwaitingConfirmation,
                    ),
                    Gate::Deny => has_response(
                        conv_items(self.conversation.messages@),
                        reqs@[j].id@,
                    ),
                    Gate::Unknown => has_response(
                        conv_items(self.conversation.messages@),
                        reqs@[j].id@,
                    ),
                } by {
                    if j < i {
                        match spec_gate(*registry, *permissions, old(self).mode, reqs@[j].tool_name@) {
                            Gate::Dispatch => {
                                let a0 = choose|a: int|
                                    0 <= a < actions_before.len() && actions_before[a] is DispatchTool
                                        && actions_before[a]->DispatchTool_id@ == reqs@[j].id@;
                                assert(actions@[a0] == actions_before[a0]);
                                let p0 = choose|p: int|
                                    0 <= p < pending_before.len() && pending_before[p].id@
                                        == reqs@[j].id@ && pending_before[p].status
                                        == PendingStatus::Dispatched;
                                assert(self.pending@[p0] == pending_before[p0]);
                            },
                            Gate::Confirm => {
                                let e0 = choose|e: int|
                                    0 <= e < events_before.len()
                                        && events_before[e] is ToolConfirmationNeeded
                                        && events_before[e]->ToolConfirmationNeeded_0.id@
                                        == reqs@[j].id@;
                                assert(events@[e0] == events_before[e0]);
                                let p0 = choose|p: int|
                                    0 <= p < pending_before.len() && pending_before[p].id@
                                        == reqs@[j].id@ && pending_before[p].status
                                        == PendingStatus::AwaitingConfirmation;
                                assert(self.pending@[p0] == pending_before[p0]);
                            },
                            Gate::Deny => {},
                            Gate::Unknown => {},
                        }
                    }
                }
            }
            i = i + 1;
        }

        // The turn resolves immediately when nothing is pending.
        if self.pending.len() == 0 {
            self.phase = LoopPhase::AwaitingModel;
            self.committed_len = self.conversation.len();
            actions.push(Action::CallModel);
            proof {
                assert(actions@[actions@.len() - 1] is CallModel);
            }
        } else {
            self.phase = LoopPhase::AwaitingTools;
        }
        StepOutput { actions, events }
    }

    /// Append a synthetic error response for one call id.
    fn append_error_response(&mut self, id: &String, error: ErrorData)
        requires
            conversation_paired(old(self).conversation.messages@),
            has_request(conv_items(old(self).conversation.messages@), id@),
            !has_response(conv_items(old(self).conversation.messages@), id@),
        ensures
            conversation_paired(final(self).conversation.messages@),
            has_response(conv_items(final(self).conversation.messages@), id@),
            forall|x: Seq<char>|
                x != id@ ==> has_response(conv_items(final(self).conversation.messages@), x)
                    == has_response(conv_items(old(self).conversation.messages@), x),
            forall|x: Seq<char>|
                has_request(conv_items(final(self).conversation.messages@), x) == has_request(
                    conv_items(old(self).conversation.messages@),
                    x,
                ),
            final(self).conversation.messages@.len() == old(self).conversation.messages@.len() + 1,
            final(self).pending == old(self).pending,
            final(self).phase == old(self).phase,
            final(self).mode == old(self).mode,
            final(self).committed_len == old(self).committed_len,
    {
        let mut content: Vec<MessageContent> = Vec::new();
        content.push(MessageContent::ToolResponse(ToolResponse {
            id: id.clone(),
            tool_result: Err(error),
        }));
        let m = Message::new(Role::User, now_timestamp(), content);
        proof {
            lemma_push_response(self.conversation.messages@, m, id@);
        }
        self.conversation.push(m);
    }

    /// Feed in the outcome of a dispatched tool call. The matching
    /// response is appended (in completion order, not issue order); when
    /// it was the turn's last unresolved call, the next model turn is
    /// requested.
    pub fn on_tool_result(&mut self, id: &String, outcome: ToolResult<Vec<Content>>) -> (out:
        StepOutput)
        requires
            old(self).wf(),
            old(self).phase == LoopPhase::AwaitingTools,
            pending_has(old(self).pending@, id@, PendingStatus::Dispatched),
        ensures
            final(self).wf(),
            final(self).mode == old(self).mode,
            final(self).conversation.messages@.len() == old(self).conversation.messages@.len()
                + 1,
            has_response(conv_items(final(self).conversation.messages@), id@),
            final(self).conversation.messages@.last().content@.len() == 1,
            final(self).conversation.messages@.last().content@[0] is ToolResponse,
            final(self).conversation.messages@.last().content@[0]->ToolResponse_0.id@ == id@,
            !pending_has_id(final(self).pending@, id@),
            final(self).pending@.len() == old(self).pending@.len() - 1,
            out.events@.len() == 0,
            final(self).pending@.len() == 0 ==> final(self).phase == LoopPhase::AwaitingModel
                && has_call_model(out.actions@)
                && final(self).committed_len == final(self).conversation.messages@.len(),
            final(self).pending@.len() > 0 ==> final(self).phase == LoopPhase::AwaitingTools
                && out.actions@.len() == 0,
    {
        let mut content: Vec<MessageContent> = Vec::new();
        content.push(MessageContent::ToolResponse(ToolResponse {
            id: id.clone(),
            tool_result: outcome,
        }));
        let m = Message::new(Role::User, now_timestamp(), content);
        proof {
            assert(has_request(conv_items(self.conversation.messages@), id@));
            assert(!has_response(conv_items(self.conversation.messages@), id@)) by {
                let p0 = choose|p: int|
                    0 <= p < self.pending@.len() && self.pending@[p].id@ == id@
                        && self.pending@[p].status == PendingStatus::Dispatched;
                assert(self.pending@[p0].id@ == id@);
            }
            lemma_push_response(self.conversation.messages@, m, id@);
        }
        self.conversation.push(m);
        self.remove_pending(id);
        let mut actions: Vec<Action> = Vec::new();
        if self.pending.len() == 0 {
            self.phase = LoopPhase::AwaitingModel;
            self.committed_len = self.conversation.len();
            actions.push(Action::CallModel);
            proof {
                assert(actions@[0] is CallModel);
            }
        }
        StepOutput { actions, events: Vec::new() }
    }

    /// Resolve a parked confirmation. Approval dispatches the call;
    /// denial appends a synthetic error response without ever invoking the
    /// provider. When the turn's last unresolved call resolves, the next
    /// model turn is requested.
    pub fn on_confirmation(&mut self, id: &String, approved: bool) -> (out: StepOutput)
        requires
            old(self).wf(),
            old(self).phase == LoopPhase::AwaitingTools,
            pending_has(old(self).pending@, id@, PendingStatus::AwaitingConfirmation),
        ensures
            final(self).wf(),
            final(self).mode == old(self).mode,
            out.events@.len() == 0,
            approved ==> {
                &&& final(self).conversation.messages@ == old(self).conversation.messages@
                &&& has_dispatch(out.actions@, id@)
                &&& pending_has(final(self).pending@, id@, PendingStatus::Dispatched)
                &&& final(self).pending@.len() == old(self).pending@.len()
                &&& final(self).phase == LoopPhase::AwaitingTools
            },
            !approved ==> {
                &&& has_response(conv_items(final(self).conversation.messages@), id@)
                &&& !pending_has_id(final(self).pending@, id@)
                &&& final(self).pending@.len() == old(self).pending@.len() - 1
                &&& (final(self).pending@.len() == 0 ==> final(self).phase
                    == LoopPhase::AwaitingModel && has_call_model(out.actions@))
                &&& (final(self).pending@.len() > 0 ==> final(self).phase
                    == LoopPhase::AwaitingTools && out.actions@.len() == 0)
            },
    {
        if approved {
            let idx = self.find_pending(id);
            let ghost pending_before = self.pending@;
            let (tool_name, arguments) = {
                let p = &self.pending[idx];
                (p.tool_name.clone(), p.arguments.clone())
            };
            let mut actions: Vec<Action> = Vec::new();
            actions.push(
                Action::DispatchTool { id: id.clone(), tool_name, arguments },
            );
            let old_call = self.pending.remove(idx);
            self.pending.insert(
                idx,
                PendingCall {
                    id: old_call.id,
                    tool_name: old_call.tool_name,
                    arguments: old_call.arguments,
                    status: PendingStatus::Dispatched,
                },
            );
            proof {
                assert(self.pending@[idx as int].id@ == id@);
                assert(self.pending@[idx as int].status == PendingStatus::Dispatched);
                assert forall|p1: int, p2: int|
                    0 <= p1 < p2 < self.pending@.len() implies self.pending@[p1].id@
                    != self.pending@[p2].id@ by {
                    assert(self.pending@[p1].id@ == pending_before[p1].id@);
                    assert(self.pending@[p2].id@ == pending_before[p2].id@);
                }
                assert forall|p: int| #![trigger self.pending@[p]]
                    0 <= p < self.pending@.len() implies has_request(
                    conv_items(self.conversation.messages@),
                    self.pending@[p].id@,
                ) && !has_response(
                    conv_items(self.conversation.messages@),
                    self.pending@[p].id@,
                ) by {
                    assert(self.pending@[p].id@ == pending_before[p].id@);
                    assert(pending_before[p] == old(self).pending@[p]);
                }
                assert(actions@[0] is DispatchTool);
            }
            StepOutput { actions, events: Vec::new() }
        } else {
            proof {
                let p0 = choose|p: int|
                    0 <= p < self.pending@.len() && self.pending@[p].id@ == id@
                        && self.pending@[p].status == PendingStatus::AwaitingConfirmation;
                assert(self.pending@[p0].id@ == id@);
            }
            let mut text = String::new();
            text.append("execution denied by user");
            self.append_error_response(&id, ErrorData { code: INTERNAL_ERROR, message: text });
            self.remove_pending(id);
            let mut actions: Vec<Action> = Vec::new();
            if self.pending.len() == 0 {
                self.phase = LoopPhase::AwaitingModel;
                self.committed_len = self.conversation.len();
                actions.push(Action::CallModel);
                proof {
                    assert(actions@[0] is CallModel);
                }
            }
            StepOutput { actions, events: Vec::new() }
        }
    }

    /// Cancel the invocation at a suspension point. Outcomes of calls
    /// already dispatched are no longer awaited and will not be appended;
    /// the conversation rolls back to the last fully-resolved turn, the
    /// pending table is released, and a single `Cancelled` event ends the
    /// stream.
    pub fn cancel(&mut self) -> (out: StepOutput)
        requires
            old(self).wf(),
            old(self).phase != LoopPhase::Finished,
        ensures
            final(self).wf(),
            final(self).phase == LoopPhase::Finished,
            final(self).conversation.messages@ == old(self).conversation.messages@.subrange(
                0,
                old(self).committed_len as int,
            ),
            final(self).pending@.len() == 0,
            out.actions@.len() == 0,
            out.events@.len() == 1,
            out.events@[0] is Cancelled,
    {
        proof {
            lemma_truncate_paired(
                self.conversation.messages@,
                self.committed_len as int,
            );
        }
        self.conversation.messages.truncate(self.committed_len);
        proof {
            assert(self.conversation.messages@ =~= old(self).conversation.messages@.subrange(
                0,
                old(self).committed_len as int,
            ));
        }
        self.pending = Vec::new();
        self.phase = LoopPhase::Finished;
        let mut events: Vec<AgentEvent> = Vec::new();
        events.push(AgentEvent::Cancelled);
        StepOutput { actions: Vec::new(), events }
    }

    /// The index of the pending call with this id.
    fn find_pending(&self, id: &String) -> (r: usize)
        requires
            pending_has_id(self.pending@, id@),
        ensures
            r < self.pending@.len(),
            self.pending@[r as int].id@ == id@,
    {
        let n = self.pending.len();
        let mut i: usize = 0;
        while i < n
            invariant
                i <= n,
                n == self.pending@.len(),
                pending_has_id(self.pending@, id@),
                forall|j: int| 0 <= j < i ==> self.pending@[j].id@ != id@,
            decreases n - i,
        {
            if self.pending[i].id == *id {
                return i;
            }
            i = i + 1;
        }
        proof {
            assert(false);
        }
        0
    }

    /// Drop the pending call with this id.
    fn remove_pending(&mut self, id: &String)
        requires
            pending_has_id(old(self).pending@, id@),
            forall|p1: int, p2: int|
                0 <= p1 < p2 < old(self).pending@.len() ==> old(self).pending@[p1].id@ != old(self).pending@[p2].id@,
        ensures
            final(self).pending@.len() == old(self).pending@.len() - 1,
            !pending_has_id(final(self).pending@, id@),
            exists|k: int|
                0 <= k < old(self).pending@.len() && old(self).pending@[k].id@ == id@ && final(self).pending@ == old(self).pending@.remove(k),
            final(self).conversation == old(self).conversation,
            final(self).phase == old(self).phase,
            final(self).mode == old(self).mode,
            final(self).committed_len == old(self).committed_len,
    {
        let idx = self.find_pending(id);
        let ghost prev = self.pending@;
        self.pending.remove(idx);
        proof {
            assert(self.pending@ == prev.remove(idx as int));
            assert forall|j: int|
                0 <= j < self.pending@.len() implies self.pending@[j].id@ != id@ by {
                if j < idx {
                    assert(self.pending@[j] == prev[j]);
                } else {
                    assert(self.pending@[j] == prev[j + 1]);
                }
            }
        }
    }
}

} // verus!
