//! Agent ownership and configuration.
//!
//! An [`Agent`] owns durable conversation state and permits exactly one active run. It has no
//! executor and no provider implementation; the host configures those capabilities and drives
//! the run from its own environment.

use crate::error::{CoreError, CoreErrorModel, StateTransitionError, TransitionModel};
use crate::model::Duplicate;
use crate::queue::{AgentQueues, QueueMode, QueuedMessage, QueuedModel, QueuesModel};
use crate::run::RunHandle;
use crate::transition::RunModel;
use crate::state::{
    saturating_sum, AgentPhase, AgentSnapshot, AgentState, AgentStateModel, Message, MessageId,
    MessageModel, ModelAccountingSnapshot, ModelDescriptor, ModelDescriptorModel, RunId, RunPhase,
    SerializedJson, ThinkingLevel,
};
use crate::tool::{DefinitionModel, ToolDefinition, ToolRegistry};
use vstd::prelude::*;

verus! {

broadcast use crate::model::group_views;

/// An owned agent state machine.
#[derive(Clone, Debug)]
pub struct Agent {
    /// Durable and transient state.
    pub state: AgentState,
    /// Explicit queue state, not a general mailbox.
    pub queues: AgentQueues,
    /// Declared capabilities in prompt order.
    pub tools: ToolRegistry,
    /// Drain policy for messages that steer an active run.
    pub steering: QueueMode,
    /// Drain policy for messages that run only at the idle boundary.
    pub follow_up: QueueMode,
    /// Whether the host configured a model provider.
    pub provider: bool,
    /// Whether the host configured a compactor.
    pub compactor: bool,
    /// Number of runs started so far.
    pub run_count: u64,
    /// Current run ownership marker.
    pub active_run: Option<RunId>,
}

/// Model of an [`Agent`].
#[verifier::ext_equal]
pub struct AgentModel {
    pub state: AgentStateModel,
    pub queues: QueuesModel,
    pub tools: Seq<DefinitionModel>,
    pub steering: QueueMode,
    pub follow_up: QueueMode,
    pub provider: bool,
    pub compactor: bool,
    pub run_count: u64,
    pub active_run: Option<RunId>,
}

impl View for Agent {
    type V = AgentModel;

    open spec fn view(&self) -> AgentModel {
        AgentModel {
            state: self.state@,
            queues: self.queues@,
            tools: self.tools@,
            steering: self.steering,
            follow_up: self.follow_up,
            provider: self.provider,
            compactor: self.compactor,
            run_count: self.run_count,
            active_run: self.active_run,
        }
    }
}

/// The run that owns an agent in a phase.
pub open spec fn owner(phase: AgentPhase) -> Option<RunId> {
    match phase {
        AgentPhase::Idle => None,
        AgentPhase::Running(id) => Some(id),
        AgentPhase::Cancelling(id) => Some(id),
    }
}

/// The user messages that carry a sequence of texts, with consecutive identifiers.
pub open spec fn prompts(contents: Seq<Seq<char>>, first: u64) -> Seq<MessageModel>
    decreases contents.len(),
{
    if contents.len() == 0 {
        Seq::empty()
    } else {
        prompts(contents.drop_last(), first).push(
            MessageModel::User {
                id: MessageId(advanced(first, (contents.len() - 1) as nat)),
                content: contents.last(),
            },
        )
    }
}

/// A counter that advanced `n` times without passing its largest value.
pub open spec fn advanced(counter: u64, n: nat) -> u64
    decreases n,
{
    if n == 0 {
        counter
    } else {
        saturating_sum(advanced(counter, (n - 1) as nat), 1)
    }
}

/// The agent after an attempt to start a run counted it.
pub open spec fn counted(agent: AgentModel) -> AgentModel {
    AgentModel { run_count: ((agent.run_count + 1) % 0x1_0000_0000_0000_0000) as u64, ..agent }
}

/// The identifier that the next run gets.
pub open spec fn upcoming_run(agent: AgentModel) -> RunId {
    RunId(saturating_sum(agent.run_count, 1))
}

/// The agent once a run with initial user texts owns it.
pub open spec fn started(agent: AgentModel, contents: Seq<Seq<char>>) -> AgentModel {
    let id = upcoming_run(agent);
    AgentModel {
        state: AgentStateModel {
            messages: agent.state.messages + prompts(contents, agent.state.next_message_id),
            next_message_id: advanced(agent.state.next_message_id, contents.len()),
            phase: AgentPhase::Running(id),
            last_error: None,
            partial_response: None,
            is_streaming: false,
            pending_tool_calls: Set::empty(),
            ..agent.state
        },
        active_run: Some(id),
        ..counted(agent)
    }
}

/// An agent has at most one active run: once a run owns it, its phase names that run, so another
/// is refused with its identifier.
pub proof fn law_one_run_at_a_time(agent: AgentModel, contents: Seq<Seq<char>>)
    ensures
        owner(started(agent, contents).state.phase) == Some(upcoming_run(agent)),
        refusal(started(agent, contents)) == (CoreErrorModel::ActiveRun {
            run_id: upcoming_run(agent),
        }),
        counted(started(agent, contents)).state == started(agent, contents).state,
{
}

/// The contents of queued messages, in order.
pub open spec fn contents(queued: Seq<QueuedModel>) -> Seq<Seq<char>> {
    queued.map_values(|message: QueuedModel| message.content)
}

/// What a continuation takes from the queues when the transcript ends in an assistant message:
/// steering first, else follow-up.
pub open spec fn tail_messages(agent: AgentModel) -> Seq<QueuedModel> {
    let steering = agent.queues.steering.drained(agent.steering);
    if steering.len() == 0 {
        agent.queues.follow_up.drained(agent.follow_up)
    } else {
        steering
    }
}

/// The agent after a continuation took [`tail_messages`].
pub open spec fn after_tail(agent: AgentModel) -> AgentModel {
    let steering = agent.queues.steering.drained(agent.steering);
    AgentModel {
        queues: QueuesModel {
            steering: agent.queues.steering.after_drain(agent.steering),
            follow_up: if steering.len() == 0 {
                agent.queues.follow_up.after_drain(agent.follow_up)
            } else {
                agent.queues.follow_up
            },
        },
        ..agent
    }
}

/// The refusal of an agent that another run owns.
pub open spec fn refusal(agent: AgentModel) -> CoreErrorModel {
    CoreErrorModel::ActiveRun { run_id: owner(agent.state.phase)->0 }
}

/// The refusal of a continuation that has nothing to continue from.
pub open spec fn no_continuation(from: Seq<char>) -> CoreErrorModel {
    CoreErrorModel::InvalidTransition(
        TransitionModel { entity: "agent"@, from, operation: "continue"@ },
    )
}

/// The agent after a reset: identity and configuration stay, history and queues go.
pub open spec fn after_reset(agent: AgentModel) -> AgentModel {
    AgentModel {
        state: AgentStateModel {
            messages: Seq::empty(),
            host_messages: Seq::empty(),
            partial_response: None,
            is_streaming: false,
            pending_tool_calls: Set::empty(),
            last_error: None,
            accounting: crate::state::AccountingModel::empty(),
            ..agent.state
        },
        queues: agent.queues.cleared(),
        ..agent
    }
}

/// The agent after its active run was asked to stop: one that was never driven is settled.
pub open spec fn after_abort(agent: AgentModel, run: RunModel) -> AgentModel {
    let settled = run.state.phase == RunPhase::Created;
    AgentModel {
        state: AgentStateModel {
            partial_response: None,
            is_streaming: false,
            pending_tool_calls: Set::empty(),
            phase: if settled {
                AgentPhase::Idle
            } else if agent.state.phase == AgentPhase::Idle {
                AgentPhase::Idle
            } else {
                AgentPhase::Cancelling(run.state.id)
            },
            ..agent.state
        },
        queues: agent.queues.cleared(),
        active_run: if settled && agent.active_run == Some(run.state.id) {
            None
        } else {
            agent.active_run
        },
        ..agent
    }
}

impl Agent {
    /// Tool names are distinct.
    pub open spec fn wf(self) -> bool {
        self.tools.wf()
    }

    /// Start configuration with an empty profile and no provider.
    pub fn builder() -> (r: AgentBuilder)
        ensures
            r.wf(),
            r@ == BuilderModel::fresh(),
    {
        AgentBuilder::default()
    }

    /// Return an owned state snapshot.
    pub fn snapshot(&self) -> (r: AgentSnapshot)
        ensures
            r.shows(self@.state),
    {
        self.state.snapshot()
    }

    /// Return prompt definitions for the currently registered capabilities.
    pub fn tool_definitions(&self) -> (r: Vec<ToolDefinition>)
        ensures
            crate::model::views(r@) == self@.tools,
    {
        self.tools.definitions()
    }

    /// Whether an explicit model provider was configured.
    pub fn has_model_provider(&self) -> (r: bool)
        ensures
            r == self@.provider,
    {
        self.provider
    }

    /// The run that owns this agent, if one does.
    pub fn owner_run(&self) -> (r: Option<RunId>)
        ensures
            r == owner(self@.state.phase),
    {
        match self.state.phase {
            AgentPhase::Idle => None,
            AgentPhase::Running(id) => Some(id),
            AgentPhase::Cancelling(id) => Some(id),
        }
    }

    /// Replace the configured model identity while idle; the host attaches the provider.
    ///
    /// The replacement preserves the conversation, tools, prompts, and queues. A run owns its
    /// model and provider until terminal settlement, so active and cancelling agents refuse.
    pub fn replace_model_provider(&mut self, model: ModelDescriptor) -> (r: Result<(), CoreError>)
        ensures
            r is Ok <==> owner(old(self)@.state.phase) is None,
            r is Ok ==> final(self)@ == (AgentModel {
                state: AgentStateModel { model: Some(model@), ..old(self)@.state },
                provider: true,
                ..old(self)@
            }),
            r matches Err(e) ==> e@ == refusal(old(self)@) && final(self)@ == old(self)@,
    {
        match self.owner_run() {
            None => {
                self.state.model = Some(model);
                self.provider = true;
                Ok(())
            },
            Some(run_id) => Err(CoreError::ActiveRun { run_id }),
        }
    }

    /// Start a prompt run. No model work is performed until the caller drives the returned
    /// handle.
    pub fn start_prompt(&mut self, prompt: String) -> (r: Result<RunHandle, CoreError>)
        ensures
            r is Ok <==> owner(old(self)@.state.phase) is None,
            r matches Ok(run) ==> {
                &&& run.wf()
                &&& final(self)@ == started(old(self)@, seq![prompt@])
                &&& run@ == RunModel::created(
                    upcoming_run(old(self)@),
                    prompts(seq![prompt@], old(self)@.state.next_message_id),
                    old(self)@.state.messages.len(),
                    false,
                )
            },
            r matches Err(e) ==> e@ == refusal(old(self)@) && final(self)@ == counted(old(self)@),
    {
        let mut texts: Vec<String> = Vec::new();
        texts.push(prompt);
        assert(crate::model::views(texts@) =~= seq![prompt@]);
        self.start_run(texts, false)
    }

    /// Continue from a retained user or tool-result message without adding a new prompt.
    ///
    /// If the transcript ends in an assistant message, continuation is permitted only by
    /// consuming queued steering first, then queued follow-up input. Those messages become the
    /// run's prompt events; remaining steering waits until after its first assistant turn.
    pub fn start_continue(&mut self) -> (r: Result<RunHandle, CoreError>)
        ensures
            ({
                let agent = old(self)@;
                let n = agent.state.messages.len();
                if owner(agent.state.phase) is Some {
                    r matches Err(e) && e@ == refusal(agent) && final(self)@ == agent
                } else if n == 0 {
                    r matches Err(e) && e@ == no_continuation("empty"@) && final(self)@ == agent
                } else if !(agent.state.messages[n - 1] is Assistant) {
                    r matches Ok(run) && run.wf() && final(self)@ == started(agent, Seq::empty())
                        && run@ == RunModel::created(upcoming_run(agent), Seq::empty(), n, false)
                } else if tail_messages(agent).len() == 0 {
                    r matches Err(e) && e@ == no_continuation("assistant-tail"@) && final(self)@
                        == after_tail(agent)
                } else {
                    let texts = contents(tail_messages(agent));
                    r matches Ok(run) && run.wf() && final(self)@ == started(
                        after_tail(agent),
                        texts,
                    ) && run@ == RunModel::created(
                        upcoming_run(agent),
                        prompts(texts, agent.state.next_message_id),
                        n,
                        true,
                    )
                }
            }),
    {
        if let Some(run_id) = self.owner_run() {
            return Err(CoreError::ActiveRun { run_id });
        }
        let n = self.state.messages.len();
        if n == 0 {
            return Err(
                CoreError::InvalidTransition(
                    StateTransitionError::new("agent", "empty", "continue"),
                ),
            );
        }
        let assistant_tail = match &self.state.messages[n - 1] {
            Message::Assistant { .. } => true,
            _ => false,
        };
        assert(self@.state.messages[n - 1] == self.state.messages@[n - 1]@);
        if !assistant_tail {
            let none: Vec<String> = Vec::new();
            assert(crate::model::views(none@) =~= Seq::<Seq<char>>::empty());
            assert(prompts(Seq::empty(), self@.state.next_message_id) =~= Seq::<
                MessageModel,
            >::empty());
            return self.start_run(none, false);
        }
        let queued = self.drain_continue_tail_messages();
        if queued.len() == 0 {
            return Err(
                CoreError::InvalidTransition(
                    StateTransitionError::new("agent", "assistant-tail", "continue"),
                ),
            );
        }
        let texts = take_contents(queued);
        self.start_run(texts, true)
    }

    fn drain_continue_tail_messages(&mut self) -> (r: Vec<QueuedMessage>)
        ensures
            crate::model::views(r@) == tail_messages(old(self)@),
            final(self)@ == after_tail(old(self)@),
    {
        let steering = self.queues.steering.drain(self.steering);
        if steering.len() == 0 {
            self.queues.follow_up.drain(self.follow_up)
        } else {
            steering
        }
    }

    fn start_run(&mut self, initial_contents: Vec<String>, skip_initial_steering: bool) -> (r:
        Result<RunHandle, CoreError>)
        ensures
            r is Ok <==> owner(old(self)@.state.phase) is None,
            r matches Ok(run) ==> {
                &&& run.wf()
                &&& final(self)@ == started(old(self)@, crate::model::views(initial_contents@))
                &&& run@ == RunModel::created(
                    upcoming_run(old(self)@),
                    prompts(
                        crate::model::views(initial_contents@),
                        old(self)@.state.next_message_id,
                    ),
                    old(self)@.state.messages.len(),
                    skip_initial_steering,
                )
            },
            r matches Err(e) ==> e@ == refusal(old(self)@) && final(self)@ == counted(old(self)@),
    {
        let run_id = self.count_run();
        if let Some(active) = self.owner_run() {
            return Err(CoreError::ActiveRun { run_id: active });
        }
        let ghost before = self@;
        let message_start_index = self.state.messages.len();
        let ghost texts = crate::model::views(initial_contents@);
        let mut initial_messages: Vec<Message> = Vec::new();
        let mut i: usize = 0;
        assert(texts.take(0) =~= Seq::<Seq<char>>::empty());
        assert(self@.state.messages =~= before.state.messages + Seq::<MessageModel>::empty());
        while i < initial_contents.len()
            invariant
                i <= initial_contents@.len(),
                texts == crate::model::views(initial_contents@),
                crate::model::views(initial_messages@) == prompts(
                    texts.take(i as int),
                    before.state.next_message_id,
                ),
                self@ == (AgentModel {
                    state: AgentStateModel {
                        messages: before.state.messages + crate::model::views(initial_messages@),
                        next_message_id: advanced(before.state.next_message_id, i as nat),
                        ..before.state
                    },
                    ..before
                }),
            decreases initial_contents.len() - i,
        {
            let id = self.state.allocate_message_id();
            let message = Message::User { id, content: initial_contents[i].clone() };
            self.state.messages.push(message.duplicate());
            initial_messages.push(message);
            proof {
                assert(texts.take(i + 1).drop_last() =~= texts.take(i as int));
                assert(texts.take(i + 1).last() == initial_contents@[i as int]@);
                assert(self@.state.messages =~= before.state.messages + crate::model::views(
                    initial_messages@,
                ));
            }
            i = i + 1;
        }
        assert(texts.take(i as int) =~= texts);
        self.state.phase = AgentPhase::Running(run_id);
        self.state.last_error = None;
        self.state.partial_response = None;
        self.state.is_streaming = false;
        self.state.pending_tool_calls.clear();
        self.active_run = Some(run_id);
        Ok(
            RunHandle::created(
                run_id,
                initial_messages,
                message_start_index,
                skip_initial_steering,
            ),
        )
    }

    /// Count one attempt to start a run, and return its identifier.
    pub fn count_run(&mut self) -> (r: RunId)
        ensures
            r == upcoming_run(old(self)@),
            final(self)@ == counted(old(self)@),
    {
        let number = self.run_count.saturating_add(1);
        self.run_count = self.run_count.wrapping_add(1);
        RunId(number)
    }

    /// Queue steering input for the next eligible active-turn drain point.
    ///
    /// Idle input is consumed by the next prompt or continuation run rather than implicitly
    /// starting work.
    pub fn enqueue_steering(&mut self, content: String) -> (r: Result<u64, CoreError>)
        ensures
            r matches Ok(n) && n == old(self)@.queues.steering.upcoming(),
            final(self)@ == (AgentModel {
                queues: QueuesModel {
                    steering: old(self)@.queues.steering.pushed(content@),
                    ..old(self)@.queues
                },
                ..old(self)@
            }),
    {
        Ok(self.queues.steering.push(content))
    }

    /// Queue follow-up input for the next idle boundary of a run.
    pub fn enqueue_follow_up(&mut self, content: String) -> (r: Result<u64, CoreError>)
        ensures
            r matches Ok(n) && n == old(self)@.queues.follow_up.upcoming(),
            final(self)@ == (AgentModel {
                queues: QueuesModel {
                    follow_up: old(self)@.queues.follow_up.pushed(content@),
                    ..old(self)@.queues
                },
                ..old(self)@
            }),
    {
        Ok(self.queues.follow_up.push(content))
    }

    /// Remove queued steering messages without changing conversation history.
    pub fn clear_steering_queue(&mut self)
        ensures
            final(self)@ == (AgentModel {
                queues: QueuesModel {
                    steering: old(self)@.queues.steering.cleared(),
                    ..old(self)@.queues
                },
                ..old(self)@
            }),
    {
        self.queues.steering.clear();
    }

    /// Remove queued follow-up messages without changing conversation history.
    pub fn clear_follow_up_queue(&mut self)
        ensures
            final(self)@ == (AgentModel {
                queues: QueuesModel {
                    follow_up: old(self)@.queues.follow_up.cleared(),
                    ..old(self)@.queues
                },
                ..old(self)@
            }),
    {
        self.queues.follow_up.clear();
    }

    /// Remove all queued messages without changing conversation history.
    pub fn clear_all_queues(&mut self)
        ensures
            final(self)@ == (AgentModel { queues: old(self)@.queues.cleared(), ..old(self)@ }),
    {
        self.queues.clear();
    }

    /// Whether either explicit queue contains input waiting for an eligible drain point.
    pub fn has_queued_messages(&self) -> (r: bool)
        ensures
            r == (self@.queues.steering.entries.len() > 0 || self@.queues.follow_up.entries.len()
                > 0),
    {
        !self.queues.steering.is_empty() || !self.queues.follow_up.is_empty()
    }

    /// Change the steering drain mode for subsequent eligible turn boundaries.
    pub fn set_steering_mode(&mut self, mode: QueueMode)
        ensures
            final(self)@ == (AgentModel { steering: mode, ..old(self)@ }),
    {
        self.steering = mode;
    }

    /// Return the currently configured steering drain mode.
    pub fn steering_mode(&self) -> (r: QueueMode)
        ensures
            r == self@.steering,
    {
        self.steering
    }

    /// Change the follow-up drain mode for subsequent idle boundaries.
    pub fn set_follow_up_mode(&mut self, mode: QueueMode)
        ensures
            final(self)@ == (AgentModel { follow_up: mode, ..old(self)@ }),
    {
        self.follow_up = mode;
    }

    /// Return the currently configured follow-up drain mode.
    pub fn follow_up_mode(&self) -> (r: QueueMode)
        ensures
            r == self@.follow_up,
    {
        self.follow_up
    }

    /// Clear transcript, transient state, last error, and explicit queues while idle.
    ///
    /// Reset never starts, cancels, or otherwise settles a run. Calling it while a run owns the
    /// agent is rejected so durable state cannot change beneath model/tool work.
    pub fn reset(&mut self) -> (r: Result<(), CoreError>)
        ensures
            r is Ok <==> owner(old(self)@.state.phase) is None,
            r is Ok ==> final(self)@ == after_reset(old(self)@),
            r matches Err(e) ==> e@ == refusal(old(self)@) && final(self)@ == old(self)@,
    {
        match self.owner_run() {
            None => {
                self.state.messages.clear();
                self.state.host_messages.clear();
                self.state.partial_response = None;
                self.state.is_streaming = false;
                self.state.pending_tool_calls.clear();
                self.state.last_error = None;
                self.state.accounting = ModelAccountingSnapshot::default();
                self.queues.clear();
                Ok(())
            },
            Some(run_id) => Err(CoreError::ActiveRun { run_id }),
        }
    }

    /// Request cancellation of the active run.
    ///
    /// An already-driving run remains active until it reaches a boundary, emits its terminal
    /// events and settles. A run that has not been driven has no such boundary, so it settles
    /// here.
    pub fn abort(&mut self, run: &mut RunHandle)
        requires
            old(run).wf(),
        ensures
            final(run).wf(),
            final(self)@ == after_abort(old(self)@, old(run)@),
            final(run)@ == old(run)@.stopped(),
    {
        let id = run.id();
        let settle_immediately = run.stop();
        self.state.partial_response = None;
        self.state.is_streaming = false;
        self.state.pending_tool_calls.clear();
        if settle_immediately {
            self.state.phase = AgentPhase::Idle;
        } else {
            match self.state.phase {
                AgentPhase::Idle => {},
                _ => {
                    self.state.phase = AgentPhase::Cancelling(id);
                },
            }
        }
        self.queues.clear();
        if settle_immediately {
            if let Some(current) = self.active_run {
                if current == id {
                    self.active_run = None;
                }
            }
        }
    }

    /// Whether no run owns this agent.
    pub fn is_idle(&self) -> (r: bool)
        ensures
            r == (owner(self@.state.phase) is None),
    {
        self.owner_run().is_none()
    }
}

fn take_contents(queued: Vec<QueuedMessage>) -> (r: Vec<String>)
    ensures
        crate::model::views(r@) == contents(crate::model::views(queued@)),
{
    let ghost all = contents(crate::model::views(queued@));
    let mut out: Vec<String> = Vec::new();
    let mut i: usize = 0;
    while i < queued.len()
        invariant
            i <= queued@.len(),
            all == contents(crate::model::views(queued@)),
            crate::model::views(out@) == all.take(i as int),
        decreases queued.len() - i,
    {
        out.push(queued[i].content.clone());
        assert(all.take(i + 1) =~= all.take(i as int).push(queued@[i as int]@.content));
        i = i + 1;
    }
    assert(all.take(i as int) =~= all);
    out
}

/// Configuration builder for an [`Agent`].
#[derive(Clone, Debug)]
pub struct AgentBuilder {
    system_prompt: String,
    model: Option<ModelDescriptor>,
    thinking_level: ThinkingLevel,
    host_messages: Vec<SerializedJson>,
    tools: ToolRegistry,
    provider: bool,
    compactor: bool,
    steering: QueueMode,
    follow_up: QueueMode,
}

/// Model of an [`AgentBuilder`].
#[verifier::ext_equal]
pub struct BuilderModel {
    pub system_prompt: Seq<char>,
    pub model: Option<ModelDescriptorModel>,
    pub thinking_level: ThinkingLevel,
    pub host_messages: Seq<Seq<char>>,
    pub tools: Seq<DefinitionModel>,
    pub provider: bool,
    pub compactor: bool,
    pub steering: QueueMode,
    pub follow_up: QueueMode,
}

impl BuilderModel {
    /// An empty profile without a provider.
    pub open spec fn fresh() -> BuilderModel {
        BuilderModel {
            system_prompt: Seq::empty(),
            model: None,
            thinking_level: ThinkingLevel::Default,
            host_messages: Seq::empty(),
            tools: Seq::empty(),
            provider: false,
            compactor: false,
            steering: QueueMode::OneAtATime,
            follow_up: QueueMode::OneAtATime,
        }
    }

    /// The agent that this configuration builds.
    pub open spec fn built(self) -> AgentModel {
        AgentModel {
            state: AgentStateModel {
                system_prompt: self.system_prompt,
                model: self.model,
                thinking_level: self.thinking_level,
                host_messages: self.host_messages,
                ..AgentStateModel::fresh()
            },
            queues: QueuesModel::fresh(),
            tools: self.tools,
            steering: self.steering,
            follow_up: self.follow_up,
            provider: self.provider,
            compactor: self.compactor,
            run_count: 0,
            active_run: None,
        }
    }
}

impl View for AgentBuilder {
    type V = BuilderModel;

    closed spec fn view(&self) -> BuilderModel {
        BuilderModel {
            system_prompt: self.system_prompt@,
            model: crate::model::opt_view(self.model),
            thinking_level: self.thinking_level,
            host_messages: crate::model::views(self.host_messages@),
            tools: self.tools@,
            provider: self.provider,
            compactor: self.compactor,
            steering: self.steering,
            follow_up: self.follow_up,
        }
    }
}

impl Default for AgentBuilder {
    fn default() -> (r: Self)
        ensures
            r.wf(),
            r@ == BuilderModel::fresh(),
    {
        AgentBuilder {
            system_prompt: String::new(),
            model: None,
            thinking_level: ThinkingLevel::Default,
            host_messages: Vec::new(),
            tools: ToolRegistry::default(),
            provider: false,
            compactor: false,
            steering: QueueMode::OneAtATime,
            follow_up: QueueMode::OneAtATime,
        }
    }
}

impl AgentBuilder {
    /// Tool names are distinct.
    pub closed spec fn wf(self) -> bool {
        self.tools.wf()
    }

    /// Set system instructions.
    pub fn system_prompt(self, prompt: String) -> (r: Self)
        ensures
            self.wf() ==> r.wf(),
            r@ == (BuilderModel { system_prompt: prompt@, ..self@ }),
    {
        AgentBuilder { system_prompt: prompt, ..self }
    }

    /// Set provider-independent model identity.
    pub fn model(self, model: ModelDescriptor) -> (r: Self)
        ensures
            self.wf() ==> r.wf(),
            r@ == (BuilderModel { model: Some(model@), ..self@ }),
    {
        AgentBuilder { model: Some(model), ..self }
    }

    /// Set reasoning level.
    pub fn thinking_level(self, level: ThinkingLevel) -> (r: Self)
        ensures
            self.wf() ==> r.wf(),
            r@ == (BuilderModel { thinking_level: level, ..self@ }),
    {
        AgentBuilder { thinking_level: level, ..self }
    }

    /// Add one explicit host-only context value.
    pub fn host_message(self, message: SerializedJson) -> (r: Self)
        ensures
            self.wf() ==> r.wf(),
            r@ == (BuilderModel { host_messages: self@.host_messages.push(message@), ..self@ }),
    {
        let mut builder = self;
        builder.host_messages.push(message);
        builder
    }

    /// Replace the complete tool registry.
    pub fn tools(self, tools: ToolRegistry) -> (r: Self)
        requires
            tools.wf(),
        ensures
            r.wf(),
            r@ == (BuilderModel { tools: tools@, ..self@ }),
    {
        AgentBuilder { tools, ..self }
    }

    /// Add one tool while preserving insertion order.
    pub fn tool(self, tool: ToolDefinition) -> (r: Self)
        requires
            self.wf(),
        ensures
            r.wf(),
            r@ == (BuilderModel { tools: crate::tool::inserted(self@.tools, tool@), ..self@ }),
    {
        let mut builder = self;
        builder.tools.insert(tool);
        builder
    }

    /// Remove one named capability before building the agent.
    pub fn remove_tool(self, name: &str) -> (r: Self)
        requires
            self.wf(),
        ensures
            r.wf(),
            r@ == (BuilderModel { tools: crate::tool::removed(self@.tools, name@), ..self@ }),
    {
        let mut builder = self;
        let _removed = builder.tools.remove(name);
        builder
    }

    /// Note that the host attaches a model provider.
    pub fn model_provider(self) -> (r: Self)
        ensures
            self.wf() ==> r.wf(),
            r@ == (BuilderModel { provider: true, ..self@ }),
    {
        AgentBuilder { provider: true, ..self }
    }

    /// Note that the host attaches a manual compactor.
    pub fn compactor(self) -> (r: Self)
        ensures
            self.wf() ==> r.wf(),
            r@ == (BuilderModel { compactor: true, ..self@ }),
    {
        AgentBuilder { compactor: true, ..self }
    }

    /// Select how steering messages are drained at eligible turn boundaries.
    pub fn steering_mode(self, mode: QueueMode) -> (r: Self)
        ensures
            self.wf() ==> r.wf(),
            r@ == (BuilderModel { steering: mode, ..self@ }),
    {
        AgentBuilder { steering: mode, ..self }
    }

    /// Select how follow-up messages are drained at the idle boundary.
    pub fn follow_up_mode(self, mode: QueueMode) -> (r: Self)
        ensures
            self.wf() ==> r.wf(),
            r@ == (BuilderModel { follow_up: mode, ..self@ }),
    {
        AgentBuilder { follow_up: mode, ..self }
    }

    /// Build an owned agent.
    pub fn build(self) -> (r: Agent)
        requires
            self.wf(),
        ensures
            r.wf(),
            r@ == self@.built(),
    {
        let mut state = AgentState::default();
        state.system_prompt = self.system_prompt;
        state.model = self.model;
        state.thinking_level = self.thinking_level;
        state.host_messages = self.host_messages;
        Agent {
            state,
            queues: AgentQueues::default(),
            tools: self.tools,
            steering: self.steering,
            follow_up: self.follow_up,
            provider: self.provider,
            compactor: self.compactor,
            run_count: 0,
            active_run: None,
        }
    }
}

} // verus!
