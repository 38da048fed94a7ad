//! One OpenRouter completion, from the request to its stream.
//!
//! The host posts the payload, looks a generation up, and rests, each when it is asked to; the
//! completion decides what happens next. A failed attempt is repeated within the retry policy,
//! and a completion that reports no price is priced by a lookup of its generation.

use crate::provider::local::cancelled_events;
use crate::provider::openrouter::{
    accounting_in, bytes_transient, cost_of, parse_generation_cost, prefix_of, prepared, rejection,
    response_of, settled_events, settled_usage, transient, CostTurnModel, OpenRouterCostTurn,
    OpenRouterErrorSource, OpenRouterModel, OpenRouterProvider, ParsedModel, ParsedResponse,
    ReportModel, RetryPolicy, RetryableError,
};
use crate::provider::transport::{repeatable, TransportResponse};
use crate::scheduler::{ModelRequest, ModelStream, RequestModel, StreamEventModel};
use crate::text::replaced;
use vstd::prelude::*;

verus! {

broadcast use crate::model::group_views;

/// What a completion waits for.
#[derive(Clone, Copy, Debug, Eq, PartialEq, Structural)]
pub enum CompletionPhase {
    /// An attempt is in flight.
    Posted,
    /// The host rests before another attempt.
    Resting,
    /// A lookup of the generation is in flight.
    Fetching,
    /// The host rests before another lookup.
    Pausing,
    /// Nothing: the stream was given.
    Settled,
}

/// What the host does next.
#[derive(Debug)]
pub enum CompletionAction {
    /// Post this payload.
    Post(String),
    /// Look up the generation with this identifier.
    Fetch(String),
    /// Rest for these milliseconds, or until cancellation.
    Rest(u64),
    /// Hand this stream to the run.
    Done(ModelStream),
}

/// Model of a [`CompletionAction`].
#[verifier::ext_equal]
pub enum CompletionActionModel {
    Post(Seq<char>),
    Fetch(Seq<char>),
    Rest(u64),
    Done(Seq<StreamEventModel>),
}

impl View for CompletionAction {
    type V = CompletionActionModel;

    open spec fn view(&self) -> CompletionActionModel {
        match self {
            CompletionAction::Post(payload) => CompletionActionModel::Post(payload@),
            CompletionAction::Fetch(id) => CompletionActionModel::Fetch(id@),
            CompletionAction::Rest(delay) => CompletionActionModel::Rest(*delay),
            CompletionAction::Done(stream) => CompletionActionModel::Done(
                crate::model::views(stream.events@),
            ),
        }
    }
}

/// One completion in progress.
pub struct OpenRouterCompletion {
    policy: RetryPolicy,
    phase: CompletionPhase,
    payload: String,
    attempt: u32,
    parsed: Option<ParsedResponse>,
    lookup: u32,
}

/// Model of an [`OpenRouterCompletion`].
#[verifier::ext_equal]
pub struct CompletionModel {
    /// How often, and how soon, an attempt is repeated.
    pub policy: RetryPolicy,
    /// What the completion waits for.
    pub phase: CompletionPhase,
    /// What is posted.
    pub payload: Seq<char>,
    /// Attempts made, the one in flight included.
    pub attempt: u32,
    /// The accepted response.
    pub parsed: Option<ParsedModel>,
    /// Lookups made before the one in flight.
    pub lookup: u32,
}

impl View for OpenRouterCompletion {
    type V = CompletionModel;

    closed spec fn view(&self) -> CompletionModel {
        CompletionModel {
            policy: self.policy,
            phase: self.phase,
            payload: self.payload@,
            attempt: self.attempt,
            parsed: crate::model::opt_view(self.parsed),
            lookup: self.lookup,
        }
    }
}

/// A completion, the adapter it accounts to, and what the host does next.
#[verifier::ext_equal]
pub struct CompletionNext {
    pub completion: CompletionModel,
    pub provider: OpenRouterModel,
    pub action: CompletionActionModel,
}

/// Milliseconds before the attempt or lookup that follows `made` earlier ones.
pub open spec fn delay_after(policy: RetryPolicy, made: u32) -> u64 {
    if policy.base_delay_ms * (made + 1) > u64::MAX {
        u64::MAX
    } else {
        (policy.base_delay_ms * (made + 1)) as u64
    }
}

/// The events of a request that failed.
pub open spec fn failed_events(message: Seq<char>, cancelled: bool) -> Seq<StreamEventModel> {
    if cancelled {
        cancelled_events()
    } else {
        seq![StreamEventModel::Error { message }]
    }
}

/// A request that begins.
pub open spec fn begun(
    provider: OpenRouterModel,
    request: RequestModel,
    policy: RetryPolicy,
    cancelled: bool,
) -> CompletionNext {
    let settled = CompletionModel {
        policy,
        phase: CompletionPhase::Settled,
        payload: Seq::empty(),
        attempt: 1,
        parsed: None,
        lookup: 0,
    };
    if cancelled {
        CompletionNext {
            completion: settled,
            provider,
            action: CompletionActionModel::Done(cancelled_events()),
        }
    } else {
        match prepared(provider.config, request) {
            Err(message) => CompletionNext {
                completion: settled,
                provider: OpenRouterModel { last_error: Some(rejection(message)), ..provider },
                action: CompletionActionModel::Done(failed_events(message, false)),
            },
            Ok(payload) => CompletionNext {
                completion: CompletionModel {
                    phase: CompletionPhase::Posted,
                    payload,
                    ..settled
                },
                provider: OpenRouterModel { last_error: None, ..provider },
                action: CompletionActionModel::Post(payload),
            },
        }
    }
}

impl CompletionModel {
    /// Whether the attempts and lookups stay within the policy.
    pub open spec fn bounded(self) -> bool {
        1 <= self.attempt <= self.policy.max_retries + 1 && self.lookup <= self.policy.max_retries
    }

    /// The validity of a completion.
    pub open spec fn valid(self) -> bool {
        &&& self.bounded()
        &&& self.phase is Posted || self.phase is Resting ==> self.parsed is None
        &&& self.phase is Resting ==> self.attempt <= self.policy.max_retries
        &&& self.phase is Pausing ==> self.lookup < self.policy.max_retries
        &&& self.phase is Fetching || self.phase is Pausing ==> (self.parsed matches Some(parsed)
            && parsed.events.len() > 0 && parsed.generation_id is Some)
    }

    /// An attempt that failed: it is repeated within the policy, unless the request was
    /// cancelled.
    pub open spec fn refused(
        self,
        provider: OpenRouterModel,
        message: Seq<char>,
        retryable: bool,
        cancelled: bool,
    ) -> CompletionNext {
        if retryable && !cancelled && self.attempt <= self.policy.max_retries {
            CompletionNext {
                completion: CompletionModel { phase: CompletionPhase::Resting, ..self },
                provider,
                action: CompletionActionModel::Rest(
                    delay_after(self.policy, (self.attempt - 1) as u32),
                ),
            }
        } else {
            CompletionNext {
                completion: CompletionModel { phase: CompletionPhase::Settled, ..self },
                provider,
                action: CompletionActionModel::Done(failed_events(message, cancelled)),
            }
        }
    }

    /// An attempt that the transport failed.
    pub open spec fn failed(self, provider: OpenRouterModel, message: Seq<char>, cancelled: bool)
        -> CompletionNext {
        let retryable = !cancelled && repeatable(message);
        let report = ReportModel {
            source: OpenRouterErrorSource::Transport,
            message,
            status_code: None,
            retryable,
            attempt: self.attempt,
            response_bytes: None,
            request_bytes: Some(posted_bytes(self.payload)),
            response_prefix: None,
        };
        self.refused(
            OpenRouterModel { last_error: Some(report), ..provider },
            message,
            retryable,
            cancelled,
        )
    }

    /// A completion that settles with the accounting of its generation, if there is any.
    pub open spec fn settled(
        self,
        provider: OpenRouterModel,
        parsed: ParsedModel,
        generation: Option<CostTurnModel>,
    ) -> CompletionNext {
        let cost = cost_of(parsed, generation, provider.config.model);
        let usage = settled_usage(parsed.usage, cost);
        CompletionNext {
            completion: CompletionModel {
                phase: CompletionPhase::Settled,
                parsed: None,
                ..self
            },
            provider: (OpenRouterModel { last_error: None, ..provider }).recorded(usage, cost),
            action: CompletionActionModel::Done(settled_events(parsed.events, usage)),
        }
    }

    /// A response that was accepted: it settles, unless its price has to be looked up.
    pub open spec fn accepted(self, provider: OpenRouterModel, parsed: ParsedModel, cancelled: bool)
        -> CompletionNext {
        if cancelled {
            CompletionNext {
                completion: CompletionModel { phase: CompletionPhase::Settled, ..self },
                provider,
                action: CompletionActionModel::Done(cancelled_events()),
            }
        } else {
            match (parsed.inline_cost, parsed.generation_id) {
                (None, Some(id)) => CompletionNext {
                    completion: CompletionModel {
                        phase: CompletionPhase::Fetching,
                        parsed: Some(parsed),
                        lookup: 0,
                        ..self
                    },
                    provider: OpenRouterModel { last_error: None, ..provider },
                    action: CompletionActionModel::Fetch(id),
                },
                _ => self.settled(provider, parsed, None),
            }
        }
    }

    /// An attempt that the transport delivered.
    pub open spec fn delivered(
        self,
        provider: OpenRouterModel,
        body: Seq<u8>,
        status_code: Option<u16>,
        cancelled: bool,
    ) -> CompletionNext {
        match response_of(body) {
            Ok(parsed) => self.accepted(provider, parsed, cancelled),
            Err(text) => {
                let key = provider.config.api_key;
                let message = replaced(text, key, "[redacted]"@);
                let retryable = (status_code matches Some(code) && transient(code as u64))
                    || bytes_transient(body);
                let report = ReportModel {
                    source: OpenRouterErrorSource::Response,
                    message,
                    status_code,
                    retryable,
                    attempt: self.attempt,
                    response_bytes: Some(body.len() as u64),
                    request_bytes: Some(posted_bytes(self.payload)),
                    response_prefix: Some(prefix_of(body, Some(key))),
                };
                self.refused(
                    OpenRouterModel { last_error: Some(report), ..provider },
                    message,
                    retryable,
                    cancelled,
                )
            },
        }
    }

    /// A rest that ended: the next attempt or lookup is made, unless the request was cancelled.
    pub open spec fn rested(self, provider: OpenRouterModel, cancelled: bool) -> CompletionNext {
        match self.parsed {
            None => if cancelled {
                CompletionNext {
                    completion: CompletionModel { phase: CompletionPhase::Settled, ..self },
                    provider,
                    action: CompletionActionModel::Done(cancelled_events()),
                }
            } else {
                CompletionNext {
                    completion: CompletionModel {
                        phase: CompletionPhase::Posted,
                        attempt: if self.attempt < u32::MAX {
                            (self.attempt + 1) as u32
                        } else {
                            self.attempt
                        },
                        ..self
                    },
                    provider,
                    action: CompletionActionModel::Post(self.payload),
                }
            },
            Some(parsed) => if cancelled {
                self.settled(provider, parsed, None)
            } else {
                CompletionNext {
                    completion: CompletionModel {
                        phase: CompletionPhase::Fetching,
                        lookup: (self.lookup + 1) as u32,
                        ..self
                    },
                    provider,
                    action: CompletionActionModel::Fetch(parsed.generation_id->0),
                }
            },
        }
    }

    /// A lookup that ended with these bytes, or with none. One that gives no accounting is
    /// repeated within the policy.
    pub open spec fn fetched(self, provider: OpenRouterModel, body: Option<Seq<u8>>)
        -> CompletionNext {
        let parsed = self.parsed->0;
        match accounting_of(body, parsed) {
            Some(cost) => self.settled(provider, parsed, Some(cost)),
            None => if self.lookup < self.policy.max_retries {
                CompletionNext {
                    completion: CompletionModel { phase: CompletionPhase::Pausing, ..self },
                    provider,
                    action: CompletionActionModel::Rest(delay_after(self.policy, self.lookup)),
                }
            } else {
                self.settled(provider, parsed, None)
            },
        }
    }
}

/// The accounting that a lookup gives.
pub open spec fn accounting_of(body: Option<Seq<u8>>, parsed: ParsedModel) -> Option<
    CostTurnModel,
> {
    match body {
        None => None,
        Some(bytes) => accounting_in(bytes, parsed.usage),
    }
}

/// The bytes of a posted payload.
pub open spec fn posted_bytes(payload: Seq<char>) -> u64 {
    vstd::utf8::encode_utf8(payload).len() as u64
}

impl OpenRouterCompletion {
    /// The validity of a completion.
    pub closed spec fn wf(&self) -> bool {
        self@.valid()
    }

    /// Begin a request.
    pub fn begin(
        provider: &mut OpenRouterProvider,
        request: &ModelRequest,
        policy: RetryPolicy,
        cancelled: bool,
    ) -> (r: (Self, CompletionAction))
        ensures
            r.0.wf(),
            (CompletionNext { completion: r.0@, provider: final(provider)@, action: r.1@ })
                == begun(old(provider)@, request@, policy, cancelled),
    {
        let mut completion = OpenRouterCompletion {
            policy,
            phase: CompletionPhase::Settled,
            payload: String::new(),
            attempt: 1,
            parsed: None,
            lookup: 0,
        };
        assert(completion.payload@ =~= Seq::<char>::empty());
        if cancelled {
            let stream = OpenRouterProvider::failed_stream(String::new(), true);
            return (completion, CompletionAction::Done(stream));
        }
        match provider.prepare(request) {
            Err(message) => {
                let stream = OpenRouterProvider::failed_stream(message, false);
                (completion, CompletionAction::Done(stream))
            },
            Ok(payload) => {
                completion.phase = CompletionPhase::Posted;
                completion.payload = payload.clone();
                (completion, CompletionAction::Post(payload))
            },
        }
    }

    /// The completion in progress.
    pub fn phase(&self) -> (r: CompletionPhase)
        ensures
            r == self@.phase,
    {
        self.phase
    }

    fn refuse(&mut self, error: RetryableError, cancelled: bool) -> (r: CompletionAction)
        requires
            old(self).wf(),
            old(self)@.phase is Posted,
        ensures
            final(self).wf(),
            forall|provider: OpenRouterModel|
                #![trigger old(self)@.refused(provider, error.message@, error.retryable, cancelled)]
                (CompletionNext { completion: final(self)@, provider, action: r@ }) == old(
                    self,
                )@.refused(provider, error.message@, error.retryable, cancelled),
    {
        if self.policy.retries(self.attempt, error.retryable, cancelled) {
            self.phase = CompletionPhase::Resting;
            CompletionAction::Rest(self.policy.delay_before_retry(self.attempt - 1))
        } else {
            self.phase = CompletionPhase::Settled;
            CompletionAction::Done(OpenRouterProvider::failed_stream(error.message, cancelled))
        }
    }

    fn settle(
        &mut self,
        provider: &mut OpenRouterProvider,
        parsed: ParsedResponse,
        generation: Option<OpenRouterCostTurn>,
    ) -> (r: CompletionAction)
        requires
            old(self)@.bounded(),
            parsed@.events.len() > 0,
            old(provider)@.costs.len() < usize::MAX,
        ensures
            final(self).wf(),
            (CompletionNext { completion: final(self)@, provider: final(provider)@, action: r@ })
                == old(self)@.settled(
                old(provider)@,
                parsed@,
                crate::model::opt_view(generation),
            ),
    {
        self.phase = CompletionPhase::Settled;
        self.parsed = None;
        CompletionAction::Done(provider.finish(parsed, generation))
    }

    /// Take an attempt that could not be made. It is not repeated.
    pub fn unsent(&mut self, message: String, cancelled: bool) -> (r: CompletionAction)
        requires
            old(self).wf(),
            old(self)@.phase is Posted,
        ensures
            final(self).wf(),
            final(self)@ == (CompletionModel { phase: CompletionPhase::Settled, ..old(self)@ }),
            r@ == CompletionActionModel::Done(failed_events(message@, cancelled)),
    {
        self.phase = CompletionPhase::Settled;
        CompletionAction::Done(OpenRouterProvider::failed_stream(message, cancelled))
    }

    /// Take what the transport made of an attempt.
    pub fn delivered(
        &mut self,
        provider: &mut OpenRouterProvider,
        outcome: Result<TransportResponse, String>,
        cancelled: bool,
    ) -> (r: CompletionAction)
        requires
            old(self).wf(),
            old(self)@.phase is Posted,
            old(provider)@.costs.len() < usize::MAX,
        ensures
            final(self).wf(),
            (CompletionNext { completion: final(self)@, provider: final(provider)@, action: r@ })
                == match outcome {
                Err(message) => old(self)@.failed(old(provider)@, message@, cancelled),
                Ok(response) => old(self)@.delivered(
                    old(provider)@,
                    response.body@,
                    response.status_code,
                    cancelled,
                ),
            },
    {
        let bytes = self.payload.as_str().as_bytes().len() as u64;
        match outcome {
            Err(message) => {
                let error = provider.transport_failed(message, self.attempt, bytes, cancelled);
                self.refuse(error, cancelled)
            },
            Ok(response) => {
                match provider.read_response(
                    response.body.as_slice(),
                    response.status_code,
                    self.attempt,
                    bytes,
                ) {
                    Err(error) => self.refuse(error, cancelled),
                    Ok(parsed) => self.accept(provider, parsed, cancelled),
                }
            },
        }
    }

    fn accept(
        &mut self,
        provider: &mut OpenRouterProvider,
        parsed: ParsedResponse,
        cancelled: bool,
    ) -> (r: CompletionAction)
        requires
            old(self).wf(),
            old(self)@.phase is Posted,
            parsed@.events.len() > 0,
            old(provider)@.costs.len() < usize::MAX,
        ensures
            final(self).wf(),
            (CompletionNext { completion: final(self)@, provider: final(provider)@, action: r@ })
                == old(self)@.accepted(old(provider)@, parsed@, cancelled),
    {
        if cancelled {
            self.phase = CompletionPhase::Settled;
            return CompletionAction::Done(OpenRouterProvider::failed_stream(String::new(), true));
        }
        if parsed.inline_cost.is_some() {
            return self.settle(provider, parsed, None);
        }
        match &parsed.generation_id {
            None => self.settle(provider, parsed, None),
            Some(id) => {
                let id = id.clone();
                provider.clear_error();
                self.phase = CompletionPhase::Fetching;
                self.parsed = Some(parsed);
                self.lookup = 0;
                CompletionAction::Fetch(id)
            },
        }
    }

    /// Take the end of a rest.
    pub fn rested(&mut self, provider: &mut OpenRouterProvider, cancelled: bool) -> (r:
        CompletionAction)
        requires
            old(self).wf(),
            old(self)@.phase is Resting || old(self)@.phase is Pausing,
            old(provider)@.costs.len() < usize::MAX,
        ensures
            final(self).wf(),
            (CompletionNext { completion: final(self)@, provider: final(provider)@, action: r@ })
                == old(self)@.rested(old(provider)@, cancelled),
    {
        match self.parsed.take() {
            None => {
                if cancelled {
                    self.phase = CompletionPhase::Settled;
                    let stream = OpenRouterProvider::failed_stream(String::new(), true);
                    return CompletionAction::Done(stream);
                }
                self.phase = CompletionPhase::Posted;
                self.attempt = self.attempt.saturating_add(1);
                CompletionAction::Post(self.payload.clone())
            },
            Some(parsed) => {
                if cancelled {
                    return self.settle(provider, parsed, None);
                }
                let id = match &parsed.generation_id {
                    Some(id) => id.clone(),
                    None => String::new(),
                };
                self.phase = CompletionPhase::Fetching;
                self.lookup = self.lookup + 1;
                self.parsed = Some(parsed);
                CompletionAction::Fetch(id)
            },
        }
    }

    /// Take the bytes of a lookup, or its failure.
    pub fn fetched(&mut self, provider: &mut OpenRouterProvider, body: Option<Vec<u8>>) -> (r:
        CompletionAction)
        requires
            old(self).wf(),
            old(self)@.phase is Fetching,
            old(provider)@.costs.len() < usize::MAX,
        ensures
            final(self).wf(),
            (CompletionNext { completion: final(self)@, provider: final(provider)@, action: r@ })
                == old(self)@.fetched(
                old(provider)@,
                match body {
                    Some(bytes) => Some(bytes@),
                    None => None,
                },
            ),
    {
        if let Some(parsed) = self.parsed.take() {
            let generation = match &body {
                Some(bytes) => parse_generation_cost(bytes.as_slice(), &parsed.usage),
                None => None,
            };
            if generation.is_some() || self.lookup >= self.policy.max_retries {
                return self.settle(provider, parsed, generation);
            }
            self.parsed = Some(parsed);
        }
        self.phase = CompletionPhase::Pausing;
        CompletionAction::Rest(self.policy.delay_before_retry(self.lookup))
    }

    /// Take a lookup that could not be made: the completion settles without a price.
    pub fn unfetched(&mut self, provider: &mut OpenRouterProvider) -> (r: CompletionAction)
        requires
            old(self).wf(),
            old(self)@.phase is Fetching,
            old(provider)@.costs.len() < usize::MAX,
        ensures
            final(self).wf(),
            (CompletionNext { completion: final(self)@, provider: final(provider)@, action: r@ })
                == old(self)@.settled(old(provider)@, old(self)@.parsed->0, None),
    {
        match self.parsed.take() {
            Some(parsed) => self.settle(provider, parsed, None),
            None => CompletionAction::Rest(0),
        }
    }
}

/// A cancelled request is neither sent nor priced any further: every step that sees the
/// cancellation settles.
pub proof fn law_cancelled_requests_settle(
    completion: CompletionModel,
    provider: OpenRouterModel,
    request: RequestModel,
    policy: RetryPolicy,
    message: Seq<char>,
    body: Seq<u8>,
    status_code: Option<u16>,
)
    ensures
        begun(provider, request, policy, true).action is Done,
        completion.failed(provider, message, true).action is Done,
        completion.delivered(provider, body, status_code, true).action is Done,
        completion.rested(provider, true).action is Done,
{
}

/// Attempts are bounded by the policy: a request is posted again only after fewer attempts than
/// it allows, and each post is counted.
pub proof fn law_attempts_are_bounded(
    completion: CompletionModel,
    provider: OpenRouterModel,
    cancelled: bool,
)
    requires
        completion.valid(),
        completion.phase is Resting || completion.phase is Pausing,
        completion.rested(provider, cancelled).action is Post,
        completion.attempt < u32::MAX,
    ensures
        completion.rested(provider, cancelled).completion.attempt == completion.attempt + 1,
        completion.attempt + 1 <= completion.policy.max_retries + 1,
{
}

/// An accepted completion is never requested again: once its price is looked up, every further
/// step looks up, rests or settles.
pub proof fn law_accepted_completions_are_not_repeated(
    completion: CompletionModel,
    provider: OpenRouterModel,
    body: Option<Seq<u8>>,
    cancelled: bool,
)
    requires
        completion.valid(),
        completion.phase is Fetching || completion.phase is Pausing,
    ensures
        !(completion.fetched(provider, body).action is Post),
        !(completion.rested(provider, cancelled).action is Post),
{
}

/// Exactly the completions that settle with a response are accounted for, each as one turn.
pub proof fn law_each_completion_is_one_turn(
    completion: CompletionModel,
    provider: OpenRouterModel,
    parsed: ParsedModel,
    generation: Option<CostTurnModel>,
    message: Seq<char>,
    cancelled: bool,
)
    ensures
        completion.settled(provider, parsed, generation).provider.costs.len()
            == provider.costs.len() + 1,
        completion.settled(provider, parsed, generation).provider.costs.drop_last()
            == provider.costs,
        completion.failed(provider, message, cancelled).provider.costs == provider.costs,
        completion.failed(provider, message, cancelled).provider.usage == provider.usage,
{
    let cost = cost_of(parsed, generation, provider.config.model);
    assert(provider.costs.push(
        CostTurnModel { turn: provider.costs.len() + 1, ..cost },
    ).drop_last() =~= provider.costs);
}

} // verus!
