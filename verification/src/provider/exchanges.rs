//! The course of a completion: what is posted, when it is posted again, and what it settles with.

use crate::decimal::decimal_sum;
use crate::json::{serde_from_slice, serde_to_string};
use crate::provider::commandcode::{self, CommandCodeConfigModel};
use crate::provider::completion::{
    begun, CompletionActionModel, CompletionModel, CompletionPhase,
};
use crate::provider::local::{self, LocalConfigModel};
use crate::provider::openrouter::{
    self, cost_of, prefix_of, CostTurnModel, OpenRouterCostSource, OpenRouterErrorSource, OpenRouterModel,
    ParsedModel, RetryPolicy, RESPONSE_PREFIX_CHARS,
};
use crate::provider::replies::count_in;
use crate::provider::transport::{
    has_content, last_status, parts_of, repeatable, settled, TransportEnd,
};
use crate::scheduler::{RequestModel, StreamEventModel};
use crate::state::{StopReason, UsageModel};
use crate::text::{replaced, utf8_lossy};
use vstd::prelude::*;

verus! {

/// A request is posted once as the text of its payload, unless it is cancelled, or refused for
/// the model it names or for a context that cannot be read. Nothing is posted then, and nothing
/// is charged.
pub proof fn law_requests_are_posted_or_refused(
    provider: OpenRouterModel,
    request: RequestModel,
    policy: RetryPolicy,
    cancelled: bool,
)
    ensures
        ({
            let step = begun(provider, request, policy, cancelled);
            let sound = provider.config.fault() is None && (request.model matches Some(model)
                && model.provider == "openrouter"@ && model.model == provider.config.model);
            let payload = openrouter::payload_of(provider.config, request);
            &&& step.provider.costs == provider.costs
            &&& step.provider.usage == provider.usage
            &&& step.provider.config == provider.config
            &&& cancelled ==> step.action == CompletionActionModel::Done(
                seq![StreamEventModel::End(StopReason::Cancelled)],
            ) && step.provider == provider
            &&& !cancelled && sound && payload is Ok ==> {
                &&& step.action == CompletionActionModel::Post(serde_to_string(payload->Ok_0))
                &&& step.completion.payload == serde_to_string(payload->Ok_0)
                &&& step.completion.attempt == 1
                &&& step.completion.policy == policy
                &&& step.provider.last_error is None
            }
            &&& !cancelled && !(sound && payload is Ok) ==> {
                &&& step.action matches CompletionActionModel::Done(events)
                &&& events.len() == 1
                &&& events[0] matches StreamEventModel::Error { message }
                &&& step.provider.last_error matches Some(report)
                &&& report.message == message
                &&& report.source == OpenRouterErrorSource::Adapter
                &&& !report.retryable
            }
        }),
{
}

/// A refused attempt is made again only where its failure is transient, nobody cancelled it and
/// attempts are left; the pause grows with the attempts made. Otherwise the failure is the
/// answer.
pub proof fn law_only_transient_failures_are_repeated(
    completion: CompletionModel,
    provider: OpenRouterModel,
    message: Seq<char>,
    retryable: bool,
    cancelled: bool,
)
    requires
        completion.attempt >= 1,
    ensures
        ({
            let step = completion.refused(provider, message, retryable, cancelled);
            let pause = completion.policy.base_delay_ms * completion.attempt;
            &&& step.provider == provider
            &&& step.completion.payload == completion.payload
            &&& step.completion.attempt == completion.attempt
            &&& if retryable && !cancelled && completion.attempt <= completion.policy.max_retries {
                step.action == CompletionActionModel::Rest(
                    if pause > u64::MAX {
                        u64::MAX
                    } else {
                        pause as u64
                    },
                ) && step.completion.phase == CompletionPhase::Resting
            } else if cancelled {
                step.action == CompletionActionModel::Done(
                    seq![StreamEventModel::End(StopReason::Cancelled)],
                )
            } else {
                step.action == CompletionActionModel::Done(
                    seq![StreamEventModel::Error { message }],
                )
            }
        }),
{
}

/// A failed transport is repeated only where its report allows it; the report is kept.
pub proof fn law_failed_transports_are_reported(
    completion: CompletionModel,
    provider: OpenRouterModel,
    message: Seq<char>,
    cancelled: bool,
)
    ensures
        ({
            let step = completion.failed(provider, message, cancelled);
            &&& step.action is Rest ==> repeatable(message) && !cancelled && completion.attempt
                <= completion.policy.max_retries
            &&& repeatable(message) && !cancelled && completion.attempt
                <= completion.policy.max_retries ==> step.action is Rest
            &&& step.provider.last_error matches Some(report)
            &&& report.message == message
            &&& report.source == OpenRouterErrorSource::Transport
            &&& report.attempt == completion.attempt
            &&& report.retryable == (repeatable(message) && !cancelled)
        }),
{
}

/// A response that cannot be taken is repeated only where its status, or the code that its body
/// reports, is that of a timeout, of too many requests or of a failing server.
pub proof fn law_refused_responses_are_reported(
    completion: CompletionModel,
    provider: OpenRouterModel,
    body: Seq<u8>,
    status: Option<u16>,
    cancelled: bool,
)
    requires
        openrouter::response_of(body) is Err,
    ensures
        ({
            let step = completion.delivered(provider, body, status, cancelled);
            let by_status = status is Some && (status->0 == 408 || status->0 == 429 || 500
                <= status->0 <= 599);
            let code = match serde_from_slice(body) {
                Some(response) => match response.get("error"@) {
                    Some(error) => count_in(error, "code"@),
                    None => None,
                },
                None => None,
            };
            let by_body = code is Some && (code->0 == 408 || code->0 == 429 || 500 <= code->0
                <= 599);
            &&& step.action is Rest <==> (by_status || by_body) && !cancelled && completion.attempt
                <= completion.policy.max_retries
            &&& step.provider.last_error matches Some(report)
            &&& report.retryable == (by_status || by_body)
            &&& report.status_code == status
            &&& report.source == OpenRouterErrorSource::Response
            &&& report.response_bytes == Some(body.len() as u64)
            &&& step.provider.costs == provider.costs
        }),
{
}

/// After its pause, a refused request is posted again unchanged, and counted.
pub proof fn law_repeated_requests_are_the_same(
    completion: CompletionModel,
    provider: OpenRouterModel,
)
    requires
        completion.parsed is None,
        completion.attempt < u32::MAX,
    ensures
        ({
            let step = completion.rested(provider, false);
            &&& step.action == CompletionActionModel::Post(completion.payload)
            &&& step.completion.payload == completion.payload
            &&& step.completion.attempt == completion.attempt + 1
            &&& step.completion.phase == CompletionPhase::Posted
            &&& step.provider == provider
        }),
{
}

/// A completion without a price of its own is looked up by its identifier; one with a price, or
/// without an identifier, settles at once.
pub proof fn law_prices_are_looked_up_by_identifier(
    completion: CompletionModel,
    provider: OpenRouterModel,
    body: Seq<u8>,
    status: Option<u16>,
    parsed: ParsedModel,
)
    requires
        openrouter::response_of(body) == Ok::<ParsedModel, Seq<char>>(parsed),
    ensures
        ({
            let step = completion.delivered(provider, body, status, false);
            &&& parsed.inline_cost is None && parsed.generation_id is Some ==> step.action
                == CompletionActionModel::Fetch(parsed.generation_id->0)
                && step.completion.parsed == Some(parsed) && step.completion.lookup == 0
                && step.provider.costs == provider.costs
            &&& parsed.inline_cost is Some || parsed.generation_id is None ==> step
                == completion.settled(provider, parsed, None)
            &&& completion.delivered(provider, body, status, true).action
                == CompletionActionModel::Done(seq![StreamEventModel::End(StopReason::Cancelled)])
        }),
{
}

/// The price of a completion is its own, else that of its generation, else none; without one, the
/// record still names the model and the counts.
pub proof fn law_own_prices_come_first(
    parsed: ParsedModel,
    generation: Option<CostTurnModel>,
    model: Seq<char>,
)
    ensures
        parsed.inline_cost matches Some(cost) ==> cost_of(parsed, generation, model) == cost,
        parsed.inline_cost is None && generation is Some ==> cost_of(parsed, generation, model)
            == generation->0,
        parsed.inline_cost is None && generation is None ==> {
            let cost = cost_of(parsed, generation, model);
            &&& cost.source == OpenRouterCostSource::Unavailable
            &&& cost.total_usd_exact is None
            &&& cost.upstream_inference_usd_exact is None
            &&& cost.model == Some(model)
            &&& cost.input_tokens == parsed.usage.input_tokens
            &&& cost.output_tokens == parsed.usage.output_tokens
            &&& cost.reasoning_tokens == parsed.usage.reasoning_tokens
        },
{
}

/// Whether a stream is another with one report of usage before its last event.
pub open spec fn reports_usage(
    stream: Seq<StreamEventModel>,
    events: Seq<StreamEventModel>,
    usage: UsageModel,
) -> bool {
    &&& stream.len() == events.len() + 1
    &&& forall|i: int| 0 <= i < events.len() - 1 ==> stream[i] == #[trigger] events[i]
    &&& stream[events.len() - 1] == StreamEventModel::Usage(usage)
    &&& stream.last() == events.last()
}

/// A completion settles with all of its events. Its usage, with its price, stands before the last
/// of them, is added to that of the adapter, and is recorded as the next turn.
pub proof fn law_settled_completions_keep_their_events(
    completion: CompletionModel,
    provider: OpenRouterModel,
    parsed: ParsedModel,
    generation: Option<CostTurnModel>,
)
    requires
        parsed.events.len() > 0,
    ensures
        ({
            let step = completion.settled(provider, parsed, generation);
            let cost = cost_of(parsed, generation, provider.config.model);
            &&& step.action matches CompletionActionModel::Done(stream)
            &&& stream == parsed.events || exists|usage: UsageModel| #[trigger]
                reports_usage(stream, parsed.events, usage) && usage.input_tokens
                    == parsed.usage.input_tokens && usage.output_tokens
                    == parsed.usage.output_tokens && usage.reasoning_tokens
                    == parsed.usage.reasoning_tokens && usage.cost == cost.total_usd_exact
            &&& stream == parsed.events ==> cost.total_usd_exact is None
                && parsed.usage.input_tokens is None && parsed.usage.output_tokens is None
            &&& step.provider.costs.len() == provider.costs.len() + 1
            &&& step.provider.costs.last().turn == provider.costs.len() + 1
            &&& step.provider.costs.last().total_usd_exact == cost.total_usd_exact
            &&& step.provider.costs.last().source == cost.source
            &&& step.provider.costs.last().model == cost.model
            &&& forall|i: int|
                0 <= i < provider.costs.len() ==> #[trigger] step.provider.costs[i]
                    == provider.costs[i]
            &&& step.provider.last_error is None
            &&& step.completion.phase == CompletionPhase::Settled
        }),
{
    let cost = cost_of(parsed, generation, provider.config.model);
    let usage = openrouter::settled_usage(parsed.usage, cost);
    let step = completion.settled(provider, parsed, generation);
    let stream = step.action->Done_0;
    if usage != UsageModel::unreported() {
        assert(reports_usage(stream, parsed.events, usage));
        assert(stream.len() != parsed.events.len());
    }
}

/// A look-up that gives no price is made again while look-ups are left, after a pause; then the
/// completion settles without a price, and it is never lost.
pub proof fn law_missing_prices_are_looked_up_again(
    completion: CompletionModel,
    provider: OpenRouterModel,
    parsed: ParsedModel,
)
    requires
        completion.parsed == Some(parsed),
        parsed.generation_id is Some,
        completion.lookup < u32::MAX,
    ensures
        ({
            let step = completion.fetched(provider, None);
            let pause = completion.policy.base_delay_ms * (completion.lookup + 1);
            &&& completion.lookup < completion.policy.max_retries ==> step.action
                == CompletionActionModel::Rest(
                if pause > u64::MAX {
                    u64::MAX
                } else {
                    pause as u64
                },
            ) && step.completion.parsed == Some(parsed)
            &&& completion.lookup >= completion.policy.max_retries ==> step
                == completion.settled(provider, parsed, None)
        }),
        ({
            let again = completion.rested(provider, false);
            &&& again.action == CompletionActionModel::Fetch(parsed.generation_id->0)
            &&& again.completion.lookup == completion.lookup + 1
            &&& again.completion.parsed == Some(parsed)
            &&& completion.rested(provider, true) == completion.settled(provider, parsed, None)
        }),
        forall|body: Seq<u8>|
            (#[trigger] openrouter::accounting_in(body, parsed.usage)) is Some
                ==> completion.fetched(provider, Some(body)) == completion.settled(
                provider,
                parsed,
                openrouter::accounting_in(body, parsed.usage),
            ),
{
}

/// A transport that ends well gives its whole body with the last status of its headers. One that
/// stalls or fails gives a partial body only where there is content; one that was cancelled, or
/// that repeats itself, gives none.
pub proof fn law_transports_settle_by_how_they_end(
    body: Seq<u8>,
    errors: Seq<u8>,
    headers: Seq<u8>,
    bytes: usize,
)
    ensures
        ({
            let status = last_status(parts_of(headers, 10));
            &&& settled(TransportEnd::Exited { success: true }, body, errors, headers) == Ok::<
                (Option<u16>, bool),
                Seq<char>,
            >((status, false))
            &&& settled(TransportEnd::Cancelled, body, errors, headers) is Err
            &&& settled(TransportEnd::Repetitive, body, errors, headers) is Err
            &&& settled(TransportEnd::Exited { success: false }, body, errors, headers) matches Ok(
                (code, partial),
            ) ==> partial && code is None && status is None && has_content(body)
            &&& has_content(body) && status is None ==> settled(
                TransportEnd::Exited { success: false },
                body,
                errors,
                headers,
            ) is Ok
        }),
{
}

/// A model that is not the configured one is refused by a local server's adapter.
pub proof fn law_local_requests_name_the_configured_model(
    config: LocalConfigModel,
    request: RequestModel,
)
    ensures
        local::mismatch(config, request) is None <==> (request.model matches Some(model)
            && model.provider == "local"@ && model.model == config.model),
{
}

/// The stream of a gateway response is its events, with its usage before the last of them where
/// it reports any; a failure is streamed as one. Its counts are added to those of the adapter, each
/// to its own.
pub proof fn law_gateway_responses_are_streamed_whole(
    events: Seq<StreamEventModel>,
    usage: UsageModel,
    totals: UsageModel,
    message: Seq<char>,
)
    requires
        events.len() > 0,
    ensures
        commandcode::settled_events(Err(message)) == seq![StreamEventModel::Error { message }],
        usage.input_tokens is Some || usage.output_tokens is Some || usage.reasoning_tokens is Some
            ==> reports_usage(commandcode::settled_events(Ok((events, usage))), events, usage),
        usage.input_tokens is None && usage.output_tokens is None && usage.reasoning_tokens is None
            ==> commandcode::settled_events(Ok((events, usage))) == events,
        ({
            let after = commandcode::with_report(totals, usage);
            &&& sums(totals.input_tokens, usage.input_tokens, after.input_tokens)
            &&& sums(totals.output_tokens, usage.output_tokens, after.output_tokens)
            &&& sums(totals.reasoning_tokens, usage.reasoning_tokens, after.reasoning_tokens)
            &&& after.cost == totals.cost
        }),
{
}

/// Whether a total is that of two counts, of which a missing one is zero, up to the largest count.
pub open spec fn sums(before: Option<u64>, report: Option<u64>, after: Option<u64>) -> bool {
    let a = if before is Some {
        before->0
    } else {
        0
    };
    let b = if report is Some {
        report->0
    } else {
        0
    };
    &&& after is Some
    &&& a + b <= u64::MAX ==> after->0 == a + b
    &&& a + b > u64::MAX ==> after->0 == u64::MAX
}

/// Every request to the gateway is authorized with the configured key and names its project. A
/// session is named exactly where a thread is configured, and nothing is to be retained exactly
/// where the configuration says so.
pub proof fn law_gateway_requests_carry_their_headers(config: CommandCodeConfigModel)
    ensures
        ({
            let headers = commandcode::headers_of(config);
            &&& headers.contains("Authorization: Bearer "@ + config.api_key)
            &&& config.project_slug matches Some(slug) ==> headers.contains(
                "X-Project-Slug: "@ + slug,
            )
            &&& config.thread_id matches Some(id) ==> headers.contains("X-Session-Id: "@ + id)
            &&& config.zero_data_retention ==> headers.contains("X-Cmd-Zdr: 1"@)
            &&& config.taste_learning_enabled ==> headers.contains("X-Taste-Learning: true"@)
            &&& !config.taste_learning_enabled ==> headers.contains("X-Taste-Learning: false"@)
            &&& headers.len() == 9 + (if config.thread_id is Some {
                1int
            } else {
                0
            }) + (if config.zero_data_retention {
                1int
            } else {
                0
            })
        }),
{
    let headers = commandcode::headers_of(config);
    assert(headers[2] == "Authorization: Bearer "@ + config.api_key);
    if let Some(slug) = config.project_slug {
        assert(headers[6] == "X-Project-Slug: "@ + slug);
    }
    if let Some(id) = config.thread_id {
        assert(headers[9] == "X-Session-Id: "@ + id);
    }
    if config.zero_data_retention {
        assert(headers[headers.len() - 1] == "X-Cmd-Zdr: 1"@);
    }
    assert(headers[7] == if config.taste_learning_enabled {
        "X-Taste-Learning: true"@
    } else {
        "X-Taste-Learning: false"@
    });
}

/// The gateway serves a request for the configured model, or for none in particular.
pub proof fn law_the_gateway_serves_the_configured_model(
    config: CommandCodeConfigModel,
    request: RequestModel,
)
    ensures
        commandcode::serves(config, request) <==> request.model is None || (
        request.model->0.provider == "command-code"@ && request.model->0.model == config.model),
{
}

/// A report of costs counts the turns with a price, and adds up their prices one by one: a turn
/// without a price changes neither.
pub proof fn law_cost_reports_add_up(costs: Seq<CostTurnModel>, cost: CostTurnModel)
    ensures
        ({
            let after = costs.push(cost);
            &&& openrouter::reported_count(after) == openrouter::reported_count(costs) + if
                cost.total_usd_exact is Some {
                1int
            } else {
                0
            }
            &&& adds_price(
                openrouter::total_price(costs),
                cost.total_usd_exact,
                openrouter::total_price(after),
            )
            &&& adds_price(
                openrouter::total_inference(costs),
                cost.upstream_inference_usd_exact,
                openrouter::total_inference(after),
            )
        }),
        openrouter::reported_count(Seq::empty()) == 0,
        openrouter::total_price(Seq::empty()) is None,
        openrouter::total_inference(Seq::empty()) is None,
{
    assert(costs.push(cost).drop_last() =~= costs);
}

/// Whether a price is added to a total: a missing one changes nothing, the first one is the total,
/// and another is added exactly, as far as both are decimal numbers.
pub open spec fn adds_price(
    total: Option<Seq<char>>,
    price: Option<Seq<char>>,
    after: Option<Seq<char>>,
) -> bool {
    match (total, price) {
        (total, None) => after == total,
        (None, Some(text)) => after == Some(text),
        (Some(a), Some(b)) => match decimal_sum(a, b) {
            Some(sum) => after == Some(sum),
            None => after == Some(a),
        },
    }
}

/// The beginning of a response that is kept for diagnostics is bounded, and is the beginning of
/// the body's text with the key replaced.
pub proof fn law_kept_beginnings_are_bounded_and_redacted(body: Seq<u8>, key: Seq<char>)
    ensures
        ({
            let whole = replaced(utf8_lossy(body), key, "[redacted]"@);
            let kept = prefix_of(body, Some(key));
            &&& kept.len() <= RESPONSE_PREFIX_CHARS
            &&& kept.is_prefix_of(whole)
            &&& whole.len() <= RESPONSE_PREFIX_CHARS ==> kept == whole
            &&& whole.len() > RESPONSE_PREFIX_CHARS ==> kept.len() == RESPONSE_PREFIX_CHARS
        }),
{
}

} // verus!
