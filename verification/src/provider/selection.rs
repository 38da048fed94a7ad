//! Which adapter serves a model, and which configurations it is served with.

use crate::provider::local::{is_negative, LocalConfigModel};
use crate::provider::openrouter::OpenRouterConfigModel;
use crate::provider::registry::{
    configured, contained, entry_of, lists, resolved, ProviderConfigurationKind, ProviderEntry,
    ProviderFeatures, RegistryErrorModel,
};
use crate::text::{is_blank, stands_at};
use vstd::prelude::*;

verus! {

/// Whether an entry of a registry serves a provider.
pub open spec fn serves(entry: ProviderEntry, provider: Seq<char>) -> bool {
    entry.id@ == provider
}

/// A provider is found exactly where some entry has its identifier, and the entry that is found
/// is one of them.
pub proof fn law_providers_are_found_by_identifier(
    entries: Seq<ProviderEntry>,
    provider: Seq<char>,
)
    ensures
        entry_of(entries, provider) is Some <==> exists|i: int|
            0 <= i < entries.len() && serves(#[trigger] entries[i], provider),
        entry_of(entries, provider) matches Some(entry) ==> serves(entry, provider)
            && entries.contains(entry),
    decreases entries.len(),
{
    if entries.len() > 0 {
        law_providers_are_found_by_identifier(entries.skip(1), provider);
        if serves(entries[0], provider) {
            assert(serves(entries[0], provider));
        } else {
            let rest = entries.skip(1);
            if entry_of(rest, provider) is Some {
                let k = choose|k: int| 0 <= k < rest.len() && rest[k] == entry_of(rest, provider)->0;
                assert(entries[k + 1] == rest[k]);
                assert(serves(entries[k + 1], provider));
            }
            if exists|i: int| 0 <= i < entries.len() && serves(#[trigger] entries[i], provider) {
                let i = choose|i: int|
                    0 <= i < entries.len() && serves(#[trigger] entries[i], provider);
                assert(rest[i - 1] == entries[i]);
            }
        }
    }
}

/// A model is resolved exactly where its provider is known, it has a name, and its provider
/// lists it or takes others; it counts as custom exactly where it is not listed.
pub proof fn law_models_are_resolved_by_their_catalog(
    entries: Seq<ProviderEntry>,
    provider: Seq<char>,
    model: Seq<char>,
)
    ensures
        match entry_of(entries, provider) {
            None => resolved(entries, provider, model) is Err,
            Some(entry) => {
                &&& resolved(entries, provider, model) is Ok <==> !is_blank(model) && (lists(
                    entry.models@,
                    model,
                ) || entry.allows_custom_models)
                &&& resolved(entries, provider, model) matches Ok(custom) ==> custom == !lists(
                    entry.models@,
                    model,
                )
            },
        },
{
}

/// An adapter is built exactly for a model that is resolved, from a configuration for the same
/// provider and the same model.
pub proof fn law_adapters_serve_what_they_are_configured_for(
    entries: Seq<ProviderEntry>,
    provider: Seq<char>,
    model: Seq<char>,
    kind: ProviderConfigurationKind,
    configured_model: Seq<char>,
)
    ensures
        configured(entries, provider, model, kind, configured_model) is Ok <==> resolved(
            entries,
            provider,
            model,
        ) is Ok && configured_model == model && provider == if kind
            == ProviderConfigurationKind::CommandCode {
            "command-code"@
        } else if kind == ProviderConfigurationKind::OpenRouter {
            "openrouter"@
        } else {
            "local"@
        },
        resolved(entries, provider, model) is Ok && kind.spec_provider() == provider
            && configured_model != model ==> configured(
            entries,
            provider,
            model,
            kind,
            configured_model,
        ) == Err::<(), RegistryErrorModel>(
            RegistryErrorModel::ConfigurationModelMismatch {
                expected: model,
                actual: configured_model,
            },
        ),
{
}

/// A registry contains exactly the adapters that were built in.
pub proof fn law_registries_contain_what_was_built(
    features: ProviderFeatures,
    kind: ProviderConfigurationKind,
)
    ensures
        contained(features).contains(kind) <==> if kind == ProviderConfigurationKind::CommandCode {
            features.commandcode
        } else if kind == ProviderConfigurationKind::OpenRouter {
            features.openrouter
        } else {
            features.local
        },
        contained(features).no_duplicates(),
{
    let all = contained(features);
    let n: int = if features.commandcode {
        1
    } else {
        0
    };
    let m: int = if features.local {
        n + 1
    } else {
        n
    };
    if features.commandcode {
        assert(all[0] == ProviderConfigurationKind::CommandCode);
    }
    if features.local {
        assert(all[n] == ProviderConfigurationKind::Local);
    }
    if features.openrouter {
        assert(all[m] == ProviderConfigurationKind::OpenRouter);
    }
}

/// A local configuration is sound exactly where its address is one of the two schemes, its model
/// is named, its limits are not zero, and its sampling values are numbers that are not negative.
pub proof fn law_sound_local_configurations(config: LocalConfigModel)
    ensures
        config.fault() is None <==> {
            &&& !is_blank(config.base_url)
            &&& stands_at(config.base_url, "http://"@, 0) || stands_at(
                config.base_url,
                "https://"@,
                0,
            )
            &&& !is_blank(config.model)
            &&& config.max_tokens > 0
            &&& config.request_timeout_ms > 0
            &&& config.temperature matches Some(text) && !is_negative(text)
            &&& config.top_p matches Some(text) && !is_negative(text)
            &&& config.min_p matches Some(text) && !is_negative(text)
        },
{
}

/// A configuration for OpenRouter is sound exactly where its stall timeout is not zero and its
/// key is one line.
pub proof fn law_sound_openrouter_configurations(config: OpenRouterConfigModel)
    ensures
        config.fault() is None <==> {
            &&& config.stall_timeout_ms > 0
            &&& forall|i: int|
                0 <= i < config.api_key.len() ==> (#[trigger] config.api_key[i]) != '\n'
                    && config.api_key[i] != '\r'
        },
{
    let key = config.api_key;
    if forall|i: int| 0 <= i < key.len() ==> (#[trigger] key[i]) != '\n' && key[i] != '\r' {
        assert(!key.contains('\n') && !key.contains('\r'));
    } else {
        let i = choose|i: int|
            0 <= i < key.len() && !((#[trigger] key[i]) != '\n' && key[i] != '\r');
        assert(key.contains(key[i]));
    }
}

} // verus!
