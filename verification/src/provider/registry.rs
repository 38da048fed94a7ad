//! Explicit provider and model metadata.
//!
//! [`ProviderRegistry`] is only a view over checked-in data. Constructing it does not read the
//! process environment, a credential file, a workspace, or a remote catalog. Hosts resolve
//! credentials and other authority themselves, then pass an owned [`ProviderConfiguration`] to
//! [`ProviderRegistry::build`].

use crate::provider::commandcode::CommandCodeConfig;
use crate::provider::local::{LocalConfig, LAGUNA_XS_2_1_MODEL};
use crate::provider::openrouter::OpenRouterConfig;
use crate::text::{before, blank, debug_quoted, is_blank, joined, quoted, same};
use vstd::prelude::*;

verus! {

broadcast use crate::model::group_views;

/// Version of the checked-in picker metadata format.
pub const MODEL_CATALOG_VERSION: u32 = 1;

/// One picker-visible model in a provider's checked-in catalog.
///
/// The catalog is a small, versioned list of identifiers. `context_window` is `None` where no
/// authoritative context-capacity source is known; the registry does not infer one from a model
/// name.
#[derive(Clone, Copy, Debug, Eq, PartialEq)]
pub struct ModelDescriptor {
    /// Stable provider-local model identifier.
    pub id: &'static str,
    /// Human-readable name for a host picker.
    pub display_name: &'static str,
    /// Known context capacity in tokens, if any.
    pub context_window: Option<u64>,
}

/// Provider capabilities that are safe for a host to advertise.
#[derive(Clone, Copy, Debug, Eq, PartialEq, Structural)]
pub struct ProviderCapabilities {
    /// Whether this adapter can expose provider-reported monetary cost.
    pub provider_reported_cost: bool,
    /// Whether this adapter has a concrete provider-backed compactor.
    pub concrete_compactor: bool,
}

impl ProviderCapabilities {
    /// Whether provider-reported cost is available.
    pub fn supports_provider_reported_cost(self) -> (r: bool)
        ensures
            r == self.provider_reported_cost,
    {
        self.provider_reported_cost
    }

    /// Whether a concrete provider-backed compactor is available.
    pub fn supports_compaction(self) -> (r: bool)
        ensures
            r == self.concrete_compactor,
    {
        self.concrete_compactor
    }
}

/// The explicit configuration family required by one adapter.
#[derive(Clone, Copy, Debug, Eq, PartialEq, Structural)]
pub enum ProviderConfigurationKind {
    /// Command Code's caller-owned API key and host context configuration.
    CommandCode,
    /// OpenRouter's caller-owned API key and model configuration.
    OpenRouter,
    /// Local OpenAI-compatible endpoint and model configuration.
    Local,
}

impl ProviderConfigurationKind {
    /// The provider identifier of a configuration family.
    pub open spec fn spec_provider(self) -> Seq<char> {
        match self {
            ProviderConfigurationKind::CommandCode => "command-code"@,
            ProviderConfigurationKind::OpenRouter => "openrouter"@,
            ProviderConfigurationKind::Local => "local"@,
        }
    }

    /// The provider identifier of this configuration family.
    pub fn provider(self) -> (r: &'static str)
        ensures
            r@ == self.spec_provider(),
    {
        match self {
            ProviderConfigurationKind::CommandCode => "command-code",
            ProviderConfigurationKind::OpenRouter => "openrouter",
            ProviderConfigurationKind::Local => "local",
        }
    }
}

/// Metadata for one adapter.
#[derive(Clone, Debug, Eq, PartialEq)]
pub struct ProviderEntry {
    /// Stable provider identifier used in model descriptors.
    pub id: &'static str,
    /// Human-readable provider name for a host picker.
    pub display_name: &'static str,
    /// Version of the model list below.
    pub model_catalog_version: u32,
    /// Picker-visible models. This list is not a promise of a vendor's complete catalog.
    pub models: Vec<ModelDescriptor>,
    /// Whether a caller may supply a model identifier outside `models`.
    pub allows_custom_models: bool,
    /// The explicit adapter configuration family accepted by [`ProviderRegistry::build`].
    pub configuration: ProviderConfigurationKind,
    /// Capabilities available from this adapter.
    pub capabilities: ProviderCapabilities,
}

/// Whether a catalog lists a model.
pub open spec fn lists(models: Seq<ModelDescriptor>, model_id: Seq<char>) -> bool {
    exists|i: int| 0 <= i < models.len() && (#[trigger] models[i]).id@ == model_id
}

impl ProviderEntry {
    /// Find one catalog model by exact identifier.
    pub fn model(&self, model_id: &str) -> (r: Option<&ModelDescriptor>)
        ensures
            r is Some <==> lists(self.models@, model_id@),
            r matches Some(found) ==> found.id@ == model_id@ && self.models@.contains(*found),
    {
        let mut i: usize = 0;
        while i < self.models.len()
            invariant
                i <= self.models@.len(),
                forall|k: int| 0 <= k < i ==> (#[trigger] self.models@[k]).id@ != model_id@,
            decreases self.models.len() - i,
        {
            if same(self.models[i].id, model_id) {
                assert(self.models@[i as int].id@ == model_id@);
                return Some(&self.models[i]);
            }
            i = i + 1;
        }
        None
    }

    /// Whether a model identifier may be supplied through the custom-model path.
    pub fn allows_custom_model(&self) -> (r: bool)
        ensures
            r == self.allows_custom_models,
    {
        self.allows_custom_models
    }
}

/// The adapters that a build contains.
#[derive(Clone, Copy, Debug, Eq, PartialEq, Structural)]
pub struct ProviderFeatures {
    /// Whether Command Code is contained.
    pub commandcode: bool,
    /// Whether OpenRouter is contained.
    pub openrouter: bool,
    /// Whether the local server is contained.
    pub local: bool,
}

/// A model selected from the catalog or through the explicit custom-model path.
#[derive(Clone, Debug, Eq, PartialEq)]
pub struct ModelSelection {
    /// Provider-independent descriptor ready for an agent configuration.
    pub descriptor: crate::state::ModelDescriptor,
    /// Whether this selection was outside the checked-in catalog.
    pub custom: bool,
}

impl ModelSelection {
    /// Borrow the provider-independent descriptor.
    pub fn descriptor(&self) -> (r: &crate::state::ModelDescriptor)
        ensures
            r@ == self.descriptor@,
    {
        &self.descriptor
    }

    /// Consume the selection and return its provider-independent descriptor.
    pub fn into_descriptor(self) -> (r: crate::state::ModelDescriptor)
        ensures
            r@ == self.descriptor@,
    {
        self.descriptor
    }
}

/// Explicit caller-owned configuration for one adapter.
///
/// No default constructor or environment lookup can manufacture credentials or host context.
pub enum ProviderConfiguration {
    /// Fully configured Command Code adapter.
    CommandCode(CommandCodeConfig),
    /// Fully configured OpenRouter adapter.
    OpenRouter(OpenRouterConfig),
    /// Fully configured local OpenAI-compatible adapter.
    Local(LocalConfig),
}

impl ProviderConfiguration {
    /// The family of a configuration.
    pub open spec fn kind(self) -> ProviderConfigurationKind {
        match self {
            ProviderConfiguration::CommandCode(_) => ProviderConfigurationKind::CommandCode,
            ProviderConfiguration::OpenRouter(_) => ProviderConfigurationKind::OpenRouter,
            ProviderConfiguration::Local(_) => ProviderConfigurationKind::Local,
        }
    }

    /// The model of a configuration.
    pub open spec fn spec_model(self) -> Seq<char> {
        match self {
            ProviderConfiguration::CommandCode(config) => config@.model,
            ProviderConfiguration::OpenRouter(config) => config@.model,
            ProviderConfiguration::Local(config) => config@.model,
        }
    }

    fn family(&self) -> (r: ProviderConfigurationKind)
        ensures
            r == self.kind(),
    {
        match self {
            ProviderConfiguration::CommandCode(_) => ProviderConfigurationKind::CommandCode,
            ProviderConfiguration::OpenRouter(_) => ProviderConfigurationKind::OpenRouter,
            ProviderConfiguration::Local(_) => ProviderConfigurationKind::Local,
        }
    }

    fn model(&self) -> (r: &str)
        ensures
            r@ == self.spec_model(),
    {
        match self {
            ProviderConfiguration::CommandCode(config) => config.model(),
            ProviderConfiguration::OpenRouter(config) => config.model(),
            ProviderConfiguration::Local(config) => config.model(),
        }
    }
}

/// A configuration and the exact model descriptor it was validated to serve. The host makes
/// the adapter of it.
pub struct ConfiguredProvider {
    /// Descriptor selected by the host and validated against the registry.
    pub descriptor: crate::state::ModelDescriptor,
    /// Configuration of the adapter.
    pub configuration: ProviderConfiguration,
}

/// Errors from model resolution or explicit adapter construction.
#[derive(Clone, Debug, Eq, PartialEq)]
pub enum RegistryError {
    /// The requested provider is not contained in this build.
    UnknownProvider { provider: String },
    /// A required model identifier was empty.
    EmptyModel { provider: String },
    /// The model is not in the catalog and custom identifiers are unavailable, or the custom
    /// path was asked for a model of the catalog.
    UnknownModel { provider: String, model: String },
    /// The explicit configuration belongs to a different provider family.
    ConfigurationProviderMismatch { expected: String, actual: &'static str },
    /// The explicit configuration's model does not match the selected descriptor.
    ConfigurationModelMismatch { expected: String, actual: String },
}

/// Model of a [`RegistryError`].
#[verifier::ext_equal]
pub enum RegistryErrorModel {
    UnknownProvider { provider: Seq<char> },
    EmptyModel { provider: Seq<char> },
    UnknownModel { provider: Seq<char>, model: Seq<char> },
    ConfigurationProviderMismatch { expected: Seq<char>, actual: Seq<char> },
    ConfigurationModelMismatch { expected: Seq<char>, actual: Seq<char> },
}

impl View for RegistryError {
    type V = RegistryErrorModel;

    open spec fn view(&self) -> RegistryErrorModel {
        match *self {
            RegistryError::UnknownProvider { provider } => RegistryErrorModel::UnknownProvider {
                provider: provider@,
            },
            RegistryError::EmptyModel { provider } => RegistryErrorModel::EmptyModel {
                provider: provider@,
            },
            RegistryError::UnknownModel { provider, model } => RegistryErrorModel::UnknownModel {
                provider: provider@,
                model: model@,
            },
            RegistryError::ConfigurationProviderMismatch { expected, actual } => {
                RegistryErrorModel::ConfigurationProviderMismatch {
                    expected: expected@,
                    actual: actual@,
                }
            },
            RegistryError::ConfigurationModelMismatch { expected, actual } => {
                RegistryErrorModel::ConfigurationModelMismatch {
                    expected: expected@,
                    actual: actual@,
                }
            },
        }
    }
}

impl RegistryErrorModel {
    /// Diagnostic text of a failure.
    pub open spec fn text(self) -> Seq<char> {
        match self {
            RegistryErrorModel::UnknownProvider { provider } => "unknown provider "@
                + debug_quoted(provider),
            RegistryErrorModel::EmptyModel { provider } => "model for provider "@ + debug_quoted(
                provider,
            ) + " must not be empty"@,
            RegistryErrorModel::UnknownModel { provider, model } => "unknown model "@ + provider
                + "/"@ + model,
            RegistryErrorModel::ConfigurationProviderMismatch { expected, actual } => {
                "provider configuration is for "@ + actual + ", selected provider is "@ + expected
            },
            RegistryErrorModel::ConfigurationModelMismatch { expected, actual } => {
                "provider configuration model "@ + debug_quoted(actual)
                    + " does not match selected model "@ + debug_quoted(expected)
            },
        }
    }
}

impl RegistryError {
    /// Diagnostic text of this failure.
    pub fn text(&self) -> (r: String)
        ensures
            r@ == self@.text(),
    {
        match self {
            RegistryError::UnknownProvider { provider } => joined(
                "unknown provider ",
                quoted(provider.as_str()).as_str(),
            ),
            RegistryError::EmptyModel { provider } => {
                let mut out = joined("model for provider ", quoted(provider.as_str()).as_str());
                out.push_str(" must not be empty");
                out
            },
            RegistryError::UnknownModel { provider, model } => {
                let mut out = joined("unknown model ", provider.as_str());
                out.push_str("/");
                out.push_str(model.as_str());
                out
            },
            RegistryError::ConfigurationProviderMismatch { expected, actual } => {
                let mut out = joined("provider configuration is for ", actual);
                out.push_str(", selected provider is ");
                out.push_str(expected.as_str());
                out
            },
            RegistryError::ConfigurationModelMismatch { expected, actual } => {
                let mut out = joined(
                    "provider configuration model ",
                    quoted(actual.as_str()).as_str(),
                );
                out.push_str(" does not match selected model ");
                out.push_str(quoted(expected.as_str()).as_str());
                out
            },
        }
    }
}

fn listed(id: &'static str, display_name: &'static str) -> (r: ModelDescriptor)
    ensures
        r == (ModelDescriptor { id, display_name, context_window: None }),
{
    ModelDescriptor { id, display_name, context_window: None }
}

/// The models of a provider.
pub open spec fn catalog(kind: ProviderConfigurationKind) -> Seq<ModelDescriptor> {
    match kind {
        ProviderConfigurationKind::CommandCode => seq![
            ModelDescriptor {
                id: "deepseek/deepseek-v4-flash",
                display_name: "DeepSeek V4 Flash",
                context_window: None,
            },
        ],
        ProviderConfigurationKind::OpenRouter => seq![
            ModelDescriptor {
                id: "deepseek/deepseek-v4-flash-0731",
                display_name: "DeepSeek V4 Flash 0731",
                context_window: None,
            },
            ModelDescriptor {
                id: "inclusionai/ling-3.0-tiny:free",
                display_name: "InclusionAI Ling 3.0 Tiny (Free)",
                context_window: None,
            },
            ModelDescriptor {
                id: "openai/gpt-5.6-luna",
                display_name: "OpenAI GPT 5.6 Luna",
                context_window: None,
            },
            ModelDescriptor {
                id: "poolside/laguna-xs-2.1",
                display_name: "Poolside Laguna XS 2.1",
                context_window: None,
            },
            ModelDescriptor {
                id: "poolside/laguna-xs-2.1:free",
                display_name: "Poolside Laguna XS 2.1 (Free)",
                context_window: None,
            },
        ],
        ProviderConfigurationKind::Local => seq![
            ModelDescriptor {
                id: LAGUNA_XS_2_1_MODEL,
                display_name: "Laguna XS 2.1 5-bit (oMLX)",
                context_window: Some(32_768),
            },
        ],
    }
}

/// The name of a provider for a host picker.
pub open spec fn provider_title(kind: ProviderConfigurationKind) -> &'static str {
    match kind {
        ProviderConfigurationKind::CommandCode => "Command Code",
        ProviderConfigurationKind::OpenRouter => "OpenRouter",
        ProviderConfigurationKind::Local => "Local OpenAI-compatible server",
    }
}

/// What holds of the entry of a provider.
pub open spec fn describes(entry: ProviderEntry, kind: ProviderConfigurationKind) -> bool {
    &&& entry.id@ == kind.spec_provider()
    &&& entry.display_name == provider_title(kind)
    &&& entry.model_catalog_version == MODEL_CATALOG_VERSION
    &&& entry.models@ == catalog(kind)
    &&& entry.allows_custom_models
    &&& entry.configuration == kind
    &&& entry.capabilities == (ProviderCapabilities {
        provider_reported_cost: kind == ProviderConfigurationKind::OpenRouter,
        concrete_compactor: false,
    })
}

fn catalog_models(kind: ProviderConfigurationKind) -> (r: Vec<ModelDescriptor>)
    ensures
        r@ == catalog(kind),
{
    let mut models: Vec<ModelDescriptor> = Vec::new();
    match kind {
        ProviderConfigurationKind::CommandCode => {
            models.push(listed("deepseek/deepseek-v4-flash", "DeepSeek V4 Flash"));
        },
        ProviderConfigurationKind::OpenRouter => {
            models.push(listed("deepseek/deepseek-v4-flash-0731", "DeepSeek V4 Flash 0731"));
            models.push(
                listed("inclusionai/ling-3.0-tiny:free", "InclusionAI Ling 3.0 Tiny (Free)"),
            );
            models.push(listed("openai/gpt-5.6-luna", "OpenAI GPT 5.6 Luna"));
            models.push(listed("poolside/laguna-xs-2.1", "Poolside Laguna XS 2.1"));
            models.push(listed("poolside/laguna-xs-2.1:free", "Poolside Laguna XS 2.1 (Free)"));
        },
        ProviderConfigurationKind::Local => {
            models.push(
                ModelDescriptor {
                    id: LAGUNA_XS_2_1_MODEL,
                    display_name: "Laguna XS 2.1 5-bit (oMLX)",
                    context_window: Some(32_768),
                },
            );
        },
    }
    assert(models@ =~= catalog(kind));
    models
}

fn make_entry(kind: ProviderConfigurationKind) -> (r: ProviderEntry)
    ensures
        describes(r, kind),
{
    let display_name = match kind {
        ProviderConfigurationKind::CommandCode => "Command Code",
        ProviderConfigurationKind::OpenRouter => "OpenRouter",
        ProviderConfigurationKind::Local => "Local OpenAI-compatible server",
    };
    ProviderEntry {
        id: kind.provider(),
        display_name,
        model_catalog_version: MODEL_CATALOG_VERSION,
        models: catalog_models(kind),
        allows_custom_models: true,
        configuration: kind,
        capabilities: ProviderCapabilities {
            provider_reported_cost: kind == ProviderConfigurationKind::OpenRouter,
            concrete_compactor: false,
        },
    }
}

/// The providers of a build, in the order of their identifiers.
pub open spec fn contained(features: ProviderFeatures) -> Seq<ProviderConfigurationKind> {
    let none = Seq::<ProviderConfigurationKind>::empty();
    let first = if features.commandcode {
        none.push(ProviderConfigurationKind::CommandCode)
    } else {
        none
    };
    let second = if features.local {
        first.push(ProviderConfigurationKind::Local)
    } else {
        first
    };
    if features.openrouter {
        second.push(ProviderConfigurationKind::OpenRouter)
    } else {
        second
    }
}

/// Explicit registry of adapters.
#[derive(Debug)]
pub struct ProviderRegistry {
    entries: Vec<ProviderEntry>,
}

impl View for ProviderRegistry {
    type V = Seq<ProviderEntry>;

    closed spec fn view(&self) -> Seq<ProviderEntry> {
        self.entries@
    }
}

/// Whether the entries of a registry are those of a build.
pub open spec fn holds(entries: Seq<ProviderEntry>, kinds: Seq<ProviderConfigurationKind>) -> bool {
    entries.len() == kinds.len() && forall|i: int|
        0 <= i < entries.len() ==> describes(#[trigger] entries[i], kinds[i])
}

/// The place of the entry of a provider.
pub open spec fn entry_of(entries: Seq<ProviderEntry>, provider: Seq<char>) -> Option<
    ProviderEntry,
>
    decreases entries.len(),
{
    if entries.len() == 0 {
        None
    } else if entries[0].id@ == provider {
        Some(entries[0])
    } else {
        entry_of(entries.skip(1), provider)
    }
}

/// How a model identifier resolves: to whether it is custom, or to an error.
pub open spec fn resolved(
    entries: Seq<ProviderEntry>,
    provider: Seq<char>,
    model: Seq<char>,
) -> Result<bool, RegistryErrorModel> {
    match entry_of(entries, provider) {
        None => Err(RegistryErrorModel::UnknownProvider { provider }),
        Some(entry) => if is_blank(model) {
            Err(RegistryErrorModel::EmptyModel { provider })
        } else if !lists(entry.models@, model) && !entry.allows_custom_models {
            Err(RegistryErrorModel::UnknownModel { provider, model })
        } else {
            Ok(!lists(entry.models@, model))
        },
    }
}

/// How a configuration is accepted for a descriptor.
pub open spec fn configured(
    entries: Seq<ProviderEntry>,
    provider: Seq<char>,
    model: Seq<char>,
    kind: ProviderConfigurationKind,
    configured_model: Seq<char>,
) -> Result<(), RegistryErrorModel> {
    match resolved(entries, provider, model) {
        Err(error) => Err(error),
        Ok(_) => if provider != kind.spec_provider() {
            Err(
                RegistryErrorModel::ConfigurationProviderMismatch {
                    expected: provider,
                    actual: kind.spec_provider(),
                },
            )
        } else if configured_model != model {
            Err(
                RegistryErrorModel::ConfigurationModelMismatch {
                    expected: model,
                    actual: configured_model,
                },
            )
        } else {
            Ok(())
        },
    }
}

/// Whether the identifiers of entries ascend.
pub open spec fn ascending(entries: Seq<ProviderEntry>) -> bool {
    forall|i: int, j: int|
        0 <= i < j < entries.len() ==> before(
            (#[trigger] entries[i]).id@,
            (#[trigger] entries[j]).id@,
        )
}

proof fn lemma_identifiers_ascend()
    ensures
        before("command-code"@, "local"@),
        before("local"@, "openrouter"@),
        before("command-code"@, "openrouter"@),
{
    reveal_strlit("command-code");
    reveal_strlit("local");
    reveal_strlit("openrouter");
}

/// Whether two entries describe one provider alike.
pub open spec fn alike(a: ProviderEntry, b: ProviderEntry) -> bool {
    &&& a.id == b.id
    &&& a.display_name == b.display_name
    &&& a.model_catalog_version == b.model_catalog_version
    &&& a.models@ == b.models@
    &&& a.allows_custom_models == b.allows_custom_models
    &&& a.configuration == b.configuration
    &&& a.capabilities == b.capabilities
}

fn copied(entry: &ProviderEntry) -> (r: ProviderEntry)
    ensures
        alike(r, *entry),
{
    let mut models: Vec<ModelDescriptor> = Vec::new();
    let mut i: usize = 0;
    while i < entry.models.len()
        invariant
            i <= entry.models@.len(),
            models@ == entry.models@.take(i as int),
        decreases entry.models.len() - i,
    {
        models.push(entry.models[i]);
        i = i + 1;
        assert(models@ =~= entry.models@.take(i as int));
    }
    assert(entry.models@.take(i as int) =~= entry.models@);
    ProviderEntry {
        id: entry.id,
        display_name: entry.display_name,
        model_catalog_version: entry.model_catalog_version,
        models,
        allows_custom_models: entry.allows_custom_models,
        configuration: entry.configuration,
        capabilities: entry.capabilities,
    }
}

impl Clone for ProviderRegistry {
    fn clone(&self) -> (r: Self)
        ensures
            r@.len() == self@.len(),
            forall|i: int| 0 <= i < r@.len() ==> alike(#[trigger] r@[i], self@[i]),
    {
        proof {
            use_type_invariant(self);
        }
        let mut entries: Vec<ProviderEntry> = Vec::new();
        let mut i: usize = 0;
        while i < self.entries.len()
            invariant
                i <= self.entries@.len(),
                entries@.len() == i,
                forall|k: int|
                    0 <= k < i ==> alike(#[trigger] entries@[k], self.entries@[k]),
            decreases self.entries.len() - i,
        {
            entries.push(copied(&self.entries[i]));
            i = i + 1;
        }
        assert(ascending(entries@)) by {
            assert forall|i: int, j: int| 0 <= i < j < entries@.len() implies before(
                (#[trigger] entries@[i]).id@,
                (#[trigger] entries@[j]).id@,
            ) by {
                assert(alike(entries@[i], self.entries@[i]));
                assert(alike(entries@[j], self.entries@[j]));
            }
        }
        ProviderRegistry { entries }
    }
}

impl ProviderRegistry {
    #[verifier::type_invariant]
    spec fn sorted(self) -> bool {
        ascending(self.entries@)
    }

    /// Construct the registry of a build without adapters.
    pub fn new() -> (r: Self)
        ensures
            r@ == Seq::<ProviderEntry>::empty(),
    {
        ProviderRegistry { entries: Vec::new() }
    }

    /// Construct the registry of a build.
    pub fn compiled(features: ProviderFeatures) -> (r: Self)
        ensures
            holds(r@, contained(features)),
    {
        let mut entries: Vec<ProviderEntry> = Vec::new();
        if features.commandcode {
            entries.push(make_entry(ProviderConfigurationKind::CommandCode));
        }
        if features.local {
            entries.push(make_entry(ProviderConfigurationKind::Local));
        }
        if features.openrouter {
            entries.push(make_entry(ProviderConfigurationKind::OpenRouter));
        }
        proof {
            lemma_identifiers_ascend();
            assert(ascending(entries@));
        }
        ProviderRegistry { entries }
    }

    /// All adapters of this build, in stable provider-identifier order.
    pub fn providers(&self) -> (r: &Vec<ProviderEntry>)
        ensures
            r@ == self@,
            ascending(r@),
    {
        proof {
            use_type_invariant(self);
        }
        &self.entries
    }

    /// Find one provider by stable identifier.
    pub fn provider(&self, provider_id: &str) -> (r: Option<&ProviderEntry>)
        ensures
            match r {
                Some(entry) => entry_of(self@, provider_id@) == Some(*entry),
                None => entry_of(self@, provider_id@) is None,
            },
    {
        let mut i: usize = 0;
        assert(self@.skip(0) =~= self@);
        while i < self.entries.len()
            invariant
                i <= self.entries@.len(),
                entry_of(self@, provider_id@) == entry_of(self@.skip(i as int), provider_id@),
            decreases self.entries.len() - i,
        {
            if same(self.entries[i].id, provider_id) {
                return Some(&self.entries[i]);
            }
            assert(self@.skip(i as int).skip(1) =~= self@.skip(i + 1));
            i = i + 1;
        }
        None
    }

    /// Resolve a catalog model or an allowed custom model identifier.
    pub fn resolve_model(&self, provider_id: &str, model_id: String) -> (r: Result<
        ModelSelection,
        RegistryError,
    >)
        ensures
            match resolved(self@, provider_id@, model_id@) {
                Ok(custom) => r matches Ok(selection) && selection.custom == custom
                    && selection.descriptor.provider@ == provider_id@
                    && selection.descriptor.model@ == model_id@
                    && selection.descriptor.revision is None,
                Err(error) => r matches Err(e) && e@ == error,
            },
    {
        let entry = match self.provider(provider_id) {
            None => {
                return Err(RegistryError::UnknownProvider { provider: provider_id.to_owned() });
            },
            Some(entry) => entry,
        };
        if blank(model_id.as_str()) {
            return Err(RegistryError::EmptyModel { provider: provider_id.to_owned() });
        }
        let custom = entry.model(model_id.as_str()).is_none();
        if custom && !entry.allows_custom_models {
            return Err(
                RegistryError::UnknownModel { provider: provider_id.to_owned(), model: model_id },
            );
        }
        Ok(
            ModelSelection {
                descriptor: crate::state::ModelDescriptor {
                    provider: provider_id.to_owned(),
                    model: model_id,
                    revision: None,
                },
                custom,
            },
        )
    }

    /// Resolve a caller-supplied model that is intentionally outside the catalog.
    pub fn custom_model(&self, provider_id: &str, model_id: String) -> (r: Result<
        ModelSelection,
        RegistryError,
    >)
        ensures
            match resolved(self@, provider_id@, model_id@) {
                Ok(true) => r matches Ok(selection) && selection.custom
                    && selection.descriptor.provider@ == provider_id@
                    && selection.descriptor.model@ == model_id@
                    && selection.descriptor.revision is None,
                Ok(false) => r matches Err(e) && e@ == (RegistryErrorModel::UnknownModel {
                    provider: provider_id@,
                    model: model_id@,
                }),
                Err(error) => r matches Err(e) && e@ == error,
            },
    {
        match self.resolve_model(provider_id, model_id) {
            Err(error) => Err(error),
            Ok(selection) => if selection.custom {
                Ok(selection)
            } else {
                Err(
                    RegistryError::UnknownModel {
                        provider: provider_id.to_owned(),
                        model: selection.descriptor.model,
                    },
                )
            },
        }
    }

    /// Accept explicit owned configuration for a resolved model descriptor.
    pub fn build(
        &self,
        descriptor: crate::state::ModelDescriptor,
        configuration: ProviderConfiguration,
    ) -> (r: Result<ConfiguredProvider, RegistryError>)
        ensures
            match configured(
                self@,
                descriptor@.provider,
                descriptor@.model,
                configuration.kind(),
                configuration.spec_model(),
            ) {
                Ok(()) => r matches Ok(built) && built.descriptor@ == descriptor@
                    && built.configuration == configuration,
                Err(error) => r matches Err(e) && e@ == error,
            },
    {
        if let Err(error) = self.resolve_model(
            descriptor.provider.as_str(),
            descriptor.model.clone(),
        ) {
            return Err(error);
        }
        let actual = configuration.family().provider();
        if !same(descriptor.provider.as_str(), actual) {
            return Err(
                RegistryError::ConfigurationProviderMismatch {
                    expected: descriptor.provider,
                    actual,
                },
            );
        }
        if !same(configuration.model(), descriptor.model.as_str()) {
            let actual = configuration.model().to_owned();
            return Err(
                RegistryError::ConfigurationModelMismatch { expected: descriptor.model, actual },
            );
        }
        Ok(ConfiguredProvider { descriptor, configuration })
    }

    /// Accept explicit owned configuration for a [`ModelSelection`] of this registry.
    pub fn build_selection(
        &self,
        selection: ModelSelection,
        configuration: ProviderConfiguration,
    ) -> (r: Result<ConfiguredProvider, RegistryError>)
        ensures
            match configured(
                self@,
                selection.descriptor@.provider,
                selection.descriptor@.model,
                configuration.kind(),
                configuration.spec_model(),
            ) {
                Ok(()) => r matches Ok(built) && built.descriptor@ == selection.descriptor@
                    && built.configuration == configuration,
                Err(error) => r matches Err(e) && e@ == error,
            },
    {
        self.build(selection.descriptor, configuration)
    }
}

/// Two registries of one build answer every resolution alike.
pub proof fn law_registry_is_static(
    one: Seq<ProviderEntry>,
    other: Seq<ProviderEntry>,
    kinds: Seq<ProviderConfigurationKind>,
    provider: Seq<char>,
    model: Seq<char>,
)
    requires
        holds(one, kinds),
        holds(other, kinds),
    ensures
        resolved(one, provider, model) == resolved(other, provider, model),
    decreases kinds.len(),
{
    if kinds.len() > 0 {
        assert(describes(one[0], kinds[0]));
        assert(describes(other[0], kinds[0]));
        if one[0].id@ != provider {
            let (a, b, k) = (one.skip(1), other.skip(1), kinds.skip(1));
            assert forall|i: int| 0 <= i < a.len() implies describes(#[trigger] a[i], k[i]) by {
                assert(a[i] == one[i + 1]);
            }
            assert forall|i: int| 0 <= i < b.len() implies describes(#[trigger] b[i], k[i]) by {
                assert(b[i] == other[i + 1]);
            }
            law_registry_is_static(a, b, k, provider, model);
        }
    }
}

/// A model that resolves as custom is not one of the catalog.
pub proof fn law_custom_models_are_outside_the_catalog(
    entries: Seq<ProviderEntry>,
    provider: Seq<char>,
    model: Seq<char>,
)
    requires
        resolved(entries, provider, model) == Ok::<bool, RegistryErrorModel>(true),
    ensures
        entry_of(entries, provider) matches Some(entry) && !lists(entry.models@, model)
            && entry.allows_custom_models,
{
}

} // verus!
