//! Value-free metadata of provider settings.
//!
//! The descriptors tell which controls an interface may render and which closed
//! operation each control stands for. They hold no selected value, credential,
//! URL, environment key or file path. A text may hold places for the name and
//! the identifier of its provider.

use vstd::prelude::*;

use crate::registry::{NamesView, ProviderId, ProviderNames};
use crate::text;

verus! {

/// Stable identity for one provider settings control.
#[derive(Debug, Clone, Copy, PartialEq, Eq, Structural)]
pub enum ProviderSettingId {
    CodexUsageSource,
    CodexCookieSource,
    CodexCookieHeader,
    CodexLocalSessionCostLedger,
    CodexHistoricalTracking,
    CodexSparkUsageVisible,
    CodexOpenAiWebExtras,
    CodexExternalOauthSources,
    CodexOpenAiWebBatterySaver,
    ClaudeUsageSource,
    ClaudeKeychainPromptPolicy,
    ClaudeCookieSource,
    ClaudeAdminApiKey,
    ClaudeSwapExecutablePath,
    ClaudeModelScopedWeeklyUsageVisible,
    ClaudeDailyRoutinesUsageVisible,
    ClaudeOauthDirectKeychainRead,
    ClaudeOauthPromptFreeCredentials,
    ClaudeSwapAccounts,
    ClaudeSwapShowSingleAccount,
    GrokUsageSource,
    GrokCookieSource,
    GrokCookieHeader,
    CopilotIconSecondaryWindow,
    CopilotBudgetCookieSource,
    CopilotBudgetCookieHeader,
    CopilotEnterpriseHost,
    CopilotBudgetExtras,
    ZaiApiRegion,
    ZaiApiKey,
}

impl ProviderSettingId {
    /// Stable wire identifier, for what its provider is called.
    pub open spec fn wire(self, names: NamesView) -> Seq<char> {
        match self {
            ProviderSettingId::CodexUsageSource => "codex-usage-source"@,
            ProviderSettingId::CodexCookieSource => "codex-cookie-source"@,
            ProviderSettingId::CodexCookieHeader => "codex-cookie-header"@,
            ProviderSettingId::CodexLocalSessionCostLedger => "codex-local-session-cost-ledger"@,
            ProviderSettingId::CodexHistoricalTracking => "codex-historical-tracking"@,
            ProviderSettingId::CodexSparkUsageVisible => "codex-spark-usage-visible"@,
            ProviderSettingId::CodexOpenAiWebExtras => "codex-openai-web-extras"@,
            ProviderSettingId::CodexExternalOauthSources => "codex-external-oauth-sources"@,
            ProviderSettingId::CodexOpenAiWebBatterySaver => "codex-openai-web-battery-saver"@,
            ProviderSettingId::ClaudeUsageSource => names.id + "-usage-source"@,
            ProviderSettingId::ClaudeKeychainPromptPolicy => names.id + "-keychain-prompt-policy"@,
            ProviderSettingId::ClaudeCookieSource => names.id + "-cookie-source"@,
            ProviderSettingId::ClaudeAdminApiKey => names.id + "-admin-api-key"@,
            ProviderSettingId::ClaudeSwapExecutablePath => names.id + "-swap-executable-path"@,
            ProviderSettingId::ClaudeModelScopedWeeklyUsageVisible => names.id + "-model-scoped-weekly-usage-visible"@,
            ProviderSettingId::ClaudeDailyRoutinesUsageVisible => names.id + "-daily-routines-usage-visible"@,
            ProviderSettingId::ClaudeOauthDirectKeychainRead => names.id + "-oauth-direct-keychain-read"@,
            ProviderSettingId::ClaudeOauthPromptFreeCredentials => names.id + "-oauth-prompt-free-credentials"@,
            ProviderSettingId::ClaudeSwapAccounts => names.id + "-swap-accounts"@,
            ProviderSettingId::ClaudeSwapShowSingleAccount => names.id + "-swap-show-single-account"@,
            ProviderSettingId::GrokUsageSource => "grok-usage-source"@,
            ProviderSettingId::GrokCookieSource => "grok-cookie-source"@,
            ProviderSettingId::GrokCookieHeader => "grok-cookie"@,
            ProviderSettingId::CopilotIconSecondaryWindow => "copilot-icon-secondary-window"@,
            ProviderSettingId::CopilotBudgetCookieSource => "copilot-budget-cookie-source"@,
            ProviderSettingId::CopilotBudgetCookieHeader => "copilot-budget-cookie-header"@,
            ProviderSettingId::CopilotEnterpriseHost => "copilot-enterprise-host"@,
            ProviderSettingId::CopilotBudgetExtras => "copilot-budget-extras"@,
            ProviderSettingId::ZaiApiRegion => "zai-api-region"@,
            ProviderSettingId::ZaiApiKey => "zai-api-key"@,
        }
    }

    /// Stable wire identifier, for what its provider is called.
    pub fn as_str(self, names: &ProviderNames) -> (r: String)
        ensures
            r@ == self.wire(names.value()),
    {
        match self {
            ProviderSettingId::CodexUsageSource => "codex-usage-source".to_owned(),
            ProviderSettingId::CodexCookieSource => "codex-cookie-source".to_owned(),
            ProviderSettingId::CodexCookieHeader => "codex-cookie-header".to_owned(),
            ProviderSettingId::CodexLocalSessionCostLedger => "codex-local-session-cost-ledger".to_owned(),
            ProviderSettingId::CodexHistoricalTracking => "codex-historical-tracking".to_owned(),
            ProviderSettingId::CodexSparkUsageVisible => "codex-spark-usage-visible".to_owned(),
            ProviderSettingId::CodexOpenAiWebExtras => "codex-openai-web-extras".to_owned(),
            ProviderSettingId::CodexExternalOauthSources => "codex-external-oauth-sources".to_owned(),
            ProviderSettingId::CodexOpenAiWebBatterySaver => "codex-openai-web-battery-saver".to_owned(),
            ProviderSettingId::ClaudeUsageSource => owned(names, "-usage-source"),
            ProviderSettingId::ClaudeKeychainPromptPolicy => owned(names, "-keychain-prompt-policy"),
            ProviderSettingId::ClaudeCookieSource => owned(names, "-cookie-source"),
            ProviderSettingId::ClaudeAdminApiKey => owned(names, "-admin-api-key"),
            ProviderSettingId::ClaudeSwapExecutablePath => owned(names, "-swap-executable-path"),
            ProviderSettingId::ClaudeModelScopedWeeklyUsageVisible => owned(names, "-model-scoped-weekly-usage-visible"),
            ProviderSettingId::ClaudeDailyRoutinesUsageVisible => owned(names, "-daily-routines-usage-visible"),
            ProviderSettingId::ClaudeOauthDirectKeychainRead => owned(names, "-oauth-direct-keychain-read"),
            ProviderSettingId::ClaudeOauthPromptFreeCredentials => owned(names, "-oauth-prompt-free-credentials"),
            ProviderSettingId::ClaudeSwapAccounts => owned(names, "-swap-accounts"),
            ProviderSettingId::ClaudeSwapShowSingleAccount => owned(names, "-swap-show-single-account"),
            ProviderSettingId::GrokUsageSource => "grok-usage-source".to_owned(),
            ProviderSettingId::GrokCookieSource => "grok-cookie-source".to_owned(),
            ProviderSettingId::GrokCookieHeader => "grok-cookie".to_owned(),
            ProviderSettingId::CopilotIconSecondaryWindow => "copilot-icon-secondary-window".to_owned(),
            ProviderSettingId::CopilotBudgetCookieSource => "copilot-budget-cookie-source".to_owned(),
            ProviderSettingId::CopilotBudgetCookieHeader => "copilot-budget-cookie-header".to_owned(),
            ProviderSettingId::CopilotEnterpriseHost => "copilot-enterprise-host".to_owned(),
            ProviderSettingId::CopilotBudgetExtras => "copilot-budget-extras".to_owned(),
            ProviderSettingId::ZaiApiRegion => "zai-api-region".to_owned(),
            ProviderSettingId::ZaiApiKey => "zai-api-key".to_owned(),
        }
    }
}

/// Closed value vocabulary for picker options and dependency predicates.
#[derive(Debug, Clone, Copy, PartialEq, Eq, Structural)]
pub enum ProviderSettingChoice {
    Auto,
    Pat,
    Oauth,
    Cli,
    Api,
    Web,
    Manual,
    Off,
    Never,
    OnlyOnUserAction,
    Always,
    Global,
    BigModelCn,
    Chat,
}

impl ProviderSettingChoice {
    /// Stable wire identifier.
    pub open spec fn wire(self) -> Seq<char> {
        match self {
            ProviderSettingChoice::Auto => "auto"@,
            ProviderSettingChoice::Pat => "pat"@,
            ProviderSettingChoice::Oauth => "oauth"@,
            ProviderSettingChoice::Cli => "cli"@,
            ProviderSettingChoice::Api => "api"@,
            ProviderSettingChoice::Web => "web"@,
            ProviderSettingChoice::Manual => "manual"@,
            ProviderSettingChoice::Off => "off"@,
            ProviderSettingChoice::Never => "never"@,
            ProviderSettingChoice::OnlyOnUserAction => "onlyOnUserAction"@,
            ProviderSettingChoice::Always => "always"@,
            ProviderSettingChoice::Global => "global"@,
            ProviderSettingChoice::BigModelCn => "bigmodel-cn"@,
            ProviderSettingChoice::Chat => "chat"@,
        }
    }

    /// Stable wire identifier.
    pub fn as_str(self) -> (r: &'static str)
        ensures
            r@ == self.wire(),
    {
        match self {
            ProviderSettingChoice::Auto => "auto",
            ProviderSettingChoice::Pat => "pat",
            ProviderSettingChoice::Oauth => "oauth",
            ProviderSettingChoice::Cli => "cli",
            ProviderSettingChoice::Api => "api",
            ProviderSettingChoice::Web => "web",
            ProviderSettingChoice::Manual => "manual",
            ProviderSettingChoice::Off => "off",
            ProviderSettingChoice::Never => "never",
            ProviderSettingChoice::OnlyOnUserAction => "onlyOnUserAction",
            ProviderSettingChoice::Always => "always",
            ProviderSettingChoice::Global => "global",
            ProviderSettingChoice::BigModelCn => "bigmodel-cn",
            ProviderSettingChoice::Chat => "chat",
        }
    }
}

/// Logical secret destination. A slot identifies storage without carrying a value.
#[derive(Debug, Clone, Copy, PartialEq, Eq, Structural)]
pub enum ProviderSecretSlot {
    CodexWebCookie,
    ClaudeAdminApiKey,
    GrokWebCookie,
    CopilotBudgetCookie,
    ZaiApiKey,
}

impl ProviderSecretSlot {
    /// Stable wire identifier, for what its provider is called.
    pub open spec fn wire(self, names: NamesView) -> Seq<char> {
        match self {
            ProviderSecretSlot::CodexWebCookie => "codex-web-cookie"@,
            ProviderSecretSlot::ClaudeAdminApiKey => names.id + "-admin-api-key"@,
            ProviderSecretSlot::GrokWebCookie => "grok-web-cookie"@,
            ProviderSecretSlot::CopilotBudgetCookie => "copilot-budget-cookie"@,
            ProviderSecretSlot::ZaiApiKey => "zai-api-key"@,
        }
    }

    /// Stable wire identifier, for what its provider is called.
    pub fn as_str(self, names: &ProviderNames) -> (r: String)
        ensures
            r@ == self.wire(names.value()),
    {
        match self {
            ProviderSecretSlot::CodexWebCookie => "codex-web-cookie".to_owned(),
            ProviderSecretSlot::ClaudeAdminApiKey => owned(names, "-admin-api-key"),
            ProviderSecretSlot::GrokWebCookie => "grok-web-cookie".to_owned(),
            ProviderSecretSlot::CopilotBudgetCookie => "copilot-budget-cookie".to_owned(),
            ProviderSecretSlot::ZaiApiKey => "zai-api-key".to_owned(),
        }
    }
}

/// Stable identity for one provider action.
#[derive(Debug, Clone, Copy, PartialEq, Eq, Structural)]
pub enum ProviderSettingsActionId {
    AddCodexAccount,
    OpenGrokUsage,
    OpenGrokTokenFile,
    RefreshCopilotBudgets,
    AddCopilotAccount,
    OpenZaiApiKeys,
}

impl ProviderSettingsActionId {
    /// Stable wire identifier.
    pub open spec fn wire(self) -> Seq<char> {
        match self {
            ProviderSettingsActionId::AddCodexAccount => "add-codex-account"@,
            ProviderSettingsActionId::OpenGrokUsage => "grok-open-usage"@,
            ProviderSettingsActionId::OpenGrokTokenFile => "grok-open-token-file"@,
            ProviderSettingsActionId::RefreshCopilotBudgets => "refresh-copilot-budget-cookie"@,
            ProviderSettingsActionId::AddCopilotAccount => "copilot-add-account-action"@,
            ProviderSettingsActionId::OpenZaiApiKeys => "zai-open-api-keys"@,
        }
    }

    /// Stable wire identifier.
    pub fn as_str(self) -> (r: &'static str)
        ensures
            r@ == self.wire(),
    {
        match self {
            ProviderSettingsActionId::AddCodexAccount => "add-codex-account",
            ProviderSettingsActionId::OpenGrokUsage => "grok-open-usage",
            ProviderSettingsActionId::OpenGrokTokenFile => "grok-open-token-file",
            ProviderSettingsActionId::RefreshCopilotBudgets => "refresh-copilot-budget-cookie",
            ProviderSettingsActionId::AddCopilotAccount => "copilot-add-account-action",
            ProviderSettingsActionId::OpenZaiApiKeys => "zai-open-api-keys",
        }
    }
}

/// Explicit reason why upstream metadata is not actionable in this runtime.
#[derive(Debug, Clone, Copy, PartialEq, Eq, Structural)]
pub enum ProviderSettingsGap {
    ConfigurableCostLedger,
    ConfigurableHistoryTracking,
    DisplayFiltering,
    OpenAiWebExtras,
    ManagedAccountLifecycle,
    DesktopWidgets,
    MacOsKeychainPolicy,
    ClaudeSwap,
    ClaudeAdminApi,
    ClaudeSourceSelection,
    ClaudeWebUsage,
    ClaudeCliUsage,
    BrowserCookieUsage,
    ExplicitGrokSourceSelection,
    CopilotBudgetConfiguration,
    CopilotEnterpriseLogin,
    MenuBarMetricSelection,
    RegionalCredentialPageAction,
    ProviderOwnedFileAction,
    MultiAccountLifecycle,
}

impl ProviderSettingsGap {
    /// Stable wire identifier, for what its provider is called.
    pub open spec fn wire(self, names: NamesView) -> Seq<char> {
        match self {
            ProviderSettingsGap::ConfigurableCostLedger => "configurable-cost-ledger"@,
            ProviderSettingsGap::ConfigurableHistoryTracking => "configurable-history-tracking"@,
            ProviderSettingsGap::DisplayFiltering => "display-filtering"@,
            ProviderSettingsGap::OpenAiWebExtras => "openai-web-extras"@,
            ProviderSettingsGap::ManagedAccountLifecycle => "managed-account-lifecycle"@,
            ProviderSettingsGap::DesktopWidgets => "desktop-widgets"@,
            ProviderSettingsGap::MacOsKeychainPolicy => "macos-keychain-policy"@,
            ProviderSettingsGap::ClaudeSwap => names.id + "-swap"@,
            ProviderSettingsGap::ClaudeAdminApi => names.id + "-admin-api"@,
            ProviderSettingsGap::ClaudeSourceSelection => names.id + "-source-selection"@,
            ProviderSettingsGap::ClaudeWebUsage => names.id + "-web-usage"@,
            ProviderSettingsGap::ClaudeCliUsage => names.id + "-cli-usage"@,
            ProviderSettingsGap::BrowserCookieUsage => "browser-cookie-usage"@,
            ProviderSettingsGap::ExplicitGrokSourceSelection => "explicit-grok-source-selection"@,
            ProviderSettingsGap::CopilotBudgetConfiguration => "copilot-budget-configuration"@,
            ProviderSettingsGap::CopilotEnterpriseLogin => "copilot-enterprise-login"@,
            ProviderSettingsGap::MenuBarMetricSelection => "menu-bar-metric-selection"@,
            ProviderSettingsGap::RegionalCredentialPageAction => "regional-credential-page-action"@,
            ProviderSettingsGap::ProviderOwnedFileAction => "provider-owned-file-action"@,
            ProviderSettingsGap::MultiAccountLifecycle => "multi-account-lifecycle"@,
        }
    }

    /// Stable wire identifier, for what its provider is called.
    pub fn as_str(self, names: &ProviderNames) -> (r: String)
        ensures
            r@ == self.wire(names.value()),
    {
        match self {
            ProviderSettingsGap::ConfigurableCostLedger => "configurable-cost-ledger".to_owned(),
            ProviderSettingsGap::ConfigurableHistoryTracking => "configurable-history-tracking".to_owned(),
            ProviderSettingsGap::DisplayFiltering => "display-filtering".to_owned(),
            ProviderSettingsGap::OpenAiWebExtras => "openai-web-extras".to_owned(),
            ProviderSettingsGap::ManagedAccountLifecycle => "managed-account-lifecycle".to_owned(),
            ProviderSettingsGap::DesktopWidgets => "desktop-widgets".to_owned(),
            ProviderSettingsGap::MacOsKeychainPolicy => "macos-keychain-policy".to_owned(),
            ProviderSettingsGap::ClaudeSwap => owned(names, "-swap"),
            ProviderSettingsGap::ClaudeAdminApi => owned(names, "-admin-api"),
            ProviderSettingsGap::ClaudeSourceSelection => owned(names, "-source-selection"),
            ProviderSettingsGap::ClaudeWebUsage => owned(names, "-web-usage"),
            ProviderSettingsGap::ClaudeCliUsage => owned(names, "-cli-usage"),
            ProviderSettingsGap::BrowserCookieUsage => "browser-cookie-usage".to_owned(),
            ProviderSettingsGap::ExplicitGrokSourceSelection => "explicit-grok-source-selection".to_owned(),
            ProviderSettingsGap::CopilotBudgetConfiguration => "copilot-budget-configuration".to_owned(),
            ProviderSettingsGap::CopilotEnterpriseLogin => "copilot-enterprise-login".to_owned(),
            ProviderSettingsGap::MenuBarMetricSelection => "menu-bar-metric-selection".to_owned(),
            ProviderSettingsGap::RegionalCredentialPageAction => "regional-credential-page-action".to_owned(),
            ProviderSettingsGap::ProviderOwnedFileAction => "provider-owned-file-action".to_owned(),
            ProviderSettingsGap::MultiAccountLifecycle => "multi-account-lifecycle".to_owned(),
        }
    }
}

/// Global, non-provider setting referenced by a dependency expression.
#[derive(Debug, Clone, Copy, PartialEq, Eq, Structural)]
pub enum ProviderSettingsFeature {
    OptionalCreditsAndExtraUsage,
    KeychainAccess,
}

impl ProviderSettingsFeature {
    /// Stable wire identifier.
    pub open spec fn wire(self) -> Seq<char> {
        match self {
            ProviderSettingsFeature::OptionalCreditsAndExtraUsage => "optional-credits-and-extra-usage"@,
            ProviderSettingsFeature::KeychainAccess => "keychain-access"@,
        }
    }

    /// Stable wire identifier.
    pub fn as_str(self) -> (r: &'static str)
        ensures
            r@ == self.wire(),
    {
        match self {
            ProviderSettingsFeature::OptionalCreditsAndExtraUsage => "optional-credits-and-extra-usage",
            ProviderSettingsFeature::KeychainAccess => "keychain-access",
        }
    }
}

/// Public runtime fact that a UI may use to resolve a static dependency.
#[derive(Debug, Clone, Copy, PartialEq, Eq, Structural)]
pub enum ProviderSettingsRuntimeFact {
    ConfiguredAccountsPresent,
}

impl ProviderSettingsRuntimeFact {
    /// Stable wire identifier.
    pub open spec fn wire(self) -> Seq<char> {
        match self {
            ProviderSettingsRuntimeFact::ConfiguredAccountsPresent => "configured-accounts-present"@,
        }
    }

    /// Stable wire identifier.
    pub fn as_str(self) -> (r: &'static str)
        ensures
            r@ == self.wire(),
    {
        match self {
            ProviderSettingsRuntimeFact::ConfiguredAccountsPresent => "configured-accounts-present",
        }
    }
}

/// Typed dynamic annotation requested by otherwise-static metadata.
#[derive(Debug, Clone, Copy, PartialEq, Eq, Structural)]
pub enum ProviderSettingsRuntimeHint {
    ResolvedSource,
    ImportedBrowserSession,
    ClaudeKeychainPolicy,
    ClaudeSwapStatus,
    CopilotBudgetStatus,
    CopilotBudgetOptions,
}

impl ProviderSettingsRuntimeHint {
    /// Stable wire identifier, for what its provider is called.
    pub open spec fn wire(self, names: NamesView) -> Seq<char> {
        match self {
            ProviderSettingsRuntimeHint::ResolvedSource => "resolved-source"@,
            ProviderSettingsRuntimeHint::ImportedBrowserSession => "imported-browser-session"@,
            ProviderSettingsRuntimeHint::ClaudeKeychainPolicy => names.id + "-keychain-policy"@,
            ProviderSettingsRuntimeHint::ClaudeSwapStatus => names.id + "-swap-status"@,
            ProviderSettingsRuntimeHint::CopilotBudgetStatus => "copilot-budget-status"@,
            ProviderSettingsRuntimeHint::CopilotBudgetOptions => "copilot-budget-options"@,
        }
    }

    /// Stable wire identifier, for what its provider is called.
    pub fn as_str(self, names: &ProviderNames) -> (r: String)
        ensures
            r@ == self.wire(names.value()),
    {
        match self {
            ProviderSettingsRuntimeHint::ResolvedSource => "resolved-source".to_owned(),
            ProviderSettingsRuntimeHint::ImportedBrowserSession => "imported-browser-session".to_owned(),
            ProviderSettingsRuntimeHint::ClaudeKeychainPolicy => owned(names, "-keychain-policy"),
            ProviderSettingsRuntimeHint::ClaudeSwapStatus => owned(names, "-swap-status"),
            ProviderSettingsRuntimeHint::CopilotBudgetStatus => "copilot-budget-status".to_owned(),
            ProviderSettingsRuntimeHint::CopilotBudgetOptions => "copilot-budget-options".to_owned(),
        }
    }
}

/// Whether a descriptor is safe for an interactive interface.
#[derive(Debug, Clone, Copy, PartialEq, Eq, Structural)]
pub enum ProviderSettingsAvailability {
    /// There is a matching behavior.
    Implemented,
    /// Selecting the item would be ignored.
    Unavailable { gap: ProviderSettingsGap },
}

impl ProviderSettingsAvailability {
    /// Whether an interface may expose the item as interactive.
    pub fn is_implemented(self) -> (r: bool)
        ensures
            r == (self == ProviderSettingsAvailability::Implemented),
    {
        match self {
            ProviderSettingsAvailability::Implemented => true,
            ProviderSettingsAvailability::Unavailable { gap: _ } => false,
        }
    }
}

/// Closed boolean expression for visibility and enabled-state dependencies.
pub enum ProviderSettingsCondition {
    /// No dependency.
    Always,
    /// Every nested condition must match.
    All { conditions: Vec<ProviderSettingsCondition> },
    /// At least one nested condition must match.
    Any { conditions: Vec<ProviderSettingsCondition> },
    /// A picker must have one choice.
    Choice { setting: ProviderSettingId, choice: ProviderSettingChoice },
    /// A toggle must have a state.
    Toggle { setting: ProviderSettingId, enabled: bool },
    /// An application-wide feature must have a state.
    Feature { feature: ProviderSettingsFeature, enabled: bool },
    /// A public runtime fact must be true.
    RuntimeFact { fact: ProviderSettingsRuntimeFact },
}

/// Mathematical value of a [`ProviderSettingsCondition`].
pub enum ConditionValue {
    Always,
    All { conditions: Seq<ConditionValue> },
    Any { conditions: Seq<ConditionValue> },
    Choice { setting: ProviderSettingId, choice: ProviderSettingChoice },
    Toggle { setting: ProviderSettingId, enabled: bool },
    Feature { feature: ProviderSettingsFeature, enabled: bool },
    RuntimeFact { fact: ProviderSettingsRuntimeFact },
}

impl ProviderSettingsCondition {
    pub open spec fn value(&self) -> ConditionValue
        decreases self,
    {
        match self {
            ProviderSettingsCondition::Always => ConditionValue::Always,
            ProviderSettingsCondition::All { conditions } => ConditionValue::All {
                conditions: Seq::new(
                    conditions@.len(),
                    |i: int|
                        if 0 <= i < conditions@.len() {
                            conditions[i].value()
                        } else {
                            ConditionValue::Always
                        },
                ),
            },
            ProviderSettingsCondition::Any { conditions } => ConditionValue::Any {
                conditions: Seq::new(
                    conditions@.len(),
                    |i: int|
                        if 0 <= i < conditions@.len() {
                            conditions[i].value()
                        } else {
                            ConditionValue::Always
                        },
                ),
            },
            ProviderSettingsCondition::Choice { setting, choice } => ConditionValue::Choice {
                setting: *setting,
                choice: *choice,
            },
            ProviderSettingsCondition::Toggle { setting, enabled } => ConditionValue::Toggle {
                setting: *setting,
                enabled: *enabled,
            },
            ProviderSettingsCondition::Feature { feature, enabled } => ConditionValue::Feature {
                feature: *feature,
                enabled: *enabled,
            },
            ProviderSettingsCondition::RuntimeFact { fact } => ConditionValue::RuntimeFact {
                fact: *fact,
            },
        }
    }
}

/// The values of conditions.
pub open spec fn condition_values(conditions: Seq<ProviderSettingsCondition>) -> Seq<ConditionValue> {
    Seq::new(conditions.len(), |i: int| conditions[i].value())
}

/// The operands of a condition.
pub open spec fn operands(condition: ConditionValue) -> Seq<ConditionValue> {
    match condition {
        ConditionValue::All { conditions } => conditions,
        ConditionValue::Any { conditions } => conditions,
        _ => seq![],
    }
}

/// Group in which an interface places a control.
#[derive(Debug, Clone, Copy, PartialEq, Eq, Structural)]
pub enum ProviderSettingsSection {
    /// Menu-bar presentation choices.
    MenuBar,
    /// Source and connection choices.
    Connection,
    /// Credential or other provider input.
    Credentials,
    /// Optional provider behavior.
    Options,
}

/// Metadata shared by every settings control.
pub struct ProviderSettingsItemMetadata {
    /// Stable control identity.
    pub id: ProviderSettingId,
    /// Title for users.
    pub title: String,
    /// Explanation for users.
    pub subtitle: String,
    /// Shared group.
    pub section: ProviderSettingsSection,
    /// When the control is visible.
    pub visible_when: ProviderSettingsCondition,
    /// When the control is enabled.
    pub enabled_when: ProviderSettingsCondition,
    /// Whether there is a matching behavior.
    pub availability: ProviderSettingsAvailability,
    /// Optional request for a dynamic annotation.
    pub runtime_hint: Option<ProviderSettingsRuntimeHint>,
}

/// Mathematical value of a [`ProviderSettingsItemMetadata`].
pub struct ItemValue {
    pub id: ProviderSettingId,
    pub title: Seq<char>,
    pub subtitle: Seq<char>,
    pub section: ProviderSettingsSection,
    pub visible_when: ConditionValue,
    pub enabled_when: ConditionValue,
    pub availability: ProviderSettingsAvailability,
    pub runtime_hint: Option<ProviderSettingsRuntimeHint>,
}

impl ProviderSettingsItemMetadata {
    pub open spec fn value(self) -> ItemValue {
        ItemValue {
            id: self.id,
            title: self.title@,
            subtitle: self.subtitle@,
            section: self.section,
            visible_when: self.visible_when.value(),
            enabled_when: self.enabled_when.value(),
            availability: self.availability,
            runtime_hint: self.runtime_hint,
        }
    }
}

/// One closed picker option. It stores no selected or default value.
pub struct ProviderSettingsPickerOption {
    /// Closed choice.
    pub choice: ProviderSettingChoice,
    /// Label for users.
    pub title: &'static str,
    /// Whether there is a matching behavior.
    pub availability: ProviderSettingsAvailability,
}

/// Mathematical value of a [`ProviderSettingsPickerOption`].
pub struct OptionValue {
    pub choice: ProviderSettingChoice,
    pub title: Seq<char>,
    pub availability: ProviderSettingsAvailability,
}

impl ProviderSettingsPickerOption {
    pub open spec fn value(self) -> OptionValue {
        OptionValue { choice: self.choice, title: self.title@, availability: self.availability }
    }
}

/// The values of picker options.
pub open spec fn option_values(options: Seq<ProviderSettingsPickerOption>) -> Seq<OptionValue> {
    Seq::new(options.len(), |i: int| options[i].value())
}

/// Options that a picker gets at run time.
#[derive(Debug, Clone, Copy, PartialEq, Eq, Structural)]
pub enum ProviderSettingsDynamicOptions {
    /// Budget windows found in the latest reading.
    CopilotBudgetWindows,
}

/// Metadata of a picker.
pub struct ProviderSettingsPickerDescriptor {
    pub item: ProviderSettingsItemMetadata,
    /// Closed choices.
    pub options: Vec<ProviderSettingsPickerOption>,
    /// Options that come at run time.
    pub dynamic_options: Option<ProviderSettingsDynamicOptions>,
    /// Actions beside the picker.
    pub actions: Vec<ProviderSettingsActionId>,
}

/// Mathematical value of a [`ProviderSettingsPickerDescriptor`].
pub struct PickerValue {
    pub item: ItemValue,
    pub options: Seq<OptionValue>,
    pub dynamic_options: Option<ProviderSettingsDynamicOptions>,
    pub actions: Seq<ProviderSettingsActionId>,
}

/// Metadata of a toggle.
pub struct ProviderSettingsToggleDescriptor {
    pub item: ProviderSettingsItemMetadata,
    /// Actions shown while the toggle is enabled.
    pub actions: Vec<ProviderSettingsActionId>,
}

/// Mathematical value of a [`ProviderSettingsToggleDescriptor`].
pub struct ToggleValue {
    pub item: ItemValue,
    pub actions: Seq<ProviderSettingsActionId>,
}

/// Metadata of a text option that is no secret.
pub struct ProviderSettingsPlainOptionDescriptor {
    pub item: ProviderSettingsItemMetadata,
    /// Placeholder, never a stored value.
    pub placeholder: Option<&'static str>,
    /// Actions below the option.
    pub actions: Vec<ProviderSettingsActionId>,
}

/// Mathematical value of a [`ProviderSettingsPlainOptionDescriptor`].
pub struct PlainOptionValue {
    pub item: ItemValue,
    pub placeholder: Option<Seq<char>>,
    pub actions: Seq<ProviderSettingsActionId>,
}

/// Metadata of a secret input. The secret itself cannot be represented.
pub struct ProviderSettingsSecretSlotDescriptor {
    pub item: ProviderSettingsItemMetadata,
    /// Closed destination of the secret.
    pub slot: ProviderSecretSlot,
    /// Format hint, never a credential.
    pub placeholder: Option<&'static str>,
    /// Actions below the input.
    pub actions: Vec<ProviderSettingsActionId>,
}

/// Mathematical value of a [`ProviderSettingsSecretSlotDescriptor`].
pub struct SecretSlotValue {
    pub item: ItemValue,
    pub slot: ProviderSecretSlot,
    pub placeholder: Option<Seq<char>>,
    pub actions: Seq<ProviderSettingsActionId>,
}

/// One control of a provider.
pub enum ProviderSettingsControlDescriptor {
    /// Choice picker.
    Picker(ProviderSettingsPickerDescriptor),
    /// Boolean toggle.
    Toggle(ProviderSettingsToggleDescriptor),
    /// Text option that is no secret.
    PlainOption(ProviderSettingsPlainOptionDescriptor),
    /// Managed secret input.
    SecretSlot(ProviderSettingsSecretSlotDescriptor),
}

/// Mathematical value of a [`ProviderSettingsControlDescriptor`].
pub enum ControlValue {
    Picker(PickerValue),
    Toggle(ToggleValue),
    PlainOption(PlainOptionValue),
    SecretSlot(SecretSlotValue),
}

/// The text of an optional placeholder.
pub open spec fn placeholder_value(placeholder: Option<&'static str>) -> Option<Seq<char>> {
    match placeholder {
        Some(s) => Some(s@),
        None => None,
    }
}

/// The metadata that a control shares with all others.
pub open spec fn item_of(control: ControlValue) -> ItemValue {
    match control {
        ControlValue::Picker(d) => d.item,
        ControlValue::Toggle(d) => d.item,
        ControlValue::PlainOption(d) => d.item,
        ControlValue::SecretSlot(d) => d.item,
    }
}

/// The actions of a control.
pub open spec fn actions_of(control: ControlValue) -> Seq<ProviderSettingsActionId> {
    match control {
        ControlValue::Picker(d) => d.actions,
        ControlValue::Toggle(d) => d.actions,
        ControlValue::PlainOption(d) => d.actions,
        ControlValue::SecretSlot(d) => d.actions,
    }
}

impl ProviderSettingsControlDescriptor {
    pub open spec fn value(self) -> ControlValue {
        match self {
            ProviderSettingsControlDescriptor::Picker(d) => ControlValue::Picker(
                PickerValue {
                    item: d.item.value(),
                    options: option_values(d.options@),
                    dynamic_options: d.dynamic_options,
                    actions: d.actions@,
                },
            ),
            ProviderSettingsControlDescriptor::Toggle(d) => ControlValue::Toggle(
                ToggleValue { item: d.item.value(), actions: d.actions@ },
            ),
            ProviderSettingsControlDescriptor::PlainOption(d) => ControlValue::PlainOption(
                PlainOptionValue {
                    item: d.item.value(),
                    placeholder: placeholder_value(d.placeholder),
                    actions: d.actions@,
                },
            ),
            ProviderSettingsControlDescriptor::SecretSlot(d) => ControlValue::SecretSlot(
                SecretSlotValue {
                    item: d.item.value(),
                    slot: d.slot,
                    placeholder: placeholder_value(d.placeholder),
                    actions: d.actions@,
                },
            ),
        }
    }

    /// The metadata that the control shares with all others.
    pub fn item(&self) -> (r: &ProviderSettingsItemMetadata)
        ensures
            r.value() == item_of(self.value()),
    {
        match self {
            ProviderSettingsControlDescriptor::Picker(d) => &d.item,
            ProviderSettingsControlDescriptor::Toggle(d) => &d.item,
            ProviderSettingsControlDescriptor::PlainOption(d) => &d.item,
            ProviderSettingsControlDescriptor::SecretSlot(d) => &d.item,
        }
    }

    /// Whether there is a behavior that matches the whole control.
    pub fn is_implemented(&self) -> (r: bool)
        ensures
            r == (item_of(self.value()).availability == ProviderSettingsAvailability::Implemented),
    {
        self.item().availability.is_implemented()
    }
}

/// The values of controls.
pub open spec fn control_values(controls: Seq<ProviderSettingsControlDescriptor>) -> Seq<ControlValue> {
    Seq::new(controls.len(), |i: int| controls[i].value())
}

/// How an action is drawn.
#[derive(Debug, Clone, Copy, PartialEq, Eq, Structural)]
pub enum ProviderSettingsActionStyle {
    /// Compact bordered button.
    Bordered,
    /// Link.
    Link,
}

/// Closed side effect of an action.
#[derive(Debug, Clone, Copy, PartialEq, Eq, Structural)]
pub enum ProviderSettingsActionTarget {
    /// Launch the provider's login.
    Login,
    /// Launch the provider's managed accounts.
    AddManagedAccount,
    /// Open the provider's usage dashboard.
    OpenUsageDashboard,
    /// Open the provider's token file.
    OpenTokenFile,
    /// Refresh the provider without changing credentials.
    RefreshProvider,
    /// Open the credential page of the current region.
    OpenRegionalCredentialPage,
}

/// Metadata of an action, without commands or URLs.
pub struct ProviderSettingsActionDescriptor {
    /// Stable action identity.
    pub id: ProviderSettingsActionId,
    /// Title for users.
    pub title: &'static str,
    /// How the action is drawn.
    pub style: ProviderSettingsActionStyle,
    /// Shared group where the action has a row of its own.
    pub section: ProviderSettingsSection,
    /// Whether the action stands apart from controls and account editor.
    pub standalone: bool,
    /// Closed side effect.
    pub target: ProviderSettingsActionTarget,
    /// When the action is visible.
    pub visible_when: ProviderSettingsCondition,
    /// Whether there is a matching behavior.
    pub availability: ProviderSettingsAvailability,
}

/// Mathematical value of a [`ProviderSettingsActionDescriptor`].
pub struct ActionValue {
    pub id: ProviderSettingsActionId,
    pub title: Seq<char>,
    pub style: ProviderSettingsActionStyle,
    pub section: ProviderSettingsSection,
    pub standalone: bool,
    pub target: ProviderSettingsActionTarget,
    pub visible_when: ConditionValue,
    pub availability: ProviderSettingsAvailability,
}

impl ProviderSettingsActionDescriptor {
    pub open spec fn value(self) -> ActionValue {
        ActionValue {
            id: self.id,
            title: self.title@,
            style: self.style,
            section: self.section,
            standalone: self.standalone,
            target: self.target,
            visible_when: self.visible_when.value(),
            availability: self.availability,
        }
    }
}

/// The values of actions.
pub open spec fn action_values(actions: Seq<ProviderSettingsActionDescriptor>) -> Seq<ActionValue> {
    Seq::new(actions.len(), |i: int| actions[i].value())
}

/// Credentials that the account editor accepts.
#[derive(Debug, Clone, Copy, PartialEq, Eq, Structural)]
pub enum ProviderAccountCredentialKind {
    /// Application-managed OAuth identity.
    Oauth,
    /// Personal access token.
    PersonalAccessToken,
    /// Browser session cookie.
    WebSession,
    /// API key of an organization's administrator.
    AdminApiKey,
    /// API key.
    ApiKey,
    /// SuperGrok bearer credential.
    GrokBearer,
}

/// Whether an account field is asked for.
#[derive(Debug, Clone, Copy, PartialEq, Eq, Structural)]
pub enum ProviderAccountFieldMode {
    /// The field is not shown.
    Hidden,
    /// The field is optional.
    Optional,
    /// The field is required in team mode.
    RequiredInTeamMode,
}

/// Metadata of the account editor.
pub struct ProviderAccountSupportDescriptor {
    /// Section title for users.
    pub title: String,
    /// Explanation for users.
    pub subtitle: String,
    /// Format hint.
    pub placeholder: &'static str,
    /// Accepted credentials.
    pub credential_kinds: Vec<ProviderAccountCredentialKind>,
    /// The organization field.
    pub organization_field: ProviderAccountFieldMode,
    /// The workspace or project field.
    pub workspace_field: ProviderAccountFieldMode,
    /// Whether an account needs the manual cookie source.
    pub requires_manual_cookie_source: bool,
    /// Primary action of the editor.
    pub primary_action: Option<ProviderSettingsActionId>,
    /// Action on the provider's token file.
    pub token_file_action: Option<ProviderSettingsActionId>,
    /// When the editor is visible.
    pub visible_when: ProviderSettingsCondition,
    /// Whether there is a matching behavior.
    pub availability: ProviderSettingsAvailability,
}

/// Mathematical value of a [`ProviderAccountSupportDescriptor`].
pub struct AccountsValue {
    pub title: Seq<char>,
    pub subtitle: Seq<char>,
    pub placeholder: Seq<char>,
    pub credential_kinds: Seq<ProviderAccountCredentialKind>,
    pub organization_field: ProviderAccountFieldMode,
    pub workspace_field: ProviderAccountFieldMode,
    pub requires_manual_cookie_source: bool,
    pub primary_action: Option<ProviderSettingsActionId>,
    pub token_file_action: Option<ProviderSettingsActionId>,
    pub visible_when: ConditionValue,
    pub availability: ProviderSettingsAvailability,
}

impl ProviderAccountSupportDescriptor {
    pub open spec fn value(self) -> AccountsValue {
        AccountsValue {
            title: self.title@,
            subtitle: self.subtitle@,
            placeholder: self.placeholder@,
            credential_kinds: self.credential_kinds@,
            organization_field: self.organization_field,
            workspace_field: self.workspace_field,
            requires_manual_cookie_source: self.requires_manual_cookie_source,
            primary_action: self.primary_action,
            token_file_action: self.token_file_action,
            visible_when: self.visible_when.value(),
            availability: self.availability,
        }
    }
}

/// Complete settings schema of a provider.
pub struct ProviderSettingsDescriptor {
    /// Schema version.
    pub schema_version: u8,
    /// Provider that owns every control, action and account operation.
    pub provider: ProviderId,
    /// Controls in stable order.
    pub controls: Vec<ProviderSettingsControlDescriptor>,
    /// Actions that controls and account editor refer to.
    pub actions: Vec<ProviderSettingsActionDescriptor>,
    /// Metadata of the account editor.
    pub accounts: Option<ProviderAccountSupportDescriptor>,
}

/// Mathematical value of a [`ProviderSettingsDescriptor`].
pub struct DescriptorValue {
    pub schema_version: u8,
    pub provider: ProviderId,
    pub controls: Seq<ControlValue>,
    pub actions: Seq<ActionValue>,
    pub accounts: Option<AccountsValue>,
}

/// The first control at or behind `from` with an identity.
pub open spec fn control_position(controls: Seq<ControlValue>, id: ProviderSettingId, from: int) -> Option<
    int,
>
    decreases controls.len() - from,
{
    if from < 0 || from >= controls.len() {
        None
    } else if item_of(controls[from]).id == id {
        Some(from)
    } else {
        control_position(controls, id, from + 1)
    }
}

/// The first action at or behind `from` with an identity.
pub open spec fn action_position(
    actions: Seq<ActionValue>,
    id: ProviderSettingsActionId,
    from: int,
) -> Option<int>
    decreases actions.len() - from,
{
    if from < 0 || from >= actions.len() {
        None
    } else if actions[from].id == id {
        Some(from)
    } else {
        action_position(actions, id, from + 1)
    }
}

impl ProviderSettingsDescriptor {
    pub open spec fn value(self) -> DescriptorValue {
        DescriptorValue {
            schema_version: self.schema_version,
            provider: self.provider,
            controls: control_values(self.controls@),
            actions: action_values(self.actions@),
            accounts: match self.accounts {
                Some(accounts) => Some(accounts.value()),
                None => None,
            },
        }
    }

    /// The first control with an identity.
    pub fn control(&self, id: ProviderSettingId) -> (r: Option<&ProviderSettingsControlDescriptor>)
        ensures
            match r {
                Some(control) => control_position(self.value().controls, id, 0) matches Some(at)
                    && 0 <= at < self.controls@.len() && *control == self.controls@[at],
                None => control_position(self.value().controls, id, 0) is None,
            },
    {
        let ghost all = self.value().controls;
        let mut i: usize = 0;
        while i < self.controls.len()
            invariant
                i <= self.controls@.len(),
                all == self.value().controls,
                control_position(all, id, 0) == control_position(all, id, i as int),
            decreases self.controls@.len() - i,
        {
            assert(all[i as int] == self.controls@[i as int].value());
            if self.controls[i].item().id == id {
                return Some(&self.controls[i]);
            }
            i += 1;
        }
        None
    }

    /// The first action with an identity.
    pub fn action(&self, id: ProviderSettingsActionId) -> (r: Option<
        &ProviderSettingsActionDescriptor,
    >)
        ensures
            match r {
                Some(action) => action_position(self.value().actions, id, 0) matches Some(at)
                    && 0 <= at < self.actions@.len() && *action == self.actions@[at],
                None => action_position(self.value().actions, id, 0) is None,
            },
    {
        let ghost all = self.value().actions;
        let mut i: usize = 0;
        while i < self.actions.len()
            invariant
                i <= self.actions@.len(),
                all == self.value().actions,
                action_position(all, id, 0) == action_position(all, id, i as int),
            decreases self.actions@.len() - i,
        {
            assert(all[i as int] == self.actions@[i as int].value());
            if self.actions[i].id == id {
                return Some(&self.actions[i]);
            }
            i += 1;
        }
        None
    }
}

/// A text with what a provider is called in the places held for it.
pub open spec fn filled(source: Seq<char>, names: NamesView) -> Seq<char> {
    text::replaced(
        text::replaced(source, "{provider}"@, names.display),
        "{provider-id}"@,
        names.id,
    )
}

/// A text with what a provider is called in the places held for it.
pub(crate) fn fill(source: &str, names: &ProviderNames) -> (r: String)
    ensures
        r@ == filled(source@, names.value()),
{
    proof {
        reveal_strlit("{provider}");
        reveal_strlit("{provider-id}");
    }
    let chars = text::chars_of(source);
    let named = text::replace(chars.as_slice(), "{provider}", names.display.as_str());
    let shown = text::replace(named.as_slice(), "{provider-id}", names.id.as_str());
    text::text_of(shown.as_slice())
}

/// The identifier of a provider with a text behind it.
fn owned(names: &ProviderNames, rest: &str) -> (r: String)
    ensures
        r@ == names.id@ + rest@,
{
    let mut name = names.id.clone();
    name.append(rest);
    name
}

} // verus!
