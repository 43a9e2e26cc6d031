//! The settings schemas of the providers that have one.

use vstd::prelude::*;

use crate::registry::{NamesView, ProviderId, ProviderNames};
use crate::settings_descriptor::{
    action_values, actions_of, condition_values, control_values, fill, filled, item_of, operands,
    option_values,
    AccountsValue, ActionValue, ConditionValue, ControlValue, DescriptorValue, ItemValue,
    OptionValue, PickerValue, PlainOptionValue, ProviderAccountCredentialKind,
    ProviderAccountFieldMode, ProviderAccountSupportDescriptor, ProviderSecretSlot,
    ProviderSettingChoice, ProviderSettingId, ProviderSettingsActionDescriptor,
    ProviderSettingsActionId, ProviderSettingsActionStyle, ProviderSettingsActionTarget,
    ProviderSettingsAvailability, ProviderSettingsCondition, ProviderSettingsControlDescriptor,
    ProviderSettingsDescriptor, ProviderSettingsDynamicOptions, ProviderSettingsFeature,
    ProviderSettingsGap, ProviderSettingsItemMetadata, ProviderSettingsPickerDescriptor,
    ProviderSettingsPickerOption, ProviderSettingsPlainOptionDescriptor,
    ProviderSettingsRuntimeFact, ProviderSettingsRuntimeHint,
    ProviderSettingsSecretSlotDescriptor, ProviderSettingsSection,
    ProviderSettingsToggleDescriptor, SecretSlotValue, ToggleValue,
};

verus! {

/// Metadata of a control.
pub open spec fn item_value(
    id: ProviderSettingId,
    title: Seq<char>,
    subtitle: Seq<char>,
    section: ProviderSettingsSection,
    visible_when: ConditionValue,
    enabled_when: ConditionValue,
    availability: ProviderSettingsAvailability,
    runtime_hint: Option<ProviderSettingsRuntimeHint>,
) -> ItemValue {
    ItemValue {
        id,
        title,
        subtitle,
        section,
        visible_when,
        enabled_when,
        availability,
        runtime_hint,
    }
}

fn item(
    id: ProviderSettingId,
    title: &str,
    subtitle: &str,
    section: ProviderSettingsSection,
    visible_when: ProviderSettingsCondition,
    enabled_when: ProviderSettingsCondition,
    availability: ProviderSettingsAvailability,
    runtime_hint: Option<ProviderSettingsRuntimeHint>,
) -> (r: ProviderSettingsItemMetadata)
    ensures
        r.value() == item_value(
            id,
            title@,
            subtitle@,
            section,
            visible_when.value(),
            enabled_when.value(),
            availability,
            runtime_hint,
        ),
{
    ProviderSettingsItemMetadata {
        id,
        title: title.to_owned(),
        subtitle: subtitle.to_owned(),
        section,
        visible_when,
        enabled_when,
        availability,
        runtime_hint,
    }
}

/// One option of a picker.
pub open spec fn option_value(
    choice: ProviderSettingChoice,
    title: Seq<char>,
    availability: ProviderSettingsAvailability,
) -> OptionValue {
    OptionValue { choice, title, availability }
}

fn option(
    choice: ProviderSettingChoice,
    title: &'static str,
    availability: ProviderSettingsAvailability,
) -> (r: ProviderSettingsPickerOption)
    ensures
        r.value() == option_value(choice, title@, availability),
{
    ProviderSettingsPickerOption { choice, title, availability }
}

/// A condition.
pub open spec fn codex_web_extras_on_value() -> ConditionValue {
    ConditionValue::Toggle {
    setting: ProviderSettingId::CodexOpenAiWebExtras,
    enabled: true,
}
}

fn codex_web_extras_on() -> (r: ProviderSettingsCondition)
    ensures
        r.value() == codex_web_extras_on_value(),
{
    ProviderSettingsCondition::Toggle {
    setting: ProviderSettingId::CodexOpenAiWebExtras,
    enabled: true,
}
}

/// A condition.
pub open spec fn codex_cookie_manual_value() -> ConditionValue {
    ConditionValue::Choice {
    setting: ProviderSettingId::CodexCookieSource,
    choice: ProviderSettingChoice::Manual,
}
}

fn codex_cookie_manual() -> (r: ProviderSettingsCondition)
    ensures
        r.value() == codex_cookie_manual_value(),
{
    ProviderSettingsCondition::Choice {
    setting: ProviderSettingId::CodexCookieSource,
    choice: ProviderSettingChoice::Manual,
}
}

/// A condition.
pub open spec fn optional_extras_on_value() -> ConditionValue {
    ConditionValue::Feature {
    feature: ProviderSettingsFeature::OptionalCreditsAndExtraUsage,
    enabled: true,
}
}

fn optional_extras_on() -> (r: ProviderSettingsCondition)
    ensures
        r.value() == optional_extras_on_value(),
{
    ProviderSettingsCondition::Feature {
    feature: ProviderSettingsFeature::OptionalCreditsAndExtraUsage,
    enabled: true,
}
}

/// Options of a picker, in order.
pub open spec fn codex_usage_options_value() -> Seq<OptionValue> {
    seq![
    option_value(ProviderSettingChoice::Auto, "Auto"@, ProviderSettingsAvailability::Implemented),
    option_value(ProviderSettingChoice::Pat, "PAT"@, ProviderSettingsAvailability::Implemented),
    option_value(ProviderSettingChoice::Oauth, "OAuth API"@, ProviderSettingsAvailability::Implemented),
    option_value(ProviderSettingChoice::Cli, "CLI (RPC/PTY)"@, ProviderSettingsAvailability::Implemented),
]
}

fn codex_usage_options() -> (r: Vec<ProviderSettingsPickerOption>)
    ensures
        option_values(r@) == codex_usage_options_value(),
{
    let r: Vec<ProviderSettingsPickerOption> = vec![
    option(ProviderSettingChoice::Auto, "Auto", ProviderSettingsAvailability::Implemented),
    option(ProviderSettingChoice::Pat, "PAT", ProviderSettingsAvailability::Implemented),
    option(ProviderSettingChoice::Oauth, "OAuth API", ProviderSettingsAvailability::Implemented),
    option(ProviderSettingChoice::Cli, "CLI (RPC/PTY)", ProviderSettingsAvailability::Implemented),
];
    assert(option_values(r@) =~= codex_usage_options_value());
    r
}

/// A missing behavior.
pub open spec fn codex_web_unavailable_value() -> ProviderSettingsAvailability {
    ProviderSettingsAvailability::Unavailable { gap: ProviderSettingsGap::OpenAiWebExtras }
}

fn codex_web_unavailable() -> (r: ProviderSettingsAvailability)
    ensures
        r == codex_web_unavailable_value(),
{
    ProviderSettingsAvailability::Unavailable { gap: ProviderSettingsGap::OpenAiWebExtras }
}

/// Options of a picker, in order.
pub open spec fn codex_cookie_options_value() -> Seq<OptionValue> {
    seq![
    option_value(ProviderSettingChoice::Auto, "Auto"@, codex_web_unavailable_value()),
    option_value(
        ProviderSettingChoice::Manual,
        "Manual"@,
        codex_web_unavailable_value(),
    ),
    option_value(ProviderSettingChoice::Off, "Off"@, codex_web_unavailable_value()),
]
}

fn codex_cookie_options() -> (r: Vec<ProviderSettingsPickerOption>)
    ensures
        option_values(r@) == codex_cookie_options_value(),
{
    let r: Vec<ProviderSettingsPickerOption> = vec![
    option(ProviderSettingChoice::Auto, "Auto", codex_web_unavailable()),
    option(
        ProviderSettingChoice::Manual,
        "Manual",
        codex_web_unavailable(),
    ),
    option(ProviderSettingChoice::Off, "Off", codex_web_unavailable()),
];
    assert(option_values(r@) =~= codex_cookie_options_value());
    r
}

/// One control.
pub open spec fn codex_local_session_cost_ledger_control_value() -> ControlValue {
    ControlValue::Toggle(ToggleValue {
        item: item_value(
            ProviderSettingId::CodexLocalSessionCostLedger,
            "Local session cost estimates"@,
            "Uses this machine's Codex sessions instead of the selected managed account's session history. Works with organization API keys and uses locally cached or bundled model prices without making a network request."@,
            ProviderSettingsSection::Options,
            ConditionValue::Always,
            ConditionValue::Always,
            ProviderSettingsAvailability::Unavailable { gap: ProviderSettingsGap::ConfigurableCostLedger },
            None,
        ),
        actions: seq![],
    })
}

fn codex_local_session_cost_ledger_control() -> (r: ProviderSettingsControlDescriptor)
    ensures
        r.value() == codex_local_session_cost_ledger_control_value(),
{
    ProviderSettingsControlDescriptor::Toggle(ProviderSettingsToggleDescriptor {
        item: item(
            ProviderSettingId::CodexLocalSessionCostLedger,
            "Local session cost estimates",
            "Uses this machine's Codex sessions instead of the selected managed account's session history. Works with organization API keys and uses locally cached or bundled model prices without making a network request.",
            ProviderSettingsSection::Options,
            ProviderSettingsCondition::Always,
            ProviderSettingsCondition::Always,
            ProviderSettingsAvailability::Unavailable { gap: ProviderSettingsGap::ConfigurableCostLedger },
            None,
        ),
        actions: Vec::new(),
    })
}

/// One control.
pub open spec fn codex_historical_tracking_control_value() -> ControlValue {
    ControlValue::Toggle(ToggleValue {
        item: item_value(
            ProviderSettingId::CodexHistoricalTracking,
            "Historical tracking"@,
            "Stores local Codex usage history to personalize pace predictions."@,
            ProviderSettingsSection::Options,
            ConditionValue::Always,
            ConditionValue::Always,
            ProviderSettingsAvailability::Unavailable { gap: ProviderSettingsGap::ConfigurableHistoryTracking },
            None,
        ),
        actions: seq![],
    })
}

fn codex_historical_tracking_control() -> (r: ProviderSettingsControlDescriptor)
    ensures
        r.value() == codex_historical_tracking_control_value(),
{
    ProviderSettingsControlDescriptor::Toggle(ProviderSettingsToggleDescriptor {
        item: item(
            ProviderSettingId::CodexHistoricalTracking,
            "Historical tracking",
            "Stores local Codex usage history to personalize pace predictions.",
            ProviderSettingsSection::Options,
            ProviderSettingsCondition::Always,
            ProviderSettingsCondition::Always,
            ProviderSettingsAvailability::Unavailable { gap: ProviderSettingsGap::ConfigurableHistoryTracking },
            None,
        ),
        actions: Vec::new(),
    })
}

/// One control.
pub open spec fn codex_spark_usage_visible_control_value() -> ControlValue {
    ControlValue::Toggle(ToggleValue {
        item: item_value(
            ProviderSettingId::CodexSparkUsageVisible,
            "Show Codex Spark usage"@,
            "Shows Codex Spark quota rows in the menu and provider preview. Requires optional credits and extra usage in Display settings."@,
            ProviderSettingsSection::Options,
            ConditionValue::Always,
            optional_extras_on_value(),
            ProviderSettingsAvailability::Unavailable { gap: ProviderSettingsGap::DisplayFiltering },
            None,
        ),
        actions: seq![],
    })
}

fn codex_spark_usage_visible_control() -> (r: ProviderSettingsControlDescriptor)
    ensures
        r.value() == codex_spark_usage_visible_control_value(),
{
    ProviderSettingsControlDescriptor::Toggle(ProviderSettingsToggleDescriptor {
        item: item(
            ProviderSettingId::CodexSparkUsageVisible,
            "Show Codex Spark usage",
            "Shows Codex Spark quota rows in the menu and provider preview. Requires optional credits and extra usage in Display settings.",
            ProviderSettingsSection::Options,
            ProviderSettingsCondition::Always,
            optional_extras_on(),
            ProviderSettingsAvailability::Unavailable { gap: ProviderSettingsGap::DisplayFiltering },
            None,
        ),
        actions: Vec::new(),
    })
}

/// One control.
pub open spec fn codex_open_ai_web_extras_control_value() -> ControlValue {
    ControlValue::Toggle(ToggleValue {
        item: item_value(
            ProviderSettingId::CodexOpenAiWebExtras,
            "OpenAI web extras"@,
            "Optional. Turn this on to show code review, usage breakdown, and credits history through chatgpt.com."@,
            ProviderSettingsSection::Options,
            ConditionValue::Always,
            ConditionValue::Always,
            codex_web_unavailable_value(),
            None,
        ),
        actions: seq![],
    })
}

fn codex_open_ai_web_extras_control() -> (r: ProviderSettingsControlDescriptor)
    ensures
        r.value() == codex_open_ai_web_extras_control_value(),
{
    ProviderSettingsControlDescriptor::Toggle(ProviderSettingsToggleDescriptor {
        item: item(
            ProviderSettingId::CodexOpenAiWebExtras,
            "OpenAI web extras",
            "Optional. Turn this on to show code review, usage breakdown, and credits history through chatgpt.com.",
            ProviderSettingsSection::Options,
            ProviderSettingsCondition::Always,
            ProviderSettingsCondition::Always,
            codex_web_unavailable(),
            None,
        ),
        actions: Vec::new(),
    })
}

/// One control.
pub open spec fn codex_external_oauth_sources_control_value() -> ControlValue {
    ControlValue::Toggle(ToggleValue {
        item: item_value(
            ProviderSettingId::CodexExternalOauthSources,
            "External Codex OAuth sources"@,
            "Explicitly allow read-only fallback to legacy Codex and OpenCode OAuth files. Omarchy AI Bar never refreshes or writes those external credentials."@,
            ProviderSettingsSection::Options,
            ConditionValue::Always,
            ConditionValue::Always,
            ProviderSettingsAvailability::Implemented,
            None,
        ),
        actions: seq![],
    })
}

fn codex_external_oauth_sources_control() -> (r: ProviderSettingsControlDescriptor)
    ensures
        r.value() == codex_external_oauth_sources_control_value(),
{
    ProviderSettingsControlDescriptor::Toggle(ProviderSettingsToggleDescriptor {
        item: item(
            ProviderSettingId::CodexExternalOauthSources,
            "External Codex OAuth sources",
            "Explicitly allow read-only fallback to legacy Codex and OpenCode OAuth files. Omarchy AI Bar never refreshes or writes those external credentials.",
            ProviderSettingsSection::Options,
            ProviderSettingsCondition::Always,
            ProviderSettingsCondition::Always,
            ProviderSettingsAvailability::Implemented,
            None,
        ),
        actions: Vec::new(),
    })
}

/// One control.
pub open spec fn codex_open_ai_web_battery_saver_control_value() -> ControlValue {
    ControlValue::Toggle(ToggleValue {
        item: item_value(
            ProviderSettingId::CodexOpenAiWebBatterySaver,
            "OpenAI web battery saver"@,
            "Limits background chatgpt.com refreshes to reduce battery and network usage. Dashboard extras may stay stale until manually refreshed."@,
            ProviderSettingsSection::Options,
            codex_web_extras_on_value(),
            ConditionValue::Always,
            codex_web_unavailable_value(),
            None,
        ),
        actions: seq![],
    })
}

fn codex_open_ai_web_battery_saver_control() -> (r: ProviderSettingsControlDescriptor)
    ensures
        r.value() == codex_open_ai_web_battery_saver_control_value(),
{
    ProviderSettingsControlDescriptor::Toggle(ProviderSettingsToggleDescriptor {
        item: item(
            ProviderSettingId::CodexOpenAiWebBatterySaver,
            "OpenAI web battery saver",
            "Limits background chatgpt.com refreshes to reduce battery and network usage. Dashboard extras may stay stale until manually refreshed.",
            ProviderSettingsSection::Options,
            codex_web_extras_on(),
            ProviderSettingsCondition::Always,
            codex_web_unavailable(),
            None,
        ),
        actions: Vec::new(),
    })
}

/// One control.
pub open spec fn codex_usage_source_control_value() -> ControlValue {
    ControlValue::Picker(PickerValue {
        item: item_value(
            ProviderSettingId::CodexUsageSource,
            "Quota usage source"@,
            "Controls live session and weekly quota fetching only. Local session cost estimates work independently."@,
            ProviderSettingsSection::Connection,
            ConditionValue::Always,
            ConditionValue::Always,
            ProviderSettingsAvailability::Implemented,
            Some(ProviderSettingsRuntimeHint::ResolvedSource),
        ),
        options: codex_usage_options_value(),
        dynamic_options: None,
        actions: seq![],
    })
}

fn codex_usage_source_control() -> (r: ProviderSettingsControlDescriptor)
    ensures
        r.value() == codex_usage_source_control_value(),
{
    ProviderSettingsControlDescriptor::Picker(ProviderSettingsPickerDescriptor {
        item: item(
            ProviderSettingId::CodexUsageSource,
            "Quota usage source",
            "Controls live session and weekly quota fetching only. Local session cost estimates work independently.",
            ProviderSettingsSection::Connection,
            ProviderSettingsCondition::Always,
            ProviderSettingsCondition::Always,
            ProviderSettingsAvailability::Implemented,
            Some(ProviderSettingsRuntimeHint::ResolvedSource),
        ),
        options: codex_usage_options(),
        dynamic_options: None,
        actions: Vec::new(),
    })
}

/// One control.
pub open spec fn codex_cookie_source_control_value() -> ControlValue {
    ControlValue::Picker(PickerValue {
        item: item_value(
            ProviderSettingId::CodexCookieSource,
            "OpenAI cookies"@,
            "Automatic imports browser cookies for dashboard extras."@,
            ProviderSettingsSection::Connection,
            codex_web_extras_on_value(),
            ConditionValue::Always,
            codex_web_unavailable_value(),
            Some(ProviderSettingsRuntimeHint::ImportedBrowserSession),
        ),
        options: codex_cookie_options_value(),
        dynamic_options: None,
        actions: seq![],
    })
}

fn codex_cookie_source_control() -> (r: ProviderSettingsControlDescriptor)
    ensures
        r.value() == codex_cookie_source_control_value(),
{
    ProviderSettingsControlDescriptor::Picker(ProviderSettingsPickerDescriptor {
        item: item(
            ProviderSettingId::CodexCookieSource,
            "OpenAI cookies",
            "Automatic imports browser cookies for dashboard extras.",
            ProviderSettingsSection::Connection,
            codex_web_extras_on(),
            ProviderSettingsCondition::Always,
            codex_web_unavailable(),
            Some(ProviderSettingsRuntimeHint::ImportedBrowserSession),
        ),
        options: codex_cookie_options(),
        dynamic_options: None,
        actions: Vec::new(),
    })
}

/// One control.
pub open spec fn codex_cookie_header_control_value() -> ControlValue {
    ControlValue::SecretSlot(SecretSlotValue {
        item: item_value(
            ProviderSettingId::CodexCookieHeader,
            ""@,
            ""@,
            ProviderSettingsSection::Credentials,
            codex_cookie_manual_value(),
            ConditionValue::Always,
            codex_web_unavailable_value(),
            None,
        ),
        slot: ProviderSecretSlot::CodexWebCookie,
        placeholder: Some("Cookie: …"@),
        actions: seq![],
    })
}

fn codex_cookie_header_control() -> (r: ProviderSettingsControlDescriptor)
    ensures
        r.value() == codex_cookie_header_control_value(),
{
    ProviderSettingsControlDescriptor::SecretSlot(ProviderSettingsSecretSlotDescriptor {
        item: item(
            ProviderSettingId::CodexCookieHeader,
            "",
            "",
            ProviderSettingsSection::Credentials,
            codex_cookie_manual(),
            ProviderSettingsCondition::Always,
            codex_web_unavailable(),
            None,
        ),
        slot: ProviderSecretSlot::CodexWebCookie,
        placeholder: Some("Cookie: …"),
        actions: Vec::new(),
    })
}

/// Controls, in order.
pub open spec fn codex_controls_value() -> Seq<ControlValue> {
    seq![
        codex_local_session_cost_ledger_control_value(),
        codex_historical_tracking_control_value(),
        codex_spark_usage_visible_control_value(),
        codex_open_ai_web_extras_control_value(),
        codex_external_oauth_sources_control_value(),
        codex_open_ai_web_battery_saver_control_value(),
        codex_usage_source_control_value(),
        codex_cookie_source_control_value(),
        codex_cookie_header_control_value(),
    ]
}

fn codex_controls() -> (r: Vec<ProviderSettingsControlDescriptor>)
    ensures
        control_values(r@) == codex_controls_value(),
{
    let r: Vec<ProviderSettingsControlDescriptor> = vec![
        codex_local_session_cost_ledger_control(),
        codex_historical_tracking_control(),
        codex_spark_usage_visible_control(),
        codex_open_ai_web_extras_control(),
        codex_external_oauth_sources_control(),
        codex_open_ai_web_battery_saver_control(),
        codex_usage_source_control(),
        codex_cookie_source_control(),
        codex_cookie_header_control(),
    ];
    assert(control_values(r@) =~= codex_controls_value());
    r
}

/// Actions, in order.
pub open spec fn codex_actions_value() -> Seq<ActionValue> {
    seq![ActionValue {
    id: ProviderSettingsActionId::AddCodexAccount,
    title: "Add Account"@,
    style: ProviderSettingsActionStyle::Bordered,
    section: ProviderSettingsSection::Connection,
    standalone: false,
    target: ProviderSettingsActionTarget::AddManagedAccount,
    visible_when: ConditionValue::Always,
    availability: ProviderSettingsAvailability::Unavailable { gap: ProviderSettingsGap::ManagedAccountLifecycle },
}]
}

fn codex_actions() -> (r: Vec<ProviderSettingsActionDescriptor>)
    ensures
        action_values(r@) == codex_actions_value(),
{
    let r: Vec<ProviderSettingsActionDescriptor> = vec![ProviderSettingsActionDescriptor {
    id: ProviderSettingsActionId::AddCodexAccount,
    title: "Add Account",
    style: ProviderSettingsActionStyle::Bordered,
    section: ProviderSettingsSection::Connection,
    standalone: false,
    target: ProviderSettingsActionTarget::AddManagedAccount,
    visible_when: ProviderSettingsCondition::Always,
    availability: ProviderSettingsAvailability::Unavailable { gap: ProviderSettingsGap::ManagedAccountLifecycle },
}];
    assert(action_values(r@) =~= codex_actions_value());
    r
}

/// Accepted credentials.
pub open spec fn codex_account_credentials_value() -> Seq<ProviderAccountCredentialKind> {
    seq![ProviderAccountCredentialKind::Oauth]
}

fn codex_account_credentials() -> (r: Vec<ProviderAccountCredentialKind>)
    ensures
        r@ == codex_account_credentials_value(),
{
    let r: Vec<ProviderAccountCredentialKind> = vec![ProviderAccountCredentialKind::Oauth];
    assert(r@ =~= codex_account_credentials_value());
    r
}

/// The account editor.
pub open spec fn codex_accounts_value() -> AccountsValue {
    AccountsValue {
    title: "Codex accounts"@,
    subtitle: "Add and switch application-managed Codex OAuth accounts."@,
    placeholder: "Sign in with Codex OAuth…"@,
    credential_kinds: codex_account_credentials_value(),
    organization_field: ProviderAccountFieldMode::Hidden,
    workspace_field: ProviderAccountFieldMode::Hidden,
    requires_manual_cookie_source: false,
    primary_action: Some(ProviderSettingsActionId::AddCodexAccount),
    token_file_action: None,
    visible_when: ConditionValue::Always,
    availability: ProviderSettingsAvailability::Unavailable { gap: ProviderSettingsGap::ManagedAccountLifecycle },
}
}

fn codex_accounts() -> (r: ProviderAccountSupportDescriptor)
    ensures
        r.value() == codex_accounts_value(),
{
    ProviderAccountSupportDescriptor {
    title: "Codex accounts".to_owned(),
    subtitle: "Add and switch application-managed Codex OAuth accounts.".to_owned(),
    placeholder: "Sign in with Codex OAuth…",
    credential_kinds: codex_account_credentials(),
    organization_field: ProviderAccountFieldMode::Hidden,
    workspace_field: ProviderAccountFieldMode::Hidden,
    requires_manual_cookie_source: false,
    primary_action: Some(ProviderSettingsActionId::AddCodexAccount),
    token_file_action: None,
    visible_when: ProviderSettingsCondition::Always,
    availability: ProviderSettingsAvailability::Unavailable { gap: ProviderSettingsGap::ManagedAccountLifecycle },
}
}

/// A settings schema.
pub open spec fn codex_settings_value() -> DescriptorValue {
    DescriptorValue {
    schema_version: 1,
    provider: ProviderId::Codex,
    controls: codex_controls_value(),
    actions: codex_actions_value(),
    accounts: Some(codex_accounts_value()),
}
}

fn codex_settings() -> (r: ProviderSettingsDescriptor)
    ensures
        r.value() == codex_settings_value(),
{
    ProviderSettingsDescriptor {
    schema_version: 1,
    provider: ProviderId::Codex,
    controls: codex_controls(),
    actions: codex_actions(),
    accounts: Some(codex_accounts()),
}
}

/// A condition.
pub open spec fn keychain_access_on_value() -> ConditionValue {
    ConditionValue::Feature {
    feature: ProviderSettingsFeature::KeychainAccess,
    enabled: true,
}
}

fn keychain_access_on() -> (r: ProviderSettingsCondition)
    ensures
        r.value() == keychain_access_on_value(),
{
    ProviderSettingsCondition::Feature {
    feature: ProviderSettingsFeature::KeychainAccess,
    enabled: true,
}
}

/// A condition.
pub open spec fn claude_swap_on_value() -> ConditionValue {
    ConditionValue::Toggle {
    setting: ProviderSettingId::ClaudeSwapAccounts,
    enabled: true,
}
}

fn claude_swap_on() -> (r: ProviderSettingsCondition)
    ensures
        r.value() == claude_swap_on_value(),
{
    ProviderSettingsCondition::Toggle {
    setting: ProviderSettingId::ClaudeSwapAccounts,
    enabled: true,
}
}

/// A condition.
pub open spec fn claude_cookie_manual_value() -> ConditionValue {
    ConditionValue::Choice {
    setting: ProviderSettingId::ClaudeCookieSource,
    choice: ProviderSettingChoice::Manual,
}
}

fn claude_cookie_manual() -> (r: ProviderSettingsCondition)
    ensures
        r.value() == claude_cookie_manual_value(),
{
    ProviderSettingsCondition::Choice {
    setting: ProviderSettingId::ClaudeCookieSource,
    choice: ProviderSettingChoice::Manual,
}
}

/// Operands of a condition.
pub open spec fn claude_account_visibility_operands_value() -> Seq<ConditionValue> {
    seq![
    ConditionValue::RuntimeFact {
        fact: ProviderSettingsRuntimeFact::ConfiguredAccountsPresent,
    },
    claude_cookie_manual_value(),
]
}

fn claude_account_visibility_operands() -> (r: Vec<ProviderSettingsCondition>)
    ensures
        condition_values(r@) == claude_account_visibility_operands_value(),
{
    let r: Vec<ProviderSettingsCondition> = vec![
    ProviderSettingsCondition::RuntimeFact {
        fact: ProviderSettingsRuntimeFact::ConfiguredAccountsPresent,
    },
    claude_cookie_manual(),
];
    assert(condition_values(r@) =~= claude_account_visibility_operands_value());
    r
}

/// A condition.
pub open spec fn claude_accounts_visible_value() -> ConditionValue {
    ConditionValue::Any { conditions: claude_account_visibility_operands_value() }
}

fn claude_accounts_visible() -> (r: ProviderSettingsCondition)
    ensures
        r.value() == claude_accounts_visible_value(),
{
    let r = ProviderSettingsCondition::Any { conditions: claude_account_visibility_operands() };
    assert(operands(r.value()) =~= operands(claude_accounts_visible_value()));
    r
}

/// Options of a picker, in order.
pub open spec fn claude_usage_options_value() -> Seq<OptionValue> {
    seq![
    option_value(ProviderSettingChoice::Auto, "Auto"@, ProviderSettingsAvailability::Implemented),
    option_value(
        ProviderSettingChoice::Api,
        "API (Admin key)"@,
        ProviderSettingsAvailability::Unavailable { gap: ProviderSettingsGap::ClaudeAdminApi },
    ),
    option_value(ProviderSettingChoice::Oauth, "OAuth API"@, ProviderSettingsAvailability::Implemented),
    option_value(
        ProviderSettingChoice::Web,
        "Web API (cookies)"@,
        ProviderSettingsAvailability::Unavailable { gap: ProviderSettingsGap::ClaudeWebUsage },
    ),
    option_value(ProviderSettingChoice::Cli, "CLI"@, ProviderSettingsAvailability::Implemented),
]
}

fn claude_usage_options() -> (r: Vec<ProviderSettingsPickerOption>)
    ensures
        option_values(r@) == claude_usage_options_value(),
{
    let r: Vec<ProviderSettingsPickerOption> = vec![
    option(ProviderSettingChoice::Auto, "Auto", ProviderSettingsAvailability::Implemented),
    option(
        ProviderSettingChoice::Api,
        "API (Admin key)",
        ProviderSettingsAvailability::Unavailable { gap: ProviderSettingsGap::ClaudeAdminApi },
    ),
    option(ProviderSettingChoice::Oauth, "OAuth API", ProviderSettingsAvailability::Implemented),
    option(
        ProviderSettingChoice::Web,
        "Web API (cookies)",
        ProviderSettingsAvailability::Unavailable { gap: ProviderSettingsGap::ClaudeWebUsage },
    ),
    option(ProviderSettingChoice::Cli, "CLI", ProviderSettingsAvailability::Implemented),
];
    assert(option_values(r@) =~= claude_usage_options_value());
    r
}

/// Options of a picker, in order.
pub open spec fn claude_keychain_options_value() -> Seq<OptionValue> {
    seq![
    option_value(
        ProviderSettingChoice::Never,
        "Never prompt"@,
        ProviderSettingsAvailability::Unavailable { gap: ProviderSettingsGap::MacOsKeychainPolicy },
    ),
    option_value(
        ProviderSettingChoice::OnlyOnUserAction,
        "Only on user action"@,
        ProviderSettingsAvailability::Unavailable { gap: ProviderSettingsGap::MacOsKeychainPolicy },
    ),
    option_value(
        ProviderSettingChoice::Always,
        "Always allow prompts"@,
        ProviderSettingsAvailability::Unavailable { gap: ProviderSettingsGap::MacOsKeychainPolicy },
    ),
]
}

fn claude_keychain_options() -> (r: Vec<ProviderSettingsPickerOption>)
    ensures
        option_values(r@) == claude_keychain_options_value(),
{
    let r: Vec<ProviderSettingsPickerOption> = vec![
    option(
        ProviderSettingChoice::Never,
        "Never prompt",
        ProviderSettingsAvailability::Unavailable { gap: ProviderSettingsGap::MacOsKeychainPolicy },
    ),
    option(
        ProviderSettingChoice::OnlyOnUserAction,
        "Only on user action",
        ProviderSettingsAvailability::Unavailable { gap: ProviderSettingsGap::MacOsKeychainPolicy },
    ),
    option(
        ProviderSettingChoice::Always,
        "Always allow prompts",
        ProviderSettingsAvailability::Unavailable { gap: ProviderSettingsGap::MacOsKeychainPolicy },
    ),
];
    assert(option_values(r@) =~= claude_keychain_options_value());
    r
}

/// Options of a picker, in order.
pub open spec fn claude_cookie_options_value() -> Seq<OptionValue> {
    seq![
    option_value(
        ProviderSettingChoice::Auto,
        "Auto"@,
        ProviderSettingsAvailability::Unavailable { gap: ProviderSettingsGap::ClaudeWebUsage },
    ),
    option_value(
        ProviderSettingChoice::Manual,
        "Manual"@,
        ProviderSettingsAvailability::Unavailable { gap: ProviderSettingsGap::ClaudeWebUsage },
    ),
]
}

fn claude_cookie_options() -> (r: Vec<ProviderSettingsPickerOption>)
    ensures
        option_values(r@) == claude_cookie_options_value(),
{
    let r: Vec<ProviderSettingsPickerOption> = vec![
    option(
        ProviderSettingChoice::Auto,
        "Auto",
        ProviderSettingsAvailability::Unavailable { gap: ProviderSettingsGap::ClaudeWebUsage },
    ),
    option(
        ProviderSettingChoice::Manual,
        "Manual",
        ProviderSettingsAvailability::Unavailable { gap: ProviderSettingsGap::ClaudeWebUsage },
    ),
];
    assert(option_values(r@) =~= claude_cookie_options_value());
    r
}

/// One control.
pub open spec fn claude_model_scoped_weekly_usage_visible_control_value(names: NamesView) -> ControlValue {
    ControlValue::Toggle(ToggleValue {
        item: item_value(
            ProviderSettingId::ClaudeModelScopedWeeklyUsageVisible,
            "Show model-specific weekly usage in widgets"@,
            filled("Shows model-specific {provider} quotas, such as Fable, in desktop widgets."@, names),
            ProviderSettingsSection::Options,
            ConditionValue::Always,
            ConditionValue::Always,
            ProviderSettingsAvailability::Unavailable { gap: ProviderSettingsGap::DesktopWidgets },
            None,
        ),
        actions: seq![],
    })
}

fn claude_model_scoped_weekly_usage_visible_control(names: &ProviderNames) -> (r: ProviderSettingsControlDescriptor)
    ensures
        r.value() == claude_model_scoped_weekly_usage_visible_control_value(names.value()),
{
    ProviderSettingsControlDescriptor::Toggle(ProviderSettingsToggleDescriptor {
        item: item(
            ProviderSettingId::ClaudeModelScopedWeeklyUsageVisible,
            "Show model-specific weekly usage in widgets",
            fill("Shows model-specific {provider} quotas, such as Fable, in desktop widgets.", names).as_str(),
            ProviderSettingsSection::Options,
            ProviderSettingsCondition::Always,
            ProviderSettingsCondition::Always,
            ProviderSettingsAvailability::Unavailable { gap: ProviderSettingsGap::DesktopWidgets },
            None,
        ),
        actions: Vec::new(),
    })
}

/// One control.
pub open spec fn claude_daily_routines_usage_visible_control_value() -> ControlValue {
    ControlValue::Toggle(ToggleValue {
        item: item_value(
            ProviderSettingId::ClaudeDailyRoutinesUsageVisible,
            "Show Daily Routines usage"@,
            "Shows the Daily Routines quota row in the menu and provider preview. Requires optional credits and extra usage in Display settings."@,
            ProviderSettingsSection::Options,
            ConditionValue::Always,
            optional_extras_on_value(),
            ProviderSettingsAvailability::Unavailable { gap: ProviderSettingsGap::DisplayFiltering },
            None,
        ),
        actions: seq![],
    })
}

fn claude_daily_routines_usage_visible_control() -> (r: ProviderSettingsControlDescriptor)
    ensures
        r.value() == claude_daily_routines_usage_visible_control_value(),
{
    ProviderSettingsControlDescriptor::Toggle(ProviderSettingsToggleDescriptor {
        item: item(
            ProviderSettingId::ClaudeDailyRoutinesUsageVisible,
            "Show Daily Routines usage",
            "Shows the Daily Routines quota row in the menu and provider preview. Requires optional credits and extra usage in Display settings.",
            ProviderSettingsSection::Options,
            ProviderSettingsCondition::Always,
            optional_extras_on(),
            ProviderSettingsAvailability::Unavailable { gap: ProviderSettingsGap::DisplayFiltering },
            None,
        ),
        actions: Vec::new(),
    })
}

/// One control.
pub open spec fn claude_oauth_direct_keychain_read_control_value(names: NamesView) -> ControlValue {
    ControlValue::Toggle(ToggleValue {
        item: item_value(
            ProviderSettingId::ClaudeOauthDirectKeychainRead,
            filled("Allow reading {provider} Code's credentials"@, names),
            filled("Reads {provider} Code's Keychain item for OAuth usage; macOS may ask for permission. This policy is not applicable to the Linux credential-file reader."@, names),
            ProviderSettingsSection::Options,
            ConditionValue::Always,
            keychain_access_on_value(),
            ProviderSettingsAvailability::Unavailable { gap: ProviderSettingsGap::MacOsKeychainPolicy },
            None,
        ),
        actions: seq![],
    })
}

fn claude_oauth_direct_keychain_read_control(names: &ProviderNames) -> (r: ProviderSettingsControlDescriptor)
    ensures
        r.value() == claude_oauth_direct_keychain_read_control_value(names.value()),
{
    ProviderSettingsControlDescriptor::Toggle(ProviderSettingsToggleDescriptor {
        item: item(
            ProviderSettingId::ClaudeOauthDirectKeychainRead,
            fill("Allow reading {provider} Code's credentials", names).as_str(),
            fill("Reads {provider} Code's Keychain item for OAuth usage; macOS may ask for permission. This policy is not applicable to the Linux credential-file reader.", names).as_str(),
            ProviderSettingsSection::Options,
            ProviderSettingsCondition::Always,
            keychain_access_on(),
            ProviderSettingsAvailability::Unavailable { gap: ProviderSettingsGap::MacOsKeychainPolicy },
            None,
        ),
        actions: Vec::new(),
    })
}

/// One control.
pub open spec fn claude_oauth_prompt_free_credentials_control_value(names: NamesView) -> ControlValue {
    ControlValue::Toggle(ToggleValue {
        item: item_value(
            ProviderSettingId::ClaudeOauthPromptFreeCredentials,
            "Avoid Keychain prompts"@,
            filled("Never allow {provider} OAuth credential reads to show macOS Keychain prompts."@, names),
            ProviderSettingsSection::Options,
            ConditionValue::Always,
            keychain_access_on_value(),
            ProviderSettingsAvailability::Unavailable { gap: ProviderSettingsGap::MacOsKeychainPolicy },
            None,
        ),
        actions: seq![],
    })
}

fn claude_oauth_prompt_free_credentials_control(names: &ProviderNames) -> (r: ProviderSettingsControlDescriptor)
    ensures
        r.value() == claude_oauth_prompt_free_credentials_control_value(names.value()),
{
    ProviderSettingsControlDescriptor::Toggle(ProviderSettingsToggleDescriptor {
        item: item(
            ProviderSettingId::ClaudeOauthPromptFreeCredentials,
            "Avoid Keychain prompts",
            fill("Never allow {provider} OAuth credential reads to show macOS Keychain prompts.", names).as_str(),
            ProviderSettingsSection::Options,
            ProviderSettingsCondition::Always,
            keychain_access_on(),
            ProviderSettingsAvailability::Unavailable { gap: ProviderSettingsGap::MacOsKeychainPolicy },
            None,
        ),
        actions: Vec::new(),
    })
}

/// One control.
pub open spec fn claude_swap_accounts_control_value(names: NamesView) -> ControlValue {
    ControlValue::Toggle(ToggleValue {
        item: item_value(
            ProviderSettingId::ClaudeSwapAccounts,
            filled("Read accounts from {provider-id}-swap"@, names),
            filled("Shows usage and lets you switch accounts through `cswap`. Credentials stay managed by {provider-id}-swap; Omarchy AI Bar never reads them."@, names),
            ProviderSettingsSection::Options,
            ConditionValue::Always,
            ConditionValue::Always,
            ProviderSettingsAvailability::Unavailable { gap: ProviderSettingsGap::ClaudeSwap },
            Some(ProviderSettingsRuntimeHint::ClaudeSwapStatus),
        ),
        actions: seq![],
    })
}

fn claude_swap_accounts_control(names: &ProviderNames) -> (r: ProviderSettingsControlDescriptor)
    ensures
        r.value() == claude_swap_accounts_control_value(names.value()),
{
    ProviderSettingsControlDescriptor::Toggle(ProviderSettingsToggleDescriptor {
        item: item(
            ProviderSettingId::ClaudeSwapAccounts,
            fill("Read accounts from {provider-id}-swap", names).as_str(),
            fill("Shows usage and lets you switch accounts through `cswap`. Credentials stay managed by {provider-id}-swap; Omarchy AI Bar never reads them.", names).as_str(),
            ProviderSettingsSection::Options,
            ProviderSettingsCondition::Always,
            ProviderSettingsCondition::Always,
            ProviderSettingsAvailability::Unavailable { gap: ProviderSettingsGap::ClaudeSwap },
            Some(ProviderSettingsRuntimeHint::ClaudeSwapStatus),
        ),
        actions: Vec::new(),
    })
}

/// One control.
pub open spec fn claude_swap_show_single_account_control_value(names: NamesView) -> ControlValue {
    ControlValue::Toggle(ToggleValue {
        item: item_value(
            ProviderSettingId::ClaudeSwapShowSingleAccount,
            "Show account card when only one account is available"@,
            filled("Prefer {provider-id}-swap over the ambient {provider} account presentation."@, names),
            ProviderSettingsSection::Options,
            claude_swap_on_value(),
            ConditionValue::Always,
            ProviderSettingsAvailability::Unavailable { gap: ProviderSettingsGap::ClaudeSwap },
            None,
        ),
        actions: seq![],
    })
}

fn claude_swap_show_single_account_control(names: &ProviderNames) -> (r: ProviderSettingsControlDescriptor)
    ensures
        r.value() == claude_swap_show_single_account_control_value(names.value()),
{
    ProviderSettingsControlDescriptor::Toggle(ProviderSettingsToggleDescriptor {
        item: item(
            ProviderSettingId::ClaudeSwapShowSingleAccount,
            "Show account card when only one account is available",
            fill("Prefer {provider-id}-swap over the ambient {provider} account presentation.", names).as_str(),
            ProviderSettingsSection::Options,
            claude_swap_on(),
            ProviderSettingsCondition::Always,
            ProviderSettingsAvailability::Unavailable { gap: ProviderSettingsGap::ClaudeSwap },
            None,
        ),
        actions: Vec::new(),
    })
}

/// One control.
pub open spec fn claude_usage_source_control_value() -> ControlValue {
    ControlValue::Picker(PickerValue {
        item: item_value(
            ProviderSettingId::ClaudeUsageSource,
            "Usage source"@,
            "Auto falls back to the next source if the preferred one fails."@,
            ProviderSettingsSection::Connection,
            ConditionValue::Always,
            ConditionValue::Always,
            ProviderSettingsAvailability::Implemented,
            Some(ProviderSettingsRuntimeHint::ResolvedSource),
        ),
        options: claude_usage_options_value(),
        dynamic_options: None,
        actions: seq![],
    })
}

fn claude_usage_source_control() -> (r: ProviderSettingsControlDescriptor)
    ensures
        r.value() == claude_usage_source_control_value(),
{
    ProviderSettingsControlDescriptor::Picker(ProviderSettingsPickerDescriptor {
        item: item(
            ProviderSettingId::ClaudeUsageSource,
            "Usage source",
            "Auto falls back to the next source if the preferred one fails.",
            ProviderSettingsSection::Connection,
            ProviderSettingsCondition::Always,
            ProviderSettingsCondition::Always,
            ProviderSettingsAvailability::Implemented,
            Some(ProviderSettingsRuntimeHint::ResolvedSource),
        ),
        options: claude_usage_options(),
        dynamic_options: None,
        actions: Vec::new(),
    })
}

/// One control.
pub open spec fn claude_keychain_prompt_policy_control_value(names: NamesView) -> ControlValue {
    ControlValue::Picker(PickerValue {
        item: item_value(
            ProviderSettingId::ClaudeKeychainPromptPolicy,
            "Keychain prompt policy"@,
            filled("Controls when {provider} OAuth may ask macOS for Keychain access."@, names),
            ProviderSettingsSection::Connection,
            ConditionValue::Always,
            keychain_access_on_value(),
            ProviderSettingsAvailability::Unavailable { gap: ProviderSettingsGap::MacOsKeychainPolicy },
            Some(ProviderSettingsRuntimeHint::ClaudeKeychainPolicy),
        ),
        options: claude_keychain_options_value(),
        dynamic_options: None,
        actions: seq![],
    })
}

fn claude_keychain_prompt_policy_control(names: &ProviderNames) -> (r: ProviderSettingsControlDescriptor)
    ensures
        r.value() == claude_keychain_prompt_policy_control_value(names.value()),
{
    ProviderSettingsControlDescriptor::Picker(ProviderSettingsPickerDescriptor {
        item: item(
            ProviderSettingId::ClaudeKeychainPromptPolicy,
            "Keychain prompt policy",
            fill("Controls when {provider} OAuth may ask macOS for Keychain access.", names).as_str(),
            ProviderSettingsSection::Connection,
            ProviderSettingsCondition::Always,
            keychain_access_on(),
            ProviderSettingsAvailability::Unavailable { gap: ProviderSettingsGap::MacOsKeychainPolicy },
            Some(ProviderSettingsRuntimeHint::ClaudeKeychainPolicy),
        ),
        options: claude_keychain_options(),
        dynamic_options: None,
        actions: Vec::new(),
    })
}

/// One control.
pub open spec fn claude_cookie_source_control_value(names: NamesView) -> ControlValue {
    ControlValue::Picker(PickerValue {
        item: item_value(
            ProviderSettingId::ClaudeCookieSource,
            filled("{provider} cookies"@, names),
            "Automatic imports browser cookies for the web API."@,
            ProviderSettingsSection::Connection,
            ConditionValue::Always,
            ConditionValue::Always,
            ProviderSettingsAvailability::Unavailable { gap: ProviderSettingsGap::ClaudeWebUsage },
            Some(ProviderSettingsRuntimeHint::ImportedBrowserSession),
        ),
        options: claude_cookie_options_value(),
        dynamic_options: None,
        actions: seq![],
    })
}

fn claude_cookie_source_control(names: &ProviderNames) -> (r: ProviderSettingsControlDescriptor)
    ensures
        r.value() == claude_cookie_source_control_value(names.value()),
{
    ProviderSettingsControlDescriptor::Picker(ProviderSettingsPickerDescriptor {
        item: item(
            ProviderSettingId::ClaudeCookieSource,
            fill("{provider} cookies", names).as_str(),
            "Automatic imports browser cookies for the web API.",
            ProviderSettingsSection::Connection,
            ProviderSettingsCondition::Always,
            ProviderSettingsCondition::Always,
            ProviderSettingsAvailability::Unavailable { gap: ProviderSettingsGap::ClaudeWebUsage },
            Some(ProviderSettingsRuntimeHint::ImportedBrowserSession),
        ),
        options: claude_cookie_options(),
        dynamic_options: None,
        actions: Vec::new(),
    })
}

/// One control.
pub open spec fn claude_admin_api_key_control_value() -> ControlValue {
    ControlValue::SecretSlot(SecretSlotValue {
        item: item_value(
            ProviderSettingId::ClaudeAdminApiKey,
            "Admin API key"@,
            "Requires an Anthropic Admin API key."@,
            ProviderSettingsSection::Credentials,
            ConditionValue::Always,
            ConditionValue::Always,
            ProviderSettingsAvailability::Unavailable { gap: ProviderSettingsGap::ClaudeAdminApi },
            None,
        ),
        slot: ProviderSecretSlot::ClaudeAdminApiKey,
        placeholder: Some("sk-ant-admin..."@),
        actions: seq![],
    })
}

fn claude_admin_api_key_control() -> (r: ProviderSettingsControlDescriptor)
    ensures
        r.value() == claude_admin_api_key_control_value(),
{
    ProviderSettingsControlDescriptor::SecretSlot(ProviderSettingsSecretSlotDescriptor {
        item: item(
            ProviderSettingId::ClaudeAdminApiKey,
            "Admin API key",
            "Requires an Anthropic Admin API key.",
            ProviderSettingsSection::Credentials,
            ProviderSettingsCondition::Always,
            ProviderSettingsCondition::Always,
            ProviderSettingsAvailability::Unavailable { gap: ProviderSettingsGap::ClaudeAdminApi },
            None,
        ),
        slot: ProviderSecretSlot::ClaudeAdminApiKey,
        placeholder: Some("sk-ant-admin..."),
        actions: Vec::new(),
    })
}

/// One control.
pub open spec fn claude_swap_executable_path_control_value(names: NamesView) -> ControlValue {
    ControlValue::PlainOption(PlainOptionValue {
        item: item_value(
            ProviderSettingId::ClaudeSwapExecutablePath,
            filled("{provider-id}-swap executable"@, names),
            filled("Path to the cswap executable (github.com/realiti4/{provider-id}-swap)."@, names),
            ProviderSettingsSection::Credentials,
            claude_swap_on_value(),
            ConditionValue::Always,
            ProviderSettingsAvailability::Unavailable { gap: ProviderSettingsGap::ClaudeSwap },
            None,
        ),
        placeholder: Some("~/.local/bin/cswap"@),
        actions: seq![],
    })
}

fn claude_swap_executable_path_control(names: &ProviderNames) -> (r: ProviderSettingsControlDescriptor)
    ensures
        r.value() == claude_swap_executable_path_control_value(names.value()),
{
    ProviderSettingsControlDescriptor::PlainOption(ProviderSettingsPlainOptionDescriptor {
        item: item(
            ProviderSettingId::ClaudeSwapExecutablePath,
            fill("{provider-id}-swap executable", names).as_str(),
            fill("Path to the cswap executable (github.com/realiti4/{provider-id}-swap).", names).as_str(),
            ProviderSettingsSection::Credentials,
            claude_swap_on(),
            ProviderSettingsCondition::Always,
            ProviderSettingsAvailability::Unavailable { gap: ProviderSettingsGap::ClaudeSwap },
            None,
        ),
        placeholder: Some("~/.local/bin/cswap"),
        actions: Vec::new(),
    })
}

/// Controls, in order.
pub open spec fn claude_controls_value(names: NamesView) -> Seq<ControlValue> {
    seq![
        claude_model_scoped_weekly_usage_visible_control_value(names),
        claude_daily_routines_usage_visible_control_value(),
        claude_oauth_direct_keychain_read_control_value(names),
        claude_oauth_prompt_free_credentials_control_value(names),
        claude_swap_accounts_control_value(names),
        claude_swap_show_single_account_control_value(names),
        claude_usage_source_control_value(),
        claude_keychain_prompt_policy_control_value(names),
        claude_cookie_source_control_value(names),
        claude_admin_api_key_control_value(),
        claude_swap_executable_path_control_value(names),
    ]
}

fn claude_controls(names: &ProviderNames) -> (r: Vec<ProviderSettingsControlDescriptor>)
    ensures
        control_values(r@) == claude_controls_value(names.value()),
{
    let r: Vec<ProviderSettingsControlDescriptor> = vec![
        claude_model_scoped_weekly_usage_visible_control(names),
        claude_daily_routines_usage_visible_control(),
        claude_oauth_direct_keychain_read_control(names),
        claude_oauth_prompt_free_credentials_control(names),
        claude_swap_accounts_control(names),
        claude_swap_show_single_account_control(names),
        claude_usage_source_control(),
        claude_keychain_prompt_policy_control(names),
        claude_cookie_source_control(names),
        claude_admin_api_key_control(),
        claude_swap_executable_path_control(names),
    ];
    assert(control_values(r@) =~= claude_controls_value(names.value()));
    r
}

/// Actions, in order.
pub open spec fn claude_actions_value() -> Seq<ActionValue> {
    seq![]
}

fn claude_actions() -> (r: Vec<ProviderSettingsActionDescriptor>)
    ensures
        action_values(r@) == claude_actions_value(),
{
    let r: Vec<ProviderSettingsActionDescriptor> = Vec::new();
    assert(action_values(r@) =~= claude_actions_value());
    r
}

/// Accepted credentials.
pub open spec fn claude_account_credentials_value() -> Seq<ProviderAccountCredentialKind> {
    seq![
    ProviderAccountCredentialKind::WebSession,
    ProviderAccountCredentialKind::Oauth,
    ProviderAccountCredentialKind::AdminApiKey,
]
}

fn claude_account_credentials() -> (r: Vec<ProviderAccountCredentialKind>)
    ensures
        r@ == claude_account_credentials_value(),
{
    let r: Vec<ProviderAccountCredentialKind> = vec![
    ProviderAccountCredentialKind::WebSession,
    ProviderAccountCredentialKind::Oauth,
    ProviderAccountCredentialKind::AdminApiKey,
];
    assert(r@ =~= claude_account_credentials_value());
    r
}

/// The account editor.
pub open spec fn claude_accounts_value(names: NamesView) -> AccountsValue {
    AccountsValue {
    title: filled("{provider} credentials"@, names),
    subtitle: filled("Store {provider} sessionKey cookies, OAuth tokens, or Anthropic Admin API keys."@, names),
    placeholder: "Paste sessionKey, OAuth token, or sk-ant-admin…"@,
    credential_kinds: claude_account_credentials_value(),
    organization_field: ProviderAccountFieldMode::Optional,
    workspace_field: ProviderAccountFieldMode::Hidden,
    requires_manual_cookie_source: true,
    primary_action: None,
    token_file_action: None,
    visible_when: claude_accounts_visible_value(),
    availability: ProviderSettingsAvailability::Unavailable { gap: ProviderSettingsGap::MultiAccountLifecycle },
}
}

fn claude_accounts(names: &ProviderNames) -> (r: ProviderAccountSupportDescriptor)
    ensures
        r.value() == claude_accounts_value(names.value()),
{
    ProviderAccountSupportDescriptor {
    title: fill("{provider} credentials", names),
    subtitle: fill("Store {provider} sessionKey cookies, OAuth tokens, or Anthropic Admin API keys.", names),
    placeholder: "Paste sessionKey, OAuth token, or sk-ant-admin…",
    credential_kinds: claude_account_credentials(),
    organization_field: ProviderAccountFieldMode::Optional,
    workspace_field: ProviderAccountFieldMode::Hidden,
    requires_manual_cookie_source: true,
    primary_action: None,
    token_file_action: None,
    visible_when: claude_accounts_visible(),
    availability: ProviderSettingsAvailability::Unavailable { gap: ProviderSettingsGap::MultiAccountLifecycle },
}
}

/// A settings schema.
pub open spec fn claude_settings_value(names: NamesView) -> DescriptorValue {
    DescriptorValue {
    schema_version: 1,
    provider: ProviderId::Claude,
    controls: claude_controls_value(names),
    actions: claude_actions_value(),
    accounts: Some(claude_accounts_value(names)),
}
}

fn claude_settings(names: &ProviderNames) -> (r: ProviderSettingsDescriptor)
    ensures
        r.value() == claude_settings_value(names.value()),
{
    ProviderSettingsDescriptor {
    schema_version: 1,
    provider: ProviderId::Claude,
    controls: claude_controls(names),
    actions: claude_actions(),
    accounts: Some(claude_accounts(names)),
}
}

/// A condition.
pub open spec fn grok_source_auto_value() -> ConditionValue {
    ConditionValue::Choice {
    setting: ProviderSettingId::GrokUsageSource,
    choice: ProviderSettingChoice::Auto,
}
}

fn grok_source_auto() -> (r: ProviderSettingsCondition)
    ensures
        r.value() == grok_source_auto_value(),
{
    ProviderSettingsCondition::Choice {
    setting: ProviderSettingId::GrokUsageSource,
    choice: ProviderSettingChoice::Auto,
}
}

/// A condition.
pub open spec fn grok_source_web_value() -> ConditionValue {
    ConditionValue::Choice {
    setting: ProviderSettingId::GrokUsageSource,
    choice: ProviderSettingChoice::Web,
}
}

fn grok_source_web() -> (r: ProviderSettingsCondition)
    ensures
        r.value() == grok_source_web_value(),
{
    ProviderSettingsCondition::Choice {
    setting: ProviderSettingId::GrokUsageSource,
    choice: ProviderSettingChoice::Web,
}
}

/// Operands of a condition.
pub open spec fn grok_cookie_source_visibility_operands_value() -> Seq<ConditionValue> {
    seq![grok_source_auto_value(), grok_source_web_value()]
}

fn grok_cookie_source_visibility_operands() -> (r: Vec<ProviderSettingsCondition>)
    ensures
        condition_values(r@) == grok_cookie_source_visibility_operands_value(),
{
    let r: Vec<ProviderSettingsCondition> = vec![grok_source_auto(), grok_source_web()];
    assert(condition_values(r@) =~= grok_cookie_source_visibility_operands_value());
    r
}

/// A condition.
pub open spec fn grok_cookie_source_visible_value() -> ConditionValue {
    ConditionValue::Any { conditions: grok_cookie_source_visibility_operands_value() }
}

fn grok_cookie_source_visible() -> (r: ProviderSettingsCondition)
    ensures
        r.value() == grok_cookie_source_visible_value(),
{
    let r = ProviderSettingsCondition::Any { conditions: grok_cookie_source_visibility_operands() };
    assert(operands(r.value()) =~= operands(grok_cookie_source_visible_value()));
    r
}

/// A condition.
pub open spec fn grok_cookie_manual_value() -> ConditionValue {
    ConditionValue::Choice {
    setting: ProviderSettingId::GrokCookieSource,
    choice: ProviderSettingChoice::Manual,
}
}

fn grok_cookie_manual() -> (r: ProviderSettingsCondition)
    ensures
        r.value() == grok_cookie_manual_value(),
{
    ProviderSettingsCondition::Choice {
    setting: ProviderSettingId::GrokCookieSource,
    choice: ProviderSettingChoice::Manual,
}
}

/// Operands of a condition.
pub open spec fn grok_cookie_header_visibility_operands_value() -> Seq<ConditionValue> {
    seq![grok_cookie_source_visible_value(), grok_cookie_manual_value()]
}

fn grok_cookie_header_visibility_operands() -> (r: Vec<ProviderSettingsCondition>)
    ensures
        condition_values(r@) == grok_cookie_header_visibility_operands_value(),
{
    let r: Vec<ProviderSettingsCondition> = vec![
        grok_cookie_source_visible(),
        grok_cookie_manual(),
    ];
    assert(condition_values(r@) =~= grok_cookie_header_visibility_operands_value());
    r
}

/// A condition.
pub open spec fn grok_cookie_header_visible_value() -> ConditionValue {
    ConditionValue::All { conditions: grok_cookie_header_visibility_operands_value() }
}

fn grok_cookie_header_visible() -> (r: ProviderSettingsCondition)
    ensures
        r.value() == grok_cookie_header_visible_value(),
{
    let r = ProviderSettingsCondition::All { conditions: grok_cookie_header_visibility_operands() };
    assert(operands(r.value()) =~= operands(grok_cookie_header_visible_value()));
    r
}

/// Options of a picker, in order.
pub open spec fn grok_usage_options_value() -> Seq<OptionValue> {
    seq![
    option_value(ProviderSettingChoice::Auto, "Auto"@, ProviderSettingsAvailability::Implemented),
    option_value(ProviderSettingChoice::Cli, "Grok CLI"@, ProviderSettingsAvailability::Implemented),
    option_value(ProviderSettingChoice::Oauth, "SuperGrok OAuth"@, ProviderSettingsAvailability::Implemented),
    option_value(ProviderSettingChoice::Web, "Browser cookies"@, ProviderSettingsAvailability::Implemented),
]
}

fn grok_usage_options() -> (r: Vec<ProviderSettingsPickerOption>)
    ensures
        option_values(r@) == grok_usage_options_value(),
{
    let r: Vec<ProviderSettingsPickerOption> = vec![
    option(ProviderSettingChoice::Auto, "Auto", ProviderSettingsAvailability::Implemented),
    option(ProviderSettingChoice::Cli, "Grok CLI", ProviderSettingsAvailability::Implemented),
    option(ProviderSettingChoice::Oauth, "SuperGrok OAuth", ProviderSettingsAvailability::Implemented),
    option(ProviderSettingChoice::Web, "Browser cookies", ProviderSettingsAvailability::Implemented),
];
    assert(option_values(r@) =~= grok_usage_options_value());
    r
}

/// Options of a picker, in order.
pub open spec fn grok_cookie_options_value() -> Seq<OptionValue> {
    seq![
    option_value(ProviderSettingChoice::Auto, "Auto"@, ProviderSettingsAvailability::Implemented),
    option_value(ProviderSettingChoice::Manual, "Manual"@, ProviderSettingsAvailability::Implemented),
    option_value(ProviderSettingChoice::Off, "Off"@, ProviderSettingsAvailability::Implemented),
]
}

fn grok_cookie_options() -> (r: Vec<ProviderSettingsPickerOption>)
    ensures
        option_values(r@) == grok_cookie_options_value(),
{
    let r: Vec<ProviderSettingsPickerOption> = vec![
    option(ProviderSettingChoice::Auto, "Auto", ProviderSettingsAvailability::Implemented),
    option(ProviderSettingChoice::Manual, "Manual", ProviderSettingsAvailability::Implemented),
    option(ProviderSettingChoice::Off, "Off", ProviderSettingsAvailability::Implemented),
];
    assert(option_values(r@) =~= grok_cookie_options_value());
    r
}

/// Actions beside a control.
pub open spec fn grok_open_usage_action_value() -> Seq<ProviderSettingsActionId> {
    seq![ProviderSettingsActionId::OpenGrokUsage]
}

fn grok_open_usage_action() -> (r: Vec<ProviderSettingsActionId>)
    ensures
        r@ == grok_open_usage_action_value(),
{
    let r: Vec<ProviderSettingsActionId> = vec![ProviderSettingsActionId::OpenGrokUsage];
    assert(r@ =~= grok_open_usage_action_value());
    r
}

/// One control.
pub open spec fn grok_usage_source_control_value() -> ControlValue {
    ControlValue::Picker(PickerValue {
        item: item_value(
            ProviderSettingId::GrokUsageSource,
            "Usage source"@,
            "Auto tries the Grok CLI, read-only SuperGrok OAuth billing proxy, then an enabled manual or isolated Linux browser session. Bearer gRPC enrichment remains disabled."@,
            ProviderSettingsSection::Connection,
            ConditionValue::Always,
            ConditionValue::Always,
            ProviderSettingsAvailability::Implemented,
            Some(ProviderSettingsRuntimeHint::ResolvedSource),
        ),
        options: grok_usage_options_value(),
        dynamic_options: None,
        actions: seq![],
    })
}

fn grok_usage_source_control() -> (r: ProviderSettingsControlDescriptor)
    ensures
        r.value() == grok_usage_source_control_value(),
{
    ProviderSettingsControlDescriptor::Picker(ProviderSettingsPickerDescriptor {
        item: item(
            ProviderSettingId::GrokUsageSource,
            "Usage source",
            "Auto tries the Grok CLI, read-only SuperGrok OAuth billing proxy, then an enabled manual or isolated Linux browser session. Bearer gRPC enrichment remains disabled.",
            ProviderSettingsSection::Connection,
            ProviderSettingsCondition::Always,
            ProviderSettingsCondition::Always,
            ProviderSettingsAvailability::Implemented,
            Some(ProviderSettingsRuntimeHint::ResolvedSource),
        ),
        options: grok_usage_options(),
        dynamic_options: None,
        actions: Vec::new(),
    })
}

/// One control.
pub open spec fn grok_cookie_source_control_value() -> ControlValue {
    ControlValue::Picker(PickerValue {
        item: item_value(
            ProviderSettingId::GrokCookieSource,
            "Cookie source"@,
            "Automatic imports isolated grok.com sessions from supported Linux browser profiles."@,
            ProviderSettingsSection::Connection,
            grok_cookie_source_visible_value(),
            ConditionValue::Always,
            ProviderSettingsAvailability::Implemented,
            Some(ProviderSettingsRuntimeHint::ImportedBrowserSession),
        ),
        options: grok_cookie_options_value(),
        dynamic_options: None,
        actions: seq![],
    })
}

fn grok_cookie_source_control() -> (r: ProviderSettingsControlDescriptor)
    ensures
        r.value() == grok_cookie_source_control_value(),
{
    ProviderSettingsControlDescriptor::Picker(ProviderSettingsPickerDescriptor {
        item: item(
            ProviderSettingId::GrokCookieSource,
            "Cookie source",
            "Automatic imports isolated grok.com sessions from supported Linux browser profiles.",
            ProviderSettingsSection::Connection,
            grok_cookie_source_visible(),
            ProviderSettingsCondition::Always,
            ProviderSettingsAvailability::Implemented,
            Some(ProviderSettingsRuntimeHint::ImportedBrowserSession),
        ),
        options: grok_cookie_options(),
        dynamic_options: None,
        actions: Vec::new(),
    })
}

/// One control.
pub open spec fn grok_cookie_header_control_value() -> ControlValue {
    ControlValue::SecretSlot(SecretSlotValue {
        item: item_value(
            ProviderSettingId::GrokCookieHeader,
            ""@,
            ""@,
            ProviderSettingsSection::Credentials,
            grok_cookie_header_visible_value(),
            ConditionValue::Always,
            ProviderSettingsAvailability::Implemented,
            None,
        ),
        slot: ProviderSecretSlot::GrokWebCookie,
        placeholder: Some("Cookie: …"@),
        actions: grok_open_usage_action_value(),
    })
}

fn grok_cookie_header_control() -> (r: ProviderSettingsControlDescriptor)
    ensures
        r.value() == grok_cookie_header_control_value(),
{
    ProviderSettingsControlDescriptor::SecretSlot(ProviderSettingsSecretSlotDescriptor {
        item: item(
            ProviderSettingId::GrokCookieHeader,
            "",
            "",
            ProviderSettingsSection::Credentials,
            grok_cookie_header_visible(),
            ProviderSettingsCondition::Always,
            ProviderSettingsAvailability::Implemented,
            None,
        ),
        slot: ProviderSecretSlot::GrokWebCookie,
        placeholder: Some("Cookie: …"),
        actions: grok_open_usage_action(),
    })
}

/// Controls, in order.
pub open spec fn grok_controls_value() -> Seq<ControlValue> {
    seq![
        grok_usage_source_control_value(),
        grok_cookie_source_control_value(),
        grok_cookie_header_control_value(),
    ]
}

fn grok_controls() -> (r: Vec<ProviderSettingsControlDescriptor>)
    ensures
        control_values(r@) == grok_controls_value(),
{
    let r: Vec<ProviderSettingsControlDescriptor> = vec![
        grok_usage_source_control(),
        grok_cookie_source_control(),
        grok_cookie_header_control(),
    ];
    assert(control_values(r@) =~= grok_controls_value());
    r
}

/// Actions, in order.
pub open spec fn grok_actions_value() -> Seq<ActionValue> {
    seq![
    ActionValue {
        id: ProviderSettingsActionId::OpenGrokUsage,
        title: "Open grok.com usage"@,
        style: ProviderSettingsActionStyle::Link,
        section: ProviderSettingsSection::Credentials,
        standalone: false,
        target: ProviderSettingsActionTarget::OpenUsageDashboard,
        visible_when: ConditionValue::Always,
        availability: ProviderSettingsAvailability::Implemented,
    },
    ActionValue {
        id: ProviderSettingsActionId::OpenGrokTokenFile,
        title: "Open token file"@,
        style: ProviderSettingsActionStyle::Link,
        section: ProviderSettingsSection::Credentials,
        standalone: false,
        target: ProviderSettingsActionTarget::OpenTokenFile,
        visible_when: ConditionValue::Always,
        availability: ProviderSettingsAvailability::Implemented,
    },
]
}

fn grok_actions() -> (r: Vec<ProviderSettingsActionDescriptor>)
    ensures
        action_values(r@) == grok_actions_value(),
{
    let r: Vec<ProviderSettingsActionDescriptor> = vec![
    ProviderSettingsActionDescriptor {
        id: ProviderSettingsActionId::OpenGrokUsage,
        title: "Open grok.com usage",
        style: ProviderSettingsActionStyle::Link,
        section: ProviderSettingsSection::Credentials,
        standalone: false,
        target: ProviderSettingsActionTarget::OpenUsageDashboard,
        visible_when: ProviderSettingsCondition::Always,
        availability: ProviderSettingsAvailability::Implemented,
    },
    ProviderSettingsActionDescriptor {
        id: ProviderSettingsActionId::OpenGrokTokenFile,
        title: "Open token file",
        style: ProviderSettingsActionStyle::Link,
        section: ProviderSettingsSection::Credentials,
        standalone: false,
        target: ProviderSettingsActionTarget::OpenTokenFile,
        visible_when: ProviderSettingsCondition::Always,
        availability: ProviderSettingsAvailability::Implemented,
    },
];
    assert(action_values(r@) =~= grok_actions_value());
    r
}

/// Accepted credentials.
pub open spec fn grok_account_credentials_value() -> Seq<ProviderAccountCredentialKind> {
    seq![
    ProviderAccountCredentialKind::GrokBearer,
    ProviderAccountCredentialKind::WebSession,
]
}

fn grok_account_credentials() -> (r: Vec<ProviderAccountCredentialKind>)
    ensures
        r@ == grok_account_credentials_value(),
{
    let r: Vec<ProviderAccountCredentialKind> = vec![
    ProviderAccountCredentialKind::GrokBearer,
    ProviderAccountCredentialKind::WebSession,
];
    assert(r@ =~= grok_account_credentials_value());
    r
}

/// The account editor.
pub open spec fn grok_accounts_value() -> AccountsValue {
    AccountsValue {
    title: "SuperGrok tokens"@,
    subtitle: "Paste a SuperGrok bearer or grok.com cookie."@,
    placeholder: "Bearer … or Cookie: …"@,
    credential_kinds: grok_account_credentials_value(),
    organization_field: ProviderAccountFieldMode::Hidden,
    workspace_field: ProviderAccountFieldMode::Hidden,
    requires_manual_cookie_source: false,
    primary_action: None,
    token_file_action: Some(ProviderSettingsActionId::OpenGrokTokenFile),
    visible_when: ConditionValue::Always,
    availability: ProviderSettingsAvailability::Unavailable { gap: ProviderSettingsGap::MultiAccountLifecycle },
}
}

fn grok_accounts() -> (r: ProviderAccountSupportDescriptor)
    ensures
        r.value() == grok_accounts_value(),
{
    ProviderAccountSupportDescriptor {
    title: "SuperGrok tokens".to_owned(),
    subtitle: "Paste a SuperGrok bearer or grok.com cookie.".to_owned(),
    placeholder: "Bearer … or Cookie: …",
    credential_kinds: grok_account_credentials(),
    organization_field: ProviderAccountFieldMode::Hidden,
    workspace_field: ProviderAccountFieldMode::Hidden,
    requires_manual_cookie_source: false,
    primary_action: None,
    token_file_action: Some(ProviderSettingsActionId::OpenGrokTokenFile),
    visible_when: ProviderSettingsCondition::Always,
    availability: ProviderSettingsAvailability::Unavailable { gap: ProviderSettingsGap::MultiAccountLifecycle },
}
}

/// A settings schema.
pub open spec fn grok_settings_value() -> DescriptorValue {
    DescriptorValue {
    schema_version: 1,
    provider: ProviderId::Grok,
    controls: grok_controls_value(),
    actions: grok_actions_value(),
    accounts: Some(grok_accounts_value()),
}
}

fn grok_settings() -> (r: ProviderSettingsDescriptor)
    ensures
        r.value() == grok_settings_value(),
{
    ProviderSettingsDescriptor {
    schema_version: 1,
    provider: ProviderId::Grok,
    controls: grok_controls(),
    actions: grok_actions(),
    accounts: Some(grok_accounts()),
}
}

/// A condition.
pub open spec fn copilot_budget_extras_on_value() -> ConditionValue {
    ConditionValue::Toggle {
    setting: ProviderSettingId::CopilotBudgetExtras,
    enabled: true,
}
}

fn copilot_budget_extras_on() -> (r: ProviderSettingsCondition)
    ensures
        r.value() == copilot_budget_extras_on_value(),
{
    ProviderSettingsCondition::Toggle {
    setting: ProviderSettingId::CopilotBudgetExtras,
    enabled: true,
}
}

/// A condition.
pub open spec fn copilot_budget_cookie_manual_value() -> ConditionValue {
    ConditionValue::Choice {
    setting: ProviderSettingId::CopilotBudgetCookieSource,
    choice: ProviderSettingChoice::Manual,
}
}

fn copilot_budget_cookie_manual() -> (r: ProviderSettingsCondition)
    ensures
        r.value() == copilot_budget_cookie_manual_value(),
{
    ProviderSettingsCondition::Choice {
    setting: ProviderSettingId::CopilotBudgetCookieSource,
    choice: ProviderSettingChoice::Manual,
}
}

/// Operands of a condition.
pub open spec fn copilot_budget_cookie_visibility_operands_value() -> Seq<ConditionValue> {
    seq![copilot_budget_extras_on_value(), copilot_budget_cookie_manual_value()]
}

fn copilot_budget_cookie_visibility_operands() -> (r: Vec<ProviderSettingsCondition>)
    ensures
        condition_values(r@) == copilot_budget_cookie_visibility_operands_value(),
{
    let r: Vec<ProviderSettingsCondition> = vec![
        copilot_budget_extras_on(),
        copilot_budget_cookie_manual(),
    ];
    assert(condition_values(r@) =~= copilot_budget_cookie_visibility_operands_value());
    r
}

/// A condition.
pub open spec fn copilot_budget_cookie_visible_value() -> ConditionValue {
    ConditionValue::All { conditions: copilot_budget_cookie_visibility_operands_value() }
}

fn copilot_budget_cookie_visible() -> (r: ProviderSettingsCondition)
    ensures
        r.value() == copilot_budget_cookie_visible_value(),
{
    let r = ProviderSettingsCondition::All { conditions: copilot_budget_cookie_visibility_operands() };
    assert(operands(r.value()) =~= operands(copilot_budget_cookie_visible_value()));
    r
}

/// A missing behavior.
pub open spec fn copilot_auto_budget_unavailable_value() -> ProviderSettingsAvailability {
    ProviderSettingsAvailability::Unavailable { gap: ProviderSettingsGap::CopilotBudgetConfiguration }
}

fn copilot_auto_budget_unavailable() -> (r: ProviderSettingsAvailability)
    ensures
        r == copilot_auto_budget_unavailable_value(),
{
    ProviderSettingsAvailability::Unavailable { gap: ProviderSettingsGap::CopilotBudgetConfiguration }
}

/// Options of a picker, in order.
pub open spec fn copilot_secondary_options_value() -> Seq<OptionValue> {
    seq![option_value(
    ProviderSettingChoice::Chat,
    "Chat"@,
    ProviderSettingsAvailability::Unavailable { gap: ProviderSettingsGap::MenuBarMetricSelection },
)]
}

fn copilot_secondary_options() -> (r: Vec<ProviderSettingsPickerOption>)
    ensures
        option_values(r@) == copilot_secondary_options_value(),
{
    let r: Vec<ProviderSettingsPickerOption> = vec![option(
    ProviderSettingChoice::Chat,
    "Chat",
    ProviderSettingsAvailability::Unavailable { gap: ProviderSettingsGap::MenuBarMetricSelection },
)];
    assert(option_values(r@) =~= copilot_secondary_options_value());
    r
}

/// Options of a picker, in order.
pub open spec fn copilot_cookie_options_value() -> Seq<OptionValue> {
    seq![
    option_value(
        ProviderSettingChoice::Auto,
        "Auto"@,
        copilot_auto_budget_unavailable_value(),
    ),
    option_value(ProviderSettingChoice::Manual, "Manual"@, ProviderSettingsAvailability::Implemented),
]
}

fn copilot_cookie_options() -> (r: Vec<ProviderSettingsPickerOption>)
    ensures
        option_values(r@) == copilot_cookie_options_value(),
{
    let r: Vec<ProviderSettingsPickerOption> = vec![
    option(
        ProviderSettingChoice::Auto,
        "Auto",
        copilot_auto_budget_unavailable(),
    ),
    option(ProviderSettingChoice::Manual, "Manual", ProviderSettingsAvailability::Implemented),
];
    assert(option_values(r@) =~= copilot_cookie_options_value());
    r
}

/// Actions beside a control.
pub open spec fn copilot_refresh_budget_action_value() -> Seq<ProviderSettingsActionId> {
    seq![ProviderSettingsActionId::RefreshCopilotBudgets]
}

fn copilot_refresh_budget_action() -> (r: Vec<ProviderSettingsActionId>)
    ensures
        r@ == copilot_refresh_budget_action_value(),
{
    let r: Vec<ProviderSettingsActionId> = vec![ProviderSettingsActionId::RefreshCopilotBudgets];
    assert(r@ =~= copilot_refresh_budget_action_value());
    r
}

/// One control.
pub open spec fn copilot_budget_extras_control_value() -> ControlValue {
    ControlValue::Toggle(ToggleValue {
        item: item_value(
            ProviderSettingId::CopilotBudgetExtras,
            "Budget extras"@,
            "Optional. Turn this on to fetch configured GitHub Copilot budget limits and show them as extra bars."@,
            ProviderSettingsSection::Options,
            ConditionValue::Always,
            ConditionValue::Always,
            ProviderSettingsAvailability::Implemented,
            Some(ProviderSettingsRuntimeHint::CopilotBudgetStatus),
        ),
        actions: seq![],
    })
}

fn copilot_budget_extras_control() -> (r: ProviderSettingsControlDescriptor)
    ensures
        r.value() == copilot_budget_extras_control_value(),
{
    ProviderSettingsControlDescriptor::Toggle(ProviderSettingsToggleDescriptor {
        item: item(
            ProviderSettingId::CopilotBudgetExtras,
            "Budget extras",
            "Optional. Turn this on to fetch configured GitHub Copilot budget limits and show them as extra bars.",
            ProviderSettingsSection::Options,
            ProviderSettingsCondition::Always,
            ProviderSettingsCondition::Always,
            ProviderSettingsAvailability::Implemented,
            Some(ProviderSettingsRuntimeHint::CopilotBudgetStatus),
        ),
        actions: Vec::new(),
    })
}

/// One control.
pub open spec fn copilot_icon_secondary_window_control_value() -> ControlValue {
    ControlValue::Picker(PickerValue {
        item: item_value(
            ProviderSettingId::CopilotIconSecondaryWindow,
            "Menu bar secondary metric"@,
            "Choose the second meter shown in the menu bar icon."@,
            ProviderSettingsSection::MenuBar,
            copilot_budget_extras_on_value(),
            ConditionValue::Always,
            ProviderSettingsAvailability::Unavailable { gap: ProviderSettingsGap::MenuBarMetricSelection },
            Some(ProviderSettingsRuntimeHint::CopilotBudgetOptions),
        ),
        options: copilot_secondary_options_value(),
        dynamic_options: Some(ProviderSettingsDynamicOptions::CopilotBudgetWindows),
        actions: seq![],
    })
}

fn copilot_icon_secondary_window_control() -> (r: ProviderSettingsControlDescriptor)
    ensures
        r.value() == copilot_icon_secondary_window_control_value(),
{
    ProviderSettingsControlDescriptor::Picker(ProviderSettingsPickerDescriptor {
        item: item(
            ProviderSettingId::CopilotIconSecondaryWindow,
            "Menu bar secondary metric",
            "Choose the second meter shown in the menu bar icon.",
            ProviderSettingsSection::MenuBar,
            copilot_budget_extras_on(),
            ProviderSettingsCondition::Always,
            ProviderSettingsAvailability::Unavailable { gap: ProviderSettingsGap::MenuBarMetricSelection },
            Some(ProviderSettingsRuntimeHint::CopilotBudgetOptions),
        ),
        options: copilot_secondary_options(),
        dynamic_options: Some(ProviderSettingsDynamicOptions::CopilotBudgetWindows),
        actions: Vec::new(),
    })
}

/// One control.
pub open spec fn copilot_budget_cookie_source_control_value() -> ControlValue {
    ControlValue::Picker(PickerValue {
        item: item_value(
            ProviderSettingId::CopilotBudgetCookieSource,
            "GitHub cookies"@,
            "Use a manually stored GitHub Cookie header for optional budget extras."@,
            ProviderSettingsSection::Connection,
            copilot_budget_extras_on_value(),
            ConditionValue::Always,
            ProviderSettingsAvailability::Implemented,
            Some(ProviderSettingsRuntimeHint::ImportedBrowserSession),
        ),
        options: copilot_cookie_options_value(),
        dynamic_options: None,
        actions: seq![],
    })
}

fn copilot_budget_cookie_source_control() -> (r: ProviderSettingsControlDescriptor)
    ensures
        r.value() == copilot_budget_cookie_source_control_value(),
{
    ProviderSettingsControlDescriptor::Picker(ProviderSettingsPickerDescriptor {
        item: item(
            ProviderSettingId::CopilotBudgetCookieSource,
            "GitHub cookies",
            "Use a manually stored GitHub Cookie header for optional budget extras.",
            ProviderSettingsSection::Connection,
            copilot_budget_extras_on(),
            ProviderSettingsCondition::Always,
            ProviderSettingsAvailability::Implemented,
            Some(ProviderSettingsRuntimeHint::ImportedBrowserSession),
        ),
        options: copilot_cookie_options(),
        dynamic_options: None,
        actions: Vec::new(),
    })
}

/// One control.
pub open spec fn copilot_budget_cookie_header_control_value() -> ControlValue {
    ControlValue::SecretSlot(SecretSlotValue {
        item: item_value(
            ProviderSettingId::CopilotBudgetCookieHeader,
            "Manual GitHub Cookie header"@,
            "Paste a github.com Cookie header. Treat this value like a password."@,
            ProviderSettingsSection::Credentials,
            copilot_budget_cookie_visible_value(),
            ConditionValue::Always,
            ProviderSettingsAvailability::Implemented,
            None,
        ),
        slot: ProviderSecretSlot::CopilotBudgetCookie,
        placeholder: Some("Cookie: ..."@),
        actions: copilot_refresh_budget_action_value(),
    })
}

fn copilot_budget_cookie_header_control() -> (r: ProviderSettingsControlDescriptor)
    ensures
        r.value() == copilot_budget_cookie_header_control_value(),
{
    ProviderSettingsControlDescriptor::SecretSlot(ProviderSettingsSecretSlotDescriptor {
        item: item(
            ProviderSettingId::CopilotBudgetCookieHeader,
            "Manual GitHub Cookie header",
            "Paste a github.com Cookie header. Treat this value like a password.",
            ProviderSettingsSection::Credentials,
            copilot_budget_cookie_visible(),
            ProviderSettingsCondition::Always,
            ProviderSettingsAvailability::Implemented,
            None,
        ),
        slot: ProviderSecretSlot::CopilotBudgetCookie,
        placeholder: Some("Cookie: ..."),
        actions: copilot_refresh_budget_action(),
    })
}

/// One control.
pub open spec fn copilot_enterprise_host_control_value() -> ControlValue {
    ControlValue::PlainOption(PlainOptionValue {
        item: item_value(
            ProviderSettingId::CopilotEnterpriseHost,
            "Enterprise host"@,
            "Optional. Enter your GitHub Enterprise host, for example octocorp.ghe.com. Leave blank for github.com."@,
            ProviderSettingsSection::Credentials,
            ConditionValue::Always,
            ConditionValue::Always,
            ProviderSettingsAvailability::Implemented,
            None,
        ),
        placeholder: Some("github.com"@),
        actions: seq![],
    })
}

fn copilot_enterprise_host_control() -> (r: ProviderSettingsControlDescriptor)
    ensures
        r.value() == copilot_enterprise_host_control_value(),
{
    ProviderSettingsControlDescriptor::PlainOption(ProviderSettingsPlainOptionDescriptor {
        item: item(
            ProviderSettingId::CopilotEnterpriseHost,
            "Enterprise host",
            "Optional. Enter your GitHub Enterprise host, for example octocorp.ghe.com. Leave blank for github.com.",
            ProviderSettingsSection::Credentials,
            ProviderSettingsCondition::Always,
            ProviderSettingsCondition::Always,
            ProviderSettingsAvailability::Implemented,
            None,
        ),
        placeholder: Some("github.com"),
        actions: Vec::new(),
    })
}

/// Controls, in order.
pub open spec fn copilot_controls_value() -> Seq<ControlValue> {
    seq![
        copilot_budget_extras_control_value(),
        copilot_icon_secondary_window_control_value(),
        copilot_budget_cookie_source_control_value(),
        copilot_budget_cookie_header_control_value(),
        copilot_enterprise_host_control_value(),
    ]
}

fn copilot_controls() -> (r: Vec<ProviderSettingsControlDescriptor>)
    ensures
        control_values(r@) == copilot_controls_value(),
{
    let r: Vec<ProviderSettingsControlDescriptor> = vec![
        copilot_budget_extras_control(),
        copilot_icon_secondary_window_control(),
        copilot_budget_cookie_source_control(),
        copilot_budget_cookie_header_control(),
        copilot_enterprise_host_control(),
    ];
    assert(control_values(r@) =~= copilot_controls_value());
    r
}

/// Actions, in order.
pub open spec fn copilot_actions_value() -> Seq<ActionValue> {
    seq![
    ActionValue {
        id: ProviderSettingsActionId::RefreshCopilotBudgets,
        title: "Refresh budgets"@,
        style: ProviderSettingsActionStyle::Bordered,
        section: ProviderSettingsSection::Credentials,
        standalone: false,
        target: ProviderSettingsActionTarget::RefreshProvider,
        visible_when: ConditionValue::Always,
        availability: ProviderSettingsAvailability::Implemented,
    },
    ActionValue {
        id: ProviderSettingsActionId::AddCopilotAccount,
        title: "GitHub Login"@,
        style: ProviderSettingsActionStyle::Bordered,
        section: ProviderSettingsSection::Connection,
        standalone: true,
        target: ProviderSettingsActionTarget::Login,
        visible_when: ConditionValue::Always,
        availability: ProviderSettingsAvailability::Implemented,
    },
]
}

fn copilot_actions() -> (r: Vec<ProviderSettingsActionDescriptor>)
    ensures
        action_values(r@) == copilot_actions_value(),
{
    let r: Vec<ProviderSettingsActionDescriptor> = vec![
    ProviderSettingsActionDescriptor {
        id: ProviderSettingsActionId::RefreshCopilotBudgets,
        title: "Refresh budgets",
        style: ProviderSettingsActionStyle::Bordered,
        section: ProviderSettingsSection::Credentials,
        standalone: false,
        target: ProviderSettingsActionTarget::RefreshProvider,
        visible_when: ProviderSettingsCondition::Always,
        availability: ProviderSettingsAvailability::Implemented,
    },
    ProviderSettingsActionDescriptor {
        id: ProviderSettingsActionId::AddCopilotAccount,
        title: "GitHub Login",
        style: ProviderSettingsActionStyle::Bordered,
        section: ProviderSettingsSection::Connection,
        standalone: true,
        target: ProviderSettingsActionTarget::Login,
        visible_when: ProviderSettingsCondition::Always,
        availability: ProviderSettingsAvailability::Implemented,
    },
];
    assert(action_values(r@) =~= copilot_actions_value());
    r
}

/// Accepted credentials.
pub open spec fn copilot_account_credentials_value() -> Seq<ProviderAccountCredentialKind> {
    seq![ProviderAccountCredentialKind::Oauth]
}

fn copilot_account_credentials() -> (r: Vec<ProviderAccountCredentialKind>)
    ensures
        r@ == copilot_account_credentials_value(),
{
    let r: Vec<ProviderAccountCredentialKind> = vec![ProviderAccountCredentialKind::Oauth];
    assert(r@ =~= copilot_account_credentials_value());
    r
}

/// The account editor.
pub open spec fn copilot_accounts_value() -> AccountsValue {
    AccountsValue {
    title: "GitHub accounts"@,
    subtitle: "Sign in with multiple GitHub accounts via OAuth."@,
    placeholder: "Paste GitHub token…"@,
    credential_kinds: copilot_account_credentials_value(),
    organization_field: ProviderAccountFieldMode::Hidden,
    workspace_field: ProviderAccountFieldMode::Hidden,
    requires_manual_cookie_source: false,
    primary_action: Some(ProviderSettingsActionId::AddCopilotAccount),
    token_file_action: None,
    visible_when: ConditionValue::Always,
    availability: ProviderSettingsAvailability::Unavailable { gap: ProviderSettingsGap::MultiAccountLifecycle },
}
}

fn copilot_accounts() -> (r: ProviderAccountSupportDescriptor)
    ensures
        r.value() == copilot_accounts_value(),
{
    ProviderAccountSupportDescriptor {
    title: "GitHub accounts".to_owned(),
    subtitle: "Sign in with multiple GitHub accounts via OAuth.".to_owned(),
    placeholder: "Paste GitHub token…",
    credential_kinds: copilot_account_credentials(),
    organization_field: ProviderAccountFieldMode::Hidden,
    workspace_field: ProviderAccountFieldMode::Hidden,
    requires_manual_cookie_source: false,
    primary_action: Some(ProviderSettingsActionId::AddCopilotAccount),
    token_file_action: None,
    visible_when: ProviderSettingsCondition::Always,
    availability: ProviderSettingsAvailability::Unavailable { gap: ProviderSettingsGap::MultiAccountLifecycle },
}
}

/// A settings schema.
pub open spec fn copilot_settings_value() -> DescriptorValue {
    DescriptorValue {
    schema_version: 1,
    provider: ProviderId::Copilot,
    controls: copilot_controls_value(),
    actions: copilot_actions_value(),
    accounts: Some(copilot_accounts_value()),
}
}

fn copilot_settings() -> (r: ProviderSettingsDescriptor)
    ensures
        r.value() == copilot_settings_value(),
{
    ProviderSettingsDescriptor {
    schema_version: 1,
    provider: ProviderId::Copilot,
    controls: copilot_controls(),
    actions: copilot_actions(),
    accounts: Some(copilot_accounts()),
}
}

/// Options of a picker, in order.
pub open spec fn zai_region_options_value() -> Seq<OptionValue> {
    seq![
    option_value(
        ProviderSettingChoice::Global,
        "Global (api.z.ai)"@,
        ProviderSettingsAvailability::Implemented,
    ),
    option_value(
        ProviderSettingChoice::BigModelCn,
        "BigModel CN (open.bigmodel.cn)"@,
        ProviderSettingsAvailability::Implemented,
    ),
]
}

fn zai_region_options() -> (r: Vec<ProviderSettingsPickerOption>)
    ensures
        option_values(r@) == zai_region_options_value(),
{
    let r: Vec<ProviderSettingsPickerOption> = vec![
    option(
        ProviderSettingChoice::Global,
        "Global (api.z.ai)",
        ProviderSettingsAvailability::Implemented,
    ),
    option(
        ProviderSettingChoice::BigModelCn,
        "BigModel CN (open.bigmodel.cn)",
        ProviderSettingsAvailability::Implemented,
    ),
];
    assert(option_values(r@) =~= zai_region_options_value());
    r
}

/// Actions beside a control.
pub open spec fn zai_open_keys_action_value() -> Seq<ProviderSettingsActionId> {
    seq![ProviderSettingsActionId::OpenZaiApiKeys]
}

fn zai_open_keys_action() -> (r: Vec<ProviderSettingsActionId>)
    ensures
        r@ == zai_open_keys_action_value(),
{
    let r: Vec<ProviderSettingsActionId> = vec![ProviderSettingsActionId::OpenZaiApiKeys];
    assert(r@ =~= zai_open_keys_action_value());
    r
}

/// One control.
pub open spec fn zai_api_region_control_value() -> ControlValue {
    ControlValue::Picker(PickerValue {
        item: item_value(
            ProviderSettingId::ZaiApiRegion,
            "API region"@,
            "Global uses api.z.ai. China mainland uses open.bigmodel.cn with a BigModel/GLM key; the two key families are not interchangeable."@,
            ProviderSettingsSection::Connection,
            ConditionValue::Always,
            ConditionValue::Always,
            ProviderSettingsAvailability::Implemented,
            None,
        ),
        options: zai_region_options_value(),
        dynamic_options: None,
        actions: seq![],
    })
}

fn zai_api_region_control() -> (r: ProviderSettingsControlDescriptor)
    ensures
        r.value() == zai_api_region_control_value(),
{
    ProviderSettingsControlDescriptor::Picker(ProviderSettingsPickerDescriptor {
        item: item(
            ProviderSettingId::ZaiApiRegion,
            "API region",
            "Global uses api.z.ai. China mainland uses open.bigmodel.cn with a BigModel/GLM key; the two key families are not interchangeable.",
            ProviderSettingsSection::Connection,
            ProviderSettingsCondition::Always,
            ProviderSettingsCondition::Always,
            ProviderSettingsAvailability::Implemented,
            None,
        ),
        options: zai_region_options(),
        dynamic_options: None,
        actions: Vec::new(),
    })
}

/// One control.
pub open spec fn zai_api_key_control_value() -> ControlValue {
    ControlValue::SecretSlot(SecretSlotValue {
        item: item_value(
            ProviderSettingId::ZaiApiKey,
            "API key"@,
            "Use a key issued for the selected region. China also supports the standard BigModel and GLM credential discovery paths."@,
            ProviderSettingsSection::Credentials,
            ConditionValue::Always,
            ConditionValue::Always,
            ProviderSettingsAvailability::Implemented,
            None,
        ),
        slot: ProviderSecretSlot::ZaiApiKey,
        placeholder: Some("Paste z.ai / GLM API key…"@),
        actions: zai_open_keys_action_value(),
    })
}

fn zai_api_key_control() -> (r: ProviderSettingsControlDescriptor)
    ensures
        r.value() == zai_api_key_control_value(),
{
    ProviderSettingsControlDescriptor::SecretSlot(ProviderSettingsSecretSlotDescriptor {
        item: item(
            ProviderSettingId::ZaiApiKey,
            "API key",
            "Use a key issued for the selected region. China also supports the standard BigModel and GLM credential discovery paths.",
            ProviderSettingsSection::Credentials,
            ProviderSettingsCondition::Always,
            ProviderSettingsCondition::Always,
            ProviderSettingsAvailability::Implemented,
            None,
        ),
        slot: ProviderSecretSlot::ZaiApiKey,
        placeholder: Some("Paste z.ai / GLM API key…"),
        actions: zai_open_keys_action(),
    })
}

/// Controls, in order.
pub open spec fn zai_controls_value() -> Seq<ControlValue> {
    seq![zai_api_region_control_value(), zai_api_key_control_value()]
}

fn zai_controls() -> (r: Vec<ProviderSettingsControlDescriptor>)
    ensures
        control_values(r@) == zai_controls_value(),
{
    let r: Vec<ProviderSettingsControlDescriptor> = vec![
        zai_api_region_control(),
        zai_api_key_control(),
    ];
    assert(control_values(r@) =~= zai_controls_value());
    r
}

/// Actions, in order.
pub open spec fn zai_actions_value() -> Seq<ActionValue> {
    seq![ActionValue {
    id: ProviderSettingsActionId::OpenZaiApiKeys,
    title: "Open regional API keys"@,
    style: ProviderSettingsActionStyle::Link,
    section: ProviderSettingsSection::Credentials,
    standalone: false,
    target: ProviderSettingsActionTarget::OpenRegionalCredentialPage,
    visible_when: ConditionValue::Always,
    availability: ProviderSettingsAvailability::Implemented,
}]
}

fn zai_actions() -> (r: Vec<ProviderSettingsActionDescriptor>)
    ensures
        action_values(r@) == zai_actions_value(),
{
    let r: Vec<ProviderSettingsActionDescriptor> = vec![ProviderSettingsActionDescriptor {
    id: ProviderSettingsActionId::OpenZaiApiKeys,
    title: "Open regional API keys",
    style: ProviderSettingsActionStyle::Link,
    section: ProviderSettingsSection::Credentials,
    standalone: false,
    target: ProviderSettingsActionTarget::OpenRegionalCredentialPage,
    visible_when: ProviderSettingsCondition::Always,
    availability: ProviderSettingsAvailability::Implemented,
}];
    assert(action_values(r@) =~= zai_actions_value());
    r
}

/// Accepted credentials.
pub open spec fn zai_account_credentials_value() -> Seq<ProviderAccountCredentialKind> {
    seq![ProviderAccountCredentialKind::ApiKey]
}

fn zai_account_credentials() -> (r: Vec<ProviderAccountCredentialKind>)
    ensures
        r@ == zai_account_credentials_value(),
{
    let r: Vec<ProviderAccountCredentialKind> = vec![ProviderAccountCredentialKind::ApiKey];
    assert(r@ =~= zai_account_credentials_value());
    r
}

/// The account editor.
pub open spec fn zai_accounts_value() -> AccountsValue {
    AccountsValue {
    title: "API tokens"@,
    subtitle: "Store regional z.ai or BigModel API tokens."@,
    placeholder: "Paste token…"@,
    credential_kinds: zai_account_credentials_value(),
    organization_field: ProviderAccountFieldMode::RequiredInTeamMode,
    workspace_field: ProviderAccountFieldMode::RequiredInTeamMode,
    requires_manual_cookie_source: false,
    primary_action: None,
    token_file_action: None,
    visible_when: ConditionValue::Always,
    availability: ProviderSettingsAvailability::Unavailable { gap: ProviderSettingsGap::MultiAccountLifecycle },
}
}

fn zai_accounts() -> (r: ProviderAccountSupportDescriptor)
    ensures
        r.value() == zai_accounts_value(),
{
    ProviderAccountSupportDescriptor {
    title: "API tokens".to_owned(),
    subtitle: "Store regional z.ai or BigModel API tokens.".to_owned(),
    placeholder: "Paste token…",
    credential_kinds: zai_account_credentials(),
    organization_field: ProviderAccountFieldMode::RequiredInTeamMode,
    workspace_field: ProviderAccountFieldMode::RequiredInTeamMode,
    requires_manual_cookie_source: false,
    primary_action: None,
    token_file_action: None,
    visible_when: ProviderSettingsCondition::Always,
    availability: ProviderSettingsAvailability::Unavailable { gap: ProviderSettingsGap::MultiAccountLifecycle },
}
}

/// A settings schema.
pub open spec fn zai_settings_value() -> DescriptorValue {
    DescriptorValue {
    schema_version: 1,
    provider: ProviderId::Zai,
    controls: zai_controls_value(),
    actions: zai_actions_value(),
    accounts: Some(zai_accounts_value()),
}
}

fn zai_settings() -> (r: ProviderSettingsDescriptor)
    ensures
        r.value() == zai_settings_value(),
{
    ProviderSettingsDescriptor {
    schema_version: 1,
    provider: ProviderId::Zai,
    controls: zai_controls(),
    actions: zai_actions(),
    accounts: Some(zai_accounts()),
}
}

/// The settings schema of a provider, where it has one. `names` is what the
/// provider is called.
pub open spec fn schema_of(provider: ProviderId, names: NamesView) -> Option<DescriptorValue> {
    match provider {
        ProviderId::Codex => Some(codex_settings_value()),
        ProviderId::Claude => Some(claude_settings_value(names)),
        ProviderId::Grok => Some(grok_settings_value()),
        ProviderId::Copilot => Some(copilot_settings_value()),
        ProviderId::Zai => Some(zai_settings_value()),
        _ => None,
    }
}

/// The settings schema of a provider. A provider without one is not the same as
/// a provider without settings.
pub fn settings_for(provider: ProviderId, names: &ProviderNames) -> (r: Option<
    ProviderSettingsDescriptor,
>)
    ensures
        match r {
            Some(schema) => schema_of(provider, names.value()) == Some(schema.value()),
            None => schema_of(provider, names.value()) is None,
        },
{
    match provider {
        ProviderId::Codex => Some(codex_settings()),
        ProviderId::Claude => Some(claude_settings(names)),
        ProviderId::Grok => Some(grok_settings()),
        ProviderId::Copilot => Some(copilot_settings()),
        ProviderId::Zai => Some(zai_settings()),
        _ => None,
    }
}

/// Whether an action is among others.
pub open spec fn lists_action(actions: Seq<ActionValue>, id: ProviderSettingsActionId) -> bool {
    exists|k: int| 0 <= k < actions.len() && (#[trigger] actions[k]).id == id
}

/// Every action that a control of a schema refers to is among the schema's
/// actions, and a schema belongs to its provider.
pub proof fn law_actions_are_listed(provider: ProviderId, names: NamesView, i: int, j: int)
    requires
        schema_of(provider, names) is Some,
        0 <= i < schema_of(provider, names)->0.controls.len(),
        0 <= j < actions_of(schema_of(provider, names)->0.controls[i]).len(),
    ensures
        lists_action(
            schema_of(provider, names)->0.actions,
            actions_of(schema_of(provider, names)->0.controls[i])[j],
        ),
        schema_of(provider, names)->0.provider == provider,
{
    let id = actions_of(schema_of(provider, names)->0.controls[i])[j];
    let listed = schema_of(provider, names)->0.actions;
    match provider {
        ProviderId::Grok => {
            assert(id == ProviderSettingsActionId::OpenGrokUsage);
            assert(listed[0].id == id);
        },
        ProviderId::Copilot => {
            assert(id == ProviderSettingsActionId::RefreshCopilotBudgets);
            assert(listed[0].id == id);
        },
        ProviderId::Zai => {
            assert(id == ProviderSettingsActionId::OpenZaiApiKeys);
            assert(listed[0].id == id);
        },
        _ => {},
    }
}

/// No two controls of a schema have one identity.
pub proof fn law_controls_are_distinct(provider: ProviderId, names: NamesView, i: int, j: int)
    requires
        schema_of(provider, names) is Some,
        0 <= i < j < schema_of(provider, names)->0.controls.len(),
    ensures
        item_of(schema_of(provider, names)->0.controls[i]).id != item_of(
            schema_of(provider, names)->0.controls[j],
        ).id,
{
}

} // verus!
