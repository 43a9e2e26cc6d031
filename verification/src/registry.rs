//! The providers, in display order, with their display names.

use vstd::prelude::*;

verus! {

/// Number of providers.
pub const PROVIDER_COUNT: usize = 69;

/// Identifier of a provider.
#[derive(Debug, Clone, Copy, PartialEq, Eq, Structural)]
pub enum ProviderId {
    Codex,
    OpenAi,
    AzureOpenAi,
    Claude,
    ClinePass,
    Cursor,
    OpenCode,
    OpenCodeGo,
    Alibaba,
    AlibabaTokenPlan,
    QwenCloud,
    Factory,
    Fireworks,
    Gemini,
    Antigravity,
    Copilot,
    Devin,
    Zai,
    MiniMax,
    Manus,
    Kimi,
    Kilo,
    Kiro,
    VertexAi,
    Augment,
    JetBrains,
    Moonshot,
    Amp,
    T3Chat,
    Ollama,
    Synthetic,
    OpenRouter,
    ElevenLabs,
    Warp,
    Windsurf,
    Zed,
    Perplexity,
    Mimo,
    Doubao,
    Sakana,
    Abacus,
    Mistral,
    DeepSeek,
    DeepInfra,
    Codebuff,
    Crof,
    Venice,
    CommandCode,
    Qoder,
    StepFun,
    Bedrock,
    Grok,
    Groq,
    LlmProxy,
    LiteLlm,
    Deepgram,
    Poe,
    Chutes,
    Neuralwatt,
    ClawRouter,
    LongCat,
    Sub2Api,
    Wayfinder,
    ZenMux,
    AiAnd,
    ZoomMate,
    Xai,
    Notion,
    IbmBob,
}

/// One registry entry.
#[derive(Debug, Clone, Copy)]
pub struct ProviderMetadata {
    pub id: ProviderId,
    pub display_name: Option<&'static str>,
}

impl ProviderId {
    /// Position of the provider in the registry.
    pub open spec fn position(self) -> int {
        match self {
            ProviderId::Codex => 0,
            ProviderId::OpenAi => 1,
            ProviderId::AzureOpenAi => 2,
            ProviderId::Claude => 3,
            ProviderId::ClinePass => 4,
            ProviderId::Cursor => 5,
            ProviderId::OpenCode => 6,
            ProviderId::OpenCodeGo => 7,
            ProviderId::Alibaba => 8,
            ProviderId::AlibabaTokenPlan => 9,
            ProviderId::QwenCloud => 10,
            ProviderId::Factory => 11,
            ProviderId::Fireworks => 12,
            ProviderId::Gemini => 13,
            ProviderId::Antigravity => 14,
            ProviderId::Copilot => 15,
            ProviderId::Devin => 16,
            ProviderId::Zai => 17,
            ProviderId::MiniMax => 18,
            ProviderId::Manus => 19,
            ProviderId::Kimi => 20,
            ProviderId::Kilo => 21,
            ProviderId::Kiro => 22,
            ProviderId::VertexAi => 23,
            ProviderId::Augment => 24,
            ProviderId::JetBrains => 25,
            ProviderId::Moonshot => 26,
            ProviderId::Amp => 27,
            ProviderId::T3Chat => 28,
            ProviderId::Ollama => 29,
            ProviderId::Synthetic => 30,
            ProviderId::OpenRouter => 31,
            ProviderId::ElevenLabs => 32,
            ProviderId::Warp => 33,
            ProviderId::Windsurf => 34,
            ProviderId::Zed => 35,
            ProviderId::Perplexity => 36,
            ProviderId::Mimo => 37,
            ProviderId::Doubao => 38,
            ProviderId::Sakana => 39,
            ProviderId::Abacus => 40,
            ProviderId::Mistral => 41,
            ProviderId::DeepSeek => 42,
            ProviderId::DeepInfra => 43,
            ProviderId::Codebuff => 44,
            ProviderId::Crof => 45,
            ProviderId::Venice => 46,
            ProviderId::CommandCode => 47,
            ProviderId::Qoder => 48,
            ProviderId::StepFun => 49,
            ProviderId::Bedrock => 50,
            ProviderId::Grok => 51,
            ProviderId::Groq => 52,
            ProviderId::LlmProxy => 53,
            ProviderId::LiteLlm => 54,
            ProviderId::Deepgram => 55,
            ProviderId::Poe => 56,
            ProviderId::Chutes => 57,
            ProviderId::Neuralwatt => 58,
            ProviderId::ClawRouter => 59,
            ProviderId::LongCat => 60,
            ProviderId::Sub2Api => 61,
            ProviderId::Wayfinder => 62,
            ProviderId::ZenMux => 63,
            ProviderId::AiAnd => 64,
            ProviderId::ZoomMate => 65,
            ProviderId::Xai => 66,
            ProviderId::Notion => 67,
            ProviderId::IbmBob => 68,
        }
    }

    /// The name shown for the provider; `None` for the one provider that its
    /// caller names.
    pub open spec fn label(self) -> Option<Seq<char>> {
        match self {
            ProviderId::Codex => Some("Codex"@),
            ProviderId::OpenAi => Some("OpenAI"@),
            ProviderId::AzureOpenAi => Some("Azure OpenAI"@),
            ProviderId::Claude => None,
            ProviderId::ClinePass => Some("ClinePass"@),
            ProviderId::Cursor => Some("Cursor"@),
            ProviderId::OpenCode => Some("OpenCode"@),
            ProviderId::OpenCodeGo => Some("OpenCode Go"@),
            ProviderId::Alibaba => Some("Alibaba Coding Plan"@),
            ProviderId::AlibabaTokenPlan => Some("Alibaba Token Plan"@),
            ProviderId::QwenCloud => Some("Qwen Cloud"@),
            ProviderId::Factory => Some("Droid"@),
            ProviderId::Fireworks => Some("Fireworks"@),
            ProviderId::Gemini => Some("Gemini"@),
            ProviderId::Antigravity => Some("Antigravity"@),
            ProviderId::Copilot => Some("Copilot"@),
            ProviderId::Devin => Some("Devin"@),
            ProviderId::Zai => Some("z.ai"@),
            ProviderId::MiniMax => Some("MiniMax"@),
            ProviderId::Manus => Some("Manus"@),
            ProviderId::Kimi => Some("Kimi Code"@),
            ProviderId::Kilo => Some("Kilo"@),
            ProviderId::Kiro => Some("Kiro"@),
            ProviderId::VertexAi => Some("Vertex AI"@),
            ProviderId::Augment => Some("Augment"@),
            ProviderId::JetBrains => Some("JetBrains AI"@),
            ProviderId::Moonshot => Some("Moonshot"@),
            ProviderId::Amp => Some("Amp"@),
            ProviderId::T3Chat => Some("T3 Chat"@),
            ProviderId::Ollama => Some("Ollama"@),
            ProviderId::Synthetic => Some("Synthetic"@),
            ProviderId::OpenRouter => Some("OpenRouter"@),
            ProviderId::ElevenLabs => Some("ElevenLabs"@),
            ProviderId::Warp => Some("Warp"@),
            ProviderId::Windsurf => Some("Windsurf"@),
            ProviderId::Zed => Some("Zed"@),
            ProviderId::Perplexity => Some("Perplexity"@),
            ProviderId::Mimo => Some("Xiaomi MiMo"@),
            ProviderId::Doubao => Some("Doubao"@),
            ProviderId::Sakana => Some("Sakana AI"@),
            ProviderId::Abacus => Some("Abacus AI"@),
            ProviderId::Mistral => Some("Mistral"@),
            ProviderId::DeepSeek => Some("DeepSeek"@),
            ProviderId::DeepInfra => Some("DeepInfra"@),
            ProviderId::Codebuff => Some("Codebuff"@),
            ProviderId::Crof => Some("Crof"@),
            ProviderId::Venice => Some("Venice"@),
            ProviderId::CommandCode => Some("Command Code"@),
            ProviderId::Qoder => Some("Qoder"@),
            ProviderId::StepFun => Some("StepFun"@),
            ProviderId::Bedrock => Some("AWS Bedrock"@),
            ProviderId::Grok => Some("Grok"@),
            ProviderId::Groq => Some("Groq"@),
            ProviderId::LlmProxy => Some("LLM Proxy"@),
            ProviderId::LiteLlm => Some("LiteLLM"@),
            ProviderId::Deepgram => Some("Deepgram"@),
            ProviderId::Poe => Some("Poe"@),
            ProviderId::Chutes => Some("Chutes"@),
            ProviderId::Neuralwatt => Some("Neuralwatt"@),
            ProviderId::ClawRouter => Some("ClawRouter"@),
            ProviderId::LongCat => Some("LongCat"@),
            ProviderId::Sub2Api => Some("sub2api"@),
            ProviderId::Wayfinder => Some("Wayfinder"@),
            ProviderId::ZenMux => Some("ZenMux"@),
            ProviderId::AiAnd => Some("ai&"@),
            ProviderId::ZoomMate => Some("ZoomMate"@),
            ProviderId::Xai => Some("xAI"@),
            ProviderId::Notion => Some("Notion AI"@),
            ProviderId::IbmBob => Some("IBM Bob"@),
        }
    }

    /// The name shown for the provider; `None` for the one provider that its
    /// caller names.
    pub fn display_name(self) -> (r: Option<&'static str>)
        ensures
            match r {
                Some(name) => self.label() == Some(name@),
                None => self.label() is None,
            },
    {
        match self {
            ProviderId::Codex => Some("Codex"),
            ProviderId::OpenAi => Some("OpenAI"),
            ProviderId::AzureOpenAi => Some("Azure OpenAI"),
            ProviderId::Claude => None,
            ProviderId::ClinePass => Some("ClinePass"),
            ProviderId::Cursor => Some("Cursor"),
            ProviderId::OpenCode => Some("OpenCode"),
            ProviderId::OpenCodeGo => Some("OpenCode Go"),
            ProviderId::Alibaba => Some("Alibaba Coding Plan"),
            ProviderId::AlibabaTokenPlan => Some("Alibaba Token Plan"),
            ProviderId::QwenCloud => Some("Qwen Cloud"),
            ProviderId::Factory => Some("Droid"),
            ProviderId::Fireworks => Some("Fireworks"),
            ProviderId::Gemini => Some("Gemini"),
            ProviderId::Antigravity => Some("Antigravity"),
            ProviderId::Copilot => Some("Copilot"),
            ProviderId::Devin => Some("Devin"),
            ProviderId::Zai => Some("z.ai"),
            ProviderId::MiniMax => Some("MiniMax"),
            ProviderId::Manus => Some("Manus"),
            ProviderId::Kimi => Some("Kimi Code"),
            ProviderId::Kilo => Some("Kilo"),
            ProviderId::Kiro => Some("Kiro"),
            ProviderId::VertexAi => Some("Vertex AI"),
            ProviderId::Augment => Some("Augment"),
            ProviderId::JetBrains => Some("JetBrains AI"),
            ProviderId::Moonshot => Some("Moonshot"),
            ProviderId::Amp => Some("Amp"),
            ProviderId::T3Chat => Some("T3 Chat"),
            ProviderId::Ollama => Some("Ollama"),
            ProviderId::Synthetic => Some("Synthetic"),
            ProviderId::OpenRouter => Some("OpenRouter"),
            ProviderId::ElevenLabs => Some("ElevenLabs"),
            ProviderId::Warp => Some("Warp"),
            ProviderId::Windsurf => Some("Windsurf"),
            ProviderId::Zed => Some("Zed"),
            ProviderId::Perplexity => Some("Perplexity"),
            ProviderId::Mimo => Some("Xiaomi MiMo"),
            ProviderId::Doubao => Some("Doubao"),
            ProviderId::Sakana => Some("Sakana AI"),
            ProviderId::Abacus => Some("Abacus AI"),
            ProviderId::Mistral => Some("Mistral"),
            ProviderId::DeepSeek => Some("DeepSeek"),
            ProviderId::DeepInfra => Some("DeepInfra"),
            ProviderId::Codebuff => Some("Codebuff"),
            ProviderId::Crof => Some("Crof"),
            ProviderId::Venice => Some("Venice"),
            ProviderId::CommandCode => Some("Command Code"),
            ProviderId::Qoder => Some("Qoder"),
            ProviderId::StepFun => Some("StepFun"),
            ProviderId::Bedrock => Some("AWS Bedrock"),
            ProviderId::Grok => Some("Grok"),
            ProviderId::Groq => Some("Groq"),
            ProviderId::LlmProxy => Some("LLM Proxy"),
            ProviderId::LiteLlm => Some("LiteLLM"),
            ProviderId::Deepgram => Some("Deepgram"),
            ProviderId::Poe => Some("Poe"),
            ProviderId::Chutes => Some("Chutes"),
            ProviderId::Neuralwatt => Some("Neuralwatt"),
            ProviderId::ClawRouter => Some("ClawRouter"),
            ProviderId::LongCat => Some("LongCat"),
            ProviderId::Sub2Api => Some("sub2api"),
            ProviderId::Wayfinder => Some("Wayfinder"),
            ProviderId::ZenMux => Some("ZenMux"),
            ProviderId::AiAnd => Some("ai&"),
            ProviderId::ZoomMate => Some("ZoomMate"),
            ProviderId::Xai => Some("xAI"),
            ProviderId::Notion => Some("Notion AI"),
            ProviderId::IbmBob => Some("IBM Bob"),
        }
    }
}

/// What one provider is called: the name shown to users, and the identifier that
/// starts the wire names of its settings.
pub struct ProviderNames {
    pub display: String,
    pub id: String,
}

/// Mathematical value of [`ProviderNames`].
pub struct NamesView {
    pub display: Seq<char>,
    pub id: Seq<char>,
}

impl ProviderNames {
    pub open spec fn value(self) -> NamesView {
        NamesView { display: self.display@, id: self.id@ }
    }
}

/// Every provider has its own position, and the positions are those of the
/// registry: each provider occurs in it exactly once.
pub proof fn law_positions_distinct(a: ProviderId, b: ProviderId)
    ensures
        0 <= a.position() < PROVIDER_COUNT,
        a.position() == b.position() ==> a == b,
{
}

/// The provider at a position of the registry.
pub fn provider_at(position: usize) -> (r: ProviderId)
    requires
        position < PROVIDER_COUNT,
    ensures
        r.position() == position,
{
    match position {
        0 => ProviderId::Codex,
        1 => ProviderId::OpenAi,
        2 => ProviderId::AzureOpenAi,
        3 => ProviderId::Claude,
        4 => ProviderId::ClinePass,
        5 => ProviderId::Cursor,
        6 => ProviderId::OpenCode,
        7 => ProviderId::OpenCodeGo,
        8 => ProviderId::Alibaba,
        9 => ProviderId::AlibabaTokenPlan,
        10 => ProviderId::QwenCloud,
        11 => ProviderId::Factory,
        12 => ProviderId::Fireworks,
        13 => ProviderId::Gemini,
        14 => ProviderId::Antigravity,
        15 => ProviderId::Copilot,
        16 => ProviderId::Devin,
        17 => ProviderId::Zai,
        18 => ProviderId::MiniMax,
        19 => ProviderId::Manus,
        20 => ProviderId::Kimi,
        21 => ProviderId::Kilo,
        22 => ProviderId::Kiro,
        23 => ProviderId::VertexAi,
        24 => ProviderId::Augment,
        25 => ProviderId::JetBrains,
        26 => ProviderId::Moonshot,
        27 => ProviderId::Amp,
        28 => ProviderId::T3Chat,
        29 => ProviderId::Ollama,
        30 => ProviderId::Synthetic,
        31 => ProviderId::OpenRouter,
        32 => ProviderId::ElevenLabs,
        33 => ProviderId::Warp,
        34 => ProviderId::Windsurf,
        35 => ProviderId::Zed,
        36 => ProviderId::Perplexity,
        37 => ProviderId::Mimo,
        38 => ProviderId::Doubao,
        39 => ProviderId::Sakana,
        40 => ProviderId::Abacus,
        41 => ProviderId::Mistral,
        42 => ProviderId::DeepSeek,
        43 => ProviderId::DeepInfra,
        44 => ProviderId::Codebuff,
        45 => ProviderId::Crof,
        46 => ProviderId::Venice,
        47 => ProviderId::CommandCode,
        48 => ProviderId::Qoder,
        49 => ProviderId::StepFun,
        50 => ProviderId::Bedrock,
        51 => ProviderId::Grok,
        52 => ProviderId::Groq,
        53 => ProviderId::LlmProxy,
        54 => ProviderId::LiteLlm,
        55 => ProviderId::Deepgram,
        56 => ProviderId::Poe,
        57 => ProviderId::Chutes,
        58 => ProviderId::Neuralwatt,
        59 => ProviderId::ClawRouter,
        60 => ProviderId::LongCat,
        61 => ProviderId::Sub2Api,
        62 => ProviderId::Wayfinder,
        63 => ProviderId::ZenMux,
        64 => ProviderId::AiAnd,
        65 => ProviderId::ZoomMate,
        66 => ProviderId::Xai,
        67 => ProviderId::Notion,
        _ => ProviderId::IbmBob,
    }
}

/// The text of a shown name.
pub open spec fn shown_name(name: Option<&'static str>) -> Option<Seq<char>> {
    match name {
        Some(n) => Some(n@),
        None => None,
    }
}

/// The registry: every provider at its position, with its display name.
pub fn providers() -> (r: Vec<ProviderMetadata>)
    ensures
        r@.len() == PROVIDER_COUNT,
        forall|i: int|
            0 <= i < r@.len() ==> (#[trigger] r@[i]).id.position() == i && shown_name(
                r@[i].display_name,
            ) == r@[i].id.label(),
{
    let mut r: Vec<ProviderMetadata> = Vec::new();
    let mut i: usize = 0;
    while i < PROVIDER_COUNT
        invariant
            i <= PROVIDER_COUNT,
            r@.len() == i,
            forall|k: int|
                0 <= k < i ==> (#[trigger] r@[k]).id.position() == k && shown_name(
                    r@[k].display_name,
                ) == r@[k].id.label(),
        decreases PROVIDER_COUNT - i,
    {
        let id = provider_at(i);
        r.push(ProviderMetadata { id, display_name: id.display_name() });
        i += 1;
    }
    r
}

} // verus!
