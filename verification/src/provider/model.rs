//! Wire protocols and the per-provider flags of OpenAI-compatible endpoints.
use vstd::prelude::*;
use crate::strs::to_owned_string;

verus! {

broadcast use vstd::string::group_string_axioms;

/// The wire protocol a model is reached through.
#[derive(PartialEq, Eq, Structural, Clone, Copy, Debug, Hash)]
pub enum ApiProtocol {
    AnthropicMessages,
    OpenAiCompletions,
    OpenAiResponses,
    AzureOpenAiResponses,
    GoogleGenerativeAi,
    GoogleVertex,
    BedrockConverseStream,
}

/// The snake_case name of a protocol.
pub open spec fn protocol_name(p: ApiProtocol) -> Seq<char> {
    match p {
        ApiProtocol::AnthropicMessages => "anthropic_messages"@,
        ApiProtocol::OpenAiCompletions => "openai_completions"@,
        ApiProtocol::OpenAiResponses => "openai_responses"@,
        ApiProtocol::AzureOpenAiResponses => "azure_openai_responses"@,
        ApiProtocol::GoogleGenerativeAi => "google_generative_ai"@,
        ApiProtocol::GoogleVertex => "google_vertex"@,
        ApiProtocol::BedrockConverseStream => "bedrock_converse_stream"@,
    }
}

impl ApiProtocol {
    /// The snake_case name of the protocol, as it is displayed and serialized.
    pub fn as_str(&self) -> (r: &'static str)
        ensures
            r@ == protocol_name(*self),
    {
        match self {
            ApiProtocol::AnthropicMessages => "anthropic_messages",
            ApiProtocol::OpenAiCompletions => "openai_completions",
            ApiProtocol::OpenAiResponses => "openai_responses",
            ApiProtocol::AzureOpenAiResponses => "azure_openai_responses",
            ApiProtocol::GoogleGenerativeAi => "google_generative_ai",
            ApiProtocol::GoogleVertex => "google_vertex",
            ApiProtocol::BedrockConverseStream => "bedrock_converse_stream",
        }
    }

    /// The displayed name of the protocol.
    pub fn to_string(&self) -> (r: String)
        ensures
            r@ == protocol_name(*self),
    {
        to_owned_string(self.as_str())
    }
}

/// Which request field carries the output token limit.
#[derive(PartialEq, Eq, Structural, Clone, Copy, Debug)]
pub enum MaxTokensField {
    MaxTokens,
    MaxCompletionTokens,
}

impl Default for MaxTokensField {
    fn default() -> (r: Self)
        ensures
            r == MaxTokensField::MaxTokens,
    {
        MaxTokensField::MaxTokens
    }
}

/// How a provider streams reasoning output.
#[derive(PartialEq, Eq, Structural, Clone, Copy, Debug)]
pub enum ThinkingFormat {
    OpenAi,
    Xai,
    Qwen,
}

impl Default for ThinkingFormat {
    fn default() -> (r: Self)
        ensures
            r == ThinkingFormat::OpenAi,
    {
        ThinkingFormat::OpenAi
    }
}

/// The deviations of an OpenAI-compatible provider from the reference API.
#[derive(PartialEq, Eq, Structural, Clone, Copy, Debug)]
pub struct OpenAiCompat {
    pub supports_store: bool,
    pub supports_developer_role: bool,
    pub supports_reasoning_effort: bool,
    pub supports_usage_in_streaming: bool,
    pub max_tokens_field: MaxTokensField,
    pub requires_tool_result_name: bool,
    pub requires_assistant_after_tool_result: bool,
    pub thinking_format: ThinkingFormat,
}

/// The flags of a generic OpenAI-compatible endpoint.
pub open spec fn default_compat() -> OpenAiCompat {
    OpenAiCompat {
        supports_store: false,
        supports_developer_role: false,
        supports_reasoning_effort: false,
        supports_usage_in_streaming: true,
        max_tokens_field: MaxTokensField::MaxTokens,
        requires_tool_result_name: false,
        requires_assistant_after_tool_result: false,
        thinking_format: ThinkingFormat::OpenAi,
    }
}

impl Default for OpenAiCompat {
    fn default() -> (r: Self)
        ensures
            r == default_compat(),
    {
        OpenAiCompat {
            supports_store: false,
            supports_developer_role: false,
            supports_reasoning_effort: false,
            supports_usage_in_streaming: true,
            max_tokens_field: MaxTokensField::MaxTokens,
            requires_tool_result_name: false,
            requires_assistant_after_tool_result: false,
            thinking_format: ThinkingFormat::OpenAi,
        }
    }
}

impl OpenAiCompat {
    /// OpenAI itself: `store`, the developer role and reasoning effort, and
    /// `max_completion_tokens`.
    pub fn openai() -> (r: Self)
        ensures
            r == (OpenAiCompat {
                supports_store: true,
                supports_developer_role: true,
                supports_reasoning_effort: true,
                max_tokens_field: MaxTokensField::MaxCompletionTokens,
                ..default_compat()
            }),
    {
        OpenAiCompat {
            supports_store: true,
            supports_developer_role: true,
            supports_reasoning_effort: true,
            supports_usage_in_streaming: true,
            max_tokens_field: MaxTokensField::MaxCompletionTokens,
            ..OpenAiCompat::default()
        }
    }

    /// xAI (Grok): its own reasoning format.
    pub fn xai() -> (r: Self)
        ensures
            r == (OpenAiCompat { thinking_format: ThinkingFormat::Xai, ..default_compat() }),
    {
        OpenAiCompat { supports_usage_in_streaming: true, thinking_format: ThinkingFormat::Xai, ..OpenAiCompat::default() }
    }

    /// Groq: the generic flags.
    pub fn groq() -> (r: Self)
        ensures
            r == default_compat(),
    {
        OpenAiCompat { supports_usage_in_streaming: true, ..OpenAiCompat::default() }
    }

    /// Cerebras: the generic flags.
    pub fn cerebras() -> (r: Self)
        ensures
            r == default_compat(),
    {
        OpenAiCompat::default()
    }

    /// OpenRouter: `max_completion_tokens`.
    pub fn openrouter() -> (r: Self)
        ensures
            r == (OpenAiCompat { max_tokens_field: MaxTokensField::MaxCompletionTokens, ..default_compat() }),
    {
        OpenAiCompat {
            supports_usage_in_streaming: true,
            max_tokens_field: MaxTokensField::MaxCompletionTokens,
            ..OpenAiCompat::default()
        }
    }

    /// Mistral: the generic flags.
    pub fn mistral() -> (r: Self)
        ensures
            r == default_compat(),
    {
        OpenAiCompat {
            supports_usage_in_streaming: true,
            max_tokens_field: MaxTokensField::MaxTokens,
            ..OpenAiCompat::default()
        }
    }

    /// DeepSeek: `max_completion_tokens`.
    pub fn deepseek() -> (r: Self)
        ensures
            r == (OpenAiCompat { max_tokens_field: MaxTokensField::MaxCompletionTokens, ..default_compat() }),
    {
        OpenAiCompat {
            supports_usage_in_streaming: true,
            max_tokens_field: MaxTokensField::MaxCompletionTokens,
            ..OpenAiCompat::default()
        }
    }
}

} // verus!
