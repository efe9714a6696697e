//! The settings that requests to an OpenAI-compatible API start from, taken from a client's
//! default options.
use vstd::prelude::*;
use crate::options::{GenericOpenAI, ReasoningEffort};
use crate::responses::{convert_metadata, spec_converted_metadata};
use crate::text::{copy_opt, opt_view};
use crate::tool_schema::JsonValue;

verus! {

/// What a chat-completions request starts from.
#[derive(Debug)]
pub struct ChatRequestDefaults {
    pub parallel_tool_calls: Option<bool>,
    pub max_completion_tokens: Option<u32>,
    /// The sampling temperature, as `f32` bits.
    pub temperature: Option<u32>,
    pub reasoning_effort: Option<ReasoningEffort>,
    pub seed: Option<i64>,
    /// The presence penalty, as `f32` bits.
    pub presence_penalty: Option<u32>,
    /// The request metadata, as JSON text.
    pub metadata: Option<String>,
    pub user: Option<String>,
}

/// What an embeddings request starts from.
#[derive(Debug)]
pub struct EmbedRequestDefaults {
    pub user: Option<String>,
    pub dimensions: Option<u32>,
}

/// The reasoning settings of a Responses API request.
#[derive(Debug)]
pub struct ResponsesReasoning {
    pub effort: ReasoningEffort,
    /// Whether the model is asked for an automatic summary of its reasoning.
    pub summary_auto: bool,
}

/// What a Responses API request starts from.
#[derive(Debug)]
pub struct ResponsesRequestArgs {
    pub model: String,
    pub parallel_tool_calls: Option<bool>,
    pub max_output_tokens: Option<u32>,
    /// The sampling temperature, as `f32` bits.
    pub temperature: Option<u32>,
    pub reasoning: Option<ResponsesReasoning>,
    /// Whether the encrypted reasoning content is asked back.
    pub include_encrypted_reasoning: bool,
    /// Whether the response is stored by the API, when set.
    pub store: Option<bool>,
    pub metadata: Option<Vec<(String, String)>>,
}

impl GenericOpenAI {
    /// The settings a chat-completions request starts from: every default option the request
    /// takes, as set.
    pub fn chat_completion_request_defaults(&self) -> (r: ChatRequestDefaults)
        ensures
            r.parallel_tool_calls == self.default_options@.parallel_tool_calls,
            r.max_completion_tokens == self.default_options@.max_completion_tokens,
            r.temperature == self.default_options@.temperature,
            r.reasoning_effort == self.default_options@.reasoning_effort,
            r.seed == self.default_options@.seed,
            r.presence_penalty == self.default_options@.presence_penalty,
            opt_view(r.metadata) == self.default_options@.metadata,
            opt_view(r.user) == self.default_options@.user,
    {
        let options = &self.default_options;
        ChatRequestDefaults {
            parallel_tool_calls: options.parallel_tool_calls,
            max_completion_tokens: options.max_completion_tokens,
            temperature: options.temperature,
            reasoning_effort: options.reasoning_effort,
            seed: options.seed,
            presence_penalty: options.presence_penalty,
            metadata: copy_opt(&options.metadata),
            user: copy_opt(&options.user),
        }
    }

    /// The settings an embeddings request starts from: the end-user and the number of
    /// dimensions, as set.
    pub fn embed_request_defaults(&self) -> (r: EmbedRequestDefaults)
        ensures
            opt_view(r.user) == self.default_options@.user,
            r.dimensions == self.default_options@.dimensions,
    {
        EmbedRequestDefaults {
            user: copy_opt(&self.default_options.user),
            dimensions: self.default_options.dimensions,
        }
    }

    /// The settings a Responses API request for `model` starts from, where `metadata` is the
    /// default metadata read as JSON: tool-call parallelism, the output token limit and the
    /// temperature as set; with a reasoning effort, that effort with an automatic summary, the
    /// encrypted reasoning content asked back and nothing stored; the metadata when it is a flat
    /// map of strings (see [`convert_metadata`]). The seed and the presence penalty are not
    /// taken, as the Responses API has neither.
    pub fn base_request_args(&self, model: &str, metadata: Option<&JsonValue>) -> (r: ResponsesRequestArgs)
        ensures
            r.model@ == model@,
            r.parallel_tool_calls == self.default_options@.parallel_tool_calls,
            r.max_output_tokens == self.default_options@.max_completion_tokens,
            r.temperature == self.default_options@.temperature,
            match self.default_options@.reasoning_effort {
                Some(e) => r.reasoning matches Some(reasoning) && reasoning.effort == e
                    && reasoning.summary_auto && r.include_encrypted_reasoning && r.store
                    == Some(false),
                None => r.reasoning is None && !r.include_encrypted_reasoning && r.store is None,
            },
            match metadata {
                Some(m) => spec_converted_metadata(*m, r.metadata),
                None => r.metadata is None,
            },
    {
        let options = &self.default_options;
        let (reasoning, include_encrypted_reasoning, store) = match options.reasoning_effort {
            Some(effort) => (Some(ResponsesReasoning { effort, summary_auto: true }), true, Some(false)),
            None => (None, false, None),
        };
        let metadata = match metadata {
            Some(m) => convert_metadata(m),
            None => None,
        };
        ResponsesRequestArgs {
            model: model.to_owned(),
            parallel_tool_calls: options.parallel_tool_calls,
            max_output_tokens: options.max_completion_tokens,
            temperature: options.temperature,
            reasoning,
            include_encrypted_reasoning,
            store,
            metadata,
        }
    }
}

} // verus!
