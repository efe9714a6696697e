//! Default options of an OpenAI-compatible client, and the builder that collects them.
use vstd::prelude::*;
use crate::text::{opt_view, copy_opt};

verus! {

/// How much effort a reasoning model spends.
#[derive(Debug, PartialEq, Eq, Structural, Clone, Copy)]
pub enum ReasoningEffort {
    Minimal,
    Low,
    Medium,
    High,
}

/// Default options for embedding and prompt requests.
///
/// Floating-point settings are held as the bits of their `f32` value, and the request metadata as
/// its JSON text.
pub struct Options {
    /// The default embedding model.
    pub embed_model: Option<String>,
    /// The default prompt model.
    pub prompt_model: Option<String>,
    /// Whether completions may call tools in parallel.
    pub parallel_tool_calls: Option<bool>,
    /// The maximum number of tokens to generate in a completion.
    pub max_completion_tokens: Option<u32>,
    /// The sampling temperature, as `f32` bits.
    pub temperature: Option<u32>,
    /// The reasoning effort of reasoning models.
    pub reasoning_effort: Option<ReasoningEffort>,
    /// The seed for best-effort deterministic sampling.
    pub seed: Option<i64>,
    /// The presence penalty, as `f32` bits.
    pub presence_penalty: Option<u32>,
    /// Tags and values for filtering completions, as JSON text.
    pub metadata: Option<String>,
    /// The end-user on whose behalf requests are made.
    pub user: Option<String>,
    /// The number of dimensions of embeddings.
    pub dimensions: Option<u32>,
}

/// `b` when it is set, `a` otherwise.
pub open spec fn spec_override<T>(a: Option<T>, b: Option<T>) -> Option<T> {
    match b {
        Some(x) => Some(x),
        None => a,
    }
}

/// Options as plain values.
pub struct OptionsView {
    pub embed_model: Option<Seq<char>>,
    pub prompt_model: Option<Seq<char>>,
    pub parallel_tool_calls: Option<bool>,
    pub max_completion_tokens: Option<u32>,
    pub temperature: Option<u32>,
    pub reasoning_effort: Option<ReasoningEffort>,
    pub seed: Option<i64>,
    pub presence_penalty: Option<u32>,
    pub metadata: Option<Seq<char>>,
    pub user: Option<Seq<char>>,
    pub dimensions: Option<u32>,
}

impl View for Options {
    type V = OptionsView;

    open spec fn view(&self) -> OptionsView {
        OptionsView {
            embed_model: opt_view(self.embed_model),
            prompt_model: opt_view(self.prompt_model),
            parallel_tool_calls: self.parallel_tool_calls,
            max_completion_tokens: self.max_completion_tokens,
            temperature: self.temperature,
            reasoning_effort: self.reasoning_effort,
            seed: self.seed,
            presence_penalty: self.presence_penalty,
            metadata: opt_view(self.metadata),
            user: opt_view(self.user),
            dimensions: self.dimensions,
        }
    }
}

/// Options with nothing set.
pub open spec fn spec_empty_options() -> OptionsView {
    OptionsView {
        embed_model: None,
        prompt_model: None,
        parallel_tool_calls: None,
        max_completion_tokens: None,
        temperature: None,
        reasoning_effort: None,
        seed: None,
        presence_penalty: None,
        metadata: None,
        user: None,
        dimensions: None,
    }
}

/// `a` extended with `b`: every option set in `b` replaces the one in `a`.
pub open spec fn spec_merge(a: OptionsView, b: OptionsView) -> OptionsView {
    OptionsView {
        embed_model: spec_override(a.embed_model, b.embed_model),
        prompt_model: spec_override(a.prompt_model, b.prompt_model),
        parallel_tool_calls: spec_override(a.parallel_tool_calls, b.parallel_tool_calls),
        max_completion_tokens: spec_override(a.max_completion_tokens, b.max_completion_tokens),
        temperature: spec_override(a.temperature, b.temperature),
        reasoning_effort: spec_override(a.reasoning_effort, b.reasoning_effort),
        seed: spec_override(a.seed, b.seed),
        presence_penalty: spec_override(a.presence_penalty, b.presence_penalty),
        metadata: spec_override(a.metadata, b.metadata),
        user: spec_override(a.user, b.user),
        dimensions: spec_override(a.dimensions, b.dimensions),
    }
}

impl Options {
    /// Options with nothing set.
    pub fn empty() -> (r: Options)
        ensures
            r@ == spec_empty_options(),
    {
        Options {
            embed_model: None,
            prompt_model: None,
            parallel_tool_calls: None,
            max_completion_tokens: None,
            temperature: None,
            reasoning_effort: None,
            seed: None,
            presence_penalty: None,
            metadata: None,
            user: None,
            dimensions: None,
        }
    }

    /// A builder with nothing set.
    pub fn builder() -> (r: OptionsBuilder)
        ensures
            r.options@ == spec_empty_options(),
    {
        OptionsBuilder { options: Options::empty() }
    }

    /// A copy of the options.
    pub fn copy(&self) -> (r: Options)
        ensures
            r@ == self@,
    {
        Options {
            embed_model: copy_opt(&self.embed_model),
            prompt_model: copy_opt(&self.prompt_model),
            parallel_tool_calls: self.parallel_tool_calls,
            max_completion_tokens: self.max_completion_tokens,
            temperature: self.temperature,
            reasoning_effort: self.reasoning_effort,
            seed: self.seed,
            presence_penalty: self.presence_penalty,
            metadata: copy_opt(&self.metadata),
            user: copy_opt(&self.user),
            dimensions: self.dimensions,
        }
    }

    /// Extends the options with `other` (see [`spec_merge`]).
    pub fn merge(&mut self, other: &Options)
        ensures
            final(self)@ == spec_merge(old(self)@, other@),
    {
        if other.embed_model.is_some() {
            self.embed_model = copy_opt(&other.embed_model);
        }
        if other.prompt_model.is_some() {
            self.prompt_model = copy_opt(&other.prompt_model);
        }
        if let Some(p) = other.parallel_tool_calls {
            self.parallel_tool_calls = Some(p);
        }
        if let Some(m) = other.max_completion_tokens {
            self.max_completion_tokens = Some(m);
        }
        if let Some(t) = other.temperature {
            self.temperature = Some(t);
        }
        if let Some(e) = other.reasoning_effort {
            self.reasoning_effort = Some(e);
        }
        if let Some(s) = other.seed {
            self.seed = Some(s);
        }
        if let Some(p) = other.presence_penalty {
            self.presence_penalty = Some(p);
        }
        if other.metadata.is_some() {
            self.metadata = copy_opt(&other.metadata);
        }
        if other.user.is_some() {
            self.user = copy_opt(&other.user);
        }
        if let Some(d) = other.dimensions {
            self.dimensions = Some(d);
        }
    }
}

/// Merging options with options that set nothing leaves them as they are.
pub proof fn lemma_merge_identity(a: OptionsView)
    ensures
        spec_merge(a, spec_empty_options()) == a,
{
}

/// Merging is associative: extending with `b` and then with `c` is extending with `b` already
/// extended with `c`.
pub proof fn lemma_merge_associative(a: OptionsView, b: OptionsView, c: OptionsView)
    ensures
        spec_merge(spec_merge(a, b), c) == spec_merge(a, spec_merge(b, c)),
{
}

/// Builder for [`Options`].
pub struct OptionsBuilder {
    pub options: Options,
}

impl OptionsBuilder {
    /// Sets the default embedding model.
    pub fn embed_model(self, model: &str) -> (r: OptionsBuilder)
        ensures
            r.options@ == (OptionsView { embed_model: Some(model@), ..self.options@ }),
    {
        let mut options = self.options;
        options.embed_model = Some(model.to_owned());
        OptionsBuilder { options }
    }

    /// Sets the default prompt model.
    pub fn prompt_model(self, model: &str) -> (r: OptionsBuilder)
        ensures
            r.options@ == (OptionsView { prompt_model: Some(model@), ..self.options@ }),
    {
        let mut options = self.options;
        options.prompt_model = Some(model.to_owned());
        OptionsBuilder { options }
    }

    /// Sets whether tools may be called in parallel.
    pub fn parallel_tool_calls(self, enabled: bool) -> (r: OptionsBuilder)
        ensures
            r.options@ == (OptionsView { parallel_tool_calls: Some(enabled), ..self.options@ }),
    {
        let mut options = self.options;
        options.parallel_tool_calls = Some(enabled);
        OptionsBuilder { options }
    }

    /// Sets the maximum number of completion tokens.
    pub fn max_completion_tokens(self, tokens: u32) -> (r: OptionsBuilder)
        ensures
            r.options@ == (OptionsView { max_completion_tokens: Some(tokens), ..self.options@ }),
    {
        let mut options = self.options;
        options.max_completion_tokens = Some(tokens);
        OptionsBuilder { options }
    }

    /// Sets the temperature, given as the bits of an `f32`.
    pub fn temperature(self, bits: u32) -> (r: OptionsBuilder)
        ensures
            r.options@ == (OptionsView { temperature: Some(bits), ..self.options@ }),
    {
        let mut options = self.options;
        options.temperature = Some(bits);
        OptionsBuilder { options }
    }

    /// Sets the reasoning effort.
    pub fn reasoning_effort(self, effort: ReasoningEffort) -> (r: OptionsBuilder)
        ensures
            r.options@ == (OptionsView { reasoning_effort: Some(effort), ..self.options@ }),
    {
        let mut options = self.options;
        options.reasoning_effort = Some(effort);
        OptionsBuilder { options }
    }

    /// Sets the seed.
    pub fn seed(self, seed: i64) -> (r: OptionsBuilder)
        ensures
            r.options@ == (OptionsView { seed: Some(seed), ..self.options@ }),
    {
        let mut options = self.options;
        options.seed = Some(seed);
        OptionsBuilder { options }
    }

    /// Sets the presence penalty, given as the bits of an `f32`.
    pub fn presence_penalty(self, bits: u32) -> (r: OptionsBuilder)
        ensures
            r.options@ == (OptionsView { presence_penalty: Some(bits), ..self.options@ }),
    {
        let mut options = self.options;
        options.presence_penalty = Some(bits);
        OptionsBuilder { options }
    }

    /// Sets the request metadata, given as JSON text.
    pub fn metadata(self, json: &str) -> (r: OptionsBuilder)
        ensures
            r.options@ == (OptionsView { metadata: Some(json@), ..self.options@ }),
    {
        let mut options = self.options;
        options.metadata = Some(json.to_owned());
        OptionsBuilder { options }
    }

    /// Sets the end-user.
    pub fn user(self, user: &str) -> (r: OptionsBuilder)
        ensures
            r.options@ == (OptionsView { user: Some(user@), ..self.options@ }),
    {
        let mut options = self.options;
        options.user = Some(user.to_owned());
        OptionsBuilder { options }
    }

    /// Sets the number of embedding dimensions.
    pub fn dimensions(self, dimensions: u32) -> (r: OptionsBuilder)
        ensures
            r.options@ == (OptionsView { dimensions: Some(dimensions), ..self.options@ }),
    {
        let mut options = self.options;
        options.dimensions = Some(dimensions);
        OptionsBuilder { options }
    }

    /// The options set so far.
    pub fn build(self) -> (r: Options)
        ensures
            r@ == self.options@,
    {
        self.options
    }
}

/// The settings of an OpenAI-compatible client: its default options, whether streams carry the
/// full response, and whether the Responses API is used.
pub struct GenericOpenAI {
    pub default_options: Options,
    pub stream_full: bool,
    pub use_responses_api: bool,
}

/// Builder for [`GenericOpenAI`].
pub struct GenericOpenAIBuilder {
    pub default_options: Option<Options>,
    pub stream_full: Option<bool>,
    pub use_responses_api: Option<bool>,
}

/// The view of optional options.
pub open spec fn opt_options(o: Option<Options>) -> Option<OptionsView> {
    match o {
        Some(x) => Some(x@),
        None => None,
    }
}

/// The default options after one of them is set: the existing options with that one changed, or
/// options with only that one set when there were none.
pub open spec fn spec_set_default(
    current: Option<OptionsView>,
    set: spec_fn(OptionsView) -> OptionsView,
) -> Option<OptionsView> {
    match current {
        Some(o) => Some(set(o)),
        None => Some(set(spec_empty_options())),
    }
}

impl GenericOpenAIBuilder {
    /// A builder with nothing set.
    pub fn new() -> (r: GenericOpenAIBuilder)
        ensures
            r.default_options is None,
            r.stream_full is None,
            r.use_responses_api is None,
    {
        GenericOpenAIBuilder { default_options: None, stream_full: None, use_responses_api: None }
    }

    fn take_options(&mut self) -> (r: Options)
        ensures
            r@ == match opt_options(old(self).default_options) {
                Some(o) => o,
                None => spec_empty_options(),
            },
            final(self).stream_full == old(self).stream_full,
            final(self).use_responses_api == old(self).use_responses_api,
    {
        let current = self.default_options.take();
        match current {
            Some(o) => o,
            None => Options::empty(),
        }
    }

    /// Sets the default embedding model.
    pub fn default_embed_model(&mut self, model: &str) -> (r: &mut GenericOpenAIBuilder)
        ensures
            opt_options(r.default_options) == spec_set_default(
                opt_options(old(self).default_options),
                |o: OptionsView| OptionsView { embed_model: Some(model@), ..o },
            ),
            r.stream_full == old(self).stream_full,
            r.use_responses_api == old(self).use_responses_api,
            *final(self) == *final(r),
    {
        let mut options = self.take_options();
        options.embed_model = Some(model.to_owned());
        self.default_options = Some(options);
        self
    }

    /// Sets the end-user on whose behalf requests are made.
    pub fn for_end_user(&mut self, user: &str) -> (r: &mut GenericOpenAIBuilder)
        ensures
            opt_options(r.default_options) == spec_set_default(
                opt_options(old(self).default_options),
                |o: OptionsView| OptionsView { user: Some(user@), ..o },
            ),
            r.stream_full == old(self).stream_full,
            r.use_responses_api == old(self).use_responses_api,
            *final(self) == *final(r),
    {
        let mut options = self.take_options();
        options.user = Some(user.to_owned());
        self.default_options = Some(options);
        self
    }

    /// Enables or disables parallel tool calls, or leaves them to the provider with `None`.
    pub fn parallel_tool_calls(&mut self, parallel_tool_calls: Option<bool>) -> (r:
        &mut GenericOpenAIBuilder)
        ensures
            opt_options(r.default_options) == spec_set_default(
                opt_options(old(self).default_options),
                |o: OptionsView| OptionsView { parallel_tool_calls: parallel_tool_calls, ..o },
            ),
            r.stream_full == old(self).stream_full,
            r.use_responses_api == old(self).use_responses_api,
            *final(self) == *final(r),
    {
        let mut options = self.take_options();
        options.parallel_tool_calls = parallel_tool_calls;
        self.default_options = Some(options);
        self
    }

    /// Sets the default prompt model.
    pub fn default_prompt_model(&mut self, model: &str) -> (r: &mut GenericOpenAIBuilder)
        ensures
            opt_options(r.default_options) == spec_set_default(
                opt_options(old(self).default_options),
                |o: OptionsView| OptionsView { prompt_model: Some(model@), ..o },
            ),
            r.stream_full == old(self).stream_full,
            r.use_responses_api == old(self).use_responses_api,
            *final(self) == *final(r),
    {
        let mut options = self.take_options();
        options.prompt_model = Some(model.to_owned());
        self.default_options = Some(options);
        self
    }

    /// Sets the default options, merged into those already set.
    pub fn default_options(&mut self, options: Options) -> (r: &mut GenericOpenAIBuilder)
        ensures
            opt_options(r.default_options) == Some(
                match opt_options(old(self).default_options) {
                    Some(o) => spec_merge(o, options@),
                    None => options@,
                },
            ),
            r.stream_full == old(self).stream_full,
            r.use_responses_api == old(self).use_responses_api,
            *final(self) == *final(r),
    {
        let current = self.default_options.take();
        match current {
            Some(mut o) => {
                o.merge(&options);
                self.default_options = Some(o);
            },
            None => {
                self.default_options = Some(options);
            },
        }
        self
    }

    /// Sets whether streams carry the full response.
    pub fn stream_full(&mut self, stream_full: bool) -> (r: &mut GenericOpenAIBuilder)
        ensures
            r.stream_full == Some(stream_full),
            opt_options(r.default_options) == opt_options(old(self).default_options),
            r.use_responses_api == old(self).use_responses_api,
            *final(self) == *final(r),
    {
        self.stream_full = Some(stream_full);
        self
    }

    /// Sets whether the Responses API is used.
    pub fn use_responses_api(&mut self, enabled: bool) -> (r: &mut GenericOpenAIBuilder)
        ensures
            r.use_responses_api == Some(enabled),
            opt_options(r.default_options) == opt_options(old(self).default_options),
            r.stream_full == old(self).stream_full,
            *final(self) == *final(r),
    {
        self.use_responses_api = Some(enabled);
        self
    }

    /// The settings: options default to none set, streams carry the full response unless set
    /// otherwise, and the Responses API is off unless set.
    pub fn build(&mut self) -> (r: GenericOpenAI)
        ensures
            r.default_options@ == match opt_options(old(self).default_options) {
                Some(o) => o,
                None => spec_empty_options(),
            },
            r.stream_full == match old(self).stream_full {
                Some(b) => b,
                None => true,
            },
            r.use_responses_api == match old(self).use_responses_api {
                Some(b) => b,
                None => false,
            },
            opt_options(final(self).default_options) == opt_options(old(self).default_options),
    {
        let default_options = match &self.default_options {
            Some(o) => o.copy(),
            None => Options::empty(),
        };
        let stream_full = match self.stream_full {
            Some(b) => b,
            None => true,
        };
        let use_responses_api = match self.use_responses_api {
            Some(b) => b,
            None => false,
        };
        GenericOpenAI { default_options, stream_full, use_responses_api }
    }
}

impl GenericOpenAI {
    /// Sets the default prompt model, keeping the other options.
    pub fn with_default_prompt_model(&mut self, model: &str) -> (r: &mut GenericOpenAI)
        ensures
            r.default_options@ == (OptionsView { prompt_model: Some(model@), ..old(self).default_options@ }),
            r.stream_full == old(self).stream_full,
            r.use_responses_api == old(self).use_responses_api,
            *final(self) == *final(r),
    {
        self.default_options.prompt_model = Some(model.to_owned());
        self
    }

    /// Sets the default embedding model, keeping the other options.
    pub fn with_default_embed_model(&mut self, model: &str) -> (r: &mut GenericOpenAI)
        ensures
            r.default_options@ == (OptionsView { embed_model: Some(model@), ..old(self).default_options@ }),
            r.stream_full == old(self).stream_full,
            r.use_responses_api == old(self).use_responses_api,
            *final(self) == *final(r),
    {
        self.default_options.embed_model = Some(model.to_owned());
        self
    }

    /// The default options.
    pub fn options(&self) -> (r: &Options)
        ensures
            r@ == self.default_options@,
    {
        &self.default_options
    }

    /// The default options, to change in place; nothing else of the client changes.
    pub fn options_mut(&mut self) -> (r: &mut Options)
        ensures
            *r == old(self).default_options,
            final(self).default_options == *final(r),
            final(self).stream_full == old(self).stream_full,
            final(self).use_responses_api == old(self).use_responses_api,
    {
        &mut self.default_options
    }

    /// Whether the Responses API is used.
    pub fn is_responses_api_enabled(&self) -> (r: bool)
        ensures
            r == self.use_responses_api,
    {
        self.use_responses_api
    }
}

} // verus!
