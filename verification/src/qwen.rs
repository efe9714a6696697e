//! The models of Alibaba's Qwen API and the default options of a Qwen client.
use vstd::prelude::*;
use crate::text::{append_chars, chars_of, string_from_chars};

verus! {

/// A Qwen prompt model.
#[derive(Debug, PartialEq, Eq, Structural, Clone, Copy)]
pub enum QwenModel {
    Max,
    Plus,
    Turbo,
    Long,
}

/// A Qwen embedding model.
#[derive(Debug, PartialEq, Eq, Structural, Clone, Copy)]
pub enum QwenEmbedding {
    TextEmbeddingV1,
    TextEmbeddingV2,
    TextEmbeddingV3,
    TextEmbeddingAsyncV1,
    TextEmbeddingAsyncV2,
}

/// The API name of a prompt model.
pub open spec fn spec_model_name(m: QwenModel) -> Seq<char> {
    match m {
        QwenModel::Max => seq!['q', 'w', 'e', 'n', '-', 'm', 'a', 'x'],
        QwenModel::Plus => seq!['q', 'w', 'e', 'n', '-', 'p', 'l', 'u', 's'],
        QwenModel::Turbo => seq!['q', 'w', 'e', 'n', '-', 't', 'u', 'r', 'b', 'o'],
        QwenModel::Long => seq!['q', 'w', 'e', 'n', '-', 'l', 'o', 'n', 'g'],
    }
}

/// `text-embedding-`.
pub open spec fn embedding_prefix() -> Seq<char> {
    seq!['t', 'e', 'x', 't', '-', 'e', 'm', 'b', 'e', 'd', 'd', 'i', 'n', 'g', '-']
}

/// The API name of an embedding model; the names of the asynchronous models end in two line
/// breaks.
pub open spec fn spec_embedding_name(e: QwenEmbedding) -> Seq<char> {
    match e {
        QwenEmbedding::TextEmbeddingV1 => embedding_prefix() + seq!['v', '1'],
        QwenEmbedding::TextEmbeddingV2 => embedding_prefix() + seq!['v', '2'],
        QwenEmbedding::TextEmbeddingV3 => embedding_prefix() + seq!['v', '3'],
        QwenEmbedding::TextEmbeddingAsyncV1 => embedding_prefix() + seq![
            'a',
            's',
            'y',
            'n',
            'c',
            '-',
            'v',
            '1',
            '\n',
            '\n',
        ],
        QwenEmbedding::TextEmbeddingAsyncV2 => embedding_prefix() + seq![
            'a',
            's',
            'y',
            'n',
            'c',
            '-',
            'v',
            '2',
            '\n',
            '\n',
        ],
    }
}

impl QwenModel {
    /// The default model, `Max`.
    pub fn default_model() -> (r: QwenModel)
        ensures
            r == QwenModel::Max,
    {
        QwenModel::Max
    }

    /// The API name of the model (see [`spec_model_name`]).
    pub fn to_display_string(&self) -> (r: String)
        ensures
            r@ == spec_model_name(*self),
    {
        let v: Vec<char> = match self {
            QwenModel::Max => vec!['q', 'w', 'e', 'n', '-', 'm', 'a', 'x'],
            QwenModel::Plus => vec!['q', 'w', 'e', 'n', '-', 'p', 'l', 'u', 's'],
            QwenModel::Turbo => vec!['q', 'w', 'e', 'n', '-', 't', 'u', 'r', 'b', 'o'],
            QwenModel::Long => vec!['q', 'w', 'e', 'n', '-', 'l', 'o', 'n', 'g'],
        };
        proof {
            assert(v@ =~= spec_model_name(*self));
        }
        string_from_chars(v.as_slice())
    }
}

impl QwenEmbedding {
    /// The default embedding model, `TextEmbeddingV1`.
    pub fn default_model() -> (r: QwenEmbedding)
        ensures
            r == QwenEmbedding::TextEmbeddingV1,
    {
        QwenEmbedding::TextEmbeddingV1
    }

    /// The API name of the model (see [`spec_embedding_name`]).
    pub fn to_display_string(&self) -> (r: String)
        ensures
            r@ == spec_embedding_name(*self),
    {
        let mut v: Vec<char> = vec![
            't',
            'e',
            'x',
            't',
            '-',
            'e',
            'm',
            'b',
            'e',
            'd',
            'd',
            'i',
            'n',
            'g',
            '-',
        ];
        let ghost prefix = v@;
        assert(prefix =~= embedding_prefix());
        match self {
            QwenEmbedding::TextEmbeddingV1 => {
                v.push('v');
                v.push('1');
            },
            QwenEmbedding::TextEmbeddingV2 => {
                v.push('v');
                v.push('2');
            },
            QwenEmbedding::TextEmbeddingV3 => {
                v.push('v');
                v.push('3');
            },
            QwenEmbedding::TextEmbeddingAsyncV1 => {
                v.push('a');
                v.push('s');
                v.push('y');
                v.push('n');
                v.push('c');
                v.push('-');
                v.push('v');
                v.push('1');
                v.push('\n');
                v.push('\n');
            },
            QwenEmbedding::TextEmbeddingAsyncV2 => {
                v.push('a');
                v.push('s');
                v.push('y');
                v.push('n');
                v.push('c');
                v.push('-');
                v.push('v');
                v.push('2');
                v.push('\n');
                v.push('\n');
            },
        }
        proof {
            assert(v@ =~= spec_embedding_name(*self));
        }
        string_from_chars(v.as_slice())
    }
}

/// Default options of a Qwen client.
pub struct QwenOptions {
    /// The default prompt model.
    pub prompt_model: Option<String>,
    /// The default embedding model.
    pub embed_model: Option<String>,
    /// The number of dimensions of embeddings.
    pub dimensions: u16,
}

/// Builder for [`QwenOptions`].
pub struct QwenOptionsBuilder {
    pub prompt_model: Option<String>,
    pub embed_model: Option<String>,
    pub dimensions: Option<u16>,
}

impl QwenOptionsBuilder {
    /// Sets the default prompt model.
    pub fn prompt_model(self, model: &str) -> (r: QwenOptionsBuilder)
        ensures
            r.prompt_model matches Some(m) && m@ == model@,
            r.embed_model == self.embed_model,
            r.dimensions == self.dimensions,
    {
        QwenOptionsBuilder { prompt_model: Some(model.to_owned()), embed_model: self.embed_model, dimensions: self.dimensions }
    }

    /// Sets the default embedding model.
    pub fn embed_model(self, model: &str) -> (r: QwenOptionsBuilder)
        ensures
            r.embed_model matches Some(m) && m@ == model@,
            r.prompt_model == self.prompt_model,
            r.dimensions == self.dimensions,
    {
        QwenOptionsBuilder { prompt_model: self.prompt_model, embed_model: Some(model.to_owned()), dimensions: self.dimensions }
    }

    /// Sets the number of dimensions of embeddings.
    pub fn dimensions(self, dimensions: u16) -> (r: QwenOptionsBuilder)
        ensures
            r.dimensions == Some(dimensions),
            r.prompt_model == self.prompt_model,
            r.embed_model == self.embed_model,
    {
        QwenOptionsBuilder { prompt_model: self.prompt_model, embed_model: self.embed_model, dimensions: Some(dimensions) }
    }

    /// The options set, with no models and no dimensions where nothing was set.
    pub fn build(self) -> (r: QwenOptions)
        ensures
            r.prompt_model == self.prompt_model,
            r.embed_model == self.embed_model,
            r.dimensions == match self.dimensions {
                Some(d) => d,
                None => 0,
            },
    {
        let dimensions = match self.dimensions {
            Some(d) => d,
            None => 0,
        };
        QwenOptions { prompt_model: self.prompt_model, embed_model: self.embed_model, dimensions }
    }
}

impl QwenOptions {
    /// A builder with nothing set.
    pub fn builder() -> (r: QwenOptionsBuilder)
        ensures
            r.prompt_model is None,
            r.embed_model is None,
            r.dimensions is None,
    {
        QwenOptionsBuilder { prompt_model: None, embed_model: None, dimensions: None }
    }

    /// Options with nothing set.
    pub fn empty() -> (r: QwenOptions)
        ensures
            r.prompt_model is None,
            r.embed_model is None,
            r.dimensions == 0,
    {
        QwenOptions { prompt_model: None, embed_model: None, dimensions: 0 }
    }
}

/// A Qwen client's settings.
pub struct Qwen {
    pub default_options: QwenOptions,
}

/// Builder for [`Qwen`].
pub struct QwenBuilder {
    pub default_options: Option<QwenOptions>,
}

impl Qwen {
    /// A builder with nothing set.
    pub fn builder() -> (r: QwenBuilder)
        ensures
            r.default_options is None,
    {
        QwenBuilder { default_options: None }
    }

    /// Makes `model` the prompt model; all other options go back to their defaults.
    pub fn with_default_prompt_model(&mut self, model: &QwenModel) -> (r: &mut Qwen)
        ensures
            r.default_options.prompt_model matches Some(s) && s@ == spec_model_name(*model),
            r.default_options.embed_model is None,
            r.default_options.dimensions == 0,
            *final(self) == *final(r),
    {
        self.default_options = QwenOptions {
            prompt_model: Some(model.to_display_string()),
            embed_model: None,
            dimensions: 0,
        };
        self
    }

    /// Makes `model` the embedding model; all other options go back to their defaults.
    pub fn with_default_embed_model(&mut self, model: &QwenEmbedding) -> (r: &mut Qwen)
        ensures
            r.default_options.embed_model matches Some(s) && s@ == spec_embedding_name(*model),
            r.default_options.prompt_model is None,
            r.default_options.dimensions == 0,
            *final(self) == *final(r),
    {
        self.default_options = QwenOptions {
            prompt_model: None,
            embed_model: Some(model.to_display_string()),
            dimensions: 0,
        };
        self
    }
}

impl QwenBuilder {
    /// Sets the default prompt model, keeping the other options set so far.
    pub fn default_prompt_model(&mut self, model: &QwenModel) -> (r: &mut QwenBuilder)
        ensures
            r.default_options matches Some(o) && o.prompt_model matches Some(s) && s@
                == spec_model_name(*model),
            match old(self).default_options {
                Some(o) => r.default_options->0.embed_model == o.embed_model
                    && r.default_options->0.dimensions == o.dimensions,
                None => r.default_options->0.embed_model is None && r.default_options->0.dimensions
                    == 0,
            },
            *final(self) == *final(r),
    {
        let mut options = match self.default_options.take() {
            Some(o) => o,
            None => QwenOptions::empty(),
        };
        options.prompt_model = Some(model.to_display_string());
        self.default_options = Some(options);
        self
    }

    /// Sets the default embedding model, keeping the other options set so far.
    pub fn default_embed_model(&mut self, model: &QwenEmbedding) -> (r: &mut QwenBuilder)
        ensures
            r.default_options matches Some(o) && o.embed_model matches Some(s) && s@
                == spec_embedding_name(*model),
            match old(self).default_options {
                Some(o) => r.default_options->0.prompt_model == o.prompt_model
                    && r.default_options->0.dimensions == o.dimensions,
                None => r.default_options->0.prompt_model is None
                    && r.default_options->0.dimensions == 0,
            },
            *final(self) == *final(r),
    {
        let mut options = match self.default_options.take() {
            Some(o) => o,
            None => QwenOptions::empty(),
        };
        options.embed_model = Some(model.to_display_string());
        self.default_options = Some(options);
        self
    }

    /// Sets the default options.
    pub fn default_options(&mut self, options: QwenOptions) -> (r: &mut QwenBuilder)
        ensures
            r.default_options == Some(options),
            *final(self) == *final(r),
    {
        self.default_options = Some(options);
        self
    }

    /// The settings, with default options unless some were set.
    pub fn build(&mut self) -> (r: Qwen)
        ensures
            match old(self).default_options {
                Some(o) => r.default_options.prompt_model == o.prompt_model
                    && r.default_options.embed_model == o.embed_model
                    && r.default_options.dimensions == o.dimensions,
                None => r.default_options.prompt_model is None
                    && r.default_options.embed_model is None && r.default_options.dimensions == 0,
            },
    {
        let default_options = match &self.default_options {
            Some(o) => QwenOptions {
                prompt_model: match &o.prompt_model {
                    Some(s) => Some(s.clone()),
                    None => None,
                },
                embed_model: match &o.embed_model {
                    Some(s) => Some(s.clone()),
                    None => None,
                },
                dimensions: o.dimensions,
            },
            None => QwenOptions::empty(),
        };
        Qwen { default_options }
    }
}

/// Where and with which key a Qwen client connects.
pub struct QwenConfig {
    pub api_base: String,
    pub api_key: String,
}

/// The key a Qwen client uses: the Qwen key when it is set, else the DashScope key when that is
/// set, else the empty key.
pub open spec fn spec_qwen_api_key(qwen: Option<Seq<char>>, dashscope: Option<Seq<char>>) -> Seq<
    char,
> {
    match qwen {
        Some(k) => k,
        None => match dashscope {
            Some(k) => k,
            None => Seq::empty(),
        },
    }
}

impl QwenConfig {
    /// The DashScope endpoint that speaks the OpenAI protocol, with the key chosen from the Qwen
    /// and DashScope keys (see [`spec_qwen_api_key`]).
    pub fn with_api_keys(qwen_api_key: Option<String>, dashscope_api_key: Option<String>) -> (r:
        QwenConfig)
        ensures
            r.api_base@ == "https://dashscope.aliyuncs.com/compatible-mode/v1"@,
            r.api_key@ == spec_qwen_api_key(
                crate::text::opt_view(qwen_api_key),
                crate::text::opt_view(dashscope_api_key),
            ),
    {
        let api_key = match qwen_api_key {
            Some(k) => k,
            None => match dashscope_api_key {
                Some(k) => k,
                None => String::new(),
            },
        };
        QwenConfig {
            api_base: "https://dashscope.aliyuncs.com/compatible-mode/v1".to_owned(),
            api_key,
        }
    }

    /// The address of the API path `path`: the base address followed by the path.
    pub fn url(&self, path: &str) -> (r: String)
        ensures
            r@ == self.api_base@ + path@,
    {
        let mut v = chars_of(self.api_base.as_str());
        let p = chars_of(path);
        append_chars(&mut v, p.as_slice());
        string_from_chars(v.as_slice())
    }

    /// The base address of the API.
    pub fn api_base(&self) -> (r: &str)
        ensures
            r@ == self.api_base@,
    {
        self.api_base.as_str()
    }

    /// The key the client authorizes with.
    pub fn api_key(&self) -> (r: &str)
        ensures
            r@ == self.api_key@,
    {
        self.api_key.as_str()
    }

    /// The value of the `Authorization` header: `Bearer `, then the key.
    pub fn authorization(&self) -> (r: String)
        ensures
            r@ == "Bearer "@ + self.api_key@,
    {
        let mut v = chars_of("Bearer ");
        let k = chars_of(self.api_key.as_str());
        append_chars(&mut v, k.as_slice());
        string_from_chars(v.as_slice())
    }
}

} // verus!
