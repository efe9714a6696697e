//! Token estimates with tiktoken encodings, as used by OpenAI models.
use vstd::prelude::*;

verus! {

/// Declares tiktoken's named encodings.
#[verifier::external_type_specification]
#[verifier::external_body]
pub struct ExTokenizer(tiktoken_rs::tokenizer::Tokenizer);

/// The encodings of tiktoken, one for each of its named encodings.
#[derive(Debug, PartialEq, Eq, Structural, Clone, Copy)]
pub enum Encoding {
    O200kHarmony,
    O200kBase,
    Cl100kBase,
    P50kBase,
    R50kBase,
    P50kEdit,
    Gpt2,
}

/// The encoding tiktoken uses for the model `model` (`get_tokenizer`: by the exact name, by a
/// known prefix, or for a fine-tuned `ft:` model by its base model); `None` for a model it does
/// not know. It depends on the name alone.
pub uninterp spec fn tiktoken_model_encoding(model: Seq<char>) -> Option<Encoding>;

/// The number of tokens of `text` in `encoding`, special tokens included (`CoreBPE::encode`
/// with all special tokens allowed); `None` when the encoder's pattern fails on the text. It
/// depends on the encoding and the text alone.
pub uninterp spec fn tiktoken_token_count(encoding: Encoding, text: Seq<char>) -> Option<nat>;

/// The encoding tiktoken uses for an OpenAI model (`tokenizer::get_tokenizer`); `None` for a
/// model it does not know.
#[verifier::external_body]
fn encoding_for_model(model: &str) -> (r: Option<Encoding>)
    ensures
        r == tiktoken_model_encoding(model@),
{
    match tiktoken_rs::tokenizer::get_tokenizer(model)? {
        tiktoken_rs::tokenizer::Tokenizer::O200kHarmony => Some(Encoding::O200kHarmony),
        tiktoken_rs::tokenizer::Tokenizer::O200kBase => Some(Encoding::O200kBase),
        tiktoken_rs::tokenizer::Tokenizer::Cl100kBase => Some(Encoding::Cl100kBase),
        tiktoken_rs::tokenizer::Tokenizer::P50kBase => Some(Encoding::P50kBase),
        tiktoken_rs::tokenizer::Tokenizer::R50kBase => Some(Encoding::R50kBase),
        tiktoken_rs::tokenizer::Tokenizer::P50kEdit => Some(Encoding::P50kEdit),
        tiktoken_rs::tokenizer::Tokenizer::Gpt2 => Some(Encoding::Gpt2),
    }
}

/// The encoding a tiktoken `Tokenizer` names, variant for variant. Nothing can be stated of the
/// argument, a value of tiktoken's type.
#[verifier::external_body]
fn encoding_of(tokenizer: tiktoken_rs::tokenizer::Tokenizer) -> Encoding {
    match tokenizer {
        tiktoken_rs::tokenizer::Tokenizer::O200kHarmony => Encoding::O200kHarmony,
        tiktoken_rs::tokenizer::Tokenizer::O200kBase => Encoding::O200kBase,
        tiktoken_rs::tokenizer::Tokenizer::Cl100kBase => Encoding::Cl100kBase,
        tiktoken_rs::tokenizer::Tokenizer::P50kBase => Encoding::P50kBase,
        tiktoken_rs::tokenizer::Tokenizer::R50kBase => Encoding::R50kBase,
        tiktoken_rs::tokenizer::Tokenizer::P50kEdit => Encoding::P50kEdit,
        tiktoken_rs::tokenizer::Tokenizer::Gpt2 => Encoding::Gpt2,
    }
}

/// The number of tokens of `text` in `encoding` (`CoreBPE::encode` with all of the encoder's
/// special tokens allowed, as `encode_with_special_tokens` does, on the encoding's shared
/// encoder, the one `bpe_for_tokenizer` gives; `Gpt2` shares `R50kBase`'s); `None` when encoding
/// fails, where `encode_with_special_tokens` would panic.
#[verifier::external_body]
fn token_count(encoding: Encoding, text: &str) -> (r: Option<usize>)
    ensures
        match r {
            Some(n) => tiktoken_token_count(encoding, text@) == Some(n as nat),
            None => tiktoken_token_count(encoding, text@) is None,
        },
{
    let bpe = match encoding {
        Encoding::O200kHarmony => tiktoken_rs::o200k_harmony_singleton(),
        Encoding::O200kBase => tiktoken_rs::o200k_base_singleton(),
        Encoding::Cl100kBase => tiktoken_rs::cl100k_base_singleton(),
        Encoding::P50kBase => tiktoken_rs::p50k_base_singleton(),
        Encoding::R50kBase | Encoding::Gpt2 => tiktoken_rs::r50k_base_singleton(),
        Encoding::P50kEdit => tiktoken_rs::p50k_edit_singleton(),
    };
    match bpe.encode(text, &bpe.special_tokens()) {
        Ok((tokens, _)) => Some(tokens.len()),
        Err(_) => None,
    }
}

/// Why an encoder could not be had.
#[derive(Debug, PartialEq, Eq, Structural, Clone, Copy)]
pub enum TokenizerError {
    /// The model or encoding is not known to tiktoken.
    UnknownModel,
    /// The encoder could not encode a text.
    EncodingFailed,
    /// The estimate does not fit in a `usize`.
    TooManyTokens,
}

/// A tiktoken encoder that estimates the tokens of texts.
pub struct TikToken {
    encoding: Encoding,
}

/// The tokens of the texts in `encoding` added up, plus `additional`.
pub open spec fn spec_token_sum(encoding: Encoding, texts: Seq<String>, additional: usize) -> int
    decreases texts.len(),
{
    if texts.len() == 0 {
        additional as int
    } else {
        spec_token_sum(encoding, texts.drop_last(), additional) + tiktoken_token_count(
            encoding,
            texts.last()@,
        )->0
    }
}

/// Counts that are the token counts of the texts add up to their token sum.
proof fn lemma_counts_sum(encoding: Encoding, texts: Seq<String>, counts: Seq<usize>, additional: usize)
    requires
        counts.len() == texts.len(),
        forall|j: int| 0 <= j < counts.len() ==> tiktoken_token_count(encoding, #[trigger] texts[j]@) == Some(counts[j] as nat),
    ensures
        spec_total(counts, additional) == spec_token_sum(encoding, texts, additional),
    decreases texts.len(),
{
    if texts.len() > 0 {
        let t = texts.drop_last();
        let c = counts.drop_last();
        assert forall|j: int| 0 <= j < c.len() implies tiktoken_token_count(encoding, #[trigger] t[j]@) == Some(c[j] as nat) by {
            assert(c[j] == counts[j]);
            assert(t[j] == texts[j]);
        }
        lemma_counts_sum(encoding, t, c, additional);
        assert(counts.last() == counts[counts.len() - 1]);
    }
}

/// The sum of the counts plus `additional`.
pub open spec fn spec_total(counts: Seq<usize>, additional: usize) -> int
    decreases counts.len(),
{
    if counts.len() == 0 {
        additional as int
    } else {
        spec_total(counts.drop_last(), additional) + counts.last()
    }
}

/// The estimate of several texts from their token counts: the counts added up, plus the
/// additional tokens of the value estimated; `None` when the sum does not fit in a `usize`.
pub fn total_tokens(counts: &Vec<usize>, additional: usize) -> (r: Option<usize>)
    ensures
        match r {
            Some(t) => t == spec_total(counts@, additional),
            None => spec_total(counts@, additional) > usize::MAX,
        },
{
    let mut total: usize = additional;
    let mut i: usize = 0;
    while i < counts.len()
        invariant
            i <= counts@.len(),
            total == spec_total(counts@.subrange(0, i as int), additional),
        decreases counts@.len() - i,
    {
        proof {
            assert(counts@.subrange(0, i + 1).drop_last() =~= counts@.subrange(0, i as int));
        }
        match total.checked_add(counts[i]) {
            Some(t) => total = t,
            None => {
                proof {
                    lemma_total_grows(counts@, additional, i + 1);
                }
                return None;
            },
        }
        i = i + 1;
    }
    proof {
        assert(counts@.subrange(0, counts@.len() as int) =~= counts@);
    }
    Some(total)
}

/// Counting more of the counts never makes the total smaller.
proof fn lemma_total_grows(counts: Seq<usize>, additional: usize, k: int)
    requires
        0 <= k <= counts.len(),
    ensures
        spec_total(counts.subrange(0, k), additional) <= spec_total(counts, additional),
    decreases counts.len() - k,
{
    if k < counts.len() {
        lemma_total_grows(counts, additional, k + 1);
        assert(counts.subrange(0, k + 1).drop_last() =~= counts.subrange(0, k));
    } else {
        assert(counts.subrange(0, k) =~= counts);
    }
}

impl TikToken {
    /// The encoding used.
    pub closed spec fn spec_encoding(&self) -> Encoding {
        self.encoding
    }

    /// The encoder of an OpenAI model, failing for a model tiktoken does not know (see
    /// [`tiktoken_model_encoding`]).
    pub fn try_from_model(model: &str) -> (r: Result<TikToken, TokenizerError>)
        ensures
            match tiktoken_model_encoding(model@) {
                Some(e) => r matches Ok(t) && t.spec_encoding() == e,
                None => r == Err::<TikToken, TokenizerError>(TokenizerError::UnknownModel),
            },
    {
        match encoding_for_model(model) {
            Some(encoding) => Ok(TikToken { encoding }),
            None => Err(TokenizerError::UnknownModel),
        }
    }

    /// The encoder of a named encoding; every named encoding has one.
    pub fn try_from_tokenizer(tokenizer: tiktoken_rs::tokenizer::Tokenizer) -> (r: Result<
        TikToken,
        TokenizerError,
    >)
        ensures
            r is Ok,
    {
        Ok(TikToken { encoding: encoding_of(tokenizer) })
    }

    /// The token estimate of the texts of a value: the tokens of each text in the encoding
    /// (see [`tiktoken_token_count`]) added up, plus the additional tokens of the value;
    /// `EncodingFailed` when a text cannot be encoded, `TooManyTokens` when the sum does not fit
    /// in a `usize`.
    pub fn estimate(&self, texts: &Vec<String>, additional_tokens: usize) -> (r: Result<usize, TokenizerError>)
        ensures
            if exists|j: int| 0 <= j < texts@.len() && tiktoken_token_count(self.spec_encoding(), #[trigger] texts@[j]@) is None {
                r == Err::<usize, TokenizerError>(TokenizerError::EncodingFailed)
            } else {
                match r {
                    Ok(t) => t == spec_token_sum(self.spec_encoding(), texts@, additional_tokens),
                    Err(e) => e == TokenizerError::TooManyTokens
                        && spec_token_sum(self.spec_encoding(), texts@, additional_tokens) > usize::MAX,
                }
            },
    {
        let mut counts: Vec<usize> = Vec::new();
        let mut i: usize = 0;
        while i < texts.len()
            invariant
                i <= texts@.len(),
                counts@.len() == i,
                forall|j: int|
                    0 <= j < i ==> tiktoken_token_count(self.encoding, #[trigger] texts@[j]@) == Some(counts@[j] as nat),
            decreases texts@.len() - i,
        {
            match token_count(self.encoding, texts[i].as_str()) {
                Some(n) => counts.push(n),
                None => return Err(TokenizerError::EncodingFailed),
            }
            i = i + 1;
        }
        proof {
            lemma_counts_sum(self.encoding, texts@, counts@, additional_tokens);
        }
        match total_tokens(&counts, additional_tokens) {
            Some(t) => Ok(t),
            None => Err(TokenizerError::TooManyTokens),
        }
    }
}

} // verus!
