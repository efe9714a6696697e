//! Indexing transformers for code: chunking, outlining, definitions and references, and
//! questions and answers.
use vstd::prelude::*;
use vstd::string::StringSliceAdditionalSpecFns;
use crate::supported_languages::{SupportedLanguages, LanguageSelector};
use crate::splitter::{
    ChunkSize, CodeSplitter, CodeSplitterBuilder, CodeToolError, IntoChunkSize, DEFAULT_MAX_BYTES,
    spec_min_bytes, spec_max_bytes,
};
use crate::outliner::{CodeOutliner, spec_outline_supported};
use crate::code_tree::{CodeParser, ReferencesAndDefinitions};
use crate::pdf::{spec_join, join};
use crate::supported_languages::strings_view;
use crate::text::{chars_of, string_from_chars};

verus! {

broadcast use vstd::string::group_string_axioms;

/// Splits the code of a node into chunks along its syntax tree.
pub struct ChunkCode {
    chunker: CodeSplitter,
    concurrency: Option<usize>,
}

/// Builder for [`ChunkCode`].
pub struct ChunkCodeBuilder {
    pub chunker: Option<CodeSplitter>,
    pub concurrency: Option<usize>,
}

/// Errors of building a transformer.
#[derive(Debug, PartialEq, Eq, Structural, Clone, Copy)]
pub enum TransformerBuildError {
    /// A required field was not set.
    UninitializedField,
}

impl ChunkCodeBuilder {
    /// Sets the splitter.
    pub fn chunker(self, chunker: CodeSplitter) -> (r: ChunkCodeBuilder)
        ensures
            r.chunker == Some(chunker),
            r.concurrency == self.concurrency,
    {
        ChunkCodeBuilder { chunker: Some(chunker), concurrency: self.concurrency }
    }

    /// Sets how many nodes are chunked at once.
    pub fn concurrency(self, concurrency: usize) -> (r: ChunkCodeBuilder)
        ensures
            r.chunker == self.chunker,
            r.concurrency == Some(concurrency),
    {
        ChunkCodeBuilder { chunker: self.chunker, concurrency: Some(concurrency) }
    }

    /// Builds the transformer; the splitter is required, the concurrency defaults to none.
    pub fn build(self) -> (r: Result<ChunkCode, TransformerBuildError>)
        ensures
            match self.chunker {
                Some(c) => r matches Ok(t) && t.spec_chunker() == c && t.spec_concurrency()
                    == self.concurrency,
                None => r == Err::<ChunkCode, TransformerBuildError>(
                    TransformerBuildError::UninitializedField,
                ),
            },
    {
        match self.chunker {
            Some(chunker) => Ok(ChunkCode { chunker, concurrency: self.concurrency }),
            None => Err(TransformerBuildError::UninitializedField),
        }
    }
}

/// The sum of the byte lengths of the first `k` chunks.
pub open spec fn spec_bytes_before(chunks: Seq<Seq<char>>, k: int) -> int
    decreases k,
{
    if k <= 0 || k > chunks.len() {
        0
    } else {
        spec_bytes_before(chunks, k - 1) + vstd::utf8::encode_utf8(chunks[k - 1]).len()
    }
}

impl ChunkCode {
    /// The splitter.
    pub closed spec fn spec_chunker(&self) -> CodeSplitter {
        self.chunker
    }

    /// How many nodes are chunked at once, if limited.
    pub closed spec fn spec_concurrency(&self) -> Option<usize> {
        self.concurrency
    }

    /// A builder with nothing set.
    pub fn builder() -> (r: ChunkCodeBuilder)
        ensures
            r.chunker is None,
            r.concurrency is None,
    {
        ChunkCodeBuilder { chunker: None, concurrency: None }
    }

    /// A chunker for `lang` with the default chunk size, failing when `lang` names no supported
    /// language.
    pub fn try_for_language<L: LanguageSelector>(lang: L) -> (r: Result<ChunkCode, CodeToolError>)
        ensures
            match lang.spec_selected_language() {
                Some(l) => r matches Ok(c) && c.spec_chunker().spec_language() == l
                    && c.spec_chunker().spec_chunk_size() == ChunkSize::Bytes(DEFAULT_MAX_BYTES)
                    && c.spec_concurrency() is None,
                None => r == Err::<ChunkCode, CodeToolError>(CodeToolError::UnsupportedLanguage),
            },
    {
        let builder = match CodeSplitter::builder().try_language(lang) {
            Ok(b) => b,
            Err(e) => return Err(e),
        };
        match builder.build() {
            Ok(chunker) => Ok(ChunkCode { chunker, concurrency: None }),
            Err(e) => Err(e),
        }
    }

    /// A chunker for `lang` with the given chunk size, failing when `lang` names no supported
    /// language.
    pub fn try_for_language_and_chunk_size<L: LanguageSelector, S: IntoChunkSize>(
        lang: L,
        chunk_size: S,
    ) -> (r: Result<ChunkCode, CodeToolError>)
        ensures
            match lang.spec_selected_language() {
                Some(l) => r matches Ok(c) && c.spec_chunker().spec_language() == l
                    && c.spec_chunker().spec_chunk_size() == chunk_size.spec_chunk_size()
                    && c.spec_concurrency() is None,
                None => r == Err::<ChunkCode, CodeToolError>(CodeToolError::UnsupportedLanguage),
            },
    {
        let builder = match CodeSplitter::builder().try_language(lang) {
            Ok(b) => b,
            Err(e) => return Err(e),
        };
        match builder.chunk_size(chunk_size).build() {
            Ok(chunker) => Ok(ChunkCode { chunker, concurrency: None }),
            Err(e) => Err(e),
        }
    }

    /// The same chunker, chunking `concurrency` nodes at once.
    pub fn with_concurrency(self, concurrency: usize) -> (r: ChunkCode)
        ensures
            r.spec_chunker() == self.spec_chunker(),
            r.spec_concurrency() == Some(concurrency),
    {
        ChunkCode { chunker: self.chunker, concurrency: Some(concurrency) }
    }

    /// How many nodes are chunked at once, if limited.
    pub fn concurrency(&self) -> (r: Option<usize>)
        ensures
            r == self.spec_concurrency(),
    {
        self.concurrency
    }

    /// Splits the code of a node into chunks (see [`CodeSplitter::split`]).
    pub fn split_code(&self, code: &str) -> (r: Result<Vec<String>, CodeToolError>)
        ensures
            self.spec_chunker().spec_split(code, r),
    {
        self.chunker.split(code)
    }
}

/// The offset of each chunk within the chunked text: the byte lengths of the chunks before it,
/// added up.
pub fn chunk_offsets(chunks: &Vec<String>) -> (r: Vec<usize>)
    requires
        spec_bytes_before(chunks@.map_values(|c: String| c@), chunks@.len() as int) <= usize::MAX,
    ensures
        r@.len() == chunks@.len(),
        forall|i: int|
            0 <= i < r@.len() ==> #[trigger] r@[i] == spec_bytes_before(
                chunks@.map_values(|c: String| c@),
                i,
            ),
{
    let ghost views = chunks@.map_values(|c: String| c@);
    let mut offsets: Vec<usize> = Vec::new();
    let mut offset: usize = 0;
    let mut i: usize = 0;
    while i < chunks.len()
        invariant
            i <= chunks@.len(),
            views == chunks@.map_values(|c: String| c@),
            spec_bytes_before(views, chunks@.len() as int) <= usize::MAX,
            offset == spec_bytes_before(views, i as int),
            offsets@.len() == i,
            forall|j: int| 0 <= j < i ==> #[trigger] offsets@[j] == spec_bytes_before(views, j),
        decreases chunks@.len() - i,
    {
        offsets.push(offset);
        proof {
            lemma_bytes_before_monotone(views, i + 1, chunks@.len() as int);
        }
        let size = chunks[i].as_str().as_bytes().len();
        offset = offset + size;
        i = i + 1;
    }
    offsets
}

/// The sum of byte lengths grows with the number of chunks counted.
pub proof fn lemma_bytes_before_monotone(chunks: Seq<Seq<char>>, j: int, k: int)
    requires
        0 <= j <= k <= chunks.len(),
    ensures
        spec_bytes_before(chunks, j) <= spec_bytes_before(chunks, k),
    decreases k - j,
{
    if j < k {
        lemma_bytes_before_monotone(chunks, j, k - 1);
    }
}

/// Adds the outline of a file's code to the metadata of its node.
pub struct OutlineCodeTreeSitter {
    outliner: CodeOutliner,
    minimum_file_size: Option<usize>,
}

impl OutlineCodeTreeSitter {
    /// The outliner.
    pub closed spec fn spec_outliner(&self) -> CodeOutliner {
        self.outliner
    }

    /// Files of fewer bytes than this are not outlined.
    pub closed spec fn spec_minimum_file_size(&self) -> Option<usize> {
        self.minimum_file_size
    }

    /// A transformer outlining code of `lang`, failing when `lang` names no supported language.
    pub fn try_for_language<L: LanguageSelector>(lang: L, minimum_file_size: Option<usize>) -> (r:
        Result<OutlineCodeTreeSitter, CodeToolError>)
        ensures
            match lang.spec_selected_language() {
                Some(l) => r matches Ok(t) && t.spec_outliner().spec_language() == l
                    && t.spec_minimum_file_size() == minimum_file_size,
                None => r == Err::<OutlineCodeTreeSitter, CodeToolError>(
                    CodeToolError::UnsupportedLanguage,
                ),
            },
    {
        let builder = match CodeOutliner::builder().try_language(lang) {
            Ok(b) => b,
            Err(e) => return Err(e),
        };
        match builder.build() {
            Ok(outliner) => Ok(OutlineCodeTreeSitter { outliner, minimum_file_size }),
            Err(e) => Err(e),
        }
    }

    /// Whether code of `code_bytes` bytes is outlined: always, unless a minimum size is set and
    /// the code is smaller.
    pub fn is_outlined(&self, code_bytes: usize) -> (r: bool)
        ensures
            r == match self.spec_minimum_file_size() {
                Some(m) => code_bytes >= m,
                None => true,
            },
    {
        match self.minimum_file_size {
            Some(m) => code_bytes >= m,
            None => true,
        }
    }

    /// The outline to add to a node whose code is `code`: `None` when the code is too small to be
    /// outlined and the node stays as it is, otherwise the outline, or the outliner's error.
    pub fn outline_for(&self, code: &str) -> (r: Result<Option<String>, CodeToolError>)
        requires
            (match self.spec_minimum_file_size() {
                Some(m) => code.spec_bytes().len() >= m,
                None => true,
            }) ==> spec_outline_supported(self.spec_outliner().spec_language()),
        ensures
            (match self.spec_minimum_file_size() {
                Some(m) => code.spec_bytes().len() < m,
                None => false,
            }) ==> r == Ok::<Option<String>, CodeToolError>(None),
            (match self.spec_minimum_file_size() {
                Some(m) => code.spec_bytes().len() >= m,
                None => true,
            }) ==> match r {
                Ok(Some(s)) => self.spec_outliner().spec_outline_result(code, Ok(s)),
                Ok(None) => false,
                Err(e) => self.spec_outliner().spec_outline_result(code, Err(e)),
            },
    {
        let size = code.as_bytes().len();
        if !self.is_outlined(size) {
            return Ok(None);
        }
        match self.outliner.outline(code) {
            Ok(s) => Ok(Some(s)),
            Err(e) => Err(e),
        }
    }
}

/// Adds the symbols a piece of code defines and refers to as metadata of its node.
pub struct MetadataRefsDefsCode {
    code_parser: CodeParser,
}

impl MetadataRefsDefsCode {
    /// The parser.
    pub closed spec fn spec_code_parser(&self) -> CodeParser {
        self.code_parser
    }

    /// A transformer for `language`, failing when it names no supported language.
    pub fn try_from_language<L: LanguageSelector>(language: L) -> (r: Result<
        MetadataRefsDefsCode,
        CodeToolError,
    >)
        ensures
            match language.spec_selected_language() {
                Some(l) => r matches Ok(t) && t.spec_code_parser().spec_language() == l,
                None => r == Err::<MetadataRefsDefsCode, CodeToolError>(
                    CodeToolError::UnsupportedLanguage,
                ),
            },
    {
        match language.selected_language() {
            Some(l) => Ok(MetadataRefsDefsCode { code_parser: CodeParser::from_language(l) }),
            None => Err(CodeToolError::UnsupportedLanguage),
        }
    }
}

/// Asks a language model for questions and answers about a piece of code.
pub struct MetadataQACode {
    pub num_questions: usize,
}

/// Builder for [`MetadataQACode`].
pub struct MetadataQACodeBuilder {
    pub num_questions: Option<usize>,
}

impl MetadataQACodeBuilder {
    /// Sets how many questions are asked for.
    pub fn num_questions(self, num_questions: usize) -> (r: MetadataQACodeBuilder)
        ensures
            r.num_questions == Some(num_questions),
    {
        MetadataQACodeBuilder { num_questions: Some(num_questions) }
    }

    /// Builds the transformer; five questions unless set otherwise.
    pub fn build(self) -> (r: MetadataQACode)
        ensures
            r.num_questions == match self.num_questions {
                Some(n) => n,
                None => 5,
            },
    {
        match self.num_questions {
            Some(n) => MetadataQACode { num_questions: n },
            None => MetadataQACode { num_questions: 5 },
        }
    }
}

impl MetadataQACode {
    /// A builder with nothing set.
    pub fn builder() -> (r: MetadataQACodeBuilder)
        ensures
            r.num_questions is None,
    {
        MetadataQACodeBuilder { num_questions: None }
    }
}

/// The metadata key under which the references of a chunk are stored.
pub const NAME_REFERENCES: &'static str = "References (code)";

/// The metadata key under which the definitions of a chunk are stored.
pub const NAME_DEFINITIONS: &'static str = "Definitions (code)";

/// The strings joined by commas.
fn join_commas(items: &Vec<String>) -> (r: String)
    ensures
        r@ == spec_join(strings_view(items@), seq![',']),
{
    let mut parts: Vec<Vec<char>> = Vec::new();
    let mut i: usize = 0;
    while i < items.len()
        invariant
            i <= items@.len(),
            parts@.map_values(|p: Vec<char>| p@) == strings_view(items@).subrange(0, i as int),
        decreases items@.len() - i,
    {
        let c = chars_of(items[i].as_str());
        let ghost before = parts@.map_values(|p: Vec<char>| p@);
        let ghost cv = c@;
        parts.push(c);
        proof {
            assert(parts@.map_values(|p: Vec<char>| p@) =~= before.push(cv));
            assert(strings_view(items@).subrange(0, i + 1) =~= strings_view(items@).subrange(0, i as int).push(cv));
        }
        i = i + 1;
    }
    proof {
        assert(strings_view(items@).subrange(0, items@.len() as int) =~= strings_view(items@));
    }
    let sep = [','];
    assert(sep@ =~= seq![',']);
    let joined = join(&parts, sep.as_slice());
    string_from_chars(joined.as_slice())
}

/// The metadata entries a chunk receives for its symbols: its references joined by commas under
/// [`NAME_REFERENCES`] when there are any, then its definitions likewise under
/// [`NAME_DEFINITIONS`].
pub fn refs_defs_metadata(rd: &ReferencesAndDefinitions) -> (r: Vec<(String, String)>)
    ensures
        r@.len() == (if rd.references@.len() > 0 { 1int } else { 0int }) + (if rd.definitions@.len() > 0 {
            1int
        } else {
            0int
        }),
        rd.references@.len() > 0 ==> r@[0].0@ == NAME_REFERENCES@ && r@[0].1@ == spec_join(
            strings_view(rd.references@),
            seq![','],
        ),
        rd.definitions@.len() > 0 ==> r@[r@.len() - 1].0@ == NAME_DEFINITIONS@ && r@[r@.len()
            - 1].1@ == spec_join(strings_view(rd.definitions@), seq![',']),
{
    let mut out: Vec<(String, String)> = Vec::new();
    if rd.references.len() > 0 {
        out.push((NAME_REFERENCES.to_owned(), join_commas(&rd.references)));
    }
    if rd.definitions.len() > 0 {
        out.push((NAME_DEFINITIONS.to_owned(), join_commas(&rd.definitions)));
    }
    out
}

/// The token estimate of a text: a token for every four characters, rounded up, plus the
/// additional tokens of the value estimated.
pub open spec fn spec_char_estimate(chars: nat, additional: nat) -> nat {
    ((chars + 3) / 4 + additional) as nat
}

/// The token estimate of a text of `text` (see [`spec_char_estimate`]).
pub fn char_estimate(text: &str, additional_tokens: usize) -> (r: usize)
    requires
        spec_char_estimate(text@.len(), additional_tokens as nat) <= usize::MAX,
    ensures
        r == spec_char_estimate(text@.len(), additional_tokens as nat),
{
    let n = chars_of(text).len();
    let base = n / 4 + if n % 4 == 0 { 0 } else { 1 };
    assert(base == (n + 3) / 4) by (nonlinear_arith)
        requires
            base == n / 4 + if n % 4 == 0 { 0int } else { 1int },
    ;
    base + additional_tokens
}

} // verus!
