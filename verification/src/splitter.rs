//! Splitting code into chunks along the boundaries of its syntax tree.
use vstd::prelude::*;
use vstd::utf8::*;
use vstd::string::StringSliceAdditionalSpecFns;
use crate::supported_languages::{SupportedLanguages, LanguageSelector};
use crate::syntax_tree::{SyntaxNode, wf_node, child_lower_bound, parse_code, ParsedCode, ts_parse_tree};

verus! {

broadcast use vstd::string::group_string_axioms;

/// The chunk size used when none is configured, in bytes.
pub const DEFAULT_MAX_BYTES: usize = 1500;

/// The size of a chunk: a maximum number of bytes, or a range whose start is the size a chunk must
/// exceed to be kept and whose end is the maximum.
pub enum ChunkSize {
    Bytes(usize),
    Range(core::ops::Range<usize>),
}

/// The largest number of bytes a chunk may have.
pub open spec fn spec_max_bytes(size: ChunkSize) -> int {
    match size {
        ChunkSize::Bytes(n) => n as int,
        ChunkSize::Range(r) => r.end as int,
    }
}

/// Chunks shorter than this many bytes are discarded.
pub open spec fn spec_min_bytes(size: ChunkSize) -> int {
    match size {
        ChunkSize::Bytes(_) => 0,
        ChunkSize::Range(r) => r.start as int,
    }
}

impl ChunkSize {
    /// The default chunk size: at most 1500 bytes.
    pub fn default_size() -> (r: ChunkSize)
        ensures
            r == ChunkSize::Bytes(DEFAULT_MAX_BYTES),
    {
        ChunkSize::Bytes(DEFAULT_MAX_BYTES)
    }
}

/// Values that describe a chunk size: a number of bytes or a range of bytes.
pub trait IntoChunkSize {
    /// The chunk size described.
    spec fn spec_chunk_size(&self) -> ChunkSize;

    /// Converts into a chunk size.
    fn into_chunk_size(self) -> (r: ChunkSize)
        ensures
            r == self.spec_chunk_size(),
    ;
}

impl IntoChunkSize for usize {
    open spec fn spec_chunk_size(&self) -> ChunkSize {
        ChunkSize::Bytes(*self)
    }

    fn into_chunk_size(self) -> (r: ChunkSize) {
        ChunkSize::Bytes(self)
    }
}

impl IntoChunkSize for core::ops::Range<usize> {
    open spec fn spec_chunk_size(&self) -> ChunkSize {
        ChunkSize::Range(*self)
    }

    fn into_chunk_size(self) -> (r: ChunkSize) {
        ChunkSize::Range(self)
    }
}

impl IntoChunkSize for ChunkSize {
    open spec fn spec_chunk_size(&self) -> ChunkSize {
        *self
    }

    fn into_chunk_size(self) -> (r: ChunkSize) {
        self
    }
}

/// Errors of the code tools.
#[derive(Debug, PartialEq, Eq, Structural, Clone, Copy)]
pub enum CodeToolError {
    /// The language is not one of the supported languages.
    UnsupportedLanguage,
    /// A builder was finished without a language.
    MissingLanguage,
    /// The parser produced no syntax tree.
    NoNodesFound,
    /// The parser reported spans that do not fit the code.
    InvalidSpans,
    /// The code has syntax errors.
    InvalidSyntax,
    /// The language has no outline rules.
    OutlineNotSupported,
}

/// The text of an error of the code tools.
pub open spec fn spec_code_tool_message(e: CodeToolError) -> Seq<char> {
    match e {
        CodeToolError::UnsupportedLanguage => "Treesitter language not supported"@,
        CodeToolError::MissingLanguage => "`language` must be initialized"@,
        CodeToolError::NoNodesFound => "No nodes found"@,
        CodeToolError::InvalidSpans => "Node spans do not fit the code"@,
        CodeToolError::InvalidSyntax => "Root node has invalid syntax"@,
        CodeToolError::OutlineNotSupported => "Outlines are not supported for this language"@,
    }
}

impl CodeToolError {
    /// The text of the error (see [`spec_code_tool_message`]).
    pub fn message(&self) -> (r: String)
        ensures
            r@ == spec_code_tool_message(*self),
    {
        match self {
            CodeToolError::UnsupportedLanguage => "Treesitter language not supported".to_owned(),
            CodeToolError::MissingLanguage => "`language` must be initialized".to_owned(),
            CodeToolError::NoNodesFound => "No nodes found".to_owned(),
            CodeToolError::InvalidSpans => "Node spans do not fit the code".to_owned(),
            CodeToolError::InvalidSyntax => "Root node has invalid syntax".to_owned(),
            CodeToolError::OutlineNotSupported => "Outlines are not supported for this language".to_owned(),
        }
    }
}

/// Splits code files into chunks along the boundaries of their syntax tree.
pub struct CodeSplitter {
    pub(crate) chunk_size: ChunkSize,
    pub(crate) language: SupportedLanguages,
}

/// Builder for [`CodeSplitter`].
pub struct CodeSplitterBuilder {
    pub chunk_size: Option<ChunkSize>,
    pub language: Option<SupportedLanguages>,
}

impl CodeSplitterBuilder {
    /// Sets the language, failing when the value does not name a supported language.
    pub fn try_language<L: LanguageSelector>(self, language: L) -> (r: Result<
        CodeSplitterBuilder,
        CodeToolError,
    >)
        ensures
            match language.spec_selected_language() {
                Some(l) => r == Ok::<CodeSplitterBuilder, CodeToolError>(
                    CodeSplitterBuilder { chunk_size: self.chunk_size, language: Some(l) },
                ),
                None => r == Err::<CodeSplitterBuilder, CodeToolError>(
                    CodeToolError::UnsupportedLanguage,
                ),
            },
    {
        match language.selected_language() {
            Some(l) => Ok(CodeSplitterBuilder { chunk_size: self.chunk_size, language: Some(l) }),
            None => Err(CodeToolError::UnsupportedLanguage),
        }
    }

    /// Sets the chunk size.
    pub fn chunk_size<S: IntoChunkSize>(self, size: S) -> (r: CodeSplitterBuilder)
        ensures
            r.chunk_size == Some(size.spec_chunk_size()),
            r.language == self.language,
    {
        CodeSplitterBuilder { chunk_size: Some(size.into_chunk_size()), language: self.language }
    }

    /// Builds the splitter; the chunk size defaults to 1500 bytes and the language is required.
    pub fn build(self) -> (r: Result<CodeSplitter, CodeToolError>)
        ensures
            match self.language {
                Some(l) => r matches Ok(s) && s.spec_language() == l && s.spec_chunk_size() == match self.chunk_size {
                    Some(c) => c,
                    None => ChunkSize::Bytes(DEFAULT_MAX_BYTES),
                },
                None => r == Err::<CodeSplitter, CodeToolError>(CodeToolError::MissingLanguage),
            },
    {
        match self.language {
            Some(language) => {
                let chunk_size = match self.chunk_size {
                    Some(c) => c,
                    None => ChunkSize::default_size(),
                };
                Ok(CodeSplitter { chunk_size, language })
            },
            None => Err(CodeToolError::MissingLanguage),
        }
    }
}

/// The views of a sequence of byte vectors.
pub open spec fn bytes_view(v: Seq<Vec<u8>>) -> Seq<Seq<u8>> {
    v.map_values(|x: Vec<u8>| x@)
}

/// `chunks` with `cur` appended when `cur` is non-empty and at least `min` bytes long.
pub open spec fn push_if_kept(chunks: Seq<Seq<u8>>, cur: Seq<u8>, min: int) -> Seq<Seq<u8>> {
    if cur.len() > 0 && cur.len() >= min {
        chunks.push(cur)
    } else {
        chunks
    }
}

/// Chunks a node: the chunks completed while walking its children, followed by the chunk in
/// progress when it is kept. `last_end` is where the previous piece of source ended, `cur` the
/// chunk in progress when the node is reached.
pub open spec fn spec_chunk_node(
    n: SyntaxNode,
    src: Seq<u8>,
    last_end: int,
    cur: Seq<u8>,
    min: int,
    max: int,
) -> Seq<Seq<u8>>
    decreases n, n.children@.len() + 1,
{
    let st = spec_chunk_children(n, n.children@.len() as int, src, last_end, cur, min, max);
    push_if_kept(st.0, st.1, min)
}

/// The state after the first `k` children of `n` have been walked: the completed chunks, the
/// chunk in progress and where the last piece ended.
///
/// Each child adds the source from `last_end` to its end. When that would make the chunk in
/// progress reach `max` bytes, a child larger than `max` is chunked one level down (its last chunk
/// becomes the chunk in progress), otherwise the chunk in progress is closed and the child's
/// piece starts a new one.
pub open spec fn spec_chunk_children(
    n: SyntaxNode,
    k: int,
    src: Seq<u8>,
    last_end: int,
    cur: Seq<u8>,
    min: int,
    max: int,
) -> (Seq<Seq<u8>>, Seq<u8>, int)
    decreases n, k,
{
    if k <= 0 || k > n.children@.len() {
        (seq![], cur, last_end)
    } else {
        let prev = spec_chunk_children(n, k - 1, src, last_end, cur, min, max);
        let chunks = prev.0;
        let cur1 = prev.1;
        let le = prev.2;
        let child = n.children@[k - 1];
        let end = child.end_byte as int;
        let size = end - le;
        if cur1.len() + size >= max {
            if size > max {
                let sub = spec_chunk_node(child, src, le, cur1, min, max);
                if sub.len() > 0 {
                    (chunks + sub.drop_last(), sub.last(), end)
                } else {
                    (chunks, seq![], end)
                }
            } else {
                (push_if_kept(chunks, cur1, min), src.subrange(le, end), end)
            }
        } else {
            (chunks, cur1 + src.subrange(le, end), end)
        }
    }
}

/// A finished chunk: non-empty, at least `min` and at most `max` bytes, no longer than `bound`, and valid
/// UTF-8.
pub open spec fn chunk_ok(c: Seq<u8>, min: int, max: int, bound: int) -> bool {
    &&& c.len() > 0
    &&& c.len() >= min
    &&& c.len() <= max
    &&& c.len() <= bound
    &&& valid_utf8(c)
}

/// A chunk in progress: at most `max` bytes, no longer than `bound`, and valid UTF-8.
pub open spec fn progress_ok(c: Seq<u8>, max: int, bound: int) -> bool {
    &&& c.len() <= max
    &&& c.len() <= bound
    &&& valid_utf8(c)
}

/// Every chunk of `chunks` is a finished chunk.
pub open spec fn all_chunks_ok(chunks: Seq<Seq<u8>>, min: int, max: int, bound: int) -> bool {
    forall|i: int| 0 <= i < chunks.len() ==> #[trigger] chunk_ok(chunks[i], min, max, bound)
}

/// The bytes between two character boundaries of valid UTF-8 are valid UTF-8.
pub proof fn lemma_subrange_valid_utf8(src: Seq<u8>, a: int, b: int)
    requires
        valid_utf8(src),
        0 <= a <= b <= src.len(),
        is_char_boundary(src, a),
        is_char_boundary(src, b),
    ensures
        valid_utf8(src.subrange(a, b)),
{
    if a == b {
        assert(src.subrange(a, b) =~= Seq::<u8>::empty());
        reveal_with_fuel(valid_utf8, 1);
    } else {
        valid_utf8_split(src, b);
        let p = src.subrange(0, b);
        is_char_boundary_iff_not_is_continuation_byte(src, a);
        is_char_boundary_iff_not_is_continuation_byte(p, a);
        assert(p[a] == src[a]);
        valid_utf8_split(p, a);
        assert(p.subrange(a, p.len() as int) =~= src.subrange(a, b));
    }
}

proof fn lemma_wf_lower(n: SyntaxNode, a: int, b: int, src: Seq<u8>)
    requires
        wf_node(n, a, src),
        b <= n.start_byte,
    ensures
        wf_node(n, b, src),
{
}

/// The chunks of a node satisfy the chunk bounds.
pub proof fn lemma_chunk_node(
    n: SyntaxNode,
    src: Seq<u8>,
    last_end: int,
    cur: Seq<u8>,
    min: int,
    max: int,
)
    requires
        wf_node(n, last_end, src),
        valid_utf8(src),
        0 <= last_end,
        is_char_boundary(src, last_end),
        progress_ok(cur, max, last_end),
        0 <= min,
    ensures
        all_chunks_ok(spec_chunk_node(n, src, last_end, cur, min, max), min, max, n.end_byte as int),
    decreases n, n.children@.len() + 1,
{
    let len = n.children@.len() as int;
    lemma_chunk_children(n, len, src, last_end, cur, min, max);
    let st = spec_chunk_children(n, len, src, last_end, cur, min, max);
    if len > 0 {
        assert(n.children@[len - 1].end_byte <= n.end_byte);
    }
    assert(st.2 <= n.end_byte);
    let r = push_if_kept(st.0, st.1, min);
    assert forall|i: int| 0 <= i < r.len() implies #[trigger] chunk_ok(r[i], min, max, n.end_byte as int) by {
        if i < st.0.len() {
            assert(chunk_ok(st.0[i], min, max, st.2));
        }
    }
}

/// The state after walking some children satisfies the chunk bounds.
pub proof fn lemma_chunk_children(
    n: SyntaxNode,
    k: int,
    src: Seq<u8>,
    last_end: int,
    cur: Seq<u8>,
    min: int,
    max: int,
)
    requires
        wf_node(n, last_end, src),
        valid_utf8(src),
        0 <= last_end,
        is_char_boundary(src, last_end),
        progress_ok(cur, max, last_end),
        0 <= min,
        0 <= k <= n.children@.len(),
    ensures
        ({
            let st = spec_chunk_children(n, k, src, last_end, cur, min, max);
            &&& all_chunks_ok(st.0, min, max, st.2)
            &&& progress_ok(st.1, max, st.2)
            &&& st.2 == if k == 0 { last_end } else { n.children@[k - 1].end_byte as int }
            &&& last_end <= st.2 <= child_lower_bound(n, k) || k == n.children@.len()
            &&& last_end <= st.2
            &&& is_char_boundary(src, st.2)
        }),
    decreases n, k,
{
    if k == 0 {
    } else {
        lemma_chunk_children(n, k - 1, src, last_end, cur, min, max);
        let prev = spec_chunk_children(n, k - 1, src, last_end, cur, min, max);
        let chunks = prev.0;
        let cur1 = prev.1;
        let le = prev.2;
        let child = n.children@[k - 1];
        let end = child.end_byte as int;
        assert(wf_node(child, child_lower_bound(n, k - 1), src));
        assert(le <= child_lower_bound(n, k - 1));
        assert(le <= child.start_byte);
        lemma_wf_lower(child, child_lower_bound(n, k - 1), le, src);
        assert(le <= end <= src.len());
        if k < n.children@.len() {
            assert(wf_node(n.children@[k as int], child_lower_bound(n, k as int), src));
        }
        let size = end - le;
        lemma_subrange_valid_utf8(src, le, end);
        let piece = src.subrange(le, end);
        if cur1.len() + size >= max {
            if size > max {
                lemma_chunk_node(child, src, le, cur1, min, max);
                let sub = spec_chunk_node(child, src, le, cur1, min, max);
                if sub.len() > 0 {
                    let out = chunks + sub.drop_last();
                    assert forall|i: int| 0 <= i < out.len() implies #[trigger] chunk_ok(out[i], min, max, end) by {
                        if i < chunks.len() {
                            assert(chunk_ok(chunks[i], min, max, le));
                        } else {
                            assert(out[i] == sub[i - chunks.len()]);
                            assert(chunk_ok(sub[i - chunks.len()], min, max, end));
                        }
                    }
                    assert(chunk_ok(sub[sub.len() - 1], min, max, end));
                } else {
                    assert forall|i: int| 0 <= i < chunks.len() implies #[trigger] chunk_ok(chunks[i], min, max, end) by {
                        assert(chunk_ok(chunks[i], min, max, le));
                    }
                    reveal_with_fuel(valid_utf8, 1);
                }
            } else {
                let out = push_if_kept(chunks, cur1, min);
                assert forall|i: int| 0 <= i < out.len() implies #[trigger] chunk_ok(out[i], min, max, end) by {
                    if i < chunks.len() {
                        assert(chunk_ok(chunks[i], min, max, le));
                    }
                }
            }
        } else {
            valid_utf8_concat(cur1, piece);
            assert forall|i: int| 0 <= i < chunks.len() implies #[trigger] chunk_ok(chunks[i], min, max, end) by {
                assert(chunk_ok(chunks[i], min, max, le));
            }
        }
    }
}

/// Every two consecutive chunks together hold at least `max` bytes.
pub open spec fn spec_pairs_fill(chunks: Seq<Seq<u8>>, max: int) -> bool {
    forall|i: int| 0 <= i < chunks.len() - 1 ==> #[trigger] chunks[i].len() + chunks[i + 1].len() >= max
}

/// Chunking a node packs greedily: two consecutive chunks together hold at least `max` bytes.
/// The first chunk is at least as long as the chunk in progress when the node is reached, unless
/// that one was too small to be kept; and nothing comes out only when it was.
pub proof fn lemma_chunk_node_fills(
    n: SyntaxNode,
    src: Seq<u8>,
    last_end: int,
    cur: Seq<u8>,
    min: int,
    max: int,
)
    requires
        wf_node(n, last_end, src),
        valid_utf8(src),
        0 <= last_end,
        is_char_boundary(src, last_end),
        progress_ok(cur, max, last_end),
        0 <= min,
    ensures
        ({
            let r = spec_chunk_node(n, src, last_end, cur, min, max);
            &&& spec_pairs_fill(r, max)
            &&& r.len() > 0 ==> (r[0].len() >= cur.len() || cur.len() == 0 || cur.len() < min)
            &&& r.len() == 0 ==> (cur.len() == 0 || cur.len() < min)
        }),
    decreases n, n.children@.len() + 1,
{
    let len = n.children@.len() as int;
    lemma_chunk_children_fill(n, len, src, last_end, cur, min, max);
    lemma_chunk_children(n, len, src, last_end, cur, min, max);
    let st = spec_chunk_children(n, len, src, last_end, cur, min, max);
    let r = push_if_kept(st.0, st.1, min);
    if st.1.len() > 0 && st.1.len() >= min {
        assert forall|i: int| 0 <= i < r.len() - 1 implies #[trigger] r[i].len() + r[i + 1].len() >= max by {
            if i < st.0.len() - 1 {
                assert(st.0[i].len() + st.0[i + 1].len() >= max);
            } else {
                assert(chunk_ok(st.0[i], min, max, st.2));
            }
        }
    }
}

/// The state after walking some children packs greedily (see [`lemma_chunk_node_fills`]): the
/// last finished chunk and the chunk in progress together hold at least `max` bytes, or the last
/// finished chunk with any chunk long enough to be kept does.
#[verifier::rlimit(40)]
pub proof fn lemma_chunk_children_fill(
    n: SyntaxNode,
    k: int,
    src: Seq<u8>,
    last_end: int,
    cur: Seq<u8>,
    min: int,
    max: int,
)
    requires
        wf_node(n, last_end, src),
        valid_utf8(src),
        0 <= last_end,
        is_char_boundary(src, last_end),
        progress_ok(cur, max, last_end),
        0 <= min,
        0 <= k <= n.children@.len(),
    ensures
        ({
            let st = spec_chunk_children(n, k, src, last_end, cur, min, max);
            &&& spec_pairs_fill(st.0, max)
            &&& st.0.len() > 0 ==> (st.0.last().len() + st.1.len() >= max || st.0.last().len() + min >= max)
            &&& st.0.len() > 0 ==> (st.0[0].len() >= cur.len() || cur.len() == 0 || cur.len() < min)
            &&& st.0.len() == 0 ==> (st.1.len() >= cur.len() || cur.len() == 0 || cur.len() < min)
        }),
    decreases n, k,
{
    if k == 0 {
    } else {
        lemma_chunk_children_fill(n, k - 1, src, last_end, cur, min, max);
        lemma_chunk_children(n, k - 1, src, last_end, cur, min, max);
        let prev = spec_chunk_children(n, k - 1, src, last_end, cur, min, max);
        let chunks = prev.0;
        let cur1 = prev.1;
        let le = prev.2;
        let child = n.children@[k - 1];
        let end = child.end_byte as int;
        let size = end - le;
        let st = spec_chunk_children(n, k, src, last_end, cur, min, max);
        assert(wf_node(child, child_lower_bound(n, k - 1), src));
        assert(le <= child_lower_bound(n, k - 1));
        lemma_wf_lower(child, child_lower_bound(n, k - 1), le, src);
        assert(src.subrange(le, end).len() == size);
        if chunks.len() > 0 {
            assert(chunk_ok(chunks.last(), min, max, le));
        }
        if cur1.len() + size >= max {
            if size > max {
                lemma_chunk_node_fills(child, src, le, cur1, min, max);
                lemma_chunk_node(child, src, le, cur1, min, max);
                let sub = spec_chunk_node(child, src, le, cur1, min, max);
                if sub.len() > 0 {
                    let out = chunks + sub.drop_last();
                    assert(st.0 == out);
                    assert(chunk_ok(sub[0], min, max, end));
                    assert forall|i: int| 0 <= i < out.len() - 1 implies #[trigger] out[i].len() + out[i + 1].len() >= max by {
                        if i < chunks.len() - 1 {
                            assert(out[i] == chunks[i] && out[i + 1] == chunks[i + 1]);
                        } else if i == chunks.len() - 1 {
                            assert(out[i] == chunks.last());
                            assert(out[i + 1] == sub[0]);
                        } else {
                            let j = i - chunks.len();
                            assert(out[i] == sub[j] && out[i + 1] == sub[j + 1]);
                        }
                    }
                    if sub.len() >= 2 {
                        assert(out.last() == sub[sub.len() - 2]);
                        assert(sub[sub.len() - 2].len() + sub[sub.len() - 1].len() >= max);
                        if chunks.len() == 0 {
                            assert(out[0] == sub[0]);
                        } else {
                            assert(out[0] == chunks[0]);
                        }
                    } else {
                        assert(out =~= chunks);
                    }
                } else {
                    assert(st.0 == chunks);
                }
            } else {
                if cur1.len() > 0 && cur1.len() >= min {
                    let out = chunks.push(cur1);
                    assert forall|i: int| 0 <= i < out.len() - 1 implies #[trigger] out[i].len() + out[i + 1].len() >= max by {
                        if i < chunks.len() - 1 {
                            assert(out[i] == chunks[i] && out[i + 1] == chunks[i + 1]);
                        }
                    }
                    if chunks.len() > 0 {
                        assert(out[0] == chunks[0]);
                    }
                }
            }
        } else {
        }
    }
}

pub(crate) fn push_range(v: &mut Vec<u8>, src: &[u8], from: usize, to: usize)
    requires
        from <= to <= src@.len(),
    ensures
        final(v)@ == old(v)@ + src@.subrange(from as int, to as int),
{
    let ghost start = v@;
    let mut i = from;
    while i < to
        invariant
            from <= i <= to <= src@.len(),
            v@ == start + src@.subrange(from as int, i as int),
        decreases to - i,
    {
        v.push(src[i]);
        proof {
            assert(src@.subrange(from as int, i + 1) =~= src@.subrange(from as int, i as int).push(
                src@[i as int],
            ));
        }
        i = i + 1;
    }
}

/// Builds a string from bytes that are valid UTF-8 (`String::from_utf8`, which succeeds on valid
/// UTF-8 and keeps the bytes).
#[verifier::external_body]
pub(crate) fn string_from_utf8(bytes: Vec<u8>) -> (s: String)
    requires
        valid_utf8(bytes@),
    ensures
        s@ == decode_utf8(bytes@),
{
    String::from_utf8(bytes).unwrap()
}

impl CodeSplitter {
    /// A splitter for `language` with the default chunk size.
    pub fn new(language: SupportedLanguages) -> (r: CodeSplitter)
        ensures
            r.spec_language() == language,
            r.spec_chunk_size() == ChunkSize::Bytes(DEFAULT_MAX_BYTES),
    {
        CodeSplitter { chunk_size: ChunkSize::default_size(), language }
    }

    /// A builder with neither language nor chunk size set.
    pub fn builder() -> (r: CodeSplitterBuilder)
        ensures
            r.chunk_size is None,
            r.language is None,
    {
        CodeSplitterBuilder { chunk_size: None, language: None }
    }

    /// The language of the splitter.
    pub closed spec fn spec_language(&self) -> SupportedLanguages {
        self.language
    }

    /// The chunk size of the splitter.
    pub closed spec fn spec_chunk_size(&self) -> ChunkSize {
        self.chunk_size
    }

    /// The maximum number of bytes of a chunk.
    pub fn max_bytes(&self) -> (r: usize)
        ensures
            r == spec_max_bytes(self.spec_chunk_size()),
    {
        match &self.chunk_size {
            ChunkSize::Bytes(n) => *n,
            ChunkSize::Range(r) => r.end,
        }
    }

    /// Chunks shorter than this many bytes are discarded.
    pub fn min_bytes(&self) -> (r: usize)
        ensures
            r == spec_min_bytes(self.spec_chunk_size()),
    {
        match &self.chunk_size {
            ChunkSize::Bytes(_) => 0,
            ChunkSize::Range(r) => r.start,
        }
    }

    fn chunk_node(&self, node: &SyntaxNode, src: &[u8], last_end: usize, current: Vec<u8>) -> (r: Vec<Vec<u8>>)
        requires
            wf_node(*node, last_end as int, src@),
            valid_utf8(src@),
            is_char_boundary(src@, last_end as int),
            progress_ok(current@, spec_max_bytes(self.chunk_size), last_end as int),
        ensures
            bytes_view(r@) == spec_chunk_node(
                *node,
                src@,
                last_end as int,
                current@,
                spec_min_bytes(self.chunk_size),
                spec_max_bytes(self.chunk_size),
            ),
        decreases node,
    {
        let min = self.min_bytes();
        let max = self.max_bytes();
        let ghost cur0 = current@;
        let mut new_chunks: Vec<Vec<u8>> = Vec::new();
        let mut current = current;
        let mut last_end = last_end;
        let ghost le0 = last_end as int;
        let mut i: usize = 0;
        while i < node.children.len()
            invariant
                min == spec_min_bytes(self.chunk_size),
                max == spec_max_bytes(self.chunk_size),
                wf_node(*node, le0, src@),
                valid_utf8(src@),
                0 <= le0,
                is_char_boundary(src@, le0),
                progress_ok(cur0, max as int, le0),
                i <= node.children@.len(),
                (bytes_view(new_chunks@), current@, last_end as int) == spec_chunk_children(
                    *node,
                    i as int,
                    src@,
                    le0,
                    cur0,
                    min as int,
                    max as int,
                ),
            decreases node.children@.len() - i,
        {
            proof {
                lemma_chunk_children(*node, i as int, src@, le0, cur0, min as int, max as int);
                lemma_chunk_children(*node, i + 1, src@, le0, cur0, min as int, max as int);
            }
            let child = &node.children[i];
            proof {
                assert(wf_node(*child, child_lower_bound(*node, i as int), src@));
                lemma_wf_lower(*child, child_lower_bound(*node, i as int), last_end as int, src@);
            }
            let end = child.end_byte;
            let size = end - last_end;
            if current.len() + size >= max {
                if size > max {
                    let mut sub = self.chunk_node(child, src, last_end, current);
                    let ghost subv = bytes_view(sub@);
                    current = match sub.pop() {
                        Some(c) => c,
                        None => Vec::new(),
                    };
                    proof {
                        if subv.len() > 0 {
                            assert(bytes_view(sub@) =~= subv.drop_last());
                        }
                    }
                    let ghost before = bytes_view(new_chunks@);
                    let ghost rest = sub@;
                    new_chunks.append(&mut sub);
                    proof {
                        assert(bytes_view(new_chunks@) =~= before + bytes_view(rest));
                    }
                } else {
                    if current.len() > 0 && current.len() >= min {
                        new_chunks.push(current);
                    }
                    current = Vec::new();
                    push_range(&mut current, src, last_end, end);
                    proof {
                        assert(current@ =~= src@.subrange(last_end as int, end as int));
                    }
                }
            } else {
                push_range(&mut current, src, last_end, end);
            }
            last_end = end;
            i = i + 1;
            proof {
                assert(bytes_view(new_chunks@) =~= spec_chunk_children(
                    *node,
                    i as int,
                    src@,
                    le0,
                    cur0,
                    min as int,
                    max as int,
                ).0);
            }
        }
        if current.len() > 0 && current.len() >= min {
            new_chunks.push(current);
        }
        proof {
            assert(bytes_view(new_chunks@) =~= spec_chunk_node(
                *node,
                src@,
                le0,
                cur0,
                min as int,
                max as int,
            ));
        }
        new_chunks
    }

    /// The byte chunks of `code` under `tree`, as specified by [`spec_chunk_node`].
    pub open spec fn spec_tree_chunks(&self, tree: SyntaxNode, code: &str) -> Seq<Seq<u8>> {
        spec_chunk_node(
            tree,
            code.spec_bytes(),
            0,
            Seq::<u8>::empty(),
            spec_min_bytes(self.spec_chunk_size()),
            spec_max_bytes(self.spec_chunk_size()),
        )
    }

    /// Chunks `code` along `tree`, a syntax tree of the code. Each chunk is the UTF-8 text of the
    /// corresponding byte chunk of [`Self::spec_tree_chunks`]; every chunk is at least
    /// `min_bytes` and at most `max_bytes` bytes long.
    pub fn chunk_tree(&self, tree: &SyntaxNode, code: &str) -> (r: Vec<String>)
        requires
            wf_node(*tree, 0, code.spec_bytes()),
        ensures
            r@.len() == self.spec_tree_chunks(*tree, code).len(),
            forall|i: int|
                0 <= i < r@.len() ==> encode_utf8(#[trigger] r@[i]@) == self.spec_tree_chunks(
                    *tree,
                    code,
                )[i],
            forall|i: int|
                0 <= i < r@.len() ==> spec_min_bytes(self.spec_chunk_size()) <= encode_utf8(
                    #[trigger] r@[i]@,
                ).len() <= spec_max_bytes(self.spec_chunk_size()),
            forall|i: int| 0 <= i < r@.len() ==> encode_utf8(#[trigger] r@[i]@).len() > 0,
            forall|i: int|
                0 <= i < r@.len() - 1 ==> encode_utf8(#[trigger] r@[i]@).len() + encode_utf8(
                    r@[i + 1]@,
                ).len() >= spec_max_bytes(self.spec_chunk_size()),
    {
        let src = code.as_bytes();
        proof {
            encode_utf8_valid_utf8(code@);
            is_char_boundary_start_end_of_seq(src@);
            reveal_with_fuel(valid_utf8, 1);
        }
        let empty: Vec<u8> = Vec::new();
        let mut chunks = self.chunk_node(tree, src, 0, empty);
        let ghost spec_chunks = bytes_view(chunks@);
        proof {
            assert(spec_chunks == self.spec_tree_chunks(*tree, code));
            lemma_chunk_node(
                *tree,
                src@,
                0,
                Seq::<u8>::empty(),
                spec_min_bytes(self.chunk_size),
                spec_max_bytes(self.chunk_size),
            );
            lemma_chunk_node_fills(
                *tree,
                src@,
                0,
                Seq::<u8>::empty(),
                spec_min_bytes(self.chunk_size),
                spec_max_bytes(self.chunk_size),
            );
        }
        let mut out: Vec<String> = Vec::new();
        let mut rev: Vec<String> = Vec::new();
        while chunks.len() > 0
            invariant
                chunks@.len() + rev@.len() == spec_chunks.len(),
                forall|j: int| 0 <= j < chunks@.len() ==> #[trigger] chunks@[j]@ == spec_chunks[j],
                forall|j: int|
                    0 <= j < rev@.len() ==> #[trigger] rev@[j]@ == decode_utf8(
                        spec_chunks[spec_chunks.len() - 1 - j],
                    ),
                all_chunks_ok(
                    spec_chunks,
                    spec_min_bytes(self.chunk_size),
                    spec_max_bytes(self.chunk_size),
                    tree.end_byte as int,
                ),
            decreases chunks@.len(),
        {
            let last = chunks.pop().unwrap();
            proof {
                assert(chunk_ok(
                    spec_chunks[chunks@.len() as int],
                    spec_min_bytes(self.chunk_size),
                    spec_max_bytes(self.chunk_size),
                    tree.end_byte as int,
                ));
            }
            rev.push(string_from_utf8(last));
        }
        while rev.len() > 0
            invariant
                out@.len() + rev@.len() == spec_chunks.len(),
                forall|j: int|
                    0 <= j < rev@.len() ==> #[trigger] rev@[j]@ == decode_utf8(
                        spec_chunks[spec_chunks.len() - 1 - j],
                    ),
                forall|j: int| 0 <= j < out@.len() ==> #[trigger] out@[j]@ == decode_utf8(spec_chunks[j]),
            decreases rev@.len(),
        {
            let s = rev.pop().unwrap();
            out.push(s);
        }
        proof {
            assert forall|j: int| 0 <= j < out@.len() implies encode_utf8(#[trigger] out@[j]@)
                == spec_chunks[j] by {
                assert(chunk_ok(
                    spec_chunks[j],
                    spec_min_bytes(self.chunk_size),
                    spec_max_bytes(self.chunk_size),
                    tree.end_byte as int,
                ));
                decode_utf8_encode_utf8(spec_chunks[j]);
            }
            assert forall|j: int| 0 <= j < out@.len() implies spec_min_bytes(self.spec_chunk_size())
                <= encode_utf8(#[trigger] out@[j]@).len() <= spec_max_bytes(self.spec_chunk_size())
                && encode_utf8(out@[j]@).len() > 0 by {
                assert(chunk_ok(
                    spec_chunks[j],
                    spec_min_bytes(self.chunk_size),
                    spec_max_bytes(self.chunk_size),
                    tree.end_byte as int,
                ));
                decode_utf8_encode_utf8(spec_chunks[j]);
            }
        }
        out
    }

    /// Whether `v` is the chunking of `code` along its syntax tree `tree` (see
    /// [`Self::chunk_tree`]): the chunks of [`Self::spec_tree_chunks`], each non-empty, at least
    /// `min_bytes` and at most `max_bytes` bytes long, two consecutive chunks together holding at
    /// least `max_bytes` bytes.
    pub open spec fn spec_tree_chunking(&self, code: &str, tree: SyntaxNode, v: Seq<String>) -> bool {
        &&& v.len() == self.spec_tree_chunks(tree, code).len()
        &&& forall|i: int|
            0 <= i < v.len() ==> encode_utf8(#[trigger] v[i]@) == self.spec_tree_chunks(tree, code)[i]
        &&& forall|i: int|
            0 <= i < v.len() ==> spec_min_bytes(self.spec_chunk_size()) <= encode_utf8(
                #[trigger] v[i]@,
            ).len() <= spec_max_bytes(self.spec_chunk_size())
        &&& forall|i: int| 0 <= i < v.len() ==> encode_utf8(#[trigger] v[i]@).len() > 0
        &&& forall|i: int|
            0 <= i < v.len() - 1 ==> encode_utf8(#[trigger] v[i]@).len() + encode_utf8(
                v[i + 1]@,
            ).len() >= spec_max_bytes(self.spec_chunk_size())
    }

    /// `r` is what splitting `code` gives after tree-sitter's parse (see [`ts_parse_tree`]):
    /// `NoNodesFound` when it gives no tree; the whole code as the only chunk when the tree has
    /// syntax errors; the chunks of the tree (see [`Self::spec_tree_chunking`]) when it is well
    /// formed over the code; `InvalidSpans` otherwise.
    pub open spec fn spec_split(&self, code: &str, r: Result<Vec<String>, CodeToolError>) -> bool {
        match ts_parse_tree(self.spec_language(), code@) {
            None => r matches Err(e) && e is NoNodesFound,
            Some(p) => if p.1 {
                r matches Ok(v) && v@.len() == 1 && v@[0]@ == code@
            } else if wf_node(p.0, 0, code.spec_bytes()) {
                r matches Ok(v) && self.spec_tree_chunking(code, p.0, v@)
            } else {
                r matches Err(e) && e is InvalidSpans
            },
        }
    }

    /// Splits `code` into chunks along tree-sitter's parse tree (see [`Self::spec_split`]).
    pub fn split(&self, code: &str) -> (r: Result<Vec<String>, CodeToolError>)
        ensures
            self.spec_split(code, r),
    {
        match parse_code(self.language, code) {
            ParsedCode::NoTree => Err(CodeToolError::NoNodesFound),
            ParsedCode::InvalidSpans => Err(CodeToolError::InvalidSpans),
            ParsedCode::SyntaxError => {
                let whole = code.to_owned();
                Ok(vec![whole])
            },
            ParsedCode::Tree(tree) => Ok(self.chunk_tree(&tree, code)),
        }
    }
}

} // verus!
