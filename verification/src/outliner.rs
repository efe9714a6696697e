//! Outlining code: keeping declarations, signatures and comments while dropping function bodies.
use vstd::prelude::*;
use vstd::utf8::*;
use vstd::string::StringSliceAdditionalSpecFns;
use crate::supported_languages::{SupportedLanguages, LanguageSelector};
use crate::syntax_tree::{SyntaxNode, wf_node, child_lower_bound, parse_code, ParsedCode, ts_parse_tree};
use crate::splitter::{CodeToolError, lemma_subrange_valid_utf8, push_range, string_from_utf8};
use crate::text::string_is;

verus! {

broadcast use vstd::string::group_string_axioms;

/// Whether the outliner has rules for `lang`.
pub open spec fn spec_outline_supported(lang: SupportedLanguages) -> bool {
    match lang {
        SupportedLanguages::Rust | SupportedLanguages::Java | SupportedLanguages::Typescript
        | SupportedLanguages::Javascript | SupportedLanguages::Python
        | SupportedLanguages::Ruby => true,
        _ => false,
    }
}

/// Whether a node of kind `kind` whose parent has kind `parent` is left out of an outline: blocks
/// in Rust and Java, statement blocks in TypeScript and JavaScript, function bodies in Python and
/// method bodies in Ruby.
pub open spec fn spec_is_unneeded(lang: SupportedLanguages, kind: Seq<char>, parent: Seq<char>) -> bool {
    match lang {
        SupportedLanguages::Rust | SupportedLanguages::Java => kind == seq!['b', 'l', 'o', 'c', 'k'],
        SupportedLanguages::Typescript | SupportedLanguages::Javascript => kind == seq![
            's', 't', 'a', 't', 'e', 'm', 'e', 'n', 't', '_', 'b', 'l', 'o', 'c', 'k',
        ],
        SupportedLanguages::Python => kind == seq!['b', 'l', 'o', 'c', 'k'] && parent == seq![
            'f', 'u', 'n', 'c', 't', 'i', 'o', 'n', '_', 'd', 'e', 'f', 'i', 'n', 'i', 't', 'i', 'o', 'n',
        ],
        SupportedLanguages::Ruby => kind == seq![
            'b', 'o', 'd', 'y', '_', 's', 't', 'a', 't', 'e', 'm', 'e', 'n', 't',
        ] && parent == seq!['m', 'e', 't', 'h', 'o', 'd'],
        _ => false,
    }
}

/// The outline text (as bytes) contributed by `n`, whose parent has kind `parent`, when the
/// previous piece of source ended at `last_end`, and where the next piece starts. A dropped node
/// contributes the source up to its start; a leaf the source up to its end; any other node what
/// its children contribute.
pub open spec fn spec_outline_node(
    lang: SupportedLanguages,
    n: SyntaxNode,
    parent: Seq<char>,
    src: Seq<u8>,
    last_end: int,
) -> (Seq<u8>, int)
    decreases n, n.children@.len() + 1,
{
    if spec_is_unneeded(lang, n.kind@, parent) {
        (src.subrange(last_end, n.start_byte as int), n.end_byte as int)
    } else if n.children@.len() == 0 {
        (src.subrange(last_end, n.end_byte as int), n.end_byte as int)
    } else {
        spec_outline_children(lang, n, n.children@.len() as int, src, last_end)
    }
}

/// The outline text contributed by the first `k` children of `n`, and where the next piece starts.
pub open spec fn spec_outline_children(
    lang: SupportedLanguages,
    n: SyntaxNode,
    k: int,
    src: Seq<u8>,
    last_end: int,
) -> (Seq<u8>, int)
    decreases n, k,
{
    if k <= 0 || k > n.children@.len() {
        (Seq::<u8>::empty(), last_end)
    } else {
        let prev = spec_outline_children(lang, n, k - 1, src, last_end);
        let next = spec_outline_node(lang, n.children@[k - 1], n.kind@, src, prev.1);
        (prev.0 + next.0, next.1)
    }
}

/// In TypeScript and JavaScript every statement block is left out of the outline, whatever its
/// parent: the outline keeps the source up to the block's start and goes on after its end.
pub proof fn lemma_outline_drops_statement_blocks(
    lang: SupportedLanguages,
    n: SyntaxNode,
    parent: Seq<char>,
    src: Seq<u8>,
    last_end: int,
)
    requires
        lang == SupportedLanguages::Typescript || lang == SupportedLanguages::Javascript,
        n.kind@ == seq!['s', 't', 'a', 't', 'e', 'm', 'e', 'n', 't', '_', 'b', 'l', 'o', 'c', 'k'],
    ensures
        spec_outline_node(lang, n, parent, src, last_end) == (
            src.subrange(last_end, n.start_byte as int),
            n.end_byte as int,
        ),
{
}

/// In Rust and Java every block is left out of the outline, whatever its parent.
pub proof fn lemma_outline_drops_blocks(
    lang: SupportedLanguages,
    n: SyntaxNode,
    parent: Seq<char>,
    src: Seq<u8>,
    last_end: int,
)
    requires
        lang == SupportedLanguages::Rust || lang == SupportedLanguages::Java,
        n.kind@ == seq!['b', 'l', 'o', 'c', 'k'],
    ensures
        spec_outline_node(lang, n, parent, src, last_end) == (
            src.subrange(last_end, n.start_byte as int),
            n.end_byte as int,
        ),
{
}

/// In Python a block is left out exactly when it is the body of a function definition; in Ruby a
/// body statement exactly when it is the body of a method.
pub proof fn lemma_outline_drops_bodies(
    n: SyntaxNode,
    parent: Seq<char>,
    src: Seq<u8>,
    last_end: int,
)
    ensures
        n.kind@ == seq!['b', 'l', 'o', 'c', 'k'] && parent == seq![
            'f', 'u', 'n', 'c', 't', 'i', 'o', 'n', '_', 'd', 'e', 'f', 'i', 'n', 'i', 't', 'i', 'o', 'n',
        ] ==> spec_outline_node(SupportedLanguages::Python, n, parent, src, last_end) == (
            src.subrange(last_end, n.start_byte as int),
            n.end_byte as int,
        ),
        n.kind@ == seq!['b', 'l', 'o', 'c', 'k'] && parent != seq![
            'f', 'u', 'n', 'c', 't', 'i', 'o', 'n', '_', 'd', 'e', 'f', 'i', 'n', 'i', 't', 'i', 'o', 'n',
        ] && n.children@.len() == 0 ==> spec_outline_node(SupportedLanguages::Python, n, parent, src, last_end) == (
            src.subrange(last_end, n.end_byte as int),
            n.end_byte as int,
        ),
        n.kind@ == seq!['b', 'o', 'd', 'y', '_', 's', 't', 'a', 't', 'e', 'm', 'e', 'n', 't']
            && parent == seq!['m', 'e', 't', 'h', 'o', 'd'] ==> spec_outline_node(
            SupportedLanguages::Ruby,
            n,
            parent,
            src,
            last_end,
        ) == (src.subrange(last_end, n.start_byte as int), n.end_byte as int),
{
}

/// A leaf that is not a statement block is kept whole in a TypeScript or JavaScript outline: the
/// outline takes the source up to its end.
pub proof fn lemma_outline_keeps_leaves(
    lang: SupportedLanguages,
    n: SyntaxNode,
    parent: Seq<char>,
    src: Seq<u8>,
    last_end: int,
)
    requires
        lang == SupportedLanguages::Typescript || lang == SupportedLanguages::Javascript,
        n.kind@ != seq!['s', 't', 'a', 't', 'e', 'm', 'e', 'n', 't', '_', 'b', 'l', 'o', 'c', 'k'],
        n.children@.len() == 0,
    ensures
        spec_outline_node(lang, n, parent, src, last_end) == (
            src.subrange(last_end, n.end_byte as int),
            n.end_byte as int,
        ),
{
}

/// Facts about the outline of a node: it is valid UTF-8, it covers at most the bytes between
/// where it starts and where it leaves off, and it leaves off at the end of the node.
pub proof fn lemma_outline_node(
    lang: SupportedLanguages,
    n: SyntaxNode,
    parent: Seq<char>,
    src: Seq<u8>,
    last_end: int,
)
    requires
        wf_node(n, last_end, src),
        valid_utf8(src),
        0 <= last_end,
        is_char_boundary(src, last_end),
    ensures
        ({
            let r = spec_outline_node(lang, n, parent, src, last_end);
            &&& valid_utf8(r.0)
            &&& last_end <= r.1 <= n.end_byte
            &&& r.0.len() <= r.1 - last_end
            &&& is_char_boundary(src, r.1)
        }),
    decreases n, n.children@.len() + 1,
{
    if spec_is_unneeded(lang, n.kind@, parent) {
        lemma_subrange_valid_utf8(src, last_end, n.start_byte as int);
    } else if n.children@.len() == 0 {
        lemma_subrange_valid_utf8(src, last_end, n.end_byte as int);
    } else {
        let len = n.children@.len() as int;
        lemma_outline_children(lang, n, len, src, last_end);
        assert(n.children@[len - 1].end_byte <= n.end_byte);
    }
}

/// Facts about the outline of the first `k` children of a node.
pub proof fn lemma_outline_children(
    lang: SupportedLanguages,
    n: SyntaxNode,
    k: int,
    src: Seq<u8>,
    last_end: int,
)
    requires
        wf_node(n, last_end, src),
        valid_utf8(src),
        0 <= last_end,
        is_char_boundary(src, last_end),
        0 <= k <= n.children@.len(),
    ensures
        ({
            let r = spec_outline_children(lang, n, k, src, last_end);
            &&& valid_utf8(r.0)
            &&& last_end <= r.1
            &&& (k == 0 ==> r.1 == last_end)
            &&& (k > 0 ==> r.1 <= n.children@[k - 1].end_byte)
            &&& r.0.len() <= r.1 - last_end
            &&& is_char_boundary(src, r.1)
        }),
    decreases n, k,
{
    if k == 0 {
        reveal_with_fuel(valid_utf8, 1);
    } else {
        lemma_outline_children(lang, n, k - 1, src, last_end);
        let prev = spec_outline_children(lang, n, k - 1, src, last_end);
        let child = n.children@[k - 1];
        assert(wf_node(child, child_lower_bound(n, k - 1), src));
        assert(prev.1 <= child_lower_bound(n, k - 1));
        lemma_outline_node(lang, child, n.kind@, src, prev.1);
        let next = spec_outline_node(lang, child, n.kind@, src, prev.1);
        valid_utf8_concat(prev.0, next.0);
    }
}

/// Generates outlines of code files: declarations, signatures and comments with the bodies of
/// functions left out.
pub struct CodeOutliner {
    pub(crate) language: SupportedLanguages,
}

/// Builder for [`CodeOutliner`].
pub struct CodeOutlinerBuilder {
    pub language: Option<SupportedLanguages>,
}

impl CodeOutlinerBuilder {
    /// Sets the language, failing when the value does not name a supported language.
    pub fn try_language<L: LanguageSelector>(self, language: L) -> (r: Result<
        CodeOutlinerBuilder,
        CodeToolError,
    >)
        ensures
            match language.spec_selected_language() {
                Some(l) => r == Ok::<CodeOutlinerBuilder, CodeToolError>(
                    CodeOutlinerBuilder { language: Some(l) },
                ),
                None => r == Err::<CodeOutlinerBuilder, CodeToolError>(
                    CodeToolError::UnsupportedLanguage,
                ),
            },
    {
        match language.selected_language() {
            Some(l) => Ok(CodeOutlinerBuilder { language: Some(l) }),
            None => Err(CodeToolError::UnsupportedLanguage),
        }
    }

    /// Builds the outliner; the language is required.
    pub fn build(self) -> (r: Result<CodeOutliner, CodeToolError>)
        ensures
            match self.language {
                Some(l) => r matches Ok(o) && o.spec_language() == l,
                None => r == Err::<CodeOutliner, CodeToolError>(CodeToolError::MissingLanguage),
            },
    {
        match self.language {
            Some(language) => Ok(CodeOutliner { language }),
            None => Err(CodeToolError::MissingLanguage),
        }
    }
}

fn kind_is_unneeded(lang: SupportedLanguages, kind: &String, parent: &String) -> (r: bool)
    ensures
        r == spec_is_unneeded(lang, kind@, parent@),
{
    let block = vec!['b', 'l', 'o', 'c', 'k'];
    proof {
        assert(block@ =~= seq!['b', 'l', 'o', 'c', 'k']);
    }
    match lang {
        SupportedLanguages::Rust | SupportedLanguages::Java => string_is(kind, block.as_slice()),
        SupportedLanguages::Typescript | SupportedLanguages::Javascript => {
            let sb = vec!['s', 't', 'a', 't', 'e', 'm', 'e', 'n', 't', '_', 'b', 'l', 'o', 'c', 'k'];
            proof {
                assert(sb@ =~= seq![
                    's', 't', 'a', 't', 'e', 'm', 'e', 'n', 't', '_', 'b', 'l', 'o', 'c', 'k',
                ]);
            }
            string_is(kind, sb.as_slice())
        },
        SupportedLanguages::Python => {
            let fd = vec![
                'f', 'u', 'n', 'c', 't', 'i', 'o', 'n', '_', 'd', 'e', 'f', 'i', 'n', 'i', 't', 'i', 'o', 'n',
            ];
            proof {
                assert(fd@ =~= seq![
                    'f', 'u', 'n', 'c', 't', 'i', 'o', 'n', '_', 'd', 'e', 'f', 'i', 'n', 'i', 't', 'i', 'o', 'n',
                ]);
            }
            string_is(kind, block.as_slice()) && string_is(parent, fd.as_slice())
        },
        SupportedLanguages::Ruby => {
            let bs = vec!['b', 'o', 'd', 'y', '_', 's', 't', 'a', 't', 'e', 'm', 'e', 'n', 't'];
            let m = vec!['m', 'e', 't', 'h', 'o', 'd'];
            proof {
                assert(bs@ =~= seq!['b', 'o', 'd', 'y', '_', 's', 't', 'a', 't', 'e', 'm', 'e', 'n', 't']);
                assert(m@ =~= seq!['m', 'e', 't', 'h', 'o', 'd']);
            }
            string_is(kind, bs.as_slice()) && string_is(parent, m.as_slice())
        },
        _ => false,
    }
}

impl CodeOutliner {
    /// An outliner for `language`.
    pub fn new(language: SupportedLanguages) -> (r: CodeOutliner)
        ensures
            r.spec_language() == language,
    {
        CodeOutliner { language }
    }

    /// A builder without a language.
    pub fn builder() -> (r: CodeOutlinerBuilder)
        ensures
            r.language is None,
    {
        CodeOutlinerBuilder { language: None }
    }

    /// The language of the outliner.
    pub closed spec fn spec_language(&self) -> SupportedLanguages {
        self.language
    }

    fn outline_node(
        &self,
        n: &SyntaxNode,
        parent: &String,
        src: &[u8],
        summary: &mut Vec<u8>,
        last_end: &mut usize,
    )
        requires
            wf_node(*n, *old(last_end) as int, src@),
            valid_utf8(src@),
            is_char_boundary(src@, *old(last_end) as int),
        ensures
            ({
                let r = spec_outline_node(self.language, *n, parent@, src@, *old(last_end) as int);
                &&& final(summary)@ == old(summary)@ + r.0
                &&& *final(last_end) as int == r.1
            }),
        decreases n,
    {
        proof {
            lemma_outline_node(self.language, *n, parent@, src@, *last_end as int);
        }
        if kind_is_unneeded(self.language, &n.kind, parent) {
            push_range(summary, src, *last_end, n.start_byte);
            *last_end = n.end_byte;
        } else if n.children.len() == 0 {
            push_range(summary, src, *last_end, n.end_byte);
            *last_end = n.end_byte;
        } else {
            let ghost le0 = *last_end as int;
            let ghost s0 = summary@;
            let mut i: usize = 0;
            while i < n.children.len()
                invariant
                    wf_node(*n, le0, src@),
                    valid_utf8(src@),
                    0 <= le0,
                    is_char_boundary(src@, le0),
                    i <= n.children@.len(),
                    ({
                        let r = spec_outline_children(self.language, *n, i as int, src@, le0);
                        &&& summary@ == s0 + r.0
                        &&& *last_end as int == r.1
                    }),
                decreases n.children@.len() - i,
            {
                proof {
                    lemma_outline_children(self.language, *n, i as int, src@, le0);
                    assert(wf_node(n.children@[i as int], child_lower_bound(*n, i as int), src@));
                }
                let ghost before = summary@;
                self.outline_node(&n.children[i], &n.kind, src, summary, last_end);
                i = i + 1;
                proof {
                    let prev = spec_outline_children(self.language, *n, i - 1, src@, le0);
                    let next = spec_outline_node(
                        self.language,
                        n.children@[i - 1],
                        n.kind@,
                        src@,
                        prev.1,
                    );
                    assert(summary@ =~= s0 + (prev.0 + next.0));
                }
            }
        }
    }

    /// The outline of `code` (as bytes) under its syntax tree `tree`.
    pub open spec fn spec_outline(&self, tree: SyntaxNode, code: &str) -> Seq<u8> {
        spec_outline_node(self.spec_language(), tree, Seq::<char>::empty(), code.spec_bytes(), 0).0
    }

    /// The outline of `code` under its syntax tree `tree`; it is never longer than the code.
    pub fn outline_tree(&self, tree: &SyntaxNode, code: &str) -> (r: String)
        requires
            wf_node(*tree, 0, code.spec_bytes()),
        ensures
            encode_utf8(r@) == self.spec_outline(*tree, code),
            encode_utf8(r@).len() <= code.spec_bytes().len(),
    {
        let src = code.as_bytes();
        proof {
            encode_utf8_valid_utf8(code@);
            is_char_boundary_start_end_of_seq(src@);
            lemma_outline_node(self.language, *tree, Seq::<char>::empty(), src@, 0);
        }
        let mut summary: Vec<u8> = Vec::new();
        let mut last_end: usize = 0;
        let root_parent = String::new();
        self.outline_node(tree, &root_parent, src, &mut summary, &mut last_end);
        proof {
            assert(summary@ =~= self.spec_outline(*tree, code));
            decode_utf8_encode_utf8(summary@);
        }
        string_from_utf8(summary)
    }

    /// `r` is what outlining `code` gives after tree-sitter's parse (see [`ts_parse_tree`]):
    /// `NoNodesFound` when it gives no tree; `InvalidSyntax` when the tree has syntax errors; the
    /// outline of [`Self::outline_tree`] under the tree when it is well formed over the code;
    /// `InvalidSpans` otherwise.
    pub open spec fn spec_outline_result(&self, code: &str, r: Result<String, CodeToolError>) -> bool {
        match ts_parse_tree(self.spec_language(), code@) {
            None => r matches Err(e) && e is NoNodesFound,
            Some(p) => if p.1 {
                r matches Err(e) && e is InvalidSyntax
            } else if wf_node(p.0, 0, code.spec_bytes()) {
                r matches Ok(s) && encode_utf8(s@) == self.spec_outline(p.0, code)
                    && encode_utf8(s@).len() <= code.spec_bytes().len()
            } else {
                r matches Err(e) && e is InvalidSpans
            },
        }
    }

    /// Outlines `code` under tree-sitter's parse tree (see [`Self::spec_outline_result`]).
    pub fn outline(&self, code: &str) -> (r: Result<String, CodeToolError>)
        requires
            spec_outline_supported(self.spec_language()),
        ensures
            self.spec_outline_result(code, r),
    {
        match parse_code(self.language, code) {
            ParsedCode::NoTree => Err(CodeToolError::NoNodesFound),
            ParsedCode::InvalidSpans => Err(CodeToolError::InvalidSpans),
            ParsedCode::SyntaxError => Err(CodeToolError::InvalidSyntax),
            ParsedCode::Tree(tree) => Ok(self.outline_tree(&tree, code)),
        }
    }
}

} // verus!
