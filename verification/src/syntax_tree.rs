//! A plain syntax tree (kinds and byte spans) and its construction from a tree-sitter parse.
use vstd::prelude::*;
use vstd::utf8::*;
use vstd::string::StringSliceAdditionalSpecFns;
use crate::supported_languages::SupportedLanguages;

verus! {

broadcast use vstd::string::group_string_axioms;

/// One node of a concrete syntax tree: its grammar kind, the field of its parent it fills (if
/// any), its byte span in the source and its children in source order.
pub struct SyntaxNode {
    pub kind: String,
    pub field: Option<String>,
    pub start_byte: usize,
    pub end_byte: usize,
    pub children: Vec<SyntaxNode>,
}

/// The lower bound for the start of the `i`-th child of `n`: the start of `n` for the first
/// child, the end of the previous sibling otherwise.
pub open spec fn child_lower_bound(n: SyntaxNode, i: int) -> int {
    if i == 0 {
        n.start_byte as int
    } else {
        n.children@[i - 1].end_byte as int
    }
}

/// A node is well formed over `src` when it does not start before `lo`, its span lies inside
/// the source with both ends on character boundaries, and its children are well formed, ordered
/// and contained in it.
pub open spec fn wf_node(n: SyntaxNode, lo: int, src: Seq<u8>) -> bool
    decreases n,
{
    &&& lo <= n.start_byte
    &&& n.start_byte <= n.end_byte
    &&& n.end_byte <= src.len()
    &&& is_char_boundary(src, n.start_byte as int)
    &&& is_char_boundary(src, n.end_byte as int)
    &&& forall|i: int|
        #![trigger n.children@[i]]
        0 <= i < n.children@.len() ==> {
            &&& wf_node(n.children@[i], child_lower_bound(n, i), src)
            &&& n.children@[i].end_byte <= n.end_byte
        }
}

/// Checks [`wf_node`].
pub fn is_well_formed(n: &SyntaxNode, lo: usize, src: &str) -> (r: bool)
    ensures
        r == wf_node(*n, lo as int, src.spec_bytes()),
{
    let bytes = src.as_bytes();
    check_well_formed(n, lo, src, bytes.len())
}

fn check_well_formed(n: &SyntaxNode, lo: usize, src: &str, src_len: usize) -> (r: bool)
    requires
        src_len == src.spec_bytes().len(),
    ensures
        r == wf_node(*n, lo as int, src.spec_bytes()),
    decreases n,
{
    if !(lo <= n.start_byte && n.start_byte <= n.end_byte && n.end_byte <= src_len
        && src.is_char_boundary(n.start_byte) && src.is_char_boundary(n.end_byte)) {
        return false;
    }
    let mut i: usize = 0;
    while i < n.children.len()
        invariant
            i <= n.children@.len(),
            src_len == src.spec_bytes().len(),
            lo <= n.start_byte <= n.end_byte,
            n.end_byte <= src_len,
            is_char_boundary(src.spec_bytes(), n.start_byte as int),
            is_char_boundary(src.spec_bytes(), n.end_byte as int),
            forall|j: int|
                #![trigger n.children@[j]]
                0 <= j < i ==> {
                    &&& wf_node(n.children@[j], child_lower_bound(*n, j), src.spec_bytes())
                    &&& n.children@[j].end_byte <= n.end_byte
                },
        decreases n.children@.len() - i,
    {
        let child_lo = if i == 0 {
            n.start_byte
        } else {
            n.children[i - 1].end_byte
        };
        assert(child_lo == child_lower_bound(*n, i as int));
        if !check_well_formed(&n.children[i], child_lo, src, src_len) {
            return false;
        }
        if n.children[i].end_byte > n.end_byte {
            return false;
        }
        i = i + 1;
    }
    true
}

/// Declares tree-sitter's syntax node type.
#[verifier::external_type_specification]
#[verifier::external_body]
pub struct ExTsNode<'tree>(tree_sitter::Node<'tree>);

/// Declares tree-sitter's language handle.
#[verifier::external_type_specification]
#[verifier::external_body]
pub struct ExTsLanguage(tree_sitter::Language);

/// The tree-sitter grammar of a language (the `LANGUAGE` constant of the grammar crate).
#[verifier::external_body]
pub(crate) fn ts_language(lang: SupportedLanguages) -> tree_sitter::Language {
    match lang {
        SupportedLanguages::Rust => tree_sitter_rust::LANGUAGE.into(),
        SupportedLanguages::Typescript => tree_sitter_typescript::LANGUAGE_TYPESCRIPT.into(),
        SupportedLanguages::Python => tree_sitter_python::LANGUAGE.into(),
        SupportedLanguages::Ruby => tree_sitter_ruby::LANGUAGE.into(),
        SupportedLanguages::Javascript => tree_sitter_javascript::LANGUAGE.into(),
        SupportedLanguages::Java => tree_sitter_java::LANGUAGE.into(),
        SupportedLanguages::Go => tree_sitter_go::LANGUAGE.into(),
        SupportedLanguages::Solidity => tree_sitter_solidity::LANGUAGE.into(),
        SupportedLanguages::C => tree_sitter_c::LANGUAGE.into(),
        SupportedLanguages::Cpp => tree_sitter_cpp::LANGUAGE.into(),
    }
}

/// What tree-sitter makes of `code` in `lang`: `None` when it gives no tree (the grammar does not
/// load or the parser returns none), else the tree as plain nodes (see [`ts_parse`]) and whether
/// its root reports syntax errors. It depends on the language and the code alone.
pub uninterp spec fn ts_parse_tree(lang: SupportedLanguages, code: Seq<char>) -> Option<(SyntaxNode, bool)>;

/// Whether tree-sitter gives a tree for `code` in `lang` and, if so, whether its root reports
/// syntax errors.
pub open spec fn ts_parse_outcome(lang: SupportedLanguages, code: Seq<char>) -> Option<bool> {
    match ts_parse_tree(lang, code) {
        Some(p) => Some(p.1),
        None => None,
    }
}

/// The plain copy of a tree-sitter node and its subtree, node for node: each node's kind
/// (`Node::kind`), the field it fills in its parent (`Node::field_name_for_child`), its span
/// (`Node::start_byte`, `Node::end_byte`) and its children (`Node::child`) in order.
#[verifier::external_body]
fn ts_syntax_node(node: tree_sitter::Node, field: Option<&str>) -> SyntaxNode {
    let mut children = Vec::new();
    for i in 0..node.child_count() {
        if let Some(child) = node.child(i) {
            children.push(ts_syntax_node(child, node.field_name_for_child(i)));
        }
    }
    let kind = node.kind().to_string();
    let field = match field {
        Some(f) => Some(f.to_string()),
        None => None,
    };
    SyntaxNode { kind, field, start_byte: node.start_byte(), end_byte: node.end_byte(), children }
}

/// Parses `code` with tree-sitter (`Parser::new`, `Parser::set_language` with the grammar of
/// `lang`, `Parser::parse`) and gives the tree as plain nodes (see `ts_syntax_node`) with
/// whether its root reports syntax errors (`Tree::root_node`, `Node::has_error`). `None` when
/// the grammar cannot be loaded or the parser returns no tree.
#[verifier::external_body]
pub(crate) fn ts_parse(lang: SupportedLanguages, code: &str) -> (r: Option<(SyntaxNode, bool)>)
    ensures
        r == ts_parse_tree(lang, code@),
{
    let mut parser = tree_sitter::Parser::new();
    parser.set_language(&ts_language(lang)).ok()?;
    let tree = parser.parse(code, None)?;
    let root = tree.root_node();
    Some((ts_syntax_node(root, None), root.has_error()))
}

/// The outcome of parsing a piece of code.
pub enum ParsedCode {
    /// The grammar could not be loaded or the parser produced no tree.
    NoTree,
    /// The parse tree contains syntax errors.
    SyntaxError,
    /// The parse tree, well formed over the code's bytes.
    Tree(SyntaxNode),
    /// The parser reported spans that do not fit the code.
    InvalidSpans,
}

/// The outcome of a parse without syntax errors whose plain copy is `tree`: the tree when it is
/// well formed over the bytes of `code`, else invalid spans.
pub open spec fn spec_checked_tree(tree: SyntaxNode, code: Seq<u8>) -> ParsedCode {
    if wf_node(tree, 0, code) {
        ParsedCode::Tree(tree)
    } else {
        ParsedCode::InvalidSpans
    }
}

/// Keeps a parse tree that is well formed over the bytes of `code` (see [`spec_checked_tree`]).
pub fn check_tree(tree: SyntaxNode, code: &str) -> (r: ParsedCode)
    ensures
        r == spec_checked_tree(tree, code.spec_bytes()),
{
    if is_well_formed(&tree, 0, code) {
        ParsedCode::Tree(tree)
    } else {
        ParsedCode::InvalidSpans
    }
}

/// Parses `code` in `lang` into a plain syntax tree, after tree-sitter's parse (see
/// [`ts_parse_tree`]): no tree when tree-sitter gives none, a syntax error when its root reports
/// one, and otherwise its tree when it is well formed over the bytes of `code` (every span lies
/// inside the code on character boundaries, children are ordered and nested; see
/// [`check_tree`]).
pub fn parse_code(lang: SupportedLanguages, code: &str) -> (r: ParsedCode)
    ensures
        r == match ts_parse_tree(lang, code@) {
            None => ParsedCode::NoTree,
            Some(p) => if p.1 {
                ParsedCode::SyntaxError
            } else {
                spec_checked_tree(p.0, code.spec_bytes())
            },
        },
{
    let (tree, has_error) = match ts_parse(lang, code) {
        Some(p) => p,
        None => return ParsedCode::NoTree,
    };
    if has_error {
        return ParsedCode::SyntaxError;
    }
    check_tree(tree, code)
}

} // verus!
