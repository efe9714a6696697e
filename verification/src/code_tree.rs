//! The symbols that a piece of code defines and the ones it refers to, found with tree-sitter
//! queries.
use vstd::prelude::*;
use tree_sitter::StreamingIterator;
use crate::supported_languages::{SupportedLanguages, strings_view};
use crate::syntax_tree::{ts_language, ts_parse, ts_parse_outcome};
use crate::sorted::{spec_strictly_sorted, sorted_unique, insert_sorted_unique, contains_chars};
use crate::text::chars_of;
use crate::splitter::{lemma_subrange_valid_utf8, push_range, string_from_utf8};
use vstd::utf8::*;
use vstd::string::StringSliceAdditionalSpecFns;
use crate::queries::{
    RUST_DEFS, RUST_REFS, PYTHON_DEFS, PYTHON_REFS, TYPESCRIPT_DEFS, TYPESCRIPT_REFS, RUBY_DEFS,
    RUBY_REFS, JAVA_DEFS, JAVA_REFS,
};

verus! {

/// Parses code of one language.
pub struct CodeParser {
    language: SupportedLanguages,
}

/// A parse of a piece of code, ready to be queried.
pub struct CodeTree<'a> {
    code: &'a str,
    language: SupportedLanguages,
}

/// Why code could not be parsed or queried.
#[derive(Debug, PartialEq, Eq, Structural, Clone, Copy)]
pub enum CodeTreeError {
    /// The grammar could not be loaded or the parser produced no tree.
    NoNodesFound,
    /// A query does not compile for the grammar.
    InvalidQuery,
    /// The text of a captured node is not valid UTF-8.
    NodeText,
}

/// The symbols defined in a piece of code and the ones it refers to without defining them, each
/// list in ascending order without repetitions.
pub struct ReferencesAndDefinitions {
    pub references: Vec<String>,
    pub definitions: Vec<String>,
}

/// Whether the library holds definition and reference queries for `language`.
pub open spec fn spec_has_queries(language: SupportedLanguages) -> bool {
    match language {
        SupportedLanguages::Rust
        | SupportedLanguages::Python
        | SupportedLanguages::Typescript
        | SupportedLanguages::Ruby
        | SupportedLanguages::Java => true,
        _ => false,
    }
}

/// The definition and reference queries for `language`.
pub fn ts_queries_for_language(language: SupportedLanguages) -> (r: (&'static str, &'static str))
    requires
        spec_has_queries(language),
    ensures
        match language {
            SupportedLanguages::Rust => r == (RUST_DEFS, RUST_REFS),
            SupportedLanguages::Python => r == (PYTHON_DEFS, PYTHON_REFS),
            SupportedLanguages::Typescript => r == (TYPESCRIPT_DEFS, TYPESCRIPT_REFS),
            SupportedLanguages::Ruby => r == (RUBY_DEFS, RUBY_REFS),
            SupportedLanguages::Java => r == (JAVA_DEFS, JAVA_REFS),
            _ => false,
        },
{
    match language {
        SupportedLanguages::Rust => (RUST_DEFS, RUST_REFS),
        SupportedLanguages::Python => (PYTHON_DEFS, PYTHON_REFS),
        SupportedLanguages::Typescript => (TYPESCRIPT_DEFS, TYPESCRIPT_REFS),
        SupportedLanguages::Ruby => (RUBY_DEFS, RUBY_REFS),
        _ => (JAVA_DEFS, JAVA_REFS),
    }
}

/// The symbols found by the definition query and the reference query, combined: the definitions
/// in ascending order without repetitions, and likewise the references that are not also
/// definitions.
pub fn combine_references_and_definitions(defs: Vec<String>, refs: Vec<String>) -> (r:
    ReferencesAndDefinitions)
    ensures
        spec_strictly_sorted(strings_view(r.definitions@)),
        forall|x: Seq<char>|
            strings_view(r.definitions@).contains(x) <==> strings_view(defs@).contains(x),
        spec_strictly_sorted(strings_view(r.references@)),
        forall|x: Seq<char>|
            strings_view(r.references@).contains(x) <==> (strings_view(refs@).contains(x)
                && !strings_view(defs@).contains(x)),
{
    let ghost rv = strings_view(refs@);
    let ghost dv = strings_view(defs@);
    let mut references: Vec<String> = Vec::new();
    let mut i: usize = 0;
    while i < refs.len()
        invariant
            i <= refs@.len(),
            rv == strings_view(refs@),
            dv == strings_view(defs@),
            spec_strictly_sorted(strings_view(references@)),
            forall|x: Seq<char>|
                #[trigger] strings_view(references@).contains(x) <==> (rv.subrange(0, i as int).contains(x)
                    && !dv.contains(x)),
        decreases refs@.len() - i,
    {
        let ghost prev = strings_view(references@);
        let s = refs[i].clone();
        let ghost sv = s@;
        assert(sv == rv[i as int]);
        let sc = chars_of(s.as_str());
        let known = contains_chars(&defs, sc.as_slice());
        if !known {
            insert_sorted_unique(&mut references, s);
        }
        proof {
            let head = rv.subrange(0, i as int);
            let next = rv.subrange(0, i + 1);
            assert forall|x: Seq<char>|
                strings_view(references@).contains(x) <==> (next.contains(x) && !dv.contains(x)) by {
                if next.contains(x) {
                    let k = choose|k: int| 0 <= k < next.len() && next[k] == x;
                    if k < i {
                        assert(head[k] == x);
                    }
                }
                if head.contains(x) {
                    let k = choose|k: int| 0 <= k < head.len() && head[k] == x;
                    assert(next[k] == x);
                }
                if x == sv {
                    assert(next[i as int] == x);
                }
                if known {
                    assert(strings_view(references@) == prev);
                }
            }
        }
        i = i + 1;
    }
    proof {
        assert(rv.subrange(0, refs@.len() as int) =~= rv);
    }
    let definitions = sorted_unique(defs);
    ReferencesAndDefinitions { references, definitions }
}

/// The byte spans of the captured nodes of each match of the query `source` on tree-sitter's
/// parse of `code` in `lang`, in the order tree-sitter gives them; `None` when there is no parse
/// or the query does not compile for the grammar. It depends on its arguments alone.
pub uninterp spec fn ts_query_match_spans(
    lang: SupportedLanguages,
    source: Seq<char>,
    code: Seq<char>,
) -> Option<Seq<Seq<(usize, usize)>>>;

/// The views of a list of span lists.
pub open spec fn spans_view(matches: Seq<Vec<(usize, usize)>>) -> Seq<Seq<(usize, usize)>> {
    matches.map_values(|m: Vec<(usize, usize)>| m@)
}

/// Parses `code` (`Parser::parse` with the grammar of `lang`), compiles the query `source`
/// (`Query::new`), runs it (`QueryCursor::matches`) and gives, for each match, the byte spans
/// (`Node::start_byte`, `Node::end_byte`) of its captured nodes, in order.
#[verifier::external_body]
fn ts_query_matches(lang: SupportedLanguages, source: &str, code: &str) -> (r: Option<Vec<Vec<(usize, usize)>>>)
    ensures
        match r {
            Some(v) => ts_query_match_spans(lang, source@, code@) == Some(spans_view(v@)),
            None => ts_query_match_spans(lang, source@, code@) is None,
        },
{
    let language = ts_language(lang);
    let mut parser = tree_sitter::Parser::new();
    parser.set_language(&language).ok()?;
    let tree = parser.parse(code, None)?;
    let query = tree_sitter::Query::new(&language, source).ok()?;
    let mut cursor = tree_sitter::QueryCursor::new();
    let mut matches = cursor.matches(&query, tree.root_node(), code.as_bytes());
    let mut spans = Vec::new();
    while let Some(m) = matches.next() {
        spans.push(m.captures().iter().map(|c| (c.node.start_byte(), c.node.end_byte())).collect());
    }
    Some(spans)
}

/// Whether every span lies inside `src` with both ends on character boundaries.
pub open spec fn spec_spans_ok(src: Seq<u8>, spans: Seq<(usize, usize)>) -> bool {
    forall|i: int|
        #![trigger spans[i]]
        0 <= i < spans.len() ==> {
            &&& spans[i].0 <= spans[i].1 <= src.len()
            &&& is_char_boundary(src, spans[i].0 as int)
            &&& is_char_boundary(src, spans[i].1 as int)
        }
}

/// The bytes of the spans of `src`, one after the other.
pub open spec fn spec_span_bytes(src: Seq<u8>, spans: Seq<(usize, usize)>) -> Seq<u8>
    decreases spans.len(),
{
    if spans.len() == 0 {
        Seq::empty()
    } else {
        spec_span_bytes(src, spans.drop_last()) + src.subrange(spans.last().0 as int, spans.last().1 as int)
    }
}

/// The text of a match: the texts of its captured spans of `code`, one after the other; `None`
/// when a span is not a piece of the code between character boundaries.
pub fn capture_text(code: &str, spans: &Vec<(usize, usize)>) -> (r: Option<String>)
    ensures
        match r {
            Some(t) => spec_spans_ok(code.spec_bytes(), spans@) && t@ == decode_utf8(
                spec_span_bytes(code.spec_bytes(), spans@),
            ),
            None => !spec_spans_ok(code.spec_bytes(), spans@),
        },
{
    let bytes = code.as_bytes();
    proof {
        encode_utf8_valid_utf8(code@);
    }
    let mut out: Vec<u8> = Vec::new();
    let mut i: usize = 0;
    while i < spans.len()
        invariant
            i <= spans@.len(),
            bytes@ == code.spec_bytes(),
            valid_utf8(bytes@),
            spec_spans_ok(bytes@, spans@.subrange(0, i as int)),
            out@ == spec_span_bytes(bytes@, spans@.subrange(0, i as int)),
            valid_utf8(out@),
        decreases spans@.len() - i,
    {
        let (a, b) = spans[i];
        if !(a <= b && b <= bytes.len() && code.is_char_boundary(a) && code.is_char_boundary(b)) {
            proof {
                assert(spans@[i as int] == (a, b));
            }
            return None;
        }
        proof {
            lemma_subrange_valid_utf8(bytes@, a as int, b as int);
            valid_utf8_concat(out@, bytes@.subrange(a as int, b as int));
        }
        push_range(&mut out, bytes, a, b);
        proof {
            let next = spans@.subrange(0, i + 1);
            assert(next.drop_last() =~= spans@.subrange(0, i as int));
            assert(next.last() == (a, b));
            assert forall|k: int| 0 <= k < next.len() implies #[trigger] next[k].0 <= next[k].1 <= bytes@.len()
                && is_char_boundary(bytes@, next[k].0 as int) && is_char_boundary(bytes@, next[k].1 as int) by {
                if k < i {
                    assert(next[k] == spans@.subrange(0, i as int)[k]);
                }
            }
        }
        i = i + 1;
    }
    proof {
        assert(spans@.subrange(0, spans@.len() as int) =~= spans@);
    }
    Some(string_from_utf8(out))
}

/// Whether `texts` holds, in order, the text of each match's spans (see [`capture_text`]).
pub open spec fn spec_match_texts(src: Seq<u8>, matches: Seq<Vec<(usize, usize)>>, texts: Seq<Seq<char>>) -> bool {
    &&& texts.len() == matches.len()
    &&& forall|i: int|
        #![trigger matches[i]]
        0 <= i < matches.len() ==> spec_spans_ok(src, matches[i]@) && texts[i] == decode_utf8(
            spec_span_bytes(src, matches[i]@),
        )
}

/// The texts of the matches `matches` over the bytes `src`, in order (see [`capture_text`]);
/// `None` when a span of a match is not a piece of the code between character boundaries.
pub open spec fn spec_query_texts(src: Seq<u8>, matches: Seq<Seq<(usize, usize)>>) -> Option<Seq<Seq<char>>> {
    if forall|i: int| 0 <= i < matches.len() ==> spec_spans_ok(src, #[trigger] matches[i]) {
        Some(Seq::new(matches.len(), |i: int| decode_utf8(spec_span_bytes(src, matches[i]))))
    } else {
        None
    }
}

/// The texts of all matches, each once and in ascending order; fails with `NodeText` when a
/// match has a span that is not a piece of the code between character boundaries.
pub fn texts_of_matches(code: &str, matches: &Vec<Vec<(usize, usize)>>) -> (r: Result<Vec<String>, CodeTreeError>)
    ensures
        match r {
            Ok(v) => spec_strictly_sorted(strings_view(v@)) && exists|texts: Seq<Seq<char>>|
                spec_match_texts(code.spec_bytes(), matches@, texts) && forall|x: Seq<char>|
                    #[trigger] strings_view(v@).contains(x) <==> texts.contains(x),
            Err(e) => e == CodeTreeError::NodeText && exists|i: int|
                0 <= i < matches@.len() && !spec_spans_ok(code.spec_bytes(), #[trigger] matches@[i]@),
        },
{
    let mut texts: Vec<String> = Vec::new();
    let mut i: usize = 0;
    while i < matches.len()
        invariant
            i <= matches@.len(),
            spec_match_texts(code.spec_bytes(), matches@.subrange(0, i as int), strings_view(texts@)),
        decreases matches@.len() - i,
    {
        match capture_text(code, &matches[i]) {
            Some(t) => {
                let ghost before = strings_view(texts@);
                texts.push(t);
                proof {
                    let sub = matches@.subrange(0, i + 1);
                    assert(strings_view(texts@) =~= before.push(t@));
                    assert forall|k: int| 0 <= k < sub.len() implies spec_spans_ok(code.spec_bytes(), #[trigger] sub[k]@)
                        && strings_view(texts@)[k] == decode_utf8(spec_span_bytes(code.spec_bytes(), sub[k]@)) by {
                        if k < i {
                            assert(sub[k] == matches@.subrange(0, i as int)[k]);
                        }
                    }
                }
            },
            None => {
                return Err(CodeTreeError::NodeText);
            },
        }
        i = i + 1;
    }
    proof {
        assert(matches@.subrange(0, matches@.len() as int) =~= matches@);
    }
    Ok(sorted_unique(texts))
}

impl CodeParser {
    /// A parser for `language`.
    pub fn from_language(language: SupportedLanguages) -> (r: CodeParser)
        ensures
            r.spec_language() == language,
    {
        CodeParser { language }
    }

    /// The language parsed.
    pub closed spec fn spec_language(&self) -> SupportedLanguages {
        self.language
    }

    /// Parses `code`. Tree-sitter also parses invalid code; queries on it may then find nothing.
    /// Fails with `NoNodesFound` when the grammar cannot be loaded or no tree comes back (see
    /// [`ts_parse_outcome`]).
    pub fn parse<'a>(&self, code: &'a str) -> (r: Result<CodeTree<'a>, CodeTreeError>)
        ensures
            r is Ok <==> ts_parse_outcome(self.spec_language(), code@) is Some,
            match r {
                Ok(t) => t.spec_language() == self.spec_language() && t.spec_code() == code@,
                Err(e) => e == CodeTreeError::NoNodesFound,
            },
    {
        match ts_parse(self.language, code) {
            Some(_) => Ok(CodeTree { code, language: self.language }),
            None => Err(CodeTreeError::NoNodesFound),
        }
    }
}

impl<'a> CodeTree<'a> {
    /// The language of the code.
    pub closed spec fn spec_language(&self) -> SupportedLanguages {
        self.language
    }

    /// The code parsed.
    pub closed spec fn spec_code(&self) -> Seq<char> {
        self.code@
    }

    /// The texts of the matches `matches` over the code, each once and in ascending order (see
    /// [`texts_of_matches`] and [`spec_query_texts`]); `NodeText` when a span of a match is not
    /// a piece of the code between character boundaries.
    fn query_for_matches(&self, matches: &Vec<Vec<(usize, usize)>>) -> (r: Result<Vec<String>, CodeTreeError>)
        ensures
            match spec_query_texts(encode_utf8(self.spec_code()), spans_view(matches@)) {
                Some(t) => r matches Ok(v) && spec_strictly_sorted(strings_view(v@)) && forall|x: Seq<char>|
                    #[trigger] strings_view(v@).contains(x) <==> t.contains(x),
                None => r matches Err(e) && e == CodeTreeError::NodeText,
            },
    {
        let r = texts_of_matches(self.code, matches);
        proof {
            let src = self.code.spec_bytes();
            let ms = spans_view(matches@);
            match &r {
                Ok(v) => {
                    let texts = choose|texts: Seq<Seq<char>>|
                        spec_match_texts(src, matches@, texts) && forall|x: Seq<char>|
                            #[trigger] strings_view(v@).contains(x) <==> texts.contains(x);
                    assert forall|i: int| 0 <= i < ms.len() implies spec_spans_ok(src, #[trigger] ms[i]) by {
                        assert(ms[i] == matches@[i]@);
                        assert(spec_spans_ok(src, matches@[i]@));
                    }
                    let t = Seq::new(ms.len(), |i: int| decode_utf8(spec_span_bytes(src, ms[i])));
                    assert forall|i: int| 0 <= i < t.len() implies t[i] == texts[i] by {
                        assert(ms[i] == matches@[i]@);
                        assert(spec_spans_ok(src, matches@[i]@));
                    }
                    assert(t =~= texts);
                },
                Err(_) => {
                    let i = choose|i: int|
                        0 <= i < matches@.len() && !spec_spans_ok(src, #[trigger] matches@[i]@);
                    assert(ms[i] == matches@[i]@);
                    assert(!spec_spans_ok(src, ms[i]));
                },
            }
        }
        r
    }

    /// The symbols the code defines and those it refers to without defining them (see
    /// [`spec_references_and_definitions`]): the texts of the matches of the language's
    /// definition query, and those of its reference query that are not definitions, each list in
    /// ascending order without repetitions. Fails with `InvalidQuery` when a query does not
    /// compile for the grammar (tree-sitter-java refuses the Java reference query, for one) and
    /// with `NodeText` when a captured node is not a piece of the code between character
    /// boundaries.
    pub fn references_and_definitions(&self) -> (r: Result<ReferencesAndDefinitions, CodeTreeError>)
        requires
            spec_has_queries(self.spec_language()),
        ensures
            spec_references_and_definitions(self.spec_language(), self.spec_code(), r),
    {
        let (defs_source, refs_source) = ts_queries_for_language(self.language);
        assert(defs_source@ == spec_query_sources(self.language).0);
        assert(refs_source@ == spec_query_sources(self.language).1);
        let defs_matches = ts_query_matches(self.language, defs_source, self.code);
        let refs_matches = ts_query_matches(self.language, refs_source, self.code);
        let (dm, rm) = match (defs_matches, refs_matches) {
            (Some(d), Some(r)) => (d, r),
            _ => return Err(CodeTreeError::InvalidQuery),
        };
        let defs = match self.query_for_matches(&dm) {
            Ok(v) => v,
            Err(e) => return Err(e),
        };
        let refs = match self.query_for_matches(&rm) {
            Ok(v) => v,
            Err(e) => return Err(e),
        };
        let ghost dv = strings_view(defs@);
        let ghost rv = strings_view(refs@);
        let combined = combine_references_and_definitions(defs, refs);
        proof {
            let cd = strings_view(combined.definitions@);
            let cr = strings_view(combined.references@);
            assert forall|x: Seq<char>| #[trigger] cd.contains(x) implies dv.contains(x) by {}
            assert forall|x: Seq<char>| #[trigger] dv.contains(x) implies cd.contains(x) by {}
            assert forall|x: Seq<char>| #[trigger] cr.contains(x) implies rv.contains(x) && !dv.contains(x) by {}
            assert forall|x: Seq<char>| rv.contains(x) && !dv.contains(x) implies #[trigger] cr.contains(x) by {}
            let src = encode_utf8(self.spec_code());
            let sources = spec_query_sources(self.language);
            assert(ts_query_match_spans(self.language, sources.0, self.code@) == Some(spans_view(dm@)));
            assert(ts_query_match_spans(self.language, sources.1, self.code@) == Some(spans_view(rm@)));
            let dt = spec_query_texts(src, spans_view(dm@))->0;
            let rt = spec_query_texts(src, spans_view(rm@))->0;
            assert(spec_query_texts(src, spans_view(dm@)) is Some);
            assert(spec_query_texts(src, spans_view(rm@)) is Some);
            assert forall|x: Seq<char>| #[trigger] cd.contains(x) <==> dt.contains(x) by {
                assert(dv.contains(x) <==> dt.contains(x));
            }
            assert forall|x: Seq<char>| #[trigger] cr.contains(x) <==> (rt.contains(x) && !dt.contains(x)) by {
                assert(dv.contains(x) <==> dt.contains(x));
                assert(rv.contains(x) <==> rt.contains(x));
            }
            assert(spec_combined(combined, dt, rt));
        }
        Ok(combined)
    }
}

/// The definition and reference queries the library holds for `language`.
pub open spec fn spec_query_sources(language: SupportedLanguages) -> (Seq<char>, Seq<char>) {
    match language {
        SupportedLanguages::Rust => (RUST_DEFS@, RUST_REFS@),
        SupportedLanguages::Python => (PYTHON_DEFS@, PYTHON_REFS@),
        SupportedLanguages::Typescript => (TYPESCRIPT_DEFS@, TYPESCRIPT_REFS@),
        SupportedLanguages::Ruby => (RUBY_DEFS@, RUBY_REFS@),
        SupportedLanguages::Java => (JAVA_DEFS@, JAVA_REFS@),
        _ => (Seq::empty(), Seq::empty()),
    }
}

/// `rd` combines the definition texts `defs` and the reference texts `refs`: the definitions in
/// ascending order without repetitions, and likewise the references that are not definitions.
pub open spec fn spec_combined(rd: ReferencesAndDefinitions, defs: Seq<Seq<char>>, refs: Seq<Seq<char>>) -> bool {
    &&& spec_strictly_sorted(strings_view(rd.definitions@))
    &&& forall|x: Seq<char>| #[trigger] strings_view(rd.definitions@).contains(x) <==> defs.contains(x)
    &&& spec_strictly_sorted(strings_view(rd.references@))
    &&& forall|x: Seq<char>|
        #[trigger] strings_view(rd.references@).contains(x) <==> (refs.contains(x) && !defs.contains(x))
}

/// What the references and definitions of `code` in `language` come to, from the matches of
/// the language's queries on tree-sitter's parse (see [`ts_query_match_spans`]): `InvalidQuery`
/// when either query gives no matches (it does not compile, or there is no parse), `NodeText`
/// when a captured span of either is not a piece of the code, and otherwise the combined texts
/// (see [`spec_combined`]).
pub open spec fn spec_references_and_definitions(
    language: SupportedLanguages,
    code: Seq<char>,
    r: Result<ReferencesAndDefinitions, CodeTreeError>,
) -> bool {
    let src = encode_utf8(code);
    let sources = spec_query_sources(language);
    match (
        ts_query_match_spans(language, sources.0, code),
        ts_query_match_spans(language, sources.1, code),
    ) {
        (Some(dm), Some(rm)) => match (spec_query_texts(src, dm), spec_query_texts(src, rm)) {
            (Some(dt), Some(rt)) => r matches Ok(rd) && spec_combined(rd, dt, rt),
            _ => r matches Err(e) && e == CodeTreeError::NodeText,
        },
        _ => r matches Err(e) && e == CodeTreeError::InvalidQuery,
    }
}

} // verus!
