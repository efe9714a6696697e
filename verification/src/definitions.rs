//! The definitions a Rust file makes (modules, types, traits, impls and functions), found along
//! its syntax tree, with the definitions each one contains.
use vstd::prelude::*;
use vstd::utf8::*;
use vstd::string::StringSliceAdditionalSpecFns;
use std::collections::HashMap;
use crate::refs_defs::{Definition, File};
use crate::splitter::{CodeToolError, lemma_subrange_valid_utf8, push_range, string_from_utf8};
use crate::supported_languages::{SupportedLanguages, strings_view};
use crate::syntax_tree::{SyntaxNode, wf_node, child_lower_bound, ts_parse, ts_parse_tree};
use crate::text::{append_chars, chars_eq, chars_of, decimal_chars, opt_view, spec_decimal_chars, string_from_chars};

verus! {

/// A definition found in the walk: its name, its type, and the index of the definition it is
/// directly contained in, if any.
pub type DefinitionRecord = (Seq<char>, Seq<char>, Option<int>);

/// The definition type of a node kind: `class` for structs, enums, traits and impls, `function`
/// for functions and function signatures, `module` for modules; none for any other kind.
pub open spec fn spec_definition_type(kind: Seq<char>) -> Option<Seq<char>> {
    if kind == "struct_item"@ || kind == "enum_item"@ || kind == "trait_item"@ || kind
        == "impl_item"@ {
        Some("class"@)
    } else if kind == "function_item"@ || kind == "function_signature_item"@ {
        Some("function"@)
    } else if kind == "mod_item"@ {
        Some("module"@)
    } else {
        None
    }
}

/// The index of the first child of `n` from `i` on that fills the `name` field.
pub open spec fn spec_name_child_from(n: SyntaxNode, i: int) -> Option<int>
    decreases n.children@.len() - i,
{
    if i < 0 || i >= n.children@.len() {
        None
    } else if opt_view(n.children@[i].field) == Some("name"@) {
        Some(i)
    } else {
        spec_name_child_from(n, i + 1)
    }
}

/// The definition a node makes: when its kind has a definition type and it has a `name` child,
/// the text of that child (over the bytes `src`) and the type.
pub open spec fn spec_node_definition(n: SyntaxNode, src: Seq<u8>) -> Option<(Seq<char>, Seq<char>)> {
    match spec_definition_type(n.kind@) {
        Some(t) => match spec_name_child_from(n, 0) {
            Some(k) => Some(
                (
                    decode_utf8(
                        src.subrange(
                            n.children@[k].start_byte as int,
                            n.children@[k].end_byte as int,
                        ),
                    ),
                    t,
                ),
            ),
            None => None,
        },
        None => None,
    }
}

/// The definitions found walking `n` and its subtree in source order after `acc`, the ones found
/// before: a node that makes a definition adds it, contained in `parent`, and becomes the parent
/// of the definitions below it.
pub open spec fn spec_defs_node(
    n: SyntaxNode,
    src: Seq<u8>,
    parent: Option<int>,
    acc: Seq<DefinitionRecord>,
) -> Seq<DefinitionRecord>
    decreases n, n.children@.len() + 1,
{
    match spec_node_definition(n, src) {
        Some(d) => spec_defs_children(
            n,
            n.children@.len() as int,
            src,
            Some(acc.len() as int),
            acc.push((d.0, d.1, parent)),
        ),
        None => spec_defs_children(n, n.children@.len() as int, src, parent, acc),
    }
}

/// The definitions found after walking the first `k` children of `n`, each with `parent` as
/// the containing definition of what it makes.
pub open spec fn spec_defs_children(
    n: SyntaxNode,
    k: int,
    src: Seq<u8>,
    parent: Option<int>,
    acc: Seq<DefinitionRecord>,
) -> Seq<DefinitionRecord>
    decreases n, k,
{
    if k <= 0 || k > n.children@.len() {
        acc
    } else {
        spec_defs_node(
            n.children@[k - 1],
            src,
            parent,
            spec_defs_children(n, k - 1, src, parent, acc),
        )
    }
}

/// The identifier of the `i`-th definition: `def_` and its index.
pub open spec fn spec_def_id(i: int) -> Seq<char> {
    "def_"@ + spec_decimal_chars(i as nat)
}

/// The identifiers of the definitions among the first `m` records that are directly contained
/// in the `i`-th, in order.
pub open spec fn spec_contained(records: Seq<DefinitionRecord>, i: int, m: int) -> Seq<Seq<char>>
    decreases m,
{
    if m <= 0 || m > records.len() {
        Seq::empty()
    } else {
        let before = spec_contained(records, i, m - 1);
        if records[m - 1].2 == Some(i) {
            before.push(spec_def_id(m - 1))
        } else {
            before
        }
    }
}

/// `defs` are the definitions of the records, in order: each with its identifier, name and type,
/// no alias, opening a scope, containing the definitions recorded inside it and no references.
pub open spec fn spec_definitions_of(defs: Seq<Definition>, records: Seq<DefinitionRecord>) -> bool {
    &&& defs.len() == records.len()
    &&& forall|i: int|
        #![trigger defs[i]]
        0 <= i < defs.len() ==> {
            &&& defs[i].id@ == spec_def_id(i)
            &&& defs[i].name@ == records[i].0
            &&& defs[i].definition_type@ == records[i].1
            &&& defs[i].alias is None
            &&& defs[i].is_scope
            &&& strings_view(defs[i].contained_definitions@) == spec_contained(
                records,
                i,
                records.len() as int,
            )
            &&& defs[i].contained_references@.len() == 0
            &&& defs[i].language_specific_properties@ == Map::<String, String>::empty()
        }
}

/// The view of an optional index.
pub open spec fn opt_index(o: Option<usize>) -> Option<int> {
    match o {
        Some(i) => Some(i as int),
        None => None,
    }
}

/// The records of found definitions, as plain values.
pub open spec fn records_view(v: Seq<(String, String, Option<usize>)>) -> Seq<DefinitionRecord> {
    v.map_values(|r: (String, String, Option<usize>)| (r.0@, r.1@, opt_index(r.2)))
}

/// Whether `kind` is the text `lit`.
fn is_text(kind: &Vec<char>, lit: &str) -> (r: bool)
    ensures
        r == (kind@ == lit@),
{
    let l = chars_of(lit);
    chars_eq(kind.as_slice(), l.as_slice())
}

/// The definition type of a node kind (see [`spec_definition_type`]).
pub fn definition_type(kind: &str) -> (r: Option<String>)
    ensures
        opt_view(r) == spec_definition_type(kind@),
{
    let k = chars_of(kind);
    if is_text(&k, "struct_item") || is_text(&k, "enum_item") || is_text(&k, "trait_item")
        || is_text(&k, "impl_item") {
        Some("class".to_owned())
    } else if is_text(&k, "function_item") || is_text(&k, "function_signature_item") {
        Some("function".to_owned())
    } else if is_text(&k, "mod_item") {
        Some("module".to_owned())
    } else {
        None
    }
}

/// The index of the first child of `n` that fills the `name` field (see
/// [`spec_name_child_from`]).
fn name_child(n: &SyntaxNode) -> (r: Option<usize>)
    ensures
        opt_index(r) == spec_name_child_from(*n, 0),
        r matches Some(k) ==> k < n.children@.len(),
{
    let mut i: usize = 0;
    while i < n.children.len()
        invariant
            i <= n.children@.len(),
            spec_name_child_from(*n, 0) == spec_name_child_from(*n, i as int),
        decreases n.children@.len() - i,
    {
        let named = match &n.children[i].field {
            Some(f) => {
                let fc = chars_of(f.as_str());
                is_text(&fc, "name")
            },
            None => false,
        };
        if named {
            return Some(i);
        }
        i = i + 1;
    }
    None
}

/// The identifier of the `i`-th definition (see [`spec_def_id`]).
fn def_id(i: usize) -> (r: String)
    ensures
        r@ == spec_def_id(i as int),
{
    let mut v = chars_of("def_");
    let d = decimal_chars(i);
    append_chars(&mut v, d.as_slice());
    string_from_chars(v.as_slice())
}

/// The definition a node makes (see [`spec_node_definition`]), for a node that is well formed
/// over the bytes `src`.
fn node_definition(n: &SyntaxNode, src: &[u8], Ghost(lo): Ghost<int>) -> (r: Option<(String, String)>)
    requires
        wf_node(*n, lo, src@),
        valid_utf8(src@),
    ensures
        match r {
            Some(d) => spec_node_definition(*n, src@) == Some((d.0@, d.1@)),
            None => spec_node_definition(*n, src@) is None,
        },
{
    let t = match definition_type(n.kind.as_str()) {
        Some(t) => t,
        None => return None,
    };
    let k = match name_child(n) {
        Some(k) => k,
        None => return None,
    };
    let c = &n.children[k];
    proof {
        assert(wf_node(n.children@[k as int], child_lower_bound(*n, k as int), src@));
        lemma_subrange_valid_utf8(src@, c.start_byte as int, c.end_byte as int);
    }
    let mut bytes: Vec<u8> = Vec::new();
    push_range(&mut bytes, src, c.start_byte, c.end_byte);
    assert(bytes@ =~= src@.subrange(c.start_byte as int, c.end_byte as int));
    let name = string_from_utf8(bytes);
    Some((name, t))
}

/// Appends the definitions found walking `n` to `acc` (see [`spec_defs_node`]).
fn collect_definitions(
    n: &SyntaxNode,
    src: &[u8],
    parent: Option<usize>,
    acc: &mut Vec<(String, String, Option<usize>)>,
    Ghost(lo): Ghost<int>,
)
    requires
        wf_node(*n, lo, src@),
        valid_utf8(src@),
        parent matches Some(p) ==> p < old(acc)@.len(),
    ensures
        records_view(final(acc)@) == spec_defs_node(*n, src@, opt_index(parent), records_view(old(acc)@)),
        final(acc)@.len() >= old(acc)@.len(),
    decreases n,
{
    let ghost start = records_view(acc@);
    let ghost start_len = acc@.len();
    let child_parent = match node_definition(n, src, Ghost(lo)) {
        Some(d) => {
            let idx = acc.len();
            let ghost before = acc@;
            acc.push((d.0, d.1, parent));
            proof {
                assert(records_view(acc@) =~= records_view(before).push((d.0@, d.1@, opt_index(parent))));
            }
            Some(idx)
        },
        None => parent,
    };
    let ghost base = records_view(acc@);
    proof {
        match spec_node_definition(*n, src@) {
            Some(d) => {
                assert(base == start.push((d.0, d.1, opt_index(parent))));
                assert(opt_index(child_parent) == Some(start.len() as int));
            },
            None => {
                assert(base == start);
            },
        }
    }
    let mut i: usize = 0;
    while i < n.children.len()
        invariant
            i <= n.children@.len(),
            wf_node(*n, lo, src@),
            valid_utf8(src@),
            child_parent matches Some(p) ==> p < acc@.len(),
            acc@.len() >= start_len,
            records_view(acc@) == spec_defs_children(*n, i as int, src@, opt_index(child_parent), base),
        decreases n.children@.len() - i,
    {
        proof {
            assert(wf_node(n.children@[i as int], child_lower_bound(*n, i as int), src@));
        }
        collect_definitions(&n.children[i], src, child_parent, acc, Ghost(child_lower_bound(*n, i as int)));
        i = i + 1;
    }
}

/// The identifiers of the definitions among the records directly contained in the `i`-th (see
/// [`spec_contained`]).
fn contained_ids(records: &Vec<(String, String, Option<usize>)>, i: usize) -> (r: Vec<String>)
    ensures
        strings_view(r@) == spec_contained(records_view(records@), i as int, records@.len() as int),
{
    let ghost rv = records_view(records@);
    let mut out: Vec<String> = Vec::new();
    let mut j: usize = 0;
    while j < records.len()
        invariant
            j <= records@.len(),
            rv == records_view(records@),
            strings_view(out@) == spec_contained(rv, i as int, j as int),
        decreases records@.len() - j,
    {
        let inside = match records[j].2 {
            Some(p) => p == i,
            None => false,
        };
        let ghost prev = out@;
        if inside {
            out.push(def_id(j));
            proof {
                assert(strings_view(out@) =~= strings_view(prev).push(spec_def_id(j as int)));
            }
        }
        assert(rv[j as int].2 == opt_index(records@[j as int].2));
        j = j + 1;
    }
    out
}

/// Finds the definitions of Rust code.
pub struct DefinitionIdentifier {
    language: SupportedLanguages,
}

impl DefinitionIdentifier {
    /// An identifier that parses code in `language`.
    pub fn new(language: SupportedLanguages) -> (r: DefinitionIdentifier)
        ensures
            r.spec_language() == language,
    {
        DefinitionIdentifier { language }
    }

    /// The language parsed.
    pub closed spec fn spec_language(&self) -> SupportedLanguages {
        self.language
    }

    /// `r` is what identifying the definitions of `code` in the file `file_name` gives, after
    /// tree-sitter's parse (see [`ts_parse_tree`]): `NoNodesFound` when it gives no tree,
    /// `InvalidSyntax` when the tree has syntax errors, `InvalidSpans` when it is not well formed
    /// over the code; otherwise a Rust file named and located `file_name`, without references,
    /// whose definitions are those found walking the tree (see [`spec_defs_node`] and
    /// [`spec_definitions_of`]).
    pub open spec fn spec_identified(&self, file_name: &str, code: &str, r: Result<File, CodeToolError>) -> bool {
        match ts_parse_tree(self.spec_language(), code@) {
            None => r matches Err(e) && e is NoNodesFound,
            Some(p) => if p.1 {
                r matches Err(e) && e is InvalidSyntax
            } else if !wf_node(p.0, 0, code.spec_bytes()) {
                r matches Err(e) && e is InvalidSpans
            } else {
                r matches Ok(f) && f.name@ == file_name@ && f.path@ == file_name@ && f.language@ == "Rust"@
                    && f.references@.len() == 0 && spec_definitions_of(
                    f.definitions@,
                    spec_defs_node(p.0, code.spec_bytes(), None, Seq::empty()),
                )
            },
        }
    }

    /// The definitions of `code`, the contents of the file `file_name` (see
    /// [`Self::spec_identified`]).
    pub fn identify_definitions(&self, file_name: &str, code: &str) -> (r: Result<File, CodeToolError>)
        ensures
            self.spec_identified(file_name, code, r),
    {
        let (tree, has_error) = match ts_parse(self.language, code) {
            Some(p) => p,
            None => return Err(CodeToolError::NoNodesFound),
        };
        if has_error {
            return Err(CodeToolError::InvalidSyntax);
        }
        let src = code.as_bytes();
        if !crate::syntax_tree::is_well_formed(&tree, 0, code) {
            return Err(CodeToolError::InvalidSpans);
        }
        proof {
            encode_utf8_valid_utf8(code@);
        }
        let mut records: Vec<(String, String, Option<usize>)> = Vec::new();
        collect_definitions(&tree, src, None, &mut records, Ghost(0));
        proof {
            assert(records_view(Seq::<(String, String, Option<usize>)>::empty()) =~= Seq::<DefinitionRecord>::empty());
        }
        let ghost rv = records_view(records@);
        let mut definitions: Vec<Definition> = Vec::new();
        let mut i: usize = 0;
        while i < records.len()
            invariant
                i <= records@.len(),
                rv == records_view(records@),
                definitions@.len() == i,
                forall|k: int|
                    #![trigger definitions@[k]]
                    0 <= k < i ==> {
                        &&& definitions@[k].id@ == spec_def_id(k)
                        &&& definitions@[k].name@ == rv[k].0
                        &&& definitions@[k].definition_type@ == rv[k].1
                        &&& definitions@[k].alias is None
                        &&& definitions@[k].is_scope
                        &&& strings_view(definitions@[k].contained_definitions@) == spec_contained(
                            rv,
                            k,
                            rv.len() as int,
                        )
                        &&& definitions@[k].contained_references@.len() == 0
                        &&& definitions@[k].language_specific_properties@ == Map::<String, String>::empty()
                    },
            decreases records@.len() - i,
        {
            let contained = contained_ids(&records, i);
            let d = Definition {
                id: def_id(i),
                name: records[i].0.clone(),
                definition_type: records[i].1.clone(),
                alias: None,
                is_scope: true,
                contained_definitions: contained,
                contained_references: Vec::new(),
                language_specific_properties: HashMap::new(),
            };
            definitions.push(d);
            i = i + 1;
        }
        let mut file = File::new(file_name.to_owned(), file_name.to_owned(), "Rust".to_owned());
        file.definitions = definitions;
        Ok(file)
    }
}

} // verus!
