use std::str::FromStr;

use swiftide_integrations::code_tree::{
    capture_text, combine_references_and_definitions, texts_of_matches, ts_queries_for_language,
    CodeParser, CodeTreeError,
};
use swiftide_integrations::definitions::DefinitionIdentifier;
use swiftide_integrations::outliner::CodeOutliner;
use swiftide_integrations::syntax_tree::{check_tree, parse_code, ParsedCode, SyntaxNode};
use swiftide_integrations::queries::{RUST_DEFS, RUST_REFS};
use swiftide_integrations::refs_defs::{Definition, File, Location, Reference, ReferenceTarget};
use swiftide_integrations::splitter::{ChunkSize, CodeSplitter, CodeToolError};
use swiftide_integrations::supported_languages::{SupportedLanguages, UnsupportedLanguage};
use swiftide_integrations::transformers::{
    char_estimate, chunk_offsets, refs_defs_metadata, ChunkCode, MetadataQACode,
    MetadataRefsDefsCode, OutlineCodeTreeSitter,
};

#[test]
fn test_supported_languages_from_str() {
    assert_eq!(
        SupportedLanguages::from_str("rust"),
        Ok(SupportedLanguages::Rust)
    );
    assert_eq!(
        SupportedLanguages::from_str("typescript"),
        Ok(SupportedLanguages::Typescript)
    );
    assert_eq!(
        SupportedLanguages::from_str("java"),
        Ok(SupportedLanguages::Java)
    );
}

#[test]
fn test_supported_languages_from_str_case_insensitive() {
    assert_eq!(
        SupportedLanguages::from_str("Rust"),
        Ok(SupportedLanguages::Rust)
    );
    assert_eq!(
        SupportedLanguages::from_str("TypeScript"),
        Ok(SupportedLanguages::Typescript)
    );
    assert_eq!(
        SupportedLanguages::from_str("Java"),
        Ok(SupportedLanguages::Java)
    );
    assert_eq!(
        SupportedLanguages::from_str("C++"),
        Ok(SupportedLanguages::Cpp)
    );
    assert_eq!(
        SupportedLanguages::from_str("cpp"),
        Ok(SupportedLanguages::Cpp)
    );
}

#[test]
fn unknown_language_is_rejected() {
    assert_eq!(SupportedLanguages::from_str("cobol"), Err(UnsupportedLanguage));
}

#[test]
fn language_names_and_extensions() {
    assert_eq!(SupportedLanguages::Rust.name(), "Rust");
    assert_eq!(SupportedLanguages::Cpp.name(), "C++");
    assert_eq!(SupportedLanguages::Rust.file_extensions(), vec!["rs"]);
    assert_eq!(SupportedLanguages::all().len(), 10);
    for lang in SupportedLanguages::all() {
        assert_eq!(SupportedLanguages::from_str(&lang.name()), Ok(lang));
    }
}

#[test]
fn test_split_single_chunk() {
    let code = "fn hello_world() {}";

    let splitter = CodeSplitter::new(SupportedLanguages::Rust);

    let chunks = splitter.split(code);

    assert_eq!(chunks.unwrap(), vec!["fn hello_world() {}"]);
}

#[test]
fn test_chunk_lines() {
    let splitter = CodeSplitter::new(SupportedLanguages::Rust);

    let text = "fn main() {\n    println!(\"Hello\");\n    println!(\"World\");\n    println!(\"!\");\n}\n";

    let chunks = splitter.split(text).unwrap();

    assert_eq!(chunks.len(), 1);
    assert_eq!(
        chunks[0],
        "fn main() {\n    println!(\"Hello\");\n    println!(\"World\");\n    println!(\"!\");\n}"
    );
}

#[test]
fn test_max_bytes_limit() {
    let splitter = CodeSplitter::builder()
        .try_language(SupportedLanguages::Rust)
        .unwrap()
        .chunk_size(50)
        .build()
        .unwrap();

    let text = "fn main() {\n    println!(\"Hello, World!\");\n    println!(\"Goodbye, World!\");\n}\n";
    let chunks = splitter.split(text).unwrap();

    assert!(chunks.iter().all(|chunk| chunk.len() <= 50));
    assert!(chunks
        .windows(2)
        .all(|pair| pair.iter().map(String::len).sum::<usize>() >= 50));

    assert_eq!(
        chunks,
        vec![
            "fn main() {\n    println!(\"Hello, World!\");",
            "\n    println!(\"Goodbye, World!\");\n}",
        ]
    );
}

#[test]
fn test_empty_text() {
    let splitter = CodeSplitter::builder()
        .try_language(SupportedLanguages::Rust)
        .unwrap()
        .chunk_size(50)
        .build()
        .unwrap();

    let text = "";
    let chunks = splitter.split(text).unwrap();

    assert_eq!(chunks.len(), 0);
}

#[test]
fn test_range_max() {
    let splitter = CodeSplitter::builder()
        .try_language(SupportedLanguages::Rust)
        .unwrap()
        .chunk_size(0..50)
        .build()
        .unwrap();

    let text = "fn main() {\n    println!(\"Hello, World!\");\n    println!(\"Goodbye, World!\");\n}\n";
    let chunks = splitter.split(text).unwrap();
    assert_eq!(
        chunks,
        vec![
            "fn main() {\n    println!(\"Hello, World!\");",
            "\n    println!(\"Goodbye, World!\");\n}",
        ]
    );
}

#[test]
fn test_range_min_and_max() {
    let splitter = CodeSplitter::builder()
        .try_language(SupportedLanguages::Rust)
        .unwrap()
        .chunk_size(20..50)
        .build()
        .unwrap();
    let text = "fn main() {\n    println!(\"Hello, World!\");\n    println!(\"Goodbye, World!\");\n}\n";
    let chunks = splitter.split(text).unwrap();

    assert!(chunks.iter().all(|chunk| chunk.len() <= 50));
    assert!(chunks
        .windows(2)
        .all(|pair| pair.iter().map(String::len).sum::<usize>() > 50));
    assert!(chunks.iter().all(|chunk| chunk.len() >= 20));

    assert_eq!(
        chunks,
        vec![
            "fn main() {\n    println!(\"Hello, World!\");",
            "\n    println!(\"Goodbye, World!\");\n}"
        ]
    );
}

const SAMPLE_SOURCE: &str = "use std::collections::HashMap;\n\n/// A small registry of named counters.\npub struct Registry {\n    counters: HashMap<String, u64>,\n    limit: u64,\n}\n\nimpl Registry {\n    /// Creates an empty registry.\n    pub fn new(limit: u64) -> Self {\n        Self { counters: HashMap::new(), limit }\n    }\n\n    /// Increments a counter, saturating at the limit.\n    pub fn bump(&mut self, name: &str) -> u64 {\n        let entry = self.counters.entry(name.to_string()).or_insert(0);\n        if *entry < self.limit {\n            *entry += 1;\n        }\n        *entry\n    }\n\n    /// Returns the value of a counter.\n    pub fn get(&self, name: &str) -> Option<u64> {\n        self.counters.get(name).copied()\n    }\n\n    /// Removes every counter.\n    pub fn clear(&mut self) {\n        self.counters.clear();\n    }\n}\n\nfn main() {\n    let mut registry = Registry::new(3);\n    for _ in 0..5 {\n        registry.bump(\"requests\");\n    }\n    println!(\"{:?}\", registry.get(\"requests\"));\n    registry.clear();\n    println!(\"{:?}\", registry.get(\"requests\"));\n}\n";

#[test]
fn test_on_self() {
    let code = SAMPLE_SOURCE;
    let ranges = vec![
        10..200,
        50..100,
        100..150,
        150..200,
        200..250,
        250..300,
        300..350,
        350..400,
        400..450,
        450..500,
    ];

    for range in ranges {
        let min = range.start;
        let max = range.end;
        let splitter = CodeSplitter::builder()
            .try_language("rust")
            .unwrap()
            .chunk_size(range)
            .build()
            .unwrap();

        assert_eq!(splitter.min_bytes(), min);
        assert_eq!(splitter.max_bytes(), max);

        let chunks = splitter.split(code).unwrap();

        assert!(chunks.iter().all(|chunk| chunk.len() <= max));
        let smaller_pairs = chunks
            .windows(2)
            .filter(|pair| pair.iter().map(String::len).sum::<usize>() < max)
            .count();
        assert!(smaller_pairs == 0, "max: {}", max);
        assert!(chunks.iter().all(|chunk| chunk.len() >= min));
    }
}

#[test]
fn splitter_rejects_unknown_language_and_missing_language() {
    assert_eq!(
        CodeSplitter::builder().try_language("cobol").err(),
        Some(CodeToolError::UnsupportedLanguage)
    );
    assert_eq!(
        CodeSplitter::builder().build().err(),
        Some(CodeToolError::MissingLanguage)
    );
}

#[test]
fn splitter_default_chunk_size() {
    let splitter = CodeSplitter::new(SupportedLanguages::Python);
    assert_eq!(splitter.max_bytes(), 1500);
    assert_eq!(splitter.min_bytes(), 0);
    let ranged = CodeSplitter::builder()
        .try_language("python")
        .unwrap()
        .chunk_size(ChunkSize::Range(5..9))
        .build()
        .unwrap();
    assert_eq!(ranged.min_bytes(), 5);
    assert_eq!(ranged.max_bytes(), 9);
}

#[test]
fn test_outline_rust() {
    let code = r#"
use anyhow::{Context as _, Result};
// This is a comment
fn main(a: usize, b: usize) -> usize {
    println!("Hello, world!");
}

pub struct Bla {
    a: usize
}

impl Bla {
    fn ok(&mut self) {
        self.a = 1;
    }
}"#;
    let outliner = CodeOutliner::new(SupportedLanguages::Rust);
    let summary = outliner.outline(code).unwrap();
    assert_eq!(
        summary,
        "\nuse anyhow::{Context as _, Result};\n// This is a comment\nfn main(a: usize, b: usize) -> usize \n\npub struct Bla {\n    a: usize\n}\n\nimpl Bla {\n    fn ok(&mut self) \n}"
    );
}

#[test]
fn test_outline_typescript() {
    let code = r#"
import { Context as _, Result } from 'anyhow';
// This is a comment
function main(a: number, b: number): number {
    console.log("Hello, world!");
}

export class Bla {
    a: number;
}

export interface Bla {
    ok(): void;
}"#;
    let outliner = CodeOutliner::new(SupportedLanguages::Typescript);
    let summary = outliner.outline(code).unwrap();
    assert_eq!(
        summary,
        "\nimport { Context as _, Result } from 'anyhow';\n// This is a comment\nfunction main(a: number, b: number): number \n\nexport class Bla {\n    a: number;\n}\n\nexport interface Bla {\n    ok(): void;\n}"
    );
}

#[test]
fn test_outline_python() {
    let code = r#"
import sys
# This is a comment
def main(a: int, b: int) -> int:
    print("Hello, world!")

class Bla:
    def __init__(self):
        self.a = 1

    def ok(self):
        self.a = 1
"#;
    let outliner = CodeOutliner::new(SupportedLanguages::Python);
    let summary = outliner.outline(code).unwrap();
    assert_eq!(
        summary,
        "\nimport sys\n# This is a comment\ndef main(a: int, b: int) -> int:\n    \n\nclass Bla:\n    def __init__(self):\n        \n\n    def ok(self):\n        "
    );
}

#[test]
fn test_outline_ruby() {
    let code = r#"
require 'anyhow'
# This is a comment
def main(a, b)
    puts "Hello, world!"
end

class Bla
    def ok
        @a = 1
    end
end
"#;
    let outliner = CodeOutliner::new(SupportedLanguages::Ruby);
    let summary = outliner.outline(code).unwrap();
    assert_eq!(
        summary,
        "\nrequire 'anyhow'\n# This is a comment\ndef main(a, b)\n    \nend\n\nclass Bla\n    def ok\n        \n    end\nend"
    );
}

#[test]
fn test_outline_javascript() {
    let code = r#"
import { Context as _, Result } from 'anyhow';
// This is a comment
function main(a, b) {
    console.log("Hello, world!");
}

class Bla {
    constructor() {
        this.a = 1;
    }

    ok() {
        this.a = 1;
    }
}
"#;
    let outliner = CodeOutliner::new(SupportedLanguages::Javascript);
    let summary = outliner.outline(code).unwrap();
    assert_eq!(
        summary,
        "\nimport { Context as _, Result } from 'anyhow';\n// This is a comment\nfunction main(a, b) \n\nclass Bla {\n    constructor() \n\n    ok() \n}"
    );
}

#[test]
fn test_outline_java() {
    let code = r#"
import java.io.PrintStream;
import java.util.Scanner;

public class HelloWorld {
    // This is a comment
    public static void main(String[] args) {
        PrintStream out = System.out;

        out.println("Hello, World!");
    }
}
"#;
    let outliner = CodeOutliner::new(SupportedLanguages::Java);
    let summary = outliner.outline(code).unwrap();
    assert_eq!(
        summary,
        "\nimport java.io.PrintStream;\nimport java.util.Scanner;\n\npublic class HelloWorld {\n    // This is a comment\n    public static void main(String[] args) \n}"
    );
}

#[test]
fn outline_rejects_invalid_syntax() {
    let outliner = CodeOutliner::new(SupportedLanguages::Rust);
    assert_eq!(outliner.outline("fn main( {").err(), Some(CodeToolError::InvalidSyntax));
}

#[test]
fn test_parsing_on_rust() {
    let parser = CodeParser::from_language(SupportedLanguages::Rust);
    let code = r#"
        use std::io;

        fn main() {
            println!("Hello, world!");
        }
        "#;
    let tree = parser.parse(code).unwrap();
    let result = tree.references_and_definitions().unwrap();
    assert_eq!(result.references, vec!["println"]);

    assert_eq!(result.definitions, vec!["main"]);
}

#[test]
fn test_parsing_on_ruby() {
    let parser = CodeParser::from_language(SupportedLanguages::Ruby);
    let code = r#"
        class A < Inheritance
          include ActuallyAlsoInheritance

          def a
            puts "A"
          end
        end
        "#;

    let tree = parser.parse(code).unwrap();
    let result = tree.references_and_definitions().unwrap();
    assert_eq!(
        result.references,
        ["ActuallyAlsoInheritance", "Inheritance", "include", "puts",]
    );

    assert_eq!(result.definitions, ["A", "a"]);
}

#[test]
fn test_parsing_python() {
    let parser = CodeParser::from_language(SupportedLanguages::Python);
    let code = r#"
        class A:
            def __init__(self):
                self.a = [x for x in range(10)]

        def hello_world():
            print("Hello, world!")
        "#;
    let tree = parser.parse(code).unwrap();
    let result = tree.references_and_definitions().unwrap();
    assert_eq!(result.references, ["print", "range"]);
    assert_eq!(result.definitions, vec!["A", "hello_world"]);
}

#[test]
fn test_parsing_on_typescript() {
    let parser = CodeParser::from_language(SupportedLanguages::Typescript);
    let code = r#"
        function Test() {
            console.log("Hello, TypeScript!");
            otherThing();
        }

        class MyClass {
            constructor() {
                let local = 5;
                this.myMethod();
            }

            myMethod() {
                console.log("Hello, TypeScript!");
            }
        }
        "#;

    let tree = parser.parse(code).unwrap();
    let result = tree.references_and_definitions().unwrap();
    assert_eq!(result.definitions, vec!["MyClass", "Test", "myMethod"]);
    assert_eq!(result.references, vec!["log", "otherThing"]);
}

#[test]
fn rust_queries_are_selected() {
    assert_eq!(
        ts_queries_for_language(SupportedLanguages::Rust),
        (RUST_DEFS, RUST_REFS)
    );
}

#[test]
fn combining_sorts_dedups_and_drops_self_references() {
    let defs = vec!["main".to_string(), "helper".to_string(), "main".to_string()];
    let refs = vec![
        "println".to_string(),
        "helper".to_string(),
        "format".to_string(),
        "println".to_string(),
    ];
    let combined = combine_references_and_definitions(defs, refs);
    assert_eq!(combined.definitions, vec!["helper", "main"]);
    assert_eq!(combined.references, vec!["format", "println"]);
}

#[test]
fn refs_defs_types_collect_entries() {
    let mut file = File::new("lib.rs".into(), "src/lib.rs".into(), "rust".into());
    let mut def = Definition::new("d1".into(), "main".into(), "function".into(), None, true);
    def.add_contained_definition("d2".into());
    def.add_contained_reference("r1".into());
    assert_eq!(def.contained_definitions, vec!["d2"]);
    assert_eq!(def.contained_references, vec!["r1"]);
    assert!(def.language_specific_properties.is_empty());
    file.add_definition(def);
    let location = Location { line: 1, line_end: 1, column: 4, column_end: 8 };
    let reference = Reference::new(
        "r1".into(),
        "call".into(),
        location,
        ReferenceTarget::Internal("d1".into()),
    );
    assert_eq!(reference.location, location);
    file.add_reference(reference);
    assert_eq!(file.definitions.len(), 1);
    assert_eq!(file.references.len(), 1);
    assert_eq!(file.name, "lib.rs");
}

#[test]
fn chunk_code_transformer_settings() {
    let chunker = ChunkCode::try_for_language("rust").unwrap().with_concurrency(4);
    assert_eq!(chunker.concurrency(), Some(4));
    let sized = ChunkCode::try_for_language_and_chunk_size("python", 10..200).unwrap();
    assert_eq!(sized.concurrency(), None);
    assert!(ChunkCode::try_for_language("cobol").is_err());
    assert!(ChunkCode::builder().build().is_err());
    let chunks = chunker.split_code("fn a() {}").unwrap();
    assert_eq!(chunks, vec!["fn a() {}"]);
}

#[test]
fn chunk_offsets_add_up_byte_lengths() {
    let chunks = vec!["ab".to_string(), "é".to_string(), "xyz".to_string()];
    assert_eq!(chunk_offsets(&chunks), vec![0, 2, 4]);
}

#[test]
fn outline_transformer_skips_small_files() {
    let transformer = OutlineCodeTreeSitter::try_for_language("rust", Some(100)).unwrap();
    assert!(!transformer.is_outlined(10));
    assert_eq!(transformer.outline_for("fn main() {}"), Ok(None));
    let always = OutlineCodeTreeSitter::try_for_language(SupportedLanguages::Rust, None).unwrap();
    assert_eq!(
        always.outline_for("fn main() { let a = 1; }"),
        Ok(Some("fn main() ".to_string()))
    );
}

#[test]
fn refs_defs_transformer_and_metadata() {
    assert!(MetadataRefsDefsCode::try_from_language("rust").is_ok());
    assert!(MetadataRefsDefsCode::try_from_language("klingon").is_err());
    let parser = CodeParser::from_language(SupportedLanguages::Rust);
    let tree = parser.parse("fn main() { println!(\"Hello, World!\"); }").unwrap();
    let rd = tree.references_and_definitions().unwrap();
    let entries = refs_defs_metadata(&rd);
    assert_eq!(
        entries,
        vec![
            ("References (code)".to_string(), "println".to_string()),
            ("Definitions (code)".to_string(), "main".to_string()),
        ]
    );
}

#[test]
fn qa_code_defaults_to_five_questions() {
    assert_eq!(MetadataQACode::builder().build().num_questions, 5);
    assert_eq!(MetadataQACode::builder().num_questions(2).build().num_questions, 2);
}

#[test]
fn char_estimate_rounds_up() {
    assert_eq!(char_estimate("", 0), 0);
    assert_eq!(char_estimate("abcd", 0), 1);
    assert_eq!(char_estimate("abcde", 2), 4);
}

#[test]
fn capture_text_joins_spans_and_rejects_bad_ones() {
    let code = "fn main() { café(); }";
    assert_eq!(capture_text(code, &vec![(3, 7)]).as_deref(), Some("main"));
    assert_eq!(capture_text(code, &vec![(0, 2), (3, 7)]).as_deref(), Some("fnmain"));
    assert_eq!(capture_text(code, &vec![]).as_deref(), Some(""));
    // `é` takes two bytes: a span ending inside it is refused.
    let e = code.find('é').unwrap();
    assert!(capture_text(code, &vec![(12, e + 1)]).is_none());
    assert_eq!(capture_text(code, &vec![(12, e + 2)]).as_deref(), Some("café"));
    assert!(capture_text(code, &vec![(5, 3)]).is_none());
    assert!(capture_text(code, &vec![(0, code.len() + 1)]).is_none());
}

#[test]
fn texts_of_matches_sorts_and_dedups() {
    let code = "b a b";
    let matches = vec![vec![(0, 1)], vec![(2, 3)], vec![(4, 5)]];
    assert_eq!(texts_of_matches(code, &matches).unwrap(), vec!["a".to_string(), "b".to_string()]);
    assert_eq!(
        texts_of_matches(code, &vec![vec![(0, 1)], vec![(0, 9)]]).unwrap_err(),
        CodeTreeError::NodeText
    );
}

fn leaf(kind: &str, start_byte: usize, end_byte: usize) -> SyntaxNode {
    SyntaxNode { kind: kind.to_string(), field: None, start_byte, end_byte, children: vec![] }
}

#[test]
fn check_tree_keeps_only_well_formed_trees() {
    let code = "fn a() {}";
    let good = SyntaxNode {
        kind: "source_file".to_string(),
        field: None,
        start_byte: 0,
        end_byte: 9,
        children: vec![leaf("fn", 0, 2), leaf("block", 7, 9)],
    };
    assert!(matches!(check_tree(good, code), ParsedCode::Tree(_)));
    let past_end = leaf("source_file", 0, 10);
    assert!(matches!(check_tree(past_end, code), ParsedCode::InvalidSpans));
    let unordered = SyntaxNode {
        kind: "source_file".to_string(),
        field: None,
        start_byte: 0,
        end_byte: 9,
        children: vec![leaf("block", 7, 9), leaf("fn", 0, 2)],
    };
    assert!(matches!(check_tree(unordered, code), ParsedCode::InvalidSpans));
    // "é" takes two bytes; a span ending inside it is not on a character boundary.
    assert!(matches!(check_tree(leaf("x", 0, 1), "é"), ParsedCode::InvalidSpans));
}

#[test]
fn parse_code_gives_a_tree_or_a_syntax_error() {
    match parse_code(SupportedLanguages::Rust, "fn main() {}") {
        ParsedCode::Tree(t) => {
            assert_eq!(t.start_byte, 0);
            assert_eq!(t.end_byte, 12);
            assert!(!t.children.is_empty());
        }
        _ => panic!("expected a tree"),
    }
    assert!(matches!(
        parse_code(SupportedLanguages::Rust, "fn main( {"),
        ParsedCode::SyntaxError
    ));
}

#[test]
fn java_reference_query_does_not_compile() {
    let parser = CodeParser::from_language(SupportedLanguages::Java);
    let code = "public class Hello { void main() { System.out.println(1); } }";
    let tree = parser.parse(code).unwrap();
    assert!(matches!(tree.references_and_definitions(), Err(CodeTreeError::InvalidQuery)));
}

const DEFINITIONS_SAMPLE: &str = r#"
mod my_module {
    pub struct MyStruct {
        field: i32,
    }

    impl MyStruct {
        fn new() -> Self {
            MyStruct { field: 0 }
        }
    }

    pub fn module_function() -> i32 {
        42
    }

    pub trait MyTrait {
        fn trait_method(&self);
    }

    pub enum MyEnum {
        VariantA,
        VariantB(i32),
    }
}

fn main() {
    println!("Hello, world!");
}
"#;

#[test]
fn definitions_are_found_with_their_containment() {
    let identifier = DefinitionIdentifier::new(SupportedLanguages::Rust);
    let file = identifier
        .identify_definitions("test_file.rs", DEFINITIONS_SAMPLE)
        .unwrap();
    assert_eq!(file.name, "test_file.rs");
    assert_eq!(file.path, "test_file.rs");
    assert_eq!(file.language, "Rust");
    let found: Vec<(&str, &str)> = file
        .definitions
        .iter()
        .map(|d| (d.name.as_str(), d.definition_type.as_str()))
        .collect();
    assert_eq!(
        found,
        vec![
            ("my_module", "module"),
            ("MyStruct", "class"),
            ("new", "function"),
            ("module_function", "function"),
            ("MyTrait", "class"),
            ("trait_method", "function"),
            ("MyEnum", "class"),
            ("main", "function"),
        ]
    );
    let id_of = |name: &str| file.definitions.iter().find(|d| d.name == name).unwrap().id.clone();
    let module = &file.definitions[0];
    // the impl block has no `name` field, so `new` belongs to the module directly
    assert_eq!(
        module.contained_definitions,
        vec![id_of("MyStruct"), id_of("new"), id_of("module_function"), id_of("MyTrait"), id_of("MyEnum")]
    );
    let my_trait = file.definitions.iter().find(|d| d.name == "MyTrait").unwrap();
    assert_eq!(my_trait.contained_definitions, vec![id_of("trait_method")]);
    assert!(!module.contained_definitions.contains(&id_of("main")));
    assert_eq!(file.definitions[0].id, "def_0");
    assert!(file.definitions.iter().all(|d| d.is_scope && d.alias.is_none()));
}

#[test]
fn definitions_need_valid_syntax() {
    let identifier = DefinitionIdentifier::new(SupportedLanguages::Rust);
    assert!(matches!(
        identifier.identify_definitions("x.rs", "fn main( {"),
        Err(CodeToolError::InvalidSyntax)
    ));
    let file = identifier.identify_definitions("x.rs", "").unwrap();
    assert!(file.definitions.is_empty());
}
