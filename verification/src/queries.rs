//! The tree-sitter queries that find definitions and references, by language.
use vstd::prelude::*;

verus! {

/// The query for definitions in Rust code.
pub const RUST_DEFS: &'static str = "
            (struct_item
                name: (type_identifier) @name)

            (enum_item
                name: (type_identifier) @name)

            (union_item
                name: (type_identifier) @name)

            (type_item
                name: (type_identifier) @name)

            (declaration_list
                (function_item
                    name: (identifier) @name))

            (function_item
                name: (identifier) @name)

            (trait_item
                name: (type_identifier) @name)

            (mod_item
                name: (identifier) @name)

            (macro_definition
                name: (identifier) @name)
        ";

/// The query for references in Rust code.
pub const RUST_REFS: &'static str = "
            (call_expression
                function: (identifier) @name)

            (call_expression
                function: (field_expression
                    field: (field_identifier) @name))

            (macro_invocation
                macro: (identifier) @name)
        ";

/// The query for definitions in Python code.
pub const PYTHON_DEFS: &'static str = r#"
            (class_definition
                name: (identifier) @name)

            (
            (function_definition
                name: (identifier) @name)
            (#not-eq? @name "__init__")
            )

        "#;

/// The query for references in Python code.
pub const PYTHON_REFS: &'static str = "

            (call
            function: [
                (identifier) @name
                (attribute
                    attribute: (identifier))
            ])
        ";

/// The query for definitions in TypeScript code.
pub const TYPESCRIPT_DEFS: &'static str = r#"
            (function_signature
                name: (identifier) @name)

            (method_signature
                name: (property_identifier) @name)

            (abstract_method_signature
                name: (property_identifier) @name)

            (abstract_class_declaration
                name: (type_identifier) @name)

            (module
                name: (identifier) @name)

            (interface_declaration
                name: (type_identifier) @name)

            (
            (method_definition
                name: (property_identifier) @name)
            (#not-eq? @name "constructor")
            )

            (
            [
                (class
                name: (_) @name)
                (class_declaration
                name: (_) @name)
            ] 
            )

            (
            [
                (function_expression
                name: (identifier) @name)
                (function_declaration
                name: (identifier) @name)
                (generator_function
                name: (identifier) @name)
                (generator_function_declaration
                name: (identifier) @name)
            ] 
            )

            (
            (lexical_declaration
                (variable_declarator
                name: (identifier) @name
                value: [(arrow_function) (function_expression)]))
            )

            (
            (variable_declaration
                (variable_declarator
                name: (identifier) @name
                value: [(arrow_function) (function_expression)]))
            )
        "#;

/// The query for references in TypeScript code.
pub const TYPESCRIPT_REFS: &'static str = r#"
            (type_annotation
                (type_identifier) @name)

            (new_expression
                constructor: (identifier) @name)
            (
            (call_expression
                function: (identifier) @name) 
            (#not-match? @name "^(require)$")
            )

            (call_expression
            function: (member_expression
                property: (property_identifier) @name)
            arguments: (_))
        "#;

/// The query for definitions in Ruby code.
pub const RUBY_DEFS: &'static str = r"
(
  [
    (method
      name: (_) @name)
    (singleton_method
      name: (_) @name)
  ]
)

(alias
  name: (_) @name)

(setter
  (identifier) @ignore)

(
  [
    (class
      name: [
        (constant) @name
        (scope_resolution
          name: (_) @name)
      ]) 
    (singleton_class
      value: [
        (constant) @name
        (scope_resolution
          name: (_) @name)
      ])
  ]
)

(
  (module
    name: [
      (constant) @name
      (scope_resolution
        name: (_) @name)
    ])
)
";

/// The query for references in Ruby code.
pub const RUBY_REFS: &'static str = r#"
(call method: (identifier) @name)

(
  [(identifier) (constant)] @name
  (#is-not? local)
  (#not-match? @name "^(lambda|load|require|require_relative|__FILE__|__LINE__)$")
)
"#;

/// The query for definitions in Java code.
pub const JAVA_DEFS: &'static str = "
           (class_declaration
                name: (identifier) @name) @definition.class

            (method_declaration
                name: (identifier) @name) @definition.method

            (interface_declaration
                name: (identifier) @name) @definition.interface

    ";

/// The query for references in Java code.
pub const JAVA_REFS: &'static str = "
            (method_invocation
                name: (identifier) @name
                arguments: (argument_list) @reference.call)

            (field_access
                name: (identifier) @name) @reference.field

            (type_list
                (type_identifier) @name) @reference.implementation

            (object_creation_expression
                type: (type_identifier) @name) @reference.class

            (superclass (type_identifier) @name) @reference.class";

} // verus!
