//! The definitions and references found in a source file.
use vstd::prelude::*;
use std::collections::HashMap;

verus! {

/// A source file with the definitions and references found in it.
pub struct File {
    pub name: String,
    pub path: String,
    pub language: String,
    pub definitions: Vec<Definition>,
    pub references: Vec<Reference>,
}

/// A definition: its identifier, name, kind, optional alias, whether it opens a scope, and the
/// identifiers of the definitions and references it contains.
pub struct Definition {
    pub id: String,
    pub name: String,
    pub definition_type: String,
    pub alias: Option<String>,
    pub is_scope: bool,
    pub contained_definitions: Vec<String>,
    pub contained_references: Vec<String>,
    pub language_specific_properties: HashMap<String, String>,
}

/// A reference: its identifier, kind, where it is and what it refers to.
pub struct Reference {
    pub id: String,
    pub reference_type: String,
    pub location: Location,
    pub refers_to: ReferenceTarget,
}

/// A span of source text by lines and columns.
#[derive(Debug, PartialEq, Eq, Structural, Clone, Copy)]
pub struct Location {
    pub line: usize,
    pub line_end: usize,
    pub column: usize,
    pub column_end: usize,
}

/// What a reference refers to.
pub enum ReferenceTarget {
    /// The identifier of a definition in the same file.
    Internal(String),
    /// A definition elsewhere, by name and presumed kind.
    External { name: String, presumed_type: String },
    /// Not resolved; the lexical scope of the reference.
    Unresolved(Vec<String>),
}

impl File {
    /// A file with no definitions and no references.
    pub fn new(name: String, path: String, language: String) -> (r: File)
        ensures
            r.name == name,
            r.path == path,
            r.language == language,
            r.definitions@ == Seq::<Definition>::empty(),
            r.references@ == Seq::<Reference>::empty(),
    {
        File { name, path, language, definitions: Vec::new(), references: Vec::new() }
    }

    /// Appends a definition.
    pub fn add_definition(&mut self, definition: Definition)
        ensures
            final(self).definitions@ == old(self).definitions@.push(definition),
            final(self).references@ == old(self).references@,
            final(self).name == old(self).name,
            final(self).path == old(self).path,
            final(self).language == old(self).language,
    {
        self.definitions.push(definition);
    }

    /// Appends a reference.
    pub fn add_reference(&mut self, reference: Reference)
        ensures
            final(self).references@ == old(self).references@.push(reference),
            final(self).definitions@ == old(self).definitions@,
            final(self).name == old(self).name,
            final(self).path == old(self).path,
            final(self).language == old(self).language,
    {
        self.references.push(reference);
    }
}

impl Definition {
    /// A definition that contains nothing yet and has no language-specific properties.
    pub fn new(
        id: String,
        name: String,
        definition_type: String,
        alias: Option<String>,
        is_scope: bool,
    ) -> (r: Definition)
        ensures
            r.id == id,
            r.name == name,
            r.definition_type == definition_type,
            r.alias == alias,
            r.is_scope == is_scope,
            r.contained_definitions@ == Seq::<String>::empty(),
            r.contained_references@ == Seq::<String>::empty(),
            r.language_specific_properties@ == Map::<String, String>::empty(),
    {
        Definition {
            id,
            name,
            definition_type,
            alias,
            is_scope,
            contained_definitions: Vec::new(),
            contained_references: Vec::new(),
            language_specific_properties: HashMap::new(),
        }
    }

    /// Records the identifier of a contained definition.
    pub fn add_contained_definition(&mut self, definition_id: String)
        ensures
            final(self).contained_definitions@ == old(self).contained_definitions@.push(definition_id),
            final(self).contained_references@ == old(self).contained_references@,
            final(self).id == old(self).id,
            final(self).name == old(self).name,
    {
        self.contained_definitions.push(definition_id);
    }

    /// Records the identifier of a contained reference.
    pub fn add_contained_reference(&mut self, reference_id: String)
        ensures
            final(self).contained_references@ == old(self).contained_references@.push(reference_id),
            final(self).contained_definitions@ == old(self).contained_definitions@,
            final(self).id == old(self).id,
            final(self).name == old(self).name,
    {
        self.contained_references.push(reference_id);
    }
}

impl Reference {
    /// A reference with the given parts.
    pub fn new(
        id: String,
        reference_type: String,
        location: Location,
        refers_to: ReferenceTarget,
    ) -> (r: Reference)
        ensures
            r.id == id,
            r.reference_type == reference_type,
            r.location == location,
            r.refers_to == refers_to,
    {
        Reference { id, reference_type, location, refers_to }
    }
}

} // verus!
