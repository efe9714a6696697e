//! The table layout of a pgvector store: column names derived from field names, identifier
//! checks, and the SQL that creates, indexes and fills the table.
use vstd::prelude::*;
use vstd::string::StringSliceAdditionalSpecFns;
use crate::pdf::{spec_is_whitespace, is_whitespace, spec_trim, trim, spec_join, join};
use crate::text::append_chars;
use crate::text::{chars_of, chars_eq, string_from_chars};

verus! {

broadcast use vstd::string::group_string_axioms;

// ---------------------------------------------------------------------------------------------
// Names of the outside results
// ---------------------------------------------------------------------------------------------

/// What `str::to_lowercase` gives for a string: its Unicode lower-case form.
pub uninterp spec fn lowercase_of(s: Seq<char>) -> Seq<char>;

/// What `str::to_uppercase` gives for a string: its Unicode upper-case form.
pub uninterp spec fn uppercase_of(s: Seq<char>) -> Seq<char>;

/// What `char::is_alphanumeric` says of a character: whether it is alphabetic or numeric in
/// Unicode.
pub uninterp spec fn is_alphanumeric_char(c: char) -> bool;

/// The regular expression of an identifier: an ASCII letter or `_`, then ASCII letters, digits,
/// `_` or `$`, up to the end of the text.
pub open spec fn spec_identifier_pattern() -> Seq<char> {
    "^[a-zA-Z_][a-zA-Z0-9_$]*$"@
}

/// A character that may start an identifier: an ASCII letter or `_`.
pub open spec fn spec_identifier_start(c: char) -> bool {
    ('a' <= c && c <= 'z') || ('A' <= c && c <= 'Z') || c == '_'
}

/// A character that may continue an identifier: one that may start it, an ASCII digit, or `$`.
pub open spec fn spec_identifier_char(c: char) -> bool {
    spec_identifier_start(c) || ('0' <= c && c <= '9') || c == '$'
}

/// Whether the whole of `s` matches [`spec_identifier_pattern`].
pub open spec fn spec_matches_identifier_pattern(s: Seq<char>) -> bool {
    &&& s.len() >= 1
    &&& spec_identifier_start(s[0])
    &&& forall|i: int| 1 <= i < s.len() ==> #[trigger] spec_identifier_char(s[i])
}

/// The lower-case form of a string (`str::to_lowercase`).
#[verifier::external_body]
fn to_lowercase(s: &str) -> (r: String)
    ensures
        r@ == lowercase_of(s@),
{
    s.to_lowercase()
}

/// The upper-case form of a string (`str::to_uppercase`).
#[verifier::external_body]
fn to_uppercase(s: &str) -> (r: String)
    ensures
        r@ == uppercase_of(s@),
{
    s.to_uppercase()
}

/// Whether a character is alphabetic or numeric (`char::is_alphanumeric`).
#[verifier::external_body]
fn char_is_alphanumeric(c: char) -> (r: bool)
    ensures
        r == is_alphanumeric_char(c),
{
    c.is_alphanumeric()
}

/// Compiles the identifier pattern with the `regex` crate (`Regex::new`) and tells whether it
/// matches `haystack` (`Regex::is_match`). The pattern compiles; in the crate's syntax `^` and `$`
/// (without the multi-line flag) match only at the start and the end of the text, and each
/// bracketed class holds exactly the characters and ranges it lists.
#[verifier::external_body]
fn regex_is_match(pattern: &str, haystack: &str) -> (r: Option<bool>)
    requires
        pattern@ == spec_identifier_pattern(),
    ensures
        r == Some(spec_matches_identifier_pattern(haystack@)),
{
    regex::Regex::new(pattern).ok().map(|re| re.is_match(haystack))
}

// ---------------------------------------------------------------------------------------------
// Column names
// ---------------------------------------------------------------------------------------------

/// The characters that end the part of a field name that its column name is made from.
pub open spec fn spec_is_name_stop(c: char) -> bool {
    c == '(' || c == '[' || c == '{' || c == '<'
}

/// `s` up to its first `(`, `[`, `{` or `<`.
pub open spec fn spec_before_stop(s: Seq<char>) -> Seq<char>
    decreases s.len(),
{
    if s.len() == 0 {
        s
    } else if spec_is_name_stop(s[0]) {
        Seq::empty()
    } else {
        seq![s[0]] + spec_before_stop(s.drop_first())
    }
}

/// The state of splitting the first `k` characters of `s` into words: the finished words and
/// the word in progress.
pub open spec fn spec_words_state(s: Seq<char>, k: int) -> (Seq<Seq<char>>, Seq<char>)
    decreases k,
{
    if k <= 0 || k > s.len() {
        (Seq::empty(), Seq::empty())
    } else {
        let prev = spec_words_state(s, k - 1);
        if spec_is_whitespace(s[k - 1]) {
            if prev.1.len() > 0 {
                (prev.0.push(prev.1), Seq::empty())
            } else {
                prev
            }
        } else {
            (prev.0, prev.1.push(s[k - 1]))
        }
    }
}

/// The words of `s`: its maximal runs of non-whitespace characters.
pub open spec fn spec_words(s: Seq<char>) -> Seq<Seq<char>> {
    let st = spec_words_state(s, s.len() as int);
    if st.1.len() > 0 {
        st.0.push(st.1)
    } else {
        st.0
    }
}

/// The characters of `s` that are alphanumeric or `_`.
pub open spec fn spec_keep_name_chars(s: Seq<char>) -> Seq<char>
    decreases s.len(),
{
    if s.len() == 0 {
        s
    } else {
        let head = spec_keep_name_chars(s.drop_last());
        if is_alphanumeric_char(s.last()) || s.last() == '_' {
            head.push(s.last())
        } else {
            head
        }
    }
}

/// The column name made from a field name: the part before any `(`, `[`, `{` or `<`, trimmed,
/// its first three words joined by `_`, in lower case, keeping only alphanumeric characters and
/// `_`.
pub open spec fn spec_normalize_field_name(field: Seq<char>) -> Seq<char> {
    let words = spec_words(spec_trim(spec_before_stop(field)));
    let first = words.take(if words.len() < 3 { words.len() as int } else { 3 });
    spec_keep_name_chars(lowercase_of(spec_join(first, seq!['_'])))
}

/// The index of the first stop character of `s`, or its length.
fn stop_index(s: &Vec<char>) -> (r: usize)
    ensures
        r <= s@.len(),
        spec_before_stop(s@) == s@.subrange(0, r as int),
{
    let mut i: usize = 0;
    while i < s.len()
        invariant
            i <= s@.len(),
            forall|j: int| 0 <= j < i ==> !spec_is_name_stop(#[trigger] s@[j]),
        decreases s@.len() - i,
    {
        let c = s[i];
        if c == '(' || c == '[' || c == '{' || c == '<' {
            proof {
                lemma_before_stop_at(s@, i as int);
            }
            return i;
        }
        i = i + 1;
    }
    proof {
        lemma_before_stop_none(s@);
    }
    i
}

proof fn lemma_before_stop_none(s: Seq<char>)
    requires
        forall|j: int| 0 <= j < s.len() ==> !spec_is_name_stop(#[trigger] s[j]),
    ensures
        spec_before_stop(s) == s.subrange(0, s.len() as int),
    decreases s.len(),
{
    if s.len() > 0 {
        let d = s.drop_first();
        assert forall|j: int| 0 <= j < d.len() implies !spec_is_name_stop(#[trigger] d[j]) by {
            assert(d[j] == s[j + 1]);
        }
        assert(!spec_is_name_stop(s[0]));
        lemma_before_stop_none(d);
        assert(seq![s[0]] + d.subrange(0, d.len() as int) =~= s.subrange(0, s.len() as int));
    } else {
        assert(s.subrange(0, 0) =~= s);
    }
}

proof fn lemma_before_stop_at(s: Seq<char>, i: int)
    requires
        0 <= i < s.len(),
        spec_is_name_stop(s[i]),
        forall|j: int| 0 <= j < i ==> !spec_is_name_stop(#[trigger] s[j]),
    ensures
        spec_before_stop(s) == s.subrange(0, i),
    decreases i,
{
    if i == 0 {
        assert(s.subrange(0, 0) =~= Seq::<char>::empty());
    } else {
        let d = s.drop_first();
        assert(!spec_is_name_stop(s[0]));
        assert(d[i - 1] == s[i]);
        assert forall|j: int| 0 <= j < i - 1 implies !spec_is_name_stop(#[trigger] d[j]) by {
            assert(d[j] == s[j + 1]);
        }
        lemma_before_stop_at(d, i - 1);
        assert(seq![s[0]] + d.subrange(0, i - 1) =~= s.subrange(0, i));
    }
}

/// The words of `s` (see [`spec_words`]).
fn words(s: &[char]) -> (r: Vec<Vec<char>>)
    ensures
        r@.map_values(|w: Vec<char>| w@) == spec_words(s@),
{
    let mut done: Vec<Vec<char>> = Vec::new();
    let mut cur: Vec<char> = Vec::new();
    let mut k: usize = 0;
    while k < s.len()
        invariant
            k <= s@.len(),
            (done@.map_values(|w: Vec<char>| w@), cur@) == spec_words_state(s@, k as int),
        decreases s@.len() - k,
    {
        let ghost before = done@.map_values(|w: Vec<char>| w@);
        if is_whitespace(s[k]) {
            if cur.len() > 0 {
                let finished = cur;
                cur = Vec::new();
                done.push(finished);
                proof {
                    assert(done@.map_values(|w: Vec<char>| w@) =~= before.push(finished@));
                }
            }
        } else {
            cur.push(s[k]);
        }
        k = k + 1;
    }
    if cur.len() > 0 {
        let ghost before = done@.map_values(|w: Vec<char>| w@);
        let last = cur;
        done.push(last);
        proof {
            assert(done@.map_values(|w: Vec<char>| w@) =~= before.push(last@));
        }
    }
    done
}

/// The characters of `s` that are alphanumeric or `_` (see [`spec_keep_name_chars`]).
fn keep_name_chars(s: &Vec<char>) -> (r: Vec<char>)
    ensures
        r@ == spec_keep_name_chars(s@),
{
    let mut out: Vec<char> = Vec::new();
    let mut i: usize = 0;
    while i < s.len()
        invariant
            i <= s@.len(),
            out@ == spec_keep_name_chars(s@.subrange(0, i as int)),
        decreases s@.len() - i,
    {
        let c = s[i];
        proof {
            assert(s@.subrange(0, i + 1).drop_last() =~= s@.subrange(0, i as int));
        }
        if char_is_alphanumeric(c) || c == '_' {
            out.push(c);
        }
        i = i + 1;
    }
    proof {
        assert(s@.subrange(0, s@.len() as int) =~= s@);
    }
    out
}

/// The column name made from a field name (see [`spec_normalize_field_name`]).
pub fn normalize_field_name(field: &str) -> (r: String)
    ensures
        r@ == spec_normalize_field_name(field@),
{
    let all = chars_of(field);
    let stop = stop_index(&all);
    let mut base: Vec<char> = Vec::new();
    let mut i: usize = 0;
    while i < stop
        invariant
            i <= stop <= all@.len(),
            base@ == all@.subrange(0, i as int),
        decreases stop - i,
    {
        base.push(all[i]);
        proof {
            assert(all@.subrange(0, i + 1) =~= all@.subrange(0, i as int).push(all@[i as int]));
        }
        i = i + 1;
    }
    let trimmed = trim(base.as_slice());
    let mut ws = words(trimmed.as_slice());
    let ghost all_words = ws@.map_values(|w: Vec<char>| w@);
    while ws.len() > 3
        invariant
            ws@.len() >= 3 ==> ws@.map_values(|w: Vec<char>| w@) == all_words.take(
                ws@.len() as int,
            ),
            ws@.len() < 3 ==> ws@.map_values(|w: Vec<char>| w@) == all_words,
            ws@.len() <= all_words.len(),
        decreases ws@.len(),
    {
        let ghost before = ws@;
        ws.pop();
        proof {
            assert(ws@.map_values(|w: Vec<char>| w@) =~= all_words.take(ws@.len() as int));
        }
    }
    proof {
        let first = all_words.take(if all_words.len() < 3 { all_words.len() as int } else { 3 });
        if all_words.len() < 3 {
            assert(all_words.take(all_words.len() as int) =~= all_words);
        }
        assert(ws@.map_values(|w: Vec<char>| w@) =~= first);
    }
    let sep = ['_'];
    assert(sep@ =~= seq!['_']);
    let joined = join(&ws, sep.as_slice());
    let joined_str = string_from_chars(joined.as_slice());
    let lower = to_lowercase(joined_str.as_str());
    let lower_chars = chars_of(lower.as_str());
    let kept = keep_name_chars(&lower_chars);
    string_from_chars(kept.as_slice())
}

// ---------------------------------------------------------------------------------------------
// Identifiers
// ---------------------------------------------------------------------------------------------

/// The reserved SQL keywords that cannot be identifiers, in upper case.
pub open spec fn spec_reserved_keywords() -> Seq<Seq<char>> {
    seq![
        "SELECT"@, "FROM"@, "WHERE"@, "INSERT"@, "UPDATE"@, "DELETE"@, "DROP"@, "CREATE"@,
        "TABLE"@, "INDEX"@, "ALTER"@, "ADD"@, "COLUMN"@, "AND"@, "OR"@, "NOT"@, "NULL"@,
        "TRUE"@, "FALSE"@,
    ]
}

/// `word` is a reserved keyword: its upper-case form is one of them.
pub open spec fn spec_is_reserved_keyword(word: Seq<char>) -> bool {
    spec_reserved_keywords().contains(uppercase_of(word))
}

/// `identifier` may name a table, index or column: it has between 1 and 63 bytes, matches the
/// identifier pattern, and is not a reserved keyword.
pub open spec fn spec_is_valid_identifier(identifier: Seq<char>) -> bool {
    &&& 1 <= vstd::utf8::encode_utf8(identifier).len() <= 63
    &&& spec_matches_identifier_pattern(identifier)
    &&& !spec_is_reserved_keyword(identifier)
}

/// Whether `word` is a reserved keyword (see [`spec_is_reserved_keyword`]).
pub fn is_reserved_keyword(word: &str) -> (r: bool)
    ensures
        r == spec_is_reserved_keyword(word@),
{
    let upper = to_uppercase(word);
    let u = chars_of(upper.as_str());
    let keywords: [&str; 19] = [
        "SELECT", "FROM", "WHERE", "INSERT", "UPDATE", "DELETE", "DROP", "CREATE", "TABLE",
        "INDEX", "ALTER", "ADD", "COLUMN", "AND", "OR", "NOT", "NULL", "TRUE", "FALSE",
    ];
    let ghost kw = spec_reserved_keywords();
    assert(keywords@.map_values(|k: &str| k@) =~= kw);
    let mut i: usize = 0;
    while i < 19
        invariant
            i <= 19,
            keywords@.len() == 19,
            keywords@.map_values(|k: &str| k@) == kw,
            kw == spec_reserved_keywords(),
            u@ == uppercase_of(word@),
            forall|j: int| 0 <= j < i ==> kw[j] != u@,
        decreases 19 - i,
    {
        let k = chars_of(keywords[i]);
        assert(k@ == kw[i as int]);
        if chars_eq(k.as_slice(), u.as_slice()) {
            return true;
        }
        i = i + 1;
    }
    proof {
        if kw.contains(u@) {
            let j = choose|j: int| 0 <= j < kw.len() && kw[j] == u@;
            assert(kw[j] != u@);
        }
    }
    false
}

/// Whether `identifier` may name a table, index or column (see [`spec_is_valid_identifier`]).
pub fn is_valid_identifier(identifier: &str) -> (r: bool)
    ensures
        r == spec_is_valid_identifier(identifier@),
{
    let n = identifier.as_bytes().len();
    if n == 0 || n > 63 {
        return false;
    }
    match regex_is_match("^[a-zA-Z_][a-zA-Z0-9_$]*$", identifier) {
        Some(true) => {},
        _ => return false,
    }
    !is_reserved_keyword(identifier)
}

// ---------------------------------------------------------------------------------------------
// Table layout
// ---------------------------------------------------------------------------------------------

/// A column holding the embedding of one embedded field.
pub struct VectorConfig {
    /// The name of the embedded field.
    pub embedded_field: String,
    /// The column name: `vector_` and the normalized field name.
    pub field: String,
}

/// A column holding one metadata field.
pub struct MetadataConfig {
    /// The column name: `meta_` and the normalized field name.
    pub field: String,
    /// The name of the metadata field.
    pub original_field: String,
}

/// A column of the table.
pub enum FieldConfig {
    /// An embedding.
    Vector(VectorConfig),
    /// A metadata field.
    Metadata(MetadataConfig),
    /// The text of the chunk.
    Chunk,
    /// The primary key.
    ID,
}

/// Appends the characters of `s` to `out`.
fn append_str(out: &mut Vec<char>, s: &str)
    ensures
        final(out)@ == old(out)@ + s@,
{
    let c = chars_of(s);
    append_chars(out, c.as_slice());
}

/// The string `prefix` followed by `rest`.
fn prefixed(prefix: &str, rest: &String) -> (r: String)
    ensures
        r@ == prefix@ + rest@,
{
    let mut out = chars_of(prefix);
    append_str(&mut out, rest.as_str());
    string_from_chars(out.as_slice())
}

impl VectorConfig {
    /// The column of the embedded field named `embedded_field`.
    pub fn new(embedded_field: &str) -> (r: VectorConfig)
        ensures
            r.embedded_field@ == embedded_field@,
            r.field@ == "vector_"@ + spec_normalize_field_name(embedded_field@),
    {
        let normalized = normalize_field_name(embedded_field);
        VectorConfig { embedded_field: embedded_field.to_owned(), field: prefixed("vector_", &normalized) }
    }
}

impl MetadataConfig {
    /// The column of the metadata field `original_field`.
    pub fn new(original_field: &str) -> (r: MetadataConfig)
        ensures
            r.original_field@ == original_field@,
            r.field@ == "meta_"@ + spec_normalize_field_name(original_field@),
    {
        let normalized = normalize_field_name(original_field);
        MetadataConfig { field: prefixed("meta_", &normalized), original_field: original_field.to_owned() }
    }
}

/// The kind of a column, with the name of a vector or metadata column.
pub enum FieldKind {
    Vector(Seq<char>),
    Metadata(Seq<char>),
    Chunk,
    ID,
}

/// The column of a field configuration, as plain values.
pub open spec fn spec_field_kind(f: FieldConfig) -> FieldKind {
    match f {
        FieldConfig::Vector(c) => FieldKind::Vector(c.field@),
        FieldConfig::Metadata(c) => FieldKind::Metadata(c.field@),
        FieldConfig::Chunk => FieldKind::Chunk,
        FieldConfig::ID => FieldKind::ID,
    }
}

/// The columns of a table layout.
pub open spec fn spec_kinds(fields: Seq<FieldConfig>) -> Seq<FieldKind> {
    fields.map_values(|f: FieldConfig| spec_field_kind(f))
}

/// The name of a column.
pub open spec fn spec_column_name(k: FieldKind) -> Seq<char> {
    match k {
        FieldKind::Vector(n) => n,
        FieldKind::Metadata(n) => n,
        FieldKind::Chunk => "chunk"@,
        FieldKind::ID => "id"@,
    }
}

impl FieldConfig {
    /// The name of the column.
    pub fn field_name(&self) -> (r: &str)
        ensures
            r@ == spec_column_name(spec_field_kind(*self)),
    {
        match self {
            FieldConfig::Vector(c) => c.field.as_str(),
            FieldConfig::Metadata(c) => c.field.as_str(),
            FieldConfig::Chunk => "chunk",
            FieldConfig::ID => "id",
        }
    }
}

/// The decimal representation of a signed number.
pub open spec fn spec_signed_decimal(n: int) -> Seq<char> {
    if n < 0 {
        seq!['-'] + crate::text::spec_decimal_chars((-n) as nat)
    } else {
        crate::text::spec_decimal_chars(n as nat)
    }
}

fn signed_decimal(n: i32) -> (r: Vec<char>)
    ensures
        r@ == spec_signed_decimal(n as int),
{
    let wide = n as i64;
    if wide < 0 {
        let mut out = vec!['-'];
        let magnitude = (0i64 - wide) as usize;
        let digits = crate::text::decimal_chars(magnitude);
        append_chars(&mut out, digits.as_slice());
        out
    } else {
        crate::text::decimal_chars(wide as usize)
    }
}

/// The definition of a column in `CREATE TABLE`.
pub open spec fn spec_column_definition(k: FieldKind, vector_size: i32) -> Seq<char> {
    match k {
        FieldKind::ID => "id UUID NOT NULL"@,
        FieldKind::Chunk => spec_column_name(k) + " TEXT NOT NULL"@,
        FieldKind::Metadata(n) => n + " JSONB"@,
        FieldKind::Vector(n) => n + " VECTOR("@ + spec_signed_decimal(vector_size as int) + ")"@,
    }
}

/// The statement that creates the table: its column definitions and the primary key on `id`.
pub open spec fn spec_create_table_sql(table: Seq<char>, kinds: Seq<FieldKind>, vector_size: i32) -> Seq<char> {
    let columns = kinds.map_values(|k: FieldKind| spec_column_definition(k, vector_size)).push(
        "PRIMARY KEY (id)"@,
    );
    "CREATE TABLE IF NOT EXISTS "@ + table + " (\n  "@ + spec_join(columns, ",\n  "@) + "\n)"@
}

/// The index of the first vector column, if any.
pub open spec fn spec_first_vector(kinds: Seq<FieldKind>) -> Option<int>
    decreases kinds.len(),
{
    if kinds.len() == 0 {
        None
    } else if kinds[0] is Vector {
        Some(0)
    } else {
        match spec_first_vector(kinds.drop_first()) {
            Some(i) => Some(i + 1),
            None => None,
        }
    }
}

/// The number of vector columns.
pub open spec fn spec_vector_count(kinds: Seq<FieldKind>) -> nat
    decreases kinds.len(),
{
    if kinds.len() == 0 {
        0
    } else {
        spec_vector_count(kinds.drop_first()) + if kinds[0] is Vector { 1nat } else { 0nat }
    }
}

/// The SQL type of the array that fills a column.
pub open spec fn spec_unnest_type(k: FieldKind) -> Seq<char> {
    match k {
        FieldKind::ID => "UUID[]"@,
        FieldKind::Chunk => "TEXT[]"@,
        FieldKind::Metadata(_) => "JSONB[]"@,
        FieldKind::Vector(_) => "VECTOR[]"@,
    }
}

/// The statement that inserts or updates rows from one array per column: the `k`-th column is
/// filled from parameter `$k`, and on a conflicting `id` every other column is updated.
pub open spec fn spec_upsert_sql(table: Seq<char>, kinds: Seq<FieldKind>) -> Seq<char> {
    let names = kinds.map_values(|k: FieldKind| spec_column_name(k));
    let params = Seq::new(kinds.len(), |i: int| spec_unnest_param(kinds, i));
    let updates = spec_update_clauses(kinds);
    let cols = spec_join(names, ", "@);
    "\n            INSERT INTO "@ + table + " ("@ + cols + ")\n            SELECT "@ + cols
        + "\n            FROM UNNEST("@ + spec_join(params, ", "@) + ") AS t("@ + cols
        + ")\n            ON CONFLICT (id) DO UPDATE SET "@ + spec_join(updates, ", "@)
}

/// The parameter that fills the `i`-th column.
pub open spec fn spec_unnest_param(kinds: Seq<FieldKind>, i: int) -> Seq<char> {
    seq!['$'] + crate::text::spec_decimal_chars((i + 1) as nat) + "::"@ + spec_unnest_type(kinds[i])
}

/// The assignments that update the columns other than `id` on a conflict.
pub open spec fn spec_update_clauses(kinds: Seq<FieldKind>) -> Seq<Seq<char>>
    decreases kinds.len(),
{
    if kinds.len() == 0 {
        Seq::empty()
    } else {
        let head = spec_update_clauses(kinds.drop_last());
        let k = kinds.last();
        if k is ID {
            head
        } else {
            head.push(spec_column_name(k) + " = EXCLUDED."@ + spec_column_name(k))
        }
    }
}

/// Why a statement for the table could not be generated.
#[derive(Debug, PartialEq, Eq, Structural, Clone, Copy)]
pub enum PgVectorError {
    /// The table name is not a valid identifier.
    InvalidTableName,
    /// No vector column is configured.
    NoVectorField,
    /// The table, index or vector column name is not a valid identifier.
    InvalidTableOrFieldName,
    /// No column is configured.
    EmptyFields,
    /// More than one vector column is configured.
    MultipleVectorFields,
    /// A required setting is missing from the builder.
    MissingSetting,
    /// A search filter is not of the form `key = value`.
    InvalidFilter,
}

/// Makes a duration of whole seconds (`Duration::from_secs`).
#[verifier::external_body]
fn duration_from_secs(secs: u64) -> std::time::Duration {
    std::time::Duration::from_secs(secs)
}

/// A pgvector store: its table layout and its connection settings.
pub struct PgVector {
    table_name: String,
    vector_size: i32,
    batch_size: usize,
    fields: Vec<FieldConfig>,
    db_url: String,
    db_max_connections: u32,
    db_max_retry: u32,
    db_conn_retry_delay: std::time::Duration,
}

/// Builder for [`PgVector`].
pub struct PgVectorBuilder {
    pub table_name: Option<String>,
    pub vector_size: Option<i32>,
    pub batch_size: Option<usize>,
    pub fields: Option<Vec<FieldConfig>>,
    pub db_url: Option<String>,
    pub db_max_connections: Option<u32>,
    pub db_max_retry: Option<u32>,
    pub db_conn_retry_delay: Option<std::time::Duration>,
}

/// The columns every table starts with: the primary key and the chunk text.
pub open spec fn spec_default_kinds() -> Seq<FieldKind> {
    seq![FieldKind::ID, FieldKind::Chunk]
}

/// The columns of an optional layout, with the default columns when none was set.
pub open spec fn spec_builder_kinds(fields: Option<Vec<FieldConfig>>) -> Seq<FieldKind> {
    match fields {
        Some(f) => spec_kinds(f@),
        None => spec_default_kinds(),
    }
}

/// The layout of an optional layout, with the default columns when none was set.
pub open spec fn spec_builder_fields(fields: Option<Vec<FieldConfig>>) -> Seq<FieldConfig> {
    match fields {
        Some(f) => f@,
        None => seq![FieldConfig::ID, FieldConfig::Chunk],
    }
}

impl PgVectorBuilder {
    /// The columns every table starts with: the primary key and the chunk text.
    pub fn default_fields() -> (r: Vec<FieldConfig>)
        ensures
            r@ == seq![FieldConfig::ID, FieldConfig::Chunk],
            spec_kinds(r@) == spec_default_kinds(),
    {
        let r = vec![FieldConfig::ID, FieldConfig::Chunk];
        assert(spec_kinds(r@) =~= spec_default_kinds());
        r
    }

    /// Adds a column for an embedded field, after the default columns when none were set.
    pub fn with_vector(&mut self, config: VectorConfig) -> (r: &mut PgVectorBuilder)
        ensures
            r.fields is Some,
            r.fields->0@ == spec_builder_fields(old(self).fields).push(FieldConfig::Vector(config)),
            spec_kinds(r.fields->0@) == spec_builder_kinds(old(self).fields).push(
                FieldKind::Vector(config.field@),
            ),
            *final(self) == *final(r),
    {
        let mut fields = match self.fields.take() {
            Some(f) => f,
            None => PgVectorBuilder::default_fields(),
        };
        let ghost before = fields@;
        let ghost name = config.field@;
        fields.push(FieldConfig::Vector(config));
        assert(spec_kinds(fields@) =~= spec_kinds(before).push(FieldKind::Vector(name)));
        self.fields = Some(fields);
        self
    }

    /// Adds a column for a metadata field, after the default columns when none were set.
    pub fn with_metadata(&mut self, config: MetadataConfig) -> (r: &mut PgVectorBuilder)
        ensures
            r.fields is Some,
            r.fields->0@ == spec_builder_fields(old(self).fields).push(FieldConfig::Metadata(config)),
            spec_kinds(r.fields->0@) == spec_builder_kinds(old(self).fields).push(
                FieldKind::Metadata(config.field@),
            ),
            *final(self) == *final(r),
    {
        let mut fields = match self.fields.take() {
            Some(f) => f,
            None => PgVectorBuilder::default_fields(),
        };
        let ghost before = fields@;
        let ghost name = config.field@;
        fields.push(FieldConfig::Metadata(config));
        assert(spec_kinds(fields@) =~= spec_kinds(before).push(FieldKind::Metadata(name)));
        self.fields = Some(fields);
        self
    }

    /// Sets the table name.
    pub fn table_name(&mut self, name: &str) -> (r: &mut PgVectorBuilder)
        ensures
            r.table_name matches Some(t) && t@ == name@,
            *final(self) == *final(r),
    {
        self.table_name = Some(name.to_owned());
        self
    }

    /// Sets the number of dimensions of the embeddings.
    pub fn vector_size(&mut self, size: i32) -> (r: &mut PgVectorBuilder)
        ensures
            r.vector_size == Some(size),
            *final(self) == *final(r),
    {
        self.vector_size = Some(size);
        self
    }

    /// Sets how many nodes are stored at a time.
    pub fn batch_size(&mut self, size: usize) -> (r: &mut PgVectorBuilder)
        ensures
            r.batch_size == Some(size),
            *final(self) == *final(r),
    {
        self.batch_size = Some(size);
        self
    }

    /// Sets the columns of the table.
    pub fn fields(&mut self, fields: Vec<FieldConfig>) -> (r: &mut PgVectorBuilder)
        ensures
            r.fields == Some(fields),
            *final(self) == *final(r),
    {
        self.fields = Some(fields);
        self
    }

    /// Sets how many connections the pool holds at most.
    pub fn db_max_connections(&mut self, max: u32) -> (r: &mut PgVectorBuilder)
        ensures
            r.db_max_connections == Some(max),
            *final(self) == *final(r),
    {
        self.db_max_connections = Some(max);
        self
    }

    /// Sets how many times connecting is tried.
    pub fn db_max_retry(&mut self, max: u32) -> (r: &mut PgVectorBuilder)
        ensures
            r.db_max_retry == Some(max),
            *final(self) == *final(r),
    {
        self.db_max_retry = Some(max);
        self
    }

    /// Sets the pause between connection attempts.
    pub fn db_conn_retry_delay(&mut self, delay: std::time::Duration) -> (r: &mut PgVectorBuilder)
        ensures
            r.db_conn_retry_delay == Some(delay),
            *final(self) == *final(r),
    {
        self.db_conn_retry_delay = Some(delay);
        self
    }

    /// Sets the database URL.
    pub fn db_url(&mut self, url: &str) -> (r: &mut PgVectorBuilder)
        ensures
            r.db_url matches Some(u) && u@ == url@,
            *final(self) == *final(r),
    {
        self.db_url = Some(url.to_owned());
        self
    }

    /// Builds the store: the vector size and the database URL are required; the table is
    /// `swiftide_pgv_store`, batches hold 50 nodes, the pool holds at most 10 connections,
    /// connecting is tried 3 times and attempts are 3 seconds apart, unless set otherwise. Without
    /// columns set, the table has none.
    pub fn build(self) -> (r: Result<PgVector, PgVectorError>)
        ensures
            match (self.vector_size, self.db_url) {
                (Some(size), Some(url)) => r matches Ok(p) && {
                    &&& p.spec_vector_size() == size
                    &&& p.spec_db_url() == url@
                    &&& p.spec_table_name() == match self.table_name {
                        Some(t) => t@,
                        None => "swiftide_pgv_store"@,
                    }
                    &&& p.spec_batch_size() == match self.batch_size {
                        Some(b) => b,
                        None => 50,
                    }
                    &&& p.spec_fields() == match self.fields {
                        Some(f) => spec_kinds(f@),
                        None => Seq::<FieldKind>::empty(),
                    }
                    &&& p.spec_db_max_connections() == match self.db_max_connections {
                        Some(c) => c,
                        None => 10,
                    }
                    &&& p.spec_db_max_retry() == match self.db_max_retry {
                        Some(c) => c,
                        None => 3,
                    }
                    &&& self.db_conn_retry_delay matches Some(d) ==> p.spec_db_conn_retry_delay() == d
                },
                _ => r == Err::<PgVector, PgVectorError>(PgVectorError::MissingSetting),
            },
    {
        let vector_size = match self.vector_size {
            Some(v) => v,
            None => return Err(PgVectorError::MissingSetting),
        };
        let db_url = match self.db_url {
            Some(u) => u,
            None => return Err(PgVectorError::MissingSetting),
        };
        let table_name = match self.table_name {
            Some(t) => t,
            None => "swiftide_pgv_store".to_owned(),
        };
        let batch_size = match self.batch_size {
            Some(b) => b,
            None => 50,
        };
        let fields = match self.fields {
            Some(f) => f,
            None => Vec::new(),
        };
        proof {
            assert(spec_kinds(Seq::<FieldConfig>::empty()) =~= Seq::<FieldKind>::empty());
        }
        let db_max_connections = match self.db_max_connections {
            Some(c) => c,
            None => 10,
        };
        let db_max_retry = match self.db_max_retry {
            Some(c) => c,
            None => 3,
        };
        let db_conn_retry_delay = match self.db_conn_retry_delay {
            Some(d) => d,
            None => duration_from_secs(3),
        };
        Ok(PgVector {
            table_name,
            vector_size,
            batch_size,
            fields,
            db_url,
            db_max_connections,
            db_max_retry,
            db_conn_retry_delay,
        })
    }
}

/// Whether a failed connection attempt is followed by another: attempts are numbered from 1 and
/// at most `max_retry` are made.
pub fn should_retry_connection(attempt: u32, max_retry: u32) -> (r: bool)
    ensures
        r == (attempt < max_retry),
{
    attempt < max_retry
}

impl PgVector {
    /// The table name.
    pub closed spec fn spec_table_name(&self) -> Seq<char> {
        self.table_name@
    }

    /// The number of dimensions of the embeddings.
    pub closed spec fn spec_vector_size(&self) -> i32 {
        self.vector_size
    }

    /// How many nodes are stored at a time.
    pub closed spec fn spec_batch_size(&self) -> usize {
        self.batch_size
    }

    /// The columns of the table.
    pub closed spec fn spec_fields(&self) -> Seq<FieldKind> {
        spec_kinds(self.fields@)
    }

    /// The database URL.
    pub closed spec fn spec_db_url(&self) -> Seq<char> {
        self.db_url@
    }

    /// The most connections the pool holds.
    pub closed spec fn spec_db_max_connections(&self) -> u32 {
        self.db_max_connections
    }

    /// How many times connecting is tried.
    pub closed spec fn spec_db_max_retry(&self) -> u32 {
        self.db_max_retry
    }

    /// The pause between connection attempts.
    pub closed spec fn spec_db_conn_retry_delay(&self) -> std::time::Duration {
        self.db_conn_retry_delay
    }

    /// A builder with nothing set.
    pub fn builder() -> (r: PgVectorBuilder)
        ensures
            r.table_name is None,
            r.vector_size is None,
            r.batch_size is None,
            r.fields is None,
            r.db_url is None,
            r.db_max_connections is None,
            r.db_max_retry is None,
            r.db_conn_retry_delay is None,
    {
        PgVectorBuilder {
            table_name: None,
            vector_size: None,
            batch_size: None,
            fields: None,
            db_url: None,
            db_max_connections: None,
            db_max_retry: None,
            db_conn_retry_delay: None,
        }
    }

    /// The table name.
    pub fn get_table_name(&self) -> (r: &str)
        ensures
            r@ == self.spec_table_name(),
    {
        self.table_name.as_str()
    }

    /// The database URL.
    pub fn db_url(&self) -> (r: &str)
        ensures
            r@ == self.spec_db_url(),
    {
        self.db_url.as_str()
    }

    /// The most connections the pool holds.
    pub fn db_max_connections(&self) -> (r: u32)
        ensures
            r == self.spec_db_max_connections(),
    {
        self.db_max_connections
    }

    /// How many times connecting is tried.
    pub fn db_max_retry(&self) -> (r: u32)
        ensures
            r == self.spec_db_max_retry(),
    {
        self.db_max_retry
    }

    /// The pause between connection attempts.
    pub fn db_conn_retry_delay(&self) -> (r: std::time::Duration)
        ensures
            r == self.spec_db_conn_retry_delay(),
    {
        self.db_conn_retry_delay
    }

    /// How many nodes are stored at a time.
    pub fn batch_size(&self) -> (r: usize)
        ensures
            r == self.spec_batch_size(),
    {
        self.batch_size
    }

    /// The statement that creates the table (see [`spec_create_table_sql`]), when the table
    /// name is a valid identifier.
    pub fn generate_create_table_sql(&self) -> (r: Result<String, PgVectorError>)
        ensures
            spec_is_valid_identifier(self.spec_table_name()) ==> (r matches Ok(s) && s@
                == spec_create_table_sql(self.spec_table_name(), self.spec_fields(), self.spec_vector_size())),
            !spec_is_valid_identifier(self.spec_table_name()) ==> r == Err::<String, PgVectorError>(
                PgVectorError::InvalidTableName,
            ),
    {
        if !is_valid_identifier(self.table_name.as_str()) {
            return Err(PgVectorError::InvalidTableName);
        }
        let ghost kinds = self.spec_fields();
        let ghost defs = kinds.map_values(|k: FieldKind| spec_column_definition(k, self.vector_size));
        let mut columns: Vec<Vec<char>> = Vec::new();
        let mut i: usize = 0;
        while i < self.fields.len()
            invariant
                i <= self.fields@.len(),
                kinds == spec_kinds(self.fields@),
                defs == kinds.map_values(|k: FieldKind| spec_column_definition(k, self.vector_size)),
                columns@.map_values(|c: Vec<char>| c@) == defs.subrange(0, i as int),
            decreases self.fields@.len() - i,
        {
            let field = &self.fields[i];
            let mut col = chars_of(field.field_name());
            match field {
                FieldConfig::ID => {
                    col = chars_of("id UUID NOT NULL");
                },
                FieldConfig::Chunk => {
                    append_str(&mut col, " TEXT NOT NULL");
                },
                FieldConfig::Metadata(_) => {
                    append_str(&mut col, " JSONB");
                },
                FieldConfig::Vector(_) => {
                    append_str(&mut col, " VECTOR(");
                    let digits = signed_decimal(self.vector_size);
                    append_chars(&mut col, digits.as_slice());
                    append_str(&mut col, ")");
                },
            }
            let ghost before = columns@.map_values(|c: Vec<char>| c@);
            let ghost cv = col@;
            assert(cv == defs[i as int]);
            columns.push(col);
            proof {
                assert(columns@.map_values(|c: Vec<char>| c@) =~= before.push(cv));
                assert(defs.subrange(0, i + 1) =~= defs.subrange(0, i as int).push(defs[i as int]));
            }
            i = i + 1;
        }
        let ghost before = columns@.map_values(|c: Vec<char>| c@);
        let pk = chars_of("PRIMARY KEY (id)");
        let ghost pkv = pk@;
        columns.push(pk);
        proof {
            assert(defs.subrange(0, self.fields@.len() as int) =~= defs);
            assert(columns@.map_values(|c: Vec<char>| c@) =~= defs.push(pkv));
        }
        let sep = chars_of(",\n  ");
        let joined = join(&columns, sep.as_slice());
        let mut out = chars_of("CREATE TABLE IF NOT EXISTS ");
        append_str(&mut out, self.table_name.as_str());
        append_str(&mut out, " (\n  ");
        append_chars(&mut out, joined.as_slice());
        append_str(&mut out, "\n)");
        Ok(string_from_chars(out.as_slice()))
    }

    /// The statement that creates the HNSW index on the first vector column, named after the
    /// table: it fails without a vector column, or when the table, index or column name is not a
    /// valid identifier.
    pub fn create_index_sql(&self) -> (r: Result<String, PgVectorError>)
        ensures
            match spec_first_vector(self.spec_fields()) {
                None => r == Err::<String, PgVectorError>(PgVectorError::NoVectorField),
                Some(i) => {
                    let index_name = self.spec_table_name() + "_embedding_idx"@;
                    let column = spec_column_name(self.spec_fields()[i]);
                    match r {
                        Ok(s) => s@ == "CREATE INDEX IF NOT EXISTS "@ + index_name + " ON "@
                            + self.spec_table_name() + " USING hnsw ("@ + column
                            + " vector_cosine_ops)"@,
                        Err(e) => e == PgVectorError::InvalidTableOrFieldName,
                    }
                },
            },
    {
        let mut index_chars = chars_of(self.table_name.as_str());
        append_str(&mut index_chars, "_embedding_idx");
        let index_name = string_from_chars(index_chars.as_slice());
        let pos = match first_vector(&self.fields) {
            Some(p) => p,
            None => return Err(PgVectorError::NoVectorField),
        };
        let column = self.fields[pos].field_name();
        if !is_valid_identifier(self.table_name.as_str()) || !is_valid_identifier(index_name.as_str())
            || !is_valid_identifier(column) {
            return Err(PgVectorError::InvalidTableOrFieldName);
        }
        let mut out = chars_of("CREATE INDEX IF NOT EXISTS ");
        append_str(&mut out, index_name.as_str());
        append_str(&mut out, " ON ");
        append_str(&mut out, self.table_name.as_str());
        append_str(&mut out, " USING hnsw (");
        append_str(&mut out, column);
        append_str(&mut out, " vector_cosine_ops)");
        Ok(string_from_chars(out.as_slice()))
    }

    /// The statement that inserts or updates rows from one array per column (see
    /// [`spec_upsert_sql`]); it fails when no column is configured.
    pub fn generate_unnest_upsert_sql(&self) -> (r: Result<String, PgVectorError>)
        ensures
            self.spec_fields().len() == 0 ==> r == Err::<String, PgVectorError>(
                PgVectorError::EmptyFields,
            ),
            self.spec_fields().len() > 0 ==> (r matches Ok(s) && s@ == spec_upsert_sql(
                self.spec_table_name(),
                self.spec_fields(),
            )),
    {
        if self.fields.len() == 0 {
            return Err(PgVectorError::EmptyFields);
        }
        let ghost kinds = self.spec_fields();
        let ghost names = kinds.map_values(|k: FieldKind| spec_column_name(k));
        let ghost params = Seq::new(kinds.len(), |i: int| spec_unnest_param(kinds, i));
        let mut columns: Vec<Vec<char>> = Vec::new();
        let mut unnest: Vec<Vec<char>> = Vec::new();
        let mut updates: Vec<Vec<char>> = Vec::new();
        let mut i: usize = 0;
        while i < self.fields.len()
            invariant
                i <= self.fields@.len(),
                kinds == spec_kinds(self.fields@),
                names == kinds.map_values(|k: FieldKind| spec_column_name(k)),
                params == Seq::new(kinds.len(), |j: int| spec_unnest_param(kinds, j)),
                columns@.map_values(|c: Vec<char>| c@) == names.subrange(0, i as int),
                unnest@.map_values(|c: Vec<char>| c@) == params.subrange(0, i as int),
                updates@.map_values(|c: Vec<char>| c@) == spec_update_clauses(kinds.subrange(0, i as int)),
            decreases self.fields@.len() - i,
        {
            let field = &self.fields[i];
            let name = chars_of(field.field_name());
            let mut param = vec!['$'];
            let number = crate::text::decimal_chars(i + 1);
            append_chars(&mut param, number.as_slice());
            append_str(&mut param, "::");
            match field {
                FieldConfig::ID => append_str(&mut param, "UUID[]"),
                FieldConfig::Chunk => append_str(&mut param, "TEXT[]"),
                FieldConfig::Metadata(_) => append_str(&mut param, "JSONB[]"),
                FieldConfig::Vector(_) => append_str(&mut param, "VECTOR[]"),
            }
            let ghost c_before = columns@.map_values(|c: Vec<char>| c@);
            let ghost p_before = unnest@.map_values(|c: Vec<char>| c@);
            let ghost u_before = updates@.map_values(|c: Vec<char>| c@);
            let ghost nv = name@;
            let ghost pv = param@;
            assert(pv == spec_unnest_param(kinds, i as int));
            let is_id = match field {
                FieldConfig::ID => true,
                _ => false,
            };
            if !is_id {
                let mut clause = chars_of(field.field_name());
                append_str(&mut clause, " = EXCLUDED.");
                append_chars(&mut clause, name.as_slice());
                let ghost uv = clause@;
                updates.push(clause);
                proof {
                    assert(updates@.map_values(|c: Vec<char>| c@) =~= u_before.push(uv));
                }
            }
            columns.push(name);
            unnest.push(param);
            proof {
                assert(columns@.map_values(|c: Vec<char>| c@) =~= c_before.push(nv));
                assert(unnest@.map_values(|c: Vec<char>| c@) =~= p_before.push(pv));
                assert(names.subrange(0, i + 1) =~= names.subrange(0, i as int).push(names[i as int]));
                assert(params.subrange(0, i + 1) =~= params.subrange(0, i as int).push(params[i as int]));
                assert(kinds.subrange(0, i + 1).drop_last() =~= kinds.subrange(0, i as int));
                assert(kinds.subrange(0, i + 1).last() == kinds[i as int]);
            }
            i = i + 1;
        }
        proof {
            assert(names.subrange(0, kinds.len() as int) =~= names);
            assert(params.subrange(0, kinds.len() as int) =~= params);
            assert(kinds.subrange(0, kinds.len() as int) =~= kinds);
        }
        let comma = chars_of(", ");
        let cols = join(&columns, comma.as_slice());
        let params_joined = join(&unnest, comma.as_slice());
        let updates_joined = join(&updates, comma.as_slice());
        let mut out = chars_of("\n            INSERT INTO ");
        append_str(&mut out, self.table_name.as_str());
        append_str(&mut out, " (");
        append_chars(&mut out, cols.as_slice());
        append_str(&mut out, ")\n            SELECT ");
        append_chars(&mut out, cols.as_slice());
        append_str(&mut out, "\n            FROM UNNEST(");
        append_chars(&mut out, params_joined.as_slice());
        append_str(&mut out, ") AS t(");
        append_chars(&mut out, cols.as_slice());
        append_str(&mut out, ")\n            ON CONFLICT (id) DO UPDATE SET ");
        append_chars(&mut out, updates_joined.as_slice());
        Ok(string_from_chars(out.as_slice()))
    }

    /// The name of the vector column, when exactly one is configured.
    pub fn get_vector_column_name(&self) -> (r: Result<String, PgVectorError>)
        ensures
            spec_vector_count(self.spec_fields()) == 0 ==> r == Err::<String, PgVectorError>(
                PgVectorError::NoVectorField,
            ),
            spec_vector_count(self.spec_fields()) > 1 ==> r == Err::<String, PgVectorError>(
                PgVectorError::MultipleVectorFields,
            ),
            spec_vector_count(self.spec_fields()) == 1 ==> (r matches Ok(s) && s@ == spec_column_name(
                self.spec_fields()[spec_first_vector(self.spec_fields())->0],
            )),
    {
        let count = vector_count(&self.fields);
        if count == 0 {
            return Err(PgVectorError::NoVectorField);
        }
        if count > 1 {
            return Err(PgVectorError::MultipleVectorFields);
        }
        proof {
            lemma_count_positive_has_first(self.spec_fields());
        }
        let pos = match first_vector(&self.fields) {
            Some(p) => p,
            None => return Err(PgVectorError::NoVectorField),
        };
        Ok(self.fields[pos].field_name().to_owned())
    }
}

proof fn lemma_count_positive_has_first(kinds: Seq<FieldKind>)
    requires
        spec_vector_count(kinds) > 0,
    ensures
        spec_first_vector(kinds) is Some,
    decreases kinds.len(),
{
    if kinds.len() > 0 && !(kinds[0] is Vector) {
        lemma_count_positive_has_first(kinds.drop_first());
    }
}

/// The position of the first vector column (see [`spec_first_vector`]).
fn first_vector(fields: &Vec<FieldConfig>) -> (r: Option<usize>)
    ensures
        match r {
            Some(i) => spec_first_vector(spec_kinds(fields@)) == Some(i as int) && i < fields@.len(),
            None => spec_first_vector(spec_kinds(fields@)) is None,
        },
{
    let ghost kinds = spec_kinds(fields@);
    let mut i: usize = 0;
    while i < fields.len()
        invariant
            i <= fields@.len(),
            kinds == spec_kinds(fields@),
            forall|j: int| 0 <= j < i ==> !(#[trigger] kinds[j] is Vector),
        decreases fields@.len() - i,
    {
        if let FieldConfig::Vector(_) = &fields[i] {
            proof {
                lemma_first_vector_at(kinds, i as int);
            }
            return Some(i);
        }
        i = i + 1;
    }
    proof {
        lemma_first_vector_none(kinds);
    }
    None
}

proof fn lemma_first_vector_at(kinds: Seq<FieldKind>, i: int)
    requires
        0 <= i < kinds.len(),
        kinds[i] is Vector,
        forall|j: int| 0 <= j < i ==> !(#[trigger] kinds[j] is Vector),
    ensures
        spec_first_vector(kinds) == Some(i),
    decreases i,
{
    if i > 0 {
        let d = kinds.drop_first();
        assert(!(kinds[0] is Vector));
        assert(d[i - 1] == kinds[i]);
        assert forall|j: int| 0 <= j < i - 1 implies !(#[trigger] d[j] is Vector) by {
            assert(d[j] == kinds[j + 1]);
        }
        lemma_first_vector_at(d, i - 1);
    }
}

proof fn lemma_first_vector_none(kinds: Seq<FieldKind>)
    requires
        forall|j: int| 0 <= j < kinds.len() ==> !(#[trigger] kinds[j] is Vector),
    ensures
        spec_first_vector(kinds) is None,
        spec_vector_count(kinds) == 0,
    decreases kinds.len(),
{
    if kinds.len() > 0 {
        let d = kinds.drop_first();
        assert(!(kinds[0] is Vector));
        assert forall|j: int| 0 <= j < d.len() implies !(#[trigger] d[j] is Vector) by {
            assert(d[j] == kinds[j + 1]);
        }
        lemma_first_vector_none(d);
    }
}

/// The number of vector columns (see [`spec_vector_count`]), capped at 2.
fn vector_count(fields: &Vec<FieldConfig>) -> (r: usize)
    ensures
        r == if spec_vector_count(spec_kinds(fields@)) > 2 { 2 } else { spec_vector_count(spec_kinds(fields@)) },
{
    let ghost kinds = spec_kinds(fields@);
    let mut count: usize = 0;
    let mut i = fields.len();
    while i > 0
        invariant
            i <= fields@.len(),
            kinds == spec_kinds(fields@),
            count == if spec_vector_count(kinds.subrange(i as int, kinds.len() as int)) > 2 { 2 } else {
                spec_vector_count(kinds.subrange(i as int, kinds.len() as int))
            },
        decreases i,
    {
        let ghost tail = kinds.subrange(i as int, kinds.len() as int);
        let ghost longer = kinds.subrange(i - 1, kinds.len() as int);
        proof {
            assert(longer.drop_first() =~= tail);
            assert(longer[0] == kinds[i - 1]);
        }
        if let FieldConfig::Vector(_) = &fields[i - 1] {
            if count < 2 {
                count = count + 1;
            }
        }
        i = i - 1;
    }
    proof {
        assert(kinds.subrange(0, kinds.len() as int) =~= kinds);
    }
    count
}

// ---------------------------------------------------------------------------------------------
// Similarity search
// ---------------------------------------------------------------------------------------------

/// The number of `=` in `s`.
pub open spec fn spec_count_eq(s: Seq<char>) -> nat
    decreases s.len(),
{
    if s.len() == 0 {
        0
    } else {
        spec_count_eq(s.drop_last()) + if s.last() == '=' { 1nat } else { 0nat }
    }
}

/// `s` without its leading and trailing `"` characters.
pub open spec fn spec_trim_quotes(s: Seq<char>) -> Seq<char>
    decreases s.len(),
{
    if s.len() > 0 && s[0] == '"' {
        spec_trim_quotes(s.drop_first())
    } else if s.len() > 0 && s.last() == '"' {
        spec_trim_quotes(s.drop_last())
    } else {
        s
    }
}

/// The condition a filter `key = value` adds to a search: the metadata column of the key must
/// hold the value under the key. The key is trimmed, the value trimmed and stripped of quotes.
pub open spec fn spec_filter_clause(key_part: Seq<char>, value_part: Seq<char>) -> Seq<char> {
    let key = spec_trim(key_part);
    let value = spec_trim_quotes(spec_trim(value_part));
    " WHERE meta_"@ + spec_normalize_field_name(key) + "->>'"@ + key + "' = '"@ + value + "'"@
}

/// The query of a similarity search: the id and chunk of the rows, optionally filtered on one
/// metadata field, nearest to the query embedding (`$1`) first, at most `$2` of them.
pub open spec fn spec_retrieve_sql(table: Seq<char>, vector_column: Seq<char>, filter: Option<(Seq<char>, Seq<char>)>) -> Seq<char> {
    "SELECT id, chunk FROM "@ + table + match filter {
        Some((k, v)) => spec_filter_clause(k, v),
        None => Seq::empty(),
    } + " ORDER BY "@ + vector_column + " <=> $1 LIMIT $2"@
}

fn trim_quotes(s: &Vec<char>) -> (r: Vec<char>)
    ensures
        r@ == spec_trim_quotes(s@),
{
    let mut lo: usize = 0;
    let mut hi: usize = s.len();
    assert(s@.subrange(0, s@.len() as int) =~= s@);
    while lo < hi && s[lo] == '"'
        invariant
            lo <= hi <= s@.len(),
            hi == s@.len(),
            spec_trim_quotes(s@) == spec_trim_quotes(s@.subrange(lo as int, hi as int)),
        decreases hi - lo,
    {
        proof {
            assert(s@.subrange(lo as int, hi as int).drop_first() =~= s@.subrange(lo + 1, hi as int));
        }
        lo = lo + 1;
    }
    while lo < hi && s[hi - 1] == '"'
        invariant
            lo <= hi <= s@.len(),
            lo < hi ==> s@[lo as int] != '"',
            spec_trim_quotes(s@) == spec_trim_quotes(s@.subrange(lo as int, hi as int)),
        decreases hi - lo,
    {
        proof {
            let cur = s@.subrange(lo as int, hi as int);
            assert(cur[0] == s@[lo as int]);
            assert(cur.drop_last() =~= s@.subrange(lo as int, hi - 1));
        }
        hi = hi - 1;
    }
    let mut out: Vec<char> = Vec::new();
    let mut i = lo;
    while i < hi
        invariant
            lo <= i <= hi <= s@.len(),
            out@ == s@.subrange(lo as int, i as int),
        decreases hi - i,
    {
        out.push(s[i]);
        proof {
            assert(s@.subrange(lo as int, i + 1) =~= s@.subrange(lo as int, i as int).push(s@[i as int]));
        }
        i = i + 1;
    }
    proof {
        let cur = s@.subrange(lo as int, hi as int);
        if cur.len() > 0 {
            assert(cur[0] == s@[lo as int]);
            assert(cur.last() == s@[hi - 1]);
        }
    }
    out
}

/// The two sides of a filter `key = value`, when it has exactly one `=`.
pub open spec fn spec_filter_sides(filter: Seq<char>) -> Option<(Seq<char>, Seq<char>)> {
    if spec_count_eq(filter) == 1 {
        let i = choose|i: int| 0 <= i < filter.len() && filter[i] == '=';
        Some((filter.subrange(0, i), filter.subrange(i + 1, filter.len() as int)))
    } else {
        None
    }
}

proof fn lemma_count_eq_split(s: Seq<char>, k: int)
    requires
        0 <= k <= s.len(),
    ensures
        spec_count_eq(s) == spec_count_eq(s.subrange(0, k)) + spec_count_eq(s.subrange(k, s.len() as int)),
    decreases s.len() - k,
{
    if k < s.len() {
        let rest = s.subrange(k, s.len() as int);
        lemma_count_eq_split(s, k + 1);
        lemma_count_eq_front(rest);
        assert(rest.drop_first() =~= s.subrange(k + 1, s.len() as int));
        assert(s.subrange(0, k + 1).drop_last() =~= s.subrange(0, k));
    } else {
        assert(s.subrange(0, k) =~= s);
        assert(s.subrange(k, s.len() as int) =~= Seq::<char>::empty());
    }
}

proof fn lemma_count_eq_front(s: Seq<char>)
    requires
        s.len() > 0,
    ensures
        spec_count_eq(s) == spec_count_eq(s.drop_first()) + if s[0] == '=' { 1nat } else { 0nat },
    decreases s.len(),
{
    if s.len() > 1 {
        lemma_count_eq_front(s.drop_last());
        assert(s.drop_last().drop_first() =~= s.drop_first().drop_last());
    } else {
        assert(s.drop_first() =~= Seq::<char>::empty());
        assert(s.drop_last() =~= Seq::<char>::empty());
    }
}

proof fn lemma_count_eq_zero(s: Seq<char>)
    requires
        forall|j: int| 0 <= j < s.len() ==> s[j] != '=',
    ensures
        spec_count_eq(s) == 0,
    decreases s.len(),
{
    if s.len() > 0 {
        assert forall|j: int| 0 <= j < s.drop_last().len() implies s.drop_last()[j] != '=' by {
            assert(s.drop_last()[j] == s[j]);
        }
        lemma_count_eq_zero(s.drop_last());
    }
}

/// The two sides of a filter (see [`spec_filter_sides`]).
fn filter_sides(filter: &Vec<char>) -> (r: Option<(Vec<char>, Vec<char>)>)
    ensures
        match r {
            Some((k, v)) => spec_filter_sides(filter@) == Some((k@, v@)),
            None => spec_filter_sides(filter@) is None,
        },
{
    let mut count: usize = 0;
    let mut pos: usize = 0;
    let mut i: usize = 0;
    while i < filter.len()
        invariant
            i <= filter@.len(),
            count == spec_count_eq(filter@.subrange(0, i as int)),
            count <= i,
            count >= 1 ==> pos < i && filter@[pos as int] == '=' && spec_count_eq(filter@.subrange(0, pos as int)) == 0,
        decreases filter@.len() - i,
    {
        proof {
            assert(filter@.subrange(0, i + 1).drop_last() =~= filter@.subrange(0, i as int));
        }
        if filter[i] == '=' {
            if count == 0 {
                pos = i;
            }
            count = count + 1;
        }
        i = i + 1;
    }
    proof {
        assert(filter@.subrange(0, filter@.len() as int) =~= filter@);
    }
    if count != 1 {
        return None;
    }
    proof {
        let f = filter@;
        lemma_count_eq_split(f, pos as int);
        lemma_count_eq_split(f, pos + 1);
        assert(f.subrange(0, pos + 1).drop_last() =~= f.subrange(0, pos as int));
        let i = choose|i: int| 0 <= i < f.len() && f[i] == '=';
        if i != pos {
            if i < pos {
                lemma_count_eq_split(f.subrange(0, pos as int), i);
                lemma_count_eq_split(f.subrange(0, pos as int).subrange(0, i), i);
                let left = f.subrange(0, pos as int);
                lemma_count_eq_front(left.subrange(i, pos as int));
                assert(left.subrange(i, pos as int)[0] == f[i]);
            } else {
                let right = f.subrange(pos + 1, f.len() as int);
                lemma_count_eq_split(right, i - pos - 1);
                lemma_count_eq_front(right.subrange(i - pos - 1, right.len() as int));
                assert(right.subrange(i - pos - 1, right.len() as int)[0] == f[i]);
            }
        }
    }
    let mut key: Vec<char> = Vec::new();
    let mut value: Vec<char> = Vec::new();
    let mut j: usize = 0;
    while j < filter.len()
        invariant
            pos < filter@.len(),
            j <= filter@.len(),
            j <= pos ==> key@ == filter@.subrange(0, j as int) && value@.len() == 0,
            j > pos ==> key@ == filter@.subrange(0, pos as int) && value@ == filter@.subrange(pos + 1, j as int),
        decreases filter@.len() - j,
    {
        if j < pos {
            key.push(filter[j]);
            proof {
                assert(filter@.subrange(0, j + 1) =~= filter@.subrange(0, j as int).push(filter@[j as int]));
            }
        } else if j > pos {
            value.push(filter[j]);
            proof {
                assert(filter@.subrange(pos + 1, j + 1) =~= filter@.subrange(pos + 1, j as int).push(filter@[j as int]));
            }
        } else {
            proof {
                assert(filter@.subrange(pos + 1, pos + 1) =~= Seq::<char>::empty());
            }
        }
        j = j + 1;
    }
    Some((key, value))
}

impl PgVector {
    /// The query of a similarity search (see [`spec_retrieve_sql`]): it fails unless exactly one
    /// vector column is configured, and when a filter is not of the form `key = value`.
    pub fn retrieve_sql(&self, filter: Option<&str>) -> (r: Result<String, PgVectorError>)
        ensures
            spec_vector_count(self.spec_fields()) == 0 ==> r == Err::<String, PgVectorError>(
                PgVectorError::NoVectorField,
            ),
            spec_vector_count(self.spec_fields()) > 1 ==> r == Err::<String, PgVectorError>(
                PgVectorError::MultipleVectorFields,
            ),
            spec_vector_count(self.spec_fields()) == 1 ==> match filter {
                Some(f) => match spec_filter_sides(f@) {
                    None => r == Err::<String, PgVectorError>(PgVectorError::InvalidFilter),
                    Some(sides) => r matches Ok(s) && s@ == spec_retrieve_sql(
                        self.spec_table_name(),
                        spec_column_name(self.spec_fields()[spec_first_vector(self.spec_fields())->0]),
                        Some(sides),
                    ),
                },
                None => r matches Ok(s) && s@ == spec_retrieve_sql(
                    self.spec_table_name(),
                    spec_column_name(self.spec_fields()[spec_first_vector(self.spec_fields())->0]),
                    None,
                ),
            },
    {
        let vector_column = match self.get_vector_column_name() {
            Ok(c) => c,
            Err(e) => return Err(e),
        };
        let mut out = chars_of("SELECT id, chunk FROM ");
        append_str(&mut out, self.table_name.as_str());
        match filter {
            Some(f) => {
                let fc = chars_of(f);
                let (key_part, value_part) = match filter_sides(&fc) {
                    Some(sides) => sides,
                    None => return Err(PgVectorError::InvalidFilter),
                };
                let key = trim(key_part.as_slice());
                let value = trim_quotes(&trim(value_part.as_slice()));
                let key_string = string_from_chars(key.as_slice());
                let normalized = normalize_field_name(key_string.as_str());
                append_str(&mut out, " WHERE meta_");
                append_str(&mut out, normalized.as_str());
                append_str(&mut out, "->>'");
                append_chars(&mut out, key.as_slice());
                append_str(&mut out, "' = '");
                append_chars(&mut out, value.as_slice());
                append_str(&mut out, "'");
            },
            None => {},
        }
        append_str(&mut out, " ORDER BY ");
        append_str(&mut out, vector_column.as_str());
        append_str(&mut out, " <=> $1 LIMIT $2");
        Ok(string_from_chars(out.as_slice()))
    }
}

/// The number of results to ask for, when it fits the query parameter's type.
pub fn top_k_param(top_k: usize) -> (r: Option<i32>)
    ensures
        match r {
            Some(k) => k == top_k,
            None => top_k > i32::MAX,
        },
{
    if top_k <= 2147483647usize {
        Some(top_k as i32)
    } else {
        None
    }
}

} // verus!
