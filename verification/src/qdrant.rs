//! The collection settings of a Qdrant vector store, and the named vectors of the points it
//! stores.
use vstd::prelude::*;

verus! {

/// Which part of a node an embedding was made from.
#[derive(Debug)]
pub enum EmbeddedField {
    /// The chunk and its metadata together.
    Combined,
    Chunk,
    /// One metadata field, by key.
    Metadata(String),
}

/// An embedded field as a plain value.
pub enum EmbeddedFieldView {
    Combined,
    Chunk,
    Metadata(Seq<char>),
}

impl View for EmbeddedField {
    type V = EmbeddedFieldView;

    open spec fn view(&self) -> EmbeddedFieldView {
        match self {
            EmbeddedField::Combined => EmbeddedFieldView::Combined,
            EmbeddedField::Chunk => EmbeddedFieldView::Chunk,
            EmbeddedField::Metadata(k) => EmbeddedFieldView::Metadata(k@),
        }
    }
}

/// The name of an embedded field: `Combined`, `Chunk`, or `Metadata: ` and the key.
pub open spec fn spec_field_name(f: EmbeddedFieldView) -> Seq<char> {
    match f {
        EmbeddedFieldView::Combined => "Combined"@,
        EmbeddedFieldView::Chunk => "Chunk"@,
        EmbeddedFieldView::Metadata(k) => "Metadata: "@ + k,
    }
}

impl Default for EmbeddedField {
    /// The combined field.
    fn default() -> (r: EmbeddedField)
        ensures
            r@ == EmbeddedFieldView::Combined,
    {
        EmbeddedField::Combined
    }
}

impl EmbeddedField {
    /// A copy of the field.
    pub fn copy(&self) -> (r: EmbeddedField)
        ensures
            r@ == self@,
    {
        match self {
            EmbeddedField::Combined => EmbeddedField::Combined,
            EmbeddedField::Chunk => EmbeddedField::Chunk,
            EmbeddedField::Metadata(k) => EmbeddedField::Metadata(k.clone()),
        }
    }

    /// Whether two fields are the same.
    pub fn same_as(&self, other: &EmbeddedField) -> (r: bool)
        ensures
            r == (self@ == other@),
    {
        match (self, other) {
            (EmbeddedField::Combined, EmbeddedField::Combined) => true,
            (EmbeddedField::Chunk, EmbeddedField::Chunk) => true,
            (EmbeddedField::Metadata(a), EmbeddedField::Metadata(b)) => *a == *b,
            _ => false,
        }
    }

    /// The name of the field (see [`spec_field_name`]).
    pub fn to_display_string(&self) -> (r: String)
        ensures
            r@ == spec_field_name(self@),
    {
        match self {
            EmbeddedField::Combined => "Combined".to_owned(),
            EmbeddedField::Chunk => "Chunk".to_owned(),
            EmbeddedField::Metadata(k) => {
                let prefix = "Metadata: ".to_owned();
                let mut v = crate::text::chars_of(prefix.as_str());
                let kc = crate::text::chars_of(k.as_str());
                crate::text::append_chars(&mut v, kc.as_slice());
                crate::text::string_from_chars(v.as_slice())
            },
        }
    }
}

/// How the distance between vectors is measured.
#[derive(Debug, PartialEq, Eq, Structural, Clone, Copy)]
pub enum Distance {
    UnknownDistance,
    Cosine,
    Euclid,
    Dot,
    Manhattan,
}

/// The settings of one dense vector of a collection: its embedded field, and a size and a distance
/// that replace the collection's when set.
#[derive(Debug)]
pub struct VectorConfig {
    pub embedded_field: EmbeddedField,
    pub vector_size: Option<u64>,
    pub distance: Option<Distance>,
}

impl View for VectorConfig {
    type V = (EmbeddedFieldView, Option<u64>, Option<Distance>);

    open spec fn view(&self) -> Self::V {
        (self.embedded_field@, self.vector_size, self.distance)
    }
}

/// Builder for [`VectorConfig`].
pub struct VectorConfigBuilder {
    pub embedded_field: Option<EmbeddedField>,
    pub vector_size: Option<u64>,
    pub distance: Option<Distance>,
}

impl VectorConfig {
    /// A builder with nothing set.
    pub fn builder() -> (r: VectorConfigBuilder)
        ensures
            r.embedded_field is None,
            r.vector_size is None,
            r.distance is None,
    {
        VectorConfigBuilder { embedded_field: None, vector_size: None, distance: None }
    }

    /// The settings of a vector of `field`, with the collection's size and distance.
    pub fn from_field(field: EmbeddedField) -> (r: VectorConfig)
        ensures
            r@ == (field@, None::<u64>, None::<Distance>),
    {
        VectorConfig { embedded_field: field, vector_size: None, distance: None }
    }
}

impl VectorConfigBuilder {
    /// Sets the embedded field.
    pub fn embedded_field(self, field: EmbeddedField) -> (r: VectorConfigBuilder)
        ensures
            r.embedded_field == Some(field),
            r.vector_size == self.vector_size,
            r.distance == self.distance,
    {
        VectorConfigBuilder { embedded_field: Some(field), vector_size: self.vector_size, distance: self.distance }
    }

    /// Sets the size of the vector.
    pub fn vector_size(self, size: u64) -> (r: VectorConfigBuilder)
        ensures
            r.embedded_field == self.embedded_field,
            r.vector_size == Some(size),
            r.distance == self.distance,
    {
        VectorConfigBuilder { embedded_field: self.embedded_field, vector_size: Some(size), distance: self.distance }
    }

    /// Sets the distance of the vector.
    pub fn distance(self, distance: Distance) -> (r: VectorConfigBuilder)
        ensures
            r.embedded_field == self.embedded_field,
            r.vector_size == self.vector_size,
            r.distance == Some(distance),
    {
        VectorConfigBuilder { embedded_field: self.embedded_field, vector_size: self.vector_size, distance: Some(distance) }
    }

    /// The settings; the field is the combined one unless set.
    pub fn build(self) -> (r: VectorConfig)
        ensures
            r.vector_size == self.vector_size,
            r.distance == self.distance,
            r.embedded_field@ == match self.embedded_field {
                Some(f) => f@,
                None => EmbeddedFieldView::Combined,
            },
    {
        let embedded_field = match self.embedded_field {
            Some(f) => f,
            None => EmbeddedField::Combined,
        };
        VectorConfig { embedded_field, vector_size: self.vector_size, distance: self.distance }
    }
}

/// The settings of one sparse vector of a collection: its embedded field.
#[derive(Debug)]
pub struct SparseVectorConfig {
    pub embedded_field: EmbeddedField,
}

impl SparseVectorConfig {
    /// The settings of a sparse vector of `field`.
    pub fn from_field(field: EmbeddedField) -> (r: SparseVectorConfig)
        ensures
            r.embedded_field@ == field@,
    {
        SparseVectorConfig { embedded_field: field }
    }
}

/// The dense vectors of settings by embedded field; a later setting of a field wins.
pub open spec fn spec_vectors_map(v: Seq<VectorConfig>) -> Map<EmbeddedFieldView, (EmbeddedFieldView, Option<u64>, Option<Distance>)>
    decreases v.len(),
{
    if v.len() == 0 {
        Map::empty()
    } else {
        spec_vectors_map(v.drop_last()).insert(v.last().embedded_field@, v.last()@)
    }
}

/// The embedded fields of sparse vector settings.
pub open spec fn spec_sparse_fields(v: Seq<SparseVectorConfig>) -> Set<EmbeddedFieldView> {
    Set::new(|f: EmbeddedFieldView| exists|i: int| 0 <= i < v.len() && #[trigger] v[i].embedded_field@ == f)
}

/// No two settings are for the same field.
pub open spec fn spec_distinct_vectors(v: Seq<VectorConfig>) -> bool {
    forall|i: int, j: int|
        0 <= i < j < v.len() ==> #[trigger] v[i].embedded_field@ != #[trigger] v[j].embedded_field@
}

/// No two sparse settings are for the same field.
pub open spec fn spec_distinct_sparse(v: Seq<SparseVectorConfig>) -> bool {
    forall|i: int, j: int|
        0 <= i < j < v.len() ==> #[trigger] v[i].embedded_field@ != #[trigger] v[j].embedded_field@
}

/// Replacing the setting of a field by another for the same field, in settings with distinct
/// fields, is inserting the new one into the map.
proof fn lemma_vectors_map_update(v: Seq<VectorConfig>, i: int, c: VectorConfig)
    requires
        spec_distinct_vectors(v),
        0 <= i < v.len(),
        v[i].embedded_field@ == c.embedded_field@,
    ensures
        spec_vectors_map(v.update(i, c)) == spec_vectors_map(v).insert(c.embedded_field@, c@),
    decreases v.len(),
{
    let k = c.embedded_field@;
    let last = v.len() - 1;
    if i == last {
        assert(v.update(i, c).drop_last() =~= v.drop_last());
        assert(spec_vectors_map(v.update(i, c)) =~= spec_vectors_map(v).insert(k, c@));
    } else {
        assert(v.update(i, c).drop_last() =~= v.drop_last().update(i, c));
        assert(spec_distinct_vectors(v.drop_last()));
        lemma_vectors_map_update(v.drop_last(), i, c);
        assert(v[i].embedded_field@ != v[last].embedded_field@);
        assert(spec_vectors_map(v.update(i, c)) =~= spec_vectors_map(v).insert(k, c@));
    }
}

/// A field no setting is for is not in the map.
proof fn lemma_vectors_map_absent(v: Seq<VectorConfig>, k: EmbeddedFieldView)
    requires
        forall|i: int| 0 <= i < v.len() ==> #[trigger] v[i].embedded_field@ != k,
    ensures
        !spec_vectors_map(v).contains_key(k),
    decreases v.len(),
{
    if v.len() > 0 {
        lemma_vectors_map_absent(v.drop_last(), k);
    }
}

fn position_of_vector(v: &Vec<VectorConfig>, f: &EmbeddedField) -> (r: Option<usize>)
    ensures
        match r {
            Some(i) => i < v@.len() && v@[i as int].embedded_field@ == f@,
            None => forall|j: int| 0 <= j < v@.len() ==> #[trigger] v@[j].embedded_field@ != f@,
        },
{
    let mut i: usize = 0;
    while i < v.len()
        invariant
            i <= v@.len(),
            forall|j: int| 0 <= j < i ==> #[trigger] v@[j].embedded_field@ != f@,
        decreases v@.len() - i,
    {
        if v[i].embedded_field.same_as(f) {
            return Some(i);
        }
        i = i + 1;
    }
    None
}

fn position_of_sparse(v: &Vec<SparseVectorConfig>, f: &EmbeddedField) -> (r: Option<usize>)
    ensures
        match r {
            Some(i) => i < v@.len() && v@[i as int].embedded_field@ == f@,
            None => forall|j: int| 0 <= j < v@.len() ==> #[trigger] v@[j].embedded_field@ != f@,
        },
{
    let mut i: usize = 0;
    while i < v.len()
        invariant
            i <= v@.len(),
            forall|j: int| 0 <= j < i ==> #[trigger] v@[j].embedded_field@ != f@,
        decreases v@.len() - i,
    {
        if v[i].embedded_field.same_as(f) {
            return Some(i);
        }
        i = i + 1;
    }
    None
}

/// The size and distance of a vector.
#[derive(Debug, PartialEq, Eq, Structural, Clone, Copy)]
pub struct VectorParams {
    pub size: u64,
    pub distance: Distance,
}

/// The dense vectors of a collection: one unnamed vector, or named vectors.
#[derive(Debug)]
pub enum VectorsConfig {
    Params(VectorParams),
    ParamsMap(Vec<(String, VectorParams)>),
}

/// Why a Qdrant setting could not be made.
#[derive(Debug, PartialEq, Eq, Structural, Clone, Copy)]
pub enum QdrantError {
    /// The builder was finished without a vector size.
    MissingVectorSize,
    /// The collection has no dense vectors.
    NoConfiguredVectors,
    /// A node has no vectors.
    EmptyVectors,
}

/// A Qdrant store's collection settings.
#[derive(Debug)]
pub struct Qdrant {
    collection_name: String,
    vector_size: u64,
    vector_distance: Distance,
    batch_size: Option<usize>,
    vectors: Vec<VectorConfig>,
    sparse_vectors: Vec<SparseVectorConfig>,
}

/// Builder for [`Qdrant`].
#[derive(Debug)]
pub struct QdrantBuilder {
    collection_name: Option<String>,
    vector_size: Option<u64>,
    vector_distance: Option<Distance>,
    batch_size: Option<usize>,
    vectors: Option<Vec<VectorConfig>>,
    sparse_vectors: Option<Vec<SparseVectorConfig>>,
}

impl QdrantBuilder {
    /// The vectors and sparse vectors set so far hold each field at most once.
    #[verifier::type_invariant]
    spec fn distinct_fields(self) -> bool {
        &&& self.vectors matches Some(v) ==> spec_distinct_vectors(v@)
        &&& self.sparse_vectors matches Some(v) ==> spec_distinct_sparse(v@)
    }

    /// The collection name set, if any.
    pub closed spec fn spec_collection_name(&self) -> Option<Seq<char>> {
        match self.collection_name {
            Some(n) => Some(n@),
            None => None,
        }
    }

    /// The vector size set, if any.
    pub closed spec fn spec_vector_size(&self) -> Option<u64> {
        self.vector_size
    }

    /// The distance set, if any.
    pub closed spec fn spec_vector_distance(&self) -> Option<Distance> {
        self.vector_distance
    }

    /// The batch size set, if any.
    pub closed spec fn spec_batch_size(&self) -> Option<usize> {
        self.batch_size
    }

    /// The dense vector settings by field, if any were set.
    pub closed spec fn spec_vectors(&self) -> Option<Map<EmbeddedFieldView, (EmbeddedFieldView, Option<u64>, Option<Distance>)>> {
        match self.vectors {
            Some(v) => Some(spec_vectors_map(v@)),
            None => None,
        }
    }

    /// The sparse vector fields, if any were set.
    pub closed spec fn spec_sparse_vectors(&self) -> Option<Set<EmbeddedFieldView>> {
        match self.sparse_vectors {
            Some(v) => Some(spec_sparse_fields(v@)),
            None => None,
        }
    }

    /// Sets the name of the collection.
    pub fn collection_name(self, name: &str) -> (r: QdrantBuilder)
        ensures
            r.spec_collection_name() == Some(name@),
            r.spec_vector_size() == self.spec_vector_size(),
            r.spec_vector_distance() == self.spec_vector_distance(),
            r.spec_batch_size() == self.spec_batch_size(),
            r.spec_vectors() == self.spec_vectors(),
            r.spec_sparse_vectors() == self.spec_sparse_vectors(),
    {
        proof {
            use_type_invariant(&self);
        }
        QdrantBuilder { collection_name: Some(name.to_owned()), ..self }
    }

    /// Sets the size of the vectors.
    pub fn vector_size(self, size: u64) -> (r: QdrantBuilder)
        ensures
            r.spec_collection_name() == self.spec_collection_name(),
            r.spec_vector_size() == Some(size),
            r.spec_vector_distance() == self.spec_vector_distance(),
            r.spec_batch_size() == self.spec_batch_size(),
            r.spec_vectors() == self.spec_vectors(),
            r.spec_sparse_vectors() == self.spec_sparse_vectors(),
    {
        proof {
            use_type_invariant(&self);
        }
        QdrantBuilder { vector_size: Some(size), ..self }
    }

    /// Sets how the distance between vectors is measured.
    pub fn vector_distance(self, distance: Distance) -> (r: QdrantBuilder)
        ensures
            r.spec_collection_name() == self.spec_collection_name(),
            r.spec_vector_size() == self.spec_vector_size(),
            r.spec_vector_distance() == Some(distance),
            r.spec_batch_size() == self.spec_batch_size(),
            r.spec_vectors() == self.spec_vectors(),
            r.spec_sparse_vectors() == self.spec_sparse_vectors(),
    {
        proof {
            use_type_invariant(&self);
        }
        QdrantBuilder { vector_distance: Some(distance), ..self }
    }

    /// Sets how many nodes are stored at a time.
    pub fn batch_size(self, size: usize) -> (r: QdrantBuilder)
        ensures
            r.spec_collection_name() == self.spec_collection_name(),
            r.spec_vector_size() == self.spec_vector_size(),
            r.spec_vector_distance() == self.spec_vector_distance(),
            r.spec_batch_size() == Some(size),
            r.spec_vectors() == self.spec_vectors(),
            r.spec_sparse_vectors() == self.spec_sparse_vectors(),
    {
        proof {
            use_type_invariant(&self);
        }
        QdrantBuilder { batch_size: Some(size), ..self }
    }

    /// Adds the settings of a dense vector, replacing those of the same field if any. The first
    /// vector added starts from no vectors.
    pub fn with_vector(self, vector: VectorConfig) -> (r: QdrantBuilder)
        ensures
            r.spec_vectors() == Some(
                match self.spec_vectors() {
                    Some(m) => m,
                    None => Map::empty(),
                }.insert(vector.embedded_field@, vector@),
            ),
            r.spec_collection_name() == self.spec_collection_name(),
            r.spec_vector_size() == self.spec_vector_size(),
            r.spec_vector_distance() == self.spec_vector_distance(),
            r.spec_batch_size() == self.spec_batch_size(),
            r.spec_sparse_vectors() == self.spec_sparse_vectors(),
    {
        proof {
            use_type_invariant(&self);
        }
        let QdrantBuilder { collection_name, vector_size, vector_distance, batch_size, vectors, sparse_vectors } = self;
        let mut v = match vectors {
            Some(v) => v,
            None => Vec::new(),
        };
        let ghost old_v = v@;
        match position_of_vector(&v, &vector.embedded_field) {
            Some(i) => {
                v.set(i, vector);
                proof {
                    lemma_vectors_map_update(old_v, i as int, v@[i as int]);
                    assert(v@ =~= old_v.update(i as int, v@[i as int]));
                    assert forall|a: int, b: int| 0 <= a < b < v@.len() implies #[trigger] v@[a].embedded_field@
                        != #[trigger] v@[b].embedded_field@ by {
                        if a != i && b != i {
                            assert(old_v[a].embedded_field@ != old_v[b].embedded_field@);
                        } else if a == i {
                            assert(old_v[i as int].embedded_field@ != old_v[b].embedded_field@);
                        } else {
                            assert(old_v[a].embedded_field@ != old_v[i as int].embedded_field@);
                        }
                    }
                }
            },
            None => {
                proof {
                    lemma_vectors_map_absent(old_v, vector.embedded_field@);
                }
                v.push(vector);
                proof {
                    assert(v@.drop_last() =~= old_v);
                }
            },
        }
        QdrantBuilder { collection_name, vector_size, vector_distance, batch_size, vectors: Some(v), sparse_vectors }
    }

    /// Adds the settings of a sparse vector, replacing those of the same field if any.
    pub fn with_sparse_vector(self, vector: SparseVectorConfig) -> (r: QdrantBuilder)
        ensures
            r.spec_sparse_vectors() == Some(
                match self.spec_sparse_vectors() {
                    Some(s) => s,
                    None => Set::empty(),
                }.insert(vector.embedded_field@),
            ),
            r.spec_collection_name() == self.spec_collection_name(),
            r.spec_vector_size() == self.spec_vector_size(),
            r.spec_vector_distance() == self.spec_vector_distance(),
            r.spec_batch_size() == self.spec_batch_size(),
            r.spec_vectors() == self.spec_vectors(),
    {
        proof {
            use_type_invariant(&self);
        }
        let QdrantBuilder { collection_name, vector_size, vector_distance, batch_size, vectors, sparse_vectors } = self;
        let mut v = match sparse_vectors {
            Some(v) => v,
            None => Vec::new(),
        };
        let ghost old_v = v@;
        let ghost k = vector.embedded_field@;
        match position_of_sparse(&v, &vector.embedded_field) {
            Some(i) => {
                v.set(i, vector);
                proof {
                    assert(spec_sparse_fields(v@) =~= spec_sparse_fields(old_v).insert(k)) by {
                        assert forall|f: EmbeddedFieldView| spec_sparse_fields(old_v).insert(k).contains(f) implies
                            spec_sparse_fields(v@).contains(f) by {
                            if f == k {
                                assert(v@[i as int].embedded_field@ == f);
                            } else {
                                let j = choose|j: int| 0 <= j < old_v.len() && #[trigger] old_v[j].embedded_field@ == f;
                                assert(j != i);
                                assert(v@[j].embedded_field@ == f);
                            }
                        }
                        assert forall|f: EmbeddedFieldView| spec_sparse_fields(v@).contains(f) implies
                            spec_sparse_fields(old_v).insert(k).contains(f) by {
                            let j = choose|j: int| 0 <= j < v@.len() && #[trigger] v@[j].embedded_field@ == f;
                            if j != i {
                                assert(old_v[j].embedded_field@ == f);
                            }
                        }
                    }
                    assert forall|a: int, b: int| 0 <= a < b < v@.len() implies #[trigger] v@[a].embedded_field@
                        != #[trigger] v@[b].embedded_field@ by {
                        if a != i && b != i {
                            assert(old_v[a].embedded_field@ != old_v[b].embedded_field@);
                        } else if a == i {
                            assert(old_v[i as int].embedded_field@ != old_v[b].embedded_field@);
                        } else {
                            assert(old_v[a].embedded_field@ != old_v[i as int].embedded_field@);
                        }
                    }
                }
            },
            None => {
                v.push(vector);
                proof {
                    assert(spec_sparse_fields(v@) =~= spec_sparse_fields(old_v).insert(k)) by {
                        assert forall|f: EmbeddedFieldView| spec_sparse_fields(old_v).insert(k).contains(f) implies
                            spec_sparse_fields(v@).contains(f) by {
                            if f == k {
                                assert(v@[old_v.len() as int].embedded_field@ == f);
                            } else {
                                let j = choose|j: int| 0 <= j < old_v.len() && #[trigger] old_v[j].embedded_field@ == f;
                                assert(v@[j].embedded_field@ == f);
                            }
                        }
                        assert forall|f: EmbeddedFieldView| spec_sparse_fields(v@).contains(f) implies
                            spec_sparse_fields(old_v).insert(k).contains(f) by {
                            let j = choose|j: int| 0 <= j < v@.len() && #[trigger] v@[j].embedded_field@ == f;
                            if j < old_v.len() {
                                assert(old_v[j].embedded_field@ == f);
                            }
                        }
                    }
                }
            },
        }
        QdrantBuilder { collection_name, vector_size, vector_distance, batch_size, vectors, sparse_vectors: Some(v) }
    }

    /// Builds the settings: the vector size is required; the collection is `swiftide`, distances
    /// are cosine, batches hold 50 nodes, the vectors are one combined vector with the
    /// collection's size and distance, and there are no sparse vectors, unless set otherwise.
    pub fn build(self) -> (r: Result<Qdrant, QdrantError>)
        ensures
            match self.spec_vector_size() {
                Some(size) => r matches Ok(q) && {
                    &&& q.spec_vector_size() == size
                    &&& q.spec_collection_name() == match self.spec_collection_name() {
                        Some(n) => n,
                        None => "swiftide"@,
                    }
                    &&& q.spec_vector_distance() == match self.spec_vector_distance() {
                        Some(d) => d,
                        None => Distance::Cosine,
                    }
                    &&& q.spec_batch_size() == Some(match self.spec_batch_size() {
                        Some(b) => b,
                        None => 50,
                    })
                    &&& q.spec_vectors() == match self.spec_vectors() {
                        Some(m) => m,
                        None => Map::empty().insert(
                            EmbeddedFieldView::Combined,
                            (EmbeddedFieldView::Combined, None::<u64>, None::<Distance>),
                        ),
                    }
                    &&& q.spec_sparse_vectors() == match self.spec_sparse_vectors() {
                        Some(s) => s,
                        None => Set::empty(),
                    }
                },
                None => r == Err::<Qdrant, QdrantError>(QdrantError::MissingVectorSize),
            },
    {
        proof {
            use_type_invariant(&self);
        }
        let QdrantBuilder { collection_name, vector_size, vector_distance, batch_size, vectors, sparse_vectors } = self;
        let vector_size = match vector_size {
            Some(s) => s,
            None => return Err(QdrantError::MissingVectorSize),
        };
        let collection_name = match collection_name {
            Some(n) => n,
            None => "swiftide".to_owned(),
        };
        let vector_distance = match vector_distance {
            Some(d) => d,
            None => Distance::Cosine,
        };
        let batch_size = match batch_size {
            Some(b) => b,
            None => 50,
        };
        let vectors = match vectors {
            Some(v) => v,
            None => {
                let v = vec![VectorConfig { embedded_field: EmbeddedField::Combined, vector_size: None, distance: None }];
                proof {
                    reveal_with_fuel(spec_vectors_map, 2);
                    assert(v@.drop_last() =~= Seq::<VectorConfig>::empty());
                    assert(spec_vectors_map(v@) =~= Map::empty().insert(
                        EmbeddedFieldView::Combined,
                        (EmbeddedFieldView::Combined, None::<u64>, None::<Distance>),
                    ));
                }
                v
            },
        };
        let sparse_vectors = match sparse_vectors {
            Some(v) => v,
            None => {
                let v: Vec<SparseVectorConfig> = Vec::new();
                proof {
                    assert(spec_sparse_fields(v@) =~= Set::<EmbeddedFieldView>::empty());
                }
                v
            },
        };
        Ok(Qdrant { collection_name, vector_size, vector_distance, batch_size: Some(batch_size), vectors, sparse_vectors })
    }
}

/// The size and distance of a vector: its own when set, the collection's otherwise.
pub open spec fn spec_vector_params(c: (EmbeddedFieldView, Option<u64>, Option<Distance>), size: u64, distance: Distance) -> VectorParams {
    VectorParams {
        size: match c.1 {
            Some(s) => s,
            None => size,
        },
        distance: match c.2 {
            Some(d) => d,
            None => distance,
        },
    }
}

/// `fs` lists each member of `s` exactly once.
pub open spec fn spec_enumerates(fs: Seq<EmbeddedFieldView>, s: Set<EmbeddedFieldView>) -> bool {
    &&& fs.no_duplicates()
    &&& forall|f: EmbeddedFieldView| s.contains(f) <==> fs.contains(f)
}

/// The name of the sparse vector of a field: the field's name and `_sparse`.
pub open spec fn spec_sparse_name(f: EmbeddedFieldView) -> Seq<char> {
    spec_field_name(f) + "_sparse"@
}

impl Qdrant {
    /// The vectors and sparse vectors hold each field at most once.
    #[verifier::type_invariant]
    spec fn distinct_fields(self) -> bool {
        &&& spec_distinct_vectors(self.vectors@)
        &&& spec_distinct_sparse(self.sparse_vectors@)
    }

    /// The name of the collection.
    pub closed spec fn spec_collection_name(&self) -> Seq<char> {
        self.collection_name@
    }

    /// The size of the vectors.
    pub closed spec fn spec_vector_size(&self) -> u64 {
        self.vector_size
    }

    /// How the distance between vectors is measured.
    pub closed spec fn spec_vector_distance(&self) -> Distance {
        self.vector_distance
    }

    /// How many nodes are stored at a time, if limited.
    pub closed spec fn spec_batch_size(&self) -> Option<usize> {
        self.batch_size
    }

    /// The dense vector settings by field.
    pub closed spec fn spec_vectors(&self) -> Map<EmbeddedFieldView, (EmbeddedFieldView, Option<u64>, Option<Distance>)> {
        spec_vectors_map(self.vectors@)
    }

    /// The fields of the sparse vectors.
    pub closed spec fn spec_sparse_vectors(&self) -> Set<EmbeddedFieldView> {
        spec_sparse_fields(self.sparse_vectors@)
    }

    /// A builder with nothing set.
    pub fn builder() -> (r: QdrantBuilder)
        ensures
            r.spec_collection_name() is None,
            r.spec_vector_size() is None,
            r.spec_vector_distance() is None,
            r.spec_batch_size() is None,
            r.spec_vectors() is None,
            r.spec_sparse_vectors() is None,
    {
        QdrantBuilder {
            collection_name: None,
            vector_size: None,
            vector_distance: None,
            batch_size: None,
            vectors: None,
            sparse_vectors: None,
        }
    }

    /// How many nodes are stored at a time, if limited.
    pub fn batch_size(&self) -> (r: Option<usize>)
        ensures
            r == self.spec_batch_size(),
    {
        self.batch_size
    }

    /// The name of the collection.
    pub fn collection_name(&self) -> (r: &str)
        ensures
            r@ == self.spec_collection_name(),
    {
        self.collection_name.as_str()
    }

    /// The size and distance of a vector with the settings `config` (see
    /// [`spec_vector_params`]).
    pub fn create_vector_params(&self, config: &VectorConfig) -> (r: VectorParams)
        ensures
            r == spec_vector_params(config@, self.spec_vector_size(), self.spec_vector_distance()),
    {
        let size = match config.vector_size {
            Some(s) => s,
            None => self.vector_size,
        };
        let distance = match config.distance {
            Some(d) => d,
            None => self.vector_distance,
        };
        VectorParams { size, distance }
    }

    /// Whether `m` names each dense vector once, by its field's name (see [`spec_field_name`]),
    /// with its parameters (see [`spec_vector_params`]): its entries follow some enumeration of the
    /// vectors' fields.
    pub open spec fn spec_named_params(&self, m: Seq<(String, VectorParams)>) -> bool {
        exists|fs: Seq<EmbeddedFieldView>|
            #[trigger] spec_enumerates(fs, self.spec_vectors().dom()) && fs.len() == m.len() && forall|i: int|
                0 <= i < m.len() ==> #[trigger] m[i].0@ == spec_field_name(fs[i]) && m[i].1 == spec_vector_params(
                    self.spec_vectors()[fs[i]],
                    self.spec_vector_size(),
                    self.spec_vector_distance(),
                )
    }

    /// The dense vectors of the collection: with one dense vector and no sparse ones, its
    /// parameters as the unnamed vector; otherwise each dense vector by its field's name (see
    /// [`spec_field_name`]) with its parameters (see [`spec_vector_params`]), each field once.
    /// Fails when there are no dense vectors.
    pub fn create_vectors_config(&self) -> (r: Result<VectorsConfig, QdrantError>)
        ensures
            self.spec_vectors().len() == 0 ==> r == Err::<VectorsConfig, QdrantError>(QdrantError::NoConfiguredVectors),
            self.spec_vectors().len() == 1 && self.spec_sparse_vectors().len() == 0 ==> (r matches Ok(VectorsConfig::Params(p))
                && exists|f: EmbeddedFieldView| #[trigger] self.spec_vectors().contains_key(f)
                    && p == spec_vector_params(self.spec_vectors()[f], self.spec_vector_size(), self.spec_vector_distance())),
            self.spec_vectors().len() > 0 && !(self.spec_vectors().len() == 1 && self.spec_sparse_vectors().len() == 0)
                ==> (r matches Ok(VectorsConfig::ParamsMap(m)) && self.spec_named_params(m@)),
    {
        proof {
            use_type_invariant(self);
            lemma_vectors_map_len(self.vectors@);
            lemma_sparse_fields_len(self.sparse_vectors@);
        }
        if self.vectors.len() == 0 {
            return Err(QdrantError::NoConfiguredVectors);
        }
        if self.vectors.len() == 1 && self.sparse_vectors.len() == 0 {
            proof {
                lemma_vectors_map_entry(self.vectors@, 0);
            }
            return Ok(VectorsConfig::Params(self.create_vector_params(&self.vectors[0])));
        }
        let mut m: Vec<(String, VectorParams)> = Vec::new();
        let mut i: usize = 0;
        while i < self.vectors.len()
            invariant
                i <= self.vectors@.len(),
                m@.len() == i,
                spec_distinct_vectors(self.vectors@),
                forall|j: int| #![trigger m@[j]] 0 <= j < i ==> m@[j].0@ == spec_field_name(self.vectors@[j].embedded_field@)
                    && m@[j].1 == spec_vector_params(self.vectors@[j]@, self.vector_size, self.vector_distance),
            decreases self.vectors@.len() - i,
        {
            let c = &self.vectors[i];
            let name = c.embedded_field.to_display_string();
            let params = self.create_vector_params(c);
            m.push((name, params));
            i = i + 1;
        }
        proof {
            let v = self.vectors@;
            let fs = v.map_values(|c: VectorConfig| c.embedded_field@);
            assert(fs.no_duplicates()) by {
                assert forall|a: int, b: int| 0 <= a < fs.len() && 0 <= b < fs.len() && a != b implies fs[a] != fs[b] by {
                    if a < b {
                        assert(v[a].embedded_field@ != v[b].embedded_field@);
                    } else {
                        assert(v[b].embedded_field@ != v[a].embedded_field@);
                    }
                }
            }
            assert forall|f: EmbeddedFieldView| self.spec_vectors().dom().contains(f) <==> fs.contains(f) by {
                if self.spec_vectors().dom().contains(f) {
                    let j = lemma_vectors_map_key(v, f);
                    assert(fs[j] == f);
                }
                if fs.contains(f) {
                    let j = choose|j: int| 0 <= j < fs.len() && fs[j] == f;
                    lemma_vectors_map_entry(v, j);
                }
            }
            assert forall|i: int| 0 <= i < m@.len() implies #[trigger] m@[i].0@ == spec_field_name(fs[i]) && m@[i].1
                == spec_vector_params(self.spec_vectors()[fs[i]], self.spec_vector_size(), self.spec_vector_distance()) by {
                lemma_vectors_map_entry(v, i);
            }
            assert(spec_enumerates(fs, self.spec_vectors().dom()));
        }
        Ok(VectorsConfig::ParamsMap(m))
    }

    /// Whether `names` names each sparse vector once (see [`spec_sparse_name`]): they follow some
    /// enumeration of the sparse vectors' fields.
    pub open spec fn spec_sparse_names(&self, names: Seq<String>) -> bool {
        exists|fs: Seq<EmbeddedFieldView>|
            #[trigger] spec_enumerates(fs, self.spec_sparse_vectors()) && fs.len() == names.len() && forall|i: int|
                0 <= i < names.len() ==> #[trigger] names[i]@ == spec_sparse_name(fs[i])
    }

    /// The names of the sparse vectors (see [`spec_sparse_name`]), each field once; `None` when
    /// there are none.
    pub fn create_sparse_vectors_config(&self) -> (r: Option<Vec<String>>)
        ensures
            self.spec_sparse_vectors().len() == 0 ==> r is None,
            self.spec_sparse_vectors().len() > 0 ==> (r matches Some(names) && self.spec_sparse_names(names@)),
    {
        proof {
            use_type_invariant(self);
            lemma_sparse_fields_len(self.sparse_vectors@);
        }
        if self.sparse_vectors.len() == 0 {
            return None;
        }
        let mut names: Vec<String> = Vec::new();
        let mut i: usize = 0;
        while i < self.sparse_vectors.len()
            invariant
                i <= self.sparse_vectors@.len(),
                names@.len() == i,
                forall|j: int| 0 <= j < i ==> #[trigger] names@[j]@ == spec_sparse_name(self.sparse_vectors@[j].embedded_field@),
            decreases self.sparse_vectors@.len() - i,
        {
            names.push(sparse_name(&self.sparse_vectors[i].embedded_field));
            i = i + 1;
        }
        proof {
            let v = self.sparse_vectors@;
            let fs = v.map_values(|c: SparseVectorConfig| c.embedded_field@);
            assert(fs.no_duplicates()) by {
                assert forall|a: int, b: int| 0 <= a < fs.len() && 0 <= b < fs.len() && a != b implies fs[a] != fs[b] by {
                    if a < b {
                        assert(v[a].embedded_field@ != v[b].embedded_field@);
                    } else {
                        assert(v[b].embedded_field@ != v[a].embedded_field@);
                    }
                }
            }
            assert forall|f: EmbeddedFieldView| self.spec_sparse_vectors().contains(f) <==> fs.contains(f) by {
                if self.spec_sparse_vectors().contains(f) {
                    let j = choose|j: int| 0 <= j < v.len() && #[trigger] v[j].embedded_field@ == f;
                    assert(fs[j] == f);
                }
                if fs.contains(f) {
                    let j = choose|j: int| 0 <= j < fs.len() && fs[j] == f;
                    assert(v[j].embedded_field@ == f);
                }
            }
            assert(spec_enumerates(fs, self.spec_sparse_vectors()));
        }
        Some(names)
    }

    /// The fields of the dense vectors, each once.
    pub fn vector_fields(&self) -> (r: Vec<EmbeddedField>)
        ensures
            r@.len() == self.spec_vectors().len(),
            forall|f: EmbeddedFieldView| self.spec_vectors().contains_key(f) <==> exists|i: int|
                0 <= i < r@.len() && #[trigger] r@[i]@ == f,
    {
        proof {
            use_type_invariant(self);
            lemma_vectors_map_len(self.vectors@);
        }
        let mut out: Vec<EmbeddedField> = Vec::new();
        let mut i: usize = 0;
        while i < self.vectors.len()
            invariant
                i <= self.vectors@.len(),
                out@.len() == i,
                forall|j: int| 0 <= j < i ==> #[trigger] out@[j]@ == self.vectors@[j].embedded_field@,
            decreases self.vectors@.len() - i,
        {
            out.push(self.vectors[i].embedded_field.copy());
            i = i + 1;
        }
        proof {
            let v = self.vectors@;
            assert forall|f: EmbeddedFieldView| self.spec_vectors().contains_key(f) <==> exists|i: int|
                0 <= i < out@.len() && #[trigger] out@[i]@ == f by {
                if self.spec_vectors().contains_key(f) {
                    let j = lemma_vectors_map_key(v, f);
                    assert(out@[j]@ == f);
                }
                if exists|i: int| 0 <= i < out@.len() && #[trigger] out@[i]@ == f {
                    let i = choose|i: int| 0 <= i < out@.len() && #[trigger] out@[i]@ == f;
                    lemma_vectors_map_entry(v, i);
                }
            }
        }
        out
    }

    /// Whether searches name the vector they use: when there is more than one dense vector or any
    /// sparse one.
    pub fn searches_named_vector(&self) -> (r: bool)
        ensures
            r == (self.spec_vectors().len() > 1 || self.spec_sparse_vectors().len() > 0),
    {
        proof {
            use_type_invariant(self);
            lemma_vectors_map_len(self.vectors@);
            lemma_sparse_fields_len(self.sparse_vectors@);
        }
        self.vectors.len() > 1 || self.sparse_vectors.len() > 0
    }
}

/// In settings with distinct fields, the map has one entry per setting.
proof fn lemma_vectors_map_len(v: Seq<VectorConfig>)
    requires
        spec_distinct_vectors(v),
    ensures
        spec_vectors_map(v).len() == v.len(),
        spec_vectors_map(v).dom().finite(),
    decreases v.len(),
{
    if v.len() > 0 {
        assert(spec_distinct_vectors(v.drop_last()));
        lemma_vectors_map_len(v.drop_last());
        lemma_vectors_map_absent(v.drop_last(), v.last().embedded_field@);
    }
}

/// In settings with distinct fields, each setting is the map's entry for its field.
proof fn lemma_vectors_map_entry(v: Seq<VectorConfig>, i: int)
    requires
        spec_distinct_vectors(v),
        0 <= i < v.len(),
    ensures
        spec_vectors_map(v).contains_key(v[i].embedded_field@),
        spec_vectors_map(v)[v[i].embedded_field@] == v[i]@,
    decreases v.len(),
{
    if i < v.len() - 1 {
        assert(spec_distinct_vectors(v.drop_last()));
        lemma_vectors_map_entry(v.drop_last(), i);
        assert(v[i].embedded_field@ != v[v.len() - 1].embedded_field@);
    }
}

/// A field in the map is the field of some setting.
proof fn lemma_vectors_map_key(v: Seq<VectorConfig>, f: EmbeddedFieldView) -> (i: int)
    requires
        spec_vectors_map(v).contains_key(f),
    ensures
        0 <= i < v.len(),
        v[i].embedded_field@ == f,
    decreases v.len(),
{
    if v.last().embedded_field@ == f {
        v.len() - 1
    } else {
        lemma_vectors_map_key(v.drop_last(), f)
    }
}

/// Sparse settings with distinct fields have as many fields as settings.
proof fn lemma_sparse_fields_len(v: Seq<SparseVectorConfig>)
    requires
        spec_distinct_sparse(v),
    ensures
        spec_sparse_fields(v).len() == v.len(),
        spec_sparse_fields(v).finite(),
    decreases v.len(),
{
    if v.len() == 0 {
        assert(spec_sparse_fields(v) =~= Set::<EmbeddedFieldView>::empty());
    } else {
        let p = v.drop_last();
        assert(spec_distinct_sparse(p));
        lemma_sparse_fields_len(p);
        let k = v.last().embedded_field@;
        assert(spec_sparse_fields(v) =~= spec_sparse_fields(p).insert(k)) by {
            assert forall|f: EmbeddedFieldView| spec_sparse_fields(v).contains(f) implies spec_sparse_fields(p).insert(k).contains(f) by {
                let j = choose|j: int| 0 <= j < v.len() && #[trigger] v[j].embedded_field@ == f;
                if j < p.len() {
                    assert(p[j].embedded_field@ == f);
                }
            }
            assert forall|f: EmbeddedFieldView| spec_sparse_fields(p).insert(k).contains(f) implies spec_sparse_fields(v).contains(f) by {
                if f == k {
                    assert(v[v.len() - 1].embedded_field@ == f);
                } else {
                    let j = choose|j: int| 0 <= j < p.len() && #[trigger] p[j].embedded_field@ == f;
                    assert(v[j].embedded_field@ == f);
                }
            }
        }
        assert(!spec_sparse_fields(p).contains(k)) by {
            if spec_sparse_fields(p).contains(k) {
                let j = choose|j: int| 0 <= j < p.len() && #[trigger] p[j].embedded_field@ == k;
                assert(v[j].embedded_field@ != v[v.len() - 1].embedded_field@);
            }
        }
    }
}

/// What stands for one embedding of a node: its position among the node's dense or sparse
/// embeddings (the embeddings themselves are floating-point values).
#[derive(Debug, PartialEq, Eq, Structural, Clone, Copy)]
pub enum NamedVector {
    Dense(usize),
    Sparse(usize),
}

/// The vectors of a point: one unnamed vector, or vectors by name.
#[derive(Debug)]
pub enum PointVectors {
    Unnamed(usize),
    Named(Vec<(String, NamedVector)>),
}

/// Whether `f` is one of `fields`.
pub open spec fn spec_in_fields(fields: Seq<EmbeddedField>, f: EmbeddedFieldView) -> bool {
    exists|i: int| 0 <= i < fields.len() && #[trigger] fields[i]@ == f
}

/// The dense embeddings of the stored fields, by field name, in order.
pub open spec fn spec_named_dense(fields: Seq<EmbeddedField>, vs: Seq<(EmbeddedField, usize)>) -> Seq<(Seq<char>, NamedVector)>
    decreases vs.len(),
{
    if vs.len() == 0 {
        Seq::empty()
    } else {
        let rest = spec_named_dense(fields, vs.drop_last());
        let (f, e) = vs.last();
        if spec_in_fields(fields, f@) {
            rest.push((spec_field_name(f@), NamedVector::Dense(e)))
        } else {
            rest
        }
    }
}

/// The sparse embeddings of the stored fields, by sparse name, in order.
pub open spec fn spec_named_sparse(fields: Seq<EmbeddedField>, vs: Seq<(EmbeddedField, usize)>) -> Seq<(Seq<char>, NamedVector)>
    decreases vs.len(),
{
    if vs.len() == 0 {
        Seq::empty()
    } else {
        let rest = spec_named_sparse(fields, vs.drop_last());
        let (f, e) = vs.last();
        if spec_in_fields(fields, f@) {
            rest.push((spec_sparse_name(f@), NamedVector::Sparse(e)))
        } else {
            rest
        }
    }
}

/// The views of named vectors.
pub open spec fn named_view(v: Seq<(String, NamedVector)>) -> Seq<(Seq<char>, NamedVector)> {
    v.map_values(|p: (String, NamedVector)| (p.0@, p.1))
}

fn in_fields(fields: &Vec<EmbeddedField>, f: &EmbeddedField) -> (r: bool)
    ensures
        r == spec_in_fields(fields@, f@),
{
    let mut i: usize = 0;
    while i < fields.len()
        invariant
            i <= fields@.len(),
            forall|j: int| 0 <= j < i ==> #[trigger] fields@[j]@ != f@,
        decreases fields@.len() - i,
    {
        if fields[i].same_as(f) {
            return true;
        }
        i = i + 1;
    }
    false
}

fn sparse_name(f: &EmbeddedField) -> (r: String)
    ensures
        r@ == spec_sparse_name(f@),
{
    let name = f.to_display_string();
    let mut v = crate::text::chars_of(name.as_str());
    let suffix = "_sparse".to_owned();
    let s = crate::text::chars_of(suffix.as_str());
    crate::text::append_chars(&mut v, s.as_slice());
    crate::text::string_from_chars(v.as_slice())
}

fn push_named(
    out: &mut Vec<(String, NamedVector)>,
    fields: &Vec<EmbeddedField>,
    vs: &Vec<(EmbeddedField, usize)>,
    sparse: bool,
)
    ensures
        named_view(final(out)@) == named_view(old(out)@) + if sparse {
            spec_named_sparse(fields@, vs@)
        } else {
            spec_named_dense(fields@, vs@)
        },
{
    let ghost start = named_view(out@);
    let mut i: usize = 0;
    while i < vs.len()
        invariant
            i <= vs@.len(),
            named_view(out@) == start + if sparse {
                spec_named_sparse(fields@, vs@.subrange(0, i as int))
            } else {
                spec_named_dense(fields@, vs@.subrange(0, i as int))
            },
        decreases vs@.len() - i,
    {
        proof {
            assert(vs@.subrange(0, i + 1).drop_last() =~= vs@.subrange(0, i as int));
        }
        let (f, e) = &vs[i];
        if in_fields(fields, f) {
            let ghost before = out@;
            let name = if sparse {
                sparse_name(f)
            } else {
                f.to_display_string()
            };
            let v = if sparse {
                NamedVector::Sparse(*e)
            } else {
                NamedVector::Dense(*e)
            };
            out.push((name, v));
            proof {
                assert(named_view(out@) =~= named_view(before).push((name@, v)));
            }
        }
        proof {
            let prev = vs@.subrange(0, i as int);
            let next = vs@.subrange(0, i + 1);
            assert(next.last() == vs@[i as int]);
            if sparse {
                assert(named_view(out@) =~= start + spec_named_sparse(fields@, next));
            } else {
                assert(named_view(out@) =~= start + spec_named_dense(fields@, next));
            }
        }
        i = i + 1;
    }
    proof {
        assert(vs@.subrange(0, vs@.len() as int) =~= vs@);
    }
}

/// The vectors of a point from a node's dense embeddings and, if any, its sparse ones, by field
/// and position: with one dense embedding and no sparse ones, that embedding unnamed; otherwise
/// the dense embeddings of the stored fields by field name (see [`spec_field_name`]), then the
/// sparse embeddings of the stored fields by sparse name (see [`spec_sparse_name`]). Fails when
/// the node has no dense embedding.
pub fn try_create_vectors(
    vector_fields: &Vec<EmbeddedField>,
    vectors: &Vec<(EmbeddedField, usize)>,
    sparse_vectors: &Option<Vec<(EmbeddedField, usize)>>,
) -> (r: Result<PointVectors, QdrantError>)
    ensures
        vectors@.len() == 0 ==> r == Err::<PointVectors, QdrantError>(QdrantError::EmptyVectors),
        vectors@.len() == 1 && sparse_vectors is None ==> (r matches Ok(PointVectors::Unnamed(e))
            && e == vectors@[0].1),
        vectors@.len() > 0 && !(vectors@.len() == 1 && sparse_vectors is None) ==> (r matches Ok(PointVectors::Named(v))
            && named_view(v@) == spec_named_dense(vector_fields@, vectors@) + match *sparse_vectors {
                Some(s) => spec_named_sparse(vector_fields@, s@),
                None => Seq::empty(),
            }),
{
    if vectors.len() == 0 {
        return Err(QdrantError::EmptyVectors);
    }
    if vectors.len() == 1 && sparse_vectors.is_none() {
        return Ok(PointVectors::Unnamed(vectors[0].1));
    }
    let mut out: Vec<(String, NamedVector)> = Vec::new();
    proof {
        assert(named_view(out@) =~= Seq::<(Seq<char>, NamedVector)>::empty());
    }
    push_named(&mut out, vector_fields, vectors, false);
    match sparse_vectors {
        Some(s) => {
            push_named(&mut out, vector_fields, s, true);
        },
        None => {
            proof {
                assert(named_view(out@) =~= named_view(out@) + Seq::<(Seq<char>, NamedVector)>::empty());
            }
        },
    }
    proof {
        assert(Seq::<(Seq<char>, NamedVector)>::empty() + spec_named_dense(vector_fields@, vectors@)
            =~= spec_named_dense(vector_fields@, vectors@));
    }
    Ok(PointVectors::Named(out))
}

} // verus!
