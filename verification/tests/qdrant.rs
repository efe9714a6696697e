use swiftide_integrations::qdrant::{
    try_create_vectors, Distance, EmbeddedField, NamedVector, PointVectors, Qdrant, QdrantError,
    SparseVectorConfig, VectorConfig, VectorParams, VectorsConfig,
};

fn meta(key: &str) -> EmbeddedField {
    EmbeddedField::Metadata(key.to_string())
}

#[test]
fn field_names_follow_their_display_form() {
    assert_eq!(EmbeddedField::Combined.to_display_string(), "Combined");
    assert_eq!(EmbeddedField::Chunk.to_display_string(), "Chunk");
    assert_eq!(meta("m1").to_display_string(), "Metadata: m1");
    assert!(matches!(EmbeddedField::default(), EmbeddedField::Combined));
}

#[test]
fn node_with_single_vector_creates_unnamed_vector() {
    let vectors = vec![(EmbeddedField::Chunk, 0)];
    let fields = vec![EmbeddedField::Combined];
    match try_create_vectors(&fields, &vectors, &None).unwrap() {
        PointVectors::Unnamed(e) => assert_eq!(e, 0),
        PointVectors::Named(_) => panic!("expected an unnamed vector"),
    }
}

#[test]
fn node_with_multiple_vectors_creates_named_vectors() {
    let vectors = vec![(EmbeddedField::Chunk, 0), (meta("m1"), 1)];
    let fields = vec![EmbeddedField::Chunk, meta("m1")];
    let PointVectors::Named(named) = try_create_vectors(&fields, &vectors, &None).unwrap() else {
        panic!("expected named vectors");
    };
    assert_eq!(named.len(), 2);
    assert_eq!(named[0].0, "Chunk");
    assert_eq!(named[0].1, NamedVector::Dense(0));
    assert_eq!(named[1].0, "Metadata: m1");
    assert_eq!(named[1].1, NamedVector::Dense(1));
}

#[test]
fn only_stored_fields_are_kept() {
    let vectors = vec![
        (EmbeddedField::Chunk, 0),
        (EmbeddedField::Combined, 1),
        (meta("m1"), 2),
        (meta("m2"), 3),
    ];
    let fields = vec![EmbeddedField::Combined];
    let PointVectors::Named(named) = try_create_vectors(&fields, &vectors, &None).unwrap() else {
        panic!("expected named vectors");
    };
    assert_eq!(named.len(), 1);
    assert_eq!(named[0].0, "Combined");
    assert_eq!(named[0].1, NamedVector::Dense(1));
}

#[test]
fn sparse_vectors_are_named_with_a_suffix() {
    let vectors = vec![(EmbeddedField::Combined, 0)];
    let sparse = Some(vec![(EmbeddedField::Combined, 0), (EmbeddedField::Chunk, 1)]);
    let fields = vec![EmbeddedField::Combined];
    let PointVectors::Named(named) = try_create_vectors(&fields, &vectors, &sparse).unwrap() else {
        panic!("expected named vectors");
    };
    assert_eq!(named.len(), 2);
    assert_eq!(named[0].0, "Combined");
    assert_eq!(named[1].0, "Combined_sparse");
    assert_eq!(named[1].1, NamedVector::Sparse(0));
    assert_eq!(
        try_create_vectors(&fields, &vec![], &None).unwrap_err(),
        QdrantError::EmptyVectors
    );
}

#[test]
fn builder_defaults_and_required_vector_size() {
    assert_eq!(Qdrant::builder().build().unwrap_err(), QdrantError::MissingVectorSize);

    let q = Qdrant::builder().vector_size(384).build().unwrap();
    assert_eq!(q.collection_name(), "swiftide");
    assert_eq!(q.batch_size(), Some(50));
    match q.create_vectors_config().unwrap() {
        VectorsConfig::Params(p) => assert_eq!(p, VectorParams { size: 384, distance: Distance::Cosine }),
        VectorsConfig::ParamsMap(_) => panic!("expected one unnamed vector"),
    }
    assert!(q.create_sparse_vectors_config().is_none());
    assert!(!q.searches_named_vector());
    let fields = q.vector_fields();
    assert_eq!(fields.len(), 1);
    assert!(matches!(fields[0], EmbeddedField::Combined));
}

#[test]
fn with_vector_replaces_the_same_field() {
    let q = Qdrant::builder()
        .collection_name("docs")
        .vector_size(10)
        .vector_distance(Distance::Dot)
        .batch_size(7)
        .with_vector(VectorConfig::from_field(EmbeddedField::Chunk))
        .with_vector(VectorConfig::builder().embedded_field(meta("title")).vector_size(3).build())
        .with_vector(
            VectorConfig::builder()
                .embedded_field(EmbeddedField::Chunk)
                .distance(Distance::Euclid)
                .build(),
        )
        .with_sparse_vector(SparseVectorConfig::from_field(EmbeddedField::Chunk))
        .with_sparse_vector(SparseVectorConfig::from_field(EmbeddedField::Chunk))
        .build()
        .unwrap();
    assert_eq!(q.collection_name(), "docs");
    assert_eq!(q.batch_size(), Some(7));
    assert!(q.searches_named_vector());

    let VectorsConfig::ParamsMap(mut m) = q.create_vectors_config().unwrap() else {
        panic!("expected named vectors");
    };
    m.sort_by(|a, b| a.0.cmp(&b.0));
    assert_eq!(m.len(), 2);
    assert_eq!(m[0].0, "Chunk");
    assert_eq!(m[0].1, VectorParams { size: 10, distance: Distance::Euclid });
    assert_eq!(m[1].0, "Metadata: title");
    assert_eq!(m[1].1, VectorParams { size: 3, distance: Distance::Dot });

    let sparse = q.create_sparse_vectors_config().expect("sparse vectors");
    assert_eq!(sparse, vec!["Chunk_sparse".to_string()]);
}
