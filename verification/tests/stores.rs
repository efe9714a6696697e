use swiftide_integrations::tokenizer::{total_tokens, TikToken};
use swiftide_integrations::langfuse::{
    langfuse_settings,
    batch_send_outcome, langfuse_json, map_level, observation_create_from, observation_type_of,
    observation_update_from, remaining_metadata, EventBatch, Level, ObservationLevel,
    ObservationType, SpanData, SpanTracker,
};
use swiftide_integrations::tool_schema::JsonValue;
use swiftide_integrations::parquet::{Parquet, ParquetBuildError};
use swiftide_integrations::pgvector::{
    is_reserved_keyword, is_valid_identifier, normalize_field_name, should_retry_connection,
    MetadataConfig, PgVector, PgVectorBuilder, PgVectorError, VectorConfig,
};
use swiftide_integrations::qwen::{Qwen, QwenConfig, QwenEmbedding, QwenModel, QwenOptions};
use swiftide_integrations::scraping::{
    is_local_host, is_locally_routable, spider_cloud_mode, spider_cloud_settings, trimmed_setting,
    uses_spider_cloud, SpiderCloudMode, UrlHost,
};

#[test]
fn test_default_prompt_model() {
    let openai = Qwen::builder()
        .default_prompt_model(&QwenModel::Long)
        .build();
    assert_eq!(
        openai.default_options.prompt_model,
        Some(QwenModel::Long.to_display_string())
    );

    let openai = Qwen::builder()
        .default_prompt_model(&QwenModel::Turbo)
        .build();
    assert_eq!(
        openai.default_options.prompt_model,
        Some(QwenModel::Turbo.to_display_string())
    );
}

#[test]
fn qwen_model_names() {
    assert_eq!(QwenModel::Max.to_display_string(), "qwen-max");
    assert_eq!(QwenModel::default_model(), QwenModel::Max);
    assert_eq!(QwenEmbedding::TextEmbeddingV3.to_display_string(), "text-embedding-v3");
    assert_eq!(
        QwenEmbedding::TextEmbeddingAsyncV1.to_display_string(),
        "text-embedding-async-v1\n\n"
    );
    let mut qwen = Qwen::builder()
        .default_prompt_model(&QwenModel::Plus)
        .default_embed_model(&QwenEmbedding::TextEmbeddingV2)
        .build();
    assert_eq!(qwen.default_options.prompt_model, Some("qwen-plus".to_string()));
    assert_eq!(qwen.default_options.embed_model, Some("text-embedding-v2".to_string()));
    // replacing one model resets the other options
    qwen.with_default_embed_model(&QwenEmbedding::TextEmbeddingV1);
    assert_eq!(qwen.default_options.prompt_model, None);
    assert_eq!(qwen.default_options.embed_model, Some("text-embedding-v1".to_string()));
}

#[test]
fn parquet_builder_defaults_and_column_lookup() {
    let loader = Parquet::builder().path("data.parquet").column_name("text").build().unwrap();
    assert_eq!(loader.batch_size(), 1024);
    assert_eq!(loader.column_name(), "text");
    assert_eq!(std::path::Path::new(loader.path()), std::path::Path::new("data.parquet"));
    let columns = vec!["id".to_string(), "text".to_string(), "text".to_string()];
    assert_eq!(loader.column_index(&columns), Some(1));
    assert_eq!(loader.column_index(&vec!["id".to_string()]), None);
    assert!(matches!(Parquet::builder().build(), Err(ParquetBuildError::MissingPath)));
    assert!(matches!(
        Parquet::builder().path("p").build(),
        Err(ParquetBuildError::MissingColumnName)
    ));
    let sized = Parquet::builder().path("p").column_name("c").batch_size(8).build().unwrap();
    assert_eq!(sized.batch_size(), 8);
}

#[test]
fn test_valid_identifiers() {
    assert!(is_valid_identifier("valid_name"));
    assert!(is_valid_identifier("_valid_name"));
    assert!(is_valid_identifier("valid_name_123"));
    assert!(is_valid_identifier("validName"));
}

#[test]
fn test_invalid_identifiers() {
    assert!(!is_valid_identifier("")); // Empty string
    assert!(!is_valid_identifier(&"a".repeat(64))); // Too long
    assert!(!is_valid_identifier("123_invalid")); // Starts with a number
    assert!(!is_valid_identifier("invalid-name")); // Contains hyphen
    assert!(!is_valid_identifier("select")); // Reserved keyword
}

#[test]
fn reserved_keywords_ignore_case() {
    assert!(is_reserved_keyword("Table"));
    assert!(!is_reserved_keyword("tables"));
    assert!(is_valid_identifier(&"a".repeat(63)));
    assert!(is_valid_identifier("price$usd"));
}

#[test]
fn field_names_are_normalized() {
    assert_eq!(normalize_field_name("Questions and Answers (code)"), "questions_and_answers");
    assert_eq!(normalize_field_name("  Some Field  Name here"), "some_field_name");
    assert_eq!(normalize_field_name("a-b c!"), "ab_c");
    assert_eq!(normalize_field_name("[x]"), "");
    assert_eq!(MetadataConfig::new("Priority").field, "meta_priority");
    assert_eq!(VectorConfig::new("Combined").field, "vector_combined");
}

fn store() -> PgVector {
    let mut builder = PgVector::builder();
    builder
        .db_url("postgresql://localhost:5432/vectors")
        .vector_size(384)
        .with_vector(VectorConfig::new("Combined"))
        .with_metadata(MetadataConfig::new("category"));
    builder.build().unwrap()
}

#[test]
fn create_table_sql() {
    let pgv = store();
    assert_eq!(pgv.get_table_name(), "swiftide_pgv_store");
    assert_eq!(pgv.batch_size(), 50);
    assert_eq!(pgv.db_max_connections(), 10);
    assert_eq!(pgv.db_max_retry(), 3);
    assert_eq!(
        pgv.generate_create_table_sql().unwrap(),
        "CREATE TABLE IF NOT EXISTS swiftide_pgv_store (\n  id UUID NOT NULL,\n  chunk TEXT NOT NULL,\n  vector_combined VECTOR(384),\n  meta_category JSONB,\n  PRIMARY KEY (id)\n)"
    );
    assert_eq!(
        pgv.create_index_sql().unwrap(),
        "CREATE INDEX IF NOT EXISTS swiftide_pgv_store_embedding_idx ON swiftide_pgv_store USING hnsw (vector_combined vector_cosine_ops)"
    );
    assert_eq!(pgv.get_vector_column_name().unwrap(), "vector_combined");
}

#[test]
fn upsert_sql() {
    let pgv = store();
    assert_eq!(
        pgv.generate_unnest_upsert_sql().unwrap(),
        "\n            INSERT INTO swiftide_pgv_store (id, chunk, vector_combined, meta_category)\n            SELECT id, chunk, vector_combined, meta_category\n            FROM UNNEST($1::UUID[], $2::TEXT[], $3::VECTOR[], $4::JSONB[]) AS t(id, chunk, vector_combined, meta_category)\n            ON CONFLICT (id) DO UPDATE SET chunk = EXCLUDED.chunk, vector_combined = EXCLUDED.vector_combined, meta_category = EXCLUDED.meta_category"
    );
}

#[test]
fn table_errors() {
    let mut builder = PgVector::builder();
    builder.db_url("postgres://x").vector_size(3).table_name("select");
    let bad = builder.build().unwrap();
    assert_eq!(bad.generate_create_table_sql(), Err(PgVectorError::InvalidTableName));
    assert_eq!(bad.create_index_sql(), Err(PgVectorError::NoVectorField));
    assert_eq!(bad.generate_unnest_upsert_sql(), Err(PgVectorError::EmptyFields));
    assert_eq!(bad.get_vector_column_name(), Err(PgVectorError::NoVectorField));
    assert!(matches!(PgVector::builder().build(), Err(PgVectorError::MissingSetting)));

    let mut two = PgVector::builder();
    two.db_url("postgres://x")
        .vector_size(-3)
        .with_vector(VectorConfig::new("a"))
        .with_vector(VectorConfig::new("b"));
    let two = two.build().unwrap();
    assert_eq!(two.get_vector_column_name(), Err(PgVectorError::MultipleVectorFields));
    assert!(two.generate_create_table_sql().unwrap().contains("vector_a VECTOR(-3)"));
    assert_eq!(PgVectorBuilder::default_fields().len(), 2);
}

#[test]
fn connection_retries() {
    assert!(should_retry_connection(1, 3));
    assert!(!should_retry_connection(3, 3));
}

#[test]
fn test_is_locally_routable() {
    for url in [
        "http://localhost:8080",
        "http://127.0.0.1:3000",
        "http://[::1]:3000",
        "http://192.168.1.10",
        "http://10.0.0.1",
        "http://nas.local",
    ] {
        assert!(is_locally_routable(url), "{url} should be local");
    }

    for url in [
        "https://example.com",
        "https://books.toscrape.com",
        "http://1.1.1.1",
    ] {
        assert!(!is_locally_routable(url), "{url} should not be local");
    }
}

#[test]
fn more_routable_hosts() {
    assert!(is_locally_routable("http://172.20.0.1"));
    assert!(!is_locally_routable("http://172.32.0.1"));
    assert!(is_locally_routable("http://169.254.1.1"));
    assert!(is_locally_routable("http://0.0.0.0"));
    assert!(is_locally_routable("http://app.localhost"));
    assert!(!is_locally_routable("not a url"));
    assert!(!is_locally_routable("http://[2001:db8::1]"));
}

#[test]
fn spider_cloud_mode_names() {
    assert_eq!(spider_cloud_mode(" Proxy "), SpiderCloudMode::Proxy);
    assert_eq!(spider_cloud_mode("API"), SpiderCloudMode::Api);
    assert_eq!(spider_cloud_mode("unblocker"), SpiderCloudMode::Unblocker);
    assert_eq!(spider_cloud_mode("fallback\n"), SpiderCloudMode::Fallback);
    assert_eq!(spider_cloud_mode(""), SpiderCloudMode::Smart);
    assert_eq!(spider_cloud_mode("whatever"), SpiderCloudMode::Smart);
    assert_eq!(trimmed_setting("  key "), Some("key".to_string()));
    assert_eq!(trimmed_setting("   "), None);
}

#[test]
fn spider_cloud_settings_from_values() {
    assert!(spider_cloud_settings(None, Some("api".to_string()), None).is_none());
    assert!(spider_cloud_settings(Some("  ".to_string()), None, None).is_none());

    let s = spider_cloud_settings(Some(" sk-1 ".to_string()), None, None).unwrap();
    assert_eq!(s.api_key, "sk-1");
    assert_eq!(s.mode, SpiderCloudMode::Smart);
    assert_eq!(s.api_url, None);

    let s = spider_cloud_settings(
        Some("sk-2".to_string()),
        Some(" UNBLOCKER".to_string()),
        Some(" https://api.example.com ".to_string()),
    )
    .unwrap();
    assert_eq!(s.mode, SpiderCloudMode::Unblocker);
    assert_eq!(s.api_url, Some("https://api.example.com".to_string()));

    let s = spider_cloud_settings(Some("sk-3".to_string()), None, Some("   ".to_string())).unwrap();
    assert_eq!(s.api_url, None);
}

#[test]
fn spider_cloud_skips_local_hosts() {
    assert!(uses_spider_cloud(true, "https://example.com"));
    assert!(!uses_spider_cloud(true, "http://localhost:3000"));
    assert!(!uses_spider_cloud(true, "http://192.168.1.2"));
    assert!(!uses_spider_cloud(false, "https://example.com"));
}

#[test]
fn span_tracker_round_trip() {
    let mut tracker = SpanTracker::new();
    tracker.add_span(1, "obs-1".to_string(), ObservationType::Generation);
    assert_eq!(
        tracker.get_span(1),
        Some(&("obs-1".to_string(), ObservationType::Generation))
    );
    assert_eq!(tracker.get_span(2), None);
    assert_eq!(
        tracker.remove_span(1),
        Some(("obs-1".to_string(), ObservationType::Generation))
    );
    assert_eq!(tracker.get_span(1), None);
    assert_eq!(tracker.remove_span(1), None);
}

#[test]
fn trace_id_is_created_once() {
    let mut tracker = SpanTracker::new();
    let (first, created) = tracker.ensure_trace_id("t-1".to_string());
    assert_eq!(first, "t-1");
    assert!(created);
    let (second, created) = tracker.ensure_trace_id("t-2".to_string());
    assert_eq!(second, "t-1");
    assert!(!created);
}

#[test]
fn levels_map_to_observation_levels() {
    assert_eq!(map_level(&Level::Error), ObservationLevel::Error);
    assert_eq!(map_level(&Level::Warn), ObservationLevel::Warning);
    assert_eq!(map_level(&Level::Info), ObservationLevel::Default);
    assert_eq!(map_level(&Level::Debug), ObservationLevel::Debug);
    assert_eq!(map_level(&Level::Trace), ObservationLevel::Debug);
}

#[test]
fn batch_requeue_and_failure() {
    let mut batch: EventBatch<u32> = EventBatch::new();
    batch.add_event(1);
    batch.add_event(2);
    let sent = batch.take_all();
    assert!(batch.is_empty());
    batch.add_event(3);
    let outcome = batch_send_outcome(0, 2);
    assert!(outcome.requeue && outcome.failed);
    if outcome.requeue {
        batch.requeue(sent);
    }
    assert_eq!(batch.take_all(), vec![3, 1, 2]);
    let ok = batch_send_outcome(1, 5);
    assert!(!ok.requeue && !ok.failed);
    let empty = batch_send_outcome(0, 0);
    assert!(empty.requeue && !empty.failed);
}

#[test]
fn remaining_metadata_drops_langfuse_fields() {
    let entries = vec![
        ("langfuse.input".to_string(), 1),
        ("user".to_string(), 2),
        ("langfuse".to_string(), 3),
    ];
    assert_eq!(
        remaining_metadata(entries),
        Some(vec![("user".to_string(), 2), ("langfuse".to_string(), 3)])
    );
    assert_eq!(remaining_metadata(vec![("langfuse.type".to_string(), 0)]), None);
    assert_eq!(langfuse_json(&5), None);
}

#[test]
fn remaining_metadata_twice_is_once() {
    let once = remaining_metadata(vec![
        ("a".to_string(), 1),
        ("langfuse.model".to_string(), 2),
        ("b".to_string(), 3),
    ])
    .unwrap();
    assert_eq!(once, vec![("a".to_string(), 1), ("b".to_string(), 3)]);
    assert_eq!(remaining_metadata(once.clone()), Some(once));
}

#[test]
fn test_estimate_tokens_from_tokenizer() {
    let tokenizer =
        TikToken::try_from_tokenizer(tiktoken_rs::tokenizer::Tokenizer::O200kBase).unwrap();
    let prompt = "hello {{world}}".to_string();
    let tokens = tokenizer.estimate(&vec![prompt], 0).unwrap();
    assert_eq!(tokens, 4);
    assert!(TikToken::try_from_model("gpt-4-0314").is_ok());
    assert!(TikToken::try_from_model("no-such-model-xyz").is_err());
    assert_eq!(total_tokens(&vec![1, 2, 3], 4), Some(10));
    assert_eq!(total_tokens(&vec![usize::MAX], 1), None);
}

#[test]
fn estimate_adds_the_counts_of_every_text() {
    let tokenizer = TikToken::try_from_model("gpt-4o").unwrap();
    let one = tokenizer.estimate(&vec!["hello {{world}}".to_string()], 0).unwrap();
    let two = tokenizer
        .estimate(&vec!["hello {{world}}".to_string(), "hello {{world}}".to_string()], 3)
        .unwrap();
    assert_eq!(one, 4);
    assert_eq!(two, 11);
    assert_eq!(tokenizer.estimate(&vec![], 7), Ok(7));
}

#[test]
fn retrieve_sql_with_and_without_filter() {
    let pgv = store();
    assert_eq!(
        pgv.retrieve_sql(None).unwrap(),
        "SELECT id, chunk FROM swiftide_pgv_store ORDER BY vector_combined <=> $1 LIMIT $2"
    );
    assert_eq!(
        pgv.retrieve_sql(Some("category = \"A\"")).unwrap(),
        "SELECT id, chunk FROM swiftide_pgv_store WHERE meta_category->>'category' = 'A' ORDER BY vector_combined <=> $1 LIMIT $2"
    );
    assert_eq!(pgv.retrieve_sql(Some("a = b = c")), Err(PgVectorError::InvalidFilter));
    assert_eq!(pgv.retrieve_sql(Some("no filter")), Err(PgVectorError::InvalidFilter));
    assert_eq!(swiftide_integrations::pgvector::top_k_param(10), Some(10));
    assert_eq!(swiftide_integrations::pgvector::top_k_param(usize::MAX), None);
}

#[test]
fn langfuse_settings_fall_back_and_require_both_keys() {
    let s = langfuse_settings(
        None,
        Some("pk-init".to_string()),
        Some("sk".to_string()),
        Some("sk-init".to_string()),
        None,
    )
    .expect("settings");
    assert_eq!(s.public_key, "pk-init");
    assert_eq!(s.secret_key, "sk");
    assert_eq!(s.base_url, "http://localhost:3000");

    let s = langfuse_settings(
        Some("pk".to_string()),
        None,
        Some("sk".to_string()),
        None,
        Some("https://cloud.langfuse.com".to_string()),
    )
    .expect("settings");
    assert_eq!(s.base_url, "https://cloud.langfuse.com");

    assert!(langfuse_settings(Some(String::new()), Some("pk".to_string()), Some("sk".to_string()), None, None).is_none());
    assert!(langfuse_settings(Some("pk".to_string()), None, None, None, None).is_none());
}

#[test]
fn qwen_options_builder_and_default_options() {
    let options = QwenOptions::builder()
        .prompt_model("qwen-max")
        .dimensions(512)
        .build();
    assert_eq!(options.prompt_model.as_deref(), Some("qwen-max"));
    assert!(options.embed_model.is_none());
    assert_eq!(options.dimensions, 512);

    let qwen = Qwen::builder().default_options(options).build();
    assert_eq!(qwen.default_options.prompt_model.as_deref(), Some("qwen-max"));
    assert_eq!(qwen.default_options.dimensions, 512);

    let empty = QwenOptions::builder().build();
    assert_eq!(empty.dimensions, 0);
    assert!(empty.prompt_model.is_none());
}

#[test]
fn local_hosts_from_parsed_urls() {
    assert!(is_local_host(&Some(Some(UrlHost::Ipv4(10, 0, 0, 1)))));
    assert!(is_local_host(&Some(Some(UrlHost::Ipv4(172, 31, 0, 1)))));
    assert!(!is_local_host(&Some(Some(UrlHost::Ipv4(172, 32, 0, 1)))));
    assert!(is_local_host(&Some(Some(UrlHost::Ipv6(0, 0, 0, 0, 0, 0, 0, 1)))));
    assert!(!is_local_host(&Some(Some(UrlHost::Ipv6(0, 0, 0, 0, 0, 0, 1, 1)))));
    assert!(is_local_host(&Some(Some(UrlHost::Domain("api.localhost".to_string())))));
    assert!(!is_local_host(&Some(Some(UrlHost::Domain("example.com".to_string())))));
    assert!(!is_local_host(&Some(None)));
    assert!(!is_local_host(&None));
}

#[test]
fn qwen_config_prefers_qwen_key() {
    let c = QwenConfig::with_api_keys(Some("q".to_string()), Some("d".to_string()));
    assert_eq!(c.api_key(), "q");
    assert_eq!(c.api_base(), "https://dashscope.aliyuncs.com/compatible-mode/v1");
    let c = QwenConfig::with_api_keys(None, Some("d".to_string()));
    assert_eq!(c.api_key(), "d");
    let c = QwenConfig::with_api_keys(None, None);
    assert_eq!(c.api_key(), "");
    assert_eq!(c.authorization(), "Bearer ");
}

#[test]
fn qwen_config_urls_and_header() {
    let c = QwenConfig::with_api_keys(Some("sk-9".to_string()), None);
    assert_eq!(
        c.url("/chat/completions"),
        "https://dashscope.aliyuncs.com/compatible-mode/v1/chat/completions"
    );
    assert_eq!(c.authorization(), "Bearer sk-9");
}

fn text(s: &str) -> JsonValue {
    JsonValue::Str(s.to_string())
}

#[test]
fn generation_span_becomes_observation() {
    let span = SpanData {
        observation_id: "obs-1".to_string(),
        name: "prompt".to_string(),
        start_time: "2024-01-01T00:00:00Z".to_string(),
        level: ObservationLevel::Default,
        metadata: vec![
            ("otel.name".to_string(), text("complete")),
            ("langfuse.type".to_string(), text("GENERATION")),
            ("langfuse.input".to_string(), JsonValue::Array(vec![text("hello")])),
            ("langfuse.model".to_string(), text("gpt-4o")),
            ("user".to_string(), text("u-1")),
            ("langfuse.output".to_string(), JsonValue::Number("3".to_string())),
        ],
        parent_span_id: None,
    };
    let body = observation_create_from("trace-1", "obs-1", span, Some("parent".to_string()));
    assert_eq!(body.id, "obs-1");
    assert_eq!(body.trace_id, "trace-1");
    assert_eq!(body.observation_type, ObservationType::Generation);
    assert_eq!(body.name, Some("complete".to_string()));
    assert_eq!(body.start_time, Some("2024-01-01T00:00:00Z".to_string()));
    assert_eq!(body.level, Some(ObservationLevel::Default));
    assert_eq!(body.parent_observation_id, Some("parent".to_string()));
    assert_eq!(body.input, Some(JsonValue::Array(vec![text("hello")])));
    assert_eq!(body.output, Some(JsonValue::Number("3".to_string())));
    assert_eq!(body.model, Some("gpt-4o".to_string()));
    assert_eq!(body.version, None);
    assert_eq!(body.usage, None);
    assert_eq!(
        body.metadata,
        Some(vec![
            ("otel.name".to_string(), text("complete")),
            ("user".to_string(), text("u-1")),
        ])
    );
}

#[test]
fn plain_span_keeps_its_own_name_and_start() {
    let span = SpanData {
        observation_id: "obs-2".to_string(),
        name: "load".to_string(),
        start_time: "t0".to_string(),
        level: ObservationLevel::Debug,
        metadata: vec![
            ("langfuse.type".to_string(), text("SOMETHING")),
            ("otel.name".to_string(), JsonValue::Bool(true)),
            ("langfuse.start_time".to_string(), text("t1")),
        ],
        parent_span_id: Some(4),
    };
    let body = observation_create_from("trace-1", "obs-2", span, None);
    assert_eq!(body.observation_type, ObservationType::Span);
    assert_eq!(body.name, Some("load".to_string()));
    assert_eq!(body.start_time, Some("t1".to_string()));
    assert_eq!(body.metadata, Some(vec![("otel.name".to_string(), JsonValue::Bool(true))]));
    assert_eq!(body.parent_observation_id, None);
}

#[test]
fn recorded_fields_become_an_update() {
    let fields = vec![
        ("langfuse.usage".to_string(), JsonValue::Object(vec![(
            "total_tokens".to_string(),
            JsonValue::Number("8".to_string()),
        )])),
        ("langfuse.status_message".to_string(), text("ok")),
        ("langfuse.environment".to_string(), text("prod")),
        ("langfuse.version".to_string(), text("2")),
        ("langfuse.model_parameters".to_string(), JsonValue::Object(vec![])),
    ];
    let body = observation_update_from("trace-9", "obs-9", ObservationType::Event, fields);
    assert_eq!(body.observation_type, ObservationType::Event);
    assert_eq!(body.name, None);
    assert_eq!(body.level, None);
    assert_eq!(body.metadata, None);
    assert_eq!(body.status_message, Some("ok".to_string()));
    assert_eq!(body.environment, Some("prod".to_string()));
    assert_eq!(body.version, Some("2".to_string()));
    assert_eq!(body.model_parameters, Some(JsonValue::Object(vec![])));
    assert_eq!(
        body.usage,
        Some(JsonValue::Object(vec![(
            "total_tokens".to_string(),
            JsonValue::Number("8".to_string()),
        )]))
    );
    assert_eq!(
        observation_type_of(&vec![("langfuse.type".to_string(), text("EVENT"))]),
        ObservationType::Event
    );
    assert_eq!(observation_type_of(&vec![]), ObservationType::Span);
}

#[test]
fn span_tracker_follows_the_last_change() {
    let mut tracker = SpanTracker::new();
    tracker.add_span(1, "a".to_string(), ObservationType::Span);
    tracker.add_span(2, "b".to_string(), ObservationType::Event);
    tracker.remove_span(1);
    assert_eq!(tracker.get_span(1), None);
    tracker.add_span(1, "c".to_string(), ObservationType::Generation);
    assert_eq!(tracker.get_span(1), Some(&("c".to_string(), ObservationType::Generation)));
    assert_eq!(tracker.get_span(2), Some(&("b".to_string(), ObservationType::Event)));
    assert_eq!(tracker.get_span(3), None);
}
