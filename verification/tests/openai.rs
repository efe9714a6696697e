use swiftide_integrations::chat::{ChatMessage, ToolCall};
use swiftide_integrations::tool_schema::JsonValue;
use swiftide_integrations::options::{GenericOpenAIBuilder, Options, ReasoningEffort};
use swiftide_integrations::overflow::{
    last_textual, truncated_text, OverflowStep, TokenOverflowStrategy, TruncateLast,
};
use swiftide_integrations::provider_error::{
    classify_error, openai_error_to_language_model_error, parse_u16, status_from_code,
    ClientFailure, ErrorClassification, LanguageModelError, ProviderError, ProviderErrorBody,
    ProviderErrorMetadata, ProviderErrorResponse,
};
use swiftide_integrations::reasoning_effort::{
    ApiErrorInfo, ReasoningApi, ReasoningEffortCapabilities, ReasoningEffortMode,
};
use swiftide_integrations::responses::{
    convert_metadata, normalize_responses_function_call_id, SchemaPath,
};

fn error_text(e: &LanguageModelError) -> String {
    match e {
        LanguageModelError::ContextLengthExceeded(s)
        | LanguageModelError::PermanentError(s)
        | LanguageModelError::TransientError(s) => s.clone(),
    }
}

#[test]
fn test_default_embed_and_prompt_model() {
    let openai = GenericOpenAIBuilder::new()
        .default_embed_model("gpt-3")
        .default_prompt_model("gpt-4")
        .build();
    assert_eq!(
        openai.default_options.embed_model,
        Some("gpt-3".to_string())
    );
    assert_eq!(
        openai.default_options.prompt_model,
        Some("gpt-4".to_string())
    );

    let openai = GenericOpenAIBuilder::new()
        .default_prompt_model("gpt-4")
        .default_embed_model("gpt-3")
        .build();
    assert_eq!(
        openai.default_options.prompt_model,
        Some("gpt-4".to_string())
    );
    assert_eq!(
        openai.default_options.embed_model,
        Some("gpt-3".to_string())
    );
}

#[test]
fn test_use_responses_api_flag() {
    let openai = GenericOpenAIBuilder::new().use_responses_api(true).build();

    assert!(openai.is_responses_api_enabled());
}

#[test]
fn builder_defaults_and_end_user() {
    let openai = GenericOpenAIBuilder::new()
        .for_end_user("user-1")
        .parallel_tool_calls(Some(false))
        .build();
    assert!(openai.stream_full);
    assert!(!openai.is_responses_api_enabled());
    assert_eq!(openai.options().user, Some("user-1".to_string()));
    assert_eq!(openai.options().parallel_tool_calls, Some(false));
    assert_eq!(openai.options().prompt_model, None);
}

#[test]
fn default_options_merge_into_existing() {
    let extra = Options::builder()
        .temperature(1.0f32.to_bits())
        .user("MyUserId")
        .dimensions(64)
        .reasoning_effort(ReasoningEffort::Low)
        .build();
    let openai = GenericOpenAIBuilder::new()
        .default_prompt_model("gpt-4")
        .default_options(extra)
        .build();
    let options = openai.options();
    assert_eq!(options.prompt_model, Some("gpt-4".to_string()));
    assert_eq!(options.user, Some("MyUserId".to_string()));
    assert_eq!(options.temperature.map(f32::from_bits), Some(1.0));
    assert_eq!(options.reasoning_effort, Some(ReasoningEffort::Low));
    assert_eq!(options.dimensions, Some(64));
}

#[test]
fn merge_overrides_only_what_is_set() {
    let mut base = Options::builder().embed_model("a").seed(1).dimensions(3).build();
    let other = Options::builder().embed_model("b").max_completion_tokens(10).build();
    base.merge(&other);
    assert_eq!(base.embed_model, Some("b".to_string()));
    assert_eq!(base.seed, Some(1));
    assert_eq!(base.max_completion_tokens, Some(10));
    assert_eq!(base.dimensions, Some(3));
    base.merge(&Options::builder().dimensions(7).build());
    assert_eq!(base.dimensions, Some(7));
    let before = base.copy();
    base.merge(&Options::empty());
    assert_eq!(base.embed_model, before.embed_model);
    assert_eq!(base.seed, before.seed);
}

#[test]
fn with_default_models_replace_one_option() {
    let mut openai = GenericOpenAIBuilder::new().default_embed_model("e").build();
    openai.with_default_prompt_model("p");
    assert_eq!(openai.options().prompt_model, Some("p".to_string()));
    assert_eq!(openai.options().embed_model, Some("e".to_string()));
    openai.with_default_embed_model("e2");
    assert_eq!(openai.options().embed_model, Some("e2".to_string()));
}

fn api_failure(status: u16, error_type: &str, code: Option<&str>) -> ClientFailure {
    ClientFailure::Api {
        status,
        code: code.map(str::to_owned),
        error_type: Some(error_type.to_owned()),
        description: "provider message".to_owned(),
    }
}

fn body(message: &str, code: Option<&str>, api_type: Option<&str>, meta_type: Option<&str>) -> ProviderErrorBody {
    ProviderErrorBody {
        message: message.to_owned(),
        code: code.map(str::to_owned),
        api_type: api_type.map(str::to_owned),
        error_type: None,
        metadata: meta_type.map(|t| ProviderErrorMetadata {
            error_type: Some(t.to_owned()),
            provider_code: None,
        }),
    }
}

fn envelope_failure(response: ProviderErrorResponse, content: &str) -> ClientFailure {
    ClientFailure::JsonDeserialize {
        provider_error: ProviderError::from_response(response),
        description: format!(
            "failed to deserialize api response: error:EOF while parsing an object at line 1 column 1 content:{content}"
        ),
    }
}

#[test]
fn test_context_length_exceeded_error() {
    let failure = ClientFailure::Api {
        status: 400,
        code: Some("context_length_exceeded".to_string()),
        error_type: Some("invalid_request_error".to_string()),
        description: "This model's maximum context length is 8192 tokens".to_string(),
    };
    let result = openai_error_to_language_model_error(failure);
    match result {
        LanguageModelError::ContextLengthExceeded(_) => {}
        _ => panic!("Expected ContextLengthExceeded error, got {result:?}"),
    }
}

#[test]
fn test_api_error_permanent() {
    let failure = ClientFailure::Api {
        status: 401,
        code: Some("invalid_api_key".to_string()),
        error_type: Some("invalid_request_error".to_string()),
        description: "Invalid API key".to_string(),
    };
    let result = openai_error_to_language_model_error(failure);
    match result {
        LanguageModelError::PermanentError(_) => {}
        _ => panic!("Expected PermanentError, got {result:?}"),
    }
}

#[test]
fn test_file_save_error_is_permanent() {
    let result = openai_error_to_language_model_error(ClientFailure::FileSave {
        description: "Failed to save file".to_string(),
    });
    match result {
        LanguageModelError::PermanentError(_) => {}
        _ => panic!("Expected PermanentError, got {result:?}"),
    }
}

#[test]
fn test_file_read_error_is_permanent() {
    let result = openai_error_to_language_model_error(ClientFailure::FileRead {
        description: "Failed to read file".to_string(),
    });
    match result {
        LanguageModelError::PermanentError(_) => {}
        _ => panic!("Expected PermanentError, got {result:?}"),
    }
}

#[test]
fn test_stream_error_is_permanent() {
    let result = openai_error_to_language_model_error(ClientFailure::Stream {
        description: "Stream failed".to_string(),
    });
    match result {
        LanguageModelError::PermanentError(_) => {}
        _ => panic!("Expected PermanentError, got {result:?}"),
    }
}

#[test]
fn test_invalid_argument_is_permanent() {
    let result = openai_error_to_language_model_error(ClientFailure::InvalidArgument {
        description: "Invalid argument".to_string(),
    });
    match result {
        LanguageModelError::PermanentError(_) => {}
        _ => panic!("Expected PermanentError, got {result:?}"),
    }
}

#[test]
fn network_failures_are_transient() {
    let result = openai_error_to_language_model_error(ClientFailure::Network {
        description: "connection reset".to_string(),
    });
    assert_eq!(result, LanguageModelError::TransientError("connection reset".to_string()));
}

#[test]
fn numeric_code_provider_error_is_transient_and_preserves_details() {
    // {"error":{"message":"Service unavailable.","code":504,"metadata":{"error_type":"timeout"}}}
    let response = ProviderErrorResponse {
        error: Some(body("Service unavailable.", Some("504"), None, Some("timeout"))),
        choices: Vec::new(),
    };
    let result = openai_error_to_language_model_error(envelope_failure(response, ""));
    assert!(matches!(result, LanguageModelError::TransientError(_)));
    let message = error_text(&result);
    assert!(message.contains("Service unavailable."));
    assert!(message.contains("504"));
    assert!(message.contains("timeout"));
    assert!(!message.contains("missing field"));
    assert_eq!(
        message,
        "provider error: Service unavailable. (code: 504, type: timeout)"
    );
}

#[test]
fn string_rate_limit_code_is_transient() {
    // {"error":{"message":"Slow down","code":"429","metadata":{"error_type":"rate_limit_exceeded"}}}
    let response = ProviderErrorResponse {
        error: Some(body("Slow down", Some("429"), None, Some("rate_limit_exceeded"))),
        choices: Vec::new(),
    };
    assert!(matches!(
        openai_error_to_language_model_error(envelope_failure(response, "")),
        LanguageModelError::TransientError(_)
    ));
}

#[test]
fn partial_completion_provider_error_is_recognized() {
    // {"choices":[{"finish_reason":"error","error":{"message":"Provider disconnected","code":502,"metadata":{"error_type":"provider_unavailable"}}}]}
    let response = ProviderErrorResponse {
        error: None,
        choices: vec![Some(body(
            "Provider disconnected",
            Some("502"),
            None,
            Some("provider_unavailable"),
        ))],
    };
    let result = openai_error_to_language_model_error(envelope_failure(response, ""));
    assert!(matches!(result, LanguageModelError::TransientError(_)));
    assert!(error_text(&result).contains("Provider disconnected"));
}

#[test]
fn openai_quota_errors_are_permanent_even_with_rate_limit_status() {
    // {"error":{"message":"Buy credits","code":429,"type":"insufficient_quota"}}
    let response = ProviderErrorResponse {
        error: Some(body("Buy credits", Some("429"), Some("insufficient_quota"), None)),
        choices: Vec::new(),
    };
    for failure in [
        envelope_failure(response, ""),
        api_failure(429, "insufficient_quota", None),
    ] {
        assert!(matches!(
            openai_error_to_language_model_error(failure),
            LanguageModelError::PermanentError(_)
        ));
    }

    for code in [
        "credit_balance_exhausted",
        "organization_spend_limit_exceeded",
        "project_spend_limit_exceeded",
        "organization_usage_limit_exceeded",
    ] {
        let failure = api_failure(429, "billing_error", Some(code));
        assert!(matches!(
            openai_error_to_language_model_error(failure),
            LanguageModelError::PermanentError(_)
        ));
    }
}

#[test]
fn openrouter_availability_error_types_are_transient_without_status() {
    for error_type in [
        "rate_limit_exceeded",
        "provider_overloaded",
        "provider_unavailable",
        "server",
        "timeout",
    ] {
        // {"error":{"message":"Try again","metadata":{"error_type":"<error_type>"}}}
        let response = ProviderErrorResponse {
            error: Some(body("Try again", None, None, Some(error_type))),
            choices: Vec::new(),
        };
        assert!(matches!(
            openai_error_to_language_model_error(envelope_failure(response, "")),
            LanguageModelError::TransientError(_)
        ));
    }
}

#[test]
fn context_length_error_from_envelope_is_specialized() {
    // {"error":{"message":"Too long","code":"context_length_exceeded"}}
    let response = ProviderErrorResponse {
        error: Some(body("Too long", Some("context_length_exceeded"), None, None)),
        choices: Vec::new(),
    };
    assert!(matches!(
        openai_error_to_language_model_error(envelope_failure(response, "")),
        LanguageModelError::ContextLengthExceeded(_)
    ));
}

#[test]
fn exhausted_server_api_error_is_transient() {
    assert!(matches!(
        openai_error_to_language_model_error(api_failure(502, "api_error", None)),
        LanguageModelError::TransientError(_)
    ));
}

#[test]
fn non_retryable_http_errors_are_permanent() {
    for status in [401u16, 402, 403, 422] {
        assert!(matches!(
            openai_error_to_language_model_error(api_failure(status, "request_error", None)),
            LanguageModelError::PermanentError(_)
        ));
    }
}

#[test]
fn malformed_response_fallback_is_transient() {
    let content = "not a chat completion";
    let failure = ClientFailure::JsonDeserialize {
        provider_error: None,
        description: format!(
            "failed to deserialize api response: error:expected value at line 1 column 1 content:{content}"
        ),
    };
    let result = openai_error_to_language_model_error(failure);

    assert!(matches!(result, LanguageModelError::TransientError(_)));
    assert!(error_text(&result).contains(content));
}

#[test]
fn envelope_without_error_reports_nothing() {
    let response = ProviderErrorResponse { error: None, choices: vec![None, None] };
    assert!(ProviderError::from_response(response).is_none());
}

#[test]
fn envelope_error_type_precedence() {
    let mut b = body("m", Some("7"), Some("api_type"), None);
    b.error_type = Some("own_type".to_owned());
    let e = ProviderError::from_response(ProviderErrorResponse { error: Some(b), choices: vec![] })
        .unwrap();
    assert_eq!(e.error_type, Some("own_type".to_string()));
    assert_eq!(e.to_display_string(), "provider error: m (code: 7, type: own_type)");
    let plain = ProviderError {
        message: "x".into(),
        code: None,
        error_type: None,
        provider_code: None,
    };
    assert_eq!(plain.to_display_string(), "provider error: x");
}

#[test]
fn status_codes_parse_within_range() {
    assert_eq!(parse_u16("429"), Some(429));
    assert_eq!(parse_u16("+42"), Some(42));
    assert_eq!(parse_u16("70000"), None);
    assert_eq!(parse_u16("4x"), None);
    assert_eq!(status_from_code(&Some("504".to_string())), Some(504));
    assert_eq!(status_from_code(&Some("42".to_string())), None);
    assert_eq!(status_from_code(&None), None);
}

#[test]
fn classification_order() {
    let ids = vec![Some("insufficient_quota".to_string()), Some("context_length_exceeded".to_string())];
    assert_eq!(classify_error(Some(429), &ids), ErrorClassification::ContextLengthExceeded);
    assert_eq!(classify_error(Some(408), &vec![None]), ErrorClassification::Transient);
    assert_eq!(classify_error(Some(400), &vec![Some("TIMEOUT".to_string())]), ErrorClassification::Transient);
    assert_eq!(classify_error(None, &vec![]), ErrorClassification::Permanent);
}

fn rejection() -> Option<ApiErrorInfo> {
    Some(ApiErrorInfo {
        message: "Unrecognized request argument supplied: reasoning_effort".to_string(),
        param: Some("reasoning_effort".to_string()),
    })
}

#[test]
fn auto_mode_stops_sending_after_reasoning_effort_rejection() {
    let mut capabilities = ReasoningEffortCapabilities::new();

    assert!(capabilities.should_send(
        ReasoningEffortMode::Auto,
        true,
        ReasoningApi::ChatCompletions,
        "gpt-4.1"
    ));

    let error = rejection();

    assert!(capabilities.should_retry_without_reasoning_effort(
        ReasoningEffortMode::Auto,
        ReasoningApi::ChatCompletions,
        "gpt-4.1",
        &error,
    ));
    assert!(!capabilities.should_send(
        ReasoningEffortMode::Auto,
        true,
        ReasoningApi::ChatCompletions,
        "gpt-4.1"
    ));
}

#[test]
fn always_mode_does_not_downgrade_on_reasoning_effort_rejection() {
    let mut capabilities = ReasoningEffortCapabilities::new();

    let error = rejection();

    assert!(!capabilities.should_retry_without_reasoning_effort(
        ReasoningEffortMode::Always,
        ReasoningApi::ChatCompletions,
        "gpt-4.1",
        &error,
    ));
}

#[test]
fn rejection_by_message_and_other_apis() {
    let mut capabilities = ReasoningEffortCapabilities::new();
    let by_message = Some(ApiErrorInfo {
        message: "This model does NOT support Reasoning Effort".to_string(),
        param: None,
    });
    let unrelated = Some(ApiErrorInfo { message: "rate limited".to_string(), param: None });
    assert!(!capabilities.should_retry_without_reasoning_effort(
        ReasoningEffortMode::Auto,
        ReasoningApi::Responses,
        "o1",
        &unrelated,
    ));
    assert!(!capabilities.should_retry_without_reasoning_effort(
        ReasoningEffortMode::Auto,
        ReasoningApi::Responses,
        "o1",
        &None,
    ));
    assert!(capabilities.should_retry_without_reasoning_effort(
        ReasoningEffortMode::Auto,
        ReasoningApi::Responses,
        "o1",
        &by_message,
    ));
    assert!(!capabilities.should_send(ReasoningEffortMode::Auto, true, ReasoningApi::Responses, "o1"));
    // other API, other model, and the other modes are unaffected
    assert!(capabilities.should_send(ReasoningEffortMode::Auto, true, ReasoningApi::ChatCompletions, "o1"));
    assert!(capabilities.should_send(ReasoningEffortMode::Auto, true, ReasoningApi::Responses, "o3"));
    assert!(capabilities.should_send(ReasoningEffortMode::Always, true, ReasoningApi::Responses, "o1"));
    assert!(!capabilities.should_send(ReasoningEffortMode::Never, true, ReasoningApi::Responses, "o3"));
    assert!(!capabilities.should_send(ReasoningEffortMode::Auto, false, ReasoningApi::Responses, "o3"));
    assert_eq!(ReasoningEffortMode::default_mode(), ReasoningEffortMode::Auto);
}

#[test]
fn test_normalize_responses_function_call_id() {
    assert_eq!(
        normalize_responses_function_call_id("call_12345"),
        "fc_12345"
    );
    assert_eq!(normalize_responses_function_call_id("fc_abc"), "fc_abc");
    assert_eq!(normalize_responses_function_call_id("custom"), "custom");
}

#[test]
fn schema_paths_render_with_dots() {
    let root = SchemaPath::root();
    assert_eq!(root.to_display_string(), "$");
    let nested = root.with_key("properties").with_key("page_size").with_index("anyOf", 1);
    assert_eq!(nested.to_display_string(), "$.properties.page_size.anyOf.1");
}

fn estimate(messages: &[ChatMessage]) -> usize {
    messages
        .iter()
        .map(|m| match m.text() {
            Some(t) => (t.chars().count() + 3) / 4 + 4,
            None => 4,
        })
        .sum()
}

fn run(strategy: &TokenOverflowStrategy, messages: &mut Vec<ChatMessage>) -> Result<Option<u32>, LanguageModelError> {
    let mut run: TruncateLast = strategy.start();
    loop {
        let tokens = estimate(messages);
        match run.on_estimate(messages, Ok(tokens)) {
            OverflowStep::Fits => return Ok(strategy.enforced_completion_budget()),
            OverflowStep::Estimate => continue,
            OverflowStep::Failed(e) => return Err(e),
        }
    }
}

#[test]
fn truncates_last_message() {
    let mut messages = vec![
        ChatMessage::System("Keep".into()),
        ChatMessage::User("line1\nline2\nline3".into()),
    ];

    let strat = TokenOverflowStrategy::TruncateLast {
        max_total_tokens: 80,
        max_completion_tokens: 10,
    };

    let budget = run(&strat, &mut messages).unwrap();
    assert_eq!(budget, Some(10));

    let est = estimate(&messages);
    assert!(est + 10 <= 80);
}

#[test]
fn truncation_removes_lines_from_the_end() {
    let long_line = "x".repeat(40);
    let text = format!("{long_line}\n{long_line}\n{long_line}\n{long_line}");
    let mut messages = vec![
        ChatMessage::System("Keep".into()),
        ChatMessage::User(text),
        ChatMessage::ToolOutput(
            ToolCall { id: "1".into(), name: "noop".into(), args: None },
            Some("x".into()),
        ),
    ];
    let strat = TokenOverflowStrategy::TruncateLast { max_total_tokens: 40, max_completion_tokens: 10 };
    run(&strat, &mut messages).unwrap();
    assert_eq!(
        messages[1].text().unwrap(),
        &format!("{long_line}\n...more 3 lines")
    );
    assert_eq!(messages[0].text().unwrap(), "Keep");
    assert!(estimate(&messages) + 10 <= 40);
}

#[test]
fn errors_when_nothing_to_truncate() {
    let mut messages = vec![ChatMessage::ToolOutput(
        ToolCall { id: "1".into(), name: "noop".into(), args: Some("{}".into()) },
        Some("x".into()),
    )];

    let strat = TokenOverflowStrategy::TruncateLast {
        max_total_tokens: 1,
        max_completion_tokens: 1,
    };

    let err = run(&strat, &mut messages).unwrap_err();

    assert!(matches!(err, LanguageModelError::ContextLengthExceeded(_)));
    assert_eq!(error_text(&err), "No textual message available to truncate");
}

#[test]
fn truncation_gives_up_when_even_no_line_fits() {
    let mut messages = vec![ChatMessage::User("a\nb".into())];
    let strat = TokenOverflowStrategy::TruncateLast { max_total_tokens: 5, max_completion_tokens: 5 };
    let err = run(&strat, &mut messages).unwrap_err();
    assert_eq!(
        err,
        LanguageModelError::ContextLengthExceeded(
            "Unable to truncate last message to fit token budget".to_string()
        )
    );
    assert_eq!(messages[0].text().unwrap(), "...more 2 lines");
}

#[test]
fn estimate_failures_are_permanent() {
    let mut messages = vec![ChatMessage::User("hi".into())];
    let mut run = TruncateLast::new(10, 1);
    let step = run.on_estimate(&mut messages, Err("tokenizer down".into()));
    assert!(matches!(step, OverflowStep::Failed(LanguageModelError::PermanentError(ref s)) if s == "tokenizer down"));
    let mut run = TruncateLast::new(10, 1);
    let step = run.on_estimate(&mut messages, Ok(usize::MAX));
    assert!(matches!(step, OverflowStep::Failed(LanguageModelError::PermanentError(ref s)) if s == "token estimate overflow"));
}

#[test]
fn empty_last_message_cannot_be_truncated() {
    let mut messages = vec![ChatMessage::User("".into())];
    let mut run = TruncateLast::new(1, 1);
    let step = run.on_estimate(&mut messages, Ok(5));
    assert!(matches!(step, OverflowStep::Failed(LanguageModelError::ContextLengthExceeded(ref s)) if s == "Last textual message is empty"));
}

#[test]
fn truncated_text_and_last_textual() {
    let lines = vec![vec!['a'], vec!['b'], vec!['c']];
    assert_eq!(truncated_text(&lines, 1), "a\nb\n...more 1 lines");
    assert_eq!(truncated_text(&lines, 3), "...more 3 lines");
    let messages = vec![
        ChatMessage::User("u".into()),
        ChatMessage::Assistant(None, None),
    ];
    assert_eq!(last_textual(&messages), Some(0));
}

#[test]
fn test_convert_metadata_rejects_non_string_values() {
    let metadata = JsonValue::Object(vec![(
        "tag".to_string(),
        JsonValue::Number("123".to_string()),
    )]);
    assert!(convert_metadata(&metadata).is_none());
}

#[test]
fn convert_metadata_keeps_string_members() {
    let metadata = JsonValue::Object(vec![
        ("tag".to_string(), JsonValue::Str("a".to_string())),
        ("user".to_string(), JsonValue::Str("b".to_string())),
    ]);
    assert_eq!(
        convert_metadata(&metadata),
        Some(vec![
            ("tag".to_string(), "a".to_string()),
            ("user".to_string(), "b".to_string()),
        ])
    );
    assert_eq!(convert_metadata(&JsonValue::Object(vec![])), Some(vec![]));
    assert!(convert_metadata(&JsonValue::Str("x".to_string())).is_none());
    assert!(convert_metadata(&JsonValue::Null).is_none());
}

#[test]
fn request_defaults_take_the_default_options() {
    let options = Options::builder()
        .seed(7)
        .presence_penalty(0.4f32.to_bits())
        .temperature(0.1f32.to_bits())
        .user("u-1")
        .dimensions(256)
        .max_completion_tokens(100)
        .build();
    let openai = GenericOpenAIBuilder::new()
        .default_prompt_model("gpt-4.1")
        .default_options(options)
        .build();
    let chat = openai.chat_completion_request_defaults();
    assert_eq!(chat.seed, Some(7));
    assert_eq!(chat.presence_penalty.map(f32::from_bits), Some(0.4));
    assert_eq!(chat.temperature.map(f32::from_bits), Some(0.1));
    assert_eq!(chat.user.as_deref(), Some("u-1"));
    assert_eq!(chat.max_completion_tokens, Some(100));
    assert_eq!(chat.reasoning_effort, None);
    let embed = openai.embed_request_defaults();
    assert_eq!(embed.user.as_deref(), Some("u-1"));
    assert_eq!(embed.dimensions, Some(256));

    let responses = openai.base_request_args("gpt-4.1", None);
    assert_eq!(responses.model, "gpt-4.1");
    assert_eq!(responses.max_output_tokens, Some(100));
    assert!(responses.reasoning.is_none());
    assert!(!responses.include_encrypted_reasoning);
    assert_eq!(responses.store, None);
    assert_eq!(responses.metadata, None);
}

#[test]
fn responses_request_with_reasoning_is_stateless() {
    let openai = GenericOpenAIBuilder::new()
        .default_options(Options::builder().reasoning_effort(ReasoningEffort::High).build())
        .build();
    let metadata = JsonValue::Object(vec![("tag".to_string(), JsonValue::Str("a".to_string()))]);
    let args = openai.base_request_args("o3", Some(&metadata));
    let reasoning = args.reasoning.expect("reasoning set");
    assert_eq!(reasoning.effort, ReasoningEffort::High);
    assert!(reasoning.summary_auto);
    assert!(args.include_encrypted_reasoning);
    assert_eq!(args.store, Some(false));
    assert_eq!(args.metadata, Some(vec![("tag".to_string(), "a".to_string())]));
    let rejected = JsonValue::Object(vec![("tag".to_string(), JsonValue::Number("1".to_string()))]);
    assert_eq!(openai.base_request_args("o3", Some(&rejected)).metadata, None);
}

#[test]
fn test_base_request_args_runs_with_seed_and_presence_penalty() {
    let openai = GenericOpenAIBuilder::new()
        .default_prompt_model("gpt-4.1")
        .default_options(
            Options::builder()
                .seed(7)
                .presence_penalty(0.4f32.to_bits())
                .temperature(0.1f32.to_bits())
                .build(),
        )
        .build();

    let args = openai.base_request_args("gpt-4.1", None);
    assert_eq!(args.model, "gpt-4.1");
}
