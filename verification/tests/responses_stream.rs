use swiftide_integrations::chat::ToolCall;
use swiftide_integrations::chat_completion::SnapshotKind;
use swiftide_integrations::provider_error::{ClientFailure, LanguageModelError};
use swiftide_integrations::responses_output::{
    collect_message_text_from_items, collect_message_text_from_message,
    collect_reasoning_items_from_items, collect_tool_calls_from_items, convert_usage,
    function_call_identifier, metadata_to_chat_completion, tool_call_from_function_call,
    usage_from_counts, AdapterStep, CompletionResponse, ContentPart, FunctionCallItem,
    MessagePart, OutputItem, Polled, ReasoningItem, ReasoningStatus, ResponseFailure,
    ResponseMetadata, ResponseUpdate, ResponsesStreamAdapter, ResponsesStreamState,
    ResponsesUsage, StreamEvent, Usage, response_to_chat_completion, Response, ResponseStatus,
};

fn output_message(parts: &[&str]) -> OutputItem {
    OutputItem::Message(
        parts
            .iter()
            .map(|t| MessagePart::OutputText((*t).to_string()))
            .collect(),
    )
}

fn function_call(id: Option<&str>, call_id: &str, name: &str, arguments: &str) -> FunctionCallItem {
    FunctionCallItem {
        call_id: call_id.to_string(),
        id: id.map(str::to_string),
        name: name.to_string(),
        arguments: arguments.to_string(),
    }
}

fn reasoning(id: &str, summary: &[&str]) -> ReasoningItem {
    ReasoningItem {
        id: id.to_string(),
        summary: summary.iter().map(|s| (*s).to_string()).collect(),
        content: None,
        status: None,
        encrypted_content: None,
    }
}

fn sample_usage() -> ResponsesUsage {
    ResponsesUsage {
        input_tokens: 5,
        output_tokens: 3,
        total_tokens: 8,
    }
}

fn completed(output: Vec<OutputItem>) -> StreamEvent {
    StreamEvent::Completed(ResponseMetadata {
        usage: Some(sample_usage()),
        output,
    })
}

fn error_text(e: &LanguageModelError) -> String {
    match e {
        LanguageModelError::ContextLengthExceeded(s)
        | LanguageModelError::PermanentError(s)
        | LanguageModelError::TransientError(s) => s.clone(),
    }
}

#[test]
fn test_tool_call_from_function_call_uses_id_when_call_id_missing() {
    let function_call = function_call(Some("call_456"), "", "lookup", "");

    let tool_call = tool_call_from_function_call(&function_call);
    assert_eq!(tool_call.id, "call_456");
    assert_eq!(tool_call.name, "lookup");
    assert!(tool_call.args.is_none());
}

#[test]
fn test_collect_message_text_helpers_join_parts() {
    let output = vec![
        output_message(&["First", "Second"]),
        OutputItem::FunctionCall(function_call(None, "call", "noop", "{}")),
        output_message(&["Third"]),
    ];

    let collected = collect_message_text_from_items(&output).expect("text present");
    assert_eq!(collected, "First\nSecond\nThird");

    let parts = vec![
        MessagePart::OutputText("Line one".to_string()),
        MessagePart::OutputText("Line two".to_string()),
    ];
    let collected_message =
        collect_message_text_from_message(&parts).expect("message text present");
    assert_eq!(collected_message, "Line one\nLine two");
}

fn response_with_message_tool_reasoning(message: &str) -> ResponseMetadata {
    ResponseMetadata {
        usage: Some(sample_usage()),
        output: vec![
            output_message(&[message]),
            OutputItem::FunctionCall(function_call(
                Some("call"),
                "call",
                "metadata_tool",
                "{\"ok\":true}",
            )),
            OutputItem::Reasoning(reasoning("reasoning_meta", &["metadata summary"])),
        ],
    }
}

#[test]
fn test_metadata_to_chat_completion_respects_existing_fields() {
    let metadata = response_with_message_tool_reasoning("metadata message");

    let mut empty = CompletionResponse::empty();
    metadata_to_chat_completion(&metadata, &mut empty);
    assert_eq!(empty.message.as_deref(), Some("metadata message"));
    assert!(empty.tool_calls.is_some());
    assert!(empty.reasoning.is_some());
    assert!(empty.usage.is_some());

    let existing_tool = ToolCall {
        id: "existing".to_string(),
        name: "existing_tool".to_string(),
        args: Some("{\"keep\":true}".to_string()),
    };
    let existing_reasoning = reasoning("existing_reasoning", &["keep"]);
    let existing_usage = Usage {
        prompt_tokens: 1,
        completion_tokens: 1,
        total_tokens: 2,
    };

    let mut existing = CompletionResponse {
        message: Some("existing message".to_string()),
        tool_calls: Some(vec![existing_tool]),
        usage: Some(existing_usage),
        reasoning: Some(vec![existing_reasoning]),
    };

    metadata_to_chat_completion(&metadata, &mut existing);
    assert_eq!(existing.message.as_deref(), Some("existing message"));
    assert_eq!(
        existing
            .tool_calls
            .as_ref()
            .and_then(|calls| calls.first())
            .map(|c| c.id.as_str()),
        Some("existing")
    );
    assert_eq!(
        existing
            .reasoning
            .as_ref()
            .and_then(|items| items.first())
            .map(|item| item.id.as_str()),
        Some("existing_reasoning")
    );
    assert_eq!(
        existing.usage.as_ref().map(|usage| usage.total_tokens),
        Some(sample_usage().total_tokens)
    );
}

#[test]
fn test_stream_state_take_final_only_once() {
    let mut state = ResponsesStreamState::new();
    assert!(state.take_final());
    assert!(!state.take_final());
}

#[test]
fn test_stream_state_ignores_events_after_completion() {
    let mut state = ResponsesStreamState::new();

    let finished = state.apply_event(completed(vec![])).unwrap();
    assert!(matches!(finished, Some(ResponseUpdate::Finish(_))));
    assert!(state.is_finished());

    let ignored = state
        .apply_event(StreamEvent::OutputTextDelta("ignored".to_string()))
        .unwrap();
    assert!(ignored.is_none(), "expected no emission");
}

#[test]
fn test_stream_state_message_item_added_collects_text() {
    let mut state = ResponsesStreamState::new();

    let chunk = state
        .apply_event(
            StreamEvent::OutputItemAdded {
                output_index: 0,
                item: output_message(&["Hello", "World"]),
            },
        )
        .unwrap()
        .expect("expected emission");

    match chunk {
        ResponseUpdate::MessageDelta(text) => assert_eq!(text, "Hello\nWorld"),
        _ => panic!("expected a message delta"),
    }
}

#[test]
fn test_stream_state_duplicate_arguments_done_no_emit() {
    let mut state = ResponsesStreamState::new();

    let added = state
        .apply_event(
            StreamEvent::OutputItemAdded {
                output_index: 0,
                item: OutputItem::FunctionCall(function_call(Some("call"), "call", "lookup", "")),
            },
        )
        .unwrap();
    assert!(added.is_some(), "expected emission");

    let delta = state
        .apply_event(
            StreamEvent::FunctionCallArgumentsDelta {
                output_index: 0,
                delta: "{\"q\":1}".to_string(),
            },
        )
        .unwrap();
    assert!(delta.is_some(), "expected emission");

    let done = state
        .apply_event(
            StreamEvent::FunctionCallArgumentsDone {
                output_index: 0,
                name: Some(String::new()),
                arguments: "{\"q\":1}".to_string(),
            },
        )
        .unwrap();
    assert!(done.is_none(), "expected no emission");
}

#[test]
fn test_stream_state_response_failed_and_error() {
    let mut state = ResponsesStreamState::new();
    let err = state
        .apply_event(
            StreamEvent::Failed(Some(ResponseFailure {
                code: "oops".to_string(),
                message: "boom".to_string(),
            })),
        )
        .unwrap_err();
    assert!(matches!(err, LanguageModelError::PermanentError(ref msg) if msg.contains("oops")));

    let mut state = ResponsesStreamState::new();
    let err = state
        .apply_event(StreamEvent::Error("bad things".to_string()))
        .unwrap_err();
    assert!(
        matches!(err, LanguageModelError::PermanentError(ref msg) if msg.contains("bad things"))
    );
}

#[test]
fn stream_failure_text_joins_code_and_message() {
    let mut state = ResponsesStreamState::new();
    let err = state
        .apply_event(
            StreamEvent::Failed(Some(ResponseFailure {
                code: "oops".to_string(),
                message: "boom".to_string(),
            })),
        )
        .unwrap_err();
    assert_eq!(error_text(&err), "oops: boom");
    assert!(state.is_finished());

    let mut state = ResponsesStreamState::new();
    let err = state.apply_event(StreamEvent::Failed(None)).unwrap_err();
    assert_eq!(error_text(&err), "Responses API stream failed");
}

#[test]
fn stream_function_call_events_give_tool_call_updates() {
    let mut state = ResponsesStreamState::new();

    let added = state
        .apply_event(
            StreamEvent::OutputItemAdded {
                output_index: 2,
                item: OutputItem::FunctionCall(function_call(Some("call"), "call", "lookup", "")),
            },
        )
        .unwrap();
    match added {
        Some(ResponseUpdate::ToolCallDelta { index, id, name, arguments }) => {
            assert_eq!(index, 2);
            assert_eq!(id.as_deref(), Some("call"));
            assert_eq!(name.as_deref(), Some("lookup"));
            assert!(arguments.is_none());
        }
        _ => panic!("expected a tool call delta"),
    }

    let done = state
        .apply_event(
            StreamEvent::OutputItemDone {
                output_index: 0,
                item: OutputItem::FunctionCall(function_call(Some("call-id"), "", "lookup", "")),
            },
        )
        .unwrap();
    match done {
        Some(ResponseUpdate::ToolCallDelta { index, id, name, arguments }) => {
            assert_eq!(index, 0);
            assert_eq!(id.as_deref(), Some("call-id"));
            assert_eq!(name.as_deref(), Some("lookup"));
            assert!(arguments.is_none());
        }
        _ => panic!("expected a tool call delta"),
    }

    let args_delta = state
        .apply_event(StreamEvent::FunctionCallArgumentsDelta {
            output_index: 0,
            delta: "{\"q\":\"rust\"}".to_string(),
        })
        .unwrap();
    assert!(args_delta.is_some());

    let args_done = state
        .apply_event(
            StreamEvent::FunctionCallArgumentsDone {
                output_index: 0,
                name: Some("lookup".to_string()),
                arguments: "{\"q\":\"rust\"}".to_string(),
            },
        )
        .unwrap();
    match args_done {
        Some(ResponseUpdate::ToolCallDelta { index, id, name, arguments }) => {
            assert_eq!(index, 0);
            assert!(id.is_none());
            assert_eq!(name.as_deref(), Some("lookup"));
            assert!(arguments.is_none());
        }
        _ => panic!("expected a tool call delta"),
    }

    let new_args = state
        .apply_event(
            StreamEvent::FunctionCallArgumentsDone {
                output_index: 1,
                name: None,
                arguments: "{}".to_string(),
            },
        )
        .unwrap();
    match new_args {
        Some(ResponseUpdate::ToolCallDelta { arguments, name, .. }) => {
            assert_eq!(arguments.as_deref(), Some("{}"));
            assert!(name.is_none());
        }
        _ => panic!("expected a tool call delta"),
    }
}

#[test]
fn stream_text_events_and_other_parts() {
    let mut state = ResponsesStreamState::new();
    let delta = state
        .apply_event(StreamEvent::OutputTextDelta("Hello".to_string()))
        .unwrap();
    assert!(matches!(delta, Some(ResponseUpdate::MessageDelta(ref t)) if t == "Hello"));

    let part = state
        .apply_event(
            StreamEvent::ContentPartAdded(ContentPart::OutputText("!".to_string())),
        )
        .unwrap();
    assert!(matches!(part, Some(ResponseUpdate::MessageDelta(ref t)) if t == "!"));

    let other = state
        .apply_event(StreamEvent::ContentPartAdded(ContentPart::Other))
        .unwrap();
    assert!(other.is_none());

    let empty_message = state
        .apply_event(
            StreamEvent::OutputItemAdded {
                output_index: 0,
                item: OutputItem::Message(vec![MessagePart::Refusal("no".to_string())]),
            },
        )
        .unwrap();
    assert!(empty_message.is_none());
    assert!(!state.is_finished());

    let incomplete = state
        .apply_event(
            StreamEvent::Incomplete(ResponseMetadata {
                usage: None,
                output: vec![],
            }),
        )
        .unwrap();
    assert!(matches!(incomplete, Some(ResponseUpdate::Finish(_))));
    assert!(state.is_finished());
    assert!(!state.take_final());
}

#[test]
fn message_text_skips_refusals_and_empty_parts() {
    let parts = vec![
        MessagePart::OutputText(String::new()),
        MessagePart::Refusal("refused".to_string()),
        MessagePart::OutputText("a".to_string()),
        MessagePart::OutputText(String::new()),
    ];
    assert_eq!(
        collect_message_text_from_message(&parts).as_deref(),
        Some("a\n")
    );
    assert!(collect_message_text_from_message(&[MessagePart::Refusal("x".to_string())]).is_none());
    assert!(collect_message_text_from_items(&[OutputItem::Other]).is_none());
}

#[test]
fn function_call_identifier_prefers_call_id() {
    let with_call_id = function_call(Some("item"), "call_1", "f", "");
    assert_eq!(function_call_identifier(&with_call_id), "call_1");
    let without_any = function_call(None, "", "f", "");
    assert_eq!(function_call_identifier(&without_any), "");
    let tool_call = tool_call_from_function_call(&function_call(None, "c", "f", "{\"a\":1}"));
    assert_eq!(tool_call.args.as_deref(), Some("{\"a\":1}"));
}

#[test]
fn collected_tool_calls_and_reasoning_keep_order() {
    let output = vec![
        OutputItem::FunctionCall(function_call(None, "a", "first", "")),
        OutputItem::Reasoning(ReasoningItem {
            id: "r1".to_string(),
            summary: vec!["s".to_string()],
            content: Some(vec!["c".to_string()]),
            status: Some(ReasoningStatus::Completed),
            encrypted_content: Some("enc".to_string()),
        }),
        output_message(&["text"]),
        OutputItem::FunctionCall(function_call(Some("b-item"), "", "second", "{}")),
    ];
    let calls = collect_tool_calls_from_items(&output);
    assert_eq!(calls.len(), 2);
    assert_eq!(calls[0].id, "a");
    assert_eq!(calls[0].name, "first");
    assert_eq!(calls[1].id, "b-item");
    assert_eq!(calls[1].args.as_deref(), Some("{}"));

    let items = collect_reasoning_items_from_items(&output);
    assert_eq!(items.len(), 1);
    assert_eq!(items[0].id, "r1");
    assert_eq!(items[0].summary, vec!["s".to_string()]);
    assert_eq!(items[0].content, Some(vec!["c".to_string()]));
    assert!(items[0].status == Some(ReasoningStatus::Completed));
    assert_eq!(items[0].encrypted_content.as_deref(), Some("enc"));
}

#[test]
fn usage_maps_input_and_output_tokens() {
    let usage = convert_usage(&sample_usage());
    assert_eq!(usage.prompt_tokens, 5);
    assert_eq!(usage.completion_tokens, 3);
    assert_eq!(usage.total_tokens, 8);
    let u = usage_from_counts(1, 2, 3);
    assert_eq!((u.prompt_tokens, u.completion_tokens, u.total_tokens), (1, 2, 3));
}

#[test]
fn adapter_ends_after_completion_and_failures() {
    let mut adapter = ResponsesStreamAdapter::new(false);
    assert!(matches!(
        adapter.on_poll(Polled::Event(StreamEvent::Other)),
        AdapterStep::Continue
    ));
    assert!(matches!(
        adapter.on_poll(Polled::Event(StreamEvent::OutputTextDelta("x".to_string()))),
        AdapterStep::Item(ResponseUpdate::MessageDelta(_), SnapshotKind::DeltaOnly)
    ));
    assert!(matches!(
        adapter.on_poll(Polled::Event(completed(vec![]))),
        AdapterStep::Item(ResponseUpdate::Finish(_), SnapshotKind::Final)
    ));
    assert!(matches!(adapter.on_poll(Polled::Ended), AdapterStep::Done));

    let mut adapter = ResponsesStreamAdapter::new(true);
    assert!(matches!(adapter.on_poll(Polled::Ended), AdapterStep::FinalItem));
    assert!(matches!(adapter.on_poll(Polled::Ended), AdapterStep::Done));

    let mut adapter = ResponsesStreamAdapter::new(true);
    let step = adapter.on_poll(
        Polled::Failed(ClientFailure::Network {
            description: "connection reset".to_string(),
        }),
    );
    match step {
        AdapterStep::Failure(LanguageModelError::TransientError(msg)) => {
            assert_eq!(msg, "connection reset")
        }
        _ => panic!("expected a transient failure"),
    }
    assert!(matches!(
        adapter.on_poll(Polled::Event(StreamEvent::Other)),
        AdapterStep::Done
    ));
}

fn completed_response(output: Vec<OutputItem>) -> Response {
    Response {
        status: ResponseStatus::Completed,
        error: None,
        metadata: ResponseMetadata {
            usage: Some(sample_usage()),
            output,
        },
    }
}

#[test]
fn test_response_to_chat_completion_maps_outputs() {
    let response = completed_response(vec![
        output_message(&["Assistant reply"]),
        OutputItem::FunctionCall(function_call(Some("tool"), "tool", "get_weather", "{\"city\":\"Oslo\"}")),
    ]);

    let completion = response_to_chat_completion(&response, None).unwrap();
    assert_eq!(completion.message.as_deref(), Some("Assistant reply"));

    let tool_calls = completion.tool_calls.expect("tool calls present");
    assert_eq!(tool_calls.len(), 1);
    assert_eq!(tool_calls[0].name, "get_weather");
    assert_eq!(tool_calls[0].args.as_deref(), Some("{\"city\":\"Oslo\"}"));

    let usage = completion.usage.expect("usage");
    assert_eq!(usage.prompt_tokens, 5);
    assert_eq!(usage.completion_tokens, 3);
    assert_eq!(usage.total_tokens, 8);
}

#[test]
fn test_response_to_chat_completion_collects_reasoning_summary_and_encrypted_content() {
    let response = completed_response(vec![OutputItem::Reasoning(ReasoningItem {
        id: "reasoning_1".to_string(),
        summary: vec!["First".to_string(), "Second".to_string()],
        content: None,
        status: None,
        encrypted_content: Some("encrypted".to_string()),
    })]);

    let completion = response_to_chat_completion(&response, None).unwrap();
    let reasoning = completion.reasoning.expect("reasoning items present");

    assert_eq!(reasoning.len(), 1);
    assert_eq!(reasoning[0].id, "reasoning_1");
    assert_eq!(
        reasoning[0].summary,
        vec!["First".to_string(), "Second".to_string()]
    );
    assert_eq!(reasoning[0].encrypted_content.as_deref(), Some("encrypted"));
}

#[test]
fn test_response_to_chat_completion_failed_status_errors() {
    let response = Response {
        status: ResponseStatus::Failed,
        error: Some(ResponseFailure {
            code: "oops".to_string(),
            message: "boom".to_string(),
        }),
        metadata: ResponseMetadata {
            usage: None,
            output: vec![],
        },
    };

    let err = response_to_chat_completion(&response, None).unwrap_err();
    assert!(matches!(err, LanguageModelError::PermanentError(ref msg) if msg.contains("oops")));
}

#[test]
fn response_output_text_wins_unless_empty() {
    let response = completed_response(vec![output_message(&["from items"])]);
    let c = response_to_chat_completion(&response, Some("reported".to_string())).unwrap();
    assert_eq!(c.message.as_deref(), Some("reported"));
    let c = response_to_chat_completion(&response, Some(String::new())).unwrap();
    assert_eq!(c.message.as_deref(), Some("from items"));
    assert!(c.tool_calls.is_none());
    assert!(c.reasoning.is_none());

    let failed = Response {
        status: ResponseStatus::Failed,
        error: None,
        metadata: ResponseMetadata { usage: None, output: vec![] },
    };
    let err = response_to_chat_completion(&failed, None).unwrap_err();
    assert_eq!(error_text(&err), "OpenAI Responses API returned failure");
}

#[test]
fn applying_metadata_twice_is_applying_it_once() {
    let metadata = response_with_message_tool_reasoning("metadata message");
    let mut once = CompletionResponse::empty();
    metadata_to_chat_completion(&metadata, &mut once);
    let mut twice = CompletionResponse::empty();
    metadata_to_chat_completion(&metadata, &mut twice);
    metadata_to_chat_completion(&metadata, &mut twice);
    assert_eq!(once.message, twice.message);
    assert_eq!(
        once.tool_calls.as_ref().map(|v| v.len()),
        twice.tool_calls.as_ref().map(|v| v.len())
    );
    assert_eq!(
        once.reasoning.as_ref().map(|v| v.len()),
        twice.reasoning.as_ref().map(|v| v.len())
    );
    assert_eq!(
        once.usage.map(|u| u.total_tokens),
        twice.usage.map(|u| u.total_tokens)
    );
}

#[test]
fn stream_state_gathers_arguments_per_call() {
    let mut state = ResponsesStreamState::new();
    for piece in ["{\"a\":", "1}"] {
        let update = state
            .apply_event(StreamEvent::FunctionCallArgumentsDelta {
                output_index: 3,
                delta: piece.to_string(),
            })
            .unwrap();
        assert!(update.is_some());
    }
    // The completed arguments equal what was gathered for call 3: nothing new to append.
    let same = state
        .apply_event(StreamEvent::FunctionCallArgumentsDone {
            output_index: 3,
            name: None,
            arguments: "{\"a\":1}".to_string(),
        })
        .unwrap();
    assert!(same.is_none());
    // Call 4 gathered nothing, so its completed arguments are appended.
    let other = state
        .apply_event(StreamEvent::FunctionCallArgumentsDone {
            output_index: 4,
            name: None,
            arguments: "{\"a\":1}".to_string(),
        })
        .unwrap();
    match other {
        Some(ResponseUpdate::ToolCallDelta { index, arguments, .. }) => {
            assert_eq!(index, 4);
            assert_eq!(arguments.as_deref(), Some("{\"a\":1}"));
        }
        _ => panic!("expected a tool call delta"),
    }
    // An added call that already carries arguments gathers them too.
    let added = state
        .apply_event(StreamEvent::OutputItemAdded {
            output_index: 5,
            item: OutputItem::FunctionCall(function_call(Some("c5"), "c5", "f", "{}")),
        })
        .unwrap();
    assert!(added.is_some());
    let done = state
        .apply_event(StreamEvent::FunctionCallArgumentsDone {
            output_index: 5,
            name: None,
            arguments: "{}".to_string(),
        })
        .unwrap();
    assert!(done.is_none());
}

#[test]
fn adapter_streams_full_snapshots_when_asked() {
    let mut adapter = ResponsesStreamAdapter::new(true);
    assert!(matches!(
        adapter.on_poll(Polled::Event(StreamEvent::OutputTextDelta("x".to_string()))),
        AdapterStep::Item(ResponseUpdate::MessageDelta(_), SnapshotKind::Full)
    ));
}
