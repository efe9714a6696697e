use swiftide_integrations::chat::{message_to_openai, ChatMessage, RequestMessage, ToolCall};

#[test]
fn text_messages_keep_their_role_and_text() {
    assert!(matches!(message_to_openai(&ChatMessage::User("hi".into())), RequestMessage::User(t) if t == "hi"));
    assert!(matches!(message_to_openai(&ChatMessage::System("sys".into())), RequestMessage::System(t) if t == "sys"));
    assert!(matches!(
        message_to_openai(&ChatMessage::Summary("so far".into())),
        RequestMessage::Assistant { content: Some(t), tool_calls: None } if t == "so far"
    ));
}

#[test]
fn assistant_tool_calls_carry_empty_arguments_when_missing() {
    let message = ChatMessage::Assistant(
        None,
        Some(vec![
            ToolCall { id: "call_1".into(), name: "lookup".into(), args: None },
            ToolCall { id: "call_2".into(), name: "search".into(), args: Some("{\"q\":1}".into()) },
        ]),
    );
    let RequestMessage::Assistant { content, tool_calls } = message_to_openai(&message) else {
        panic!("expected an assistant message");
    };
    assert!(content.is_none());
    let calls = tool_calls.expect("tool calls");
    assert_eq!(calls.len(), 2);
    assert_eq!(calls[0].id, "call_1");
    assert_eq!(calls[0].name, "lookup");
    assert_eq!(calls[0].arguments, "");
    assert_eq!(calls[1].arguments, "{\"q\":1}");

    let plain = message_to_openai(&ChatMessage::Assistant(Some("text".into()), None));
    assert!(matches!(plain, RequestMessage::Assistant { content: Some(t), tool_calls: None } if t == "text"));
}

#[test]
fn tool_outputs_answer_the_call_by_identifier() {
    let call = ToolCall { id: "call_9".into(), name: "noop".into(), args: None };
    let with_content = message_to_openai(&ChatMessage::ToolOutput(call, Some("done".into())));
    assert!(matches!(
        with_content,
        RequestMessage::Tool { tool_call_id, content: Some(c) } if tool_call_id == "call_9" && c == "done"
    ));
    let call = ToolCall { id: "call_9".into(), name: "noop".into(), args: None };
    let without = message_to_openai(&ChatMessage::ToolOutput(call, None));
    assert!(matches!(without, RequestMessage::Tool { content: None, .. }));
}

use swiftide_integrations::chat_completion::{
    answer_to_completion, chunk_updates, ChatAnswer, ChatChunk, ChatPolled, ChatStreamState,
    ChatStreamStep, ChoiceDelta, ChoiceMessage, ChoiceToolCall, CompletionUsage, ToolCallChunk,
};
use swiftide_integrations::provider_error::{ClientFailure, LanguageModelError};

#[test]
fn answer_keeps_first_choice_function_calls_and_usage() {
    let answer = ChatAnswer {
        first_choice: Some(ChoiceMessage {
            content: Some("hello".into()),
            tool_calls: Some(vec![
                ChoiceToolCall::Function { id: "c1".into(), name: "f".into(), arguments: "".into() },
                ChoiceToolCall::Custom,
                ChoiceToolCall::Function { id: "c2".into(), name: "g".into(), arguments: "{}".into() },
            ]),
        }),
        usage: Some(CompletionUsage { prompt_tokens: 3, completion_tokens: 4, total_tokens: 7 }),
    };
    let c = answer_to_completion(&answer);
    assert_eq!(c.message.as_deref(), Some("hello"));
    let calls = c.tool_calls.expect("tool calls");
    assert_eq!(calls.len(), 2);
    assert_eq!(calls[0].id, "c1");
    assert_eq!(calls[0].args.as_deref(), Some(""));
    assert_eq!(calls[1].name, "g");
    assert_eq!(c.usage.map(|u| u.total_tokens), Some(7));
    assert!(c.reasoning.is_none());

    let empty = answer_to_completion(&ChatAnswer { first_choice: None, usage: None });
    assert!(empty.message.is_none() && empty.tool_calls.is_none() && empty.usage.is_none());
}

#[test]
fn chunks_give_message_tool_call_and_usage_updates() {
    let chunk = ChatChunk {
        first_choice: Some(ChoiceDelta {
            content: Some("Hel".into()),
            tool_calls: Some(vec![ToolCallChunk {
                index: 1,
                id: Some("call".into()),
                name: Some("lookup".into()),
                arguments: Some("{\"q".into()),
            }]),
        }),
        usage: Some(CompletionUsage { prompt_tokens: 1, completion_tokens: 2, total_tokens: 3 }),
    };
    let u = chunk_updates(&chunk);
    assert_eq!(u.message.as_deref(), Some("Hel"));
    assert_eq!(u.tool_calls.len(), 1);
    assert_eq!(u.tool_calls[0].index, 1);
    assert_eq!(u.tool_calls[0].id.as_deref(), Some("call"));
    assert_eq!(u.tool_calls[0].arguments.as_deref(), Some("{\"q"));
    assert_eq!(u.usage.map(|x| x.completion_tokens), Some(2));
}

#[test]
fn chat_stream_ends_after_failure_or_end() {
    let mut state = ChatStreamState::new(true);
    let step = state.on_poll(ChatPolled::Chunk(ChatChunk { first_choice: None, usage: None }));
    assert!(matches!(step, ChatStreamStep::Item(ref u, SnapshotKind::Full) if u.message.is_none() && u.tool_calls.is_empty()));
    assert!(matches!(state.on_poll(ChatPolled::Ended), ChatStreamStep::Final));
    assert!(state.is_finished());
    assert!(matches!(state.on_poll(ChatPolled::Ended), ChatStreamStep::Done));

    let mut state = ChatStreamState::new(false);
    let step = state.on_poll(ChatPolled::Chunk(ChatChunk { first_choice: None, usage: None }));
    assert!(matches!(step, ChatStreamStep::Item(_, SnapshotKind::DeltaOnly)));
    let step = state.on_poll(ChatPolled::Failed(ClientFailure::Network { description: "reset".into() }));
    assert!(matches!(step, ChatStreamStep::Failure(LanguageModelError::TransientError(ref m)) if m == "reset"));
    assert!(matches!(
        state.on_poll(ChatPolled::Chunk(ChatChunk { first_choice: None, usage: None })),
        ChatStreamStep::Done
    ));
}

use swiftide_integrations::chat_completion::{
    embedding_usage, expect_content, prompt_answer_text, require_model, snapshot_kind, structured_answer,
    SnapshotKind,
};
use swiftide_integrations::tool_schema::JsonValue;

fn error_message(e: LanguageModelError) -> (bool, String) {
    match e {
        LanguageModelError::PermanentError(m) => (true, m),
        LanguageModelError::TransientError(m) | LanguageModelError::ContextLengthExceeded(m) => (false, m),
    }
}

#[test]
fn test_prompt_errors_when_model_missing_is_permanent() {
    let err = require_model(&None).unwrap_err();
    assert_eq!(error_message(err), (true, "Model not set".to_string()));
    assert_eq!(require_model(&Some("gpt-4.1".into())).unwrap(), "gpt-4.1");
}

#[test]
fn prompt_answers_need_content() {
    let answer = ChatAnswer {
        first_choice: Some(ChoiceMessage { content: Some("Hello world".into()), tool_calls: None }),
        usage: None,
    };
    assert_eq!(prompt_answer_text(&answer).unwrap(), "Hello world");
    let missing = ChatAnswer { first_choice: None, usage: None };
    assert_eq!(
        error_message(prompt_answer_text(&missing).unwrap_err()),
        (true, "Expected content in response".to_string())
    );
    assert!(expect_content(None).is_err());
}

#[test]
fn embedding_usage_has_no_completion_tokens() {
    let u = embedding_usage(&CompletionUsage { prompt_tokens: 9, completion_tokens: 4, total_tokens: 9 });
    assert_eq!((u.prompt_tokens, u.completion_tokens, u.total_tokens), (9, 0, 9));
}

#[test]
fn snapshot_kind_follows_stream_full() {
    assert_eq!(snapshot_kind(true, false), SnapshotKind::Full);
    assert_eq!(snapshot_kind(false, false), SnapshotKind::DeltaOnly);
    assert_eq!(snapshot_kind(true, true), SnapshotKind::Final);
    assert_eq!(snapshot_kind(false, true), SnapshotKind::Final);
}

#[test]
fn structured_answer_reads_json() {
    assert_eq!(
        structured_answer(Some("{\"answer\": 42}".to_string())).unwrap(),
        JsonValue::Object(vec![("answer".to_string(), JsonValue::Number("42".to_string()))])
    );
    match structured_answer(Some("not json".to_string())) {
        Err(LanguageModelError::PermanentError(m)) => {
            assert_eq!(m, "Failed to parse response\n not json")
        }
        _ => panic!("expected a parse error"),
    }
    match structured_answer(None) {
        Err(LanguageModelError::PermanentError(m)) => assert_eq!(m, "Expected content in response"),
        _ => panic!("expected a missing content error"),
    }
}
