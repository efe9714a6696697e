use swiftide_integrations::chat::ToolCall;
use swiftide_integrations::responses_input::{
    chat_messages_to_input_items, tool_output_text, user_content_to_easy_input_content,
    ContentPart, EasyContent, ImageDetail, InputContent, InputItem, InputMessage, ItemStatus,
    MessageContent, Role, ToolOutput,
};
use swiftide_integrations::responses_output::ReasoningItem;

fn tool_call(id: &str, name: &str, args: Option<&str>) -> ToolCall {
    ToolCall {
        id: id.to_string(),
        name: name.to_string(),
        args: args.map(str::to_string),
    }
}

fn json_text(source: &str) -> String {
    serde_json::from_str::<serde_json::Value>(source)
        .unwrap()
        .to_string()
}

#[test]
fn test_user_content_to_easy_input_content_with_image() {
    let content = MessageContent::Parts(vec![
        ContentPart::Text("Describe this image.".to_string()),
        ContentPart::ImageUrl {
            url: "https://example.com/image.png".to_string(),
            detail: Some(ImageDetail::Low),
        },
    ]);

    let easy = user_content_to_easy_input_content(&content);
    let EasyContent::ContentList(parts) = easy else {
        panic!("expected content list array");
    };

    match &parts[0] {
        InputContent::Text(text) => assert_eq!(text, "Describe this image."),
        _ => panic!("expected input_text"),
    }
    match &parts[1] {
        InputContent::Image { url, detail } => {
            assert_eq!(url, "https://example.com/image.png");
            assert_eq!(*detail, ImageDetail::Low);
        }
        _ => panic!("expected input_image"),
    }
}

#[test]
fn test_chat_messages_to_input_items_keeps_tool_calls_without_content() {
    let message = InputMessage::Assistant(
        None,
        Some(vec![tool_call("call_123", "lookup", Some("{\"q\":\"rust\"}"))]),
    );

    let items = chat_messages_to_input_items(&[message], true);
    assert_eq!(items.len(), 1);

    let InputItem::FunctionCall {
        call_id,
        name,
        arguments,
        status,
    } = &items[0]
    else {
        panic!("expected function call item");
    };

    assert_eq!(call_id, "fc_123");
    assert_eq!(name, "lookup");
    assert_eq!(arguments, "{\"q\":\"rust\"}");
    assert_eq!(*status, ItemStatus::InProgress);
}

#[test]
fn test_chat_messages_to_input_items_includes_reasoning_with_encrypted_content() {
    let message = InputMessage::Reasoning(ReasoningItem {
        id: "reasoning_1".to_string(),
        summary: vec!["First".to_string(), "Second".to_string()],
        content: None,
        status: None,
        encrypted_content: Some("encrypted".to_string()),
    });

    let items = chat_messages_to_input_items(&[message], true);
    assert_eq!(items.len(), 1);

    let InputItem::Reasoning {
        id,
        encrypted_content,
    } = &items[0]
    else {
        panic!("expected reasoning item");
    };

    assert_eq!(id, "reasoning_1");
    assert_eq!(encrypted_content, "encrypted");
}

#[test]
fn test_chat_messages_to_input_items_ignores_empty_assistant() {
    let message = InputMessage::Assistant(None, None);

    let items = chat_messages_to_input_items(&[message], true);
    assert!(items.is_empty());
}

#[test]
fn test_tool_output_preserves_structured_values() {
    let messages = vec![
        InputMessage::ToolOutput(
            tool_call("fc_test", "demo", Some("{\"ok\":true}")),
            ToolOutput::Stop(Some(json_text(r#"{"foo": "bar"}"#))),
        ),
        InputMessage::ToolOutput(
            tool_call("fc_test", "demo", Some("{\"ok\":true}")),
            ToolOutput::FeedbackRequired(Some(json_text(r#"{"nested": {"a": 1}}"#))),
        ),
        InputMessage::ToolOutput(
            tool_call("fc_test", "demo", Some("{\"ok\":true}")),
            ToolOutput::AgentFailed(Some(json_text("[1, 2, 3]"))),
        ),
    ];

    let items = chat_messages_to_input_items(&messages, true);
    assert_eq!(items.len(), 3);

    for (item, expected) in
        items
            .iter()
            .zip([r#"{"foo":"bar"}"#, r#"{"nested":{"a":1}}"#, r"[1,2,3]"])
    {
        let InputItem::FunctionCallOutput {
            call_id, output, ..
        } = item
        else {
            panic!("expected function call output item");
        };

        assert_eq!(call_id, "fc_test");
        assert_eq!(output, expected);
    }
}

#[test]
fn input_items_follow_message_order() {
    let messages = vec![
        InputMessage::System("be brief".to_string()),
        InputMessage::User(MessageContent::Text("hi".to_string())),
        InputMessage::Assistant(
            Some("calling".to_string()),
            Some(vec![
                tool_call("call_a", "first", None),
                tool_call("other", "second", Some("{}")),
            ]),
        ),
        InputMessage::ToolOutput(tool_call("call_a", "first", None), ToolOutput::Fail("boom".to_string())),
        InputMessage::Summary("so far".to_string()),
    ];
    let items = chat_messages_to_input_items(&messages, false);
    assert_eq!(items.len(), 7);
    assert!(matches!(&items[0], InputItem::Message { role: Role::System, content: EasyContent::Text(t) } if t == "be brief"));
    assert!(matches!(&items[1], InputItem::Message { role: Role::User, content: EasyContent::Text(t) } if t == "hi"));
    assert!(matches!(&items[2], InputItem::Message { role: Role::Assistant, content: EasyContent::Text(t) } if t == "calling"));
    assert!(matches!(&items[3], InputItem::FunctionCall { call_id, arguments, .. } if call_id == "fc_a" && arguments.is_empty()));
    assert!(matches!(&items[4], InputItem::FunctionCall { call_id, name, .. } if call_id == "other" && name == "second"));
    assert!(matches!(&items[5], InputItem::FunctionCallOutput { call_id, output, status } if call_id == "fc_a" && output == "boom" && *status == ItemStatus::Completed));
    assert!(matches!(&items[6], InputItem::Message { role: Role::Assistant, content: EasyContent::Text(t) } if t == "so far"));
}

#[test]
fn reasoning_is_sent_only_when_included_and_encrypted() {
    let with_content = |enc: Option<&str>| {
        InputMessage::Reasoning(ReasoningItem {
            id: "r".to_string(),
            summary: vec![],
            content: None,
            status: None,
            encrypted_content: enc.map(str::to_string),
        })
    };
    assert!(chat_messages_to_input_items(&[with_content(Some("x"))], false).is_empty());
    assert!(chat_messages_to_input_items(&[with_content(Some(""))], true).is_empty());
    assert!(chat_messages_to_input_items(&[with_content(None)], true).is_empty());
    assert_eq!(chat_messages_to_input_items(&[with_content(Some("x"))], true).len(), 1);
}

#[test]
fn image_without_detail_asks_for_auto_and_tool_outputs_without_value_are_empty() {
    let content = MessageContent::Parts(vec![ContentPart::ImageUrl {
        url: "u".to_string(),
        detail: None,
    }]);
    let EasyContent::ContentList(parts) = user_content_to_easy_input_content(&content) else {
        panic!("expected content list");
    };
    assert!(matches!(&parts[0], InputContent::Image { detail: ImageDetail::Auto, .. }));
    assert_eq!(tool_output_text(&ToolOutput::Stop(None)), "");
    assert_eq!(tool_output_text(&ToolOutput::Text("t".to_string())), "t");
}

#[test]
fn converting_conversations_one_after_the_other() {
    let first = vec![
        InputMessage::System("sys".to_string()),
        InputMessage::Assistant(None, Some(vec![tool_call("call_x", "f", None)])),
    ];
    let second = vec![InputMessage::Summary("sum".to_string())];
    let mut both = Vec::new();
    both.extend(first.iter().map(|m| match m {
        InputMessage::System(s) => InputMessage::System(s.clone()),
        InputMessage::Assistant(_, _) => InputMessage::Assistant(None, Some(vec![tool_call("call_x", "f", None)])),
        _ => unreachable!(),
    }));
    both.push(InputMessage::Summary("sum".to_string()));
    let a = chat_messages_to_input_items(&first, true);
    let b = chat_messages_to_input_items(&second, true);
    let ab = chat_messages_to_input_items(&both, true);
    assert_eq!(ab.len(), a.len() + b.len());
    assert_eq!(format!("{:?}", ab), format!("{:?}", a.into_iter().chain(b).collect::<Vec<_>>()));
}
