//! The input items of a Responses API request, built from the messages of a conversation.
use vstd::prelude::*;
use crate::chat::ToolCall;
use crate::responses::{normalize_responses_function_call_id, spec_normalize_function_call_id};
use crate::responses_output::ReasoningItem;

verus! {

/// How much detail an image is looked at with.
#[derive(Clone, Copy, PartialEq, Eq, Debug)]
pub enum ImageDetail {
    Auto,
    Low,
    High,
}

/// A part of a user message: text, or an image by URL with an optional detail.
#[derive(Debug)]
pub enum ContentPart {
    Text(String),
    ImageUrl { url: String, detail: Option<ImageDetail> },
}

/// What a user says: plain text, or a list of parts.
#[derive(Debug)]
pub enum MessageContent {
    Text(String),
    Parts(Vec<ContentPart>),
}

/// What a tool answered. The structured answers hold the JSON text of their value, if any.
#[derive(Debug)]
pub enum ToolOutput {
    Text(String),
    Fail(String),
    FeedbackRequired(Option<String>),
    Stop(Option<String>),
    AgentFailed(Option<String>),
}

/// A message of a conversation.
#[derive(Debug)]
pub enum InputMessage {
    System(String),
    User(MessageContent),
    /// The assistant's text, if any, and the tool calls it requested.
    Assistant(Option<String>, Option<Vec<ToolCall>>),
    /// A tool call and what the tool answered.
    ToolOutput(ToolCall, ToolOutput),
    Reasoning(ReasoningItem),
    Summary(String),
}

/// Who says a message.
#[derive(Clone, Copy, PartialEq, Eq, Debug)]
pub enum Role {
    System,
    User,
    Assistant,
}

/// The progress an item is reported with.
#[derive(Clone, Copy, PartialEq, Eq, Debug)]
pub enum ItemStatus {
    Completed,
    InProgress,
    Incomplete,
}

/// A part of a message's content in a request.
#[derive(Debug)]
pub enum InputContent {
    Text(String),
    Image { url: String, detail: ImageDetail },
}

/// The content of a message in a request.
#[derive(Debug)]
pub enum EasyContent {
    Text(String),
    ContentList(Vec<InputContent>),
}

/// An input item of a request.
#[derive(Debug)]
pub enum InputItem {
    Message { role: Role, content: EasyContent },
    /// A function call that the assistant made, sent back with status `InProgress`.
    FunctionCall { call_id: String, name: String, arguments: String, status: ItemStatus },
    /// What a function call gave, sent with status `Completed`.
    FunctionCallOutput { call_id: String, output: String, status: ItemStatus },
    /// A reasoning item, sent with its encrypted content only (no summary, no content, no status).
    Reasoning { id: String, encrypted_content: String },
}

/// The view of a content part of a request.
pub enum InputContentView {
    Text(Seq<char>),
    Image(Seq<char>, ImageDetail),
}

/// The view of the content of a message in a request.
pub enum EasyContentView {
    Text(Seq<char>),
    ContentList(Seq<InputContentView>),
}

/// The view of an input item.
pub enum InputItemView {
    Message(Role, EasyContentView),
    /// The call identifier, name, arguments and status.
    FunctionCall(Seq<char>, Seq<char>, Seq<char>, ItemStatus),
    /// The call identifier, output and status.
    FunctionCallOutput(Seq<char>, Seq<char>, ItemStatus),
    /// The identifier and the encrypted content.
    Reasoning(Seq<char>, Seq<char>),
}

impl View for InputContent {
    type V = InputContentView;

    open spec fn view(&self) -> InputContentView {
        match self {
            InputContent::Text(t) => InputContentView::Text(t@),
            InputContent::Image { url, detail } => InputContentView::Image(url@, *detail),
        }
    }
}

impl View for EasyContent {
    type V = EasyContentView;

    open spec fn view(&self) -> EasyContentView {
        match self {
            EasyContent::Text(t) => EasyContentView::Text(t@),
            EasyContent::ContentList(v) => EasyContentView::ContentList(v@.map_values(|c: InputContent| c@)),
        }
    }
}

impl View for InputItem {
    type V = InputItemView;

    open spec fn view(&self) -> InputItemView {
        match self {
            InputItem::Message { role, content } => InputItemView::Message(*role, content@),
            InputItem::FunctionCall { call_id, name, arguments, status } => InputItemView::FunctionCall(
                call_id@,
                name@,
                arguments@,
                *status,
            ),
            InputItem::FunctionCallOutput { call_id, output, status } => InputItemView::FunctionCallOutput(
                call_id@,
                output@,
                *status,
            ),
            InputItem::Reasoning { id, encrypted_content } => InputItemView::Reasoning(id@, encrypted_content@),
        }
    }
}

/// The views of input items.
pub open spec fn items_view(v: Seq<InputItem>) -> Seq<InputItemView> {
    v.map_values(|i: InputItem| i@)
}

/// A content part of a user message in a request: text stays text; an image keeps its URL and
/// its detail, which is `Auto` when none is given.
pub open spec fn spec_part_content(p: ContentPart) -> InputContentView {
    match p {
        ContentPart::Text(t) => InputContentView::Text(t@),
        ContentPart::ImageUrl { url, detail } => InputContentView::Image(
            url@,
            match detail {
                Some(d) => d,
                None => ImageDetail::Auto,
            },
        ),
    }
}

/// The content of a user message in a request: text stays text, parts become a content list.
pub open spec fn spec_user_content(c: MessageContent) -> EasyContentView {
    match c {
        MessageContent::Text(t) => EasyContentView::Text(t@),
        MessageContent::Parts(ps) => EasyContentView::ContentList(ps@.map_values(|p: ContentPart| spec_part_content(p))),
    }
}

/// The text sent for a tool's answer: the text of a plain or failed answer, the JSON text of a
/// structured answer's value, or nothing when it has no value.
pub open spec fn spec_tool_output_text(o: ToolOutput) -> Seq<char> {
    match o {
        ToolOutput::Text(t) => t@,
        ToolOutput::Fail(t) => t@,
        ToolOutput::FeedbackRequired(v) => match v {
            Some(j) => j@,
            None => Seq::empty(),
        },
        ToolOutput::Stop(v) => match v {
            Some(j) => j@,
            None => Seq::empty(),
        },
        ToolOutput::AgentFailed(v) => match v {
            Some(j) => j@,
            None => Seq::empty(),
        },
    }
}

/// The item for a tool call that the assistant made: its identifier normalized (see
/// [`spec_normalize_function_call_id`]), its name, its arguments (empty when it has none), in
/// progress.
pub open spec fn spec_call_item(tc: ToolCall) -> InputItemView {
    InputItemView::FunctionCall(
        spec_normalize_function_call_id(tc.id@),
        tc.name@,
        match tc.args {
            Some(a) => a@,
            None => Seq::empty(),
        },
        ItemStatus::InProgress,
    )
}

/// The items of one message:
/// - system text as a system message; user content as a user message (see
///   [`spec_user_content`]); summaries as assistant messages;
/// - an assistant message: its text, if any, as an assistant message, then one item per tool
///   call (see [`spec_call_item`]);
/// - a tool output: the call's normalized identifier and the answer's text (see
///   [`spec_tool_output_text`]), completed;
/// - a reasoning item: only when reasoning is included and its encrypted content is present and
///   not empty, as its identifier and encrypted content.
pub open spec fn spec_message_items(m: InputMessage, include_reasoning: bool) -> Seq<InputItemView> {
    match m {
        InputMessage::System(c) => seq![InputItemView::Message(Role::System, EasyContentView::Text(c@))],
        InputMessage::User(c) => seq![InputItemView::Message(Role::User, spec_user_content(c))],
        InputMessage::Assistant(text, calls) => {
            let head = match text {
                Some(t) => seq![InputItemView::Message(Role::Assistant, EasyContentView::Text(t@))],
                None => Seq::empty(),
            };
            let tail = match calls {
                Some(v) => v@.map_values(|tc: ToolCall| spec_call_item(tc)),
                None => Seq::empty(),
            };
            head + tail
        },
        InputMessage::ToolOutput(tc, out) => seq![
            InputItemView::FunctionCallOutput(
                spec_normalize_function_call_id(tc.id@),
                spec_tool_output_text(out),
                ItemStatus::Completed,
            ),
        ],
        InputMessage::Reasoning(item) => match item.encrypted_content {
            Some(e) => if include_reasoning && e@.len() > 0 {
                seq![InputItemView::Reasoning(item.id@, e@)]
            } else {
                Seq::empty()
            },
            None => Seq::empty(),
        },
        InputMessage::Summary(c) => seq![InputItemView::Message(Role::Assistant, EasyContentView::Text(c@))],
    }
}

/// The items of the messages, message after message.
pub open spec fn spec_input_items(msgs: Seq<InputMessage>, include_reasoning: bool) -> Seq<InputItemView>
    decreases msgs.len(),
{
    if msgs.len() == 0 {
        Seq::empty()
    } else {
        spec_input_items(msgs.drop_last(), include_reasoning) + spec_message_items(msgs.last(), include_reasoning)
    }
}

/// The items of two conversations one after the other are the items of the first followed by
/// those of the second.
pub proof fn lemma_input_items_append(a: Seq<InputMessage>, b: Seq<InputMessage>, include_reasoning: bool)
    ensures
        spec_input_items(a + b, include_reasoning) == spec_input_items(a, include_reasoning) + spec_input_items(
            b,
            include_reasoning,
        ),
    decreases b.len(),
{
    if b.len() == 0 {
        assert(a + b =~= a);
        assert(spec_input_items(a, include_reasoning) + Seq::<InputItemView>::empty() =~= spec_input_items(a, include_reasoning));
    } else {
        lemma_input_items_append(a, b.drop_last(), include_reasoning);
        assert((a + b).drop_last() =~= a + b.drop_last());
        assert((a + b).last() == b.last());
        let x = spec_input_items(a, include_reasoning);
        let y = spec_input_items(b.drop_last(), include_reasoning);
        let z = spec_message_items(b.last(), include_reasoning);
        assert((x + y) + z =~= x + (y + z));
    }
}

fn part_to_input_content(p: &ContentPart) -> (r: InputContent)
    ensures
        r@ == spec_part_content(*p),
{
    match p {
        ContentPart::Text(t) => InputContent::Text(t.clone()),
        ContentPart::ImageUrl { url, detail } => {
            let d = match detail {
                Some(d) => *d,
                None => ImageDetail::Auto,
            };
            InputContent::Image { url: url.clone(), detail: d }
        },
    }
}

/// The content of a user message in a request (see [`spec_user_content`]).
pub fn user_content_to_easy_input_content(c: &MessageContent) -> (r: EasyContent)
    ensures
        r@ == spec_user_content(*c),
{
    match c {
        MessageContent::Text(t) => EasyContent::Text(t.clone()),
        MessageContent::Parts(ps) => {
            let mut out: Vec<InputContent> = Vec::new();
            let mut i: usize = 0;
            while i < ps.len()
                invariant
                    i <= ps@.len(),
                    out@.len() == i,
                    forall|k: int| 0 <= k < i ==> #[trigger] out@[k]@ == spec_part_content(ps@[k]),
                decreases ps@.len() - i,
            {
                out.push(part_to_input_content(&ps[i]));
                i = i + 1;
            }
            proof {
                assert(out@.map_values(|x: InputContent| x@) =~= ps@.map_values(|p: ContentPart| spec_part_content(p)));
            }
            EasyContent::ContentList(out)
        },
    }
}

fn json_text(v: &Option<String>) -> (r: String)
    ensures
        r@ == match *v {
            Some(j) => j@,
            None => Seq::<char>::empty(),
        },
{
    match v {
        Some(j) => j.clone(),
        None => String::new(),
    }
}

/// The text sent for a tool's answer (see [`spec_tool_output_text`]).
pub fn tool_output_text(o: &ToolOutput) -> (r: String)
    ensures
        r@ == spec_tool_output_text(*o),
{
    match o {
        ToolOutput::Text(t) => t.clone(),
        ToolOutput::Fail(t) => t.clone(),
        ToolOutput::FeedbackRequired(v) => json_text(v),
        ToolOutput::Stop(v) => json_text(v),
        ToolOutput::AgentFailed(v) => json_text(v),
    }
}

fn message_item(role: Role, text: &String) -> (r: InputItem)
    ensures
        r@ == InputItemView::Message(role, EasyContentView::Text(text@)),
{
    InputItem::Message { role, content: EasyContent::Text(text.clone()) }
}

fn call_item(tc: &ToolCall) -> (r: InputItem)
    ensures
        r@ == spec_call_item(*tc),
{
    let arguments = match &tc.args {
        Some(a) => a.clone(),
        None => String::new(),
    };
    InputItem::FunctionCall {
        call_id: normalize_responses_function_call_id(tc.id.as_str()),
        name: tc.name.clone(),
        arguments,
        status: ItemStatus::InProgress,
    }
}

fn push_message_items(out: &mut Vec<InputItem>, m: &InputMessage, include_reasoning: bool)
    ensures
        items_view(final(out)@) == items_view(old(out)@) + spec_message_items(*m, include_reasoning),
{
    let ghost start = items_view(out@);
    match m {
        InputMessage::System(c) => {
            out.push(message_item(Role::System, c));
        },
        InputMessage::User(c) => {
            out.push(InputItem::Message { role: Role::User, content: user_content_to_easy_input_content(c) });
        },
        InputMessage::Assistant(text, calls) => {
            match text {
                Some(t) => {
                    out.push(message_item(Role::Assistant, t));
                },
                None => {},
            }
            let ghost mid = items_view(out@);
            match calls {
                Some(v) => {
                    let mut i: usize = 0;
                    while i < v.len()
                        invariant
                            i <= v@.len(),
                            items_view(out@) == mid + v@.subrange(0, i as int).map_values(|tc: ToolCall| spec_call_item(tc)),
                        decreases v@.len() - i,
                    {
                        let ghost before = out@;
                        let item = call_item(&v[i]);
                        out.push(item);
                        proof {
                            assert(items_view(out@) =~= items_view(before).push(item@));
                            assert(v@.subrange(0, i + 1).map_values(|tc: ToolCall| spec_call_item(tc))
                                =~= v@.subrange(0, i as int).map_values(|tc: ToolCall| spec_call_item(tc)).push(spec_call_item(v@[i as int])));
                        }
                        i = i + 1;
                    }
                    proof {
                        assert(v@.subrange(0, v@.len() as int) =~= v@);
                    }
                },
                None => {},
            }
        },
        InputMessage::ToolOutput(tc, o) => {
            out.push(InputItem::FunctionCallOutput {
                call_id: normalize_responses_function_call_id(tc.id.as_str()),
                output: tool_output_text(o),
                status: ItemStatus::Completed,
            });
        },
        InputMessage::Reasoning(item) => {
            match &item.encrypted_content {
                Some(e) => {
                    if include_reasoning && !e.as_str().is_empty() {
                        out.push(InputItem::Reasoning { id: item.id.clone(), encrypted_content: e.clone() });
                    }
                },
                None => {},
            }
        },
        InputMessage::Summary(c) => {
            out.push(message_item(Role::Assistant, c));
        },
    }
    proof {
        assert(items_view(out@) =~= start + spec_message_items(*m, include_reasoning));
    }
}

/// The input items of a conversation, message after message (see [`spec_message_items`]).
pub fn chat_messages_to_input_items(messages: &[InputMessage], include_reasoning: bool) -> (r: Vec<InputItem>)
    ensures
        items_view(r@) == spec_input_items(messages@, include_reasoning),
{
    let mut out: Vec<InputItem> = Vec::new();
    let mut i: usize = 0;
    while i < messages.len()
        invariant
            i <= messages@.len(),
            items_view(out@) == spec_input_items(messages@.subrange(0, i as int), include_reasoning),
        decreases messages@.len() - i,
    {
        push_message_items(&mut out, &messages[i], include_reasoning);
        proof {
            assert(messages@.subrange(0, i + 1).drop_last() =~= messages@.subrange(0, i as int));
        }
        i = i + 1;
    }
    proof {
        assert(messages@.subrange(0, messages@.len() as int) =~= messages@);
    }
    out
}

} // verus!
