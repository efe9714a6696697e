//! The messages of a chat with a language model.
use vstd::prelude::*;
use crate::text::{opt_view, copy_opt};

verus! {

/// A tool call requested by the assistant.
#[derive(Debug)]
pub struct ToolCall {
    pub id: String,
    pub name: String,
    pub args: Option<String>,
}

impl View for ToolCall {
    type V = (Seq<char>, Seq<char>, Option<Seq<char>>);

    /// The identifier, the name and the arguments, if any.
    open spec fn view(&self) -> Self::V {
        (self.id@, self.name@, match self.args {
            Some(a) => Some(a@),
            None => None,
        })
    }
}

/// A message of a chat.
#[derive(Debug)]
pub enum ChatMessage {
    System(String),
    User(String),
    /// The assistant's text, if any, and the tool calls it requested.
    Assistant(Option<String>, Option<Vec<ToolCall>>),
    /// A tool call and the content of the tool's answer, if the answer has any.
    ToolOutput(ToolCall, Option<String>),
    Summary(String),
}

/// The text of a message that carries one: system, user and summary messages, and assistant
/// messages with text. Tool outputs carry none.
pub open spec fn spec_message_text(m: ChatMessage) -> Option<Seq<char>> {
    match m {
        ChatMessage::System(s) => Some(s@),
        ChatMessage::User(s) => Some(s@),
        ChatMessage::Summary(s) => Some(s@),
        ChatMessage::Assistant(s, _) => match s {
            Some(t) => Some(t@),
            None => None,
        },
        ChatMessage::ToolOutput(_, _) => None,
    }
}

/// `new` is `old` with its text replaced by `text`: the same kind of message, the same tool calls,
/// and `text` in place of the old text. Only messages that carry a text can be so replaced.
pub open spec fn spec_retexted(old: ChatMessage, new: ChatMessage, text: Seq<char>) -> bool {
    match (old, new) {
        (ChatMessage::System(_), ChatMessage::System(t)) => t@ == text,
        (ChatMessage::User(_), ChatMessage::User(t)) => t@ == text,
        (ChatMessage::Summary(_), ChatMessage::Summary(t)) => t@ == text,
        (ChatMessage::Assistant(Some(_), c1), ChatMessage::Assistant(Some(t), c2)) => t@ == text && c1 == c2,
        _ => false,
    }
}

impl ChatMessage {
    /// The text of the message, if it carries one (see [`spec_message_text`]).
    pub fn text(&self) -> (r: Option<&String>)
        ensures
            match r {
                Some(t) => spec_message_text(*self) == Some(t@),
                None => spec_message_text(*self) is None,
            },
    {
        match self {
            ChatMessage::System(s) => Some(s),
            ChatMessage::User(s) => Some(s),
            ChatMessage::Summary(s) => Some(s),
            ChatMessage::Assistant(s, _) => match s {
                Some(t) => Some(t),
                None => None,
            },
            ChatMessage::ToolOutput(_, _) => None,
        }
    }

    /// The message with its text replaced by `text`; a message without a text is returned as
    /// it is.
    pub fn with_text(self, text: String) -> (r: ChatMessage)
        ensures
            spec_message_text(self) is Some ==> spec_retexted(self, r, text@),
            spec_message_text(self) is None ==> r == self,
    {
        match self {
            ChatMessage::System(_) => ChatMessage::System(text),
            ChatMessage::User(_) => ChatMessage::User(text),
            ChatMessage::Summary(_) => ChatMessage::Summary(text),
            ChatMessage::Assistant(s, calls) => match s {
                Some(_) => ChatMessage::Assistant(Some(text), calls),
                None => ChatMessage::Assistant(None, calls),
            },
            ChatMessage::ToolOutput(c, o) => ChatMessage::ToolOutput(c, o),
        }
    }
}

/// A tool call as a chat-completion request carries it: arguments are always present, empty when
/// the call has none.
#[derive(Debug)]
pub struct RequestToolCall {
    pub id: String,
    pub name: String,
    pub arguments: String,
}

/// A message of a chat-completion request.
#[derive(Debug)]
pub enum RequestMessage {
    System(String),
    User(String),
    Assistant { content: Option<String>, tool_calls: Option<Vec<RequestToolCall>> },
    Tool { tool_call_id: String, content: Option<String> },
}

/// The request tool call of a tool call: its identifier, its name, and its arguments or nothing.
pub open spec fn spec_request_tool_call(t: ToolCall) -> (Seq<char>, Seq<char>, Seq<char>) {
    (t.id@, t.name@, match t.args {
        Some(a) => a@,
        None => Seq::empty(),
    })
}

impl View for RequestToolCall {
    type V = (Seq<char>, Seq<char>, Seq<char>);

    open spec fn view(&self) -> Self::V {
        (self.id@, self.name@, self.arguments@)
    }
}

/// Whether `r` is the request message of `m`: system and user text as system and user
/// messages; a summary as an assistant message with that text; an assistant message with its
/// text, if any, and its tool calls, if any (see [`spec_request_tool_call`]); a tool output as a
/// tool message for the call's identifier, with the answer's content if it has one.
pub open spec fn spec_request_message(m: ChatMessage, r: RequestMessage) -> bool {
    match m {
        ChatMessage::System(s) => r matches RequestMessage::System(t) && t@ == s@,
        ChatMessage::User(s) => r matches RequestMessage::User(t) && t@ == s@,
        ChatMessage::Summary(s) => r matches RequestMessage::Assistant { content, tool_calls }
            && content matches Some(t) && t@ == s@ && tool_calls is None,
        ChatMessage::Assistant(s, calls) => r matches RequestMessage::Assistant { content, tool_calls }
            && opt_view(content) == opt_view(s)
            && match (calls, tool_calls) {
                (Some(cs), Some(rs)) => rs@.map_values(|x: RequestToolCall| x@)
                    == cs@.map_values(|c: ToolCall| spec_request_tool_call(c)),
                (None, None) => true,
                _ => false,
            },
        ChatMessage::ToolOutput(call, out) => r matches RequestMessage::Tool { tool_call_id, content }
            && tool_call_id@ == call.id@ && opt_view(content) == opt_view(out),
    }
}

/// The chat-completion request message of a message (see [`spec_request_message`]).
pub fn message_to_openai(m: &ChatMessage) -> (r: RequestMessage)
    ensures
        spec_request_message(*m, r),
{
    match m {
        ChatMessage::User(s) => RequestMessage::User(s.clone()),
        ChatMessage::System(s) => RequestMessage::System(s.clone()),
        ChatMessage::Summary(s) => RequestMessage::Assistant { content: Some(s.clone()), tool_calls: None },
        ChatMessage::ToolOutput(call, out) => RequestMessage::Tool { tool_call_id: call.id.clone(), content: copy_opt(out) },
        ChatMessage::Assistant(s, calls) => {
            let tool_calls = match calls {
                Some(cs) => {
                    let mut out: Vec<RequestToolCall> = Vec::new();
                    let mut i: usize = 0;
                    while i < cs.len()
                        invariant
                            i <= cs@.len(),
                            out@.len() == i,
                            forall|k: int| 0 <= k < i ==> #[trigger] out@[k]@ == spec_request_tool_call(cs@[k]),
                        decreases cs@.len() - i,
                    {
                        let c = &cs[i];
                        let arguments = match &c.args {
                            Some(a) => a.clone(),
                            None => String::new(),
                        };
                        out.push(RequestToolCall { id: c.id.clone(), name: c.name.clone(), arguments });
                        i = i + 1;
                    }
                    proof {
                        assert(out@.map_values(|x: RequestToolCall| x@) =~= cs@.map_values(|c: ToolCall| spec_request_tool_call(c)));
                    }
                    Some(out)
                },
                None => None,
            };
            RequestMessage::Assistant { content: copy_opt(s), tool_calls }
        },
    }
}

} // verus!
