//! What the OpenAI Responses API reports back: output items, token usage, and how they fill a
//! chat completion.
use vstd::prelude::*;
use std::collections::HashMap;
use crate::chat::ToolCall;
use crate::chat_completion::{SnapshotKind, snapshot_kind, spec_snapshot_kind};
use crate::text::{chars_of, string_from_chars, opt_view, copy_opt, append_chars};
use crate::provider_error::{
    ClientFailure, LanguageModelError, openai_error_to_language_model_error,
    spec_client_failure_error, spec_error_parts,
};
use crate::supported_languages::strings_view;

verus! {

broadcast use vstd::std_specs::hash::group_hash_axioms;

/// A function call that the model asked for.
#[derive(Debug)]
pub struct FunctionCallItem {
    /// The identifier that tool outputs refer to; may be empty.
    pub call_id: String,
    /// The identifier of the output item, if the API sent one.
    pub id: Option<String>,
    pub name: String,
    /// The JSON arguments as text; empty when the model sent none.
    pub arguments: String,
}

/// A part of an output message.
#[derive(Debug)]
pub enum MessagePart {
    OutputText(String),
    Refusal(String),
}

/// The progress of a reasoning item.
#[derive(Clone, Copy, PartialEq, Eq, Debug)]
pub enum ReasoningStatus {
    Completed,
    InProgress,
    Incomplete,
}

/// The reasoning the model reported: its summary texts, its content texts if any, its status and
/// its encrypted content.
#[derive(Debug)]
pub struct ReasoningItem {
    pub id: String,
    pub summary: Vec<String>,
    pub content: Option<Vec<String>>,
    pub status: Option<ReasoningStatus>,
    pub encrypted_content: Option<String>,
}

/// One item of a response's output.
#[derive(Debug)]
pub enum OutputItem {
    Message(Vec<MessagePart>),
    FunctionCall(FunctionCallItem),
    Reasoning(ReasoningItem),
    /// Any other kind of item (web search, file search, ...), which a chat completion ignores.
    Other,
}

/// The view of optional texts.
pub open spec fn opt_strings(o: Option<Vec<String>>) -> Option<Seq<Seq<char>>> {
    match o {
        Some(v) => Some(strings_view(v@)),
        None => None,
    }
}

impl View for ReasoningItem {
    type V = (Seq<char>, Seq<Seq<char>>, Option<Seq<Seq<char>>>, Option<ReasoningStatus>, Option<Seq<char>>);

    open spec fn view(&self) -> Self::V {
        (self.id@, strings_view(self.summary@), opt_strings(self.content), self.status, opt_view(self.encrypted_content))
    }
}

fn copy_string(s: &String) -> (r: String)
    ensures
        r@ == s@,
{
    s.clone()
}

fn copy_strings(v: &Vec<String>) -> (r: Vec<String>)
    ensures
        strings_view(r@) == strings_view(v@),
{
    let mut out: Vec<String> = Vec::new();
    let mut i: usize = 0;
    while i < v.len()
        invariant
            i <= v@.len(),
            out@.len() == i,
            forall|k: int| 0 <= k < i ==> #[trigger] out@[k]@ == v@[k]@,
        decreases v@.len() - i,
    {
        out.push(copy_string(&v[i]));
        i = i + 1;
    }
    assert(strings_view(out@) =~= strings_view(v@));
    out
}

impl ReasoningItem {
    /// A copy of the item.
    pub fn copy(&self) -> (r: ReasoningItem)
        ensures
            r@ == self@,
    {
        let content = match &self.content {
            Some(c) => Some(copy_strings(c)),
            None => None,
        };
        ReasoningItem {
            id: copy_string(&self.id),
            summary: copy_strings(&self.summary),
            content,
            status: self.status,
            encrypted_content: copy_opt(&self.encrypted_content),
        }
    }
}

/// The identifier a function call is known by: its call identifier, or, when that is empty, the
/// item identifier if there is one (and the empty call identifier otherwise).
pub open spec fn spec_call_identifier(f: FunctionCallItem) -> Seq<char> {
    if f.call_id@.len() == 0 {
        match f.id {
            Some(i) => i@,
            None => f.call_id@,
        }
    } else {
        f.call_id@
    }
}

/// The tool call a function call becomes: its identifier (see [`spec_call_identifier`]), its
/// name, and its arguments when they are not empty.
pub open spec fn spec_tool_call_of(f: FunctionCallItem) -> (Seq<char>, Seq<char>, Option<Seq<char>>) {
    (
        spec_call_identifier(f),
        f.name@,
        if f.arguments@.len() == 0 { None } else { Some(f.arguments@) },
    )
}

/// The identifier a function call is known by (see [`spec_call_identifier`]).
pub fn function_call_identifier(f: &FunctionCallItem) -> (r: &str)
    ensures
        r@ == spec_call_identifier(*f),
{
    if f.call_id.as_str().is_empty() {
        match &f.id {
            Some(i) => i.as_str(),
            None => f.call_id.as_str(),
        }
    } else {
        f.call_id.as_str()
    }
}

/// The tool call a function call becomes (see [`spec_tool_call_of`]).
pub fn tool_call_from_function_call(f: &FunctionCallItem) -> (r: ToolCall)
    ensures
        r@ == spec_tool_call_of(*f),
{
    let id = function_call_identifier(f).to_owned();
    let args = if f.arguments.as_str().is_empty() {
        None
    } else {
        Some(f.arguments.clone())
    };
    ToolCall { id, name: f.name.clone(), args }
}

/// `line` added to `acc`, after a newline unless `acc` is still empty.
pub open spec fn spec_push_line(acc: Seq<char>, line: Seq<char>) -> Seq<char> {
    if acc.len() == 0 {
        line
    } else {
        acc + seq!['\n'] + line
    }
}

/// The texts added one after the other to `acc` (see [`spec_push_line`]).
pub open spec fn spec_fold_lines(acc: Seq<char>, texts: Seq<Seq<char>>) -> Seq<char>
    decreases texts.len(),
{
    if texts.len() == 0 {
        acc
    } else {
        spec_push_line(spec_fold_lines(acc, texts.drop_last()), texts.last())
    }
}

/// Adding `a` and then `b` is adding `a + b`.
pub proof fn lemma_fold_lines_append(acc: Seq<char>, a: Seq<Seq<char>>, b: Seq<Seq<char>>)
    ensures
        spec_fold_lines(spec_fold_lines(acc, a), b) == spec_fold_lines(acc, a + b),
    decreases b.len(),
{
    if b.len() == 0 {
        assert(a + b =~= a);
    } else {
        lemma_fold_lines_append(acc, a, b.drop_last());
        assert((a + b).drop_last() =~= a + b.drop_last());
        assert((a + b).last() == b.last());
    }
}

/// The output texts of a message's parts, in order.
pub open spec fn spec_message_texts(parts: Seq<MessagePart>) -> Seq<Seq<char>>
    decreases parts.len(),
{
    if parts.len() == 0 {
        Seq::empty()
    } else {
        let rest = spec_message_texts(parts.drop_last());
        match parts.last() {
            MessagePart::OutputText(t) => rest.push(t@),
            MessagePart::Refusal(_) => rest,
        }
    }
}

/// The output texts of the messages among `items`, in order.
pub open spec fn spec_output_texts(items: Seq<OutputItem>) -> Seq<Seq<char>>
    decreases items.len(),
{
    if items.len() == 0 {
        Seq::empty()
    } else {
        let rest = spec_output_texts(items.drop_last());
        match items.last() {
            OutputItem::Message(parts) => rest + spec_message_texts(parts@),
            _ => rest,
        }
    }
}

/// The texts joined by newlines, or `None` when that gives nothing.
pub open spec fn spec_collected(texts: Seq<Seq<char>>) -> Option<Seq<char>> {
    let s = spec_fold_lines(Seq::empty(), texts);
    if s.len() == 0 { None } else { Some(s) }
}

fn push_message_texts(buf: &mut Vec<char>, parts: &[MessagePart])
    ensures
        final(buf)@ == spec_fold_lines(old(buf)@, spec_message_texts(parts@)),
{
    let ghost start = buf@;
    let mut i: usize = 0;
    while i < parts.len()
        invariant
            i <= parts@.len(),
            buf@ == spec_fold_lines(start, spec_message_texts(parts@.subrange(0, i as int))),
        decreases parts@.len() - i,
    {
        proof {
            assert(parts@.subrange(0, i + 1).drop_last() =~= parts@.subrange(0, i as int));
        }
        match &parts[i] {
            MessagePart::OutputText(t) => {
                let tc = chars_of(t.as_str());
                if buf.len() > 0 {
                    buf.push('\n');
                }
                append_chars(buf, tc.as_slice());
                proof {
                    let before = spec_message_texts(parts@.subrange(0, i as int));
                    assert(spec_message_texts(parts@.subrange(0, i + 1)) == before.push(t@));
                    assert(before.push(t@).drop_last() =~= before);
                }
            },
            MessagePart::Refusal(_) => {},
        }
        i = i + 1;
    }
    proof {
        assert(parts@.subrange(0, parts@.len() as int) =~= parts@);
    }
}

/// The output texts of a message's parts joined by newlines, or `None` when there is no text.
pub fn collect_message_text_from_message(parts: &[MessagePart]) -> (r: Option<String>)
    ensures
        opt_view(r) == spec_collected(spec_message_texts(parts@)),
{
    let mut buf: Vec<char> = Vec::new();
    push_message_texts(&mut buf, parts);
    if buf.len() == 0 {
        None
    } else {
        Some(string_from_chars(buf.as_slice()))
    }
}

/// The output texts of all messages among `items` joined by newlines, or `None` when there is
/// no text.
pub fn collect_message_text_from_items(items: &[OutputItem]) -> (r: Option<String>)
    ensures
        opt_view(r) == spec_collected(spec_output_texts(items@)),
{
    let mut buf: Vec<char> = Vec::new();
    let mut i: usize = 0;
    while i < items.len()
        invariant
            i <= items@.len(),
            buf@ == spec_fold_lines(Seq::empty(), spec_output_texts(items@.subrange(0, i as int))),
        decreases items@.len() - i,
    {
        proof {
            assert(items@.subrange(0, i + 1).drop_last() =~= items@.subrange(0, i as int));
        }
        match &items[i] {
            OutputItem::Message(parts) => {
                let ghost before = spec_output_texts(items@.subrange(0, i as int));
                push_message_texts(&mut buf, parts.as_slice());
                proof {
                    lemma_fold_lines_append(Seq::empty(), before, spec_message_texts(parts@));
                }
            },
            _ => {},
        }
        i = i + 1;
    }
    proof {
        assert(items@.subrange(0, items@.len() as int) =~= items@);
    }
    if buf.len() == 0 {
        None
    } else {
        Some(string_from_chars(buf.as_slice()))
    }
}

/// The function calls among `items`, in order.
pub open spec fn spec_function_calls(items: Seq<OutputItem>) -> Seq<FunctionCallItem>
    decreases items.len(),
{
    if items.len() == 0 {
        Seq::empty()
    } else {
        let rest = spec_function_calls(items.drop_last());
        match items.last() {
            OutputItem::FunctionCall(f) => rest.push(f),
            _ => rest,
        }
    }
}

/// The reasoning items among `items`, in order.
pub open spec fn spec_reasoning_items(items: Seq<OutputItem>) -> Seq<ReasoningItem>
    decreases items.len(),
{
    if items.len() == 0 {
        Seq::empty()
    } else {
        let rest = spec_reasoning_items(items.drop_last());
        match items.last() {
            OutputItem::Reasoning(r) => rest.push(r),
            _ => rest,
        }
    }
}

/// The views of tool calls.
pub open spec fn tool_calls_view(v: Seq<ToolCall>) -> Seq<(Seq<char>, Seq<char>, Option<Seq<char>>)> {
    v.map_values(|t: ToolCall| t@)
}

/// The views of reasoning items.
pub open spec fn reasoning_view(v: Seq<ReasoningItem>) -> Seq<<ReasoningItem as View>::V> {
    v.map_values(|r: ReasoningItem| r@)
}

/// The tool calls of the function calls among `items` (see [`spec_tool_call_of`]).
pub open spec fn spec_tool_calls_of(items: Seq<OutputItem>) -> Seq<(Seq<char>, Seq<char>, Option<Seq<char>>)> {
    spec_function_calls(items).map_values(|f: FunctionCallItem| spec_tool_call_of(f))
}

/// The tool calls of the function calls among `items`, in order.
pub fn collect_tool_calls_from_items(items: &[OutputItem]) -> (r: Vec<ToolCall>)
    ensures
        tool_calls_view(r@) == spec_tool_calls_of(items@),
{
    let mut out: Vec<ToolCall> = Vec::new();
    let mut i: usize = 0;
    while i < items.len()
        invariant
            i <= items@.len(),
            tool_calls_view(out@) == spec_tool_calls_of(items@.subrange(0, i as int)),
        decreases items@.len() - i,
    {
        proof {
            assert(items@.subrange(0, i + 1).drop_last() =~= items@.subrange(0, i as int));
        }
        match &items[i] {
            OutputItem::FunctionCall(f) => {
                let ghost before = out@;
                let tc = tool_call_from_function_call(f);
                out.push(tc);
                proof {
                    let calls = spec_function_calls(items@.subrange(0, i as int));
                    assert(spec_function_calls(items@.subrange(0, i + 1)) == calls.push(*f));
                    assert(tool_calls_view(out@) =~= tool_calls_view(before).push(tc@));
                    assert(calls.push(*f).map_values(|g: FunctionCallItem| spec_tool_call_of(g))
                        =~= calls.map_values(|g: FunctionCallItem| spec_tool_call_of(g)).push(spec_tool_call_of(*f)));
                }
            },
            _ => {},
        }
        i = i + 1;
    }
    proof {
        assert(items@.subrange(0, items@.len() as int) =~= items@);
    }
    out
}

/// Copies of the reasoning items among `items`, in order.
pub fn collect_reasoning_items_from_items(items: &[OutputItem]) -> (r: Vec<ReasoningItem>)
    ensures
        reasoning_view(r@) == reasoning_view(spec_reasoning_items(items@)),
{
    let mut out: Vec<ReasoningItem> = Vec::new();
    let mut i: usize = 0;
    while i < items.len()
        invariant
            i <= items@.len(),
            reasoning_view(out@) == reasoning_view(spec_reasoning_items(items@.subrange(0, i as int))),
        decreases items@.len() - i,
    {
        proof {
            assert(items@.subrange(0, i + 1).drop_last() =~= items@.subrange(0, i as int));
        }
        match &items[i] {
            OutputItem::Reasoning(item) => {
                let ghost before = out@;
                let c = item.copy();
                out.push(c);
                proof {
                    let rs = spec_reasoning_items(items@.subrange(0, i as int));
                    assert(spec_reasoning_items(items@.subrange(0, i + 1)) == rs.push(*item));
                    assert(reasoning_view(out@) =~= reasoning_view(before).push(c@));
                    assert(reasoning_view(rs.push(*item)) =~= reasoning_view(rs).push(item@));
                }
            },
            _ => {},
        }
        i = i + 1;
    }
    proof {
        assert(items@.subrange(0, items@.len() as int) =~= items@);
    }
    out
}

/// Token counts of a chat completion.
#[derive(Clone, Copy, Debug)]
pub struct Usage {
    pub prompt_tokens: u32,
    pub completion_tokens: u32,
    pub total_tokens: u32,
}

/// Token counts as the Responses API reports them.
#[derive(Clone, Copy, Debug)]
pub struct ResponsesUsage {
    pub input_tokens: u32,
    pub output_tokens: u32,
    pub total_tokens: u32,
}

/// The usage with the given counts.
pub fn usage_from_counts(prompt_tokens: u32, completion_tokens: u32, total_tokens: u32) -> (r: Usage)
    ensures
        r == (Usage { prompt_tokens, completion_tokens, total_tokens }),
{
    Usage { prompt_tokens, completion_tokens, total_tokens }
}

/// The chat-completion usage of a Responses API usage: input tokens are prompt tokens, output
/// tokens are completion tokens.
pub open spec fn spec_convert_usage(u: ResponsesUsage) -> Usage {
    Usage { prompt_tokens: u.input_tokens, completion_tokens: u.output_tokens, total_tokens: u.total_tokens }
}

/// The chat-completion usage of a Responses API usage (see [`spec_convert_usage`]).
pub fn convert_usage(u: &ResponsesUsage) -> (r: Usage)
    ensures
        r == spec_convert_usage(*u),
{
    usage_from_counts(u.input_tokens, u.output_tokens, u.total_tokens)
}

/// What a finished response reports beside its events: its usage and its output items.
#[derive(Debug)]
pub struct ResponseMetadata {
    pub usage: Option<ResponsesUsage>,
    pub output: Vec<OutputItem>,
}

/// The parts of a chat completion that a response fills: the message text, the tool calls, the
/// usage and the reasoning items.
#[derive(Debug)]
pub struct CompletionResponse {
    pub message: Option<String>,
    pub tool_calls: Option<Vec<ToolCall>>,
    pub usage: Option<Usage>,
    pub reasoning: Option<Vec<ReasoningItem>>,
}

impl View for CompletionResponse {
    type V = (
        Option<Seq<char>>,
        Option<Seq<(Seq<char>, Seq<char>, Option<Seq<char>>)>>,
        Option<Usage>,
        Option<Seq<<ReasoningItem as View>::V>>,
    );

    open spec fn view(&self) -> Self::V {
        (
            opt_view(self.message),
            match self.tool_calls {
                Some(v) => Some(tool_calls_view(v@)),
                None => None,
            },
            self.usage,
            match self.reasoning {
                Some(v) => Some(reasoning_view(v@)),
                None => None,
            },
        )
    }
}

impl CompletionResponse {
    /// A completion with nothing filled in.
    pub fn empty() -> (r: CompletionResponse)
        ensures
            r@ == (None::<Seq<char>>, None::<Seq<(Seq<char>, Seq<char>, Option<Seq<char>>)>>, None::<Usage>,
                None::<Seq<<ReasoningItem as View>::V>>),
    {
        CompletionResponse { message: None, tool_calls: None, usage: None, reasoning: None }
    }
}

/// `c` with the metadata of a response applied: the response's usage replaces the usage when it
/// has one; the message, the tool calls and the reasoning items are filled from the output only
/// where `c` has none yet and the output has some.
pub open spec fn spec_apply_metadata(c: <CompletionResponse as View>::V, m: ResponseMetadata) -> <CompletionResponse as View>::V {
    let usage = match m.usage {
        Some(u) => Some(spec_convert_usage(u)),
        None => c.2,
    };
    let message = if c.0 is None { spec_collected(spec_output_texts(m.output@)) } else { c.0 };
    let calls = spec_tool_calls_of(m.output@);
    let tool_calls = if c.1 is None && calls.len() > 0 { Some(calls) } else { c.1 };
    let items = reasoning_view(spec_reasoning_items(m.output@));
    let reasoning = if c.3 is None && items.len() > 0 { Some(items) } else { c.3 };
    (message, tool_calls, usage, reasoning)
}

/// Applying a response's metadata a second time changes nothing: what the first application
/// filled in stays, and the usage is the same.
pub proof fn lemma_apply_metadata_idempotent(c: <CompletionResponse as View>::V, m: ResponseMetadata)
    ensures
        spec_apply_metadata(spec_apply_metadata(c, m), m) == spec_apply_metadata(c, m),
{
}

/// Applies the metadata of a response to `acc` (see [`spec_apply_metadata`]).
pub fn metadata_to_chat_completion(metadata: &ResponseMetadata, acc: &mut CompletionResponse)
    ensures
        final(acc)@ == spec_apply_metadata(old(acc)@, *metadata),
{
    match &metadata.usage {
        Some(u) => {
            acc.usage = Some(convert_usage(u));
        },
        None => {},
    }
    if acc.message.is_none() {
        acc.message = collect_message_text_from_items(metadata.output.as_slice());
    }
    if acc.tool_calls.is_none() {
        let calls = collect_tool_calls_from_items(metadata.output.as_slice());
        if calls.len() > 0 {
            acc.tool_calls = Some(calls);
        }
    }
    if acc.reasoning.is_none() {
        let items = collect_reasoning_items_from_items(metadata.output.as_slice());
        if items.len() > 0 {
            acc.reasoning = Some(items);
        }
    }
}

/// A content part that a streamed response adds.
#[derive(Debug)]
pub enum ContentPart {
    OutputText(String),
    /// Any other part (a refusal, reasoning text, ...).
    Other,
}

/// The error that a failed response reports.
#[derive(Debug)]
pub struct ResponseFailure {
    pub code: String,
    pub message: String,
}

/// An event of a streamed response.
#[derive(Debug)]
pub enum StreamEvent {
    /// More text of the message.
    OutputTextDelta(String),
    ContentPartAdded(ContentPart),
    OutputItemAdded { output_index: u32, item: OutputItem },
    OutputItemDone { output_index: u32, item: OutputItem },
    /// More arguments of the function call at `output_index`.
    FunctionCallArgumentsDelta { output_index: u32, delta: String },
    /// The complete arguments of the function call at `output_index`, and its name if sent.
    FunctionCallArgumentsDone { output_index: u32, name: Option<String>, arguments: String },
    Completed(ResponseMetadata),
    Incomplete(ResponseMetadata),
    Failed(Option<ResponseFailure>),
    Error(String),
    /// Any other event, which changes nothing.
    Other,
}

/// What an event asks of the chat completion being accumulated.
#[derive(Debug)]
pub enum ResponseUpdate {
    /// Append text to the message.
    MessageDelta(String),
    /// Update the tool call at `index`: set the identifier and the name that are given and append
    /// the arguments that are given.
    ToolCallDelta { index: usize, id: Option<String>, name: Option<String>, arguments: Option<String> },
    /// The response is over: apply its metadata (see [`metadata_to_chat_completion`]) and drop the
    /// pending delta.
    Finish(ResponseMetadata),
}

/// The text of a reported error: `<code>: <message>`.
pub open spec fn spec_error_text(e: ResponseFailure) -> Seq<char> {
    e.code@ + seq![':', ' '] + e.message@
}

/// The text of a stream failure: that of the reported error, if any (see [`spec_error_text`]).
pub open spec fn spec_failure_text(f: Option<ResponseFailure>) -> Seq<char> {
    match f {
        Some(e) => spec_error_text(e),
        None => "Responses API stream failed"@,
    }
}

/// `s`, or `None` when it is empty.
pub open spec fn spec_nonempty(s: Seq<char>) -> Option<Seq<char>> {
    if s.len() == 0 { None } else { Some(s) }
}

/// The view of an optional borrowed string.
pub open spec fn opt_ref_view(o: Option<&String>) -> Option<Seq<char>> {
    match o {
        Some(s) => Some(s@),
        None => None,
    }
}

/// `r` appends `text` to the message.
pub open spec fn is_message_delta(r: Result<Option<ResponseUpdate>, LanguageModelError>, text: Seq<char>) -> bool {
    r matches Ok(Some(ResponseUpdate::MessageDelta(t))) && t@ == text
}

/// `r` updates the tool call at `index` with the given identifier, name and arguments.
pub open spec fn is_tool_delta(
    r: Result<Option<ResponseUpdate>, LanguageModelError>,
    index: int,
    id: Option<Seq<char>>,
    name: Option<Seq<char>>,
    arguments: Option<Seq<char>>,
) -> bool {
    r matches Ok(Some(ResponseUpdate::ToolCallDelta { index: i, id: d, name: n, arguments: a }))
        && i == index && opt_view(d) == id && opt_view(n) == name && opt_view(a) == arguments
}

/// `r` finishes the response with the metadata `m`.
pub open spec fn is_finish(r: Result<Option<ResponseUpdate>, LanguageModelError>, m: ResponseMetadata) -> bool {
    r matches Ok(Some(ResponseUpdate::Finish(md))) && md == m
}

/// `r` is a permanent error with the text `text`.
pub open spec fn is_permanent_error(r: Result<Option<ResponseUpdate>, LanguageModelError>, text: Seq<char>) -> bool {
    r matches Err(LanguageModelError::PermanentError(t)) && t@ == text
}

/// What an event of a running stream gives, where `existing` is the arguments already held by
/// the tool call at the event's index:
/// - text deltas, added text parts and added messages with text append that text;
/// - an added function call sets the identifier and name of the tool call at its index and
///   appends its arguments when it has some; a finished function call sets the identifier and
///   name;
/// - argument deltas append to the arguments; completed arguments set the name when one is given
///   and append the arguments unless they are empty or equal to `existing`, and change nothing
///   when neither applies;
/// - a completed or incomplete response finishes it with its metadata;
/// - a failure or an error is a permanent error (see [`spec_failure_text`]);
/// - anything else changes nothing.
pub open spec fn spec_event_outcome(
    event: StreamEvent,
    existing: Option<Seq<char>>,
    r: Result<Option<ResponseUpdate>, LanguageModelError>,
) -> bool {
    match event {
        StreamEvent::OutputTextDelta(d) => is_message_delta(r, d@),
        StreamEvent::ContentPartAdded(p) => match p {
            ContentPart::OutputText(t) => is_message_delta(r, t@),
            ContentPart::Other => r matches Ok(None),
        },
        StreamEvent::OutputItemAdded { output_index, item } => match item {
            OutputItem::FunctionCall(f) => is_tool_delta(
                r,
                output_index as int,
                Some(spec_call_identifier(f)),
                Some(f.name@),
                spec_nonempty(f.arguments@),
            ),
            OutputItem::Message(parts) => match spec_collected(spec_message_texts(parts@)) {
                Some(t) => is_message_delta(r, t),
                None => r matches Ok(None),
            },
            _ => r matches Ok(None),
        },
        StreamEvent::OutputItemDone { output_index, item } => match item {
            OutputItem::FunctionCall(f) => is_tool_delta(
                r,
                output_index as int,
                Some(spec_call_identifier(f)),
                Some(f.name@),
                None,
            ),
            _ => r matches Ok(None),
        },
        StreamEvent::FunctionCallArgumentsDelta { output_index, delta } => is_tool_delta(
            r,
            output_index as int,
            None,
            None,
            Some(delta@),
        ),
        StreamEvent::FunctionCallArgumentsDone { output_index, name, arguments } => {
            let n = match name {
                Some(s) => spec_nonempty(s@),
                None => None,
            };
            let a = if arguments@.len() == 0 || existing == Some(arguments@) {
                None
            } else {
                Some(arguments@)
            };
            if n is Some || a is Some {
                is_tool_delta(r, output_index as int, None, n, a)
            } else {
                r matches Ok(None)
            }
        },
        StreamEvent::Completed(m) => is_finish(r, m),
        StreamEvent::Incomplete(m) => is_finish(r, m),
        StreamEvent::Failed(f) => is_permanent_error(r, spec_failure_text(f)),
        StreamEvent::Error(msg) => is_permanent_error(r, msg@),
        StreamEvent::Other => r matches Ok(None),
    }
}

/// Whether an event ends the stream: completion, incompletion, failure and error do.
pub open spec fn spec_event_finishes(event: StreamEvent) -> bool {
    ||| event is Completed
    ||| event is Incomplete
    ||| event is Failed
    ||| event is Error
}

fn error_text(e: &ResponseFailure) -> (r: String)
    ensures
        r@ == spec_error_text(*e),
{
    let mut out = chars_of(e.code.as_str());
    let sep = [':', ' '];
    append_chars(&mut out, sep.as_slice());
    let msg = chars_of(e.message.as_str());
    append_chars(&mut out, msg.as_slice());
    proof {
        assert(sep@ =~= seq![':', ' ']);
    }
    string_from_chars(out.as_slice())
}

fn failure_text(f: &Option<ResponseFailure>) -> (r: String)
    ensures
        r@ == spec_failure_text(*f),
{
    match f {
        Some(e) => error_text(e),
        None => "Responses API stream failed".to_owned(),
    }
}

fn nonempty(s: &str) -> (r: Option<String>)
    ensures
        opt_view(r) == spec_nonempty(s@),
{
    if s.is_empty() {
        None
    } else {
        Some(s.to_owned())
    }
}

/// The state of a streamed response: whether it is over, and the arguments gathered so far for
/// the tool call at each output index.
pub struct ResponsesStreamState {
    finished: bool,
    arguments: HashMap<usize, String>,
}

/// The arguments gathered for the tool call at `index`, if any.
pub open spec fn spec_gathered(arguments: Map<usize, String>, index: usize) -> Option<Seq<char>> {
    if arguments.contains_key(index) {
        Some(arguments[index]@)
    } else {
        None
    }
}

/// The arguments already gathered that matter to `event`: those of the tool call whose
/// arguments it completes.
pub open spec fn spec_existing_for(arguments: Map<usize, String>, event: StreamEvent) -> Option<
    Seq<char>,
> {
    match event {
        StreamEvent::FunctionCallArgumentsDone { output_index, .. } => spec_gathered(
            arguments,
            output_index as usize,
        ),
        _ => None,
    }
}

/// `after` is `before` with the arguments that `r` appends to a tool call appended to those
/// gathered for it; any other outcome leaves them as they were.
pub open spec fn spec_gathers(
    before: Map<usize, String>,
    after: Map<usize, String>,
    r: Result<Option<ResponseUpdate>, LanguageModelError>,
) -> bool {
    match r {
        Ok(Some(ResponseUpdate::ToolCallDelta { index, arguments: Some(a), .. })) => {
            &&& after.contains_key(index)
            &&& after == before.insert(index, after[index])
            &&& after[index]@ == match spec_gathered(before, index) {
                Some(e) => e + a@,
                None => a@,
            }
        },
        _ => after == before,
    }
}

impl ResponsesStreamState {
    /// Whether the stream is over.
    pub closed spec fn spec_finished(&self) -> bool {
        self.finished
    }

    /// The arguments gathered so far, by output index.
    pub closed spec fn spec_arguments(&self) -> Map<usize, String> {
        self.arguments@
    }

    /// A stream that has not started.
    pub fn new() -> (r: ResponsesStreamState)
        ensures
            !r.spec_finished(),
            r.spec_arguments() == Map::<usize, String>::empty(),
    {
        ResponsesStreamState { finished: false, arguments: HashMap::new() }
    }

    /// Whether the stream is over.
    pub fn is_finished(&self) -> (r: bool)
        ensures
            r == self.spec_finished(),
    {
        self.finished
    }

    /// The arguments gathered for the tool call at `index`.
    fn gathered(&self, index: usize) -> (r: Option<&String>)
        ensures
            opt_ref_view(r) == spec_gathered(self.spec_arguments(), index),
    {
        self.arguments.get(&index)
    }

    /// Appends `more` to the arguments gathered for the tool call at `index`.
    fn gather(&mut self, index: usize, more: &String)
        ensures
            final(self).spec_finished() == old(self).spec_finished(),
            final(self).spec_arguments().contains_key(index),
            final(self).spec_arguments() == old(self).spec_arguments().insert(
                index,
                final(self).spec_arguments()[index],
            ),
            final(self).spec_arguments()[index]@ == match spec_gathered(
                old(self).spec_arguments(),
                index,
            ) {
                Some(e) => e + more@,
                None => more@,
            },
    {
        let combined = match self.arguments.get(&index) {
            Some(e) => {
                let mut c = chars_of(e.as_str());
                let m = chars_of(more.as_str());
                append_chars(&mut c, m.as_slice());
                string_from_chars(c.as_slice())
            },
            None => more.clone(),
        };
        self.arguments.insert(index, combined);
        proof {
            assert(self.arguments@ =~= old(self).arguments@.insert(index, self.arguments@[index]));
        }
    }

    /// What `event` asks of the accumulated completion (see [`spec_event_outcome`]), judged
    /// against the arguments gathered for the tool call it completes; the arguments it appends
    /// are gathered (see [`spec_gathers`]). Once the stream is over, every event is ignored.
    pub fn apply_event(&mut self, event: StreamEvent) -> (r: Result<
        Option<ResponseUpdate>,
        LanguageModelError,
    >)
        ensures
            old(self).spec_finished() ==> (r matches Ok(None)) && *final(self) == *old(self),
            !old(self).spec_finished() ==> spec_event_outcome(
                event,
                spec_existing_for(old(self).spec_arguments(), event),
                r,
            ),
            !old(self).spec_finished() ==> final(self).spec_finished() == spec_event_finishes(event),
            !old(self).spec_finished() ==> spec_gathers(
                old(self).spec_arguments(),
                final(self).spec_arguments(),
                r,
            ),
    {
        if self.finished {
            return Ok(None);
        }
        match event {
            StreamEvent::OutputTextDelta(d) => Ok(Some(ResponseUpdate::MessageDelta(d))),
            StreamEvent::ContentPartAdded(p) => match p {
                ContentPart::OutputText(t) => Ok(Some(ResponseUpdate::MessageDelta(t))),
                ContentPart::Other => Ok(None),
            },
            StreamEvent::OutputItemAdded { output_index, item } => match item {
                OutputItem::FunctionCall(f) => {
                    let id = function_call_identifier(&f).to_owned();
                    let arguments = nonempty(f.arguments.as_str());
                    let index = output_index as usize;
                    if let Some(a) = &arguments {
                        self.gather(index, a);
                    }
                    Ok(Some(ResponseUpdate::ToolCallDelta {
                        index,
                        id: Some(id),
                        name: Some(f.name),
                        arguments,
                    }))
                },
                OutputItem::Message(parts) => match collect_message_text_from_message(parts.as_slice()) {
                    Some(t) => Ok(Some(ResponseUpdate::MessageDelta(t))),
                    None => Ok(None),
                },
                _ => Ok(None),
            },
            StreamEvent::OutputItemDone { output_index, item } => match item {
                OutputItem::FunctionCall(f) => {
                    let id = function_call_identifier(&f).to_owned();
                    Ok(Some(ResponseUpdate::ToolCallDelta {
                        index: output_index as usize,
                        id: Some(id),
                        name: Some(f.name),
                        arguments: None,
                    }))
                },
                _ => Ok(None),
            },
            StreamEvent::FunctionCallArgumentsDelta { output_index, delta } => {
                let index = output_index as usize;
                self.gather(index, &delta);
                Ok(Some(ResponseUpdate::ToolCallDelta {
                    index,
                    id: None,
                    name: None,
                    arguments: Some(delta),
                }))
            },
            StreamEvent::FunctionCallArgumentsDone { output_index, name, arguments } => {
                let index = output_index as usize;
                let n = match &name {
                    Some(s) => nonempty(s.as_str()),
                    None => None,
                };
                let duplicate = match self.gathered(index) {
                    Some(e) => {
                        let ec = chars_of(e.as_str());
                        let ac = chars_of(arguments.as_str());
                        crate::text::chars_eq(ec.as_slice(), ac.as_slice())
                    },
                    None => false,
                };
                let a = if arguments.as_str().is_empty() || duplicate {
                    None
                } else {
                    self.gather(index, &arguments);
                    Some(arguments)
                };
                if n.is_some() || a.is_some() {
                    Ok(Some(ResponseUpdate::ToolCallDelta { index, id: None, name: n, arguments: a }))
                } else {
                    Ok(None)
                }
            },
            StreamEvent::Completed(m) => {
                self.finished = true;
                Ok(Some(ResponseUpdate::Finish(m)))
            },
            StreamEvent::Incomplete(m) => {
                self.finished = true;
                Ok(Some(ResponseUpdate::Finish(m)))
            },
            StreamEvent::Failed(f) => {
                self.finished = true;
                Err(LanguageModelError::PermanentError(failure_text(&f)))
            },
            StreamEvent::Error(msg) => {
                self.finished = true;
                Err(LanguageModelError::PermanentError(msg))
            },
            StreamEvent::Other => Ok(None),
        }
    }

    /// Ends the stream; `true` when it was still running, that is when a final item is due.
    /// Only the first call on a running stream gives `true`.
    pub fn take_final(&mut self) -> (r: bool)
        ensures
            r == !old(self).spec_finished(),
            final(self).spec_finished(),
            final(self).spec_arguments() == old(self).spec_arguments(),
    {
        if self.finished {
            false
        } else {
            self.finished = true;
            true
        }
    }
}

/// What the underlying stream of events gave.
pub enum Polled {
    Event(StreamEvent),
    /// The client failed.
    Failed(ClientFailure),
    /// The stream ended.
    Ended,
}

/// What the adapter hands on for one result of the underlying stream.
#[derive(Debug)]
pub enum AdapterStep {
    /// An item built after applying the update to the accumulated completion, with a snapshot of
    /// the kind given.
    Item(ResponseUpdate, SnapshotKind),
    /// The final item of a stream that ended without finishing.
    FinalItem,
    Failure(LanguageModelError),
    /// Nothing yet: poll the underlying stream again.
    Continue,
    /// The adapted stream is over.
    Done,
}

/// Turns the events of a streamed response into chat-completion items, and ends after the first
/// failure, the response's end, or the end of the underlying stream.
pub struct ResponsesStreamAdapter {
    state: ResponsesStreamState,
    stream_full: bool,
    finished: bool,
}

impl ResponsesStreamAdapter {
    /// Whether the adapted stream is over.
    pub closed spec fn spec_finished(&self) -> bool {
        self.finished
    }

    /// Whether the response's state is over.
    pub closed spec fn spec_state_finished(&self) -> bool {
        self.state.spec_finished()
    }

    /// The arguments the response's state has gathered.
    pub closed spec fn spec_state_arguments(&self) -> Map<usize, String> {
        self.state.spec_arguments()
    }

    /// Whether full snapshots are streamed.
    pub closed spec fn spec_stream_full(&self) -> bool {
        self.stream_full
    }

    /// An adapter over a stream that has not started, streaming full snapshots when
    /// `stream_full` holds.
    pub fn new(stream_full: bool) -> (r: ResponsesStreamAdapter)
        ensures
            !r.spec_finished(),
            !r.spec_state_finished(),
            r.spec_stream_full() == stream_full,
    {
        ResponsesStreamAdapter { state: ResponsesStreamState::new(), stream_full, finished: false }
    }

    /// Handles one result of the underlying stream. Once the adapter is over, it gives `Done`.
    /// Otherwise an event is applied to the state (see [`ResponsesStreamState::apply_event`]):
    /// an update is handed on as an item and ends the adapter when it finishes the response, an
    /// ignored event asks for the next one, and an error is handed on and ends the adapter. A
    /// client failure is handed on as its language model error and ends the adapter; the end of
    /// the underlying stream ends the adapter, with a final item when the response was still
    /// running.
    pub fn on_poll(&mut self, polled: Polled) -> (r: AdapterStep)
        ensures
            final(self).spec_stream_full() == old(self).spec_stream_full(),
            old(self).spec_finished() ==> (r is Done) && *final(self) == *old(self),
            !old(self).spec_finished() ==> match polled {
                Polled::Event(e) => {
                    &&& !old(self).spec_state_finished() ==> match r {
                        AdapterStep::Item(u, k) => spec_event_outcome(e, spec_existing_for(old(self).spec_state_arguments(), e), Ok(Some(u)))
                            && final(self).spec_finished() == (u is Finish)
                            && k == spec_snapshot_kind(old(self).spec_stream_full(), u is Finish),
                        AdapterStep::Continue => spec_event_outcome(e, spec_existing_for(old(self).spec_state_arguments(), e), Ok(None))
                            && !final(self).spec_finished(),
                        AdapterStep::Failure(err) => spec_event_outcome(e, spec_existing_for(old(self).spec_state_arguments(), e), Err(err))
                            && final(self).spec_finished(),
                        _ => false,
                    }
                    &&& !old(self).spec_state_finished() ==> final(self).spec_state_finished() == spec_event_finishes(e)
                    &&& !old(self).spec_state_finished() ==> spec_gathers(
                        old(self).spec_state_arguments(),
                        final(self).spec_state_arguments(),
                        match r {
                            AdapterStep::Item(u, _) => Ok(Some(u)),
                            AdapterStep::Failure(err) => Err(err),
                            _ => Ok(None),
                        },
                    )
                    &&& old(self).spec_state_finished() ==> (r is Continue) && *final(self) == *old(self)
                },
                Polled::Failed(f) => (r matches AdapterStep::Failure(err) && spec_error_parts(err) == spec_client_failure_error(f))
                    && final(self).spec_finished(),
                Polled::Ended => (if old(self).spec_state_finished() { r is Done } else { r is FinalItem })
                    && final(self).spec_finished() && final(self).spec_state_finished(),
            },
    {
        if self.finished {
            return AdapterStep::Done;
        }
        match polled {
            Polled::Event(e) => match self.state.apply_event(e) {
                Ok(Some(u)) => {
                    let finishes = matches!(u, ResponseUpdate::Finish(_));
                    if finishes {
                        self.finished = true;
                    }
                    AdapterStep::Item(u, snapshot_kind(self.stream_full, finishes))
                },
                Ok(None) => AdapterStep::Continue,
                Err(err) => {
                    self.finished = true;
                    AdapterStep::Failure(err)
                },
            },
            Polled::Failed(f) => {
                self.finished = true;
                AdapterStep::Failure(openai_error_to_language_model_error(f))
            },
            Polled::Ended => {
                self.finished = true;
                if self.state.take_final() {
                    AdapterStep::FinalItem
                } else {
                    AdapterStep::Done
                }
            },
        }
    }
}

/// The status of a response.
#[derive(Clone, Copy, PartialEq, Eq, Structural, Debug)]
pub enum ResponseStatus {
    Completed,
    Failed,
    InProgress,
    Cancelled,
    Queued,
    Incomplete,
}

/// A response of the Responses API as a chat completion reads it: its status, its error if it
/// failed, its usage and its output items.
#[derive(Debug)]
pub struct Response {
    pub status: ResponseStatus,
    pub error: Option<ResponseFailure>,
    pub metadata: ResponseMetadata,
}

/// The text of a failed response: that of the reported error, if any (see
/// [`spec_error_text`]).
pub open spec fn spec_response_failure_text(f: Option<ResponseFailure>) -> Seq<char> {
    match f {
        Some(e) => spec_error_text(e),
        None => "OpenAI Responses API returned failure"@,
    }
}

/// The chat completion of a response that did not fail, where `output_text` is the output text
/// that the client library reports for it: that text when it is not empty, else the texts of its
/// messages (see [`spec_collected`]); its tool calls and reasoning items when it has some; its
/// usage when reported.
pub open spec fn spec_response_completion(r: Response, output_text: Option<Seq<char>>) -> <CompletionResponse as View>::V {
    let message = match output_text {
        Some(t) => if t.len() > 0 { Some(t) } else { spec_collected(spec_output_texts(r.metadata.output@)) },
        None => spec_collected(spec_output_texts(r.metadata.output@)),
    };
    let calls = spec_tool_calls_of(r.metadata.output@);
    let items = reasoning_view(spec_reasoning_items(r.metadata.output@));
    (
        message,
        if calls.len() > 0 { Some(calls) } else { None },
        match r.metadata.usage {
            Some(u) => Some(spec_convert_usage(u)),
            None => None,
        },
        if items.len() > 0 { Some(items) } else { None },
    )
}

/// The chat completion of a response (see [`spec_response_completion`]), where `output_text` is
/// the output text that the client library reports for it; a failed response is a permanent
/// error (see [`spec_response_failure_text`]).
pub fn response_to_chat_completion(response: &Response, output_text: Option<String>) -> (r: Result<
    CompletionResponse,
    LanguageModelError,
>)
    ensures
        response.status == ResponseStatus::Failed ==> (r matches Err(LanguageModelError::PermanentError(t))
            && t@ == spec_response_failure_text(response.error)),
        response.status != ResponseStatus::Failed ==> (r matches Ok(c)
            && c@ == spec_response_completion(*response, opt_view(output_text))),
{
    if response.status == ResponseStatus::Failed {
        let text = match &response.error {
            Some(e) => error_text(e),
            None => "OpenAI Responses API returned failure".to_owned(),
        };
        return Err(LanguageModelError::PermanentError(text));
    }
    let output = response.metadata.output.as_slice();
    let reasoning_items = collect_reasoning_items_from_items(output);
    let message = match output_text {
        Some(t) => if t.as_str().is_empty() {
            collect_message_text_from_items(output)
        } else {
            Some(t)
        },
        None => collect_message_text_from_items(output),
    };
    let tool_calls = collect_tool_calls_from_items(output);
    let usage = match &response.metadata.usage {
        Some(u) => Some(convert_usage(u)),
        None => None,
    };
    Ok(CompletionResponse {
        message,
        tool_calls: if tool_calls.len() > 0 { Some(tool_calls) } else { None },
        usage,
        reasoning: if reasoning_items.len() > 0 { Some(reasoning_items) } else { None },
    })
}

} // verus!
