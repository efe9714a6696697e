//! What the Chat Completions API answers, and how its answers and streamed chunks fill a chat
//! completion.
use vstd::prelude::*;
use crate::chat::ToolCall;
use crate::provider_error::{
    ClientFailure, LanguageModelError, openai_error_to_language_model_error, spec_client_failure_error,
    spec_error_parts,
};
use crate::text::{opt_view, copy_opt};
use crate::responses_output::{CompletionResponse, Usage, tool_calls_view};
use crate::tool_schema::{JsonValue, json_of_text, parse_json};
use crate::text::{chars_of, append_chars, string_from_chars};

verus! {

/// A tool call in an answer: a function call, or a custom tool call, which a chat completion
/// ignores.
#[derive(Debug)]
pub enum ChoiceToolCall {
    Function { id: String, name: String, arguments: String },
    Custom,
}

/// The message of an answer's choice.
#[derive(Debug)]
pub struct ChoiceMessage {
    pub content: Option<String>,
    pub tool_calls: Option<Vec<ChoiceToolCall>>,
}

/// Token counts as the Chat Completions API reports them.
#[derive(Clone, Copy, Debug)]
pub struct CompletionUsage {
    pub prompt_tokens: u32,
    pub completion_tokens: u32,
    pub total_tokens: u32,
}

/// An answer of the Chat Completions API: the message of its first choice, if any, and its
/// usage.
#[derive(Debug)]
pub struct ChatAnswer {
    pub first_choice: Option<ChoiceMessage>,
    pub usage: Option<CompletionUsage>,
}

/// The tool calls of the function calls among `calls`, in order; arguments are always present.
pub open spec fn spec_function_tool_calls(calls: Seq<ChoiceToolCall>) -> Seq<(Seq<char>, Seq<char>, Option<Seq<char>>)>
    decreases calls.len(),
{
    if calls.len() == 0 {
        Seq::empty()
    } else {
        let rest = spec_function_tool_calls(calls.drop_last());
        match calls.last() {
            ChoiceToolCall::Function { id, name, arguments } => rest.push((id@, name@, Some(arguments@))),
            ChoiceToolCall::Custom => rest,
        }
    }
}

/// The usage of a chat completion with the reported counts.
pub open spec fn spec_usage_of(u: CompletionUsage) -> Usage {
    Usage { prompt_tokens: u.prompt_tokens, completion_tokens: u.completion_tokens, total_tokens: u.total_tokens }
}

/// The chat completion of an answer: the first choice's text, the tool calls of its function
/// calls when it lists tool calls (see [`spec_function_tool_calls`]), the usage when reported,
/// and no reasoning.
pub open spec fn spec_answer_completion(a: ChatAnswer) -> <CompletionResponse as View>::V {
    let message = match a.first_choice {
        Some(c) => opt_view(c.content),
        None => None,
    };
    let tool_calls = match a.first_choice {
        Some(c) => match c.tool_calls {
            Some(v) => Some(spec_function_tool_calls(v@)),
            None => None,
        },
        None => None,
    };
    let usage = match a.usage {
        Some(u) => Some(spec_usage_of(u)),
        None => None,
    };
    (message, tool_calls, usage, None)
}

/// The completion of an answer reports the answer's usage count for count: prompt tokens as
/// prompt tokens, completion tokens as completion tokens, and the total; no usage when the answer
/// reports none. Its text is the first choice's text, and it has no reasoning.
pub proof fn lemma_answer_completion_usage(a: ChatAnswer)
    ensures
        a.usage is None ==> spec_answer_completion(a).2 is None,
        a.usage matches Some(u) ==> spec_answer_completion(a).2 matches Some(x) && x.prompt_tokens
            == u.prompt_tokens && x.completion_tokens == u.completion_tokens && x.total_tokens
            == u.total_tokens,
        a.first_choice matches Some(c) ==> spec_answer_completion(a).0 == opt_view(c.content),
        a.first_choice is None ==> spec_answer_completion(a).0 is None && spec_answer_completion(a).1 is None,
        spec_answer_completion(a).3 is None,
{
}

/// The updates of a streamed chunk report its usage count for count.
pub proof fn lemma_chunk_updates_usage(c: ChatChunk, u: ChunkUpdates)
    requires
        spec_chunk_updates(c, u),
    ensures
        c.usage is None ==> u.usage is None,
        c.usage matches Some(x) ==> u.usage matches Some(y) && y.prompt_tokens == x.prompt_tokens
            && y.completion_tokens == x.completion_tokens && y.total_tokens == x.total_tokens,
{
}

/// When every listed tool call is a function call, each becomes a tool call with the same id,
/// name and arguments, in the same order; custom tool calls are left out.
pub proof fn lemma_function_tool_calls(calls: Seq<ChoiceToolCall>)
    ensures
        (forall|i: int| 0 <= i < calls.len() ==> (#[trigger] calls[i]) is Function) ==> {
            &&& spec_function_tool_calls(calls).len() == calls.len()
            &&& forall|i: int|
                0 <= i < calls.len() ==> #[trigger] spec_function_tool_calls(calls)[i] == (
                    calls[i]->Function_id@,
                    calls[i]->Function_name@,
                    Some(calls[i]->Function_arguments@),
                )
        },
        spec_function_tool_calls(calls.push(ChoiceToolCall::Custom)) == spec_function_tool_calls(calls),
        spec_function_tool_calls(calls).len() <= calls.len(),
    decreases calls.len(),
{
    assert(calls.push(ChoiceToolCall::Custom).drop_last() =~= calls);
    if calls.len() > 0 {
        let d = calls.drop_last();
        lemma_function_tool_calls(d);
        if forall|i: int| 0 <= i < calls.len() ==> (#[trigger] calls[i]) is Function {
            assert forall|i: int| 0 <= i < d.len() implies (#[trigger] d[i]) is Function by {
                assert(d[i] == calls[i]);
            }
            assert forall|i: int| 0 <= i < calls.len() implies #[trigger] spec_function_tool_calls(calls)[i] == (
                calls[i]->Function_id@,
                calls[i]->Function_name@,
                Some(calls[i]->Function_arguments@),
            ) by {
                if i < d.len() {
                    assert(d[i] == calls[i]);
                    assert(spec_function_tool_calls(d)[i] == spec_function_tool_calls(calls)[i]);
                }
            }
        }
    }
}

fn function_tool_calls(calls: &Vec<ChoiceToolCall>) -> (r: Vec<ToolCall>)
    ensures
        tool_calls_view(r@) == spec_function_tool_calls(calls@),
{
    let mut out: Vec<ToolCall> = Vec::new();
    let mut i: usize = 0;
    while i < calls.len()
        invariant
            i <= calls@.len(),
            tool_calls_view(out@) == spec_function_tool_calls(calls@.subrange(0, i as int)),
        decreases calls@.len() - i,
    {
        proof {
            assert(calls@.subrange(0, i + 1).drop_last() =~= calls@.subrange(0, i as int));
        }
        match &calls[i] {
            ChoiceToolCall::Function { id, name, arguments } => {
                let ghost before = out@;
                let tc = ToolCall { id: id.clone(), name: name.clone(), args: Some(arguments.clone()) };
                out.push(tc);
                proof {
                    assert(tool_calls_view(out@) =~= tool_calls_view(before).push(tc@));
                }
            },
            ChoiceToolCall::Custom => {},
        }
        i = i + 1;
    }
    proof {
        assert(calls@.subrange(0, calls@.len() as int) =~= calls@);
    }
    out
}

/// The chat completion of an answer (see [`spec_answer_completion`]).
pub fn answer_to_completion(a: &ChatAnswer) -> (r: CompletionResponse)
    ensures
        r@ == spec_answer_completion(*a),
        a.usage is None ==> r.usage is None,
        a.usage matches Some(u) ==> r.usage matches Some(x) && x.prompt_tokens == u.prompt_tokens
            && x.completion_tokens == u.completion_tokens && x.total_tokens == u.total_tokens,
{
    let (message, tool_calls) = match &a.first_choice {
        Some(c) => {
            let message = copy_opt(&c.content);
            let tool_calls = match &c.tool_calls {
                Some(v) => Some(function_tool_calls(v)),
                None => None,
            };
            (message, tool_calls)
        },
        None => (None, None),
    };
    let usage = match &a.usage {
        Some(u) => Some(Usage { prompt_tokens: u.prompt_tokens, completion_tokens: u.completion_tokens, total_tokens: u.total_tokens }),
        None => None,
    };
    CompletionResponse { message, tool_calls, usage, reasoning: None }
}

/// A piece of a tool call in a streamed chunk.
#[derive(Debug)]
pub struct ToolCallChunk {
    pub index: u32,
    pub id: Option<String>,
    pub name: Option<String>,
    pub arguments: Option<String>,
}

/// The delta of a streamed chunk's first choice.
#[derive(Debug)]
pub struct ChoiceDelta {
    pub content: Option<String>,
    pub tool_calls: Option<Vec<ToolCallChunk>>,
}

/// A chunk of a streamed answer.
#[derive(Debug)]
pub struct ChatChunk {
    pub first_choice: Option<ChoiceDelta>,
    pub usage: Option<CompletionUsage>,
}

/// A tool call update: the tool call at `index` gets the given identifier and name and the
/// given arguments appended.
#[derive(Debug)]
pub struct ToolCallUpdate {
    pub index: usize,
    pub id: Option<String>,
    pub name: Option<String>,
    pub arguments: Option<String>,
}

/// What a chunk asks of the accumulated completion, in this order: append the message text, if
/// any; apply the tool call updates; add the usage, if reported.
#[derive(Debug)]
pub struct ChunkUpdates {
    pub message: Option<String>,
    pub tool_calls: Vec<ToolCallUpdate>,
    pub usage: Option<Usage>,
}

impl View for ToolCallUpdate {
    type V = (int, Option<Seq<char>>, Option<Seq<char>>, Option<Seq<char>>);

    open spec fn view(&self) -> Self::V {
        (self.index as int, opt_view(self.id), opt_view(self.name), opt_view(self.arguments))
    }
}

/// The update of a tool call piece: its index, identifier, name and arguments.
pub open spec fn spec_tool_call_update(c: ToolCallChunk) -> (int, Option<Seq<char>>, Option<Seq<char>>, Option<Seq<char>>) {
    (c.index as int, opt_view(c.id), opt_view(c.name), opt_view(c.arguments))
}

/// Whether `u` is what the chunk `c` asks: the first choice's text, one update per tool call
/// piece of the first choice (see [`spec_tool_call_update`]), and the usage when reported.
pub open spec fn spec_chunk_updates(c: ChatChunk, u: ChunkUpdates) -> bool {
    &&& opt_view(u.message) == match c.first_choice {
        Some(d) => opt_view(d.content),
        None => None,
    }
    &&& u.tool_calls@.map_values(|t: ToolCallUpdate| t@) == match c.first_choice {
        Some(d) => match d.tool_calls {
            Some(v) => v@.map_values(|t: ToolCallChunk| spec_tool_call_update(t)),
            None => Seq::empty(),
        },
        None => Seq::empty(),
    }
    &&& u.usage == match c.usage {
        Some(x) => Some(spec_usage_of(x)),
        None => None,
    }
}

/// What a chunk asks of the accumulated completion (see [`spec_chunk_updates`]).
pub fn chunk_updates(c: &ChatChunk) -> (r: ChunkUpdates)
    ensures
        spec_chunk_updates(*c, r),
        c.usage is None ==> r.usage is None,
        c.usage matches Some(x) ==> r.usage matches Some(y) && y.prompt_tokens == x.prompt_tokens
            && y.completion_tokens == x.completion_tokens && y.total_tokens == x.total_tokens,
{
    let mut tool_calls: Vec<ToolCallUpdate> = Vec::new();
    let message = match &c.first_choice {
        Some(d) => {
            match &d.tool_calls {
                Some(v) => {
                    let mut i: usize = 0;
                    while i < v.len()
                        invariant
                            i <= v@.len(),
                            tool_calls@.len() == i,
                            forall|k: int| 0 <= k < i ==> #[trigger] tool_calls@[k]@ == spec_tool_call_update(v@[k]),
                        decreases v@.len() - i,
                    {
                        let t = &v[i];
                        tool_calls.push(ToolCallUpdate {
                            index: t.index as usize,
                            id: copy_opt(&t.id),
                            name: copy_opt(&t.name),
                            arguments: copy_opt(&t.arguments),
                        });
                        i = i + 1;
                    }
                    proof {
                        assert(tool_calls@.map_values(|t: ToolCallUpdate| t@)
                            =~= v@.map_values(|t: ToolCallChunk| spec_tool_call_update(t)));
                    }
                },
                None => {
                    proof {
                        assert(tool_calls@.map_values(|t: ToolCallUpdate| t@) =~= Seq::empty());
                    }
                },
            }
            copy_opt(&d.content)
        },
        None => {
            proof {
                assert(tool_calls@.map_values(|t: ToolCallUpdate| t@) =~= Seq::empty());
            }
            None
        },
    };
    let usage = match &c.usage {
        Some(u) => Some(Usage { prompt_tokens: u.prompt_tokens, completion_tokens: u.completion_tokens, total_tokens: u.total_tokens }),
        None => None,
    };
    ChunkUpdates { message, tool_calls, usage }
}

/// What the stream of chunks gave.
pub enum ChatPolled {
    Chunk(ChatChunk),
    Failed(ClientFailure),
    Ended,
}

/// How much of the accumulated completion a streamed item carries.
#[derive(Debug, PartialEq, Eq, Structural, Clone, Copy)]
pub enum SnapshotKind {
    /// The whole completion, the stream being over.
    Final,
    /// The whole completion so far.
    Full,
    /// Only the completion's identifier and its latest delta.
    DeltaOnly,
}

/// The snapshot a streamed item carries: the final one once the stream is over, else the whole
/// completion so far when full snapshots are streamed, else only the latest delta.
pub open spec fn spec_snapshot_kind(stream_full: bool, finished: bool) -> SnapshotKind {
    if finished {
        SnapshotKind::Final
    } else if stream_full {
        SnapshotKind::Full
    } else {
        SnapshotKind::DeltaOnly
    }
}

/// The snapshot a streamed item carries (see [`spec_snapshot_kind`]).
pub fn snapshot_kind(stream_full: bool, finished: bool) -> (r: SnapshotKind)
    ensures
        r == spec_snapshot_kind(stream_full, finished),
{
    if finished {
        SnapshotKind::Final
    } else if stream_full {
        SnapshotKind::Full
    } else {
        SnapshotKind::DeltaOnly
    }
}

/// What a streamed completion hands on for one result of the stream of chunks.
#[derive(Debug)]
pub enum ChatStreamStep {
    /// A snapshot of the kind given, taken after applying the updates.
    Item(ChunkUpdates, SnapshotKind),
    /// The final snapshot of the accumulated completion.
    Final,
    Failure(LanguageModelError),
    /// The streamed completion is over.
    Done,
}

/// The state of a streamed chat completion: whether full snapshots are streamed, and whether it
/// is over.
pub struct ChatStreamState {
    stream_full: bool,
    finished: bool,
}

impl ChatStreamState {
    /// Whether the streamed completion is over.
    pub closed spec fn spec_finished(&self) -> bool {
        self.finished
    }

    /// Whether full snapshots are streamed.
    pub closed spec fn spec_stream_full(&self) -> bool {
        self.stream_full
    }

    /// A streamed completion that has not started, streaming full snapshots when `stream_full`
    /// holds.
    pub fn new(stream_full: bool) -> (r: ChatStreamState)
        ensures
            !r.spec_finished(),
            r.spec_stream_full() == stream_full,
    {
        ChatStreamState { stream_full, finished: false }
    }

    /// Whether the streamed completion is over.
    pub fn is_finished(&self) -> (r: bool)
        ensures
            r == self.spec_finished(),
    {
        self.finished
    }

    /// Handles one result of the stream of chunks. Once over, it gives `Done`. Otherwise a chunk
    /// gives its updates (see [`chunk_updates`]) with a full or delta-only snapshot (see
    /// [`spec_snapshot_kind`]) and the stream goes on; a client failure gives
    /// its language model error and ends it; the end of the chunks gives the final snapshot and
    /// ends it.
    pub fn on_poll(&mut self, polled: ChatPolled) -> (r: ChatStreamStep)
        ensures
            final(self).spec_stream_full() == old(self).spec_stream_full(),
            old(self).spec_finished() ==> (r is Done) && final(self).spec_finished(),
            !old(self).spec_finished() ==> match polled {
                ChatPolled::Chunk(c) => (r matches ChatStreamStep::Item(u, k) && spec_chunk_updates(c, u)
                    && k == spec_snapshot_kind(old(self).spec_stream_full(), false))
                    && !final(self).spec_finished(),
                ChatPolled::Failed(f) => (r matches ChatStreamStep::Failure(e)
                    && spec_error_parts(e) == spec_client_failure_error(f)) && final(self).spec_finished(),
                ChatPolled::Ended => (r is Final) && final(self).spec_finished(),
            },
    {
        if self.finished {
            return ChatStreamStep::Done;
        }
        match polled {
            ChatPolled::Chunk(c) => ChatStreamStep::Item(chunk_updates(&c), snapshot_kind(self.stream_full, false)),
            ChatPolled::Failed(f) => {
                self.finished = true;
                ChatStreamStep::Failure(openai_error_to_language_model_error(f))
            },
            ChatPolled::Ended => {
                self.finished = true;
                ChatStreamStep::Final
            },
        }
    }
}

/// The model a request is sent to: the configured one (the prompt model for prompts and
/// completions, the embedding model for embeddings), or a permanent error when none is set.
pub fn require_model(model: &Option<String>) -> (r: Result<String, LanguageModelError>)
    ensures
        match *model {
            Some(m) => r matches Ok(s) && s@ == m@,
            None => r matches Err(LanguageModelError::PermanentError(t)) && t@ == "Model not set"@,
        },
{
    match model {
        Some(m) => Ok(m.clone()),
        None => Err(LanguageModelError::PermanentError("Model not set".to_owned())),
    }
}

/// The text a prompt answers with: the message, or a permanent error when there is none.
pub fn expect_content(message: Option<String>) -> (r: Result<String, LanguageModelError>)
    ensures
        match message {
            Some(m) => r matches Ok(s) && s@ == m@,
            None => r matches Err(LanguageModelError::PermanentError(t)) && t@ == "Expected content in response"@,
        },
{
    match message {
        Some(m) => Ok(m),
        None => Err(LanguageModelError::PermanentError("Expected content in response".to_owned())),
    }
}

/// The answer to a structured prompt: the message read as JSON (see [`json_of_text`]); a
/// permanent error when there is no message (see [`expect_content`]), or when the message is
/// not JSON, with the text `Failed to parse response`, a line break, a space and the message.
pub fn structured_answer(message: Option<String>) -> (r: Result<JsonValue, LanguageModelError>)
    ensures
        match message {
            None => r matches Err(LanguageModelError::PermanentError(t)) && t@ == "Expected content in response"@,
            Some(m) => match json_of_text(m@) {
                Some(v) => r matches Ok(x) && x == v,
                None => r matches Err(LanguageModelError::PermanentError(t))
                    && t@ == "Failed to parse response\n "@ + m@,
            },
        },
{
    let m = match expect_content(message) {
        Ok(m) => m,
        Err(e) => return Err(e),
    };
    match parse_json(m.as_str()) {
        Some(v) => Ok(v),
        None => {
            let mut t = chars_of("Failed to parse response\n ");
            let mc = chars_of(m.as_str());
            append_chars(&mut t, mc.as_slice());
            Err(LanguageModelError::PermanentError(string_from_chars(t.as_slice())))
        },
    }
}

/// The text of an answer to a prompt: the content of its first choice, or a permanent error
/// when there is none (see [`expect_content`]).
pub fn prompt_answer_text(a: &ChatAnswer) -> (r: Result<String, LanguageModelError>)
    ensures
        match a.first_choice {
            Some(c) => match c.content {
                Some(m) => r matches Ok(s) && s@ == m@,
                None => r matches Err(LanguageModelError::PermanentError(t)) && t@ == "Expected content in response"@,
            },
            None => r matches Err(LanguageModelError::PermanentError(t)) && t@ == "Expected content in response"@,
        },
{
    let content = match &a.first_choice {
        Some(c) => copy_opt(&c.content),
        None => None,
    };
    expect_content(content)
}

/// The usage of an embedding request: its prompt and total tokens, and no completion tokens.
pub fn embedding_usage(u: &CompletionUsage) -> (r: Usage)
    ensures
        r == (Usage { prompt_tokens: u.prompt_tokens, completion_tokens: 0, total_tokens: u.total_tokens }),
{
    Usage { prompt_tokens: u.prompt_tokens, completion_tokens: 0, total_tokens: u.total_tokens }
}

} // verus!
