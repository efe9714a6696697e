//! Keeping a prompt within a token budget by truncating its last textual message.
//!
//! Token counts come from an estimator outside the library, so the truncation runs as a state
//! machine: the caller estimates the tokens of the messages, hands the estimate to
//! [`TruncateLast::on_estimate`], and estimates again as long as it answers
//! [`OverflowStep::Estimate`].
use vstd::prelude::*;
use crate::chat::{ChatMessage, spec_message_text, spec_retexted};
use crate::pdf::{spec_join, push_joined};
use crate::provider_error::{
    LanguageModelError, ErrorClassification, spec_error_parts,
};
use crate::text::{
    chars_of, decimal_chars, spec_decimal_chars, spec_str_lines, str_lines, string_from_chars, append_chars,
};

verus! {

/// How a prompt that exceeds a token budget is handled.
pub enum TokenOverflowStrategy {
    /// Remove lines from the end of the last textual message until the prompt plus the reserved
    /// completion budget fits within `max_total_tokens`; the text `...more {n} lines` takes the
    /// place of the `n` removed lines.
    TruncateLast { max_total_tokens: u32, max_completion_tokens: u32 },
}

impl TokenOverflowStrategy {
    /// A run of the strategy on a prompt.
    pub fn start(&self) -> (r: TruncateLast)
        ensures
            match *self {
                TokenOverflowStrategy::TruncateLast { max_total_tokens, max_completion_tokens } => {
                    &&& r.spec_max_total_tokens() == max_total_tokens
                    &&& r.spec_completion_budget() == max_completion_tokens
                },
            },
            r.spec_target() is None,
            !r.spec_finished(),
    {
        match self {
            TokenOverflowStrategy::TruncateLast { max_total_tokens, max_completion_tokens } => {
                TruncateLast::new(*max_total_tokens, *max_completion_tokens)
            },
        }
    }

    /// The completion budget that requests must keep to once the prompt fits.
    pub fn enforced_completion_budget(&self) -> (r: Option<u32>)
        ensures
            match *self {
                TokenOverflowStrategy::TruncateLast { max_completion_tokens, .. } => r == Some(
                    max_completion_tokens,
                ),
            },
    {
        match self {
            TokenOverflowStrategy::TruncateLast { max_completion_tokens, .. } => Some(
                *max_completion_tokens,
            ),
        }
    }
}

/// What the caller does next.
pub enum OverflowStep {
    /// The prompt fits: send it.
    Fits,
    /// The messages were truncated further: estimate their tokens again.
    Estimate,
    /// The prompt cannot be made to fit, or its tokens could not be estimated.
    Failed(LanguageModelError),
}

/// A prompt of `tokens` tokens leaves room for `budget` completion tokens within `max_total`.
pub open spec fn spec_fits(tokens: int, budget: int, max_total: int) -> bool {
    tokens + budget <= max_total
}

/// `r` is a failure of the given classification and text.
pub open spec fn spec_failed(r: OverflowStep, c: ErrorClassification, text: Seq<char>) -> bool {
    r matches OverflowStep::Failed(e) && spec_error_parts(e) == (c, text)
}

/// The index of the last message that carries a text.
pub open spec fn spec_last_textual(msgs: Seq<ChatMessage>) -> Option<int>
    decreases msgs.len(),
{
    if msgs.len() == 0 {
        None
    } else if spec_message_text(msgs.last()) is Some {
        Some(msgs.len() - 1)
    } else {
        spec_last_textual(msgs.drop_last())
    }
}

/// The text that replaces a message of `lines` once its last `remove` lines are removed: the kept
/// lines joined by newlines and ended by a newline, then `...more {remove} lines`.
pub open spec fn spec_truncated_text(lines: Seq<Seq<char>>, remove: nat) -> Seq<char> {
    let keep = lines.len() - remove;
    let head = if keep > 0 {
        let joined = spec_join(lines.subrange(0, keep), seq!['\n']);
        if joined.len() > 0 && joined.last() == '\n' {
            joined
        } else {
            joined.push('\n')
        }
    } else {
        Seq::empty()
    };
    head + seq!['.', '.', '.', 'm', 'o', 'r', 'e', ' '] + spec_decimal_chars(remove) + seq![
        ' ',
        'l',
        'i',
        'n',
        'e',
        's',
    ]
}

/// `after` is `before` with the message at `i` given the text `text`.
pub open spec fn spec_replaced_at(
    before: Seq<ChatMessage>,
    after: Seq<ChatMessage>,
    i: int,
    text: Seq<char>,
) -> bool {
    &&& 0 <= i < before.len()
    &&& after.len() == before.len()
    &&& forall|j: int| 0 <= j < before.len() && j != i ==> after[j] == before[j]
    &&& spec_retexted(before[i], after[i], text)
}

/// The index of the last message that carries a text (see [`spec_last_textual`]).
pub fn last_textual(messages: &Vec<ChatMessage>) -> (r: Option<usize>)
    ensures
        match r {
            Some(i) => {
                &&& spec_last_textual(messages@) == Some(i as int)
                &&& i < messages@.len()
                &&& spec_message_text(messages@[i as int]) is Some
            },
            None => spec_last_textual(messages@) is None,
        },
{
    let mut i = messages.len();
    assert(messages@.subrange(0, i as int) =~= messages@);
    while i > 0
        invariant
            i <= messages@.len(),
            spec_last_textual(messages@) == spec_last_textual(messages@.subrange(0, i as int)),
        decreases i,
    {
        let ghost pre = messages@.subrange(0, i as int);
        assert(pre.last() == messages@[i - 1]);
        if messages[i - 1].text().is_some() {
            return Some(i - 1);
        }
        assert(pre.drop_last() =~= messages@.subrange(0, i - 1));
        i = i - 1;
    }
    assert(messages@.subrange(0, 0) =~= Seq::<ChatMessage>::empty());
    None
}

/// The text that replaces a message of `lines` once its last `remove` lines are removed (see
/// [`spec_truncated_text`]).
pub fn truncated_text(lines: &Vec<Vec<char>>, remove: usize) -> (r: String)
    requires
        1 <= remove <= lines@.len(),
    ensures
        r@ == spec_truncated_text(lines@.map_values(|l: Vec<char>| l@), remove as nat),
{
    let ghost views = lines@.map_values(|l: Vec<char>| l@);
    let keep = lines.len() - remove;
    let mut out: Vec<char> = Vec::new();
    let sep = ['\n'];
    let mut i: usize = 0;
    while i < keep
        invariant
            i <= keep,
            keep <= lines@.len(),
            sep@ == seq!['\n'],
            views == lines@.map_values(|l: Vec<char>| l@),
            out@ == spec_join(views.subrange(0, i as int), seq!['\n']),
        decreases keep - i,
    {
        push_joined(&mut out, i == 0, sep.as_slice(), lines[i].as_slice());
        proof {
            let next = views.subrange(0, i + 1);
            assert(next.drop_last() =~= views.subrange(0, i as int));
            if i == 0 {
                assert(spec_join(views.subrange(0, 0), seq!['\n']) =~= Seq::<char>::empty());
                assert(out@ =~= next[0]);
            }
        }
        i = i + 1;
    }
    let ghost joined = out@;
    if keep > 0 {
        let n = out.len();
        if !(n > 0 && out[n - 1] == '\n') {
            out.push('\n');
        }
    }
    let ghost head = out@;
    append_chars(&mut out, &['.', '.', '.', 'm', 'o', 'r', 'e', ' ']);
    let digits = decimal_chars(remove);
    append_chars(&mut out, digits.as_slice());
    append_chars(&mut out, &[' ', 'l', 'i', 'n', 'e', 's']);
    proof {
        if keep == 0 {
            assert(head =~= Seq::<char>::empty());
        }
        assert(out@ =~= spec_truncated_text(views, remove as nat));
    }
    string_from_chars(out.as_slice())
}

/// A run of the truncation on one prompt.
pub struct TruncateLast {
    max_total_tokens: u32,
    completion_budget: u32,
    /// The index of the message being truncated, once one was chosen.
    target: Option<usize>,
    /// The lines of that message before truncation.
    lines: Vec<Vec<char>>,
    /// How many of its lines are currently removed.
    removed: usize,
    finished: bool,
}

impl TruncateLast {
    /// Once a message is being truncated, between one and all of its lines are removed.
    #[verifier::type_invariant]
    spec fn removed_in_range(self) -> bool {
        &&& self.removed <= self.lines@.len()
        &&& self.target is Some ==> self.removed >= 1
    }

    /// The total token limit.
    pub closed spec fn spec_max_total_tokens(&self) -> u32 {
        self.max_total_tokens
    }

    /// The completion tokens reserved within the limit.
    pub closed spec fn spec_completion_budget(&self) -> u32 {
        self.completion_budget
    }

    /// The index of the message being truncated, once one was chosen.
    pub closed spec fn spec_target(&self) -> Option<int> {
        match self.target {
            Some(i) => Some(i as int),
            None => None,
        }
    }

    /// The lines of the message being truncated, before truncation.
    pub closed spec fn spec_lines(&self) -> Seq<Seq<char>> {
        self.lines@.map_values(|l: Vec<char>| l@)
    }

    /// How many lines of the message being truncated are removed.
    pub closed spec fn spec_removed(&self) -> nat {
        self.removed as nat
    }

    /// Whether the run has ended, with the prompt fitting or with a failure.
    pub closed spec fn spec_finished(&self) -> bool {
        self.finished
    }

    /// A run within `max_total_tokens`, reserving `completion_budget` tokens for the completion.
    pub fn new(max_total_tokens: u32, completion_budget: u32) -> (r: TruncateLast)
        ensures
            r.spec_max_total_tokens() == max_total_tokens,
            r.spec_completion_budget() == completion_budget,
            r.spec_target() is None,
            r.spec_removed() == 0,
            !r.spec_finished(),
    {
        TruncateLast {
            max_total_tokens,
            completion_budget,
            target: None,
            lines: Vec::new(),
            removed: 0,
            finished: false,
        }
    }

    /// Whether the run has ended.
    pub fn is_finished(&self) -> (r: bool)
        ensures
            r == self.spec_finished(),
    {
        self.finished
    }

    /// Ends the run with `r`.
    fn finish(&mut self, r: OverflowStep) -> (out: OverflowStep)
        ensures
            out == r,
            final(self).spec_finished(),
            final(self).spec_max_total_tokens() == old(self).spec_max_total_tokens(),
            final(self).spec_completion_budget() == old(self).spec_completion_budget(),
            final(self).spec_target() == old(self).spec_target(),
            final(self).spec_lines() == old(self).spec_lines(),
            final(self).spec_removed() == old(self).spec_removed(),
    {
        proof {
            use_type_invariant(&*self);
        }
        self.finished = true;
        r
    }

    /// Takes the token estimate of the messages as they are now and decides what comes next.
    ///
    /// An estimate that failed, or that does not fit in a `u32`, fails the run as a permanent
    /// error. A prompt that fits with the completion budget ends the run. Otherwise the last
    /// textual message is truncated one more line: on the first such step it is chosen and its
    /// lines taken, and each step replaces its text by its lines with one more removed from the
    /// end. The run fails as a context-length error when no message has a text, when that text has
    /// no line, when all lines are already removed, or when the message is gone or has lost its
    /// text. Only a step that asks for another estimate changes the messages.
    pub fn on_estimate(&mut self, messages: &mut Vec<ChatMessage>, estimate: Result<usize, String>) -> (r: OverflowStep)
        requires
            !old(self).spec_finished(),
        ensures
            final(self).spec_max_total_tokens() == old(self).spec_max_total_tokens(),
            final(self).spec_completion_budget() == old(self).spec_completion_budget(),
            (r is Estimate) == !final(self).spec_finished(),
            !(r is Estimate) ==> final(messages)@ == old(messages)@,
            match estimate {
                Err(e) => spec_failed(r, ErrorClassification::Permanent, e@),
                Ok(t) => {
                    let max = old(self).spec_max_total_tokens();
                    let budget = old(self).spec_completion_budget();
                    if t > u32::MAX {
                        spec_failed(r, ErrorClassification::Permanent, "token estimate overflow"@)
                    } else if spec_fits(t as int, budget as int, max as int) {
                        r is Fits
                    } else {
                        match old(self).spec_target() {
                            None => match spec_last_textual(old(messages)@) {
                                None => spec_failed(
                                    r,
                                    ErrorClassification::ContextLengthExceeded,
                                    "No textual message available to truncate"@,
                                ),
                                Some(i) => {
                                    let lines = spec_str_lines(
                                        spec_message_text(old(messages)@[i])->0,
                                    );
                                    if lines.len() == 0 {
                                        spec_failed(
                                            r,
                                            ErrorClassification::ContextLengthExceeded,
                                            "Last textual message is empty"@,
                                        )
                                    } else {
                                        &&& r is Estimate
                                        &&& final(self).spec_target() == Some(i)
                                        &&& final(self).spec_lines() == lines
                                        &&& final(self).spec_removed() == 1
                                        &&& spec_replaced_at(
                                            old(messages)@,
                                            final(messages)@,
                                            i,
                                            spec_truncated_text(lines, 1),
                                        )
                                    }
                                },
                            },
                            Some(i) => {
                                let lines = old(self).spec_lines();
                                let k = old(self).spec_removed();
                                if k >= lines.len() {
                                    spec_failed(
                                        r,
                                        ErrorClassification::ContextLengthExceeded,
                                        "Unable to truncate last message to fit token budget"@,
                                    )
                                } else if i >= old(messages)@.len() {
                                    spec_failed(
                                        r,
                                        ErrorClassification::ContextLengthExceeded,
                                        "message index missing"@,
                                    )
                                } else if spec_message_text(old(messages)@[i]) is None {
                                    spec_failed(
                                        r,
                                        ErrorClassification::ContextLengthExceeded,
                                        "message cannot be truncated"@,
                                    )
                                } else {
                                    &&& r is Estimate
                                    &&& final(self).spec_target() == Some(i)
                                    &&& final(self).spec_lines() == lines
                                    &&& final(self).spec_removed() == k + 1
                                    &&& spec_replaced_at(
                                        old(messages)@,
                                        final(messages)@,
                                        i,
                                        spec_truncated_text(lines, k + 1),
                                    )
                                }
                            },
                        }
                    }
                },
            },
    {
        proof {
            use_type_invariant(&*self);
        }
        let tokens = match estimate {
            Err(e) => {
                return self.finish(OverflowStep::Failed(LanguageModelError::PermanentError(e)));
            },
            Ok(t) => t,
        };
        if tokens > u32::MAX as usize {
            return self.finish(
                OverflowStep::Failed(
                    LanguageModelError::PermanentError("token estimate overflow".to_owned()),
                ),
            );
        }
        let total = tokens as u64 + self.completion_budget as u64;
        if total <= self.max_total_tokens as u64 {
            return self.finish(OverflowStep::Fits);
        }
        let idx = match self.target {
            Some(i) => {
                if self.removed >= self.lines.len() {
                    return self.finish(
                        OverflowStep::Failed(
                            LanguageModelError::ContextLengthExceeded(
                                "Unable to truncate last message to fit token budget".to_owned(),
                            ),
                        ),
                    );
                }
                i
            },
            None => {
                match last_textual(messages) {
                    None => {
                        return self.finish(
                            OverflowStep::Failed(
                                LanguageModelError::ContextLengthExceeded(
                                    "No textual message available to truncate".to_owned(),
                                ),
                            ),
                        );
                    },
                    Some(i) => i,
                }
            },
        };
        if idx >= messages.len() {
            return self.finish(
                OverflowStep::Failed(
                    LanguageModelError::ContextLengthExceeded("message index missing".to_owned()),
                ),
            );
        }
        let current = match messages[idx].text() {
            None => {
                return self.finish(
                    OverflowStep::Failed(
                        LanguageModelError::ContextLengthExceeded(
                            "message cannot be truncated".to_owned(),
                        ),
                    ),
                );
            },
            Some(t) => chars_of(t.as_str()),
        };
        if self.target.is_none() {
            let lines = str_lines(current.as_slice());
            if lines.len() == 0 {
                return self.finish(
                    OverflowStep::Failed(
                        LanguageModelError::ContextLengthExceeded(
                            "Last textual message is empty".to_owned(),
                        ),
                    ),
                );
            }
            self.removed = 0;
            self.lines = lines;
            self.removed = 1;
            self.target = Some(idx);
        } else {
            self.removed = self.removed + 1;
        }
        let text = truncated_text(&self.lines, self.removed);
        let ghost before = messages@;
        let ghost tv = text@;
        let old_message = messages.remove(idx);
        let new_message = old_message.with_text(text);
        messages.insert(idx, new_message);
        proof {
            assert(before[idx as int] == old_message);
            assert forall|j: int| 0 <= j < before.len() && j != idx implies messages@[j] == before[j] by {
                if j < idx {
                } else {
                }
            }
        }
        OverflowStep::Estimate
    }
}

} // verus!
