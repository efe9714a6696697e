//! The bookkeeping of a tracing layer that reports spans to Langfuse: which observation each
//! open span became, the trace they belong to, and the batch of events waiting to be sent.
use vstd::prelude::*;
use std::collections::HashMap;
use crate::text::{chars_of, chars_eq, opt_view};
use crate::tool_schema::{find_member, lemma_find_spec, spec_find, JsonValue};

verus! {

broadcast use vstd::std_specs::hash::group_hash_axioms;

/// The kind of a Langfuse observation.
#[derive(Debug, PartialEq, Eq, Structural, Clone, Copy)]
pub enum ObservationType {
    Span,
    Generation,
    Event,
}

/// The severity of a Langfuse observation.
#[derive(Debug, PartialEq, Eq, Structural, Clone, Copy)]
pub enum ObservationLevel {
    Debug,
    Default,
    Warning,
    Error,
}

/// The level of a tracing span or event.
#[derive(Debug, PartialEq, Eq, Structural, Clone, Copy)]
pub enum Level {
    Trace,
    Debug,
    Info,
    Warn,
    Error,
}

/// The observation level that a tracing level is reported with: errors and warnings keep their
/// level, information is the default level, and debug and trace output are debug.
pub open spec fn spec_map_level(level: Level) -> ObservationLevel {
    match level {
        Level::Error => ObservationLevel::Error,
        Level::Warn => ObservationLevel::Warning,
        Level::Info => ObservationLevel::Default,
        Level::Debug => ObservationLevel::Debug,
        Level::Trace => ObservationLevel::Debug,
    }
}

/// The observation level of a tracing level (see [`spec_map_level`]).
pub fn map_level(level: &Level) -> (r: ObservationLevel)
    ensures
        r == spec_map_level(*level),
{
    match *level {
        Level::Error => ObservationLevel::Error,
        Level::Warn => ObservationLevel::Warning,
        Level::Info => ObservationLevel::Default,
        Level::Debug => ObservationLevel::Debug,
        Level::Trace => ObservationLevel::Debug,
    }
}

/// The observations of the open spans, by span id, and the id of the current trace.
pub struct SpanTracker {
    active_spans: HashMap<u64, (String, ObservationType)>,
    current_trace_id: Option<String>,
}

impl View for SpanTracker {
    type V = Map<u64, (String, ObservationType)>;

    closed spec fn view(&self) -> Map<u64, (String, ObservationType)> {
        self.active_spans@
    }
}

impl SpanTracker {
    /// The id of the current trace, once one was started.
    pub closed spec fn spec_trace_id(&self) -> Option<Seq<char>> {
        match self.current_trace_id {
            Some(t) => Some(t@),
            None => None,
        }
    }

    /// No span is tracked and no trace is started.
    pub fn new() -> (r: SpanTracker)
        ensures
            r@ == Map::<u64, (String, ObservationType)>::empty(),
            r.spec_trace_id() is None,
    {
        SpanTracker { active_spans: HashMap::new(), current_trace_id: None }
    }

    /// Records that span `span_id` became observation `observation_id` of kind `ty`, replacing
    /// what was recorded for it before.
    pub fn add_span(&mut self, span_id: u64, observation_id: String, ty: ObservationType)
        ensures
            final(self)@ == old(self)@.insert(span_id, (observation_id, ty)),
            final(self).spec_trace_id() == old(self).spec_trace_id(),
    {
        self.active_spans.insert(span_id, (observation_id, ty));
    }

    /// The observation recorded for span `span_id`, if any.
    pub fn get_span(&self, span_id: u64) -> (r: Option<&(String, ObservationType)>)
        ensures
            match r {
                Some(v) => self@.contains_key(span_id) && self@[span_id] == *v,
                None => !self@.contains_key(span_id),
            },
    {
        self.active_spans.get(&span_id)
    }

    /// Forgets span `span_id`, returning the observation recorded for it, if any.
    pub fn remove_span(&mut self, span_id: u64) -> (r: Option<(String, ObservationType)>)
        ensures
            final(self)@ == old(self)@.remove(span_id),
            final(self).spec_trace_id() == old(self).spec_trace_id(),
            match r {
                Some(v) => old(self)@.contains_key(span_id) && old(self)@[span_id] == v,
                None => !old(self)@.contains_key(span_id),
            },
    {
        self.active_spans.remove(&span_id)
    }

    /// The id of the current trace, starting one with `fresh_id` when there is none yet. The
    /// flag tells whether a trace was started, so that its creation can be reported.
    pub fn ensure_trace_id(&mut self, fresh_id: String) -> (r: (String, bool))
        ensures
            final(self)@ == old(self)@,
            match old(self).spec_trace_id() {
                Some(t) => r.0@ == t && !r.1 && final(self).spec_trace_id() == Some(t),
                None => r.0@ == fresh_id@ && r.1 && final(self).spec_trace_id() == Some(fresh_id@),
            },
    {
        match &self.current_trace_id {
            Some(t) => (t.clone(), false),
            None => {
                let id = fresh_id.clone();
                self.current_trace_id = Some(fresh_id);
                (id, true)
            },
        }
    }
}

/// Recording a span and then looking it up gives what was recorded; after it is removed, the
/// lookup finds nothing; and removing it gives back what was recorded.
pub proof fn lemma_span_round_trip(
    m: Map<u64, (String, ObservationType)>,
    span_id: u64,
    v: (String, ObservationType),
)
    ensures
        m.insert(span_id, v).contains_key(span_id),
        m.insert(span_id, v)[span_id] == v,
        !m.insert(span_id, v).remove(span_id).contains_key(span_id),
        forall|other: u64|
            other != span_id ==> #[trigger] m.insert(span_id, v).remove(span_id).contains_key(other)
                == m.contains_key(other),
{
}

/// A change to the observations of the open spans: recording one for a span, or forgetting a
/// span.
pub enum SpanOp {
    Add(u64, (String, ObservationType)),
    Remove(u64),
}

/// The observations of the open spans after applying `ops` in order to `m` (what
/// [`SpanTracker::add_span`] and [`SpanTracker::remove_span`] do).
pub open spec fn spec_apply_span_ops(
    m: Map<u64, (String, ObservationType)>,
    ops: Seq<SpanOp>,
) -> Map<u64, (String, ObservationType)>
    decreases ops.len(),
{
    if ops.len() == 0 {
        m
    } else {
        let before = spec_apply_span_ops(m, ops.drop_last());
        match ops.last() {
            SpanOp::Add(k, v) => before.insert(k, v),
            SpanOp::Remove(k) => before.remove(k),
        }
    }
}

/// The last change in `ops` to span `k`, if any.
pub open spec fn spec_last_span_op(ops: Seq<SpanOp>, k: u64) -> Option<SpanOp>
    decreases ops.len(),
{
    if ops.len() == 0 {
        None
    } else {
        match ops.last() {
            SpanOp::Add(j, _) => if j == k {
                Some(ops.last())
            } else {
                spec_last_span_op(ops.drop_last(), k)
            },
            SpanOp::Remove(j) => if j == k {
                Some(ops.last())
            } else {
                spec_last_span_op(ops.drop_last(), k)
            },
        }
    }
}

/// Starting from no open spans, after any sequence of recordings and removals a span has an
/// observation exactly when the last change to it recorded one, and then it has that
/// observation; a span never changed has none.
pub proof fn lemma_span_ops(ops: Seq<SpanOp>, k: u64)
    ensures
        match spec_last_span_op(ops, k) {
            Some(SpanOp::Add(_, v)) => spec_apply_span_ops(Map::empty(), ops).contains_key(k)
                && spec_apply_span_ops(Map::empty(), ops)[k] == v,
            _ => !spec_apply_span_ops(Map::empty(), ops).contains_key(k),
        },
    decreases ops.len(),
{
    if ops.len() > 0 {
        lemma_span_ops(ops.drop_last(), k);
    }
}

/// What becomes of a sent batch, from the numbers of events the ingestion accepted and
/// rejected.
#[derive(Debug, PartialEq, Eq, Structural, Clone, Copy)]
pub struct BatchSendOutcome {
    /// No event was accepted: the whole batch goes back into the queue to be sent again.
    pub requeue: bool,
    /// No event was accepted and some were rejected: the send is reported as failed.
    pub failed: bool,
}

/// The outcome of a batch send (see [`BatchSendOutcome`]).
pub fn batch_send_outcome(successes: usize, errors: usize) -> (r: BatchSendOutcome)
    ensures
        r.requeue == (successes == 0),
        r.failed == (successes == 0 && errors > 0),
{
    BatchSendOutcome { requeue: successes == 0, failed: successes == 0 && errors > 0 }
}

/// The events waiting to be sent, oldest first.
pub struct EventBatch<E> {
    events: Vec<E>,
}

impl<E> View for EventBatch<E> {
    type V = Seq<E>;

    closed spec fn view(&self) -> Seq<E> {
        self.events@
    }
}

impl<E> EventBatch<E> {
    /// No event is waiting.
    pub fn new() -> (r: EventBatch<E>)
        ensures
            r@ == Seq::<E>::empty(),
    {
        EventBatch { events: Vec::new() }
    }

    /// Queues an event.
    pub fn add_event(&mut self, event: E)
        ensures
            final(self)@ == old(self)@.push(event),
    {
        self.events.push(event);
    }

    /// Whether no event is waiting.
    pub fn is_empty(&self) -> (r: bool)
        ensures
            r == (self@.len() == 0),
    {
        self.events.len() == 0
    }

    /// Takes all waiting events, to be sent, leaving the queue empty.
    pub fn take_all(&mut self) -> (r: Vec<E>)
        ensures
            r@ == old(self)@,
            final(self)@ == Seq::<E>::empty(),
    {
        let mut taken: Vec<E> = Vec::new();
        std::mem::swap(&mut taken, &mut self.events);
        taken
    }

    /// Puts events of a failed send back, after those queued meanwhile.
    pub fn requeue(&mut self, events: Vec<E>)
        ensures
            final(self)@ == old(self)@ + events@,
    {
        let mut events = events;
        self.events.append(&mut events);
    }
}

/// Something that collects events to be sent to Langfuse.
pub trait BatchManagerTrait<E> {
    /// Takes an event to be sent.
    fn add_event(&mut self, event: E);
}

impl<E> BatchManagerTrait<E> for EventBatch<E> {
    fn add_event(&mut self, event: E)
        ensures
            final(self)@ == old(self)@.push(event),
    {
        self.events.push(event);
    }
}

/// Whether `key` starts with `langfuse.`, the prefix of the fields that Langfuse reads itself.
pub open spec fn spec_is_langfuse_key(key: Seq<char>) -> bool {
    key.len() >= 9 && key.subrange(0, 9) == langfuse_prefix()
}

/// The prefix `langfuse.`.
pub open spec fn langfuse_prefix() -> Seq<char> {
    seq!['l', 'a', 'n', 'g', 'f', 'u', 's', 'e', '.']
}

/// The entries whose keys do not start with `langfuse.`, in their order.
pub open spec fn spec_remaining<V>(entries: Seq<(String, V)>) -> Seq<(String, V)>
    decreases entries.len(),
{
    if entries.len() == 0 {
        Seq::empty()
    } else {
        let rest = spec_remaining(entries.drop_last());
        if spec_is_langfuse_key(entries.last().0@) {
            rest
        } else {
            rest.push(entries.last())
        }
    }
}

/// The remaining metadata holds no field that Langfuse reads itself, and taking what remains of
/// it again changes nothing.
pub proof fn lemma_remaining_has_no_langfuse_keys<V>(entries: Seq<(String, V)>)
    ensures
        forall|i: int|
            0 <= i < spec_remaining(entries).len() ==> !spec_is_langfuse_key(
                (#[trigger] spec_remaining(entries)[i]).0@,
            ),
        spec_remaining(entries).len() <= entries.len(),
        spec_remaining(spec_remaining(entries)) == spec_remaining(entries),
    decreases entries.len(),
{
    if entries.len() > 0 {
        let rest = entries.drop_last();
        lemma_remaining_has_no_langfuse_keys(rest);
        let kept = spec_remaining(rest);
        if !spec_is_langfuse_key(entries.last().0@) {
            let grown = kept.push(entries.last());
            assert(grown.drop_last() =~= kept);
            assert(grown.last() == entries.last());
            assert forall|i: int| 0 <= i < grown.len() implies !spec_is_langfuse_key(
                (#[trigger] grown[i]).0@,
            ) by {
                if i < kept.len() {
                    assert(grown[i] == kept[i]);
                }
            }
        }
    }
}

fn is_langfuse_key(key: &String) -> (r: bool)
    ensures
        r == spec_is_langfuse_key(key@),
{
    let c = chars_of(key.as_str());
    let prefix = ['l', 'a', 'n', 'g', 'f', 'u', 's', 'e', '.'];
    let ghost p = langfuse_prefix();
    assert(prefix@ =~= p);
    if c.len() < 9 {
        return false;
    }
    let mut i: usize = 0;
    while i < 9
        invariant
            i <= 9,
            c@ == key@,
            c@.len() >= 9,
            prefix@ == p,
            p == langfuse_prefix(),
            forall|j: int| 0 <= j < i ==> c@[j] == p[j],
        decreases 9 - i,
    {
        if c[i] != prefix[i] {
            assert(c@.subrange(0, 9)[i as int] != p[i as int]);
            assert(c@.subrange(0, 9) != p);
            return false;
        }
        i = i + 1;
    }
    assert(c@.subrange(0, 9) =~= p);
    true
}

/// The metadata without the fields that Langfuse reads itself (keys starting with `langfuse.`),
/// or `None` when nothing remains.
pub fn remaining_metadata<V>(entries: Vec<(String, V)>) -> (r: Option<Vec<(String, V)>>)
    ensures
        match r {
            Some(v) => v@ == spec_remaining(entries@) && v@.len() > 0,
            None => spec_remaining(entries@).len() == 0,
        },
{
    let ghost all = entries@;
    let mut rest = entries;
    let mut kept_rev: Vec<(String, V)> = Vec::new();
    // entries are taken from the back; `kept_rev` holds the kept ones in reverse order
    while rest.len() > 0
        invariant
            all == rest@ + all.subrange(rest@.len() as int, all.len() as int),
            rest@.len() <= all.len(),
            rest@ == all.subrange(0, rest@.len() as int),
            spec_remaining(all) == spec_remaining(rest@) + kept_rev@.reverse(),
        decreases rest@.len(),
    {
        let ghost before = rest@;
        let e = rest.pop().unwrap();
        proof {
            assert(before.drop_last() == rest@);
            assert(before.last() == e);
        }
        if !is_langfuse_key(&e.0) {
            let ghost kr = kept_rev@;
            kept_rev.push(e);
            proof {
                assert(kept_rev@.reverse() =~= seq![e] + kr.reverse());
                assert(spec_remaining(before) == spec_remaining(rest@).push(e));
                assert(spec_remaining(rest@).push(e) + kr.reverse() =~= spec_remaining(rest@) + (
                seq![e] + kr.reverse()));
            }
        } else {
            assert(spec_remaining(before) == spec_remaining(rest@));
        }
        proof {
            assert(rest@ == all.subrange(0, rest@.len() as int));
        }
    }
    let mut kept: Vec<(String, V)> = Vec::new();
    let ghost target = kept_rev@.reverse();
    while kept_rev.len() > 0
        invariant
            target == kept@ + kept_rev@.reverse(),
        decreases kept_rev@.len(),
    {
        let ghost before = kept_rev@;
        let e = kept_rev.pop().unwrap();
        kept.push(e);
        proof {
            assert(before.reverse() =~= seq![e] + kept_rev@.reverse());
            assert(kept@ + kept_rev@.reverse() =~= target);
        }
    }
    proof {
        assert(spec_remaining(rest@) == Seq::<(String, V)>::empty());
        assert(kept@ =~= target);
        assert(spec_remaining(all) =~= kept@);
    }
    if kept.len() == 0 {
        None
    } else {
        Some(kept)
    }
}

/// Serialised values for Langfuse; without the Langfuse integration nothing is serialised.
pub fn langfuse_json<T>(_value: &T) -> (r: Option<String>)
    ensures
        r is None,
{
    None
}

/// Where and as whom a Langfuse layer reports.
#[derive(Debug)]
pub struct LangfuseSettings {
    pub public_key: String,
    pub secret_key: String,
    pub base_url: String,
}

/// The address Langfuse is reached at when none is configured.
pub open spec fn spec_default_langfuse_url() -> Seq<char> {
    "http://localhost:3000"@
}

/// The first of two settings that is set, or the empty text when neither is.
pub open spec fn spec_first_setting(a: Option<String>, b: Option<String>) -> Seq<char> {
    match a {
        Some(x) => x@,
        None => match b {
            Some(y) => y@,
            None => Seq::empty(),
        },
    }
}

fn first_setting(a: Option<String>, b: Option<String>) -> (r: String)
    ensures
        r@ == spec_first_setting(a, b),
{
    match a {
        Some(x) => x,
        None => match b {
            Some(y) => y,
            None => String::new(),
        },
    }
}

/// The settings of a Langfuse layer from the configured values (each `None` when not set): the
/// public key and the secret key each come from their own setting or else from the
/// project-initialisation one; the address is the configured one or the local default. `None`
/// when either key ends up empty, as reporting needs both.
pub fn langfuse_settings(
    public_key: Option<String>,
    init_public_key: Option<String>,
    secret_key: Option<String>,
    init_secret_key: Option<String>,
    url: Option<String>,
) -> (r: Option<LangfuseSettings>)
    ensures
        ({
            let pk = spec_first_setting(public_key, init_public_key);
            let sk = spec_first_setting(secret_key, init_secret_key);
            if pk.len() == 0 || sk.len() == 0 {
                r is None
            } else {
                r matches Some(s) && s.public_key@ == pk && s.secret_key@ == sk && s.base_url@ == match url {
                    Some(u) => u@,
                    None => spec_default_langfuse_url(),
                }
            }
        }),
{
    let pk = first_setting(public_key, init_public_key);
    let sk = first_setting(secret_key, init_secret_key);
    if pk.as_str().is_empty() || sk.as_str().is_empty() {
        return None;
    }
    let base_url = match url {
        Some(u) => u,
        None => "http://localhost:3000".to_owned(),
    };
    Some(LangfuseSettings { public_key: pk, secret_key: sk, base_url })
}

/// An open span: the observation it became, its name, when it started, its level, the fields
/// recorded on it, and the span it was opened in.
#[derive(Debug)]
pub struct SpanData {
    pub observation_id: String,
    pub name: String,
    pub start_time: String,
    pub level: ObservationLevel,
    pub metadata: Vec<(String, JsonValue)>,
    pub parent_span_id: Option<u64>,
}

/// The value of the first field named `key`.
pub open spec fn spec_field(fields: Seq<(String, JsonValue)>, key: Seq<char>) -> Option<JsonValue> {
    match spec_find(fields, key) {
        Some(i) => Some(fields[i].1),
        None => None,
    }
}

/// The text of the first field named `key`, when that field holds a string.
pub open spec fn spec_text_field(fields: Seq<(String, JsonValue)>, key: Seq<char>) -> Option<
    Seq<char>,
> {
    match spec_field(fields, key) {
        Some(JsonValue::Str(t)) => Some(t@),
        _ => None,
    }
}

/// The observation type a span's `langfuse.type` field names: `SPAN`, `GENERATION` or `EVENT`;
/// without such a field the observation is a span.
pub open spec fn spec_observation_type(fields: Seq<(String, JsonValue)>) -> ObservationType {
    match spec_text_field(fields, "langfuse.type"@) {
        Some(t) => if t == "GENERATION"@ {
            ObservationType::Generation
        } else if t == "EVENT"@ {
            ObservationType::Event
        } else {
            ObservationType::Span
        },
        None => ObservationType::Span,
    }
}

/// The fields without the first one named `key`.
pub open spec fn spec_without_field(fields: Seq<(String, JsonValue)>, key: Seq<char>) -> Seq<
    (String, JsonValue),
> {
    match spec_find(fields, key) {
        Some(i) => fields.remove(i),
        None => fields,
    }
}

/// What Langfuse is told of an observation. Fields left `None` are not sent, but for the
/// parent observation, the metadata and the optional fields read from the span, which are sent
/// as empty when `None`.
#[derive(Debug)]
pub struct ObservationBody {
    pub id: String,
    pub trace_id: String,
    pub observation_type: ObservationType,
    pub name: Option<String>,
    pub start_time: Option<String>,
    pub level: Option<ObservationLevel>,
    pub parent_observation_id: Option<String>,
    pub metadata: Option<Vec<(String, JsonValue)>>,
    pub model: Option<String>,
    pub model_parameters: Option<JsonValue>,
    pub input: Option<JsonValue>,
    pub version: Option<String>,
    pub output: Option<JsonValue>,
    pub usage: Option<JsonValue>,
    pub status_message: Option<String>,
    pub environment: Option<String>,
}

/// `body` carries what the recorded `fields` tell Langfuse: the fields that Langfuse does not
/// read itself as metadata (see [`spec_remaining`]), and the `langfuse.` fields for the model,
/// its parameters, the input, the version, the output, the usage, the status message and the
/// environment.
pub open spec fn spec_reports_fields(body: ObservationBody, fields: Seq<(String, JsonValue)>) -> bool {
    &&& match body.metadata {
        Some(v) => v@ == spec_remaining(fields) && v@.len() > 0,
        None => spec_remaining(fields).len() == 0,
    }
    &&& opt_view(body.model) == spec_text_field(fields, "langfuse.model"@)
    &&& body.model_parameters == spec_field(fields, "langfuse.model_parameters"@)
    &&& body.input == spec_field(fields, "langfuse.input"@)
    &&& opt_view(body.version) == spec_text_field(fields, "langfuse.version"@)
    &&& body.output == spec_field(fields, "langfuse.output"@)
    &&& body.usage == spec_field(fields, "langfuse.usage"@)
    &&& opt_view(body.status_message) == spec_text_field(fields, "langfuse.status_message"@)
    &&& opt_view(body.environment) == spec_text_field(fields, "langfuse.environment"@)
}

/// Removing the first field named `taken` leaves the first field of any other name as it was.
proof fn lemma_field_kept(fields: Seq<(String, JsonValue)>, taken: Seq<char>, key: Seq<char>)
    requires
        taken != key,
    ensures
        spec_field(spec_without_field(fields, taken), key) == spec_field(fields, key),
{
    lemma_find_spec(fields, taken);
    lemma_find_spec(fields, key);
    if let Some(t) = spec_find(fields, taken) {
        let rest = fields.remove(t);
        lemma_find_spec(rest, key);
        match spec_find(fields, key) {
            Some(i) => {
                if i < t {
                    assert(rest[i] == fields[i]);
                    assert forall|j: int| 0 <= j < i implies (#[trigger] rest[j]).0@ != key by {
                        assert(rest[j] == fields[j]);
                    }
                    crate::tool_schema::lemma_find_first(rest, key, i);
                } else {
                    assert(i != t);
                    assert(rest[i - 1] == fields[i]);
                    assert forall|j: int| 0 <= j < i - 1 implies (#[trigger] rest[j]).0@ != key by {
                        if j < t {
                            assert(rest[j] == fields[j]);
                        } else {
                            assert(rest[j] == fields[j + 1]);
                        }
                    }
                    crate::tool_schema::lemma_find_first(rest, key, i - 1);
                }
            },
            None => {
                assert forall|j: int| 0 <= j < rest.len() implies (#[trigger] rest[j]).0@ != key by {
                    if j < t {
                        assert(rest[j] == fields[j]);
                    } else {
                        assert(rest[j] == fields[j + 1]);
                    }
                }
                crate::tool_schema::lemma_find_none(rest, key);
            },
        }
    }
}

/// Removing an entry whose key starts with `langfuse.` leaves the remaining metadata as it was.
proof fn lemma_remaining_remove<V>(entries: Seq<(String, V)>, i: int)
    requires
        0 <= i < entries.len(),
        spec_is_langfuse_key(entries[i].0@),
    ensures
        spec_remaining(entries.remove(i)) == spec_remaining(entries),
    decreases entries.len(),
{
    if i == entries.len() - 1 {
        assert(entries.remove(i) =~= entries.drop_last());
    } else {
        lemma_remaining_remove(entries.drop_last(), i);
        assert(entries.remove(i).drop_last() =~= entries.drop_last().remove(i));
        assert(entries.remove(i).last() == entries.last());
    }
}

/// Removing the first field with a `langfuse.` name leaves the remaining metadata as it was.
proof fn lemma_remaining_without(fields: Seq<(String, JsonValue)>, key: Seq<char>)
    requires
        spec_is_langfuse_key(key),
    ensures
        spec_remaining(spec_without_field(fields, key)) == spec_remaining(fields),
{
    lemma_find_spec(fields, key);
    if let Some(i) = spec_find(fields, key) {
        lemma_remaining_remove(fields, i);
    }
}

/// The text of the first field named `key`, when it holds a string.
fn text_field_of(fields: &Vec<(String, JsonValue)>, key: &str) -> (r: Option<String>)
    ensures
        opt_view(r) == spec_text_field(fields@, key@),
{
    match find_member(fields, key) {
        Some(i) => match &fields[i].1 {
            JsonValue::Str(t) => Some(t.clone()),
            _ => None,
        },
        None => None,
    }
}

/// Takes out the first field named `key` and gives its value.
fn take_field(fields: &mut Vec<(String, JsonValue)>, key: &str) -> (r: Option<JsonValue>)
    ensures
        r == spec_field(old(fields)@, key@),
        final(fields)@ == spec_without_field(old(fields)@, key@),
{
    match find_member(fields, key) {
        Some(i) => {
            let (_, value) = fields.remove(i);
            Some(value)
        },
        None => None,
    }
}

/// The observation type named in the recorded fields (see [`spec_observation_type`]).
pub fn observation_type_of(fields: &Vec<(String, JsonValue)>) -> (r: ObservationType)
    ensures
        r == spec_observation_type(fields@),
{
    match text_field_of(fields, "langfuse.type") {
        Some(t) => {
            let tc = chars_of(t.as_str());
            let generation = chars_of("GENERATION");
            let event = chars_of("EVENT");
            if chars_eq(tc.as_slice(), generation.as_slice()) {
                ObservationType::Generation
            } else if chars_eq(tc.as_slice(), event.as_slice()) {
                ObservationType::Event
            } else {
                ObservationType::Span
            }
        },
        None => ObservationType::Span,
    }
}

/// The names of the fields that are taken out of the metadata are distinct and start with
/// `langfuse.`.
proof fn lemma_taken_keys()
    ensures
        spec_is_langfuse_key("langfuse.input"@),
        spec_is_langfuse_key("langfuse.output"@),
        spec_is_langfuse_key("langfuse.model_parameters"@),
        spec_is_langfuse_key("langfuse.usage"@),
        "langfuse.input"@ != "langfuse.output"@,
        "langfuse.input"@ != "langfuse.model_parameters"@,
        "langfuse.input"@ != "langfuse.usage"@,
        "langfuse.output"@ != "langfuse.model_parameters"@,
        "langfuse.output"@ != "langfuse.usage"@,
        "langfuse.model_parameters"@ != "langfuse.usage"@,
{
    reveal_strlit("langfuse.input");
    reveal_strlit("langfuse.output");
    reveal_strlit("langfuse.model_parameters");
    reveal_strlit("langfuse.usage");
    assert("langfuse.input"@.subrange(0, 9) =~= langfuse_prefix());
    assert("langfuse.output"@.subrange(0, 9) =~= langfuse_prefix());
    assert("langfuse.model_parameters"@.subrange(0, 9) =~= langfuse_prefix());
    assert("langfuse.usage"@.subrange(0, 9) =~= langfuse_prefix());
    assert("langfuse.input"@[9] != "langfuse.output"@[9]);
    assert("langfuse.input"@[9] != "langfuse.model_parameters"@[9]);
    assert("langfuse.input"@[9] != "langfuse.usage"@[9]);
    assert("langfuse.output"@[9] != "langfuse.model_parameters"@[9]);
    assert("langfuse.output"@[9] != "langfuse.usage"@[9]);
    assert("langfuse.model_parameters"@[9] != "langfuse.usage"@[9]);
}

/// The update of the observation `observation_id` of type `observation_type`, in the trace
/// `trace_id`, for fields recorded on its span later: what the fields report (see
/// [`spec_reports_fields`]), and nothing of its name, start, level or parent.
pub fn observation_update_from(
    trace_id: &str,
    observation_id: &str,
    observation_type: ObservationType,
    fields: Vec<(String, JsonValue)>,
) -> (r: ObservationBody)
    ensures
        r.id@ == observation_id@,
        r.trace_id@ == trace_id@,
        r.observation_type == observation_type,
        r.name is None,
        r.start_time is None,
        r.level is None,
        r.parent_observation_id is None,
        spec_reports_fields(r, fields@),
{
    let ghost all = fields@;
    let model = text_field_of(&fields, "langfuse.model");
    let version = text_field_of(&fields, "langfuse.version");
    let status_message = text_field_of(&fields, "langfuse.status_message");
    let environment = text_field_of(&fields, "langfuse.environment");
    let mut rest = fields;
    proof {
        lemma_taken_keys();
    }
    let input = take_field(&mut rest, "langfuse.input");
    let ghost after_input = rest@;
    let output = take_field(&mut rest, "langfuse.output");
    let ghost after_output = rest@;
    let model_parameters = take_field(&mut rest, "langfuse.model_parameters");
    let ghost after_parameters = rest@;
    let usage = take_field(&mut rest, "langfuse.usage");
    proof {
        lemma_field_kept(all, "langfuse.input"@, "langfuse.output"@);
        lemma_field_kept(all, "langfuse.input"@, "langfuse.model_parameters"@);
        lemma_field_kept(all, "langfuse.input"@, "langfuse.usage"@);
        lemma_field_kept(after_input, "langfuse.output"@, "langfuse.model_parameters"@);
        lemma_field_kept(after_input, "langfuse.output"@, "langfuse.usage"@);
        lemma_field_kept(after_output, "langfuse.model_parameters"@, "langfuse.usage"@);
        lemma_remaining_without(all, "langfuse.input"@);
        lemma_remaining_without(after_input, "langfuse.output"@);
        lemma_remaining_without(after_output, "langfuse.model_parameters"@);
        lemma_remaining_without(after_parameters, "langfuse.usage"@);
    }
    let metadata = remaining_metadata(rest);
    ObservationBody {
        id: observation_id.to_owned(),
        trace_id: trace_id.to_owned(),
        observation_type,
        name: None,
        start_time: None,
        level: None,
        parent_observation_id: None,
        metadata,
        model,
        model_parameters,
        input,
        version,
        output,
        usage,
        status_message,
        environment,
    }
}

/// The observation that a newly opened span becomes, in the trace `trace_id`: its type named in
/// its fields (see [`spec_observation_type`]); its name from the `otel.name` field, else the
/// span's; its start from the `langfuse.start_time` field, else the span's; the span's level;
/// the parent observation given; and what its fields report (see [`spec_reports_fields`]).
pub fn observation_create_from(
    trace_id: &str,
    observation_id: &str,
    span: SpanData,
    parent_observation_id: Option<String>,
) -> (r: ObservationBody)
    ensures
        r.id@ == observation_id@,
        r.trace_id@ == trace_id@,
        r.observation_type == spec_observation_type(span.metadata@),
        r.name matches Some(n) && n@ == match spec_text_field(span.metadata@, "otel.name"@) {
            Some(t) => t,
            None => span.name@,
        },
        r.start_time matches Some(t) && t@ == match spec_text_field(
            span.metadata@,
            "langfuse.start_time"@,
        ) {
            Some(s) => s,
            None => span.start_time@,
        },
        r.level == Some(span.level),
        opt_view(r.parent_observation_id) == opt_view(parent_observation_id),
        spec_reports_fields(r, span.metadata@),
{
    let observation_type = observation_type_of(&span.metadata);
    let name = match text_field_of(&span.metadata, "otel.name") {
        Some(t) => t,
        None => span.name,
    };
    let start_time = match text_field_of(&span.metadata, "langfuse.start_time") {
        Some(t) => t,
        None => span.start_time,
    };
    let level = span.level;
    let body = observation_update_from(trace_id, observation_id, observation_type, span.metadata);
    ObservationBody {
        name: Some(name),
        start_time: Some(start_time),
        level: Some(level),
        parent_observation_id,
        ..body
    }
}


} // verus!
