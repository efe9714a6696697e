//! Whether to send `reasoning_effort` to a provider, remembering the models that rejected it.
use vstd::prelude::*;
use crate::text::{chars_of, chars_eq, ascii_lower, ascii_lower_code};

verus! {

/// How requests handle `reasoning_effort`.
#[derive(Debug, PartialEq, Eq, Structural, Clone, Copy)]
pub enum ReasoningEffortMode {
    /// Send it, and retry once without it when the provider rejects it.
    Auto,
    /// Always send it and surface any rejection.
    Always,
    /// Never send it.
    Never,
}

impl ReasoningEffortMode {
    /// The default mode, `Auto`.
    pub fn default_mode() -> (r: ReasoningEffortMode)
        ensures
            r == ReasoningEffortMode::Auto,
    {
        ReasoningEffortMode::Auto
    }
}

/// The API a request goes to.
#[derive(Debug, PartialEq, Eq, Structural, Clone, Copy)]
pub enum ReasoningApi {
    ChatCompletions,
    Responses,
}

/// A model of an API that rejected `reasoning_effort`.
pub struct UnsupportedReasoningEffortKey {
    pub api: ReasoningApi,
    pub model: String,
}

impl UnsupportedReasoningEffortKey {
    /// The key for `model` on `api`.
    pub fn new(api: ReasoningApi, model: &str) -> (r: UnsupportedReasoningEffortKey)
        ensures
            r.api == api,
            r.model@ == model@,
    {
        UnsupportedReasoningEffortKey { api, model: model.to_owned() }
    }
}

/// The models known not to accept `reasoning_effort`.
pub struct ReasoningEffortCapabilities {
    unsupported: Vec<UnsupportedReasoningEffortKey>,
}

/// The (api, model) pairs of a list of keys.
pub open spec fn keys_view(v: Seq<UnsupportedReasoningEffortKey>) -> Set<(ReasoningApi, Seq<char>)> {
    Set::new(|k: (ReasoningApi, Seq<char>)| exists|i: int| 0 <= i < v.len() && (#[trigger] v[i]).api == k.0 && v[i].model@ == k.1)
}

impl View for ReasoningEffortCapabilities {
    type V = Set<(ReasoningApi, Seq<char>)>;

    closed spec fn view(&self) -> Set<(ReasoningApi, Seq<char>)> {
        keys_view(self.unsupported@)
    }
}

/// Whether `reasoning_effort` is sent: only when it is configured; always in `Always` mode, never
/// in `Never` mode, and in `Auto` mode unless the model is known not to accept it.
pub open spec fn spec_should_send(
    known: Set<(ReasoningApi, Seq<char>)>,
    mode: ReasoningEffortMode,
    is_configured: bool,
    api: ReasoningApi,
    model: Seq<char>,
) -> bool {
    is_configured && match mode {
        ReasoningEffortMode::Always => true,
        ReasoningEffortMode::Never => false,
        ReasoningEffortMode::Auto => !known.contains((api, model)),
    }
}

impl ReasoningEffortCapabilities {
    /// No model is known not to accept `reasoning_effort`.
    pub fn new() -> (r: ReasoningEffortCapabilities)
        ensures
            r@ == Set::<(ReasoningApi, Seq<char>)>::empty(),
    {
        let r = ReasoningEffortCapabilities { unsupported: Vec::new() };
        proof {
            assert(r@ =~= Set::<(ReasoningApi, Seq<char>)>::empty());
        }
        r
    }

    /// Whether `model` on `api` is known not to accept `reasoning_effort`.
    pub fn is_known_unsupported(&self, key: &UnsupportedReasoningEffortKey) -> (r: bool)
        ensures
            r == self@.contains((key.api, key.model@)),
    {
        let target = chars_of(key.model.as_str());
        let mut i: usize = 0;
        while i < self.unsupported.len()
            invariant
                i <= self.unsupported@.len(),
                target@ == key.model@,
                forall|j: int|
                    0 <= j < i ==> !((#[trigger] self.unsupported@[j]).api == key.api
                        && self.unsupported@[j].model@ == key.model@),
            decreases self.unsupported@.len() - i,
        {
            let entry = &self.unsupported[i];
            if entry.api == key.api {
                let m = chars_of(entry.model.as_str());
                if chars_eq(m.as_slice(), target.as_slice()) {
                    return true;
                }
            }
            i = i + 1;
        }
        false
    }

    /// Records that `model` on `api` does not accept `reasoning_effort`.
    pub fn mark_unsupported(&mut self, key: UnsupportedReasoningEffortKey)
        ensures
            final(self)@ == old(self)@.insert((key.api, key.model@)),
    {
        let ghost k = (key.api, key.model@);
        let ghost before = self.unsupported@;
        if !self.is_known_unsupported(&key) {
            self.unsupported.push(key);
        }
        proof {
            assert forall|x: (ReasoningApi, Seq<char>)| keys_view(self.unsupported@).contains(x) <==> keys_view(before).insert(k).contains(x) by {
                if keys_view(before).contains(x) {
                    let i = choose|i: int| 0 <= i < before.len() && (#[trigger] before[i]).api == x.0 && before[i].model@ == x.1;
                    assert(self.unsupported@[i] == before[i]);
                }
                if keys_view(self.unsupported@).contains(x) {
                    let i = choose|i: int| 0 <= i < self.unsupported@.len() && (#[trigger] self.unsupported@[i]).api == x.0 && self.unsupported@[i].model@ == x.1;
                    if i < before.len() {
                        assert(self.unsupported@[i] == before[i]);
                    }
                }
                if x == k && !keys_view(before).contains(x) {
                    assert(self.unsupported@[before.len() as int].api == x.0);
                }
            }
            assert(keys_view(self.unsupported@) =~= keys_view(before).insert(k));
        }
    }

    /// Whether to send `reasoning_effort` (see [`spec_should_send`]).
    pub fn should_send(&self, mode: ReasoningEffortMode, is_configured: bool, api: ReasoningApi, model: &str) -> (r: bool)
        ensures
            r == spec_should_send(self@, mode, is_configured, api, model@),
    {
        if !is_configured {
            return false;
        }
        match mode {
            ReasoningEffortMode::Always => true,
            ReasoningEffortMode::Never => false,
            ReasoningEffortMode::Auto => !self.is_known_unsupported(&UnsupportedReasoningEffortKey::new(api, model)),
        }
    }

    /// After a failed request: in `Auto` mode, when the provider rejected `reasoning_effort`, the
    /// model is recorded as not accepting it and the request should be retried without it. In
    /// every other case nothing changes and no retry is asked for. After a retry is asked for,
    /// `reasoning_effort` is no longer sent to that model in `Auto` mode.
    pub fn should_retry_without_reasoning_effort(
        &mut self,
        mode: ReasoningEffortMode,
        api: ReasoningApi,
        model: &str,
        error: &Option<ApiErrorInfo>,
    ) -> (r: bool)
        ensures
            r == (mode == ReasoningEffortMode::Auto && spec_rejects_reasoning_effort(*error)),
            r ==> final(self)@ == old(self)@.insert((api, model@)),
            !r ==> final(self)@ == old(self)@,
            r ==> !spec_should_send(final(self)@, ReasoningEffortMode::Auto, true, api, model@),
    {
        if mode != ReasoningEffortMode::Auto || !rejects_reasoning_effort(error) {
            return false;
        }
        self.mark_unsupported(UnsupportedReasoningEffortKey::new(api, model));
        true
    }
}

/// The parts of an API error that tell whether it rejects `reasoning_effort`.
pub struct ApiErrorInfo {
    pub message: String,
    pub param: Option<String>,
}

/// `needle` occurs in `hay`.
pub open spec fn spec_contains(hay: Seq<u32>, needle: Seq<u32>) -> bool {
    exists|i: int| 0 <= i && i + needle.len() <= hay.len() && #[trigger] hay.subrange(i, i + needle.len()) == needle
}

/// The code points of `s` with ASCII letters in lower case.
pub open spec fn spec_lower_codes(s: Seq<char>) -> Seq<u32> {
    s.map_values(|c: char| ascii_lower(c))
}

/// The code points of `s`.
pub open spec fn spec_codes(s: Seq<char>) -> Seq<u32> {
    s.map_values(|c: char| c as u32)
}

/// The phrases of a rejection of `reasoning_effort`.
pub open spec fn spec_rejection_phrases() -> (Seq<Seq<char>>, Seq<Seq<char>>) {
    (
        seq![
            seq!['r', 'e', 'a', 's', 'o', 'n', 'i', 'n', 'g', '_', 'e', 'f', 'f', 'o', 'r', 't'],
            seq!['r', 'e', 'a', 's', 'o', 'n', 'i', 'n', 'g', ' ', 'e', 'f', 'f', 'o', 'r', 't'],
        ],
        seq![
            seq!['u', 'n', 'r', 'e', 'c', 'o', 'g', 'n', 'i', 'z', 'e', 'd', ' ', 'r', 'e', 'q', 'u', 'e', 's', 't', ' ', 'a', 'r', 'g', 'u', 'm', 'e', 'n', 't'],
            seq!['u', 'n', 's', 'u', 'p', 'p', 'o', 'r', 't', 'e', 'd'],
            seq!['d', 'o', 'e', 's', ' ', 'n', 'o', 't', ' ', 's', 'u', 'p', 'p', 'o', 'r', 't'],
            seq!['n', 'o', 't', ' ', 's', 'u', 'p', 'p', 'o', 'r', 't', 'e', 'd'],
        ],
    )
}

/// Some phrase of `phrases` occurs in `hay`.
pub open spec fn spec_contains_any(hay: Seq<u32>, phrases: Seq<Seq<char>>) -> bool {
    exists|j: int| 0 <= j < phrases.len() && spec_contains(hay, spec_codes(#[trigger] phrases[j]))
}

/// Whether an API error rejects `reasoning_effort`: its parameter is `reasoning_effort` or
/// `reasoning.effort`, or its message (in ASCII lower case) mentions reasoning effort together with
/// an unrecognized or unsupported argument. Other errors never do.
pub open spec fn spec_rejects_reasoning_effort(e: Option<ApiErrorInfo>) -> bool {
    match e {
        None => false,
        Some(info) => {
            let param_hit = match info.param {
                Some(p) => p@ == seq!['r', 'e', 'a', 's', 'o', 'n', 'i', 'n', 'g', '_', 'e', 'f', 'f', 'o', 'r', 't']
                    || p@ == seq!['r', 'e', 'a', 's', 'o', 'n', 'i', 'n', 'g', '.', 'e', 'f', 'f', 'o', 'r', 't'],
                None => false,
            };
            let msg = spec_lower_codes(info.message@);
            param_hit || (spec_contains_any(msg, spec_rejection_phrases().0) && spec_contains_any(
                msg,
                spec_rejection_phrases().1,
            ))
        },
    }
}

/// An API error whose parameter is `reasoning_effort` (Chat Completions) or `reasoning.effort`
/// (Responses) rejects `reasoning_effort`, whatever its message.
pub proof fn lemma_param_rejects_reasoning_effort(message: String, param: String)
    requires
        param@ == seq!['r', 'e', 'a', 's', 'o', 'n', 'i', 'n', 'g', '_', 'e', 'f', 'f', 'o', 'r', 't']
            || param@ == seq!['r', 'e', 'a', 's', 'o', 'n', 'i', 'n', 'g', '.', 'e', 'f', 'f', 'o', 'r', 't'],
    ensures
        spec_rejects_reasoning_effort(Some(ApiErrorInfo { message, param: Some(param) })),
{
}

/// Without an API error there is no rejection of `reasoning_effort`.
pub proof fn lemma_no_error_no_rejection()
    ensures
        !spec_rejects_reasoning_effort(None),
{
}

/// A message that, in ASCII lower case, names reasoning effort (`reasoning_effort` or
/// `reasoning effort`) and calls an argument unrecognized or unsupported (`unrecognized request
/// argument`, `unsupported`, `does not support`, `not supported`) rejects `reasoning_effort`,
/// whatever the parameter.
pub proof fn lemma_message_rejects_reasoning_effort(message: String, param: Option<String>, a: Seq<char>, b: Seq<char>)
    requires
        a == seq!['r', 'e', 'a', 's', 'o', 'n', 'i', 'n', 'g', '_', 'e', 'f', 'f', 'o', 'r', 't']
            || a == seq!['r', 'e', 'a', 's', 'o', 'n', 'i', 'n', 'g', ' ', 'e', 'f', 'f', 'o', 'r', 't'],
        b == seq!['u', 'n', 'r', 'e', 'c', 'o', 'g', 'n', 'i', 'z', 'e', 'd', ' ', 'r', 'e', 'q', 'u', 'e', 's', 't', ' ', 'a', 'r', 'g', 'u', 'm', 'e', 'n', 't']
            || b == seq!['u', 'n', 's', 'u', 'p', 'p', 'o', 'r', 't', 'e', 'd']
            || b == seq!['d', 'o', 'e', 's', ' ', 'n', 'o', 't', ' ', 's', 'u', 'p', 'p', 'o', 'r', 't']
            || b == seq!['n', 'o', 't', ' ', 's', 'u', 'p', 'p', 'o', 'r', 't', 'e', 'd'],
        spec_contains(spec_lower_codes(message@), spec_codes(a)),
        spec_contains(spec_lower_codes(message@), spec_codes(b)),
    ensures
        spec_rejects_reasoning_effort(Some(ApiErrorInfo { message, param })),
{
    let msg = spec_lower_codes(message@);
    let phrases = spec_rejection_phrases();
    if a == seq!['r', 'e', 'a', 's', 'o', 'n', 'i', 'n', 'g', '_', 'e', 'f', 'f', 'o', 'r', 't'] {
        assert(phrases.0[0] == a);
    } else if a == seq!['r', 'e', 'a', 's', 'o', 'n', 'i', 'n', 'g', ' ', 'e', 'f', 'f', 'o', 'r', 't'] {
        assert(phrases.0[1] == a);
    }
    if b == seq!['u', 'n', 'r', 'e', 'c', 'o', 'g', 'n', 'i', 'z', 'e', 'd', ' ', 'r', 'e', 'q', 'u', 'e', 's', 't', ' ', 'a', 'r', 'g', 'u', 'm', 'e', 'n', 't'] {
        assert(phrases.1[0] == b);
    } else if b == seq!['u', 'n', 's', 'u', 'p', 'p', 'o', 'r', 't', 'e', 'd'] {
        assert(phrases.1[1] == b);
    } else if b == seq!['d', 'o', 'e', 's', ' ', 'n', 'o', 't', ' ', 's', 'u', 'p', 'p', 'o', 'r', 't'] {
        assert(phrases.1[2] == b);
    } else if b == seq!['n', 'o', 't', ' ', 's', 'u', 'p', 'p', 'o', 'r', 't', 'e', 'd'] {
        assert(phrases.1[3] == b);
    }
}

/// Whether `needle` occurs in `hay`.
pub fn contains_codes(hay: &Vec<u32>, needle: &Vec<u32>) -> (r: bool)
    ensures
        r == spec_contains(hay@, needle@),
{
    let h = hay.len();
    let n = needle.len();
    if n > h {
        return false;
    }
    let last = h - n;
    let mut i: usize = 0;
    while i <= last
        invariant
            h == hay@.len(),
            n == needle@.len(),
            last + n == h,
            i <= last,
            forall|k: int| 0 <= k < i ==> #[trigger] hay@.subrange(k, k + n) != needle@,
        ensures
            forall|k: int| 0 <= k <= last ==> #[trigger] hay@.subrange(k, k + n) != needle@,
        decreases last - i,
    {
        let mut j: usize = 0;
        let mut same = true;
        while j < n
            invariant
                h == hay@.len(),
                n == needle@.len(),
                last + n == h,
                i <= last,
                j <= n,
                same == forall|t: int| 0 <= t < j ==> hay@[i + t] == needle@[t],
            decreases n - j,
        {
            if hay[i + j] != needle[j] {
                same = false;
            }
            j = j + 1;
        }
        if same {
            assert(hay@.subrange(i as int, i + n) =~= needle@);
            return true;
        }
        assert(hay@.subrange(i as int, i + n) != needle@) by {
            let t = choose|t: int| 0 <= t < n && hay@[i + t] != needle@[t];
            assert(hay@.subrange(i as int, i + n)[t] == hay@[i + t]);
        }
        if i == last {
            break;
        }
        i = i + 1;
    }
    assert forall|k: int| 0 <= k && k + needle@.len() <= hay@.len() implies #[trigger] hay@.subrange(k, k + needle@.len()) != needle@ by {
        assert(k <= last);
    }
    false
}

fn lower_codes(s: &str) -> (r: Vec<u32>)
    ensures
        r@ == spec_lower_codes(s@),
{
    let c = chars_of(s);
    let mut out: Vec<u32> = Vec::new();
    let mut i: usize = 0;
    while i < c.len()
        invariant
            i <= c@.len(),
            c@ == s@,
            out@ == spec_lower_codes(c@.subrange(0, i as int)),
        decreases c@.len() - i,
    {
        out.push(ascii_lower_code(c[i]));
        proof {
            assert(spec_lower_codes(c@.subrange(0, i + 1)) =~= spec_lower_codes(c@.subrange(0, i as int)).push(ascii_lower(c@[i as int])));
        }
        i = i + 1;
    }
    proof {
        assert(c@.subrange(0, c@.len() as int) =~= c@);
    }
    out
}

fn codes(v: &Vec<char>) -> (r: Vec<u32>)
    ensures
        r@ == spec_codes(v@),
{
    let mut out: Vec<u32> = Vec::new();
    let mut i: usize = 0;
    while i < v.len()
        invariant
            i <= v@.len(),
            out@ == spec_codes(v@.subrange(0, i as int)),
        decreases v@.len() - i,
    {
        out.push(v[i] as u32);
        proof {
            assert(spec_codes(v@.subrange(0, i + 1)) =~= spec_codes(v@.subrange(0, i as int)).push(v@[i as int] as u32));
        }
        i = i + 1;
    }
    proof {
        assert(v@.subrange(0, v@.len() as int) =~= v@);
    }
    out
}

fn contains_any(hay: &Vec<u32>, phrases: &Vec<Vec<char>>) -> (r: bool)
    ensures
        r == spec_contains_any(hay@, phrases@.map_values(|p: Vec<char>| p@)),
{
    let ghost pv = phrases@.map_values(|p: Vec<char>| p@);
    let mut j: usize = 0;
    while j < phrases.len()
        invariant
            j <= phrases@.len(),
            pv == phrases@.map_values(|p: Vec<char>| p@),
            forall|k: int| 0 <= k < j ==> !spec_contains(hay@, spec_codes(#[trigger] pv[k])),
        decreases phrases@.len() - j,
    {
        let c = codes(&phrases[j]);
        if contains_codes(hay, &c) {
            assert(spec_contains(hay@, spec_codes(pv[j as int])));
            return true;
        }
        j = j + 1;
    }
    false
}

/// Whether an API error rejects `reasoning_effort` (see [`spec_rejects_reasoning_effort`]).
pub fn rejects_reasoning_effort(error: &Option<ApiErrorInfo>) -> (r: bool)
    ensures
        r == spec_rejects_reasoning_effort(*error),
{
    match error {
        None => false,
        Some(info) => {
            let param_hit = match &info.param {
                Some(p) => {
                    let pc = chars_of(p.as_str());
                    let a = vec!['r', 'e', 'a', 's', 'o', 'n', 'i', 'n', 'g', '_', 'e', 'f', 'f', 'o', 'r', 't'];
                    let b = vec!['r', 'e', 'a', 's', 'o', 'n', 'i', 'n', 'g', '.', 'e', 'f', 'f', 'o', 'r', 't'];
                    proof {
                        assert(a@ =~= seq!['r', 'e', 'a', 's', 'o', 'n', 'i', 'n', 'g', '_', 'e', 'f', 'f', 'o', 'r', 't']);
                        assert(b@ =~= seq!['r', 'e', 'a', 's', 'o', 'n', 'i', 'n', 'g', '.', 'e', 'f', 'f', 'o', 'r', 't']);
                    }
                    chars_eq(pc.as_slice(), a.as_slice()) || chars_eq(pc.as_slice(), b.as_slice())
                },
                None => false,
            };
            if param_hit {
                return true;
            }
            let msg = lower_codes(info.message.as_str());
            let mentions = vec![
                vec!['r', 'e', 'a', 's', 'o', 'n', 'i', 'n', 'g', '_', 'e', 'f', 'f', 'o', 'r', 't'],
                vec!['r', 'e', 'a', 's', 'o', 'n', 'i', 'n', 'g', ' ', 'e', 'f', 'f', 'o', 'r', 't'],
            ];
            let unsupported = vec![
                vec!['u', 'n', 'r', 'e', 'c', 'o', 'g', 'n', 'i', 'z', 'e', 'd', ' ', 'r', 'e', 'q', 'u', 'e', 's', 't', ' ', 'a', 'r', 'g', 'u', 'm', 'e', 'n', 't'],
                vec!['u', 'n', 's', 'u', 'p', 'p', 'o', 'r', 't', 'e', 'd'],
                vec!['d', 'o', 'e', 's', ' ', 'n', 'o', 't', ' ', 's', 'u', 'p', 'p', 'o', 'r', 't'],
                vec!['n', 'o', 't', ' ', 's', 'u', 'p', 'p', 'o', 'r', 't', 'e', 'd'],
            ];
            proof {
                let ph = spec_rejection_phrases();
                assert(mentions@.map_values(|p: Vec<char>| p@) =~= ph.0) by {
                    assert(mentions@[0]@ =~= ph.0[0]);
                    assert(mentions@[1]@ =~= ph.0[1]);
                }
                assert(unsupported@.map_values(|p: Vec<char>| p@) =~= ph.1) by {
                    assert(unsupported@[0]@ =~= ph.1[0]);
                    assert(unsupported@[1]@ =~= ph.1[1]);
                    assert(unsupported@[2]@ =~= ph.1[2]);
                    assert(unsupported@[3]@ =~= ph.1[3]);
                }
            }
            contains_any(&msg, &mentions) && contains_any(&msg, &unsupported)
        },
    }
}

} // verus!
