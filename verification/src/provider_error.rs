//! Classification of errors reported by OpenAI-compatible providers into context-length,
//! permanent and transient failures.
use vstd::prelude::*;
use crate::text::{chars_of, chars_eq_ignore_ascii_case, eq_ignore_ascii_case, string_from_chars, opt_view, append_chars};

verus! {

/// How a provider failure should be handled.
#[derive(Debug, PartialEq, Eq, Structural, Clone, Copy)]
pub enum ErrorClassification {
    /// The request exceeded the model's context length.
    ContextLengthExceeded,
    /// Retrying cannot succeed.
    Permanent,
    /// Retrying may succeed.
    Transient,
}

/// A language model failure, with the text of the underlying error.
#[derive(Debug, PartialEq, Eq)]
pub enum LanguageModelError {
    ContextLengthExceeded(String),
    PermanentError(String),
    TransientError(String),
}

/// The identifiers OpenAI documents as non-retryable billing, spend and quota failures.
pub open spec fn spec_quota_errors() -> Seq<Seq<char>> {
    seq![
        seq!['i', 'n', 's', 'u', 'f', 'f', 'i', 'c', 'i', 'e', 'n', 't', '_', 'q', 'u', 'o', 't', 'a'],
        seq![
            'c', 'r', 'e', 'd', 'i', 't', '_', 'b', 'a', 'l', 'a', 'n', 'c', 'e', '_', 'e', 'x', 'h', 'a',
            'u', 's', 't', 'e', 'd',
        ],
        seq![
            'o', 'r', 'g', 'a', 'n', 'i', 'z', 'a', 't', 'i', 'o', 'n', '_', 's', 'p', 'e', 'n', 'd', '_',
            'l', 'i', 'm', 'i', 't', '_', 'e', 'x', 'c', 'e', 'e', 'd', 'e', 'd',
        ],
        seq![
            'p', 'r', 'o', 'j', 'e', 'c', 't', '_', 's', 'p', 'e', 'n', 'd', '_', 'l', 'i', 'm', 'i', 't',
            '_', 'e', 'x', 'c', 'e', 'e', 'd', 'e', 'd',
        ],
        seq![
            'o', 'r', 'g', 'a', 'n', 'i', 'z', 'a', 't', 'i', 'o', 'n', '_', 'u', 's', 'a', 'g', 'e', '_',
            'l', 'i', 'm', 'i', 't', '_', 'e', 'x', 'c', 'e', 'e', 'd', 'e', 'd',
        ],
    ]
}

/// The retryable OpenRouter error types.
pub open spec fn spec_transient_error_types() -> Seq<Seq<char>> {
    seq![
        seq!['r', 'a', 't', 'e', '_', 'l', 'i', 'm', 'i', 't', '_', 'e', 'x', 'c', 'e', 'e', 'd', 'e', 'd'],
        seq![
            'p', 'r', 'o', 'v', 'i', 'd', 'e', 'r', '_', 'o', 'v', 'e', 'r', 'l', 'o', 'a', 'd', 'e', 'd',
        ],
        seq![
            'p', 'r', 'o', 'v', 'i', 'd', 'e', 'r', '_', 'u', 'n', 'a', 'v', 'a', 'i', 'l', 'a', 'b', 'l',
            'e',
        ],
        seq!['s', 'e', 'r', 'v', 'e', 'r'],
        seq!['t', 'i', 'm', 'e', 'o', 'u', 't'],
    ]
}

/// The identifier of a context-length failure.
pub open spec fn spec_context_length_errors() -> Seq<Seq<char>> {
    seq![
        seq![
            'c', 'o', 'n', 't', 'e', 'x', 't', '_', 'l', 'e', 'n', 'g', 't', 'h', '_', 'e', 'x', 'c', 'e',
            'e', 'd', 'e', 'd',
        ],
    ]
}

/// Some identifier equals some expected identifier, ignoring ASCII case.
pub open spec fn spec_contains_identifier(ids: Seq<Seq<char>>, expected: Seq<Seq<char>>) -> bool {
    exists|i: int, j: int|
        0 <= i < ids.len() && 0 <= j < expected.len() && #[trigger] eq_ignore_ascii_case(
            ids[i],
            #[trigger] expected[j],
        )
}

/// The present identifiers among `ids`, in order.
pub open spec fn spec_present(ids: Seq<Option<Seq<char>>>) -> Seq<Seq<char>>
    decreases ids.len(),
{
    if ids.len() == 0 {
        Seq::empty()
    } else {
        let rest = spec_present(ids.drop_last());
        match ids.last() {
            Some(s) => rest.push(s),
            None => rest,
        }
    }
}

/// Whether an HTTP status is retryable: request timeout, too many requests, or a server error.
pub open spec fn spec_retryable_status(status: Option<u16>) -> bool {
    match status {
        Some(s) => s == 408 || s == 429 || (500 <= s && s <= 599),
        None => false,
    }
}

/// Classifies a failure from its HTTP status and its identifiers (codes and types): a
/// context-length identifier first; then OpenAI's quota identifiers, which are permanent even with
/// a retryable status; then OpenRouter's transient types or a retryable status; permanent
/// otherwise.
pub open spec fn spec_classify(status: Option<u16>, ids: Seq<Option<Seq<char>>>) -> ErrorClassification {
    let present = spec_present(ids);
    if spec_contains_identifier(present, spec_context_length_errors()) {
        ErrorClassification::ContextLengthExceeded
    } else if spec_contains_identifier(present, spec_quota_errors()) {
        ErrorClassification::Permanent
    } else if spec_contains_identifier(present, spec_transient_error_types())
        || spec_retryable_status(status) {
        ErrorClassification::Transient
    } else {
        ErrorClassification::Permanent
    }
}

/// The views of a vector of character vectors.
pub open spec fn char_vecs_view(v: Seq<Vec<char>>) -> Seq<Seq<char>> {
    v.map_values(|x: Vec<char>| x@)
}

fn quota_errors() -> (r: Vec<Vec<char>>)
    ensures
        char_vecs_view(r@) == spec_quota_errors(),
{
    let r = vec![
        vec!['i', 'n', 's', 'u', 'f', 'f', 'i', 'c', 'i', 'e', 'n', 't', '_', 'q', 'u', 'o', 't', 'a'],
        vec![
            'c', 'r', 'e', 'd', 'i', 't', '_', 'b', 'a', 'l', 'a', 'n', 'c', 'e', '_', 'e', 'x', 'h', 'a',
            'u', 's', 't', 'e', 'd',
        ],
        vec![
            'o', 'r', 'g', 'a', 'n', 'i', 'z', 'a', 't', 'i', 'o', 'n', '_', 's', 'p', 'e', 'n', 'd', '_',
            'l', 'i', 'm', 'i', 't', '_', 'e', 'x', 'c', 'e', 'e', 'd', 'e', 'd',
        ],
        vec![
            'p', 'r', 'o', 'j', 'e', 'c', 't', '_', 's', 'p', 'e', 'n', 'd', '_', 'l', 'i', 'm', 'i', 't',
            '_', 'e', 'x', 'c', 'e', 'e', 'd', 'e', 'd',
        ],
        vec![
            'o', 'r', 'g', 'a', 'n', 'i', 'z', 'a', 't', 'i', 'o', 'n', '_', 'u', 's', 'a', 'g', 'e', '_',
            'l', 'i', 'm', 'i', 't', '_', 'e', 'x', 'c', 'e', 'e', 'd', 'e', 'd',
        ],
    ];
    proof {
        assert(char_vecs_view(r@) =~= spec_quota_errors()) by {
            assert(r@[0]@ =~= spec_quota_errors()[0]);
            assert(r@[1]@ =~= spec_quota_errors()[1]);
            assert(r@[2]@ =~= spec_quota_errors()[2]);
            assert(r@[3]@ =~= spec_quota_errors()[3]);
            assert(r@[4]@ =~= spec_quota_errors()[4]);
        }
    }
    r
}

fn transient_error_types() -> (r: Vec<Vec<char>>)
    ensures
        char_vecs_view(r@) == spec_transient_error_types(),
{
    let r = vec![
        vec!['r', 'a', 't', 'e', '_', 'l', 'i', 'm', 'i', 't', '_', 'e', 'x', 'c', 'e', 'e', 'd', 'e', 'd'],
        vec![
            'p', 'r', 'o', 'v', 'i', 'd', 'e', 'r', '_', 'o', 'v', 'e', 'r', 'l', 'o', 'a', 'd', 'e', 'd',
        ],
        vec![
            'p', 'r', 'o', 'v', 'i', 'd', 'e', 'r', '_', 'u', 'n', 'a', 'v', 'a', 'i', 'l', 'a', 'b', 'l',
            'e',
        ],
        vec!['s', 'e', 'r', 'v', 'e', 'r'],
        vec!['t', 'i', 'm', 'e', 'o', 'u', 't'],
    ];
    proof {
        assert(char_vecs_view(r@) =~= spec_transient_error_types()) by {
            assert(r@[0]@ =~= spec_transient_error_types()[0]);
            assert(r@[1]@ =~= spec_transient_error_types()[1]);
            assert(r@[2]@ =~= spec_transient_error_types()[2]);
            assert(r@[3]@ =~= spec_transient_error_types()[3]);
            assert(r@[4]@ =~= spec_transient_error_types()[4]);
        }
    }
    r
}

fn context_length_errors() -> (r: Vec<Vec<char>>)
    ensures
        char_vecs_view(r@) == spec_context_length_errors(),
{
    let r = vec![
        vec![
            'c', 'o', 'n', 't', 'e', 'x', 't', '_', 'l', 'e', 'n', 'g', 't', 'h', '_', 'e', 'x', 'c', 'e',
            'e', 'd', 'e', 'd',
        ],
    ];
    proof {
        assert(char_vecs_view(r@) =~= spec_context_length_errors()) by {
            assert(r@[0]@ =~= spec_context_length_errors()[0]);
        }
    }
    r
}

/// Whether some identifier equals some expected identifier, ignoring ASCII case.
pub fn contains_identifier(identifiers: &Vec<Vec<char>>, expected: &Vec<Vec<char>>) -> (r: bool)
    ensures
        r == spec_contains_identifier(char_vecs_view(identifiers@), char_vecs_view(expected@)),
{
    let ghost ids = char_vecs_view(identifiers@);
    let ghost exp = char_vecs_view(expected@);
    let mut i: usize = 0;
    while i < identifiers.len()
        invariant
            i <= identifiers@.len(),
            ids == char_vecs_view(identifiers@),
            exp == char_vecs_view(expected@),
            forall|a: int, b: int|
                0 <= a < i && 0 <= b < exp.len() ==> !#[trigger] eq_ignore_ascii_case(
                    ids[a],
                    #[trigger] exp[b],
                ),
        decreases identifiers@.len() - i,
    {
        let mut j: usize = 0;
        while j < expected.len()
            invariant
                i < identifiers@.len(),
                j <= expected@.len(),
                ids == char_vecs_view(identifiers@),
                exp == char_vecs_view(expected@),
                forall|a: int, b: int|
                    0 <= a < i && 0 <= b < exp.len() ==> !#[trigger] eq_ignore_ascii_case(
                        ids[a],
                        #[trigger] exp[b],
                    ),
                forall|b: int| 0 <= b < j ==> !eq_ignore_ascii_case(ids[i as int], #[trigger] exp[b]),
            decreases expected@.len() - j,
        {
            if chars_eq_ignore_ascii_case(identifiers[i].as_slice(), expected[j].as_slice()) {
                assert(eq_ignore_ascii_case(ids[i as int], exp[j as int]));
                return true;
            }
            j = j + 1;
        }
        i = i + 1;
    }
    false
}

/// The present identifiers, as character vectors.
fn present_identifiers(ids: &Vec<Option<String>>) -> (r: Vec<Vec<char>>)
    ensures
        char_vecs_view(r@) == spec_present(ids@.map_values(|o: Option<String>| match o {
            Some(s) => Some(s@),
            None => None,
        })),
{
    let ghost v = ids@.map_values(|o: Option<String>| match o {
        Some(s) => Some(s@),
        None => None,
    });
    let mut out: Vec<Vec<char>> = Vec::new();
    let mut i: usize = 0;
    while i < ids.len()
        invariant
            i <= ids@.len(),
            v == ids@.map_values(|o: Option<String>| match o {
                Some(s) => Some(s@),
                None => None,
            }),
            char_vecs_view(out@) == spec_present(v.subrange(0, i as int)),
        decreases ids@.len() - i,
    {
        let ghost before = char_vecs_view(out@);
        proof {
            assert(v.subrange(0, i + 1).drop_last() =~= v.subrange(0, i as int));
        }
        match &ids[i] {
            Some(s) => {
                let c = chars_of(s.as_str());
                out.push(c);
                proof {
                    assert(char_vecs_view(out@) =~= before.push(c@));
                }
            },
            None => {},
        }
        i = i + 1;
    }
    proof {
        assert(v.subrange(0, ids@.len() as int) =~= v);
    }
    out
}

/// The views of optional strings.
pub open spec fn opt_strings_view(v: Seq<Option<String>>) -> Seq<Option<Seq<char>>> {
    v.map_values(|o: Option<String>| match o {
        Some(s) => Some(s@),
        None => None,
    })
}

/// Classifies a failure from its HTTP status and identifiers (see [`spec_classify`]).
pub fn classify_error(status: Option<u16>, identifiers: &Vec<Option<String>>) -> (r: ErrorClassification)
    ensures
        r == spec_classify(status, opt_strings_view(identifiers@)),
{
    let ids = present_identifiers(identifiers);
    if contains_identifier(&ids, &context_length_errors()) {
        return ErrorClassification::ContextLengthExceeded;
    }
    if contains_identifier(&ids, &quota_errors()) {
        return ErrorClassification::Permanent;
    }
    let retryable = match status {
        Some(s) => s == 408 || s == 429 || (500 <= s && s <= 599),
        None => false,
    };
    if contains_identifier(&ids, &transient_error_types()) || retryable {
        ErrorClassification::Transient
    } else {
        ErrorClassification::Permanent
    }
}

/// No present identifier of `ids` equals, ignoring ASCII case, an identifier of `expected`.
pub open spec fn spec_none_of(ids: Seq<Option<Seq<char>>>, expected: Seq<Seq<char>>) -> bool {
    forall|i: int, j: int|
        #![trigger ids[i], expected[j]]
        0 <= i < ids.len() && 0 <= j < expected.len() && ids[i] is Some ==> !eq_ignore_ascii_case(
            ids[i]->0,
            expected[j],
        )
}

/// Some present identifier of `ids` equals, ignoring ASCII case, an identifier of `expected`.
pub open spec fn spec_some_of(ids: Seq<Option<Seq<char>>>, expected: Seq<Seq<char>>) -> bool {
    exists|i: int, j: int|
        #![trigger ids[i], expected[j]]
        0 <= i < ids.len() && 0 <= j < expected.len() && ids[i] is Some && eq_ignore_ascii_case(
            ids[i]->0,
            expected[j],
        )
}

/// Every present identifier comes from `ids`, and every identifier of `ids` is present.
proof fn lemma_present(ids: Seq<Option<Seq<char>>>)
    ensures
        forall|p: int|
            0 <= p < spec_present(ids).len() ==> exists|i: int|
                0 <= i < ids.len() && ids[i] == Some(#[trigger] spec_present(ids)[p]),
        forall|i: int|
            0 <= i < ids.len() && ids[i] is Some ==> spec_present(ids).contains((#[trigger] ids[i])->0),
    decreases ids.len(),
{
    if ids.len() > 0 {
        let d = ids.drop_last();
        lemma_present(d);
        let rest = spec_present(d);
        assert forall|p: int| 0 <= p < spec_present(ids).len() implies exists|i: int|
            0 <= i < ids.len() && ids[i] == Some(#[trigger] spec_present(ids)[p]) by {
            if p < rest.len() {
                assert(spec_present(ids)[p] == rest[p]);
                let i = choose|i: int| 0 <= i < d.len() && d[i] == Some(#[trigger] rest[p]);
                assert(ids[i] == d[i]);
            } else {
                assert(ids[ids.len() - 1] == Some(spec_present(ids)[p]));
            }
        }
        assert forall|i: int| 0 <= i < ids.len() && ids[i] is Some implies spec_present(ids).contains(
            (#[trigger] ids[i])->0,
        ) by {
            if i < d.len() {
                assert(d[i] == ids[i]);
                assert(rest.contains(d[i]->0));
                let q = choose|q: int| 0 <= q < rest.len() && rest[q] == d[i]->0;
                assert(spec_present(ids)[q] == rest[q]);
            } else {
                assert(spec_present(ids) == rest.push(ids[i]->0));
                assert(spec_present(ids)[rest.len() as int] == ids[i]->0);
            }
        }
    }
}

/// Whether the present identifiers hold one of `expected` is whether `ids` does.
proof fn lemma_contains_present(ids: Seq<Option<Seq<char>>>, expected: Seq<Seq<char>>)
    ensures
        spec_contains_identifier(spec_present(ids), expected) == spec_some_of(ids, expected),
        spec_none_of(ids, expected) == !spec_some_of(ids, expected),
{
    lemma_present(ids);
    let present = spec_present(ids);
    if spec_contains_identifier(present, expected) {
        let (p, j) = choose|p: int, j: int|
            0 <= p < present.len() && 0 <= j < expected.len() && #[trigger] eq_ignore_ascii_case(
                present[p],
                #[trigger] expected[j],
            );
        let i = choose|i: int| 0 <= i < ids.len() && ids[i] == Some(#[trigger] present[p]);
        assert(eq_ignore_ascii_case(ids[i]->0, expected[j]));
    }
    if spec_some_of(ids, expected) {
        let (i, j) = choose|i: int, j: int|
            #![trigger ids[i], expected[j]]
            0 <= i < ids.len() && 0 <= j < expected.len() && ids[i] is Some && eq_ignore_ascii_case(
                ids[i]->0,
                expected[j],
            );
        assert(present.contains(ids[i]->0));
        let p = choose|p: int| 0 <= p < present.len() && present[p] == ids[i]->0;
        assert(eq_ignore_ascii_case(present[p], expected[j]));
    }
}

/// A request timeout (408), too many requests (429) and every server error (500 to 599) are
/// transient, unless an identifier says the context length or a quota was exceeded.
pub proof fn lemma_retryable_status_is_transient(s: u16, ids: Seq<Option<Seq<char>>>)
    requires
        s == 408 || s == 429 || (500 <= s && s <= 599),
        spec_none_of(ids, spec_context_length_errors()),
        spec_none_of(ids, spec_quota_errors()),
    ensures
        spec_classify(Some(s), ids) == ErrorClassification::Transient,
{
    lemma_contains_present(ids, spec_context_length_errors());
    lemma_contains_present(ids, spec_quota_errors());
}

/// Any other status, or none, is permanent when no identifier names a transient type, the
/// context length or a quota.
pub proof fn lemma_other_status_is_permanent(status: Option<u16>, ids: Seq<Option<Seq<char>>>)
    requires
        !(status == Some(408u16) || status == Some(429u16) || (status matches Some(s) && 500 <= s
            && s <= 599)),
        spec_none_of(ids, spec_context_length_errors()),
        spec_none_of(ids, spec_transient_error_types()),
    ensures
        spec_classify(status, ids) == ErrorClassification::Permanent,
{
    lemma_contains_present(ids, spec_context_length_errors());
    lemma_contains_present(ids, spec_quota_errors());
    lemma_contains_present(ids, spec_transient_error_types());
}

/// An OpenRouter transient type is transient whatever the status, unless an identifier says the
/// context length or a quota was exceeded.
pub proof fn lemma_transient_type_is_transient(status: Option<u16>, ids: Seq<Option<Seq<char>>>)
    requires
        spec_some_of(ids, spec_transient_error_types()),
        spec_none_of(ids, spec_context_length_errors()),
        spec_none_of(ids, spec_quota_errors()),
    ensures
        spec_classify(status, ids) == ErrorClassification::Transient,
{
    lemma_contains_present(ids, spec_context_length_errors());
    lemma_contains_present(ids, spec_quota_errors());
    lemma_contains_present(ids, spec_transient_error_types());
}

/// A context-length identifier wins whatever the status and the other identifiers.
pub proof fn lemma_context_length_wins(status: Option<u16>, ids: Seq<Option<Seq<char>>>)
    requires
        spec_some_of(ids, spec_context_length_errors()),
    ensures
        spec_classify(status, ids) == ErrorClassification::ContextLengthExceeded,
{
    lemma_contains_present(ids, spec_context_length_errors());
}

/// A quota identifier is permanent even with a retryable status or a transient type, unless a
/// context-length identifier is present too.
pub proof fn lemma_quota_is_permanent(status: Option<u16>, ids: Seq<Option<Seq<char>>>)
    requires
        spec_some_of(ids, spec_quota_errors()),
        spec_none_of(ids, spec_context_length_errors()),
    ensures
        spec_classify(status, ids) == ErrorClassification::Permanent,
{
    lemma_contains_present(ids, spec_context_length_errors());
    lemma_contains_present(ids, spec_quota_errors());
}

/// An identifier of `ids` that is one of `expected` makes `ids` hold one of `expected`.
proof fn lemma_some_of_at(ids: Seq<Option<Seq<char>>>, expected: Seq<Seq<char>>, i: int, j: int)
    requires
        0 <= i < ids.len(),
        0 <= j < expected.len(),
        ids[i] == Some(expected[j]),
    ensures
        spec_some_of(ids, expected),
{
    assert(eq_ignore_ascii_case(ids[i]->0, expected[j]));
}

/// OpenAI's billing, spend and quota identifiers (`insufficient_quota`,
/// `credit_balance_exhausted`, `organization_spend_limit_exceeded`,
/// `project_spend_limit_exceeded`, `organization_usage_limit_exceeded`) make a failure permanent
/// whatever the status, unless a context-length identifier is present.
pub proof fn lemma_quota_identifiers_are_permanent(status: Option<u16>, ids: Seq<Option<Seq<char>>>, i: int, q: Seq<char>)
    requires
        0 <= i < ids.len(),
        ids[i] == Some(q),
        q == seq!['i', 'n', 's', 'u', 'f', 'f', 'i', 'c', 'i', 'e', 'n', 't', '_', 'q', 'u', 'o', 't', 'a']
            || q == seq!['c', 'r', 'e', 'd', 'i', 't', '_', 'b', 'a', 'l', 'a', 'n', 'c', 'e', '_', 'e', 'x', 'h', 'a', 'u', 's', 't', 'e', 'd']
            || q == seq!['o', 'r', 'g', 'a', 'n', 'i', 'z', 'a', 't', 'i', 'o', 'n', '_', 's', 'p', 'e', 'n', 'd', '_', 'l', 'i', 'm', 'i', 't', '_', 'e', 'x', 'c', 'e', 'e', 'd', 'e', 'd']
            || q == seq!['p', 'r', 'o', 'j', 'e', 'c', 't', '_', 's', 'p', 'e', 'n', 'd', '_', 'l', 'i', 'm', 'i', 't', '_', 'e', 'x', 'c', 'e', 'e', 'd', 'e', 'd']
            || q == seq!['o', 'r', 'g', 'a', 'n', 'i', 'z', 'a', 't', 'i', 'o', 'n', '_', 'u', 's', 'a', 'g', 'e', '_', 'l', 'i', 'm', 'i', 't', '_', 'e', 'x', 'c', 'e', 'e', 'd', 'e', 'd'],
        spec_none_of(ids, spec_context_length_errors()),
    ensures
        spec_classify(status, ids) == ErrorClassification::Permanent,
{
    if q == seq!['i', 'n', 's', 'u', 'f', 'f', 'i', 'c', 'i', 'e', 'n', 't', '_', 'q', 'u', 'o', 't', 'a'] {
        lemma_some_of_at(ids, spec_quota_errors(), i, 0);
    } else if q == seq!['c', 'r', 'e', 'd', 'i', 't', '_', 'b', 'a', 'l', 'a', 'n', 'c', 'e', '_', 'e', 'x', 'h', 'a', 'u', 's', 't', 'e', 'd'] {
        lemma_some_of_at(ids, spec_quota_errors(), i, 1);
    } else if q == seq!['o', 'r', 'g', 'a', 'n', 'i', 'z', 'a', 't', 'i', 'o', 'n', '_', 's', 'p', 'e', 'n', 'd', '_', 'l', 'i', 'm', 'i', 't', '_', 'e', 'x', 'c', 'e', 'e', 'd', 'e', 'd'] {
        lemma_some_of_at(ids, spec_quota_errors(), i, 2);
    } else if q == seq!['p', 'r', 'o', 'j', 'e', 'c', 't', '_', 's', 'p', 'e', 'n', 'd', '_', 'l', 'i', 'm', 'i', 't', '_', 'e', 'x', 'c', 'e', 'e', 'd', 'e', 'd'] {
        lemma_some_of_at(ids, spec_quota_errors(), i, 3);
    } else if q == seq!['o', 'r', 'g', 'a', 'n', 'i', 'z', 'a', 't', 'i', 'o', 'n', '_', 'u', 's', 'a', 'g', 'e', '_', 'l', 'i', 'm', 'i', 't', '_', 'e', 'x', 'c', 'e', 'e', 'd', 'e', 'd'] {
        lemma_some_of_at(ids, spec_quota_errors(), i, 4);
    }
    lemma_quota_is_permanent(status, ids);
}

/// OpenRouter's transient types (`rate_limit_exceeded`, `provider_overloaded`,
/// `provider_unavailable`, `server`, `timeout`) make a failure transient whatever the status,
/// unless a context-length or quota identifier is present.
pub proof fn lemma_transient_types_are_transient(status: Option<u16>, ids: Seq<Option<Seq<char>>>, i: int, q: Seq<char>)
    requires
        0 <= i < ids.len(),
        ids[i] == Some(q),
        q == seq!['r', 'a', 't', 'e', '_', 'l', 'i', 'm', 'i', 't', '_', 'e', 'x', 'c', 'e', 'e', 'd', 'e', 'd']
            || q == seq!['p', 'r', 'o', 'v', 'i', 'd', 'e', 'r', '_', 'o', 'v', 'e', 'r', 'l', 'o', 'a', 'd', 'e', 'd']
            || q == seq!['p', 'r', 'o', 'v', 'i', 'd', 'e', 'r', '_', 'u', 'n', 'a', 'v', 'a', 'i', 'l', 'a', 'b', 'l', 'e']
            || q == seq!['s', 'e', 'r', 'v', 'e', 'r']
            || q == seq!['t', 'i', 'm', 'e', 'o', 'u', 't'],
        spec_none_of(ids, spec_context_length_errors()),
        spec_none_of(ids, spec_quota_errors()),
    ensures
        spec_classify(status, ids) == ErrorClassification::Transient,
{
    if q == seq!['r', 'a', 't', 'e', '_', 'l', 'i', 'm', 'i', 't', '_', 'e', 'x', 'c', 'e', 'e', 'd', 'e', 'd'] {
        lemma_some_of_at(ids, spec_transient_error_types(), i, 0);
    } else if q == seq!['p', 'r', 'o', 'v', 'i', 'd', 'e', 'r', '_', 'o', 'v', 'e', 'r', 'l', 'o', 'a', 'd', 'e', 'd'] {
        lemma_some_of_at(ids, spec_transient_error_types(), i, 1);
    } else if q == seq!['p', 'r', 'o', 'v', 'i', 'd', 'e', 'r', '_', 'u', 'n', 'a', 'v', 'a', 'i', 'l', 'a', 'b', 'l', 'e'] {
        lemma_some_of_at(ids, spec_transient_error_types(), i, 2);
    } else if q == seq!['s', 'e', 'r', 'v', 'e', 'r'] {
        lemma_some_of_at(ids, spec_transient_error_types(), i, 3);
    } else if q == seq!['t', 'i', 'm', 'e', 'o', 'u', 't'] {
        lemma_some_of_at(ids, spec_transient_error_types(), i, 4);
    }
    lemma_transient_type_is_transient(status, ids);
}

/// The identifier `context_length_exceeded` makes a failure a context-length failure whatever
/// the status and the other identifiers.
pub proof fn lemma_context_length_identifier(status: Option<u16>, ids: Seq<Option<Seq<char>>>, i: int)
    requires
        0 <= i < ids.len(),
        ids[i] == Some(seq!['c', 'o', 'n', 't', 'e', 'x', 't', '_', 'l', 'e', 'n', 'g', 't', 'h', '_', 'e', 'x', 'c', 'e', 'e', 'd', 'e', 'd']),
    ensures
        spec_classify(status, ids) == ErrorClassification::ContextLengthExceeded,
{
    lemma_some_of_at(ids, spec_context_length_errors(), i, 0);
    lemma_context_length_wins(status, ids);
}

/// The value of a sequence of decimal digits.
pub open spec fn spec_decimal(d: Seq<char>) -> int
    decreases d.len(),
{
    if d.len() == 0 {
        0
    } else {
        spec_decimal(d.drop_last()) * 10 + (d.last() as int - '0' as int)
    }
}

/// Whether `c` is an ASCII digit.
pub open spec fn spec_is_digit(c: char) -> bool {
    '0' <= c <= '9'
}

/// The digits part of an unsigned number: the text after an optional leading `+`.
pub open spec fn spec_unsigned_digits(s: Seq<char>) -> Seq<char> {
    if s.len() > 0 && s[0] == '+' {
        s.drop_first()
    } else {
        s
    }
}

/// Every character of `d` is an ASCII digit.
pub open spec fn spec_all_digits(d: Seq<char>) -> bool {
    forall|i: int| 0 <= i < d.len() ==> spec_is_digit(#[trigger] d[i])
}

/// The number a string denotes as an unsigned 16-bit integer (`u16::from_str`): an optional `+`
/// followed by at least one decimal digit, with a value that fits.
pub open spec fn spec_parse_u16(s: Seq<char>) -> Option<u16> {
    let d = spec_unsigned_digits(s);
    if d.len() == 0 || !spec_all_digits(d) {
        None
    } else if spec_decimal(d) > 65535 {
        None
    } else {
        Some(spec_decimal(d) as u16)
    }
}

proof fn lemma_decimal_nonneg(d: Seq<char>)
    requires
        forall|i: int| 0 <= i < d.len() ==> spec_is_digit(#[trigger] d[i]),
    ensures
        spec_decimal(d) >= 0,
    decreases d.len(),
{
    if d.len() > 0 {
        lemma_decimal_nonneg(d.drop_last());
    }
}

proof fn lemma_decimal_grows(d: Seq<char>, k: int)
    requires
        0 <= k <= d.len(),
        forall|i: int| 0 <= i < d.len() ==> spec_is_digit(#[trigger] d[i]),
    ensures
        spec_decimal(d.subrange(0, k)) <= spec_decimal(d),
    decreases d.len() - k,
{
    if k < d.len() {
        lemma_decimal_grows(d, k + 1);
        assert(d.subrange(0, k + 1).drop_last() =~= d.subrange(0, k));
        lemma_decimal_nonneg(d.subrange(0, k));
    } else {
        assert(d.subrange(0, k) =~= d);
    }
}

/// Parses an unsigned 16-bit integer (see [`spec_parse_u16`]).
pub fn parse_u16(s: &str) -> (r: Option<u16>)
    ensures
        r == spec_parse_u16(s@),
{
    let c = chars_of(s);
    let start: usize = if c.len() > 0 && c[0] == '+' { 1 } else { 0 };
    let ghost d = spec_unsigned_digits(s@);
    assert(d =~= c@.subrange(start as int, c@.len() as int));
    if start == c.len() {
        assert(d.len() == 0);
        return None;
    }
    let mut k = start;
    while k < c.len()
        invariant
            start <= k <= c@.len(),
            c@ == s@,
            d == spec_unsigned_digits(s@),
            d == c@.subrange(start as int, c@.len() as int),
            forall|i: int| start <= i < k ==> spec_is_digit(#[trigger] c@[i]),
        decreases c@.len() - k,
    {
        if !('0' <= c[k] && c[k] <= '9') {
            assert(d[k - start] == c@[k as int]);
            assert(!spec_is_digit(d[k - start]));
            assert(d.len() > 0);
            return None;
        }
        k = k + 1;
    }
    assert forall|i: int| 0 <= i < d.len() implies spec_is_digit(#[trigger] d[i]) by {
        assert(d[i] == c@[i + start]);
    }
    let mut value: u32 = 0;
    let mut k = start;
    while k < c.len()
        invariant
            start <= k <= c@.len(),
            c@ == s@,
            d == spec_unsigned_digits(s@),
            d == c@.subrange(start as int, c@.len() as int),
            forall|i: int| 0 <= i < d.len() ==> spec_is_digit(#[trigger] d[i]),
            value as int == spec_decimal(d.subrange(0, k - start)),
            value <= 65535,
        decreases c@.len() - k,
    {
        proof {
            assert(d.subrange(0, k + 1 - start).drop_last() =~= d.subrange(0, k - start));
            assert(d[k - start] == c@[k as int]);
            assert(spec_is_digit(d[k - start]));
            assert(d.subrange(0, k + 1 - start).last() == c@[k as int]);
        }
        let digit = (c[k] as u32) - ('0' as u32);
        let next = value * 10 + digit;
        if next > 65535 {
            proof {
                lemma_decimal_grows(d, k + 1 - start);
            }
            return None;
        }
        value = next;
        k = k + 1;
    }
    proof {
        assert(d.subrange(0, d.len() as int) =~= d);
    }
    Some(value as u16)
}

/// The HTTP status that an in-band error code denotes: a number between 100 and 999.
pub open spec fn spec_status_from_code(code: Option<Seq<char>>) -> Option<u16> {
    match code {
        Some(c) => match spec_parse_u16(c) {
            Some(n) => if 100 <= n && n <= 999 {
                Some(n)
            } else {
                None
            },
            None => None,
        },
        None => None,
    }
}

/// The HTTP status that an in-band error code denotes (see [`spec_status_from_code`]).
pub fn status_from_code(code: &Option<String>) -> (r: Option<u16>)
    ensures
        r == spec_status_from_code(match code {
            Some(s) => Some(s@),
            None => None,
        }),
{
    match code {
        Some(c) => match parse_u16(c.as_str()) {
            Some(n) => if 100 <= n && n <= 999 {
                Some(n)
            } else {
                None
            },
            None => None,
        },
        None => None,
    }
}

/// An error reported by a provider inside a response body.
pub struct ProviderError {
    pub message: String,
    pub code: Option<String>,
    pub error_type: Option<String>,
    pub provider_code: Option<String>,
}

/// The text of a provider error: `provider error: <message>` followed, when any is present, by
/// the code, type and provider code in parentheses.
pub open spec fn spec_provider_error_text(e: ProviderError) -> Seq<char> {
    let head = seq!['p', 'r', 'o', 'v', 'i', 'd', 'e', 'r', ' ', 'e', 'r', 'r', 'o', 'r', ':', ' ']
        + e.message@;
    let parts = spec_present(
        seq![
            match opt_view(e.code) {
                Some(v) => Some(seq!['c', 'o', 'd', 'e', ':', ' '] + v),
                None => None,
            },
            match opt_view(e.error_type) {
                Some(v) => Some(seq!['t', 'y', 'p', 'e', ':', ' '] + v),
                None => None,
            },
            match opt_view(e.provider_code) {
                Some(v) => Some(
                    seq!['p', 'r', 'o', 'v', 'i', 'd', 'e', 'r', ' ', 'c', 'o', 'd', 'e', ':', ' ']
                        + v,
                ),
                None => None,
            },
        ],
    );
    if parts.len() == 0 {
        head
    } else {
        head + seq![' ', '('] + crate::pdf::spec_join(parts, seq![',', ' ']) + seq![')']
    }
}

impl ProviderError {
    /// Classifies the error from its code (also read as an HTTP status), type and provider code.
    pub fn classification(&self) -> (r: ErrorClassification)
        ensures
            r == spec_classify(
                spec_status_from_code(opt_view(self.code)),
                seq![opt_view(self.code), opt_view(self.error_type), opt_view(self.provider_code)],
            ),
    {
        let status = status_from_code(&self.code);
        let ids = vec![self.code.clone(), self.error_type.clone(), self.provider_code.clone()];
        proof {
            assert(opt_strings_view(ids@) =~= seq![
                opt_view(self.code),
                opt_view(self.error_type),
                opt_view(self.provider_code),
            ]);
        }
        classify_error(status, &ids)
    }

    /// The text of the error (see [`spec_provider_error_text`]).
    pub fn to_display_string(&self) -> (r: String)
        ensures
            r@ == spec_provider_error_text(*self),
    {
        let head = vec!['p', 'r', 'o', 'v', 'i', 'd', 'e', 'r', ' ', 'e', 'r', 'r', 'o', 'r', ':', ' '];
        proof {
            assert(head@ =~= seq!['p', 'r', 'o', 'v', 'i', 'd', 'e', 'r', ' ', 'e', 'r', 'r', 'o', 'r', ':', ' ']);
        }
        let mut out: Vec<char> = head;
        let msg = chars_of(self.message.as_str());
        let mut parts: Vec<Vec<char>> = Vec::new();
        let ghost p_code = match opt_view(self.code) {
            Some(v) => Some(seq!['c', 'o', 'd', 'e', ':', ' '] + v),
            None => None,
        };
        let ghost p_type = match opt_view(self.error_type) {
            Some(v) => Some(seq!['t', 'y', 'p', 'e', ':', ' '] + v),
            None => None,
        };
        let ghost p_prov = match opt_view(self.provider_code) {
            Some(v) => Some(
                seq!['p', 'r', 'o', 'v', 'i', 'd', 'e', 'r', ' ', 'c', 'o', 'd', 'e', ':', ' '] + v,
            ),
            None => None,
        };
        let ghost all = seq![p_code, p_type, p_prov];
        assert(all.subrange(0, 0) =~= Seq::<Option<Seq<char>>>::empty());
        assert(spec_present(all.subrange(0, 0)) =~= Seq::<Seq<char>>::empty());
        match &self.code {
            Some(v) => {
                let mut p = vec!['c', 'o', 'd', 'e', ':', ' '];
                proof {
                    assert(p@ =~= seq!['c', 'o', 'd', 'e', ':', ' ']);
                }
                let vc = chars_of(v.as_str());
                append_chars(&mut p, vc.as_slice());
                let ghost before = char_vecs_view(parts@);
                parts.push(p);
                proof {
                    assert(char_vecs_view(parts@) =~= before.push(p@));
                }
            },
            None => {},
        }
        proof {
            assert(all.subrange(0, 1).drop_last() =~= all.subrange(0, 0));
            assert(char_vecs_view(parts@) =~= spec_present(all.subrange(0, 1)));
        }
        match &self.error_type {
            Some(v) => {
                let mut p = vec!['t', 'y', 'p', 'e', ':', ' '];
                proof {
                    assert(p@ =~= seq!['t', 'y', 'p', 'e', ':', ' ']);
                }
                let vc = chars_of(v.as_str());
                append_chars(&mut p, vc.as_slice());
                let ghost before = char_vecs_view(parts@);
                parts.push(p);
                proof {
                    assert(char_vecs_view(parts@) =~= before.push(p@));
                }
            },
            None => {},
        }
        proof {
            assert(all.subrange(0, 2).drop_last() =~= all.subrange(0, 1));
            assert(char_vecs_view(parts@) =~= spec_present(all.subrange(0, 2)));
        }
        match &self.provider_code {
            Some(v) => {
                let mut p = vec!['p', 'r', 'o', 'v', 'i', 'd', 'e', 'r', ' ', 'c', 'o', 'd', 'e', ':', ' '];
                proof {
                    assert(p@ =~= seq!['p', 'r', 'o', 'v', 'i', 'd', 'e', 'r', ' ', 'c', 'o', 'd', 'e', ':', ' ']);
                }
                let vc = chars_of(v.as_str());
                append_chars(&mut p, vc.as_slice());
                let ghost before = char_vecs_view(parts@);
                parts.push(p);
                proof {
                    assert(char_vecs_view(parts@) =~= before.push(p@));
                }
            },
            None => {},
        }
        proof {
            assert(all.subrange(0, 3).drop_last() =~= all.subrange(0, 2));
            assert(all.subrange(0, 3) =~= all);
            assert(char_vecs_view(parts@) =~= spec_present(all));
            assert(char_vecs_view(parts@) =~= parts@.map_values(|l: Vec<char>| l@));
        }
        append_chars(&mut out, msg.as_slice());
        let ghost headv = out@;
        let ghost pv = char_vecs_view(parts@);
        assert(headv =~= seq!['p', 'r', 'o', 'v', 'i', 'd', 'e', 'r', ' ', 'e', 'r', 'r', 'o', 'r', ':', ' '] + self.message@);
        if parts.len() > 0 {
            let open = vec![' ', '('];
            append_chars(&mut out, open.as_slice());
            let sep = vec![',', ' '];
            let joined = crate::pdf::join(&parts, sep.as_slice());
            append_chars(&mut out, joined.as_slice());
            let close = vec![')'];
            append_chars(&mut out, close.as_slice());
            proof {
                assert(sep@ =~= seq![',', ' ']);
                assert(open@ =~= seq![' ', '(']);
                assert(close@ =~= seq![')']);
                assert(out@ =~= headv + seq![' ', '('] + crate::pdf::spec_join(pv, seq![',', ' ']) + seq![')']);
            }
        }
        proof {
            assert(pv == spec_present(all));
            let e = *self;
            let inline = seq![
                    match opt_view(e.code) {
                        Some(v) => Some(seq!['c', 'o', 'd', 'e', ':', ' '] + v),
                        None => None,
                    },
                    match opt_view(e.error_type) {
                        Some(v) => Some(seq!['t', 'y', 'p', 'e', ':', ' '] + v),
                        None => None,
                    },
                    match opt_view(e.provider_code) {
                        Some(v) => Some(
                            seq!['p', 'r', 'o', 'v', 'i', 'd', 'e', 'r', ' ', 'c', 'o', 'd', 'e', ':', ' ']
                                + v,
                        ),
                        None => None,
                    },
                ];
            assert(inline[0] == all[0]);
            assert(inline[1] == all[1]);
            assert(inline[2] == all[2]);
            assert(inline =~= all);
            assert(spec_present(inline) == pv);
            assert(out@ =~= spec_provider_error_text(*self));
        }
        string_from_chars(out.as_slice())
    }
}


/// A failure of an OpenAI-compatible client, with the values its classification reads and the
/// text of the underlying error.
pub enum ClientFailure {
    /// The API answered with an error: its HTTP status, code and type.
    Api { status: u16, code: Option<String>, error_type: Option<String>, description: String },
    /// The request could not be sent or the connection failed.
    Network { description: String },
    /// A response could not be read; `provider_error` is the error envelope found in its content,
    /// if any.
    JsonDeserialize { provider_error: Option<ProviderError>, description: String },
    /// The response stream failed.
    Stream { description: String },
    /// A file could not be saved.
    FileSave { description: String },
    /// A file could not be read.
    FileRead { description: String },
    /// An argument was invalid.
    InvalidArgument { description: String },
}

/// The classification and text of a language model error.
pub open spec fn spec_error_parts(e: LanguageModelError) -> (ErrorClassification, Seq<char>) {
    match e {
        LanguageModelError::ContextLengthExceeded(s) => (ErrorClassification::ContextLengthExceeded, s@),
        LanguageModelError::PermanentError(s) => (ErrorClassification::Permanent, s@),
        LanguageModelError::TransientError(s) => (ErrorClassification::Transient, s@),
    }
}

/// How a client failure is reported: API errors are classified from their status, code and type;
/// network failures are transient; unreadable responses are classified from the provider error
/// they carry, or transient when they carry none; all other failures are permanent.
pub open spec fn spec_client_failure_error(f: ClientFailure) -> (ErrorClassification, Seq<char>) {
    match f {
        ClientFailure::Api { status, code, error_type, description } => (
            spec_classify(Some(status), seq![opt_view(code), opt_view(error_type), None]),
            description@,
        ),
        ClientFailure::Network { description } => (ErrorClassification::Transient, description@),
        ClientFailure::JsonDeserialize { provider_error, description } => match provider_error {
            Some(p) => (
                spec_classify(
                    spec_status_from_code(opt_view(p.code)),
                    seq![opt_view(p.code), opt_view(p.error_type), opt_view(p.provider_code)],
                ),
                spec_provider_error_text(p),
            ),
            None => (ErrorClassification::Transient, description@),
        },
        ClientFailure::Stream { description } => (ErrorClassification::Permanent, description@),
        ClientFailure::FileSave { description } => (ErrorClassification::Permanent, description@),
        ClientFailure::FileRead { description } => (ErrorClassification::Permanent, description@),
        ClientFailure::InvalidArgument { description } => (ErrorClassification::Permanent, description@),
    }
}

/// Wraps `text` in the language model error of the classification.
pub fn map_classification(c: ErrorClassification, text: String) -> (r: LanguageModelError)
    ensures
        spec_error_parts(r) == (c, text@),
{
    match c {
        ErrorClassification::ContextLengthExceeded => LanguageModelError::ContextLengthExceeded(text),
        ErrorClassification::Permanent => LanguageModelError::PermanentError(text),
        ErrorClassification::Transient => LanguageModelError::TransientError(text),
    }
}

/// Maps a client failure to a language model error (see [`spec_client_failure_error`]).
pub fn openai_error_to_language_model_error(f: ClientFailure) -> (r: LanguageModelError)
    ensures
        spec_error_parts(r) == spec_client_failure_error(f),
{
    match f {
        ClientFailure::Api { status, code, error_type, description } => {
            let ids = vec![code, error_type, None];
            let c = classify_error(Some(status), &ids);
            proof {
                assert(opt_strings_view(ids@) =~= seq![opt_view(code), opt_view(error_type), None]);
            }
            map_classification(c, description)
        },
        ClientFailure::Network { description } => LanguageModelError::TransientError(description),
        ClientFailure::JsonDeserialize { provider_error, description } => match provider_error {
            Some(p) => {
                let text = p.to_display_string();
                map_classification(p.classification(), text)
            },
            None => LanguageModelError::TransientError(description),
        },
        ClientFailure::Stream { description } => LanguageModelError::PermanentError(description),
        ClientFailure::FileSave { description } => LanguageModelError::PermanentError(description),
        ClientFailure::FileRead { description } => LanguageModelError::PermanentError(description),
        ClientFailure::InvalidArgument { description } => LanguageModelError::PermanentError(description),
    }
}

/// The metadata of an error reported inside a response body.
pub struct ProviderErrorMetadata {
    pub error_type: Option<String>,
    pub provider_code: Option<String>,
}

/// An error reported inside a response body; numeric codes are given as their decimal text.
pub struct ProviderErrorBody {
    pub message: String,
    pub code: Option<String>,
    /// The `type` field.
    pub api_type: Option<String>,
    pub error_type: Option<String>,
    pub metadata: Option<ProviderErrorMetadata>,
}

/// The parts of a response body that can carry an error: a top-level `error`, and the `error`
/// of each choice, in order.
pub struct ProviderErrorResponse {
    pub error: Option<ProviderErrorBody>,
    pub choices: Vec<Option<ProviderErrorBody>>,
}

/// The index of the first choice that carries an error.
pub open spec fn spec_first_choice_error(choices: Seq<Option<ProviderErrorBody>>) -> Option<int>
    decreases choices.len(),
{
    if choices.len() == 0 {
        None
    } else if choices[0] is Some {
        Some(0)
    } else {
        match spec_first_choice_error(choices.drop_first()) {
            Some(i) => Some(i + 1),
            None => None,
        }
    }
}

/// The error a response body reports: its top-level error, else that of the first choice with
/// one.
pub open spec fn spec_reported_error(r: ProviderErrorResponse) -> Option<ProviderErrorBody> {
    match r.error {
        Some(e) => Some(e),
        None => match spec_first_choice_error(r.choices@) {
            Some(i) => r.choices@[i],
            None => None,
        },
    }
}

/// `a` when it is set, `b` otherwise.
pub open spec fn spec_or(a: Option<Seq<char>>, b: Option<Seq<char>>) -> Option<Seq<char>> {
    match a {
        Some(x) => Some(x),
        None => b,
    }
}

/// The provider error made from a reported error: its message and code, the first error type
/// found among the metadata's, its own `error_type` and its `type`, and the metadata's provider
/// code.
pub open spec fn spec_provider_error_of(b: ProviderErrorBody, e: ProviderError) -> bool {
    let (meta_type, meta_code) = match b.metadata {
        Some(m) => (opt_view(m.error_type), opt_view(m.provider_code)),
        None => (None, None),
    };
    &&& e.message@ == b.message@
    &&& opt_view(e.code) == opt_view(b.code)
    &&& opt_view(e.error_type) == spec_or(meta_type, spec_or(opt_view(b.error_type), opt_view(b.api_type)))
    &&& opt_view(e.provider_code) == meta_code
}

fn first_some(a: Option<String>, b: Option<String>) -> (r: Option<String>)
    ensures
        opt_view(r) == spec_or(opt_view(a), opt_view(b)),
{
    match a {
        Some(x) => Some(x),
        None => b,
    }
}

impl ProviderError {
    /// The provider error a response body reports (see [`spec_reported_error`] and
    /// [`spec_provider_error_of`]), if it reports one.
    pub fn from_response(response: ProviderErrorResponse) -> (r: Option<ProviderError>)
        ensures
            match spec_reported_error(response) {
                None => r is None,
                Some(b) => r matches Some(e) && spec_provider_error_of(b, e),
            },
    {
        let ghost resp = response;
        let body = match response.error {
            Some(e) => e,
            None => {
                let mut choices = response.choices;
                let ghost all = choices@;
                let mut found: Option<ProviderErrorBody> = None;
                // the choices are taken out front to back
                while choices.len() > 0
                    invariant
                        all == resp.choices@,
                        choices@ == all.subrange(all.len() - choices@.len(), all.len() as int),
                        choices@.len() <= all.len(),
                        found is None ==> spec_first_choice_error(all) == (match spec_first_choice_error(choices@) {
                            Some(j) => Some(j + (all.len() - choices@.len())),
                            None => None,
                        }),
                        found is Some ==> (spec_first_choice_error(all) matches Some(j) && all[j] == found),
                    decreases choices@.len(),
                {
                    let ghost before = choices@;
                    let c = choices.remove(0);
                    proof {
                        assert(before[0] == c);
                        assert(choices@ =~= before.drop_first());
                        assert(choices@ =~= all.subrange(all.len() - choices@.len(), all.len() as int));
                    }
                    if found.is_none() {
                        if c.is_some() {
                            found = c;
                        }
                    }
                }
                match found {
                    Some(b) => b,
                    None => return None,
                }
            },
        };
        let (meta_type, meta_code) = match body.metadata {
            Some(m) => (m.error_type, m.provider_code),
            None => (None, None),
        };
        let error_type = first_some(meta_type, first_some(body.error_type, body.api_type));
        Some(ProviderError { message: body.message, code: body.code, error_type, provider_code: meta_code })
    }
}

} // verus!
