//! Identifiers and paths used when talking to the OpenAI Responses API.
use vstd::prelude::*;
use crate::text::{chars_of, string_from_chars, decimal_chars, spec_decimal_chars};
use crate::text::append_chars;
use crate::pdf::{spec_join, join};
use crate::supported_languages::strings_view;
use crate::tool_schema::JsonValue;

verus! {

/// The Responses API identifier of a function call: identifiers that start with `fc_` are kept,
/// the `call_` prefix of chat-completion identifiers becomes `fc_`, and any other identifier is
/// kept as it is.
pub open spec fn spec_normalize_function_call_id(id: Seq<char>) -> Seq<char> {
    if id.len() >= 3 && id.subrange(0, 3) == seq!['f', 'c', '_'] {
        id
    } else if id.len() >= 5 && id.subrange(0, 5) == seq!['c', 'a', 'l', 'l', '_'] {
        seq!['f', 'c', '_'] + id.subrange(5, id.len() as int)
    } else {
        id
    }
}

/// Normalizing an identifier twice gives what normalizing it once gives, and a normalized
/// identifier that changed starts with `fc_`.
pub proof fn lemma_normalize_idempotent(id: Seq<char>)
    ensures
        spec_normalize_function_call_id(spec_normalize_function_call_id(id))
            == spec_normalize_function_call_id(id),
        spec_normalize_function_call_id(id) != id ==> spec_normalize_function_call_id(id).subrange(0, 3)
            == seq!['f', 'c', '_'],
{
    let n = spec_normalize_function_call_id(id);
    if n != id {
        assert(n.subrange(0, 3) =~= seq!['f', 'c', '_']);
    }
}

/// Whether `s` starts with `prefix`.
fn starts_with(s: &[char], prefix: &[char]) -> (r: bool)
    ensures
        r == (s@.len() >= prefix@.len() && s@.subrange(0, prefix@.len() as int) == prefix@),
{
    if s.len() < prefix.len() {
        return false;
    }
    let mut i: usize = 0;
    while i < prefix.len()
        invariant
            i <= prefix@.len(),
            prefix@.len() <= s@.len(),
            forall|j: int| 0 <= j < i ==> s@[j] == prefix@[j],
        decreases prefix@.len() - i,
    {
        if s[i] != prefix[i] {
            assert(s@.subrange(0, prefix@.len() as int)[i as int] != prefix@[i as int]);
            return false;
        }
        i = i + 1;
    }
    assert(s@.subrange(0, prefix@.len() as int) =~= prefix@);
    true
}

/// The Responses API identifier of a function call (see [`spec_normalize_function_call_id`]).
pub fn normalize_responses_function_call_id(id: &str) -> (r: String)
    ensures
        r@ == spec_normalize_function_call_id(id@),
{
    let c = chars_of(id);
    let fc = ['f', 'c', '_'];
    let call = ['c', 'a', 'l', 'l', '_'];
    proof {
        assert(fc@ =~= seq!['f', 'c', '_']);
        assert(call@ =~= seq!['c', 'a', 'l', 'l', '_']);
    }
    if starts_with(c.as_slice(), fc.as_slice()) {
        id.to_owned()
    } else if starts_with(c.as_slice(), call.as_slice()) {
        let mut out: Vec<char> = vec!['f', 'c', '_'];
        let mut i: usize = 5;
        while i < c.len()
            invariant
                5 <= i <= c@.len(),
                out@ == seq!['f', 'c', '_'] + c@.subrange(5, i as int),
            decreases c@.len() - i,
        {
            out.push(c[i]);
            proof {
                assert(c@.subrange(5, i + 1) =~= c@.subrange(5, i as int).push(c@[i as int]));
                assert(out@ =~= seq!['f', 'c', '_'] + c@.subrange(5, i + 1));
            }
            i = i + 1;
        }
        string_from_chars(out.as_slice())
    } else {
        id.to_owned()
    }
}

/// Where a node sits in a JSON schema: `$`, then the keys and array indices that lead to it.
pub struct SchemaPath {
    parts: Vec<String>,
}

impl View for SchemaPath {
    type V = Seq<Seq<char>>;

    closed spec fn view(&self) -> Seq<Seq<char>> {
        strings_view(self.parts@)
    }
}

impl SchemaPath {
    /// The path of the schema's root, `$`.
    pub fn root() -> (r: SchemaPath)
        ensures
            r@ == seq![seq!['$']],
    {
        let dollar = ['$'];
        assert(dollar@ =~= seq!['$']);
        let root = string_from_chars(dollar.as_slice());
        let parts = vec![root];
        let r = SchemaPath { parts };
        proof {
            assert(r@ =~= seq![seq!['$']]);
        }
        r
    }

    /// The path of the member `key` of the node at this path.
    pub fn with_key(&self, key: &str) -> (r: SchemaPath)
        ensures
            r@ == self@.push(key@),
    {
        let mut parts = self.clone_parts();
        parts.push(key.to_owned());
        let r = SchemaPath { parts };
        proof {
            assert(r@ =~= self@.push(key@));
        }
        r
    }

    /// The path of element `index` of the array member `key` of the node at this path.
    pub fn with_index(&self, key: &str, index: usize) -> (r: SchemaPath)
        ensures
            r@ == self@.push(key@).push(spec_decimal_chars(index as nat)),
    {
        let mut parts = self.clone_parts();
        parts.push(key.to_owned());
        let digits = decimal_chars(index);
        parts.push(string_from_chars(digits.as_slice()));
        let r = SchemaPath { parts };
        proof {
            assert(r@ =~= self@.push(key@).push(spec_decimal_chars(index as nat)));
        }
        r
    }

    /// A copy of the path.
    pub fn copy(&self) -> (r: SchemaPath)
        ensures
            r@ == self@,
    {
        SchemaPath { parts: self.clone_parts() }
    }

    fn clone_parts(&self) -> (r: Vec<String>)
        ensures
            strings_view(r@) == self@,
    {
        let mut out: Vec<String> = Vec::new();
        let mut i: usize = 0;
        while i < self.parts.len()
            invariant
                i <= self.parts@.len(),
                strings_view(out@) == strings_view(self.parts@).subrange(0, i as int),
            decreases self.parts@.len() - i,
        {
            let ghost before = out@;
            let part = self.parts[i].clone();
            assert(part@ == self.parts@[i as int]@);
            out.push(part);
            proof {
                assert(out@ == before.push(part));
                assert(strings_view(out@) =~= strings_view(before).push(part@));
                assert(strings_view(out@) =~= strings_view(self.parts@).subrange(0, i + 1));
            }
            i = i + 1;
        }
        proof {
            assert(strings_view(self.parts@).subrange(0, self.parts@.len() as int) =~= self@);
        }
        out
    }

    /// The path written out, its parts joined by dots.
    pub fn to_display_string(&self) -> (r: String)
        ensures
            r@ == spec_join(self@, seq!['.']),
    {
        let mut chars: Vec<Vec<char>> = Vec::new();
        let mut i: usize = 0;
        while i < self.parts.len()
            invariant
                i <= self.parts@.len(),
                chars@.map_values(|l: Vec<char>| l@) == self@.subrange(0, i as int),
            decreases self.parts@.len() - i,
        {
            let c = chars_of(self.parts[i].as_str());
            let ghost before = chars@;
            let ghost cv = c@;
            assert(cv == self@[i as int]);
            chars.push(c);
            proof {
                assert(chars@.map_values(|l: Vec<char>| l@) =~= before.map_values(|l: Vec<char>| l@).push(cv));
                assert(chars@.map_values(|l: Vec<char>| l@) =~= self@.subrange(0, i + 1));
            }
            i = i + 1;
        }
        proof {
            assert(self@.subrange(0, self.parts@.len() as int) =~= self@);
        }
        let sep = ['.'];
        let joined = join(&chars, sep.as_slice());
        proof {
            assert(sep@ =~= seq!['.']);
        }
        string_from_chars(joined.as_slice())
    }
}

/// Whether every member of an object holds a string.
pub open spec fn spec_all_string_members(members: Seq<(String, JsonValue)>) -> bool {
    forall|i: int| 0 <= i < members.len() ==> (#[trigger] members[i]).1 is Str
}

/// The metadata entry `entry` is the object member `member`, whose value is a string.
pub open spec fn spec_metadata_entry(entry: (String, String), member: (String, JsonValue)) -> bool {
    &&& entry.0@ == member.0@
    &&& match member.1 {
        JsonValue::Str(v) => entry.1@ == v@,
        _ => false,
    }
}

/// `r` is the request metadata of `value` (see [`convert_metadata`]).
pub open spec fn spec_converted_metadata(value: JsonValue, r: Option<Vec<(String, String)>>) -> bool {
    match value {
        JsonValue::Object(members) => if spec_all_string_members(members@) {
            r matches Some(out) && out@.len() == members@.len() && forall|i: int|
                0 <= i < out@.len() ==> spec_metadata_entry(#[trigger] out@[i], members@[i])
        } else {
            r is None
        },
        _ => r is None,
    }
}

/// Request metadata from a JSON value: for an object whose members all hold strings, its
/// members as key and string, in order; nothing for any other value.
pub fn convert_metadata(value: &JsonValue) -> (r: Option<Vec<(String, String)>>)
    ensures
        spec_converted_metadata(*value, r),
{
    match value {
        JsonValue::Object(members) => {
            let mut out: Vec<(String, String)> = Vec::new();
            let mut i: usize = 0;
            while i < members.len()
                invariant
                    *value == JsonValue::Object(*members),
                    i <= members@.len(),
                    out@.len() == i,
                    spec_all_string_members(members@.subrange(0, i as int)),
                    forall|j: int|
                        0 <= j < i ==> spec_metadata_entry(#[trigger] out@[j], members@[j]),
                decreases members@.len() - i,
            {
                match &members[i].1 {
                    JsonValue::Str(v) => {
                        out.push((members[i].0.clone(), v.clone()));
                    },
                    _ => {
                        assert(!(members@[i as int].1 is Str));
                        assert(!spec_all_string_members(members@));
                        return None;
                    },
                }
                proof {
                    assert forall|j: int| 0 <= j < i + 1 implies (#[trigger] members@.subrange(
                        0,
                        i + 1,
                    )[j]).1 is Str by {
                        if j < i {
                            assert(members@.subrange(0, i + 1)[j] == members@.subrange(
                                0,
                                i as int,
                            )[j]);
                        }
                    }
                }
                i = i + 1;
            }
            assert(members@.subrange(0, members@.len() as int) =~= members@);
            Some(out)
        },
        _ => None,
    }
}

} // verus!
