//! Character-level helpers shared by the text processing parts of the library.
use vstd::prelude::*;

verus! {

/// The view of an optional string.
pub open spec fn opt_view(o: Option<String>) -> Option<Seq<char>> {
    match o {
        Some(s) => Some(s@),
        None => None,
    }
}

broadcast use vstd::string::group_string_axioms;

/// Appends `more` to `v`.
pub fn append_chars(v: &mut Vec<char>, more: &[char])
    ensures
        final(v)@ == old(v)@ + more@,
{
    let ghost start = v@;
    let mut i: usize = 0;
    while i < more.len()
        invariant
            i <= more@.len(),
            v@ == start + more@.subrange(0, i as int),
        decreases more@.len() - i,
    {
        v.push(more[i]);
        proof {
            assert(more@.subrange(0, i + 1) =~= more@.subrange(0, i as int).push(more@[i as int]));
        }
        i = i + 1;
    }
    proof {
        assert(more@.subrange(0, more@.len() as int) =~= more@);
    }
}

/// A copy of an optional string.
pub fn copy_opt(o: &Option<String>) -> (r: Option<String>)
    ensures
        opt_view(r) == opt_view(*o),
{
    match o {
        Some(s) => Some(s.clone()),
        None => None,
    }
}

/// The character sequence of a string slice, as a vector.
pub fn chars_of(s: &str) -> (v: Vec<char>)
    ensures
        v@ == s@,
{
    let mut v: Vec<char> = Vec::new();
    for c in it: s.chars()
        invariant
            it.seq() == s@,
            v@ == it.seq().take(it.index() as int),
    {
        v.push(c);
    }
    v
}

} // verus!

verus! {

/// The code point of `c` with ASCII upper-case letters mapped to lower case.
pub open spec fn ascii_lower(c: char) -> u32 {
    if 65 <= (c as u32) && (c as u32) <= 90 {
        ((c as u32) + 32) as u32
    } else {
        c as u32
    }
}

/// Two character sequences are equal when ASCII letters are compared without regard to case.
pub open spec fn eq_ignore_ascii_case(a: Seq<char>, b: Seq<char>) -> bool {
    &&& a.len() == b.len()
    &&& forall|i: int| 0 <= i < a.len() ==> #[trigger] ascii_lower(a[i]) == ascii_lower(b[i])
}

/// Executable form of [`ascii_lower`].
pub fn ascii_lower_code(c: char) -> (r: u32)
    ensures
        r == ascii_lower(c),
{
    let u = c as u32;
    if 65 <= u && u <= 90 {
        u + 32
    } else {
        u
    }
}

/// Compares two character sequences, ignoring the case of ASCII letters.
pub fn chars_eq_ignore_ascii_case(a: &[char], b: &[char]) -> (r: bool)
    ensures
        r == eq_ignore_ascii_case(a@, b@),
{
    if a.len() != b.len() {
        return false;
    }
    let mut i: usize = 0;
    while i < a.len()
        invariant
            a@.len() == b@.len(),
            i <= a@.len(),
            forall|j: int| 0 <= j < i ==> #[trigger] ascii_lower(a@[j]) == ascii_lower(b@[j]),
        decreases a@.len() - i,
    {
        if ascii_lower_code(a[i]) != ascii_lower_code(b[i]) {
            return false;
        }
        i = i + 1;
    }
    true
}

/// Compares two character sequences for equality.
pub fn chars_eq(a: &[char], b: &[char]) -> (r: bool)
    ensures
        r == (a@ == b@),
{
    if a.len() != b.len() {
        return false;
    }
    let mut i: usize = 0;
    while i < a.len()
        invariant
            a@.len() == b@.len(),
            i <= a@.len(),
            forall|j: int| 0 <= j < i ==> a@[j] == b@[j],
        decreases a@.len() - i,
    {
        if a[i] != b[i] {
            return false;
        }
        i = i + 1;
    }
    proof {
        assert(a@ =~= b@);
    }
    true
}

/// Builds a string whose characters are exactly `v`.
#[verifier::external_body]
pub(crate) fn string_from_chars(v: &[char]) -> (s: String)
    ensures
        s@ == v@,
{
    String::from_iter(v.iter())
}

} // verus!

verus! {

/// Whether the string `s` consists exactly of the characters `lit`.
pub fn string_is(s: &String, lit: &[char]) -> (r: bool)
    ensures
        r == (s@ == lit@),
{
    let c = chars_of(s.as_str());
    chars_eq(c.as_slice(), lit)
}

} // verus!

verus! {

/// The decimal digit character of `d`, for `d < 10`.
pub open spec fn digit_char(d: nat) -> char {
    ((48 + d) as u8) as char
}

/// The decimal representation of `n`, without leading zeros.
pub open spec fn spec_decimal_chars(n: nat) -> Seq<char>
    decreases n,
{
    if n < 10 {
        seq![digit_char(n)]
    } else {
        spec_decimal_chars(n / 10).push(digit_char(n % 10))
    }
}

/// The decimal representation of `n` (see [`spec_decimal_chars`]).
pub fn decimal_chars(n: usize) -> (r: Vec<char>)
    ensures
        r@ == spec_decimal_chars(n as nat),
    decreases n,
{
    let d: u8 = (n % 10) as u8;
    let c = (48u8 + d) as char;
    if n < 10 {
        vec![c]
    } else {
        let mut v = decimal_chars(n / 10);
        v.push(c);
        v
    }
}

/// `line` without one trailing carriage return.
pub open spec fn spec_strip_cr(line: Seq<char>) -> Seq<char> {
    if line.len() > 0 && line.last() == '\r' {
        line.drop_last()
    } else {
        line
    }
}

/// The state of splitting the first `k` characters of `s` at newlines: the finished pieces and the
/// piece in progress.
pub open spec fn spec_newline_state(s: Seq<char>, k: int) -> (Seq<Seq<char>>, Seq<char>)
    decreases k,
{
    if k <= 0 || k > s.len() {
        (Seq::empty(), Seq::empty())
    } else {
        let prev = spec_newline_state(s, k - 1);
        if s[k - 1] == '\n' {
            (prev.0.push(prev.1), Seq::empty())
        } else {
            (prev.0, prev.1.push(s[k - 1]))
        }
    }
}

/// The lines of `s` as `str::lines` yields them: split at `\n`, a line ended by `\r\n` loses the
/// `\r`, and a final line ending is optional.
pub open spec fn spec_str_lines(s: Seq<char>) -> Seq<Seq<char>> {
    let st = spec_newline_state(s, s.len() as int);
    let done = st.0.map_values(|l: Seq<char>| spec_strip_cr(l));
    if st.1.len() > 0 {
        done.push(st.1)
    } else {
        done
    }
}

/// The lines of `s` (see [`spec_str_lines`]).
pub fn str_lines(s: &[char]) -> (r: Vec<Vec<char>>)
    ensures
        r@.map_values(|l: Vec<char>| l@) == spec_str_lines(s@),
{
    let mut done: Vec<Vec<char>> = Vec::new();
    let mut cur: Vec<char> = Vec::new();
    let mut k: usize = 0;
    while k < s.len()
        invariant
            k <= s@.len(),
            done@.map_values(|l: Vec<char>| l@) == spec_newline_state(s@, k as int).0.map_values(
                |l: Seq<char>| spec_strip_cr(l),
            ),
            cur@ == spec_newline_state(s@, k as int).1,
        decreases s@.len() - k,
    {
        let ghost before = done@.map_values(|l: Vec<char>| l@);
        let ghost prev = spec_newline_state(s@, k as int);
        if s[k] == '\n' {
            let mut finished = cur;
            let ghost whole = finished@;
            let n = finished.len();
            if n > 0 && finished[n - 1] == '\r' {
                finished.pop();
            }
            assert(finished@ == spec_strip_cr(whole));
            cur = Vec::new();
            done.push(finished);
            proof {
                assert(done@.map_values(|l: Vec<char>| l@) =~= before.push(spec_strip_cr(whole)));
                assert(prev.0.push(prev.1).map_values(|l: Seq<char>| spec_strip_cr(l)) =~= prev.0.map_values(
                    |l: Seq<char>| spec_strip_cr(l),
                ).push(spec_strip_cr(prev.1)));
            }
        } else {
            cur.push(s[k]);
        }
        k = k + 1;
    }
    if cur.len() > 0 {
        let ghost before = done@.map_values(|l: Vec<char>| l@);
        let last = cur;
        done.push(last);
        proof {
            assert(done@.map_values(|l: Vec<char>| l@) =~= before.push(last@));
        }
    }
    done
}

} // verus!
