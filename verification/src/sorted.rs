//! Strings in ascending order without repetitions.
//!
//! Strings compare by their characters' code points, lexicographically; for UTF-8 this is the
//! order of `String`'s `Ord`.
use vstd::prelude::*;
use crate::supported_languages::strings_view;
use crate::text::{chars_of, chars_eq};

verus! {

/// `a` comes before `b`: at the first position where they differ the character of `a` has the
/// smaller code point, or `a` is a proper prefix of `b`.
pub open spec fn spec_chars_lt(a: Seq<char>, b: Seq<char>) -> bool
    decreases a.len(),
{
    if a.len() == 0 {
        b.len() > 0
    } else if b.len() == 0 {
        false
    } else if a[0] != b[0] {
        (a[0] as int) < (b[0] as int)
    } else {
        spec_chars_lt(a.drop_first(), b.drop_first())
    }
}

/// Each element comes before every later one.
pub open spec fn spec_strictly_sorted(s: Seq<Seq<char>>) -> bool {
    forall|i: int, j: int| 0 <= i < j < s.len() ==> spec_chars_lt(#[trigger] s[i], #[trigger] s[j])
}

/// No sequence comes before itself.
pub proof fn lemma_chars_lt_irreflexive(a: Seq<char>)
    ensures
        !spec_chars_lt(a, a),
    decreases a.len(),
{
    if a.len() > 0 {
        lemma_chars_lt_irreflexive(a.drop_first());
    }
}

/// The order is transitive.
pub proof fn lemma_chars_lt_transitive(a: Seq<char>, b: Seq<char>, c: Seq<char>)
    requires
        spec_chars_lt(a, b),
        spec_chars_lt(b, c),
    ensures
        spec_chars_lt(a, c),
    decreases a.len(),
{
    if a.len() > 0 && a[0] == b[0] && b[0] == c[0] {
        lemma_chars_lt_transitive(a.drop_first(), b.drop_first(), c.drop_first());
    }
}

/// Of two different sequences, one comes before the other.
pub proof fn lemma_chars_lt_total(a: Seq<char>, b: Seq<char>)
    requires
        a != b,
    ensures
        spec_chars_lt(a, b) || spec_chars_lt(b, a),
    decreases a.len(),
{
    if a.len() == 0 {
        if b.len() == 0 {
            assert(a =~= b);
        }
    } else if b.len() > 0 && a[0] != b[0] {
    } else if b.len() > 0 && a[0] == b[0] {
        assert(a.drop_first().len() == a.len() - 1);
        assert(b.drop_first().len() == b.len() - 1);
        if a.drop_first() == b.drop_first() {
            assert(a.len() == b.len());
            assert forall|i: int| 0 <= i < a.len() implies a[i] == b[i] by {
                if i > 0 {
                    assert(a[i] == a.drop_first()[i - 1]);
                    assert(b[i] == b.drop_first()[i - 1]);
                }
            }
            assert(a =~= b);
        }
        lemma_chars_lt_total(a.drop_first(), b.drop_first());
    }
}

/// Two strictly sorted sequences with the same elements are equal: the order and the set of
/// elements determine the sequence.
pub proof fn lemma_strictly_sorted_unique(s: Seq<Seq<char>>, t: Seq<Seq<char>>)
    requires
        spec_strictly_sorted(s),
        spec_strictly_sorted(t),
        forall|x: Seq<char>| s.contains(x) <==> t.contains(x),
    ensures
        s == t,
    decreases s.len(),
{
    if s.len() == 0 {
        if t.len() > 0 {
            assert(t.contains(t[0]));
        }
        assert(s =~= t);
    } else if t.len() == 0 {
        assert(s.contains(s[0]));
    } else {
        assert(s.contains(s[0]));
        assert(t.contains(t[0]));
        let i = choose|i: int| 0 <= i < t.len() && t[i] == s[0];
        let j = choose|j: int| 0 <= j < s.len() && s[j] == t[0];
        if s[0] != t[0] {
            // s[0] lies in t after t[0], and t[0] lies in s after s[0]
            assert(i > 0);
            assert(j > 0);
            assert(spec_chars_lt(t[0], t[i]));
            assert(spec_chars_lt(s[0], s[j]));
            lemma_chars_lt_transitive(s[0], t[0], s[0]);
            lemma_chars_lt_irreflexive(s[0]);
        }
        let s1 = s.drop_first();
        let t1 = t.drop_first();
        assert forall|x: Seq<char>| s1.contains(x) <==> t1.contains(x) by {
            if s1.contains(x) {
                let k = choose|k: int| 0 <= k < s1.len() && s1[k] == x;
                assert(s[k + 1] == x);
                assert(spec_chars_lt(s[0], x));
                assert(s.contains(x));
                let m = choose|m: int| 0 <= m < t.len() && t[m] == x;
                if m == 0 {
                    lemma_chars_lt_irreflexive(x);
                }
                assert(t1[m - 1] == x);
            }
            if t1.contains(x) {
                let k = choose|k: int| 0 <= k < t1.len() && t1[k] == x;
                assert(t[k + 1] == x);
                assert(spec_chars_lt(t[0], x));
                assert(t.contains(x));
                let m = choose|m: int| 0 <= m < s.len() && s[m] == x;
                if m == 0 {
                    lemma_chars_lt_irreflexive(x);
                }
                assert(s1[m - 1] == x);
            }
        }
        lemma_strictly_sorted_unique(s1, t1);
        assert(s =~= t) by {
            assert forall|k: int| 0 <= k < s.len() implies s[k] == t[k] by {
                if k > 0 {
                    assert(s[k] == s1[k - 1]);
                    assert(t[k] == t1[k - 1]);
                }
            }
        }
    }
}

/// Whether `a` comes before `b` (see [`spec_chars_lt`]).
pub fn chars_lt(a: &[char], b: &[char]) -> (r: bool)
    ensures
        r == spec_chars_lt(a@, b@),
{
    let mut i: usize = 0;
    assert(a@.skip(0) =~= a@);
    assert(b@.skip(0) =~= b@);
    while i < a.len() && i < b.len()
        invariant
            i <= a@.len(),
            i <= b@.len(),
            spec_chars_lt(a@, b@) == spec_chars_lt(a@.skip(i as int), b@.skip(i as int)),
        decreases a@.len() - i,
    {
        let ghost sa = a@.skip(i as int);
        let ghost sb = b@.skip(i as int);
        assert(sa[0] == a@[i as int]);
        assert(sb[0] == b@[i as int]);
        if a[i] != b[i] {
            return a[i] < b[i];
        }
        assert(sa.drop_first() =~= a@.skip(i + 1));
        assert(sb.drop_first() =~= b@.skip(i + 1));
        i = i + 1;
    }
    i == a.len() && i < b.len()
}

/// Whether `s` holds a string with the characters `x`.
pub fn contains_chars(s: &Vec<String>, x: &[char]) -> (r: bool)
    ensures
        r == strings_view(s@).contains(x@),
{
    let ghost sv = strings_view(s@);
    let mut i: usize = 0;
    while i < s.len()
        invariant
            i <= s@.len(),
            sv == strings_view(s@),
            forall|k: int| 0 <= k < i ==> sv[k] != x@,
        decreases s@.len() - i,
    {
        let c = chars_of(s[i].as_str());
        if chars_eq(c.as_slice(), x) {
            assert(sv[i as int] == x@);
            return true;
        }
        i = i + 1;
    }
    false
}

/// Adds `s` to the strictly sorted `out`, where it belongs, unless it is there already.
pub fn insert_sorted_unique(out: &mut Vec<String>, s: String)
    requires
        spec_strictly_sorted(strings_view(old(out)@)),
    ensures
        spec_strictly_sorted(strings_view(final(out)@)),
        forall|x: Seq<char>|
            strings_view(final(out)@).contains(x) <==> (strings_view(old(out)@).contains(x) || x
                == s@),
{
    let ghost before = strings_view(out@);
    let sc = chars_of(s.as_str());
    let mut j: usize = 0;
    while j < out.len()
        invariant
            j <= out@.len(),
            sc@ == s@,
            before == strings_view(out@),
            before == strings_view(old(out)@),
            spec_strictly_sorted(before),
            forall|k: int| 0 <= k < j ==> spec_chars_lt(#[trigger] before[k], s@),
        decreases out@.len() - j,
    {
        let c = chars_of(out[j].as_str());
        assert(c@ == before[j as int]);
        if chars_eq(c.as_slice(), sc.as_slice()) {
            assert(before[j as int] == s@);
            assert forall|x: Seq<char>| before.contains(x) <==> (before.contains(x) || x == s@) by {
                if x == s@ {
                    assert(before.contains(x));
                }
            }
            return;
        }
        if chars_lt(sc.as_slice(), c.as_slice()) {
            let ghost sv = s@;
            out.insert(j, s);
            let ghost after = strings_view(out@);
            proof {
                assert(after =~= before.insert(j as int, sv));
                assert forall|a: int, b: int| 0 <= a < b < after.len() implies spec_chars_lt(
                    #[trigger] after[a],
                    #[trigger] after[b],
                ) by {
                    if a < j && b == j {
                    } else if a < j && b > j {
                        assert(after[b] == before[b - 1]);
                    } else if a == j {
                        assert(after[b] == before[b - 1]);
                        if b - 1 > j {
                            lemma_chars_lt_transitive(sv, before[j as int], before[b - 1]);
                        }
                    } else if a > j {
                        assert(after[a] == before[a - 1]);
                        assert(after[b] == before[b - 1]);
                    }
                }
                assert forall|x: Seq<char>| after.contains(x) <==> (before.contains(x) || x == sv) by {
                    if after.contains(x) {
                        let k = choose|k: int| 0 <= k < after.len() && after[k] == x;
                        if k < j {
                            assert(before[k] == x);
                        } else if k > j {
                            assert(before[k - 1] == x);
                        }
                    }
                    if before.contains(x) {
                        let k = choose|k: int| 0 <= k < before.len() && before[k] == x;
                        if k < j {
                            assert(after[k] == x);
                        } else {
                            assert(after[k + 1] == x);
                        }
                    }
                    if x == sv {
                        assert(after[j as int] == x);
                    }
                }
            }
            return;
        }
        proof {
            lemma_chars_lt_total(s@, before[j as int]);
        }
        j = j + 1;
    }
    let ghost sv = s@;
    out.push(s);
    proof {
        let after = strings_view(out@);
        assert(after =~= before.push(sv));
        assert forall|x: Seq<char>| after.contains(x) <==> (before.contains(x) || x == sv) by {
            if after.contains(x) {
                let k = choose|k: int| 0 <= k < after.len() && after[k] == x;
                if k < before.len() {
                    assert(before[k] == x);
                }
            }
            if before.contains(x) {
                let k = choose|k: int| 0 <= k < before.len() && before[k] == x;
                assert(after[k] == x);
            }
            if x == sv {
                assert(after[before.len() as int] == x);
            }
        }
    }
}

/// The strings of `items` in ascending order, each once.
pub fn sorted_unique(items: Vec<String>) -> (r: Vec<String>)
    ensures
        spec_strictly_sorted(strings_view(r@)),
        forall|x: Seq<char>| strings_view(r@).contains(x) <==> strings_view(items@).contains(x),
{
    let ghost iv = strings_view(items@);
    let mut out: Vec<String> = Vec::new();
    let mut rest = items;
    let mut taken: usize = 0;
    let n = rest.len();
    // items are taken from the back so that each removal is cheap
    while rest.len() > 0
        invariant
            rest@.len() + taken == n,
            n == iv.len(),
            strings_view(rest@) == iv.subrange(0, rest@.len() as int),
            spec_strictly_sorted(strings_view(out@)),
            forall|x: Seq<char>|
                strings_view(out@).contains(x) <==> iv.subrange(rest@.len() as int, n as int).contains(x),
        decreases rest@.len(),
    {
        let ghost before_rest = rest@.len();
        let ghost rest_before = rest@;
        let s = rest.pop().unwrap();
        let ghost sv = s@;
        proof {
            assert(strings_view(rest_before)[before_rest - 1] == rest_before[before_rest - 1]@);
            assert(sv == iv[before_rest - 1]);
            assert(strings_view(rest@) =~= iv.subrange(0, rest@.len() as int));
        }
        let ghost out_before = strings_view(out@);
        insert_sorted_unique(&mut out, s);
        taken = taken + 1;
        proof {
            let lo = rest@.len() as int;
            let tail = iv.subrange(lo, n as int);
            let prev_tail = iv.subrange(lo + 1, n as int);
            assert forall|x: Seq<char>| strings_view(out@).contains(x) <==> tail.contains(x) by {
                if tail.contains(x) {
                    let k = choose|k: int| 0 <= k < tail.len() && tail[k] == x;
                    if k > 0 {
                        assert(prev_tail[k - 1] == x);
                    }
                }
                if prev_tail.contains(x) {
                    let k = choose|k: int| 0 <= k < prev_tail.len() && prev_tail[k] == x;
                    assert(tail[k + 1] == x);
                }
                if x == sv {
                    assert(tail[0] == x);
                }
            }
        }
    }
    proof {
        assert(iv.subrange(0, n as int) =~= iv);
    }
    out
}

} // verus!
