//! Text operations that the hooks share: lower-casing, trimming and joining
//! rendered fragments.

use vstd::prelude::*;

verus! {

/// The lower-case form of a text, as `str::to_lowercase` computes it from the
/// Unicode tables.
pub uninterp spec fn lowercase_of(s: Seq<char>) -> Seq<char>;

/// Whether a character has the Unicode property `White_Space`, which
/// `char::is_whitespace` reports and `str::trim` goes by.
pub uninterp spec fn is_white_space(c: char) -> bool;

/// How many characters at the start of `s` are white space.
pub open spec fn leading_white(s: Seq<char>) -> nat
    decreases s.len(),
{
    if s.len() > 0 && is_white_space(s.first()) {
        1 + leading_white(s.drop_first())
    } else {
        0
    }
}

/// How many characters at the end of `s` are white space.
pub open spec fn trailing_white(s: Seq<char>) -> nat
    decreases s.len(),
{
    if s.len() > 0 && is_white_space(s.last()) {
        1 + trailing_white(s.drop_last())
    } else {
        0
    }
}

/// `s` without its leading and trailing white space.
pub open spec fn trimmed(s: Seq<char>) -> Seq<char> {
    if leading_white(s) == s.len() {
        Seq::empty()
    } else {
        s.subrange(leading_white(s) as int, s.len() - trailing_white(s))
    }
}

/// The texts of `parts`, each two neighbours separated by one line feed.
pub open spec fn joined(parts: Seq<Seq<char>>) -> Seq<char>
    decreases parts.len(),
{
    if parts.len() == 0 {
        Seq::empty()
    } else if parts.len() == 1 {
        parts[0]
    } else {
        joined(parts.drop_last()) + seq!['\n'] + parts.last()
    }
}

/// The texts that a sequence of strings holds.
pub open spec fn texts(v: Seq<String>) -> Seq<Seq<char>> {
    Seq::new(v.len(), |i: int| v[i]@)
}

/// Calls `str::to_lowercase`. The result is the lower-case form of `s`, which
/// depends on `s` alone; nothing else is claimed of it.
#[verifier::external_body]
pub(crate) fn to_lowercase(s: &str) -> (r: String)
    ensures
        r@ == lowercase_of(s@),
{
    s.to_lowercase()
}

/// Calls `char::is_whitespace`, which reports the Unicode property
/// `White_Space` of `c`.
#[verifier::external_body]
fn is_whitespace(c: char) -> (b: bool)
    ensures
        b == is_white_space(c),
{
    c.is_whitespace()
}

/// A copy of `s` without its leading and trailing white space.
pub fn trim(s: &str) -> (r: String)
    ensures
        r@ == trimmed(s@),
{
    let n = s.unicode_len();
    let mut start: usize = 0;
    let mut end: usize = 0;
    let mut i: usize = 0;
    for c in it: s.chars()
        invariant
            it.seq() == s@,
            n == s@.len(),
            i == it.index(),
            start <= end <= i <= n,
            forall|k: int| 0 <= k < start ==> is_white_space(s@[k]),
            forall|k: int| end <= k < i ==> is_white_space(s@[k]),
            start < end ==> !is_white_space(s@[start as int]) && !is_white_space(s@[end - 1]),
            start == end ==> start == i,
    {
        if is_whitespace(c) {
            if start == end {
                start = i + 1;
                end = i + 1;
            }
        } else {
            end = i + 1;
        }
        i = i + 1;
    }
    proof {
        lemma_trimmed_is(s@, start as int, end as int);
    }
    String::from_str(s.substring_char(start, end))
}

/// `trimmed(s)` is the part of `s` from `a` to `b` where only white space
/// lies outside that part and none at either end of it.
pub proof fn lemma_trimmed_is(s: Seq<char>, a: int, b: int)
    requires
        0 <= a <= b <= s.len(),
        forall|k: int| 0 <= k < a ==> is_white_space(s[k]),
        forall|k: int| b <= k < s.len() ==> is_white_space(s[k]),
        a < b ==> !is_white_space(s[a]) && !is_white_space(s[b - 1]),
        a == b ==> a == s.len(),
    ensures
        trimmed(s) == s.subrange(a, b),
{
    lemma_leading_white(s, a);
    if a < b {
        lemma_trailing_white(s, b);
    }
}

proof fn lemma_leading_white(s: Seq<char>, a: int)
    requires
        0 <= a <= s.len(),
        forall|k: int| 0 <= k < a ==> is_white_space(s[k]),
        a < s.len() ==> !is_white_space(s[a]),
    ensures
        leading_white(s) == a,
    decreases s.len(),
{
    if a > 0 {
        let t = s.drop_first();
        assert forall|k: int| 0 <= k < a - 1 implies is_white_space(t[k]) by {}
        lemma_leading_white(t, a - 1);
    }
}

proof fn lemma_trailing_white(s: Seq<char>, b: int)
    requires
        0 <= b <= s.len(),
        forall|k: int| b <= k < s.len() ==> is_white_space(s[k]),
        b > 0 ==> !is_white_space(s[b - 1]),
    ensures
        trailing_white(s) == s.len() - b,
    decreases s.len(),
{
    if b < s.len() {
        let t = s.drop_last();
        assert forall|k: int| b <= k < t.len() implies is_white_space(t[k]) by {}
        lemma_trailing_white(t, b);
    }
}

/// Joins `parts` with one line feed between each two neighbours.
pub fn join_lines(parts: &Vec<String>) -> (out: String)
    ensures
        out@ == joined(texts(parts@)),
{
    let mut out = String::new();
    let mut i: usize = 0;
    while i < parts.len()
        invariant
            i <= parts.len(),
            out@ == joined(texts(parts@).take(i as int)),
        decreases parts.len() - i,
    {
        proof {
            let all = texts(parts@);
            assert(all.take(i + 1).drop_last() == all.take(i as int));
        }
        if i > 0 {
            out.append("\n");
            proof {
                reveal_strlit("\n");
            }
        }
        out.append(parts[i].as_str());
        i = i + 1;
    }
    proof {
        assert(texts(parts@).take(parts.len() as int) == texts(parts@));
    }
    out
}

/// Joining is associative: the texts may be joined in two parts, split at
/// any place, and the parts then joined to each other.
pub proof fn lemma_joined_in_parts(left: Seq<Seq<char>>, right: Seq<Seq<char>>)
    requires
        left.len() > 0,
        right.len() > 0,
    ensures
        joined(left + right) == joined(left) + seq!['\n'] + joined(right),
    decreases right.len(),
{
    let all = left + right;
    if right.len() == 1 {
        assert(all.drop_last() == left);
    } else {
        let front = right.drop_last();
        assert(all.drop_last() == left + front);
        lemma_joined_in_parts(left, front);
    }
}

} // verus!
