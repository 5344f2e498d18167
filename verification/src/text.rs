//! Character-level scanning: classes of characters, the runs of them at either
//! end of a piece of text, prefixes and occurrences.
//!
//! Text is handled as a slice of characters together with a half-open range
//! `lo..hi` of positions, so that trimming and splitting never copy.

use vstd::prelude::*;
use vstd::slice::slice_subrange;

verus! {

/// Whether `c` is white space: the characters with the Unicode property
/// `White_Space`.
pub open spec fn is_white_space(c: char) -> bool {
    let u = c as u32;
    ||| 0x09 <= u <= 0x0D
    ||| u == 0x20
    ||| u == 0x85
    ||| u == 0xA0
    ||| u == 0x1680
    ||| 0x2000 <= u <= 0x200A
    ||| u == 0x2028
    ||| u == 0x2029
    ||| u == 0x202F
    ||| u == 0x205F
    ||| u == 0x3000
}

/// Tells whether `c` is white space.
pub fn is_whitespace(c: char) -> (b: bool)
    ensures
        b == is_white_space(c),
{
    let u: u32 = c as u32;
    (0x09 <= u && u <= 0x0D) || u == 0x20 || u == 0x85 || u == 0xA0 || u == 0x1680 || (0x2000 <= u
        && u <= 0x200A) || u == 0x2028 || u == 0x2029 || u == 0x202F || u == 0x205F || u == 0x3000
}

/// A set of characters that a scan runs over.
#[derive(Clone, Copy, Debug)]
pub enum CharClass {
    /// White space.
    Whitespace,
    /// The one character given.
    Only(char),
    /// Every character but the one given.
    Except(char),
}

impl CharClass {
    /// Whether `c` belongs to the class.
    pub open spec fn has(self, c: char) -> bool {
        match self {
            CharClass::Whitespace => is_white_space(c),
            CharClass::Only(d) => c == d,
            CharClass::Except(d) => c != d,
        }
    }

    /// Tells whether `c` belongs to the class.
    pub fn contains(&self, c: char) -> (b: bool)
        ensures
            b == self.has(c),
    {
        match self {
            CharClass::Whitespace => is_whitespace(c),
            CharClass::Only(d) => c == *d,
            CharClass::Except(d) => c != *d,
        }
    }
}

/// The length of the longest prefix of `s` made of characters of `class`.
pub open spec fn leading(s: Seq<char>, class: CharClass) -> nat
    decreases s.len(),
{
    if s.len() > 0 && class.has(s[0]) {
        1 + leading(s.drop_first(), class)
    } else {
        0
    }
}

/// The length of the longest suffix of `s` made of characters of `class`.
pub open spec fn trailing(s: Seq<char>, class: CharClass) -> nat
    decreases s.len(),
{
    if s.len() > 0 && class.has(s.last()) {
        1 + trailing(s.drop_last(), class)
    } else {
        0
    }
}

/// `s` without the characters of `class` at its start.
pub open spec fn strip_start(s: Seq<char>, class: CharClass) -> Seq<char> {
    s.skip(leading(s, class) as int)
}

/// `s` without the characters of `class` at its start and at its end.
pub open spec fn strip(s: Seq<char>, class: CharClass) -> Seq<char> {
    let rest = strip_start(s, class);
    rest.take(rest.len() - trailing(rest, class))
}

/// `s` without the white space around it.
pub open spec fn trim(s: Seq<char>) -> Seq<char> {
    strip(s, CharClass::Whitespace)
}

/// Whether `needle` stands in `s` at position `i`.
pub open spec fn occurs_at(needle: Seq<char>, s: Seq<char>, i: int) -> bool {
    &&& 0 <= i
    &&& i + needle.len() <= s.len()
    &&& s.subrange(i, i + needle.len()) == needle
}

/// Whether `needle` stands somewhere in `s`.
pub open spec fn occurs_in(needle: Seq<char>, s: Seq<char>) -> bool {
    exists|i: int| occurs_at(needle, s, i)
}

/// A run of `n` characters of `class` at the start of `s`, followed by the end
/// of `s` or by a character outside `class`, is the longest such run.
pub proof fn lemma_leading_is(s: Seq<char>, class: CharClass, n: int)
    requires
        0 <= n <= s.len(),
        forall|i: int| 0 <= i < n ==> class.has(#[trigger] s[i]),
        n < s.len() ==> !class.has(s[n]),
    ensures
        leading(s, class) == n,
    decreases n,
{
    if n > 0 {
        let rest = s.drop_first();
        assert forall|i: int| 0 <= i < n - 1 implies class.has(#[trigger] rest[i]) by {
            assert(rest[i] == s[i + 1]);
        }
        lemma_leading_is(rest, class, n - 1);
    }
}

/// A run of `n` characters of `class` at the end of `s`, preceded by the start
/// of `s` or by a character outside `class`, is the longest such run.
pub proof fn lemma_trailing_is(s: Seq<char>, class: CharClass, n: int)
    requires
        0 <= n <= s.len(),
        forall|i: int| s.len() - n <= i < s.len() ==> class.has(#[trigger] s[i]),
        n < s.len() ==> !class.has(s[s.len() - n - 1]),
    ensures
        trailing(s, class) == n,
    decreases n,
{
    if n > 0 {
        let rest = s.drop_last();
        assert forall|i: int| rest.len() - (n - 1) <= i < rest.len() implies class.has(
            #[trigger] rest[i],
        ) by {
            assert(rest[i] == s[i]);
        }
        lemma_trailing_is(rest, class, n - 1);
    }
}

/// The longest run of `class` at the start of `s` is made of `class`, lies
/// within `s`, and ends at the end of `s` or before a character outside `class`.
pub proof fn lemma_leading_run(s: Seq<char>, class: CharClass)
    ensures
        leading(s, class) <= s.len(),
        forall|i: int| 0 <= i < leading(s, class) ==> class.has(#[trigger] s[i]),
        leading(s, class) < s.len() ==> !class.has(s[leading(s, class) as int]),
    decreases s.len(),
{
    if s.len() > 0 && class.has(s[0]) {
        let rest = s.drop_first();
        lemma_leading_run(rest, class);
        assert forall|i: int| 0 <= i < leading(s, class) implies class.has(#[trigger] s[i]) by {
            if i > 0 {
                assert(s[i] == rest[i - 1]);
            }
        }
    }
}

/// The longest run of `class` at the end of `s` is made of `class`, lies
/// within `s`, and starts at the start of `s` or after a character outside
/// `class`.
pub proof fn lemma_trailing_run(s: Seq<char>, class: CharClass)
    ensures
        trailing(s, class) <= s.len(),
        forall|i: int| s.len() - trailing(s, class) <= i < s.len() ==> class.has(#[trigger] s[i]),
        trailing(s, class) < s.len() ==> !class.has(s[s.len() - trailing(s, class) - 1]),
    decreases s.len(),
{
    if s.len() > 0 && class.has(s.last()) {
        let rest = s.drop_last();
        lemma_trailing_run(rest, class);
        assert forall|i: int| s.len() - trailing(s, class) <= i < s.len() implies class.has(
            #[trigger] s[i],
        ) by {
            if i < s.len() - 1 {
                assert(s[i] == rest[i]);
            }
        }
        if trailing(s, class) < s.len() {
            assert(s[s.len() - trailing(s, class) - 1] == rest[rest.len() - trailing(rest, class)
                - 1]);
        }
    }
}

/// Stripping takes a run of `class` from the start of `s` and one from its
/// end, and nothing else; what is left neither starts nor ends with a
/// character of `class`.
pub proof fn law_strip_takes_the_runs_at_both_ends(s: Seq<char>, class: CharClass)
    ensures
        ({
            let from = leading(s, class) as int;
            let to = s.len() - trailing(s.skip(from), class);
            &&& 0 <= from <= to <= s.len()
            &&& s == s.take(from) + strip(s, class) + s.skip(to)
            &&& forall|i: int| 0 <= i < from ==> class.has(#[trigger] s[i])
            &&& forall|i: int| to <= i < s.len() ==> class.has(#[trigger] s[i])
            &&& strip(s, class).len() > 0 ==> !class.has(strip(s, class).first()) && !class.has(
                strip(s, class).last(),
            )
        }),
{
    let from = leading(s, class) as int;
    let rest = s.skip(from);
    let to = s.len() - trailing(rest, class);
    lemma_leading_run(s, class);
    lemma_trailing_run(rest, class);
    assert forall|i: int| to <= i < s.len() implies class.has(#[trigger] s[i]) by {
        assert(s[i] == rest[i - from]);
    }
}

/// The characters of `s`, in order.
pub fn chars_of(s: &str) -> (chars: Vec<char>)
    ensures
        chars@ == s@,
{
    let mut chars: Vec<char> = Vec::new();
    for c in it: s.chars()
        invariant
            chars@ == it.seq().take(it.index() as int),
    {
        chars.push(c);
    }
    chars
}

/// Counts the characters of `class` at the start of `chars`.
pub fn leading_run(chars: &[char], class: CharClass) -> (n: usize)
    ensures
        n == leading(chars@, class),
{
    let len = chars.len();
    let mut n: usize = 0;
    while n < len && class.contains(chars[n])
        invariant
            len == chars@.len(),
            n <= len,
            forall|i: int| 0 <= i < n ==> class.has(#[trigger] chars@[i]),
        decreases len - n,
    {
        n = n + 1;
    }
    proof {
        lemma_leading_is(chars@, class, n as int);
    }
    n
}

/// Counts the characters of `class` at the end of `chars`.
pub fn trailing_run(chars: &[char], class: CharClass) -> (n: usize)
    ensures
        n == trailing(chars@, class),
{
    let len = chars.len();
    let mut n: usize = 0;
    while n < len && class.contains(chars[len - 1 - n])
        invariant
            len == chars@.len(),
            n <= len,
            forall|i: int| len - n <= i < len ==> class.has(#[trigger] chars@[i]),
        decreases len - n,
    {
        n = n + 1;
    }
    proof {
        lemma_trailing_is(chars@, class, n as int);
    }
    n
}

/// Finds what stripping leaves of `chars`: the positions from which and up to
/// which it stands in `chars`.
pub fn strip_range(chars: &[char], class: CharClass) -> (range: (usize, usize))
    ensures
        range.0 <= range.1 <= chars@.len(),
        chars@.subrange(range.0 as int, range.1 as int) == strip(chars@, class),
{
    let from = leading_run(chars, class);
    proof {
        lemma_leading_run(chars@, class);
    }
    let rest = slice_subrange(chars, from, chars.len());
    let cut = trailing_run(rest, class);
    proof {
        lemma_trailing_run(rest@, class);
        assert(rest@.take(rest@.len() - cut) =~= chars@.subrange(
            from as int,
            chars@.len() - cut,
        ));
    }
    (from, chars.len() - cut)
}

/// Tells whether `chars` starts with `prefix`.
pub fn starts_with(chars: &[char], prefix: &[char]) -> (b: bool)
    ensures
        b == prefix@.is_prefix_of(chars@),
{
    let n = prefix.len();
    if n > chars.len() {
        return false;
    }
    let mut k: usize = 0;
    while k < n
        invariant
            n == prefix@.len(),
            n <= chars@.len(),
            k <= n,
            forall|i: int| 0 <= i < k ==> chars@[i] == prefix@[i],
        decreases n - k,
    {
        if chars[k] != prefix[k] {
            return false;
        }
        k = k + 1;
    }
    true
}

/// Tells whether `needle` stands somewhere in `chars`.
pub fn contains(chars: &[char], needle: &[char]) -> (b: bool)
    ensures
        b == occurs_in(needle@, chars@),
{
    let n = chars.len();
    let m = needle.len();
    if m > n {
        assert forall|i: int| !occurs_at(needle@, chars@, i) by {}
        return false;
    }
    let mut at: usize = 0;
    while at <= n - m
        invariant
            n == chars@.len(),
            m == needle@.len(),
            m <= n,
            at <= n - m + 1,
            forall|i: int| 0 <= i < at ==> !occurs_at(needle@, chars@, i),
        decreases n - m + 1 - at,
    {
        let found = starts_with(slice_subrange(chars, at, n), needle);
        assert(chars@.subrange(at as int, n as int).subrange(0, m as int) =~= chars@.subrange(
            at as int,
            at + m,
        ));
        if found {
            assert(occurs_at(needle@, chars@, at as int));
            return true;
        }
        at = at + 1;
    }
    assert forall|i: int| !occurs_at(needle@, chars@, i) by {}
    false
}

} // verus!
