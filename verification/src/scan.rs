//! Character-level scanning over request text: greedy spans of characters
//! satisfying a predicate, search for the `\r\n` terminator, and string
//! comparison helpers. Each executable scanner is proved to compute its
//! specification exactly.

use vstd::prelude::*;

verus! {

/// The first index at or after `i` where `p` stops holding (or the end of
/// `s`): the end of the greedy span of `p`-characters that starts at `i`.
pub open spec fn span(s: Seq<char>, i: int, p: spec_fn(char) -> bool) -> int
    decreases s.len() - i,
    when 0 <= i <= s.len()
{
    if i < s.len() && p(s[i]) {
        span(s, i + 1, p)
    } else {
        i
    }
}

/// The span starting at `i` ends at the first index whose character fails
/// `p`, and every character before it satisfies `p`.
pub proof fn lemma_span_bounds(s: Seq<char>, i: int, p: spec_fn(char) -> bool)
    requires
        0 <= i <= s.len(),
    ensures
        i <= span(s, i, p) <= s.len(),
        forall|k: int| i <= k < span(s, i, p) ==> p(s[k]),
        span(s, i, p) < s.len() ==> !p(s[span(s, i, p)]),
    decreases s.len() - i,
{
    if i < s.len() && p(s[i]) {
        lemma_span_bounds(s, i + 1, p);
    }
}

/// A span is pinned down by its endpoints: if everything in `[i, j)`
/// satisfies `p` and `j` is the end of `s` or fails `p`, the span is `j`.
pub proof fn lemma_span_exact(s: Seq<char>, i: int, j: int, p: spec_fn(char) -> bool)
    requires
        0 <= i <= j <= s.len(),
        forall|k: int| i <= k < j ==> p(s[k]),
        j < s.len() ==> !p(s[j]),
    ensures
        span(s, i, p) == j,
    decreases j - i,
{
    if i < j {
        lemma_span_exact(s, i + 1, j, p);
    }
}

/// The first index at or after `i` where the two-character terminator
/// `\r\n` begins, or `s.len()` if there is none.
pub open spec fn find_crlf(s: Seq<char>, i: int) -> int
    decreases s.len() - i,
    when 0 <= i <= s.len()
{
    if i + 2 > s.len() {
        s.len() as int
    } else if s[i] == '\r' && s[i + 1] == '\n' {
        i
    } else {
        find_crlf(s, i + 1)
    }
}

/// A found terminator lies within `s`, really is `\r\n`, and is the first
/// one at or after `i`; the result `s.len()` means no terminator was found.
pub proof fn lemma_find_crlf_bounds(s: Seq<char>, i: int)
    requires
        0 <= i <= s.len(),
    ensures
        i <= find_crlf(s, i) <= s.len(),
        find_crlf(s, i) < s.len() ==> find_crlf(s, i) + 2 <= s.len()
            && s[find_crlf(s, i)] == '\r' && s[find_crlf(s, i) + 1] == '\n',
        forall|x: int|
            i <= x < find_crlf(s, i) && x + 2 <= s.len() ==> !(#[trigger] s[x] == '\r' && s[x + 1]
                == '\n'),
    decreases s.len() - i,
{
    if i + 2 <= s.len() && !(s[i] == '\r' && s[i + 1] == '\n') {
        lemma_find_crlf_bounds(s, i + 1);
    }
}

/// Holds of the space character alone.
pub open spec fn space_p() -> spec_fn(char) -> bool {
    |c: char| c == ' '
}

/// Holds of every character but the space.
pub open spec fn non_space_p() -> spec_fn(char) -> bool {
    |c: char| c != ' '
}

/// Holds of every character but the colon.
pub open spec fn non_colon_p() -> spec_fn(char) -> bool {
    |c: char| c != ':'
}

/// Holds of the characters a version token is drawn from: decimal digits
/// and the dot.
pub open spec fn version_p() -> spec_fn(char) -> bool {
    |c: char| ('0' as u32 <= c as u32 && c as u32 <= '9' as u32) || c == '.'
}

/// End of the greedy run of spaces starting at `from`.
pub fn scan_spaces(s: &str, from: usize) -> (j: usize)
    requires
        from <= s@.len(),
    ensures
        j == span(s@, from as int, space_p()),
        from <= j <= s@.len(),
{
    let ghost p = space_p();
    let n = s.unicode_len();
    let mut i = from;
    while i < n && s.get_char(i) == ' '
        invariant
            from <= i <= n,
            n == s@.len(),
            p == space_p(),
            span(s@, from as int, p) == span(s@, i as int, p),
        decreases n - i,
    {
        proof {
            assert(p(s@[i as int]));
            assert(span(s@, i as int, p) == span(s@, i as int + 1, p));
        }
        i = i + 1;
    }
    i
}

/// End of the greedy run of non-space characters starting at `from`.
pub fn scan_non_spaces(s: &str, from: usize) -> (j: usize)
    requires
        from <= s@.len(),
    ensures
        j == span(s@, from as int, non_space_p()),
        from <= j <= s@.len(),
{
    let ghost p = non_space_p();
    let n = s.unicode_len();
    let mut i = from;
    while i < n && s.get_char(i) != ' '
        invariant
            from <= i <= n,
            n == s@.len(),
            p == non_space_p(),
            span(s@, from as int, p) == span(s@, i as int, p),
        decreases n - i,
    {
        proof {
            assert(p(s@[i as int]));
            assert(span(s@, i as int, p) == span(s@, i as int + 1, p));
        }
        i = i + 1;
    }
    i
}

/// End of the greedy run of non-colon characters starting at `from`.
pub fn scan_non_colons(s: &str, from: usize) -> (j: usize)
    requires
        from <= s@.len(),
    ensures
        j == span(s@, from as int, non_colon_p()),
        from <= j <= s@.len(),
{
    let ghost p = non_colon_p();
    let n = s.unicode_len();
    let mut i = from;
    while i < n && s.get_char(i) != ':'
        invariant
            from <= i <= n,
            n == s@.len(),
            p == non_colon_p(),
            span(s@, from as int, p) == span(s@, i as int, p),
        decreases n - i,
    {
        proof {
            assert(p(s@[i as int]));
            assert(span(s@, i as int, p) == span(s@, i as int + 1, p));
        }
        i = i + 1;
    }
    i
}

/// True exactly of the characters a version token is drawn from.
pub fn is_version_char(c: char) -> (r: bool)
    ensures
        r == version_p()(c),
{
    let u = c as u32;
    ('0' as u32 <= u && u <= '9' as u32) || c == '.'
}

/// End of the greedy run of version characters starting at `from`.
pub fn scan_version_chars(s: &str, from: usize) -> (j: usize)
    requires
        from <= s@.len(),
    ensures
        j == span(s@, from as int, version_p()),
        from <= j <= s@.len(),
{
    let ghost p = version_p();
    let n = s.unicode_len();
    let mut i = from;
    while i < n && is_version_char(s.get_char(i))
        invariant
            from <= i <= n,
            n == s@.len(),
            p == version_p(),
            span(s@, from as int, p) == span(s@, i as int, p),
        decreases n - i,
    {
        proof {
            assert(p(s@[i as int]));
            assert(span(s@, i as int, p) == span(s@, i as int + 1, p));
        }
        i = i + 1;
    }
    i
}

/// First position at or after `from` where `\r\n` begins, or the length of
/// `s` if the terminator never occurs.
pub fn scan_to_crlf(s: &str, from: usize) -> (j: usize)
    requires
        from <= s@.len(),
    ensures
        j == find_crlf(s@, from as int),
        from <= j <= s@.len(),
{
    proof {
        lemma_find_crlf_bounds(s@, from as int);
    }
    let n = s.unicode_len();
    let mut i = from;
    while n - i >= 2 && !(s.get_char(i) == '\r' && s.get_char(i + 1) == '\n')
        invariant
            from <= i <= n,
            n == s@.len(),
            find_crlf(s@, from as int) == find_crlf(s@, i as int),
        decreases n - i,
    {
        i = i + 1;
    }
    if n - i >= 2 {
        i
    } else {
        n
    }
}

/// True exactly when the two-character terminator `\r\n` stands at `at`.
pub fn crlf_at(s: &str, at: usize) -> (r: bool)
    requires
        at <= s@.len(),
    ensures
        r == (at + 2 <= s@.len() && s@[at as int] == '\r' && s@[at as int + 1] == '\n'),
{
    let n = s.unicode_len();
    n - at >= 2 && s.get_char(at) == '\r' && s.get_char(at + 1) == '\n'
}

/// True exactly when the two strings hold the same characters.
pub fn str_eq(a: &str, b: &str) -> (r: bool)
    ensures
        r == (a@ == b@),
{
    let n = a.unicode_len();
    if n != b.unicode_len() {
        return false;
    }
    let mut i: usize = 0;
    while i < n
        invariant
            0 <= i <= n,
            n == a@.len(),
            n == b@.len(),
            forall|k: int| 0 <= k < i ==> a@[k] == b@[k],
        decreases n - i,
    {
        if a.get_char(i) != b.get_char(i) {
            return false;
        }
        i = i + 1;
    }
    proof {
        assert(a@ =~= b@);
    }
    true
}

/// True exactly when `p` is a prefix of `s`.
pub open spec fn has_prefix(s: Seq<char>, p: Seq<char>) -> bool {
    p.len() <= s.len() && s.take(p.len() as int) == p
}

/// True exactly when the characters of `p` open the string `s`.
pub fn str_has_prefix(s: &str, p: &str) -> (r: bool)
    ensures
        r == has_prefix(s@, p@),
{
    let n = p.unicode_len();
    if n > s.unicode_len() {
        return false;
    }
    let mut i: usize = 0;
    while i < n
        invariant
            0 <= i <= n,
            n == p@.len(),
            n <= s@.len(),
            forall|k: int| 0 <= k < i ==> s@[k] == p@[k],
        decreases n - i,
    {
        if s.get_char(i) != p.get_char(i) {
            proof {
                assert(s@.take(n as int)[i as int] != p@[i as int]);
            }
            return false;
        }
        i = i + 1;
    }
    proof {
        assert(s@.take(n as int) =~= p@);
    }
    true
}

} // verus!
