//! Text matching used by the player's configuration: whitespace trimming,
//! ASCII case folding and substring search, over the characters of a string.

use vstd::prelude::*;

verus! {

/// Whether a character has the Unicode `White_Space` property.
pub open spec fn is_whitespace(c: char) -> bool {
    let x = c as int;
    ||| 0x09 <= x <= 0x0d
    ||| x == 0x20
    ||| x == 0x85
    ||| x == 0xa0
    ||| x == 0x1680
    ||| 0x2000 <= x <= 0x200a
    ||| x == 0x2028
    ||| x == 0x2029
    ||| x == 0x202f
    ||| x == 0x205f
    ||| x == 0x3000
}

/// Whether a character has the Unicode `White_Space` property.
pub fn char_is_whitespace(c: char) -> (ws: bool)
    ensures
        ws == is_whitespace(c),
{
    let x = c as u32;
    (0x09 <= x && x <= 0x0d) || x == 0x20 || x == 0x85 || x == 0xa0 || x == 0x1680 || (0x2000
        <= x && x <= 0x200a) || x == 0x2028 || x == 0x2029 || x == 0x202f || x == 0x205f || x
        == 0x3000
}

/// Text without its leading whitespace.
pub open spec fn trim_start(s: Seq<char>) -> Seq<char>
    decreases s.len(),
{
    if s.len() > 0 && is_whitespace(s[0]) {
        trim_start(s.drop_first())
    } else {
        s
    }
}

/// Text without its trailing whitespace.
pub open spec fn trim_end(s: Seq<char>) -> Seq<char>
    decreases s.len(),
{
    if s.len() > 0 && is_whitespace(s.last()) {
        trim_end(s.drop_last())
    } else {
        s
    }
}

/// Text without leading and trailing whitespace.
pub open spec fn trim(s: Seq<char>) -> Seq<char> {
    trim_end(trim_start(s))
}

/// The ASCII lower-case form of a character; other characters are kept.
pub open spec fn ascii_lower(c: char) -> char {
    if 'A' <= c && c <= 'Z' {
        ((c as int) + 32) as char
    } else {
        c
    }
}

/// The ASCII upper-case form of a character; other characters are kept.
pub open spec fn ascii_upper(c: char) -> char {
    if 'a' <= c && c <= 'z' {
        ((c as int) - 32) as char
    } else {
        c
    }
}

pub open spec fn to_ascii_lowercase(s: Seq<char>) -> Seq<char> {
    s.map_values(|c: char| ascii_lower(c))
}

pub open spec fn to_ascii_uppercase(s: Seq<char>) -> Seq<char> {
    s.map_values(|c: char| ascii_upper(c))
}

/// Whether `needle` occurs in `haystack` as a contiguous run of characters.
pub open spec fn contains_chars(haystack: Seq<char>, needle: Seq<char>) -> bool {
    exists|i: int|
        0 <= i && i + needle.len() <= haystack.len() && #[trigger] haystack.subrange(i, i + needle.len())
            == needle
}

proof fn lemma_trim_start_skip(s: Seq<char>, i: int)
    requires
        0 <= i <= s.len(),
        forall|k: int| 0 <= k < i ==> is_whitespace(#[trigger] s[k]),
    ensures
        trim_start(s) == trim_start(s.skip(i)),
    decreases i,
{
    if i == 0 {
        assert(s.skip(0) =~= s);
    } else {
        assert(is_whitespace(s[0]));
        assert(s.drop_first().skip(i - 1) =~= s.skip(i));
        assert forall|k: int| 0 <= k < i - 1 implies is_whitespace(#[trigger] s.drop_first()[k]) by {
            assert(s.drop_first()[k] == s[k + 1]);
        }
        lemma_trim_start_skip(s.drop_first(), i - 1);
    }
}

proof fn lemma_trim_end_take(s: Seq<char>, j: int)
    requires
        0 <= j <= s.len(),
        forall|k: int| j <= k < s.len() ==> is_whitespace(#[trigger] s[k]),
    ensures
        trim_end(s) == trim_end(s.take(j)),
    decreases s.len() - j,
{
    if j == s.len() {
        assert(s.take(j) =~= s);
    } else {
        assert(is_whitespace(s[s.len() - 1]));
        assert(s.drop_last().take(j) =~= s.take(j));
        assert forall|k: int| j <= k < s.drop_last().len() implies is_whitespace(#[trigger] s.drop_last()[k]) by {
            assert(s.drop_last()[k] == s[k]);
        }
        lemma_trim_end_take(s.drop_last(), j);
    }
}

/// The character positions `[start, end)` of the text without leading and
/// trailing whitespace.
pub fn trimmed_bounds(s: &str) -> (bounds: (usize, usize))
    ensures
        bounds.0 <= bounds.1 <= s@.len(),
        s@.subrange(bounds.0 as int, bounds.1 as int) == trim(s@),
{
    let n = s.unicode_len();
    let mut start: usize = 0;
    while start < n && char_is_whitespace(s.get_char(start))
        invariant
            n == s@.len(),
            start <= n,
            forall|k: int| 0 <= k < start ==> is_whitespace(#[trigger] s@[k]),
        decreases n - start,
    {
        start = start + 1;
    }
    proof {
        lemma_trim_start_skip(s@, start as int);
    }
    if start == n {
        assert(s@.skip(start as int) =~= Seq::<char>::empty());
        assert(s@.subrange(start as int, start as int) =~= Seq::<char>::empty());
        return (start, start);
    }
    let ghost rest = s@.skip(start as int);
    assert(rest[0] == s@[start as int]);
    assert(trim_start(rest) == rest);
    let mut end: usize = n;
    while end > start + 1 && char_is_whitespace(s.get_char(end - 1))
        invariant
            n == s@.len(),
            start < n,
            start + 1 <= end <= n,
            rest == s@.skip(start as int),
            forall|k: int| end - start <= k < rest.len() ==> is_whitespace(#[trigger] rest[k]),
        decreases end,
    {
        assert(rest[end - 1 - start] == s@[end - 1]);
        end = end - 1;
    }
    proof {
        lemma_trim_end_take(rest, end - start);
        let kept = rest.take(end - start);
        assert(kept.last() == s@[end - 1]);
        if end > start + 1 {
            assert(!is_whitespace(kept.last()));
        } else {
            assert(kept.last() == s@[start as int]);
        }
        assert(trim_end(kept) == kept);
        assert(kept =~= s@.subrange(start as int, end as int));
    }
    (start, end)
}

/// Whether the ASCII lower-case form of the characters `[start, end)` of `s`
/// is exactly `word`.
pub fn lowercase_range_equals(s: &str, start: usize, end: usize, word: &str) -> (equal: bool)
    requires
        start <= end <= s@.len(),
    ensures
        equal == (to_ascii_lowercase(s@.subrange(start as int, end as int)) == word@),
{
    let ghost part = s@.subrange(start as int, end as int);
    let m = word.unicode_len();
    if end - start != m {
        assert(to_ascii_lowercase(part).len() != word@.len());
        return false;
    }
    let mut k: usize = 0;
    while k < m
        invariant
            m == word@.len(),
            end - start == m,
            start <= end <= s@.len(),
            part == s@.subrange(start as int, end as int),
            k <= m,
            forall|q: int| 0 <= q < k ==> ascii_lower(#[trigger] part[q]) == word@[q],
        decreases m - k,
    {
        let c = s.get_char(start + k);
        assert(part[k as int] == c);
        let lower = if 'A' <= c && c <= 'Z' {
            char_plus_32(c)
        } else {
            c
        };
        if lower != word.get_char(k) {
            assert(to_ascii_lowercase(part)[k as int] != word@[k as int]);
            return false;
        }
        k = k + 1;
    }
    assert(to_ascii_lowercase(part) =~= word@);
    true
}

fn char_plus_32(c: char) -> (lower: char)
    requires
        'A' <= c && c <= 'Z',
    ensures
        lower == ascii_lower(c),
{
    ((c as u8) + 32) as char
}

/// Whether `needle` occurs in `haystack`.
pub fn contains_text(haystack: &str, needle: &str) -> (found: bool)
    ensures
        found == contains_chars(haystack@, needle@),
{
    let n = haystack.unicode_len();
    let m = needle.unicode_len();
    if m > n {
        return false;
    }
    let mut i: usize = 0;
    while i <= n - m
        invariant
            n == haystack@.len(),
            m == needle@.len(),
            m <= n,
            i <= n - m + 1,
            forall|p: int| 0 <= p < i ==> #[trigger] haystack@.subrange(p, p + m) != needle@,
        decreases n - m + 1 - i,
    {
        let mut k: usize = 0;
        let mut matched = true;
        while k < m
            invariant
                n == haystack@.len(),
                m == needle@.len(),
                i + m <= n,
                k <= m,
                matched ==> forall|q: int| 0 <= q < k ==> haystack@[i + q] == needle@[q],
                !matched ==> haystack@.subrange(i as int, i + m) != needle@,
            decreases m - k,
        {
            if matched && haystack.get_char(i + k) != needle.get_char(k) {
                assert(haystack@.subrange(i as int, i + m)[k as int] != needle@[k as int]);
                matched = false;
            }
            k = k + 1;
        }
        if matched {
            assert(haystack@.subrange(i as int, i + m) =~= needle@);
            return true;
        }
        if i == n - m {
            assert forall|p: int| 0 <= p && p + m <= n implies #[trigger] haystack@.subrange(p, p + m) != needle@ by {
                assert(p <= i);
            }
            return false;
        }
        i = i + 1;
    }
    false
}

proof fn lemma_upper_keeps_whitespace(c: char)
    ensures
        is_whitespace(ascii_upper(c)) == is_whitespace(c),
        ascii_lower(ascii_upper(c)) == ascii_lower(c),
{
}

proof fn lemma_trim_start_uppercase(s: Seq<char>)
    ensures
        trim_start(to_ascii_uppercase(s)) == to_ascii_uppercase(trim_start(s)),
    decreases s.len(),
{
    let u = to_ascii_uppercase(s);
    if s.len() > 0 {
        lemma_upper_keeps_whitespace(s[0]);
        assert(u[0] == ascii_upper(s[0]));
        if is_whitespace(s[0]) {
            assert(u.drop_first() =~= to_ascii_uppercase(s.drop_first()));
            lemma_trim_start_uppercase(s.drop_first());
        }
    }
}

proof fn lemma_trim_end_uppercase(s: Seq<char>)
    ensures
        trim_end(to_ascii_uppercase(s)) == to_ascii_uppercase(trim_end(s)),
    decreases s.len(),
{
    let u = to_ascii_uppercase(s);
    if s.len() > 0 {
        lemma_upper_keeps_whitespace(s.last());
        assert(u.last() == ascii_upper(s.last()));
        if is_whitespace(s.last()) {
            assert(u.drop_last() =~= to_ascii_uppercase(s.drop_last()));
            lemma_trim_end_uppercase(s.drop_last());
        }
    }
}

/// Upper-casing text first does not change its trimmed lower-case form.
pub proof fn lemma_lowercase_trim_ignores_uppercasing(s: Seq<char>)
    ensures
        to_ascii_lowercase(trim(to_ascii_uppercase(s))) == to_ascii_lowercase(trim(s)),
{
    lemma_trim_start_uppercase(s);
    lemma_trim_end_uppercase(trim_start(s));
    let t = trim(s);
    assert forall|i: int| 0 <= i < t.len() implies #[trigger] to_ascii_lowercase(to_ascii_uppercase(t))[i]
        == to_ascii_lowercase(t)[i] by {
        lemma_upper_keeps_whitespace(t[i]);
    }
    assert(to_ascii_lowercase(to_ascii_uppercase(t)) =~= to_ascii_lowercase(t));
}

} // verus!
