//! The short excerpt of a slide text shown beside a search result: up to
//! 160 characters around the first match, with an ellipsis where text was
//! cut.
use crate::text::{chars_of, lowercase, string_from_chars, to_lowercase, trim, trim_spec};
use vstd::prelude::*;

verus! {

/// The longest excerpt, in characters.
pub const SNIPPET_CHARS: usize = 160;

/// How many characters of context precede the match.
pub const SNIPPET_LEAD: usize = 20;

/// The ellipsis that marks a cut.
pub open spec fn ellipsis() -> char {
    '\u{2026}'
}

/// `char::len_utf8`: the number of bytes of `c` in UTF-8.
pub open spec fn utf8_len(c: char) -> nat {
    let u = c as u32;
    if u < 0x80 {
        1
    } else if u < 0x800 {
        2
    } else if u < 0x10000 {
        3
    } else {
        4
    }
}

/// The number of bytes of `s` in UTF-8.
pub open spec fn byte_len(s: Seq<char>) -> nat
    decreases s.len(),
{
    if s.len() == 0 {
        0
    } else {
        byte_len(s.drop_last()) + utf8_len(s.last())
    }
}

/// Whether `needle` occurs in `hay` at character `i`.
pub open spec fn matches_at(hay: Seq<char>, needle: Seq<char>, i: int) -> bool {
    0 <= i && i + needle.len() <= hay.len() && hay.subrange(i, i + needle.len()) == needle
}

/// Whether `i` is where `needle` first occurs in `hay`.
pub open spec fn is_first_match(hay: Seq<char>, needle: Seq<char>, i: int) -> bool {
    matches_at(hay, needle, i) && forall|j: int| 0 <= j < i ==> !#[trigger] matches_at(hay, needle, j)
}

/// `str::find`, counted in characters: where `needle` first occurs.
pub open spec fn first_occurrence(hay: Seq<char>, needle: Seq<char>) -> Option<int> {
    if exists|i: int| #[trigger] is_first_match(hay, needle, i) {
        Some(choose|i: int| #[trigger] is_first_match(hay, needle, i))
    } else {
        None
    }
}

/// The number of characters of `s` that fill exactly `b` bytes, if `b` falls
/// on a character boundary of `s`.
pub open spec fn char_boundary(s: Seq<char>, b: nat) -> Option<nat> {
    if exists|j: nat| j <= s.len() && #[trigger] byte_len(s.take(j as int)) == b {
        Some(choose|j: nat| j <= s.len() && #[trigger] byte_len(s.take(j as int)) == b)
    } else {
        None
    }
}

/// The character of `trimmed` where the excerpt is anchored: the first match
/// of the lower-cased query in the lower-cased text, taken as a byte offset
/// and counted back in characters of `trimmed`; 0 where nothing matches.
/// `None` where that byte offset is no character boundary of `trimmed`.
pub open spec fn snippet_anchor(trimmed: Seq<char>, lower_text: Seq<char>, lower_query: Seq<char>) -> Option<nat> {
    match first_occurrence(lower_text, lower_query) {
        None => Some(0),
        Some(k) => char_boundary(trimmed, byte_len(lower_text.take(k))),
    }
}

/// The excerpt of `chars` anchored at character `m`: from 20 characters
/// before it, at most 160 characters, with an ellipsis on each side where
/// text was cut.
pub open spec fn snippet_window(chars: Seq<char>, m: nat) -> Seq<char> {
    let start: int = if m >= SNIPPET_LEAD {
        m - SNIPPET_LEAD
    } else {
        0
    };
    let end: int = if start + SNIPPET_CHARS < chars.len() {
        start + SNIPPET_CHARS
    } else {
        chars.len() as int
    };
    (if start > 0 {
        seq![ellipsis()]
    } else {
        Seq::<char>::empty()
    }) + chars.subrange(start, end) + (if end < chars.len() {
        seq![ellipsis()]
    } else {
        Seq::<char>::empty()
    })
}

/// Whether an excerpt exists for `text` and `query`: a short text is its
/// own excerpt; a long one needs an anchor.
pub open spec fn snippet_defined(text: Seq<char>, query: Seq<char>) -> bool {
    let t = trim_spec(text);
    t.len() <= SNIPPET_CHARS || snippet_anchor(t, lowercase(t), lowercase(query)) is Some
}

/// The excerpt of `text` for `query`: none for a blank text, the trimmed
/// text when it is short enough, else the window around the anchor.
pub open spec fn snippet_of(text: Seq<char>, query: Seq<char>) -> Option<Seq<char>> {
    let t = trim_spec(text);
    if t.len() == 0 {
        None
    } else if t.len() <= SNIPPET_CHARS {
        Some(t)
    } else {
        match snippet_anchor(t, lowercase(t), lowercase(query)) {
            Some(m) => Some(snippet_window(t, m)),
            None => None,
        }
    }
}

proof fn lemma_byte_len_grows(s: Seq<char>, i: int, j: int)
    requires
        0 <= i < j <= s.len(),
    ensures
        byte_len(s.take(i)) < byte_len(s.take(j)),
    decreases j - i,
{
    assert(s.take(j).drop_last() =~= s.take(j - 1));
    if i < j - 1 {
        lemma_byte_len_grows(s, i, j - 1);
    }
}

proof fn lemma_boundary_is(s: Seq<char>, b: nat, j: nat)
    requires
        j <= s.len(),
        byte_len(s.take(j as int)) == b,
    ensures
        char_boundary(s, b) == Some(j),
{
    let c = choose|q: nat| q <= s.len() && #[trigger] byte_len(s.take(q as int)) == b;
    assert(c <= s.len() && byte_len(s.take(c as int)) == b);
    if c < j {
        lemma_byte_len_grows(s, c as int, j as int);
    } else if j < c {
        lemma_byte_len_grows(s, j as int, c as int);
    }
}

proof fn lemma_first_is(hay: Seq<char>, needle: Seq<char>, i: int)
    requires
        is_first_match(hay, needle, i),
    ensures
        first_occurrence(hay, needle) == Some(i),
{
    let c = choose|q: int| #[trigger] is_first_match(hay, needle, q);
    assert(is_first_match(hay, needle, c));
    if c < i {
        assert(!matches_at(hay, needle, c));
    } else if i < c {
        assert(!matches_at(hay, needle, i));
    }
}

fn utf8_width(c: char) -> (w: u8)
    ensures
        w == utf8_len(c),
{
    let u = c as u32;
    if u < 0x80 {
        1
    } else if u < 0x800 {
        2
    } else if u < 0x10000 {
        3
    } else {
        4
    }
}

/// Where `needle` first occurs in `hay`, in characters.
pub fn find_first(hay: &Vec<char>, needle: &Vec<char>) -> (r: Option<usize>)
    ensures
        match r {
            Some(i) => first_occurrence(hay@, needle@) == Some(i as int),
            None => first_occurrence(hay@, needle@) is None,
        },
{
    if needle.len() > hay.len() {
        proof {
            assert forall|i: int| !#[trigger] is_first_match(hay@, needle@, i) by {}
        }
        return None;
    }
    let last = hay.len() - needle.len();
    let mut i: usize = 0;
    while i <= last
        invariant
            last == hay.len() - needle.len(),
            needle.len() <= hay.len(),
            i <= last + 1,
            forall|j: int| 0 <= j < i ==> !#[trigger] matches_at(hay@, needle@, j),
        decreases last + 1 - i,
    {
        let mut k: usize = 0;
        while k < needle.len() && hay[i + k] == needle[k]
            invariant
                i <= last,
                last == hay.len() - needle.len(),
                k <= needle.len(),
                forall|m: int| 0 <= m < k ==> hay@[i + m] == needle@[m],
            decreases needle.len() - k,
        {
            k = k + 1;
        }
        if k == needle.len() {
            assert(hay@.subrange(i as int, i + needle@.len()) =~= needle@);
            proof {
                lemma_first_is(hay@, needle@, i as int);
            }
            return Some(i);
        }
        assert(hay@.subrange(i as int, i + needle@.len())[k as int] != needle@[k as int]);
        i = i + 1;
    }
    proof {
        assert forall|q: int| !#[trigger] is_first_match(hay@, needle@, q) by {
            if 0 <= q && q < i {
            } else if matches_at(hay@, needle@, q) {
                assert(q + needle@.len() <= hay@.len());
            }
        }
    }
    None
}

/// The number of UTF-8 bytes of the first `k` characters of `s`.
fn prefix_bytes(s: &Vec<char>, k: usize) -> (b: u128)
    requires
        k <= s.len(),
    ensures
        b == byte_len(s@.take(k as int)),
{
    let mut b: u128 = 0;
    let mut j: usize = 0;
    while j < k
        invariant
            j <= k <= s.len(),
            b == byte_len(s@.take(j as int)),
            b <= 4 * j,
        decreases k - j,
    {
        assert(s@.take(j + 1).drop_last() =~= s@.take(j as int));
        b = b + utf8_width(s[j]) as u128;
        j = j + 1;
    }
    b
}

/// The number of characters of `s` that fill exactly `b` bytes, if `b`
/// falls on a character boundary of `s`.
pub fn boundary_chars(s: &Vec<char>, b: u128) -> (r: Option<usize>)
    ensures
        match r {
            Some(j) => char_boundary(s@, b as nat) == Some(j as nat),
            None => char_boundary(s@, b as nat) is None,
        },
{
    let mut acc: u128 = 0;
    let mut j: usize = 0;
    while j < s.len() && acc < b
        invariant
            j <= s.len(),
            acc == byte_len(s@.take(j as int)),
            forall|q: int| 0 <= q < j ==> byte_len(s@.take(q)) < b,
            acc <= 4 * j,
        decreases s.len() - j,
    {
        assert(s@.take(j + 1).drop_last() =~= s@.take(j as int));
        acc = acc + utf8_width(s[j]) as u128;
        j = j + 1;
    }
    if acc == b {
        proof {
            lemma_boundary_is(s@, b as nat, j as nat);
        }
        Some(j)
    } else {
        proof {
            assert forall|q: nat| q <= s@.len() implies #[trigger] byte_len(s@.take(q as int))
                != b by {
                if q < j {
                } else if q > j {
                    lemma_byte_len_grows(s@, j as int, q as int);
                    if j == s@.len() {
                    }
                }
            }
        }
        None
    }
}

/// The anchor of the excerpt of `trimmed`, given the lower-cased text and
/// query.
pub fn anchor_of(trimmed: &Vec<char>, lower_text: &Vec<char>, lower_query: &Vec<char>) -> (r: Option<
    usize,
>)
    ensures
        match r {
            Some(m) => snippet_anchor(trimmed@, lower_text@, lower_query@) == Some(m as nat),
            None => snippet_anchor(trimmed@, lower_text@, lower_query@) is None,
        },
{
    match find_first(lower_text, lower_query) {
        None => Some(0),
        Some(k) => {
            let b = prefix_bytes(lower_text, k);
            boundary_chars(trimmed, b)
        },
    }
}

/// The excerpt of `chars` anchored at character `m`.
pub fn window_at(chars: &Vec<char>, m: usize) -> (r: Vec<char>)
    requires
        m <= chars.len(),
    ensures
        r@ == snippet_window(chars@, m as nat),
{
    let start: usize = if m >= SNIPPET_LEAD {
        m - SNIPPET_LEAD
    } else {
        0
    };
    let end: usize = if start < chars.len() && chars.len() - start > SNIPPET_CHARS {
        start + SNIPPET_CHARS
    } else {
        chars.len()
    };
    let mut r: Vec<char> = Vec::new();
    if start > 0 {
        r.push('\u{2026}');
    }
    let ghost head = r@;
    let mut i: usize = start;
    while i < end
        invariant
            start <= i <= end <= chars.len(),
            r@ == head + chars@.subrange(start as int, i as int),
        decreases end - i,
    {
        r.push(chars[i]);
        i = i + 1;
        assert(chars@.subrange(start as int, i as int) == chars@.subrange(start as int, i - 1).push(
            chars@[i - 1],
        ));
    }
    if end < chars.len() {
        r.push('\u{2026}');
    }
    proof {
        let s: int = if m >= SNIPPET_LEAD {
            m - SNIPPET_LEAD
        } else {
            0
        };
        assert(s == start);
        let e: int = if s + SNIPPET_CHARS < chars@.len() {
            s + SNIPPET_CHARS
        } else {
            chars@.len() as int
        };
        assert(e == end);
        assert(r@ =~= snippet_window(chars@, m as nat));
    }
    r
}

/// The excerpt of `text` for the search `query`. For a text longer than
/// 160 characters, the first match of the query is found in the
/// lower-cased text and its byte offset counted back in characters of the
/// text; that offset must fall on a character boundary of the text.
pub fn build_snippet(text: &str, query: &str) -> (r: Option<String>)
    requires
        snippet_defined(text@, query@),
    ensures
        match r {
            Some(s) => snippet_of(text@, query@) == Some(s@),
            None => snippet_of(text@, query@) is None,
        },
{
    let trimmed = trim(text);
    let chars = chars_of(trimmed.as_str());
    if chars.len() == 0 {
        return None;
    }
    if chars.len() <= SNIPPET_CHARS {
        return Some(trimmed);
    }
    let lower_text = chars_of(to_lowercase(trimmed.as_str()).as_str());
    let lower_query = chars_of(to_lowercase(query).as_str());
    match anchor_of(&chars, &lower_text, &lower_query) {
        Some(m) => {
            let w = window_at(&chars, m);
            Some(string_from_chars(&w))
        },
        None => None,
    }
}

/// The excerpt of `text` for `query`, where one is defined; `None` where a
/// long text's match does not fall on one of its character boundaries.
pub fn try_build_snippet(text: &str, query: &str) -> (r: Option<Option<String>>)
    ensures
        r is None <==> !snippet_defined(text@, query@),
        r matches Some(x) ==> match x {
            Some(s) => snippet_of(text@, query@) == Some(s@),
            None => snippet_of(text@, query@) is None,
        },
{
    let trimmed = trim(text);
    let chars = chars_of(trimmed.as_str());
    if chars.len() > SNIPPET_CHARS {
        let lower_text = chars_of(to_lowercase(trimmed.as_str()).as_str());
        let lower_query = chars_of(to_lowercase(query).as_str());
        if anchor_of(&chars, &lower_text, &lower_query).is_none() {
            return None;
        }
    }
    Some(build_snippet(text, query))
}

} // verus!
