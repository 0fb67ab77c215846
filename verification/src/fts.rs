//! Full-text query building for the bible passage index.
use crate::text::{char_alphanumeric, char_is_alphanumeric, char_is_whitespace, is_white_space, string_from_chars};
use vstd::prelude::*;

verus! {

/// The characters of each word.
pub open spec fn word_views(words: Seq<Vec<char>>) -> Seq<Seq<char>> {
    words.map_values(|w: Vec<char>| w@)
}

/// Splitting `s` at white space, continuing from the words found so far
/// (`acc`) and the word in progress (`cur`).
pub open spec fn split_from(s: Seq<char>, acc: Seq<Seq<char>>, cur: Seq<char>) -> Seq<Seq<char>>
    decreases s.len(),
{
    if s.len() == 0 {
        if cur.len() > 0 {
            acc.push(cur)
        } else {
            acc
        }
    } else if is_white_space(s[0]) {
        split_from(s.drop_first(), if cur.len() > 0 { acc.push(cur) } else { acc }, seq![])
    } else {
        split_from(s.drop_first(), acc, cur.push(s[0]))
    }
}

/// The words of `s`, as `str::split_whitespace` yields them: the maximal runs
/// of non-white-space characters, in order.
pub open spec fn split_whitespace_spec(s: Seq<char>) -> Seq<Seq<char>> {
    split_from(s, seq![], seq![])
}

/// Splits `s` into its words.
pub fn split_whitespace(s: &Vec<char>) -> (words: Vec<Vec<char>>)
    ensures
        word_views(words@) == split_whitespace_spec(s@),
{
    let mut words: Vec<Vec<char>> = Vec::new();
    let mut cur: Vec<char> = Vec::new();
    let mut i: usize = 0;
    assert(s@.skip(0) == s@);
    assert(word_views(words@) =~= Seq::<Seq<char>>::empty());
    assert(cur@ =~= Seq::<char>::empty());
    while i < s.len()
        invariant
            i <= s.len(),
            split_from(s@.skip(i as int), word_views(words@), cur@) == split_whitespace_spec(s@),
        decreases s.len() - i,
    {
        let c = s[i];
        assert(s@.skip(i as int).drop_first() == s@.skip(i + 1));
        assert(s@.skip(i as int)[0] == c);
        if char_is_whitespace(c) {
            if cur.len() > 0 {
                let ghost before = word_views(words@);
                let w = cur;
                words.push(w);
                assert(word_views(words@) =~= before.push(w@));
                cur = Vec::new();
            }
            assert(cur@ =~= seq![]);
        } else {
            cur.push(c);
        }
        i = i + 1;
    }
    if cur.len() > 0 {
        let ghost before = word_views(words@);
        let w = cur;
        words.push(w);
        assert(word_views(words@) =~= before.push(w@));
    }
    words
}

/// The alphanumeric characters of `w`, in order.
pub open spec fn alnum_only(w: Seq<char>) -> Seq<char>
    decreases w.len(),
{
    if w.len() == 0 {
        seq![]
    } else if char_alphanumeric(w.last()) {
        alnum_only(w.drop_last()).push(w.last())
    } else {
        alnum_only(w.drop_last())
    }
}

/// The match tokens of a list of words: each word of at least two characters
/// keeps its alphanumeric characters, followed by `*` (a prefix match); a
/// word with none left is dropped.
pub open spec fn fts_tokens(words: Seq<Seq<char>>) -> Seq<Seq<char>>
    decreases words.len(),
{
    if words.len() == 0 {
        seq![]
    } else {
        let prev = fts_tokens(words.drop_last());
        let w = words.last();
        if w.len() >= 2 && alnum_only(w).len() > 0 {
            prev.push(alnum_only(w).push('*'))
        } else {
            prev
        }
    }
}

/// `tokens` joined with single spaces.
pub open spec fn join_spaces(tokens: Seq<Seq<char>>) -> Seq<char>
    decreases tokens.len(),
{
    if tokens.len() == 0 {
        seq![]
    } else if tokens.len() == 1 {
        tokens[0]
    } else {
        join_spaces(tokens.drop_last()) + seq![' '] + tokens.last()
    }
}

/// The FTS5 `MATCH` query for a free-text input: its tokens joined with
/// spaces (an implicit AND), or nothing when no token remains.
pub open spec fn fts_query_spec(input: Seq<char>) -> Option<Seq<char>> {
    let tokens = fts_tokens(split_whitespace_spec(input));
    if tokens.len() == 0 {
        None
    } else {
        Some(join_spaces(tokens))
    }
}

fn alnum_chars(w: &Vec<char>) -> (r: Vec<char>)
    ensures
        r@ == alnum_only(w@),
{
    let mut r: Vec<char> = Vec::new();
    let mut i: usize = 0;
    while i < w.len()
        invariant
            i <= w.len(),
            r@ == alnum_only(w@.take(i as int)),
        decreases w.len() - i,
    {
        assert(w@.take(i + 1).drop_last() == w@.take(i as int));
        if char_is_alphanumeric(w[i]) {
            r.push(w[i]);
        }
        i = i + 1;
    }
    assert(w@.take(w.len() as int) == w@);
    r
}

/// Builds the FTS5 `MATCH` query for free-text input: splits it into words,
/// drops words shorter than two characters, strips the FTS5 special characters,
/// appends `*` for prefix matching and joins with spaces.
pub fn build_fts_query(input: &str) -> (r: Option<String>)
    ensures
        match fts_query_spec(input@) {
            Some(q) => r matches Some(s) && s@ == q,
            None => r is None,
        },
{
    let chars = crate::text::chars_of(input);
    let words = split_whitespace(&chars);
    let ghost ws = word_views(words@);
    let mut tokens: Vec<Vec<char>> = Vec::new();
    let mut i: usize = 0;
    while i < words.len()
        invariant
            i <= words.len(),
            ws == word_views(words@),
            word_views(tokens@) == fts_tokens(ws.take(i as int)),
        decreases words.len() - i,
    {
        assert(ws.take(i + 1).drop_last() == ws.take(i as int));
        assert(ws.take(i + 1).last() == words@[i as int]@);
        let w = &words[i];
        let long_enough = w.len() >= 2;
        if long_enough {
            let mut cleaned = alnum_chars(&words[i]);
            if cleaned.len() > 0 {
                cleaned.push('*');
                let ghost before = word_views(tokens@);
                tokens.push(cleaned);
                assert(word_views(tokens@) =~= before.push(tokens@.last()@));
            }
        }
        i = i + 1;
    }
    assert(ws.take(words.len() as int) == ws);
    if tokens.len() == 0 {
        return None;
    }
    let mut out: Vec<char> = Vec::new();
    let mut j: usize = 0;
    while j < tokens.len()
        invariant
            j <= tokens.len(),
            tokens.len() > 0,
            j == 0 ==> out@ == Seq::<char>::empty(),
            j > 0 ==> out@ == join_spaces(word_views(tokens@).take(j as int)),
        decreases tokens.len() - j,
    {
        let ghost tv = word_views(tokens@);
        assert(tv.take(j + 1).drop_last() == tv.take(j as int));
        if j > 0 {
            out.push(' ');
        }
        crate::text::extend_chars(&mut out, &tokens[j]);
        proof {
            if j == 0 {
                assert(tv.take(1) =~= seq![tokens@[0]@]);
                assert(out@ =~= tokens@[0]@);
            } else {
                assert(tv.take(j + 1).last() == tokens@[j as int]@);
            }
        }
        j = j + 1;
    }
    assert(word_views(tokens@).take(tokens.len() as int) == word_views(tokens@));
    Some(string_from_chars(&out))
}


/// Every character of a built query is alphanumeric, `*`, or a separating
/// space.
pub proof fn lemma_fts_token_shape(words: Seq<Seq<char>>, t: int, c: int)
    requires
        0 <= t < fts_tokens(words).len(),
        0 <= c < fts_tokens(words)[t].len(),
    ensures
        ({
            let ch = fts_tokens(words)[t][c];
            char_alphanumeric(ch) || (ch == '*' && c == fts_tokens(words)[t].len() - 1)
        }),
    decreases words.len(),
{
    let prev = fts_tokens(words.drop_last());
    if t < prev.len() {
        lemma_fts_token_shape(words.drop_last(), t, c);
    } else {
        let w = words.last();
        if c < alnum_only(w).len() {
            lemma_alnum_only_alnum(w, c);
        }
    }
}

proof fn lemma_alnum_only_alnum(w: Seq<char>, c: int)
    requires
        0 <= c < alnum_only(w).len(),
    ensures
        char_alphanumeric(alnum_only(w)[c]),
    decreases w.len(),
{
    if char_alphanumeric(w.last()) {
        if c < alnum_only(w.drop_last()).len() {
            lemma_alnum_only_alnum(w.drop_last(), c);
        }
    } else {
        lemma_alnum_only_alnum(w.drop_last(), c);
    }
}

} // verus!
