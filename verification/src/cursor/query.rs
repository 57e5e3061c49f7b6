//! What a scan of the store is asked with: the pattern for a query, and the
//! number of rows.

use vstd::prelude::*;
use vstd::string::*;
use crate::text::chars_of;

verus! {

/// Whether a character has a meaning of its own in a `LIKE` pattern whose
/// escape character is the backslash: the two wildcards and the backslash.
pub open spec fn like_special(c: char) -> bool {
    c == '%' || c == '_' || c == '\\'
}

/// How one character of a query stands in such a pattern: a special
/// character behind a backslash, any other character as it is.
pub open spec fn like_escaped_char(c: char) -> Seq<char> {
    if like_special(c) {
        seq!['\\', c]
    } else {
        seq![c]
    }
}

/// A query with every special character escaped.
pub open spec fn like_escaped(query: Seq<char>) -> Seq<char>
    decreases query.len(),
{
    if query.len() == 0 {
        Seq::empty()
    } else {
        like_escaped(query.drop_last()) + like_escaped_char(query.last())
    }
}

/// The `LIKE` pattern that matches every text which holds the query: the
/// escaped query between two `%`.
pub open spec fn like_pattern_text(query: Seq<char>) -> Seq<char> {
    seq!['%'] + like_escaped(query) + seq!['%']
}

/// The text that a pattern without wildcards matches: the pattern with each
/// escaped character in place of its escape. There is none for a pattern
/// that holds a wildcard, and none for one that ends in the middle of an
/// escape.
pub open spec fn like_literal(pattern: Seq<char>) -> Option<Seq<char>>
    decreases pattern.len(),
{
    if pattern.len() == 0 {
        Some(Seq::empty())
    } else if pattern[0] == '\\' {
        if pattern.len() < 2 {
            None
        } else {
            match like_literal(pattern.skip(2)) {
                Some(rest) => Some(seq![pattern[1]] + rest),
                None => None,
            }
        }
    } else if pattern[0] == '%' || pattern[0] == '_' {
        None
    } else {
        match like_literal(pattern.skip(1)) {
            Some(rest) => Some(seq![pattern[0]] + rest),
            None => None,
        }
    }
}

proof fn lemma_like_escaped_front(c: char, rest: Seq<char>)
    ensures
        like_escaped(seq![c] + rest) == like_escaped_char(c) + like_escaped(rest),
    decreases rest.len(),
{
    let whole = seq![c] + rest;
    if rest.len() == 0 {
        assert(whole.drop_last() =~= Seq::<char>::empty());
        assert(whole.last() == c);
        assert(like_escaped(Seq::<char>::empty()) =~= Seq::<char>::empty());
        assert(like_escaped(rest) =~= Seq::<char>::empty());
        assert(like_escaped(whole) =~= like_escaped_char(c));
        assert(like_escaped_char(c) + like_escaped(rest) =~= like_escaped_char(c));
    } else {
        lemma_like_escaped_front(c, rest.drop_last());
        assert(whole.drop_last() =~= seq![c] + rest.drop_last());
        assert(whole.last() == rest.last());
        assert(like_escaped(whole) =~= like_escaped_char(c) + (like_escaped(rest.drop_last())
            + like_escaped_char(rest.last())));
    }
}

/// An escaped query holds no wildcard: as a pattern it matches the query
/// itself, character for character, and nothing else.
pub proof fn lemma_escaped_query_is_literal(query: Seq<char>)
    ensures
        like_literal(like_escaped(query)) == Some(query),
    decreases query.len(),
{
    if query.len() == 0 {
    } else {
        let c = query[0];
        let rest = query.drop_first();
        assert(query =~= seq![c] + rest);
        lemma_like_escaped_front(c, rest);
        lemma_escaped_query_is_literal(rest);
        let pattern = like_escaped(query);
        if like_special(c) {
            assert(pattern[0] == '\\' && pattern[1] == c);
            assert(pattern.skip(2) =~= like_escaped(rest));
        } else {
            assert(pattern[0] == c);
            assert(pattern.skip(1) =~= like_escaped(rest));
        }
    }
}

/// Builds the `LIKE` pattern for a query, to be used with the backslash as
/// escape character, so that `%`, `_` and the backslash in the query match
/// only themselves.
pub fn like_pattern(query: &str) -> (r: String)
    ensures
        r@ == like_pattern_text(query@),
{
    let chars = chars_of(query);
    let mut pattern = String::from_str("%");
    proof {
        reveal_strlit("%");
        reveal_strlit("\\");
        assert("%"@ =~= seq!['%']);
        assert("\\"@ =~= seq!['\\']);
        assert(chars@.take(0) =~= Seq::<char>::empty());
        assert(pattern@ =~= seq!['%'] + like_escaped(chars@.take(0)));
    }
    let mut i: usize = 0;
    while i < chars.len()
        invariant
            i <= chars.len(),
            chars@ == query@,
            "\\"@ == seq!['\\'],
            pattern@ == seq!['%'] + like_escaped(chars@.take(i as int)),
        decreases chars.len() - i,
    {
        let c = chars[i];
        let ghost before = pattern@;
        if c == '%' || c == '_' || c == '\\' {
            pattern.append("\\");
        }
        let one = query.substring_char(i, i + 1);
        pattern.append(one);
        proof {
            assert(one@ =~= seq![c]);
            assert(chars@.take(i + 1).drop_last() =~= chars@.take(i as int));
            assert(chars@.take(i + 1).last() == c);
            assert(pattern@ =~= before + like_escaped_char(c));
            assert(pattern@ =~= seq!['%'] + like_escaped(chars@.take(i + 1)));
        }
        i = i + 1;
    }
    assert(chars@.take(chars.len() as int) =~= chars@);
    pattern.append("%");
    proof {
        reveal_strlit("%");
        assert("%"@ =~= seq!['%']);
    }
    pattern
}

/// The number of rows to ask the store for: twice the limit of the search,
/// held at `i64::MAX`.
pub open spec fn sql_limit_of(limit: usize) -> i64 {
    if 2 * limit > i64::MAX {
        i64::MAX
    } else {
        (2 * limit) as i64
    }
}

/// The number of rows to ask the store for when at most `limit` matches are
/// wanted.
pub fn sql_limit(limit: usize) -> (r: i64)
    ensures
        r == sql_limit_of(limit),
{
    let doubled: u128 = (limit as u128) * 2;
    if doubled > i64::MAX as u128 {
        i64::MAX
    } else {
        doubled as i64
    }
}

} // verus!
