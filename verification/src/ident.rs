//! Validation of identifiers that come from callers or from a store, before
//! any of them is joined onto a directory or used in a store key.

use vstd::prelude::*;
use crate::text::{chars_of, contains_text, occurs_at};

verus! {

/// The longest identifier that is accepted as a single path segment.
pub const MAX_STORAGE_ID_LEN: usize = 255;

pub open spec fn is_ascii_alphanumeric(c: char) -> bool {
    ('0' <= c && c <= '9') || ('a' <= c && c <= 'z') || ('A' <= c && c <= 'Z')
}

/// The characters an identifier may hold: ASCII letters and digits, `-`, `_` and `.`.
pub open spec fn safe_id_char(c: char) -> bool {
    is_ascii_alphanumeric(c) || c == '-' || c == '_' || c == '.'
}

/// Two dots in a row, the name of a parent directory.
pub open spec fn dot_dot() -> Seq<char> {
    seq!['.', '.']
}

/// What makes a string safe as one path segment: it is not empty, it is no
/// longer than `MAX_STORAGE_ID_LEN`, every character is a `safe_id_char`, and
/// `..` does not occur in it.
pub open spec fn safe_storage_id(s: Seq<char>) -> bool {
    &&& 0 < s.len() <= MAX_STORAGE_ID_LEN
    &&& forall|i: int| 0 <= i < s.len() ==> safe_id_char(#[trigger] s[i])
    &&& !contains_text(s, dot_dot())
}

/// Whether `s` may be used as a single path segment.
pub fn is_safe_storage_id(s: &str) -> (ok: bool)
    ensures
        ok == safe_storage_id(s@),
{
    let chars = chars_of(s);
    let n = chars.len();
    if n == 0 || n > MAX_STORAGE_ID_LEN {
        return false;
    }
    let mut i: usize = 0;
    while i < n
        invariant
            i <= n,
            n == chars.len(),
            chars@ == s@,
            0 < n <= MAX_STORAGE_ID_LEN,
            forall|j: int| 0 <= j < i ==> safe_id_char(#[trigger] s@[j]),
            forall|j: int| 0 <= j && j + 1 < i ==> !occurs_at(s@, dot_dot(), j),
        decreases n - i,
    {
        let c = chars[i];
        let allowed = ('0' <= c && c <= '9') || ('a' <= c && c <= 'z') || ('A' <= c && c <= 'Z')
            || c == '-' || c == '_' || c == '.';
        if !allowed {
            return false;
        }
        if i > 0 && c == '.' && chars[i - 1] == '.' {
            assert(s@.subrange(i - 1, i + 1) =~= dot_dot());
            assert(occurs_at(s@, dot_dot(), i - 1));
            return false;
        }
        proof {
            if i > 0 {
                assert(s@.subrange(i - 1, i + 1)[0] == s@[i - 1]);
                assert(s@.subrange(i - 1, i + 1)[1] == s@[i as int]);
                assert(dot_dot()[0] == '.' && dot_dot()[1] == '.');
            }
        }
        i = i + 1;
    }
    assert forall|j: int| !occurs_at(s@, dot_dot(), j) by {
        if 0 <= j && j + 2 <= n {
            assert(j + 1 < n);
        }
    }
    true
}

/// A string that holds `/`, `\` or `..` is never a safe storage identifier.
pub proof fn lemma_separators_and_parent_are_unsafe(s: Seq<char>)
    requires
        s.contains('/') || s.contains('\\') || contains_text(s, dot_dot()),
    ensures
        !safe_storage_id(s),
{
    if s.contains('/') {
        let i = choose|i: int| 0 <= i < s.len() && s[i] == '/';
        assert(!safe_id_char(s[i]));
    } else if s.contains('\\') {
        let i = choose|i: int| 0 <= i < s.len() && s[i] == '\\';
        assert(!safe_id_char(s[i]));
    }
}

/// A lowercase hexadecimal digit or a hyphen.
pub open spec fn lower_hex_or_hyphen(c: char) -> bool {
    ('0' <= c && c <= '9') || ('a' <= c && c <= 'f') || c == '-'
}

/// A string of lowercase hexadecimal digits and hyphens, not empty and no
/// longer than `MAX_STORAGE_ID_LEN`, is a safe storage identifier.
pub proof fn lemma_lower_hex_and_hyphens_are_safe(s: Seq<char>)
    requires
        0 < s.len() <= MAX_STORAGE_ID_LEN,
        forall|i: int| 0 <= i < s.len() ==> lower_hex_or_hyphen(#[trigger] s[i]),
    ensures
        safe_storage_id(s),
{
    assert forall|j: int| !occurs_at(s, dot_dot(), j) by {
        if occurs_at(s, dot_dot(), j) {
            assert(s.subrange(j, j + 2)[0] == s[j]);
            assert(dot_dot()[0] == '.');
            assert(lower_hex_or_hyphen(s[j]));
        }
    }
}

pub open spec fn is_hex_digit(c: char) -> bool {
    ('0' <= c && c <= '9') || ('a' <= c && c <= 'f') || ('A' <= c && c <= 'F')
}

/// What position `i` of a canonical UUID must hold: a hyphen at 8, 13, 18 and
/// 23, a hexadecimal digit elsewhere.
pub open spec fn uuid_char_ok(i: int, c: char) -> bool {
    if i == 8 || i == 13 || i == 18 || i == 23 {
        c == '-'
    } else {
        is_hex_digit(c)
    }
}

/// The canonical form of a UUID: 36 characters, 8-4-4-4-12 hexadecimal digits
/// with hyphens between the groups.
pub open spec fn valid_uuid(s: Seq<char>) -> bool {
    &&& s.len() == 36
    &&& forall|i: int| 0 <= i < 36 ==> uuid_char_ok(i, #[trigger] s[i])
}

/// Whether `s` is a UUID in canonical form.
pub fn is_valid_uuid(s: &str) -> (ok: bool)
    ensures
        ok == valid_uuid(s@),
{
    let chars = chars_of(s);
    if chars.len() != 36 {
        return false;
    }
    let mut i: usize = 0;
    while i < 36
        invariant
            i <= 36,
            chars@ == s@,
            chars@.len() == 36,
            forall|j: int| 0 <= j < i ==> uuid_char_ok(j, #[trigger] s@[j]),
        decreases 36 - i,
    {
        let c = chars[i];
        let good = if i == 8 || i == 13 || i == 18 || i == 23 {
            c == '-'
        } else {
            ('0' <= c && c <= '9') || ('a' <= c && c <= 'f') || ('A' <= c && c <= 'F')
        };
        if !good {
            return false;
        }
        i = i + 1;
    }
    true
}

} // verus!
