//! Identifier and name handling: validity, case folding, equality, and the
//! suffix stripping used to derive relation base names.

use vstd::prelude::*;
use vstd::string::StringExecFns;

verus! {

/// A character that may start an identifier: an ASCII letter or `_`.
pub open spec fn is_ident_start_char(c: char) -> bool {
    ('a' <= c && c <= 'z') || ('A' <= c && c <= 'Z') || c == '_'
}

/// A character that may continue an identifier: an ASCII letter, digit or `_`.
pub open spec fn is_ident_char(c: char) -> bool {
    is_ident_start_char(c) || ('0' <= c && c <= '9')
}

/// The library's identifier rule: non-empty, an ASCII letter or `_` first,
/// ASCII letters, digits or `_` after.
pub open spec fn valid_ident(s: Seq<char>) -> bool {
    &&& s.len() > 0
    &&& is_ident_start_char(s[0])
    &&& forall|i: int| 1 <= i < s.len() ==> is_ident_char(#[trigger] s[i])
}

/// Decides whether `s` is a valid identifier.
pub fn is_valid_ident(s: &str) -> (r: bool)
    ensures
        r == valid_ident(s@),
{
    let n = s.unicode_len();
    if n == 0 {
        return false;
    }
    let c0 = s.get_char(0);
    if !(('a' <= c0 && c0 <= 'z') || ('A' <= c0 && c0 <= 'Z') || c0 == '_') {
        return false;
    }
    let mut i: usize = 1;
    while i < n
        invariant
            1 <= i <= n,
            n == s@.len(),
            is_ident_start_char(s@[0]),
            forall|j: int| 1 <= j < i ==> is_ident_char(#[trigger] s@[j]),
        decreases n - i,
    {
        let c = s.get_char(i);
        if !(('a' <= c && c <= 'z') || ('A' <= c && c <= 'Z') || c == '_' || ('0' <= c && c <= '9'))
        {
            return false;
        }
        i = i + 1;
    }
    true
}

/// Decides whether two string slices hold the same characters.
pub fn str_eq(a: &str, b: &str) -> (r: bool)
    ensures
        r == (a@ == b@),
{
    let na = a.unicode_len();
    let nb = b.unicode_len();
    if na != nb {
        return false;
    }
    let mut i: usize = 0;
    while i < na
        invariant
            0 <= i <= na,
            na == a@.len(),
            na == b@.len(),
            forall|j: int| 0 <= j < i ==> a@[j] == b@[j],
        decreases na - i,
    {
        if a.get_char(i) != b.get_char(i) {
            return false;
        }
        i = i + 1;
    }
    proof {
        assert(a@ =~= b@);
    }
    true
}

/// Relies on `String::push`: appends the given character at the end.
#[verifier::external_body]
fn push_char(s: &mut String, c: char)
    ensures
        final(s)@ == old(s)@.push(c),
{
    s.push(c);
}

/// ASCII case folding of one character: `'A'..='Z'` map to `'a'..='z'`,
/// every other character is unchanged.
pub open spec fn lower_char(c: char) -> char {
    if 'A' <= c && c <= 'Z' {
        (((c as u32) + 32) as u32) as char
    } else {
        c
    }
}

/// ASCII case folding of a character sequence.
pub open spec fn lower_chars(s: Seq<char>) -> Seq<char> {
    s.map_values(|c: char| lower_char(c))
}

/// Relies on `char::to_ascii_lowercase`: maps `'A'..='Z'` to the letter
/// 32 code points above, leaves every other character unchanged.
#[verifier::external_body]
fn char_lower(c: char) -> (r: char)
    ensures
        r == lower_char(c),
{
    c.to_ascii_lowercase()
}

/// The ASCII-lowercased copy of `s`.
pub fn to_lower(s: &str) -> (r: String)
    ensures
        r@ == lower_chars(s@),
{
    let n = s.unicode_len();
    let mut out = String::new();
    let mut i: usize = 0;
    while i < n
        invariant
            0 <= i <= n,
            n == s@.len(),
            out@ =~= lower_chars(s@).subrange(0, i as int),
        decreases n - i,
    {
        let c = s.get_char(i);
        push_char(&mut out, char_lower(c));
        i = i + 1;
    }
    proof {
        assert(out@ =~= lower_chars(s@));
    }
    out
}

/// Whether `field` ends in `_<key>`.
pub open spec fn has_key_suffix(field: Seq<char>, key: Seq<char>) -> bool {
    &&& field.len() > key.len()
    &&& field.subrange(field.len() - key.len() - 1, field.len() as int) == seq!['_'] + key
}

/// The relation base name: `field` with a trailing `_<key>` stripped when
/// present, `field` itself otherwise.
pub open spec fn spec_base_name(field: Seq<char>, key: Seq<char>) -> Seq<char> {
    if has_key_suffix(field, key) {
        field.subrange(0, field.len() - key.len() - 1)
    } else {
        field
    }
}

/// Strips a trailing `_<key>` from `field` if present.
pub fn base_name_of(field: &str, key: &str) -> (r: String)
    ensures
        r@ == spec_base_name(field@, key@),
{
    let nf = field.unicode_len();
    let nk = key.unicode_len();
    if nf <= nk {
        proof {
            assert(!has_key_suffix(field@, key@));
        }
        return String::from_str(field);
    }
    let start: usize = nf - nk - 1;
    if field.get_char(start) != '_' {
        proof {
            assert(!has_key_suffix(field@, key@)) by {
                if has_key_suffix(field@, key@) {
                    assert(field@.subrange(start as int, nf as int)[0] == '_');
                }
            }
        }
        return String::from_str(field);
    }
    let mut j: usize = 0;
    while j < nk
        invariant
            0 <= j <= nk,
            nf == field@.len(),
            nk == key@.len(),
            nf > nk,
            start == nf - nk - 1,
            field@[start as int] == '_',
            forall|m: int| 0 <= m < j ==> field@[start + 1 + m] == key@[m],
        decreases nk - j,
    {
        if field.get_char(start + 1 + j) != key.get_char(j) {
            proof {
                assert(!has_key_suffix(field@, key@)) by {
                    if has_key_suffix(field@, key@) {
                        assert(field@.subrange(start as int, nf as int)[j + 1] == key@[j as int]);
                    }
                }
            }
            return String::from_str(field);
        }
        j = j + 1;
    }
    proof {
        assert(field@.subrange(start as int, nf as int) =~= seq!['_'] + key@);
    }
    let prefix = field.substring_char(0, start);
    String::from_str(prefix)
}

} // verus!

verus! {

/// The name of the factory type derived for a record type: the record's
/// name with `Factory` appended.
pub fn factory_ident(ident: &str) -> (r: String)
    ensures
        r@ == ident@ + "Factory"@,
{
    let mut s = String::from_str(ident);
    s.append("Factory");
    s
}

} // verus!
