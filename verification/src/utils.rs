//! File-name sanitising and typed lookups in JSON objects.

use vstd::prelude::*;

use crate::error::{json_error, ErrorView, UdemyError};
use crate::json::{json_field_str, json_field_u64, JsonValue};
use crate::text::{chars_of, push_char};

verus! {

/// Whether `sanitize` keeps the character `c` found at position `i`:
/// ASCII letters and digits, space, '-', '_', and '.' anywhere but first
/// (so that the result never names a hidden file).
pub open spec fn is_kept(c: char, i: int) -> bool {
    ||| 'a' <= c && c <= 'z'
    ||| 'A' <= c && c <= 'Z'
    ||| '0' <= c && c <= '9'
    ||| c == ' '
    ||| c == '-'
    ||| c == '_'
    ||| c == '.' && i != 0
}

/// The character that `sanitize` puts at position `i`.
pub open spec fn sanitized_char(c: char, i: int) -> char {
    if is_kept(c, i) {
        c
    } else {
        '_'
    }
}

/// The sanitised form of a path segment: every character that is not kept
/// becomes '_'.
pub open spec fn sanitized(s: Seq<char>) -> Seq<char> {
    Seq::new(s.len(), |i: int| sanitized_char(s[i], i))
}

/// Returns a cross-platform-filename-safe version of any string.
///
/// Do not apply this function to full paths, as it will sanitize '/' and '\';
/// it should only be used on directory or file names (i.e. path segments).
pub fn sanitize(component: &str) -> (res: String)
    ensures
        res@ == sanitized(component@),
        res@.len() == component@.len(),
        forall|i: int| 0 <= i < res@.len() ==> is_kept(#[trigger] res@[i], i),
        forall|i: int|
            0 <= i < component@.len() && (('a' <= component@[i] && component@[i] <= 'z') || ('A'
                <= component@[i] && component@[i] <= 'Z')) ==> #[trigger] res@[i] == component@[i],
{
    let cs = chars_of(component);
    let mut buf = String::new();
    let mut i: usize = 0;
    while i < cs.len()
        invariant
            i <= cs.len(),
            cs@ == component@,
            buf@ == sanitized(component@).take(i as int),
        decreases cs.len() - i,
    {
        let c = cs[i];
        let is_lower = 'a' <= c && c <= 'z';
        let is_upper = 'A' <= c && c <= 'Z';
        let is_letter = is_upper || is_lower;
        let is_number = '0' <= c && c <= '9';
        let is_space = c == ' ';
        let is_hyphen = c == '-';
        let is_underscore = c == '_';
        // Disallow accidentally hidden folders
        let is_period = c == '.' && i != 0;
        let is_valid = is_letter || is_number || is_space || is_hyphen || is_underscore
            || is_period;
        if is_valid {
            push_char(&mut buf, c);
        } else {
            push_char(&mut buf, '_');
        }
        i = i + 1;
        assert(buf@ == sanitized(component@).take(i as int));
    }
    assert(sanitized(component@).take(cs.len() as int) == sanitized(component@));
    buf
}

/// Sanitising is idempotent: a sanitised name is left as it is.
pub proof fn sanitize_idempotent(s: Seq<char>)
    ensures
        sanitized(sanitized(s)) == sanitized(s),
{
    assert(sanitized(sanitized(s)) =~= sanitized(s));
}

/// What `sanitize` does to each character, stated character by character:
/// ASCII letters and digits, space, '-' and '_' stay as they are; '.' stays
/// except in first place, where it becomes '_'; every other character
/// becomes '_'. The length does not change.
pub proof fn sanitize_char_rules(s: Seq<char>)
    ensures
        sanitized(s).len() == s.len(),
        forall|i: int|
            0 <= i < s.len() ==> {
                let c = s[i];
                let r = #[trigger] sanitized(s)[i];
                &&& ('a' <= c && c <= 'z') ==> r == c
                &&& ('A' <= c && c <= 'Z') ==> r == c
                &&& ('0' <= c && c <= '9') ==> r == c
                &&& (c == ' ' || c == '-' || c == '_') ==> r == c
                &&& (c == '.' && i > 0) ==> r == '.'
                &&& (c == '.' && i == 0) ==> r == '_'
                &&& !(('a' <= c && c <= 'z') || ('A' <= c && c <= 'Z') || ('0' <= c && c <= '9')
                    || c == ' ' || c == '-' || c == '_' || c == '.') ==> r == '_'
            },
{
}

/// A sanitised name holds no path separator and does not start with '.'.
pub proof fn sanitized_has_no_separator(s: Seq<char>)
    ensures
        !sanitized(s).contains('/'),
        !sanitized(s).contains('\\'),
        sanitized(s).len() > 0 ==> sanitized(s)[0] != '.',
{
    if sanitized(s).contains('/') {
        let i = choose|i: int| 0 <= i < sanitized(s).len() && sanitized(s)[i] == '/';
        assert(is_kept(sanitized(s)[i], i));
    }
    if sanitized(s).contains('\\') {
        let i = choose|i: int| 0 <= i < sanitized(s).len() && sanitized(s)[i] == '\\';
        assert(is_kept(sanitized(s)[i], i));
    }
}

/// The string member `key` of a JSON object.
pub fn json_get_string<'a, 'b>(value: &'a JsonValue, key: &'b str) -> (res: Result<
    &'a str,
    UdemyError,
>)
    ensures
        match res {
            Ok(s) => json_field_str(*value, key@) == Some(s@),
            Err(e) => json_field_str(*value, key@) is None && e@ == ErrorView::Json(key@),
        },
{
    match value.get(key) {
        Some(v) => match v.as_str() {
            Some(s) => Ok(s),
            None => Err(json_error(key)),
        },
        None => Err(json_error(key)),
    }
}

/// The non-negative integer member `key` of a JSON object.
pub fn json_get_u64(value: &JsonValue, key: &str) -> (res: Result<u64, UdemyError>)
    ensures
        match res {
            Ok(n) => json_field_u64(*value, key@) == Some(n),
            Err(e) => json_field_u64(*value, key@) is None && e@ == ErrorView::Json(key@),
        },
{
    match value.get(key) {
        Some(v) => match v.as_u64() {
            Some(n) => Ok(n),
            None => Err(json_error(key)),
        },
        None => Err(json_error(key)),
    }
}

} // verus!
