//! Validation of identifiers and hostnames that end up embedded in URLs and
//! file paths, and the user-facing rendering of backend API errors.
use vstd::prelude::*;
use crate::text::{
    chars_of, contains_char, contains_str, contains_text, decimal_string, decimal_text, join2, join3,
    join4, join5, string_of_chars, to_owned_string,
};

verus! {

broadcast use vstd::string::group_string_axioms;

/// Longest accepted project ID, in bytes. Long IDs cause unbounded memory in
/// URL construction.
pub const MAX_PROJECT_ID_LEN: usize = 64;

/// Whether `c` is an ASCII letter or digit.
pub open spec fn ascii_alphanumeric(c: char) -> bool {
    ('a' <= c && c <= 'z') || ('A' <= c && c <= 'Z') || ('0' <= c && c <= '9')
}

/// Characters a project ID may hold: ASCII letters and digits, `-` and `_`,
/// as the refusal message names them.
pub open spec fn project_id_char_ok(c: char) -> bool {
    ascii_alphanumeric(c) || c == '-' || c == '_'
}

fn is_project_id_char(c: char) -> (r: bool)
    ensures
        r == project_id_char_ok(c),
{
    ('a' <= c && c <= 'z') || ('A' <= c && c <= 'Z') || ('0' <= c && c <= '9') || c == '-' || c
        == '_'
}

pub open spec fn project_id_empty_message() -> Seq<char> {
    "project_id must not be empty"@
}

pub open spec fn project_id_too_long_message(len: nat) -> Seq<char> {
    "project_id is too long ("@ + decimal_text(len) + " characters; max "@ + decimal_text(
        MAX_PROJECT_ID_LEN as nat,
    ) + ")"@
}

pub open spec fn project_id_invalid_message(id: Seq<char>) -> Seq<char> {
    "project_id '"@ + id
        + "' contains invalid characters (only a-z, A-Z, 0-9, hyphens, underscores allowed)"@
}

/// The outcome of validating `id` (its characters) whose UTF-8 length is `byte_len`.
pub open spec fn project_id_check(id: Seq<char>, byte_len: nat) -> Result<(), Seq<char>> {
    if id.len() == 0 {
        Err(project_id_empty_message())
    } else if byte_len > MAX_PROJECT_ID_LEN {
        Err(project_id_too_long_message(byte_len))
    } else if exists|i: int| 0 <= i < id.len() && !project_id_char_ok(#[trigger] id[i]) {
        Err(project_id_invalid_message(id))
    } else {
        Ok(())
    }
}

pub open spec fn result_view(r: Result<(), String>) -> Result<(), Seq<char>> {
    match r {
        Ok(()) => Ok(()),
        Err(e) => Err(e@),
    }
}

/// Accepts a project ID of 1 to 64 bytes made of ASCII letters and digits,
/// `-` and `_`.
pub fn validate_project_id(id: &str) -> (r: Result<(), String>)
    ensures
        result_view(r) == project_id_check(id@, id.len() as nat),
{
    if id.is_empty() {
        return Err(to_owned_string("project_id must not be empty"));
    }
    let n = id.len();
    if n > MAX_PROJECT_ID_LEN {
        let len_text = decimal_string(n as u128);
        let max_text = decimal_string(MAX_PROJECT_ID_LEN as u128);
        return Err(
            join5(
                "project_id is too long (",
                len_text.as_str(),
                " characters; max ",
                max_text.as_str(),
                ")",
            ),
        );
    }
    let chars = chars_of(id);
    let mut i: usize = 0;
    while i < chars.len()
        invariant
            chars@ == id@,
            id@.len() > 0,
            id.len() <= MAX_PROJECT_ID_LEN,
            0 <= i <= chars@.len(),
            forall|j: int| 0 <= j < i ==> project_id_char_ok(#[trigger] chars@[j]),
        decreases chars@.len() - i,
    {
        let c = chars[i];
        if !is_project_id_char(c) {
            return Err(
                join3(
                    "project_id '",
                    id,
                    "' contains invalid characters (only a-z, A-Z, 0-9, hyphens, underscores allowed)",
                ),
            );
        }
        i += 1;
    }
    Ok(())
}

// ── instance hostnames ───────────────────────────────────────────────────────
/// The characters refused in an instance hostname, in the order they are checked.
pub open spec fn forbidden_host_chars() -> Seq<char> {
    seq!['/', '@', '?', '#', '\n', '\r']
}

/// `format!("{:?}", c)` for the characters of `forbidden_host_chars`.
pub open spec fn char_debug_text(c: char) -> Seq<char> {
    if c == '\n' {
        seq!['\'', '\\', 'n', '\'']
    } else if c == '\r' {
        seq!['\'', '\\', 'r', '\'']
    } else {
        seq!['\'', c, '\'']
    }
}

pub open spec fn host_empty_message() -> Seq<char> {
    "Instance hostname cannot be empty"@
}

pub open spec fn host_url_message(instance: Seq<char>) -> Seq<char> {
    "Instance must be a hostname only (e.g. mastodon.social), not a URL. Got: "@ + instance
}

pub open spec fn host_char_message(c: char) -> Seq<char> {
    "Instance hostname contains invalid character "@ + char_debug_text(c)
        + ". Use a plain hostname like mastodon.social"@
}

/// Index of the first forbidden character (in checking order) that occurs in `s`,
/// counting from `k`; `forbidden_host_chars().len()` when none does.
pub open spec fn first_forbidden_from(s: Seq<char>, k: int) -> int
    decreases 6 - k,
{
    if k >= 6 || k < 0 {
        6
    } else if s.contains(forbidden_host_chars()[k]) {
        k
    } else {
        first_forbidden_from(s, k + 1)
    }
}

pub open spec fn hostname_check(s: Seq<char>) -> Result<(), Seq<char>> {
    if s.len() == 0 {
        Err(host_empty_message())
    } else if contains_text(s, "://"@) {
        Err(host_url_message(s))
    } else if first_forbidden_from(s, 0) < 6 {
        Err(host_char_message(forbidden_host_chars()[first_forbidden_from(s, 0)]))
    } else {
        Ok(())
    }
}

fn forbidden_char_at(k: usize) -> (c: char)
    requires
        k < 6,
    ensures
        c == forbidden_host_chars()[k as int],
{
    if k == 0 {
        '/'
    } else if k == 1 {
        '@'
    } else if k == 2 {
        '?'
    } else if k == 3 {
        '#'
    } else if k == 4 {
        '\n'
    } else {
        '\r'
    }
}

fn char_debug_string(c: char) -> (s: String)
    ensures
        s@ == char_debug_text(c),
{
    if c == '\n' {
        string_of_chars(&['\'', '\\', 'n', '\''])
    } else if c == '\r' {
        string_of_chars(&['\'', '\\', 'r', '\''])
    } else {
        string_of_chars(&['\'', c, '\''])
    }
}

/// Accepts a plain hostname, optionally with a port (e.g. `mastodon.social:8080`):
/// not empty, no `://`, and none of `/ @ ? # \n \r`.
pub fn validate_instance_hostname(instance: &str) -> (r: Result<(), String>)
    ensures
        result_view(r) == hostname_check(instance@),
        r is Ok <==> (instance@.len() > 0 && !contains_text(instance@, "://"@) && forall|i: int|
            0 <= i < instance@.len() ==> !forbidden_host_chars().contains(#[trigger] instance@[i])),
{
    proof {
        reveal_strlit("://");
        lemma_first_forbidden_none(instance@, 0);
    }
    if instance.is_empty() {
        return Err(to_owned_string("Instance hostname cannot be empty"));
    }
    if contains_str(instance, "://") {
        return Err(
            join2(
                "Instance must be a hostname only (e.g. mastodon.social), not a URL. Got: ",
                instance,
            ),
        );
    }
    let mut k: usize = 0;
    while k < 6
        invariant
            0 <= k <= 6,
            instance@.len() > 0,
            !contains_text(instance@, "://"@),
            first_forbidden_from(instance@, 0) == first_forbidden_from(instance@, k as int),
        decreases 6 - k,
    {
        let ch = forbidden_char_at(k);
        if contains_char(instance, ch) {
            let shown = char_debug_string(ch);
            return Err(
                join3(
                    "Instance hostname contains invalid character ",
                    shown.as_str(),
                    ". Use a plain hostname like mastodon.social",
                ),
            );
        }
        k += 1;
    }
    Ok(())
}

proof fn lemma_first_forbidden_none(s: Seq<char>, k: int)
    requires
        0 <= k <= 6,
    ensures
        first_forbidden_from(s, k) == 6 <==> forall|j: int|
            k <= j < 6 ==> !s.contains(#[trigger] forbidden_host_chars()[j]),
        first_forbidden_from(s, k) <= 6,
    decreases 6 - k,
{
    if k < 6 {
        lemma_first_forbidden_none(s, k + 1);
    }
    assert((forall|i: int| 0 <= i < s.len() ==> !forbidden_host_chars().contains(#[trigger] s[i]))
        <==> (forall|j: int| 0 <= j < 6 ==> !s.contains(#[trigger] forbidden_host_chars()[j]))) by {
        if forall|i: int| 0 <= i < s.len() ==> !forbidden_host_chars().contains(#[trigger] s[i]) {
            assert forall|j: int| 0 <= j < 6 implies !s.contains(#[trigger] forbidden_host_chars()[j]) by {
                if s.contains(forbidden_host_chars()[j]) {
                    let i = choose|i: int| 0 <= i < s.len() && s[i] == forbidden_host_chars()[j];
                    assert(forbidden_host_chars().contains(s[i]));
                }
            }
        }
        if forall|j: int| 0 <= j < 6 ==> !s.contains(#[trigger] forbidden_host_chars()[j]) {
            assert forall|i: int| 0 <= i < s.len() implies !forbidden_host_chars().contains(#[trigger] s[i]) by {
                if forbidden_host_chars().contains(s[i]) {
                    let j = choose|j: int| 0 <= j < 6 && forbidden_host_chars()[j] == s[i];
                    assert(s.contains(forbidden_host_chars()[j]));
                }
            }
        }
    }
}

// ── API errors ───────────────────────────────────────────────────────────────
pub open spec fn api_error_text(operation: Seq<char>, status: u16) -> Seq<char> {
    operation + " (HTTP "@ + decimal_text(status as nat) + ")"@
}

/// The user-facing message for a failed backend call: the operation and the
/// HTTP status only. The raw response body never appears in it.
pub fn format_api_error(operation: &str, status: u16, raw_body: &str) -> (r: String)
    ensures
        r@ == api_error_text(operation@, status),
{
    let code = decimal_string(status as u128);
    join4(operation, " (HTTP ", code.as_str(), ")")
}

} // verus!
