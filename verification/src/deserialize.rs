//! The wire format, reading side.
//!
//! The spec functions here define, as one deterministic recursive descent,
//! which texts are accepted and what value each one denotes; the executable
//! functions return exactly that. The accepted grammar is the compact form
//! that the writing side emits, with two liberties taken on string contents
//! (`\/`, `\n`, `\t`, `\r`, `\b`, `\f` and `\u00XX` escapes are accepted
//! wherever the writer may have used another spelling, and unescaped control
//! characters are tolerated) and one on the details array: an entry whose
//! `@type` tag is none of the known three is skipped up to its closing brace
//! and dropped, so that envelopes from a future version of the model still
//! deserialize (forward compatibility). A `code` token outside the ten-value
//! set rejects the input.

use vstd::prelude::*;

use crate::model::DetailV;
use crate::model::ErrorCode;
use crate::model::ApiErrorV;
use crate::model::FieldViolationV;
use crate::model::token_of;

verus! {

/// The value of a hex digit, or -1 for any other character.
pub open spec fn hex_val(c: char) -> int {
    let u = c as u32;
    if 48 <= u && u <= 57 {
        u - 48
    } else if 97 <= u && u <= 102 {
        u - 87
    } else if 65 <= u && u <= 70 {
        u - 55
    } else {
        -1
    }
}

/// The text has the given literal at position `i`.
pub open spec fn at_lit(s: Seq<char>, i: int, lit: Seq<char>) -> bool {
    0 <= i && i + lit.len() <= s.len() && s.subrange(i, i + lit.len()) == lit
}

/// The character denoted by a single-character escape, if the escape is one.
pub open spec fn unescape_char(e: char) -> Option<char> {
    if e == '"' {
        Some('"')
    } else if e == '\\' {
        Some('\\')
    } else if e == '/' {
        Some('/')
    } else if e == 'n' {
        Some('\n')
    } else if e == 't' {
        Some('\t')
    } else if e == 'r' {
        Some('\r')
    } else if e == 'b' {
        Some('\u{8}')
    } else if e == 'f' {
        Some('\u{c}')
    } else {
        None
    }
}

/// Reads the body of a JSON string from position `i` (just after the opening
/// quote), with `acc` the characters already read: the decoded text and the
/// position after the closing quote. `\uXXXX` is accepted for code points
/// below 128; larger code points appear verbatim.
pub open spec fn parse_string_rest(s: Seq<char>, i: int, acc: Seq<char>) -> Option<
    (Seq<char>, int),
>
    decreases s.len() - i,
{
    if i < 0 || i >= s.len() {
        None
    } else if s[i] == '"' {
        Some((acc, i + 1))
    } else if s[i] == '\\' {
        if i + 1 >= s.len() {
            None
        } else if s[i + 1] == 'u' {
            if i + 6 > s.len() {
                None
            } else {
                let v = hex_val(s[i + 2]) * 4096 + hex_val(s[i + 3]) * 256 + hex_val(s[i + 4]) * 16
                    + hex_val(s[i + 5]);
                if hex_val(s[i + 2]) >= 0 && hex_val(s[i + 3]) >= 0 && hex_val(s[i + 4]) >= 0
                    && hex_val(s[i + 5]) >= 0 && v < 128 {
                    parse_string_rest(s, i + 6, acc.push((v as u8) as char))
                } else {
                    None
                }
            }
        } else {
            match unescape_char(s[i + 1]) {
                Some(c) => parse_string_rest(s, i + 2, acc.push(c)),
                None => None,
            }
        }
    } else {
        parse_string_rest(s, i + 1, acc.push(s[i]))
    }
}

/// Reads a whole JSON string at position `i`: its text and the position
/// after it.
pub open spec fn parse_string(s: Seq<char>, i: int) -> Option<(Seq<char>, int)> {
    if 0 <= i && i < s.len() && s[i] == '"' {
        parse_string_rest(s, i + 1, Seq::empty())
    } else {
        None
    }
}

/// The error code whose wire token is `t`, if any: the set is closed, any
/// other token is rejected.
#[verifier::opaque]
pub open spec fn code_of_token(t: Seq<char>) -> Option<ErrorCode> {
    if t == token_of(ErrorCode::InvalidArgument) {
        Some(ErrorCode::InvalidArgument)
    } else if t == token_of(ErrorCode::FailedPrecondition) {
        Some(ErrorCode::FailedPrecondition)
    } else if t == token_of(ErrorCode::NotFound) {
        Some(ErrorCode::NotFound)
    } else if t == token_of(ErrorCode::AlreadyExists) {
        Some(ErrorCode::AlreadyExists)
    } else if t == token_of(ErrorCode::Unauthenticated) {
        Some(ErrorCode::Unauthenticated)
    } else if t == token_of(ErrorCode::PermissionDenied) {
        Some(ErrorCode::PermissionDenied)
    } else if t == token_of(ErrorCode::TooManyRequests) {
        Some(ErrorCode::TooManyRequests)
    } else if t == token_of(ErrorCode::Internal) {
        Some(ErrorCode::Internal)
    } else if t == token_of(ErrorCode::Unknown) {
        Some(ErrorCode::Unknown)
    } else if t == token_of(ErrorCode::Unavailable) {
        Some(ErrorCode::Unavailable)
    } else {
        None
    }
}

/// Reading a string never stays in place: on success the returned position
/// lies beyond `i` and within the text.
pub proof fn lemma_parse_string_rest_advance(s: Seq<char>, i: int, acc: Seq<char>)
    ensures
        (match parse_string_rest(s, i, acc) {
            Some(p) => i < p.1 <= s.len(),
            None => true,
        }),
    decreases s.len() - i,
{
    if i < 0 || i >= s.len() {
    } else if s[i] == '"' {
    } else if s[i] == '\\' {
        if i + 1 >= s.len() {
        } else if s[i + 1] == 'u' {
            if i + 6 > s.len() {
            } else {
                let v = hex_val(s[i + 2]) * 4096 + hex_val(s[i + 3]) * 256 + hex_val(s[i + 4]) * 16
                    + hex_val(s[i + 5]);
                if hex_val(s[i + 2]) >= 0 && hex_val(s[i + 3]) >= 0 && hex_val(s[i + 4]) >= 0
                    && hex_val(s[i + 5]) >= 0 && v < 128 {
                    lemma_parse_string_rest_advance(s, i + 6, acc.push((v as u8) as char));
                }
            }
        } else {
            match unescape_char(s[i + 1]) {
                Some(c) => lemma_parse_string_rest_advance(s, i + 2, acc.push(c)),
                None => (),
            }
        }
    } else {
        lemma_parse_string_rest_advance(s, i + 1, acc.push(s[i]));
    }
}

/// As above, for a whole string.
pub proof fn lemma_parse_string_advance(s: Seq<char>, i: int)
    ensures
        (match parse_string(s, i) {
            Some(p) => i < p.1 <= s.len(),
            None => true,
        }),
{
    if 0 <= i && i < s.len() && s[i] == '"' {
        lemma_parse_string_rest_advance(s, i + 1, Seq::empty());
    }
}

/// Reads the members of a metadata object after the first: either the
/// closing brace, or a comma followed by one more `key: value` member.
pub open spec fn parse_metadata_rest(
    s: Seq<char>,
    i: int,
    acc: Seq<(Seq<char>, Seq<char>)>,
) -> Option<(Seq<(Seq<char>, Seq<char>)>, int)>
    decreases s.len() - i,
    via parse_metadata_rest_dec
{
    if i < 0 || i >= s.len() {
        None
    } else if s[i] == '}' {
        Some((acc, i + 1))
    } else if s[i] == ',' {
        match parse_string(s, i + 1) {
            Some((k, j)) => {
                if j < s.len() && s[j] == ':' {
                    match parse_string(s, j + 1) {
                        Some((v, j2)) => parse_metadata_rest(s, j2, acc.push((k, v))),
                        None => None,
                    }
                } else {
                    None
                }
            },
            None => None,
        }
    } else {
        None
    }
}

#[via_fn]
proof fn parse_metadata_rest_dec(s: Seq<char>, i: int, acc: Seq<(Seq<char>, Seq<char>)>) {
    if 0 <= i && i < s.len() && s[i] == ',' {
        lemma_parse_string_advance(s, i + 1);
        if let Some((k, j)) = parse_string(s, i + 1) {
            lemma_parse_string_advance(s, j + 1);
        }
    }
}

/// Reads a whole metadata object at position `i`: the key/value pairs in
/// their written order, and the position after the closing brace.
pub open spec fn parse_metadata(s: Seq<char>, i: int) -> Option<(Seq<(Seq<char>, Seq<char>)>, int)> {
    if 0 <= i && i < s.len() && s[i] == '{' {
        if i + 1 < s.len() && s[i + 1] == '}' {
            Some((Seq::empty(), i + 2))
        } else {
            match parse_string(s, i + 1) {
                Some((k, j)) => {
                    if j < s.len() && s[j] == ':' {
                        match parse_string(s, j + 1) {
                            Some((v, j2)) => parse_metadata_rest(s, j2, seq![(k, v)]),
                            None => None,
                        }
                    } else {
                        None
                    }
                },
                None => None,
            }
        }
    } else {
        None
    }
}

/// Reads one field violation object at position `i`.
#[verifier::opaque]
pub open spec fn parse_fv(s: Seq<char>, i: int) -> Option<(FieldViolationV, int)> {
    let l1 = "{\"field\":"@;
    let l2 = ",\"description\":"@;
    if at_lit(s, i, l1) {
        match parse_string(s, i + l1.len()) {
            Some((field, j)) => {
                if at_lit(s, j, l2) {
                    match parse_string(s, j + l2.len()) {
                        Some((description, j2)) => {
                            if j2 < s.len() && s[j2] == '}' {
                                Some((FieldViolationV { field, description }, j2 + 1))
                            } else {
                                None
                            }
                        },
                        None => None,
                    }
                } else {
                    None
                }
            },
            None => None,
        }
    } else {
        None
    }
}

/// Reading a field violation advances within the text.
pub proof fn lemma_parse_fv_advance(s: Seq<char>, i: int)
    ensures
        (match parse_fv(s, i) {
            Some(p) => i < p.1 <= s.len(),
            None => true,
        }),
{
    reveal(parse_fv);
    let l1 = "{\"field\":"@;
    let l2 = ",\"description\":"@;
    if at_lit(s, i, l1) {
        lemma_parse_string_advance(s, i + l1.len());
        if let Some((field, j)) = parse_string(s, i + l1.len()) {
            if at_lit(s, j, l2) {
                lemma_parse_string_advance(s, j + l2.len());
            }
        }
    }
}

/// Reads the elements of a field-violation array after the first: either the
/// closing bracket, or a comma followed by one more violation.
pub open spec fn parse_fvs_rest(s: Seq<char>, i: int, acc: Seq<FieldViolationV>) -> Option<
    (Seq<FieldViolationV>, int),
>
    decreases s.len() - i,
    via parse_fvs_rest_dec
{
    if i < 0 || i >= s.len() {
        None
    } else if s[i] == ']' {
        Some((acc, i + 1))
    } else if s[i] == ',' {
        match parse_fv(s, i + 1) {
            Some((v, j)) => parse_fvs_rest(s, j, acc.push(v)),
            None => None,
        }
    } else {
        None
    }
}

#[via_fn]
proof fn parse_fvs_rest_dec(s: Seq<char>, i: int, acc: Seq<FieldViolationV>) {
    if 0 <= i && i < s.len() && s[i] == ',' {
        lemma_parse_fv_advance(s, i + 1);
    }
}

/// Reads a whole field-violation array at position `i`, order preserved.
pub open spec fn parse_fvs(s: Seq<char>, i: int) -> Option<(Seq<FieldViolationV>, int)> {
    if 0 <= i && i < s.len() && s[i] == '[' {
        if i + 1 < s.len() && s[i + 1] == ']' {
            Some((Seq::empty(), i + 2))
        } else {
            match parse_fv(s, i + 1) {
                Some((v, j)) => parse_fvs_rest(s, j, seq![v]),
                None => None,
            }
        }
    } else {
        None
    }
}

/// Skips the remainder of an already-opened value up to the brace that
/// closes it, tracking nesting depth and string literals (with their
/// escapes): the position after that closing brace. This is how an entry
/// with an unrecognized tag is dropped.
pub open spec fn skip_balanced(s: Seq<char>, i: int, depth: int, in_str: bool) -> Option<int>
    decreases s.len() - i,
{
    if i < 0 || i >= s.len() || depth < 1 {
        None
    } else if in_str {
        if s[i] == '\\' {
            if i + 1 < s.len() {
                skip_balanced(s, i + 2, depth, true)
            } else {
                None
            }
        } else if s[i] == '"' {
            skip_balanced(s, i + 1, depth, false)
        } else {
            skip_balanced(s, i + 1, depth, true)
        }
    } else if s[i] == '{' || s[i] == '[' {
        skip_balanced(s, i + 1, depth + 1, false)
    } else if s[i] == '}' {
        if depth == 1 {
            Some(i + 1)
        } else {
            skip_balanced(s, i + 1, depth - 1, false)
        }
    } else if s[i] == ']' {
        if depth == 1 {
            None
        } else {
            skip_balanced(s, i + 1, depth - 1, false)
        }
    } else if s[i] == '"' {
        skip_balanced(s, i + 1, depth, true)
    } else {
        skip_balanced(s, i + 1, depth, false)
    }
}

/// Skipping advances within the text.
pub proof fn lemma_skip_balanced_advance(s: Seq<char>, i: int, depth: int, in_str: bool)
    ensures
        (match skip_balanced(s, i, depth, in_str) {
            Some(j) => i < j <= s.len(),
            None => true,
        }),
    decreases s.len() - i,
{
    if i < 0 || i >= s.len() || depth < 1 {
    } else if in_str {
        if s[i] == '\\' {
            if i + 1 < s.len() {
                lemma_skip_balanced_advance(s, i + 2, depth, true);
            }
        } else if s[i] == '"' {
            lemma_skip_balanced_advance(s, i + 1, depth, false);
        } else {
            lemma_skip_balanced_advance(s, i + 1, depth, true);
        }
    } else if s[i] == '{' || s[i] == '[' {
        lemma_skip_balanced_advance(s, i + 1, depth + 1, false);
    } else if s[i] == '}' {
        if depth != 1 {
            lemma_skip_balanced_advance(s, i + 1, depth - 1, false);
        }
    } else if s[i] == ']' {
        if depth != 1 {
            lemma_skip_balanced_advance(s, i + 1, depth - 1, false);
        }
    } else if s[i] == '"' {
        lemma_skip_balanced_advance(s, i + 1, depth, true);
    } else {
        lemma_skip_balanced_advance(s, i + 1, depth, false);
    }
}

/// Reads one details entry at position `i`: a tagged object whose `@type`
/// comes first. A recognized tag yields its variant; an unrecognized tag
/// yields `None` for the entry (it is dropped), after skipping the rest of
/// the object.
#[verifier::opaque]
pub open spec fn parse_detail(s: Seq<char>, i: int) -> Option<(Option<DetailV>, int)> {
    let l0 = "{\"@type\":"@;
    if at_lit(s, i, l0) {
        match parse_string(s, i + l0.len()) {
            Some((tag, j)) => {
                if tag == "ErrorInfo"@ {
                    let l1 = ",\"reason\":"@;
                    let l2 = ",\"metadata\":"@;
                    if at_lit(s, j, l1) {
                        match parse_string(s, j + l1.len()) {
                            Some((reason, j2)) => {
                                if at_lit(s, j2, l2) {
                                    match parse_metadata(s, j2 + l2.len()) {
                                        Some((metadata, j3)) => {
                                            if j3 < s.len() && s[j3] == '}' {
                                                Some(
                                                    (
                                                        Some(DetailV::ErrorInfo { reason, metadata }),
                                                        j3 + 1,
                                                    ),
                                                )
                                            } else {
                                                None
                                            }
                                        },
                                        None => None,
                                    }
                                } else {
                                    None
                                }
                            },
                            None => None,
                        }
                    } else {
                        None
                    }
                } else if tag == "BadRequest"@ {
                    let l1 = ",\"field_violations\":"@;
                    if at_lit(s, j, l1) {
                        match parse_fvs(s, j + l1.len()) {
                            Some((field_violations, j2)) => {
                                if j2 < s.len() && s[j2] == '}' {
                                    Some((Some(DetailV::BadRequest { field_violations }), j2 + 1))
                                } else {
                                    None
                                }
                            },
                            None => None,
                        }
                    } else {
                        None
                    }
                } else if tag == "LocalizedMessage"@ {
                    let l1 = ",\"locale\":"@;
                    let l2 = ",\"message\":"@;
                    if at_lit(s, j, l1) {
                        match parse_string(s, j + l1.len()) {
                            Some((locale, j2)) => {
                                if at_lit(s, j2, l2) {
                                    match parse_string(s, j2 + l2.len()) {
                                        Some((message, j3)) => {
                                            if j3 < s.len() && s[j3] == '}' {
                                                Some(
                                                    (
                                                        Some(
                                                            DetailV::LocalizedMessage {
                                                                locale,
                                                                message,
                                                            },
                                                        ),
                                                        j3 + 1,
                                                    ),
                                                )
                                            } else {
                                                None
                                            }
                                        },
                                        None => None,
                                    }
                                } else {
                                    None
                                }
                            },
                            None => None,
                        }
                    } else {
                        None
                    }
                } else {
                    match skip_balanced(s, j, 1, false) {
                        Some(j2) => Some((None, j2)),
                        None => None,
                    }
                }
            },
            None => None,
        }
    } else {
        None
    }
}

/// Reading a details entry advances within the text.
pub proof fn lemma_parse_detail_advance(s: Seq<char>, i: int)
    ensures
        (match parse_detail(s, i) {
            Some(p) => i < p.1 <= s.len(),
            None => true,
        }),
{
    reveal(parse_detail);
    let l0 = "{\"@type\":"@;
    if at_lit(s, i, l0) {
        lemma_parse_string_advance(s, i + l0.len());
        if let Some((tag, j)) = parse_string(s, i + l0.len()) {
            if tag == "ErrorInfo"@ {
                let l1 = ",\"reason\":"@;
                let l2 = ",\"metadata\":"@;
                if at_lit(s, j, l1) {
                    lemma_parse_string_advance(s, j + l1.len());
                    if let Some((reason, j2)) = parse_string(s, j + l1.len()) {
                        if at_lit(s, j2, l2) {
                            lemma_parse_metadata_advance(s, j2 + l2.len());
                        }
                    }
                }
            } else if tag == "BadRequest"@ {
                let l1 = ",\"field_violations\":"@;
                if at_lit(s, j, l1) {
                    lemma_parse_fvs_advance(s, j + l1.len());
                }
            } else if tag == "LocalizedMessage"@ {
                let l1 = ",\"locale\":"@;
                let l2 = ",\"message\":"@;
                if at_lit(s, j, l1) {
                    lemma_parse_string_advance(s, j + l1.len());
                    if let Some((locale, j2)) = parse_string(s, j + l1.len()) {
                        if at_lit(s, j2, l2) {
                            lemma_parse_string_advance(s, j2 + l2.len());
                        }
                    }
                }
            } else {
                lemma_skip_balanced_advance(s, j, 1, false);
            }
        }
    }
}

/// Reading metadata members advances within the text.
pub proof fn lemma_parse_metadata_rest_advance(s: Seq<char>, i: int, acc: Seq<(Seq<char>, Seq<char>)>)
    ensures
        (match parse_metadata_rest(s, i, acc) {
            Some(p) => i < p.1 <= s.len(),
            None => true,
        }),
    decreases s.len() - i,
{
    if 0 <= i && i < s.len() && s[i] == ',' {
        lemma_parse_string_advance(s, i + 1);
        if let Some((k, j)) = parse_string(s, i + 1) {
            if j < s.len() && s[j] == ':' {
                lemma_parse_string_advance(s, j + 1);
                if let Some((v, j2)) = parse_string(s, j + 1) {
                    lemma_parse_metadata_rest_advance(s, j2, acc.push((k, v)));
                }
            }
        }
    }
}

/// Reading a metadata object advances within the text.
pub proof fn lemma_parse_metadata_advance(s: Seq<char>, i: int)
    ensures
        (match parse_metadata(s, i) {
            Some(p) => i < p.1 <= s.len(),
            None => true,
        }),
{
    if 0 <= i && i < s.len() && s[i] == '{' {
        if i + 1 < s.len() && s[i + 1] == '}' {
        } else {
            lemma_parse_string_advance(s, i + 1);
            if let Some((k, j)) = parse_string(s, i + 1) {
                if j < s.len() && s[j] == ':' {
                    lemma_parse_string_advance(s, j + 1);
                    if let Some((v, j2)) = parse_string(s, j + 1) {
                        lemma_parse_metadata_rest_advance(s, j2, seq![(k, v)]);
                    }
                }
            }
        }
    }
}

/// Reading field-violation elements advances within the text.
pub proof fn lemma_parse_fvs_rest_advance(s: Seq<char>, i: int, acc: Seq<FieldViolationV>)
    ensures
        (match parse_fvs_rest(s, i, acc) {
            Some(p) => i < p.1 <= s.len(),
            None => true,
        }),
    decreases s.len() - i,
{
    if 0 <= i && i < s.len() && s[i] == ',' {
        lemma_parse_fv_advance(s, i + 1);
        if let Some((v, j)) = parse_fv(s, i + 1) {
            lemma_parse_fvs_rest_advance(s, j, acc.push(v));
        }
    }
}

/// Reading a field-violation array advances within the text.
pub proof fn lemma_parse_fvs_advance(s: Seq<char>, i: int)
    ensures
        (match parse_fvs(s, i) {
            Some(p) => i < p.1 <= s.len(),
            None => true,
        }),
{
    if 0 <= i && i < s.len() && s[i] == '[' {
        if i + 1 < s.len() && s[i + 1] == ']' {
        } else {
            lemma_parse_fv_advance(s, i + 1);
            if let Some((v, j)) = parse_fv(s, i + 1) {
                lemma_parse_fvs_rest_advance(s, j, seq![v]);
            }
        }
    }
}

/// Reads the details entries after the first kept-or-dropped one: either the
/// closing bracket, or a comma followed by one more entry.
pub open spec fn parse_details_rest(s: Seq<char>, i: int, acc: Seq<DetailV>) -> Option<
    (Seq<DetailV>, int),
>
    decreases s.len() - i,
    via parse_details_rest_dec
{
    if i < 0 || i >= s.len() {
        None
    } else if s[i] == ']' {
        Some((acc, i + 1))
    } else if s[i] == ',' {
        match parse_detail(s, i + 1) {
            Some((d, j)) => parse_details_rest(
                s,
                j,
                match d {
                    Some(d) => acc.push(d),
                    None => acc,
                },
            ),
            None => None,
        }
    } else {
        None
    }
}

#[via_fn]
proof fn parse_details_rest_dec(s: Seq<char>, i: int, acc: Seq<DetailV>) {
    if 0 <= i && i < s.len() && s[i] == ',' {
        lemma_parse_detail_advance(s, i + 1);
    }
}

/// Reads the whole details array at position `i`: the recognized entries in
/// their written order, unrecognized ones dropped.
pub open spec fn parse_details(s: Seq<char>, i: int) -> Option<(Seq<DetailV>, int)> {
    if 0 <= i && i < s.len() && s[i] == '[' {
        if i + 1 < s.len() && s[i + 1] == ']' {
            Some((Seq::empty(), i + 2))
        } else {
            match parse_detail(s, i + 1) {
                Some((d, j)) => parse_details_rest(
                    s,
                    j,
                    match d {
                        Some(d) => seq![d],
                        None => Seq::empty(),
                    },
                ),
                None => None,
            }
        }
    } else {
        None
    }
}

/// The value denoted by a whole wire text, if it is accepted: code, message
/// and details in the fixed order, nothing before or after.
pub open spec fn parse_json(s: Seq<char>) -> Option<ApiErrorV> {
    let l0 = "{\"code\":"@;
    let l1 = ",\"message\":"@;
    let l2 = ",\"details\":"@;
    if at_lit(s, 0, l0) {
        match parse_string(s, l0.len() as int) {
            Some((tok, j)) => match code_of_token(tok) {
                Some(code) => {
                    if at_lit(s, j, l1) {
                        match parse_string(s, j + l1.len()) {
                            Some((message, j2)) => {
                                if at_lit(s, j2, l2) {
                                    match parse_details(s, j2 + l2.len()) {
                                        Some((details, j3)) => {
                                            if j3 + 1 == s.len() && s[j3] == '}' {
                                                Some(ApiErrorV { code, message, details })
                                            } else {
                                                None
                                            }
                                        },
                                        None => None,
                                    }
                                } else {
                                    None
                                }
                            },
                            None => None,
                        }
                    } else {
                        None
                    }
                },
                None => None,
            },
            None => None,
        }
    } else {
        None
    }
}

} // verus!
