//! The executable reader of the wire format: it returns exactly what the
//! spec-level descent in `deserialize` denotes.

use vstd::prelude::*;

use crate::deserialize::at_lit;
use crate::deserialize::code_of_token;
use crate::deserialize::hex_val;
use crate::deserialize::lemma_parse_detail_advance;
use crate::deserialize::lemma_parse_fv_advance;
use crate::deserialize::lemma_parse_string_advance;
use crate::deserialize::parse_detail;
use crate::deserialize::parse_details;
use crate::deserialize::parse_details_rest;
use crate::deserialize::parse_fv;
use crate::deserialize::parse_fvs;
use crate::deserialize::parse_fvs_rest;
use crate::deserialize::parse_json;
use crate::deserialize::parse_metadata;
use crate::deserialize::parse_metadata_rest;
use crate::deserialize::parse_string;
use crate::deserialize::parse_string_rest;
use crate::deserialize::skip_balanced;
use crate::deserialize::unescape_char;
use crate::model::ApiError;
use crate::model::ErrorCode;
use crate::model::ErrorDetails;
use crate::model::FieldViolation;
use crate::model::details_view;
use crate::model::fvs_view;
use crate::model::metadata_view;
use crate::serialize::push_char;

verus! {

/// The characters of a text, as a vector.
fn str_chars(s: &str) -> (v: Vec<char>)
    ensures
        v@ == s@,
{
    let n = s.unicode_len();
    let mut v: Vec<char> = Vec::new();
    let mut i: usize = 0;
    while i < n
        invariant
            i <= n,
            n == s@.len(),
            v@ == s@.take(i as int),
        decreases n - i,
    {
        let c = s.get_char(i);
        v.push(c);
        proof {
            assert(s@.take(i as int).push(c) =~= s@.take(i as int + 1));
        }
        i = i + 1;
    }
    proof {
        assert(s@.take(n as int) =~= s@);
    }
    v
}

/// The value of a hex digit character, if it is one.
fn hex_digit_val(c: char) -> (r: Option<u8>)
    ensures
        (match r {
            Some(d) => hex_val(c) == d as int,
            None => hex_val(c) < 0,
        }),
{
    let u = c as u32;
    if 48 <= u && u <= 57 {
        Some((u - 48) as u8)
    } else if 97 <= u && u <= 102 {
        Some((u - 87) as u8)
    } else if 65 <= u && u <= 70 {
        Some((u - 55) as u8)
    } else {
        None
    }
}

/// The character denoted by a single-character escape, if the escape is one.
fn unescape1(e: char) -> (r: Option<char>)
    ensures
        r == unescape_char(e),
{
    if e == '"' {
        Some('"')
    } else if e == '\\' {
        Some('\\')
    } else if e == '/' {
        Some('/')
    } else if e == 'n' {
        Some('\n')
    } else if e == 't' {
        Some('\t')
    } else if e == 'r' {
        Some('\r')
    } else if e == 'b' {
        Some('\u{8}')
    } else if e == 'f' {
        Some('\u{c}')
    } else {
        None
    }
}

/// Reads a string body from just after the opening quote, `acc` holding the
/// characters already decoded.
fn read_string_rest(v: &Vec<char>, i: usize, acc: String) -> (r: Option<(String, usize)>)
    ensures
        (match r {
            Some(p) => parse_string_rest(v@, i as int, acc@) == Some((p.0@, p.1 as int)),
            None => parse_string_rest(v@, i as int, acc@) is None,
        }),
    decreases v@.len() - i,
{
    if i >= v.len() {
        return None;
    }
    let c = v[i];
    if c == '"' {
        Some((acc, i + 1))
    } else if c == '\\' {
        if i + 1 >= v.len() {
            return None;
        }
        if v[i + 1] == 'u' {
            if v.len() - i < 6 {
                return None;
            }
            let h0 = hex_digit_val(v[i + 2]);
            let h1 = hex_digit_val(v[i + 3]);
            let h2 = hex_digit_val(v[i + 4]);
            let h3 = hex_digit_val(v[i + 5]);
            match (h0, h1, h2, h3) {
                (Some(d0), Some(d1), Some(d2), Some(d3)) => {
                    let value: u32 = (d0 as u32) * 4096 + (d1 as u32) * 256 + (d2 as u32) * 16 + (
                    d3 as u32);
                    if value < 128 {
                        let c2 = (value as u8) as char;
                        let mut acc = acc;
                        let ghost acc0 = acc@;
                        push_char(&mut acc, c2);
                        proof {
                            assert(acc@ =~= acc0.push(c2));
                        }
                        read_string_rest(v, i + 6, acc)
                    } else {
                        None
                    }
                },
                _ => None,
            }
        } else {
            match unescape1(v[i + 1]) {
                Some(c2) => {
                    let mut acc = acc;
                    let ghost acc0 = acc@;
                    push_char(&mut acc, c2);
                    proof {
                        assert(acc@ =~= acc0.push(c2));
                    }
                    read_string_rest(v, i + 2, acc)
                },
                None => None,
            }
        }
    } else {
        let mut acc = acc;
        let ghost acc0 = acc@;
        push_char(&mut acc, c);
        proof {
            assert(acc@ =~= acc0.push(c));
        }
        read_string_rest(v, i + 1, acc)
    }
}

/// Reads a whole string at position `i`.
fn read_string(v: &Vec<char>, i: usize) -> (r: Option<(String, usize)>)
    ensures
        (match r {
            Some(p) => parse_string(v@, i as int) == Some((p.0@, p.1 as int)),
            None => parse_string(v@, i as int) is None,
        }),
{
    if i < v.len() && v[i] == '"' {
        read_string_rest(v, i + 1, String::new())
    } else {
        None
    }
}

/// Whether a text equals a fixed literal.
fn eq_lit(t: &String, lit: &str) -> (r: bool)
    ensures
        r == (t@ == lit@),
{
    t.eq(&lit.to_owned())
}

/// The error code whose wire token is `t`, if any.
fn token_code(t: &String) -> (r: Option<ErrorCode>)
    ensures
        r == code_of_token(t@),
{
    proof {
        reveal(code_of_token);
    }
    if eq_lit(t, "INVALID_ARGUMENT") {
        Some(ErrorCode::InvalidArgument)
    } else if eq_lit(t, "FAILED_PRECONDITION") {
        Some(ErrorCode::FailedPrecondition)
    } else if eq_lit(t, "NOT_FOUND") {
        Some(ErrorCode::NotFound)
    } else if eq_lit(t, "ALREADY_EXISTS") {
        Some(ErrorCode::AlreadyExists)
    } else if eq_lit(t, "UNAUTHENTICATED") {
        Some(ErrorCode::Unauthenticated)
    } else if eq_lit(t, "PERMISSION_DENIED") {
        Some(ErrorCode::PermissionDenied)
    } else if eq_lit(t, "TOO_MANY_REQUESTS") {
        Some(ErrorCode::TooManyRequests)
    } else if eq_lit(t, "INTERNAL") {
        Some(ErrorCode::Internal)
    } else if eq_lit(t, "UNKNOWN") {
        Some(ErrorCode::Unknown)
    } else if eq_lit(t, "UNAVAILABLE") {
        Some(ErrorCode::Unavailable)
    } else {
        None
    }
}

/// Consumes the fixed literal at position `i`, if it is there.
fn eat_lit(v: &Vec<char>, i: usize, lit: &str) -> (r: Option<usize>)
    ensures
        (match r {
            Some(j) => at_lit(v@, i as int, lit@) && j as int == i + lit@.len(),
            None => !at_lit(v@, i as int, lit@),
        }),
{
    let n = lit.unicode_len();
    if v.len() < i || v.len() - i < n {
        return None;
    }
    let len = v.len();
    let mut j: usize = 0;
    while j < n
        invariant
            j <= n,
            n == lit@.len(),
            i + n <= len,
            len == v@.len(),
            forall|k: int| 0 <= k < j ==> v@[i + k] == lit@[k],
        decreases n - j,
    {
        if v[i + j] != lit.get_char(j) {
            proof {
                if at_lit(v@, i as int, lit@) {
                    assert(v@.subrange(i as int, i + lit@.len())[j as int] == v@[i + j]);
                }
            }
            return None;
        }
        j = j + 1;
    }
    proof {
        assert(v@.subrange(i as int, i + lit@.len()) =~= lit@);
    }
    Some(i + n)
}

/// Reads metadata members after the first, `acc` holding those already read.
fn read_metadata_rest(v: &Vec<char>, i: usize, acc: Vec<(String, String)>) -> (r: Option<
    (Vec<(String, String)>, usize),
>)
    ensures
        (match r {
            Some(p) => parse_metadata_rest(v@, i as int, metadata_view(acc@)) == Some(
                (metadata_view(p.0@), p.1 as int),
            ),
            None => parse_metadata_rest(v@, i as int, metadata_view(acc@)) is None,
        }),
    decreases v@.len() - i,
{
    if i >= v.len() {
        return None;
    }
    let c = v[i];
    if c == '}' {
        Some((acc, i + 1))
    } else if c == ',' {
        match read_string(v, i + 1) {
            Some((k, j)) => {
                if j < v.len() && v[j] == ':' {
                    match read_string(v, j + 1) {
                        Some((value, j2)) => {
                            proof {
                                lemma_parse_string_advance(v@, i + 1 as int);
                                lemma_parse_string_advance(v@, j + 1 as int);
                            }
                            let mut acc = acc;
                            let ghost acc0 = metadata_view(acc@);
                            let ghost kv = (k@, value@);
                            acc.push((k, value));
                            proof {
                                assert(metadata_view(acc@) =~= acc0.push(kv));
                            }
                            read_metadata_rest(v, j2, acc)
                        },
                        None => None,
                    }
                } else {
                    None
                }
            },
            None => None,
        }
    } else {
        None
    }
}

/// Reads a whole metadata object at position `i`.
fn read_metadata(v: &Vec<char>, i: usize) -> (r: Option<(Vec<(String, String)>, usize)>)
    ensures
        (match r {
            Some(p) => parse_metadata(v@, i as int) == Some((metadata_view(p.0@), p.1 as int)),
            None => parse_metadata(v@, i as int) is None,
        }),
{
    if i < v.len() && v[i] == '{' {
        if i + 1 < v.len() && v[i + 1] == '}' {
            let empty: Vec<(String, String)> = Vec::new();
            proof {
                assert(metadata_view(empty@) =~= Seq::<(Seq<char>, Seq<char>)>::empty());
            }
            Some((empty, i + 2))
        } else {
            match read_string(v, i + 1) {
                Some((k, j)) => {
                    if j < v.len() && v[j] == ':' {
                        match read_string(v, j + 1) {
                            Some((value, j2)) => {
                                let ghost kv = (k@, value@);
                                let mut acc: Vec<(String, String)> = Vec::new();
                                acc.push((k, value));
                                proof {
                                    assert(metadata_view(acc@) =~= seq![kv]);
                                }
                                read_metadata_rest(v, j2, acc)
                            },
                            None => None,
                        }
                    } else {
                        None
                    }
                },
                None => None,
            }
        }
    } else {
        None
    }
}

/// Reads one field violation object at position `i`.
fn read_fv(v: &Vec<char>, i: usize) -> (r: Option<(FieldViolation, usize)>)
    ensures
        (match r {
            Some(p) => parse_fv(v@, i as int) == Some((p.0@, p.1 as int)),
            None => parse_fv(v@, i as int) is None,
        }),
{
    proof {
        reveal(parse_fv);
    }
    match eat_lit(v, i, "{\"field\":") {
        Some(j0) => {
            match read_string(v, j0) {
                Some((field, j)) => {
                    match eat_lit(v, j, ",\"description\":") {
                        Some(j1) => {
                            match read_string(v, j1) {
                                Some((description, j2)) => {
                                    if j2 < v.len() && v[j2] == '}' {
                                        Some((FieldViolation { field, description }, j2 + 1))
                                    } else {
                                        None
                                    }
                                },
                                None => None,
                            }
                        },
                        None => None,
                    }
                },
                None => None,
            }
        },
        None => None,
    }
}

/// Reads field-violation elements after the first, `acc` holding those
/// already read.
fn read_fvs_rest(v: &Vec<char>, i: usize, acc: Vec<FieldViolation>) -> (r: Option<
    (Vec<FieldViolation>, usize),
>)
    ensures
        (match r {
            Some(p) => parse_fvs_rest(v@, i as int, fvs_view(acc@)) == Some(
                (fvs_view(p.0@), p.1 as int),
            ),
            None => parse_fvs_rest(v@, i as int, fvs_view(acc@)) is None,
        }),
    decreases v@.len() - i,
{
    if i >= v.len() {
        return None;
    }
    let c = v[i];
    if c == ']' {
        Some((acc, i + 1))
    } else if c == ',' {
        match read_fv(v, i + 1) {
            Some((fv, j)) => {
                proof {
                    lemma_parse_fv_advance(v@, i + 1 as int);
                }
                let ghost fvv = fv@;
                let mut acc = acc;
                let ghost acc0 = fvs_view(acc@);
                acc.push(fv);
                proof {
                    assert(fvs_view(acc@) =~= acc0.push(fvv));
                }
                read_fvs_rest(v, j, acc)
            },
            None => None,
        }
    } else {
        None
    }
}

/// Reads a whole field-violation array at position `i`.
fn read_fvs(v: &Vec<char>, i: usize) -> (r: Option<(Vec<FieldViolation>, usize)>)
    ensures
        (match r {
            Some(p) => parse_fvs(v@, i as int) == Some((fvs_view(p.0@), p.1 as int)),
            None => parse_fvs(v@, i as int) is None,
        }),
{
    if i < v.len() && v[i] == '[' {
        if i + 1 < v.len() && v[i + 1] == ']' {
            let empty: Vec<FieldViolation> = Vec::new();
            proof {
                assert(fvs_view(empty@) =~= Seq::<crate::model::FieldViolationV>::empty());
            }
            Some((empty, i + 2))
        } else {
            match read_fv(v, i + 1) {
                Some((fv, j)) => {
                    let ghost fvv = fv@;
                    let mut acc: Vec<FieldViolation> = Vec::new();
                    acc.push(fv);
                    proof {
                        assert(fvs_view(acc@) =~= seq![fvv]);
                    }
                    read_fvs_rest(v, j, acc)
                },
                None => None,
            }
        }
    } else {
        None
    }
}

/// Skips an already-opened value up to the brace that closes it.
fn skip_rest(v: &Vec<char>, i: usize, depth: u128, in_str: bool) -> (r: Option<usize>)
    requires
        1 <= depth,
        depth <= i + 1,
    ensures
        (match r {
            Some(j) => skip_balanced(v@, i as int, depth as int, in_str) == Some(j as int),
            None => skip_balanced(v@, i as int, depth as int, in_str) is None,
        }),
    decreases v@.len() - i,
{
    if i >= v.len() {
        return None;
    }
    let c = v[i];
    if in_str {
        if c == '\\' {
            if i + 1 < v.len() {
                skip_rest(v, i + 2, depth, true)
            } else {
                None
            }
        } else if c == '"' {
            skip_rest(v, i + 1, depth, false)
        } else {
            skip_rest(v, i + 1, depth, true)
        }
    } else if c == '{' || c == '[' {
        skip_rest(v, i + 1, depth + 1, false)
    } else if c == '}' {
        if depth == 1 {
            Some(i + 1)
        } else {
            skip_rest(v, i + 1, depth - 1, false)
        }
    } else if c == ']' {
        if depth == 1 {
            None
        } else {
            skip_rest(v, i + 1, depth - 1, false)
        }
    } else if c == '"' {
        skip_rest(v, i + 1, depth, true)
    } else {
        skip_rest(v, i + 1, depth, false)
    }
}

/// Reads one details entry at position `i`: `Some` for a recognized tag,
/// `None` for a skipped unrecognized one.
fn read_detail(v: &Vec<char>, i: usize) -> (r: Option<(Option<ErrorDetails>, usize)>)
    ensures
        (match r {
            Some(p) => parse_detail(v@, i as int) == Some(
                (
                    match p.0 {
                        Some(d) => Some(d@),
                        None => None,
                    },
                    p.1 as int,
                ),
            ),
            None => parse_detail(v@, i as int) is None,
        }),
{
    proof {
        reveal(parse_detail);
    }
    match eat_lit(v, i, "{\"@type\":") {
        Some(j0) => {
            match read_string(v, j0) {
                Some((tag, j)) => {
                    if eq_lit(&tag, "ErrorInfo") {
                        match eat_lit(v, j, ",\"reason\":") {
                            Some(j1) => {
                                match read_string(v, j1) {
                                    Some((reason, j2)) => {
                                        match eat_lit(v, j2, ",\"metadata\":") {
                                            Some(j3) => {
                                                match read_metadata(v, j3) {
                                                    Some((metadata, j4)) => {
                                                        if j4 < v.len() && v[j4] == '}' {
                                                            Some(
                                                                (
                                                                    Some(
                                                                        ErrorDetails::ErrorInfo {
                                                                            reason,
                                                                            metadata,
                                                                        },
                                                                    ),
                                                                    j4 + 1,
                                                                ),
                                                            )
                                                        } else {
                                                            None
                                                        }
                                                    },
                                                    None => None,
                                                }
                                            },
                                            None => None,
                                        }
                                    },
                                    None => None,
                                }
                            },
                            None => None,
                        }
                    } else if eq_lit(&tag, "BadRequest") {
                        match eat_lit(v, j, ",\"field_violations\":") {
                            Some(j1) => {
                                match read_fvs(v, j1) {
                                    Some((field_violations, j2)) => {
                                        if j2 < v.len() && v[j2] == '}' {
                                            Some(
                                                (
                                                    Some(
                                                        ErrorDetails::BadRequest {
                                                            field_violations,
                                                        },
                                                    ),
                                                    j2 + 1,
                                                ),
                                            )
                                        } else {
                                            None
                                        }
                                    },
                                    None => None,
                                }
                            },
                            None => None,
                        }
                    } else if eq_lit(&tag, "LocalizedMessage") {
                        match eat_lit(v, j, ",\"locale\":") {
                            Some(j1) => {
                                match read_string(v, j1) {
                                    Some((locale, j2)) => {
                                        match eat_lit(v, j2, ",\"message\":") {
                                            Some(j3) => {
                                                match read_string(v, j3) {
                                                    Some((message, j4)) => {
                                                        if j4 < v.len() && v[j4] == '}' {
                                                            Some(
                                                                (
                                                                    Some(
                                                                        ErrorDetails::LocalizedMessage {
                                                                            locale,
                                                                            message,
                                                                        },
                                                                    ),
                                                                    j4 + 1,
                                                                ),
                                                            )
                                                        } else {
                                                            None
                                                        }
                                                    },
                                                    None => None,
                                                }
                                            },
                                            None => None,
                                        }
                                    },
                                    None => None,
                                }
                            },
                            None => None,
                        }
                    } else {
                        proof {
                            lemma_parse_string_advance(v@, j0 as int);
                        }
                        match skip_rest(v, j, 1, false) {
                            Some(j2) => Some((None, j2)),
                            None => None,
                        }
                    }
                },
                None => None,
            }
        },
        None => None,
    }
}

/// Reads details entries after the first, `acc` holding the recognized ones
/// already read.
fn read_details_rest(v: &Vec<char>, i: usize, acc: Vec<ErrorDetails>) -> (r: Option<
    (Vec<ErrorDetails>, usize),
>)
    ensures
        (match r {
            Some(p) => parse_details_rest(v@, i as int, details_view(acc@)) == Some(
                (details_view(p.0@), p.1 as int),
            ),
            None => parse_details_rest(v@, i as int, details_view(acc@)) is None,
        }),
    decreases v@.len() - i,
{
    if i >= v.len() {
        return None;
    }
    let c = v[i];
    if c == ']' {
        Some((acc, i + 1))
    } else if c == ',' {
        match read_detail(v, i + 1) {
            Some((d, j)) => {
                proof {
                    lemma_parse_detail_advance(v@, i + 1 as int);
                }
                let mut acc = acc;
                let ghost acc0 = details_view(acc@);
                match d {
                    Some(d) => {
                        let ghost dv = d@;
                        acc.push(d);
                        proof {
                            assert(details_view(acc@) =~= acc0.push(dv));
                        }
                    },
                    None => (),
                }
                read_details_rest(v, j, acc)
            },
            None => None,
        }
    } else {
        None
    }
}

/// Reads the whole details array at position `i`.
fn read_details(v: &Vec<char>, i: usize) -> (r: Option<(Vec<ErrorDetails>, usize)>)
    ensures
        (match r {
            Some(p) => parse_details(v@, i as int) == Some((details_view(p.0@), p.1 as int)),
            None => parse_details(v@, i as int) is None,
        }),
{
    if i < v.len() && v[i] == '[' {
        if i + 1 < v.len() && v[i + 1] == ']' {
            let empty: Vec<ErrorDetails> = Vec::new();
            proof {
                assert(details_view(empty@) =~= Seq::<crate::model::DetailV>::empty());
            }
            Some((empty, i + 2))
        } else {
            match read_detail(v, i + 1) {
                Some((d, j)) => {
                    let mut acc: Vec<ErrorDetails> = Vec::new();
                    match d {
                        Some(d) => {
                            let ghost dv = d@;
                            acc.push(d);
                            proof {
                                assert(details_view(acc@) =~= seq![dv]);
                            }
                        },
                        None => {
                            proof {
                                assert(details_view(acc@) =~= Seq::<crate::model::DetailV>::empty());
                            }
                        },
                    }
                    read_details_rest(v, j, acc)
                },
                None => None,
            }
        }
    } else {
        None
    }
}

impl ApiError {
    /// The envelope denoted by a wire text, or `None` if the text is not
    /// accepted: not the fixed shape, or a `code` token outside the
    /// ten-value set. Detail entries with an unrecognized tag are dropped,
    /// never an error.
    pub fn from_json(s: &str) -> (r: Option<ApiError>)
        ensures
            (match r {
                Some(e) => parse_json(s@) == Some(e@),
                None => parse_json(s@) is None,
            }),
    {
        let v = str_chars(s);
        match eat_lit(&v, 0, "{\"code\":") {
            Some(j0) => {
                match read_string(&v, j0) {
                    Some((tok, j)) => {
                        match token_code(&tok) {
                            Some(code) => {
                                match eat_lit(&v, j, ",\"message\":") {
                                    Some(j1) => {
                                        match read_string(&v, j1) {
                                            Some((message, j2)) => {
                                                match eat_lit(&v, j2, ",\"details\":") {
                                                    Some(j3) => {
                                                        match read_details(&v, j3) {
                                                            Some((details, j4)) => {
                                                                if j4 < v.len() && v[j4] == '}'
                                                                    && j4 + 1 == v.len() {
                                                                    Some(
                                                                        ApiError {
                                                                            code,
                                                                            message,
                                                                            details,
                                                                        },
                                                                    )
                                                                } else {
                                                                    None
                                                                }
                                                            },
                                                            None => None,
                                                        }
                                                    },
                                                    None => None,
                                                }
                                            },
                                            None => None,
                                        }
                                    },
                                    None => None,
                                }
                            },
                            None => None,
                        }
                    },
                    None => None,
                }
            },
            None => None,
        }
    }
}

} // verus!
