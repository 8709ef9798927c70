//! Proofs that the reading side inverts the writing side.
//!
//! The central result is `lemma_round_trip`: any envelope value, serialized
//! and deserialized, comes back unchanged, details order included. On the
//! way there, one inversion lemma per layer of the format shows that the
//! parse of a printed piece, embedded in any surrounding text, yields
//! exactly the printed value and stops exactly after it.

use vstd::prelude::*;

use crate::deserialize::at_lit;
use crate::deserialize::code_of_token;
use crate::deserialize::hex_val;
use crate::deserialize::parse_detail;
use crate::deserialize::parse_details;
use crate::deserialize::parse_details_rest;
use crate::deserialize::parse_fv;
use crate::deserialize::parse_fvs;
use crate::deserialize::parse_fvs_rest;
use crate::deserialize::parse_json;
use crate::deserialize::parse_metadata;
use crate::deserialize::parse_metadata_rest;
use crate::deserialize::parse_string;
use crate::deserialize::parse_string_rest;
use crate::deserialize::skip_balanced;
use crate::model::ApiErrorV;
use crate::model::DetailV;
use crate::model::ErrorCode;
use crate::model::FieldViolationV;
use crate::model::token_of;
use crate::serialize::escape;
use crate::serialize::escape_char;
use crate::serialize::hex_digit;
use crate::serialize::json_detail;
use crate::serialize::json_details;
use crate::serialize::json_details_rest;
use crate::serialize::json_fv;
use crate::serialize::json_fvs;
use crate::serialize::json_fvs_rest;
use crate::serialize::json_metadata;
use crate::serialize::json_metadata_rest;
use crate::serialize::json_of;
use crate::serialize::json_string;
use crate::serialize::tag_of;

verus! {

/// Reading a hex digit gives back the value it was written for.
proof fn lemma_hex_digit_val(d: int)
    requires
        0 <= d < 16,
    ensures
        hex_val(hex_digit(d)) == d,
{
}

/// Reading a string body inverts escaping: started just after the opening
/// quote of an escaped text followed by its closing quote, it decodes the
/// text, appends it to the characters already read, and stops just after
/// the quote — whatever surrounds it.
#[verifier::spinoff_prover]
#[verifier::rlimit(100)]
proof fn lemma_string_rest_inv(prefix: Seq<char>, t: Seq<char>, suffix: Seq<char>, acc: Seq<char>)
    ensures
        parse_string_rest(
            prefix + escape(t) + seq!['"'] + suffix,
            prefix.len() as int,
            acc,
        ) == Some((acc + t, prefix.len() + escape(t).len() + 1 as int)),
    decreases t.len(),
{
    let s = prefix + escape(t) + seq!['"'] + suffix;
    let i = prefix.len() as int;
    if t.len() == 0 {
        assert(escape(t) =~= Seq::<char>::empty());
        assert(s[i] == '"');
        assert(acc + t =~= acc);
    } else {
        let c = t[0];
        let t1 = t.drop_first();
        let ec = escape_char(c);
        assert(escape(t) == ec + escape(t1));
        let prefix2 = prefix + ec;
        let s2 = prefix2 + escape(t1) + seq!['"'] + suffix;
        assert(s2 =~= s);
        lemma_string_rest_inv(prefix2, t1, suffix, acc.push(c));
        assert(acc.push(c) + t1 =~= acc + t);
        if c == '"' {
            assert(s[i] == '\\' && s[i + 1] == '"');
            assert(parse_string_rest(s, i, acc) == parse_string_rest(s, i + 2, acc.push(c)));
        } else if c == '\\' {
            assert(s[i] == '\\' && s[i + 1] == '\\');
            assert(parse_string_rest(s, i, acc) == parse_string_rest(s, i + 2, acc.push(c)));
        } else if (c as u32) < 32 {
            let u = c as u32 as int;
            assert(s[i] == '\\' && s[i + 1] == 'u' && s[i + 2] == '0' && s[i + 3] == '0' && s[i + 4]
                == hex_digit(u / 16) && s[i + 5] == hex_digit(u % 16));
            lemma_hex_digit_val(u / 16);
            lemma_hex_digit_val(u % 16);
            assert(hex_val(s[i + 2]) == 0 && hex_val(s[i + 3]) == 0);
            let v = hex_val(s[i + 2]) * 4096 + hex_val(s[i + 3]) * 256 + hex_val(s[i + 4]) * 16
                + hex_val(s[i + 5]);
            assert(v == u);
            let cu: u32 = c as u32;
            assert(((v as u8) as char) as u32 == cu);
            vstd::utf8::char_u32_cast(c, cu);
            vstd::utf8::char_u32_cast((v as u8) as char, cu);
            assert((v as u8) as char == c);
            assert(parse_string_rest(s, i, acc) == parse_string_rest(s, i + 6, acc.push(c)));
        } else {
            assert(s[i] == c);
            assert(parse_string_rest(s, i, acc) == parse_string_rest(s, i + 1, acc.push(c)));
        }
    }
}

/// Reading a whole JSON string inverts writing one, whatever surrounds it.
proof fn lemma_string_inv(prefix: Seq<char>, t: Seq<char>, suffix: Seq<char>)
    ensures
        parse_string(prefix + json_string(t) + suffix, prefix.len() as int) == Some(
            (t, prefix.len() + json_string(t).len() as int),
        ),
{
    let s = prefix + json_string(t) + suffix;
    let i = prefix.len() as int;
    assert(s[i] == '"');
    let s2 = (prefix + seq!['"']) + escape(t) + seq!['"'] + suffix;
    assert(s2 =~= s);
    lemma_string_rest_inv(prefix + seq!['"'], t, suffix, Seq::empty());
    assert(Seq::<char>::empty() + t =~= t);
}

/// Every code's token is recognized as that code: the ten tokens are
/// pairwise distinct, so the closed-set lookup inverts the writing of the
/// token.
pub proof fn lemma_code_of_token(code: ErrorCode)
    ensures
        code_of_token(token_of(code)) == Some(code),
{
    broadcast use vstd::string::group_string_axioms;

    reveal(code_of_token);
    reveal_strlit("INVALID_ARGUMENT");
    reveal_strlit("FAILED_PRECONDITION");
    reveal_strlit("NOT_FOUND");
    reveal_strlit("ALREADY_EXISTS");
    reveal_strlit("UNAUTHENTICATED");
    reveal_strlit("PERMISSION_DENIED");
    reveal_strlit("TOO_MANY_REQUESTS");
    reveal_strlit("INTERNAL");
    reveal_strlit("UNKNOWN");
    reveal_strlit("UNAVAILABLE");
    assert("INVALID_ARGUMENT"@.len() == 16);
    assert("FAILED_PRECONDITION"@.len() == 19);
    assert("NOT_FOUND"@.len() == 9);
    assert("ALREADY_EXISTS"@.len() == 14);
    assert("UNAUTHENTICATED"@.len() == 15);
    assert("PERMISSION_DENIED"@.len() == 17);
    assert("TOO_MANY_REQUESTS"@.len() == 17);
    assert("INTERNAL"@.len() == 8);
    assert("UNKNOWN"@.len() == 7);
    assert("UNAVAILABLE"@.len() == 11);
    assert("PERMISSION_DENIED"@[0] == 'P');
    assert("TOO_MANY_REQUESTS"@[0] == 'T');
}

/// A literal stands at the position right after any prefix it follows.
proof fn lemma_at_lit(prefix: Seq<char>, lit: Seq<char>, rest: Seq<char>)
    ensures
        at_lit(prefix + (lit + rest), prefix.len() as int, lit),
{
    let s = prefix + (lit + rest);
    assert(s.subrange(prefix.len() as int, prefix.len() + lit.len() as int) =~= lit);
}

/// Reading metadata members inverts writing them, whatever surrounds them.
#[verifier::spinoff_prover]
#[verifier::rlimit(100)]
proof fn lemma_metadata_rest_inv(
    prefix: Seq<char>,
    m: Seq<(Seq<char>, Seq<char>)>,
    suffix: Seq<char>,
    acc: Seq<(Seq<char>, Seq<char>)>,
)
    ensures
        parse_metadata_rest(
            prefix + json_metadata_rest(m) + seq!['}'] + suffix,
            prefix.len() as int,
            acc,
        ) == Some((acc + m, prefix.len() + json_metadata_rest(m).len() + 1 as int)),
    decreases m.len(),
{
    broadcast use vstd::string::group_string_axioms;

    reveal_strlit(",");
    reveal_strlit(":");
    let s = prefix + json_metadata_rest(m) + seq!['}'] + suffix;
    let i = prefix.len() as int;
    if m.len() == 0 {
        assert(json_metadata_rest(m) =~= Seq::<char>::empty());
        assert(s[i] == '}');
        assert(acc + m =~= acc);
    } else {
        let k = m[0].0;
        let v = m[0].1;
        let m1 = m.drop_first();
        assert(","@ =~= seq![',']);
        assert(":"@ =~= seq![':']);
        let p1 = prefix + ","@;
        let rest1 = ":"@ + json_string(v) + json_metadata_rest(m1) + seq!['}'] + suffix;
        let s1 = p1 + json_string(k) + rest1;
        assert(s1 =~= s);
        assert(s[i] == ',' && s[i] != '}');
        lemma_string_inv(p1, k, rest1);
        let j = p1.len() + json_string(k).len() as int;
        assert(parse_string(s, i + 1) == Some((k, j)));
        let p2 = p1 + json_string(k) + ":"@;
        let rest2 = json_metadata_rest(m1) + seq!['}'] + suffix;
        let s2 = p2 + json_string(v) + rest2;
        assert(s2 =~= s);
        assert(s[j] == ':');
        lemma_string_inv(p2, v, rest2);
        let j2 = p2.len() + json_string(v).len() as int;
        assert(parse_string(s, j + 1) == Some((v, j2)));
        let p3 = p2 + json_string(v);
        lemma_metadata_rest_inv(p3, m1, suffix, acc.push((k, v)));
        let s3 = p3 + json_metadata_rest(m1) + seq!['}'] + suffix;
        assert(s3 =~= s);
        assert(acc.push((k, v)) + m1 =~= acc + m);
    }
}

/// Reading a metadata object inverts writing one, whatever surrounds it.
#[verifier::spinoff_prover]
#[verifier::rlimit(100)]
proof fn lemma_metadata_inv(prefix: Seq<char>, m: Seq<(Seq<char>, Seq<char>)>, suffix: Seq<char>)
    ensures
        parse_metadata(prefix + json_metadata(m) + suffix, prefix.len() as int) == Some(
            (m, prefix.len() + json_metadata(m).len() as int),
        ),
{
    broadcast use vstd::string::group_string_axioms;

    reveal_strlit("{}");
    reveal_strlit("{");
    reveal_strlit("}");
    reveal_strlit(":");
    let s = prefix + json_metadata(m) + suffix;
    let i = prefix.len() as int;
    if m.len() == 0 {
        assert("{}"@ =~= seq!['{', '}']);
        assert(s[i] == '{' && s[i + 1] == '}');
        assert(m =~= Seq::<(Seq<char>, Seq<char>)>::empty());
    } else {
        let k = m[0].0;
        let v = m[0].1;
        let m1 = m.drop_first();
        assert("{"@ =~= seq!['{']);
        assert("}"@ =~= seq!['}']);
        assert(":"@ =~= seq![':']);
        let p1 = prefix + "{"@;
        let rest1 = ":"@ + json_string(v) + json_metadata_rest(m1) + "}"@ + suffix;
        let s1 = p1 + json_string(k) + rest1;
        assert(s1 =~= s);
        assert(s[i] == '{');
        assert(s[i + 1] == '"' && s[i + 1] != '}');
        lemma_string_inv(p1, k, rest1);
        let j = p1.len() + json_string(k).len() as int;
        assert(parse_string(s, i + 1) == Some((k, j)));
        let p2 = p1 + json_string(k) + ":"@;
        let rest2 = json_metadata_rest(m1) + "}"@ + suffix;
        let s2 = p2 + json_string(v) + rest2;
        assert(s2 =~= s);
        assert(s[j] == ':');
        lemma_string_inv(p2, v, rest2);
        let j2 = p2.len() + json_string(v).len() as int;
        assert(parse_string(s, j + 1) == Some((v, j2)));
        let p3 = p2 + json_string(v);
        lemma_metadata_rest_inv(p3, m1, suffix, seq![(k, v)]);
        let s3 = p3 + json_metadata_rest(m1) + seq!['}'] + suffix;
        assert(s3 =~= s);
        assert(seq![(k, v)] + m1 =~= m);
    }
}

/// Reading one field violation inverts writing one, whatever surrounds it.
#[verifier::spinoff_prover]
#[verifier::rlimit(100)]
proof fn lemma_fv_inv(prefix: Seq<char>, fv: FieldViolationV, suffix: Seq<char>)
    ensures
        parse_fv(prefix + json_fv(fv) + suffix, prefix.len() as int) == Some(
            (fv, prefix.len() + json_fv(fv).len() as int),
        ),
{
    broadcast use vstd::string::group_string_axioms;

    reveal(parse_fv);
    reveal_strlit("}");
    let l1 = "{\"field\":"@;
    let l2 = ",\"description\":"@;
    let s = prefix + json_fv(fv) + suffix;
    let i = prefix.len() as int;
    assert("}"@ =~= seq!['}']);
    let rest1 = json_string(fv.field) + l2 + json_string(fv.description) + "}"@ + suffix;
    lemma_at_lit(prefix, l1, rest1);
    assert(prefix + (l1 + rest1) =~= s);
    assert(at_lit(s, i, l1));
    let p1 = prefix + l1;
    let rest2 = l2 + json_string(fv.description) + "}"@ + suffix;
    let s1 = p1 + json_string(fv.field) + rest2;
    assert(s1 =~= s);
    lemma_string_inv(p1, fv.field, rest2);
    let j = p1.len() + json_string(fv.field).len() as int;
    assert(parse_string(s, i + l1.len()) == Some((fv.field, j)));
    let rest3 = json_string(fv.description) + "}"@ + suffix;
    lemma_at_lit(p1 + json_string(fv.field), l2, rest3);
    assert((p1 + json_string(fv.field)) + (l2 + rest3) =~= s);
    assert(at_lit(s, j, l2));
    let p2 = p1 + json_string(fv.field) + l2;
    let rest4 = "}"@ + suffix;
    let s2 = p2 + json_string(fv.description) + rest4;
    assert(s2 =~= s);
    lemma_string_inv(p2, fv.description, rest4);
    let j2 = p2.len() + json_string(fv.description).len() as int;
    assert(parse_string(s, j + l2.len()) == Some((fv.description, j2)));
    assert(s[j2] == '}');
    assert(fv == (FieldViolationV { field: fv.field, description: fv.description }));
}

/// Reading field-violation elements inverts writing them.
#[verifier::spinoff_prover]
#[verifier::rlimit(100)]
proof fn lemma_fvs_rest_inv(
    prefix: Seq<char>,
    vs: Seq<FieldViolationV>,
    suffix: Seq<char>,
    acc: Seq<FieldViolationV>,
)
    ensures
        parse_fvs_rest(
            prefix + json_fvs_rest(vs) + seq![']'] + suffix,
            prefix.len() as int,
            acc,
        ) == Some((acc + vs, prefix.len() + json_fvs_rest(vs).len() + 1 as int)),
    decreases vs.len(),
{
    broadcast use vstd::string::group_string_axioms;

    reveal_strlit(",");
    let s = prefix + json_fvs_rest(vs) + seq![']'] + suffix;
    let i = prefix.len() as int;
    if vs.len() == 0 {
        assert(json_fvs_rest(vs) =~= Seq::<char>::empty());
        assert(s[i] == ']');
        assert(acc + vs =~= acc);
    } else {
        let fv = vs[0];
        let vs1 = vs.drop_first();
        assert(","@ =~= seq![',']);
        let p1 = prefix + ","@;
        let rest1 = json_fvs_rest(vs1) + seq![']'] + suffix;
        let s1 = p1 + json_fv(fv) + rest1;
        assert(s1 =~= s);
        assert(s[i] == ',' && s[i] != ']');
        lemma_fv_inv(p1, fv, rest1);
        let j = p1.len() + json_fv(fv).len() as int;
        assert(parse_fv(s, i + 1) == Some((fv, j)));
        let p2 = p1 + json_fv(fv);
        lemma_fvs_rest_inv(p2, vs1, suffix, acc.push(fv));
        let s2 = p2 + json_fvs_rest(vs1) + seq![']'] + suffix;
        assert(s2 =~= s);
        assert(acc.push(fv) + vs1 =~= acc + vs);
    }
}

/// Reading a field-violation array inverts writing one.
#[verifier::spinoff_prover]
#[verifier::rlimit(100)]
proof fn lemma_fvs_inv(prefix: Seq<char>, vs: Seq<FieldViolationV>, suffix: Seq<char>)
    ensures
        parse_fvs(prefix + json_fvs(vs) + suffix, prefix.len() as int) == Some(
            (vs, prefix.len() + json_fvs(vs).len() as int),
        ),
{
    broadcast use vstd::string::group_string_axioms;

    reveal_strlit("[]");
    reveal_strlit("[");
    reveal_strlit("]");
    let s = prefix + json_fvs(vs) + suffix;
    let i = prefix.len() as int;
    if vs.len() == 0 {
        assert("[]"@ =~= seq!['[', ']']);
        assert(s[i] == '[' && s[i + 1] == ']');
        assert(vs =~= Seq::<FieldViolationV>::empty());
    } else {
        let fv = vs[0];
        let vs1 = vs.drop_first();
        assert("["@ =~= seq!['[']);
        assert("]"@ =~= seq![']']);
        let p1 = prefix + "["@;
        let rest1 = json_fvs_rest(vs1) + "]"@ + suffix;
        let s1 = p1 + json_fv(fv) + rest1;
        assert(s1 =~= s);
        assert(s[i] == '[');
        assert(s[i + 1] == '{' && s[i + 1] != ']') by {
            reveal_strlit("{\"field\":");
            assert(json_fv(fv)[0] == '{');
        }
        lemma_fv_inv(p1, fv, rest1);
        let j = p1.len() + json_fv(fv).len() as int;
        assert(parse_fv(s, i + 1) == Some((fv, j)));
        let p2 = p1 + json_fv(fv);
        lemma_fvs_rest_inv(p2, vs1, suffix, seq![fv]);
        let s2 = p2 + json_fvs_rest(vs1) + seq![']'] + suffix;
        assert(s2 =~= s);
        assert(seq![fv] + vs1 =~= vs);
    }
}

/// Reading one details entry inverts writing one: the tag that was written
/// is recognized and reconstructs exactly the variant it was written for.
pub proof fn lemma_detail_inv(prefix: Seq<char>, d: DetailV, suffix: Seq<char>)
    ensures
        parse_detail(prefix + json_detail(d) + suffix, prefix.len() as int) == Some(
            (Some(d), prefix.len() + json_detail(d).len() as int),
        ),
{
    match d {
        DetailV::ErrorInfo { .. } => lemma_detail_inv_info(prefix, d, suffix),
        DetailV::BadRequest { .. } => lemma_detail_inv_bad_request(prefix, d, suffix),
        DetailV::LocalizedMessage { .. } => lemma_detail_inv_localized(prefix, d, suffix),
    }
}

/// Where each piece of a serialized `ErrorInfo` entry stands and what the
/// reader finds there.
#[verifier::spinoff_prover]
#[verifier::rlimit(100)]
proof fn lemma_detail_info_facts(
    prefix: Seq<char>,
    reason: Seq<char>,
    metadata: Seq<(Seq<char>, Seq<char>)>,
    suffix: Seq<char>,
)
    ensures
        ({
            let d = DetailV::ErrorInfo { reason, metadata };
            let s = prefix + json_detail(d) + suffix;
            let i = prefix.len() as int;
            let l0 = "{\"@type\":"@;
            let l1 = ",\"reason\":"@;
            let l2 = ",\"metadata\":"@;
            let j1 = i + l0.len() + json_string("ErrorInfo"@).len();
            let j2 = j1 + l1.len() + json_string(reason).len();
            let j3 = j2 + l2.len() + json_metadata(metadata).len();
            &&& at_lit(s, i, l0)
            &&& parse_string(s, i + l0.len()) == Some(("ErrorInfo"@, j1))
            &&& at_lit(s, j1, l1)
            &&& parse_string(s, j1 + l1.len()) == Some((reason, j2))
            &&& at_lit(s, j2, l2)
            &&& parse_metadata(s, j2 + l2.len()) == Some((metadata, j3))
            &&& j3 < s.len() && s[j3] == '}'
            &&& j3 + 1 == i + json_detail(d).len()
        }),
{
    broadcast use vstd::string::group_string_axioms;

    reveal_strlit("}");
    assert("}"@ =~= seq!['}']);
    let d = DetailV::ErrorInfo { reason, metadata };
    let l0 = "{\"@type\":"@;
    let l1 = ",\"reason\":"@;
    let l2 = ",\"metadata\":"@;
    let s = prefix + json_detail(d) + suffix;
    let i = prefix.len() as int;
    assert(json_detail(d) == l0 + json_string("ErrorInfo"@) + (l1 + json_string(reason) + l2
        + json_metadata(metadata)) + "}"@);
    lemma_at_lit(prefix, l0, json_string("ErrorInfo"@) + l1 + json_string(reason) + l2
        + json_metadata(metadata) + "}"@ + suffix);
    assert(prefix + (l0 + (json_string("ErrorInfo"@) + l1 + json_string(reason) + l2
        + json_metadata(metadata) + "}"@ + suffix)) =~= s);
    let p1 = prefix + l0;
    let rest1 = l1 + json_string(reason) + l2 + json_metadata(metadata) + "}"@ + suffix;
    assert(p1 + json_string("ErrorInfo"@) + rest1 =~= s);
    lemma_string_inv(p1, "ErrorInfo"@, rest1);
    lemma_detail_info_facts_reason(prefix, reason, metadata, suffix);
    lemma_detail_info_facts_metadata(prefix, reason, metadata, suffix);
}

/// The reason step of `lemma_detail_info_facts`.
#[verifier::spinoff_prover]
#[verifier::rlimit(100)]
proof fn lemma_detail_info_facts_reason(
    prefix: Seq<char>,
    reason: Seq<char>,
    metadata: Seq<(Seq<char>, Seq<char>)>,
    suffix: Seq<char>,
)
    ensures
        ({
            let d = DetailV::ErrorInfo { reason, metadata };
            let s = prefix + json_detail(d) + suffix;
            let i = prefix.len() as int;
            let l0 = "{\"@type\":"@;
            let l1 = ",\"reason\":"@;
            let j1 = i + l0.len() + json_string("ErrorInfo"@).len();
            let j2 = j1 + l1.len() + json_string(reason).len();
            &&& at_lit(s, j1, l1)
            &&& parse_string(s, j1 + l1.len()) == Some((reason, j2))
        }),
{
    broadcast use vstd::string::group_string_axioms;

    reveal_strlit("}");
    assert("}"@ =~= seq!['}']);
    let d = DetailV::ErrorInfo { reason, metadata };
    let l0 = "{\"@type\":"@;
    let l1 = ",\"reason\":"@;
    let l2 = ",\"metadata\":"@;
    let s = prefix + json_detail(d) + suffix;
    assert(json_detail(d) == l0 + json_string("ErrorInfo"@) + (l1 + json_string(reason) + l2
        + json_metadata(metadata)) + "}"@);
    let p2 = prefix + l0 + json_string("ErrorInfo"@);
    lemma_at_lit(p2, l1, json_string(reason) + l2 + json_metadata(metadata) + "}"@ + suffix);
    assert(p2 + (l1 + (json_string(reason) + l2 + json_metadata(metadata) + "}"@ + suffix)) =~= s);
    let p3 = p2 + l1;
    let rest3 = l2 + json_metadata(metadata) + "}"@ + suffix;
    assert(p3 + json_string(reason) + rest3 =~= s);
    lemma_string_inv(p3, reason, rest3);
}

/// The metadata step of `lemma_detail_info_facts`.
#[verifier::spinoff_prover]
#[verifier::rlimit(100)]
proof fn lemma_detail_info_facts_metadata(
    prefix: Seq<char>,
    reason: Seq<char>,
    metadata: Seq<(Seq<char>, Seq<char>)>,
    suffix: Seq<char>,
)
    ensures
        ({
            let d = DetailV::ErrorInfo { reason, metadata };
            let s = prefix + json_detail(d) + suffix;
            let i = prefix.len() as int;
            let l0 = "{\"@type\":"@;
            let l1 = ",\"reason\":"@;
            let l2 = ",\"metadata\":"@;
            let j2 = i + l0.len() + json_string("ErrorInfo"@).len() + l1.len() + json_string(
                reason,
            ).len();
            let j3 = j2 + l2.len() + json_metadata(metadata).len();
            &&& at_lit(s, j2, l2)
            &&& parse_metadata(s, j2 + l2.len()) == Some((metadata, j3))
            &&& j3 < s.len() && s[j3] == '}'
            &&& j3 + 1 == i + json_detail(d).len()
        }),
{
    broadcast use vstd::string::group_string_axioms;

    reveal_strlit("}");
    assert("}"@ =~= seq!['}']);
    let d = DetailV::ErrorInfo { reason, metadata };
    let l0 = "{\"@type\":"@;
    let l1 = ",\"reason\":"@;
    let l2 = ",\"metadata\":"@;
    let s = prefix + json_detail(d) + suffix;
    assert(json_detail(d) == l0 + json_string("ErrorInfo"@) + (l1 + json_string(reason) + l2
        + json_metadata(metadata)) + "}"@);
    let p4 = prefix + l0 + json_string("ErrorInfo"@) + l1 + json_string(reason);
    lemma_at_lit(p4, l2, json_metadata(metadata) + "}"@ + suffix);
    assert(p4 + (l2 + (json_metadata(metadata) + "}"@ + suffix)) =~= s);
    let p5 = p4 + l2;
    let rest5 = "}"@ + suffix;
    assert(p5 + json_metadata(metadata) + rest5 =~= s);
    lemma_metadata_inv(p5, metadata, rest5);
    let j3 = p5.len() + json_metadata(metadata).len() as int;
    assert(s[j3] == '}');
}

/// The `ErrorInfo` case of `lemma_detail_inv`.
#[verifier::spinoff_prover]
#[verifier::rlimit(100)]
proof fn lemma_detail_inv_info(prefix: Seq<char>, d: DetailV, suffix: Seq<char>)
    requires
        d is ErrorInfo,
    ensures
        parse_detail(prefix + json_detail(d) + suffix, prefix.len() as int) == Some(
            (Some(d), prefix.len() + json_detail(d).len() as int),
        ),
{
    reveal(parse_detail);
    match d {
        DetailV::ErrorInfo { reason, metadata } => {
            lemma_detail_info_facts(prefix, reason, metadata, suffix);
            assert(d == (DetailV::ErrorInfo { reason, metadata }));
        },
        _ => (),
    }
}

/// Where each piece of a serialized `BadRequest` entry stands and what the
/// reader finds there.
#[verifier::spinoff_prover]
#[verifier::rlimit(100)]
proof fn lemma_detail_bad_request_facts(
    prefix: Seq<char>,
    field_violations: Seq<FieldViolationV>,
    suffix: Seq<char>,
)
    ensures
        ({
            let d = DetailV::BadRequest { field_violations };
            let s = prefix + json_detail(d) + suffix;
            let i = prefix.len() as int;
            let l0 = "{\"@type\":"@;
            let l1 = ",\"field_violations\":"@;
            let j1 = i + l0.len() + json_string("BadRequest"@).len();
            let j2 = j1 + l1.len() + json_fvs(field_violations).len();
            &&& at_lit(s, i, l0)
            &&& parse_string(s, i + l0.len()) == Some(("BadRequest"@, j1))
            &&& at_lit(s, j1, l1)
            &&& parse_fvs(s, j1 + l1.len()) == Some((field_violations, j2))
            &&& j2 < s.len() && s[j2] == '}'
            &&& j2 + 1 == i + json_detail(d).len()
        }),
{
    broadcast use vstd::string::group_string_axioms;

    reveal_strlit("}");
    assert("}"@ =~= seq!['}']);
    let d = DetailV::BadRequest { field_violations };
    let l0 = "{\"@type\":"@;
    let l1 = ",\"field_violations\":"@;
    let s = prefix + json_detail(d) + suffix;
    let i = prefix.len() as int;
    assert(json_detail(d) == l0 + json_string("BadRequest"@) + (l1 + json_fvs(field_violations))
        + "}"@);
    lemma_at_lit(prefix, l0, json_string("BadRequest"@) + l1 + json_fvs(field_violations) + "}"@
        + suffix);
    assert(prefix + (l0 + (json_string("BadRequest"@) + l1 + json_fvs(field_violations) + "}"@
        + suffix)) =~= s);
    let p1 = prefix + l0;
    let rest1 = l1 + json_fvs(field_violations) + "}"@ + suffix;
    assert(p1 + json_string("BadRequest"@) + rest1 =~= s);
    lemma_string_inv(p1, "BadRequest"@, rest1);
    let p2 = p1 + json_string("BadRequest"@);
    lemma_at_lit(p2, l1, json_fvs(field_violations) + "}"@ + suffix);
    assert(p2 + (l1 + (json_fvs(field_violations) + "}"@ + suffix)) =~= s);
    let p3 = p2 + l1;
    let rest3 = "}"@ + suffix;
    assert(p3 + json_fvs(field_violations) + rest3 =~= s);
    lemma_fvs_inv(p3, field_violations, rest3);
    let j2 = p3.len() + json_fvs(field_violations).len() as int;
    assert(s[j2] == '}');
}

/// The `BadRequest` case of `lemma_detail_inv`.
#[verifier::spinoff_prover]
#[verifier::rlimit(100)]
proof fn lemma_detail_inv_bad_request(prefix: Seq<char>, d: DetailV, suffix: Seq<char>)
    requires
        d is BadRequest,
    ensures
        parse_detail(prefix + json_detail(d) + suffix, prefix.len() as int) == Some(
            (Some(d), prefix.len() + json_detail(d).len() as int),
        ),
{
    reveal(parse_detail);
    broadcast use vstd::string::group_string_axioms;

    reveal_strlit("ErrorInfo");
    reveal_strlit("BadRequest");
    assert("ErrorInfo"@.len() == 9);
    assert("BadRequest"@.len() == 10);
    assert("BadRequest"@ != "ErrorInfo"@);
    match d {
        DetailV::BadRequest { field_violations } => {
            lemma_detail_bad_request_facts(prefix, field_violations, suffix);
            assert(d == (DetailV::BadRequest { field_violations }));
        },
        _ => (),
    }
}

/// Where each piece of a serialized `LocalizedMessage` entry stands and what
/// the reader finds there.
#[verifier::spinoff_prover]
#[verifier::rlimit(100)]
proof fn lemma_detail_localized_facts(
    prefix: Seq<char>,
    locale: Seq<char>,
    message: Seq<char>,
    suffix: Seq<char>,
)
    ensures
        ({
            let d = DetailV::LocalizedMessage { locale, message };
            let s = prefix + json_detail(d) + suffix;
            let i = prefix.len() as int;
            let l0 = "{\"@type\":"@;
            let l1 = ",\"locale\":"@;
            let l2 = ",\"message\":"@;
            let j1 = i + l0.len() + json_string("LocalizedMessage"@).len();
            let j2 = j1 + l1.len() + json_string(locale).len();
            let j3 = j2 + l2.len() + json_string(message).len();
            &&& at_lit(s, i, l0)
            &&& parse_string(s, i + l0.len()) == Some(("LocalizedMessage"@, j1))
            &&& at_lit(s, j1, l1)
            &&& parse_string(s, j1 + l1.len()) == Some((locale, j2))
            &&& at_lit(s, j2, l2)
            &&& parse_string(s, j2 + l2.len()) == Some((message, j3))
            &&& j3 < s.len() && s[j3] == '}'
            &&& j3 + 1 == i + json_detail(d).len()
        }),
{
    broadcast use vstd::string::group_string_axioms;

    reveal_strlit("}");
    assert("}"@ =~= seq!['}']);
    let d = DetailV::LocalizedMessage { locale, message };
    let l0 = "{\"@type\":"@;
    let l1 = ",\"locale\":"@;
    let l2 = ",\"message\":"@;
    let s = prefix + json_detail(d) + suffix;
    let i = prefix.len() as int;
    assert(json_detail(d) == l0 + json_string("LocalizedMessage"@) + (l1 + json_string(locale)
        + l2 + json_string(message)) + "}"@);
    lemma_at_lit(prefix, l0, json_string("LocalizedMessage"@) + l1 + json_string(locale) + l2
        + json_string(message) + "}"@ + suffix);
    assert(prefix + (l0 + (json_string("LocalizedMessage"@) + l1 + json_string(locale) + l2
        + json_string(message) + "}"@ + suffix)) =~= s);
    let p1 = prefix + l0;
    let rest1 = l1 + json_string(locale) + l2 + json_string(message) + "}"@ + suffix;
    assert(p1 + json_string("LocalizedMessage"@) + rest1 =~= s);
    lemma_string_inv(p1, "LocalizedMessage"@, rest1);
    let p2 = p1 + json_string("LocalizedMessage"@);
    lemma_at_lit(p2, l1, json_string(locale) + l2 + json_string(message) + "}"@ + suffix);
    assert(p2 + (l1 + (json_string(locale) + l2 + json_string(message) + "}"@ + suffix)) =~= s);
    let p3 = p2 + l1;
    let rest3 = l2 + json_string(message) + "}"@ + suffix;
    assert(p3 + json_string(locale) + rest3 =~= s);
    lemma_string_inv(p3, locale, rest3);
    let p4 = p3 + json_string(locale);
    lemma_at_lit(p4, l2, json_string(message) + "}"@ + suffix);
    assert(p4 + (l2 + (json_string(message) + "}"@ + suffix)) =~= s);
    let p5 = p4 + l2;
    let rest5 = "}"@ + suffix;
    assert(p5 + json_string(message) + rest5 =~= s);
    lemma_string_inv(p5, message, rest5);
    let j3 = p5.len() + json_string(message).len() as int;
    assert(s[j3] == '}');
}

/// The `LocalizedMessage` case of `lemma_detail_inv`.
#[verifier::spinoff_prover]
#[verifier::rlimit(100)]
proof fn lemma_detail_inv_localized(prefix: Seq<char>, d: DetailV, suffix: Seq<char>)
    requires
        d is LocalizedMessage,
    ensures
        parse_detail(prefix + json_detail(d) + suffix, prefix.len() as int) == Some(
            (Some(d), prefix.len() + json_detail(d).len() as int),
        ),
{
    reveal(parse_detail);
    broadcast use vstd::string::group_string_axioms;

    reveal_strlit("ErrorInfo");
    reveal_strlit("BadRequest");
    reveal_strlit("LocalizedMessage");
    assert("ErrorInfo"@.len() == 9);
    assert("BadRequest"@.len() == 10);
    assert("LocalizedMessage"@.len() == 16);
    assert("LocalizedMessage"@ != "ErrorInfo"@);
    assert("LocalizedMessage"@ != "BadRequest"@);
    match d {
        DetailV::LocalizedMessage { locale, message } => {
            lemma_detail_localized_facts(prefix, locale, message, suffix);
            assert(d == (DetailV::LocalizedMessage { locale, message }));
        },
        _ => (),
    }
}

/// Reading details entries inverts writing them.
#[verifier::spinoff_prover]
#[verifier::rlimit(100)]
proof fn lemma_details_rest_inv(
    prefix: Seq<char>,
    ds: Seq<DetailV>,
    suffix: Seq<char>,
    acc: Seq<DetailV>,
)
    ensures
        parse_details_rest(
            prefix + json_details_rest(ds) + seq![']'] + suffix,
            prefix.len() as int,
            acc,
        ) == Some((acc + ds, prefix.len() + json_details_rest(ds).len() + 1 as int)),
    decreases ds.len(),
{
    broadcast use vstd::string::group_string_axioms;

    reveal_strlit(",");
    let s = prefix + json_details_rest(ds) + seq![']'] + suffix;
    let i = prefix.len() as int;
    if ds.len() == 0 {
        assert(json_details_rest(ds) =~= Seq::<char>::empty());
        assert(s[i] == ']');
        assert(acc + ds =~= acc);
    } else {
        let d = ds[0];
        let ds1 = ds.drop_first();
        assert(","@ =~= seq![',']);
        let p1 = prefix + ","@;
        let rest1 = json_details_rest(ds1) + seq![']'] + suffix;
        let s1 = p1 + json_detail(d) + rest1;
        assert(s1 =~= s);
        assert(s[i] == ',' && s[i] != ']');
        lemma_detail_inv(p1, d, rest1);
        let j = p1.len() + json_detail(d).len() as int;
        assert(parse_detail(s, i + 1) == Some((Some(d), j)));
        let p2 = p1 + json_detail(d);
        lemma_details_rest_inv(p2, ds1, suffix, acc.push(d));
        let s2 = p2 + json_details_rest(ds1) + seq![']'] + suffix;
        assert(s2 =~= s);
        assert(acc.push(d) + ds1 =~= acc + ds);
    }
}

/// Reading a details array inverts writing one: every entry written is kept,
/// in order.
#[verifier::spinoff_prover]
#[verifier::rlimit(100)]
proof fn lemma_details_inv(prefix: Seq<char>, ds: Seq<DetailV>, suffix: Seq<char>)
    ensures
        parse_details(prefix + json_details(ds) + suffix, prefix.len() as int) == Some(
            (ds, prefix.len() + json_details(ds).len() as int),
        ),
{
    broadcast use vstd::string::group_string_axioms;

    reveal_strlit("[]");
    reveal_strlit("[");
    reveal_strlit("]");
    let s = prefix + json_details(ds) + suffix;
    let i = prefix.len() as int;
    if ds.len() == 0 {
        assert("[]"@ =~= seq!['[', ']']);
        assert(s[i] == '[' && s[i + 1] == ']');
        assert(ds =~= Seq::<DetailV>::empty());
    } else {
        let d = ds[0];
        let ds1 = ds.drop_first();
        assert("["@ =~= seq!['[']);
        assert("]"@ =~= seq![']']);
        let p1 = prefix + "["@;
        let rest1 = json_details_rest(ds1) + "]"@ + suffix;
        let s1 = p1 + json_detail(d) + rest1;
        assert(s1 =~= s);
        assert(s[i] == '[');
        assert(s[i + 1] == '{' && s[i + 1] != ']') by {
            reveal_strlit("{\"@type\":");
            assert(json_detail(d)[0] == '{');
        }
        lemma_detail_inv(p1, d, rest1);
        let j = p1.len() + json_detail(d).len() as int;
        assert(parse_detail(s, i + 1) == Some((Some(d), j)));
        let p2 = p1 + json_detail(d);
        lemma_details_rest_inv(p2, ds1, suffix, seq![d]);
        let s2 = p2 + json_details_rest(ds1) + seq![']'] + suffix;
        assert(s2 =~= s);
        assert(seq![d] + ds1 =~= ds);
    }
}

/// Round trip: any envelope value, serialized and deserialized, comes back
/// unchanged — any code, any message (empty and non-ASCII included), any
/// mix of detail entries, order preserved.
#[verifier::spinoff_prover]
#[verifier::rlimit(100)]
pub proof fn lemma_round_trip(e: ApiErrorV)
    ensures
        parse_json(json_of(e)) == Some(e),
{
    broadcast use vstd::string::group_string_axioms;

    reveal_strlit("}");
    assert("}"@ =~= seq!['}']);
    let l0 = "{\"code\":"@;
    let l1 = ",\"message\":"@;
    let l2 = ",\"details\":"@;
    let s = json_of(e);
    let tok = token_of(e.code);
    let body = l1 + json_string(e.message) + l2 + json_details(e.details) + "}"@;
    assert(json_of(e) == l0 + json_string(tok) + (l1 + json_string(e.message) + l2 + json_details(
        e.details,
    )) + "}"@);
    lemma_at_lit(Seq::empty(), l0, json_string(tok) + body);
    assert(Seq::<char>::empty() + (l0 + (json_string(tok) + body)) =~= s);
    assert(at_lit(s, 0, l0));
    assert(Seq::<char>::empty().len() == 0);
    let s1 = l0 + json_string(tok) + body;
    assert(s1 =~= s);
    lemma_string_inv(l0, tok, body);
    let j = l0.len() + json_string(tok).len() as int;
    assert(parse_string(s, l0.len() as int) == Some((tok, j)));
    lemma_code_of_token(e.code);
    let p2 = l0 + json_string(tok);
    lemma_at_lit(p2, l1, json_string(e.message) + l2 + json_details(e.details) + "}"@);
    assert(p2 + (l1 + (json_string(e.message) + l2 + json_details(e.details) + "}"@)) =~= s);
    assert(at_lit(s, j, l1));
    let p3 = p2 + l1;
    let rest3 = l2 + json_details(e.details) + "}"@;
    assert(p3 + json_string(e.message) + rest3 =~= s);
    lemma_string_inv(p3, e.message, rest3);
    let j2 = p3.len() + json_string(e.message).len() as int;
    assert(parse_string(s, j + l1.len()) == Some((e.message, j2)));
    let p4 = p3 + json_string(e.message);
    lemma_at_lit(p4, l2, json_details(e.details) + "}"@);
    assert(p4 + (l2 + (json_details(e.details) + "}"@)) =~= s);
    assert(at_lit(s, j2, l2));
    let p5 = p4 + l2;
    let rest5 = "}"@;
    assert(p5 + json_details(e.details) + rest5 =~= s);
    lemma_details_inv(p5, e.details, rest5);
    let j3 = p5.len() + json_details(e.details).len() as int;
    assert(parse_details(s, j2 + l2.len()) == Some((e.details, j3)));
    assert(s[j3] == '}');
    assert(j3 + 1 == s.len());
    assert(e == (ApiErrorV { code: e.code, message: e.message, details: e.details }));
}


/// Escaping changes nothing in a text with no quote, no backslash and no
/// control character.
proof fn lemma_escape_plain(t: Seq<char>)
    requires
        forall|k: int| 0 <= k < t.len() ==> t[k] != '"' && t[k] != '\\' && (t[k] as u32) >= 32,
    ensures
        escape(t) == t,
    decreases t.len(),
{
    if t.len() == 0 {
        assert(escape(t) =~= t);
    } else {
        assert(escape_char(t[0]) == seq![t[0]]);
        assert(forall|k: int|
            0 <= k < t.drop_first().len() ==> t.drop_first()[k] != '"' && t.drop_first()[k]
                != '\\' && (t.drop_first()[k] as u32) >= 32);
        lemma_escape_plain(t.drop_first());
        assert(seq![t[0]] + t.drop_first() =~= t);
    }
}

/// Tag fidelity, writing side: a serialized detail entry always carries the
/// tag of its own variant, spelled out verbatim right after the opening
/// `{"@type":"` — `ErrorInfo` entries the `ErrorInfo` tag, and so on, per
/// the definition of `tag_of`.
pub proof fn lemma_tag_fidelity(d: DetailV)
    ensures
        at_lit(json_detail(d), "{\"@type\":"@.len() + 1 as int, tag_of(d)),
        tag_of(d) == (match d {
            DetailV::ErrorInfo { .. } => "ErrorInfo"@,
            DetailV::BadRequest { .. } => "BadRequest"@,
            DetailV::LocalizedMessage { .. } => "LocalizedMessage"@,
        }),
{
    broadcast use vstd::string::group_string_axioms;

    reveal_strlit("ErrorInfo");
    reveal_strlit("BadRequest");
    reveal_strlit("LocalizedMessage");
    let tag = tag_of(d);
    assert(forall|k: int| 0 <= k < tag.len() ==> tag[k] != '"' && tag[k] != '\\' && (tag[k]
        as u32) >= 32) by {
        match d {
            DetailV::ErrorInfo { .. } => {
                assert("ErrorInfo"@.len() == 9);
            },
            DetailV::BadRequest { .. } => {
                assert("BadRequest"@.len() == 10);
            },
            DetailV::LocalizedMessage { .. } => {
                assert("LocalizedMessage"@.len() == 16);
            },
        }
    }
    lemma_escape_plain(tag);
    let l0 = "{\"@type\":"@;
    let body = match d {
        DetailV::ErrorInfo { reason, metadata } => {
            ",\"reason\":"@ + json_string(reason) + ",\"metadata\":"@ + json_metadata(metadata)
        },
        DetailV::BadRequest { field_violations } => {
            ",\"field_violations\":"@ + json_fvs(field_violations)
        },
        DetailV::LocalizedMessage { locale, message } => {
            ",\"locale\":"@ + json_string(locale) + ",\"message\":"@ + json_string(message)
        },
    };
    assert(json_detail(d) == l0 + json_string(tag) + body + "}"@);
    lemma_at_lit(l0 + seq!['"'], tag, seq!['"'] + body + "}"@);
    assert((l0 + seq!['"']) + (tag + (seq!['"'] + body + "}"@)) =~= json_detail(d));
    assert((l0 + seq!['"']).len() == l0.len() + 1);
}

/// Skipping is local: what the skipper does on a piece of text it does
/// wherever that piece stands.
proof fn lemma_skip_frame(
    prefix: Seq<char>,
    body: Seq<char>,
    suffix: Seq<char>,
    i: int,
    depth: int,
    in_str: bool,
    j: int,
)
    requires
        0 <= i,
        skip_balanced(body, i, depth, in_str) == Some(j),
    ensures
        skip_balanced(prefix + body + suffix, prefix.len() + i, depth, in_str) == Some(
            prefix.len() + j,
        ),
    decreases body.len() - i,
{
    let s = prefix + body + suffix;
    let p = prefix.len() as int;
    assert(i < body.len());
    assert(s[p + i] == body[i]);
    if in_str {
        if body[i] == '\\' {
            assert(i + 1 < body.len());
            assert(s[p + i + 1] == body[i + 1]);
            lemma_skip_frame(prefix, body, suffix, i + 2, depth, true, j);
        } else if body[i] == '"' {
            lemma_skip_frame(prefix, body, suffix, i + 1, depth, false, j);
        } else {
            lemma_skip_frame(prefix, body, suffix, i + 1, depth, true, j);
        }
    } else if body[i] == '{' || body[i] == '[' {
        lemma_skip_frame(prefix, body, suffix, i + 1, depth + 1, false, j);
    } else if body[i] == '}' {
        if depth != 1 {
            lemma_skip_frame(prefix, body, suffix, i + 1, depth - 1, false, j);
        }
    } else if body[i] == ']' {
        if depth != 1 {
            lemma_skip_frame(prefix, body, suffix, i + 1, depth - 1, false, j);
        }
    } else if body[i] == '"' {
        lemma_skip_frame(prefix, body, suffix, i + 1, depth, true, j);
    } else {
        lemma_skip_frame(prefix, body, suffix, i + 1, depth, false, j);
    }
}

/// Where each piece of the two-entry details array of
/// `lemma_forward_compat` stands and what the reader finds there.
#[verifier::spinoff_prover]
#[verifier::rlimit(100)]
proof fn lemma_forward_compat_facts(d: DetailV, tag: Seq<char>, rest: Seq<char>)
    requires
        skip_balanced(rest, 0, 1, false) == Some(rest.len() as int),
    ensures
        ({
            let l0 = "{\"@type\":"@;
            let s = "["@ + json_detail(d) + ","@ + l0 + json_string(tag) + rest + "]"@;
            let j1 = 1 + json_detail(d).len() as int;
            let j2 = j1 + 1 + l0.len() + json_string(tag).len();
            let j3 = j2 + rest.len() as int;
            &&& s.len() == j3 + 1
            &&& s[0] == '[' && s[1] != ']'
            &&& parse_detail(s, 1) == Some((Some(d), j1))
            &&& s[j1] == ',' && s[j1] != ']'
            &&& at_lit(s, j1 + 1, l0)
            &&& parse_string(s, j1 + 1 + l0.len()) == Some((tag, j2))
            &&& skip_balanced(s, j2, 1, false) == Some(j3)
            &&& s[j3] == ']'
        }),
{
    broadcast use vstd::string::group_string_axioms;

    reveal_strlit("[");
    reveal_strlit("]");
    reveal_strlit(",");
    reveal_strlit("{\"@type\":");
    assert("["@ =~= seq!['[']);
    assert("]"@ =~= seq![']']);
    assert(","@ =~= seq![',']);
    let l0 = "{\"@type\":"@;
    assert(l0.len() == 9);
    let s = "["@ + json_detail(d) + ","@ + l0 + json_string(tag) + rest + "]"@;
    let suffix1 = ","@ + l0 + json_string(tag) + rest + "]"@;
    assert("["@ + json_detail(d) + suffix1 =~= s);
    lemma_detail_inv("["@, d, suffix1);
    let j1 = 1 + json_detail(d).len() as int;
    assert(parse_detail(s, 1) == Some((Some(d), j1)));
    assert(s[1] == '{') by {
        assert(json_detail(d) == l0 + json_string(tag_of(d)) + (match d {
            DetailV::ErrorInfo { reason, metadata } => {
                ",\"reason\":"@ + json_string(reason) + ",\"metadata\":"@ + json_metadata(metadata)
            },
            DetailV::BadRequest { field_violations } => {
                ",\"field_violations\":"@ + json_fvs(field_violations)
            },
            DetailV::LocalizedMessage { locale, message } => {
                ",\"locale\":"@ + json_string(locale) + ",\"message\":"@ + json_string(message)
            },
        }) + "}"@);
        assert(json_detail(d)[0] == l0[0]);
    }
    assert(s[j1] == ',');
    let p2 = "["@ + json_detail(d) + ","@;
    lemma_at_lit(p2, l0, json_string(tag) + rest + "]"@);
    assert(p2 + (l0 + (json_string(tag) + rest + "]"@)) =~= s);
    assert(at_lit(s, j1 + 1, l0));
    let p3 = p2 + l0;
    assert(p3 + json_string(tag) + (rest + "]"@) =~= s);
    lemma_string_inv(p3, tag, rest + "]"@);
    let j2 = p3.len() + json_string(tag).len() as int;
    assert(parse_string(s, j1 + 1 + l0.len()) == Some((tag, j2)));
    let p4 = p3 + json_string(tag);
    lemma_skip_frame(p4, rest, "]"@, 0, 1, false, rest.len() as int);
    assert(p4 + rest + "]"@ =~= s);
    let j3 = j2 + rest.len() as int;
    assert(skip_balanced(s, j2, 1, false) == Some(j3));
    assert(s[j3] == ']');
}

/// Forward compatibility: a details array holding one recognized entry and
/// one entry whose tag is none of the known three still deserializes; the
/// recognized entry is kept and the unknown one is skipped up to the brace
/// that closes it and dropped. `rest` is the unknown entry's text after its
/// tag string, anything the skipper consumes exactly.
#[verifier::spinoff_prover]
#[verifier::rlimit(100)]
pub proof fn lemma_forward_compat(d: DetailV, tag: Seq<char>, rest: Seq<char>)
    requires
        tag != "ErrorInfo"@,
        tag != "BadRequest"@,
        tag != "LocalizedMessage"@,
        skip_balanced(rest, 0, 1, false) == Some(rest.len() as int),
    ensures
        ({
            let s = "["@ + json_detail(d) + ","@ + "{\"@type\":"@ + json_string(tag) + rest
                + "]"@;
            parse_details(s, 0) == Some((seq![d], s.len() as int))
        }),
{
    reveal(parse_detail);
    lemma_forward_compat_facts(d, tag, rest);
    let l0 = "{\"@type\":"@;
    let s = "["@ + json_detail(d) + ","@ + l0 + json_string(tag) + rest + "]"@;
    let j1 = 1 + json_detail(d).len() as int;
    let j2 = j1 + 1 + l0.len() + json_string(tag).len();
    let j3 = j2 + rest.len() as int;
    assert(parse_detail(s, j1 + 1) == Some((None::<DetailV>, j3)));
    assert(parse_details_rest(s, j3, seq![d]) == Some((seq![d], j3 + 1)));
    assert(parse_details_rest(s, j1, seq![d]) == Some((seq![d], j3 + 1)));
    assert(parse_details(s, 0) == Some((seq![d], j3 + 1)));
}

} // verus!
