//! The wire format, writing side.
//!
//! The spec functions here define the JSON text of an error envelope as a
//! mathematical function of its value; the executable functions produce
//! exactly that text. The format is compact (no whitespace), fields appear
//! in the fixed order shown in the spec functions, and every text value is
//! written as a JSON string in which `"` and `\` are escaped with a
//! backslash and control characters are written as `\u00XX` with lowercase
//! hex digits; all other characters are written verbatim.

use vstd::prelude::*;

use crate::model::ApiError;
use crate::model::ApiErrorV;
use crate::model::DetailV;
use crate::model::ErrorDetails;
use crate::model::FieldViolation;
use crate::model::FieldViolationV;
use crate::model::details_view;
use crate::model::fvs_view;
use crate::model::metadata_view;
use crate::model::token_of;

verus! {

/// The lowercase hex digit with value `d`.
pub open spec fn hex_digit(d: int) -> char {
    if d < 10 {
        ((48 + d) as u8) as char
    } else {
        ((87 + d) as u8) as char
    }
}

/// How one character appears inside a JSON string.
pub open spec fn escape_char(c: char) -> Seq<char> {
    if c == '"' {
        seq!['\\', '"']
    } else if c == '\\' {
        seq!['\\', '\\']
    } else if (c as u32) < 32 {
        seq!['\\', 'u', '0', '0', hex_digit(c as u32 as int / 16), hex_digit(c as u32 as int % 16)]
    } else {
        seq![c]
    }
}

/// How a text appears inside a JSON string: each character escaped.
pub open spec fn escape(s: Seq<char>) -> Seq<char>
    decreases s.len(),
{
    if s.len() == 0 {
        Seq::empty()
    } else {
        escape_char(s[0]) + escape(s.drop_first())
    }
}

/// A JSON string literal holding the text `s`.
pub open spec fn json_string(s: Seq<char>) -> Seq<char> {
    seq!['"'] + escape(s) + seq!['"']
}

/// The tag that discriminates a detail entry on the wire.
pub open spec fn tag_of(d: DetailV) -> Seq<char> {
    match d {
        DetailV::ErrorInfo { .. } => "ErrorInfo"@,
        DetailV::BadRequest { .. } => "BadRequest"@,
        DetailV::LocalizedMessage { .. } => "LocalizedMessage"@,
    }
}

/// The members of a metadata object after the first, each preceded by a comma.
pub open spec fn json_metadata_rest(m: Seq<(Seq<char>, Seq<char>)>) -> Seq<char>
    decreases m.len(),
{
    if m.len() == 0 {
        Seq::empty()
    } else {
        ","@ + json_string(m[0].0) + ":"@ + json_string(m[0].1) + json_metadata_rest(
            m.drop_first(),
        )
    }
}

/// A metadata mapping as a JSON object, pairs in their stored order.
pub open spec fn json_metadata(m: Seq<(Seq<char>, Seq<char>)>) -> Seq<char> {
    if m.len() == 0 {
        "{}"@
    } else {
        "{"@ + json_string(m[0].0) + ":"@ + json_string(m[0].1) + json_metadata_rest(
            m.drop_first(),
        ) + "}"@
    }
}

/// A single field violation as a JSON object.
pub open spec fn json_fv(v: FieldViolationV) -> Seq<char> {
    "{\"field\":"@ + json_string(v.field) + ",\"description\":"@ + json_string(v.description)
        + "}"@
}

/// The field violations after the first, each preceded by a comma.
pub open spec fn json_fvs_rest(vs: Seq<FieldViolationV>) -> Seq<char>
    decreases vs.len(),
{
    if vs.len() == 0 {
        Seq::empty()
    } else {
        ","@ + json_fv(vs[0]) + json_fvs_rest(vs.drop_first())
    }
}

/// A sequence of field violations as a JSON array, order preserved.
pub open spec fn json_fvs(vs: Seq<FieldViolationV>) -> Seq<char> {
    if vs.len() == 0 {
        "[]"@
    } else {
        "["@ + json_fv(vs[0]) + json_fvs_rest(vs.drop_first()) + "]"@
    }
}

/// One detail entry as a tagged JSON object: the `@type` tag always comes
/// first and always holds the tag matching the variant.
pub open spec fn json_detail(d: DetailV) -> Seq<char> {
    "{\"@type\":"@ + json_string(tag_of(d)) + (match d {
        DetailV::ErrorInfo { reason, metadata } => {
            ",\"reason\":"@ + json_string(reason) + ",\"metadata\":"@ + json_metadata(metadata)
        },
        DetailV::BadRequest { field_violations } => {
            ",\"field_violations\":"@ + json_fvs(field_violations)
        },
        DetailV::LocalizedMessage { locale, message } => {
            ",\"locale\":"@ + json_string(locale) + ",\"message\":"@ + json_string(message)
        },
    }) + "}"@
}

/// The detail entries after the first, each preceded by a comma.
pub open spec fn json_details_rest(ds: Seq<DetailV>) -> Seq<char>
    decreases ds.len(),
{
    if ds.len() == 0 {
        Seq::empty()
    } else {
        ","@ + json_detail(ds[0]) + json_details_rest(ds.drop_first())
    }
}

/// The details as a JSON array, order preserved; empty details are still an
/// array, never absent.
pub open spec fn json_details(ds: Seq<DetailV>) -> Seq<char> {
    if ds.len() == 0 {
        "[]"@
    } else {
        "["@ + json_detail(ds[0]) + json_details_rest(ds.drop_first()) + "]"@
    }
}

/// The whole envelope on the wire: code token, message, details, in this
/// order and nothing else.
pub open spec fn json_of(e: ApiErrorV) -> Seq<char> {
    "{\"code\":"@ + json_string(token_of(e.code)) + ",\"message\":"@ + json_string(e.message)
        + ",\"details\":"@ + json_details(e.details) + "}"@
}

/// The diagnostic rendering of an envelope, for logs: not the wire format.
pub open spec fn text_of(e: ApiErrorV) -> Seq<char> {
    "ApiError { code: "@ + token_of(e.code) + ", message: "@ + json_string(e.message)
        + ", details: "@ + json_details(e.details) + " }"@
}

/// Relies on `String::push`: appends exactly the one character.
#[verifier::external_body]
pub(crate) fn push_char(out: &mut String, c: char)
    ensures
        final (out)@ == old(out)@ + seq![c],
{
    out.push(c);
}

/// Writes the characters of `s` from position `i` on, escaped.
fn write_escaped_from(out: &mut String, s: &str, i: usize)
    requires
        i <= s@.len(),
    ensures
        final (out)@ == old(out)@ + escape(s@.skip(i as int)),
    decreases s@.len() - i as int,
{
    let ghost prefix = out@;
    let n = s.unicode_len();
    if i == n {
        proof {
            assert(s@.skip(i as int) =~= Seq::<char>::empty());
            assert(out@ =~= prefix + escape(s@.skip(i as int)));
        }
        return ;
    }
    let c = s.get_char(i);
    proof {
        assert(s@.skip(i as int)[0] == c);
        assert(s@.skip(i as int).drop_first() =~= s@.skip(i as int + 1));
    }
    if c == '"' {
        out.append("\\\"");
        proof {
            reveal_strlit("\\\"");
            assert(out@ =~= prefix + escape_char(c));
        }
    } else if c == '\\' {
        out.append("\\\\");
        proof {
            reveal_strlit("\\\\");
            assert(out@ =~= prefix + escape_char(c));
        }
    } else if (c as u32) < 32 {
        let v = c as u32;
        out.append("\\u00");
        let hi = (v / 16) as u8;
        let lo = (v % 16) as u8;
        let hic = if hi < 10 {
            (48 + hi) as char
        } else {
            (87 + hi) as char
        };
        let loc = if lo < 10 {
            (48 + lo) as char
        } else {
            (87 + lo) as char
        };
        push_char(out, hic);
        push_char(out, loc);
        proof {
            reveal_strlit("\\u00");
            assert(out@ =~= prefix + escape_char(c));
        }
    } else {
        push_char(out, c);
        proof {
            assert(out@ =~= prefix + escape_char(c));
        }
    }
    write_escaped_from(out, s, i + 1);
    proof {
        assert(out@ =~= prefix + escape(s@.skip(i as int)));
    }
}

/// Writes `s` as a JSON string literal.
fn write_json_string(out: &mut String, s: &str)
    ensures
        final (out)@ == old(out)@ + json_string(s@),
{
    let ghost prefix = out@;
    push_char(out, '"');
    write_escaped_from(out, s, 0);
    push_char(out, '"');
    proof {
        assert(s@.skip(0) =~= s@);
        assert(out@ =~= prefix + json_string(s@));
    }
}

/// Writes the metadata pairs from position `i` on, each preceded by a comma.
fn write_metadata_rest(out: &mut String, m: &Vec<(String, String)>, i: usize)
    requires
        i <= m@.len(),
    ensures
        final (out)@ == old(out)@ + json_metadata_rest(metadata_view(m@).skip(i as int)),
    decreases m@.len() - i as int,
{
    let ghost prefix = out@;
    let ghost mv = metadata_view(m@).skip(i as int);
    if i == m.len() {
        proof {
            assert(mv =~= Seq::<(Seq<char>, Seq<char>)>::empty());
            assert(out@ =~= prefix + json_metadata_rest(mv));
        }
        return ;
    }
    proof {
        assert(mv[0] == (m@[i as int].0@, m@[i as int].1@));
        assert(mv.drop_first() =~= metadata_view(m@).skip(i as int + 1));
    }
    out.append(",");
    write_json_string(out, m[i].0.as_str());
    out.append(":");
    write_json_string(out, m[i].1.as_str());
    write_metadata_rest(out, m, i + 1);
    proof {
        assert(out@ =~= prefix + json_metadata_rest(mv));
    }
}

/// Writes a metadata mapping as a JSON object.
fn write_metadata(out: &mut String, m: &Vec<(String, String)>)
    ensures
        final (out)@ == old(out)@ + json_metadata(metadata_view(m@)),
{
    let ghost prefix = out@;
    let ghost mv = metadata_view(m@);
    if m.len() == 0 {
        out.append("{}");
        proof {
            assert(out@ =~= prefix + json_metadata(mv));
        }
        return ;
    }
    proof {
        assert(mv[0] == (m@[0].0@, m@[0].1@));
        assert(mv.drop_first() =~= mv.skip(1));
    }
    out.append("{");
    write_json_string(out, m[0].0.as_str());
    out.append(":");
    write_json_string(out, m[0].1.as_str());
    write_metadata_rest(out, m, 1);
    out.append("}");
    proof {
        assert(out@ =~= prefix + json_metadata(mv));
    }
}

/// Writes one field violation as a JSON object.
fn write_fv(out: &mut String, v: &FieldViolation)
    ensures
        final (out)@ == old(out)@ + json_fv(v@),
{
    let ghost prefix = out@;
    out.append("{\"field\":");
    write_json_string(out, v.field.as_str());
    out.append(",\"description\":");
    write_json_string(out, v.description.as_str());
    out.append("}");
    proof {
        assert(out@ =~= prefix + json_fv(v@));
    }
}

/// Writes the field violations from position `i` on, each preceded by a comma.
fn write_fvs_rest(out: &mut String, vs: &Vec<FieldViolation>, i: usize)
    requires
        i <= vs@.len(),
    ensures
        final (out)@ == old(out)@ + json_fvs_rest(fvs_view(vs@).skip(i as int)),
    decreases vs@.len() - i as int,
{
    let ghost prefix = out@;
    let ghost vv = fvs_view(vs@).skip(i as int);
    if i == vs.len() {
        proof {
            assert(vv =~= Seq::<FieldViolationV>::empty());
            assert(out@ =~= prefix + json_fvs_rest(vv));
        }
        return ;
    }
    proof {
        assert(vv[0] == vs@[i as int]@);
        assert(vv.drop_first() =~= fvs_view(vs@).skip(i as int + 1));
    }
    out.append(",");
    write_fv(out, &vs[i]);
    write_fvs_rest(out, vs, i + 1);
    proof {
        assert(out@ =~= prefix + json_fvs_rest(vv));
    }
}

/// Writes a field-violation sequence as a JSON array.
fn write_fvs(out: &mut String, vs: &Vec<FieldViolation>)
    ensures
        final (out)@ == old(out)@ + json_fvs(fvs_view(vs@)),
{
    let ghost prefix = out@;
    let ghost vv = fvs_view(vs@);
    if vs.len() == 0 {
        out.append("[]");
        proof {
            assert(out@ =~= prefix + json_fvs(vv));
        }
        return ;
    }
    proof {
        assert(vv[0] == vs@[0]@);
        assert(vv.drop_first() =~= vv.skip(1));
    }
    out.append("[");
    write_fv(out, &vs[0]);
    write_fvs_rest(out, vs, 1);
    out.append("]");
    proof {
        assert(out@ =~= prefix + json_fvs(vv));
    }
}

/// Writes one detail entry as a tagged JSON object.
fn write_detail(out: &mut String, d: &ErrorDetails)
    ensures
        final (out)@ == old(out)@ + json_detail(d@),
{
    let ghost prefix = out@;
    out.append("{\"@type\":");
    match d {
        ErrorDetails::ErrorInfo { reason, metadata } => {
            write_json_string(out, "ErrorInfo");
            out.append(",\"reason\":");
            write_json_string(out, reason.as_str());
            out.append(",\"metadata\":");
            write_metadata(out, metadata);
        },
        ErrorDetails::BadRequest { field_violations } => {
            write_json_string(out, "BadRequest");
            out.append(",\"field_violations\":");
            write_fvs(out, field_violations);
        },
        ErrorDetails::LocalizedMessage { locale, message } => {
            write_json_string(out, "LocalizedMessage");
            out.append(",\"locale\":");
            write_json_string(out, locale.as_str());
            out.append(",\"message\":");
            write_json_string(out, message.as_str());
        },
    }
    out.append("}");
    proof {
        assert(out@ =~= prefix + json_detail(d@));
    }
}

/// Writes the detail entries from position `i` on, each preceded by a comma.
fn write_details_rest(out: &mut String, ds: &Vec<ErrorDetails>, i: usize)
    requires
        i <= ds@.len(),
    ensures
        final (out)@ == old(out)@ + json_details_rest(
            details_view(ds@).skip(i as int),
        ),
    decreases ds@.len() - i as int,
{
    let ghost prefix = out@;
    let ghost dv = details_view(ds@).skip(i as int);
    if i == ds.len() {
        proof {
            assert(dv =~= Seq::<DetailV>::empty());
            assert(out@ =~= prefix + json_details_rest(dv));
        }
        return ;
    }
    proof {
        assert(dv[0] == ds@[i as int]@);
        assert(dv.drop_first() =~= details_view(ds@).skip(i as int + 1));
    }
    out.append(",");
    write_detail(out, &ds[i]);
    write_details_rest(out, ds, i + 1);
    proof {
        assert(out@ =~= prefix + json_details_rest(dv));
    }
}

/// Writes the details as a JSON array.
fn write_details(out: &mut String, ds: &Vec<ErrorDetails>)
    ensures
        final (out)@ == old(out)@ + json_details(details_view(ds@)),
{
    let ghost prefix = out@;
    let ghost dv = details_view(ds@);
    if ds.len() == 0 {
        out.append("[]");
        proof {
            assert(out@ =~= prefix + json_details(dv));
        }
        return ;
    }
    proof {
        assert(dv[0] == ds@[0]@);
        assert(dv.drop_first() =~= dv.skip(1));
    }
    out.append("[");
    write_detail(out, &ds[0]);
    write_details_rest(out, ds, 1);
    out.append("]");
    proof {
        assert(out@ =~= prefix + json_details(dv));
    }
}

impl ApiError {
    /// The wire form of this envelope: exactly the JSON text that `json_of`
    /// assigns to its value.
    pub fn to_json(&self) -> (body: String)
        ensures
            body@ == json_of(self@),
    {
        let mut out = String::new();
        out.append("{\"code\":");
        write_json_string(&mut out, self.code.token_str());
        out.append(",\"message\":");
        write_json_string(&mut out, self.message.as_str());
        out.append(",\"details\":");
        write_details(&mut out, &self.details);
        out.append("}");
        proof {
            assert(out@ =~= json_of(self@));
        }
        out
    }

    /// A diagnostic rendering of this envelope for logs: the code token, the
    /// message, and the details. Not the wire format.
    pub fn textual_representation(&self) -> (text: String)
        ensures
            text@ == text_of(self@),
    {
        let mut out = String::new();
        out.append("ApiError { code: ");
        out.append(self.code.token_str());
        out.append(", message: ");
        write_json_string(&mut out, self.message.as_str());
        out.append(", details: ");
        write_details(&mut out, &self.details);
        out.append(" }");
        proof {
            assert(out@ =~= text_of(self@));
        }
        out
    }
}

} // verus!
