//! The response returned to the caller: the service's answer reconciled into
//! an HTTP status, headers and a JSON body.
use crate::json::{comma_joined, json_quoted, lemma_comma_joined_step, quote};
use crate::request::{without, Headers};
use vstd::prelude::*;
use vstd::string::StringExecFns;

verus! {

/// A GraphQL response envelope as read from the service. `data` and
/// `extensions` hold JSON text; a `data` of `null` reads as absent. Each error
/// keeps its message only.
pub struct ResponseEnvelope {
    pub data: Option<String>,
    pub errors: Option<Vec<String>>,
    pub extensions: Option<String>,
}

/// What came of the call to the service.
pub enum UpstreamReply {
    /// The service could not be reached, or its answer not received.
    Failed { error: String },
    /// The service's answer is not a response envelope.
    Undecodable { error: String },
    /// The service answered with a status, headers and an envelope.
    Answered { status: u16, headers: Headers, envelope: ResponseEnvelope },
}

/// A response to the caller.
pub struct GatewayResponse {
    pub status: u16,
    pub headers: Headers,
    pub body: String,
}

pub open spec fn texts_of(v: Seq<String>) -> Seq<Seq<char>> {
    v.map_values(|s: String| s@)
}

/// The JSON object of one error.
pub open spec fn error_object(message: Seq<char>) -> Seq<char> {
    "{\"message\":"@ + json_quoted(message) + "}"@
}

/// The JSON array of errors with these messages.
pub open spec fn errors_text(messages: Seq<Seq<char>>) -> Seq<char> {
    "["@ + comma_joined(messages.map_values(|m: Seq<char>| error_object(m))) + "]"@
}

/// The member `key` followed by `value`, where there is a value.
pub open spec fn member_if(key: Seq<char>, value: Option<Seq<char>>) -> Seq<Seq<char>> {
    match value {
        Some(v) => seq![key + v],
        None => Seq::empty(),
    }
}

pub open spec fn opt_text(o: Option<String>) -> Option<Seq<char>> {
    match o {
        Some(s) => Some(s@),
        None => None,
    }
}

pub open spec fn opt_errors_text(o: Option<Vec<String>>) -> Option<Seq<char>> {
    match o {
        Some(v) => Some(errors_text(texts_of(v@))),
        None => None,
    }
}

/// The members of an envelope's JSON object, in the order of their names.
pub open spec fn envelope_members(env: ResponseEnvelope) -> Seq<Seq<char>> {
    member_if("\"data\":"@, opt_text(env.data)) + member_if(
        "\"errors\":"@,
        opt_errors_text(env.errors),
    ) + member_if("\"extensions\":"@, opt_text(env.extensions))
}

/// The envelope written back as JSON, absent members left out.
pub open spec fn envelope_text(env: ResponseEnvelope) -> Seq<char> {
    "{"@ + comma_joined(envelope_members(env)) + "}"@
}

/// The body of an error response: no data and one error with `message`.
pub open spec fn error_body(message: Seq<char>) -> Seq<char> {
    "{\"data\":null,\"errors\":[{\"message\":"@ + json_quoted(message) + "}]}"@
}

/// The status returned for an envelope that came with `status`: a `200` whose
/// envelope holds errors becomes `500`, or `206` where data came with them.
pub open spec fn reconciled_status(status: u16, env: ResponseEnvelope) -> u16 {
    if status == 200 && (env.errors matches Some(v) && v.len() > 0) {
        if env.data is Some {
            206
        } else {
            500
        }
    } else {
        status
    }
}

/// The service's headers as passed on: without those that describe a body
/// that is written anew.
pub open spec fn passed_headers(h: Seq<(Seq<char>, Seq<u8>)>) -> Seq<(Seq<char>, Seq<u8>)> {
    without(without(h, "transfer-encoding"@), "content-length"@)
}

/// Joins the texts of `parts` with commas.
fn join_commas(parts: &Vec<String>) -> (r: String)
    ensures
        r@ == comma_joined(texts_of(parts@)),
{
    let ghost t = texts_of(parts@);
    let mut out = String::new();
    let mut i: usize = 0;
    while i < parts.len()
        invariant
            0 <= i <= parts.len(),
            t == texts_of(parts@),
            out@ == comma_joined(t.take(i as int)),
        decreases parts.len() - i,
    {
        proof {
            lemma_comma_joined_step(t, i as int);
        }
        if i > 0 {
            out.append(",");
        }
        out.append(parts[i].as_str());
        i = i + 1;
    }
    assert(t.take(i as int) =~= t);
    out
}

/// Writes the errors of an envelope as a JSON array.
fn errors_json(messages: &Vec<String>) -> (r: String)
    ensures
        r@ == errors_text(texts_of(messages@)),
{
    let mut objects: Vec<String> = Vec::new();
    let mut i: usize = 0;
    while i < messages.len()
        invariant
            0 <= i <= messages.len(),
            texts_of(objects@) == texts_of(messages@).take(i as int).map_values(
                |m: Seq<char>| error_object(m),
            ),
        decreases messages.len() - i,
    {
        let mut o = "{\"message\":".to_string();
        let q = quote(messages[i].as_str());
        o.append(q.as_str());
        o.append("}");
        assert(o@ == error_object(texts_of(messages@)[i as int]));
        let ghost before = objects@;
        objects.push(o);
        assert(objects@ == before.push(o));
        assert(texts_of(objects@) =~= texts_of(before).push(o@));
        assert(texts_of(objects@) =~= texts_of(messages@).take(i + 1).map_values(
            |m: Seq<char>| error_object(m),
        ));
        i = i + 1;
    }
    assert(texts_of(messages@).take(i as int) =~= texts_of(messages@));
    let mut out = "[".to_string();
    let inner = join_commas(&objects);
    out.append(inner.as_str());
    out.append("]");
    out
}

/// Writes an envelope back as JSON.
pub fn envelope_json(env: &ResponseEnvelope) -> (r: String)
    ensures
        r@ == envelope_text(*env),
{
    let mut members: Vec<String> = Vec::new();
    if let Some(d) = &env.data {
        let mut m = "\"data\":".to_string();
        m.append(d.as_str());
        members.push(m);
    }
    if let Some(e) = &env.errors {
        let mut m = "\"errors\":".to_string();
        let a = errors_json(e);
        m.append(a.as_str());
        members.push(m);
    }
    if let Some(x) = &env.extensions {
        let mut m = "\"extensions\":".to_string();
        m.append(x.as_str());
        members.push(m);
    }
    assert(texts_of(members@) =~= envelope_members(*env));
    let mut out = "{".to_string();
    let inner = join_commas(&members);
    out.append(inner.as_str());
    out.append("}");
    out
}

/// An error response with `status` and an error body carrying `message`.
pub fn build_error_response(status: u16, message: String) -> (r: GatewayResponse)
    ensures
        r.status == status,
        r.headers@ == Seq::<(Seq<char>, Seq<u8>)>::empty(),
        r.body@ == error_body(message@),
{
    let mut body = "{\"data\":null,\"errors\":[{\"message\":".to_string();
    let q = quote(message.as_str());
    body.append(q.as_str());
    body.append("}]}");
    GatewayResponse { status, headers: Headers::new(), body }
}

/// Turns what came of the call to the service into the response to the
/// caller.
pub fn reconcile(reply: UpstreamReply) -> (r: GatewayResponse)
    ensures
        match reply {
            UpstreamReply::Failed { error } => r.status == 500 && r.headers@.len() == 0
                && r.body@ == error_body(error@),
            UpstreamReply::Undecodable { error } => r.status == 500 && r.headers@.len() == 0
                && r.body@ == error_body(error@),
            UpstreamReply::Answered { status, headers, envelope } => {
                &&& r.status == reconciled_status(status, envelope)
                &&& r.headers@ == passed_headers(headers@)
                &&& r.body@ == envelope_text(envelope)
            },
        },
{
    match reply {
        UpstreamReply::Failed { error } => build_error_response(500, error),
        UpstreamReply::Undecodable { error } => build_error_response(500, error),
        UpstreamReply::Answered { status, headers, envelope } => {
            let mut h = headers;
            h.remove("transfer-encoding");
            h.remove("content-length");
            let mut s = status;
            if let Some(errors) = &envelope.errors {
                if status == 200 && errors.len() > 0 {
                    s = 500;
                    if envelope.data.is_some() {
                        s = 206;
                    }
                }
            }
            let body = envelope_json(&envelope);
            GatewayResponse { status: s, headers: h, body }
        },
    }
}

} // verus!
