//! The handling of one request, up to and after the call to the service.
//!
//! Handling goes in two steps around that call: `prepare_request` reads the
//! request and says what to send, or answers at once; `reconcile` turns what
//! the service answered into the response.
use crate::config::{listed, Endpoint, Parameter};
use crate::entries::lookup;
use crate::params::{
    coerced, lemma_resolved_keeps, lemma_resolved_last, lemma_resolved_missing, missing_text,
    request_variables, resolve_request, resolved, ParamSource,
};
use crate::request::{forward_headers, outbound_headers, request_body, request_json, Headers};
use crate::response::{build_error_response, error_body, GatewayResponse};
use vstd::prelude::*;

verus! {

/// The request to send to the service.
pub struct OutboundRequest {
    pub headers: Headers,
    pub body: String,
}

/// What a request comes to before the service is called: the headers and body
/// to send, or the status and body to answer with at once.
pub open spec fn prepared(
    endpoint: Endpoint,
    headers: Seq<(Seq<char>, Seq<u8>)>,
    query: Seq<(Seq<char>, (Seq<char>, Result<Seq<char>, Seq<char>>))>,
    path: Seq<(Seq<char>, (Seq<char>, Result<Seq<char>, Seq<char>>))>,
    body: Seq<(Seq<char>, (Seq<char>, Result<Seq<char>, Seq<char>>))>,
) -> Result<(Seq<(Seq<char>, Seq<u8>)>, Seq<char>), (u16, Seq<char>)> {
    match request_variables(endpoint, query, path, body) {
        Ok(vars) => Ok((outbound_headers(headers), request_body(endpoint.pq_id@, vars))),
        Err(m) => Err((400, error_body(m))),
    }
}

/// Reads a request to `endpoint` and says what to send to the service, or,
/// where its parameters cannot be read, answers `400` with the reason.
pub fn prepare_request(
    endpoint: &Endpoint,
    headers: Headers,
    query: &ParamSource,
    path: &ParamSource,
    body: &ParamSource,
) -> (r: Result<OutboundRequest, GatewayResponse>)
    ensures
        match prepared(*endpoint, headers@, query@, path@, body@) {
            Ok((h, b)) => r matches Ok(req) && req.headers@ == h && req.body@ == b,
            Err((s, b)) => r matches Err(resp) && resp.status == s && resp.headers@.len() == 0
                && resp.body@ == b,
        },
{
    match resolve_request(endpoint, query, path, body) {
        Ok(vars) => {
            let body = request_json(endpoint.pq_id.as_str(), &vars);
            Ok(OutboundRequest { headers: forward_headers(headers), body })
        },
        Err(m) => Err(build_error_response(400, m)),
    }
}

/// The parameters of `endpoint` read out of source `phase`: 0 the query, 1
/// the path, 2 the body.
pub open spec fn phase_params(endpoint: Endpoint, phase: int) -> Seq<Parameter> {
    if phase == 0 {
        listed(endpoint.query_params)
    } else if phase == 1 {
        listed(endpoint.path_arguments)
    } else {
        listed(endpoint.body_params)
    }
}

/// The source read in `phase`.
pub open spec fn phase_source(
    query: Seq<(Seq<char>, (Seq<char>, Result<Seq<char>, Seq<char>>))>,
    path: Seq<(Seq<char>, (Seq<char>, Result<Seq<char>, Seq<char>>))>,
    body: Seq<(Seq<char>, (Seq<char>, Result<Seq<char>, Seq<char>>))>,
    phase: int,
) -> Seq<(Seq<char>, (Seq<char>, Result<Seq<char>, Seq<char>>))> {
    if phase == 0 {
        query
    } else if phase == 1 {
        path
    } else {
        body
    }
}

/// The variables read before `phase` begins, or the error that ended the
/// reading earlier.
pub open spec fn phase_start(
    endpoint: Endpoint,
    query: Seq<(Seq<char>, (Seq<char>, Result<Seq<char>, Seq<char>>))>,
    path: Seq<(Seq<char>, (Seq<char>, Result<Seq<char>, Seq<char>>))>,
    phase: int,
) -> Result<Seq<(Seq<char>, Seq<char>)>, Seq<char>> {
    if phase == 0 {
        Ok(Seq::empty())
    } else {
        match resolved(Seq::empty(), query, listed(endpoint.query_params)) {
            Err(e) => Err(e),
            Ok(q) => if phase == 1 {
                Ok(q)
            } else {
                resolved(q, path, listed(endpoint.path_arguments))
            },
        }
    }
}

/// A required parameter of any of the three sources that its source lacks,
/// where nothing read before it failed, is answered with exactly `400` and the
/// body `{"data":null,"errors":[{"message":"Missing required parameter: <from>"}]}`.
pub proof fn law_missing_required_parameter(
    endpoint: Endpoint,
    headers: Seq<(Seq<char>, Seq<u8>)>,
    query: Seq<(Seq<char>, (Seq<char>, Result<Seq<char>, Seq<char>>))>,
    path: Seq<(Seq<char>, (Seq<char>, Result<Seq<char>, Seq<char>>))>,
    body: Seq<(Seq<char>, (Seq<char>, Result<Seq<char>, Seq<char>>))>,
    phase: int,
    k: int,
)
    requires
        0 <= phase <= 2,
        0 <= k < phase_params(endpoint, phase).len(),
        phase_params(endpoint, phase)[k].required,
        lookup(phase_source(query, path, body, phase), phase_params(endpoint, phase)[k].from@)
            is None,
        phase_start(endpoint, query, path, phase) matches Ok(v) && resolved(
            v,
            phase_source(query, path, body, phase),
            phase_params(endpoint, phase).take(k),
        ) is Ok,
    ensures
        prepared(endpoint, headers, query, path, body) == Err::<
            (Seq<(Seq<char>, Seq<u8>)>, Seq<char>),
            (u16, Seq<char>),
        >((400, error_body(missing_text(phase_params(endpoint, phase)[k].from@)))),
{
    let v = phase_start(endpoint, query, path, phase)->Ok_0;
    lemma_resolved_missing(
        v,
        phase_source(query, path, body, phase),
        phase_params(endpoint, phase),
        k,
    );
}

/// Body fields win over path arguments and query parameters: where the body
/// holds the `k`-th body parameter, and no later body parameter of the same
/// target name is held, a successful reading gives that name the body value,
/// whatever the query and the path hold.
pub proof fn law_body_wins(
    endpoint: Endpoint,
    query: Seq<(Seq<char>, (Seq<char>, Result<Seq<char>, Seq<char>>))>,
    path: Seq<(Seq<char>, (Seq<char>, Result<Seq<char>, Seq<char>>))>,
    body: Seq<(Seq<char>, (Seq<char>, Result<Seq<char>, Seq<char>>))>,
    k: int,
)
    requires
        request_variables(endpoint, query, path, body) is Ok,
        0 <= k < listed(endpoint.body_params).len(),
        lookup(body, listed(endpoint.body_params)[k].from@) is Some,
        forall|i: int|
            k < i < listed(endpoint.body_params).len() && #[trigger] listed(
                endpoint.body_params,
            )[i].target() == listed(endpoint.body_params)[k].target() ==> lookup(
                body,
                listed(endpoint.body_params)[i].from@,
            ) is None,
    ensures
        ({
            let p = listed(endpoint.body_params)[k];
            lookup(request_variables(endpoint, query, path, body)->Ok_0, p.target()) == Some(
                coerced(p.kind, lookup(body, p.from@)->Some_0)->Ok_0,
            )
        }),
{
    let q = resolved(Seq::empty(), query, listed(endpoint.query_params))->Ok_0;
    let p = resolved(q, path, listed(endpoint.path_arguments))->Ok_0;
    lemma_resolved_last(p, body, listed(endpoint.body_params), k);
}

/// Path arguments win over query parameters: where the path holds the `k`-th
/// path parameter, no later path parameter of the same target name is held,
/// and the body holds no body parameter of that name, a successful reading
/// gives that name the path value, whatever the query holds.
pub proof fn law_path_over_query(
    endpoint: Endpoint,
    query: Seq<(Seq<char>, (Seq<char>, Result<Seq<char>, Seq<char>>))>,
    path: Seq<(Seq<char>, (Seq<char>, Result<Seq<char>, Seq<char>>))>,
    body: Seq<(Seq<char>, (Seq<char>, Result<Seq<char>, Seq<char>>))>,
    k: int,
)
    requires
        request_variables(endpoint, query, path, body) is Ok,
        0 <= k < listed(endpoint.path_arguments).len(),
        lookup(path, listed(endpoint.path_arguments)[k].from@) is Some,
        forall|i: int|
            k < i < listed(endpoint.path_arguments).len() && #[trigger] listed(
                endpoint.path_arguments,
            )[i].target() == listed(endpoint.path_arguments)[k].target() ==> lookup(
                path,
                listed(endpoint.path_arguments)[i].from@,
            ) is None,
        forall|i: int|
            0 <= i < listed(endpoint.body_params).len() && #[trigger] listed(
                endpoint.body_params,
            )[i].target() == listed(endpoint.path_arguments)[k].target() ==> lookup(
                body,
                listed(endpoint.body_params)[i].from@,
            ) is None,
    ensures
        ({
            let p = listed(endpoint.path_arguments)[k];
            lookup(request_variables(endpoint, query, path, body)->Ok_0, p.target()) == Some(
                coerced(p.kind, lookup(path, p.from@)->Some_0)->Ok_0,
            )
        }),
{
    let q = resolved(Seq::empty(), query, listed(endpoint.query_params))->Ok_0;
    let t = listed(endpoint.path_arguments)[k].target();
    lemma_resolved_last(q, path, listed(endpoint.path_arguments), k);
    let p = resolved(q, path, listed(endpoint.path_arguments))->Ok_0;
    lemma_resolved_keeps(p, body, listed(endpoint.body_params), t);
}

/// Preparing the same request twice gives the same outcome: the same headers
/// and byte for byte the same body, or the same answer.
pub proof fn law_preparation_idempotent(
    endpoint: Endpoint,
    headers: Seq<(Seq<char>, Seq<u8>)>,
    query: Seq<(Seq<char>, (Seq<char>, Result<Seq<char>, Seq<char>>))>,
    path: Seq<(Seq<char>, (Seq<char>, Result<Seq<char>, Seq<char>>))>,
    body: Seq<(Seq<char>, (Seq<char>, Result<Seq<char>, Seq<char>>))>,
    endpoint2: Endpoint,
    headers2: Seq<(Seq<char>, Seq<u8>)>,
    query2: Seq<(Seq<char>, (Seq<char>, Result<Seq<char>, Seq<char>>))>,
    path2: Seq<(Seq<char>, (Seq<char>, Result<Seq<char>, Seq<char>>))>,
    body2: Seq<(Seq<char>, (Seq<char>, Result<Seq<char>, Seq<char>>))>,
)
    requires
        endpoint2 == endpoint,
        headers2 == headers,
        query2 == query,
        path2 == path,
        body2 == body,
    ensures
        prepared(endpoint2, headers2, query2, path2, body2) == prepared(
            endpoint,
            headers,
            query,
            path,
            body,
        ),
{
}

} // verus!
