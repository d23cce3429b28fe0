//! Reading the configured parameters out of a request's sources and merging
//! them into the variables of the persisted query.
use crate::config::{listed, Endpoint, ParamKind, Parameter};
use crate::entries::{
    lemma_lookup_put, lemma_put_names_unique, lookup, names_unique, position, put,
};
use crate::json::{
    bool_error_text, decimal_reading, decimal_text, fits_i64, int_error_text, integer_text,
    json_quoted, json_reading, lemma_decimal_round_trip, parse_bool, parse_i64, quote, reformat,
};
use vstd::prelude::*;
use vstd::string::StringExecFns;

verus! {

/// The text content of a `Result` of strings.
pub open spec fn texts(r: Result<String, String>) -> Result<Seq<char>, Seq<char>> {
    match r {
        Ok(t) => Ok(t@),
        Err(e) => Err(e@),
    }
}

/// A raw value taken from a request, as text.
///
/// `as_double` is the value read as an IEEE-754 double, written as JSON, or
/// the text of the reading's error. Floating point stays outside this library,
/// so whoever builds the value supplies that reading along with the text.
pub struct RawParam {
    pub text: String,
    pub as_double: Result<String, String>,
}

impl View for RawParam {
    type V = (Seq<char>, Result<Seq<char>, Seq<char>>);

    open spec fn view(&self) -> Self::V {
        (self.text@, texts(self.as_double))
    }
}

impl RawParam {
    pub fn new(text: String, as_double: Result<String, String>) -> (r: RawParam)
        ensures
            r.text@ == text@,
            texts(r.as_double) == texts(as_double),
    {
        RawParam { text, as_double }
    }
}

/// One source of request values (the path, the query or the body): raw values
/// by name.
pub struct ParamSource {
    entries: Vec<(String, RawParam)>,
}

impl View for ParamSource {
    type V = Seq<(Seq<char>, (Seq<char>, Result<Seq<char>, Seq<char>>))>;

    closed spec fn view(&self) -> Self::V {
        self.entries@.map_values(|e: (String, RawParam)| (e.0@, e.1@))
    }
}

impl ParamSource {
    pub fn new() -> (r: ParamSource)
        ensures
            r@ == Seq::<(Seq<char>, (Seq<char>, Result<Seq<char>, Seq<char>>))>::empty(),
    {
        ParamSource { entries: Vec::new() }
    }

    /// Sets the value named `name`, replacing an earlier one of that name.
    pub fn insert(&mut self, name: String, value: RawParam)
        ensures
            final(self)@ == put(old(self)@, name@, value@),
            names_unique(old(self)@) ==> names_unique(final(self)@),
    {
        proof {
            if names_unique(self@) {
                lemma_put_names_unique(self@, name@, value@);
            }
        }
        let i = position(&self.entries, &name);
        let ghost n = name@;
        let ghost v = value@;
        if i < self.entries.len() {
            self.entries.set(i, (name, value));
        } else {
            self.entries.push((name, value));
        }
        assert(self@ =~= put(old(self)@, n, v));
    }

    /// The value named `name`, if the source has one.
    pub fn get(&self, name: &String) -> (r: Option<&RawParam>)
        ensures
            match r {
                Some(v) => lookup(self@, name@) == Some(v@),
                None => lookup(self@, name@) is None,
            },
    {
        let i = position(&self.entries, name);
        if i < self.entries.len() {
            Some(&self.entries[i].1)
        } else {
            None
        }
    }
}

/// The variables of a persisted query: JSON values by name, in the order in
/// which their names were first set.
pub struct Variables {
    entries: Vec<(String, String)>,
}

impl View for Variables {
    type V = Seq<(Seq<char>, Seq<char>)>;

    closed spec fn view(&self) -> Self::V {
        self.entries@.map_values(|e: (String, String)| (e.0@, e.1@))
    }
}

impl Variables {
    pub fn new() -> (r: Variables)
        ensures
            r@ == Seq::<(Seq<char>, Seq<char>)>::empty(),
    {
        Variables { entries: Vec::new() }
    }

    /// Sets the variable `name` to the JSON text `value`.
    pub fn insert(&mut self, name: String, value: String)
        ensures
            final(self)@ == put(old(self)@, name@, value@),
            names_unique(old(self)@) ==> names_unique(final(self)@),
    {
        proof {
            if names_unique(self@) {
                lemma_put_names_unique(self@, name@, value@);
            }
        }
        let i = position(&self.entries, &name);
        let ghost n = name@;
        let ghost v = value@;
        if i < self.entries.len() {
            self.entries.set(i, (name, value));
        } else {
            self.entries.push((name, value));
        }
        assert(self@ =~= put(old(self)@, n, v));
    }

    pub fn len(&self) -> (r: usize)
        ensures
            r == self@.len(),
    {
        self.entries.len()
    }

    /// The JSON text of the variable `name`, if it is set.
    pub fn get(&self, name: &String) -> (r: Option<&String>)
        ensures
            match r {
                Some(v) => lookup(self@, name@) == Some(v@),
                None => lookup(self@, name@) is None,
            },
    {
        let i = position(&self.entries, name);
        if i < self.entries.len() {
            Some(&self.entries[i].1)
        } else {
            None
        }
    }

    /// The name and JSON text of the `i`-th variable.
    pub fn entry(&self, i: usize) -> (r: (&String, &String))
        requires
            i < self@.len(),
        ensures
            (r.0@, r.1@) == self@[i as int],
    {
        (&self.entries[i].0, &self.entries[i].1)
    }
}

/// The JSON value that a raw value of `kind` denotes, or the text of the
/// reason it denotes none.
pub open spec fn coerced(
    kind: ParamKind,
    raw: (Seq<char>, Result<Seq<char>, Seq<char>>),
) -> Result<Seq<char>, Seq<char>> {
    match kind {
        ParamKind::STRING => Ok(json_quoted(raw.0)),
        ParamKind::INT => match decimal_reading(raw.0) {
            Some(n) => if fits_i64(n) {
                Ok(decimal_text(n))
            } else {
                Err(int_error_text(raw.0))
            },
            None => Err(int_error_text(raw.0)),
        },
        ParamKind::FLOAT => raw.1,
        ParamKind::BOOLEAN => if raw.0 == "true"@ {
            Ok("true"@)
        } else if raw.0 == "false"@ {
            Ok("false"@)
        } else {
            Err(bool_error_text(raw.0))
        },
        ParamKind::OBJECT => json_reading(raw.0),
        ParamKind::ARRAY => json_reading(raw.0),
    }
}

impl ParamKind {
    /// Reads a raw value as a JSON value of this kind.
    pub fn from_str(&self, param: &RawParam) -> (r: Result<String, String>)
        ensures
            texts(r) == coerced(*self, param@),
    {
        match self {
            ParamKind::INT => match parse_i64(param.text.as_str()) {
                Ok(i) => Ok(integer_text(i)),
                Err(e) => Err(e),
            },
            ParamKind::STRING => Ok(quote(param.text.as_str())),
            ParamKind::FLOAT => match &param.as_double {
                Ok(t) => Ok(t.clone()),
                Err(e) => Err(e.clone()),
            },
            ParamKind::OBJECT | ParamKind::ARRAY => reformat(param.text.as_str()),
            ParamKind::BOOLEAN => match parse_bool(param.text.as_str()) {
                Ok(b) => if b {
                    Ok("true".to_string())
                } else {
                    Ok("false".to_string())
                },
                Err(e) => Err(e),
            },
        }
    }
}

/// The error text for a required parameter that a request lacks.
pub open spec fn missing_text(from: Seq<char>) -> Seq<char> {
    "Missing required parameter: "@ + from
}

/// The variables `vars` after reading `params` in order out of `src`: each
/// value present is read by its kind and set under its target name; the first
/// value that cannot be read, or the first required one that is absent, ends
/// the reading with its error text.
pub open spec fn resolved(
    vars: Seq<(Seq<char>, Seq<char>)>,
    src: Seq<(Seq<char>, (Seq<char>, Result<Seq<char>, Seq<char>>))>,
    params: Seq<Parameter>,
) -> Result<Seq<(Seq<char>, Seq<char>)>, Seq<char>>
    decreases params.len(),
{
    if params.len() == 0 {
        Ok(vars)
    } else {
        let p = params[0];
        match lookup(src, p.from@) {
            Some(raw) => match coerced(p.kind, raw) {
                Ok(v) => resolved(put(vars, p.target(), v), src, params.drop_first()),
                Err(e) => Err(e),
            },
            None => if p.required {
                Err(missing_text(p.from@))
            } else {
                resolved(vars, src, params.drop_first())
            },
        }
    }
}

/// Reads `params` out of `src` into `vars`, as `resolved` says.
fn resolve_into(
    vars: &mut Variables,
    src: &ParamSource,
    params: &Vec<Parameter>,
) -> (r: Result<(), String>)
    ensures
        match resolved(old(vars)@, src@, params@) {
            Ok(v) => r is Ok && final(vars)@ == v,
            Err(e) => r matches Err(m) && m@ == e,
        },
{
    let mut i: usize = 0;
    assert(params@.skip(0) =~= params@);
    while i < params.len()
        invariant
            0 <= i <= params.len(),
            resolved(old(vars)@, src@, params@) == resolved(vars@, src@, params@.skip(i as int)),
        decreases params.len() - i,
    {
        let p = &params[i];
        assert(params@.skip(i as int)[0] == params@[i as int]);
        assert(params@.skip(i as int).drop_first() =~= params@.skip(i + 1));
        match src.get(&p.from) {
            Some(raw) => match p.kind.from_str(raw) {
                Ok(v) => {
                    let name = match &p.to {
                        Some(t) => t.clone(),
                        None => p.from.clone(),
                    };
                    vars.insert(name, v);
                },
                Err(e) => {
                    return Err(e);
                },
            },
            None => {
                if p.required {
                    let mut m = "Missing required parameter: ".to_string();
                    m.append(p.from.as_str());
                    return Err(m);
                }
            },
        }
        i = i + 1;
    }
    assert(params@.skip(i as int) =~= Seq::<Parameter>::empty());
    Ok(())
}

/// Reading parameters into variables with unique names keeps them unique.
pub proof fn lemma_resolved_names_unique(
    vars: Seq<(Seq<char>, Seq<char>)>,
    src: Seq<(Seq<char>, (Seq<char>, Result<Seq<char>, Seq<char>>))>,
    params: Seq<Parameter>,
)
    requires
        names_unique(vars),
    ensures
        resolved(vars, src, params) matches Ok(v) ==> names_unique(v),
    decreases params.len(),
{
    if params.len() > 0 {
        let p = params[0];
        match lookup(src, p.from@) {
            Some(raw) => match coerced(p.kind, raw) {
                Ok(v) => {
                    lemma_put_names_unique(vars, p.target(), v);
                    lemma_resolved_names_unique(put(vars, p.target(), v), src, params.drop_first());
                },
                Err(e) => {},
            },
            None => {
                lemma_resolved_names_unique(vars, src, params.drop_first());
            },
        }
    }
}

/// Reads the parameters `config_parameters` out of one source into fresh
/// variables.
pub fn parse_parameters(
    request_parameters: &ParamSource,
    config_parameters: &Option<Vec<Parameter>>,
) -> (r: Result<Variables, String>)
    ensures
        match resolved(Seq::empty(), request_parameters@, listed(*config_parameters)) {
            Ok(v) => r matches Ok(vars) && vars@ == v,
            Err(e) => r matches Err(m) && m@ == e,
        },
        r matches Ok(vars) ==> names_unique(vars@),
{
    proof {
        lemma_resolved_names_unique(Seq::empty(), request_parameters@, listed(*config_parameters));
    }
    let mut vars = Variables::new();
    match config_parameters {
        Some(params) => match resolve_into(&mut vars, request_parameters, params) {
            Ok(()) => Ok(vars),
            Err(e) => Err(e),
        },
        None => Ok(vars),
    }
}

/// The variables of a request to `endpoint`: its query parameters read first,
/// then its path arguments, then its body fields, a later value overwriting an
/// earlier one of the same target name.
pub open spec fn request_variables(
    endpoint: Endpoint,
    query: Seq<(Seq<char>, (Seq<char>, Result<Seq<char>, Seq<char>>))>,
    path: Seq<(Seq<char>, (Seq<char>, Result<Seq<char>, Seq<char>>))>,
    body: Seq<(Seq<char>, (Seq<char>, Result<Seq<char>, Seq<char>>))>,
) -> Result<Seq<(Seq<char>, Seq<char>)>, Seq<char>> {
    match resolved(Seq::empty(), query, listed(endpoint.query_params)) {
        Err(e) => Err(e),
        Ok(q) => match resolved(q, path, listed(endpoint.path_arguments)) {
            Err(e) => Err(e),
            Ok(p) => resolved(p, body, listed(endpoint.body_params)),
        },
    }
}

/// Reads all the parameters of `endpoint` out of the three sources of a
/// request.
pub fn resolve_request(
    endpoint: &Endpoint,
    query: &ParamSource,
    path: &ParamSource,
    body: &ParamSource,
) -> (r: Result<Variables, String>)
    ensures
        match request_variables(*endpoint, query@, path@, body@) {
            Ok(v) => r matches Ok(vars) && vars@ == v,
            Err(e) => r matches Err(m) && m@ == e,
        },
        r matches Ok(vars) ==> names_unique(vars@),
{
    proof {
        lemma_resolved_names_unique(Seq::empty(), query@, listed(endpoint.query_params));
        if let Ok(q) = resolved(Seq::empty(), query@, listed(endpoint.query_params)) {
            lemma_resolved_names_unique(q, path@, listed(endpoint.path_arguments));
            if let Ok(p) = resolved(q, path@, listed(endpoint.path_arguments)) {
                lemma_resolved_names_unique(p, body@, listed(endpoint.body_params));
            }
        }
    }
    let mut vars = Variables::new();
    let empty: Vec<Parameter> = Vec::new();
    let q = match &endpoint.query_params {
        Some(v) => v,
        None => &empty,
    };
    let p = match &endpoint.path_arguments {
        Some(v) => v,
        None => &empty,
    };
    let b = match &endpoint.body_params {
        Some(v) => v,
        None => &empty,
    };
    assert(q@ == listed(endpoint.query_params));
    assert(p@ == listed(endpoint.path_arguments));
    assert(b@ == listed(endpoint.body_params));
    match resolve_into(&mut vars, query, q) {
        Ok(()) => {},
        Err(e) => {
            return Err(e);
        },
    }
    match resolve_into(&mut vars, path, p) {
        Ok(()) => {},
        Err(e) => {
            return Err(e);
        },
    }
    match resolve_into(&mut vars, body, b) {
        Ok(()) => Ok(vars),
        Err(e) => Err(e),
    }
}

/// Reading a list of parameters is reading its first `k`, then the rest.
pub proof fn lemma_resolved_split(
    vars: Seq<(Seq<char>, Seq<char>)>,
    src: Seq<(Seq<char>, (Seq<char>, Result<Seq<char>, Seq<char>>))>,
    params: Seq<Parameter>,
    k: int,
)
    requires
        0 <= k <= params.len(),
    ensures
        resolved(vars, src, params) == match resolved(vars, src, params.take(k)) {
            Ok(v) => resolved(v, src, params.skip(k)),
            Err(e) => Err(e),
        },
    decreases k,
{
    if k == 0 {
        assert(params.take(0) =~= Seq::<Parameter>::empty());
        assert(params.skip(0) =~= params);
    } else {
        let p = params[0];
        assert(params.take(k)[0] == p);
        assert(params.take(k).drop_first() =~= params.drop_first().take(k - 1));
        assert(params.skip(k) =~= params.drop_first().skip(k - 1));
        match lookup(src, p.from@) {
            Some(raw) => match coerced(p.kind, raw) {
                Ok(v) => {
                    lemma_resolved_split(put(vars, p.target(), v), src, params.drop_first(), k - 1);
                },
                Err(e) => {},
            },
            None => {
                if !p.required {
                    lemma_resolved_split(vars, src, params.drop_first(), k - 1);
                }
            },
        }
    }
}

/// Parameters that set no value under `t` leave its value as it was.
pub proof fn lemma_resolved_keeps(
    vars: Seq<(Seq<char>, Seq<char>)>,
    src: Seq<(Seq<char>, (Seq<char>, Result<Seq<char>, Seq<char>>))>,
    params: Seq<Parameter>,
    t: Seq<char>,
)
    requires
        resolved(vars, src, params) is Ok,
        forall|i: int|
            0 <= i < params.len() && #[trigger] params[i].target() == t ==> lookup(
                src,
                params[i].from@,
            ) is None,
    ensures
        lookup(resolved(vars, src, params)->Ok_0, t) == lookup(vars, t),
    decreases params.len(),
{
    if params.len() > 0 {
        let p = params[0];
        assert forall|i: int|
            0 <= i < params.drop_first().len() && #[trigger] params.drop_first()[i].target()
                == t implies lookup(src, params.drop_first()[i].from@) is None by {
            assert(params.drop_first()[i] == params[i + 1]);
        }
        match lookup(src, p.from@) {
            Some(raw) => match coerced(p.kind, raw) {
                Ok(v) => {
                    lemma_lookup_put(vars, p.target(), v, t);
                    lemma_resolved_keeps(put(vars, p.target(), v), src, params.drop_first(), t);
                },
                Err(e) => {},
            },
            None => {
                lemma_resolved_keeps(vars, src, params.drop_first(), t);
            },
        }
    }
}

/// After a successful reading, a name holds the value of the last parameter
/// that set it.
pub proof fn lemma_resolved_last(
    vars: Seq<(Seq<char>, Seq<char>)>,
    src: Seq<(Seq<char>, (Seq<char>, Result<Seq<char>, Seq<char>>))>,
    params: Seq<Parameter>,
    k: int,
)
    requires
        resolved(vars, src, params) is Ok,
        0 <= k < params.len(),
        lookup(src, params[k].from@) is Some,
        forall|i: int|
            k < i < params.len() && #[trigger] params[i].target() == params[k].target()
                ==> lookup(src, params[i].from@) is None,
    ensures
        coerced(params[k].kind, lookup(src, params[k].from@)->Some_0) is Ok,
        lookup(resolved(vars, src, params)->Ok_0, params[k].target()) == Some(
            coerced(params[k].kind, lookup(src, params[k].from@)->Some_0)->Ok_0,
        ),
{
    let p = params[k];
    let t = p.target();
    lemma_resolved_split(vars, src, params, k);
    let v0 = resolved(vars, src, params.take(k))->Ok_0;
    let rest = params.skip(k);
    assert(rest[0] == p);
    let raw = lookup(src, p.from@)->Some_0;
    let v = coerced(p.kind, raw)->Ok_0;
    assert(rest.drop_first() =~= params.skip(k + 1));
    assert forall|i: int|
        0 <= i < params.skip(k + 1).len() && #[trigger] params.skip(k + 1)[i].target()
            == t implies lookup(src, params.skip(k + 1)[i].from@) is None by {
        assert(params.skip(k + 1)[i] == params[k + 1 + i]);
    }
    lemma_resolved_keeps(put(v0, t, v), src, params.skip(k + 1), t);
    lemma_lookup_put(v0, t, v, t);
}

/// A required parameter that its source lacks ends a reading that reaches it.
pub proof fn lemma_resolved_missing(
    vars: Seq<(Seq<char>, Seq<char>)>,
    src: Seq<(Seq<char>, (Seq<char>, Result<Seq<char>, Seq<char>>))>,
    params: Seq<Parameter>,
    k: int,
)
    requires
        0 <= k < params.len(),
        resolved(vars, src, params.take(k)) is Ok,
        params[k].required,
        lookup(src, params[k].from@) is None,
    ensures
        resolved(vars, src, params) == Err::<Seq<(Seq<char>, Seq<char>)>, Seq<char>>(
            missing_text(params[k].from@),
        ),
{
    lemma_resolved_split(vars, src, params, k);
    assert(params.skip(k)[0] == params[k]);
}

/// Reading a raw value depends on nothing but the kind and the value: the
/// same value of the same kind always reads the same, to the same JSON text or
/// the same error text.
pub proof fn law_coercion_deterministic(
    kind: ParamKind,
    raw: (Seq<char>, Result<Seq<char>, Seq<char>>),
    raw2: (Seq<char>, Result<Seq<char>, Seq<char>>),
)
    requires
        raw2 == raw,
    ensures
        coerced(kind, raw2) == coerced(kind, raw),
{
}

/// Values written as the JSON they stand for read back unchanged: any text
/// reads as a string, the decimal notation of any 64-bit integer reads as an
/// integer written the same way, and `true` and `false` read as themselves.
/// Text that is no integer, or no boolean, fails with the reader's error text.
pub proof fn law_coercion_round_trip(
    n: i64,
    text: Seq<char>,
    double: Result<Seq<char>, Seq<char>>,
)
    ensures
        coerced(ParamKind::STRING, (text, double)) == Ok::<Seq<char>, Seq<char>>(
            json_quoted(text),
        ),
        coerced(ParamKind::INT, (decimal_text(n as int), double)) == Ok::<
            Seq<char>,
            Seq<char>,
        >(decimal_text(n as int)),
        coerced(ParamKind::BOOLEAN, ("true"@, double)) == Ok::<Seq<char>, Seq<char>>("true"@),
        coerced(ParamKind::BOOLEAN, ("false"@, double)) == Ok::<Seq<char>, Seq<char>>("false"@),
        decimal_reading(text) is None ==> coerced(ParamKind::INT, (text, double)) == Err::<
            Seq<char>,
            Seq<char>,
        >(int_error_text(text)),
        text != "true"@ && text != "false"@ ==> coerced(ParamKind::BOOLEAN, (text, double))
            == Err::<Seq<char>, Seq<char>>(bool_error_text(text)),
{
    lemma_decimal_round_trip(n as int);
    reveal_strlit("true");
    reveal_strlit("false");
}

} // verus!
