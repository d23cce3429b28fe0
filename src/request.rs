//! The request sent upstream: its headers and its persisted-query body.
use crate::json::{comma_joined, json_quoted, lemma_comma_joined_step, quote};
use crate::params::Variables;
use vstd::prelude::*;
use vstd::slice::slice_to_vec;
use vstd::string::{StringExecFns, StringSliceAdditionalSpecFns};

verus! {

/// `s` without the entries named `k`.
pub open spec fn without<V>(s: Seq<(Seq<char>, V)>, k: Seq<char>) -> Seq<(Seq<char>, V)>
    decreases s.len(),
{
    if s.len() == 0 {
        s
    } else if s[0].0 == k {
        without(s.drop_first(), k)
    } else {
        seq![s[0]] + without(s.drop_first(), k)
    }
}

/// `s` with `v` as the only value named `k`.
pub open spec fn with_only<V>(s: Seq<(Seq<char>, V)>, k: Seq<char>, v: V) -> Seq<(Seq<char>, V)> {
    without(s, k).push((k, v))
}

/// HTTP headers: lower-case names with their values as bytes, in order; a
/// name may occur more than once.
pub struct Headers {
    entries: Vec<(String, Vec<u8>)>,
}

impl View for Headers {
    type V = Seq<(Seq<char>, Seq<u8>)>;

    closed spec fn view(&self) -> Self::V {
        self.entries@.map_values(|e: (String, Vec<u8>)| (e.0@, e.1@))
    }
}

impl Headers {
    pub fn new() -> (r: Headers)
        ensures
            r@ == Seq::<(Seq<char>, Seq<u8>)>::empty(),
    {
        Headers { entries: Vec::new() }
    }

    /// Adds a value under `name`, after those already there.
    pub fn append(&mut self, name: String, value: Vec<u8>)
        ensures
            final(self)@ == old(self)@.push((name@, value@)),
    {
        self.entries.push((name, value));
        assert(self@ =~= old(self)@.push((name@, value@)));
    }

    /// Drops every value named `name`.
    pub fn remove(&mut self, name: &str)
        ensures
            final(self)@ == without(old(self)@, name@),
    {
        let ghost orig = self@;
        let key = name.to_string();
        let mut i: usize = 0;
        assert(orig.skip(0) =~= orig);
        while i < self.entries.len()
            invariant
                0 <= i <= self.entries.len(),
                key@ == name@,
                without(orig, name@) == self@.take(i as int) + without(self@.skip(i as int), name@),
            decreases self.entries.len() - i,
        {
            let ghost before = self@;
            assert(before.skip(i as int)[0] == before[i as int]);
            assert(before.skip(i as int).drop_first() =~= before.skip(i + 1));
            if self.entries[i].0 == key {
                self.entries.remove(i);
                assert(self@.take(i as int) =~= before.take(i as int));
                assert(self@.skip(i as int) =~= before.skip(i + 1));
            } else {
                assert(without(before.skip(i as int), name@) == seq![before[i as int]] + without(
                    before.skip(i + 1),
                    name@,
                ));
                assert(before.take(i + 1) =~= before.take(i as int).push(before[i as int]));
                assert(before.take(i as int) + without(before.skip(i as int), name@) =~= before.take(
                    i + 1,
                ) + without(before.skip(i + 1), name@));
                i = i + 1;
            }
        }
        assert(self@.skip(i as int) =~= Seq::<(Seq<char>, Seq<u8>)>::empty());
        assert(self@.take(i as int) =~= self@);
        assert(without(orig, name@) =~= self@);
    }

    /// Makes `value` the only value named `name`.
    pub fn set(&mut self, name: String, value: Vec<u8>)
        ensures
            final(self)@ == with_only(old(self)@, name@, value@),
    {
        self.remove(name.as_str());
        self.append(name, value);
    }

    pub fn len(&self) -> (r: usize)
        ensures
            r == self@.len(),
    {
        self.entries.len()
    }

    /// The name and value of the `i`-th header.
    pub fn entry(&self, i: usize) -> (r: (&String, &Vec<u8>))
        requires
            i < self@.len(),
        ensures
            (r.0@, r.1@) == self@[i as int],
    {
        (&self.entries[i].0, &self.entries[i].1)
    }
}

/// The name of the header that identifies this gateway to the service.
pub open spec fn client_name_header() -> Seq<char> {
    "apollographql-client-name"@
}

/// The headers sent upstream: those of the incoming request without `host`,
/// with `content-type`, the client name and `accept` set.
pub open spec fn outbound_headers(inbound: Seq<(Seq<char>, Seq<u8>)>) -> Seq<(Seq<char>, Seq<u8>)> {
    with_only(
        with_only(
            with_only(
                without(inbound, "host"@),
                "content-type"@,
                "application/json".spec_bytes(),
            ),
            client_name_header(),
            "rest_bridge".spec_bytes(),
        ),
        "accept"@,
        "*/*".spec_bytes(),
    )
}

/// Turns the headers of an incoming request into those sent upstream.
pub fn forward_headers(headers: Headers) -> (r: Headers)
    ensures
        r@ == outbound_headers(headers@),
{
    let mut h = headers;
    h.remove("host");
    h.set("content-type".to_string(), slice_to_vec("application/json".as_bytes()));
    h.set("apollographql-client-name".to_string(), slice_to_vec("rest_bridge".as_bytes()));
    h.set("accept".to_string(), slice_to_vec("*/*".as_bytes()));
    h
}

/// The JSON member `"name":value` of a variable.
pub open spec fn member_text(e: (Seq<char>, Seq<char>)) -> Seq<char> {
    json_quoted(e.0) + ":"@ + e.1
}

/// The JSON object of the variables, in their order.
pub open spec fn object_text(vars: Seq<(Seq<char>, Seq<char>)>) -> Seq<char> {
    "{"@ + comma_joined(vars.map_values(|e: (Seq<char>, Seq<char>)| member_text(e))) + "}"@
}

/// The body of the persisted-query request: the variables, left out where
/// there are none, and the query's id.
pub open spec fn request_body(pq_id: Seq<char>, vars: Seq<(Seq<char>, Seq<char>)>) -> Seq<char> {
    "{"@ + (if vars.len() == 0 {
        Seq::empty()
    } else {
        "\"variables\":"@ + object_text(vars) + ","@
    }) + "\"extensions\":{\"persistedQuery\":{\"sha256Hash\":"@ + json_quoted(pq_id)
        + ",\"version\":1}}}"@
}

/// Writes the variables as a JSON object.
pub fn variables_json(vars: &Variables) -> (r: String)
    ensures
        r@ == object_text(vars@),
{
    let ghost parts = vars@.map_values(|e: (Seq<char>, Seq<char>)| member_text(e));
    let mut out = "{".to_string();
    let mut i: usize = 0;
    while i < vars.len()
        invariant
            0 <= i <= vars@.len(),
            parts == vars@.map_values(|e: (Seq<char>, Seq<char>)| member_text(e)),
            out@ == "{"@ + comma_joined(parts.take(i as int)),
        decreases vars@.len() - i,
    {
        proof {
            lemma_comma_joined_step(parts, i as int);
        }
        let ghost prev = out@;
        let (name, value) = vars.entry(i);
        if i > 0 {
            out.append(",");
        }
        let q = quote(name.as_str());
        out.append(q.as_str());
        out.append(":");
        out.append(value.as_str());
        assert(parts[i as int] == member_text(vars@[i as int]));
        if i > 0 {
            assert(out@ =~= prev + ","@ + parts[i as int]);
        } else {
            assert(out@ =~= prev + parts[i as int]);
        }
        i = i + 1;
    }
    assert(parts.take(i as int) =~= parts);
    out.append("}");
    out
}

/// Writes the body of the persisted-query request for `pq_id`.
pub fn request_json(pq_id: &str, vars: &Variables) -> (r: String)
    ensures
        r@ == request_body(pq_id@, vars@),
{
    let mut out = "{".to_string();
    if vars.len() > 0 {
        out.append("\"variables\":");
        let o = variables_json(vars);
        out.append(o.as_str());
        out.append(",");
    }
    out.append("\"extensions\":{\"persistedQuery\":{\"sha256Hash\":");
    let q = quote(pq_id);
    out.append(q.as_str());
    out.append(",\"version\":1}}}");
    assert(out@ =~= request_body(pq_id@, vars@));
    out
}

} // verus!
