//! The route table: where each configured endpoint is served.
use crate::config::{Config, Endpoint, HttpMethod};
use vstd::prelude::*;
use vstd::string::StringExecFns;

verus! {

/// An endpoint served at a method and a full path.
pub struct Route {
    pub method: HttpMethod,
    pub path: String,
    /// The position of the endpoint in the configuration
    pub endpoint: usize,
}

/// Why the configured endpoints cannot all be served.
pub enum RouteError {
    /// Two endpoints claim this method and path.
    Duplicate { method: HttpMethod, path: String },
}

/// The method and full path of each configured endpoint, in order.
pub open spec fn route_keys(config: Config) -> Seq<(HttpMethod, Seq<char>)> {
    config.endpoints@.map_values(
        |e: Endpoint| (e.method, config.common.path_prefix@ + e.path@),
    )
}

/// The `j`-th key equals an earlier one.
pub open spec fn repeats_earlier(keys: Seq<(HttpMethod, Seq<char>)>, j: int) -> bool {
    exists|i: int| 0 <= i < j && keys[i] == #[trigger] keys[j]
}

/// Builds the route of each configured endpoint, at the path prefix followed
/// by the endpoint's path; fails at the first endpoint whose method and path
/// an earlier one already has.
pub fn route_table(config: &Config) -> (r: Result<Vec<Route>, RouteError>)
    ensures
        r is Ok <==> forall|j: int|
            0 <= j < route_keys(*config).len() ==> !repeats_earlier(route_keys(*config), j),
        r matches Ok(v) ==> {
            &&& v.len() == config.endpoints.len()
            &&& forall|i: int|
                0 <= i < v.len() ==> (#[trigger] v[i].method, v[i].path@) == route_keys(
                    *config,
                )[i] && v[i].endpoint == i
        },
        r matches Err(RouteError::Duplicate { method, path }) ==> exists|j: int|
            {
                &&& 0 <= j < route_keys(*config).len()
                &&& #[trigger] repeats_earlier(route_keys(*config), j)
                &&& forall|k: int| 0 <= k < j ==> !repeats_earlier(route_keys(*config), k)
                &&& route_keys(*config)[j] == (method, path@)
            },
{
    let ghost keys = route_keys(*config);
    let mut routes: Vec<Route> = Vec::new();
    let mut j: usize = 0;
    while j < config.endpoints.len()
        invariant
            0 <= j <= config.endpoints.len(),
            keys == route_keys(*config),
            keys.len() == config.endpoints.len(),
            routes.len() == j,
            forall|i: int|
                0 <= i < j ==> (#[trigger] routes[i].method, routes[i].path@) == keys[i]
                    && routes[i].endpoint == i,
            forall|k: int| 0 <= k < j ==> !repeats_earlier(keys, k),
        decreases config.endpoints.len() - j,
    {
        let e = &config.endpoints[j];
        let mut path = config.common.path_prefix.clone();
        path.append(e.path.as_str());
        assert((e.method, path@) == keys[j as int]);
        let mut i: usize = 0;
        while i < j
            invariant
                0 <= i <= j,
                j < keys.len(),
                keys == route_keys(*config),
                forall|k: int| 0 <= k < j ==> !repeats_earlier(keys, k),
                routes.len() == j,
                (e.method, path@) == keys[j as int],
                forall|k: int|
                    0 <= k < j ==> (#[trigger] routes[k].method, routes[k].path@) == keys[k],
                forall|k: int| 0 <= k < i ==> keys[k] != keys[j as int],
            decreases j - i,
        {
            if routes[i].method == e.method && routes[i].path == path {
                assert(keys[i as int] == keys[j as int]);
                assert(repeats_earlier(keys, j as int));
                return Err(RouteError::Duplicate { method: e.method, path });
            }
            i = i + 1;
        }
        assert(!repeats_earlier(keys, j as int));
        routes.push(Route { method: e.method, path, endpoint: j });
        j = j + 1;
    }
    Ok(routes)
}

} // verus!
