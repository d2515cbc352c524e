//! The development server: its configuration and how it answers a request
//! from the route registry.

use vstd::prelude::*;
use crate::error::RotivError;
use crate::proxy::InvokeRequest;
use crate::router::discovery::RouteEntry;
use crate::router::matcher::spec_matches;
use crate::router::registry::{RouteRegistry, found_at, none_found};
use crate::paths::file_name;
use crate::text::{chars_of, copy_str, decimal, decimal_string, string_from};

verus! {

/// Configuration for the development server.
#[derive(Debug)]
pub struct DevServerConfig {
    pub port: u16,
    pub host: String,
    pub project_dir: String,
    pub worker_port: u16,
    pub json_output: bool,
}

/// The development server.
#[derive(Debug)]
pub struct DevServer {
    pub config: DevServerConfig,
}

impl DevServer {
    /// A server with the given configuration.
    pub fn new(config: DevServerConfig) -> (r: Self)
        ensures
            r.config == config,
    {
        DevServer { config }
    }
}

/// The worker port the `dev` command uses: the one after the server's.
pub fn worker_port_for(port: u16) -> (r: u16)
    requires
        port < u16::MAX,
    ensures
        r == port + 1,
{
    port + 1
}

/// The ports tried for the worker, in order: `preferred` and the nine after it.
pub fn port_candidates(preferred: u16) -> (r: Vec<u16>)
    requires
        preferred <= u16::MAX - 10,
    ensures
        r@.len() == 10,
        forall|i: int| 0 <= i < 10 ==> #[trigger] r@[i] == preferred + i,
{
    let mut v: Vec<u16> = Vec::new();
    let mut p = preferred;
    while p < preferred + 10
        invariant
            preferred <= p <= preferred + 10,
            preferred <= u16::MAX - 10,
            v@.len() == p - preferred,
            forall|i: int| 0 <= i < v@.len() ==> #[trigger] v@[i] == preferred + i,
        decreases preferred + 10 - p,
    {
        v.push(p);
        p = p + 1;
    }
    v
}

/// The address the server binds: `host:port`.
pub fn listen_addr(host: &str, port: u16) -> (r: String)
    ensures
        r@ == host@ + ":"@ + decimal(port as nat),
{
    let mut s = copy_str(host);
    s.append(":");
    let p = decimal_string(port as u64);
    s.append(p.as_str());
    s
}

/// The error for an address that could not be bound (`E_BIND`).
pub fn bind_error(addr: &str, detail: &str, port: u16) -> (r: RotivError)
    ensures
        r.code@ == "E_BIND"@,
        r.message@ == "failed to bind to "@ + addr@ + ": "@ + detail@,
        r.suggestion matches Some(s) && s@ == "Try a different port with --port, or check if port "@ + decimal(port as nat)
            + " is already in use"@,
        r.file is None && r.line is None && r.expected is None && r.got is None && r.corrected_code is None,
{
    let mut msg = copy_str("failed to bind to ");
    msg.append(addr);
    msg.append(": ");
    msg.append(detail);
    let mut hint = copy_str("Try a different port with --port, or check if port ");
    let p = decimal_string(port as u64);
    hint.append(p.as_str());
    hint.append(" is already in use");
    RotivError::new("E_BIND", msg.as_str()).with_suggestion(hint.as_str())
}

/// The query part handed to the worker: `?` and the query, or nothing.
pub fn search_params_of(query: Option<&str>) -> (r: String)
    ensures
        r@ == match query {
            Some(q) => "?"@ + q@,
            None => Seq::empty(),
        },
{
    match query {
        Some(q) => {
            let mut s = copy_str("?");
            s.append(q);
            s
        },
        None => String::new(),
    }
}

/// The label of a route in the route listing.
pub fn route_label(is_api_only: bool) -> (r: &'static str)
    ensures
        r@ == if is_api_only { "API"@ } else { "GET"@ },
{
    if is_api_only { "API" } else { "GET" }
}

/// How the server answers a request.
#[derive(Debug)]
pub enum Dispatch {
    /// No route serves the path: a 404 with this body.
    NotFound(String),
    /// Forward the request to the worker.
    Invoke(InvokeRequest),
}

/// The answer to a request for `path`: the registry's route for it, with the
/// parameters its pattern extracts, forwarded to the worker; a 404 naming the
/// path when no route serves it.
pub fn dispatch(
    registry: &RouteRegistry,
    path: &str,
    method: String,
    query: Option<&str>,
    headers: Vec<(String, String)>,
    body: Option<String>,
) -> (r: Dispatch)
    ensures
        r is NotFound <==> none_found(registry.spec_entries(), path@),
        r matches Dispatch::NotFound(b) ==> b@ == "No route for "@ + path@,
        r matches Dispatch::Invoke(req) ==> exists|i: int| #[trigger] found_at(registry.spec_entries(), path@, i) && {
            let e = registry.spec_entries()[i];
            &&& req.route_file@ == e.file_path@
            &&& req.params@ == match spec_matches(e.route_path@, path@) {
                Some(m) => m,
                None => Map::empty(),
            }
        },
        r matches Dispatch::Invoke(req) ==> {
            &&& req.method == method
            &&& req.search_params@ == match query {
                Some(q) => "?"@ + q@,
                None => Seq::empty(),
            }
            &&& req.headers == headers
            &&& req.body == body
        },
{
    match registry.find_by_path(path) {
        None => {
            let mut b = copy_str("No route for ");
            b.append(path);
            proof {
                assert(none_found(registry.spec_entries(), path@));
            }
            Dispatch::NotFound(b)
        },
        Some(entry) => {
            let params = registry.extract_params(entry, path);
            proof {
                let i = choose|i: int| #[trigger] found_at(registry.spec_entries(), path@, i) && *entry == registry.spec_entries()[i];
                assert(found_at(registry.spec_entries(), path@, i));
                assert(!none_found(registry.spec_entries(), path@)) by {
                    let s = registry.spec_entries();
                    if s[i].route_path@ == path@ {
                    } else {
                        assert(spec_matches(s[i].route_path@, path@) is Some);
                    }
                }
            }
            Dispatch::Invoke(InvokeRequest {
                route_file: entry.file_path.clone(),
                method,
                params,
                search_params: search_params_of(query),
                headers,
                body,
            })
        },
    }
}


/// The line listing a route when the server starts: its label, its path and
/// its file's name below `app/routes/`.
pub fn route_line(entry: &RouteEntry) -> (r: String)
    ensures
        r@ == "  "@ + (if entry.is_api_only { "API"@ } else { "GET"@ }) + "  "@ + entry.route_path@ + "  →  app/routes/"@
            + match file_name(entry.file_path@) {
                Some(n) => n,
                None => Seq::empty(),
            },
{
    let mut s = copy_str("  ");
    s.append(route_label(entry.is_api_only));
    s.append("  ");
    s.append(entry.route_path.as_str());
    s.append("  →  app/routes/");
    let p = chars_of(entry.file_path.as_str());
    match crate::paths::file_name_chars(&p) {
        Some(n) => {
            let t = string_from(&n);
            s.append(t.as_str());
        },
        None => {},
    }
    s
}

} // verus!
