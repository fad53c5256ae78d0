//! The upgrade gate: decides what to do with the first request of a connection.

use vstd::prelude::*;

verus! {

/// What the acceptor does with one request.
#[derive(Clone, Copy, Debug, PartialEq, Eq, Structural)]
pub enum Route {
    /// Perform the duplex handshake, whatever the path.
    Upgrade,
    /// Answer with the index document.
    Index,
    /// Answer with the script asset, typed as JavaScript.
    Script,
    /// Answer with the not-found document.
    NotFound,
    /// Answer with an empty successful response.
    Empty,
}

pub open spec fn route_spec(is_upgrade: bool, is_get: bool, path: Seq<char>) -> Route {
    if is_upgrade {
        Route::Upgrade
    } else if !is_get {
        Route::Empty
    } else if path == "/"@ {
        Route::Index
    } else if path == "/dist/data-collection.js"@ {
        Route::Script
    } else {
        Route::NotFound
    }
}

/// The asset file that answers a route, if it is served from disk.
pub open spec fn asset_path_spec(r: Route) -> Option<Seq<char>> {
    match r {
        Route::Index => Some("frontend/index.html"@),
        Route::Script => Some("frontend/dist/data-collection.js"@),
        Route::NotFound => Some("frontend/404.html"@),
        _ => None,
    }
}

/// The content type that a route's answer declares, if any.
pub open spec fn content_type_spec(r: Route) -> Option<Seq<char>> {
    match r {
        Route::Script => Some("application/javascript"@),
        _ => None,
    }
}

impl Route {
    /// The asset file that answers this route, if it is served from disk.
    pub fn asset_path(&self) -> (r: Option<&'static str>)
        ensures
            r matches Some(p) ==> asset_path_spec(*self) == Some(p@),
            r is None <==> asset_path_spec(*self) is None,
    {
        match self {
            Route::Index => Some("frontend/index.html"),
            Route::Script => Some("frontend/dist/data-collection.js"),
            Route::NotFound => Some("frontend/404.html"),
            _ => None,
        }
    }

    /// The content type that this route's answer declares, if any.
    pub fn content_type(&self) -> (r: Option<&'static str>)
        ensures
            r matches Some(p) ==> content_type_spec(*self) == Some(p@),
            r is None <==> content_type_spec(*self) is None,
    {
        match self {
            Route::Script => Some("application/javascript"),
            _ => None,
        }
    }
}

fn same_text(a: &str, b: &str) -> (r: bool)
    ensures
        r == (a@ == b@),
{
    let x = a.to_owned();
    let y = b.to_owned();
    x == y
}

/// Classifies a request: an upgrade request is promoted regardless of its
/// path; other `GET` requests are served from the asset table; any other
/// method gets an empty successful response.
pub fn route(is_upgrade: bool, is_get: bool, path: &str) -> (r: Route)
    ensures
        r == route_spec(is_upgrade, is_get, path@),
{
    if is_upgrade {
        Route::Upgrade
    } else if !is_get {
        Route::Empty
    } else if same_text(path, "/") {
        Route::Index
    } else if same_text(path, "/dist/data-collection.js") {
        Route::Script
    } else {
        Route::NotFound
    }
}

} // verus!
