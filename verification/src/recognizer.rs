//! A simpler route recognizer keyed by method, with named captures.
//!
//! [`RegexRoutesBuilder`] collects registrations in order and
//! [`RegexRoutesBuilder::finish`] compiles them into a
//! [`RegexRouteRecognizer`]. Lookup considers only the routes registered
//! under the requested method, in registration order, and returns the first
//! whose pattern matches the path, together with its captures paired with
//! the capture groups' names; any miss — a path registered only under
//! another method included — is reported as `NotFound`. The tie-breaking
//! between methods that [`crate::router::Router::find_handler`] performs
//! has no counterpart here.

use vstd::prelude::*;
use vstd::string::StringExecFns;

use crate::errors::BuildError;
use crate::errors::StatusCode;
use crate::matcher::capture_pairs;
use crate::matcher::get_owned_captures;
use crate::method::Method;
use crate::method::MethodView;
use crate::router::build_error_for;
use crate::router::build_routes;
use crate::router::entries_ok;
use crate::router::entries_view;
use crate::router::first_method_match;
use crate::router::lemma_first_method_match;
use crate::router::match_at;
use crate::router::method_match_at;
use crate::router::normalize_entries;
use crate::router::some_method_match;
use crate::router::Route;

verus! {

/// The captures of a successful match: one `(name, value)` pair per capture
/// group, in group order, the whole-pattern match excluded. Positional
/// groups carry no name.
pub type Captures = Vec<(Option<String>, String)>;

/// Collects route registrations in order; consumed by
/// [`RegexRoutesBuilder::finish`]. Registration is append-only, as for
/// [`crate::router::RouteBuilder`].
///
/// Its view is the registered `(method, raw pattern, handler)` triples in
/// registration order.
pub struct RegexRoutesBuilder<H> {
    routes: Vec<(Method, String, H)>,
}

impl<H> View for RegexRoutesBuilder<H> {
    type V = Seq<(MethodView, Seq<char>, H)>;

    closed spec fn view(&self) -> Seq<(MethodView, Seq<char>, H)> {
        entries_view(self.routes@)
    }
}

impl<H> RegexRoutesBuilder<H> {
    /// A builder with no registrations.
    pub fn new() -> (r: RegexRoutesBuilder<H>)
        ensures
            r@ == Seq::<(MethodView, Seq<char>, H)>::empty(),
    {
        let r = RegexRoutesBuilder { routes: Vec::new() };
        proof {
            assert(r@ =~= Seq::<(MethodView, Seq<char>, H)>::empty());
        }
        r
    }

    /// Register `handler` for requests of `method` whose path matches
    /// `pattern`.
    pub fn route(self, method: Method, pattern: &str, handler: H) -> (r: RegexRoutesBuilder<H>)
        ensures
            r@ == self@.push((method@, pattern@, handler)),
    {
        let ghost mv = method@;
        let mut this = self;
        this.routes.push((method, String::from_str(pattern), handler));
        proof {
            assert(this@ =~= self@.push((mv, pattern@, handler)));
        }
        this
    }

    /// Register `handler` for `GET` requests on `pattern`.
    pub fn get(self, pattern: &str, handler: H) -> (r: RegexRoutesBuilder<H>)
        ensures
            r@ == self@.push((MethodView::Get, pattern@, handler)),
    {
        self.route(Method::Get, pattern, handler)
    }

    /// Register `handler` for `POST` requests on `pattern`.
    pub fn post(self, pattern: &str, handler: H) -> (r: RegexRoutesBuilder<H>)
        ensures
            r@ == self@.push((MethodView::Post, pattern@, handler)),
    {
        self.route(Method::Post, pattern, handler)
    }

    /// Register `handler` for `PUT` requests on `pattern`.
    pub fn put(self, pattern: &str, handler: H) -> (r: RegexRoutesBuilder<H>)
        ensures
            r@ == self@.push((MethodView::Put, pattern@, handler)),
    {
        self.route(Method::Put, pattern, handler)
    }

    /// Register `handler` for `DELETE` requests on `pattern`.
    pub fn delete(self, pattern: &str, handler: H) -> (r: RegexRoutesBuilder<H>)
        ensures
            r@ == self@.push((MethodView::Delete, pattern@, handler)),
    {
        self.route(Method::Delete, pattern, handler)
    }

    /// Register `handler` for `HEAD` requests on `pattern`.
    pub fn head(self, pattern: &str, handler: H) -> (r: RegexRoutesBuilder<H>)
        ensures
            r@ == self@.push((MethodView::Head, pattern@, handler)),
    {
        self.route(Method::Head, pattern, handler)
    }

    /// Register `handler` for `OPTIONS` requests on `pattern`.
    pub fn options(self, pattern: &str, handler: H) -> (r: RegexRoutesBuilder<H>)
        ensures
            r@ == self@.push((MethodView::Options, pattern@, handler)),
    {
        self.route(Method::Options, pattern, handler)
    }

    /// Build the recognizer: normalize and compile every registered
    /// pattern, in registration order. Fails as a whole — reporting the
    /// first offending registration — if any pattern is unrooted or
    /// rejected by the engine.
    pub fn finish(self) -> (r: Result<RegexRouteRecognizer<H>, BuildError>)
        ensures
            r is Ok <==> entries_ok(self@),
            r matches Ok(rec) ==> rec@ == normalize_entries(self@),
            r matches Err(e) ==> !entries_ok(self@) && e == build_error_for(self@),
    {
        match build_routes(self.routes) {
            Ok(routes) => Ok(RegexRouteRecognizer { routes }),
            Err(e) => Err(e),
        }
    }
}

impl<H> Default for RegexRoutesBuilder<H> {
    /// A builder with no registrations.
    fn default() -> (r: RegexRoutesBuilder<H>)
        ensures
            r@ == Seq::<(MethodView, Seq<char>, H)>::empty(),
    {
        RegexRoutesBuilder::new()
    }
}

/// An immutable table of compiled routes looked up by exact method.
///
/// Its view is the `(method, normalized pattern, handler)` triples in
/// registration order.
pub struct RegexRouteRecognizer<H> {
    routes: Vec<Route<H>>,
}

impl<H> View for RegexRouteRecognizer<H> {
    type V = Seq<(MethodView, Seq<char>, H)>;

    closed spec fn view(&self) -> Seq<(MethodView, Seq<char>, H)> {
        self.routes@.map_values(|rt: Route<H>| rt.entry())
    }
}

impl<H> RegexRouteRecognizer<H> {
    /// The number of routes in the table.
    pub fn len(&self) -> (n: usize)
        ensures
            n == self@.len(),
    {
        self.routes.len()
    }

    /// Find the handler for a request among the routes registered under
    /// exactly `method`, in registration order.
    ///
    /// The earliest such route whose pattern matches `path` wins; its
    /// handler is returned with the named captures its pattern extracted
    /// from the path. Any miss is `NotFound`: this recognizer draws no
    /// distinction for paths registered only under other methods.
    pub fn recognize<'a>(&'a self, method: &Method, path: &str) -> (r: Result<
        (&'a H, Captures),
        StatusCode,
    >)
        ensures
            ({
                let rs = self@;
                let p = path@;
                let m = method@;
                &&& (some_method_match(rs, m, p) ==> (r matches Ok(hc) && {
                    let i = first_method_match(rs, m, p);
                    &&& *hc.0 == rs[i].2
                    &&& hc.1.deep_view() == capture_pairs(rs[i].1, p)
                }))
                &&& (!some_method_match(rs, m, p) ==> (r matches Err(c) && c
                    == StatusCode::NotFound))
            }),
    {
        let ghost rs = self@;
        let ghost p = path@;
        let ghost m = method@;
        let n = self.routes.len();
        let mut i: usize = 0;
        while i < n
            invariant
                rs == self@,
                p == path@,
                m == method@,
                n == self.routes@.len(),
                rs.len() == n,
                0 <= i <= n,
                forall|j: int| 0 <= j < i ==> !method_match_at(rs, m, p, j),
            decreases n - i,
        {
            let route = &self.routes[i];
            proof {
                assert(rs[i as int] == route.entry());
            }
            if route.method == *method {
                proof {
                    assert(rs[i as int].0 == m);
                }
                match get_owned_captures(&route.pattern, path) {
                    Some(cap) => {
                        proof {
                            assert(method_match_at(rs, m, p, i as int));
                            lemma_first_method_match(rs, m, p, i as int);
                        }
                        return Ok((&route.handler, cap));
                    },
                    None => {
                        proof {
                            assert(!match_at(rs, p, i as int));
                        }
                    },
                }
            } else {
                proof {
                    assert(rs[i as int].0 != m);
                    assert(!method_match_at(rs, m, p, i as int));
                }
            }
            i = i + 1;
        }
        proof {
            assert(!some_method_match(rs, m, p));
        }
        Err(StatusCode::NotFound)
    }
}

} // verus!
