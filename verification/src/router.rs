//! The route table, its builder, and the lookup algorithm.
//!
//! A [`RouteBuilder`] collects `(method, pattern, handler)` registrations in
//! order; [`RouteBuilder::finish`] normalizes and compiles every pattern and
//! produces an immutable [`Router`], failing as a whole on the first
//! offending pattern. Registration is append-only: the same `(pattern,
//! method)` key may be registered more than once, and such entries are
//! disambiguated purely by registration order at lookup time.
//!
//! [`Router::find_handler`] scans the table in registration order. The
//! first route whose method equals the requested one and whose pattern
//! matches the path wins. When no such route exists, a `HEAD` request falls
//! back to the earliest matching `GET` route. Otherwise the lookup fails
//! with `MethodNotAllowed` when some route matched the path under another
//! method, and with `NotFound` when none matched at all.

use vstd::prelude::*;
use vstd::string::StringExecFns;

use crate::errors::BuildError;
use crate::errors::StatusCode;
use crate::matcher::capture_values;
use crate::matcher::get_capture_values;
use crate::matcher::pattern_matches;
use crate::matcher::regex_valid;
use crate::matcher::CompiledPattern;
use crate::method::Method;
use crate::method::MethodView;
use crate::pattern::normalize_pattern;
use crate::pattern::normalize_spec;
use crate::pattern::pattern_rooted;

verus! {

/// One compiled route. At the specification level a route is the triple
/// `(method, normalized pattern text, handler)`.
pub(crate) struct Route<H> {
    pub(crate) method: Method,
    pub(crate) pattern: CompiledPattern,
    pub(crate) handler: H,
}

impl<H> Route<H> {
    pub(crate) open spec fn entry(&self) -> (MethodView, Seq<char>, H) {
        (self.method@, self.pattern@, self.handler)
    }
}

/// Does the pattern of route `i` match `path`?
pub open spec fn match_at<H>(rs: Seq<(MethodView, Seq<char>, H)>, path: Seq<char>, i: int) -> bool {
    pattern_matches(rs[i].1, path)
}

/// Does any route's pattern match `path`, under any method?
pub open spec fn some_match<H>(rs: Seq<(MethodView, Seq<char>, H)>, path: Seq<char>) -> bool {
    exists|i: int| 0 <= i < rs.len() && #[trigger] match_at(rs, path, i)
}

/// Does route `i` match `path` under exactly the method `m`?
pub open spec fn method_match_at<H>(
    rs: Seq<(MethodView, Seq<char>, H)>,
    m: MethodView,
    path: Seq<char>,
    i: int,
) -> bool {
    rs[i].0 == m && match_at(rs, path, i)
}

/// Does any route match `path` under the method `m`?
pub open spec fn some_method_match<H>(
    rs: Seq<(MethodView, Seq<char>, H)>,
    m: MethodView,
    path: Seq<char>,
) -> bool {
    exists|i: int| 0 <= i < rs.len() && #[trigger] method_match_at(rs, m, path, i)
}

/// Does any route match `path` under a method other than `m`?
pub open spec fn some_other_method_match<H>(
    rs: Seq<(MethodView, Seq<char>, H)>,
    m: MethodView,
    path: Seq<char>,
) -> bool {
    exists|i: int| 0 <= i < rs.len() && rs[i].0 != m && #[trigger] match_at(rs, path, i)
}

/// The index of the earliest-registered route that matches `path` under the
/// method `m` (meaningful when [`some_method_match`] holds).
pub open spec fn first_method_match<H>(
    rs: Seq<(MethodView, Seq<char>, H)>,
    m: MethodView,
    path: Seq<char>,
) -> int
    decreases rs.len(),
{
    if rs.len() == 0 {
        0
    } else if method_match_at(rs, m, path, 0) {
        0
    } else {
        1 + first_method_match(rs.drop_first(), m, path)
    }
}

/// Law: among the routes that match a path under one method, the
/// earliest-registered one is the one [`first_method_match`] denotes — it
/// matches, and no route registered before it does.
pub proof fn lemma_first_method_match_is_first<H>(
    rs: Seq<(MethodView, Seq<char>, H)>,
    m: MethodView,
    path: Seq<char>,
)
    requires
        some_method_match(rs, m, path),
    ensures
        0 <= first_method_match(rs, m, path) < rs.len(),
        method_match_at(rs, m, path, first_method_match(rs, m, path)),
        forall|j: int|
            0 <= j < first_method_match(rs, m, path) ==> !method_match_at(rs, m, path, j),
    decreases rs.len(),
{
    if method_match_at(rs, m, path, 0) {
    } else {
        let d = rs.drop_first();
        let w = choose|i: int| 0 <= i < rs.len() && #[trigger] method_match_at(rs, m, path, i);
        assert(w != 0);
        assert(d[w - 1] == rs[w]);
        assert(method_match_at(d, m, path, w - 1));
        assert(some_method_match(d, m, path));
        lemma_first_method_match_is_first(d, m, path);
        let fd = first_method_match(d, m, path);
        assert(d[fd] == rs[fd + 1]);
        assert(method_match_at(rs, m, path, fd + 1));
        assert forall|j: int| 0 <= j < fd + 1 implies !method_match_at(rs, m, path, j) by {
            if j > 0 {
                assert(d[j - 1] == rs[j]);
                assert(!method_match_at(d, m, path, j - 1));
            }
        }
    }
}

/// The converse direction: an index that matches under `m`, with no earlier
/// such index, is [`first_method_match`].
pub(crate) proof fn lemma_first_method_match<H>(
    rs: Seq<(MethodView, Seq<char>, H)>,
    m: MethodView,
    path: Seq<char>,
    i: int,
)
    requires
        0 <= i < rs.len(),
        method_match_at(rs, m, path, i),
        forall|j: int| 0 <= j < i ==> !method_match_at(rs, m, path, j),
    ensures
        first_method_match(rs, m, path) == i,
    decreases i,
{
    if i == 0 {
    } else {
        assert(!method_match_at(rs, m, path, 0));
        let d = rs.drop_first();
        assert(d[i - 1] == rs[i]);
        assert(method_match_at(d, m, path, i - 1));
        assert forall|j: int| 0 <= j < i - 1 implies !method_match_at(d, m, path, j) by {
            assert(d[j] == rs[j + 1]);
            assert(!method_match_at(rs, m, path, j + 1));
        }
        lemma_first_method_match(d, m, path, i - 1);
    }
}

/// Is the registration `e` buildable: a rooted pattern whose normalized
/// form the regular-expression engine accepts?
pub open spec fn entry_ok<H>(e: (MethodView, Seq<char>, H)) -> bool {
    pattern_rooted(e.1) && regex_valid(normalize_spec(e.1))
}

/// Are all registrations buildable?
pub open spec fn entries_ok<H>(b: Seq<(MethodView, Seq<char>, H)>) -> bool {
    forall|i: int| 0 <= i < b.len() ==> entry_ok(#[trigger] b[i])
}

/// The registrations with every pattern replaced by its normalized form,
/// order preserved.
pub open spec fn normalize_entries<H>(b: Seq<(MethodView, Seq<char>, H)>) -> Seq<
    (MethodView, Seq<char>, H),
> {
    b.map_values(|e: (MethodView, Seq<char>, H)| (e.0, normalize_spec(e.1), e.2))
}

/// The index of the first registration that cannot be built (meaningful
/// when `!entries_ok(b)`).
pub open spec fn first_bad_entry<H>(b: Seq<(MethodView, Seq<char>, H)>) -> int
    decreases b.len(),
{
    if b.len() == 0 {
        0
    } else if !entry_ok(b[0]) {
        0
    } else {
        1 + first_bad_entry(b.drop_first())
    }
}

/// The error a failed build reports: decided by the first registration that
/// cannot be built — an unrooted pattern, or one the engine rejects.
pub open spec fn build_error_for<H>(b: Seq<(MethodView, Seq<char>, H)>) -> BuildError {
    if !pattern_rooted(b[first_bad_entry(b)].1) {
        BuildError::InvalidPattern
    } else {
        BuildError::PatternCompile
    }
}

/// An index that is not buildable, with every earlier index buildable, is
/// [`first_bad_entry`].
proof fn lemma_first_bad_entry<H>(b: Seq<(MethodView, Seq<char>, H)>, i: int)
    requires
        0 <= i < b.len(),
        !entry_ok(b[i]),
        forall|j: int| 0 <= j < i ==> entry_ok(#[trigger] b[j]),
    ensures
        first_bad_entry(b) == i,
    decreases i,
{
    if i == 0 {
    } else {
        assert(entry_ok(b[0]));
        let d = b.drop_first();
        assert(d[i - 1] == b[i]);
        assert forall|j: int| 0 <= j < i - 1 implies entry_ok(#[trigger] d[j]) by {
            assert(d[j] == b[j + 1]);
            assert(entry_ok(b[j + 1]));
        }
        lemma_first_bad_entry(d, i - 1);
    }
}

/// The spec-level registrations of a builder's raw entries.
pub(crate) open spec fn entries_view<H>(entries: Seq<(Method, String, H)>) -> Seq<
    (MethodView, Seq<char>, H),
> {
    entries.map_values(|e: (Method, String, H)| (e.0@, e.1@, e.2))
}

/// Normalize and compile every registration, in order, failing on the
/// first one that is unrooted or that the engine rejects.
pub(crate) fn build_routes<H>(entries: Vec<(Method, String, H)>) -> (r: Result<
    Vec<Route<H>>,
    BuildError,
>)
    ensures
        r is Ok <==> entries_ok(entries_view(entries@)),
        r matches Ok(routes) ==> routes@.map_values(|rt: Route<H>| rt.entry())
            == normalize_entries(entries_view(entries@)),
        r matches Err(e) ==> !entries_ok(entries_view(entries@)) && e == build_error_for(
            entries_view(entries@),
        ),
{
    let ghost b = entries_view(entries@);
    build_routes_at(entries, Ghost(b))
}

/// The work of [`build_routes`], with the spec-level registrations handed
/// in as a ghost value so that the loop can speak of them.
fn build_routes_at<H>(
    entries: Vec<(Method, String, H)>,
    Ghost(b): Ghost<Seq<(MethodView, Seq<char>, H)>>,
) -> (r: Result<Vec<Route<H>>, BuildError>)
    requires
        b == entries_view(entries@),
    ensures
        r is Ok <==> entries_ok(b),
        r matches Ok(routes) ==> routes@.map_values(|rt: Route<H>| rt.entry())
            == normalize_entries(b),
        r matches Err(e) ==> !entries_ok(b) && e == build_error_for(b),
{
    let mut routes: Vec<Route<H>> = Vec::new();
    let mut rest = entries;
    while rest.len() > 0
        invariant
            routes@.len() + rest@.len() == b.len(),
            forall|j: int| 0 <= j < routes@.len() ==> entry_ok(#[trigger] b[j]),
            forall|j: int|
                0 <= j < routes@.len() ==> (#[trigger] routes@[j]).entry() == (
                    b[j].0,
                    normalize_spec(b[j].1),
                    b[j].2,
                ),
            forall|j: int|
                0 <= j < rest@.len() ==> ((#[trigger] rest@[j]).0@, rest@[j].1@, rest@[j].2) == b[
                    routes@.len() + j
                ],
        decreases rest@.len(),
    {
        let ghost i = routes@.len() as int;
        proof {
            assert((rest@[0].0@, rest@[0].1@, rest@[0].2) == b[i]);
        }
        let (method, pattern, handler) = rest.remove(0);
        match normalize_pattern(pattern.as_str()) {
            Err(_) => {
                proof {
                    assert(!pattern_rooted(b[i].1));
                    assert(!entry_ok(b[i]));
                    lemma_first_bad_entry(b, i);
                }
                return Err(BuildError::InvalidPattern);
            },
            Ok(normalized) => {
                match CompiledPattern::compile(normalized.as_str()) {
                    Err(_) => {
                        proof {
                            assert(!regex_valid(normalize_spec(b[i].1)));
                            assert(!entry_ok(b[i]));
                            lemma_first_bad_entry(b, i);
                        }
                        return Err(BuildError::PatternCompile);
                    },
                    Ok(compiled) => {
                        routes.push(Route { method, pattern: compiled, handler });
                        proof {
                            assert(routes@[i].entry() == (b[i].0, normalize_spec(b[i].1), b[i].2));
                        }
                    },
                }
            },
        }
    }
    proof {
        assert(routes@.map_values(|rt: Route<H>| rt.entry()) =~= normalize_entries(b));
    }
    Ok(routes)
}

/// Collects route registrations in order; consumed by [`RouteBuilder::finish`].
///
/// Registration is append-only: registering the same pattern twice, under
/// the same or different methods, keeps both entries, and lookups pick the
/// earliest-registered match.
///
/// Its view is the registered `(method, raw pattern, handler)` triples in
/// registration order.
pub struct RouteBuilder<H> {
    routes: Vec<(Method, String, H)>,
}

impl<H> View for RouteBuilder<H> {
    type V = Seq<(MethodView, Seq<char>, H)>;

    closed spec fn view(&self) -> Seq<(MethodView, Seq<char>, H)> {
        entries_view(self.routes@)
    }
}

impl<H> RouteBuilder<H> {
    /// A builder with no registrations.
    pub fn new() -> (r: RouteBuilder<H>)
        ensures
            r@ == Seq::<(MethodView, Seq<char>, H)>::empty(),
    {
        let r = RouteBuilder { routes: Vec::new() };
        proof {
            assert(r@ =~= Seq::<(MethodView, Seq<char>, H)>::empty());
        }
        r
    }

    /// Register `handler` for requests of `method` whose path matches
    /// `pattern`.
    pub fn route(self, method: Method, pattern: &str, handler: H) -> (r: RouteBuilder<H>)
        ensures
            r@ == self@.push((method@, pattern@, handler)),
    {
        let ghost mv = method@;
        let mut this = self;
        this.routes.push((method, String::from_str(pattern), handler));
        proof {
            assert(this@ =~= self@.push((mv, pattern@, handler)));
        }
        this
    }

    /// Register `handler` for `GET` requests on `pattern`.
    pub fn get(self, pattern: &str, handler: H) -> (r: RouteBuilder<H>)
        ensures
            r@ == self@.push((MethodView::Get, pattern@, handler)),
    {
        self.route(Method::Get, pattern, handler)
    }

    /// Register `handler` for `POST` requests on `pattern`.
    pub fn post(self, pattern: &str, handler: H) -> (r: RouteBuilder<H>)
        ensures
            r@ == self@.push((MethodView::Post, pattern@, handler)),
    {
        self.route(Method::Post, pattern, handler)
    }

    /// Build the route table: normalize and compile every registered
    /// pattern, in registration order. Fails as a whole — reporting the
    /// first offending registration — and builds no table if any pattern is
    /// unrooted or rejected by the engine.
    pub fn finish(self) -> (r: Result<Router<H>, BuildError>)
        ensures
            r is Ok <==> entries_ok(self@),
            r matches Ok(router) ==> router@ == normalize_entries(self@),
            r matches Err(e) ==> !entries_ok(self@) && e == build_error_for(self@),
    {
        match build_routes(self.routes) {
            Ok(routes) => Ok(Router { routes }),
            Err(e) => Err(e),
        }
    }
}

impl<H> Default for RouteBuilder<H> {
    /// A builder with no registrations.
    fn default() -> (r: RouteBuilder<H>)
        ensures
            r@ == Seq::<(MethodView, Seq<char>, H)>::empty(),
    {
        RouteBuilder::new()
    }
}

/// An immutable table of compiled routes, in registration order.
///
/// Its view is the `(method, normalized pattern, handler)` triples; all
/// lookup contracts are stated over it.
pub struct Router<H> {
    routes: Vec<Route<H>>,
}

impl<H> View for Router<H> {
    type V = Seq<(MethodView, Seq<char>, H)>;

    closed spec fn view(&self) -> Seq<(MethodView, Seq<char>, H)> {
        self.routes@.map_values(|rt: Route<H>| rt.entry())
    }
}

impl<H> Router<H> {
    /// The number of routes in the table.
    pub fn len(&self) -> (n: usize)
        ensures
            n == self@.len(),
    {
        self.routes.len()
    }

    /// Find the handler for a request, scanning the table in registration
    /// order.
    ///
    /// The earliest route whose method equals `method` and whose pattern
    /// matches `path` wins; its handler is returned with the substrings its
    /// pattern captured from the path. When no route matches under
    /// `method` and the request is a `HEAD`, the earliest matching `GET`
    /// route is returned instead. Otherwise the lookup fails: with
    /// `MethodNotAllowed` when some route matched the path under a
    /// different method, and with `NotFound` when no route matched the
    /// path at all.
    #[verifier::rlimit(30)]
    pub fn find_handler<'a>(&'a self, path: &str, method: &Method) -> (r: Result<
        (&'a H, Vec<String>),
        StatusCode,
    >)
        ensures
            ({
                let rs = self@;
                let p = path@;
                let m = method@;
                &&& (some_method_match(rs, m, p) ==> (r matches Ok(hc) && {
                    let i = first_method_match(rs, m, p);
                    &&& *hc.0 == rs[i].2
                    &&& hc.1.deep_view() == capture_values(rs[i].1, p)
                }))
                &&& (!some_method_match(rs, m, p) && m == MethodView::Head && some_method_match(
                    rs,
                    MethodView::Get,
                    p,
                ) ==> (r matches Ok(hc) && {
                    let i = first_method_match(rs, MethodView::Get, p);
                    &&& *hc.0 == rs[i].2
                    &&& hc.1.deep_view() == capture_values(rs[i].1, p)
                }))
                &&& (!some_method_match(rs, m, p) && !(m == MethodView::Head && some_method_match(
                    rs,
                    MethodView::Get,
                    p,
                )) ==> (r matches Err(c) && c == (if some_other_method_match(rs, m, p) {
                    StatusCode::MethodNotAllowed
                } else {
                    StatusCode::NotFound
                })))
                &&& (!some_match(rs, p) ==> (r matches Err(c) && c == StatusCode::NotFound))
                &&& (some_match(rs, p) && !some_method_match(rs, m, p) && !(m == MethodView::Head
                    && some_method_match(rs, MethodView::Get, p)) ==> (r matches Err(c) && c
                    == StatusCode::MethodNotAllowed))
            }),
    {
        let ghost rs = self@;
        let ghost p = path@;
        let ghost m = method@;
        let n = self.routes.len();
        let mut found_other_method = false;
        let mut get_route: Option<(usize, Vec<String>)> = None;
        let mut i: usize = 0;
        while i < n
            invariant
                rs == self@,
                p == path@,
                m == method@,
                n == self.routes@.len(),
                rs.len() == n,
                0 <= i <= n,
                forall|j: int| 0 <= j < i ==> !method_match_at(rs, m, p, j),
                found_other_method <==> exists|j: int|
                    0 <= j < i && rs[j].0 != m && #[trigger] match_at(rs, p, j),
                (match get_route {
                    Some(pr) => {
                        &&& pr.0 < i
                        &&& rs[pr.0 as int].0 == MethodView::Get
                        &&& rs[pr.0 as int].0 != m
                        &&& match_at(rs, p, pr.0 as int)
                        &&& forall|k: int|
                            0 <= k < pr.0 ==> !method_match_at(rs, MethodView::Get, p, k)
                        &&& pr.1.deep_view() == capture_values(rs[pr.0 as int].1, p)
                    },
                    None => forall|j: int|
                        0 <= j < i ==> !(rs[j].0 == MethodView::Get && rs[j].0 != m
                            && #[trigger] match_at(rs, p, j)),
                }),
            decreases n - i,
        {
            let route = &self.routes[i];
            proof {
                assert(rs[i as int] == route.entry());
            }
            if route.method == *method {
                proof {
                    assert(rs[i as int].0 == m);
                }
                match get_capture_values(&route.pattern, path) {
                    Some(cap) => {
                        proof {
                            assert(method_match_at(rs, m, p, i as int));
                            lemma_first_method_match(rs, m, p, i as int);
                        }
                        return Ok((&route.handler, cap));
                    },
                    None => {
                        proof {
                            assert(!match_at(rs, p, i as int));
                        }
                    },
                }
            } else {
                proof {
                    assert(rs[i as int].0 != m);
                }
                match get_capture_values(&route.pattern, path) {
                    Some(cap) => {
                        proof {
                            assert(match_at(rs, p, i as int));
                        }
                        found_other_method = true;
                        if route.method == Method::Get && get_route.is_none() {
                            proof {
                                assert(rs[i as int].0 == MethodView::Get);
                            }
                            get_route = Some((i, cap));
                        }
                    },
                    None => {
                        proof {
                            assert(!match_at(rs, p, i as int));
                        }
                    },
                }
            }
            i = i + 1;
        }
        proof {
            assert(!some_method_match(rs, m, p));
            if some_match(rs, p) {
                let w = choose|j: int| 0 <= j < rs.len() && #[trigger] match_at(rs, p, j);
                assert(!method_match_at(rs, m, p, w));
                assert(rs[w].0 != m);
                assert(some_other_method_match(rs, m, p));
                assert(found_other_method);
            }
            if found_other_method {
                assert(some_match(rs, p));
            }
        }
        let code = if found_other_method {
            StatusCode::MethodNotAllowed
        } else {
            StatusCode::NotFound
        };
        if *method == Method::Head {
            proof {
                assert(m == MethodView::Head);
            }
            match get_route {
                Some((j, cap)) => {
                    proof {
                        assert(method_match_at(rs, MethodView::Get, p, j as int));
                        lemma_first_method_match(rs, MethodView::Get, p, j as int);
                    }
                    Ok((&self.routes[j].handler, cap))
                },
                None => {
                    proof {
                        assert forall|k: int|
                            0 <= k < rs.len() implies !method_match_at(
                            rs,
                            MethodView::Get,
                            p,
                            k,
                        ) by {
                            assert(!(rs[k].0 == MethodView::Get && rs[k].0 != m && match_at(
                                rs,
                                p,
                                k,
                            )));
                        }
                        assert(!some_method_match(rs, MethodView::Get, p));
                    }
                    Err(code)
                },
            }
        } else {
            proof {
                assert(m != MethodView::Head);
            }
            Err(code)
        }
    }
}

} // verus!
