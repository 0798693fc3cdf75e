//! Routes and their lookup: a route answers the requests whose method is its
//! method and whose path has the components of its path.

use crate::http::method::Method;
use crate::text::{path_components, unix_path_components};
use vstd::prelude::*;
use vstd::string::*;

verus! {

/// Whether two texts are equal.
fn same_str(a: &str, b: &str) -> (r: bool)
    ensures
        r == (a@ == b@),
{
    let n = a.unicode_len();
    if n != b.unicode_len() {
        return false;
    }
    let mut i: usize = 0;
    while i < n
        invariant
            n == a@.len(),
            n == b@.len(),
            i <= n,
            forall|j: int| 0 <= j < i ==> a@[j] == b@[j],
        decreases n - i,
    {
        if a.get_char(i) != b.get_char(i) {
            return false;
        }
        i = i + 1;
    }
    assert(a@ =~= b@);
    true
}

/// Whether two Unix paths are equal as `Path`s are: component by component.
pub fn same_path(a: &str, b: &str) -> (r: bool)
    ensures
        r == (unix_path_components(a@) == unix_path_components(b@)),
{
    let ca = path_components(a);
    let cb = path_components(b);
    let ghost ua = unix_path_components(a@);
    let ghost ub = unix_path_components(b@);
    if ca.len() != cb.len() {
        return false;
    }
    let mut i: usize = 0;
    while i < ca.len()
        invariant
            ua == unix_path_components(a@),
            ub == unix_path_components(b@),
            ca@.len() == cb@.len(),
            ca@.len() == ua.len(),
            cb@.len() == ub.len(),
            forall|j: int| 0 <= j < ca@.len() ==> (#[trigger] ca@[j])@ == ua[j],
            forall|j: int| 0 <= j < cb@.len() ==> (#[trigger] cb@[j])@ == ub[j],
            i <= ca@.len(),
            forall|j: int| 0 <= j < i ==> ua[j] == ub[j],
        decreases ca@.len() - i,
    {
        if !same_str(ca[i], cb[i]) {
            assert(ua[i as int] != ub[i as int]);
            return false;
        }
        i = i + 1;
    }
    assert(ua =~= ub);
    true
}

/// Whether a route with this method and path answers a request with this
/// method and path.
pub open spec fn route_matches(
    route_method: Method,
    route_path: Seq<char>,
    method: Method,
    path: Seq<char>,
) -> bool {
    route_method == method && unix_path_components(route_path) == unix_path_components(path)
}

/// Whether a route with this method and path answers a request with this
/// method and path (see [`route_matches`]).
pub fn is_match(route_method: Method, route_path: &str, method: Method, path: &str) -> (b: bool)
    ensures
        b == route_matches(route_method, route_path@, method, path@),
{
    route_method == method && same_path(route_path, path)
}

/// A route: the method and path it answers, and its handler.
#[derive(Debug)]
pub struct TypedRoute<H> {
    pub method: Method,
    pub path: String,
    pub handler: H,
}

impl<H> TypedRoute<H> {
    /// A route for this method and path.
    pub fn new(method: Method, path: &str, handler: H) -> (r: TypedRoute<H>)
        ensures
            r.method == method,
            r.path@ == path@,
            r.handler == handler,
    {
        TypedRoute { method, path: path.to_owned(), handler }
    }

    /// Whether this route answers a request with this method and path.
    pub fn is_match(&self, method: Method, path: &str) -> (b: bool)
        ensures
            b == route_matches(self.method, self.path@, method, path@),
    {
        is_match(self.method, self.path.as_str(), method, path)
    }
}

/// Routes, in the order in which they were added.
#[derive(Debug)]
pub struct Router<H> {
    routes: Vec<TypedRoute<H>>,
}

impl<H> View for Router<H> {
    type V = Seq<TypedRoute<H>>;

    closed spec fn view(&self) -> Seq<TypedRoute<H>> {
        self.routes@
    }
}

/// The index of the first route that answers a request with this method and
/// path, if any.
pub open spec fn first_match<H>(routes: Seq<TypedRoute<H>>, method: Method, path: Seq<char>) -> Option<
    int,
> {
    if exists|i: int|
        0 <= i < routes.len() && route_matches(routes[i].method, routes[i].path@, method, path) {
        Some(
            choose|i: int|
                0 <= i < routes.len() && route_matches(routes[i].method, routes[i].path@, method, path)
                    && forall|j: int|
                    0 <= j < i ==> !route_matches(routes[j].method, routes[j].path@, method, path),
        )
    } else {
        None
    }
}

impl<H> Router<H> {
    /// No route.
    pub fn new() -> (r: Router<H>)
        ensures
            r@ == Seq::<TypedRoute<H>>::empty(),
    {
        Router { routes: Vec::new() }
    }

    /// Adds a route after the others.
    pub fn add_route(&mut self, route: TypedRoute<H>)
        ensures
            final(self)@ == old(self)@.push(route),
    {
        self.routes.push(route);
    }

    /// Adds the routes of another router after these.
    pub fn nest(&mut self, router: Router<H>)
        ensures
            final(self)@ == old(self)@ + router@,
    {
        let mut other = router.routes;
        self.routes.append(&mut other);
    }

    /// The number of routes.
    pub fn len(&self) -> (n: usize)
        ensures
            n == self@.len(),
    {
        self.routes.len()
    }

    /// Whether there is no route.
    pub fn is_empty(&self) -> (b: bool)
        ensures
            b == (self@.len() == 0),
    {
        self.routes.len() == 0
    }

    /// The first route that answers a request with this method and path, if
    /// any (see [`first_match`]).
    pub fn find_route(&self, method: Method, path: &str) -> (r: Option<&TypedRoute<H>>)
        ensures
            match first_match(self@, method, path@) {
                Some(i) => r matches Some(x) && *x == self@[i],
                None => r is None,
            },
    {
        let mut i: usize = 0;
        while i < self.routes.len()
            invariant
                i <= self.routes@.len(),
                forall|j: int|
                    0 <= j < i ==> !route_matches(
                        #[trigger] self.routes@[j].method,
                        self.routes@[j].path@,
                        method,
                        path@,
                    ),
            decreases self.routes@.len() - i,
        {
            if self.routes[i].is_match(method, path) {
                proof {
                    let routes = self@;
                    let k = choose|k: int|
                        0 <= k < routes.len() && route_matches(routes[k].method, routes[k].path@, method, path@)
                            && forall|j: int|
                            0 <= j < k ==> !route_matches(routes[j].method, routes[j].path@, method, path@);
                    assert(0 <= i < routes.len() && route_matches(
                        routes[i as int].method,
                        routes[i as int].path@,
                        method,
                        path@,
                    ) && forall|j: int|
                        0 <= j < i ==> !route_matches(routes[j].method, routes[j].path@, method, path@));
                    if k < i {
                        assert(!route_matches(routes[k].method, routes[k].path@, method, path@));
                    }
                    if i < k {
                        assert(!route_matches(
                            routes[i as int].method,
                            routes[i as int].path@,
                            method,
                            path@,
                        ));
                    }
                }
                return Some(&self.routes[i]);
            }
            i = i + 1;
        }
        None
    }
}

impl<H> Default for Router<H> {
    /// No route.
    fn default() -> (r: Router<H>)
        ensures
            r@ == Seq::<TypedRoute<H>>::empty(),
    {
        Router::new()
    }
}

} // verus!
