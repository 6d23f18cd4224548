//! The routing surface: a mapping from method-and-path pairs to handlers,
//! with the shared application state injected at construction, and the rule
//! that a handler's resource failure becomes an error response instead of
//! propagating. The handlers themselves are outside collaborators; the
//! library identifies each by a number the surrounding process assigns.

use vstd::prelude::*;
use crate::pool::AcquireError;
use crate::state::AppState;

verus! {

/// The HTTP methods routes distinguish.
#[derive(Clone, Copy, Debug, PartialEq, Eq, Structural)]
pub enum HttpMethod {
    Get,
    Post,
    Put,
    Delete,
    Patch,
}

/// One registered route: a method-and-path pair and the identifier of the
/// handler it dispatches to.
pub struct Route {
    pub method: HttpMethod,
    pub path: String,
    pub handler: u64,
}

impl Route {
    pub open spec fn view_tuple(self) -> (HttpMethod, Seq<char>, u64) {
        (self.method, self.path@, self.handler)
    }
}

/// The handler the earliest matching route maps a request to, if any.
pub open spec fn spec_lookup(
    routes: Seq<(HttpMethod, Seq<char>, u64)>,
    method: HttpMethod,
    path: Seq<char>,
) -> Option<u64>
    decreases routes.len(),
{
    if routes.len() == 0 {
        None
    } else if routes.first().0 == method && routes.first().1 == path {
        Some(routes.first().2)
    } else {
        spec_lookup(routes.drop_first(), method, path)
    }
}

/// The router: the registered routes, in registration order, and the shared
/// state every handler receives when invoked.
pub struct Router {
    routes: Vec<Route>,
    state: AppState,
}

impl Router {
    pub closed spec fn spec_routes(self) -> Seq<(HttpMethod, Seq<char>, u64)> {
        self.routes@.map_values(|r: Route| r.view_tuple())
    }

    pub closed spec fn spec_state(self) -> AppState {
        self.state
    }

    /// Registers one more route after the existing ones.
    pub fn route(&mut self, method: HttpMethod, path: String, handler: u64)
        ensures
            final(self).spec_routes() == old(self).spec_routes().push(
                (method, path@, handler),
            ),
            final(self).spec_state() == old(self).spec_state(),
    {
        let r = Route { method, path, handler };
        let ghost before = self.routes@;
        self.routes.push(r);
        proof {
            assert(self.routes@.map_values(|r: Route| r.view_tuple()) =~= before.map_values(
                |r: Route| r.view_tuple(),
            ).push((method, r.path@, handler)));
        }
    }

    /// The handler for a request, by the earliest route whose method and
    /// path both match; `None` exactly when no route matches.
    pub fn lookup(&self, method: HttpMethod, path: &String) -> (r: Option<u64>)
        ensures
            r == spec_lookup(self.spec_routes(), method, path@),
    {
        let n = self.routes.len();
        let mut i: usize = 0;
        proof {
            assert(self.spec_routes().skip(0) =~= self.spec_routes());
        }
        while i < n
            invariant
                0 <= i <= n,
                n == self.routes.len(),
                self.spec_routes() == self.routes@.map_values(|r: Route| r.view_tuple()),
                self.spec_routes().len() == n,
                spec_lookup(self.spec_routes().skip(i as int), method, path@) == spec_lookup(
                    self.spec_routes(),
                    method,
                    path@,
                ),
                forall|j: int| 0 <= j < i ==> !(self.spec_routes()[j].0 == method
                    && self.spec_routes()[j].1 == path@),
            decreases n - i,
        {
            let route = &self.routes[i];
            proof {
                assert(self.spec_routes().skip(i as int).first() == self.spec_routes()[i as int]);
                assert(self.spec_routes()[i as int] == self.routes@[i as int].view_tuple());
                assert(self.spec_routes().skip(i as int).drop_first() =~= self.spec_routes().skip(
                    i + 1,
                ));
            }
            if route.method == method && route.path.eq(path) {
                return Some(route.handler);
            }
            i = i + 1;
        }
        proof {
            assert(self.spec_routes().skip(n as int) =~= Seq::<(HttpMethod, Seq<char>, u64)>::empty());
        }
        None
    }

    /// The state a handler invocation receives: always the one injected at
    /// construction.
    pub fn state(&self) -> (r: &AppState)
        ensures
            *r == self.spec_state(),
    {
        &self.state
    }
}

/// Builds the routing surface around the shared state; pure construction,
/// no failure mode. Routes are registered afterwards, in order.
pub fn build_router(state: AppState) -> (r: Router)
    ensures
        r.spec_routes() == Seq::<(HttpMethod, Seq<char>, u64)>::empty(),
        r.spec_state() == state,
{
    let router = Router { routes: Vec::new(), state };
    proof {
        assert(router.spec_routes() =~= Seq::<(HttpMethod, Seq<char>, u64)>::empty());
    }
    router
}

/// The status code of the generic internal-error response.
pub const INTERNAL_ERROR_STATUS: u16 = 500;

/// Law: per-request resource failures never propagate to the process. A
/// handler's outcome becomes the response's status: its own on success, and
/// the generic internal-error status on any acquisition failure — no detail
/// of the resource leaks out.
pub fn response_status(outcome: Result<u16, AcquireError>) -> (r: u16)
    ensures
        match outcome {
            Ok(status) => r == status,
            Err(_) => r == INTERNAL_ERROR_STATUS,
        },
{
    match outcome {
        Ok(status) => status,
        Err(_) => INTERNAL_ERROR_STATUS,
    }
}

} // verus!
