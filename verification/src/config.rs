//! Configuration and the route table.
//!
//! A route maps `(method, path)`, both compared by exact byte equality, to
//! a handler name, a loaded module and a key/value environment.  The table
//! is built once at startup and immutable afterwards.  When two entries
//! collide on `(method, path)` the last one wins.

use vstd::prelude::*;

use crate::bytes::bytes_eq;
use crate::interpreter::Module;
use crate::interpreter::ModuleV;

verus! {

/// One application of the configuration: which requests it serves, which
/// module file and exported function handle them, and its environment.
pub struct WasmApp {
    pub file_path: Vec<u8>,
    pub method: Vec<u8>,
    pub url_path: Vec<u8>,
    pub function: Vec<u8>,
    pub env: Option<Vec<(Vec<u8>, Vec<u8>)>>,
}

/// The whole static configuration.
pub struct Config {
    pub listen_address: Vec<u8>,
    pub applications: Vec<WasmApp>,
}

#[verifier::ext_equal]
pub ghost struct AppV {
    pub file_path: Seq<u8>,
    pub method: Seq<u8>,
    pub url_path: Seq<u8>,
    pub function: Seq<u8>,
    pub env: Option<Seq<(Seq<u8>, Seq<u8>)>>,
}

impl View for WasmApp {
    type V = AppV;

    open spec fn view(&self) -> AppV {
        AppV {
            file_path: self.file_path@,
            method: self.method@,
            url_path: self.url_path@,
            function: self.function@,
            env: match self.env {
                Some(ref e) => Some(e@.map_values(|p: (Vec<u8>, Vec<u8>)| (p.0@, p.1@))),
                None => None,
            },
        }
    }
}

/// One row of the route table.
pub struct RouteEntry {
    pub method: Vec<u8>,
    pub url_path: Vec<u8>,
    pub function: Vec<u8>,
    pub env: Vec<(Vec<u8>, Vec<u8>)>,
    /// Index of the loaded module serving this route.
    pub module: usize,
}

#[verifier::ext_equal]
pub ghost struct RouteEntryV {
    pub method: Seq<u8>,
    pub url_path: Seq<u8>,
    pub function: Seq<u8>,
    pub env: Seq<(Seq<u8>, Seq<u8>)>,
    pub module: int,
}

impl View for RouteEntry {
    type V = RouteEntryV;

    open spec fn view(&self) -> RouteEntryV {
        RouteEntryV {
            method: self.method@,
            url_path: self.url_path@,
            function: self.function@,
            env: self.env@.map_values(|p: (Vec<u8>, Vec<u8>)| (p.0@, p.1@)),
            module: self.module as int,
        }
    }
}

/// The routes and the modules they point into, loaded once at startup.
pub struct ApplicationState {
    pub routes: Vec<RouteEntry>,
    /// Modules by file path; loaded once per distinct path.
    pub modules: Vec<(Vec<u8>, Module)>,
}

#[verifier::ext_equal]
pub ghost struct AppStateV {
    pub routes: Seq<RouteEntryV>,
    pub modules: Seq<(Seq<u8>, ModuleV)>,
}

impl View for ApplicationState {
    type V = AppStateV;

    open spec fn view(&self) -> AppStateV {
        AppStateV {
            routes: self.routes@.map_values(|r: RouteEntry| r@),
            modules: self.modules@.map_values(|m: (Vec<u8>, Module)| (m.0@, m.1@)),
        }
    }
}

/// Index of the first module stored under this file path.
pub open spec fn module_index(modules: Seq<(Seq<u8>, ModuleV)>, path: Seq<u8>) -> Option<int>
    decreases modules.len(),
{
    if modules.len() == 0 {
        None
    } else if modules[0].0 == path {
        Some(0int)
    } else {
        match module_index(modules.drop_first(), path) {
            Some(i) => Some(i + 1),
            None => None,
        }
    }
}

/// A found module index lies inside the table.
pub proof fn lemma_module_index_bound(modules: Seq<(Seq<u8>, ModuleV)>, path: Seq<u8>)
    ensures
        module_index(modules, path) matches Some(i) ==> 0 <= i < modules.len(),
    decreases modules.len(),
{
    if modules.len() > 0 && !(modules[0].0 == path) {
        lemma_module_index_bound(modules.drop_first(), path);
    }
}

/// The route entry one application contributes.
pub open spec fn entry_of(app: AppV, module: int) -> RouteEntryV {
    RouteEntryV {
        method: app.method,
        url_path: app.url_path,
        function: app.function,
        env: match app.env {
            Some(e) => e,
            None => Seq::<(Seq<u8>, Seq<u8>)>::empty(),
        },
        module: module,
    }
}

/// The route table the applications build, in configuration order; `None`
/// when one names a module path that was not loaded.
pub open spec fn build_routes(apps: Seq<AppV>, modules: Seq<(Seq<u8>, ModuleV)>) -> Option<
    Seq<RouteEntryV>,
>
    decreases apps.len(),
{
    if apps.len() == 0 {
        Some(Seq::<RouteEntryV>::empty())
    } else {
        match module_index(modules, apps[0].file_path) {
            None => None,
            Some(i) => match build_routes(apps.drop_first(), modules) {
                None => None,
                Some(rest) => Some(seq![entry_of(apps[0], i)] + rest),
            },
        }
    }
}

/// Every entry of a built route table points inside the module table.
pub proof fn lemma_build_routes_modules_in_bounds(
    apps: Seq<AppV>,
    modules: Seq<(Seq<u8>, ModuleV)>,
)
    ensures
        build_routes(apps, modules) matches Some(rs) ==> forall|i: int|
            0 <= i < rs.len() ==> 0 <= (#[trigger] rs[i]).module < modules.len(),
    decreases apps.len(),
{
    if apps.len() > 0 {
        lemma_module_index_bound(modules, apps[0].file_path);
        lemma_build_routes_modules_in_bounds(apps.drop_first(), modules);
        match build_routes(apps, modules) {
            Some(rs) => {
                let rest = build_routes(apps.drop_first(), modules)->0;
                assert forall|i: int| 0 <= i < rs.len() implies 0 <= (#[trigger] rs[i]).module
                    < modules.len() by {
                    if i > 0 {
                        assert(rs[i] == rest[i - 1]);
                    }
                }
            },
            None => {},
        }
    }
}

/// Index of the route serving `(method, path)`: the last matching entry.
pub open spec fn route_lookup(routes: Seq<RouteEntryV>, method: Seq<u8>, path: Seq<u8>) -> Option<
    int,
>
    decreases routes.len(),
{
    if routes.len() == 0 {
        None
    } else if routes.last().method == method && routes.last().url_path == path {
        Some(routes.len() - 1)
    } else {
        route_lookup(routes.drop_last(), method, path)
    }
}

/// Route exactness: a request is served exactly when some configured entry
/// matches its method and path byte for byte, and the entry serving it is
/// the last such entry.
pub proof fn lemma_route_exactness(routes: Seq<RouteEntryV>, method: Seq<u8>, path: Seq<u8>)
    ensures
        route_lookup(routes, method, path) is Some <==> exists|i: int|
            0 <= i < routes.len() && (#[trigger] routes[i]).method == method
                && routes[i].url_path == path,
        route_lookup(routes, method, path) matches Some(i) ==> 0 <= i < routes.len()
            && routes[i].method == method && routes[i].url_path == path && forall|j: int|
            i < j < routes.len() ==> !((#[trigger] routes[j]).method == method
                && routes[j].url_path == path),
    decreases routes.len(),
{
    if routes.len() > 0 {
        lemma_route_exactness(routes.drop_last(), method, path);
        let last = routes.last();
        if last.method == method && last.url_path == path {
        } else {
            assert(forall|i: int|
                0 <= i < routes.len() - 1 ==> routes.drop_last()[i] == routes[i]);
            if route_lookup(routes, method, path) is None {
                assert forall|i: int|
                    0 <= i < routes.len() implies !((#[trigger] routes[i]).method == method
                    && routes[i].url_path == path) by {
                    if i < routes.len() - 1 {
                        assert(routes.drop_last()[i] == routes[i]);
                    }
                }
            }
        }
    }
}

/// Index of the first module stored under this file path.
fn find_module(modules: &Vec<(Vec<u8>, Module)>, path: &Vec<u8>) -> (r: Option<usize>)
    ensures
        ({
            let mv = modules@.map_values(|m: (Vec<u8>, Module)| (m.0@, m.1@));
            match r {
                Some(i) => module_index(mv, path@) == Some(i as int) && i < modules@.len(),
                None => module_index(mv, path@) is None,
            }
        }),
{
    let ghost mv = modules@.map_values(|m: (Vec<u8>, Module)| (m.0@, m.1@));
    let n = modules.len();
    let mut i: usize = 0;
    proof {
        assert(mv.skip(0) =~= mv);
    }
    while i < n
        invariant
            i <= n,
            n == modules@.len(),
            mv == modules@.map_values(|m: (Vec<u8>, Module)| (m.0@, m.1@)),
            forall|j: int| 0 <= j < i ==> !(mv[j].0 == path@),
            module_index(mv, path@) == match module_index(mv.skip(i as int), path@) {
                Some(k) => Some(k + i),
                None => None::<int>,
            },
        decreases n - i,
    {
        proof {
            assert(mv.skip(i as int)[0] == mv[i as int]);
        }
        if bytes_eq(modules[i].0.as_slice(), path.as_slice()) {
            return Some(i);
        }
        proof {
            assert(mv.skip(i as int).drop_first() =~= mv.skip(i + 1));
        }
        i = i + 1;
    }
    proof {
        assert(mv.skip(n as int) =~= Seq::<(Seq<u8>, ModuleV)>::empty());
    }
    None
}

/// Turn the applications into route entries, in order.
fn build_route_entries(apps: Vec<WasmApp>, modules: &Vec<(Vec<u8>, Module)>) -> (r: Option<
    Vec<RouteEntry>,
>)
    ensures
        ({
            let mv = modules@.map_values(|m: (Vec<u8>, Module)| (m.0@, m.1@));
            let av = apps@.map_values(|a: WasmApp| a@);
            match r {
                Some(entries) => build_routes(av, mv) == Some(
                    entries@.map_values(|e: RouteEntry| e@),
                ),
                None => build_routes(av, mv) is None,
            }
        }),
    decreases apps@.len(),
{
    let ghost mv = modules@.map_values(|m: (Vec<u8>, Module)| (m.0@, m.1@));
    let ghost av = apps@.map_values(|a: WasmApp| a@);
    let mut apps = apps;
    if apps.len() == 0 {
        let entries: Vec<RouteEntry> = Vec::new();
        proof {
            assert(entries@.map_values(|e: RouteEntry| e@) =~= Seq::<RouteEntryV>::empty());
        }
        return Some(entries);
    }
    let app = apps.remove(0);
    proof {
        assert(app@ == av[0]);
        assert(apps@.map_values(|a: WasmApp| a@) =~= av.drop_first());
    }
    let i = match find_module(modules, &app.file_path) {
        None => {
            return None;
        },
        Some(i) => i,
    };
    let rest = match build_route_entries(apps, modules) {
        None => {
            return None;
        },
        Some(rest) => rest,
    };
    let env = match app.env {
        None => Vec::new(),
        Some(e) => e,
    };
    let entry = RouteEntry {
        method: app.method,
        url_path: app.url_path,
        function: app.function,
        env,
        module: i,
    };
    proof {
        assert(entry@ == entry_of(av[0], i as int));
    }
    let mut out = rest;
    out.insert(0, entry);
    proof {
        assert(out@.map_values(|e: RouteEntry| e@) =~= seq![entry_of(av[0], i as int)]
            + out@.drop_first().map_values(|e: RouteEntry| e@));
    }
    Some(out)
}

impl ApplicationState {
    /// Build the route table over the loaded modules; `None` when an
    /// application names a module path that was not loaded, which is a
    /// startup failure.
    pub fn new(config: Config, modules: Vec<(Vec<u8>, Module)>) -> (r: Option<ApplicationState>)
        ensures
            ({
                let mv = modules@.map_values(|m: (Vec<u8>, Module)| (m.0@, m.1@));
                let av = config.applications@.map_values(|a: WasmApp| a@);
                match r {
                    Some(s) => {
                        &&& build_routes(av, mv) == Some(s@.routes)
                        &&& s@.modules == mv
                        &&& forall|i: int|
                            0 <= i < s@.routes.len() ==> 0 <= (#[trigger] s@.routes[i]).module
                                < s@.modules.len()
                    },
                    None => build_routes(av, mv) is None,
                }
            }),
    {
        let ghost mv = modules@.map_values(|m: (Vec<u8>, Module)| (m.0@, m.1@));
        let ghost av = config.applications@.map_values(|a: WasmApp| a@);
        proof {
            lemma_build_routes_modules_in_bounds(av, mv);
        }
        match build_route_entries(config.applications, &modules) {
            None => None,
            Some(routes) => {
                let r = ApplicationState { routes, modules };
                proof {
                    let rs = build_routes(av, mv)->0;
                    assert(r@.routes == rs);
                    assert forall|i: int| 0 <= i < r@.routes.len() implies 0 <= (
                    #[trigger] r@.routes[i]).module < r@.modules.len() by {
                        assert(r@.routes[i] == rs[i]);
                    }
                }
                Some(r)
            },
        }
    }

    /// Exact lookup: no wildcards, no longest-prefix; the last colliding
    /// entry wins.  Returns the handler name, the module and the env.
    pub fn route(&self, method: &[u8], url: &[u8]) -> (r: Option<
        (&Vec<u8>, usize, &Module, &Vec<(Vec<u8>, Vec<u8>)>),
    >)
        ensures
            ({
                let found = route_lookup(self@.routes, method@, url@);
                match r {
                    Some(t) => {
                        &&& found matches Some(i)
                        &&& 0 <= i < self@.routes.len()
                        &&& 0 <= self@.routes[i].module < self@.modules.len()
                        &&& t.0@ == self@.routes[i].function
                        &&& t.1 as int == self@.routes[i].module
                        &&& t.2@ == self@.modules[self@.routes[i].module].1
                        &&& t.3@.map_values(|p: (Vec<u8>, Vec<u8>)| (p.0@, p.1@))
                            == self@.routes[i].env
                    },
                    None => found is None || !(0 <= found->0 < self@.routes.len()
                        && 0 <= self@.routes[found->0].module < self@.modules.len()),
                }
            }),
    {
        let ghost rv = self@.routes;
        let n = self.routes.len();
        let mut i: usize = n;
        proof {
            assert(rv.take(n as int) =~= rv);
        }
        while i > 0
            invariant
                i <= n,
                n == self.routes@.len(),
                rv == self@.routes,
                route_lookup(rv, method@, url@) == route_lookup(rv.take(i as int), method@, url@),
            decreases i,
        {
            i = i - 1;
            proof {
                assert(rv.take(i + 1).last() == rv[i as int]);
                assert(rv.take(i + 1).drop_last() =~= rv.take(i as int));
            }
            if bytes_eq(self.routes[i].method.as_slice(), method) && bytes_eq(
                self.routes[i].url_path.as_slice(),
                url,
            ) {
                let midx = self.routes[i].module;
                if midx < self.modules.len() {
                    return Some(
                        (
                            &self.routes[i].function,
                            midx,
                            &self.modules[midx].1,
                            &self.routes[i].env,
                        ),
                    );
                } else {
                    return None;
                }
            }
        }
        proof {
            assert(rv.take(0) =~= Seq::<RouteEntryV>::empty());
        }
        None
    }
}

} // verus!
