//! The shared web server's content: outputs register content at endpoints, and
//! the server answers each request with what is registered at its path.
use vstd::prelude::*;

pub mod server;

verus! {

/// The settings of the shared web server, with the credentials already resolved.
pub struct WebServerConfig {
    pub host: String,
    pub port: u16,
    pub username: String,
    pub password: String,
}

/// A single piece of content registered at an endpoint.
#[derive(Clone)]
pub struct ContentEntry {
    pub content_type: String,
    pub body: Vec<u8>,
}

/// What an entry holds: its content type and its body.
pub struct ContentView {
    pub content_type: Seq<char>,
    pub body: Seq<u8>,
}

impl View for ContentEntry {
    type V = ContentView;

    open spec fn view(&self) -> ContentView {
        ContentView { content_type: self.content_type@, body: self.body@ }
    }
}

impl ContentEntry {
    /// A copy of the entry.
    pub fn duplicate(&self) -> (c: ContentEntry)
        ensures
            c@ == self@,
    {
        ContentEntry { content_type: self.content_type.clone(), body: self.body.clone() }
    }
}

/// The path an endpoint is served at: the endpoint itself when it starts with `/`,
/// otherwise the endpoint with `/` in front.
pub open spec fn route_path(endpoint: Seq<char>) -> Seq<char> {
    if endpoint.len() > 0 && endpoint[0] == '/' {
        endpoint
    } else {
        seq!['/'] + endpoint
    }
}

/// The content registered by the routes `v`, by path (a later route wins).
pub open spec fn routes_map(v: Seq<(String, ContentEntry)>) -> Map<Seq<char>, ContentView>
    decreases v.len(),
{
    if v.len() == 0 {
        Map::empty()
    } else {
        routes_map(v.drop_last()).insert(v.last().0@, v.last().1@)
    }
}

/// No two routes of `v` have the same path.
pub open spec fn paths_unique(v: Seq<(String, ContentEntry)>) -> bool {
    forall|i: int, j: int| 0 <= i < j < v.len() ==> (#[trigger] v[i]).0@ != (#[trigger] v[j]).0@
}

proof fn lemma_routes_map_has(v: Seq<(String, ContentEntry)>, i: int)
    requires
        paths_unique(v),
        0 <= i < v.len(),
    ensures
        routes_map(v).contains_key(v[i].0@),
        routes_map(v)[v[i].0@] == v[i].1@,
    decreases v.len(),
{
    if i < v.len() - 1 {
        assert(v.drop_last()[i] == v[i]);
        lemma_routes_map_has(v.drop_last(), i);
        assert(v.last().0@ != v[i].0@) by {
            assert(v[i] == v[i]);
            assert(v[v.len() - 1] == v.last());
        }
    }
}

proof fn lemma_routes_map_lacks(v: Seq<(String, ContentEntry)>, k: Seq<char>)
    requires
        forall|i: int| 0 <= i < v.len() ==> (#[trigger] v[i]).0@ != k,
    ensures
        !routes_map(v).contains_key(k),
    decreases v.len(),
{
    if v.len() > 0 {
        assert forall|i: int| 0 <= i < v.drop_last().len() implies (#[trigger] v.drop_last()[i]).0@ != k by {
            assert(v.drop_last()[i] == v[i]);
        }
        lemma_routes_map_lacks(v.drop_last(), k);
        assert(v[v.len() - 1] == v.last());
    }
}

/// The index of the route for `path`, if there is one.
fn find_route(routes: &Vec<(String, ContentEntry)>, path: &String) -> (r: Option<usize>)
    ensures
        match r {
            Some(i) => i < routes@.len() && routes@[i as int].0@ == path@,
            None => forall|k: int| 0 <= k < routes@.len() ==> (#[trigger] routes@[k]).0@ != path@,
        },
{
    let mut i: usize = 0;
    while i < routes.len()
        invariant
            i <= routes@.len(),
            forall|k: int| 0 <= k < i ==> (#[trigger] routes@[k]).0@ != path@,
        decreases routes.len() - i,
    {
        if routes[i].0 == *path {
            return Some(i);
        }
        i = i + 1;
    }
    None
}

/// The registered content of the shared web server, by path.
pub struct WebServer {
    routes: Vec<(String, ContentEntry)>,
}

impl View for WebServer {
    type V = Map<Seq<char>, ContentView>;

    closed spec fn view(&self) -> Map<Seq<char>, ContentView> {
        routes_map(self.routes@)
    }
}

/// What the server holds at `path`, if anything.
pub open spec fn served(content: Map<Seq<char>, ContentView>, path: Seq<char>) -> Option<ContentView> {
    if content.contains_key(path) {
        Some(content[path])
    } else {
        None
    }
}

impl WebServer {
    #[verifier::type_invariant]
    closed spec fn well_formed(self) -> bool {
        paths_unique(self.routes@)
    }

    /// A server with nothing registered.
    pub fn empty() -> (s: Self)
        ensures
            s@ == Map::<Seq<char>, ContentView>::empty(),
    {
        let s = WebServer { routes: Vec::new() };
        assert(s@ =~= Map::<Seq<char>, ContentView>::empty());
        s
    }

    /// Registers or replaces content at `endpoint` (e.g. `"/"` or `"/briefing.wav"`);
    /// an endpoint without a leading `/` gets one.
    pub fn update(&mut self, endpoint: &str, entry: ContentEntry)
        ensures
            final(self)@ == old(self)@.insert(route_path(endpoint@), entry@),
    {
        proof {
            use_type_invariant(&*self);
        }
        let path = route_path_exec(endpoint);
        let mut routes = Vec::new();
        std::mem::swap(&mut routes, &mut self.routes);
        let ghost old_routes = routes@;
        let found = find_route(&routes, &path);
        let ghost key = path@;
        let ghost ev = entry@;
        if let Some(i) = found {
            let ghost before = routes@;
            routes.set(i, (path, entry));
            proof {
                let after = routes@;
                assert(paths_unique(after)) by {
                    assert forall|a: int, b: int| 0 <= a < b < after.len() implies (#[trigger] after[a]).0@ != (#[trigger] after[b]).0@ by {
                        assert(before[a] == before[a] && before[b] == before[b]);
                        assert(before[i as int].0@ == key);
                    }
                }
                assert forall|q: Seq<char>| #[trigger] routes_map(after).contains_key(q) == routes_map(before).insert(key, ev).contains_key(q)
                    && (routes_map(after).contains_key(q) ==> routes_map(after)[q] == routes_map(before).insert(key, ev)[q]) by {
                    if q == key {
                        lemma_routes_map_has(after, i as int);
                    } else if exists|j: int| 0 <= j < before.len() && (#[trigger] before[j]).0@ == q {
                        let j = choose|j: int| 0 <= j < before.len() && (#[trigger] before[j]).0@ == q;
                        assert(before[i as int].0@ == key);
                        assert(j != i);
                        assert(after[j] == before[j]);
                        lemma_routes_map_has(after, j);
                        lemma_routes_map_has(before, j);
                    } else {
                        assert forall|j: int| 0 <= j < after.len() implies (#[trigger] after[j]).0@ != q by {
                            if j != i {
                                assert(after[j] == before[j]);
                            }
                        }
                        lemma_routes_map_lacks(after, q);
                        lemma_routes_map_lacks(before, q);
                    }
                }
                assert(routes_map(after) =~= routes_map(before).insert(key, ev));
            }
        } else {
            routes.push((path, entry));
            proof {
                assert(routes@.drop_last() =~= old_routes);
                assert(paths_unique(routes@)) by {
                    assert forall|a: int, b: int| 0 <= a < b < routes@.len() implies (#[trigger] routes@[a]).0@ != (#[trigger] routes@[b]).0@ by {
                        if b < routes@.len() - 1 {
                            assert(routes@[a] == old_routes[a] && routes@[b] == old_routes[b]);
                        } else {
                            assert(routes@[a] == old_routes[a]);
                        }
                    }
                }
            }
        }
        self.routes = routes;
    }

    /// The content registered at `path`, if any.
    pub fn get(&self, path: &str) -> (r: Option<ContentEntry>)
        ensures
            match r {
                Some(e) => served(self@, path@) == Some(e@),
                None => served(self@, path@) is None,
            },
    {
        proof {
            use_type_invariant(self);
        }
        let p = path.to_owned();
        match find_route(&self.routes, &p) {
            Some(i) => {
                proof {
                    lemma_routes_map_has(self.routes@, i as int);
                }
                Some(self.routes[i].1.duplicate())
            },
            None => {
                proof {
                    lemma_routes_map_lacks(self.routes@, path@);
                }
                None
            },
        }
    }
}

/// The path `endpoint` is served at.
pub fn route_path_exec(endpoint: &str) -> (p: String)
    ensures
        p@ == route_path(endpoint@),
{
    let cs = crate::text::chars_of(endpoint);
    if cs.len() > 0 && cs[0] == '/' {
        endpoint.to_owned()
    } else {
        let mut p = String::new();
        crate::text::push_char(&mut p, '/');
        crate::text::push_str(&mut p, endpoint);
        p
    }
}

/// What a read gives back of a write: after content is registered at an endpoint,
/// the endpoint's path serves exactly that content, and every other path serves
/// what it served before.
pub proof fn read_after_update(before: Map<Seq<char>, ContentView>, endpoint: Seq<char>, entry: ContentView, path: Seq<char>)
    ensures
        served(before.insert(route_path(endpoint), entry), path) == if path == route_path(endpoint) {
            Some(entry)
        } else {
            served(before, path)
        },
{
}

/// Registering content twice at one endpoint leaves only the second content there:
/// the server holds what it would hold after the second registration alone.
pub proof fn update_replaces(before: Map<Seq<char>, ContentView>, endpoint: Seq<char>, first: ContentView, second: ContentView)
    ensures
        before.insert(route_path(endpoint), first).insert(route_path(endpoint), second)
            == before.insert(route_path(endpoint), second),
{
    assert(before.insert(route_path(endpoint), first).insert(route_path(endpoint), second)
        =~= before.insert(route_path(endpoint), second));
}

/// An endpoint given with or without its leading `/` names the same path.
pub proof fn route_path_ignores_leading_slash(endpoint: Seq<char>)
    requires
        endpoint.len() == 0 || endpoint[0] != '/',
    ensures
        route_path(seq!['/'] + endpoint) == route_path(endpoint),
{
    assert((seq!['/'] + endpoint)[0] == '/');
}

} // verus!
