use vstd::prelude::*;
use vstd::string::*;
use vstd::utf8::*;

use crate::api_key::{
    ApiKey,
    ApiKeyError,
    Outcome,
    UNAUTHORIZED,
    base64_encoded,
    credential_of,
    encode_base64,
};
use crate::counter::{Counter, counted};
use crate::http::{
    RequestView,
    Body,
    BodyView,
    Method,
    Request,
    Response,
    ResponseView,
    find_named,
    pair_views,
    value_named,
};
use crate::store::{Hero, HeroStore, HeroView, NewHero, created, hero_views, hero_with_id};
use crate::text::{
    decimal,
    decimal_text,
    digits_value,
    find_char,
    find_value,
    first_pos,
    is_index,
    lemma_first_pos_bounds,
    lemma_split_on_nonempty,
    lookup,
    parse_index,
    percent_decode,
    percent_decoded,
    split,
    split_on,
    views,
};

verus! {

/// The route that a request resolves to, with what its path and query supply.
pub enum Route {
    Index,
    Greeting(String),
    QueryGreeting(String, Option<String>),
    Protected,
    Login,
    Session,
    AddHero,
    GetHero(usize),
    GetAll,
    Counts,
    NotFound,
}

pub enum RouteView {
    Index,
    Greeting(Seq<char>),
    QueryGreeting(Seq<char>, Option<Seq<char>>),
    Protected,
    Login,
    Session,
    AddHero,
    GetHero(usize),
    GetAll,
    Counts,
    NotFound,
}

impl View for Route {
    type V = RouteView;

    open spec fn view(&self) -> RouteView {
        match self {
            Route::Index => RouteView::Index,
            Route::Greeting(n) => RouteView::Greeting(n@),
            Route::QueryGreeting(n, s) => RouteView::QueryGreeting(
                n@,
                match s {
                    Some(t) => Some(t@),
                    None => None,
                },
            ),
            Route::Protected => RouteView::Protected,
            Route::Login => RouteView::Login,
            Route::Session => RouteView::Session,
            Route::AddHero => RouteView::AddHero,
            Route::GetHero(id) => RouteView::GetHero(*id),
            Route::GetAll => RouteView::GetAll,
            Route::Counts => RouteView::Counts,
            Route::NotFound => RouteView::NotFound,
        }
    }
}

/// The path of a request target: what stands before the first `?`.
pub open spec fn target_path(t: Seq<char>) -> Seq<char> {
    t.subrange(0, first_pos(t, '?'))
}

/// The query of a request target: what stands after the first `?`, if anything.
pub open spec fn target_query(t: Seq<char>) -> Seq<char> {
    if first_pos(t, '?') < t.len() {
        t.subrange(first_pos(t, '?') + 1, t.len() as int)
    } else {
        Seq::empty()
    }
}

/// The percent-decoded value of the query field `key`, `None` where it is absent or
/// does not decode to UTF-8.
pub open spec fn query_field(pairs: Seq<Seq<char>>, key: Seq<char>) -> Option<Seq<char>> {
    match lookup(pairs, key) {
        Some(v) => percent_decoded(v, true),
        None => None,
    }
}

/// Looks up and decodes the query field `key`.
pub fn find_query_field(pairs: &Vec<String>, key: &str) -> (r: Option<String>)
    ensures
        r is Some <==> query_field(views(pairs@), key@) is Some,
        r matches Some(t) ==> query_field(views(pairs@), key@) == Some(t@),
{
    match find_value(pairs, key) {
        Some(v) => percent_decode(v.as_str(), true),
        None => None,
    }
}

/// The route for method `m` and target `t`. Variable path segments and query
/// values are percent-decoded; a segment that does not decode matches no route. Every route is mounted under `/api`;
/// a fixed segment is tried before a variable one, and `/hello` without a `name`
/// in its query falls through to the greeting by name.
pub open spec fn route_of(m: Method, t: Seq<char>) -> RouteView {
    let segs = split_on(target_path(t), '/');
    let pairs = split_on(target_query(t), '&');
    if !(segs.len() >= 2 && segs[0].len() == 0 && segs[1] == "api"@) {
        RouteView::NotFound
    } else if m == Method::Get {
        if segs.len() == 2 {
            RouteView::Index
        } else if segs.len() == 3 {
            let s = segs[2];
            if s == "counts"@ {
                RouteView::Counts
            } else if s == "protected"@ {
                RouteView::Protected
            } else if s == "login"@ {
                RouteView::Login
            } else if s == "session"@ {
                RouteView::Session
            } else if s == "heroes"@ {
                RouteView::GetAll
            } else if s == "hello"@ && query_field(pairs, "name"@) is Some {
                RouteView::QueryGreeting(
                    query_field(pairs, "name"@).unwrap(),
                    query_field(pairs, "salutation"@),
                )
            } else if s.len() > 0 && percent_decoded(s, false) is Some {
                RouteView::Greeting(percent_decoded(s, false).unwrap())
            } else {
                RouteView::NotFound
            }
        } else if segs.len() == 4 && segs[2] == "heroes"@ && percent_decoded(segs[3], false) is Some
            && is_index(percent_decoded(segs[3], false).unwrap()) {
            RouteView::GetHero(digits_value(percent_decoded(segs[3], false).unwrap()) as usize)
        } else {
            RouteView::NotFound
        }
    } else if m == Method::Post && segs.len() == 3 && segs[2] == "heroes"@ {
        RouteView::AddHero
    } else {
        RouteView::NotFound
    }
}

/// Resolves a request's method and target to a route.
pub fn resolve(m: Method, target: &str) -> (r: Route)
    ensures
        r@ == route_of(m, target@),
{
    let n = target.unicode_len();
    let q = find_char(target, '?');
    proof {
        lemma_first_pos_bounds(target@, '?');
    }
    let path = target.substring_char(0, q);
    let query = if q < n {
        target.substring_char(q + 1, n)
    } else {
        ""
    };
    proof {
        reveal_strlit("");
        assert(query@ =~= target_query(target@));
    }
    let segs = split(path, '/');
    let pairs = split(query, '&');
    proof {
        lemma_split_on_nonempty(path@, '/');
    }
    let ghost sv = views(segs@);
    assert(segs@.len() == sv.len());
    if !(segs.len() >= 2 && segs[0].unicode_len() == 0 && segs[1].eq(&String::from_str("api"))) {
        return Route::NotFound;
    }
    assert(sv[0] == segs@[0]@ && sv[1] == segs@[1]@);
    if m == Method::Get {
        if segs.len() == 2 {
            Route::Index
        } else if segs.len() == 3 {
            let s = &segs[2];
            assert(sv[2] == s@);
            if s.eq(&String::from_str("counts")) {
                Route::Counts
            } else if s.eq(&String::from_str("protected")) {
                Route::Protected
            } else if s.eq(&String::from_str("login")) {
                Route::Login
            } else if s.eq(&String::from_str("session")) {
                Route::Session
            } else if s.eq(&String::from_str("heroes")) {
                Route::GetAll
            } else {
                let name = if s.eq(&String::from_str("hello")) {
                    find_query_field(&pairs, "name")
                } else {
                    None
                };
                match name {
                    Some(v) => Route::QueryGreeting(v, find_query_field(&pairs, "salutation")),
                    None => {
                        if s.unicode_len() > 0 {
                            match percent_decode(s.as_str(), false) {
                                Some(n) => Route::Greeting(n),
                                None => Route::NotFound,
                            }
                        } else {
                            Route::NotFound
                        }
                    },
                }
            }
        } else if segs.len() == 4 && segs[2].eq(&String::from_str("heroes")) {
            assert(sv[2] == segs@[2]@ && sv[3] == segs@[3]@);
            match percent_decode(segs[3].as_str(), false) {
                Some(d) => match parse_index(d.as_str()) {
                    Some(id) => Route::GetHero(id),
                    None => Route::NotFound,
                },
                None => Route::NotFound,
            }
        } else {
            Route::NotFound
        }
    } else if m == Method::Post && segs.len() == 3 && segs[2].eq(&String::from_str("heroes")) {
        assert(sv[2] == segs@[2]@);
        Route::AddHero
    } else {
        Route::NotFound
    }
}

} // verus!

verus! {

pub open spec fn greeting_text(name: Seq<char>) -> Seq<char> {
    "Hello "@ + name
}

pub open spec fn query_greeting_text(name: Seq<char>, salutation: Option<Seq<char>>) -> Seq<char> {
    match salutation {
        Some(s) => s + " "@ + name,
        None => "Hello "@ + name,
    }
}

pub open spec fn protected_text(key: Seq<char>) -> Seq<char> {
    "You are allowed to access this API because you presented key '"@ + key + "'"@
}

pub open spec fn session_text(has_cookie: bool) -> Seq<char> {
    if has_cookie {
        "You got the cookie!"@
    } else {
        "Sorry, no cookie!"@
    }
}

pub open spec fn not_found_page() -> Seq<char> {
    "\n        <h1>Not found</h1>\n        <p>What are you looking for?</p>\n    "@
}

pub open spec fn counts_text(c: Counter) -> Seq<char> {
    "Get: "@ + decimal_text(c.get as nat) + "\nPost: "@ + decimal_text(c.post as nat)
}

pub open spec fn hero_location(id: usize) -> Seq<char> {
    "/api/heroes/"@ + decimal_text(id as nat)
}

/// The value of the session cookie that a login sets.
pub open spec fn session_value() -> Seq<char> {
    base64_encoded(encode_utf8("this_is_a_session_key"@))
}

/// The fixed greeting.
pub fn hello_world() -> (r: String)
    ensures
        r@ == "Hello, world!"@,
{
    String::from_str("Hello, world!")
}

/// Greets `name`.
pub fn greeting(name: &str) -> (r: String)
    ensures
        r@ == greeting_text(name@),
{
    String::from_str("Hello ").concat(name)
}

/// Greets `name` with `salutation`, or with "Hello" where there is none.
pub fn query_greeting(name: &str, salutation: Option<&str>) -> (r: String)
    ensures
        r@ == query_greeting_text(
            name@,
            match salutation {
                Some(s) => Some(s@),
                None => None,
            },
        ),
{
    match salutation {
        Some(s) => String::from_str(s).concat(" ").concat(name),
        None => String::from_str("Hello ").concat(name),
    }
}

/// The answer of the guarded route, naming the credential that was presented.
pub fn protected(key: &ApiKey) -> (r: String)
    ensures
        r@ == protected_text(key.0@),
{
    String::from_str("You are allowed to access this API because you presented key '").concat(
        key.0.as_str(),
    ).concat("'")
}

/// The cookie that a login sets: its name and its value.
pub fn login() -> (r: (String, String))
    ensures
        r.0@ == "Session"@,
        r.1@ == session_value(),
{
    proof {
        reveal_strlit("this_is_a_session_key");
    }
    (String::from_str("Session"), encode_base64("this_is_a_session_key"))
}

/// Whether the request's cookies hold a session, in words.
pub fn session(cookies: &Vec<(String, String)>) -> (r: String)
    ensures
        r@ == session_text(value_named(pair_views(cookies@), "Session"@) is Some),
{
    match find_named(cookies, "Session") {
        Some(_) => String::from_str("You got the cookie!"),
        None => String::from_str("Sorry, no cookie!"),
    }
}

/// The page for a request that no route answers.
pub fn not_found() -> (r: String)
    ensures
        r@ == not_found_page(),
{
    String::from_str("\n        <h1>Not found</h1>\n        <p>What are you looking for?</p>\n    ")
}

/// The report of the counter fairing.
pub fn counts(c: &Counter) -> (r: String)
    ensures
        r@ == counts_text(*c),
{
    String::from_str("Get: ").concat(decimal(c.get).as_str()).concat("\nPost: ").concat(
        decimal(c.post).as_str(),
    )
}

/// The `Location` of the resource with identifier `id`.
pub fn location_of(id: usize) -> (r: String)
    ensures
        r@ == hero_location(id),
{
    String::from_str("/api/heroes/").concat(decimal(id).as_str())
}

impl ApiKey {
    /// The credential guard: the request's `x-api-key` header decoded, or a refusal
    /// with status 401 saying whether the header is missing or malformed. It never
    /// forwards.
    pub fn from_request(req: &Request) -> (r: Outcome<ApiKey, ApiKeyError>)
        requires
            req.sized(),
        ensures
            match value_named(pair_views(req.headers@), "x-api-key"@) {
                None => r == Outcome::<ApiKey, ApiKeyError>::Failure(
                    UNAUTHORIZED,
                    ApiKeyError::MissingKey,
                ),
                Some(h) => match credential_of(encode_utf8(h)) {
                    Some(c) => r matches Outcome::Success(k) && k.0@ == c,
                    None => r == Outcome::<ApiKey, ApiKeyError>::Failure(
                        UNAUTHORIZED,
                        ApiKeyError::InvalidKey,
                    ),
                },
            },
    {
        match find_named(&req.headers, "x-api-key") {
            None => Outcome::Failure(UNAUTHORIZED, ApiKeyError::MissingKey),
            Some(h) => {
                proof {
                    crate::http::lemma_value_named_member(pair_views(req.headers@), "x-api-key"@);
                    let i = choose|i: int|
                        0 <= i < pair_views(req.headers@).len() && (#[trigger] pair_views(
                            req.headers@,
                        )[i]).1 == h@;
                    assert(req.headers@[i].1@ == h@);
                }
                match ApiKey::from_header(Some(h.as_str())) {
                    Ok(k) => Outcome::Success(k),
                    Err(e) => Outcome::Failure(UNAUTHORIZED, e),
                }
            },
        }
    }
}

} // verus!

verus! {

/// The service: its resources, its counter fairing, and whether that fairing has
/// mounted its `/api/counts` route at start.
pub struct Service {
    pub store: HeroStore,
    pub counter: Counter,
    pub counts_mounted: bool,
}

/// The status code and body of a refusal or a plain answer.
pub open spec fn plain(status: u16, body: BodyView) -> ResponseView {
    ResponseView { status, body, location: None, set_cookie: None }
}

/// The resources after `req`, where `before` were stored: a creation with a body
/// appends a resource under the next identifier while identifiers remain.
pub open spec fn store_after(req: RequestView, before: Seq<HeroView>) -> Seq<HeroView> {
    match (route_of(req.method, req.target), req.body) {
        (RouteView::AddHero, Some((name, can_fly))) => if before.len() + 1 <= usize::MAX {
            before.push(HeroView { id: (before.len() + 1) as usize, name, can_fly })
        } else {
            before
        },
        _ => before,
    }
}

/// The answer to a creation of a resource with `name` and `can_fly`, where `before`
/// were stored: 201 with the new resource and its `Location`, or 500 once identifiers
/// are used up.
pub open spec fn created_answer(before: Seq<HeroView>, name: Seq<char>, can_fly: bool) -> ResponseView {
    if before.len() + 1 <= usize::MAX {
        ResponseView {
            status: 201,
            body: BodyView::One(HeroView { id: (before.len() + 1) as usize, name, can_fly }),
            location: Some(hero_location((before.len() + 1) as usize)),
            set_cookie: None,
        }
    } else {
        plain(500, BodyView::Empty)
    }
}

/// The response to `req`, where `before` were stored and `c` are the counts once the
/// request itself has been counted, and `mounted` says whether the counter fairing
/// has mounted its route (without it `/api/counts` is a greeting by name).
pub open spec fn answer(req: RequestView, before: Seq<HeroView>, c: Counter, mounted: bool) -> ResponseView {
    match route_of(req.method, req.target) {
        RouteView::Index => plain(200, BodyView::Text("Hello, world!"@)),
        RouteView::Greeting(n) => plain(200, BodyView::Text(greeting_text(n))),
        RouteView::QueryGreeting(n, s) => plain(200, BodyView::Text(query_greeting_text(n, s))),
        RouteView::Protected => match value_named(req.headers, "x-api-key"@) {
            None => plain(UNAUTHORIZED, BodyView::Empty),
            Some(h) => match credential_of(encode_utf8(h)) {
                Some(k) => plain(200, BodyView::Text(protected_text(k))),
                None => plain(UNAUTHORIZED, BodyView::Empty),
            },
        },
        RouteView::Login => ResponseView {
            status: 200,
            body: BodyView::Empty,
            location: None,
            set_cookie: Some(("Session"@, session_value())),
        },
        RouteView::Session => plain(
            200,
            BodyView::Text(session_text(value_named(req.cookies, "Session"@) is Some)),
        ),
        RouteView::AddHero => match req.body {
            None => plain(422, BodyView::Empty),
            Some((name, can_fly)) => created_answer(before, name, can_fly),
        },
        RouteView::GetHero(id) => match hero_with_id(before, id) {
            Some(h) => plain(200, BodyView::One(h)),
            None => plain(404, BodyView::Html(not_found_page())),
        },
        RouteView::GetAll => plain(200, BodyView::Many(before)),
        RouteView::Counts => if mounted {
            plain(200, BodyView::Text(counts_text(c)))
        } else {
            plain(200, BodyView::Text(greeting_text("counts"@)))
        },
        RouteView::NotFound => plain(404, BodyView::Html(not_found_page())),
    }
}

impl Service {
    pub open spec fn wf(&self) -> bool {
        self.store.wf()
    }

    /// A service with no resources, nothing counted, and no fairing started.
    pub fn new() -> (r: Service)
        ensures
            r.wf(),
            r.store.contents() == Seq::<HeroView>::empty(),
            r.counter == (Counter { get: 0, post: 0 }),
            !r.counts_mounted,
    {
        Service { store: HeroStore::new(), counter: Counter::new(), counts_mounted: false }
    }

    /// Stores a new resource and answers 201 with it and its `Location`; 500, with
    /// nothing stored, once identifiers are used up.
    pub fn add_hero(&mut self, hero: NewHero) -> (r: Response)
        requires
            old(self).wf(),
        ensures
            final(self).wf(),
            final(self).counter == old(self).counter,
            final(self).counts_mounted == old(self).counts_mounted,
            old(self).store.contents().len() + 1 <= usize::MAX ==> created(
                old(self).store.contents(),
                final(self).store.contents(),
                hero.name@,
                hero.can_fly,
            ),
            old(self).store.contents().len() + 1 > usize::MAX ==> final(self).store.contents()
                == old(self).store.contents(),
            r@ == created_answer(old(self).store.contents(), hero.name@, hero.can_fly),
    {
        match self.store.create(hero.name, hero.can_fly) {
            Some(h) => {
                let loc = location_of(h.id);
                Response { status: 201, body: Body::One(h), location: Some(loc), set_cookie: None }
            },
            None => Response::plain(500, Body::Empty),
        }
    }
}

impl Service {
    /// The resource with identifier `id`, if there is one.
    pub fn get_hero(&self, id: usize) -> (r: Option<Hero>)
        requires
            self.wf(),
        ensures
            r is Some <==> hero_with_id(self.store.contents(), id) is Some,
            r matches Some(h) ==> hero_with_id(self.store.contents(), id) == Some(h@),
    {
        self.store.get(id)
    }

    /// All resources, in the order of their identifiers.
    pub fn get_all(&self) -> (r: Vec<Hero>)
        requires
            self.wf(),
        ensures
            hero_views(r@) == self.store.contents(),
    {
        self.store.list()
    }

    /// Runs a request through the pipeline: the counter fairing counts it, the route
    /// is resolved, its guard runs, and its handler answers.
    pub fn dispatch(&mut self, req: &Request) -> (r: Response)
        requires
            old(self).wf(),
            req.sized(),
        ensures
            final(self).wf(),
            final(self).counter == counted(old(self).counter, req.method),
            final(self).store.contents() == store_after(req@, old(self).store.contents()),
            final(self).counts_mounted == old(self).counts_mounted,
            r@ == answer(req@, old(self).store.contents(), final(self).counter, old(self).counts_mounted),
    {
        self.counter.on_request(req.method);
        match resolve(req.method, req.target.as_str()) {
            Route::Index => Response::plain(200, Body::Text(hello_world())),
            Route::Greeting(n) => Response::plain(200, Body::Text(greeting(n.as_str()))),
            Route::QueryGreeting(n, s) => {
                let text = match s {
                    Some(t) => query_greeting(n.as_str(), Some(t.as_str())),
                    None => query_greeting(n.as_str(), None),
                };
                Response::plain(200, Body::Text(text))
            },
            Route::Protected => match ApiKey::from_request(req) {
                Outcome::Success(k) => Response::plain(200, Body::Text(protected(&k))),
                Outcome::Failure(status, _) => Response::plain(status, Body::Empty),
                Outcome::Forward => Response::plain(404, Body::Html(not_found())),
            },
            Route::Login => {
                let cookie = login();
                Response { status: 200, body: Body::Empty, location: None, set_cookie: Some(cookie) }
            },
            Route::Session => Response::plain(200, Body::Text(session(&req.cookies))),
            Route::AddHero => match &req.body {
                Some(nh) => {
                    let hero = NewHero { name: nh.name.clone(), can_fly: nh.can_fly };
                    self.add_hero(hero)
                },
                None => Response::plain(422, Body::Empty),
            },
            Route::GetHero(id) => match self.get_hero(id) {
                Some(h) => Response::plain(200, Body::One(h)),
                None => Response::plain(404, Body::Html(not_found())),
            },
            Route::GetAll => Response::plain(200, Body::Many(self.get_all())),
            Route::Counts => if self.counts_mounted {
                Response::plain(200, Body::Text(counts(&self.counter)))
            } else {
                Response::plain(200, Body::Text(greeting("counts")))
            },
            Route::NotFound => Response::plain(404, Body::Html(not_found())),
        }
    }
}

impl Counter {
    /// The fairing's start: it mounts the `/api/counts` route, which reports its counts.
    pub fn on_ignite(&self, service: &mut Service)
        ensures
            final(service).counts_mounted,
            final(service).store == old(service).store,
            final(service).counter == old(service).counter,
    {
        service.counts_mounted = true;
    }
}

/// Assembles the service: every route mounted under `/api`, an empty store, and the
/// counter fairing attached and started.
pub fn rocket() -> (r: Service)
    ensures
        r.wf(),
        r.store.contents() == Seq::<HeroView>::empty(),
        r.counter == (Counter { get: 0, post: 0 }),
        r.counts_mounted,
{
    let mut service = Service::new();
    let fairing = service.counter;
    fairing.on_ignite(&mut service);
    service
}

} // verus!

