use vstd::prelude::*;

use crate::http::{Method, Request, RequestView, Response, pair_views, value_named};
use crate::service::{Service, RouteView, answer, route_of, session_value, store_after};
use crate::counter::counted;
use crate::http::BodyView;
use crate::store::HeroView;
use crate::counter::Counter;

verus! {

/// The cookies a client holds after a response that sets `set` (if any): the new
/// cookie comes first, so that it shadows an older one of the same name.
pub open spec fn jar_after(
    jar: Seq<(Seq<char>, Seq<char>)>,
    set: Option<(Seq<char>, Seq<char>)>,
) -> Seq<(Seq<char>, Seq<char>)> {
    match set {
        Some(c) => seq![c] + jar,
        None => jar,
    }
}

/// What the client sends for `req`: the request with the cookies it holds.
pub open spec fn with_cookies(req: RequestView, jar: Seq<(Seq<char>, Seq<char>)>) -> RequestView {
    RequestView { cookies: jar, ..req }
}

fn copy_pairs(v: &Vec<(String, String)>) -> (r: Vec<(String, String)>)
    ensures
        pair_views(r@) == pair_views(v@),
{
    let mut r: Vec<(String, String)> = Vec::new();
    let mut i: usize = 0;
    while i < v.len()
        invariant
            i <= v@.len(),
            pair_views(r@) == pair_views(v@).subrange(0, i as int),
        decreases v@.len() - i,
    {
        let p = (v[i].0.clone(), v[i].1.clone());
        let ghost prev = r@;
        r.push(p);
        assert(pair_views(r@) =~= pair_views(prev).push((p.0@, p.1@)));
        assert(pair_views(r@) =~= pair_views(v@).subrange(0, i + 1));
        i = i + 1;
    }
    assert(pair_views(v@).subrange(0, i as int) =~= pair_views(v@));
    r
}

/// A client of the service that keeps the cookies that responses set and sends them
/// with each later request.
pub struct Client {
    pub service: Service,
    pub jar: Vec<(String, String)>,
}

impl Client {
    /// A client of `service` that holds no cookie yet.
    pub fn new(service: Service) -> (r: Client)
        ensures
            r.service == service,
            r.jar@.len() == 0,
    {
        Client { service, jar: Vec::new() }
    }

    /// Sends `req` with the client's cookies in place of its own, and keeps the
    /// cookie that the response sets.
    pub fn send(&mut self, req: Request) -> (r: Response)
        requires
            old(self).service.wf(),
            req.sized(),
        ensures
            final(self).service.wf(),
            final(self).service.counts_mounted == old(self).service.counts_mounted,
            final(self).service.counter == counted(old(self).service.counter, req.method),
            final(self).service.store.contents() == store_after(
                with_cookies(req@, pair_views(old(self).jar@)),
                old(self).service.store.contents(),
            ),
            r@ == answer(
                with_cookies(req@, pair_views(old(self).jar@)),
                old(self).service.store.contents(),
                final(self).service.counter,
                old(self).service.counts_mounted,
            ),
            pair_views(final(self).jar@) == jar_after(pair_views(old(self).jar@), r@.set_cookie),
    {
        let ghost given = req@;
        let mut req = req;
        req.cookies = copy_pairs(&self.jar);
        assert(req@ == with_cookies(given, pair_views(old(self).jar@)));
        let r = self.service.dispatch(&req);
        match &r.set_cookie {
            Some(c) => {
                let mut jar: Vec<(String, String)> = Vec::new();
                jar.push((c.0.clone(), c.1.clone()));
                let mut rest = copy_pairs(&self.jar);
                jar.append(&mut rest);
                assert(pair_views(jar@) =~= seq![(c.0@, c.1@)] + pair_views(old(self).jar@));
                self.jar = jar;
            },
            None => {},
        }
        r
    }

    /// Sends a GET request for `target`.
    pub fn get(&mut self, target: &str) -> (r: Response)
        requires
            old(self).service.wf(),
        ensures
            final(self).service.wf(),
            r@ == answer(
                RequestView {
                    method: Method::Get,
                    target: target@,
                    headers: Seq::empty(),
                    cookies: pair_views(old(self).jar@),
                    body: None,
                },
                old(self).service.store.contents(),
                final(self).service.counter,
                old(self).service.counts_mounted,
            ),
            final(self).service.counter == counted(old(self).service.counter, Method::Get),
            final(self).service.counts_mounted == old(self).service.counts_mounted,
            pair_views(final(self).jar@) == jar_after(pair_views(old(self).jar@), r@.set_cookie),
    {
        let req = Request::new(Method::Get, target);
        assert(pair_views(req.headers@) =~= Seq::empty());
        self.send(req)
    }
}

/// A login sets the session cookie; a later request for the session page that
/// carries the cookies kept from it is told that it has the cookie.
pub proof fn lemma_login_then_session(
    login: RequestView,
    session: RequestView,
    jar: Seq<(Seq<char>, Seq<char>)>,
    before: Seq<HeroView>,
    c: Counter,
    m: bool,
    before2: Seq<HeroView>,
    c2: Counter,
    m2: bool,
)
    requires
        route_of(login.method, login.target) == RouteView::Login,
        route_of(session.method, session.target) == RouteView::Session,
        session.cookies == jar_after(jar, answer(login, before, c, m).set_cookie),
    ensures
        answer(login, before, c, m).set_cookie == Some(("Session"@, session_value())),
        answer(session, before2, c2, m2).body == BodyView::Text("You got the cookie!"@),
{
    assert(session.cookies[0].0 == "Session"@);
}

/// Without a session cookie the session page says that there is none.
pub proof fn lemma_session_without_cookie(
    session: RequestView,
    before: Seq<HeroView>,
    c: Counter,
    m: bool,
)
    requires
        route_of(session.method, session.target) == RouteView::Session,
        value_named(session.cookies, "Session"@) is None,
    ensures
        answer(session, before, c, m).body == BodyView::Text("Sorry, no cookie!"@),
{
}

} // verus!
