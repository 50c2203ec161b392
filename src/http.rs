use vstd::prelude::*;
use vstd::utf8::*;

use crate::store::{Hero, HeroView, NewHero, hero_views};

verus! {

/// A request method.
#[derive(Debug, PartialEq, Eq, Structural, Clone, Copy)]
pub enum Method {
    Get,
    Post,
    Put,
    Delete,
    Patch,
    Head,
    Options,
}

/// An inbound request, as the HTTP layer hands it over: the method, the target (path
/// and query string, undecoded), the headers with lower-case names, the cookies, and
/// the body where it was read as a creation request (`None` where there is none or it
/// did not parse).
pub struct Request {
    pub method: Method,
    pub target: String,
    pub headers: Vec<(String, String)>,
    pub cookies: Vec<(String, String)>,
    pub body: Option<NewHero>,
}

pub open spec fn pair_views(v: Seq<(String, String)>) -> Seq<(Seq<char>, Seq<char>)> {
    v.map_values(|p: (String, String)| (p.0@, p.1@))
}

/// The value of the first pair in `ps` named `name`.
pub open spec fn value_named(ps: Seq<(Seq<char>, Seq<char>)>, name: Seq<char>) -> Option<Seq<char>>
    decreases ps.len(),
{
    if ps.len() == 0 {
        None
    } else if ps[0].0 == name {
        Some(ps[0].1)
    } else {
        value_named(ps.drop_first(), name)
    }
}

pub proof fn lemma_value_named_member(ps: Seq<(Seq<char>, Seq<char>)>, name: Seq<char>)
    requires
        value_named(ps, name) is Some,
    ensures
        exists|i: int| 0 <= i < ps.len() && (#[trigger] ps[i]).1 == value_named(ps, name).unwrap(),
    decreases ps.len(),
{
    if ps[0].0 != name {
        lemma_value_named_member(ps.drop_first(), name);
        let i = choose|i: int| 0 <= i < ps.drop_first().len() && (#[trigger] ps.drop_first()[i]).1 == value_named(ps.drop_first(), name).unwrap();
        assert(ps[i + 1] == ps.drop_first()[i]);
    } else {
        assert(ps[0].1 == value_named(ps, name).unwrap());
    }
}

/// Finds the value of the first pair named `name`.
pub fn find_named(ps: &Vec<(String, String)>, name: &str) -> (r: Option<String>)
    ensures
        r matches Some(v) ==> value_named(pair_views(ps@), name@) == Some(v@),
        r is None ==> value_named(pair_views(ps@), name@) is None,
{
    let mut i: usize = 0;
    assert(pair_views(ps@).subrange(0, ps@.len() as int) =~= pair_views(ps@));
    while i < ps.len()
        invariant
            i <= ps@.len(),
            value_named(pair_views(ps@), name@) == value_named(
                pair_views(ps@).subrange(i as int, ps@.len() as int),
                name@,
            ),
        decreases ps@.len() - i,
    {
        let ghost rest = pair_views(ps@).subrange(i as int, ps@.len() as int);
        assert(rest[0] == (ps@[i as int].0@, ps@[i as int].1@));
        if ps[i].0.eq(&String::from_str(name)) {
            return Some(ps[i].1.clone());
        }
        assert(rest.drop_first() =~= pair_views(ps@).subrange(i + 1, ps@.len() as int));
        i = i + 1;
    }
    None
}

/// A request as the pipeline reads it; a creation body is its name and flag.
pub struct RequestView {
    pub method: Method,
    pub target: Seq<char>,
    pub headers: Seq<(Seq<char>, Seq<char>)>,
    pub cookies: Seq<(Seq<char>, Seq<char>)>,
    pub body: Option<(Seq<char>, bool)>,
}

impl View for Request {
    type V = RequestView;

    open spec fn view(&self) -> RequestView {
        RequestView {
            method: self.method,
            target: self.target@,
            headers: pair_views(self.headers@),
            cookies: pair_views(self.cookies@),
            body: match self.body {
                Some(b) => Some((b.name@, b.can_fly)),
                None => None,
            },
        }
    }
}

impl Request {
    /// A request without headers, cookies or body.
    pub fn new(method: Method, target: &str) -> (r: Request)
        ensures
            r.method == method,
            r.target@ == target@,
            r.headers@.len() == 0,
            r.cookies@.len() == 0,
            r.body is None,
    {
        Request {
            method,
            target: String::from_str(target),
            headers: Vec::new(),
            cookies: Vec::new(),
            body: None,
        }
    }

    /// The same request with one more header.
    pub fn with_header(self, name: &str, value: &str) -> (r: Request)
        ensures
            r.method == self.method,
            r.target == self.target,
            pair_views(r.headers@) == pair_views(self.headers@).push((name@, value@)),
            r.cookies == self.cookies,
            r.body == self.body,
    {
        let mut r = self;
        let ghost before = r.headers@;
        let pair = (String::from_str(name), String::from_str(value));
        r.headers.push(pair);
        assert(pair_views(r.headers@) =~= pair_views(before).push((name@, value@)));
        r
    }

    /// The same request with a creation body.
    pub fn with_body(self, body: NewHero) -> (r: Request)
        ensures
            r.method == self.method,
            r.target == self.target,
            r.headers == self.headers,
            r.cookies == self.cookies,
            r.body == Some(body),
    {
        let mut r = self;
        r.body = Some(body);
        r
    }

    /// Every header value is of a size that memory can hold.
    pub open spec fn sized(&self) -> bool {
        forall|i: int|
            0 <= i < self.headers@.len() ==> encode_utf8((#[trigger] self.headers@[i]).1@).len()
                <= isize::MAX
    }
}

/// What a response carries.
#[derive(Debug)]
pub enum Body {
    Empty,
    Text(String),
    Html(String),
    One(Hero),
    Many(Vec<Hero>),
}

pub enum BodyView {
    Empty,
    Text(Seq<char>),
    Html(Seq<char>),
    One(HeroView),
    Many(Seq<HeroView>),
}

impl View for Body {
    type V = BodyView;

    open spec fn view(&self) -> BodyView {
        match self {
            Body::Empty => BodyView::Empty,
            Body::Text(s) => BodyView::Text(s@),
            Body::Html(s) => BodyView::Html(s@),
            Body::One(h) => BodyView::One(h@),
            Body::Many(v) => BodyView::Many(hero_views(v@)),
        }
    }
}

/// An outbound response: status code, body, `Location` header and a cookie to set.
#[derive(Debug)]
pub struct Response {
    pub status: u16,
    pub body: Body,
    pub location: Option<String>,
    pub set_cookie: Option<(String, String)>,
}

pub struct ResponseView {
    pub status: u16,
    pub body: BodyView,
    pub location: Option<Seq<char>>,
    pub set_cookie: Option<(Seq<char>, Seq<char>)>,
}

impl View for Response {
    type V = ResponseView;

    open spec fn view(&self) -> ResponseView {
        ResponseView {
            status: self.status,
            body: self.body@,
            location: match self.location {
                Some(l) => Some(l@),
                None => None,
            },
            set_cookie: match self.set_cookie {
                Some(c) => Some((c.0@, c.1@)),
                None => None,
            },
        }
    }
}

impl Response {
    /// A response with the given status and body, and no header or cookie besides.
    pub fn plain(status: u16, body: Body) -> (r: Response)
        ensures
            r@ == (ResponseView { status, body: body@, location: None, set_cookie: None }),
    {
        Response { status, body, location: None, set_cookie: None }
    }

    /// The response's text, where its body is text or markup.
    pub fn text(&self) -> (r: Option<String>)
        ensures
            match self.body@ {
                BodyView::Text(s) => r matches Some(t) && t@ == s,
                BodyView::Html(s) => r matches Some(t) && t@ == s,
                _ => r is None,
            },
    {
        match &self.body {
            Body::Text(s) => Some(s.clone()),
            Body::Html(s) => Some(s.clone()),
            _ => None,
        }
    }
}

} // verus!
