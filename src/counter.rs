use vstd::prelude::*;
use vstd::string::*;

use crate::http::Method;

verus! {

/// `n + 1`, staying at the largest value once it is reached.
pub open spec fn bumped(n: usize) -> usize {
    if n == usize::MAX {
        n
    } else {
        (n + 1) as usize
    }
}

/// What a fairing is called and at which lifecycle points it runs.
#[derive(Debug)]
pub struct Info {
    pub name: String,
    pub on_ignite: bool,
    pub on_request: bool,
    pub on_response: bool,
}

/// A fairing that counts the GET and POST requests it sees. Other methods are not
/// counted.
#[derive(Debug, Clone, Copy, PartialEq, Eq, Structural)]
pub struct Counter {
    pub get: usize,
    pub post: usize,
}

/// The counts after one request with method `m`.
pub open spec fn counted(c: Counter, m: Method) -> Counter {
    match m {
        Method::Get => Counter { get: bumped(c.get), post: c.post },
        Method::Post => Counter { get: c.get, post: bumped(c.post) },
        _ => c,
    }
}

/// The counts after requests with the methods `ms`, in order.
pub open spec fn counted_all(c: Counter, ms: Seq<Method>) -> Counter
    decreases ms.len(),
{
    if ms.len() == 0 {
        c
    } else {
        counted(counted_all(c, ms.drop_last()), ms.last())
    }
}

/// How many of `ms` are `m`.
pub open spec fn occurrences(ms: Seq<Method>, m: Method) -> nat
    decreases ms.len(),
{
    if ms.len() == 0 {
        0
    } else {
        occurrences(ms.drop_last(), m) + if ms.last() == m {
            1nat
        } else {
            0nat
        }
    }
}

impl Counter {
    /// No request counted yet.
    pub fn new() -> (r: Counter)
        ensures
            r == (Counter { get: 0, post: 0 }),
    {
        Counter { get: 0, post: 0 }
    }

    /// The fairing's name and the lifecycle points at which it runs: at start and on
    /// every request.
    pub fn info(&self) -> (r: Info)
        ensures
            r.name@ == "GET/POST Counter"@,
            r.on_ignite,
            r.on_request,
            !r.on_response,
    {
        Info { name: String::from_str("GET/POST Counter"), on_ignite: true, on_request: true, on_response: false }
    }

    /// Counts one inbound request with method `m`.
    pub fn on_request(&mut self, m: Method)
        ensures
            *final(self) == counted(*old(self), m),
            final(self).get >= old(self).get,
            final(self).post >= old(self).post,
    {
        match m {
            Method::Get => {
                self.get = self.get.saturating_add(1);
            },
            Method::Post => {
                self.post = self.post.saturating_add(1);
            },
            _ => {},
        }
    }
}

/// After `g` GET and `p` POST requests, counted from zero, the counts are exactly `g`
/// and `p`, as long as neither exceeds the largest `usize`; they never go down.
pub proof fn lemma_counts_exact(ms: Seq<Method>)
    requires
        occurrences(ms, Method::Get) <= usize::MAX,
        occurrences(ms, Method::Post) <= usize::MAX,
    ensures
        counted_all(Counter { get: 0, post: 0 }, ms).get == occurrences(ms, Method::Get),
        counted_all(Counter { get: 0, post: 0 }, ms).post == occurrences(ms, Method::Post),
    decreases ms.len(),
{
    if ms.len() > 0 {
        lemma_counts_exact(ms.drop_last());
    }
}

/// Counting one more request never lowers a count.
pub proof fn lemma_counts_monotonic(c: Counter, m: Method)
    ensures
        counted(c, m).get >= c.get,
        counted(c, m).post >= c.post,
{
}

/// Counting more requests never lowers a count.
pub proof fn lemma_counts_never_decrease(c: Counter, ms: Seq<Method>)
    ensures
        counted_all(c, ms).get >= c.get,
        counted_all(c, ms).post >= c.post,
    decreases ms.len(),
{
    if ms.len() > 0 {
        lemma_counts_never_decrease(c, ms.drop_last());
    }
}

} // verus!
