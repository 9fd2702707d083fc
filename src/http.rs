use vstd::prelude::*;

verus! {

/// The only request line that is answered with the greeting page.
pub open spec fn greeting_request() -> Seq<u8> {
    seq![71u8, 69, 84, 32, 47, 32, 72, 84, 84, 80, 47, 49, 46, 49, 13, 10]
}

/// Which page answers a request.
pub enum Route {
    Hello,
    NotFound,
}

/// The route of a request whose first bytes are `buffer`.
pub open spec fn route_of(buffer: Seq<u8>) -> Route {
    if buffer.len() >= greeting_request().len() && buffer.subrange(
        0,
        greeting_request().len() as int,
    ) == greeting_request() {
        Route::Hello
    } else {
        Route::NotFound
    }
}

/// The file of a route's page.
pub open spec fn page_of(route: Route) -> Seq<char> {
    match route {
        Route::Hello => "hello.html"@,
        Route::NotFound => "404.html"@,
    }
}

/// The text that opens a route's response.
pub open spec fn status_of(route: Route) -> Seq<char> {
    match route {
        Route::Hello => "HTTP/1.1 200 OK \r\n\r\n"@,
        Route::NotFound => "HTTP/1.1 404 NOT FOUND\r\n\r\n"@,
    }
}

/// Relies on String::push_str: `tail` is appended at the end.
#[verifier::external_body]
fn push_str(s: &mut String, tail: &str)
    ensures
        final(s)@ == old(s)@ + tail@,
{
    s.push_str(tail)
}

/// The route of a request: the greeting page when the request starts with
/// `GET / HTTP/1.1\r\n`, the not-found page otherwise.
pub fn route(buffer: &[u8]) -> (r: Route)
    ensures
        r == route_of(buffer@),
{
    let expected: Vec<u8> = vec![71u8, 69, 84, 32, 47, 32, 72, 84, 84, 80, 47, 49, 46, 49, 13, 10];
    assert(expected@ =~= greeting_request());
    if buffer.len() < expected.len() {
        return Route::NotFound;
    }
    let mut i: usize = 0;
    while i < expected.len()
        invariant
            i <= expected.len(),
            expected@ == greeting_request(),
            buffer.len() >= expected.len(),
            buffer@.subrange(0, i as int) == expected@.subrange(0, i as int),
        decreases expected.len() - i,
    {
        if buffer[i] != expected[i] {
            assert(buffer@.subrange(0, expected.len() as int)[i as int] != expected@[i as int]);
            return Route::NotFound;
        }
        assert(buffer@.subrange(0, i + 1) =~= expected@.subrange(0, i + 1));
        i = i + 1;
    }
    assert(expected@.subrange(0, i as int) =~= expected@);
    Route::Hello
}

impl Route {
    /// The file that holds the page of this route.
    pub fn page(&self) -> (r: &'static str)
        ensures
            r@ == page_of(*self),
    {
        match self {
            Route::Hello => {
                proof {
                    reveal_strlit("hello.html");
                }
                "hello.html"
            },
            Route::NotFound => {
                proof {
                    reveal_strlit("404.html");
                }
                "404.html"
            },
        }
    }

    /// The status line and blank line that open the response.
    pub fn status_line(&self) -> (r: &'static str)
        ensures
            r@ == status_of(*self),
    {
        match self {
            Route::Hello => "HTTP/1.1 200 OK \r\n\r\n",
            Route::NotFound => "HTTP/1.1 404 NOT FOUND\r\n\r\n",
        }
    }
}

/// The response to a request: the route's status line, then the page.
pub fn render(route: &Route, contents: &str) -> (r: String)
    ensures
        r@ == status_of(*route) + contents@,
{
    let mut out = route.status_line().to_owned();
    push_str(&mut out, contents);
    out
}

} // verus!
