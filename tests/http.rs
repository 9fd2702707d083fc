use workpool::http::{render, route, Route};

#[test]
fn greeting_request_is_routed_to_hello() {
    let mut buffer = [0u8; 512];
    let req = b"GET / HTTP/1.1\r\nHost: x\r\n\r\n";
    buffer[..req.len()].copy_from_slice(req);
    let r = route(&buffer);
    assert!(matches!(r, Route::Hello));
    assert_eq!(r.page(), "hello.html");
}

#[test]
fn other_requests_are_not_found() {
    let r = route(b"GET /other HTTP/1.1\r\n");
    assert!(matches!(r, Route::NotFound));
    assert_eq!(r.page(), "404.html");
    assert!(matches!(route(b"GET / HTTP/1.1"), Route::NotFound));
    assert!(matches!(route(b""), Route::NotFound));
}

#[test]
fn render_puts_status_line_before_page() {
    assert_eq!(render(&Route::Hello, "<p>hi</p>"), "HTTP/1.1 200 OK \r\n\r\n<p>hi</p>");
    assert_eq!(render(&Route::NotFound, "gone"), "HTTP/1.1 404 NOT FOUND\r\n\r\ngone");
}
