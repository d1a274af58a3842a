use oyster::minimal::parse_host;
use oyster::minimal::parse_path;
use oyster::minimal::App;
use oyster::minimal::Request;
use oyster::response::Response;

type Handler = Box<dyn Fn(Request, Response) -> Response>;

#[test]
fn new_request_has_no_host() {
    assert_eq!(Request::new().host, "");
}

#[test]
fn path_is_the_second_word_of_the_first_line() {
    assert_eq!(parse_path("GET /hi HTTP/1.1\r\nHost: a\r\n\r\n"), "/hi");
    assert_eq!(parse_path("GET\t/tabbed\tHTTP/1.1"), "/tabbed");
    assert_eq!(parse_path("  POST   /x  "), "/x");
    assert_eq!(parse_path("GET\r\n/second line"), "/");
    assert_eq!(parse_path("\r\nGET /hi"), "/");
    assert_eq!(parse_path(""), "/");
}

#[test]
fn host_is_the_second_word_of_the_host_line() {
    assert_eq!(parse_host("GET /hi HTTP/1.1\r\nHost: localhost:3000\r\n\r\n"), "localhost:3000");
    assert_eq!(parse_host("GET / HTTP/1.1\nHost:nospace\nHost: second\n"), "second");
    assert_eq!(parse_host("GET / HTTP/1.1\nHost: first\nHost: second\n"), "first");
    assert_eq!(parse_host("Hostile takeover\n"), "takeover");
    assert_eq!(parse_host("GET / HTTP/1.1\nhost: lower\n"), "");
    assert_eq!(parse_host("GET / HTTP/1.1\n Host: indented\n"), "");
    assert_eq!(parse_host(""), "");
}

#[test]
fn minimal_app_tells_the_handler_the_host() {
    let mut app: App<Handler> = App::new();
    app.get("/hi", Box::new(|req, mut res| res.send(&req.host).status(202)));
    assert_eq!(
        app.answer("GET /hi HTTP/1.1\r\nHost: localhost:3000\r\n\r\n"),
        "HTTP/1.1 202 OK\r\nContent-Length: 14\r\n\r\nlocalhost:3000"
    );
    assert_eq!(
        app.answer("ANY /hi"),
        "HTTP/1.1 202 OK\r\nContent-Length: 0\r\n\r\n"
    );
}

#[test]
fn minimal_app_answers_200_for_a_missing_route() {
    let mut app: App<Handler> = App::new();
    app.get("/", Box::new(|_req, mut res| res.send("root")));
    assert_eq!(
        app.respond(b"GET /missing HTTP/1.1\r\nHost: a\r\n\r\n"),
        "HTTP/1.1 200 OK\r\nContent-Length: 9\r\n\r\nNot found"
    );
    assert_eq!(app.respond(b""), "HTTP/1.1 200 OK\r\nContent-Length: 4\r\n\r\nroot");
    assert_eq!(app.respond(&[0u8; 1024]), "HTTP/1.1 200 OK\r\nContent-Length: 4\r\n\r\nroot");
}
