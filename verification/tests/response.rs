use oyster::response::Response;

#[test]
fn fresh_response_is_200_without_body() {
    let response = Response::new();
    assert_eq!(response.status, 200);
    assert_eq!(response.text, "");
}

#[test]
fn send_sets_the_body_and_keeps_the_status() {
    let mut response = Response::new();
    let sent = response.send("hey");
    assert_eq!(sent.text, "hey");
    assert_eq!(sent.status, 200);
    assert_eq!(response.text, "hey");
    assert_eq!(response.status, 200);
}

#[test]
fn status_sets_the_code_and_keeps_the_body() {
    let mut response = Response::new();
    response.send("hey");
    let set = response.status(201);
    assert_eq!(set.status, 201);
    assert_eq!(set.text, "hey");
    assert_eq!(response.status, 201);
    assert_eq!(response.text, "hey");
}

#[test]
fn last_call_wins() {
    let mut response = Response::new();
    response.send("first");
    response.status(500);
    response.send("second");
    let last = response.status(0);
    assert_eq!(last.text, "second");
    assert_eq!(last.status, 0);
}

#[test]
fn calls_chain_in_either_order() {
    let one = Response::new().send("hello").status(201);
    let other = Response::new().status(201).send("hello");
    assert_eq!(one.text, other.text);
    assert_eq!(one.status, other.status);
    assert_eq!(one.text, "hello");
    assert_eq!(one.status, 201);
}
