use oyster::http_manager::HTTPManager;
use oyster::http_parser::HTTPRequest;
use oyster::http_server::HTTPServer;
use oyster::response::Response;

type Handler = fn(HTTPRequest, Response) -> Response;

#[test]
fn new_manager_has_no_servers() {
    let manager: HTTPManager<Handler> = HTTPManager::new();
    assert_eq!(manager.servers().len(), 0);
}

#[test]
fn servers_stay_in_the_order_they_were_added() {
    let mut manager: HTTPManager<Handler> = HTTPManager::new();
    manager.add_server(HTTPServer::new(3000, "one"));
    manager.add_server(HTTPServer::new(3001, "two"));
    manager.add_server(HTTPServer::new(3000, "three"));
    let ports: Vec<u16> = manager.servers().iter().map(|s| s.http_port).collect();
    assert_eq!(ports, vec![3000, 3001, 3000]);
    let names: Vec<String> = manager.into_servers().into_iter().map(|s| s.server_name).collect();
    assert_eq!(names, vec!["one", "two", "three"]);
}
