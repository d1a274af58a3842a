//! A small embedded HTTP server: request parsing, routing by path and
//! virtual host, response serialization, and the task queue that feeds a
//! pool of workers.

pub mod app;
pub mod http_manager;
pub mod http_parser;
pub mod http_server;
pub mod minimal;
pub mod oyster;
pub mod response;
pub mod text;
pub mod thread_pool;

pub use http_manager::HTTPManager;
pub use http_parser::HTTPRequest;
pub use http_server::HTTPServer;
pub use oyster::MainConfig;
pub use response::Response;
