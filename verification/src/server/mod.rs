pub mod config;
pub mod http_request;
pub mod http_response;
pub mod upstream;
pub mod worker;
