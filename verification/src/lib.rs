pub mod http;
pub mod routing_sample;
pub mod server;
pub mod text;
