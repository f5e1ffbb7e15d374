pub mod http_header;
pub mod http_status;
