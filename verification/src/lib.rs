pub mod file_table;
pub mod response;
pub mod router;
pub mod tls;
