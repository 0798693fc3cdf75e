pub mod cache_control;
pub mod cache_control_laws;
pub mod encoding;
pub mod header_map;
pub mod headers;
pub mod method;
pub mod status;
pub mod status_order;
